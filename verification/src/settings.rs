use crate::device::{
    DeviceCall, ARRAY_BUFFER, BLEND, DEPTH_TEST, ELEMENT_ARRAY_BUFFER, FRAMEBUFFER, RENDERBUFFER,
    TEXTURE0,
};
use crate::data_buffer::{ArrayBuffer, Item, ItemsBuffer};
use crate::depth_buffer::DepthBuffer;
use crate::element_buffer::ElementsBuffer;
use crate::frame_buffer::FrameBuffer;
use crate::program::Program;
use crate::texture::{Texture, TextureFilter, TEXTURES_COUNT};
use vstd::prelude::*;

verus! {

/// Weight of the source or the destination colour in blending.
#[derive(Clone, Copy, Debug, PartialEq, Eq, Structural)]
pub enum BlendFunction {
    Zero,
    One,
    SrcColor,
    OneMinusSrcColor,
    DstColor,
    OneMinusDstColor,
    SrcAlpha,
    OneMinusSrcAlpha,
    DstAlpha,
    OneMinusDstAlpha,
    SrcAlphaSaturate,
}

impl BlendFunction {
    /// The device's numeric code of this value.
    pub open spec fn spec_code(self) -> u32 {
        match self {
            BlendFunction::Zero => 0,
            BlendFunction::One => 1,
            BlendFunction::SrcColor => 0x0300,
            BlendFunction::OneMinusSrcColor => 0x0301,
            BlendFunction::DstColor => 0x0306,
            BlendFunction::OneMinusDstColor => 0x0307,
            BlendFunction::SrcAlpha => 0x0302,
            BlendFunction::OneMinusSrcAlpha => 0x0303,
            BlendFunction::DstAlpha => 0x0304,
            BlendFunction::OneMinusDstAlpha => 0x0305,
            BlendFunction::SrcAlphaSaturate => 0x0308,
        }
    }

    /// The device's numeric code of this value.
    #[verifier::when_used_as_spec(spec_code)]
    pub fn code(self) -> (code: u32)
        ensures
            code == self.spec_code(),
    {
        match self {
            BlendFunction::Zero => 0,
            BlendFunction::One => 1,
            BlendFunction::SrcColor => 0x0300,
            BlendFunction::OneMinusSrcColor => 0x0301,
            BlendFunction::DstColor => 0x0306,
            BlendFunction::OneMinusDstColor => 0x0307,
            BlendFunction::SrcAlpha => 0x0302,
            BlendFunction::OneMinusSrcAlpha => 0x0303,
            BlendFunction::DstAlpha => 0x0304,
            BlendFunction::OneMinusDstAlpha => 0x0305,
            BlendFunction::SrcAlphaSaturate => 0x0308,
        }
    }

    /// The value with the given device code, if there is one.
    pub fn from_code(code: u32) -> (value: Option<BlendFunction>)
        ensures
            match value {
                Some(v) => v.spec_code() == code,
                None => forall|v: BlendFunction| v.spec_code() != code,
            },
    {
        if code == 0 {
            Some(BlendFunction::Zero)
        } else if code == 1 {
            Some(BlendFunction::One)
        } else if code == 0x0300 {
            Some(BlendFunction::SrcColor)
        } else if code == 0x0301 {
            Some(BlendFunction::OneMinusSrcColor)
        } else if code == 0x0306 {
            Some(BlendFunction::DstColor)
        } else if code == 0x0307 {
            Some(BlendFunction::OneMinusDstColor)
        } else if code == 0x0302 {
            Some(BlendFunction::SrcAlpha)
        } else if code == 0x0303 {
            Some(BlendFunction::OneMinusSrcAlpha)
        } else if code == 0x0304 {
            Some(BlendFunction::DstAlpha)
        } else if code == 0x0305 {
            Some(BlendFunction::OneMinusDstAlpha)
        } else if code == 0x0308 {
            Some(BlendFunction::SrcAlphaSaturate)
        } else {
            None
        }
    }
}

/// Which faces of a polygon are discarded.
#[derive(Clone, Copy, Debug, PartialEq, Eq, Structural)]
pub enum CullFace {
    Front,
    Back,
    FrontAndBack,
}

impl CullFace {
    /// The device's numeric code of this value.
    pub open spec fn spec_code(self) -> u32 {
        match self {
            CullFace::Front => 0x0404,
            CullFace::Back => 0x0405,
            CullFace::FrontAndBack => 0x0408,
        }
    }

    /// The device's numeric code of this value.
    #[verifier::when_used_as_spec(spec_code)]
    pub fn code(self) -> (code: u32)
        ensures
            code == self.spec_code(),
    {
        match self {
            CullFace::Front => 0x0404,
            CullFace::Back => 0x0405,
            CullFace::FrontAndBack => 0x0408,
        }
    }

    /// The value with the given device code, if there is one.
    pub fn from_code(code: u32) -> (value: Option<CullFace>)
        ensures
            match value {
                Some(v) => v.spec_code() == code,
                None => forall|v: CullFace| v.spec_code() != code,
            },
    {
        if code == 0x0404 {
            Some(CullFace::Front)
        } else if code == 0x0405 {
            Some(CullFace::Back)
        } else if code == 0x0408 {
            Some(CullFace::FrontAndBack)
        } else {
            None
        }
    }
}

impl Default for CullFace {
    fn default() -> (value: Self)
        ensures
            value == CullFace::Back,
    {
        CullFace::Back
    }
}

/// How the weighted source and destination colours are combined.
#[derive(Clone, Copy, Debug, PartialEq, Eq, Structural)]
pub enum BlendEquation {
    Add,
    Sub,
    RSub,
}

impl BlendEquation {
    /// The device's numeric code of this value.
    pub open spec fn spec_code(self) -> u32 {
        match self {
            BlendEquation::Add => 0x8006,
            BlendEquation::Sub => 0x800A,
            BlendEquation::RSub => 0x800B,
        }
    }

    /// The device's numeric code of this value.
    #[verifier::when_used_as_spec(spec_code)]
    pub fn code(self) -> (code: u32)
        ensures
            code == self.spec_code(),
    {
        match self {
            BlendEquation::Add => 0x8006,
            BlendEquation::Sub => 0x800A,
            BlendEquation::RSub => 0x800B,
        }
    }

    /// The value with the given device code, if there is one.
    pub fn from_code(code: u32) -> (value: Option<BlendEquation>)
        ensures
            match value {
                Some(v) => v.spec_code() == code,
                None => forall|v: BlendEquation| v.spec_code() != code,
            },
    {
        if code == 0x8006 {
            Some(BlendEquation::Add)
        } else if code == 0x800A {
            Some(BlendEquation::Sub)
        } else if code == 0x800B {
            Some(BlendEquation::RSub)
        } else {
            None
        }
    }
}

impl Default for BlendEquation {
    fn default() -> (value: Self)
        ensures
            value == BlendEquation::Add,
    {
        BlendEquation::Add
    }
}

/// Comparison that a fragment's depth must pass.
#[derive(Clone, Copy, Debug, PartialEq, Eq, Structural)]
pub enum DepthFunction {
    Never,
    Less,
    Equal,
    LEqual,
    Greater,
    NotEqual,
    GEqual,
    Always,
}

impl DepthFunction {
    /// The device's numeric code of this value.
    pub open spec fn spec_code(self) -> u32 {
        match self {
            DepthFunction::Never => 0x0200,
            DepthFunction::Less => 0x0201,
            DepthFunction::Equal => 0x0202,
            DepthFunction::LEqual => 0x0203,
            DepthFunction::Greater => 0x0204,
            DepthFunction::NotEqual => 0x0205,
            DepthFunction::GEqual => 0x0206,
            DepthFunction::Always => 0x0207,
        }
    }

    /// The device's numeric code of this value.
    #[verifier::when_used_as_spec(spec_code)]
    pub fn code(self) -> (code: u32)
        ensures
            code == self.spec_code(),
    {
        match self {
            DepthFunction::Never => 0x0200,
            DepthFunction::Less => 0x0201,
            DepthFunction::Equal => 0x0202,
            DepthFunction::LEqual => 0x0203,
            DepthFunction::Greater => 0x0204,
            DepthFunction::NotEqual => 0x0205,
            DepthFunction::GEqual => 0x0206,
            DepthFunction::Always => 0x0207,
        }
    }

    /// The value with the given device code, if there is one.
    pub fn from_code(code: u32) -> (value: Option<DepthFunction>)
        ensures
            match value {
                Some(v) => v.spec_code() == code,
                None => forall|v: DepthFunction| v.spec_code() != code,
            },
    {
        if code == 0x0200 {
            Some(DepthFunction::Never)
        } else if code == 0x0201 {
            Some(DepthFunction::Less)
        } else if code == 0x0202 {
            Some(DepthFunction::Equal)
        } else if code == 0x0203 {
            Some(DepthFunction::LEqual)
        } else if code == 0x0204 {
            Some(DepthFunction::Greater)
        } else if code == 0x0205 {
            Some(DepthFunction::NotEqual)
        } else if code == 0x0206 {
            Some(DepthFunction::GEqual)
        } else if code == 0x0207 {
            Some(DepthFunction::Always)
        } else {
            None
        }
    }
}

impl Default for DepthFunction {
    fn default() -> (value: Self)
        ensures
            value == DepthFunction::Less,
    {
        DepthFunction::Less
    }
}

impl From<BlendFunction> for u32 {
    fn from(value: BlendFunction) -> (code: u32) {
        value.code()
    }
}

impl vstd::std_specs::convert::FromSpecImpl<BlendFunction> for u32 {
    open spec fn obeys_from_spec() -> bool {
        true
    }

    open spec fn from_spec(value: BlendFunction) -> u32 {
        value.spec_code()
    }
}

impl From<CullFace> for u32 {
    fn from(value: CullFace) -> (code: u32) {
        value.code()
    }
}

impl vstd::std_specs::convert::FromSpecImpl<CullFace> for u32 {
    open spec fn obeys_from_spec() -> bool {
        true
    }

    open spec fn from_spec(value: CullFace) -> u32 {
        value.spec_code()
    }
}

impl From<BlendEquation> for u32 {
    fn from(value: BlendEquation) -> (code: u32) {
        value.code()
    }
}

impl vstd::std_specs::convert::FromSpecImpl<BlendEquation> for u32 {
    open spec fn obeys_from_spec() -> bool {
        true
    }

    open spec fn from_spec(value: BlendEquation) -> u32 {
        value.spec_code()
    }
}

impl From<DepthFunction> for u32 {
    fn from(value: DepthFunction) -> (code: u32) {
        value.code()
    }
}

impl vstd::std_specs::convert::FromSpecImpl<DepthFunction> for u32 {
    open spec fn obeys_from_spec() -> bool {
        true
    }

    open spec fn from_spec(value: DepthFunction) -> u32 {
        value.spec_code()
    }
}

/// Which colour channels are written.
#[derive(Clone, Copy, Debug, PartialEq, Eq, Structural)]
pub struct ColorMask(pub bool, pub bool, pub bool, pub bool);

impl Default for ColorMask {
    fn default() -> (value: Self)
        ensures
            value == ColorMask(true, true, true, true),
    {
        ColorMask(true, true, true, true)
    }
}

/// The setting that asks for nothing: the identity of composition.
#[derive(Clone, Copy, Debug, Default, PartialEq, Eq, Structural)]
pub struct EmptySetting {}

/// The clear colour; each channel is the bit pattern of a single-precision number.
#[derive(Clone, Copy, Debug, PartialEq, Eq, Structural)]
pub struct ClearColorSetting {
    pub red: u32,
    pub green: u32,
    pub blue: u32,
    pub alpha: u32,
}

/// The clear depth, as the bit pattern of a single-precision number.
#[derive(Clone, Copy, Debug, PartialEq, Eq, Structural)]
pub struct ClearDepthSetting {
    pub value: u32,
}

/// The rectangle of the surface that is drawn to.
#[derive(Clone, Copy, Debug, PartialEq, Eq, Structural)]
pub struct ViewportSetting {
    pub x: i32,
    pub y: i32,
    pub width: i32,
    pub height: i32,
}

/// The active texture unit, by its index.
#[derive(Clone, Copy, Debug, PartialEq, Eq, Structural)]
pub struct ActiveTextureSetting(pub u32);

/// The buffer bound as the source of vertex data.
#[derive(Clone, Copy, Debug, PartialEq, Eq, Structural)]
pub struct ArrayBufferSetting(pub Option<u64>);

/// The buffer bound as the source of element indices.
#[derive(Clone, Copy, Debug, PartialEq, Eq, Structural)]
pub struct ElementBufferSetting(pub Option<u64>);

/// Whether fragments are blended into the colour buffer.
#[derive(Clone, Copy, Debug, PartialEq, Eq, Structural)]
pub struct BlendSetting(pub bool);

/// Whether fragments are tested against the depth buffer.
#[derive(Clone, Copy, Debug, PartialEq, Eq, Structural)]
pub struct DepthTestSetting(pub bool);

/// The program in use.
#[derive(Clone, Copy, Debug, PartialEq, Eq, Structural)]
pub struct ProgramSetting {
    pub program: Option<u64>,
}

/// The bound render buffer.
#[derive(Clone, Copy, Debug, PartialEq, Eq, Structural)]
pub struct DepthBufferSetting {
    pub buffer: Option<u64>,
}

/// The bound frame buffer.
#[derive(Clone, Copy, Debug, PartialEq, Eq, Structural)]
pub struct FrameBufferSetting {
    pub buffer: Option<u64>,
}

/// How colours and how alphas are combined in blending.
#[derive(Clone, Copy, Debug, PartialEq, Eq, Structural)]
pub struct BlendEquationSetting {
    pub color: BlendEquation,
    pub alpha: BlendEquation,
}

/// The weights of source and destination, for colours and for alphas.
#[derive(Clone, Copy, Debug, PartialEq, Eq, Structural)]
pub struct BlendFunctionSetting {
    pub src_rgb: BlendFunction,
    pub dst_rgb: BlendFunction,
    pub src_alpha: BlendFunction,
    pub dst_alpha: BlendFunction,
}

impl Default for BlendFunctionSetting {
    fn default() -> (value: Self)
        ensures
            value == (BlendFunctionSetting {
                src_rgb: BlendFunction::One,
                dst_rgb: BlendFunction::Zero,
                src_alpha: BlendFunction::One,
                dst_alpha: BlendFunction::Zero,
            }),
    {
        BlendFunctionSetting {
            src_rgb: BlendFunction::One,
            dst_rgb: BlendFunction::Zero,
            src_alpha: BlendFunction::One,
            dst_alpha: BlendFunction::Zero,
        }
    }
}

/// The texture bound to one texture unit.
#[derive(Clone, Copy, Debug, PartialEq, Eq, Structural)]
pub struct TextureSetting {
    pub index: u32,
    pub texture: Option<u64>,
}

/// The sampling filter of one texture.
#[derive(Clone, Copy, Debug, PartialEq, Eq, Structural)]
pub struct TextureFilterSetting {
    pub texture: u64,
    pub filter: TextureFilter,
}

/// The textures bound to all texture units.
#[derive(Clone, Copy, Debug, PartialEq, Eq)]
pub struct TextureListSetting {
    pub textures: [Option<u64>; 16],
}

/// The attribute slots that are enabled, in the order in which they are switched.
#[derive(Clone, Debug, Default, PartialEq, Eq)]
pub struct EnabledAttributesSetting {
    pub items: Vec<u32>,
}

/// The attribute slots that advance once per instance.
#[derive(Clone, Debug, Default, PartialEq, Eq)]
pub struct InstancedAttributesSetting {
    pub items: Vec<u32>,
}

/// A value of one of the state categories that hold a single value.
#[derive(Clone, Copy, Debug, PartialEq, Eq, Structural)]
pub enum CachedSetting {
    ClearColor(ClearColorSetting),
    ClearDepth(ClearDepthSetting),
    Viewport(ViewportSetting),
    ActiveTexture(ActiveTextureSetting),
    ArrayBuffer(ArrayBufferSetting),
    ElementBuffer(ElementBufferSetting),
    Blend(BlendSetting),
    DepthTest(DepthTestSetting),
    Program(ProgramSetting),
    DepthBuffer(DepthBufferSetting),
    FrameBuffer(FrameBufferSetting),
    BlendEquation(BlendEquationSetting),
    BlendFunction(BlendFunctionSetting),
    DepthFunction(DepthFunction),
    CullFace(CullFace),
    ColorMask(ColorMask),
}

impl CachedSetting {
    /// The state category that the value belongs to, by its place among the
    /// categories.
    pub open spec fn category(self) -> int {
        match self {
            CachedSetting::ClearColor(_) => 0,
            CachedSetting::ClearDepth(_) => 1,
            CachedSetting::Viewport(_) => 2,
            CachedSetting::ActiveTexture(_) => 3,
            CachedSetting::ArrayBuffer(_) => 4,
            CachedSetting::ElementBuffer(_) => 5,
            CachedSetting::Blend(_) => 6,
            CachedSetting::DepthTest(_) => 7,
            CachedSetting::Program(_) => 8,
            CachedSetting::DepthBuffer(_) => 9,
            CachedSetting::FrameBuffer(_) => 10,
            CachedSetting::BlendEquation(_) => 11,
            CachedSetting::BlendFunction(_) => 12,
            CachedSetting::DepthFunction(_) => 13,
            CachedSetting::CullFace(_) => 14,
            CachedSetting::ColorMask(_) => 15,
        }
    }

    /// The value can be handed to the device: the code of an active texture unit
    /// fits its type.
    pub open spec fn valid(self) -> bool {
        self matches CachedSetting::ActiveTexture(unit) ==> unit.0 <= u32::MAX - TEXTURE0
    }

    /// The device object that the value names, if it names one.
    pub open spec fn resource(self) -> Option<u64> {
        match self {
            CachedSetting::ArrayBuffer(s) => s.0,
            CachedSetting::ElementBuffer(s) => s.0,
            CachedSetting::Program(s) => s.program,
            CachedSetting::DepthBuffer(s) => s.buffer,
            CachedSetting::FrameBuffer(s) => s.buffer,
            _ => None,
        }
    }

    /// The device call that makes the value current.
    pub open spec fn spec_call(self) -> DeviceCall {
        match self {
            CachedSetting::ClearColor(s) => DeviceCall::ClearColor {
                red: s.red,
                green: s.green,
                blue: s.blue,
                alpha: s.alpha,
            },
            CachedSetting::ClearDepth(s) => DeviceCall::ClearDepth { depth: s.value },
            CachedSetting::Viewport(s) => DeviceCall::Viewport {
                x: s.x,
                y: s.y,
                width: s.width,
                height: s.height,
            },
            CachedSetting::ActiveTexture(s) => DeviceCall::ActiveTexture {
                texture: (s.0 + TEXTURE0) as u32,
            },
            CachedSetting::ArrayBuffer(s) => DeviceCall::BindBuffer {
                target: ARRAY_BUFFER,
                buffer: s.0,
            },
            CachedSetting::ElementBuffer(s) => DeviceCall::BindBuffer {
                target: ELEMENT_ARRAY_BUFFER,
                buffer: s.0,
            },
            CachedSetting::Blend(s) => if s.0 {
                DeviceCall::Enable { capability: BLEND }
            } else {
                DeviceCall::Disable { capability: BLEND }
            },
            CachedSetting::DepthTest(s) => if s.0 {
                DeviceCall::Enable { capability: DEPTH_TEST }
            } else {
                DeviceCall::Disable { capability: DEPTH_TEST }
            },
            CachedSetting::Program(s) => DeviceCall::UseProgram { program: s.program },
            CachedSetting::DepthBuffer(s) => DeviceCall::BindRenderbuffer {
                target: RENDERBUFFER,
                renderbuffer: s.buffer,
            },
            CachedSetting::FrameBuffer(s) => DeviceCall::BindFramebuffer {
                target: FRAMEBUFFER,
                framebuffer: s.buffer,
            },
            CachedSetting::BlendEquation(s) => DeviceCall::BlendEquationSeparate {
                mode_rgb: s.color.spec_code(),
                mode_alpha: s.alpha.spec_code(),
            },
            CachedSetting::BlendFunction(s) => DeviceCall::BlendFuncSeparate {
                src_rgb: s.src_rgb.spec_code(),
                dst_rgb: s.dst_rgb.spec_code(),
                src_alpha: s.src_alpha.spec_code(),
                dst_alpha: s.dst_alpha.spec_code(),
            },
            CachedSetting::DepthFunction(s) => DeviceCall::DepthFunc { func: s.spec_code() },
            CachedSetting::CullFace(s) => DeviceCall::CullFace { mode: s.spec_code() },
            CachedSetting::ColorMask(s) => DeviceCall::ColorMask {
                red: s.0,
                green: s.1,
                blue: s.2,
                alpha: s.3,
            },
        }
    }

    /// The device call that makes the value current.
    pub fn set(self) -> (call: DeviceCall)
        requires
            self.valid(),
        ensures
            call == self.spec_call(),
    {
        match self {
            CachedSetting::ClearColor(s) => DeviceCall::ClearColor {
                red: s.red,
                green: s.green,
                blue: s.blue,
                alpha: s.alpha,
            },
            CachedSetting::ClearDepth(s) => DeviceCall::ClearDepth { depth: s.value },
            CachedSetting::Viewport(s) => DeviceCall::Viewport {
                x: s.x,
                y: s.y,
                width: s.width,
                height: s.height,
            },
            CachedSetting::ActiveTexture(s) => DeviceCall::ActiveTexture { texture: s.0 + TEXTURE0 },
            CachedSetting::ArrayBuffer(s) => DeviceCall::BindBuffer {
                target: ARRAY_BUFFER,
                buffer: s.0,
            },
            CachedSetting::ElementBuffer(s) => DeviceCall::BindBuffer {
                target: ELEMENT_ARRAY_BUFFER,
                buffer: s.0,
            },
            CachedSetting::Blend(s) => if s.0 {
                DeviceCall::Enable { capability: BLEND }
            } else {
                DeviceCall::Disable { capability: BLEND }
            },
            CachedSetting::DepthTest(s) => if s.0 {
                DeviceCall::Enable { capability: DEPTH_TEST }
            } else {
                DeviceCall::Disable { capability: DEPTH_TEST }
            },
            CachedSetting::Program(s) => DeviceCall::UseProgram { program: s.program },
            CachedSetting::DepthBuffer(s) => DeviceCall::BindRenderbuffer {
                target: RENDERBUFFER,
                renderbuffer: s.buffer,
            },
            CachedSetting::FrameBuffer(s) => DeviceCall::BindFramebuffer {
                target: FRAMEBUFFER,
                framebuffer: s.buffer,
            },
            CachedSetting::BlendEquation(s) => DeviceCall::BlendEquationSeparate {
                mode_rgb: s.color.code(),
                mode_alpha: s.alpha.code(),
            },
            CachedSetting::BlendFunction(s) => DeviceCall::BlendFuncSeparate {
                src_rgb: s.src_rgb.code(),
                dst_rgb: s.dst_rgb.code(),
                src_alpha: s.src_alpha.code(),
                dst_alpha: s.dst_alpha.code(),
            },
            CachedSetting::DepthFunction(s) => DeviceCall::DepthFunc { func: s.code() },
            CachedSetting::CullFace(s) => DeviceCall::CullFace { mode: s.code() },
            CachedSetting::ColorMask(s) => DeviceCall::ColorMask {
                red: s.0,
                green: s.1,
                blue: s.2,
                alpha: s.3,
            },
        }
    }
}

/// One request on the device state: a value for one state category.
#[derive(Clone, Debug, PartialEq, Eq)]
pub enum Setting {
    Empty(EmptySetting),
    Cached(CachedSetting),
    Texture(TextureSetting),
    TextureList(TextureListSetting),
    TextureFilter(TextureFilterSetting),
    EnabledAttributes(EnabledAttributesSetting),
    InstancedAttributes(InstancedAttributesSetting),
}

/// What a [`Setting`] asks for.
pub enum SettingView {
    Empty,
    Cached(CachedSetting),
    Texture(TextureSetting),
    TextureList(Seq<Option<u64>>),
    TextureFilter(TextureFilterSetting),
    EnabledAttributes(Seq<u32>),
    InstancedAttributes(Seq<u32>),
}

impl View for Setting {
    type V = SettingView;

    open spec fn view(&self) -> SettingView {
        match *self {
            Setting::Empty(_) => SettingView::Empty,
            Setting::Cached(s) => SettingView::Cached(s),
            Setting::Texture(s) => SettingView::Texture(s),
            Setting::TextureList(s) => SettingView::TextureList(s.textures@),
            Setting::TextureFilter(s) => SettingView::TextureFilter(s),
            Setting::EnabledAttributes(s) => SettingView::EnabledAttributes(s.items@),
            Setting::InstancedAttributes(s) => SettingView::InstancedAttributes(s.items@),
        }
    }
}

impl SettingView {
    /// The setting can be applied: its texture unit is one of those tracked and
    /// its codes fit.
    pub open spec fn valid(self) -> bool {
        match self {
            SettingView::Cached(s) => s.valid(),
            SettingView::Texture(s) => s.index < TEXTURES_COUNT,
            SettingView::TextureList(textures) => textures.len() == TEXTURES_COUNT,
            _ => true,
        }
    }

    /// Whether the setting names the device object `id`.
    pub open spec fn refers(self, id: u64) -> bool {
        match self {
            SettingView::Cached(s) => s.resource() == Some(id),
            SettingView::Texture(s) => s.texture == Some(id),
            SettingView::TextureList(textures) => textures.contains(Some(id)),
            SettingView::TextureFilter(s) => s.texture == id,
            _ => false,
        }
    }
}

/// Whether one of `textures` is the device object `id`.
pub fn names_texture(textures: &[Option<u64>; 16], id: u64) -> (found: bool)
    ensures
        found == textures@.contains(Some(id)),
{
    let mut i: usize = 0;
    while i < 16
        invariant
            i <= 16,
            forall|k: int| 0 <= k < i ==> textures@[k] != Some(id),
        decreases 16 - i,
    {
        if textures[i] == Some(id) {
            return true;
        }
        i += 1;
    }
    false
}

impl CachedSetting {
    /// The device object that the value names, if it names one.
    pub fn named(self) -> (id: Option<u64>)
        ensures
            id == self.resource(),
    {
        match self {
            CachedSetting::ArrayBuffer(s) => s.0,
            CachedSetting::ElementBuffer(s) => s.0,
            CachedSetting::Program(s) => s.program,
            CachedSetting::DepthBuffer(s) => s.buffer,
            CachedSetting::FrameBuffer(s) => s.buffer,
            _ => None,
        }
    }
}

impl Setting {
    /// Whether the setting names the device object `id`.
    pub fn refers(&self, id: u64) -> (found: bool)
        ensures
            found == self@.refers(id),
    {
        match self {
            Setting::Cached(s) => s.named() == Some(id),
            Setting::Texture(s) => s.texture == Some(id),
            Setting::TextureList(s) => names_texture(&s.textures, id),
            Setting::TextureFilter(s) => s.texture == id,
            _ => false,
        }
    }
}

impl CachedSetting {
    /// The list that holds this setting alone.
    pub fn alone(self) -> (settings: Vec<Setting>)
        ensures
            settings@.len() == 1,
            settings@[0]@ == SettingView::Cached(self),
    {
        let mut settings: Vec<Setting> = Vec::new();
        settings.push(Setting::Cached(self));
        settings
    }
}

/// Settings for one block of work, the first outermost: each is made current
/// before the work and undone after it, in the reverse order.
#[derive(Clone, Debug, Default, PartialEq, Eq)]
pub struct Settings {
    pub items: Vec<Setting>,
}

impl View for Settings {
    type V = Seq<SettingView>;

    open spec fn view(&self) -> Seq<SettingView> {
        Seq::new(self.items@.len(), |i: int| self.items@[i]@)
    }
}

/// The bindings of all texture units that bind `textures` to the first units, in
/// their order, and nothing to the others.
pub open spec fn unit_bindings(textures: Seq<u64>) -> Seq<Option<u64>> {
    Seq::new(
        TEXTURES_COUNT as nat,
        |i: int| if i < textures.len() {
            Some(textures[i])
        } else {
            None
        },
    )
}

/// The identifiers of `textures`, in their order.
pub open spec fn texture_ids(textures: Seq<&Texture>) -> Seq<u64> {
    Seq::new(textures.len(), |i: int| textures[i].id())
}

/// The bindings of all texture units that bind `textures` to the first units.
pub fn bind_units(textures: &Vec<u64>) -> (units: [Option<u64>; 16])
    requires
        textures@.len() <= TEXTURES_COUNT,
    ensures
        units@ == unit_bindings(textures@),
{
    let mut units: [Option<u64>; 16] = [None; 16];
    let mut i: usize = 0;
    while i < textures.len()
        invariant
            i <= textures.len(),
            textures@.len() <= TEXTURES_COUNT,
            forall|k: int| 0 <= k < i ==> units@[k] == Some(textures@[k]),
            forall|k: int| i <= k < 16 ==> units@[k] == None::<u64>,
        decreases textures.len() - i,
    {
        units[i] = Some(textures[i]);
        i += 1;
    }
    proof {
        assert(units@ =~= unit_bindings(textures@));
    }
    units
}

/// A vector with the items of `slots`.
pub fn slots_of(slots: &[u32]) -> (items: Vec<u32>)
    ensures
        items@ == slots@,
{
    let mut items: Vec<u32> = Vec::new();
    let mut i: usize = 0;
    while i < slots.len()
        invariant
            i <= slots.len(),
            items@ == slots@.take(i as int),
        decreases slots.len() - i,
    {
        items.push(slots[i]);
        proof {
            assert(slots@.take(i + 1) =~= slots@.take(i as int).push(slots@[i as int]));
        }
        i += 1;
    }
    proof {
        assert(slots@.take(slots.len() as int) =~= slots@);
    }
    items
}

impl Settings {
    /// Whether every setting can be applied.
    pub open spec fn valid(&self) -> bool {
        forall|i: int| 0 <= i < self@.len() ==> (#[trigger] self@[i]).valid()
    }

    /// No setting: the work runs on the state as it is.
    pub fn new() -> (settings: Settings)
        ensures
            settings@ == Seq::<SettingView>::empty(),
            settings.valid(),
    {
        let settings = Settings { items: Vec::new() };
        proof {
            assert(settings@ =~= Seq::<SettingView>::empty());
        }
        settings
    }

    /// These settings and inside them one more.
    pub fn with(self, setting: Setting) -> (settings: Settings)
        ensures
            settings@ == self@.push(setting@),
            self.valid() && setting@.valid() ==> settings.valid(),
    {
        let mut items = self.items;
        items.push(setting);
        let settings = Settings { items };
        proof {
            assert(settings@ =~= self@.push(setting@));
            if self.valid() && setting@.valid() {
                assert forall|i: int| 0 <= i < settings@.len() implies (#[trigger] settings@[i]).valid() by {
                    if i < self@.len() {
                        assert(self@[i].valid());
                    }
                }
            }
        }
        settings
    }

    /// These settings and inside them those of `inner`.
    pub fn compose(self, inner: Settings) -> (settings: Settings)
        ensures
            settings@ == self@ + inner@,
            self.valid() && inner.valid() ==> settings.valid(),
    {
        let mut items = self.items;
        let mut rest = inner.items;
        items.append(&mut rest);
        let settings = Settings { items };
        proof {
            assert(settings@ =~= self@ + inner@);
            if self.valid() && inner.valid() {
                assert forall|i: int| 0 <= i < settings@.len() implies (#[trigger] settings@[i]).valid() by {
                    if i < self@.len() {
                        assert(self@[i].valid());
                    } else {
                        assert(inner@[i - self@.len()].valid());
                    }
                }
            }
        }
        settings
    }

    /// Switches the depth test on or off.
    pub fn depth_test(self, value: bool) -> (settings: Settings)
        ensures
            settings@ == self@.push(
                SettingView::Cached(CachedSetting::DepthTest(DepthTestSetting(value))),
            ),
            self.valid() ==> settings.valid(),
    {
        self.with(
            Setting::Cached(CachedSetting::DepthTest(DepthTestSetting(value))),
        )
    }

    /// Switches blending on or off.
    pub fn blend(self, value: bool) -> (settings: Settings)
        ensures
            settings@ == self@.push(
                SettingView::Cached(CachedSetting::Blend(BlendSetting(value))),
            ),
            self.valid() ==> settings.valid(),
    {
        self.with(
            Setting::Cached(CachedSetting::Blend(BlendSetting(value))),
        )
    }

    /// Sets how colours and how alphas are combined in blending.
    pub fn blend_equation(self, color: BlendEquation, alpha: BlendEquation) -> (settings: Settings)
        ensures
            settings@ == self@.push(
                SettingView::Cached(CachedSetting::BlendEquation(BlendEquationSetting { color, alpha })),
            ),
            self.valid() ==> settings.valid(),
    {
        self.with(
            Setting::Cached(CachedSetting::BlendEquation(BlendEquationSetting { color, alpha })),
        )
    }

    /// Sets the weights of source and destination in blending.
    pub fn blend_function(
        self,
        src_rgb: BlendFunction,
        dst_rgb: BlendFunction,
        src_alpha: BlendFunction,
        dst_alpha: BlendFunction,
    ) -> (settings: Settings)
        ensures
            settings@ == self@.push(
                SettingView::Cached(
                    CachedSetting::BlendFunction(
                        BlendFunctionSetting { src_rgb, dst_rgb, src_alpha, dst_alpha },
                    ),
                ),
            ),
            self.valid() ==> settings.valid(),
    {
        self.with(
            Setting::Cached(
                CachedSetting::BlendFunction(
                    BlendFunctionSetting { src_rgb, dst_rgb, src_alpha, dst_alpha },
                ),
            ),
        )
    }

    /// Sets the comparison of the depth test.
    pub fn depth_function(self, function: DepthFunction) -> (settings: Settings)
        ensures
            settings@ == self@.push(
                SettingView::Cached(CachedSetting::DepthFunction(function)),
            ),
            self.valid() ==> settings.valid(),
    {
        self.with(
            Setting::Cached(CachedSetting::DepthFunction(function)),
        )
    }

    /// Makes the texture unit `index` the active one.
    pub fn active_texture(self, index: u32) -> (settings: Settings)
        requires
            index <= u32::MAX - TEXTURE0,
        ensures
            settings@ == self@.push(
                SettingView::Cached(CachedSetting::ActiveTexture(ActiveTextureSetting(index))),
            ),
            self.valid() ==> settings.valid(),
    {
        self.with(
            Setting::Cached(CachedSetting::ActiveTexture(ActiveTextureSetting(index))),
        )
    }

    /// Binds `texture` to the texture unit `index`.
    pub fn texture(self, index: u32, texture: &Texture) -> (settings: Settings)
        requires
            index < TEXTURES_COUNT,
        ensures
            settings@ == self@.push(
                SettingView::Texture(TextureSetting { index, texture: Some(texture.id()) }),
            ),
            self.valid() ==> settings.valid(),
    {
        self.with(
            Setting::Texture(TextureSetting { index, texture: Some(texture.id()) }),
        )
    }

    /// Gives `texture` the sampling filter `filter`.
    pub fn texture_filter(self, texture: &Texture, filter: TextureFilter) -> (settings: Settings)
        ensures
            settings@ == self@.push(
                SettingView::TextureFilter(TextureFilterSetting { texture: texture.id(), filter }),
            ),
            self.valid() ==> settings.valid(),
    {
        self.with(
            Setting::TextureFilter(TextureFilterSetting { texture: texture.id(), filter }),
        )
    }

    /// Binds `array_buffer` as the source of vertex data.
    pub fn array_buffer(self, array_buffer: &ArrayBuffer) -> (settings: Settings)
        ensures
            settings@ == self@.push(
                SettingView::Cached(
                    CachedSetting::ArrayBuffer(ArrayBufferSetting(Some(array_buffer.id()))),
                ),
            ),
            self.valid() ==> settings.valid(),
    {
        self.with(
            Setting::Cached(CachedSetting::ArrayBuffer(ArrayBufferSetting(Some(array_buffer.id())))),
        )
    }

    /// Binds `element_buffer` as the source of element indices.
    pub fn element_buffer(self, element_buffer: &ElementsBuffer) -> (settings: Settings)
        ensures
            settings@ == self@.push(
                SettingView::Cached(
                    CachedSetting::ElementBuffer(ElementBufferSetting(Some(element_buffer.id()))),
                ),
            ),
            self.valid() ==> settings.valid(),
    {
        self.with(
            Setting::Cached(
                CachedSetting::ElementBuffer(ElementBufferSetting(Some(element_buffer.id()))),
            ),
        )
    }

    /// Puts `program` in use.
    pub fn program(self, program: &Program) -> (settings: Settings)
        ensures
            settings@ == self@.push(
                SettingView::Cached(
                    CachedSetting::Program(ProgramSetting { program: Some(program.id()) }),
                ),
            ),
            self.valid() ==> settings.valid(),
    {
        self.with(
            Setting::Cached(CachedSetting::Program(ProgramSetting { program: Some(program.id()) })),
        )
    }

    /// Sets the clear colour; each component is the bit pattern of a
    /// single-precision number.
    pub fn clear_color(self, red: u32, green: u32, blue: u32, alpha: u32) -> (settings: Settings)
        ensures
            settings@ == self@.push(
                SettingView::Cached(
                    CachedSetting::ClearColor(ClearColorSetting { red, green, blue, alpha }),
                ),
            ),
            self.valid() ==> settings.valid(),
    {
        self.with(
            Setting::Cached(CachedSetting::ClearColor(ClearColorSetting { red, green, blue, alpha })),
        )
    }

    /// Sets the clear depth, the bit pattern of a single-precision number.
    pub fn clear_depth(self, value: u32) -> (settings: Settings)
        ensures
            settings@ == self@.push(
                SettingView::Cached(CachedSetting::ClearDepth(ClearDepthSetting { value })),
            ),
            self.valid() ==> settings.valid(),
    {
        self.with(
            Setting::Cached(CachedSetting::ClearDepth(ClearDepthSetting { value })),
        )
    }

    /// Sets the viewport.
    pub fn viewport(self, x: i32, y: i32, width: i32, height: i32) -> (settings: Settings)
        ensures
            settings@ == self@.push(
                SettingView::Cached(
                    CachedSetting::Viewport(ViewportSetting { x, y, width, height }),
                ),
            ),
            self.valid() ==> settings.valid(),
    {
        self.with(
            Setting::Cached(CachedSetting::Viewport(ViewportSetting { x, y, width, height })),
        )
    }

    /// Binds the render buffer `buffer`.
    pub fn depth_buffer(self, buffer: &DepthBuffer) -> (settings: Settings)
        ensures
            settings@ == self@.push(
                SettingView::Cached(
                    CachedSetting::DepthBuffer(DepthBufferSetting { buffer: Some(buffer.id()) }),
                ),
            ),
            self.valid() ==> settings.valid(),
    {
        self.with(
            Setting::Cached(CachedSetting::DepthBuffer(DepthBufferSetting { buffer: Some(buffer.id()) })),
        )
    }

    /// Binds the frame buffer `buffer`.
    pub fn frame_buffer(self, buffer: &FrameBuffer) -> (settings: Settings)
        ensures
            settings@ == self@.push(
                SettingView::Cached(
                    CachedSetting::FrameBuffer(FrameBufferSetting { buffer: Some(buffer.id()) }),
                ),
            ),
            self.valid() ==> settings.valid(),
    {
        self.with(
            Setting::Cached(CachedSetting::FrameBuffer(FrameBufferSetting { buffer: Some(buffer.id()) })),
        )
    }

    /// Sets which faces are discarded.
    pub fn cull_face(self, cull_face: CullFace) -> (settings: Settings)
        ensures
            settings@ == self@.push(
                SettingView::Cached(CachedSetting::CullFace(cull_face)),
            ),
            self.valid() ==> settings.valid(),
    {
        self.with(
            Setting::Cached(CachedSetting::CullFace(cull_face)),
        )
    }

    /// Sets which colour channels are written.
    pub fn color_mask(self, r: bool, g: bool, b: bool, a: bool) -> (settings: Settings)
        ensures
            settings@ == self@.push(
                SettingView::Cached(CachedSetting::ColorMask(ColorMask(r, g, b, a))),
            ),
            self.valid() ==> settings.valid(),
    {
        self.with(
            Setting::Cached(CachedSetting::ColorMask(ColorMask(r, g, b, a))),
        )
    }

    /// Binds `buffer` as the source of vertex data.
    pub fn items_buffer<T: Item>(self, buffer: &ItemsBuffer<T>) -> (settings: Settings)
        ensures
            settings@ == self@.push(
                SettingView::Cached(
                    CachedSetting::ArrayBuffer(ArrayBufferSetting(Some(buffer.buffer().id()))),
                ),
            ),
            self.valid() ==> settings.valid(),
    {
        self.array_buffer(buffer.buffer())
    }

    /// Binds the textures `textures` to the first texture units, in their order,
    /// and nothing to the other units.
    pub fn texture_list(self, textures: &[&Texture]) -> (settings: Settings)
        requires
            textures@.len() <= TEXTURES_COUNT,
        ensures
            settings@ == self@.push(
                SettingView::TextureList(unit_bindings(texture_ids(textures@))),
            ),
            self.valid() ==> settings.valid(),
    {
        let mut ids: Vec<u64> = Vec::new();
        let mut i: usize = 0;
        while i < textures.len()
            invariant
                i <= textures.len(),
                ids@.len() == i,
                forall|k: int| 0 <= k < i ==> ids@[k] == textures@[k].id(),
            decreases textures.len() - i,
        {
            ids.push(textures[i].id());
            i += 1;
        }
        proof {
            assert(ids@ =~= texture_ids(textures@));
        }
        self.with(Setting::TextureList(TextureListSetting { textures: bind_units(&ids) }))
    }

    /// Enables the attribute slots `attributes` and no others; a slot that the
    /// list names more than once counts once.
    pub fn enabled_attributes(self, attributes: &[u32]) -> (settings: Settings)
        ensures
            settings@ == self@.push(SettingView::EnabledAttributes(attributes@)),
            self.valid() ==> settings.valid(),
    {
        self.with(
            Setting::EnabledAttributes(EnabledAttributesSetting { items: slots_of(attributes) }),
        )
    }

    /// Lets the attribute slots `attributes`, and no others, advance once per
    /// instance and not once per vertex; a slot that the list names more than
    /// once counts once.
    pub fn instanced_attributes(self, attributes: &[u32]) -> (settings: Settings)
        ensures
            settings@ == self@.push(SettingView::InstancedAttributes(attributes@)),
            self.valid() ==> settings.valid(),
    {
        self.with(
            Setting::InstancedAttributes(
                InstancedAttributesSetting { items: slots_of(attributes) },
            ),
        )
    }
}

} // verus!
