use crate::cache::round_trip;
use crate::device::{
    as_signed, plain, spec_as_signed, Command, DeviceCall, Record, CLAMP_TO_EDGE,
    COLOR_BUFFER_BIT, TEXTURE_2D, TEXTURE_MAG_FILTER, TEXTURE_MIN_FILTER, TEXTURE_WRAP_S,
    TEXTURE_WRAP_T,
};
use crate::frame_buffer::FrameBuffer;
use crate::gl::{
    all_valid, lemma_released_keeps, records, release_nothing, views, Gl, GlError, GlView,
};
use crate::objects::{Body, Object};
use crate::settings::{
    ActiveTextureSetting, CachedSetting, ClearColorSetting, FrameBufferSetting, Setting,
    SettingView, TextureSetting, ViewportSetting,
};
use vstd::prelude::*;

verus! {

/// Number of texture units whose bindings are tracked.
pub const TEXTURES_COUNT: u32 = 16;

/// How a texture is sampled between texels.
#[derive(Clone, Copy, Debug, PartialEq, Eq, Structural)]
pub enum TextureFilter {
    Nearest,
    Linear,
}

impl TextureFilter {
    /// The device's numeric code of this value.
    pub open spec fn spec_code(self) -> i32 {
        match self {
            TextureFilter::Nearest => 0x2600,
            TextureFilter::Linear => 0x2601,
        }
    }

    /// The device's numeric code of this value.
    #[verifier::when_used_as_spec(spec_code)]
    pub fn code(self) -> (code: i32)
        ensures
            code == self.spec_code(),
    {
        match self {
            TextureFilter::Nearest => 0x2600,
            TextureFilter::Linear => 0x2601,
        }
    }

    /// The value with the given device code, if there is one.
    pub fn from_code(code: i32) -> (value: Option<TextureFilter>)
        ensures
            match value {
                Some(v) => v.spec_code() == code,
                None => forall|v: TextureFilter| v.spec_code() != code,
            },
    {
        if code == 0x2600 {
            Some(TextureFilter::Nearest)
        } else if code == 0x2601 {
            Some(TextureFilter::Linear)
        } else {
            None
        }
    }
}

impl Default for TextureFilter {
    fn default() -> (value: Self)
        ensures
            value == TextureFilter::Linear,
    {
        TextureFilter::Linear
    }
}

/// Component type of a texture's texels.
#[derive(Clone, Copy, Debug, PartialEq, Eq, Structural)]
pub enum TextureType {
    Byte,
    Float,
    HalfFloat,
}

impl TextureType {
    /// The device's numeric code of this value.
    pub open spec fn spec_code(self) -> u32 {
        match self {
            TextureType::Byte => 0x1401,
            TextureType::Float => 0x1406,
            TextureType::HalfFloat => 0x8D61,
        }
    }

    /// The device's numeric code of this value.
    #[verifier::when_used_as_spec(spec_code)]
    pub fn code(self) -> (code: u32)
        ensures
            code == self.spec_code(),
    {
        match self {
            TextureType::Byte => 0x1401,
            TextureType::Float => 0x1406,
            TextureType::HalfFloat => 0x8D61,
        }
    }

    /// The value with the given device code, if there is one.
    pub fn from_code(code: u32) -> (value: Option<TextureType>)
        ensures
            match value {
                Some(v) => v.spec_code() == code,
                None => forall|v: TextureType| v.spec_code() != code,
            },
    {
        if code == 0x1401 {
            Some(TextureType::Byte)
        } else if code == 0x1406 {
            Some(TextureType::Float)
        } else if code == 0x8D61 {
            Some(TextureType::HalfFloat)
        } else {
            None
        }
    }
}

/// Channels of a texture's texels.
#[derive(Clone, Copy, Debug, PartialEq, Eq, Structural)]
pub enum TextureFormat {
    Alpha,
    Luminance,
    LuminanceAlpha,
    Rgb,
    Rgba,
}

impl TextureFormat {
    /// The device's numeric code of this value.
    pub open spec fn spec_code(self) -> u32 {
        match self {
            TextureFormat::Alpha => 0x1906,
            TextureFormat::Luminance => 0x1909,
            TextureFormat::LuminanceAlpha => 0x190A,
            TextureFormat::Rgb => 0x1907,
            TextureFormat::Rgba => 0x1908,
        }
    }

    /// The device's numeric code of this value.
    #[verifier::when_used_as_spec(spec_code)]
    pub fn code(self) -> (code: u32)
        ensures
            code == self.spec_code(),
    {
        match self {
            TextureFormat::Alpha => 0x1906,
            TextureFormat::Luminance => 0x1909,
            TextureFormat::LuminanceAlpha => 0x190A,
            TextureFormat::Rgb => 0x1907,
            TextureFormat::Rgba => 0x1908,
        }
    }

    /// The value with the given device code, if there is one.
    pub fn from_code(code: u32) -> (value: Option<TextureFormat>)
        ensures
            match value {
                Some(v) => v.spec_code() == code,
                None => forall|v: TextureFormat| v.spec_code() != code,
            },
    {
        if code == 0x1906 {
            Some(TextureFormat::Alpha)
        } else if code == 0x1909 {
            Some(TextureFormat::Luminance)
        } else if code == 0x190A {
            Some(TextureFormat::LuminanceAlpha)
        } else if code == 0x1907 {
            Some(TextureFormat::Rgb)
        } else if code == 0x1908 {
            Some(TextureFormat::Rgba)
        } else {
            None
        }
    }

    /// Number of channels of a texel.
    pub open spec fn spec_channels(self) -> u32 {
        match self {
            TextureFormat::Alpha => 1,
            TextureFormat::Luminance => 1,
            TextureFormat::LuminanceAlpha => 2,
            TextureFormat::Rgb => 3,
            TextureFormat::Rgba => 4,
        }
    }

    /// Number of channels of a texel.
    #[verifier::when_used_as_spec(spec_channels)]
    pub fn channels(self) -> (channels: u32)
        ensures
            channels == self.spec_channels(),
    {
        match self {
            TextureFormat::Alpha => 1,
            TextureFormat::Luminance => 1,
            TextureFormat::LuminanceAlpha => 2,
            TextureFormat::Rgb => 3,
            TextureFormat::Rgba => 4,
        }
    }
}

impl From<TextureFilter> for i32 {
    fn from(value: TextureFilter) -> (code: i32) {
        value.code()
    }
}

impl vstd::std_specs::convert::FromSpecImpl<TextureFilter> for i32 {
    open spec fn obeys_from_spec() -> bool {
        true
    }

    open spec fn from_spec(value: TextureFilter) -> i32 {
        value.spec_code()
    }
}

impl From<TextureType> for u32 {
    fn from(value: TextureType) -> (code: u32) {
        value.code()
    }
}

impl vstd::std_specs::convert::FromSpecImpl<TextureType> for u32 {
    open spec fn obeys_from_spec() -> bool {
        true
    }

    open spec fn from_spec(value: TextureType) -> u32 {
        value.spec_code()
    }
}

impl From<TextureFormat> for u32 {
    fn from(value: TextureFormat) -> (code: u32) {
        value.code()
    }
}

impl vstd::std_specs::convert::FromSpecImpl<TextureFormat> for u32 {
    open spec fn obeys_from_spec() -> bool {
        true
    }

    open spec fn from_spec(value: TextureFormat) -> u32 {
        value.spec_code()
    }
}

/// What a new texture is filled with.
#[derive(Debug, PartialEq, Eq)]
pub enum TextureContent {
    /// Nothing: the texture is allocated only.
    Empty,
    /// The image that the caller holds for the texture.
    Image,
    /// The texels, row by row.
    Bytes(Vec<u8>),
}

/// The record of the call that sets parameter `name` of the bound texture.
pub open spec fn parameter(name: u32, value: i32) -> Record {
    plain(DeviceCall::TexParameteri { target: TEXTURE_2D, name, value })
}

/// The record of the call that allocates the bound texture, with `pixels` as its
/// texels where there are any.
pub open spec fn tex_image(
    width: u32,
    height: u32,
    data_type: TextureType,
    format: TextureFormat,
    pixels: Option<Seq<u8>>,
) -> Record {
    Record {
        call: DeviceCall::TexImage2d {
            target: TEXTURE_2D,
            level: 0,
            internal_format: spec_as_signed(format.spec_code()),
            width: spec_as_signed(width),
            height: spec_as_signed(height),
            border: 0,
            format: format.spec_code(),
            data_type: data_type.spec_code(),
            with_pixels: pixels is Some,
        },
        words: Seq::empty(),
        bytes: match pixels {
            Some(bytes) => bytes,
            None => Seq::empty(),
        },
    }
}

/// The record of the call that fills the bound texture from the caller's image.
pub open spec fn tex_image_of(texture: u64, data_type: TextureType, format: TextureFormat) -> Record {
    plain(
        DeviceCall::TexImage2dImage {
            target: TEXTURE_2D,
            level: 0,
            internal_format: spec_as_signed(format.spec_code()),
            format: format.spec_code(),
            data_type: data_type.spec_code(),
            texture,
        },
    )
}

/// The record of the call that reads the bound frame buffer as bytes of red,
/// green, blue and alpha.
pub open spec fn read_pixels(width: u32, height: u32) -> Record {
    plain(
        DeviceCall::ReadPixels {
            x: 0,
            y: 0,
            width: spec_as_signed(width),
            height: spec_as_signed(height),
            format: TextureFormat::Rgba.spec_code(),
            data_type: TextureType::Byte.spec_code(),
        },
    )
}

/// The length that a caller's buffer is reported to have: its length as far as
/// 32 bits hold it.
pub open spec fn reported_length(length: usize) -> u32 {
    ((length as u64) % 0x1_0000_0000) as u32
}

/// A handle on a device texture. Handles on one device object are equal; the object
/// lives until the last handle is released and the library no longer needs it.
#[derive(Debug, PartialEq, Eq, Structural)]
pub struct Texture {
    id: u64,
}

impl Texture {
    /// The identifier of the device object.
    pub closed spec fn spec_id(&self) -> u64 {
        self.id
    }

    /// The identifier of the device object.
    #[verifier::when_used_as_spec(spec_id)]
    pub fn id(&self) -> (id: u64)
        ensures
            id == self.spec_id(),
    {
        self.id
    }

    /// Whether `id` names a device texture of `gl` on which a caller holds a handle.
    pub open spec fn names(gl: GlView, id: u64) -> bool {
        &&& gl.live(id)
        &&& gl.objects[id].body is Texture
        &&& gl.objects[id].handles > 0
    }

    /// Whether the handle is one of those counted on a device texture of `gl`.
    pub open spec fn held(&self, gl: GlView) -> bool {
        Self::names(gl, self.id())
    }

    /// Whether the handle is one of those counted on a device texture of `gl`.
    pub fn is_held(&self, gl: &Gl) -> (held: bool)
        requires
            gl.wf(),
        ensures
            held == self.held(gl@),
    {
        if gl.is_live(self.id) {
            let object = gl.lookup(self.id);
            object.handles > 0 && matches!(object.body, Body::Texture { .. })
        } else {
            false
        }
    }

    /// One more handle on the same device object.
    pub fn share(&self, gl: &mut Gl) -> (handle: Texture)
        requires
            old(gl).wf(),
            self.held(old(gl)@),
            old(gl)@.objects[self.id()].handles < u64::MAX,
        ensures
            final(gl).wf(),
            handle == *self,
            handle.id() == self.id(),
            handle.held(final(gl)@),
            final(gl)@ == old(gl)@.with_handles(
                self.id(),
                (old(gl)@.objects[self.id()].handles + 1) as u64,
            ),
    {
        gl.share(self.id);
        Texture { id: self.id }
    }

    /// Gives the handle up. The device is asked to release the
    /// texture if this was the last handle on it and the texture is neither bound
    /// nor attached.
    pub fn release(self, gl: &mut Gl)
        requires
            old(gl).wf(),
            self.held(old(gl)@),
        ensures
            final(gl).wf(),
            final(gl)@ == old(gl)@.released(self.id()),
    {
        gl.release(self.id);
    }


    /// The settings under which the texture's contents and parameters are
    /// written: unit 0 active and the texture bound to unit 0.
    pub open spec fn scope(id: u64) -> Seq<SettingView> {
        seq![
            SettingView::Cached(CachedSetting::ActiveTexture(ActiveTextureSetting(0))),
            SettingView::Texture(TextureSetting { index: 0, texture: Some(id) }),
        ]
    }

    /// The settings under which the texture's filter is written: the texture
    /// bound to unit 0 and unit 0 active.
    pub open spec fn filter_scope(id: u64) -> Seq<SettingView> {
        seq![
            SettingView::Texture(TextureSetting { index: 0, texture: Some(id) }),
            SettingView::Cached(CachedSetting::ActiveTexture(ActiveTextureSetting(0))),
        ]
    }

    pub open spec fn spec_width(&self, gl: GlView) -> u32 {
        gl.objects[self.id()].body->Texture_width
    }

    pub open spec fn spec_height(&self, gl: GlView) -> u32 {
        gl.objects[self.id()].body->Texture_height
    }

    pub open spec fn spec_data_type(&self, gl: GlView) -> TextureType {
        gl.objects[self.id()].body->Texture_data_type
    }

    pub open spec fn spec_format(&self, gl: GlView) -> TextureFormat {
        gl.objects[self.id()].body->Texture_format
    }

    pub open spec fn spec_filter(&self, gl: GlView) -> TextureFilter {
        gl.objects[self.id()].body->Texture_filter
    }

    /// The state once the device calls `inner` have run on the texture `id`:
    /// under the settings of [`Texture::scope`], which are undone afterwards.
    pub open spec fn written(gl: GlView, id: u64, inner: Seq<Record>) -> GlView {
        gl.emitted_all(round_trip(gl.cache, Self::scope(id), inner))
    }

    /// The calls that set up a new texture: both wrap modes clamped to the edge
    /// and both filters linear.
    pub open spec fn setup() -> Seq<Record> {
        seq![
            parameter(TEXTURE_WRAP_S, CLAMP_TO_EDGE),
            parameter(TEXTURE_WRAP_T, CLAMP_TO_EDGE),
            parameter(TEXTURE_MAG_FILTER, TextureFilter::Linear.spec_code()),
            parameter(TEXTURE_MIN_FILTER, TextureFilter::Linear.spec_code()),
        ]
    }

    /// The call that fills a new texture with `data`.
    pub open spec fn filling(
        id: u64,
        width: u32,
        height: u32,
        data_type: TextureType,
        format: TextureFormat,
        data: TextureContent,
    ) -> Record {
        match data {
            TextureContent::Empty => tex_image(width, height, data_type, format, None),
            TextureContent::Image => tex_image_of(id, data_type, format),
            TextureContent::Bytes(bytes) => tex_image(width, height, data_type, format, Some(bytes@)),
        }
    }

    /// Runs device calls on the texture, under the settings of
    /// [`Texture::scope`].
    fn write(gl: &mut Gl, id: u64, commands: Vec<Command>)
        requires
            old(gl).wf(),
            old(gl)@.live(id),
            release_nothing(records(commands@)),
        ensures
            final(gl).wf(),
            final(gl)@ == Self::written(old(gl)@, id, records(commands@)),
    {
        let mut settings: Vec<Setting> = Vec::new();
        settings.push(Setting::Cached(CachedSetting::ActiveTexture(ActiveTextureSetting(0))));
        settings.push(Setting::Texture(TextureSetting { index: 0, texture: Some(id) }));
        proof {
            assert(views(settings@) =~= Self::scope(id));
        }
        gl.run(&settings, commands);
    }

    /// Makes a texture of `width` by `height` texels, on the device's answer
    /// `acquired` to the request for a new texture: sets its wrap modes and
    /// filters, and fills it with `data`. Fails with the allocation error of
    /// textures where the device gave no texture, or where the library has no
    /// identifier left for it.
    pub fn new(
        gl: &mut Gl,
        acquired: bool,
        width: u32,
        height: u32,
        data_type: TextureType,
        format: TextureFormat,
        data: TextureContent,
    ) -> (result: Result<Texture, GlError>)
        requires
            old(gl).wf(),
        ensures
            final(gl).wf(),
            match result {
                Ok(texture) => {
                    let id = old(gl)@.next;
                    let made = old(gl)@.created(
                        Body::Texture {
                            width,
                            height,
                            data_type,
                            format,
                            filter: TextureFilter::Linear,
                        },
                    );
                    &&& acquired
                    &&& id < u64::MAX
                    &&& texture.id() == id
                    &&& !old(gl)@.live(id)
                    &&& texture.held(final(gl)@)
                    &&& final(gl)@.objects == made.objects
                    &&& final(gl)@ == Self::written(
                        Self::written(made, id, Self::setup()),
                        id,
                        seq![Self::filling(id, width, height, data_type, format, data)],
                    )
                },
                Err(error) => {
                    &&& !acquired || old(gl)@.next == u64::MAX
                    &&& error == GlError::TextureAllocationError
                    &&& final(gl)@ == old(gl)@
                },
            },
    {
        if !acquired || !gl.can_create() {
            return Err(GlError::TextureAllocationError);
        }
        let id = gl.create(
            Body::Texture { width, height, data_type, format, filter: TextureFilter::Linear },
        );
        let texture = Texture { id };
        let linear = TextureFilter::Linear.code();
        let mut commands: Vec<Command> = Vec::new();
        commands.push(
            Command::plain(
                DeviceCall::TexParameteri {
                    target: TEXTURE_2D,
                    name: TEXTURE_WRAP_S,
                    value: CLAMP_TO_EDGE,
                },
            ),
        );
        commands.push(
            Command::plain(
                DeviceCall::TexParameteri {
                    target: TEXTURE_2D,
                    name: TEXTURE_WRAP_T,
                    value: CLAMP_TO_EDGE,
                },
            ),
        );
        commands.push(
            Command::plain(
                DeviceCall::TexParameteri {
                    target: TEXTURE_2D,
                    name: TEXTURE_MAG_FILTER,
                    value: linear,
                },
            ),
        );
        commands.push(
            Command::plain(
                DeviceCall::TexParameteri {
                    target: TEXTURE_2D,
                    name: TEXTURE_MIN_FILTER,
                    value: linear,
                },
            ),
        );
        proof {
            assert(records(commands@) =~= Self::setup());
        }
        Self::write(gl, id, commands);
        match data {
            TextureContent::Empty => texture.init_buffer(gl),
            TextureContent::Image => texture.write_image(gl),
            TextureContent::Bytes(bytes) => texture.write_bytes(gl, &bytes),
        }
        Ok(texture)
    }

    pub fn width(&self, gl: &Gl) -> (width: u32)
        requires
            gl.wf(),
            self.held(gl@),
        ensures
            width == self.spec_width(gl@),
    {
        match &gl.lookup(self.id).body {
            Body::Texture { width, .. } => *width,
            _ => 0,
        }
    }

    pub fn height(&self, gl: &Gl) -> (height: u32)
        requires
            gl.wf(),
            self.held(gl@),
        ensures
            height == self.spec_height(gl@),
    {
        match &gl.lookup(self.id).body {
            Body::Texture { height, .. } => *height,
            _ => 0,
        }
    }

    pub fn data_type(&self, gl: &Gl) -> (data_type: TextureType)
        requires
            gl.wf(),
            self.held(gl@),
        ensures
            data_type == self.spec_data_type(gl@),
    {
        match &gl.lookup(self.id).body {
            Body::Texture { data_type, .. } => *data_type,
            _ => TextureType::Byte,
        }
    }

    pub fn format(&self, gl: &Gl) -> (format: TextureFormat)
        requires
            gl.wf(),
            self.held(gl@),
        ensures
            format == self.spec_format(gl@),
    {
        match &gl.lookup(self.id).body {
            Body::Texture { format, .. } => *format,
            _ => TextureFormat::Rgba,
        }
    }

    /// The width and the height of the texture.
    pub fn size(&self, gl: &Gl) -> (size: (u32, u32))
        requires
            gl.wf(),
            self.held(gl@),
        ensures
            size == (self.spec_width(gl@), self.spec_height(gl@)),
    {
        (self.width(gl), self.height(gl))
    }

    pub fn filter(&self, gl: &Gl) -> (filter: TextureFilter)
        requires
            gl.wf(),
            self.held(gl@),
        ensures
            filter == self.spec_filter(gl@),
    {
        match &gl.lookup(self.id).body {
            Body::Texture { filter, .. } => *filter,
            _ => TextureFilter::Linear,
        }
    }

    /// The state once the texture `id` has the sampling filter `filter`: as it
    /// was where the texture had that filter; else the texture was bound to unit
    /// 0 with unit 0 active, both filters were set, the settings were undone, and
    /// the texture has the filter.
    pub open spec fn filtered(gl: GlView, id: u64, filter: TextureFilter) -> GlView {
        let body = gl.objects[id].body;
        if body->Texture_filter == filter {
            gl
        } else {
            gl.emitted_all(
                round_trip(
                    gl.cache,
                    Self::filter_scope(id),
                    seq![
                        parameter(TEXTURE_MAG_FILTER, filter.spec_code()),
                        parameter(TEXTURE_MIN_FILTER, filter.spec_code()),
                    ],
                ),
            ).with_body(
                id,
                Body::Texture {
                    width: body->Texture_width,
                    height: body->Texture_height,
                    data_type: body->Texture_data_type,
                    format: body->Texture_format,
                    filter,
                },
            )
        }
    }

    /// Gives the texture `id` the sampling filter `filter`.
    pub(crate) fn set_filter_of(gl: &mut Gl, id: u64, filter: TextureFilter)
        requires
            old(gl).wf(),
            old(gl)@.live(id),
            old(gl)@.objects[id].body is Texture,
        ensures
            final(gl).wf(),
            final(gl)@ == Self::filtered(old(gl)@, id, filter),
    {
        let (width, height, data_type, format, current) = match &gl.lookup(id).body {
            Body::Texture { width, height, data_type, format, filter } => (
                *width,
                *height,
                *data_type,
                *format,
                *filter,
            ),
            _ => (0, 0, TextureType::Byte, TextureFormat::Rgba, filter),
        };
        if current != filter {
            let mut settings: Vec<Setting> = Vec::new();
            settings.push(Setting::Texture(TextureSetting { index: 0, texture: Some(id) }));
            settings.push(Setting::Cached(CachedSetting::ActiveTexture(ActiveTextureSetting(0))));
            let mut commands: Vec<Command> = Vec::new();
            commands.push(
                Command::plain(
                    DeviceCall::TexParameteri {
                        target: TEXTURE_2D,
                        name: TEXTURE_MAG_FILTER,
                        value: filter.code(),
                    },
                ),
            );
            commands.push(
                Command::plain(
                    DeviceCall::TexParameteri {
                        target: TEXTURE_2D,
                        name: TEXTURE_MIN_FILTER,
                        value: filter.code(),
                    },
                ),
            );
            proof {
                assert(views(settings@) =~= Self::filter_scope(id));
                assert(records(commands@) =~= seq![
                    parameter(TEXTURE_MAG_FILTER, filter.spec_code()),
                    parameter(TEXTURE_MIN_FILTER, filter.spec_code()),
                ]);
            }
            gl.run(&settings, commands);
            gl.set_body(id, Body::Texture { width, height, data_type, format, filter });
        }
    }

    /// Gives the texture the sampling filter `filter`; nothing is sent to the
    /// device where the texture has it already.
    pub fn set_filter(&self, gl: &mut Gl, filter: TextureFilter)
        requires
            old(gl).wf(),
            self.held(old(gl)@),
        ensures
            final(gl).wf(),
            self.held(final(gl)@),
            self.spec_filter(final(gl)@) == filter,
            final(gl)@ == Self::filtered(old(gl)@, self.id(), filter),
    {
        Self::set_filter_of(gl, self.id, filter);
    }

    /// Fills the texture from the image that the caller holds for it.
    pub fn write_image(&self, gl: &mut Gl)
        requires
            old(gl).wf(),
            self.held(old(gl)@),
        ensures
            final(gl).wf(),
            final(gl)@ == Self::written(
                old(gl)@,
                self.id(),
                seq![
                    tex_image_of(
                        self.id(),
                        self.spec_data_type(old(gl)@),
                        self.spec_format(old(gl)@),
                    ),
                ],
            ),
    {
        let format = self.format(gl);
        let data_type = self.data_type(gl);
        let mut commands: Vec<Command> = Vec::new();
        let call = DeviceCall::TexImage2dImage {
            target: TEXTURE_2D,
            level: 0,
            internal_format: as_signed(format.code()),
            format: format.code(),
            data_type: data_type.code(),
            texture: self.id,
        };
        commands.push(Command::plain(call));
        proof {
            assert(records(commands@) =~= seq![tex_image_of(self.id, data_type, format)]);
        }
        Self::write(gl, self.id, commands);
    }

    /// The command that allocates a texture, with `pixels` as its texels where
    /// there are any.
    fn image_command(
        width: u32,
        height: u32,
        data_type: TextureType,
        format: TextureFormat,
        pixels: Option<&Vec<u8>>,
    ) -> (command: Command)
        ensures
            command@ == tex_image(
                width,
                height,
                data_type,
                format,
                match pixels {
                    Some(bytes) => Some(bytes@),
                    None => None,
                },
            ),
    {
        let mut bytes: Vec<u8> = Vec::new();
        if let Some(source) = pixels {
            let mut i: usize = 0;
            while i < source.len()
                invariant
                    i <= source.len(),
                    bytes@ == source@.take(i as int),
                decreases source.len() - i,
            {
                bytes.push(source[i]);
                proof {
                    assert(source@.take(i + 1) =~= source@.take(i as int).push(source@[i as int]));
                }
                i += 1;
            }
            proof {
                assert(source@.take(source.len() as int) =~= source@);
            }
        }
        Command {
            call: DeviceCall::TexImage2d {
                target: TEXTURE_2D,
                level: 0,
                internal_format: as_signed(format.code()),
                width: as_signed(width),
                height: as_signed(height),
                border: 0,
                format: format.code(),
                data_type: data_type.code(),
                with_pixels: pixels.is_some(),
            },
            words: Vec::new(),
            bytes,
        }
    }

    /// Fills the texture with the texels `bytes`.
    pub fn write_bytes(&self, gl: &mut Gl, bytes: &Vec<u8>)
        requires
            old(gl).wf(),
            self.held(old(gl)@),
        ensures
            final(gl).wf(),
            final(gl)@ == Self::written(
                old(gl)@,
                self.id(),
                seq![
                    tex_image(
                        self.spec_width(old(gl)@),
                        self.spec_height(old(gl)@),
                        self.spec_data_type(old(gl)@),
                        self.spec_format(old(gl)@),
                        Some(bytes@),
                    ),
                ],
            ),
    {
        let command = Self::image_command(
            self.width(gl),
            self.height(gl),
            self.data_type(gl),
            self.format(gl),
            Some(bytes),
        );
        let mut commands: Vec<Command> = Vec::new();
        let ghost record = command@;
        commands.push(command);
        proof {
            assert(records(commands@) =~= seq![record]);
        }
        Self::write(gl, self.id, commands);
    }

    /// Allocates the texture without contents.
    fn init_buffer(&self, gl: &mut Gl)
        requires
            old(gl).wf(),
            self.held(old(gl)@),
        ensures
            final(gl).wf(),
            final(gl)@ == Self::written(
                old(gl)@,
                self.id(),
                seq![
                    tex_image(
                        self.spec_width(old(gl)@),
                        self.spec_height(old(gl)@),
                        self.spec_data_type(old(gl)@),
                        self.spec_format(old(gl)@),
                        None,
                    ),
                ],
            ),
    {
        let command = Self::image_command(
            self.width(gl),
            self.height(gl),
            self.data_type(gl),
            self.format(gl),
            None,
        );
        let mut commands: Vec<Command> = Vec::new();
        let ghost record = command@;
        commands.push(command);
        proof {
            assert(records(commands@) =~= seq![record]);
        }
        Self::write(gl, self.id, commands);
    }

    /// The state once the device calls `inner` have run on a frame buffer made
    /// for the occasion, with the texture `id` as its colour buffer: the frame
    /// buffer was made and the texture attached to it; the calls ran under the
    /// settings `outer` and the binding of the frame buffer, which were undone
    /// afterwards; and the frame buffer was given up.
    pub open spec fn through_frame_buffer(
        gl: GlView,
        id: u64,
        outer: Seq<SettingView>,
        inner: Seq<Record>,
    ) -> GlView {
        let target = gl.next;
        let attached = FrameBuffer::with_color(
            gl.created(Body::FrameBuffer { color_buffer: None, depth_buffer: None }),
            target,
            Some(id),
        );
        attached.emitted_all(
            round_trip(attached.cache, outer.push(FrameBuffer::binding(target)), inner),
        ).released(target)
    }

    /// Runs device calls on a frame buffer made for the occasion, with the
    /// texture as its colour buffer, on the device's answer `acquired` to the
    /// request for a new frame buffer.
    fn run_on_frame_buffer(
        &self,
        gl: &mut Gl,
        acquired: bool,
        settings: Vec<Setting>,
        commands: Vec<Command>,
    ) -> (result: Result<(), GlError>)
        requires
            old(gl).wf(),
            self.held(old(gl)@),
            all_valid(views(settings@)),
            old(gl)@.has_all(views(settings@)),
            release_nothing(records(commands@)),
        ensures
            final(gl).wf(),
            self.held(final(gl)@),
            final(gl)@.objects[self.id()] == old(gl)@.objects[self.id()],
            match result {
                Ok(_) => {
                    &&& acquired
                    &&& old(gl)@.next < u64::MAX
                    &&& final(gl)@ == Self::through_frame_buffer(
                        old(gl)@,
                        self.id(),
                        views(settings@),
                        records(commands@),
                    )
                },
                Err(error) => {
                    &&& !acquired || old(gl)@.next == u64::MAX
                    &&& error == GlError::FrameBufferError
                    &&& final(gl)@ == old(gl)@
                },
            },
    {
        let target = match FrameBuffer::new(gl, acquired) {
            Ok(target) => target,
            Err(error) => {
                return Err(error);
            },
        };
        let ghost made = gl@;
        target.set_color_buffer(gl, Some(self));
        let ghost attached = gl@;
        proof {
            let bound = made.emitted_all(
                round_trip(
                    made.cache,
                    seq![FrameBuffer::binding(target.id())],
                    seq![plain(FrameBuffer::color_call(Some(self.id())))],
                ),
            );
            assert(bound.objects[target.id()].body == (Body::FrameBuffer {
                color_buffer: None,
                depth_buffer: None,
            }));
            assert(attached == bound.attached_to(target.id(), Some(self.id()), None));
            assert(attached.objects =~= made.objects.insert(
                target.id(),
                Object {
                    body: Body::FrameBuffer { color_buffer: Some(self.id()), depth_buffer: None },
                    ..made.objects[target.id()]
                },
            ));
        }
        let mut settings = settings;
        let ghost outer = views(settings@);
        settings.push(
            Setting::Cached(CachedSetting::FrameBuffer(FrameBufferSetting { buffer: Some(target.id()) })),
        );
        proof {
            assert(views(settings@) =~= outer.push(FrameBuffer::binding(target.id())));
            assert forall|i: int, id: u64|
                0 <= i < views(settings@).len() && (#[trigger] views(settings@)[i].refers(
                    id,
                )) implies gl@.live(id) by {
                if i < outer.len() {
                    assert(outer[i].refers(id));
                }
            }
            assert forall|i: int| 0 <= i < views(settings@).len() implies (#[trigger] views(
                settings@,
            )[i]).valid() by {
                if i < outer.len() {
                    assert(outer[i].valid());
                }
            }
        }
        gl.run(&settings, commands);
        proof {
            lemma_released_keeps(gl@, target.id(), self.id());
        }
        target.release(gl);
        Ok(())
    }

    /// The number of bytes that the texels of the texture take with `channels`
    /// bytes each.
    pub open spec fn spec_byte_size(&self, gl: GlView, channels: u32) -> int {
        self.spec_width(gl) * self.spec_height(gl) * channels
    }

    /// The number of bytes that the texels of the texture take with `channels`
    /// bytes each, where 32 bits hold that number.
    pub fn byte_size(&self, gl: &Gl, channels: u32) -> (size: Option<u32>)
        requires
            gl.wf(),
            self.held(gl@),
            channels <= 4,
        ensures
            match size {
                Some(size) => size == self.spec_byte_size(gl@, channels),
                None => self.spec_byte_size(gl@, channels) > u32::MAX,
            },
    {
        let width = self.width(gl);
        let height = self.height(gl);
        assert(width * height <= 0xffff_ffff * 0xffff_ffff) by (nonlinear_arith)
            requires
                width <= 0xffff_ffff,
                height <= 0xffff_ffff,
        ;
        let area: u64 = width as u64 * height as u64;
        if channels == 0 {
            assert(width * height * channels == 0) by (nonlinear_arith)
                requires
                    channels == 0,
            ;
            return Some(0);
        }
        if area > 0xffff_ffff {
            assert(width * height * channels > 0xffff_ffff) by (nonlinear_arith)
                requires
                    width * height > 0xffff_ffff,
                    channels >= 1,
            ;
            return None;
        }
        assert(area * channels <= 0xffff_ffff * 4) by (nonlinear_arith)
            requires
                area <= 0xffff_ffff,
                channels <= 4,
        ;
        let total: u64 = area * channels as u64;
        if total > 0xffff_ffff {
            None
        } else {
            Some(total as u32)
        }
    }

    /// What a caller's buffer of `length` bytes is refused with where the
    /// texture's texels take `expected` bytes.
    pub open spec fn wrong_size(expected: int, length: usize) -> GlError {
        GlError::InvalidBufferSize { expected: expected as u32, received: reported_length(length) }
    }

    /// Checks that a buffer of `length` bytes holds exactly the texels of the
    /// texture with `channels` bytes each; nothing is sent to the device.
    pub fn check_buffer_size(&self, gl: &Gl, channels: u32, length: usize) -> (result: Result<
        (),
        GlError,
    >)
        requires
            gl.wf(),
            self.held(gl@),
            channels <= 4,
            self.spec_byte_size(gl@, channels) <= u32::MAX,
        ensures
            match result {
                Ok(_) => length == self.spec_byte_size(gl@, channels),
                Err(error) => length != self.spec_byte_size(gl@, channels) && error
                    == Self::wrong_size(self.spec_byte_size(gl@, channels), length),
            },
    {
        let expected = self.byte_size(gl, channels).unwrap();
        if length as u64 != expected as u64 {
            Err(
                GlError::InvalidBufferSize {
                    expected,
                    received: ((length as u64) % 0x1_0000_0000) as u32,
                },
            )
        } else {
            Ok(())
        }
    }

    /// The command that reads the bound frame buffer as bytes of red, green,
    /// blue and alpha.
    fn read_command(width: u32, height: u32) -> (command: Command)
        ensures
            command@ == read_pixels(width, height),
    {
        Command::plain(
            DeviceCall::ReadPixels {
                x: 0,
                y: 0,
                width: as_signed(width),
                height: as_signed(height),
                format: TextureFormat::Rgba.code(),
                data_type: TextureType::Byte.code(),
            },
        )
    }

    /// The state once the texels of the texture `id` have been read back.
    pub open spec fn read_back(gl: GlView, id: u64) -> GlView {
        let body = gl.objects[id].body;
        Self::through_frame_buffer(
            gl,
            id,
            Seq::empty(),
            seq![read_pixels(body->Texture_width, body->Texture_height)],
        )
    }

    /// Has the device read the texels of the texture, as bytes of red, green,
    /// blue and alpha, into the caller's array of `length` bytes, on the
    /// device's answer `acquired` to the request for a new frame buffer. An array
    /// of another length than four bytes for each texel is refused, and nothing
    /// is sent to the device.
    pub fn read_pixels_into_array(&self, gl: &mut Gl, acquired: bool, length: usize) -> (result:
        Result<(), GlError>)
        requires
            old(gl).wf(),
            self.held(old(gl)@),
            self.spec_byte_size(old(gl)@, 4) <= u32::MAX,
        ensures
            final(gl).wf(),
            self.held(final(gl)@),
            final(gl)@.objects[self.id()] == old(gl)@.objects[self.id()],
            match result {
                Ok(_) => {
                    &&& length == self.spec_byte_size(old(gl)@, 4)
                    &&& acquired
                    &&& old(gl)@.next < u64::MAX
                    &&& final(gl)@ == Self::read_back(old(gl)@, self.id())
                },
                Err(error) => {
                    &&& final(gl)@ == old(gl)@
                    &&& if length != self.spec_byte_size(old(gl)@, 4) {
                        error == Self::wrong_size(self.spec_byte_size(old(gl)@, 4), length)
                    } else {
                        error == GlError::FrameBufferError && (!acquired || old(gl)@.next
                            == u64::MAX)
                    }
                },
            },
    {
        match self.check_buffer_size(gl, 4, length) {
            Err(error) => {
                return Err(error);
            },
            Ok(_) => {},
        }
        let mut commands: Vec<Command> = Vec::new();
        let command = Self::read_command(self.width(gl), self.height(gl));
        let ghost record = command@;
        commands.push(command);
        let settings: Vec<Setting> = Vec::new();
        proof {
            assert(records(commands@) =~= seq![record]);
            assert(views(settings@) =~= Seq::<SettingView>::empty());
        }
        self.run_on_frame_buffer(gl, acquired, settings, commands)
    }

    /// What a read-back of a texture whose texels are no bytes is refused with.
    pub open spec fn wrong_type(data_type: TextureType) -> Seq<char> {
        match data_type {
            TextureType::Byte => "Invalid texture data type Byte"@,
            TextureType::Float => "Invalid texture data type Float"@,
            TextureType::HalfFloat => "Invalid texture data type HalfFloat"@,
        }
    }

    /// Has the device read the texels of the texture into the caller's byte
    /// buffer of `length` bytes, on the device's answer `acquired` to the request
    /// for a new frame buffer. A texture whose texels are no bytes is refused, and
    /// so is a buffer of another length than that of the texels in the texture's
    /// own format; nothing is then sent to the device.
    pub fn read_pixels_into_buffer(&self, gl: &mut Gl, acquired: bool, length: usize) -> (result:
        Result<(), GlError>)
        requires
            old(gl).wf(),
            self.held(old(gl)@),
            self.spec_data_type(old(gl)@) == TextureType::Byte ==> self.spec_byte_size(
                old(gl)@,
                self.spec_format(old(gl)@).spec_channels(),
            ) <= u32::MAX,
        ensures
            final(gl).wf(),
            self.held(final(gl)@),
            final(gl)@.objects[self.id()] == old(gl)@.objects[self.id()],
            match result {
                Ok(_) => {
                    &&& self.spec_data_type(old(gl)@) == TextureType::Byte
                    &&& length == self.spec_byte_size(
                        old(gl)@,
                        self.spec_format(old(gl)@).spec_channels(),
                    )
                    &&& acquired
                    &&& old(gl)@.next < u64::MAX
                    &&& final(gl)@ == Self::read_back(old(gl)@, self.id())
                },
                Err(error) => {
                    let expected = self.spec_byte_size(
                        old(gl)@,
                        self.spec_format(old(gl)@).spec_channels(),
                    );
                    &&& final(gl)@ == old(gl)@
                    &&& if self.spec_data_type(old(gl)@) != TextureType::Byte {
                        &&& error matches GlError::ReadPixelsError(Some(message))
                        &&& message@ == Self::wrong_type(self.spec_data_type(old(gl)@))
                    } else if length != expected {
                        error == Self::wrong_size(expected, length)
                    } else {
                        error == GlError::FrameBufferError && (!acquired || old(gl)@.next
                            == u64::MAX)
                    }
                },
            },
    {
        let data_type = self.data_type(gl);
        match data_type {
            TextureType::Byte => {},
            TextureType::Float => {
                return Err(
                    GlError::ReadPixelsError(Some("Invalid texture data type Float".to_owned())),
                );
            },
            TextureType::HalfFloat => {
                return Err(
                    GlError::ReadPixelsError(
                        Some("Invalid texture data type HalfFloat".to_owned()),
                    ),
                );
            },
        }
        let channels = self.format(gl).channels();
        match self.check_buffer_size(gl, channels, length) {
            Err(error) => {
                return Err(error);
            },
            Ok(_) => {},
        }
        let mut commands: Vec<Command> = Vec::new();
        let command = Self::read_command(self.width(gl), self.height(gl));
        let ghost record = command@;
        commands.push(command);
        let settings: Vec<Setting> = Vec::new();
        proof {
            assert(records(commands@) =~= seq![record]);
            assert(views(settings@) =~= Seq::<SettingView>::empty());
        }
        self.run_on_frame_buffer(gl, acquired, settings, commands)
    }

    /// Has the device read the texels of the texture, as bytes of red, green,
    /// blue and alpha, into an array that the caller makes for it. Returns the
    /// length that the array must have: four bytes for each texel.
    pub fn read_pixels_array(&self, gl: &mut Gl, acquired: bool) -> (result: Result<u32, GlError>)
        requires
            old(gl).wf(),
            self.held(old(gl)@),
            self.spec_byte_size(old(gl)@, 4) <= u32::MAX,
        ensures
            final(gl).wf(),
            self.held(final(gl)@),
            final(gl)@.objects[self.id()] == old(gl)@.objects[self.id()],
            match result {
                Ok(length) => {
                    &&& length == self.spec_byte_size(old(gl)@, 4)
                    &&& acquired
                    &&& old(gl)@.next < u64::MAX
                    &&& final(gl)@ == Self::read_back(old(gl)@, self.id())
                },
                Err(error) => {
                    &&& final(gl)@ == old(gl)@
                    &&& error == GlError::FrameBufferError
                    &&& !acquired || old(gl)@.next == u64::MAX
                },
            },
    {
        let length = self.byte_size(gl, 4).unwrap();
        match self.read_pixels_into_array(gl, acquired, length as usize) {
            Ok(_) => Ok(length),
            Err(error) => Err(error),
        }
    }

    /// Has the device read the texels of the texture into a byte buffer that the
    /// caller makes for it, of four bytes for each texel. Returns the length of
    /// that buffer. A texture whose own format has fewer channels is refused, as
    /// the buffer is then too long for its texels.
    pub fn read_pixels_buffer(&self, gl: &mut Gl, acquired: bool) -> (result: Result<u32, GlError>)
        requires
            old(gl).wf(),
            self.held(old(gl)@),
            self.spec_byte_size(old(gl)@, 4) <= u32::MAX,
        ensures
            final(gl).wf(),
            self.held(final(gl)@),
            final(gl)@.objects[self.id()] == old(gl)@.objects[self.id()],
            match result {
                Ok(length) => {
                    &&& length == self.spec_byte_size(old(gl)@, 4)
                    &&& self.spec_data_type(old(gl)@) == TextureType::Byte
                    &&& length == self.spec_byte_size(
                        old(gl)@,
                        self.spec_format(old(gl)@).spec_channels(),
                    )
                    &&& acquired
                    &&& old(gl)@.next < u64::MAX
                    &&& final(gl)@ == Self::read_back(old(gl)@, self.id())
                },
                Err(error) => {
                    let length = self.spec_byte_size(old(gl)@, 4);
                    let expected = self.spec_byte_size(
                        old(gl)@,
                        self.spec_format(old(gl)@).spec_channels(),
                    );
                    &&& final(gl)@ == old(gl)@
                    &&& if self.spec_data_type(old(gl)@) != TextureType::Byte {
                        &&& error matches GlError::ReadPixelsError(Some(message))
                        &&& message@ == Self::wrong_type(self.spec_data_type(old(gl)@))
                    } else if length != expected {
                        error == Self::wrong_size(expected, length as usize)
                    } else {
                        error == GlError::FrameBufferError && (!acquired || old(gl)@.next
                            == u64::MAX)
                    }
                },
            },
    {
        let length = self.byte_size(gl, 4).unwrap();
        proof {
            let area = self.spec_width(gl@) * self.spec_height(gl@);
            let channels = self.spec_format(gl@).spec_channels();
            assert(area * channels <= area * 4) by (nonlinear_arith)
                requires
                    0 <= area,
                    channels <= 4,
            ;
        }
        match self.read_pixels_into_buffer(gl, acquired, length as usize) {
            Ok(_) => Ok(length),
            Err(error) => Err(error),
        }
    }

    /// The state once the texture `id` has been cleared to a colour.
    pub open spec fn cleared(gl: GlView, id: u64, color: ClearColorSetting) -> GlView {
        let body = gl.objects[id].body;
        Self::through_frame_buffer(
            gl,
            id,
            seq![
                SettingView::Cached(CachedSetting::ClearColor(color)),
                SettingView::Cached(
                    CachedSetting::Viewport(
                        ViewportSetting {
                            x: 0,
                            y: 0,
                            width: spec_as_signed(body->Texture_width),
                            height: spec_as_signed(body->Texture_height),
                        },
                    ),
                ),
            ],
            seq![plain(DeviceCall::Clear { mask: COLOR_BUFFER_BIT })],
        )
    }

    /// Clears the texture to the colour of the components `red`, `green`, `blue`
    /// and `alpha`, each the bit pattern of a single-precision number, on the
    /// device's answer `acquired` to the request for a new frame buffer: the
    /// colour buffer of a frame buffer made for the occasion is cleared, under
    /// that clear colour and a viewport of the texture's size.
    pub fn clear(&self, gl: &mut Gl, acquired: bool, red: u32, green: u32, blue: u32, alpha: u32) -> (result:
        Result<(), GlError>)
        requires
            old(gl).wf(),
            self.held(old(gl)@),
        ensures
            final(gl).wf(),
            self.held(final(gl)@),
            final(gl)@.objects[self.id()] == old(gl)@.objects[self.id()],
            match result {
                Ok(_) => {
                    &&& acquired
                    &&& old(gl)@.next < u64::MAX
                    &&& final(gl)@ == Self::cleared(
                        old(gl)@,
                        self.id(),
                        ClearColorSetting { red, green, blue, alpha },
                    )
                },
                Err(error) => {
                    &&& final(gl)@ == old(gl)@
                    &&& error == GlError::FrameBufferError
                    &&& !acquired || old(gl)@.next == u64::MAX
                },
            },
    {
        let color = ClearColorSetting { red, green, blue, alpha };
        let viewport = ViewportSetting {
            x: 0,
            y: 0,
            width: as_signed(self.width(gl)),
            height: as_signed(self.height(gl)),
        };
        let mut settings: Vec<Setting> = Vec::new();
        settings.push(Setting::Cached(CachedSetting::ClearColor(color)));
        settings.push(Setting::Cached(CachedSetting::Viewport(viewport)));
        let mut commands: Vec<Command> = Vec::new();
        commands.push(Command::plain(DeviceCall::Clear { mask: COLOR_BUFFER_BIT }));
        proof {
            assert(views(settings@) =~= seq![
                SettingView::Cached(CachedSetting::ClearColor(color)),
                SettingView::Cached(CachedSetting::Viewport(viewport)),
            ]);
            assert(records(commands@) =~= seq![plain(DeviceCall::Clear { mask: COLOR_BUFFER_BIT })]);
        }
        self.run_on_frame_buffer(gl, acquired, settings, commands)
    }

    /// A handle value for the texture `id`, which the caller has counted.
    pub(crate) fn counted(id: u64) -> (handle: Texture)
        ensures
            handle.id() == id,
    {
        Texture { id }
    }
}

} // verus!
