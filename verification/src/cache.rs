use crate::device::{plain, plain_all, DeviceCall, Record, TEXTURE0, TEXTURE_2D};
use crate::settings::{
    ActiveTextureSetting, ArrayBufferSetting, BlendEquation, BlendEquationSetting, BlendFunction,
    BlendFunctionSetting, BlendSetting, CachedSetting, ClearColorSetting, ClearDepthSetting,
    ColorMask, CullFace, DepthBufferSetting, DepthFunction, DepthTestSetting,
    ElementBufferSetting, EmptySetting, EnabledAttributesSetting, FrameBufferSetting,
    names_texture, InstancedAttributesSetting, ProgramSetting, Setting, SettingView,
    TextureListSetting,
    TextureSetting, ViewportSetting,
};
use crate::texture::TEXTURES_COUNT;
use vstd::prelude::*;

verus! {

/// The value last handed to the device, for every state category.
#[derive(Clone, Debug)]
pub struct SettingsCache {
    pub blend: BlendSetting,
    pub depth: DepthTestSetting,
    pub array_buffer: ArrayBufferSetting,
    pub element_buffer: ElementBufferSetting,
    pub active_texture: ActiveTextureSetting,
    pub textures: [Option<u64>; 16],
    pub enabled_attributes: Vec<u32>,
    pub instanced_attributes: Vec<u32>,
    pub program: ProgramSetting,
    pub clear_color: ClearColorSetting,
    pub clear_depth: ClearDepthSetting,
    pub viewport: ViewportSetting,
    pub depth_buffer: DepthBufferSetting,
    pub frame_buffer: FrameBufferSetting,
    pub blend_equation: BlendEquationSetting,
    pub blend_function: BlendFunctionSetting,
    pub depth_function: DepthFunction,
    pub cull_face: CullFace,
    pub color_mask: ColorMask,
}

/// What a [`SettingsCache`] holds.
pub struct CacheView {
    pub blend: BlendSetting,
    pub depth: DepthTestSetting,
    pub array_buffer: ArrayBufferSetting,
    pub element_buffer: ElementBufferSetting,
    pub active_texture: ActiveTextureSetting,
    pub textures: Seq<Option<u64>>,
    pub enabled_attributes: Seq<u32>,
    pub instanced_attributes: Seq<u32>,
    pub program: ProgramSetting,
    pub clear_color: ClearColorSetting,
    pub clear_depth: ClearDepthSetting,
    pub viewport: ViewportSetting,
    pub depth_buffer: DepthBufferSetting,
    pub frame_buffer: FrameBufferSetting,
    pub blend_equation: BlendEquationSetting,
    pub blend_function: BlendFunctionSetting,
    pub depth_function: DepthFunction,
    pub cull_face: CullFace,
    pub color_mask: ColorMask,
}

impl View for SettingsCache {
    type V = CacheView;

    open spec fn view(&self) -> CacheView {
        CacheView {
            blend: self.blend,
            depth: self.depth,
            array_buffer: self.array_buffer,
            element_buffer: self.element_buffer,
            active_texture: self.active_texture,
            textures: self.textures@,
            enabled_attributes: self.enabled_attributes@,
            instanced_attributes: self.instanced_attributes@,
            program: self.program,
            clear_color: self.clear_color,
            clear_depth: self.clear_depth,
            viewport: self.viewport,
            depth_buffer: self.depth_buffer,
            frame_buffer: self.frame_buffer,
            blend_equation: self.blend_equation,
            blend_function: self.blend_function,
            depth_function: self.depth_function,
            cull_face: self.cull_face,
            color_mask: self.color_mask,
        }
    }
}

/// The items of `v1` that do not occur in `v2`, in their order in `v1`.
pub open spec fn spec_array_diff(v1: Seq<u32>, v2: Seq<u32>) -> Seq<u32> {
    v1.filter(|item: u32| !v2.contains(item))
}

/// The items of `items`, each once: of equal items the first stays, in its place.
pub open spec fn spec_distinct(items: Seq<u32>) -> Seq<u32>
    decreases items.len(),
{
    if items.len() == 0 {
        Seq::empty()
    } else {
        let before = spec_distinct(items.drop_last());
        if items.drop_last().contains(items.last()) {
            before
        } else {
            before.push(items.last())
        }
    }
}

/// The slots that `v1` has and `v2` has not, each once, in their order in `v1`.
pub open spec fn slot_diff(v1: Seq<u32>, v2: Seq<u32>) -> Seq<u32> {
    spec_distinct(spec_array_diff(v1, v2))
}

/// The calls that bind `texture` to unit `index` while unit `active` is the active
/// one: the bind alone on the active unit, otherwise the bind between a switch to
/// the unit and a switch back.
pub open spec fn set_texture_calls(active: u32, index: u32, texture: Option<u64>) -> Seq<
    DeviceCall,
> {
    let bind = DeviceCall::BindTexture { target: TEXTURE_2D, texture };
    if active == index {
        seq![bind]
    } else {
        seq![
            DeviceCall::ActiveTexture { texture: (index + TEXTURE0) as u32 },
            bind,
            DeviceCall::ActiveTexture { texture: (active + TEXTURE0) as u32 },
        ]
    }
}

/// The calls that take the first `count` texture units from the bindings `current`
/// to `target`: those of each unit whose binding differs, in the order of the units.
pub open spec fn set_textures_calls(
    active: u32,
    current: Seq<Option<u64>>,
    target: Seq<Option<u64>>,
    count: nat,
) -> Seq<DeviceCall>
    decreases count,
{
    if count == 0 {
        Seq::empty()
    } else {
        let index = (count - 1) as nat;
        let before = set_textures_calls(active, current, target, index);
        if current[index as int] != target[index as int] {
            before + set_texture_calls(active, index as u32, target[index as int])
        } else {
            before
        }
    }
}

/// One call for each slot, in their order, that enables the slot.
pub open spec fn enable_calls(slots: Seq<u32>) -> Seq<DeviceCall> {
    Seq::new(slots.len(), |i: int| DeviceCall::EnableVertexAttribArray { index: slots[i] })
}

/// One call for each slot, in their order, that disables the slot.
pub open spec fn disable_calls(slots: Seq<u32>) -> Seq<DeviceCall> {
    Seq::new(slots.len(), |i: int| DeviceCall::DisableVertexAttribArray { index: slots[i] })
}

/// One call for each slot, in their order, that sets the slot's instancing
/// divisor.
pub open spec fn divisor_calls(slots: Seq<u32>, divisor: u32) -> Seq<DeviceCall> {
    Seq::new(slots.len(), |i: int| DeviceCall::VertexAttribDivisor { index: slots[i], divisor })
}

impl CacheView {
    /// The cache can be handed to the device: all units are there and the code of
    /// the active one fits its type.
    pub open spec fn valid(self) -> bool {
        &&& self.textures.len() == TEXTURES_COUNT
        &&& self.active_texture.0 <= u32::MAX - TEXTURE0
    }

    /// The cached value of the category that `like` belongs to.
    #[verifier::opaque]
    pub open spec fn get(self, like: CachedSetting) -> CachedSetting {
        match like {
            CachedSetting::ClearColor(_) => CachedSetting::ClearColor(self.clear_color),
            CachedSetting::ClearDepth(_) => CachedSetting::ClearDepth(self.clear_depth),
            CachedSetting::Viewport(_) => CachedSetting::Viewport(self.viewport),
            CachedSetting::ActiveTexture(_) => CachedSetting::ActiveTexture(self.active_texture),
            CachedSetting::ArrayBuffer(_) => CachedSetting::ArrayBuffer(self.array_buffer),
            CachedSetting::ElementBuffer(_) => CachedSetting::ElementBuffer(self.element_buffer),
            CachedSetting::Blend(_) => CachedSetting::Blend(self.blend),
            CachedSetting::DepthTest(_) => CachedSetting::DepthTest(self.depth),
            CachedSetting::Program(_) => CachedSetting::Program(self.program),
            CachedSetting::DepthBuffer(_) => CachedSetting::DepthBuffer(self.depth_buffer),
            CachedSetting::FrameBuffer(_) => CachedSetting::FrameBuffer(self.frame_buffer),
            CachedSetting::BlendEquation(_) => CachedSetting::BlendEquation(self.blend_equation),
            CachedSetting::BlendFunction(_) => CachedSetting::BlendFunction(self.blend_function),
            CachedSetting::DepthFunction(_) => CachedSetting::DepthFunction(self.depth_function),
            CachedSetting::CullFace(_) => CachedSetting::CullFace(self.cull_face),
            CachedSetting::ColorMask(_) => CachedSetting::ColorMask(self.color_mask),
        }
    }

    /// The cache with `value` in its category and every other category as it was.
    #[verifier::opaque]
    pub open spec fn with(self, value: CachedSetting) -> CacheView {
        match value {
            CachedSetting::ClearColor(s) => CacheView { clear_color: s, ..self },
            CachedSetting::ClearDepth(s) => CacheView { clear_depth: s, ..self },
            CachedSetting::Viewport(s) => CacheView { viewport: s, ..self },
            CachedSetting::ActiveTexture(s) => CacheView { active_texture: s, ..self },
            CachedSetting::ArrayBuffer(s) => CacheView { array_buffer: s, ..self },
            CachedSetting::ElementBuffer(s) => CacheView { element_buffer: s, ..self },
            CachedSetting::Blend(s) => CacheView { blend: s, ..self },
            CachedSetting::DepthTest(s) => CacheView { depth: s, ..self },
            CachedSetting::Program(s) => CacheView { program: s, ..self },
            CachedSetting::DepthBuffer(s) => CacheView { depth_buffer: s, ..self },
            CachedSetting::FrameBuffer(s) => CacheView { frame_buffer: s, ..self },
            CachedSetting::BlendEquation(s) => CacheView { blend_equation: s, ..self },
            CachedSetting::BlendFunction(s) => CacheView { blend_function: s, ..self },
            CachedSetting::DepthFunction(s) => CacheView { depth_function: s, ..self },
            CachedSetting::CullFace(s) => CacheView { cull_face: s, ..self },
            CachedSetting::ColorMask(s) => CacheView { color_mask: s, ..self },
        }
    }

    /// Whether the cache already holds what `setting` asks for.
    pub open spec fn holds(self, setting: SettingView) -> bool {
        match setting {
            SettingView::Empty => true,
            SettingView::Cached(s) => self.get(s) == s,
            SettingView::Texture(s) => self.textures[s.index as int] == s.texture,
            SettingView::TextureList(textures) => self.textures == textures,
            SettingView::TextureFilter(_) => true,
            SettingView::EnabledAttributes(items) => self.enabled_attributes == items,
            SettingView::InstancedAttributes(items) => self.instanced_attributes == items,
        }
    }

    /// The cache once `setting` has been made current. The sampling filter of a
    /// texture is no part of the cache.
    pub open spec fn shifted(self, setting: SettingView) -> CacheView {
        match setting {
            SettingView::Empty => self,
            SettingView::Cached(s) => self.with(s),
            SettingView::Texture(s) => CacheView {
                textures: self.textures.update(s.index as int, s.texture),
                ..self
            },
            SettingView::TextureList(textures) => CacheView { textures, ..self },
            SettingView::TextureFilter(_) => self,
            SettingView::EnabledAttributes(items) => CacheView {
                enabled_attributes: items,
                ..self
            },
            SettingView::InstancedAttributes(items) => CacheView {
                instanced_attributes: items,
                ..self
            },
        }
    }

    /// The setting that, made current after `setting`, brings the cache back:
    /// the value that `setting` replaces, or nothing where the cache already
    /// holds what a single-valued setting asks for.
    pub open spec fn undo(self, setting: SettingView) -> SettingView {
        match setting {
            SettingView::Empty => SettingView::Empty,
            SettingView::Cached(s) => if self.get(s) == s {
                SettingView::Empty
            } else {
                SettingView::Cached(self.get(s))
            },
            SettingView::Texture(s) => if self.textures[s.index as int] == s.texture {
                SettingView::Empty
            } else {
                SettingView::Texture(
                    TextureSetting { index: s.index, texture: self.textures[s.index as int] },
                )
            },
            SettingView::TextureList(_) => SettingView::TextureList(self.textures),
            SettingView::TextureFilter(_) => SettingView::Empty,
            SettingView::EnabledAttributes(_) => SettingView::EnabledAttributes(
                self.enabled_attributes,
            ),
            SettingView::InstancedAttributes(_) => SettingView::InstancedAttributes(
                self.instanced_attributes,
            ),
        }
    }

    /// The device calls that make `setting` current: none where the cache holds
    /// its value, one per differing slot or unit for the indexed categories,
    /// however often a list names a slot.
    /// Entering a scope switches slots off before it switches others on;
    /// `restoring` one switches on first.
    pub open spec fn calls(self, setting: SettingView, restoring: bool) -> Seq<DeviceCall> {
        match setting {
            SettingView::Empty => Seq::empty(),
            SettingView::Cached(s) => if self.get(s) == s {
                Seq::empty()
            } else {
                seq![s.spec_call()]
            },
            SettingView::Texture(s) => if self.textures[s.index as int] == s.texture {
                Seq::empty()
            } else {
                set_texture_calls(self.active_texture.0, s.index, s.texture)
            },
            SettingView::TextureList(textures) => set_textures_calls(
                self.active_texture.0,
                self.textures,
                textures,
                TEXTURES_COUNT as nat,
            ),
            SettingView::TextureFilter(_) => Seq::empty(),
            SettingView::EnabledAttributes(items) => {
                let off = disable_calls(slot_diff(self.enabled_attributes, items));
                let on = enable_calls(slot_diff(items, self.enabled_attributes));
                if restoring {
                    on + off
                } else {
                    off + on
                }
            },
            SettingView::InstancedAttributes(items) => {
                let off = divisor_calls(slot_diff(self.instanced_attributes, items), 0);
                let on = divisor_calls(slot_diff(items, self.instanced_attributes), 1);
                if restoring {
                    on + off
                } else {
                    off + on
                }
            },
        }
    }

    /// Whether some category of the cache names the device object `id`.
    pub open spec fn refers(self, id: u64) -> bool {
        ||| self.array_buffer.0 == Some(id)
        ||| self.element_buffer.0 == Some(id)
        ||| self.program.program == Some(id)
        ||| self.depth_buffer.buffer == Some(id)
        ||| self.frame_buffer.buffer == Some(id)
        ||| self.textures.contains(Some(id))
    }
}

/// Whether `item` occurs in `items`.
fn contains(items: &Vec<u32>, item: u32) -> (found: bool)
    ensures
        found == items@.contains(item),
{
    let mut i: usize = 0;
    while i < items.len()
        invariant
            i <= items.len(),
            forall|k: int| 0 <= k < i ==> items@[k] != item,
        decreases items.len() - i,
    {
        if items[i] == item {
            return true;
        }
        i += 1;
    }
    false
}

/// The items of `v1` that do not occur in `v2`, in their order in `v1`.
pub fn array_diff(v1: &Vec<u32>, v2: &Vec<u32>) -> (difference: Vec<u32>)
    ensures
        difference@ == spec_array_diff(v1@, v2@),
{
    let mut difference: Vec<u32> = Vec::new();
    let mut i: usize = 0;
    proof {
        reveal(Seq::filter);
        assert(v1@.take(0) =~= Seq::<u32>::empty());
    }
    while i < v1.len()
        invariant
            i <= v1.len(),
            difference@ == spec_array_diff(v1@.take(i as int), v2@),
        decreases v1.len() - i,
    {
        let item = v1[i];
        proof {
            reveal(Seq::filter);
            assert(v1@.take(i + 1).drop_last() =~= v1@.take(i as int));
            assert(v1@.take(i + 1).last() == item);
        }
        if !contains(v2, item) {
            difference.push(item);
        }
        i += 1;
    }
    proof {
        assert(v1@.take(v1.len() as int) =~= v1@);
    }
    difference
}

/// The items of `items`, each once: of equal items the first stays, in its place.
pub fn distinct(items: &Vec<u32>) -> (once: Vec<u32>)
    ensures
        once@ == spec_distinct(items@),
{
    let mut once: Vec<u32> = Vec::new();
    let mut i: usize = 0;
    proof {
        assert(items@.take(0) =~= Seq::<u32>::empty());
    }
    while i < items.len()
        invariant
            i <= items.len(),
            once@ == spec_distinct(items@.take(i as int)),
        decreases items.len() - i,
    {
        let item = items[i];
        proof {
            assert(items@.take(i + 1).drop_last() =~= items@.take(i as int));
            assert(items@.take(i + 1).last() == item);
            lemma_distinct_contains(items@.take(i as int), item);
        }
        if !contains(&once, item) {
            once.push(item);
        }
        i += 1;
    }
    proof {
        assert(items@.take(items.len() as int) =~= items@);
    }
    once
}

/// A vector with the items of `items`.
fn copy_of(items: &Vec<u32>) -> (copy: Vec<u32>)
    ensures
        copy@ == items@,
{
    let mut copy: Vec<u32> = Vec::new();
    let mut i: usize = 0;
    while i < items.len()
        invariant
            i <= items.len(),
            copy@ == items@.take(i as int),
        decreases items.len() - i,
    {
        copy.push(items[i]);
        proof {
            assert(items@.take(i + 1) =~= items@.take(i as int).push(items@[i as int]));
        }
        i += 1;
    }
    proof {
        assert(items@.take(items.len() as int) =~= items@);
    }
    copy
}

/// Appends to `calls` the calls that bind `texture` to unit `index`.
fn set_texture(calls: &mut Vec<DeviceCall>, active: u32, index: u32, texture: Option<u64>)
    requires
        active <= u32::MAX - TEXTURE0,
        index < TEXTURES_COUNT,
    ensures
        final(calls)@ == old(calls)@ + set_texture_calls(active, index, texture),
{
    let bind = DeviceCall::BindTexture { target: TEXTURE_2D, texture };
    if active == index {
        calls.push(bind);
        proof {
            assert(calls@ =~= old(calls)@ + set_texture_calls(active, index, texture));
        }
    } else {
        calls.push(DeviceCall::ActiveTexture { texture: index + TEXTURE0 });
        calls.push(bind);
        calls.push(DeviceCall::ActiveTexture { texture: active + TEXTURE0 });
        proof {
            assert(calls@ =~= old(calls)@ + set_texture_calls(active, index, texture));
        }
    }
}

/// Appends to `calls` the calls that take all units from `current` to `target`.
fn set_textures(
    calls: &mut Vec<DeviceCall>,
    active: u32,
    current: &[Option<u64>; 16],
    target: &[Option<u64>; 16],
)
    requires
        active <= u32::MAX - TEXTURE0,
    ensures
        final(calls)@ == old(calls)@ + set_textures_calls(
            active,
            current@,
            target@,
            TEXTURES_COUNT as nat,
        ),
{
    let mut i: usize = 0;
    proof {
        assert(calls@ =~= old(calls)@ + set_textures_calls(active, current@, target@, 0));
    }
    while i < 16
        invariant
            i <= 16,
            active <= u32::MAX - TEXTURE0,
            calls@ == old(calls)@ + set_textures_calls(active, current@, target@, i as nat),
        decreases 16 - i,
    {
        let ghost before = calls@;
        if current[i] != target[i] {
            set_texture(calls, active, i as u32, target[i]);
        }
        proof {
            assert(calls@ =~= old(calls)@ + set_textures_calls(
                active,
                current@,
                target@,
                (i + 1) as nat,
            ));
        }
        i += 1;
    }
}

/// Appends to `calls` one call for each slot, made by `call`.
fn push_slot_calls(calls: &mut Vec<DeviceCall>, slots: &Vec<u32>, kind: SlotCall)
    ensures
        final(calls)@ == old(calls)@ + kind.calls(slots@),
{
    let mut i: usize = 0;
    proof {
        assert(calls@ =~= old(calls)@ + kind.calls(slots@.take(0)));
    }
    while i < slots.len()
        invariant
            i <= slots.len(),
            calls@ == old(calls)@ + kind.calls(slots@.take(i as int)),
        decreases slots.len() - i,
    {
        calls.push(kind.call(slots[i]));
        proof {
            assert(calls@ =~= old(calls)@ + kind.calls(slots@.take(i + 1)));
        }
        i += 1;
    }
    proof {
        assert(slots@.take(slots.len() as int) =~= slots@);
    }
}

/// The device call made for one attribute slot.
#[derive(Clone, Copy)]
enum SlotCall {
    Enable,
    Disable,
    Divisor(u32),
}

impl SlotCall {
    spec fn spec_call(self, slot: u32) -> DeviceCall {
        match self {
            SlotCall::Enable => DeviceCall::EnableVertexAttribArray { index: slot },
            SlotCall::Disable => DeviceCall::DisableVertexAttribArray { index: slot },
            SlotCall::Divisor(divisor) => DeviceCall::VertexAttribDivisor { index: slot, divisor },
        }
    }

    spec fn calls(self, slots: Seq<u32>) -> Seq<DeviceCall> {
        match self {
            SlotCall::Enable => enable_calls(slots),
            SlotCall::Disable => disable_calls(slots),
            SlotCall::Divisor(divisor) => divisor_calls(slots, divisor),
        }
    }

    fn call(self, slot: u32) -> (call: DeviceCall)
        ensures
            call == self.spec_call(slot),
    {
        match self {
            SlotCall::Enable => DeviceCall::EnableVertexAttribArray { index: slot },
            SlotCall::Disable => DeviceCall::DisableVertexAttribArray { index: slot },
            SlotCall::Divisor(divisor) => DeviceCall::VertexAttribDivisor { index: slot, divisor },
        }
    }
}

/// Appends to `calls` the calls that take the slots `current` to `target`:
/// `off` once for each slot that only `current` has and `on` once for each that
/// only `target` has.
fn switch_slots(
    calls: &mut Vec<DeviceCall>,
    current: &Vec<u32>,
    target: &Vec<u32>,
    off: SlotCall,
    on: SlotCall,
    restoring: bool,
)
    ensures
        final(calls)@ == old(calls)@ + if restoring {
            on.calls(slot_diff(target@, current@)) + off.calls(slot_diff(current@, target@))
        } else {
            off.calls(slot_diff(current@, target@)) + on.calls(slot_diff(target@, current@))
        },
{
    let removed = distinct(&array_diff(current, target));
    let added = distinct(&array_diff(target, current));
    if restoring {
        push_slot_calls(calls, &added, on);
        push_slot_calls(calls, &removed, off);
        proof {
            assert(calls@ =~= old(calls)@ + (on.calls(added@) + off.calls(removed@)));
        }
    } else {
        push_slot_calls(calls, &removed, off);
        push_slot_calls(calls, &added, on);
        proof {
            assert(calls@ =~= old(calls)@ + (off.calls(removed@) + on.calls(added@)));
        }
    }
}

impl CacheView {
    /// The cache of a device on which nothing has been set.
    pub open spec fn initial() -> CacheView {
        CacheView {
            blend: BlendSetting(false),
            depth: DepthTestSetting(false),
            array_buffer: ArrayBufferSetting(None),
            element_buffer: ElementBufferSetting(None),
            active_texture: ActiveTextureSetting(0),
            textures: Seq::new(TEXTURES_COUNT as nat, |i: int| None),
            enabled_attributes: Seq::empty(),
            instanced_attributes: Seq::empty(),
            program: ProgramSetting { program: None },
            clear_color: ClearColorSetting { red: 0, green: 0, blue: 0, alpha: 0 },
            clear_depth: ClearDepthSetting { value: 0 },
            viewport: ViewportSetting { x: 0, y: 0, width: 0, height: 0 },
            depth_buffer: DepthBufferSetting { buffer: None },
            frame_buffer: FrameBufferSetting { buffer: None },
            blend_equation: BlendEquationSetting {
                color: BlendEquation::Add,
                alpha: BlendEquation::Add,
            },
            blend_function: BlendFunctionSetting {
                src_rgb: BlendFunction::One,
                dst_rgb: BlendFunction::Zero,
                src_alpha: BlendFunction::One,
                dst_alpha: BlendFunction::Zero,
            },
            depth_function: DepthFunction::Less,
            cull_face: CullFace::Back,
            color_mask: ColorMask(true, true, true, true),
        }
    }
}

impl SettingsCache {
    /// Whether some category of the cache names the device object `id`.
    pub fn refers(&self, id: u64) -> (found: bool)
        ensures
            found == self@.refers(id),
    {
        self.array_buffer.0 == Some(id) || self.element_buffer.0 == Some(id) || self.program.program
            == Some(id) || self.depth_buffer.buffer == Some(id) || self.frame_buffer.buffer == Some(
            id,
        ) || names_texture(&self.textures, id)
    }

    /// The cache of a device on which nothing has been set.
    pub fn new() -> (cache: SettingsCache)
        ensures
            cache@ == CacheView::initial(),
            cache@.valid(),
    {
        let cache = SettingsCache {
            blend: BlendSetting(false),
            depth: DepthTestSetting(false),
            array_buffer: ArrayBufferSetting(None),
            element_buffer: ElementBufferSetting(None),
            active_texture: ActiveTextureSetting(0),
            textures: [None; 16],
            enabled_attributes: Vec::new(),
            instanced_attributes: Vec::new(),
            program: ProgramSetting { program: None },
            clear_color: ClearColorSetting { red: 0, green: 0, blue: 0, alpha: 0 },
            clear_depth: ClearDepthSetting { value: 0 },
            viewport: ViewportSetting { x: 0, y: 0, width: 0, height: 0 },
            depth_buffer: DepthBufferSetting { buffer: None },
            frame_buffer: FrameBufferSetting { buffer: None },
            blend_equation: BlendEquationSetting {
                color: BlendEquation::Add,
                alpha: BlendEquation::Add,
            },
            blend_function: BlendFunctionSetting {
                src_rgb: BlendFunction::One,
                dst_rgb: BlendFunction::Zero,
                src_alpha: BlendFunction::One,
                dst_alpha: BlendFunction::Zero,
            },
            depth_function: DepthFunction::Less,
            cull_face: CullFace::Back,
            color_mask: ColorMask(true, true, true, true),
        };
        proof {
            assert(cache@.textures =~= CacheView::initial().textures);
        }
        cache
    }

    /// The cached value of the category that `like` belongs to.
    pub fn read_cached(&self, like: CachedSetting) -> (value: CachedSetting)
        ensures
            value == self@.get(like),
    {
        reveal(CacheView::get);
        match like {
            CachedSetting::ClearColor(_) => CachedSetting::ClearColor(self.clear_color),
            CachedSetting::ClearDepth(_) => CachedSetting::ClearDepth(self.clear_depth),
            CachedSetting::Viewport(_) => CachedSetting::Viewport(self.viewport),
            CachedSetting::ActiveTexture(_) => CachedSetting::ActiveTexture(self.active_texture),
            CachedSetting::ArrayBuffer(_) => CachedSetting::ArrayBuffer(self.array_buffer),
            CachedSetting::ElementBuffer(_) => CachedSetting::ElementBuffer(self.element_buffer),
            CachedSetting::Blend(_) => CachedSetting::Blend(self.blend),
            CachedSetting::DepthTest(_) => CachedSetting::DepthTest(self.depth),
            CachedSetting::Program(_) => CachedSetting::Program(self.program),
            CachedSetting::DepthBuffer(_) => CachedSetting::DepthBuffer(self.depth_buffer),
            CachedSetting::FrameBuffer(_) => CachedSetting::FrameBuffer(self.frame_buffer),
            CachedSetting::BlendEquation(_) => CachedSetting::BlendEquation(self.blend_equation),
            CachedSetting::BlendFunction(_) => CachedSetting::BlendFunction(self.blend_function),
            CachedSetting::DepthFunction(_) => CachedSetting::DepthFunction(self.depth_function),
            CachedSetting::CullFace(_) => CachedSetting::CullFace(self.cull_face),
            CachedSetting::ColorMask(_) => CachedSetting::ColorMask(self.color_mask),
        }
    }

    /// Writes a value of the clear state, the viewport or the colour mask.
    fn write_frame(&mut self, value: CachedSetting)
        requires
            value is ClearColor || value is ClearDepth || value is Viewport || value is ColorMask,
        ensures
            final(self)@ == old(self)@.with(value),
    {
        reveal(CacheView::with);
        match value {
            CachedSetting::ClearColor(s) => self.clear_color = s,
            CachedSetting::ClearDepth(s) => self.clear_depth = s,
            CachedSetting::Viewport(s) => self.viewport = s,
            CachedSetting::ColorMask(s) => self.color_mask = s,
            _ => {},
        }
    }

    /// Writes a bound buffer or the active texture unit.
    fn write_buffer(&mut self, value: CachedSetting)
        requires
            value is ActiveTexture || value is ArrayBuffer || value is ElementBuffer,
        ensures
            final(self)@ == old(self)@.with(value),
    {
        reveal(CacheView::with);
        match value {
            CachedSetting::ActiveTexture(s) => self.active_texture = s,
            CachedSetting::ArrayBuffer(s) => self.array_buffer = s,
            CachedSetting::ElementBuffer(s) => self.element_buffer = s,
            _ => {},
        }
    }

    /// Writes the program in use or a bound render target.
    fn write_target(&mut self, value: CachedSetting)
        requires
            value is Program || value is DepthBuffer || value is FrameBuffer,
        ensures
            final(self)@ == old(self)@.with(value),
    {
        reveal(CacheView::with);
        match value {
            CachedSetting::Program(s) => self.program = s,
            CachedSetting::DepthBuffer(s) => self.depth_buffer = s,
            CachedSetting::FrameBuffer(s) => self.frame_buffer = s,
            _ => {},
        }
    }

    /// Writes a value of the blend state.
    fn write_blend(&mut self, value: CachedSetting)
        requires
            value is Blend || value is BlendEquation || value is BlendFunction,
        ensures
            final(self)@ == old(self)@.with(value),
    {
        reveal(CacheView::with);
        match value {
            CachedSetting::Blend(s) => self.blend = s,
            CachedSetting::BlendEquation(s) => self.blend_equation = s,
            CachedSetting::BlendFunction(s) => self.blend_function = s,
            _ => {},
        }
    }

    /// Writes a value of the depth test or of face culling.
    fn write_depth(&mut self, value: CachedSetting)
        requires
            value is DepthTest || value is DepthFunction || value is CullFace,
        ensures
            final(self)@ == old(self)@.with(value),
    {
        reveal(CacheView::with);
        match value {
            CachedSetting::DepthTest(s) => self.depth = s,
            CachedSetting::DepthFunction(s) => self.depth_function = s,
            CachedSetting::CullFace(s) => self.cull_face = s,
            _ => {},
        }
    }

    /// Puts `value` in its category and leaves every other category as it was.
    pub fn write_cached(&mut self, value: CachedSetting)
        ensures
            final(self)@ == old(self)@.with(value),
    {
        match value {
            CachedSetting::ClearColor(_)
            | CachedSetting::ClearDepth(_)
            | CachedSetting::Viewport(_)
            | CachedSetting::ColorMask(_) => self.write_frame(value),
            CachedSetting::ActiveTexture(_)
            | CachedSetting::ArrayBuffer(_)
            | CachedSetting::ElementBuffer(_) => self.write_buffer(value),
            CachedSetting::Program(_)
            | CachedSetting::DepthBuffer(_)
            | CachedSetting::FrameBuffer(_) => self.write_target(value),
            CachedSetting::Blend(_)
            | CachedSetting::BlendEquation(_)
            | CachedSetting::BlendFunction(_) => self.write_blend(value),
            CachedSetting::DepthTest(_)
            | CachedSetting::DepthFunction(_)
            | CachedSetting::CullFace(_) => self.write_depth(value),
        }
    }

    /// Makes a single-valued setting current.
    fn shift_cached(&mut self, value: CachedSetting) -> (out: (Setting, Vec<DeviceCall>))
        requires
            value.valid(),
        ensures
            final(self)@ == old(self)@.shifted(SettingView::Cached(value)),
            out.0@ == old(self)@.undo(SettingView::Cached(value)),
            out.1@ == old(self)@.calls(SettingView::Cached(value), false),
    {
        let mut calls: Vec<DeviceCall> = Vec::new();
        let previous = self.read_cached(value);
        if previous == value {
            proof {
                lemma_with_current(self@, value);
            }
            (Setting::Empty(EmptySetting {  }), calls)
        } else {
            self.write_cached(value);
            calls.push(value.set());
            proof {
                assert(calls@ =~= seq![value.spec_call()]);
            }
            (Setting::Cached(previous), calls)
        }
    }

    /// Makes the binding of one texture unit current.
    fn shift_texture(&mut self, value: TextureSetting) -> (out: (Setting, Vec<DeviceCall>))
        requires
            old(self)@.valid(),
            value.index < TEXTURES_COUNT,
        ensures
            final(self)@ == old(self)@.shifted(SettingView::Texture(value)),
            out.0@ == old(self)@.undo(SettingView::Texture(value)),
            out.1@ == old(self)@.calls(SettingView::Texture(value), false),
    {
        let mut calls: Vec<DeviceCall> = Vec::new();
        let index = value.index as usize;
        let previous = self.textures[index];
        if previous == value.texture {
            proof {
                assert(self@.textures.update(index as int, value.texture) =~= self@.textures);
            }
            (Setting::Empty(EmptySetting {  }), calls)
        } else {
            set_texture(&mut calls, self.active_texture.0, value.index, value.texture);
            self.textures[index] = value.texture;
            proof {
                assert(calls@ =~= set_texture_calls(
                    self.active_texture.0,
                    value.index,
                    value.texture,
                ));
            }
            (Setting::Texture(TextureSetting { index: value.index, texture: previous }), calls)
        }
    }

    /// Makes the bindings of all texture units current.
    fn shift_textures(&mut self, value: &TextureListSetting) -> (out: (Setting, Vec<DeviceCall>))
        requires
            old(self)@.valid(),
        ensures
            final(self)@ == old(self)@.shifted(SettingView::TextureList(value.textures@)),
            out.0@ == old(self)@.undo(SettingView::TextureList(value.textures@)),
            out.1@ == old(self)@.calls(SettingView::TextureList(value.textures@), false),
    {
        let mut calls: Vec<DeviceCall> = Vec::new();
        let previous = self.textures;
        set_textures(&mut calls, self.active_texture.0, &previous, &value.textures);
        self.textures = value.textures;
        proof {
            assert(calls@ =~= old(self)@.calls(SettingView::TextureList(value.textures@), false));
        }
        (Setting::TextureList(TextureListSetting { textures: previous }), calls)
    }

    /// Makes the set of enabled attribute slots current.
    fn shift_enabled(&mut self, value: &Vec<u32>, restoring: bool) -> (out: (
        Setting,
        Vec<DeviceCall>,
    ))
        ensures
            final(self)@ == old(self)@.shifted(SettingView::EnabledAttributes(value@)),
            out.0@ == old(self)@.undo(SettingView::EnabledAttributes(value@)),
            out.1@ == old(self)@.calls(SettingView::EnabledAttributes(value@), restoring),
    {
        let mut calls: Vec<DeviceCall> = Vec::new();
        let mut items = copy_of(value);
        switch_slots(
            &mut calls,
            &self.enabled_attributes,
            &items,
            SlotCall::Disable,
            SlotCall::Enable,
            restoring,
        );
        core::mem::swap(&mut self.enabled_attributes, &mut items);
        proof {
            assert(calls@ =~= old(self)@.calls(SettingView::EnabledAttributes(value@), restoring));
        }
        (Setting::EnabledAttributes(EnabledAttributesSetting { items }), calls)
    }

    /// Makes the set of instanced attribute slots current.
    fn shift_instanced(&mut self, value: &Vec<u32>, restoring: bool) -> (out: (
        Setting,
        Vec<DeviceCall>,
    ))
        ensures
            final(self)@ == old(self)@.shifted(SettingView::InstancedAttributes(value@)),
            out.0@ == old(self)@.undo(SettingView::InstancedAttributes(value@)),
            out.1@ == old(self)@.calls(SettingView::InstancedAttributes(value@), restoring),
    {
        let mut calls: Vec<DeviceCall> = Vec::new();
        let mut items = copy_of(value);
        switch_slots(
            &mut calls,
            &self.instanced_attributes,
            &items,
            SlotCall::Divisor(0),
            SlotCall::Divisor(1),
            restoring,
        );
        core::mem::swap(&mut self.instanced_attributes, &mut items);
        proof {
            assert(calls@ =~= old(self)@.calls(
                SettingView::InstancedAttributes(value@),
                restoring,
            ));
        }
        (Setting::InstancedAttributes(InstancedAttributesSetting { items }), calls)
    }

    /// Makes `setting` current in the cache. Returns the setting that brings the
    /// cache back and the device calls that the change takes: none where the cache
    /// already holds the value. The sampling filter of a texture is no part of the
    /// cache: such a setting changes nothing here.
    pub fn shift(&mut self, setting: &Setting, restoring: bool) -> (out: (Setting, Vec<DeviceCall>))
        requires
            old(self)@.valid(),
            setting@.valid(),
        ensures
            final(self)@ == old(self)@.shifted(setting@),
            final(self)@.valid(),
            out.0@ == old(self)@.undo(setting@),
            out.1@ == old(self)@.calls(setting@, restoring),
    {
        proof {
            lemma_shifted_valid(self@, setting@);
        }
        match setting {
            Setting::Empty(_) => (Setting::Empty(EmptySetting {  }), Vec::new()),
            Setting::TextureFilter(_) => (Setting::Empty(EmptySetting {  }), Vec::new()),
            Setting::Cached(value) => self.shift_cached(*value),
            Setting::Texture(value) => self.shift_texture(*value),
            Setting::TextureList(value) => self.shift_textures(value),
            Setting::EnabledAttributes(value) => self.shift_enabled(&value.items, restoring),
            Setting::InstancedAttributes(value) => self.shift_instanced(&value.items, restoring),
        }
    }
}

/// Writing the value that a category holds changes nothing.
pub proof fn lemma_with_current(cache: CacheView, value: CachedSetting)
    requires
        cache.get(value) == value,
    ensures
        cache.with(value) == cache,
{
    reveal(CacheView::with);
    reveal(CacheView::get);
}

/// What a write leaves alone and what it changes: the indexed categories and the
/// active unit's validity stay, the written category holds the value, and the
/// device objects that the cache names are those it named, less the one replaced,
/// and the one written.
pub proof fn lemma_with_facts(cache: CacheView, value: CachedSetting)
    ensures
        cache.with(value).textures == cache.textures,
        cache.with(value).enabled_attributes == cache.enabled_attributes,
        cache.with(value).instanced_attributes == cache.instanced_attributes,
        cache.with(value).get(value) == value,
        cache.valid() && value.valid() ==> cache.with(value).valid(),
        cache.with(value).active_texture == if value is ActiveTexture {
            value->ActiveTexture_0
        } else {
            cache.active_texture
        },
        forall|id: u64| #[trigger]
            cache.with(value).refers(id) ==> cache.refers(id) || value.resource() == Some(id),
        forall|id: u64| #[trigger]
            cache.refers(id) ==> cache.with(value).refers(id) || cache.get(value).resource()
                == Some(id),
        forall|id: u64|
            value.resource() == Some(id) ==> #[trigger] cache.with(value).refers(id),
{
    reveal(CacheView::with);
    reveal(CacheView::get);
}

/// A valid setting leaves a valid cache valid.
pub proof fn lemma_shifted_valid(cache: CacheView, setting: SettingView)
    requires
        cache.valid(),
        setting.valid(),
    ensures
        cache.shifted(setting).valid(),
{
    if let SettingView::Cached(value) = setting {
        lemma_with_facts(cache, value);
    }
}

/// Which items the difference holds: those of `v1` that `v2` lacks.
pub proof fn lemma_array_diff_contains(v1: Seq<u32>, v2: Seq<u32>, item: u32)
    ensures
        spec_array_diff(v1, v2).contains(item) <==> v1.contains(item) && !v2.contains(item),
    decreases v1.len(),
{
    reveal(Seq::filter);
    if v1.len() > 0 {
        let rest = v1.drop_last();
        lemma_array_diff_contains(rest, v2, item);
        let before = spec_array_diff(rest, v2);
        if v1.contains(item) {
            let i = choose|i: int| 0 <= i < v1.len() && v1[i] == item;
            if i < rest.len() {
                assert(rest[i] == item);
            }
        }
        if rest.contains(item) {
            let i = choose|i: int| 0 <= i < rest.len() && rest[i] == item;
            assert(v1[i] == item);
        }
        if !v2.contains(v1.last()) {
            assert(spec_array_diff(v1, v2) == before.push(v1.last()));
            if before.contains(item) {
                let i = choose|i: int| 0 <= i < before.len() && before[i] == item;
                assert(before.push(v1.last())[i] == item);
            }
            if item == v1.last() {
                assert(before.push(v1.last())[before.len() as int] == item);
                assert(v1[v1.len() - 1] == item);
            }
        }
    }
}

/// Which items a list holds once its repeats are dropped: those that it held.
pub proof fn lemma_distinct_contains(items: Seq<u32>, item: u32)
    ensures
        spec_distinct(items).contains(item) <==> items.contains(item),
    decreases items.len(),
{
    if items.len() > 0 {
        let rest = items.drop_last();
        let before = spec_distinct(rest);
        lemma_distinct_contains(rest, item);
        if items.contains(item) {
            let i = choose|i: int| 0 <= i < items.len() && items[i] == item;
            if i < rest.len() {
                assert(rest[i] == item);
            }
        }
        if rest.contains(item) {
            let i = choose|i: int| 0 <= i < rest.len() && rest[i] == item;
            assert(items[i] == item);
        }
        if !rest.contains(items.last()) {
            if before.contains(item) {
                let i = choose|i: int| 0 <= i < before.len() && before[i] == item;
                assert(before.push(items.last())[i] == item);
            }
            if item == items.last() {
                assert(before.push(items.last())[before.len() as int] == item);
                assert(items[items.len() - 1] == item);
            }
        }
    }
}

/// A list whose repeats are dropped holds every item once.
pub proof fn lemma_distinct_no_duplicates(items: Seq<u32>)
    ensures
        spec_distinct(items).no_duplicates(),
    decreases items.len(),
{
    if items.len() > 0 {
        let rest = items.drop_last();
        lemma_distinct_no_duplicates(rest);
        lemma_distinct_contains(rest, items.last());
    }
}

/// Nothing is left of a list from which its own items are taken.
pub proof fn lemma_array_diff_self(v: Seq<u32>)
    ensures
        spec_array_diff(v, v) == Seq::<u32>::empty(),
{
    let difference = spec_array_diff(v, v);
    if difference.len() > 0 {
        lemma_array_diff_contains(v, v, difference[0]);
        assert(difference.contains(difference[0]));
    }
    assert(difference =~= Seq::<u32>::empty());
}

/// Units that are bound alike take no call.
pub proof fn lemma_set_textures_same(active: u32, textures: Seq<Option<u64>>, count: nat)
    ensures
        set_textures_calls(active, textures, textures, count) == Seq::<DeviceCall>::empty(),
    decreases count,
{
    if count > 0 {
        lemma_set_textures_same(active, textures, (count - 1) as nat);
    }
}

/// A setting whose value the cache already holds takes no device call and leaves
/// the cache as it is, on the way into a scope and on the way out.
pub proof fn lemma_held_setting_is_free(cache: CacheView, setting: SettingView, restoring: bool)
    requires
        cache.valid(),
        setting.valid(),
        cache.holds(setting),
    ensures
        cache.calls(setting, restoring) == Seq::<DeviceCall>::empty(),
        cache.shifted(setting) == cache,
{
    match setting {
        SettingView::Cached(s) => {
            lemma_with_current(cache, s);
        },
        SettingView::Texture(s) => {
            assert(cache.textures.update(s.index as int, s.texture) =~= cache.textures);
        },
        SettingView::TextureList(textures) => {
            lemma_set_textures_same(cache.active_texture.0, textures, TEXTURES_COUNT as nat);
        },
        SettingView::EnabledAttributes(items) => {
            lemma_array_diff_self(items);
            assert(cache.calls(setting, restoring) =~= Seq::<DeviceCall>::empty());
        },
        SettingView::InstancedAttributes(items) => {
            lemma_array_diff_self(items);
            assert(cache.calls(setting, restoring) =~= Seq::<DeviceCall>::empty());
        },
        _ => {},
    }
}

proof fn lemma_with_previous_frame(cache: CacheView, value: CachedSetting)
    requires
        value is ClearColor || value is ClearDepth || value is Viewport || value is ColorMask,
    ensures
        cache.with(value).with(cache.get(value)) == cache,
{
    reveal(CacheView::with);
    reveal(CacheView::get);
}

proof fn lemma_with_previous_buffer(cache: CacheView, value: CachedSetting)
    requires
        value is ActiveTexture || value is ArrayBuffer || value is ElementBuffer,
    ensures
        cache.with(value).with(cache.get(value)) == cache,
{
    reveal(CacheView::with);
    reveal(CacheView::get);
}

proof fn lemma_with_previous_target(cache: CacheView, value: CachedSetting)
    requires
        value is Program || value is DepthBuffer || value is FrameBuffer,
    ensures
        cache.with(value).with(cache.get(value)) == cache,
{
    reveal(CacheView::with);
    reveal(CacheView::get);
}

proof fn lemma_with_previous_blend(cache: CacheView, value: CachedSetting)
    requires
        value is Blend || value is BlendEquation || value is BlendFunction,
    ensures
        cache.with(value).with(cache.get(value)) == cache,
{
    reveal(CacheView::with);
    reveal(CacheView::get);
}

proof fn lemma_with_previous_depth(cache: CacheView, value: CachedSetting)
    requires
        value is DepthTest || value is DepthFunction || value is CullFace,
    ensures
        cache.with(value).with(cache.get(value)) == cache,
{
    reveal(CacheView::with);
    reveal(CacheView::get);
}

/// Writing a value and then the value that it replaced changes nothing.
pub proof fn lemma_with_previous(cache: CacheView, value: CachedSetting)
    ensures
        cache.with(value).with(cache.get(value)) == cache,
{
    if value is ClearColor || value is ClearDepth || value is Viewport || value is ColorMask {
        lemma_with_previous_frame(cache, value);
    } else if value is ActiveTexture || value is ArrayBuffer || value is ElementBuffer {
        lemma_with_previous_buffer(cache, value);
    } else if value is Program || value is DepthBuffer || value is FrameBuffer {
        lemma_with_previous_target(cache, value);
    } else if value is Blend || value is BlendEquation || value is BlendFunction {
        lemma_with_previous_blend(cache, value);
    } else {
        lemma_with_previous_depth(cache, value);
    }
}

/// The value that a valid cache holds in a category is valid.
pub proof fn lemma_get_valid(cache: CacheView, value: CachedSetting)
    requires
        cache.valid(),
    ensures
        cache.get(value).valid(),
{
    reveal(CacheView::get);
}

proof fn lemma_undo_restores_cached(cache: CacheView, value: CachedSetting)
    requires
        cache.valid(),
        value.valid(),
    ensures
        cache.undo(SettingView::Cached(value)).valid(),
        cache.shifted(SettingView::Cached(value)).shifted(cache.undo(SettingView::Cached(value)))
            == cache,
{
    lemma_get_valid(cache, value);
    lemma_with_previous(cache, value);
    if cache.get(value) == value {
        lemma_with_current(cache, value);
    }
}

proof fn lemma_undo_restores_texture(cache: CacheView, value: TextureSetting)
    requires
        cache.valid(),
        value.index < TEXTURES_COUNT,
    ensures
        cache.undo(SettingView::Texture(value)).valid(),
        cache.shifted(SettingView::Texture(value)).shifted(
            cache.undo(SettingView::Texture(value)),
        ) == cache,
{
    let index = value.index as int;
    let after = cache.shifted(SettingView::Texture(value));
    assert(after.textures == cache.textures.update(index, value.texture));
    if cache.textures[index] == value.texture {
        assert(after.textures =~= cache.textures);
    } else {
        assert(after.textures.update(index, cache.textures[index]) =~= cache.textures);
    }
}

proof fn lemma_undo_restores_indexed(cache: CacheView, setting: SettingView)
    requires
        cache.valid(),
        setting.valid(),
        setting is TextureList || setting is EnabledAttributes || setting is InstancedAttributes,
    ensures
        cache.undo(setting).valid(),
        cache.shifted(setting).shifted(cache.undo(setting)) == cache,
{
}

/// Making a setting current and then the setting that undoes it leaves every
/// category of the cache as it was before.
pub proof fn lemma_undo_restores(cache: CacheView, setting: SettingView)
    requires
        cache.valid(),
        setting.valid(),
    ensures
        cache.undo(setting).valid(),
        cache.shifted(setting).shifted(cache.undo(setting)) == cache,
{
    match setting {
        SettingView::Cached(value) => lemma_undo_restores_cached(cache, value),
        SettingView::Texture(value) => lemma_undo_restores_texture(cache, value),
        SettingView::TextureList(_) => lemma_undo_restores_indexed(cache, setting),
        SettingView::EnabledAttributes(_) => lemma_undo_restores_indexed(cache, setting),
        SettingView::InstancedAttributes(_) => lemma_undo_restores_indexed(cache, setting),
        _ => {},
    }
}

/// Between a previous and a new list of slots the switch takes one call for
/// each slot that only the new list has and one for each slot that only the
/// previous list has, however many slots the two share and however often either
/// names a slot.
pub proof fn lemma_slot_switch_is_minimal(previous: Seq<u32>, new: Seq<u32>)
    ensures
        slot_diff(new, previous).len() == new.to_set().difference(previous.to_set()).len(),
        slot_diff(previous, new).len() == previous.to_set().difference(new.to_set()).len(),
{
    lemma_slot_diff_counts(new, previous);
    lemma_slot_diff_counts(previous, new);
}

proof fn lemma_slot_diff_counts(v1: Seq<u32>, v2: Seq<u32>)
    ensures
        slot_diff(v1, v2).len() == v1.to_set().difference(v2.to_set()).len(),
{
    let difference = slot_diff(v1, v2);
    lemma_distinct_no_duplicates(spec_array_diff(v1, v2));
    difference.unique_seq_to_set();
    assert forall|item: u32|
        difference.to_set().contains(item) <==> v1.to_set().difference(v2.to_set()).contains(
            item,
        ) by {
        lemma_distinct_contains(spec_array_diff(v1, v2), item);
        lemma_array_diff_contains(v1, v2, item);
    }
    assert(difference.to_set() =~= v1.to_set().difference(v2.to_set()));
}

/// The calls that switch enabled attribute slots: as many switch-on calls as
/// slots that only the new list has, as many switch-off calls as slots that only
/// the cached list has, and no other call.
pub proof fn lemma_enabled_attributes_calls(cache: CacheView, new: Seq<u32>, restoring: bool)
    ensures
        ({
            let on = enable_calls(slot_diff(new, cache.enabled_attributes));
            let off = disable_calls(slot_diff(cache.enabled_attributes, new));
            &&& cache.calls(SettingView::EnabledAttributes(new), restoring) == if restoring {
                on + off
            } else {
                off + on
            }
            &&& on.len() == new.to_set().difference(cache.enabled_attributes.to_set()).len()
            &&& off.len() == cache.enabled_attributes.to_set().difference(new.to_set()).len()
        }),
{
    lemma_slot_switch_is_minimal(cache.enabled_attributes, new);
}

/// The calls that switch instanced attribute slots: one divisor call for each
/// slot in which the new list and the cached one differ, and no other call.
pub proof fn lemma_instanced_attributes_calls(cache: CacheView, new: Seq<u32>, restoring: bool)
    ensures
        ({
            let on = divisor_calls(slot_diff(new, cache.instanced_attributes), 1);
            let off = divisor_calls(slot_diff(cache.instanced_attributes, new), 0);
            &&& cache.calls(SettingView::InstancedAttributes(new), restoring) == if restoring {
                on + off
            } else {
                off + on
            }
            &&& on.len() == new.to_set().difference(cache.instanced_attributes.to_set()).len()
            &&& off.len() == cache.instanced_attributes.to_set().difference(new.to_set()).len()
        }),
{
    lemma_slot_switch_is_minimal(cache.instanced_attributes, new);
}

/// Which device objects the cache and the undoing setting name after a shift:
/// none that neither the cache nor the setting named before, and every one that
/// the cache named.
pub proof fn lemma_shift_refers(cache: CacheView, setting: SettingView, id: u64)
    requires
        cache.valid(),
        setting.valid(),
    ensures
        cache.shifted(setting).refers(id) ==> cache.refers(id) || setting.refers(id),
        cache.undo(setting).refers(id) ==> cache.refers(id),
        cache.refers(id) ==> cache.shifted(setting).refers(id) || cache.undo(setting).refers(id),
        setting.refers(id) && !(setting is TextureFilter) ==> cache.shifted(setting).refers(id),
{
    match setting {
        SettingView::Cached(value) => {
            lemma_with_facts(cache, value);
            reveal(CacheView::get);
        },
        SettingView::Texture(value) => {
            let index = value.index as int;
            let after = cache.textures.update(index, value.texture);
            if after.contains(Some(id)) {
                let k = choose|k: int| 0 <= k < after.len() && after[k] == Some(id);
                if k != index {
                    assert(cache.textures[k] == Some(id));
                }
            }
            if cache.textures.contains(Some(id)) {
                let k = choose|k: int| 0 <= k < cache.textures.len() && cache.textures[k] == Some(id);
                if k != index {
                    assert(after[k] == Some(id));
                }
            }
            if cache.textures[index] == Some(id) {
                assert(cache.textures.contains(Some(id)));
            }
            if value.texture == Some(id) {
                assert(after[index] == Some(id));
            }
        },
        _ => {},
    }
}

/// No call that a setting takes releases a device object.
pub proof fn lemma_calls_release_nothing(
    cache: CacheView,
    setting: SettingView,
    restoring: bool,
    k: int,
)
    requires
        0 <= k < cache.calls(setting, restoring).len(),
    ensures
        cache.calls(setting, restoring)[k].released() is None,
{
    match setting {
        SettingView::TextureList(textures) => {
            lemma_set_textures_release_nothing(
                cache.active_texture.0,
                cache.textures,
                textures,
                TEXTURES_COUNT as nat,
                k,
            );
        },
        _ => {},
    }
}

proof fn lemma_set_textures_release_nothing(
    active: u32,
    current: Seq<Option<u64>>,
    target: Seq<Option<u64>>,
    count: nat,
    k: int,
)
    requires
        0 <= k < set_textures_calls(active, current, target, count).len(),
    ensures
        set_textures_calls(active, current, target, count)[k].released() is None,
    decreases count,
{
    if count > 0 {
        let before = set_textures_calls(active, current, target, (count - 1) as nat);
        if k < before.len() {
            lemma_set_textures_release_nothing(active, current, target, (count - 1) as nat, k);
        }
    }
}

/// The cache once the settings have been made current one after the other.
pub open spec fn shifted_all(cache: CacheView, settings: Seq<SettingView>) -> CacheView
    decreases settings.len(),
{
    if settings.len() == 0 {
        cache
    } else {
        shifted_all(cache, settings.drop_last()).shifted(settings.last())
    }
}

/// What the device is sent by a block of work under the settings, the first
/// outermost: for each setting the calls that make it current, then the work's
/// own calls `inner`, then for each setting, innermost first, the calls that undo
/// it.
pub open spec fn round_trip(cache: CacheView, settings: Seq<SettingView>, inner: Seq<Record>) -> Seq<
    Record,
>
    decreases settings.len(),
{
    if settings.len() == 0 {
        inner
    } else {
        let last = settings.last();
        let inside = shifted_all(cache, settings.drop_last());
        round_trip(
            cache,
            settings.drop_last(),
            plain_all(inside.calls(last, false)) + inner + plain_all(
                inside.shifted(last).calls(inside.undo(last), true),
            ),
        )
    }
}

/// Under settings whose values the cache holds, the device is sent the work's
/// own calls and nothing else.
pub proof fn lemma_round_trip_of_held(
    cache: CacheView,
    settings: Seq<SettingView>,
    inner: Seq<Record>,
)
    requires
        cache.valid(),
        forall|i: int| 0 <= i < settings.len() ==> (#[trigger] settings[i]).valid(),
        forall|i: int| 0 <= i < settings.len() ==> cache.holds(#[trigger] settings[i]),
    ensures
        shifted_all(cache, settings) == cache,
        round_trip(cache, settings, inner) == inner,
    decreases settings.len(),
{
    if settings.len() > 0 {
        let outer = settings.drop_last();
        let last = settings.last();
        assert forall|i: int| 0 <= i < outer.len() implies (#[trigger] outer[i]).valid()
            && cache.holds(outer[i]) by {
            assert(outer[i] == settings[i]);
        }
        assert(settings[settings.len() - 1].valid() && cache.holds(settings[settings.len() - 1]));
        lemma_held_setting_is_free(cache, last, false);
        lemma_undo_restores(cache, last);
        lemma_undo_of_held(cache, last);
        lemma_held_setting_is_free(cache, cache.undo(last), true);
        let around = plain_all(cache.calls(last, false)) + inner + plain_all(
            cache.shifted(last).calls(cache.undo(last), true),
        );
        assert(around =~= inner);
        lemma_round_trip_of_held(cache, outer, inner);
    }
}

/// What undoes a setting whose value the cache holds is held by the cache too.
pub proof fn lemma_undo_of_held(cache: CacheView, setting: SettingView)
    requires
        cache.valid(),
        setting.valid(),
        cache.holds(setting),
    ensures
        cache.holds(cache.undo(setting)),
{
}

/// How many of the calls bind a texture.
pub open spec fn texture_binds(calls: Seq<DeviceCall>) -> nat
    decreases calls.len(),
{
    if calls.len() == 0 {
        0
    } else {
        texture_binds(calls.drop_last()) + if calls.last() is BindTexture {
            1nat
        } else {
            0nat
        }
    }
}

/// In how many of the first `count` units the two bindings differ.
pub open spec fn differing_units(
    current: Seq<Option<u64>>,
    target: Seq<Option<u64>>,
    count: nat,
) -> nat
    decreases count,
{
    if count == 0 {
        0
    } else {
        differing_units(current, target, (count - 1) as nat) + if current[count - 1] != target[count
            - 1] {
            1nat
        } else {
            0nat
        }
    }
}

/// The binds of two runs of calls are those of the one and those of the other.
pub proof fn lemma_texture_binds_concat(a: Seq<DeviceCall>, b: Seq<DeviceCall>)
    ensures
        texture_binds(a + b) == texture_binds(a) + texture_binds(b),
    decreases b.len(),
{
    if b.len() == 0 {
        assert(a + b =~= a);
    } else {
        assert((a + b).drop_last() =~= a + b.drop_last());
        lemma_texture_binds_concat(a, b.drop_last());
    }
}

/// A change of the bindings of texture units binds one texture for each unit
/// in which the new bindings differ from the cached ones, however many units
/// there are.
pub proof fn lemma_texture_switch_is_minimal(
    active: u32,
    current: Seq<Option<u64>>,
    target: Seq<Option<u64>>,
    count: nat,
)
    ensures
        texture_binds(set_textures_calls(active, current, target, count)) == differing_units(
            current,
            target,
            count,
        ),
    decreases count,
{
    if count > 0 {
        let index = (count - 1) as nat;
        lemma_texture_switch_is_minimal(active, current, target, index);
        let before = set_textures_calls(active, current, target, index);
        if current[index as int] != target[index as int] {
            let one = set_texture_calls(active, index as u32, target[index as int]);
            lemma_texture_binds_concat(before, one);
            reveal_with_fuel(texture_binds, 4);
            assert(texture_binds(one) == 1) by {
                if active == index as u32 {
                    assert(one.drop_last() =~= Seq::<DeviceCall>::empty());
                } else {
                    let two = one.drop_last();
                    let first = two.drop_last();
                    assert(first.drop_last() =~= Seq::<DeviceCall>::empty());
                    assert(first.last() is ActiveTexture);
                    assert(two.last() is BindTexture);
                    assert(one.last() is ActiveTexture);
                }
            }
        }
    }
}

proof fn lemma_with_other_frame(cache: CacheView, value: CachedSetting, other: CachedSetting)
    requires
        value is ClearColor || value is ClearDepth || value is Viewport || value is ColorMask,
        value.category() != other.category(),
    ensures
        cache.with(value).get(other) == cache.get(other),
        cache.get(value).category() == value.category(),
{
    reveal(CacheView::with);
    reveal(CacheView::get);
}

proof fn lemma_with_other_buffer(cache: CacheView, value: CachedSetting, other: CachedSetting)
    requires
        value is ActiveTexture || value is ArrayBuffer || value is ElementBuffer,
        value.category() != other.category(),
    ensures
        cache.with(value).get(other) == cache.get(other),
        cache.get(value).category() == value.category(),
{
    reveal(CacheView::with);
    reveal(CacheView::get);
}

proof fn lemma_with_other_target(cache: CacheView, value: CachedSetting, other: CachedSetting)
    requires
        value is Program || value is DepthBuffer || value is FrameBuffer,
        value.category() != other.category(),
    ensures
        cache.with(value).get(other) == cache.get(other),
        cache.get(value).category() == value.category(),
{
    reveal(CacheView::with);
    reveal(CacheView::get);
}

proof fn lemma_with_other_blend(cache: CacheView, value: CachedSetting, other: CachedSetting)
    requires
        value is Blend || value is BlendEquation || value is BlendFunction,
        value.category() != other.category(),
    ensures
        cache.with(value).get(other) == cache.get(other),
        cache.get(value).category() == value.category(),
{
    reveal(CacheView::with);
    reveal(CacheView::get);
}

proof fn lemma_with_other_depth(cache: CacheView, value: CachedSetting, other: CachedSetting)
    requires
        value is DepthTest || value is DepthFunction || value is CullFace,
        value.category() != other.category(),
    ensures
        cache.with(value).get(other) == cache.get(other),
        cache.get(value).category() == value.category(),
{
    reveal(CacheView::with);
    reveal(CacheView::get);
}

/// A write to one category leaves the value of every other category as it is,
/// and the value that a category holds is of that category.
pub proof fn lemma_with_other_category(cache: CacheView, value: CachedSetting, other: CachedSetting)
    requires
        value.category() != other.category(),
    ensures
        cache.with(value).get(other) == cache.get(other),
        cache.get(value).category() == value.category(),
{
    if value is ClearColor || value is ClearDepth || value is Viewport || value is ColorMask {
        lemma_with_other_frame(cache, value, other);
    } else if value is ActiveTexture || value is ArrayBuffer || value is ElementBuffer {
        lemma_with_other_buffer(cache, value, other);
    } else if value is Program || value is DepthBuffer || value is FrameBuffer {
        lemma_with_other_target(cache, value, other);
    } else if value is Blend || value is BlendEquation || value is BlendFunction {
        lemma_with_other_blend(cache, value, other);
    } else {
        lemma_with_other_depth(cache, value, other);
    }
}

/// Two settings nest: under the first and inside it the second, the device is
/// sent the calls that make the first current, then those that make the second
/// current, then the work's own calls, then the calls that undo the second, and
/// last those that undo the first.
pub proof fn lemma_composed_settings_nest(
    cache: CacheView,
    first: SettingView,
    second: SettingView,
    inner: Seq<Record>,
)
    ensures
        ({
            let inside = cache.shifted(first);
            &&& shifted_all(cache, seq![first, second]) == inside.shifted(second)
            &&& round_trip(cache, seq![first, second], inner) == plain_all(
                cache.calls(first, false),
            ) + plain_all(inside.calls(second, false)) + inner + plain_all(
                inside.shifted(second).calls(inside.undo(second), true),
            ) + plain_all(inside.calls(cache.undo(first), true))
        }),
{
    let both = seq![first, second];
    let one = seq![first];
    let inside = cache.shifted(first);
    assert(both.drop_last() =~= one);
    assert(one.drop_last() =~= Seq::<SettingView>::empty());
    assert(shifted_all(cache, Seq::<SettingView>::empty()) == cache);
    assert(shifted_all(cache, one) == inside);
    let around = plain_all(inside.calls(second, false)) + inner + plain_all(
        inside.shifted(second).calls(inside.undo(second), true),
    );
    assert(round_trip(cache, both, inner) == round_trip(cache, one, around));
    let outer = plain_all(cache.calls(first, false)) + around + plain_all(
        inside.calls(cache.undo(first), true),
    );
    assert(round_trip(cache, one, around) == round_trip(
        cache,
        Seq::<SettingView>::empty(),
        outer,
    ));
    assert(outer =~= plain_all(cache.calls(first, false)) + plain_all(
        inside.calls(second, false),
    ) + inner + plain_all(inside.shifted(second).calls(inside.undo(second), true)) + plain_all(
        inside.calls(cache.undo(first), true),
    ));
}

/// Two single-valued settings of different categories, each with a value that
/// the cache does not hold, take four calls around the work: the first is set,
/// then the second; after the work the second category gets its former value
/// back, then the first; and the cache is as it was.
pub proof fn lemma_two_settings_are_undone_in_reverse(
    cache: CacheView,
    first: CachedSetting,
    second: CachedSetting,
    inner: Seq<Record>,
)
    requires
        cache.valid(),
        first.valid(),
        second.valid(),
        first.category() != second.category(),
        cache.get(first) != first,
        cache.get(second) != second,
    ensures
        round_trip(
            cache,
            seq![SettingView::Cached(first), SettingView::Cached(second)],
            inner,
        ) == seq![plain(first.spec_call()), plain(second.spec_call())] + inner + seq![
            plain(cache.get(second).spec_call()),
            plain(cache.get(first).spec_call()),
        ],
        cache.with(first).with(second).with(cache.get(second)).with(cache.get(first)) == cache,
{
    let a = SettingView::Cached(first);
    let b = SettingView::Cached(second);
    let inside = cache.with(first);
    let within = inside.with(second);
    lemma_composed_settings_nest(cache, a, b, inner);
    lemma_with_other_category(cache, first, second);
    lemma_with_other_category(inside, second, cache.get(first));
    lemma_with_other_category(inside, second, first);
    lemma_with_facts(cache, first);
    lemma_with_facts(inside, second);
    lemma_with_previous(cache, first);
    lemma_with_previous(inside, second);
    assert(inside.get(second) == cache.get(second));
    assert(within.get(cache.get(second)) == second) by {
        lemma_category_get(within, second, cache.get(second));
    }
    assert(inside.get(cache.get(first)) == first) by {
        lemma_category_get(inside, first, cache.get(first));
    }
    let sent = plain_all(cache.calls(a, false)) + plain_all(inside.calls(b, false)) + inner
        + plain_all(within.calls(inside.undo(b), true)) + plain_all(
        inside.calls(cache.undo(a), true),
    );
    assert(sent =~= seq![plain(first.spec_call()), plain(second.spec_call())] + inner + seq![
        plain(cache.get(second).spec_call()),
        plain(cache.get(first).spec_call()),
    ]);
}

/// What a cache holds in a category does not depend on which value of the
/// category asks.
pub proof fn lemma_category_get(cache: CacheView, value: CachedSetting, other: CachedSetting)
    requires
        value.category() == other.category(),
    ensures
        cache.get(value) == cache.get(other),
{
    reveal(CacheView::get);
}

} // verus!
