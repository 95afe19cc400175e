use web_sys::WebGlRenderingContext as Context;
use webgl_rc::cache::distinct;
use webgl_rc::{
    array_diff, ActiveTextureSetting, ArrayBufferSetting, BlendEquation, BlendEquationSetting,
    BlendFunction, BlendFunctionSetting, BlendSetting, CachedSetting, ClearColorSetting,
    ClearDepthSetting, ColorMask, CullFace, DepthBufferSetting, DepthFunction, DepthTestSetting,
    DeviceCall, ElementBufferSetting, EmptySetting, EnabledAttributesSetting,
    FrameBufferSetting, InstancedAttributesSetting, ProgramSetting, Setting, SettingsCache,
    TextureFilter, TextureFilterSetting, TextureListSetting, TextureSetting, ViewportSetting,
};

fn every_cached_setting() -> Vec<(CachedSetting, DeviceCall)> {
    vec![
        (
            CachedSetting::ClearColor(ClearColorSetting { red: 1, green: 2, blue: 3, alpha: 4 }),
            DeviceCall::ClearColor { red: 1, green: 2, blue: 3, alpha: 4 },
        ),
        (
            CachedSetting::ClearDepth(ClearDepthSetting { value: 1.0f32.to_bits() }),
            DeviceCall::ClearDepth { depth: 1.0f32.to_bits() },
        ),
        (
            CachedSetting::Viewport(ViewportSetting { x: 1, y: 2, width: 640, height: 480 }),
            DeviceCall::Viewport { x: 1, y: 2, width: 640, height: 480 },
        ),
        (
            CachedSetting::ActiveTexture(ActiveTextureSetting(3)),
            DeviceCall::ActiveTexture { texture: Context::TEXTURE3 },
        ),
        (
            CachedSetting::ArrayBuffer(ArrayBufferSetting(Some(7))),
            DeviceCall::BindBuffer { target: Context::ARRAY_BUFFER, buffer: Some(7) },
        ),
        (
            CachedSetting::ElementBuffer(ElementBufferSetting(Some(8))),
            DeviceCall::BindBuffer { target: Context::ELEMENT_ARRAY_BUFFER, buffer: Some(8) },
        ),
        (CachedSetting::Blend(BlendSetting(true)), DeviceCall::Enable { capability: Context::BLEND }),
        (
            CachedSetting::DepthTest(DepthTestSetting(true)),
            DeviceCall::Enable { capability: Context::DEPTH_TEST },
        ),
        (
            CachedSetting::Program(ProgramSetting { program: Some(9) }),
            DeviceCall::UseProgram { program: Some(9) },
        ),
        (
            CachedSetting::DepthBuffer(DepthBufferSetting { buffer: Some(10) }),
            DeviceCall::BindRenderbuffer { target: Context::RENDERBUFFER, renderbuffer: Some(10) },
        ),
        (
            CachedSetting::FrameBuffer(FrameBufferSetting { buffer: Some(11) }),
            DeviceCall::BindFramebuffer { target: Context::FRAMEBUFFER, framebuffer: Some(11) },
        ),
        (
            CachedSetting::BlendEquation(BlendEquationSetting {
                color: BlendEquation::Sub,
                alpha: BlendEquation::RSub,
            }),
            DeviceCall::BlendEquationSeparate {
                mode_rgb: Context::FUNC_SUBTRACT,
                mode_alpha: Context::FUNC_REVERSE_SUBTRACT,
            },
        ),
        (
            CachedSetting::BlendFunction(BlendFunctionSetting {
                src_rgb: BlendFunction::SrcAlpha,
                dst_rgb: BlendFunction::OneMinusSrcAlpha,
                src_alpha: BlendFunction::One,
                dst_alpha: BlendFunction::DstAlpha,
            }),
            DeviceCall::BlendFuncSeparate {
                src_rgb: Context::SRC_ALPHA,
                dst_rgb: Context::ONE_MINUS_SRC_ALPHA,
                src_alpha: Context::ONE,
                dst_alpha: Context::DST_ALPHA,
            },
        ),
        (
            CachedSetting::DepthFunction(DepthFunction::GEqual),
            DeviceCall::DepthFunc { func: Context::GEQUAL },
        ),
        (
            CachedSetting::CullFace(CullFace::Front),
            DeviceCall::CullFace { mode: Context::FRONT },
        ),
        (
            CachedSetting::ColorMask(ColorMask(true, false, true, false)),
            DeviceCall::ColorMask { red: true, green: false, blue: true, alpha: false },
        ),
    ]
}

#[test]
fn new_cache_holds_the_defaults() {
    let cache = SettingsCache::new();
    assert_eq!(cache.blend, BlendSetting(false));
    assert_eq!(cache.depth, DepthTestSetting(false));
    assert_eq!(cache.array_buffer, ArrayBufferSetting(None));
    assert_eq!(cache.element_buffer, ElementBufferSetting(None));
    assert_eq!(cache.active_texture, ActiveTextureSetting(0));
    assert_eq!(cache.textures, [None; 16]);
    assert!(cache.enabled_attributes.is_empty());
    assert!(cache.instanced_attributes.is_empty());
    assert_eq!(cache.program, ProgramSetting { program: None });
    assert_eq!(cache.clear_color, ClearColorSetting { red: 0, green: 0, blue: 0, alpha: 0 });
    assert_eq!(cache.clear_depth, ClearDepthSetting { value: 0 });
    assert_eq!(cache.viewport, ViewportSetting { x: 0, y: 0, width: 0, height: 0 });
    assert_eq!(cache.depth_buffer, DepthBufferSetting { buffer: None });
    assert_eq!(cache.frame_buffer, FrameBufferSetting { buffer: None });
    assert_eq!(
        cache.blend_equation,
        BlendEquationSetting { color: BlendEquation::Add, alpha: BlendEquation::Add }
    );
    assert_eq!(cache.blend_function, BlendFunctionSetting::default());
    assert_eq!(
        cache.blend_function,
        BlendFunctionSetting {
            src_rgb: BlendFunction::One,
            dst_rgb: BlendFunction::Zero,
            src_alpha: BlendFunction::One,
            dst_alpha: BlendFunction::Zero,
        }
    );
    assert_eq!(cache.depth_function, DepthFunction::Less);
    assert_eq!(cache.cull_face, CullFace::Back);
    assert_eq!(cache.color_mask, ColorMask(true, true, true, true));
}

#[test]
fn every_cached_setting_takes_its_one_call() {
    for (setting, call) in every_cached_setting() {
        assert_eq!(setting.set(), call);
        let mut cache = SettingsCache::new();
        let previous = cache.read_cached(setting);
        assert_ne!(previous, setting);
        let (undo, calls) = cache.shift(&Setting::Cached(setting), false);
        assert_eq!(calls, vec![call]);
        assert_eq!(undo, Setting::Cached(previous));
        assert_eq!(cache.read_cached(setting), setting);
    }
}

#[test]
fn switching_off_takes_the_disable_call() {
    assert_eq!(
        CachedSetting::Blend(BlendSetting(false)).set(),
        DeviceCall::Disable { capability: Context::BLEND }
    );
    assert_eq!(
        CachedSetting::DepthTest(DepthTestSetting(false)).set(),
        DeviceCall::Disable { capability: Context::DEPTH_TEST }
    );
    assert_eq!(
        CachedSetting::ArrayBuffer(ArrayBufferSetting(None)).set(),
        DeviceCall::BindBuffer { target: Context::ARRAY_BUFFER, buffer: None }
    );
}

#[test]
fn a_setting_that_the_cache_holds_takes_no_call() {
    for (setting, _) in every_cached_setting() {
        let mut cache = SettingsCache::new();
        cache.write_cached(setting);
        for restoring in [false, true] {
            let (undo, calls) = cache.shift(&Setting::Cached(setting), restoring);
            assert!(calls.is_empty());
            assert_eq!(undo, Setting::Empty(EmptySetting {}));
            assert_eq!(cache.read_cached(setting), setting);
        }
    }
    let mut cache = SettingsCache::new();
    let same_texture = Setting::Texture(TextureSetting { index: 5, texture: None });
    let (undo, calls) = cache.shift(&same_texture, false);
    assert!(calls.is_empty());
    assert_eq!(undo, Setting::Empty(EmptySetting {}));
    let same_list = Setting::TextureList(TextureListSetting { textures: [None; 16] });
    let (_, calls) = cache.shift(&same_list, false);
    assert!(calls.is_empty());
    let same_slots = Setting::EnabledAttributes(EnabledAttributesSetting { items: vec![] });
    let (_, calls) = cache.shift(&same_slots, false);
    assert!(calls.is_empty());
    let (_, calls) = cache.shift(&Setting::Empty(EmptySetting {}), false);
    assert!(calls.is_empty());
}

#[test]
fn the_undoing_setting_brings_every_category_back() {
    for (setting, _) in every_cached_setting() {
        let mut cache = SettingsCache::new();
        let before = cache.read_cached(setting);
        let (undo, _) = cache.shift(&Setting::Cached(setting), false);
        let (_, calls) = cache.shift(&undo, true);
        assert_eq!(calls, vec![before.set()]);
        assert_eq!(cache.read_cached(setting), before);
    }
    let mut cache = SettingsCache::new();
    cache.shift(&Setting::EnabledAttributes(EnabledAttributesSetting { items: vec![0, 1, 4] }), false);
    let (undo, _) =
        cache.shift(&Setting::EnabledAttributes(EnabledAttributesSetting { items: vec![1, 2] }), false);
    assert_eq!(cache.enabled_attributes, vec![1, 2]);
    cache.shift(&undo, true);
    assert_eq!(cache.enabled_attributes, vec![0, 1, 4]);
    let mut textures = [None; 16];
    textures[0] = Some(3);
    textures[15] = Some(4);
    let (undo, _) = cache.shift(&Setting::TextureList(TextureListSetting { textures }), false);
    assert_eq!(cache.textures, textures);
    cache.shift(&undo, true);
    assert_eq!(cache.textures, [None; 16]);
}

#[test]
fn array_diff_keeps_order_and_drops_shared_items() {
    assert_eq!(array_diff(&vec![0, 1, 4], &vec![1, 2]), vec![0, 4]);
    assert_eq!(array_diff(&vec![1, 2], &vec![0, 1, 4]), vec![2]);
    assert_eq!(array_diff(&vec![], &vec![1]), Vec::<u32>::new());
    assert_eq!(array_diff(&vec![5, 6], &vec![]), vec![5, 6]);
    assert_eq!(array_diff(&vec![3, 3, 9], &vec![9]), vec![3, 3]);
    assert_eq!(array_diff(&vec![7, 8], &vec![8, 7]), Vec::<u32>::new());
}

#[test]
fn enabled_attributes_switch_only_the_differing_slots() {
    let mut cache = SettingsCache::new();
    cache.shift(&Setting::EnabledAttributes(EnabledAttributesSetting { items: vec![0, 1, 4] }), false);
    let new = Setting::EnabledAttributes(EnabledAttributesSetting { items: vec![1, 2, 4, 9] });
    let (undo, calls) = cache.shift(&new, false);
    assert_eq!(
        calls,
        vec![
            DeviceCall::DisableVertexAttribArray { index: 0 },
            DeviceCall::EnableVertexAttribArray { index: 2 },
            DeviceCall::EnableVertexAttribArray { index: 9 },
        ]
    );
    assert_eq!(undo, Setting::EnabledAttributes(EnabledAttributesSetting { items: vec![0, 1, 4] }));
    let (_, calls) = cache.shift(&undo, true);
    assert_eq!(
        calls,
        vec![
            DeviceCall::EnableVertexAttribArray { index: 0 },
            DeviceCall::DisableVertexAttribArray { index: 2 },
            DeviceCall::DisableVertexAttribArray { index: 9 },
        ]
    );
}

#[test]
fn the_number_of_slot_calls_is_that_of_the_differing_slots() {
    let previous: Vec<u32> = (0..12).collect();
    let new: Vec<u32> = (10..16).collect();
    let mut cache = SettingsCache::new();
    cache.shift(&Setting::EnabledAttributes(EnabledAttributesSetting { items: previous }), false);
    let (_, calls) =
        cache.shift(&Setting::EnabledAttributes(EnabledAttributesSetting { items: new }), false);
    let enabled = calls
        .iter()
        .filter(|call| matches!(call, DeviceCall::EnableVertexAttribArray { .. }))
        .count();
    let disabled = calls
        .iter()
        .filter(|call| matches!(call, DeviceCall::DisableVertexAttribArray { .. }))
        .count();
    assert_eq!(enabled, 4);
    assert_eq!(disabled, 10);
    assert_eq!(calls.len(), 14);
}

#[test]
fn instanced_attributes_set_the_divisor_of_the_differing_slots() {
    let mut cache = SettingsCache::new();
    let (undo, calls) = cache
        .shift(&Setting::InstancedAttributes(InstancedAttributesSetting { items: vec![2, 3] }), false);
    assert_eq!(
        calls,
        vec![
            DeviceCall::VertexAttribDivisor { index: 2, divisor: 1 },
            DeviceCall::VertexAttribDivisor { index: 3, divisor: 1 },
        ]
    );
    let (_, calls) = cache
        .shift(&Setting::InstancedAttributes(InstancedAttributesSetting { items: vec![3, 5] }), false);
    assert_eq!(
        calls,
        vec![
            DeviceCall::VertexAttribDivisor { index: 2, divisor: 0 },
            DeviceCall::VertexAttribDivisor { index: 5, divisor: 1 },
        ]
    );
    cache.shift(&Setting::InstancedAttributes(InstancedAttributesSetting { items: vec![2, 3] }), false);
    let (_, calls) = cache.shift(&undo, true);
    assert_eq!(
        calls,
        vec![
            DeviceCall::VertexAttribDivisor { index: 2, divisor: 0 },
            DeviceCall::VertexAttribDivisor { index: 3, divisor: 0 },
        ]
    );
}

#[test]
fn a_texture_is_bound_on_its_unit_and_the_active_unit_comes_back() {
    let mut cache = SettingsCache::new();
    let (undo, calls) =
        cache.shift(&Setting::Texture(TextureSetting { index: 0, texture: Some(5) }), false);
    assert_eq!(
        calls,
        vec![DeviceCall::BindTexture { target: Context::TEXTURE_2D, texture: Some(5) }]
    );
    assert_eq!(undo, Setting::Texture(TextureSetting { index: 0, texture: None }));
    let (_, calls) =
        cache.shift(&Setting::Texture(TextureSetting { index: 3, texture: Some(6) }), false);
    assert_eq!(
        calls,
        vec![
            DeviceCall::ActiveTexture { texture: Context::TEXTURE3 },
            DeviceCall::BindTexture { target: Context::TEXTURE_2D, texture: Some(6) },
            DeviceCall::ActiveTexture { texture: Context::TEXTURE0 },
        ]
    );
    assert_eq!(cache.textures[0], Some(5));
    assert_eq!(cache.textures[3], Some(6));
    assert_eq!(cache.active_texture, ActiveTextureSetting(0));
}

#[test]
fn a_texture_list_binds_only_the_differing_units() {
    let mut cache = SettingsCache::new();
    cache.shift(&Setting::Cached(CachedSetting::ActiveTexture(ActiveTextureSetting(1))), false);
    cache.shift(&Setting::Texture(TextureSetting { index: 0, texture: Some(5) }), false);
    cache.shift(&Setting::Texture(TextureSetting { index: 2, texture: Some(6) }), false);
    let mut textures = [None; 16];
    textures[0] = Some(5);
    textures[1] = Some(7);
    let (undo, calls) = cache.shift(&Setting::TextureList(TextureListSetting { textures }), false);
    assert_eq!(
        calls,
        vec![
            DeviceCall::BindTexture { target: Context::TEXTURE_2D, texture: Some(7) },
            DeviceCall::ActiveTexture { texture: Context::TEXTURE2 },
            DeviceCall::BindTexture { target: Context::TEXTURE_2D, texture: None },
            DeviceCall::ActiveTexture { texture: Context::TEXTURE1 },
        ]
    );
    let mut before = [None; 16];
    before[0] = Some(5);
    before[2] = Some(6);
    assert_eq!(undo, Setting::TextureList(TextureListSetting { textures: before }));
    let binds = calls.iter().filter(|call| matches!(call, DeviceCall::BindTexture { .. })).count();
    assert_eq!(binds, 2);
}

#[test]
fn a_filter_setting_is_no_matter_of_the_cache() {
    let mut cache = SettingsCache::new();
    let setting = Setting::TextureFilter(TextureFilterSetting {
        texture: 1,
        filter: TextureFilter::Nearest,
    });
    let (undo, calls) = cache.shift(&setting, false);
    assert!(calls.is_empty());
    assert_eq!(undo, Setting::Empty(EmptySetting {}));
    assert!(setting.refers(1));
    assert!(!setting.refers(2));
}

#[test]
fn the_cache_knows_which_objects_it_names() {
    let mut cache = SettingsCache::new();
    assert!(!cache.refers(7));
    cache.write_cached(CachedSetting::Program(ProgramSetting { program: Some(7) }));
    assert!(cache.refers(7));
    cache.shift(&Setting::Texture(TextureSetting { index: 15, texture: Some(8) }), false);
    assert!(cache.refers(8));
    assert!(!cache.refers(9));
    assert!(Setting::Texture(TextureSetting { index: 15, texture: Some(8) }).refers(8));
    assert!(Setting::Cached(CachedSetting::ArrayBuffer(ArrayBufferSetting(Some(3)))).refers(3));
    assert!(!Setting::Cached(CachedSetting::Blend(BlendSetting(true))).refers(0));
}

#[test]
fn a_slot_that_a_list_names_twice_is_switched_once() {
    let mut cache = SettingsCache::new();
    let twice = Setting::EnabledAttributes(EnabledAttributesSetting { items: vec![1, 1] });
    let (undo, calls) = cache.shift(&twice, false);
    assert_eq!(calls, vec![DeviceCall::EnableVertexAttribArray { index: 1 }]);
    let (_, calls) = cache.shift(&undo, true);
    assert_eq!(calls, vec![DeviceCall::DisableVertexAttribArray { index: 1 }]);
    assert!(cache.enabled_attributes.is_empty());
    cache.shift(&Setting::EnabledAttributes(EnabledAttributesSetting { items: vec![2, 3, 2] }), false);
    let (_, calls) = cache
        .shift(&Setting::EnabledAttributes(EnabledAttributesSetting { items: vec![3, 4, 4, 3] }), false);
    assert_eq!(
        calls,
        vec![
            DeviceCall::DisableVertexAttribArray { index: 2 },
            DeviceCall::EnableVertexAttribArray { index: 4 },
        ]
    );
    let mut cache = SettingsCache::new();
    let (undo, calls) = cache
        .shift(&Setting::InstancedAttributes(InstancedAttributesSetting { items: vec![5, 5, 6, 5] }), false);
    assert_eq!(
        calls,
        vec![
            DeviceCall::VertexAttribDivisor { index: 5, divisor: 1 },
            DeviceCall::VertexAttribDivisor { index: 6, divisor: 1 },
        ]
    );
    let (_, calls) = cache.shift(&undo, true);
    assert_eq!(
        calls,
        vec![
            DeviceCall::VertexAttribDivisor { index: 5, divisor: 0 },
            DeviceCall::VertexAttribDivisor { index: 6, divisor: 0 },
        ]
    );
}

#[test]
fn distinct_keeps_the_first_of_equal_items() {
    assert_eq!(distinct(&vec![1, 1]), vec![1]);
    assert_eq!(distinct(&vec![3, 1, 3, 2, 1]), vec![3, 1, 2]);
    assert_eq!(distinct(&vec![]), Vec::<u32>::new());
    assert_eq!(distinct(&vec![7, 8, 9]), vec![7, 8, 9]);
}

#[test]
fn two_settings_are_undone_in_reverse_order() {
    let mut cache = SettingsCache::new();
    let blend = CachedSetting::Blend(BlendSetting(true));
    let cull = CachedSetting::CullFace(CullFace::Front);
    let (undo_blend, first) = cache.shift(&Setting::Cached(blend), false);
    let (undo_cull, second) = cache.shift(&Setting::Cached(cull), false);
    let (_, third) = cache.shift(&undo_cull, true);
    let (_, fourth) = cache.shift(&undo_blend, true);
    assert_eq!(
        [first, second, third, fourth].concat(),
        vec![
            DeviceCall::Enable { capability: Context::BLEND },
            DeviceCall::CullFace { mode: Context::FRONT },
            DeviceCall::CullFace { mode: Context::BACK },
            DeviceCall::Disable { capability: Context::BLEND },
        ]
    );
    assert_eq!(cache.read_cached(blend), CachedSetting::Blend(BlendSetting(false)));
    assert_eq!(cache.read_cached(cull), CachedSetting::CullFace(CullFace::Back));
}
