use web_sys::WebGlRenderingContext as Context;
use webgl_rc::{
    ArrayBuffer, BlendSetting, BufferUsage, CachedSetting, Command, ContextAnswer, DepthFunction,
    DeviceCall, Gl, GlError, Setting, Settings, Single, Texture, TextureContent, TextureFilter,
    TextureFormat, TextureType,
};

fn calls_of(commands: &[Command]) -> Vec<DeviceCall> {
    commands.iter().map(|command| command.call).collect()
}

fn taken(gl: &mut Gl) -> Vec<DeviceCall> {
    calls_of(&gl.take_calls())
}

const CLEAR: DeviceCall = DeviceCall::Clear { mask: Context::COLOR_BUFFER_BIT };

#[test]
fn a_context_with_every_extension_gives_a_fresh_state() {
    let answer = ContextAnswer::Found {
        instanced_arrays: true,
        color_buffer_half_float: true,
        texture_half_float: true,
        texture_half_float_linear: true,
    };
    let mut gl = Gl::new(&answer).unwrap();
    assert!(gl.take_calls().is_empty());
    assert!(gl.can_create());
    assert!(!gl.is_live(0));
}

#[test]
fn a_context_is_refused_for_the_first_missing_extension() {
    let names = [
        "ANGLE_instanced_arrays",
        "EXT_color_buffer_half_float",
        "OES_texture_half_float",
        "OES_texture_half_float_linear",
    ];
    for missing in 0..4 {
        let answer = ContextAnswer::Found {
            instanced_arrays: missing > 0,
            color_buffer_half_float: missing > 1,
            texture_half_float: missing > 2,
            texture_half_float_linear: false,
        };
        assert_eq!(
            Gl::new(&answer).err(),
            Some(GlError::ExtensionNotFound(names[missing].to_string()))
        );
    }
    let only_last = ContextAnswer::Found {
        instanced_arrays: true,
        color_buffer_half_float: false,
        texture_half_float: false,
        texture_half_float_linear: true,
    };
    assert_eq!(
        Gl::new(&only_last).err(),
        Some(GlError::ExtensionNotFound("EXT_color_buffer_half_float".to_string()))
    );
}

#[test]
fn a_context_that_failed_or_is_missing_is_an_unknown_error() {
    assert_eq!(
        Gl::new(&ContextAnswer::Failed("no webgl".to_string())).err(),
        Some(GlError::UnknownError(Some("no webgl".to_string())))
    );
    assert_eq!(Gl::new(&ContextAnswer::Missing).err(), Some(GlError::UnknownError(None)));
}

#[test]
fn work_runs_between_the_setting_and_its_undoing() {
    let mut gl = Gl::fresh();
    let settings = Gl::settings().blend(true);
    let answer = gl.apply(&settings, |gl| {
        gl.clear_color_buffer();
        42
    });
    assert_eq!(answer, 42);
    assert_eq!(
        taken(&mut gl),
        vec![
            DeviceCall::Enable { capability: Context::BLEND },
            CLEAR,
            DeviceCall::Disable { capability: Context::BLEND },
        ]
    );
}

#[test]
fn a_setting_whose_value_is_current_costs_no_device_call() {
    let mut gl = Gl::fresh();
    let settings = Gl::settings()
        .blend(false)
        .depth_test(false)
        .depth_function(DepthFunction::Less)
        .viewport(0, 0, 0, 0)
        .active_texture(0)
        .enabled_attributes(&[]);
    gl.apply(&settings, |gl| gl.clear_color_buffer());
    assert_eq!(taken(&mut gl), vec![CLEAR]);
    let on = Gl::settings().blend(true);
    gl.apply(&on, |gl| {
        let again = Gl::settings().blend(true);
        gl.apply(&again, |gl| gl.clear_color_buffer());
    });
    assert_eq!(
        taken(&mut gl),
        vec![
            DeviceCall::Enable { capability: Context::BLEND },
            CLEAR,
            DeviceCall::Disable { capability: Context::BLEND },
        ]
    );
}

#[test]
fn settings_are_undone_in_reverse_order() {
    let mut gl = Gl::fresh();
    let settings = Gl::settings().blend(true).depth_test(true).viewport(0, 0, 8, 4);
    gl.apply(&settings, |gl| gl.clear_buffers());
    assert_eq!(
        taken(&mut gl),
        vec![
            DeviceCall::Enable { capability: Context::BLEND },
            DeviceCall::Enable { capability: Context::DEPTH_TEST },
            DeviceCall::Viewport { x: 0, y: 0, width: 8, height: 4 },
            DeviceCall::Clear { mask: Context::COLOR_BUFFER_BIT | Context::DEPTH_BUFFER_BIT },
            DeviceCall::Viewport { x: 0, y: 0, width: 0, height: 0 },
            DeviceCall::Disable { capability: Context::DEPTH_TEST },
            DeviceCall::Disable { capability: Context::BLEND },
        ]
    );
}

#[test]
fn nested_scopes_restore_the_state_of_the_scope_around_them() {
    let mut gl = Gl::fresh();
    let outer = Gl::settings().viewport(0, 0, 8, 8);
    gl.apply(&outer, |gl| {
        let inner = Gl::settings().viewport(0, 0, 2, 2);
        gl.apply(&inner, |gl| gl.clear_depth_buffer());
        gl.clear_color_buffer();
    });
    assert_eq!(
        taken(&mut gl),
        vec![
            DeviceCall::Viewport { x: 0, y: 0, width: 8, height: 8 },
            DeviceCall::Viewport { x: 0, y: 0, width: 2, height: 2 },
            DeviceCall::Clear { mask: Context::DEPTH_BUFFER_BIT },
            DeviceCall::Viewport { x: 0, y: 0, width: 8, height: 8 },
            CLEAR,
            DeviceCall::Viewport { x: 0, y: 0, width: 0, height: 0 },
        ]
    );
    let after = Gl::settings().viewport(0, 0, 0, 0).blend(false);
    gl.apply(&after, |_| ());
    assert!(gl.take_calls().is_empty());
}

#[test]
fn composed_settings_apply_as_the_chain_of_both() {
    let first = Gl::settings().blend(true);
    let second = Gl::settings().depth_test(true).color_mask(true, true, true, false);
    let chained = Gl::settings().blend(true).depth_test(true).color_mask(true, true, true, false);
    let composed = first.compose(second);
    assert_eq!(composed, chained);
    assert_eq!(Gl::settings().compose(Gl::settings()), Settings::new());
    let with = Gl::settings().with(Setting::Cached(CachedSetting::Blend(BlendSetting(true))));
    assert_eq!(with, Gl::settings().blend(true));
    let mut one = Gl::fresh();
    one.apply(&composed, |gl| gl.clear_color_buffer());
    let mut other = Gl::fresh();
    other.apply(&chained, |gl| gl.clear_color_buffer());
    assert_eq!(taken(&mut one), taken(&mut other));
}

#[test]
fn the_empty_settings_change_nothing() {
    let mut gl = Gl::fresh();
    let answer = gl.apply(&Gl::settings(), |gl| {
        gl.clear_color_buffer();
        "done"
    });
    assert_eq!(answer, "done");
    assert_eq!(taken(&mut gl), vec![CLEAR]);
}

#[test]
fn a_bound_buffer_outlives_its_last_handle_until_the_scope_ends() {
    let mut gl = Gl::fresh();
    let items = [Single(1.0f32.to_bits())];
    let buffer = ArrayBuffer::new(&mut gl, true, &items, BufferUsage::Static).unwrap();
    let id = buffer.id();
    gl.take_calls();
    let settings = Gl::settings().array_buffer(&buffer);
    gl.apply(&settings, move |gl| {
        buffer.release(gl);
        assert!(gl.is_live(id));
        gl.clear_color_buffer();
    });
    assert!(!gl.is_live(id));
    assert_eq!(
        taken(&mut gl),
        vec![
            DeviceCall::BindBuffer { target: Context::ARRAY_BUFFER, buffer: Some(id) },
            CLEAR,
            DeviceCall::BindBuffer { target: Context::ARRAY_BUFFER, buffer: None },
            DeviceCall::DeleteBuffer { buffer: id },
        ]
    );
}

#[test]
fn a_filter_setting_holds_for_the_work_and_is_undone() {
    let mut gl = Gl::fresh();
    let texture = Texture::new(
        &mut gl,
        true,
        2,
        2,
        TextureType::Byte,
        TextureFormat::Rgba,
        TextureContent::Empty,
    )
    .unwrap();
    gl.take_calls();
    let settings = Gl::settings().texture_filter(&texture, TextureFilter::Nearest);
    let inside = gl.apply(&settings, |gl| texture.filter(gl));
    assert_eq!(inside, TextureFilter::Nearest);
    assert_eq!(texture.filter(&gl), TextureFilter::Linear);
    let bind = DeviceCall::BindTexture { target: Context::TEXTURE_2D, texture: Some(texture.id()) };
    let unbind = DeviceCall::BindTexture { target: Context::TEXTURE_2D, texture: None };
    let set = |name: u32, value: u32| DeviceCall::TexParameteri {
        target: Context::TEXTURE_2D,
        name,
        value: value as i32,
    };
    assert_eq!(
        taken(&mut gl),
        vec![
            bind,
            set(Context::TEXTURE_MAG_FILTER, Context::NEAREST),
            set(Context::TEXTURE_MIN_FILTER, Context::NEAREST),
            unbind,
            bind,
            set(Context::TEXTURE_MAG_FILTER, Context::LINEAR),
            set(Context::TEXTURE_MIN_FILTER, Context::LINEAR),
            unbind,
        ]
    );
    let same = Gl::settings().texture_filter(&texture, TextureFilter::Linear);
    gl.apply(&same, |_| ());
    assert!(gl.take_calls().is_empty());
}

#[test]
fn texture_units_are_bound_for_the_work_and_unbound_after() {
    let mut gl = Gl::fresh();
    let make = |gl: &mut Gl| {
        Texture::new(gl, true, 1, 1, TextureType::Byte, TextureFormat::Rgba, TextureContent::Empty)
            .unwrap()
    };
    let first = make(&mut gl);
    let second = make(&mut gl);
    gl.take_calls();
    let settings = Gl::settings().texture_list(&[&first, &second]);
    gl.apply(&settings, |gl| gl.clear_color_buffer());
    let bind = |texture: Option<u64>| DeviceCall::BindTexture { target: Context::TEXTURE_2D, texture };
    let unit = |texture: u32| DeviceCall::ActiveTexture { texture };
    assert_eq!(
        taken(&mut gl),
        vec![
            bind(Some(first.id())),
            unit(Context::TEXTURE1),
            bind(Some(second.id())),
            unit(Context::TEXTURE0),
            CLEAR,
            bind(None),
            unit(Context::TEXTURE1),
            bind(None),
            unit(Context::TEXTURE0),
        ]
    );
    let one = Gl::settings().active_texture(2).texture(2, &first);
    gl.apply(&one, |_| ());
    assert_eq!(
        taken(&mut gl),
        vec![unit(Context::TEXTURE2), bind(Some(first.id())), bind(None), unit(Context::TEXTURE0)]
    );
}
