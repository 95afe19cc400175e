use web_sys::WebGlRenderingContext as Context;
use webgl_rc::{
    device_failure, Command, DeviceCall, Gl, GlError, Texture, TextureContent, TextureFilter,
    TextureFormat, TextureType,
};

fn calls(commands: &[Command]) -> Vec<DeviceCall> {
    commands.iter().map(|command| command.call).collect()
}

fn sent(gl: &mut Gl) -> Vec<DeviceCall> {
    calls(&gl.take_calls())
}

fn bind(texture: Option<u64>) -> DeviceCall {
    DeviceCall::BindTexture { target: Context::TEXTURE_2D, texture }
}

fn parameter(name: u32, value: u32) -> DeviceCall {
    DeviceCall::TexParameteri { target: Context::TEXTURE_2D, name, value: value as i32 }
}

fn bind_frame(framebuffer: Option<u64>) -> DeviceCall {
    DeviceCall::BindFramebuffer { target: Context::FRAMEBUFFER, framebuffer }
}

fn attach(texture: u64) -> DeviceCall {
    DeviceCall::FramebufferTexture2d {
        target: Context::FRAMEBUFFER,
        attachment: Context::COLOR_ATTACHMENT0,
        texture_target: Context::TEXTURE_2D,
        texture: Some(texture),
        level: 0,
    }
}

fn image(width: i32, height: i32, format: u32, data_type: u32, with_pixels: bool) -> DeviceCall {
    DeviceCall::TexImage2d {
        target: Context::TEXTURE_2D,
        level: 0,
        internal_format: format as i32,
        width,
        height,
        border: 0,
        format,
        data_type,
        with_pixels,
    }
}

fn rgba(gl: &mut Gl, width: u32, height: u32) -> Texture {
    let texture = Texture::new(
        gl,
        true,
        width,
        height,
        TextureType::Byte,
        TextureFormat::Rgba,
        TextureContent::Empty,
    )
    .unwrap();
    gl.take_calls();
    texture
}

#[test]
fn a_new_texture_is_set_up_and_allocated_while_bound() {
    let mut gl = Gl::fresh();
    let texture = gl
        .texture(true, 4, 2, TextureType::Byte, TextureFormat::Rgba, TextureContent::Empty)
        .unwrap();
    let id = texture.id();
    assert_eq!(
        sent(&mut gl),
        vec![
            bind(Some(id)),
            parameter(Context::TEXTURE_WRAP_S, Context::CLAMP_TO_EDGE),
            parameter(Context::TEXTURE_WRAP_T, Context::CLAMP_TO_EDGE),
            parameter(Context::TEXTURE_MAG_FILTER, Context::LINEAR),
            parameter(Context::TEXTURE_MIN_FILTER, Context::LINEAR),
            bind(None),
            bind(Some(id)),
            image(4, 2, Context::RGBA, Context::UNSIGNED_BYTE, false),
            bind(None),
        ]
    );
    assert_eq!(texture.width(&gl), 4);
    assert_eq!(texture.height(&gl), 2);
    assert_eq!(texture.size(&gl), (4, 2));
    assert_eq!(texture.data_type(&gl), TextureType::Byte);
    assert_eq!(texture.format(&gl), TextureFormat::Rgba);
    assert_eq!(texture.filter(&gl), TextureFilter::Linear);
}

#[test]
fn a_new_texture_takes_its_texels_from_bytes_or_from_the_image() {
    let mut gl = Gl::fresh();
    let texels = vec![1u8, 2, 3, 4, 5, 6];
    let texture = Texture::new(
        &mut gl,
        true,
        2,
        1,
        TextureType::Float,
        TextureFormat::Rgb,
        TextureContent::Bytes(texels.clone()),
    )
    .unwrap();
    let commands = gl.take_calls();
    assert_eq!(commands.len(), 9);
    assert_eq!(commands[7].call, image(2, 1, Context::RGB, Context::FLOAT, true));
    assert_eq!(commands[7].bytes, texels);
    assert!(commands[7].words.is_empty());
    let pictured = Texture::new(
        &mut gl,
        true,
        8,
        8,
        TextureType::Byte,
        TextureFormat::LuminanceAlpha,
        TextureContent::Image,
    )
    .unwrap();
    let commands = gl.take_calls();
    let from_image = DeviceCall::TexImage2dImage {
        target: Context::TEXTURE_2D,
        level: 0,
        internal_format: Context::LUMINANCE_ALPHA as i32,
        format: Context::LUMINANCE_ALPHA,
        data_type: Context::UNSIGNED_BYTE,
        texture: pictured.id(),
    };
    assert_eq!(commands[7].call, from_image);
    texture.write_bytes(&mut gl, &vec![9, 9, 9, 9, 9, 9]);
    let commands = gl.take_calls();
    assert_eq!(
        calls(&commands),
        vec![bind(Some(texture.id())), image(2, 1, Context::RGB, Context::FLOAT, true), bind(None)]
    );
    assert_eq!(commands[1].bytes, vec![9, 9, 9, 9, 9, 9]);
    pictured.write_image(&mut gl);
    assert_eq!(sent(&mut gl), vec![bind(Some(pictured.id())), from_image, bind(None)]);
}

#[test]
fn a_texture_without_a_device_texture_is_refused() {
    let mut gl = Gl::fresh();
    let result = Texture::new(
        &mut gl,
        false,
        4,
        4,
        TextureType::Byte,
        TextureFormat::Rgba,
        TextureContent::Bytes(vec![0; 64]),
    );
    assert_eq!(result.err(), Some(GlError::TextureAllocationError));
    assert!(!gl.is_live(0));
    assert!(gl.take_calls().is_empty());
}

#[test]
fn a_filter_is_written_only_when_it_changes() {
    let mut gl = Gl::fresh();
    let texture = rgba(&mut gl, 2, 2);
    texture.set_filter(&mut gl, TextureFilter::Linear);
    assert!(gl.take_calls().is_empty());
    texture.set_filter(&mut gl, TextureFilter::Nearest);
    assert_eq!(texture.filter(&gl), TextureFilter::Nearest);
    assert_eq!(
        sent(&mut gl),
        vec![
            bind(Some(texture.id())),
            parameter(Context::TEXTURE_MAG_FILTER, Context::NEAREST),
            parameter(Context::TEXTURE_MIN_FILTER, Context::NEAREST),
            bind(None),
        ]
    );
    let shared = texture.share(&mut gl);
    assert_eq!(shared.filter(&gl), TextureFilter::Nearest);
    shared.set_filter(&mut gl, TextureFilter::Nearest);
    assert!(gl.take_calls().is_empty());
}

#[test]
fn a_buffer_of_the_wrong_length_is_refused_before_any_device_call() {
    let mut gl = Gl::fresh();
    let texture = rgba(&mut gl, 4, 4);
    let wrong = GlError::InvalidBufferSize { expected: 64, received: 10 };
    assert_eq!(texture.read_pixels_into_buffer(&mut gl, true, 10), Err(wrong.clone()));
    assert_eq!(texture.read_pixels_into_array(&mut gl, true, 10), Err(wrong.clone()));
    assert_eq!(texture.check_buffer_size(&gl, 4, 10), Err(wrong));
    assert_eq!(texture.check_buffer_size(&gl, 4, 64), Ok(()));
    assert_eq!(
        texture.read_pixels_into_array(&mut gl, true, 65),
        Err(GlError::InvalidBufferSize { expected: 64, received: 65 })
    );
    assert!(gl.take_calls().is_empty());
    assert_eq!(texture.byte_size(&gl, 4), Some(64));
    assert_eq!(texture.byte_size(&gl, 3), Some(48));
    assert_eq!(texture.byte_size(&gl, 0), Some(0));
}

#[test]
fn pixels_are_read_through_a_frame_buffer_made_for_the_occasion() {
    let mut gl = Gl::fresh();
    let texture = rgba(&mut gl, 4, 4);
    let id = texture.id();
    let frame = id + 1;
    let expected = vec![
        bind_frame(Some(frame)),
        attach(id),
        bind_frame(None),
        bind_frame(Some(frame)),
        DeviceCall::ReadPixels {
            x: 0,
            y: 0,
            width: 4,
            height: 4,
            format: Context::RGBA,
            data_type: Context::UNSIGNED_BYTE,
        },
        bind_frame(None),
        DeviceCall::DeleteFramebuffer { framebuffer: frame },
    ];
    assert_eq!(texture.read_pixels_into_array(&mut gl, true, 64), Ok(()));
    assert_eq!(sent(&mut gl), expected);
    assert!(!gl.is_live(frame));
    assert!(texture.is_held(&gl));
    assert_eq!(texture.read_pixels_into_buffer(&mut gl, true, 64), Ok(()));
    assert_eq!(sent(&mut gl).len(), 7);
    assert_eq!(texture.read_pixels_array(&mut gl, true), Ok(64));
    assert_eq!(sent(&mut gl).len(), 7);
    assert_eq!(texture.read_pixels_buffer(&mut gl, true), Ok(64));
    assert_eq!(sent(&mut gl).len(), 7);
}

#[test]
fn a_read_back_without_a_frame_buffer_fails() {
    let mut gl = Gl::fresh();
    let texture = rgba(&mut gl, 4, 4);
    assert_eq!(texture.read_pixels_into_array(&mut gl, false, 64), Err(GlError::FrameBufferError));
    assert_eq!(texture.read_pixels_into_buffer(&mut gl, false, 64), Err(GlError::FrameBufferError));
    assert_eq!(texture.read_pixels_array(&mut gl, false), Err(GlError::FrameBufferError));
    assert_eq!(texture.read_pixels_buffer(&mut gl, false), Err(GlError::FrameBufferError));
    assert_eq!(texture.clear(&mut gl, false, 0, 0, 0, 0), Err(GlError::FrameBufferError));
    assert!(gl.take_calls().is_empty());
}

#[test]
fn only_textures_of_bytes_are_read_into_a_byte_buffer() {
    let mut gl = Gl::fresh();
    let make = |gl: &mut Gl, data_type: TextureType, format: TextureFormat| {
        let texture =
            Texture::new(gl, true, 4, 4, data_type, format, TextureContent::Empty).unwrap();
        gl.take_calls();
        texture
    };
    let float = make(&mut gl, TextureType::Float, TextureFormat::Rgba);
    assert_eq!(
        float.read_pixels_into_buffer(&mut gl, true, 64),
        Err(GlError::ReadPixelsError(Some("Invalid texture data type Float".to_string())))
    );
    let half = make(&mut gl, TextureType::HalfFloat, TextureFormat::Rgba);
    assert_eq!(
        half.read_pixels_buffer(&mut gl, true),
        Err(GlError::ReadPixelsError(Some("Invalid texture data type HalfFloat".to_string())))
    );
    let rgb = make(&mut gl, TextureType::Byte, TextureFormat::Rgb);
    assert_eq!(rgb.read_pixels_into_buffer(&mut gl, true, 48), Ok(()));
    let wide = make(&mut gl, TextureType::Byte, TextureFormat::Alpha);
    assert_eq!(wide.byte_size(&gl, 1), Some(16));
    assert_eq!(
        wide.read_pixels_into_buffer(&mut gl, true, 64),
        Err(GlError::InvalidBufferSize { expected: 16, received: 64 })
    );
    assert_eq!(wide.read_pixels_into_buffer(&mut gl, true, 16), Ok(()));
    gl.take_calls();
    assert_eq!(
        rgb.read_pixels_into_buffer(&mut gl, true, 64),
        Err(GlError::InvalidBufferSize { expected: 48, received: 64 })
    );
    assert_eq!(
        rgb.read_pixels_buffer(&mut gl, true),
        Err(GlError::InvalidBufferSize { expected: 48, received: 64 })
    );
    assert_eq!(float.read_pixels_into_array(&mut gl, true, 64), Ok(()));
    gl.take_calls();
    assert!(gl.take_calls().is_empty());
}

#[test]
fn a_texture_is_cleared_under_its_colour_and_its_own_viewport() {
    let mut gl = Gl::fresh();
    let texture = rgba(&mut gl, 16, 8);
    let id = texture.id();
    let frame = id + 1;
    let one = 1.0f32.to_bits();
    let half = 0.5f32.to_bits();
    assert_eq!(texture.clear(&mut gl, true, one, half, 0, one), Ok(()));
    assert_eq!(
        sent(&mut gl),
        vec![
            bind_frame(Some(frame)),
            attach(id),
            bind_frame(None),
            DeviceCall::ClearColor { red: one, green: half, blue: 0, alpha: one },
            DeviceCall::Viewport { x: 0, y: 0, width: 16, height: 8 },
            bind_frame(Some(frame)),
            DeviceCall::Clear { mask: Context::COLOR_BUFFER_BIT },
            bind_frame(None),
            DeviceCall::Viewport { x: 0, y: 0, width: 0, height: 0 },
            DeviceCall::ClearColor { red: 0, green: 0, blue: 0, alpha: 0 },
            DeviceCall::DeleteFramebuffer { framebuffer: frame },
        ]
    );
    assert!(texture.is_held(&gl));
}

#[test]
fn sizes_beyond_32_bits_have_no_byte_size() {
    let mut gl = Gl::fresh();
    let texture = rgba(&mut gl, 0x1_0000, 0x1_0000);
    assert_eq!(texture.byte_size(&gl, 1), None);
    assert_eq!(texture.byte_size(&gl, 4), None);
    let wide = rgba(&mut gl, 0x4000_0000, 1);
    assert_eq!(wide.byte_size(&gl, 3), Some(0xC000_0000));
    assert_eq!(wide.byte_size(&gl, 4), None);
    let huge = rgba(&mut gl, u32::MAX, u32::MAX);
    assert_eq!(huge.byte_size(&gl, 4), None);
}

#[test]
fn a_device_failure_is_named_after_the_call_that_failed() {
    let message = Some("security".to_string());
    assert_eq!(
        device_failure(&image(1, 1, Context::RGBA, Context::UNSIGNED_BYTE, true), message.clone()),
        GlError::WritePixelsError(message.clone())
    );
    assert_eq!(
        device_failure(&image(1, 1, Context::RGBA, Context::UNSIGNED_BYTE, false), None),
        GlError::InitTextureBufferError(None)
    );
    let from_image = DeviceCall::TexImage2dImage {
        target: Context::TEXTURE_2D,
        level: 0,
        internal_format: Context::RGBA as i32,
        format: Context::RGBA,
        data_type: Context::UNSIGNED_BYTE,
        texture: 0,
    };
    assert_eq!(device_failure(&from_image, message.clone()), GlError::WritePixelsError(message.clone()));
    let read = DeviceCall::ReadPixels {
        x: 0,
        y: 0,
        width: 1,
        height: 1,
        format: Context::RGBA,
        data_type: Context::UNSIGNED_BYTE,
    };
    assert_eq!(device_failure(&read, message.clone()), GlError::ReadPixelsError(message.clone()));
    assert_eq!(
        device_failure(&DeviceCall::Clear { mask: 0 }, message.clone()),
        GlError::UnknownError(message)
    );
}
