use web_sys::{OesTextureHalfFloat, WebGlRenderingContext as Context};
use webgl_rc::device::{
    as_signed, ARRAY_BUFFER, BLEND, CLAMP_TO_EDGE, COLOR_ATTACHMENT0, COLOR_BUFFER_BIT,
    DEPTH_ATTACHMENT, DEPTH_BUFFER_BIT, DEPTH_COMPONENT16, DEPTH_TEST, ELEMENT_ARRAY_BUFFER,
    FRAMEBUFFER, RENDERBUFFER, TEXTURE0, TEXTURE_2D, TEXTURE_MAG_FILTER, TEXTURE_MIN_FILTER,
    TEXTURE_WRAP_S, TEXTURE_WRAP_T,
};
use webgl_rc::{
    DataType, UniformValue, BlendEquation, BlendFunction, BufferUsage, ColorMask, CullFace, DepthFunction,
    PrimitiveType, TextureFilter, TextureFormat, TextureType, TEXTURES_COUNT,
};

#[test]
fn device_constants_are_those_of_the_context() {
    assert_eq!(ARRAY_BUFFER, Context::ARRAY_BUFFER);
    assert_eq!(ELEMENT_ARRAY_BUFFER, Context::ELEMENT_ARRAY_BUFFER);
    assert_eq!(BLEND, Context::BLEND);
    assert_eq!(DEPTH_TEST, Context::DEPTH_TEST);
    assert_eq!(TEXTURE_2D, Context::TEXTURE_2D);
    assert_eq!(TEXTURE0, Context::TEXTURE0);
    assert_eq!(RENDERBUFFER, Context::RENDERBUFFER);
    assert_eq!(FRAMEBUFFER, Context::FRAMEBUFFER);
    assert_eq!(COLOR_BUFFER_BIT, Context::COLOR_BUFFER_BIT);
    assert_eq!(DEPTH_BUFFER_BIT, Context::DEPTH_BUFFER_BIT);
    assert_eq!(TEXTURE_WRAP_S, Context::TEXTURE_WRAP_S);
    assert_eq!(TEXTURE_WRAP_T, Context::TEXTURE_WRAP_T);
    assert_eq!(CLAMP_TO_EDGE, Context::CLAMP_TO_EDGE as i32);
    assert_eq!(TEXTURE_MAG_FILTER, Context::TEXTURE_MAG_FILTER);
    assert_eq!(TEXTURE_MIN_FILTER, Context::TEXTURE_MIN_FILTER);
    assert_eq!(DEPTH_COMPONENT16, Context::DEPTH_COMPONENT16);
    assert_eq!(COLOR_ATTACHMENT0, Context::COLOR_ATTACHMENT0);
    assert_eq!(DEPTH_ATTACHMENT, Context::DEPTH_ATTACHMENT);
    assert_eq!(TEXTURES_COUNT, 16);
}

#[test]
fn buffer_usage_codes() {
    assert_eq!(BufferUsage::Stream.code(), Context::STREAM_DRAW);
    assert_eq!(BufferUsage::Static.code(), Context::STATIC_DRAW);
    assert_eq!(BufferUsage::Dynamic.code(), Context::DYNAMIC_DRAW);
    for usage in [BufferUsage::Stream, BufferUsage::Static, BufferUsage::Dynamic] {
        assert_eq!(BufferUsage::from_code(usage.code()), Some(usage));
    }
    assert_eq!(BufferUsage::from_code(0), None);
}

#[test]
fn blend_function_codes() {
    let all = [
        (BlendFunction::Zero, Context::ZERO),
        (BlendFunction::One, Context::ONE),
        (BlendFunction::SrcColor, Context::SRC_COLOR),
        (BlendFunction::OneMinusSrcColor, Context::ONE_MINUS_SRC_COLOR),
        (BlendFunction::DstColor, Context::DST_COLOR),
        (BlendFunction::OneMinusDstColor, Context::ONE_MINUS_DST_COLOR),
        (BlendFunction::SrcAlpha, Context::SRC_ALPHA),
        (BlendFunction::OneMinusSrcAlpha, Context::ONE_MINUS_SRC_ALPHA),
        (BlendFunction::DstAlpha, Context::DST_ALPHA),
        (BlendFunction::OneMinusDstAlpha, Context::ONE_MINUS_DST_ALPHA),
        (BlendFunction::SrcAlphaSaturate, Context::SRC_ALPHA_SATURATE),
    ];
    for (value, code) in all {
        assert_eq!(value.code(), code);
        assert_eq!(BlendFunction::from_code(code), Some(value));
    }
    assert_eq!(BlendFunction::from_code(2), None);
}

#[test]
fn cull_face_codes_and_default() {
    let all = [
        (CullFace::Front, Context::FRONT),
        (CullFace::Back, Context::BACK),
        (CullFace::FrontAndBack, Context::FRONT_AND_BACK),
    ];
    for (value, code) in all {
        assert_eq!(value.code(), code);
        assert_eq!(CullFace::from_code(code), Some(value));
    }
    assert_eq!(CullFace::from_code(0), None);
    assert_eq!(CullFace::default(), CullFace::Back);
}

#[test]
fn blend_equation_codes_and_default() {
    let all = [
        (BlendEquation::Add, Context::FUNC_ADD),
        (BlendEquation::Sub, Context::FUNC_SUBTRACT),
        (BlendEquation::RSub, Context::FUNC_REVERSE_SUBTRACT),
    ];
    for (value, code) in all {
        assert_eq!(value.code(), code);
        assert_eq!(BlendEquation::from_code(code), Some(value));
    }
    assert_eq!(BlendEquation::from_code(1), None);
    assert_eq!(BlendEquation::default(), BlendEquation::Add);
}

#[test]
fn depth_function_codes_and_default() {
    let all = [
        (DepthFunction::Never, Context::NEVER),
        (DepthFunction::Less, Context::LESS),
        (DepthFunction::Equal, Context::EQUAL),
        (DepthFunction::LEqual, Context::LEQUAL),
        (DepthFunction::Greater, Context::GREATER),
        (DepthFunction::NotEqual, Context::NOTEQUAL),
        (DepthFunction::GEqual, Context::GEQUAL),
        (DepthFunction::Always, Context::ALWAYS),
    ];
    for (value, code) in all {
        assert_eq!(value.code(), code);
        assert_eq!(DepthFunction::from_code(code), Some(value));
    }
    assert_eq!(DepthFunction::from_code(520), None);
    assert_eq!(DepthFunction::default(), DepthFunction::Less);
}

#[test]
fn primitive_type_codes() {
    let all = [
        (PrimitiveType::Points, Context::POINTS),
        (PrimitiveType::LineStrip, Context::LINE_STRIP),
        (PrimitiveType::LineLoop, Context::LINE_LOOP),
        (PrimitiveType::Lines, Context::LINES),
        (PrimitiveType::TriangleStrip, Context::TRIANGLE_STRIP),
        (PrimitiveType::TriangleFan, Context::TRIANGLE_FAN),
        (PrimitiveType::Triangles, Context::TRIANGLES),
    ];
    for (value, code) in all {
        assert_eq!(value.code(), code);
        assert_eq!(PrimitiveType::from_code(code), Some(value));
    }
    assert_eq!(PrimitiveType::from_code(7), None);
}

#[test]
fn texture_codes_and_default_filter() {
    assert_eq!(TextureFilter::Nearest.code(), Context::NEAREST as i32);
    assert_eq!(TextureFilter::Linear.code(), Context::LINEAR as i32);
    assert_eq!(TextureFilter::from_code(Context::NEAREST as i32), Some(TextureFilter::Nearest));
    assert_eq!(TextureFilter::from_code(Context::LINEAR as i32), Some(TextureFilter::Linear));
    assert_eq!(TextureFilter::from_code(-1), None);
    assert_eq!(TextureFilter::default(), TextureFilter::Linear);
    let types = [
        (TextureType::Byte, Context::UNSIGNED_BYTE),
        (TextureType::Float, Context::FLOAT),
        (TextureType::HalfFloat, OesTextureHalfFloat::HALF_FLOAT_OES),
    ];
    for (value, code) in types {
        assert_eq!(value.code(), code);
        assert_eq!(TextureType::from_code(code), Some(value));
    }
    assert_eq!(TextureType::from_code(0), None);
    let formats = [
        (TextureFormat::Alpha, Context::ALPHA, 1),
        (TextureFormat::Luminance, Context::LUMINANCE, 1),
        (TextureFormat::LuminanceAlpha, Context::LUMINANCE_ALPHA, 2),
        (TextureFormat::Rgb, Context::RGB, 3),
        (TextureFormat::Rgba, Context::RGBA, 4),
    ];
    for (value, code, channels) in formats {
        assert_eq!(value.code(), code);
        assert_eq!(TextureFormat::from_code(code), Some(value));
        assert_eq!(value.channels(), channels);
    }
    assert_eq!(TextureFormat::from_code(0), None);
}

#[test]
fn color_mask_default_writes_every_channel() {
    assert_eq!(ColorMask::default(), ColorMask(true, true, true, true));
}

#[test]
fn as_signed_keeps_the_bits() {
    assert_eq!(as_signed(0), 0);
    assert_eq!(as_signed(640), 640);
    assert_eq!(as_signed(0x7fff_ffff), i32::MAX);
    assert_eq!(as_signed(0x8000_0000), i32::MIN);
    assert_eq!(as_signed(u32::MAX), -1);
    for value in [0u32, 1, 0x7fff_ffff, 0x8000_0000, 0x8000_0001, u32::MAX] {
        assert_eq!(as_signed(value), value as i32);
    }
}

#[test]
fn values_convert_into_their_codes() {
    assert_eq!(u32::from(DataType::Vec2), Context::FLOAT_VEC2);
    assert_eq!(u32::from(BufferUsage::Static), Context::STATIC_DRAW);
    assert_eq!(u32::from(BlendFunction::DstAlpha), Context::DST_ALPHA);
    assert_eq!(u32::from(CullFace::FrontAndBack), Context::FRONT_AND_BACK);
    assert_eq!(u32::from(BlendEquation::RSub), Context::FUNC_REVERSE_SUBTRACT);
    assert_eq!(u32::from(DepthFunction::Always), Context::ALWAYS);
    assert_eq!(u32::from(PrimitiveType::TriangleFan), Context::TRIANGLE_FAN);
    assert_eq!(i32::from(TextureFilter::Nearest), Context::NEAREST as i32);
    assert_eq!(u32::from(TextureType::HalfFloat), OesTextureHalfFloat::HALF_FLOAT_OES);
    assert_eq!(u32::from(TextureFormat::Luminance), Context::LUMINANCE);
    let mode: u32 = PrimitiveType::Lines.into();
    assert_eq!(mode, Context::LINES);
    assert_eq!(UniformValue::from(true), UniformValue::Boolean(true));
    assert_eq!(UniformValue::from(false), UniformValue::Boolean(false));
}
