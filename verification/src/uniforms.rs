use vstd::prelude::*;

verus! {

/// The value of one uniform; every number is the bit pattern of a
/// single-precision number, and matrices hold their numbers in the order in which
/// the device takes them.
#[derive(Clone, Copy, Debug, PartialEq, Eq)]
pub enum UniformValue {
    /// No value: the uniform is written as zero, and a sampler as no texture
    /// unit at all.
    Unset,
    Boolean(bool),
    Float(u32),
    Vec2([u32; 2]),
    Vec3([u32; 3]),
    Vec4([u32; 4]),
    Mat2([u32; 4]),
    Mat3([u32; 9]),
    Mat4([u32; 16]),
    /// The texture to sample, by its identifier.
    Texture(u64),
}

/// A uniform by name, with its value.
#[derive(Clone, Copy, Debug, PartialEq, Eq)]
pub struct Field {
    pub name: &'static str,
    pub value: UniformValue,
}

/// A value that can be the value of a uniform.
pub trait IntoUniform {
    /// The value as a uniform. An implementation says what it is; nothing is
    /// known of it where it does not.
    open spec fn spec_into_uniform(&self) -> UniformValue {
        arbitrary()
    }

    /// The value as a uniform.
    fn into_uniform(&self) -> (value: UniformValue)
        ensures
            value == self.spec_into_uniform(),
    ;
}

/// A set of uniforms: named values for one draw call.
pub trait Uniforms {
    /// The uniforms, in the order in which they are written. An implementation
    /// says what they are; nothing is known of them where it does not.
    open spec fn spec_uniforms(&self) -> Seq<Field> {
        arbitrary()
    }

    /// The uniforms, in the order in which they are written.
    fn uniforms(&self) -> (fields: Vec<Field>)
        ensures
            fields@ == self.spec_uniforms(),
    ;
}

impl From<bool> for UniformValue {
    fn from(value: bool) -> (uniform: UniformValue) {
        UniformValue::Boolean(value)
    }
}

impl vstd::std_specs::convert::FromSpecImpl<bool> for UniformValue {
    open spec fn obeys_from_spec() -> bool {
        true
    }

    open spec fn from_spec(value: bool) -> UniformValue {
        UniformValue::Boolean(value)
    }
}

} // verus!
