use crate::gl::GlError;
use vstd::prelude::*;

verus! {

/// Type of a shader interface variable: an attribute, a uniform or a field of a
/// vertex layout.
#[derive(Clone, Copy, Debug, PartialEq, Eq, Hash, Structural)]
pub enum DataType {
    Boolean,
    Float,
    Vec2,
    Vec3,
    Vec4,
    Mat2,
    Mat3,
    Mat4,
    Sampler,
}

/// Device code of a boolean variable.
pub const BOOL: u32 = 0x8B56;

/// Device code of a single-precision scalar (also the component type of vertex data
/// and of floating-point textures).
pub const FLOAT: u32 = 0x1406;

pub const FLOAT_VEC2: u32 = 0x8B50;

pub const FLOAT_VEC3: u32 = 0x8B51;

pub const FLOAT_VEC4: u32 = 0x8B52;

pub const FLOAT_MAT2: u32 = 0x8B5A;

pub const FLOAT_MAT3: u32 = 0x8B5B;

pub const FLOAT_MAT4: u32 = 0x8B5C;

pub const SAMPLER_2D: u32 = 0x8B5E;

impl DataType {
    /// Number of scalars a value of this type occupies in a vertex buffer; booleans
    /// and samplers cannot be stored there.
    pub open spec fn spec_size_in_floats(self) -> Option<usize> {
        match self {
            DataType::Boolean => None,
            DataType::Float => Some(1usize),
            DataType::Vec2 => Some(2usize),
            DataType::Vec3 => Some(3usize),
            DataType::Vec4 => Some(4usize),
            DataType::Mat2 => Some(4usize),
            DataType::Mat3 => Some(9usize),
            DataType::Mat4 => Some(16usize),
            DataType::Sampler => None,
        }
    }

    /// The device's numeric code of this type.
    pub open spec fn spec_code(self) -> u32 {
        match self {
            DataType::Boolean => BOOL,
            DataType::Float => FLOAT,
            DataType::Vec2 => FLOAT_VEC2,
            DataType::Vec3 => FLOAT_VEC3,
            DataType::Vec4 => FLOAT_VEC4,
            DataType::Mat2 => FLOAT_MAT2,
            DataType::Mat3 => FLOAT_MAT3,
            DataType::Mat4 => FLOAT_MAT4,
            DataType::Sampler => SAMPLER_2D,
        }
    }

    /// The type's name in shader source.
    pub open spec fn spec_name(self) -> Seq<char> {
        match self {
            DataType::Boolean => "bool"@,
            DataType::Float => "float"@,
            DataType::Vec2 => "vec2"@,
            DataType::Vec3 => "vec3"@,
            DataType::Vec4 => "vec4"@,
            DataType::Mat2 => "mat2"@,
            DataType::Mat3 => "mat3"@,
            DataType::Mat4 => "mat4"@,
            DataType::Sampler => "sampler2D"@,
        }
    }

    #[verifier::when_used_as_spec(spec_size_in_floats)]
    pub fn size_in_floats(self) -> (size: Option<usize>)
        ensures
            size == self.spec_size_in_floats(),
            self.is_numeric() <==> size is Some,
    {
        match self {
            DataType::Boolean => None,
            DataType::Float => Some(1),
            DataType::Vec2 => Some(2),
            DataType::Vec3 => Some(3),
            DataType::Vec4 => Some(4),
            DataType::Mat2 => Some(4),
            DataType::Mat3 => Some(9),
            DataType::Mat4 => Some(16),
            DataType::Sampler => None,
        }
    }

    pub open spec fn spec_is_numeric(self) -> bool {
        self != DataType::Boolean && self != DataType::Sampler
    }

    pub open spec fn spec_is_vector(self) -> bool {
        self == DataType::Vec2 || self == DataType::Vec3 || self == DataType::Vec4
    }

    pub open spec fn spec_is_matrix(self) -> bool {
        self == DataType::Mat2 || self == DataType::Mat3 || self == DataType::Mat4
    }

    /// Whether values of this type are made of single-precision scalars.
    #[verifier::when_used_as_spec(spec_is_numeric)]
    pub fn is_numeric(self) -> (b: bool)
        ensures
            b == self.spec_is_numeric(),
    {
        self != DataType::Boolean && self != DataType::Sampler
    }

    #[verifier::when_used_as_spec(spec_is_vector)]
    pub fn is_vector(self) -> (b: bool)
        ensures
            b == self.spec_is_vector(),
    {
        self == DataType::Vec2 || self == DataType::Vec3 || self == DataType::Vec4
    }

    #[verifier::when_used_as_spec(spec_is_matrix)]
    pub fn is_matrix(self) -> (b: bool)
        ensures
            b == self.spec_is_matrix(),
    {
        self == DataType::Mat2 || self == DataType::Mat3 || self == DataType::Mat4
    }

    /// The type's name in shader source.
    pub fn name(self) -> (name: &'static str)
        ensures
            name@ == self.spec_name(),
    {
        match self {
            DataType::Boolean => "bool",
            DataType::Float => "float",
            DataType::Vec2 => "vec2",
            DataType::Vec3 => "vec3",
            DataType::Vec4 => "vec4",
            DataType::Mat2 => "mat2",
            DataType::Mat3 => "mat3",
            DataType::Mat4 => "mat4",
            DataType::Sampler => "sampler2D",
        }
    }

    /// The type with the given device code, if there is one.
    pub open spec fn spec_from_code(value: u32) -> Option<DataType> {
        if value == BOOL {
            Some(DataType::Boolean)
        } else if value == FLOAT {
            Some(DataType::Float)
        } else if value == FLOAT_VEC2 {
            Some(DataType::Vec2)
        } else if value == FLOAT_VEC3 {
            Some(DataType::Vec3)
        } else if value == FLOAT_VEC4 {
            Some(DataType::Vec4)
        } else if value == FLOAT_MAT2 {
            Some(DataType::Mat2)
        } else if value == FLOAT_MAT3 {
            Some(DataType::Mat3)
        } else if value == FLOAT_MAT4 {
            Some(DataType::Mat4)
        } else if value == SAMPLER_2D {
            Some(DataType::Sampler)
        } else {
            None
        }
    }

    /// The type with the given device code; any other code is an unsupported type.
    pub fn try_from(value: u32) -> (result: Result<DataType, GlError>)
        ensures
            match result {
                Ok(data_type) => data_type.spec_code() == value && Self::spec_from_code(value)
                    == Some(data_type),
                Err(error) => error == GlError::UnsupportedType(None) && Self::spec_from_code(
                    value,
                ) is None && forall|t: DataType| t.spec_code() != value,
            },
    {
        if value == BOOL {
            Ok(DataType::Boolean)
        } else if value == FLOAT {
            Ok(DataType::Float)
        } else if value == FLOAT_VEC2 {
            Ok(DataType::Vec2)
        } else if value == FLOAT_VEC3 {
            Ok(DataType::Vec3)
        } else if value == FLOAT_VEC4 {
            Ok(DataType::Vec4)
        } else if value == FLOAT_MAT2 {
            Ok(DataType::Mat2)
        } else if value == FLOAT_MAT3 {
            Ok(DataType::Mat3)
        } else if value == FLOAT_MAT4 {
            Ok(DataType::Mat4)
        } else if value == SAMPLER_2D {
            Ok(DataType::Sampler)
        } else {
            Err(GlError::UnsupportedType(None))
        }
    }

    /// The device's numeric code of this type.
    #[verifier::when_used_as_spec(spec_code)]
    pub fn code(self) -> (code: u32)
        ensures
            code == self.spec_code(),
    {
        match self {
            DataType::Boolean => BOOL,
            DataType::Float => FLOAT,
            DataType::Vec2 => FLOAT_VEC2,
            DataType::Vec3 => FLOAT_VEC3,
            DataType::Vec4 => FLOAT_VEC4,
            DataType::Mat2 => FLOAT_MAT2,
            DataType::Mat3 => FLOAT_MAT3,
            DataType::Mat4 => FLOAT_MAT4,
            DataType::Sampler => SAMPLER_2D,
        }
    }
}

impl From<DataType> for u32 {
    fn from(data_type: DataType) -> (code: u32) {
        data_type.code()
    }
}

impl vstd::std_specs::convert::FromSpecImpl<DataType> for u32 {
    open spec fn obeys_from_spec() -> bool {
        true
    }

    open spec fn from_spec(data_type: DataType) -> u32 {
        data_type.spec_code()
    }
}

/// Distinct types have distinct device codes, so a code names at most one type.
pub proof fn lemma_code_injective(a: DataType, b: DataType)
    requires
        a.spec_code() == b.spec_code(),
    ensures
        a == b,
{
}

/// A single-precision number, by its bit pattern.
#[derive(Clone, Copy, Debug, PartialEq, Eq, Structural, Hash)]
pub struct Single(pub u32);

/// A type that stands for one shader data type.
pub trait TypeMark {
    /// The shader data type that the type stands for. An implementation says
    /// which it is; nothing is known of it where it does not.
    open spec fn spec_data_type() -> DataType {
        arbitrary()
    }

    fn data_type() -> (data_type: DataType)
        ensures
            data_type == Self::spec_data_type(),
    ;
}

} // verus!
