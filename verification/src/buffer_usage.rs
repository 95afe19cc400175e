use vstd::prelude::*;

verus! {

/// How often the contents of a buffer are expected to change.
#[derive(Clone, Copy, Debug, PartialEq, Eq, Structural)]
pub enum BufferUsage {
    /// The contents are written once and used at most a few times.
    Stream,
    /// The contents are written once and used many times.
    Static,
    /// The contents are written again and again and used many times.
    Dynamic,
}

impl BufferUsage {
    /// The device's numeric code of this value.
    pub open spec fn spec_code(self) -> u32 {
        match self {
            BufferUsage::Stream => 0x88E0,
            BufferUsage::Static => 0x88E4,
            BufferUsage::Dynamic => 0x88E8,
        }
    }

    /// The device's numeric code of this value.
    #[verifier::when_used_as_spec(spec_code)]
    pub fn code(self) -> (code: u32)
        ensures
            code == self.spec_code(),
    {
        match self {
            BufferUsage::Stream => 0x88E0,
            BufferUsage::Static => 0x88E4,
            BufferUsage::Dynamic => 0x88E8,
        }
    }

    /// The value with the given device code, if there is one.
    pub fn from_code(code: u32) -> (value: Option<BufferUsage>)
        ensures
            match value {
                Some(v) => v.spec_code() == code,
                None => forall|v: BufferUsage| v.spec_code() != code,
            },
    {
        if code == 0x88E0 {
            Some(BufferUsage::Stream)
        } else if code == 0x88E4 {
            Some(BufferUsage::Static)
        } else if code == 0x88E8 {
            Some(BufferUsage::Dynamic)
        } else {
            None
        }
    }
}

impl From<BufferUsage> for u32 {
    fn from(value: BufferUsage) -> (code: u32) {
        value.code()
    }
}

impl vstd::std_specs::convert::FromSpecImpl<BufferUsage> for u32 {
    open spec fn obeys_from_spec() -> bool {
        true
    }

    open spec fn from_spec(value: BufferUsage) -> u32 {
        value.spec_code()
    }
}

} // verus!
