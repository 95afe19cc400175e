use crate::device::DeviceCall;
use crate::texture::{TextureFilter, TextureFormat, TextureType};
use crate::types::DataType;
use vstd::prelude::*;

verus! {

/// An active attribute of a linked program: its name, the slot the device gave
/// it and its type.
#[derive(Debug, PartialEq, Eq)]
pub struct AttributeInfo {
    pub name: String,
    pub location: u32,
    pub data_type: DataType,
}

/// An active uniform of a linked program: its name, its location among the
/// program's uniforms and its type.
#[derive(Debug, PartialEq, Eq)]
pub struct UniformInfo {
    pub name: String,
    pub location: u32,
    pub data_type: DataType,
}

/// What an [`AttributeInfo`] or a [`UniformInfo`] says.
pub struct SlotView {
    pub name: Seq<char>,
    pub location: u32,
    pub data_type: DataType,
}

impl View for AttributeInfo {
    type V = SlotView;

    open spec fn view(&self) -> SlotView {
        SlotView { name: self.name@, location: self.location, data_type: self.data_type }
    }
}

impl View for UniformInfo {
    type V = SlotView;

    open spec fn view(&self) -> SlotView {
        SlotView { name: self.name@, location: self.location, data_type: self.data_type }
    }
}

/// What the library knows of a device object, by family.
#[derive(Debug, PartialEq, Eq)]
pub enum Body {
    ArrayBuffer { length: usize },
    ElementsBuffer { length: usize },
    Texture {
        width: u32,
        height: u32,
        data_type: TextureType,
        format: TextureFormat,
        filter: TextureFilter,
    },
    DepthBuffer { width: u32, height: u32 },
    FrameBuffer { color_buffer: Option<u64>, depth_buffer: Option<u64> },
    Program {
        vertex_source: String,
        fragment_source: String,
        attributes: Vec<AttributeInfo>,
        uniforms: Vec<UniformInfo>,
    },
}

impl Body {
    /// Whether this is a frame buffer to which the device object `id` is attached.
    pub open spec fn attaches(self, id: u64) -> bool {
        match self {
            Body::FrameBuffer { color_buffer, depth_buffer } => color_buffer == Some(id)
                || depth_buffer == Some(id),
            _ => false,
        }
    }

    /// Whether this is a frame buffer to which the device object `id` is attached.
    pub fn has_attached(&self, id: u64) -> (found: bool)
        ensures
            found == self.attaches(id),
    {
        match self {
            Body::FrameBuffer { color_buffer, depth_buffer } => *color_buffer == Some(id)
                || *depth_buffer == Some(id),
            _ => false,
        }
    }

    /// The device call that releases an object of this family.
    pub open spec fn spec_release_call(self, id: u64) -> DeviceCall {
        match self {
            Body::ArrayBuffer { .. } => DeviceCall::DeleteBuffer { buffer: id },
            Body::ElementsBuffer { .. } => DeviceCall::DeleteBuffer { buffer: id },
            Body::Texture { .. } => DeviceCall::DeleteTexture { texture: id },
            Body::DepthBuffer { .. } => DeviceCall::DeleteRenderbuffer { renderbuffer: id },
            Body::FrameBuffer { .. } => DeviceCall::DeleteFramebuffer { framebuffer: id },
            Body::Program { .. } => DeviceCall::DeleteProgram { program: id },
        }
    }

    /// The device call that releases an object of this family.
    pub fn release_call(&self, id: u64) -> (call: DeviceCall)
        ensures
            call == self.spec_release_call(id),
            call.released() == Some(id),
    {
        match self {
            Body::ArrayBuffer { .. } => DeviceCall::DeleteBuffer { buffer: id },
            Body::ElementsBuffer { .. } => DeviceCall::DeleteBuffer { buffer: id },
            Body::Texture { .. } => DeviceCall::DeleteTexture { texture: id },
            Body::DepthBuffer { .. } => DeviceCall::DeleteRenderbuffer { renderbuffer: id },
            Body::FrameBuffer { .. } => DeviceCall::DeleteFramebuffer { framebuffer: id },
            Body::Program { .. } => DeviceCall::DeleteProgram { program: id },
        }
    }
}

/// A device object as the library tracks it: its identifier, the number of
/// handles that callers hold on it, and what is known of it.
#[derive(Debug, PartialEq, Eq)]
pub struct Object {
    pub id: u64,
    pub handles: u64,
    pub body: Body,
}

} // verus!
