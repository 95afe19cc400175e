use vstd::prelude::*;

verus! {

/// Binding point of vertex data.
pub const ARRAY_BUFFER: u32 = 0x8892;

/// Binding point of element indices.
pub const ELEMENT_ARRAY_BUFFER: u32 = 0x8893;

/// Capability: blending of fragments into the colour buffer.
pub const BLEND: u32 = 0x0BE2;

/// Capability: the depth test.
pub const DEPTH_TEST: u32 = 0x0B71;

/// Binding point of two-dimensional textures.
pub const TEXTURE_2D: u32 = 0x0DE1;

/// Device code of texture unit 0; unit `i` has code `TEXTURE0 + i`.
pub const TEXTURE0: u32 = 0x84C0;

/// Binding point of render buffers.
pub const RENDERBUFFER: u32 = 0x8D41;

/// Binding point of frame buffers.
pub const FRAMEBUFFER: u32 = 0x8D40;

pub const COLOR_BUFFER_BIT: u32 = 0x4000;

pub const DEPTH_BUFFER_BIT: u32 = 0x0100;

pub const TEXTURE_WRAP_S: u32 = 0x2802;

pub const TEXTURE_WRAP_T: u32 = 0x2803;

pub const CLAMP_TO_EDGE: i32 = 0x812F;

pub const TEXTURE_MAG_FILTER: u32 = 0x2800;

pub const TEXTURE_MIN_FILTER: u32 = 0x2801;

pub const DEPTH_COMPONENT16: u32 = 0x81A5;

pub const COLOR_ATTACHMENT0: u32 = 0x8CE0;

pub const DEPTH_ATTACHMENT: u32 = 0x8D00;

/// One of the two stages of a program.
#[derive(Clone, Copy, Debug, PartialEq, Eq, Structural)]
pub enum ShaderStage {
    Vertex,
    Fragment,
}

/// One call on the device, with the arguments it is made with. Device objects are
/// named by the identifiers this library gave them; floating-point arguments are
/// carried as the bit patterns of single-precision numbers.
#[allow(inconsistent_fields)]
#[derive(Clone, Copy, Debug, PartialEq, Eq)]
pub enum DeviceCall {
    Enable { capability: u32 },
    Disable { capability: u32 },
    BlendEquationSeparate { mode_rgb: u32, mode_alpha: u32 },
    BlendFuncSeparate { src_rgb: u32, dst_rgb: u32, src_alpha: u32, dst_alpha: u32 },
    DepthFunc { func: u32 },
    CullFace { mode: u32 },
    ColorMask { red: bool, green: bool, blue: bool, alpha: bool },
    ClearColor { red: u32, green: u32, blue: u32, alpha: u32 },
    ClearDepth { depth: u32 },
    Viewport { x: i32, y: i32, width: i32, height: i32 },
    Clear { mask: u32 },
    ActiveTexture { texture: u32 },
    BindTexture { target: u32, texture: Option<u64> },
    BindBuffer { target: u32, buffer: Option<u64> },
    BindRenderbuffer { target: u32, renderbuffer: Option<u64> },
    BindFramebuffer { target: u32, framebuffer: Option<u64> },
    UseProgram { program: Option<u64> },
    EnableVertexAttribArray { index: u32 },
    DisableVertexAttribArray { index: u32 },
    /// Sets the instancing divisor of an attribute slot.
    VertexAttribDivisor { index: u32, divisor: u32 },
    VertexAttribPointer {
        index: u32,
        size: i32,
        data_type: u32,
        normalized: bool,
        stride: i32,
        offset: i32,
    },
    /// Uploads the words of the command as the contents of the buffer bound to
    /// `target`.
    BufferData { target: u32, usage: u32 },
    TexParameteri { target: u32, name: u32, value: i32 },
    /// Allocates the bound texture, with the bytes of the command as its texels
    /// where `with_pixels` is set and without contents where it is not.
    TexImage2d {
        target: u32,
        level: i32,
        internal_format: i32,
        width: i32,
        height: i32,
        border: i32,
        format: u32,
        data_type: u32,
        with_pixels: bool,
    },
    /// Fills the bound texture from the image that the caller holds for `texture`.
    TexImage2dImage {
        target: u32,
        level: i32,
        internal_format: i32,
        format: u32,
        data_type: u32,
        texture: u64,
    },
    RenderbufferStorage { target: u32, internal_format: u32, width: i32, height: i32 },
    FramebufferTexture2d {
        target: u32,
        attachment: u32,
        texture_target: u32,
        texture: Option<u64>,
        level: i32,
    },
    FramebufferRenderbuffer {
        target: u32,
        attachment: u32,
        renderbuffer_target: u32,
        renderbuffer: Option<u64>,
    },
    /// Reads the pixels of the bound frame buffer into the caller's buffer.
    ReadPixels { x: i32, y: i32, width: i32, height: i32, format: u32, data_type: u32 },
    Uniform1i { program: u64, location: u32, value: i32 },
    Uniform1f { program: u64, location: u32, x: u32 },
    Uniform2f { program: u64, location: u32, x: u32, y: u32 },
    Uniform3f { program: u64, location: u32, x: u32, y: u32, z: u32 },
    Uniform4f { program: u64, location: u32, x: u32, y: u32, z: u32, w: u32 },
    /// Writes a vector of `size` components, the words of the command.
    UniformVector { program: u64, location: u32, size: u32 },
    /// Writes a square matrix of `size` rows, the words of the command.
    UniformMatrix { program: u64, location: u32, size: u32, transpose: bool },
    DrawArrays { mode: u32, first: i32, count: i32 },
    DrawArraysInstanced { mode: u32, first: i32, count: i32, instances: i32 },
    DeleteBuffer { buffer: u64 },
    DeleteTexture { texture: u64 },
    DeleteRenderbuffer { renderbuffer: u64 },
    DeleteFramebuffer { framebuffer: u64 },
    /// Releases the program and its two shaders.
    DeleteProgram { program: u64 },
    /// Releases the shader of one stage of the program that was refused last.
    DeleteRefusedShader { stage: ShaderStage },
    /// Releases the program object of the program that was refused last.
    DeleteRefusedProgram,
}

impl DeviceCall {
    /// The device object that this call releases, if it releases one.
    pub open spec fn released(self) -> Option<u64> {
        match self {
            DeviceCall::DeleteBuffer { buffer } => Some(buffer),
            DeviceCall::DeleteTexture { texture } => Some(texture),
            DeviceCall::DeleteRenderbuffer { renderbuffer } => Some(renderbuffer),
            DeviceCall::DeleteFramebuffer { framebuffer } => Some(framebuffer),
            DeviceCall::DeleteProgram { program } => Some(program),
            _ => None,
        }
    }
}

/// A device call together with the data it uploads.
#[derive(Debug, PartialEq, Eq)]
pub struct Command {
    pub call: DeviceCall,
    pub words: Vec<u32>,
    pub bytes: Vec<u8>,
}

/// What a [`Command`] is: the call and the uploaded data.
pub struct Record {
    pub call: DeviceCall,
    pub words: Seq<u32>,
    pub bytes: Seq<u8>,
}

impl View for Command {
    type V = Record;

    open spec fn view(&self) -> Record {
        Record { call: self.call, words: self.words@, bytes: self.bytes@ }
    }
}

/// The record of a call that uploads nothing.
pub open spec fn plain(call: DeviceCall) -> Record {
    Record { call, words: Seq::empty(), bytes: Seq::empty() }
}

/// The records of calls that upload nothing.
pub open spec fn plain_all(calls: Seq<DeviceCall>) -> Seq<Record> {
    Seq::new(calls.len(), |i: int| plain(calls[i]))
}

/// How many calls of `records` release the device object `id`.
pub open spec fn releases(records: Seq<Record>, id: u64) -> nat
    decreases records.len(),
{
    if records.len() == 0 {
        0
    } else {
        releases(records.drop_last(), id) + if records.last().call.released() == Some(id) {
            1nat
        } else {
            0nat
        }
    }
}

/// One more call adds one release where it releases the object, and none
/// otherwise.
pub proof fn lemma_releases_push(records: Seq<Record>, record: Record, id: u64)
    ensures
        releases(records.push(record), id) == releases(records, id) + if record.call.released()
            == Some(id) {
            1nat
        } else {
            0nat
        },
{
    assert(records.push(record).drop_last() =~= records);
}

/// The signed number with the bits of `value`: `value` itself up to the largest
/// signed number, and `value` less two to the power 32 above it.
pub open spec fn spec_as_signed(value: u32) -> i32 {
    if value <= i32::MAX {
        value as i32
    } else {
        (value - 0x1_0000_0000) as i32
    }
}

/// The signed number with the bits of `value`.
#[verifier::when_used_as_spec(spec_as_signed)]
pub fn as_signed(value: u32) -> (signed: i32)
    ensures
        signed == spec_as_signed(value),
{
    if value <= 0x7fff_ffff {
        value as i32
    } else {
        ((value - 0x8000_0000) as i32) + i32::MIN
    }
}

impl Command {
    /// A command that uploads nothing.
    pub fn plain(call: DeviceCall) -> (command: Command)
        ensures
            command@ == plain(call),
    {
        Command { call, words: Vec::new(), bytes: Vec::new() }
    }
}

} // verus!
