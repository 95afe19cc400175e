pub mod buffer_usage;
pub mod cache;
pub mod data_buffer;
pub mod depth_buffer;
pub mod device;
pub mod element_buffer;
pub mod frame_buffer;
pub mod gl;
pub mod glsl;
pub mod impls;
pub mod objects;
pub mod program;
pub mod settings;
pub mod texture;
pub mod types;
pub mod uniforms;

pub use buffer_usage::BufferUsage;
pub use cache::{array_diff, SettingsCache};
pub use data_buffer::{ArrayBuffer, Item, ItemsBuffer, Layout, Writable};
pub use depth_buffer::DepthBuffer;
pub use device::{Command, DeviceCall, ShaderStage};
pub use element_buffer::ElementsBuffer;
pub use frame_buffer::FrameBuffer;
pub use gl::{device_failure, ContextAnswer, Gl, GlError};
pub use program::{
    ActiveInfo, AttributeReport, LinkReport, PrimitiveType, Program, ShaderReport, UniformReport,
};
pub use settings::{
    ActiveTextureSetting, ArrayBufferSetting, BlendEquation, BlendEquationSetting, BlendFunction,
    BlendFunctionSetting, BlendSetting, CachedSetting, ClearColorSetting, ClearDepthSetting,
    ColorMask, CullFace, DepthBufferSetting, DepthFunction, DepthTestSetting,
    ElementBufferSetting, EmptySetting, EnabledAttributesSetting, FrameBufferSetting,
    InstancedAttributesSetting, ProgramSetting, Setting, Settings, TextureFilterSetting,
    TextureListSetting, TextureSetting, ViewportSetting,
};
pub use texture::{
    Texture, TextureContent, TextureFilter, TextureFormat, TextureType, TEXTURES_COUNT,
};
pub use types::{DataType, Single, TypeMark};
pub use uniforms::{Field, IntoUniform, UniformValue, Uniforms};
