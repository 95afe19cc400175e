use web_sys::WebGlRenderingContext as Context;
use webgl_rc::device::ShaderStage;
use webgl_rc::{
    ActiveInfo, AttributeReport, BufferUsage, Command, DataType, DeviceCall, Field, Gl, GlError,
    IntoUniform, Item, ItemsBuffer, Layout, LinkReport, PrimitiveType, Program, ShaderReport,
    Single, Texture, TextureContent, TextureFormat, TextureType, TypeMark, UniformReport,
    UniformValue, Uniforms, Writable,
};

const VERTEX: &str = "attribute vec2 a_position; void main() {}";
const FRAGMENT: &str = "precision mediump float; void main() {}";

fn plain_calls(commands: &[Command]) -> Vec<DeviceCall> {
    commands.iter().map(|command| command.call).collect()
}

fn number(value: f32) -> Single {
    Single(value.to_bits())
}

#[derive(Clone, Copy, Debug, PartialEq)]
struct Corner {
    position: (Single, Single),
    color: (Single, Single, Single),
}

impl Writable for Corner {
    fn write(&self, output: &mut Vec<u32>) {
        self.position.write(output);
        self.color.write(output);
    }

    fn stride() -> usize {
        <(Single, Single) as Writable>::stride() + <(Single, Single, Single) as Writable>::stride()
    }
}

impl Item for Corner {
    fn layout() -> Vec<Layout> {
        vec![
            Layout { name: "a_position", data_type: <(Single, Single) as TypeMark>::data_type() },
            Layout {
                name: "a_color",
                data_type: <(Single, Single, Single) as TypeMark>::data_type(),
            },
        ]
    }
}

#[derive(Clone, Copy, Debug, PartialEq)]
struct Offset {
    shift: [Single; 2],
    unused: Single,
}

impl Writable for Offset {
    fn write(&self, output: &mut Vec<u32>) {
        self.shift.write(output);
        self.unused.write(output);
    }

    fn stride() -> usize {
        3
    }
}

impl Item for Offset {
    fn layout() -> Vec<Layout> {
        vec![
            Layout { name: "i_shift", data_type: DataType::Vec2 },
            Layout { name: "i_unused", data_type: DataType::Float },
        ]
    }
}

struct Scene {
    time: Single,
    image: Option<u64>,
}

impl Uniforms for Scene {
    fn uniforms(&self) -> Vec<Field> {
        vec![
            Field { name: "u_time", value: self.time.into_uniform() },
            Field {
                name: "u_image",
                value: match self.image {
                    Some(id) => UniformValue::Texture(id),
                    None => UniformValue::Unset,
                },
            },
            Field { name: "u_missing", value: UniformValue::Boolean(true) },
        ]
    }
}

struct Fields(Vec<Field>);

impl Uniforms for Fields {
    fn uniforms(&self) -> Vec<Field> {
        self.0.clone()
    }
}

fn compiled() -> ShaderReport {
    ShaderReport { created: true, compiled: Some(true), info: None }
}

fn active(name: &str, type_code: u32) -> Option<ActiveInfo> {
    Some(ActiveInfo { name: name.to_string(), size: 1, type_code })
}

fn attribute(name: &str, type_code: u32, location: i32) -> AttributeReport {
    AttributeReport { info: active(name, type_code), location }
}

fn uniform(name: &str, type_code: u32) -> UniformReport {
    UniformReport { info: active(name, type_code), located: true }
}

fn report(attributes: Vec<AttributeReport>, uniforms: Vec<UniformReport>) -> LinkReport {
    LinkReport {
        vertex: compiled(),
        fragment: compiled(),
        program_created: true,
        linked: Some(true),
        info: None,
        attribute_count: Some(attributes.len() as u32),
        attributes,
        uniform_count: Some(uniforms.len() as u32),
        uniforms,
    }
}

fn triangle_report() -> LinkReport {
    report(
        vec![
            attribute("a_color", Context::FLOAT_VEC3, 1),
            attribute("a_position", Context::FLOAT_VEC2, 0),
            attribute("i_shift", Context::FLOAT_VEC2, 4),
        ],
        vec![uniform("u_time", Context::FLOAT), uniform("u_image", Context::SAMPLER_2D)],
    )
}

fn triangle() -> [Corner; 3] {
    let corner = |x: f32, y: f32, r: f32, g: f32, b: f32| Corner {
        position: (number(x), number(y)),
        color: (number(r), number(g), number(b)),
    };
    [
        corner(0.0, 1.0, 1.0, 0.0, 0.0),
        corner(1.0, -1.0, 0.0, 1.0, 0.0),
        corner(-1.0, -1.0, 0.0, 0.0, 1.0),
    ]
}

fn refusal(report: &LinkReport) -> Vec<DeviceCall> {
    let mut calls = Vec::new();
    if report.program_created {
        calls.push(DeviceCall::DeleteRefusedProgram);
    }
    if report.vertex.created {
        calls.push(DeviceCall::DeleteRefusedShader { stage: ShaderStage::Vertex });
    }
    if report.fragment.created {
        calls.push(DeviceCall::DeleteRefusedShader { stage: ShaderStage::Fragment });
    }
    calls
}

fn refused(report: &LinkReport) -> GlError {
    let mut gl = Gl::fresh();
    let error = Program::new(&mut gl, FRAGMENT, VERTEX, report).err().unwrap();
    assert_eq!(plain_calls(&gl.take_calls()), refusal(report));
    assert!(!gl.is_live(0));
    assert_eq!(Program::new(&mut gl, FRAGMENT, VERTEX, &triangle_report()).unwrap().id(), 0);
    error
}

fn unknown(message: &str) -> GlError {
    GlError::UnknownError(Some(message.to_string()))
}

fn pointer(index: u32, size: i32, stride: i32, offset: i32) -> DeviceCall {
    DeviceCall::VertexAttribPointer {
        index,
        size,
        data_type: Context::FLOAT,
        normalized: false,
        stride,
        offset,
    }
}

fn bind_buffer(buffer: Option<u64>) -> DeviceCall {
    DeviceCall::BindBuffer { target: Context::ARRAY_BUFFER, buffer }
}

#[test]
fn a_linked_program_keeps_its_sources_and_sends_nothing() {
    let mut gl = Gl::fresh();
    let program = gl.program(FRAGMENT, VERTEX, &triangle_report()).unwrap();
    assert_eq!(program.vertex_source(&gl), VERTEX);
    assert_eq!(program.fragment_source(&gl), FRAGMENT);
    assert!(program.is_held(&gl));
    assert!(gl.take_calls().is_empty());
    let id = program.id();
    let shared = program.share(&mut gl);
    assert_eq!(shared, program);
    program.release(&mut gl);
    assert!(gl.take_calls().is_empty());
    shared.release(&mut gl);
    assert_eq!(plain_calls(&gl.take_calls()), vec![DeviceCall::DeleteProgram { program: id }]);
}

#[test]
fn a_fragment_stage_that_does_not_compile_gives_no_program() {
    let mut failed = triangle_report();
    failed.fragment =
        ShaderReport { created: true, compiled: Some(false), info: Some("0:1 syntax".to_string()) };
    failed.program_created = false;
    let wanted = GlError::ShaderCompilationError {
        source: FRAGMENT.to_string(),
        info: Some("0:1 syntax".to_string()),
    };
    assert_eq!(refused(&failed), wanted);
    let mut gl = Gl::fresh();
    assert_eq!(gl.program(FRAGMENT, VERTEX, &failed).err(), Some(wanted));
    assert_eq!(
        plain_calls(&gl.take_calls()),
        vec![
            DeviceCall::DeleteRefusedShader { stage: ShaderStage::Vertex },
            DeviceCall::DeleteRefusedShader { stage: ShaderStage::Fragment },
        ]
    );
    assert!(!gl.is_live(0));
}

#[test]
fn the_vertex_stage_is_judged_before_the_fragment_stage() {
    let mut failed = triangle_report();
    failed.vertex = ShaderReport { created: true, compiled: Some(false), info: None };
    failed.fragment = ShaderReport { created: true, compiled: Some(false), info: None };
    assert_eq!(
        refused(&failed),
        GlError::ShaderCompilationError { source: VERTEX.to_string(), info: None }
    );
    failed.vertex = ShaderReport { created: false, compiled: Some(true), info: None };
    assert_eq!(refused(&failed), GlError::UnknownError(None));
    failed.vertex = ShaderReport { created: true, compiled: None, info: None };
    assert_eq!(refused(&failed), GlError::UnknownError(None));
    failed.vertex = compiled();
    failed.fragment = ShaderReport { created: false, compiled: None, info: None };
    assert_eq!(refused(&failed), GlError::UnknownError(None));
}

#[test]
fn a_program_that_does_not_link_is_refused_with_both_sources() {
    let mut failed = triangle_report();
    failed.linked = Some(false);
    failed.info = Some("varying mismatch".to_string());
    assert_eq!(
        refused(&failed),
        GlError::ProgramLinkingError {
            vertex: VERTEX.to_string(),
            fragment: FRAGMENT.to_string(),
            info: Some("varying mismatch".to_string()),
        }
    );
    failed.linked = None;
    assert_eq!(refused(&failed), unknown("Failed to get linking status"));
}

#[test]
fn a_program_object_that_the_device_refuses_is_an_allocation_error() {
    let mut failed = triangle_report();
    failed.program_created = false;
    failed.linked = None;
    assert_eq!(refused(&failed), GlError::ProgramAllocationError);
    let mut gl = Gl::fresh();
    assert_eq!(gl.program(FRAGMENT, VERTEX, &failed).err(), Some(GlError::ProgramAllocationError));
    assert_eq!(
        plain_calls(&gl.take_calls()),
        vec![
            DeviceCall::DeleteRefusedShader { stage: ShaderStage::Vertex },
            DeviceCall::DeleteRefusedShader { stage: ShaderStage::Fragment },
        ]
    );
    failed.vertex = ShaderReport { created: false, compiled: None, info: None };
    failed.fragment = ShaderReport { created: false, compiled: None, info: None };
    assert_eq!(gl.program(FRAGMENT, VERTEX, &failed).err(), Some(GlError::UnknownError(None)));
    assert!(gl.take_calls().is_empty());
}

#[test]
fn a_linked_program_is_released_whole_and_a_refused_one_piece_by_piece() {
    let mut gl = Gl::fresh();
    let mut failed = triangle_report();
    failed.linked = Some(false);
    assert!(gl.program(FRAGMENT, VERTEX, &failed).is_err());
    assert_eq!(
        plain_calls(&gl.take_calls()),
        vec![
            DeviceCall::DeleteRefusedProgram,
            DeviceCall::DeleteRefusedShader { stage: ShaderStage::Vertex },
            DeviceCall::DeleteRefusedShader { stage: ShaderStage::Fragment },
        ]
    );
    let program = gl.program(FRAGMENT, VERTEX, &triangle_report()).unwrap();
    assert!(gl.take_calls().is_empty());
    let id = program.id();
    program.release(&mut gl);
    assert_eq!(plain_calls(&gl.take_calls()), vec![DeviceCall::DeleteProgram { program: id }]);
}

#[test]
fn attributes_are_refused_for_the_first_reason() {
    let mut failed = triangle_report();
    failed.attribute_count = None;
    assert_eq!(refused(&failed), unknown("Failed to get attributes count"));
    let mut failed = triangle_report();
    failed.attribute_count = Some(4);
    assert_eq!(refused(&failed), unknown("Failed to get attribute info"));
    let mut failed = triangle_report();
    failed.attributes[1].info = None;
    assert_eq!(refused(&failed), unknown("Failed to get attribute info"));
    let mut failed = triangle_report();
    failed.attributes[1].info.as_mut().unwrap().size = 2;
    failed.attributes[2].location = -1;
    assert_eq!(refused(&failed), GlError::UnsupportedType(Some("a_position".to_string())));
    let mut failed = triangle_report();
    failed.attributes[0].info.as_mut().unwrap().type_code = Context::INT;
    failed.attributes[0].location = -1;
    assert_eq!(refused(&failed), GlError::UnsupportedType(Some("a_color".to_string())));
    let mut failed = triangle_report();
    failed.attributes[2].location = -1;
    assert_eq!(refused(&failed), unknown("Negative attribute location"));
    assert_eq!(
        Program::collect_attributes(&failed).err(),
        Some(unknown("Negative attribute location"))
    );
}

#[test]
fn uniforms_are_refused_for_the_first_reason() {
    let mut failed = triangle_report();
    failed.uniform_count = None;
    assert_eq!(refused(&failed), unknown("Failed to get uniforms count"));
    let mut failed = triangle_report();
    failed.uniforms.pop();
    assert_eq!(refused(&failed), unknown("Failed to get uniform info"));
    let mut failed = triangle_report();
    failed.uniforms[0].info.as_mut().unwrap().size = 4;
    failed.uniforms[0].located = false;
    assert_eq!(refused(&failed), GlError::UnsupportedType(Some("u_time".to_string())));
    let mut failed = triangle_report();
    failed.uniforms[1].info.as_mut().unwrap().type_code = Context::INT_VEC2;
    failed.uniforms[1].located = false;
    assert_eq!(refused(&failed), unknown("Failed to get uniform location"));
    failed.uniforms[1].located = true;
    assert_eq!(refused(&failed), GlError::UnsupportedType(Some("u_image".to_string())));
    let mut failed = triangle_report();
    failed.attributes[0].info = None;
    failed.uniforms[0].info = None;
    assert_eq!(refused(&failed), unknown("Failed to get attribute info"));
}

#[test]
fn collected_slots_keep_the_order_of_the_device() {
    let attributes = Program::collect_attributes(&triangle_report()).unwrap();
    let names: Vec<&str> = attributes.iter().map(|a| a.name.as_str()).collect();
    assert_eq!(names, vec!["a_color", "a_position", "i_shift"]);
    assert_eq!(attributes[0].location, 1);
    assert_eq!(attributes[0].data_type, DataType::Vec3);
    assert_eq!(attributes[2].location, 4);
    let uniforms = Program::collect_uniforms(&triangle_report()).unwrap();
    assert_eq!(uniforms[0].name, "u_time");
    assert_eq!(uniforms[0].location, 0);
    assert_eq!(uniforms[0].data_type, DataType::Float);
    assert_eq!(uniforms[1].name, "u_image");
    assert_eq!(uniforms[1].location, 1);
    assert_eq!(uniforms[1].data_type, DataType::Sampler);
    let mut empty = triangle_report();
    empty.attribute_count = Some(0);
    empty.uniform_count = Some(0);
    assert!(Program::collect_attributes(&empty).unwrap().is_empty());
    assert!(Program::collect_uniforms(&empty).unwrap().is_empty());
}

#[test]
fn drawing_arrays_binds_describes_draws_and_restores() {
    let mut gl = Gl::fresh();
    let program = gl.program(FRAGMENT, VERTEX, &triangle_report()).unwrap();
    let buffer = gl.items_buffer(true, &triangle(), BufferUsage::Static).unwrap();
    gl.take_calls();
    let p = program.id();
    let scene = Scene { time: number(0.25), image: None };
    program.draw_arrays(&mut gl, PrimitiveType::Triangles, &scene, &buffer);
    let commands = gl.take_calls();
    assert_eq!(
        plain_calls(&commands),
        vec![
            DeviceCall::UseProgram { program: Some(p) },
            DeviceCall::EnableVertexAttribArray { index: 0 },
            DeviceCall::EnableVertexAttribArray { index: 1 },
            DeviceCall::Uniform1f { program: p, location: 0, x: 0.25f32.to_bits() },
            DeviceCall::Uniform1i { program: p, location: 1, value: -1 },
            bind_buffer(Some(buffer.buffer().id())),
            pointer(0, 2, 20, 0),
            pointer(1, 3, 20, 8),
            bind_buffer(None),
            DeviceCall::DrawArrays { mode: Context::TRIANGLES, first: 0, count: 3 },
            DeviceCall::DisableVertexAttribArray { index: 0 },
            DeviceCall::DisableVertexAttribArray { index: 1 },
            DeviceCall::UseProgram { program: None },
        ]
    );
    program.draw_arrays(&mut gl, PrimitiveType::Points, &scene, &buffer);
    assert_eq!(gl.take_calls().len(), 13);
}

#[test]
fn a_sampler_without_a_texture_is_written_as_no_unit() {
    let mut gl = Gl::fresh();
    let program = gl.program(FRAGMENT, VERTEX, &triangle_report()).unwrap();
    let buffer = gl.items_buffer(true, &triangle(), BufferUsage::Static).unwrap();
    gl.take_calls();
    let none: Option<Texture> = None;
    let fields = Fields(vec![Field { name: "u_image", value: none.into_uniform() }]);
    program.draw_arrays(&mut gl, PrimitiveType::Triangles, &fields, &buffer);
    let calls = plain_calls(&gl.take_calls());
    let written: Vec<&DeviceCall> =
        calls.iter().filter(|call| matches!(call, DeviceCall::Uniform1i { .. })).collect();
    assert_eq!(
        written,
        vec![&DeviceCall::Uniform1i { program: program.id(), location: 1, value: -1 }]
    );
    assert!(calls.iter().all(|call| !matches!(call, DeviceCall::BindTexture { .. })));
}

#[test]
fn a_texture_uniform_takes_the_next_unit_and_is_bound_for_the_draw() {
    let mut gl = Gl::fresh();
    let program = gl.program(FRAGMENT, VERTEX, &triangle_report()).unwrap();
    let buffer = gl.items_buffer(true, &triangle(), BufferUsage::Static).unwrap();
    let texture = gl
        .texture(true, 2, 2, TextureType::Byte, TextureFormat::Rgba, TextureContent::Empty)
        .unwrap();
    gl.take_calls();
    let p = program.id();
    let t = texture.id();
    assert_eq!(texture.into_uniform(), UniformValue::Texture(t));
    assert_eq!(Some(texture.share(&mut gl)).into_uniform(), UniformValue::Texture(t));
    let scene = Scene { time: number(1.0), image: Some(t) };
    program.draw_arrays(&mut gl, PrimitiveType::TriangleStrip, &scene, &buffer);
    let calls = plain_calls(&gl.take_calls());
    let bind = |texture: Option<u64>| DeviceCall::BindTexture { target: Context::TEXTURE_2D, texture };
    assert_eq!(
        calls[3..13].to_vec(),
        vec![
            DeviceCall::Uniform1f { program: p, location: 0, x: 1.0f32.to_bits() },
            DeviceCall::Uniform1i { program: p, location: 1, value: 0 },
            bind(Some(t)),
            bind_buffer(Some(buffer.buffer().id())),
            pointer(0, 2, 20, 0),
            pointer(1, 3, 20, 8),
            bind_buffer(None),
            DeviceCall::DrawArrays { mode: Context::TRIANGLE_STRIP, first: 0, count: 3 },
            bind(None),
            DeviceCall::DisableVertexAttribArray { index: 0 },
        ]
    );
    assert_eq!(calls.len(), 15);
}

#[test]
fn instances_advance_their_attributes_once_per_instance() {
    let mut gl = Gl::fresh();
    let program = gl.program(FRAGMENT, VERTEX, &triangle_report()).unwrap();
    let buffer = gl.items_buffer(true, &triangle(), BufferUsage::Static).unwrap();
    let shifts = [
        Offset { shift: [number(0.0), number(0.5)], unused: number(9.0) },
        Offset { shift: [number(0.5), number(0.0)], unused: number(9.0) },
    ];
    let instances: ItemsBuffer<Offset> = gl.items_buffer(true, &shifts, BufferUsage::Dynamic).unwrap();
    let commands = gl.take_calls();
    assert_eq!(
        commands[4].words,
        vec![
            0.0f32.to_bits(),
            0.5f32.to_bits(),
            9.0f32.to_bits(),
            0.5f32.to_bits(),
            0.0f32.to_bits(),
            9.0f32.to_bits()
        ]
    );
    let fields = Fields(vec![]);
    program.draw_instances(&mut gl, PrimitiveType::Triangles, &fields, &buffer, &instances);
    let calls = plain_calls(&gl.take_calls());
    assert_eq!(
        calls[0..4].to_vec(),
        vec![
            DeviceCall::UseProgram { program: Some(program.id()) },
            DeviceCall::EnableVertexAttribArray { index: 0 },
            DeviceCall::EnableVertexAttribArray { index: 1 },
            DeviceCall::EnableVertexAttribArray { index: 4 },
        ]
    );
    assert_eq!(
        calls[4..15].to_vec(),
        vec![
            bind_buffer(Some(buffer.buffer().id())),
            pointer(0, 2, 20, 0),
            pointer(1, 3, 20, 8),
            bind_buffer(None),
            bind_buffer(Some(instances.buffer().id())),
            pointer(4, 2, 12, 0),
            bind_buffer(None),
            DeviceCall::VertexAttribDivisor { index: 4, divisor: 1 },
            DeviceCall::DrawArraysInstanced { mode: Context::TRIANGLES, first: 0, count: 3, instances: 2 },
            DeviceCall::VertexAttribDivisor { index: 4, divisor: 0 },
            DeviceCall::DisableVertexAttribArray { index: 0 },
        ]
    );
    assert_eq!(calls.len(), 18);
}

#[test]
fn every_kind_of_value_has_its_call() {
    let types = [
        ("u_bool", Context::BOOL),
        ("u_float", Context::FLOAT),
        ("u_vec2", Context::FLOAT_VEC2),
        ("u_vec3", Context::FLOAT_VEC3),
        ("u_vec4", Context::FLOAT_VEC4),
        ("u_mat2", Context::FLOAT_MAT2),
        ("u_mat3", Context::FLOAT_MAT3),
        ("u_mat4", Context::FLOAT_MAT4),
        ("u_sampler", Context::SAMPLER_2D),
    ];
    let uniforms = types.iter().map(|(name, code)| uniform(name, *code)).collect();
    let mut gl = Gl::fresh();
    let program = gl
        .program(FRAGMENT, VERTEX, &report(vec![attribute("a_position", Context::FLOAT_VEC2, 0)], uniforms))
        .unwrap();
    let buffer = gl.items_buffer(true, &triangle(), BufferUsage::Static).unwrap();
    gl.take_calls();
    let p = program.id();
    let unset = Fields(
        types.iter().map(|(name, _)| Field { name: *name, value: UniformValue::Unset }).collect(),
    );
    program.draw_arrays(&mut gl, PrimitiveType::Lines, &unset, &buffer);
    let commands = gl.take_calls();
    let written = &commands[2..11];
    assert_eq!(
        plain_calls(written),
        vec![
            DeviceCall::Uniform1i { program: p, location: 0, value: 0 },
            DeviceCall::Uniform1f { program: p, location: 1, x: 0 },
            DeviceCall::Uniform2f { program: p, location: 2, x: 0, y: 0 },
            DeviceCall::Uniform3f { program: p, location: 3, x: 0, y: 0, z: 0 },
            DeviceCall::Uniform4f { program: p, location: 4, x: 0, y: 0, z: 0, w: 0 },
            DeviceCall::UniformMatrix { program: p, location: 5, size: 2, transpose: false },
            DeviceCall::UniformMatrix { program: p, location: 6, size: 3, transpose: false },
            DeviceCall::UniformMatrix { program: p, location: 7, size: 4, transpose: false },
            DeviceCall::Uniform1i { program: p, location: 8, value: -1 },
        ]
    );
    assert_eq!(written[5].words, vec![0; 4]);
    assert_eq!(written[6].words, vec![0; 9]);
    assert_eq!(written[7].words, vec![0; 16]);
    let set = Fields(vec![
        Field { name: "u_bool", value: true.into_uniform() },
        Field { name: "u_float", value: number(2.0).into_uniform() },
        Field { name: "u_vec2", value: (number(1.0), number(2.0)).into_uniform() },
        Field { name: "u_vec3", value: [number(1.0), number(2.0), number(3.0)].into_uniform() },
        Field { name: "u_vec4", value: UniformValue::Vec4([1, 2, 3, 4]) },
        Field { name: "u_mat2", value: UniformValue::Mat2([1, 2, 3, 4]) },
        Field { name: "u_mat3", value: UniformValue::Mat3([7; 9]) },
        Field { name: "u_mat4", value: UniformValue::Mat4([8; 16]) },
        Field { name: "u_bool", value: false.into_uniform() },
    ]);
    program.draw_arrays(&mut gl, PrimitiveType::Lines, &set, &buffer);
    let commands = gl.take_calls();
    let written = &commands[2..11];
    assert_eq!(
        plain_calls(written),
        vec![
            DeviceCall::Uniform1i { program: p, location: 0, value: 1 },
            DeviceCall::Uniform1f { program: p, location: 1, x: 2.0f32.to_bits() },
            DeviceCall::UniformVector { program: p, location: 2, size: 2 },
            DeviceCall::UniformVector { program: p, location: 3, size: 3 },
            DeviceCall::UniformVector { program: p, location: 4, size: 4 },
            DeviceCall::UniformMatrix { program: p, location: 5, size: 2, transpose: false },
            DeviceCall::UniformMatrix { program: p, location: 6, size: 3, transpose: false },
            DeviceCall::UniformMatrix { program: p, location: 7, size: 4, transpose: false },
            DeviceCall::Uniform1i { program: p, location: 0, value: 0 },
        ]
    );
    assert_eq!(written[2].words, vec![1.0f32.to_bits(), 2.0f32.to_bits()]);
    assert_eq!(written[3].words, vec![1.0f32.to_bits(), 2.0f32.to_bits(), 3.0f32.to_bits()]);
    assert_eq!(written[4].words, vec![1, 2, 3, 4]);
    assert_eq!(written[5].words, vec![1, 2, 3, 4]);
    assert_eq!(written[6].words, vec![7; 9]);
    assert_eq!(written[7].words, vec![8; 16]);
}

#[test]
fn type_marks_and_strides_of_the_number_types() {
    assert_eq!(<Single as TypeMark>::data_type(), DataType::Float);
    assert_eq!(<bool as TypeMark>::data_type(), DataType::Boolean);
    assert_eq!(<Texture as TypeMark>::data_type(), DataType::Sampler);
    assert_eq!(<Option<Texture> as TypeMark>::data_type(), DataType::Sampler);
    assert_eq!(<[Single; 2] as TypeMark>::data_type(), DataType::Vec2);
    assert_eq!(<[Single; 3] as TypeMark>::data_type(), DataType::Vec3);
    assert_eq!(<[Single; 4] as TypeMark>::data_type(), DataType::Vec4);
    assert_eq!(<(Single, Single) as TypeMark>::data_type(), DataType::Vec2);
    assert_eq!(<(Single, Single, Single) as TypeMark>::data_type(), DataType::Vec3);
    assert_eq!(<(Single, Single, Single, Single) as TypeMark>::data_type(), DataType::Vec4);
    assert_eq!(<Single as Writable>::stride(), 1);
    assert_eq!(<[Single; 2] as Writable>::stride(), 2);
    assert_eq!(<[Single; 3] as Writable>::stride(), 3);
    assert_eq!(<[Single; 4] as Writable>::stride(), 4);
    assert_eq!(<(Single, Single) as Writable>::stride(), 2);
    assert_eq!(<(Single, Single, Single) as Writable>::stride(), 3);
    assert_eq!(<(Single, Single, Single, Single) as Writable>::stride(), 4);
    assert_eq!(<Corner as Writable>::stride(), 5);
    let mut output = vec![9];
    Single(1).write(&mut output);
    [Single(2), Single(3)].write(&mut output);
    [Single(4), Single(5), Single(6)].write(&mut output);
    [Single(7), Single(8), Single(9), Single(10)].write(&mut output);
    (Single(11), Single(12)).write(&mut output);
    (Single(13), Single(14), Single(15)).write(&mut output);
    (Single(16), Single(17), Single(18), Single(19)).write(&mut output);
    assert_eq!(output, vec![9, 1, 2, 3, 4, 5, 6, 7, 8, 9, 10, 11, 12, 13, 14, 15, 16, 17, 18, 19]);
    assert_eq!(
        (Single(1), Single(2), Single(3), Single(4)).into_uniform(),
        UniformValue::Vec4([1, 2, 3, 4])
    );
    assert_eq!([Single(1), Single(2)].into_uniform(), UniformValue::Vec2([1, 2]));
    assert_eq!([Single(1), Single(2), Single(3), Single(4)].into_uniform(), UniformValue::Vec4([1, 2, 3, 4]));
    assert_eq!((Single(1), Single(2), Single(3)).into_uniform(), UniformValue::Vec3([1, 2, 3]));
}

#[derive(Clone, Copy, Debug, PartialEq)]
struct Doubled {
    position: (Single, Single),
}

impl Writable for Doubled {
    fn write(&self, output: &mut Vec<u32>) {
        self.position.write(output);
        self.position.write(output);
    }

    fn stride() -> usize {
        4
    }
}

impl Item for Doubled {
    fn layout() -> Vec<Layout> {
        vec![
            Layout { name: "a_position", data_type: DataType::Vec2 },
            Layout { name: "a_position", data_type: DataType::Vec2 },
        ]
    }
}

#[test]
fn a_slot_that_two_fields_feed_is_enabled_once() {
    let mut gl = Gl::fresh();
    let program = gl.program(FRAGMENT, VERTEX, &triangle_report()).unwrap();
    let items = [Doubled { position: (number(0.0), number(1.0)) }];
    let buffer = gl.items_buffer(true, &items, BufferUsage::Static).unwrap();
    gl.take_calls();
    program.draw_arrays(&mut gl, PrimitiveType::Points, &Fields(vec![]), &buffer);
    let calls = plain_calls(&gl.take_calls());
    assert_eq!(
        calls,
        vec![
            DeviceCall::UseProgram { program: Some(program.id()) },
            DeviceCall::EnableVertexAttribArray { index: 0 },
            bind_buffer(Some(buffer.buffer().id())),
            pointer(0, 2, 16, 0),
            pointer(0, 2, 16, 8),
            bind_buffer(None),
            DeviceCall::DrawArrays { mode: Context::POINTS, first: 0, count: 1 },
            DeviceCall::DisableVertexAttribArray { index: 0 },
            DeviceCall::UseProgram { program: None },
        ]
    );
}
