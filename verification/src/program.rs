use crate::cache::{round_trip, shifted_all, CacheView};
use crate::data_buffer::{ArrayBuffer, Item, ItemsBuffer, Layout};
use crate::device::{plain, plain_all, Command, DeviceCall, Record, ShaderStage};
use crate::gl::{
    all_valid, copy_text, lemma_entered_all_wf, lemma_round_trip, lemma_scopes_entered, records,
    release_nothing, text, views, ErrorView, Gl, GlError, GlView,
};
use crate::objects::{AttributeInfo, Body, SlotView, UniformInfo};
use crate::settings::{
    bind_units, unit_bindings, ArrayBufferSetting, CachedSetting, EnabledAttributesSetting,
    InstancedAttributesSetting, ProgramSetting, Setting, SettingView, TextureListSetting,
};
use crate::texture::TEXTURES_COUNT;
use crate::types::{DataType, FLOAT};
use crate::uniforms::{Field, UniformValue, Uniforms};
use vstd::prelude::*;

verus! {

/// How the vertices of a draw call are assembled into primitives.
#[derive(Clone, Copy, Debug, PartialEq, Eq, Structural)]
pub enum PrimitiveType {
    Points,
    LineStrip,
    LineLoop,
    Lines,
    TriangleStrip,
    TriangleFan,
    Triangles,
}

impl PrimitiveType {
    /// The device's numeric code of this value.
    pub open spec fn spec_code(self) -> u32 {
        match self {
            PrimitiveType::Points => 0,
            PrimitiveType::LineStrip => 3,
            PrimitiveType::LineLoop => 2,
            PrimitiveType::Lines => 1,
            PrimitiveType::TriangleStrip => 5,
            PrimitiveType::TriangleFan => 6,
            PrimitiveType::Triangles => 4,
        }
    }

    /// The device's numeric code of this value.
    #[verifier::when_used_as_spec(spec_code)]
    pub fn code(self) -> (code: u32)
        ensures
            code == self.spec_code(),
    {
        match self {
            PrimitiveType::Points => 0,
            PrimitiveType::LineStrip => 3,
            PrimitiveType::LineLoop => 2,
            PrimitiveType::Lines => 1,
            PrimitiveType::TriangleStrip => 5,
            PrimitiveType::TriangleFan => 6,
            PrimitiveType::Triangles => 4,
        }
    }

    /// The value with the given device code, if there is one.
    pub fn from_code(code: u32) -> (value: Option<PrimitiveType>)
        ensures
            match value {
                Some(v) => v.spec_code() == code,
                None => forall|v: PrimitiveType| v.spec_code() != code,
            },
    {
        if code == 0 {
            Some(PrimitiveType::Points)
        } else if code == 3 {
            Some(PrimitiveType::LineStrip)
        } else if code == 2 {
            Some(PrimitiveType::LineLoop)
        } else if code == 1 {
            Some(PrimitiveType::Lines)
        } else if code == 5 {
            Some(PrimitiveType::TriangleStrip)
        } else if code == 6 {
            Some(PrimitiveType::TriangleFan)
        } else if code == 4 {
            Some(PrimitiveType::Triangles)
        } else {
            None
        }
    }
}

impl From<PrimitiveType> for u32 {
    fn from(value: PrimitiveType) -> (code: u32) {
        value.code()
    }
}

impl vstd::std_specs::convert::FromSpecImpl<PrimitiveType> for u32 {
    open spec fn obeys_from_spec() -> bool {
        true
    }

    open spec fn from_spec(value: PrimitiveType) -> u32 {
        value.spec_code()
    }
}

/// The device's answers on one shader stage: whether it made the shader,
/// whether the shader compiled, as far as the device said, and the log of the
/// compiler.
#[derive(Clone, Debug, PartialEq, Eq)]
pub struct ShaderReport {
    pub created: bool,
    pub compiled: Option<bool>,
    pub info: Option<String>,
}

/// The device's description of an active variable of a program.
#[derive(Clone, Debug, PartialEq, Eq)]
pub struct ActiveInfo {
    pub name: String,
    pub size: i32,
    pub type_code: u32,
}

/// The device's answers on one active attribute: its description, if the device
/// gave one, and its slot, negative where it has none.
#[derive(Clone, Debug, PartialEq, Eq)]
pub struct AttributeReport {
    pub info: Option<ActiveInfo>,
    pub location: i32,
}

/// The device's answers on one active uniform: its description, if the device
/// gave one, and whether the device gave its location.
#[derive(Clone, Debug, PartialEq, Eq)]
pub struct UniformReport {
    pub info: Option<ActiveInfo>,
    pub located: bool,
}

/// The device's answers on the build of a program: on both stages, on the
/// request for a program object, on the linking, and on every active attribute
/// and uniform, in the device's order.
#[derive(Clone, Debug, PartialEq, Eq)]
pub struct LinkReport {
    pub vertex: ShaderReport,
    pub fragment: ShaderReport,
    pub program_created: bool,
    pub linked: Option<bool>,
    pub info: Option<String>,
    pub attribute_count: Option<u32>,
    pub attributes: Vec<AttributeReport>,
    pub uniform_count: Option<u32>,
    pub uniforms: Vec<UniformReport>,
}

/// Why a stage is refused, if it is: the device made no shader or did not say
/// whether it compiled, or it did not compile.
pub open spec fn shader_failure(source: Seq<char>, report: ShaderReport) -> Option<ErrorView> {
    if !report.created {
        Some(ErrorView::UnknownError(None))
    } else {
        match report.compiled {
            None => Some(ErrorView::UnknownError(None)),
            Some(false) => Some(
                ErrorView::ShaderCompilationError { source, info: text(report.info) },
            ),
            Some(true) => None,
        }
    }
}

/// Checks the device's answers on one stage.
pub fn check_shader(source: &str, report: &ShaderReport) -> (result: Result<(), GlError>)
    ensures
        match result {
            Ok(_) => shader_failure(source@, *report) is None,
            Err(error) => shader_failure(source@, *report) == Some(error@),
        },
{
    if !report.created {
        return Err(GlError::UnknownError(None));
    }
    match report.compiled {
        None => Err(GlError::UnknownError(None)),
        Some(false) => Err(
            GlError::ShaderCompilationError {
                source: source.to_owned(),
                info: copy_text(&report.info),
            },
        ),
        Some(true) => Ok(()),
    }
}

/// What the library makes of the device's answers on one active attribute: an
/// attribute that the device did not describe is an unknown failure; an array
/// or a type that the library does not know is unsupported, by the attribute's
/// name; an attribute without a slot is an unknown failure.
pub open spec fn attribute_outcome(report: Option<AttributeReport>) -> Result<SlotView, ErrorView> {
    match report {
        Some(AttributeReport { info: Some(info), location }) => if info.size != 1 {
            Err(ErrorView::UnsupportedType(Some(info.name@)))
        } else {
            match DataType::spec_from_code(info.type_code) {
                None => Err(ErrorView::UnsupportedType(Some(info.name@))),
                Some(data_type) => if location < 0 {
                    Err(ErrorView::UnknownError(Some("Negative attribute location"@)))
                } else {
                    Ok(SlotView { name: info.name@, location: location as u32, data_type })
                },
            }
        },
        _ => Err(ErrorView::UnknownError(Some("Failed to get attribute info"@))),
    }
}

/// What the library makes of the device's answers on the active uniform at
/// `index`: a uniform that the device did not describe is an unknown failure; an
/// array is unsupported, by the uniform's name; a uniform without a location is
/// an unknown failure; a type that the library does not know is unsupported.
/// The uniform's location is its index.
pub open spec fn uniform_outcome(report: Option<UniformReport>, index: u32) -> Result<
    SlotView,
    ErrorView,
> {
    match report {
        Some(UniformReport { info: Some(info), located }) => if info.size != 1 {
            Err(ErrorView::UnsupportedType(Some(info.name@)))
        } else if !located {
            Err(ErrorView::UnknownError(Some("Failed to get uniform location"@)))
        } else {
            match DataType::spec_from_code(info.type_code) {
                None => Err(ErrorView::UnsupportedType(Some(info.name@))),
                Some(data_type) => Ok(SlotView { name: info.name@, location: index, data_type }),
            }
        },
        _ => Err(ErrorView::UnknownError(Some("Failed to get uniform info"@))),
    }
}

/// The report at `index`, if the device gave that many.
pub open spec fn entry<T>(reports: Seq<T>, index: int) -> Option<T> {
    if 0 <= index < reports.len() {
        Some(reports[index])
    } else {
        None
    }
}

/// The first `count` active attributes, or the first failure among them.
pub open spec fn collected_attributes(reports: Seq<AttributeReport>, count: nat) -> Result<
    Seq<SlotView>,
    ErrorView,
>
    decreases count,
{
    if count == 0 {
        Ok(Seq::empty())
    } else {
        match collected_attributes(reports, (count - 1) as nat) {
            Err(error) => Err(error),
            Ok(before) => match attribute_outcome(entry(reports, count - 1)) {
                Err(error) => Err(error),
                Ok(attribute) => Ok(before.push(attribute)),
            },
        }
    }
}

/// The first `count` active uniforms, or the first failure among them.
pub open spec fn collected_uniforms(reports: Seq<UniformReport>, count: nat) -> Result<
    Seq<SlotView>,
    ErrorView,
>
    decreases count,
{
    if count == 0 {
        Ok(Seq::empty())
    } else {
        match collected_uniforms(reports, (count - 1) as nat) {
            Err(error) => Err(error),
            Ok(before) => match uniform_outcome(entry(reports, count - 1), (count - 1) as u32) {
                Err(error) => Err(error),
                Ok(uniform) => Ok(before.push(uniform)),
            },
        }
    }
}

/// A failure among the first attributes is the failure of all.
pub proof fn lemma_attribute_failure_stays(
    reports: Seq<AttributeReport>,
    failed: nat,
    count: nat,
)
    requires
        failed <= count,
        collected_attributes(reports, failed) is Err,
    ensures
        collected_attributes(reports, count) == collected_attributes(reports, failed),
    decreases count,
{
    if failed < count {
        lemma_attribute_failure_stays(reports, failed, (count - 1) as nat);
    }
}

/// A failure among the first uniforms is the failure of all.
pub proof fn lemma_uniform_failure_stays(reports: Seq<UniformReport>, failed: nat, count: nat)
    requires
        failed <= count,
        collected_uniforms(reports, failed) is Err,
    ensures
        collected_uniforms(reports, count) == collected_uniforms(reports, failed),
    decreases count,
{
    if failed < count {
        lemma_uniform_failure_stays(reports, failed, (count - 1) as nat);
    }
}

/// The active attributes of a program, or why the program is refused.
pub open spec fn attributes_of(report: LinkReport) -> Result<Seq<SlotView>, ErrorView> {
    match report.attribute_count {
        None => Err(ErrorView::UnknownError(Some("Failed to get attributes count"@))),
        Some(count) => collected_attributes(report.attributes@, count as nat),
    }
}

/// The active uniforms of a program, or why the program is refused.
pub open spec fn uniforms_of(report: LinkReport) -> Result<Seq<SlotView>, ErrorView> {
    match report.uniform_count {
        None => Err(ErrorView::UnknownError(Some("Failed to get uniforms count"@))),
        Some(count) => collected_uniforms(report.uniforms@, count as nat),
    }
}

/// What the device's answers say of a program: its active attributes and
/// uniforms, or the first reason to refuse it, in this order: the vertex stage,
/// the fragment stage, the program object that the device did not make, the
/// linking, the attributes, the uniforms.
pub open spec fn link_outcome(fragment: Seq<char>, vertex: Seq<char>, report: LinkReport) -> Result<
    (Seq<SlotView>, Seq<SlotView>),
    ErrorView,
> {
    if let Some(error) = shader_failure(vertex, report.vertex) {
        Err(error)
    } else if let Some(error) = shader_failure(fragment, report.fragment) {
        Err(error)
    } else if !report.program_created {
        Err(ErrorView::ProgramAllocationError)
    } else {
        match report.linked {
            None => Err(ErrorView::UnknownError(Some("Failed to get linking status"@))),
            Some(false) => Err(
                ErrorView::ProgramLinkingError { vertex, fragment, info: text(report.info) },
            ),
            Some(true) => match attributes_of(report) {
                Err(error) => Err(error),
                Ok(attributes) => match uniforms_of(report) {
                    Err(error) => Err(error),
                    Ok(uniforms) => Ok((attributes, uniforms)),
                },
            },
        }
    }
}

/// The calls that release what the device made for a program that is refused:
/// the program object and the shader of either stage, as far as the device made
/// them.
pub open spec fn refusal_calls(report: LinkReport) -> Seq<DeviceCall> {
    (if report.program_created {
        seq![DeviceCall::DeleteRefusedProgram]
    } else {
        Seq::empty()
    }) + (if report.vertex.created {
        seq![DeviceCall::DeleteRefusedShader { stage: ShaderStage::Vertex }]
    } else {
        Seq::empty()
    }) + (if report.fragment.created {
        seq![DeviceCall::DeleteRefusedShader { stage: ShaderStage::Fragment }]
    } else {
        Seq::empty()
    })
}

/// The commands that release what the device made for a program that is
/// refused; see [`refusal_calls`].
pub fn refusal_commands(report: &LinkReport) -> (commands: Vec<Command>)
    ensures
        records(commands@) == plain_all(refusal_calls(*report)),
        release_nothing(records(commands@)),
{
    let mut commands: Vec<Command> = Vec::new();
    if report.program_created {
        commands.push(Command::plain(DeviceCall::DeleteRefusedProgram));
    }
    if report.vertex.created {
        commands.push(
            Command::plain(DeviceCall::DeleteRefusedShader { stage: ShaderStage::Vertex }),
        );
    }
    if report.fragment.created {
        commands.push(
            Command::plain(DeviceCall::DeleteRefusedShader { stage: ShaderStage::Fragment }),
        );
    }
    proof {
        assert(records(commands@) =~= plain_all(refusal_calls(*report)));
    }
    commands
}

/// What the items of `attributes` say.
pub open spec fn attribute_views(attributes: Seq<AttributeInfo>) -> Seq<SlotView> {
    Seq::new(attributes.len(), |i: int| attributes[i]@)
}

/// What the items of `uniforms` say.
pub open spec fn uniform_views(uniforms: Seq<UniformInfo>) -> Seq<SlotView> {
    Seq::new(uniforms.len(), |i: int| uniforms[i]@)
}

/// The place of the first of `slots` that has the name `name`.
pub open spec fn first_named(slots: Seq<SlotView>, name: Seq<char>) -> Option<int>
    decreases slots.len(),
{
    if slots.len() == 0 {
        None
    } else {
        match first_named(slots.drop_last(), name) {
            Some(i) => Some(i),
            None => if slots.last().name == name {
                Some(slots.len() - 1)
            } else {
                None
            },
        }
    }
}

/// How many numbers the first `count` fields of a vertex take.
pub open spec fn offset_of(layout: Seq<Layout>, count: nat) -> int
    decreases count,
{
    if count == 0 {
        0
    } else {
        offset_of(layout, (count - 1) as nat) + match layout[count - 1].data_type.spec_size_in_floats() {
            Some(size) => size as int,
            None => 0,
        }
    }
}

/// Whether vertices of this layout can be described to the device: every field
/// is made of numbers, and the stride and every offset, in bytes, fit a signed
/// number of 32 bits.
pub open spec fn layout_fits(layout: Seq<Layout>, stride: usize) -> bool {
    &&& forall|i: int| 0 <= i < layout.len() ==> (#[trigger] layout[i]).data_type.spec_is_numeric()
    &&& stride * 4 <= i32::MAX
    &&& offset_of(layout, layout.len()) * 4 <= i32::MAX
}

/// The call that describes to the device where the field `field`, which lies
/// `offset` numbers into each vertex, is found in the bound buffer.
pub open spec fn pointer_call(slot: SlotView, field: Layout, stride: usize, offset: int) -> DeviceCall {
    DeviceCall::VertexAttribPointer {
        index: slot.location,
        size: field.data_type.spec_size_in_floats().unwrap() as i32,
        data_type: FLOAT,
        normalized: false,
        stride: (stride * 4) as i32,
        offset: (offset * 4) as i32,
    }
}

/// The calls that describe the first `count` fields of a vertex to the device:
/// one for each field that feeds an attribute of the program, in the order of the
/// fields. A field whose name the program does not have is passed over.
pub open spec fn pointer_calls(
    attributes: Seq<SlotView>,
    layout: Seq<Layout>,
    stride: usize,
    count: nat,
) -> Seq<DeviceCall>
    decreases count,
{
    if count == 0 {
        Seq::empty()
    } else {
        let before = pointer_calls(attributes, layout, stride, (count - 1) as nat);
        let field = layout[count - 1];
        match first_named(attributes, field.name@) {
            Some(i) => before.push(
                pointer_call(attributes[i], field, stride, offset_of(layout, (count - 1) as nat)),
            ),
            None => before,
        }
    }
}

/// The slots of the attributes that the first `count` fields of a vertex feed.
pub open spec fn fed_slots(attributes: Seq<SlotView>, layout: Seq<Layout>, count: nat) -> Seq<u32>
    decreases count,
{
    if count == 0 {
        Seq::empty()
    } else {
        let before = fed_slots(attributes, layout, (count - 1) as nat);
        match first_named(attributes, layout[count - 1].name@) {
            Some(i) => before.push(attributes[i].location),
            None => before,
        }
    }
}

/// The textures that the first `count` uniforms bind, in their order: those of
/// the fields with a texture whose name the program has.
pub open spec fn bound_textures(uniforms: Seq<SlotView>, fields: Seq<Field>, count: nat) -> Seq<u64>
    decreases count,
{
    if count == 0 {
        Seq::empty()
    } else {
        let before = bound_textures(uniforms, fields, (count - 1) as nat);
        match (first_named(uniforms, fields[count - 1].name@), fields[count - 1].value) {
            (Some(_), UniformValue::Texture(texture)) => before.push(texture),
            _ => before,
        }
    }
}

/// `count` zeros.
pub open spec fn zeros(count: nat) -> Seq<u32> {
    Seq::new(count, |i: int| 0u32)
}

/// The record of the call that writes the matrix `words` of `size` rows.
pub open spec fn matrix_record(program: u64, location: u32, size: u32, words: Seq<u32>) -> Record {
    Record {
        call: DeviceCall::UniformMatrix { program, location, size, transpose: false },
        words,
        bytes: Seq::empty(),
    }
}

/// The record of the call that writes the vector `words` of `size` components.
pub open spec fn vector_record(program: u64, location: u32, size: u32, words: Seq<u32>) -> Record {
    Record { call: DeviceCall::UniformVector { program, location, size }, words, bytes: Seq::empty() }
}

/// The record of the call that writes `value` to the uniform `slot` of
/// `program`, where `unit` textures are bound before it. A value that is not set
/// is written as zero of the uniform's type, and a sampler that is not set as
/// unit -1, which is no unit; a texture is written as the next free unit.
pub open spec fn uniform_record(program: u64, slot: SlotView, value: UniformValue, unit: nat) -> Record {
    let location = slot.location;
    match value {
        UniformValue::Unset => match slot.data_type {
            DataType::Boolean => plain(DeviceCall::Uniform1i { program, location, value: 0 }),
            DataType::Float => plain(DeviceCall::Uniform1f { program, location, x: 0 }),
            DataType::Vec2 => plain(DeviceCall::Uniform2f { program, location, x: 0, y: 0 }),
            DataType::Vec3 => plain(DeviceCall::Uniform3f { program, location, x: 0, y: 0, z: 0 }),
            DataType::Vec4 => plain(
                DeviceCall::Uniform4f { program, location, x: 0, y: 0, z: 0, w: 0 },
            ),
            DataType::Mat2 => matrix_record(program, location, 2, zeros(4)),
            DataType::Mat3 => matrix_record(program, location, 3, zeros(9)),
            DataType::Mat4 => matrix_record(program, location, 4, zeros(16)),
            DataType::Sampler => plain(DeviceCall::Uniform1i { program, location, value: -1i32 }),
        },
        UniformValue::Boolean(value) => plain(
            DeviceCall::Uniform1i {
                program,
                location,
                value: if value {
                    1
                } else {
                    0
                },
            },
        ),
        UniformValue::Float(value) => plain(DeviceCall::Uniform1f { program, location, x: value }),
        UniformValue::Vec2(value) => vector_record(program, location, 2, value@),
        UniformValue::Vec3(value) => vector_record(program, location, 3, value@),
        UniformValue::Vec4(value) => vector_record(program, location, 4, value@),
        UniformValue::Mat2(value) => matrix_record(program, location, 2, value@),
        UniformValue::Mat3(value) => matrix_record(program, location, 3, value@),
        UniformValue::Mat4(value) => matrix_record(program, location, 4, value@),
        UniformValue::Texture(_) => plain(
            DeviceCall::Uniform1i { program, location, value: unit as i32 },
        ),
    }
}

/// The records of the calls that write the first `count` uniforms: one for
/// each field whose name the program has, in the order of the fields. A field
/// whose name the program does not have is passed over.
pub open spec fn uniform_records(
    program: u64,
    uniforms: Seq<SlotView>,
    fields: Seq<Field>,
    count: nat,
) -> Seq<Record>
    decreases count,
{
    if count == 0 {
        Seq::empty()
    } else {
        let before = uniform_records(program, uniforms, fields, (count - 1) as nat);
        let field = fields[count - 1];
        match first_named(uniforms, field.name@) {
            Some(i) => before.push(
                uniform_record(
                    program,
                    uniforms[i],
                    field.value,
                    bound_textures(uniforms, fields, (count - 1) as nat).len(),
                ),
            ),
            None => before,
        }
    }
}

/// The attribute slots that a draw call enables: those that the fields of the
/// vertices feed and, with instances, those that the fields of the instances
/// feed. An attribute of the program that no field names stays as it is.
pub open spec fn draw_slots(
    attributes: Seq<SlotView>,
    vertices: Seq<Layout>,
    instances: Option<Seq<Layout>>,
) -> Seq<u32> {
    fed_slots(attributes, vertices, vertices.len()) + match instances {
        Some(layout) => fed_slots(attributes, layout, layout.len()),
        None => Seq::empty(),
    }
}

/// The place of the first attribute that has the name `name`.
pub fn find_attribute(attributes: &Vec<AttributeInfo>, name: &str) -> (found: Option<usize>)
    ensures
        match found {
            Some(i) => first_named(attribute_views(attributes@), name@) == Some(i as int) && i
                < attributes.len(),
            None => first_named(attribute_views(attributes@), name@) is None,
        },
{
    let wanted = name.to_owned();
    let mut i: usize = 0;
    let ghost all = attribute_views(attributes@);
    proof {
        assert(all.take(0) =~= Seq::<SlotView>::empty());
    }
    while i < attributes.len()
        invariant
            i <= attributes.len(),
            all == attribute_views(attributes@),
            wanted@ == name@,
            first_named(all.take(i as int), name@) is None,
        decreases attributes.len() - i,
    {
        proof {
            assert(all.take(i + 1).drop_last() =~= all.take(i as int));
            assert(all.take(i + 1).last() == attributes@[i as int]@);
        }
        if attributes[i].name == wanted {
            proof {
                lemma_first_named_extends(all, i + 1, name@);
            }
            return Some(i);
        }
        i += 1;
    }
    proof {
        assert(all.take(attributes.len() as int) =~= all);
    }
    None
}

/// The place of the first uniform that has the name `name`.
pub fn find_uniform(uniforms: &Vec<UniformInfo>, name: &str) -> (found: Option<usize>)
    ensures
        match found {
            Some(i) => first_named(uniform_views(uniforms@), name@) == Some(i as int) && i
                < uniforms.len(),
            None => first_named(uniform_views(uniforms@), name@) is None,
        },
{
    let wanted = name.to_owned();
    let mut i: usize = 0;
    let ghost all = uniform_views(uniforms@);
    proof {
        assert(all.take(0) =~= Seq::<SlotView>::empty());
    }
    while i < uniforms.len()
        invariant
            i <= uniforms.len(),
            all == uniform_views(uniforms@),
            wanted@ == name@,
            first_named(all.take(i as int), name@) is None,
        decreases uniforms.len() - i,
    {
        proof {
            assert(all.take(i + 1).drop_last() =~= all.take(i as int));
            assert(all.take(i + 1).last() == uniforms@[i as int]@);
        }
        if uniforms[i].name == wanted {
            proof {
                lemma_first_named_extends(all, i + 1, name@);
            }
            return Some(i);
        }
        i += 1;
    }
    proof {
        assert(all.take(uniforms.len() as int) =~= all);
    }
    None
}

/// A slot that is the first of its name among the first slots is the first of
/// its name among all.
pub proof fn lemma_first_named_extends(slots: Seq<SlotView>, count: int, name: Seq<char>)
    requires
        0 <= count <= slots.len(),
        first_named(slots.take(count), name) is Some,
    ensures
        first_named(slots, name) == first_named(slots.take(count), name),
    decreases slots.len() - count,
{
    if count < slots.len() {
        assert(slots.take(count + 1).drop_last() =~= slots.take(count));
        lemma_first_named_extends(slots, count + 1, name);
    } else {
        assert(slots.take(count) =~= slots);
    }
}

/// Offsets grow with the fields.
pub proof fn lemma_offset_grows(layout: Seq<Layout>, low: nat, high: nat)
    requires
        low <= high,
    ensures
        0 <= offset_of(layout, low) <= offset_of(layout, high),
    decreases high,
{
    if low < high {
        lemma_offset_grows(layout, low, (high - 1) as nat);
    } else if low > 0 {
        lemma_offset_grows(layout, (low - 1) as nat, (low - 1) as nat);
    }
}

/// The commands that describe the fields of a vertex to the device; see
/// [`pointer_calls`].
pub fn pointer_commands(attributes: &Vec<AttributeInfo>, layout: &Vec<Layout>, stride: usize) -> (commands:
    Vec<Command>)
    requires
        layout_fits(layout@, stride),
    ensures
        records(commands@) == plain_all(
            pointer_calls(attribute_views(attributes@), layout@, stride, layout@.len()),
        ),
        release_nothing(records(commands@)),
{
    let mut commands: Vec<Command> = Vec::new();
    let mut offset: usize = 0;
    let mut i: usize = 0;
    let ghost slots = attribute_views(attributes@);
    proof {
        assert(records(commands@) =~= plain_all(pointer_calls(slots, layout@, stride, 0)));
    }
    while i < layout.len()
        invariant
            i <= layout.len(),
            layout_fits(layout@, stride),
            slots == attribute_views(attributes@),
            offset == offset_of(layout@, i as nat),
            records(commands@) == plain_all(pointer_calls(slots, layout@, stride, i as nat)),
            release_nothing(records(commands@)),
        decreases layout.len() - i,
    {
        let field = layout[i];
        proof {
            assert(layout@[i as int].data_type.spec_is_numeric());
            lemma_offset_grows(layout@, (i + 1) as nat, layout@.len());
            lemma_offset_grows(layout@, i as nat, (i + 1) as nat);
        }
        let size = match field.data_type.size_in_floats() {
            Some(size) => size,
            None => 0,
        };
        let ghost before = pointer_calls(slots, layout@, stride, i as nat);
        match find_attribute(attributes, field.name) {
            Some(found) => {
                let call = DeviceCall::VertexAttribPointer {
                    index: attributes[found].location,
                    size: size as i32,
                    data_type: FLOAT,
                    normalized: false,
                    stride: (stride * 4) as i32,
                    offset: (offset * 4) as i32,
                };
                let ghost sent = records(commands@);
                commands.push(Command::plain(call));
                proof {
                    assert(call == pointer_call(slots[found as int], field, stride, offset as int));
                    assert(records(commands@) =~= sent.push(plain(call)));
                    assert(plain_all(before.push(call)) =~= plain_all(before).push(plain(call)));
                }
            },
            None => {},
        }
        offset = offset + size;
        i += 1;
    }
    commands
}

/// The slots of the attributes that the fields of a vertex feed; see
/// [`fed_slots`].
pub fn fed(attributes: &Vec<AttributeInfo>, layout: &Vec<Layout>) -> (slots: Vec<u32>)
    ensures
        slots@ == fed_slots(attribute_views(attributes@), layout@, layout@.len()),
{
    let mut slots: Vec<u32> = Vec::new();
    let mut i: usize = 0;
    while i < layout.len()
        invariant
            i <= layout.len(),
            slots@ == fed_slots(attribute_views(attributes@), layout@, i as nat),
        decreases layout.len() - i,
    {
        match find_attribute(attributes, layout[i].name) {
            Some(found) => {
                slots.push(attributes[found].location);
            },
            None => {},
        }
        i += 1;
    }
    slots
}

/// A vector of `count` zeros.
fn zero_words(count: usize) -> (words: Vec<u32>)
    ensures
        words@ == zeros(count as nat),
{
    let mut words: Vec<u32> = Vec::new();
    let mut i: usize = 0;
    while i < count
        invariant
            i <= count,
            words@.len() == i,
            forall|k: int| 0 <= k < i ==> words@[k] == 0u32,
        decreases count - i,
    {
        words.push(0);
        i += 1;
    }
    proof {
        assert(words@ =~= zeros(count as nat));
    }
    words
}

/// A vector with the numbers of `numbers`.
fn words_of(numbers: &[u32]) -> (words: Vec<u32>)
    ensures
        words@ == numbers@,
{
    let mut words: Vec<u32> = Vec::new();
    let mut i: usize = 0;
    while i < numbers.len()
        invariant
            i <= numbers.len(),
            words@ == numbers@.take(i as int),
        decreases numbers.len() - i,
    {
        words.push(numbers[i]);
        proof {
            assert(numbers@.take(i + 1) =~= numbers@.take(i as int).push(numbers@[i as int]));
        }
        i += 1;
    }
    proof {
        assert(numbers@.take(numbers.len() as int) =~= numbers@);
    }
    words
}

/// The command that writes the matrix `words` of `size` rows.
fn matrix_command(program: u64, location: u32, size: u32, words: Vec<u32>) -> (command: Command)
    ensures
        command@ == matrix_record(program, location, size, words@),
{
    Command {
        call: DeviceCall::UniformMatrix { program, location, size, transpose: false },
        words,
        bytes: Vec::new(),
    }
}

/// The command that writes the vector `words` of `size` components.
fn vector_command(program: u64, location: u32, size: u32, words: Vec<u32>) -> (command: Command)
    ensures
        command@ == vector_record(program, location, size, words@),
{
    Command { call: DeviceCall::UniformVector { program, location, size }, words, bytes: Vec::new() }
}

/// The command that writes a uniform that is not set: zero of the uniform's
/// type, and unit -1 for a sampler.
fn unset_command(program: u64, location: u32, data_type: DataType) -> (command: Command)
    ensures
        command@ == uniform_record(
            program,
            SlotView { name: Seq::empty(), location, data_type },
            UniformValue::Unset,
            0,
        ),
{
    match data_type {
        DataType::Boolean => Command::plain(DeviceCall::Uniform1i { program, location, value: 0 }),
        DataType::Float => Command::plain(DeviceCall::Uniform1f { program, location, x: 0 }),
        DataType::Vec2 => Command::plain(DeviceCall::Uniform2f { program, location, x: 0, y: 0 }),
        DataType::Vec3 => Command::plain(
            DeviceCall::Uniform3f { program, location, x: 0, y: 0, z: 0 },
        ),
        DataType::Vec4 => Command::plain(
            DeviceCall::Uniform4f { program, location, x: 0, y: 0, z: 0, w: 0 },
        ),
        DataType::Mat2 => matrix_command(program, location, 2, zero_words(4)),
        DataType::Mat3 => matrix_command(program, location, 3, zero_words(9)),
        DataType::Mat4 => matrix_command(program, location, 4, zero_words(16)),
        DataType::Sampler => Command::plain(
            DeviceCall::Uniform1i { program, location, value: -1 },
        ),
    }
}

/// The command that writes `value` to a uniform; see [`uniform_record`].
pub fn uniform_command(
    program: u64,
    location: u32,
    data_type: DataType,
    value: &UniformValue,
    unit: usize,
) -> (command: Command)
    requires
        unit <= i32::MAX,
    ensures
        forall|name: Seq<char>|
            command@ == #[trigger] uniform_record(
                program,
                SlotView { name, location, data_type },
                *value,
                unit as nat,
            ),
        command@.call.released() is None,
{
    match value {
        UniformValue::Unset => unset_command(program, location, data_type),
        UniformValue::Boolean(value) => Command::plain(
            DeviceCall::Uniform1i {
                program,
                location,
                value: if *value {
                    1
                } else {
                    0
                },
            },
        ),
        UniformValue::Float(value) => Command::plain(
            DeviceCall::Uniform1f { program, location, x: *value },
        ),
        UniformValue::Vec2(value) => vector_command(program, location, 2, words_of(value)),
        UniformValue::Vec3(value) => vector_command(program, location, 3, words_of(value)),
        UniformValue::Vec4(value) => vector_command(program, location, 4, words_of(value)),
        UniformValue::Mat2(value) => matrix_command(program, location, 2, words_of(value)),
        UniformValue::Mat3(value) => matrix_command(program, location, 3, words_of(value)),
        UniformValue::Mat4(value) => matrix_command(program, location, 4, words_of(value)),
        UniformValue::Texture(_) => Command::plain(
            DeviceCall::Uniform1i { program, location, value: unit as i32 },
        ),
    }
}

/// The commands that write the uniforms `fields` to the program, and the
/// textures that they bind, in their order; see [`uniform_records`] and
/// [`bound_textures`].
pub fn uniform_commands(program: u64, uniforms: &Vec<UniformInfo>, fields: &Vec<Field>) -> (out: (
    Vec<Command>,
    Vec<u64>,
))
    requires
        bound_textures(uniform_views(uniforms@), fields@, fields@.len()).len() <= i32::MAX,
    ensures
        records(out.0@) == uniform_records(
            program,
            uniform_views(uniforms@),
            fields@,
            fields@.len(),
        ),
        release_nothing(records(out.0@)),
        out.1@ == bound_textures(uniform_views(uniforms@), fields@, fields@.len()),
{
    let mut commands: Vec<Command> = Vec::new();
    let mut textures: Vec<u64> = Vec::new();
    let mut i: usize = 0;
    let ghost slots = uniform_views(uniforms@);
    proof {
        assert(records(commands@) =~= uniform_records(program, slots, fields@, 0));
    }
    while i < fields.len()
        invariant
            i <= fields.len(),
            slots == uniform_views(uniforms@),
            bound_textures(slots, fields@, fields@.len()).len() <= i32::MAX,
            records(commands@) == uniform_records(program, slots, fields@, i as nat),
            release_nothing(records(commands@)),
            textures@ == bound_textures(slots, fields@, i as nat),
        decreases fields.len() - i,
    {
        let field = fields[i];
        let ghost before = records(commands@);
        proof {
            lemma_bound_textures_grow(slots, fields@, (i + 1) as nat, fields@.len());
            lemma_bound_textures_grow(slots, fields@, i as nat, (i + 1) as nat);
        }
        match find_uniform(uniforms, field.name) {
            Some(found) => {
                let info = &uniforms[found];
                let command = uniform_command(
                    program,
                    info.location,
                    info.data_type,
                    &field.value,
                    textures.len(),
                );
                let ghost record = command@;
                proof {
                    assert(slots[found as int] == (SlotView {
                        name: info.name@,
                        location: info.location,
                        data_type: info.data_type,
                    }));
                    assert(record == uniform_record(
                        program,
                        slots[found as int],
                        field.value,
                        textures@.len(),
                    ));
                }
                commands.push(command);
                proof {
                    assert(records(commands@) =~= before.push(record));
                }
                if let UniformValue::Texture(texture) = field.value {
                    textures.push(texture);
                }
            },
            None => {},
        }
        i += 1;
    }
    (commands, textures)
}

/// The textures bound grow with the uniforms.
pub proof fn lemma_bound_textures_grow(
    uniforms: Seq<SlotView>,
    fields: Seq<Field>,
    low: nat,
    high: nat,
)
    requires
        low <= high,
    ensures
        bound_textures(uniforms, fields, low).len() <= bound_textures(uniforms, fields, high).len(),
    decreases high,
{
    if low < high {
        lemma_bound_textures_grow(uniforms, fields, low, (high - 1) as nat);
    }
}

/// A handle on a linked device program. Handles on one device object are equal; the object
/// lives until the last handle is released and the library no longer needs it.
#[derive(Debug, PartialEq, Eq, Structural)]
pub struct Program {
    id: u64,
}

impl Program {
    /// The identifier of the device object.
    pub closed spec fn spec_id(&self) -> u64 {
        self.id
    }

    /// The identifier of the device object.
    #[verifier::when_used_as_spec(spec_id)]
    pub fn id(&self) -> (id: u64)
        ensures
            id == self.spec_id(),
    {
        self.id
    }

    /// Whether `id` names a linked device program of `gl` on which a caller holds a handle.
    pub open spec fn names(gl: GlView, id: u64) -> bool {
        &&& gl.live(id)
        &&& gl.objects[id].body is Program
        &&& gl.objects[id].handles > 0
    }

    /// Whether the handle is one of those counted on a linked device program of `gl`.
    pub open spec fn held(&self, gl: GlView) -> bool {
        Self::names(gl, self.id())
    }

    /// Whether the handle is one of those counted on a linked device program of `gl`.
    pub fn is_held(&self, gl: &Gl) -> (held: bool)
        requires
            gl.wf(),
        ensures
            held == self.held(gl@),
    {
        if gl.is_live(self.id) {
            let object = gl.lookup(self.id);
            object.handles > 0 && matches!(object.body, Body::Program { .. })
        } else {
            false
        }
    }

    /// One more handle on the same device object.
    pub fn share(&self, gl: &mut Gl) -> (handle: Program)
        requires
            old(gl).wf(),
            self.held(old(gl)@),
            old(gl)@.objects[self.id()].handles < u64::MAX,
        ensures
            final(gl).wf(),
            handle == *self,
            handle.id() == self.id(),
            handle.held(final(gl)@),
            final(gl)@ == old(gl)@.with_handles(
                self.id(),
                (old(gl)@.objects[self.id()].handles + 1) as u64,
            ),
    {
        gl.share(self.id);
        Program { id: self.id }
    }

    /// Gives the handle up. The device is asked to release the
    /// program and its shaders if this was the last handle on it and the program
    /// is not in use.
    pub fn release(self, gl: &mut Gl)
        requires
            old(gl).wf(),
            self.held(old(gl)@),
        ensures
            final(gl).wf(),
            final(gl)@ == old(gl)@.released(self.id()),
    {
        gl.release(self.id);
    }

    /// The active attributes that the device reported, or the first failure
    /// among them.
    pub fn collect_attributes(report: &LinkReport) -> (result: Result<Vec<AttributeInfo>, GlError>)
        ensures
            match result {
                Ok(attributes) => attributes_of(*report) == Ok::<Seq<SlotView>, ErrorView>(
                    attribute_views(attributes@),
                ),
                Err(error) => attributes_of(*report) == Err::<Seq<SlotView>, ErrorView>(error@),
            },
    {
        let count = match report.attribute_count {
            Some(count) => count,
            None => {
                return Err(
                    GlError::UnknownError(Some("Failed to get attributes count".to_owned())),
                );
            },
        };
        let mut result: Vec<AttributeInfo> = Vec::new();
        let mut i: u32 = 0;
        proof {
            assert(attribute_views(result@) =~= Seq::<SlotView>::empty());
        }
        while i < count
            invariant
                i <= count,
                report.attribute_count == Some(count),
                collected_attributes(report.attributes@, i as nat) == Ok::<
                    Seq<SlotView>,
                    ErrorView,
                >(attribute_views(result@)),
            decreases count - i,
        {
            let ghost before = attribute_views(result@);
            let ghost outcome = attribute_outcome(entry(report.attributes@, i as int));
            let entry = if (i as usize) < report.attributes.len() {
                Some(&report.attributes[i as usize])
            } else {
                None
            };
            let failure: Option<GlError> = match entry {
                Some(AttributeReport { info: Some(info), location }) => {
                    if info.size != 1 {
                        Some(GlError::UnsupportedType(Some(info.name.clone())))
                    } else {
                        match DataType::try_from(info.type_code) {
                            Err(_) => Some(GlError::UnsupportedType(Some(info.name.clone()))),
                            Ok(data_type) => {
                                if *location < 0 {
                                    Some(
                                        GlError::UnknownError(
                                            Some("Negative attribute location".to_owned()),
                                        ),
                                    )
                                } else {
                                    result.push(
                                        AttributeInfo {
                                            name: info.name.clone(),
                                            location: *location as u32,
                                            data_type,
                                        },
                                    );
                                    None
                                }
                            },
                        }
                    }
                },
                _ => Some(GlError::UnknownError(Some("Failed to get attribute info".to_owned()))),
            };
            match failure {
                Some(error) => {
                    proof {
                        assert(outcome == Err::<SlotView, ErrorView>(error@));
                        assert(collected_attributes(report.attributes@, (i + 1) as nat) == Err::<
                            Seq<SlotView>,
                            ErrorView,
                        >(error@));
                        lemma_attribute_failure_stays(
                            report.attributes@,
                            (i + 1) as nat,
                            count as nat,
                        );
                    }
                    return Err(error);
                },
                None => {
                    proof {
                        assert(outcome is Ok);
                        assert(attribute_views(result@) =~= before.push(outcome->Ok_0));
                    }
                },
            }
            i += 1;
        }
        Ok(result)
    }

    /// The active uniforms that the device reported, or the first failure among
    /// them.
    pub fn collect_uniforms(report: &LinkReport) -> (result: Result<Vec<UniformInfo>, GlError>)
        ensures
            match result {
                Ok(uniforms) => uniforms_of(*report) == Ok::<Seq<SlotView>, ErrorView>(
                    uniform_views(uniforms@),
                ),
                Err(error) => uniforms_of(*report) == Err::<Seq<SlotView>, ErrorView>(error@),
            },
    {
        let count = match report.uniform_count {
            Some(count) => count,
            None => {
                return Err(GlError::UnknownError(Some("Failed to get uniforms count".to_owned())));
            },
        };
        let mut result: Vec<UniformInfo> = Vec::new();
        let mut i: u32 = 0;
        proof {
            assert(uniform_views(result@) =~= Seq::<SlotView>::empty());
        }
        while i < count
            invariant
                i <= count,
                report.uniform_count == Some(count),
                collected_uniforms(report.uniforms@, i as nat) == Ok::<Seq<SlotView>, ErrorView>(
                    uniform_views(result@),
                ),
            decreases count - i,
        {
            let ghost before = uniform_views(result@);
            let ghost outcome = uniform_outcome(entry(report.uniforms@, i as int), i);
            let entry = if (i as usize) < report.uniforms.len() {
                Some(&report.uniforms[i as usize])
            } else {
                None
            };
            let failure: Option<GlError> = match entry {
                Some(UniformReport { info: Some(info), located }) => {
                    if info.size != 1 {
                        Some(GlError::UnsupportedType(Some(info.name.clone())))
                    } else if !*located {
                        Some(
                            GlError::UnknownError(
                                Some("Failed to get uniform location".to_owned()),
                            ),
                        )
                    } else {
                        match DataType::try_from(info.type_code) {
                            Err(_) => Some(GlError::UnsupportedType(Some(info.name.clone()))),
                            Ok(data_type) => {
                                result.push(
                                    UniformInfo { name: info.name.clone(), location: i, data_type },
                                );
                                None
                            },
                        }
                    }
                },
                _ => Some(GlError::UnknownError(Some("Failed to get uniform info".to_owned()))),
            };
            match failure {
                Some(error) => {
                    proof {
                        assert(outcome == Err::<SlotView, ErrorView>(error@));
                        assert(collected_uniforms(report.uniforms@, (i + 1) as nat) == Err::<
                            Seq<SlotView>,
                            ErrorView,
                        >(error@));
                        lemma_uniform_failure_stays(report.uniforms@, (i + 1) as nat, count as nat);
                    }
                    return Err(error);
                },
                None => {
                    proof {
                        assert(outcome is Ok);
                        assert(uniform_views(result@) =~= before.push(outcome->Ok_0));
                    }
                },
            }
            i += 1;
        }
        Ok(result)
    }

    pub open spec fn spec_vertex_source(&self, gl: GlView) -> Seq<char> {
        gl.objects[self.id()].body->Program_vertex_source@
    }

    pub open spec fn spec_fragment_source(&self, gl: GlView) -> Seq<char> {
        gl.objects[self.id()].body->Program_fragment_source@
    }

    /// The active attributes of the program.
    pub open spec fn spec_attributes(&self, gl: GlView) -> Seq<SlotView> {
        attribute_views(gl.objects[self.id()].body->Program_attributes@)
    }

    /// The active uniforms of the program.
    pub open spec fn spec_uniforms(&self, gl: GlView) -> Seq<SlotView> {
        uniform_views(gl.objects[self.id()].body->Program_uniforms@)
    }

    /// Makes a program of the two stages, on the device's answers `report` on
    /// its build. The program is refused for the first reason that the answers
    /// give, see [`link_outcome`], and where the library has no identifier left
    /// for it. Nothing is kept of a program that is refused: the device is asked
    /// to release what it made for it, see [`refusal_calls`].
    pub fn new(
        gl: &mut Gl,
        fragment_shader_source: &str,
        vertex_shader_source: &str,
        report: &LinkReport,
    ) -> (result: Result<Program, GlError>)
        requires
            old(gl).wf(),
        ensures
            final(gl).wf(),
            match result {
                Ok(program) => {
                    let id = old(gl)@.next;
                    &&& id < u64::MAX
                    &&& program.id() == id
                    &&& !old(gl)@.live(id)
                    &&& program.held(final(gl)@)
                    &&& final(gl)@ == old(gl)@.created(final(gl)@.objects[id].body)
                    &&& program.spec_vertex_source(final(gl)@) == vertex_shader_source@
                    &&& program.spec_fragment_source(final(gl)@) == fragment_shader_source@
                    &&& link_outcome(fragment_shader_source@, vertex_shader_source@, *report)
                        == Ok::<(Seq<SlotView>, Seq<SlotView>), ErrorView>(
                        (program.spec_attributes(final(gl)@), program.spec_uniforms(final(gl)@)),
                    )
                },
                Err(error) => {
                    &&& final(gl)@ == old(gl)@.emitted_all(plain_all(refusal_calls(*report)))
                    &&& match link_outcome(
                        fragment_shader_source@,
                        vertex_shader_source@,
                        *report,
                    ) {
                        Err(failure) => error@ == failure,
                        Ok(_) => old(gl)@.next == u64::MAX && error@
                            == ErrorView::ProgramAllocationError,
                    }
                },
            },
    {
        match check_shader(vertex_shader_source, &report.vertex) {
            Err(error) => {
                gl.emit_all(refusal_commands(report));
                return Err(error);
            },
            Ok(_) => {},
        }
        match check_shader(fragment_shader_source, &report.fragment) {
            Err(error) => {
                gl.emit_all(refusal_commands(report));
                return Err(error);
            },
            Ok(_) => {},
        }
        if !report.program_created {
            gl.emit_all(refusal_commands(report));
            return Err(GlError::ProgramAllocationError);
        }
        match report.linked {
            None => {
                gl.emit_all(refusal_commands(report));
                return Err(
                    GlError::UnknownError(Some("Failed to get linking status".to_owned())),
                );
            },
            Some(false) => {
                gl.emit_all(refusal_commands(report));
                return Err(
                    GlError::ProgramLinkingError {
                        vertex: vertex_shader_source.to_owned(),
                        fragment: fragment_shader_source.to_owned(),
                        info: copy_text(&report.info),
                    },
                );
            },
            Some(true) => {},
        }
        let attributes = match Self::collect_attributes(report) {
            Ok(attributes) => attributes,
            Err(error) => {
                gl.emit_all(refusal_commands(report));
                return Err(error);
            },
        };
        let uniforms = match Self::collect_uniforms(report) {
            Ok(uniforms) => uniforms,
            Err(error) => {
                gl.emit_all(refusal_commands(report));
                return Err(error);
            },
        };
        if !gl.can_create() {
            gl.emit_all(refusal_commands(report));
            return Err(GlError::ProgramAllocationError);
        }
        let id = gl.create(
            Body::Program {
                vertex_source: vertex_shader_source.to_owned(),
                fragment_source: fragment_shader_source.to_owned(),
                attributes,
                uniforms,
            },
        );
        Ok(Program { id })
    }

    /// The setting that puts the program `id` in use.
    pub open spec fn in_use(id: u64) -> SettingView {
        SettingView::Cached(CachedSetting::Program(ProgramSetting { program: Some(id) }))
    }

    /// The settings under which a draw call of the program runs: the program in
    /// use and exactly the attribute slots `slots` enabled.
    pub open spec fn draw_scope(id: u64, slots: Seq<u32>) -> Seq<SettingView> {
        seq![Self::in_use(id), SettingView::EnabledAttributes(slots)]
    }

    /// The setting that binds the textures of the uniforms `fields`.
    pub open spec fn texture_scope(uniforms: Seq<SlotView>, fields: Seq<Field>) -> SettingView {
        SettingView::TextureList(unit_bindings(bound_textures(uniforms, fields, fields.len())))
    }

    /// The cache inside the scopes of a draw call: under the program, the
    /// enabled slots and the textures of the uniforms.
    pub open spec fn draw_cache(
        cache: CacheView,
        id: u64,
        slots: Seq<u32>,
        uniforms: Seq<SlotView>,
        fields: Seq<Field>,
    ) -> CacheView {
        shifted_all(cache, Self::draw_scope(id, slots)).shifted(
            Self::texture_scope(uniforms, fields),
        )
    }

    /// What the device is sent to have the vertices of `buffer` described to
    /// it: the buffer is bound and the program put in use, every field that feeds
    /// an attribute is described, and the two settings are undone.
    pub open spec fn described(
        cache: CacheView,
        id: u64,
        attributes: Seq<SlotView>,
        buffer: u64,
        layout: Seq<Layout>,
        stride: usize,
    ) -> Seq<Record> {
        round_trip(
            cache,
            seq![ArrayBuffer::binding(buffer), Self::in_use(id)],
            plain_all(pointer_calls(attributes, layout, stride, layout.len())),
        )
    }

    /// What the device is sent for a draw call of the program: the program is
    /// put in use and exactly the slots `slots` are enabled; every uniform of
    /// `fields` that the program has is written, with the program in use; the
    /// textures of the uniforms are bound to the first texture units; under all
    /// these the calls `inside` run; then the bindings and settings are undone,
    /// innermost first.
    pub open spec fn drawn(
        cache: CacheView,
        id: u64,
        slots: Seq<u32>,
        uniforms: Seq<SlotView>,
        fields: Seq<Field>,
        inside: Seq<Record>,
    ) -> Seq<Record> {
        let inner = shifted_all(cache, Self::draw_scope(id, slots));
        round_trip(
            cache,
            Self::draw_scope(id, slots),
            round_trip(
                inner,
                seq![Self::in_use(id)],
                uniform_records(id, uniforms, fields, fields.len()),
            ) + round_trip(inner, seq![Self::texture_scope(uniforms, fields)], inside),
        )
    }

    /// The calls inside the scopes of a draw call: the vertices are described,
    /// and the device draws; with instances, these are described too, and the
    /// device draws while the attributes that they feed advance once per instance.
    pub open spec fn drawing(
        cache: CacheView,
        id: u64,
        attributes: Seq<SlotView>,
        vertices: (u64, Seq<Layout>, usize),
        instances: Option<(u64, Seq<Layout>, usize)>,
        draw: DeviceCall,
    ) -> Seq<Record> {
        let described = Self::described(cache, id, attributes, vertices.0, vertices.1, vertices.2);
        match instances {
            None => described.push(plain(draw)),
            Some(instances) => described + Self::described(
                cache,
                id,
                attributes,
                instances.0,
                instances.1,
                instances.2,
            ) + round_trip(
                cache,
                seq![
                    SettingView::InstancedAttributes(
                        fed_slots(attributes, instances.1, instances.1.len()),
                    ),
                ],
                seq![plain(draw)],
            ),
        }
    }

    /// Whether the uniforms `fields` can be written to the program: the textures
    /// among them are no more than there are texture units, and they exist.
    pub open spec fn takes(&self, gl: GlView, fields: Seq<Field>) -> bool {
        let textures = bound_textures(self.spec_uniforms(gl), fields, fields.len());
        &&& textures.len() <= TEXTURES_COUNT
        &&& forall|i: int| 0 <= i < textures.len() ==> gl.live(#[trigger] textures[i])
    }

    /// Has the device describe the vertices of `buffer` to the program.
    fn describe(gl: &mut Gl, id: u64, buffer: u64, commands: Vec<Command>)
        requires
            old(gl).wf(),
            old(gl)@.live(id),
            old(gl)@.live(buffer),
            release_nothing(records(commands@)),
        ensures
            final(gl).wf(),
            final(gl)@ == old(gl)@.emitted_all(
                round_trip(
                    old(gl)@.cache,
                    seq![ArrayBuffer::binding(buffer), Self::in_use(id)],
                    records(commands@),
                ),
            ),
            release_nothing(
                round_trip(
                    old(gl)@.cache,
                    seq![ArrayBuffer::binding(buffer), Self::in_use(id)],
                    records(commands@),
                ),
            ),
    {
        let mut settings: Vec<Setting> = Vec::new();
        settings.push(Setting::Cached(CachedSetting::ArrayBuffer(ArrayBufferSetting(Some(buffer)))));
        settings.push(Setting::Cached(CachedSetting::Program(ProgramSetting { program: Some(id) })));
        proof {
            assert(views(settings@) =~= seq![ArrayBuffer::binding(buffer), Self::in_use(id)]);
            lemma_round_trip(old(gl)@, views(settings@), records(commands@));
        }
        gl.run(&settings, commands);
    }

    /// Opens the scopes of a draw call of the program `id`: puts the program in
    /// use and enables the attribute slots `slots`, writes the uniforms, and binds
    /// the textures.
    fn begin_draw(gl: &mut Gl, id: u64, slots: Vec<u32>, writes: Vec<Command>, textures: &Vec<u64>)
        requires
            old(gl).wf(),
            old(gl)@.live(id),
            textures@.len() <= TEXTURES_COUNT,
            forall|i: int| 0 <= i < textures@.len() ==> old(gl)@.live(#[trigger] textures@[i]),
            release_nothing(records(writes@)),
        ensures
            final(gl).wf(),
            ({
                let scope = seq![Self::in_use(id), SettingView::EnabledAttributes(slots@)];
                let inner = shifted_all(old(gl)@.cache, scope);
                let first = round_trip(inner, seq![Self::in_use(id)], records(writes@));
                &&& release_nothing(first)
                &&& old(gl)@.entered_all(scope).wf()
                &&& old(gl)@.entered_all(scope).emitted_all(first).wf()
                &&& old(gl)@.entered_all(scope).emitted_all(first).cache == inner
                &&& final(gl)@ == old(gl)@.entered_all(scope).emitted_all(first).entered(
                    SettingView::TextureList(unit_bindings(textures@)),
                )
                &&& final(gl)@.objects == old(gl)@.objects
                &&& final(gl)@.cache == inner.shifted(
                    SettingView::TextureList(unit_bindings(textures@)),
                )
            }),
    {
        let ghost start = gl@;
        let ghost scope = seq![Self::in_use(id), SettingView::EnabledAttributes(slots@)];
        let mut outer: Vec<Setting> = Vec::new();
        outer.push(Setting::Cached(CachedSetting::Program(ProgramSetting { program: Some(id) })));
        outer.push(Setting::EnabledAttributes(EnabledAttributesSetting { items: slots }));
        proof {
            assert(views(outer@) =~= scope);
            assert(start.has_all(scope));
            lemma_scopes_entered(start, scope);
            lemma_entered_all_wf(start, scope);
        }
        gl.enter_all(&outer);
        let ghost entered = gl@;
        let in_use = CachedSetting::Program(ProgramSetting { program: Some(id) }).alone();
        proof {
            assert(views(in_use@) =~= seq![Self::in_use(id)]);
            lemma_round_trip(entered, views(in_use@), records(writes@));
        }
        gl.run(&in_use, writes);
        let units = Setting::TextureList(TextureListSetting { textures: bind_units(textures) });
        proof {
            assert forall|x: u64| units@.refers(x) implies gl@.live(x) by {
                let all = unit_bindings(textures@);
                let k = choose|k: int| 0 <= k < all.len() && all[k] == Some(x);
                assert(textures@[k] == x);
            }
        }
        gl.enter(&units);
    }

    /// Closes the scopes of a draw call: undoes the bindings of the textures,
    /// the enabled attributes and the program in use.
    fn end_draw(
        gl: &mut Gl,
        Ghost(start): Ghost<GlView>,
        Ghost(scope): Ghost<Seq<SettingView>>,
        Ghost(first): Ghost<Seq<Record>>,
        Ghost(bindings): Ghost<SettingView>,
        Ghost(inside): Ghost<Seq<Record>>,
    )
        requires
            old(gl).wf(),
            start.wf(),
            scope.len() == 2,
            all_valid(scope),
            start.has_all(scope),
            bindings.valid(),
            forall|x: u64| bindings.refers(x) ==> start.live(x),
            release_nothing(first),
            release_nothing(inside),
            start.entered_all(scope).emitted_all(first).wf(),
            old(gl)@ == start.entered_all(scope).emitted_all(first).entered(bindings).emitted_all(
                inside,
            ),
        ensures
            final(gl).wf(),
            final(gl)@ == start.emitted_all(
                round_trip(
                    start.cache,
                    scope,
                    first + round_trip(shifted_all(start.cache, scope), seq![bindings], inside),
                ),
            ),
    {
        let ghost entered = start.entered_all(scope);
        let ghost stated = entered.emitted_all(first);
        proof {
            lemma_scopes_entered(start, scope);
        }
        gl.leave_scope(Ghost(stated), Ghost(bindings), Ghost(inside));
        let ghost second = round_trip(stated.cache, seq![bindings], inside);
        proof {
            assert(gl@.issued =~= entered.issued + (first + second));
            assert(gl@.pending =~= entered.pending + (first + second));
            assert(gl@ == entered.emitted_all(first + second));
            assert forall|k: int| 0 <= k < (first + second).len() implies (#[trigger] (first
                + second)[k]).call.released() is None by {
                if k < first.len() {
                    assert((first + second)[k] == first[k]);
                } else {
                    assert((first + second)[k] == second[k - first.len()]);
                }
            }
            lemma_round_trip(start, scope, first + second);
        }
        gl.leave_all(2);
    }

    /// Has the device describe the vertices, and the instances if there are any,
    /// and draw; see [`Program::drawing`].
    fn draw_inside(
        gl: &mut Gl,
        id: u64,
        Ghost(attributes): Ghost<Seq<SlotView>>,
        vertices: (u64, Vec<Command>),
        Ghost(layout): Ghost<(Seq<Layout>, usize)>,
        instances: Option<(u64, Vec<Command>, Vec<u32>)>,
        Ghost(instance_layout): Ghost<(Seq<Layout>, usize)>,
        draw: DeviceCall,
    )
        requires
            old(gl).wf(),
            old(gl)@.live(id),
            old(gl)@.live(vertices.0),
            records(vertices.1@) == plain_all(
                pointer_calls(attributes, layout.0, layout.1, layout.0.len()),
            ),
            release_nothing(records(vertices.1@)),
            instances matches Some(instances) ==> {
                &&& old(gl)@.live(instances.0)
                &&& records(instances.1@) == plain_all(
                    pointer_calls(
                        attributes,
                        instance_layout.0,
                        instance_layout.1,
                        instance_layout.0.len(),
                    ),
                )
                &&& release_nothing(records(instances.1@))
                &&& instances.2@ == fed_slots(
                    attributes,
                    instance_layout.0,
                    instance_layout.0.len(),
                )
            },
            draw.released() is None,
        ensures
            final(gl).wf(),
            ({
                let inside = Self::drawing(
                    old(gl)@.cache,
                    id,
                    attributes,
                    (vertices.0, layout.0, layout.1),
                    match instances {
                        Some(instances) => Some(
                            (instances.0, instance_layout.0, instance_layout.1),
                        ),
                        None => None,
                    },
                    draw,
                );
                &&& release_nothing(inside)
                &&& final(gl)@ == old(gl)@.emitted_all(inside)
            }),
    {
        let ghost bound = gl@;
        let ghost described = Self::described(
            bound.cache,
            id,
            attributes,
            vertices.0,
            layout.0,
            layout.1,
        );
        Self::describe(gl, id, vertices.0, vertices.1);
        match instances {
            Some((buffer, commands, slots)) => {
                let ghost more = Self::described(
                    bound.cache,
                    id,
                    attributes,
                    buffer,
                    instance_layout.0,
                    instance_layout.1,
                );
                Self::describe(gl, id, buffer, commands);
                let ghost before = gl@;
                let ghost advance = SettingView::InstancedAttributes(slots@);
                let mut advancing: Vec<Setting> = Vec::new();
                advancing.push(Setting::InstancedAttributes(InstancedAttributesSetting { items: slots }));
                let mut calls: Vec<Command> = Vec::new();
                calls.push(Command::plain(draw));
                let ghost last = round_trip(bound.cache, seq![advance], seq![plain(draw)]);
                proof {
                    assert(views(advancing@) =~= seq![advance]);
                    assert(records(calls@) =~= seq![plain(draw)]);
                    lemma_round_trip(before, views(advancing@), records(calls@));
                }
                gl.run(&advancing, calls);
                proof {
                    let inside = described + more + last;
                    assert(gl@.issued =~= bound.issued + inside);
                    assert(gl@.pending =~= bound.pending + inside);
                    assert forall|k: int| 0 <= k < inside.len() implies (#[trigger] inside[k]).call.released()
                        is None by {
                        if k < described.len() {
                            assert(inside[k] == described[k]);
                        } else if k < described.len() + more.len() {
                            assert(inside[k] == more[k - described.len()]);
                        } else {
                            assert(inside[k] == last[k - described.len() - more.len()]);
                        }
                    }
                }
            },
            None => {
                gl.emit(Command::plain(draw));
                proof {
                    let inside = described.push(plain(draw));
                    assert(gl@.issued =~= bound.issued + inside);
                    assert(gl@.pending =~= bound.pending + inside);
                    assert forall|k: int| 0 <= k < inside.len() implies (#[trigger] inside[k]).call.released()
                        is None by {
                        if k < described.len() {
                            assert(inside[k] == described[k]);
                        }
                    }
                }
            },
        }
    }

    /// Runs a draw call of the program; see [`Program::drawn`] and
    /// [`Program::drawing`].
    fn draw_scoped(
        &self,
        gl: &mut Gl,
        fields: &Vec<Field>,
        vertices: (u64, &Vec<Layout>, usize),
        instances: Option<(u64, &Vec<Layout>, usize)>,
        draw: DeviceCall,
    )
        requires
            old(gl).wf(),
            self.held(old(gl)@),
            self.takes(old(gl)@, fields@),
            old(gl)@.live(vertices.0),
            layout_fits(vertices.1@, vertices.2),
            instances matches Some(instances) ==> old(gl)@.live(instances.0) && layout_fits(
                instances.1@,
                instances.2,
            ),
            draw.released() is None,
        ensures
            final(gl).wf(),
            final(gl)@ == old(gl)@.emitted_all(
                Self::drawn(
                    old(gl)@.cache,
                    self.id(),
                    draw_slots(
                        self.spec_attributes(old(gl)@),
                        vertices.1@,
                        match instances {
                            Some(instances) => Some(instances.1@),
                            None => None,
                        },
                    ),
                    self.spec_uniforms(old(gl)@),
                    fields@,
                    Self::drawing(
                        Self::draw_cache(
                            old(gl)@.cache,
                            self.id(),
                            draw_slots(
                                self.spec_attributes(old(gl)@),
                                vertices.1@,
                                match instances {
                                    Some(instances) => Some(instances.1@),
                                    None => None,
                                },
                            ),
                            self.spec_uniforms(old(gl)@),
                            fields@,
                        ),
                        self.id(),
                        self.spec_attributes(old(gl)@),
                        (vertices.0, vertices.1@, vertices.2),
                        match instances {
                            Some(instances) => Some((instances.0, instances.1@, instances.2)),
                            None => None,
                        },
                        draw,
                    ),
                ),
            ),
    {
        let id = self.id;
        let ghost start = gl@;
        let ghost attributes = self.spec_attributes(start);
        let ghost uniforms = self.spec_uniforms(start);
        let ghost enabled = draw_slots(
            attributes,
            vertices.1@,
            match instances {
                Some(instances) => Some(instances.1@),
                None => None,
            },
        );
        let ghost scope = Self::draw_scope(id, enabled);
        let ghost bindings = Self::texture_scope(uniforms, fields@);
        let (slots, writes, textures, pointers, second) = match &gl.lookup(id).body {
            Body::Program { attributes, uniforms, .. } => {
                let (writes, textures) = uniform_commands(id, uniforms, fields);
                let mut slots = fed(attributes, vertices.1);
                let second = match instances {
                    Some((buffer, layout, stride)) => {
                        let mut more = fed(attributes, layout);
                        slots.append(&mut more);
                        Some(
                            (
                                buffer,
                                pointer_commands(attributes, layout, stride),
                                fed(attributes, layout),
                            ),
                        )
                    },
                    None => None,
                };
                proof {
                    assert(slots@ =~= enabled);
                }
                (
                    slots,
                    writes,
                    textures,
                    pointer_commands(attributes, vertices.1, vertices.2),
                    second,
                )
            },
            _ => (Vec::new(), Vec::new(), Vec::new(), Vec::new(), None),
        };
        let ghost first = round_trip(
            shifted_all(start.cache, scope),
            seq![Self::in_use(id)],
            records(writes@),
        );
        Self::begin_draw(gl, id, slots, writes, &textures);
        let ghost bound = gl@;
        let ghost instance_layout = match instances {
            Some(instances) => (instances.1@, instances.2),
            None => (Seq::empty(), 0usize),
        };
        Self::draw_inside(
            gl,
            id,
            Ghost(attributes),
            (vertices.0, pointers),
            Ghost((vertices.1@, vertices.2)),
            second,
            Ghost(instance_layout),
            draw,
        );
        let ghost inside = Self::drawing(
            bound.cache,
            id,
            attributes,
            (vertices.0, vertices.1@, vertices.2),
            match instances {
                Some(instances) => Some((instances.0, instances.1@, instances.2)),
                None => None,
            },
            draw,
        );
        proof {
            assert forall|x: u64| bindings.refers(x) implies start.live(x) by {
                let bound_list = bound_textures(uniforms, fields@, fields@.len());
                let all = unit_bindings(bound_list);
                let k = choose|k: int| 0 <= k < all.len() && all[k] == Some(x);
                assert(bound_list[k] == x);
            }
            assert(start.has_all(scope));
        }
        Self::end_draw(
            gl,
            Ghost(start),
            Ghost(scope),
            Ghost(first),
            Ghost(bindings),
            Ghost(inside),
        );
    }

    /// Draws the vertices of `attributes` as primitives of `primitive_type`, with
    /// the uniforms `uniforms`: one device draw call over all items of the
    /// buffer, under the program, the attributes that the vertices feed, the
    /// uniforms and their textures; see [`Program::drawn`]. Names that only the
    /// program or only the caller's data have are passed over.
    pub fn draw_arrays<T: Item, U: Uniforms>(
        &self,
        gl: &mut Gl,
        primitive_type: PrimitiveType,
        uniforms: &U,
        attributes: &ItemsBuffer<T>,
    )
        requires
            old(gl).wf(),
            self.held(old(gl)@),
            attributes.buffer().held(old(gl)@),
            attributes.buffer().spec_len(old(gl)@) <= i32::MAX,
            layout_fits(T::spec_layout(), T::spec_stride()),
            self.takes(old(gl)@, uniforms.spec_uniforms()),
        ensures
            final(gl).wf(),
            final(gl)@ == old(gl)@.emitted_all(
                Self::drawn(
                    old(gl)@.cache,
                    self.id(),
                    draw_slots(self.spec_attributes(old(gl)@), T::spec_layout(), None),
                    self.spec_uniforms(old(gl)@),
                    uniforms.spec_uniforms(),
                    Self::drawing(
                        Self::draw_cache(
                            old(gl)@.cache,
                            self.id(),
                            draw_slots(self.spec_attributes(old(gl)@), T::spec_layout(), None),
                            self.spec_uniforms(old(gl)@),
                            uniforms.spec_uniforms(),
                        ),
                        self.id(),
                        self.spec_attributes(old(gl)@),
                        (attributes.buffer().id(), T::spec_layout(), T::spec_stride()),
                        None,
                        DeviceCall::DrawArrays {
                            mode: primitive_type.spec_code(),
                            first: 0,
                            count: attributes.buffer().spec_len(old(gl)@) as i32,
                        },
                    ),
                ),
            ),
    {
        let fields = uniforms.uniforms();
        let layout = T::layout();
        let count = attributes.len(gl);
        let draw = DeviceCall::DrawArrays {
            mode: primitive_type.code(),
            first: 0,
            count: count as i32,
        };
        self.draw_scoped(
            gl,
            &fields,
            (attributes.buffer().id(), &layout, T::stride()),
            None,
            draw,
        );
    }

    /// Draws the vertices of `attributes` once for each item of `instances`,
    /// with the uniforms `uniforms`: one device draw call, during which the
    /// attributes that the instances feed advance once per instance; see
    /// [`Program::drawn`].
    pub fn draw_instances<T: Item, I: Item, U: Uniforms>(
        &self,
        gl: &mut Gl,
        primitive_type: PrimitiveType,
        uniforms: &U,
        attributes: &ItemsBuffer<T>,
        instances: &ItemsBuffer<I>,
    )
        requires
            old(gl).wf(),
            self.held(old(gl)@),
            attributes.buffer().held(old(gl)@),
            instances.buffer().held(old(gl)@),
            attributes.buffer().spec_len(old(gl)@) <= i32::MAX,
            instances.buffer().spec_len(old(gl)@) <= i32::MAX,
            layout_fits(T::spec_layout(), T::spec_stride()),
            layout_fits(I::spec_layout(), I::spec_stride()),
            self.takes(old(gl)@, uniforms.spec_uniforms()),
        ensures
            final(gl).wf(),
            final(gl)@ == old(gl)@.emitted_all(
                Self::drawn(
                    old(gl)@.cache,
                    self.id(),
                    draw_slots(
                        self.spec_attributes(old(gl)@),
                        T::spec_layout(),
                        Some(I::spec_layout()),
                    ),
                    self.spec_uniforms(old(gl)@),
                    uniforms.spec_uniforms(),
                    Self::drawing(
                        Self::draw_cache(
                            old(gl)@.cache,
                            self.id(),
                            draw_slots(
                                self.spec_attributes(old(gl)@),
                                T::spec_layout(),
                                Some(I::spec_layout()),
                            ),
                            self.spec_uniforms(old(gl)@),
                            uniforms.spec_uniforms(),
                        ),
                        self.id(),
                        self.spec_attributes(old(gl)@),
                        (attributes.buffer().id(), T::spec_layout(), T::spec_stride()),
                        Some((instances.buffer().id(), I::spec_layout(), I::spec_stride())),
                        DeviceCall::DrawArraysInstanced {
                            mode: primitive_type.spec_code(),
                            first: 0,
                            count: attributes.buffer().spec_len(old(gl)@) as i32,
                            instances: instances.buffer().spec_len(old(gl)@) as i32,
                        },
                    ),
                ),
            ),
    {
        let fields = uniforms.uniforms();
        let layout = T::layout();
        let instance_layout = I::layout();
        let count = attributes.len(gl);
        let instance_count = instances.len(gl);
        let draw = DeviceCall::DrawArraysInstanced {
            mode: primitive_type.code(),
            first: 0,
            count: count as i32,
            instances: instance_count as i32,
        };
        self.draw_scoped(
            gl,
            &fields,
            (attributes.buffer().id(), &layout, T::stride()),
            Some((instances.buffer().id(), &instance_layout, I::stride())),
            draw,
        );
    }

    /// The source of the vertex stage.
    pub fn vertex_source<'a>(&self, gl: &'a Gl) -> (source: &'a String)
        requires
            gl.wf(),
            self.held(gl@),
        ensures
            source@ == self.spec_vertex_source(gl@),
    {
        match &gl.lookup(self.id).body {
            Body::Program { vertex_source, .. } => vertex_source,
            _ => unreached(),
        }
    }

    /// The source of the fragment stage.
    pub fn fragment_source<'a>(&self, gl: &'a Gl) -> (source: &'a String)
        requires
            gl.wf(),
            self.held(gl@),
        ensures
            source@ == self.spec_fragment_source(gl@),
    {
        match &gl.lookup(self.id).body {
            Body::Program { fragment_source, .. } => fragment_source,
            _ => unreached(),
        }
    }
}

} // verus!
