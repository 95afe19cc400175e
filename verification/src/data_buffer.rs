use crate::buffer_usage::BufferUsage;
use crate::cache::round_trip;
use crate::device::{Command, DeviceCall, Record, ARRAY_BUFFER};
use crate::gl::{records, views, Gl, GlError, GlView};
use crate::objects::Body;
use crate::settings::{ArrayBufferSetting, CachedSetting, SettingView};
use crate::types::DataType;
use core::marker::PhantomData;
use vstd::prelude::*;

verus! {

/// A value that can be stored in a vertex buffer: it writes itself as a fixed
/// number of single-precision numbers, each given by its bit pattern.
pub trait Writable {
    /// The numbers that the value is stored as. An implementation says what
    /// they are; nothing is known of them where it does not.
    open spec fn written(&self) -> Seq<u32> {
        arbitrary()
    }

    /// How many numbers every value of the type is stored as; see
    /// [`Writable::written`].
    open spec fn spec_stride() -> usize {
        arbitrary()
    }

    /// Appends the numbers of the value to `output`.
    fn write(&self, output: &mut Vec<u32>)
        ensures
            final(output)@ == old(output)@ + self.written(),
            self.written().len() == Self::spec_stride(),
    ;

    /// How many numbers every value of the type is stored as.
    fn stride() -> (stride: usize)
        ensures
            stride == Self::spec_stride(),
    ;
}

/// One field of a vertex: the name of the attribute it feeds and its type.
#[derive(Clone, Copy, Debug, PartialEq, Eq)]
pub struct Layout {
    pub name: &'static str,
    pub data_type: DataType,
}

/// A vertex: a value that can be stored in a vertex buffer and whose fields
/// feed attributes.
pub trait Item: Writable {
    /// The fields of the vertex, in the order in which they are written. An
    /// implementation says what they are; nothing is known of them where it does
    /// not.
    open spec fn spec_layout() -> Seq<Layout> {
        arbitrary()
    }

    /// The fields of the vertex, in the order in which they are written.
    fn layout() -> (layout: Vec<Layout>)
        ensures
            layout@ == Self::spec_layout(),
    ;
}

/// The numbers that the first `count` items are stored as, one item after the
/// other.
pub open spec fn written_all<T: Writable>(items: Seq<T>, count: nat) -> Seq<u32>
    decreases count,
{
    if count == 0 {
        Seq::empty()
    } else {
        written_all(items, (count - 1) as nat) + items[count - 1].written()
    }
}

/// The numbers that `items` are stored as.
pub fn write_all<T: Writable>(items: &[T]) -> (data: Vec<u32>)
    ensures
        data@ == written_all(items@, items@.len()),
{
    let mut data: Vec<u32> = Vec::new();
    let mut i: usize = 0;
    while i < items.len()
        invariant
            i <= items.len(),
            data@ == written_all(items@, i as nat),
        decreases items.len() - i,
    {
        items[i].write(&mut data);
        i += 1;
    }
    data
}

/// The record of the upload of `words` to the buffer bound to `target`.
pub open spec fn buffer_data(target: u32, usage: BufferUsage, words: Seq<u32>) -> Record {
    Record {
        call: DeviceCall::BufferData { target, usage: usage.spec_code() },
        words,
        bytes: Seq::empty(),
    }
}

/// A handle on a device buffer of vertex data. Handles on one device object are equal; the object
/// lives until the last handle is released and the library no longer needs it.
#[derive(Debug, PartialEq, Eq, Structural)]
pub struct ArrayBuffer {
    id: u64,
}

impl ArrayBuffer {
    /// The identifier of the device object.
    pub closed spec fn spec_id(&self) -> u64 {
        self.id
    }

    /// The identifier of the device object.
    #[verifier::when_used_as_spec(spec_id)]
    pub fn id(&self) -> (id: u64)
        ensures
            id == self.spec_id(),
    {
        self.id
    }

    /// Whether `id` names a device buffer of vertex data of `gl` on which a caller holds a handle.
    pub open spec fn names(gl: GlView, id: u64) -> bool {
        &&& gl.live(id)
        &&& gl.objects[id].body is ArrayBuffer
        &&& gl.objects[id].handles > 0
    }

    /// Whether the handle is one of those counted on a device buffer of vertex data of `gl`.
    pub open spec fn held(&self, gl: GlView) -> bool {
        Self::names(gl, self.id())
    }

    /// Whether the handle is one of those counted on a device buffer of vertex data of `gl`.
    pub fn is_held(&self, gl: &Gl) -> (held: bool)
        requires
            gl.wf(),
        ensures
            held == self.held(gl@),
    {
        if gl.is_live(self.id) {
            let object = gl.lookup(self.id);
            object.handles > 0 && matches!(object.body, Body::ArrayBuffer { .. })
        } else {
            false
        }
    }

    /// One more handle on the same device object.
    pub fn share(&self, gl: &mut Gl) -> (handle: ArrayBuffer)
        requires
            old(gl).wf(),
            self.held(old(gl)@),
            old(gl)@.objects[self.id()].handles < u64::MAX,
        ensures
            final(gl).wf(),
            handle == *self,
            handle.id() == self.id(),
            handle.held(final(gl)@),
            final(gl)@ == old(gl)@.with_handles(
                self.id(),
                (old(gl)@.objects[self.id()].handles + 1) as u64,
            ),
    {
        gl.share(self.id);
        ArrayBuffer { id: self.id }
    }

    /// Gives the handle up. The device is asked to release the
    /// buffer if this was the last handle on it and the buffer is not bound.
    pub fn release(self, gl: &mut Gl)
        requires
            old(gl).wf(),
            self.held(old(gl)@),
        ensures
            final(gl).wf(),
            final(gl)@ == old(gl)@.released(self.id()),
    {
        gl.release(self.id);
    }

    /// The setting that binds the buffer.
    pub open spec fn binding(id: u64) -> SettingView {
        SettingView::Cached(CachedSetting::ArrayBuffer(ArrayBufferSetting(Some(id))))
    }

    /// The number of items last written to the buffer.
    pub open spec fn spec_len(&self, gl: GlView) -> usize {
        gl.objects[self.id()].body->ArrayBuffer_length
    }

    /// The state once `items` have been written to the buffer: the buffer was
    /// bound, the numbers of the items were uploaded, the binding was undone, and
    /// the buffer counts as many items as were written.
    pub open spec fn written_to<T: Writable>(
        &self,
        gl: GlView,
        items: Seq<T>,
        usage: BufferUsage,
    ) -> GlView {
        gl.emitted_all(
            round_trip(
                gl.cache,
                seq![Self::binding(self.id())],
                seq![buffer_data(ARRAY_BUFFER, usage, written_all(items, items.len()))],
            ),
        ).with_body(self.id(), Body::ArrayBuffer { length: items.len() as usize })
    }

    /// Makes a buffer with `items` as its contents, on the device's answer
    /// `acquired` to the request for a new buffer. Fails where the device gave
    /// none, or where the library has no identifier left for it.
    pub fn new<T: Writable>(gl: &mut Gl, acquired: bool, items: &[T], usage: BufferUsage) -> (result:
        Result<ArrayBuffer, GlError>)
        requires
            old(gl).wf(),
        ensures
            final(gl).wf(),
            match result {
                Ok(buffer) => {
                    &&& acquired
                    &&& old(gl)@.next < u64::MAX
                    &&& buffer.id() == old(gl)@.next
                    &&& !old(gl)@.live(buffer.id())
                    &&& buffer.held(final(gl)@)
                    &&& buffer.spec_len(final(gl)@) == items@.len()
                    &&& final(gl)@ == buffer.written_to(
                        old(gl)@.created(Body::ArrayBuffer { length: 0 }),
                        items@,
                        usage,
                    )
                },
                Err(error) => {
                    &&& !acquired || old(gl)@.next == u64::MAX
                    &&& error == GlError::BufferAllocationError
                    &&& final(gl)@ == old(gl)@
                },
            },
    {
        if !acquired || !gl.can_create() {
            return Err(GlError::BufferAllocationError);
        }
        let id = gl.create(Body::ArrayBuffer { length: 0 });
        let buffer = ArrayBuffer { id };
        buffer.set_content(gl, items, usage);
        Ok(buffer)
    }

    /// Replaces the contents of the buffer by `items`.
    pub fn set_content<T: Writable>(&self, gl: &mut Gl, items: &[T], usage: BufferUsage)
        requires
            old(gl).wf(),
            self.held(old(gl)@),
        ensures
            final(gl).wf(),
            self.held(final(gl)@),
            self.spec_len(final(gl)@) == items@.len(),
            final(gl)@ == self.written_to(old(gl)@, items@, usage),
    {
        let data = write_all(items);
        let settings = CachedSetting::ArrayBuffer(ArrayBufferSetting(Some(self.id))).alone();
        let mut commands: Vec<Command> = Vec::new();
        commands.push(
            Command {
                call: DeviceCall::BufferData { target: ARRAY_BUFFER, usage: usage.code() },
                words: data,
                bytes: Vec::new(),
            },
        );
        proof {
            assert(views(settings@) =~= seq![Self::binding(self.id)]);
            assert(records(commands@) =~= seq![
                buffer_data(ARRAY_BUFFER, usage, written_all(items@, items@.len())),
            ]);
        }
        gl.run(&settings, commands);
        gl.set_body(self.id, Body::ArrayBuffer { length: items.len() });
    }

    /// The number of items last written to the buffer.
    pub fn len(&self, gl: &Gl) -> (length: usize)
        requires
            gl.wf(),
            self.held(gl@),
        ensures
            length == self.spec_len(gl@),
    {
        match &gl.lookup(self.id).body {
            Body::ArrayBuffer { length } => *length,
            _ => 0,
        }
    }
}

/// A handle on a device buffer of vertices of one type.
#[derive(Debug, PartialEq, Eq)]
pub struct ItemsBuffer<T: Item> {
    phantom: PhantomData<T>,
    buffer: ArrayBuffer,
}

impl<T: Item> ItemsBuffer<T> {
    /// The handle on the buffer, whatever its items are.
    pub closed spec fn spec_buffer(&self) -> &ArrayBuffer {
        &self.buffer
    }

    /// The handle on the buffer, whatever its items are.
    #[verifier::when_used_as_spec(spec_buffer)]
    pub fn buffer(&self) -> (buffer: &ArrayBuffer)
        ensures
            *buffer == self.spec_buffer(),
    {
        &self.buffer
    }

    /// Makes a buffer with `items` as its contents; see [`ArrayBuffer::new`].
    pub fn new(gl: &mut Gl, acquired: bool, items: &[T], usage: BufferUsage) -> (result: Result<
        ItemsBuffer<T>,
        GlError,
    >)
        requires
            old(gl).wf(),
        ensures
            final(gl).wf(),
            match result {
                Ok(items_buffer) => {
                    let buffer = items_buffer.buffer();
                    &&& acquired
                    &&& old(gl)@.next < u64::MAX
                    &&& buffer.id() == old(gl)@.next
                    &&& !old(gl)@.live(buffer.id())
                    &&& buffer.held(final(gl)@)
                    &&& buffer.spec_len(final(gl)@) == items@.len()
                    &&& final(gl)@ == buffer.written_to(
                        old(gl)@.created(Body::ArrayBuffer { length: 0 }),
                        items@,
                        usage,
                    )
                },
                Err(error) => {
                    &&& !acquired || old(gl)@.next == u64::MAX
                    &&& error == GlError::BufferAllocationError
                    &&& final(gl)@ == old(gl)@
                },
            },
    {
        match ArrayBuffer::new(gl, acquired, items, usage) {
            Ok(buffer) => Ok(ItemsBuffer { phantom: PhantomData, buffer }),
            Err(error) => Err(error),
        }
    }

    /// Replaces the contents of the buffer by `items`.
    pub fn set_content(&self, gl: &mut Gl, items: &[T], usage: BufferUsage)
        requires
            old(gl).wf(),
            self.buffer().held(old(gl)@),
        ensures
            final(gl).wf(),
            self.buffer().held(final(gl)@),
            self.buffer().spec_len(final(gl)@) == items@.len(),
            final(gl)@ == self.buffer().written_to(old(gl)@, items@, usage),
    {
        self.buffer.set_content(gl, items, usage);
    }

    /// The number of items last written to the buffer.
    pub fn len(&self, gl: &Gl) -> (length: usize)
        requires
            gl.wf(),
            self.buffer().held(gl@),
        ensures
            length == self.buffer().spec_len(gl@),
    {
        self.buffer.len(gl)
    }

    /// One more handle on the same buffer.
    pub fn share(&self, gl: &mut Gl) -> (handle: ItemsBuffer<T>)
        requires
            old(gl).wf(),
            self.buffer().held(old(gl)@),
            old(gl)@.objects[self.buffer().id()].handles < u64::MAX,
        ensures
            final(gl).wf(),
            handle.buffer().id() == self.buffer().id(),
            handle.buffer().held(final(gl)@),
            final(gl)@ == old(gl)@.with_handles(
                self.buffer().id(),
                (old(gl)@.objects[self.buffer().id()].handles + 1) as u64,
            ),
    {
        ItemsBuffer { phantom: PhantomData, buffer: self.buffer.share(gl) }
    }

    /// Gives the handle up; see [`ArrayBuffer::release`].
    pub fn release(self, gl: &mut Gl)
        requires
            old(gl).wf(),
            self.buffer().held(old(gl)@),
        ensures
            final(gl).wf(),
            final(gl)@ == old(gl)@.released(self.buffer().id()),
    {
        self.buffer.release(gl);
    }
}

} // verus!
