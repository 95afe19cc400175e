use crate::buffer_usage::BufferUsage;
use crate::cache::round_trip;
use crate::data_buffer::buffer_data;
use crate::device::{Command, DeviceCall, ELEMENT_ARRAY_BUFFER};
use crate::gl::{records, views, Gl, GlError, GlView};
use crate::objects::Body;
use crate::settings::{CachedSetting, ElementBufferSetting, SettingView};
use vstd::prelude::*;

verus! {

/// A handle on a device buffer of element indices. Handles on one device object are equal; the object
/// lives until the last handle is released and the library no longer needs it.
#[derive(Debug, PartialEq, Eq, Structural)]
pub struct ElementsBuffer {
    id: u64,
}

impl ElementsBuffer {
    /// The identifier of the device object.
    pub closed spec fn spec_id(&self) -> u64 {
        self.id
    }

    /// The identifier of the device object.
    #[verifier::when_used_as_spec(spec_id)]
    pub fn id(&self) -> (id: u64)
        ensures
            id == self.spec_id(),
    {
        self.id
    }

    /// Whether `id` names a device buffer of element indices of `gl` on which a caller holds a handle.
    pub open spec fn names(gl: GlView, id: u64) -> bool {
        &&& gl.live(id)
        &&& gl.objects[id].body is ElementsBuffer
        &&& gl.objects[id].handles > 0
    }

    /// Whether the handle is one of those counted on a device buffer of element indices of `gl`.
    pub open spec fn held(&self, gl: GlView) -> bool {
        Self::names(gl, self.id())
    }

    /// Whether the handle is one of those counted on a device buffer of element indices of `gl`.
    pub fn is_held(&self, gl: &Gl) -> (held: bool)
        requires
            gl.wf(),
        ensures
            held == self.held(gl@),
    {
        if gl.is_live(self.id) {
            let object = gl.lookup(self.id);
            object.handles > 0 && matches!(object.body, Body::ElementsBuffer { .. })
        } else {
            false
        }
    }

    /// One more handle on the same device object.
    pub fn share(&self, gl: &mut Gl) -> (handle: ElementsBuffer)
        requires
            old(gl).wf(),
            self.held(old(gl)@),
            old(gl)@.objects[self.id()].handles < u64::MAX,
        ensures
            final(gl).wf(),
            handle == *self,
            handle.id() == self.id(),
            handle.held(final(gl)@),
            final(gl)@ == old(gl)@.with_handles(
                self.id(),
                (old(gl)@.objects[self.id()].handles + 1) as u64,
            ),
    {
        gl.share(self.id);
        ElementsBuffer { id: self.id }
    }

    /// Gives the handle up. The device is asked to release the
    /// buffer if this was the last handle on it and the buffer is not bound.
    pub fn release(self, gl: &mut Gl)
        requires
            old(gl).wf(),
            self.held(old(gl)@),
        ensures
            final(gl).wf(),
            final(gl)@ == old(gl)@.released(self.id()),
    {
        gl.release(self.id);
    }

    /// The setting that binds the buffer.
    pub open spec fn binding(id: u64) -> SettingView {
        SettingView::Cached(CachedSetting::ElementBuffer(ElementBufferSetting(Some(id))))
    }

    /// The number of indices last written to the buffer.
    pub open spec fn spec_len(&self, gl: GlView) -> usize {
        gl.objects[self.id()].body->ElementsBuffer_length
    }

    /// The state once the indices `data` have been written to the buffer: the
    /// buffer was bound, the indices were uploaded, the binding was undone, and
    /// the buffer counts as many indices as were written.
    pub open spec fn written_to(&self, gl: GlView, data: Seq<u32>, usage: BufferUsage) -> GlView {
        gl.emitted_all(
            round_trip(
                gl.cache,
                seq![Self::binding(self.id())],
                seq![buffer_data(ELEMENT_ARRAY_BUFFER, usage, data)],
            ),
        ).with_body(self.id(), Body::ElementsBuffer { length: data.len() as usize })
    }

    /// Makes a buffer with the indices `data` as its contents, on the device's
    /// answer `acquired` to the request for a new buffer. Fails where the device
    /// gave none, or where the library has no identifier left for it.
    pub fn new(gl: &mut Gl, acquired: bool, data: &[u32], usage: BufferUsage) -> (result: Result<
        ElementsBuffer,
        GlError,
    >)
        requires
            old(gl).wf(),
        ensures
            final(gl).wf(),
            match result {
                Ok(buffer) => {
                    &&& acquired
                    &&& old(gl)@.next < u64::MAX
                    &&& buffer.id() == old(gl)@.next
                    &&& !old(gl)@.live(buffer.id())
                    &&& buffer.held(final(gl)@)
                    &&& buffer.spec_len(final(gl)@) == data@.len()
                    &&& final(gl)@ == buffer.written_to(
                        old(gl)@.created(Body::ElementsBuffer { length: 0 }),
                        data@,
                        usage,
                    )
                },
                Err(error) => {
                    &&& !acquired || old(gl)@.next == u64::MAX
                    &&& error == GlError::BufferAllocationError
                    &&& final(gl)@ == old(gl)@
                },
            },
    {
        if !acquired || !gl.can_create() {
            return Err(GlError::BufferAllocationError);
        }
        let id = gl.create(Body::ElementsBuffer { length: 0 });
        let buffer = ElementsBuffer { id };
        buffer.set_content(gl, data, usage);
        Ok(buffer)
    }

    /// Replaces the contents of the buffer by the indices `data`.
    pub fn set_content(&self, gl: &mut Gl, data: &[u32], usage: BufferUsage)
        requires
            old(gl).wf(),
            self.held(old(gl)@),
        ensures
            final(gl).wf(),
            self.held(final(gl)@),
            self.spec_len(final(gl)@) == data@.len(),
            final(gl)@ == self.written_to(old(gl)@, data@, usage),
    {
        let mut words: Vec<u32> = Vec::new();
        let mut i: usize = 0;
        while i < data.len()
            invariant
                i <= data.len(),
                words@ == data@.take(i as int),
            decreases data.len() - i,
        {
            words.push(data[i]);
            proof {
                assert(data@.take(i + 1) =~= data@.take(i as int).push(data@[i as int]));
            }
            i += 1;
        }
        proof {
            assert(data@.take(data.len() as int) =~= data@);
        }
        let settings = CachedSetting::ElementBuffer(ElementBufferSetting(Some(self.id))).alone();
        let mut commands: Vec<Command> = Vec::new();
        commands.push(
            Command {
                call: DeviceCall::BufferData { target: ELEMENT_ARRAY_BUFFER, usage: usage.code() },
                words,
                bytes: Vec::new(),
            },
        );
        proof {
            assert(views(settings@) =~= seq![Self::binding(self.id)]);
            assert(records(commands@) =~= seq![buffer_data(ELEMENT_ARRAY_BUFFER, usage, data@)]);
        }
        gl.run(&settings, commands);
        gl.set_body(self.id, Body::ElementsBuffer { length: data.len() });
    }

    /// The number of indices last written to the buffer.
    pub fn len(&self, gl: &Gl) -> (length: usize)
        requires
            gl.wf(),
            self.held(gl@),
        ensures
            length == self.spec_len(gl@),
    {
        match &gl.lookup(self.id).body {
            Body::ElementsBuffer { length } => *length,
            _ => 0,
        }
    }
}

} // verus!
