use crate::cache::round_trip;
use crate::device::{as_signed, plain, Command, DeviceCall, DEPTH_COMPONENT16, RENDERBUFFER};
use crate::gl::{records, views, Gl, GlError, GlView};
use crate::objects::Body;
use crate::settings::{CachedSetting, DepthBufferSetting, SettingView};
use vstd::prelude::*;

verus! {

/// A handle on a device render buffer that holds depths. Handles on one device object are equal; the object
/// lives until the last handle is released and the library no longer needs it.
#[derive(Debug, PartialEq, Eq, Structural)]
pub struct DepthBuffer {
    id: u64,
}

impl DepthBuffer {
    /// The identifier of the device object.
    pub closed spec fn spec_id(&self) -> u64 {
        self.id
    }

    /// The identifier of the device object.
    #[verifier::when_used_as_spec(spec_id)]
    pub fn id(&self) -> (id: u64)
        ensures
            id == self.spec_id(),
    {
        self.id
    }

    /// Whether `id` names a device render buffer that holds depths of `gl` on which a caller holds a handle.
    pub open spec fn names(gl: GlView, id: u64) -> bool {
        &&& gl.live(id)
        &&& gl.objects[id].body is DepthBuffer
        &&& gl.objects[id].handles > 0
    }

    /// Whether the handle is one of those counted on a device render buffer that holds depths of `gl`.
    pub open spec fn held(&self, gl: GlView) -> bool {
        Self::names(gl, self.id())
    }

    /// Whether the handle is one of those counted on a device render buffer that holds depths of `gl`.
    pub fn is_held(&self, gl: &Gl) -> (held: bool)
        requires
            gl.wf(),
        ensures
            held == self.held(gl@),
    {
        if gl.is_live(self.id) {
            let object = gl.lookup(self.id);
            object.handles > 0 && matches!(object.body, Body::DepthBuffer { .. })
        } else {
            false
        }
    }

    /// One more handle on the same device object.
    pub fn share(&self, gl: &mut Gl) -> (handle: DepthBuffer)
        requires
            old(gl).wf(),
            self.held(old(gl)@),
            old(gl)@.objects[self.id()].handles < u64::MAX,
        ensures
            final(gl).wf(),
            handle == *self,
            handle.id() == self.id(),
            handle.held(final(gl)@),
            final(gl)@ == old(gl)@.with_handles(
                self.id(),
                (old(gl)@.objects[self.id()].handles + 1) as u64,
            ),
    {
        gl.share(self.id);
        DepthBuffer { id: self.id }
    }

    /// Gives the handle up. The device is asked to release the
    /// render buffer if this was the last handle on it and the render buffer is
    /// neither bound nor attached.
    pub fn release(self, gl: &mut Gl)
        requires
            old(gl).wf(),
            self.held(old(gl)@),
        ensures
            final(gl).wf(),
            final(gl)@ == old(gl)@.released(self.id()),
    {
        gl.release(self.id);
    }

    /// The setting that binds the render buffer.
    pub open spec fn binding(id: u64) -> SettingView {
        SettingView::Cached(CachedSetting::DepthBuffer(DepthBufferSetting { buffer: Some(id) }))
    }

    pub open spec fn spec_width(&self, gl: GlView) -> u32 {
        gl.objects[self.id()].body->DepthBuffer_width
    }

    pub open spec fn spec_height(&self, gl: GlView) -> u32 {
        gl.objects[self.id()].body->DepthBuffer_height
    }

    /// Makes a render buffer of `width` by `height` depths, on the device's
    /// answer `acquired` to the request for a new render buffer: binds it, has the
    /// device allocate its storage, and undoes the binding. Fails where the device
    /// gave none, or where the library has no identifier left for it.
    pub fn new(gl: &mut Gl, acquired: bool, width: u32, height: u32) -> (result: Result<
        DepthBuffer,
        GlError,
    >)
        requires
            old(gl).wf(),
        ensures
            final(gl).wf(),
            match result {
                Ok(buffer) => {
                    let made = old(gl)@.created(Body::DepthBuffer { width, height });
                    &&& acquired
                    &&& old(gl)@.next < u64::MAX
                    &&& buffer.id() == old(gl)@.next
                    &&& !old(gl)@.live(buffer.id())
                    &&& buffer.held(final(gl)@)
                    &&& buffer.spec_width(final(gl)@) == width
                    &&& buffer.spec_height(final(gl)@) == height
                    &&& final(gl)@ == made.emitted_all(
                        round_trip(
                            made.cache,
                            seq![Self::binding(buffer.id())],
                            seq![
                                plain(
                                    DeviceCall::RenderbufferStorage {
                                        target: RENDERBUFFER,
                                        internal_format: DEPTH_COMPONENT16,
                                        width: as_signed(width),
                                        height: as_signed(height),
                                    },
                                ),
                            ],
                        ),
                    )
                },
                Err(error) => {
                    &&& !acquired || old(gl)@.next == u64::MAX
                    &&& error == GlError::DepthBufferError
                    &&& final(gl)@ == old(gl)@
                },
            },
    {
        if !acquired || !gl.can_create() {
            return Err(GlError::DepthBufferError);
        }
        let id = gl.create(Body::DepthBuffer { width, height });
        let settings = CachedSetting::DepthBuffer(DepthBufferSetting { buffer: Some(id) }).alone();
        let mut commands: Vec<Command> = Vec::new();
        let call = DeviceCall::RenderbufferStorage {
            target: RENDERBUFFER,
            internal_format: DEPTH_COMPONENT16,
            width: as_signed(width),
            height: as_signed(height),
        };
        commands.push(Command::plain(call));
        proof {
            assert(views(settings@) =~= seq![Self::binding(id)]);
            assert(records(commands@) =~= seq![plain(call)]);
        }
        gl.run(&settings, commands);
        Ok(DepthBuffer { id })
    }

    pub fn width(&self, gl: &Gl) -> (width: u32)
        requires
            gl.wf(),
            self.held(gl@),
        ensures
            width == self.spec_width(gl@),
    {
        match &gl.lookup(self.id).body {
            Body::DepthBuffer { width, .. } => *width,
            _ => 0,
        }
    }

    pub fn height(&self, gl: &Gl) -> (height: u32)
        requires
            gl.wf(),
            self.held(gl@),
        ensures
            height == self.spec_height(gl@),
    {
        match &gl.lookup(self.id).body {
            Body::DepthBuffer { height, .. } => *height,
            _ => 0,
        }
    }

    /// A handle value for the render buffer `id`, which the caller has counted.
    pub(crate) fn counted(id: u64) -> (handle: DepthBuffer)
        ensures
            handle.id() == id,
    {
        DepthBuffer { id }
    }
}

} // verus!
