use crate::cache::round_trip;
use crate::depth_buffer::DepthBuffer;
use crate::device::{
    plain, Command, DeviceCall, COLOR_ATTACHMENT0, DEPTH_ATTACHMENT, FRAMEBUFFER, RENDERBUFFER,
    TEXTURE_2D,
};
use crate::gl::{records, views, Gl, GlError, GlView};
use crate::objects::Body;
use crate::settings::{CachedSetting, FrameBufferSetting, SettingView};
use crate::texture::Texture;
use vstd::prelude::*;

verus! {

/// A handle on a device frame buffer. Handles on one device object are equal; the object
/// lives until the last handle is released and the library no longer needs it.
#[derive(Debug, PartialEq, Eq, Structural)]
pub struct FrameBuffer {
    id: u64,
}

impl FrameBuffer {
    /// The identifier of the device object.
    pub closed spec fn spec_id(&self) -> u64 {
        self.id
    }

    /// The identifier of the device object.
    #[verifier::when_used_as_spec(spec_id)]
    pub fn id(&self) -> (id: u64)
        ensures
            id == self.spec_id(),
    {
        self.id
    }

    /// Whether `id` names a device frame buffer of `gl` on which a caller holds a handle.
    pub open spec fn names(gl: GlView, id: u64) -> bool {
        &&& gl.live(id)
        &&& gl.objects[id].body is FrameBuffer
        &&& gl.objects[id].handles > 0
    }

    /// Whether the handle is one of those counted on a device frame buffer of `gl`.
    pub open spec fn held(&self, gl: GlView) -> bool {
        Self::names(gl, self.id())
    }

    /// Whether the handle is one of those counted on a device frame buffer of `gl`.
    pub fn is_held(&self, gl: &Gl) -> (held: bool)
        requires
            gl.wf(),
        ensures
            held == self.held(gl@),
    {
        if gl.is_live(self.id) {
            let object = gl.lookup(self.id);
            object.handles > 0 && matches!(object.body, Body::FrameBuffer { .. })
        } else {
            false
        }
    }

    /// One more handle on the same device object.
    pub fn share(&self, gl: &mut Gl) -> (handle: FrameBuffer)
        requires
            old(gl).wf(),
            self.held(old(gl)@),
            old(gl)@.objects[self.id()].handles < u64::MAX,
        ensures
            final(gl).wf(),
            handle == *self,
            handle.id() == self.id(),
            handle.held(final(gl)@),
            final(gl)@ == old(gl)@.with_handles(
                self.id(),
                (old(gl)@.objects[self.id()].handles + 1) as u64,
            ),
    {
        gl.share(self.id);
        FrameBuffer { id: self.id }
    }

    /// Gives the handle up. The device is asked to release the
    /// frame buffer if this was the last handle on it and the frame buffer is not
    /// bound; its attachments are released with it only where nothing else needs
    /// them.
    pub fn release(self, gl: &mut Gl)
        requires
            old(gl).wf(),
            self.held(old(gl)@),
        ensures
            final(gl).wf(),
            final(gl)@ == old(gl)@.released(self.id()),
    {
        gl.release(self.id);
    }

    /// The setting that binds the frame buffer.
    pub open spec fn binding(id: u64) -> SettingView {
        SettingView::Cached(CachedSetting::FrameBuffer(FrameBufferSetting { buffer: Some(id) }))
    }

    /// The texture attached as the colour buffer.
    pub open spec fn spec_color_buffer(&self, gl: GlView) -> Option<u64> {
        gl.objects[self.id()].body->FrameBuffer_color_buffer
    }

    /// The render buffer attached as the depth buffer.
    pub open spec fn spec_depth_buffer(&self, gl: GlView) -> Option<u64> {
        gl.objects[self.id()].body->FrameBuffer_depth_buffer
    }

    /// The device call that attaches a texture as the colour buffer.
    pub open spec fn color_call(texture: Option<u64>) -> DeviceCall {
        DeviceCall::FramebufferTexture2d {
            target: FRAMEBUFFER,
            attachment: COLOR_ATTACHMENT0,
            texture_target: TEXTURE_2D,
            texture,
            level: 0,
        }
    }

    /// The device call that attaches a render buffer as the depth buffer.
    pub open spec fn depth_call(renderbuffer: Option<u64>) -> DeviceCall {
        DeviceCall::FramebufferRenderbuffer {
            target: FRAMEBUFFER,
            attachment: DEPTH_ATTACHMENT,
            renderbuffer_target: RENDERBUFFER,
            renderbuffer,
        }
    }

    /// The state once the frame buffer `id` has `texture` as its colour buffer:
    /// the frame buffer was bound, the texture attached and the binding undone;
    /// the frame buffer needs the texture from now on, and the former colour
    /// buffer is gone if nothing else needs it.
    pub open spec fn with_color(gl: GlView, id: u64, texture: Option<u64>) -> GlView {
        gl.emitted_all(
            round_trip(gl.cache, seq![Self::binding(id)], seq![plain(Self::color_call(texture))]),
        ).attached_to(id, texture, gl.objects[id].body->FrameBuffer_depth_buffer)
    }

    /// The state once the frame buffer `id` has `buffer` as its depth buffer.
    pub open spec fn with_depth(gl: GlView, id: u64, buffer: Option<u64>) -> GlView {
        gl.emitted_all(
            round_trip(gl.cache, seq![Self::binding(id)], seq![plain(Self::depth_call(buffer))]),
        ).attached_to(id, gl.objects[id].body->FrameBuffer_color_buffer, buffer)
    }

    /// Makes a frame buffer without attachments, on the device's answer
    /// `acquired` to the request for a new frame buffer. Fails where the device
    /// gave none, or where the library has no identifier left for it.
    pub fn new(gl: &mut Gl, acquired: bool) -> (result: Result<FrameBuffer, GlError>)
        requires
            old(gl).wf(),
        ensures
            final(gl).wf(),
            match result {
                Ok(buffer) => {
                    &&& acquired
                    &&& old(gl)@.next < u64::MAX
                    &&& buffer.id() == old(gl)@.next
                    &&& !old(gl)@.live(buffer.id())
                    &&& buffer.held(final(gl)@)
                    &&& final(gl)@ == old(gl)@.created(
                        Body::FrameBuffer { color_buffer: None, depth_buffer: None },
                    )
                },
                Err(error) => {
                    &&& !acquired || old(gl)@.next == u64::MAX
                    &&& error == GlError::FrameBufferError
                    &&& final(gl)@ == old(gl)@
                },
            },
    {
        if !acquired || !gl.can_create() {
            return Err(GlError::FrameBufferError);
        }
        let id = gl.create(Body::FrameBuffer { color_buffer: None, depth_buffer: None });
        Ok(FrameBuffer { id })
    }

    /// The attachments of the frame buffer.
    fn attachments(&self, gl: &Gl) -> (attached: (Option<u64>, Option<u64>))
        requires
            gl.wf(),
            self.held(gl@),
        ensures
            attached.0 == self.spec_color_buffer(gl@),
            attached.1 == self.spec_depth_buffer(gl@),
    {
        match &gl.lookup(self.id).body {
            Body::FrameBuffer { color_buffer, depth_buffer } => (*color_buffer, *depth_buffer),
            _ => (None, None),
        }
    }

    /// Attaches `texture` as the colour buffer, or detaches the colour buffer.
    pub fn set_color_buffer(&self, gl: &mut Gl, texture: Option<&Texture>)
        requires
            old(gl).wf(),
            self.held(old(gl)@),
            texture matches Some(t) ==> t.held(old(gl)@),
        ensures
            final(gl).wf(),
            final(gl)@ == Self::with_color(
                old(gl)@,
                self.id(),
                match texture {
                    Some(t) => Some(t.id()),
                    None => None,
                },
            ),
    {
        let attached = match texture {
            Some(t) => Some(t.id()),
            None => None,
        };
        let (_, depth_buffer) = self.attachments(gl);
        let settings = CachedSetting::FrameBuffer(FrameBufferSetting { buffer: Some(self.id) }).alone();
        let mut commands: Vec<Command> = Vec::new();
        let call = DeviceCall::FramebufferTexture2d {
            target: FRAMEBUFFER,
            attachment: COLOR_ATTACHMENT0,
            texture_target: TEXTURE_2D,
            texture: attached,
            level: 0,
        };
        commands.push(Command::plain(call));
        proof {
            assert(views(settings@) =~= seq![Self::binding(self.id)]);
            assert(records(commands@) =~= seq![plain(call)]);
            let object = old(gl)@.objects[self.id];
            if let Some(x) = depth_buffer {
                assert(old(gl)@.objects.dom().contains(self.id));
                assert(object.body.attaches(x));
            }
        }
        gl.run(&settings, commands);
        gl.set_attachments(self.id, attached, depth_buffer);
    }

    /// Attaches `buffer` as the depth buffer, or detaches the depth buffer.
    pub fn set_depth_buffer(&self, gl: &mut Gl, buffer: Option<&DepthBuffer>)
        requires
            old(gl).wf(),
            self.held(old(gl)@),
            buffer matches Some(b) ==> b.held(old(gl)@),
        ensures
            final(gl).wf(),
            final(gl)@ == Self::with_depth(
                old(gl)@,
                self.id(),
                match buffer {
                    Some(b) => Some(b.id()),
                    None => None,
                },
            ),
    {
        let attached = match buffer {
            Some(b) => Some(b.id()),
            None => None,
        };
        let (color_buffer, _) = self.attachments(gl);
        let settings = CachedSetting::FrameBuffer(FrameBufferSetting { buffer: Some(self.id) }).alone();
        let mut commands: Vec<Command> = Vec::new();
        let call = DeviceCall::FramebufferRenderbuffer {
            target: FRAMEBUFFER,
            attachment: DEPTH_ATTACHMENT,
            renderbuffer_target: RENDERBUFFER,
            renderbuffer: attached,
        };
        commands.push(Command::plain(call));
        proof {
            assert(views(settings@) =~= seq![Self::binding(self.id)]);
            assert(records(commands@) =~= seq![plain(call)]);
            let object = old(gl)@.objects[self.id];
            if let Some(x) = color_buffer {
                assert(old(gl)@.objects.dom().contains(self.id));
                assert(object.body.attaches(x));
            }
        }
        gl.run(&settings, commands);
        gl.set_attachments(self.id, color_buffer, attached);
    }

    /// A new handle on the texture attached as the colour buffer, if there is
    /// one.
    pub fn color_buffer(&self, gl: &mut Gl) -> (texture: Option<Texture>)
        requires
            old(gl).wf(),
            self.held(old(gl)@),
            self.spec_color_buffer(old(gl)@) matches Some(x) ==> old(gl)@.objects[x].handles
                < u64::MAX,
        ensures
            final(gl).wf(),
            match texture {
                Some(t) => {
                    &&& self.spec_color_buffer(old(gl)@) == Some(t.id())
                    &&& final(gl)@ == old(gl)@.with_handles(
                        t.id(),
                        (old(gl)@.objects[t.id()].handles + 1) as u64,
                    )
                },
                None => self.spec_color_buffer(old(gl)@) is None && final(gl)@ == old(gl)@,
            },
    {
        let (color_buffer, _) = self.attachments(gl);
        match color_buffer {
            Some(id) => {
                proof {
                    assert(gl@.objects.dom().contains(self.id));
                    assert(gl@.objects[self.id].body.attaches(id));
                }
                gl.share(id);
                Some(Texture::counted(id))
            },
            None => None,
        }
    }

    /// A new handle on the render buffer attached as the depth buffer, if there
    /// is one.
    pub fn depth_buffer(&self, gl: &mut Gl) -> (buffer: Option<DepthBuffer>)
        requires
            old(gl).wf(),
            self.held(old(gl)@),
            self.spec_depth_buffer(old(gl)@) matches Some(x) ==> old(gl)@.objects[x].handles
                < u64::MAX,
        ensures
            final(gl).wf(),
            match buffer {
                Some(b) => {
                    &&& self.spec_depth_buffer(old(gl)@) == Some(b.id())
                    &&& final(gl)@ == old(gl)@.with_handles(
                        b.id(),
                        (old(gl)@.objects[b.id()].handles + 1) as u64,
                    )
                },
                None => self.spec_depth_buffer(old(gl)@) is None && final(gl)@ == old(gl)@,
            },
    {
        let (_, depth_buffer) = self.attachments(gl);
        match depth_buffer {
            Some(id) => {
                proof {
                    assert(gl@.objects.dom().contains(self.id));
                    assert(gl@.objects[self.id].body.attaches(id));
                }
                gl.share(id);
                Some(DepthBuffer::counted(id))
            },
            None => None,
        }
    }
}

} // verus!
