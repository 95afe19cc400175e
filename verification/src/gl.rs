use crate::buffer_usage::BufferUsage;
use crate::cache::{
    lemma_calls_release_nothing, lemma_held_setting_is_free, lemma_shift_refers,
    lemma_shifted_valid, lemma_undo_of_held, lemma_undo_restores, round_trip, shifted_all,
    CacheView, SettingsCache,
};
use crate::data_buffer::{Item, ItemsBuffer};
use crate::depth_buffer::DepthBuffer;
use crate::device::{
    as_signed, lemma_releases_push, plain, plain_all, releases, Command,
    DeviceCall, Record, COLOR_BUFFER_BIT, DEPTH_BUFFER_BIT, DEPTH_COMPONENT16, RENDERBUFFER,
};
use crate::frame_buffer::FrameBuffer;
use crate::objects::{Body, Object, SlotView};
use crate::program::{link_outcome, refusal_calls, LinkReport, Program};
use crate::settings::{Setting, SettingView, Settings, TextureFilterSetting};
use crate::texture::{Texture, TextureContent, TextureFilter, TextureFormat, TextureType};
use vstd::prelude::*;

verus! {

/// Everything that can go wrong between this library and the device.
#[derive(Clone, Debug, PartialEq, Eq)]
pub enum GlError {
    UnknownError(Option<String>),
    ShaderCompilationError { source: String, info: Option<String> },
    ProgramLinkingError { vertex: String, fragment: String, info: Option<String> },
    ExtensionNotFound(String),
    UnsupportedType(Option<String>),
    BufferAllocationError,
    TextureAllocationError,
    ProgramAllocationError,
    ReadPixelsError(Option<String>),
    WritePixelsError(Option<String>),
    InitTextureBufferError(Option<String>),
    InvalidBufferSize { expected: u32, received: u32 },
    DepthBufferError,
    FrameBufferError,
}

/// The text of an optional message.
pub open spec fn text(message: Option<String>) -> Option<Seq<char>> {
    match message {
        Some(message) => Some(message@),
        None => None,
    }
}

/// What a [`GlError`] says.
pub enum ErrorView {
    UnknownError(Option<Seq<char>>),
    ShaderCompilationError { source: Seq<char>, info: Option<Seq<char>> },
    ProgramLinkingError { vertex: Seq<char>, fragment: Seq<char>, info: Option<Seq<char>> },
    ExtensionNotFound(Seq<char>),
    UnsupportedType(Option<Seq<char>>),
    BufferAllocationError,
    TextureAllocationError,
    ProgramAllocationError,
    ReadPixelsError(Option<Seq<char>>),
    WritePixelsError(Option<Seq<char>>),
    InitTextureBufferError(Option<Seq<char>>),
    InvalidBufferSize { expected: u32, received: u32 },
    DepthBufferError,
    FrameBufferError,
}

impl View for GlError {
    type V = ErrorView;

    open spec fn view(&self) -> ErrorView {
        match *self {
            GlError::UnknownError(message) => ErrorView::UnknownError(text(message)),
            GlError::ShaderCompilationError { source, info } => ErrorView::ShaderCompilationError {
                source: source@,
                info: text(info),
            },
            GlError::ProgramLinkingError { vertex, fragment, info } => ErrorView::ProgramLinkingError {
                vertex: vertex@,
                fragment: fragment@,
                info: text(info),
            },
            GlError::ExtensionNotFound(name) => ErrorView::ExtensionNotFound(name@),
            GlError::UnsupportedType(name) => ErrorView::UnsupportedType(text(name)),
            GlError::BufferAllocationError => ErrorView::BufferAllocationError,
            GlError::TextureAllocationError => ErrorView::TextureAllocationError,
            GlError::ProgramAllocationError => ErrorView::ProgramAllocationError,
            GlError::ReadPixelsError(message) => ErrorView::ReadPixelsError(text(message)),
            GlError::WritePixelsError(message) => ErrorView::WritePixelsError(text(message)),
            GlError::InitTextureBufferError(message) => ErrorView::InitTextureBufferError(
                text(message),
            ),
            GlError::InvalidBufferSize { expected, received } => ErrorView::InvalidBufferSize {
                expected,
                received,
            },
            GlError::DepthBufferError => ErrorView::DepthBufferError,
            GlError::FrameBufferError => ErrorView::FrameBufferError,
        }
    }
}

/// A copy of an optional message.
pub fn copy_text(message: &Option<String>) -> (copy: Option<String>)
    ensures
        text(copy) == text(*message),
{
    match message {
        Some(message) => Some(message.clone()),
        None => None,
    }
}

/// The error that stands for the failure of a device call, with the message that
/// the device gave: a failed upload of texels, a failed allocation of a texture,
/// a failed read-back of pixels; any other failure is of an unknown kind.
pub fn device_failure(call: &DeviceCall, message: Option<String>) -> (error: GlError)
    ensures
        error@ == match *call {
            DeviceCall::TexImage2d { with_pixels, .. } => if with_pixels {
                ErrorView::WritePixelsError(text(message))
            } else {
                ErrorView::InitTextureBufferError(text(message))
            },
            DeviceCall::TexImage2dImage { .. } => ErrorView::WritePixelsError(text(message)),
            DeviceCall::ReadPixels { .. } => ErrorView::ReadPixelsError(text(message)),
            _ => ErrorView::UnknownError(text(message)),
        },
{
    match call {
        DeviceCall::TexImage2d { with_pixels, .. } => if *with_pixels {
            GlError::WritePixelsError(message)
        } else {
            GlError::InitTextureBufferError(message)
        },
        DeviceCall::TexImage2dImage { .. } => GlError::WritePixelsError(message),
        DeviceCall::ReadPixels { .. } => GlError::ReadPixelsError(message),
        _ => GlError::UnknownError(message),
    }
}

/// The settings that the items of `settings` ask for.
pub open spec fn views(settings: Seq<Setting>) -> Seq<SettingView> {
    Seq::new(settings.len(), |i: int| settings[i]@)
}

/// The calls and uploads of `commands`.
pub open spec fn records(commands: Seq<Command>) -> Seq<Record> {
    Seq::new(commands.len(), |i: int| commands[i]@)
}

/// The state of the library for one device: what [`Gl`] stands for.
pub struct GlView {
    /// The value last handed to the device for every state category.
    pub cache: CacheView,
    /// For every open scope, innermost last, the setting that undoes it.
    pub scopes: Seq<SettingView>,
    /// The device objects that exist, by identifier.
    pub objects: Map<u64, Object>,
    /// The identifier that the next device object gets.
    pub next: u64,
    /// Every device call made so far, in order.
    pub issued: Seq<Record>,
    /// The device calls that the caller has not yet taken over.
    pub pending: Seq<Record>,
}

impl GlView {
    /// Whether the device object `id` exists.
    pub open spec fn live(self, id: u64) -> bool {
        self.objects.dom().contains(id)
    }

    /// Whether some frame buffer has the device object `id` attached.
    pub open spec fn attached(self, id: u64) -> bool {
        exists|owner: u64| #[trigger]
            self.objects.dom().contains(owner) && self.objects[owner].body.attaches(id)
    }

    /// Whether some open scope will bring back the device object `id`.
    pub open spec fn scoped(self, id: u64) -> bool {
        exists|i: int| 0 <= i < self.scopes.len() && #[trigger] self.scopes[i].refers(id)
    }

    /// Whether the library itself still needs the device object `id`: it is
    /// bound, an open scope will bind it again, or it is attached to a frame
    /// buffer.
    pub open spec fn pinned(self, id: u64) -> bool {
        self.cache.refers(id) || self.scoped(id) || self.attached(id)
    }

    /// The invariant of the library, but that the objects in `exempt` may exist
    /// unreferenced.
    pub open spec fn wf_except(self, exempt: Set<u64>) -> bool {
        &&& self.cache.valid()
        &&& forall|i: int| 0 <= i < self.scopes.len() ==> #[trigger] self.scopes[i].valid()
        &&& forall|id: u64| #[trigger]
            self.objects.dom().contains(id) ==> id < self.next && self.objects[id].id == id
        &&& forall|id: u64| #[trigger] self.pinned(id) ==> self.live(id)
        &&& forall|owner: u64, id: u64|
            self.objects.dom().contains(owner) && #[trigger] self.objects[owner].body.attaches(id)
                ==> self.live(id) && !(self.objects[id].body is FrameBuffer)
        &&& forall|id: u64| #[trigger]
            self.objects.dom().contains(id) && !exempt.contains(id) ==> self.objects[id].handles
                > 0 || self.pinned(id)
        &&& forall|id: u64| #[trigger]
            releases(self.issued, id) == if id < self.next && !self.live(id) {
                1nat
            } else {
                0nat
            }
    }

    /// The invariant of the library: every object that is bound, awaited by a
    /// scope or attached exists; every object that exists is held by a caller or
    /// needed by the library; and the device was asked to release exactly the
    /// objects that no longer exist, each once.
    pub open spec fn wf(self) -> bool {
        self.wf_except(Set::empty())
    }

    /// Whether nothing needs the device object `id` any longer: no caller holds a
    /// handle on it and the library does not need it.
    pub open spec fn garbage(self, id: u64) -> bool {
        self.live(id) && self.objects[id].handles == 0 && !self.pinned(id)
    }

    /// The state once the object `id` is gone and the device was asked to release
    /// it.
    pub open spec fn removed(self, id: u64) -> GlView {
        GlView { objects: self.objects.remove(id), ..self }.emitted(
            plain(self.objects[id].body.spec_release_call(id)),
        )
    }

    /// The state once the object `id` is gone if nothing needs it.
    pub open spec fn swept(self, id: Option<u64>) -> GlView {
        match id {
            Some(id) => if self.garbage(id) {
                self.removed(id)
            } else {
                self
            },
            None => self,
        }
    }

    /// The state once the object `id` is gone if nothing needs it, and with it,
    /// where it was a frame buffer, those of its attachments that nothing else
    /// needs: first the colour attachment, then the depth attachment.
    pub open spec fn collected(self, id: Option<u64>) -> GlView {
        match id {
            Some(id) => if self.garbage(id) {
                match self.objects[id].body {
                    Body::FrameBuffer { color_buffer, depth_buffer } => self.removed(id).swept(
                        color_buffer,
                    ).swept(depth_buffer),
                    _ => self.removed(id),
                }
            } else {
                self
            },
            None => self,
        }
    }

    /// The state with a new object of the family and metadata `body`, on which
    /// the caller holds one handle.
    pub open spec fn created(self, body: Body) -> GlView {
        GlView {
            objects: self.objects.insert(self.next, Object { id: self.next, handles: 1, body }),
            next: (self.next + 1) as u64,
            ..self
        }
    }

    /// The state in which callers hold `handles` handles on the object `id`.
    pub open spec fn with_handles(self, id: u64, handles: u64) -> GlView {
        GlView {
            objects: self.objects.insert(id, Object { handles, ..self.objects[id] }),
            ..self
        }
    }

    /// The state in which the object `id` has the metadata `body`.
    pub open spec fn with_body(self, id: u64, body: Body) -> GlView {
        GlView { objects: self.objects.insert(id, Object { body, ..self.objects[id] }), ..self }
    }

    /// The state once a caller has given up one handle on the object `id`: the
    /// object is gone if that was the last handle and the library does not need
    /// it.
    pub open spec fn released(self, id: u64) -> GlView {
        self.with_handles(id, (self.objects[id].handles - 1) as u64).collected(Some(id))
    }

    /// The state inside a new scope in which `setting` is current: the cache
    /// holds its value, the device was sent the calls that the change takes, and
    /// the scope remembers how to undo it.
    pub open spec fn entered(self, setting: SettingView) -> GlView {
        GlView {
            cache: self.cache.shifted(setting),
            scopes: self.scopes.push(self.cache.undo(setting)),
            ..self
        }.emitted_all(plain_all(self.cache.calls(setting, false)))
    }

    /// The state once the innermost scope has undone its setting, before the
    /// objects that this leaves unreferenced are let go.
    pub open spec fn restored(self) -> GlView {
        let top = self.scopes.last();
        GlView {
            cache: self.cache.shifted(top),
            scopes: self.scopes.drop_last(),
            ..self
        }.emitted_all(plain_all(self.cache.calls(top, true)))
    }

    /// The state once the first `count` of `ids` are gone, as far as nothing
    /// needs them, in their order.
    pub open spec fn collected_list(self, ids: Seq<Option<u64>>, count: nat) -> GlView
        decreases count,
    {
        if count == 0 {
            self
        } else {
            self.collected_list(ids, (count - 1) as nat).collected(ids[count - 1])
        }
    }

    /// The state once the objects that `displaced` names are gone, as far as
    /// nothing needs them.
    pub open spec fn collected_setting(self, displaced: SettingView) -> GlView {
        match displaced {
            SettingView::Cached(value) => self.collected(value.resource()),
            SettingView::Texture(value) => self.collected(value.texture),
            SettingView::TextureList(textures) => self.collected_list(textures, textures.len()),
            SettingView::TextureFilter(value) => self.collected(Some(value.texture)),
            _ => self,
        }
    }

    /// What the innermost scope gives up when it ends: the value that it had
    /// made current, or the texture whose filter it held.
    pub open spec fn displaced(self) -> SettingView {
        let top = self.scopes.last();
        if top is TextureFilter {
            top
        } else {
            self.cache.undo(top)
        }
    }

    /// The state once the innermost scope has ended: its setting is undone and
    /// the objects that only the scope still needed are gone.
    pub open spec fn left(self) -> GlView {
        self.restored().collected_setting(self.displaced())
    }

    /// The state once the frame buffer `id` has `color_buffer` and `depth_buffer`
    /// attached in place of what it had, and the former attachments that nothing
    /// needs any longer are gone, first the colour attachment.
    pub open spec fn attached_to(
        self,
        id: u64,
        color_buffer: Option<u64>,
        depth_buffer: Option<u64>,
    ) -> GlView {
        self.with_body(id, Body::FrameBuffer { color_buffer, depth_buffer }).collected(
            self.objects[id].body->FrameBuffer_color_buffer,
        ).collected(self.objects[id].body->FrameBuffer_depth_buffer)
    }

    /// The state inside new scopes for the settings, the first outermost.
    pub open spec fn entered_all(self, settings: Seq<SettingView>) -> GlView
        decreases settings.len(),
    {
        if settings.len() == 0 {
            self
        } else {
            self.entered_all(settings.drop_last()).entered(settings.last())
        }
    }

    /// The state once the `count` innermost scopes have ended.
    pub open spec fn left_all(self, count: nat) -> GlView
        decreases count,
    {
        if count == 0 {
            self
        } else {
            self.left().left_all((count - 1) as nat)
        }
    }

    /// The state once the texture `id` has the sampling filter `filter`, if it is
    /// a texture.
    pub open spec fn refiltered(self, id: u64, filter: TextureFilter) -> GlView {
        if self.objects[id].body is Texture {
            Texture::filtered(self, id, filter)
        } else {
            self
        }
    }

    /// The state inside a new scope in which `setting` is current. A filter
    /// setting gives its texture the filter and has the scope remember the
    /// former one; see [`GlView::entered`] for the others.
    pub open spec fn opened(self, setting: SettingView) -> GlView {
        match setting {
            SettingView::TextureFilter(value) => {
                let previous = self.objects[value.texture].body->Texture_filter;
                let changed = self.refiltered(value.texture, value.filter);
                GlView {
                    scopes: changed.scopes.push(
                        SettingView::TextureFilter(
                            TextureFilterSetting { texture: value.texture, filter: previous },
                        ),
                    ),
                    ..changed
                }
            },
            _ => self.entered(setting),
        }
    }

    /// The state once the innermost scope has ended: a scope that remembers a
    /// texture's filter gives it back first.
    pub open spec fn closed(self) -> GlView {
        match self.scopes.last() {
            SettingView::TextureFilter(value) => self.refiltered(value.texture, value.filter).left(),
            _ => self.left(),
        }
    }

    /// The state inside new scopes for the settings, the first outermost.
    pub open spec fn opened_all(self, settings: Seq<SettingView>) -> GlView
        decreases settings.len(),
    {
        if settings.len() == 0 {
            self
        } else {
            self.opened_all(settings.drop_last()).opened(settings.last())
        }
    }

    /// The state once the `count` innermost scopes have ended.
    pub open spec fn closed_all(self, count: nat) -> GlView
        decreases count,
    {
        if count == 0 {
            self
        } else {
            self.closed().closed_all((count - 1) as nat)
        }
    }

    /// Whether the value that `setting` asks for is current already: the cache
    /// holds it, or the texture has the filter.
    pub open spec fn holds(self, setting: SettingView) -> bool {
        match setting {
            SettingView::TextureFilter(value) => self.objects[value.texture].body->Texture_filter
                == value.filter,
            _ => self.cache.holds(setting),
        }
    }

    /// Whether `setting` can be applied here: the device objects that it names
    /// exist, and where it sets a filter, it names a texture.
    pub open spec fn fits(self, setting: SettingView) -> bool {
        &&& forall|id: u64| setting.refers(id) ==> self.live(id)
        &&& setting matches SettingView::TextureFilter(value) ==> self.objects[value.texture].body
            is Texture
    }

    /// Whether every one of the settings can be applied here.
    pub open spec fn fits_all(self, settings: Seq<SettingView>) -> bool {
        forall|i: int| 0 <= i < settings.len() ==> self.fits(#[trigger] settings[i])
    }

    /// Whether the same device objects exist here as in `other`, each of the
    /// same family.
    pub open spec fn same_objects(self, other: GlView) -> bool {
        &&& self.objects.dom() =~= other.objects.dom()
        &&& forall|id: u64|
            (#[trigger] self.objects[id]).body is Texture <==> other.objects[id].body is Texture
    }

    /// Whether every device object that the settings name exists.
    pub open spec fn has_all(self, settings: Seq<SettingView>) -> bool {
        forall|i: int, id: u64|
            0 <= i < settings.len() && (#[trigger] settings[i].refers(id)) ==> self.live(id)
    }

    /// The state after the device call `record`.
    pub open spec fn emitted(self, record: Record) -> GlView {
        GlView {
            issued: self.issued.push(record),
            pending: self.pending.push(record),
            ..self
        }
    }

    /// The state after the device calls `records`.
    pub open spec fn emitted_all(self, records: Seq<Record>) -> GlView {
        GlView { issued: self.issued + records, pending: self.pending + records, ..self }
    }
}

/// The library's side of one device: the cache of device state, the open scopes,
/// the device objects and the calls that wait for the device.
pub struct Gl {
    cache: SettingsCache,
    scopes: Vec<Setting>,
    objects: Vec<Object>,
    next: u64,
    pending: Vec<Command>,
    table: Ghost<Map<u64, Object>>,
    issued: Ghost<Seq<Record>>,
}

impl View for Gl {
    type V = GlView;

    closed spec fn view(&self) -> GlView {
        GlView {
            cache: self.cache@,
            scopes: views(self.scopes@),
            objects: self.table@,
            next: self.next,
            issued: self.issued@,
            pending: records(self.pending@),
        }
    }
}

impl Gl {
    /// The list of objects and the map of objects hold the same objects.
    pub closed spec fn coherent(&self) -> bool {
        &&& forall|i: int|
            0 <= i < self.objects.len() ==> self.table@.dom().contains(
                (#[trigger] self.objects[i]).id,
            ) && self.table@[self.objects[i].id] == self.objects[i]
        &&& forall|id: u64|
            self.table@.dom().contains(id) ==> exists|i: int|
                0 <= i < self.objects.len() && (#[trigger] self.objects[i]).id == id
        &&& forall|i: int, j: int|
            0 <= i < self.objects.len() && 0 <= j < self.objects.len() && i != j ==> (
            #[trigger] self.objects[i]).id != (#[trigger] self.objects[j]).id
    }

    /// The invariant of the library holds; see [`GlView::wf`].
    pub open spec fn wf(&self) -> bool {
        self.coherent() && self@.wf()
    }

    /// The library's side of a device on which nothing has been done.
    pub fn fresh() -> (gl: Gl)
        ensures
            gl.wf(),
            gl@.cache == CacheView::initial(),
            gl@.scopes == Seq::<SettingView>::empty(),
            gl@.objects == Map::<u64, Object>::empty(),
            gl@.next == 0,
            gl@.issued == Seq::<Record>::empty(),
            gl@.pending == Seq::<Record>::empty(),
    {
        let gl = Gl {
            cache: SettingsCache::new(),
            scopes: Vec::new(),
            objects: Vec::new(),
            next: 0,
            pending: Vec::new(),
            table: Ghost(Map::empty()),
            issued: Ghost(Seq::empty()),
        };
        proof {
            assert(gl@.scopes =~= Seq::<SettingView>::empty());
            assert(gl@.pending =~= Seq::<Record>::empty());
            assert forall|id: u64| !gl@.pinned(id) by {
                let none: Option<u64> = None;
                assert forall|i: int| 0 <= i < gl@.cache.textures.len() implies gl@.cache.textures[i]
                    == none by {}
            }
        }
        gl
    }

    /// The place of the object `id` in the list of objects.
    fn find(&self, id: u64) -> (index: Option<usize>)
        requires
            self.coherent(),
        ensures
            match index {
                Some(i) => i < self.objects.len() && self.objects[i as int].id == id && self@.live(id)
                    && self@.objects[id] == self.objects[i as int],
                None => !self@.live(id),
            },
    {
        let mut i: usize = 0;
        while i < self.objects.len()
            invariant
                i <= self.objects.len(),
                self.coherent(),
                forall|k: int| 0 <= k < i ==> (#[trigger] self.objects[k]).id != id,
            decreases self.objects.len() - i,
        {
            if self.objects[i].id == id {
                return Some(i);
            }
            i += 1;
        }
        None
    }

    /// Adds a device call to those that wait for the device.
    fn push_call(&mut self, command: Command)
        requires
            old(self).coherent(),
        ensures
            final(self).coherent(),
            final(self)@ == old(self)@.emitted(command@),
    {
        proof {
            self.issued@ = self.issued@.push(command@);
        }
        self.pending.push(command);
        proof {
            assert(self@.pending =~= old(self)@.pending.push(command@));
            assert(self@.scopes =~= old(self)@.scopes);
        }
    }

    /// Hands a device call to the device.
    pub(crate) fn emit(&mut self, command: Command)
        requires
            old(self).wf(),
            command.call.released() is None,
        ensures
            final(self).wf(),
            final(self)@ == old(self)@.emitted(command@),
    {
        self.push_call(command);
        proof {
            lemma_emitted_wf(old(self)@, command@, Set::empty());
        }
    }

    /// Hands device calls that upload nothing to the device.
    fn push_calls(&mut self, calls: Vec<DeviceCall>)
        requires
            old(self).coherent(),
        ensures
            final(self).coherent(),
            final(self)@ == old(self)@.emitted_all(plain_all(calls@)),
    {
        let mut i: usize = 0;
        proof {
            assert(old(self)@.emitted_all(plain_all(calls@.take(0))) =~= old(self)@);
        }
        while i < calls.len()
            invariant
                i <= calls.len(),
                self.coherent(),
                self@ == old(self)@.emitted_all(plain_all(calls@.take(i as int))),
            decreases calls.len() - i,
        {
            self.push_call(Command::plain(calls[i]));
            proof {
                assert(plain_all(calls@.take(i + 1)) =~= plain_all(calls@.take(i as int)).push(
                    plain(calls@[i as int]),
                ));
                assert(self@.issued =~= old(self)@.issued + plain_all(calls@.take(i + 1)));
                assert(self@.pending =~= old(self)@.pending + plain_all(calls@.take(i + 1)));
            }
            i += 1;
        }
        proof {
            assert(calls@.take(calls.len() as int) =~= calls@);
        }
    }

    /// Makes a new object of the family and metadata `body`; the caller holds
    /// one handle on it.
    pub(crate) fn create(&mut self, body: Body) -> (id: u64)
        requires
            old(self).wf(),
            old(self)@.next < u64::MAX,
            forall|x: u64| !body.attaches(x),
        ensures
            final(self).wf(),
            final(self)@ == old(self)@.created(body),
            id == old(self)@.next,
            !old(self)@.live(id),
    {
        let id = self.next;
        proof {
            assert(!self@.live(id));
        }
        self.put(Object { id, handles: 1, body });
        self.next = self.next + 1;
        proof {
            assert(self@.scopes =~= old(self)@.scopes);
            assert(self@.pending =~= old(self)@.pending);
            assert(self@ == old(self)@.created(body));
            lemma_created_wf(old(self)@, body);
        }
        id
    }

    /// The identifier that the next device object gets.
    pub fn next_id(&self) -> (id: u64)
        ensures
            id == self@.next,
    {
        self.next
    }

    /// Whether the library has an identifier left for one more device object.
    pub fn can_create(&self) -> (possible: bool)
        ensures
            possible == (self@.next < u64::MAX),
    {
        self.next < u64::MAX
    }

    /// What the library knows of the object `id`.
    pub(crate) fn lookup(&self, id: u64) -> (object: &Object)
        requires
            self.wf(),
            self@.live(id),
        ensures
            *object == self@.objects[id],
    {
        let index = self.find(id).unwrap();
        &self.objects[index]
    }

    /// Whether the device object `id` exists.
    pub fn is_live(&self, id: u64) -> (live: bool)
        requires
            self.wf(),
        ensures
            live == self@.live(id),
    {
        self.find(id).is_some()
    }

    /// Counts one more handle on the object `id`.
    pub(crate) fn share(&mut self, id: u64)
        requires
            old(self).wf(),
            old(self)@.live(id),
            old(self)@.objects[id].handles < u64::MAX,
        ensures
            final(self).wf(),
            final(self)@ == old(self)@.with_handles(
                id,
                (old(self)@.objects[id].handles + 1) as u64,
            ),
    {
        let index = self.find(id).unwrap();
        let object = self.take(index);
        let handles = object.handles + 1;
        self.put(Object { id: object.id, handles, body: object.body });
        proof {
            assert(self@.objects =~= old(self)@.with_handles(id, handles).objects);
            lemma_handles_wf(old(self)@, id, handles, Set::empty());
        }
    }

    /// Counts one handle less on the object `id`, and lets the object go if that
    /// was the last and the library does not need it.
    pub(crate) fn release(&mut self, id: u64)
        requires
            old(self).wf(),
            old(self)@.live(id),
            old(self)@.objects[id].handles > 0,
        ensures
            final(self).wf(),
            final(self)@ == old(self)@.released(id),
    {
        let index = self.find(id).unwrap();
        let object = self.take(index);
        let handles = object.handles - 1;
        self.put(Object { id: object.id, handles, body: object.body });
        proof {
            assert(self@.objects =~= old(self)@.with_handles(id, handles).objects);
            lemma_handles_wf(old(self)@, id, handles, Set::empty());
            assert(Set::<u64>::empty().insert(id).remove(id) =~= Set::<u64>::empty());
        }
        self.collect(Some(id), Ghost(Set::empty().insert(id)));
    }

    /// Replaces what is known of the object `id`; its attachments stay.
    pub(crate) fn set_body(&mut self, id: u64, body: Body)
        requires
            old(self).wf(),
            old(self)@.live(id),
            forall|x: u64| body.attaches(x) == old(self)@.objects[id].body.attaches(x),
            (body is FrameBuffer) == (old(self)@.objects[id].body is FrameBuffer),
        ensures
            final(self).wf(),
            final(self)@ == old(self)@.with_body(id, body),
    {
        let index = self.find(id).unwrap();
        let object = self.take(index);
        self.put(Object { id: object.id, handles: object.handles, body });
        proof {
            assert(self@.objects =~= old(self)@.with_body(id, body).objects);
            lemma_body_wf(old(self)@, id, body);
        }
    }

    /// Attaches `color_buffer` and `depth_buffer` to the frame buffer `id` in
    /// place of what was attached, and lets go of the former attachments that
    /// nothing needs any longer.
    pub(crate) fn set_attachments(
        &mut self,
        id: u64,
        color_buffer: Option<u64>,
        depth_buffer: Option<u64>,
    )
        requires
            old(self).wf(),
            old(self)@.live(id),
            old(self)@.objects[id].body is FrameBuffer,
            color_buffer matches Some(x) ==> old(self)@.live(x) && !(old(self)@.objects[x].body
                is FrameBuffer),
            depth_buffer matches Some(x) ==> old(self)@.live(x) && !(old(self)@.objects[x].body
                is FrameBuffer),
        ensures
            final(self).wf(),
            final(self)@ == old(self)@.attached_to(id, color_buffer, depth_buffer),
    {
        let index = self.find(id).unwrap();
        let object = self.take(index);
        let (former_color, former_depth) = match object.body {
            Body::FrameBuffer { color_buffer, depth_buffer } => (color_buffer, depth_buffer),
            _ => (None, None),
        };
        self.put(
            Object {
                id: object.id,
                handles: object.handles,
                body: Body::FrameBuffer { color_buffer, depth_buffer },
            },
        );
        let ghost exempt = Set::new(|x: u64| old(self)@.objects[id].body.attaches(x));
        proof {
            assert(self@.objects =~= old(self)@.with_body(
                id,
                Body::FrameBuffer { color_buffer, depth_buffer },
            ).objects);
            lemma_attached_wf(old(self)@, id, color_buffer, depth_buffer);
        }
        self.collect(former_color, Ghost(exempt));
        let ghost exempt = if let Some(x) = former_color {
            exempt.remove(x)
        } else {
            exempt
        };
        self.collect(former_depth, Ghost(exempt));
        proof {
            let rest = if let Some(x) = former_depth {
                exempt.remove(x)
            } else {
                exempt
            };
            assert(rest =~= Set::<u64>::empty());
        }
    }

    /// Opens a scope in which `setting` is current.
    pub(crate) fn enter(&mut self, setting: &Setting)
        requires
            old(self).wf(),
            setting@.valid(),
            forall|id: u64| setting@.refers(id) ==> old(self)@.live(id),
        ensures
            final(self).wf(),
            final(self)@ == old(self)@.entered(setting@),
    {
        let (undo, calls) = self.cache.shift(setting, false);
        let ghost frame = undo@;
        self.scopes.push(undo);
        proof {
            assert(views(self.scopes@) =~= views(old(self).scopes@).push(frame));
        }
        self.push_calls(calls);
        proof {
            lemma_entered_wf(old(self)@, setting@);
        }
    }

    /// Closes the innermost scope: undoes its setting and lets go of the objects
    /// that only the scope still needed.
    pub(crate) fn leave(&mut self)
        requires
            old(self).wf(),
            old(self)@.scopes.len() > 0,
        ensures
            final(self).wf(),
            final(self)@ == old(self)@.left(),
    {
        let top = self.scopes.pop().unwrap();
        proof {
            assert(views(self.scopes@) =~= views(old(self).scopes@).drop_last());
            assert(top@ == old(self)@.scopes.last());
            assert(old(self)@.scopes[old(self)@.scopes.len() - 1].valid());
        }
        let (undo, calls) = self.cache.shift(&top, true);
        self.push_calls(calls);
        let displaced = if let Setting::TextureFilter(_) = top {
            top
        } else {
            undo
        };
        proof {
            assert(self@ == old(self)@.restored());
            assert(displaced@ == old(self)@.displaced());
            lemma_restored_wf(old(self)@);
        }
        self.collect_setting(&displaced);
    }

    /// Adds a scope that remembers the former filter of a texture.
    fn push_filter_scope(&mut self, texture: u64, filter: TextureFilter)
        requires
            old(self).wf(),
            old(self)@.live(texture),
        ensures
            final(self).wf(),
            final(self)@ == (GlView {
                scopes: old(self)@.scopes.push(
                    SettingView::TextureFilter(TextureFilterSetting { texture, filter }),
                ),
                ..old(self)@
            }),
    {
        let frame = Setting::TextureFilter(TextureFilterSetting { texture, filter });
        let ghost view = frame@;
        self.scopes.push(frame);
        proof {
            assert(views(self.scopes@) =~= views(old(self).scopes@).push(view));
            assert(self@.pending =~= old(self)@.pending);
            lemma_scope_pushed_wf(old(self)@, view);
        }
    }

    /// Opens a scope in which `setting` is current, whatever the setting.
    pub(crate) fn open(&mut self, setting: &Setting)
        requires
            old(self).wf(),
            setting@.valid(),
            old(self)@.fits(setting@),
        ensures
            final(self).wf(),
            final(self)@ == old(self)@.opened(setting@),
            final(self)@.same_objects(old(self)@),
            final(self)@.scopes.len() == old(self)@.scopes.len() + 1,
    {
        match setting {
            Setting::TextureFilter(value) => {
                proof {
                    assert(setting@.refers(value.texture));
                }
                let previous = match &self.lookup(value.texture).body {
                    Body::Texture { filter, .. } => *filter,
                    _ => value.filter,
                };
                Texture::set_filter_of(self, value.texture, value.filter);
                self.push_filter_scope(value.texture, previous);
            },
            _ => {
                self.enter(setting);
            },
        }
    }

    /// Gives back the filter that the innermost scope remembers, if it
    /// remembers one.
    fn restore_filter(&mut self)
        requires
            old(self).wf(),
            old(self)@.scopes.len() > 0,
        ensures
            final(self).wf(),
            final(self)@.scopes == old(self)@.scopes,
            final(self)@ == match old(self)@.scopes.last() {
                SettingView::TextureFilter(value) => old(self)@.refiltered(
                    value.texture,
                    value.filter,
                ),
                _ => old(self)@,
            },
    {
        let restore = match &self.scopes[self.scopes.len() - 1] {
            Setting::TextureFilter(value) => Some((value.texture, value.filter)),
            _ => None,
        };
        proof {
            assert(self@.scopes.last() == self.scopes[self.scopes.len() - 1]@);
        }
        if let Some((texture, filter)) = restore {
            proof {
                assert(self@.scopes[self@.scopes.len() - 1].refers(texture));
                assert(self@.scoped(texture));
                assert(self@.pinned(texture));
            }
            let is_texture = matches!(self.lookup(texture).body, Body::Texture { .. });
            if is_texture {
                Texture::set_filter_of(self, texture, filter);
                proof {
                    lemma_filtered_frame(old(self)@, texture, filter);
                }
            }
        }
    }

    /// Closes the innermost scope, whatever its setting.
    pub(crate) fn close(&mut self)
        requires
            old(self).wf(),
            old(self)@.scopes.len() > 0,
        ensures
            final(self).wf(),
            final(self)@ == old(self)@.closed(),
            final(self)@.scopes.len() == old(self)@.scopes.len() - 1,
    {
        self.restore_filter();
        proof {
            lemma_left_frame(self@);
        }
        self.leave();
    }

    /// Opens a scope for each of the settings, the first outermost, whatever
    /// the settings.
    pub(crate) fn open_all(&mut self, settings: &Settings)
        requires
            old(self).wf(),
            settings.valid(),
            old(self)@.fits_all(settings@),
        ensures
            final(self).wf(),
            final(self)@ == old(self)@.opened_all(settings@),
            final(self)@.same_objects(old(self)@),
            final(self)@.scopes.len() == old(self)@.scopes.len() + settings@.len(),
    {
        let ghost all = settings@;
        let mut i: usize = 0;
        proof {
            assert(all.take(0) =~= Seq::<SettingView>::empty());
        }
        while i < settings.items.len()
            invariant
                i <= settings.items.len(),
                all == settings@,
                all.len() == settings.items.len(),
                settings.valid(),
                old(self)@.fits_all(all),
                self.wf(),
                self@ == old(self)@.opened_all(all.take(i as int)),
                self@.same_objects(old(self)@),
                self@.scopes.len() == old(self)@.scopes.len() + i,
            decreases settings.items.len() - i,
        {
            proof {
                assert(all[i as int].valid());
                assert(old(self)@.fits(all[i as int]));
                assert(all.take(i + 1).drop_last() =~= all.take(i as int));
            }
            self.open(&settings.items[i]);
            i += 1;
        }
        proof {
            assert(all.take(settings.items.len() as int) =~= all);
        }
    }

    /// Closes the `count` innermost scopes, whatever their settings.
    pub(crate) fn close_all(&mut self, count: usize)
        requires
            old(self).wf(),
            count <= old(self)@.scopes.len(),
        ensures
            final(self).wf(),
            final(self)@ == old(self)@.closed_all(count as nat),
    {
        let mut k: usize = 0;
        while k < count
            invariant
                k <= count,
                count <= old(self)@.scopes.len(),
                self.wf(),
                old(self)@.closed_all(count as nat) == self@.closed_all((count - k) as nat),
                self@.scopes.len() == old(self)@.scopes.len() - k,
            decreases count - k,
        {
            self.close();
            k += 1;
        }
    }

    /// The root of a chain of settings: no setting.
    pub fn settings() -> (settings: Settings)
        ensures
            settings@ == Seq::<SettingView>::empty(),
            settings.valid(),
    {
        Settings::new()
    }

    /// Runs `work` under the settings, the first outermost: makes each setting
    /// current, runs the work, and undoes the settings, innermost first. A
    /// setting whose value is current already costs no device call. The work may
    /// open scopes of its own as long as it closes them.
    pub fn apply<R, F: FnOnce(&mut Gl) -> R>(&mut self, settings: &Settings, work: F) -> (result: R)
        requires
            old(self).wf(),
            settings.valid(),
            old(self)@.fits_all(settings@),
            forall|gl: &mut Gl|
                gl.wf() && gl@ == old(self)@.opened_all(settings@) ==> call_requires(work, (gl,)),
            forall|gl: &mut Gl, result: R|
                gl.wf() && gl@ == old(self)@.opened_all(settings@) && call_ensures(
                    work,
                    (gl,),
                    result,
                ) ==> final(gl).wf() && final(gl)@.scopes.len() == gl@.scopes.len(),
        ensures
            final(self).wf(),
            exists|gl: &mut Gl|
                gl@ == old(self)@.opened_all(settings@) && #[trigger] call_ensures(
                    work,
                    (gl,),
                    result,
                ) && final(self)@ == final(gl)@.closed_all(settings@.len()),
            (forall|gl: &mut Gl, result: R|
                gl@ == old(self)@.opened_all(settings@) && #[trigger] call_ensures(
                    work,
                    (gl,),
                    result,
                ) ==> final(gl)@.cache == gl@.cache && final(gl)@.scopes == gl@.scopes)
                ==> final(self)@.cache == old(self)@.cache && final(self)@.scopes == old(
                self,
            )@.scopes,
    {
        self.open_all(settings);
        let result = work(self);
        proof {
            let opened = old(self)@.opened_all(settings@);
            if self@.cache == opened.cache && self@.scopes == opened.scopes {
                lemma_apply_restores(old(self)@, settings@, self@);
            }
        }
        self.close_all(settings.items.len());
        result
    }

    /// Closes the innermost scope, which was opened on `base` for `setting` and
    /// in which the calls `inner` were made: the state is again `base`, but for the
    /// calls.
    pub(crate) fn leave_scope(
        &mut self,
        Ghost(base): Ghost<GlView>,
        Ghost(setting): Ghost<SettingView>,
        Ghost(inner): Ghost<Seq<Record>>,
    )
        requires
            old(self).wf(),
            base.wf(),
            setting.valid(),
            forall|id: u64| setting.refers(id) ==> base.live(id),
            release_nothing(inner),
            old(self)@ == base.entered(setting).emitted_all(inner),
        ensures
            final(self).wf(),
            final(self)@ == base.emitted_all(round_trip(base.cache, seq![setting], inner)),
            release_nothing(round_trip(base.cache, seq![setting], inner)),
    {
        self.leave();
        proof {
            let only = seq![setting];
            let inside = base.entered(setting).emitted_all(inner);
            assert(only.drop_last() =~= Seq::<SettingView>::empty());
            assert(only.last() == setting);
            assert(base.entered_all(only.drop_last()) == base);
            assert(base.entered_all(only) == base.entered(setting));
            assert(inside.left().left_all(0) == inside.left());
            assert(inside.left_all(1) == inside.left());
            assert(base.has_all(only));
            lemma_round_trip(base, only, inner);
        }
    }

    /// Opens a scope for each of the settings, the first outermost.
    pub(crate) fn enter_all(&mut self, settings: &Vec<Setting>)
        requires
            old(self).wf(),
            all_valid(views(settings@)),
            old(self)@.has_all(views(settings@)),
        ensures
            final(self).wf(),
            final(self)@ == old(self)@.entered_all(views(settings@)),
    {
        let ghost all = views(settings@);
        let mut i: usize = 0;
        proof {
            assert(all.take(0) =~= Seq::<SettingView>::empty());
        }
        while i < settings.len()
            invariant
                i <= settings.len(),
                all == views(settings@),
                all_valid(all),
                old(self)@.has_all(all),
                self.wf(),
                self@ == old(self)@.entered_all(all.take(i as int)),
            decreases settings.len() - i,
        {
            proof {
                assert(all[i as int].valid());
                lemma_scopes_entered(old(self)@, all.take(i as int));
                assert forall|id: u64| settings[i as int]@.refers(id) implies self@.live(id) by {
                    assert(all[i as int].refers(id));
                }
                assert(all.take(i + 1).drop_last() =~= all.take(i as int));
            }
            self.enter(&settings[i]);
            i += 1;
        }
        proof {
            assert(all.take(settings.len() as int) =~= all);
        }
    }

    /// Hands device calls to the device.
    pub(crate) fn emit_all(&mut self, commands: Vec<Command>)
        requires
            old(self).wf(),
            release_nothing(records(commands@)),
        ensures
            final(self).wf(),
            final(self)@ == old(self)@.emitted_all(records(commands@)),
    {
        let mut j: usize = 0;
        proof {
            assert(self@.emitted_all(records(commands@.take(0))) =~= self@);
        }
        while j < commands.len()
            invariant
                j <= commands.len(),
                self.wf(),
                release_nothing(records(commands@)),
                self@ == old(self)@.emitted_all(records(commands@.take(j as int))),
            decreases commands.len() - j,
        {
            proof {
                assert(records(commands@)[j as int].call.released() is None);
                assert(records(commands@.take(j + 1)) =~= records(commands@.take(j as int)).push(
                    commands@[j as int]@,
                ));
            }
            let ghost before = self@;
            self.emit(copy_command(&commands[j]));
            proof {
                assert(self@.issued =~= old(self)@.issued + records(commands@.take(j + 1)));
                assert(self@.pending =~= old(self)@.pending + records(commands@.take(j + 1)));
            }
            j += 1;
        }
        proof {
            assert(commands@.take(commands.len() as int) =~= commands@);
        }
    }

    /// Closes the `count` innermost scopes.
    pub(crate) fn leave_all(&mut self, count: usize)
        requires
            old(self).wf(),
            count <= old(self)@.scopes.len(),
        ensures
            final(self).wf(),
            final(self)@ == old(self)@.left_all(count as nat),
    {
        let mut k: usize = 0;
        while k < count
            invariant
                k <= count,
                count <= old(self)@.scopes.len(),
                self.wf(),
                old(self)@.left_all(count as nat) == self@.left_all((count - k) as nat),
                self@.scopes.len() == old(self)@.scopes.len() - k,
            decreases count - k,
        {
            proof {
                lemma_left_frame(self@);
            }
            self.leave();
            k += 1;
        }
    }

    /// Runs device calls under the settings, the first outermost: makes each
    /// setting current, hands the calls to the device, and undoes the settings,
    /// innermost first. The cache, the scopes and the objects end as they began.
    pub(crate) fn run(&mut self, settings: &Vec<Setting>, commands: Vec<Command>)
        requires
            old(self).wf(),
            all_valid(views(settings@)),
            old(self)@.has_all(views(settings@)),
            release_nothing(records(commands@)),
        ensures
            final(self).wf(),
            final(self)@ == old(self)@.emitted_all(
                round_trip(old(self)@.cache, views(settings@), records(commands@)),
            ),
    {
        self.enter_all(settings);
        self.emit_all(commands);
        proof {
            lemma_scopes_entered(old(self)@, views(settings@));
        }
        self.leave_all(settings.len());
        proof {
            lemma_round_trip(old(self)@, views(settings@), records(commands@));
        }
    }

    /// Lets go of the objects that `displaced` names, as far as nothing needs
    /// them.
    fn collect_setting(&mut self, displaced: &Setting)
        requires
            old(self).coherent(),
            old(self)@.wf_except(Set::new(|id: u64| displaced@.refers(id))),
        ensures
            final(self).coherent(),
            final(self)@.wf(),
            final(self)@ == old(self)@.collected_setting(displaced@),
    {
        let ghost exempt = Set::new(|id: u64| displaced@.refers(id));
        match displaced {
            Setting::Cached(value) => {
                let id = value.named();
                self.collect(id, Ghost(exempt));
                proof {
                    if let Some(id) = id {
                        assert(exempt.remove(id) =~= Set::<u64>::empty());
                    } else {
                        assert(exempt =~= Set::<u64>::empty());
                    }
                }
            },
            Setting::Texture(value) => {
                self.collect(value.texture, Ghost(exempt));
                proof {
                    if let Some(id) = value.texture {
                        assert(exempt.remove(id) =~= Set::<u64>::empty());
                    } else {
                        assert(exempt =~= Set::<u64>::empty());
                    }
                }
            },
            Setting::TextureFilter(value) => {
                self.collect(Some(value.texture), Ghost(exempt));
                proof {
                    assert(exempt.remove(value.texture) =~= Set::<u64>::empty());
                }
            },
            Setting::TextureList(value) => {
                let ghost ids = value.textures@;
                let mut i: usize = 0;
                proof {
                    assert(exempt =~= Set::new(
                        |id: u64| exists|j: int| 0 <= j < 16 && ids[j] == Some(id),
                    ));
                }
                while i < 16
                    invariant
                        i <= 16,
                        ids == value.textures@,
                        self.coherent(),
                        self@ == old(self)@.collected_list(ids, i as nat),
                        self@.wf_except(
                            Set::new(|id: u64| exists|j: int| i <= j < 16 && ids[j] == Some(id)),
                        ),
                    decreases 16 - i,
                {
                    let ghost before = Set::new(
                        |id: u64| exists|j: int| i <= j < 16 && ids[j] == Some(id),
                    );
                    let ghost after = Set::new(
                        |id: u64| exists|j: int| i + 1 <= j < 16 && ids[j] == Some(id),
                    );
                    proof {
                        assert(after.subset_of(before));
                    }
                    let ghost state = self@;
                    self.collect(value.textures[i], Ghost(before));
                    proof {
                        if let Some(id) = ids[i as int] {
                            lemma_kept_or_gone(self@, id, before.remove(id), after);
                        } else {
                            assert(before =~= after);
                        }
                    }
                    i += 1;
                }
                proof {
                    assert(Set::new(|id: u64| exists|j: int| 16 <= j < 16 && ids[j] == Some(id))
                        =~= Set::<u64>::empty());
                }
            },
            _ => {
                proof {
                    assert(exempt =~= Set::<u64>::empty());
                }
            },
        }
    }

    /// Takes the object at `index` out of the list of objects.
    fn take(&mut self, index: usize) -> (object: Object)
        requires
            old(self).coherent(),
            index < old(self).objects.len(),
        ensures
            final(self).coherent(),
            object == old(self).objects[index as int],
            old(self)@.live(object.id),
            old(self)@.objects[object.id] == object,
            final(self)@ == (GlView {
                objects: old(self)@.objects.remove(object.id),
                ..old(self)@
            }),
    {
        let object = self.objects.swap_remove(index);
        proof {
            self.table@ = self.table@.remove(object.id);
            assert(self@.scopes =~= old(self)@.scopes);
            assert(self@.pending =~= old(self)@.pending);
            let last = old(self).objects.len() - 1;
            assert forall|i: int| 0 <= i < self.objects.len() implies self.table@.dom().contains(
                (#[trigger] self.objects[i]).id,
            ) && self.table@[self.objects[i].id] == self.objects[i] by {
                if i == index {
                    assert(self.objects[i] == old(self).objects[last]);
                } else {
                    assert(self.objects[i] == old(self).objects[i]);
                }
            }
            assert forall|id: u64| self.table@.dom().contains(id) implies exists|i: int|
                0 <= i < self.objects.len() && (#[trigger] self.objects[i]).id == id by {
                let k = choose|k: int|
                    0 <= k < old(self).objects.len() && (#[trigger] old(self).objects[k]).id == id;
                if k == last {
                    assert(self.objects[index as int].id == id);
                } else {
                    assert(self.objects[k].id == id);
                }
            }
            assert forall|i: int, j: int|
                0 <= i < self.objects.len() && 0 <= j < self.objects.len() && i != j implies (
            #[trigger] self.objects[i]).id != (#[trigger] self.objects[j]).id by {
                let from_i = if i == index { last } else { i };
                let from_j = if j == index { last } else { j };
                assert(self.objects[i] == old(self).objects[from_i]);
                assert(self.objects[j] == old(self).objects[from_j]);
            }
        }
        object
    }

    /// Puts an object into the list of objects.
    fn put(&mut self, object: Object)
        requires
            old(self).coherent(),
            !old(self)@.live(object.id),
        ensures
            final(self).coherent(),
            final(self)@ == (GlView {
                objects: old(self)@.objects.insert(object.id, object),
                ..old(self)@
            }),
    {
        proof {
            self.table@ = self.table@.insert(object.id, object);
        }
        let ghost id = object.id;
        self.objects.push(object);
        proof {
            assert(self@.scopes =~= old(self)@.scopes);
            assert(self@.pending =~= old(self)@.pending);
            let last = old(self).objects.len() as int;
            assert forall|i: int| 0 <= i < self.objects.len() implies self.table@.dom().contains(
                (#[trigger] self.objects[i]).id,
            ) && self.table@[self.objects[i].id] == self.objects[i] by {
                if i < last {
                    assert(self.objects[i] == old(self).objects[i]);
                }
            }
            assert forall|other: u64| self.table@.dom().contains(other) implies exists|i: int|
                0 <= i < self.objects.len() && (#[trigger] self.objects[i]).id == other by {
                if other == id {
                    assert(self.objects[last].id == other);
                } else {
                    let k = choose|k: int|
                        0 <= k < old(self).objects.len() && (#[trigger] old(self).objects[k]).id
                            == other;
                    assert(self.objects[k].id == other);
                }
            }
            assert forall|i: int, j: int|
                0 <= i < self.objects.len() && 0 <= j < self.objects.len() && i != j implies (
            #[trigger] self.objects[i]).id != (#[trigger] self.objects[j]).id by {
                if i < last {
                    assert(self.objects[i] == old(self).objects[i]);
                }
                if j < last {
                    assert(self.objects[j] == old(self).objects[j]);
                }
            }
        }
    }

    /// Whether the library itself still needs the device object `id`.
    fn is_pinned(&self, id: u64) -> (found: bool)
        requires
            self.coherent(),
        ensures
            found == self@.pinned(id),
    {
        if self.cache.refers(id) {
            return true;
        }
        let mut i: usize = 0;
        while i < self.scopes.len()
            invariant
                i <= self.scopes.len(),
                forall|k: int| 0 <= k < i ==> !(#[trigger] self@.scopes[k]).refers(id),
            decreases self.scopes.len() - i,
        {
            if self.scopes[i].refers(id) {
                assert(self@.scopes[i as int].refers(id));
                return true;
            }
            i += 1;
        }
        let mut j: usize = 0;
        while j < self.objects.len()
            invariant
                j <= self.objects.len(),
                self.coherent(),
                forall|k: int| 0 <= k < j ==> !(#[trigger] self.objects[k]).body.attaches(id),
            decreases self.objects.len() - j,
        {
            if self.objects[j].body.has_attached(id) {
                assert(self@.objects.dom().contains(self.objects[j as int].id));
                return true;
            }
            j += 1;
        }
        proof {
            if self@.attached(id) {
                let owner = choose|owner: u64| #[trigger]
                    self@.objects.dom().contains(owner) && self@.objects[owner].body.attaches(id);
                let k = choose|k: int|
                    0 <= k < self.objects.len() && (#[trigger] self.objects[k]).id == owner;
                assert(self.objects[k].body.attaches(id));
            }
        }
        false
    }

    /// Lets the object `id` go if nothing needs it; it is no frame buffer.
    fn sweep(&mut self, id: Option<u64>, Ghost(exempt): Ghost<Set<u64>>)
        requires
            old(self).coherent(),
            old(self)@.wf_except(exempt),
            id matches Some(id) ==> old(self)@.live(id) ==> !(old(self)@.objects[id].body
                is FrameBuffer),
        ensures
            final(self).coherent(),
            final(self)@ == old(self)@.swept(id),
            id matches Some(id) ==> final(self)@.wf_except(exempt.remove(id)),
            id is None ==> final(self)@.wf_except(exempt),
    {
        if let Some(id) = id {
            if let Some(index) = self.find(id) {
                if self.objects[index].handles == 0 && !self.is_pinned(id) {
                    let object = self.take(index);
                    self.push_call(Command::plain(object.body.release_call(id)));
                    proof {
                        lemma_removed_wf(old(self)@, id, exempt);
                        assert(exempt.remove(id).union(Set::new(|x: u64| object.body.attaches(x)))
                            =~= exempt.remove(id));
                    }
                    return ;
                }
            }
            proof {
                lemma_kept_wf(old(self)@, id, exempt);
            }
        }
    }

    /// Lets the object `id` go if nothing needs it, and with it, where it was a
    /// frame buffer, those of its attachments that nothing else needs.
    pub(crate) fn collect(&mut self, id: Option<u64>, Ghost(exempt): Ghost<Set<u64>>)
        requires
            old(self).coherent(),
            old(self)@.wf_except(exempt),
        ensures
            final(self).coherent(),
            final(self)@ == old(self)@.collected(id),
            id matches Some(id) ==> final(self)@.wf_except(exempt.remove(id)),
            id is None ==> final(self)@.wf_except(exempt),
    {
        if let Some(id) = id {
            if let Some(index) = self.find(id) {
                if self.objects[index].handles == 0 && !self.is_pinned(id) {
                    let object = self.take(index);
                    self.push_call(Command::plain(object.body.release_call(id)));
                    let ghost inner = exempt.remove(id).union(
                        Set::new(|x: u64| object.body.attaches(x)),
                    );
                    proof {
                        lemma_removed_wf(old(self)@, id, exempt);
                    }
                    if let Body::FrameBuffer { color_buffer, depth_buffer } = object.body {
                        proof {
                            if let Some(color) = color_buffer {
                                assert(old(self)@.objects[id].body.attaches(color));
                            }
                            if let Some(depth) = depth_buffer {
                                assert(old(self)@.objects[id].body.attaches(depth));
                            }
                        }
                        self.sweep(color_buffer, Ghost(inner));
                        let ghost inner = if let Some(color) = color_buffer {
                            inner.remove(color)
                        } else {
                            inner
                        };
                        self.sweep(depth_buffer, Ghost(inner));
                        let ghost inner = if let Some(depth) = depth_buffer {
                            inner.remove(depth)
                        } else {
                            inner
                        };
                        proof {
                            assert(inner.subset_of(exempt.remove(id)));
                            lemma_wf_weaken(self@, inner, exempt.remove(id));
                        }
                    } else {
                        proof {
                            assert(inner =~= exempt.remove(id));
                        }
                    }
                    return ;
                }
            }
            proof {
                lemma_kept_wf(old(self)@, id, exempt);
            }
        }
    }

    /// Takes over the device calls made since the last time, in order, for the
    /// device to run.
    pub fn take_calls(&mut self) -> (commands: Vec<Command>)
        ensures
            records(commands@) == old(self)@.pending,
            final(self)@ == (GlView { pending: Seq::empty(), ..old(self)@ }),
            old(self).wf() ==> final(self).wf(),
    {
        let mut commands: Vec<Command> = Vec::new();
        core::mem::swap(&mut self.pending, &mut commands);
        proof {
            assert(self@.pending =~= Seq::<Record>::empty());
            assert(self@.scopes =~= old(self)@.scopes);
            if old(self).wf() {
                lemma_wf_transfer(old(self)@, self@, Set::empty());
            }
        }
        commands
    }
}

/// The invariant speaks of the cache, the scopes, the objects and the release
/// calls alone.
pub proof fn lemma_wf_transfer(a: GlView, b: GlView, exempt: Set<u64>)
    requires
        a.wf_except(exempt),
        a.cache == b.cache,
        a.scopes == b.scopes,
        a.objects == b.objects,
        a.next == b.next,
        forall|id: u64| releases(a.issued, id) == releases(b.issued, id),
    ensures
        b.wf_except(exempt),
{
    assert forall|id: u64| #[trigger] b.pinned(id) implies b.live(id) by {
        lemma_pinned_same(a, b, id);
    }
    assert forall|id: u64| #[trigger]
        b.objects.dom().contains(id) && !exempt.contains(id) implies b.objects[id].handles > 0
        || b.pinned(id) by {
        lemma_pinned_same(a, b, id);
    }
    assert forall|id: u64| #[trigger]
        releases(b.issued, id) == if id < b.next && !b.live(id) {
            1nat
        } else {
            0nat
        } by {
        assert(releases(a.issued, id) == releases(b.issued, id));
    }
}

/// A call that releases nothing keeps the invariant.
pub proof fn lemma_emitted_wf(state: GlView, record: Record, exempt: Set<u64>)
    requires
        state.wf_except(exempt),
        record.call.released() is None,
    ensures
        state.emitted(record).wf_except(exempt),
{
    let after = state.emitted(record);
    assert forall|id: u64| releases(state.issued, id) == releases(after.issued, id) by {
        lemma_releases_push(state.issued, record, id);
    }
    lemma_wf_transfer(state, after, exempt);
}

/// Whether an object is needed depends on the cache, the scopes and the objects
/// alone.
pub proof fn lemma_pinned_same(a: GlView, b: GlView, id: u64)
    requires
        a.cache == b.cache,
        a.scopes == b.scopes,
        a.objects == b.objects,
    ensures
        a.pinned(id) == b.pinned(id),
{
    if a.attached(id) {
        let owner = choose|owner: u64| #[trigger]
            a.objects.dom().contains(owner) && a.objects[owner].body.attaches(id);
        assert(b.objects.dom().contains(owner));
    }
    if b.attached(id) {
        let owner = choose|owner: u64| #[trigger]
            b.objects.dom().contains(owner) && b.objects[owner].body.attaches(id);
        assert(a.objects.dom().contains(owner));
    }
    if a.scoped(id) {
        let i = choose|i: int| 0 <= i < a.scopes.len() && #[trigger] a.scopes[i].refers(id);
        assert(b.scopes[i].refers(id));
    }
    if b.scoped(id) {
        let i = choose|i: int| 0 <= i < b.scopes.len() && #[trigger] b.scopes[i].refers(id);
        assert(a.scopes[i].refers(id));
    }
}

/// The invariant with more exemptions is weaker.
pub proof fn lemma_wf_weaken(state: GlView, small: Set<u64>, big: Set<u64>)
    requires
        state.wf_except(small),
        small.subset_of(big),
    ensures
        state.wf_except(big),
{
}

/// An object that is held or needed needs no exemption.
pub proof fn lemma_kept_wf(state: GlView, id: u64, exempt: Set<u64>)
    requires
        state.wf_except(exempt),
        !state.garbage(id),
    ensures
        state.wf_except(exempt.remove(id)),
{
}

/// Letting go of an object that nothing needs keeps the invariant, but that its
/// attachments may now be unreferenced.
pub proof fn lemma_removed_wf(state: GlView, id: u64, exempt: Set<u64>)
    requires
        state.wf_except(exempt),
        state.garbage(id),
    ensures
        state.removed(id).wf_except(
            exempt.remove(id).union(Set::new(|x: u64| state.objects[id].body.attaches(x))),
        ),
{
    let gone = GlView { objects: state.objects.remove(id), ..state };
    let record = plain(state.objects[id].body.spec_release_call(id));
    let after = state.removed(id);
    let inner = exempt.remove(id).union(Set::new(|x: u64| state.objects[id].body.attaches(x)));
    assert forall|x: u64| after.pinned(x) implies state.pinned(x) by {
        if after.attached(x) {
            let owner = choose|owner: u64| #[trigger]
                after.objects.dom().contains(owner) && after.objects[owner].body.attaches(x);
            assert(state.objects.dom().contains(owner));
        }
        if after.scoped(x) {
            let i = choose|i: int| 0 <= i < after.scopes.len() && #[trigger] after.scopes[i].refers(x);
            assert(state.scopes[i].refers(x));
        }
    }
    assert forall|x: u64| #[trigger] after.pinned(x) implies after.live(x) by {
        assert(state.pinned(x));
    }
    assert forall|owner: u64, x: u64|
        after.objects.dom().contains(owner) && #[trigger] after.objects[owner].body.attaches(
            x,
        ) implies after.live(x) && !(after.objects[x].body is FrameBuffer) by {
        assert(state.objects.dom().contains(owner));
        assert(state.objects[owner].body.attaches(x));
        if x == id {
            assert(state.attached(id));
        }
    }
    assert forall|x: u64| #[trigger]
        after.objects.dom().contains(x) && !inner.contains(x) implies after.objects[x].handles > 0
        || after.pinned(x) by {
        assert(state.objects.dom().contains(x));
        if state.objects[x].handles == 0 {
            if exempt.contains(x) {
                assert(x != id);
                assert(exempt.remove(id).contains(x));
            }
            assert(state.pinned(x));
            if state.attached(x) && !state.cache.refers(x) && !state.scoped(x) {
                let owner = choose|owner: u64| #[trigger]
                    state.objects.dom().contains(owner) && state.objects[owner].body.attaches(x);
                if owner == id {
                    assert(Set::new(|y: u64| state.objects[id].body.attaches(y)).contains(x));
                } else {
                    assert(after.objects.dom().contains(owner));
                    assert(after.attached(x));
                }
            } else if state.scoped(x) {
                let i = choose|i: int|
                    0 <= i < state.scopes.len() && #[trigger] state.scopes[i].refers(x);
                assert(after.scopes[i].refers(x));
            }
        }
    }
    assert forall|x: u64| #[trigger]
        releases(after.issued, x) == if x < after.next && !after.live(x) {
            1nat
        } else {
            0nat
        } by {
        lemma_releases_push(state.issued, record, x);
        assert(state.objects.dom().contains(id));
    }
}

/// Once an object needs no exemption, one exemption more or less for it does not
/// matter.
pub proof fn lemma_kept_or_gone(state: GlView, id: u64, without: Set<u64>, target: Set<u64>)
    requires
        state.wf_except(without),
        !without.contains(id),
        forall|x: u64| without.contains(x) ==> target.contains(x) || x == id,
        forall|x: u64| target.contains(x) && x != id ==> without.contains(x),
    ensures
        state.wf_except(target),
{
}

/// A new object, held by its maker, keeps the invariant.
pub proof fn lemma_created_wf(state: GlView, body: Body)
    requires
        state.wf(),
        state.next < u64::MAX,
        forall|x: u64| !body.attaches(x),
    ensures
        state.created(body).wf(),
{
    let after = state.created(body);
    let id = state.next;
    assert(!state.objects.dom().contains(id));
    assert forall|x: u64| after.pinned(x) == state.pinned(x) by {
        lemma_pinned_same_attachments(state, after, x);
    }
    assert forall|x: u64| #[trigger] after.pinned(x) implies after.live(x) by {
        assert(state.pinned(x));
    }
    assert forall|owner: u64, x: u64|
        after.objects.dom().contains(owner) && #[trigger] after.objects[owner].body.attaches(
            x,
        ) implies after.live(x) && !(after.objects[x].body is FrameBuffer) by {
        assert(state.objects.dom().contains(owner));
        assert(state.objects[owner].body.attaches(x));
    }
    assert forall|x: u64| #[trigger] after.objects.dom().contains(x) implies after.objects[x].handles
        > 0 || after.pinned(x) by {
        if x != id {
            assert(state.objects.dom().contains(x));
        }
    }
    assert forall|x: u64| #[trigger]
        releases(after.issued, x) == if x < after.next && !after.live(x) {
            1nat
        } else {
            0nat
        } by {
        assert(releases(state.issued, x) == if x < state.next && !state.live(x) {
            1nat
        } else {
            0nat
        });
    }
}

/// Whether an object is needed depends on the cache, the scopes and the
/// attachments of the frame buffers alone.
pub proof fn lemma_pinned_same_attachments(a: GlView, b: GlView, id: u64)
    requires
        a.cache == b.cache,
        a.scopes == b.scopes,
        forall|owner: u64, x: u64|
            a.objects.dom().contains(owner) && #[trigger] a.objects[owner].body.attaches(x)
                ==> b.objects.dom().contains(owner) && b.objects[owner].body.attaches(x),
        forall|owner: u64, x: u64|
            b.objects.dom().contains(owner) && #[trigger] b.objects[owner].body.attaches(x)
                ==> a.objects.dom().contains(owner) && a.objects[owner].body.attaches(x),
    ensures
        a.pinned(id) == b.pinned(id),
{
    if a.attached(id) {
        let owner = choose|owner: u64| #[trigger]
            a.objects.dom().contains(owner) && a.objects[owner].body.attaches(id);
        assert(b.objects.dom().contains(owner) && b.objects[owner].body.attaches(id));
    }
    if b.attached(id) {
        let owner = choose|owner: u64| #[trigger]
            b.objects.dom().contains(owner) && b.objects[owner].body.attaches(id);
        assert(a.objects.dom().contains(owner) && a.objects[owner].body.attaches(id));
    }
    if a.scoped(id) {
        let i = choose|i: int| 0 <= i < a.scopes.len() && #[trigger] a.scopes[i].refers(id);
        assert(b.scopes[i].refers(id));
    }
    if b.scoped(id) {
        let i = choose|i: int| 0 <= i < b.scopes.len() && #[trigger] b.scopes[i].refers(id);
        assert(a.scopes[i].refers(id));
    }
}

/// A change of the number of handles on an object keeps the invariant, but that
/// the object itself may now be unreferenced.
pub proof fn lemma_handles_wf(state: GlView, id: u64, handles: u64, exempt: Set<u64>)
    requires
        state.wf_except(exempt),
        state.live(id),
    ensures
        state.with_handles(id, handles).wf_except(exempt.insert(id)),
        handles > 0 ==> state.with_handles(id, handles).wf_except(exempt),
{
    let after = state.with_handles(id, handles);
    assert forall|x: u64| after.pinned(x) == state.pinned(x) by {
        lemma_pinned_same_attachments(state, after, x);
    }
    assert forall|x: u64| #[trigger] after.pinned(x) implies after.live(x) by {
        assert(state.pinned(x));
    }
    assert forall|owner: u64, x: u64|
        after.objects.dom().contains(owner) && #[trigger] after.objects[owner].body.attaches(
            x,
        ) implies after.live(x) && !(after.objects[x].body is FrameBuffer) by {
        assert(state.objects.dom().contains(owner));
        assert(state.objects[owner].body.attaches(x));
    }
    assert forall|x: u64| #[trigger]
        after.objects.dom().contains(x) && !exempt.insert(id).contains(x) implies after.objects[x].handles
        > 0 || after.pinned(x) by {
        assert(state.objects.dom().contains(x));
    }
    assert forall|x: u64| #[trigger]
        releases(after.issued, x) == if x < after.next && !after.live(x) {
            1nat
        } else {
            0nat
        } by {
        assert(releases(state.issued, x) == if x < state.next && !state.live(x) {
            1nat
        } else {
            0nat
        });
    }
    if handles > 0 {
        assert forall|x: u64| #[trigger]
            after.objects.dom().contains(x) && !exempt.contains(x) implies after.objects[x].handles
            > 0 || after.pinned(x) by {
            assert(state.objects.dom().contains(x));
        }
    }
}

/// New metadata with the same attachments keeps the invariant.
pub proof fn lemma_body_wf(state: GlView, id: u64, body: Body)
    requires
        state.wf(),
        state.live(id),
        forall|x: u64| body.attaches(x) == state.objects[id].body.attaches(x),
        (body is FrameBuffer) == (state.objects[id].body is FrameBuffer),
    ensures
        state.with_body(id, body).wf(),
{
    let after = state.with_body(id, body);
    assert forall|x: u64| after.pinned(x) == state.pinned(x) by {
        lemma_pinned_same_attachments(state, after, x);
    }
    assert forall|x: u64| #[trigger] after.pinned(x) implies after.live(x) by {
        assert(state.pinned(x));
    }
    assert forall|owner: u64, x: u64|
        after.objects.dom().contains(owner) && #[trigger] after.objects[owner].body.attaches(
            x,
        ) implies after.live(x) && !(after.objects[x].body is FrameBuffer) by {
        assert(state.objects.dom().contains(owner));
        assert(state.objects[owner].body.attaches(x));
    }
    assert forall|x: u64| #[trigger] after.objects.dom().contains(x) implies after.objects[x].handles
        > 0 || after.pinned(x) by {
        assert(state.objects.dom().contains(x));
    }
    assert forall|x: u64| #[trigger]
        releases(after.issued, x) == if x < after.next && !after.live(x) {
            1nat
        } else {
            0nat
        } by {
        assert(releases(state.issued, x) == if x < state.next && !state.live(x) {
            1nat
        } else {
            0nat
        });
    }
}

/// Calls that release nothing leave the count of releases as it was.
pub proof fn lemma_releases_plain(issued: Seq<Record>, calls: Seq<DeviceCall>, id: u64)
    requires
        forall|k: int| 0 <= k < calls.len() ==> (#[trigger] calls[k]).released() is None,
    ensures
        releases(issued + plain_all(calls), id) == releases(issued, id),
    decreases calls.len(),
{
    if calls.len() == 0 {
        assert(issued + plain_all(calls) =~= issued);
    } else {
        let rest = calls.drop_last();
        assert forall|k: int| 0 <= k < rest.len() implies (#[trigger] rest[k]).released() is None by {
            assert(rest[k] == calls[k]);
        }
        lemma_releases_plain(issued, rest, id);
        assert(issued + plain_all(calls) =~= (issued + plain_all(rest)).push(plain(calls.last())));
        lemma_releases_push(issued + plain_all(rest), plain(calls.last()), id);
        assert(calls[calls.len() - 1].released() is None);
    }
}

/// Opening a scope on objects that exist keeps the invariant.
pub proof fn lemma_entered_wf(state: GlView, setting: SettingView)
    requires
        state.wf(),
        setting.valid(),
        forall|id: u64| setting.refers(id) ==> state.live(id),
    ensures
        state.entered(setting).wf(),
{
    let after = state.entered(setting);
    let calls = state.cache.calls(setting, false);
    let undo = state.cache.undo(setting);
    lemma_shifted_valid(state.cache, setting);
    lemma_undo_restores(state.cache, setting);
    assert forall|i: int| 0 <= i < after.scopes.len() implies #[trigger] after.scopes[i].valid() by {
        if i < state.scopes.len() {
            assert(state.scopes[i].valid());
        }
    }
    assert forall|x: u64| #[trigger] after.pinned(x) implies after.live(x) by {
        lemma_shift_refers(state.cache, setting, x);
        if after.scoped(x) {
            let i = choose|i: int| 0 <= i < after.scopes.len() && #[trigger] after.scopes[i].refers(x);
            if i < state.scopes.len() {
                assert(state.scopes[i].refers(x));
            }
        }
        if after.attached(x) {
            let owner = choose|owner: u64| #[trigger]
                after.objects.dom().contains(owner) && after.objects[owner].body.attaches(x);
            assert(state.attached(x));
        }
        assert(state.pinned(x) || setting.refers(x));
    }
    assert forall|x: u64| #[trigger] after.objects.dom().contains(x) implies after.objects[x].handles
        > 0 || after.pinned(x) by {
        if state.objects[x].handles == 0 {
            assert(state.pinned(x));
            lemma_shift_refers(state.cache, setting, x);
            if state.cache.refers(x) && !after.cache.refers(x) {
                assert(after.scopes[after.scopes.len() - 1].refers(x));
            }
            if state.scoped(x) {
                let i = choose|i: int|
                    0 <= i < state.scopes.len() && #[trigger] state.scopes[i].refers(x);
                assert(after.scopes[i].refers(x));
            }
            if state.attached(x) {
                let owner = choose|owner: u64| #[trigger]
                    state.objects.dom().contains(owner) && state.objects[owner].body.attaches(x);
                assert(after.objects.dom().contains(owner));
            }
        }
    }
    assert forall|x: u64| #[trigger]
        releases(after.issued, x) == if x < after.next && !after.live(x) {
            1nat
        } else {
            0nat
        } by {
        assert forall|k: int| 0 <= k < calls.len() implies (#[trigger] calls[k]).released()
            is None by {
            lemma_calls_release_nothing(state.cache, setting, false, k);
        }
        lemma_releases_plain(state.issued, calls, x);
    }
}

/// Undoing the innermost scope keeps the invariant, but that the objects which
/// the scope gives up may now be unreferenced.
pub proof fn lemma_restored_wf(state: GlView)
    requires
        state.wf(),
        state.scopes.len() > 0,
    ensures
        state.restored().wf_except(Set::new(|id: u64| state.displaced().refers(id))),
{
    let after = state.restored();
    let top = state.scopes.last();
    let calls = state.cache.calls(top, true);
    let displaced = state.displaced();
    let exempt = Set::new(|id: u64| displaced.refers(id));
    assert(state.scopes[state.scopes.len() - 1].valid());
    lemma_shifted_valid(state.cache, top);
    assert forall|i: int| 0 <= i < after.scopes.len() implies #[trigger] after.scopes[i].valid() by {
        assert(state.scopes[i].valid());
    }
    assert forall|x: u64| #[trigger] after.pinned(x) implies after.live(x) by {
        lemma_shift_refers(state.cache, top, x);
        if after.cache.refers(x) && !state.cache.refers(x) {
            assert(state.scopes[state.scopes.len() - 1].refers(x));
        }
        if after.scoped(x) {
            let i = choose|i: int| 0 <= i < after.scopes.len() && #[trigger] after.scopes[i].refers(x);
            assert(state.scopes[i].refers(x));
        }
        if after.attached(x) {
            let owner = choose|owner: u64| #[trigger]
                after.objects.dom().contains(owner) && after.objects[owner].body.attaches(x);
            assert(state.attached(x));
        }
        assert(state.pinned(x));
    }
    assert forall|x: u64| #[trigger]
        after.objects.dom().contains(x) && !exempt.contains(x) implies after.objects[x].handles > 0
        || after.pinned(x) by {
        if state.objects[x].handles == 0 {
            assert(state.pinned(x));
            lemma_shift_refers(state.cache, top, x);
            if state.scoped(x) {
                let i = choose|i: int|
                    0 <= i < state.scopes.len() && #[trigger] state.scopes[i].refers(x);
                if i < after.scopes.len() {
                    assert(after.scopes[i].refers(x));
                }
            }
            if state.attached(x) {
                let owner = choose|owner: u64| #[trigger]
                    state.objects.dom().contains(owner) && state.objects[owner].body.attaches(x);
                assert(after.objects.dom().contains(owner));
            }
        }
    }
    assert forall|x: u64| #[trigger]
        releases(after.issued, x) == if x < after.next && !after.live(x) {
            1nat
        } else {
            0nat
        } by {
        assert forall|k: int| 0 <= k < calls.len() implies (#[trigger] calls[k]).released()
            is None by {
            lemma_calls_release_nothing(state.cache, top, true, k);
        }
        lemma_releases_plain(state.issued, calls, x);
    }
}

/// Whether every setting can be applied.
pub open spec fn all_valid(settings: Seq<SettingView>) -> bool {
    forall|i: int| 0 <= i < settings.len() ==> (#[trigger] settings[i]).valid()
}

/// Whether none of the calls releases a device object.
pub open spec fn release_nothing(records: Seq<Record>) -> bool {
    forall|k: int| 0 <= k < records.len() ==> (#[trigger] records[k]).call.released() is None
}

/// A command with the call and the data of `command`.
fn copy_command(command: &Command) -> (copy: Command)
    ensures
        copy@ == command@,
{
    let mut words: Vec<u32> = Vec::new();
    let mut i: usize = 0;
    while i < command.words.len()
        invariant
            i <= command.words.len(),
            words@ == command.words@.take(i as int),
        decreases command.words.len() - i,
    {
        words.push(command.words[i]);
        proof {
            assert(command.words@.take(i + 1) =~= command.words@.take(i as int).push(
                command.words@[i as int],
            ));
        }
        i += 1;
    }
    let mut bytes: Vec<u8> = Vec::new();
    let mut j: usize = 0;
    while j < command.bytes.len()
        invariant
            j <= command.bytes.len(),
            bytes@ == command.bytes@.take(j as int),
        decreases command.bytes.len() - j,
    {
        bytes.push(command.bytes[j]);
        proof {
            assert(command.bytes@.take(j + 1) =~= command.bytes@.take(j as int).push(
                command.bytes@[j as int],
            ));
        }
        j += 1;
    }
    proof {
        assert(command.words@.take(command.words.len() as int) =~= command.words@);
        assert(command.bytes@.take(command.bytes.len() as int) =~= command.bytes@);
    }
    Command { call: command.call, words, bytes }
}

/// Calls that release nothing keep the invariant.
pub proof fn lemma_emitted_all_wf(state: GlView, records: Seq<Record>)
    requires
        state.wf(),
        release_nothing(records),
    ensures
        state.emitted_all(records).wf(),
    decreases records.len(),
{
    if records.len() == 0 {
        assert(state.emitted_all(records) =~= state);
    } else {
        let rest = records.drop_last();
        assert forall|k: int| 0 <= k < rest.len() implies (#[trigger] rest[k]).call.released()
            is None by {
            assert(rest[k] == records[k]);
        }
        lemma_emitted_all_wf(state, rest);
        assert(records[records.len() - 1].call.released() is None);
        lemma_emitted_wf(state.emitted_all(rest), records.last(), Set::empty());
        assert(rest.push(records.last()) =~= records);
        assert(state.issued + rest.push(records.last()) =~= (state.issued + rest).push(
            records.last(),
        ));
        assert(state.pending + rest.push(records.last()) =~= (state.pending + rest).push(
            records.last(),
        ));
    }
}

/// In a state whose every object is held or needed, letting go of what a
/// setting names changes nothing.
pub proof fn lemma_collected_nothing(state: GlView, displaced: SettingView)
    requires
        state.wf(),
    ensures
        state.collected_setting(displaced) == state,
{
    assert forall|id: u64| !state.garbage(id) by {
        if state.live(id) {
            assert(state.objects.dom().contains(id));
        }
    }
    if let SettingView::TextureList(textures) = displaced {
        lemma_collected_list_nothing(state, textures, textures.len());
    }
}

proof fn lemma_collected_list_nothing(state: GlView, ids: Seq<Option<u64>>, count: nat)
    requires
        forall|id: u64| !state.garbage(id),
    ensures
        state.collected_list(ids, count) == state,
    decreases count,
{
    if count > 0 {
        lemma_collected_list_nothing(state, ids, (count - 1) as nat);
    }
}

/// A scope around calls that release nothing ends in the state in which it
/// began, but for the calls made: those that made the setting current, the
/// calls inside, and those that undid the setting.
pub proof fn lemma_scope_round_trip(state: GlView, setting: SettingView, inner: Seq<Record>)
    requires
        state.wf(),
        setting.valid(),
        forall|id: u64| setting.refers(id) ==> state.live(id),
        release_nothing(inner),
    ensures
        state.entered(setting).emitted_all(inner).left() == state.emitted_all(
            plain_all(state.cache.calls(setting, false)) + inner + plain_all(
                state.cache.shifted(setting).calls(state.cache.undo(setting), true),
            ),
        ),
{
    let undo = state.cache.undo(setting);
    let inside = state.entered(setting).emitted_all(inner);
    let back = plain_all(state.cache.shifted(setting).calls(undo, true));
    let target = state.emitted_all(plain_all(state.cache.calls(setting, false)) + inner + back);
    lemma_undo_restores(state.cache, setting);
    assert(inside.scopes.last() == undo);
    assert(inside.scopes.drop_last() =~= state.scopes);
    let restored = inside.restored();
    assert(restored.issued =~= target.issued);
    assert(restored.pending =~= target.pending);
    assert(restored == target);
    assert forall|k: int| 0 <= k < plain_all(state.cache.calls(setting, false)).len() implies (
    #[trigger] plain_all(state.cache.calls(setting, false))[k]).call.released() is None by {
        lemma_calls_release_nothing(state.cache, setting, false, k);
    }
    assert forall|k: int| 0 <= k < back.len() implies (#[trigger] back[k]).call.released()
        is None by {
        lemma_calls_release_nothing(state.cache.shifted(setting), undo, true, k);
    }
    lemma_emitted_all_wf(
        state,
        plain_all(state.cache.calls(setting, false)) + inner + back,
    );
    lemma_collected_nothing(target, inside.displaced());
}

/// Entering scopes adds one scope for each setting and leaves the objects as
/// they are.
pub proof fn lemma_scopes_entered(state: GlView, settings: Seq<SettingView>)
    ensures
        state.entered_all(settings).scopes.len() == state.scopes.len() + settings.len(),
        state.entered_all(settings).objects == state.objects,
        state.entered_all(settings).next == state.next,
        state.entered_all(settings).cache == shifted_all(state.cache, settings),
    decreases settings.len(),
{
    if settings.len() > 0 {
        lemma_scopes_entered(state, settings.drop_last());
    }
}

/// Entering scopes on objects that exist keeps the invariant.
pub proof fn lemma_entered_all_wf(state: GlView, settings: Seq<SettingView>)
    requires
        state.wf(),
        all_valid(settings),
        state.has_all(settings),
    ensures
        state.entered_all(settings).wf(),
    decreases settings.len(),
{
    if settings.len() > 0 {
        let outer = settings.drop_last();
        assert forall|i: int| 0 <= i < outer.len() implies (#[trigger] outer[i]).valid() by {
            assert(outer[i] == settings[i]);
        }
        assert forall|i: int, id: u64|
            0 <= i < outer.len() && (#[trigger] outer[i].refers(id)) implies state.live(id) by {
            assert(settings[i].refers(id));
        }
        lemma_entered_all_wf(state, outer);
        lemma_scopes_entered(state, outer);
        assert(settings[settings.len() - 1].valid());
        assert forall|id: u64| settings.last().refers(id) implies state.entered_all(outer).live(
            id,
        ) by {
            assert(settings[settings.len() - 1].refers(id));
        }
        lemma_entered_wf(state.entered_all(outer), settings.last());
    }
}

/// Scopes around calls that release nothing end in the state in which they
/// began, but for the calls made.
pub proof fn lemma_round_trip(state: GlView, settings: Seq<SettingView>, inner: Seq<Record>)
    requires
        state.wf(),
        all_valid(settings),
        state.has_all(settings),
        release_nothing(inner),
    ensures
        state.entered_all(settings).emitted_all(inner).left_all(settings.len()) == state.emitted_all(
            round_trip(state.cache, settings, inner),
        ),
        release_nothing(round_trip(state.cache, settings, inner)),
    decreases settings.len(),
{
    if settings.len() == 0 {
    } else {
        let outer = settings.drop_last();
        let last = settings.last();
        let base = state.entered_all(outer);
        assert forall|i: int| 0 <= i < outer.len() implies (#[trigger] outer[i]).valid() by {
            assert(outer[i] == settings[i]);
        }
        assert forall|i: int, id: u64|
            0 <= i < outer.len() && (#[trigger] outer[i].refers(id)) implies state.live(id) by {
            assert(settings[i].refers(id));
        }
        lemma_entered_all_wf(state, outer);
        lemma_scopes_entered(state, outer);
        assert(settings[settings.len() - 1].valid());
        assert forall|id: u64| last.refers(id) implies base.live(id) by {
            assert(settings[settings.len() - 1].refers(id));
        }
        lemma_scope_round_trip(base, last, inner);
        let enter = plain_all(base.cache.calls(last, false));
        let back = plain_all(base.cache.shifted(last).calls(base.cache.undo(last), true));
        let around = enter + inner + back;
        assert forall|k: int| 0 <= k < around.len() implies (#[trigger] around[k]).call.released()
            is None by {
            if k < enter.len() {
                lemma_calls_release_nothing(base.cache, last, false, k);
            } else if k < enter.len() + inner.len() {
                assert(around[k] == inner[k - enter.len()]);
            } else {
                lemma_calls_release_nothing(
                    base.cache.shifted(last),
                    base.cache.undo(last),
                    true,
                    k - enter.len() - inner.len(),
                );
            }
        }
        lemma_round_trip(state, outer, around);
    }
}

/// Letting go of objects leaves the cache and the scopes alone.
pub proof fn lemma_collected_frame(state: GlView, displaced: SettingView)
    ensures
        state.collected_setting(displaced).cache == state.cache,
        state.collected_setting(displaced).scopes == state.scopes,
        state.collected_setting(displaced).next == state.next,
{
    if let SettingView::TextureList(textures) = displaced {
        lemma_collected_list_frame(state, textures, textures.len());
    }
}

proof fn lemma_collected_list_frame(state: GlView, ids: Seq<Option<u64>>, count: nat)
    ensures
        state.collected_list(ids, count).cache == state.cache,
        state.collected_list(ids, count).scopes == state.scopes,
        state.collected_list(ids, count).next == state.next,
    decreases count,
{
    if count > 0 {
        lemma_collected_list_frame(state, ids, (count - 1) as nat);
    }
}

/// The end of a scope takes the scope off and undoes its setting in the cache.
pub proof fn lemma_left_frame(state: GlView)
    ensures
        state.left().scopes == state.scopes.drop_last(),
        state.left().cache == state.cache.shifted(state.scopes.last()),
        state.left().next == state.next,
{
    lemma_collected_frame(state.restored(), state.displaced());
}

/// New attachments that exist keep the invariant, but that the former
/// attachments may now be unreferenced.
pub proof fn lemma_attached_wf(
    state: GlView,
    id: u64,
    color_buffer: Option<u64>,
    depth_buffer: Option<u64>,
)
    requires
        state.wf(),
        state.live(id),
        state.objects[id].body is FrameBuffer,
        color_buffer matches Some(x) ==> state.live(x) && !(state.objects[x].body is FrameBuffer),
        depth_buffer matches Some(x) ==> state.live(x) && !(state.objects[x].body is FrameBuffer),
    ensures
        state.with_body(id, Body::FrameBuffer { color_buffer, depth_buffer }).wf_except(
            Set::new(|x: u64| state.objects[id].body.attaches(x)),
        ),
{
    let body = Body::FrameBuffer { color_buffer, depth_buffer };
    let after = state.with_body(id, body);
    let exempt = Set::new(|x: u64| state.objects[id].body.attaches(x));
    assert forall|x: u64| #[trigger] after.pinned(x) implies after.live(x) by {
        if after.scoped(x) {
            let i = choose|i: int| 0 <= i < after.scopes.len() && #[trigger] after.scopes[i].refers(x);
            assert(state.scopes[i].refers(x));
        }
        if after.attached(x) {
            let owner = choose|owner: u64| #[trigger]
                after.objects.dom().contains(owner) && after.objects[owner].body.attaches(x);
            if owner != id {
                assert(state.objects.dom().contains(owner));
                assert(state.objects[owner].body.attaches(x));
            }
        } else {
            assert(state.pinned(x));
        }
    }
    assert forall|owner: u64, x: u64|
        after.objects.dom().contains(owner) && #[trigger] after.objects[owner].body.attaches(
            x,
        ) implies after.live(x) && !(after.objects[x].body is FrameBuffer) by {
        if owner != id {
            assert(state.objects.dom().contains(owner));
            assert(state.objects[owner].body.attaches(x));
        }
    }
    assert forall|x: u64| #[trigger]
        after.objects.dom().contains(x) && !exempt.contains(x) implies after.objects[x].handles > 0
        || after.pinned(x) by {
        assert(state.objects.dom().contains(x));
        if state.objects[x].handles == 0 {
            assert(state.pinned(x));
            if state.scoped(x) {
                let i = choose|i: int|
                    0 <= i < state.scopes.len() && #[trigger] state.scopes[i].refers(x);
                assert(after.scopes[i].refers(x));
            }
            if state.attached(x) {
                let owner = choose|owner: u64| #[trigger]
                    state.objects.dom().contains(owner) && state.objects[owner].body.attaches(x);
                if owner != id {
                    assert(after.objects.dom().contains(owner));
                    assert(after.objects[owner].body.attaches(x));
                }
            }
        }
    }
    assert forall|x: u64| #[trigger]
        releases(after.issued, x) == if x < after.next && !after.live(x) {
            1nat
        } else {
            0nat
        } by {
        assert(releases(state.issued, x) == if x < state.next && !state.live(x) {
            1nat
        } else {
            0nat
        });
    }
}

/// An object on which a caller holds a handle outlives the letting go of any
/// other, unchanged.
pub proof fn lemma_collected_keeps(state: GlView, id: Option<u64>, kept: u64)
    requires
        state.live(kept),
        state.objects[kept].handles > 0,
    ensures
        state.collected(id).live(kept),
        state.collected(id).objects[kept] == state.objects[kept],
        state.collected(id).cache == state.cache,
        state.collected(id).scopes == state.scopes,
        state.collected(id).next == state.next,
{
}

/// Giving up a handle leaves every other object on which a caller holds a
/// handle as it is, and the one given up too while handles on it are left.
pub proof fn lemma_released_keeps(state: GlView, id: u64, kept: u64)
    requires
        state.live(id),
        state.objects[id].handles > 0,
        state.live(kept),
        state.objects[kept].handles > 0,
        kept != id || state.objects[id].handles > 1,
    ensures
        state.released(id).live(kept),
        kept != id ==> state.released(id).objects[kept] == state.objects[kept],
        kept == id ==> state.released(id).objects[kept] == (Object {
            handles: (state.objects[id].handles - 1) as u64,
            ..state.objects[id]
        }),
        state.released(id).cache == state.cache,
        state.released(id).scopes == state.scopes,
        state.released(id).next == state.next,
{
    let lowered = state.with_handles(id, (state.objects[id].handles - 1) as u64);
    lemma_collected_keeps(lowered, Some(id), kept);
}

/// New attachments leave every object on which a caller holds a handle as it
/// is, but for the attachments of the frame buffer itself.
pub proof fn lemma_attached_keeps(
    state: GlView,
    id: u64,
    color_buffer: Option<u64>,
    depth_buffer: Option<u64>,
    kept: u64,
)
    requires
        state.live(id),
        state.live(kept),
        state.objects[kept].handles > 0,
    ensures
        state.attached_to(id, color_buffer, depth_buffer).live(kept),
        kept != id ==> state.attached_to(id, color_buffer, depth_buffer).objects[kept]
            == state.objects[kept],
        kept == id ==> state.attached_to(id, color_buffer, depth_buffer).objects[kept] == (Object {
            body: Body::FrameBuffer { color_buffer, depth_buffer },
            ..state.objects[id]
        }),
        state.attached_to(id, color_buffer, depth_buffer).cache == state.cache,
        state.attached_to(id, color_buffer, depth_buffer).scopes == state.scopes,
        state.attached_to(id, color_buffer, depth_buffer).next == state.next,
{
    let body = Body::FrameBuffer { color_buffer, depth_buffer };
    let changed = state.with_body(id, body);
    let former_color = state.objects[id].body->FrameBuffer_color_buffer;
    let former_depth = state.objects[id].body->FrameBuffer_depth_buffer;
    lemma_collected_keeps(changed, former_color, kept);
    lemma_collected_keeps(changed.collected(former_color), former_depth, kept);
}

/// One more scope on an object that exists keeps the invariant.
pub proof fn lemma_scope_pushed_wf(state: GlView, frame: SettingView)
    requires
        state.wf(),
        frame.valid(),
        forall|id: u64| frame.refers(id) ==> state.live(id),
    ensures
        (GlView { scopes: state.scopes.push(frame), ..state }).wf(),
{
    let after = GlView { scopes: state.scopes.push(frame), ..state };
    assert forall|i: int| 0 <= i < after.scopes.len() implies #[trigger] after.scopes[i].valid() by {
        if i < state.scopes.len() {
            assert(state.scopes[i].valid());
        }
    }
    assert forall|x: u64| #[trigger] after.pinned(x) implies after.live(x) by {
        if after.scoped(x) {
            let i = choose|i: int| 0 <= i < after.scopes.len() && #[trigger] after.scopes[i].refers(x);
            if i < state.scopes.len() {
                assert(state.scopes[i].refers(x));
            }
        }
        if after.attached(x) {
            let owner = choose|owner: u64| #[trigger]
                after.objects.dom().contains(owner) && after.objects[owner].body.attaches(x);
            assert(state.attached(x));
        }
        assert(state.pinned(x) || frame.refers(x));
    }
    assert forall|x: u64| #[trigger] after.objects.dom().contains(x) implies after.objects[x].handles
        > 0 || after.pinned(x) by {
        if state.objects[x].handles == 0 {
            assert(state.pinned(x));
            if state.scoped(x) {
                let i = choose|i: int|
                    0 <= i < state.scopes.len() && #[trigger] state.scopes[i].refers(x);
                assert(after.scopes[i].refers(x));
            }
            if state.attached(x) {
                let owner = choose|owner: u64| #[trigger]
                    state.objects.dom().contains(owner) && state.objects[owner].body.attaches(x);
                assert(after.objects.dom().contains(owner));
            }
        }
    }
    assert forall|x: u64| #[trigger]
        releases(after.issued, x) == if x < after.next && !after.live(x) {
            1nat
        } else {
            0nat
        } by {
        assert(releases(state.issued, x) == if x < state.next && !state.live(x) {
            1nat
        } else {
            0nat
        });
    }
}

/// A change of filter leaves the cache, the scopes and the set of objects as
/// they are.
pub proof fn lemma_filtered_frame(state: GlView, id: u64, filter: TextureFilter)
    requires
        state.live(id),
        state.objects[id].body is Texture,
    ensures
        Texture::filtered(state, id, filter).cache == state.cache,
        Texture::filtered(state, id, filter).scopes == state.scopes,
        Texture::filtered(state, id, filter).next == state.next,
        Texture::filtered(state, id, filter).same_objects(state),
{
}

/// A change of filter on any object leaves the cache and the scopes as they
/// are.
pub proof fn lemma_refiltered_frame(state: GlView, id: u64, filter: TextureFilter)
    ensures
        state.refiltered(id, filter).cache == state.cache,
        state.refiltered(id, filter).scopes == state.scopes,
{
}

/// The end of a scope, whatever its setting, takes the scope off and undoes its
/// setting in the cache.
pub proof fn lemma_closed_frame(state: GlView)
    ensures
        state.closed().scopes == state.scopes.drop_last(),
        state.closed().cache == state.cache.shifted(state.scopes.last()),
{
    match state.scopes.last() {
        SettingView::TextureFilter(value) => {
            lemma_refiltered_frame(state, value.texture, value.filter);
            lemma_left_frame(state.refiltered(value.texture, value.filter));
        },
        _ => {
            lemma_left_frame(state);
        },
    }
}

/// A new scope, whatever its setting, holds the setting's value in the cache
/// and remembers what undoes it.
pub proof fn lemma_opened_frame(state: GlView, setting: SettingView)
    requires
        state.cache.valid(),
        setting.valid(),
    ensures
        state.opened(setting).cache == state.cache.shifted(setting),
        state.opened(setting).cache.valid(),
        state.opened(setting).scopes.len() == state.scopes.len() + 1,
        state.opened(setting).scopes.drop_last() == state.scopes,
        state.opened(setting).cache.shifted(state.opened(setting).scopes.last()) == state.cache,
{
    lemma_shifted_valid(state.cache, setting);
    lemma_undo_restores(state.cache, setting);
    match setting {
        SettingView::TextureFilter(value) => {
            lemma_refiltered_frame(state, value.texture, value.filter);
            assert(state.opened(setting).scopes.drop_last() =~= state.scopes);
        },
        _ => {
            assert(state.opened(setting).scopes.drop_last() =~= state.scopes);
        },
    }
}

/// New scopes on a valid cache leave the cache valid.
pub proof fn lemma_opened_all_valid(state: GlView, settings: Seq<SettingView>)
    requires
        state.cache.valid(),
        all_valid(settings),
    ensures
        state.opened_all(settings).cache.valid(),
        state.opened_all(settings).scopes.len() == state.scopes.len() + settings.len(),
    decreases settings.len(),
{
    if settings.len() > 0 {
        let outer = settings.drop_last();
        assert forall|i: int| 0 <= i < outer.len() implies (#[trigger] outer[i]).valid() by {
            assert(outer[i] == settings[i]);
        }
        lemma_opened_all_valid(state, outer);
        assert(settings[settings.len() - 1].valid());
        lemma_opened_frame(state.opened_all(outer), settings.last());
    }
}

/// Work under settings leaves the cache as it was before the settings were
/// applied, whatever the settings and whatever the work did to the device, as
/// long as the work itself left the cache and the scopes as it found them.
pub proof fn lemma_apply_restores(state: GlView, settings: Seq<SettingView>, inside: GlView)
    requires
        state.cache.valid(),
        all_valid(settings),
        inside.cache == state.opened_all(settings).cache,
        inside.scopes == state.opened_all(settings).scopes,
    ensures
        inside.closed_all(settings.len()).cache == state.cache,
        inside.closed_all(settings.len()).scopes == state.scopes,
    decreases settings.len(),
{
    if settings.len() > 0 {
        let outer = settings.drop_last();
        let last = settings.last();
        let base = state.opened_all(outer);
        assert forall|i: int| 0 <= i < outer.len() implies (#[trigger] outer[i]).valid() by {
            assert(outer[i] == settings[i]);
        }
        assert(settings[settings.len() - 1].valid());
        lemma_opened_all_valid(state, outer);
        lemma_opened_frame(base, last);
        lemma_closed_frame(inside);
        lemma_apply_restores(state, outer, inside.closed());
    }
}

/// A scope for a setting whose value is current already sends nothing to the
/// device, neither when it opens nor when it closes, and leaves the cache as it
/// is: after the scope the state is what it was before.
pub proof fn lemma_held_setting_costs_nothing(state: GlView, setting: SettingView)
    requires
        state.wf(),
        setting.valid(),
        state.fits(setting),
        state.holds(setting),
    ensures
        state.opened(setting).issued == state.issued,
        state.opened(setting).cache == state.cache,
        state.opened(setting).closed() == state,
{
    match setting {
        SettingView::TextureFilter(value) => {
            let frame = SettingView::TextureFilter(
                TextureFilterSetting { texture: value.texture, filter: value.filter },
            );
            let inside = state.opened(setting);
            assert(inside.scopes.last() == frame);
            assert(inside.refiltered(value.texture, value.filter) == inside);
            let restored = inside.restored();
            assert(restored.scopes =~= state.scopes);
            assert(restored.issued =~= state.issued);
            assert(restored.pending =~= state.pending);
            assert(restored == state);
            lemma_collected_nothing(state, inside.displaced());
        },
        _ => {
            lemma_held_setting_is_free(state.cache, setting, false);
            lemma_undo_of_held(state.cache, setting);
            lemma_undo_restores(state.cache, setting);
            lemma_held_setting_is_free(state.cache, state.cache.undo(setting), true);
            lemma_scope_round_trip(state, setting, Seq::empty());
            let inside = state.entered(setting);
            assert(inside.emitted_all(Seq::empty()) =~= inside);
            let none = plain_all(state.cache.calls(setting, false)) + Seq::<Record>::empty()
                + plain_all(state.cache.shifted(setting).calls(state.cache.undo(setting), true));
            assert(none =~= Seq::<Record>::empty());
            assert(state.emitted_all(none) =~= state);
            assert(inside.issued =~= state.issued);
            assert(!(inside.scopes.last() is TextureFilter));
        },
    }
}

/// The device's answer to the request for a rendering context: the request
/// failed with a message, the device gave no context, or it gave one, with or
/// without each of the extensions that the library needs.
#[derive(Clone, Debug, PartialEq, Eq)]
pub enum ContextAnswer {
    Failed(String),
    Missing,
    Found {
        instanced_arrays: bool,
        color_buffer_half_float: bool,
        texture_half_float: bool,
        texture_half_float_linear: bool,
    },
}

/// Why a context is refused, if it is: the request failed, there is no context,
/// or an extension is missing, by the name of the first one that is, in the order
/// in which the library asks for them.
pub open spec fn context_failure(answer: ContextAnswer) -> Option<ErrorView> {
    match answer {
        ContextAnswer::Failed(message) => Some(ErrorView::UnknownError(Some(message@))),
        ContextAnswer::Missing => Some(ErrorView::UnknownError(None)),
        ContextAnswer::Found {
            instanced_arrays,
            color_buffer_half_float,
            texture_half_float,
            texture_half_float_linear,
        } => if !instanced_arrays {
            Some(ErrorView::ExtensionNotFound("ANGLE_instanced_arrays"@))
        } else if !color_buffer_half_float {
            Some(ErrorView::ExtensionNotFound("EXT_color_buffer_half_float"@))
        } else if !texture_half_float {
            Some(ErrorView::ExtensionNotFound("OES_texture_half_float"@))
        } else if !texture_half_float_linear {
            Some(ErrorView::ExtensionNotFound("OES_texture_half_float_linear"@))
        } else {
            None
        },
    }
}

impl Gl {
    /// The error for an extension that the device does not have.
    fn get_extension(found: bool, name: &str) -> (result: Result<(), GlError>)
        ensures
            match result {
                Ok(_) => found,
                Err(error) => !found && error@ == ErrorView::ExtensionNotFound(name@),
            },
    {
        if found {
            Ok(())
        } else {
            Err(GlError::ExtensionNotFound(name.to_owned()))
        }
    }

    /// The library's side of the device whose answer to the request for a
    /// context is `answer`: a state on which nothing has been done, or the reason
    /// to refuse the context.
    pub fn new(answer: &ContextAnswer) -> (result: Result<Gl, GlError>)
        ensures
            match result {
                Ok(gl) => {
                    &&& context_failure(*answer) is None
                    &&& gl.wf()
                    &&& gl@.cache == CacheView::initial()
                    &&& gl@.scopes == Seq::<SettingView>::empty()
                    &&& gl@.objects == Map::<u64, Object>::empty()
                    &&& gl@.next == 0
                    &&& gl@.issued == Seq::<Record>::empty()
                    &&& gl@.pending == Seq::<Record>::empty()
                },
                Err(error) => context_failure(*answer) == Some(error@),
            },
    {
        match answer {
            ContextAnswer::Failed(message) => Err(GlError::UnknownError(Some(message.clone()))),
            ContextAnswer::Missing => Err(GlError::UnknownError(None)),
            ContextAnswer::Found {
                instanced_arrays,
                color_buffer_half_float,
                texture_half_float,
                texture_half_float_linear,
            } => {
                match Self::get_extension(*instanced_arrays, "ANGLE_instanced_arrays") {
                    Err(error) => {
                        return Err(error);
                    },
                    Ok(_) => {},
                }
                match Self::get_extension(*color_buffer_half_float, "EXT_color_buffer_half_float") {
                    Err(error) => {
                        return Err(error);
                    },
                    Ok(_) => {},
                }
                match Self::get_extension(*texture_half_float, "OES_texture_half_float") {
                    Err(error) => {
                        return Err(error);
                    },
                    Ok(_) => {},
                }
                match Self::get_extension(
                    *texture_half_float_linear,
                    "OES_texture_half_float_linear",
                ) {
                    Err(error) => {
                        return Err(error);
                    },
                    Ok(_) => {},
                }
                Ok(Gl::fresh())
            },
        }
    }

    /// Makes a program; see [`Program::new`].
    pub fn program(
        &mut self,
        fragment_shader_source: &str,
        vertex_shader_source: &str,
        report: &LinkReport,
    ) -> (result: Result<Program, GlError>)
        requires
            old(self).wf(),
        ensures
            final(self).wf(),
            match result {
                Ok(program) => {
                    let id = old(self)@.next;
                    &&& id < u64::MAX
                    &&& program.id() == id
                    &&& !old(self)@.live(id)
                    &&& program.held(final(self)@)
                    &&& final(self)@ == old(self)@.created(final(self)@.objects[id].body)
                    &&& program.spec_vertex_source(final(self)@) == vertex_shader_source@
                    &&& program.spec_fragment_source(final(self)@) == fragment_shader_source@
                    &&& link_outcome(fragment_shader_source@, vertex_shader_source@, *report)
                        == Ok::<(Seq<SlotView>, Seq<SlotView>), ErrorView>(
                        (program.spec_attributes(final(self)@), program.spec_uniforms(final(self)@)),
                    )
                },
                Err(error) => {
                    &&& final(self)@ == old(self)@.emitted_all(
                        plain_all(refusal_calls(*report)),
                    )
                    &&& match link_outcome(
                        fragment_shader_source@,
                        vertex_shader_source@,
                        *report,
                    ) {
                        Err(failure) => error@ == failure,
                        Ok(_) => old(self)@.next == u64::MAX && error@
                            == ErrorView::ProgramAllocationError,
                    }
                },
            },
    {
        Program::new(self, fragment_shader_source, vertex_shader_source, report)
    }

    /// Makes a buffer of vertices; see [`ItemsBuffer::new`].
    pub fn items_buffer<T: Item>(&mut self, acquired: bool, items: &[T], usage: BufferUsage) -> (result:
        Result<ItemsBuffer<T>, GlError>)
        requires
            old(self).wf(),
        ensures
            final(self).wf(),
            match result {
                Ok(items_buffer) => {
                    let buffer = items_buffer.buffer();
                    &&& acquired
                    &&& old(self)@.next < u64::MAX
                    &&& buffer.id() == old(self)@.next
                    &&& !old(self)@.live(buffer.id())
                    &&& buffer.held(final(self)@)
                    &&& buffer.spec_len(final(self)@) == items@.len()
                    &&& final(self)@ == buffer.written_to(
                        old(self)@.created(Body::ArrayBuffer { length: 0 }),
                        items@,
                        usage,
                    )
                },
                Err(error) => {
                    &&& !acquired || old(self)@.next == u64::MAX
                    &&& error == GlError::BufferAllocationError
                    &&& final(self)@ == old(self)@
                },
            },
    {
        ItemsBuffer::new(self, acquired, items, usage)
    }

    /// Makes a texture; see [`Texture::new`].
    pub fn texture(
        &mut self,
        acquired: bool,
        width: u32,
        height: u32,
        data_type: TextureType,
        format: TextureFormat,
        data: TextureContent,
    ) -> (result: Result<Texture, GlError>)
        requires
            old(self).wf(),
        ensures
            final(self).wf(),
            match result {
                Ok(texture) => {
                    let id = old(self)@.next;
                    let made = old(self)@.created(
                        Body::Texture {
                            width,
                            height,
                            data_type,
                            format,
                            filter: TextureFilter::Linear,
                        },
                    );
                    &&& acquired
                    &&& id < u64::MAX
                    &&& texture.id() == id
                    &&& !old(self)@.live(id)
                    &&& texture.held(final(self)@)
                    &&& final(self)@.objects == made.objects
                    &&& final(self)@ == Texture::written(
                        Texture::written(made, id, Texture::setup()),
                        id,
                        seq![Texture::filling(id, width, height, data_type, format, data)],
                    )
                },
                Err(error) => {
                    &&& !acquired || old(self)@.next == u64::MAX
                    &&& error == GlError::TextureAllocationError
                    &&& final(self)@ == old(self)@
                },
            },
    {
        Texture::new(self, acquired, width, height, data_type, format, data)
    }

    /// Makes a render buffer for depths; see [`DepthBuffer::new`].
    pub fn depth_buffer(&mut self, acquired: bool, width: u32, height: u32) -> (result: Result<
        DepthBuffer,
        GlError,
    >)
        requires
            old(self).wf(),
        ensures
            final(self).wf(),
            match result {
                Ok(buffer) => {
                    let made = old(self)@.created(Body::DepthBuffer { width, height });
                    &&& acquired
                    &&& old(self)@.next < u64::MAX
                    &&& buffer.id() == old(self)@.next
                    &&& !old(self)@.live(buffer.id())
                    &&& buffer.held(final(self)@)
                    &&& buffer.spec_width(final(self)@) == width
                    &&& buffer.spec_height(final(self)@) == height
                    &&& final(self)@ == made.emitted_all(
                        round_trip(
                            made.cache,
                            seq![DepthBuffer::binding(buffer.id())],
                            seq![
                                plain(
                                    DeviceCall::RenderbufferStorage {
                                        target: RENDERBUFFER,
                                        internal_format: DEPTH_COMPONENT16,
                                        width: as_signed(width),
                                        height: as_signed(height),
                                    },
                                ),
                            ],
                        ),
                    )
                },
                Err(error) => {
                    &&& !acquired || old(self)@.next == u64::MAX
                    &&& error == GlError::DepthBufferError
                    &&& final(self)@ == old(self)@
                },
            },
    {
        DepthBuffer::new(self, acquired, width, height)
    }

    /// Makes a frame buffer without attachments; see [`FrameBuffer::new`].
    pub fn frame_buffer(&mut self, acquired: bool) -> (result: Result<FrameBuffer, GlError>)
        requires
            old(self).wf(),
        ensures
            final(self).wf(),
            match result {
                Ok(buffer) => {
                    &&& acquired
                    &&& old(self)@.next < u64::MAX
                    &&& buffer.id() == old(self)@.next
                    &&& !old(self)@.live(buffer.id())
                    &&& buffer.held(final(self)@)
                    &&& final(self)@ == old(self)@.created(
                        Body::FrameBuffer { color_buffer: None, depth_buffer: None },
                    )
                },
                Err(error) => {
                    &&& !acquired || old(self)@.next == u64::MAX
                    &&& error == GlError::FrameBufferError
                    &&& final(self)@ == old(self)@
                },
            },
    {
        FrameBuffer::new(self, acquired)
    }

    /// Makes a frame buffer with `texture` as its colour buffer.
    pub fn frame_buffer_with_color(&mut self, acquired: bool, texture: &Texture) -> (result: Result<
        FrameBuffer,
        GlError,
    >)
        requires
            old(self).wf(),
            texture.held(old(self)@),
        ensures
            final(self).wf(),
            match result {
                Ok(buffer) => {
                    &&& acquired
                    &&& old(self)@.next < u64::MAX
                    &&& buffer.id() == old(self)@.next
                    &&& !old(self)@.live(buffer.id())
                    &&& final(self)@ == FrameBuffer::with_color(
                        old(self)@.created(
                            Body::FrameBuffer { color_buffer: None, depth_buffer: None },
                        ),
                        buffer.id(),
                        Some(texture.id()),
                    )
                },
                Err(error) => {
                    &&& !acquired || old(self)@.next == u64::MAX
                    &&& error == GlError::FrameBufferError
                    &&& final(self)@ == old(self)@
                },
            },
    {
        let buffer = match FrameBuffer::new(self, acquired) {
            Ok(buffer) => buffer,
            Err(error) => {
                return Err(error);
            },
        };
        buffer.set_color_buffer(self, Some(texture));
        Ok(buffer)
    }

    /// Makes a frame buffer with `texture` as its colour buffer and
    /// `depth_buffer` as its depth buffer.
    pub fn frame_buffer_with_depth(
        &mut self,
        acquired: bool,
        texture: &Texture,
        depth_buffer: &DepthBuffer,
    ) -> (result: Result<FrameBuffer, GlError>)
        requires
            old(self).wf(),
            texture.held(old(self)@),
            depth_buffer.held(old(self)@),
        ensures
            final(self).wf(),
            match result {
                Ok(buffer) => {
                    &&& acquired
                    &&& old(self)@.next < u64::MAX
                    &&& buffer.id() == old(self)@.next
                    &&& !old(self)@.live(buffer.id())
                    &&& final(self)@ == FrameBuffer::with_depth(
                        FrameBuffer::with_color(
                            old(self)@.created(
                                Body::FrameBuffer { color_buffer: None, depth_buffer: None },
                            ),
                            buffer.id(),
                            Some(texture.id()),
                        ),
                        buffer.id(),
                        Some(depth_buffer.id()),
                    )
                },
                Err(error) => {
                    &&& !acquired || old(self)@.next == u64::MAX
                    &&& error == GlError::FrameBufferError
                    &&& final(self)@ == old(self)@
                },
            },
    {
        let buffer = match FrameBuffer::new(self, acquired) {
            Ok(buffer) => buffer,
            Err(error) => {
                return Err(error);
            },
        };
        let ghost made = self@;
        buffer.set_color_buffer(self, Some(texture));
        proof {
            let bound = made.emitted_all(
                round_trip(
                    made.cache,
                    seq![FrameBuffer::binding(buffer.id())],
                    seq![plain(FrameBuffer::color_call(Some(texture.id())))],
                ),
            );
            assert(bound.objects[buffer.id()].body == (Body::FrameBuffer {
                color_buffer: None,
                depth_buffer: None,
            }));
            lemma_attached_keeps(bound, buffer.id(), Some(texture.id()), None, buffer.id());
            lemma_attached_keeps(bound, buffer.id(), Some(texture.id()), None, depth_buffer.id());
        }
        buffer.set_depth_buffer(self, Some(depth_buffer));
        Ok(buffer)
    }

    /// Has the device clear the colour buffer.
    pub fn clear_color_buffer(&mut self)
        requires
            old(self).wf(),
        ensures
            final(self).wf(),
            final(self)@ == old(self)@.emitted(plain(DeviceCall::Clear { mask: COLOR_BUFFER_BIT })),
    {
        self.emit(Command::plain(DeviceCall::Clear { mask: COLOR_BUFFER_BIT }));
    }

    /// Has the device clear the depth buffer.
    pub fn clear_depth_buffer(&mut self)
        requires
            old(self).wf(),
        ensures
            final(self).wf(),
            final(self)@ == old(self)@.emitted(plain(DeviceCall::Clear { mask: DEPTH_BUFFER_BIT })),
    {
        self.emit(Command::plain(DeviceCall::Clear { mask: DEPTH_BUFFER_BIT }));
    }

    /// Has the device clear the colour buffer and the depth buffer.
    pub fn clear_buffers(&mut self)
        requires
            old(self).wf(),
        ensures
            final(self).wf(),
            final(self)@ == old(self)@.emitted(
                plain(DeviceCall::Clear { mask: COLOR_BUFFER_BIT | DEPTH_BUFFER_BIT }),
            ),
    {
        self.emit(Command::plain(DeviceCall::Clear { mask: COLOR_BUFFER_BIT | DEPTH_BUFFER_BIT }));
    }
}

/// Every object that exists has an identifier below the next one: a new object
/// is no object that exists, and two objects made one after the other are two.
pub proof fn lemma_new_object_is_new(state: GlView, body: Body, other: u64)
    requires
        state.wf(),
        state.next < u64::MAX,
        state.live(other),
    ensures
        other != state.next,
        state.created(body).live(state.next),
        state.created(body).live(other),
        state.created(body).next != state.next,
{
    assert(state.objects.dom().contains(other));
}

/// The device was asked to release exactly the objects that no longer exist,
/// each exactly once, and never one that exists or is yet to be made.
pub proof fn lemma_single_release(state: GlView, id: u64)
    requires
        state.wf(),
    ensures
        releases(state.issued, id) == if id < state.next && !state.live(id) {
            1nat
        } else {
            0nat
        },
{
}

/// Giving up one of several handles on an object sends nothing to the device:
/// the object stays, with one handle less.
pub proof fn lemma_release_of_shared(state: GlView, id: u64)
    requires
        state.live(id),
        state.objects[id].handles > 1,
    ensures
        state.released(id) == state.with_handles(id, (state.objects[id].handles - 1) as u64),
        state.released(id).issued == state.issued,
        state.released(id).live(id),
{
}

/// Giving up the last handle on an object that the library does not need has
/// the device release the object, with one call, and the object is gone.
pub proof fn lemma_release_of_last(state: GlView, id: u64)
    requires
        state.wf(),
        state.live(id),
        state.objects[id].handles == 1,
        !state.pinned(id),
        !(state.objects[id].body is FrameBuffer),
    ensures
        state.released(id).issued == state.issued.push(
            plain(state.objects[id].body.spec_release_call(id)),
        ),
        !state.released(id).live(id),
        state.released(id).objects == state.objects.remove(id),
{
    let lowered = state.with_handles(id, 0);
    assert forall|x: u64| lowered.pinned(x) == state.pinned(x) by {
        lemma_pinned_same_attachments(state, lowered, x);
    }
    assert(lowered.garbage(id));
    assert(state.released(id).objects =~= state.objects.remove(id));
}

/// Giving up the last handle on an object that the library still needs, because
/// it is bound, awaited by a scope or attached, sends nothing to the device: the
/// object stays until the library needs it no longer.
pub proof fn lemma_release_of_needed(state: GlView, id: u64)
    requires
        state.live(id),
        state.objects[id].handles == 1,
        state.pinned(id),
    ensures
        state.released(id) == state.with_handles(id, 0),
        state.released(id).issued == state.issued,
        state.released(id).live(id),
{
    let lowered = state.with_handles(id, 0);
    lemma_pinned_same_attachments(state, lowered, id);
}

} // verus!
