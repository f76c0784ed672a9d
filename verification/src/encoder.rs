//! Pass and encoder lifecycle: the recording state machine, the command
//! buffer pool, and the translation of pass descriptors into native
//! commands.
//!
//! Native command buffers are modeled explicitly: each one carries the
//! ordered sequence of commands recorded into it, and commands execute in
//! exactly that order.  The backend that realises compiled render passes and
//! framebuffers is driven through the opaque object ids handed out by the
//! per-device caches.

use vstd::prelude::*;
use crate::cache::{
    AttachmentKey, AttachmentOps, FramebufferCache, FramebufferKey, Layout, RenderPassCache,
    RenderPassKey, StencilOps,
};
use crate::format::{ClearValue, Color, Extent, LoadOp, Rect, StoreOp, TextureFormat};
use crate::track::{
    merge_transitions, ResourceUsage, StateTransition, Stitch, Tracker, TrackerSet,
};
use std::collections::HashMap;

verus! {

/// Binds a command buffer to a swap-chain image's epoch and index at the
/// moment of first use; validated again at submission time.
#[derive(Copy, Clone, Debug, PartialEq, Eq, Structural)]
pub struct SwapChainLink {
    pub swap_chain_id: u64,
    pub epoch: u64,
    pub image_index: u32,
}

/// Everything the encoder reads about one attachment view: its extent,
/// format, sample count, backing texture, and its swap-chain binding when
/// the swap chain owns it.
#[derive(Copy, Clone, Debug, PartialEq, Eq, Structural)]
pub struct TextureViewInfo {
    pub id: u64,
    pub texture_id: u64,
    pub format: TextureFormat,
    pub samples: u8,
    pub extent: Extent,
    pub swap_chain_link: Option<SwapChainLink>,
}

/// The id-to-view mapping the resource registry exposes to the encoder.
pub struct TextureViewRegistry {
    views: HashMap<u64, TextureViewInfo>,
}

impl View for TextureViewRegistry {
    type V = Map<u64, TextureViewInfo>;

    closed spec fn view(&self) -> Map<u64, TextureViewInfo> {
        self.views@
    }
}

impl TextureViewRegistry {
    /// An empty registry.
    pub fn new() -> (r: TextureViewRegistry)
        ensures
            r@ == Map::<u64, TextureViewInfo>::empty(),
    {
        TextureViewRegistry { views: HashMap::new() }
    }

    /// Registers a view under its id, replacing any previous entry.
    pub fn register(&mut self, info: TextureViewInfo)
        ensures
            final(self)@ == old(self)@.insert(info.id, info),
    {
        self.views.insert(info.id, info);
    }

    /// Looks a view up by id.
    pub fn lookup(&self, id: u64) -> (r: Option<TextureViewInfo>)
        ensures
            self@.contains_key(id) ==> r == Some(self@[id]),
            !self@.contains_key(id) ==> r is None,
    {
        match self.views.get(&id) {
            Some(info) => Some(*info),
            None => None,
        }
    }
}

/// The errors the encoding layer reports.
#[derive(Copy, Clone, Debug, PartialEq, Eq, Structural)]
pub enum CommandError {
    /// A recording operation came from a thread other than the encoder's
    /// owning thread.
    CrossThreadRecording,
    /// The encoder has already been finished.
    NotRecording,
    /// A pass is still active on this encoder.
    PassInProgress,
    /// An attachment's extent differs from the extent the first processed
    /// attachment established.
    ExtentMismatch,
    /// The first color attachment declares a resolve target but a later one
    /// does not.
    MissingResolveTarget,
    /// The backend could not produce another native command buffer.
    CreationFailed,
}

/// Issues and recycles native command-buffer objects for one device, with a
/// free list per thread.  `capacity` is the backend's limit on how many
/// buffers it can produce in total.
pub struct CommandPool {
    free: HashMap<u64, Vec<u64>>,
    issued: u64,
    capacity: u64,
}

impl CommandPool {
    /// How many buffers the backend has produced so far.
    pub closed spec fn issued(self) -> u64 {
        self.issued
    }

    /// The backend's limit on produced buffers.
    pub closed spec fn capacity(self) -> u64 {
        self.capacity
    }

    /// The free list of `thread`, most recently recycled last.
    pub closed spec fn free_list(self, thread: u64) -> Seq<u64> {
        if self.free@.contains_key(thread) {
            self.free@[thread]@
        } else {
            Seq::empty()
        }
    }

    /// The backend never produces more than its capacity.
    pub closed spec fn wf(self) -> bool {
        self.issued <= self.capacity
    }

    /// Whether an acquire on `thread` must fail.
    pub open spec fn exhausted(self, thread: u64) -> bool {
        self.free_list(thread).len() == 0 && self.issued() == self.capacity()
    }

    /// A pool that can produce up to `capacity` buffers.
    pub fn new(capacity: u64) -> (p: CommandPool)
        ensures
            p.wf(),
            p.issued() == 0,
            p.capacity() == capacity,
            forall|t: u64| p.free_list(t) == Seq::<u64>::empty(),
    {
        CommandPool { free: HashMap::new(), issued: 0, capacity }
    }

    /// Hands out a buffer ready to begin recording: the most recently
    /// recycled buffer of the calling thread where one exists, else a
    /// freshly produced one.  Fails with [`CommandError::CreationFailed`]
    /// exactly when the thread's free list is empty and the backend's
    /// capacity is spent.
    pub fn acquire(&mut self, thread: u64) -> (r: Result<u64, CommandError>)
        requires
            old(self).wf(),
        ensures
            final(self).wf(),
            old(self).free_list(thread).len() > 0 ==> r == Ok::<u64, CommandError>(
                old(self).free_list(thread).last(),
            ) && final(self).free_list(thread) == old(self).free_list(thread).drop_last()
                && final(self).issued() == old(self).issued(),
            old(self).free_list(thread).len() == 0 && old(self).issued() < old(self).capacity()
                ==> r == Ok::<u64, CommandError>(old(self).issued())
                    && final(self).issued() == old(self).issued() + 1
                    && final(self).free_list(thread) == old(self).free_list(thread),
            old(self).exhausted(thread) ==> r == Err::<u64, CommandError>(
                CommandError::CreationFailed,
            ) && *final(self) == *old(self),
            final(self).capacity() == old(self).capacity(),
            forall|t: u64| t != thread ==> final(self).free_list(t) == old(self).free_list(t),
    {
        let reused = match self.free.get(&thread) {
            Some(list) => list.len() > 0,
            None => false,
        };
        if reused {
            match self.free.remove(&thread) {
                Some(mut list) => {
                    let id = list.pop().unwrap();
                    self.free.insert(thread, list);
                    proof {
                        assert(self.free@[thread]@ =~= old(self).free@[thread]@.drop_last());
                        assert forall|t: u64| t != thread
                            implies final(self).free_list(t) == old(self).free_list(t) by {
                            assert(self.free@.contains_key(t) == old(self).free@.contains_key(t));
                        }
                    }
                    Ok(id)
                }
                None => {
                    proof {
                        assert(false);
                    }
                    Err(CommandError::CreationFailed)
                }
            }
        } else if self.issued < self.capacity {
            let id = self.issued;
            self.issued = self.issued + 1;
            Ok(id)
        } else {
            Err(CommandError::CreationFailed)
        }
    }

    /// Returns a native buffer to the calling thread's free list for reuse.
    pub fn recycle(&mut self, thread: u64, id: u64)
        ensures
            final(self).wf() == old(self).wf(),
            final(self).free_list(thread) == old(self).free_list(thread).push(id),
            final(self).issued() == old(self).issued(),
            final(self).capacity() == old(self).capacity(),
            forall|t: u64| t != thread ==> final(self).free_list(t) == old(self).free_list(t),
    {
        match self.free.remove(&thread) {
            Some(mut list) => {
                list.push(id);
                self.free.insert(thread, list);
            }
            None => {
                let mut list: Vec<u64> = Vec::new();
                list.push(id);
                self.free.insert(thread, list);
            }
        }
        proof {
            assert(final(self).free_list(thread) =~= old(self).free_list(thread).push(id));
            assert forall|t: u64| t != thread
                implies final(self).free_list(t) == old(self).free_list(t) by {
                assert(self.free@.contains_key(t) == old(self).free@.contains_key(t));
            }
        }
    }
}

/// One barrier of a pipeline-barrier command.
#[derive(Copy, Clone, Debug, PartialEq, Eq, Structural)]
pub enum Barrier {
    /// A buffer memory barrier over the buffer's whole range.
    Buffer { id: u64, transition: StateTransition },
    /// An image memory barrier over the texture's full subresource range.
    Texture { id: u64, transition: StateTransition },
}

/// A command recorded into a native command buffer.  Commands execute in
/// exactly the order they were recorded.
#[derive(Debug, PartialEq)]
pub enum Command {
    /// Begin recording, for one-time submission.
    Begin,
    /// One pipeline-barrier call covering every buffer and image stage.
    PipelineBarrier { barriers: Vec<Barrier> },
    /// Begin a render pass with the given compiled objects and clears.
    BeginRenderPass { render_pass: u64, framebuffer: u64, rect: Rect, clear_values: Vec<ClearValue> },
    /// Restrict rasterization to the given rectangle.
    SetScissor { rect: Rect },
    /// Set the viewport to the given rectangle, over the full depth range.
    SetViewport { rect: Rect },
}

/// A native command buffer: an opaque backend object id plus the commands
/// recorded into it.
pub struct NativeCommandBuffer {
    pub id: u64,
    pub commands: Vec<Command>,
}

/// The recording state of an encoder.
#[derive(Copy, Clone, Debug, PartialEq, Eq, Structural)]
pub enum RecordingState {
    /// Open for recording, no pass active.
    Open,
    /// A render or compute pass currently owns the active native buffer.
    PassActive,
    /// Finished; no further recording is accepted.
    Closed,
}

/// The formats a render pass was begun with; passes recorded against one
/// context are only compatible with pipelines of the same shape.
pub struct RenderPassContext {
    pub colors: Vec<TextureFormat>,
    pub depth_stencil: Option<TextureFormat>,
    pub resolves: Option<Vec<TextureFormat>>,
}

/// The index-element width of an index-buffer binding.
#[derive(Copy, Clone, Debug, PartialEq, Eq, Structural)]
pub enum IndexFormat {
    Uint16,
    Uint32,
}

/// A pass's index-binding state, seeded with the default index format.
#[derive(Copy, Clone, Debug, PartialEq, Eq, Structural)]
pub struct IndexState {
    pub bound_buffer_view: Option<u64>,
    pub format: IndexFormat,
}

/// A pass handle owning the active native command buffer until the pass
/// ends.
pub struct RenderPass {
    /// The native buffer the pass records into, exclusively.
    pub cmd_buf: NativeCommandBuffer,
    /// The encoder this pass belongs to.
    pub parent_id: u64,
    /// The attachment formats the pass was begun with.
    pub context: RenderPassContext,
    /// The pass's initial index-binding state.
    pub index_state: IndexState,
    /// The compiled render pass the backend must use.
    pub render_pass: u64,
    /// The framebuffer the backend must bind.
    pub framebuffer: u64,
    /// Whether the compiled render pass still has to be built.
    pub render_pass_created: bool,
    /// Whether the framebuffer still has to be built.
    pub framebuffer_created: bool,
}

/// A compute pass handle owning the active native command buffer.
pub struct ComputePass {
    pub cmd_buf: NativeCommandBuffer,
    pub parent_id: u64,
}

/// A command encoder / command buffer: the ordered native buffers recorded
/// so far, the recording state machine, the owning thread, and the
/// per-buffer resource trackers.
pub struct CommandBuffer {
    /// The encoder's identity; reinterpreted as the submittable command
    /// buffer's identity by `command_encoder_finish`.
    pub id: u64,
    /// Recorded native buffers, in submission order.
    pub raw: Vec<NativeCommandBuffer>,
    pub state: RecordingState,
    /// Only this thread may record into the encoder.
    pub thread_id: u64,
    pub device_id: u64,
    pub trackers: TrackerSet,
    /// The swap-chain images touched while recording.
    pub swap_chain_links: Vec<SwapChainLink>,
}

impl CommandBuffer {
    /// While open, at least one native buffer is available for a compute
    /// pass to take over.
    pub open spec fn wf(self) -> bool {
        &&& self.trackers.wf()
        &&& self.state == RecordingState::Open ==> self.raw@.len() >= 1
    }

    /// A fresh encoder owned by `thread`, holding one native buffer.
    pub fn new(id: u64, device_id: u64, thread: u64, first_buffer: u64) -> (c: CommandBuffer)
        ensures
            c.wf(),
            c.id == id,
            c.device_id == device_id,
            c.thread_id == thread,
            c.state == RecordingState::Open,
            c.raw@.len() == 1,
            c.raw@[0].id == first_buffer,
            c.raw@[0].commands@ == Seq::<Command>::empty(),
            c.swap_chain_links@ == Seq::<SwapChainLink>::empty(),
            c.trackers.buffers@ == Map::<u64, ResourceUsage>::empty(),
            c.trackers.textures@ == Map::<u64, ResourceUsage>::empty(),
            c.trackers.views@ == Map::<u64, ResourceUsage>::empty(),
    {
        let mut raw: Vec<NativeCommandBuffer> = Vec::new();
        raw.push(NativeCommandBuffer { id: first_buffer, commands: Vec::new() });
        CommandBuffer {
            id,
            raw,
            state: RecordingState::Open,
            thread_id: thread,
            device_id,
            trackers: TrackerSet::new(),
            swap_chain_links: Vec::new(),
        }
    }
}

/// A device as the encoding layer sees it: its object caches and its
/// command buffer pool.
pub struct Device {
    pub id: u64,
    pub render_passes: RenderPassCache,
    pub framebuffers: FramebufferCache,
    pub pool: CommandPool,
}

impl Device {
    pub open spec fn wf(self) -> bool {
        self.render_passes.wf() && self.framebuffers.wf() && self.pool.wf()
    }

    /// A fresh device whose pool can produce `pool_capacity` buffers.
    pub fn new(id: u64, pool_capacity: u64) -> (d: Device)
        ensures
            d.wf(),
            d.id == id,
            d.render_passes@ == Seq::<(RenderPassKey, u64)>::empty(),
            d.framebuffers@ == Seq::<(FramebufferKey, u64)>::empty(),
            d.pool.issued() == 0,
            d.pool.capacity() == pool_capacity,
            forall|t: u64| d.pool.free_list(t) == Seq::<u64>::empty(),
    {
        Device {
            id,
            render_passes: RenderPassCache::new(),
            framebuffers: FramebufferCache::new(),
            pool: CommandPool::new(pool_capacity),
        }
    }
}

/// Closes the encoder: flips it to not-recording exactly once and returns
/// its identity reinterpreted as a submittable command-buffer id.  Fails on
/// a foreign thread, on a second finish, and while a pass is active.
pub fn command_encoder_finish(cmb: &mut CommandBuffer, caller_thread: u64) -> (r: Result<
    u64,
    CommandError,
>)
    ensures
        caller_thread != old(cmb).thread_id ==> r == Err::<u64, CommandError>(
            CommandError::CrossThreadRecording,
        ) && *final(cmb) == *old(cmb),
        caller_thread == old(cmb).thread_id && old(cmb).state == RecordingState::Closed
            ==> r == Err::<u64, CommandError>(CommandError::NotRecording) && *final(cmb) == *old(cmb),
        caller_thread == old(cmb).thread_id && old(cmb).state == RecordingState::PassActive
            ==> r == Err::<u64, CommandError>(CommandError::PassInProgress) && *final(cmb) == *old(cmb),
        caller_thread == old(cmb).thread_id && old(cmb).state == RecordingState::Open ==> {
            &&& r == Ok::<u64, CommandError>(old(cmb).id)
            &&& final(cmb).state == RecordingState::Closed
            &&& final(cmb).id == old(cmb).id
            &&& final(cmb).raw == old(cmb).raw
            &&& final(cmb).thread_id == old(cmb).thread_id
            &&& final(cmb).device_id == old(cmb).device_id
            &&& final(cmb).trackers == old(cmb).trackers
            &&& final(cmb).swap_chain_links == old(cmb).swap_chain_links
        },
{
    if caller_thread != cmb.thread_id {
        return Err(CommandError::CrossThreadRecording);
    }
    match cmb.state {
        RecordingState::Closed => Err(CommandError::NotRecording),
        RecordingState::PassActive => Err(CommandError::PassInProgress),
        RecordingState::Open => {
            cmb.state = RecordingState::Closed;
            Ok(cmb.id)
        }
    }
}

/// Begins a compute pass: takes the encoder's next native buffer and hands
/// it to a pass handle that owns it exclusively until the pass ends.  Fails
/// on a foreign thread, after finish, and while another pass is active.
pub fn command_encoder_begin_compute_pass(cmb: &mut CommandBuffer, caller_thread: u64) -> (r:
    Result<ComputePass, CommandError>)
    requires
        old(cmb).wf(),
    ensures
        final(cmb).wf(),
        caller_thread != old(cmb).thread_id ==> r == Err::<ComputePass, CommandError>(
            CommandError::CrossThreadRecording,
        ) && *final(cmb) == *old(cmb),
        caller_thread == old(cmb).thread_id && old(cmb).state == RecordingState::Closed
            ==> r == Err::<ComputePass, CommandError>(CommandError::NotRecording)
                && *final(cmb) == *old(cmb),
        caller_thread == old(cmb).thread_id && old(cmb).state == RecordingState::PassActive
            ==> r == Err::<ComputePass, CommandError>(CommandError::PassInProgress)
                && *final(cmb) == *old(cmb),
        caller_thread == old(cmb).thread_id && old(cmb).state == RecordingState::Open ==> {
            &&& r matches Ok(pass)
            &&& pass.cmd_buf == old(cmb).raw@.last()
            &&& pass.parent_id == old(cmb).id
            &&& final(cmb).raw@ == old(cmb).raw@.drop_last()
            &&& final(cmb).state == RecordingState::PassActive
            &&& final(cmb).id == old(cmb).id
            &&& final(cmb).thread_id == old(cmb).thread_id
            &&& final(cmb).device_id == old(cmb).device_id
            &&& final(cmb).trackers == old(cmb).trackers
            &&& final(cmb).swap_chain_links == old(cmb).swap_chain_links
        },
{
    if caller_thread != cmb.thread_id {
        return Err(CommandError::CrossThreadRecording);
    }
    match cmb.state {
        RecordingState::Closed => Err(CommandError::NotRecording),
        RecordingState::PassActive => Err(CommandError::PassInProgress),
        RecordingState::Open => {
            let raw = cmb.raw.pop().unwrap();
            cmb.state = RecordingState::PassActive;
            Ok(ComputePass { cmd_buf: raw, parent_id: cmb.id })
        }
    }
}

/// Ends a compute pass, returning its native buffer to the encoder.
pub fn end_compute_pass(cmb: &mut CommandBuffer, pass: ComputePass, caller_thread: u64)
    requires
        old(cmb).wf(),
        old(cmb).state == RecordingState::PassActive,
        caller_thread == old(cmb).thread_id,
        pass.parent_id == old(cmb).id,
    ensures
        final(cmb).wf(),
        final(cmb).raw@ == old(cmb).raw@.push(pass.cmd_buf),
        final(cmb).state == RecordingState::Open,
        final(cmb).id == old(cmb).id,
        final(cmb).thread_id == old(cmb).thread_id,
        final(cmb).device_id == old(cmb).device_id,
        final(cmb).trackers == old(cmb).trackers,
        final(cmb).swap_chain_links == old(cmb).swap_chain_links,
{
    cmb.raw.push(pass.cmd_buf);
    cmb.state = RecordingState::Open;
}

/// Ends a render pass, returning its native buffer to the encoder.
pub fn end_render_pass(cmb: &mut CommandBuffer, pass: RenderPass, caller_thread: u64)
    requires
        old(cmb).wf(),
        old(cmb).state == RecordingState::PassActive,
        caller_thread == old(cmb).thread_id,
        pass.parent_id == old(cmb).id,
    ensures
        final(cmb).wf(),
        final(cmb).raw@ == old(cmb).raw@.push(pass.cmd_buf),
        final(cmb).state == RecordingState::Open,
        final(cmb).id == old(cmb).id,
        final(cmb).thread_id == old(cmb).thread_id,
        final(cmb).device_id == old(cmb).device_id,
        final(cmb).trackers == old(cmb).trackers,
        final(cmb).swap_chain_links == old(cmb).swap_chain_links,
{
    cmb.raw.push(pass.cmd_buf);
    cmb.state = RecordingState::Open;
}

/// One color attachment of a render-pass descriptor.
#[derive(Copy, Clone, Debug, PartialEq, Eq, Structural)]
pub struct RenderPassColorAttachmentDescriptor {
    /// The attachment view's id.
    pub attachment: u64,
    /// The view resolved into at pass end, for multisampled attachments.
    pub resolve_target: Option<u64>,
    pub load_op: LoadOp,
    pub store_op: StoreOp,
    pub clear_color: Color,
}

/// The depth-stencil attachment of a render-pass descriptor.  `clear_depth`
/// holds the raw 32 bits of the depth clear value.
#[derive(Copy, Clone, Debug, PartialEq, Eq, Structural)]
pub struct RenderPassDepthStencilAttachmentDescriptor {
    pub attachment: u64,
    pub depth_load_op: LoadOp,
    pub depth_store_op: StoreOp,
    pub clear_depth: u32,
    pub stencil_load_op: LoadOp,
    pub stencil_store_op: StoreOp,
    pub clear_stencil: u32,
}

/// What a render pass is begun with: an owned sequence of color attachments
/// and an optional depth-stencil attachment.
pub struct RenderPassDescriptor {
    pub color_attachments: Vec<RenderPassColorAttachmentDescriptor>,
    pub depth_stencil_attachment: Option<RenderPassDepthStencilAttachmentDescriptor>,
}

/// Creation options for a command encoder; none exist yet, and the field
/// keeps the struct non-empty for foreign callers.
#[derive(Copy, Clone, Debug, PartialEq, Eq, Structural)]
pub struct CommandEncoderDescriptor {
    pub reserved: u32,
}

/// Whether every view the descriptor references is present in the registry.
pub open spec fn desc_views_resolve(desc: RenderPassDescriptor, vmap: Map<u64, TextureViewInfo>) -> bool {
    &&& forall|i: int| 0 <= i < desc.color_attachments@.len()
        ==> vmap.contains_key((#[trigger] desc.color_attachments@[i]).attachment)
    &&& (desc.depth_stencil_attachment matches Some(ds) ==> vmap.contains_key(ds.attachment))
    &&& forall|i: int| 0 <= i < desc.color_attachments@.len()
            && (#[trigger] desc.color_attachments@[i]).resolve_target is Some
        ==> vmap.contains_key(desc.color_attachments@[i].resolve_target.unwrap())
}

/// The pass extent: the extent of the first attachment processed, the
/// depth-stencil one where present, else the first color attachment's.
pub open spec fn spec_ref_extent(desc: RenderPassDescriptor, vmap: Map<u64, TextureViewInfo>) -> Extent {
    match desc.depth_stencil_attachment {
        Some(ds) => vmap[ds.attachment].extent,
        None => vmap[desc.color_attachments@[0].attachment].extent,
    }
}

/// Every color attachment's extent equals the pass extent.
pub open spec fn spec_base_extents_ok(desc: RenderPassDescriptor, vmap: Map<u64, TextureViewInfo>) -> bool {
    forall|i: int| 0 <= i < desc.color_attachments@.len()
        ==> vmap[(#[trigger] desc.color_attachments@[i]).attachment].extent == spec_ref_extent(desc, vmap)
}

/// Whether the pass resolves its color attachments: decided by the first
/// color attachment alone.
pub open spec fn spec_resolves_active(desc: RenderPassDescriptor) -> bool {
    desc.color_attachments@.len() > 0 && desc.color_attachments@[0].resolve_target is Some
}

/// When the pass resolves, every color attachment names a resolve target.
pub open spec fn spec_resolves_complete(desc: RenderPassDescriptor) -> bool {
    spec_resolves_active(desc) ==> forall|i: int| 0 <= i < desc.color_attachments@.len()
        ==> (#[trigger] desc.color_attachments@[i]).resolve_target is Some
}

/// Every resolve target's extent equals the pass extent.
pub open spec fn spec_resolve_extents_ok(desc: RenderPassDescriptor, vmap: Map<u64, TextureViewInfo>) -> bool {
    spec_resolves_active(desc) ==> forall|i: int| 0 <= i < desc.color_attachments@.len()
            && (#[trigger] desc.color_attachments@[i]).resolve_target is Some
        ==> vmap[desc.color_attachments@[i].resolve_target.unwrap()].extent == spec_ref_extent(desc, vmap)
}

/// All attachment validations a pass descriptor must satisfy.
pub open spec fn spec_attachments_ok(desc: RenderPassDescriptor, vmap: Map<u64, TextureViewInfo>) -> bool {
    spec_base_extents_ok(desc, vmap) && spec_resolves_complete(desc) && spec_resolve_extents_ok(desc, vmap)
}

/// The shape a color attachment contributes to the render-pass key; the
/// destination layout is fixed by the attachment's aspect, so structurally
/// equal attachment sets share one compiled pass whatever states their
/// textures were last in.
pub open spec fn spec_color_key(
    at: RenderPassColorAttachmentDescriptor,
    vmap: Map<u64, TextureViewInfo>,
) -> AttachmentKey {
    let view = vmap[at.attachment];
    let l = Layout::ColorAttachmentOptimal;
    AttachmentKey {
        format: view.format,
        samples: view.samples,
        ops: AttachmentOps { load: at.load_op, store: at.store_op },
        stencil_ops: StencilOps::DontCare,
        initial_layout: l,
        final_layout: l,
    }
}

/// The color part of the render-pass key.
pub open spec fn spec_color_keys(
    desc: RenderPassDescriptor,
    vmap: Map<u64, TextureViewInfo>,
) -> Seq<AttachmentKey> {
    Seq::new(
        desc.color_attachments@.len(),
        |i: int| spec_color_key(desc.color_attachments@[i], vmap),
    )
}

/// The shape a resolve target contributes, carrying the color attachment's
/// operations.
pub open spec fn spec_resolve_key(
    at: RenderPassColorAttachmentDescriptor,
    vmap: Map<u64, TextureViewInfo>,
) -> AttachmentKey {
    let view = vmap[at.resolve_target.unwrap()];
    let l = Layout::ColorAttachmentOptimal;
    AttachmentKey {
        format: view.format,
        samples: view.samples,
        ops: AttachmentOps { load: at.load_op, store: at.store_op },
        stencil_ops: StencilOps::DontCare,
        initial_layout: l,
        final_layout: l,
    }
}

/// The resolve part of the render-pass key, present only when the pass
/// resolves.
pub open spec fn spec_resolve_keys(
    desc: RenderPassDescriptor,
    vmap: Map<u64, TextureViewInfo>,
) -> Option<Seq<AttachmentKey>> {
    if spec_resolves_active(desc) {
        Some(Seq::new(
            desc.color_attachments@.len(),
            |i: int| spec_resolve_key(desc.color_attachments@[i], vmap),
        ))
    } else {
        None
    }
}

/// The shape the depth-stencil attachment contributes, where present.
pub open spec fn spec_ds_key(
    desc: RenderPassDescriptor,
    vmap: Map<u64, TextureViewInfo>,
) -> Option<AttachmentKey> {
    match desc.depth_stencil_attachment {
        None => None,
        Some(at) => {
            let view = vmap[at.attachment];
            let l = Layout::DepthStencilAttachmentOptimal;
            Some(AttachmentKey {
                format: view.format,
                samples: view.samples,
                ops: AttachmentOps { load: at.depth_load_op, store: at.depth_store_op },
                stencil_ops: StencilOps::Used(AttachmentOps {
                    load: at.stencil_load_op,
                    store: at.stencil_store_op,
                }),
                initial_layout: l,
                final_layout: l,
            })
        }
    }
}

/// The usage states the pass requires of its attachment textures, in
/// processing order: depth-stencil first, then colors, then resolves.
pub open spec fn spec_required_seq(
    desc: RenderPassDescriptor,
    vmap: Map<u64, TextureViewInfo>,
) -> Seq<(u64, ResourceUsage)> {
    let ds_part: Seq<(u64, ResourceUsage)> = match desc.depth_stencil_attachment {
        Some(at) => seq![(vmap[at.attachment].texture_id, ResourceUsage::DepthStencilAttachment)],
        None => Seq::empty(),
    };
    let color_part = Seq::new(
        desc.color_attachments@.len(),
        |i: int| (
            vmap[desc.color_attachments@[i].attachment].texture_id,
            ResourceUsage::ColorAttachment,
        ),
    );
    let resolve_part: Seq<(u64, ResourceUsage)> = if spec_resolves_active(desc) {
        Seq::new(
            desc.color_attachments@.len(),
            |i: int| (
                vmap[desc.color_attachments@[i].resolve_target.unwrap()].texture_id,
                ResourceUsage::ColorAttachment,
            ),
        )
    } else {
        Seq::empty()
    };
    ds_part + color_part + resolve_part
}

/// The attachment view ids the pass references, in processing order.
pub open spec fn spec_view_seq(desc: RenderPassDescriptor) -> Seq<(u64, ResourceUsage)> {
    let ds_part: Seq<(u64, ResourceUsage)> = match desc.depth_stencil_attachment {
        Some(at) => seq![(at.attachment, ResourceUsage::Undefined)],
        None => Seq::empty(),
    };
    let color_part = Seq::new(
        desc.color_attachments@.len(),
        |i: int| (desc.color_attachments@[i].attachment, ResourceUsage::Undefined),
    );
    let resolve_part: Seq<(u64, ResourceUsage)> = if spec_resolves_active(desc) {
        Seq::new(
            desc.color_attachments@.len(),
            |i: int| (desc.color_attachments@[i].resolve_target.unwrap(), ResourceUsage::Undefined),
        )
    } else {
        Seq::empty()
    };
    ds_part + color_part + resolve_part
}

/// The map a tracker holds after requiring the listed states in order.
pub open spec fn map_after_requires(
    m: Map<u64, ResourceUsage>,
    s: Seq<(u64, ResourceUsage)>,
) -> Map<u64, ResourceUsage>
    decreases s.len(),
{
    if s.len() == 0 {
        m
    } else {
        map_after_requires(m, s.drop_last()).insert(s.last().0, s.last().1)
    }
}

/// The registration order a tracker holds after requiring the listed states
/// in order.
pub open spec fn order_after_requires(
    m: Map<u64, ResourceUsage>,
    order: Seq<u64>,
    s: Seq<(u64, ResourceUsage)>,
) -> Seq<u64>
    decreases s.len(),
{
    if s.len() == 0 {
        order
    } else {
        let prefix_map = map_after_requires(m, s.drop_last());
        let prefix_order = order_after_requires(m, order, s.drop_last());
        if prefix_map.contains_key(s.last().0) {
            prefix_order
        } else {
            prefix_order.push(s.last().0)
        }
    }
}

/// The texture transitions a pass must issue as barriers, against the
/// encoder's tracked state before the pass.
pub open spec fn spec_texture_transitions(
    desc: RenderPassDescriptor,
    vmap: Map<u64, TextureViewInfo>,
    textures: Map<u64, ResourceUsage>,
) -> Seq<(u64, StateTransition)> {
    let rs = spec_required_seq(desc, vmap);
    merge_transitions(
        textures,
        order_after_requires(Map::empty(), Seq::empty(), rs),
        map_after_requires(Map::empty(), rs),
        Stitch::Init,
    )
}

/// The barriers of the one pipeline-barrier call a pass issues.
pub open spec fn spec_barriers(
    desc: RenderPassDescriptor,
    vmap: Map<u64, TextureViewInfo>,
    textures: Map<u64, ResourceUsage>,
) -> Seq<Barrier> {
    spec_texture_transitions(desc, vmap, textures).map_values(
        |p: (u64, StateTransition)| Barrier::Texture { id: p.0, transition: p.1 },
    )
}

/// The clear values the color attachments contribute, in order.
pub open spec fn spec_color_clears(
    c: Seq<RenderPassColorAttachmentDescriptor>,
    vmap: Map<u64, TextureViewInfo>,
) -> Seq<ClearValue>
    decreases c.len(),
{
    if c.len() == 0 {
        Seq::empty()
    } else {
        let prefix = spec_color_clears(c.drop_last(), vmap);
        match crate::format::spec_color_clear_value(
            c.last().load_op,
            vmap[c.last().attachment].format,
            c.last().clear_color,
        ) {
            Some(v) => prefix.push(v),
            None => prefix,
        }
    }
}

/// All clear values of the pass: the color attachments' in order, then the
/// depth-stencil attachment's where it contributes one.
pub open spec fn spec_clear_values(
    desc: RenderPassDescriptor,
    vmap: Map<u64, TextureViewInfo>,
) -> Seq<ClearValue> {
    let ds_part: Seq<ClearValue> = match desc.depth_stencil_attachment {
        Some(at) => match crate::format::spec_depth_stencil_clear_value(
            at.depth_load_op,
            at.stencil_load_op,
            at.clear_depth,
            at.clear_stencil,
        ) {
            Some(v) => seq![v],
            None => Seq::empty(),
        },
        None => Seq::empty(),
    };
    spec_color_clears(desc.color_attachments@, vmap) + ds_part
}

/// The swap-chain links of the listed views, in order, for views the swap
/// chain owns.
pub open spec fn spec_links_of(ids: Seq<u64>, vmap: Map<u64, TextureViewInfo>) -> Seq<SwapChainLink>
    decreases ids.len(),
{
    if ids.len() == 0 {
        Seq::empty()
    } else {
        let prefix = spec_links_of(ids.drop_last(), vmap);
        match vmap[ids.last()].swap_chain_link {
            Some(l) => prefix.push(l),
            None => prefix,
        }
    }
}

/// The color attachment view ids, in order.
pub open spec fn spec_color_view_ids(desc: RenderPassDescriptor) -> Seq<u64> {
    Seq::new(desc.color_attachments@.len(), |i: int| desc.color_attachments@[i].attachment)
}

/// The resolve target view ids, in order, when the pass resolves.
pub open spec fn spec_resolve_view_ids(desc: RenderPassDescriptor) -> Seq<u64> {
    Seq::new(
        desc.color_attachments@.len(),
        |i: int| desc.color_attachments@[i].resolve_target.unwrap(),
    )
}

/// The swap-chain links a pass records: those of its color attachments,
/// then those of its resolve targets.
pub open spec fn spec_swap_links(
    desc: RenderPassDescriptor,
    vmap: Map<u64, TextureViewInfo>,
) -> Seq<SwapChainLink> {
    if spec_resolves_active(desc) {
        spec_links_of(spec_color_view_ids(desc) + spec_resolve_view_ids(desc), vmap)
    } else {
        spec_links_of(spec_color_view_ids(desc), vmap)
    }
}

/// The color attachment formats, in order.
pub open spec fn spec_color_formats(
    desc: RenderPassDescriptor,
    vmap: Map<u64, TextureViewInfo>,
) -> Seq<TextureFormat> {
    Seq::new(
        desc.color_attachments@.len(),
        |i: int| vmap[desc.color_attachments@[i].attachment].format,
    )
}

/// The resolve target formats, in order, when the pass resolves.
pub open spec fn spec_resolve_formats(
    desc: RenderPassDescriptor,
    vmap: Map<u64, TextureViewInfo>,
) -> Seq<TextureFormat> {
    Seq::new(
        desc.color_attachments@.len(),
        |i: int| vmap[desc.color_attachments@[i].resolve_target.unwrap()].format,
    )
}

/// The depth-stencil attachment's format, where present.
pub open spec fn spec_ds_format(
    desc: RenderPassDescriptor,
    vmap: Map<u64, TextureViewInfo>,
) -> Option<TextureFormat> {
    match desc.depth_stencil_attachment {
        Some(at) => Some(vmap[at.attachment].format),
        None => None,
    }
}

/// The depth-stencil attachment's view id, where present.
pub open spec fn spec_ds_view_id(desc: RenderPassDescriptor) -> Option<u64> {
    match desc.depth_stencil_attachment {
        Some(at) => Some(at.attachment),
        None => None,
    }
}

/// Resolves a view id through the registry.
fn view_of(views: &TextureViewRegistry, id: u64) -> (v: TextureViewInfo)
    requires
        views@.contains_key(id),
    ensures
        v == views@[id],
{
    views.lookup(id).unwrap()
}

/// Validates the attachment set: every extent must equal the pass extent
/// established by the first attachment processed, and when the first color
/// attachment declares a resolve target, all of them must.
#[verifier::loop_isolation(false)]
fn validate_attachments(desc: &RenderPassDescriptor, views: &TextureViewRegistry) -> (r: Result<
    Extent,
    CommandError,
>)
    requires
        desc.color_attachments@.len() >= 1,
        desc_views_resolve(*desc, views@),
    ensures
        spec_attachments_ok(*desc, views@) ==> r == Ok::<Extent, CommandError>(
            spec_ref_extent(*desc, views@),
        ),
        !spec_base_extents_ok(*desc, views@) ==> r == Err::<Extent, CommandError>(
            CommandError::ExtentMismatch,
        ),
        spec_base_extents_ok(*desc, views@) && !spec_resolves_complete(*desc) ==> r == Err::<
            Extent,
            CommandError,
        >(CommandError::MissingResolveTarget),
        spec_base_extents_ok(*desc, views@) && spec_resolves_complete(*desc)
            && !spec_resolve_extents_ok(*desc, views@) ==> r == Err::<Extent, CommandError>(
            CommandError::ExtentMismatch,
        ),
{
    let reference = match &desc.depth_stencil_attachment {
        Some(ds) => view_of(views, ds.attachment).extent,
        None => view_of(views, desc.color_attachments[0].attachment).extent,
    };
    let n = desc.color_attachments.len();
    let mut i: usize = 0;
    while i < n
        invariant
            desc.color_attachments@.len() == n,
            desc_views_resolve(*desc, views@),
            0 <= i <= n,
            reference == spec_ref_extent(*desc, views@),
            forall|j: int| 0 <= j < i
                ==> views@[(#[trigger] desc.color_attachments@[j]).attachment].extent == reference,
        decreases n - i,
    {
        let at = desc.color_attachments[i];
        let info = view_of(views, at.attachment);
        if info.extent != reference {
            return Err(CommandError::ExtentMismatch);
        }
        i = i + 1;
    }
    let resolving = desc.color_attachments[0].resolve_target.is_some();
    if resolving {
        let mut i: usize = 0;
        while i < n
            invariant
                desc.color_attachments@.len() == n,
                0 <= i <= n,
                forall|j: int| 0 <= j < i
                    ==> (#[trigger] desc.color_attachments@[j]).resolve_target is Some,
            decreases n - i,
        {
            if desc.color_attachments[i].resolve_target.is_none() {
                return Err(CommandError::MissingResolveTarget);
            }
            i = i + 1;
        }
        let mut i: usize = 0;
        while i < n
            invariant
                desc.color_attachments@.len() == n,
                desc_views_resolve(*desc, views@),
                0 <= i <= n,
                reference == spec_ref_extent(*desc, views@),
                forall|j: int| 0 <= j < n
                    ==> (#[trigger] desc.color_attachments@[j]).resolve_target is Some,
                forall|j: int| 0 <= j < i
                    ==> views@[(#[trigger] desc.color_attachments@[j]).resolve_target.unwrap()].extent
                        == reference,
            decreases n - i,
        {
            let at = desc.color_attachments[i];
            let info = view_of(views, at.resolve_target.unwrap());
            if info.extent != reference {
                return Err(CommandError::ExtentMismatch);
            }
            i = i + 1;
        }
    }
    Ok(reference)
}

/// Builds the color part of the render-pass key against the encoder's
/// tracked texture states.
#[verifier::loop_isolation(false)]
fn build_color_keys(desc: &RenderPassDescriptor, views: &TextureViewRegistry) -> (keys: Vec<
    AttachmentKey,
>)
    requires
        desc_views_resolve(*desc, views@),
    ensures
        keys@ == spec_color_keys(*desc, views@),
{
    let n = desc.color_attachments.len();
    let mut keys: Vec<AttachmentKey> = Vec::new();
    let mut i: usize = 0;
    while i < n
        invariant
            desc.color_attachments@.len() == n,
            desc_views_resolve(*desc, views@),
            0 <= i <= n,
            keys@.len() == i,
            forall|j: int| 0 <= j < i
                ==> keys@[j] == spec_color_key(desc.color_attachments@[j], views@),
        decreases n - i,
    {
        let at = desc.color_attachments[i];
        let info = view_of(views, at.attachment);
        let l = Layout::ColorAttachmentOptimal;
        keys.push(AttachmentKey {
            format: info.format,
            samples: info.samples,
            ops: AttachmentOps { load: at.load_op, store: at.store_op },
            stencil_ops: StencilOps::DontCare,
            initial_layout: l,
            final_layout: l,
        });
        i = i + 1;
    }
    proof {
        assert(keys@ =~= spec_color_keys(*desc, views@));
    }
    keys
}

/// Builds the resolve part of the render-pass key.
#[verifier::loop_isolation(false)]
fn build_resolve_keys(desc: &RenderPassDescriptor, views: &TextureViewRegistry) -> (keys: Vec<
    AttachmentKey,
>)
    requires
        desc_views_resolve(*desc, views@),
        spec_resolves_complete(*desc),
        spec_resolves_active(*desc),
    ensures
        Some(keys@) == spec_resolve_keys(*desc, views@),
{
    let n = desc.color_attachments.len();
    let mut keys: Vec<AttachmentKey> = Vec::new();
    let mut i: usize = 0;
    while i < n
        invariant
            desc.color_attachments@.len() == n,
            desc_views_resolve(*desc, views@),
            spec_resolves_complete(*desc),
            spec_resolves_active(*desc),
            0 <= i <= n,
            keys@.len() == i,
            forall|j: int| 0 <= j < i
                ==> keys@[j] == spec_resolve_key(desc.color_attachments@[j], views@),
        decreases n - i,
    {
        let at = desc.color_attachments[i];
        proof {
            assert(desc.color_attachments@[i as int].resolve_target is Some);
        }
        let info = view_of(views, at.resolve_target.unwrap());
        let l = Layout::ColorAttachmentOptimal;
        keys.push(AttachmentKey {
            format: info.format,
            samples: info.samples,
            ops: AttachmentOps { load: at.load_op, store: at.store_op },
            stencil_ops: StencilOps::DontCare,
            initial_layout: l,
            final_layout: l,
        });
        i = i + 1;
    }
    proof {
        assert(keys@ =~= spec_resolve_keys(*desc, views@).unwrap());
    }
    keys
}

/// Builds the depth-stencil part of the render-pass key.
#[verifier::loop_isolation(false)]
fn build_ds_key(desc: &RenderPassDescriptor, views: &TextureViewRegistry) -> (key: Option<
    AttachmentKey,
>)
    requires
        desc_views_resolve(*desc, views@),
    ensures
        key == spec_ds_key(*desc, views@),
{
    match &desc.depth_stencil_attachment {
        None => None,
        Some(at) => {
            let info = view_of(views, at.attachment);
            let l = Layout::DepthStencilAttachmentOptimal;
            Some(AttachmentKey {
                format: info.format,
                samples: info.samples,
                ops: AttachmentOps { load: at.depth_load_op, store: at.depth_store_op },
                stencil_ops: StencilOps::Used(AttachmentOps {
                    load: at.stencil_load_op,
                    store: at.stencil_store_op,
                }),
                initial_layout: l,
                final_layout: l,
            })
        }
    }
}

/// Builds the tracker of the usage states the pass requires of its
/// attachment textures, registered in processing order.
#[verifier::loop_isolation(false)]
fn build_required_textures(desc: &RenderPassDescriptor, views: &TextureViewRegistry) -> (head:
    Tracker)
    requires
        desc.color_attachments@.len() >= 1,
        desc_views_resolve(*desc, views@),
        spec_resolves_active(*desc) ==> spec_resolves_complete(*desc),
    ensures
        head.wf(),
        head@ == map_after_requires(Map::empty(), spec_required_seq(*desc, views@)),
        head.ids_in_order() == order_after_requires(
            Map::empty(),
            Seq::empty(),
            spec_required_seq(*desc, views@),
        ),
{
    let ghost rs = spec_required_seq(*desc, views@);
    let ghost ds_len: int = if desc.depth_stencil_attachment is Some { 1int } else { 0int };
    let n = desc.color_attachments.len();
    let mut head = Tracker::new();
    proof {
        assert(rs.take(0) =~= Seq::<(u64, ResourceUsage)>::empty());
        assert(map_after_requires(Map::empty(), rs.take(0)) == Map::<u64, ResourceUsage>::empty());
        assert(order_after_requires(Map::empty(), Seq::empty(), rs.take(0)) == Seq::<u64>::empty());
    }
    match &desc.depth_stencil_attachment {
        Some(at) => {
            let info = view_of(views, at.attachment);
            head.require(info.texture_id, ResourceUsage::DepthStencilAttachment);
            proof {
                assert(rs.take(1).drop_last() =~= rs.take(0));
                assert(rs.take(0) =~= Seq::<(u64, ResourceUsage)>::empty());
                assert(rs.take(1).last() == rs[0]);
                assert(rs[0] == (info.texture_id, ResourceUsage::DepthStencilAttachment));
            }
        }
        None => {
            proof {
                assert(rs.take(0) =~= Seq::<(u64, ResourceUsage)>::empty());
            }
        }
    }
    let mut i: usize = 0;
    while i < n
        invariant
            desc.color_attachments@.len() == n,
            desc_views_resolve(*desc, views@),
            0 <= i <= n,
            rs == spec_required_seq(*desc, views@),
            ds_len == (if desc.depth_stencil_attachment is Some { 1int } else { 0int }),
            head.wf(),
            head@ == map_after_requires(Map::empty(), rs.take(ds_len + i)),
            head.ids_in_order() == order_after_requires(Map::empty(), Seq::empty(), rs.take(ds_len + i)),
        decreases n - i,
    {
        let at = desc.color_attachments[i];
        let info = view_of(views, at.attachment);
        head.require(info.texture_id, ResourceUsage::ColorAttachment);
        proof {
            let k = ds_len + i;
            assert(rs.take(k + 1).drop_last() =~= rs.take(k));
            assert(rs.take(k + 1).last() == rs[k]);
            assert(rs[k] == (info.texture_id, ResourceUsage::ColorAttachment));
        }
        i = i + 1;
    }
    let resolving = desc.color_attachments[0].resolve_target.is_some();
    if resolving {
        let mut i: usize = 0;
        while i < n
            invariant
                desc.color_attachments@.len() == n,
                desc_views_resolve(*desc, views@),
                spec_resolves_active(*desc),
                spec_resolves_complete(*desc),
                0 <= i <= n,
                rs == spec_required_seq(*desc, views@),
                ds_len == (if desc.depth_stencil_attachment is Some { 1int } else { 0int }),
                head.wf(),
                head@ == map_after_requires(Map::empty(), rs.take(ds_len + n + i)),
                head.ids_in_order() == order_after_requires(
                    Map::empty(),
                    Seq::empty(),
                    rs.take(ds_len + n + i),
                ),
            decreases n - i,
        {
            let at = desc.color_attachments[i];
            proof {
                assert(desc.color_attachments@[i as int].resolve_target is Some);
            }
            let info = view_of(views, at.resolve_target.unwrap());
            head.require(info.texture_id, ResourceUsage::ColorAttachment);
            proof {
                let k = ds_len + n + i;
                assert(rs.take(k + 1).drop_last() =~= rs.take(k));
                assert(rs.take(k + 1).last() == rs[k]);
                assert(rs[k] == (info.texture_id, ResourceUsage::ColorAttachment));
            }
            i = i + 1;
        }
        proof {
            assert(rs.take(ds_len + n + n) =~= rs);
        }
    } else {
        proof {
            assert(rs.take(ds_len + n) =~= rs);
        }
    }
    head
}

/// Builds the tracker of the attachment views the pass references, in
/// processing order; views carry no layout state of their own.
#[verifier::loop_isolation(false)]
fn build_referenced_views(desc: &RenderPassDescriptor, views: &TextureViewRegistry) -> (head:
    Tracker)
    requires
        desc.color_attachments@.len() >= 1,
        desc_views_resolve(*desc, views@),
        spec_resolves_active(*desc) ==> spec_resolves_complete(*desc),
    ensures
        head.wf(),
        head@ == map_after_requires(Map::empty(), spec_view_seq(*desc)),
        head.ids_in_order() == order_after_requires(Map::empty(), Seq::empty(), spec_view_seq(*desc)),
{
    let ghost rs = spec_view_seq(*desc);
    let ghost ds_len: int = if desc.depth_stencil_attachment is Some { 1int } else { 0int };
    let n = desc.color_attachments.len();
    let mut head = Tracker::new();
    proof {
        assert(rs.take(0) =~= Seq::<(u64, ResourceUsage)>::empty());
        assert(map_after_requires(Map::empty(), rs.take(0)) == Map::<u64, ResourceUsage>::empty());
        assert(order_after_requires(Map::empty(), Seq::empty(), rs.take(0)) == Seq::<u64>::empty());
    }
    match &desc.depth_stencil_attachment {
        Some(at) => {
            head.require(at.attachment, ResourceUsage::Undefined);
            proof {
                assert(rs.take(1).drop_last() =~= rs.take(0));
                assert(rs.take(0) =~= Seq::<(u64, ResourceUsage)>::empty());
                assert(rs.take(1).last() == rs[0]);
                assert(rs[0] == (at.attachment, ResourceUsage::Undefined));
            }
        }
        None => {
            proof {
                assert(rs.take(0) =~= Seq::<(u64, ResourceUsage)>::empty());
            }
        }
    }
    let mut i: usize = 0;
    while i < n
        invariant
            desc.color_attachments@.len() == n,
            0 <= i <= n,
            rs == spec_view_seq(*desc),
            ds_len == (if desc.depth_stencil_attachment is Some { 1int } else { 0int }),
            head.wf(),
            head@ == map_after_requires(Map::empty(), rs.take(ds_len + i)),
            head.ids_in_order() == order_after_requires(Map::empty(), Seq::empty(), rs.take(ds_len + i)),
        decreases n - i,
    {
        let at = desc.color_attachments[i];
        head.require(at.attachment, ResourceUsage::Undefined);
        proof {
            let k = ds_len + i;
            assert(rs.take(k + 1).drop_last() =~= rs.take(k));
            assert(rs.take(k + 1).last() == rs[k]);
            assert(rs[k] == (at.attachment, ResourceUsage::Undefined));
        }
        i = i + 1;
    }
    let resolving = desc.color_attachments[0].resolve_target.is_some();
    if resolving {
        let mut i: usize = 0;
        while i < n
            invariant
                desc.color_attachments@.len() == n,
                spec_resolves_active(*desc),
                spec_resolves_complete(*desc),
                0 <= i <= n,
                rs == spec_view_seq(*desc),
                ds_len == (if desc.depth_stencil_attachment is Some { 1int } else { 0int }),
                head.wf(),
                head@ == map_after_requires(Map::empty(), rs.take(ds_len + n + i)),
                head.ids_in_order() == order_after_requires(
                    Map::empty(),
                    Seq::empty(),
                    rs.take(ds_len + n + i),
                ),
            decreases n - i,
        {
            let at = desc.color_attachments[i];
            proof {
                assert(desc.color_attachments@[i as int].resolve_target is Some);
            }
            head.require(at.resolve_target.unwrap(), ResourceUsage::Undefined);
            proof {
                let k = ds_len + n + i;
                assert(rs.take(k + 1).drop_last() =~= rs.take(k));
                assert(rs.take(k + 1).last() == rs[k]);
                assert(rs[k] == (at.resolve_target.unwrap(), ResourceUsage::Undefined));
            }
            i = i + 1;
        }
        proof {
            assert(rs.take(ds_len + n + n) =~= rs);
        }
    } else {
        proof {
            assert(rs.take(ds_len + n) =~= rs);
        }
    }
    head
}

/// Computes the pass's clear values: the color attachments' in order, then
/// the depth-stencil attachment's where one is contributed.
#[verifier::loop_isolation(false)]
fn build_clear_values(desc: &RenderPassDescriptor, views: &TextureViewRegistry) -> (out: Vec<
    ClearValue,
>)
    requires
        desc_views_resolve(*desc, views@),
    ensures
        out@ == spec_clear_values(*desc, views@),
{
    let ghost c = desc.color_attachments@;
    let n = desc.color_attachments.len();
    let mut out: Vec<ClearValue> = Vec::new();
    proof {
        assert(c.take(0) =~= Seq::<RenderPassColorAttachmentDescriptor>::empty());
        assert(spec_color_clears(c.take(0), views@) == Seq::<ClearValue>::empty());
    }
    let mut i: usize = 0;
    while i < n
        invariant
            0 <= i <= n,
            out@ == spec_color_clears(c.take(i as int), views@),
        decreases n - i,
    {
        let at = desc.color_attachments[i];
        let info = view_of(views, at.attachment);
        match crate::format::color_clear_value(at.load_op, info.format, at.clear_color) {
            Some(v) => {
                out.push(v);
            }
            None => {}
        }
        proof {
            assert(c.take(i + 1).drop_last() =~= c.take(i as int));
            assert(c.take(i + 1).last() == c[i as int]);
        }
        i = i + 1;
    }
    proof {
        assert(c.take(n as int) =~= c);
    }
    match &desc.depth_stencil_attachment {
        Some(at) => {
            match crate::format::depth_stencil_clear_value(
                at.depth_load_op,
                at.stencil_load_op,
                at.clear_depth,
                at.clear_stencil,
            ) {
                Some(v) => {
                    out.push(v);
                    proof {
                        assert(out@ =~= spec_clear_values(*desc, views@));
                    }
                }
                None => {
                    proof {
                        assert(out@ =~= spec_clear_values(*desc, views@));
                    }
                }
            }
        }
        None => {
            proof {
                assert(out@ =~= spec_clear_values(*desc, views@));
            }
        }
    }
    out
}

/// Records the swap-chain links of the pass's color and resolve views onto
/// the command buffer's list, in processing order.
#[verifier::loop_isolation(false)]
fn append_swap_links(
    links: &mut Vec<SwapChainLink>,
    desc: &RenderPassDescriptor,
    views: &TextureViewRegistry,
)
    requires
        desc.color_attachments@.len() >= 1,
        desc_views_resolve(*desc, views@),
        spec_resolves_active(*desc) ==> spec_resolves_complete(*desc),
    ensures
        final(links)@ == old(links)@ + spec_swap_links(*desc, views@),
{
    let ghost cids = spec_color_view_ids(*desc);
    let ghost rids = spec_resolve_view_ids(*desc);
    let n = desc.color_attachments.len();
    proof {
        assert(cids.take(0) =~= Seq::<u64>::empty());
        assert(spec_links_of(cids.take(0), views@) == Seq::<SwapChainLink>::empty());
        assert(old(links)@ + spec_links_of(cids.take(0), views@) =~= old(links)@);
    }
    let mut i: usize = 0;
    while i < n
        invariant
            0 <= i <= n,
            links@ == old(links)@ + spec_links_of(cids.take(i as int), views@),
        decreases n - i,
    {
        let at = desc.color_attachments[i];
        let info = view_of(views, at.attachment);
        match info.swap_chain_link {
            Some(l) => {
                links.push(l);
            }
            None => {}
        }
        proof {
            assert(cids.take(i + 1).drop_last() =~= cids.take(i as int));
            assert(cids.take(i + 1).last() == cids[i as int]);
            assert(cids[i as int] == desc.color_attachments@[i as int].attachment);
        }
        i = i + 1;
    }
    proof {
        assert(cids.take(n as int) =~= cids);
    }
    let resolving = desc.color_attachments[0].resolve_target.is_some();
    if resolving {
        proof {
            assert((cids + rids.take(0)) =~= cids);
        }
        let mut i: usize = 0;
        while i < n
            invariant
                0 <= i <= n,
                links@ == old(links)@ + spec_links_of(cids + rids.take(i as int), views@),
            decreases n - i,
        {
            let at = desc.color_attachments[i];
            proof {
                assert(desc.color_attachments@[i as int].resolve_target is Some);
            }
            let info = view_of(views, at.resolve_target.unwrap());
            match info.swap_chain_link {
                Some(l) => {
                    links.push(l);
                }
                None => {}
            }
            proof {
                assert((cids + rids.take(i + 1)).drop_last() =~= cids + rids.take(i as int));
                assert((cids + rids.take(i + 1)).last() == rids[i as int]);
            }
            i = i + 1;
        }
        proof {
            assert((cids + rids.take(n as int)) =~= cids + rids);
        }
    }
}

/// The concrete color view ids, as the framebuffer key lists them.
#[verifier::loop_isolation(false)]
fn build_color_view_ids(desc: &RenderPassDescriptor) -> (out: Vec<u64>)
    ensures
        out@ == spec_color_view_ids(*desc),
{
    let n = desc.color_attachments.len();
    let mut out: Vec<u64> = Vec::new();
    let mut i: usize = 0;
    while i < n
        invariant
            0 <= i <= n,
            out@.len() == i,
            forall|j: int| 0 <= j < i ==> out@[j] == desc.color_attachments@[j].attachment,
        decreases n - i,
    {
        out.push(desc.color_attachments[i].attachment);
        i = i + 1;
    }
    proof {
        assert(out@ =~= spec_color_view_ids(*desc));
    }
    out
}

/// The concrete resolve view ids, as the framebuffer key lists them.
#[verifier::loop_isolation(false)]
fn build_resolve_view_ids(desc: &RenderPassDescriptor) -> (out: Vec<u64>)
    requires
        spec_resolves_active(*desc),
        spec_resolves_complete(*desc),
    ensures
        out@ == spec_resolve_view_ids(*desc),
{
    let n = desc.color_attachments.len();
    let mut out: Vec<u64> = Vec::new();
    let mut i: usize = 0;
    while i < n
        invariant
            0 <= i <= n,
            out@.len() == i,
            forall|j: int| 0 <= j < i
                ==> out@[j] == desc.color_attachments@[j].resolve_target.unwrap(),
        decreases n - i,
    {
        proof {
            assert(desc.color_attachments@[i as int].resolve_target is Some);
        }
        out.push(desc.color_attachments[i].resolve_target.unwrap());
        i = i + 1;
    }
    proof {
        assert(out@ =~= spec_resolve_view_ids(*desc));
    }
    out
}

/// The color attachment formats, as the pass context lists them.
#[verifier::loop_isolation(false)]
fn build_color_formats(desc: &RenderPassDescriptor, views: &TextureViewRegistry) -> (out: Vec<
    TextureFormat,
>)
    requires
        desc_views_resolve(*desc, views@),
    ensures
        out@ == spec_color_formats(*desc, views@),
{
    let n = desc.color_attachments.len();
    let mut out: Vec<TextureFormat> = Vec::new();
    let mut i: usize = 0;
    while i < n
        invariant
            0 <= i <= n,
            out@.len() == i,
            forall|j: int| 0 <= j < i
                ==> out@[j] == views@[desc.color_attachments@[j].attachment].format,
        decreases n - i,
    {
        let info = view_of(views, desc.color_attachments[i].attachment);
        out.push(info.format);
        i = i + 1;
    }
    proof {
        assert(out@ =~= spec_color_formats(*desc, views@));
    }
    out
}

/// The resolve target formats, as the pass context lists them.
#[verifier::loop_isolation(false)]
fn build_resolve_formats(desc: &RenderPassDescriptor, views: &TextureViewRegistry) -> (out: Vec<
    TextureFormat,
>)
    requires
        desc_views_resolve(*desc, views@),
        spec_resolves_active(*desc),
        spec_resolves_complete(*desc),
    ensures
        out@ == spec_resolve_formats(*desc, views@),
{
    let n = desc.color_attachments.len();
    let mut out: Vec<TextureFormat> = Vec::new();
    let mut i: usize = 0;
    while i < n
        invariant
            0 <= i <= n,
            out@.len() == i,
            forall|j: int| 0 <= j < i
                ==> out@[j] == views@[desc.color_attachments@[j].resolve_target.unwrap()].format,
        decreases n - i,
    {
        proof {
            assert(desc.color_attachments@[i as int].resolve_target is Some);
        }
        let info = view_of(views, desc.color_attachments[i].resolve_target.unwrap());
        out.push(info.format);
        i = i + 1;
    }
    proof {
        assert(out@ =~= spec_resolve_formats(*desc, views@));
    }
    out
}

/// The buffer and texture barriers of one pipeline-barrier call, buffers
/// first, in transition order.
#[verifier::loop_isolation(false)]
fn barriers_of(
    buffer_transitions: &Vec<(u64, StateTransition)>,
    texture_transitions: &Vec<(u64, StateTransition)>,
) -> (out: Vec<Barrier>)
    ensures
        out@ == buffer_transitions@.map_values(
            |p: (u64, StateTransition)| Barrier::Buffer { id: p.0, transition: p.1 },
        ) + texture_transitions@.map_values(
            |p: (u64, StateTransition)| Barrier::Texture { id: p.0, transition: p.1 },
        ),
{
    let nb = buffer_transitions.len();
    let nt = texture_transitions.len();
    let mut out: Vec<Barrier> = Vec::new();
    let mut i: usize = 0;
    while i < nb
        invariant
            0 <= i <= nb,
            out@.len() == i,
            forall|j: int| 0 <= j < i ==> out@[j] == (Barrier::Buffer {
                id: buffer_transitions@[j].0,
                transition: buffer_transitions@[j].1,
            }),
        decreases nb - i,
    {
        let t = buffer_transitions[i];
        out.push(Barrier::Buffer { id: t.0, transition: t.1 });
        i = i + 1;
    }
    let mut i: usize = 0;
    while i < nt
        invariant
            0 <= i <= nt,
            out@.len() == nb + i,
            forall|j: int| 0 <= j < nb ==> out@[j] == (Barrier::Buffer {
                id: buffer_transitions@[j].0,
                transition: buffer_transitions@[j].1,
            }),
            forall|j: int| 0 <= j < i ==> out@[nb + j] == (Barrier::Texture {
                id: texture_transitions@[j].0,
                transition: texture_transitions@[j].1,
            }),
        decreases nt - i,
    {
        let t = texture_transitions[i];
        out.push(Barrier::Texture { id: t.0, transition: t.1 });
        i = i + 1;
    }
    proof {
        assert(out@ =~= buffer_transitions@.map_values(
            |p: (u64, StateTransition)| Barrier::Buffer { id: p.0, transition: p.1 },
        ) + texture_transitions@.map_values(
            |p: (u64, StateTransition)| Barrier::Texture { id: p.0, transition: p.1 },
        ));
    }
    out
}

/// Whether a begin-render-pass call must succeed.
pub open spec fn spec_begin_ok(
    cmb: CommandBuffer,
    device: Device,
    vmap: Map<u64, TextureViewInfo>,
    desc: RenderPassDescriptor,
    caller_thread: u64,
) -> bool {
    &&& caller_thread == cmb.thread_id
    &&& cmb.state == RecordingState::Open
    &&& spec_attachments_ok(desc, vmap)
    &&& !device.pool.exhausted(caller_thread)
}

/// The full-extent rectangle scissor and viewport are set to.
pub open spec fn spec_full_rect(desc: RenderPassDescriptor, vmap: Map<u64, TextureViewInfo>) -> Rect {
    Rect {
        x: 0,
        y: 0,
        w: spec_ref_extent(desc, vmap).width,
        h: spec_ref_extent(desc, vmap).height,
    }
}

/// Begins a render pass on the encoder.
///
/// The owning-thread check comes first, then the recording state, then the
/// attachment validations (every extent must equal the pass extent, and
/// resolve targets must be complete), then the pool.  On success a fresh
/// native buffer is begun; the one pipeline-barrier call holding exactly
/// the state transitions the tracker demands, the begin-pass command with
/// the cached (or newly assigned) render-pass and framebuffer objects and
/// the selected clear values, and the full-extent scissor and viewport are
/// recorded into it, and the pass handle owns it until the pass ends.
#[verifier::loop_isolation(false)]
#[verifier::rlimit(60)]
pub fn command_encoder_begin_render_pass(
    cmb: &mut CommandBuffer,
    device: &mut Device,
    views: &TextureViewRegistry,
    desc: &RenderPassDescriptor,
    caller_thread: u64,
) -> (r: Result<RenderPass, CommandError>)
    requires
        old(cmb).wf(),
        old(device).wf(),
        old(cmb).device_id == old(device).id,
        desc.color_attachments@.len() >= 1,
        desc_views_resolve(*desc, views@),
    ensures
        final(cmb).wf(),
        final(device).wf(),
        final(cmb).id == old(cmb).id,
        final(cmb).thread_id == old(cmb).thread_id,
        final(cmb).device_id == old(cmb).device_id,
        final(cmb).raw == old(cmb).raw,
        final(device).id == old(device).id,
        r is Ok <==> spec_begin_ok(*old(cmb), *old(device), views@, *desc, caller_thread),
        caller_thread != old(cmb).thread_id ==> r == Err::<RenderPass, CommandError>(
            CommandError::CrossThreadRecording,
        ) && *final(cmb) == *old(cmb) && *final(device) == *old(device),
        caller_thread == old(cmb).thread_id && old(cmb).state == RecordingState::Closed
            ==> r == Err::<RenderPass, CommandError>(CommandError::NotRecording)
                && *final(cmb) == *old(cmb) && *final(device) == *old(device),
        caller_thread == old(cmb).thread_id && old(cmb).state == RecordingState::PassActive
            ==> r == Err::<RenderPass, CommandError>(CommandError::PassInProgress)
                && *final(cmb) == *old(cmb) && *final(device) == *old(device),
        caller_thread == old(cmb).thread_id && old(cmb).state == RecordingState::Open
            && !spec_base_extents_ok(*desc, views@) ==> r == Err::<RenderPass, CommandError>(
            CommandError::ExtentMismatch,
        ) && *final(cmb) == *old(cmb) && *final(device) == *old(device),
        caller_thread == old(cmb).thread_id && old(cmb).state == RecordingState::Open
            && spec_base_extents_ok(*desc, views@) && !spec_resolves_complete(*desc)
            ==> r == Err::<RenderPass, CommandError>(CommandError::MissingResolveTarget)
                && *final(cmb) == *old(cmb) && *final(device) == *old(device),
        caller_thread == old(cmb).thread_id && old(cmb).state == RecordingState::Open
            && spec_base_extents_ok(*desc, views@) && spec_resolves_complete(*desc)
            && !spec_resolve_extents_ok(*desc, views@) ==> r == Err::<RenderPass, CommandError>(
            CommandError::ExtentMismatch,
        ) && *final(cmb) == *old(cmb) && *final(device) == *old(device),
        caller_thread == old(cmb).thread_id && old(cmb).state == RecordingState::Open
            && spec_attachments_ok(*desc, views@) && old(device).pool.exhausted(caller_thread)
            ==> r == Err::<RenderPass, CommandError>(CommandError::CreationFailed)
                && *final(cmb) == *old(cmb) && *final(device) == *old(device),
        spec_begin_ok(*old(cmb), *old(device), views@, *desc, caller_thread) ==> ({
            let vmap = views@;
            let t0 = old(cmb).trackers.textures@;
            let pass = r.unwrap();
            let rect = spec_full_rect(*desc, vmap);
            let ck = spec_color_keys(*desc, vmap);
            let dk = spec_ds_key(*desc, vmap);
            let rk = spec_resolve_keys(*desc, vmap);
            let cv = spec_color_view_ids(*desc);
            let dv = spec_ds_view_id(*desc);
            let rv: Option<Seq<u64>> = if spec_resolves_active(*desc) {
                Some(spec_resolve_view_ids(*desc))
            } else {
                None
            };
            &&& old(device).pool.free_list(caller_thread).len() > 0 ==> pass.cmd_buf.id == old(
                device,
            ).pool.free_list(caller_thread).last() && final(device).pool.free_list(caller_thread)
                == old(device).pool.free_list(caller_thread).drop_last()
                && final(device).pool.issued() == old(device).pool.issued()
            &&& old(device).pool.free_list(caller_thread).len() == 0 ==> pass.cmd_buf.id == old(
                device,
            ).pool.issued() && final(device).pool.issued() == old(device).pool.issued() + 1
                && final(device).pool.free_list(caller_thread) == old(device).pool.free_list(
                caller_thread,
            )
            &&& forall|t: u64| t != caller_thread ==> final(device).pool.free_list(t) == old(
                device,
            ).pool.free_list(t)
            &&& final(device).pool.capacity() == old(device).pool.capacity()
            &&& pass.cmd_buf.commands@.len() == 5
            &&& pass.cmd_buf.commands@[0] == Command::Begin
            &&& (pass.cmd_buf.commands@[1] matches Command::PipelineBarrier { barriers }
                && barriers@ == spec_barriers(*desc, vmap, t0))
            &&& (pass.cmd_buf.commands@[2] matches Command::BeginRenderPass {
                render_pass,
                framebuffer,
                rect: r2,
                clear_values,
            } && render_pass == pass.render_pass && framebuffer == pass.framebuffer && r2 == rect
                && clear_values@ == spec_clear_values(*desc, vmap))
            &&& pass.cmd_buf.commands@[3] == (Command::SetScissor { rect })
            &&& pass.cmd_buf.commands@[4] == (Command::SetViewport { rect })
            &&& pass.parent_id == old(cmb).id
            &&& pass.index_state == (IndexState {
                bound_buffer_view: None,
                format: IndexFormat::Uint16,
            })
            &&& pass.context.colors@ == spec_color_formats(*desc, vmap)
            &&& pass.context.depth_stencil == spec_ds_format(*desc, vmap)
            &&& (pass.context.resolves is Some <==> spec_resolves_active(*desc))
            &&& (spec_resolves_active(*desc) ==> pass.context.resolves.unwrap()@
                == spec_resolve_formats(*desc, vmap))
            &&& (crate::cache::rp_lookup_v(old(device).render_passes@, ck, dk, rk) matches Some(id)
                ==> pass.render_pass == id && !pass.render_pass_created
                    && final(device).render_passes@ == old(device).render_passes@)
            &&& (crate::cache::rp_lookup_v(old(device).render_passes@, ck, dk, rk) is None ==> {
                &&& pass.render_pass == old(device).render_passes@.len() as u64
                &&& pass.render_pass_created
                &&& final(device).render_passes@.len() == old(device).render_passes@.len() + 1
                &&& final(device).render_passes@.drop_last() == old(device).render_passes@
                &&& crate::cache::rp_key_matches_v(final(device).render_passes@.last().0, ck, dk, rk)
                &&& final(device).render_passes@.last().1 == pass.render_pass
            })
            &&& (crate::cache::fb_lookup_v(old(device).framebuffers@, cv, dv, rv) matches Some(id)
                ==> pass.framebuffer == id && !pass.framebuffer_created
                    && final(device).framebuffers@ == old(device).framebuffers@)
            &&& (crate::cache::fb_lookup_v(old(device).framebuffers@, cv, dv, rv) is None ==> {
                &&& pass.framebuffer == old(device).framebuffers@.len() as u64
                &&& pass.framebuffer_created
                &&& final(device).framebuffers@.len() == old(device).framebuffers@.len() + 1
                &&& final(device).framebuffers@.drop_last() == old(device).framebuffers@
                &&& crate::cache::fb_key_matches_v(final(device).framebuffers@.last().0, cv, dv, rv)
                &&& final(device).framebuffers@.last().1 == pass.framebuffer
            })
            &&& final(cmb).trackers.textures@ == t0.union_prefer_right(
                map_after_requires(Map::empty(), spec_required_seq(*desc, vmap)),
            )
            &&& final(cmb).trackers.buffers@ == old(cmb).trackers.buffers@
            &&& final(cmb).trackers.views@ == map_after_requires(
                Map::empty(),
                spec_view_seq(*desc),
            ).union_prefer_right(old(cmb).trackers.views@)
            &&& final(cmb).swap_chain_links@ == old(cmb).swap_chain_links@ + spec_swap_links(
                *desc,
                vmap,
            )
            &&& final(cmb).state == RecordingState::PassActive
        }),
{
    if caller_thread != cmb.thread_id {
        return Err(CommandError::CrossThreadRecording);
    }
    match cmb.state {
        RecordingState::Closed => {
            return Err(CommandError::NotRecording);
        }
        RecordingState::PassActive => {
            return Err(CommandError::PassInProgress);
        }
        RecordingState::Open => {}
    }
    let extent = match validate_attachments(desc, views) {
        Ok(e) => e,
        Err(e) => {
            return Err(e);
        }
    };
    let raw_id = match device.pool.acquire(caller_thread) {
        Ok(id) => id,
        Err(e) => {
            return Err(e);
        }
    };
    let mut cmd_buf = NativeCommandBuffer { id: raw_id, commands: Vec::new() };
    cmd_buf.commands.push(Command::Begin);

    let ghost t0 = cmb.trackers.textures@;

    // Assemble the structural render-pass key against the tracked state
    // before the pass.
    let color_keys = build_color_keys(desc, views);
    let ds_key = build_ds_key(desc, views);
    let resolving = desc.color_attachments[0].resolve_target.is_some();
    let resolve_keys: Option<Vec<AttachmentKey>> = if resolving {
        Some(build_resolve_keys(desc, views))
    } else {
        None
    };

    // Reconcile the pass's required states with the running tracker and
    // synthesize the barriers, buffers and textures together in one call.
    let head_textures = build_required_textures(desc, views);
    let head_views = build_referenced_views(desc, views);
    let empty_head = Tracker::new();
    let buffer_transitions = cmb.trackers.buffers.consume_by_replace(&empty_head, Stitch::Init);
    let texture_transitions = cmb.trackers.textures.consume_by_replace(&head_textures, Stitch::Init);
    cmb.trackers.views.consume_by_extend(&head_views);
    proof {
        assert(buffer_transitions@ =~= Seq::<(u64, StateTransition)>::empty());
        assert(cmb.trackers.buffers@ =~= old(cmb).trackers.buffers@);
        assert(texture_transitions@ == spec_texture_transitions(*desc, views@, t0));
    }
    let barriers = barriers_of(&buffer_transitions, &texture_transitions);
    proof {
        assert(buffer_transitions@.map_values(
            |p: (u64, StateTransition)| Barrier::Buffer { id: p.0, transition: p.1 },
        ) =~= Seq::<Barrier>::empty());
        assert(barriers@ =~= spec_barriers(*desc, views@, t0));
    }
    cmd_buf.commands.push(Command::PipelineBarrier { barriers });

    // Look up or create the compiled render pass and the framebuffer.
    let rp_key = RenderPassKey { colors: color_keys, depth_stencil: ds_key, resolves: resolve_keys };
    proof {
        crate::cache::lemma_rp_lookup_is_lookup_v(
            device.render_passes@,
            rp_key,
            spec_color_keys(*desc, views@),
            spec_ds_key(*desc, views@),
            spec_resolve_keys(*desc, views@),
        );
    }
    let (rp_id, rp_created) = device.render_passes.get_or_create(rp_key);
    let color_ids = build_color_view_ids(desc);
    let ds_id = match &desc.depth_stencil_attachment {
        Some(at) => Some(at.attachment),
        None => None,
    };
    let resolve_ids: Option<Vec<u64>> = if resolving {
        Some(build_resolve_view_ids(desc))
    } else {
        None
    };
    let fb_key = FramebufferKey { colors: color_ids, depth_stencil: ds_id, resolves: resolve_ids };
    proof {
        crate::cache::lemma_fb_lookup_is_lookup_v(
            device.framebuffers@,
            fb_key,
            spec_color_view_ids(*desc),
            spec_ds_view_id(*desc),
            if spec_resolves_active(*desc) {
                Some(spec_resolve_view_ids(*desc))
            } else {
                None
            },
        );
    }
    let (fb_id, fb_created) = device.framebuffers.get_or_create(fb_key);

    // Record the pass opening and the full-extent scissor and viewport.
    let rect = Rect { x: 0, y: 0, w: extent.width, h: extent.height };
    let clear_values = build_clear_values(desc, views);
    cmd_buf.commands.push(Command::BeginRenderPass {
        render_pass: rp_id,
        framebuffer: fb_id,
        rect,
        clear_values,
    });
    cmd_buf.commands.push(Command::SetScissor { rect });
    cmd_buf.commands.push(Command::SetViewport { rect });

    append_swap_links(&mut cmb.swap_chain_links, desc, views);
    cmb.state = RecordingState::PassActive;

    let resolve_formats: Option<Vec<TextureFormat>> = if resolving {
        Some(build_resolve_formats(desc, views))
    } else {
        None
    };
    let context = RenderPassContext {
        colors: build_color_formats(desc, views),
        depth_stencil: match &desc.depth_stencil_attachment {
            Some(at) => Some(view_of(views, at.attachment).format),
            None => None,
        },
        resolves: resolve_formats,
    };
    Ok(RenderPass {
        cmd_buf,
        parent_id: cmb.id,
        context,
        index_state: IndexState { bound_buffer_view: None, format: IndexFormat::Uint16 },
        render_pass: rp_id,
        framebuffer: fb_id,
        render_pass_created: rp_created,
        framebuffer_created: fb_created,
    })
}

/// Reconciles a command buffer's running tracker set with the state a
/// completed pass requires and records the resulting barriers: buffer and
/// texture transitions are synthesized separately but issued together in
/// one pipeline-barrier call covering every stage, and attachment views are
/// merely marked as referenced.
pub fn insert_barriers(
    raw: &mut NativeCommandBuffer,
    base: &mut TrackerSet,
    head: &TrackerSet,
    stitch: Stitch,
)
    requires
        old(base).wf(),
        head.wf(),
    ensures
        final(base).wf(),
        final(base).buffers@ == old(base).buffers@.union_prefer_right(head.buffers@),
        final(base).textures@ == old(base).textures@.union_prefer_right(head.textures@),
        final(base).views@ == head.views@.union_prefer_right(old(base).views@),
        final(raw).id == old(raw).id,
        final(raw).commands@.len() == old(raw).commands@.len() + 1,
        final(raw).commands@.drop_last() == old(raw).commands@,
        (final(raw).commands@.last() matches Command::PipelineBarrier { barriers }
            && barriers@ == merge_transitions(
                old(base).buffers@,
                head.buffers.ids_in_order(),
                head.buffers@,
                stitch,
            ).map_values(
                |p: (u64, StateTransition)| Barrier::Buffer { id: p.0, transition: p.1 },
            ) + merge_transitions(
                old(base).textures@,
                head.textures.ids_in_order(),
                head.textures@,
                stitch,
            ).map_values(
                |p: (u64, StateTransition)| Barrier::Texture { id: p.0, transition: p.1 },
            )),
{
    let buffer_transitions = base.buffers.consume_by_replace(&head.buffers, stitch);
    let texture_transitions = base.textures.consume_by_replace(&head.textures, stitch);
    base.views.consume_by_extend(&head.views);
    let barriers = barriers_of(&buffer_transitions, &texture_transitions);
    raw.commands.push(Command::PipelineBarrier { barriers });
    proof {
        assert(raw.commands@.drop_last() =~= old(raw).commands@);
    }
}

} // verus!
