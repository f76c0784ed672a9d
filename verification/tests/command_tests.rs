use wgpu_command::cache::{
    AttachmentKey, AttachmentOps, FramebufferCache, FramebufferKey, Layout, RenderPassCache,
    RenderPassKey, StencilOps,
};
use wgpu_command::encoder::{
    command_encoder_begin_compute_pass, command_encoder_begin_render_pass, command_encoder_finish,
    end_compute_pass, end_render_pass, insert_barriers, Barrier, Command, CommandBuffer,
    CommandError, CommandPool, Device, NativeCommandBuffer, RecordingState,
    RenderPassColorAttachmentDescriptor, RenderPassDepthStencilAttachmentDescriptor,
    RenderPassDescriptor, SwapChainLink, TextureViewInfo, TextureViewRegistry,
};
use wgpu_command::format::{
    color_clear_value, depth_stencil_clear_value, ClearColor, ClearValue, Color, Extent, LoadOp,
    Rect, StoreOp, TextureFormat,
};
use wgpu_command::track::{ResourceUsage, StateTransition, Stitch, Tracker, TrackerSet};

fn color(r: f32, g: f32, b: f32, a: f32) -> Color {
    Color { r: r.to_bits(), g: g.to_bits(), b: b.to_bits(), a: a.to_bits() }
}

fn view(id: u64, texture_id: u64, format: TextureFormat, w: u32, h: u32) -> TextureViewInfo {
    TextureViewInfo {
        id,
        texture_id,
        format,
        samples: 1,
        extent: Extent { width: w, height: h },
        swap_chain_link: None,
    }
}

fn color_attachment(attachment: u64) -> RenderPassColorAttachmentDescriptor {
    RenderPassColorAttachmentDescriptor {
        attachment,
        resolve_target: None,
        load_op: LoadOp::Clear,
        store_op: StoreOp::Store,
        clear_color: color(0.0, 0.0, 0.0, 1.0),
    }
}

#[test]
fn query_defaults_to_undefined() {
    let mut t = Tracker::new();
    assert_eq!(t.query(9, ResourceUsage::Undefined), ResourceUsage::Undefined);
    let mut t2 = Tracker::new();
    t2.require(2, ResourceUsage::TransferDst);
    assert_eq!(t2.query(2, ResourceUsage::Undefined), ResourceUsage::TransferDst);
    assert_eq!(t.current_state(9), ResourceUsage::Undefined);
}

#[test]
fn same_state_yields_zero_barriers() {
    let mut base = Tracker::new();
    base.require(1, ResourceUsage::ColorAttachment);
    let mut head = Tracker::new();
    head.require(1, ResourceUsage::ColorAttachment);
    let out = base.consume_by_replace(&head, Stitch::Last);
    assert!(out.is_empty());
}

#[test]
fn changed_state_yields_exactly_one_barrier() {
    let mut base = Tracker::new();
    base.require(1, ResourceUsage::TransferDst);
    let mut head = Tracker::new();
    head.require(1, ResourceUsage::ColorAttachment);
    let out = base.consume_by_replace(&head, Stitch::Last);
    assert_eq!(out.len(), 1);
    assert_eq!(out[0].0, 1);
    assert_eq!(
        out[0].1,
        StateTransition { start: ResourceUsage::TransferDst, end: ResourceUsage::ColorAttachment }
    );
    assert_eq!(base.current_state(1), ResourceUsage::ColorAttachment);
}

#[test]
fn first_use_under_init_yields_no_barrier() {
    let mut base = Tracker::new();
    let mut head = Tracker::new();
    head.require(1, ResourceUsage::ColorAttachment);
    let out = base.consume_by_replace(&head, Stitch::Init);
    assert!(out.is_empty());
    assert_eq!(base.current_state(1), ResourceUsage::ColorAttachment);
}

#[test]
fn first_use_under_last_transitions_out_of_undefined() {
    let mut base = Tracker::new();
    let mut head = Tracker::new();
    head.require(1, ResourceUsage::ColorAttachment);
    let out = base.consume_by_replace(&head, Stitch::Last);
    assert_eq!(out.len(), 1);
    assert_eq!(
        out[0].1,
        StateTransition { start: ResourceUsage::Undefined, end: ResourceUsage::ColorAttachment }
    );
}

#[test]
fn merge_emits_in_head_registration_order() {
    let mut base = Tracker::new();
    base.require(3, ResourceUsage::TransferSrc);
    base.require(1, ResourceUsage::TransferDst);
    base.require(2, ResourceUsage::ShaderRead);
    let mut head = Tracker::new();
    head.require(3, ResourceUsage::ColorAttachment);
    head.require(1, ResourceUsage::ColorAttachment);
    head.require(2, ResourceUsage::ColorAttachment);
    let out = base.consume_by_replace(&head, Stitch::Last);
    let ids: Vec<u64> = out.iter().map(|p| p.0).collect();
    assert_eq!(ids, vec![3, 1, 2]);
}

#[test]
fn extend_marks_views_without_transitions() {
    let mut base = Tracker::new();
    base.require(5, ResourceUsage::ShaderRead);
    let mut head = Tracker::new();
    head.require(5, ResourceUsage::Undefined);
    head.require(6, ResourceUsage::Undefined);
    base.consume_by_extend(&head);
    assert_eq!(base.current_state(5), ResourceUsage::ShaderRead);
    assert_eq!(base.current_state(6), ResourceUsage::Undefined);
}

#[test]
fn pool_reuses_recycled_buffers() {
    let mut pool = CommandPool::new(10);
    let a = pool.acquire(1).unwrap();
    assert_eq!(a, 0);
    pool.recycle(1, a);
    assert_eq!(pool.acquire(1).unwrap(), 0);
    assert_eq!(pool.acquire(1).unwrap(), 1);
}

#[test]
fn pool_exhaustion_reports_creation_failed() {
    let mut pool = CommandPool::new(1);
    assert_eq!(pool.acquire(1).unwrap(), 0);
    assert_eq!(pool.acquire(1), Err(CommandError::CreationFailed));
}

fn simple_rp_key(format: TextureFormat) -> RenderPassKey {
    RenderPassKey {
        colors: vec![AttachmentKey {
            format,
            samples: 1,
            ops: AttachmentOps { load: LoadOp::Clear, store: StoreOp::Store },
            stencil_ops: StencilOps::DontCare,
            initial_layout: Layout::General,
            final_layout: Layout::General,
        }],
        depth_stencil: None,
        resolves: None,
    }
}

#[test]
fn render_pass_cache_shares_structurally_equal_keys() {
    let mut cache = RenderPassCache::new();
    let (id1, created1) = cache.get_or_create(simple_rp_key(TextureFormat::Rgba8Unorm));
    let (id2, created2) = cache.get_or_create(simple_rp_key(TextureFormat::Rgba8Unorm));
    assert!(created1);
    assert!(!created2);
    assert_eq!(id1, id2);
    let (id3, created3) = cache.get_or_create(simple_rp_key(TextureFormat::Bgra8Unorm));
    assert!(created3);
    assert_ne!(id1, id3);
    assert_eq!(cache.len(), 2);
}

#[test]
fn framebuffer_cache_distinguishes_view_sets() {
    let mut cache = FramebufferCache::new();
    let key_a = FramebufferKey { colors: vec![7], depth_stencil: None, resolves: None };
    let key_a2 = FramebufferKey { colors: vec![7], depth_stencil: None, resolves: None };
    let key_b = FramebufferKey { colors: vec![8], depth_stencil: None, resolves: None };
    let (ia, ca) = cache.get_or_create(key_a);
    let (ia2, ca2) = cache.get_or_create(key_a2);
    let (ib, cb) = cache.get_or_create(key_b);
    assert!(ca && !ca2 && cb);
    assert_eq!(ia, ia2);
    assert_ne!(ia, ib);
}

#[test]
fn integer_formats_select_integer_clear_variants() {
    let c = color(0.5, 0.25, 0.0, 1.0);
    assert_eq!(
        color_clear_value(LoadOp::Clear, TextureFormat::Rgba8Sint, c),
        Some(ClearValue::Color(ClearColor::Int(c)))
    );
    assert_eq!(
        color_clear_value(LoadOp::Clear, TextureFormat::Rgba8Uint, c),
        Some(ClearValue::Color(ClearColor::Uint(c)))
    );
    assert_eq!(
        color_clear_value(LoadOp::Clear, TextureFormat::Rgba8Unorm, c),
        Some(ClearValue::Color(ClearColor::Float(c)))
    );
    assert_eq!(
        color_clear_value(LoadOp::Clear, TextureFormat::Rgba8UnormSrgb, c),
        Some(ClearValue::Color(ClearColor::Float(c)))
    );
    assert_eq!(color_clear_value(LoadOp::Load, TextureFormat::Rgba8Sint, c), None);
}

#[test]
fn depth_stencil_clear_contributed_unless_both_load() {
    let bits = 1.0f32.to_bits();
    assert_eq!(depth_stencil_clear_value(LoadOp::Load, LoadOp::Load, bits, 3), None);
    assert!(depth_stencil_clear_value(LoadOp::Clear, LoadOp::Load, bits, 3).is_some());
    assert!(depth_stencil_clear_value(LoadOp::Load, LoadOp::Clear, bits, 3).is_some());
}

#[test]
fn finish_closes_encoder_exactly_once() {
    let mut cmb = CommandBuffer::new(42, 1, 11, 0);
    assert_eq!(command_encoder_finish(&mut cmb, 11), Ok(42));
    assert_eq!(cmb.state, RecordingState::Closed);
    assert_eq!(command_encoder_finish(&mut cmb, 11), Err(CommandError::NotRecording));
}

#[test]
fn cross_thread_recording_rejected() {
    let mut cmb = CommandBuffer::new(42, 1, 11, 0);
    assert_eq!(command_encoder_finish(&mut cmb, 12), Err(CommandError::CrossThreadRecording));
    assert!(matches!(
        command_encoder_begin_compute_pass(&mut cmb, 12),
        Err(CommandError::CrossThreadRecording)
    ));
    let mut device = Device::new(1, 8);
    let mut views = TextureViewRegistry::new();
    views.register(view(7, 100, TextureFormat::Rgba8Unorm, 64, 48));
    let desc = RenderPassDescriptor {
        color_attachments: vec![color_attachment(7)],
        depth_stencil_attachment: None,
    };
    assert!(matches!(
        command_encoder_begin_render_pass(&mut cmb, &mut device, &views, &desc, 12),
        Err(CommandError::CrossThreadRecording)
    ));
    assert_eq!(cmb.state, RecordingState::Open);
}

#[test]
fn compute_pass_owns_the_active_buffer() {
    let mut cmb = CommandBuffer::new(42, 1, 11, 5);
    let pass = command_encoder_begin_compute_pass(&mut cmb, 11).unwrap();
    assert_eq!(pass.cmd_buf.id, 5);
    assert_eq!(pass.parent_id, 42);
    assert!(matches!(
        command_encoder_begin_compute_pass(&mut cmb, 11),
        Err(CommandError::PassInProgress)
    ));
    end_compute_pass(&mut cmb, pass, 11);
    assert_eq!(cmb.state, RecordingState::Open);
    assert_eq!(command_encoder_finish(&mut cmb, 11), Ok(42));
}

#[test]
fn first_render_pass_clears_without_barriers() {
    let mut device = Device::new(1, 8);
    let mut views = TextureViewRegistry::new();
    views.register(view(7, 100, TextureFormat::Rgba8Unorm, 64, 48));
    let mut cmb = CommandBuffer::new(42, 1, 11, 0);
    let desc = RenderPassDescriptor {
        color_attachments: vec![color_attachment(7)],
        depth_stencil_attachment: None,
    };
    let pass = command_encoder_begin_render_pass(&mut cmb, &mut device, &views, &desc, 11).unwrap();

    assert!(pass.render_pass_created);
    assert!(pass.framebuffer_created);
    assert_eq!(device.render_passes.len(), 1);
    assert_eq!(device.framebuffers.len(), 1);

    let expected_rect = Rect { x: 0, y: 0, w: 64, h: 48 };
    assert_eq!(pass.cmd_buf.commands.len(), 5);
    assert_eq!(pass.cmd_buf.commands[0], Command::Begin);
    match &pass.cmd_buf.commands[1] {
        Command::PipelineBarrier { barriers } => assert!(barriers.is_empty()),
        other => panic!("expected a pipeline barrier, got {:?}", other),
    }
    match &pass.cmd_buf.commands[2] {
        Command::BeginRenderPass { render_pass, framebuffer, rect, clear_values } => {
            assert_eq!(*render_pass, pass.render_pass);
            assert_eq!(*framebuffer, pass.framebuffer);
            assert_eq!(*rect, expected_rect);
            assert_eq!(
                clear_values,
                &vec![ClearValue::Color(ClearColor::Float(color(0.0, 0.0, 0.0, 1.0)))]
            );
        }
        other => panic!("expected begin-render-pass, got {:?}", other),
    }
    assert_eq!(pass.cmd_buf.commands[3], Command::SetScissor { rect: expected_rect });
    assert_eq!(pass.cmd_buf.commands[4], Command::SetViewport { rect: expected_rect });
    assert_eq!(cmb.state, RecordingState::PassActive);
    assert_eq!(pass.context.colors, vec![TextureFormat::Rgba8Unorm]);
}

#[test]
fn repeated_render_pass_hits_caches_and_needs_no_barrier() {
    let mut device = Device::new(1, 8);
    let mut views = TextureViewRegistry::new();
    views.register(view(7, 100, TextureFormat::Rgba8Unorm, 64, 48));
    let mut cmb = CommandBuffer::new(42, 1, 11, 0);
    let desc = RenderPassDescriptor {
        color_attachments: vec![color_attachment(7)],
        depth_stencil_attachment: None,
    };
    let pass = command_encoder_begin_render_pass(&mut cmb, &mut device, &views, &desc, 11).unwrap();
    let first_rp = pass.render_pass;
    let first_fb = pass.framebuffer;
    end_render_pass(&mut cmb, pass, 11);

    let desc2 = RenderPassDescriptor {
        color_attachments: vec![color_attachment(7)],
        depth_stencil_attachment: None,
    };
    let pass2 =
        command_encoder_begin_render_pass(&mut cmb, &mut device, &views, &desc2, 11).unwrap();
    assert!(!pass2.render_pass_created);
    assert!(!pass2.framebuffer_created);
    assert_eq!(pass2.render_pass, first_rp);
    assert_eq!(pass2.framebuffer, first_fb);
    // The prior pass left the texture as a color attachment, so no
    // transition is needed to use it as one again.
    match &pass2.cmd_buf.commands[1] {
        Command::PipelineBarrier { barriers } => assert!(barriers.is_empty()),
        other => panic!("expected a pipeline barrier, got {:?}", other),
    }
}

#[test]
fn render_pass_transitions_texture_out_of_prior_usage() {
    let mut device = Device::new(1, 8);
    let mut views = TextureViewRegistry::new();
    views.register(view(7, 100, TextureFormat::Rgba8Unorm, 64, 48));
    let mut cmb = CommandBuffer::new(42, 1, 11, 0);
    // The texture was last used as a transfer destination in this buffer.
    cmb.trackers.textures.require(100, ResourceUsage::TransferDst);
    let desc = RenderPassDescriptor {
        color_attachments: vec![color_attachment(7)],
        depth_stencil_attachment: None,
    };
    let pass = command_encoder_begin_render_pass(&mut cmb, &mut device, &views, &desc, 11).unwrap();
    match &pass.cmd_buf.commands[1] {
        Command::PipelineBarrier { barriers } => {
            assert_eq!(
                barriers,
                &vec![Barrier::Texture {
                    id: 100,
                    transition: StateTransition {
                        start: ResourceUsage::TransferDst,
                        end: ResourceUsage::ColorAttachment,
                    },
                }]
            );
        }
        other => panic!("expected a pipeline barrier, got {:?}", other),
    }
}

#[test]
fn structurally_equal_passes_share_one_compiled_object() {
    let mut device = Device::new(1, 8);
    let mut views = TextureViewRegistry::new();
    views.register(view(7, 100, TextureFormat::Rgba8Unorm, 64, 48));
    views.register(view(8, 101, TextureFormat::Rgba8Unorm, 64, 48));
    let mut cmb = CommandBuffer::new(42, 1, 11, 0);
    let desc_a = RenderPassDescriptor {
        color_attachments: vec![color_attachment(7)],
        depth_stencil_attachment: None,
    };
    let pass_a =
        command_encoder_begin_render_pass(&mut cmb, &mut device, &views, &desc_a, 11).unwrap();
    let rp_a = pass_a.render_pass;
    let fb_a = pass_a.framebuffer;
    end_render_pass(&mut cmb, pass_a, 11);
    let desc_b = RenderPassDescriptor {
        color_attachments: vec![color_attachment(8)],
        depth_stencil_attachment: None,
    };
    let pass_b =
        command_encoder_begin_render_pass(&mut cmb, &mut device, &views, &desc_b, 11).unwrap();
    // Same attachment shape: the compiled render pass is shared; the
    // concrete views differ, so the framebuffer is not.
    assert!(!pass_b.render_pass_created);
    assert_eq!(pass_b.render_pass, rp_a);
    assert!(pass_b.framebuffer_created);
    assert_ne!(pass_b.framebuffer, fb_a);
}

#[test]
fn extent_mismatch_rejected() {
    let mut device = Device::new(1, 8);
    let mut views = TextureViewRegistry::new();
    views.register(view(7, 100, TextureFormat::Rgba8Unorm, 64, 48));
    views.register(view(8, 101, TextureFormat::Rgba8Unorm, 32, 32));
    let mut cmb = CommandBuffer::new(42, 1, 11, 0);
    let desc = RenderPassDescriptor {
        color_attachments: vec![color_attachment(7), color_attachment(8)],
        depth_stencil_attachment: None,
    };
    assert!(matches!(
        command_encoder_begin_render_pass(&mut cmb, &mut device, &views, &desc, 11),
        Err(CommandError::ExtentMismatch)
    ));
    assert_eq!(cmb.state, RecordingState::Open);
    assert_eq!(device.render_passes.len(), 0);
}

#[test]
fn depth_stencil_extent_establishes_the_reference() {
    let mut device = Device::new(1, 8);
    let mut views = TextureViewRegistry::new();
    views.register(view(7, 100, TextureFormat::Rgba8Unorm, 64, 48));
    views.register(view(9, 102, TextureFormat::D32FloatS8Uint, 32, 32));
    let mut cmb = CommandBuffer::new(42, 1, 11, 0);
    let desc = RenderPassDescriptor {
        color_attachments: vec![color_attachment(7)],
        depth_stencil_attachment: Some(RenderPassDepthStencilAttachmentDescriptor {
            attachment: 9,
            depth_load_op: LoadOp::Clear,
            depth_store_op: StoreOp::Store,
            clear_depth: 1.0f32.to_bits(),
            stencil_load_op: LoadOp::Load,
            stencil_store_op: StoreOp::Store,
            clear_stencil: 0,
        }),
    };
    // The depth-stencil attachment is processed first and sets 32x32; the
    // 64x48 color attachment then mismatches.
    assert!(matches!(
        command_encoder_begin_render_pass(&mut cmb, &mut device, &views, &desc, 11),
        Err(CommandError::ExtentMismatch)
    ));
}

#[test]
fn missing_resolve_target_rejected() {
    let mut device = Device::new(1, 8);
    let mut views = TextureViewRegistry::new();
    views.register(view(7, 100, TextureFormat::Rgba8Unorm, 64, 48));
    views.register(view(8, 101, TextureFormat::Rgba8Unorm, 64, 48));
    views.register(view(9, 102, TextureFormat::Rgba8Unorm, 64, 48));
    let mut cmb = CommandBuffer::new(42, 1, 11, 0);
    let mut first = color_attachment(7);
    first.resolve_target = Some(9);
    let desc = RenderPassDescriptor {
        color_attachments: vec![first, color_attachment(8)],
        depth_stencil_attachment: None,
    };
    assert!(matches!(
        command_encoder_begin_render_pass(&mut cmb, &mut device, &views, &desc, 11),
        Err(CommandError::MissingResolveTarget)
    ));
}

#[test]
fn begin_render_pass_after_finish_rejected() {
    let mut device = Device::new(1, 8);
    let mut views = TextureViewRegistry::new();
    views.register(view(7, 100, TextureFormat::Rgba8Unorm, 64, 48));
    let mut cmb = CommandBuffer::new(42, 1, 11, 0);
    command_encoder_finish(&mut cmb, 11).unwrap();
    let desc = RenderPassDescriptor {
        color_attachments: vec![color_attachment(7)],
        depth_stencil_attachment: None,
    };
    assert!(matches!(
        command_encoder_begin_render_pass(&mut cmb, &mut device, &views, &desc, 11),
        Err(CommandError::NotRecording)
    ));
}

#[test]
fn exhausted_pool_fails_pass_creation() {
    let mut device = Device::new(1, 0);
    let mut views = TextureViewRegistry::new();
    views.register(view(7, 100, TextureFormat::Rgba8Unorm, 64, 48));
    let mut cmb = CommandBuffer::new(42, 1, 11, 0);
    let desc = RenderPassDescriptor {
        color_attachments: vec![color_attachment(7)],
        depth_stencil_attachment: None,
    };
    assert!(matches!(
        command_encoder_begin_render_pass(&mut cmb, &mut device, &views, &desc, 11),
        Err(CommandError::CreationFailed)
    ));
}

#[test]
fn swap_chain_links_recorded_on_first_use() {
    let mut device = Device::new(1, 8);
    let mut views = TextureViewRegistry::new();
    let link = SwapChainLink { swap_chain_id: 3, epoch: 17, image_index: 2 };
    let mut info = view(7, 100, TextureFormat::Bgra8Unorm, 64, 48);
    info.swap_chain_link = Some(link);
    views.register(info);
    let mut cmb = CommandBuffer::new(42, 1, 11, 0);
    let desc = RenderPassDescriptor {
        color_attachments: vec![color_attachment(7)],
        depth_stencil_attachment: None,
    };
    command_encoder_begin_render_pass(&mut cmb, &mut device, &views, &desc, 11).unwrap();
    assert_eq!(cmb.swap_chain_links, vec![link]);
}

#[test]
fn insert_barriers_records_one_pipeline_barrier() {
    let mut raw = NativeCommandBuffer { id: 0, commands: Vec::new() };
    let mut base = TrackerSet::new();
    base.buffers.require(1, ResourceUsage::TransferSrc);
    base.textures.require(2, ResourceUsage::ShaderRead);
    let mut head = TrackerSet::new();
    head.buffers.require(1, ResourceUsage::TransferDst);
    head.textures.require(2, ResourceUsage::ColorAttachment);
    head.views.require(5, ResourceUsage::Undefined);
    insert_barriers(&mut raw, &mut base, &head, Stitch::Last);
    assert_eq!(raw.commands.len(), 1);
    match &raw.commands[0] {
        Command::PipelineBarrier { barriers } => {
            assert_eq!(
                barriers,
                &vec![
                    Barrier::Buffer {
                        id: 1,
                        transition: StateTransition {
                            start: ResourceUsage::TransferSrc,
                            end: ResourceUsage::TransferDst,
                        },
                    },
                    Barrier::Texture {
                        id: 2,
                        transition: StateTransition {
                            start: ResourceUsage::ShaderRead,
                            end: ResourceUsage::ColorAttachment,
                        },
                    },
                ]
            );
        }
        other => panic!("expected a pipeline barrier, got {:?}", other),
    }
    assert_eq!(base.views.current_state(5), ResourceUsage::Undefined);
}

#[test]
fn init_merge_mixes_first_use_and_transitions() {
    let mut base = Tracker::new();
    base.require(1, ResourceUsage::TransferDst);
    let mut head = Tracker::new();
    head.require(1, ResourceUsage::ColorAttachment);
    head.require(2, ResourceUsage::ColorAttachment);
    let out = base.consume_by_replace(&head, Stitch::Init);
    // Resource 1 changes state; resource 2 is first seen and needs nothing.
    assert_eq!(out.len(), 1);
    assert_eq!(out[0].0, 1);
    assert_eq!(base.current_state(2), ResourceUsage::ColorAttachment);
}

#[test]
fn pool_free_lists_are_per_thread() {
    let mut pool = CommandPool::new(10);
    let a = pool.acquire(1).unwrap();
    pool.recycle(1, a);
    // Thread 2 cannot reuse thread 1's recycled buffer.
    assert_eq!(pool.acquire(2).unwrap(), 1);
    assert_eq!(pool.acquire(1).unwrap(), a);
}
