use render_core::attachment::{
    map_load_store_ops, texture_layout, AttachmentLoadOp, AttachmentOps, AttachmentStoreOp,
    ImageLayout, RenderPassColorAttachmentDescriptor, RenderPassColorAttachmentDescriptorBase,
    RenderPassDepthStencilAttachmentDescriptor, RenderPassDepthStencilAttachmentDescriptorBase,
};
use render_core::backend::{BackendCall, ClearValue, FramebufferRef};
use render_core::binder::{BindGroupPair, Binder, LayoutChange};
use render_core::cache::ObjectCache;
use render_core::command::{
    begin_render_pass, end_pass, run_render_pass, CommandBuffer, Global, StandaloneRenderPass,
    DEPTH_ONE_BITS,
};
use render_core::pass::{MissingUsage, RenderCommand, RenderPass, RenderPassError};
use render_core::resource::{
    BindGroup, Buffer, PipelineLayout, RenderPassContext, RenderPipeline, Resources, Texture,
    TextureView, ViewSource,
};
use render_core::state::{DrawError, IndexState, OptionalState, VertexState};
use render_core::track::{Resource, Transition, Unit};
use render_core::types::{
    clamp_to_i16, Color, Extent3d, IndexFormat, InputStepMode, LoadOp, Rect, StoreOp,
    BUFFER_USAGE_INDEX, BUFFER_USAGE_INDIRECT, BUFFER_USAGE_VERTEX, PIPELINE_FLAG_BLEND_COLOR,
    PIPELINE_FLAG_STENCIL_REFERENCE, TEXTURE_USAGE_OUTPUT_ATTACHMENT, TEXTURE_USAGE_SAMPLED,
};

const COLOR_FORMAT: u32 = 1;
const UNIFORM: u32 = 0x40;
const DEPTH_FORMAT: u32 = 2;

// Views of the fixture registry.
const V: usize = 0;
const S: usize = 1;
const MS: usize = 2;
const T: usize = 3;
const SMALL: usize = 4;
const NO_OUTPUT: usize = 5;
const DEPTH: usize = 6;
const S2: usize = 7;
const MS2: usize = 8;

// Buffers.
const INDEX_B: usize = 0;
const VERTEX_B: usize = 1;
const INDIRECT_B: usize = 2;
const PLAIN_B: usize = 3;

// Pipelines.
const P_PLAIN: usize = 0;
const P_BLEND: usize = 1;
const P_U32: usize = 2;
const P_GROUPS: usize = 3;
const P_MS: usize = 4;
const P_STRIDES: usize = 5;
const P_OTHER_FORMAT: usize = 6;
const P_STENCIL: usize = 7;
const P_TWO_GROUPS: usize = 8;

fn extent(w: u32, h: u32) -> Extent3d {
    Extent3d { width: w, height: h, depth: 1 }
}

fn view(texture: usize, samples: u8, w: u32) -> TextureView {
    TextureView {
        format: COLOR_FORMAT,
        extent: extent(w, 64),
        samples,
        source: ViewSource::Native { texture },
    }
}

fn context(colors: Vec<u32>, resolves: Vec<u32>) -> RenderPassContext {
    RenderPassContext { colors, resolves, depth_stencil: None }
}

fn pipeline(
    layout_id: usize,
    colors: Vec<u32>,
    resolves: Vec<u32>,
    sample_count: u8,
    flags: u32,
    index_format: IndexFormat,
    vertex_strides: Vec<(u64, InputStepMode)>,
) -> RenderPipeline {
    RenderPipeline {
        layout_id,
        pass_context: context(colors, resolves),
        sample_count,
        flags,
        index_format,
        vertex_strides,
    }
}

fn resources() -> Resources {
    Resources {
        buffers: vec![
            Buffer { size: 8, usage: BUFFER_USAGE_INDEX },
            Buffer { size: 1024, usage: BUFFER_USAGE_VERTEX },
            Buffer { size: 64, usage: BUFFER_USAGE_INDIRECT },
            Buffer { size: 64, usage: 0 },
        ],
        textures: vec![
            Texture { usage: TEXTURE_USAGE_OUTPUT_ATTACHMENT | TEXTURE_USAGE_SAMPLED },
            Texture { usage: TEXTURE_USAGE_OUTPUT_ATTACHMENT },
            Texture { usage: TEXTURE_USAGE_SAMPLED },
        ],
        views: vec![
            view(0, 1, 64),
            TextureView {
                format: COLOR_FORMAT,
                extent: extent(64, 64),
                samples: 1,
                source: ViewSource::SwapChain,
            },
            view(1, 4, 64),
            view(0, 1, 64),
            view(0, 1, 32),
            view(2, 1, 64),
            TextureView {
                format: DEPTH_FORMAT,
                extent: extent(64, 64),
                samples: 1,
                source: ViewSource::Native { texture: 1 },
            },
            TextureView {
                format: COLOR_FORMAT,
                extent: extent(64, 64),
                samples: 1,
                source: ViewSource::SwapChain,
            },
            view(1, 2, 64),
        ],
        bind_groups: vec![
            BindGroup { layout_id: 7, dynamic_count: 2, used_buffers: vec![], used_textures: vec![] },
            BindGroup {
                layout_id: 7,
                dynamic_count: 0,
                used_buffers: vec![(PLAIN_B, UNIFORM)],
                used_textures: vec![(2, TEXTURE_USAGE_SAMPLED)],
            },
            BindGroup { layout_id: 8, dynamic_count: 0, used_buffers: vec![], used_textures: vec![] },
        ],
        pipeline_layouts: vec![
            PipelineLayout { bind_group_layout_ids: vec![7] },
            PipelineLayout { bind_group_layout_ids: vec![] },
            PipelineLayout { bind_group_layout_ids: vec![7, 8] },
        ],
        pipelines: vec![
            pipeline(1, vec![COLOR_FORMAT], vec![], 1, 0, IndexFormat::Uint16, vec![]),
            pipeline(1, vec![COLOR_FORMAT], vec![], 1, PIPELINE_FLAG_BLEND_COLOR, IndexFormat::Uint16, vec![]),
            pipeline(1, vec![COLOR_FORMAT], vec![], 1, 0, IndexFormat::Uint32, vec![]),
            pipeline(0, vec![COLOR_FORMAT], vec![], 1, 0, IndexFormat::Uint16, vec![]),
            pipeline(1, vec![COLOR_FORMAT], vec![COLOR_FORMAT], 4, 0, IndexFormat::Uint16, vec![]),
            pipeline(
                1,
                vec![COLOR_FORMAT],
                vec![],
                1,
                0,
                IndexFormat::Uint16,
                vec![(12, InputStepMode::Vertex), (16, InputStepMode::Instance)],
            ),
            pipeline(1, vec![9], vec![], 1, 0, IndexFormat::Uint16, vec![]),
            pipeline(1, vec![COLOR_FORMAT], vec![], 1, PIPELINE_FLAG_STENCIL_REFERENCE, IndexFormat::Uint16, vec![]),
            pipeline(2, vec![COLOR_FORMAT], vec![], 1, 0, IndexFormat::Uint16, vec![]),
        ],
    }
}

fn global() -> Global {
    Global { resources: resources(), cache: ObjectCache::new(), sample_limit: 1 | 4, max_bind_groups: 4 }
}

fn black() -> Color {
    Color { r: 0f64.to_bits(), g: 0f64.to_bits(), b: 0f64.to_bits(), a: 1f64.to_bits() }
}

fn color(attachment: usize, resolve_target: Option<usize>, load_op: LoadOp) -> RenderPassColorAttachmentDescriptor {
    RenderPassColorAttachmentDescriptorBase {
        attachment,
        resolve_target,
        load_op,
        store_op: StoreOp::Store,
        clear_color: black(),
    }
}

fn depth(load: LoadOp) -> RenderPassDepthStencilAttachmentDescriptor {
    RenderPassDepthStencilAttachmentDescriptorBase {
        attachment: DEPTH,
        depth_load_op: load,
        depth_store_op: StoreOp::Store,
        clear_depth: 1f32.to_bits(),
        stencil_load_op: LoadOp::Load,
        stencil_store_op: StoreOp::Clear,
        clear_stencil: 0,
    }
}

fn begin(g: &mut Global, cmb: &mut CommandBuffer, colors: &[RenderPassColorAttachmentDescriptor]) -> RenderPass {
    g.command_encoder_begin_render_pass(cmb, colors, None).unwrap()
}

fn area() -> Rect<i16> {
    Rect { x: 0, y: 0, w: 64, h: 64 }
}

fn index_binds(pass: &RenderPass) -> Vec<IndexFormat> {
    pass.raw
        .iter()
        .filter_map(|c| match c {
            BackendCall::BindIndexBuffer { format, .. } => Some(*format),
            _ => None,
        })
        .collect()
}

#[test]
fn single_color_clear_one_triangle() {
    let mut g = global();
    let mut cmb = CommandBuffer::new(&g.resources);
    let pass = StandaloneRenderPass {
        color_attachments: vec![color(V, None, LoadOp::Clear)],
        depth_stencil_attachment: None,
        commands: vec![
            RenderCommand::SetPipeline(P_PLAIN),
            RenderCommand::Draw { vertex_count: 3, instance_count: 1, first_vertex: 0, first_instance: 0 },
        ],
        offsets: vec![],
    };
    assert_eq!(g.command_encoder_run_render_pass(&mut cmb, &pass), Ok(()));
    assert_eq!(cmb.raw.len(), 2);
    assert_eq!(cmb.raw[0], vec![BackendCall::Finish]);
    assert_eq!(
        cmb.raw[1],
        vec![
            BackendCall::BeginRenderPass {
                render_pass: 0,
                framebuffer: FramebufferRef::Cached(0),
                area: area(),
                clear_values: vec![ClearValue::Color { format: COLOR_FORMAT, color: black() }],
            },
            BackendCall::SetScissor(area()),
            BackendCall::SetViewport { rect: area(), min_depth: 0, max_depth: DEPTH_ONE_BITS },
            BackendCall::BindGraphicsPipeline(P_PLAIN),
            BackendCall::Draw { vertex_start: 0, vertex_end: 3, instance_start: 0, instance_end: 1 },
            BackendCall::EndRenderPass,
        ]
    );
    assert_eq!(f64::from_bits(black().a), 1.0);
}

#[test]
fn missing_blend_color() {
    let mut g = global();
    let mut cmb = CommandBuffer::new(&g.resources);
    let pass = StandaloneRenderPass {
        color_attachments: vec![color(V, None, LoadOp::Clear)],
        depth_stencil_attachment: None,
        commands: vec![
            RenderCommand::SetPipeline(P_BLEND),
            RenderCommand::Draw { vertex_count: 3, instance_count: 1, first_vertex: 0, first_instance: 0 },
        ],
        offsets: vec![],
    };
    assert_eq!(
        g.command_encoder_run_render_pass(&mut cmb, &pass),
        Err(RenderPassError::Draw(DrawError::MissingBlendColor))
    );
    assert_eq!(cmb.raw.len(), 1);

    let mut cmb = CommandBuffer::new(&g.resources);
    let mut rp = begin(&mut g, &mut cmb, &[color(V, None, LoadOp::Clear)]);
    assert_eq!(g.render_pass_set_pipeline(&mut rp, P_BLEND), Ok(()));
    assert_eq!(rp.state.blend_color, OptionalState::Required);
    assert_eq!(g.render_pass_draw(&mut rp, 3, 1, 0, 0), Err(RenderPassError::Draw(DrawError::MissingBlendColor)));
    assert!(!rp.raw.iter().any(|c| matches!(c, BackendCall::Draw { .. })));
    g.render_pass_set_blend_color(&mut rp, &black());
    assert_eq!(rp.state.blend_color, OptionalState::Provided);
    assert_eq!(g.render_pass_draw(&mut rp, 3, 1, 0, 0), Ok(()));
}

#[test]
fn index_format_switch() {
    let mut g = global();
    let mut cmb = CommandBuffer::new(&g.resources);
    let mut rp = begin(&mut g, &mut cmb, &[color(V, None, LoadOp::Load)]);
    assert_eq!(g.render_pass_set_index_buffer(&mut rp, INDEX_B, 0), Ok(()));
    assert_eq!(rp.state.index.limit, 4);
    assert_eq!(g.render_pass_set_pipeline(&mut rp, P_U32), Ok(()));
    assert_eq!(rp.state.index.limit, 2);
    assert_eq!(index_binds(&rp), vec![IndexFormat::Uint16, IndexFormat::Uint32]);
    assert_eq!(
        rp.raw.last(),
        Some(&BackendCall::BindIndexBuffer { buffer: INDEX_B, offset: 0, format: IndexFormat::Uint32 })
    );
    // The same format again binds nothing more.
    assert_eq!(g.render_pass_set_pipeline(&mut rp, P_U32), Ok(()));
    assert_eq!(index_binds(&rp).len(), 2);
}

#[test]
fn swap_chain_attachment_layout() {
    let mut g = global();
    let mut cmb = CommandBuffer::new(&g.resources);
    let rp = begin(&mut g, &mut cmb, &[color(S, None, LoadOp::Clear)]);
    let key = &g.cache.render_passes[0].0;
    assert_eq!(key.colors[0].initial_layout, ImageLayout::Undefined);
    assert_eq!(key.colors[0].final_layout, ImageLayout::Present);
    assert!(matches!(rp.raw[0], BackendCall::BeginRenderPass { framebuffer: FramebufferRef::SwapChain, .. }));
    assert_eq!(g.cache.framebuffers.len(), 0);
    assert_eq!(cmb.used_swap_chain.as_ref().map(|(v, _)| *v), Some(S));
    g.render_pass_end_pass(rp, &mut cmb);
    let second = g.command_encoder_begin_render_pass(&mut cmb, &[color(S, None, LoadOp::Clear)], None);
    assert_eq!(second.err(), Some(RenderPassError::SwapChainMisuse));
}

#[test]
fn dynamic_offset_misalignment() {
    let mut g = global();
    let mut cmb = CommandBuffer::new(&g.resources);
    let mut rp = begin(&mut g, &mut cmb, &[color(V, None, LoadOp::Load)]);
    assert_eq!(
        g.render_pass_set_bind_group(&mut rp, 0, 0, &[64, 65]),
        Err(RenderPassError::MisalignedDynamicOffset)
    );
    assert_eq!(g.render_pass_set_bind_group(&mut rp, 0, 0, &[256, 512]), Ok(()));
    let pass = StandaloneRenderPass {
        color_attachments: vec![color(V, None, LoadOp::Load)],
        depth_stencil_attachment: None,
        commands: vec![RenderCommand::SetBindGroup { index: 0, bind_group_id: 0, offsets_start: 0, offsets_end: 2 }],
        offsets: vec![64, 65],
    };
    let mut cmb = CommandBuffer::new(&g.resources);
    assert_eq!(g.command_encoder_run_render_pass(&mut cmb, &pass), Err(RenderPassError::MisalignedDynamicOffset));
}

#[test]
fn resolve_target() {
    let mut g = global();
    let mut cmb = CommandBuffer::new(&g.resources);
    let colors = [color(MS, Some(T), LoadOp::Clear)];
    let rp = begin(&mut g, &mut cmb, &colors);
    let (key, subpass) = &g.cache.render_passes[0];
    assert_eq!(key.colors[0].samples, 4);
    assert_eq!(key.resolves[0].samples, 1);
    assert_eq!(
        key.resolves[0].ops,
        AttachmentOps { load: AttachmentLoadOp::DontCare, store: AttachmentStoreOp::Store }
    );
    assert_eq!(subpass.resolves, vec![(Some(1), ImageLayout::ColorAttachmentOptimal)]);
    assert_eq!(subpass.colors, vec![(0, ImageLayout::ColorAttachmentOptimal)]);
    assert_eq!(rp.sample_count, 4);
    assert_eq!(rp.context.resolves, vec![COLOR_FORMAT]);
    g.render_pass_end_pass(rp, &mut cmb);

    let mut cmb2 = CommandBuffer::new(&g.resources);
    let rp2 = begin(&mut g, &mut cmb2, &colors);
    assert_eq!(g.cache.render_passes.len(), 1);
    assert_eq!(g.cache.framebuffers.len(), 1);
    assert!(matches!(
        rp2.raw[0],
        BackendCall::BeginRenderPass { render_pass: 0, framebuffer: FramebufferRef::Cached(0), .. }
    ));
}

#[test]
fn extents_agree_after_begin() {
    let mut g = global();
    let mut cmb = CommandBuffer::new(&g.resources);
    let r = g.command_encoder_begin_render_pass(&mut cmb, &[color(V, None, LoadOp::Load), color(SMALL, None, LoadOp::Load)], None);
    assert_eq!(r.err(), Some(RenderPassError::AttachmentExtentMismatch));
    let rp = g
        .command_encoder_begin_render_pass(&mut cmb, &[color(V, None, LoadOp::Load), color(T, None, LoadOp::Load)], Some(depth(LoadOp::Clear)))
        .unwrap();
    assert_eq!(g.resources.views[V].extent, g.resources.views[T].extent);
    assert_eq!(g.resources.views[V].extent, g.resources.views[DEPTH].extent);
    assert!(matches!(
        &rp.raw[0],
        BackendCall::BeginRenderPass { clear_values, .. }
            if clear_values == &vec![ClearValue::DepthStencil { depth: 1f32.to_bits(), stencil: 0 }]
    ));
    let key = &g.cache.render_passes[0].0;
    let ds = key.depth_stencil.unwrap();
    assert_eq!(ds.format, DEPTH_FORMAT);
    assert_eq!(ds.initial_layout, ImageLayout::DepthStencilAttachmentOptimal);
    assert_eq!(ds.stencil_ops, AttachmentOps { load: AttachmentLoadOp::Load, store: AttachmentStoreOp::DontCare });
    assert_eq!(g.cache.render_passes[0].1.depth_stencil, Some((2, ImageLayout::DepthStencilAttachmentOptimal)));
}

#[test]
fn vertex_buffer_sets_size_and_limits() {
    let mut g = global();
    let mut cmb = CommandBuffer::new(&g.resources);
    let mut rp = begin(&mut g, &mut cmb, &[color(V, None, LoadOp::Load)]);
    assert_eq!(g.render_pass_set_pipeline(&mut rp, P_STRIDES), Ok(()));
    assert_eq!(g.render_pass_set_vertex_buffers(&mut rp, 0, &[VERTEX_B], &[24]), Ok(()));
    assert_eq!(rp.state.vertex.inputs[0].total_size, 1000);
    assert_eq!(rp.state.vertex.vertex_limit, 1000 / 12);
    assert_eq!(rp.state.vertex.instance_limit, 0);
    assert_eq!(g.render_pass_set_vertex_buffers(&mut rp, 1, &[VERTEX_B], &[0]), Ok(()));
    assert_eq!(rp.state.vertex.instance_limit, 1024 / 16);
    assert_eq!(
        rp.raw.last(),
        Some(&BackendCall::BindVertexBuffer { slot: 1, buffer: VERTEX_B, offset: 0 })
    );
    assert_eq!(
        g.render_pass_set_vertex_buffers(&mut rp, 2, &[PLAIN_B], &[0]),
        Err(RenderPassError::UsageBitMissing(MissingUsage::Vertex))
    );
}

#[test]
fn draw_stays_within_limits() {
    let mut g = global();
    let mut cmb = CommandBuffer::new(&g.resources);
    let mut rp = begin(&mut g, &mut cmb, &[color(V, None, LoadOp::Load)]);
    assert_eq!(g.render_pass_set_pipeline(&mut rp, P_STRIDES), Ok(()));
    assert_eq!(g.render_pass_set_vertex_buffers(&mut rp, 0, &[VERTEX_B, VERTEX_B], &[24, 0]), Ok(()));
    assert_eq!(g.render_pass_draw(&mut rp, 83, 64, 0, 0), Ok(()));
    assert_eq!(g.render_pass_draw(&mut rp, 83, 1, 1, 0), Err(RenderPassError::VertexOutOfRange));
    assert_eq!(g.render_pass_draw(&mut rp, 1, 65, 0, 0), Err(RenderPassError::InstanceOutOfRange));
    assert_eq!(g.render_pass_draw(&mut rp, 1, u32::MAX, 0, 2), Err(RenderPassError::InstanceOutOfRange));
}

#[test]
fn equal_passes_share_cache_entries() {
    let mut g = global();
    let colors = [color(V, None, LoadOp::Clear)];
    let mut a = CommandBuffer::new(&g.resources);
    let rp = begin(&mut g, &mut a, &colors);
    g.render_pass_end_pass(rp, &mut a);
    let mut b = CommandBuffer::new(&g.resources);
    let rp = begin(&mut g, &mut b, &colors);
    assert_eq!(g.cache.render_passes.len(), 1);
    assert_eq!(g.cache.framebuffers.len(), 1);
    assert!(matches!(rp.raw[0], BackendCall::BeginRenderPass { render_pass: 0, framebuffer: FramebufferRef::Cached(0), .. }));
    let rp = begin(&mut g, &mut b, &[color(V, None, LoadOp::Load)]);
    assert_eq!(g.cache.render_passes.len(), 2);
    assert_eq!(g.cache.framebuffers.len(), 1);
    assert!(matches!(rp.raw[0], BackendCall::BeginRenderPass { render_pass: 1, framebuffer: FramebufferRef::Cached(0), .. }));
}

fn sample_commands() -> Vec<RenderCommand> {
    vec![
        RenderCommand::SetPipeline(P_TWO_GROUPS),
        RenderCommand::SetBindGroup { index: 1, bind_group_id: 2, offsets_start: 0, offsets_end: 0 },
        RenderCommand::SetBindGroup { index: 0, bind_group_id: 1, offsets_start: 0, offsets_end: 0 },
        RenderCommand::SetIndexBuffer { buffer_id: INDEX_B, offset: 2 },
        RenderCommand::SetVertexBuffer { index: 0, buffer_id: VERTEX_B, offset: 0 },
        RenderCommand::SetBlendValue(black()),
        RenderCommand::SetStencilReference(3),
        RenderCommand::SetViewport { rect: Rect { x: -40000, y: 5, w: 40000, h: 64 }, min_depth: 0, max_depth: DEPTH_ONE_BITS },
        RenderCommand::SetScissor(Rect { x: 1, y: 2, w: 70000, h: 4 }),
        RenderCommand::Draw { vertex_count: 3, instance_count: 1, first_vertex: 0, first_instance: 0 },
        RenderCommand::DrawIndexed { index_count: 3, instance_count: 1, first_index: 0, base_vertex: -1, first_instance: 0 },
        RenderCommand::DrawIndirect { buffer_id: INDIRECT_B, offset: 16 },
        RenderCommand::DrawIndexedIndirect { buffer_id: INDIRECT_B, offset: 32 },
    ]
}

#[test]
fn incremental_matches_encoded() {
    let mut g = global();
    let colors = vec![color(V, None, LoadOp::Clear)];
    let mut encoded = CommandBuffer::new(&g.resources);
    let pass = StandaloneRenderPass {
        color_attachments: colors.clone(),
        depth_stencil_attachment: None,
        commands: sample_commands(),
        offsets: vec![],
    };
    assert_eq!(g.command_encoder_run_render_pass(&mut encoded, &pass), Ok(()));

    let mut incremental = CommandBuffer::new(&g.resources);
    let mut rp = begin(&mut g, &mut incremental, &colors);
    assert_eq!(g.render_pass_set_pipeline(&mut rp, P_TWO_GROUPS), Ok(()));
    assert_eq!(g.render_pass_set_bind_group(&mut rp, 1, 2, &[]), Ok(()));
    assert_eq!(g.render_pass_set_bind_group(&mut rp, 0, 1, &[]), Ok(()));
    assert_eq!(g.render_pass_set_index_buffer(&mut rp, INDEX_B, 2), Ok(()));
    assert_eq!(g.render_pass_set_vertex_buffers(&mut rp, 0, &[VERTEX_B], &[0]), Ok(()));
    g.render_pass_set_blend_color(&mut rp, &black());
    g.render_pass_set_stencil_reference(&mut rp, 3);
    g.render_pass_set_viewport(&mut rp, -40000, 5, 40000, 64, 0, DEPTH_ONE_BITS);
    g.render_pass_set_scissor_rect(&mut rp, 1, 2, 70000, 4);
    assert_eq!(g.render_pass_draw(&mut rp, 3, 1, 0, 0), Ok(()));
    assert_eq!(g.render_pass_draw_indexed(&mut rp, 3, 1, 0, -1, 0), Ok(()));
    assert_eq!(g.render_pass_draw_indirect(&mut rp, INDIRECT_B, 16), Ok(()));
    assert_eq!(g.render_pass_draw_indexed_indirect(&mut rp, INDIRECT_B, 32), Ok(()));
    g.render_pass_end_pass(rp, &mut incremental);

    assert_eq!(encoded.raw, incremental.raw);
    assert_eq!(encoded.trackers.buffers.units, incremental.trackers.buffers.units);
    let calls = &encoded.raw[1];
    assert!(calls.contains(&BackendCall::BindGraphicsDescriptorSets { layout: 2, first_set: 0, sets: vec![1, 2], offsets: vec![] }));
    assert!(calls.contains(&BackendCall::SetViewport { rect: Rect { x: 0, y: 5, w: i16::MAX, h: 64 }, min_depth: 0, max_depth: DEPTH_ONE_BITS }));
    assert!(calls.contains(&BackendCall::SetScissor(Rect { x: 1, y: 2, w: i16::MAX, h: 4 })));
    assert!(calls.contains(&BackendCall::DrawIndexed { index_start: 0, index_end: 3, base_vertex: -1, instance_start: 0, instance_end: 1 }));
    assert!(calls.contains(&BackendCall::DrawIndirect { buffer: INDIRECT_B, offset: 16, draw_count: 1, stride: 0 }));
    assert!(calls.contains(&BackendCall::SetStencilReference(3)));
    assert_eq!(
        encoded.trackers.buffers.units[INDIRECT_B],
        Some(Unit { first: BUFFER_USAGE_INDIRECT, last: BUFFER_USAGE_INDIRECT })
    );
}

#[test]
fn follow_up_groups_bind_together() {
    let mut binder = Binder::new(4);
    binder.pipeline_layout_id = Some(2);
    binder.reset_expectations(2);
    assert_eq!(binder.expect_layout(0, 7), LayoutChange::Mismatch);
    assert_eq!(binder.expect_layout(1, 8), LayoutChange::Mismatch);
    assert_eq!(binder.invalid_mask(), 0b11);
    assert!(binder.provide_entry(1, BindGroupPair { layout_id: 8, group_id: 2 }, &[]).is_none());
    assert_eq!(binder.invalid_mask(), 0b01);
    let (layout, follow) = binder.provide_entry(0, BindGroupPair { layout_id: 7, group_id: 1 }, &[]).unwrap();
    assert_eq!(layout, 2);
    assert_eq!(follow, vec![(2, vec![])]);
    assert_eq!(binder.invalid_mask(), 0);
    assert_eq!(binder.compatible_count(), 4);
    assert!(binder.provide_entry(0, BindGroupPair { layout_id: 7, group_id: 1 }, &[]).is_none());
    assert_eq!(binder.expect_layout(0, 7), LayoutChange::Unchanged);
    assert_eq!(binder.expect_layout(0, 9), LayoutChange::Mismatch);
    assert_eq!(binder.expect_layout(0, 7), LayoutChange::Match(1));
}

#[test]
fn pipeline_change_rebinds_compatible_groups() {
    let mut g = global();
    let mut cmb = CommandBuffer::new(&g.resources);
    let mut rp = begin(&mut g, &mut cmb, &[color(V, None, LoadOp::Load)]);
    assert_eq!(g.render_pass_set_bind_group(&mut rp, 0, 1, &[]), Ok(()));
    assert!(!rp.raw.iter().any(|c| matches!(c, BackendCall::BindGraphicsDescriptorSets { .. })));
    assert_eq!(rp.trackers.buffers.units[PLAIN_B], Some(Unit { first: UNIFORM, last: UNIFORM }));
    assert_eq!(
        rp.trackers.textures.units[2],
        Some(Unit { first: TEXTURE_USAGE_SAMPLED, last: TEXTURE_USAGE_SAMPLED })
    );
    assert_eq!(g.render_pass_set_pipeline(&mut rp, P_GROUPS), Ok(()));
    assert_eq!(
        rp.raw.last(),
        Some(&BackendCall::BindGraphicsDescriptorSets { layout: 0, first_set: 0, sets: vec![1], offsets: vec![] })
    );
    assert_eq!(g.render_pass_draw(&mut rp, 1, 1, 0, 0), Ok(()));
}

#[test]
fn incompatible_bind_group_blocks_draw() {
    let mut g = global();
    let mut cmb = CommandBuffer::new(&g.resources);
    let mut rp = begin(&mut g, &mut cmb, &[color(V, None, LoadOp::Load)]);
    assert_eq!(g.render_pass_set_pipeline(&mut rp, P_TWO_GROUPS), Ok(()));
    assert_eq!(
        g.render_pass_draw(&mut rp, 1, 1, 0, 0),
        Err(RenderPassError::Draw(DrawError::IncompatibleBindGroup { index: 0 }))
    );
    assert_eq!(g.render_pass_set_bind_group(&mut rp, 0, 1, &[]), Ok(()));
    assert_eq!(
        g.render_pass_draw(&mut rp, 1, 1, 0, 0),
        Err(RenderPassError::Draw(DrawError::IncompatibleBindGroup { index: 1 }))
    );
    assert_eq!(g.render_pass_set_bind_group(&mut rp, 0, 0, &[256]), Err(RenderPassError::DynamicOffsetCountMismatch));
}

#[test]
fn missing_stencil_reference() {
    let mut g = global();
    let mut cmb = CommandBuffer::new(&g.resources);
    let mut rp = begin(&mut g, &mut cmb, &[color(V, None, LoadOp::Load)]);
    assert_eq!(g.render_pass_set_pipeline(&mut rp, P_STENCIL), Ok(()));
    assert_eq!(
        g.render_pass_draw_indexed(&mut rp, 0, 0, 0, 0, 0),
        Err(RenderPassError::Draw(DrawError::MissingStencilReference))
    );
    assert_eq!(
        g.render_pass_draw_indirect(&mut rp, INDIRECT_B, 0),
        Err(RenderPassError::Draw(DrawError::MissingStencilReference))
    );
    g.render_pass_set_stencil_reference(&mut rp, 1);
    assert_eq!(g.render_pass_draw_indexed(&mut rp, 0, 0, 0, 0, 0), Ok(()));
}

#[test]
fn usage_bits_are_checked() {
    let mut g = global();
    let mut cmb = CommandBuffer::new(&g.resources);
    let mut rp = begin(&mut g, &mut cmb, &[color(V, None, LoadOp::Load)]);
    assert_eq!(g.render_pass_set_pipeline(&mut rp, P_PLAIN), Ok(()));
    assert_eq!(
        g.render_pass_set_index_buffer(&mut rp, PLAIN_B, 0),
        Err(RenderPassError::UsageBitMissing(MissingUsage::Index))
    );
    assert_eq!(
        g.render_pass_draw_indirect(&mut rp, PLAIN_B, 0),
        Err(RenderPassError::UsageBitMissing(MissingUsage::Indirect))
    );
    assert_eq!(
        g.render_pass_draw_indexed_indirect(&mut rp, PLAIN_B, 0),
        Err(RenderPassError::UsageBitMissing(MissingUsage::Indirect))
    );
    let r = g.command_encoder_begin_render_pass(&mut cmb, &[color(NO_OUTPUT, None, LoadOp::Load)], None);
    assert_eq!(r.err(), Some(RenderPassError::UsageBitMissing(MissingUsage::OutputAttachment)));
}

#[test]
fn index_range_is_checked() {
    let mut g = global();
    let mut cmb = CommandBuffer::new(&g.resources);
    let mut rp = begin(&mut g, &mut cmb, &[color(V, None, LoadOp::Load)]);
    assert_eq!(g.render_pass_set_pipeline(&mut rp, P_PLAIN), Ok(()));
    assert_eq!(g.render_pass_draw_indexed(&mut rp, 1, 1, 0, 0, 0), Err(RenderPassError::IndexOutOfRange));
    assert_eq!(g.render_pass_set_index_buffer(&mut rp, INDEX_B, 2), Ok(()));
    assert_eq!(rp.state.index.limit, 3);
    assert_eq!(g.render_pass_draw_indexed(&mut rp, 3, 1, 0, 0, 0), Ok(()));
    assert_eq!(g.render_pass_draw_indexed(&mut rp, 3, 1, 1, 0, 0), Err(RenderPassError::IndexOutOfRange));
}

#[test]
fn attachment_errors() {
    let mut g = global();
    let mut cmb = CommandBuffer::new(&g.resources);
    let r = g.command_encoder_begin_render_pass(&mut cmb, &[color(V, None, LoadOp::Load), color(MS, None, LoadOp::Load)], None);
    assert_eq!(r.err(), Some(RenderPassError::AttachmentSampleCountMismatch));
    let r = g.command_encoder_begin_render_pass(&mut cmb, &[color(V, Some(T), LoadOp::Load)], None);
    assert_eq!(r.err(), Some(RenderPassError::ResolveTargetInvalid));
    let r = g.command_encoder_begin_render_pass(&mut cmb, &[color(MS, Some(MS), LoadOp::Load)], None);
    assert_eq!(r.err(), Some(RenderPassError::ResolveTargetInvalid));
    let r = g.command_encoder_begin_render_pass(&mut cmb, &[color(S, None, LoadOp::Load), color(S2, None, LoadOp::Load)], None);
    assert_eq!(r.err(), Some(RenderPassError::SwapChainMisuse));
    let mut swap_depth = depth(LoadOp::Load);
    swap_depth.attachment = S;
    let r = g.command_encoder_begin_render_pass(&mut cmb, &[], Some(swap_depth));
    assert_eq!(r.err(), Some(RenderPassError::SwapChainMisuse));
    let r = g.command_encoder_begin_render_pass(&mut cmb, &[color(MS2, None, LoadOp::Load)], None);
    assert_eq!(r.err(), Some(RenderPassError::UnsupportedSampleCount));
    assert_eq!(g.cache.render_passes.len(), 0);
    assert!(cmb.used_views.iter().all(|u| !u));
}

#[test]
fn pipeline_must_match_pass() {
    let mut g = global();
    let mut cmb = CommandBuffer::new(&g.resources);
    let mut rp = begin(&mut g, &mut cmb, &[color(V, None, LoadOp::Load)]);
    assert_eq!(g.render_pass_set_pipeline(&mut rp, P_OTHER_FORMAT), Err(RenderPassError::PassContextIncompatible));
    assert_eq!(g.render_pass_set_pipeline(&mut rp, P_MS), Err(RenderPassError::PassContextIncompatible));
    let mut cmb = CommandBuffer::new(&g.resources);
    let mut rp = begin(&mut g, &mut cmb, &[color(MS, Some(T), LoadOp::Load)]);
    assert_eq!(g.render_pass_set_pipeline(&mut rp, P_MS), Ok(()));
    let mut no_resolve = g.resources.pipelines.remove(P_MS);
    no_resolve.sample_count = 1;
    g.resources.pipelines.push(no_resolve);
    let last = g.resources.pipelines.len() - 1;
    assert_eq!(g.render_pass_set_pipeline(&mut rp, last), Err(RenderPassError::AttachmentSampleCountMismatch));
}

#[test]
fn prior_usage_sets_initial_layout_and_first_state() {
    let mut g = global();
    let mut cmb = CommandBuffer::new(&g.resources);
    cmb.trackers.textures.units[0] = Some(Unit { first: TEXTURE_USAGE_SAMPLED, last: TEXTURE_USAGE_SAMPLED });
    let rp = begin(&mut g, &mut cmb, &[color(V, None, LoadOp::Load)]);
    let key = &g.cache.render_passes[0].0;
    assert_eq!(key.colors[0].initial_layout, ImageLayout::ShaderReadOnlyOptimal);
    assert_eq!(key.colors[0].final_layout, ImageLayout::ColorAttachmentOptimal);
    assert_eq!(
        rp.trackers.textures.units[0],
        Some(Unit { first: TEXTURE_USAGE_SAMPLED, last: TEXTURE_USAGE_OUTPUT_ATTACHMENT })
    );
    assert_eq!(rp.trackers.textures.units[1], None);
    g.render_pass_end_pass(rp, &mut cmb);
    assert_eq!(cmb.raw[0], vec![BackendCall::Finish]);
    assert_eq!(
        cmb.trackers.textures.units[0],
        Some(Unit { first: TEXTURE_USAGE_SAMPLED, last: TEXTURE_USAGE_OUTPUT_ATTACHMENT })
    );
}

#[test]
fn untracked_attachment_starts_as_output() {
    let mut g = global();
    let mut cmb = CommandBuffer::new(&g.resources);
    let rp = begin(&mut g, &mut cmb, &[color(MS, Some(T), LoadOp::Load)]);
    assert_eq!(
        rp.trackers.textures.units[1],
        Some(Unit { first: TEXTURE_USAGE_OUTPUT_ATTACHMENT, last: TEXTURE_USAGE_OUTPUT_ATTACHMENT })
    );
    assert_eq!(
        rp.trackers.textures.units[0],
        Some(Unit { first: TEXTURE_USAGE_OUTPUT_ATTACHMENT, last: TEXTURE_USAGE_OUTPUT_ATTACHMENT })
    );
    assert!(cmb.used_views[MS] && cmb.used_views[T] && !cmb.used_views[V]);
}

#[test]
fn end_pass_records_barriers() {
    let mut g = global();
    let mut cmb = CommandBuffer::new(&g.resources);
    cmb.trackers.buffers.units[INDEX_B] = Some(Unit { first: 8, last: 8 });
    let mut rp = begin(&mut g, &mut cmb, &[color(V, None, LoadOp::Load)]);
    assert_eq!(g.render_pass_set_index_buffer(&mut rp, INDEX_B, 0), Ok(()));
    g.render_pass_end_pass(rp, &mut cmb);
    assert_eq!(
        cmb.raw[0],
        vec![
            BackendCall::PipelineBarrier(Transition { resource: Resource::Buffer(INDEX_B), from: 8, to: BUFFER_USAGE_INDEX }),
            BackendCall::Finish,
        ]
    );
    assert_eq!(cmb.trackers.buffers.units[INDEX_B], Some(Unit { first: 8, last: BUFFER_USAGE_INDEX }));
    assert_eq!(cmb.raw[1].last(), Some(&BackendCall::EndRenderPass));
}

#[test]
fn free_functions_record_a_pass() {
    let res = resources();
    let mut cache = ObjectCache::new();
    let mut cmb = CommandBuffer::new(&res);
    let mut rp = begin_render_pass(&mut cmb, &mut cache, &res, &[color(V, None, LoadOp::Load)], None, 1, 4).unwrap();
    assert_eq!(rp.set_pipeline(&res, P_PLAIN), Ok(()));
    assert_eq!(rp.draw(3, 1, 0, 0), Ok(()));
    end_pass(rp, &mut cmb);
    assert_eq!(cmb.raw.len(), 2);
    let pass = StandaloneRenderPass {
        color_attachments: vec![color(V, None, LoadOp::Load)],
        depth_stencil_attachment: None,
        commands: vec![RenderCommand::SetPipeline(P_PLAIN), RenderCommand::Draw { vertex_count: 3, instance_count: 1, first_vertex: 0, first_instance: 0 }],
        offsets: vec![],
    };
    assert_eq!(run_render_pass(&mut cmb, &mut cache, &res, &pass, 1, 4), Ok(()));
    let n = cmb.raw[2].len();
    assert_eq!(cmb.raw[1][..n], cmb.raw[2][..]);
    assert_eq!(cmb.raw[1].last(), Some(&BackendCall::Finish));
}

#[test]
fn formulas() {
    assert_eq!(clamp_to_i16(-40000), 0);
    assert_eq!(clamp_to_i16(40000), i16::MAX);
    assert_eq!(clamp_to_i16(-5), -5);
    assert_eq!(clamp_to_i16(i16::MIN as i64), i16::MIN);
    assert_eq!(texture_layout(TEXTURE_USAGE_OUTPUT_ATTACHMENT, false), ImageLayout::DepthStencilAttachmentOptimal);
    assert_eq!(texture_layout(0xFFFF, true), ImageLayout::Undefined);
    assert_eq!(texture_layout(1, true), ImageLayout::TransferSrcOptimal);
    assert_eq!(texture_layout(2, true), ImageLayout::TransferDstOptimal);
    assert_eq!(texture_layout(3, true), ImageLayout::General);
    assert_eq!(
        map_load_store_ops(LoadOp::Clear, StoreOp::Clear),
        AttachmentOps { load: AttachmentLoadOp::Clear, store: AttachmentStoreOp::DontCare }
    );

    let mut index = IndexState::new();
    index.bound_buffer_view = Some((0, 4, 4 + 0x8_0000_0004));
    index.format = IndexFormat::Uint16;
    index.update_limit();
    assert_eq!(index.limit, u32::MAX);
    index.bound_buffer_view = Some((0, 4, 4 + 0x1_FFFF_FFFE));
    index.update_limit();
    assert_eq!(index.limit, u32::MAX);
    index.bound_buffer_view = Some((0, 4, 4 + 0x1_FFFF_FFFC));
    index.update_limit();
    assert_eq!(index.limit, 0xFFFF_FFFE);
    index.bound_buffer_view = None;
    index.update_limit();
    assert_eq!(index.limit, 0);

    let mut vertex = VertexState::new();
    assert_eq!((vertex.vertex_limit, vertex.instance_limit), (u32::MAX, u32::MAX));
    vertex.update_limits();
    assert_eq!((vertex.vertex_limit, vertex.instance_limit), (u32::MAX, u32::MAX));
    vertex.inputs[0].stride = 1;
    vertex.inputs[0].total_size = (1u64 << 32) + 5;
    vertex.update_limits();
    assert_eq!(vertex.vertex_limit, u32::MAX);
    vertex.inputs[0].total_size = 5;
    vertex.update_limits();
    assert_eq!(vertex.vertex_limit, 5);
    vertex.inputs[0].stride = 0;
    vertex.inputs[3].stride = 10;
    vertex.inputs[3].total_size = 105;
    vertex.inputs[5].stride = 4;
    vertex.inputs[5].total_size = 100;
    vertex.inputs[5].rate = InputStepMode::Instance;
    vertex.update_limits();
    assert_eq!((vertex.vertex_limit, vertex.instance_limit), (10, 25));

    let mut s = OptionalState::Unused;
    s.require(false);
    assert_eq!(s, OptionalState::Unused);
    s.require(true);
    assert_eq!(s, OptionalState::Required);
    let mut p = OptionalState::Provided;
    p.require(true);
    assert_eq!(p, OptionalState::Provided);
}

#[test]
fn context_compatibility() {
    let a = context(vec![1, 2], vec![]);
    assert!(a.compatible(&context(vec![1, 2], vec![])));
    assert!(!a.compatible(&context(vec![1], vec![])));
    assert!(!a.compatible(&context(vec![1, 2], vec![1])));
    let b = RenderPassContext { colors: vec![1, 2], resolves: vec![], depth_stencil: Some(DEPTH_FORMAT) };
    assert!(!a.compatible(&b));
}

#[test]
fn depth_only_pass() {
    let mut g = global();
    let mut cmb = CommandBuffer::new(&g.resources);
    let rp = g.command_encoder_begin_render_pass(&mut cmb, &[], Some(depth(LoadOp::Load))).unwrap();
    assert_eq!(rp.sample_count, 1);
    assert!(matches!(
        &rp.raw[0],
        BackendCall::BeginRenderPass { clear_values, .. } if clear_values.is_empty()
    ));
    assert_eq!(rp.context.depth_stencil, Some(DEPTH_FORMAT));
    assert_eq!(g.cache.render_passes[0].1.depth_stencil, Some((0, ImageLayout::DepthStencilAttachmentOptimal)));
    assert!(g.cache.render_passes[0].1.resolves.is_empty());
}

#[test]
fn largest_attachment_set() {
    let mut g = global();
    let mut cmb = CommandBuffer::new(&g.resources);
    let colors = [
        color(MS, Some(T), LoadOp::Clear),
        color(MS, Some(T), LoadOp::Load),
        color(MS, Some(T), LoadOp::Clear),
        color(MS, Some(T), LoadOp::Load),
    ];
    let rp = g.command_encoder_begin_render_pass(&mut cmb, &colors, Some(depth(LoadOp::Clear))).unwrap();
    let (key, subpass) = &g.cache.render_passes[0];
    assert_eq!(key.colors.len(), 4);
    assert_eq!(key.resolves.len(), 4);
    assert_eq!(
        subpass.resolves.iter().map(|r| r.0).collect::<Vec<_>>(),
        vec![Some(4), Some(5), Some(6), Some(7)]
    );
    assert_eq!(subpass.depth_stencil, Some((8, ImageLayout::DepthStencilAttachmentOptimal)));
    assert_eq!(g.cache.framebuffers[0].resolves, vec![T, T, T, T]);
    assert!(matches!(
        &rp.raw[0],
        BackendCall::BeginRenderPass { clear_values, .. } if clear_values.len() == 3
    ));
    assert_eq!(
        rp.trackers.textures.units[1],
        Some(Unit { first: TEXTURE_USAGE_OUTPUT_ATTACHMENT, last: TEXTURE_USAGE_OUTPUT_ATTACHMENT })
    );
}

#[test]
fn new_pass_has_no_vertex_limit() {
    let mut g = global();
    let mut cmb = CommandBuffer::new(&g.resources);
    let mut rp = begin(&mut g, &mut cmb, &[color(V, None, LoadOp::Load)]);
    assert_eq!(rp.state.vertex.vertex_limit, u32::MAX);
    assert_eq!(rp.state.vertex.instance_limit, u32::MAX);
    assert_eq!(g.render_pass_draw(&mut rp, 3, 1, 0, 0), Ok(()));
}

#[test]
fn large_vertex_buffer_saturates_limit() {
    let mut g = global();
    g.resources.buffers.push(Buffer { size: (1u64 << 32) + 5, usage: BUFFER_USAGE_VERTEX });
    let big = g.resources.buffers.len() - 1;
    g.resources.pipelines.push(pipeline(1, vec![COLOR_FORMAT], vec![], 1, 0, IndexFormat::Uint16, vec![(1, InputStepMode::Vertex)]));
    let p = g.resources.pipelines.len() - 1;
    let mut cmb = CommandBuffer::new(&g.resources);
    let mut rp = begin(&mut g, &mut cmb, &[color(V, None, LoadOp::Load)]);
    assert_eq!(g.render_pass_set_pipeline(&mut rp, p), Ok(()));
    assert_eq!(rp.state.vertex.vertex_limit, 0);
    assert_eq!(g.render_pass_set_vertex_buffers(&mut rp, 0, &[big], &[0]), Ok(()));
    assert_eq!(rp.state.vertex.vertex_limit, u32::MAX);
}

#[test]
fn wide_attachment_area_is_clamped() {
    let mut g = global();
    g.resources.views.push(TextureView {
        format: COLOR_FORMAT,
        extent: extent(40000, 64),
        samples: 1,
        source: ViewSource::Native { texture: 0 },
    });
    let wide = g.resources.views.len() - 1;
    let mut cmb = CommandBuffer::new(&g.resources);
    let rp = begin(&mut g, &mut cmb, &[color(wide, None, LoadOp::Load)]);
    let clamped = Rect { x: 0, y: 0, w: i16::MAX, h: 64 };
    assert!(matches!(rp.raw[0], BackendCall::BeginRenderPass { area, .. } if area == clamped));
    assert_eq!(rp.raw[1], BackendCall::SetScissor(clamped));
}
