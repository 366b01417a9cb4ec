use vstd::prelude::*;

use crate::track::Transition;
use crate::types::{
    BindGroupId, BufferId, Color, IndexFormat, PipelineLayoutId, Rect, RenderPipelineId,
    TextureFormat,
};

verus! {

/// Clear value of one attachment that is cleared at the start of a pass.
/// The color is converted to the channel type of `format` by the backend.
#[derive(Clone, Copy, Debug, PartialEq, Eq, Structural)]
pub enum ClearValue {
    Color { format: TextureFormat, color: Color },
    /// Depth as the bit pattern of an `f32`, and the stencil value.
    DepthStencil { depth: u32, stencil: u32 },
}

/// The framebuffer a pass renders into.
#[derive(Clone, Copy, Debug, PartialEq, Eq, Structural)]
pub enum FramebufferRef {
    /// An entry of the device's framebuffer cache.
    Cached(usize),
    /// The framebuffer created for the command buffer's swap-chain image.
    SwapChain,
}

/// A call recorded on a backend command buffer.
#[derive(Debug, PartialEq, Eq)]
pub enum BackendCall {
    BeginRenderPass {
        render_pass: usize,
        framebuffer: FramebufferRef,
        area: Rect<i16>,
        clear_values: Vec<ClearValue>,
    },
    EndRenderPass,
    SetScissor(Rect<i16>),
    /// A viewport whose depth range is given as `f32` bit patterns.
    SetViewport { rect: Rect<i16>, min_depth: u32, max_depth: u32 },
    BindGraphicsPipeline(RenderPipelineId),
    BindGraphicsDescriptorSets {
        layout: PipelineLayoutId,
        first_set: usize,
        sets: Vec<BindGroupId>,
        offsets: Vec<u64>,
    },
    BindIndexBuffer { buffer: BufferId, offset: u64, format: IndexFormat },
    BindVertexBuffer { slot: u32, buffer: BufferId, offset: u64 },
    SetBlendConstants(Color),
    /// Stencil reference for both faces.
    SetStencilReference(u32),
    Draw { vertex_start: u32, vertex_end: u32, instance_start: u32, instance_end: u32 },
    DrawIndexed {
        index_start: u32,
        index_end: u32,
        base_vertex: i32,
        instance_start: u32,
        instance_end: u32,
    },
    DrawIndirect { buffer: BufferId, offset: u64, draw_count: u32, stride: u32 },
    DrawIndexedIndirect { buffer: BufferId, offset: u64, draw_count: u32, stride: u32 },
    PipelineBarrier(Transition),
    Finish,
}

pub enum CallView {
    BeginRenderPass {
        render_pass: usize,
        framebuffer: FramebufferRef,
        area: Rect<i16>,
        clear_values: Seq<ClearValue>,
    },
    EndRenderPass,
    SetScissor(Rect<i16>),
    SetViewport { rect: Rect<i16>, min_depth: u32, max_depth: u32 },
    BindGraphicsPipeline(RenderPipelineId),
    BindGraphicsDescriptorSets {
        layout: PipelineLayoutId,
        first_set: usize,
        sets: Seq<BindGroupId>,
        offsets: Seq<u64>,
    },
    BindIndexBuffer { buffer: BufferId, offset: u64, format: IndexFormat },
    BindVertexBuffer { slot: u32, buffer: BufferId, offset: u64 },
    SetBlendConstants(Color),
    SetStencilReference(u32),
    Draw { vertex_start: u32, vertex_end: u32, instance_start: u32, instance_end: u32 },
    DrawIndexed {
        index_start: u32,
        index_end: u32,
        base_vertex: i32,
        instance_start: u32,
        instance_end: u32,
    },
    DrawIndirect { buffer: BufferId, offset: u64, draw_count: u32, stride: u32 },
    DrawIndexedIndirect { buffer: BufferId, offset: u64, draw_count: u32, stride: u32 },
    PipelineBarrier(Transition),
    Finish,
}

impl View for BackendCall {
    type V = CallView;

    open spec fn view(&self) -> CallView {
        match self {
            BackendCall::BeginRenderPass { render_pass, framebuffer, area, clear_values } => {
                CallView::BeginRenderPass {
                    render_pass: *render_pass,
                    framebuffer: *framebuffer,
                    area: *area,
                    clear_values: clear_values@,
                }
            },
            BackendCall::EndRenderPass => CallView::EndRenderPass,
            BackendCall::SetScissor(r) => CallView::SetScissor(*r),
            BackendCall::SetViewport { rect, min_depth, max_depth } => CallView::SetViewport {
                rect: *rect,
                min_depth: *min_depth,
                max_depth: *max_depth,
            },
            BackendCall::BindGraphicsPipeline(p) => CallView::BindGraphicsPipeline(*p),
            BackendCall::BindGraphicsDescriptorSets { layout, first_set, sets, offsets } => {
                CallView::BindGraphicsDescriptorSets {
                    layout: *layout,
                    first_set: *first_set,
                    sets: sets@,
                    offsets: offsets@,
                }
            },
            BackendCall::BindIndexBuffer { buffer, offset, format } => CallView::BindIndexBuffer {
                buffer: *buffer,
                offset: *offset,
                format: *format,
            },
            BackendCall::BindVertexBuffer { slot, buffer, offset } => CallView::BindVertexBuffer {
                slot: *slot,
                buffer: *buffer,
                offset: *offset,
            },
            BackendCall::SetBlendConstants(c) => CallView::SetBlendConstants(*c),
            BackendCall::SetStencilReference(v) => CallView::SetStencilReference(*v),
            BackendCall::Draw { vertex_start, vertex_end, instance_start, instance_end } => {
                CallView::Draw {
                    vertex_start: *vertex_start,
                    vertex_end: *vertex_end,
                    instance_start: *instance_start,
                    instance_end: *instance_end,
                }
            },
            BackendCall::DrawIndexed {
                index_start,
                index_end,
                base_vertex,
                instance_start,
                instance_end,
            } => CallView::DrawIndexed {
                index_start: *index_start,
                index_end: *index_end,
                base_vertex: *base_vertex,
                instance_start: *instance_start,
                instance_end: *instance_end,
            },
            BackendCall::DrawIndirect { buffer, offset, draw_count, stride } => {
                CallView::DrawIndirect {
                    buffer: *buffer,
                    offset: *offset,
                    draw_count: *draw_count,
                    stride: *stride,
                }
            },
            BackendCall::DrawIndexedIndirect { buffer, offset, draw_count, stride } => {
                CallView::DrawIndexedIndirect {
                    buffer: *buffer,
                    offset: *offset,
                    draw_count: *draw_count,
                    stride: *stride,
                }
            },
            BackendCall::PipelineBarrier(t) => CallView::PipelineBarrier(*t),
            BackendCall::Finish => CallView::Finish,
        }
    }
}

/// The calls of a recorded command buffer, as values.
pub open spec fn calls_view(s: Seq<BackendCall>) -> Seq<CallView> {
    s.map_values(|c: BackendCall| c@)
}

} // verus!
