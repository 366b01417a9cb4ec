use vstd::prelude::*;

use crate::backend::{calls_view, BackendCall, CallView};
use crate::binder::{fresh_binder, follow_view, offsets_to_vec, BindGroupPair, BinderView, LayoutChange};
use crate::resource::{ContextView, RenderPassContext, Resources};
use crate::state::{
    empty_inputs, lemma_unstrided_limit, index_limit, rate_limit, readiness, DrawError, OptionalState, State,
    VertexBufferState,
};
use crate::track::{extended, extended_all, TrackerSet, Unit};
use crate::types::{
    saturate_i16, clamp_to_i16, BindGroupId, BindGroupLayoutId, BufferId, PipelineLayoutId,
    RenderPipelineId, PIPELINE_FLAG_BLEND_COLOR, PIPELINE_FLAG_STENCIL_REFERENCE, Color, IndexFormat, InputStepMode, Rect,
    BIND_BUFFER_ALIGNMENT, BUFFER_USAGE_INDEX, BUFFER_USAGE_INDIRECT, BUFFER_USAGE_VERTEX, MAX_BIND_GROUPS,
    MAX_VERTEX_BUFFERS,
};

verus! {

/// A buffer or texture usage that a resource lacks.
#[derive(Clone, Copy, Debug, PartialEq, Eq, Structural)]
pub enum MissingUsage {
    Index,
    Vertex,
    Indirect,
    OutputAttachment,
}

/// Why a render pass is rejected. Every error is fatal to the pass: calls
/// recorded before it stay recorded, and the command buffer must be dropped.
#[derive(Clone, Copy, Debug, PartialEq, Eq, Structural)]
pub enum RenderPassError {
    Draw(DrawError),
    AttachmentExtentMismatch,
    AttachmentSampleCountMismatch,
    UnsupportedSampleCount,
    ResolveTargetInvalid,
    SwapChainMisuse,
    UsageBitMissing(MissingUsage),
    PassContextIncompatible,
    MisalignedDynamicOffset,
    DynamicOffsetCountMismatch,
    VertexOutOfRange,
    InstanceOutOfRange,
    IndexOutOfRange,
}

/// One command of an encoded pass. Viewport coordinates are already rounded
/// to integers and depths are `f32` bit patterns; a bind group's dynamic
/// offsets are the range `offsets_start..offsets_end` of the pass's pool.
#[derive(Clone, Copy, Debug, PartialEq, Eq, Structural)]
pub enum RenderCommand {
    SetBindGroup { index: u32, bind_group_id: BindGroupId, offsets_start: u16, offsets_end: u16 },
    SetPipeline(RenderPipelineId),
    SetIndexBuffer { buffer_id: BufferId, offset: u64 },
    SetVertexBuffer { index: u8, buffer_id: BufferId, offset: u64 },
    SetBlendValue(Color),
    SetStencilReference(u32),
    SetViewport { rect: Rect<i64>, min_depth: u32, max_depth: u32 },
    SetScissor(Rect<u32>),
    Draw { vertex_count: u32, instance_count: u32, first_vertex: u32, first_instance: u32 },
    DrawIndexed {
        index_count: u32,
        instance_count: u32,
        first_index: u32,
        base_vertex: i32,
        first_instance: u32,
    },
    DrawIndirect { buffer_id: BufferId, offset: u64 },
    DrawIndexedIndirect { buffer_id: BufferId, offset: u64 },
}

/// A render pass being recorded: its own backend command buffer, the
/// attachment formats, the draw state and the resources it used.
#[derive(Debug)]
pub struct RenderPass {
    pub raw: Vec<BackendCall>,
    pub context: RenderPassContext,
    pub state: State,
    pub trackers: TrackerSet,
    pub sample_count: u8,
}

pub struct PassView {
    pub calls: Seq<CallView>,
    pub context: ContextView,
    pub sample_count: u8,
    pub binder: BinderView,
    pub blend_color: OptionalState,
    pub stencil_reference: OptionalState,
    pub index_view: Option<(BufferId, u64, u64)>,
    pub index_format: IndexFormat,
    pub index_limit: u32,
    pub inputs: Seq<VertexBufferState>,
    pub vertex_limit: u32,
    pub instance_limit: u32,
    pub buffers: Seq<Option<Unit>>,
    pub textures: Seq<Option<Unit>>,
}

impl View for RenderPass {
    type V = PassView;

    open spec fn view(&self) -> PassView {
        PassView {
            calls: calls_view(self.raw@),
            context: self.context@,
            sample_count: self.sample_count,
            binder: self.state.binder@,
            blend_color: self.state.blend_color,
            stencil_reference: self.state.stencil_reference,
            index_view: self.state.index.bound_buffer_view,
            index_format: self.state.index.format,
            index_limit: self.state.index.limit,
            inputs: self.state.vertex.inputs@,
            vertex_limit: self.state.vertex.vertex_limit,
            instance_limit: self.state.vertex.instance_limit,
            buffers: self.trackers.buffers.units@,
            textures: self.trackers.textures.units@,
        }
    }
}

/// The offsets of the follow-up groups, concatenated in slot order.
pub open spec fn flat_offsets(groups: Seq<(BindGroupId, Seq<u64>)>) -> Seq<u64>
    decreases groups.len(),
{
    if groups.len() == 0 {
        Seq::empty()
    } else {
        flat_offsets(groups.drop_last()) + groups.last().1
    }
}

pub open spec fn group_ids(groups: Seq<(BindGroupId, Seq<u64>)>) -> Seq<BindGroupId> {
    groups.map_values(|p: (BindGroupId, Seq<u64>)| p.0)
}

/// Walks the slots of a new pipeline layout: each slot starts expecting its
/// layout; a group that matches is rebound while no earlier slot mismatched.
pub open spec fn rebind(
    b: BinderView,
    calls: Seq<CallView>,
    layout: PipelineLayoutId,
    bgls: Seq<BindGroupLayoutId>,
    i: int,
    compatible: bool,
) -> (BinderView, Seq<CallView>)
    decreases bgls.len() - i,
{
    if i < 0 || i >= bgls.len() || i >= b.entries.len() {
        (b, calls)
    } else {
        let (b2, change) = b.expect(i, bgls[i]);
        match change {
            LayoutChange::Match(g) => {
                let calls2 = if compatible {
                    calls.push(
                        CallView::BindGraphicsDescriptorSets {
                            layout,
                            first_set: i as usize,
                            sets: seq![g],
                            offsets: b2.entries[i].offsets,
                        },
                    )
                } else {
                    calls
                };
                rebind(b2, calls2, layout, bgls, i + 1, compatible)
            },
            LayoutChange::Unchanged => rebind(b2, calls, layout, bgls, i + 1, compatible),
            LayoutChange::Mismatch => rebind(b2, calls, layout, bgls, i + 1, false),
        }
    }
}

/// The vertex slots under a pipeline's strides: slots it describes take its
/// stride and step mode, the others are reset.
pub open spec fn strided(
    inputs: Seq<VertexBufferState>,
    strides: Seq<(u64, InputStepMode)>,
) -> Seq<VertexBufferState> {
    Seq::new(
        inputs.len(),
        |i: int|
            if i < strides.len() {
                VertexBufferState {
                    total_size: inputs[i].total_size,
                    stride: strides[i].0,
                    rate: strides[i].1,
                }
            } else {
                VertexBufferState {
                    total_size: inputs[i].total_size,
                    stride: 0,
                    rate: InputStepMode::Vertex,
                }
            },
    )
}

/// The command names registered objects, an existing bind-group or
/// vertex slot, offsets inside their buffers and pool ranges inside the
/// pool.
pub open spec fn command_ok(res: Resources, slots: nat, cmd: RenderCommand, offsets: Seq<u64>) -> bool {
    match cmd {
        RenderCommand::SetBindGroup { index, bind_group_id, offsets_start, offsets_end } => {
            &&& bind_group_id < res.bind_groups@.len()
            &&& index < slots
            &&& offsets_start <= offsets_end <= offsets.len()
        },
        RenderCommand::SetPipeline(pipeline) => pipeline < res.pipelines@.len(),
        RenderCommand::SetIndexBuffer { buffer_id, offset } => {
            &&& buffer_id < res.buffers@.len()
            &&& offset <= res.buffers@[buffer_id as int].size
        },
        RenderCommand::SetVertexBuffer { index, buffer_id, offset } => {
            &&& index < MAX_VERTEX_BUFFERS
            &&& buffer_id < res.buffers@.len()
            &&& offset <= res.buffers@[buffer_id as int].size
        },
        RenderCommand::DrawIndirect { buffer_id, .. } => buffer_id < res.buffers@.len(),
        RenderCommand::DrawIndexedIndirect { buffer_id, .. } => buffer_id < res.buffers@.len(),
        _ => true,
    }
}


impl PassView {
    /// The view is consistent with the registry it records against.
    pub open spec fn wf(self, res: Resources) -> bool {
        &&& self.binder.entries.len() <= MAX_BIND_GROUPS
        &&& res.wf(self.binder.entries.len())
        &&& self.inputs.len() == MAX_VERTEX_BUFFERS
        &&& match self.index_view {
            Some((buffer, start, end)) => start <= end && buffer < res.buffers@.len(),
            None => true,
        }
        &&& self.index_limit == index_limit(self.index_view, self.index_format)
        &&& self.vertex_limit == rate_limit(self.inputs, InputStepMode::Vertex)
        &&& self.instance_limit == rate_limit(self.inputs, InputStepMode::Instance)
        &&& self.buffers.len() == res.buffers@.len()
        &&& self.textures.len() == res.textures@.len()
    }

    pub open spec fn record(self, c: CallView) -> PassView {
        PassView { calls: self.calls.push(c), ..self }
    }

    pub open spec fn set_blend_color(self, color: Color) -> PassView {
        PassView {
            blend_color: OptionalState::Provided,
            ..self.record(CallView::SetBlendConstants(color))
        }
    }

    pub open spec fn set_stencil_reference(self, value: u32) -> PassView {
        PassView {
            stencil_reference: OptionalState::Provided,
            ..self.record(CallView::SetStencilReference(value))
        }
    }

    pub open spec fn set_viewport(self, rect: Rect<i64>, min_depth: u32, max_depth: u32) -> PassView {
        self.record(
            CallView::SetViewport {
                rect: Rect {
                    x: saturate_i16(rect.x as int),
                    y: saturate_i16(rect.y as int),
                    w: saturate_i16(rect.w as int),
                    h: saturate_i16(rect.h as int),
                },
                min_depth,
                max_depth,
            },
        )
    }

    pub open spec fn set_scissor(self, rect: Rect<u32>) -> PassView {
        self.record(
            CallView::SetScissor(
                Rect {
                    x: saturate_i16(rect.x as int),
                    y: saturate_i16(rect.y as int),
                    w: saturate_i16(rect.w as int),
                    h: saturate_i16(rect.h as int),
                },
            ),
        )
    }

    pub open spec fn ready(self) -> Result<(), DrawError> {
        readiness(self.binder, self.blend_color, self.stencil_reference)
    }

    pub open spec fn draw(
        self,
        vertex_count: u32,
        instance_count: u32,
        first_vertex: u32,
        first_instance: u32,
    ) -> (PassView, Result<(), RenderPassError>) {
        match self.ready() {
            Err(e) => (self, Err(RenderPassError::Draw(e))),
            Ok(()) => if first_vertex + vertex_count > self.vertex_limit {
                (self, Err(RenderPassError::VertexOutOfRange))
            } else if first_instance + instance_count > self.instance_limit {
                (self, Err(RenderPassError::InstanceOutOfRange))
            } else {
                (
                    self.record(
                        CallView::Draw {
                            vertex_start: first_vertex,
                            vertex_end: (first_vertex + vertex_count) as u32,
                            instance_start: first_instance,
                            instance_end: (first_instance + instance_count) as u32,
                        },
                    ),
                    Ok(()),
                )
            },
        }
    }

    pub open spec fn draw_indexed(
        self,
        index_count: u32,
        instance_count: u32,
        first_index: u32,
        base_vertex: i32,
        first_instance: u32,
    ) -> (PassView, Result<(), RenderPassError>) {
        match self.ready() {
            Err(e) => (self, Err(RenderPassError::Draw(e))),
            Ok(()) => if first_index + index_count > self.index_limit {
                (self, Err(RenderPassError::IndexOutOfRange))
            } else if first_instance + instance_count > self.instance_limit {
                (self, Err(RenderPassError::InstanceOutOfRange))
            } else {
                (
                    self.record(
                        CallView::DrawIndexed {
                            index_start: first_index,
                            index_end: (first_index + index_count) as u32,
                            base_vertex,
                            instance_start: first_instance,
                            instance_end: (first_instance + instance_count) as u32,
                        },
                    ),
                    Ok(()),
                )
            },
        }
    }

    pub open spec fn set_index_buffer(self, res: Resources, buffer: BufferId, offset: u64) -> (
        PassView,
        Result<(), RenderPassError>,
    ) {
        let b = res.buffers@[buffer as int];
        if b.usage & BUFFER_USAGE_INDEX == 0 {
            (self, Err(RenderPassError::UsageBitMissing(MissingUsage::Index)))
        } else {
            let view = Some((buffer, offset, b.size));
            let next = PassView {
                index_view: view,
                index_limit: index_limit(view, self.index_format),
                buffers: self.buffers.update(
                    buffer as int,
                    Some(extended(self.buffers[buffer as int], BUFFER_USAGE_INDEX)),
                ),
                ..self
            };
            (
                next.record(
                    CallView::BindIndexBuffer { buffer, offset, format: self.index_format },
                ),
                Ok(()),
            )
        }
    }

    pub open spec fn with_inputs(self, inputs: Seq<VertexBufferState>) -> PassView {
        PassView {
            inputs,
            vertex_limit: rate_limit(inputs, InputStepMode::Vertex),
            instance_limit: rate_limit(inputs, InputStepMode::Instance),
            ..self
        }
    }

    pub open spec fn set_vertex_buffer(self, res: Resources, slot: u8, buffer: BufferId, offset: u64) -> (
        PassView,
        Result<(), RenderPassError>,
    ) {
        let b = res.buffers@[buffer as int];
        if b.usage & BUFFER_USAGE_VERTEX == 0 {
            (self, Err(RenderPassError::UsageBitMissing(MissingUsage::Vertex)))
        } else {
            let old_slot = self.inputs[slot as int];
            let inputs = self.inputs.update(
                slot as int,
                VertexBufferState { total_size: (b.size - offset) as u64, ..old_slot },
            );
            let next = PassView {
                buffers: self.buffers.update(
                    buffer as int,
                    Some(extended(self.buffers[buffer as int], BUFFER_USAGE_VERTEX)),
                ),
                ..self.with_inputs(inputs)
            };
            (
                next.record(CallView::BindVertexBuffer { slot: slot as u32, buffer, offset }),
                Ok(()),
            )
        }
    }

    /// Binds a group: its dynamic offsets must be aligned and as many as the
    /// group declares; the resources it uses join the pass's; the backend call, if the binder allows one now, binds
    /// the group and its follow-ups with their offsets concatenated.
    pub open spec fn set_bind_group(
        self,
        res: Resources,
        index: u32,
        group: BindGroupId,
        offsets: Seq<u64>,
    ) -> (PassView, Result<(), RenderPassError>) {
        let bg = res.bind_groups@[group as int];
        if exists|i: int| 0 <= i < offsets.len() && offsets[i] % BIND_BUFFER_ALIGNMENT != 0 {
            (self, Err(RenderPassError::MisalignedDynamicOffset))
        } else if bg.dynamic_count != offsets.len() {
            (self, Err(RenderPassError::DynamicOffsetCountMismatch))
        } else {
            let pair = BindGroupPair { layout_id: bg.layout_id, group_id: group };
            let (binder, bound) = self.binder.provide(index as int, pair, offsets);
            let next = PassView {
                binder,
                buffers: extended_all(self.buffers, bg.used_buffers@),
                textures: extended_all(self.textures, bg.used_textures@),
                ..self
            };
            match bound {
                None => (next, Ok(())),
                Some((layout, groups)) => (
                    next.record(
                        CallView::BindGraphicsDescriptorSets {
                            layout,
                            first_set: index as usize,
                            sets: seq![group] + group_ids(groups),
                            offsets: offsets + flat_offsets(groups),
                        },
                    ),
                    Ok(()),
                ),
            }
        }
    }

    /// Switches pipelines: the pipeline must match the pass's formats and
    /// sample count; it may require a blend color or stencil reference; a new
    /// layout rebinds compatible groups; a new index format rebinds the index
    /// buffer; its strides update the vertex limits.
    pub open spec fn set_pipeline(self, res: Resources, pipeline: RenderPipelineId) -> (
        PassView,
        Result<(), RenderPassError>,
    ) {
        let pipe = res.pipelines@[pipeline as int];
        if self.context != pipe.pass_context@ {
            (self, Err(RenderPassError::PassContextIncompatible))
        } else if pipe.sample_count != self.sample_count {
            (self, Err(RenderPassError::AttachmentSampleCountMismatch))
        } else {
            let flagged = PassView {
                blend_color: self.blend_color.required(pipe.flags & PIPELINE_FLAG_BLEND_COLOR != 0),
                stencil_reference: self.stencil_reference.required(
                    pipe.flags & PIPELINE_FLAG_STENCIL_REFERENCE != 0,
                ),
                ..self
            }.record(CallView::BindGraphicsPipeline(pipeline));
            let rebound = if self.binder.layout != Some(pipe.layout_id) {
                let bgls = res.pipeline_layouts@[pipe.layout_id as int].bind_group_layout_ids@;
                let start = BinderView {
                    layout: Some(pipe.layout_id),
                    entries: self.binder.entries,
                }.reset(bgls.len() as int);
                let (b, calls) = rebind(start, flagged.calls, pipe.layout_id, bgls, 0, true);
                PassView { binder: b, calls, ..flagged }
            } else {
                flagged
            };
            let indexed = if self.index_format != pipe.index_format {
                let reformatted = PassView {
                    index_format: pipe.index_format,
                    index_limit: index_limit(self.index_view, pipe.index_format),
                    ..rebound
                };
                match self.index_view {
                    Some((buffer, start, _)) => PassView {
                        buffers: reformatted.buffers.update(
                            buffer as int,
                            Some(extended(reformatted.buffers[buffer as int], BUFFER_USAGE_INDEX)),
                        ),
                        ..reformatted
                    }.record(
                        CallView::BindIndexBuffer {
                            buffer,
                            offset: start,
                            format: pipe.index_format,
                        },
                    ),
                    None => reformatted,
                }
            } else {
                rebound
            };
            (indexed.with_inputs(strided(self.inputs, pipe.vertex_strides@)), Ok(()))
        }
    }

    /// The effect of one command, and whether it was accepted.
    #[verifier::opaque]
    pub open spec fn step(self, res: Resources, cmd: RenderCommand, offsets: Seq<u64>) -> (
        PassView,
        Result<(), RenderPassError>,
    ) {
        match cmd {
            RenderCommand::SetBindGroup { index, bind_group_id, offsets_start, offsets_end } => {
                self.set_bind_group(
                    res,
                    index,
                    bind_group_id,
                    offsets.subrange(offsets_start as int, offsets_end as int),
                )
            },
            RenderCommand::SetPipeline(pipeline) => self.set_pipeline(res, pipeline),
            RenderCommand::SetIndexBuffer { buffer_id, offset } => self.set_index_buffer(
                res,
                buffer_id,
                offset,
            ),
            RenderCommand::SetVertexBuffer { index, buffer_id, offset } => self.set_vertex_buffer(
                res,
                index,
                buffer_id,
                offset,
            ),
            RenderCommand::SetBlendValue(color) => (self.set_blend_color(color), Ok(())),
            RenderCommand::SetStencilReference(value) => (
                self.set_stencil_reference(value),
                Ok(()),
            ),
            RenderCommand::SetViewport { rect, min_depth, max_depth } => (
                self.set_viewport(rect, min_depth, max_depth),
                Ok(()),
            ),
            RenderCommand::SetScissor(rect) => (self.set_scissor(rect), Ok(())),
            RenderCommand::Draw { vertex_count, instance_count, first_vertex, first_instance } => {
                self.draw(vertex_count, instance_count, first_vertex, first_instance)
            },
            RenderCommand::DrawIndexed {
                index_count,
                instance_count,
                first_index,
                base_vertex,
                first_instance,
            } => self.draw_indexed(
                index_count,
                instance_count,
                first_index,
                base_vertex,
                first_instance,
            ),
            RenderCommand::DrawIndirect { buffer_id, offset } => self.draw_indirect(
                res,
                buffer_id,
                offset,
                false,
            ),
            RenderCommand::DrawIndexedIndirect { buffer_id, offset } => self.draw_indirect(
                res,
                buffer_id,
                offset,
                true,
            ),
        }
    }

    /// An indirect draw: readiness, then the `INDIRECT` usage of the buffer.
    pub open spec fn draw_indirect(self, res: Resources, buffer: BufferId, offset: u64, indexed: bool) -> (
        PassView,
        Result<(), RenderPassError>,
    ) {
        match self.ready() {
            Err(e) => (self, Err(RenderPassError::Draw(e))),
            Ok(()) => if res.buffers@[buffer as int].usage & BUFFER_USAGE_INDIRECT == 0 {
                (self, Err(RenderPassError::UsageBitMissing(MissingUsage::Indirect)))
            } else {
                let used = PassView {
                    buffers: self.buffers.update(
                        buffer as int,
                        Some(extended(self.buffers[buffer as int], BUFFER_USAGE_INDIRECT)),
                    ),
                    ..self
                };
                let call = if indexed {
                    CallView::DrawIndexedIndirect { buffer, offset, draw_count: 1, stride: 0 }
                } else {
                    CallView::DrawIndirect { buffer, offset, draw_count: 1, stride: 0 }
                };
                (used.record(call), Ok(()))
            },
        }
    }
}

impl RenderPass {
    pub open spec fn wf(&self, res: Resources) -> bool {
        self@.wf(res)
    }

    /// A pass that starts with the calls in `raw`, with no pipeline, bind
    /// group, index or vertex buffer bound yet.
    pub fn new(
        raw: Vec<BackendCall>,
        context: RenderPassContext,
        trackers: TrackerSet,
        sample_count: u8,
        max_bind_groups: u32,
    ) -> (r: RenderPass)
        requires
            max_bind_groups <= MAX_BIND_GROUPS,
        ensures
            r@ == (PassView {
                calls: calls_view(raw@),
                context: context@,
                sample_count,
                binder: fresh_binder(max_bind_groups as nat),
                blend_color: OptionalState::Unused,
                stencil_reference: OptionalState::Unused,
                index_view: None,
                index_format: IndexFormat::Uint16,
                index_limit: 0,
                inputs: empty_inputs(),
                vertex_limit: rate_limit(empty_inputs(), InputStepMode::Vertex),
                instance_limit: rate_limit(empty_inputs(), InputStepMode::Instance),
                buffers: trackers.buffers.units@,
                textures: trackers.textures.units@,
            }),
    {
        proof {
            lemma_unstrided_limit(empty_inputs(), InputStepMode::Vertex);
            lemma_unstrided_limit(empty_inputs(), InputStepMode::Instance);
        }
        RenderPass { raw, context, state: State::new(max_bind_groups), trackers, sample_count }
    }

    fn record(&mut self, c: BackendCall)
        ensures
            final(self)@ == old(self)@.record(c@),
            final(self).state == old(self).state,
            final(self).trackers == old(self).trackers,
    {
        self.raw.push(c);
        assert(calls_view(self.raw@) =~= calls_view(old(self).raw@).push(c@));
    }

    pub fn set_blend_color(&mut self, color: Color)
        ensures
            final(self)@ == old(self)@.set_blend_color(color),
    {
        self.state.blend_color = OptionalState::Provided;
        self.record(BackendCall::SetBlendConstants(color));
    }

    pub fn set_stencil_reference(&mut self, value: u32)
        ensures
            final(self)@ == old(self)@.set_stencil_reference(value),
    {
        self.state.stencil_reference = OptionalState::Provided;
        self.record(BackendCall::SetStencilReference(value));
    }

    /// Sets the viewport from coordinates already rounded to integers; each
    /// is clamped to the `i16` range. The depth range is given as `f32` bits.
    pub fn set_viewport(&mut self, rect: Rect<i64>, min_depth: u32, max_depth: u32)
        ensures
            final(self)@ == old(self)@.set_viewport(rect, min_depth, max_depth),
    {
        let r = Rect {
            x: clamp_to_i16(rect.x),
            y: clamp_to_i16(rect.y),
            w: clamp_to_i16(rect.w),
            h: clamp_to_i16(rect.h),
        };
        self.record(BackendCall::SetViewport { rect: r, min_depth, max_depth });
    }

    pub fn set_scissor(&mut self, rect: Rect<u32>)
        ensures
            final(self)@ == old(self)@.set_scissor(rect),
    {
        let r = Rect {
            x: clamp_to_i16(rect.x as i64),
            y: clamp_to_i16(rect.y as i64),
            w: clamp_to_i16(rect.w as i64),
            h: clamp_to_i16(rect.h as i64),
        };
        self.record(BackendCall::SetScissor(r));
    }

    /// A draw may be issued when every expected bind group is satisfied and no
    /// required blend color or stencil reference is missing.
    pub fn is_ready(&self) -> (r: Result<(), DrawError>)
        requires
            self.state.wf(),
        ensures
            r == self@.ready(),
    {
        self.state.is_ready()
    }

    fn check_ready(&self) -> (r: Result<(), RenderPassError>)
        requires
            self.state.wf(),
        ensures
            r == (match self@.ready() {
                Ok(()) => Ok(()),
                Err(e) => Err(RenderPassError::Draw(e)),
            }),
    {
        match self.is_ready() {
            Ok(()) => Ok(()),
            Err(e) => Err(RenderPassError::Draw(e)),
        }
    }

    pub fn draw(
        &mut self,
        vertex_count: u32,
        instance_count: u32,
        first_vertex: u32,
        first_instance: u32,
    ) -> (r: Result<(), RenderPassError>)
        requires
            old(self).state.wf(),
        ensures
            (final(self)@, r) == old(self)@.draw(
                vertex_count,
                instance_count,
                first_vertex,
                first_instance,
            ),
    {
        self.check_ready()?;
        if first_vertex as u64 + vertex_count as u64 > self.state.vertex.vertex_limit as u64 {
            return Err(RenderPassError::VertexOutOfRange);
        }
        if first_instance as u64 + instance_count as u64 > self.state.vertex.instance_limit as u64 {
            return Err(RenderPassError::InstanceOutOfRange);
        }
        self.record(
            BackendCall::Draw {
                vertex_start: first_vertex,
                vertex_end: first_vertex + vertex_count,
                instance_start: first_instance,
                instance_end: first_instance + instance_count,
            },
        );
        Ok(())
    }

    pub fn draw_indexed(
        &mut self,
        index_count: u32,
        instance_count: u32,
        first_index: u32,
        base_vertex: i32,
        first_instance: u32,
    ) -> (r: Result<(), RenderPassError>)
        requires
            old(self).state.wf(),
        ensures
            (final(self)@, r) == old(self)@.draw_indexed(
                index_count,
                instance_count,
                first_index,
                base_vertex,
                first_instance,
            ),
    {
        self.check_ready()?;
        if first_index as u64 + index_count as u64 > self.state.index.limit as u64 {
            return Err(RenderPassError::IndexOutOfRange);
        }
        if first_instance as u64 + instance_count as u64 > self.state.vertex.instance_limit as u64 {
            return Err(RenderPassError::InstanceOutOfRange);
        }
        self.record(
            BackendCall::DrawIndexed {
                index_start: first_index,
                index_end: first_index + index_count,
                base_vertex,
                instance_start: first_instance,
                instance_end: first_instance + instance_count,
            },
        );
        Ok(())
    }

    fn draw_indirect_inner(&mut self, res: &Resources, buffer: BufferId, offset: u64, indexed: bool) -> (r:
        Result<(), RenderPassError>)
        requires
            old(self).state.wf(),
            buffer < res.buffers@.len(),
            old(self).trackers.buffers.units@.len() == res.buffers@.len(),
        ensures
            (final(self)@, r) == old(self)@.draw_indirect(*res, buffer, offset, indexed),
    {
        self.check_ready()?;
        if res.buffers[buffer].usage & BUFFER_USAGE_INDIRECT == 0 {
            return Err(RenderPassError::UsageBitMissing(MissingUsage::Indirect));
        }
        self.trackers.buffers.use_extend(buffer, BUFFER_USAGE_INDIRECT);
        let call = if indexed {
            BackendCall::DrawIndexedIndirect { buffer, offset, draw_count: 1, stride: 0 }
        } else {
            BackendCall::DrawIndirect { buffer, offset, draw_count: 1, stride: 0 }
        };
        self.record(call);
        Ok(())
    }

    pub fn draw_indirect(&mut self, res: &Resources, buffer: BufferId, offset: u64) -> (r: Result<
        (),
        RenderPassError,
    >)
        requires
            old(self).state.wf(),
            buffer < res.buffers@.len(),
            old(self).trackers.buffers.units@.len() == res.buffers@.len(),
        ensures
            (final(self)@, r) == old(self)@.draw_indirect(*res, buffer, offset, false),
    {
        self.draw_indirect_inner(res, buffer, offset, false)
    }

    pub fn draw_indexed_indirect(&mut self, res: &Resources, buffer: BufferId, offset: u64) -> (r:
        Result<(), RenderPassError>)
        requires
            old(self).state.wf(),
            buffer < res.buffers@.len(),
            old(self).trackers.buffers.units@.len() == res.buffers@.len(),
        ensures
            (final(self)@, r) == old(self)@.draw_indirect(*res, buffer, offset, true),
    {
        self.draw_indirect_inner(res, buffer, offset, true)
    }

    pub fn set_index_buffer(&mut self, res: &Resources, buffer: BufferId, offset: u64) -> (r: Result<
        (),
        RenderPassError,
    >)
        requires
            old(self).wf(*res),
            buffer < res.buffers@.len(),
            offset <= res.buffers@[buffer as int].size,
        ensures
            final(self).wf(*res),
            (final(self)@, r) == old(self)@.set_index_buffer(*res, buffer, offset),
    {
        let b = res.buffers[buffer];
        if b.usage & BUFFER_USAGE_INDEX == 0 {
            return Err(RenderPassError::UsageBitMissing(MissingUsage::Index));
        }
        self.trackers.buffers.use_extend(buffer, BUFFER_USAGE_INDEX);
        self.state.index.bound_buffer_view = Some((buffer, offset, b.size));
        self.state.index.update_limit();
        let format = self.state.index.format;
        self.record(BackendCall::BindIndexBuffer { buffer, offset, format });
        Ok(())
    }

    pub fn set_vertex_buffer(&mut self, res: &Resources, slot: u8, buffer: BufferId, offset: u64) -> (r:
        Result<(), RenderPassError>)
        requires
            old(self).wf(*res),
            slot < MAX_VERTEX_BUFFERS,
            buffer < res.buffers@.len(),
            offset <= res.buffers@[buffer as int].size,
        ensures
            final(self).wf(*res),
            (final(self)@, r) == old(self)@.set_vertex_buffer(*res, slot, buffer, offset),
    {
        let b = res.buffers[buffer];
        if b.usage & BUFFER_USAGE_VERTEX == 0 {
            return Err(RenderPassError::UsageBitMissing(MissingUsage::Vertex));
        }
        self.trackers.buffers.use_extend(buffer, BUFFER_USAGE_VERTEX);
        let old_slot = self.state.vertex.inputs[slot as usize];
        self.state.vertex.inputs.set(
            slot as usize,
            VertexBufferState { total_size: b.size - offset, ..old_slot },
        );
        self.state.vertex.update_limits();
        self.record(BackendCall::BindVertexBuffer { slot: slot as u32, buffer, offset });
        Ok(())
    }

    pub fn set_bind_group(
        &mut self,
        res: &Resources,
        index: u32,
        group: BindGroupId,
        offsets: &[u64],
    ) -> (r: Result<(), RenderPassError>)
        requires
            old(self).wf(*res),
            group < res.bind_groups@.len(),
            index < old(self)@.binder.entries.len(),
        ensures
            final(self).wf(*res),
            (final(self)@, r) == old(self)@.set_bind_group(*res, index, group, offsets@),
            final(self)@.binder.entries.len() == old(self)@.binder.entries.len(),
    {
        let mut i: usize = 0;
        while i < offsets.len()
            invariant
                i <= offsets@.len(),
                self.wf(*res),
                forall|j: int| 0 <= j < i ==> offsets@[j] % BIND_BUFFER_ALIGNMENT == 0,
            decreases offsets@.len() - i,
        {
            if offsets[i] % BIND_BUFFER_ALIGNMENT != 0 {
                return Err(RenderPassError::MisalignedDynamicOffset);
            }
            i = i + 1;
        }
        let bg = &res.bind_groups[group];
        if bg.dynamic_count != offsets.len() {
            return Err(RenderPassError::DynamicOffsetCountMismatch);
        }
        self.trackers.buffers.extend_all(&bg.used_buffers);
        self.trackers.textures.extend_all(&bg.used_textures);
        let pair = BindGroupPair { layout_id: bg.layout_id, group_id: group };
        match self.state.binder.provide_entry(index as usize, pair, offsets) {
            None => {},
            Some((layout, follow)) => {
                let ghost groups = follow_view(follow@);
                let mut sets: Vec<BindGroupId> = Vec::new();
                sets.push(group);
                let mut all = offsets_to_vec(offsets);
                let mut k: usize = 0;
                assert(groups.subrange(0, 0) =~= Seq::<(BindGroupId, Seq<u64>)>::empty());
                assert(sets@ =~= seq![group] + group_ids(groups.subrange(0, 0)));
                assert(all@ =~= offsets@ + flat_offsets(groups.subrange(0, 0)));
                while k < follow.len()
                    invariant
                        k <= follow@.len() == groups.len(),
                        groups == follow_view(follow@),
                        sets@ == seq![group] + group_ids(groups.subrange(0, k as int)),
                        all@ == offsets@ + flat_offsets(groups.subrange(0, k as int)),
                    decreases follow@.len() - k,
                {
                    sets.push(follow[k].0);
                    let extra = &follow[k].1;
                    let ghost before = all@;
                    let mut m: usize = 0;
                    while m < extra.len()
                        invariant
                            m <= extra@.len(),
                            all@ == before + extra@.subrange(0, m as int),
                        decreases extra@.len() - m,
                    {
                        all.push(extra[m]);
                        m = m + 1;
                        assert(all@ =~= before + extra@.subrange(0, m as int));
                    }
                    assert(groups.subrange(0, k + 1).drop_last() =~= groups.subrange(0, k as int));
                    assert(groups[k as int] == (follow@[k as int].0, follow@[k as int].1@));
                    k = k + 1;
                    assert(extra@.subrange(0, extra@.len() as int) =~= extra@);
                    assert(all@ =~= offsets@ + flat_offsets(groups.subrange(0, k as int)));
                    assert(sets@ =~= seq![group] + group_ids(groups.subrange(0, k as int)));
                }
                assert(groups.subrange(0, groups.len() as int) =~= groups);
                self.record(
                    BackendCall::BindGraphicsDescriptorSets {
                        layout,
                        first_set: index as usize,
                        sets,
                        offsets: all,
                    },
                );
            },
        }
        Ok(())
    }

    fn rebind(&mut self, layout: PipelineLayoutId, bgls: &Vec<BindGroupLayoutId>)
        requires
            old(self).state.binder.entries@.len() <= MAX_BIND_GROUPS,
        ensures
            ({
                let (b, calls) = rebind(old(self)@.binder, old(self)@.calls, layout, bgls@, 0, true);
                final(self)@ == PassView { binder: b, calls, ..old(self)@ }
            }),
            final(self).state.binder.entries@.len() == old(self).state.binder.entries@.len(),
            final(self).state.index == old(self).state.index,
            final(self).state.vertex == old(self).state.vertex,
    {
        let mut compatible = true;
        let mut i: usize = 0;
        while i < bgls.len() && i < self.state.binder.entries.len()
            invariant
                self.state.binder.entries@.len() == old(self).state.binder.entries@.len(),
                self.state.index == old(self).state.index,
                self.state.vertex == old(self).state.vertex,
                rebind(self@.binder, self@.calls, layout, bgls@, i as int, compatible) == rebind(
                    old(self)@.binder,
                    old(self)@.calls,
                    layout,
                    bgls@,
                    0,
                    true,
                ),
                self@ == (PassView { binder: self@.binder, calls: self@.calls, ..old(self)@ }),
            decreases bgls@.len() - i,
        {
            match self.state.binder.expect_layout(i, bgls[i]) {
                LayoutChange::Match(g) => {
                    if compatible {
                        let offsets = offsets_to_vec(
                            self.state.binder.entries[i].dynamic_offsets.as_slice(),
                        );
                        let mut sets: Vec<BindGroupId> = Vec::new();
                        sets.push(g);
                        assert(sets@ =~= seq![g]);
                        self.record(
                            BackendCall::BindGraphicsDescriptorSets {
                                layout,
                                first_set: i,
                                sets,
                                offsets,
                            },
                        );
                    }
                },
                LayoutChange::Unchanged => {},
                LayoutChange::Mismatch => {
                    compatible = false;
                },
            }
            i = i + 1;
        }
    }

    pub fn set_pipeline(&mut self, res: &Resources, pipeline: RenderPipelineId) -> (r: Result<
        (),
        RenderPassError,
    >)
        requires
            old(self).wf(*res),
            pipeline < res.pipelines@.len(),
        ensures
            final(self).wf(*res),
            (final(self)@, r) == old(self)@.set_pipeline(*res, pipeline),
            final(self)@.binder.entries.len() == old(self)@.binder.entries.len(),
    {
        let pipe = &res.pipelines[pipeline];
        if !self.context.compatible(&pipe.pass_context) {
            return Err(RenderPassError::PassContextIncompatible);
        }
        if pipe.sample_count != self.sample_count {
            return Err(RenderPassError::AttachmentSampleCountMismatch);
        }
        self.state.blend_color.require(pipe.flags & PIPELINE_FLAG_BLEND_COLOR != 0);
        self.state.stencil_reference.require(pipe.flags & PIPELINE_FLAG_STENCIL_REFERENCE != 0);
        self.record(BackendCall::BindGraphicsPipeline(pipeline));
        if self.state.binder.pipeline_layout_id != Some(pipe.layout_id) {
            let layout = &res.pipeline_layouts[pipe.layout_id];
            self.state.binder.pipeline_layout_id = Some(pipe.layout_id);
            self.state.binder.reset_expectations(layout.bind_group_layout_ids.len());
            self.rebind(pipe.layout_id, &layout.bind_group_layout_ids);
        }
        let ghost rebound = self@;
        if self.state.index.format != pipe.index_format {
            self.state.index.format = pipe.index_format;
            self.state.index.update_limit();
            match self.state.index.bound_buffer_view {
                Some((buffer, start, _)) => {
                    self.trackers.buffers.use_extend(buffer, BUFFER_USAGE_INDEX);
                    self.record(
                        BackendCall::BindIndexBuffer {
                            buffer,
                            offset: start,
                            format: pipe.index_format,
                        },
                    );
                },
                None => {},
            }
        }
        let ghost indexed = self@;
        let strides = &pipe.vertex_strides;
        let mut i: usize = 0;
        while i < self.state.vertex.inputs.len()
            invariant
                self.state.vertex.inputs@.len() == MAX_VERTEX_BUFFERS,
                indexed.inputs.len() == MAX_VERTEX_BUFFERS,
                i <= MAX_VERTEX_BUFFERS,
                self@ == (PassView { inputs: self@.inputs, ..indexed }),
                self.state.binder.entries@.len() == old(self).state.binder.entries@.len(),
                self.state.index.wf(),
                forall|j: int|
                    0 <= j < MAX_VERTEX_BUFFERS ==> #[trigger] self@.inputs[j] == if j < i {
                        strided(indexed.inputs, strides@)[j]
                    } else {
                        indexed.inputs[j]
                    },
            decreases MAX_VERTEX_BUFFERS - i,
        {
            let old_slot = self.state.vertex.inputs[i];
            assert(old_slot == indexed.inputs[i as int]);
            let slot = if i < strides.len() {
                VertexBufferState {
                    total_size: old_slot.total_size,
                    stride: strides[i].0,
                    rate: strides[i].1,
                }
            } else {
                VertexBufferState {
                    total_size: old_slot.total_size,
                    stride: 0,
                    rate: InputStepMode::Vertex,
                }
            };
            assert(slot == strided(indexed.inputs, strides@)[i as int]);
            self.state.vertex.inputs.set(i, slot);
            i = i + 1;
        }
        assert(self@.inputs =~= strided(indexed.inputs, strides@));
        self.state.vertex.update_limits();
        Ok(())
    }

    /// Runs one command of an encoded pass.
    pub fn execute(&mut self, res: &Resources, cmd: &RenderCommand, offsets: &[u64]) -> (r: Result<
        (),
        RenderPassError,
    >)
        requires
            old(self).wf(*res),
            command_ok(*res, old(self)@.binder.entries.len(), *cmd, offsets@),
        ensures
            final(self).wf(*res),
            (final(self)@, r) == old(self)@.step(*res, *cmd, offsets@),
            final(self)@.binder.entries.len() == old(self)@.binder.entries.len(),
    {
        reveal(PassView::step);
        assert(self.state.wf());
        match *cmd {
            RenderCommand::SetBindGroup { index, bind_group_id, offsets_start, offsets_end } => {
                let pool = offsets_range(offsets, offsets_start as usize, offsets_end as usize);
                self.set_bind_group(res, index, bind_group_id, pool.as_slice())
            },
            RenderCommand::SetPipeline(pipeline) => self.set_pipeline(res, pipeline),
            RenderCommand::SetIndexBuffer { buffer_id, offset } => self.set_index_buffer(
                res,
                buffer_id,
                offset,
            ),
            RenderCommand::SetVertexBuffer { index, buffer_id, offset } => self.set_vertex_buffer(
                res,
                index,
                buffer_id,
                offset,
            ),
            RenderCommand::SetBlendValue(color) => {
                self.set_blend_color(color);
                Ok(())
            },
            RenderCommand::SetStencilReference(value) => {
                self.set_stencil_reference(value);
                Ok(())
            },
            RenderCommand::SetViewport { rect, min_depth, max_depth } => {
                self.set_viewport(rect, min_depth, max_depth);
                Ok(())
            },
            RenderCommand::SetScissor(rect) => {
                self.set_scissor(rect);
                Ok(())
            },
            RenderCommand::Draw { vertex_count, instance_count, first_vertex, first_instance } => {
                self.draw(vertex_count, instance_count, first_vertex, first_instance)
            },
            RenderCommand::DrawIndexed {
                index_count,
                instance_count,
                first_index,
                base_vertex,
                first_instance,
            } => self.draw_indexed(
                index_count,
                instance_count,
                first_index,
                base_vertex,
                first_instance,
            ),
            RenderCommand::DrawIndirect { buffer_id, offset } => self.draw_indirect(
                res,
                buffer_id,
                offset,
            ),
            RenderCommand::DrawIndexedIndirect { buffer_id, offset } => self.draw_indexed_indirect(
                res,
                buffer_id,
                offset,
            ),
        }
    }

    /// Ends the pass: its recorded calls, closed by the end of the backend
    /// render pass, and its trackers.
    pub fn finish(self) -> (r: (Vec<BackendCall>, TrackerSet))
        ensures
            calls_view(r.0@) == self@.calls.push(CallView::EndRenderPass),
            r.1.buffers.units@ == self@.buffers,
            r.1.textures.units@ == self@.textures,
    {
        let mut raw = self.raw;
        let ghost before = raw@;
        raw.push(BackendCall::EndRenderPass);
        assert(calls_view(raw@) =~= calls_view(before).push(CallView::EndRenderPass));
        (raw, self.trackers)
    }
}

/// The offsets `start..end` of a pass's offset pool.
pub fn offsets_range(offsets: &[u64], start: usize, end: usize) -> (r: Vec<u64>)
    requires
        start <= end <= offsets@.len(),
    ensures
        r@ == offsets@.subrange(start as int, end as int),
{
    let mut r: Vec<u64> = Vec::new();
    let mut i: usize = start;
    while i < end
        invariant
            start <= i <= end <= offsets@.len(),
            r@ == offsets@.subrange(start as int, i as int),
        decreases end - i,
    {
        r.push(offsets[i]);
        i = i + 1;
        assert(r@ =~= offsets@.subrange(start as int, i as int));
    }
    r
}

} // verus!
