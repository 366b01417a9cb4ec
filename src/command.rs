use vstd::prelude::*;

use crate::attachment::{
    all_ids, attachments_check, build_clear_values, build_context, build_framebuffer_key,
    build_ready, build_render_pass_key, build_subpass, check_attachments, clear_values,
    recording_order, collect_ids, collect_outputs, collect_resolve_ids, extent_of, framebuffer_key, ids_registered,
    is_swap_chain, output_ids, output_textures, pass_context, pass_sample_count,
    record_outputs, recorded_outputs, render_pass_key, resolve_ids, subpass_desc, views_bounded,
    ds_ids, color_ids, FramebufferKey, FramebufferKeyView,
    RenderPassColorAttachmentDescriptor, RenderPassDepthStencilAttachmentDescriptor,
};
use crate::backend::{calls_view, BackendCall, CallView, FramebufferRef};
use crate::binder::fresh_binder;
use crate::cache::{CacheView, ObjectCache};
use crate::pass::{command_ok, PassView, RenderCommand, RenderPass, RenderPassError};
use crate::resource::{Resources, ViewSource};
use crate::state::{empty_inputs, rate_limit, OptionalState, VertexBufferState};
use crate::track::{merged, transitions, Transition, TrackerSet, Unit};
use crate::types::{
    clamp_to_i16, saturate_i16, BufferId, Color, IndexFormat, InputStepMode, Rect, TextureViewId, MAX_BIND_GROUPS, MAX_COLOR_TARGETS,
};

verus! {

/// `1.0f32` as a bit pattern: the far end of the default depth range.
pub const DEPTH_ONE_BITS: u32 = 0x3f80_0000;

/// A command buffer being encoded: its recorded sub-buffers, the resource
/// states it leaves behind, the views it has used, and the swap-chain image
/// (with the key of the framebuffer made for it) it renders to, if any.
#[derive(Debug)]
pub struct CommandBuffer {
    pub raw: Vec<Vec<BackendCall>>,
    pub trackers: TrackerSet,
    pub used_views: Vec<bool>,
    pub used_swap_chain: Option<(TextureViewId, FramebufferKey)>,
}

pub struct CommandBufferView {
    pub raw: Seq<Seq<CallView>>,
    pub buffers: Seq<Option<Unit>>,
    pub textures: Seq<Option<Unit>>,
    pub used_views: Seq<bool>,
    pub used_swap_chain: Option<(TextureViewId, FramebufferKeyView)>,
}

impl View for CommandBuffer {
    type V = CommandBufferView;

    open spec fn view(&self) -> CommandBufferView {
        CommandBufferView {
            raw: self.raw@.map_values(|b: Vec<BackendCall>| calls_view(b@)),
            buffers: self.trackers.buffers.units@,
            textures: self.trackers.textures.units@,
            used_views: self.used_views@,
            used_swap_chain: match self.used_swap_chain {
                Some((v, k)) => Some((v, k@)),
                None => None,
            },
        }
    }
}

impl CommandBufferView {
    pub open spec fn wf(self, res: Resources) -> bool {
        &&& self.buffers.len() == res.buffers@.len()
        &&& self.textures.len() == res.textures@.len()
        &&& self.used_views.len() == res.views@.len()
    }
}

/// `used` with the views in `ids` marked as used.
pub open spec fn marked(used: Seq<bool>, ids: Seq<TextureViewId>) -> Seq<bool>
    decreases ids.len(),
{
    if ids.len() == 0 {
        used
    } else {
        let prior = marked(used, ids.drop_last());
        if ids.last() < prior.len() {
            prior.update(ids.last() as int, true)
        } else {
            prior
        }
    }
}

/// The first swap-chain view in `ids`.
pub open spec fn first_swap_chain(res: Resources, ids: Seq<TextureViewId>) -> Option<TextureViewId>
    decreases ids.len(),
{
    if ids.len() == 0 {
        None
    } else {
        match first_swap_chain(res, ids.drop_last()) {
            Some(v) => Some(v),
            None => if is_swap_chain(res, ids.last()) {
                Some(ids.last())
            } else {
                None
            },
        }
    }
}

/// The area a pass renders: the attachments' extent from the origin, with
/// width and height clamped to the backend's 16-bit coordinates.
pub open spec fn pass_area(res: Resources, ids: Seq<TextureViewId>) -> Rect<i16> {
    let extent = extent_of(res, ids);
    Rect { x: 0, y: 0, w: saturate_i16(extent.width as int), h: saturate_i16(extent.height as int) }
}

/// A pass freshly begun with the given first calls, formats and tracker.
pub open spec fn fresh_pass(
    res: Resources,
    calls: Seq<CallView>,
    context: crate::resource::ContextView,
    sample_count: u8,
    max_bind_groups: nat,
    textures: Seq<Option<Unit>>,
) -> PassView {
    PassView {
        calls,
        context,
        sample_count,
        binder: fresh_binder(max_bind_groups),
        blend_color: OptionalState::Unused,
        stencil_reference: OptionalState::Unused,
        index_view: None,
        index_format: IndexFormat::Uint16,
        index_limit: 0,
        inputs: empty_inputs(),
        vertex_limit: rate_limit(empty_inputs(), InputStepMode::Vertex),
        instance_limit: rate_limit(empty_inputs(), InputStepMode::Instance),
        buffers: Seq::new(res.buffers@.len(), |i: int| None::<Unit>),
        textures,
    }
}

/// Beginning a pass: the attachments are validated; on success the pass, the
/// command buffer and the cache as they are afterwards.
#[verifier::opaque]
pub open spec fn begin_spec(
    cmb: CommandBufferView,
    cache: CacheView,
    res: Resources,
    cs: Seq<RenderPassColorAttachmentDescriptor>,
    ds: Option<RenderPassDepthStencilAttachmentDescriptor>,
    sample_limit: u8,
    max_bind_groups: nat,
) -> Result<(PassView, CommandBufferView, CacheView), RenderPassError> {
    match attachments_check(res, cs, ds, sample_limit, cmb.used_swap_chain is Some) {
        Err(e) => Err(e),
        Ok(()) => {
            let ids = all_ids(cs, ds);
            let key = render_pass_key(res, cmb.textures, cmb.used_views, cs, ds);
            let (cache1, rp) = cache.with_render_pass(key, subpass_desc(cs, ds is Some));
            let fb_key = framebuffer_key(cs, ds);
            let (cache2, framebuffer, used_swap_chain) = match first_swap_chain(res, output_ids(cs)) {
                Some(v) => (cache1, FramebufferRef::SwapChain, Some((v, fb_key))),
                None => {
                    let (c, i) = cache1.with_framebuffer(fb_key);
                    (c, FramebufferRef::Cached(i as usize), cmb.used_swap_chain)
                },
            };
            let area = pass_area(res, ids);
            let calls = seq![
                CallView::BeginRenderPass {
                    render_pass: rp as usize,
                    framebuffer,
                    area,
                    clear_values: clear_values(res, cs, ds),
                },
                CallView::SetScissor(area),
                CallView::SetViewport { rect: area, min_depth: 0, max_depth: DEPTH_ONE_BITS },
            ];
            let textures = recorded_outputs(
                Seq::new(res.textures@.len(), |i: int| None::<Unit>),
                output_textures(res, cmb.textures, recording_order(cs, ds)),
            );
            let pass = fresh_pass(
                res,
                calls,
                pass_context(res, cs, ds),
                pass_sample_count(res, cs),
                max_bind_groups,
                textures,
            );
            let cmb2 = CommandBufferView {
                used_views: marked(cmb.used_views, ids),
                used_swap_chain,
                ..cmb
            };
            Ok((pass, cmb2, cache2))
        },
    }
}

fn find_swap_chain(res: &Resources, ids: &Vec<TextureViewId>) -> (r: Option<TextureViewId>)
    requires
        forall|i: int| 0 <= i < ids@.len() ==> #[trigger] ids@[i] < res.views@.len(),
    ensures
        r == first_swap_chain(*res, ids@),
{
    let mut r: Option<TextureViewId> = None;
    let mut i: usize = 0;
    while i < ids.len()
        invariant
            i <= ids@.len(),
            forall|j: int| 0 <= j < ids@.len() ==> #[trigger] ids@[j] < res.views@.len(),
            r == first_swap_chain(*res, ids@.take(i as int)),
        decreases ids@.len() - i,
    {
        assert(ids@.take(i + 1).drop_last() =~= ids@.take(i as int));
        if r.is_none() && res.views[ids[i]].source == ViewSource::SwapChain {
            r = Some(ids[i]);
        }
        i = i + 1;
    }
    assert(ids@.take(ids@.len() as int) =~= ids@);
    r
}

impl CommandBuffer {
    /// An empty command buffer with one open sub-buffer.
    pub fn new(res: &Resources) -> (r: CommandBuffer)
        ensures
            r@.raw == seq![Seq::<CallView>::empty()],
            r@.buffers == Seq::new(res.buffers@.len() as nat, |i: int| None::<Unit>),
            r@.textures == Seq::new(res.textures@.len() as nat, |i: int| None::<Unit>),
            r@.used_views == Seq::new(res.views@.len() as nat, |i: int| false),
            r@.used_swap_chain is None,
            r@.wf(*res),
    {
        let mut raw: Vec<Vec<BackendCall>> = Vec::new();
        raw.push(Vec::new());
        let mut used_views: Vec<bool> = Vec::new();
        let mut i: usize = 0;
        while i < res.views.len()
            invariant
                i <= res.views@.len(),
                used_views@ == Seq::new(i as nat, |j: int| false),
            decreases res.views@.len() - i,
        {
            used_views.push(false);
            i = i + 1;
            assert(used_views@ =~= Seq::new(i as nat, |j: int| false));
        }
        let r = CommandBuffer {
            raw,
            trackers: TrackerSet::new(res.buffers.len(), res.textures.len()),
            used_views,
            used_swap_chain: None,
        };
        assert(calls_view(r.raw@[0]@) =~= Seq::<CallView>::empty());
        assert(r@.raw =~= seq![Seq::<CallView>::empty()]);
        r
    }

    fn mark_views(&mut self, ids: &Vec<TextureViewId>)
        ensures
            final(self)@ == (CommandBufferView { used_views: marked(old(self)@.used_views, ids@), ..old(self)@ }),
            final(self).used_swap_chain == old(self).used_swap_chain,
            final(self).raw == old(self).raw,
            final(self).trackers == old(self).trackers,
            final(self).used_views@.len() == old(self).used_views@.len(),
    {
        let mut i: usize = 0;
        while i < ids.len()
            invariant
                i <= ids@.len(),
                self.used_swap_chain == old(self).used_swap_chain,
                self.raw == old(self).raw,
                self.trackers == old(self).trackers,
                self.used_views@.len() == old(self).used_views@.len(),
                self.used_views@ == marked(old(self).used_views@, ids@.take(i as int)),
            decreases ids@.len() - i,
        {
            assert(ids@.take(i + 1).drop_last() =~= ids@.take(i as int));
            if ids[i] < self.used_views.len() {
                self.used_views.set(ids[i], true);
            }
            i = i + 1;
        }
        assert(ids@.take(ids@.len() as int) =~= ids@);
    }
}

proof fn lemma_registered(
    res: Resources,
    cs: Seq<RenderPassColorAttachmentDescriptor>,
    ds: Option<RenderPassDepthStencilAttachmentDescriptor>,
)
    requires
        ids_registered(res, cs, ds),
    ensures
        views_bounded(res, cs, all_ids(cs, ds)),
        forall|i: int| 0 <= i < output_ids(cs).len() ==> #[trigger] output_ids(cs)[i] < res.views@.len(),
        forall|i: int| 0 <= i < resolve_ids(cs).len() ==> #[trigger] resolve_ids(cs)[i] < res.views@.len(),
        forall|d: RenderPassDepthStencilAttachmentDescriptor|
            ds == Some(d) ==> d.attachment < res.views@.len(),
        forall|i: int|
            0 <= i < recording_order(cs, ds).len() ==> #[trigger] recording_order(cs, ds)[i]
                < res.views@.len(),
{
    let all = all_ids(cs, ds);
    let n = ds_ids(ds).len();
    assert(color_ids(cs).len() == cs.len());
    assert forall|i: int| 0 <= i < cs.len() implies (#[trigger] cs[i]).attachment < res.views@.len() by {
        assert(all[n + i] == cs[i].attachment);
    }
    assert forall|i: int| 0 <= i < output_ids(cs).len() implies #[trigger] output_ids(cs)[i] < res.views@.len() by {
        assert(all[n + i] == output_ids(cs)[i]);
    }
    assert forall|i: int| 0 <= i < resolve_ids(cs).len() implies #[trigger] resolve_ids(cs)[i] < res.views@.len() by {
        assert(output_ids(cs)[cs.len() + i] == resolve_ids(cs)[i]);
        assert(all[n + cs.len() + i] == resolve_ids(cs)[i]);
    }
    assert forall|d: RenderPassDepthStencilAttachmentDescriptor| ds == Some(d) implies d.attachment < res.views@.len() by {
        assert(all[0] == d.attachment);
    }
    let order = recording_order(cs, ds);
    assert forall|i: int| 0 <= i < order.len() implies #[trigger] order[i] < res.views@.len() by {
        if i < output_ids(cs).len() {
            assert(order[i] == output_ids(cs)[i]);
        } else {
            assert(order[i] == ds_ids(ds)[i - output_ids(cs).len()]);
            assert(all[i - output_ids(cs).len()] == order[i]);
        }
    }
}

fn start_calls(
    render_pass: usize,
    framebuffer: FramebufferRef,
    area: Rect<i16>,
    clears: Vec<crate::backend::ClearValue>,
) -> (r: Vec<BackendCall>)
    ensures
        calls_view(r@) == seq![
            CallView::BeginRenderPass {
                render_pass,
                framebuffer,
                area,
                clear_values: clears@,
            },
            CallView::SetScissor(area),
            CallView::SetViewport { rect: area, min_depth: 0, max_depth: DEPTH_ONE_BITS },
        ],
{
    let ghost cv = clears@;
    let mut raw: Vec<BackendCall> = Vec::new();
    raw.push(BackendCall::BeginRenderPass { render_pass, framebuffer, area, clear_values: clears });
    raw.push(BackendCall::SetScissor(area));
    raw.push(BackendCall::SetViewport { rect: area, min_depth: 0, max_depth: DEPTH_ONE_BITS });
    assert(calls_view(raw@) =~= seq![
        CallView::BeginRenderPass { render_pass, framebuffer, area, clear_values: cv },
        CallView::SetScissor(area),
        CallView::SetViewport { rect: area, min_depth: 0, max_depth: DEPTH_ONE_BITS },
    ]);
    raw
}

fn fresh_render_pass(
    res: &Resources,
    raw: Vec<BackendCall>,
    context: crate::resource::RenderPassContext,
    sample_count: u8,
    max_bind_groups: u32,
    textures: crate::track::UsageTracker,
) -> (r: RenderPass)
    requires
        res.wf(max_bind_groups as nat),
        max_bind_groups <= MAX_BIND_GROUPS,
        textures.units@.len() == res.textures@.len(),
    ensures
        r@ == fresh_pass(*res, calls_view(raw@), context@, sample_count, max_bind_groups as nat, textures.units@),
        r.wf(*res),
{
    let buffers = crate::track::UsageTracker::new(res.buffers.len());
    RenderPass::new(raw, context, TrackerSet { buffers, textures }, sample_count, max_bind_groups)
}

/// Begins a render pass on `cmb`: validates the attachments, derives and
/// caches the render pass and framebuffer, and records the pass's start.
#[verifier::rlimit(40)]
pub fn begin_render_pass(
    cmb: &mut CommandBuffer,
    cache: &mut ObjectCache,
    res: &Resources,
    cs: &[RenderPassColorAttachmentDescriptor],
    ds: Option<RenderPassDepthStencilAttachmentDescriptor>,
    sample_limit: u8,
    max_bind_groups: u32,
) -> (r: Result<RenderPass, RenderPassError>)
    requires
        old(cmb)@.wf(*res),
        res.wf(max_bind_groups as nat),
        max_bind_groups <= MAX_BIND_GROUPS,
        cs@.len() <= MAX_COLOR_TARGETS,
        cs@.len() > 0 || ds is Some,
        ids_registered(*res, cs@, ds),
    ensures
        match begin_spec(old(cmb)@, old(cache)@, *res, cs@, ds, sample_limit, max_bind_groups as nat) {
            Err(e) => r == Err::<RenderPass, RenderPassError>(e) && final(cmb)@ == old(cmb)@
                && final(cache)@ == old(cache)@,
            Ok((p, c, k)) => r is Ok && r->Ok_0@ == p && r->Ok_0.wf(*res) && final(cmb)@ == c
                && final(cache)@ == k && p.binder.entries.len() == max_bind_groups,
        },
        final(cmb)@.wf(*res),
        r is Ok ==> crate::attachment::extents_match(*res, all_ids(cs@, ds)),
{
    proof {
        reveal(begin_spec);
        lemma_registered(*res, cs@, ds);
        crate::attachment::lemma_resolve_ids_len(cs@);
    }
    let (outputs, all, ordered) = collect_ids(cs, ds);
    let used = cmb.used_swap_chain.is_some();
    match check_attachments(res, cs, ds, &outputs, &all, sample_limit, used) {
        Err(e) => {
            return Err(e);
        },
        Ok(()) => {},
    }
    let ghost old_cmb = cmb@;
    let ghost old_cache = cache@;
    let resolves = collect_resolve_ids(cs);
    assert(build_ready(*res, cmb.trackers.textures.units@, cmb.used_views@, cs@, resolves@, ds));
    let key = build_render_pass_key(res, &cmb.trackers.textures, &cmb.used_views, cs, &resolves, ds);
    let subpass = build_subpass(cs, resolves.len(), ds.is_some());
    let out_list = collect_outputs(res, &cmb.trackers.textures, &ordered);
    let fb_key = build_framebuffer_key(cs, &resolves, ds);
    let clears = build_clear_values(res, cs, ds);
    assert(build_ready(
        *res,
        Seq::new(res.textures@.len(), |i: int| None::<Unit>),
        Seq::new(res.views@.len(), |i: int| false),
        cs@,
        resolves@,
        ds,
    ));
    let context = build_context(res, cs, &resolves, ds);
    let swap = find_swap_chain(res, &outputs);
    let render_pass = cache.render_pass(key, subpass);
    let framebuffer = match swap {
        Some(v) => {
            cmb.used_swap_chain = Some((v, fb_key));
            FramebufferRef::SwapChain
        },
        None => FramebufferRef::Cached(cache.framebuffer(fb_key)),
    };
    cmb.mark_views(&all);
    let extent = res.views[all[0]].extent;
    let w = clamp_to_i16(extent.width as i64);
    let h = clamp_to_i16(extent.height as i64);
    let area = Rect { x: 0i16, y: 0i16, w, h };
    let mut textures = crate::track::UsageTracker::new(res.textures.len());
    proof {
        lemma_outputs_bounded(*res, old_cmb.textures, ordered@);
    }
    record_outputs(&mut textures, &out_list);
    let raw = start_calls(render_pass, framebuffer, area, clears);
    let sample_count: u8 = if cs.len() > 0 {
        res.views[cs[0].attachment].samples
    } else {
        1
    };
    let pass = fresh_render_pass(res, raw, context, sample_count, max_bind_groups, textures);
    Ok(pass)
}

proof fn lemma_outputs_bounded(res: Resources, textures: Seq<Option<Unit>>, ids: Seq<TextureViewId>)
    requires
        res.views_wf(),
        forall|i: int| 0 <= i < ids.len() ==> #[trigger] ids[i] < res.views@.len(),
    ensures
        forall|i: int|
            0 <= i < output_textures(res, textures, ids).len() ==> (#[trigger] output_textures(res, textures, ids)[i]).0
                < res.textures@.len(),
    decreases ids.len(),
{
    if ids.len() > 0 {
        let rest = ids.drop_last();
        assert forall|i: int| 0 <= i < rest.len() implies #[trigger] rest[i] < res.views@.len() by {
            assert(rest[i] == ids[i]);
        }
        lemma_outputs_bounded(res, textures, rest);
        assert(ids.last() == ids[ids.len() - 1]);
        assert(match res.views@[ids.last() as int].source {
            ViewSource::Native { texture } => texture < res.textures@.len(),
            ViewSource::SwapChain => true,
        });
        let prior = output_textures(res, textures, rest);
        let all = output_textures(res, textures, ids);
        assert forall|i: int| 0 <= i < all.len() implies (#[trigger] all[i]).0 < res.textures@.len() by {
            if i < prior.len() {
                assert(all[i] == prior[i]);
            }
        }
    }
}

/// The calls that perform a list of transitions.
pub open spec fn barrier_calls(ts: Seq<Transition>) -> Seq<CallView> {
    ts.map_values(|t: Transition| CallView::PipelineBarrier(t))
}

/// The command buffer after a pass ends: when it holds a sub-buffer, the
/// transitions the pass needs are recorded there and it is finished; the
/// pass's calls follow as a sub-buffer of their own; the trackers then hold
/// the resource states the pass leaves.
pub open spec fn end_spec(cmb: CommandBufferView, pass: PassView) -> CommandBufferView {
    let calls = pass.calls.push(CallView::EndRenderPass);
    let raw = if cmb.raw.len() > 0 {
        let barriers = transitions(cmb.buffers, pass.buffers, pass.buffers.len() as int, false)
            + transitions(cmb.textures, pass.textures, pass.textures.len() as int, true);
        let sealed = cmb.raw.last() + barrier_calls(barriers) + seq![CallView::Finish];
        cmb.raw.update(cmb.raw.len() - 1, sealed).push(calls)
    } else {
        cmb.raw.push(calls)
    };
    CommandBufferView {
        raw,
        buffers: Seq::new(pass.buffers.len(), |i: int| merged(cmb.buffers[i], pass.buffers[i])),
        textures: Seq::new(pass.textures.len(), |i: int| merged(cmb.textures[i], pass.textures[i])),
        ..cmb
    }
}

fn push_barriers(calls: &mut Vec<BackendCall>, ts: &Vec<Transition>)
    ensures
        calls_view(final(calls)@) == calls_view(old(calls)@) + barrier_calls(ts@),
{
    let mut i: usize = 0;
    while i < ts.len()
        invariant
            i <= ts@.len(),
            calls_view(calls@) == calls_view(old(calls)@) + barrier_calls(ts@.take(i as int)),
        decreases ts@.len() - i,
    {
        let ghost before = calls@;
        calls.push(BackendCall::PipelineBarrier(ts[i]));
        assert(calls_view(calls@) =~= calls_view(before).push(CallView::PipelineBarrier(ts@[i as int])));
        assert(barrier_calls(ts@.take(i + 1)) =~= barrier_calls(ts@.take(i as int)).push(
            CallView::PipelineBarrier(ts@[i as int]),
        ));
        i = i + 1;
        assert(calls_view(calls@) =~= calls_view(old(calls)@) + barrier_calls(ts@.take(i as int)));
    }
    assert(ts@.take(ts@.len() as int) =~= ts@);
}

/// Ends `pass` and merges it into the command buffer it was begun on.
pub fn end_pass(pass: RenderPass, cmb: &mut CommandBuffer)
    requires
        pass@.buffers.len() == old(cmb)@.buffers.len(),
        pass@.textures.len() == old(cmb)@.textures.len(),
    ensures
        final(cmb)@ == end_spec(old(cmb)@, pass@),
{
    let ghost pv = pass@;
    let (raw, trackers) = pass.finish();
    let buffer_transitions = cmb.trackers.buffers.merge_replace(&trackers.buffers, false);
    let texture_transitions = cmb.trackers.textures.merge_replace(&trackers.textures, true);
    let ghost raw_before = cmb@.raw;
    if cmb.raw.len() > 0 {
        let mut last = cmb.raw.pop().unwrap();
        assert(calls_view(last@) == raw_before.last());
        push_barriers(&mut last, &buffer_transitions);
        push_barriers(&mut last, &texture_transitions);
        let ghost pushed = last@;
        last.push(BackendCall::Finish);
        let ghost sealed = calls_view(last@);
        assert(sealed =~= calls_view(pushed).push(CallView::Finish));
        assert(barrier_calls(buffer_transitions@ + texture_transitions@) =~= barrier_calls(
            buffer_transitions@,
        ) + barrier_calls(texture_transitions@));
        assert(sealed =~= raw_before.last() + barrier_calls(buffer_transitions@ + texture_transitions@)
            + seq![CallView::Finish]);
        cmb.raw.push(last);
        assert(cmb@.raw =~= raw_before.update(raw_before.len() - 1, sealed));
    }
    let ghost mid = cmb@.raw;
    cmb.raw.push(raw);
    assert(cmb@.raw =~= mid.push(pv.calls.push(CallView::EndRenderPass)));
    assert(cmb@.raw =~= end_spec(old(cmb)@, pv).raw);
}

/// An encoded pass: attachments, commands, and the pool of dynamic offsets
/// the commands' bind groups draw on.
#[derive(Debug)]
pub struct StandaloneRenderPass {
    pub color_attachments: Vec<RenderPassColorAttachmentDescriptor>,
    pub depth_stencil_attachment: Option<RenderPassDepthStencilAttachmentDescriptor>,
    pub commands: Vec<RenderCommand>,
    pub offsets: Vec<u64>,
}

/// The commands, one after another, up to the first that is rejected.
pub open spec fn run_commands(p: PassView, res: Resources, cmds: Seq<RenderCommand>, offsets: Seq<u64>) -> (
    PassView,
    Result<(), RenderPassError>,
)
    decreases cmds.len(),
{
    if cmds.len() == 0 {
        (p, Ok(()))
    } else {
        let (q, r) = run_commands(p, res, cmds.drop_last(), offsets);
        match r {
            Err(e) => (q, Err(e)),
            Ok(()) => q.step(res, cmds.last(), offsets),
        }
    }
}

/// Every command is well formed for a pass with `slots` bind-group slots.
pub open spec fn commands_ok(res: Resources, slots: nat, cmds: Seq<RenderCommand>, offsets: Seq<u64>) -> bool {
    forall|i: int| 0 <= i < cmds.len() ==> command_ok(res, slots, #[trigger] cmds[i], offsets)
}

/// Records an encoded pass in one call: begin, every command, end and merge.
/// A rejected command ends the attempt; the command buffer must then be
/// dropped.
pub fn run_render_pass(
    cmb: &mut CommandBuffer,
    cache: &mut ObjectCache,
    res: &Resources,
    pass: &StandaloneRenderPass,
    sample_limit: u8,
    max_bind_groups: u32,
) -> (r: Result<(), RenderPassError>)
    requires
        old(cmb)@.wf(*res),
        res.wf(max_bind_groups as nat),
        max_bind_groups <= MAX_BIND_GROUPS,
        pass.color_attachments@.len() <= MAX_COLOR_TARGETS,
        pass.color_attachments@.len() > 0 || pass.depth_stencil_attachment is Some,
        ids_registered(*res, pass.color_attachments@, pass.depth_stencil_attachment),
        commands_ok(*res, max_bind_groups as nat, pass.commands@, pass.offsets@),
    ensures
        final(cmb)@.wf(*res),
        r is Ok ==> crate::attachment::extents_match(*res, all_ids(pass.color_attachments@, pass.depth_stencil_attachment)),
        match begin_spec(
            old(cmb)@,
            old(cache)@,
            *res,
            pass.color_attachments@,
            pass.depth_stencil_attachment,
            sample_limit,
            max_bind_groups as nat,
        ) {
            Err(e) => r == Err::<(), RenderPassError>(e) && final(cmb)@ == old(cmb)@ && final(cache)@
                == old(cache)@,
            Ok((p, c, k)) => final(cache)@ == k && ({
                let (q, outcome) = run_commands(p, *res, pass.commands@, pass.offsets@);
                &&& r == outcome
                &&& outcome is Ok ==> final(cmb)@ == end_spec(c, q)
                &&& outcome is Err ==> final(cmb)@ == c
            }),
        },
{
    let mut rp = match begin_render_pass(
        cmb,
        cache,
        res,
        pass.color_attachments.as_slice(),
        pass.depth_stencil_attachment,
        sample_limit,
        max_bind_groups,
    ) {
        Err(e) => {
            return Err(e);
        },
        Ok(rp) => rp,
    };
    let ghost begun = rp@;
    let ghost c = cmb@;
    let ghost k = cache@;
    let cmds = &pass.commands;
    let mut i: usize = 0;
    let mut outcome: Result<(), RenderPassError> = Ok(());
    assert(cmds@.take(0) =~= Seq::<RenderCommand>::empty());
    while outcome.is_ok() && i < cmds.len()
        invariant
            i <= cmds@.len(),
            rp.wf(*res),
            rp@.binder.entries.len() == max_bind_groups,
            cmb@ == c,
            cache@ == k,
            c.wf(*res),
            begin_spec(
                old(cmb)@,
                old(cache)@,
                *res,
                pass.color_attachments@,
                pass.depth_stencil_attachment,
                sample_limit,
                max_bind_groups as nat,
            ) == Ok::<(PassView, CommandBufferView, CacheView), RenderPassError>((begun, c, k)),
            commands_ok(*res, max_bind_groups as nat, cmds@, pass.offsets@),
            (rp@, outcome) == run_commands(begun, *res, cmds@.take(i as int), pass.offsets@),
        decreases cmds@.len() - i,
    {
        assert(cmds@.take(i + 1).drop_last() =~= cmds@.take(i as int));
        assert(cmds@.take(i + 1).last() == cmds@[i as int]);
        assert(command_ok(*res, max_bind_groups as nat, cmds@[i as int], pass.offsets@));
        outcome = rp.execute(res, &cmds[i], pass.offsets.as_slice());
        i = i + 1;
    }
    if outcome.is_err() {
        proof {
            lemma_run_stops(begun, *res, cmds@, pass.offsets@, i as int);
        }
        return outcome;
    }
    assert(cmds@.take(cmds@.len() as int) =~= cmds@);
    end_pass(rp, cmb);
    outcome
}

/// Once a command is rejected, later commands change nothing.
proof fn lemma_run_stops(p: PassView, res: Resources, cmds: Seq<RenderCommand>, offsets: Seq<u64>, n: int)
    requires
        0 <= n <= cmds.len(),
        run_commands(p, res, cmds.take(n), offsets).1 is Err,
    ensures
        run_commands(p, res, cmds, offsets) == run_commands(p, res, cmds.take(n), offsets),
    decreases cmds.len() - n,
{
    if n < cmds.len() {
        assert(cmds.drop_last().take(n) =~= cmds.take(n));
        lemma_run_stops(p, res, cmds.drop_last(), offsets, n);
    } else {
        assert(cmds.take(n) =~= cmds);
    }
}

/// The SetVertexBuffer commands that binding `buffers` from `start_slot` on
/// amounts to; slots past the last are not bound.
pub open spec fn vertex_buffer_commands(start_slot: u32, buffers: Seq<BufferId>, offsets: Seq<u64>) -> Seq<
    RenderCommand,
> {
    let room = crate::types::MAX_VERTEX_BUFFERS - start_slot;
    let n = if buffers.len() < room {
        buffers.len() as int
    } else {
        room
    };
    Seq::new(
        n as nat,
        |k: int|
            RenderCommand::SetVertexBuffer {
                index: (start_slot + k) as u8,
                buffer_id: buffers[k],
                offset: offsets[k],
            },
    )
}

/// An empty offset pool, for commands that take no dynamic offsets.
fn no_offsets() -> (r: Vec<u64>)
    ensures
        r@ == Seq::<u64>::empty(),
{
    let r: Vec<u64> = Vec::new();
    assert(r@ =~= Seq::<u64>::empty());
    r
}

/// The vertex slots after the first `n` of `buffers` are bound from
/// `start_slot` on: each bound slot holds the bytes from its offset to the
/// end of its buffer; strides, step modes and the other slots are unchanged.
pub open spec fn bound_inputs(
    inputs: Seq<VertexBufferState>,
    res: Resources,
    start_slot: u32,
    buffers: Seq<BufferId>,
    offsets: Seq<u64>,
    n: int,
) -> Seq<VertexBufferState> {
    Seq::new(
        inputs.len(),
        |j: int|
            if start_slot <= j < start_slot + n {
                VertexBufferState {
                    total_size: (res.buffers@[buffers[j - start_slot] as int].size - offsets[j
                        - start_slot]) as u64,
                    ..inputs[j]
                }
            } else {
                inputs[j]
            },
    )
}

/// The device-level context that passes are recorded against: the object
/// registry, the render-pass and framebuffer caches, and the limits of the
/// device (supported sample counts as a bit mask, and bind-group slots).
#[derive(Debug)]
pub struct Global {
    pub resources: Resources,
    pub cache: ObjectCache,
    pub sample_limit: u8,
    pub max_bind_groups: u32,
}

impl Global {
    pub open spec fn wf(&self) -> bool {
        &&& self.resources.wf(self.max_bind_groups as nat)
        &&& self.max_bind_groups <= MAX_BIND_GROUPS
    }

    /// The pass is one begun against this context.
    pub open spec fn owns(&self, pass: PassView) -> bool {
        &&& pass.wf(self.resources)
        &&& pass.binder.entries.len() == self.max_bind_groups
    }

    pub fn command_encoder_begin_render_pass(
        &mut self,
        cmb: &mut CommandBuffer,
        color_attachments: &[RenderPassColorAttachmentDescriptor],
        depth_stencil_attachment: Option<RenderPassDepthStencilAttachmentDescriptor>,
    ) -> (r: Result<RenderPass, RenderPassError>)
        requires
            old(self).wf(),
            old(cmb)@.wf(old(self).resources),
            color_attachments@.len() <= MAX_COLOR_TARGETS,
            color_attachments@.len() > 0 || depth_stencil_attachment is Some,
            ids_registered(old(self).resources, color_attachments@, depth_stencil_attachment),
        ensures
            final(self).wf(),
            final(self).resources == old(self).resources,
            final(cmb)@.wf(final(self).resources),
            r is Ok ==> crate::attachment::extents_match(old(self).resources, all_ids(color_attachments@, depth_stencil_attachment)),
            match begin_spec(
                old(cmb)@,
                old(self).cache@,
                old(self).resources,
                color_attachments@,
                depth_stencil_attachment,
                old(self).sample_limit,
                old(self).max_bind_groups as nat,
            ) {
                Err(e) => r == Err::<RenderPass, RenderPassError>(e) && final(cmb)@ == old(cmb)@
                    && final(self).cache@ == old(self).cache@,
                Ok((p, c, k)) => r is Ok && r->Ok_0@ == p && final(self).owns(p) && final(cmb)@ == c
                    && final(self).cache@ == k,
            },
    {
        begin_render_pass(
            cmb,
            &mut self.cache,
            &self.resources,
            color_attachments,
            depth_stencil_attachment,
            self.sample_limit,
            self.max_bind_groups,
        )
    }

    pub fn command_encoder_run_render_pass(&mut self, cmb: &mut CommandBuffer, pass: &StandaloneRenderPass) -> (r:
        Result<(), RenderPassError>)
        requires
            old(self).wf(),
            old(cmb)@.wf(old(self).resources),
            pass.color_attachments@.len() <= MAX_COLOR_TARGETS,
            pass.color_attachments@.len() > 0 || pass.depth_stencil_attachment is Some,
            ids_registered(old(self).resources, pass.color_attachments@, pass.depth_stencil_attachment),
            commands_ok(old(self).resources, old(self).max_bind_groups as nat, pass.commands@, pass.offsets@),
        ensures
            final(self).wf(),
            final(self).resources == old(self).resources,
            final(cmb)@.wf(final(self).resources),
            r is Ok ==> crate::attachment::extents_match(old(self).resources, all_ids(pass.color_attachments@, pass.depth_stencil_attachment)),
            match begin_spec(
                old(cmb)@,
                old(self).cache@,
                old(self).resources,
                pass.color_attachments@,
                pass.depth_stencil_attachment,
                old(self).sample_limit,
                old(self).max_bind_groups as nat,
            ) {
                Err(e) => r == Err::<(), RenderPassError>(e) && final(cmb)@ == old(cmb)@
                    && final(self).cache@ == old(self).cache@,
                Ok((p, c, k)) => final(self).cache@ == k && ({
                    let (q, outcome) = run_commands(p, old(self).resources, pass.commands@, pass.offsets@);
                    &&& r == outcome
                    &&& outcome is Ok ==> final(cmb)@ == end_spec(c, q)
                    &&& outcome is Err ==> final(cmb)@ == c
                }),
            },
    {
        run_render_pass(
            cmb,
            &mut self.cache,
            &self.resources,
            pass,
            self.sample_limit,
            self.max_bind_groups,
        )
    }

    pub fn render_pass_end_pass(&self, pass: RenderPass, cmb: &mut CommandBuffer)
        requires
            self.owns(pass@),
            old(cmb)@.wf(self.resources),
        ensures
            final(cmb)@ == end_spec(old(cmb)@, pass@),
            final(cmb)@.wf(self.resources),
    {
        end_pass(pass, cmb);
    }

    pub fn render_pass_set_bind_group(
        &self,
        pass: &mut RenderPass,
        index: u32,
        bind_group_id: crate::types::BindGroupId,
        offsets: &[u64],
    ) -> (r: Result<(), RenderPassError>)
        requires
            self.owns(old(pass)@),
            bind_group_id < self.resources.bind_groups@.len(),
            index < self.max_bind_groups,
        ensures
            self.owns(final(pass)@),
            (final(pass)@, r) == old(pass)@.set_bind_group(self.resources, index, bind_group_id, offsets@),
    {
        pass.set_bind_group(&self.resources, index, bind_group_id, offsets)
    }

    pub fn render_pass_set_pipeline(&self, pass: &mut RenderPass, pipeline_id: crate::types::RenderPipelineId) -> (r:
        Result<(), RenderPassError>)
        requires
            self.owns(old(pass)@),
            pipeline_id < self.resources.pipelines@.len(),
        ensures
            self.owns(final(pass)@),
            (final(pass)@, r) == old(pass)@.step(self.resources, RenderCommand::SetPipeline(pipeline_id), Seq::empty()),
    {
        let none = no_offsets();
        pass.execute(&self.resources, &RenderCommand::SetPipeline(pipeline_id), none.as_slice())
    }

    pub fn render_pass_set_index_buffer(&self, pass: &mut RenderPass, buffer_id: BufferId, offset: u64) -> (r:
        Result<(), RenderPassError>)
        requires
            self.owns(old(pass)@),
            buffer_id < self.resources.buffers@.len(),
            offset <= self.resources.buffers@[buffer_id as int].size,
        ensures
            self.owns(final(pass)@),
            (final(pass)@, r) == old(pass)@.step(
                self.resources,
                RenderCommand::SetIndexBuffer { buffer_id, offset },
                Seq::empty(),
            ),
    {
        let none = no_offsets();
        pass.execute(&self.resources, &RenderCommand::SetIndexBuffer { buffer_id, offset }, none.as_slice())
    }

    /// Binds `buffers` to consecutive slots from `start_slot`, one slot per
    /// buffer, as that many SetVertexBuffer commands would.
    pub fn render_pass_set_vertex_buffers(
        &self,
        pass: &mut RenderPass,
        start_slot: u32,
        buffers: &[BufferId],
        offsets: &[u64],
    ) -> (r: Result<(), RenderPassError>)
        requires
            self.owns(old(pass)@),
            buffers@.len() == offsets@.len(),
            start_slot <= crate::types::MAX_VERTEX_BUFFERS,
            forall|k: int|
                0 <= k < buffers@.len() ==> #[trigger] buffers@[k] < self.resources.buffers@.len()
                    && offsets@[k] <= self.resources.buffers@[buffers@[k] as int].size,
        ensures
            self.owns(final(pass)@),
            (final(pass)@, r) == run_commands(
                old(pass)@,
                self.resources,
                vertex_buffer_commands(start_slot, buffers@, offsets@),
                Seq::empty(),
            ),
            r is Ok ==> final(pass)@.inputs == bound_inputs(
                old(pass)@.inputs,
                self.resources,
                start_slot,
                buffers@,
                offsets@,
                vertex_buffer_commands(start_slot, buffers@, offsets@).len() as int,
            ),
            r is Ok ==> final(pass)@.vertex_limit == rate_limit(final(pass)@.inputs, InputStepMode::Vertex),
            r is Ok ==> final(pass)@.instance_limit == rate_limit(
                final(pass)@.inputs,
                InputStepMode::Instance,
            ),
    {
        let ghost cmds = vertex_buffer_commands(start_slot, buffers@, offsets@);
        let ghost begun = pass@;
        let mut k: usize = 0;
        let mut outcome: Result<(), RenderPassError> = Ok(());
        assert(cmds.take(0) =~= Seq::<RenderCommand>::empty());
        while outcome.is_ok() && k < buffers.len() && (start_slot as usize) + k < crate::types::MAX_VERTEX_BUFFERS
            invariant
                k <= buffers@.len() == offsets@.len(),
                start_slot <= crate::types::MAX_VERTEX_BUFFERS,
                k <= cmds.len(),
                cmds == vertex_buffer_commands(start_slot, buffers@, offsets@),
                self.owns(pass@),
                forall|j: int|
                    0 <= j < buffers@.len() ==> #[trigger] buffers@[j] < self.resources.buffers@.len()
                        && offsets@[j] <= self.resources.buffers@[buffers@[j] as int].size,
                (pass@, outcome) == run_commands(begun, self.resources, cmds.take(k as int), Seq::empty()),
                outcome is Ok ==> pass@.inputs == bound_inputs(
                    begun.inputs,
                    self.resources,
                    start_slot,
                    buffers@,
                    offsets@,
                    k as int,
                ),
                begun.inputs.len() == crate::types::MAX_VERTEX_BUFFERS,
            decreases buffers@.len() - k,
        {
            let cmd = RenderCommand::SetVertexBuffer {
                index: (start_slot as usize + k) as u8,
                buffer_id: buffers[k],
                offset: offsets[k],
            };
            assert(cmds[k as int] == cmd);
            assert(cmds.take(k + 1).drop_last() =~= cmds.take(k as int));
            assert(cmds.take(k + 1).last() == cmd);
            let none = no_offsets();
            let ghost before = pass@;
            outcome = pass.execute(&self.resources, &cmd, none.as_slice());
            proof {
                reveal(PassView::step);
                if outcome is Ok {
                    let slot = start_slot + k;
                    assert(bound_inputs(begun.inputs, self.resources, start_slot, buffers@, offsets@, k + 1)
                        =~= before.inputs.update(
                        slot,
                        VertexBufferState {
                            total_size: (self.resources.buffers@[buffers@[k as int] as int].size
                                - offsets@[k as int]) as u64,
                            ..before.inputs[slot]
                        },
                    ));
                }
            }
            k = k + 1;
        }
        proof {
            if outcome is Err {
                lemma_run_stops(begun, self.resources, cmds, Seq::empty(), k as int);
            } else {
                assert(cmds.take(k as int) =~= cmds);
            }
        }
        outcome
    }

    pub fn render_pass_draw(
        &self,
        pass: &mut RenderPass,
        vertex_count: u32,
        instance_count: u32,
        first_vertex: u32,
        first_instance: u32,
    ) -> (r: Result<(), RenderPassError>)
        requires
            self.owns(old(pass)@),
        ensures
            self.owns(final(pass)@),
            (final(pass)@, r) == old(pass)@.step(
                self.resources,
                RenderCommand::Draw { vertex_count, instance_count, first_vertex, first_instance },
                Seq::empty(),
            ),
    {
        let none = no_offsets();
        pass.execute(
            &self.resources,
            &RenderCommand::Draw { vertex_count, instance_count, first_vertex, first_instance },
            none.as_slice(),
        )
    }

    pub fn render_pass_draw_indirect(
        &self,
        pass: &mut RenderPass,
        indirect_buffer_id: BufferId,
        indirect_offset: u64,
    ) -> (r: Result<(), RenderPassError>)
        requires
            self.owns(old(pass)@),
            indirect_buffer_id < self.resources.buffers@.len(),
        ensures
            self.owns(final(pass)@),
            (final(pass)@, r) == old(pass)@.step(
                self.resources,
                RenderCommand::DrawIndirect { buffer_id: indirect_buffer_id, offset: indirect_offset },
                Seq::empty(),
            ),
    {
        let none = no_offsets();
        pass.execute(
            &self.resources,
            &RenderCommand::DrawIndirect { buffer_id: indirect_buffer_id, offset: indirect_offset },
            none.as_slice(),
        )
    }

    pub fn render_pass_draw_indexed(
        &self,
        pass: &mut RenderPass,
        index_count: u32,
        instance_count: u32,
        first_index: u32,
        base_vertex: i32,
        first_instance: u32,
    ) -> (r: Result<(), RenderPassError>)
        requires
            self.owns(old(pass)@),
        ensures
            self.owns(final(pass)@),
            (final(pass)@, r) == old(pass)@.step(
                self.resources,
                RenderCommand::DrawIndexed {
                    index_count,
                    instance_count,
                    first_index,
                    base_vertex,
                    first_instance,
                },
                Seq::empty(),
            ),
    {
        let none = no_offsets();
        pass.execute(
            &self.resources,
            &RenderCommand::DrawIndexed {
                index_count,
                instance_count,
                first_index,
                base_vertex,
                first_instance,
            },
            none.as_slice(),
        )
    }

    pub fn render_pass_draw_indexed_indirect(
        &self,
        pass: &mut RenderPass,
        indirect_buffer_id: BufferId,
        indirect_offset: u64,
    ) -> (r: Result<(), RenderPassError>)
        requires
            self.owns(old(pass)@),
            indirect_buffer_id < self.resources.buffers@.len(),
        ensures
            self.owns(final(pass)@),
            (final(pass)@, r) == old(pass)@.step(
                self.resources,
                RenderCommand::DrawIndexedIndirect {
                    buffer_id: indirect_buffer_id,
                    offset: indirect_offset,
                },
                Seq::empty(),
            ),
    {
        let none = no_offsets();
        pass.execute(
            &self.resources,
            &RenderCommand::DrawIndexedIndirect { buffer_id: indirect_buffer_id, offset: indirect_offset },
            none.as_slice(),
        )
    }

    pub fn render_pass_set_blend_color(&self, pass: &mut RenderPass, color: &Color)
        requires
            self.owns(old(pass)@),
        ensures
            self.owns(final(pass)@),
            (final(pass)@, Ok::<(), RenderPassError>(())) == old(pass)@.step(
                self.resources,
                RenderCommand::SetBlendValue(*color),
                Seq::empty(),
            ),
    {
        proof {
            reveal(PassView::step);
        }
        pass.set_blend_color(*color);
    }

    pub fn render_pass_set_stencil_reference(&self, pass: &mut RenderPass, value: u32)
        requires
            self.owns(old(pass)@),
        ensures
            self.owns(final(pass)@),
            (final(pass)@, Ok::<(), RenderPassError>(())) == old(pass)@.step(
                self.resources,
                RenderCommand::SetStencilReference(value),
                Seq::empty(),
            ),
    {
        proof {
            reveal(PassView::step);
        }
        pass.set_stencil_reference(value);
    }

    /// Sets the viewport from coordinates already rounded to the nearest
    /// integer; `min_depth` and `max_depth` are `f32` bit patterns.
    pub fn render_pass_set_viewport(
        &self,
        pass: &mut RenderPass,
        x: i64,
        y: i64,
        w: i64,
        h: i64,
        min_depth: u32,
        max_depth: u32,
    )
        requires
            self.owns(old(pass)@),
        ensures
            self.owns(final(pass)@),
            (final(pass)@, Ok::<(), RenderPassError>(())) == old(pass)@.step(
                self.resources,
                RenderCommand::SetViewport { rect: Rect { x, y, w, h }, min_depth, max_depth },
                Seq::empty(),
            ),
    {
        proof {
            reveal(PassView::step);
        }
        pass.set_viewport(Rect { x, y, w, h }, min_depth, max_depth);
    }

    pub fn render_pass_set_scissor_rect(&self, pass: &mut RenderPass, x: u32, y: u32, w: u32, h: u32)
        requires
            self.owns(old(pass)@),
        ensures
            self.owns(final(pass)@),
            (final(pass)@, Ok::<(), RenderPassError>(())) == old(pass)@.step(
                self.resources,
                RenderCommand::SetScissor(Rect { x, y, w, h }),
                Seq::empty(),
            ),
    {
        proof {
            reveal(PassView::step);
        }
        pass.set_scissor(Rect { x, y, w, h });
    }
}

} // verus!
