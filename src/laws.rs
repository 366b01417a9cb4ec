use vstd::prelude::*;

use crate::attachment::{
    all_ids, attachments_check, ds_ids, framebuffer_key, render_pass_key, subpass_desc,
    RenderPassColorAttachmentDescriptor, RenderPassDepthStencilAttachmentDescriptor,
};
use crate::backend::CallView;
use crate::cache::{position, render_pass_keys, CacheView};
use crate::attachment::output_ids;
use crate::command::{begin_spec, end_spec, first_swap_chain, run_commands, CommandBufferView};
use crate::pass::{PassView, RenderCommand, RenderPassError};
use crate::resource::Resources;
use crate::state::{cap_u32, index_limit, rate_limit, slot_limit, VertexBufferState};
use crate::track::Unit;
use crate::types::{BufferId, InputStepMode, RenderPipelineId, MAX_VERTEX_BUFFERS};

verus! {

/// Once a pass has begun, all its color attachments have one extent, and the
/// depth-stencil attachment, if any, has it too.
pub proof fn lemma_begun_extents_agree(
    cmb: CommandBufferView,
    cache: CacheView,
    res: Resources,
    cs: Seq<RenderPassColorAttachmentDescriptor>,
    ds: Option<RenderPassDepthStencilAttachmentDescriptor>,
    sample_limit: u8,
    max_bind_groups: nat,
)
    requires
        begin_spec(cmb, cache, res, cs, ds, sample_limit, max_bind_groups) is Ok,
    ensures
        forall|i: int, j: int|
            0 <= i < cs.len() && 0 <= j < cs.len() ==> res.views@[cs[i].attachment as int].extent
                == res.views@[cs[j].attachment as int].extent,
        forall|i: int, d: RenderPassDepthStencilAttachmentDescriptor|
            0 <= i < cs.len() && ds == Some(d) ==> res.views@[cs[i].attachment as int].extent
                == res.views@[d.attachment as int].extent,
{
    reveal(begin_spec);
    let ids = all_ids(cs, ds);
    let n = ds_ids(ds).len();
    assert(attachments_check(res, cs, ds, sample_limit, cmb.used_swap_chain is Some) is Ok);
    assert forall|i: int| 0 <= i < cs.len() implies ids[n + i] == cs[i].attachment by {
        assert(crate::attachment::color_ids(cs)[i] == cs[i].attachment);
    }
    assert forall|i: int, j: int|
        0 <= i < cs.len() && 0 <= j < cs.len() implies res.views@[cs[i].attachment as int].extent
        == res.views@[cs[j].attachment as int].extent by {
        assert(ids[n + i] == cs[i].attachment);
        assert(ids[n + j] == cs[j].attachment);
        assert(res.views@[ids[n + i] as int].extent == res.views@[ids[0] as int].extent);
        assert(res.views@[ids[n + j] as int].extent == res.views@[ids[0] as int].extent);
    }
    assert forall|i: int, d: RenderPassDepthStencilAttachmentDescriptor|
        0 <= i < cs.len() && ds == Some(d) implies res.views@[cs[i].attachment as int].extent
        == res.views@[d.attachment as int].extent by {
        assert(ids[n + i] == cs[i].attachment);
        assert(ids[0] == d.attachment);
        assert(res.views@[ids[n + i] as int].extent == res.views@[ids[0] as int].extent);
    }
}

/// `rate_limit` is the smallest per-slot limit among the slots with a
/// stride that step at `rate`, and `u32::MAX` when there is no such slot.
pub proof fn lemma_rate_limit_is_min(s: Seq<VertexBufferState>, rate: InputStepMode)
    ensures
        forall|i: int|
            0 <= i < s.len() && s[i].stride != 0 && s[i].rate == rate ==> rate_limit(s, rate)
                <= slot_limit(#[trigger] s[i]),
        (exists|i: int| 0 <= i < s.len() && s[i].stride != 0 && s[i].rate == rate && rate_limit(s, rate) == slot_limit(#[trigger] s[i]))
            || rate_limit(s, rate) == u32::MAX,
    decreases s.len(),
{
    if s.len() > 0 {
        let rest = s.drop_last();
        lemma_rate_limit_is_min(rest, rate);
        assert forall|i: int|
            0 <= i < s.len() && s[i].stride != 0 && s[i].rate == rate implies rate_limit(s, rate)
            <= slot_limit(#[trigger] s[i]) by {
            if i < s.len() - 1 {
                assert(s[i] == rest[i]);
            }
        }
        if rate_limit(s, rate) != u32::MAX {
            if rate_limit(s, rate) == rate_limit(rest, rate) {
                let i = choose|i: int|
                    0 <= i < rest.len() && rest[i].stride != 0 && rest[i].rate == rate && rate_limit(
                        rest,
                        rate,
                    ) == slot_limit(#[trigger] rest[i]);
                assert(s[i] == rest[i]);
            } else {
                assert(s[s.len() - 1] == s.last());
            }
        }
    }
}

/// After a vertex buffer is bound, its slot holds the bytes from the offset
/// to the end of the buffer, and the vertex limit is the smallest limit over
/// the per-vertex slots with a stride.
pub proof fn lemma_vertex_buffer_limits(p: PassView, res: Resources, slot: u8, buffer: BufferId, offset: u64)
    requires
        p.wf(res),
        slot < MAX_VERTEX_BUFFERS,
        buffer < res.buffers@.len(),
        offset <= res.buffers@[buffer as int].size,
        p.set_vertex_buffer(res, slot, buffer, offset).1 is Ok,
    ensures
        ({
            let q = p.set_vertex_buffer(res, slot, buffer, offset).0;
            &&& q.inputs[slot as int].total_size == res.buffers@[buffer as int].size - offset
            &&& q.vertex_limit == rate_limit(q.inputs, InputStepMode::Vertex)
            &&& forall|i: int|
                0 <= i < q.inputs.len() && q.inputs[i].stride != 0 && q.inputs[i].rate
                    == InputStepMode::Vertex ==> q.vertex_limit <= slot_limit(#[trigger] q.inputs[i])
            &&& (exists|i: int|
                0 <= i < q.inputs.len() && q.inputs[i].stride != 0 && q.inputs[i].rate
                    == InputStepMode::Vertex && q.vertex_limit == slot_limit(#[trigger] q.inputs[i]))
                || q.vertex_limit == u32::MAX
        }),
{
    let q = p.set_vertex_buffer(res, slot, buffer, offset).0;
    lemma_rate_limit_is_min(q.inputs, InputStepMode::Vertex);
}

/// Binding an index buffer and then switching to a pipeline with another
/// index format recomputes the limit for the new format and binds the index
/// buffer again with it.
pub proof fn lemma_index_format_switch(
    p: PassView,
    res: Resources,
    buffer: BufferId,
    offset: u64,
    pipeline: RenderPipelineId,
)
    requires
        p.wf(res),
        buffer < res.buffers@.len(),
        offset <= res.buffers@[buffer as int].size,
        pipeline < res.pipelines@.len(),
        p.set_index_buffer(res, buffer, offset).1 is Ok,
        p.set_index_buffer(res, buffer, offset).0.set_pipeline(res, pipeline).1 is Ok,
        res.pipelines@[pipeline as int].index_format != p.index_format,
    ensures
        ({
            let q = p.set_index_buffer(res, buffer, offset).0;
            let s = q.set_pipeline(res, pipeline).0;
            let format = res.pipelines@[pipeline as int].index_format;
            &&& s.index_format == format
            &&& s.index_limit == cap_u32((res.buffers@[buffer as int].size - offset) / (format.size() as int))
            &&& s.calls.last() == CallView::BindIndexBuffer { buffer, offset, format }
        }),
{
    let q = p.set_index_buffer(res, buffer, offset).0;
    let size = res.buffers@[buffer as int].size;
    assert(q.index_view == Some((buffer, offset, size)));
    assert(q.index_format == p.index_format);
}

/// A draw that is accepted stays within the vertex and instance limits.
pub proof fn lemma_draw_within_limits(
    p: PassView,
    vertex_count: u32,
    instance_count: u32,
    first_vertex: u32,
    first_instance: u32,
)
    requires
        p.draw(vertex_count, instance_count, first_vertex, first_instance).1 is Ok,
    ensures
        first_vertex + vertex_count <= p.vertex_limit,
        first_instance + instance_count <= p.instance_limit,
{
}

/// Structurally equal attachments give equal render-pass and framebuffer
/// keys, and a second lookup of those keys hits the cache entries the first
/// one found or made.
pub proof fn lemma_equal_passes_share_keys(
    res: Resources,
    textures: Seq<Option<Unit>>,
    used_views: Seq<bool>,
    cs1: Seq<RenderPassColorAttachmentDescriptor>,
    ds1: Option<RenderPassDepthStencilAttachmentDescriptor>,
    cs2: Seq<RenderPassColorAttachmentDescriptor>,
    ds2: Option<RenderPassDepthStencilAttachmentDescriptor>,
    cache: CacheView,
)
    requires
        cs1 == cs2,
        ds1 == ds2,
    ensures
        render_pass_key(res, textures, used_views, cs1, ds1) == render_pass_key(res, textures, used_views, cs2, ds2),
        framebuffer_key(cs1, ds1) == framebuffer_key(cs2, ds2),
        ({
            let key = render_pass_key(res, textures, used_views, cs1, ds1);
            let (first, i) = cache.with_render_pass(key, subpass_desc(cs1, ds1 is Some));
            let (second, j) = first.with_render_pass(key, subpass_desc(cs2, ds2 is Some));
            second == first && j == i
        }),
        ({
            let key = framebuffer_key(cs1, ds1);
            let (first, i) = cache.with_framebuffer(key);
            let (second, j) = first.with_framebuffer(key);
            second == first && j == i
        }),
{
    let key = render_pass_key(res, textures, used_views, cs1, ds1);
    let sub = subpass_desc(cs1, ds1 is Some);
    let keys = render_pass_keys(cache.render_passes);
    if position(keys, key) < 0 {
        let (first, i) = cache.with_render_pass(key, sub);
        assert(render_pass_keys(first.render_passes) =~= keys.push(key));
        assert(keys.push(key).drop_last() =~= keys);
    }
    let fb = framebuffer_key(cs1, ds1);
    if position(cache.framebuffers, fb) < 0 {
        assert(cache.framebuffers.push(fb).drop_last() =~= cache.framebuffers);
    }
}

/// Issuing commands one by one through the incremental entry points, each of
/// which performs `step`, ends in the same pass as running them as an encoded
/// pass.
pub proof fn lemma_incremental_matches_encoded(
    res: Resources,
    cmds: Seq<RenderCommand>,
    offsets: Seq<u64>,
    states: Seq<PassView>,
)
    requires
        states.len() == cmds.len() + 1,
        forall|i: int|
            0 <= i < cmds.len() ==> (#[trigger] states[i]).step(res, cmds[i], offsets) == (
                states[i + 1],
                Ok::<(), RenderPassError>(()),
            ),
    ensures
        run_commands(states[0], res, cmds, offsets) == (states.last(), Ok::<(), RenderPassError>(())),
    decreases cmds.len(),
{
    if cmds.len() > 0 {
        let n = cmds.len() - 1;
        let prefix = states.take(n + 1);
        assert forall|i: int|
            0 <= i < cmds.drop_last().len() implies (#[trigger] prefix[i]).step(res, cmds.drop_last()[i], offsets) == (
            prefix[i + 1],
            Ok::<(), RenderPassError>(()),
        ) by {
            assert(prefix[i] == states[i]);
            assert(prefix[i + 1] == states[i + 1]);
        }
        lemma_incremental_matches_encoded(res, cmds.drop_last(), offsets, prefix);
        assert(states[n] == prefix.last());
        assert(states[n].step(res, cmds[n], offsets) == (states[n + 1], Ok::<(), RenderPassError>(())));
    }
}

/// Looking a key up again after it was looked up finds it where the first
/// lookup left it.
proof fn lemma_found_after_lookup<K>(keys: Seq<K>, k: K)
    ensures
        ({
            let after = if position(keys, k) >= 0 {
                keys
            } else {
                keys.push(k)
            };
            let at = if position(keys, k) >= 0 {
                position(keys, k)
            } else {
                keys.len() as int
            };
            position(after, k) == at && at >= 0
        }),
{
    if position(keys, k) < 0 {
        assert(keys.push(k).drop_last() =~= keys);
    }
}

/// Beginning a pass with the same attachments again, on a command buffer
/// whose texture usages and used views are those the first begin saw and
/// that renders to no swap-chain image, finds the render pass and the
/// framebuffer the first begin cached: the cache is unchanged and the pass
/// begins with the same calls.
pub proof fn lemma_repeated_pass_hits_cache(
    first: CommandBufferView,
    second: CommandBufferView,
    cache: CacheView,
    res: Resources,
    cs: Seq<RenderPassColorAttachmentDescriptor>,
    ds: Option<RenderPassDepthStencilAttachmentDescriptor>,
    sample_limit: u8,
    max_bind_groups: nat,
)
    requires
        begin_spec(first, cache, res, cs, ds, sample_limit, max_bind_groups) is Ok,
        second.textures == first.textures,
        second.used_views == first.used_views,
        second.used_swap_chain == first.used_swap_chain,
        first_swap_chain(res, output_ids(cs)) is None,
    ensures
        ({
            let (p1, c1, k1) = begin_spec(first, cache, res, cs, ds, sample_limit, max_bind_groups)->Ok_0;
            let again = begin_spec(second, k1, res, cs, ds, sample_limit, max_bind_groups);
            &&& again is Ok
            &&& again->Ok_0.2 == k1
            &&& again->Ok_0.0.calls == p1.calls
        }),
{
    reveal(begin_spec);
    let key = render_pass_key(res, first.textures, first.used_views, cs, ds);
    let sub = subpass_desc(cs, ds is Some);
    let keys = render_pass_keys(cache.render_passes);
    lemma_found_after_lookup(keys, key);
    let (cache1, rp) = cache.with_render_pass(key, sub);
    if position(keys, key) < 0 {
        assert(render_pass_keys(cache1.render_passes) =~= keys.push(key));
    }
    let fb = framebuffer_key(cs, ds);
    lemma_found_after_lookup(cache1.framebuffers, fb);
    let (k1, fi) = cache1.with_framebuffer(fb);
    assert(render_pass_keys(k1.render_passes) == render_pass_keys(cache1.render_passes));
}

/// A pass begun and driven command by command through the incremental entry
/// points, each of which performs `step`, and then ended, leaves the command
/// buffer exactly as the encoded entry point does for the same commands.
pub proof fn lemma_incremental_pass_matches_encoded(
    cmb: CommandBufferView,
    res: Resources,
    cmds: Seq<RenderCommand>,
    offsets: Seq<u64>,
    states: Seq<PassView>,
)
    requires
        states.len() == cmds.len() + 1,
        forall|i: int|
            0 <= i < cmds.len() ==> (#[trigger] states[i]).step(res, cmds[i], offsets) == (
                states[i + 1],
                Ok::<(), RenderPassError>(()),
            ),
    ensures
        run_commands(states[0], res, cmds, offsets) == (states.last(), Ok::<(), RenderPassError>(())),
        end_spec(cmb, run_commands(states[0], res, cmds, offsets).0) == end_spec(cmb, states.last()),
{
    lemma_incremental_matches_encoded(res, cmds, offsets, states);
}

} // verus!
