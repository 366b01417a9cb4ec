use vstd::prelude::*;

use arrayvec::ArrayVec;

use crate::backend::ClearValue;
use crate::pass::{MissingUsage, RenderPassError};
use crate::resource::{ContextView, RenderPassContext, Resources, ViewSource};
use crate::track::{replaced, Unit, UsageTracker};
use crate::types::{
    Color, Extent3d, TextureId, MAX_TOTAL_ATTACHMENTS, LoadOp, StoreOp, TextureFormat, TextureViewId, TEXTURE_USAGE_COPY_DST,
    TEXTURE_USAGE_COPY_SRC, TEXTURE_USAGE_OUTPUT_ATTACHMENT, TEXTURE_USAGE_SAMPLED,
    TEXTURE_USAGE_UNINITIALIZED,
};

verus! {

#[derive(Clone, Copy, Debug)]
pub struct RenderPassColorAttachmentDescriptorBase<T> {
    pub attachment: TextureViewId,
    pub resolve_target: Option<T>,
    pub load_op: LoadOp,
    pub store_op: StoreOp,
    pub clear_color: Color,
}

pub type RenderPassColorAttachmentDescriptor = RenderPassColorAttachmentDescriptorBase<TextureViewId>;

/// Depth-stencil attachment; the clear depth is the bit pattern of an `f32`.
#[derive(Clone, Copy, Debug)]
pub struct RenderPassDepthStencilAttachmentDescriptorBase<T> {
    pub attachment: T,
    pub depth_load_op: LoadOp,
    pub depth_store_op: StoreOp,
    pub clear_depth: u32,
    pub stencil_load_op: LoadOp,
    pub stencil_store_op: StoreOp,
    pub clear_stencil: u32,
}

pub type RenderPassDepthStencilAttachmentDescriptor = RenderPassDepthStencilAttachmentDescriptorBase<
    TextureViewId,
>;

#[derive(Clone, Copy, Debug, Hash, PartialEq, Eq, Structural)]
pub enum AttachmentLoadOp {
    Load,
    Clear,
    DontCare,
}

#[derive(Clone, Copy, Debug, Hash, PartialEq, Eq, Structural)]
pub enum AttachmentStoreOp {
    Store,
    DontCare,
}

#[derive(Clone, Copy, Debug, Hash, PartialEq, Eq, Structural)]
pub struct AttachmentOps {
    pub load: AttachmentLoadOp,
    pub store: AttachmentStoreOp,
}

#[derive(Clone, Copy, Debug, Hash, PartialEq, Eq, Structural)]
pub enum ImageLayout {
    General,
    ColorAttachmentOptimal,
    DepthStencilAttachmentOptimal,
    ShaderReadOnlyOptimal,
    TransferSrcOptimal,
    TransferDstOptimal,
    Undefined,
    Present,
}

/// One attachment of a backend render pass.
#[derive(Clone, Copy, Debug, Hash, PartialEq, Eq, Structural)]
pub struct AttachmentDesc {
    pub format: TextureFormat,
    pub samples: u8,
    pub ops: AttachmentOps,
    pub stencil_ops: AttachmentOps,
    pub initial_layout: ImageLayout,
    pub final_layout: ImageLayout,
}

pub open spec fn map_ops(load: LoadOp, store: StoreOp) -> AttachmentOps {
    AttachmentOps {
        load: match load {
            LoadOp::Clear => AttachmentLoadOp::Clear,
            LoadOp::Load => AttachmentLoadOp::Load,
        },
        store: match store {
            StoreOp::Clear => AttachmentStoreOp::DontCare,
            StoreOp::Store => AttachmentStoreOp::Store,
        },
    }
}

pub fn map_load_store_ops(load: LoadOp, store: StoreOp) -> (r: AttachmentOps)
    ensures
        r == map_ops(load, store),
{
    AttachmentOps {
        load: match load {
            LoadOp::Clear => AttachmentLoadOp::Clear,
            LoadOp::Load => AttachmentLoadOp::Load,
        },
        store: match store {
            StoreOp::Clear => AttachmentStoreOp::DontCare,
            StoreOp::Store => AttachmentStoreOp::Store,
        },
    }
}

pub open spec fn dont_care() -> AttachmentOps {
    AttachmentOps { load: AttachmentLoadOp::DontCare, store: AttachmentStoreOp::DontCare }
}

pub open spec fn optimal_layout(is_color: bool) -> ImageLayout {
    if is_color {
        ImageLayout::ColorAttachmentOptimal
    } else {
        ImageLayout::DepthStencilAttachmentOptimal
    }
}

/// The image layout a texture is in when it was last used with `usage`.
pub open spec fn usage_layout(usage: u32, is_color: bool) -> ImageLayout {
    if usage == TEXTURE_USAGE_UNINITIALIZED {
        ImageLayout::Undefined
    } else if usage == TEXTURE_USAGE_COPY_SRC {
        ImageLayout::TransferSrcOptimal
    } else if usage == TEXTURE_USAGE_COPY_DST {
        ImageLayout::TransferDstOptimal
    } else if usage == TEXTURE_USAGE_SAMPLED {
        ImageLayout::ShaderReadOnlyOptimal
    } else if usage == TEXTURE_USAGE_OUTPUT_ATTACHMENT {
        optimal_layout(is_color)
    } else {
        ImageLayout::General
    }
}

pub fn texture_layout(usage: u32, is_color: bool) -> (r: ImageLayout)
    ensures
        r == usage_layout(usage, is_color),
{
    if usage == TEXTURE_USAGE_UNINITIALIZED {
        ImageLayout::Undefined
    } else if usage == TEXTURE_USAGE_COPY_SRC {
        ImageLayout::TransferSrcOptimal
    } else if usage == TEXTURE_USAGE_COPY_DST {
        ImageLayout::TransferDstOptimal
    } else if usage == TEXTURE_USAGE_SAMPLED {
        ImageLayout::ShaderReadOnlyOptimal
    } else if usage == TEXTURE_USAGE_OUTPUT_ATTACHMENT {
        if is_color {
            ImageLayout::ColorAttachmentOptimal
        } else {
            ImageLayout::DepthStencilAttachmentOptimal
        }
    } else {
        ImageLayout::General
    }
}

/// The resolve targets of the color attachments that have one, in order.
pub open spec fn resolve_ids(cs: Seq<RenderPassColorAttachmentDescriptor>) -> Seq<TextureViewId>
    decreases cs.len(),
{
    if cs.len() == 0 {
        Seq::empty()
    } else {
        let rest = resolve_ids(cs.drop_last());
        match cs.last().resolve_target {
            Some(r) => rest.push(r),
            None => rest,
        }
    }
}

pub open spec fn color_ids(cs: Seq<RenderPassColorAttachmentDescriptor>) -> Seq<TextureViewId> {
    cs.map_values(|c: RenderPassColorAttachmentDescriptor| c.attachment)
}

pub open spec fn ds_ids(ds: Option<RenderPassDepthStencilAttachmentDescriptor>) -> Seq<TextureViewId> {
    match ds {
        Some(d) => seq![d.attachment],
        None => Seq::empty(),
    }
}

/// Color and resolve views, in that order.
pub open spec fn output_ids(cs: Seq<RenderPassColorAttachmentDescriptor>) -> Seq<TextureViewId> {
    color_ids(cs) + resolve_ids(cs)
}

/// The attachment views in the order their textures are recorded: colors,
/// resolves, then depth-stencil.
pub open spec fn recording_order(
    cs: Seq<RenderPassColorAttachmentDescriptor>,
    ds: Option<RenderPassDepthStencilAttachmentDescriptor>,
) -> Seq<TextureViewId> {
    output_ids(cs) + ds_ids(ds)
}

/// Every attachment view: depth-stencil, colors, then resolves.
pub open spec fn all_ids(
    cs: Seq<RenderPassColorAttachmentDescriptor>,
    ds: Option<RenderPassDepthStencilAttachmentDescriptor>,
) -> Seq<TextureViewId> {
    ds_ids(ds) + output_ids(cs)
}

/// Every view id the attachments name is registered.
pub open spec fn ids_registered(
    res: Resources,
    cs: Seq<RenderPassColorAttachmentDescriptor>,
    ds: Option<RenderPassDepthStencilAttachmentDescriptor>,
) -> bool {
    forall|i: int|
        0 <= i < all_ids(cs, ds).len() ==> #[trigger] all_ids(cs, ds)[i] < res.views@.len()
}

/// The pass's sample count: that of the first color attachment, or 1.
pub open spec fn pass_sample_count(res: Resources, cs: Seq<RenderPassColorAttachmentDescriptor>) -> u8 {
    if cs.len() > 0 {
        res.views@[cs[0].attachment as int].samples
    } else {
        1
    }
}

pub open spec fn extents_match(res: Resources, ids: Seq<TextureViewId>) -> bool {
    forall|i: int|
        0 <= i < ids.len() ==> res.views@[#[trigger] ids[i] as int].extent == res.views@[ids[0] as int].extent
}

pub open spec fn samples_match(res: Resources, cs: Seq<RenderPassColorAttachmentDescriptor>, samples: u8) -> bool {
    forall|i: int| 0 <= i < cs.len() ==> res.views@[(#[trigger] cs[i]).attachment as int].samples == samples
}

/// Each resolve target is single-sampled and resolves a multisampled color.
pub open spec fn resolves_valid(res: Resources, cs: Seq<RenderPassColorAttachmentDescriptor>) -> bool {
    forall|i: int|
        0 <= i < cs.len() ==> match (#[trigger] cs[i]).resolve_target {
            Some(r) => res.views@[r as int].samples == 1 && res.views@[cs[i].attachment as int].samples > 1,
            None => true,
        }
}

pub open spec fn is_swap_chain(res: Resources, v: TextureViewId) -> bool {
    res.views@[v as int].source == ViewSource::SwapChain
}

/// No swap-chain depth-stencil, at most one swap-chain image among colors and
/// resolves, and none when the command buffer already used one.
pub open spec fn swap_chain_ok(
    res: Resources,
    cs: Seq<RenderPassColorAttachmentDescriptor>,
    ds: Option<RenderPassDepthStencilAttachmentDescriptor>,
    already_used: bool,
) -> bool {
    let ids = output_ids(cs);
    &&& forall|i: int| 0 <= i < ds_ids(ds).len() ==> !is_swap_chain(res, #[trigger] ds_ids(ds)[i])
    &&& forall|i: int, j: int|
        0 <= i < j < ids.len() && is_swap_chain(res, #[trigger] ids[i]) ==> !is_swap_chain(
            res,
            #[trigger] ids[j],
        )
    &&& already_used ==> forall|i: int| 0 <= i < ids.len() ==> !is_swap_chain(res, #[trigger] ids[i])
}

/// The texture behind every native attachment view can be an output attachment.
pub open spec fn outputs_usable(res: Resources, ids: Seq<TextureViewId>) -> bool {
    forall|i: int|
        0 <= i < ids.len() ==> match res.views@[#[trigger] ids[i] as int].source {
            ViewSource::Native { texture } => res.textures@[texture as int].usage
                & TEXTURE_USAGE_OUTPUT_ATTACHMENT != 0,
            ViewSource::SwapChain => true,
        }
}

/// Validation of a pass's attachments, checks in this order.
pub open spec fn attachments_check(
    res: Resources,
    cs: Seq<RenderPassColorAttachmentDescriptor>,
    ds: Option<RenderPassDepthStencilAttachmentDescriptor>,
    sample_limit: u8,
    swap_chain_used: bool,
) -> Result<(), RenderPassError> {
    let ids = all_ids(cs, ds);
    let samples = pass_sample_count(res, cs);
    if samples & sample_limit == 0 {
        Err(RenderPassError::UnsupportedSampleCount)
    } else if !extents_match(res, ids) {
        Err(RenderPassError::AttachmentExtentMismatch)
    } else if !samples_match(res, cs, samples) {
        Err(RenderPassError::AttachmentSampleCountMismatch)
    } else if !resolves_valid(res, cs) {
        Err(RenderPassError::ResolveTargetInvalid)
    } else if !swap_chain_ok(res, cs, ds, swap_chain_used) {
        Err(RenderPassError::SwapChainMisuse)
    } else if !outputs_usable(res, ids) {
        Err(RenderPassError::UsageBitMissing(MissingUsage::OutputAttachment))
    } else {
        Ok(())
    }
}

/// Current usage of texture `t` in a tracker.
pub open spec fn tracked_usage(textures: Seq<Option<Unit>>, t: int) -> Option<u32> {
    match textures[t] {
        Some(u) => Some(u.last),
        None => None,
    }
}

/// Layout an attachment view is in when the pass begins: derived from the
/// texture's tracked usage, or the optimal layout when it is untracked; a
/// swap-chain image is undefined on its first use in the command buffer.
pub open spec fn initial_layout(
    res: Resources,
    textures: Seq<Option<Unit>>,
    used_views: Seq<bool>,
    v: TextureViewId,
    is_color: bool,
) -> ImageLayout {
    match res.views@[v as int].source {
        ViewSource::Native { texture } => match tracked_usage(textures, texture as int) {
            Some(usage) => usage_layout(usage, is_color),
            None => optimal_layout(is_color),
        },
        ViewSource::SwapChain => if used_views[v as int] {
            ImageLayout::Present
        } else {
            ImageLayout::Undefined
        },
    }
}

pub open spec fn final_layout(res: Resources, v: TextureViewId, is_color: bool) -> ImageLayout {
    match res.views@[v as int].source {
        ViewSource::Native { .. } => optimal_layout(is_color),
        ViewSource::SwapChain => ImageLayout::Present,
    }
}

pub open spec fn color_desc(
    res: Resources,
    textures: Seq<Option<Unit>>,
    used_views: Seq<bool>,
    c: RenderPassColorAttachmentDescriptor,
) -> AttachmentDesc {
    let view = res.views@[c.attachment as int];
    AttachmentDesc {
        format: view.format,
        samples: view.samples,
        ops: map_ops(c.load_op, c.store_op),
        stencil_ops: dont_care(),
        initial_layout: initial_layout(res, textures, used_views, c.attachment, true),
        final_layout: final_layout(res, c.attachment, true),
    }
}

pub open spec fn resolve_desc(
    res: Resources,
    textures: Seq<Option<Unit>>,
    used_views: Seq<bool>,
    r: TextureViewId,
) -> AttachmentDesc {
    let view = res.views@[r as int];
    AttachmentDesc {
        format: view.format,
        samples: view.samples,
        ops: AttachmentOps { load: AttachmentLoadOp::DontCare, store: AttachmentStoreOp::Store },
        stencil_ops: dont_care(),
        initial_layout: initial_layout(res, textures, used_views, r, true),
        final_layout: final_layout(res, r, true),
    }
}

pub open spec fn depth_stencil_desc(
    res: Resources,
    textures: Seq<Option<Unit>>,
    used_views: Seq<bool>,
    d: RenderPassDepthStencilAttachmentDescriptor,
) -> AttachmentDesc {
    let view = res.views@[d.attachment as int];
    AttachmentDesc {
        format: view.format,
        samples: view.samples,
        ops: map_ops(d.depth_load_op, d.depth_store_op),
        stencil_ops: map_ops(d.stencil_load_op, d.stencil_store_op),
        initial_layout: initial_layout(res, textures, used_views, d.attachment, false),
        final_layout: ImageLayout::DepthStencilAttachmentOptimal,
    }
}

/// Cache key of a backend render pass.
#[derive(Debug, PartialEq, Eq)]
pub struct RenderPassKey {
    pub colors: Vec<AttachmentDesc>,
    pub resolves: Vec<AttachmentDesc>,
    pub depth_stencil: Option<AttachmentDesc>,
}

pub struct RenderPassKeyView {
    pub colors: Seq<AttachmentDesc>,
    pub resolves: Seq<AttachmentDesc>,
    pub depth_stencil: Option<AttachmentDesc>,
}

impl View for RenderPassKey {
    type V = RenderPassKeyView;

    open spec fn view(&self) -> RenderPassKeyView {
        RenderPassKeyView {
            colors: self.colors@,
            resolves: self.resolves@,
            depth_stencil: self.depth_stencil,
        }
    }
}

/// Cache key of a framebuffer: the attachment views.
#[derive(Debug, PartialEq, Eq)]
pub struct FramebufferKey {
    pub colors: Vec<TextureViewId>,
    pub resolves: Vec<TextureViewId>,
    pub depth_stencil: Option<TextureViewId>,
}

pub struct FramebufferKeyView {
    pub colors: Seq<TextureViewId>,
    pub resolves: Seq<TextureViewId>,
    pub depth_stencil: Option<TextureViewId>,
}

impl View for FramebufferKey {
    type V = FramebufferKeyView;

    open spec fn view(&self) -> FramebufferKeyView {
        FramebufferKeyView {
            colors: self.colors@,
            resolves: self.resolves@,
            depth_stencil: self.depth_stencil,
        }
    }
}

/// The render-pass key of a pass's attachments, given the command buffer's
/// texture usages and the views it used before.
pub open spec fn render_pass_key(
    res: Resources,
    textures: Seq<Option<Unit>>,
    used_views: Seq<bool>,
    cs: Seq<RenderPassColorAttachmentDescriptor>,
    ds: Option<RenderPassDepthStencilAttachmentDescriptor>,
) -> RenderPassKeyView {
    RenderPassKeyView {
        colors: cs.map_values(
            |c: RenderPassColorAttachmentDescriptor| color_desc(res, textures, used_views, c),
        ),
        resolves: resolve_ids(cs).map_values(
            |r: TextureViewId| resolve_desc(res, textures, used_views, r),
        ),
        depth_stencil: match ds {
            Some(d) => Some(depth_stencil_desc(res, textures, used_views, d)),
            None => None,
        },
    }
}

pub open spec fn framebuffer_key(
    cs: Seq<RenderPassColorAttachmentDescriptor>,
    ds: Option<RenderPassDepthStencilAttachmentDescriptor>,
) -> FramebufferKeyView {
    FramebufferKeyView {
        colors: color_ids(cs),
        resolves: resolve_ids(cs),
        depth_stencil: match ds {
            Some(d) => Some(d.attachment),
            None => None,
        },
    }
}

/// Clear values of the color attachments that are cleared, in order.
pub open spec fn color_clears(res: Resources, cs: Seq<RenderPassColorAttachmentDescriptor>) -> Seq<
    ClearValue,
>
    decreases cs.len(),
{
    if cs.len() == 0 {
        Seq::empty()
    } else {
        let rest = color_clears(res, cs.drop_last());
        let c = cs.last();
        match c.load_op {
            LoadOp::Clear => rest.push(
                ClearValue::Color {
                    format: res.views@[c.attachment as int].format,
                    color: c.clear_color,
                },
            ),
            LoadOp::Load => rest,
        }
    }
}

/// Clear values of a pass: cleared colors, then the depth-stencil value when
/// depth or stencil is cleared.
pub open spec fn clear_values(
    res: Resources,
    cs: Seq<RenderPassColorAttachmentDescriptor>,
    ds: Option<RenderPassDepthStencilAttachmentDescriptor>,
) -> Seq<ClearValue> {
    color_clears(res, cs) + match ds {
        Some(d) => if d.depth_load_op == LoadOp::Clear || d.stencil_load_op == LoadOp::Clear {
            seq![ClearValue::DepthStencil { depth: d.clear_depth, stencil: d.clear_stencil }]
        } else {
            Seq::empty()
        },
        None => Seq::empty(),
    }
}

pub open spec fn extent_of(res: Resources, ids: Seq<TextureViewId>) -> Extent3d {
    res.views@[ids[0] as int].extent
}

/// Formats of a pass's attachments.
pub open spec fn pass_context(
    res: Resources,
    cs: Seq<RenderPassColorAttachmentDescriptor>,
    ds: Option<RenderPassDepthStencilAttachmentDescriptor>,
) -> ContextView {
    ContextView {
        colors: color_ids(cs).map_values(|v: TextureViewId| res.views@[v as int].format),
        resolves: resolve_ids(cs).map_values(|v: TextureViewId| res.views@[v as int].format),
        depth_stencil: match ds {
            Some(d) => Some(res.views@[d.attachment as int].format),
            None => None,
        },
    }
}

pub(crate) proof fn lemma_resolve_ids_len(cs: Seq<RenderPassColorAttachmentDescriptor>)
    ensures
        resolve_ids(cs).len() <= cs.len(),
    decreases cs.len(),
{
    if cs.len() > 0 {
        lemma_resolve_ids_len(cs.drop_last());
    }
}

pub fn collect_resolve_ids(cs: &[RenderPassColorAttachmentDescriptor]) -> (r: Vec<TextureViewId>)
    ensures
        r@ == resolve_ids(cs@),
{
    let mut r: Vec<TextureViewId> = Vec::new();
    let mut i: usize = 0;
    while i < cs.len()
        invariant
            i <= cs@.len(),
            r@ == resolve_ids(cs@.subrange(0, i as int)),
        decreases cs@.len() - i,
    {
        assert(cs@.subrange(0, i + 1).drop_last() =~= cs@.subrange(0, i as int));
        match cs[i].resolve_target {
            Some(t) => r.push(t),
            None => {},
        }
        i = i + 1;
    }
    assert(cs@.subrange(0, cs@.len() as int) =~= cs@);
    r
}

/// The color and resolve views, and all attachment views.
pub fn collect_ids(
    cs: &[RenderPassColorAttachmentDescriptor],
    ds: Option<RenderPassDepthStencilAttachmentDescriptor>,
) -> (r: (Vec<TextureViewId>, Vec<TextureViewId>, Vec<TextureViewId>))
    ensures
        r.0@ == output_ids(cs@),
        r.1@ == all_ids(cs@, ds),
        r.2@ == recording_order(cs@, ds),
{
    let mut outputs: Vec<TextureViewId> = Vec::new();
    let mut i: usize = 0;
    while i < cs.len()
        invariant
            i <= cs@.len(),
            outputs@ == color_ids(cs@).subrange(0, i as int),
        decreases cs@.len() - i,
    {
        outputs.push(cs[i].attachment);
        i = i + 1;
        assert(outputs@ =~= color_ids(cs@).subrange(0, i as int));
    }
    assert(color_ids(cs@).subrange(0, cs@.len() as int) =~= color_ids(cs@));
    let resolves = collect_resolve_ids(cs);
    let mut k: usize = 0;
    while k < resolves.len()
        invariant
            k <= resolves@.len(),
            outputs@ == color_ids(cs@) + resolves@.subrange(0, k as int),
        decreases resolves@.len() - k,
    {
        outputs.push(resolves[k]);
        k = k + 1;
        assert(outputs@ =~= color_ids(cs@) + resolves@.subrange(0, k as int));
    }
    assert(resolves@.subrange(0, resolves@.len() as int) =~= resolves@);
    let mut all: Vec<TextureViewId> = Vec::new();
    match ds {
        Some(d) => all.push(d.attachment),
        None => {},
    }
    assert(all@ =~= ds_ids(ds));
    let mut m: usize = 0;
    while m < outputs.len()
        invariant
            m <= outputs@.len(),
            all@ == ds_ids(ds) + outputs@.subrange(0, m as int),
        decreases outputs@.len() - m,
    {
        all.push(outputs[m]);
        m = m + 1;
        assert(all@ =~= ds_ids(ds) + outputs@.subrange(0, m as int));
    }
    assert(outputs@.subrange(0, outputs@.len() as int) =~= outputs@);
    let mut ordered: Vec<TextureViewId> = Vec::new();
    let mut j: usize = 0;
    while j < outputs.len()
        invariant
            j <= outputs@.len(),
            ordered@ == outputs@.take(j as int),
        decreases outputs@.len() - j,
    {
        ordered.push(outputs[j]);
        j = j + 1;
        assert(ordered@ =~= outputs@.take(j as int));
    }
    match ds {
        Some(d) => ordered.push(d.attachment),
        None => {},
    }
    assert(ordered@ =~= recording_order(cs@, ds));
    (outputs, all, ordered)
}

pub open spec fn views_bounded(
    res: Resources,
    cs: Seq<RenderPassColorAttachmentDescriptor>,
    all: Seq<TextureViewId>,
) -> bool {
    &&& forall|i: int| 0 <= i < cs.len() ==> (#[trigger] cs[i]).attachment < res.views@.len()
    &&& forall|i: int| 0 <= i < all.len() ==> #[trigger] all[i] < res.views@.len()
}

fn check_extents(res: &Resources, cs: &[RenderPassColorAttachmentDescriptor], all: &Vec<TextureViewId>) -> (r: bool)
    requires
        views_bounded(*res, cs@, all@),
    ensures
        r == extents_match(*res, all@),
{
    if all.len() == 0 {
        return true;
    }
    let extent = res.views[all[0]].extent;
    let mut i: usize = 0;
    while i < all.len()
        invariant
            i <= all@.len(),
            all@.len() > 0,
            views_bounded(*res, cs@, all@),
            extent == res.views@[all@[0] as int].extent,
            forall|j: int| 0 <= j < i ==> res.views@[#[trigger] all@[j] as int].extent == extent,
        decreases all@.len() - i,
    {
        if res.views[all[i]].extent != extent {
            return false;
        }
        i = i + 1;
    }
    true
}

fn check_samples(res: &Resources, cs: &[RenderPassColorAttachmentDescriptor], all: &Vec<TextureViewId>, samples: u8) -> (r: bool)
    requires
        views_bounded(*res, cs@, all@),
    ensures
        r == samples_match(*res, cs@, samples),
{
    let mut i: usize = 0;
    while i < cs.len()
        invariant
            i <= cs@.len(),
            views_bounded(*res, cs@, all@),
            forall|j: int| 0 <= j < i ==> res.views@[(#[trigger] cs@[j]).attachment as int].samples == samples,
        decreases cs@.len() - i,
    {
        if res.views[cs[i].attachment].samples != samples {
            return false;
        }
        i = i + 1;
    }
    true
}

fn check_resolves(res: &Resources, cs: &[RenderPassColorAttachmentDescriptor]) -> (r: bool)
    requires
        forall|i: int| 0 <= i < cs@.len() ==> (#[trigger] cs@[i]).attachment < res.views@.len(),
        forall|i: int| 0 <= i < resolve_ids(cs@).len() ==> #[trigger] resolve_ids(cs@)[i] < res.views@.len(),
    ensures
        r == resolves_valid(*res, cs@),
{
    let mut i: usize = 0;
    while i < cs.len()
        invariant
            i <= cs@.len(),
            forall|j: int| 0 <= j < cs@.len() ==> (#[trigger] cs@[j]).attachment < res.views@.len(),
            forall|j: int|
                0 <= j < resolve_ids(cs@).len() ==> #[trigger] resolve_ids(cs@)[j] < res.views@.len(),
            forall|j: int|
                0 <= j < i ==> match (#[trigger] cs@[j]).resolve_target {
                    Some(r) => res.views@[r as int].samples == 1 && res.views@[cs@[j].attachment as int].samples > 1,
                    None => true,
                },
        decreases cs@.len() - i,
    {
        match cs[i].resolve_target {
            Some(t) => {
                proof {
                    lemma_resolve_member(cs@, i as int);
                    let k = choose|k: int|
                        0 <= k < resolve_ids(cs@).len() && resolve_ids(cs@)[k] == t;
                    assert(resolve_ids(cs@)[k] < res.views@.len());
                }
                if res.views[t].samples != 1 || res.views[cs[i].attachment].samples <= 1 {
                    return false;
                }
            },
            None => {},
        }
        i = i + 1;
    }
    true
}

fn check_swap_chain(
    res: &Resources,
    cs: &[RenderPassColorAttachmentDescriptor],
    ds: Option<RenderPassDepthStencilAttachmentDescriptor>,
    outputs: &Vec<TextureViewId>,
    swap_chain_used: bool,
) -> (r: bool)
    requires
        outputs@ == output_ids(cs@),
        forall|i: int| 0 <= i < outputs@.len() ==> #[trigger] outputs@[i] < res.views@.len(),
        forall|i: int| 0 <= i < ds_ids(ds).len() ==> #[trigger] ds_ids(ds)[i] < res.views@.len(),
    ensures
        r == swap_chain_ok(*res, cs@, ds, swap_chain_used),
{
    match ds {
        Some(d) => {
            assert(ds_ids(ds)[0] == d.attachment);
            if res.views[d.attachment].source == ViewSource::SwapChain {
                assert(is_swap_chain(*res, ds_ids(ds)[0]));
                return false;
            }
        },
        None => {},
    }
    let mut found: bool = false;
    let mut i: usize = 0;
    while i < outputs.len()
        invariant
            i <= outputs@.len(),
            outputs@ == output_ids(cs@),
            forall|j: int| 0 <= j < outputs@.len() ==> #[trigger] outputs@[j] < res.views@.len(),
            found <==> exists|j: int| 0 <= j < i && is_swap_chain(*res, #[trigger] outputs@[j]),
            forall|a: int, b: int|
                0 <= a < b < i && is_swap_chain(*res, #[trigger] outputs@[a]) ==> !is_swap_chain(
                    *res,
                    #[trigger] outputs@[b],
                ),
            swap_chain_used ==> !found,
        decreases outputs@.len() - i,
    {
        if res.views[outputs[i]].source == ViewSource::SwapChain {
            if found || swap_chain_used {
                proof {
                    if found {
                        let a = choose|j: int| 0 <= j < i && is_swap_chain(*res, #[trigger] outputs@[j]);
                        assert(is_swap_chain(*res, outputs@[a]) && is_swap_chain(*res, outputs@[i as int]));
                    } else {
                        assert(is_swap_chain(*res, outputs@[i as int]));
                    }
                }
                return false;
            }
            found = true;
        }
        i = i + 1;
    }
    true
}

fn check_usable(res: &Resources, cs: &[RenderPassColorAttachmentDescriptor], all: &Vec<TextureViewId>) -> (r: bool)
    requires
        res.views_wf(),
        views_bounded(*res, cs@, all@),
    ensures
        r == outputs_usable(*res, all@),
{
    let mut i: usize = 0;
    while i < all.len()
        invariant
            i <= all@.len(),
            res.views_wf(),
            views_bounded(*res, cs@, all@),
            forall|j: int|
                0 <= j < i ==> match res.views@[#[trigger] all@[j] as int].source {
                    ViewSource::Native { texture } => res.textures@[texture as int].usage
                        & TEXTURE_USAGE_OUTPUT_ATTACHMENT != 0,
                    ViewSource::SwapChain => true,
                },
        decreases all@.len() - i,
    {
        match res.views[all[i]].source {
            ViewSource::Native { texture } => {
                if res.textures[texture].usage & TEXTURE_USAGE_OUTPUT_ATTACHMENT == 0 {
                    return false;
                }
            },
            ViewSource::SwapChain => {},
        }
        i = i + 1;
    }
    true
}

/// Validates a pass's attachments; the first failing check decides the error.
pub fn check_attachments(
    res: &Resources,
    cs: &[RenderPassColorAttachmentDescriptor],
    ds: Option<RenderPassDepthStencilAttachmentDescriptor>,
    outputs: &Vec<TextureViewId>,
    all: &Vec<TextureViewId>,
    sample_limit: u8,
    swap_chain_used: bool,
) -> (r: Result<(), RenderPassError>)
    requires
        res.views_wf(),
        ids_registered(*res, cs@, ds),
        outputs@ == output_ids(cs@),
        all@ == all_ids(cs@, ds),
    ensures
        r == attachments_check(*res, cs@, ds, sample_limit, swap_chain_used),
{
    proof {
        let n = ds_ids(ds).len();
        assert(color_ids(cs@).len() == cs@.len());
        assert forall|i: int| 0 <= i < all@.len() implies #[trigger] all@[i] < res.views@.len() by {
            assert(all_ids(cs@, ds)[i] < res.views@.len());
        }
        assert forall|i: int| 0 <= i < cs@.len() implies (#[trigger] cs@[i]).attachment < res.views@.len() by {
            assert(all@[n + i] == cs@[i].attachment);
        }
        assert forall|i: int| 0 <= i < outputs@.len() implies #[trigger] outputs@[i] < res.views@.len() by {
            assert(all@[n + i] == outputs@[i]);
        }
        assert forall|i: int| 0 <= i < resolve_ids(cs@).len() implies #[trigger] resolve_ids(cs@)[i] < res.views@.len() by {
            assert(outputs@[cs@.len() + i] == resolve_ids(cs@)[i]);
        }
        assert forall|i: int| 0 <= i < n implies #[trigger] ds_ids(ds)[i] < res.views@.len() by {
            assert(all@[i] == ds_ids(ds)[i]);
        }
    }
    let samples: u8 = if cs.len() > 0 {
        res.views[cs[0].attachment].samples
    } else {
        1
    };
    if samples & sample_limit == 0 {
        Err(RenderPassError::UnsupportedSampleCount)
    } else if !check_extents(res, cs, all) {
        Err(RenderPassError::AttachmentExtentMismatch)
    } else if !check_samples(res, cs, all, samples) {
        Err(RenderPassError::AttachmentSampleCountMismatch)
    } else if !check_resolves(res, cs) {
        Err(RenderPassError::ResolveTargetInvalid)
    } else if !check_swap_chain(res, cs, ds, outputs, swap_chain_used) {
        Err(RenderPassError::SwapChainMisuse)
    } else if !check_usable(res, cs, all) {
        Err(RenderPassError::UsageBitMissing(MissingUsage::OutputAttachment))
    } else {
        Ok(())
    }
}

proof fn lemma_resolve_member(cs: Seq<RenderPassColorAttachmentDescriptor>, i: int)
    requires
        0 <= i < cs.len(),
        cs[i].resolve_target is Some,
    ensures
        exists|k: int|
            0 <= k < resolve_ids(cs).len() && resolve_ids(cs)[k] == cs[i].resolve_target->0,
    decreases cs.len(),
{
    let rest = cs.drop_last();
    if i == cs.len() - 1 {
        let k = resolve_ids(rest).len() as int;
        assert(resolve_ids(cs)[k] == cs[i].resolve_target->0);
    } else {
        assert(rest[i] == cs[i]);
        lemma_resolve_member(rest, i);
        let k = choose|k: int|
            0 <= k < resolve_ids(rest).len() && resolve_ids(rest)[k] == rest[i].resolve_target->0;
        assert(resolve_ids(cs)[k] == resolve_ids(rest)[k]);
    }
}

/// Where a subpass finds its attachments, by index into the render pass's
/// attachment list, with the layout used during the subpass.
#[derive(Debug, PartialEq, Eq)]
pub struct SubpassDesc {
    pub colors: Vec<(usize, ImageLayout)>,
    /// One entry per color when any color resolves; `None` for colors that
    /// do not.
    pub resolves: Vec<(Option<usize>, ImageLayout)>,
    pub depth_stencil: Option<(usize, ImageLayout)>,
}

pub struct SubpassView {
    pub colors: Seq<(usize, ImageLayout)>,
    pub resolves: Seq<(Option<usize>, ImageLayout)>,
    pub depth_stencil: Option<(usize, ImageLayout)>,
}

impl View for SubpassDesc {
    type V = SubpassView;

    open spec fn view(&self) -> SubpassView {
        SubpassView {
            colors: self.colors@,
            resolves: self.resolves@,
            depth_stencil: self.depth_stencil,
        }
    }
}

/// The single subpass of a pass: colors at `0..n`, resolves after them in
/// color order, the depth-stencil attachment last.
pub open spec fn subpass_desc(cs: Seq<RenderPassColorAttachmentDescriptor>, has_depth_stencil: bool) -> SubpassView {
    let n = cs.len();
    SubpassView {
        colors: Seq::new(n, |i: int| (i as usize, ImageLayout::ColorAttachmentOptimal)),
        resolves: if resolve_ids(cs).len() > 0 {
            Seq::new(
                n,
                |i: int|
                    (
                        match cs[i].resolve_target {
                            Some(_) => Some((n + resolve_ids(cs.take(i)).len()) as usize),
                            None => None,
                        },
                        ImageLayout::ColorAttachmentOptimal,
                    ),
            )
        } else {
            Seq::empty()
        },
        depth_stencil: if has_depth_stencil {
            Some(((n + resolve_ids(cs).len()) as usize, ImageLayout::DepthStencilAttachmentOptimal))
        } else {
            None
        },
    }
}

pub fn build_subpass(cs: &[RenderPassColorAttachmentDescriptor], resolve_count: usize, has_depth_stencil: bool) -> (r: SubpassDesc)
    requires
        cs@.len() <= MAX_TOTAL_ATTACHMENTS,
        resolve_count == resolve_ids(cs@).len(),
    ensures
        r@ == subpass_desc(cs@, has_depth_stencil),
{
    proof {
        lemma_resolve_ids_len(cs@);
    }
    let n = cs.len();
    let mut colors: Vec<(usize, ImageLayout)> = Vec::new();
    let mut i: usize = 0;
    while i < n
        invariant
            i <= n == cs@.len(),
            colors@ == Seq::new(i as nat, |j: int| (j as usize, ImageLayout::ColorAttachmentOptimal)),
        decreases n - i,
    {
        colors.push((i, ImageLayout::ColorAttachmentOptimal));
        i = i + 1;
        assert(colors@ =~= Seq::new(i as nat, |j: int| (j as usize, ImageLayout::ColorAttachmentOptimal)));
    }
    let mut resolves: Vec<(Option<usize>, ImageLayout)> = Vec::new();
    let mut attachment_index: usize = n;
    let ghost target = subpass_desc(cs@, has_depth_stencil).resolves;
    if resolve_count > 0 {
        let mut i: usize = 0;
        while i < n
            invariant
                i <= n == cs@.len() <= MAX_TOTAL_ATTACHMENTS,
                resolve_ids(cs@).len() > 0,
                target == subpass_desc(cs@, has_depth_stencil).resolves,
                target.len() == n,
                attachment_index == n + resolve_ids(cs@.take(i as int)).len(),
                resolve_ids(cs@.take(i as int)).len() <= i,
                resolves@ == target.take(i as int),
            decreases n - i,
        {
            assert(cs@.take(i + 1).drop_last() =~= cs@.take(i as int));
            proof {
                lemma_resolve_ids_len(cs@.take(i as int));
            }
            let entry = match cs[i].resolve_target {
                None => (None, ImageLayout::ColorAttachmentOptimal),
                Some(_) => {
                    let e = (Some(attachment_index), ImageLayout::ColorAttachmentOptimal);
                    attachment_index = attachment_index + 1;
                    e
                },
            };
            resolves.push(entry);
            i = i + 1;
            assert(resolves@ =~= target.take(i as int));
        }
        assert(cs@.take(n as int) =~= cs@);
    } else {
        assert(resolves@ =~= target);
    }
    proof {
        if resolve_count > 0 {
            assert(resolves@ =~= target);
        }
    }
    let depth_stencil = if has_depth_stencil {
        Some((n + resolve_count, ImageLayout::DepthStencilAttachmentOptimal))
    } else {
        None
    };
    SubpassDesc { colors, resolves, depth_stencil }
}

/// Current usage of a texture in the command buffer's tracker.
fn current_usage(textures: &UsageTracker, t: TextureId) -> (r: Option<u32>)
    requires
        t < textures.units@.len(),
    ensures
        r == tracked_usage(textures.units@, t as int),
{
    textures.query(t)
}

pub fn initial_layout_of(
    res: &Resources,
    textures: &UsageTracker,
    used_views: &Vec<bool>,
    v: TextureViewId,
    is_color: bool,
) -> (r: ImageLayout)
    requires
        res.views_wf(),
        v < res.views@.len(),
        textures.units@.len() == res.textures@.len(),
        used_views@.len() == res.views@.len(),
    ensures
        r == initial_layout(*res, textures.units@, used_views@, v, is_color),
{
    match res.views[v].source {
        ViewSource::Native { texture } => match current_usage(textures, texture) {
            Some(usage) => texture_layout(usage, is_color),
            None => if is_color {
                ImageLayout::ColorAttachmentOptimal
            } else {
                ImageLayout::DepthStencilAttachmentOptimal
            },
        },
        ViewSource::SwapChain => if used_views[v] {
            ImageLayout::Present
        } else {
            ImageLayout::Undefined
        },
    }
}

fn final_layout_of(res: &Resources, v: TextureViewId, is_color: bool) -> (r: ImageLayout)
    requires
        v < res.views@.len(),
    ensures
        r == final_layout(*res, v, is_color),
{
    match res.views[v].source {
        ViewSource::Native { .. } => if is_color {
            ImageLayout::ColorAttachmentOptimal
        } else {
            ImageLayout::DepthStencilAttachmentOptimal
        },
        ViewSource::SwapChain => ImageLayout::Present,
    }
}

/// Preconditions shared by the builders: the registry is consistent, every
/// attachment view is registered, and the trackers match the registry.
pub open spec fn build_ready(
    res: Resources,
    textures: Seq<Option<Unit>>,
    used_views: Seq<bool>,
    cs: Seq<RenderPassColorAttachmentDescriptor>,
    resolves: Seq<TextureViewId>,
    ds: Option<RenderPassDepthStencilAttachmentDescriptor>,
) -> bool {
    &&& res.views_wf()
    &&& textures.len() == res.textures@.len()
    &&& used_views.len() == res.views@.len()
    &&& resolves == resolve_ids(cs)
    &&& forall|i: int| 0 <= i < cs.len() ==> (#[trigger] cs[i]).attachment < res.views@.len()
    &&& forall|i: int| 0 <= i < resolves.len() ==> #[trigger] resolves[i] < res.views@.len()
    &&& forall|d: RenderPassDepthStencilAttachmentDescriptor|
        ds == Some(d) ==> d.attachment < res.views@.len()
}

pub fn build_render_pass_key(
    res: &Resources,
    textures: &UsageTracker,
    used_views: &Vec<bool>,
    cs: &[RenderPassColorAttachmentDescriptor],
    resolves: &Vec<TextureViewId>,
    ds: Option<RenderPassDepthStencilAttachmentDescriptor>,
) -> (r: RenderPassKey)
    requires
        build_ready(*res, textures.units@, used_views@, cs@, resolves@, ds),
    ensures
        r@ == render_pass_key(*res, textures.units@, used_views@, cs@, ds),
{
    let ghost key = render_pass_key(*res, textures.units@, used_views@, cs@, ds);
    let mut colors: Vec<AttachmentDesc> = Vec::new();
    let mut i: usize = 0;
    while i < cs.len()
        invariant
            i <= cs@.len(),
            build_ready(*res, textures.units@, used_views@, cs@, resolves@, ds),
            key == render_pass_key(*res, textures.units@, used_views@, cs@, ds),
            colors@ == key.colors.take(i as int),
        decreases cs@.len() - i,
    {
        let c = cs[i];
        let view = res.views[c.attachment];
        let desc = AttachmentDesc {
            format: view.format,
            samples: view.samples,
            ops: map_load_store_ops(c.load_op, c.store_op),
            stencil_ops: AttachmentOps {
                load: AttachmentLoadOp::DontCare,
                store: AttachmentStoreOp::DontCare,
            },
            initial_layout: initial_layout_of(res, textures, used_views, c.attachment, true),
            final_layout: final_layout_of(res, c.attachment, true),
        };
        colors.push(desc);
        i = i + 1;
        assert(colors@ =~= key.colors.take(i as int));
    }
    let mut resolve_descs: Vec<AttachmentDesc> = Vec::new();
    let mut k: usize = 0;
    while k < resolves.len()
        invariant
            k <= resolves@.len(),
            build_ready(*res, textures.units@, used_views@, cs@, resolves@, ds),
            key == render_pass_key(*res, textures.units@, used_views@, cs@, ds),
            resolve_descs@ == key.resolves.take(k as int),
        decreases resolves@.len() - k,
    {
        let t = resolves[k];
        let view = res.views[t];
        let desc = AttachmentDesc {
            format: view.format,
            samples: view.samples,
            ops: AttachmentOps { load: AttachmentLoadOp::DontCare, store: AttachmentStoreOp::Store },
            stencil_ops: AttachmentOps {
                load: AttachmentLoadOp::DontCare,
                store: AttachmentStoreOp::DontCare,
            },
            initial_layout: initial_layout_of(res, textures, used_views, t, true),
            final_layout: final_layout_of(res, t, true),
        };
        resolve_descs.push(desc);
        k = k + 1;
        assert(resolve_descs@ =~= key.resolves.take(k as int));
    }
    let depth_stencil = match ds {
        Some(d) => {
            let view = res.views[d.attachment];
            Some(
                AttachmentDesc {
                    format: view.format,
                    samples: view.samples,
                    ops: map_load_store_ops(d.depth_load_op, d.depth_store_op),
                    stencil_ops: map_load_store_ops(d.stencil_load_op, d.stencil_store_op),
                    initial_layout: initial_layout_of(res, textures, used_views, d.attachment, false),
                    final_layout: ImageLayout::DepthStencilAttachmentOptimal,
                },
            )
        },
        None => None,
    };
    assert(colors@ =~= key.colors);
    assert(resolve_descs@ =~= key.resolves);
    RenderPassKey { colors, resolves: resolve_descs, depth_stencil }
}

pub fn build_framebuffer_key(
    cs: &[RenderPassColorAttachmentDescriptor],
    resolves: &Vec<TextureViewId>,
    ds: Option<RenderPassDepthStencilAttachmentDescriptor>,
) -> (r: FramebufferKey)
    requires
        resolves@ == resolve_ids(cs@),
    ensures
        r@ == framebuffer_key(cs@, ds),
{
    let mut colors: Vec<TextureViewId> = Vec::new();
    let mut i: usize = 0;
    while i < cs.len()
        invariant
            i <= cs@.len(),
            colors@ == color_ids(cs@).take(i as int),
        decreases cs@.len() - i,
    {
        colors.push(cs[i].attachment);
        i = i + 1;
        assert(colors@ =~= color_ids(cs@).take(i as int));
    }
    assert(colors@ =~= color_ids(cs@));
    let mut copied: Vec<TextureViewId> = Vec::new();
    let mut k: usize = 0;
    while k < resolves.len()
        invariant
            k <= resolves@.len(),
            copied@ == resolves@.take(k as int),
        decreases resolves@.len() - k,
    {
        copied.push(resolves[k]);
        k = k + 1;
        assert(copied@ =~= resolves@.take(k as int));
    }
    assert(copied@ =~= resolves@);
    let depth_stencil = match ds {
        Some(d) => Some(d.attachment),
        None => None,
    };
    FramebufferKey { colors, resolves: copied, depth_stencil }
}

pub fn build_clear_values(
    res: &Resources,
    cs: &[RenderPassColorAttachmentDescriptor],
    ds: Option<RenderPassDepthStencilAttachmentDescriptor>,
) -> (r: Vec<ClearValue>)
    requires
        forall|i: int| 0 <= i < cs@.len() ==> (#[trigger] cs@[i]).attachment < res.views@.len(),
    ensures
        r@ == clear_values(*res, cs@, ds),
{
    let mut r: Vec<ClearValue> = Vec::new();
    let mut i: usize = 0;
    while i < cs.len()
        invariant
            i <= cs@.len(),
            forall|j: int| 0 <= j < cs@.len() ==> (#[trigger] cs@[j]).attachment < res.views@.len(),
            r@ == color_clears(*res, cs@.take(i as int)),
        decreases cs@.len() - i,
    {
        assert(cs@.take(i + 1).drop_last() =~= cs@.take(i as int));
        let c = cs[i];
        match c.load_op {
            LoadOp::Clear => {
                r.push(ClearValue::Color { format: res.views[c.attachment].format, color: c.clear_color });
            },
            LoadOp::Load => {},
        }
        i = i + 1;
    }
    assert(cs@.take(cs@.len() as int) =~= cs@);
    let ghost colors = r@;
    match ds {
        Some(d) => {
            if d.depth_load_op == LoadOp::Clear || d.stencil_load_op == LoadOp::Clear {
                r.push(ClearValue::DepthStencil { depth: d.clear_depth, stencil: d.clear_stencil });
            }
        },
        None => {},
    }
    assert(r@ =~= clear_values(*res, cs@, ds));
    r
}

pub fn build_context(
    res: &Resources,
    cs: &[RenderPassColorAttachmentDescriptor],
    resolves: &Vec<TextureViewId>,
    ds: Option<RenderPassDepthStencilAttachmentDescriptor>,
) -> (r: RenderPassContext)
    requires
        build_ready(*res, Seq::new(res.textures@.len(), |i: int| None::<Unit>), Seq::new(res.views@.len(), |i: int| false), cs@, resolves@, ds),
    ensures
        r@ == pass_context(*res, cs@, ds),
{
    let ghost ctx = pass_context(*res, cs@, ds);
    let mut colors: Vec<TextureFormat> = Vec::new();
    let mut i: usize = 0;
    while i < cs.len()
        invariant
            i <= cs@.len(),
            forall|j: int| 0 <= j < cs@.len() ==> (#[trigger] cs@[j]).attachment < res.views@.len(),
            ctx == pass_context(*res, cs@, ds),
            colors@ == ctx.colors.take(i as int),
        decreases cs@.len() - i,
    {
        colors.push(res.views[cs[i].attachment].format);
        i = i + 1;
        assert(colors@ =~= ctx.colors.take(i as int));
    }
    let mut formats: Vec<TextureFormat> = Vec::new();
    let mut k: usize = 0;
    while k < resolves.len()
        invariant
            k <= resolves@.len(),
            resolves@ == resolve_ids(cs@),
            forall|j: int| 0 <= j < resolves@.len() ==> #[trigger] resolves@[j] < res.views@.len(),
            ctx == pass_context(*res, cs@, ds),
            formats@ == ctx.resolves.take(k as int),
        decreases resolves@.len() - k,
    {
        formats.push(res.views[resolves[k]].format);
        k = k + 1;
        assert(formats@ =~= ctx.resolves.take(k as int));
    }
    assert(colors@ =~= ctx.colors);
    assert(formats@ =~= ctx.resolves);
    let depth_stencil = match ds {
        Some(d) => Some(res.views[d.attachment].format),
        None => None,
    };
    RenderPassContext { colors, resolves: formats, depth_stencil }
}

#[verifier::external_type_specification]
#[verifier::external_body]
#[verifier::reject_recursive_types(T)]
pub struct ExArrayVec<T, const CAP: usize>(ArrayVec<T, CAP>);

/// The texture behind each output attachment, with its usage in the command
/// buffer before the pass, if it is tracked there.
pub type OutputAttachments = ArrayVec<(TextureId, Option<u32>), MAX_TOTAL_ATTACHMENTS>;

/// The items an output-attachment list holds, in order.
pub uninterp spec fn output_items(v: ArrayVec<(usize, Option<u32>), MAX_TOTAL_ATTACHMENTS>) -> Seq<(usize, Option<u32>)>;

/// Relies on `arrayvec::ArrayVec::new`: an empty vector.
#[verifier::external_body]
fn new_outputs() -> (r: OutputAttachments)
    ensures
        output_items(r) == Seq::<(TextureId, Option<u32>)>::empty(),
{
    ArrayVec::new()
}

/// Relies on `arrayvec::ArrayVec::push`: appends the item; it panics only
/// when the vector is full, which `requires` rules out.
#[verifier::external_body]
fn push_output(v: &mut OutputAttachments, item: (TextureId, Option<u32>))
    requires
        output_items(*old(v)).len() < MAX_TOTAL_ATTACHMENTS,
    ensures
        output_items(*final(v)) == output_items(*old(v)).push(item),
{
    v.push(item)
}

/// Relies on `arrayvec::ArrayVec::as_slice`: the items, in order.
#[verifier::external_body]
fn outputs_slice(v: &OutputAttachments) -> (r: &[(TextureId, Option<u32>)])
    ensures
        r@ == output_items(*v),
{
    v.as_slice()
}

/// The textures behind the native attachment views, in attachment order,
/// with their usage in the command buffer before the pass.
pub open spec fn output_textures(res: Resources, textures: Seq<Option<Unit>>, ids: Seq<TextureViewId>) -> Seq<
    (TextureId, Option<u32>),
>
    decreases ids.len(),
{
    if ids.len() == 0 {
        Seq::empty()
    } else {
        let rest = output_textures(res, textures, ids.drop_last());
        match res.views@[ids.last() as int].source {
            ViewSource::Native { texture } => rest.push((texture, tracked_usage(textures, texture as int))),
            ViewSource::SwapChain => rest,
        }
    }
}

proof fn lemma_output_textures_len(res: Resources, textures: Seq<Option<Unit>>, ids: Seq<TextureViewId>)
    ensures
        output_textures(res, textures, ids).len() <= ids.len(),
    decreases ids.len(),
{
    if ids.len() > 0 {
        lemma_output_textures_len(res, textures, ids.drop_last());
    }
}

/// The pass tracker after the output attachments are recorded: each texture
/// first in its prior usage (or as an output attachment), then, when it had a
/// prior usage, moved to output attachment by the pass itself.
pub open spec fn recorded_outputs(units: Seq<Option<Unit>>, outs: Seq<(TextureId, Option<u32>)>) -> Seq<
    Option<Unit>,
>
    decreases outs.len(),
{
    if outs.len() == 0 {
        units
    } else {
        let u = recorded_outputs(units, outs.drop_last());
        let (t, prior) = outs.last();
        let first = u.update(
            t as int,
            Some(
                replaced(
                    u[t as int],
                    match prior {
                        Some(usage) => usage,
                        None => TEXTURE_USAGE_OUTPUT_ATTACHMENT,
                    },
                ),
            ),
        );
        match prior {
            Some(_) => first.update(
                t as int,
                Some(replaced(first[t as int], TEXTURE_USAGE_OUTPUT_ATTACHMENT)),
            ),
            None => first,
        }
    }
}

pub fn collect_outputs(res: &Resources, textures: &UsageTracker, all: &Vec<TextureViewId>) -> (r: OutputAttachments)
    requires
        res.views_wf(),
        all@.len() < MAX_TOTAL_ATTACHMENTS,
        textures.units@.len() == res.textures@.len(),
        forall|i: int| 0 <= i < all@.len() ==> #[trigger] all@[i] < res.views@.len(),
    ensures
        output_items(r) == output_textures(*res, textures.units@, all@),
{
    let mut r = new_outputs();
    let mut i: usize = 0;
    while i < all.len()
        invariant
            i <= all@.len() < MAX_TOTAL_ATTACHMENTS,
            res.views_wf(),
            textures.units@.len() == res.textures@.len(),
            forall|j: int| 0 <= j < all@.len() ==> #[trigger] all@[j] < res.views@.len(),
            output_items(r) == output_textures(*res, textures.units@, all@.take(i as int)),
        decreases all@.len() - i,
    {
        assert(all@.take(i + 1).drop_last() =~= all@.take(i as int));
        proof {
            lemma_output_textures_len(*res, textures.units@, all@.take(i as int));
        }
        match res.views[all[i]].source {
            ViewSource::Native { texture } => {
                let usage = current_usage(textures, texture);
                push_output(&mut r, (texture, usage));
            },
            ViewSource::SwapChain => {},
        }
        i = i + 1;
    }
    assert(all@.take(all@.len() as int) =~= all@);
    r
}

/// Records the output attachments' first-use states on a pass tracker.
pub fn record_outputs(tracker: &mut UsageTracker, outputs: &OutputAttachments)
    requires
        forall|i: int|
            0 <= i < output_items(*outputs).len() ==> (#[trigger] output_items(*outputs)[i]).0
                < old(tracker).units@.len(),
    ensures
        final(tracker).units@ == recorded_outputs(old(tracker).units@, output_items(*outputs)),
        final(tracker).units@.len() == old(tracker).units@.len(),
{
    let items = outputs_slice(outputs);
    let mut i: usize = 0;
    while i < items.len()
        invariant
            i <= items@.len(),
            items@ == output_items(*outputs),
            tracker.units@.len() == old(tracker).units@.len(),
            forall|j: int| 0 <= j < items@.len() ==> (#[trigger] items@[j]).0 < tracker.units@.len(),
            tracker.units@ == recorded_outputs(old(tracker).units@, items@.take(i as int)),
        decreases items@.len() - i,
    {
        assert(items@.take(i + 1).drop_last() =~= items@.take(i as int));
        let (texture, prior) = items[i];
        let usage = match prior {
            Some(u) => u,
            None => TEXTURE_USAGE_OUTPUT_ATTACHMENT,
        };
        tracker.change_replace(texture, usage);
        if prior.is_some() {
            tracker.change_replace(texture, TEXTURE_USAGE_OUTPUT_ATTACHMENT);
        }
        i = i + 1;
    }
    assert(items@.take(items@.len() as int) =~= items@);
}

} // verus!
