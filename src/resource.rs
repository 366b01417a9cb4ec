use vstd::prelude::*;

use crate::types::{
    BindGroupLayoutId, BufferId, Extent3d, IndexFormat, InputStepMode, PipelineLayoutId, TextureFormat,
    TextureId, MAX_VERTEX_BUFFERS,
};

verus! {

#[derive(Clone, Copy, Debug)]
pub struct Buffer {
    pub size: u64,
    pub usage: u32,
}

#[derive(Clone, Copy, Debug)]
pub struct Texture {
    pub usage: u32,
}

/// What a texture view shows: a part of a texture, or a swap-chain image.
#[derive(Clone, Copy, Debug, PartialEq, Eq, Structural)]
pub enum ViewSource {
    Native { texture: TextureId },
    SwapChain,
}

#[derive(Clone, Copy, Debug)]
pub struct TextureView {
    pub format: TextureFormat,
    pub extent: Extent3d,
    pub samples: u8,
    pub source: ViewSource,
}

/// A bind group: its layout, how many dynamic offsets it takes, and the
/// buffers and textures it uses, with their usages.
#[derive(Debug)]
pub struct BindGroup {
    pub layout_id: BindGroupLayoutId,
    pub dynamic_count: usize,
    pub used_buffers: Vec<(BufferId, u32)>,
    pub used_textures: Vec<(TextureId, u32)>,
}

#[derive(Debug)]
pub struct PipelineLayout {
    pub bind_group_layout_ids: Vec<BindGroupLayoutId>,
}

/// Formats of a pass's attachments; pipelines and passes must agree on them.
#[derive(Debug)]
pub struct RenderPassContext {
    pub colors: Vec<TextureFormat>,
    pub resolves: Vec<TextureFormat>,
    pub depth_stencil: Option<TextureFormat>,
}

pub struct ContextView {
    pub colors: Seq<TextureFormat>,
    pub resolves: Seq<TextureFormat>,
    pub depth_stencil: Option<TextureFormat>,
}

impl View for RenderPassContext {
    type V = ContextView;

    open spec fn view(&self) -> ContextView {
        ContextView {
            colors: self.colors@,
            resolves: self.resolves@,
            depth_stencil: self.depth_stencil,
        }
    }
}

/// Element-wise equality of two format lists.
fn formats_equal(a: &Vec<TextureFormat>, b: &Vec<TextureFormat>) -> (r: bool)
    ensures
        r == (a@ == b@),
{
    if a.len() != b.len() {
        return false;
    }
    let mut i: usize = 0;
    while i < a.len()
        invariant
            i <= a@.len() == b@.len(),
            forall|j: int| 0 <= j < i ==> a@[j] == b@[j],
        decreases a@.len() - i,
    {
        if a[i] != b[i] {
            return false;
        }
        i = i + 1;
    }
    assert(a@ =~= b@);
    true
}

impl RenderPassContext {
    /// Two contexts are compatible when their formats agree slot by slot.
    pub fn compatible(&self, other: &RenderPassContext) -> (r: bool)
        ensures
            r == (self@ == other@),
    {
        formats_equal(&self.colors, &other.colors) && formats_equal(
            &self.resolves,
            &other.resolves,
        ) && self.depth_stencil == other.depth_stencil
    }
}

#[derive(Debug)]
pub struct RenderPipeline {
    pub layout_id: PipelineLayoutId,
    pub pass_context: RenderPassContext,
    pub sample_count: u8,
    pub flags: u32,
    pub index_format: IndexFormat,
    pub vertex_strides: Vec<(u64, InputStepMode)>,
}

/// The registry of objects a pass refers to, each table indexed by id.
#[derive(Debug)]
pub struct Resources {
    pub buffers: Vec<Buffer>,
    pub textures: Vec<Texture>,
    pub views: Vec<TextureView>,
    pub bind_groups: Vec<BindGroup>,
    pub pipeline_layouts: Vec<PipelineLayout>,
    pub pipelines: Vec<RenderPipeline>,
}

impl Resources {
    /// Every native view refers to a registered texture.
    pub open spec fn views_wf(&self) -> bool {
        forall|v: int|
            0 <= v < self.views@.len() ==> match (#[trigger] self.views@[v]).source {
                ViewSource::Native { texture } => texture < self.textures@.len(),
                ViewSource::SwapChain => true,
            }
    }

    /// Every reference between registered objects resolves, and no pipeline
    /// describes more vertex buffers or bind groups than a pass can hold.
    pub open spec fn wf(&self, max_bind_groups: nat) -> bool {
        &&& self.views_wf()
        &&& forall|p: int|
            0 <= p < self.pipelines@.len() ==> {
                let pipe = #[trigger] self.pipelines@[p];
                &&& pipe.layout_id < self.pipeline_layouts@.len()
                &&& pipe.vertex_strides@.len() <= MAX_VERTEX_BUFFERS
            }
        &&& forall|g: int|
            0 <= g < self.bind_groups@.len() ==> {
                let bg = #[trigger] self.bind_groups@[g];
                &&& forall|i: int|
                    0 <= i < bg.used_buffers@.len() ==> (#[trigger] bg.used_buffers@[i]).0
                        < self.buffers@.len()
                &&& forall|i: int|
                    0 <= i < bg.used_textures@.len() ==> (#[trigger] bg.used_textures@[i]).0
                        < self.textures@.len()
            }
        &&& forall|l: int|
            0 <= l < self.pipeline_layouts@.len()
                ==> (#[trigger] self.pipeline_layouts@[l]).bind_group_layout_ids@.len()
                <= max_bind_groups
    }
}

} // verus!
