use vstd::prelude::*;

verus! {

/// Index of a buffer in the resource registry.
pub type BufferId = usize;

/// Index of a texture in the resource registry.
pub type TextureId = usize;

/// Index of a texture view in the resource registry.
pub type TextureViewId = usize;

/// Index of a bind group in the resource registry.
pub type BindGroupId = usize;

/// Identifier of a bind-group layout; only compared, never looked up.
pub type BindGroupLayoutId = usize;

/// Index of a pipeline layout in the resource registry.
pub type PipelineLayoutId = usize;

/// Index of a render pipeline in the resource registry.
pub type RenderPipelineId = usize;

/// Opaque texture format code; formats are only compared for equality.
pub type TextureFormat = u32;

pub const MAX_COLOR_TARGETS: usize = 4;

pub const MAX_VERTEX_BUFFERS: usize = 8;

/// Upper bound on the number of bind-group slots a device may expose.
pub const MAX_BIND_GROUPS: usize = 8;

/// Colors, resolves and the depth-stencil attachment together.
pub const MAX_TOTAL_ATTACHMENTS: usize = 10;

pub const BIND_BUFFER_ALIGNMENT: u64 = 256;

pub const BUFFER_USAGE_INDEX: u32 = 0x10;

pub const BUFFER_USAGE_VERTEX: u32 = 0x20;

pub const BUFFER_USAGE_INDIRECT: u32 = 0x100;

pub const TEXTURE_USAGE_COPY_SRC: u32 = 0x1;

pub const TEXTURE_USAGE_COPY_DST: u32 = 0x2;

pub const TEXTURE_USAGE_SAMPLED: u32 = 0x4;

pub const TEXTURE_USAGE_OUTPUT_ATTACHMENT: u32 = 0x10;

pub const TEXTURE_USAGE_UNINITIALIZED: u32 = 0xFFFF;

pub const PIPELINE_FLAG_BLEND_COLOR: u32 = 0x1;

pub const PIPELINE_FLAG_STENCIL_REFERENCE: u32 = 0x2;

#[derive(Clone, Copy, Debug, Hash, PartialEq, Eq, Structural)]
pub enum LoadOp {
    Clear,
    Load,
}

#[derive(Clone, Copy, Debug, Hash, PartialEq, Eq, Structural)]
pub enum StoreOp {
    Clear,
    Store,
}

#[derive(Clone, Copy, Debug, Hash, PartialEq, Eq, Structural)]
pub enum IndexFormat {
    Uint16,
    Uint32,
}

impl IndexFormat {
    /// Size in bytes of one index.
    pub open spec fn size(self) -> nat {
        match self {
            IndexFormat::Uint16 => 2,
            IndexFormat::Uint32 => 4,
        }
    }
}

#[derive(Clone, Copy, Debug, Hash, PartialEq, Eq, Structural)]
pub enum InputStepMode {
    Vertex,
    Instance,
}

/// A color whose channels are kept as the bit patterns of `f64` values;
/// the library carries colors through without computing on them.
#[derive(Clone, Copy, Debug, Hash, PartialEq, Eq, Structural)]
pub struct Color {
    pub r: u64,
    pub g: u64,
    pub b: u64,
    pub a: u64,
}

#[derive(Clone, Copy, Debug, Hash, PartialEq, Eq, Structural)]
pub struct Rect<T> {
    pub x: T,
    pub y: T,
    pub w: T,
    pub h: T,
}

#[derive(Clone, Copy, Debug, Hash, PartialEq, Eq, Structural)]
pub struct Extent3d {
    pub width: u32,
    pub height: u32,
    pub depth: u32,
}

/// Saturating clamp to the `i16` range as the backend takes coordinates:
/// values below the range become 0, values above it `i16::MAX`.
pub open spec fn saturate_i16(v: int) -> i16 {
    if v < i16::MIN {
        0
    } else if v > i16::MAX {
        i16::MAX
    } else {
        v as i16
    }
}

pub fn clamp_to_i16(v: i64) -> (r: i16)
    ensures
        r == saturate_i16(v as int),
{
    if v < -32768 {
        0
    } else if v > 32767 {
        32767
    } else {
        v as i16
    }
}

} // verus!
