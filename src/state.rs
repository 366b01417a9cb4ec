use vstd::prelude::*;

use crate::binder::{bit_set, fresh_binder, Binder, BinderView};
use crate::types::{BufferId, IndexFormat, InputStepMode, MAX_BIND_GROUPS, MAX_VERTEX_BUFFERS};

verus! {

broadcast use vstd::std_specs::bits::axiom_u8_trailing_zeros;

/// Dynamic state a pipeline may require before drawing.
#[derive(Clone, Copy, Debug, PartialEq, Eq, Structural)]
pub enum OptionalState {
    Unused,
    Required,
    Provided,
}

impl OptionalState {
    /// `require(true)` lifts `Unused` to `Required`; any other state stays.
    pub open spec fn required(self, require: bool) -> OptionalState {
        if require && self == OptionalState::Unused {
            OptionalState::Required
        } else {
            self
        }
    }

    pub fn require(&mut self, require: bool)
        ensures
            *final(self) == old(self).required(require),
    {
        if require && *self == OptionalState::Unused {
            *self = OptionalState::Required;
        }
    }
}

/// Why a draw cannot be issued.
#[derive(Clone, Copy, Debug, PartialEq, Eq, Structural)]
pub enum DrawError {
    MissingBlendColor,
    MissingStencilReference,
    IncompatibleBindGroup { index: u32 },
}

/// The bound index buffer (buffer, start, end of the bound range), the index
/// format and the number of indices the range holds.
#[derive(Debug)]
pub struct IndexState {
    pub bound_buffer_view: Option<(BufferId, u64, u64)>,
    pub format: IndexFormat,
    pub limit: u32,
}

/// `n`, or `u32::MAX` when `n` does not fit in 32 bits.
pub open spec fn cap_u32(n: int) -> u32 {
    if n > u32::MAX {
        u32::MAX
    } else {
        n as u32
    }
}

fn saturate_u32(n: u64) -> (r: u32)
    ensures
        r == cap_u32(n as int),
{
    if n > u32::MAX as u64 {
        u32::MAX
    } else {
        n as u32
    }
}

/// Number of indices of `format` in a bound range, capped at `u32::MAX`.
pub open spec fn index_limit(view: Option<(BufferId, u64, u64)>, format: IndexFormat) -> u32 {
    match view {
        Some((_, start, end)) => cap_u32((end - start) / (format.size() as int)),
        None => 0,
    }
}

impl IndexState {
    pub open spec fn wf(&self) -> bool {
        match self.bound_buffer_view {
            Some((_, start, end)) => start <= end,
            None => true,
        }
    }

    pub open spec fn consistent(&self) -> bool {
        self.wf() && self.limit == index_limit(self.bound_buffer_view, self.format)
    }

    pub fn new() -> (r: IndexState)
        ensures
            r.bound_buffer_view is None,
            r.format == IndexFormat::Uint16,
            r.consistent(),
    {
        IndexState { bound_buffer_view: None, format: IndexFormat::Uint16, limit: 0 }
    }

    pub fn update_limit(&mut self)
        requires
            old(self).wf(),
        ensures
            final(self).bound_buffer_view == old(self).bound_buffer_view,
            final(self).format == old(self).format,
            final(self).limit == index_limit(old(self).bound_buffer_view, old(self).format),
    {
        self.limit = match self.bound_buffer_view {
            Some((_, start, end)) => {
                let len: u64 = end - start;
                let shifted: u64 = match self.format {
                    IndexFormat::Uint16 => {
                        assert(len >> 1u64 == len / 2) by (bit_vector);
                        len >> 1u64
                    },
                    IndexFormat::Uint32 => {
                        assert(len >> 2u64 == len / 4) by (bit_vector);
                        len >> 2u64
                    },
                };
                saturate_u32(shifted)
            },
            None => 0,
        };
    }
}

/// A vertex buffer slot: bytes bound from the offset on, the stride the
/// pipeline reads with, and whether it steps per vertex or per instance.
#[derive(Clone, Copy, Debug)]
pub struct VertexBufferState {
    pub total_size: u64,
    pub stride: u64,
    pub rate: InputStepMode,
}

impl VertexBufferState {
    pub fn empty() -> (r: VertexBufferState)
        ensures
            r.total_size == 0,
            r.stride == 0,
            r.rate == InputStepMode::Vertex,
    {
        VertexBufferState { total_size: 0, stride: 0, rate: InputStepMode::Vertex }
    }
}

/// How many elements a slot can feed, capped at `u32::MAX`.
pub open spec fn slot_limit(v: VertexBufferState) -> u32 {
    cap_u32((v.total_size / v.stride) as int)
}

/// The smallest limit over the slots with a stride that step at `rate`;
/// `u32::MAX` when there is none.
pub open spec fn rate_limit(s: Seq<VertexBufferState>, rate: InputStepMode) -> u32
    decreases s.len(),
{
    if s.len() == 0 {
        u32::MAX
    } else {
        let rest = rate_limit(s.drop_last(), rate);
        let v = s.last();
        if v.stride != 0 && v.rate == rate && slot_limit(v) < rest {
            slot_limit(v)
        } else {
            rest
        }
    }
}

/// Without a slot that has a stride, nothing limits the count.
pub proof fn lemma_unstrided_limit(s: Seq<VertexBufferState>, rate: InputStepMode)
    requires
        forall|i: int| 0 <= i < s.len() ==> (#[trigger] s[i]).stride == 0,
    ensures
        rate_limit(s, rate) == u32::MAX,
    decreases s.len(),
{
    if s.len() > 0 {
        let rest = s.drop_last();
        assert forall|i: int| 0 <= i < rest.len() implies (#[trigger] rest[i]).stride == 0 by {
            assert(rest[i] == s[i]);
        }
        lemma_unstrided_limit(rest, rate);
        assert(s.last() == s[s.len() - 1]);
    }
}

/// Every vertex slot empty.
pub open spec fn empty_inputs() -> Seq<VertexBufferState> {
    Seq::new(
        MAX_VERTEX_BUFFERS as nat,
        |i: int| VertexBufferState { total_size: 0, stride: 0, rate: InputStepMode::Vertex },
    )
}

/// The vertex buffer slots and the vertex and instance counts they allow.
#[derive(Debug)]
pub struct VertexState {
    pub inputs: Vec<VertexBufferState>,
    pub vertex_limit: u32,
    pub instance_limit: u32,
}

impl VertexState {
    pub open spec fn wf(&self) -> bool {
        self.inputs@.len() == MAX_VERTEX_BUFFERS
    }

    /// All slots empty, so neither count is limited.
    pub fn new() -> (r: VertexState)
        ensures
            r.wf(),
            r.inputs@ == empty_inputs(),
            r.vertex_limit == rate_limit(r.inputs@, InputStepMode::Vertex),
            r.instance_limit == rate_limit(r.inputs@, InputStepMode::Instance),
            r.vertex_limit == u32::MAX,
            r.instance_limit == u32::MAX,
    {
        let mut inputs: Vec<VertexBufferState> = Vec::new();
        let mut i: usize = 0;
        while i < MAX_VERTEX_BUFFERS
            invariant
                i <= MAX_VERTEX_BUFFERS,
                inputs@.len() == i,
                forall|j: int|
                    0 <= j < i ==> (#[trigger] inputs@[j]).total_size == 0 && inputs@[j].stride
                        == 0 && inputs@[j].rate == InputStepMode::Vertex,
            decreases MAX_VERTEX_BUFFERS - i,
        {
            inputs.push(VertexBufferState::empty());
            i = i + 1;
        }
        assert(inputs@ =~= empty_inputs());
        proof {
            lemma_unstrided_limit(inputs@, InputStepMode::Vertex);
            lemma_unstrided_limit(inputs@, InputStepMode::Instance);
        }
        VertexState { inputs, vertex_limit: u32::MAX, instance_limit: u32::MAX }
    }

    pub fn update_limits(&mut self)
        ensures
            final(self).inputs@ == old(self).inputs@,
            final(self).vertex_limit == rate_limit(old(self).inputs@, InputStepMode::Vertex),
            final(self).instance_limit == rate_limit(old(self).inputs@, InputStepMode::Instance),
    {
        self.vertex_limit = u32::MAX;
        self.instance_limit = u32::MAX;
        let mut i: usize = 0;
        while i < self.inputs.len()
            invariant
                i <= self.inputs@.len(),
                self.inputs@ == old(self).inputs@,
                self.vertex_limit == rate_limit(
                    self.inputs@.subrange(0, i as int),
                    InputStepMode::Vertex,
                ),
                self.instance_limit == rate_limit(
                    self.inputs@.subrange(0, i as int),
                    InputStepMode::Instance,
                ),
            decreases self.inputs@.len() - i,
        {
            let vbs = self.inputs[i];
            assert(self.inputs@.subrange(0, i + 1).drop_last() =~= self.inputs@.subrange(
                0,
                i as int,
            ));
            if vbs.stride != 0 {
                let limit = saturate_u32(vbs.total_size / vbs.stride);
                match vbs.rate {
                    InputStepMode::Vertex => if limit < self.vertex_limit {
                        self.vertex_limit = limit;
                    },
                    InputStepMode::Instance => if limit < self.instance_limit {
                        self.instance_limit = limit;
                    },
                }
            }
            i = i + 1;
        }
        assert(self.inputs@.subrange(0, self.inputs@.len() as int) =~= self.inputs@);
    }
}

/// The state a draw depends on.
#[derive(Debug)]
pub struct State {
    pub binder: Binder,
    pub blend_color: OptionalState,
    pub stencil_reference: OptionalState,
    pub index: IndexState,
    pub vertex: VertexState,
}

/// The lowest slot that is expected by the pipeline but not satisfied, if any.
pub open spec fn first_invalid_slot(binder: BinderView) -> Option<int> {
    if exists|i: int| 0 <= i < binder.entries.len() && !binder.entries[i].valid() {
        Some(
            choose|i: int|
                0 <= i < binder.entries.len() && !binder.entries[i].valid() && forall|j: int|
                    0 <= j < i ==> binder.entries[j].valid(),
        )
    } else {
        None
    }
}

/// Whether a draw may be issued in the given state, and if not, why.
pub open spec fn readiness(
    binder: BinderView,
    blend_color: OptionalState,
    stencil_reference: OptionalState,
) -> Result<(), DrawError> {
    match first_invalid_slot(binder) {
        Some(i) => Err(DrawError::IncompatibleBindGroup { index: i as u32 }),
        None => if blend_color == OptionalState::Required {
            Err(DrawError::MissingBlendColor)
        } else if stencil_reference == OptionalState::Required {
            Err(DrawError::MissingStencilReference)
        } else {
            Ok(())
        },
    }
}

proof fn lemma_first_invalid(binder: Binder, mask: u8, tz: u32)
    requires
        binder@.entries.len() <= MAX_BIND_GROUPS,
        forall|i: int|
            0 <= i < 8 ==> (#[trigger] bit_set(mask, i) <==> (i < binder@.entries.len()
                && !binder@.entries[i].valid())),
        tz == mask.trailing_zeros(),
    ensures
        mask == 0 <==> first_invalid_slot(binder@) is None,
        mask != 0 ==> first_invalid_slot(binder@) == Some(tz as int),
{
    let n = binder@.entries.len();
    if mask == 0 {
        assert forall|i: int| 0 <= i < n implies binder@.entries[i].valid() by {
            let k = i as u8;
            assert((0u8 >> k) & 1u8 != 1u8) by (bit_vector);
            assert(!bit_set(mask, i));
        }
    } else {
        assert(tz < 8);
        assert(bit_set(mask, tz as int));
        assert forall|j: int| 0 <= j < tz implies binder@.entries[j].valid() by {
            assert((mask >> (j as u8)) & 1u8 == 0u8);
            assert(!bit_set(mask, j));
        }
        let k = choose|i: int|
            0 <= i < n && !binder@.entries[i].valid() && forall|j: int|
                0 <= j < i ==> binder@.entries[j].valid();
        assert(0 <= tz < n && !binder@.entries[tz as int].valid());
        if k < tz {
            assert(!bit_set(mask, k));
        } else if k > tz {
        }
    }
}

impl State {
    pub open spec fn wf(&self) -> bool {
        &&& self.binder.entries@.len() <= MAX_BIND_GROUPS
        &&& self.index.wf()
        &&& self.vertex.wf()
    }

    pub fn new(max_bind_groups: u32) -> (r: State)
        requires
            max_bind_groups <= MAX_BIND_GROUPS,
        ensures
            r.wf(),
            r.index.consistent(),
            r.binder@ == fresh_binder(max_bind_groups as nat),
            r.binder.entries@.len() == max_bind_groups,
            r.blend_color == OptionalState::Unused,
            r.stencil_reference == OptionalState::Unused,
            r.index.bound_buffer_view is None,
            r.index.format == IndexFormat::Uint16,
            r.vertex.inputs@ == empty_inputs(),
            r.vertex.vertex_limit == u32::MAX,
            r.vertex.instance_limit == u32::MAX,
    {
        State {
            binder: Binder::new(max_bind_groups),
            blend_color: OptionalState::Unused,
            stencil_reference: OptionalState::Unused,
            index: IndexState::new(),
            vertex: VertexState::new(),
        }
    }

    /// A draw may be issued when every expected bind group is satisfied and no
    /// required blend color or stencil reference is missing; the error names
    /// the lowest unsatisfied slot first.
    pub fn is_ready(&self) -> (r: Result<(), DrawError>)
        requires
            self.wf(),
        ensures
            r == readiness(self.binder@, self.blend_color, self.stencil_reference),
    {
        let bind_mask = self.binder.invalid_mask();
        let tz = bind_mask.trailing_zeros();
        proof {
            lemma_first_invalid(self.binder, bind_mask, tz);
        }
        if bind_mask != 0 {
            return Err(DrawError::IncompatibleBindGroup { index: tz });
        }
        if self.blend_color == OptionalState::Required {
            return Err(DrawError::MissingBlendColor);
        }
        if self.stencil_reference == OptionalState::Required {
            return Err(DrawError::MissingStencilReference);
        }
        Ok(())
    }
}

} // verus!
