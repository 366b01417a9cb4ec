use vstd::prelude::*;

use crate::types::{BindGroupId, BindGroupLayoutId, PipelineLayoutId, MAX_BIND_GROUPS};

verus! {

/// A bind group together with the layout it was created from.
#[derive(Clone, Copy, Debug, PartialEq, Eq, Structural)]
pub struct BindGroupPair {
    pub layout_id: BindGroupLayoutId,
    pub group_id: BindGroupId,
}

/// One bind-group slot: the layout the current pipeline expects there, the
/// group the client bound there, and that group's dynamic offsets.
#[derive(Debug)]
pub struct BindGroupEntry {
    pub expected_layout_id: Option<BindGroupLayoutId>,
    pub provided: Option<BindGroupPair>,
    pub dynamic_offsets: Vec<u64>,
}

pub struct EntryView {
    pub expected: Option<BindGroupLayoutId>,
    pub provided: Option<BindGroupPair>,
    pub offsets: Seq<u64>,
}

impl EntryView {
    /// A slot is valid when nothing is expected there, or the bound group has
    /// the expected layout.
    pub open spec fn valid(self) -> bool {
        match self.expected {
            None => true,
            Some(layout) => match self.provided {
                None => false,
                Some(pair) => pair.layout_id == layout,
            },
        }
    }

    /// The group that is effectively bound: the provided one, when it has the
    /// expected layout.
    pub open spec fn actual(self) -> Option<BindGroupId> {
        match (self.expected, self.provided) {
            (Some(layout), Some(pair)) => if pair.layout_id == layout {
                Some(pair.group_id)
            } else {
                None
            },
            _ => None,
        }
    }
}

impl View for BindGroupEntry {
    type V = EntryView;

    open spec fn view(&self) -> EntryView {
        EntryView {
            expected: self.expected_layout_id,
            provided: self.provided,
            offsets: self.dynamic_offsets@,
        }
    }
}

impl BindGroupEntry {
    pub fn empty() -> (r: BindGroupEntry)
        ensures
            r@.expected is None,
            r@.provided is None,
            r@.offsets == Seq::<u64>::empty(),
    {
        BindGroupEntry { expected_layout_id: None, provided: None, dynamic_offsets: Vec::new() }
    }

    pub fn is_valid(&self) -> (r: bool)
        ensures
            r == self@.valid(),
    {
        match self.expected_layout_id {
            None => true,
            Some(layout) => match self.provided {
                None => false,
                Some(pair) => pair.layout_id == layout,
            },
        }
    }

    pub fn actual_value(&self) -> (r: Option<BindGroupId>)
        ensures
            r == self@.actual(),
    {
        match (self.expected_layout_id, self.provided) {
            (Some(layout), Some(pair)) => if pair.layout_id == layout {
                Some(pair.group_id)
            } else {
                None
            },
            _ => None,
        }
    }
}

/// What a slot reports when the pipeline starts expecting a layout there.
#[derive(Clone, Copy, Debug, PartialEq, Eq, Structural)]
pub enum LayoutChange {
    /// The slot already expected this layout.
    Unchanged,
    /// The group bound in the slot has the newly expected layout.
    Match(BindGroupId),
    /// The slot holds no group of the newly expected layout.
    Mismatch,
}

/// Number of leading slots that are valid.
pub open spec fn compatible_count(s: Seq<EntryView>) -> nat
    decreases s.len(),
{
    if s.len() == 0 {
        0
    } else if !s[0].valid() {
        0
    } else {
        1 + compatible_count(s.drop_first())
    }
}

/// The groups in slots `from..end` that become active along with a newly
/// bound one: the effectively bound groups, up to the first slot without one.
pub open spec fn follow_ups(s: Seq<EntryView>, from: int, end: int) -> Seq<(BindGroupId, Seq<u64>)>
    decreases end - from,
{
    if from >= end || from < 0 || from >= s.len() {
        Seq::empty()
    } else {
        match s[from].actual() {
            None => Seq::empty(),
            Some(id) => seq![(id, s[from].offsets)] + follow_ups(s, from + 1, end),
        }
    }
}

/// Whether bit `i` of `mask` is set.
pub open spec fn bit_set(mask: u8, i: int) -> bool {
    (mask >> (i as u8)) & 1u8 == 1u8
}

/// A binder with `n` slots, none expected or bound.
pub open spec fn fresh_binder(n: nat) -> BinderView {
    BinderView {
        layout: None,
        entries: Seq::new(
            n,
            |i: int| EntryView { expected: None, provided: None, offsets: Seq::empty() },
        ),
    }
}

pub struct BinderView {
    pub layout: Option<PipelineLayoutId>,
    pub entries: Seq<EntryView>,
}

impl BinderView {
    /// Slot `index` after the group `pair` with `offsets` was bound there, and
    /// whether the slot changed at all (`Some(was_compatible)`) or not (`None`).
    pub open spec fn provision(self, index: int, pair: BindGroupPair, offsets: Seq<u64>) -> (
        EntryView,
        Option<bool>,
    ) {
        let e = self.entries[index];
        if e.provided == Some(pair) && e.offsets == offsets {
            (e, None)
        } else {
            let was_compatible = match e.provided {
                Some(old_pair) => e.expected == Some(old_pair.layout_id),
                None => false,
            };
            (EntryView { expected: e.expected, provided: Some(pair), offsets }, Some(was_compatible))
        }
    }

    /// Binding `pair` at `index`: the new binder, and, when the group can be
    /// bound now, the pipeline layout and the follow-up groups to bind with it.
    pub open spec fn provide(self, index: int, pair: BindGroupPair, offsets: Seq<u64>) -> (
        BinderView,
        Option<(PipelineLayoutId, Seq<(BindGroupId, Seq<u64>)>)>,
    ) {
        let (e, change) = self.provision(index, pair, offsets);
        match change {
            None => (self, None),
            Some(was_compatible) => {
                let b = BinderView { layout: self.layout, entries: self.entries.update(index, e) };
                let cc = compatible_count(b.entries) as int;
                if index < cc {
                    let limit = if was_compatible {
                        index + 1
                    } else {
                        b.entries.len() as int
                    };
                    let end = if cc < limit {
                        cc
                    } else {
                        limit
                    };
                    match b.layout {
                        None => (b, None),
                        Some(layout) => (b, Some((layout, follow_ups(b.entries, index + 1, end)))),
                    }
                } else {
                    (b, None)
                }
            },
        }
    }

    /// Slot `index` starts expecting `layout`.
    pub open spec fn expect(self, index: int, layout: BindGroupLayoutId) -> (BinderView, LayoutChange) {
        let e = self.entries[index];
        if e.expected == Some(layout) {
            (self, LayoutChange::Unchanged)
        } else {
            let e2 = EntryView { expected: Some(layout), provided: e.provided, offsets: e.offsets };
            let change = match e.provided {
                Some(pair) => if pair.layout_id == layout {
                    LayoutChange::Match(pair.group_id)
                } else {
                    LayoutChange::Mismatch
                },
                None => LayoutChange::Mismatch,
            };
            (BinderView { layout: self.layout, entries: self.entries.update(index, e2) }, change)
        }
    }

    /// Slots from `length` on expect nothing.
    pub open spec fn reset(self, length: int) -> BinderView {
        BinderView {
            layout: self.layout,
            entries: Seq::new(
                self.entries.len(),
                |i: int|
                    if i < length {
                        self.entries[i]
                    } else {
                        EntryView {
                            expected: None,
                            provided: self.entries[i].provided,
                            offsets: self.entries[i].offsets,
                        }
                    },
            ),
        }
    }
}

/// Per-slot record of expected layouts and bound groups.
#[derive(Debug)]
pub struct Binder {
    pub pipeline_layout_id: Option<PipelineLayoutId>,
    pub entries: Vec<BindGroupEntry>,
}

impl View for Binder {
    type V = BinderView;

    open spec fn view(&self) -> BinderView {
        BinderView {
            layout: self.pipeline_layout_id,
            entries: self.entries@.map_values(|e: BindGroupEntry| e@),
        }
    }
}

/// Copies a slice of offsets into a vector of its own.
pub fn offsets_to_vec(s: &[u64]) -> (r: Vec<u64>)
    ensures
        r@ == s@,
{
    let mut r: Vec<u64> = Vec::new();
    let mut i: usize = 0;
    while i < s.len()
        invariant
            i <= s@.len(),
            r@ == s@.subrange(0, i as int),
        decreases s@.len() - i,
    {
        r.push(s[i]);
        i = i + 1;
        assert(r@ =~= s@.subrange(0, i as int));
    }
    assert(r@ =~= s@);
    r
}

proof fn lemma_compatible_count(s: Seq<EntryView>, n: int)
    requires
        0 <= n <= s.len(),
        forall|j: int| 0 <= j < n ==> #[trigger] s[j].valid(),
        n < s.len() ==> !s[n].valid(),
    ensures
        compatible_count(s) == n,
    decreases n,
{
    if n > 0 {
        let t = s.drop_first();
        assert forall|j: int| 0 <= j < n - 1 implies #[trigger] t[j].valid() by {
            assert(t[j] == s[j + 1]);
        }
        if n - 1 < t.len() {
            assert(t[n - 1] == s[n]);
        }
        lemma_compatible_count(t, n - 1);
    }
}

proof fn lemma_bits(m: u8, i: u8, j: u8)
    requires
        i < 8,
        j < 8,
    ensures
        ((m | (1u8 << i)) >> j) & 1u8 == 1u8 <==> (j == i || (m >> j) & 1u8 == 1u8),
        (0u8 >> j) & 1u8 != 1u8,
{
    assert(((m | (1u8 << i)) >> j) & 1u8 == 1u8 <==> (j == i || (m >> j) & 1u8 == 1u8))
        by (bit_vector)
        requires
            i < 8,
            j < 8,
    ;
    assert((0u8 >> j) & 1u8 != 1u8) by (bit_vector);
}

impl Binder {
    pub fn new(max_bind_groups: u32) -> (r: Binder)
        requires
            max_bind_groups <= MAX_BIND_GROUPS,
        ensures
            r@ == fresh_binder(max_bind_groups as nat),
            r.entries@.len() == max_bind_groups,
    {
        let mut entries: Vec<BindGroupEntry> = Vec::new();
        let mut i: u32 = 0;
        while i < max_bind_groups
            invariant
                i <= max_bind_groups,
                entries@.len() == i,
                forall|j: int|
                    0 <= j < i ==> (#[trigger] entries@[j])@.expected is None
                        && entries@[j]@.provided is None && entries@[j]@.offsets.len() == 0,
            decreases max_bind_groups - i,
        {
            entries.push(BindGroupEntry::empty());
            i = i + 1;
        }
        let r = Binder { pipeline_layout_id: None, entries };
        assert forall|j: int| 0 <= j < max_bind_groups implies (#[trigger] r@.entries[j]) == fresh_binder(
            max_bind_groups as nat,
        ).entries[j] by {
            assert(r.entries@[j]@.offsets =~= Seq::<u64>::empty());
        }
        assert(r@.entries =~= fresh_binder(max_bind_groups as nat).entries);
        r
    }

    /// Slots from `length` on stop expecting a layout.
    pub fn reset_expectations(&mut self, length: usize)
        requires
            length <= old(self).entries.len(),
        ensures
            final(self)@ == old(self)@.reset(length as int),
            final(self).entries@.len() == old(self).entries@.len(),
    {
        let mut i: usize = length;
        while i < self.entries.len()
            invariant
                length <= i <= self.entries.len(),
                self.entries.len() == old(self).entries.len(),
                self.pipeline_layout_id == old(self).pipeline_layout_id,
                forall|j: int|
                    0 <= j < self.entries.len() ==> (#[trigger] self.entries@[j])@ == (if j < length
                        || j >= i {
                        old(self).entries@[j]@
                    } else {
                        EntryView {
                            expected: None,
                            provided: old(self).entries@[j]@.provided,
                            offsets: old(self).entries@[j]@.offsets,
                        }
                    }),
            decreases self.entries.len() - i,
        {
            self.entries[i].expected_layout_id = None;
            i = i + 1;
        }
        assert(self@.entries =~= old(self)@.reset(length as int).entries);
    }

    /// Bit `i` is set when slot `i` expects a layout that its group does not have.
    pub fn invalid_mask(&self) -> (r: u8)
        requires
            self.entries.len() <= MAX_BIND_GROUPS,
        ensures
            forall|i: int|
                0 <= i < 8 ==> (#[trigger] bit_set(r, i) <==> (i < self@.entries.len()
                    && !self@.entries[i].valid())),
    {
        let mut mask: u8 = 0;
        let mut i: usize = 0;
        proof {
            assert forall|j: int| 0 <= j < 8 implies !bit_set(mask, j) by {
                lemma_bits(0, 0, j as u8);
            }
        }
        while i < self.entries.len()
            invariant
                i <= self.entries.len() <= 8,
                forall|j: int|
                    0 <= j < 8 ==> (#[trigger] bit_set(mask, j) <==> (j < i
                        && !self@.entries[j].valid())),
            decreases self.entries.len() - i,
        {
            let ghost old_mask = mask;
            assert(self@.entries[i as int] == self.entries@[i as int]@);
            if !self.entries[i].is_valid() {
                mask = mask | (1u8 << (i as u8));
                proof {
                    assert forall|j: int| 0 <= j < 8 implies (bit_set(mask, j) <==> (j == i
                        || bit_set(old_mask, j))) by {
                        lemma_bits(old_mask, i as u8, j as u8);
                    }
                }
            }
            i = i + 1;
        }
        mask
    }

    /// Number of leading valid slots.
    pub fn compatible_count(&self) -> (r: usize)
        ensures
            r == compatible_count(self@.entries),
    {
        let mut i: usize = 0;
        while i < self.entries.len() && self.entries[i].is_valid()
            invariant
                i <= self.entries.len(),
                forall|j: int| 0 <= j < i ==> (#[trigger] self@.entries[j]).valid(),
            decreases self.entries.len() - i,
        {
            i = i + 1;
        }
        proof {
            lemma_compatible_count(self@.entries, i as int);
        }
        i
    }

    /// Slot `index` starts expecting `layout`; reports whether its bound
    /// group matches.
    pub fn expect_layout(&mut self, index: usize, layout: BindGroupLayoutId) -> (r: LayoutChange)
        requires
            index < old(self).entries.len(),
        ensures
            (final(self)@, r) == old(self)@.expect(index as int, layout),
            final(self).entries@.len() == old(self).entries@.len(),
    {
        let some = Some(layout);
        if self.entries[index].expected_layout_id != some {
            self.entries[index].expected_layout_id = some;
            let r = match self.entries[index].provided {
                Some(pair) => if pair.layout_id == layout {
                    LayoutChange::Match(pair.group_id)
                } else {
                    LayoutChange::Mismatch
                },
                None => LayoutChange::Mismatch,
            };
            assert(self@.entries =~= old(self)@.expect(index as int, layout).0.entries);
            r
        } else {
            assert(self@.entries =~= old(self)@.entries);
            LayoutChange::Unchanged
        }
    }

    /// The follow-up groups in slots `from..end`.
    fn collect_follow_ups(&self, from: usize, end: usize) -> (r: Vec<(BindGroupId, Vec<u64>)>)
        requires
            from <= end <= self.entries.len(),
        ensures
            follow_view(r@) == follow_ups(self@.entries, from as int, end as int),
    {
        let mut r: Vec<(BindGroupId, Vec<u64>)> = Vec::new();
        let mut i: usize = from;
        while i < end
            invariant
                from <= i <= end <= self.entries.len(),
                follow_view(r@) + follow_ups(self@.entries, i as int, end as int) == follow_ups(
                    self@.entries,
                    from as int,
                    end as int,
                ),
            decreases end - i,
        {
            match self.entries[i].actual_value() {
                None => {
                    assert(follow_view(r@) =~= follow_view(r@) + follow_ups(
                        self@.entries,
                        i as int,
                        end as int,
                    ));
                    return r;
                },
                Some(id) => {
                    let offsets = offsets_to_vec(self.entries[i].dynamic_offsets.as_slice());
                    let ghost before = r@;
                    r.push((id, offsets));
                    assert(follow_view(r@) =~= follow_view(before).push(
                        (id, self@.entries[i as int].offsets),
                    ));
                    assert(follow_view(r@) + follow_ups(self@.entries, i + 1, end as int)
                        =~= follow_view(before) + follow_ups(self@.entries, i as int, end as int));
                },
            }
            i = i + 1;
        }
        assert(follow_view(r@) =~= follow_view(r@) + follow_ups(
            self@.entries,
            i as int,
            end as int,
        ));
        r
    }

    /// Binds `pair` with `offsets` at `index`. When the group can be bound on
    /// the backend now, returns the pipeline layout and the groups of the
    /// following slots that become active along with it.
    pub fn provide_entry(&mut self, index: usize, pair: BindGroupPair, offsets: &[u64]) -> (r: Option<
        (PipelineLayoutId, Vec<(BindGroupId, Vec<u64>)>),
    >)
        requires
            index < old(self).entries.len(),
        ensures
            (final(self)@, provision_view(r)) == old(self)@.provide(index as int, pair, offsets@),
            final(self).entries@.len() == old(self).entries@.len(),
    {
        let was_compatible: bool;
        {
            let e = &self.entries[index];
            if e.provided == Some(pair) && slices_equal(e.dynamic_offsets.as_slice(), offsets) {
                return None;
            }
            was_compatible = match e.provided {
                Some(old_pair) => e.expected_layout_id == Some(old_pair.layout_id),
                None => false,
            };
        }
        self.entries[index].provided = Some(pair);
        self.entries[index].dynamic_offsets = offsets_to_vec(offsets);
        assert(self@.entries =~= old(self)@.entries.update(
            index as int,
            old(self)@.provision(index as int, pair, offsets@).0,
        ));
        let cc = self.compatible_count();
        if index < cc {
            let limit = if was_compatible {
                index + 1
            } else {
                self.entries.len()
            };
            let end = if cc < limit {
                cc
            } else {
                limit
            };
            match self.pipeline_layout_id {
                None => None,
                Some(layout) => Some((layout, self.collect_follow_ups(index + 1, end))),
            }
        } else {
            None
        }
    }
}

pub open spec fn follow_view(s: Seq<(BindGroupId, Vec<u64>)>) -> Seq<(BindGroupId, Seq<u64>)> {
    s.map_values(|p: (BindGroupId, Vec<u64>)| (p.0, p.1@))
}

pub open spec fn provision_view(r: Option<(PipelineLayoutId, Vec<(BindGroupId, Vec<u64>)>)>) -> Option<
    (PipelineLayoutId, Seq<(BindGroupId, Seq<u64>)>),
> {
    match r {
        None => None,
        Some((layout, groups)) => Some((layout, follow_view(groups@))),
    }
}

/// Element-wise equality of two offset lists.
pub fn slices_equal(a: &[u64], b: &[u64]) -> (r: bool)
    ensures
        r == (a@ == b@),
{
    if a.len() != b.len() {
        return false;
    }
    let mut i: usize = 0;
    while i < a.len()
        invariant
            i <= a@.len() == b@.len(),
            forall|j: int| 0 <= j < i ==> a@[j] == b@[j],
        decreases a@.len() - i,
    {
        if a[i] != b[i] {
            return false;
        }
        i = i + 1;
    }
    assert(a@ =~= b@);
    true
}

} // verus!
