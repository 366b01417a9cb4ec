use vstd::prelude::*;

verus! {

/// Usage state of one resource within a tracker: the usage it was first
/// seen in, and its current usage.
#[derive(Clone, Copy, Debug, PartialEq, Eq, Structural)]
pub struct Unit {
    pub first: u32,
    pub last: u32,
}

/// A resource whose usage must change before later commands can use it.
#[derive(Clone, Copy, Debug, PartialEq, Eq, Structural)]
pub enum Resource {
    Buffer(usize),
    Texture(usize),
}

/// A usage transition the backend must perform on a resource.
#[derive(Clone, Copy, Debug, PartialEq, Eq, Structural)]
pub struct Transition {
    pub resource: Resource,
    pub from: u32,
    pub to: u32,
}

/// Per-resource usage state of one kind of resource, indexed by resource id.
#[derive(Debug)]
pub struct UsageTracker {
    pub units: Vec<Option<Unit>>,
}

/// State after a use that extends the current usage with `usage`.
pub open spec fn extended(u: Option<Unit>, usage: u32) -> Unit {
    match u {
        None => Unit { first: usage, last: usage },
        Some(unit) => Unit { first: unit.first, last: unit.last | usage },
    }
}

/// State after a use that replaces the current usage with `usage`.
pub open spec fn replaced(u: Option<Unit>, usage: u32) -> Unit {
    match u {
        None => Unit { first: usage, last: usage },
        Some(unit) => Unit { first: unit.first, last: usage },
    }
}

/// A tracker after each `(id, usage)` of `uses`, in order, extended it.
pub open spec fn extended_all(units: Seq<Option<Unit>>, uses: Seq<(usize, u32)>) -> Seq<Option<Unit>>
    decreases uses.len(),
{
    if uses.len() == 0 {
        units
    } else {
        let prior = extended_all(units, uses.drop_last());
        let (id, usage) = uses.last();
        prior.update(id as int, Some(extended(prior[id as int], usage)))
    }
}

/// State of a resource in `dst` once the uses recorded in `src` follow it.
pub open spec fn merged(dst: Option<Unit>, src: Option<Unit>) -> Option<Unit> {
    match (dst, src) {
        (_, None) => dst,
        (None, Some(s)) => Some(s),
        (Some(d), Some(s)) => Some(Unit { first: d.first, last: s.last }),
    }
}

/// The transitions that must precede the uses in `src` after the state in
/// `dst`, for the resources below `n`, in id order.
pub open spec fn transitions(
    dst: Seq<Option<Unit>>,
    src: Seq<Option<Unit>>,
    n: int,
    texture: bool,
) -> Seq<Transition>
    decreases n,
{
    if n <= 0 {
        Seq::empty()
    } else {
        let rest = transitions(dst, src, n - 1, texture);
        let i = n - 1;
        match (dst[i], src[i]) {
            (Some(d), Some(s)) => if d.last != s.first {
                rest.push(
                    Transition {
                        resource: if texture {
                            Resource::Texture(i as usize)
                        } else {
                            Resource::Buffer(i as usize)
                        },
                        from: d.last,
                        to: s.first,
                    },
                )
            } else {
                rest
            },
            _ => rest,
        }
    }
}

impl UsageTracker {
    /// A tracker for `n` resources, none of them used yet.
    pub fn new(n: usize) -> (r: UsageTracker)
        ensures
            r.units@ == Seq::new(n as nat, |i: int| None::<Unit>),
    {
        let mut units: Vec<Option<Unit>> = Vec::new();
        let mut i: usize = 0;
        while i < n
            invariant
                i <= n,
                units@ == Seq::new(i as nat, |j: int| None::<Unit>),
            decreases n - i,
        {
            units.push(None);
            i = i + 1;
            assert(units@ =~= Seq::new(i as nat, |j: int| None::<Unit>));
        }
        UsageTracker { units }
    }

    /// The current usage of resource `id`, if it is tracked.
    pub fn query(&self, id: usize) -> (r: Option<u32>)
        requires
            id < self.units@.len(),
        ensures
            r == (match self.units@[id as int] {
                Some(u) => Some(u.last),
                None => None,
            }),
    {
        match self.units[id] {
            Some(u) => Some(u.last),
            None => None,
        }
    }

    pub fn use_extend(&mut self, id: usize, usage: u32)
        requires
            id < old(self).units@.len(),
        ensures
            final(self).units@ == old(self).units@.update(
                id as int,
                Some(extended(old(self).units@[id as int], usage)),
            ),
    {
        let u = match self.units[id] {
            None => Unit { first: usage, last: usage },
            Some(unit) => Unit { first: unit.first, last: unit.last | usage },
        };
        self.units.set(id, Some(u));
    }

    /// Extends the tracker with every use in `uses`, in order.
    pub fn extend_all(&mut self, uses: &Vec<(usize, u32)>)
        requires
            forall|i: int| 0 <= i < uses@.len() ==> (#[trigger] uses@[i]).0 < old(self).units@.len(),
        ensures
            final(self).units@ == extended_all(old(self).units@, uses@),
            final(self).units@.len() == old(self).units@.len(),
    {
        let mut i: usize = 0;
        while i < uses.len()
            invariant
                i <= uses@.len(),
                self.units@.len() == old(self).units@.len(),
                forall|j: int| 0 <= j < uses@.len() ==> (#[trigger] uses@[j]).0 < self.units@.len(),
                self.units@ == extended_all(old(self).units@, uses@.take(i as int)),
            decreases uses@.len() - i,
        {
            assert(uses@.take(i + 1).drop_last() =~= uses@.take(i as int));
            let (id, usage) = uses[i];
            self.use_extend(id, usage);
            i = i + 1;
        }
        assert(uses@.take(uses@.len() as int) =~= uses@);
    }

    pub fn change_replace(&mut self, id: usize, usage: u32)
        requires
            id < old(self).units@.len(),
        ensures
            final(self).units@ == old(self).units@.update(
                id as int,
                Some(replaced(old(self).units@[id as int], usage)),
            ),
    {
        let u = match self.units[id] {
            None => Unit { first: usage, last: usage },
            Some(unit) => Unit { first: unit.first, last: usage },
        };
        self.units.set(id, Some(u));
    }

    /// Folds the uses recorded in `src` into this tracker and returns the
    /// transitions they need, in id order.
    pub fn merge_replace(&mut self, src: &UsageTracker, texture: bool) -> (r: Vec<Transition>)
        requires
            old(self).units@.len() == src.units@.len(),
        ensures
            final(self).units@ == Seq::new(
                src.units@.len(),
                |i: int| merged(old(self).units@[i], src.units@[i]),
            ),
            r@ == transitions(old(self).units@, src.units@, src.units@.len() as int, texture),
    {
        let mut r: Vec<Transition> = Vec::new();
        let mut i: usize = 0;
        while i < src.units.len()
            invariant
                i <= src.units@.len() == self.units@.len(),
                forall|j: int|
                    0 <= j < self.units@.len() ==> #[trigger] self.units@[j] == if j < i {
                        merged(old(self).units@[j], src.units@[j])
                    } else {
                        old(self).units@[j]
                    },
                r@ == transitions(old(self).units@, src.units@, i as int, texture),
            decreases src.units@.len() - i,
        {
            match (self.units[i], src.units[i]) {
                (Some(d), Some(s)) => {
                    if d.last != s.first {
                        let resource = if texture {
                            Resource::Texture(i)
                        } else {
                            Resource::Buffer(i)
                        };
                        r.push(Transition { resource, from: d.last, to: s.first });
                    }
                    self.units.set(i, Some(Unit { first: d.first, last: s.last }));
                },
                (None, Some(s)) => {
                    self.units.set(i, Some(s));
                },
                (_, None) => {},
            }
            i = i + 1;
        }
        assert(self.units@ =~= Seq::new(
            src.units@.len(),
            |i: int| merged(old(self).units@[i], src.units@[i]),
        ));
        r
    }
}

/// The trackers of a command buffer or of a pass.
#[derive(Debug)]
pub struct TrackerSet {
    pub buffers: UsageTracker,
    pub textures: UsageTracker,
}

impl TrackerSet {
    pub fn new(n_buffers: usize, n_textures: usize) -> (r: TrackerSet)
        ensures
            r.buffers.units@ == Seq::new(n_buffers as nat, |i: int| None::<Unit>),
            r.textures.units@ == Seq::new(n_textures as nat, |i: int| None::<Unit>),
    {
        TrackerSet { buffers: UsageTracker::new(n_buffers), textures: UsageTracker::new(n_textures) }
    }
}

} // verus!
