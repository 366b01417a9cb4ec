use vstd::prelude::*;

use crate::attachment::{
    AttachmentDesc, FramebufferKey, FramebufferKeyView, RenderPassKey, RenderPassKeyView,
    SubpassDesc, SubpassView,
};
use crate::types::TextureViewId;

verus! {

/// Index of the first occurrence of `k` in `keys`, or -1.
pub open spec fn position<K>(keys: Seq<K>, k: K) -> int
    decreases keys.len(),
{
    if keys.len() == 0 {
        -1
    } else {
        let p = position(keys.drop_last(), k);
        if p >= 0 {
            p
        } else if keys.last() == k {
            keys.len() - 1
        } else {
            -1
        }
    }
}

pub open spec fn render_pass_keys(entries: Seq<(RenderPassKeyView, SubpassView)>) -> Seq<RenderPassKeyView> {
    entries.map_values(|e: (RenderPassKeyView, SubpassView)| e.0)
}

pub struct CacheView {
    pub render_passes: Seq<(RenderPassKeyView, SubpassView)>,
    pub framebuffers: Seq<FramebufferKeyView>,
}

impl CacheView {
    /// The cache after looking up a render pass, and the entry's index: an
    /// entry with an equal key is reused, else one is added.
    pub open spec fn with_render_pass(self, key: RenderPassKeyView, subpass: SubpassView) -> (CacheView, int) {
        let keys = render_pass_keys(self.render_passes);
        if position(keys, key) >= 0 {
            (self, position(keys, key))
        } else {
            (
                CacheView { render_passes: self.render_passes.push((key, subpass)), ..self },
                keys.len() as int,
            )
        }
    }

    pub open spec fn with_framebuffer(self, key: FramebufferKeyView) -> (CacheView, int) {
        if position(self.framebuffers, key) >= 0 {
            (self, position(self.framebuffers, key))
        } else {
            (
                CacheView { framebuffers: self.framebuffers.push(key), ..self },
                self.framebuffers.len() as int,
            )
        }
    }
}

/// Device-wide caches of backend render passes and framebuffers, keyed
/// structurally; the backend objects of entry `i` are created for entry `i`.
#[derive(Debug)]
pub struct ObjectCache {
    pub render_passes: Vec<(RenderPassKey, SubpassDesc)>,
    pub framebuffers: Vec<FramebufferKey>,
}

impl View for ObjectCache {
    type V = CacheView;

    open spec fn view(&self) -> CacheView {
        CacheView {
            render_passes: self.render_passes@.map_values(
                |e: (RenderPassKey, SubpassDesc)| (e.0@, e.1@),
            ),
            framebuffers: self.framebuffers@.map_values(|k: FramebufferKey| k@),
        }
    }
}

fn descs_equal(a: &Vec<AttachmentDesc>, b: &Vec<AttachmentDesc>) -> (r: bool)
    ensures
        r == (a@ == b@),
{
    if a.len() != b.len() {
        return false;
    }
    let mut i: usize = 0;
    while i < a.len()
        invariant
            i <= a@.len() == b@.len(),
            forall|j: int| 0 <= j < i ==> a@[j] == b@[j],
        decreases a@.len() - i,
    {
        if a[i] != b[i] {
            return false;
        }
        i = i + 1;
    }
    assert(a@ =~= b@);
    true
}

fn ids_equal(a: &Vec<TextureViewId>, b: &Vec<TextureViewId>) -> (r: bool)
    ensures
        r == (a@ == b@),
{
    if a.len() != b.len() {
        return false;
    }
    let mut i: usize = 0;
    while i < a.len()
        invariant
            i <= a@.len() == b@.len(),
            forall|j: int| 0 <= j < i ==> a@[j] == b@[j],
        decreases a@.len() - i,
    {
        if a[i] != b[i] {
            return false;
        }
        i = i + 1;
    }
    assert(a@ =~= b@);
    true
}

impl RenderPassKey {
    pub fn same_as(&self, other: &RenderPassKey) -> (r: bool)
        ensures
            r == (self@ == other@),
    {
        let ds = match (self.depth_stencil, other.depth_stencil) {
            (None, None) => true,
            (Some(a), Some(b)) => a == b,
            _ => false,
        };
        descs_equal(&self.colors, &other.colors) && descs_equal(&self.resolves, &other.resolves)
            && ds
    }
}

impl FramebufferKey {
    pub fn same_as(&self, other: &FramebufferKey) -> (r: bool)
        ensures
            r == (self@ == other@),
    {
        ids_equal(&self.colors, &other.colors) && ids_equal(&self.resolves, &other.resolves)
            && self.depth_stencil == other.depth_stencil
    }
}

impl ObjectCache {
    pub fn new() -> (r: ObjectCache)
        ensures
            r@.render_passes == Seq::<(RenderPassKeyView, SubpassView)>::empty(),
            r@.framebuffers == Seq::<FramebufferKeyView>::empty(),
    {
        let r = ObjectCache { render_passes: Vec::new(), framebuffers: Vec::new() };
        assert(r@.render_passes =~= Seq::<(RenderPassKeyView, SubpassView)>::empty());
        assert(r@.framebuffers =~= Seq::<FramebufferKeyView>::empty());
        r
    }

    /// Finds the render pass cached under `key`, or adds one built from
    /// `subpass`, and returns its index.
    pub fn render_pass(&mut self, key: RenderPassKey, subpass: SubpassDesc) -> (r: usize)
        ensures
            (final(self)@, r as int) == old(self)@.with_render_pass(key@, subpass@),
    {
        let ghost keys = render_pass_keys(self@.render_passes);
        let mut i: usize = 0;
        while i < self.render_passes.len()
            invariant
                i <= self.render_passes@.len(),
                self@ == old(self)@,
                keys == render_pass_keys(self@.render_passes),
                keys.len() == self.render_passes@.len(),
                position(keys.take(i as int), key@) == -1,
            decreases self.render_passes@.len() - i,
        {
            assert(keys.take(i + 1).drop_last() =~= keys.take(i as int));
            assert(keys[i as int] == self.render_passes@[i as int].0@);
            if self.render_passes[i].0.same_as(&key) {
                proof {
                    lemma_position_prefix(keys, key@, i as int + 1);
                }
                return i;
            }
            i = i + 1;
        }
        assert(keys.take(i as int) =~= keys);
        let n = self.render_passes.len();
        self.render_passes.push((key, subpass));
        assert(self@.render_passes =~= old(self)@.render_passes.push((key@, subpass@)));
        n
    }

    /// Finds the framebuffer cached under `key`, or adds it, and returns its
    /// index.
    pub fn framebuffer(&mut self, key: FramebufferKey) -> (r: usize)
        ensures
            (final(self)@, r as int) == old(self)@.with_framebuffer(key@),
    {
        let ghost keys = self@.framebuffers;
        let mut i: usize = 0;
        while i < self.framebuffers.len()
            invariant
                i <= self.framebuffers@.len(),
                self@ == old(self)@,
                keys == self@.framebuffers,
                keys.len() == self.framebuffers@.len(),
                position(keys.take(i as int), key@) == -1,
            decreases self.framebuffers@.len() - i,
        {
            assert(keys.take(i + 1).drop_last() =~= keys.take(i as int));
            assert(keys[i as int] == self.framebuffers@[i as int]@);
            if self.framebuffers[i].same_as(&key) {
                proof {
                    lemma_position_prefix(keys, key@, i as int + 1);
                }
                return i;
            }
            i = i + 1;
        }
        assert(keys.take(i as int) =~= keys);
        let n = self.framebuffers.len();
        self.framebuffers.push(key);
        assert(self@.framebuffers =~= old(self)@.framebuffers.push(key@));
        n
    }
}

/// A match found in a prefix is the first match in the whole sequence.
proof fn lemma_position_prefix<K>(keys: Seq<K>, k: K, n: int)
    requires
        0 < n <= keys.len(),
        position(keys.take(n), k) == n - 1,
    ensures
        position(keys, k) == n - 1,
    decreases keys.len() - n,
{
    if n < keys.len() {
        assert(keys.drop_last().take(n) =~= keys.take(n));
        lemma_position_prefix(keys.drop_last(), k, n);
    } else {
        assert(keys.take(n) =~= keys);
    }
}

} // verus!
