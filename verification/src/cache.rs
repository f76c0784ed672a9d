//! Structural caches of compiled render-pass and framebuffer objects.
//!
//! Both caches map a structural key to the opaque id of a lazily created
//! native object.  A hit returns the existing id unchanged; a miss assigns
//! the next fresh id and reports that the backend object must be built.
//! Neither cache ever evicts: both grow for the lifetime of the device.

use vstd::prelude::*;
use crate::format::{LoadOp, StoreOp, TextureFormat};

verus! {

/// An image layout an attachment is in when a pass begins or ends.
#[derive(Copy, Clone, Debug, PartialEq, Eq, Structural)]
pub enum Layout {
    Undefined,
    General,
    ColorAttachmentOptimal,
    DepthStencilAttachmentOptimal,
    ShaderReadOnlyOptimal,
    TransferSrcOptimal,
    TransferDstOptimal,
    Present,
}

/// An attachment's load/store operation pair.
#[derive(Copy, Clone, Debug, PartialEq, Eq, Structural)]
pub struct AttachmentOps {
    pub load: LoadOp,
    pub store: StoreOp,
}

/// The stencil operations of an attachment; color attachments leave them
/// unspecified.
#[derive(Copy, Clone, Debug, PartialEq, Eq, Structural)]
pub enum StencilOps {
    DontCare,
    Used(AttachmentOps),
}

/// The shape of one attachment: everything a compiled render pass depends
/// on, and nothing that identifies a concrete image view.
#[derive(Copy, Clone, Debug, PartialEq, Eq, Structural)]
pub struct AttachmentKey {
    pub format: TextureFormat,
    pub samples: u8,
    pub ops: AttachmentOps,
    pub stencil_ops: StencilOps,
    pub initial_layout: Layout,
    pub final_layout: Layout,
}

/// The structural key of a compiled render pass: the ordered color
/// attachment shapes, an optional depth-stencil shape, and an optional
/// parallel sequence of resolve shapes.  Never mutated after creation.
pub struct RenderPassKey {
    pub colors: Vec<AttachmentKey>,
    pub depth_stencil: Option<AttachmentKey>,
    pub resolves: Option<Vec<AttachmentKey>>,
}

/// Structural equality of render-pass keys: same color shapes in the same
/// order, same depth-stencil shape, same resolve shapes.
pub open spec fn rp_key_eq(a: RenderPassKey, b: RenderPassKey) -> bool {
    &&& a.colors@ == b.colors@
    &&& a.depth_stencil == b.depth_stencil
    &&& (a.resolves is Some <==> b.resolves is Some)
    &&& (a.resolves is Some && b.resolves is Some ==> a.resolves.unwrap()@ == b.resolves.unwrap()@)
}

/// The concrete attachment view ids bound to one render-pass shape.  Many
/// distinct view sets can share one compiled render pass.
pub struct FramebufferKey {
    pub colors: Vec<u64>,
    pub depth_stencil: Option<u64>,
    pub resolves: Option<Vec<u64>>,
}

/// Equality of framebuffer keys: the same concrete view ids everywhere.
pub open spec fn fb_key_eq(a: FramebufferKey, b: FramebufferKey) -> bool {
    &&& a.colors@ == b.colors@
    &&& a.depth_stencil == b.depth_stencil
    &&& (a.resolves is Some <==> b.resolves is Some)
    &&& (a.resolves is Some && b.resolves is Some ==> a.resolves.unwrap()@ == b.resolves.unwrap()@)
}

/// Whether two attachment-shape sequences are equal, element by element.
fn attachment_seqs_eq(a: &Vec<AttachmentKey>, b: &Vec<AttachmentKey>) -> (r: bool)
    ensures
        r <==> a@ == b@,
{
    if a.len() != b.len() {
        proof {
            assert(a@.len() != b@.len());
        }
        return false;
    }
    let mut i: usize = 0;
    while i < a.len()
        invariant
            a@.len() == b@.len(),
            0 <= i <= a@.len(),
            forall|j: int| 0 <= j < i ==> a@[j] == b@[j],
        decreases a@.len() - i,
    {
        if a[i] != b[i] {
            return false;
        }
        i = i + 1;
    }
    proof {
        assert(a@ =~= b@);
    }
    true
}

/// Whether two view-id sequences are equal, element by element.
fn id_seqs_eq(a: &Vec<u64>, b: &Vec<u64>) -> (r: bool)
    ensures
        r <==> a@ == b@,
{
    if a.len() != b.len() {
        proof {
            assert(a@.len() != b@.len());
        }
        return false;
    }
    let mut i: usize = 0;
    while i < a.len()
        invariant
            a@.len() == b@.len(),
            0 <= i <= a@.len(),
            forall|j: int| 0 <= j < i ==> a@[j] == b@[j],
        decreases a@.len() - i,
    {
        if a[i] != b[i] {
            return false;
        }
        i = i + 1;
    }
    proof {
        assert(a@ =~= b@);
    }
    true
}

/// Decides structural equality of two render-pass keys.
pub fn rp_keys_match(a: &RenderPassKey, b: &RenderPassKey) -> (r: bool)
    ensures
        r <==> rp_key_eq(*a, *b),
{
    let colors_eq = attachment_seqs_eq(&a.colors, &b.colors);
    let ds_eq = match (&a.depth_stencil, &b.depth_stencil) {
        (None, None) => true,
        (Some(x), Some(y)) => *x == *y,
        _ => false,
    };
    let resolves_eq = match (&a.resolves, &b.resolves) {
        (None, None) => true,
        (Some(x), Some(y)) => attachment_seqs_eq(x, y),
        _ => false,
    };
    colors_eq && ds_eq && resolves_eq
}

/// Decides equality of two framebuffer keys.
pub fn fb_keys_match(a: &FramebufferKey, b: &FramebufferKey) -> (r: bool)
    ensures
        r <==> fb_key_eq(*a, *b),
{
    let colors_eq = id_seqs_eq(&a.colors, &b.colors);
    let ds_eq = match (&a.depth_stencil, &b.depth_stencil) {
        (None, None) => true,
        (Some(x), Some(y)) => *x == *y,
        _ => false,
    };
    let resolves_eq = match (&a.resolves, &b.resolves) {
        (None, None) => true,
        (Some(x), Some(y)) => id_seqs_eq(x, y),
        _ => false,
    };
    colors_eq && ds_eq && resolves_eq
}

/// The object id a render-pass entry sequence associates with `key`, if any.
pub open spec fn rp_lookup(entries: Seq<(RenderPassKey, u64)>, key: RenderPassKey) -> Option<u64>
    decreases entries.len(),
{
    if entries.len() == 0 {
        None
    } else if rp_key_eq(entries.last().0, key) {
        Some(entries.last().1)
    } else {
        rp_lookup(entries.drop_last(), key)
    }
}

/// The object id a framebuffer entry sequence associates with `key`, if any.
pub open spec fn fb_lookup(entries: Seq<(FramebufferKey, u64)>, key: FramebufferKey) -> Option<u64>
    decreases entries.len(),
{
    if entries.len() == 0 {
        None
    } else if fb_key_eq(entries.last().0, key) {
        Some(entries.last().1)
    } else {
        fb_lookup(entries.drop_last(), key)
    }
}

/// Well-formed render-pass cache entries: pairwise structurally distinct
/// keys, and each entry's object id is its position.
pub open spec fn rp_entries_wf(entries: Seq<(RenderPassKey, u64)>) -> bool {
    &&& forall|i: int, j: int| 0 <= i < j < entries.len()
        ==> !rp_key_eq((#[trigger] entries[i]).0, (#[trigger] entries[j]).0)
    &&& forall|i: int| 0 <= i < entries.len() ==> (#[trigger] entries[i]).1 == i as u64
}

/// Well-formed framebuffer cache entries: pairwise distinct keys, and each
/// entry's object id is its position.
pub open spec fn fb_entries_wf(entries: Seq<(FramebufferKey, u64)>) -> bool {
    &&& forall|i: int, j: int| 0 <= i < j < entries.len()
        ==> !fb_key_eq((#[trigger] entries[i]).0, (#[trigger] entries[j]).0)
    &&& forall|i: int| 0 <= i < entries.len() ==> (#[trigger] entries[i]).1 == i as u64
}

/// Whether a render-pass key's contents equal the given attachment-shape
/// sequences.
pub open spec fn rp_key_matches_v(
    k: RenderPassKey,
    colors: Seq<AttachmentKey>,
    ds: Option<AttachmentKey>,
    resolves: Option<Seq<AttachmentKey>>,
) -> bool {
    &&& k.colors@ == colors
    &&& k.depth_stencil == ds
    &&& (k.resolves is Some <==> resolves is Some)
    &&& (k.resolves is Some && resolves is Some ==> k.resolves.unwrap()@ == resolves.unwrap())
}

/// The object id associated with the render-pass shape given as plain
/// sequences, if any.
pub open spec fn rp_lookup_v(
    entries: Seq<(RenderPassKey, u64)>,
    colors: Seq<AttachmentKey>,
    ds: Option<AttachmentKey>,
    resolves: Option<Seq<AttachmentKey>>,
) -> Option<u64>
    decreases entries.len(),
{
    if entries.len() == 0 {
        None
    } else if rp_key_matches_v(entries.last().0, colors, ds, resolves) {
        Some(entries.last().1)
    } else {
        rp_lookup_v(entries.drop_last(), colors, ds, resolves)
    }
}

/// Looking a key up is the same as looking its contents up.
pub proof fn lemma_rp_lookup_is_lookup_v(
    entries: Seq<(RenderPassKey, u64)>,
    key: RenderPassKey,
    colors: Seq<AttachmentKey>,
    ds: Option<AttachmentKey>,
    resolves: Option<Seq<AttachmentKey>>,
)
    requires
        rp_key_matches_v(key, colors, ds, resolves),
    ensures
        rp_lookup(entries, key) == rp_lookup_v(entries, colors, ds, resolves),
    decreases entries.len(),
{
    if entries.len() > 0 {
        lemma_rp_lookup_is_lookup_v(entries.drop_last(), key, colors, ds, resolves);
    }
}

/// Whether a framebuffer key's contents equal the given view-id sequences.
pub open spec fn fb_key_matches_v(
    k: FramebufferKey,
    colors: Seq<u64>,
    ds: Option<u64>,
    resolves: Option<Seq<u64>>,
) -> bool {
    &&& k.colors@ == colors
    &&& k.depth_stencil == ds
    &&& (k.resolves is Some <==> resolves is Some)
    &&& (k.resolves is Some && resolves is Some ==> k.resolves.unwrap()@ == resolves.unwrap())
}

/// The object id associated with the view-id set given as plain sequences,
/// if any.
pub open spec fn fb_lookup_v(
    entries: Seq<(FramebufferKey, u64)>,
    colors: Seq<u64>,
    ds: Option<u64>,
    resolves: Option<Seq<u64>>,
) -> Option<u64>
    decreases entries.len(),
{
    if entries.len() == 0 {
        None
    } else if fb_key_matches_v(entries.last().0, colors, ds, resolves) {
        Some(entries.last().1)
    } else {
        fb_lookup_v(entries.drop_last(), colors, ds, resolves)
    }
}

/// Looking a key up is the same as looking its contents up.
pub proof fn lemma_fb_lookup_is_lookup_v(
    entries: Seq<(FramebufferKey, u64)>,
    key: FramebufferKey,
    colors: Seq<u64>,
    ds: Option<u64>,
    resolves: Option<Seq<u64>>,
)
    requires
        fb_key_matches_v(key, colors, ds, resolves),
    ensures
        fb_lookup(entries, key) == fb_lookup_v(entries, colors, ds, resolves),
    decreases entries.len(),
{
    if entries.len() > 0 {
        lemma_fb_lookup_is_lookup_v(entries.drop_last(), key, colors, ds, resolves);
    }
}

/// Per-device cache of compiled render passes, keyed by attachment shape.
pub struct RenderPassCache {
    entries: Vec<(RenderPassKey, u64)>,
}

impl View for RenderPassCache {
    type V = Seq<(RenderPassKey, u64)>;

    closed spec fn view(&self) -> Seq<(RenderPassKey, u64)> {
        self.entries@
    }
}

impl RenderPassCache {
    pub open spec fn wf(self) -> bool {
        rp_entries_wf(self@)
    }

    /// An empty cache.
    pub fn new() -> (c: RenderPassCache)
        ensures
            c.wf(),
            c@ == Seq::<(RenderPassKey, u64)>::empty(),
    {
        RenderPassCache { entries: Vec::new() }
    }

    /// How many compiled render passes the cache holds.
    pub fn len(&self) -> (n: usize)
        ensures
            n == self@.len(),
    {
        self.entries.len()
    }

    /// Returns the object id for `key` and whether the object still has to
    /// be built: a structural hit returns the existing id unchanged, a miss
    /// assigns the next fresh id and records the key.
    pub fn get_or_create(&mut self, key: RenderPassKey) -> (r: (u64, bool))
        requires
            old(self).wf(),
        ensures
            final(self).wf(),
            rp_lookup(old(self)@, key) matches Some(id) ==> r == (id, false)
                && final(self)@ == old(self)@,
            rp_lookup(old(self)@, key) is None ==> r.0 == old(self)@.len() as u64
                && r.1 == true
                && final(self)@ == old(self)@.push((key, r.0)),
    {
        let mut i: usize = 0;
        while i < self.entries.len()
            invariant
                self.wf(),
                0 <= i <= self@.len(),
                forall|j: int| 0 <= j < i ==> !rp_key_eq((#[trigger] self@[j]).0, key),
            decreases self@.len() - i,
        {
            if rp_keys_match(&self.entries[i].0, &key) {
                proof {
                    assert forall|j: int| 0 <= j < self@.len() && j != i
                        implies !rp_key_eq((#[trigger] self@[j]).0, key) by {
                        if rp_key_eq(self@[j].0, key) {
                            assert(rp_key_eq(self@[i as int].0, self@[j].0));
                        }
                    }
                    lemma_rp_lookup_at(self@, key, i as int);
                }
                return (self.entries[i].1, false);
            }
            i = i + 1;
        }
        proof {
            lemma_rp_lookup_none(self@, key);
        }
        let id = self.entries.len() as u64;
        self.entries.push((key, id));
        (id, true)
    }
}

/// Under a matching key at position `i` and no other, lookup returns that
/// entry's id.
proof fn lemma_rp_lookup_at(entries: Seq<(RenderPassKey, u64)>, key: RenderPassKey, i: int)
    requires
        0 <= i < entries.len(),
        rp_key_eq(entries[i].0, key),
        forall|j: int| 0 <= j < entries.len() && j != i ==> !rp_key_eq((#[trigger] entries[j]).0, key),
    ensures
        rp_lookup(entries, key) == Some(entries[i].1),
    decreases entries.len(),
{
    if i < entries.len() - 1 {
        lemma_rp_lookup_at(entries.drop_last(), key, i);
    }
}

/// With no matching key, lookup fails.
proof fn lemma_rp_lookup_none(entries: Seq<(RenderPassKey, u64)>, key: RenderPassKey)
    requires
        forall|j: int| 0 <= j < entries.len() ==> !rp_key_eq((#[trigger] entries[j]).0, key),
    ensures
        rp_lookup(entries, key) is None,
    decreases entries.len(),
{
    if entries.len() > 0 {
        lemma_rp_lookup_none(entries.drop_last(), key);
    }
}

/// Structurally equal render-pass keys always resolve to the same compiled
/// object id, whatever concrete attachment views they came from.
pub proof fn lemma_rp_lookup_respects_key_eq(
    entries: Seq<(RenderPassKey, u64)>,
    k1: RenderPassKey,
    k2: RenderPassKey,
)
    requires
        rp_key_eq(k1, k2),
    ensures
        rp_lookup(entries, k1) == rp_lookup(entries, k2),
    decreases entries.len(),
{
    if entries.len() > 0 {
        lemma_rp_lookup_respects_key_eq(entries.drop_last(), k1, k2);
    }
}

/// Once a key is cached under an id, a lookup with any structurally equal
/// key returns that same id: the compiled object is shared.
pub proof fn lemma_rp_lookup_after_insert(
    entries: Seq<(RenderPassKey, u64)>,
    k1: RenderPassKey,
    k2: RenderPassKey,
    id: u64,
)
    requires
        rp_key_eq(k1, k2),
    ensures
        rp_lookup(entries.push((k1, id)), k2) == Some(id),
{
    let pushed = entries.push((k1, id));
    assert(pushed.last() == (k1, id));
}

/// Per-device cache of framebuffers, keyed by the concrete view ids bound
/// to a render-pass shape.
pub struct FramebufferCache {
    entries: Vec<(FramebufferKey, u64)>,
}

impl View for FramebufferCache {
    type V = Seq<(FramebufferKey, u64)>;

    closed spec fn view(&self) -> Seq<(FramebufferKey, u64)> {
        self.entries@
    }
}

impl FramebufferCache {
    pub open spec fn wf(self) -> bool {
        fb_entries_wf(self@)
    }

    /// An empty cache.
    pub fn new() -> (c: FramebufferCache)
        ensures
            c.wf(),
            c@ == Seq::<(FramebufferKey, u64)>::empty(),
    {
        FramebufferCache { entries: Vec::new() }
    }

    /// How many framebuffers the cache holds.
    pub fn len(&self) -> (n: usize)
        ensures
            n == self@.len(),
    {
        self.entries.len()
    }

    /// Returns the object id for `key` and whether the object still has to
    /// be built, as [`RenderPassCache::get_or_create`] does.
    pub fn get_or_create(&mut self, key: FramebufferKey) -> (r: (u64, bool))
        requires
            old(self).wf(),
        ensures
            final(self).wf(),
            fb_lookup(old(self)@, key) matches Some(id) ==> r == (id, false)
                && final(self)@ == old(self)@,
            fb_lookup(old(self)@, key) is None ==> r.0 == old(self)@.len() as u64
                && r.1 == true
                && final(self)@ == old(self)@.push((key, r.0)),
    {
        let mut i: usize = 0;
        while i < self.entries.len()
            invariant
                self.wf(),
                0 <= i <= self@.len(),
                forall|j: int| 0 <= j < i ==> !fb_key_eq((#[trigger] self@[j]).0, key),
            decreases self@.len() - i,
        {
            if fb_keys_match(&self.entries[i].0, &key) {
                proof {
                    assert forall|j: int| 0 <= j < self@.len() && j != i
                        implies !fb_key_eq((#[trigger] self@[j]).0, key) by {
                        if fb_key_eq(self@[j].0, key) {
                            assert(fb_key_eq(self@[i as int].0, self@[j].0));
                        }
                    }
                    lemma_fb_lookup_at(self@, key, i as int);
                }
                return (self.entries[i].1, false);
            }
            i = i + 1;
        }
        proof {
            lemma_fb_lookup_none(self@, key);
        }
        let id = self.entries.len() as u64;
        self.entries.push((key, id));
        (id, true)
    }
}

/// Under a matching key at position `i` and no other, lookup returns that
/// entry's id.
proof fn lemma_fb_lookup_at(entries: Seq<(FramebufferKey, u64)>, key: FramebufferKey, i: int)
    requires
        0 <= i < entries.len(),
        fb_key_eq(entries[i].0, key),
        forall|j: int| 0 <= j < entries.len() && j != i ==> !fb_key_eq((#[trigger] entries[j]).0, key),
    ensures
        fb_lookup(entries, key) == Some(entries[i].1),
    decreases entries.len(),
{
    if i < entries.len() - 1 {
        lemma_fb_lookup_at(entries.drop_last(), key, i);
    }
}

/// With no matching key, lookup fails.
proof fn lemma_fb_lookup_none(entries: Seq<(FramebufferKey, u64)>, key: FramebufferKey)
    requires
        forall|j: int| 0 <= j < entries.len() ==> !fb_key_eq((#[trigger] entries[j]).0, key),
    ensures
        fb_lookup(entries, key) is None,
    decreases entries.len(),
{
    if entries.len() > 0 {
        lemma_fb_lookup_none(entries.drop_last(), key);
    }
}

/// A successful framebuffer lookup names an entry whose key matches.
proof fn lemma_fb_lookup_some(entries: Seq<(FramebufferKey, u64)>, key: FramebufferKey)
    requires
        fb_lookup(entries, key) is Some,
        fb_entries_wf(entries),
        entries.len() <= u64::MAX,
    ensures
        ({
            let id = fb_lookup(entries, key).unwrap();
            &&& 0 <= id < entries.len()
            &&& entries[id as int].1 == id
            &&& fb_key_eq(entries[id as int].0, key)
        }),
    decreases entries.len(),
{
    if entries.len() > 0 && !fb_key_eq(entries.last().0, key) {
        assert(fb_entries_wf(entries.drop_last())) by {
            assert(forall|i: int| 0 <= i < entries.len() - 1
                ==> #[trigger] entries.drop_last()[i] == entries[i]);
        }
        lemma_fb_lookup_some(entries.drop_last(), key);
    }
}

/// Framebuffers are shared only between identical concrete view sets:
/// two keys that differ in any bound view id resolve to distinct
/// framebuffer objects.
pub proof fn lemma_fb_distinct_keys_distinct_objects(
    entries: Seq<(FramebufferKey, u64)>,
    k1: FramebufferKey,
    k2: FramebufferKey,
)
    requires
        fb_entries_wf(entries),
        entries.len() <= u64::MAX,
        !fb_key_eq(k1, k2),
        fb_lookup(entries, k1) is Some,
        fb_lookup(entries, k2) is Some,
    ensures
        fb_lookup(entries, k1) != fb_lookup(entries, k2),
{
    lemma_fb_lookup_some(entries, k1);
    lemma_fb_lookup_some(entries, k2);
    let i1 = fb_lookup(entries, k1).unwrap();
    let i2 = fb_lookup(entries, k2).unwrap();
    if i1 == i2 {
        assert(fb_key_eq(entries[i1 as int].0, k1) && fb_key_eq(entries[i1 as int].0, k2));
    }
}

} // verus!
