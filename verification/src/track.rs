//! Per-command-buffer resource usage tracking and barrier synthesis.
//!
//! A [`Tracker`] records, for each resource id, the hardware-visible state the
//! resource is in at the current point of the encoding.  Reconciling a base
//! tracker (the command buffer's running state) with a head tracker (the state
//! a new pass requires) yields the finite sequence of state transitions that
//! must be issued as barriers before the pass begins.

use vstd::prelude::*;
use std::collections::HashMap;

verus! {

/// The hardware-visible state a tracked resource is in.
#[derive(Copy, Clone, Debug, PartialEq, Eq, Structural)]
pub enum ResourceUsage {
    /// Nothing recorded yet: contents and layout are unknown.
    Undefined,
    /// Bound as a color render target.
    ColorAttachment,
    /// Bound as a depth-stencil render target.
    DepthStencilAttachment,
    /// Read by shaders.
    ShaderRead,
    /// Source of a transfer operation.
    TransferSrc,
    /// Destination of a transfer operation.
    TransferDst,
    /// Handed to the presentation engine.
    Present,
}

/// A state change a resource must undergo before its next use.
#[derive(Copy, Clone, Debug, PartialEq, Eq, Structural)]
pub struct StateTransition {
    pub start: ResourceUsage,
    pub end: ResourceUsage,
}

/// How a merge reconciles a resource whose recorded starting state differs
/// from the state the head tracker requires.
#[derive(Copy, Clone, Debug, PartialEq, Eq, Structural)]
pub enum Stitch {
    /// Assume a resource first seen here starts undefined, so no barrier is
    /// required before its first use.
    Init,
    /// Validate the explicit starting state and emit a transition even out of
    /// the undefined state.
    Last,
}

/// The state a map records for `id`, defaulting to undefined when the
/// resource has not been touched.
pub open spec fn recorded_state(m: Map<u64, ResourceUsage>, id: u64) -> ResourceUsage {
    if m.contains_key(id) {
        m[id]
    } else {
        ResourceUsage::Undefined
    }
}

/// Whether reconciling a resource whose recorded state is `before` with a
/// required state `after` emits a barrier: equal states never do (barrier
/// minimality), and under [`Stitch::Init`] neither does a start out of the
/// undefined state.
pub open spec fn barrier_emitted(before: ResourceUsage, after: ResourceUsage, stitch: Stitch) -> bool {
    before != after && !(stitch == Stitch::Init && before == ResourceUsage::Undefined)
}

/// The transitions a replace-merge emits: one entry per id of `ids` (the head
/// tracker's registration order) whose recorded base state must change to the
/// head state.  Head ids are unique, so each resource's starting state is its
/// state in the base before the whole merge.
pub open spec fn merge_transitions(
    base: Map<u64, ResourceUsage>,
    ids: Seq<u64>,
    head: Map<u64, ResourceUsage>,
    stitch: Stitch,
) -> Seq<(u64, StateTransition)>
    decreases ids.len(),
{
    if ids.len() == 0 {
        Seq::empty()
    } else {
        let prefix = merge_transitions(base, ids.drop_last(), head, stitch);
        let id = ids.last();
        let before = recorded_state(base, id);
        let after = recorded_state(head, id);
        if barrier_emitted(before, after, stitch) {
            prefix.push((id, StateTransition { start: before, end: after }))
        } else {
            prefix
        }
    }
}

/// A sequence of ids with no repetitions.
pub open spec fn distinct_seq(ids: Seq<u64>) -> bool {
    forall|i: int, j: int| 0 <= i < j < ids.len() ==> ids[i] != ids[j]
}

/// Per-command-buffer record of each resource's current usage state, with a
/// deterministic registration order so that merges yield their transitions in
/// a reproducible sequence.
pub struct Tracker {
    order: Vec<u64>,
    states: HashMap<u64, ResourceUsage>,
}

impl View for Tracker {
    type V = Map<u64, ResourceUsage>;

    closed spec fn view(&self) -> Map<u64, ResourceUsage> {
        self.states@
    }
}

impl Tracker {
    /// The tracked ids, first registration first.
    pub closed spec fn ids_in_order(self) -> Seq<u64> {
        self.order@
    }

    /// The registration order lists each tracked id exactly once.
    pub closed spec fn wf(self) -> bool {
        &&& distinct_seq(self.order@)
        &&& forall|i: int| 0 <= i < self.order@.len() ==> self.states@.contains_key(#[trigger] self.order@[i])
        &&& forall|id: u64| self.states@.contains_key(id) ==> self.order@.contains(id)
    }

    /// A well-formed tracker's registration order has no repetitions and
    /// lists exactly the tracked ids.
    pub proof fn lemma_wf_order(self)
        requires
            self.wf(),
        ensures
            distinct_seq(self.ids_in_order()),
            forall|id: u64| self@.contains_key(id) <==> self.ids_in_order().contains(id),
    {
        assert forall|id: u64| self.ids_in_order().contains(id) implies self@.contains_key(id) by {
            let i = choose|i: int| 0 <= i < self.order@.len() && self.order@[i] == id;
            assert(self.states@.contains_key(self.order@[i]));
        }
    }

    /// An empty tracker: every resource is in the undefined state.
    pub fn new() -> (t: Tracker)
        ensures
            t.wf(),
            t@ == Map::<u64, ResourceUsage>::empty(),
            t.ids_in_order() == Seq::<u64>::empty(),
    {
        Tracker { order: Vec::new(), states: HashMap::new() }
    }

    /// The state currently recorded for `id`, undefined when untouched.
    pub fn current_state(&self, id: u64) -> (u: ResourceUsage)
        ensures
            u == recorded_state(self@, id),
    {
        match self.states.get(&id) {
            Some(u) => *u,
            None => ResourceUsage::Undefined,
        }
    }

    /// Registers (or looks up) a resource's participation and returns its last
    /// recorded usage, defaulting to undefined on first touch; a first touch
    /// records the given usage.
    pub fn query(&mut self, id: u64, usage: ResourceUsage) -> (prior: ResourceUsage)
        requires
            old(self).wf(),
        ensures
            final(self).wf(),
            prior == recorded_state(old(self)@, id),
            old(self)@.contains_key(id) ==> final(self)@ == old(self)@
                && final(self).ids_in_order() == old(self).ids_in_order(),
            !old(self)@.contains_key(id) ==> final(self)@ == old(self)@.insert(id, usage)
                && final(self).ids_in_order() == old(self).ids_in_order().push(id),
    {
        match self.states.get(&id) {
            Some(u) => *u,
            None => {
                self.require(id, usage);
                ResourceUsage::Undefined
            }
        }
    }

    /// Overwrites the state required of `id`, registering it when new.
    pub fn require(&mut self, id: u64, usage: ResourceUsage)
        requires
            old(self).wf(),
        ensures
            final(self).wf(),
            final(self)@ == old(self)@.insert(id, usage),
            old(self)@.contains_key(id) ==> final(self).ids_in_order() == old(self).ids_in_order(),
            !old(self)@.contains_key(id) ==> final(self).ids_in_order() == old(self).ids_in_order().push(id),
    {
        let present = self.states.contains_key(&id);
        self.states.insert(id, usage);
        if !present {
            self.order.push(id);
            proof {
                let pre = old(self).order@;
                assert(!pre.contains(id)) by {
                    if pre.contains(id) {
                        let i = choose|i: int| 0 <= i < pre.len() && pre[i] == id;
                        assert(old(self).states@.contains_key(pre[i]));
                    }
                }
                assert(distinct_seq(self.order@)) by {
                    assert(forall|i: int| 0 <= i < pre.len() ==> #[trigger] self.order@[i] == pre[i]);
                    assert(self.order@[pre.len() as int] == id);
                }
                assert forall|i: int| 0 <= i < self.order@.len()
                    implies self.states@.contains_key(#[trigger] self.order@[i]) by {
                    if i < pre.len() {
                        assert(old(self).states@.contains_key(pre[i]));
                    }
                }
                assert forall|x: u64| self.states@.contains_key(x)
                    implies self.order@.contains(x) by {
                    if x == id {
                        assert(self.order@[pre.len() as int] == id);
                    } else {
                        assert(old(self).states@.contains_key(x));
                        assert(pre.contains(x));
                        let i = choose|i: int| 0 <= i < pre.len() && pre[i] == x;
                        assert(pre[i] == x);
                        assert(self.order@[i] == x);
                    }
                }
            }
        } else {
            proof {
                assert forall|x: u64| self.states@.contains_key(x)
                    implies self.order@.contains(x) by {
                    assert(old(self).states@.contains_key(x));
                }
            }
        }
    }

    /// Reconciles this tracker with the state `head` requires, overwriting
    /// each head resource's state by the head value, and returns the state
    /// transitions to issue as barriers, one per head resource whose start
    /// and end state differ, in the head's registration order.
    pub fn consume_by_replace(&mut self, head: &Tracker, stitch: Stitch) -> (out: Vec<(u64, StateTransition)>)
        requires
            old(self).wf(),
            head.wf(),
        ensures
            final(self).wf(),
            final(self)@ == old(self)@.union_prefer_right(head@),
            out@ == merge_transitions(old(self)@, head.ids_in_order(), head@, stitch),
    {
        let ghost base0 = self.states@;
        let mut out: Vec<(u64, StateTransition)> = Vec::new();
        let mut i: usize = 0;
        while i < head.order.len()
            invariant
                head.wf(),
                self.wf(),
                0 <= i <= head.order@.len(),
                forall|id: u64| #[trigger] head.order@.take(i as int).contains(id)
                    ==> self@.contains_key(id) && self@[id] == head@[id],
                forall|id: u64| !(#[trigger] head.order@.take(i as int).contains(id))
                    ==> self@.contains_key(id) == base0.contains_key(id)
                        && recorded_state(self@, id) == recorded_state(base0, id),
                out@ == merge_transitions(base0, head.order@.take(i as int), head@, stitch),
            decreases head.order@.len() - i,
        {
            let ghost pre = head.order@.take(i as int);
            let id = head.order[i];
            proof {
                assert(head.states@.contains_key(id));
                assert(!pre.contains(id)) by {
                    if pre.contains(id) {
                        let j = choose|j: int| 0 <= j < pre.len() && pre[j] == id;
                        assert(head.order@[j] == head.order@[i as int]);
                    }
                }
            }
            let after = match head.states.get(&id) {
                Some(u) => *u,
                None => {
                    proof {
                        assert(false);
                    }
                    ResourceUsage::Undefined
                }
            };
            let before = self.current_state(id);
            self.require(id, after);
            if before != after && !(stitch == Stitch::Init && before == ResourceUsage::Undefined) {
                out.push((id, StateTransition { start: before, end: after }));
            }
            proof {
                let post = head.order@.take(i + 1 as int);
                assert(post.drop_last() =~= pre);
                assert(post.last() == id);
                assert(before == recorded_state(base0, id));
                assert(out@ == merge_transitions(base0, post, head@, stitch));
                assert forall|x: u64| !post.contains(x)
                    implies self@.contains_key(x) == base0.contains_key(x)
                        && recorded_state(self@, x) == recorded_state(base0, x) by {
                    assert(!pre.contains(x) && x != id) by {
                        if pre.contains(x) {
                            let j = choose|j: int| 0 <= j < pre.len() && pre[j] == x;
                            assert(post[j] == x);
                        }
                        assert(post[i as int] == id);
                    }
                }
                assert forall|x: u64| post.contains(x)
                    implies self@.contains_key(x) && self@[x] == head@[x] by {
                    let j = choose|j: int| 0 <= j < post.len() && post[j] == x;
                    if j < i as int {
                        assert(pre[j] == x);
                        assert(pre.contains(x));
                    }
                }
            }
            i = i + 1;
        }
        proof {
            head.lemma_wf_order();
            let all = head.order@.take(i as int);
            assert(all =~= head.order@);
            let target = base0.union_prefer_right(head@);
            assert forall|x: u64| #[trigger] target.contains_key(x)
                implies self@.contains_key(x) && self@[x] == target[x] by {
                if head@.contains_key(x) {
                    assert(head.order@.contains(x));
                    assert(all.contains(x));
                    assert(self@.contains_key(x) && self@[x] == head@[x]);
                } else {
                    assert(!all.contains(x)) by {
                        if all.contains(x) {
                            assert(head.order@.contains(x));
                        }
                    }
                    assert(base0.contains_key(x));
                    assert(self@.contains_key(x));
                    assert(recorded_state(self@, x) == recorded_state(base0, x));
                    assert(self@[x] == base0[x]);
                }
            }
            assert forall|x: u64| #[trigger] self@.contains_key(x)
                implies target.contains_key(x) by {
                if !head@.contains_key(x) {
                    assert(!all.contains(x)) by {
                        if all.contains(x) {
                            assert(head.order@.contains(x));
                        }
                    }
                    assert(base0.contains_key(x));
                }
            }
            assert(self@ =~= target);
        }
        out
    }

    /// Marks every resource of `head` as referenced by this tracker without
    /// emitting any transition; a resource already tracked keeps its recorded
    /// state, a new one takes the head's.
    pub fn consume_by_extend(&mut self, head: &Tracker)
        requires
            old(self).wf(),
            head.wf(),
        ensures
            final(self).wf(),
            final(self)@ == head@.union_prefer_right(old(self)@),
    {
        let mut i: usize = 0;
        while i < head.order.len()
            invariant
                head.wf(),
                self.wf(),
                0 <= i <= head.order@.len(),
                forall|id: u64| #[trigger] head.order@.take(i as int).contains(id)
                    ==> self@.contains_key(id),
                forall|id: u64| #[trigger] old(self)@.contains_key(id)
                    ==> self@.contains_key(id) && self@[id] == old(self)@[id],
                forall|id: u64| #[trigger] self@.contains_key(id)
                    ==> old(self)@.contains_key(id)
                        || (head@.contains_key(id) && self@[id] == head@[id]),
            decreases head.order@.len() - i,
        {
            let id = head.order[i];
            proof {
                assert(head.states@.contains_key(id));
            }
            if !self.states.contains_key(&id) {
                let usage = match head.states.get(&id) {
                    Some(u) => *u,
                    None => {
                        proof {
                            assert(false);
                        }
                        ResourceUsage::Undefined
                    }
                };
                proof {
                    assert(!old(self)@.contains_key(id));
                }
                self.require(id, usage);
            }
            proof {
                let post = head.order@.take(i + 1 as int);
                assert(post.drop_last() =~= head.order@.take(i as int));
                assert forall|x: u64| post.contains(x) implies self@.contains_key(x) by {
                    let j = choose|j: int| 0 <= j < post.len() && post[j] == x;
                    if j < i as int {
                        assert(head.order@.take(i as int)[j] == x);
                        assert(head.order@.take(i as int).contains(x));
                    }
                }
            }
            i = i + 1;
        }
        proof {
            head.lemma_wf_order();
            let all = head.order@.take(i as int);
            assert(all =~= head.order@);
            let target = head@.union_prefer_right(old(self)@);
            assert forall|x: u64| #[trigger] target.contains_key(x)
                implies self@.contains_key(x) && self@[x] == target[x] by {
                if old(self)@.contains_key(x) {
                    assert(self@.contains_key(x) && self@[x] == old(self)@[x]);
                } else {
                    assert(head@.contains_key(x));
                    assert(head.order@.contains(x));
                    assert(all.contains(x));
                    assert(self@.contains_key(x));
                    assert(self@[x] == head@[x]);
                }
            }
            assert forall|x: u64| #[trigger] self@.contains_key(x)
                implies target.contains_key(x) by {}
            assert(self@ =~= target);
        }
    }
}

/// A resource whose recorded state already equals the required state gets no
/// barrier from a merge, whatever the stitch mode: redundant barriers are
/// never emitted.
pub proof fn lemma_same_state_no_transition(
    base: Map<u64, ResourceUsage>,
    ids: Seq<u64>,
    head: Map<u64, ResourceUsage>,
    stitch: Stitch,
    id: u64,
)
    requires
        recorded_state(base, id) == recorded_state(head, id),
    ensures
        forall|k: int| 0 <= k < merge_transitions(base, ids, head, stitch).len()
            ==> (#[trigger] merge_transitions(base, ids, head, stitch)[k]).0 != id,
    decreases ids.len(),
{
    if ids.len() > 0 {
        lemma_same_state_no_transition(base, ids.drop_last(), head, stitch, id);
        let out = merge_transitions(base, ids, head, stitch);
        let prefix = merge_transitions(base, ids.drop_last(), head, stitch);
        assert forall|k: int| 0 <= k < out.len() implies (#[trigger] out[k]).0 != id by {
            if k < prefix.len() {
                assert(out[k] == prefix[k]);
            }
        }
    }
}

/// A merge emits no transition for a resource outside the head's ids.
pub proof fn lemma_untouched_no_transition(
    base: Map<u64, ResourceUsage>,
    ids: Seq<u64>,
    head: Map<u64, ResourceUsage>,
    stitch: Stitch,
    id: u64,
)
    requires
        !ids.contains(id),
    ensures
        forall|k: int| 0 <= k < merge_transitions(base, ids, head, stitch).len()
            ==> (#[trigger] merge_transitions(base, ids, head, stitch)[k]).0 != id,
    decreases ids.len(),
{
    if ids.len() > 0 {
        assert(!ids.drop_last().contains(id)) by {
            if ids.drop_last().contains(id) {
                let j = choose|j: int| 0 <= j < ids.len() - 1 && ids.drop_last()[j] == id;
                assert(ids[j] == id);
            }
        }
        lemma_untouched_no_transition(base, ids.drop_last(), head, stitch, id);
        let out = merge_transitions(base, ids, head, stitch);
        let prefix = merge_transitions(base, ids.drop_last(), head, stitch);
        assert(ids.last() != id) by {
            assert(ids[ids.len() - 1] == ids.last());
        }
        assert forall|k: int| 0 <= k < out.len() implies (#[trigger] out[k]).0 != id by {
            if k < prefix.len() {
                assert(out[k] == prefix[k]);
            }
        }
    }
}

/// `k` is the position of the one transition of `out` that concerns `id`,
/// and that transition is `t`.
pub open spec fn only_transition_at(
    out: Seq<(u64, StateTransition)>,
    id: u64,
    t: StateTransition,
    k: int,
) -> bool {
    &&& 0 <= k < out.len()
    &&& out[k] == (id, t)
    &&& forall|j: int| 0 <= j < out.len() && (#[trigger] out[j]).0 == id ==> j == k
}

/// A resource whose state must change from S to a different T gets exactly
/// one transition from a merge, and that transition carries (S, T).  Under
/// [`Stitch::Init`] this holds for resources whose recorded starting state is
/// defined; a first use out of the undefined state emits nothing then.
pub proof fn lemma_changed_state_one_transition(
    base: Map<u64, ResourceUsage>,
    ids: Seq<u64>,
    head: Map<u64, ResourceUsage>,
    stitch: Stitch,
    id: u64,
)
    requires
        distinct_seq(ids),
        ids.contains(id),
        recorded_state(base, id) != recorded_state(head, id),
        stitch == Stitch::Last || recorded_state(base, id) != ResourceUsage::Undefined,
    ensures
        exists|k: int| only_transition_at(
            merge_transitions(base, ids, head, stitch),
            id,
            StateTransition { start: recorded_state(base, id), end: recorded_state(head, id) },
            k,
        ),
    decreases ids.len(),
{
    let out = merge_transitions(base, ids, head, stitch);
    let transition = StateTransition {
        start: recorded_state(base, id),
        end: recorded_state(head, id),
    };
    if ids.last() == id {
        assert(!ids.drop_last().contains(id)) by {
            if ids.drop_last().contains(id) {
                let j = choose|j: int| 0 <= j < ids.len() - 1 && ids.drop_last()[j] == id;
                assert(ids[j] == ids[ids.len() - 1]);
            }
        }
        lemma_untouched_no_transition(base, ids.drop_last(), head, stitch, id);
        let prefix = merge_transitions(base, ids.drop_last(), head, stitch);
        assert(barrier_emitted(recorded_state(base, id), recorded_state(head, id), stitch));
        assert(out == prefix.push((id, transition)));
        let k = out.len() - 1;
        assert(out[k] == (id, transition));
        assert forall|j: int| 0 <= j < out.len() && (#[trigger] out[j]).0 == id implies j == k by {
            if j < prefix.len() {
                assert(out[j] == prefix[j]);
                assert(prefix[j].0 != id);
            }
        }
        assert(only_transition_at(out, id, transition, k));
    } else {
        assert(ids.len() > 0);
        assert(ids.drop_last().contains(id)) by {
            let j = choose|j: int| 0 <= j < ids.len() && ids[j] == id;
            assert(ids.drop_last()[j] == id);
        }
        assert(distinct_seq(ids.drop_last())) by {
            assert(forall|j: int| 0 <= j < ids.drop_last().len() ==> ids.drop_last()[j] == ids[j]);
        }
        lemma_changed_state_one_transition(base, ids.drop_last(), head, stitch, id);
        let prefix = merge_transitions(base, ids.drop_last(), head, stitch);
        let k = choose|k: int| only_transition_at(prefix, id, transition, k);
        assert(only_transition_at(prefix, id, transition, k));
        let last = ids.last();
        let before_last = recorded_state(base, last);
        let after_last = recorded_state(head, last);
        let entry = (last, StateTransition { start: before_last, end: after_last });
        if barrier_emitted(before_last, after_last, stitch) {
            assert(out == prefix.push(entry));
            assert(out[k] == (id, transition));
            assert forall|j: int| 0 <= j < out.len() && (#[trigger] out[j]).0 == id implies j == k by {
                if j < prefix.len() {
                    assert(out[j] == prefix[j]);
                } else {
                    assert(out[j] == entry);
                }
            }
            assert(only_transition_at(out, id, transition, k));
        } else {
            assert(out == prefix);
            assert(only_transition_at(out, id, transition, k));
        }
    }
}

/// The three parallel trackers of one command buffer: buffers, textures, and
/// attachment views (views carry no memory-layout state of their own and are
/// only marked as referenced).
pub struct TrackerSet {
    pub buffers: Tracker,
    pub textures: Tracker,
    pub views: Tracker,
}

impl TrackerSet {
    pub open spec fn wf(self) -> bool {
        self.buffers.wf() && self.textures.wf() && self.views.wf()
    }

    /// A fresh set with every resource in the undefined state.
    pub fn new() -> (t: TrackerSet)
        ensures
            t.wf(),
            t.buffers@ == Map::<u64, ResourceUsage>::empty(),
            t.textures@ == Map::<u64, ResourceUsage>::empty(),
            t.views@ == Map::<u64, ResourceUsage>::empty(),
            t.buffers.ids_in_order() == Seq::<u64>::empty(),
            t.textures.ids_in_order() == Seq::<u64>::empty(),
            t.views.ids_in_order() == Seq::<u64>::empty(),
    {
        TrackerSet { buffers: Tracker::new(), textures: Tracker::new(), views: Tracker::new() }
    }
}

} // verus!
