//! Allocation of small integer plugin handles, with FIFO reuse of released ones.
use std::collections::VecDeque;
use vstd::prelude::*;
use vstd::string::StringExecFns;

verus! {

/// A handle that identifies one live plugin instance.
pub type PluginIndex = i32;

/// Number of released handles that must accumulate before they are handed out again.
pub const START_REUSING_IDS: usize = 25;

/// Failure of a context operation.
#[derive(Debug, Clone, Copy, PartialEq, Eq, Structural)]
pub enum ContextError {
    /// The counter has reached its largest value and no released handle is left.
    AllocationExhausted,
}

impl ContextError {
    /// A human-readable description of the failure.
    pub fn message(&self) -> (r: String)
        ensures
            *self == ContextError::AllocationExhausted ==> r@ == "All plugin descriptors are in use, unable to allocate a new plugin"@,
    {
        match self {
            ContextError::AllocationExhausted => String::from_str(
                "All plugin descriptors are in use, unable to allocate a new plugin",
            ),
        }
    }
}

/// Abstract state of an allocator: the counter, the queue of released handles
/// (oldest first) and the queue length from which released handles are reused.
pub struct AllocatorState {
    pub counter: int,
    pub reclaimed: Seq<PluginIndex>,
    pub reuse_threshold: nat,
}

impl AllocatorState {
    /// The counter has reached the largest handle value: no fresh handle is left.
    pub open spec fn exhausted(self) -> bool {
        self.counter == PluginIndex::MAX
    }

    /// Allocation takes the oldest released handle, when there is one.
    pub open spec fn reuses(self) -> bool {
        self.reclaimed.len() >= self.reuse_threshold || self.exhausted()
    }

    /// What an allocation returns in this state.
    pub open spec fn allocate_result(self) -> Result<PluginIndex, ContextError> {
        if self.reuses() && self.reclaimed.len() > 0 {
            Ok(self.reclaimed[0])
        } else if self.exhausted() {
            Err(ContextError::AllocationExhausted)
        } else {
            Ok(self.counter as PluginIndex)
        }
    }

    /// The state after an allocation.
    pub open spec fn allocate_state(self) -> AllocatorState {
        if self.reuses() && self.reclaimed.len() > 0 {
            AllocatorState {
                counter: self.counter,
                reclaimed: self.reclaimed.drop_first(),
                reuse_threshold: self.reuse_threshold,
            }
        } else if self.exhausted() {
            self
        } else {
            AllocatorState {
                counter: self.counter + 1,
                reclaimed: self.reclaimed,
                reuse_threshold: self.reuse_threshold,
            }
        }
    }

    /// The state after `id` is released: it joins the back of the queue.
    pub open spec fn release_state(self, id: PluginIndex) -> AllocatorState {
        AllocatorState {
            counter: self.counter,
            reclaimed: self.reclaimed.push(id),
            reuse_threshold: self.reuse_threshold,
        }
    }

    /// Handles that have been handed out and not released since.
    pub open spec fn live(self) -> Set<PluginIndex> {
        Set::new(|id: PluginIndex| 0 <= id < self.counter && !self.reclaimed.contains(id))
    }

    /// The counter is in range, and the queue holds distinct handles below it.
    pub open spec fn is_sound(self) -> bool {
        &&& 0 <= self.counter <= PluginIndex::MAX
        &&& self.reclaimed.no_duplicates()
        &&& forall|i: int| 0 <= i < self.reclaimed.len() ==> 0 <= #[trigger] self.reclaimed[i] < self.counter
    }
}

/// `a` occurs in `q` before any occurrence of `b`.
pub open spec fn ahead(q: Seq<PluginIndex>, a: PluginIndex, b: PluginIndex) -> bool {
    exists|i: int| 0 <= i < q.len() && q[i] == a && forall|j: int| 0 <= j <= i ==> q[j] != b
}

/// Uniqueness: in a sound state an allocation never hands out a live handle.
/// The handle it returns joins the live set, and the state stays sound.
pub proof fn lemma_allocate_fresh(s: AllocatorState)
    requires
        s.is_sound(),
    ensures
        s.allocate_state().is_sound(),
        s.allocate_result() is Ok ==> {
            let id = s.allocate_result()->Ok_0;
            &&& !s.live().contains(id)
            &&& s.allocate_state().live() == s.live().insert(id)
        },
        s.allocate_result() is Err ==> s.allocate_state().live() == s.live(),
{
    let t = s.allocate_state();
    if s.reuses() && s.reclaimed.len() > 0 {
        let id = s.reclaimed[0];
        assert(s.reclaimed.contains(id));
        assert forall|i: int| 0 <= i < t.reclaimed.len() implies 0 <= #[trigger] t.reclaimed[i] < t.counter by {
            assert(t.reclaimed[i] == s.reclaimed[i + 1]);
        }
        assert forall|x: PluginIndex| #[trigger] t.reclaimed.contains(x) <==> s.reclaimed.contains(x) && x != id by {
            if t.reclaimed.contains(x) {
                let k = choose|k: int| 0 <= k < t.reclaimed.len() && t.reclaimed[k] == x;
                assert(s.reclaimed[k + 1] == x);
            }
            if s.reclaimed.contains(x) && x != id {
                let k = choose|k: int| 0 <= k < s.reclaimed.len() && s.reclaimed[k] == x;
                assert(k != 0);
                assert(t.reclaimed[k - 1] == x);
            }
        }
        assert(t.live() =~= s.live().insert(id));
    } else if s.exhausted() {
    } else {
        let id = s.counter as PluginIndex;
        assert(!s.reclaimed.contains(id));
        assert(t.live() =~= s.live().insert(id));
    }
}

/// Releasing a live handle in a sound state keeps the state sound and takes
/// exactly that handle out of the live set.
pub proof fn lemma_release_live(s: AllocatorState, id: PluginIndex)
    requires
        s.is_sound(),
        s.live().contains(id),
    ensures
        s.release_state(id).is_sound(),
        s.release_state(id).live() == s.live().remove(id),
{
    let t = s.release_state(id);
    assert forall|x: PluginIndex| #[trigger] t.reclaimed.contains(x) <==> s.reclaimed.contains(x) || x == id by {
        if t.reclaimed.contains(x) {
            let k = choose|k: int| 0 <= k < t.reclaimed.len() && t.reclaimed[k] == x;
            if k < s.reclaimed.len() {
                assert(s.reclaimed[k] == x);
            }
        }
        if s.reclaimed.contains(x) {
            let k = choose|k: int| 0 <= k < s.reclaimed.len() && s.reclaimed[k] == x;
            assert(t.reclaimed[k] == x);
        }
        assert(t.reclaimed[s.reclaimed.len() as int] == id);
    }
    assert forall|i: int, j: int| 0 <= i < t.reclaimed.len() && 0 <= j < t.reclaimed.len() && i != j
        implies t.reclaimed[i] != t.reclaimed[j] by {
        if i == s.reclaimed.len() {
            assert(s.reclaimed.contains(t.reclaimed[j]));
        } else if j == s.reclaimed.len() {
            assert(s.reclaimed.contains(t.reclaimed[i]));
        }
    }
    assert forall|i: int| 0 <= i < t.reclaimed.len() implies 0 <= #[trigger] t.reclaimed[i] < t.counter by {
        if i < s.reclaimed.len() {
            assert(t.reclaimed[i] == s.reclaimed[i]);
        }
    }
    assert(t.live() =~= s.live().remove(id));
}

/// The counter never decreases: neither an allocation nor a release lowers it.
pub proof fn lemma_counter_monotonic(s: AllocatorState, id: PluginIndex)
    ensures
        s.allocate_state().counter >= s.counter,
        s.release_state(id).counter == s.counter,
{
}

/// Reuse is first in, first out, part one: once `a` is released while `b` is
/// still live, `a` stands in the queue before any occurrence of `b`.
pub proof fn lemma_release_puts_ahead(s: AllocatorState, a: PluginIndex, b: PluginIndex)
    requires
        s.is_sound(),
        s.live().contains(b),
        a != b,
    ensures
        ahead(s.release_state(a).reclaimed, a, b),
{
    let q = s.release_state(a).reclaimed;
    let i = s.reclaimed.len() as int;
    assert(q[i] == a);
    assert forall|j: int| 0 <= j <= i implies q[j] != b by {
        if j < i {
            assert(q[j] == s.reclaimed[j]);
            assert(s.reclaimed.contains(q[j]));
        }
    }
}

/// Reuse is first in, first out, part two: while `a` stands before `b` in the
/// queue of a sound state, and `b` has been handed out before (it is below the
/// counter), an allocation does not return `b`, and it either
/// returns `a` or leaves `a` ahead of `b`; a release of any handle leaves `a`
/// ahead of `b`. So `a` is handed out again before `b`.
pub proof fn lemma_ahead_kept(s: AllocatorState, a: PluginIndex, b: PluginIndex, x: PluginIndex)
    requires
        s.is_sound(),
        ahead(s.reclaimed, a, b),
        a != b,
        b < s.counter,
    ensures
        s.allocate_result() != Ok::<PluginIndex, ContextError>(b),
        s.allocate_result() == Ok::<PluginIndex, ContextError>(a) || ahead(s.allocate_state().reclaimed, a, b),
        ahead(s.release_state(x).reclaimed, a, b),
{
    let i = choose|i: int| 0 <= i < s.reclaimed.len() && s.reclaimed[i] == a
        && forall|j: int| 0 <= j <= i ==> s.reclaimed[j] != b;
    let r = s.release_state(x).reclaimed;
    assert(r[i] == a);
    assert forall|j: int| 0 <= j <= i implies r[j] != b by {
        assert(r[j] == s.reclaimed[j]);
    }
    assert(s.reclaimed[0] != b);
    if s.reuses() && s.reclaimed.len() > 0 {
        if s.reclaimed[0] != a {
            let t = s.allocate_state().reclaimed;
            assert(i > 0);
            assert(t[i - 1] == a);
            assert forall|j: int| 0 <= j <= i - 1 implies t[j] != b by {
                assert(t[j] == s.reclaimed[j + 1]);
            }
        }
    } else if !s.exhausted() {
        assert(s.reclaimed[i] < s.counter);
        assert(ahead(s.allocate_state().reclaimed, a, b)) by {
            assert(s.allocate_state().reclaimed == s.reclaimed);
        }
    }
}

/// Exhaustion is stable: with the counter at its largest value and no released
/// handle, an allocation fails and leaves the state as it was, so every later
/// allocation fails too until a handle is released.
pub proof fn lemma_exhaustion_stable(s: AllocatorState)
    requires
        s.counter == PluginIndex::MAX,
        s.reclaimed.len() == 0,
    ensures
        s.allocate_result() == Err::<PluginIndex, ContextError>(ContextError::AllocationExhausted),
        s.allocate_state() == s,
{
}

/// Handle allocator: a counter of fresh handles and a FIFO queue of released ones.
pub struct IdAllocator {
    // every update goes through `&mut self`, so a plain integer serialises the
    // increments that a shared counter would need an atomic for
    next_id: PluginIndex,
    reclaimed_ids: VecDeque<PluginIndex>,
    reuse_threshold: usize,
}

impl View for IdAllocator {
    type V = AllocatorState;

    closed spec fn view(&self) -> AllocatorState {
        AllocatorState {
            counter: self.next_id as int,
            reclaimed: self.reclaimed_ids@,
            reuse_threshold: self.reuse_threshold as nat,
        }
    }
}

impl IdAllocator {
    /// An allocator whose first fresh handle is 0 and which reuses released
    /// handles once `START_REUSING_IDS` of them have accumulated.
    pub fn new() -> (r: IdAllocator)
        ensures
            r@ == (AllocatorState { counter: 0, reclaimed: Seq::empty(), reuse_threshold: START_REUSING_IDS as nat }),
            r@.is_sound(),
    {
        IdAllocator { next_id: 0, reclaimed_ids: VecDeque::new(), reuse_threshold: START_REUSING_IDS }
    }

    /// An allocator whose next fresh handle is `first_id`, reusing released
    /// handles once `reuse_threshold` of them have accumulated.
    pub fn starting_at(first_id: PluginIndex, reuse_threshold: usize) -> (r: IdAllocator)
        requires
            0 <= first_id,
        ensures
            r@ == (AllocatorState { counter: first_id as int, reclaimed: Seq::empty(), reuse_threshold: reuse_threshold as nat }),
            r@.is_sound(),
    {
        IdAllocator { next_id: first_id, reclaimed_ids: VecDeque::new(), reuse_threshold }
    }

    /// Hands out a handle: the oldest released one once the queue has reached
    /// the threshold or the counter is exhausted, else the next counter value.
    pub fn allocate(&mut self) -> (r: Result<PluginIndex, ContextError>)
        ensures
            r == old(self)@.allocate_result(),
            final(self)@ == old(self)@.allocate_state(),
    {
        let exhausted = self.next_id == PluginIndex::MAX;
        if self.reclaimed_ids.len() >= self.reuse_threshold || exhausted {
            if let Some(x) = self.reclaimed_ids.pop_front() {
                return Ok(x);
            }
            if exhausted {
                return Err(ContextError::AllocationExhausted);
            }
        }
        let id = self.next_id;
        self.next_id = id + 1;
        Ok(id)
    }

    /// Puts `id` at the back of the queue of released handles.
    pub fn release(&mut self, id: PluginIndex)
        ensures
            final(self)@ == old(self)@.release_state(id),
    {
        self.reclaimed_ids.push_back(id);
    }
}

} // verus!
