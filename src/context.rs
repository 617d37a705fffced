//! The session context: plugin registry, handle allocator and last-error slot.
use std::collections::BTreeMap;
use vstd::prelude::*;

use crate::allocator::{lemma_allocate_fresh, lemma_release_live, AllocatorState, ContextError, IdAllocator, PluginIndex};

verus! {

broadcast use vstd::std_specs::btree::group_btree_axioms, vstd::laws_cmp::group_laws_cmp;

/// Relies on `BTreeMap::get_mut`: a mutable borrow of the value stored under
/// `k` when there is one; writes through it land in the map under `k`.
#[verifier::external_body]
fn map_get_mut<V>(m: &mut BTreeMap<PluginIndex, V>, k: PluginIndex) -> (r: Option<&mut V>)
    ensures
        old(m)@.contains_key(k) ==> r is Some && *r.unwrap() == old(m)@[k]
            && final(m)@ == old(m)@.insert(k, *final(r.unwrap())),
        !old(m)@.contains_key(k) ==> r is None && final(m)@ == old(m)@,
{
    m.get_mut(&k)
}

/// `after` is `before` with the error slot holding `e` and nothing else changed.
pub open spec fn error_set<P>(before: Context<P>, after: Context<P>, e: String) -> bool {
    &&& after.error_slot() == Some(e)
    &&& after.registry() == before.registry()
    &&& after.allocator() == before.allocator()
}

/// Only the last failure is observable: after the error slot is set twice in
/// sequence, it holds the second message.
pub proof fn lemma_error_overwrite<P>(c0: Context<P>, c1: Context<P>, c2: Context<P>, e1: String, e2: String)
    requires
        error_set(c0, c1, e1),
        error_set(c1, c2, e2),
    ensures
        c2.error_slot() == Some(e2),
        c2.registry() == c0.registry(),
        c2.allocator() == c0.allocator(),
{
}

/// In a sound context no handle is both the key of a stored plugin and
/// waiting in the reuse queue, and no stored plugin sits at or above the counter.
pub proof fn lemma_registry_disjoint_from_queue<P>(c: Context<P>, id: PluginIndex)
    requires
        c.is_sound(),
        c.registry().contains_key(id),
    ensures
        !c.allocator().reclaimed.contains(id),
        0 <= id < c.allocator().counter,
{
    assert(c.allocator().live().contains(id));
}

/// Stores and manages the plugins of one host session.
pub struct Context<P> {
    plugins: BTreeMap<PluginIndex, P>,
    error: Option<String>,
    ids: IdAllocator,
}

impl<P> Context<P> {
    /// The plugins stored, by handle.
    pub closed spec fn registry(&self) -> Map<PluginIndex, P> {
        self.plugins@
    }

    /// The last-error slot: a description of the most recent failure, if any.
    pub closed spec fn error_slot(&self) -> Option<String> {
        self.error
    }

    /// The state of the handle allocator.
    pub closed spec fn allocator(&self) -> AllocatorState {
        self.ids@
    }

    /// Handles are unique: the allocator is sound and every stored plugin sits
    /// under a live handle (never under one waiting in the reuse queue).
    pub open spec fn is_sound(&self) -> bool {
        &&& self.allocator().is_sound()
        &&& forall|id: PluginIndex| #[trigger] self.registry().contains_key(id) ==> self.allocator().live().contains(id)
    }

    /// Creates an empty context.
    pub fn new() -> (r: Context<P>)
        ensures
            r.registry() == Map::<PluginIndex, P>::empty(),
            r.error_slot() is None,
            r.allocator() == (AllocatorState { counter: 0, reclaimed: Seq::empty(), reuse_threshold: crate::allocator::START_REUSING_IDS as nat }),
            r.is_sound(),
    {
        Context::with_allocator(IdAllocator::new())
    }

    /// Creates an empty context that draws its handles from `ids`.
    pub fn with_allocator(ids: IdAllocator) -> (r: Context<P>)
        ensures
            r.registry() == Map::<PluginIndex, P>::empty(),
            r.error_slot() is None,
            r.allocator() == ids@,
            ids@.is_sound() ==> r.is_sound(),
    {
        Context { plugins: BTreeMap::new(), error: None, ids }
    }

    /// Gets the next valid plugin handle. In a sound context the handle is not
    /// live, nor the key of a stored plugin, and becomes live.
    pub fn next_id(&mut self) -> (r: Result<PluginIndex, ContextError>)
        ensures
            r == old(self).allocator().allocate_result(),
            final(self).allocator() == old(self).allocator().allocate_state(),
            final(self).allocator().counter >= old(self).allocator().counter,
            final(self).registry() == old(self).registry(),
            final(self).error_slot() == old(self).error_slot(),
            old(self).is_sound() ==> final(self).is_sound(),
            old(self).is_sound() && r is Ok ==> {
                &&& !old(self).allocator().live().contains(r->Ok_0)
                &&& !old(self).registry().contains_key(r->Ok_0)
                &&& final(self).allocator().live() == old(self).allocator().live().insert(r->Ok_0)
            },
    {
        proof {
            if self.is_sound() {
                lemma_allocate_fresh(self.allocator());
            }
        }
        let r = self.ids.allocate();
        proof {
            if old(self).is_sound() {
                assert forall|k: PluginIndex| #[trigger] self.registry().contains_key(k) implies self.allocator().live().contains(k) by {
                    assert(old(self).registry().contains_key(k));
                    assert(old(self).allocator().live().contains(k));
                }
            }
        }
        r
    }

    /// Stores `plugin` under `id`, taking ownership of it. In a sound context
    /// `id` should be a live handle, as handed out by `next_id`.
    pub fn insert(&mut self, id: PluginIndex, plugin: P)
        ensures
            final(self).registry() == old(self).registry().insert(id, plugin),
            final(self).allocator() == old(self).allocator(),
            final(self).error_slot() == old(self).error_slot(),
            old(self).is_sound() && old(self).allocator().live().contains(id) ==> final(self).is_sound(),
    {
        self.plugins.insert(id, plugin);
        proof {
            if old(self).is_sound() && old(self).allocator().live().contains(id) {
                assert forall|k: PluginIndex| #[trigger] self.registry().contains_key(k) implies self.allocator().live().contains(k) by {
                    if k != id {
                        assert(old(self).registry().contains_key(k));
                    }
                }
            }
        }
    }

    /// Sets the context error, replacing whatever was stored before.
    pub fn set_error(&mut self, e: String)
        ensures
            error_set(*old(self), *final(self), e),
    {
        self.error = Some(e);
    }

    /// Sets the context error and returns `x` unchanged.
    pub fn error<T>(&mut self, e: String, x: T) -> (r: T)
        ensures
            r == x,
            error_set(*old(self), *final(self), e),
    {
        self.set_error(e);
        x
    }

    /// The description of the most recent failure, if any.
    pub fn last_error(&self) -> (r: &Option<String>)
        ensures
            *r == self.error_slot(),
    {
        &self.error
    }

    /// Gets a plugin from the context: a mutable borrow of the plugin stored
    /// under `id`, or `None` when there is none.
    pub fn plugin(&mut self, id: PluginIndex) -> (r: Option<&mut P>)
        ensures
            old(self).registry().contains_key(id) ==> r is Some && *r.unwrap() == old(self).registry()[id]
                && final(self).registry() == old(self).registry().insert(id, *final(r.unwrap())),
            !old(self).registry().contains_key(id) ==> r is None && final(self).registry() == old(self).registry(),
            final(self).allocator() == old(self).allocator(),
            final(self).error_slot() == old(self).error_slot(),
    {
        map_get_mut(&mut self.plugins, id)
    }

    /// Removes the plugin stored under `id`, if any, and queues `id` for reuse.
    /// In a sound context, removing a live handle keeps the context sound and
    /// takes exactly that handle out of the live set.
    pub fn remove(&mut self, id: PluginIndex)
        ensures
            final(self).registry() == old(self).registry().remove(id),
            final(self).allocator() == old(self).allocator().release_state(id),
            final(self).error_slot() == old(self).error_slot(),
            old(self).is_sound() && old(self).allocator().live().contains(id) ==> {
                &&& final(self).is_sound()
                &&& final(self).allocator().live() == old(self).allocator().live().remove(id)
            },
    {
        proof {
            if self.is_sound() && self.allocator().live().contains(id) {
                lemma_release_live(self.allocator(), id);
            }
        }
        self.plugins.remove(&id);
        self.ids.release(id);
        proof {
            if old(self).is_sound() && old(self).allocator().live().contains(id) {
                assert forall|k: PluginIndex| #[trigger] self.registry().contains_key(k) implies self.allocator().live().contains(k) by {
                    assert(old(self).registry().contains_key(k));
                    assert(old(self).allocator().live().contains(k));
                }
            }
        }
    }
}

impl<P> Default for Context<P> {
    /// An empty context, as `Context::new` makes it.
    fn default() -> (r: Context<P>)
        ensures
            r.registry() == Map::<PluginIndex, P>::empty(),
            r.error_slot() is None,
            r.allocator() == (AllocatorState { counter: 0, reclaimed: Seq::empty(), reuse_threshold: crate::allocator::START_REUSING_IDS as nat }),
            r.is_sound(),
    {
        Context::new()
    }
}

} // verus!
