//! Stable entity identifiers.
//!
//! The id manager hands out fresh ids counting up from zero until a
//! threshold, then reuses freed ids, smallest first.  Live and reclaimed
//! ids are always disjoint, and every id ever handed out is below the
//! internal counter, so a fresh id can never collide with a live one.

use vstd::prelude::*;
use crate::components::ComponentType;
use crate::table::Table;

verus! {

pub type EntityId = u64;

pub type PlayerId = u64;

/// The default reclaim threshold: the largest integer a 64-bit float (and
/// so a JavaScript visualizer client) represents exactly.
pub const JS_MAX_SAFE_INTEGER: u64 = 9007199254740991;

/// An entity: a stable id plus the component kinds attached to it.
/// Equality and ordering are by id alone.
#[derive(Clone, Debug)]
pub struct Entity {
    pub id: EntityId,
    pub components: Vec<ComponentType>,
}

impl PartialEq for Entity {
    fn eq(&self, other: &Self) -> (r: bool) {
        self.id == other.id
    }
}

impl vstd::std_specs::cmp::PartialEqSpecImpl for Entity {
    open spec fn obeys_eq_spec() -> bool {
        true
    }

    open spec fn eq_spec(&self, other: &Self) -> bool {
        self.id == other.id
    }
}

impl PartialOrd for Entity {
    fn partial_cmp(&self, other: &Self) -> (r: Option<core::cmp::Ordering>) {
        if self.id < other.id {
            Some(core::cmp::Ordering::Less)
        } else if self.id == other.id {
            Some(core::cmp::Ordering::Equal)
        } else {
            Some(core::cmp::Ordering::Greater)
        }
    }
}

impl vstd::std_specs::cmp::PartialOrdSpecImpl for Entity {
    open spec fn obeys_partial_cmp_spec() -> bool {
        true
    }

    open spec fn partial_cmp_spec(&self, other: &Self) -> Option<core::cmp::Ordering> {
        if self.id < other.id {
            Some(core::cmp::Ordering::Less)
        } else if self.id == other.id {
            Some(core::cmp::Ordering::Equal)
        } else {
            Some(core::cmp::Ordering::Greater)
        }
    }
}

/// Allocates entity ids: fresh ones counting up below `reclaim_thresh`,
/// then freed ones, smallest first.
#[derive(Clone, Debug)]
pub struct IdManager {
    pub in_use: Table<()>,
    pub reclaimed: Table<()>,
    pub next_id: EntityId,
    pub reclaim_thresh: u64,
}

impl IdManager {
    /// Live and reclaimed ids are disjoint and below the fresh-id counter.
    pub open spec fn wf(&self) -> bool {
        &&& self.in_use.wf()
        &&& self.reclaimed.wf()
        &&& forall|id: u64|
            self.in_use@.dom().contains(id) ==> !self.reclaimed@.dom().contains(id) && id
                < self.next_id
        &&& forall|id: u64| self.reclaimed@.dom().contains(id) ==> id < self.next_id
    }

    pub open spec fn live(&self) -> Set<u64> {
        self.in_use@.dom()
    }

    pub fn new() -> (m: IdManager)
        ensures
            m.wf(),
            m.live() == Set::<u64>::empty(),
            m.reclaimed@.dom() == Set::<u64>::empty(),
            m.next_id == 0,
            m.reclaim_thresh == JS_MAX_SAFE_INTEGER,
    {
        let m = IdManager {
            in_use: Table::new(),
            reclaimed: Table::new(),
            next_id: 0,
            reclaim_thresh: JS_MAX_SAFE_INTEGER,
        };
        proof {
            assert(m.live() =~= Set::<u64>::empty());
            assert(m.reclaimed@.dom() =~= Set::<u64>::empty());
        }
        m
    }

    /// Hand out the fresh-counter id, never one in use.
    pub fn next_id_simple(&mut self) -> (id: EntityId)
        requires
            old(self).wf(),
            old(self).next_id < u64::MAX,
        ensures
            final(self).wf(),
            id == old(self).next_id,
            !old(self).live().contains(id),
            final(self).live() == old(self).live().insert(id),
            final(self).reclaimed@ == old(self).reclaimed@,
            final(self).next_id == old(self).next_id + 1,
            final(self).reclaim_thresh == old(self).reclaim_thresh,
    {
        let id = self.next_id;
        self.next_id = self.next_id + 1;
        self.in_use.insert(id, ());
        proof {
            assert(final(self).live() =~= old(self).live().insert(id));
        }
        id
    }

    /// The smallest unused id: fresh below the threshold, then the smallest
    /// reclaimed id, then fresh again if nothing was ever freed.
    pub fn next_id(&mut self) -> (id: EntityId)
        requires
            old(self).wf(),
            old(self).next_id < u64::MAX,
        ensures
            final(self).wf(),
            !old(self).live().contains(id),
            final(self).live() == old(self).live().insert(id),
            final(self).next_id >= old(self).next_id,
            final(self).reclaim_thresh == old(self).reclaim_thresh,
            old(self).next_id < old(self).reclaim_thresh ==> id == old(self).next_id
                && final(self).next_id == old(self).next_id + 1
                && final(self).reclaimed@ == old(self).reclaimed@,
            (old(self).next_id >= old(self).reclaim_thresh && old(self).reclaimed.keys().len()
                > 0) ==> {
                &&& id == old(self).reclaimed.keys()[0]
                &&& final(self).reclaimed@ == old(self).reclaimed@.remove(id)
            },
            (old(self).next_id >= old(self).reclaim_thresh && old(self).reclaimed.keys().len()
                == 0) ==> id == old(self).next_id,
    {
        if self.next_id < self.reclaim_thresh {
            return self.next_id_simple();
        }
        if self.reclaimed.len() > 0 {
            let id = self.reclaimed.key_at(0);
            self.reclaimed.remove(id);
            self.in_use.insert(id, ());
            proof {
                assert(final(self).live() =~= old(self).live().insert(id));
            }
            id
        } else {
            self.next_id_simple()
        }
    }

    /// Return a live id to the reclaimed pool.
    pub fn remove_id(&mut self, id: EntityId)
        requires
            old(self).wf(),
            old(self).live().contains(id),
        ensures
            final(self).wf(),
            final(self).live() == old(self).live().remove(id),
            final(self).reclaimed@.dom() == old(self).reclaimed@.dom().insert(id),
            final(self).next_id == old(self).next_id,
            final(self).reclaim_thresh == old(self).reclaim_thresh,
    {
        self.reclaimed.insert(id, ());
        self.in_use.remove(id);
        proof {
            assert(final(self).live() =~= old(self).live().remove(id));
            assert(final(self).reclaimed@.dom() =~= old(self).reclaimed@.dom().insert(id));
        }
    }

    pub fn is_live(&self, id: EntityId) -> (r: bool)
        requires
            self.wf(),
        ensures
            r == self.live().contains(id),
    {
        self.in_use.contains(id)
    }

    /// Clear every id, live and reclaimed, keeping the fresh-id counter so
    /// ids are never reused across episodes.
    pub fn clear(&mut self)
        ensures
            final(self).wf(),
            final(self).live() == Set::<u64>::empty(),
            final(self).reclaimed@.dom() == Set::<u64>::empty(),
            final(self).next_id == old(self).next_id,
            final(self).reclaim_thresh == old(self).reclaim_thresh,
    {
        self.in_use.clear();
        self.reclaimed.clear();
        proof {
            assert(final(self).live() =~= Set::<u64>::empty());
            assert(final(self).reclaimed@.dom() =~= Set::<u64>::empty());
        }
    }
}

} // verus!
