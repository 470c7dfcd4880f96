//! The schedule store: the collection of schedule records, keyed by a
//! monotonically increasing identifier that is allocated together with the
//! record it names, so an id is never reused. Its view is the map from id
//! to record; listing operations scan in ascending id order, stable and
//! deterministic.

use vstd::prelude::*;

use crate::schedule::RemittanceSchedule;
use crate::schedule::ready_at;
use crate::schedule::valid_schedule;

verus! {

/// Records selected from `m` among the ids `1 ..= up_to`, in ascending id
/// order. This is the model of every listing scan.
pub open spec fn selected_in_id_order(
    m: Map<u32, RemittanceSchedule>,
    pred: spec_fn(RemittanceSchedule) -> bool,
    up_to: int,
) -> Seq<RemittanceSchedule>
    decreases up_to,
{
    if up_to <= 0 {
        Seq::empty()
    } else {
        let prefix = selected_in_id_order(m, pred, up_to - 1);
        let id: u32 = up_to as u32;
        if m.dom().contains(id) && pred(m[id]) {
            prefix.push(m[id])
        } else {
            prefix
        }
    }
}

/// The schedules of one owner among the ids `1 ..= up_to`, in ascending id
/// order.
pub open spec fn owner_schedules(
    m: Map<u32, RemittanceSchedule>,
    owner: u64,
    up_to: int,
) -> Seq<RemittanceSchedule> {
    selected_in_id_order(m, |s: RemittanceSchedule| s.owner == owner, up_to)
}

/// The schedules eligible for execution at `now` among the ids
/// `1 ..= up_to`, in ascending id order.
pub open spec fn ready_schedules(
    m: Map<u32, RemittanceSchedule>,
    now: u64,
    up_to: int,
) -> Seq<RemittanceSchedule> {
    selected_in_id_order(m, |s: RemittanceSchedule| ready_at(s, now), up_to)
}

/// The persisted collection of schedules. Ids run from 1 to the number
/// issued so far; a cancelled schedule leaves a permanent gap.
pub struct ScheduleStore {
    next_id: u32,
    slots: Vec<Option<RemittanceSchedule>>,
}

impl View for ScheduleStore {
    type V = Map<u32, RemittanceSchedule>;

    closed spec fn view(&self) -> Map<u32, RemittanceSchedule> {
        Map::new(
            |id: u32| 1 <= id && id <= self.slots@.len() && self.slots@[id - 1] is Some,
            |id: u32| self.slots@[id - 1]->Some_0,
        )
    }
}

impl ScheduleStore {
    /// How many ids have ever been issued; ids are never reused, so every
    /// id ever assigned, live or cancelled, is at most this.
    pub closed spec fn issued(self) -> u32 {
        self.next_id
    }

    /// The store's invariant: one slot per issued id, and every present
    /// record is well formed and carries its own id.
    pub closed spec fn wf(self) -> bool {
        &&& self.slots@.len() == self.next_id
        &&& forall|i: int|
            0 <= i < self.slots@.len() && self.slots@[i] is Some ==> (
            #[trigger] self.slots@[i])->Some_0.id == i + 1 && valid_schedule(
                self.slots@[i]->Some_0,
            )
    }

    /// Every id in the store was issued at some point.
    pub proof fn lemma_ids_issued(self)
        requires
            self.wf(),
        ensures
            forall|id: u32| self@.dom().contains(id) ==> 1 <= id && id <= self.issued(),
            forall|id: u32| #[trigger]
                self@.dom().contains(id) ==> self@[id].id == id && valid_schedule(self@[id]),
    {
    }

    /// How many ids have been issued so far.
    pub fn issued_count(&self) -> (count: u32)
        ensures
            count == self.issued(),
    {
        self.next_id
    }

    /// An empty store; no id has been issued.
    pub fn new() -> (store: ScheduleStore)
        ensures
            store.wf(),
            store@ == Map::<u32, RemittanceSchedule>::empty(),
            store.issued() == 0,
    {
        let store = ScheduleStore { next_id: 0, slots: Vec::new() };
        proof {
            assert(store@ =~= Map::<u32, RemittanceSchedule>::empty());
        }
        store
    }

    /// Issues a fresh id, one past every id issued before. The record it
    /// names is written by `put`, in the same transaction as far as callers
    /// are concerned; the map of stored records does not change here.
    pub fn allocate_id(&mut self) -> (id: u32)
        requires
            old(self).wf(),
            old(self).issued() < u32::MAX,
        ensures
            final(self).wf(),
            id == old(self).issued() + 1,
            final(self).issued() == id,
            final(self)@ == old(self)@,
    {
        self.slots.push(None);
        self.next_id = self.next_id + 1;
        proof {
            assert(self@ =~= old(self)@);
        }
        self.next_id
    }

    /// Reads the record under an id, or nothing where none is stored.
    pub fn get(&self, id: u32) -> (result: Option<RemittanceSchedule>)
        requires
            self.wf(),
        ensures
            match result {
                Some(s) => self@.dom().contains(id) && s == self@[id],
                None => !self@.dom().contains(id),
            },
    {
        if id >= 1 && id <= self.next_id {
            self.slots[(id - 1) as usize]
        } else {
            None
        }
    }

    /// Writes a record under an issued id, overwriting whatever was there.
    pub fn put(&mut self, id: u32, s: RemittanceSchedule)
        requires
            old(self).wf(),
            1 <= id && id <= old(self).issued(),
            s.id == id,
            valid_schedule(s),
        ensures
            final(self).wf(),
            final(self).issued() == old(self).issued(),
            final(self)@ == old(self)@.insert(id, s),
    {
        self.slots.set((id - 1) as usize, Some(s));
        proof {
            assert(self@ =~= old(self)@.insert(id, s));
        }
    }

    /// Deletes the record under an id; the id stays issued and is never
    /// handed out again. Deleting an absent id changes nothing.
    pub fn delete(&mut self, id: u32)
        requires
            old(self).wf(),
        ensures
            final(self).wf(),
            final(self).issued() == old(self).issued(),
            final(self)@ == old(self)@.remove(id),
    {
        if id >= 1 && id <= self.next_id {
            self.slots.set((id - 1) as usize, None);
        }
        proof {
            assert(self@ =~= old(self)@.remove(id));
        }
    }

    /// Lists the schedules of one owner, in ascending id order.
    pub fn list_by_owner(&self, owner: u64) -> (result: Vec<RemittanceSchedule>)
        requires
            self.wf(),
        ensures
            result@ == owner_schedules(self@, owner, self.issued() as int),
    {
        let mut result: Vec<RemittanceSchedule> = Vec::new();
        let mut i: u32 = 0;
        while i < self.next_id
            invariant
                self.wf(),
                i <= self.next_id,
                result@ == owner_schedules(self@, owner, i as int),
            decreases self.next_id - i,
        {
            let ghost id: u32 = (i + 1) as u32;
            proof {
                assert(self@.dom().contains(id) <==> self.slots@[i as int] is Some);
                if self.slots@[i as int] is Some {
                    assert(self@[id] == self.slots@[i as int]->Some_0);
                }
            }
            if let Some(s) = self.slots[i as usize] {
                if s.owner == owner {
                    result.push(s);
                }
            }
            i = i + 1;
        }
        result
    }

    /// Lists the schedules eligible for execution at `now` — active, due,
    /// and not past their end — in ascending id order.
    pub fn list_ready(&self, now: u64) -> (result: Vec<RemittanceSchedule>)
        requires
            self.wf(),
        ensures
            result@ == ready_schedules(self@, now, self.issued() as int),
    {
        let mut result: Vec<RemittanceSchedule> = Vec::new();
        let mut i: u32 = 0;
        while i < self.next_id
            invariant
                self.wf(),
                i <= self.next_id,
                result@ == ready_schedules(self@, now, i as int),
            decreases self.next_id - i,
        {
            let ghost id: u32 = (i + 1) as u32;
            proof {
                assert(self@.dom().contains(id) <==> self.slots@[i as int] is Some);
                if self.slots@[i as int] is Some {
                    assert(self@[id] == self.slots@[i as int]->Some_0);
                }
            }
            if let Some(s) = self.slots[i as usize] {
                let due = s.next_execution <= now;
                let within_end = match s.end_timestamp {
                    Some(end) => end >= now,
                    None => true,
                };
                if s.active && due && within_end {
                    result.push(s);
                }
            }
            i = i + 1;
        }
        result
    }
}

} // verus!
