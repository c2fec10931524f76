//! The engine: it owns the queue of keys, the index from id to due time and
//! the waiting handles, allocates ids and fires what is due.

use crate::clock::now_microsecond;
use crate::handler::{is_remove, removes_after, Factory, Handler, RetTimer};
use crate::queue::{
    id_of, is_first, key_id, key_of, make_key, queue_keys, tree_first, tree_insert, tree_len,
    tree_new, tree_pop_first, tree_remove, KeyTree,
};
use std::collections::HashMap;
use vstd::multiset::Multiset;
use vstd::prelude::*;

verus! {

broadcast use {vstd::std_specs::hash::group_hash_axioms, vstd::multiset::group_multiset_axioms};

/// Why a handle was not scheduled.
#[derive(Debug, PartialEq, Eq, Clone, Copy)]
pub enum TimerError {
    /// The handle has neither an interval nor a due time.
    Malformed,
    /// No id is free.
    IdExhausted,
}

/// The timer engine.
pub struct Timer<F> {
    timer_queue: KeyTree,
    time_maps: HashMap<u64, u64>,
    handlers: HashMap<u64, Handler<F>>,
    time_id: u64,
    time_max_id: u64,
    trigger_step: u64,
    shutdown: bool,
}

/// The id that follows `cursor` in the cycle `1 ..= max_id`.
pub open spec fn next_id(cursor: u64, max_id: u64) -> u64 {
    if cursor >= max_id {
        1
    } else {
        (cursor + 1) as u64
    }
}

/// The first id after `cursor`, in cyclic order, that is not in `taken`,
/// looking at no more than `tries` ids.
pub open spec fn first_free(taken: Set<u64>, cursor: u64, max_id: u64, tries: nat) -> Option<u64>
    decreases tries,
{
    if tries == 0 {
        None
    } else {
        let id = next_id(cursor, max_id);
        if !taken.contains(id) {
            Some(id)
        } else {
            first_free(taken, id, max_id, (tries - 1) as nat)
        }
    }
}

/// What is left of the cadence `step` at `now`, when the last round ended at
/// `last`: nothing where the cadence has passed, all of it where the clock
/// reads earlier than `last`.
pub open spec fn cadence_left(step: u64, last: u64, now: u64) -> u64 {
    let elapsed = if now >= last {
        now - last
    } else {
        0
    };
    if step > elapsed {
        (step - elapsed) as u64
    } else {
        0
    }
}

/// The largest id of the cycle: `max_id`, or 1 where that is 0.
pub open spec fn last_id(max_id: u64) -> u64 {
    if max_id == 0 {
        1
    } else {
        max_id
    }
}

/// How many steps of `next_id` lead from `cursor` to `id`, for an id of the
/// cycle; a full cycle where `id` is the cursor itself.
pub open spec fn steps_to(cursor: u64, max_id: u64, id: u64) -> int {
    if cursor < max_id && id > cursor {
        id - cursor
    } else if cursor < max_id {
        max_id - cursor + id
    } else {
        id as int
    }
}

/// A scan that finds nothing has not come as far as any free id of the cycle.
proof fn scan_stops_before_free(taken: Set<u64>, cursor: u64, max_id: u64, tries: nat, free: u64)
    requires
        first_free(taken, cursor, max_id, tries) is None,
        1 <= free <= last_id(max_id),
        !taken.contains(free),
    ensures
        tries < steps_to(cursor, max_id, free),
    decreases tries,
{
    if tries > 0 {
        scan_stops_before_free(taken, next_id(cursor, max_id), max_id, (tries - 1) as nat, free);
    }
}

/// A scan that finds nothing before it comes to `free` finds nothing either
/// when an id that it does not come to is no longer taken.
proof fn scan_ignores_later_id(
    taken: Set<u64>,
    cursor: u64,
    max_id: u64,
    tries: nat,
    free: u64,
    later: u64,
)
    requires
        first_free(taken, cursor, max_id, tries) is None,
        1 <= free <= last_id(max_id),
        1 <= later <= last_id(max_id),
        tries < steps_to(cursor, max_id, free),
        steps_to(cursor, max_id, free) <= steps_to(cursor, max_id, later),
    ensures
        first_free(taken.remove(later), cursor, max_id, tries) is None,
    decreases tries,
{
    if tries > 0 {
        scan_ignores_later_id(
            taken,
            next_id(cursor, max_id),
            max_id,
            (tries - 1) as nat,
            free,
            later,
        );
    }
}

/// A scan that finds nothing before it comes to `free` has seen as many
/// different ids as it made steps, all of them taken.
proof fn scan_sees_different_ids(
    taken: Set<u64>,
    cursor: u64,
    max_id: u64,
    tries: nat,
    free: u64,
)
    requires
        taken.finite(),
        first_free(taken, cursor, max_id, tries) is None,
        1 <= free <= last_id(max_id),
        !taken.contains(free),
    ensures
        taken.len() >= tries,
    decreases tries,
{
    if tries > 0 {
        let seen = next_id(cursor, max_id);
        let rest = (tries - 1) as nat;
        scan_stops_before_free(taken, cursor, max_id, tries, free);
        scan_ignores_later_id(taken, seen, max_id, rest, free, seen);
        scan_sees_different_ids(taken.remove(seen), seen, max_id, rest, free);
    }
}

/// Allocation fails only when the cycle is full: a scan of one id more than
/// are taken finds a free id wherever the cycle `1 ..= last_id(max_id)` has
/// one.
pub proof fn full_when_nothing_free(taken: Set<u64>, cursor: u64, max_id: u64, id: u64)
    requires
        taken.finite(),
        first_free(taken, cursor, max_id, taken.len() + 1) is None,
        1 <= id <= last_id(max_id),
    ensures
        taken.contains(id),
{
    if !taken.contains(id) {
        scan_sees_different_ids(taken, cursor, max_id, taken.len() + 1, id);
    }
}

/// A scan never gives an id that is taken, nor 0, nor one outside the cycle.
pub proof fn free_id_is_free(taken: Set<u64>, cursor: u64, max_id: u64, tries: nat)
    ensures
        match first_free(taken, cursor, max_id, tries) {
            Some(id) => !taken.contains(id) && 1 <= id <= last_id(max_id),
            None => true,
        },
    decreases tries,
{
    if tries > 0 {
        free_id_is_free(taken, next_id(cursor, max_id), max_id, (tries - 1) as nat);
    }
}

impl<F> Timer<F> {
    /// The keys in the queue.
    pub closed spec fn keys(&self) -> Multiset<(u64, u64)> {
        queue_keys(self.timer_queue)
    }

    /// The index: the due time of each id in use.
    pub closed spec fn index(&self) -> Map<u64, u64> {
        self.time_maps@
    }

    /// The handles that wait, by id.
    pub closed spec fn alarms(&self) -> Map<u64, Handler<F>> {
        self.handlers@
    }

    /// The id allocated last.
    pub closed spec fn cursor(&self) -> u64 {
        self.time_id
    }

    /// The largest id that is allocated.
    pub closed spec fn max_id(&self) -> u64 {
        self.time_max_id
    }

    /// The cadence of the drive loop, in microseconds.
    pub closed spec fn step(&self) -> u64 {
        self.trigger_step
    }

    /// Whether the drive loop is to end.
    pub closed spec fn stopped(&self) -> bool {
        self.shutdown
    }

    /// The engine's invariant. No key is queued twice; each queued key is that
    /// of a waiting handle; each waiting handle knows its id, has its key in
    /// the queue and its due time in the index. The index may hold more ids:
    /// that of an alarm stays there while its callback runs.
    pub open spec fn wf(&self) -> bool {
        &&& forall|key: (u64, u64)| self.keys().count(key) <= 1
        &&& forall|key: (u64, u64)| #[trigger]
            self.keys().contains(key) ==> self.alarms().contains_key(id_of(key))
                && self.alarms()[id_of(key)].tick_ms == key.0
        &&& forall|id: u64| #[trigger]
            self.alarms().contains_key(id) ==> {
                &&& self.alarms()[id].time_id == id
                &&& self.keys().contains(key_of(self.alarms()[id].tick_ms, id))
                &&& self.index().contains_key(id)
                &&& self.index()[id] == self.alarms()[id].tick_ms
            }
    }

    /// The two engines hold the same alarms.
    pub open spec fn same_alarms(&self, other: &Self) -> bool {
        &&& self.keys() == other.keys()
        &&& self.index() == other.index()
        &&& self.alarms() == other.alarms()
    }

    /// The two engines have the same settings.
    pub open spec fn same_settings(&self, other: &Self) -> bool {
        &&& self.max_id() == other.max_id()
        &&& self.step() == other.step()
        &&& self.stopped() == other.stopped()
    }

    /// The id that the allocator would give next, if any is free.
    pub open spec fn free_id(&self) -> Option<u64> {
        first_free(self.index().dom(), self.cursor(), self.max_id(), self.index().len() + 1)
    }

    /// The alarm `id` waits and is the next to fire.
    pub open spec fn is_next(&self, id: u64) -> bool {
        &&& self.alarms().contains_key(id)
        &&& is_first(self.keys(), key_of(self.alarms()[id].tick_ms, id))
    }

    /// No alarm is due at `tm`.
    pub open spec fn nothing_due(&self, tm: u64) -> bool {
        forall|key: (u64, u64)| #[trigger] self.keys().contains(key) ==> key.0 > tm
    }

    /// An empty engine with the given cadence; ids run from 1 to `u32::MAX`.
    pub fn new(trigger_step: u64) -> (timer: Timer<F>)
        ensures
            timer.wf(),
            timer.keys() == Multiset::<(u64, u64)>::empty(),
            timer.index() == Map::<u64, u64>::empty(),
            timer.alarms() == Map::<u64, Handler<F>>::empty(),
            timer.cursor() == 0,
            timer.max_id() == u32::MAX,
            timer.step() == trigger_step,
            !timer.stopped(),
    {
        Timer {
            timer_queue: tree_new(),
            time_maps: HashMap::new(),
            handlers: HashMap::new(),
            time_id: 0,
            time_max_id: 0xffff_ffff,
            trigger_step,
            shutdown: false,
        }
    }

    /// The engine `self` is `before` after `handle` was scheduled in it at
    /// `now` under `id`.
    pub open spec fn added(&self, before: &Self, handle: Handler<F>, id: u64, now: u64) -> bool {
        &&& self.keys() == before.keys().insert(key_of(handle.due_at(now), id))
        &&& self.index() == before.index().insert(id, handle.due_at(now))
        &&& self.alarms() == before.alarms().insert(id, handle.scheduled_as(id, now))
        &&& self.cursor() == if before.needs_new_id(handle) {
            id
        } else {
            before.cursor()
        }
        &&& self.same_settings(before)
    }

    /// The handle has no id yet, or one under which another alarm waits.
    pub open spec fn needs_new_id(&self, handle: Handler<F>) -> bool {
        handle.time_id == 0 || self.alarms().contains_key(handle.time_id)
    }

    /// Whether `handle` is scheduled, and under which id.
    pub open spec fn add_outcome(&self, handle: Handler<F>) -> Result<u64, TimerError> {
        if handle.is_malformed() {
            Err(TimerError::Malformed)
        } else if self.needs_new_id(handle) {
            match self.free_id() {
                Some(id) => Ok(id),
                None => Err(TimerError::IdExhausted),
            }
        } else {
            Ok(handle.time_id)
        }
    }

    /// Allocates an id: the first after the cursor, in the cycle from 1 to
    /// the largest id, that the index does not hold. One id more than the
    /// index holds is looked at; where all of those are taken, no id is given
    /// and the engine stays as it is.
    pub fn calc_new_id(&mut self) -> (found: Option<u64>)
        ensures
            found == old(self).free_id(),
            match found {
                Some(id) => {
                    &&& id != 0
                    &&& !old(self).index().contains_key(id)
                    &&& final(self).cursor() == id
                    &&& final(self).same_alarms(old(self))
                    &&& final(self).same_settings(old(self))
                },
                None => *final(self) == *old(self),
            },
    {
        let limit: usize = self.time_maps.len();
        let mut tried: usize = 0;
        let mut candidate: u64 = self.time_id;
        let ghost before = *self;
        loop
            invariant
                *self == before,
                before == *old(self),
                limit == before.index().len(),
                tried <= limit,
                before.free_id() == first_free(
                    before.index().dom(),
                    candidate,
                    before.max_id(),
                    (limit + 1 - tried) as nat,
                ),
            decreases limit - tried,
        {
            let ghost previous = candidate;
            candidate = if candidate >= self.time_max_id {
                1
            } else {
                candidate + 1
            };
            assert(candidate == next_id(previous, before.max_id()));
            assert(candidate != 0);
            assert(first_free(
                before.index().dom(),
                previous,
                before.max_id(),
                (limit + 1 - tried) as nat,
            ) == if !before.index().dom().contains(candidate) {
                Some(candidate)
            } else {
                first_free(
                    before.index().dom(),
                    candidate,
                    before.max_id(),
                    (limit - tried) as nat,
                )
            });
            if !self.time_maps.contains_key(&candidate) {
                assert(!before.index().contains_key(candidate));
                self.time_id = candidate;
                return Some(candidate);
            }
            if tried == limit {
                assert(first_free(before.index().dom(), candidate, before.max_id(), 0) == None::<
                    u64,
                >);
                return None;
            }
            tried = tried + 1;
        }
    }

    /// Schedules `handle` at the instant `now`. A malformed handle is
    /// refused. A handle without an id, or with the id of an alarm that
    /// waits, gets a new id; where none is free it is refused. A refusal
    /// leaves the engine as it was. Otherwise the handle waits under its id,
    /// due as `Handler::due_at` says.
    pub fn add_timer_at(&mut self, handle: Handler<F>, now: u64) -> (added: Result<u64, TimerError>)
        requires
            old(self).wf(),
        ensures
            final(self).wf(),
            added == old(self).add_outcome(handle),
            match added {
                Ok(id) => id != 0 && final(self).added(old(self), handle, id, now),
                Err(_) => *final(self) == *old(self),
            },
    {
        if handle.tick_step == 0 && handle.tick_ms == 0 {
            return Err(TimerError::Malformed);
        }
        let mut entry = handle;
        let id: u64 = if entry.time_id == 0 || self.handlers.contains_key(&entry.time_id) {
            match self.calc_new_id() {
                Some(id) => id,
                None => {
                    return Err(TimerError::IdExhausted);
                },
            }
        } else {
            entry.time_id
        };
        entry.time_id = id;
        if entry.tick_step != 0 {
            if entry.at_once {
                entry.tick_ms = now;
                entry.at_once = false;
            } else {
                entry.tick_ms = match now.checked_add(entry.tick_step) {
                    Some(due) => due,
                    None => u64::MAX,
                };
            }
        }
        let due: u64 = entry.tick_ms;
        let key = make_key(due, id);
        assert(entry == handle.scheduled_as(id, now));
        assert(!old(self).alarms().contains_key(id));
        assert(!old(self).keys().contains(key));
        self.time_maps.insert(id, due);
        tree_insert(&mut self.timer_queue, key);
        self.handlers.insert(id, entry);
        proof {
            let after = *self;
            assert forall|other: (u64, u64)| after.keys().count(other) <= 1 by {
                if other != key {
                    assert(after.keys().count(other) == old(self).keys().count(other));
                }
            }
            assert forall|other: (u64, u64)| #[trigger]
                after.keys().contains(other) implies after.alarms().contains_key(id_of(other))
                && after.alarms()[id_of(other)].tick_ms == other.0 by {
                if other != key {
                    assert(old(self).keys().contains(other));
                    assert(id_of(other) != id);
                }
            }
            assert forall|other: u64| #[trigger] after.alarms().contains_key(other) implies {
                &&& after.alarms()[other].time_id == other
                &&& after.keys().contains(key_of(after.alarms()[other].tick_ms, other))
                &&& after.index().contains_key(other)
                &&& after.index()[other] == after.alarms()[other].tick_ms
            } by {
                if other != id {
                    assert(old(self).alarms().contains_key(other));
                }
            }
        }
        Ok(id)
    }

    /// Schedules `handle` at the clock's current reading, which is taken only
    /// for a handle with an interval. Returns the id under which it waits, or
    /// 0 where it was refused, which leaves the engine as it was.
    pub fn add_timer(&mut self, handle: Handler<F>) -> (id: u64)
        requires
            old(self).wf(),
        ensures
            final(self).wf(),
            id == 0 <==> old(self).add_outcome(handle) is Err,
            id == 0 ==> *final(self) == *old(self),
            id != 0 ==> old(self).add_outcome(handle) == Ok::<u64, TimerError>(id),
            id != 0 ==> exists|now: u64| #[trigger] final(self).added(old(self), handle, id, now),
            id != 0 && handle.tick_step == 0 ==> final(self).added(old(self), handle, id, 0),
    {
        let now: u64 = if handle.tick_step == 0 {
            0
        } else {
            now_microsecond()
        };
        match self.add_timer_at(handle, now) {
            Ok(id) => id,
            Err(_) => 0,
        }
    }

    /// Takes the alarm `time_id` out and hands its handle back. An id that the
    /// index does not hold changes nothing. The id of an alarm whose callback
    /// is running is freed, and no handle comes back.
    pub fn del_timer(&mut self, time_id: u64) -> (removed: Option<Handler<F>>)
        requires
            old(self).wf(),
        ensures
            final(self).wf(),
            removed == if old(self).alarms().contains_key(time_id) {
                Some(old(self).alarms()[time_id])
            } else {
                None
            },
            final(self).index() == old(self).index().remove(time_id),
            final(self).alarms() == old(self).alarms().remove(time_id),
            final(self).keys() == if old(self).alarms().contains_key(time_id) {
                old(self).keys().remove(key_of(old(self).alarms()[time_id].tick_ms, time_id))
            } else {
                old(self).keys()
            },
            final(self).cursor() == old(self).cursor(),
            final(self).same_settings(old(self)),
            !old(self).index().contains_key(time_id) ==> *final(self) == *old(self),
    {
        let due: u64 = match self.time_maps.get(&time_id) {
            Some(due) => *due,
            None => {
                assert(!old(self).alarms().contains_key(time_id));
                assert(old(self).index().remove(time_id) =~= old(self).index());
                assert(old(self).alarms().remove(time_id) =~= old(self).alarms());
                return None;
            },
        };
        let key = make_key(due, time_id);
        self.time_maps.remove(&time_id);
        let found = tree_remove(&mut self.timer_queue, &key);
        if found {
            assert(old(self).keys().contains(key));
            assert(old(self).alarms().contains_key(id_of(key)));
            let removed = self.handlers.remove(&time_id);
            proof {
                let after = *self;
                assert forall|other: (u64, u64)| #[trigger]
                    after.keys().contains(other) implies after.alarms().contains_key(id_of(other))
                    && after.alarms()[id_of(other)].tick_ms == other.0 by {
                    assert(old(self).keys().contains(other));
                    assert(other != key);
                }
                assert forall|other: u64| #[trigger] after.alarms().contains_key(other) implies {
                    &&& after.alarms()[other].time_id == other
                    &&& after.keys().contains(key_of(after.alarms()[other].tick_ms, other))
                    &&& after.index().contains_key(other)
                    &&& after.index()[other] == after.alarms()[other].tick_ms
                } by {
                    assert(old(self).alarms().contains_key(other));
                }
            }
            removed
        } else {
            assert(!old(self).alarms().contains_key(time_id));
            assert(old(self).alarms().remove(time_id) =~= old(self).alarms());
            assert(queue_keys(self.timer_queue) =~= old(self).keys());
            None
        }
    }

    /// Whether no alarm waits.
    pub fn is_empty(&self) -> (empty: bool)
        ensures
            empty == (self.keys().len() == 0),
    {
        tree_len(&self.timer_queue) == 0
    }

    /// The due time of the alarm that fires next, if one waits.
    pub fn tick_first(&self) -> (first: Option<u64>)
        requires
            self.wf(),
        ensures
            match first {
                Some(due) => exists|id: u64| #[trigger]
                    self.is_next(id) && self.alarms()[id].tick_ms == due,
                None => self.keys().len() == 0,
            },
            first is None <==> self.keys().len() == 0,
    {
        match tree_first(&self.timer_queue) {
            Some(key) => {
                proof {
                    assert(self.keys().contains(key));
                    assert(self.is_next(id_of(key)));
                }
                Some(key.0)
            },
            None => None,
        }
    }

    /// Takes the next alarm out of the queue if it is due at `tm`: the one
    /// with the least due time, and among those the one with the largest id.
    /// Its id stays in the index, so that it is not given to another alarm
    /// while the callback runs. Where nothing is due the engine stays as it
    /// is.
    pub fn pop_due(&mut self, tm: u64) -> (due: Option<Handler<F>>)
        requires
            old(self).wf(),
        ensures
            final(self).wf(),
            due is None <==> old(self).nothing_due(tm),
            match due {
                Some(handle) => {
                    &&& old(self).is_next(handle.time_id)
                    &&& handle == old(self).alarms()[handle.time_id]
                    &&& handle.tick_ms <= tm
                    &&& final(self).keys() == old(self).keys().remove(
                        key_of(handle.tick_ms, handle.time_id),
                    )
                    &&& final(self).alarms() == old(self).alarms().remove(handle.time_id)
                    &&& final(self).index() == old(self).index()
                    &&& final(self).cursor() == old(self).cursor()
                    &&& final(self).same_settings(old(self))
                },
                None => *final(self) == *old(self),
            },
    {
        match tree_first(&self.timer_queue) {
            Some(key) => {
                if key.0 > tm {
                    return None;
                }
                assert(old(self).keys().contains(key));
            },
            None => {
                assert forall|key: (u64, u64)| #[trigger]
                    old(self).keys().contains(key) implies key.0 > tm by {
                    assert(old(self).keys().count(key) == 0);
                }
                return None;
            },
        }
        match tree_pop_first(&mut self.timer_queue) {
            Some(key) => {
                let id = key_id(key);
                assert(old(self).keys().contains(key));
                assert(old(self).alarms().contains_key(id));
                let handle = self.handlers.remove(&id);
                proof {
                    let after = *self;
                    assert forall|other: (u64, u64)| #[trigger]
                        after.keys().contains(other) implies after.alarms().contains_key(
                        id_of(other),
                    ) && after.alarms()[id_of(other)].tick_ms == other.0 by {
                        assert(old(self).keys().contains(other));
                        assert(other != key);
                    }
                    assert forall|other: u64| #[trigger]
                        after.alarms().contains_key(other) implies {
                        &&& after.alarms()[other].time_id == other
                        &&& after.keys().contains(key_of(after.alarms()[other].tick_ms, other))
                        &&& after.index().contains_key(other)
                        &&& after.index()[other] == after.alarms()[other].tick_ms
                    } by {
                        assert(old(self).alarms().contains_key(other));
                    }
                }
                handle
            },
            None => {
                proof {
                    let key = choose|key: (u64, u64)| old(self).keys().contains(key);
                    assert(old(self).keys().count(key) == 0);
                }
                None
            },
        }
    }

    /// Applies the result policy to a handle that has fired and whose
    /// callback answered `ret`, at the instant `now`. Where the policy ends
    /// the alarm, its id leaves the index, unless another alarm waits under
    /// that id by now. Otherwise the handle is scheduled again as
    /// `add_timer_at` does, and the id under which it waits is returned;
    /// where `add_timer_at` refuses it, nothing is returned and the engine
    /// stays as it is.
    pub fn settle_at(&mut self, handle: Handler<F>, ret: RetTimer, now: u64) -> (kept: Option<u64>)
        requires
            old(self).wf(),
        ensures
            final(self).wf(),
            removes_after(ret, handle.tick_step, handle.is_repeat) ==> {
                &&& kept is None
                &&& final(self).index() == if old(self).alarms().contains_key(handle.time_id) {
                    old(self).index()
                } else {
                    old(self).index().remove(handle.time_id)
                }
                &&& final(self).keys() == old(self).keys()
                &&& final(self).alarms() == old(self).alarms()
                &&& final(self).cursor() == old(self).cursor()
                &&& final(self).same_settings(old(self))
            },
            !removes_after(ret, handle.tick_step, handle.is_repeat) ==> (match old(
                self,
            ).add_outcome(handle) {
                Ok(id) => kept == Some(id) && id != 0 && final(self).added(
                    old(self),
                    handle,
                    id,
                    now,
                ),
                Err(_) => kept is None && *final(self) == *old(self),
            }),
    {
        if is_remove(&ret, handle.tick_step, handle.is_repeat) {
            if !self.handlers.contains_key(&handle.time_id) {
                self.time_maps.remove(&handle.time_id);
                proof {
                    let after = *self;
                    assert(after.keys() == old(self).keys());
                    assert(after.alarms() == old(self).alarms());
                    assert forall|other: u64| #[trigger]
                        after.alarms().contains_key(other) implies {
                        &&& after.alarms()[other].time_id == other
                        &&& after.keys().contains(key_of(after.alarms()[other].tick_ms, other))
                        &&& after.index().contains_key(other)
                        &&& after.index()[other] == after.alarms()[other].tick_ms
                    } by {
                        assert(old(self).alarms().contains_key(other));
                        assert(other != handle.time_id);
                    }
                    assert(after.wf());
                }
            }
            None
        } else {
            match self.add_timer_at(handle, now) {
                Ok(id) => Some(id),
                Err(_) => None,
            }
        }
    }

    /// Fires one alarm, if one is due at `tm`: takes it out of the queue,
    /// calls its callback with the engine and the id, and applies the result
    /// policy to the answer, at the clock's reading where the alarm goes on.
    /// Returns the id that fired. Where nothing is due the engine stays as it
    /// is. What the engine holds after a firing is for the callback to decide:
    /// `pop_due` and `settle_at` say what the engine does before and after it.
    pub fn tick_time(&mut self, tm: u64) -> (fired: Option<u64>) where F: Factory
        requires
            old(self).wf(),
        ensures
            final(self).wf(),
            fired is None <==> old(self).nothing_due(tm),
            match fired {
                Some(id) => old(self).is_next(id) && old(self).alarms()[id].tick_ms <= tm,
                None => *final(self) == *old(self),
            },
    {
        match self.pop_due(tm) {
            Some(handle) => {
                let mut handle = handle;
                let id: u64 = handle.time_id;
                let ret = handle.factory.on_trigger(self, id);
                let now: u64 = if is_remove(&ret, handle.tick_step, handle.is_repeat) {
                    0
                } else {
                    now_microsecond()
                };
                self.settle_at(handle, ret, now);
                Some(id)
            },
            None => None,
        }
    }

    /// Fires alarms that are due at `now`, one after the other, until none is
    /// due or `limit` of them have fired, and returns how many fired. Fewer
    /// than `limit` means that nothing is due any more.
    pub fn drain_due(&mut self, now: u64, limit: u64) -> (fired: u64) where F: Factory
        requires
            old(self).wf(),
        ensures
            final(self).wf(),
            fired <= limit,
            fired < limit ==> final(self).nothing_due(now),
            old(self).nothing_due(now) ==> fired == 0 && *final(self) == *old(self),
            fired == 0 && limit > 0 ==> old(self).nothing_due(now),
    {
        let mut fired: u64 = 0;
        while fired < limit
            invariant
                self.wf(),
                fired <= limit,
                fired == 0 ==> *self == *old(self),
                fired > 0 ==> !old(self).nothing_due(now),
            decreases limit - fired,
        {
            match self.tick_time(now) {
                Some(_) => {
                    fired = fired + 1;
                },
                None => {
                    return fired;
                },
            }
        }
        fired
    }

    /// How long the drive loop sleeps before it fires what is due: what is
    /// left of the cadence since the last round ended at `last_trigger_time`,
    /// seen at `now`; 0 where the cadence is 0 or has passed.
    pub fn sleep_time(&self, last_trigger_time: u64, now: u64) -> (micros: u64)
        ensures
            micros == cadence_left(self.step(), last_trigger_time, now),
    {
        let escape: u64 = if now >= last_trigger_time {
            now - last_trigger_time
        } else {
            0
        };
        if self.trigger_step > escape {
            self.trigger_step - escape
        } else {
            0
        }
    }

    /// The largest id that is allocated.
    pub fn get_max_id(&self) -> (max_id: u64)
        ensures
            max_id == self.max_id(),
    {
        self.time_max_id
    }

    /// Sets the largest id that is allocated. Ids wrap to 1 after it.
    pub fn set_max_id(&mut self, max_id: u64)
        ensures
            final(self).max_id() == max_id,
            final(self).step() == old(self).step(),
            final(self).stopped() == old(self).stopped(),
            final(self).cursor() == old(self).cursor(),
            final(self).same_alarms(old(self)),
    {
        self.time_max_id = max_id;
    }

    /// The cadence of the drive loop, in microseconds.
    pub fn get_trigger_step(&self) -> (trigger_step: u64)
        ensures
            trigger_step == self.step(),
    {
        self.trigger_step
    }

    /// Sets the cadence of the drive loop.
    pub fn set_trigger_step(&mut self, trigger_step: u64)
        ensures
            final(self).step() == trigger_step,
            final(self).max_id() == old(self).max_id(),
            final(self).stopped() == old(self).stopped(),
            final(self).cursor() == old(self).cursor(),
            final(self).same_alarms(old(self)),
    {
        self.trigger_step = trigger_step;
    }

    /// Whether the drive loop is to end.
    pub fn is_shutdown(&self) -> (shutdown: bool)
        ensures
            shutdown == self.stopped(),
    {
        self.shutdown
    }

    /// Tells the drive loop to end, or to go on.
    pub fn set_shutdown(&mut self, shutdown: bool)
        ensures
            final(self).stopped() == shutdown,
            final(self).max_id() == old(self).max_id(),
            final(self).step() == old(self).step(),
            final(self).cursor() == old(self).cursor(),
            final(self).same_alarms(old(self)),
    {
        self.shutdown = shutdown;
    }

    /// Id uniqueness: no two keys in the queue carry the same id, and every
    /// id in the queue is in the index.
    pub proof fn ids_are_unique(&self, a: (u64, u64), b: (u64, u64))
        requires
            self.wf(),
            self.keys().contains(a),
            self.keys().contains(b),
            id_of(a) == id_of(b),
        ensures
            a == b,
            self.keys().count(a) == 1,
            self.index().contains_key(id_of(a)),
            self.index()[id_of(a)] == a.0,
    {
    }

    /// Firing order: the alarm that fires next is due no later than any other
    /// that waits, and among those due at the same instant it has the largest
    /// id.
    pub proof fn next_is_earliest(&self, id: u64, other: u64)
        requires
            self.wf(),
            self.is_next(id),
            self.alarms().contains_key(other),
            other != id,
        ensures
            self.alarms()[id].tick_ms <= self.alarms()[other].tick_ms,
            self.alarms()[id].tick_ms == self.alarms()[other].tick_ms ==> id > other,
    {
        assert(self.keys().contains(key_of(self.alarms()[other].tick_ms, other)));
    }

    /// Only one alarm can be the next to fire.
    pub proof fn next_is_unique(&self, id: u64, other: u64)
        requires
            self.wf(),
            self.is_next(id),
            self.is_next(other),
        ensures
            id == other,
    {
    }

    /// Allocation fails only when every id from 1 to the largest is in use.
    pub proof fn exhausted_means_full(&self, id: u64)
        requires
            self.free_id() is None,
            1 <= id <= last_id(self.max_id()),
        ensures
            self.index().contains_key(id),
    {
        full_when_nothing_free(self.index().dom(), self.cursor(), self.max_id(), id);
    }

    /// The queue is empty exactly when no handle waits.
    pub proof fn empty_queue_has_no_alarms(&self)
        requires
            self.wf(),
        ensures
            self.keys().len() == 0 <==> self.alarms() == Map::<u64, Handler<F>>::empty(),
    {
        if self.keys().len() == 0 {
            assert forall|id: u64| !self.alarms().contains_key(id) by {
                if self.alarms().contains_key(id) {
                    assert(self.keys().count(key_of(self.alarms()[id].tick_ms, id)) > 0);
                }
            }
            assert(self.alarms() =~= Map::<u64, Handler<F>>::empty());
        } else {
            vstd::multiset::lemma_multiset_empty_len(self.keys());
            let key = choose|key: (u64, u64)| self.keys().count(key) > 0;
            assert(self.keys().contains(key));
            assert(self.alarms().contains_key(id_of(key)));
        }
    }
}

} // verus!
