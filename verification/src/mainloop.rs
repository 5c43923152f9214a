use vstd::prelude::*;
use std::collections::HashMap;
use crate::consts::{READ_EVENT, WRITE_EVENT, ERROR_EVENT, ET_TRIGGER};
use crate::timeop::{time_left, spec_time_left, spec_elapsed, MAX_U64_VAL};

verus! {

broadcast use vstd::std_specs::hash::group_hash_axioms;

/// A registered handle: the handle and the kinds of events it is watched for.
#[derive(Clone, Copy)]
pub struct EvtEntry {
    pub evthd: u64,
    pub evttype: u32,
}

/// A registered timer: the tick it was (re)started at, its interval in
/// milliseconds, and whether it restarts after it fires.
#[derive(Clone, Copy)]
pub struct TimerEntry {
    pub startticks: u64,
    pub interval: i32,
    pub conti: bool,
}

/// One readiness report of the poller: the handle it is for and what it reports.
#[derive(Clone, Copy)]
pub struct ReadyEvent {
    pub id: u64,
    pub readable: bool,
    pub writable: bool,
    pub errored: bool,
}

/// What the poller is asked to watch a handle for.
#[derive(Clone, Copy)]
pub struct Interest {
    pub read: bool,
    pub write: bool,
    pub error: bool,
    pub edge: bool,
}

/// Errors of the event loop's bookkeeping.
#[derive(Clone, Copy, Debug, PartialEq, Eq, Structural)]
pub enum MainLoopError {
    /// The handle is already registered.
    HandleInUse,
}

/// The bookkeeping of an event loop: the handles and timers it serves, each
/// under a guid drawn from one counter, and whether the loop was told to stop.
pub struct EvtMain {
    evtmaps: HashMap<u64, EvtEntry>,
    timermaps: HashMap<u64, TimerEntry>,
    guidevtmaps: HashMap<u64, u64>,
    guid: u64,
    exited: i32,
}

/// A timer whose interval is over at tick `cticks`.
pub open spec fn timer_expired(t: TimerEntry, cticks: u64) -> bool {
    spec_time_left(t.startticks, cticks, t.interval) < 0
}

/// `due` lists, each once, exactly the timers that are due at tick `cticks`.
pub open spec fn spec_due(timers: Map<u64, TimerEntry>, cticks: u64, due: Seq<u64>) -> bool {
    &&& due.no_duplicates()
    &&& forall|g: u64| due.contains(g) <==> (timers.contains_key(g) && timer_expired(timers[g], cticks))
}

/// `r` is a wait the poller may be given at tick `cticks`: `1` when a timer
/// is due, else the least of `maxtime` and the time left of every timer.
pub open spec fn spec_wait(timers: Map<u64, TimerEntry>, maxtime: int, cticks: u64, r: int) -> bool {
    if exists|g: u64| #[trigger] timers.contains_key(g) && timer_expired(timers[g], cticks) {
        r == 1
    } else {
        &&& r <= maxtime
        &&& forall|g: u64| #[trigger] timers.contains_key(g) ==> r <= spec_time_left(timers[g].startticks, cticks, timers[g].interval)
        &&& (r == maxtime || exists|g: u64| #[trigger] timers.contains_key(g) && r == spec_time_left(timers[g].startticks, cticks, timers[g].interval))
    }
}

/// What `add_event` answers for handle `evthd`, given the handle index and the
/// last guid handed out: the next guid, unless the handle is registered.
pub open spec fn spec_add_event_result(handles: Map<u64, u64>, last_guid: u64, evthd: u64) -> Result<u64, MainLoopError> {
    if handles.contains_key(evthd) {
        Err(MainLoopError::HandleInUse)
    } else {
        Ok((last_guid + 1) as u64)
    }
}

/// What `remove_event` answers for handle `evthd`: `1` when it is registered.
pub open spec fn spec_remove_event_result(handles: Map<u64, u64>, evthd: u64) -> i32 {
    if handles.contains_key(evthd) {
        1
    } else {
        0
    }
}

/// The event kinds that a readiness report stands for.
pub open spec fn spec_ready_type(e: ReadyEvent) -> u32 {
    (if e.readable { READ_EVENT } else { 0u32 }) | (if e.writable { WRITE_EVENT } else { 0u32 }) | (
    if e.errored { ERROR_EVENT } else { 0u32 })
}

/// What to ask the poller to watch for, given the event kinds of a registration.
pub open spec fn spec_interest(evttype: u32) -> Interest {
    Interest {
        read: evttype & READ_EVENT != 0,
        write: evttype & WRITE_EVENT != 0,
        error: evttype & ERROR_EVENT != 0,
        edge: evttype & ET_TRIGGER != 0,
    }
}

/// The guid and event kinds that each report in `evts` is delivered as, in
/// order; reports for handles that are not registered are dropped.
pub open spec fn spec_ready_pairs(
    events: Map<u64, EvtEntry>,
    handles: Map<u64, u64>,
    evts: Seq<ReadyEvent>,
) -> Seq<(u64, u32)>
    decreases evts.len(),
{
    if evts.len() == 0 {
        Seq::empty()
    } else {
        let prev = spec_ready_pairs(events, handles, evts.drop_last());
        let e = evts.last();
        if handles.contains_key(e.id) && events.contains_key(handles[e.id]) {
            prev.push((handles[e.id], spec_ready_type(e)))
        } else {
            prev
        }
    }
}

/// Poller interest for a registration of kinds `evttype`.
pub fn interest_of(evttype: u32) -> (r: Interest)
    ensures
        r == spec_interest(evttype),
        r.read == ((evttype & READ_EVENT) != 0),
        r.write == ((evttype & WRITE_EVENT) != 0),
        r.error == ((evttype & ERROR_EVENT) != 0),
        r.edge == ((evttype & ET_TRIGGER) != 0),
{
    Interest {
        read: evttype & READ_EVENT != 0,
        write: evttype & WRITE_EVENT != 0,
        error: evttype & ERROR_EVENT != 0,
        edge: evttype & ET_TRIGGER != 0,
    }
}

/// The event kinds a readiness report stands for.
pub fn ready_type(e: &ReadyEvent) -> (r: u32)
    ensures
        r == spec_ready_type(*e),
        ((r & READ_EVENT) != 0) == e.readable,
        ((r & WRITE_EVENT) != 0) == e.writable,
        ((r & ERROR_EVENT) != 0) == e.errored,
        r & !(READ_EVENT | WRITE_EVENT | ERROR_EVENT) == 0,
{
    proof {
        law_ready_type_kinds(*e);
    }
    (if e.readable { READ_EVENT } else { 0u32 }) | (if e.writable { WRITE_EVENT } else { 0u32 }) | (
    if e.errored { ERROR_EVENT } else { 0u32 })
}

impl EvtMain {
    /// Registered handles by guid.
    pub closed spec fn events(&self) -> Map<u64, EvtEntry> {
        self.evtmaps@
    }

    /// Guids by registered handle.
    pub closed spec fn handles(&self) -> Map<u64, u64> {
        self.guidevtmaps@
    }

    /// Registered timers by guid.
    pub closed spec fn timers(&self) -> Map<u64, TimerEntry> {
        self.timermaps@
    }

    /// The last guid handed out.
    pub closed spec fn last_guid(&self) -> u64 {
        self.guid
    }

    /// Whether the loop was told to stop.
    pub closed spec fn exit_requested(&self) -> bool {
        self.exited != 0
    }

    /// Guids are fresh, shared by handles and timers, and the handle index is
    /// the inverse of the handle table.
    pub closed spec fn wf(&self) -> bool {
        &&& self.guid >= 1
        &&& forall|g: u64| #[trigger] self.evtmaps@.contains_key(g) ==> g <= self.guid
        &&& forall|g: u64| #[trigger] self.timermaps@.contains_key(g) ==> g <= self.guid
        &&& forall|g: u64| #[trigger] self.evtmaps@.contains_key(g) ==> !self.timermaps@.contains_key(g)
        &&& forall|h: u64| #[trigger] self.guidevtmaps@.contains_key(h) ==> {
            &&& self.evtmaps@.contains_key(self.guidevtmaps@[h])
            &&& self.evtmaps@[self.guidevtmaps@[h]].evthd == h
        }
        &&& forall|g: u64| #[trigger] self.evtmaps@.contains_key(g) ==> {
            &&& self.guidevtmaps@.contains_key(self.evtmaps@[g].evthd)
            &&& self.guidevtmaps@[self.evtmaps@[g].evthd] == g
        }
    }

    /// An event loop with nothing registered.
    pub fn new(_flags: u32) -> (r: Self)
        ensures
            r.wf(),
            r.events() == Map::<u64, EvtEntry>::empty(),
            r.handles() == Map::<u64, u64>::empty(),
            r.timers() == Map::<u64, TimerEntry>::empty(),
            r.last_guid() == 1,
            !r.exit_requested(),
    {
        EvtMain {
            evtmaps: HashMap::new(),
            timermaps: HashMap::new(),
            guidevtmaps: HashMap::new(),
            guid: 1,
            exited: 0,
        }
    }

    /// Registers a timer started at `startticks` and returns its guid.
    pub fn add_timer(&mut self, startticks: u64, interval: i32, conti: bool) -> (g: u64)
        requires
            old(self).wf(),
            old(self).last_guid() < u64::MAX,
        ensures
            final(self).wf(),
            g == old(self).last_guid() + 1,
            final(self).last_guid() == g,
            final(self).timers() == old(self).timers().insert(
                g,
                TimerEntry { startticks, interval, conti },
            ),
            final(self).events() == old(self).events(),
            final(self).handles() == old(self).handles(),
            final(self).exit_requested() == old(self).exit_requested(),
    {
        self.guid = self.guid + 1;
        let ntimer = TimerEntry { startticks, interval, conti };
        self.timermaps.insert(self.guid, ntimer);
        self.guid
    }

    /// Registers handle `evthd` for the event kinds `evttype` and returns its guid;
    /// a handle that is already registered is refused.
    pub fn add_event(&mut self, evthd: u64, evttype: u32) -> (r: Result<u64, MainLoopError>)
        requires
            old(self).wf(),
            old(self).last_guid() < u64::MAX,
        ensures
            final(self).wf(),
            final(self).exit_requested() == old(self).exit_requested(),
            final(self).timers() == old(self).timers(),
            r == spec_add_event_result(old(self).handles(), old(self).last_guid(), evthd),
            old(self).handles().contains_key(evthd) ==> {
                &&& r == Err::<u64, MainLoopError>(MainLoopError::HandleInUse)
                &&& final(self).events() == old(self).events()
                &&& final(self).handles() == old(self).handles()
                &&& final(self).last_guid() == old(self).last_guid()
            },
            !old(self).handles().contains_key(evthd) ==> {
                &&& r == Ok::<u64, MainLoopError>((old(self).last_guid() + 1) as u64)
                &&& final(self).last_guid() == old(self).last_guid() + 1
                &&& final(self).events() == old(self).events().insert(
                    final(self).last_guid(),
                    EvtEntry { evthd, evttype },
                )
                &&& final(self).handles() == old(self).handles().insert(evthd, final(self).last_guid())
            },
    {
        if self.guidevtmaps.contains_key(&evthd) {
            return Err(MainLoopError::HandleInUse);
        }
        self.guid = self.guid + 1;
        let ev = EvtEntry { evthd, evttype };
        self.evtmaps.insert(self.guid, ev);
        self.guidevtmaps.insert(evthd, self.guid);
        proof {
            assert forall|h: u64| #[trigger] self.guidevtmaps@.contains_key(h) implies {
                &&& self.evtmaps@.contains_key(self.guidevtmaps@[h])
                &&& self.evtmaps@[self.guidevtmaps@[h]].evthd == h
            } by {
                if h != evthd {
                    assert(old(self).guidevtmaps@.contains_key(h));
                }
            }
            assert forall|g: u64| #[trigger] self.evtmaps@.contains_key(g) implies {
                &&& self.guidevtmaps@.contains_key(self.evtmaps@[g].evthd)
                &&& self.guidevtmaps@[self.evtmaps@[g].evthd] == g
            } by {
                if g != self.guid {
                    assert(old(self).evtmaps@.contains_key(g));
                    assert(self.evtmaps@[g].evthd != evthd);
                }
            }
        }
        Ok(self.guid)
    }

    /// Forgets timer `guid`; `1` when it was registered, `0` when not.
    pub fn remove_timer(&mut self, guid: u64) -> (r: i32)
        requires
            old(self).wf(),
        ensures
            final(self).wf(),
            r == (if old(self).timers().contains_key(guid) { 1i32 } else { 0i32 }),
            final(self).timers() == old(self).timers().remove(guid),
            final(self).events() == old(self).events(),
            final(self).handles() == old(self).handles(),
            final(self).last_guid() == old(self).last_guid(),
            final(self).exit_requested() == old(self).exit_requested(),
    {
        match self.timermaps.get(&guid) {
            Some(_v) => {},
            None => {
                proof {
                    assert(self.timermaps@.remove(guid) == self.timermaps@);
                }
                return 0;
            },
        }
        self.timermaps.remove(&guid);
        1
    }

    /// The guid and event kinds that handle `evthd` is registered under.
    pub fn find_event(&self, evthd: u64) -> (r: Option<(u64, u32)>)
        requires
            self.wf(),
        ensures
            match r {
                Some((g, t)) => {
                    &&& self.handles().contains_key(evthd)
                    &&& g == self.handles()[evthd]
                    &&& self.events()[g] == EvtEntry { evthd, evttype: t }
                },
                None => !self.handles().contains_key(evthd),
            },
    {
        match self.guidevtmaps.get(&evthd) {
            Some(g) => {
                match self.evtmaps.get(g) {
                    Some(ev) => Some((*g, ev.evttype)),
                    None => None,
                }
            },
            None => None,
        }
    }

    /// Forgets handle `evthd`; `1` when it was registered, `0` when not.
    pub fn remove_event(&mut self, evthd: u64) -> (r: i32)
        requires
            old(self).wf(),
        ensures
            final(self).wf(),
            r == spec_remove_event_result(old(self).handles(), evthd),
            final(self).handles() == old(self).handles().remove(evthd),
            old(self).handles().contains_key(evthd) ==> final(self).events() == old(self).events().remove(
                old(self).handles()[evthd],
            ),
            !old(self).handles().contains_key(evthd) ==> final(self).events() == old(self).events(),
            final(self).timers() == old(self).timers(),
            final(self).last_guid() == old(self).last_guid(),
            final(self).exit_requested() == old(self).exit_requested(),
    {
        let curguid: u64;
        match self.guidevtmaps.get(&evthd) {
            Some(v) => {
                curguid = *v;
            },
            None => {
                proof {
                    assert(self.guidevtmaps@.remove(evthd) == self.guidevtmaps@);
                }
                return 0;
            },
        }
        self.guidevtmaps.remove(&evthd);
        self.evtmaps.remove(&curguid);
        proof {
            assert forall|h: u64| #[trigger] self.guidevtmaps@.contains_key(h) implies {
                &&& self.evtmaps@.contains_key(self.guidevtmaps@[h])
                &&& self.evtmaps@[self.guidevtmaps@[h]].evthd == h
            } by {
                assert(old(self).guidevtmaps@.contains_key(h));
                assert(old(self).guidevtmaps@[h] != curguid);
            }
            assert forall|g: u64| #[trigger] self.evtmaps@.contains_key(g) implies {
                &&& self.guidevtmaps@.contains_key(self.evtmaps@[g].evthd)
                &&& self.guidevtmaps@[self.evtmaps@[g].evthd] == g
            } by {
                assert(old(self).evtmaps@.contains_key(g));
            }
        }
        1
    }

    /// The handle and event kinds registered under `guid`.
    pub fn event_entry(&self, guid: u64) -> (r: Option<EvtEntry>)
        ensures
            match r {
                Some(e) => self.events().contains_key(guid) && self.events()[guid] == e,
                None => !self.events().contains_key(guid),
            },
    {
        match self.evtmaps.get(&guid) {
            Some(e) => Some(*e),
            None => None,
        }
    }

    /// The timer registered under `guid`.
    pub fn timer_entry(&self, guid: u64) -> (r: Option<TimerEntry>)
        ensures
            match r {
                Some(t) => self.timers().contains_key(guid) && self.timers()[guid] == t,
                None => !self.timers().contains_key(guid),
            },
    {
        match self.timermaps.get(&guid) {
            Some(t) => Some(*t),
            None => None,
        }
    }

    /// All guids of registered handles, each once.
    pub fn get_event_guids(&self) -> (r: Vec<u64>)
        ensures
            r@.no_duplicates(),
            forall|g: u64| r@.contains(g) <==> self.events().contains_key(g),
    {
        map_keys(&self.evtmaps)
    }

    /// All guids of registered timers, each once.
    pub fn get_all_timer_guids(&self) -> (r: Vec<u64>)
        ensures
            r@.no_duplicates(),
            forall|g: u64| r@.contains(g) <==> self.timers().contains_key(g),
    {
        map_keys(&self.timermaps)
    }

    /// The guids of the timers that are due at tick `cticks`, each once.
    pub fn get_timer_guids(&self, cticks: u64) -> (r: Vec<u64>)
        ensures
            r@.no_duplicates(),
            forall|g: u64| r@.contains(g) <==> (self.timers().contains_key(g) && timer_expired(self.timers()[g], cticks)),
            spec_due(self.timers(), cticks, r@),
    {
        let mut r: Vec<u64> = Vec::new();
        for (k, v) in it: self.timermaps.iter()
            invariant
                it.seq().no_duplicates(),
                forall|i: int| 0 <= i < it.seq().len() ==> self.timermaps@.contains_key(*(#[trigger] it.seq()[i]).0) && self.timermaps@[*it.seq()[i].0] == *it.seq()[i].1,
                forall|g: u64| #[trigger] self.timermaps@.contains_key(g) ==> it.seq().contains((&g, &self.timermaps@[g])),
                r@.no_duplicates(),
                forall|g: u64| r@.contains(g) <==> (exists|i: int| 0 <= i < it.index() && *(#[trigger] it.seq()[i]).0 == g && timer_expired(*it.seq()[i].1, cticks)),
        {
            let ghost idx = it.index();
            assert(it.seq()[idx] == (k, v));
            proof {
                assert forall|j: int| 0 <= j < idx implies *it.seq()[j].0 != *k by {
                    if *it.seq()[j].0 == *k {
                        assert(it.seq()[j] == it.seq()[idx]);
                    }
                }
            }
            let ghost old_r = r@;
            let reti = time_left(v.startticks, cticks, v.interval);
            if reti < 0 {
                r.push(*k);
                proof {
                    assert(!old_r.contains(*k));
                    assert forall|i: int, j: int| 0 <= i < j < r@.len() implies r@[i] != r@[j] by {
                        if j == r@.len() - 1 {
                            assert(old_r.contains(r@[i]));
                        }
                    }
                }
            }
            proof {
                assert forall|g: u64| r@.contains(g) <==> (exists|i: int| 0 <= i < idx + 1 && *(#[trigger] it.seq()[i]).0 == g && timer_expired(*it.seq()[i].1, cticks)) by {
                    if old_r.contains(g) {
                        let w = choose|w: int| 0 <= w < old_r.len() && old_r[w] == g;
                        assert(r@[w] == g);
                        let i = choose|i: int| 0 <= i < idx && *(#[trigger] it.seq()[i]).0 == g && timer_expired(*it.seq()[i].1, cticks);
                        assert(0 <= i < idx + 1 && *it.seq()[i].0 == g);
                    }
                    if r@.contains(g) && !old_r.contains(g) {
                        let w = choose|w: int| 0 <= w < r@.len() && r@[w] == g;
                        if w < old_r.len() {
                            assert(old_r[w] == g);
                        }
                        assert(g == *k);
                        assert(*it.seq()[idx].0 == g);
                    }
                    if exists|i: int| 0 <= i < idx + 1 && *(#[trigger] it.seq()[i]).0 == g && timer_expired(*it.seq()[i].1, cticks) {
                        let i = choose|i: int| 0 <= i < idx + 1 && *(#[trigger] it.seq()[i]).0 == g && timer_expired(*it.seq()[i].1, cticks);
                        if i == idx {
                            assert(reti < 0);
                            assert(r@[r@.len() - 1] == g);
                        } else {
                            assert(old_r.contains(g));
                        }
                    }
                }
            }
        }
        r
    }

    /// How long the poller may wait at tick `cticks`: `1` when a timer is due,
    /// else the least time left of any timer, and at most `maxtime`.
    pub fn get_time(&self, maxtime: i32, cticks: u64) -> (r: i32)
        ensures
            (exists|g: u64| #[trigger] self.timers().contains_key(g) && timer_expired(self.timers()[g], cticks)) ==> r == 1,
            !(exists|g: u64| #[trigger] self.timers().contains_key(g) && timer_expired(self.timers()[g], cticks)) ==> {
                &&& r <= maxtime
                &&& forall|g: u64| #[trigger] self.timers().contains_key(g) ==> r <= spec_time_left(self.timers()[g].startticks, cticks, self.timers()[g].interval)
                &&& (r == maxtime || exists|g: u64| #[trigger] self.timers().contains_key(g) && r == spec_time_left(self.timers()[g].startticks, cticks, self.timers()[g].interval))
            },
            spec_wait(self.timers(), maxtime as int, cticks, r as int),
    {
        let mut retv: i32 = maxtime;
        for (k, v) in it: self.timermaps.iter()
            invariant
                it.seq().no_duplicates(),
                forall|i: int| 0 <= i < it.seq().len() ==> self.timermaps@.contains_key(*(#[trigger] it.seq()[i]).0) && self.timermaps@[*it.seq()[i].0] == *it.seq()[i].1,
                forall|g: u64| #[trigger] self.timermaps@.contains_key(g) ==> it.seq().contains((&g, &self.timermaps@[g])),
                forall|i: int| 0 <= i < it.index() ==> !timer_expired(*(#[trigger] it.seq()[i]).1, cticks),
                retv <= maxtime,
                forall|i: int| 0 <= i < it.index() ==> retv <= spec_time_left((#[trigger] it.seq()[i]).1.startticks, cticks, it.seq()[i].1.interval),
                retv == maxtime || exists|g: u64| #[trigger] self.timers().contains_key(g) && retv == spec_time_left(self.timers()[g].startticks, cticks, self.timers()[g].interval),
        {
            let ghost idx = it.index();
            assert(it.seq()[idx] == (k, v));
            let curi = time_left(v.startticks, cticks, v.interval);
            if curi < 0 {
                proof {
                    assert(self.timers().contains_key(*k) && timer_expired(self.timers()[*k], cticks));
                }
                return 1;
            }
            if curi < retv {
                retv = curi;
                proof {
                    assert(self.timers().contains_key(*k) && retv == spec_time_left(self.timers()[*k].startticks, cticks, self.timers()[*k].interval));
                }
            }
        }
        proof {
            assert forall|g: u64| #[trigger] self.timers().contains_key(g) implies !timer_expired(self.timers()[g], cticks)
                && retv <= spec_time_left(self.timers()[g].startticks, cticks, self.timers()[g].interval) by {
                assert(self.timermaps@.contains_key(g));
            }
        }
        retv
    }

    /// The wait of the poller at tick `cticks` as an unsigned count: `1` when a
    /// timer is due, else the least time left of any timer, and at most `maxtime`.
    pub fn get_timeout(&self, maxtime: u32, cticks: u64) -> (r: u32)
        ensures
            (exists|g: u64| #[trigger] self.timers().contains_key(g) && timer_expired(self.timers()[g], cticks)) ==> r == 1,
            !(exists|g: u64| #[trigger] self.timers().contains_key(g) && timer_expired(self.timers()[g], cticks)) ==> {
                &&& r <= maxtime
                &&& forall|g: u64| #[trigger] self.timers().contains_key(g) ==> r <= spec_time_left(self.timers()[g].startticks, cticks, self.timers()[g].interval)
                &&& (r == maxtime || exists|g: u64| #[trigger] self.timers().contains_key(g) && r == spec_time_left(self.timers()[g].startticks, cticks, self.timers()[g].interval))
            },
            spec_wait(self.timers(), maxtime as int, cticks, r as int),
    {
        let mut retv: u32 = maxtime;
        for (k, v) in it: self.timermaps.iter()
            invariant
                it.seq().no_duplicates(),
                forall|i: int| 0 <= i < it.seq().len() ==> self.timermaps@.contains_key(*(#[trigger] it.seq()[i]).0) && self.timermaps@[*it.seq()[i].0] == *it.seq()[i].1,
                forall|g: u64| #[trigger] self.timermaps@.contains_key(g) ==> it.seq().contains((&g, &self.timermaps@[g])),
                forall|i: int| 0 <= i < it.index() ==> !timer_expired(*(#[trigger] it.seq()[i]).1, cticks),
                retv <= maxtime,
                forall|i: int| 0 <= i < it.index() ==> retv <= spec_time_left((#[trigger] it.seq()[i]).1.startticks, cticks, it.seq()[i].1.interval),
                retv == maxtime || exists|g: u64| #[trigger] self.timers().contains_key(g) && retv == spec_time_left(self.timers()[g].startticks, cticks, self.timers()[g].interval),
        {
            let ghost idx = it.index();
            assert(it.seq()[idx] == (k, v));
            let reti = time_left(v.startticks, cticks, v.interval);
            if reti < 0 {
                proof {
                    assert(self.timers().contains_key(*k) && timer_expired(self.timers()[*k], cticks));
                }
                return 1;
            }
            if (reti as u32) < retv {
                retv = reti as u32;
                proof {
                    assert(self.timers().contains_key(*k) && retv == spec_time_left(self.timers()[*k].startticks, cticks, self.timers()[*k].interval));
                }
            }
        }
        proof {
            assert forall|g: u64| #[trigger] self.timers().contains_key(g) implies !timer_expired(self.timers()[g], cticks)
                && retv <= spec_time_left(self.timers()[g].startticks, cticks, self.timers()[g].interval) by {
                assert(self.timermaps@.contains_key(g));
            }
        }
        retv
    }

    /// Every registered handle with its guid, each handle once.
    pub fn get_handles(&self) -> (r: (Vec<u64>, Vec<u64>))
        ensures
            r.0@.len() == r.1@.len(),
            r.0@.no_duplicates(),
            forall|i: int| 0 <= i < r.0@.len() ==> self.handles().contains_key(#[trigger] r.0@[i]) && self.handles()[r.0@[i]] == r.1@[i],
            forall|h: u64| self.handles().contains_key(h) ==> r.0@.contains(h),
    {
        let rethdls = map_keys(&self.guidevtmaps);
        let mut retguids: Vec<u64> = Vec::new();
        let mut idx: usize = 0;
        while idx < rethdls.len()
            invariant
                idx <= rethdls@.len(),
                retguids@.len() == idx,
                forall|g: u64| rethdls@.contains(g) <==> self.guidevtmaps@.contains_key(g),
                forall|i: int| 0 <= i < idx ==> self.guidevtmaps@[rethdls@[i]] == #[trigger] retguids@[i],
            decreases rethdls@.len() - idx,
        {
            let h = rethdls[idx];
            assert(rethdls@.contains(h));
            let g = *self.guidevtmaps.get(&h).unwrap();
            retguids.push(g);
            idx += 1;
        }
        proof {
            assert forall|i: int| 0 <= i < rethdls@.len() implies self.handles().contains_key(#[trigger] rethdls@[i]) && self.handles()[rethdls@[i]] == retguids@[i] by {
                assert(rethdls@.contains(rethdls@[i]));
            }
        }
        (rethdls, retguids)
    }

    /// The guid and event kinds each readiness report is delivered as.
    pub fn get_evts_guids(&self, evts: &Vec<ReadyEvent>) -> (r: (Vec<u64>, Vec<u32>))
        ensures
            r.0@.len() == r.1@.len(),
            r.0@.len() == spec_ready_pairs(self.events(), self.handles(), evts@).len(),
            forall|i: int| 0 <= i < r.0@.len() ==> (#[trigger] r.0@[i], r.1@[i]) == spec_ready_pairs(self.events(), self.handles(), evts@)[i],
    {
        let mut retevguids: Vec<u64> = Vec::new();
        let mut retevtypes: Vec<u32> = Vec::new();
        let mut idx: usize = 0;
        while idx < evts.len()
            invariant
                idx <= evts@.len(),
                retevguids@.len() == retevtypes@.len(),
                retevguids@.len() == spec_ready_pairs(self.events(), self.handles(), evts@.take(idx as int)).len(),
                forall|i: int| 0 <= i < retevguids@.len() ==> (#[trigger] retevguids@[i], retevtypes@[i]) == spec_ready_pairs(self.events(), self.handles(), evts@.take(idx as int))[i],
            decreases evts@.len() - idx,
        {
            let e = evts[idx];
            proof {
                assert(evts@.take(idx + 1).drop_last() == evts@.take(idx as int));
                assert(evts@.take(idx + 1).last() == e);
            }
            match self.guidevtmaps.get(&e.id) {
                Some(v) => {
                    match self.evtmaps.get(v) {
                        Some(_ec) => {
                            let evttype = ready_type(&e);
                            retevguids.push(*v);
                            retevtypes.push(evttype);
                        },
                        None => {},
                    }
                },
                None => {},
            }
            idx += 1;
        }
        proof {
            assert(evts@.take(evts@.len() as int) == evts@);
        }
        (retevguids, retevtypes)
    }

    /// After timer `guid` fired: a one-shot timer is forgotten, a repeating
    /// timer that is still registered restarts at tick `cticks`.
    pub fn after_timer(&mut self, guid: u64, conti: bool, cticks: u64)
        requires
            old(self).wf(),
        ensures
            final(self).wf(),
            !conti ==> final(self).timers() == old(self).timers().remove(guid),
            conti && old(self).timers().contains_key(guid) ==> final(self).timers() == old(self).timers().insert(
                guid,
                TimerEntry { startticks: cticks, ..old(self).timers()[guid] },
            ),
            conti && !old(self).timers().contains_key(guid) ==> final(self).timers() == old(self).timers(),
            final(self).events() == old(self).events(),
            final(self).handles() == old(self).handles(),
            final(self).last_guid() == old(self).last_guid(),
            final(self).exit_requested() == old(self).exit_requested(),
    {
        if !conti {
            self.timermaps.remove(&guid);
        } else {
            match self.timermaps.get(&guid) {
                Some(cv) => {
                    let nv = TimerEntry { startticks: cticks, ..*cv };
                    self.timermaps.insert(guid, nv);
                },
                None => {},
            }
        }
    }

    /// Tells the loop to stop after the current round.
    pub fn break_up(&mut self) -> (r: Result<(), MainLoopError>)
        requires
            old(self).wf(),
        ensures
            final(self).wf(),
            r is Ok,
            final(self).exit_requested(),
            final(self).events() == old(self).events(),
            final(self).handles() == old(self).handles(),
            final(self).timers() == old(self).timers(),
            final(self).last_guid() == old(self).last_guid(),
    {
        self.exited = 1;
        Ok(())
    }

    /// The last guid handed out.
    pub fn get_guid(&self) -> (r: u64)
        ensures
            r == self.last_guid(),
    {
        self.guid
    }

    /// Whether the loop was told to stop.
    pub fn is_exited(&self) -> (r: bool)
        ensures
            r == self.exit_requested(),
    {
        self.exited != 0
    }

    /// Forgets every handle and timer and starts the guids and the stop flag afresh.
    pub fn close(&mut self)
        ensures
            final(self).wf(),
            final(self).events() == Map::<u64, EvtEntry>::empty(),
            final(self).handles() == Map::<u64, u64>::empty(),
            final(self).timers() == Map::<u64, TimerEntry>::empty(),
            final(self).last_guid() == 1,
            !final(self).exit_requested(),
    {
        self.evtmaps = HashMap::new();
        self.guidevtmaps = HashMap::new();
        self.timermaps = HashMap::new();
        self.guid = 1;
        self.exited = 0;
    }
}

/// Adding a timer and then removing the guid it was given (`remove_timer`
/// gives `1`) leaves the timers as they were, since the new guid is fresh;
/// a second `remove_timer` of that guid gives `0`.
pub proof fn law_timer_add_remove(m: EvtMain, t: TimerEntry)
    requires
        m.wf(),
        m.last_guid() < u64::MAX,
    ensures
        !m.timers().contains_key((m.last_guid() + 1) as u64),
        !m.events().contains_key((m.last_guid() + 1) as u64),
        m.timers().insert((m.last_guid() + 1) as u64, t).contains_key((m.last_guid() + 1) as u64),
        m.timers().insert((m.last_guid() + 1) as u64, t).remove((m.last_guid() + 1) as u64) == m.timers(),
        !m.timers().insert((m.last_guid() + 1) as u64, t).remove((m.last_guid() + 1) as u64).contains_key(
            (m.last_guid() + 1) as u64,
        ),
{
    let g = (m.last_guid() + 1) as u64;
    assert(m.timers().insert(g, t).remove(g) =~= m.timers());
}

/// Adding a handle that is not registered and then removing it twice:
/// `add_event` gives `Ok` with the next guid, the first `remove_event` gives
/// `1`, the second gives `0`, and the handle table and its index are as they
/// were before the add. (`add_event` needs a guid counter that is not full.)
pub proof fn law_event_add_remove(m: EvtMain, evthd: u64, evttype: u32)
    requires
        m.wf(),
        m.last_guid() < u64::MAX,
        !m.handles().contains_key(evthd),
    ensures
        ({
            let g = (m.last_guid() + 1) as u64;
            let events1 = m.events().insert(g, EvtEntry { evthd, evttype });
            let handles1 = m.handles().insert(evthd, g);
            let events2 = events1.remove(handles1[evthd]);
            let handles2 = handles1.remove(evthd);
            &&& spec_add_event_result(m.handles(), m.last_guid(), evthd) == Ok::<u64, MainLoopError>(g)
            &&& spec_remove_event_result(handles1, evthd) == 1
            &&& spec_remove_event_result(handles2, evthd) == 0
            &&& handles2.remove(evthd) == handles2
            &&& events2 == m.events()
            &&& handles2 == m.handles()
        }),
{
    let g = (m.last_guid() + 1) as u64;
    assert(!m.events().contains_key(g));
    assert(m.events().insert(g, EvtEntry { evthd, evttype }).remove(g) =~= m.events());
    assert(m.handles().insert(evthd, g).remove(evthd) =~= m.handles());
    assert(m.handles().insert(evthd, g).remove(evthd).remove(evthd) =~= m.handles().insert(evthd, g).remove(evthd));
}

/// A timer is due exactly once its interval has passed since it (re)started,
/// as long as its span does not cross the wrap of the tick counter.
pub proof fn law_timer_due_after_interval(t: TimerEntry, cticks: u64)
    requires
        t.interval >= 0,
        t.startticks + t.interval <= u64::MAX,
        cticks >= t.startticks,
    ensures
        timer_expired(t, cticks) <==> cticks >= t.startticks + t.interval,
{
    crate::timeop::law_time_left_plain(t.startticks, cticks, t.interval);
}

/// A timer is never reported due early: once `get_timer_guids` reports it, at
/// least its interval has passed since it (re)started, counting across the wrap
/// of the tick counter. For a timer whose span crosses the wrap, ticks 0 and
/// `MAX_U64_VAL` are left out: there it reads as due too soon.
pub proof fn law_timer_never_early(t: TimerEntry, cticks: u64)
    requires
        t.interval >= 0,
        t.startticks + t.interval > MAX_U64_VAL ==> cticks != 0 && cticks != MAX_U64_VAL,
    ensures
        timer_expired(t, cticks) ==> spec_elapsed(t.startticks, cticks) >= t.interval,
{
    crate::timeop::law_time_left_not_early(t.startticks, cticks, t.interval);
}

/// When `get_timer_guids` reports some timer due, the wait that `get_time`
/// (or `get_timeout`) gives at the same tick is `1`.
pub proof fn law_due_timer_short_wait(timers: Map<u64, TimerEntry>, maxtime: int, cticks: u64, due: Seq<u64>, r: int)
    requires
        spec_due(timers, cticks, due),
        due.len() > 0,
        spec_wait(timers, maxtime, cticks, r),
    ensures
        r == 1,
{
    let g = due[0];
    assert(due.contains(g));
    assert(timers.contains_key(g) && timer_expired(timers[g], cticks));
}

/// The wait that `get_time` (or `get_timeout`) gives never sleeps past the end
/// of a timer that is not yet due and whose span does not cross the wrap.
pub proof fn law_wait_not_past_deadline(timers: Map<u64, TimerEntry>, maxtime: int, cticks: u64, r: int)
    requires
        spec_wait(timers, maxtime, cticks, r),
    ensures
        forall|g: u64| #[trigger] timers.contains_key(g) && timers[g].interval >= 0 && timers[g].startticks
            + timers[g].interval <= MAX_U64_VAL && timers[g].startticks <= cticks && !timer_expired(timers[g], cticks)
            ==> cticks + r <= timers[g].startticks + timers[g].interval,
{
}

/// Readiness is only ever delivered under the guid of a registered handle,
/// and for the handle that the report was about.
pub proof fn law_ready_only_registered(m: EvtMain, evts: Seq<ReadyEvent>)
    requires
        m.wf(),
    ensures
        forall|i: int| 0 <= i < spec_ready_pairs(m.events(), m.handles(), evts).len() ==> {
            let g = #[trigger] spec_ready_pairs(m.events(), m.handles(), evts)[i].0;
            &&& m.events().contains_key(g)
            &&& exists|j: int| 0 <= j < evts.len() && evts[j].id == m.events()[g].evthd
        },
    decreases evts.len(),
{
    if evts.len() > 0 {
        law_ready_only_registered(m, evts.drop_last());
        let prev = spec_ready_pairs(m.events(), m.handles(), evts.drop_last());
        let cur = spec_ready_pairs(m.events(), m.handles(), evts);
        assert forall|i: int| 0 <= i < cur.len() implies {
            let g = #[trigger] cur[i].0;
            &&& m.events().contains_key(g)
            &&& exists|j: int| 0 <= j < evts.len() && evts[j].id == m.events()[g].evthd
        } by {
            if i < prev.len() {
                assert(cur[i] == prev[i]);
                let g = prev[i].0;
                let j = choose|j: int| 0 <= j < evts.drop_last().len() && evts.drop_last()[j].id == m.events()[g].evthd;
                assert(evts[j] == evts.drop_last()[j]);
            } else {
                let e = evts.last();
                assert(evts[evts.len() - 1] == e);
            }
        }
    }
}

/// Every readiness report for a registered handle, handle 0 included, is
/// delivered under that handle's guid with the kinds the report stands for.
pub proof fn law_ready_registered_delivered(m: EvtMain, evts: Seq<ReadyEvent>)
    requires
        m.wf(),
    ensures
        forall|j: int| 0 <= j < evts.len() && #[trigger] m.handles().contains_key(evts[j].id) ==>
            spec_ready_pairs(m.events(), m.handles(), evts).contains(
                (m.handles()[evts[j].id], spec_ready_type(evts[j])),
            ),
    decreases evts.len(),
{
    if evts.len() > 0 {
        let rest = evts.drop_last();
        law_ready_registered_delivered(m, rest);
        let prev = spec_ready_pairs(m.events(), m.handles(), rest);
        let cur = spec_ready_pairs(m.events(), m.handles(), evts);
        assert forall|j: int| 0 <= j < evts.len() && #[trigger] m.handles().contains_key(evts[j].id) implies
            cur.contains((m.handles()[evts[j].id], spec_ready_type(evts[j]))) by {
            let e = evts.last();
            let h = evts[j].id;
            assert(m.events().contains_key(m.handles()[h]));
            if j < evts.len() - 1 {
                assert(evts[j] == rest[j]);
                assert(m.handles().contains_key(rest[j].id));
                let w = choose|w: int| 0 <= w < prev.len() && prev[w] == (m.handles()[h], spec_ready_type(evts[j]));
                if m.handles().contains_key(e.id) && m.events().contains_key(m.handles()[e.id]) {
                    assert(cur[w] == prev[w]);
                } else {
                    assert(cur[w] == prev[w]);
                }
            } else {
                assert(evts[j] == e);
                assert(cur[cur.len() - 1] == (m.handles()[h], spec_ready_type(e)));
            }
        }
    }
}

/// What a handle is registered for is what its readiness reports come back
/// as: the read, write and error kinds survive the trip through the poller.
pub proof fn law_interest_roundtrip(evttype: u32, id: u64)
    ensures
        ({
            let i = spec_interest(evttype);
            spec_ready_type(ReadyEvent { id, readable: i.read, writable: i.write, errored: i.error })
                == evttype & (READ_EVENT | WRITE_EVENT | ERROR_EVENT)
        }),
{
    let t = evttype;
    assert(((if t & 1 != 0 { 1u32 } else { 0u32 }) | (if t & 2 != 0 { 2u32 } else { 0u32 }) | (if t & 4 != 0 { 4u32 } else { 0u32 })) == t & (1u32 | 2u32 | 4u32)) by (bit_vector);
}

/// Each requested kind turns on exactly its own poller flag: read for
/// `READ_EVENT`, write for `WRITE_EVENT`, error for `ERROR_EVENT`, and edge
/// triggering only when `ET_TRIGGER` is asked for (level triggering otherwise).
pub proof fn law_interest_kinds(evttype: u32)
    ensures
        spec_interest(evttype).read <==> (evttype & READ_EVENT) != 0,
        spec_interest(evttype).write <==> (evttype & WRITE_EVENT) != 0,
        spec_interest(evttype).error <==> (evttype & ERROR_EVENT) != 0,
        spec_interest(evttype).edge <==> (evttype & ET_TRIGGER) != 0,
        spec_interest(READ_EVENT) == (Interest { read: true, write: false, error: false, edge: false }),
        spec_interest(WRITE_EVENT) == (Interest { read: false, write: true, error: false, edge: false }),
        spec_interest(READ_EVENT | ET_TRIGGER) == (Interest { read: true, write: false, error: false, edge: true }),
{
    assert((1u32 & 1u32) != 0 && (1u32 & 2u32) == 0 && (1u32 & 4u32) == 0 && (1u32 & 0x80u32) == 0) by (bit_vector);
    assert((2u32 & 1u32) == 0 && (2u32 & 2u32) != 0 && (2u32 & 4u32) == 0 && (2u32 & 0x80u32) == 0) by (bit_vector);
    assert(((1u32 | 0x80u32) & 1u32) != 0 && ((1u32 | 0x80u32) & 2u32) == 0 && ((1u32 | 0x80u32) & 4u32) == 0
        && ((1u32 | 0x80u32) & 0x80u32) != 0) by (bit_vector);
}

/// A readiness report stands for exactly the kinds it reports: read when
/// readable, write when writable, error when errored, and no other bit.
pub proof fn law_ready_type_kinds(e: ReadyEvent)
    ensures
        (spec_ready_type(e) & READ_EVENT) != 0 <==> e.readable,
        (spec_ready_type(e) & WRITE_EVENT) != 0 <==> e.writable,
        (spec_ready_type(e) & ERROR_EVENT) != 0 <==> e.errored,
        spec_ready_type(e) & !(READ_EVENT | WRITE_EVENT | ERROR_EVENT) == 0,
{
    let a: u32 = if e.readable { 1u32 } else { 0u32 };
    let b: u32 = if e.writable { 2u32 } else { 0u32 };
    let c: u32 = if e.errored { 4u32 } else { 0u32 };
    assert(((a | b | c) & 1u32 != 0) == (a == 1u32) && ((a | b | c) & 2u32 != 0) == (b == 2u32) && ((a | b | c)
        & 4u32 != 0) == (c == 4u32) && (a | b | c) & !(1u32 | 2u32 | 4u32) == 0) by (bit_vector)
        requires
            a == 0u32 || a == 1u32,
            b == 0u32 || b == 2u32,
            c == 0u32 || c == 4u32,
    ;
}

/// Whether report `e` is for a registered handle.
pub open spec fn spec_registered(events: Map<u64, EvtEntry>, handles: Map<u64, u64>, e: ReadyEvent) -> bool {
    handles.contains_key(e.id) && events.contains_key(handles[e.id])
}

/// `ix` lists, in increasing order, the positions of exactly the reports in
/// `evts` that are for registered handles, and the `i`th delivery is the
/// `i`th listed report, under its handle's guid, with the kinds it reports.
pub open spec fn spec_delivers(
    events: Map<u64, EvtEntry>,
    handles: Map<u64, u64>,
    evts: Seq<ReadyEvent>,
    ix: Seq<int>,
) -> bool {
    &&& ix.len() == spec_ready_pairs(events, handles, evts).len()
    &&& forall|a: int, b: int| 0 <= a < b < ix.len() ==> #[trigger] ix[a] < #[trigger] ix[b]
    &&& forall|i: int| 0 <= i < ix.len() ==> 0 <= #[trigger] ix[i] < evts.len() && spec_registered(events, handles, evts[ix[i]])
        && spec_ready_pairs(events, handles, evts)[i] == (handles[evts[ix[i]].id], spec_ready_type(evts[ix[i]]))
    &&& forall|j: int| 0 <= j < evts.len() && spec_registered(events, handles, #[trigger] evts[j]) ==> ix.contains(j)
}

/// The deliveries are one per report of a registered handle, in report order:
/// some increasing list of report positions holds every report of a
/// registered handle and nothing else, and the deliveries are those reports,
/// one each, under their handles' guids with the kinds they report.
pub proof fn law_ready_one_per_report(events: Map<u64, EvtEntry>, handles: Map<u64, u64>, evts: Seq<ReadyEvent>)
    ensures
        exists|ix: Seq<int>| #[trigger] spec_delivers(events, handles, evts, ix),
{
    let ix = lemma_ready_indices(events, handles, evts);
    assert(spec_delivers(events, handles, evts, ix));
}

proof fn lemma_ready_indices(events: Map<u64, EvtEntry>, handles: Map<u64, u64>, evts: Seq<ReadyEvent>) -> (ix: Seq<int>)
    ensures
        ix.len() == spec_ready_pairs(events, handles, evts).len(),
        forall|a: int, b: int| 0 <= a < b < ix.len() ==> ix[a] < ix[b],
        forall|i: int| 0 <= i < ix.len() ==> 0 <= #[trigger] ix[i] < evts.len() && spec_registered(events, handles, evts[ix[i]])
            && spec_ready_pairs(events, handles, evts)[i] == (handles[evts[ix[i]].id], spec_ready_type(evts[ix[i]])),
        forall|j: int| 0 <= j < evts.len() && spec_registered(events, handles, #[trigger] evts[j]) ==> ix.contains(j),
    decreases evts.len(),
{
    if evts.len() == 0 {
        Seq::empty()
    } else {
        let rest = evts.drop_last();
        let prev = lemma_ready_indices(events, handles, rest);
        let last = evts.len() - 1;
        assert(evts[last] == evts.last());
        assert forall|i: int| 0 <= i < prev.len() implies evts[#[trigger] prev[i]] == rest[prev[i]] by {}
        if spec_registered(events, handles, evts.last()) {
            let ix = prev.push(last);
            assert forall|j: int| 0 <= j < evts.len() && spec_registered(events, handles, #[trigger] evts[j]) implies ix.contains(j) by {
                if j < last {
                    assert(rest[j] == evts[j]);
                    assert(prev.contains(j));
                    let w = choose|w: int| 0 <= w < prev.len() && prev[w] == j;
                    assert(ix[w] == j);
                } else {
                    assert(ix[ix.len() - 1] == j);
                }
            }
            ix
        } else {
            assert forall|j: int| 0 <= j < evts.len() && spec_registered(events, handles, #[trigger] evts[j]) implies prev.contains(j) by {
                if j < last {
                    assert(rest[j] == evts[j]);
                }
            }
            prev
        }
    }
}

/// The keys of `m`, each once, in the map's iteration order.
fn map_keys<V>(m: &HashMap<u64, V>) -> (r: Vec<u64>)
    ensures
        r@.no_duplicates(),
        forall|g: u64| r@.contains(g) <==> m@.contains_key(g),
{
    let mut r: Vec<u64> = Vec::new();
    for (k, v) in it: m.iter()
        invariant
            it.seq().no_duplicates(),
            forall|i: int| 0 <= i < it.seq().len() ==> m@.contains_key(*(#[trigger] it.seq()[i]).0) && m@[*it.seq()[i].0] == *it.seq()[i].1,
            forall|g: u64| #[trigger] m@.contains_key(g) ==> it.seq().contains((&g, &m@[g])),
            r@.no_duplicates(),
            forall|g: u64| r@.contains(g) <==> (exists|i: int| 0 <= i < it.index() && *(#[trigger] it.seq()[i]).0 == g),
    {
        let ghost idx = it.index();
        let ghost old_r = r@;
        assert(it.seq()[idx] == (k, v));
        proof {
            if old_r.contains(*k) {
                let i = choose|i: int| 0 <= i < idx && *(#[trigger] it.seq()[i]).0 == *k;
                assert(it.seq()[i] == it.seq()[idx]);
            }
        }
        r.push(*k);
        proof {
            assert forall|i: int, j: int| 0 <= i < j < r@.len() implies r@[i] != r@[j] by {
                if j == r@.len() - 1 {
                    assert(old_r.contains(r@[i]));
                }
            }
            assert forall|g: u64| r@.contains(g) <==> (exists|i: int| 0 <= i < idx + 1 && *(#[trigger] it.seq()[i]).0 == g) by {
                if old_r.contains(g) {
                    let w = choose|w: int| 0 <= w < old_r.len() && old_r[w] == g;
                    assert(r@[w] == g);
                }
                if r@.contains(g) && !old_r.contains(g) {
                    let w = choose|w: int| 0 <= w < r@.len() && r@[w] == g;
                    if w < old_r.len() {
                        assert(old_r[w] == g);
                    }
                    assert(*it.seq()[idx].0 == g);
                }
                if exists|i: int| 0 <= i < idx + 1 && *(#[trigger] it.seq()[i]).0 == g {
                    let i = choose|i: int| 0 <= i < idx + 1 && *(#[trigger] it.seq()[i]).0 == g;
                    if i == idx {
                        assert(r@[r@.len() - 1] == g);
                    } else {
                        assert(old_r.contains(g));
                    }
                }
            }
        }
    }
    r
}

} // verus!
