use vstd::prelude::*;
use crate::event::{is_call_kind, sentinel, sentinel_path, Event, EventKind};
use crate::timing::Timed;

verus! {

/// The process-wide timeline: an `Init` marker followed by one event per
/// completed intercepted call, in the order the calls completed. Entries are
/// only ever appended.
pub struct EventStore {
    events: Vec<Event>,
}

/// `e` is the lifecycle marker of kind `kind`.
pub open spec fn is_sentinel(e: Event, kind: EventKind) -> bool {
    e.event_type == kind && e.path@ == sentinel_path() && e.fd == 0
}

/// A finished timeline: `Init` first, `Fini` last, intercepted calls between.
pub open spec fn is_finished_timeline(s: Seq<Event>) -> bool {
    &&& s.len() >= 2
    &&& is_sentinel(s[0], EventKind::Init)
    &&& is_sentinel(s.last(), EventKind::Fini)
    &&& forall|i: int| 1 <= i < s.len() - 1 ==> is_call_kind(#[trigger] s[i].event_type)
}

impl View for EventStore {
    type V = Seq<Event>;

    closed spec fn view(&self) -> Seq<Event> {
        self.events@
    }
}

impl EventStore {
    /// The `Init` marker comes first and every later entry is a call.
    pub open spec fn wf(&self) -> bool {
        &&& self@.len() >= 1
        &&& is_sentinel(self@[0], EventKind::Init)
        &&& forall|i: int| 1 <= i < self@.len() ==> is_call_kind(#[trigger] self@[i].event_type)
    }

    /// Number of intercepted calls recorded so far.
    pub open spec fn call_count(&self) -> nat {
        (self@.len() - 1) as nat
    }

    /// Opens the timeline with the `Init` marker stamped `stamp`.
    pub fn new(stamp: u64) -> (r: Self)
        ensures
            r.wf(),
            r@.len() == 1,
            r@[0].duration == stamp,
            r.call_count() == 0,
    {
        let mut events: Vec<Event> = Vec::new();
        events.push(sentinel(EventKind::Init, stamp));
        EventStore { events }
    }

    /// Number of entries, the `Init` marker included.
    pub fn len(&self) -> (r: usize)
        ensures
            r == self@.len(),
    {
        self.events.len()
    }

    /// Completes an intercepted `open` of `path`. With no outcome the real
    /// call could not be resolved: nothing is recorded and the failure value
    /// -1 comes back. Otherwise the outcome's descriptor is recorded with its
    /// duration and returned unchanged.
    pub fn record_open(&mut self, path: Vec<u8>, outcome: Option<Timed>) -> (r: i32)
        requires
            old(self).wf(),
        ensures
            final(self).wf(),
            outcome is None ==> r == -1 && final(self)@ == old(self)@,
            outcome matches Some(o) ==> {
                &&& r == o.ret
                &&& final(self)@ == old(self)@.push(
                    Event { path, event_type: EventKind::Open, duration: o.nanos, fd: o.ret },
                )
            },
    {
        match outcome {
            None => -1,
            Some(t) => {
                self.events.push(Event { path, event_type: EventKind::Open, duration: t.nanos, fd: t.ret });
                t.ret
            },
        }
    }

    /// Completes an intercepted `close` of `fd`. With no outcome the real
    /// call could not be resolved: nothing is recorded and -1 comes back.
    /// Otherwise the closed descriptor is recorded with the duration, and the
    /// real call's status is returned unchanged.
    pub fn record_close(&mut self, fd: i32, outcome: Option<Timed>) -> (r: i32)
        requires
            old(self).wf(),
        ensures
            final(self).wf(),
            outcome is None ==> r == -1 && final(self)@ == old(self)@,
            outcome matches Some(o) ==> {
                &&& r == o.ret
                &&& final(self)@.len() == old(self)@.len() + 1
                &&& final(self)@.drop_last() == old(self)@
                &&& final(self)@.last().path@.len() == 0
                &&& final(self)@.last().event_type == EventKind::Close
                &&& final(self)@.last().duration == o.nanos
                &&& final(self)@.last().fd == fd
            },
    {
        match outcome {
            None => -1,
            Some(t) => {
                let path: Vec<u8> = Vec::new();
                self.events.push(Event { path, event_type: EventKind::Close, duration: t.nanos, fd });
                proof {
                    assert(self@.drop_last() =~= old(self)@);
                }
                t.ret
            },
        }
    }

    /// Closes the timeline with the `Fini` marker stamped `stamp` and hands
    /// out every entry in append order.
    pub fn finish(self, stamp: u64) -> (r: Vec<Event>)
        requires
            self.wf(),
        ensures
            is_finished_timeline(r@),
            r@.len() == self.call_count() + 2,
            r@.drop_last() == self@,
            r@.last().duration == stamp,
    {
        let mut events = self.events;
        events.push(sentinel(EventKind::Fini, stamp));
        proof {
            assert(events@.drop_last() =~= self@);
        }
        events
    }
}

} // verus!
