//! The tracer: an append-only, indented event log keyed by tick.

use crate::context::{RNodeState, StateModel};
use crate::rtree::RNodeId;
use vstd::prelude::*;

verus! {

/// One traced event.
#[derive(Debug, PartialEq)]
pub enum Event {
    /// A new tick began.
    NextTick,
    /// A node took a new state.
    NewState(RNodeId, RNodeState),
    /// A free-form message from a leaf or from the driver.
    Custom(String),
}

/// The model of an event.
#[verifier::ext_equal]
pub enum EventModel {
    NextTick,
    NewState(RNodeId, StateModel),
    Custom(Seq<char>),
}

impl View for Event {
    type V = EventModel;

    open spec fn view(&self) -> EventModel {
        match self {
            Event::NextTick => EventModel::NextTick,
            Event::NewState(id, st) => EventModel::NewState(*id, st@),
            Event::Custom(v) => EventModel::Custom(v@),
        }
    }
}

impl Clone for Event {
    fn clone(&self) -> (r: Self)
        ensures
            r@ == self@,
    {
        match self {
            Event::NextTick => Event::NextTick,
            Event::NewState(id, st) => Event::NewState(*id, st.clone()),
            Event::Custom(v) => Event::Custom(v.clone()),
        }
    }
}

/// One record of the log: the tick, the indent at emission, the event.
#[derive(Debug, PartialEq)]
pub struct TraceRecord {
    pub ts: usize,
    pub indent: usize,
    pub ev: Event,
}

/// The model of one record.
#[verifier::ext_equal]
pub struct RecordModel {
    pub ts: usize,
    pub indent: usize,
    pub ev: EventModel,
}

impl View for TraceRecord {
    type V = RecordModel;

    open spec fn view(&self) -> RecordModel {
        RecordModel { ts: self.ts, indent: self.indent, ev: self.ev@ }
    }
}

impl Clone for TraceRecord {
    fn clone(&self) -> (r: Self)
        ensures
            r@ == self@,
    {
        TraceRecord { ts: self.ts, indent: self.indent, ev: self.ev.clone() }
    }
}

/// The append-only log. Events appear in emission order; the indent tracks
/// the `right`/`left` pairs of the tree walk.
#[derive(Debug)]
pub struct Tracer {
    pub events: Vec<TraceRecord>,
    pub indent: usize,
}

/// The model of the whole log.
pub open spec fn log_of(v: Seq<TraceRecord>) -> Seq<RecordModel> {
    v.map_values(|r: TraceRecord| r@)
}

impl View for Tracer {
    type V = Seq<RecordModel>;

    open spec fn view(&self) -> Seq<RecordModel> {
        log_of(self.events@)
    }
}

impl Tracer {
    /// An empty log at indent zero.
    pub fn new() -> (r: Tracer)
        ensures
            r@ == Seq::<RecordModel>::empty(),
            r.indent == 0,
    {
        let r = Tracer { events: Vec::new(), indent: 0 };
        proof {
            assert(r@ =~= Seq::<RecordModel>::empty());
        }
        r
    }

    /// Append one event under the current tick and indent.
    pub fn trace(&mut self, ts: usize, ev: Event)
        ensures
            final(self)@ == old(self)@.push(
                RecordModel { ts, indent: old(self).indent, ev: ev@ },
            ),
            final(self).indent == old(self).indent,
    {
        let ghost evm = ev@;
        self.events.push(TraceRecord { ts, indent: self.indent, ev });
        proof {
            assert(self@ =~= old(self)@.push(
                RecordModel { ts, indent: old(self).indent, ev: evm },
            ));
        }
    }

    /// Step one level deeper.
    pub fn right(&mut self)
        ensures
            final(self)@ == old(self)@,
            final(self).indent == if old(self).indent < usize::MAX {
                old(self).indent + 1
            } else {
                old(self).indent as int
            },
    {
        if self.indent < usize::MAX {
            self.indent = self.indent + 1;
        }
    }

    /// Step one level back out.
    pub fn left(&mut self)
        ensures
            final(self)@ == old(self)@,
            final(self).indent == if old(self).indent > 0 {
                (old(self).indent - 1) as usize
            } else {
                0
            },
    {
        if self.indent > 0 {
            self.indent = self.indent - 1;
        }
    }

    /// How many events were traced.
    pub fn len(&self) -> (r: usize)
        ensures
            r == self@.len(),
    {
        self.events.len()
    }
}

/// The records of a log appear in non-decreasing tick order.
pub open spec fn trace_ticks_sorted(t: Seq<RecordModel>) -> bool {
    forall|i: int, j: int| 0 <= i <= j < t.len() ==> #[trigger] t[i].ts <= #[trigger] t[j].ts
}

/// No record of a log lies past the given tick.
pub open spec fn trace_bounded(t: Seq<RecordModel>, ts: usize) -> bool {
    forall|i: int| 0 <= i < t.len() ==> #[trigger] t[i].ts <= ts
}

/// Appending a record at the current tick keeps the log sorted and
/// bounded.
pub proof fn lemma_trace_push(t: Seq<RecordModel>, r: RecordModel, ts: usize)
    requires
        trace_ticks_sorted(t),
        trace_bounded(t, ts),
        r.ts == ts,
    ensures
        trace_ticks_sorted(t.push(r)),
        trace_bounded(t.push(r), ts),
{
    assert forall|i: int, j: int| 0 <= i <= j < t.push(r).len() implies #[trigger] t.push(r)[i].ts
        <= #[trigger] t.push(r)[j].ts by {
        if j < t.len() {
        } else {
            assert(t.push(r)[j] == r);
        }
    }
}

/// A log extended only with records at the bounding tick stays sorted and
/// bounded.
pub proof fn lemma_trace_extend(t0: Seq<RecordModel>, t1: Seq<RecordModel>, ts: usize)
    requires
        trace_ticks_sorted(t0),
        trace_bounded(t0, ts),
        t1.len() >= t0.len(),
        forall|i: int| 0 <= i < t0.len() ==> t1[i] == t0[i],
        forall|i: int| t0.len() <= i < t1.len() ==> #[trigger] t1[i].ts == ts,
    ensures
        trace_ticks_sorted(t1),
        trace_bounded(t1, ts),
{
    assert forall|i: int| 0 <= i < t1.len() implies #[trigger] t1[i].ts <= ts by {
        if i < t0.len() {
            assert(t1[i] == t0[i]);
        }
    }
    assert forall|i: int, j: int| 0 <= i <= j < t1.len() implies #[trigger] t1[i].ts
        <= #[trigger] t1[j].ts by {
        if j < t0.len() {
            assert(t1[i] == t0[i] && t1[j] == t0[j]);
        } else {
            assert(t1[j].ts == ts);
        }
    }
}

/// A sorted log bounded by one tick is bounded by any later tick.
pub proof fn lemma_trace_bound_weaken(t: Seq<RecordModel>, ts: usize, later: usize)
    requires
        trace_bounded(t, ts),
        ts <= later,
    ensures
        trace_bounded(t, later),
{
}

impl Clone for Tracer {
    fn clone(&self) -> (r: Self)
        ensures
            r@ == self@,
            r.indent == self.indent,
    {
        let mut events: Vec<TraceRecord> = Vec::new();
        let mut i: usize = 0;
        while i < self.events.len()
            invariant
                i <= self.events@.len(),
                events@.len() == i as nat,
                forall|j: int| 0 <= j < i ==> events@[j]@ == self.events@[j]@,
            decreases self.events@.len() - i,
        {
            events.push(self.events[i].clone());
            i = i + 1;
        }
        let r = Tracer { events, indent: self.indent };
        proof {
            assert(r@ =~= self@);
        }
        r
    }
}

} // verus!
