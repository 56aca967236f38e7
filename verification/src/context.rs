//! The per-run context of the tick engine: per-node latest state, per-node
//! last-touched tick, the explicit call stack, the current tick and the
//! tick limit.

use crate::blackboard::Blackboard;
use crate::flow::REASON;
use crate::rtargs::{find_in, ArgEntry, RtArgs, RtValue, ValueModel};
use crate::rtree::RNodeId;
use crate::runtime::{
    dec_seq, usize_text, ErrModel, RtEnvRef, RtOk, RtResult, RuntimeError, TickModel, TickResult,
};
use crate::tracer::{Event, EventModel, RecordModel, Tracer};
use std::collections::HashMap;
use vstd::prelude::*;

verus! {

broadcast use vstd::std_specs::hash::group_hash_axioms;

/// The number of a tick; the first tick is 1.
pub type Timestamp = usize;

/// The current state of a node, carrying the node's memory between ticks.
#[derive(Debug, PartialEq)]
pub enum RNodeState {
    Ready(RtArgs),
    Running(RtArgs),
    Success(RtArgs),
    Failure(RtArgs),
}

/// The model of a node state.
#[verifier::ext_equal]
pub enum StateModel {
    Ready(Seq<ArgEntry>),
    Running(Seq<ArgEntry>),
    Success(Seq<ArgEntry>),
    Failure(Seq<ArgEntry>),
}

impl View for RNodeState {
    type V = StateModel;

    open spec fn view(&self) -> StateModel {
        match self {
            RNodeState::Ready(a) => StateModel::Ready(a@),
            RNodeState::Running(a) => StateModel::Running(a@),
            RNodeState::Success(a) => StateModel::Success(a@),
            RNodeState::Failure(a) => StateModel::Failure(a@),
        }
    }
}

impl Clone for RNodeState {
    fn clone(&self) -> (r: Self)
        ensures
            r@ == self@,
    {
        match self {
            RNodeState::Ready(a) => RNodeState::Ready(a.clone()),
            RNodeState::Running(a) => RNodeState::Running(a.clone()),
            RNodeState::Success(a) => RNodeState::Success(a.clone()),
            RNodeState::Failure(a) => RNodeState::Failure(a.clone()),
        }
    }
}

/// The memory carried by a state.
pub open spec fn args_of_model(m: StateModel) -> Seq<ArgEntry> {
    match m {
        StateModel::Ready(a) => a,
        StateModel::Running(a) => a,
        StateModel::Success(a) => a,
        StateModel::Failure(a) => a,
    }
}

/// The failure reason held by a state's memory, or the empty string.
pub open spec fn reason_or_empty(s: Seq<ArgEntry>) -> Seq<char> {
    match find_in(s, "reason"@) {
        Some(ValueModel::Str(v)) => v,
        _ => Seq::empty(),
    }
}

/// How a leaf outcome becomes a node state: a failure stamps its reason
/// into the memory.
pub open spec fn state_from(a: Seq<ArgEntry>, m: TickModel) -> StateModel {
    match m {
        TickModel::Success => StateModel::Success(a),
        TickModel::Failure(v) => StateModel::Failure(
            crate::rtargs::with_in(a, "reason"@, ValueModel::Str(v)),
        ),
        TickModel::Running => StateModel::Running(a),
    }
}

impl RNodeState {
    /// Wrap a leaf outcome into a node state over the given memory.
    pub fn from(tick_args: RtArgs, res: TickResult) -> (r: RNodeState)
        ensures
            r@ == state_from(tick_args@, res@),
    {
        match res {
            TickResult::Success => RNodeState::Success(tick_args),
            TickResult::Failure(v) => RNodeState::Failure(
                tick_args.with(REASON, RtValue::of_str(v)),
            ),
            TickResult::Running => RNodeState::Running(tick_args),
        }
    }

    /// Translate a state into a public tick result; a `Ready` state is
    /// unexpected here.
    pub fn to_tick_result(&self) -> (r: RtResult<TickResult>)
        ensures
            match self@ {
                StateModel::Ready(_) => r matches Err(e) && e@ matches ErrModel::Uex(_),
                StateModel::Running(_) => r matches Ok(t) && t@ == TickModel::Running,
                StateModel::Success(_) => r matches Ok(t) && t@ == TickModel::Success,
                StateModel::Failure(s) => r matches Ok(t) && t@ == TickModel::Failure(
                    reason_or_empty(s),
                ),
            },
    {
        match self {
            RNodeState::Ready(_) => Err(
                RuntimeError::uex("the ready is the unexpected state".to_owned()),
            ),
            RNodeState::Running(_) => Ok(TickResult::running()),
            RNodeState::Success(_) => Ok(TickResult::success()),
            RNodeState::Failure(args) => {
                let reason = match args.find(REASON) {
                    Some(v) => match v.as_string() {
                        Some(s) => s,
                        None => String::new(),
                    },
                    None => String::new(),
                };
                Ok(TickResult::Failure(reason))
            },
        }
    }

    pub fn is_running(&self) -> (r: bool)
        ensures
            r == (self@ matches StateModel::Running(_)),
    {
        match self {
            RNodeState::Running(_) => true,
            _ => false,
        }
    }

    pub fn is_ready(&self) -> (r: bool)
        ensures
            r == (self@ matches StateModel::Ready(_)),
    {
        match self {
            RNodeState::Ready(_) => true,
            _ => false,
        }
    }

    pub fn is_finished(&self) -> (r: bool)
        ensures
            r == (self@ matches StateModel::Success(_) || self@ matches StateModel::Failure(_)),
    {
        match self {
            RNodeState::Success(_) => true,
            RNodeState::Failure(_) => true,
            _ => false,
        }
    }

    /// The memory carried by this state.
    pub fn args(&self) -> (r: RtArgs)
        ensures
            r@ == args_of_model(self@),
    {
        match self {
            RNodeState::Ready(a) => a.clone(),
            RNodeState::Running(a) => a.clone(),
            RNodeState::Success(a) => a.clone(),
            RNodeState::Failure(a) => a.clone(),
        }
    }
}

/// The per-run mutable state of the tick engine.
#[derive(Debug)]
pub struct TreeContext {
    /// The shared keyed store.
    pub bb: Blackboard,
    /// The event log.
    pub tracer: Tracer,
    /// The explicit call stack; the top is the current node.
    pub stack: Vec<RNodeId>,
    /// The latest state of each touched node.
    pub state: HashMap<RNodeId, RNodeState>,
    /// The tick on which each node's state was last written.
    pub ts_map: HashMap<RNodeId, Timestamp>,
    /// The current tick, starting at 1.
    pub curr_ts: Timestamp,
    /// The maximal number of ticks; 0 means unbounded.
    pub tick_limit: Timestamp,
    /// The runtime environment handed to leaves.
    pub rt_env: RtEnvRef,
}

impl TreeContext {
    /// The latest observed state of `id`; an untouched node is `Ready`
    /// with empty memory.
    pub open spec fn spec_last_set(&self, id: RNodeId) -> StateModel {
        if self.state@.contains_key(id) {
            self.state@[id]@
        } else {
            StateModel::Ready(Seq::empty())
        }
    }

    /// Whether `id` was touched on the current tick.
    pub open spec fn spec_is_curr_ts(&self, id: RNodeId) -> bool {
        self.ts_map@.contains_key(id) && self.ts_map@[id] == self.curr_ts
    }

    /// The state of `id` as seen in the current tick: a node untouched this
    /// tick is seen `Ready`, keeping its memory.
    pub open spec fn spec_in_ts(&self, id: RNodeId) -> StateModel {
        if self.spec_is_curr_ts(id) {
            self.spec_last_set(id)
        } else {
            StateModel::Ready(args_of_model(self.spec_last_set(id)))
        }
    }

    pub fn new(bb: Blackboard, tracer: Tracer, tick_limit: Timestamp, rt_env: RtEnvRef) -> (r:
        TreeContext)
        ensures
            r.bb == bb,
            r.tracer == tracer,
            r.stack@ == Seq::<RNodeId>::empty(),
            r.state@ == Map::<RNodeId, RNodeState>::empty(),
            r.ts_map@ == Map::<RNodeId, Timestamp>::empty(),
            r.curr_ts == 1,
            r.tick_limit == tick_limit,
            r.rt_env == rt_env,
    {
        TreeContext {
            bb,
            tracer,
            stack: Vec::new(),
            state: HashMap::new(),
            ts_map: HashMap::new(),
            curr_ts: 1,
            tick_limit,
            rt_env,
        }
    }

    /// The whole state map, for inspection.
    pub fn state(&self) -> (r: &HashMap<RNodeId, RNodeState>)
        ensures
            r == &self.state,
    {
        &self.state
    }

    /// The shared store, for reads and writes.
    pub fn bb(&mut self) -> (r: &mut Blackboard)
        ensures
            *r == old(self).bb,
            *final(self) == (TreeContext { bb: *final(r), ..*old(self) }),
    {
        &mut self.bb
    }

    /// The event log, for reads and writes.
    pub fn tracer(&mut self) -> (r: &mut Tracer)
        ensures
            *r == old(self).tracer,
            *final(self) == (TreeContext { tracer: *final(r), ..*old(self) }),
    {
        &mut self.tracer
    }

    /// Append one event under the current tick.
    pub fn trace(&mut self, ev: Event) -> (r: RtOk)
        ensures
            r is Ok,
            final(self).tracer@ == old(self).tracer@.push(
                RecordModel { ts: old(self).curr_ts, indent: old(self).tracer.indent, ev: ev@ },
            ),
            final(self).tracer.indent == old(self).tracer.indent,
            *final(self) == (TreeContext { tracer: final(self).tracer, ..*old(self) }),
    {
        self.tracer.trace(self.curr_ts, ev);
        Ok(())
    }

    /// Advance to the next tick; fail with `Stopped` when the tick limit is
    /// hit.
    pub fn next_tick(&mut self) -> (r: RtOk)
        requires
            old(self).curr_ts < usize::MAX,
        ensures
            final(self).curr_ts == old(self).curr_ts + 1,
            final(self).tracer@ == old(self).tracer@.push(
                RecordModel {
                    ts: (old(self).curr_ts + 1) as usize,
                    indent: old(self).tracer.indent,
                    ev: EventModel::NextTick,
                },
            ),
            final(self).tracer.indent == old(self).tracer.indent,
            *final(self) == (TreeContext {
                curr_ts: final(self).curr_ts,
                tracer: final(self).tracer,
                ..*old(self)
            }),
            (r is Err) == (old(self).tick_limit != 0 && old(self).curr_ts + 1
                >= old(self).tick_limit),
            r matches Err(e) ==> e@ == ErrModel::Stopped(
                "the limit of ticks is exceeded on "@ + dec_seq((old(self).curr_ts + 1) as nat),
            ),
    {
        self.curr_ts = self.curr_ts + 1;
        let _ = self.trace(Event::NextTick);
        if self.tick_limit != 0 && self.curr_ts >= self.tick_limit {
            let mut msg = "the limit of ticks is exceeded on ".to_owned();
            msg.append(usize_text(self.curr_ts).as_str());
            Err(RuntimeError::Stopped(msg))
        } else {
            Ok(())
        }
    }

    /// The public result of the root node; an absent or `Ready` root is
    /// unexpected.
    pub fn root_state(&self, root: RNodeId) -> (r: RtResult<TickResult>)
        ensures
            !self.state@.contains_key(root) ==> (r matches Err(e) && e@ matches ErrModel::Uex(
                _,
            )),
            self.state@.contains_key(root) ==> match self.spec_last_set(root) {
                StateModel::Ready(_) => r matches Err(e) && e@ matches ErrModel::Uex(_),
                StateModel::Running(_) => r matches Ok(t) && t@ == TickModel::Running,
                StateModel::Success(_) => r matches Ok(t) && t@ == TickModel::Success,
                StateModel::Failure(s) => r matches Ok(t) && t@ == TickModel::Failure(
                    reason_or_empty(s),
                ),
            },
    {
        match self.state.get(&root) {
            None => Err(RuntimeError::uex("the root node is absent".to_owned())),
            Some(st) => st.to_tick_result(),
        }
    }

    /// Whether `id` was touched on the current tick.
    pub fn is_curr_ts(&self, id: &RNodeId) -> (r: bool)
        ensures
            r == self.spec_is_curr_ts(*id),
    {
        match self.ts_map.get(id) {
            Some(ts) => *ts == self.curr_ts,
            None => false,
        }
    }

    /// The current tick.
    pub fn curr_ts(&self) -> (r: Timestamp)
        ensures
            r == self.curr_ts,
    {
        self.curr_ts
    }

    /// Push a node onto the stack, stepping the trace one level deeper.
    pub fn push(&mut self, id: RNodeId) -> (r: RtOk)
        ensures
            r is Ok,
            final(self).stack@ == old(self).stack@.push(id),
            final(self).tracer@ == old(self).tracer@,
            final(self).tracer.indent == if old(self).tracer.indent < usize::MAX {
                old(self).tracer.indent + 1
            } else {
                old(self).tracer.indent as int
            },
            *final(self) == (TreeContext {
                stack: final(self).stack,
                tracer: final(self).tracer,
                ..*old(self)
            }),
    {
        self.tracer.right();
        self.stack.push(id);
        Ok(())
    }

    /// Pop the top of the stack, stepping the trace one level back out.
    pub fn pop(&mut self) -> (r: RtResult<Option<RNodeId>>)
        ensures
            r matches Ok(o) && o == (if old(self).stack@.len() > 0 {
                Some(old(self).stack@.last())
            } else {
                None::<RNodeId>
            }),
            final(self).stack@ == (if old(self).stack@.len() > 0 {
                old(self).stack@.drop_last()
            } else {
                old(self).stack@
            }),
            final(self).tracer@ == old(self).tracer@,
            final(self).tracer.indent == if old(self).tracer.indent > 0 {
                (old(self).tracer.indent - 1) as usize
            } else {
                0
            },
            *final(self) == (TreeContext {
                stack: final(self).stack,
                tracer: final(self).tracer,
                ..*old(self)
            }),
    {
        let pop_node = self.stack.pop();
        self.tracer.left();
        Ok(pop_node)
    }

    /// The top of the stack, without removing it.
    pub fn peek(&self) -> (r: RtResult<Option<RNodeId>>)
        ensures
            r matches Ok(o) && o == (if self.stack@.len() > 0 {
                Some(self.stack@.last())
            } else {
                None::<RNodeId>
            }),
    {
        if self.stack.len() == 0 {
            Ok(None)
        } else {
            Ok(Some(self.stack[self.stack.len() - 1]))
        }
    }

    /// Record a new state for `id` under the current tick, tracing it.
    pub fn new_state(&mut self, id: RNodeId, state: RNodeState) -> (r: RtResult<
        Option<RNodeState>,
    >)
        ensures
            r matches Ok(prev) && prev == (if old(self).state@.contains_key(id) {
                Some(old(self).state@[id])
            } else {
                None::<RNodeState>
            }),
            final(self).state@ == old(self).state@.insert(id, state),
            final(self).ts_map@ == old(self).ts_map@.insert(id, old(self).curr_ts),
            final(self).tracer@ == old(self).tracer@.push(
                RecordModel {
                    ts: old(self).curr_ts,
                    indent: old(self).tracer.indent,
                    ev: EventModel::NewState(id, state@),
                },
            ),
            final(self).tracer.indent == old(self).tracer.indent,
            *final(self) == (TreeContext {
                state: final(self).state,
                ts_map: final(self).ts_map,
                tracer: final(self).tracer,
                ..*old(self)
            }),
    {
        self.ts_map.insert(id, self.curr_ts);
        let _ = self.trace(Event::NewState(id, state.clone()));
        let prev = self.state.insert(id, state);
        Ok(prev)
    }

    /// The latest observed state of `id`; an untouched node is `Ready` with
    /// empty memory.
    pub fn state_last_set(&self, id: &RNodeId) -> (r: RNodeState)
        ensures
            r@ == self.spec_last_set(*id),
    {
        match self.state.get(id) {
            Some(st) => st.clone(),
            None => RNodeState::Ready(RtArgs::new()),
        }
    }

    /// The state of `id` as seen in the current tick: a node untouched this
    /// tick is seen `Ready` carrying its memory, so transient status is
    /// dropped while memory survives.
    pub fn state_in_ts(&self, id: &RNodeId) -> (r: RNodeState)
        ensures
            r@ == self.spec_in_ts(*id),
            r@ matches StateModel::Ready(_) ==> !self.spec_is_curr_ts(*id) || self.spec_last_set(
                *id,
            ) matches StateModel::Ready(_),
    {
        let actual_state = self.state_last_set(id);
        if self.is_curr_ts(id) {
            actual_state
        } else {
            RNodeState::Ready(actual_state.args())
        }
    }
}

/// The read-biased handle handed to leaves: a snapshot of the shared
/// services and of the current tick. The driver folds the snapshot's
/// blackboard and tracer back into the context after the leaf call.
#[derive(Debug)]
pub struct TreeContextRef {
    pub bb: Blackboard,
    pub tracer: Tracer,
    pub curr_ts: Timestamp,
    pub env: RtEnvRef,
}

impl TreeContextRef {
    /// A snapshot of the context for one leaf call.
    pub fn from_ctx(ctx: &TreeContext) -> (r: TreeContextRef)
        ensures
            r.bb.map_view() == ctx.bb.map_view(),
            r.bb.spec_rev() == ctx.bb.spec_rev(),
            r.tracer@ == ctx.tracer@,
            r.tracer.indent == ctx.tracer.indent,
            r.curr_ts == ctx.curr_ts,
            r.env == ctx.rt_env,
    {
        TreeContextRef {
            bb: ctx.bb.clone(),
            tracer: ctx.tracer.clone(),
            curr_ts: ctx.curr_ts,
            env: ctx.rt_env,
        }
    }

    pub fn new(bb: Blackboard, tracer: Tracer, curr_ts: Timestamp, env: RtEnvRef) -> (r:
        TreeContextRef)
        ensures
            r.bb == bb,
            r.tracer == tracer,
            r.curr_ts == curr_ts,
            r.env == env,
    {
        TreeContextRef { bb, tracer, curr_ts, env }
    }

    /// A copy of the tracer snapshot.
    pub fn tracer(&self) -> (r: Tracer)
        ensures
            r@ == self.tracer@,
            r.indent == self.tracer.indent,
    {
        self.tracer.clone()
    }

    /// A copy of the blackboard snapshot.
    pub fn bb(&self) -> (r: Blackboard)
        ensures
            r.map_view() == self.bb.map_view(),
            r.spec_rev() == self.bb.spec_rev(),
    {
        self.bb.clone()
    }

    /// Trace a free-form message under the current tick.
    pub fn trace(&mut self, ev: String) -> (r: RtOk)
        ensures
            r is Ok,
            final(self).tracer@ == old(self).tracer@.push(
                RecordModel {
                    ts: old(self).curr_ts,
                    indent: old(self).tracer.indent,
                    ev: EventModel::Custom(ev@),
                },
            ),
            final(self).tracer.indent == old(self).tracer.indent,
            *final(self) == (TreeContextRef { tracer: final(self).tracer, ..*old(self) }),
    {
        self.tracer.trace(self.curr_ts, Event::Custom(ev));
        Ok(())
    }

    /// Trace one event under the current tick.
    pub fn trace_ev(&mut self, ev: Event) -> (r: RtOk)
        ensures
            r is Ok,
            final(self).tracer@ == old(self).tracer@.push(
                RecordModel { ts: old(self).curr_ts, indent: old(self).tracer.indent, ev: ev@ },
            ),
            final(self).tracer.indent == old(self).tracer.indent,
            *final(self) == (TreeContextRef { tracer: final(self).tracer, ..*old(self) }),
    {
        self.tracer.trace(self.curr_ts, ev);
        Ok(())
    }

    /// The runtime environment handle.
    pub fn env(&self) -> (r: RtEnvRef)
        ensures
            r == self.env,
    {
        self.env
    }

    /// The current tick.
    pub fn current_tick(&self) -> (r: Timestamp)
        ensures
            r == self.curr_ts,
    {
        self.curr_ts
    }
}

/// The context handed to remote actions: only the current tick, the port of
/// the serving endpoint and the environment handle; remote leaves never see
/// the blackboard or the tracer directly.
#[derive(Debug)]
pub struct TreeRemoteContextRef {
    pub curr_ts: Timestamp,
    pub port: u16,
    pub env: RtEnvRef,
}

impl TreeRemoteContextRef {
    pub fn new(curr_ts: Timestamp, port: u16, env: RtEnvRef) -> (r: TreeRemoteContextRef)
        ensures
            r.curr_ts == curr_ts,
            r.port == port,
            r.env == env,
    {
        TreeRemoteContextRef { curr_ts, port, env }
    }
}

} // verus!
