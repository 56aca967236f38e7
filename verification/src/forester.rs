//! The driver: the tick loop that walks the compiled tree through the
//! context's stack, dispatches composites to the flow logic and leaves to
//! the action keeper, and terminates when the root finishes or the tick
//! limit is hit.

use crate::blackboard::Blackboard;
use crate::context::{
    reason_or_empty, RNodeState, StateModel, TreeContext, TreeContextRef, Timestamp,
};
use crate::flow::{
    check_children_ok, check_par_wf, enter_args, finalize, monitor, read_cursor, read_len_or_zero,
    FlowDecision, TickResultFin,
};
use crate::keeper::ActionKeeper;
use crate::rtree::{FlowType, RNode, RNodeId, RTree};
use crate::runtime::{ErrModel, RtEnvRef, RtOk, RtResult, RuntimeError, TickModel, TickResult};
use crate::tracer::{
    lemma_trace_bound_weaken, lemma_trace_extend, trace_bounded, trace_ticks_sorted, Event,
    EventModel, Tracer,
};
use vstd::prelude::*;

verus! {

/// Carry out one flow decision: record the new state; descend into the
/// child under the new cursor when staying in a running state, pop
/// otherwise.
fn apply_decision(
    ctx: &mut TreeContext,
    children: &Vec<RNodeId>,
    id: RNodeId,
    d: FlowDecision,
) -> (r: RtOk)
    ensures
        r matches Err(e) ==> e@ matches ErrModel::Uex(_),
        final(ctx).curr_ts == old(ctx).curr_ts,
        final(ctx).tick_limit == old(ctx).tick_limit,
        final(ctx).tracer@.len() >= old(ctx).tracer@.len(),
        forall|i: int|
            0 <= i < old(ctx).tracer@.len() ==> final(ctx).tracer@[i] == old(ctx).tracer@[i],
        forall|i: int|
            old(ctx).tracer@.len() <= i < final(ctx).tracer@.len() ==> final(ctx).tracer@[i].ts
                == old(ctx).curr_ts,
        final(ctx).ts_map@ == old(ctx).ts_map@.insert(id, old(ctx).curr_ts),
        (final(ctx).stack@.len() == old(ctx).stack@.len() + 1 && (forall|i: int|
            0 <= i < old(ctx).stack@.len() ==> final(ctx).stack@[i] == old(ctx).stack@[i]))
            || final(ctx).stack@ == (if old(ctx).stack@.len() > 0 {
            old(ctx).stack@.drop_last()
        } else {
            old(ctx).stack@
        }) || (r is Err && final(ctx).stack@ == old(ctx).stack@),
{
    match d {
        FlowDecision::Stay(ns) => {
            let running = ns.is_running();
            if running {
                let args = ns.args();
                let cur = match read_cursor(&args) {
                    Ok(c) => c,
                    Err(e) => {
                        return Err(e);
                    },
                };
                match ctx.new_state(id, ns) {
                    Ok(_) => {},
                    Err(e) => {
                        return Err(e);
                    },
                }
                if cur < 0 || (cur as u64) >= (children.len() as u64) {
                    return Err(RuntimeError::uex("no child under the cursor".to_owned()));
                }
                match ctx.push(children[cur as usize]) {
                    Ok(_) => {},
                    Err(e) => {
                        return Err(e);
                    },
                }
            } else {
                match ctx.new_state(id, ns) {
                    Ok(_) => {},
                    Err(e) => {
                        return Err(e);
                    },
                }
                match ctx.pop() {
                    Ok(_) => {},
                    Err(e) => {
                        return Err(e);
                    },
                }
            }
        },
        FlowDecision::PopNode(ns) => {
            match ctx.new_state(id, ns) {
                Ok(_) => {},
                Err(e) => {
                    return Err(e);
                },
            }
            match ctx.pop() {
                Ok(_) => {},
                Err(e) => {
                    return Err(e);
                },
            }
        },
    }
    Ok(())
}

/// The driver: one compiled tree, one registry of leaves, one per-run
/// context.
#[derive(Debug)]
pub struct Forester {
    pub tree: RTree,
    pub keeper: ActionKeeper,
    pub ctx: TreeContext,
}

impl Forester {
    pub fn new(
        tree: RTree,
        keeper: ActionKeeper,
        bb: Blackboard,
        tracer: Tracer,
        tick_limit: Timestamp,
        env: RtEnvRef,
    ) -> (r: Forester)
        ensures
            r.tree == tree,
            r.keeper == keeper,
            r.ctx.bb == bb,
            r.ctx.tracer == tracer,
            r.ctx.stack@ == Seq::<RNodeId>::empty(),
            r.ctx.state@ == Map::<RNodeId, RNodeState>::empty(),
            r.ctx.ts_map@ == Map::<RNodeId, Timestamp>::empty(),
            r.ctx.curr_ts == 1,
            r.ctx.tick_limit == tick_limit,
    {
        Forester { tree, keeper, ctx: TreeContext::new(bb, tracer, tick_limit, env) }
    }

    /// Walk the tree within the current tick until the stack empties, and
    /// report the root's recorded state for this tick, which may still be
    /// running. The current tick is not advanced.
    fn walk_tick(&mut self) -> (r: RtResult<TickResult>)
        ensures
            final(self).tree == old(self).tree,
            final(self).ctx.curr_ts == old(self).ctx.curr_ts,
            final(self).ctx.tick_limit == old(self).ctx.tick_limit,
            final(self).ctx.tracer@.len() >= old(self).ctx.tracer@.len(),
            forall|i: int|
                0 <= i < old(self).ctx.tracer@.len() ==> final(self).ctx.tracer@[i]
                    == old(self).ctx.tracer@[i],
            trace_ticks_sorted(old(self).ctx.tracer@) && trace_bounded(
                old(self).ctx.tracer@,
                old(self).ctx.curr_ts,
            ) ==> trace_ticks_sorted(final(self).ctx.tracer@) && trace_bounded(
                final(self).ctx.tracer@,
                final(self).ctx.curr_ts,
            ),
            r matches Ok(t) ==> {
                &&& final(self).ctx.stack@.len() == 0
                &&& final(self).ctx.state@.contains_key(final(self).tree.root_id)
                &&& match final(self).ctx.spec_last_set(final(self).tree.root_id) {
                    StateModel::Success(_) => t@ is Success,
                    StateModel::Failure(s) => t@ == TickModel::Failure(reason_or_empty(s)),
                    StateModel::Running(_) => t@ is Running,
                    _ => false,
                }
            },
            (r matches Ok(t) && old(self).ctx.stack@ == seq![old(self).tree.root_id])
                ==> final(self).ctx.spec_is_curr_ts(final(self).tree.root_id),
            r matches Err(e) ==> e@ matches ErrModel::Uex(_),
    {
        let ghost ok = trace_ticks_sorted(old(self).ctx.tracer@) && trace_bounded(
            old(self).ctx.tracer@,
            old(self).ctx.curr_ts,
        );
        let root = self.tree.root_id;
        let ghost entry_ok = old(self).ctx.stack@ == seq![old(self).tree.root_id];
        let mut fuel: u64 = u64::MAX;
        while fuel > 0
            invariant
                self.tree == old(self).tree,
                root == self.tree.root_id,
                self.ctx.curr_ts == old(self).ctx.curr_ts,
                self.ctx.tick_limit == old(self).ctx.tick_limit,
                self.ctx.tracer@.len() >= old(self).ctx.tracer@.len(),
                forall|i: int|
                    0 <= i < old(self).ctx.tracer@.len() ==> self.ctx.tracer@[i]
                        == old(self).ctx.tracer@[i],
                ok == (trace_ticks_sorted(old(self).ctx.tracer@) && trace_bounded(
                    old(self).ctx.tracer@,
                    old(self).ctx.curr_ts,
                )),
                ok ==> trace_ticks_sorted(self.ctx.tracer@) && trace_bounded(
                    self.ctx.tracer@,
                    self.ctx.curr_ts,
                ),
                entry_ok == (old(self).ctx.stack@ == seq![old(self).tree.root_id]),
                entry_ok ==> (self.ctx.stack@.len() > 0 ==> self.ctx.stack@[0] == root),
                entry_ok ==> (self.ctx.stack@.len() == 0 ==> self.ctx.spec_is_curr_ts(root)),
            decreases fuel,
        {
            fuel = fuel - 1;
            let top = match self.ctx.peek() {
                Ok(t) => t,
                Err(e) => {
                    return Err(e);
                },
            };
            let id = match top {
                None => {
                    let rs = match self.ctx.root_state(root) {
                        Ok(t) => t,
                        Err(e) => {
                            return Err(e);
                        },
                    };
                    return Ok(rs);
                },
                Some(id) => id,
            };
            let st = self.ctx.state_in_ts(&id);
            let node = match self.tree.node(id) {
                Some(n) => n,
                None => {
                    return Err(RuntimeError::uex("the node is absent from the tree".to_owned()));
                },
            };
            match node {
                RNode::Leaf(name, _params) => {
                    match st {
                        RNodeState::Ready(args) => {
                            let mut cref = TreeContextRef::from_ctx(&self.ctx);
                            let out = match self.keeper.tick(name.as_str(), args.clone(), &mut cref)
                                {
                                Ok(t) => t,
                                Err(e) => {
                                    return Err(e);
                                },
                            };
                            self.ctx.bb = cref.bb;
                            self.ctx.tracer = cref.tracer;
                            let ghost t1 = self.ctx.tracer@;
                            let recorded = self.ctx.new_state(id, RNodeState::from(args, out));
                            proof {
                                if ok {
                                    lemma_trace_extend(t1, self.ctx.tracer@, self.ctx.curr_ts);
                                }
                            }
                            match recorded {
                                Ok(_) => {},
                                Err(e) => {
                                    return Err(e);
                                },
                            }
                            match self.ctx.pop() {
                                Ok(_) => {},
                                Err(e) => {
                                    return Err(e);
                                },
                            }
                        },
                        _ => {
                            // an in-flight or finished leaf is simply handed back to
                            // its parent; a second tick on an in-flight leaf does not
                            // re-submit it
                            match self.ctx.pop() {
                                Ok(_) => {},
                                Err(e) => {
                                    return Err(e);
                                },
                            }
                        },
                    }
                },
                RNode::Flow(tpe, params, children) => {
                    let clen = children.len();
                    if (clen as u64) > (i64::MAX as u64) {
                        return Err(RuntimeError::uex("too many children".to_owned()));
                    }
                    let len = clen as i64;
                    match st {
                        RNodeState::Ready(args) => {
                            if *tpe == FlowType::Parallel && !check_children_ok(&args) {
                                return Err(
                                    RuntimeError::uex("a malformed status array".to_owned()),
                                );
                            }
                            let new_args = enter_args(tpe, args, len);
                            let cur = match read_cursor(&new_args) {
                                Ok(c) => c,
                                Err(e) => {
                                    return Err(e);
                                },
                            };
                            let ghost t1 = self.ctx.tracer@;
                            let recorded = self.ctx.new_state(id, RNodeState::Running(new_args));
                            proof {
                                if ok {
                                    lemma_trace_extend(t1, self.ctx.tracer@, self.ctx.curr_ts);
                                }
                            }
                            match recorded {
                                Ok(_) => {},
                                Err(e) => {
                                    return Err(e);
                                },
                            }
                            if cur < 0 || (cur as u64) >= (clen as u64) {
                                return Err(
                                    RuntimeError::uex("no child under the cursor".to_owned()),
                                );
                            }
                            match self.ctx.push(children[cur as usize]) {
                                Ok(_) => {},
                                Err(e) => {
                                    return Err(e);
                                },
                            }
                        },
                        RNodeState::Running(args) => {
                            let cur = match read_cursor(&args) {
                                Ok(c) => c,
                                Err(e) => {
                                    return Err(e);
                                },
                            };
                            if cur < 0 || (cur as u64) >= (clen as u64) {
                                return Err(
                                    RuntimeError::uex("no child under the cursor".to_owned()),
                                );
                            }
                            let child_id = children[cur as usize];
                            let child_st = self.ctx.state_in_ts(&child_id);
                            match child_st {
                                RNodeState::Ready(_) => {
                                    match self.ctx.push(child_id) {
                                        Ok(_) => {},
                                        Err(e) => {
                                            return Err(e);
                                        },
                                    }
                                },
                                RNodeState::Running(_) => {
                                    if *tpe == FlowType::Parallel && !check_par_wf(&args) {
                                        return Err(
                                            RuntimeError::uex(
                                                "a malformed status array".to_owned(),
                                            ),
                                        );
                                    }
                                    let d = match monitor(tpe, params.clone(), args, &mut self.ctx)
                                        {
                                        Ok(d) => d,
                                        Err(e) => {
                                            return Err(e);
                                        },
                                    };
                                    let ghost t1 = self.ctx.tracer@;
                                    let applied = apply_decision(&mut self.ctx, children, id, d);
                                    proof {
                                        if ok {
                                            lemma_trace_extend(t1, self.ctx.tracer@, self.ctx.curr_ts);
                                        }
                                    }
                                    match applied {
                                        Ok(_) => {},
                                        Err(e) => {
                                            return Err(e);
                                        },
                                    }
                                },
                                fin => {
                                    let f = match TickResultFin::try_from(fin) {
                                        Ok(f) => f,
                                        Err(e) => {
                                            return Err(e);
                                        },
                                    };
                                    if *tpe == FlowType::Parallel {
                                        if !check_par_wf(&args) {
                                            return Err(
                                                RuntimeError::uex(
                                                    "a malformed status array".to_owned(),
                                                ),
                                            );
                                        }
                                    } else {
                                        let rc = match read_cursor(&args) {
                                            Ok(c) => c,
                                            Err(e) => {
                                                return Err(e);
                                            },
                                        };
                                        let rl = read_len_or_zero(&args);
                                        if rc == i64::MAX || rl == i64::MIN {
                                            return Err(
                                                RuntimeError::uex(
                                                    "the cursor is out of range".to_owned(),
                                                ),
                                            );
                                        }
                                    }
                                    let d = match finalize(
                                        tpe,
                                        params.clone(),
                                        args,
                                        f,
                                        &mut self.ctx,
                                    ) {
                                        Ok(d) => d,
                                        Err(e) => {
                                            return Err(e);
                                        },
                                    };
                                    let ghost t1 = self.ctx.tracer@;
                                    let applied = apply_decision(&mut self.ctx, children, id, d);
                                    proof {
                                        if ok {
                                            lemma_trace_extend(t1, self.ctx.tracer@, self.ctx.curr_ts);
                                        }
                                    }
                                    match applied {
                                        Ok(_) => {},
                                        Err(e) => {
                                            return Err(e);
                                        },
                                    }
                                },
                            }
                        },
                        _ => {
                            // a finished flow node propagates to its parent
                            match self.ctx.pop() {
                                Ok(_) => {},
                                Err(e) => {
                                    return Err(e);
                                },
                            }
                        },
                    }
                },
            }
        }
        Err(RuntimeError::uex("the step budget is exhausted".to_owned()))
    }

    /// Advance into the next tick: bump the counter on a re-entered run (or
    /// trace the opening tick of a fresh one) and seed the stack with the
    /// root.
    fn open_tick(&mut self) -> (r: RtOk)
        ensures
            final(self).tree == old(self).tree,
            final(self).ctx.tick_limit == old(self).ctx.tick_limit,
            final(self).ctx.curr_ts >= old(self).ctx.curr_ts,
            final(self).ctx.state@ == old(self).ctx.state@,
            final(self).ctx.ts_map@ == old(self).ctx.ts_map@,
            final(self).ctx.tracer@.len() >= old(self).ctx.tracer@.len(),
            forall|i: int|
                0 <= i < old(self).ctx.tracer@.len() ==> final(self).ctx.tracer@[i]
                    == old(self).ctx.tracer@[i],
            trace_ticks_sorted(old(self).ctx.tracer@) && trace_bounded(
                old(self).ctx.tracer@,
                old(self).ctx.curr_ts,
            ) ==> trace_ticks_sorted(final(self).ctx.tracer@) && trace_bounded(
                final(self).ctx.tracer@,
                final(self).ctx.curr_ts,
            ),
            old(self).ctx.curr_ts < usize::MAX ==> {
                &&& final(self).ctx.tracer@.len() == old(self).ctx.tracer@.len() + 1
                &&& final(self).ctx.tracer@[old(self).ctx.tracer@.len() as int].ev
                    == EventModel::NextTick
            },
            r is Ok ==> final(self).ctx.stack@ == old(self).ctx.stack@.push(
                old(self).tree.root_id,
            ),
            r is Ok ==> (final(self).ctx.curr_ts == old(self).ctx.curr_ts || (old(
                self,
            ).ctx.tick_limit != 0 ==> final(self).ctx.curr_ts < old(self).ctx.tick_limit)),
            r is Err ==> final(self).ctx.stack@ == old(self).ctx.stack@,
            r matches Err(e) ==> (e@ matches ErrModel::Stopped(_) || e@ matches ErrModel::Uex(_)),
            r matches Err(e) ==> (e@ matches ErrModel::Uex(_) ==> (*final(self) == *old(self)
                && old(self).ctx.curr_ts == usize::MAX)),
            r matches Err(e) ==> (e@ matches ErrModel::Stopped(_) ==> {
                &&& old(self).ctx.tick_limit != 0
                &&& final(self).ctx.curr_ts == old(self).ctx.curr_ts + 1
                &&& final(self).ctx.curr_ts >= old(self).ctx.tick_limit
                &&& e@ == ErrModel::Stopped(
                    "the limit of ticks is exceeded on "@ + crate::runtime::dec_seq(
                        final(self).ctx.curr_ts as nat,
                    ),
                )
            }),
    {
        let ghost ok = trace_ticks_sorted(old(self).ctx.tracer@) && trace_bounded(
            old(self).ctx.tracer@,
            old(self).ctx.curr_ts,
        );
        let root = self.tree.root_id;
        let ghost t0 = self.ctx.tracer@;
        let ghost c0 = self.ctx.curr_ts;
        if self.ctx.is_curr_ts(&root) {
            if self.ctx.curr_ts() == usize::MAX {
                return Err(RuntimeError::uex("the tick counter is exhausted".to_owned()));
            }
            let stepped = self.ctx.next_tick();
            proof {
                if ok {
                    lemma_trace_bound_weaken(t0, c0, self.ctx.curr_ts);
                    lemma_trace_extend(t0, self.ctx.tracer@, self.ctx.curr_ts);
                }
            }
            match stepped {
                Ok(_) => {},
                Err(e) => {
                    return Err(e);
                },
            }
        } else {
            let _ = self.ctx.trace(Event::NextTick);
            proof {
                if ok {
                    lemma_trace_extend(t0, self.ctx.tracer@, self.ctx.curr_ts);
                }
            }
        }
        let _ = self.ctx.push(root);
        Ok(())
    }

    /// Run the tree to termination: tick after tick until the root settles
    /// on success or failure, the tick limit stops the run, or an
    /// unexpected state surfaces. A run always opens and traces a tick; a
    /// run that returns a result leaves the stack empty, the result mirrors
    /// the root's state recorded in the final tick, never still ready or
    /// running, and a trace that was ordered by ticks stays so. A `Stopped`
    /// error can only mean the tick limit was genuinely hit: it owes a
    /// nonzero limit, a counter driven up to it, and the exact diagnostic.
    pub fn run(&mut self) -> (r: RtResult<TickResult>)
        ensures
            final(self).tree == old(self).tree,
            final(self).ctx.tick_limit == old(self).ctx.tick_limit,
            trace_ticks_sorted(old(self).ctx.tracer@) && trace_bounded(
                old(self).ctx.tracer@,
                old(self).ctx.curr_ts,
            ) ==> trace_ticks_sorted(final(self).ctx.tracer@),
            old(self).ctx.curr_ts < usize::MAX ==> final(self).ctx.tracer@.len() > old(
                self,
            ).ctx.tracer@.len() && final(self).ctx.tracer@[old(self).ctx.tracer@.len() as int].ev
                == EventModel::NextTick,
            r matches Ok(t) ==> {
                &&& !(t@ is Running)
                &&& final(self).ctx.stack@.len() == 0
                &&& final(self).ctx.state@.contains_key(final(self).tree.root_id)
                &&& old(self).ctx.stack@.len() == 0 ==> final(self).ctx.spec_is_curr_ts(
                    final(self).tree.root_id,
                )
                &&& match final(self).ctx.spec_last_set(final(self).tree.root_id) {
                    StateModel::Success(_) => t@ is Success,
                    StateModel::Failure(s) => t@ == TickModel::Failure(reason_or_empty(s)),
                    _ => false,
                }
            },
            r matches Err(e) ==> (e@ matches ErrModel::Stopped(_) || e@ matches ErrModel::Uex(_)),
            r matches Err(e) ==> (e@ matches ErrModel::Stopped(_) ==> {
                &&& old(self).ctx.tick_limit != 0
                &&& final(self).ctx.curr_ts > old(self).ctx.curr_ts
                &&& final(self).ctx.curr_ts >= old(self).ctx.tick_limit
                &&& (old(self).ctx.curr_ts < old(self).ctx.tick_limit ==> final(self).ctx.curr_ts
                    == old(self).ctx.tick_limit)
                &&& e@ == ErrModel::Stopped(
                    "the limit of ticks is exceeded on "@ + crate::runtime::dec_seq(
                        final(self).ctx.curr_ts as nat,
                    ),
                )
            }),
    {
        let ghost ok = trace_ticks_sorted(old(self).ctx.tracer@) && trace_bounded(
            old(self).ctx.tracer@,
            old(self).ctx.curr_ts,
        );
        let root = self.tree.root_id;
        match self.open_tick() {
            Ok(_) => {},
            Err(e) => {
                return Err(e);
            },
        }
        proof {
            if old(self).ctx.stack@.len() == 0 {
                assert(self.ctx.stack@ =~= seq![root]);
            }
        }
        let mut fuel: u64 = u64::MAX;
        while fuel > 0
            invariant
                self.tree == old(self).tree,
                root == self.tree.root_id,
                self.ctx.tick_limit == old(self).ctx.tick_limit,
                self.ctx.curr_ts >= old(self).ctx.curr_ts,
                (old(self).ctx.tick_limit != 0 && old(self).ctx.curr_ts < old(
                    self,
                ).ctx.tick_limit) ==> self.ctx.curr_ts < old(self).ctx.tick_limit,
                ok == (trace_ticks_sorted(old(self).ctx.tracer@) && trace_bounded(
                    old(self).ctx.tracer@,
                    old(self).ctx.curr_ts,
                )),
                ok ==> trace_ticks_sorted(self.ctx.tracer@) && trace_bounded(
                    self.ctx.tracer@,
                    self.ctx.curr_ts,
                ),
                old(self).ctx.curr_ts < usize::MAX ==> self.ctx.tracer@.len() > old(
                    self,
                ).ctx.tracer@.len() && self.ctx.tracer@[old(self).ctx.tracer@.len() as int].ev
                    == EventModel::NextTick,
                old(self).ctx.stack@.len() == 0 ==> self.ctx.stack@ == seq![root],
            decreases fuel,
        {
            fuel = fuel - 1;
            let t = match self.walk_tick() {
                Ok(t) => t,
                Err(e) => {
                    return Err(e);
                },
            };
            match t {
                TickResult::Running => {
                    match self.open_tick() {
                        Ok(_) => {},
                        Err(e) => {
                            return Err(e);
                        },
                    }
                    proof {
                        if old(self).ctx.stack@.len() == 0 {
                            assert(self.ctx.stack@ =~= seq![root]);
                        }
                    }
                },
                other => {
                    return Ok(other);
                },
            }
        }
        Err(RuntimeError::uex("the step budget is exhausted".to_owned()))
    }

    /// Run as [`Self::run`] does, but also stop at a tick boundary once
    /// `halt` is satisfied over the blackboard and the state map; the
    /// result then mirrors the root's state recorded in the final tick,
    /// which may still be running — and is running only when `halt`
    /// answered true over the final blackboard and state map.
    pub fn run_until<F: Fn(&Blackboard, &std::collections::HashMap<RNodeId, RNodeState>) -> bool>(
        &mut self,
        halt: F,
    ) -> (r: RtResult<TickResult>)
        requires
            forall|bb: &Blackboard, st: &std::collections::HashMap<RNodeId, RNodeState>|
                halt.requires((bb, st)),
        ensures
            final(self).tree == old(self).tree,
            final(self).ctx.tick_limit == old(self).ctx.tick_limit,
            old(self).ctx.curr_ts < usize::MAX ==> final(self).ctx.tracer@.len() > old(
                self,
            ).ctx.tracer@.len() && final(self).ctx.tracer@[old(self).ctx.tracer@.len() as int].ev
                == EventModel::NextTick,
            r matches Ok(t) ==> {
                &&& final(self).ctx.stack@.len() == 0
                &&& final(self).ctx.state@.contains_key(final(self).tree.root_id)
                &&& old(self).ctx.stack@.len() == 0 ==> final(self).ctx.spec_is_curr_ts(
                    final(self).tree.root_id,
                )
                &&& match final(self).ctx.spec_last_set(final(self).tree.root_id) {
                    StateModel::Success(_) => t@ is Success,
                    StateModel::Failure(s) => t@ == TickModel::Failure(reason_or_empty(s)),
                    StateModel::Running(_) => t@ is Running,
                    _ => false,
                }
                &&& (t@ is Running ==> halt.ensures(
                    (&final(self).ctx.bb, &final(self).ctx.state),
                    true,
                ))
            },
            r matches Err(e) ==> (e@ matches ErrModel::Stopped(_) || e@ matches ErrModel::Uex(_)),
            r matches Err(e) ==> (e@ matches ErrModel::Stopped(_) ==> {
                &&& old(self).ctx.tick_limit != 0
                &&& final(self).ctx.curr_ts > old(self).ctx.curr_ts
                &&& final(self).ctx.curr_ts >= old(self).ctx.tick_limit
                &&& (old(self).ctx.curr_ts < old(self).ctx.tick_limit ==> final(self).ctx.curr_ts
                    == old(self).ctx.tick_limit)
            }),
    {
        let root = self.tree.root_id;
        match self.open_tick() {
            Ok(_) => {},
            Err(e) => {
                return Err(e);
            },
        }
        proof {
            if old(self).ctx.stack@.len() == 0 {
                assert(self.ctx.stack@ =~= seq![root]);
            }
        }
        let mut fuel: u64 = u64::MAX;
        while fuel > 0
            invariant
                self.tree == old(self).tree,
                root == self.tree.root_id,
                self.ctx.tick_limit == old(self).ctx.tick_limit,
                self.ctx.curr_ts >= old(self).ctx.curr_ts,
                (old(self).ctx.tick_limit != 0 && old(self).ctx.curr_ts < old(
                    self,
                ).ctx.tick_limit) ==> self.ctx.curr_ts < old(self).ctx.tick_limit,
                old(self).ctx.curr_ts < usize::MAX ==> self.ctx.tracer@.len() > old(
                    self,
                ).ctx.tracer@.len() && self.ctx.tracer@[old(self).ctx.tracer@.len() as int].ev
                    == EventModel::NextTick,
                old(self).ctx.stack@.len() == 0 ==> self.ctx.stack@ == seq![root],
                forall|bb: &Blackboard, st: &std::collections::HashMap<RNodeId, RNodeState>|
                    halt.requires((bb, st)),
            decreases fuel,
        {
            fuel = fuel - 1;
            let t = match self.walk_tick() {
                Ok(t) => t,
                Err(e) => {
                    return Err(e);
                },
            };
            match t {
                TickResult::Running => {
                    if halt(&self.ctx.bb, &self.ctx.state) {
                        return Ok(TickResult::Running);
                    }
                    match self.open_tick() {
                        Ok(_) => {},
                        Err(e) => {
                            return Err(e);
                        },
                    }
                    proof {
                        if old(self).ctx.stack@.len() == 0 {
                            assert(self.ctx.stack@ =~= seq![root]);
                        }
                    }
                },
                other => {
                    return Ok(other);
                },
            }
        }
        Err(RuntimeError::uex("the step budget is exhausted".to_owned()))
    }
}

} // verus!
