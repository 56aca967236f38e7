use forester::blackboard::Blackboard;
use forester::context::RNodeState;
use forester::forester::Forester;
use forester::keeper::ActionKeeper;
use forester::rtargs::{RtArgs, RtValue};
use forester::rtree::{FlowType, RNode, RTree};
use forester::runtime::{RtEnvRef, RuntimeError, TickResult};
use forester::tracer::{Event, Tracer};

fn leaf(name: &str) -> RNode {
    RNode::Leaf(name.to_owned(), RtArgs::new())
}

fn flow(t: FlowType, children: Vec<usize>) -> RNode {
    RNode::Flow(t, RtArgs::new(), children)
}

fn driver(nodes: Vec<RNode>, keeper: ActionKeeper, tick_limit: usize) -> Forester {
    Forester::new(
        RTree::new(nodes, 0),
        keeper,
        Blackboard::new(),
        Tracer::new(),
        tick_limit,
        RtEnvRef::new(),
    )
}

fn script(keeper: &mut ActionKeeper, name: &str, results: Vec<TickResult>) {
    keeper.register(name.to_owned(), results);
}

/// The ids of the nodes recorded in the given settled state, in trace order.
fn settled_order(f: &Forester) -> Vec<usize> {
    f.ctx
        .tracer
        .events
        .iter()
        .filter_map(|r| match &r.ev {
            Event::NewState(id, RNodeState::Success(_)) => Some(*id),
            Event::NewState(id, RNodeState::Failure(_)) => Some(*id),
            _ => None,
        })
        .collect()
}

fn was_ticked(f: &Forester, id: usize) -> bool {
    f.ctx.tracer.events.iter().any(|r| matches!(&r.ev, Event::NewState(i, _) if *i == id))
}

#[test]
fn sequence_success_walks_left_to_right() {
    // sequence s { a b c }, every leaf succeeding once
    let mut keeper = ActionKeeper::new();
    script(&mut keeper, "a", vec![TickResult::Success]);
    script(&mut keeper, "b", vec![TickResult::Success]);
    script(&mut keeper, "c", vec![TickResult::Success]);
    let nodes = vec![
        flow(FlowType::Root, vec![1]),
        flow(FlowType::Sequence, vec![2, 3, 4]),
        leaf("a"),
        leaf("b"),
        leaf("c"),
    ];
    let mut f = driver(nodes, keeper, 0);
    assert_eq!(f.run(), Ok(TickResult::Success));
    // the settled states appear bottom-up, left to right: a, b, c, s, root
    assert_eq!(settled_order(&f), vec![2, 3, 4, 1, 0]);
    // the sequence's final bookkeeping: cursor on the last child of three
    let s_state = f.ctx.state().get(&1).unwrap();
    assert!(matches!(s_state, RNodeState::Success(_)));
    let args = s_state.args();
    assert_eq!(args.find("cursor"), Some(RtValue::Int(2)));
    assert_eq!(args.find("len"), Some(RtValue::Int(3)));
}

#[test]
fn fallback_skips_to_the_first_success() {
    // fallback f { a b c } with a failing and b succeeding: c is never visited
    let mut keeper = ActionKeeper::new();
    script(&mut keeper, "a", vec![TickResult::Failure("a said no".to_owned())]);
    script(&mut keeper, "b", vec![TickResult::Success]);
    script(&mut keeper, "c", vec![TickResult::Success]);
    let nodes = vec![
        flow(FlowType::Root, vec![1]),
        flow(FlowType::Fallback, vec![2, 3, 4]),
        leaf("a"),
        leaf("b"),
        leaf("c"),
    ];
    let mut f = driver(nodes, keeper, 0);
    assert_eq!(f.run(), Ok(TickResult::Success));
    assert!(!was_ticked(&f, 4));
    assert_eq!(f.keeper.actions[2].pos, 0);
}

#[test]
fn msequence_resumes_at_the_failed_child() {
    // m_sequence m { a b c }: b fails on the first run, succeeds on the second
    let mut keeper = ActionKeeper::new();
    script(&mut keeper, "a", vec![TickResult::Success]);
    script(
        &mut keeper,
        "b",
        vec![TickResult::Failure("not yet".to_owned()), TickResult::Success],
    );
    script(&mut keeper, "c", vec![TickResult::Success]);
    let nodes = vec![
        flow(FlowType::Root, vec![1]),
        flow(FlowType::MSequence, vec![2, 3, 4]),
        leaf("a"),
        leaf("b"),
        leaf("c"),
    ];
    let mut f = driver(nodes, keeper, 0);
    assert_eq!(f.run(), Ok(TickResult::Failure("not yet".to_owned())));
    let m_state = f.ctx.state().get(&1).unwrap();
    assert!(matches!(m_state, RNodeState::Failure(_)));
    assert_eq!(m_state.args().find("prev_cursor"), Some(RtValue::Int(1)));
    // the second run resumes at b: a is not ticked again
    assert_eq!(f.run(), Ok(TickResult::Success));
    assert_eq!(f.keeper.actions[0].pos, 1);
    assert_eq!(f.keeper.actions[1].pos, 2);
    assert_eq!(f.keeper.actions[2].pos, 1);
}

#[test]
fn parallel_mixed_outcomes_fail_the_node() {
    // parallel p { a b c }: tick 1 leaves a running, b succeeded, c failed;
    // tick 2 resolves a, and the settled array still holds the failure
    let mut keeper = ActionKeeper::new();
    script(&mut keeper, "a", vec![TickResult::Running, TickResult::Success]);
    script(&mut keeper, "b", vec![TickResult::Success]);
    script(&mut keeper, "c", vec![TickResult::Failure("boom".to_owned())]);
    let nodes = vec![
        flow(FlowType::Root, vec![1]),
        flow(FlowType::Parallel, vec![2, 3, 4]),
        leaf("a"),
        leaf("b"),
        leaf("c"),
    ];
    let mut f = driver(nodes, keeper, 0);
    assert_eq!(f.run(), Ok(TickResult::Failure("parallel failure".to_owned())));
    // the first tick ended with the statuses running, success, failure
    let tick_one_statuses = f.ctx.tracer.events.iter().any(|r| match &r.ev {
        Event::NewState(1, RNodeState::Running(a)) => {
            a.find("children")
                == Some(RtValue::Array(vec![
                    RtValue::Int(1),
                    RtValue::Int(3),
                    RtValue::Int(2),
                ]))
        }
        _ => false,
    });
    assert!(tick_one_statuses);
    assert_eq!(f.ctx.curr_ts(), 2);
}

#[test]
fn reactive_sequence_rechecks_the_condition() {
    // sequence s { cond c, action a }: the condition holds while the action
    // runs, then fails; the sequence re-enters from the condition and the
    // action is not resumed
    let mut keeper = ActionKeeper::new();
    script(
        &mut keeper,
        "cond",
        vec![TickResult::Success, TickResult::Failure("cond failed".to_owned())],
    );
    script(&mut keeper, "act", vec![TickResult::Running, TickResult::Running]);
    let nodes = vec![
        flow(FlowType::Root, vec![1]),
        flow(FlowType::Sequence, vec![2, 3]),
        leaf("cond"),
        leaf("act"),
    ];
    let mut f = driver(nodes, keeper, 0);
    assert_eq!(f.run(), Ok(TickResult::Failure("cond failed".to_owned())));
    // the action was submitted once, on the first tick only
    assert_eq!(f.keeper.actions[1].pos, 1);
    assert_eq!(f.ctx.curr_ts(), 2);
}

#[test]
fn tick_limit_stops_a_nonterminating_tree() {
    // a leaf that never settles, under a limit of five ticks
    let mut keeper = ActionKeeper::new();
    script(&mut keeper, "spin", vec![TickResult::Running]);
    let nodes = vec![flow(FlowType::Root, vec![1]), leaf("spin")];
    let mut f = driver(nodes, keeper, 5);
    match f.run() {
        Err(RuntimeError::Stopped(msg)) => {
            assert_eq!(msg, "the limit of ticks is exceeded on 5");
        }
        other => panic!("unexpected {:?}", other),
    }
    assert_eq!(f.ctx.curr_ts(), 5);
    let last_tick = f
        .ctx
        .tracer
        .events
        .iter()
        .filter(|r| matches!(r.ev, Event::NextTick))
        .map(|r| r.ts)
        .max();
    assert_eq!(last_tick, Some(5));
}

#[test]
fn root_failure_carries_the_reason() {
    let mut keeper = ActionKeeper::new();
    script(&mut keeper, "a", vec![TickResult::Failure("the reason".to_owned())]);
    let nodes = vec![flow(FlowType::Root, vec![1]), leaf("a")];
    let mut f = driver(nodes, keeper, 0);
    assert_eq!(f.run(), Ok(TickResult::Failure("the reason".to_owned())));
    assert!(matches!(f.ctx.state().get(&0), Some(RNodeState::Failure(_))));
}

#[test]
fn unregistered_leaf_fails_its_subtree() {
    let keeper = ActionKeeper::new();
    let nodes = vec![flow(FlowType::Root, vec![1]), leaf("ghost")];
    let mut f = driver(nodes, keeper, 0);
    assert_eq!(
        f.run(),
        Ok(TickResult::Failure("the action is not registered".to_owned()))
    );
}

#[test]
fn missing_child_id_is_an_unexpected_state() {
    let mut keeper = ActionKeeper::new();
    script(&mut keeper, "a", vec![TickResult::Success]);
    let nodes = vec![flow(FlowType::Root, vec![9]), leaf("a")];
    let mut f = driver(nodes, keeper, 0);
    assert!(matches!(f.run(), Err(RuntimeError::Uex(_))));
}

#[test]
fn rsequence_and_rfallback_behave_like_their_reactive_kin() {
    let mut keeper = ActionKeeper::new();
    script(&mut keeper, "a", vec![TickResult::Failure("na".to_owned())]);
    script(&mut keeper, "b", vec![TickResult::Success]);
    let nodes = vec![
        flow(FlowType::Root, vec![1]),
        flow(FlowType::RFallback, vec![2, 3]),
        leaf("a"),
        leaf("b"),
    ];
    let mut f = driver(nodes, keeper, 0);
    assert_eq!(f.run(), Ok(TickResult::Success));

    let mut keeper = ActionKeeper::new();
    script(&mut keeper, "a", vec![TickResult::Success]);
    script(&mut keeper, "b", vec![TickResult::Failure("stop".to_owned())]);
    let nodes = vec![
        flow(FlowType::Root, vec![1]),
        flow(FlowType::RSequence, vec![2, 3]),
        leaf("a"),
        leaf("b"),
    ];
    let mut f = driver(nodes, keeper, 0);
    assert_eq!(f.run(), Ok(TickResult::Failure("stop".to_owned())));
}

#[test]
fn keeper_hands_out_the_script_and_then_repeats() {
    let mut keeper = ActionKeeper::new();
    script(
        &mut keeper,
        "a",
        vec![TickResult::Running, TickResult::Success],
    );
    let mut cref = forester::context::TreeContextRef::new(
        Blackboard::new(),
        Tracer::new(),
        1,
        RtEnvRef::new(),
    );
    assert_eq!(
        keeper.tick("a", RtArgs::new(), &mut cref),
        Ok(TickResult::Running)
    );
    assert_eq!(
        keeper.tick("a", RtArgs::new(), &mut cref),
        Ok(TickResult::Success)
    );
    // exhausted: the last outcome repeats
    assert_eq!(
        keeper.tick("a", RtArgs::new(), &mut cref),
        Ok(TickResult::Success)
    );
    assert_eq!(
        keeper.tick("missing", RtArgs::new(), &mut cref),
        Ok(TickResult::Failure("the action is not registered".to_owned()))
    );
}

#[test]
fn run_until_halts_at_a_tick_boundary() {
    // the leaf never settles; the predicate halts the run once three node
    // states are recorded
    let mut keeper = ActionKeeper::new();
    script(&mut keeper, "spin", vec![TickResult::Running]);
    let nodes = vec![flow(FlowType::Root, vec![1]), leaf("spin")];
    let mut f = driver(nodes, keeper, 0);
    let halted = f.run_until(|_bb, st| st.len() >= 2);
    assert_eq!(halted, Ok(TickResult::Running));
    assert!(f.ctx.state().len() >= 2);
}

#[test]
fn trace_is_ordered_by_tick() {
    let mut keeper = ActionKeeper::new();
    script(
        &mut keeper,
        "slow",
        vec![TickResult::Running, TickResult::Running, TickResult::Success],
    );
    let nodes = vec![flow(FlowType::Root, vec![1]), leaf("slow")];
    let mut f = driver(nodes, keeper, 0);
    assert_eq!(f.run(), Ok(TickResult::Success));
    let ticks: Vec<usize> = f.ctx.tracer.events.iter().map(|r| r.ts).collect();
    assert!(ticks.windows(2).all(|w| w[0] <= w[1]));
    assert_eq!(f.ctx.curr_ts(), 3);
}

#[test]
fn empty_script_is_a_failure_outcome() {
    let mut keeper = ActionKeeper::new();
    script(&mut keeper, "hollow", vec![]);
    let nodes = vec![flow(FlowType::Root, vec![1]), leaf("hollow")];
    let mut f = driver(nodes, keeper, 0);
    assert_eq!(
        f.run(),
        Ok(TickResult::Failure("the action has no scripted result".to_owned()))
    );
}

#[test]
fn parallel_resumes_a_passed_child_on_the_next_tick_only() {
    // the running child sits before the settled ones, so it is not re-ticked
    // within the same tick; it resumes on the following tick
    let mut keeper = ActionKeeper::new();
    script(&mut keeper, "a", vec![TickResult::Running, TickResult::Success]);
    script(&mut keeper, "b", vec![TickResult::Success]);
    let nodes = vec![
        flow(FlowType::Root, vec![1]),
        flow(FlowType::Parallel, vec![2, 3]),
        leaf("a"),
        leaf("b"),
    ];
    let mut f = driver(nodes, keeper, 0);
    assert_eq!(f.run(), Ok(TickResult::Success));
    // a's two submissions happened on different ticks
    let a_ticks: Vec<usize> = f
        .ctx
        .tracer
        .events
        .iter()
        .filter_map(|r| match &r.ev {
            Event::NewState(2, _) => Some(r.ts),
            _ => None,
        })
        .collect();
    assert_eq!(a_ticks, vec![1, 2]);
}
