use forester::blackboard::Blackboard;
use forester::context::{RNodeState, TreeContext};
use forester::flow::{
    finalize, monitor, read_cursor, read_len_or_zero, run_with, run_with_par, FlowDecision,
    TickResultFin, CHILDREN, CURSOR, LEN, P_CURSOR, REASON,
};
use forester::rtargs::{RtArgs, RtValue};
use forester::rtree::FlowType;
use forester::runtime::{RtEnvRef, TickResult};
use forester::tracer::Tracer;

fn ctx() -> TreeContext {
    TreeContext::new(Blackboard::new(), Tracer::new(), 0, RtEnvRef::new())
}

fn ints(xs: &[i64]) -> RtValue {
    RtValue::Array(xs.iter().map(|x| RtValue::Int(*x)).collect())
}

fn par_args(children: &[i64], cursor: i64, len: i64) -> RtArgs {
    RtArgs::new()
        .with(CHILDREN, ints(children))
        .with(CURSOR, RtValue::of_int(cursor))
        .with(LEN, RtValue::of_int(len))
}

#[test]
fn read_cursor_reconciles_cursor_and_resume_point() {
    assert_eq!(read_cursor(&RtArgs::new()), Ok(0));
    let only_cursor = RtArgs::new().with(CURSOR, RtValue::of_int(2));
    assert_eq!(read_cursor(&only_cursor), Ok(2));
    let only_prev = RtArgs::new().with(P_CURSOR, RtValue::of_int(3));
    assert_eq!(read_cursor(&only_prev), Ok(3));
    let both = RtArgs::new()
        .with(CURSOR, RtValue::of_int(1))
        .with(P_CURSOR, RtValue::of_int(4));
    assert_eq!(read_cursor(&both), Ok(4));
    let both_rev = RtArgs::new()
        .with(CURSOR, RtValue::of_int(5))
        .with(P_CURSOR, RtValue::of_int(2));
    assert_eq!(read_cursor(&both_rev), Ok(5));
}

#[test]
fn read_len_defaults_to_zero() {
    assert_eq!(read_len_or_zero(&RtArgs::new()), 0);
    assert_eq!(read_len_or_zero(&RtArgs::new().with(LEN, RtValue::of_int(4))), 4);
}

#[test]
fn run_with_stamps_cursor_and_len() {
    let args = run_with(RtArgs::new(), 2, 5);
    assert_eq!(args.find(CURSOR), Some(RtValue::Int(2)));
    assert_eq!(args.find(LEN), Some(RtValue::Int(5)));
}

#[test]
fn run_with_par_seeds_zeroes_on_first_visit() {
    let args = run_with_par(RtArgs::new(), 3);
    assert_eq!(args.find(CHILDREN), Some(ints(&[0, 0, 0])));
    assert_eq!(args.find(CURSOR), Some(RtValue::Int(0)));
    assert_eq!(args.find(LEN), Some(RtValue::Int(3)));
}

#[test]
fn run_with_par_resumes_on_a_later_visit() {
    let prior = par_args(&[1, 3, 0], 0, 3).with(P_CURSOR, RtValue::of_int(0));
    let args = run_with_par(prior, 3);
    assert_eq!(args.find(CHILDREN), Some(ints(&[1, 3, 0])));
    assert_eq!(args.find(CURSOR), Some(RtValue::Int(0)));
}

fn stay_state(d: FlowDecision) -> RNodeState {
    match d {
        FlowDecision::Stay(s) => s,
        FlowDecision::PopNode(s) => panic!("expected stay, got pop of {:?}", s),
    }
}

fn pop_state(d: FlowDecision) -> RNodeState {
    match d {
        FlowDecision::PopNode(s) => s,
        FlowDecision::Stay(s) => panic!("expected pop, got stay of {:?}", s),
    }
}

#[test]
fn finalize_sequence_failure_drops_resume_point() {
    let args = RtArgs::new()
        .with(CURSOR, RtValue::of_int(1))
        .with(LEN, RtValue::of_int(3))
        .with(P_CURSOR, RtValue::of_int(1));
    let d = finalize(
        &FlowType::Sequence,
        RtArgs::new(),
        args,
        TickResultFin::Failure("er".to_owned()),
        &mut ctx(),
    )
    .unwrap();
    match stay_state(d) {
        RNodeState::Failure(a) => {
            assert_eq!(a.find(P_CURSOR), None);
            assert_eq!(a.find(REASON), Some(RtValue::Str("er".to_owned())));
            assert_eq!(a.find(CURSOR), Some(RtValue::Int(1)));
            assert_eq!(a.find(LEN), Some(RtValue::Int(3)));
        }
        other => panic!("unexpected {:?}", other),
    }
}

#[test]
fn finalize_sequence_success_advances_or_finishes() {
    let mid = RtArgs::new()
        .with(CURSOR, RtValue::of_int(0))
        .with(LEN, RtValue::of_int(3));
    let d = finalize(&FlowType::Sequence, RtArgs::new(), mid, TickResultFin::Success, &mut ctx())
        .unwrap();
    match stay_state(d) {
        RNodeState::Running(a) => assert_eq!(a.find(CURSOR), Some(RtValue::Int(1))),
        other => panic!("unexpected {:?}", other),
    }
    let last = RtArgs::new()
        .with(CURSOR, RtValue::of_int(2))
        .with(LEN, RtValue::of_int(3))
        .with(P_CURSOR, RtValue::of_int(2));
    let d = finalize(&FlowType::Sequence, RtArgs::new(), last, TickResultFin::Success, &mut ctx())
        .unwrap();
    match stay_state(d) {
        RNodeState::Success(a) => {
            assert_eq!(a.find(P_CURSOR), None);
            assert_eq!(a.find(CURSOR), Some(RtValue::Int(2)));
        }
        other => panic!("unexpected {:?}", other),
    }
}

#[test]
fn finalize_msequence_failure_keeps_resume_point() {
    let args = RtArgs::new()
        .with(CURSOR, RtValue::of_int(1))
        .with(LEN, RtValue::of_int(3));
    let d = finalize(
        &FlowType::MSequence,
        RtArgs::new(),
        args,
        TickResultFin::Failure("er".to_owned()),
        &mut ctx(),
    )
    .unwrap();
    match stay_state(d) {
        RNodeState::Failure(a) => {
            assert_eq!(a.find(P_CURSOR), Some(RtValue::Int(1)));
            assert_eq!(a.find(REASON), Some(RtValue::Str("er".to_owned())));
        }
        other => panic!("unexpected {:?}", other),
    }
}

#[test]
fn finalize_fallback_skips_to_next_on_failure() {
    let args = RtArgs::new()
        .with(CURSOR, RtValue::of_int(0))
        .with(LEN, RtValue::of_int(3));
    let d = finalize(
        &FlowType::Fallback,
        RtArgs::new(),
        args,
        TickResultFin::Failure("er".to_owned()),
        &mut ctx(),
    )
    .unwrap();
    match stay_state(d) {
        RNodeState::Running(a) => assert_eq!(a.find(CURSOR), Some(RtValue::Int(1))),
        other => panic!("unexpected {:?}", other),
    }
    let last = RtArgs::new()
        .with(CURSOR, RtValue::of_int(2))
        .with(LEN, RtValue::of_int(3));
    let d = finalize(
        &FlowType::Fallback,
        RtArgs::new(),
        last,
        TickResultFin::Failure("er".to_owned()),
        &mut ctx(),
    )
    .unwrap();
    match stay_state(d) {
        RNodeState::Failure(a) => {
            assert_eq!(a.find(REASON), Some(RtValue::Str("er".to_owned())))
        }
        other => panic!("unexpected {:?}", other),
    }
}

#[test]
fn finalize_fallback_success_finishes() {
    let args = RtArgs::new()
        .with(CURSOR, RtValue::of_int(1))
        .with(LEN, RtValue::of_int(3))
        .with(P_CURSOR, RtValue::of_int(1));
    let d = finalize(&FlowType::Fallback, RtArgs::new(), args, TickResultFin::Success, &mut ctx())
        .unwrap();
    match stay_state(d) {
        RNodeState::Success(a) => assert_eq!(a.find(P_CURSOR), None),
        other => panic!("unexpected {:?}", other),
    }
}

#[test]
fn finalize_root_mirrors_the_child() {
    let d = finalize(&FlowType::Root, RtArgs::new(), RtArgs::new(), TickResultFin::Success, &mut ctx())
        .unwrap();
    assert!(matches!(stay_state(d), RNodeState::Success(_)));
    let d = finalize(
        &FlowType::Root,
        RtArgs::new(),
        RtArgs::new(),
        TickResultFin::Failure("why".to_owned()),
        &mut ctx(),
    )
    .unwrap();
    match stay_state(d) {
        RNodeState::Failure(a) => {
            assert_eq!(a.find(REASON), Some(RtValue::Str("why".to_owned())));
            assert_eq!(a.find(LEN), Some(RtValue::Int(1)));
        }
        other => panic!("unexpected {:?}", other),
    }
}

#[test]
fn finalize_parallel_moves_to_a_later_waiting_child() {
    let args = par_args(&[0, 0, 0], 0, 3);
    let d = finalize(&FlowType::Parallel, RtArgs::new(), args, TickResultFin::Success, &mut ctx())
        .unwrap();
    match stay_state(d) {
        RNodeState::Running(a) => {
            assert_eq!(a.find(CHILDREN), Some(ints(&[3, 0, 0])));
            assert_eq!(a.find(CURSOR), Some(RtValue::Int(1)));
        }
        other => panic!("unexpected {:?}", other),
    }
}

#[test]
fn finalize_parallel_pops_for_an_earlier_waiting_child() {
    let args = par_args(&[1, 3, 0], 2, 3);
    let d = finalize(
        &FlowType::Parallel,
        RtArgs::new(),
        args,
        TickResultFin::Failure("er".to_owned()),
        &mut ctx(),
    )
    .unwrap();
    match pop_state(d) {
        RNodeState::Running(a) => {
            assert_eq!(a.find(CHILDREN), Some(ints(&[1, 3, 2])));
            assert_eq!(a.find(CURSOR), Some(RtValue::Int(0)));
            assert_eq!(a.find(P_CURSOR), Some(RtValue::Int(0)));
        }
        other => panic!("unexpected {:?}", other),
    }
}

#[test]
fn finalize_parallel_fails_when_all_settled_with_a_failure() {
    let args = par_args(&[3, 3, 1], 2, 3).with(P_CURSOR, RtValue::of_int(0));
    let d = finalize(
        &FlowType::Parallel,
        RtArgs::new(),
        args,
        TickResultFin::Failure("er".to_owned()),
        &mut ctx(),
    )
    .unwrap();
    match stay_state(d) {
        RNodeState::Failure(a) => {
            assert_eq!(a.find(REASON), Some(RtValue::Str("parallel failure".to_owned())));
            assert_eq!(a.find(CHILDREN), None);
        }
        other => panic!("unexpected {:?}", other),
    }
}

#[test]
fn finalize_parallel_succeeds_when_all_succeeded() {
    let args = par_args(&[3, 3, 1], 2, 3);
    let d = finalize(&FlowType::Parallel, RtArgs::new(), args, TickResultFin::Success, &mut ctx())
        .unwrap();
    match stay_state(d) {
        RNodeState::Success(a) => assert_eq!(a.find(CHILDREN), None),
        other => panic!("unexpected {:?}", other),
    }
}

#[test]
fn monitor_sequence_stashes_the_resume_point() {
    let args = RtArgs::new()
        .with(CURSOR, RtValue::of_int(1))
        .with(LEN, RtValue::of_int(3));
    let d = monitor(&FlowType::Sequence, RtArgs::new(), args, &mut ctx()).unwrap();
    match pop_state(d) {
        RNodeState::Running(a) => assert_eq!(a.find(P_CURSOR), Some(RtValue::Int(1))),
        other => panic!("unexpected {:?}", other),
    }
}

#[test]
fn monitor_parallel_stays_for_a_later_child() {
    let args = par_args(&[0, 0, 0], 0, 3);
    let d = monitor(&FlowType::Parallel, RtArgs::new(), args, &mut ctx()).unwrap();
    match stay_state(d) {
        RNodeState::Running(a) => {
            assert_eq!(a.find(CHILDREN), Some(ints(&[1, 0, 0])));
            assert_eq!(a.find(CURSOR), Some(RtValue::Int(1)));
            assert_eq!(a.find(P_CURSOR), Some(RtValue::Int(0)));
        }
        other => panic!("unexpected {:?}", other),
    }
}

#[test]
fn monitor_parallel_pops_when_nothing_waits_later() {
    let args = par_args(&[3, 3, 0], 2, 3);
    let d = monitor(&FlowType::Parallel, RtArgs::new(), args, &mut ctx()).unwrap();
    match pop_state(d) {
        RNodeState::Running(a) => {
            assert_eq!(a.find(CHILDREN), Some(ints(&[3, 3, 1])));
        }
        other => panic!("unexpected {:?}", other),
    }
}

#[test]
fn monitor_other_types_pop_running() {
    let args = RtArgs::new().with(CURSOR, RtValue::of_int(0));
    let d = monitor(&FlowType::Root, RtArgs::new(), args.clone(), &mut ctx()).unwrap();
    match pop_state(d) {
        RNodeState::Running(a) => assert_eq!(a, args),
        other => panic!("unexpected {:?}", other),
    }
}

#[test]
fn fin_try_from_accepts_only_finished_states() {
    let ok = TickResultFin::try_from(RNodeState::Success(RtArgs::new()));
    assert_eq!(ok, Ok(TickResultFin::Success));
    let f = TickResultFin::try_from(RNodeState::Failure(
        RtArgs::new().with(REASON, RtValue::of_str("oops".to_owned())),
    ));
    assert_eq!(f, Ok(TickResultFin::Failure("oops".to_owned())));
    assert!(TickResultFin::try_from(RNodeState::Running(RtArgs::new())).is_err());
    assert!(TickResultFin::try_from(RNodeState::Ready(RtArgs::new())).is_err());
}

#[test]
fn fin_widens_back_to_a_tick_result() {
    assert_eq!(TickResultFin::Success.into_tick_result(), TickResult::Success);
    assert_eq!(
        TickResultFin::Failure("x".to_owned()).into_tick_result(),
        TickResult::Failure("x".to_owned())
    );
}
