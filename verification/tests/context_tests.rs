use forester::blackboard::Blackboard;
use forester::context::{RNodeState, TreeContext, TreeContextRef, TreeRemoteContextRef};
use forester::rtargs::{RtArgs, RtValue};
use forester::runtime::{usize_text, RtEnvRef, RuntimeError, TickResult};
use forester::tracer::{Event, Tracer};

fn fresh_ctx(tick_limit: usize) -> TreeContext {
    TreeContext::new(Blackboard::new(), Tracer::new(), tick_limit, RtEnvRef::new())
}

#[test]
fn state_from_failure_stamps_reason() {
    let st = RNodeState::from(RtArgs::new(), TickResult::Failure("broke".to_owned()));
    match &st {
        RNodeState::Failure(args) => {
            assert_eq!(args.find("reason"), Some(RtValue::Str("broke".to_owned())));
        }
        other => panic!("unexpected state {:?}", other),
    }
}

#[test]
fn to_tick_result_by_state() {
    let ready = RNodeState::Ready(RtArgs::new());
    assert!(ready.to_tick_result().is_err());
    let running = RNodeState::Running(RtArgs::new());
    assert_eq!(running.to_tick_result(), Ok(TickResult::Running));
    let success = RNodeState::Success(RtArgs::new());
    assert_eq!(success.to_tick_result(), Ok(TickResult::Success));
    let failure = RNodeState::Failure(RtArgs::new().with("reason", RtValue::of_str("r".to_owned())));
    assert_eq!(failure.to_tick_result(), Ok(TickResult::Failure("r".to_owned())));
    let bare_failure = RNodeState::Failure(RtArgs::new());
    assert_eq!(bare_failure.to_tick_result(), Ok(TickResult::Failure(String::new())));
}

#[test]
fn state_predicates() {
    assert!(RNodeState::Running(RtArgs::new()).is_running());
    assert!(RNodeState::Ready(RtArgs::new()).is_ready());
    assert!(RNodeState::Success(RtArgs::new()).is_finished());
    assert!(RNodeState::Failure(RtArgs::new()).is_finished());
    assert!(!RNodeState::Running(RtArgs::new()).is_finished());
}

#[test]
fn state_in_ts_wipes_status_but_keeps_memory() {
    let mut ctx = fresh_ctx(0);
    let args = RtArgs::new().with("cursor", RtValue::of_int(2));
    ctx.new_state(7, RNodeState::Running(args.clone())).unwrap();
    // touched this tick: seen as recorded
    assert_eq!(ctx.state_in_ts(&7), RNodeState::Running(args.clone()));
    ctx.next_tick().unwrap();
    // untouched on the new tick: seen ready, memory carried
    assert_eq!(ctx.state_in_ts(&7), RNodeState::Ready(args));
}

#[test]
fn state_in_ts_of_unknown_node_is_ready_empty() {
    let ctx = fresh_ctx(0);
    assert_eq!(ctx.state_in_ts(&3), RNodeState::Ready(RtArgs::new()));
    assert_eq!(ctx.state_last_set(&3), RNodeState::Ready(RtArgs::new()));
}

#[test]
fn ready_in_ts_means_untouched_or_ready() {
    // the invariant behind the reactive wipe, on concrete values: a node that
    // reads ready this tick was either untouched this tick or recorded ready
    let mut ctx = fresh_ctx(0);
    ctx.new_state(1, RNodeState::Success(RtArgs::new())).unwrap();
    assert!(!ctx.state_in_ts(&1).is_ready());
    ctx.next_tick().unwrap();
    assert!(ctx.state_in_ts(&1).is_ready());
    assert!(!ctx.is_curr_ts(&1));
}

#[test]
fn push_pop_peek_track_the_stack_and_indent() {
    let mut ctx = fresh_ctx(0);
    assert_eq!(ctx.peek(), Ok(None));
    ctx.push(1).unwrap();
    ctx.push(2).unwrap();
    assert_eq!(ctx.tracer.indent, 2);
    assert_eq!(ctx.peek(), Ok(Some(2)));
    assert_eq!(ctx.pop(), Ok(Some(2)));
    assert_eq!(ctx.tracer.indent, 1);
    assert_eq!(ctx.pop(), Ok(Some(1)));
    assert_eq!(ctx.pop(), Ok(None));
    assert_eq!(ctx.tracer.indent, 0);
}

#[test]
fn next_tick_hits_the_limit() {
    let mut ctx = fresh_ctx(3);
    assert_eq!(ctx.curr_ts(), 1);
    assert!(ctx.next_tick().is_ok());
    assert_eq!(ctx.curr_ts(), 2);
    match ctx.next_tick() {
        Err(RuntimeError::Stopped(_)) => {}
        other => panic!("unexpected {:?}", other),
    }
    assert_eq!(ctx.curr_ts(), 3);
}

#[test]
fn next_tick_unbounded_when_limit_is_zero() {
    let mut ctx = fresh_ctx(0);
    for _ in 0..10 {
        assert!(ctx.next_tick().is_ok());
    }
    assert_eq!(ctx.curr_ts(), 11);
}

#[test]
fn root_state_requires_a_settled_root() {
    let mut ctx = fresh_ctx(0);
    assert!(ctx.root_state(0).is_err());
    ctx.new_state(0, RNodeState::Ready(RtArgs::new())).unwrap();
    assert!(ctx.root_state(0).is_err());
    ctx.new_state(0, RNodeState::Success(RtArgs::new())).unwrap();
    assert_eq!(ctx.root_state(0), Ok(TickResult::Success));
}

#[test]
fn new_state_returns_the_previous_state() {
    let mut ctx = fresh_ctx(0);
    assert_eq!(ctx.new_state(4, RNodeState::Running(RtArgs::new())), Ok(None));
    assert_eq!(
        ctx.new_state(4, RNodeState::Success(RtArgs::new())),
        Ok(Some(RNodeState::Running(RtArgs::new())))
    );
    assert!(ctx.state().contains_key(&4));
}

#[test]
fn context_trace_records_under_current_tick() {
    let mut ctx = fresh_ctx(0);
    ctx.trace(Event::Custom("hello".to_owned())).unwrap();
    assert_eq!(ctx.tracer.events.len(), 1);
    assert_eq!(ctx.tracer.events[0].ts, 1);
    assert_eq!(ctx.tracer.events[0].ev, Event::Custom("hello".to_owned()));
}

#[test]
fn context_ref_snapshots_the_context() {
    let mut ctx = fresh_ctx(0);
    ctx.bb().put("k", RtValue::of_int(5)).unwrap();
    ctx.next_tick().unwrap();
    let cref = TreeContextRef::from_ctx(&ctx);
    assert_eq!(cref.current_tick(), 2);
    assert_eq!(cref.bb().get("k"), Some(RtValue::Int(5)));
    assert_eq!(cref.env(), RtEnvRef::new());
}

#[test]
fn context_ref_traces_into_its_snapshot() {
    let ctx = fresh_ctx(0);
    let mut cref = TreeContextRef::from_ctx(&ctx);
    cref.trace("from a leaf".to_owned()).unwrap();
    cref.trace_ev(Event::NextTick).unwrap();
    let t = cref.tracer();
    assert_eq!(t.events.len(), 2);
    assert_eq!(t.events[0].ev, Event::Custom("from a leaf".to_owned()));
    assert_eq!(t.events[1].ev, Event::NextTick);
}

#[test]
fn context_ref_new_holds_the_parts() {
    let cref = TreeContextRef::new(Blackboard::new(), Tracer::new(), 4, RtEnvRef::new());
    assert_eq!(cref.current_tick(), 4);
}

#[test]
fn remote_context_ref_holds_the_parts() {
    let r = TreeRemoteContextRef::new(3, 8080, RtEnvRef::new());
    assert_eq!(r.curr_ts, 3);
    assert_eq!(r.port, 8080);
}

#[test]
fn stopped_diagnostic_names_the_tick() {
    let mut ctx = fresh_ctx(2);
    match ctx.next_tick() {
        Err(RuntimeError::Stopped(msg)) => {
            assert_eq!(msg, "the limit of ticks is exceeded on 2");
        }
        other => panic!("unexpected {:?}", other),
    }
}

#[test]
fn numbers_render_in_decimal() {
    assert_eq!(usize_text(0), "0");
    assert_eq!(usize_text(7), "7");
    assert_eq!(usize_text(10), "10");
    assert_eq!(usize_text(90410), "90410");
}
