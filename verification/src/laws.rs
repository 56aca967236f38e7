//! Laws of the flow logic, stated and proved over the models that the
//! flow functions' contracts use.

use crate::context::{reason_or_empty, StateModel};
use crate::flow::{
    children_model, children_ok, children_or_empty, cursor_model, enter_model, finalize_model,
    find_pos_model, int_at, int_models, lemma_find_pos_in_range, lemma_int_models,
    lemma_keys_distinct, len_or_zero_model, monitor_model, par_args_wf, DecisionModel, FinModel,
};
use crate::rtargs::{
    find_in, lemma_find_remove, lemma_find_with, remove_in, with_in, ArgEntry, ValueModel,
};
use crate::rtree::FlowType;
use vstd::prelude::*;

verus! {

/// Every per-child status is one of ready (0), running (1), failure (2)
/// or success (3).
pub open spec fn statuses_in_range(cs: Seq<i64>) -> bool {
    forall|i: int| 0 <= i < cs.len() ==> 0 <= #[trigger] cs[i] <= 3
}

/// The state a decision carries.
pub open spec fn decision_state(d: DecisionModel) -> StateModel {
    match d {
        DecisionModel::Stay(s) => s,
        DecisionModel::PopNode(s) => s,
    }
}

/// The root mirrors its single child: a successful child resolves the
/// root to success, a failed child to failure under the same reason; the
/// stamped bookkeeping is a cursor of 0 over a single child.
pub proof fn lemma_root_mirrors_child(ta: Seq<ArgEntry>, res: FinModel)
    ensures
        res is Success ==> finalize_model(FlowType::Root, ta, res) matches DecisionModel::Stay(
            StateModel::Success(_),
        ),
        res matches FinModel::Failure(v) ==> (finalize_model(FlowType::Root, ta, res)
            matches DecisionModel::Stay(StateModel::Failure(a)) && reason_or_empty(a) == v),
        int_at(args_of_decision_state(finalize_model(FlowType::Root, ta, res)), "cursor"@)
            == Some(0i64),
        int_at(args_of_decision_state(finalize_model(FlowType::Root, ta, res)), "len"@) == Some(
            1i64,
        ),
{
    lemma_keys_distinct();
    let stamped_args = crate::flow::stamped(ta, 0, 1);
    lemma_find_with(with_in(ta, "cursor"@, ValueModel::Int(0)), "len"@, ValueModel::Int(1), "len"@);
    lemma_find_with(
        with_in(ta, "cursor"@, ValueModel::Int(0)),
        "len"@,
        ValueModel::Int(1),
        "cursor"@,
    );
    lemma_find_with(ta, "cursor"@, ValueModel::Int(0), "cursor"@);
    match res {
        FinModel::Failure(v) => {
            let a = with_in(stamped_args, "reason"@, ValueModel::Str(v));
            lemma_find_with(stamped_args, "reason"@, ValueModel::Str(v), "reason"@);
            lemma_find_with(stamped_args, "reason"@, ValueModel::Str(v), "cursor"@);
            lemma_find_with(stamped_args, "reason"@, ValueModel::Str(v), "len"@);
            lemma_find_with(stamped_args, "reason"@, ValueModel::Str(v), "prev_cursor"@);
            lemma_find_with(
                with_in(ta, "cursor"@, ValueModel::Int(0)),
                "len"@,
                ValueModel::Int(1),
                "prev_cursor"@,
            );
            lemma_find_with(ta, "cursor"@, ValueModel::Int(0), "prev_cursor"@);
        },
        FinModel::Success => {
            lemma_find_with(
                with_in(ta, "cursor"@, ValueModel::Int(0)),
                "len"@,
                ValueModel::Int(1),
                "prev_cursor"@,
            );
            lemma_find_with(ta, "cursor"@, ValueModel::Int(0), "prev_cursor"@);
        },
    }
}

/// The memory the state of a decision carries.
pub open spec fn args_of_decision_state(d: DecisionModel) -> Seq<ArgEntry> {
    crate::context::args_of_model(decision_state(d))
}

/// A memory sequence that fails keeps its resume point, so a retry resumes
/// at the failed child; one that resolves to success carries no resume
/// point.
pub proof fn lemma_memory_resume(ta: Seq<ArgEntry>, res: FinModel)
    ensures
        res matches FinModel::Failure(_) ==> (finalize_model(FlowType::MSequence, ta, res)
            matches DecisionModel::Stay(StateModel::Failure(a)) && int_at(a, "prev_cursor"@)
            == Some(cursor_model(ta))),
        (res is Success && cursor_model(ta) == len_or_zero_model(ta) - 1) ==> (finalize_model(
            FlowType::MSequence,
            ta,
            res,
        ) matches DecisionModel::Stay(StateModel::Success(a)) && find_in(a, "prev_cursor"@)
            is None),
{
    lemma_keys_distinct();
    let c = cursor_model(ta);
    let l = len_or_zero_model(ta);
    match res {
        FinModel::Failure(v) => {
            let w1 = with_in(ta, "prev_cursor"@, ValueModel::Int(c));
            let w2 = with_in(w1, "cursor"@, ValueModel::Int(c));
            let w3 = with_in(w2, "len"@, ValueModel::Int(l));
            lemma_find_with(ta, "prev_cursor"@, ValueModel::Int(c), "prev_cursor"@);
            lemma_find_with(w1, "cursor"@, ValueModel::Int(c), "prev_cursor"@);
            lemma_find_with(w2, "len"@, ValueModel::Int(l), "prev_cursor"@);
            lemma_find_with(w3, "reason"@, ValueModel::Str(v), "prev_cursor"@);
        },
        FinModel::Success => {
            if c == l - 1 {
                let r1 = remove_in(ta, "prev_cursor"@);
                let w2 = with_in(r1, "cursor"@, ValueModel::Int(c));
                lemma_find_remove(ta, "prev_cursor"@, "prev_cursor"@);
                lemma_find_with(r1, "cursor"@, ValueModel::Int(c), "prev_cursor"@);
                lemma_find_with(w2, "len"@, ValueModel::Int(l), "prev_cursor"@);
            }
        },
    }
}

/// Whatever a running parallel node's memory looked like, every running
/// state the flow hands back for it carries a status array of the same
/// length whose entries stay among the four statuses.
pub proof fn lemma_parallel_running_wf(ta: Seq<ArgEntry>, res: FinModel)
    requires
        par_args_wf(ta),
        statuses_in_range(children_or_empty(ta)),
    ensures
        decision_state(monitor_model(FlowType::Parallel, ta)) matches StateModel::Running(a)
            ==> children_wf_as(a, children_or_empty(ta).len()),
        decision_state(finalize_model(FlowType::Parallel, ta, res)) matches StateModel::Running(a)
            ==> children_wf_as(a, children_or_empty(ta).len()),
{
    lemma_keys_distinct();
    let c = cursor_model(ta);
    // the monitor's shapes
    {
        let a1 = with_in(ta, "prev_cursor"@, ValueModel::Int(c));
        let cs = children_or_empty(ta).update(c as int, 1);
        let a2 = with_in(a1, "children"@, ValueModel::Array(int_models(cs)));
        lemma_int_models(cs);
        lemma_find_with(a1, "children"@, ValueModel::Array(int_models(cs)), "children"@);
        lemma_find_with(a2, "cursor"@, ValueModel::Int(0), "children"@);
        assert(children_model(a2) == Some(int_models(cs)));
        assert(children_or_empty(a2) == cs);
        assert(statuses_in_range(cs));
        assert(children_wf_as(a2, children_or_empty(ta).len()));
        match crate::flow::find_pos_model(cs, c + 1, cs.len() as int) {
            Some(idx) => {
                let a3 = with_in(a2, "cursor"@, ValueModel::Int(idx as i64));
                lemma_find_with(a2, "cursor"@, ValueModel::Int(idx as i64), "children"@);
                assert(children_wf_as(a3, children_or_empty(ta).len()));
            },
            None => {},
        }
    }
    // the finalizer's shapes
    {
        let l = len_or_zero_model(ta);
        let st: i64 = match res {
            FinModel::Failure(_) => 2,
            FinModel::Success => 3,
        };
        let cs = children_or_empty(ta).update(c as int, st);
        let a1 = with_in(ta, "children"@, ValueModel::Array(int_models(cs)));
        lemma_int_models(cs);
        lemma_find_with(ta, "children"@, ValueModel::Array(int_models(cs)), "children"@);
        assert(children_model(a1) == Some(int_models(cs)));
        assert(children_or_empty(a1) == cs);
        assert(statuses_in_range(cs));
        match crate::flow::find_pos_model(cs, c + 1, cs.len() as int) {
            Some(idx) => {
                let a3 = with_in(a1, "cursor"@, ValueModel::Int(idx as i64));
                lemma_find_with(a1, "cursor"@, ValueModel::Int(idx as i64), "children"@);
                assert(children_wf_as(a3, children_or_empty(ta).len()));
            },
            None => {
                if crate::flow::has_ready_or_running(cs) {
                    let first = match crate::flow::find_pos_model(cs, 0, c as int) {
                        Some(i) => i as i64,
                        None => 0,
                    };
                    let w1 = with_in(a1, "cursor"@, ValueModel::Int(first));
                    let w2 = with_in(w1, "len"@, ValueModel::Int(l));
                    let w3 = with_in(w2, "prev_cursor"@, ValueModel::Int(0));
                    lemma_find_with(a1, "cursor"@, ValueModel::Int(first), "children"@);
                    lemma_find_with(w1, "len"@, ValueModel::Int(l), "children"@);
                    lemma_find_with(w2, "prev_cursor"@, ValueModel::Int(0), "children"@);
                    assert(children_wf_as(w3, children_or_empty(ta).len()));
                }
            },
        }
    }
}

/// A status array of the expected length, holding only statuses.
pub open spec fn children_wf_as(a: Seq<ArgEntry>, k: nat) -> bool {
    &&& children_model(a) is Some
    &&& children_ok(a)
    &&& children_or_empty(a).len() == k
    &&& statuses_in_range(children_or_empty(a))
}

/// Monitoring makes progress: every decision for a running child either
/// climbs out of the node (a pop in a running state), or — only for a
/// parallel node — stays running with the stored cursor moved strictly
/// past the monitored child; so one node is monitored at most once per
/// child within a tick.
pub proof fn lemma_monitor_progress(tpe: FlowType, ta: Seq<ArgEntry>)
    requires
        tpe == FlowType::Parallel ==> par_args_wf(ta),
    ensures
        monitor_model(tpe, ta) matches DecisionModel::PopNode(st) ==> st matches StateModel::Running(
            _,
        ),
        monitor_model(tpe, ta) matches DecisionModel::Stay(st) ==> {
            &&& tpe == FlowType::Parallel
            &&& st matches StateModel::Running(a)
            &&& match int_at(crate::context::args_of_model(st), "cursor"@) {
                Some(idx) => idx > cursor_model(ta),
                None => false,
            }
        },
{
    if tpe == FlowType::Parallel {
        lemma_keys_distinct();
        let c = cursor_model(ta);
        let a1 = with_in(ta, "prev_cursor"@, ValueModel::Int(c));
        let cs = children_or_empty(ta).update(c as int, 1);
        let a2 = with_in(a1, "children"@, ValueModel::Array(int_models(cs)));
        lemma_find_pos_in_range(cs, c + 1, cs.len() as int);
        match find_pos_model(cs, c + 1, cs.len() as int) {
            Some(idx) => {
                lemma_find_with(a2, "cursor"@, ValueModel::Int(idx as i64), "cursor"@);
            },
            None => {},
        }
    }
}

/// Finalizing makes progress: whenever a composite stays running after a
/// finished child, the stored cursor moved strictly past that child; so a
/// node descends into each child at most once per tick.
pub proof fn lemma_finalize_progress(tpe: FlowType, ta: Seq<ArgEntry>, res: FinModel)
    requires
        tpe == FlowType::Parallel ==> par_args_wf(ta),
        tpe != FlowType::Parallel ==> cursor_model(ta) < i64::MAX,
    ensures
        finalize_model(tpe, ta, res) matches DecisionModel::Stay(st) ==> (st
            matches StateModel::Running(a) ==> match int_at(a, "cursor"@) {
            Some(idx) => idx > cursor_model(ta),
            None => false,
        }),
{
    lemma_keys_distinct();
    let c = cursor_model(ta);
    let l = len_or_zero_model(ta);
    match tpe {
        FlowType::Root => {},
        FlowType::Sequence | FlowType::RSequence | FlowType::MSequence | FlowType::Fallback
            | FlowType::RFallback => {
            let w1 = with_in(ta, "cursor"@, ValueModel::Int((c + 1) as i64));
            lemma_find_with(ta, "cursor"@, ValueModel::Int((c + 1) as i64), "cursor"@);
            lemma_find_with(w1, "len"@, ValueModel::Int(l), "cursor"@);
        },
        FlowType::Parallel => {
            let st: i64 = match res {
                FinModel::Failure(_) => 2,
                FinModel::Success => 3,
            };
            let cs = children_or_empty(ta).update(c as int, st);
            let a1 = with_in(ta, "children"@, ValueModel::Array(int_models(cs)));
            lemma_find_pos_in_range(cs, c + 1, cs.len() as int);
            match find_pos_model(cs, c + 1, cs.len() as int) {
                Some(idx) => {
                    lemma_find_with(a1, "cursor"@, ValueModel::Int(idx as i64), "cursor"@);
                },
                None => {},
            }
        },
    }
}

/// A reactive composite re-enters a tick from its first child: whatever
/// the resolved memory still held, the re-entry memory reads a cursor of
/// zero.
pub proof fn lemma_reactive_restart(tpe: FlowType, ta: Seq<ArgEntry>, len: i64)
    requires
        tpe == FlowType::Sequence || tpe == FlowType::RSequence || tpe == FlowType::Fallback
            || tpe == FlowType::RFallback || tpe == FlowType::Root,
    ensures
        cursor_model(enter_model(tpe, ta, len)) == 0,
{
    lemma_keys_distinct();
    let r1 = remove_in(ta, "prev_cursor"@);
    let w1 = with_in(r1, "cursor"@, ValueModel::Int(0));
    lemma_find_remove(ta, "prev_cursor"@, "prev_cursor"@);
    lemma_find_with(r1, "cursor"@, ValueModel::Int(0), "cursor"@);
    lemma_find_with(r1, "cursor"@, ValueModel::Int(0), "prev_cursor"@);
    lemma_find_with(w1, "len"@, ValueModel::Int(len), "cursor"@);
    lemma_find_with(w1, "len"@, ValueModel::Int(len), "prev_cursor"@);
}

/// A memory sequence re-enters a tick at its stored resume point: with a
/// non-negative resume point stored, the re-entry memory reads exactly it;
/// with none stored, it reads zero.
pub proof fn lemma_memory_reenter(ta: Seq<ArgEntry>, len: i64)
    ensures
        (int_at(ta, "prev_cursor"@) is Some && int_at(ta, "prev_cursor"@)->Some_0 >= 0)
            ==> cursor_model(enter_model(FlowType::MSequence, ta, len)) == int_at(
            ta,
            "prev_cursor"@,
        )->Some_0,
        find_in(ta, "prev_cursor"@) is None ==> cursor_model(
            enter_model(FlowType::MSequence, ta, len),
        ) == 0,
{
    lemma_keys_distinct();
    let w1 = with_in(ta, "cursor"@, ValueModel::Int(0));
    lemma_find_with(ta, "cursor"@, ValueModel::Int(0), "cursor"@);
    lemma_find_with(ta, "cursor"@, ValueModel::Int(0), "prev_cursor"@);
    lemma_find_with(w1, "len"@, ValueModel::Int(len), "cursor"@);
    lemma_find_with(w1, "len"@, ValueModel::Int(len), "prev_cursor"@);
}

} // verus!
