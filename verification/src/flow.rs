//! Flow logic: the pure decisions of each composite node kind for each
//! child outcome. `finalize` handles a finished child, `monitor` a child
//! that returned `Running` this tick.

use crate::context::{state_from, RNodeState, StateModel, TreeContext};
use crate::rtargs::{
    find_in, lemma_find_with, remove_in, spec_as_int, with_in, ArgEntry, RtArgs, RtValue,
    ValueModel,
};
use crate::rtree::FlowType;
use crate::runtime::{ErrModel, RtResult, RuntimeError, TickModel, TickResult};
use vstd::prelude::*;

verus! {

/// The name of the current child index.
pub const CURSOR: &'static str = "cursor";

/// The name of the child-count snapshot.
pub const LEN: &'static str = "len";

/// The name of the resume point kept across ticks by memory composites.
pub const P_CURSOR: &'static str = "prev_cursor";

/// The name of the failure reason.
pub const REASON: &'static str = "reason";

/// The name of the per-child status array of a parallel node.
pub const CHILDREN: &'static str = "children";

/// The five flow-level names are pairwise distinct.
pub proof fn lemma_keys_distinct()
    ensures
        "cursor"@ != "len"@,
        "cursor"@ != "prev_cursor"@,
        "cursor"@ != "reason"@,
        "cursor"@ != "children"@,
        "len"@ != "prev_cursor"@,
        "len"@ != "reason"@,
        "len"@ != "children"@,
        "prev_cursor"@ != "reason"@,
        "prev_cursor"@ != "children"@,
        "reason"@ != "children"@,
{
    reveal_strlit("cursor");
    reveal_strlit("len");
    reveal_strlit("prev_cursor");
    reveal_strlit("reason");
    reveal_strlit("children");
    assert("cursor"@.len() == 6);
    assert("len"@.len() == 3);
    assert("prev_cursor"@.len() == 11);
    assert("reason"@.len() == 6);
    assert("children"@.len() == 8);
    assert("cursor"@[0] == 'c' && "reason"@[0] == 'r');
}

/// The integer bound to `key`, if the entry exists and is an integer.
pub open spec fn int_at(s: Seq<ArgEntry>, key: Seq<char>) -> Option<i64> {
    match find_in(s, key) {
        Some(m) => spec_as_int(m),
        None => None,
    }
}

/// The cursor-reading rule: the maximum of `cursor` and `prev_cursor` when
/// both exist, whichever exists otherwise, else 0. This single rule makes a
/// memory composite resume where it was running.
pub open spec fn cursor_model(s: Seq<ArgEntry>) -> i64 {
    match (int_at(s, "cursor"@), int_at(s, "prev_cursor"@)) {
        (Some(a), Some(b)) => if a >= b {
            a
        } else {
            b
        },
        (Some(a), None) => a,
        (None, Some(b)) => b,
        (None, None) => 0,
    }
}

/// The stored child count, or 0 when absent.
pub open spec fn len_or_zero_model(s: Seq<ArgEntry>) -> i64 {
    match int_at(s, "len"@) {
        Some(l) => l,
        None => 0,
    }
}

/// Memory with `cursor` and `len` stamped in.
pub open spec fn stamped(s: Seq<ArgEntry>, c: i64, l: i64) -> Seq<ArgEntry> {
    with_in(with_in(s, "cursor"@, ValueModel::Int(c)), "len"@, ValueModel::Int(l))
}

/// Integers as tagged values.
pub open spec fn int_models(cs: Seq<i64>) -> Seq<ValueModel> {
    cs.map_values(|x: i64| ValueModel::Int(x))
}

/// Whether every element is an integer.
pub open spec fn ints_ok(vs: Seq<ValueModel>) -> bool {
    forall|i: int| 0 <= i < vs.len() ==> vs[i] is Int
}

/// The integer payloads of an all-integer array.
pub open spec fn ints_of(vs: Seq<ValueModel>) -> Seq<i64> {
    vs.map_values(
        |m: ValueModel|
            match m {
                ValueModel::Int(x) => x,
                _ => 0,
            },
    )
}

/// The per-child status array, if the memory holds one.
pub open spec fn children_model(s: Seq<ArgEntry>) -> Option<Seq<ValueModel>> {
    match find_in(s, "children"@) {
        Some(ValueModel::Array(vs)) => Some(vs),
        _ => None,
    }
}

/// A held status array, when present, holds only integers.
pub open spec fn children_ok(s: Seq<ArgEntry>) -> bool {
    match children_model(s) {
        Some(vs) => ints_ok(vs),
        None => true,
    }
}

/// The per-child statuses, or the empty sequence when no array is held.
pub open spec fn children_or_empty(s: Seq<ArgEntry>) -> Seq<i64> {
    match children_model(s) {
        Some(vs) => ints_of(vs),
        None => Seq::empty(),
    }
}

/// The first position in `[low, high)` whose status is ready (0) or
/// running (1).
pub open spec fn find_pos_model(cs: Seq<i64>, low: int, high: int) -> Option<int>
    decreases high - low,
{
    if low < 0 || low >= high || high > cs.len() {
        None
    } else if cs[low] == 0 || cs[low] == 1 {
        Some(low)
    } else {
        find_pos_model(cs, low + 1, high)
    }
}

/// A found position lies in the searched range and is ready or running.
pub proof fn lemma_find_pos_in_range(cs: Seq<i64>, low: int, high: int)
    ensures
        find_pos_model(cs, low, high) matches Some(i) ==> low <= i < high && (cs[i] == 0 || cs[i]
            == 1),
    decreases high - low,
{
    if low < 0 || low >= high || high > cs.len() {
    } else if cs[low] == 0 || cs[low] == 1 {
    } else {
        lemma_find_pos_in_range(cs, low + 1, high);
    }
}

pub open spec fn has_ready_or_running(cs: Seq<i64>) -> bool {
    exists|i: int| 0 <= i < cs.len() && (cs[i] == 0 || cs[i] == 1)
}

pub open spec fn has_failure(cs: Seq<i64>) -> bool {
    exists|i: int| 0 <= i < cs.len() && cs[i] == 2
}

/// What a parallel node's memory must satisfy while it runs: an
/// all-integer status array whose length bounds the cursor.
pub open spec fn par_args_wf(s: Seq<ArgEntry>) -> bool {
    &&& children_model(s) is Some
    &&& children_ok(s)
    &&& 0 <= cursor_model(s) < children_or_empty(s).len()
    &&& children_or_empty(s).len() <= i64::MAX
    &&& children_or_empty(s).len() <= usize::MAX
}

/// Tagging integers keeps them integers, and reading them back gives them
/// unchanged.
pub proof fn lemma_int_models(cs: Seq<i64>)
    ensures
        ints_ok(int_models(cs)),
        ints_of(int_models(cs)) == cs,
{
    assert forall|i: int| 0 <= i < int_models(cs).len() implies int_models(cs)[i] is Int by {
        assert(int_models(cs)[i] == ValueModel::Int(cs[i]));
    }
    assert forall|i: int| 0 <= i < ints_of(int_models(cs)).len() implies ints_of(int_models(cs))[i]
        == cs[i] by {
        assert(int_models(cs)[i] == ValueModel::Int(cs[i]));
    }
    assert(ints_of(int_models(cs)) =~= cs);
}

/// Stamp `cursor` and `len` into the memory.
pub fn run_with(tick_args: RtArgs, cursor: i64, len: i64) -> (r: RtArgs)
    ensures
        r@ == stamped(tick_args@, cursor, len),
{
    tick_args.with(CURSOR, RtValue::of_int(cursor)).with(LEN, RtValue::of_int(len))
}

/// The first visit of a parallel node seeds the status array with zeroes;
/// a later visit keeps the prior statuses and resumes from the last cursor.
pub fn run_with_par(tick_args: RtArgs, len: i64) -> (r: RtArgs)
    requires
        len >= 0,
        len <= usize::MAX,
        children_ok(tick_args@),
    ensures
        r@ == run_with_par_model(tick_args@, len),
{
    let prev_states = read_children_state(&tick_args);
    if prev_states.len() == 0 {
        let mut zeroes: Vec<RtValue> = Vec::new();
        let n: usize = len as usize;
        let mut i: usize = 0;
        while i < n
            invariant
                i <= n,
                zeroes@.len() == i as nat,
                forall|j: int| 0 <= j < i ==> zeroes@[j]@ == ValueModel::Int(0),
            decreases n - i,
        {
            zeroes.push(RtValue::of_int(0));
            i = i + 1;
        }
        let arr = RtValue::Array(zeroes);
        proof {
            assert(arr@ matches ValueModel::Array(vs) && vs =~= int_models(
                Seq::new(len as nat, |j: int| 0i64),
            ));
            assert(arr@ == ValueModel::Array(int_models(Seq::new(len as nat, |j: int| 0i64))));
        }
        run_with(tick_args.with(CHILDREN, arr), 0, len)
    } else {
        let cursor = match read_cursor(&tick_args) {
            Ok(c) => c,
            Err(_) => 0,
        };
        run_with(tick_args, cursor, len)
    }
}

/// How `run_with_par` reshapes the memory.
pub open spec fn run_with_par_model(ta: Seq<ArgEntry>, len: i64) -> Seq<ArgEntry> {
    if children_or_empty(ta).len() == 0 {
        stamped(
            with_in(ta, "children"@, ValueModel::Array(int_models(Seq::new(len as nat, |j: int| 0i64)))),
            0,
            len,
        )
    } else {
        stamped(ta, cursor_model(ta), len)
    }
}

/// The stored child count, or 0.
pub fn read_len_or_zero(args: &RtArgs) -> (r: i64)
    ensures
        r == len_or_zero_model(args@),
{
    match args.find(LEN) {
        Some(v) => match v.as_int() {
            Some(l) => l,
            None => 0,
        },
        None => 0,
    }
}

/// Read and reconcile `cursor` and `prev_cursor`; see [`cursor_model`].
pub fn read_cursor(tick_args: &RtArgs) -> (r: RtResult<i64>)
    ensures
        r matches Ok(c) && c == cursor_model(tick_args@),
{
    let p_cursor = match tick_args.find(CURSOR) {
        Some(v) => v.as_int(),
        None => None,
    };
    let cursor = match tick_args.find(P_CURSOR) {
        Some(v) => v.as_int(),
        None => None,
    };
    match (cursor, p_cursor) {
        (Some(lhs), Some(rhs)) => Ok(if rhs >= lhs {
            rhs
        } else {
            lhs
        }),
        (None, Some(v)) => Ok(v),
        (Some(v), None) => Ok(v),
        _ => Ok(0),
    }
}

/// The stored per-child statuses, or an empty vector when no array is held.
pub fn read_children_state(args: &RtArgs) -> (r: Vec<i64>)
    requires
        children_ok(args@),
    ensures
        r@ == children_or_empty(args@),
{
    match args.find(CHILDREN) {
        Some(RtValue::Array(vs)) => {
            let ghost cm = children_model(args@)->Some_0;
            proof {
                assert(cm =~= Seq::new(vs@.len(), |i: int| model_of_guarded(vs@, i)));
            }
            let mut out: Vec<i64> = Vec::new();
            let mut i: usize = 0;
            while i < vs.len()
                invariant
                    i <= vs@.len(),
                    children_model(args@) == Some(cm),
                    ints_ok(cm),
                    cm.len() == vs@.len(),
                    forall|j: int| 0 <= j < vs@.len() ==> cm[j] == vs@[j]@,
                    out@.len() == i as nat,
                    forall|j: int| 0 <= j < i ==> out@[j] == ints_of(cm)[j],
                decreases vs@.len() - i,
            {
                match &vs[i] {
                    RtValue::Int(x) => {
                        out.push(*x);
                    },
                    _ => {
                        proof {
                            assert(cm[i as int] == vs@[i as int]@);
                            assert(false);
                        }
                    },
                }
                i = i + 1;
            }
            proof {
                assert(out@ =~= ints_of(cm));
            }
            out
        },
        _ => {
            Vec::new()
        },
    }
}

/// The model of one array slot, with out-of-range slots defaulted.
pub open spec fn model_of_guarded(vs: Seq<RtValue>, i: int) -> ValueModel {
    if 0 <= i < vs.len() {
        vs[i]@
    } else {
        ValueModel::Bool(false)
    }
}

/// Overwrite the status of child `idx` in the held array.
pub fn replace_child_state(args: RtArgs, idx: usize, v: i64) -> (r: RtArgs)
    requires
        children_ok(args@),
        children_model(args@) is Some,
        idx < children_or_empty(args@).len(),
    ensures
        r@ == with_in(
            args@,
            "children"@,
            ValueModel::Array(int_models(children_or_empty(args@).update(idx as int, v))),
        ),
{
    let mut elems = read_children_state(&args);
    elems.set(idx, v);
    let ghost target = children_or_empty(args@).update(idx as int, v);
    let mut vals: Vec<RtValue> = Vec::new();
    let mut i: usize = 0;
    while i < elems.len()
        invariant
            i <= elems@.len(),
            elems@ == target,
            vals@.len() == i as nat,
            forall|j: int| 0 <= j < i ==> vals@[j]@ == ValueModel::Int(target[j]),
        decreases elems@.len() - i,
    {
        vals.push(RtValue::of_int(elems[i]));
        i = i + 1;
    }
    let arr = RtValue::Array(vals);
    proof {
        assert(arr@ matches ValueModel::Array(ws) && ws =~= int_models(target));
        assert(arr@ == ValueModel::Array(int_models(target)));
    }
    args.with(CHILDREN, arr)
}

/// Whether any slot holds `x`.
fn contains_val(cs: &Vec<i64>, x: i64) -> (r: bool)
    ensures
        r == exists|i: int| 0 <= i < cs@.len() && cs@[i] == x,
{
    let mut i: usize = 0;
    while i < cs.len()
        invariant
            i <= cs@.len(),
            forall|j: int| 0 <= j < i ==> cs@[j] != x,
        decreases cs@.len() - i,
    {
        if cs[i] == x {
            return true;
        }
        i = i + 1;
    }
    false
}

/// The first position in `[low, high)` whose status is ready or running.
fn find_pos(children: &Vec<i64>, low: i64, high: i64) -> (r: Option<usize>)
    requires
        0 <= low,
        high <= children@.len(),
    ensures
        (r is Some) == (find_pos_model(children@, low as int, high as int) is Some),
        r matches Some(i) ==> Some(i as int) == find_pos_model(children@, low as int, high as int),
{
    let clen: usize = children.len();
    if high <= low {
        return None;
    }
    proof {
        assert(children@.len() == clen);
    }
    let mut cursor: usize = low as usize;
    let h: usize = high as usize;
    while cursor < h
        invariant
            low <= cursor <= h,
            h == high as int,
            high <= children@.len(),
            find_pos_model(children@, low as int, high as int) == find_pos_model(
                children@,
                cursor as int,
                high as int,
            ),
        decreases h - cursor,
    {
        if children[cursor] == 0 || children[cursor] == 1 {
            return Some(cursor);
        }
        cursor = cursor + 1;
    }
    None
}

/// The next ready-or-running position strictly after `current`.
fn find_next_idx(children: &Vec<i64>, current: i64) -> (r: Option<usize>)
    requires
        0 <= current,
        current < i64::MAX,
        children@.len() <= i64::MAX,
    ensures
        (r is Some) == (find_pos_model(children@, current + 1, children@.len() as int) is Some),
        r matches Some(i) ==> Some(i as int) == find_pos_model(
            children@,
            current + 1,
            children@.len() as int,
        ),
{
    find_pos(children, current + 1, children.len() as i64)
}

/// The first ready-or-running position before `current`.
fn find_first_idx(children: &Vec<i64>, current: i64) -> (r: Option<usize>)
    requires
        0 <= current <= children@.len(),
    ensures
        (r is Some) == (find_pos_model(children@, 0, current as int) is Some),
        r matches Some(i) ==> Some(i as int) == find_pos_model(children@, 0, current as int),
{
    find_pos(children, 0, current)
}

/// The finished statuses only, for propagation through the flow.
#[derive(Debug, PartialEq)]
pub enum TickResultFin {
    Failure(String),
    Success,
}

/// The model of a finished status.
#[verifier::ext_equal]
pub enum FinModel {
    Failure(Seq<char>),
    Success,
}

impl View for TickResultFin {
    type V = FinModel;

    open spec fn view(&self) -> FinModel {
        match self {
            TickResultFin::Failure(v) => FinModel::Failure(v@),
            TickResultFin::Success => FinModel::Success,
        }
    }
}

/// A finished status as a public tick result.
pub open spec fn fin_as_tick(m: FinModel) -> TickModel {
    match m {
        FinModel::Failure(v) => TickModel::Failure(v),
        FinModel::Success => TickModel::Success,
    }
}

impl TickResultFin {
    /// A finished node state as a finished status; `Ready` and `Running`
    /// are unexpected here.
    pub fn try_from(value: RNodeState) -> (r: RtResult<TickResultFin>)
        ensures
            match value@ {
                StateModel::Success(_) => r matches Ok(f) && f@ == FinModel::Success,
                StateModel::Failure(s) => r matches Ok(f) && f@ == FinModel::Failure(
                    crate::context::reason_or_empty(s),
                ),
                _ => r matches Err(e) && e@ matches ErrModel::Uex(_),
            },
    {
        match value {
            RNodeState::Success(_) => Ok(TickResultFin::Success),
            RNodeState::Failure(v) => {
                let r = match v.find(REASON) {
                    Some(x) => match x.as_string() {
                        Some(s) => s,
                        None => String::new(),
                    },
                    None => String::new(),
                };
                Ok(TickResultFin::Failure(r))
            },
            _ => Err(RuntimeError::uex("running is unexpected".to_owned())),
        }
    }

    /// Widen back into a public tick result.
    pub fn into_tick_result(self) -> (r: TickResult)
        ensures
            r@ == fin_as_tick(self@),
    {
        match self {
            TickResultFin::Failure(v) => TickResult::Failure(v),
            TickResultFin::Success => TickResult::Success,
        }
    }
}

/// What a flow node asks the driver to do: record the state and stay on the
/// node (descending again if running), or record it and pop the node.
#[derive(Debug, PartialEq)]
pub enum FlowDecision {
    PopNode(RNodeState),
    Stay(RNodeState),
}

/// The model of a decision.
#[verifier::ext_equal]
pub enum DecisionModel {
    PopNode(StateModel),
    Stay(StateModel),
}

impl View for FlowDecision {
    type V = DecisionModel;

    open spec fn view(&self) -> DecisionModel {
        match self {
            FlowDecision::PopNode(st) => DecisionModel::PopNode(st@),
            FlowDecision::Stay(st) => DecisionModel::Stay(st@),
        }
    }
}

/// The decision of `finalize` for the root: mirror the single child's
/// outcome.
pub open spec fn root_out(ta: Seq<ArgEntry>, res: FinModel) -> DecisionModel {
    DecisionModel::Stay(state_from(stamped(ta, 0, 1), fin_as_tick(res)))
}

/// The decision of `finalize` for a (reactive) sequence.
pub open spec fn seq_out(ta: Seq<ArgEntry>, res: FinModel) -> DecisionModel {
    let c = cursor_model(ta);
    let l = len_or_zero_model(ta);
    match res {
        FinModel::Failure(v) => DecisionModel::Stay(
            StateModel::Failure(
                stamped(with_in(remove_in(ta, "prev_cursor"@), "reason"@, ValueModel::Str(v)), c, l),
            ),
        ),
        FinModel::Success => if c == l - 1 {
            DecisionModel::Stay(StateModel::Success(stamped(remove_in(ta, "prev_cursor"@), c, l)))
        } else {
            DecisionModel::Stay(StateModel::Running(stamped(ta, (c + 1) as i64, l)))
        },
    }
}

/// The decision of `finalize` for a sequence with memory: a failure keeps
/// the resume point.
pub open spec fn mseq_out(ta: Seq<ArgEntry>, res: FinModel) -> DecisionModel {
    let c = cursor_model(ta);
    let l = len_or_zero_model(ta);
    match res {
        FinModel::Failure(v) => DecisionModel::Stay(
            StateModel::Failure(
                with_in(
                    stamped(with_in(ta, "prev_cursor"@, ValueModel::Int(c)), c, l),
                    "reason"@,
                    ValueModel::Str(v),
                ),
            ),
        ),
        FinModel::Success => if c == l - 1 {
            DecisionModel::Stay(StateModel::Success(stamped(remove_in(ta, "prev_cursor"@), c, l)))
        } else {
            DecisionModel::Stay(StateModel::Running(stamped(ta, (c + 1) as i64, l)))
        },
    }
}

/// The decision of `finalize` for a fallback.
pub open spec fn fallback_out(ta: Seq<ArgEntry>, res: FinModel) -> DecisionModel {
    let c = cursor_model(ta);
    let l = len_or_zero_model(ta);
    match res {
        FinModel::Failure(v) => if c == l - 1 {
            DecisionModel::Stay(
                StateModel::Failure(
                    stamped(
                        with_in(remove_in(ta, "prev_cursor"@), "reason"@, ValueModel::Str(v)),
                        c,
                        l,
                    ),
                ),
            )
        } else {
            DecisionModel::Stay(StateModel::Running(stamped(ta, (c + 1) as i64, l)))
        },
        FinModel::Success => DecisionModel::Stay(
            StateModel::Success(stamped(remove_in(ta, "prev_cursor"@), c, l)),
        ),
    }
}

/// The decision of `finalize` for a parallel node, after writing the
/// child's status into the array.
pub open spec fn par_out(ta: Seq<ArgEntry>, res: FinModel) -> DecisionModel {
    let c = cursor_model(ta);
    let l = len_or_zero_model(ta);
    let st: i64 = match res {
        FinModel::Failure(_) => 2,
        FinModel::Success => 3,
    };
    let cs = children_or_empty(ta).update(c as int, st);
    let a1 = with_in(ta, "children"@, ValueModel::Array(int_models(cs)));
    match find_pos_model(cs, c + 1, cs.len() as int) {
        Some(idx) => DecisionModel::Stay(
            StateModel::Running(with_in(a1, "cursor"@, ValueModel::Int(idx as i64))),
        ),
        None => if has_ready_or_running(cs) {
            let first = match find_pos_model(cs, 0, c as int) {
                Some(i) => i as i64,
                None => 0,
            };
            DecisionModel::PopNode(
                StateModel::Running(
                    with_in(stamped(a1, first, l), "prev_cursor"@, ValueModel::Int(0)),
                ),
            )
        } else if has_failure(cs) {
            DecisionModel::Stay(
                StateModel::Failure(
                    remove_in(
                        with_in(stamped(a1, c, l), "reason"@, ValueModel::Str("parallel failure"@)),
                        "children"@,
                    ),
                ),
            )
        } else {
            DecisionModel::Stay(StateModel::Success(remove_in(stamped(a1, c, l), "children"@)))
        },
    }
}

/// The decision of `finalize`, by composite kind.
pub open spec fn finalize_model(tpe: FlowType, ta: Seq<ArgEntry>, res: FinModel) -> DecisionModel {
    match tpe {
        FlowType::Root => root_out(ta, res),
        FlowType::Sequence => seq_out(ta, res),
        FlowType::RSequence => seq_out(ta, res),
        FlowType::MSequence => mseq_out(ta, res),
        FlowType::Fallback => fallback_out(ta, res),
        FlowType::RFallback => fallback_out(ta, res),
        FlowType::Parallel => par_out(ta, res),
    }
}

/// The decision of `monitor`, by composite kind.
pub open spec fn monitor_model(tpe: FlowType, ta: Seq<ArgEntry>) -> DecisionModel {
    match tpe {
        FlowType::Sequence | FlowType::MSequence | FlowType::Fallback => DecisionModel::PopNode(
            StateModel::Running(
                with_in(ta, "prev_cursor"@, ValueModel::Int(cursor_model(ta))),
            ),
        ),
        FlowType::Parallel => monitor_par_model(ta),
        _ => DecisionModel::PopNode(StateModel::Running(ta)),
    }
}

/// The decision of `monitor` for a parallel node: mark the running child,
/// stash the resume point, and stay when a later child still waits.
pub open spec fn monitor_par_model(ta: Seq<ArgEntry>) -> DecisionModel {
    let c = cursor_model(ta);
    let a1 = with_in(ta, "prev_cursor"@, ValueModel::Int(c));
    let cs = children_or_empty(ta).update(c as int, 1);
    let a2 = with_in(a1, "children"@, ValueModel::Array(int_models(cs)));
    match find_pos_model(cs, c + 1, cs.len() as int) {
        Some(idx) => DecisionModel::Stay(
            StateModel::Running(with_in(a2, "cursor"@, ValueModel::Int(idx as i64))),
        ),
        None => DecisionModel::PopNode(StateModel::Running(a2)),
    }
}

/// Decide what a flow node does when its current child finished.
pub fn finalize(
    tpe: &FlowType,
    _args: RtArgs,
    tick_args: RtArgs,
    res: TickResultFin,
    ctx: &mut TreeContext,
) -> (r: RtResult<FlowDecision>)
    requires
        *tpe == FlowType::Parallel ==> par_args_wf(tick_args@),
        *tpe != FlowType::Parallel ==> cursor_model(tick_args@) < i64::MAX,
        !(*tpe == FlowType::Parallel || *tpe == FlowType::Root) ==> len_or_zero_model(tick_args@)
            > i64::MIN,
    ensures
        *final(ctx) == *old(ctx),
        r is Ok,
        r matches Ok(d) ==> d@ == finalize_model(*tpe, tick_args@, res@),
{
    match tpe {
        FlowType::Root => {
            let fin = res.into_tick_result();
            Ok(FlowDecision::Stay(RNodeState::from(run_with(tick_args, 0, 1), fin)))
        },
        FlowType::Sequence | FlowType::RSequence => {
            let cursor = match read_cursor(&tick_args) {
                Ok(c) => c,
                Err(_) => 0,
            };
            let len = read_len_or_zero(&tick_args);
            match res {
                TickResultFin::Failure(v) => {
                    let args2 = tick_args.remove(P_CURSOR).with(REASON, RtValue::of_str(v));
                    Ok(FlowDecision::Stay(RNodeState::Failure(run_with(args2, cursor, len))))
                },
                TickResultFin::Success => {
                    if cursor == len - 1 {
                        let args2 = tick_args.remove(P_CURSOR);
                        Ok(FlowDecision::Stay(RNodeState::Success(run_with(args2, cursor, len))))
                    } else {
                        Ok(
                            FlowDecision::Stay(
                                RNodeState::Running(run_with(tick_args, cursor + 1, len)),
                            ),
                        )
                    }
                },
            }
        },
        FlowType::MSequence => {
            let cursor = match read_cursor(&tick_args) {
                Ok(c) => c,
                Err(_) => 0,
            };
            let len = read_len_or_zero(&tick_args);
            match res {
                TickResultFin::Failure(v) => {
                    let args2 = run_with(
                        tick_args.with(P_CURSOR, RtValue::of_int(cursor)),
                        cursor,
                        len,
                    ).with(REASON, RtValue::of_str(v));
                    Ok(FlowDecision::Stay(RNodeState::Failure(args2)))
                },
                TickResultFin::Success => {
                    if cursor == len - 1 {
                        let args2 = tick_args.remove(P_CURSOR);
                        Ok(FlowDecision::Stay(RNodeState::Success(run_with(args2, cursor, len))))
                    } else {
                        Ok(
                            FlowDecision::Stay(
                                RNodeState::Running(run_with(tick_args, cursor + 1, len)),
                            ),
                        )
                    }
                },
            }
        },
        FlowType::Fallback | FlowType::RFallback => {
            let cursor = match read_cursor(&tick_args) {
                Ok(c) => c,
                Err(_) => 0,
            };
            let len = read_len_or_zero(&tick_args);
            match res {
                TickResultFin::Failure(v) => {
                    if cursor == len - 1 {
                        let args2 = tick_args.remove(P_CURSOR).with(REASON, RtValue::of_str(v));
                        Ok(FlowDecision::Stay(RNodeState::Failure(run_with(args2, cursor, len))))
                    } else {
                        Ok(
                            FlowDecision::Stay(
                                RNodeState::Running(run_with(tick_args, cursor + 1, len)),
                            ),
                        )
                    }
                },
                TickResultFin::Success => {
                    let args2 = tick_args.remove(P_CURSOR);
                    Ok(FlowDecision::Stay(RNodeState::Success(run_with(args2, cursor, len))))
                },
            }
        },
        FlowType::Parallel => {
            let ghost ta = tick_args@;
            let cursor = match read_cursor(&tick_args) {
                Ok(c) => c,
                Err(_) => 0,
            };
            let len = read_len_or_zero(&tick_args);
            let st: i64 = match &res {
                TickResultFin::Failure(_) => 2,
                TickResultFin::Success => 3,
            };
            let tick_args = replace_child_state(tick_args, cursor as usize, st);
            proof {
                lemma_keys_distinct();
                lemma_int_models(children_or_empty(ta).update(cursor as int, st));
                lemma_find_with(
                    ta,
                    "children"@,
                    ValueModel::Array(int_models(children_or_empty(ta).update(cursor as int, st))),
                    "children"@,
                );
            }
            let children = read_children_state(&tick_args);
            let ghost cs = children_or_empty(ta).update(cursor as int, st);
            proof {
                assert(children@ =~= cs);
            }
            match find_next_idx(&children, cursor) {
                Some(idx) => {
                    Ok(
                        FlowDecision::Stay(
                            RNodeState::Running(
                                tick_args.with(CURSOR, RtValue::of_int(idx as i64)),
                            ),
                        ),
                    )
                },
                None => {
                    if contains_val(&children, 1) || contains_val(&children, 0) {
                        let next_cursor: i64 = match find_first_idx(&children, cursor) {
                            Some(i) => i as i64,
                            None => 0,
                        };
                        let next_state = RNodeState::Running(
                            run_with(tick_args, next_cursor, len).with(
                                P_CURSOR,
                                RtValue::of_int(0),
                            ),
                        );
                        Ok(FlowDecision::PopNode(next_state))
                    } else if contains_val(&children, 2) {
                        let args2 = run_with(tick_args, cursor, len).with(
                            REASON,
                            RtValue::of_str("parallel failure".to_owned()),
                        ).remove(CHILDREN);
                        Ok(FlowDecision::Stay(RNodeState::Failure(args2)))
                    } else {
                        Ok(
                            FlowDecision::Stay(
                                RNodeState::Success(run_with(tick_args, cursor, len).remove(CHILDREN)),
                            ),
                        )
                    }
                },
            }
        },
    }
}

/// Decide what a flow node does when its current child returned `Running`
/// this tick.
pub fn monitor(tpe: &FlowType, _args: RtArgs, tick_args: RtArgs, ctx: &mut TreeContext) -> (r:
    RtResult<FlowDecision>)
    requires
        *tpe == FlowType::Parallel ==> par_args_wf(tick_args@),
    ensures
        *final(ctx) == *old(ctx),
        r is Ok,
        r matches Ok(d) ==> d@ == monitor_model(*tpe, tick_args@),
{
    match tpe {
        FlowType::Sequence | FlowType::MSequence | FlowType::Fallback => {
            let cursor = match read_cursor(&tick_args) {
                Ok(c) => c,
                Err(_) => 0,
            };
            Ok(
                FlowDecision::PopNode(
                    RNodeState::Running(tick_args.with(P_CURSOR, RtValue::of_int(cursor))),
                ),
            )
        },
        FlowType::Parallel => {
            let ghost ta = tick_args@;
            let cursor = match read_cursor(&tick_args) {
                Ok(c) => c,
                Err(_) => 0,
            };
            let with_prev = tick_args.with(P_CURSOR, RtValue::of_int(cursor));
            proof {
                lemma_keys_distinct();
                lemma_find_with(ta, "prev_cursor"@, ValueModel::Int(cursor), "children"@);
                lemma_find_with(ta, "prev_cursor"@, ValueModel::Int(cursor), "cursor"@);
            }
            let new_args = replace_child_state(with_prev, cursor as usize, 1);
            proof {
                lemma_int_models(children_or_empty(with_prev@).update(cursor as int, 1));
                lemma_find_with(
                    with_prev@,
                    "children"@,
                    ValueModel::Array(
                        int_models(children_or_empty(with_prev@).update(cursor as int, 1)),
                    ),
                    "children"@,
                );
            }
            let children = read_children_state(&new_args);
            let ghost cs = children_or_empty(ta).update(cursor as int, 1);
            proof {
                assert(children@ =~= cs);
            }
            match find_next_idx(&children, cursor) {
                Some(idx) => {
                    Ok(
                        FlowDecision::Stay(
                            RNodeState::Running(
                                new_args.with(CURSOR, RtValue::of_int(idx as i64)),
                            ),
                        ),
                    )
                },
                None => Ok(FlowDecision::PopNode(RNodeState::Running(new_args))),
            }
        },
        _ => Ok(FlowDecision::PopNode(RNodeState::Running(tick_args))),
    }
}

/// Whether a held status array, if any, holds only integers.
pub fn check_children_ok(args: &RtArgs) -> (r: bool)
    ensures
        r == children_ok(args@),
{
    match args.find(CHILDREN) {
        Some(RtValue::Array(vs)) => {
            let ghost cm = children_model(args@)->Some_0;
            proof {
                assert(cm =~= Seq::new(vs@.len(), |i: int| model_of_guarded(vs@, i)));
            }
            let mut i: usize = 0;
            while i < vs.len()
                invariant
                    i <= vs@.len(),
                    children_model(args@) == Some(cm),
                    cm.len() == vs@.len(),
                    forall|j: int| 0 <= j < vs@.len() ==> cm[j] == vs@[j]@,
                    forall|j: int| 0 <= j < i ==> cm[j] is Int,
                decreases vs@.len() - i,
            {
                match &vs[i] {
                    RtValue::Int(_) => {},
                    _ => {
                        proof {
                            assert(cm[i as int] == vs@[i as int]@);
                        }
                        return false;
                    },
                }
                i = i + 1;
            }
            true
        },
        _ => true,
    }
}

/// Whether the memory satisfies what a running parallel node must hold;
/// see [`par_args_wf`].
pub fn check_par_wf(args: &RtArgs) -> (r: bool)
    ensures
        r == par_args_wf(args@),
{
    match args.find(CHILDREN) {
        Some(RtValue::Array(vs)) => {
            let n = vs.len();
            let ghost cm = children_model(args@)->Some_0;
            proof {
                assert(cm =~= Seq::new(vs@.len(), |i: int| model_of_guarded(vs@, i)));
                assert(children_or_empty(args@).len() == cm.len());
            }
            let mut i: usize = 0;
            while i < n
                invariant
                    i <= n,
                    n == vs@.len(),
                    children_model(args@) == Some(cm),
                    cm.len() == vs@.len(),
                    forall|j: int| 0 <= j < vs@.len() ==> cm[j] == vs@[j]@,
                    forall|j: int| 0 <= j < i ==> cm[j] is Int,
                decreases n - i,
            {
                match &vs[i] {
                    RtValue::Int(_) => {},
                    _ => {
                        proof {
                            assert(cm[i as int] == vs@[i as int]@);
                        }
                        return false;
                    },
                }
                i = i + 1;
            }
            let cursor = match read_cursor(args) {
                Ok(c) => c,
                Err(_) => 0,
            };
            if cursor < 0 {
                return false;
            }
            if (n as u64) > (i64::MAX as u64) {
                return false;
            }
            if (cursor as u64) >= (n as u64) {
                return false;
            }
            true
        },
        _ => false,
    }
}

/// The memory a flow node re-enters a tick with: a reactive composite
/// restarts from the first child (any resume point is dropped), a memory
/// sequence keeps its resume point, a parallel node keeps or seeds its
/// status array.
pub fn enter_args(tpe: &FlowType, tick_args: RtArgs, len: i64) -> (r: RtArgs)
    requires
        *tpe == FlowType::Parallel ==> len >= 0 && len <= usize::MAX && children_ok(tick_args@),
    ensures
        r@ == enter_model(*tpe, tick_args@, len),
{
    match tpe {
        FlowType::Parallel => run_with_par(tick_args, len),
        FlowType::MSequence => run_with(tick_args, 0, len),
        _ => run_with(tick_args.remove(P_CURSOR), 0, len),
    }
}

/// How `enter_args` reshapes the memory.
pub open spec fn enter_model(tpe: FlowType, ta: Seq<ArgEntry>, len: i64) -> Seq<ArgEntry> {
    match tpe {
        FlowType::Parallel => run_with_par_model(ta, len),
        FlowType::MSequence => stamped(ta, 0, len),
        _ => stamped(remove_in(ta, "prev_cursor"@), 0, len),
    }
}

} // verus!
