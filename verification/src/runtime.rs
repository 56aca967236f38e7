//! Shared result and error types of the tick engine.

use vstd::prelude::*;
use vstd::string::StringExecFns;

verus! {

/// The public outcome of ticking a node or a whole tree.
#[derive(Debug, PartialEq)]
pub enum TickResult {
    Success,
    Failure(String),
    Running,
}

/// The model of a tick outcome: the failure reason as a character sequence.
#[verifier::ext_equal]
pub enum TickModel {
    Success,
    Failure(Seq<char>),
    Running,
}

impl View for TickResult {
    type V = TickModel;

    open spec fn view(&self) -> TickModel {
        match self {
            TickResult::Success => TickModel::Success,
            TickResult::Failure(v) => TickModel::Failure(v@),
            TickResult::Running => TickModel::Running,
        }
    }
}

impl Clone for TickResult {
    fn clone(&self) -> (r: Self)
        ensures
            r@ == self@,
    {
        match self {
            TickResult::Success => TickResult::Success,
            TickResult::Failure(v) => TickResult::Failure(v.clone()),
            TickResult::Running => TickResult::Running,
        }
    }
}

impl TickResult {
    pub fn success() -> (r: TickResult)
        ensures
            r@ == TickModel::Success,
    {
        TickResult::Success
    }

    pub fn failure(v: String) -> (r: TickResult)
        ensures
            r@ == TickModel::Failure(v@),
    {
        TickResult::Failure(v)
    }

    pub fn running() -> (r: TickResult)
        ensures
            r@ == TickModel::Running,
    {
        TickResult::Running
    }
}

/// A fatal or cooperative error of the runtime.
#[derive(Debug, PartialEq)]
pub enum RuntimeError {
    /// An unexpected state: a bug of the compiler or of the driver.
    Uex(String),
    /// Cooperative termination: the tick limit was hit or a stop was asked.
    Stopped(String),
    /// A rejected blackboard operation.
    BlackboardError(String),
}

/// The model of a runtime error.
#[verifier::ext_equal]
pub enum ErrModel {
    Uex(Seq<char>),
    Stopped(Seq<char>),
    BlackboardError(Seq<char>),
}

impl View for RuntimeError {
    type V = ErrModel;

    open spec fn view(&self) -> ErrModel {
        match self {
            RuntimeError::Uex(v) => ErrModel::Uex(v@),
            RuntimeError::Stopped(v) => ErrModel::Stopped(v@),
            RuntimeError::BlackboardError(v) => ErrModel::BlackboardError(v@),
        }
    }
}

impl RuntimeError {
    /// An unexpected-state error with the given diagnostic.
    pub fn uex(v: String) -> (r: RuntimeError)
        ensures
            r@ == ErrModel::Uex(v@),
    {
        RuntimeError::Uex(v)
    }
}

pub type RtResult<T> = Result<T, RuntimeError>;

pub type RtOk = Result<(), RuntimeError>;

/// The decimal digits of a number, as characters.
pub open spec fn dec_seq(n: nat) -> Seq<char>
    decreases n,
{
    if n < 10 {
        seq![digit_char(n)]
    } else {
        dec_seq(n / 10) + seq![digit_char(n % 10)]
    }
}

/// One decimal digit as a character; other values fall back to '0'.
pub open spec fn digit_char(d: nat) -> char {
    if d == 1 {
        '1'
    } else if d == 2 {
        '2'
    } else if d == 3 {
        '3'
    } else if d == 4 {
        '4'
    } else if d == 5 {
        '5'
    } else if d == 6 {
        '6'
    } else if d == 7 {
        '7'
    } else if d == 8 {
        '8'
    } else if d == 9 {
        '9'
    } else {
        '0'
    }
}

/// One decimal digit as text.
fn digit_text(d: usize) -> (r: &'static str)
    requires
        d < 10,
    ensures
        r@ == seq![digit_char(d as nat)],
{
    proof {
        reveal_strlit("0");
        reveal_strlit("1");
        reveal_strlit("2");
        reveal_strlit("3");
        reveal_strlit("4");
        reveal_strlit("5");
        reveal_strlit("6");
        reveal_strlit("7");
        reveal_strlit("8");
        reveal_strlit("9");
    }
    let r: &'static str = match d {
        1 => "1",
        2 => "2",
        3 => "3",
        4 => "4",
        5 => "5",
        6 => "6",
        7 => "7",
        8 => "8",
        9 => "9",
        _ => "0",
    };
    proof {
        assert(r@ =~= seq![digit_char(d as nat)]);
    }
    r
}

/// A number as decimal text.
pub fn usize_text(n: usize) -> (r: String)
    ensures
        r@ == dec_seq(n as nat),
    decreases n,
{
    if n < 10 {
        digit_text(n).to_owned()
    } else {
        let mut s = usize_text(n / 10);
        s.append(digit_text(n % 10));
        proof {
            assert(s@ =~= dec_seq(n as nat));
        }
        s
    }
}

/// A handle to the runtime environment handed to leaves. The engine here is
/// synchronous, so the handle carries no data.
#[derive(Debug, Clone, Copy, PartialEq, Eq, Structural)]
pub struct RtEnvRef {}

impl RtEnvRef {
    pub fn new() -> (r: RtEnvRef)
        ensures
            r == (RtEnvRef {  }),
    {
        RtEnvRef {  }
    }
}

} // verus!
