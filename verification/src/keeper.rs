//! The action keeper: the registry resolving a leaf name to its
//! implementation. Leaf bodies are external collaborators; here each leaf
//! carries a script of outcomes, handed out one per tick, the last one
//! repeating once the script is exhausted.

use crate::context::TreeContextRef;
use crate::rtargs::RtArgs;
use crate::runtime::{RtResult, TickModel, TickResult};
use vstd::prelude::*;

verus! {

/// One registered leaf: its name, its scripted outcomes, and how many
/// ticks it has already answered.
#[derive(Debug)]
pub struct ActionEntry {
    pub name: String,
    pub results: Vec<TickResult>,
    pub pos: usize,
}

/// The model of one registered leaf.
#[verifier::ext_equal]
pub struct EntryModel {
    pub name: Seq<char>,
    pub results: Seq<TickModel>,
    pub pos: usize,
}

impl View for ActionEntry {
    type V = EntryModel;

    open spec fn view(&self) -> EntryModel {
        EntryModel {
            name: self.name@,
            results: self.results@.map_values(|t: TickResult| t@),
            pos: self.pos,
        }
    }
}

/// The registry.
#[derive(Debug)]
pub struct ActionKeeper {
    pub actions: Vec<ActionEntry>,
}

impl View for ActionKeeper {
    type V = Seq<EntryModel>;

    open spec fn view(&self) -> Seq<EntryModel> {
        self.actions@.map_values(|a: ActionEntry| a@)
    }
}

/// The first entry registered under `name`.
pub open spec fn keeper_idx(s: Seq<EntryModel>, name: Seq<char>) -> Option<int>
    decreases s.len(),
{
    if s.len() == 0 {
        None
    } else if s[0].name == name {
        Some(0)
    } else {
        match keeper_idx(s.skip(1), name) {
            Some(i) => Some(i + 1),
            None => None,
        }
    }
}

/// If the first match sits at `i`, that is the entry found.
pub proof fn lemma_keeper_idx_at(s: Seq<EntryModel>, name: Seq<char>, i: int)
    requires
        0 <= i < s.len(),
        s[i].name == name,
        forall|j: int| 0 <= j < i ==> s[j].name != name,
    ensures
        keeper_idx(s, name) == Some(i),
    decreases s.len(),
{
    if i == 0 {
    } else {
        assert(forall|j: int| 0 <= j < i - 1 ==> s.skip(1)[j].name != name);
        lemma_keeper_idx_at(s.skip(1), name, i - 1);
    }
}

/// If no entry matches, none is found.
pub proof fn lemma_keeper_idx_none(s: Seq<EntryModel>, name: Seq<char>)
    requires
        forall|j: int| 0 <= j < s.len() ==> s[j].name != name,
    ensures
        keeper_idx(s, name) is None,
    decreases s.len(),
{
    if s.len() == 0 {
    } else {
        assert(forall|j: int| 0 <= j < s.skip(1).len() ==> s.skip(1)[j].name != name);
        lemma_keeper_idx_none(s.skip(1), name);
    }
}

/// The script index answered when `pos` ticks already happened: the last
/// outcome repeats once the script is exhausted.
pub open spec fn script_at(e: EntryModel) -> int {
    if e.pos < e.results.len() {
        e.pos as int
    } else {
        e.results.len() - 1
    }
}

/// The keeper after one answered tick: the found entry's position advances
/// until it passes the end of the script.
pub open spec fn keeper_after_tick(s: Seq<EntryModel>, i: int) -> Seq<EntryModel> {
    let e = s[i];
    s.update(
        i,
        EntryModel {
            pos: if e.pos < e.results.len() {
                (e.pos + 1) as usize
            } else {
                e.pos
            },
            ..e
        },
    )
}

/// The first position registered under `k`, scanning left to right.
fn find_entry(actions: &Vec<ActionEntry>, k: &String) -> (r: Option<usize>)
    ensures
        match r {
            Some(i) => i < actions@.len() && actions@[i as int]@.name == k@ && (forall|j: int|
                0 <= j < i ==> actions@[j]@.name != k@),
            None => forall|j: int| 0 <= j < actions@.len() ==> actions@[j]@.name != k@,
        },
{
    let mut i: usize = 0;
    while i < actions.len()
        invariant
            i <= actions@.len(),
            forall|j: int| 0 <= j < i ==> actions@[j]@.name != k@,
        decreases actions@.len() - i,
    {
        if actions[i].name == *k {
            return Some(i);
        }
        i = i + 1;
    }
    None
}

impl ActionKeeper {
    /// An empty registry.
    pub fn new() -> (r: ActionKeeper)
        ensures
            r@ == Seq::<EntryModel>::empty(),
    {
        let r = ActionKeeper { actions: Vec::new() };
        proof {
            assert(r@ =~= Seq::<EntryModel>::empty());
        }
        r
    }

    /// Register a leaf under `name` with its scripted outcomes.
    pub fn register(&mut self, name: String, results: Vec<TickResult>)
        ensures
            final(self)@ == old(self)@.push(
                EntryModel {
                    name: name@,
                    results: results@.map_values(|t: TickResult| t@),
                    pos: 0,
                },
            ),
    {
        let ghost nm = name@;
        let ghost rm = results@.map_values(|t: TickResult| t@);
        self.actions.push(ActionEntry { name, results, pos: 0 });
        proof {
            assert(self@ =~= old(self)@.push(EntryModel { name: nm, results: rm, pos: 0 }));
        }
    }

    /// Tick the leaf registered under `name`: hand out the next scripted
    /// outcome; an unknown name or an empty script becomes a failure
    /// outcome, never an error.
    pub fn tick(&mut self, name: &str, _args: RtArgs, ctx: &mut TreeContextRef) -> (r: RtResult<
        TickResult,
    >)
        ensures
            *final(ctx) == *old(ctx),
            r is Ok,
            keeper_idx(old(self)@, name@) is None ==> *final(self) == *old(self) && (r matches Ok(
                t,
            ) && t@ == TickModel::Failure("the action is not registered"@)),
            keeper_idx(old(self)@, name@) matches Some(i) ==> {
                let e = old(self)@[i];
                if e.results.len() == 0 {
                    *final(self) == *old(self) && (r matches Ok(t) && t@ == TickModel::Failure(
                        "the action has no scripted result"@,
                    ))
                } else {
                    &&& r matches Ok(t) && t@ == e.results[script_at(e)]
                    &&& final(self)@ == keeper_after_tick(old(self)@, i)
                }
            },
    {
        let k: String = name.to_owned();
        let i: usize = match find_entry(&self.actions, &k) {
            Some(i) => {
                proof {
                    lemma_keeper_idx_at(self@, name@, i as int);
                }
                i
            },
            None => {
                proof {
                    lemma_keeper_idx_none(self@, name@);
                }
                return Ok(TickResult::Failure("the action is not registered".to_owned()));
            },
        };
        let m = self.actions[i].results.len();
        if m == 0 {
            return Ok(TickResult::Failure("the action has no scripted result".to_owned()));
        }
        let at: usize = if self.actions[i].pos < m {
            self.actions[i].pos
        } else {
            m - 1
        };
        let out = self.actions[i].results[at].clone();
        let old_pos = self.actions[i].pos;
        let new_pos: usize = if old_pos < m {
            old_pos + 1
        } else {
            old_pos
        };
        let ghost em = self@[i as int];
        let mut results: Vec<TickResult> = Vec::new();
        let mut j: usize = 0;
        while j < m
            invariant
                j <= m,
                m == self.actions@[i as int].results@.len(),
                i < self.actions@.len(),
                results@.len() == j as nat,
                *self == *old(self),
                forall|p: int| 0 <= p < j ==> results@[p]@ == self.actions@[i as int].results@[p]@,
            decreases m - j,
        {
            results.push(self.actions[i].results[j].clone());
            j = j + 1;
        }
        let entry = ActionEntry { name: self.actions[i].name.clone(), results, pos: new_pos };
        proof {
            assert(entry@ =~= (EntryModel {
                pos: if em.pos < em.results.len() {
                    (em.pos + 1) as usize
                } else {
                    em.pos
                },
                ..em
            }));
        }
        self.actions.set(i, entry);
        proof {
            assert(self@ =~= keeper_after_tick(old(self)@, keeper_idx(old(self)@, name@)->Some_0));
        }
        Ok(out)
    }
}

} // verus!
