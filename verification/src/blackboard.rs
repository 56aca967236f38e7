//! The blackboard: a keyed store of tagged values shared by the leaves,
//! with a revision counter bumped on every successful write.

use crate::rtargs::{entries_of, find_in, opt_model, remove_in, with_in, ArgEntry, RtArg, RtValue};
use crate::runtime::{RtOk, RuntimeError};
use vstd::prelude::*;

verus! {

/// The keyed store. Keys under `reserved` are compiler-owned: a `put` on one
/// is rejected.
#[derive(Debug)]
pub struct Blackboard {
    pub entries: Vec<RtArg>,
    pub reserved: Vec<String>,
    pub rev: u64,
}

impl Blackboard {
    /// The current bindings, as a keyed sequence.
    pub open spec fn map_view(&self) -> Seq<ArgEntry> {
        entries_of(self.entries@)
    }

    /// Whether `key` is compiler-owned.
    pub open spec fn spec_reserved(&self, key: Seq<char>) -> bool {
        exists|i: int| 0 <= i < self.reserved@.len() && self.reserved@[i]@ == key
    }

    /// The revision counter.
    pub open spec fn spec_rev(&self) -> u64 {
        self.rev
    }

    /// An empty blackboard with no reserved keys.
    pub fn new() -> (r: Blackboard)
        ensures
            r.map_view() == Seq::<ArgEntry>::empty(),
            r.spec_rev() == 0,
            forall|k: Seq<char>| !r.spec_reserved(k),
    {
        let r = Blackboard { entries: Vec::new(), reserved: Vec::new(), rev: 0 };
        proof {
            assert(r.map_view() =~= Seq::<ArgEntry>::empty());
        }
        r
    }

    /// An empty blackboard whose `reserved` keys reject writes.
    pub fn new_with_reserved(reserved: Vec<String>) -> (r: Blackboard)
        ensures
            r.map_view() == Seq::<ArgEntry>::empty(),
            r.spec_rev() == 0,
            r.reserved == reserved,
    {
        let r = Blackboard { entries: Vec::new(), reserved, rev: 0 };
        proof {
            assert(r.map_view() =~= Seq::<ArgEntry>::empty());
        }
        r
    }

    /// Whether `key` is compiler-owned.
    pub fn is_reserved(&self, key: &str) -> (r: bool)
        ensures
            r == self.spec_reserved(key@),
    {
        let k: String = key.to_owned();
        let mut i: usize = 0;
        while i < self.reserved.len()
            invariant
                i <= self.reserved@.len(),
                k@ == key@,
                forall|j: int| 0 <= j < i ==> self.reserved@[j]@ != key@,
            decreases self.reserved@.len() - i,
        {
            if self.reserved[i] == k {
                return true;
            }
            i = i + 1;
        }
        false
    }

    /// The value under `key`, if any.
    pub fn get(&self, key: &str) -> (r: Option<RtValue>)
        ensures
            opt_model(r) == find_in(self.map_view(), key@),
    {
        let mut i: usize = 0;
        while i < self.entries.len()
            invariant
                i <= self.entries@.len(),
                forall|j: int| 0 <= j < i ==> self.map_view()[j].name != key@,
            decreases self.entries@.len() - i,
        {
            if str_eq_string(key, &self.entries[i].name) {
                proof {
                    crate::rtargs::lemma_find_at_index(self.map_view(), key@, i as int);
                }
                return Some(self.entries[i].value.clone());
            }
            i = i + 1;
        }
        proof {
            crate::rtargs::lemma_find_none(self.map_view(), key@);
        }
        None
    }

    /// Bind `key` to `value`; a reserved key is rejected and nothing
    /// changes, otherwise the revision is bumped.
    pub fn put(&mut self, key: &str, value: RtValue) -> (r: RtOk)
        requires
            old(self).spec_rev() < u64::MAX,
        ensures
            old(self).spec_reserved(key@) ==> r is Err && *final(self) == *old(self),
            !old(self).spec_reserved(key@) ==> r is Ok && final(self).map_view() == with_in(
                old(self).map_view(),
                key@,
                value@,
            ) && final(self).spec_rev() == old(self).spec_rev() + 1 && final(self).reserved == old(
                self,
            ).reserved,
            r matches Err(e) ==> e@ matches crate::runtime::ErrModel::BlackboardError(_),
    {
        if self.is_reserved(key) {
            return Err(RuntimeError::BlackboardError("the key is forbidden: it is compiler-owned".to_owned()));
        }
        let ghost s = self.map_view();
        let ghost vm = value@;
        let mut entries: Vec<RtArg> = Vec::new();
        core::mem::swap(&mut entries, &mut self.entries);
        let args = crate::rtargs::RtArgs(entries);
        proof {
            assert(args@ == s);
        }
        let args = args.with(key, value);
        self.entries = args.0;
        proof {
            assert(self.map_view() == with_in(s, key@, vm));
        }
        self.rev = self.rev + 1;
        Ok(())
    }

    /// Remove and return the value under `key`; the revision is bumped only
    /// when something was removed.
    pub fn take(&mut self, key: &str) -> (r: Option<RtValue>)
        requires
            old(self).spec_rev() < u64::MAX,
        ensures
            opt_model(r) == find_in(old(self).map_view(), key@),
            final(self).map_view() == remove_in(old(self).map_view(), key@),
            r is Some ==> final(self).spec_rev() == old(self).spec_rev() + 1,
            r is None ==> final(self).spec_rev() == old(self).spec_rev(),
            final(self).reserved == old(self).reserved,
    {
        let found = self.get(key);
        let ghost s = self.map_view();
        let mut entries: Vec<RtArg> = Vec::new();
        core::mem::swap(&mut entries, &mut self.entries);
        let args = crate::rtargs::RtArgs(entries);
        proof {
            assert(args@ == s);
        }
        let args = args.remove(key);
        self.entries = args.0;
        if found.is_some() {
            self.rev = self.rev + 1;
        }
        found
    }

    /// The revision counter: how many successful writes happened.
    pub fn rev(&self) -> (r: u64)
        ensures
            r == self.spec_rev(),
    {
        self.rev
    }
}

impl Clone for Blackboard {
    fn clone(&self) -> (r: Self)
        ensures
            r.map_view() == self.map_view(),
            r.spec_rev() == self.spec_rev(),
            forall|k: Seq<char>| r.spec_reserved(k) == self.spec_reserved(k),
    {
        let mut entries: Vec<RtArg> = Vec::new();
        let mut i: usize = 0;
        while i < self.entries.len()
            invariant
                i <= self.entries@.len(),
                entries@.len() == i as nat,
                forall|j: int| 0 <= j < i ==> entries@[j]@ == self.entries@[j]@,
            decreases self.entries@.len() - i,
        {
            entries.push(self.entries[i].clone());
            i = i + 1;
        }
        let mut reserved: Vec<String> = Vec::new();
        let mut i: usize = 0;
        while i < self.reserved.len()
            invariant
                i <= self.reserved@.len(),
                reserved@.len() == i as nat,
                forall|j: int| 0 <= j < i ==> reserved@[j]@ == self.reserved@[j]@,
            decreases self.reserved@.len() - i,
        {
            reserved.push(self.reserved[i].clone());
            i = i + 1;
        }
        let r = Blackboard { entries, reserved, rev: self.rev };
        proof {
            assert(r.map_view() =~= self.map_view());
            assert forall|k: Seq<char>| r.spec_reserved(k) == self.spec_reserved(k) by {
                if r.spec_reserved(k) {
                    let i = choose|i: int|
                        0 <= i < r.reserved@.len() && r.reserved@[i]@ == k;
                    assert(self.reserved@[i]@ == k);
                }
                if self.spec_reserved(k) {
                    let i = choose|i: int|
                        0 <= i < self.reserved@.len() && self.reserved@[i]@ == k;
                    assert(r.reserved@[i]@ == k);
                }
            }
        }
        r
    }
}

/// String equality between a borrowed key and a stored name.
fn str_eq_string(a: &str, b: &String) -> (r: bool)
    ensures
        r == (a@ == b@),
{
    let k: String = a.to_owned();
    k == *b
}

} // verus!
