//! Runtime arguments: an ordered bag of named tagged values that serves as a
//! node's persistent memory between ticks.

use vstd::prelude::*;

verus! {

broadcast use vstd::std_specs::vec::group_vec_axioms;

/// A tagged runtime value stored in a node's memory or on the blackboard.
#[derive(Debug, PartialEq)]
pub enum RtValue {
    Int(i64),
    Bool(bool),
    Str(String),
    Array(Vec<RtValue>),
}

/// The mathematical model of a tagged value: strings and arrays as sequences.
#[verifier::ext_equal]
pub enum ValueModel {
    Int(i64),
    Bool(bool),
    Str(Seq<char>),
    Array(Seq<ValueModel>),
}

pub open spec fn model_of(v: RtValue) -> ValueModel
    decreases v,
{
    match v {
        RtValue::Int(i) => ValueModel::Int(i),
        RtValue::Bool(b) => ValueModel::Bool(b),
        RtValue::Str(s) => ValueModel::Str(s@),
        RtValue::Array(vs) => ValueModel::Array(
            Seq::new(
                vs@.len(),
                |i: int|
                    if 0 <= i < vs@.len() {
                        model_of(vs@[i])
                    } else {
                        ValueModel::Bool(false)
                    },
            ),
        ),
    }
}

impl View for RtValue {
    type V = ValueModel;

    open spec fn view(&self) -> ValueModel {
        model_of(*self)
    }
}

impl Clone for RtValue {
    #[verifier::loop_isolation(false)]
    fn clone(&self) -> (r: Self)
        ensures
            r@ == self@,
        decreases self,
    {
        match self {
            RtValue::Int(i) => RtValue::Int(*i),
            RtValue::Bool(b) => RtValue::Bool(*b),
            RtValue::Str(s) => RtValue::Str(s.clone()),
            RtValue::Array(vs) => {
                let mut out: Vec<RtValue> = Vec::new();
                let mut i: usize = 0;
                while i < vs.len()
                    invariant
                        i <= vs.len(),
                        out@.len() == i as nat,
                        forall|j: int| 0 <= j < i ==> out@[j]@ == vs@[j]@,
                    decreases vs.len() - i,
                {
                    out.push(vs[i].clone());
                    i = i + 1;
                }
                let r = RtValue::Array(out);
                proof {
                    assert(r@ is Array);
                    assert((*self)@ is Array);
                    assert(r@->Array_0 =~~= (*self)@->Array_0);
                    assert(r@ =~~= (*self)@);
                }
                r
            },
        }
    }
}

impl RtValue {
    pub fn of_int(v: i64) -> (r: RtValue)
        ensures
            r@ == ValueModel::Int(v),
    {
        RtValue::Int(v)
    }

    pub fn of_str(v: String) -> (r: RtValue)
        ensures
            r@ == ValueModel::Str(v@),
    {
        RtValue::Str(v)
    }

    pub fn of_bool(v: bool) -> (r: RtValue)
        ensures
            r@ == ValueModel::Bool(v),
    {
        RtValue::Bool(v)
    }

    /// The integer payload, if this value carries one.
    pub fn as_int(self) -> (r: Option<i64>)
        ensures
            r == spec_as_int(self@),
    {
        match self {
            RtValue::Int(i) => Some(i),
            _ => None,
        }
    }

    /// The string payload, if this value carries one.
    pub fn as_string(self) -> (r: Option<String>)
        ensures
            (r is Some) == (spec_as_str(self@) is Some),
            r matches Some(x) ==> Some(x@) == spec_as_str(self@),
    {
        match self {
            RtValue::Str(s) => Some(s),
            _ => None,
        }
    }
}

pub open spec fn spec_as_int(m: ValueModel) -> Option<i64> {
    match m {
        ValueModel::Int(i) => Some(i),
        _ => None,
    }
}

pub open spec fn spec_as_str(m: ValueModel) -> Option<Seq<char>> {
    match m {
        ValueModel::Str(s) => Some(s),
        _ => None,
    }
}

/// One named argument.
#[derive(Debug, PartialEq)]
pub struct RtArg {
    pub name: String,
    pub value: RtValue,
}

/// The model of one argument: the name as a character sequence, the value as
/// its model.
#[verifier::ext_equal]
pub struct ArgEntry {
    pub name: Seq<char>,
    pub value: ValueModel,
}

impl View for RtArg {
    type V = ArgEntry;

    open spec fn view(&self) -> ArgEntry {
        ArgEntry { name: self.name@, value: self.value@ }
    }
}

impl Clone for RtArg {
    fn clone(&self) -> (r: Self)
        ensures
            r@ == self@,
    {
        RtArg { name: self.name.clone(), value: self.value.clone() }
    }
}

/// An ordered bag of named values; `with` is replace-or-append, `find`
/// returns the first match, `remove` drops every entry under the name.
#[derive(Debug, PartialEq)]
pub struct RtArgs(pub Vec<RtArg>);

/// The model of a whole bag: each argument as its entry.
pub open spec fn entries_of(v: Seq<RtArg>) -> Seq<ArgEntry> {
    v.map_values(|a: RtArg| a@)
}

impl View for RtArgs {
    type V = Seq<ArgEntry>;

    open spec fn view(&self) -> Seq<ArgEntry> {
        entries_of(self.0@)
    }
}

/// The model of an optional value.
pub open spec fn opt_model(o: Option<RtValue>) -> Option<ValueModel> {
    match o {
        Some(v) => Some(v@),
        None => None,
    }
}

/// The first value bound to `key`, if any.
pub open spec fn find_in(s: Seq<ArgEntry>, key: Seq<char>) -> Option<ValueModel>
    decreases s.len(),
{
    if s.len() == 0 {
        None
    } else if s[0].name == key {
        Some(s[0].value)
    } else {
        find_in(s.skip(1), key)
    }
}

/// Replace the value under `key` at its place, or append a new entry.
pub open spec fn with_in(s: Seq<ArgEntry>, key: Seq<char>, value: ValueModel) -> Seq<ArgEntry>
    decreases s.len(),
{
    if s.len() == 0 {
        seq![ArgEntry { name: key, value }]
    } else if s[0].name == key {
        seq![ArgEntry { name: key, value }] + s.skip(1)
    } else {
        seq![s[0]] + with_in(s.skip(1), key, value)
    }
}

/// Drop every entry under `key`.
pub open spec fn remove_in(s: Seq<ArgEntry>, key: Seq<char>) -> Seq<ArgEntry>
    decreases s.len(),
{
    if s.len() == 0 {
        Seq::empty()
    } else if s[0].name == key {
        remove_in(s.skip(1), key)
    } else {
        seq![s[0]] + remove_in(s.skip(1), key)
    }
}

/// Looking a key up after `with` gives the new value; other keys are
/// untouched.
pub proof fn lemma_find_with(s: Seq<ArgEntry>, key: Seq<char>, value: ValueModel, key2: Seq<char>)
    ensures
        find_in(with_in(s, key, value), key2) == if key2 == key {
            Some(value)
        } else {
            find_in(s, key2)
        },
    decreases s.len(),
{
    let w = with_in(s, key, value);
    if s.len() == 0 {
        assert(w[0] == ArgEntry { name: key, value });
        assert(w.skip(1).len() == 0);
        assert(find_in(w.skip(1), key2) is None);
    } else if s[0].name == key {
        assert(w[0] == ArgEntry { name: key, value });
        assert(w.skip(1) =~= s.skip(1));
    } else {
        lemma_find_with(s.skip(1), key, value, key2);
        assert(w[0] == s[0]);
        assert(w.skip(1) =~= with_in(s.skip(1), key, value));
    }
}

/// Looking a key up after `remove` gives nothing; other keys are untouched.
pub proof fn lemma_find_remove(s: Seq<ArgEntry>, key: Seq<char>, key2: Seq<char>)
    ensures
        find_in(remove_in(s, key), key2) == if key2 == key {
            None::<ValueModel>
        } else {
            find_in(s, key2)
        },
    decreases s.len(),
{
    let w = remove_in(s, key);
    if s.len() == 0 {
    } else if s[0].name == key {
        lemma_find_remove(s.skip(1), key, key2);
    } else {
        lemma_find_remove(s.skip(1), key, key2);
        assert(w[0] == s[0]);
        assert(w.skip(1) =~= remove_in(s.skip(1), key));
    }
}

/// `with` on a key that is present updates the first matching entry in
/// place.
pub proof fn lemma_with_at_index(s: Seq<ArgEntry>, key: Seq<char>, value: ValueModel, i: int)
    requires
        0 <= i < s.len(),
        s[i].name == key,
        forall|j: int| 0 <= j < i ==> s[j].name != key,
    ensures
        with_in(s, key, value) == s.update(i, ArgEntry { name: key, value }),
    decreases s.len(),
{
    if i == 0 {
        assert(with_in(s, key, value) =~= s.update(0, ArgEntry { name: key, value }));
    } else {
        assert(forall|j: int| 0 <= j < i - 1 ==> s.skip(1)[j].name != key);
        lemma_with_at_index(s.skip(1), key, value, i - 1);
        assert(with_in(s, key, value) =~= s.update(i, ArgEntry { name: key, value }));
    }
}

/// `with` on an absent key appends.
pub proof fn lemma_with_absent(s: Seq<ArgEntry>, key: Seq<char>, value: ValueModel)
    requires
        forall|j: int| 0 <= j < s.len() ==> s[j].name != key,
    ensures
        with_in(s, key, value) == s.push(ArgEntry { name: key, value }),
    decreases s.len(),
{
    if s.len() == 0 {
        assert(with_in(s, key, value) =~= s.push(ArgEntry { name: key, value }));
    } else {
        assert(forall|j: int| 0 <= j < s.skip(1).len() ==> s.skip(1)[j].name != key);
        lemma_with_absent(s.skip(1), key, value);
        assert(with_in(s, key, value) =~= s.push(ArgEntry { name: key, value }));
    }
}

/// `remove` of a bag extended on the right.
pub proof fn lemma_remove_push(s: Seq<ArgEntry>, e: ArgEntry, key: Seq<char>)
    ensures
        remove_in(s.push(e), key) == if e.name == key {
            remove_in(s, key)
        } else {
            remove_in(s, key).push(e)
        },
    decreases s.len(),
{
    let t = s.push(e);
    if s.len() == 0 {
        assert(t.len() == 1);
        assert(t[0] == e);
        assert(t.skip(1).len() == 0);
        assert(remove_in(t.skip(1), key) == Seq::<ArgEntry>::empty());
        if e.name == key {
            assert(remove_in(t, key) == remove_in(s, key));
        } else {
            assert(seq![e] + Seq::<ArgEntry>::empty() =~= remove_in(s, key).push(e));
        }
    } else {
        assert(t[0] == s[0]);
        assert(t.skip(1) =~= s.skip(1).push(e));
        lemma_remove_push(s.skip(1), e, key);
        if s[0].name == key {
        } else {
            if e.name == key {
                assert(remove_in(t, key) == seq![s[0]] + remove_in(s.skip(1), key));
            } else {
                assert(seq![s[0]] + remove_in(s.skip(1), key).push(e) =~= (seq![s[0]] + remove_in(
                    s.skip(1),
                    key,
                )).push(e));
            }
        }
    }
}

impl Clone for RtArgs {
    fn clone(&self) -> (r: Self)
        ensures
            r@ == self@,
    {
        let mut out: Vec<RtArg> = Vec::new();
        let mut i: usize = 0;
        while i < self.0.len()
            invariant
                i <= self.0.len(),
                out@.len() == i as nat,
                forall|j: int| 0 <= j < i ==> out@[j]@ == self.0@[j]@,
            decreases self.0.len() - i,
        {
            let a = &self.0[i];
            out.push(a.clone());
            i = i + 1;
        }
        let r = RtArgs(out);
        proof {
            assert(r@ =~= self@);
        }
        r
    }
}

/// The first position holding `k`, scanning left to right.
fn index_of(v: &Vec<RtArg>, k: &String) -> (r: Option<usize>)
    ensures
        match r {
            Some(i) => i < v@.len() && entries_of(v@)[i as int].name == k@ && (forall|j: int|
                0 <= j < i ==> entries_of(v@)[j].name != k@),
            None => forall|j: int| 0 <= j < v@.len() ==> entries_of(v@)[j].name != k@,
        },
{
    let mut i: usize = 0;
    while i < v.len()
        invariant
            i <= v.len(),
            forall|j: int| 0 <= j < i ==> entries_of(v@)[j].name != k@,
        decreases v.len() - i,
    {
        if v[i].name == *k {
            return Some(i);
        }
        i = i + 1;
    }
    None
}

impl RtArgs {
    /// An empty bag.
    pub fn new() -> (r: RtArgs)
        ensures
            r@ == Seq::<ArgEntry>::empty(),
    {
        let r = RtArgs(Vec::new());
        proof {
            assert(r@ =~= Seq::<ArgEntry>::empty());
        }
        r
    }

    /// The first value bound to `key`, if any.
    pub fn find(&self, key: &str) -> (r: Option<RtValue>)
        ensures
            opt_model(r) == find_in(self@, key@),
    {
        let k: String = key.to_owned();
        match index_of(&self.0, &k) {
            Some(i) => {
                proof {
                    lemma_find_at_index(self@, key@, i as int);
                }
                Some(self.0[i].value.clone())
            },
            None => {
                proof {
                    lemma_find_none(self@, key@);
                }
                None
            },
        }
    }

    /// Replace-or-append, preserving the position of an existing entry.
    pub fn with(self, key: &str, value: RtValue) -> (r: RtArgs)
        ensures
            r@ == with_in(self@, key@, value@),
    {
        let ghost s = self@;
        let ghost vm = value@;
        let k: String = key.to_owned();
        let mut v = self.0;
        match index_of(&v, &k) {
            Some(i) => {
                let ghost v0 = v@;
                v.set(i, RtArg { name: k, value });
                proof {
                    lemma_with_at_index(s, key@, vm, i as int);
                    assert(v@[i as int]@ == ArgEntry { name: key@, value: vm });
                    assert forall|j: int|
                        0 <= j < v@.len() implies entries_of(v@)[j] == s.update(
                        i as int,
                        ArgEntry { name: key@, value: vm },
                    )[j] by {
                        assert(entries_of(v@)[j] == v@[j]@);
                        if j != i as int {
                            assert(v@[j] == v0[j]);
                            assert(s[j] == v0[j]@);
                        }
                    }
                    assert(entries_of(v@) =~= s.update(i as int, ArgEntry { name: key@, value: vm }));
                }
                RtArgs(v)
            },
            None => {
                proof {
                    lemma_with_absent(s, key@, vm);
                }
                v.push(RtArg { name: k, value });
                let r = RtArgs(v);
                proof {
                    assert(r@ =~= s.push(ArgEntry { name: key@, value: vm }));
                }
                r
            },
        }
    }

    /// Drop every entry under `key`.
    pub fn remove(self, key: &str) -> (r: RtArgs)
        ensures
            r@ == remove_in(self@, key@),
    {
        let ghost s = self@;
        let k: String = key.to_owned();
        let v = self.0;
        let mut out: Vec<RtArg> = Vec::new();
        let mut i: usize = 0;
        while i < v.len()
            invariant
                i <= v.len(),
                k@ == key@,
                s == entries_of(v@),
                entries_of(out@) == remove_in(s.take(i as int), key@),
            decreases v.len() - i,
        {
            proof {
                assert(s.take(i + 1) =~= s.take(i as int).push(s[i as int]));
                lemma_remove_push(s.take(i as int), s[i as int], key@);
            }
            if v[i].name == k {
            } else {
                out.push(v[i].clone());
                proof {
                    assert(entries_of(out@) =~= remove_in(s.take(i as int), key@).push(s[i as int]));
                }
            }
            i = i + 1;
        }
        proof {
            assert(s.take(s.len() as int) =~= s);
        }
        RtArgs(out)
    }

    /// How many entries the bag holds.
    pub fn len(&self) -> (r: usize)
        ensures
            r == self@.len(),
    {
        self.0.len()
    }
}

impl Default for RtArgs {
    fn default() -> (r: RtArgs)
        ensures
            r@ == Seq::<ArgEntry>::empty(),
    {
        RtArgs::new()
    }
}

/// If the first match sits at `i`, `find` returns its value.
pub proof fn lemma_find_at_index(s: Seq<ArgEntry>, key: Seq<char>, i: int)
    requires
        0 <= i < s.len(),
        s[i].name == key,
        forall|j: int| 0 <= j < i ==> s[j].name != key,
    ensures
        find_in(s, key) == Some(s[i].value),
    decreases s.len(),
{
    if i == 0 {
    } else {
        assert(forall|j: int| 0 <= j < i - 1 ==> s.skip(1)[j].name != key);
        lemma_find_at_index(s.skip(1), key, i - 1);
    }
}

/// If no entry matches, `find` returns nothing.
pub proof fn lemma_find_none(s: Seq<ArgEntry>, key: Seq<char>)
    requires
        forall|j: int| 0 <= j < s.len() ==> s[j].name != key,
    ensures
        find_in(s, key) is None,
    decreases s.len(),
{
    if s.len() == 0 {
    } else {
        assert(forall|j: int| 0 <= j < s.skip(1).len() ==> s.skip(1)[j].name != key);
        lemma_find_none(s.skip(1), key);
    }
}

} // verus!
