//! The dynamic value model: a tagged union representing any field of a
//! request or response, with total, non-panicking accessors.

use vstd::prelude::*;

verus! {

broadcast use vstd::std_specs::vec::axiom_vec_index_decreases;

/// A dynamic value as it travels through the RPC envelope: parameters sent
/// and payload fields received are all of this shape.
#[derive(Debug, PartialEq)]
pub enum Value {
    Int(i32),
    Str(String),
    Bool(bool),
    DateTime(String),
    Array(Vec<Value>),
    Struct(StructMap),
    Nil,
}

/// An ordered name-to-value mapping, the `Struct` shape of the dynamic value
/// model. Entries keep insertion order; `insert` replaces in place, so a map
/// built through `insert` alone never holds a duplicate key.
#[derive(Debug, PartialEq)]
pub struct StructMap {
    entries: Vec<(String, Value)>,
}

/// The mathematical model of a dynamic value: strings become sequences of
/// characters, arrays become sequences of models, structs become sequences
/// of key-model pairs in entry order.
pub enum ValModel {
    Int(i32),
    Str(Seq<char>),
    Bool(bool),
    DateTime(Seq<char>),
    Array(Seq<ValModel>),
    Struct(Seq<(Seq<char>, ValModel)>),
    Nil,
}

/// The model of a single value.
pub closed spec fn val_model(v: Value) -> ValModel
    decreases v,
{
    match v {
        Value::Int(i) => ValModel::Int(i),
        Value::Str(s) => ValModel::Str(s@),
        Value::Bool(b) => ValModel::Bool(b),
        Value::DateTime(s) => ValModel::DateTime(s@),
        Value::Array(items) => ValModel::Array(
            Seq::new(
                items@.len(),
                |i: int|
                    if 0 <= i < items@.len() {
                        val_model(items@[i])
                    } else {
                        ValModel::Nil
                    },
            ),
        ),
        Value::Struct(m) => ValModel::Struct(
            Seq::new(
                m.entries@.len(),
                |i: int|
                    if 0 <= i < m.entries@.len() {
                        (m.entries@[i].0@, val_model(m.entries@[i].1))
                    } else {
                        (Seq::empty(), ValModel::Nil)
                    },
            ),
        ),
        Value::Nil => ValModel::Nil,
    }
}

impl View for Value {
    type V = ValModel;

    open spec fn view(&self) -> ValModel {
        val_model(*self)
    }
}

/// The models of a sequence of values, elementwise.
pub open spec fn vals_view(s: Seq<Value>) -> Seq<ValModel> {
    Seq::new(s.len(), |i: int| val_model(s[i]))
}

/// The models of a sequence of entries, elementwise.
pub open spec fn entries_view(s: Seq<(String, Value)>) -> Seq<(Seq<char>, ValModel)> {
    Seq::new(s.len(), |i: int| (s[i].0@, val_model(s[i].1)))
}

/// String pairs as character-sequence pairs, elementwise.
pub open spec fn str_pairs_view(s: Seq<(String, String)>) -> Seq<(Seq<char>, Seq<char>)> {
    Seq::new(s.len(), |i: int| (s[i].0@, s[i].1@))
}

impl View for StructMap {
    type V = Seq<(Seq<char>, ValModel)>;

    closed spec fn view(&self) -> Seq<(Seq<char>, ValModel)> {
        entries_view(self.entries@)
    }
}

/// An array value's model is the elementwise model of its items.
pub broadcast proof fn lemma_array_view(items: Vec<Value>)
    ensures
        #[trigger] val_model(Value::Array(items)) == ValModel::Array(vals_view(items@)),
{
    let m = val_model(Value::Array(items));
    assert(m is Array);
    assert(m->Array_0 =~= vals_view(items@));
}

/// A struct value's model is the elementwise model of its entries.
pub broadcast proof fn lemma_struct_view(m: StructMap)
    ensures
        #[trigger] val_model(Value::Struct(m)) == ValModel::Struct(m@),
{
    let vm = val_model(Value::Struct(m));
    assert(vm is Struct);
    assert(vm->Struct_0 =~= entries_view(m.entries@));
}

/// A leaf value's model follows its variant directly.
pub broadcast proof fn lemma_leaf_view(v: Value)
    requires
        !(v is Array),
        !(v is Struct),
    ensures
        #[trigger] val_model(v) == match v {
            Value::Int(i) => ValModel::Int(i),
            Value::Str(s) => ValModel::Str(s@),
            Value::Bool(b) => ValModel::Bool(b),
            Value::DateTime(s) => ValModel::DateTime(s@),
            _ => ValModel::Nil,
        },
{
}

/// The integer behind a model, if the variant matches.
pub open spec fn spec_i32(m: ValModel) -> Option<i32> {
    match m {
        ValModel::Int(i) => Some(i),
        _ => None,
    }
}

/// The character sequence behind a model, if the variant matches.
pub open spec fn spec_str(m: ValModel) -> Option<Seq<char>> {
    match m {
        ValModel::Str(s) => Some(s),
        _ => None,
    }
}

/// The entry sequence behind a model, if the variant matches.
pub open spec fn spec_struct(m: ValModel) -> Option<Seq<(Seq<char>, ValModel)>> {
    match m {
        ValModel::Struct(s) => Some(s),
        _ => None,
    }
}

/// The element sequence behind a model, if the variant matches.
pub open spec fn spec_array(m: ValModel) -> Option<Seq<ValModel>> {
    match m {
        ValModel::Array(s) => Some(s),
        _ => None,
    }
}

/// The value under `key` in an association sequence: the first entry with a
/// matching key, or `None`.
pub open spec fn assoc_lookup<V>(s: Seq<(Seq<char>, V)>, key: Seq<char>) -> Option<V>
    decreases s.len(),
{
    if s.len() == 0 {
        None
    } else if s[0].0 == key {
        Some(s[0].1)
    } else {
        assoc_lookup(s.skip(1), key)
    }
}

/// Insert-or-replace on an association sequence: an existing entry under the
/// key is replaced in place, a missing one is appended.
pub open spec fn spec_insert<V>(s: Seq<(Seq<char>, V)>, key: Seq<char>, v: V) -> Seq<
    (Seq<char>, V),
>
    decreases s.len(),
{
    if s.len() == 0 {
        seq![(key, v)]
    } else if s[0].0 == key {
        seq![(key, v)] + s.skip(1)
    } else {
        seq![s[0]] + spec_insert(s.skip(1), key, v)
    }
}

/// No two entries share a key.
pub open spec fn unique_keys<V>(s: Seq<(Seq<char>, V)>) -> bool {
    forall|i: int, j: int| 0 <= i < j < s.len() ==> s[i].0 != s[j].0
}

/// A lookup hits the first entry whose key matches.
pub proof fn lemma_lookup_at<V>(s: Seq<(Seq<char>, V)>, key: Seq<char>, i: int)
    requires
        0 <= i < s.len(),
        s[i].0 == key,
        forall|j: int| 0 <= j < i ==> s[j].0 != key,
    ensures
        assoc_lookup(s, key) == Some(s[i].1),
    decreases i,
{
    if i > 0 {
        lemma_lookup_at(s.skip(1), key, i - 1);
    }
}

/// A lookup misses when no entry's key matches.
pub proof fn lemma_lookup_absent<V>(s: Seq<(Seq<char>, V)>, key: Seq<char>)
    requires
        forall|j: int| 0 <= j < s.len() ==> s[j].0 != key,
    ensures
        assoc_lookup(s, key) is None,
    decreases s.len(),
{
    if s.len() > 0 {
        lemma_lookup_absent(s.skip(1), key);
    }
}

/// Inserting over the first matching entry rewrites exactly that position.
pub proof fn lemma_insert_at<V>(s: Seq<(Seq<char>, V)>, key: Seq<char>, v: V, i: int)
    requires
        0 <= i < s.len(),
        s[i].0 == key,
        forall|j: int| 0 <= j < i ==> s[j].0 != key,
    ensures
        spec_insert(s, key, v) == s.update(i, (key, v)),
    decreases i,
{
    if i == 0 {
        assert(seq![(key, v)] + s.skip(1) =~= s.update(0, (key, v)));
    } else {
        lemma_insert_at(s.skip(1), key, v, i - 1);
        assert(seq![s[0]] + s.skip(1).update(i - 1, (key, v)) =~= s.update(i, (key, v)));
    }
}

/// Inserting a missing key appends the new entry.
pub proof fn lemma_insert_absent<V>(s: Seq<(Seq<char>, V)>, key: Seq<char>, v: V)
    requires
        forall|j: int| 0 <= j < s.len() ==> s[j].0 != key,
    ensures
        spec_insert(s, key, v) == s.push((key, v)),
    decreases s.len(),
{
    if s.len() == 0 {
        assert(seq![(key, v)] =~= s.push((key, v)));
    } else {
        lemma_insert_absent(s.skip(1), key, v);
        assert(seq![s[0]] + s.skip(1).push((key, v)) =~= s.push((key, v)));
    }
}

/// After an insert, the inserted value is the one found under its key.
pub proof fn lemma_lookup_insert_same<V>(s: Seq<(Seq<char>, V)>, key: Seq<char>, v: V)
    ensures
        assoc_lookup(spec_insert(s, key, v), key) == Some(v),
    decreases s.len(),
{
    if s.len() == 0 {
        let t = spec_insert(s, key, v);
        assert(t[0] == (key, v));
    } else if s[0].0 == key {
        let t = seq![(key, v)] + s.skip(1);
        assert(t[0] == (key, v));
    } else {
        lemma_lookup_insert_same(s.skip(1), key, v);
        let t = seq![s[0]] + spec_insert(s.skip(1), key, v);
        assert(t[0] == s[0]);
        assert(t.skip(1) =~= spec_insert(s.skip(1), key, v));
    }
}

/// An insert leaves every other key's lookup unchanged.
pub proof fn lemma_lookup_insert_other<V>(
    s: Seq<(Seq<char>, V)>,
    key: Seq<char>,
    v: V,
    other: Seq<char>,
)
    requires
        other != key,
    ensures
        assoc_lookup(spec_insert(s, key, v), other) == assoc_lookup(s, other),
    decreases s.len(),
{
    if s.len() == 0 {
        let t = spec_insert(s, key, v);
        assert(t[0] == (key, v));
        assert(t.skip(1).len() == 0);
        assert(assoc_lookup(t.skip(1), other) is None);
        assert(assoc_lookup(t, other) is None);
        assert(assoc_lookup(s, other) is None);
    } else if s[0].0 == key {
        let t = seq![(key, v)] + s.skip(1);
        assert(t[0] == (key, v));
        assert(t.skip(1) =~= s.skip(1));
        assert(assoc_lookup(t, other) == assoc_lookup(s.skip(1), other));
        assert(assoc_lookup(s, other) == assoc_lookup(s.skip(1), other));
    } else {
        lemma_lookup_insert_other(s.skip(1), key, v, other);
        let t = seq![s[0]] + spec_insert(s.skip(1), key, v);
        assert(t[0] == s[0]);
        assert(t.skip(1) =~= spec_insert(s.skip(1), key, v));
        assert(assoc_lookup(t, other) == assoc_lookup(s, other));
    }
}

/// An insert preserves key uniqueness.
pub proof fn lemma_insert_unique<V>(s: Seq<(Seq<char>, V)>, key: Seq<char>, v: V)
    requires
        unique_keys(s),
    ensures
        unique_keys(spec_insert(s, key, v)),
    decreases s.len(),
{
    if s.len() == 0 {
    } else if s[0].0 == key {
        let t = seq![(key, v)] + s.skip(1);
        assert(forall|j: int| 0 <= j < s.skip(1).len() ==> s.skip(1)[j] == s[j + 1]);
        assert(unique_keys(t));
    } else {
        assert(forall|i: int, j: int|
            0 <= i < j < s.skip(1).len() ==> s.skip(1)[i].0 != s.skip(1)[j].0);
        lemma_insert_unique(s.skip(1), key, v);
        let rest = spec_insert(s.skip(1), key, v);
        let t = seq![s[0]] + rest;
        lemma_insert_keys(s.skip(1), key, v);
        assert forall|i: int, j: int| 0 <= i < j < t.len() implies t[i].0 != t[j].0 by {
            if i == 0 {
                assert(t[j] == rest[j - 1]);
                if rest[j - 1].0 == key {
                } else {
                    assert(exists|k: int| 0 <= k < s.skip(1).len() && s.skip(1)[k].0 == rest[j - 1].0);
                    let k = choose|k: int| 0 <= k < s.skip(1).len() && s.skip(1)[k].0 == rest[j - 1].0;
                    assert(s.skip(1)[k] == s[k + 1]);
                }
            } else {
                assert(t[i] == rest[i - 1] && t[j] == rest[j - 1]);
            }
        }
    }
}

/// Every key present after an insert is the inserted key or one already there.
pub proof fn lemma_insert_keys<V>(s: Seq<(Seq<char>, V)>, key: Seq<char>, v: V)
    ensures
        forall|j: int|
            0 <= j < spec_insert(s, key, v).len() ==> (#[trigger] spec_insert(s, key, v)[j].0
                == key || exists|k: int| 0 <= k < s.len() && s[k].0 == spec_insert(s, key, v)[j].0),
    decreases s.len(),
{
    let t = spec_insert(s, key, v);
    if s.len() == 0 {
    } else if s[0].0 == key {
        assert forall|j: int| 0 <= j < t.len() implies (t[j].0 == key || exists|k: int|
            0 <= k < s.len() && s[k].0 == t[j].0) by {
            if j > 0 {
                assert(t[j] == s.skip(1)[j - 1]);
                assert(s.skip(1)[j - 1] == s[j]);
            }
        }
    } else {
        lemma_insert_keys(s.skip(1), key, v);
        let rest = spec_insert(s.skip(1), key, v);
        assert forall|j: int| 0 <= j < t.len() implies (t[j].0 == key || exists|k: int|
            0 <= k < s.len() && s[k].0 == t[j].0) by {
            if j == 0 {
                assert(t[0] == s[0]);
                assert(s[0].0 == t[0].0);
            } else {
                assert(t[j] == rest[j - 1]);
                if rest[j - 1].0 != key {
                    let k = choose|k: int|
                        0 <= k < s.skip(1).len() && s.skip(1)[k].0 == rest[j - 1].0;
                    assert(s.skip(1)[k] == s[k + 1]);
                }
            }
        }
    }
}

impl Value {
    /// The integer behind the value, if it is an `Int`.
    pub fn as_i32(&self) -> (r: Option<i32>)
        ensures
            r == spec_i32(self@),
    {
        match self {
            Value::Int(i) => Some(*i),
            _ => None,
        }
    }

    /// The string behind the value, if it is a `Str`.
    pub fn as_str(&self) -> (r: Option<&str>)
        ensures
            match r {
                Some(s) => spec_str(self@) == Some(s@),
                None => spec_str(self@) is None,
            },
    {
        match self {
            Value::Str(s) => Some(s.as_str()),
            _ => None,
        }
    }

    /// The mapping behind the value, if it is a `Struct`.
    pub fn as_struct(&self) -> (r: Option<&StructMap>)
        ensures
            match r {
                Some(m) => spec_struct(self@) == Some(m@),
                None => spec_struct(self@) is None,
            },
    {
        match self {
            Value::Struct(m) => {
                proof {
                    lemma_struct_view(*m);
                }
                Some(m)
            },
            _ => None,
        }
    }

    /// The elements behind the value, if it is an `Array`.
    pub fn as_array(&self) -> (r: Option<&Vec<Value>>)
        ensures
            match r {
                Some(a) => spec_array(self@) == Some(vals_view(a@)),
                None => spec_array(self@) is None,
            },
    {
        match self {
            Value::Array(items) => {
                proof {
                    lemma_array_view(*items);
                }
                Some(items)
            },
            _ => None,
        }
    }

    /// A structurally equal copy of the value.
    pub fn duplicate(&self) -> (r: Value)
        ensures
            r@ == self@,
        decreases *self,
    {
        match self {
            Value::Int(i) => Value::Int(*i),
            Value::Str(s) => Value::Str(s.clone()),
            Value::Bool(b) => Value::Bool(*b),
            Value::DateTime(s) => Value::DateTime(s.clone()),
            Value::Array(items) => {
                let mut out: Vec<Value> = Vec::new();
                let mut j: usize = 0;
                while j < items.len()
                    invariant
                        j <= items.len(),
                        out@.len() == j,
                        *self == Value::Array(*items),
                        forall|i: int| 0 <= i < j ==> #[trigger] val_model(out@[i]) == val_model(
                            items@[i],
                        ),
                    decreases items.len() - j,
                {
                    proof {
                        assert((*self)->Array_0 == *items);
                        assert(decreases_to!(*self => (*self)->Array_0));
                        assert(decreases_to!(*items => items@));
                        assert(decreases_to!(items@ => items@[j as int]));
                        assert(decreases_to!(*self => items@[j as int]));
                    }
                    out.push(items[j].duplicate());
                    j += 1;
                }
                proof {
                    lemma_array_view(out);
                    lemma_array_view(*items);
                    assert(vals_view(out@) =~= vals_view(items@));
                }
                Value::Array(out)
            },
            Value::Struct(m) => {
                let d = m.duplicate();
                proof {
                    lemma_struct_view(d);
                    lemma_struct_view(*m);
                }
                Value::Struct(d)
            },
            Value::Nil => Value::Nil,
        }
    }
}

impl StructMap {
    /// An empty mapping.
    pub fn new() -> (r: StructMap)
        ensures
            r@ == Seq::<(Seq<char>, ValModel)>::empty(),
            unique_keys(r@),
    {
        let r = StructMap { entries: Vec::new() };
        proof {
            assert(r@ =~= Seq::<(Seq<char>, ValModel)>::empty());
        }
        r
    }

    /// The value under `name`, or `None` when the key is absent.
    pub fn get(&self, name: &str) -> (r: Option<&Value>)
        ensures
            match r {
                Some(v) => assoc_lookup(self@, name@) == Some(v@),
                None => assoc_lookup(self@, name@) is None,
            },
    {
        let key: String = name.to_owned();
        let mut j: usize = 0;
        while j < self.entries.len()
            invariant
                j <= self.entries.len(),
                key@ == name@,
                forall|i: int| 0 <= i < j ==> self@[i].0 != name@,
            decreases self.entries.len() - j,
        {
            if self.entries[j].0 == key {
                proof {
                    lemma_lookup_at(self@, name@, j as int);
                }
                return Some(&self.entries[j].1);
            }
            j += 1;
        }
        proof {
            lemma_lookup_absent(self@, name@);
        }
        None
    }

    /// Insert-or-replace under `name`: the replaced value, if any, is
    /// returned, and entry order is otherwise kept.
    pub fn insert(&mut self, name: &str, value: Value) -> (r: Option<Value>)
        ensures
            final(self)@ == spec_insert(old(self)@, name@, value@),
            match r {
                Some(v) => assoc_lookup(old(self)@, name@) == Some(v@),
                None => assoc_lookup(old(self)@, name@) is None,
            },
    {
        let key: String = name.to_owned();
        let mut j: usize = 0;
        while j < self.entries.len()
            invariant
                j <= self.entries.len(),
                key@ == name@,
                forall|i: int| 0 <= i < j ==> self@[i].0 != name@,
                *self == *old(self),
            decreases self.entries.len() - j,
        {
            if self.entries[j].0 == key {
                proof {
                    lemma_lookup_at(self@, name@, j as int);
                    lemma_insert_at(self@, name@, value@, j as int);
                }
                let previous = self.entries.remove(j);
                self.entries.insert(j, (key, value));
                proof {
                    assert(self@ =~= old(self)@.update(j as int, (name@, value@)));
                }
                return Some(previous.1);
            }
            j += 1;
        }
        proof {
            lemma_lookup_absent(self@, name@);
            lemma_insert_absent(self@, name@, value@);
        }
        self.entries.push((key, value));
        proof {
            assert(self@ =~= old(self)@.push((name@, value@)));
        }
        None
    }

    /// The entries in insertion order, for callers that serialize the
    /// mapping.
    pub fn entries(&self) -> (r: &Vec<(String, Value)>)
        ensures
            entries_view(r@) == self@,
    {
        &self.entries
    }

    /// A structurally equal copy of the mapping.
    pub fn duplicate(&self) -> (r: StructMap)
        ensures
            r@ == self@,
        decreases *self,
    {
        let mut out: Vec<(String, Value)> = Vec::new();
        let mut j: usize = 0;
        while j < self.entries.len()
            invariant
                j <= self.entries.len(),
                out@.len() == j,
                forall|i: int| 0 <= i < j ==> #[trigger] out@[i].0@ == self.entries@[i].0@
                    && val_model(out@[i].1) == val_model(self.entries@[i].1),
            decreases self.entries.len() - j,
        {
            proof {
                vstd::std_specs::vec::axiom_vec_index_decreases(self.entries, j as int);
            }
            let name = self.entries[j].0.clone();
            let copied = self.entries[j].1.duplicate();
            out.push((name, copied));
            j += 1;
        }
        let r = StructMap { entries: out };
        proof {
            assert(r@ =~= self@);
        }
        r
    }
}

} // verus!
