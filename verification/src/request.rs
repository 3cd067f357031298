//! The request builder: a method name composed with named parameters,
//! producing the wire-ready form the RPC transport serializes.

use crate::value::{
    assoc_lookup, lemma_insert_unique, lemma_lookup_insert_other, lemma_lookup_insert_same,
    lemma_struct_view, spec_insert, unique_keys, StructMap, ValModel, Value,
};
use vstd::prelude::*;

verus! {

/// The wire-ready form of a request: the method name and the parameter
/// mapping wrapped as one struct-shaped argument.
pub struct WireCall {
    pub method: String,
    pub arg: Value,
}

/// Reading a wire call back as it was sent: the method name together with
/// the parameter entries carried by the single struct-shaped argument.
pub open spec fn wire_decode(w: WireCall) -> Option<(Seq<char>, Seq<(Seq<char>, ValModel)>)> {
    match w.arg@ {
        ValModel::Struct(entries) => Some((w.method@, entries)),
        _ => None,
    }
}

/// A request under construction: a non-empty method name and a mapping of
/// named parameters with unique keys.
pub struct Request {
    method: String,
    params: StructMap,
}

/// The model of a request: its method name and its parameter entries.
pub struct RequestModel {
    pub method: Seq<char>,
    pub params: Seq<(Seq<char>, ValModel)>,
}

impl View for Request {
    type V = RequestModel;

    closed spec fn view(&self) -> RequestModel {
        RequestModel { method: self.method@, params: self.params@ }
    }
}

impl Request {
    /// A new request for `method`, with no parameters yet.
    pub fn new(method: &str) -> (r: Request)
        requires
            method@.len() > 0,
        ensures
            r@.method == method@,
            r@.params == Seq::<(Seq<char>, ValModel)>::empty(),
            unique_keys(r@.params),
    {
        Request { method: method.to_owned(), params: StructMap::new() }
    }

    /// Insert or replace the parameter `name`: the replaced value, if any,
    /// is returned, and the method name is untouched.
    pub fn param(&mut self, name: &str, value: Value) -> (r: Option<Value>)
        ensures
            final(self)@.method == old(self)@.method,
            final(self)@.params == spec_insert(old(self)@.params, name@, value@),
            match r {
                Some(v) => assoc_lookup(old(self)@.params, name@) == Some(v@),
                None => assoc_lookup(old(self)@.params, name@) is None,
            },
    {
        self.params.insert(name, value)
    }

    /// The wire-ready form. Building is pure: the request is left as it is,
    /// and decoding the result as sent reproduces exactly the method name
    /// and the parameter set (round trip).
    pub fn build(&self) -> (r: WireCall)
        ensures
            wire_decode(r) == Some((self@.method, self@.params)),
    {
        let arg_map = self.params.duplicate();
        proof {
            lemma_struct_view(arg_map);
        }
        WireCall { method: self.method.clone(), arg: Value::Struct(arg_map) }
    }
}

/// Replace semantics of `param`: on a parameter mapping with unique keys,
/// inserting under one name twice leaves only the second value stored, the
/// second insert finds the first value as the one it replaces, the keys stay
/// unique, and every other name's binding is untouched.
pub proof fn lemma_param_replace(
    params: Seq<(Seq<char>, ValModel)>,
    name: Seq<char>,
    first: ValModel,
    second: ValModel,
)
    requires
        unique_keys(params),
    ensures
        assoc_lookup(spec_insert(params, name, first), name) == Some(first),
        assoc_lookup(spec_insert(spec_insert(params, name, first), name, second), name) == Some(
            second,
        ),
        unique_keys(spec_insert(spec_insert(params, name, first), name, second)),
        forall|other: Seq<char>|
            other != name ==> #[trigger] assoc_lookup(
                spec_insert(spec_insert(params, name, first), name, second),
                other,
            ) == assoc_lookup(params, other),
{
    let once = spec_insert(params, name, first);
    let twice = spec_insert(once, name, second);
    lemma_lookup_insert_same(params, name, first);
    lemma_lookup_insert_same(once, name, second);
    lemma_insert_unique(params, name, first);
    lemma_insert_unique(once, name, second);
    assert forall|other: Seq<char>| other != name implies #[trigger] assoc_lookup(twice, other)
        == assoc_lookup(params, other) by {
        lemma_lookup_insert_other(params, name, first, other);
        lemma_lookup_insert_other(once, name, second, other);
    }
}

} // verus!
