//! The connection: endpoint selection, the session cookie store, and the
//! decoder for the provider's three-layer response envelope.

use crate::value::{
    assoc_lookup, spec_struct, str_pairs_view, StructMap, ValModel, Value,
};
use crate::{ErrorModel, RequestError};
use vstd::prelude::*;

verus! {

/// The session-carrying connection. The endpoint is fixed by `testing`;
/// `cookies` holds whatever cookie set the last successful round trip
/// yielded, wholesale — never merged with stale entries.
pub struct Connection {
    pub testing: bool,
    pub debug: bool,
    pub cookies: Vec<(String, String)>,
}

/// One full transport round trip as the library sees it: a transport-level
/// failure, or the decoded response root together with the complete session
/// cookie set the exchange yielded.
pub enum TransportResult {
    Failed,
    Exchanged(Value, Vec<(String, String)>),
}

/// Decoding the provider's three-layer envelope from a response root. The
/// root must be a struct carrying integer `code` and string `msg`; codes
/// 1000 and 1500 mean success, with the payload taken from `resData` when
/// that field is present; every other code is a business rejection carrying
/// the code and the message.
pub open spec fn envelope_of(root: ValModel) -> Result<
    Option<Seq<(Seq<char>, ValModel)>>,
    ErrorModel,
> {
    match spec_struct(root) {
        None => Err(ErrorModel::InvalidResponse),
        Some(m) => match (assoc_lookup(m, "code"@), assoc_lookup(m, "msg"@)) {
            (Some(ValModel::Int(code)), Some(ValModel::Str(msg))) => {
                if code == 1000 || code == 1500 {
                    match assoc_lookup(m, "resData"@) {
                        None => Ok(None),
                        Some(ValModel::Struct(data)) => Ok(Some(data)),
                        Some(_) => Err(ErrorModel::InvalidResponse),
                    }
                } else {
                    Err(ErrorModel::CallError(code, msg))
                }
            },
            _ => Err(ErrorModel::InvalidResponse),
        },
    }
}

/// How a decoded payload corresponds to its model: same success shape with
/// the same entries, or the same error.
pub open spec fn payload_matches(
    r: Result<Option<StructMap>, RequestError>,
    s: Result<Option<Seq<(Seq<char>, ValModel)>>, ErrorModel>,
) -> bool {
    match (r, s) {
        (Ok(None), Ok(None)) => true,
        (Ok(Some(m)), Ok(Some(data))) => m@ == data,
        (Err(e), Err(em)) => e@ == em,
        _ => false,
    }
}

impl Connection {
    /// A fresh connection with an empty cookie store.
    pub fn new(testing: bool, debug: bool) -> (r: Connection)
        ensures
            r.testing == testing,
            r.debug == debug,
            r.cookies@ == Seq::<(String, String)>::empty(),
    {
        Connection { testing, debug, cookies: Vec::new() }
    }

    /// The fixed provider endpoint selected by `testing`.
    pub fn url(&self) -> (r: &'static str)
        ensures
            self.testing ==> r@ == "https://api.ote.domrobot.com/xmlrpc/"@,
            !self.testing ==> r@ == "https://api.domrobot.com/xmlrpc/"@,
    {
        if self.testing {
            "https://api.ote.domrobot.com/xmlrpc/"
        } else {
            "https://api.domrobot.com/xmlrpc/"
        }
    }

    /// The stored cookie under `name`, or `None` when no such cookie is
    /// present.
    pub fn cookie(&self, name: &str) -> (r: Option<&String>)
        ensures
            match r {
                Some(v) => assoc_lookup(str_pairs_view(self.cookies@), name@) == Some(v@),
                None => assoc_lookup(str_pairs_view(self.cookies@), name@) is None,
            },
    {
        let key: String = name.to_owned();
        let mut j: usize = 0;
        while j < self.cookies.len()
            invariant
                j <= self.cookies.len(),
                key@ == name@,
                forall|i: int| 0 <= i < j ==> str_pairs_view(self.cookies@)[i].0 != name@,
            decreases self.cookies.len() - j,
        {
            if self.cookies[j].0 == key {
                proof {
                    crate::value::lemma_lookup_at(str_pairs_view(self.cookies@), name@, j as int);
                }
                return Some(&self.cookies[j].1);
            }
            j += 1;
        }
        proof {
            crate::value::lemma_lookup_absent(str_pairs_view(self.cookies@), name@);
        }
        None
    }

    /// Conclude one RPC round trip: replace the cookie store with the set
    /// the exchange yielded and decode the three-layer envelope into its
    /// optional payload or its error. A transport failure leaves the cookie
    /// store untouched and surfaces as `SendFailed`.
    pub fn send(&mut self, outcome: TransportResult) -> (r: Result<
        Option<StructMap>,
        RequestError,
    >)
        ensures
            final(self).testing == old(self).testing,
            final(self).debug == old(self).debug,
            match outcome {
                TransportResult::Failed => final(self).cookies == old(self).cookies
                    && payload_matches(r, Err(ErrorModel::SendFailed)),
                TransportResult::Exchanged(root, jar) => final(self).cookies == jar
                    && payload_matches(r, envelope_of(root@)),
            },
    {
        match outcome {
            TransportResult::Failed => Err(RequestError::SendFailed),
            TransportResult::Exchanged(root, jar) => {
                self.cookies = jar;
                let m = match root.as_struct() {
                    Some(m) => m,
                    None => {
                        return Err(RequestError::InvalidResponse);
                    },
                };
                let code = match m.get("code") {
                    Some(v) => match v.as_i32() {
                        Some(i) => i,
                        None => {
                            return Err(RequestError::InvalidResponse);
                        },
                    },
                    None => {
                        return Err(RequestError::InvalidResponse);
                    },
                };
                let msg = match m.get("msg") {
                    Some(v) => match v.as_str() {
                        Some(s) => s,
                        None => {
                            return Err(RequestError::InvalidResponse);
                        },
                    },
                    None => {
                        return Err(RequestError::InvalidResponse);
                    },
                };
                if code == 1000 || code == 1500 {
                    match m.get("resData") {
                        None => Ok(None),
                        Some(v) => match v.as_struct() {
                            Some(data) => Ok(Some(data.duplicate())),
                            None => Err(RequestError::InvalidResponse),
                        },
                    }
                } else {
                    Err(RequestError::CallError(code, msg.to_owned()))
                }
            },
        }
    }
}

} // verus!
