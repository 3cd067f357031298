//! Verified client model for a DNS provider's XML-RPC service.
//!
//! The provider wraps business-level success and failure codes inside the
//! transport payload: every response carries an integer `code`, a string
//! `msg`, and an optional `resData` payload. This crate verifies the whole
//! client-side logic around that envelope: the dynamic value model, the
//! request builder, the envelope decoder with its session-cookie state, and
//! the typed `account.*` / `nameserver.*` operations. The HTTP round trip
//! itself is left to an unverified driver that hands each raw exchange back
//! to the library as a plain value.

use vstd::prelude::*;

pub mod account;
pub mod connection;
pub mod nameserver;
pub mod request;
pub mod value;

use crate::account::Account;
use crate::connection::Connection;
use crate::nameserver::Nameserver;

verus! {

/// The client facade: one connection shared by the two typed sub-clients.
pub struct Domrobot {
    pub account: Account,
    pub nameserver: Nameserver,
    pub conn: Connection,
}

impl Domrobot {
    /// A fresh client against the production endpoint, or the sandbox when
    /// `testing` is set, with no session yet.
    pub fn new(testing: bool, debug: bool) -> (r: Domrobot)
        ensures
            r.conn.testing == testing,
            r.conn.debug == debug,
            r.conn.cookies@ == Seq::<(String, String)>::empty(),
    {
        Domrobot {
            account: Account {  },
            nameserver: Nameserver {  },
            conn: Connection::new(testing, debug),
        }
    }
}

/// The closed error taxonomy surfaced to callers.
///
/// `SendFailed` is a transport-level failure, `InvalidResponse` a response
/// whose shape did not match expectations at some decoding step, and
/// `CallError(code, msg)` an explicit business-level rejection by the
/// provider. `LoginFailed` marks a login whose RPC layer succeeded but which
/// left no session cookie behind. `NotLoggedIn` is reserved: no current
/// operation raises it, but callers must be able to handle it.
#[derive(Debug, PartialEq)]
pub enum RequestError {
    NotLoggedIn,
    LoginFailed,
    SendFailed,
    InvalidResponse,
    CallError(i32, String),
}

/// The model of an error: a business rejection carries its code and its
/// message as a character sequence.
pub enum ErrorModel {
    NotLoggedIn,
    LoginFailed,
    SendFailed,
    InvalidResponse,
    CallError(i32, Seq<char>),
}

impl View for RequestError {
    type V = ErrorModel;

    open spec fn view(&self) -> ErrorModel {
        match self {
            RequestError::NotLoggedIn => ErrorModel::NotLoggedIn,
            RequestError::LoginFailed => ErrorModel::LoginFailed,
            RequestError::SendFailed => ErrorModel::SendFailed,
            RequestError::InvalidResponse => ErrorModel::InvalidResponse,
            RequestError::CallError(code, msg) => ErrorModel::CallError(*code, msg@),
        }
    }
}

} // verus!
