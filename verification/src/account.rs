//! The account sub-client: `account.login` with its session-cookie
//! post-condition, and `account.logout`.

use crate::connection::{envelope_of, Connection, TransportResult};
use crate::request::Request;
use crate::value::{
    assoc_lookup, lemma_insert_unique, lemma_leaf_view, spec_insert, str_pairs_view, unique_keys,
    ValModel, Value,
};
use crate::{ErrorModel, RequestError};
use vstd::prelude::*;

verus! {

/// Typed login result; every field is required, and a response missing any
/// of them is a decoding failure, not a partial result.
#[derive(Debug, PartialEq)]
pub struct LoginInfo {
    pub customer_id: i32,
    pub account_id: i32,
    pub tfa: String,
    pub builddate: String,
    pub version: String,
}

/// The model of a login result.
pub struct LoginInfoModel {
    pub customer_id: i32,
    pub account_id: i32,
    pub tfa: Seq<char>,
    pub builddate: Seq<char>,
    pub version: Seq<char>,
}

impl View for LoginInfo {
    type V = LoginInfoModel;

    open spec fn view(&self) -> LoginInfoModel {
        LoginInfoModel {
            customer_id: self.customer_id,
            account_id: self.account_id,
            tfa: self.tfa@,
            builddate: self.builddate@,
            version: self.version@,
        }
    }
}

/// The login payload read out of a response payload: present exactly when
/// every required field is there with the right shape.
pub open spec fn login_view(data: Seq<(Seq<char>, ValModel)>) -> Option<LoginInfoModel> {
    match (
        assoc_lookup(data, "customerId"@),
        assoc_lookup(data, "accountId"@),
        assoc_lookup(data, "tfa"@),
        assoc_lookup(data, "builddate"@),
        assoc_lookup(data, "version"@),
    ) {
        (
            Some(ValModel::Int(customer_id)),
            Some(ValModel::Int(account_id)),
            Some(ValModel::Str(tfa)),
            Some(ValModel::Str(builddate)),
            Some(ValModel::Str(version)),
        ) => Some(
            LoginInfoModel { customer_id, account_id, tfa, builddate, version },
        ),
        _ => None,
    }
}

/// The account sub-client. It holds no state of its own: the shared
/// connection is handed in for each call.
pub struct Account {}

impl Account {
    /// The request one login round trip sends: `account.login` with the
    /// user name and the password as its two parameters.
    pub fn login_request(&self, user: &str, pass: &str) -> (r: Request)
        ensures
            r@.method == "account.login"@,
            r@.params == spec_insert(
                spec_insert(
                    Seq::<(Seq<char>, ValModel)>::empty(),
                    "user"@,
                    ValModel::Str(user@),
                ),
                "pass"@,
                ValModel::Str(pass@),
            ),
            unique_keys(r@.params),
    {
        proof {
            reveal_strlit("account.login");
        }
        let mut req = Request::new("account.login");
        let user_value = Value::Str(user.to_owned());
        let pass_value = Value::Str(pass.to_owned());
        proof {
            lemma_leaf_view(user_value);
            lemma_leaf_view(pass_value);
            lemma_insert_unique(
                Seq::<(Seq<char>, ValModel)>::empty(),
                "user"@,
                ValModel::Str(user@),
            );
            lemma_insert_unique(
                spec_insert(
                    Seq::<(Seq<char>, ValModel)>::empty(),
                    "user"@,
                    ValModel::Str(user@),
                ),
                "pass"@,
                ValModel::Str(pass@),
            );
        }
        req.param("user", user_value);
        req.param("pass", pass_value);
        req
    }

    /// Conclude one login round trip. The RPC layer's success code alone
    /// does not prove an authenticated session: even on success, login
    /// fails with `LoginFailed` unless the provider's session cookie is
    /// present afterward, and with `InvalidResponse` when the payload is
    /// missing any required field.
    pub fn login(&self, conn: &mut Connection, outcome: TransportResult) -> (r: Result<
        LoginInfo,
        RequestError,
    >)
        ensures
            final(conn).testing == old(conn).testing,
            final(conn).debug == old(conn).debug,
            match outcome {
                TransportResult::Failed => final(conn).cookies == old(conn).cookies && (
                r matches Err(e) && e@ == ErrorModel::SendFailed),
                TransportResult::Exchanged(root, jar) => {
                    &&& final(conn).cookies == jar
                    &&& match envelope_of(root@) {
                        Err(em) => r matches Err(e) && e@ == em,
                        Ok(None) => r matches Err(e) && e@ == ErrorModel::InvalidResponse,
                        Ok(Some(data)) => {
                            if assoc_lookup(str_pairs_view(jar@), "domrobot"@) is None {
                                r matches Err(e) && e@ == ErrorModel::LoginFailed
                            } else {
                                match login_view(data) {
                                    Some(info) => r matches Ok(li) && li@ == info,
                                    None => r matches Err(e) && e@ == ErrorModel::InvalidResponse,
                                }
                            }
                        },
                    }
                },
            },
    {
        let data = match conn.send(outcome) {
            Ok(Some(data)) => data,
            Ok(None) => {
                return Err(RequestError::InvalidResponse);
            },
            Err(e) => {
                return Err(e);
            },
        };
        if conn.cookie("domrobot").is_none() {
            return Err(RequestError::LoginFailed);
        }
        let customer_id = match data.get("customerId") {
            Some(v) => match v.as_i32() {
                Some(i) => i,
                None => {
                    return Err(RequestError::InvalidResponse);
                },
            },
            None => {
                return Err(RequestError::InvalidResponse);
            },
        };
        let account_id = match data.get("accountId") {
            Some(v) => match v.as_i32() {
                Some(i) => i,
                None => {
                    return Err(RequestError::InvalidResponse);
                },
            },
            None => {
                return Err(RequestError::InvalidResponse);
            },
        };
        let tfa = match data.get("tfa") {
            Some(v) => match v.as_str() {
                Some(s) => s.to_owned(),
                None => {
                    return Err(RequestError::InvalidResponse);
                },
            },
            None => {
                return Err(RequestError::InvalidResponse);
            },
        };
        let builddate = match data.get("builddate") {
            Some(v) => match v.as_str() {
                Some(s) => s.to_owned(),
                None => {
                    return Err(RequestError::InvalidResponse);
                },
            },
            None => {
                return Err(RequestError::InvalidResponse);
            },
        };
        let version = match data.get("version") {
            Some(v) => match v.as_str() {
                Some(s) => s.to_owned(),
                None => {
                    return Err(RequestError::InvalidResponse);
                },
            },
            None => {
                return Err(RequestError::InvalidResponse);
            },
        };
        Ok(LoginInfo { customer_id, account_id, tfa, builddate, version })
    }

    /// The request one logout round trip sends: `account.logout` with no
    /// parameters.
    pub fn logout_request(&self) -> (r: Request)
        ensures
            r@.method == "account.logout"@,
            r@.params == Seq::<(Seq<char>, ValModel)>::empty(),
    {
        proof {
            reveal_strlit("account.logout");
        }
        Request::new("account.logout")
    }

    /// Conclude one logout round trip: any payload is discarded, and the
    /// result is success exactly when the RPC layer reported none of its
    /// errors.
    pub fn logout(&self, conn: &mut Connection, outcome: TransportResult) -> (r: Result<
        (),
        RequestError,
    >)
        ensures
            final(conn).testing == old(conn).testing,
            final(conn).debug == old(conn).debug,
            match outcome {
                TransportResult::Failed => final(conn).cookies == old(conn).cookies && (
                r matches Err(e) && e@ == ErrorModel::SendFailed),
                TransportResult::Exchanged(root, jar) => {
                    &&& final(conn).cookies == jar
                    &&& match envelope_of(root@) {
                        Err(em) => r matches Err(e) && e@ == em,
                        Ok(_) => r is Ok,
                    }
                },
            },
    {
        match conn.send(outcome) {
            Ok(_) => Ok(()),
            Err(e) => Err(e),
        }
    }
}

} // verus!
