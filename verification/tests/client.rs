use inwx::account::LoginInfo;
use inwx::connection::{Connection, TransportResult};
use inwx::nameserver::DomainRecord;
use inwx::request::Request;
use inwx::value::{StructMap, Value};
use inwx::{Domrobot, RequestError};

fn envelope(code: i32, msg: &str, res_data: Option<StructMap>) -> Value {
    let mut root = StructMap::new();
    root.insert("code", Value::Int(code));
    root.insert("msg", Value::Str(msg.to_string()));
    if let Some(data) = res_data {
        root.insert("resData", Value::Struct(data));
    }
    Value::Struct(root)
}

fn login_payload() -> StructMap {
    let mut data = StructMap::new();
    data.insert("customerId", Value::Int(1));
    data.insert("accountId", Value::Int(2));
    data.insert("tfa", Value::Str("0".to_string()));
    data.insert("builddate", Value::Str("d".to_string()));
    data.insert("version", Value::Str("v".to_string()));
    data
}

fn session_jar() -> Vec<(String, String)> {
    vec![("domrobot".to_string(), "5f3cab8e".to_string())]
}

#[test]
fn request_round_trip() {
    let mut req = Request::new("sample.call");
    req.param("alpha", Value::Int(1));
    req.param("beta", Value::Str("two".to_string()));
    let wire = req.build();
    assert_eq!(wire.method, "sample.call".to_string());
    match wire.arg {
        Value::Struct(m) => {
            assert_eq!(m.get("alpha"), Some(&Value::Int(1)));
            assert_eq!(m.get("beta"), Some(&Value::Str("two".to_string())));
            assert_eq!(m.get("gamma"), None);
        }
        other => panic!("expected a struct argument, got {:?}", other),
    }
}

#[test]
fn build_is_pure() {
    let mut req = Request::new("sample.call");
    req.param("alpha", Value::Int(1));
    let first = req.build();
    let second = req.build();
    assert_eq!(first.method, second.method);
    assert_eq!(first.arg, second.arg);
}

#[test]
fn param_replace_returns_first_value() {
    let mut req = Request::new("sample.call");
    assert_eq!(req.param("key", Value::Int(1)), None);
    assert_eq!(req.param("key", Value::Int(2)), Some(Value::Int(1)));
    let wire = req.build();
    match wire.arg {
        Value::Struct(m) => assert_eq!(m.get("key"), Some(&Value::Int(2))),
        other => panic!("expected a struct argument, got {:?}", other),
    }
}

#[test]
fn send_success_without_payload_is_ok_none() {
    let mut conn = Connection::new(false, false);
    let outcome = TransportResult::Exchanged(envelope(1000, "OK", None), Vec::new());
    assert_eq!(conn.send(outcome), Ok(None));
}

#[test]
fn send_code_1500_is_success() {
    let mut conn = Connection::new(false, false);
    let outcome = TransportResult::Exchanged(envelope(1500, "OK", None), Vec::new());
    assert_eq!(conn.send(outcome), Ok(None));
}

#[test]
fn send_success_with_payload_returns_entries() {
    let mut conn = Connection::new(false, false);
    let mut data = StructMap::new();
    data.insert("total", Value::Int(3));
    let outcome = TransportResult::Exchanged(envelope(1000, "OK", Some(data)), Vec::new());
    match conn.send(outcome) {
        Ok(Some(payload)) => assert_eq!(payload.get("total"), Some(&Value::Int(3))),
        other => panic!("expected a payload, got {:?}", other),
    }
}

#[test]
fn send_missing_code_is_invalid_response() {
    let mut conn = Connection::new(false, false);
    let mut root = StructMap::new();
    root.insert("msg", Value::Str("OK".to_string()));
    let outcome = TransportResult::Exchanged(Value::Struct(root), Vec::new());
    assert_eq!(conn.send(outcome), Err(RequestError::InvalidResponse));
}

#[test]
fn send_non_integer_code_is_invalid_response() {
    let mut conn = Connection::new(false, false);
    let mut root = StructMap::new();
    root.insert("code", Value::Str("1000".to_string()));
    root.insert("msg", Value::Str("OK".to_string()));
    let outcome = TransportResult::Exchanged(Value::Struct(root), Vec::new());
    assert_eq!(conn.send(outcome), Err(RequestError::InvalidResponse));
}

#[test]
fn send_non_struct_root_is_invalid_response() {
    let mut conn = Connection::new(false, false);
    let outcome = TransportResult::Exchanged(Value::Str("junk".to_string()), Vec::new());
    assert_eq!(conn.send(outcome), Err(RequestError::InvalidResponse));
}

#[test]
fn send_transport_failure_is_send_failed() {
    let mut conn = Connection::new(false, false);
    assert_eq!(conn.send(TransportResult::Failed), Err(RequestError::SendFailed));
    assert!(conn.cookies.is_empty());
}

#[test]
fn send_business_code_is_call_error() {
    let mut conn = Connection::new(false, false);
    let outcome = TransportResult::Exchanged(envelope(2200, "Authentication error", None), Vec::new());
    assert_eq!(
        conn.send(outcome),
        Err(RequestError::CallError(2200, "Authentication error".to_string()))
    );
}

#[test]
fn send_replaces_cookies_wholesale() {
    let mut conn = Connection::new(false, false);
    let first_jar = vec![
        ("domrobot".to_string(), "a".to_string()),
        ("other".to_string(), "b".to_string()),
    ];
    conn.send(TransportResult::Exchanged(envelope(1000, "OK", None), first_jar))
        .unwrap();
    assert_eq!(conn.cookie("other"), Some(&"b".to_string()));
    let second_jar = vec![("domrobot".to_string(), "c".to_string())];
    conn.send(TransportResult::Exchanged(envelope(1000, "OK", None), second_jar))
        .unwrap();
    assert_eq!(conn.cookie("domrobot"), Some(&"c".to_string()));
    assert_eq!(conn.cookie("other"), None);
    assert_eq!(conn.cookies.len(), 1);
}

#[test]
fn urls_follow_the_testing_flag() {
    let sandbox = Domrobot::new(true, false);
    assert_eq!(sandbox.conn.url(), "https://api.ote.domrobot.com/xmlrpc/");
    let production = Domrobot::new(false, false);
    assert_eq!(production.conn.url(), "https://api.domrobot.com/xmlrpc/");
}

#[test]
fn new_client_has_no_session() {
    let client = Domrobot::new(false, true);
    assert!(client.conn.cookies.is_empty());
    assert!(client.conn.debug);
    assert!(!client.conn.testing);
}

#[test]
fn login_request_carries_credentials() {
    let client = Domrobot::new(false, false);
    let req = client.account.login_request("user@example.test", "hunter");
    let wire = req.build();
    assert_eq!(wire.method, "account.login".to_string());
    match wire.arg {
        Value::Struct(m) => {
            assert_eq!(m.get("user"), Some(&Value::Str("user@example.test".to_string())));
            assert_eq!(m.get("pass"), Some(&Value::Str("hunter".to_string())));
        }
        other => panic!("expected a struct argument, got {:?}", other),
    }
}

#[test]
fn login_success_projects_all_fields() {
    let mut client = Domrobot::new(false, false);
    let outcome =
        TransportResult::Exchanged(envelope(1000, "OK", Some(login_payload())), session_jar());
    let info: LoginInfo = client.account.login(&mut client.conn, outcome).unwrap();
    assert_eq!(info.customer_id, 1);
    assert_eq!(info.account_id, 2);
    assert_eq!(info.tfa, "0".to_string());
    assert_eq!(info.builddate, "d".to_string());
    assert_eq!(info.version, "v".to_string());
    assert_eq!(client.conn.cookie("domrobot"), Some(&"5f3cab8e".to_string()));
}

#[test]
fn login_without_session_cookie_fails() {
    let mut client = Domrobot::new(false, false);
    let outcome =
        TransportResult::Exchanged(envelope(1000, "OK", Some(login_payload())), Vec::new());
    assert_eq!(
        client.account.login(&mut client.conn, outcome),
        Err(RequestError::LoginFailed)
    );
}

#[test]
fn login_with_missing_field_is_invalid_response() {
    let mut client = Domrobot::new(false, false);
    let mut data = StructMap::new();
    data.insert("customerId", Value::Int(1));
    data.insert("accountId", Value::Int(2));
    let outcome = TransportResult::Exchanged(envelope(1000, "OK", Some(data)), session_jar());
    assert_eq!(
        client.account.login(&mut client.conn, outcome),
        Err(RequestError::InvalidResponse)
    );
}

#[test]
fn login_without_payload_is_invalid_response() {
    let mut client = Domrobot::new(false, false);
    let outcome = TransportResult::Exchanged(envelope(1000, "OK", None), session_jar());
    assert_eq!(
        client.account.login(&mut client.conn, outcome),
        Err(RequestError::InvalidResponse)
    );
}

#[test]
fn login_business_error_is_call_error() {
    let mut client = Domrobot::new(false, false);
    let outcome =
        TransportResult::Exchanged(envelope(2200, "Authentication error", None), Vec::new());
    assert_eq!(
        client.account.login(&mut client.conn, outcome),
        Err(RequestError::CallError(2200, "Authentication error".to_string()))
    );
}

#[test]
fn logout_request_has_no_parameters() {
    let client = Domrobot::new(false, false);
    let wire = client.account.logout_request().build();
    assert_eq!(wire.method, "account.logout".to_string());
    match wire.arg {
        Value::Struct(m) => assert_eq!(m.get("user"), None),
        other => panic!("expected a struct argument, got {:?}", other),
    }
}

#[test]
fn logout_success_discards_payload() {
    let mut client = Domrobot::new(false, false);
    let mut data = StructMap::new();
    data.insert("ignored", Value::Int(9));
    let outcome = TransportResult::Exchanged(envelope(1000, "OK", Some(data)), Vec::new());
    assert_eq!(client.account.logout(&mut client.conn, outcome), Ok(()));
}

#[test]
fn logout_business_error_is_call_error() {
    let mut client = Domrobot::new(false, false);
    let outcome =
        TransportResult::Exchanged(envelope(2200, "Authentication error", None), Vec::new());
    assert_eq!(
        client.account.logout(&mut client.conn, outcome),
        Err(RequestError::CallError(2200, "Authentication error".to_string()))
    );
}

#[test]
fn transport_failure_surfaces_from_operations() {
    let mut client = Domrobot::new(false, false);
    assert_eq!(
        client.account.login(&mut client.conn, TransportResult::Failed),
        Err(RequestError::SendFailed)
    );
    assert_eq!(
        client.account.logout(&mut client.conn, TransportResult::Failed),
        Err(RequestError::SendFailed)
    );
    assert_eq!(
        client.nameserver.info(&mut client.conn, TransportResult::Failed),
        Err(RequestError::SendFailed)
    );
    assert_eq!(
        client.nameserver.update_record(&mut client.conn, TransportResult::Failed),
        Err(RequestError::SendFailed)
    );
}

fn sample_record() -> DomainRecord {
    DomainRecord {
        id: 1,
        name: "home.foo.bar".to_string(),
        typ: "A".to_string(),
        content: "1.2.3.4".to_string(),
        ttl: 300,
        prio: 0,
    }
}

fn zone_payload() -> StructMap {
    let mut data = StructMap::new();
    data.insert("domain", Value::Str("foo.bar".to_string()));
    data.insert("roId", Value::Int(7));
    data.insert("type", Value::Str("MASTER".to_string()));
    data
}

fn record_entry() -> StructMap {
    let mut entry = StructMap::new();
    entry.insert("id", Value::Int(1));
    entry.insert("name", Value::Str("home.foo.bar".to_string()));
    entry.insert("type", Value::Str("A".to_string()));
    entry.insert("content", Value::Str("1.2.3.4".to_string()));
    entry.insert("ttl", Value::Int(300));
    entry.insert("prio", Value::Int(0));
    entry
}

#[test]
fn info_request_carries_domain() {
    let client = Domrobot::new(false, false);
    let wire = client.nameserver.info_request("foo.bar").build();
    assert_eq!(wire.method, "nameserver.info".to_string());
    match wire.arg {
        Value::Struct(m) => assert_eq!(m.get("domain"), Some(&Value::Str("foo.bar".to_string()))),
        other => panic!("expected a struct argument, got {:?}", other),
    }
}

#[test]
fn info_with_one_record_projects_it() {
    let mut client = Domrobot::new(false, false);
    let mut data = zone_payload();
    data.insert("record", Value::Array(vec![Value::Struct(record_entry())]));
    let outcome = TransportResult::Exchanged(envelope(1000, "OK", Some(data)), Vec::new());
    let info = client.nameserver.info(&mut client.conn, outcome).unwrap();
    assert_eq!(info.domain, "foo.bar".to_string());
    assert_eq!(info.ro_id, 7);
    assert_eq!(info.typ, "MASTER".to_string());
    assert!(info.slave_dns.is_empty());
    assert_eq!(info.records, vec![sample_record()]);
}

#[test]
fn info_without_record_field_yields_empty_list() {
    let mut client = Domrobot::new(false, false);
    let outcome = TransportResult::Exchanged(envelope(1000, "OK", Some(zone_payload())), Vec::new());
    let info = client.nameserver.info(&mut client.conn, outcome).unwrap();
    assert!(info.records.is_empty());
    assert!(info.slave_dns.is_empty());
}

#[test]
fn info_with_slave_dns_projects_pairs() {
    let mut client = Domrobot::new(false, false);
    let mut entry = StructMap::new();
    entry.insert("name", Value::Str("ns1.foo.bar".to_string()));
    entry.insert("ip", Value::Str("9.9.9.9".to_string()));
    let mut data = zone_payload();
    data.insert("slaveDns", Value::Array(vec![Value::Struct(entry)]));
    let outcome = TransportResult::Exchanged(envelope(1000, "OK", Some(data)), Vec::new());
    let info = client.nameserver.info(&mut client.conn, outcome).unwrap();
    assert_eq!(
        info.slave_dns,
        vec![("ns1.foo.bar".to_string(), "9.9.9.9".to_string())]
    );
}

#[test]
fn info_with_malformed_record_is_invalid_response() {
    let mut client = Domrobot::new(false, false);
    let mut entry = record_entry();
    entry.insert("content", Value::Nil);
    let mut data = zone_payload();
    data.insert("record", Value::Array(vec![Value::Struct(entry)]));
    let outcome = TransportResult::Exchanged(envelope(1000, "OK", Some(data)), Vec::new());
    assert_eq!(
        client.nameserver.info(&mut client.conn, outcome),
        Err(RequestError::InvalidResponse)
    );
}

#[test]
fn info_with_slave_entry_missing_ip_is_invalid_response() {
    let mut client = Domrobot::new(false, false);
    let mut entry = StructMap::new();
    entry.insert("name", Value::Str("ns1.foo.bar".to_string()));
    let mut data = zone_payload();
    data.insert("slaveDns", Value::Array(vec![Value::Struct(entry)]));
    let outcome = TransportResult::Exchanged(envelope(1000, "OK", Some(data)), Vec::new());
    assert_eq!(
        client.nameserver.info(&mut client.conn, outcome),
        Err(RequestError::InvalidResponse)
    );
}

#[test]
fn info_missing_scalar_field_is_invalid_response() {
    let mut client = Domrobot::new(false, false);
    let mut data = StructMap::new();
    data.insert("domain", Value::Str("foo.bar".to_string()));
    data.insert("type", Value::Str("MASTER".to_string()));
    let outcome = TransportResult::Exchanged(envelope(1000, "OK", Some(data)), Vec::new());
    assert_eq!(
        client.nameserver.info(&mut client.conn, outcome),
        Err(RequestError::InvalidResponse)
    );
}

#[test]
fn info_business_error_is_call_error() {
    let mut client = Domrobot::new(false, false);
    let outcome =
        TransportResult::Exchanged(envelope(2200, "Authentication error", None), Vec::new());
    assert_eq!(
        client.nameserver.info(&mut client.conn, outcome),
        Err(RequestError::CallError(2200, "Authentication error".to_string()))
    );
}

#[test]
fn update_record_request_carries_all_fields() {
    let client = Domrobot::new(false, false);
    let wire = client.nameserver.update_record_request(&sample_record()).build();
    assert_eq!(wire.method, "nameserver.updateRecord".to_string());
    match wire.arg {
        Value::Struct(m) => {
            assert_eq!(m.get("id"), Some(&Value::Int(1)));
            assert_eq!(m.get("name"), Some(&Value::Str("home.foo.bar".to_string())));
            assert_eq!(m.get("type"), Some(&Value::Str("A".to_string())));
            assert_eq!(m.get("content"), Some(&Value::Str("1.2.3.4".to_string())));
            assert_eq!(m.get("ttl"), Some(&Value::Int(300)));
            assert_eq!(m.get("prio"), Some(&Value::Int(0)));
        }
        other => panic!("expected a struct argument, got {:?}", other),
    }
}

#[test]
fn update_record_success_is_ok() {
    let mut client = Domrobot::new(false, false);
    let outcome = TransportResult::Exchanged(envelope(1000, "OK", None), Vec::new());
    assert_eq!(client.nameserver.update_record(&mut client.conn, outcome), Ok(()));
}

#[test]
fn update_record_business_error_is_call_error() {
    let mut client = Domrobot::new(false, false);
    let outcome =
        TransportResult::Exchanged(envelope(2200, "Authentication error", None), Vec::new());
    assert_eq!(
        client.nameserver.update_record(&mut client.conn, outcome),
        Err(RequestError::CallError(2200, "Authentication error".to_string()))
    );
}

#[test]
fn value_accessors_follow_the_variant() {
    assert_eq!(Value::Int(5).as_i32(), Some(5));
    assert_eq!(Value::Str("5".to_string()).as_i32(), None);
    assert_eq!(Value::Str("abc".to_string()).as_str(), Some("abc"));
    assert_eq!(Value::Int(5).as_str(), None);
    assert!(Value::Nil.as_struct().is_none());
    assert!(Value::Nil.as_array().is_none());
}

#[test]
fn duplicate_preserves_nested_values() {
    let mut inner = StructMap::new();
    inner.insert("leaf", Value::Int(4));
    let original = Value::Array(vec![
        Value::Struct(inner),
        Value::Str("text".to_string()),
        Value::Bool(true),
        Value::Nil,
    ]);
    assert_eq!(original.duplicate(), original);
}
