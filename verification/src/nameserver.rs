//! The nameserver sub-client: `nameserver.info` with its typed projection
//! of zone data, and `nameserver.updateRecord`.

use crate::connection::{envelope_of, Connection, TransportResult};
use crate::request::Request;
use crate::value::{
    assoc_lookup, lemma_insert_unique, lemma_leaf_view, spec_array, spec_insert, spec_struct,
    str_pairs_view, unique_keys, vals_view, ValModel, Value,
};
use crate::{ErrorModel, RequestError};
use vstd::prelude::*;

verus! {

/// One DNS record of a zone. Identity for update purposes is the `id`
/// field; the remaining fields may be changed by the caller before an
/// update call.
#[derive(Debug, Clone, PartialEq)]
pub struct DomainRecord {
    pub id: i32,
    pub name: String,
    pub typ: String,
    pub content: String,
    pub ttl: i32,
    pub prio: i32,
}

/// The model of a DNS record.
pub struct DomainRecordModel {
    pub id: i32,
    pub name: Seq<char>,
    pub typ: Seq<char>,
    pub content: Seq<char>,
    pub ttl: i32,
    pub prio: i32,
}

impl View for DomainRecord {
    type V = DomainRecordModel;

    open spec fn view(&self) -> DomainRecordModel {
        DomainRecordModel {
            id: self.id,
            name: self.name@,
            typ: self.typ@,
            content: self.content@,
            ttl: self.ttl,
            prio: self.prio,
        }
    }
}

/// Typed zone data: the required scalar fields, the slave name servers
/// (possibly none), and the zone's records (possibly none).
#[derive(Debug, PartialEq)]
pub struct DomainInfo {
    pub ro_id: i32,
    pub domain: String,
    pub typ: String,
    pub slave_dns: Vec<(String, String)>,
    pub records: Vec<DomainRecord>,
}

/// The model of zone data.
pub struct DomainInfoModel {
    pub ro_id: i32,
    pub domain: Seq<char>,
    pub typ: Seq<char>,
    pub slave_dns: Seq<(Seq<char>, Seq<char>)>,
    pub records: Seq<DomainRecordModel>,
}

/// The models of a sequence of records, elementwise.
pub open spec fn records_model(s: Seq<DomainRecord>) -> Seq<DomainRecordModel> {
    Seq::new(s.len(), |i: int| s[i]@)
}

impl View for DomainInfo {
    type V = DomainInfoModel;

    open spec fn view(&self) -> DomainInfoModel {
        DomainInfoModel {
            ro_id: self.ro_id,
            domain: self.domain@,
            typ: self.typ@,
            slave_dns: str_pairs_view(self.slave_dns@),
            records: records_model(self.records@),
        }
    }
}

/// One slave name server entry: a struct with string `name` and `ip`, both
/// required once the entry exists.
pub open spec fn slave_view(v: ValModel) -> Option<(Seq<char>, Seq<char>)> {
    match spec_struct(v) {
        Some(entry) => match (assoc_lookup(entry, "name"@), assoc_lookup(entry, "ip"@)) {
            (Some(ValModel::Str(name)), Some(ValModel::Str(ip))) => Some((name, ip)),
            _ => None,
        },
        None => None,
    }
}

/// All slave entries in order, or `None` as soon as one is malformed.
pub open spec fn slaves_view(items: Seq<ValModel>) -> Option<Seq<(Seq<char>, Seq<char>)>>
    decreases items.len(),
{
    if items.len() == 0 {
        Some(Seq::empty())
    } else {
        match (slave_view(items[0]), slaves_view(items.skip(1))) {
            (Some(head), Some(tail)) => Some(seq![head] + tail),
            _ => None,
        }
    }
}

/// One record entry: a struct with all six record fields required.
pub open spec fn record_view(v: ValModel) -> Option<DomainRecordModel> {
    match spec_struct(v) {
        Some(entry) => match (
            assoc_lookup(entry, "id"@),
            assoc_lookup(entry, "name"@),
            assoc_lookup(entry, "type"@),
            assoc_lookup(entry, "content"@),
            assoc_lookup(entry, "ttl"@),
            assoc_lookup(entry, "prio"@),
        ) {
            (
                Some(ValModel::Int(id)),
                Some(ValModel::Str(name)),
                Some(ValModel::Str(typ)),
                Some(ValModel::Str(content)),
                Some(ValModel::Int(ttl)),
                Some(ValModel::Int(prio)),
            ) => Some(DomainRecordModel { id, name, typ, content, ttl, prio }),
            _ => None,
        },
        None => None,
    }
}

/// All record entries in order, or `None` as soon as one is malformed.
pub open spec fn records_view(items: Seq<ValModel>) -> Option<Seq<DomainRecordModel>>
    decreases items.len(),
{
    if items.len() == 0 {
        Some(Seq::empty())
    } else {
        match (record_view(items[0]), records_view(items.skip(1))) {
            (Some(head), Some(tail)) => Some(seq![head] + tail),
            _ => None,
        }
    }
}

/// The slave list carried by a payload: an absent `slaveDns` field means an
/// empty list; a present one must be an array of well-formed entries.
pub open spec fn slaves_of(data: Seq<(Seq<char>, ValModel)>) -> Option<
    Seq<(Seq<char>, Seq<char>)>,
> {
    match assoc_lookup(data, "slaveDns"@) {
        None => Some(Seq::empty()),
        Some(v) => match spec_array(v) {
            Some(items) => slaves_view(items),
            None => None,
        },
    }
}

/// The record list carried by a payload: an absent `record` field means an
/// empty list; a present one must be an array of well-formed entries.
pub open spec fn records_of(data: Seq<(Seq<char>, ValModel)>) -> Option<Seq<DomainRecordModel>> {
    match assoc_lookup(data, "record"@) {
        None => Some(Seq::empty()),
        Some(v) => match spec_array(v) {
            Some(items) => records_view(items),
            None => None,
        },
    }
}

/// The zone data read out of a response payload: the three scalar fields
/// are required, and both optional lists must decode.
pub open spec fn info_view(data: Seq<(Seq<char>, ValModel)>) -> Option<DomainInfoModel> {
    match (
        assoc_lookup(data, "domain"@),
        assoc_lookup(data, "roId"@),
        assoc_lookup(data, "type"@),
        slaves_of(data),
        records_of(data),
    ) {
        (
            Some(ValModel::Str(domain)),
            Some(ValModel::Int(ro_id)),
            Some(ValModel::Str(typ)),
            Some(slave_dns),
            Some(records),
        ) => Some(DomainInfoModel { ro_id, domain, typ, slave_dns, records }),
        _ => None,
    }
}

/// Appending one entry extends a successful slave decode by exactly that
/// entry, and fails exactly when the decode so far failed or the entry is
/// malformed.
proof fn lemma_slaves_view_push(items: Seq<ValModel>, v: ValModel)
    ensures
        slaves_view(items.push(v)) == match (slaves_view(items), slave_view(v)) {
            (Some(tail), Some(head)) => Some(tail.push(head)),
            _ => None::<Seq<(Seq<char>, Seq<char>)>>,
        },
    decreases items.len(),
{
    let whole = items.push(v);
    if items.len() == 0 {
        assert(whole[0] == v);
        assert(whole.skip(1) =~= Seq::<ValModel>::empty());
        assert(slaves_view(whole.skip(1)) == Some(Seq::<(Seq<char>, Seq<char>)>::empty()));
        if slave_view(v) is Some {
            let head = slave_view(v)->Some_0;
            assert(seq![head] + Seq::<(Seq<char>, Seq<char>)>::empty() =~= Seq::<
                (Seq<char>, Seq<char>),
            >::empty().push(head));
        }
    } else {
        lemma_slaves_view_push(items.skip(1), v);
        assert(whole[0] == items[0]);
        assert(whole.skip(1) =~= items.skip(1).push(v));
        if slaves_view(items) is Some && slave_view(v) is Some {
            let tail = slaves_view(items.skip(1))->Some_0;
            let head0 = slave_view(items[0])->Some_0;
            let head = slave_view(v)->Some_0;
            assert(slaves_view(whole.skip(1)) == Some(tail.push(head)));
            assert(seq![head0] + tail.push(head) =~= (seq![head0] + tail).push(head));
        }
    }
}

/// Appending one entry extends a successful record decode by exactly that
/// entry, and fails exactly when the decode so far failed or the entry is
/// malformed.
proof fn lemma_records_view_push(items: Seq<ValModel>, v: ValModel)
    ensures
        records_view(items.push(v)) == match (records_view(items), record_view(v)) {
            (Some(tail), Some(head)) => Some(tail.push(head)),
            _ => None::<Seq<DomainRecordModel>>,
        },
    decreases items.len(),
{
    let whole = items.push(v);
    if items.len() == 0 {
        assert(whole[0] == v);
        assert(whole.skip(1) =~= Seq::<ValModel>::empty());
        assert(records_view(whole.skip(1)) == Some(Seq::<DomainRecordModel>::empty()));
        if record_view(v) is Some {
            let head = record_view(v)->Some_0;
            assert(seq![head] + Seq::<DomainRecordModel>::empty() =~= Seq::<
                DomainRecordModel,
            >::empty().push(head));
        }
    } else {
        lemma_records_view_push(items.skip(1), v);
        assert(whole[0] == items[0]);
        assert(whole.skip(1) =~= items.skip(1).push(v));
        if records_view(items) is Some && record_view(v) is Some {
            let tail = records_view(items.skip(1))->Some_0;
            let head0 = record_view(items[0])->Some_0;
            let head = record_view(v)->Some_0;
            assert(records_view(whole.skip(1)) == Some(tail.push(head)));
            assert(seq![head0] + tail.push(head) =~= (seq![head0] + tail).push(head));
        }
    }
}

/// A slave decode that fails on a prefix fails on the whole sequence.
proof fn lemma_slaves_none_extends(items: Seq<ValModel>, n: int)
    requires
        0 <= n <= items.len(),
        slaves_view(items.take(n)) is None,
    ensures
        slaves_view(items) is None,
    decreases items.len(),
{
    assert(n > 0);
    assert(items.take(n)[0] == items[0]);
    if slave_view(items[0]) is Some {
        assert(items.take(n).skip(1) =~= items.skip(1).take(n - 1));
        lemma_slaves_none_extends(items.skip(1), n - 1);
    }
}

/// A malformed entry after a clean prefix makes the whole slave decode fail.
proof fn lemma_decode_prefix_slaves(items: Seq<ValModel>, j: int)
    requires
        0 <= j < items.len(),
        slaves_view(items.take(j)) is Some,
        slave_view(items[j]) is None,
    ensures
        slaves_view(items) is None,
{
    lemma_slaves_view_push(items.take(j), items[j]);
    assert(items.take(j).push(items[j]) =~= items.take(j + 1));
    lemma_slaves_none_extends(items, j + 1);
}

/// A record decode that fails on a prefix fails on the whole sequence.
proof fn lemma_records_none_extends(items: Seq<ValModel>, n: int)
    requires
        0 <= n <= items.len(),
        records_view(items.take(n)) is None,
    ensures
        records_view(items) is None,
    decreases items.len(),
{
    assert(n > 0);
    assert(items.take(n)[0] == items[0]);
    if record_view(items[0]) is Some {
        assert(items.take(n).skip(1) =~= items.skip(1).take(n - 1));
        lemma_records_none_extends(items.skip(1), n - 1);
    }
}

/// A malformed entry after a clean prefix makes the whole record decode
/// fail.
proof fn lemma_decode_prefix_records(items: Seq<ValModel>, j: int)
    requires
        0 <= j < items.len(),
        records_view(items.take(j)) is Some,
        record_view(items[j]) is None,
    ensures
        records_view(items) is None,
{
    lemma_records_view_push(items.take(j), items[j]);
    assert(items.take(j).push(items[j]) =~= items.take(j + 1));
    lemma_records_none_extends(items, j + 1);
}

/// The nameserver sub-client. It holds no state of its own: the shared
/// connection is handed in for each call.
pub struct Nameserver {}

impl Nameserver {
    /// The request one zone query sends: `nameserver.info` with the domain
    /// as its single parameter.
    pub fn info_request(&self, domain: &str) -> (r: Request)
        ensures
            r@.method == "nameserver.info"@,
            r@.params == spec_insert(
                Seq::<(Seq<char>, ValModel)>::empty(),
                "domain"@,
                ValModel::Str(domain@),
            ),
            unique_keys(r@.params),
    {
        proof {
            reveal_strlit("nameserver.info");
        }
        let mut req = Request::new("nameserver.info");
        let domain_value = Value::Str(domain.to_owned());
        proof {
            lemma_leaf_view(domain_value);
            lemma_insert_unique(
                Seq::<(Seq<char>, ValModel)>::empty(),
                "domain"@,
                ValModel::Str(domain@),
            );
        }
        req.param("domain", domain_value);
        req
    }

    /// Conclude one zone query: project the payload into typed zone data,
    /// with any missing or mistyped field collapsing to `InvalidResponse`,
    /// and an absent optional array yielding an empty list.
    pub fn info(&mut self, conn: &mut Connection, outcome: TransportResult) -> (r: Result<
        DomainInfo,
        RequestError,
    >)
        ensures
            final(conn).testing == old(conn).testing,
            final(conn).debug == old(conn).debug,
            match outcome {
                TransportResult::Failed => final(conn).cookies == old(conn).cookies && (
                r matches Err(e) && e@ == ErrorModel::SendFailed),
                TransportResult::Exchanged(root, jar) => {
                    &&& final(conn).cookies == jar
                    &&& match envelope_of(root@) {
                        Err(em) => r matches Err(e) && e@ == em,
                        Ok(None) => r matches Err(e) && e@ == ErrorModel::InvalidResponse,
                        Ok(Some(data)) => match info_view(data) {
                            Some(info) => r matches Ok(di) && di@ == info,
                            None => r matches Err(e) && e@ == ErrorModel::InvalidResponse,
                        },
                    }
                },
            },
    {
        let ghost transport = outcome;
        let data = match conn.send(outcome) {
            Ok(Some(data)) => data,
            Ok(None) => {
                return Err(RequestError::InvalidResponse);
            },
            Err(e) => {
                return Err(e);
            },
        };
        let domain = match data.get("domain") {
            Some(v) => match v.as_str() {
                Some(s) => s.to_owned(),
                None => {
                    return Err(RequestError::InvalidResponse);
                },
            },
            None => {
                return Err(RequestError::InvalidResponse);
            },
        };
        let ro_id = match data.get("roId") {
            Some(v) => match v.as_i32() {
                Some(i) => i,
                None => {
                    return Err(RequestError::InvalidResponse);
                },
            },
            None => {
                return Err(RequestError::InvalidResponse);
            },
        };
        let typ = match data.get("type") {
            Some(v) => match v.as_str() {
                Some(s) => s.to_owned(),
                None => {
                    return Err(RequestError::InvalidResponse);
                },
            },
            None => {
                return Err(RequestError::InvalidResponse);
            },
        };
        let mut slave_dns: Vec<(String, String)> = Vec::new();
        match data.get("slaveDns") {
            None => {
                proof {
                    assert(str_pairs_view(slave_dns@) =~= Seq::<(Seq<char>, Seq<char>)>::empty());
                }
            },
            Some(v) => {
                let arr = match v.as_array() {
                    Some(arr) => arr,
                    None => {
                        return Err(RequestError::InvalidResponse);
                    },
                };
                let ghost items = vals_view(arr@);
                proof {
                    assert(items.take(0) =~= Seq::<ValModel>::empty());
                    assert(str_pairs_view(slave_dns@) =~= Seq::<(Seq<char>, Seq<char>)>::empty());
                }
                let mut j: usize = 0;
                while j < arr.len()
                    invariant
                        j <= arr.len(),
                        items == vals_view(arr@),
                        slave_dns@.len() == j,
                        slaves_view(items.take(j as int)) == Some(str_pairs_view(slave_dns@)),
                        conn.testing == old(conn).testing,
                        conn.debug == old(conn).debug,
                        transport == outcome,
                        transport matches TransportResult::Exchanged(root, jar) && conn.cookies
                            == jar && envelope_of(root@) == Ok::<_, ErrorModel>(Some(data@)),
                        assoc_lookup(data@, "slaveDns"@) matches Some(sv) && spec_array(sv)
                            == Some(items),
                    decreases arr.len() - j,
                {
                    let entry = match arr[j].as_struct() {
                        Some(entry) => entry,
                        None => {
                            proof {
                                lemma_decode_prefix_slaves(items, j as int);
                            }
                            return Err(RequestError::InvalidResponse);
                        },
                    };
                    let name = match entry.get("name") {
                        Some(v) => match v.as_str() {
                            Some(s) => s.to_owned(),
                            None => {
                                proof {
                                    lemma_decode_prefix_slaves(items, j as int);
                                }
                                return Err(RequestError::InvalidResponse);
                            },
                        },
                        None => {
                            proof {
                                lemma_decode_prefix_slaves(items, j as int);
                            }
                            return Err(RequestError::InvalidResponse);
                        },
                    };
                    let ip = match entry.get("ip") {
                        Some(v) => match v.as_str() {
                            Some(s) => s.to_owned(),
                            None => {
                                proof {
                                    lemma_decode_prefix_slaves(items, j as int);
                                }
                                return Err(RequestError::InvalidResponse);
                            },
                        },
                        None => {
                            proof {
                                lemma_decode_prefix_slaves(items, j as int);
                            }
                            return Err(RequestError::InvalidResponse);
                        },
                    };
                    proof {
                        lemma_slaves_view_push(items.take(j as int), items[j as int]);
                        assert(items.take(j as int).push(items[j as int]) =~= items.take(
                            j as int + 1,
                        ));
                    }
                    let ghost prev = slave_dns@;
                    slave_dns.push((name, ip));
                    proof {
                        assert(str_pairs_view(slave_dns@) =~= str_pairs_view(prev).push(
                            (slave_dns@[j as int].0@, slave_dns@[j as int].1@),
                        ));
                    }
                    j += 1;
                }
                proof {
                    assert(items.take(arr.len() as int) =~= items);
                }
            },
        };
        assert(slaves_of(data@) == Some(str_pairs_view(slave_dns@)));
        let mut records: Vec<DomainRecord> = Vec::new();
        match data.get("record") {
            None => {
                proof {
                    assert(records_model(records@) =~= Seq::<DomainRecordModel>::empty());
                }
            },
            Some(v) => {
                let arr = match v.as_array() {
                    Some(arr) => arr,
                    None => {
                        return Err(RequestError::InvalidResponse);
                    },
                };
                let ghost items = vals_view(arr@);
                proof {
                    assert(items.take(0) =~= Seq::<ValModel>::empty());
                    assert(records_model(records@) =~= Seq::<DomainRecordModel>::empty());
                }
                let mut j: usize = 0;
                while j < arr.len()
                    invariant
                        j <= arr.len(),
                        items == vals_view(arr@),
                        records@.len() == j,
                        records_view(items.take(j as int)) == Some(records_model(records@)),
                        conn.testing == old(conn).testing,
                        conn.debug == old(conn).debug,
                        transport == outcome,
                        transport matches TransportResult::Exchanged(root, jar) && conn.cookies
                            == jar && envelope_of(root@) == Ok::<_, ErrorModel>(Some(data@)),
                        assoc_lookup(data@, "record"@) matches Some(rv) && spec_array(rv) == Some(
                            items,
                        ),
                    decreases arr.len() - j,
                {
                    let entry = match arr[j].as_struct() {
                        Some(entry) => entry,
                        None => {
                            proof {
                                lemma_decode_prefix_records(items, j as int);
                            }
                            return Err(RequestError::InvalidResponse);
                        },
                    };
                    let id = match entry.get("id") {
                        Some(v) => match v.as_i32() {
                            Some(i) => i,
                            None => {
                                proof {
                                    lemma_decode_prefix_records(items, j as int);
                                }
                                return Err(RequestError::InvalidResponse);
                            },
                        },
                        None => {
                            proof {
                                lemma_decode_prefix_records(items, j as int);
                            }
                            return Err(RequestError::InvalidResponse);
                        },
                    };
                    let name = match entry.get("name") {
                        Some(v) => match v.as_str() {
                            Some(s) => s.to_owned(),
                            None => {
                                proof {
                                    lemma_decode_prefix_records(items, j as int);
                                }
                                return Err(RequestError::InvalidResponse);
                            },
                        },
                        None => {
                            proof {
                                lemma_decode_prefix_records(items, j as int);
                            }
                            return Err(RequestError::InvalidResponse);
                        },
                    };
                    let typ = match entry.get("type") {
                        Some(v) => match v.as_str() {
                            Some(s) => s.to_owned(),
                            None => {
                                proof {
                                    lemma_decode_prefix_records(items, j as int);
                                }
                                return Err(RequestError::InvalidResponse);
                            },
                        },
                        None => {
                            proof {
                                lemma_decode_prefix_records(items, j as int);
                            }
                            return Err(RequestError::InvalidResponse);
                        },
                    };
                    let content = match entry.get("content") {
                        Some(v) => match v.as_str() {
                            Some(s) => s.to_owned(),
                            None => {
                                proof {
                                    lemma_decode_prefix_records(items, j as int);
                                }
                                return Err(RequestError::InvalidResponse);
                            },
                        },
                        None => {
                            proof {
                                lemma_decode_prefix_records(items, j as int);
                            }
                            return Err(RequestError::InvalidResponse);
                        },
                    };
                    let ttl = match entry.get("ttl") {
                        Some(v) => match v.as_i32() {
                            Some(i) => i,
                            None => {
                                proof {
                                    lemma_decode_prefix_records(items, j as int);
                                }
                                return Err(RequestError::InvalidResponse);
                            },
                        },
                        None => {
                            proof {
                                lemma_decode_prefix_records(items, j as int);
                            }
                            return Err(RequestError::InvalidResponse);
                        },
                    };
                    let prio = match entry.get("prio") {
                        Some(v) => match v.as_i32() {
                            Some(i) => i,
                            None => {
                                proof {
                                    lemma_decode_prefix_records(items, j as int);
                                }
                                return Err(RequestError::InvalidResponse);
                            },
                        },
                        None => {
                            proof {
                                lemma_decode_prefix_records(items, j as int);
                            }
                            return Err(RequestError::InvalidResponse);
                        },
                    };
                    proof {
                        lemma_records_view_push(items.take(j as int), items[j as int]);
                        assert(items.take(j as int).push(items[j as int]) =~= items.take(
                            j as int + 1,
                        ));
                    }
                    let ghost prev = records@;
                    records.push(DomainRecord { id, name, typ, content, ttl, prio });
                    proof {
                        assert(records_model(records@) =~= records_model(prev).push(
                            records@[j as int]@,
                        ));
                    }
                    j += 1;
                }
                proof {
                    assert(items.take(arr.len() as int) =~= items);
                }
            },
        };
        assert(records_of(data@) == Some(records_model(records@)));
        Ok(DomainInfo { ro_id, domain, typ, slave_dns, records })
    }

    /// The request one record update sends: `nameserver.updateRecord` with
    /// all six record fields as named parameters.
    pub fn update_record_request(&self, record: &DomainRecord) -> (r: Request)
        ensures
            r@.method == "nameserver.updateRecord"@,
            r@.params == update_params(*record),
            unique_keys(r@.params),
    {
        proof {
            reveal_strlit("nameserver.updateRecord");
        }
        let mut req = Request::new("nameserver.updateRecord");
        let name_value = Value::Str(record.name.clone());
        let typ_value = Value::Str(record.typ.clone());
        let content_value = Value::Str(record.content.clone());
        proof {
            lemma_leaf_view(Value::Int(record.id));
            lemma_leaf_view(name_value);
            lemma_leaf_view(typ_value);
            lemma_leaf_view(content_value);
            lemma_leaf_view(Value::Int(record.prio));
            lemma_leaf_view(Value::Int(record.ttl));
            lemma_update_params_unique(*record);
        }
        req.param("id", Value::Int(record.id));
        req.param("name", name_value);
        req.param("type", typ_value);
        req.param("content", content_value);
        req.param("prio", Value::Int(record.prio));
        req.param("ttl", Value::Int(record.ttl));
        req
    }

    /// Conclude one record update: no payload is expected or validated, and
    /// the result is success exactly when the RPC layer reported none of
    /// its errors.
    pub fn update_record(&mut self, conn: &mut Connection, outcome: TransportResult) -> (r: Result<
        (),
        RequestError,
    >)
        ensures
            final(conn).testing == old(conn).testing,
            final(conn).debug == old(conn).debug,
            match outcome {
                TransportResult::Failed => final(conn).cookies == old(conn).cookies && (
                r matches Err(e) && e@ == ErrorModel::SendFailed),
                TransportResult::Exchanged(root, jar) => {
                    &&& final(conn).cookies == jar
                    &&& match envelope_of(root@) {
                        Err(em) => r matches Err(e) && e@ == em,
                        Ok(_) => r is Ok,
                    }
                },
            },
    {
        match conn.send(outcome) {
            Ok(_) => Ok(()),
            Err(e) => Err(e),
        }
    }
}

/// The parameter mapping a record update sends: the six record fields,
/// inserted under their wire names in order.
pub open spec fn update_params(record: DomainRecord) -> Seq<(Seq<char>, ValModel)> {
    spec_insert(
        spec_insert(
            spec_insert(
                spec_insert(
                    spec_insert(
                        spec_insert(
                            Seq::<(Seq<char>, ValModel)>::empty(),
                            "id"@,
                            ValModel::Int(record.id),
                        ),
                        "name"@,
                        ValModel::Str(record.name@),
                    ),
                    "type"@,
                    ValModel::Str(record.typ@),
                ),
                "content"@,
                ValModel::Str(record.content@),
            ),
            "prio"@,
            ValModel::Int(record.prio),
        ),
        "ttl"@,
        ValModel::Int(record.ttl),
    )
}

/// The update parameter mapping keeps its keys unique.
proof fn lemma_update_params_unique(record: DomainRecord)
    ensures
        unique_keys(update_params(record)),
{
    let p0 = Seq::<(Seq<char>, ValModel)>::empty();
    let p1 = spec_insert(p0, "id"@, ValModel::Int(record.id));
    let p2 = spec_insert(p1, "name"@, ValModel::Str(record.name@));
    let p3 = spec_insert(p2, "type"@, ValModel::Str(record.typ@));
    let p4 = spec_insert(p3, "content"@, ValModel::Str(record.content@));
    let p5 = spec_insert(p4, "prio"@, ValModel::Int(record.prio));
    lemma_insert_unique(p0, "id"@, ValModel::Int(record.id));
    lemma_insert_unique(p1, "name"@, ValModel::Str(record.name@));
    lemma_insert_unique(p2, "type"@, ValModel::Str(record.typ@));
    lemma_insert_unique(p3, "content"@, ValModel::Str(record.content@));
    lemma_insert_unique(p4, "prio"@, ValModel::Int(record.prio));
    lemma_insert_unique(p5, "ttl"@, ValModel::Int(record.ttl));
}

} // verus!
