//! Wire-compatible protocol types.
//!
//! Every message exchanged with the signaling server is a JSON object
//! `{"type": <Name>, "data": <fields>}`; unit variants omit `data` entirely.
//! Each type here carries three artifacts: a spec projection `*_jv` giving
//! the tree a value is written as, a spec predicate `*_decodable` saying
//! which trees decode, and a spec predicate `*_matches` pinning the decoded
//! value's fields to the tree.  Decoding is lenient the way the peers are:
//! members may come in any order and unknown members are ignored.
//! Round-trip lemmas tie the three together.

pub use crate::protocol_enums::{
    GameDataEncoding, LobbyState, RelayTransport, SpectatorStateChangeReason,
};
use crate::protocol_enums::{
    gde_of, gde_str, lemma_gde_round_trip, lemma_ls_round_trip, lemma_rt_round_trip,
    lemma_sscr_round_trip, ls_of, ls_str, rt_of, rt_str, sscr_of, sscr_str,
};
pub use crate::error_codes::ErrorCode;
use crate::error_codes::{code_of, code_str, lemma_error_code_round_trip};
pub use crate::ids::{PlayerId, RoomId, Uid};
use crate::ids::{uid_from_text, uid_of, uid_str, uid_text, lemma_uid_text_round_trip};
use crate::json::{dv_fields, dv_seq, lemma_dv_fields, lemma_dv_seq, lemma_dv_variant, Json, JsonV};
use crate::error::SignalFishError;
use crate::wire::{
    find_member, get_bool, get_field, get_int, get_opt_bool, get_opt_int, get_opt_str, get_str, lookup,
    lemma_lookup_absent, lemma_lookup_append, lemma_lookup_at, push_member, sf_absent, sf_bool, sf_bool_ok, sf_int, sf_int_ok, sf_str, sf_str_ok, str_eq,
};
use vstd::prelude::*;

verus! {

// ── Strings as JSON trees ───────────────────────────────────────────

/// The trees of a sequence of strings.
pub open spec fn strs_jv(v: Seq<String>) -> Seq<JsonV> {
    Seq::new(v.len(), |i: int| JsonV::Str(v[i]@))
}

/// Every element of the array tree is a string.
pub open spec fn arr_str_decodable(j: JsonV) -> bool {
    j matches JsonV::Arr(a) && (forall|x: int| 0 <= x < a.len() ==> (#[trigger] a[x]) is Str)
}

/// The strings read element-wise from the array tree.
pub open spec fn arr_str_matches(j: JsonV, v: Seq<String>) -> bool {
    j matches JsonV::Arr(a) && strs_jv(v) == a
}

fn strs_to_json(v: &Vec<String>) -> (j: Json)
    ensures
        j@ == JsonV::Arr(strs_jv(v@)),
{
    let mut items: Vec<Json> = Vec::new();
    let n = v.len();
    let mut i: usize = 0;
    while i < n
        invariant
            i <= n,
            n == v@.len(),
            dv_seq(items@) =~= strs_jv(v@).take(i as int),
        decreases n - i,
    {
        let s: String = v[i].clone();
        let ghost pre = items@;
        let item = Json::Str(s);
        proof {
            crate::json::lemma_dv_seq_push(pre, item);
        }
        items.push(item);
        i = i + 1;
        proof {
            assert(dv_seq(items@) =~= strs_jv(v@).take(i as int));
        }
    }
    proof {
        assert(strs_jv(v@).take(n as int) =~= strs_jv(v@));
    }
    Json::Arr(items)
}

fn strs_from_json(j: &Json) -> (r: Option<Vec<String>>)
    ensures
        match r {
            Some(v) => arr_str_matches(j@, v@),
            None => !arr_str_decodable(j@),
        },
        r is Some <==> arr_str_decodable(j@),
{
    match j {
        Json::Arr(items) => {
            let ghost a = dv_seq(items@);
            proof {
                lemma_dv_seq(items@);
            }
            let mut out: Vec<String> = Vec::new();
            let n = items.len();
            let mut i: usize = 0;
            while i < n
                invariant
                    i <= n,
                    n == items@.len(),
                    j@ == JsonV::Arr(a),
                    a == dv_seq(items@),
                    a.len() == n,
                    forall|x: int|
                        0 <= x < n ==> #[trigger] a[x] == items@[x].dv(),
                    out@.len() == i,
                    forall|x: int|
                        0 <= x < i ==> (#[trigger] a[x]) is Str && a[x]->Str_0 == out@[x]@,
                decreases n - i,
            {
                match &items[i] {
                    Json::Str(s) => {
                        out.push(s.clone());
                    }
                    _ => {
                        proof {
                            lemma_dv_variant(items@[i as int]);
                            assert(!((a[i as int]) is Str));
                        }
                        return None;
                    }
                }
                i = i + 1;
            }
            proof {
                assert(strs_jv(out@) =~= a);
            }
            Some(out)
        }
        _ => None,
    }
}

// ── Connection information ──────────────────────────────────────────

/// Connection information for peer-to-peer establishment, a tagged union
/// carrying its own `type` discriminator inside payloads.
#[derive(Debug)]
pub enum ConnectionInfo {
    /// Direct host and port connection.
    Direct { host: String, port: u16 },
    /// Unity Relay allocation.
    UnityRelay { allocation_id: String, connection_data: String, key: String },
    /// Built-in relay server.
    Relay {
        host: String,
        port: u16,
        transport: RelayTransport,
        allocation_id: String,
        token: String,
        client_id: Option<u16>,
    },
    /// WebRTC connection information.
    WebRTC { sdp: Option<String>, ice_candidates: Vec<String> },
    /// Custom connection data.
    Custom { data: Json },
}

/// The tree a `ConnectionInfo` is written as.
pub open spec fn ci_jv(v: ConnectionInfo) -> JsonV {
    match v {
        ConnectionInfo::Direct { host, port } => JsonV::Obj(
            seq![
                ("type"@, JsonV::Str("direct"@)),
                ("host"@, JsonV::Str(host@)),
                ("port"@, JsonV::Int(port as int)),
            ],
        ),
        ConnectionInfo::UnityRelay { allocation_id, connection_data, key } => JsonV::Obj(
            seq![
                ("type"@, JsonV::Str("unity_relay"@)),
                ("allocation_id"@, JsonV::Str(allocation_id@)),
                ("connection_data"@, JsonV::Str(connection_data@)),
                ("key"@, JsonV::Str(key@)),
            ],
        ),
        ConnectionInfo::Relay { host, port, transport, allocation_id, token, client_id } => {
            let base = seq![
                ("type"@, JsonV::Str("relay"@)),
                ("host"@, JsonV::Str(host@)),
                ("port"@, JsonV::Int(port as int)),
                ("transport"@, JsonV::Str(rt_str(transport))),
                ("allocation_id"@, JsonV::Str(allocation_id@)),
                ("token"@, JsonV::Str(token@)),
            ];
            match client_id {
                Some(c) => JsonV::Obj(base.push(("client_id"@, JsonV::Int(c as int)))),
                None => JsonV::Obj(base),
            }
        }
        ConnectionInfo::WebRTC { sdp, ice_candidates } => JsonV::Obj(
            seq![
                ("type"@, JsonV::Str("webrtc"@)),
                (
                    "sdp"@,
                    match sdp {
                        Some(s) => JsonV::Str(s@),
                        None => JsonV::Null,
                    },
                ),
                ("ice_candidates"@, JsonV::Arr(strs_jv(ice_candidates@))),
            ],
        ),
        ConnectionInfo::Custom { data } => JsonV::Obj(
            seq![("type"@, JsonV::Str("custom"@)), ("data"@, data.dv())],
        ),
    }
}

/// Which trees decode as a `ConnectionInfo`.
pub open spec fn ci_decodable(j: JsonV) -> bool {
    match j {
        JsonV::Obj(o) => {
            match lookup(o, "type"@) {
                Some(JsonV::Str(tag)) => {
                    if tag == "direct"@ {
                        sf_str_ok(o, "host"@) && sf_int_ok(o, "port"@) && 0 <= sf_int(
                            o,
                            "port"@,
                        ) <= 65535
                    } else if tag == "unity_relay"@ {
                        sf_str_ok(o, "allocation_id"@) && sf_str_ok(o, "connection_data"@)
                            && sf_str_ok(o, "key"@)
                    } else if tag == "relay"@ {
                        &&& sf_str_ok(o, "host"@)
                        &&& sf_int_ok(o, "port"@) && 0 <= sf_int(o, "port"@) <= 65535
                        &&& (sf_absent(o, "transport"@) || (sf_str_ok(o, "transport"@) && rt_of(
                            sf_str(o, "transport"@),
                        ) is Some))
                        &&& sf_str_ok(o, "allocation_id"@)
                        &&& sf_str_ok(o, "token"@)
                        &&& (sf_absent(o, "client_id"@) || (sf_int_ok(o, "client_id"@) && 0
                            <= sf_int(o, "client_id"@) <= 65535))
                    } else if tag == "webrtc"@ {
                        &&& (sf_absent(o, "sdp"@) || sf_str_ok(o, "sdp"@))
                        &&& (lookup(o, "ice_candidates"@) matches Some(ice)
                            && arr_str_decodable(ice))
                    } else if tag == "custom"@ {
                        lookup(o, "data"@) is Some
                    } else {
                        false
                    }
                }
                _ => false,
            }
        }
        _ => false,
    }
}

/// What the decoded `ConnectionInfo` holds, member by member.
pub open spec fn ci_matches(j: JsonV, v: ConnectionInfo) -> bool {
    match j {
        JsonV::Obj(o) => {
            match lookup(o, "type"@) {
                Some(JsonV::Str(tag)) => {
                    if tag == "direct"@ {
                        v matches ConnectionInfo::Direct { host, port } && host@ == sf_str(
                            o,
                            "host"@,
                        ) && port as int == sf_int(o, "port"@)
                    } else if tag == "unity_relay"@ {
                        v matches ConnectionInfo::UnityRelay {
                            allocation_id,
                            connection_data,
                            key,
                        } && allocation_id@ == sf_str(o, "allocation_id"@) && connection_data@
                            == sf_str(o, "connection_data"@) && key@ == sf_str(o, "key"@)
                    } else if tag == "relay"@ {
                        v matches ConnectionInfo::Relay {
                            host,
                            port,
                            transport,
                            allocation_id,
                            token,
                            client_id,
                        } && host@ == sf_str(o, "host"@) && port as int == sf_int(o, "port"@)
                            && (if sf_absent(o, "transport"@) {
                            transport == RelayTransport::Auto
                        } else {
                            rt_of(sf_str(o, "transport"@)) == Some(transport)
                        }) && allocation_id@ == sf_str(o, "allocation_id"@) && token@ == sf_str(
                            o,
                            "token"@,
                        ) && (if sf_absent(o, "client_id"@) {
                            client_id is None
                        } else {
                            client_id matches Some(c) && c as int == sf_int(o, "client_id"@)
                        })
                    } else if tag == "webrtc"@ {
                        v matches ConnectionInfo::WebRTC { sdp, ice_candidates } && (if sf_absent(
                            o,
                            "sdp"@,
                        ) {
                            sdp is None
                        } else {
                            sdp matches Some(s) && s@ == sf_str(o, "sdp"@)
                        }) && (lookup(o, "ice_candidates"@) matches Some(ice) && arr_str_matches(
                            ice,
                            ice_candidates@,
                        ))
                    } else if tag == "custom"@ {
                        v matches ConnectionInfo::Custom { data } && lookup(o, "data"@) == Some(
                            data.dv(),
                        )
                    } else {
                        false
                    }
                }
                _ => false,
            }
        }
        _ => false,
    }
}

/// Writes a `ConnectionInfo` as its tree, exactly as `ci_jv` gives it.
pub fn ci_to_json(v: &ConnectionInfo) -> (j: Json)
    ensures
        j@ == ci_jv(*v),
{
    let mut fields: Vec<(String, Json)> = Vec::new();
    proof {
        assert(dv_fields(fields@) =~= Seq::<(Seq<char>, JsonV)>::empty());
    }
    match v {
        ConnectionInfo::Direct { host, port } => {
            push_member(&mut fields, "type", Json::Str(String::from_str("direct")));
            push_member(&mut fields, "host", Json::Str(host.clone()));
            push_member(&mut fields, "port", Json::Int(*port as i64));
            proof {
                assert(dv_fields(fields@) =~= ci_jv(*v)->Obj_0);
            }
        }
        ConnectionInfo::UnityRelay { allocation_id, connection_data, key } => {
            push_member(&mut fields, "type", Json::Str(String::from_str("unity_relay")));
            push_member(&mut fields, "allocation_id", Json::Str(allocation_id.clone()));
            push_member(&mut fields, "connection_data", Json::Str(connection_data.clone()));
            push_member(&mut fields, "key", Json::Str(key.clone()));
            proof {
                assert(dv_fields(fields@) =~= ci_jv(*v)->Obj_0);
            }
        }
        ConnectionInfo::Relay { host, port, transport, allocation_id, token, client_id } => {
            push_member(&mut fields, "type", Json::Str(String::from_str("relay")));
            push_member(&mut fields, "host", Json::Str(host.clone()));
            push_member(&mut fields, "port", Json::Int(*port as i64));
            push_member(
                &mut fields,
                "transport",
                Json::Str(String::from_str(transport.wire_text())),
            );
            push_member(&mut fields, "allocation_id", Json::Str(allocation_id.clone()));
            push_member(&mut fields, "token", Json::Str(token.clone()));
            match client_id {
                Some(c) => {
                    push_member(&mut fields, "client_id", Json::Int(*c as i64));
                    proof {
                        assert(dv_fields(fields@) =~= ci_jv(*v)->Obj_0);
                    }
                }
                None => {
                    proof {
                        assert(dv_fields(fields@) =~= ci_jv(*v)->Obj_0);
                    }
                }
            }
        }
        ConnectionInfo::WebRTC { sdp, ice_candidates } => {
            push_member(&mut fields, "type", Json::Str(String::from_str("webrtc")));
            match sdp {
                Some(s) => {
                    push_member(&mut fields, "sdp", Json::Str(s.clone()));
                }
                None => {
                    push_member(&mut fields, "sdp", Json::Null);
                }
            }
            push_member(&mut fields, "ice_candidates", strs_to_json(ice_candidates));
            proof {
                assert(dv_fields(fields@) =~= ci_jv(*v)->Obj_0);
            }
        }
        ConnectionInfo::Custom { data } => {
            push_member(&mut fields, "type", Json::Str(String::from_str("custom")));
            push_member(&mut fields, "data", json_clone(data));
            proof {
                assert(dv_fields(fields@) =~= ci_jv(*v)->Obj_0);
            }
        }
    }
    Json::Obj(fields)
}

/// A deep copy of a document, with the same tree.
pub fn json_clone(j: &Json) -> (r: Json)
    ensures
        r@ == j@,
    decreases j, 1int, 0int,
{
    match j {
        Json::Null => Json::Null,
        Json::Bool(b) => Json::Bool(*b),
        Json::Int(i) => Json::Int(*i),
        Json::Num(s) => Json::Num(s.clone()),
        Json::Str(s) => Json::Str(s.clone()),
        Json::Arr(items) => {
            let out = json_clone_items(items);
            proof {
                lemma_dv_seq(items@);
                lemma_dv_seq(out@);
                assert forall|x: int| 0 <= x < items@.len() implies dv_seq(out@)[x] == dv_seq(
                    items@,
                )[x] by {
                    assert(dv_seq(out@)[x] == out@[x].dv());
                    assert(dv_seq(items@)[x] == items@[x].dv());
                }
                assert(dv_seq(out@) =~= dv_seq(items@));
            }
            Json::Arr(out)
        }
        Json::Obj(fields) => {
            let out = json_clone_members(fields);
            proof {
                lemma_dv_fields(fields@);
                lemma_dv_fields(out@);
                assert forall|x: int| 0 <= x < fields@.len() implies dv_fields(out@)[x]
                    == dv_fields(fields@)[x] by {
                    assert(dv_fields(out@)[x] == (out@[x].0@, out@[x].1.dv()));
                    assert(dv_fields(fields@)[x] == (fields@[x].0@, fields@[x].1.dv()));
                }
                assert(dv_fields(out@) =~= dv_fields(fields@));
            }
            Json::Obj(out)
        }
    }
}

fn json_clone_items(items: &Vec<Json>) -> (out: Vec<Json>)
    ensures
        out@.len() == items@.len(),
        forall|x: int| 0 <= x < items@.len() ==> (#[trigger] out@[x])@ == items@[x]@,
    decreases items, 0int, 0int,
{
    let mut out: Vec<Json> = Vec::new();
    let n = items.len();
    let mut i: usize = 0;
    while i < n
        invariant
            i <= n,
            n == items@.len(),
            out@.len() == i,
            forall|x: int| 0 <= x < i ==> (#[trigger] out@[x])@ == items@[x]@,
        decreases n - i,
    {
        out.push(json_clone(&items[i]));
        i = i + 1;
    }
    out
}

fn json_clone_members(fields: &Vec<(String, Json)>) -> (out: Vec<(String, Json)>)
    ensures
        out@.len() == fields@.len(),
        forall|x: int|
            0 <= x < fields@.len() ==> (#[trigger] out@[x]).0@ == fields@[x].0@ && out@[x].1@
                == fields@[x].1@,
    decreases fields, 0int, 0int,
{
    let mut out: Vec<(String, Json)> = Vec::new();
    let n = fields.len();
    let mut i: usize = 0;
    while i < n
        invariant
            i <= n,
            n == fields@.len(),
            out@.len() == i,
            forall|x: int|
                0 <= x < i ==> (#[trigger] out@[x]).0@ == fields@[x].0@ && out@[x].1@
                    == fields@[x].1@,
        decreases n - i,
    {
        let key: String = fields[i].0.clone();
        let val = json_clone(&fields[i].1);
        out.push((key, val));
        i = i + 1;
    }
    out
}

/// Reads a `ConnectionInfo` from a tree, exactly when `ci_decodable`, the
/// members as `ci_matches` pins them.
pub fn ci_from_json(j: &Json) -> (r: Option<ConnectionInfo>)
    ensures
        match r {
            Some(v) => ci_matches(j@, v),
            None => !ci_decodable(j@),
        },
        r is Some <==> ci_decodable(j@),
{
    let fields = match j {
        Json::Obj(fields) => fields,
        _ => {
            return None;
        }
    };
    let tag = match get_str(fields, "type") {
        Some(t) => t,
        None => {
            return None;
        }
    };
    if str_eq(tag.as_str(), "direct") {
        let host = match get_str(fields, "host") {
            Some(s) => s,
            None => {
                return None;
            }
        };
        let port_i = match get_int(fields, "port") {
            Some(n) => n,
            None => {
                return None;
            }
        };
        if !(0 <= port_i && port_i <= 65535) {
            return None;
        }
        Some(ConnectionInfo::Direct { host, port: port_i as u16 })
    } else if str_eq(tag.as_str(), "unity_relay") {
        let allocation_id = match get_str(fields, "allocation_id") {
            Some(s) => s,
            None => {
                return None;
            }
        };
        let connection_data = match get_str(fields, "connection_data") {
            Some(s) => s,
            None => {
                return None;
            }
        };
        let key = match get_str(fields, "key") {
            Some(s) => s,
            None => {
                return None;
            }
        };
        Some(ConnectionInfo::UnityRelay { allocation_id, connection_data, key })
    } else if str_eq(tag.as_str(), "relay") {
        let host = match get_str(fields, "host") {
            Some(s) => s,
            None => {
                return None;
            }
        };
        let port_i = match get_int(fields, "port") {
            Some(n) => n,
            None => {
                return None;
            }
        };
        if !(0 <= port_i && port_i <= 65535) {
            return None;
        }
        let transport = match get_opt_str(fields, "transport") {
            Some(Some(s)) => match RelayTransport::from_text(s.as_str()) {
                Some(t) => t,
                None => {
                    return None;
                }
            },
            Some(None) => RelayTransport::Auto,
            None => {
                return None;
            }
        };
        let allocation_id = match get_str(fields, "allocation_id") {
            Some(s) => s,
            None => {
                return None;
            }
        };
        let token = match get_str(fields, "token") {
            Some(s) => s,
            None => {
                return None;
            }
        };
        let client_id = match get_opt_int(fields, "client_id") {
            Some(Some(n)) => {
                if !(0 <= n && n <= 65535) {
                    return None;
                }
                Some(n as u16)
            }
            Some(None) => None,
            None => {
                return None;
            }
        };
        Some(
            ConnectionInfo::Relay { host, port: port_i as u16, transport, allocation_id, token, client_id },
        )
    } else if str_eq(tag.as_str(), "webrtc") {
        let sdp = match get_opt_str(fields, "sdp") {
            Some(s) => s,
            None => {
                return None;
            }
        };
        let ice_candidates = match get_field(fields, "ice_candidates") {
            Some(ice) => match strs_from_json(ice) {
                Some(v) => v,
                None => {
                    return None;
                }
            },
            None => {
                return None;
            }
        };
        Some(ConnectionInfo::WebRTC { sdp, ice_candidates })
    } else if str_eq(tag.as_str(), "custom") {
        let data = match get_field(fields, "data") {
            Some(d) => json_clone(d),
            None => {
                return None;
            }
        };
        Some(ConnectionInfo::Custom { data })
    } else {
        None
    }
}


/// Round trip: the canonical tree of a `ConnectionInfo` decodes, and any
/// value its members pin re-encodes to the same tree.
pub proof fn lemma_ci_round_trip(v: ConnectionInfo, v2: ConnectionInfo)
    ensures
        ci_decodable(ci_jv(v)),
        ci_matches(ci_jv(v), v2) ==> ci_jv(v2) == ci_jv(v),
{
    reveal_strlit("type");
    reveal_strlit("host");
    reveal_strlit("port");
    reveal_strlit("allocation_id");
    reveal_strlit("connection_data");
    reveal_strlit("key");
    reveal_strlit("transport");
    reveal_strlit("token");
    reveal_strlit("client_id");
    reveal_strlit("sdp");
    reveal_strlit("ice_candidates");
    reveal_strlit("data");
    reveal_strlit("direct");
    reveal_strlit("unity_relay");
    reveal_strlit("relay");
    reveal_strlit("webrtc");
    reveal_strlit("custom");
    assert("type"@.len() == 4);
    assert("host"@.len() == 4);
    assert("port"@.len() == 4);
    assert("allocation_id"@.len() == 13);
    assert("connection_data"@.len() == 15);
    assert("key"@.len() == 3);
    assert("transport"@.len() == 9);
    assert("token"@.len() == 5);
    assert("client_id"@.len() == 9);
    assert("sdp"@.len() == 3);
    assert("ice_candidates"@.len() == 14);
    assert("data"@.len() == 4);
    assert("direct"@.len() == 6);
    assert("unity_relay"@.len() == 11);
    assert("relay"@.len() == 5);
    assert("webrtc"@.len() == 6);
    assert("custom"@.len() == 6);
    assert("client_id"@[0] == 'c');
    assert("custom"@[0] == 'c');
    assert("data"@[0] == 'd');
    assert("direct"@[0] == 'd');
    assert("host"@[0] == 'h');
    assert("key"@[0] == 'k');
    assert("port"@[0] == 'p');
    assert("relay"@[0] == 'r');
    assert("sdp"@[0] == 's');
    assert("token"@[0] == 't');
    assert("transport"@[0] == 't');
    assert("type"@[0] == 't');
    assert("webrtc"@[0] == 'w');
    let o = ci_jv(v)->Obj_0;
    match v {
        ConnectionInfo::Direct { host, port } => {
            lemma_lookup_at(o, 0);
            lemma_lookup_at(o, 1);
            lemma_lookup_at(o, 2);
            assert(ci_decodable(ci_jv(v)));
            if ci_matches(ci_jv(v), v2) {
                assert(ci_jv(v2) =~~= ci_jv(v));
            }
        }
        ConnectionInfo::UnityRelay { allocation_id, connection_data, key } => {
            lemma_lookup_at(o, 0);
            lemma_lookup_at(o, 1);
            lemma_lookup_at(o, 2);
            lemma_lookup_at(o, 3);
            assert(ci_decodable(ci_jv(v)));
            if ci_matches(ci_jv(v), v2) {
                assert(ci_jv(v2) =~~= ci_jv(v));
            }
        }
        ConnectionInfo::Relay { host, port, transport, allocation_id, token, client_id } => {
            lemma_lookup_at(o, 0);
            lemma_lookup_at(o, 1);
            lemma_lookup_at(o, 2);
            lemma_lookup_at(o, 3);
            lemma_lookup_at(o, 4);
            lemma_lookup_at(o, 5);
            match client_id {
                Some(_) => {
                    lemma_lookup_at(o, 6);
                }
                None => {
                    lemma_lookup_absent(o, "client_id"@);
                }
            }
            lemma_rt_round_trip(transport);
            assert(ci_decodable(ci_jv(v)));
            if ci_matches(ci_jv(v), v2) {
                assert(v2 matches ConnectionInfo::Relay { .. });
                assert(v2->Relay_host@ == host@);
                assert(v2->Relay_port == port);
                assert(v2->Relay_transport == transport);
                assert(v2->Relay_allocation_id@ == allocation_id@);
                assert(v2->Relay_token@ == token@);
                assert(v2->Relay_client_id == client_id);
                assert(ci_jv(v2) =~~= ci_jv(v));
            }
        }
        ConnectionInfo::WebRTC { sdp, ice_candidates } => {
            lemma_lookup_at(o, 0);
            lemma_lookup_at(o, 1);
            lemma_lookup_at(o, 2);
            assert(arr_str_decodable(JsonV::Arr(strs_jv(ice_candidates@))));
            assert(ci_decodable(ci_jv(v)));
            if ci_matches(ci_jv(v), v2) {
                assert(v2 matches ConnectionInfo::WebRTC { .. });
                assert(strs_jv(v2->WebRTC_ice_candidates@) == strs_jv(ice_candidates@));
                match sdp {
                    Some(s) => {
                        assert(v2->WebRTC_sdp matches Some(s2) && s2@ == s@);
                    }
                    None => {
                        assert(v2->WebRTC_sdp is None);
                    }
                }
                let o2 = ci_jv(v2)->Obj_0;
                assert(o2.len() == 3 && o.len() == 3);
                assert(o2[0].0 == o[0].0 && o2[0].1 == o[0].1);
                assert(o2[1].0 == o[1].0 && o2[1].1 == o[1].1);
                assert(o2[2].0 == o[2].0 && o2[2].1 == o[2].1);
                assert(o2 =~= o);
                assert(ci_jv(v2) =~~= ci_jv(v));
            }
        }
        ConnectionInfo::Custom { data } => {
            lemma_lookup_at(o, 0);
            lemma_lookup_at(o, 1);
            assert(ci_decodable(ci_jv(v)));
            if ci_matches(ci_jv(v), v2) {
                assert(ci_jv(v2) =~~= ci_jv(v));
            }
        }
    }
}

// ── Scalar wire elements ────────────────────────────────────────────

/// The tree a identifier is written as.
pub open spec fn uid_jv(u: Uid) -> JsonV {
    JsonV::Str(uid_str(u.value as int))
}

/// Which trees decode as a identifier.
pub open spec fn uid_elem_decodable(j: JsonV) -> bool {
    j matches JsonV::Str(s) && uid_of(s) is Some
}

/// What the decoded identifier holds.
pub open spec fn uid_elem_matches(j: JsonV, v: Uid) -> bool {
    j matches JsonV::Str(s) && uid_of(s) == Some(v.value as int)
}

/// The tree a encoding name is written as.
pub open spec fn gde_jv(u: GameDataEncoding) -> JsonV {
    JsonV::Str(gde_str(u))
}

/// Which trees decode as a encoding name.
pub open spec fn gde_elem_decodable(j: JsonV) -> bool {
    j matches JsonV::Str(s) && gde_of(s) is Some
}

/// What the decoded encoding name holds.
pub open spec fn gde_elem_matches(j: JsonV, v: GameDataEncoding) -> bool {
    j matches JsonV::Str(s) && gde_of(s) == Some(v)
}

/// The tree a single-character string is written as.
pub open spec fn ch_jv(u: char) -> JsonV {
    JsonV::Str(seq![u])
}

/// Which trees decode as a single-character string.
pub open spec fn ch_elem_decodable(j: JsonV) -> bool {
    j matches JsonV::Str(s) && s.len() == 1
}

/// What the decoded single-character string holds.
pub open spec fn ch_elem_matches(j: JsonV, v: char) -> bool {
    j matches JsonV::Str(s) && s == seq![v]
}

/// The tree a byte as a small integer is written as.
pub open spec fn byte_jv(u: u8) -> JsonV {
    JsonV::Int(u as int)
}

/// Which trees decode as a byte as a small integer.
pub open spec fn byte_elem_decodable(j: JsonV) -> bool {
    j matches JsonV::Int(n) && 0 <= n <= 255
}

/// What the decoded byte as a small integer holds.
pub open spec fn byte_elem_matches(j: JsonV, v: u8) -> bool {
    j matches JsonV::Int(n) && n == v as int
}

fn uid_to_json(u: &Uid) -> (j: Json)
    ensures
        j@ == uid_jv(*u),
{
    Json::Str(uid_text(u))
}

fn uid_elem_from_json(j: &Json) -> (r: Option<Uid>)
    ensures
        match r {
            Some(v) => uid_elem_matches(j@, v),
            None => !uid_elem_decodable(j@),
        },
        r is Some <==> uid_elem_decodable(j@),
{
    match j {
        Json::Str(s) => uid_from_text(s.as_str()),
        _ => None,
    }
}

/// Round trip: an identifier is recovered exactly.
pub proof fn lemma_uid_elem_round_trip(u: Uid, u2: Uid)
    ensures
        uid_elem_decodable(uid_jv(u)),
        uid_elem_matches(uid_jv(u), u2) ==> u2 == u,
{
    lemma_uid_text_round_trip(u.value as int);
}

fn gde_to_json(u: &GameDataEncoding) -> (j: Json)
    ensures
        j@ == gde_jv(*u),
{
    Json::Str(String::from_str(u.wire_text()))
}

fn gde_elem_from_json(j: &Json) -> (r: Option<GameDataEncoding>)
    ensures
        match r {
            Some(v) => gde_elem_matches(j@, v),
            None => !gde_elem_decodable(j@),
        },
        r is Some <==> gde_elem_decodable(j@),
{
    match j {
        Json::Str(s) => GameDataEncoding::from_text(s.as_str()),
        _ => None,
    }
}

/// Round trip: an encoding name is recovered exactly.
pub proof fn lemma_gde_elem_round_trip(u: GameDataEncoding, u2: GameDataEncoding)
    ensures
        gde_elem_decodable(gde_jv(u)),
        gde_elem_matches(gde_jv(u), u2) ==> u2 == u,
{
    lemma_gde_round_trip(u);
}

fn ch_to_json(u: char) -> (j: Json)
    ensures
        j@ == ch_jv(u),
{
    let mut s = String::new();
    crate::json::push_char(&mut s, u);
    proof {
        assert(s@ =~= seq![u]);
    }
    Json::Str(s)
}

fn ch_elem_from_json(j: &Json) -> (r: Option<char>)
    ensures
        match r {
            Some(v) => ch_elem_matches(j@, v),
            None => !ch_elem_decodable(j@),
        },
        r is Some <==> ch_elem_decodable(j@),
{
    match j {
        Json::Str(s) => {
            if s.as_str().unicode_len() == 1 {
                let c = s.as_str().get_char(0);
                proof {
                    assert(s@ =~= seq![c]);
                }
                Some(c)
            } else {
                None
            }
        }
        _ => None,
    }
}

/// Round trip: a character is recovered exactly.
pub proof fn lemma_ch_elem_round_trip(u: char, u2: char)
    ensures
        ch_elem_decodable(ch_jv(u)),
        ch_elem_matches(ch_jv(u), u2) ==> u2 == u,
{
    if ch_elem_matches(ch_jv(u), u2) {
        assert(seq![u][0] == seq![u2][0]);
    }
}

fn byte_to_json(u: u8) -> (j: Json)
    ensures
        j@ == byte_jv(u),
{
    Json::Int(u as i64)
}

fn byte_elem_from_json(j: &Json) -> (r: Option<u8>)
    ensures
        match r {
            Some(v) => byte_elem_matches(j@, v),
            None => !byte_elem_decodable(j@),
        },
        r is Some <==> byte_elem_decodable(j@),
{
    match j {
        Json::Int(n) => {
            if 0 <= *n && *n <= 255 {
                Some(*n as u8)
            } else {
                None
            }
        }
        _ => None,
    }
}

/// Round trip: a byte is recovered exactly.
pub proof fn lemma_byte_elem_round_trip(u: u8, u2: u8)
    ensures
        byte_elem_decodable(byte_jv(u)),
        byte_elem_matches(byte_jv(u), u2) ==> u2 == u,
{
}

/// The trees of a sequence, element-wise.
pub open spec fn uids_jv(v: Seq<Uid>) -> Seq<JsonV> {
    Seq::new(v.len(), |i: int| uid_jv(v[i]))
}

/// Every element of the array tree decodes.
pub open spec fn arr_uid_decodable(j: JsonV) -> bool {
    j matches JsonV::Arr(a) && (forall|x: int|
        0 <= x < a.len() ==> uid_elem_decodable(#[trigger] a[x]))
}

/// The elements read one-for-one from the array tree.
pub open spec fn arr_uid_matches(j: JsonV, v: Seq<Uid>) -> bool {
    j matches JsonV::Arr(a) && a.len() == v.len() && (forall|x: int|
        0 <= x < a.len() ==> uid_elem_matches(#[trigger] a[x], v[x]))
}

fn uids_to_json(v: &Vec<Uid>) -> (j: Json)
    ensures
        j@ == JsonV::Arr(uids_jv(v@)),
{
    let mut items: Vec<Json> = Vec::new();
    let n = v.len();
    let mut i: usize = 0;
    while i < n
        invariant
            i <= n,
            n == v@.len(),
            dv_seq(items@) =~= uids_jv(v@).take(i as int),
        decreases n - i,
    {
        let ghost pre_items = items@;
        let item = uid_to_json(&v[i]);
        proof {
            crate::json::lemma_dv_seq_push(pre_items, item);
        }
        items.push(item);
        i = i + 1;
        proof {
            assert(dv_seq(items@) =~= uids_jv(v@).take(i as int));
        }
    }
    proof {
        assert(uids_jv(v@).take(n as int) =~= uids_jv(v@));
    }
    Json::Arr(items)
}

fn uids_from_json(j: &Json) -> (r: Option<Vec<Uid>>)
    ensures
        match r {
            Some(v) => arr_uid_matches(j@, v@),
            None => !arr_uid_decodable(j@),
        },
        r is Some <==> arr_uid_decodable(j@),
{
    match j {
        Json::Arr(items) => {
            let ghost a = dv_seq(items@);
            proof {
                lemma_dv_seq(items@);
            }
            let mut out: Vec<Uid> = Vec::new();
            let n = items.len();
            let mut i: usize = 0;
            while i < n
                invariant
                    i <= n,
                    n == items@.len(),
                    j@ == JsonV::Arr(a),
                    a == dv_seq(items@),
                    a.len() == n,
                    forall|x: int| 0 <= x < n ==> #[trigger] a[x] == items@[x].dv(),
                    out@.len() == i,
                    forall|x: int| 0 <= x < i ==> uid_elem_matches(#[trigger] a[x], out@[x]),
                decreases n - i,
            {
                let item = &items[i];
                proof {
                    assert(item@ == a[i as int]);
                }
                match uid_elem_from_json(item) {
                    Some(e) => {
                        out.push(e);
                    }
                    None => {
                        proof {
                            assert(!arr_uid_decodable(JsonV::Arr(a))) by {
                                if arr_uid_decodable(JsonV::Arr(a)) {
                                    let aa = JsonV::Arr(a)->Arr_0;
                                    assert(aa == a);
                                    assert(uid_elem_decodable(aa[i as int]));
                                }
                            }
                        }
                        return None;
                    }
                }
                i = i + 1;
            }
            Some(out)
        }
        _ => None,
    }
}

/// Round trip for the whole array.
pub proof fn lemma_arr_uid_round_trip(v: Seq<Uid>, v2: Seq<Uid>)
    ensures
        arr_uid_decodable(JsonV::Arr(uids_jv(v))),
        arr_uid_matches(JsonV::Arr(uids_jv(v)), v2) ==> uids_jv(v2) == uids_jv(v),
{
    assert forall|x: int| 0 <= x < v.len() implies uid_elem_decodable(
        #[trigger] uids_jv(v)[x],
    ) by {
        lemma_uid_elem_round_trip(v[x], v[x]);
    }
    if arr_uid_matches(JsonV::Arr(uids_jv(v)), v2) {
        assert forall|x: int| 0 <= x < v.len() implies uids_jv(v2)[x] == uids_jv(v)[x] by {
            lemma_uid_elem_round_trip(v[x], v2[x]);
            assert(uid_elem_matches(uids_jv(v)[x], v2[x]));
        }
        assert(uids_jv(v2) =~= uids_jv(v));
    }
}

/// The trees of a sequence, element-wise.
pub open spec fn gdes_jv(v: Seq<GameDataEncoding>) -> Seq<JsonV> {
    Seq::new(v.len(), |i: int| gde_jv(v[i]))
}

/// Every element of the array tree decodes.
pub open spec fn arr_gde_decodable(j: JsonV) -> bool {
    j matches JsonV::Arr(a) && (forall|x: int|
        0 <= x < a.len() ==> gde_elem_decodable(#[trigger] a[x]))
}

/// The elements read one-for-one from the array tree.
pub open spec fn arr_gde_matches(j: JsonV, v: Seq<GameDataEncoding>) -> bool {
    j matches JsonV::Arr(a) && a.len() == v.len() && (forall|x: int|
        0 <= x < a.len() ==> gde_elem_matches(#[trigger] a[x], v[x]))
}

fn gdes_to_json(v: &Vec<GameDataEncoding>) -> (j: Json)
    ensures
        j@ == JsonV::Arr(gdes_jv(v@)),
{
    let mut items: Vec<Json> = Vec::new();
    let n = v.len();
    let mut i: usize = 0;
    while i < n
        invariant
            i <= n,
            n == v@.len(),
            dv_seq(items@) =~= gdes_jv(v@).take(i as int),
        decreases n - i,
    {
        let ghost pre_items = items@;
        let item = gde_to_json(&v[i]);
        proof {
            crate::json::lemma_dv_seq_push(pre_items, item);
        }
        items.push(item);
        i = i + 1;
        proof {
            assert(dv_seq(items@) =~= gdes_jv(v@).take(i as int));
        }
    }
    proof {
        assert(gdes_jv(v@).take(n as int) =~= gdes_jv(v@));
    }
    Json::Arr(items)
}

fn gdes_from_json(j: &Json) -> (r: Option<Vec<GameDataEncoding>>)
    ensures
        match r {
            Some(v) => arr_gde_matches(j@, v@),
            None => !arr_gde_decodable(j@),
        },
        r is Some <==> arr_gde_decodable(j@),
{
    match j {
        Json::Arr(items) => {
            let ghost a = dv_seq(items@);
            proof {
                lemma_dv_seq(items@);
            }
            let mut out: Vec<GameDataEncoding> = Vec::new();
            let n = items.len();
            let mut i: usize = 0;
            while i < n
                invariant
                    i <= n,
                    n == items@.len(),
                    j@ == JsonV::Arr(a),
                    a == dv_seq(items@),
                    a.len() == n,
                    forall|x: int| 0 <= x < n ==> #[trigger] a[x] == items@[x].dv(),
                    out@.len() == i,
                    forall|x: int| 0 <= x < i ==> gde_elem_matches(#[trigger] a[x], out@[x]),
                decreases n - i,
            {
                let item = &items[i];
                proof {
                    assert(item@ == a[i as int]);
                }
                match gde_elem_from_json(item) {
                    Some(e) => {
                        out.push(e);
                    }
                    None => {
                        proof {
                            assert(!arr_gde_decodable(JsonV::Arr(a))) by {
                                if arr_gde_decodable(JsonV::Arr(a)) {
                                    let aa = JsonV::Arr(a)->Arr_0;
                                    assert(aa == a);
                                    assert(gde_elem_decodable(aa[i as int]));
                                }
                            }
                        }
                        return None;
                    }
                }
                i = i + 1;
            }
            Some(out)
        }
        _ => None,
    }
}

/// Round trip for the whole array.
pub proof fn lemma_arr_gde_round_trip(v: Seq<GameDataEncoding>, v2: Seq<GameDataEncoding>)
    ensures
        arr_gde_decodable(JsonV::Arr(gdes_jv(v))),
        arr_gde_matches(JsonV::Arr(gdes_jv(v)), v2) ==> gdes_jv(v2) == gdes_jv(v),
{
    assert forall|x: int| 0 <= x < v.len() implies gde_elem_decodable(
        #[trigger] gdes_jv(v)[x],
    ) by {
        lemma_gde_elem_round_trip(v[x], v[x]);
    }
    if arr_gde_matches(JsonV::Arr(gdes_jv(v)), v2) {
        assert forall|x: int| 0 <= x < v.len() implies gdes_jv(v2)[x] == gdes_jv(v)[x] by {
            lemma_gde_elem_round_trip(v[x], v2[x]);
            assert(gde_elem_matches(gdes_jv(v)[x], v2[x]));
        }
        assert(gdes_jv(v2) =~= gdes_jv(v));
    }
}

/// The trees of a sequence, element-wise.
pub open spec fn chs_jv(v: Seq<char>) -> Seq<JsonV> {
    Seq::new(v.len(), |i: int| ch_jv(v[i]))
}

/// Every element of the array tree decodes.
pub open spec fn arr_ch_decodable(j: JsonV) -> bool {
    j matches JsonV::Arr(a) && (forall|x: int|
        0 <= x < a.len() ==> ch_elem_decodable(#[trigger] a[x]))
}

/// The elements read one-for-one from the array tree.
pub open spec fn arr_ch_matches(j: JsonV, v: Seq<char>) -> bool {
    j matches JsonV::Arr(a) && a.len() == v.len() && (forall|x: int|
        0 <= x < a.len() ==> ch_elem_matches(#[trigger] a[x], v[x]))
}

fn chs_to_json(v: &Vec<char>) -> (j: Json)
    ensures
        j@ == JsonV::Arr(chs_jv(v@)),
{
    let mut items: Vec<Json> = Vec::new();
    let n = v.len();
    let mut i: usize = 0;
    while i < n
        invariant
            i <= n,
            n == v@.len(),
            dv_seq(items@) =~= chs_jv(v@).take(i as int),
        decreases n - i,
    {
        let ghost pre_items = items@;
        let item = ch_to_json(v[i]);
        proof {
            crate::json::lemma_dv_seq_push(pre_items, item);
        }
        items.push(item);
        i = i + 1;
        proof {
            assert(dv_seq(items@) =~= chs_jv(v@).take(i as int));
        }
    }
    proof {
        assert(chs_jv(v@).take(n as int) =~= chs_jv(v@));
    }
    Json::Arr(items)
}

fn chs_from_json(j: &Json) -> (r: Option<Vec<char>>)
    ensures
        match r {
            Some(v) => arr_ch_matches(j@, v@),
            None => !arr_ch_decodable(j@),
        },
        r is Some <==> arr_ch_decodable(j@),
{
    match j {
        Json::Arr(items) => {
            let ghost a = dv_seq(items@);
            proof {
                lemma_dv_seq(items@);
            }
            let mut out: Vec<char> = Vec::new();
            let n = items.len();
            let mut i: usize = 0;
            while i < n
                invariant
                    i <= n,
                    n == items@.len(),
                    j@ == JsonV::Arr(a),
                    a == dv_seq(items@),
                    a.len() == n,
                    forall|x: int| 0 <= x < n ==> #[trigger] a[x] == items@[x].dv(),
                    out@.len() == i,
                    forall|x: int| 0 <= x < i ==> ch_elem_matches(#[trigger] a[x], out@[x]),
                decreases n - i,
            {
                let item = &items[i];
                proof {
                    assert(item@ == a[i as int]);
                }
                match ch_elem_from_json(item) {
                    Some(e) => {
                        out.push(e);
                    }
                    None => {
                        proof {
                            assert(!arr_ch_decodable(JsonV::Arr(a))) by {
                                if arr_ch_decodable(JsonV::Arr(a)) {
                                    let aa = JsonV::Arr(a)->Arr_0;
                                    assert(aa == a);
                                    assert(ch_elem_decodable(aa[i as int]));
                                }
                            }
                        }
                        return None;
                    }
                }
                i = i + 1;
            }
            Some(out)
        }
        _ => None,
    }
}

/// Round trip for the whole array.
pub proof fn lemma_arr_ch_round_trip(v: Seq<char>, v2: Seq<char>)
    ensures
        arr_ch_decodable(JsonV::Arr(chs_jv(v))),
        arr_ch_matches(JsonV::Arr(chs_jv(v)), v2) ==> chs_jv(v2) == chs_jv(v),
{
    assert forall|x: int| 0 <= x < v.len() implies ch_elem_decodable(
        #[trigger] chs_jv(v)[x],
    ) by {
        lemma_ch_elem_round_trip(v[x], v[x]);
    }
    if arr_ch_matches(JsonV::Arr(chs_jv(v)), v2) {
        assert forall|x: int| 0 <= x < v.len() implies chs_jv(v2)[x] == chs_jv(v)[x] by {
            lemma_ch_elem_round_trip(v[x], v2[x]);
            assert(ch_elem_matches(chs_jv(v)[x], v2[x]));
        }
        assert(chs_jv(v2) =~= chs_jv(v));
    }
}

/// The trees of a sequence, element-wise.
pub open spec fn bytes_jv(v: Seq<u8>) -> Seq<JsonV> {
    Seq::new(v.len(), |i: int| byte_jv(v[i]))
}

/// Every element of the array tree decodes.
pub open spec fn arr_byte_decodable(j: JsonV) -> bool {
    j matches JsonV::Arr(a) && (forall|x: int|
        0 <= x < a.len() ==> byte_elem_decodable(#[trigger] a[x]))
}

/// The elements read one-for-one from the array tree.
pub open spec fn arr_byte_matches(j: JsonV, v: Seq<u8>) -> bool {
    j matches JsonV::Arr(a) && a.len() == v.len() && (forall|x: int|
        0 <= x < a.len() ==> byte_elem_matches(#[trigger] a[x], v[x]))
}

fn bytes_to_json(v: &Vec<u8>) -> (j: Json)
    ensures
        j@ == JsonV::Arr(bytes_jv(v@)),
{
    let mut items: Vec<Json> = Vec::new();
    let n = v.len();
    let mut i: usize = 0;
    while i < n
        invariant
            i <= n,
            n == v@.len(),
            dv_seq(items@) =~= bytes_jv(v@).take(i as int),
        decreases n - i,
    {
        let ghost pre_items = items@;
        let item = byte_to_json(v[i]);
        proof {
            crate::json::lemma_dv_seq_push(pre_items, item);
        }
        items.push(item);
        i = i + 1;
        proof {
            assert(dv_seq(items@) =~= bytes_jv(v@).take(i as int));
        }
    }
    proof {
        assert(bytes_jv(v@).take(n as int) =~= bytes_jv(v@));
    }
    Json::Arr(items)
}

fn bytes_from_json(j: &Json) -> (r: Option<Vec<u8>>)
    ensures
        match r {
            Some(v) => arr_byte_matches(j@, v@),
            None => !arr_byte_decodable(j@),
        },
        r is Some <==> arr_byte_decodable(j@),
{
    match j {
        Json::Arr(items) => {
            let ghost a = dv_seq(items@);
            proof {
                lemma_dv_seq(items@);
            }
            let mut out: Vec<u8> = Vec::new();
            let n = items.len();
            let mut i: usize = 0;
            while i < n
                invariant
                    i <= n,
                    n == items@.len(),
                    j@ == JsonV::Arr(a),
                    a == dv_seq(items@),
                    a.len() == n,
                    forall|x: int| 0 <= x < n ==> #[trigger] a[x] == items@[x].dv(),
                    out@.len() == i,
                    forall|x: int| 0 <= x < i ==> byte_elem_matches(#[trigger] a[x], out@[x]),
                decreases n - i,
            {
                let item = &items[i];
                proof {
                    assert(item@ == a[i as int]);
                }
                match byte_elem_from_json(item) {
                    Some(e) => {
                        out.push(e);
                    }
                    None => {
                        proof {
                            assert(!arr_byte_decodable(JsonV::Arr(a))) by {
                                if arr_byte_decodable(JsonV::Arr(a)) {
                                    let aa = JsonV::Arr(a)->Arr_0;
                                    assert(aa == a);
                                    assert(byte_elem_decodable(aa[i as int]));
                                }
                            }
                        }
                        return None;
                    }
                }
                i = i + 1;
            }
            Some(out)
        }
        _ => None,
    }
}

/// Round trip for the whole array.
pub proof fn lemma_arr_byte_round_trip(v: Seq<u8>, v2: Seq<u8>)
    ensures
        arr_byte_decodable(JsonV::Arr(bytes_jv(v))),
        arr_byte_matches(JsonV::Arr(bytes_jv(v)), v2) ==> bytes_jv(v2) == bytes_jv(v),
{
    assert forall|x: int| 0 <= x < v.len() implies byte_elem_decodable(
        #[trigger] bytes_jv(v)[x],
    ) by {
        lemma_byte_elem_round_trip(v[x], v[x]);
    }
    if arr_byte_matches(JsonV::Arr(bytes_jv(v)), v2) {
        assert forall|x: int| 0 <= x < v.len() implies bytes_jv(v2)[x] == bytes_jv(v)[x] by {
            lemma_byte_elem_round_trip(v[x], v2[x]);
            assert(byte_elem_matches(bytes_jv(v)[x], v2[x]));
        }
        assert(bytes_jv(v2) =~= bytes_jv(v));
    }
}



// ── Protocol structures ─────────────────────────────────────────────

/// The name-rule lengths must fit the wire's integer model.
pub open spec fn rules_wf(v: PlayerNameRulesPayload) -> bool {
    v.max_length as int <= i64::MAX as int && v.min_length as int <= i64::MAX as int
}

/// Well-formedness of a protocol-information payload.
pub open spec fn proto_wf(v: ProtocolInfoPayload) -> bool {
    match v.player_name_rules {
        Some(r) => rules_wf(r),
        None => true,
    }
}

/// Round trip for arrays of strings.
pub proof fn lemma_arr_str_round_trip(v: Seq<String>, v2: Seq<String>)
    ensures
        arr_str_decodable(JsonV::Arr(strs_jv(v))),
        arr_str_matches(JsonV::Arr(strs_jv(v)), v2) ==> strs_jv(v2) == strs_jv(v),
{
    let a = JsonV::Arr(strs_jv(v))->Arr_0;
    assert(a == strs_jv(v));
    assert(forall|x: int| 0 <= x < a.len() ==> (#[trigger] a[x]) is Str);
}

/// Rate limit information for an application.
#[derive(Debug)]
pub struct RateLimitInfo {
    pub per_minute: u32,
    pub per_hour: u32,
    pub per_day: u32,
}

/// The members a `RateLimitInfo` is written with.
pub open spec fn rl_members(v: RateLimitInfo) -> Seq<(Seq<char>, JsonV)> {
    seq![("per_minute"@, JsonV::Int(v.per_minute as int))]
        + seq![("per_hour"@, JsonV::Int(v.per_hour as int))]
        + seq![("per_day"@, JsonV::Int(v.per_day as int))]
}

/// The tree a `RateLimitInfo` is written as.
pub open spec fn rl_jv(v: RateLimitInfo) -> JsonV {
    JsonV::Obj(rl_members(v))
}

/// Which trees decode as a `RateLimitInfo`.
pub open spec fn rl_decodable(j: JsonV) -> bool {
    match j {
        JsonV::Obj(o) => {
            &&& sf_int_ok(o, "per_minute"@) && 0 <= sf_int(o, "per_minute"@) <= 0xffff_ffff
            &&& sf_int_ok(o, "per_hour"@) && 0 <= sf_int(o, "per_hour"@) <= 0xffff_ffff
            &&& sf_int_ok(o, "per_day"@) && 0 <= sf_int(o, "per_day"@) <= 0xffff_ffff
        }
        _ => false,
    }
}

/// What the decoded `RateLimitInfo` holds, member by member.
pub open spec fn rl_matches(j: JsonV, v: RateLimitInfo) -> bool {
    match j {
        JsonV::Obj(o) => {
            &&& v.per_minute as int == sf_int(o, "per_minute"@)
            &&& v.per_hour as int == sf_int(o, "per_hour"@)
            &&& v.per_day as int == sf_int(o, "per_day"@)
        }
        _ => false,
    }
}

/// Writes a `RateLimitInfo` as its tree, exactly as `rl_jv` gives it.
pub fn rl_to_json(v: &RateLimitInfo) -> (j: Json)
    ensures
        j@ == rl_jv(*v),
{
    let mut fields: Vec<(String, Json)> = Vec::new();
    proof {
        assert(dv_fields(fields@) =~= Seq::<(Seq<char>, JsonV)>::empty());
    }
    push_member(&mut fields, "per_minute", Json::Int(*&v.per_minute as i64));
    push_member(&mut fields, "per_hour", Json::Int(*&v.per_hour as i64));
    push_member(&mut fields, "per_day", Json::Int(*&v.per_day as i64));
    proof {
        assert(dv_fields(fields@) =~= rl_members(*v));
    }
    Json::Obj(fields)
}

/// Reads a `RateLimitInfo` from a tree, exactly when `rl_decodable`, the
/// members as `rl_matches` pins them.
pub fn rl_from_json(j: &Json) -> (r: Option<RateLimitInfo>)
    ensures
        match r {
            Some(v) => rl_matches(j@, v),
            None => !rl_decodable(j@),
        },
        r is Some <==> rl_decodable(j@),
{
    let fields = match j {
        Json::Obj(fields) => fields,
        _ => {
            return None;
        }
    };
    let f_per_minute_i = match get_int(fields, "per_minute") { Some(n) => n, None => { return None; } };
    if !(0 <= f_per_minute_i && f_per_minute_i <= 0xffff_ffff) { return None; }
    let f_per_minute = f_per_minute_i as u32;
    let f_per_hour_i = match get_int(fields, "per_hour") { Some(n) => n, None => { return None; } };
    if !(0 <= f_per_hour_i && f_per_hour_i <= 0xffff_ffff) { return None; }
    let f_per_hour = f_per_hour_i as u32;
    let f_per_day_i = match get_int(fields, "per_day") { Some(n) => n, None => { return None; } };
    if !(0 <= f_per_day_i && f_per_day_i <= 0xffff_ffff) { return None; }
    let f_per_day = f_per_day_i as u32;
    Some(RateLimitInfo {
        per_minute: f_per_minute,
        per_hour: f_per_hour,
        per_day: f_per_day,
    })
}

/// Round trip: the canonical tree of a `RateLimitInfo` decodes, and any value
/// its members pin re-encodes to the same tree.
pub proof fn lemma_rl_round_trip(v: RateLimitInfo, v2: RateLimitInfo)
    ensures
        rl_decodable(rl_jv(v)),
        rl_matches(rl_jv(v), v2) ==> rl_jv(v2) == rl_jv(v),
{
    reveal_strlit("per_day");
    reveal_strlit("per_hour");
    reveal_strlit("per_minute");
    assert("per_day"@.len() == 7);
    assert("per_hour"@.len() == 8);
    assert("per_minute"@.len() == 10);
    let s0 = seq![("per_minute"@, JsonV::Int(v.per_minute as int))];
    let s1 = seq![("per_hour"@, JsonV::Int(v.per_hour as int))];
    let s2 = seq![("per_day"@, JsonV::Int(v.per_day as int))];
    lemma_lookup_at(s0, 0);
    lemma_lookup_absent(s0, "per_hour"@);
    lemma_lookup_absent(s0, "per_day"@);
    lemma_lookup_at(s1, 0);
    lemma_lookup_absent(s1, "per_minute"@);
    lemma_lookup_absent(s1, "per_day"@);
    lemma_lookup_at(s2, 0);
    lemma_lookup_absent(s2, "per_minute"@);
    lemma_lookup_absent(s2, "per_hour"@);
    let p1 = s0 + s1;
    let p2 = p1 + s2;
    lemma_lookup_append(s0, s1, "per_minute"@);
    lemma_lookup_append(p1, s2, "per_minute"@);
    lemma_lookup_append(s0, s1, "per_hour"@);
    lemma_lookup_append(p1, s2, "per_hour"@);
    lemma_lookup_append(s0, s1, "per_day"@);
    lemma_lookup_append(p1, s2, "per_day"@);
    assert(rl_decodable(rl_jv(v)));
    if rl_matches(rl_jv(v), v2) {
        assert(rl_members(v2) =~~= rl_members(v));
        assert(rl_jv(v2) == rl_jv(v));
    }
}

/// Information about a spectator watching a room.
#[derive(Debug)]
pub struct SpectatorInfo {
    pub id: PlayerId,
    pub name: String,
    pub connected_at: String,
}

/// The members a `SpectatorInfo` is written with.
pub open spec fn si_members(v: SpectatorInfo) -> Seq<(Seq<char>, JsonV)> {
    seq![("id"@, uid_jv(v.id))]
        + seq![("name"@, JsonV::Str(v.name@))]
        + seq![("connected_at"@, JsonV::Str(v.connected_at@))]
}

/// The tree a `SpectatorInfo` is written as.
pub open spec fn si_jv(v: SpectatorInfo) -> JsonV {
    JsonV::Obj(si_members(v))
}

/// Which trees decode as a `SpectatorInfo`.
pub open spec fn si_decodable(j: JsonV) -> bool {
    match j {
        JsonV::Obj(o) => {
            &&& sf_str_ok(o, "id"@) && uid_of(sf_str(o, "id"@)) is Some
            &&& sf_str_ok(o, "name"@)
            &&& sf_str_ok(o, "connected_at"@)
        }
        _ => false,
    }
}

/// What the decoded `SpectatorInfo` holds, member by member.
pub open spec fn si_matches(j: JsonV, v: SpectatorInfo) -> bool {
    match j {
        JsonV::Obj(o) => {
            &&& uid_of(sf_str(o, "id"@)) == Some(v.id.value as int)
            &&& v.name@ == sf_str(o, "name"@)
            &&& v.connected_at@ == sf_str(o, "connected_at"@)
        }
        _ => false,
    }
}

/// Writes a `SpectatorInfo` as its tree, exactly as `si_jv` gives it.
pub fn si_to_json(v: &SpectatorInfo) -> (j: Json)
    ensures
        j@ == si_jv(*v),
{
    let mut fields: Vec<(String, Json)> = Vec::new();
    proof {
        assert(dv_fields(fields@) =~= Seq::<(Seq<char>, JsonV)>::empty());
    }
    push_member(&mut fields, "id", uid_to_json(&v.id));
    push_member(&mut fields, "name", Json::Str(v.name.clone()));
    push_member(&mut fields, "connected_at", Json::Str(v.connected_at.clone()));
    proof {
        assert(dv_fields(fields@) =~= si_members(*v));
    }
    Json::Obj(fields)
}

/// Reads a `SpectatorInfo` from a tree, exactly when `si_decodable`, the
/// members as `si_matches` pins them.
pub fn si_from_json(j: &Json) -> (r: Option<SpectatorInfo>)
    ensures
        match r {
            Some(v) => si_matches(j@, v),
            None => !si_decodable(j@),
        },
        r is Some <==> si_decodable(j@),
{
    let fields = match j {
        Json::Obj(fields) => fields,
        _ => {
            return None;
        }
    };
    let f_id = match get_str(fields, "id") { Some(s) => match uid_from_text(s.as_str()) { Some(u) => u, None => { return None; } }, None => { return None; } };
    let f_name = match get_str(fields, "name") { Some(s) => s, None => { return None; } };
    let f_connected_at = match get_str(fields, "connected_at") { Some(s) => s, None => { return None; } };
    Some(SpectatorInfo {
        id: f_id,
        name: f_name,
        connected_at: f_connected_at,
    })
}

/// Round trip: the canonical tree of a `SpectatorInfo` decodes, and any value
/// its members pin re-encodes to the same tree.
pub proof fn lemma_si_round_trip(v: SpectatorInfo, v2: SpectatorInfo)
    ensures
        si_decodable(si_jv(v)),
        si_matches(si_jv(v), v2) ==> si_jv(v2) == si_jv(v),
{
    reveal_strlit("connected_at");
    reveal_strlit("id");
    reveal_strlit("name");
    assert("connected_at"@.len() == 12);
    assert("id"@.len() == 2);
    assert("name"@.len() == 4);
    let s0 = seq![("id"@, uid_jv(v.id))];
    let s1 = seq![("name"@, JsonV::Str(v.name@))];
    let s2 = seq![("connected_at"@, JsonV::Str(v.connected_at@))];
    lemma_lookup_at(s0, 0);
    lemma_lookup_absent(s0, "name"@);
    lemma_lookup_absent(s0, "connected_at"@);
    lemma_lookup_at(s1, 0);
    lemma_lookup_absent(s1, "id"@);
    lemma_lookup_absent(s1, "connected_at"@);
    lemma_lookup_at(s2, 0);
    lemma_lookup_absent(s2, "id"@);
    lemma_lookup_absent(s2, "name"@);
    let p1 = s0 + s1;
    let p2 = p1 + s2;
    lemma_lookup_append(s0, s1, "id"@);
    lemma_lookup_append(p1, s2, "id"@);
    lemma_lookup_append(s0, s1, "name"@);
    lemma_lookup_append(p1, s2, "name"@);
    lemma_lookup_append(s0, s1, "connected_at"@);
    lemma_lookup_append(p1, s2, "connected_at"@);
    lemma_uid_text_round_trip(v.id.value as int);
    assert(si_decodable(si_jv(v)));
    if si_matches(si_jv(v), v2) {
        assert(si_members(v2) =~~= si_members(v));
        assert(si_jv(v2) == si_jv(v));
    }
}

/// Information about a player in a room.
#[derive(Debug)]
pub struct PlayerInfo {
    pub id: PlayerId,
    pub name: String,
    pub is_authority: bool,
    pub is_ready: bool,
    pub connected_at: String,
    pub connection_info: Option<ConnectionInfo>,
}

/// The members a `PlayerInfo` is written with.
pub open spec fn pi_members(v: PlayerInfo) -> Seq<(Seq<char>, JsonV)> {
    seq![("id"@, uid_jv(v.id))]
        + seq![("name"@, JsonV::Str(v.name@))]
        + seq![("is_authority"@, JsonV::Bool(v.is_authority))]
        + seq![("is_ready"@, JsonV::Bool(v.is_ready))]
        + seq![("connected_at"@, JsonV::Str(v.connected_at@))]
        + (match v.connection_info { Some(x) => seq![("connection_info"@, ci_jv(x))], None => Seq::empty() })
}

/// The tree a `PlayerInfo` is written as.
pub open spec fn pi_jv(v: PlayerInfo) -> JsonV {
    JsonV::Obj(pi_members(v))
}

/// Which trees decode as a `PlayerInfo`.
pub open spec fn pi_decodable(j: JsonV) -> bool {
    match j {
        JsonV::Obj(o) => {
            &&& sf_str_ok(o, "id"@) && uid_of(sf_str(o, "id"@)) is Some
            &&& sf_str_ok(o, "name"@)
            &&& sf_bool_ok(o, "is_authority"@)
            &&& sf_bool_ok(o, "is_ready"@)
            &&& sf_str_ok(o, "connected_at"@)
            &&& (sf_absent(o, "connection_info"@) || (lookup(o, "connection_info"@) matches Some(x) && ci_decodable(x)))
        }
        _ => false,
    }
}

/// What the decoded `PlayerInfo` holds, member by member.
pub open spec fn pi_matches(j: JsonV, v: PlayerInfo) -> bool {
    match j {
        JsonV::Obj(o) => {
            &&& uid_of(sf_str(o, "id"@)) == Some(v.id.value as int)
            &&& v.name@ == sf_str(o, "name"@)
            &&& v.is_authority == sf_bool(o, "is_authority"@)
            &&& v.is_ready == sf_bool(o, "is_ready"@)
            &&& v.connected_at@ == sf_str(o, "connected_at"@)
            &&& (if sf_absent(o, "connection_info"@) { v.connection_info is None } else { v.connection_info matches Some(vv) && (lookup(o, "connection_info"@) matches Some(x) && ci_matches(x, vv)) })
        }
        _ => false,
    }
}

/// Writes a `PlayerInfo` as its tree, exactly as `pi_jv` gives it.
pub fn pi_to_json(v: &PlayerInfo) -> (j: Json)
    ensures
        j@ == pi_jv(*v),
{
    let mut fields: Vec<(String, Json)> = Vec::new();
    proof {
        assert(dv_fields(fields@) =~= Seq::<(Seq<char>, JsonV)>::empty());
    }
    push_member(&mut fields, "id", uid_to_json(&v.id));
    push_member(&mut fields, "name", Json::Str(v.name.clone()));
    push_member(&mut fields, "is_authority", Json::Bool(*&v.is_authority));
    push_member(&mut fields, "is_ready", Json::Bool(*&v.is_ready));
    push_member(&mut fields, "connected_at", Json::Str(v.connected_at.clone()));
    match &v.connection_info { Some(x) => { push_member(&mut fields, "connection_info", ci_to_json(x)); } None => {} }
    proof {
        assert(dv_fields(fields@) =~= pi_members(*v));
    }
    Json::Obj(fields)
}

/// Reads a `PlayerInfo` from a tree, exactly when `pi_decodable`, the
/// members as `pi_matches` pins them.
pub fn pi_from_json(j: &Json) -> (r: Option<PlayerInfo>)
    ensures
        match r {
            Some(v) => pi_matches(j@, v),
            None => !pi_decodable(j@),
        },
        r is Some <==> pi_decodable(j@),
{
    let fields = match j {
        Json::Obj(fields) => fields,
        _ => {
            return None;
        }
    };
    let f_id = match get_str(fields, "id") { Some(s) => match uid_from_text(s.as_str()) { Some(u) => u, None => { return None; } }, None => { return None; } };
    let f_name = match get_str(fields, "name") { Some(s) => s, None => { return None; } };
    let f_is_authority = match get_bool(fields, "is_authority") { Some(b) => b, None => { return None; } };
    let f_is_ready = match get_bool(fields, "is_ready") { Some(b) => b, None => { return None; } };
    let f_connected_at = match get_str(fields, "connected_at") { Some(s) => s, None => { return None; } };
    let f_connection_info = match get_field(fields, "connection_info") {
        Some(cj) => match cj {
            Json::Null => None,
            _ => {
                proof { lemma_dv_variant(*cj); }
                match ci_from_json(cj) { Some(c) => Some(c), None => { return None; } }
            }
        },
        None => None,
    };
    Some(PlayerInfo {
        id: f_id,
        name: f_name,
        is_authority: f_is_authority,
        is_ready: f_is_ready,
        connected_at: f_connected_at,
        connection_info: f_connection_info,
    })
}

/// Round trip: the canonical tree of a `PlayerInfo` decodes, and any value
/// its members pin re-encodes to the same tree.
pub proof fn lemma_pi_round_trip(v: PlayerInfo, v2: PlayerInfo)
    ensures
        pi_decodable(pi_jv(v)),
        pi_matches(pi_jv(v), v2) ==> pi_jv(v2) == pi_jv(v),
{
    reveal_strlit("connected_at");
    reveal_strlit("connection_info");
    reveal_strlit("id");
    reveal_strlit("is_authority");
    reveal_strlit("is_ready");
    reveal_strlit("name");
    assert("connected_at"@.len() == 12);
    assert("connection_info"@.len() == 15);
    assert("id"@.len() == 2);
    assert("is_authority"@.len() == 12);
    assert("is_ready"@.len() == 8);
    assert("name"@.len() == 4);
    assert("connected_at"@[0] == 'c');
    assert("is_authority"@[0] == 'i');
    let s0 = seq![("id"@, uid_jv(v.id))];
    let s1 = seq![("name"@, JsonV::Str(v.name@))];
    let s2 = seq![("is_authority"@, JsonV::Bool(v.is_authority))];
    let s3 = seq![("is_ready"@, JsonV::Bool(v.is_ready))];
    let s4 = seq![("connected_at"@, JsonV::Str(v.connected_at@))];
    let s5 = (match v.connection_info { Some(x) => seq![("connection_info"@, ci_jv(x))], None => Seq::empty() });
    lemma_lookup_at(s0, 0);
    lemma_lookup_absent(s0, "name"@);
    lemma_lookup_absent(s0, "is_authority"@);
    lemma_lookup_absent(s0, "is_ready"@);
    lemma_lookup_absent(s0, "connected_at"@);
    lemma_lookup_absent(s0, "connection_info"@);
    lemma_lookup_at(s1, 0);
    lemma_lookup_absent(s1, "id"@);
    lemma_lookup_absent(s1, "is_authority"@);
    lemma_lookup_absent(s1, "is_ready"@);
    lemma_lookup_absent(s1, "connected_at"@);
    lemma_lookup_absent(s1, "connection_info"@);
    lemma_lookup_at(s2, 0);
    lemma_lookup_absent(s2, "id"@);
    lemma_lookup_absent(s2, "name"@);
    lemma_lookup_absent(s2, "is_ready"@);
    lemma_lookup_absent(s2, "connected_at"@);
    lemma_lookup_absent(s2, "connection_info"@);
    lemma_lookup_at(s3, 0);
    lemma_lookup_absent(s3, "id"@);
    lemma_lookup_absent(s3, "name"@);
    lemma_lookup_absent(s3, "is_authority"@);
    lemma_lookup_absent(s3, "connected_at"@);
    lemma_lookup_absent(s3, "connection_info"@);
    lemma_lookup_at(s4, 0);
    lemma_lookup_absent(s4, "id"@);
    lemma_lookup_absent(s4, "name"@);
    lemma_lookup_absent(s4, "is_authority"@);
    lemma_lookup_absent(s4, "is_ready"@);
    lemma_lookup_absent(s4, "connection_info"@);
    match v.connection_info {
        Some(_) => {
            lemma_lookup_at(s5, 0);
            lemma_lookup_absent(s5, "id"@);
            lemma_lookup_absent(s5, "name"@);
            lemma_lookup_absent(s5, "is_authority"@);
            lemma_lookup_absent(s5, "is_ready"@);
            lemma_lookup_absent(s5, "connected_at"@);
        }
        None => {
            lemma_lookup_absent(s5, "id"@);
            lemma_lookup_absent(s5, "name"@);
            lemma_lookup_absent(s5, "is_authority"@);
            lemma_lookup_absent(s5, "is_ready"@);
            lemma_lookup_absent(s5, "connected_at"@);
            lemma_lookup_absent(s5, "connection_info"@);
        }
    }
    let p1 = s0 + s1;
    let p2 = p1 + s2;
    let p3 = p2 + s3;
    let p4 = p3 + s4;
    let p5 = p4 + s5;
    lemma_lookup_append(s0, s1, "id"@);
    lemma_lookup_append(p1, s2, "id"@);
    lemma_lookup_append(p2, s3, "id"@);
    lemma_lookup_append(p3, s4, "id"@);
    lemma_lookup_append(p4, s5, "id"@);
    lemma_lookup_append(s0, s1, "name"@);
    lemma_lookup_append(p1, s2, "name"@);
    lemma_lookup_append(p2, s3, "name"@);
    lemma_lookup_append(p3, s4, "name"@);
    lemma_lookup_append(p4, s5, "name"@);
    lemma_lookup_append(s0, s1, "is_authority"@);
    lemma_lookup_append(p1, s2, "is_authority"@);
    lemma_lookup_append(p2, s3, "is_authority"@);
    lemma_lookup_append(p3, s4, "is_authority"@);
    lemma_lookup_append(p4, s5, "is_authority"@);
    lemma_lookup_append(s0, s1, "is_ready"@);
    lemma_lookup_append(p1, s2, "is_ready"@);
    lemma_lookup_append(p2, s3, "is_ready"@);
    lemma_lookup_append(p3, s4, "is_ready"@);
    lemma_lookup_append(p4, s5, "is_ready"@);
    lemma_lookup_append(s0, s1, "connected_at"@);
    lemma_lookup_append(p1, s2, "connected_at"@);
    lemma_lookup_append(p2, s3, "connected_at"@);
    lemma_lookup_append(p3, s4, "connected_at"@);
    lemma_lookup_append(p4, s5, "connected_at"@);
    lemma_lookup_append(s0, s1, "connection_info"@);
    lemma_lookup_append(p1, s2, "connection_info"@);
    lemma_lookup_append(p2, s3, "connection_info"@);
    lemma_lookup_append(p3, s4, "connection_info"@);
    lemma_lookup_append(p4, s5, "connection_info"@);
    lemma_uid_text_round_trip(v.id.value as int);
    match v.connection_info { Some(x) => { lemma_ci_round_trip(x, x); } None => {} }
    assert(pi_decodable(pi_jv(v)));
    if pi_matches(pi_jv(v), v2) {
        match (v.connection_info, v2.connection_info) { (Some(x), Some(x2)) => { lemma_ci_round_trip(x, x2); } _ => {} }
        assert(pi_members(v2) =~~= pi_members(v));
        assert(pi_jv(v2) == pi_jv(v));
    }
}

/// Peer connection information for game start.
#[derive(Debug)]
pub struct PeerConnectionInfo {
    pub player_id: PlayerId,
    pub player_name: String,
    pub is_authority: bool,
    pub relay_type: String,
    pub connection_info: Option<ConnectionInfo>,
}

/// The members a `PeerConnectionInfo` is written with.
pub open spec fn pci_members(v: PeerConnectionInfo) -> Seq<(Seq<char>, JsonV)> {
    seq![("player_id"@, uid_jv(v.player_id))]
        + seq![("player_name"@, JsonV::Str(v.player_name@))]
        + seq![("is_authority"@, JsonV::Bool(v.is_authority))]
        + seq![("relay_type"@, JsonV::Str(v.relay_type@))]
        + (match v.connection_info { Some(x) => seq![("connection_info"@, ci_jv(x))], None => Seq::empty() })
}

/// The tree a `PeerConnectionInfo` is written as.
pub open spec fn pci_jv(v: PeerConnectionInfo) -> JsonV {
    JsonV::Obj(pci_members(v))
}

/// Which trees decode as a `PeerConnectionInfo`.
pub open spec fn pci_decodable(j: JsonV) -> bool {
    match j {
        JsonV::Obj(o) => {
            &&& sf_str_ok(o, "player_id"@) && uid_of(sf_str(o, "player_id"@)) is Some
            &&& sf_str_ok(o, "player_name"@)
            &&& sf_bool_ok(o, "is_authority"@)
            &&& sf_str_ok(o, "relay_type"@)
            &&& (sf_absent(o, "connection_info"@) || (lookup(o, "connection_info"@) matches Some(x) && ci_decodable(x)))
        }
        _ => false,
    }
}

/// What the decoded `PeerConnectionInfo` holds, member by member.
pub open spec fn pci_matches(j: JsonV, v: PeerConnectionInfo) -> bool {
    match j {
        JsonV::Obj(o) => {
            &&& uid_of(sf_str(o, "player_id"@)) == Some(v.player_id.value as int)
            &&& v.player_name@ == sf_str(o, "player_name"@)
            &&& v.is_authority == sf_bool(o, "is_authority"@)
            &&& v.relay_type@ == sf_str(o, "relay_type"@)
            &&& (if sf_absent(o, "connection_info"@) { v.connection_info is None } else { v.connection_info matches Some(vv) && (lookup(o, "connection_info"@) matches Some(x) && ci_matches(x, vv)) })
        }
        _ => false,
    }
}

/// Writes a `PeerConnectionInfo` as its tree, exactly as `pci_jv` gives it.
pub fn pci_to_json(v: &PeerConnectionInfo) -> (j: Json)
    ensures
        j@ == pci_jv(*v),
{
    let mut fields: Vec<(String, Json)> = Vec::new();
    proof {
        assert(dv_fields(fields@) =~= Seq::<(Seq<char>, JsonV)>::empty());
    }
    push_member(&mut fields, "player_id", uid_to_json(&v.player_id));
    push_member(&mut fields, "player_name", Json::Str(v.player_name.clone()));
    push_member(&mut fields, "is_authority", Json::Bool(*&v.is_authority));
    push_member(&mut fields, "relay_type", Json::Str(v.relay_type.clone()));
    match &v.connection_info { Some(x) => { push_member(&mut fields, "connection_info", ci_to_json(x)); } None => {} }
    proof {
        assert(dv_fields(fields@) =~= pci_members(*v));
    }
    Json::Obj(fields)
}

/// Reads a `PeerConnectionInfo` from a tree, exactly when `pci_decodable`, the
/// members as `pci_matches` pins them.
pub fn pci_from_json(j: &Json) -> (r: Option<PeerConnectionInfo>)
    ensures
        match r {
            Some(v) => pci_matches(j@, v),
            None => !pci_decodable(j@),
        },
        r is Some <==> pci_decodable(j@),
{
    let fields = match j {
        Json::Obj(fields) => fields,
        _ => {
            return None;
        }
    };
    let f_player_id = match get_str(fields, "player_id") { Some(s) => match uid_from_text(s.as_str()) { Some(u) => u, None => { return None; } }, None => { return None; } };
    let f_player_name = match get_str(fields, "player_name") { Some(s) => s, None => { return None; } };
    let f_is_authority = match get_bool(fields, "is_authority") { Some(b) => b, None => { return None; } };
    let f_relay_type = match get_str(fields, "relay_type") { Some(s) => s, None => { return None; } };
    let f_connection_info = match get_field(fields, "connection_info") {
        Some(cj) => match cj {
            Json::Null => None,
            _ => {
                proof { lemma_dv_variant(*cj); }
                match ci_from_json(cj) { Some(c) => Some(c), None => { return None; } }
            }
        },
        None => None,
    };
    Some(PeerConnectionInfo {
        player_id: f_player_id,
        player_name: f_player_name,
        is_authority: f_is_authority,
        relay_type: f_relay_type,
        connection_info: f_connection_info,
    })
}

/// Round trip: the canonical tree of a `PeerConnectionInfo` decodes, and any value
/// its members pin re-encodes to the same tree.
pub proof fn lemma_pci_round_trip(v: PeerConnectionInfo, v2: PeerConnectionInfo)
    ensures
        pci_decodable(pci_jv(v)),
        pci_matches(pci_jv(v), v2) ==> pci_jv(v2) == pci_jv(v),
{
    reveal_strlit("connection_info");
    reveal_strlit("is_authority");
    reveal_strlit("player_id");
    reveal_strlit("player_name");
    reveal_strlit("relay_type");
    assert("connection_info"@.len() == 15);
    assert("is_authority"@.len() == 12);
    assert("player_id"@.len() == 9);
    assert("player_name"@.len() == 11);
    assert("relay_type"@.len() == 10);
    let s0 = seq![("player_id"@, uid_jv(v.player_id))];
    let s1 = seq![("player_name"@, JsonV::Str(v.player_name@))];
    let s2 = seq![("is_authority"@, JsonV::Bool(v.is_authority))];
    let s3 = seq![("relay_type"@, JsonV::Str(v.relay_type@))];
    let s4 = (match v.connection_info { Some(x) => seq![("connection_info"@, ci_jv(x))], None => Seq::empty() });
    lemma_lookup_at(s0, 0);
    lemma_lookup_absent(s0, "player_name"@);
    lemma_lookup_absent(s0, "is_authority"@);
    lemma_lookup_absent(s0, "relay_type"@);
    lemma_lookup_absent(s0, "connection_info"@);
    lemma_lookup_at(s1, 0);
    lemma_lookup_absent(s1, "player_id"@);
    lemma_lookup_absent(s1, "is_authority"@);
    lemma_lookup_absent(s1, "relay_type"@);
    lemma_lookup_absent(s1, "connection_info"@);
    lemma_lookup_at(s2, 0);
    lemma_lookup_absent(s2, "player_id"@);
    lemma_lookup_absent(s2, "player_name"@);
    lemma_lookup_absent(s2, "relay_type"@);
    lemma_lookup_absent(s2, "connection_info"@);
    lemma_lookup_at(s3, 0);
    lemma_lookup_absent(s3, "player_id"@);
    lemma_lookup_absent(s3, "player_name"@);
    lemma_lookup_absent(s3, "is_authority"@);
    lemma_lookup_absent(s3, "connection_info"@);
    match v.connection_info {
        Some(_) => {
            lemma_lookup_at(s4, 0);
            lemma_lookup_absent(s4, "player_id"@);
            lemma_lookup_absent(s4, "player_name"@);
            lemma_lookup_absent(s4, "is_authority"@);
            lemma_lookup_absent(s4, "relay_type"@);
        }
        None => {
            lemma_lookup_absent(s4, "player_id"@);
            lemma_lookup_absent(s4, "player_name"@);
            lemma_lookup_absent(s4, "is_authority"@);
            lemma_lookup_absent(s4, "relay_type"@);
            lemma_lookup_absent(s4, "connection_info"@);
        }
    }
    let p1 = s0 + s1;
    let p2 = p1 + s2;
    let p3 = p2 + s3;
    let p4 = p3 + s4;
    lemma_lookup_append(s0, s1, "player_id"@);
    lemma_lookup_append(p1, s2, "player_id"@);
    lemma_lookup_append(p2, s3, "player_id"@);
    lemma_lookup_append(p3, s4, "player_id"@);
    lemma_lookup_append(s0, s1, "player_name"@);
    lemma_lookup_append(p1, s2, "player_name"@);
    lemma_lookup_append(p2, s3, "player_name"@);
    lemma_lookup_append(p3, s4, "player_name"@);
    lemma_lookup_append(s0, s1, "is_authority"@);
    lemma_lookup_append(p1, s2, "is_authority"@);
    lemma_lookup_append(p2, s3, "is_authority"@);
    lemma_lookup_append(p3, s4, "is_authority"@);
    lemma_lookup_append(s0, s1, "relay_type"@);
    lemma_lookup_append(p1, s2, "relay_type"@);
    lemma_lookup_append(p2, s3, "relay_type"@);
    lemma_lookup_append(p3, s4, "relay_type"@);
    lemma_lookup_append(s0, s1, "connection_info"@);
    lemma_lookup_append(p1, s2, "connection_info"@);
    lemma_lookup_append(p2, s3, "connection_info"@);
    lemma_lookup_append(p3, s4, "connection_info"@);
    lemma_uid_text_round_trip(v.player_id.value as int);
    match v.connection_info { Some(x) => { lemma_ci_round_trip(x, x); } None => {} }
    assert(pci_decodable(pci_jv(v)));
    if pci_matches(pci_jv(v), v2) {
        match (v.connection_info, v2.connection_info) { (Some(x), Some(x2)) => { lemma_ci_round_trip(x, x2); } _ => {} }
        assert(pci_members(v2) =~~= pci_members(v));
        assert(pci_jv(v2) == pci_jv(v));
    }
}

/// Describes the characters a deployment allows inside `player_name`.
#[derive(Debug)]
pub struct PlayerNameRulesPayload {
    pub max_length: usize,
    pub min_length: usize,
    pub allow_unicode_alphanumeric: bool,
    pub allow_spaces: bool,
    pub allow_leading_trailing_whitespace: bool,
    pub allowed_symbols: Vec<char>,
    pub additional_allowed_characters: Option<String>,
}

/// The members a `PlayerNameRulesPayload` is written with.
pub open spec fn rules_members(v: PlayerNameRulesPayload) -> Seq<(Seq<char>, JsonV)> {
    seq![("max_length"@, JsonV::Int(v.max_length as int))]
        + seq![("min_length"@, JsonV::Int(v.min_length as int))]
        + seq![("allow_unicode_alphanumeric"@, JsonV::Bool(v.allow_unicode_alphanumeric))]
        + seq![("allow_spaces"@, JsonV::Bool(v.allow_spaces))]
        + seq![("allow_leading_trailing_whitespace"@, JsonV::Bool(v.allow_leading_trailing_whitespace))]
        + seq![("allowed_symbols"@, JsonV::Arr(chs_jv(v.allowed_symbols@)))]
        + (match v.additional_allowed_characters { Some(x) => seq![("additional_allowed_characters"@, JsonV::Str(x@))], None => Seq::empty() })
}

/// The tree a `PlayerNameRulesPayload` is written as.
pub open spec fn rules_jv(v: PlayerNameRulesPayload) -> JsonV {
    JsonV::Obj(rules_members(v))
}

/// Which trees decode as a `PlayerNameRulesPayload`.
pub open spec fn rules_decodable(j: JsonV) -> bool {
    match j {
        JsonV::Obj(o) => {
            &&& sf_int_ok(o, "max_length"@) && 0 <= sf_int(o, "max_length"@) <= usize::MAX as int
            &&& sf_int_ok(o, "min_length"@) && 0 <= sf_int(o, "min_length"@) <= usize::MAX as int
            &&& sf_bool_ok(o, "allow_unicode_alphanumeric"@)
            &&& sf_bool_ok(o, "allow_spaces"@)
            &&& sf_bool_ok(o, "allow_leading_trailing_whitespace"@)
            &&& (sf_absent(o, "allowed_symbols"@) || (lookup(o, "allowed_symbols"@) matches Some(x) && arr_ch_decodable(x)))
            &&& (sf_absent(o, "additional_allowed_characters"@) || (sf_str_ok(o, "additional_allowed_characters"@)))
        }
        _ => false,
    }
}

/// What the decoded `PlayerNameRulesPayload` holds, member by member.
pub open spec fn rules_matches(j: JsonV, v: PlayerNameRulesPayload) -> bool {
    match j {
        JsonV::Obj(o) => {
            &&& v.max_length as int == sf_int(o, "max_length"@)
            &&& v.min_length as int == sf_int(o, "min_length"@)
            &&& v.allow_unicode_alphanumeric == sf_bool(o, "allow_unicode_alphanumeric"@)
            &&& v.allow_spaces == sf_bool(o, "allow_spaces"@)
            &&& v.allow_leading_trailing_whitespace == sf_bool(o, "allow_leading_trailing_whitespace"@)
            &&& (if sf_absent(o, "allowed_symbols"@) { v.allowed_symbols@.len() == 0 } else { (lookup(o, "allowed_symbols"@) matches Some(x) && arr_ch_matches(x, v.allowed_symbols@)) })
            &&& (if sf_absent(o, "additional_allowed_characters"@) { v.additional_allowed_characters is None } else { v.additional_allowed_characters matches Some(vv) && (vv@ == sf_str(o, "additional_allowed_characters"@)) })
        }
        _ => false,
    }
}

/// Writes a `PlayerNameRulesPayload` as its tree, exactly as `rules_jv` gives it.
pub fn rules_to_json(v: &PlayerNameRulesPayload) -> (j: Json)
    requires
        rules_wf((*v)),
    ensures
        j@ == rules_jv(*v),
{
    let mut fields: Vec<(String, Json)> = Vec::new();
    proof {
        assert(dv_fields(fields@) =~= Seq::<(Seq<char>, JsonV)>::empty());
    }
    push_member(&mut fields, "max_length", Json::Int(*&v.max_length as i64));
    push_member(&mut fields, "min_length", Json::Int(*&v.min_length as i64));
    push_member(&mut fields, "allow_unicode_alphanumeric", Json::Bool(*&v.allow_unicode_alphanumeric));
    push_member(&mut fields, "allow_spaces", Json::Bool(*&v.allow_spaces));
    push_member(&mut fields, "allow_leading_trailing_whitespace", Json::Bool(*&v.allow_leading_trailing_whitespace));
    push_member(&mut fields, "allowed_symbols", chs_to_json(&v.allowed_symbols));
    match &v.additional_allowed_characters { Some(x) => { push_member(&mut fields, "additional_allowed_characters", Json::Str((x).clone())); } None => {} }
    proof {
        assert(dv_fields(fields@) =~= rules_members(*v));
    }
    Json::Obj(fields)
}

/// Reads a `PlayerNameRulesPayload` from a tree, exactly when `rules_decodable`, the
/// members as `rules_matches` pins them.
pub fn rules_from_json(j: &Json) -> (r: Option<PlayerNameRulesPayload>)
    ensures
        match r {
            Some(v) => rules_matches(j@, v) && rules_wf(v),
            None => !rules_decodable(j@),
        },
        r is Some <==> rules_decodable(j@),
{
    let fields = match j {
        Json::Obj(fields) => fields,
        _ => {
            return None;
        }
    };
    let f_max_length_i = match get_int(fields, "max_length") { Some(n) => n, None => { return None; } };
    if !(0 <= f_max_length_i && (f_max_length_i as u64) <= (usize::MAX as u64)) { return None; }
    let f_max_length = f_max_length_i as usize;
    let f_min_length_i = match get_int(fields, "min_length") { Some(n) => n, None => { return None; } };
    if !(0 <= f_min_length_i && (f_min_length_i as u64) <= (usize::MAX as u64)) { return None; }
    let f_min_length = f_min_length_i as usize;
    let f_allow_unicode_alphanumeric = match get_bool(fields, "allow_unicode_alphanumeric") { Some(b) => b, None => { return None; } };
    let f_allow_spaces = match get_bool(fields, "allow_spaces") { Some(b) => b, None => { return None; } };
    let f_allow_leading_trailing_whitespace = match get_bool(fields, "allow_leading_trailing_whitespace") { Some(b) => b, None => { return None; } };
    let f_allowed_symbols = match get_field(fields, "allowed_symbols") {
        Some(aj) => match aj {
            Json::Null => Vec::new(),
            _ => match chs_from_json(aj) { Some(x) => x, None => { return None; } },
        },
        None => Vec::new(),
    };
    let f_additional_allowed_characters = match get_opt_str(fields, "additional_allowed_characters") { Some(x) => x, None => { return None; } };
    Some(PlayerNameRulesPayload {
        max_length: f_max_length,
        min_length: f_min_length,
        allow_unicode_alphanumeric: f_allow_unicode_alphanumeric,
        allow_spaces: f_allow_spaces,
        allow_leading_trailing_whitespace: f_allow_leading_trailing_whitespace,
        allowed_symbols: f_allowed_symbols,
        additional_allowed_characters: f_additional_allowed_characters,
    })
}

/// Round trip: the canonical tree of a `PlayerNameRulesPayload` decodes, and any value
/// its members pin re-encodes to the same tree.
pub proof fn lemma_rules_round_trip(v: PlayerNameRulesPayload, v2: PlayerNameRulesPayload)
    requires
        rules_wf(v),
    ensures
        rules_decodable(rules_jv(v)),
        rules_matches(rules_jv(v), v2) ==> rules_jv(v2) == rules_jv(v),
{
    reveal_strlit("additional_allowed_characters");
    reveal_strlit("allow_leading_trailing_whitespace");
    reveal_strlit("allow_spaces");
    reveal_strlit("allow_unicode_alphanumeric");
    reveal_strlit("allowed_symbols");
    reveal_strlit("max_length");
    reveal_strlit("min_length");
    assert("additional_allowed_characters"@.len() == 29);
    assert("allow_leading_trailing_whitespace"@.len() == 33);
    assert("allow_spaces"@.len() == 12);
    assert("allow_unicode_alphanumeric"@.len() == 26);
    assert("allowed_symbols"@.len() == 15);
    assert("max_length"@.len() == 10);
    assert("min_length"@.len() == 10);
    assert("max_length"@[1] == 'a');
    assert("min_length"@[1] == 'i');
    let s0 = seq![("max_length"@, JsonV::Int(v.max_length as int))];
    let s1 = seq![("min_length"@, JsonV::Int(v.min_length as int))];
    let s2 = seq![("allow_unicode_alphanumeric"@, JsonV::Bool(v.allow_unicode_alphanumeric))];
    let s3 = seq![("allow_spaces"@, JsonV::Bool(v.allow_spaces))];
    let s4 = seq![("allow_leading_trailing_whitespace"@, JsonV::Bool(v.allow_leading_trailing_whitespace))];
    let s5 = seq![("allowed_symbols"@, JsonV::Arr(chs_jv(v.allowed_symbols@)))];
    let s6 = (match v.additional_allowed_characters { Some(x) => seq![("additional_allowed_characters"@, JsonV::Str(x@))], None => Seq::empty() });
    lemma_lookup_at(s0, 0);
    lemma_lookup_absent(s0, "min_length"@);
    lemma_lookup_absent(s0, "allow_unicode_alphanumeric"@);
    lemma_lookup_absent(s0, "allow_spaces"@);
    lemma_lookup_absent(s0, "allow_leading_trailing_whitespace"@);
    lemma_lookup_absent(s0, "allowed_symbols"@);
    lemma_lookup_absent(s0, "additional_allowed_characters"@);
    lemma_lookup_at(s1, 0);
    lemma_lookup_absent(s1, "max_length"@);
    lemma_lookup_absent(s1, "allow_unicode_alphanumeric"@);
    lemma_lookup_absent(s1, "allow_spaces"@);
    lemma_lookup_absent(s1, "allow_leading_trailing_whitespace"@);
    lemma_lookup_absent(s1, "allowed_symbols"@);
    lemma_lookup_absent(s1, "additional_allowed_characters"@);
    lemma_lookup_at(s2, 0);
    lemma_lookup_absent(s2, "max_length"@);
    lemma_lookup_absent(s2, "min_length"@);
    lemma_lookup_absent(s2, "allow_spaces"@);
    lemma_lookup_absent(s2, "allow_leading_trailing_whitespace"@);
    lemma_lookup_absent(s2, "allowed_symbols"@);
    lemma_lookup_absent(s2, "additional_allowed_characters"@);
    lemma_lookup_at(s3, 0);
    lemma_lookup_absent(s3, "max_length"@);
    lemma_lookup_absent(s3, "min_length"@);
    lemma_lookup_absent(s3, "allow_unicode_alphanumeric"@);
    lemma_lookup_absent(s3, "allow_leading_trailing_whitespace"@);
    lemma_lookup_absent(s3, "allowed_symbols"@);
    lemma_lookup_absent(s3, "additional_allowed_characters"@);
    lemma_lookup_at(s4, 0);
    lemma_lookup_absent(s4, "max_length"@);
    lemma_lookup_absent(s4, "min_length"@);
    lemma_lookup_absent(s4, "allow_unicode_alphanumeric"@);
    lemma_lookup_absent(s4, "allow_spaces"@);
    lemma_lookup_absent(s4, "allowed_symbols"@);
    lemma_lookup_absent(s4, "additional_allowed_characters"@);
    lemma_lookup_at(s5, 0);
    lemma_lookup_absent(s5, "max_length"@);
    lemma_lookup_absent(s5, "min_length"@);
    lemma_lookup_absent(s5, "allow_unicode_alphanumeric"@);
    lemma_lookup_absent(s5, "allow_spaces"@);
    lemma_lookup_absent(s5, "allow_leading_trailing_whitespace"@);
    lemma_lookup_absent(s5, "additional_allowed_characters"@);
    match v.additional_allowed_characters {
        Some(_) => {
            lemma_lookup_at(s6, 0);
            lemma_lookup_absent(s6, "max_length"@);
            lemma_lookup_absent(s6, "min_length"@);
            lemma_lookup_absent(s6, "allow_unicode_alphanumeric"@);
            lemma_lookup_absent(s6, "allow_spaces"@);
            lemma_lookup_absent(s6, "allow_leading_trailing_whitespace"@);
            lemma_lookup_absent(s6, "allowed_symbols"@);
        }
        None => {
            lemma_lookup_absent(s6, "max_length"@);
            lemma_lookup_absent(s6, "min_length"@);
            lemma_lookup_absent(s6, "allow_unicode_alphanumeric"@);
            lemma_lookup_absent(s6, "allow_spaces"@);
            lemma_lookup_absent(s6, "allow_leading_trailing_whitespace"@);
            lemma_lookup_absent(s6, "allowed_symbols"@);
            lemma_lookup_absent(s6, "additional_allowed_characters"@);
        }
    }
    let p1 = s0 + s1;
    let p2 = p1 + s2;
    let p3 = p2 + s3;
    let p4 = p3 + s4;
    let p5 = p4 + s5;
    let p6 = p5 + s6;
    lemma_lookup_append(s0, s1, "max_length"@);
    lemma_lookup_append(p1, s2, "max_length"@);
    lemma_lookup_append(p2, s3, "max_length"@);
    lemma_lookup_append(p3, s4, "max_length"@);
    lemma_lookup_append(p4, s5, "max_length"@);
    lemma_lookup_append(p5, s6, "max_length"@);
    lemma_lookup_append(s0, s1, "min_length"@);
    lemma_lookup_append(p1, s2, "min_length"@);
    lemma_lookup_append(p2, s3, "min_length"@);
    lemma_lookup_append(p3, s4, "min_length"@);
    lemma_lookup_append(p4, s5, "min_length"@);
    lemma_lookup_append(p5, s6, "min_length"@);
    lemma_lookup_append(s0, s1, "allow_unicode_alphanumeric"@);
    lemma_lookup_append(p1, s2, "allow_unicode_alphanumeric"@);
    lemma_lookup_append(p2, s3, "allow_unicode_alphanumeric"@);
    lemma_lookup_append(p3, s4, "allow_unicode_alphanumeric"@);
    lemma_lookup_append(p4, s5, "allow_unicode_alphanumeric"@);
    lemma_lookup_append(p5, s6, "allow_unicode_alphanumeric"@);
    lemma_lookup_append(s0, s1, "allow_spaces"@);
    lemma_lookup_append(p1, s2, "allow_spaces"@);
    lemma_lookup_append(p2, s3, "allow_spaces"@);
    lemma_lookup_append(p3, s4, "allow_spaces"@);
    lemma_lookup_append(p4, s5, "allow_spaces"@);
    lemma_lookup_append(p5, s6, "allow_spaces"@);
    lemma_lookup_append(s0, s1, "allow_leading_trailing_whitespace"@);
    lemma_lookup_append(p1, s2, "allow_leading_trailing_whitespace"@);
    lemma_lookup_append(p2, s3, "allow_leading_trailing_whitespace"@);
    lemma_lookup_append(p3, s4, "allow_leading_trailing_whitespace"@);
    lemma_lookup_append(p4, s5, "allow_leading_trailing_whitespace"@);
    lemma_lookup_append(p5, s6, "allow_leading_trailing_whitespace"@);
    lemma_lookup_append(s0, s1, "allowed_symbols"@);
    lemma_lookup_append(p1, s2, "allowed_symbols"@);
    lemma_lookup_append(p2, s3, "allowed_symbols"@);
    lemma_lookup_append(p3, s4, "allowed_symbols"@);
    lemma_lookup_append(p4, s5, "allowed_symbols"@);
    lemma_lookup_append(p5, s6, "allowed_symbols"@);
    lemma_lookup_append(s0, s1, "additional_allowed_characters"@);
    lemma_lookup_append(p1, s2, "additional_allowed_characters"@);
    lemma_lookup_append(p2, s3, "additional_allowed_characters"@);
    lemma_lookup_append(p3, s4, "additional_allowed_characters"@);
    lemma_lookup_append(p4, s5, "additional_allowed_characters"@);
    lemma_lookup_append(p5, s6, "additional_allowed_characters"@);
    lemma_arr_ch_round_trip(v.allowed_symbols@, v.allowed_symbols@);
    assert(rules_decodable(rules_jv(v)));
    if rules_matches(rules_jv(v), v2) {
        lemma_arr_ch_round_trip(v.allowed_symbols@, v2.allowed_symbols@);
        assert(rules_members(v2) =~~= rules_members(v));
        assert(rules_jv(v2) == rules_jv(v));
    }
}

/// Describes negotiated protocol capabilities for a specific SDK.
#[derive(Debug)]
pub struct ProtocolInfoPayload {
    pub platform: Option<String>,
    pub sdk_version: Option<String>,
    pub minimum_version: Option<String>,
    pub recommended_version: Option<String>,
    pub capabilities: Vec<String>,
    pub notes: Option<String>,
    pub game_data_formats: Vec<GameDataEncoding>,
    pub player_name_rules: Option<PlayerNameRulesPayload>,
}

/// The members a `ProtocolInfoPayload` is written with.
pub open spec fn proto_members(v: ProtocolInfoPayload) -> Seq<(Seq<char>, JsonV)> {
    (match v.platform { Some(x) => seq![("platform"@, JsonV::Str(x@))], None => Seq::empty() })
        + (match v.sdk_version { Some(x) => seq![("sdk_version"@, JsonV::Str(x@))], None => Seq::empty() })
        + (match v.minimum_version { Some(x) => seq![("minimum_version"@, JsonV::Str(x@))], None => Seq::empty() })
        + (match v.recommended_version { Some(x) => seq![("recommended_version"@, JsonV::Str(x@))], None => Seq::empty() })
        + seq![("capabilities"@, JsonV::Arr(strs_jv(v.capabilities@)))]
        + (match v.notes { Some(x) => seq![("notes"@, JsonV::Str(x@))], None => Seq::empty() })
        + seq![("game_data_formats"@, JsonV::Arr(gdes_jv(v.game_data_formats@)))]
        + (match v.player_name_rules { Some(x) => seq![("player_name_rules"@, rules_jv(x))], None => Seq::empty() })
}

/// The tree a `ProtocolInfoPayload` is written as.
pub open spec fn proto_jv(v: ProtocolInfoPayload) -> JsonV {
    JsonV::Obj(proto_members(v))
}

/// Which trees decode as a `ProtocolInfoPayload`.
pub open spec fn proto_decodable(j: JsonV) -> bool {
    match j {
        JsonV::Obj(o) => {
            &&& (sf_absent(o, "platform"@) || (sf_str_ok(o, "platform"@)))
            &&& (sf_absent(o, "sdk_version"@) || (sf_str_ok(o, "sdk_version"@)))
            &&& (sf_absent(o, "minimum_version"@) || (sf_str_ok(o, "minimum_version"@)))
            &&& (sf_absent(o, "recommended_version"@) || (sf_str_ok(o, "recommended_version"@)))
            &&& (sf_absent(o, "capabilities"@) || (lookup(o, "capabilities"@) matches Some(x) && arr_str_decodable(x)))
            &&& (sf_absent(o, "notes"@) || (sf_str_ok(o, "notes"@)))
            &&& (sf_absent(o, "game_data_formats"@) || (lookup(o, "game_data_formats"@) matches Some(x) && arr_gde_decodable(x)))
            &&& (sf_absent(o, "player_name_rules"@) || (lookup(o, "player_name_rules"@) matches Some(x) && rules_decodable(x)))
        }
        _ => false,
    }
}

/// What the decoded `ProtocolInfoPayload` holds, member by member.
pub open spec fn proto_matches(j: JsonV, v: ProtocolInfoPayload) -> bool {
    match j {
        JsonV::Obj(o) => {
            &&& (if sf_absent(o, "platform"@) { v.platform is None } else { v.platform matches Some(vv) && (vv@ == sf_str(o, "platform"@)) })
            &&& (if sf_absent(o, "sdk_version"@) { v.sdk_version is None } else { v.sdk_version matches Some(vv) && (vv@ == sf_str(o, "sdk_version"@)) })
            &&& (if sf_absent(o, "minimum_version"@) { v.minimum_version is None } else { v.minimum_version matches Some(vv) && (vv@ == sf_str(o, "minimum_version"@)) })
            &&& (if sf_absent(o, "recommended_version"@) { v.recommended_version is None } else { v.recommended_version matches Some(vv) && (vv@ == sf_str(o, "recommended_version"@)) })
            &&& (if sf_absent(o, "capabilities"@) { v.capabilities@.len() == 0 } else { (lookup(o, "capabilities"@) matches Some(x) && arr_str_matches(x, v.capabilities@)) })
            &&& (if sf_absent(o, "notes"@) { v.notes is None } else { v.notes matches Some(vv) && (vv@ == sf_str(o, "notes"@)) })
            &&& (if sf_absent(o, "game_data_formats"@) { v.game_data_formats@.len() == 0 } else { (lookup(o, "game_data_formats"@) matches Some(x) && arr_gde_matches(x, v.game_data_formats@)) })
            &&& (if sf_absent(o, "player_name_rules"@) { v.player_name_rules is None } else { v.player_name_rules matches Some(vv) && (lookup(o, "player_name_rules"@) matches Some(x) && rules_matches(x, vv)) })
        }
        _ => false,
    }
}

/// Writes a `ProtocolInfoPayload` as its tree, exactly as `proto_jv` gives it.
#[verifier::rlimit(100)]
pub fn proto_to_json(v: &ProtocolInfoPayload) -> (j: Json)
    requires
        proto_wf((*v)),
    ensures
        j@ == proto_jv(*v),
{
    let mut fields: Vec<(String, Json)> = Vec::new();
    proof {
        assert(dv_fields(fields@) =~= Seq::<(Seq<char>, JsonV)>::empty());
    }
    match &v.platform { Some(x) => { push_member(&mut fields, "platform", Json::Str((x).clone())); } None => {} }
    match &v.sdk_version { Some(x) => { push_member(&mut fields, "sdk_version", Json::Str((x).clone())); } None => {} }
    match &v.minimum_version { Some(x) => { push_member(&mut fields, "minimum_version", Json::Str((x).clone())); } None => {} }
    match &v.recommended_version { Some(x) => { push_member(&mut fields, "recommended_version", Json::Str((x).clone())); } None => {} }
    push_member(&mut fields, "capabilities", strs_to_json(&v.capabilities));
    match &v.notes { Some(x) => { push_member(&mut fields, "notes", Json::Str((x).clone())); } None => {} }
    push_member(&mut fields, "game_data_formats", gdes_to_json(&v.game_data_formats));
    match &v.player_name_rules { Some(x) => { push_member(&mut fields, "player_name_rules", rules_to_json(x)); } None => {} }
    proof {
        assert(dv_fields(fields@) =~= proto_members(*v));
    }
    Json::Obj(fields)
}

/// Reads a `ProtocolInfoPayload` from a tree, exactly when `proto_decodable`, the
/// members as `proto_matches` pins them.
pub fn proto_from_json(j: &Json) -> (r: Option<ProtocolInfoPayload>)
    ensures
        match r {
            Some(v) => proto_matches(j@, v) && proto_wf(v),
            None => !proto_decodable(j@),
        },
        r is Some <==> proto_decodable(j@),
{
    let fields = match j {
        Json::Obj(fields) => fields,
        _ => {
            return None;
        }
    };
    let f_platform = match get_opt_str(fields, "platform") { Some(x) => x, None => { return None; } };
    let f_sdk_version = match get_opt_str(fields, "sdk_version") { Some(x) => x, None => { return None; } };
    let f_minimum_version = match get_opt_str(fields, "minimum_version") { Some(x) => x, None => { return None; } };
    let f_recommended_version = match get_opt_str(fields, "recommended_version") { Some(x) => x, None => { return None; } };
    let f_capabilities = match get_field(fields, "capabilities") {
        Some(aj) => match aj {
            Json::Null => Vec::new(),
            _ => match strs_from_json(aj) { Some(x) => x, None => { return None; } },
        },
        None => Vec::new(),
    };
    let f_notes = match get_opt_str(fields, "notes") { Some(x) => x, None => { return None; } };
    let f_game_data_formats = match get_field(fields, "game_data_formats") {
        Some(aj) => match aj {
            Json::Null => Vec::new(),
            _ => match gdes_from_json(aj) { Some(x) => x, None => { return None; } },
        },
        None => Vec::new(),
    };
    let f_player_name_rules = match get_field(fields, "player_name_rules") {
        Some(cj) => match cj {
            Json::Null => None,
            _ => {
                proof { lemma_dv_variant(*cj); }
                match rules_from_json(cj) { Some(c) => Some(c), None => { return None; } }
            }
        },
        None => None,
    };
    Some(ProtocolInfoPayload {
        platform: f_platform,
        sdk_version: f_sdk_version,
        minimum_version: f_minimum_version,
        recommended_version: f_recommended_version,
        capabilities: f_capabilities,
        notes: f_notes,
        game_data_formats: f_game_data_formats,
        player_name_rules: f_player_name_rules,
    })
}

/// Round trip: the canonical tree of a `ProtocolInfoPayload` decodes, and any value
/// its members pin re-encodes to the same tree.
pub proof fn lemma_proto_round_trip(v: ProtocolInfoPayload, v2: ProtocolInfoPayload)
    requires
        proto_wf(v),
    ensures
        proto_decodable(proto_jv(v)),
        proto_matches(proto_jv(v), v2) ==> proto_jv(v2) == proto_jv(v),
{
    reveal_strlit("capabilities");
    reveal_strlit("game_data_formats");
    reveal_strlit("minimum_version");
    reveal_strlit("notes");
    reveal_strlit("platform");
    reveal_strlit("player_name_rules");
    reveal_strlit("recommended_version");
    reveal_strlit("sdk_version");
    assert("capabilities"@.len() == 12);
    assert("game_data_formats"@.len() == 17);
    assert("minimum_version"@.len() == 15);
    assert("notes"@.len() == 5);
    assert("platform"@.len() == 8);
    assert("player_name_rules"@.len() == 17);
    assert("recommended_version"@.len() == 19);
    assert("sdk_version"@.len() == 11);
    assert("game_data_formats"@[0] == 'g');
    assert("player_name_rules"@[0] == 'p');
    let s0 = (match v.platform { Some(x) => seq![("platform"@, JsonV::Str(x@))], None => Seq::empty() });
    let s1 = (match v.sdk_version { Some(x) => seq![("sdk_version"@, JsonV::Str(x@))], None => Seq::empty() });
    let s2 = (match v.minimum_version { Some(x) => seq![("minimum_version"@, JsonV::Str(x@))], None => Seq::empty() });
    let s3 = (match v.recommended_version { Some(x) => seq![("recommended_version"@, JsonV::Str(x@))], None => Seq::empty() });
    let s4 = seq![("capabilities"@, JsonV::Arr(strs_jv(v.capabilities@)))];
    let s5 = (match v.notes { Some(x) => seq![("notes"@, JsonV::Str(x@))], None => Seq::empty() });
    let s6 = seq![("game_data_formats"@, JsonV::Arr(gdes_jv(v.game_data_formats@)))];
    let s7 = (match v.player_name_rules { Some(x) => seq![("player_name_rules"@, rules_jv(x))], None => Seq::empty() });
    match v.platform {
        Some(_) => {
            lemma_lookup_at(s0, 0);
            lemma_lookup_absent(s0, "sdk_version"@);
            lemma_lookup_absent(s0, "minimum_version"@);
            lemma_lookup_absent(s0, "recommended_version"@);
            lemma_lookup_absent(s0, "capabilities"@);
            lemma_lookup_absent(s0, "notes"@);
            lemma_lookup_absent(s0, "game_data_formats"@);
            lemma_lookup_absent(s0, "player_name_rules"@);
        }
        None => {
            lemma_lookup_absent(s0, "platform"@);
            lemma_lookup_absent(s0, "sdk_version"@);
            lemma_lookup_absent(s0, "minimum_version"@);
            lemma_lookup_absent(s0, "recommended_version"@);
            lemma_lookup_absent(s0, "capabilities"@);
            lemma_lookup_absent(s0, "notes"@);
            lemma_lookup_absent(s0, "game_data_formats"@);
            lemma_lookup_absent(s0, "player_name_rules"@);
        }
    }
    match v.sdk_version {
        Some(_) => {
            lemma_lookup_at(s1, 0);
            lemma_lookup_absent(s1, "platform"@);
            lemma_lookup_absent(s1, "minimum_version"@);
            lemma_lookup_absent(s1, "recommended_version"@);
            lemma_lookup_absent(s1, "capabilities"@);
            lemma_lookup_absent(s1, "notes"@);
            lemma_lookup_absent(s1, "game_data_formats"@);
            lemma_lookup_absent(s1, "player_name_rules"@);
        }
        None => {
            lemma_lookup_absent(s1, "platform"@);
            lemma_lookup_absent(s1, "sdk_version"@);
            lemma_lookup_absent(s1, "minimum_version"@);
            lemma_lookup_absent(s1, "recommended_version"@);
            lemma_lookup_absent(s1, "capabilities"@);
            lemma_lookup_absent(s1, "notes"@);
            lemma_lookup_absent(s1, "game_data_formats"@);
            lemma_lookup_absent(s1, "player_name_rules"@);
        }
    }
    match v.minimum_version {
        Some(_) => {
            lemma_lookup_at(s2, 0);
            lemma_lookup_absent(s2, "platform"@);
            lemma_lookup_absent(s2, "sdk_version"@);
            lemma_lookup_absent(s2, "recommended_version"@);
            lemma_lookup_absent(s2, "capabilities"@);
            lemma_lookup_absent(s2, "notes"@);
            lemma_lookup_absent(s2, "game_data_formats"@);
            lemma_lookup_absent(s2, "player_name_rules"@);
        }
        None => {
            lemma_lookup_absent(s2, "platform"@);
            lemma_lookup_absent(s2, "sdk_version"@);
            lemma_lookup_absent(s2, "minimum_version"@);
            lemma_lookup_absent(s2, "recommended_version"@);
            lemma_lookup_absent(s2, "capabilities"@);
            lemma_lookup_absent(s2, "notes"@);
            lemma_lookup_absent(s2, "game_data_formats"@);
            lemma_lookup_absent(s2, "player_name_rules"@);
        }
    }
    match v.recommended_version {
        Some(_) => {
            lemma_lookup_at(s3, 0);
            lemma_lookup_absent(s3, "platform"@);
            lemma_lookup_absent(s3, "sdk_version"@);
            lemma_lookup_absent(s3, "minimum_version"@);
            lemma_lookup_absent(s3, "capabilities"@);
            lemma_lookup_absent(s3, "notes"@);
            lemma_lookup_absent(s3, "game_data_formats"@);
            lemma_lookup_absent(s3, "player_name_rules"@);
        }
        None => {
            lemma_lookup_absent(s3, "platform"@);
            lemma_lookup_absent(s3, "sdk_version"@);
            lemma_lookup_absent(s3, "minimum_version"@);
            lemma_lookup_absent(s3, "recommended_version"@);
            lemma_lookup_absent(s3, "capabilities"@);
            lemma_lookup_absent(s3, "notes"@);
            lemma_lookup_absent(s3, "game_data_formats"@);
            lemma_lookup_absent(s3, "player_name_rules"@);
        }
    }
    lemma_lookup_at(s4, 0);
    lemma_lookup_absent(s4, "platform"@);
    lemma_lookup_absent(s4, "sdk_version"@);
    lemma_lookup_absent(s4, "minimum_version"@);
    lemma_lookup_absent(s4, "recommended_version"@);
    lemma_lookup_absent(s4, "notes"@);
    lemma_lookup_absent(s4, "game_data_formats"@);
    lemma_lookup_absent(s4, "player_name_rules"@);
    match v.notes {
        Some(_) => {
            lemma_lookup_at(s5, 0);
            lemma_lookup_absent(s5, "platform"@);
            lemma_lookup_absent(s5, "sdk_version"@);
            lemma_lookup_absent(s5, "minimum_version"@);
            lemma_lookup_absent(s5, "recommended_version"@);
            lemma_lookup_absent(s5, "capabilities"@);
            lemma_lookup_absent(s5, "game_data_formats"@);
            lemma_lookup_absent(s5, "player_name_rules"@);
        }
        None => {
            lemma_lookup_absent(s5, "platform"@);
            lemma_lookup_absent(s5, "sdk_version"@);
            lemma_lookup_absent(s5, "minimum_version"@);
            lemma_lookup_absent(s5, "recommended_version"@);
            lemma_lookup_absent(s5, "capabilities"@);
            lemma_lookup_absent(s5, "notes"@);
            lemma_lookup_absent(s5, "game_data_formats"@);
            lemma_lookup_absent(s5, "player_name_rules"@);
        }
    }
    lemma_lookup_at(s6, 0);
    lemma_lookup_absent(s6, "platform"@);
    lemma_lookup_absent(s6, "sdk_version"@);
    lemma_lookup_absent(s6, "minimum_version"@);
    lemma_lookup_absent(s6, "recommended_version"@);
    lemma_lookup_absent(s6, "capabilities"@);
    lemma_lookup_absent(s6, "notes"@);
    lemma_lookup_absent(s6, "player_name_rules"@);
    match v.player_name_rules {
        Some(_) => {
            lemma_lookup_at(s7, 0);
            lemma_lookup_absent(s7, "platform"@);
            lemma_lookup_absent(s7, "sdk_version"@);
            lemma_lookup_absent(s7, "minimum_version"@);
            lemma_lookup_absent(s7, "recommended_version"@);
            lemma_lookup_absent(s7, "capabilities"@);
            lemma_lookup_absent(s7, "notes"@);
            lemma_lookup_absent(s7, "game_data_formats"@);
        }
        None => {
            lemma_lookup_absent(s7, "platform"@);
            lemma_lookup_absent(s7, "sdk_version"@);
            lemma_lookup_absent(s7, "minimum_version"@);
            lemma_lookup_absent(s7, "recommended_version"@);
            lemma_lookup_absent(s7, "capabilities"@);
            lemma_lookup_absent(s7, "notes"@);
            lemma_lookup_absent(s7, "game_data_formats"@);
            lemma_lookup_absent(s7, "player_name_rules"@);
        }
    }
    let p1 = s0 + s1;
    let p2 = p1 + s2;
    let p3 = p2 + s3;
    let p4 = p3 + s4;
    let p5 = p4 + s5;
    let p6 = p5 + s6;
    let p7 = p6 + s7;
    lemma_lookup_append(s0, s1, "platform"@);
    lemma_lookup_append(p1, s2, "platform"@);
    lemma_lookup_append(p2, s3, "platform"@);
    lemma_lookup_append(p3, s4, "platform"@);
    lemma_lookup_append(p4, s5, "platform"@);
    lemma_lookup_append(p5, s6, "platform"@);
    lemma_lookup_append(p6, s7, "platform"@);
    lemma_lookup_append(s0, s1, "sdk_version"@);
    lemma_lookup_append(p1, s2, "sdk_version"@);
    lemma_lookup_append(p2, s3, "sdk_version"@);
    lemma_lookup_append(p3, s4, "sdk_version"@);
    lemma_lookup_append(p4, s5, "sdk_version"@);
    lemma_lookup_append(p5, s6, "sdk_version"@);
    lemma_lookup_append(p6, s7, "sdk_version"@);
    lemma_lookup_append(s0, s1, "minimum_version"@);
    lemma_lookup_append(p1, s2, "minimum_version"@);
    lemma_lookup_append(p2, s3, "minimum_version"@);
    lemma_lookup_append(p3, s4, "minimum_version"@);
    lemma_lookup_append(p4, s5, "minimum_version"@);
    lemma_lookup_append(p5, s6, "minimum_version"@);
    lemma_lookup_append(p6, s7, "minimum_version"@);
    lemma_lookup_append(s0, s1, "recommended_version"@);
    lemma_lookup_append(p1, s2, "recommended_version"@);
    lemma_lookup_append(p2, s3, "recommended_version"@);
    lemma_lookup_append(p3, s4, "recommended_version"@);
    lemma_lookup_append(p4, s5, "recommended_version"@);
    lemma_lookup_append(p5, s6, "recommended_version"@);
    lemma_lookup_append(p6, s7, "recommended_version"@);
    lemma_lookup_append(s0, s1, "capabilities"@);
    lemma_lookup_append(p1, s2, "capabilities"@);
    lemma_lookup_append(p2, s3, "capabilities"@);
    lemma_lookup_append(p3, s4, "capabilities"@);
    lemma_lookup_append(p4, s5, "capabilities"@);
    lemma_lookup_append(p5, s6, "capabilities"@);
    lemma_lookup_append(p6, s7, "capabilities"@);
    lemma_lookup_append(s0, s1, "notes"@);
    lemma_lookup_append(p1, s2, "notes"@);
    lemma_lookup_append(p2, s3, "notes"@);
    lemma_lookup_append(p3, s4, "notes"@);
    lemma_lookup_append(p4, s5, "notes"@);
    lemma_lookup_append(p5, s6, "notes"@);
    lemma_lookup_append(p6, s7, "notes"@);
    lemma_lookup_append(s0, s1, "game_data_formats"@);
    lemma_lookup_append(p1, s2, "game_data_formats"@);
    lemma_lookup_append(p2, s3, "game_data_formats"@);
    lemma_lookup_append(p3, s4, "game_data_formats"@);
    lemma_lookup_append(p4, s5, "game_data_formats"@);
    lemma_lookup_append(p5, s6, "game_data_formats"@);
    lemma_lookup_append(p6, s7, "game_data_formats"@);
    lemma_lookup_append(s0, s1, "player_name_rules"@);
    lemma_lookup_append(p1, s2, "player_name_rules"@);
    lemma_lookup_append(p2, s3, "player_name_rules"@);
    lemma_lookup_append(p3, s4, "player_name_rules"@);
    lemma_lookup_append(p4, s5, "player_name_rules"@);
    lemma_lookup_append(p5, s6, "player_name_rules"@);
    lemma_lookup_append(p6, s7, "player_name_rules"@);
    lemma_arr_str_round_trip(v.capabilities@, v.capabilities@);
    lemma_arr_gde_round_trip(v.game_data_formats@, v.game_data_formats@);
    match v.player_name_rules { Some(x) => { lemma_rules_round_trip(x, x); } None => {} }
    assert(proto_decodable(proto_jv(v)));
    if proto_matches(proto_jv(v), v2) {
        lemma_arr_str_round_trip(v.capabilities@, v2.capabilities@);
        lemma_arr_gde_round_trip(v.game_data_formats@, v2.game_data_formats@);
        match (v.player_name_rules, v2.player_name_rules) { (Some(x), Some(x2)) => { lemma_rules_round_trip(x, x2); } _ => {} }
        assert(proto_members(v2) =~~= proto_members(v));
        assert(proto_jv(v2) == proto_jv(v));
    }
}


/// The trees of a sequence, element-wise.
pub open spec fn pis_jv(v: Seq<PlayerInfo>) -> Seq<JsonV> {
    Seq::new(v.len(), |i: int| pi_jv(v[i]))
}

/// Every element of the array tree decodes.
pub open spec fn arr_pi_decodable(j: JsonV) -> bool {
    j matches JsonV::Arr(a) && (forall|x: int|
        0 <= x < a.len() ==> pi_decodable(#[trigger] a[x]))
}

/// The elements read one-for-one from the array tree.
pub open spec fn arr_pi_matches(j: JsonV, v: Seq<PlayerInfo>) -> bool {
    j matches JsonV::Arr(a) && a.len() == v.len() && (forall|x: int|
        0 <= x < a.len() ==> pi_matches(#[trigger] a[x], v[x]))
}

fn pis_to_json(v: &Vec<PlayerInfo>) -> (j: Json)
    ensures
        j@ == JsonV::Arr(pis_jv(v@)),
{
    let mut items: Vec<Json> = Vec::new();
    let n = v.len();
    let mut i: usize = 0;
    while i < n
        invariant
            i <= n,
            n == v@.len(),
            dv_seq(items@) =~= pis_jv(v@).take(i as int),
        decreases n - i,
    {
        let ghost pre_items = items@;
        let item = pi_to_json(&v[i]);
        proof {
            crate::json::lemma_dv_seq_push(pre_items, item);
        }
        items.push(item);
        i = i + 1;
        proof {
            assert(dv_seq(items@) =~= pis_jv(v@).take(i as int));
        }
    }
    proof {
        assert(pis_jv(v@).take(n as int) =~= pis_jv(v@));
    }
    Json::Arr(items)
}

fn pis_from_json(j: &Json) -> (r: Option<Vec<PlayerInfo>>)
    ensures
        match r {
            Some(v) => arr_pi_matches(j@, v@),
            None => !arr_pi_decodable(j@),
        },
        r is Some <==> arr_pi_decodable(j@),
{
    match j {
        Json::Arr(items) => {
            let ghost a = dv_seq(items@);
            proof {
                lemma_dv_seq(items@);
            }
            let mut out: Vec<PlayerInfo> = Vec::new();
            let n = items.len();
            let mut i: usize = 0;
            while i < n
                invariant
                    i <= n,
                    n == items@.len(),
                    j@ == JsonV::Arr(a),
                    a == dv_seq(items@),
                    a.len() == n,
                    forall|x: int| 0 <= x < n ==> #[trigger] a[x] == items@[x].dv(),
                    out@.len() == i,
                    forall|x: int| 0 <= x < i ==> pi_matches(#[trigger] a[x], out@[x]),
                    forall|x: int| 0 <= x < i ==> pi_decodable(#[trigger] a[x]),
                decreases n - i,
            {
                let item = &items[i];
                proof {
                    assert(item@ == a[i as int]);
                }
                match pi_from_json(item) {
                    Some(e) => {
                        out.push(e);
                    }
                    None => {
                        proof {
                            assert(!arr_pi_decodable(JsonV::Arr(a))) by {
                                if arr_pi_decodable(JsonV::Arr(a)) {
                                    let aa = JsonV::Arr(a)->Arr_0;
                                    assert(aa == a);
                                    assert(pi_decodable(aa[i as int]));
                                }
                            }
                        }
                        return None;
                    }
                }
                i = i + 1;
            }
            Some(out)
        }
        _ => None,
    }
}

/// Round trip for the whole array.
pub proof fn lemma_arr_pi_round_trip(v: Seq<PlayerInfo>, v2: Seq<PlayerInfo>)
    ensures
        arr_pi_decodable(JsonV::Arr(pis_jv(v))),
        arr_pi_matches(JsonV::Arr(pis_jv(v)), v2) ==> pis_jv(v2) == pis_jv(v),
{
    let aa = JsonV::Arr(pis_jv(v))->Arr_0;
    assert(aa == pis_jv(v));
    assert forall|x: int| 0 <= x < aa.len() implies pi_decodable(#[trigger] aa[x]) by {
        lemma_pi_round_trip(v[x], v[x]);
    }
    if arr_pi_matches(JsonV::Arr(pis_jv(v)), v2) {
        assert forall|x: int| 0 <= x < v.len() implies pis_jv(v2)[x] == pis_jv(v)[x] by {
            assert(pi_matches(aa[x], v2[x]));
            lemma_pi_round_trip(v[x], v2[x]);
        }
        assert(pis_jv(v2) =~= pis_jv(v));
    }
}

/// The trees of a sequence, element-wise.
pub open spec fn sis_jv(v: Seq<SpectatorInfo>) -> Seq<JsonV> {
    Seq::new(v.len(), |i: int| si_jv(v[i]))
}

/// Every element of the array tree decodes.
pub open spec fn arr_si_decodable(j: JsonV) -> bool {
    j matches JsonV::Arr(a) && (forall|x: int|
        0 <= x < a.len() ==> si_decodable(#[trigger] a[x]))
}

/// The elements read one-for-one from the array tree.
pub open spec fn arr_si_matches(j: JsonV, v: Seq<SpectatorInfo>) -> bool {
    j matches JsonV::Arr(a) && a.len() == v.len() && (forall|x: int|
        0 <= x < a.len() ==> si_matches(#[trigger] a[x], v[x]))
}

fn sis_to_json(v: &Vec<SpectatorInfo>) -> (j: Json)
    ensures
        j@ == JsonV::Arr(sis_jv(v@)),
{
    let mut items: Vec<Json> = Vec::new();
    let n = v.len();
    let mut i: usize = 0;
    while i < n
        invariant
            i <= n,
            n == v@.len(),
            dv_seq(items@) =~= sis_jv(v@).take(i as int),
        decreases n - i,
    {
        let ghost pre_items = items@;
        let item = si_to_json(&v[i]);
        proof {
            crate::json::lemma_dv_seq_push(pre_items, item);
        }
        items.push(item);
        i = i + 1;
        proof {
            assert(dv_seq(items@) =~= sis_jv(v@).take(i as int));
        }
    }
    proof {
        assert(sis_jv(v@).take(n as int) =~= sis_jv(v@));
    }
    Json::Arr(items)
}

fn sis_from_json(j: &Json) -> (r: Option<Vec<SpectatorInfo>>)
    ensures
        match r {
            Some(v) => arr_si_matches(j@, v@),
            None => !arr_si_decodable(j@),
        },
        r is Some <==> arr_si_decodable(j@),
{
    match j {
        Json::Arr(items) => {
            let ghost a = dv_seq(items@);
            proof {
                lemma_dv_seq(items@);
            }
            let mut out: Vec<SpectatorInfo> = Vec::new();
            let n = items.len();
            let mut i: usize = 0;
            while i < n
                invariant
                    i <= n,
                    n == items@.len(),
                    j@ == JsonV::Arr(a),
                    a == dv_seq(items@),
                    a.len() == n,
                    forall|x: int| 0 <= x < n ==> #[trigger] a[x] == items@[x].dv(),
                    out@.len() == i,
                    forall|x: int| 0 <= x < i ==> si_matches(#[trigger] a[x], out@[x]),
                    forall|x: int| 0 <= x < i ==> si_decodable(#[trigger] a[x]),
                decreases n - i,
            {
                let item = &items[i];
                proof {
                    assert(item@ == a[i as int]);
                }
                match si_from_json(item) {
                    Some(e) => {
                        out.push(e);
                    }
                    None => {
                        proof {
                            assert(!arr_si_decodable(JsonV::Arr(a))) by {
                                if arr_si_decodable(JsonV::Arr(a)) {
                                    let aa = JsonV::Arr(a)->Arr_0;
                                    assert(aa == a);
                                    assert(si_decodable(aa[i as int]));
                                }
                            }
                        }
                        return None;
                    }
                }
                i = i + 1;
            }
            Some(out)
        }
        _ => None,
    }
}

/// Round trip for the whole array.
pub proof fn lemma_arr_si_round_trip(v: Seq<SpectatorInfo>, v2: Seq<SpectatorInfo>)
    ensures
        arr_si_decodable(JsonV::Arr(sis_jv(v))),
        arr_si_matches(JsonV::Arr(sis_jv(v)), v2) ==> sis_jv(v2) == sis_jv(v),
{
    let aa = JsonV::Arr(sis_jv(v))->Arr_0;
    assert(aa == sis_jv(v));
    assert forall|x: int| 0 <= x < aa.len() implies si_decodable(#[trigger] aa[x]) by {
        lemma_si_round_trip(v[x], v[x]);
    }
    if arr_si_matches(JsonV::Arr(sis_jv(v)), v2) {
        assert forall|x: int| 0 <= x < v.len() implies sis_jv(v2)[x] == sis_jv(v)[x] by {
            assert(si_matches(aa[x], v2[x]));
            lemma_si_round_trip(v[x], v2[x]);
        }
        assert(sis_jv(v2) =~= sis_jv(v));
    }
}

/// The trees of a sequence, element-wise.
pub open spec fn pcis_jv(v: Seq<PeerConnectionInfo>) -> Seq<JsonV> {
    Seq::new(v.len(), |i: int| pci_jv(v[i]))
}

/// Every element of the array tree decodes.
pub open spec fn arr_pci_decodable(j: JsonV) -> bool {
    j matches JsonV::Arr(a) && (forall|x: int|
        0 <= x < a.len() ==> pci_decodable(#[trigger] a[x]))
}

/// The elements read one-for-one from the array tree.
pub open spec fn arr_pci_matches(j: JsonV, v: Seq<PeerConnectionInfo>) -> bool {
    j matches JsonV::Arr(a) && a.len() == v.len() && (forall|x: int|
        0 <= x < a.len() ==> pci_matches(#[trigger] a[x], v[x]))
}

fn pcis_to_json(v: &Vec<PeerConnectionInfo>) -> (j: Json)
    ensures
        j@ == JsonV::Arr(pcis_jv(v@)),
{
    let mut items: Vec<Json> = Vec::new();
    let n = v.len();
    let mut i: usize = 0;
    while i < n
        invariant
            i <= n,
            n == v@.len(),
            dv_seq(items@) =~= pcis_jv(v@).take(i as int),
        decreases n - i,
    {
        let ghost pre_items = items@;
        let item = pci_to_json(&v[i]);
        proof {
            crate::json::lemma_dv_seq_push(pre_items, item);
        }
        items.push(item);
        i = i + 1;
        proof {
            assert(dv_seq(items@) =~= pcis_jv(v@).take(i as int));
        }
    }
    proof {
        assert(pcis_jv(v@).take(n as int) =~= pcis_jv(v@));
    }
    Json::Arr(items)
}

fn pcis_from_json(j: &Json) -> (r: Option<Vec<PeerConnectionInfo>>)
    ensures
        match r {
            Some(v) => arr_pci_matches(j@, v@),
            None => !arr_pci_decodable(j@),
        },
        r is Some <==> arr_pci_decodable(j@),
{
    match j {
        Json::Arr(items) => {
            let ghost a = dv_seq(items@);
            proof {
                lemma_dv_seq(items@);
            }
            let mut out: Vec<PeerConnectionInfo> = Vec::new();
            let n = items.len();
            let mut i: usize = 0;
            while i < n
                invariant
                    i <= n,
                    n == items@.len(),
                    j@ == JsonV::Arr(a),
                    a == dv_seq(items@),
                    a.len() == n,
                    forall|x: int| 0 <= x < n ==> #[trigger] a[x] == items@[x].dv(),
                    out@.len() == i,
                    forall|x: int| 0 <= x < i ==> pci_matches(#[trigger] a[x], out@[x]),
                    forall|x: int| 0 <= x < i ==> pci_decodable(#[trigger] a[x]),
                decreases n - i,
            {
                let item = &items[i];
                proof {
                    assert(item@ == a[i as int]);
                }
                match pci_from_json(item) {
                    Some(e) => {
                        out.push(e);
                    }
                    None => {
                        proof {
                            assert(!arr_pci_decodable(JsonV::Arr(a))) by {
                                if arr_pci_decodable(JsonV::Arr(a)) {
                                    let aa = JsonV::Arr(a)->Arr_0;
                                    assert(aa == a);
                                    assert(pci_decodable(aa[i as int]));
                                }
                            }
                        }
                        return None;
                    }
                }
                i = i + 1;
            }
            Some(out)
        }
        _ => None,
    }
}

/// Round trip for the whole array.
pub proof fn lemma_arr_pci_round_trip(v: Seq<PeerConnectionInfo>, v2: Seq<PeerConnectionInfo>)
    ensures
        arr_pci_decodable(JsonV::Arr(pcis_jv(v))),
        arr_pci_matches(JsonV::Arr(pcis_jv(v)), v2) ==> pcis_jv(v2) == pcis_jv(v),
{
    let aa = JsonV::Arr(pcis_jv(v))->Arr_0;
    assert(aa == pcis_jv(v));
    assert forall|x: int| 0 <= x < aa.len() implies pci_decodable(#[trigger] aa[x]) by {
        lemma_pci_round_trip(v[x], v[x]);
    }
    if arr_pci_matches(JsonV::Arr(pcis_jv(v)), v2) {
        assert forall|x: int| 0 <= x < v.len() implies pcis_jv(v2)[x] == pcis_jv(v)[x] by {
            assert(pci_matches(aa[x], v2[x]));
            lemma_pci_round_trip(v[x], v2[x]);
        }
        assert(pcis_jv(v2) =~= pcis_jv(v));
    }
}

// ── Message payloads ────────────────────────────────────────────────

/// Payload for the `RoomJoined` server message.
#[derive(Debug)]
pub struct RoomJoinedPayload {
    pub room_id: RoomId,
    pub room_code: String,
    pub player_id: PlayerId,
    pub game_name: String,
    pub max_players: u8,
    pub supports_authority: bool,
    pub current_players: Vec<PlayerInfo>,
    pub is_authority: bool,
    pub lobby_state: LobbyState,
    pub ready_players: Vec<PlayerId>,
    pub relay_type: String,
    pub current_spectators: Vec<SpectatorInfo>,
}

/// The members a `RoomJoinedPayload` is written with.
pub open spec fn rj_members(v: RoomJoinedPayload) -> Seq<(Seq<char>, JsonV)> {
    seq![("room_id"@, uid_jv(v.room_id))]
        + seq![("room_code"@, JsonV::Str(v.room_code@))]
        + seq![("player_id"@, uid_jv(v.player_id))]
        + seq![("game_name"@, JsonV::Str(v.game_name@))]
        + seq![("max_players"@, JsonV::Int(v.max_players as int))]
        + seq![("supports_authority"@, JsonV::Bool(v.supports_authority))]
        + seq![("current_players"@, JsonV::Arr(pis_jv(v.current_players@)))]
        + seq![("is_authority"@, JsonV::Bool(v.is_authority))]
        + seq![("lobby_state"@, JsonV::Str(ls_str(v.lobby_state)))]
        + seq![("ready_players"@, JsonV::Arr(uids_jv(v.ready_players@)))]
        + seq![("relay_type"@, JsonV::Str(v.relay_type@))]
        + seq![("current_spectators"@, JsonV::Arr(sis_jv(v.current_spectators@)))]
}

/// The tree a `RoomJoinedPayload` is written as.
pub open spec fn rj_jv(v: RoomJoinedPayload) -> JsonV {
    JsonV::Obj(rj_members(v))
}

/// Which trees decode as a `RoomJoinedPayload`.
pub open spec fn rj_decodable(j: JsonV) -> bool {
    match j {
        JsonV::Obj(o) => {
            &&& sf_str_ok(o, "room_id"@) && uid_of(sf_str(o, "room_id"@)) is Some
            &&& sf_str_ok(o, "room_code"@)
            &&& sf_str_ok(o, "player_id"@) && uid_of(sf_str(o, "player_id"@)) is Some
            &&& sf_str_ok(o, "game_name"@)
            &&& sf_int_ok(o, "max_players"@) && 0 <= sf_int(o, "max_players"@) <= 255
            &&& sf_bool_ok(o, "supports_authority"@)
            &&& (lookup(o, "current_players"@) matches Some(x) && arr_pi_decodable(x))
            &&& sf_bool_ok(o, "is_authority"@)
            &&& sf_str_ok(o, "lobby_state"@) && ls_of(sf_str(o, "lobby_state"@)) is Some
            &&& (lookup(o, "ready_players"@) matches Some(x) && arr_uid_decodable(x))
            &&& sf_str_ok(o, "relay_type"@)
            &&& (sf_absent(o, "current_spectators"@) || (lookup(o, "current_spectators"@) matches Some(x) && arr_si_decodable(x)))
        }
        _ => false,
    }
}

/// What the decoded `RoomJoinedPayload` holds, member by member.
pub open spec fn rj_matches(j: JsonV, v: RoomJoinedPayload) -> bool {
    match j {
        JsonV::Obj(o) => {
            &&& uid_of(sf_str(o, "room_id"@)) == Some(v.room_id.value as int)
            &&& v.room_code@ == sf_str(o, "room_code"@)
            &&& uid_of(sf_str(o, "player_id"@)) == Some(v.player_id.value as int)
            &&& v.game_name@ == sf_str(o, "game_name"@)
            &&& v.max_players as int == sf_int(o, "max_players"@)
            &&& v.supports_authority == sf_bool(o, "supports_authority"@)
            &&& (lookup(o, "current_players"@) matches Some(x) && arr_pi_matches(x, v.current_players@))
            &&& v.is_authority == sf_bool(o, "is_authority"@)
            &&& ls_of(sf_str(o, "lobby_state"@)) == Some(v.lobby_state)
            &&& (lookup(o, "ready_players"@) matches Some(x) && arr_uid_matches(x, v.ready_players@))
            &&& v.relay_type@ == sf_str(o, "relay_type"@)
            &&& (if sf_absent(o, "current_spectators"@) { v.current_spectators@.len() == 0 } else { (lookup(o, "current_spectators"@) matches Some(x) && arr_si_matches(x, v.current_spectators@)) })
        }
        _ => false,
    }
}

/// Writes a `RoomJoinedPayload` as its tree, exactly as `rj_jv` gives it.
pub fn rj_to_json(v: &RoomJoinedPayload) -> (j: Json)
    ensures
        j@ == rj_jv(*v),
{
    let mut fields: Vec<(String, Json)> = Vec::new();
    proof {
        assert(dv_fields(fields@) =~= Seq::<(Seq<char>, JsonV)>::empty());
    }
    push_member(&mut fields, "room_id", uid_to_json(&v.room_id));
    push_member(&mut fields, "room_code", Json::Str((&v.room_code).clone()));
    push_member(&mut fields, "player_id", uid_to_json(&v.player_id));
    push_member(&mut fields, "game_name", Json::Str((&v.game_name).clone()));
    push_member(&mut fields, "max_players", Json::Int(*&v.max_players as i64));
    push_member(&mut fields, "supports_authority", Json::Bool(*&v.supports_authority));
    push_member(&mut fields, "current_players", pis_to_json(&v.current_players));
    push_member(&mut fields, "is_authority", Json::Bool(*&v.is_authority));
    push_member(&mut fields, "lobby_state", Json::Str(String::from_str(&v.lobby_state.wire_text())));
    push_member(&mut fields, "ready_players", uids_to_json(&v.ready_players));
    push_member(&mut fields, "relay_type", Json::Str((&v.relay_type).clone()));
    push_member(&mut fields, "current_spectators", sis_to_json(&v.current_spectators));
    proof {
        assert(dv_fields(fields@) =~= rj_members(*v));
    }
    Json::Obj(fields)
}

/// Reads a `RoomJoinedPayload` from a tree, exactly when `rj_decodable`, the
/// members as `rj_matches` pins them.
pub fn rj_from_json(j: &Json) -> (r: Option<RoomJoinedPayload>)
    ensures
        match r {
            Some(v) => rj_matches(j@, v),
            None => !rj_decodable(j@),
        },
        r is Some <==> rj_decodable(j@),
{
    let fields = match j {
        Json::Obj(fields) => fields,
        _ => {
            return None;
        }
    };
    let f_room_id = match get_str(fields, "room_id") { Some(s) => match uid_from_text(s.as_str()) { Some(u) => u, None => { return None; } }, None => { return None; } };
    let f_room_code = match get_str(fields, "room_code") { Some(s) => s, None => { return None; } };
    let f_player_id = match get_str(fields, "player_id") { Some(s) => match uid_from_text(s.as_str()) { Some(u) => u, None => { return None; } }, None => { return None; } };
    let f_game_name = match get_str(fields, "game_name") { Some(s) => s, None => { return None; } };
    let f_max_players_i = match get_int(fields, "max_players") { Some(n) => n, None => { return None; } };
    if !(0 <= f_max_players_i && f_max_players_i <= 255) { return None; }
    let f_max_players = f_max_players_i as u8;
    let f_supports_authority = match get_bool(fields, "supports_authority") { Some(b) => b, None => { return None; } };
    let f_current_players = match get_field(fields, "current_players") { Some(aj) => match pis_from_json(aj) { Some(x) => x, None => { return None; } }, None => { return None; } };
    let f_is_authority = match get_bool(fields, "is_authority") { Some(b) => b, None => { return None; } };
    let f_lobby_state = match get_str(fields, "lobby_state") { Some(s) => match LobbyState::from_text(s.as_str()) { Some(e) => e, None => { return None; } }, None => { return None; } };
    let f_ready_players = match get_field(fields, "ready_players") { Some(aj) => match uids_from_json(aj) { Some(x) => x, None => { return None; } }, None => { return None; } };
    let f_relay_type = match get_str(fields, "relay_type") { Some(s) => s, None => { return None; } };
    let f_current_spectators = match get_field(fields, "current_spectators") {
        Some(aj) => match aj {
            Json::Null => Vec::new(),
            _ => match sis_from_json(aj) { Some(x) => x, None => { return None; } },
        },
        None => Vec::new(),
    };
    Some(RoomJoinedPayload {
        room_id: f_room_id,
        room_code: f_room_code,
        player_id: f_player_id,
        game_name: f_game_name,
        max_players: f_max_players,
        supports_authority: f_supports_authority,
        current_players: f_current_players,
        is_authority: f_is_authority,
        lobby_state: f_lobby_state,
        ready_players: f_ready_players,
        relay_type: f_relay_type,
        current_spectators: f_current_spectators,
    })
}

/// Round trip: the canonical tree of a `RoomJoinedPayload` decodes, and any value
/// its members pin re-encodes to the same tree.
pub proof fn lemma_rj_round_trip(v: RoomJoinedPayload, v2: RoomJoinedPayload)
    ensures
        rj_decodable(rj_jv(v)),
        rj_matches(rj_jv(v), v2) ==> rj_jv(v2) == rj_jv(v),
{
    reveal_strlit("current_players");
    reveal_strlit("current_spectators");
    reveal_strlit("game_name");
    reveal_strlit("is_authority");
    reveal_strlit("lobby_state");
    reveal_strlit("max_players");
    reveal_strlit("player_id");
    reveal_strlit("ready_players");
    reveal_strlit("relay_type");
    reveal_strlit("room_code");
    reveal_strlit("room_id");
    reveal_strlit("supports_authority");
    assert("current_players"@.len() == 15);
    assert("current_spectators"@.len() == 18);
    assert("game_name"@.len() == 9);
    assert("is_authority"@.len() == 12);
    assert("lobby_state"@.len() == 11);
    assert("max_players"@.len() == 11);
    assert("player_id"@.len() == 9);
    assert("ready_players"@.len() == 13);
    assert("relay_type"@.len() == 10);
    assert("room_code"@.len() == 9);
    assert("room_id"@.len() == 7);
    assert("supports_authority"@.len() == 18);
    assert("current_spectators"@[0] == 'c');
    assert("game_name"@[0] == 'g');
    assert("lobby_state"@[0] == 'l');
    assert("max_players"@[0] == 'm');
    assert("player_id"@[0] == 'p');
    assert("room_code"@[0] == 'r');
    assert("supports_authority"@[0] == 's');
    let s0 = seq![("room_id"@, uid_jv(v.room_id))];
    let s1 = seq![("room_code"@, JsonV::Str(v.room_code@))];
    let s2 = seq![("player_id"@, uid_jv(v.player_id))];
    let s3 = seq![("game_name"@, JsonV::Str(v.game_name@))];
    let s4 = seq![("max_players"@, JsonV::Int(v.max_players as int))];
    let s5 = seq![("supports_authority"@, JsonV::Bool(v.supports_authority))];
    let s6 = seq![("current_players"@, JsonV::Arr(pis_jv(v.current_players@)))];
    let s7 = seq![("is_authority"@, JsonV::Bool(v.is_authority))];
    let s8 = seq![("lobby_state"@, JsonV::Str(ls_str(v.lobby_state)))];
    let s9 = seq![("ready_players"@, JsonV::Arr(uids_jv(v.ready_players@)))];
    let s10 = seq![("relay_type"@, JsonV::Str(v.relay_type@))];
    let s11 = seq![("current_spectators"@, JsonV::Arr(sis_jv(v.current_spectators@)))];
    lemma_lookup_at(s0, 0);
    lemma_lookup_absent(s0, "room_code"@);
    lemma_lookup_absent(s0, "player_id"@);
    lemma_lookup_absent(s0, "game_name"@);
    lemma_lookup_absent(s0, "max_players"@);
    lemma_lookup_absent(s0, "supports_authority"@);
    lemma_lookup_absent(s0, "current_players"@);
    lemma_lookup_absent(s0, "is_authority"@);
    lemma_lookup_absent(s0, "lobby_state"@);
    lemma_lookup_absent(s0, "ready_players"@);
    lemma_lookup_absent(s0, "relay_type"@);
    lemma_lookup_absent(s0, "current_spectators"@);
    lemma_lookup_at(s1, 0);
    lemma_lookup_absent(s1, "room_id"@);
    lemma_lookup_absent(s1, "player_id"@);
    lemma_lookup_absent(s1, "game_name"@);
    lemma_lookup_absent(s1, "max_players"@);
    lemma_lookup_absent(s1, "supports_authority"@);
    lemma_lookup_absent(s1, "current_players"@);
    lemma_lookup_absent(s1, "is_authority"@);
    lemma_lookup_absent(s1, "lobby_state"@);
    lemma_lookup_absent(s1, "ready_players"@);
    lemma_lookup_absent(s1, "relay_type"@);
    lemma_lookup_absent(s1, "current_spectators"@);
    lemma_lookup_at(s2, 0);
    lemma_lookup_absent(s2, "room_id"@);
    lemma_lookup_absent(s2, "room_code"@);
    lemma_lookup_absent(s2, "game_name"@);
    lemma_lookup_absent(s2, "max_players"@);
    lemma_lookup_absent(s2, "supports_authority"@);
    lemma_lookup_absent(s2, "current_players"@);
    lemma_lookup_absent(s2, "is_authority"@);
    lemma_lookup_absent(s2, "lobby_state"@);
    lemma_lookup_absent(s2, "ready_players"@);
    lemma_lookup_absent(s2, "relay_type"@);
    lemma_lookup_absent(s2, "current_spectators"@);
    lemma_lookup_at(s3, 0);
    lemma_lookup_absent(s3, "room_id"@);
    lemma_lookup_absent(s3, "room_code"@);
    lemma_lookup_absent(s3, "player_id"@);
    lemma_lookup_absent(s3, "max_players"@);
    lemma_lookup_absent(s3, "supports_authority"@);
    lemma_lookup_absent(s3, "current_players"@);
    lemma_lookup_absent(s3, "is_authority"@);
    lemma_lookup_absent(s3, "lobby_state"@);
    lemma_lookup_absent(s3, "ready_players"@);
    lemma_lookup_absent(s3, "relay_type"@);
    lemma_lookup_absent(s3, "current_spectators"@);
    lemma_lookup_at(s4, 0);
    lemma_lookup_absent(s4, "room_id"@);
    lemma_lookup_absent(s4, "room_code"@);
    lemma_lookup_absent(s4, "player_id"@);
    lemma_lookup_absent(s4, "game_name"@);
    lemma_lookup_absent(s4, "supports_authority"@);
    lemma_lookup_absent(s4, "current_players"@);
    lemma_lookup_absent(s4, "is_authority"@);
    lemma_lookup_absent(s4, "lobby_state"@);
    lemma_lookup_absent(s4, "ready_players"@);
    lemma_lookup_absent(s4, "relay_type"@);
    lemma_lookup_absent(s4, "current_spectators"@);
    lemma_lookup_at(s5, 0);
    lemma_lookup_absent(s5, "room_id"@);
    lemma_lookup_absent(s5, "room_code"@);
    lemma_lookup_absent(s5, "player_id"@);
    lemma_lookup_absent(s5, "game_name"@);
    lemma_lookup_absent(s5, "max_players"@);
    lemma_lookup_absent(s5, "current_players"@);
    lemma_lookup_absent(s5, "is_authority"@);
    lemma_lookup_absent(s5, "lobby_state"@);
    lemma_lookup_absent(s5, "ready_players"@);
    lemma_lookup_absent(s5, "relay_type"@);
    lemma_lookup_absent(s5, "current_spectators"@);
    lemma_lookup_at(s6, 0);
    lemma_lookup_absent(s6, "room_id"@);
    lemma_lookup_absent(s6, "room_code"@);
    lemma_lookup_absent(s6, "player_id"@);
    lemma_lookup_absent(s6, "game_name"@);
    lemma_lookup_absent(s6, "max_players"@);
    lemma_lookup_absent(s6, "supports_authority"@);
    lemma_lookup_absent(s6, "is_authority"@);
    lemma_lookup_absent(s6, "lobby_state"@);
    lemma_lookup_absent(s6, "ready_players"@);
    lemma_lookup_absent(s6, "relay_type"@);
    lemma_lookup_absent(s6, "current_spectators"@);
    lemma_lookup_at(s7, 0);
    lemma_lookup_absent(s7, "room_id"@);
    lemma_lookup_absent(s7, "room_code"@);
    lemma_lookup_absent(s7, "player_id"@);
    lemma_lookup_absent(s7, "game_name"@);
    lemma_lookup_absent(s7, "max_players"@);
    lemma_lookup_absent(s7, "supports_authority"@);
    lemma_lookup_absent(s7, "current_players"@);
    lemma_lookup_absent(s7, "lobby_state"@);
    lemma_lookup_absent(s7, "ready_players"@);
    lemma_lookup_absent(s7, "relay_type"@);
    lemma_lookup_absent(s7, "current_spectators"@);
    lemma_lookup_at(s8, 0);
    lemma_lookup_absent(s8, "room_id"@);
    lemma_lookup_absent(s8, "room_code"@);
    lemma_lookup_absent(s8, "player_id"@);
    lemma_lookup_absent(s8, "game_name"@);
    lemma_lookup_absent(s8, "max_players"@);
    lemma_lookup_absent(s8, "supports_authority"@);
    lemma_lookup_absent(s8, "current_players"@);
    lemma_lookup_absent(s8, "is_authority"@);
    lemma_lookup_absent(s8, "ready_players"@);
    lemma_lookup_absent(s8, "relay_type"@);
    lemma_lookup_absent(s8, "current_spectators"@);
    lemma_lookup_at(s9, 0);
    lemma_lookup_absent(s9, "room_id"@);
    lemma_lookup_absent(s9, "room_code"@);
    lemma_lookup_absent(s9, "player_id"@);
    lemma_lookup_absent(s9, "game_name"@);
    lemma_lookup_absent(s9, "max_players"@);
    lemma_lookup_absent(s9, "supports_authority"@);
    lemma_lookup_absent(s9, "current_players"@);
    lemma_lookup_absent(s9, "is_authority"@);
    lemma_lookup_absent(s9, "lobby_state"@);
    lemma_lookup_absent(s9, "relay_type"@);
    lemma_lookup_absent(s9, "current_spectators"@);
    lemma_lookup_at(s10, 0);
    lemma_lookup_absent(s10, "room_id"@);
    lemma_lookup_absent(s10, "room_code"@);
    lemma_lookup_absent(s10, "player_id"@);
    lemma_lookup_absent(s10, "game_name"@);
    lemma_lookup_absent(s10, "max_players"@);
    lemma_lookup_absent(s10, "supports_authority"@);
    lemma_lookup_absent(s10, "current_players"@);
    lemma_lookup_absent(s10, "is_authority"@);
    lemma_lookup_absent(s10, "lobby_state"@);
    lemma_lookup_absent(s10, "ready_players"@);
    lemma_lookup_absent(s10, "current_spectators"@);
    lemma_lookup_at(s11, 0);
    lemma_lookup_absent(s11, "room_id"@);
    lemma_lookup_absent(s11, "room_code"@);
    lemma_lookup_absent(s11, "player_id"@);
    lemma_lookup_absent(s11, "game_name"@);
    lemma_lookup_absent(s11, "max_players"@);
    lemma_lookup_absent(s11, "supports_authority"@);
    lemma_lookup_absent(s11, "current_players"@);
    lemma_lookup_absent(s11, "is_authority"@);
    lemma_lookup_absent(s11, "lobby_state"@);
    lemma_lookup_absent(s11, "ready_players"@);
    lemma_lookup_absent(s11, "relay_type"@);
    let p1 = s0 + s1;
    let p2 = p1 + s2;
    let p3 = p2 + s3;
    let p4 = p3 + s4;
    let p5 = p4 + s5;
    let p6 = p5 + s6;
    let p7 = p6 + s7;
    let p8 = p7 + s8;
    let p9 = p8 + s9;
    let p10 = p9 + s10;
    let p11 = p10 + s11;
    lemma_lookup_append(s0, s1, "room_id"@);
    lemma_lookup_append(p1, s2, "room_id"@);
    lemma_lookup_append(p2, s3, "room_id"@);
    lemma_lookup_append(p3, s4, "room_id"@);
    lemma_lookup_append(p4, s5, "room_id"@);
    lemma_lookup_append(p5, s6, "room_id"@);
    lemma_lookup_append(p6, s7, "room_id"@);
    lemma_lookup_append(p7, s8, "room_id"@);
    lemma_lookup_append(p8, s9, "room_id"@);
    lemma_lookup_append(p9, s10, "room_id"@);
    lemma_lookup_append(p10, s11, "room_id"@);
    lemma_lookup_append(s0, s1, "room_code"@);
    lemma_lookup_append(p1, s2, "room_code"@);
    lemma_lookup_append(p2, s3, "room_code"@);
    lemma_lookup_append(p3, s4, "room_code"@);
    lemma_lookup_append(p4, s5, "room_code"@);
    lemma_lookup_append(p5, s6, "room_code"@);
    lemma_lookup_append(p6, s7, "room_code"@);
    lemma_lookup_append(p7, s8, "room_code"@);
    lemma_lookup_append(p8, s9, "room_code"@);
    lemma_lookup_append(p9, s10, "room_code"@);
    lemma_lookup_append(p10, s11, "room_code"@);
    lemma_lookup_append(s0, s1, "player_id"@);
    lemma_lookup_append(p1, s2, "player_id"@);
    lemma_lookup_append(p2, s3, "player_id"@);
    lemma_lookup_append(p3, s4, "player_id"@);
    lemma_lookup_append(p4, s5, "player_id"@);
    lemma_lookup_append(p5, s6, "player_id"@);
    lemma_lookup_append(p6, s7, "player_id"@);
    lemma_lookup_append(p7, s8, "player_id"@);
    lemma_lookup_append(p8, s9, "player_id"@);
    lemma_lookup_append(p9, s10, "player_id"@);
    lemma_lookup_append(p10, s11, "player_id"@);
    lemma_lookup_append(s0, s1, "game_name"@);
    lemma_lookup_append(p1, s2, "game_name"@);
    lemma_lookup_append(p2, s3, "game_name"@);
    lemma_lookup_append(p3, s4, "game_name"@);
    lemma_lookup_append(p4, s5, "game_name"@);
    lemma_lookup_append(p5, s6, "game_name"@);
    lemma_lookup_append(p6, s7, "game_name"@);
    lemma_lookup_append(p7, s8, "game_name"@);
    lemma_lookup_append(p8, s9, "game_name"@);
    lemma_lookup_append(p9, s10, "game_name"@);
    lemma_lookup_append(p10, s11, "game_name"@);
    lemma_lookup_append(s0, s1, "max_players"@);
    lemma_lookup_append(p1, s2, "max_players"@);
    lemma_lookup_append(p2, s3, "max_players"@);
    lemma_lookup_append(p3, s4, "max_players"@);
    lemma_lookup_append(p4, s5, "max_players"@);
    lemma_lookup_append(p5, s6, "max_players"@);
    lemma_lookup_append(p6, s7, "max_players"@);
    lemma_lookup_append(p7, s8, "max_players"@);
    lemma_lookup_append(p8, s9, "max_players"@);
    lemma_lookup_append(p9, s10, "max_players"@);
    lemma_lookup_append(p10, s11, "max_players"@);
    lemma_lookup_append(s0, s1, "supports_authority"@);
    lemma_lookup_append(p1, s2, "supports_authority"@);
    lemma_lookup_append(p2, s3, "supports_authority"@);
    lemma_lookup_append(p3, s4, "supports_authority"@);
    lemma_lookup_append(p4, s5, "supports_authority"@);
    lemma_lookup_append(p5, s6, "supports_authority"@);
    lemma_lookup_append(p6, s7, "supports_authority"@);
    lemma_lookup_append(p7, s8, "supports_authority"@);
    lemma_lookup_append(p8, s9, "supports_authority"@);
    lemma_lookup_append(p9, s10, "supports_authority"@);
    lemma_lookup_append(p10, s11, "supports_authority"@);
    lemma_lookup_append(s0, s1, "current_players"@);
    lemma_lookup_append(p1, s2, "current_players"@);
    lemma_lookup_append(p2, s3, "current_players"@);
    lemma_lookup_append(p3, s4, "current_players"@);
    lemma_lookup_append(p4, s5, "current_players"@);
    lemma_lookup_append(p5, s6, "current_players"@);
    lemma_lookup_append(p6, s7, "current_players"@);
    lemma_lookup_append(p7, s8, "current_players"@);
    lemma_lookup_append(p8, s9, "current_players"@);
    lemma_lookup_append(p9, s10, "current_players"@);
    lemma_lookup_append(p10, s11, "current_players"@);
    lemma_lookup_append(s0, s1, "is_authority"@);
    lemma_lookup_append(p1, s2, "is_authority"@);
    lemma_lookup_append(p2, s3, "is_authority"@);
    lemma_lookup_append(p3, s4, "is_authority"@);
    lemma_lookup_append(p4, s5, "is_authority"@);
    lemma_lookup_append(p5, s6, "is_authority"@);
    lemma_lookup_append(p6, s7, "is_authority"@);
    lemma_lookup_append(p7, s8, "is_authority"@);
    lemma_lookup_append(p8, s9, "is_authority"@);
    lemma_lookup_append(p9, s10, "is_authority"@);
    lemma_lookup_append(p10, s11, "is_authority"@);
    lemma_lookup_append(s0, s1, "lobby_state"@);
    lemma_lookup_append(p1, s2, "lobby_state"@);
    lemma_lookup_append(p2, s3, "lobby_state"@);
    lemma_lookup_append(p3, s4, "lobby_state"@);
    lemma_lookup_append(p4, s5, "lobby_state"@);
    lemma_lookup_append(p5, s6, "lobby_state"@);
    lemma_lookup_append(p6, s7, "lobby_state"@);
    lemma_lookup_append(p7, s8, "lobby_state"@);
    lemma_lookup_append(p8, s9, "lobby_state"@);
    lemma_lookup_append(p9, s10, "lobby_state"@);
    lemma_lookup_append(p10, s11, "lobby_state"@);
    lemma_lookup_append(s0, s1, "ready_players"@);
    lemma_lookup_append(p1, s2, "ready_players"@);
    lemma_lookup_append(p2, s3, "ready_players"@);
    lemma_lookup_append(p3, s4, "ready_players"@);
    lemma_lookup_append(p4, s5, "ready_players"@);
    lemma_lookup_append(p5, s6, "ready_players"@);
    lemma_lookup_append(p6, s7, "ready_players"@);
    lemma_lookup_append(p7, s8, "ready_players"@);
    lemma_lookup_append(p8, s9, "ready_players"@);
    lemma_lookup_append(p9, s10, "ready_players"@);
    lemma_lookup_append(p10, s11, "ready_players"@);
    lemma_lookup_append(s0, s1, "relay_type"@);
    lemma_lookup_append(p1, s2, "relay_type"@);
    lemma_lookup_append(p2, s3, "relay_type"@);
    lemma_lookup_append(p3, s4, "relay_type"@);
    lemma_lookup_append(p4, s5, "relay_type"@);
    lemma_lookup_append(p5, s6, "relay_type"@);
    lemma_lookup_append(p6, s7, "relay_type"@);
    lemma_lookup_append(p7, s8, "relay_type"@);
    lemma_lookup_append(p8, s9, "relay_type"@);
    lemma_lookup_append(p9, s10, "relay_type"@);
    lemma_lookup_append(p10, s11, "relay_type"@);
    lemma_lookup_append(s0, s1, "current_spectators"@);
    lemma_lookup_append(p1, s2, "current_spectators"@);
    lemma_lookup_append(p2, s3, "current_spectators"@);
    lemma_lookup_append(p3, s4, "current_spectators"@);
    lemma_lookup_append(p4, s5, "current_spectators"@);
    lemma_lookup_append(p5, s6, "current_spectators"@);
    lemma_lookup_append(p6, s7, "current_spectators"@);
    lemma_lookup_append(p7, s8, "current_spectators"@);
    lemma_lookup_append(p8, s9, "current_spectators"@);
    lemma_lookup_append(p9, s10, "current_spectators"@);
    lemma_lookup_append(p10, s11, "current_spectators"@);
    lemma_uid_text_round_trip(v.room_id.value as int);
    lemma_uid_text_round_trip(v.player_id.value as int);
    lemma_arr_pi_round_trip(v.current_players@, v.current_players@);
    lemma_ls_round_trip(v.lobby_state);
    lemma_arr_uid_round_trip(v.ready_players@, v.ready_players@);
    lemma_arr_si_round_trip(v.current_spectators@, v.current_spectators@);
    assert(rj_decodable(rj_jv(v)));
    if rj_matches(rj_jv(v), v2) {
        lemma_arr_pi_round_trip(v.current_players@, v2.current_players@);
        lemma_arr_uid_round_trip(v.ready_players@, v2.ready_players@);
        lemma_arr_si_round_trip(v.current_spectators@, v2.current_spectators@);
        assert(rj_members(v2) =~~= rj_members(v));
        assert(rj_jv(v2) == rj_jv(v));
    }
}

/// Payload for the `SpectatorJoined` server message.
#[derive(Debug)]
pub struct SpectatorJoinedPayload {
    pub room_id: RoomId,
    pub room_code: String,
    pub spectator_id: PlayerId,
    pub game_name: String,
    pub current_players: Vec<PlayerInfo>,
    pub current_spectators: Vec<SpectatorInfo>,
    pub lobby_state: LobbyState,
    pub reason: Option<SpectatorStateChangeReason>,
}

/// The members a `SpectatorJoinedPayload` is written with.
pub open spec fn sj_members(v: SpectatorJoinedPayload) -> Seq<(Seq<char>, JsonV)> {
    seq![("room_id"@, uid_jv(v.room_id))]
        + seq![("room_code"@, JsonV::Str(v.room_code@))]
        + seq![("spectator_id"@, uid_jv(v.spectator_id))]
        + seq![("game_name"@, JsonV::Str(v.game_name@))]
        + seq![("current_players"@, JsonV::Arr(pis_jv(v.current_players@)))]
        + seq![("current_spectators"@, JsonV::Arr(sis_jv(v.current_spectators@)))]
        + seq![("lobby_state"@, JsonV::Str(ls_str(v.lobby_state)))]
        + (match v.reason { Some(x) => seq![("reason"@, JsonV::Str(sscr_str(x)))], None => Seq::empty() })
}

/// The tree a `SpectatorJoinedPayload` is written as.
pub open spec fn sj_jv(v: SpectatorJoinedPayload) -> JsonV {
    JsonV::Obj(sj_members(v))
}

/// Which trees decode as a `SpectatorJoinedPayload`.
pub open spec fn sj_decodable(j: JsonV) -> bool {
    match j {
        JsonV::Obj(o) => {
            &&& sf_str_ok(o, "room_id"@) && uid_of(sf_str(o, "room_id"@)) is Some
            &&& sf_str_ok(o, "room_code"@)
            &&& sf_str_ok(o, "spectator_id"@) && uid_of(sf_str(o, "spectator_id"@)) is Some
            &&& sf_str_ok(o, "game_name"@)
            &&& (lookup(o, "current_players"@) matches Some(x) && arr_pi_decodable(x))
            &&& (lookup(o, "current_spectators"@) matches Some(x) && arr_si_decodable(x))
            &&& sf_str_ok(o, "lobby_state"@) && ls_of(sf_str(o, "lobby_state"@)) is Some
            &&& (sf_absent(o, "reason"@) || (sf_str_ok(o, "reason"@) && sscr_of(sf_str(o, "reason"@)) is Some))
        }
        _ => false,
    }
}

/// What the decoded `SpectatorJoinedPayload` holds, member by member.
pub open spec fn sj_matches(j: JsonV, v: SpectatorJoinedPayload) -> bool {
    match j {
        JsonV::Obj(o) => {
            &&& uid_of(sf_str(o, "room_id"@)) == Some(v.room_id.value as int)
            &&& v.room_code@ == sf_str(o, "room_code"@)
            &&& uid_of(sf_str(o, "spectator_id"@)) == Some(v.spectator_id.value as int)
            &&& v.game_name@ == sf_str(o, "game_name"@)
            &&& (lookup(o, "current_players"@) matches Some(x) && arr_pi_matches(x, v.current_players@))
            &&& (lookup(o, "current_spectators"@) matches Some(x) && arr_si_matches(x, v.current_spectators@))
            &&& ls_of(sf_str(o, "lobby_state"@)) == Some(v.lobby_state)
            &&& (if sf_absent(o, "reason"@) { v.reason is None } else { v.reason matches Some(vv) && (sscr_of(sf_str(o, "reason"@)) == Some(vv)) })
        }
        _ => false,
    }
}

/// Writes a `SpectatorJoinedPayload` as its tree, exactly as `sj_jv` gives it.
pub fn sj_to_json(v: &SpectatorJoinedPayload) -> (j: Json)
    ensures
        j@ == sj_jv(*v),
{
    let mut fields: Vec<(String, Json)> = Vec::new();
    proof {
        assert(dv_fields(fields@) =~= Seq::<(Seq<char>, JsonV)>::empty());
    }
    push_member(&mut fields, "room_id", uid_to_json(&v.room_id));
    push_member(&mut fields, "room_code", Json::Str((&v.room_code).clone()));
    push_member(&mut fields, "spectator_id", uid_to_json(&v.spectator_id));
    push_member(&mut fields, "game_name", Json::Str((&v.game_name).clone()));
    push_member(&mut fields, "current_players", pis_to_json(&v.current_players));
    push_member(&mut fields, "current_spectators", sis_to_json(&v.current_spectators));
    push_member(&mut fields, "lobby_state", Json::Str(String::from_str(&v.lobby_state.wire_text())));
    match &v.reason { Some(x) => { push_member(&mut fields, "reason", Json::Str(String::from_str(x.wire_text()))); } None => {} }
    proof {
        assert(dv_fields(fields@) =~= sj_members(*v));
    }
    Json::Obj(fields)
}

/// Reads a `SpectatorJoinedPayload` from a tree, exactly when `sj_decodable`, the
/// members as `sj_matches` pins them.
pub fn sj_from_json(j: &Json) -> (r: Option<SpectatorJoinedPayload>)
    ensures
        match r {
            Some(v) => sj_matches(j@, v),
            None => !sj_decodable(j@),
        },
        r is Some <==> sj_decodable(j@),
{
    let fields = match j {
        Json::Obj(fields) => fields,
        _ => {
            return None;
        }
    };
    let f_room_id = match get_str(fields, "room_id") { Some(s) => match uid_from_text(s.as_str()) { Some(u) => u, None => { return None; } }, None => { return None; } };
    let f_room_code = match get_str(fields, "room_code") { Some(s) => s, None => { return None; } };
    let f_spectator_id = match get_str(fields, "spectator_id") { Some(s) => match uid_from_text(s.as_str()) { Some(u) => u, None => { return None; } }, None => { return None; } };
    let f_game_name = match get_str(fields, "game_name") { Some(s) => s, None => { return None; } };
    let f_current_players = match get_field(fields, "current_players") { Some(aj) => match pis_from_json(aj) { Some(x) => x, None => { return None; } }, None => { return None; } };
    let f_current_spectators = match get_field(fields, "current_spectators") { Some(aj) => match sis_from_json(aj) { Some(x) => x, None => { return None; } }, None => { return None; } };
    let f_lobby_state = match get_str(fields, "lobby_state") { Some(s) => match LobbyState::from_text(s.as_str()) { Some(e) => e, None => { return None; } }, None => { return None; } };
    let f_reason = match get_opt_str(fields, "reason") {
        Some(Some(s)) => match SpectatorStateChangeReason::from_text(s.as_str()) { Some(e) => Some(e), None => { return None; } },
        Some(None) => None,
        None => { return None; }
    };
    Some(SpectatorJoinedPayload {
        room_id: f_room_id,
        room_code: f_room_code,
        spectator_id: f_spectator_id,
        game_name: f_game_name,
        current_players: f_current_players,
        current_spectators: f_current_spectators,
        lobby_state: f_lobby_state,
        reason: f_reason,
    })
}

/// Round trip: the canonical tree of a `SpectatorJoinedPayload` decodes, and any value
/// its members pin re-encodes to the same tree.
pub proof fn lemma_sj_round_trip(v: SpectatorJoinedPayload, v2: SpectatorJoinedPayload)
    ensures
        sj_decodable(sj_jv(v)),
        sj_matches(sj_jv(v), v2) ==> sj_jv(v2) == sj_jv(v),
{
    reveal_strlit("current_players");
    reveal_strlit("current_spectators");
    reveal_strlit("game_name");
    reveal_strlit("lobby_state");
    reveal_strlit("reason");
    reveal_strlit("room_code");
    reveal_strlit("room_id");
    reveal_strlit("spectator_id");
    assert("current_players"@.len() == 15);
    assert("current_spectators"@.len() == 18);
    assert("game_name"@.len() == 9);
    assert("lobby_state"@.len() == 11);
    assert("reason"@.len() == 6);
    assert("room_code"@.len() == 9);
    assert("room_id"@.len() == 7);
    assert("spectator_id"@.len() == 12);
    assert("game_name"@[0] == 'g');
    assert("room_code"@[0] == 'r');
    let s0 = seq![("room_id"@, uid_jv(v.room_id))];
    let s1 = seq![("room_code"@, JsonV::Str(v.room_code@))];
    let s2 = seq![("spectator_id"@, uid_jv(v.spectator_id))];
    let s3 = seq![("game_name"@, JsonV::Str(v.game_name@))];
    let s4 = seq![("current_players"@, JsonV::Arr(pis_jv(v.current_players@)))];
    let s5 = seq![("current_spectators"@, JsonV::Arr(sis_jv(v.current_spectators@)))];
    let s6 = seq![("lobby_state"@, JsonV::Str(ls_str(v.lobby_state)))];
    let s7 = (match v.reason { Some(x) => seq![("reason"@, JsonV::Str(sscr_str(x)))], None => Seq::empty() });
    lemma_lookup_at(s0, 0);
    lemma_lookup_absent(s0, "room_code"@);
    lemma_lookup_absent(s0, "spectator_id"@);
    lemma_lookup_absent(s0, "game_name"@);
    lemma_lookup_absent(s0, "current_players"@);
    lemma_lookup_absent(s0, "current_spectators"@);
    lemma_lookup_absent(s0, "lobby_state"@);
    lemma_lookup_absent(s0, "reason"@);
    lemma_lookup_at(s1, 0);
    lemma_lookup_absent(s1, "room_id"@);
    lemma_lookup_absent(s1, "spectator_id"@);
    lemma_lookup_absent(s1, "game_name"@);
    lemma_lookup_absent(s1, "current_players"@);
    lemma_lookup_absent(s1, "current_spectators"@);
    lemma_lookup_absent(s1, "lobby_state"@);
    lemma_lookup_absent(s1, "reason"@);
    lemma_lookup_at(s2, 0);
    lemma_lookup_absent(s2, "room_id"@);
    lemma_lookup_absent(s2, "room_code"@);
    lemma_lookup_absent(s2, "game_name"@);
    lemma_lookup_absent(s2, "current_players"@);
    lemma_lookup_absent(s2, "current_spectators"@);
    lemma_lookup_absent(s2, "lobby_state"@);
    lemma_lookup_absent(s2, "reason"@);
    lemma_lookup_at(s3, 0);
    lemma_lookup_absent(s3, "room_id"@);
    lemma_lookup_absent(s3, "room_code"@);
    lemma_lookup_absent(s3, "spectator_id"@);
    lemma_lookup_absent(s3, "current_players"@);
    lemma_lookup_absent(s3, "current_spectators"@);
    lemma_lookup_absent(s3, "lobby_state"@);
    lemma_lookup_absent(s3, "reason"@);
    lemma_lookup_at(s4, 0);
    lemma_lookup_absent(s4, "room_id"@);
    lemma_lookup_absent(s4, "room_code"@);
    lemma_lookup_absent(s4, "spectator_id"@);
    lemma_lookup_absent(s4, "game_name"@);
    lemma_lookup_absent(s4, "current_spectators"@);
    lemma_lookup_absent(s4, "lobby_state"@);
    lemma_lookup_absent(s4, "reason"@);
    lemma_lookup_at(s5, 0);
    lemma_lookup_absent(s5, "room_id"@);
    lemma_lookup_absent(s5, "room_code"@);
    lemma_lookup_absent(s5, "spectator_id"@);
    lemma_lookup_absent(s5, "game_name"@);
    lemma_lookup_absent(s5, "current_players"@);
    lemma_lookup_absent(s5, "lobby_state"@);
    lemma_lookup_absent(s5, "reason"@);
    lemma_lookup_at(s6, 0);
    lemma_lookup_absent(s6, "room_id"@);
    lemma_lookup_absent(s6, "room_code"@);
    lemma_lookup_absent(s6, "spectator_id"@);
    lemma_lookup_absent(s6, "game_name"@);
    lemma_lookup_absent(s6, "current_players"@);
    lemma_lookup_absent(s6, "current_spectators"@);
    lemma_lookup_absent(s6, "reason"@);
    match v.reason {
        Some(_) => {
            lemma_lookup_at(s7, 0);
            lemma_lookup_absent(s7, "room_id"@);
            lemma_lookup_absent(s7, "room_code"@);
            lemma_lookup_absent(s7, "spectator_id"@);
            lemma_lookup_absent(s7, "game_name"@);
            lemma_lookup_absent(s7, "current_players"@);
            lemma_lookup_absent(s7, "current_spectators"@);
            lemma_lookup_absent(s7, "lobby_state"@);
        }
        None => {
            lemma_lookup_absent(s7, "room_id"@);
            lemma_lookup_absent(s7, "room_code"@);
            lemma_lookup_absent(s7, "spectator_id"@);
            lemma_lookup_absent(s7, "game_name"@);
            lemma_lookup_absent(s7, "current_players"@);
            lemma_lookup_absent(s7, "current_spectators"@);
            lemma_lookup_absent(s7, "lobby_state"@);
            lemma_lookup_absent(s7, "reason"@);
        }
    }
    let p1 = s0 + s1;
    let p2 = p1 + s2;
    let p3 = p2 + s3;
    let p4 = p3 + s4;
    let p5 = p4 + s5;
    let p6 = p5 + s6;
    let p7 = p6 + s7;
    lemma_lookup_append(s0, s1, "room_id"@);
    lemma_lookup_append(p1, s2, "room_id"@);
    lemma_lookup_append(p2, s3, "room_id"@);
    lemma_lookup_append(p3, s4, "room_id"@);
    lemma_lookup_append(p4, s5, "room_id"@);
    lemma_lookup_append(p5, s6, "room_id"@);
    lemma_lookup_append(p6, s7, "room_id"@);
    lemma_lookup_append(s0, s1, "room_code"@);
    lemma_lookup_append(p1, s2, "room_code"@);
    lemma_lookup_append(p2, s3, "room_code"@);
    lemma_lookup_append(p3, s4, "room_code"@);
    lemma_lookup_append(p4, s5, "room_code"@);
    lemma_lookup_append(p5, s6, "room_code"@);
    lemma_lookup_append(p6, s7, "room_code"@);
    lemma_lookup_append(s0, s1, "spectator_id"@);
    lemma_lookup_append(p1, s2, "spectator_id"@);
    lemma_lookup_append(p2, s3, "spectator_id"@);
    lemma_lookup_append(p3, s4, "spectator_id"@);
    lemma_lookup_append(p4, s5, "spectator_id"@);
    lemma_lookup_append(p5, s6, "spectator_id"@);
    lemma_lookup_append(p6, s7, "spectator_id"@);
    lemma_lookup_append(s0, s1, "game_name"@);
    lemma_lookup_append(p1, s2, "game_name"@);
    lemma_lookup_append(p2, s3, "game_name"@);
    lemma_lookup_append(p3, s4, "game_name"@);
    lemma_lookup_append(p4, s5, "game_name"@);
    lemma_lookup_append(p5, s6, "game_name"@);
    lemma_lookup_append(p6, s7, "game_name"@);
    lemma_lookup_append(s0, s1, "current_players"@);
    lemma_lookup_append(p1, s2, "current_players"@);
    lemma_lookup_append(p2, s3, "current_players"@);
    lemma_lookup_append(p3, s4, "current_players"@);
    lemma_lookup_append(p4, s5, "current_players"@);
    lemma_lookup_append(p5, s6, "current_players"@);
    lemma_lookup_append(p6, s7, "current_players"@);
    lemma_lookup_append(s0, s1, "current_spectators"@);
    lemma_lookup_append(p1, s2, "current_spectators"@);
    lemma_lookup_append(p2, s3, "current_spectators"@);
    lemma_lookup_append(p3, s4, "current_spectators"@);
    lemma_lookup_append(p4, s5, "current_spectators"@);
    lemma_lookup_append(p5, s6, "current_spectators"@);
    lemma_lookup_append(p6, s7, "current_spectators"@);
    lemma_lookup_append(s0, s1, "lobby_state"@);
    lemma_lookup_append(p1, s2, "lobby_state"@);
    lemma_lookup_append(p2, s3, "lobby_state"@);
    lemma_lookup_append(p3, s4, "lobby_state"@);
    lemma_lookup_append(p4, s5, "lobby_state"@);
    lemma_lookup_append(p5, s6, "lobby_state"@);
    lemma_lookup_append(p6, s7, "lobby_state"@);
    lemma_lookup_append(s0, s1, "reason"@);
    lemma_lookup_append(p1, s2, "reason"@);
    lemma_lookup_append(p2, s3, "reason"@);
    lemma_lookup_append(p3, s4, "reason"@);
    lemma_lookup_append(p4, s5, "reason"@);
    lemma_lookup_append(p5, s6, "reason"@);
    lemma_lookup_append(p6, s7, "reason"@);
    lemma_uid_text_round_trip(v.room_id.value as int);
    lemma_uid_text_round_trip(v.spectator_id.value as int);
    lemma_arr_pi_round_trip(v.current_players@, v.current_players@);
    lemma_arr_si_round_trip(v.current_spectators@, v.current_spectators@);
    lemma_ls_round_trip(v.lobby_state);
    match v.reason { Some(x) => { lemma_sscr_round_trip(x); } None => {} }
    assert(sj_decodable(sj_jv(v)));
    if sj_matches(sj_jv(v), v2) {
        lemma_arr_pi_round_trip(v.current_players@, v2.current_players@);
        lemma_arr_si_round_trip(v.current_spectators@, v2.current_spectators@);
        assert(sj_members(v2) =~~= sj_members(v));
        assert(sj_jv(v2) == sj_jv(v));
    }
}

/// Data of `Authenticate`: the members it is written with.
pub open spec fn cm_auth_members(app_id: String, sdk_version: Option<String>, platform: Option<String>, game_data_format: Option<GameDataEncoding>) -> Seq<(Seq<char>, JsonV)> {
    seq![("app_id"@, JsonV::Str(app_id@))]
        + (match sdk_version { Some(x) => seq![("sdk_version"@, JsonV::Str(x@))], None => Seq::empty() })
        + (match platform { Some(x) => seq![("platform"@, JsonV::Str(x@))], None => Seq::empty() })
        + (match game_data_format { Some(x) => seq![("game_data_format"@, JsonV::Str(gde_str(x)))], None => Seq::empty() })
}

/// Which data trees decode here.
pub open spec fn cm_auth_decodable(j: JsonV) -> bool {
    match j {
        JsonV::Obj(o) => {
            &&& sf_str_ok(o, "app_id"@)
            &&& (sf_absent(o, "sdk_version"@) || (sf_str_ok(o, "sdk_version"@)))
            &&& (sf_absent(o, "platform"@) || (sf_str_ok(o, "platform"@)))
            &&& (sf_absent(o, "game_data_format"@) || (sf_str_ok(o, "game_data_format"@) && gde_of(sf_str(o, "game_data_format"@)) is Some))
        }
        _ => false,
    }
}

/// What the decoded values hold, member by member.
pub open spec fn cm_auth_matches(j: JsonV, app_id: String, sdk_version: Option<String>, platform: Option<String>, game_data_format: Option<GameDataEncoding>) -> bool {
    match j {
        JsonV::Obj(o) => {
            &&& app_id@ == sf_str(o, "app_id"@)
            &&& (if sf_absent(o, "sdk_version"@) { sdk_version is None } else { sdk_version matches Some(vv) && (vv@ == sf_str(o, "sdk_version"@)) })
            &&& (if sf_absent(o, "platform"@) { platform is None } else { platform matches Some(vv) && (vv@ == sf_str(o, "platform"@)) })
            &&& (if sf_absent(o, "game_data_format"@) { game_data_format is None } else { game_data_format matches Some(vv) && (gde_of(sf_str(o, "game_data_format"@)) == Some(vv)) })
        }
        _ => false,
    }
}

fn cm_auth_build(app_id: &String, sdk_version: &Option<String>, platform: &Option<String>, game_data_format: &Option<GameDataEncoding>) -> (j: Json)
    ensures
        j@ == JsonV::Obj(cm_auth_members(*app_id, *sdk_version, *platform, *game_data_format)),
{
    let mut fields: Vec<(String, Json)> = Vec::new();
    proof {
        assert(dv_fields(fields@) =~= Seq::<(Seq<char>, JsonV)>::empty());
    }
    push_member(&mut fields, "app_id", Json::Str((app_id).clone()));
    match sdk_version { Some(x) => { push_member(&mut fields, "sdk_version", Json::Str((x).clone())); } None => {} }
    match platform { Some(x) => { push_member(&mut fields, "platform", Json::Str((x).clone())); } None => {} }
    match game_data_format { Some(x) => { push_member(&mut fields, "game_data_format", Json::Str(String::from_str(x.wire_text()))); } None => {} }
    proof {
        assert(dv_fields(fields@) =~= cm_auth_members(*app_id, *sdk_version, *platform, *game_data_format));
    }
    Json::Obj(fields)
}

fn cm_auth_read(fields: &Vec<(String, Json)>) -> (r: Option<(String, Option<String>, Option<String>, Option<GameDataEncoding>)>)
    ensures
        match r {
            Some(t) => cm_auth_matches(JsonV::Obj(dv_fields(fields@)), t.0, t.1, t.2, t.3),
            None => !cm_auth_decodable(JsonV::Obj(dv_fields(fields@))),
        },
        r is Some <==> cm_auth_decodable(JsonV::Obj(dv_fields(fields@))),
{
    let f_app_id = match get_str(fields, "app_id") { Some(s) => s, None => { return None; } };
    let f_sdk_version = match get_opt_str(fields, "sdk_version") { Some(x) => x, None => { return None; } };
    let f_platform = match get_opt_str(fields, "platform") { Some(x) => x, None => { return None; } };
    let f_game_data_format = match get_opt_str(fields, "game_data_format") {
        Some(Some(s)) => match GameDataEncoding::from_text(s.as_str()) { Some(e) => Some(e), None => { return None; } },
        Some(None) => None,
        None => { return None; }
    };
    Some((f_app_id, f_sdk_version, f_platform, f_game_data_format))
}

/// Round trip for this data object.
pub proof fn lemma_cm_auth_round_trip(app_id: String, sdk_version: Option<String>, platform: Option<String>, game_data_format: Option<GameDataEncoding>, app_id2: String, sdk_version2: Option<String>, platform2: Option<String>, game_data_format2: Option<GameDataEncoding>)
    ensures
        cm_auth_decodable(JsonV::Obj(cm_auth_members(app_id, sdk_version, platform, game_data_format))),
        cm_auth_matches(JsonV::Obj(cm_auth_members(app_id, sdk_version, platform, game_data_format)), app_id2, sdk_version2, platform2, game_data_format2) ==> cm_auth_members(app_id2, sdk_version2, platform2, game_data_format2) == cm_auth_members(app_id, sdk_version, platform, game_data_format),
{
    reveal_strlit("app_id");
    reveal_strlit("game_data_format");
    reveal_strlit("platform");
    reveal_strlit("sdk_version");
    assert("app_id"@.len() == 6);
    assert("game_data_format"@.len() == 16);
    assert("platform"@.len() == 8);
    assert("sdk_version"@.len() == 11);
    let s0 = seq![("app_id"@, JsonV::Str(app_id@))];
    let s1 = (match sdk_version { Some(x) => seq![("sdk_version"@, JsonV::Str(x@))], None => Seq::empty() });
    let s2 = (match platform { Some(x) => seq![("platform"@, JsonV::Str(x@))], None => Seq::empty() });
    let s3 = (match game_data_format { Some(x) => seq![("game_data_format"@, JsonV::Str(gde_str(x)))], None => Seq::empty() });
    lemma_lookup_at(s0, 0);
    lemma_lookup_absent(s0, "sdk_version"@);
    lemma_lookup_absent(s0, "platform"@);
    lemma_lookup_absent(s0, "game_data_format"@);
    match sdk_version {
        Some(_) => {
            lemma_lookup_at(s1, 0);
            lemma_lookup_absent(s1, "app_id"@);
            lemma_lookup_absent(s1, "platform"@);
            lemma_lookup_absent(s1, "game_data_format"@);
        }
        None => {
            lemma_lookup_absent(s1, "app_id"@);
            lemma_lookup_absent(s1, "sdk_version"@);
            lemma_lookup_absent(s1, "platform"@);
            lemma_lookup_absent(s1, "game_data_format"@);
        }
    }
    match platform {
        Some(_) => {
            lemma_lookup_at(s2, 0);
            lemma_lookup_absent(s2, "app_id"@);
            lemma_lookup_absent(s2, "sdk_version"@);
            lemma_lookup_absent(s2, "game_data_format"@);
        }
        None => {
            lemma_lookup_absent(s2, "app_id"@);
            lemma_lookup_absent(s2, "sdk_version"@);
            lemma_lookup_absent(s2, "platform"@);
            lemma_lookup_absent(s2, "game_data_format"@);
        }
    }
    match game_data_format {
        Some(_) => {
            lemma_lookup_at(s3, 0);
            lemma_lookup_absent(s3, "app_id"@);
            lemma_lookup_absent(s3, "sdk_version"@);
            lemma_lookup_absent(s3, "platform"@);
        }
        None => {
            lemma_lookup_absent(s3, "app_id"@);
            lemma_lookup_absent(s3, "sdk_version"@);
            lemma_lookup_absent(s3, "platform"@);
            lemma_lookup_absent(s3, "game_data_format"@);
        }
    }
    let p1 = s0 + s1;
    let p2 = p1 + s2;
    let p3 = p2 + s3;
    lemma_lookup_append(s0, s1, "app_id"@);
    lemma_lookup_append(p1, s2, "app_id"@);
    lemma_lookup_append(p2, s3, "app_id"@);
    lemma_lookup_append(s0, s1, "sdk_version"@);
    lemma_lookup_append(p1, s2, "sdk_version"@);
    lemma_lookup_append(p2, s3, "sdk_version"@);
    lemma_lookup_append(s0, s1, "platform"@);
    lemma_lookup_append(p1, s2, "platform"@);
    lemma_lookup_append(p2, s3, "platform"@);
    lemma_lookup_append(s0, s1, "game_data_format"@);
    lemma_lookup_append(p1, s2, "game_data_format"@);
    lemma_lookup_append(p2, s3, "game_data_format"@);
    match game_data_format { Some(x) => { lemma_gde_round_trip(x); } None => {} }
    assert(cm_auth_decodable(JsonV::Obj(cm_auth_members(app_id, sdk_version, platform, game_data_format))));
    if cm_auth_matches(JsonV::Obj(cm_auth_members(app_id, sdk_version, platform, game_data_format)), app_id2, sdk_version2, platform2, game_data_format2) {
        assert(cm_auth_members(app_id2, sdk_version2, platform2, game_data_format2) =~~= cm_auth_members(app_id, sdk_version, platform, game_data_format));
    }
}

/// Data of `JoinRoom`: the members it is written with.
pub open spec fn cm_join_members(game_name: String, room_code: Option<String>, player_name: String, max_players: Option<u8>, supports_authority: Option<bool>, relay_transport: Option<RelayTransport>) -> Seq<(Seq<char>, JsonV)> {
    seq![("game_name"@, JsonV::Str(game_name@))]
        + seq![("room_code"@, (match room_code { Some(x) => JsonV::Str(x@), None => JsonV::Null }))]
        + seq![("player_name"@, JsonV::Str(player_name@))]
        + seq![("max_players"@, (match max_players { Some(x) => JsonV::Int(x as int), None => JsonV::Null }))]
        + seq![("supports_authority"@, (match supports_authority { Some(x) => JsonV::Bool(x), None => JsonV::Null }))]
        + seq![("relay_transport"@, (match relay_transport { Some(x) => JsonV::Str(rt_str(x)), None => JsonV::Null }))]
}

/// Which data trees decode here.
pub open spec fn cm_join_decodable(j: JsonV) -> bool {
    match j {
        JsonV::Obj(o) => {
            &&& sf_str_ok(o, "game_name"@)
            &&& (sf_absent(o, "room_code"@) || (sf_str_ok(o, "room_code"@)))
            &&& sf_str_ok(o, "player_name"@)
            &&& (sf_absent(o, "max_players"@) || (sf_int_ok(o, "max_players"@) && 0 <= sf_int(o, "max_players"@) <= 255))
            &&& (sf_absent(o, "supports_authority"@) || (sf_bool_ok(o, "supports_authority"@)))
            &&& (sf_absent(o, "relay_transport"@) || (sf_str_ok(o, "relay_transport"@) && rt_of(sf_str(o, "relay_transport"@)) is Some))
        }
        _ => false,
    }
}

/// What the decoded values hold, member by member.
pub open spec fn cm_join_matches(j: JsonV, game_name: String, room_code: Option<String>, player_name: String, max_players: Option<u8>, supports_authority: Option<bool>, relay_transport: Option<RelayTransport>) -> bool {
    match j {
        JsonV::Obj(o) => {
            &&& game_name@ == sf_str(o, "game_name"@)
            &&& (if sf_absent(o, "room_code"@) { room_code is None } else { room_code matches Some(vv) && (vv@ == sf_str(o, "room_code"@)) })
            &&& player_name@ == sf_str(o, "player_name"@)
            &&& (if sf_absent(o, "max_players"@) { max_players is None } else { max_players matches Some(vv) && (vv as int == sf_int(o, "max_players"@)) })
            &&& (if sf_absent(o, "supports_authority"@) { supports_authority is None } else { supports_authority matches Some(vv) && (vv == sf_bool(o, "supports_authority"@)) })
            &&& (if sf_absent(o, "relay_transport"@) { relay_transport is None } else { relay_transport matches Some(vv) && (rt_of(sf_str(o, "relay_transport"@)) == Some(vv)) })
        }
        _ => false,
    }
}

fn cm_join_build(game_name: &String, room_code: &Option<String>, player_name: &String, max_players: &Option<u8>, supports_authority: &Option<bool>, relay_transport: &Option<RelayTransport>) -> (j: Json)
    ensures
        j@ == JsonV::Obj(cm_join_members(*game_name, *room_code, *player_name, *max_players, *supports_authority, *relay_transport)),
{
    let mut fields: Vec<(String, Json)> = Vec::new();
    proof {
        assert(dv_fields(fields@) =~= Seq::<(Seq<char>, JsonV)>::empty());
    }
    push_member(&mut fields, "game_name", Json::Str((game_name).clone()));
    match room_code { Some(x) => { push_member(&mut fields, "room_code", Json::Str((x).clone())); } None => { push_member(&mut fields, "room_code", Json::Null); } }
    push_member(&mut fields, "player_name", Json::Str((player_name).clone()));
    match max_players { Some(x) => { push_member(&mut fields, "max_players", Json::Int(*x as i64)); } None => { push_member(&mut fields, "max_players", Json::Null); } }
    match supports_authority { Some(x) => { push_member(&mut fields, "supports_authority", Json::Bool(*x)); } None => { push_member(&mut fields, "supports_authority", Json::Null); } }
    match relay_transport { Some(x) => { push_member(&mut fields, "relay_transport", Json::Str(String::from_str(x.wire_text()))); } None => { push_member(&mut fields, "relay_transport", Json::Null); } }
    proof {
        assert(dv_fields(fields@) =~= cm_join_members(*game_name, *room_code, *player_name, *max_players, *supports_authority, *relay_transport));
    }
    Json::Obj(fields)
}

fn cm_join_read(fields: &Vec<(String, Json)>) -> (r: Option<(String, Option<String>, String, Option<u8>, Option<bool>, Option<RelayTransport>)>)
    ensures
        match r {
            Some(t) => cm_join_matches(JsonV::Obj(dv_fields(fields@)), t.0, t.1, t.2, t.3, t.4, t.5),
            None => !cm_join_decodable(JsonV::Obj(dv_fields(fields@))),
        },
        r is Some <==> cm_join_decodable(JsonV::Obj(dv_fields(fields@))),
{
    let f_game_name = match get_str(fields, "game_name") { Some(s) => s, None => { return None; } };
    let f_room_code = match get_opt_str(fields, "room_code") { Some(x) => x, None => { return None; } };
    let f_player_name = match get_str(fields, "player_name") { Some(s) => s, None => { return None; } };
    let f_max_players = match get_opt_int(fields, "max_players") {
        Some(Some(n)) => {
            if !(0 <= n && n <= 255) { return None; }
            Some(n as u8)
        }
        Some(None) => None,
        None => { return None; }
    };
    let f_supports_authority = match get_opt_bool(fields, "supports_authority") { Some(x) => x, None => { return None; } };
    let f_relay_transport = match get_opt_str(fields, "relay_transport") {
        Some(Some(s)) => match RelayTransport::from_text(s.as_str()) { Some(e) => Some(e), None => { return None; } },
        Some(None) => None,
        None => { return None; }
    };
    Some((f_game_name, f_room_code, f_player_name, f_max_players, f_supports_authority, f_relay_transport))
}

/// Round trip for this data object.
pub proof fn lemma_cm_join_round_trip(game_name: String, room_code: Option<String>, player_name: String, max_players: Option<u8>, supports_authority: Option<bool>, relay_transport: Option<RelayTransport>, game_name2: String, room_code2: Option<String>, player_name2: String, max_players2: Option<u8>, supports_authority2: Option<bool>, relay_transport2: Option<RelayTransport>)
    ensures
        cm_join_decodable(JsonV::Obj(cm_join_members(game_name, room_code, player_name, max_players, supports_authority, relay_transport))),
        cm_join_matches(JsonV::Obj(cm_join_members(game_name, room_code, player_name, max_players, supports_authority, relay_transport)), game_name2, room_code2, player_name2, max_players2, supports_authority2, relay_transport2) ==> cm_join_members(game_name2, room_code2, player_name2, max_players2, supports_authority2, relay_transport2) == cm_join_members(game_name, room_code, player_name, max_players, supports_authority, relay_transport),
{
    reveal_strlit("game_name");
    reveal_strlit("max_players");
    reveal_strlit("player_name");
    reveal_strlit("relay_transport");
    reveal_strlit("room_code");
    reveal_strlit("supports_authority");
    assert("game_name"@.len() == 9);
    assert("max_players"@.len() == 11);
    assert("player_name"@.len() == 11);
    assert("relay_transport"@.len() == 15);
    assert("room_code"@.len() == 9);
    assert("supports_authority"@.len() == 18);
    assert("game_name"@[0] == 'g');
    assert("max_players"@[0] == 'm');
    assert("player_name"@[0] == 'p');
    assert("room_code"@[0] == 'r');
    let s0 = seq![("game_name"@, JsonV::Str(game_name@))];
    let s1 = seq![("room_code"@, (match room_code { Some(x) => JsonV::Str(x@), None => JsonV::Null }))];
    let s2 = seq![("player_name"@, JsonV::Str(player_name@))];
    let s3 = seq![("max_players"@, (match max_players { Some(x) => JsonV::Int(x as int), None => JsonV::Null }))];
    let s4 = seq![("supports_authority"@, (match supports_authority { Some(x) => JsonV::Bool(x), None => JsonV::Null }))];
    let s5 = seq![("relay_transport"@, (match relay_transport { Some(x) => JsonV::Str(rt_str(x)), None => JsonV::Null }))];
    lemma_lookup_at(s0, 0);
    lemma_lookup_absent(s0, "room_code"@);
    lemma_lookup_absent(s0, "player_name"@);
    lemma_lookup_absent(s0, "max_players"@);
    lemma_lookup_absent(s0, "supports_authority"@);
    lemma_lookup_absent(s0, "relay_transport"@);
    lemma_lookup_at(s1, 0);
    lemma_lookup_absent(s1, "game_name"@);
    lemma_lookup_absent(s1, "player_name"@);
    lemma_lookup_absent(s1, "max_players"@);
    lemma_lookup_absent(s1, "supports_authority"@);
    lemma_lookup_absent(s1, "relay_transport"@);
    lemma_lookup_at(s2, 0);
    lemma_lookup_absent(s2, "game_name"@);
    lemma_lookup_absent(s2, "room_code"@);
    lemma_lookup_absent(s2, "max_players"@);
    lemma_lookup_absent(s2, "supports_authority"@);
    lemma_lookup_absent(s2, "relay_transport"@);
    lemma_lookup_at(s3, 0);
    lemma_lookup_absent(s3, "game_name"@);
    lemma_lookup_absent(s3, "room_code"@);
    lemma_lookup_absent(s3, "player_name"@);
    lemma_lookup_absent(s3, "supports_authority"@);
    lemma_lookup_absent(s3, "relay_transport"@);
    lemma_lookup_at(s4, 0);
    lemma_lookup_absent(s4, "game_name"@);
    lemma_lookup_absent(s4, "room_code"@);
    lemma_lookup_absent(s4, "player_name"@);
    lemma_lookup_absent(s4, "max_players"@);
    lemma_lookup_absent(s4, "relay_transport"@);
    lemma_lookup_at(s5, 0);
    lemma_lookup_absent(s5, "game_name"@);
    lemma_lookup_absent(s5, "room_code"@);
    lemma_lookup_absent(s5, "player_name"@);
    lemma_lookup_absent(s5, "max_players"@);
    lemma_lookup_absent(s5, "supports_authority"@);
    let p1 = s0 + s1;
    let p2 = p1 + s2;
    let p3 = p2 + s3;
    let p4 = p3 + s4;
    let p5 = p4 + s5;
    lemma_lookup_append(s0, s1, "game_name"@);
    lemma_lookup_append(p1, s2, "game_name"@);
    lemma_lookup_append(p2, s3, "game_name"@);
    lemma_lookup_append(p3, s4, "game_name"@);
    lemma_lookup_append(p4, s5, "game_name"@);
    lemma_lookup_append(s0, s1, "room_code"@);
    lemma_lookup_append(p1, s2, "room_code"@);
    lemma_lookup_append(p2, s3, "room_code"@);
    lemma_lookup_append(p3, s4, "room_code"@);
    lemma_lookup_append(p4, s5, "room_code"@);
    lemma_lookup_append(s0, s1, "player_name"@);
    lemma_lookup_append(p1, s2, "player_name"@);
    lemma_lookup_append(p2, s3, "player_name"@);
    lemma_lookup_append(p3, s4, "player_name"@);
    lemma_lookup_append(p4, s5, "player_name"@);
    lemma_lookup_append(s0, s1, "max_players"@);
    lemma_lookup_append(p1, s2, "max_players"@);
    lemma_lookup_append(p2, s3, "max_players"@);
    lemma_lookup_append(p3, s4, "max_players"@);
    lemma_lookup_append(p4, s5, "max_players"@);
    lemma_lookup_append(s0, s1, "supports_authority"@);
    lemma_lookup_append(p1, s2, "supports_authority"@);
    lemma_lookup_append(p2, s3, "supports_authority"@);
    lemma_lookup_append(p3, s4, "supports_authority"@);
    lemma_lookup_append(p4, s5, "supports_authority"@);
    lemma_lookup_append(s0, s1, "relay_transport"@);
    lemma_lookup_append(p1, s2, "relay_transport"@);
    lemma_lookup_append(p2, s3, "relay_transport"@);
    lemma_lookup_append(p3, s4, "relay_transport"@);
    lemma_lookup_append(p4, s5, "relay_transport"@);
    match relay_transport { Some(x) => { lemma_rt_round_trip(x); } None => {} }
    assert(cm_join_decodable(JsonV::Obj(cm_join_members(game_name, room_code, player_name, max_players, supports_authority, relay_transport))));
    if cm_join_matches(JsonV::Obj(cm_join_members(game_name, room_code, player_name, max_players, supports_authority, relay_transport)), game_name2, room_code2, player_name2, max_players2, supports_authority2, relay_transport2) {
        assert(cm_join_members(game_name2, room_code2, player_name2, max_players2, supports_authority2, relay_transport2) =~~= cm_join_members(game_name, room_code, player_name, max_players, supports_authority, relay_transport));
    }
}

/// Data of the outgoing `GameData`: the members it is written with.
pub open spec fn cm_game_data_members(data: Json) -> Seq<(Seq<char>, JsonV)> {
    seq![("data"@, data.dv())]
}

/// Which data trees decode here.
pub open spec fn cm_game_data_decodable(j: JsonV) -> bool {
    match j {
        JsonV::Obj(o) => {
            &&& lookup(o, "data"@) is Some
        }
        _ => false,
    }
}

/// What the decoded values hold, member by member.
pub open spec fn cm_game_data_matches(j: JsonV, data: Json) -> bool {
    match j {
        JsonV::Obj(o) => {
            &&& lookup(o, "data"@) == Some(data.dv())
        }
        _ => false,
    }
}

fn cm_game_data_build(data: &Json) -> (j: Json)
    ensures
        j@ == JsonV::Obj(cm_game_data_members(*data)),
{
    let mut fields: Vec<(String, Json)> = Vec::new();
    proof {
        assert(dv_fields(fields@) =~= Seq::<(Seq<char>, JsonV)>::empty());
    }
    push_member(&mut fields, "data", json_clone(data));
    proof {
        assert(dv_fields(fields@) =~= cm_game_data_members(*data));
    }
    Json::Obj(fields)
}

fn cm_game_data_read(fields: &Vec<(String, Json)>) -> (r: Option<(Json,)>)
    ensures
        match r {
            Some(t) => cm_game_data_matches(JsonV::Obj(dv_fields(fields@)), t.0),
            None => !cm_game_data_decodable(JsonV::Obj(dv_fields(fields@))),
        },
        r is Some <==> cm_game_data_decodable(JsonV::Obj(dv_fields(fields@))),
{
    let f_data = match get_field(fields, "data") { Some(d) => json_clone(d), None => { return None; } };
    Some((f_data,))
}

/// Round trip for this data object.
pub proof fn lemma_cm_game_data_round_trip(data: Json, data2: Json)
    ensures
        cm_game_data_decodable(JsonV::Obj(cm_game_data_members(data))),
        cm_game_data_matches(JsonV::Obj(cm_game_data_members(data)), data2) ==> cm_game_data_members(data2) == cm_game_data_members(data),
{
    reveal_strlit("data");
    assert("data"@.len() == 4);
    let s0 = seq![("data"@, data.dv())];
    lemma_lookup_at(s0, 0);
    assert(cm_game_data_decodable(JsonV::Obj(cm_game_data_members(data))));
    if cm_game_data_matches(JsonV::Obj(cm_game_data_members(data)), data2) {
        assert(cm_game_data_members(data2) =~~= cm_game_data_members(data));
    }
}

/// Data of `AuthorityRequest`: the members it is written with.
pub open spec fn cm_authreq_members(become_authority: bool) -> Seq<(Seq<char>, JsonV)> {
    seq![("become_authority"@, JsonV::Bool(become_authority))]
}

/// Which data trees decode here.
pub open spec fn cm_authreq_decodable(j: JsonV) -> bool {
    match j {
        JsonV::Obj(o) => {
            &&& sf_bool_ok(o, "become_authority"@)
        }
        _ => false,
    }
}

/// What the decoded values hold, member by member.
pub open spec fn cm_authreq_matches(j: JsonV, become_authority: bool) -> bool {
    match j {
        JsonV::Obj(o) => {
            &&& become_authority == sf_bool(o, "become_authority"@)
        }
        _ => false,
    }
}

fn cm_authreq_build(become_authority: &bool) -> (j: Json)
    ensures
        j@ == JsonV::Obj(cm_authreq_members(*become_authority)),
{
    let mut fields: Vec<(String, Json)> = Vec::new();
    proof {
        assert(dv_fields(fields@) =~= Seq::<(Seq<char>, JsonV)>::empty());
    }
    push_member(&mut fields, "become_authority", Json::Bool(*become_authority));
    proof {
        assert(dv_fields(fields@) =~= cm_authreq_members(*become_authority));
    }
    Json::Obj(fields)
}

fn cm_authreq_read(fields: &Vec<(String, Json)>) -> (r: Option<(bool,)>)
    ensures
        match r {
            Some(t) => cm_authreq_matches(JsonV::Obj(dv_fields(fields@)), t.0),
            None => !cm_authreq_decodable(JsonV::Obj(dv_fields(fields@))),
        },
        r is Some <==> cm_authreq_decodable(JsonV::Obj(dv_fields(fields@))),
{
    let f_become_authority = match get_bool(fields, "become_authority") { Some(b) => b, None => { return None; } };
    Some((f_become_authority,))
}

/// Round trip for this data object.
pub proof fn lemma_cm_authreq_round_trip(become_authority: bool, become_authority2: bool)
    ensures
        cm_authreq_decodable(JsonV::Obj(cm_authreq_members(become_authority))),
        cm_authreq_matches(JsonV::Obj(cm_authreq_members(become_authority)), become_authority2) ==> cm_authreq_members(become_authority2) == cm_authreq_members(become_authority),
{
    reveal_strlit("become_authority");
    assert("become_authority"@.len() == 16);
    let s0 = seq![("become_authority"@, JsonV::Bool(become_authority))];
    lemma_lookup_at(s0, 0);
    assert(cm_authreq_decodable(JsonV::Obj(cm_authreq_members(become_authority))));
    if cm_authreq_matches(JsonV::Obj(cm_authreq_members(become_authority)), become_authority2) {
        assert(cm_authreq_members(become_authority2) =~~= cm_authreq_members(become_authority));
    }
}

/// Data of `ProvideConnectionInfo`: the members it is written with.
pub open spec fn cm_provide_members(connection_info: ConnectionInfo) -> Seq<(Seq<char>, JsonV)> {
    seq![("connection_info"@, ci_jv(connection_info))]
}

/// Which data trees decode here.
pub open spec fn cm_provide_decodable(j: JsonV) -> bool {
    match j {
        JsonV::Obj(o) => {
            &&& lookup(o, "connection_info"@) matches Some(x) && ci_decodable(x)
        }
        _ => false,
    }
}

/// What the decoded values hold, member by member.
pub open spec fn cm_provide_matches(j: JsonV, connection_info: ConnectionInfo) -> bool {
    match j {
        JsonV::Obj(o) => {
            &&& lookup(o, "connection_info"@) matches Some(x) && ci_matches(x, connection_info)
        }
        _ => false,
    }
}

fn cm_provide_build(connection_info: &ConnectionInfo) -> (j: Json)
    ensures
        j@ == JsonV::Obj(cm_provide_members(*connection_info)),
{
    let mut fields: Vec<(String, Json)> = Vec::new();
    proof {
        assert(dv_fields(fields@) =~= Seq::<(Seq<char>, JsonV)>::empty());
    }
    push_member(&mut fields, "connection_info", ci_to_json(connection_info));
    proof {
        assert(dv_fields(fields@) =~= cm_provide_members(*connection_info));
    }
    Json::Obj(fields)
}

fn cm_provide_read(fields: &Vec<(String, Json)>) -> (r: Option<(ConnectionInfo,)>)
    ensures
        match r {
            Some(t) => cm_provide_matches(JsonV::Obj(dv_fields(fields@)), t.0),
            None => !cm_provide_decodable(JsonV::Obj(dv_fields(fields@))),
        },
        r is Some <==> cm_provide_decodable(JsonV::Obj(dv_fields(fields@))),
{
    let f_connection_info = match get_field(fields, "connection_info") { Some(d) => match ci_from_json(d) { Some(x) => x, None => { return None; } }, None => { return None; } };
    Some((f_connection_info,))
}

/// Round trip for this data object.
pub proof fn lemma_cm_provide_round_trip(connection_info: ConnectionInfo, connection_info2: ConnectionInfo)
    ensures
        cm_provide_decodable(JsonV::Obj(cm_provide_members(connection_info))),
        cm_provide_matches(JsonV::Obj(cm_provide_members(connection_info)), connection_info2) ==> cm_provide_members(connection_info2) == cm_provide_members(connection_info),
{
    reveal_strlit("connection_info");
    assert("connection_info"@.len() == 15);
    let s0 = seq![("connection_info"@, ci_jv(connection_info))];
    lemma_lookup_at(s0, 0);
    lemma_ci_round_trip(connection_info, connection_info);
    assert(cm_provide_decodable(JsonV::Obj(cm_provide_members(connection_info))));
    if cm_provide_matches(JsonV::Obj(cm_provide_members(connection_info)), connection_info2) {
        lemma_ci_round_trip(connection_info, connection_info2);
        assert(cm_provide_members(connection_info2) =~~= cm_provide_members(connection_info));
    }
}

/// Data of `Reconnect`: the members it is written with.
pub open spec fn cm_reconnect_members(player_id: PlayerId, room_id: RoomId, auth_token: String) -> Seq<(Seq<char>, JsonV)> {
    seq![("player_id"@, uid_jv(player_id))]
        + seq![("room_id"@, uid_jv(room_id))]
        + seq![("auth_token"@, JsonV::Str(auth_token@))]
}

/// Which data trees decode here.
pub open spec fn cm_reconnect_decodable(j: JsonV) -> bool {
    match j {
        JsonV::Obj(o) => {
            &&& sf_str_ok(o, "player_id"@) && uid_of(sf_str(o, "player_id"@)) is Some
            &&& sf_str_ok(o, "room_id"@) && uid_of(sf_str(o, "room_id"@)) is Some
            &&& sf_str_ok(o, "auth_token"@)
        }
        _ => false,
    }
}

/// What the decoded values hold, member by member.
pub open spec fn cm_reconnect_matches(j: JsonV, player_id: PlayerId, room_id: RoomId, auth_token: String) -> bool {
    match j {
        JsonV::Obj(o) => {
            &&& uid_of(sf_str(o, "player_id"@)) == Some(player_id.value as int)
            &&& uid_of(sf_str(o, "room_id"@)) == Some(room_id.value as int)
            &&& auth_token@ == sf_str(o, "auth_token"@)
        }
        _ => false,
    }
}

fn cm_reconnect_build(player_id: &PlayerId, room_id: &RoomId, auth_token: &String) -> (j: Json)
    ensures
        j@ == JsonV::Obj(cm_reconnect_members(*player_id, *room_id, *auth_token)),
{
    let mut fields: Vec<(String, Json)> = Vec::new();
    proof {
        assert(dv_fields(fields@) =~= Seq::<(Seq<char>, JsonV)>::empty());
    }
    push_member(&mut fields, "player_id", uid_to_json(player_id));
    push_member(&mut fields, "room_id", uid_to_json(room_id));
    push_member(&mut fields, "auth_token", Json::Str((auth_token).clone()));
    proof {
        assert(dv_fields(fields@) =~= cm_reconnect_members(*player_id, *room_id, *auth_token));
    }
    Json::Obj(fields)
}

fn cm_reconnect_read(fields: &Vec<(String, Json)>) -> (r: Option<(PlayerId, RoomId, String)>)
    ensures
        match r {
            Some(t) => cm_reconnect_matches(JsonV::Obj(dv_fields(fields@)), t.0, t.1, t.2),
            None => !cm_reconnect_decodable(JsonV::Obj(dv_fields(fields@))),
        },
        r is Some <==> cm_reconnect_decodable(JsonV::Obj(dv_fields(fields@))),
{
    let f_player_id = match get_str(fields, "player_id") { Some(s) => match uid_from_text(s.as_str()) { Some(u) => u, None => { return None; } }, None => { return None; } };
    let f_room_id = match get_str(fields, "room_id") { Some(s) => match uid_from_text(s.as_str()) { Some(u) => u, None => { return None; } }, None => { return None; } };
    let f_auth_token = match get_str(fields, "auth_token") { Some(s) => s, None => { return None; } };
    Some((f_player_id, f_room_id, f_auth_token))
}

/// Round trip for this data object.
pub proof fn lemma_cm_reconnect_round_trip(player_id: PlayerId, room_id: RoomId, auth_token: String, player_id2: PlayerId, room_id2: RoomId, auth_token2: String)
    ensures
        cm_reconnect_decodable(JsonV::Obj(cm_reconnect_members(player_id, room_id, auth_token))),
        cm_reconnect_matches(JsonV::Obj(cm_reconnect_members(player_id, room_id, auth_token)), player_id2, room_id2, auth_token2) ==> cm_reconnect_members(player_id2, room_id2, auth_token2) == cm_reconnect_members(player_id, room_id, auth_token),
{
    reveal_strlit("auth_token");
    reveal_strlit("player_id");
    reveal_strlit("room_id");
    assert("auth_token"@.len() == 10);
    assert("player_id"@.len() == 9);
    assert("room_id"@.len() == 7);
    let s0 = seq![("player_id"@, uid_jv(player_id))];
    let s1 = seq![("room_id"@, uid_jv(room_id))];
    let s2 = seq![("auth_token"@, JsonV::Str(auth_token@))];
    lemma_lookup_at(s0, 0);
    lemma_lookup_absent(s0, "room_id"@);
    lemma_lookup_absent(s0, "auth_token"@);
    lemma_lookup_at(s1, 0);
    lemma_lookup_absent(s1, "player_id"@);
    lemma_lookup_absent(s1, "auth_token"@);
    lemma_lookup_at(s2, 0);
    lemma_lookup_absent(s2, "player_id"@);
    lemma_lookup_absent(s2, "room_id"@);
    let p1 = s0 + s1;
    let p2 = p1 + s2;
    lemma_lookup_append(s0, s1, "player_id"@);
    lemma_lookup_append(p1, s2, "player_id"@);
    lemma_lookup_append(s0, s1, "room_id"@);
    lemma_lookup_append(p1, s2, "room_id"@);
    lemma_lookup_append(s0, s1, "auth_token"@);
    lemma_lookup_append(p1, s2, "auth_token"@);
    lemma_uid_text_round_trip(player_id.value as int);
    lemma_uid_text_round_trip(room_id.value as int);
    assert(cm_reconnect_decodable(JsonV::Obj(cm_reconnect_members(player_id, room_id, auth_token))));
    if cm_reconnect_matches(JsonV::Obj(cm_reconnect_members(player_id, room_id, auth_token)), player_id2, room_id2, auth_token2) {
        assert(cm_reconnect_members(player_id2, room_id2, auth_token2) =~~= cm_reconnect_members(player_id, room_id, auth_token));
    }
}

/// Data of `JoinAsSpectator`: the members it is written with.
pub open spec fn cm_spectate_members(game_name: String, room_code: String, spectator_name: String) -> Seq<(Seq<char>, JsonV)> {
    seq![("game_name"@, JsonV::Str(game_name@))]
        + seq![("room_code"@, JsonV::Str(room_code@))]
        + seq![("spectator_name"@, JsonV::Str(spectator_name@))]
}

/// Which data trees decode here.
pub open spec fn cm_spectate_decodable(j: JsonV) -> bool {
    match j {
        JsonV::Obj(o) => {
            &&& sf_str_ok(o, "game_name"@)
            &&& sf_str_ok(o, "room_code"@)
            &&& sf_str_ok(o, "spectator_name"@)
        }
        _ => false,
    }
}

/// What the decoded values hold, member by member.
pub open spec fn cm_spectate_matches(j: JsonV, game_name: String, room_code: String, spectator_name: String) -> bool {
    match j {
        JsonV::Obj(o) => {
            &&& game_name@ == sf_str(o, "game_name"@)
            &&& room_code@ == sf_str(o, "room_code"@)
            &&& spectator_name@ == sf_str(o, "spectator_name"@)
        }
        _ => false,
    }
}

fn cm_spectate_build(game_name: &String, room_code: &String, spectator_name: &String) -> (j: Json)
    ensures
        j@ == JsonV::Obj(cm_spectate_members(*game_name, *room_code, *spectator_name)),
{
    let mut fields: Vec<(String, Json)> = Vec::new();
    proof {
        assert(dv_fields(fields@) =~= Seq::<(Seq<char>, JsonV)>::empty());
    }
    push_member(&mut fields, "game_name", Json::Str((game_name).clone()));
    push_member(&mut fields, "room_code", Json::Str((room_code).clone()));
    push_member(&mut fields, "spectator_name", Json::Str((spectator_name).clone()));
    proof {
        assert(dv_fields(fields@) =~= cm_spectate_members(*game_name, *room_code, *spectator_name));
    }
    Json::Obj(fields)
}

fn cm_spectate_read(fields: &Vec<(String, Json)>) -> (r: Option<(String, String, String)>)
    ensures
        match r {
            Some(t) => cm_spectate_matches(JsonV::Obj(dv_fields(fields@)), t.0, t.1, t.2),
            None => !cm_spectate_decodable(JsonV::Obj(dv_fields(fields@))),
        },
        r is Some <==> cm_spectate_decodable(JsonV::Obj(dv_fields(fields@))),
{
    let f_game_name = match get_str(fields, "game_name") { Some(s) => s, None => { return None; } };
    let f_room_code = match get_str(fields, "room_code") { Some(s) => s, None => { return None; } };
    let f_spectator_name = match get_str(fields, "spectator_name") { Some(s) => s, None => { return None; } };
    Some((f_game_name, f_room_code, f_spectator_name))
}

/// Round trip for this data object.
pub proof fn lemma_cm_spectate_round_trip(game_name: String, room_code: String, spectator_name: String, game_name2: String, room_code2: String, spectator_name2: String)
    ensures
        cm_spectate_decodable(JsonV::Obj(cm_spectate_members(game_name, room_code, spectator_name))),
        cm_spectate_matches(JsonV::Obj(cm_spectate_members(game_name, room_code, spectator_name)), game_name2, room_code2, spectator_name2) ==> cm_spectate_members(game_name2, room_code2, spectator_name2) == cm_spectate_members(game_name, room_code, spectator_name),
{
    reveal_strlit("game_name");
    reveal_strlit("room_code");
    reveal_strlit("spectator_name");
    assert("game_name"@.len() == 9);
    assert("room_code"@.len() == 9);
    assert("spectator_name"@.len() == 14);
    assert("game_name"@[0] == 'g');
    assert("room_code"@[0] == 'r');
    let s0 = seq![("game_name"@, JsonV::Str(game_name@))];
    let s1 = seq![("room_code"@, JsonV::Str(room_code@))];
    let s2 = seq![("spectator_name"@, JsonV::Str(spectator_name@))];
    lemma_lookup_at(s0, 0);
    lemma_lookup_absent(s0, "room_code"@);
    lemma_lookup_absent(s0, "spectator_name"@);
    lemma_lookup_at(s1, 0);
    lemma_lookup_absent(s1, "game_name"@);
    lemma_lookup_absent(s1, "spectator_name"@);
    lemma_lookup_at(s2, 0);
    lemma_lookup_absent(s2, "game_name"@);
    lemma_lookup_absent(s2, "room_code"@);
    let p1 = s0 + s1;
    let p2 = p1 + s2;
    lemma_lookup_append(s0, s1, "game_name"@);
    lemma_lookup_append(p1, s2, "game_name"@);
    lemma_lookup_append(s0, s1, "room_code"@);
    lemma_lookup_append(p1, s2, "room_code"@);
    lemma_lookup_append(s0, s1, "spectator_name"@);
    lemma_lookup_append(p1, s2, "spectator_name"@);
    assert(cm_spectate_decodable(JsonV::Obj(cm_spectate_members(game_name, room_code, spectator_name))));
    if cm_spectate_matches(JsonV::Obj(cm_spectate_members(game_name, room_code, spectator_name)), game_name2, room_code2, spectator_name2) {
        assert(cm_spectate_members(game_name2, room_code2, spectator_name2) =~~= cm_spectate_members(game_name, room_code, spectator_name));
    }
}

/// Data of `Authenticated`: the members it is written with.
pub open spec fn sm_authed_members(app_name: String, organization: Option<String>, rate_limits: RateLimitInfo) -> Seq<(Seq<char>, JsonV)> {
    seq![("app_name"@, JsonV::Str(app_name@))]
        + (match organization { Some(x) => seq![("organization"@, JsonV::Str(x@))], None => Seq::empty() })
        + seq![("rate_limits"@, rl_jv(rate_limits))]
}

/// Which data trees decode here.
pub open spec fn sm_authed_decodable(j: JsonV) -> bool {
    match j {
        JsonV::Obj(o) => {
            &&& sf_str_ok(o, "app_name"@)
            &&& (sf_absent(o, "organization"@) || (sf_str_ok(o, "organization"@)))
            &&& lookup(o, "rate_limits"@) matches Some(x) && rl_decodable(x)
        }
        _ => false,
    }
}

/// What the decoded values hold, member by member.
pub open spec fn sm_authed_matches(j: JsonV, app_name: String, organization: Option<String>, rate_limits: RateLimitInfo) -> bool {
    match j {
        JsonV::Obj(o) => {
            &&& app_name@ == sf_str(o, "app_name"@)
            &&& (if sf_absent(o, "organization"@) { organization is None } else { organization matches Some(vv) && (vv@ == sf_str(o, "organization"@)) })
            &&& lookup(o, "rate_limits"@) matches Some(x) && rl_matches(x, rate_limits)
        }
        _ => false,
    }
}

fn sm_authed_build(app_name: &String, organization: &Option<String>, rate_limits: &RateLimitInfo) -> (j: Json)
    ensures
        j@ == JsonV::Obj(sm_authed_members(*app_name, *organization, *rate_limits)),
{
    let mut fields: Vec<(String, Json)> = Vec::new();
    proof {
        assert(dv_fields(fields@) =~= Seq::<(Seq<char>, JsonV)>::empty());
    }
    push_member(&mut fields, "app_name", Json::Str((app_name).clone()));
    match organization { Some(x) => { push_member(&mut fields, "organization", Json::Str((x).clone())); } None => {} }
    push_member(&mut fields, "rate_limits", rl_to_json(rate_limits));
    proof {
        assert(dv_fields(fields@) =~= sm_authed_members(*app_name, *organization, *rate_limits));
    }
    Json::Obj(fields)
}

fn sm_authed_read(fields: &Vec<(String, Json)>) -> (r: Option<(String, Option<String>, RateLimitInfo)>)
    ensures
        match r {
            Some(t) => sm_authed_matches(JsonV::Obj(dv_fields(fields@)), t.0, t.1, t.2),
            None => !sm_authed_decodable(JsonV::Obj(dv_fields(fields@))),
        },
        r is Some <==> sm_authed_decodable(JsonV::Obj(dv_fields(fields@))),
{
    let f_app_name = match get_str(fields, "app_name") { Some(s) => s, None => { return None; } };
    let f_organization = match get_opt_str(fields, "organization") { Some(x) => x, None => { return None; } };
    let f_rate_limits = match get_field(fields, "rate_limits") { Some(d) => match rl_from_json(d) { Some(x) => x, None => { return None; } }, None => { return None; } };
    Some((f_app_name, f_organization, f_rate_limits))
}

/// Round trip for this data object.
pub proof fn lemma_sm_authed_round_trip(app_name: String, organization: Option<String>, rate_limits: RateLimitInfo, app_name2: String, organization2: Option<String>, rate_limits2: RateLimitInfo)
    ensures
        sm_authed_decodable(JsonV::Obj(sm_authed_members(app_name, organization, rate_limits))),
        sm_authed_matches(JsonV::Obj(sm_authed_members(app_name, organization, rate_limits)), app_name2, organization2, rate_limits2) ==> sm_authed_members(app_name2, organization2, rate_limits2) == sm_authed_members(app_name, organization, rate_limits),
{
    reveal_strlit("app_name");
    reveal_strlit("organization");
    reveal_strlit("rate_limits");
    assert("app_name"@.len() == 8);
    assert("organization"@.len() == 12);
    assert("rate_limits"@.len() == 11);
    let s0 = seq![("app_name"@, JsonV::Str(app_name@))];
    let s1 = (match organization { Some(x) => seq![("organization"@, JsonV::Str(x@))], None => Seq::empty() });
    let s2 = seq![("rate_limits"@, rl_jv(rate_limits))];
    lemma_lookup_at(s0, 0);
    lemma_lookup_absent(s0, "organization"@);
    lemma_lookup_absent(s0, "rate_limits"@);
    match organization {
        Some(_) => {
            lemma_lookup_at(s1, 0);
            lemma_lookup_absent(s1, "app_name"@);
            lemma_lookup_absent(s1, "rate_limits"@);
        }
        None => {
            lemma_lookup_absent(s1, "app_name"@);
            lemma_lookup_absent(s1, "organization"@);
            lemma_lookup_absent(s1, "rate_limits"@);
        }
    }
    lemma_lookup_at(s2, 0);
    lemma_lookup_absent(s2, "app_name"@);
    lemma_lookup_absent(s2, "organization"@);
    let p1 = s0 + s1;
    let p2 = p1 + s2;
    lemma_lookup_append(s0, s1, "app_name"@);
    lemma_lookup_append(p1, s2, "app_name"@);
    lemma_lookup_append(s0, s1, "organization"@);
    lemma_lookup_append(p1, s2, "organization"@);
    lemma_lookup_append(s0, s1, "rate_limits"@);
    lemma_lookup_append(p1, s2, "rate_limits"@);
    lemma_rl_round_trip(rate_limits, rate_limits);
    assert(sm_authed_decodable(JsonV::Obj(sm_authed_members(app_name, organization, rate_limits))));
    if sm_authed_matches(JsonV::Obj(sm_authed_members(app_name, organization, rate_limits)), app_name2, organization2, rate_limits2) {
        lemma_rl_round_trip(rate_limits, rate_limits2);
        assert(sm_authed_members(app_name2, organization2, rate_limits2) =~~= sm_authed_members(app_name, organization, rate_limits));
    }
}

/// Data of `AuthenticationError`: the members it is written with.
pub open spec fn sm_autherr_members(error: String, error_code: ErrorCode) -> Seq<(Seq<char>, JsonV)> {
    seq![("error"@, JsonV::Str(error@))]
        + seq![("error_code"@, JsonV::Str(code_str(error_code)))]
}

/// Which data trees decode here.
pub open spec fn sm_autherr_decodable(j: JsonV) -> bool {
    match j {
        JsonV::Obj(o) => {
            &&& sf_str_ok(o, "error"@)
            &&& sf_str_ok(o, "error_code"@) && code_of(sf_str(o, "error_code"@)) is Some
        }
        _ => false,
    }
}

/// What the decoded values hold, member by member.
pub open spec fn sm_autherr_matches(j: JsonV, error: String, error_code: ErrorCode) -> bool {
    match j {
        JsonV::Obj(o) => {
            &&& error@ == sf_str(o, "error"@)
            &&& code_of(sf_str(o, "error_code"@)) == Some(error_code)
        }
        _ => false,
    }
}

fn sm_autherr_build(error: &String, error_code: &ErrorCode) -> (j: Json)
    ensures
        j@ == JsonV::Obj(sm_autherr_members(*error, *error_code)),
{
    let mut fields: Vec<(String, Json)> = Vec::new();
    proof {
        assert(dv_fields(fields@) =~= Seq::<(Seq<char>, JsonV)>::empty());
    }
    push_member(&mut fields, "error", Json::Str((error).clone()));
    push_member(&mut fields, "error_code", Json::Str(String::from_str(error_code.code_text())));
    proof {
        assert(dv_fields(fields@) =~= sm_autherr_members(*error, *error_code));
    }
    Json::Obj(fields)
}

fn sm_autherr_read(fields: &Vec<(String, Json)>) -> (r: Option<(String, ErrorCode)>)
    ensures
        match r {
            Some(t) => sm_autherr_matches(JsonV::Obj(dv_fields(fields@)), t.0, t.1),
            None => !sm_autherr_decodable(JsonV::Obj(dv_fields(fields@))),
        },
        r is Some <==> sm_autherr_decodable(JsonV::Obj(dv_fields(fields@))),
{
    let f_error = match get_str(fields, "error") { Some(s) => s, None => { return None; } };
    let f_error_code = match get_str(fields, "error_code") { Some(s) => match ErrorCode::from_text(s.as_str()) { Some(e) => e, None => { return None; } }, None => { return None; } };
    Some((f_error, f_error_code))
}

/// Round trip for this data object.
pub proof fn lemma_sm_autherr_round_trip(error: String, error_code: ErrorCode, error2: String, error_code2: ErrorCode)
    ensures
        sm_autherr_decodable(JsonV::Obj(sm_autherr_members(error, error_code))),
        sm_autherr_matches(JsonV::Obj(sm_autherr_members(error, error_code)), error2, error_code2) ==> sm_autherr_members(error2, error_code2) == sm_autherr_members(error, error_code),
{
    reveal_strlit("error");
    reveal_strlit("error_code");
    assert("error"@.len() == 5);
    assert("error_code"@.len() == 10);
    let s0 = seq![("error"@, JsonV::Str(error@))];
    let s1 = seq![("error_code"@, JsonV::Str(code_str(error_code)))];
    lemma_lookup_at(s0, 0);
    lemma_lookup_absent(s0, "error_code"@);
    lemma_lookup_at(s1, 0);
    lemma_lookup_absent(s1, "error"@);
    let p1 = s0 + s1;
    lemma_lookup_append(s0, s1, "error"@);
    lemma_lookup_append(s0, s1, "error_code"@);
    lemma_error_code_round_trip(error_code);
    assert(sm_autherr_decodable(JsonV::Obj(sm_autherr_members(error, error_code))));
    if sm_autherr_matches(JsonV::Obj(sm_autherr_members(error, error_code)), error2, error_code2) {
        assert(sm_autherr_members(error2, error_code2) =~~= sm_autherr_members(error, error_code));
    }
}

/// Data of `RoomJoinFailed`: the members it is written with.
pub open spec fn sm_joinfail_members(reason: String, error_code: Option<ErrorCode>) -> Seq<(Seq<char>, JsonV)> {
    seq![("reason"@, JsonV::Str(reason@))]
        + (match error_code { Some(x) => seq![("error_code"@, JsonV::Str(code_str(x)))], None => Seq::empty() })
}

/// Which data trees decode here.
pub open spec fn sm_joinfail_decodable(j: JsonV) -> bool {
    match j {
        JsonV::Obj(o) => {
            &&& sf_str_ok(o, "reason"@)
            &&& (sf_absent(o, "error_code"@) || (sf_str_ok(o, "error_code"@) && code_of(sf_str(o, "error_code"@)) is Some))
        }
        _ => false,
    }
}

/// What the decoded values hold, member by member.
pub open spec fn sm_joinfail_matches(j: JsonV, reason: String, error_code: Option<ErrorCode>) -> bool {
    match j {
        JsonV::Obj(o) => {
            &&& reason@ == sf_str(o, "reason"@)
            &&& (if sf_absent(o, "error_code"@) { error_code is None } else { error_code matches Some(vv) && (code_of(sf_str(o, "error_code"@)) == Some(vv)) })
        }
        _ => false,
    }
}

fn sm_joinfail_build(reason: &String, error_code: &Option<ErrorCode>) -> (j: Json)
    ensures
        j@ == JsonV::Obj(sm_joinfail_members(*reason, *error_code)),
{
    let mut fields: Vec<(String, Json)> = Vec::new();
    proof {
        assert(dv_fields(fields@) =~= Seq::<(Seq<char>, JsonV)>::empty());
    }
    push_member(&mut fields, "reason", Json::Str((reason).clone()));
    match error_code { Some(x) => { push_member(&mut fields, "error_code", Json::Str(String::from_str(x.code_text()))); } None => {} }
    proof {
        assert(dv_fields(fields@) =~= sm_joinfail_members(*reason, *error_code));
    }
    Json::Obj(fields)
}

fn sm_joinfail_read(fields: &Vec<(String, Json)>) -> (r: Option<(String, Option<ErrorCode>)>)
    ensures
        match r {
            Some(t) => sm_joinfail_matches(JsonV::Obj(dv_fields(fields@)), t.0, t.1),
            None => !sm_joinfail_decodable(JsonV::Obj(dv_fields(fields@))),
        },
        r is Some <==> sm_joinfail_decodable(JsonV::Obj(dv_fields(fields@))),
{
    let f_reason = match get_str(fields, "reason") { Some(s) => s, None => { return None; } };
    let f_error_code = match get_opt_str(fields, "error_code") {
        Some(Some(s)) => match ErrorCode::from_text(s.as_str()) { Some(e) => Some(e), None => { return None; } },
        Some(None) => None,
        None => { return None; }
    };
    Some((f_reason, f_error_code))
}

/// Round trip for this data object.
pub proof fn lemma_sm_joinfail_round_trip(reason: String, error_code: Option<ErrorCode>, reason2: String, error_code2: Option<ErrorCode>)
    ensures
        sm_joinfail_decodable(JsonV::Obj(sm_joinfail_members(reason, error_code))),
        sm_joinfail_matches(JsonV::Obj(sm_joinfail_members(reason, error_code)), reason2, error_code2) ==> sm_joinfail_members(reason2, error_code2) == sm_joinfail_members(reason, error_code),
{
    reveal_strlit("error_code");
    reveal_strlit("reason");
    assert("error_code"@.len() == 10);
    assert("reason"@.len() == 6);
    let s0 = seq![("reason"@, JsonV::Str(reason@))];
    let s1 = (match error_code { Some(x) => seq![("error_code"@, JsonV::Str(code_str(x)))], None => Seq::empty() });
    lemma_lookup_at(s0, 0);
    lemma_lookup_absent(s0, "error_code"@);
    match error_code {
        Some(_) => {
            lemma_lookup_at(s1, 0);
            lemma_lookup_absent(s1, "reason"@);
        }
        None => {
            lemma_lookup_absent(s1, "reason"@);
            lemma_lookup_absent(s1, "error_code"@);
        }
    }
    let p1 = s0 + s1;
    lemma_lookup_append(s0, s1, "reason"@);
    lemma_lookup_append(s0, s1, "error_code"@);
    match error_code { Some(x) => { lemma_error_code_round_trip(x); } None => {} }
    assert(sm_joinfail_decodable(JsonV::Obj(sm_joinfail_members(reason, error_code))));
    if sm_joinfail_matches(JsonV::Obj(sm_joinfail_members(reason, error_code)), reason2, error_code2) {
        assert(sm_joinfail_members(reason2, error_code2) =~~= sm_joinfail_members(reason, error_code));
    }
}

/// Data of `PlayerJoined`: the members it is written with.
pub open spec fn sm_pjoined_members(player: PlayerInfo) -> Seq<(Seq<char>, JsonV)> {
    seq![("player"@, pi_jv(player))]
}

/// Which data trees decode here.
pub open spec fn sm_pjoined_decodable(j: JsonV) -> bool {
    match j {
        JsonV::Obj(o) => {
            &&& lookup(o, "player"@) matches Some(x) && pi_decodable(x)
        }
        _ => false,
    }
}

/// What the decoded values hold, member by member.
pub open spec fn sm_pjoined_matches(j: JsonV, player: PlayerInfo) -> bool {
    match j {
        JsonV::Obj(o) => {
            &&& lookup(o, "player"@) matches Some(x) && pi_matches(x, player)
        }
        _ => false,
    }
}

fn sm_pjoined_build(player: &PlayerInfo) -> (j: Json)
    ensures
        j@ == JsonV::Obj(sm_pjoined_members(*player)),
{
    let mut fields: Vec<(String, Json)> = Vec::new();
    proof {
        assert(dv_fields(fields@) =~= Seq::<(Seq<char>, JsonV)>::empty());
    }
    push_member(&mut fields, "player", pi_to_json(player));
    proof {
        assert(dv_fields(fields@) =~= sm_pjoined_members(*player));
    }
    Json::Obj(fields)
}

fn sm_pjoined_read(fields: &Vec<(String, Json)>) -> (r: Option<(PlayerInfo,)>)
    ensures
        match r {
            Some(t) => sm_pjoined_matches(JsonV::Obj(dv_fields(fields@)), t.0),
            None => !sm_pjoined_decodable(JsonV::Obj(dv_fields(fields@))),
        },
        r is Some <==> sm_pjoined_decodable(JsonV::Obj(dv_fields(fields@))),
{
    let f_player = match get_field(fields, "player") { Some(d) => match pi_from_json(d) { Some(x) => x, None => { return None; } }, None => { return None; } };
    Some((f_player,))
}

/// Round trip for this data object.
pub proof fn lemma_sm_pjoined_round_trip(player: PlayerInfo, player2: PlayerInfo)
    ensures
        sm_pjoined_decodable(JsonV::Obj(sm_pjoined_members(player))),
        sm_pjoined_matches(JsonV::Obj(sm_pjoined_members(player)), player2) ==> sm_pjoined_members(player2) == sm_pjoined_members(player),
{
    reveal_strlit("player");
    assert("player"@.len() == 6);
    let s0 = seq![("player"@, pi_jv(player))];
    lemma_lookup_at(s0, 0);
    lemma_pi_round_trip(player, player);
    assert(sm_pjoined_decodable(JsonV::Obj(sm_pjoined_members(player))));
    if sm_pjoined_matches(JsonV::Obj(sm_pjoined_members(player)), player2) {
        lemma_pi_round_trip(player, player2);
        assert(sm_pjoined_members(player2) =~~= sm_pjoined_members(player));
    }
}

/// Data of `PlayerLeft`: the members it is written with.
pub open spec fn sm_pleft_members(player_id: PlayerId) -> Seq<(Seq<char>, JsonV)> {
    seq![("player_id"@, uid_jv(player_id))]
}

/// Which data trees decode here.
pub open spec fn sm_pleft_decodable(j: JsonV) -> bool {
    match j {
        JsonV::Obj(o) => {
            &&& sf_str_ok(o, "player_id"@) && uid_of(sf_str(o, "player_id"@)) is Some
        }
        _ => false,
    }
}

/// What the decoded values hold, member by member.
pub open spec fn sm_pleft_matches(j: JsonV, player_id: PlayerId) -> bool {
    match j {
        JsonV::Obj(o) => {
            &&& uid_of(sf_str(o, "player_id"@)) == Some(player_id.value as int)
        }
        _ => false,
    }
}

fn sm_pleft_build(player_id: &PlayerId) -> (j: Json)
    ensures
        j@ == JsonV::Obj(sm_pleft_members(*player_id)),
{
    let mut fields: Vec<(String, Json)> = Vec::new();
    proof {
        assert(dv_fields(fields@) =~= Seq::<(Seq<char>, JsonV)>::empty());
    }
    push_member(&mut fields, "player_id", uid_to_json(player_id));
    proof {
        assert(dv_fields(fields@) =~= sm_pleft_members(*player_id));
    }
    Json::Obj(fields)
}

fn sm_pleft_read(fields: &Vec<(String, Json)>) -> (r: Option<(PlayerId,)>)
    ensures
        match r {
            Some(t) => sm_pleft_matches(JsonV::Obj(dv_fields(fields@)), t.0),
            None => !sm_pleft_decodable(JsonV::Obj(dv_fields(fields@))),
        },
        r is Some <==> sm_pleft_decodable(JsonV::Obj(dv_fields(fields@))),
{
    let f_player_id = match get_str(fields, "player_id") { Some(s) => match uid_from_text(s.as_str()) { Some(u) => u, None => { return None; } }, None => { return None; } };
    Some((f_player_id,))
}

/// Round trip for this data object.
pub proof fn lemma_sm_pleft_round_trip(player_id: PlayerId, player_id2: PlayerId)
    ensures
        sm_pleft_decodable(JsonV::Obj(sm_pleft_members(player_id))),
        sm_pleft_matches(JsonV::Obj(sm_pleft_members(player_id)), player_id2) ==> sm_pleft_members(player_id2) == sm_pleft_members(player_id),
{
    reveal_strlit("player_id");
    assert("player_id"@.len() == 9);
    let s0 = seq![("player_id"@, uid_jv(player_id))];
    lemma_lookup_at(s0, 0);
    lemma_uid_text_round_trip(player_id.value as int);
    assert(sm_pleft_decodable(JsonV::Obj(sm_pleft_members(player_id))));
    if sm_pleft_matches(JsonV::Obj(sm_pleft_members(player_id)), player_id2) {
        assert(sm_pleft_members(player_id2) =~~= sm_pleft_members(player_id));
    }
}

/// Data of the incoming `GameData`: the members it is written with.
pub open spec fn sm_gdata_members(from_player: PlayerId, data: Json) -> Seq<(Seq<char>, JsonV)> {
    seq![("from_player"@, uid_jv(from_player))]
        + seq![("data"@, data.dv())]
}

/// Which data trees decode here.
pub open spec fn sm_gdata_decodable(j: JsonV) -> bool {
    match j {
        JsonV::Obj(o) => {
            &&& sf_str_ok(o, "from_player"@) && uid_of(sf_str(o, "from_player"@)) is Some
            &&& lookup(o, "data"@) is Some
        }
        _ => false,
    }
}

/// What the decoded values hold, member by member.
pub open spec fn sm_gdata_matches(j: JsonV, from_player: PlayerId, data: Json) -> bool {
    match j {
        JsonV::Obj(o) => {
            &&& uid_of(sf_str(o, "from_player"@)) == Some(from_player.value as int)
            &&& lookup(o, "data"@) == Some(data.dv())
        }
        _ => false,
    }
}

fn sm_gdata_build(from_player: &PlayerId, data: &Json) -> (j: Json)
    ensures
        j@ == JsonV::Obj(sm_gdata_members(*from_player, *data)),
{
    let mut fields: Vec<(String, Json)> = Vec::new();
    proof {
        assert(dv_fields(fields@) =~= Seq::<(Seq<char>, JsonV)>::empty());
    }
    push_member(&mut fields, "from_player", uid_to_json(from_player));
    push_member(&mut fields, "data", json_clone(data));
    proof {
        assert(dv_fields(fields@) =~= sm_gdata_members(*from_player, *data));
    }
    Json::Obj(fields)
}

fn sm_gdata_read(fields: &Vec<(String, Json)>) -> (r: Option<(PlayerId, Json)>)
    ensures
        match r {
            Some(t) => sm_gdata_matches(JsonV::Obj(dv_fields(fields@)), t.0, t.1),
            None => !sm_gdata_decodable(JsonV::Obj(dv_fields(fields@))),
        },
        r is Some <==> sm_gdata_decodable(JsonV::Obj(dv_fields(fields@))),
{
    let f_from_player = match get_str(fields, "from_player") { Some(s) => match uid_from_text(s.as_str()) { Some(u) => u, None => { return None; } }, None => { return None; } };
    let f_data = match get_field(fields, "data") { Some(d) => json_clone(d), None => { return None; } };
    Some((f_from_player, f_data))
}

/// Round trip for this data object.
pub proof fn lemma_sm_gdata_round_trip(from_player: PlayerId, data: Json, from_player2: PlayerId, data2: Json)
    ensures
        sm_gdata_decodable(JsonV::Obj(sm_gdata_members(from_player, data))),
        sm_gdata_matches(JsonV::Obj(sm_gdata_members(from_player, data)), from_player2, data2) ==> sm_gdata_members(from_player2, data2) == sm_gdata_members(from_player, data),
{
    reveal_strlit("data");
    reveal_strlit("from_player");
    assert("data"@.len() == 4);
    assert("from_player"@.len() == 11);
    let s0 = seq![("from_player"@, uid_jv(from_player))];
    let s1 = seq![("data"@, data.dv())];
    lemma_lookup_at(s0, 0);
    lemma_lookup_absent(s0, "data"@);
    lemma_lookup_at(s1, 0);
    lemma_lookup_absent(s1, "from_player"@);
    let p1 = s0 + s1;
    lemma_lookup_append(s0, s1, "from_player"@);
    lemma_lookup_append(s0, s1, "data"@);
    lemma_uid_text_round_trip(from_player.value as int);
    assert(sm_gdata_decodable(JsonV::Obj(sm_gdata_members(from_player, data))));
    if sm_gdata_matches(JsonV::Obj(sm_gdata_members(from_player, data)), from_player2, data2) {
        assert(sm_gdata_members(from_player2, data2) =~~= sm_gdata_members(from_player, data));
    }
}

/// Data of `GameDataBinary`: the members it is written with.
pub open spec fn sm_gbin_members(from_player: PlayerId, encoding: GameDataEncoding, payload: Vec<u8>) -> Seq<(Seq<char>, JsonV)> {
    seq![("from_player"@, uid_jv(from_player))]
        + seq![("encoding"@, JsonV::Str(gde_str(encoding)))]
        + seq![("payload"@, JsonV::Arr(bytes_jv(payload@)))]
}

/// Which data trees decode here.
pub open spec fn sm_gbin_decodable(j: JsonV) -> bool {
    match j {
        JsonV::Obj(o) => {
            &&& sf_str_ok(o, "from_player"@) && uid_of(sf_str(o, "from_player"@)) is Some
            &&& sf_str_ok(o, "encoding"@) && gde_of(sf_str(o, "encoding"@)) is Some
            &&& (lookup(o, "payload"@) matches Some(x) && arr_byte_decodable(x))
        }
        _ => false,
    }
}

/// What the decoded values hold, member by member.
pub open spec fn sm_gbin_matches(j: JsonV, from_player: PlayerId, encoding: GameDataEncoding, payload: Vec<u8>) -> bool {
    match j {
        JsonV::Obj(o) => {
            &&& uid_of(sf_str(o, "from_player"@)) == Some(from_player.value as int)
            &&& gde_of(sf_str(o, "encoding"@)) == Some(encoding)
            &&& (lookup(o, "payload"@) matches Some(x) && arr_byte_matches(x, payload@))
        }
        _ => false,
    }
}

fn sm_gbin_build(from_player: &PlayerId, encoding: &GameDataEncoding, payload: &Vec<u8>) -> (j: Json)
    ensures
        j@ == JsonV::Obj(sm_gbin_members(*from_player, *encoding, *payload)),
{
    let mut fields: Vec<(String, Json)> = Vec::new();
    proof {
        assert(dv_fields(fields@) =~= Seq::<(Seq<char>, JsonV)>::empty());
    }
    push_member(&mut fields, "from_player", uid_to_json(from_player));
    push_member(&mut fields, "encoding", Json::Str(String::from_str(encoding.wire_text())));
    push_member(&mut fields, "payload", bytes_to_json(payload));
    proof {
        assert(dv_fields(fields@) =~= sm_gbin_members(*from_player, *encoding, *payload));
    }
    Json::Obj(fields)
}

fn sm_gbin_read(fields: &Vec<(String, Json)>) -> (r: Option<(PlayerId, GameDataEncoding, Vec<u8>)>)
    ensures
        match r {
            Some(t) => sm_gbin_matches(JsonV::Obj(dv_fields(fields@)), t.0, t.1, t.2),
            None => !sm_gbin_decodable(JsonV::Obj(dv_fields(fields@))),
        },
        r is Some <==> sm_gbin_decodable(JsonV::Obj(dv_fields(fields@))),
{
    let f_from_player = match get_str(fields, "from_player") { Some(s) => match uid_from_text(s.as_str()) { Some(u) => u, None => { return None; } }, None => { return None; } };
    let f_encoding = match get_str(fields, "encoding") { Some(s) => match GameDataEncoding::from_text(s.as_str()) { Some(e) => e, None => { return None; } }, None => { return None; } };
    let f_payload = match get_field(fields, "payload") { Some(aj) => match bytes_from_json(aj) { Some(x) => x, None => { return None; } }, None => { return None; } };
    Some((f_from_player, f_encoding, f_payload))
}

/// Round trip for this data object.
pub proof fn lemma_sm_gbin_round_trip(from_player: PlayerId, encoding: GameDataEncoding, payload: Vec<u8>, from_player2: PlayerId, encoding2: GameDataEncoding, payload2: Vec<u8>)
    ensures
        sm_gbin_decodable(JsonV::Obj(sm_gbin_members(from_player, encoding, payload))),
        sm_gbin_matches(JsonV::Obj(sm_gbin_members(from_player, encoding, payload)), from_player2, encoding2, payload2) ==> sm_gbin_members(from_player2, encoding2, payload2) == sm_gbin_members(from_player, encoding, payload),
{
    reveal_strlit("encoding");
    reveal_strlit("from_player");
    reveal_strlit("payload");
    assert("encoding"@.len() == 8);
    assert("from_player"@.len() == 11);
    assert("payload"@.len() == 7);
    let s0 = seq![("from_player"@, uid_jv(from_player))];
    let s1 = seq![("encoding"@, JsonV::Str(gde_str(encoding)))];
    let s2 = seq![("payload"@, JsonV::Arr(bytes_jv(payload@)))];
    lemma_lookup_at(s0, 0);
    lemma_lookup_absent(s0, "encoding"@);
    lemma_lookup_absent(s0, "payload"@);
    lemma_lookup_at(s1, 0);
    lemma_lookup_absent(s1, "from_player"@);
    lemma_lookup_absent(s1, "payload"@);
    lemma_lookup_at(s2, 0);
    lemma_lookup_absent(s2, "from_player"@);
    lemma_lookup_absent(s2, "encoding"@);
    let p1 = s0 + s1;
    let p2 = p1 + s2;
    lemma_lookup_append(s0, s1, "from_player"@);
    lemma_lookup_append(p1, s2, "from_player"@);
    lemma_lookup_append(s0, s1, "encoding"@);
    lemma_lookup_append(p1, s2, "encoding"@);
    lemma_lookup_append(s0, s1, "payload"@);
    lemma_lookup_append(p1, s2, "payload"@);
    lemma_uid_text_round_trip(from_player.value as int);
    lemma_gde_round_trip(encoding);
    lemma_arr_byte_round_trip(payload@, payload@);
    assert(sm_gbin_decodable(JsonV::Obj(sm_gbin_members(from_player, encoding, payload))));
    if sm_gbin_matches(JsonV::Obj(sm_gbin_members(from_player, encoding, payload)), from_player2, encoding2, payload2) {
        lemma_arr_byte_round_trip(payload@, payload2@);
        assert(sm_gbin_members(from_player2, encoding2, payload2) =~~= sm_gbin_members(from_player, encoding, payload));
    }
}

/// Data of `AuthorityChanged`: the members it is written with.
pub open spec fn sm_authch_members(authority_player: Option<PlayerId>, you_are_authority: bool) -> Seq<(Seq<char>, JsonV)> {
    seq![("authority_player"@, (match authority_player { Some(x) => uid_jv(x), None => JsonV::Null }))]
        + seq![("you_are_authority"@, JsonV::Bool(you_are_authority))]
}

/// Which data trees decode here.
pub open spec fn sm_authch_decodable(j: JsonV) -> bool {
    match j {
        JsonV::Obj(o) => {
            &&& (sf_absent(o, "authority_player"@) || (sf_str_ok(o, "authority_player"@) && uid_of(sf_str(o, "authority_player"@)) is Some))
            &&& sf_bool_ok(o, "you_are_authority"@)
        }
        _ => false,
    }
}

/// What the decoded values hold, member by member.
pub open spec fn sm_authch_matches(j: JsonV, authority_player: Option<PlayerId>, you_are_authority: bool) -> bool {
    match j {
        JsonV::Obj(o) => {
            &&& (if sf_absent(o, "authority_player"@) { authority_player is None } else { authority_player matches Some(vv) && (uid_of(sf_str(o, "authority_player"@)) == Some(vv.value as int)) })
            &&& you_are_authority == sf_bool(o, "you_are_authority"@)
        }
        _ => false,
    }
}

fn sm_authch_build(authority_player: &Option<PlayerId>, you_are_authority: &bool) -> (j: Json)
    ensures
        j@ == JsonV::Obj(sm_authch_members(*authority_player, *you_are_authority)),
{
    let mut fields: Vec<(String, Json)> = Vec::new();
    proof {
        assert(dv_fields(fields@) =~= Seq::<(Seq<char>, JsonV)>::empty());
    }
    match authority_player { Some(x) => { push_member(&mut fields, "authority_player", uid_to_json(x)); } None => { push_member(&mut fields, "authority_player", Json::Null); } }
    push_member(&mut fields, "you_are_authority", Json::Bool(*you_are_authority));
    proof {
        assert(dv_fields(fields@) =~= sm_authch_members(*authority_player, *you_are_authority));
    }
    Json::Obj(fields)
}

fn sm_authch_read(fields: &Vec<(String, Json)>) -> (r: Option<(Option<PlayerId>, bool)>)
    ensures
        match r {
            Some(t) => sm_authch_matches(JsonV::Obj(dv_fields(fields@)), t.0, t.1),
            None => !sm_authch_decodable(JsonV::Obj(dv_fields(fields@))),
        },
        r is Some <==> sm_authch_decodable(JsonV::Obj(dv_fields(fields@))),
{
    let f_authority_player = match get_opt_str(fields, "authority_player") {
        Some(Some(s)) => match uid_from_text(s.as_str()) { Some(u) => Some(u), None => { return None; } },
        Some(None) => None,
        None => { return None; }
    };
    let f_you_are_authority = match get_bool(fields, "you_are_authority") { Some(b) => b, None => { return None; } };
    Some((f_authority_player, f_you_are_authority))
}

/// Round trip for this data object.
pub proof fn lemma_sm_authch_round_trip(authority_player: Option<PlayerId>, you_are_authority: bool, authority_player2: Option<PlayerId>, you_are_authority2: bool)
    ensures
        sm_authch_decodable(JsonV::Obj(sm_authch_members(authority_player, you_are_authority))),
        sm_authch_matches(JsonV::Obj(sm_authch_members(authority_player, you_are_authority)), authority_player2, you_are_authority2) ==> sm_authch_members(authority_player2, you_are_authority2) == sm_authch_members(authority_player, you_are_authority),
{
    reveal_strlit("authority_player");
    reveal_strlit("you_are_authority");
    assert("authority_player"@.len() == 16);
    assert("you_are_authority"@.len() == 17);
    let s0 = seq![("authority_player"@, (match authority_player { Some(x) => uid_jv(x), None => JsonV::Null }))];
    let s1 = seq![("you_are_authority"@, JsonV::Bool(you_are_authority))];
    lemma_lookup_at(s0, 0);
    lemma_lookup_absent(s0, "you_are_authority"@);
    lemma_lookup_at(s1, 0);
    lemma_lookup_absent(s1, "authority_player"@);
    let p1 = s0 + s1;
    lemma_lookup_append(s0, s1, "authority_player"@);
    lemma_lookup_append(s0, s1, "you_are_authority"@);
    match authority_player { Some(x) => { lemma_uid_text_round_trip(x.value as int); } None => {} }
    assert(sm_authch_decodable(JsonV::Obj(sm_authch_members(authority_player, you_are_authority))));
    if sm_authch_matches(JsonV::Obj(sm_authch_members(authority_player, you_are_authority)), authority_player2, you_are_authority2) {
        assert(sm_authch_members(authority_player2, you_are_authority2) =~~= sm_authch_members(authority_player, you_are_authority));
    }
}

/// Data of `AuthorityResponse`: the members it is written with.
pub open spec fn sm_authresp_members(granted: bool, reason: Option<String>, error_code: Option<ErrorCode>) -> Seq<(Seq<char>, JsonV)> {
    seq![("granted"@, JsonV::Bool(granted))]
        + seq![("reason"@, (match reason { Some(x) => JsonV::Str(x@), None => JsonV::Null }))]
        + (match error_code { Some(x) => seq![("error_code"@, JsonV::Str(code_str(x)))], None => Seq::empty() })
}

/// Which data trees decode here.
pub open spec fn sm_authresp_decodable(j: JsonV) -> bool {
    match j {
        JsonV::Obj(o) => {
            &&& sf_bool_ok(o, "granted"@)
            &&& (sf_absent(o, "reason"@) || (sf_str_ok(o, "reason"@)))
            &&& (sf_absent(o, "error_code"@) || (sf_str_ok(o, "error_code"@) && code_of(sf_str(o, "error_code"@)) is Some))
        }
        _ => false,
    }
}

/// What the decoded values hold, member by member.
pub open spec fn sm_authresp_matches(j: JsonV, granted: bool, reason: Option<String>, error_code: Option<ErrorCode>) -> bool {
    match j {
        JsonV::Obj(o) => {
            &&& granted == sf_bool(o, "granted"@)
            &&& (if sf_absent(o, "reason"@) { reason is None } else { reason matches Some(vv) && (vv@ == sf_str(o, "reason"@)) })
            &&& (if sf_absent(o, "error_code"@) { error_code is None } else { error_code matches Some(vv) && (code_of(sf_str(o, "error_code"@)) == Some(vv)) })
        }
        _ => false,
    }
}

fn sm_authresp_build(granted: &bool, reason: &Option<String>, error_code: &Option<ErrorCode>) -> (j: Json)
    ensures
        j@ == JsonV::Obj(sm_authresp_members(*granted, *reason, *error_code)),
{
    let mut fields: Vec<(String, Json)> = Vec::new();
    proof {
        assert(dv_fields(fields@) =~= Seq::<(Seq<char>, JsonV)>::empty());
    }
    push_member(&mut fields, "granted", Json::Bool(*granted));
    match reason { Some(x) => { push_member(&mut fields, "reason", Json::Str((x).clone())); } None => { push_member(&mut fields, "reason", Json::Null); } }
    match error_code { Some(x) => { push_member(&mut fields, "error_code", Json::Str(String::from_str(x.code_text()))); } None => {} }
    proof {
        assert(dv_fields(fields@) =~= sm_authresp_members(*granted, *reason, *error_code));
    }
    Json::Obj(fields)
}

fn sm_authresp_read(fields: &Vec<(String, Json)>) -> (r: Option<(bool, Option<String>, Option<ErrorCode>)>)
    ensures
        match r {
            Some(t) => sm_authresp_matches(JsonV::Obj(dv_fields(fields@)), t.0, t.1, t.2),
            None => !sm_authresp_decodable(JsonV::Obj(dv_fields(fields@))),
        },
        r is Some <==> sm_authresp_decodable(JsonV::Obj(dv_fields(fields@))),
{
    let f_granted = match get_bool(fields, "granted") { Some(b) => b, None => { return None; } };
    let f_reason = match get_opt_str(fields, "reason") { Some(x) => x, None => { return None; } };
    let f_error_code = match get_opt_str(fields, "error_code") {
        Some(Some(s)) => match ErrorCode::from_text(s.as_str()) { Some(e) => Some(e), None => { return None; } },
        Some(None) => None,
        None => { return None; }
    };
    Some((f_granted, f_reason, f_error_code))
}

/// Round trip for this data object.
pub proof fn lemma_sm_authresp_round_trip(granted: bool, reason: Option<String>, error_code: Option<ErrorCode>, granted2: bool, reason2: Option<String>, error_code2: Option<ErrorCode>)
    ensures
        sm_authresp_decodable(JsonV::Obj(sm_authresp_members(granted, reason, error_code))),
        sm_authresp_matches(JsonV::Obj(sm_authresp_members(granted, reason, error_code)), granted2, reason2, error_code2) ==> sm_authresp_members(granted2, reason2, error_code2) == sm_authresp_members(granted, reason, error_code),
{
    reveal_strlit("error_code");
    reveal_strlit("granted");
    reveal_strlit("reason");
    assert("error_code"@.len() == 10);
    assert("granted"@.len() == 7);
    assert("reason"@.len() == 6);
    let s0 = seq![("granted"@, JsonV::Bool(granted))];
    let s1 = seq![("reason"@, (match reason { Some(x) => JsonV::Str(x@), None => JsonV::Null }))];
    let s2 = (match error_code { Some(x) => seq![("error_code"@, JsonV::Str(code_str(x)))], None => Seq::empty() });
    lemma_lookup_at(s0, 0);
    lemma_lookup_absent(s0, "reason"@);
    lemma_lookup_absent(s0, "error_code"@);
    lemma_lookup_at(s1, 0);
    lemma_lookup_absent(s1, "granted"@);
    lemma_lookup_absent(s1, "error_code"@);
    match error_code {
        Some(_) => {
            lemma_lookup_at(s2, 0);
            lemma_lookup_absent(s2, "granted"@);
            lemma_lookup_absent(s2, "reason"@);
        }
        None => {
            lemma_lookup_absent(s2, "granted"@);
            lemma_lookup_absent(s2, "reason"@);
            lemma_lookup_absent(s2, "error_code"@);
        }
    }
    let p1 = s0 + s1;
    let p2 = p1 + s2;
    lemma_lookup_append(s0, s1, "granted"@);
    lemma_lookup_append(p1, s2, "granted"@);
    lemma_lookup_append(s0, s1, "reason"@);
    lemma_lookup_append(p1, s2, "reason"@);
    lemma_lookup_append(s0, s1, "error_code"@);
    lemma_lookup_append(p1, s2, "error_code"@);
    match error_code { Some(x) => { lemma_error_code_round_trip(x); } None => {} }
    assert(sm_authresp_decodable(JsonV::Obj(sm_authresp_members(granted, reason, error_code))));
    if sm_authresp_matches(JsonV::Obj(sm_authresp_members(granted, reason, error_code)), granted2, reason2, error_code2) {
        assert(sm_authresp_members(granted2, reason2, error_code2) =~~= sm_authresp_members(granted, reason, error_code));
    }
}

/// Data of `LobbyStateChanged`: the members it is written with.
pub open spec fn sm_lobby_members(lobby_state: LobbyState, ready_players: Vec<PlayerId>, all_ready: bool) -> Seq<(Seq<char>, JsonV)> {
    seq![("lobby_state"@, JsonV::Str(ls_str(lobby_state)))]
        + seq![("ready_players"@, JsonV::Arr(uids_jv(ready_players@)))]
        + seq![("all_ready"@, JsonV::Bool(all_ready))]
}

/// Which data trees decode here.
pub open spec fn sm_lobby_decodable(j: JsonV) -> bool {
    match j {
        JsonV::Obj(o) => {
            &&& sf_str_ok(o, "lobby_state"@) && ls_of(sf_str(o, "lobby_state"@)) is Some
            &&& (lookup(o, "ready_players"@) matches Some(x) && arr_uid_decodable(x))
            &&& sf_bool_ok(o, "all_ready"@)
        }
        _ => false,
    }
}

/// What the decoded values hold, member by member.
pub open spec fn sm_lobby_matches(j: JsonV, lobby_state: LobbyState, ready_players: Vec<PlayerId>, all_ready: bool) -> bool {
    match j {
        JsonV::Obj(o) => {
            &&& ls_of(sf_str(o, "lobby_state"@)) == Some(lobby_state)
            &&& (lookup(o, "ready_players"@) matches Some(x) && arr_uid_matches(x, ready_players@))
            &&& all_ready == sf_bool(o, "all_ready"@)
        }
        _ => false,
    }
}

fn sm_lobby_build(lobby_state: &LobbyState, ready_players: &Vec<PlayerId>, all_ready: &bool) -> (j: Json)
    ensures
        j@ == JsonV::Obj(sm_lobby_members(*lobby_state, *ready_players, *all_ready)),
{
    let mut fields: Vec<(String, Json)> = Vec::new();
    proof {
        assert(dv_fields(fields@) =~= Seq::<(Seq<char>, JsonV)>::empty());
    }
    push_member(&mut fields, "lobby_state", Json::Str(String::from_str(lobby_state.wire_text())));
    push_member(&mut fields, "ready_players", uids_to_json(ready_players));
    push_member(&mut fields, "all_ready", Json::Bool(*all_ready));
    proof {
        assert(dv_fields(fields@) =~= sm_lobby_members(*lobby_state, *ready_players, *all_ready));
    }
    Json::Obj(fields)
}

fn sm_lobby_read(fields: &Vec<(String, Json)>) -> (r: Option<(LobbyState, Vec<PlayerId>, bool)>)
    ensures
        match r {
            Some(t) => sm_lobby_matches(JsonV::Obj(dv_fields(fields@)), t.0, t.1, t.2),
            None => !sm_lobby_decodable(JsonV::Obj(dv_fields(fields@))),
        },
        r is Some <==> sm_lobby_decodable(JsonV::Obj(dv_fields(fields@))),
{
    let f_lobby_state = match get_str(fields, "lobby_state") { Some(s) => match LobbyState::from_text(s.as_str()) { Some(e) => e, None => { return None; } }, None => { return None; } };
    let f_ready_players = match get_field(fields, "ready_players") { Some(aj) => match uids_from_json(aj) { Some(x) => x, None => { return None; } }, None => { return None; } };
    let f_all_ready = match get_bool(fields, "all_ready") { Some(b) => b, None => { return None; } };
    Some((f_lobby_state, f_ready_players, f_all_ready))
}

/// Round trip for this data object.
pub proof fn lemma_sm_lobby_round_trip(lobby_state: LobbyState, ready_players: Vec<PlayerId>, all_ready: bool, lobby_state2: LobbyState, ready_players2: Vec<PlayerId>, all_ready2: bool)
    ensures
        sm_lobby_decodable(JsonV::Obj(sm_lobby_members(lobby_state, ready_players, all_ready))),
        sm_lobby_matches(JsonV::Obj(sm_lobby_members(lobby_state, ready_players, all_ready)), lobby_state2, ready_players2, all_ready2) ==> sm_lobby_members(lobby_state2, ready_players2, all_ready2) == sm_lobby_members(lobby_state, ready_players, all_ready),
{
    reveal_strlit("all_ready");
    reveal_strlit("lobby_state");
    reveal_strlit("ready_players");
    assert("all_ready"@.len() == 9);
    assert("lobby_state"@.len() == 11);
    assert("ready_players"@.len() == 13);
    let s0 = seq![("lobby_state"@, JsonV::Str(ls_str(lobby_state)))];
    let s1 = seq![("ready_players"@, JsonV::Arr(uids_jv(ready_players@)))];
    let s2 = seq![("all_ready"@, JsonV::Bool(all_ready))];
    lemma_lookup_at(s0, 0);
    lemma_lookup_absent(s0, "ready_players"@);
    lemma_lookup_absent(s0, "all_ready"@);
    lemma_lookup_at(s1, 0);
    lemma_lookup_absent(s1, "lobby_state"@);
    lemma_lookup_absent(s1, "all_ready"@);
    lemma_lookup_at(s2, 0);
    lemma_lookup_absent(s2, "lobby_state"@);
    lemma_lookup_absent(s2, "ready_players"@);
    let p1 = s0 + s1;
    let p2 = p1 + s2;
    lemma_lookup_append(s0, s1, "lobby_state"@);
    lemma_lookup_append(p1, s2, "lobby_state"@);
    lemma_lookup_append(s0, s1, "ready_players"@);
    lemma_lookup_append(p1, s2, "ready_players"@);
    lemma_lookup_append(s0, s1, "all_ready"@);
    lemma_lookup_append(p1, s2, "all_ready"@);
    lemma_ls_round_trip(lobby_state);
    lemma_arr_uid_round_trip(ready_players@, ready_players@);
    assert(sm_lobby_decodable(JsonV::Obj(sm_lobby_members(lobby_state, ready_players, all_ready))));
    if sm_lobby_matches(JsonV::Obj(sm_lobby_members(lobby_state, ready_players, all_ready)), lobby_state2, ready_players2, all_ready2) {
        lemma_arr_uid_round_trip(ready_players@, ready_players2@);
        assert(sm_lobby_members(lobby_state2, ready_players2, all_ready2) =~~= sm_lobby_members(lobby_state, ready_players, all_ready));
    }
}

/// Data of `GameStarting`: the members it is written with.
pub open spec fn sm_starting_members(peer_connections: Vec<PeerConnectionInfo>) -> Seq<(Seq<char>, JsonV)> {
    seq![("peer_connections"@, JsonV::Arr(pcis_jv(peer_connections@)))]
}

/// Which data trees decode here.
pub open spec fn sm_starting_decodable(j: JsonV) -> bool {
    match j {
        JsonV::Obj(o) => {
            &&& (lookup(o, "peer_connections"@) matches Some(x) && arr_pci_decodable(x))
        }
        _ => false,
    }
}

/// What the decoded values hold, member by member.
pub open spec fn sm_starting_matches(j: JsonV, peer_connections: Vec<PeerConnectionInfo>) -> bool {
    match j {
        JsonV::Obj(o) => {
            &&& (lookup(o, "peer_connections"@) matches Some(x) && arr_pci_matches(x, peer_connections@))
        }
        _ => false,
    }
}

fn sm_starting_build(peer_connections: &Vec<PeerConnectionInfo>) -> (j: Json)
    ensures
        j@ == JsonV::Obj(sm_starting_members(*peer_connections)),
{
    let mut fields: Vec<(String, Json)> = Vec::new();
    proof {
        assert(dv_fields(fields@) =~= Seq::<(Seq<char>, JsonV)>::empty());
    }
    push_member(&mut fields, "peer_connections", pcis_to_json(peer_connections));
    proof {
        assert(dv_fields(fields@) =~= sm_starting_members(*peer_connections));
    }
    Json::Obj(fields)
}

fn sm_starting_read(fields: &Vec<(String, Json)>) -> (r: Option<(Vec<PeerConnectionInfo>,)>)
    ensures
        match r {
            Some(t) => sm_starting_matches(JsonV::Obj(dv_fields(fields@)), t.0),
            None => !sm_starting_decodable(JsonV::Obj(dv_fields(fields@))),
        },
        r is Some <==> sm_starting_decodable(JsonV::Obj(dv_fields(fields@))),
{
    let f_peer_connections = match get_field(fields, "peer_connections") { Some(aj) => match pcis_from_json(aj) { Some(x) => x, None => { return None; } }, None => { return None; } };
    Some((f_peer_connections,))
}

/// Round trip for this data object.
pub proof fn lemma_sm_starting_round_trip(peer_connections: Vec<PeerConnectionInfo>, peer_connections2: Vec<PeerConnectionInfo>)
    ensures
        sm_starting_decodable(JsonV::Obj(sm_starting_members(peer_connections))),
        sm_starting_matches(JsonV::Obj(sm_starting_members(peer_connections)), peer_connections2) ==> sm_starting_members(peer_connections2) == sm_starting_members(peer_connections),
{
    reveal_strlit("peer_connections");
    assert("peer_connections"@.len() == 16);
    let s0 = seq![("peer_connections"@, JsonV::Arr(pcis_jv(peer_connections@)))];
    lemma_lookup_at(s0, 0);
    lemma_arr_pci_round_trip(peer_connections@, peer_connections@);
    assert(sm_starting_decodable(JsonV::Obj(sm_starting_members(peer_connections))));
    if sm_starting_matches(JsonV::Obj(sm_starting_members(peer_connections)), peer_connections2) {
        lemma_arr_pci_round_trip(peer_connections@, peer_connections2@);
        assert(sm_starting_members(peer_connections2) =~~= sm_starting_members(peer_connections));
    }
}

/// Data of `ReconnectionFailed`: the members it is written with.
pub open spec fn sm_reconfail_members(reason: String, error_code: ErrorCode) -> Seq<(Seq<char>, JsonV)> {
    seq![("reason"@, JsonV::Str(reason@))]
        + seq![("error_code"@, JsonV::Str(code_str(error_code)))]
}

/// Which data trees decode here.
pub open spec fn sm_reconfail_decodable(j: JsonV) -> bool {
    match j {
        JsonV::Obj(o) => {
            &&& sf_str_ok(o, "reason"@)
            &&& sf_str_ok(o, "error_code"@) && code_of(sf_str(o, "error_code"@)) is Some
        }
        _ => false,
    }
}

/// What the decoded values hold, member by member.
pub open spec fn sm_reconfail_matches(j: JsonV, reason: String, error_code: ErrorCode) -> bool {
    match j {
        JsonV::Obj(o) => {
            &&& reason@ == sf_str(o, "reason"@)
            &&& code_of(sf_str(o, "error_code"@)) == Some(error_code)
        }
        _ => false,
    }
}

fn sm_reconfail_build(reason: &String, error_code: &ErrorCode) -> (j: Json)
    ensures
        j@ == JsonV::Obj(sm_reconfail_members(*reason, *error_code)),
{
    let mut fields: Vec<(String, Json)> = Vec::new();
    proof {
        assert(dv_fields(fields@) =~= Seq::<(Seq<char>, JsonV)>::empty());
    }
    push_member(&mut fields, "reason", Json::Str((reason).clone()));
    push_member(&mut fields, "error_code", Json::Str(String::from_str(error_code.code_text())));
    proof {
        assert(dv_fields(fields@) =~= sm_reconfail_members(*reason, *error_code));
    }
    Json::Obj(fields)
}

fn sm_reconfail_read(fields: &Vec<(String, Json)>) -> (r: Option<(String, ErrorCode)>)
    ensures
        match r {
            Some(t) => sm_reconfail_matches(JsonV::Obj(dv_fields(fields@)), t.0, t.1),
            None => !sm_reconfail_decodable(JsonV::Obj(dv_fields(fields@))),
        },
        r is Some <==> sm_reconfail_decodable(JsonV::Obj(dv_fields(fields@))),
{
    let f_reason = match get_str(fields, "reason") { Some(s) => s, None => { return None; } };
    let f_error_code = match get_str(fields, "error_code") { Some(s) => match ErrorCode::from_text(s.as_str()) { Some(e) => e, None => { return None; } }, None => { return None; } };
    Some((f_reason, f_error_code))
}

/// Round trip for this data object.
pub proof fn lemma_sm_reconfail_round_trip(reason: String, error_code: ErrorCode, reason2: String, error_code2: ErrorCode)
    ensures
        sm_reconfail_decodable(JsonV::Obj(sm_reconfail_members(reason, error_code))),
        sm_reconfail_matches(JsonV::Obj(sm_reconfail_members(reason, error_code)), reason2, error_code2) ==> sm_reconfail_members(reason2, error_code2) == sm_reconfail_members(reason, error_code),
{
    reveal_strlit("error_code");
    reveal_strlit("reason");
    assert("error_code"@.len() == 10);
    assert("reason"@.len() == 6);
    let s0 = seq![("reason"@, JsonV::Str(reason@))];
    let s1 = seq![("error_code"@, JsonV::Str(code_str(error_code)))];
    lemma_lookup_at(s0, 0);
    lemma_lookup_absent(s0, "error_code"@);
    lemma_lookup_at(s1, 0);
    lemma_lookup_absent(s1, "reason"@);
    let p1 = s0 + s1;
    lemma_lookup_append(s0, s1, "reason"@);
    lemma_lookup_append(s0, s1, "error_code"@);
    lemma_error_code_round_trip(error_code);
    assert(sm_reconfail_decodable(JsonV::Obj(sm_reconfail_members(reason, error_code))));
    if sm_reconfail_matches(JsonV::Obj(sm_reconfail_members(reason, error_code)), reason2, error_code2) {
        assert(sm_reconfail_members(reason2, error_code2) =~~= sm_reconfail_members(reason, error_code));
    }
}

/// Data of `PlayerReconnected`: the members it is written with.
pub open spec fn sm_preconn_members(player_id: PlayerId) -> Seq<(Seq<char>, JsonV)> {
    seq![("player_id"@, uid_jv(player_id))]
}

/// Which data trees decode here.
pub open spec fn sm_preconn_decodable(j: JsonV) -> bool {
    match j {
        JsonV::Obj(o) => {
            &&& sf_str_ok(o, "player_id"@) && uid_of(sf_str(o, "player_id"@)) is Some
        }
        _ => false,
    }
}

/// What the decoded values hold, member by member.
pub open spec fn sm_preconn_matches(j: JsonV, player_id: PlayerId) -> bool {
    match j {
        JsonV::Obj(o) => {
            &&& uid_of(sf_str(o, "player_id"@)) == Some(player_id.value as int)
        }
        _ => false,
    }
}

fn sm_preconn_build(player_id: &PlayerId) -> (j: Json)
    ensures
        j@ == JsonV::Obj(sm_preconn_members(*player_id)),
{
    let mut fields: Vec<(String, Json)> = Vec::new();
    proof {
        assert(dv_fields(fields@) =~= Seq::<(Seq<char>, JsonV)>::empty());
    }
    push_member(&mut fields, "player_id", uid_to_json(player_id));
    proof {
        assert(dv_fields(fields@) =~= sm_preconn_members(*player_id));
    }
    Json::Obj(fields)
}

fn sm_preconn_read(fields: &Vec<(String, Json)>) -> (r: Option<(PlayerId,)>)
    ensures
        match r {
            Some(t) => sm_preconn_matches(JsonV::Obj(dv_fields(fields@)), t.0),
            None => !sm_preconn_decodable(JsonV::Obj(dv_fields(fields@))),
        },
        r is Some <==> sm_preconn_decodable(JsonV::Obj(dv_fields(fields@))),
{
    let f_player_id = match get_str(fields, "player_id") { Some(s) => match uid_from_text(s.as_str()) { Some(u) => u, None => { return None; } }, None => { return None; } };
    Some((f_player_id,))
}

/// Round trip for this data object.
pub proof fn lemma_sm_preconn_round_trip(player_id: PlayerId, player_id2: PlayerId)
    ensures
        sm_preconn_decodable(JsonV::Obj(sm_preconn_members(player_id))),
        sm_preconn_matches(JsonV::Obj(sm_preconn_members(player_id)), player_id2) ==> sm_preconn_members(player_id2) == sm_preconn_members(player_id),
{
    reveal_strlit("player_id");
    assert("player_id"@.len() == 9);
    let s0 = seq![("player_id"@, uid_jv(player_id))];
    lemma_lookup_at(s0, 0);
    lemma_uid_text_round_trip(player_id.value as int);
    assert(sm_preconn_decodable(JsonV::Obj(sm_preconn_members(player_id))));
    if sm_preconn_matches(JsonV::Obj(sm_preconn_members(player_id)), player_id2) {
        assert(sm_preconn_members(player_id2) =~~= sm_preconn_members(player_id));
    }
}

/// Data of `SpectatorJoinFailed`: the members it is written with.
pub open spec fn sm_sjoinfail_members(reason: String, error_code: Option<ErrorCode>) -> Seq<(Seq<char>, JsonV)> {
    seq![("reason"@, JsonV::Str(reason@))]
        + (match error_code { Some(x) => seq![("error_code"@, JsonV::Str(code_str(x)))], None => Seq::empty() })
}

/// Which data trees decode here.
pub open spec fn sm_sjoinfail_decodable(j: JsonV) -> bool {
    match j {
        JsonV::Obj(o) => {
            &&& sf_str_ok(o, "reason"@)
            &&& (sf_absent(o, "error_code"@) || (sf_str_ok(o, "error_code"@) && code_of(sf_str(o, "error_code"@)) is Some))
        }
        _ => false,
    }
}

/// What the decoded values hold, member by member.
pub open spec fn sm_sjoinfail_matches(j: JsonV, reason: String, error_code: Option<ErrorCode>) -> bool {
    match j {
        JsonV::Obj(o) => {
            &&& reason@ == sf_str(o, "reason"@)
            &&& (if sf_absent(o, "error_code"@) { error_code is None } else { error_code matches Some(vv) && (code_of(sf_str(o, "error_code"@)) == Some(vv)) })
        }
        _ => false,
    }
}

fn sm_sjoinfail_build(reason: &String, error_code: &Option<ErrorCode>) -> (j: Json)
    ensures
        j@ == JsonV::Obj(sm_sjoinfail_members(*reason, *error_code)),
{
    let mut fields: Vec<(String, Json)> = Vec::new();
    proof {
        assert(dv_fields(fields@) =~= Seq::<(Seq<char>, JsonV)>::empty());
    }
    push_member(&mut fields, "reason", Json::Str((reason).clone()));
    match error_code { Some(x) => { push_member(&mut fields, "error_code", Json::Str(String::from_str(x.code_text()))); } None => {} }
    proof {
        assert(dv_fields(fields@) =~= sm_sjoinfail_members(*reason, *error_code));
    }
    Json::Obj(fields)
}

fn sm_sjoinfail_read(fields: &Vec<(String, Json)>) -> (r: Option<(String, Option<ErrorCode>)>)
    ensures
        match r {
            Some(t) => sm_sjoinfail_matches(JsonV::Obj(dv_fields(fields@)), t.0, t.1),
            None => !sm_sjoinfail_decodable(JsonV::Obj(dv_fields(fields@))),
        },
        r is Some <==> sm_sjoinfail_decodable(JsonV::Obj(dv_fields(fields@))),
{
    let f_reason = match get_str(fields, "reason") { Some(s) => s, None => { return None; } };
    let f_error_code = match get_opt_str(fields, "error_code") {
        Some(Some(s)) => match ErrorCode::from_text(s.as_str()) { Some(e) => Some(e), None => { return None; } },
        Some(None) => None,
        None => { return None; }
    };
    Some((f_reason, f_error_code))
}

/// Round trip for this data object.
pub proof fn lemma_sm_sjoinfail_round_trip(reason: String, error_code: Option<ErrorCode>, reason2: String, error_code2: Option<ErrorCode>)
    ensures
        sm_sjoinfail_decodable(JsonV::Obj(sm_sjoinfail_members(reason, error_code))),
        sm_sjoinfail_matches(JsonV::Obj(sm_sjoinfail_members(reason, error_code)), reason2, error_code2) ==> sm_sjoinfail_members(reason2, error_code2) == sm_sjoinfail_members(reason, error_code),
{
    reveal_strlit("error_code");
    reveal_strlit("reason");
    assert("error_code"@.len() == 10);
    assert("reason"@.len() == 6);
    let s0 = seq![("reason"@, JsonV::Str(reason@))];
    let s1 = (match error_code { Some(x) => seq![("error_code"@, JsonV::Str(code_str(x)))], None => Seq::empty() });
    lemma_lookup_at(s0, 0);
    lemma_lookup_absent(s0, "error_code"@);
    match error_code {
        Some(_) => {
            lemma_lookup_at(s1, 0);
            lemma_lookup_absent(s1, "reason"@);
        }
        None => {
            lemma_lookup_absent(s1, "reason"@);
            lemma_lookup_absent(s1, "error_code"@);
        }
    }
    let p1 = s0 + s1;
    lemma_lookup_append(s0, s1, "reason"@);
    lemma_lookup_append(s0, s1, "error_code"@);
    match error_code { Some(x) => { lemma_error_code_round_trip(x); } None => {} }
    assert(sm_sjoinfail_decodable(JsonV::Obj(sm_sjoinfail_members(reason, error_code))));
    if sm_sjoinfail_matches(JsonV::Obj(sm_sjoinfail_members(reason, error_code)), reason2, error_code2) {
        assert(sm_sjoinfail_members(reason2, error_code2) =~~= sm_sjoinfail_members(reason, error_code));
    }
}

/// Data of `SpectatorLeft`: the members it is written with.
pub open spec fn sm_sleft_members(room_id: Option<RoomId>, room_code: Option<String>, reason: Option<SpectatorStateChangeReason>, current_spectators: Vec<SpectatorInfo>) -> Seq<(Seq<char>, JsonV)> {
    (match room_id { Some(x) => seq![("room_id"@, uid_jv(x))], None => Seq::empty() })
        + (match room_code { Some(x) => seq![("room_code"@, JsonV::Str(x@))], None => Seq::empty() })
        + (match reason { Some(x) => seq![("reason"@, JsonV::Str(sscr_str(x)))], None => Seq::empty() })
        + seq![("current_spectators"@, JsonV::Arr(sis_jv(current_spectators@)))]
}

/// Which data trees decode here.
pub open spec fn sm_sleft_decodable(j: JsonV) -> bool {
    match j {
        JsonV::Obj(o) => {
            &&& (sf_absent(o, "room_id"@) || (sf_str_ok(o, "room_id"@) && uid_of(sf_str(o, "room_id"@)) is Some))
            &&& (sf_absent(o, "room_code"@) || (sf_str_ok(o, "room_code"@)))
            &&& (sf_absent(o, "reason"@) || (sf_str_ok(o, "reason"@) && sscr_of(sf_str(o, "reason"@)) is Some))
            &&& (sf_absent(o, "current_spectators"@) || (lookup(o, "current_spectators"@) matches Some(x) && arr_si_decodable(x)))
        }
        _ => false,
    }
}

/// What the decoded values hold, member by member.
pub open spec fn sm_sleft_matches(j: JsonV, room_id: Option<RoomId>, room_code: Option<String>, reason: Option<SpectatorStateChangeReason>, current_spectators: Vec<SpectatorInfo>) -> bool {
    match j {
        JsonV::Obj(o) => {
            &&& (if sf_absent(o, "room_id"@) { room_id is None } else { room_id matches Some(vv) && (uid_of(sf_str(o, "room_id"@)) == Some(vv.value as int)) })
            &&& (if sf_absent(o, "room_code"@) { room_code is None } else { room_code matches Some(vv) && (vv@ == sf_str(o, "room_code"@)) })
            &&& (if sf_absent(o, "reason"@) { reason is None } else { reason matches Some(vv) && (sscr_of(sf_str(o, "reason"@)) == Some(vv)) })
            &&& (if sf_absent(o, "current_spectators"@) { current_spectators@.len() == 0 } else { (lookup(o, "current_spectators"@) matches Some(x) && arr_si_matches(x, current_spectators@)) })
        }
        _ => false,
    }
}

fn sm_sleft_build(room_id: &Option<RoomId>, room_code: &Option<String>, reason: &Option<SpectatorStateChangeReason>, current_spectators: &Vec<SpectatorInfo>) -> (j: Json)
    ensures
        j@ == JsonV::Obj(sm_sleft_members(*room_id, *room_code, *reason, *current_spectators)),
{
    let mut fields: Vec<(String, Json)> = Vec::new();
    proof {
        assert(dv_fields(fields@) =~= Seq::<(Seq<char>, JsonV)>::empty());
    }
    match room_id { Some(x) => { push_member(&mut fields, "room_id", uid_to_json(x)); } None => {} }
    match room_code { Some(x) => { push_member(&mut fields, "room_code", Json::Str((x).clone())); } None => {} }
    match reason { Some(x) => { push_member(&mut fields, "reason", Json::Str(String::from_str(x.wire_text()))); } None => {} }
    push_member(&mut fields, "current_spectators", sis_to_json(current_spectators));
    proof {
        assert(dv_fields(fields@) =~= sm_sleft_members(*room_id, *room_code, *reason, *current_spectators));
    }
    Json::Obj(fields)
}

fn sm_sleft_read(fields: &Vec<(String, Json)>) -> (r: Option<(Option<RoomId>, Option<String>, Option<SpectatorStateChangeReason>, Vec<SpectatorInfo>)>)
    ensures
        match r {
            Some(t) => sm_sleft_matches(JsonV::Obj(dv_fields(fields@)), t.0, t.1, t.2, t.3),
            None => !sm_sleft_decodable(JsonV::Obj(dv_fields(fields@))),
        },
        r is Some <==> sm_sleft_decodable(JsonV::Obj(dv_fields(fields@))),
{
    let f_room_id = match get_opt_str(fields, "room_id") {
        Some(Some(s)) => match uid_from_text(s.as_str()) { Some(u) => Some(u), None => { return None; } },
        Some(None) => None,
        None => { return None; }
    };
    let f_room_code = match get_opt_str(fields, "room_code") { Some(x) => x, None => { return None; } };
    let f_reason = match get_opt_str(fields, "reason") {
        Some(Some(s)) => match SpectatorStateChangeReason::from_text(s.as_str()) { Some(e) => Some(e), None => { return None; } },
        Some(None) => None,
        None => { return None; }
    };
    let f_current_spectators = match get_field(fields, "current_spectators") {
        Some(aj) => match aj {
            Json::Null => Vec::new(),
            _ => match sis_from_json(aj) { Some(x) => x, None => { return None; } },
        },
        None => Vec::new(),
    };
    Some((f_room_id, f_room_code, f_reason, f_current_spectators))
}

/// Round trip for this data object.
pub proof fn lemma_sm_sleft_round_trip(room_id: Option<RoomId>, room_code: Option<String>, reason: Option<SpectatorStateChangeReason>, current_spectators: Vec<SpectatorInfo>, room_id2: Option<RoomId>, room_code2: Option<String>, reason2: Option<SpectatorStateChangeReason>, current_spectators2: Vec<SpectatorInfo>)
    ensures
        sm_sleft_decodable(JsonV::Obj(sm_sleft_members(room_id, room_code, reason, current_spectators))),
        sm_sleft_matches(JsonV::Obj(sm_sleft_members(room_id, room_code, reason, current_spectators)), room_id2, room_code2, reason2, current_spectators2) ==> sm_sleft_members(room_id2, room_code2, reason2, current_spectators2) == sm_sleft_members(room_id, room_code, reason, current_spectators),
{
    reveal_strlit("current_spectators");
    reveal_strlit("reason");
    reveal_strlit("room_code");
    reveal_strlit("room_id");
    assert("current_spectators"@.len() == 18);
    assert("reason"@.len() == 6);
    assert("room_code"@.len() == 9);
    assert("room_id"@.len() == 7);
    let s0 = (match room_id { Some(x) => seq![("room_id"@, uid_jv(x))], None => Seq::empty() });
    let s1 = (match room_code { Some(x) => seq![("room_code"@, JsonV::Str(x@))], None => Seq::empty() });
    let s2 = (match reason { Some(x) => seq![("reason"@, JsonV::Str(sscr_str(x)))], None => Seq::empty() });
    let s3 = seq![("current_spectators"@, JsonV::Arr(sis_jv(current_spectators@)))];
    match room_id {
        Some(_) => {
            lemma_lookup_at(s0, 0);
            lemma_lookup_absent(s0, "room_code"@);
            lemma_lookup_absent(s0, "reason"@);
            lemma_lookup_absent(s0, "current_spectators"@);
        }
        None => {
            lemma_lookup_absent(s0, "room_id"@);
            lemma_lookup_absent(s0, "room_code"@);
            lemma_lookup_absent(s0, "reason"@);
            lemma_lookup_absent(s0, "current_spectators"@);
        }
    }
    match room_code {
        Some(_) => {
            lemma_lookup_at(s1, 0);
            lemma_lookup_absent(s1, "room_id"@);
            lemma_lookup_absent(s1, "reason"@);
            lemma_lookup_absent(s1, "current_spectators"@);
        }
        None => {
            lemma_lookup_absent(s1, "room_id"@);
            lemma_lookup_absent(s1, "room_code"@);
            lemma_lookup_absent(s1, "reason"@);
            lemma_lookup_absent(s1, "current_spectators"@);
        }
    }
    match reason {
        Some(_) => {
            lemma_lookup_at(s2, 0);
            lemma_lookup_absent(s2, "room_id"@);
            lemma_lookup_absent(s2, "room_code"@);
            lemma_lookup_absent(s2, "current_spectators"@);
        }
        None => {
            lemma_lookup_absent(s2, "room_id"@);
            lemma_lookup_absent(s2, "room_code"@);
            lemma_lookup_absent(s2, "reason"@);
            lemma_lookup_absent(s2, "current_spectators"@);
        }
    }
    lemma_lookup_at(s3, 0);
    lemma_lookup_absent(s3, "room_id"@);
    lemma_lookup_absent(s3, "room_code"@);
    lemma_lookup_absent(s3, "reason"@);
    let p1 = s0 + s1;
    let p2 = p1 + s2;
    let p3 = p2 + s3;
    lemma_lookup_append(s0, s1, "room_id"@);
    lemma_lookup_append(p1, s2, "room_id"@);
    lemma_lookup_append(p2, s3, "room_id"@);
    lemma_lookup_append(s0, s1, "room_code"@);
    lemma_lookup_append(p1, s2, "room_code"@);
    lemma_lookup_append(p2, s3, "room_code"@);
    lemma_lookup_append(s0, s1, "reason"@);
    lemma_lookup_append(p1, s2, "reason"@);
    lemma_lookup_append(p2, s3, "reason"@);
    lemma_lookup_append(s0, s1, "current_spectators"@);
    lemma_lookup_append(p1, s2, "current_spectators"@);
    lemma_lookup_append(p2, s3, "current_spectators"@);
    match room_id { Some(x) => { lemma_uid_text_round_trip(x.value as int); } None => {} }
    match reason { Some(x) => { lemma_sscr_round_trip(x); } None => {} }
    lemma_arr_si_round_trip(current_spectators@, current_spectators@);
    assert(sm_sleft_decodable(JsonV::Obj(sm_sleft_members(room_id, room_code, reason, current_spectators))));
    if sm_sleft_matches(JsonV::Obj(sm_sleft_members(room_id, room_code, reason, current_spectators)), room_id2, room_code2, reason2, current_spectators2) {
        lemma_arr_si_round_trip(current_spectators@, current_spectators2@);
        assert(sm_sleft_members(room_id2, room_code2, reason2, current_spectators2) =~~= sm_sleft_members(room_id, room_code, reason, current_spectators));
    }
}

/// Data of `NewSpectatorJoined`: the members it is written with.
pub open spec fn sm_newspec_members(spectator: SpectatorInfo, current_spectators: Vec<SpectatorInfo>, reason: Option<SpectatorStateChangeReason>) -> Seq<(Seq<char>, JsonV)> {
    seq![("spectator"@, si_jv(spectator))]
        + seq![("current_spectators"@, JsonV::Arr(sis_jv(current_spectators@)))]
        + (match reason { Some(x) => seq![("reason"@, JsonV::Str(sscr_str(x)))], None => Seq::empty() })
}

/// Which data trees decode here.
pub open spec fn sm_newspec_decodable(j: JsonV) -> bool {
    match j {
        JsonV::Obj(o) => {
            &&& lookup(o, "spectator"@) matches Some(x) && si_decodable(x)
            &&& (sf_absent(o, "current_spectators"@) || (lookup(o, "current_spectators"@) matches Some(x) && arr_si_decodable(x)))
            &&& (sf_absent(o, "reason"@) || (sf_str_ok(o, "reason"@) && sscr_of(sf_str(o, "reason"@)) is Some))
        }
        _ => false,
    }
}

/// What the decoded values hold, member by member.
pub open spec fn sm_newspec_matches(j: JsonV, spectator: SpectatorInfo, current_spectators: Vec<SpectatorInfo>, reason: Option<SpectatorStateChangeReason>) -> bool {
    match j {
        JsonV::Obj(o) => {
            &&& lookup(o, "spectator"@) matches Some(x) && si_matches(x, spectator)
            &&& (if sf_absent(o, "current_spectators"@) { current_spectators@.len() == 0 } else { (lookup(o, "current_spectators"@) matches Some(x) && arr_si_matches(x, current_spectators@)) })
            &&& (if sf_absent(o, "reason"@) { reason is None } else { reason matches Some(vv) && (sscr_of(sf_str(o, "reason"@)) == Some(vv)) })
        }
        _ => false,
    }
}

fn sm_newspec_build(spectator: &SpectatorInfo, current_spectators: &Vec<SpectatorInfo>, reason: &Option<SpectatorStateChangeReason>) -> (j: Json)
    ensures
        j@ == JsonV::Obj(sm_newspec_members(*spectator, *current_spectators, *reason)),
{
    let mut fields: Vec<(String, Json)> = Vec::new();
    proof {
        assert(dv_fields(fields@) =~= Seq::<(Seq<char>, JsonV)>::empty());
    }
    push_member(&mut fields, "spectator", si_to_json(spectator));
    push_member(&mut fields, "current_spectators", sis_to_json(current_spectators));
    match reason { Some(x) => { push_member(&mut fields, "reason", Json::Str(String::from_str(x.wire_text()))); } None => {} }
    proof {
        assert(dv_fields(fields@) =~= sm_newspec_members(*spectator, *current_spectators, *reason));
    }
    Json::Obj(fields)
}

fn sm_newspec_read(fields: &Vec<(String, Json)>) -> (r: Option<(SpectatorInfo, Vec<SpectatorInfo>, Option<SpectatorStateChangeReason>)>)
    ensures
        match r {
            Some(t) => sm_newspec_matches(JsonV::Obj(dv_fields(fields@)), t.0, t.1, t.2),
            None => !sm_newspec_decodable(JsonV::Obj(dv_fields(fields@))),
        },
        r is Some <==> sm_newspec_decodable(JsonV::Obj(dv_fields(fields@))),
{
    let f_spectator = match get_field(fields, "spectator") { Some(d) => match si_from_json(d) { Some(x) => x, None => { return None; } }, None => { return None; } };
    let f_current_spectators = match get_field(fields, "current_spectators") {
        Some(aj) => match aj {
            Json::Null => Vec::new(),
            _ => match sis_from_json(aj) { Some(x) => x, None => { return None; } },
        },
        None => Vec::new(),
    };
    let f_reason = match get_opt_str(fields, "reason") {
        Some(Some(s)) => match SpectatorStateChangeReason::from_text(s.as_str()) { Some(e) => Some(e), None => { return None; } },
        Some(None) => None,
        None => { return None; }
    };
    Some((f_spectator, f_current_spectators, f_reason))
}

/// Round trip for this data object.
pub proof fn lemma_sm_newspec_round_trip(spectator: SpectatorInfo, current_spectators: Vec<SpectatorInfo>, reason: Option<SpectatorStateChangeReason>, spectator2: SpectatorInfo, current_spectators2: Vec<SpectatorInfo>, reason2: Option<SpectatorStateChangeReason>)
    ensures
        sm_newspec_decodable(JsonV::Obj(sm_newspec_members(spectator, current_spectators, reason))),
        sm_newspec_matches(JsonV::Obj(sm_newspec_members(spectator, current_spectators, reason)), spectator2, current_spectators2, reason2) ==> sm_newspec_members(spectator2, current_spectators2, reason2) == sm_newspec_members(spectator, current_spectators, reason),
{
    reveal_strlit("current_spectators");
    reveal_strlit("reason");
    reveal_strlit("spectator");
    assert("current_spectators"@.len() == 18);
    assert("reason"@.len() == 6);
    assert("spectator"@.len() == 9);
    let s0 = seq![("spectator"@, si_jv(spectator))];
    let s1 = seq![("current_spectators"@, JsonV::Arr(sis_jv(current_spectators@)))];
    let s2 = (match reason { Some(x) => seq![("reason"@, JsonV::Str(sscr_str(x)))], None => Seq::empty() });
    lemma_lookup_at(s0, 0);
    lemma_lookup_absent(s0, "current_spectators"@);
    lemma_lookup_absent(s0, "reason"@);
    lemma_lookup_at(s1, 0);
    lemma_lookup_absent(s1, "spectator"@);
    lemma_lookup_absent(s1, "reason"@);
    match reason {
        Some(_) => {
            lemma_lookup_at(s2, 0);
            lemma_lookup_absent(s2, "spectator"@);
            lemma_lookup_absent(s2, "current_spectators"@);
        }
        None => {
            lemma_lookup_absent(s2, "spectator"@);
            lemma_lookup_absent(s2, "current_spectators"@);
            lemma_lookup_absent(s2, "reason"@);
        }
    }
    let p1 = s0 + s1;
    let p2 = p1 + s2;
    lemma_lookup_append(s0, s1, "spectator"@);
    lemma_lookup_append(p1, s2, "spectator"@);
    lemma_lookup_append(s0, s1, "current_spectators"@);
    lemma_lookup_append(p1, s2, "current_spectators"@);
    lemma_lookup_append(s0, s1, "reason"@);
    lemma_lookup_append(p1, s2, "reason"@);
    lemma_si_round_trip(spectator, spectator);
    lemma_arr_si_round_trip(current_spectators@, current_spectators@);
    match reason { Some(x) => { lemma_sscr_round_trip(x); } None => {} }
    assert(sm_newspec_decodable(JsonV::Obj(sm_newspec_members(spectator, current_spectators, reason))));
    if sm_newspec_matches(JsonV::Obj(sm_newspec_members(spectator, current_spectators, reason)), spectator2, current_spectators2, reason2) {
        lemma_si_round_trip(spectator, spectator2);
        lemma_arr_si_round_trip(current_spectators@, current_spectators2@);
        assert(sm_newspec_members(spectator2, current_spectators2, reason2) =~~= sm_newspec_members(spectator, current_spectators, reason));
    }
}

/// Data of `SpectatorDisconnected`: the members it is written with.
pub open spec fn sm_sdisc_members(spectator_id: PlayerId, reason: Option<SpectatorStateChangeReason>, current_spectators: Vec<SpectatorInfo>) -> Seq<(Seq<char>, JsonV)> {
    seq![("spectator_id"@, uid_jv(spectator_id))]
        + (match reason { Some(x) => seq![("reason"@, JsonV::Str(sscr_str(x)))], None => Seq::empty() })
        + seq![("current_spectators"@, JsonV::Arr(sis_jv(current_spectators@)))]
}

/// Which data trees decode here.
pub open spec fn sm_sdisc_decodable(j: JsonV) -> bool {
    match j {
        JsonV::Obj(o) => {
            &&& sf_str_ok(o, "spectator_id"@) && uid_of(sf_str(o, "spectator_id"@)) is Some
            &&& (sf_absent(o, "reason"@) || (sf_str_ok(o, "reason"@) && sscr_of(sf_str(o, "reason"@)) is Some))
            &&& (sf_absent(o, "current_spectators"@) || (lookup(o, "current_spectators"@) matches Some(x) && arr_si_decodable(x)))
        }
        _ => false,
    }
}

/// What the decoded values hold, member by member.
pub open spec fn sm_sdisc_matches(j: JsonV, spectator_id: PlayerId, reason: Option<SpectatorStateChangeReason>, current_spectators: Vec<SpectatorInfo>) -> bool {
    match j {
        JsonV::Obj(o) => {
            &&& uid_of(sf_str(o, "spectator_id"@)) == Some(spectator_id.value as int)
            &&& (if sf_absent(o, "reason"@) { reason is None } else { reason matches Some(vv) && (sscr_of(sf_str(o, "reason"@)) == Some(vv)) })
            &&& (if sf_absent(o, "current_spectators"@) { current_spectators@.len() == 0 } else { (lookup(o, "current_spectators"@) matches Some(x) && arr_si_matches(x, current_spectators@)) })
        }
        _ => false,
    }
}

fn sm_sdisc_build(spectator_id: &PlayerId, reason: &Option<SpectatorStateChangeReason>, current_spectators: &Vec<SpectatorInfo>) -> (j: Json)
    ensures
        j@ == JsonV::Obj(sm_sdisc_members(*spectator_id, *reason, *current_spectators)),
{
    let mut fields: Vec<(String, Json)> = Vec::new();
    proof {
        assert(dv_fields(fields@) =~= Seq::<(Seq<char>, JsonV)>::empty());
    }
    push_member(&mut fields, "spectator_id", uid_to_json(spectator_id));
    match reason { Some(x) => { push_member(&mut fields, "reason", Json::Str(String::from_str(x.wire_text()))); } None => {} }
    push_member(&mut fields, "current_spectators", sis_to_json(current_spectators));
    proof {
        assert(dv_fields(fields@) =~= sm_sdisc_members(*spectator_id, *reason, *current_spectators));
    }
    Json::Obj(fields)
}

fn sm_sdisc_read(fields: &Vec<(String, Json)>) -> (r: Option<(PlayerId, Option<SpectatorStateChangeReason>, Vec<SpectatorInfo>)>)
    ensures
        match r {
            Some(t) => sm_sdisc_matches(JsonV::Obj(dv_fields(fields@)), t.0, t.1, t.2),
            None => !sm_sdisc_decodable(JsonV::Obj(dv_fields(fields@))),
        },
        r is Some <==> sm_sdisc_decodable(JsonV::Obj(dv_fields(fields@))),
{
    let f_spectator_id = match get_str(fields, "spectator_id") { Some(s) => match uid_from_text(s.as_str()) { Some(u) => u, None => { return None; } }, None => { return None; } };
    let f_reason = match get_opt_str(fields, "reason") {
        Some(Some(s)) => match SpectatorStateChangeReason::from_text(s.as_str()) { Some(e) => Some(e), None => { return None; } },
        Some(None) => None,
        None => { return None; }
    };
    let f_current_spectators = match get_field(fields, "current_spectators") {
        Some(aj) => match aj {
            Json::Null => Vec::new(),
            _ => match sis_from_json(aj) { Some(x) => x, None => { return None; } },
        },
        None => Vec::new(),
    };
    Some((f_spectator_id, f_reason, f_current_spectators))
}

/// Round trip for this data object.
pub proof fn lemma_sm_sdisc_round_trip(spectator_id: PlayerId, reason: Option<SpectatorStateChangeReason>, current_spectators: Vec<SpectatorInfo>, spectator_id2: PlayerId, reason2: Option<SpectatorStateChangeReason>, current_spectators2: Vec<SpectatorInfo>)
    ensures
        sm_sdisc_decodable(JsonV::Obj(sm_sdisc_members(spectator_id, reason, current_spectators))),
        sm_sdisc_matches(JsonV::Obj(sm_sdisc_members(spectator_id, reason, current_spectators)), spectator_id2, reason2, current_spectators2) ==> sm_sdisc_members(spectator_id2, reason2, current_spectators2) == sm_sdisc_members(spectator_id, reason, current_spectators),
{
    reveal_strlit("current_spectators");
    reveal_strlit("reason");
    reveal_strlit("spectator_id");
    assert("current_spectators"@.len() == 18);
    assert("reason"@.len() == 6);
    assert("spectator_id"@.len() == 12);
    let s0 = seq![("spectator_id"@, uid_jv(spectator_id))];
    let s1 = (match reason { Some(x) => seq![("reason"@, JsonV::Str(sscr_str(x)))], None => Seq::empty() });
    let s2 = seq![("current_spectators"@, JsonV::Arr(sis_jv(current_spectators@)))];
    lemma_lookup_at(s0, 0);
    lemma_lookup_absent(s0, "reason"@);
    lemma_lookup_absent(s0, "current_spectators"@);
    match reason {
        Some(_) => {
            lemma_lookup_at(s1, 0);
            lemma_lookup_absent(s1, "spectator_id"@);
            lemma_lookup_absent(s1, "current_spectators"@);
        }
        None => {
            lemma_lookup_absent(s1, "spectator_id"@);
            lemma_lookup_absent(s1, "reason"@);
            lemma_lookup_absent(s1, "current_spectators"@);
        }
    }
    lemma_lookup_at(s2, 0);
    lemma_lookup_absent(s2, "spectator_id"@);
    lemma_lookup_absent(s2, "reason"@);
    let p1 = s0 + s1;
    let p2 = p1 + s2;
    lemma_lookup_append(s0, s1, "spectator_id"@);
    lemma_lookup_append(p1, s2, "spectator_id"@);
    lemma_lookup_append(s0, s1, "reason"@);
    lemma_lookup_append(p1, s2, "reason"@);
    lemma_lookup_append(s0, s1, "current_spectators"@);
    lemma_lookup_append(p1, s2, "current_spectators"@);
    lemma_uid_text_round_trip(spectator_id.value as int);
    match reason { Some(x) => { lemma_sscr_round_trip(x); } None => {} }
    lemma_arr_si_round_trip(current_spectators@, current_spectators@);
    assert(sm_sdisc_decodable(JsonV::Obj(sm_sdisc_members(spectator_id, reason, current_spectators))));
    if sm_sdisc_matches(JsonV::Obj(sm_sdisc_members(spectator_id, reason, current_spectators)), spectator_id2, reason2, current_spectators2) {
        lemma_arr_si_round_trip(current_spectators@, current_spectators2@);
        assert(sm_sdisc_members(spectator_id2, reason2, current_spectators2) =~~= sm_sdisc_members(spectator_id, reason, current_spectators));
    }
}

/// Data of the `Error` server message: the members it is written with.
pub open spec fn sm_err_members(message: String, error_code: Option<ErrorCode>) -> Seq<(Seq<char>, JsonV)> {
    seq![("message"@, JsonV::Str(message@))]
        + (match error_code { Some(x) => seq![("error_code"@, JsonV::Str(code_str(x)))], None => Seq::empty() })
}

/// Which data trees decode here.
pub open spec fn sm_err_decodable(j: JsonV) -> bool {
    match j {
        JsonV::Obj(o) => {
            &&& sf_str_ok(o, "message"@)
            &&& (sf_absent(o, "error_code"@) || (sf_str_ok(o, "error_code"@) && code_of(sf_str(o, "error_code"@)) is Some))
        }
        _ => false,
    }
}

/// What the decoded values hold, member by member.
pub open spec fn sm_err_matches(j: JsonV, message: String, error_code: Option<ErrorCode>) -> bool {
    match j {
        JsonV::Obj(o) => {
            &&& message@ == sf_str(o, "message"@)
            &&& (if sf_absent(o, "error_code"@) { error_code is None } else { error_code matches Some(vv) && (code_of(sf_str(o, "error_code"@)) == Some(vv)) })
        }
        _ => false,
    }
}

fn sm_err_build(message: &String, error_code: &Option<ErrorCode>) -> (j: Json)
    ensures
        j@ == JsonV::Obj(sm_err_members(*message, *error_code)),
{
    let mut fields: Vec<(String, Json)> = Vec::new();
    proof {
        assert(dv_fields(fields@) =~= Seq::<(Seq<char>, JsonV)>::empty());
    }
    push_member(&mut fields, "message", Json::Str((message).clone()));
    match error_code { Some(x) => { push_member(&mut fields, "error_code", Json::Str(String::from_str(x.code_text()))); } None => {} }
    proof {
        assert(dv_fields(fields@) =~= sm_err_members(*message, *error_code));
    }
    Json::Obj(fields)
}

fn sm_err_read(fields: &Vec<(String, Json)>) -> (r: Option<(String, Option<ErrorCode>)>)
    ensures
        match r {
            Some(t) => sm_err_matches(JsonV::Obj(dv_fields(fields@)), t.0, t.1),
            None => !sm_err_decodable(JsonV::Obj(dv_fields(fields@))),
        },
        r is Some <==> sm_err_decodable(JsonV::Obj(dv_fields(fields@))),
{
    let f_message = match get_str(fields, "message") { Some(s) => s, None => { return None; } };
    let f_error_code = match get_opt_str(fields, "error_code") {
        Some(Some(s)) => match ErrorCode::from_text(s.as_str()) { Some(e) => Some(e), None => { return None; } },
        Some(None) => None,
        None => { return None; }
    };
    Some((f_message, f_error_code))
}

/// Round trip for this data object.
pub proof fn lemma_sm_err_round_trip(message: String, error_code: Option<ErrorCode>, message2: String, error_code2: Option<ErrorCode>)
    ensures
        sm_err_decodable(JsonV::Obj(sm_err_members(message, error_code))),
        sm_err_matches(JsonV::Obj(sm_err_members(message, error_code)), message2, error_code2) ==> sm_err_members(message2, error_code2) == sm_err_members(message, error_code),
{
    reveal_strlit("error_code");
    reveal_strlit("message");
    assert("error_code"@.len() == 10);
    assert("message"@.len() == 7);
    let s0 = seq![("message"@, JsonV::Str(message@))];
    let s1 = (match error_code { Some(x) => seq![("error_code"@, JsonV::Str(code_str(x)))], None => Seq::empty() });
    lemma_lookup_at(s0, 0);
    lemma_lookup_absent(s0, "error_code"@);
    match error_code {
        Some(_) => {
            lemma_lookup_at(s1, 0);
            lemma_lookup_absent(s1, "message"@);
        }
        None => {
            lemma_lookup_absent(s1, "message"@);
            lemma_lookup_absent(s1, "error_code"@);
        }
    }
    let p1 = s0 + s1;
    lemma_lookup_append(s0, s1, "message"@);
    lemma_lookup_append(s0, s1, "error_code"@);
    match error_code { Some(x) => { lemma_error_code_round_trip(x); } None => {} }
    assert(sm_err_decodable(JsonV::Obj(sm_err_members(message, error_code))));
    if sm_err_matches(JsonV::Obj(sm_err_members(message, error_code)), message2, error_code2) {
        assert(sm_err_members(message2, error_code2) =~~= sm_err_members(message, error_code));
    }
}


// ── Client messages ─────────────────────────────────────────────────

/// A message the client sends to the server.
#[derive(Debug)]
pub enum ClientMessage {
    /// Authenticate with the application identifier; must be first.
    Authenticate {
        app_id: String,
        sdk_version: Option<String>,
        platform: Option<String>,
        game_data_format: Option<GameDataEncoding>,
    },
    /// Join or create a room for a specific game.
    JoinRoom {
        game_name: String,
        room_code: Option<String>,
        player_name: String,
        max_players: Option<u8>,
        supports_authority: Option<bool>,
        relay_transport: Option<RelayTransport>,
    },
    /// Leave the current room.
    LeaveRoom,
    /// Send game data to other players in the room.
    GameData {
        data: Json,
    },
    /// Request to become or connect to the authoritative peer.
    AuthorityRequest {
        become_authority: bool,
    },
    /// Signal readiness to start the game in the lobby.
    PlayerReady,
    /// Provide connection info for peer-to-peer establishment.
    ProvideConnectionInfo {
        connection_info: ConnectionInfo,
    },
    /// Heartbeat to maintain the connection.
    Ping,
    /// Reconnect to a room after a disconnection.
    Reconnect {
        player_id: PlayerId,
        room_id: RoomId,
        auth_token: String,
    },
    /// Join a room as a read-only observer.
    JoinAsSpectator {
        game_name: String,
        room_code: String,
        spectator_name: String,
    },
    /// Leave spectator mode.
    LeaveSpectator,
}

/// The envelope of a unit message: one member, the tag.
pub open spec fn env_unit(tag: Seq<char>) -> JsonV {
    JsonV::Obj(seq![("type"@, JsonV::Str(tag))])
}

/// The envelope of a message with content: the tag, then the data object.
pub open spec fn env_data(tag: Seq<char>, data: Seq<(Seq<char>, JsonV)>) -> JsonV {
    JsonV::Obj(seq![("type"@, JsonV::Str(tag)), ("data"@, JsonV::Obj(data))])
}

/// The tree a `ClientMessage` is written as.
pub open spec fn cm_jv(m: ClientMessage) -> JsonV {
    match m {
        ClientMessage::Authenticate { app_id, sdk_version, platform, game_data_format } => env_data("Authenticate"@, cm_auth_members(app_id, sdk_version, platform, game_data_format)),
        ClientMessage::JoinRoom { game_name, room_code, player_name, max_players, supports_authority, relay_transport } => env_data("JoinRoom"@, cm_join_members(game_name, room_code, player_name, max_players, supports_authority, relay_transport)),
        ClientMessage::LeaveRoom => env_unit("LeaveRoom"@),
        ClientMessage::GameData { data } => env_data("GameData"@, cm_game_data_members(data)),
        ClientMessage::AuthorityRequest { become_authority } => env_data("AuthorityRequest"@, cm_authreq_members(become_authority)),
        ClientMessage::PlayerReady => env_unit("PlayerReady"@),
        ClientMessage::ProvideConnectionInfo { connection_info } => env_data("ProvideConnectionInfo"@, cm_provide_members(connection_info)),
        ClientMessage::Ping => env_unit("Ping"@),
        ClientMessage::Reconnect { player_id, room_id, auth_token } => env_data("Reconnect"@, cm_reconnect_members(player_id, room_id, auth_token)),
        ClientMessage::JoinAsSpectator { game_name, room_code, spectator_name } => env_data("JoinAsSpectator"@, cm_spectate_members(game_name, room_code, spectator_name)),
        ClientMessage::LeaveSpectator => env_unit("LeaveSpectator"@),
    }
}

/// Which trees decode as a `ClientMessage`.
pub open spec fn cm_decodable(j: JsonV) -> bool {
    match j {
        JsonV::Obj(o) => {
            match lookup(o, "type"@) {
                Some(JsonV::Str(tag)) => {
                    if tag == "Authenticate"@ {
                        lookup(o, "data"@) matches Some(d) && cm_auth_decodable(d)
                    } else if tag == "JoinRoom"@ {
                        lookup(o, "data"@) matches Some(d) && cm_join_decodable(d)
                    } else if tag == "LeaveRoom"@ {
                        true
                    } else if tag == "GameData"@ {
                        lookup(o, "data"@) matches Some(d) && cm_game_data_decodable(d)
                    } else if tag == "AuthorityRequest"@ {
                        lookup(o, "data"@) matches Some(d) && cm_authreq_decodable(d)
                    } else if tag == "PlayerReady"@ {
                        true
                    } else if tag == "ProvideConnectionInfo"@ {
                        lookup(o, "data"@) matches Some(d) && cm_provide_decodable(d)
                    } else if tag == "Ping"@ {
                        true
                    } else if tag == "Reconnect"@ {
                        lookup(o, "data"@) matches Some(d) && cm_reconnect_decodable(d)
                    } else if tag == "JoinAsSpectator"@ {
                        lookup(o, "data"@) matches Some(d) && cm_spectate_decodable(d)
                    } else if tag == "LeaveSpectator"@ {
                        true
                    } else {
                        false
                    }
                }
                _ => false,
            }
        }
        _ => false,
    }
}

/// What the decoded `ClientMessage` holds.
pub open spec fn cm_matches(j: JsonV, m: ClientMessage) -> bool {
    match j {
        JsonV::Obj(o) => {
            match lookup(o, "type"@) {
                Some(JsonV::Str(tag)) => {
                    if tag == "Authenticate"@ {
                        lookup(o, "data"@) matches Some(d) && m matches ClientMessage::Authenticate { app_id, sdk_version, platform, game_data_format } && cm_auth_matches(d, app_id, sdk_version, platform, game_data_format)
                    } else if tag == "JoinRoom"@ {
                        lookup(o, "data"@) matches Some(d) && m matches ClientMessage::JoinRoom { game_name, room_code, player_name, max_players, supports_authority, relay_transport } && cm_join_matches(d, game_name, room_code, player_name, max_players, supports_authority, relay_transport)
                    } else if tag == "LeaveRoom"@ {
                        m is LeaveRoom
                    } else if tag == "GameData"@ {
                        lookup(o, "data"@) matches Some(d) && m matches ClientMessage::GameData { data } && cm_game_data_matches(d, data)
                    } else if tag == "AuthorityRequest"@ {
                        lookup(o, "data"@) matches Some(d) && m matches ClientMessage::AuthorityRequest { become_authority } && cm_authreq_matches(d, become_authority)
                    } else if tag == "PlayerReady"@ {
                        m is PlayerReady
                    } else if tag == "ProvideConnectionInfo"@ {
                        lookup(o, "data"@) matches Some(d) && m matches ClientMessage::ProvideConnectionInfo { connection_info } && cm_provide_matches(d, connection_info)
                    } else if tag == "Ping"@ {
                        m is Ping
                    } else if tag == "Reconnect"@ {
                        lookup(o, "data"@) matches Some(d) && m matches ClientMessage::Reconnect { player_id, room_id, auth_token } && cm_reconnect_matches(d, player_id, room_id, auth_token)
                    } else if tag == "JoinAsSpectator"@ {
                        lookup(o, "data"@) matches Some(d) && m matches ClientMessage::JoinAsSpectator { game_name, room_code, spectator_name } && cm_spectate_matches(d, game_name, room_code, spectator_name)
                    } else if tag == "LeaveSpectator"@ {
                        m is LeaveSpectator
                    } else {
                        false
                    }
                }
                _ => false,
            }
        }
        _ => false,
    }
}

fn env1(tag: &str) -> (j: Json)
    ensures
        j@ == env_unit(tag@),
{
    let mut fields: Vec<(String, Json)> = Vec::new();
    proof {
        assert(dv_fields(fields@) =~= Seq::<(Seq<char>, JsonV)>::empty());
    }
    push_member(&mut fields, "type", Json::Str(String::from_str(tag)));
    proof {
        assert(dv_fields(fields@) =~= env_unit(tag@)->Obj_0);
    }
    Json::Obj(fields)
}

fn env2(tag: &str, data: Json) -> (j: Json)
    ensures
        j@ == JsonV::Obj(seq![("type"@, JsonV::Str(tag@)), ("data"@, data@)]),
{
    let ghost dv = data@;
    let mut fields: Vec<(String, Json)> = Vec::new();
    proof {
        assert(dv_fields(fields@) =~= Seq::<(Seq<char>, JsonV)>::empty());
    }
    push_member(&mut fields, "type", Json::Str(String::from_str(tag)));
    push_member(&mut fields, "data", data);
    proof {
        assert(dv_fields(fields@) =~= seq![("type"@, JsonV::Str(tag@)), ("data"@, dv)]);
    }
    Json::Obj(fields)
}

impl ClientMessage {
    /// Writes this message as its tree, exactly as `cm_jv` gives it.
    pub fn to_json(&self) -> (j: Json)
        ensures
            j@ == cm_jv(*self),
    {
        match self {
            ClientMessage::Authenticate { app_id, sdk_version, platform, game_data_format } => env2("Authenticate", cm_auth_build(app_id, sdk_version, platform, game_data_format)),
            ClientMessage::JoinRoom { game_name, room_code, player_name, max_players, supports_authority, relay_transport } => env2("JoinRoom", cm_join_build(game_name, room_code, player_name, max_players, supports_authority, relay_transport)),
            ClientMessage::LeaveRoom => env1("LeaveRoom"),
            ClientMessage::GameData { data } => env2("GameData", cm_game_data_build(data)),
            ClientMessage::AuthorityRequest { become_authority } => env2("AuthorityRequest", cm_authreq_build(become_authority)),
            ClientMessage::PlayerReady => env1("PlayerReady"),
            ClientMessage::ProvideConnectionInfo { connection_info } => env2("ProvideConnectionInfo", cm_provide_build(connection_info)),
            ClientMessage::Ping => env1("Ping"),
            ClientMessage::Reconnect { player_id, room_id, auth_token } => env2("Reconnect", cm_reconnect_build(player_id, room_id, auth_token)),
            ClientMessage::JoinAsSpectator { game_name, room_code, spectator_name } => env2("JoinAsSpectator", cm_spectate_build(game_name, room_code, spectator_name)),
            ClientMessage::LeaveSpectator => env1("LeaveSpectator"),
        }
    }

    /// Reads a message from a tree, exactly when `cm_decodable`, the members
    /// as `cm_matches` pins them.
    pub fn from_json(j: &Json) -> (r: Option<ClientMessage>)
        ensures
            match r {
                Some(m) => cm_matches(j@, m),
                None => !cm_decodable(j@),
            },
            r is Some <==> cm_decodable(j@),
    {
        let fields = match j {
            Json::Obj(fields) => fields,
            _ => {
                return None;
            }
        };
        let tag = match get_str(fields, "type") {
            Some(t) => t,
            None => {
                return None;
            }
        };
        if str_eq(tag.as_str(), "Authenticate") {
            let d = match get_field(fields, "data") {
                Some(d) => d,
                None => {
                    return None;
                }
            };
            let df = match d {
                Json::Obj(df) => df,
                _ => {
                    proof {
                        lemma_dv_variant(*d);
                    }
                    return None;
                }
            };
            match cm_auth_read(df) {
                Some(t) => {
                    Some(ClientMessage::Authenticate { app_id: t.0, sdk_version: t.1, platform: t.2, game_data_format: t.3 })
                }
                None => {
                    return None;
                }
            }
        } else if str_eq(tag.as_str(), "JoinRoom") {
            let d = match get_field(fields, "data") {
                Some(d) => d,
                None => {
                    return None;
                }
            };
            let df = match d {
                Json::Obj(df) => df,
                _ => {
                    proof {
                        lemma_dv_variant(*d);
                    }
                    return None;
                }
            };
            match cm_join_read(df) {
                Some(t) => {
                    Some(ClientMessage::JoinRoom { game_name: t.0, room_code: t.1, player_name: t.2, max_players: t.3, supports_authority: t.4, relay_transport: t.5 })
                }
                None => {
                    return None;
                }
            }
        } else if str_eq(tag.as_str(), "LeaveRoom") {
            Some(ClientMessage::LeaveRoom)
        } else if str_eq(tag.as_str(), "GameData") {
            let d = match get_field(fields, "data") {
                Some(d) => d,
                None => {
                    return None;
                }
            };
            let df = match d {
                Json::Obj(df) => df,
                _ => {
                    proof {
                        lemma_dv_variant(*d);
                    }
                    return None;
                }
            };
            match cm_game_data_read(df) {
                Some(t) => {
                    Some(ClientMessage::GameData { data: t.0 })
                }
                None => {
                    return None;
                }
            }
        } else if str_eq(tag.as_str(), "AuthorityRequest") {
            let d = match get_field(fields, "data") {
                Some(d) => d,
                None => {
                    return None;
                }
            };
            let df = match d {
                Json::Obj(df) => df,
                _ => {
                    proof {
                        lemma_dv_variant(*d);
                    }
                    return None;
                }
            };
            match cm_authreq_read(df) {
                Some(t) => {
                    Some(ClientMessage::AuthorityRequest { become_authority: t.0 })
                }
                None => {
                    return None;
                }
            }
        } else if str_eq(tag.as_str(), "PlayerReady") {
            Some(ClientMessage::PlayerReady)
        } else if str_eq(tag.as_str(), "ProvideConnectionInfo") {
            let d = match get_field(fields, "data") {
                Some(d) => d,
                None => {
                    return None;
                }
            };
            let df = match d {
                Json::Obj(df) => df,
                _ => {
                    proof {
                        lemma_dv_variant(*d);
                    }
                    return None;
                }
            };
            match cm_provide_read(df) {
                Some(t) => {
                    Some(ClientMessage::ProvideConnectionInfo { connection_info: t.0 })
                }
                None => {
                    return None;
                }
            }
        } else if str_eq(tag.as_str(), "Ping") {
            Some(ClientMessage::Ping)
        } else if str_eq(tag.as_str(), "Reconnect") {
            let d = match get_field(fields, "data") {
                Some(d) => d,
                None => {
                    return None;
                }
            };
            let df = match d {
                Json::Obj(df) => df,
                _ => {
                    proof {
                        lemma_dv_variant(*d);
                    }
                    return None;
                }
            };
            match cm_reconnect_read(df) {
                Some(t) => {
                    Some(ClientMessage::Reconnect { player_id: t.0, room_id: t.1, auth_token: t.2 })
                }
                None => {
                    return None;
                }
            }
        } else if str_eq(tag.as_str(), "JoinAsSpectator") {
            let d = match get_field(fields, "data") {
                Some(d) => d,
                None => {
                    return None;
                }
            };
            let df = match d {
                Json::Obj(df) => df,
                _ => {
                    proof {
                        lemma_dv_variant(*d);
                    }
                    return None;
                }
            };
            match cm_spectate_read(df) {
                Some(t) => {
                    Some(ClientMessage::JoinAsSpectator { game_name: t.0, room_code: t.1, spectator_name: t.2 })
                }
                None => {
                    return None;
                }
            }
        } else if str_eq(tag.as_str(), "LeaveSpectator") {
            Some(ClientMessage::LeaveSpectator)
        } else {
            None
        }
    }
}

/// Round trip: the canonical tree of a `ClientMessage` decodes, and any
/// value its members pin re-encodes to the same tree.
pub proof fn lemma_cm_round_trip(m: ClientMessage, m2: ClientMessage)
    ensures
        cm_decodable(cm_jv(m)),
        cm_matches(cm_jv(m), m2) ==> cm_jv(m2) == cm_jv(m),
{
    reveal_strlit("Authenticate");
    reveal_strlit("AuthorityRequest");
    reveal_strlit("GameData");
    reveal_strlit("JoinAsSpectator");
    reveal_strlit("JoinRoom");
    reveal_strlit("LeaveRoom");
    reveal_strlit("LeaveSpectator");
    reveal_strlit("Ping");
    reveal_strlit("PlayerReady");
    reveal_strlit("ProvideConnectionInfo");
    reveal_strlit("Reconnect");
    reveal_strlit("data");
    reveal_strlit("type");
    assert("Authenticate"@.len() == 12);
    assert("AuthorityRequest"@.len() == 16);
    assert("GameData"@.len() == 8);
    assert("JoinAsSpectator"@.len() == 15);
    assert("JoinRoom"@.len() == 8);
    assert("LeaveRoom"@.len() == 9);
    assert("LeaveSpectator"@.len() == 14);
    assert("Ping"@.len() == 4);
    assert("PlayerReady"@.len() == 11);
    assert("ProvideConnectionInfo"@.len() == 21);
    assert("Reconnect"@.len() == 9);
    assert("data"@.len() == 4);
    assert("type"@.len() == 4);
    assert("GameData"@[0] == 'G');
    assert("JoinRoom"@[0] == 'J');
    assert("LeaveRoom"@[0] == 'L');
    assert("Ping"@[0] == 'P');
    assert("Reconnect"@[0] == 'R');
    assert("data"@[0] == 'd');
    assert("type"@[0] == 't');
    let o = cm_jv(m)->Obj_0;
    match m {
        ClientMessage::Authenticate { app_id, sdk_version, platform, game_data_format } => {
            lemma_lookup_at(o, 0);
            lemma_lookup_at(o, 1);
            lemma_cm_auth_round_trip(app_id, sdk_version, platform, game_data_format, app_id, sdk_version, platform, game_data_format);
            assert(cm_decodable(cm_jv(m)));
            if cm_matches(cm_jv(m), m2) {
                lemma_cm_auth_round_trip(app_id, sdk_version, platform, game_data_format, m2->Authenticate_app_id, m2->Authenticate_sdk_version, m2->Authenticate_platform, m2->Authenticate_game_data_format);
                assert(cm_jv(m2) =~~= cm_jv(m));
            }
        }
        ClientMessage::JoinRoom { game_name, room_code, player_name, max_players, supports_authority, relay_transport } => {
            lemma_lookup_at(o, 0);
            lemma_lookup_at(o, 1);
            lemma_cm_join_round_trip(game_name, room_code, player_name, max_players, supports_authority, relay_transport, game_name, room_code, player_name, max_players, supports_authority, relay_transport);
            assert(cm_decodable(cm_jv(m)));
            if cm_matches(cm_jv(m), m2) {
                lemma_cm_join_round_trip(game_name, room_code, player_name, max_players, supports_authority, relay_transport, m2->JoinRoom_game_name, m2->JoinRoom_room_code, m2->JoinRoom_player_name, m2->JoinRoom_max_players, m2->JoinRoom_supports_authority, m2->JoinRoom_relay_transport);
                assert(cm_jv(m2) =~~= cm_jv(m));
            }
        }
        ClientMessage::LeaveRoom => {
            lemma_lookup_at(o, 0);
            assert(cm_decodable(cm_jv(m)));
            if cm_matches(cm_jv(m), m2) {
                assert(cm_jv(m2) =~~= cm_jv(m));
            }
        }
        ClientMessage::GameData { data } => {
            lemma_lookup_at(o, 0);
            lemma_lookup_at(o, 1);
            lemma_cm_game_data_round_trip(data, data);
            assert(cm_decodable(cm_jv(m)));
            if cm_matches(cm_jv(m), m2) {
                lemma_cm_game_data_round_trip(data, m2->GameData_data);
                assert(cm_jv(m2) =~~= cm_jv(m));
            }
        }
        ClientMessage::AuthorityRequest { become_authority } => {
            lemma_lookup_at(o, 0);
            lemma_lookup_at(o, 1);
            lemma_cm_authreq_round_trip(become_authority, become_authority);
            assert(cm_decodable(cm_jv(m)));
            if cm_matches(cm_jv(m), m2) {
                lemma_cm_authreq_round_trip(become_authority, m2->AuthorityRequest_become_authority);
                assert(cm_jv(m2) =~~= cm_jv(m));
            }
        }
        ClientMessage::PlayerReady => {
            lemma_lookup_at(o, 0);
            assert(cm_decodable(cm_jv(m)));
            if cm_matches(cm_jv(m), m2) {
                assert(cm_jv(m2) =~~= cm_jv(m));
            }
        }
        ClientMessage::ProvideConnectionInfo { connection_info } => {
            lemma_lookup_at(o, 0);
            lemma_lookup_at(o, 1);
            lemma_cm_provide_round_trip(connection_info, connection_info);
            assert(cm_decodable(cm_jv(m)));
            if cm_matches(cm_jv(m), m2) {
                lemma_cm_provide_round_trip(connection_info, m2->ProvideConnectionInfo_connection_info);
                assert(cm_jv(m2) =~~= cm_jv(m));
            }
        }
        ClientMessage::Ping => {
            lemma_lookup_at(o, 0);
            assert(cm_decodable(cm_jv(m)));
            if cm_matches(cm_jv(m), m2) {
                assert(cm_jv(m2) =~~= cm_jv(m));
            }
        }
        ClientMessage::Reconnect { player_id, room_id, auth_token } => {
            lemma_lookup_at(o, 0);
            lemma_lookup_at(o, 1);
            lemma_cm_reconnect_round_trip(player_id, room_id, auth_token, player_id, room_id, auth_token);
            assert(cm_decodable(cm_jv(m)));
            if cm_matches(cm_jv(m), m2) {
                lemma_cm_reconnect_round_trip(player_id, room_id, auth_token, m2->Reconnect_player_id, m2->Reconnect_room_id, m2->Reconnect_auth_token);
                assert(cm_jv(m2) =~~= cm_jv(m));
            }
        }
        ClientMessage::JoinAsSpectator { game_name, room_code, spectator_name } => {
            lemma_lookup_at(o, 0);
            lemma_lookup_at(o, 1);
            lemma_cm_spectate_round_trip(game_name, room_code, spectator_name, game_name, room_code, spectator_name);
            assert(cm_decodable(cm_jv(m)));
            if cm_matches(cm_jv(m), m2) {
                lemma_cm_spectate_round_trip(game_name, room_code, spectator_name, m2->JoinAsSpectator_game_name, m2->JoinAsSpectator_room_code, m2->JoinAsSpectator_spectator_name);
                assert(cm_jv(m2) =~~= cm_jv(m));
            }
        }
        ClientMessage::LeaveSpectator => {
            lemma_lookup_at(o, 0);
            assert(cm_decodable(cm_jv(m)));
            if cm_matches(cm_jv(m), m2) {
                assert(cm_jv(m2) =~~= cm_jv(m));
            }
        }
    }
}


// ── Server messages ─────────────────────────────────────────────────

/// A message the server sends to the client.
#[derive(Debug)]
pub enum ServerMessage {
    Authenticated {
        app_name: String,
        organization: Option<String>,
        rate_limits: RateLimitInfo,
    },
    ProtocolInfo(ProtocolInfoPayload),
    AuthenticationError {
        error: String,
        error_code: ErrorCode,
    },
    RoomJoined(Box<RoomJoinedPayload>),
    RoomJoinFailed {
        reason: String,
        error_code: Option<ErrorCode>,
    },
    RoomLeft,
    PlayerJoined {
        player: PlayerInfo,
    },
    PlayerLeft {
        player_id: PlayerId,
    },
    GameData {
        from_player: PlayerId,
        data: Json,
    },
    GameDataBinary {
        from_player: PlayerId,
        encoding: GameDataEncoding,
        payload: Vec<u8>,
    },
    AuthorityChanged {
        authority_player: Option<PlayerId>,
        you_are_authority: bool,
    },
    AuthorityResponse {
        granted: bool,
        reason: Option<String>,
        error_code: Option<ErrorCode>,
    },
    LobbyStateChanged {
        lobby_state: LobbyState,
        ready_players: Vec<PlayerId>,
        all_ready: bool,
    },
    GameStarting {
        peer_connections: Vec<PeerConnectionInfo>,
    },
    Pong,
    Reconnected(Box<ReconnectedPayload>),
    ReconnectionFailed {
        reason: String,
        error_code: ErrorCode,
    },
    PlayerReconnected {
        player_id: PlayerId,
    },
    SpectatorJoined(Box<SpectatorJoinedPayload>),
    SpectatorJoinFailed {
        reason: String,
        error_code: Option<ErrorCode>,
    },
    SpectatorLeft {
        room_id: Option<RoomId>,
        room_code: Option<String>,
        reason: Option<SpectatorStateChangeReason>,
        current_spectators: Vec<SpectatorInfo>,
    },
    NewSpectatorJoined {
        spectator: SpectatorInfo,
        current_spectators: Vec<SpectatorInfo>,
        reason: Option<SpectatorStateChangeReason>,
    },
    SpectatorDisconnected {
        spectator_id: PlayerId,
        reason: Option<SpectatorStateChangeReason>,
        current_spectators: Vec<SpectatorInfo>,
    },
    Error {
        message: String,
        error_code: Option<ErrorCode>,
    },
}

/// Payload for the `Reconnected` server message: the room state plus the
/// notifications missed while disconnected.
#[derive(Debug)]
pub struct ReconnectedPayload {
    pub room_id: RoomId,
    pub room_code: String,
    pub player_id: PlayerId,
    pub game_name: String,
    pub max_players: u8,
    pub supports_authority: bool,
    pub current_players: Vec<PlayerInfo>,
    pub is_authority: bool,
    pub lobby_state: LobbyState,
    pub ready_players: Vec<PlayerId>,
    pub relay_type: String,
    pub current_spectators: Vec<SpectatorInfo>,
    pub missed_events: Vec<ServerMessage>,
}

/// Well-formedness of a sequence of server messages.
pub open spec fn sms_wf(v: Seq<ServerMessage>) -> bool
    decreases v,
{
    forall|x: int| 0 <= x < v.len() ==> sm_wf(#[trigger] v[x])
}

/// Well-formedness of a server message: its numeric payloads fit the wire's
/// integer model, recursively through missed events.
pub open spec fn sm_wf(m: ServerMessage) -> bool
    decreases m,
{
    match m {
        ServerMessage::ProtocolInfo(p) => proto_wf(p),
        ServerMessage::Reconnected(p) => sms_wf(p.missed_events@),
        _ => true,
    }
}

/// The trees of a sequence of server messages, element-wise.
pub open spec fn sms_jv(v: Seq<ServerMessage>) -> Seq<JsonV>
    decreases v,
{
    if v.len() == 0 {
        Seq::empty()
    } else {
        seq![sm_jv(v[0])] + sms_jv(v.drop_first())
    }
}

/// `sms_jv` is the element-wise tree.
pub proof fn lemma_sms_jv(v: Seq<ServerMessage>)
    ensures
        sms_jv(v).len() == v.len(),
        forall|i: int| 0 <= i < v.len() ==> sms_jv(v)[i] == sm_jv(#[trigger] v[i]),
    decreases v.len(),
{
    if v.len() > 0 {
        lemma_sms_jv(v.drop_first());
        assert forall|i: int| 0 <= i < v.len() implies sms_jv(v)[i] == sm_jv(
            #[trigger] v[i],
        ) by {
            if i > 0 {
                assert(v.drop_first()[i - 1] == v[i]);
                assert(sms_jv(v)[i] == sms_jv(v.drop_first())[i - 1]);
            }
        }
    }
}

/// The members a `ReconnectedPayload` is written with.
pub open spec fn rc_members(v: ReconnectedPayload) -> Seq<(Seq<char>, JsonV)>
    decreases v,
{
    seq![("room_id"@, uid_jv(v.room_id))]
        + seq![("room_code"@, JsonV::Str(v.room_code@))]
        + seq![("player_id"@, uid_jv(v.player_id))]
        + seq![("game_name"@, JsonV::Str(v.game_name@))]
        + seq![("max_players"@, JsonV::Int(v.max_players as int))]
        + seq![("supports_authority"@, JsonV::Bool(v.supports_authority))]
        + seq![("current_players"@, JsonV::Arr(pis_jv(v.current_players@)))]
        + seq![("is_authority"@, JsonV::Bool(v.is_authority))]
        + seq![("lobby_state"@, JsonV::Str(ls_str(v.lobby_state)))]
        + seq![("ready_players"@, JsonV::Arr(uids_jv(v.ready_players@)))]
        + seq![("relay_type"@, JsonV::Str(v.relay_type@))]
        + seq![("current_spectators"@, JsonV::Arr(sis_jv(v.current_spectators@)))]
        + seq![("missed_events"@, JsonV::Arr(sms_jv(v.missed_events@)))]
}

/// The tree a `ReconnectedPayload` is written as.
pub open spec fn rc_jv(v: ReconnectedPayload) -> JsonV {
    JsonV::Obj(rc_members(v))
}

/// Every element of the array tree decodes as a server message.
pub open spec fn arr_sm_decodable(j: JsonV) -> bool
    decreases j,
{
    j matches JsonV::Arr(a) && (forall|x: int|
        0 <= x < a.len() ==> sm_decodable(#[trigger] a[x]))
}

/// The elements read one-for-one from the array tree.
pub open spec fn arr_sm_matches(j: JsonV, v: Seq<ServerMessage>) -> bool
    decreases j,
{
    j matches JsonV::Arr(a) && a.len() == v.len() && (forall|x: int|
        0 <= x < a.len() ==> sm_matches(#[trigger] a[x], v[x]))
}

/// Which trees decode as a `ReconnectedPayload`.
pub open spec fn rc_decodable(j: JsonV) -> bool
    decreases j,
    via rc_decodable_dec
{
    match j {
        JsonV::Obj(o) => {
            &&& sf_str_ok(o, "room_id"@) && uid_of(sf_str(o, "room_id"@)) is Some
            &&& sf_str_ok(o, "room_code"@)
            &&& sf_str_ok(o, "player_id"@) && uid_of(sf_str(o, "player_id"@)) is Some
            &&& sf_str_ok(o, "game_name"@)
            &&& sf_int_ok(o, "max_players"@) && 0 <= sf_int(o, "max_players"@) <= 255
            &&& sf_bool_ok(o, "supports_authority"@)
            &&& (lookup(o, "current_players"@) matches Some(x) && arr_pi_decodable(x))
            &&& sf_bool_ok(o, "is_authority"@)
            &&& sf_str_ok(o, "lobby_state"@) && ls_of(sf_str(o, "lobby_state"@)) is Some
            &&& (lookup(o, "ready_players"@) matches Some(x) && arr_uid_decodable(x))
            &&& sf_str_ok(o, "relay_type"@)
            &&& (sf_absent(o, "current_spectators"@) || (lookup(o, "current_spectators"@) matches Some(x) && arr_si_decodable(x)))
            &&& (lookup(o, "missed_events"@) matches Some(x) && arr_sm_decodable(x))
        }
        _ => false,
    }
}

#[via_fn]
proof fn rc_decodable_dec(j: JsonV) {
    match j {
        JsonV::Obj(o) => {
            if lookup(o, "missed_events"@) is Some {
                crate::wire::lemma_lookup_decreases(o, "missed_events"@);
            }
        }
        _ => {}
    }
}

/// What the decoded `ReconnectedPayload` holds, member by member.
pub open spec fn rc_matches(j: JsonV, v: ReconnectedPayload) -> bool
    decreases j,
    via rc_matches_dec
{
    match j {
        JsonV::Obj(o) => {
            &&& uid_of(sf_str(o, "room_id"@)) == Some(v.room_id.value as int)
            &&& v.room_code@ == sf_str(o, "room_code"@)
            &&& uid_of(sf_str(o, "player_id"@)) == Some(v.player_id.value as int)
            &&& v.game_name@ == sf_str(o, "game_name"@)
            &&& v.max_players as int == sf_int(o, "max_players"@)
            &&& v.supports_authority == sf_bool(o, "supports_authority"@)
            &&& (lookup(o, "current_players"@) matches Some(x) && arr_pi_matches(x, v.current_players@))
            &&& v.is_authority == sf_bool(o, "is_authority"@)
            &&& ls_of(sf_str(o, "lobby_state"@)) == Some(v.lobby_state)
            &&& (lookup(o, "ready_players"@) matches Some(x) && arr_uid_matches(x, v.ready_players@))
            &&& v.relay_type@ == sf_str(o, "relay_type"@)
            &&& (if sf_absent(o, "current_spectators"@) { v.current_spectators@.len() == 0 } else { lookup(o, "current_spectators"@) matches Some(x) && arr_si_matches(x, v.current_spectators@) })
            &&& (lookup(o, "missed_events"@) matches Some(x) && arr_sm_matches(x, v.missed_events@))
        }
        _ => false,
    }
}

#[via_fn]
proof fn rc_matches_dec(j: JsonV, v: ReconnectedPayload) {
    match j {
        JsonV::Obj(o) => {
            if lookup(o, "missed_events"@) is Some {
                crate::wire::lemma_lookup_decreases(o, "missed_events"@);
            }
        }
        _ => {}
    }
}

/// The tree a `ServerMessage` is written as.
pub open spec fn sm_jv(m: ServerMessage) -> JsonV
    decreases m,
{
    match m {
        ServerMessage::Authenticated { app_name, organization, rate_limits } => env_data("Authenticated"@, sm_authed_members(app_name, organization, rate_limits)),
        ServerMessage::ProtocolInfo(p) => env_data("ProtocolInfo"@, proto_members(p)),
        ServerMessage::AuthenticationError { error, error_code } => env_data("AuthenticationError"@, sm_autherr_members(error, error_code)),
        ServerMessage::RoomJoined(p) => env_data("RoomJoined"@, rj_members(*p)),
        ServerMessage::RoomJoinFailed { reason, error_code } => env_data("RoomJoinFailed"@, sm_joinfail_members(reason, error_code)),
        ServerMessage::RoomLeft => env_unit("RoomLeft"@),
        ServerMessage::PlayerJoined { player } => env_data("PlayerJoined"@, sm_pjoined_members(player)),
        ServerMessage::PlayerLeft { player_id } => env_data("PlayerLeft"@, sm_pleft_members(player_id)),
        ServerMessage::GameData { from_player, data } => env_data("GameData"@, sm_gdata_members(from_player, data)),
        ServerMessage::GameDataBinary { from_player, encoding, payload } => env_data("GameDataBinary"@, sm_gbin_members(from_player, encoding, payload)),
        ServerMessage::AuthorityChanged { authority_player, you_are_authority } => env_data("AuthorityChanged"@, sm_authch_members(authority_player, you_are_authority)),
        ServerMessage::AuthorityResponse { granted, reason, error_code } => env_data("AuthorityResponse"@, sm_authresp_members(granted, reason, error_code)),
        ServerMessage::LobbyStateChanged { lobby_state, ready_players, all_ready } => env_data("LobbyStateChanged"@, sm_lobby_members(lobby_state, ready_players, all_ready)),
        ServerMessage::GameStarting { peer_connections } => env_data("GameStarting"@, sm_starting_members(peer_connections)),
        ServerMessage::Pong => env_unit("Pong"@),
        ServerMessage::Reconnected(p) => env_data("Reconnected"@, rc_members(*p)),
        ServerMessage::ReconnectionFailed { reason, error_code } => env_data("ReconnectionFailed"@, sm_reconfail_members(reason, error_code)),
        ServerMessage::PlayerReconnected { player_id } => env_data("PlayerReconnected"@, sm_preconn_members(player_id)),
        ServerMessage::SpectatorJoined(p) => env_data("SpectatorJoined"@, sj_members(*p)),
        ServerMessage::SpectatorJoinFailed { reason, error_code } => env_data("SpectatorJoinFailed"@, sm_sjoinfail_members(reason, error_code)),
        ServerMessage::SpectatorLeft { room_id, room_code, reason, current_spectators } => env_data("SpectatorLeft"@, sm_sleft_members(room_id, room_code, reason, current_spectators)),
        ServerMessage::NewSpectatorJoined { spectator, current_spectators, reason } => env_data("NewSpectatorJoined"@, sm_newspec_members(spectator, current_spectators, reason)),
        ServerMessage::SpectatorDisconnected { spectator_id, reason, current_spectators } => env_data("SpectatorDisconnected"@, sm_sdisc_members(spectator_id, reason, current_spectators)),
        ServerMessage::Error { message, error_code } => env_data("Error"@, sm_err_members(message, error_code)),
    }
}

/// Which trees decode as a `ServerMessage`.
pub open spec fn sm_decodable(j: JsonV) -> bool
    decreases j,
    via sm_decodable_dec
{
    match j {
        JsonV::Obj(o) => {
            match lookup(o, "type"@) {
                Some(JsonV::Str(tag)) => {
                    if tag == "Authenticated"@ {
                        lookup(o, "data"@) matches Some(d) && sm_authed_decodable(d)
                    } else if tag == "ProtocolInfo"@ {
                        lookup(o, "data"@) matches Some(d) && proto_decodable(d)
                    } else if tag == "AuthenticationError"@ {
                        lookup(o, "data"@) matches Some(d) && sm_autherr_decodable(d)
                    } else if tag == "RoomJoined"@ {
                        lookup(o, "data"@) matches Some(d) && rj_decodable(d)
                    } else if tag == "RoomJoinFailed"@ {
                        lookup(o, "data"@) matches Some(d) && sm_joinfail_decodable(d)
                    } else if tag == "RoomLeft"@ {
                        true
                    } else if tag == "PlayerJoined"@ {
                        lookup(o, "data"@) matches Some(d) && sm_pjoined_decodable(d)
                    } else if tag == "PlayerLeft"@ {
                        lookup(o, "data"@) matches Some(d) && sm_pleft_decodable(d)
                    } else if tag == "GameData"@ {
                        lookup(o, "data"@) matches Some(d) && sm_gdata_decodable(d)
                    } else if tag == "GameDataBinary"@ {
                        lookup(o, "data"@) matches Some(d) && sm_gbin_decodable(d)
                    } else if tag == "AuthorityChanged"@ {
                        lookup(o, "data"@) matches Some(d) && sm_authch_decodable(d)
                    } else if tag == "AuthorityResponse"@ {
                        lookup(o, "data"@) matches Some(d) && sm_authresp_decodable(d)
                    } else if tag == "LobbyStateChanged"@ {
                        lookup(o, "data"@) matches Some(d) && sm_lobby_decodable(d)
                    } else if tag == "GameStarting"@ {
                        lookup(o, "data"@) matches Some(d) && sm_starting_decodable(d)
                    } else if tag == "Pong"@ {
                        true
                    } else if tag == "Reconnected"@ {
                        lookup(o, "data"@) matches Some(d) && rc_decodable(d)
                    } else if tag == "ReconnectionFailed"@ {
                        lookup(o, "data"@) matches Some(d) && sm_reconfail_decodable(d)
                    } else if tag == "PlayerReconnected"@ {
                        lookup(o, "data"@) matches Some(d) && sm_preconn_decodable(d)
                    } else if tag == "SpectatorJoined"@ {
                        lookup(o, "data"@) matches Some(d) && sj_decodable(d)
                    } else if tag == "SpectatorJoinFailed"@ {
                        lookup(o, "data"@) matches Some(d) && sm_sjoinfail_decodable(d)
                    } else if tag == "SpectatorLeft"@ {
                        lookup(o, "data"@) matches Some(d) && sm_sleft_decodable(d)
                    } else if tag == "NewSpectatorJoined"@ {
                        lookup(o, "data"@) matches Some(d) && sm_newspec_decodable(d)
                    } else if tag == "SpectatorDisconnected"@ {
                        lookup(o, "data"@) matches Some(d) && sm_sdisc_decodable(d)
                    } else if tag == "Error"@ {
                        lookup(o, "data"@) matches Some(d) && sm_err_decodable(d)
                    } else {
                        false
                    }
                }
                _ => false,
            }
        }
        _ => false,
    }
}

#[via_fn]
proof fn sm_decodable_dec(j: JsonV) {
    match j {
        JsonV::Obj(o) => {
            if lookup(o, "data"@) is Some {
                crate::wire::lemma_lookup_decreases(o, "data"@);
            }
        }
        _ => {}
    }
}

/// What the decoded `ServerMessage` holds.
pub open spec fn sm_matches(j: JsonV, m: ServerMessage) -> bool
    decreases j,
    via sm_matches_dec
{
    match j {
        JsonV::Obj(o) => {
            match lookup(o, "type"@) {
                Some(JsonV::Str(tag)) => {
                    if tag == "Authenticated"@ {
                        lookup(o, "data"@) matches Some(d) && m matches ServerMessage::Authenticated { app_name, organization, rate_limits } && sm_authed_matches(d, app_name, organization, rate_limits)
                    } else if tag == "ProtocolInfo"@ {
                        lookup(o, "data"@) matches Some(d) && m matches ServerMessage::ProtocolInfo(p) && proto_matches(d, p)
                    } else if tag == "AuthenticationError"@ {
                        lookup(o, "data"@) matches Some(d) && m matches ServerMessage::AuthenticationError { error, error_code } && sm_autherr_matches(d, error, error_code)
                    } else if tag == "RoomJoined"@ {
                        lookup(o, "data"@) matches Some(d) && m matches ServerMessage::RoomJoined(p) && rj_matches(d, *p)
                    } else if tag == "RoomJoinFailed"@ {
                        lookup(o, "data"@) matches Some(d) && m matches ServerMessage::RoomJoinFailed { reason, error_code } && sm_joinfail_matches(d, reason, error_code)
                    } else if tag == "RoomLeft"@ {
                        m is RoomLeft
                    } else if tag == "PlayerJoined"@ {
                        lookup(o, "data"@) matches Some(d) && m matches ServerMessage::PlayerJoined { player } && sm_pjoined_matches(d, player)
                    } else if tag == "PlayerLeft"@ {
                        lookup(o, "data"@) matches Some(d) && m matches ServerMessage::PlayerLeft { player_id } && sm_pleft_matches(d, player_id)
                    } else if tag == "GameData"@ {
                        lookup(o, "data"@) matches Some(d) && m matches ServerMessage::GameData { from_player, data } && sm_gdata_matches(d, from_player, data)
                    } else if tag == "GameDataBinary"@ {
                        lookup(o, "data"@) matches Some(d) && m matches ServerMessage::GameDataBinary { from_player, encoding, payload } && sm_gbin_matches(d, from_player, encoding, payload)
                    } else if tag == "AuthorityChanged"@ {
                        lookup(o, "data"@) matches Some(d) && m matches ServerMessage::AuthorityChanged { authority_player, you_are_authority } && sm_authch_matches(d, authority_player, you_are_authority)
                    } else if tag == "AuthorityResponse"@ {
                        lookup(o, "data"@) matches Some(d) && m matches ServerMessage::AuthorityResponse { granted, reason, error_code } && sm_authresp_matches(d, granted, reason, error_code)
                    } else if tag == "LobbyStateChanged"@ {
                        lookup(o, "data"@) matches Some(d) && m matches ServerMessage::LobbyStateChanged { lobby_state, ready_players, all_ready } && sm_lobby_matches(d, lobby_state, ready_players, all_ready)
                    } else if tag == "GameStarting"@ {
                        lookup(o, "data"@) matches Some(d) && m matches ServerMessage::GameStarting { peer_connections } && sm_starting_matches(d, peer_connections)
                    } else if tag == "Pong"@ {
                        m is Pong
                    } else if tag == "Reconnected"@ {
                        lookup(o, "data"@) matches Some(d) && m matches ServerMessage::Reconnected(p) && rc_matches(d, *p)
                    } else if tag == "ReconnectionFailed"@ {
                        lookup(o, "data"@) matches Some(d) && m matches ServerMessage::ReconnectionFailed { reason, error_code } && sm_reconfail_matches(d, reason, error_code)
                    } else if tag == "PlayerReconnected"@ {
                        lookup(o, "data"@) matches Some(d) && m matches ServerMessage::PlayerReconnected { player_id } && sm_preconn_matches(d, player_id)
                    } else if tag == "SpectatorJoined"@ {
                        lookup(o, "data"@) matches Some(d) && m matches ServerMessage::SpectatorJoined(p) && sj_matches(d, *p)
                    } else if tag == "SpectatorJoinFailed"@ {
                        lookup(o, "data"@) matches Some(d) && m matches ServerMessage::SpectatorJoinFailed { reason, error_code } && sm_sjoinfail_matches(d, reason, error_code)
                    } else if tag == "SpectatorLeft"@ {
                        lookup(o, "data"@) matches Some(d) && m matches ServerMessage::SpectatorLeft { room_id, room_code, reason, current_spectators } && sm_sleft_matches(d, room_id, room_code, reason, current_spectators)
                    } else if tag == "NewSpectatorJoined"@ {
                        lookup(o, "data"@) matches Some(d) && m matches ServerMessage::NewSpectatorJoined { spectator, current_spectators, reason } && sm_newspec_matches(d, spectator, current_spectators, reason)
                    } else if tag == "SpectatorDisconnected"@ {
                        lookup(o, "data"@) matches Some(d) && m matches ServerMessage::SpectatorDisconnected { spectator_id, reason, current_spectators } && sm_sdisc_matches(d, spectator_id, reason, current_spectators)
                    } else if tag == "Error"@ {
                        lookup(o, "data"@) matches Some(d) && m matches ServerMessage::Error { message, error_code } && sm_err_matches(d, message, error_code)
                    } else {
                        false
                    }
                }
                _ => false,
            }
        }
        _ => false,
    }
}

#[via_fn]
proof fn sm_matches_dec(j: JsonV, m: ServerMessage) {
    match j {
        JsonV::Obj(o) => {
            if lookup(o, "data"@) is Some {
                crate::wire::lemma_lookup_decreases(o, "data"@);
            }
        }
        _ => {}
    }
}


fn sms_to_json(v: &Vec<ServerMessage>) -> (j: Json)
    requires
        sms_wf(v@),
    ensures
        j@ == JsonV::Arr(sms_jv(v@)),
    decreases v,
{
    proof {
        lemma_sms_jv(v@);
    }
    let mut items: Vec<Json> = Vec::new();
    let n = v.len();
    let mut i: usize = 0;
    while i < n
        invariant
            i <= n,
            n == v@.len(),
            sms_wf(v@),
            sms_jv(v@).len() == n,
            forall|x: int| 0 <= x < n ==> sms_jv(v@)[x] == sm_jv(#[trigger] v@[x]),
            dv_seq(items@).len() == i,
            forall|x: int| 0 <= x < i ==> dv_seq(items@)[x] == sms_jv(v@)[x],
        decreases n - i,
    {
        let ghost pre_items = items@;
        assert(sm_wf(v@[i as int]));
        let item = v[i].to_json();
        proof {
            crate::json::lemma_dv_seq_push(pre_items, item);
        }
        items.push(item);
        i = i + 1;
    }
    proof {
        assert(dv_seq(items@) =~= sms_jv(v@));
    }
    Json::Arr(items)
}

fn sms_from_json(j: &Json) -> (r: Option<Vec<ServerMessage>>)
    ensures
        match r {
            Some(v) => arr_sm_matches(j@, v@) && sms_wf(v@),
            None => !arr_sm_decodable(j@),
        },
        r is Some <==> arr_sm_decodable(j@),
    decreases j,
{
    match j {
        Json::Arr(items) => {
            let ghost a = dv_seq(items@);
            proof {
                lemma_dv_seq(items@);
            }
            let mut out: Vec<ServerMessage> = Vec::new();
            let n = items.len();
            let mut i: usize = 0;
            while i < n
                invariant
                    i <= n,
                    n == items@.len(),
                    *j == Json::Arr(*items),
                    j@ == JsonV::Arr(a),
                    a == dv_seq(items@),
                    a.len() == n,
                    forall|x: int| 0 <= x < n ==> #[trigger] a[x] == items@[x].dv(),
                    out@.len() == i,
                    forall|x: int| 0 <= x < i ==> sm_matches(#[trigger] a[x], out@[x]),
                    forall|x: int| 0 <= x < i ==> sm_decodable(#[trigger] a[x]),
                    forall|x: int| 0 <= x < i ==> sm_wf(#[trigger] out@[x]),
                decreases n - i,
            {
                let item = &items[i];
                proof {
                    assert(item@ == a[i as int]);
                    assert(decreases_to!(*j => items@[i as int])) by {
                        assert((*j)->Arr_0 == *items);
                        assert(decreases_to!(*j => (*j)->Arr_0));
                        assert(decreases_to!(*items => items@));
                        assert(decreases_to!(items@ => items@[i as int]));
                    }
                }
                match ServerMessage::from_json(item) {
                    Some(e) => {
                        out.push(e);
                    }
                    None => {
                        proof {
                            assert(!arr_sm_decodable(JsonV::Arr(a))) by {
                                if arr_sm_decodable(JsonV::Arr(a)) {
                                    let aa = JsonV::Arr(a)->Arr_0;
                                    assert(aa == a);
                                    assert(sm_decodable(aa[i as int]));
                                }
                            }
                        }
                        return None;
                    }
                }
                i = i + 1;
            }
            Some(out)
        }
        _ => None,
    }
}

/// Writes a `ReconnectedPayload` as its tree, exactly as `rc_jv` gives it.
pub fn rc_to_json(v: &ReconnectedPayload) -> (j: Json)
    requires
        sms_wf(v.missed_events@),
    ensures
        j@ == rc_jv(*v),
    decreases v,
{
    let mut fields: Vec<(String, Json)> = Vec::new();
    proof {
        assert(dv_fields(fields@) =~= Seq::<(Seq<char>, JsonV)>::empty());
    }
    push_member(&mut fields, "room_id", uid_to_json(&v.room_id));
    push_member(&mut fields, "room_code", Json::Str(v.room_code.clone()));
    push_member(&mut fields, "player_id", uid_to_json(&v.player_id));
    push_member(&mut fields, "game_name", Json::Str(v.game_name.clone()));
    push_member(&mut fields, "max_players", Json::Int(v.max_players as i64));
    push_member(&mut fields, "supports_authority", Json::Bool(v.supports_authority));
    push_member(&mut fields, "current_players", pis_to_json(&v.current_players));
    push_member(&mut fields, "is_authority", Json::Bool(v.is_authority));
    push_member(&mut fields, "lobby_state", Json::Str(String::from_str(v.lobby_state.wire_text())));
    push_member(&mut fields, "ready_players", uids_to_json(&v.ready_players));
    push_member(&mut fields, "relay_type", Json::Str(v.relay_type.clone()));
    push_member(&mut fields, "current_spectators", sis_to_json(&v.current_spectators));
    push_member(&mut fields, "missed_events", sms_to_json(&v.missed_events));
    proof {
        assert(dv_fields(fields@) =~= rc_members(*v));
    }
    Json::Obj(fields)
}

/// Reads a `ReconnectedPayload` from a tree, exactly when `rc_decodable`,
/// the members as `rc_matches` pins them.
pub fn rc_from_json(j: &Json) -> (r: Option<ReconnectedPayload>)
    ensures
        match r {
            Some(v) => rc_matches(j@, v) && sms_wf(v.missed_events@),
            None => !rc_decodable(j@),
        },
        r is Some <==> rc_decodable(j@),
    decreases j,
{
    let fields = match j {
        Json::Obj(fields) => fields,
        _ => {
            return None;
        }
    };
    let f_room_id = match get_str(fields, "room_id") { Some(s) => match uid_from_text(s.as_str()) { Some(u) => u, None => { return None; } }, None => { return None; } };
    let f_room_code = match get_str(fields, "room_code") { Some(s) => s, None => { return None; } };
    let f_player_id = match get_str(fields, "player_id") { Some(s) => match uid_from_text(s.as_str()) { Some(u) => u, None => { return None; } }, None => { return None; } };
    let f_game_name = match get_str(fields, "game_name") { Some(s) => s, None => { return None; } };
    let f_max_players_i = match get_int(fields, "max_players") { Some(n) => n, None => { return None; } };
    if !(0 <= f_max_players_i && f_max_players_i <= 255) {
        return None;
    }
    let f_max_players = f_max_players_i as u8;
    let f_supports_authority = match get_bool(fields, "supports_authority") { Some(b) => b, None => { return None; } };
    let f_current_players = match get_field(fields, "current_players") { Some(aj) => match pis_from_json(aj) { Some(x) => x, None => { return None; } }, None => { return None; } };
    let f_is_authority = match get_bool(fields, "is_authority") { Some(b) => b, None => { return None; } };
    let f_lobby_state = match get_str(fields, "lobby_state") { Some(s) => match LobbyState::from_text(s.as_str()) { Some(e) => e, None => { return None; } }, None => { return None; } };
    let f_ready_players = match get_field(fields, "ready_players") { Some(aj) => match uids_from_json(aj) { Some(x) => x, None => { return None; } }, None => { return None; } };
    let f_relay_type = match get_str(fields, "relay_type") { Some(s) => s, None => { return None; } };
    let f_current_spectators = match get_field(fields, "current_spectators") {
        Some(aj) => match aj {
            Json::Null => Vec::new(),
            _ => match sis_from_json(aj) { Some(x) => x, None => { return None; } },
        },
        None => Vec::new(),
    };
    let mi = match find_member(fields, "missed_events") {
        Some(i) => i,
        None => {
            return None;
        }
    };
    let f_missed_events = match sms_from_json(&fields[mi].1) {
        Some(x) => x,
        None => {
            return None;
        }
    };
    Some(ReconnectedPayload {
        room_id: f_room_id,
        room_code: f_room_code,
        player_id: f_player_id,
        game_name: f_game_name,
        max_players: f_max_players,
        supports_authority: f_supports_authority,
        current_players: f_current_players,
        is_authority: f_is_authority,
        lobby_state: f_lobby_state,
        ready_players: f_ready_players,
        relay_type: f_relay_type,
        current_spectators: f_current_spectators,
        missed_events: f_missed_events,
    })
}

impl ServerMessage {
    /// Writes this message as its tree, exactly as `sm_jv` gives it.
    pub fn to_json(&self) -> (j: Json)
        requires
            sm_wf(*self),
        ensures
            j@ == sm_jv(*self),
        decreases self,
    {
        match self {
            ServerMessage::Authenticated { app_name, organization, rate_limits } => env2("Authenticated", sm_authed_build(app_name, organization, rate_limits)),
            ServerMessage::ProtocolInfo(p) => env2("ProtocolInfo", proto_to_json(p)),
            ServerMessage::AuthenticationError { error, error_code } => env2("AuthenticationError", sm_autherr_build(error, error_code)),
            ServerMessage::RoomJoined(p) => env2("RoomJoined", rj_to_json(&**p)),
            ServerMessage::RoomJoinFailed { reason, error_code } => env2("RoomJoinFailed", sm_joinfail_build(reason, error_code)),
            ServerMessage::RoomLeft => env1("RoomLeft"),
            ServerMessage::PlayerJoined { player } => env2("PlayerJoined", sm_pjoined_build(player)),
            ServerMessage::PlayerLeft { player_id } => env2("PlayerLeft", sm_pleft_build(player_id)),
            ServerMessage::GameData { from_player, data } => env2("GameData", sm_gdata_build(from_player, data)),
            ServerMessage::GameDataBinary { from_player, encoding, payload } => env2("GameDataBinary", sm_gbin_build(from_player, encoding, payload)),
            ServerMessage::AuthorityChanged { authority_player, you_are_authority } => env2("AuthorityChanged", sm_authch_build(authority_player, you_are_authority)),
            ServerMessage::AuthorityResponse { granted, reason, error_code } => env2("AuthorityResponse", sm_authresp_build(granted, reason, error_code)),
            ServerMessage::LobbyStateChanged { lobby_state, ready_players, all_ready } => env2("LobbyStateChanged", sm_lobby_build(lobby_state, ready_players, all_ready)),
            ServerMessage::GameStarting { peer_connections } => env2("GameStarting", sm_starting_build(peer_connections)),
            ServerMessage::Pong => env1("Pong"),
            ServerMessage::Reconnected(p) => env2("Reconnected", rc_to_json(&**p)),
            ServerMessage::ReconnectionFailed { reason, error_code } => env2("ReconnectionFailed", sm_reconfail_build(reason, error_code)),
            ServerMessage::PlayerReconnected { player_id } => env2("PlayerReconnected", sm_preconn_build(player_id)),
            ServerMessage::SpectatorJoined(p) => env2("SpectatorJoined", sj_to_json(&**p)),
            ServerMessage::SpectatorJoinFailed { reason, error_code } => env2("SpectatorJoinFailed", sm_sjoinfail_build(reason, error_code)),
            ServerMessage::SpectatorLeft { room_id, room_code, reason, current_spectators } => env2("SpectatorLeft", sm_sleft_build(room_id, room_code, reason, current_spectators)),
            ServerMessage::NewSpectatorJoined { spectator, current_spectators, reason } => env2("NewSpectatorJoined", sm_newspec_build(spectator, current_spectators, reason)),
            ServerMessage::SpectatorDisconnected { spectator_id, reason, current_spectators } => env2("SpectatorDisconnected", sm_sdisc_build(spectator_id, reason, current_spectators)),
            ServerMessage::Error { message, error_code } => env2("Error", sm_err_build(message, error_code)),
        }
    }

    /// Reads a message from a tree, exactly when `sm_decodable`, the members
    /// as `sm_matches` pins them.
    pub fn from_json(j: &Json) -> (r: Option<ServerMessage>)
        ensures
            match r {
                Some(m) => sm_matches(j@, m) && sm_wf(m),
                None => !sm_decodable(j@),
            },
            r is Some <==> sm_decodable(j@),
        decreases j,
    {
        let fields = match j {
            Json::Obj(fields) => fields,
            _ => {
                return None;
            }
        };
        let tag = match get_str(fields, "type") {
            Some(t) => t,
            None => {
                return None;
            }
        };
        if str_eq(tag.as_str(), "Authenticated") {
            let d = match get_field(fields, "data") {
                Some(d) => d,
                None => {
                    return None;
                }
            };
            let df = match d {
                Json::Obj(df) => df,
                _ => {
                    proof {
                        lemma_dv_variant(*d);
                    }
                    return None;
                }
            };
            match sm_authed_read(df) {
                Some(t) => {
                    Some(ServerMessage::Authenticated { app_name: t.0, organization: t.1, rate_limits: t.2 })
                }
                None => {
                    return None;
                }
            }
        } else if str_eq(tag.as_str(), "ProtocolInfo") {
            let d = match get_field(fields, "data") {
                Some(d) => d,
                None => {
                    return None;
                }
            };
            match proto_from_json(d) {
                Some(p) => Some(ServerMessage::ProtocolInfo(p)),
                None => {
                    return None;
                }
            }
        } else if str_eq(tag.as_str(), "AuthenticationError") {
            let d = match get_field(fields, "data") {
                Some(d) => d,
                None => {
                    return None;
                }
            };
            let df = match d {
                Json::Obj(df) => df,
                _ => {
                    proof {
                        lemma_dv_variant(*d);
                    }
                    return None;
                }
            };
            match sm_autherr_read(df) {
                Some(t) => {
                    Some(ServerMessage::AuthenticationError { error: t.0, error_code: t.1 })
                }
                None => {
                    return None;
                }
            }
        } else if str_eq(tag.as_str(), "RoomJoined") {
            let d = match get_field(fields, "data") {
                Some(d) => d,
                None => {
                    return None;
                }
            };
            match rj_from_json(d) {
                Some(p) => Some(ServerMessage::RoomJoined(Box::new(p))),
                None => {
                    return None;
                }
            }
        } else if str_eq(tag.as_str(), "RoomJoinFailed") {
            let d = match get_field(fields, "data") {
                Some(d) => d,
                None => {
                    return None;
                }
            };
            let df = match d {
                Json::Obj(df) => df,
                _ => {
                    proof {
                        lemma_dv_variant(*d);
                    }
                    return None;
                }
            };
            match sm_joinfail_read(df) {
                Some(t) => {
                    Some(ServerMessage::RoomJoinFailed { reason: t.0, error_code: t.1 })
                }
                None => {
                    return None;
                }
            }
        } else if str_eq(tag.as_str(), "RoomLeft") {
            Some(ServerMessage::RoomLeft)
        } else if str_eq(tag.as_str(), "PlayerJoined") {
            let d = match get_field(fields, "data") {
                Some(d) => d,
                None => {
                    return None;
                }
            };
            let df = match d {
                Json::Obj(df) => df,
                _ => {
                    proof {
                        lemma_dv_variant(*d);
                    }
                    return None;
                }
            };
            match sm_pjoined_read(df) {
                Some(t) => {
                    Some(ServerMessage::PlayerJoined { player: t.0 })
                }
                None => {
                    return None;
                }
            }
        } else if str_eq(tag.as_str(), "PlayerLeft") {
            let d = match get_field(fields, "data") {
                Some(d) => d,
                None => {
                    return None;
                }
            };
            let df = match d {
                Json::Obj(df) => df,
                _ => {
                    proof {
                        lemma_dv_variant(*d);
                    }
                    return None;
                }
            };
            match sm_pleft_read(df) {
                Some(t) => {
                    Some(ServerMessage::PlayerLeft { player_id: t.0 })
                }
                None => {
                    return None;
                }
            }
        } else if str_eq(tag.as_str(), "GameData") {
            let d = match get_field(fields, "data") {
                Some(d) => d,
                None => {
                    return None;
                }
            };
            let df = match d {
                Json::Obj(df) => df,
                _ => {
                    proof {
                        lemma_dv_variant(*d);
                    }
                    return None;
                }
            };
            match sm_gdata_read(df) {
                Some(t) => {
                    Some(ServerMessage::GameData { from_player: t.0, data: t.1 })
                }
                None => {
                    return None;
                }
            }
        } else if str_eq(tag.as_str(), "GameDataBinary") {
            let d = match get_field(fields, "data") {
                Some(d) => d,
                None => {
                    return None;
                }
            };
            let df = match d {
                Json::Obj(df) => df,
                _ => {
                    proof {
                        lemma_dv_variant(*d);
                    }
                    return None;
                }
            };
            match sm_gbin_read(df) {
                Some(t) => {
                    Some(ServerMessage::GameDataBinary { from_player: t.0, encoding: t.1, payload: t.2 })
                }
                None => {
                    return None;
                }
            }
        } else if str_eq(tag.as_str(), "AuthorityChanged") {
            let d = match get_field(fields, "data") {
                Some(d) => d,
                None => {
                    return None;
                }
            };
            let df = match d {
                Json::Obj(df) => df,
                _ => {
                    proof {
                        lemma_dv_variant(*d);
                    }
                    return None;
                }
            };
            match sm_authch_read(df) {
                Some(t) => {
                    Some(ServerMessage::AuthorityChanged { authority_player: t.0, you_are_authority: t.1 })
                }
                None => {
                    return None;
                }
            }
        } else if str_eq(tag.as_str(), "AuthorityResponse") {
            let d = match get_field(fields, "data") {
                Some(d) => d,
                None => {
                    return None;
                }
            };
            let df = match d {
                Json::Obj(df) => df,
                _ => {
                    proof {
                        lemma_dv_variant(*d);
                    }
                    return None;
                }
            };
            match sm_authresp_read(df) {
                Some(t) => {
                    Some(ServerMessage::AuthorityResponse { granted: t.0, reason: t.1, error_code: t.2 })
                }
                None => {
                    return None;
                }
            }
        } else if str_eq(tag.as_str(), "LobbyStateChanged") {
            let d = match get_field(fields, "data") {
                Some(d) => d,
                None => {
                    return None;
                }
            };
            let df = match d {
                Json::Obj(df) => df,
                _ => {
                    proof {
                        lemma_dv_variant(*d);
                    }
                    return None;
                }
            };
            match sm_lobby_read(df) {
                Some(t) => {
                    Some(ServerMessage::LobbyStateChanged { lobby_state: t.0, ready_players: t.1, all_ready: t.2 })
                }
                None => {
                    return None;
                }
            }
        } else if str_eq(tag.as_str(), "GameStarting") {
            let d = match get_field(fields, "data") {
                Some(d) => d,
                None => {
                    return None;
                }
            };
            let df = match d {
                Json::Obj(df) => df,
                _ => {
                    proof {
                        lemma_dv_variant(*d);
                    }
                    return None;
                }
            };
            match sm_starting_read(df) {
                Some(t) => {
                    Some(ServerMessage::GameStarting { peer_connections: t.0 })
                }
                None => {
                    return None;
                }
            }
        } else if str_eq(tag.as_str(), "Pong") {
            Some(ServerMessage::Pong)
        } else if str_eq(tag.as_str(), "Reconnected") {
            let di = match find_member(fields, "data") {
                Some(i) => i,
                None => {
                    return None;
                }
            };
            match rc_from_json(&fields[di].1) {
                Some(p) => Some(ServerMessage::Reconnected(Box::new(p))),
                None => {
                    return None;
                }
            }
        } else if str_eq(tag.as_str(), "ReconnectionFailed") {
            let d = match get_field(fields, "data") {
                Some(d) => d,
                None => {
                    return None;
                }
            };
            let df = match d {
                Json::Obj(df) => df,
                _ => {
                    proof {
                        lemma_dv_variant(*d);
                    }
                    return None;
                }
            };
            match sm_reconfail_read(df) {
                Some(t) => {
                    Some(ServerMessage::ReconnectionFailed { reason: t.0, error_code: t.1 })
                }
                None => {
                    return None;
                }
            }
        } else if str_eq(tag.as_str(), "PlayerReconnected") {
            let d = match get_field(fields, "data") {
                Some(d) => d,
                None => {
                    return None;
                }
            };
            let df = match d {
                Json::Obj(df) => df,
                _ => {
                    proof {
                        lemma_dv_variant(*d);
                    }
                    return None;
                }
            };
            match sm_preconn_read(df) {
                Some(t) => {
                    Some(ServerMessage::PlayerReconnected { player_id: t.0 })
                }
                None => {
                    return None;
                }
            }
        } else if str_eq(tag.as_str(), "SpectatorJoined") {
            let d = match get_field(fields, "data") {
                Some(d) => d,
                None => {
                    return None;
                }
            };
            match sj_from_json(d) {
                Some(p) => Some(ServerMessage::SpectatorJoined(Box::new(p))),
                None => {
                    return None;
                }
            }
        } else if str_eq(tag.as_str(), "SpectatorJoinFailed") {
            let d = match get_field(fields, "data") {
                Some(d) => d,
                None => {
                    return None;
                }
            };
            let df = match d {
                Json::Obj(df) => df,
                _ => {
                    proof {
                        lemma_dv_variant(*d);
                    }
                    return None;
                }
            };
            match sm_sjoinfail_read(df) {
                Some(t) => {
                    Some(ServerMessage::SpectatorJoinFailed { reason: t.0, error_code: t.1 })
                }
                None => {
                    return None;
                }
            }
        } else if str_eq(tag.as_str(), "SpectatorLeft") {
            let d = match get_field(fields, "data") {
                Some(d) => d,
                None => {
                    return None;
                }
            };
            let df = match d {
                Json::Obj(df) => df,
                _ => {
                    proof {
                        lemma_dv_variant(*d);
                    }
                    return None;
                }
            };
            match sm_sleft_read(df) {
                Some(t) => {
                    Some(ServerMessage::SpectatorLeft { room_id: t.0, room_code: t.1, reason: t.2, current_spectators: t.3 })
                }
                None => {
                    return None;
                }
            }
        } else if str_eq(tag.as_str(), "NewSpectatorJoined") {
            let d = match get_field(fields, "data") {
                Some(d) => d,
                None => {
                    return None;
                }
            };
            let df = match d {
                Json::Obj(df) => df,
                _ => {
                    proof {
                        lemma_dv_variant(*d);
                    }
                    return None;
                }
            };
            match sm_newspec_read(df) {
                Some(t) => {
                    Some(ServerMessage::NewSpectatorJoined { spectator: t.0, current_spectators: t.1, reason: t.2 })
                }
                None => {
                    return None;
                }
            }
        } else if str_eq(tag.as_str(), "SpectatorDisconnected") {
            let d = match get_field(fields, "data") {
                Some(d) => d,
                None => {
                    return None;
                }
            };
            let df = match d {
                Json::Obj(df) => df,
                _ => {
                    proof {
                        lemma_dv_variant(*d);
                    }
                    return None;
                }
            };
            match sm_sdisc_read(df) {
                Some(t) => {
                    Some(ServerMessage::SpectatorDisconnected { spectator_id: t.0, reason: t.1, current_spectators: t.2 })
                }
                None => {
                    return None;
                }
            }
        } else if str_eq(tag.as_str(), "Error") {
            let d = match get_field(fields, "data") {
                Some(d) => d,
                None => {
                    return None;
                }
            };
            let df = match d {
                Json::Obj(df) => df,
                _ => {
                    proof {
                        lemma_dv_variant(*d);
                    }
                    return None;
                }
            };
            match sm_err_read(df) {
                Some(t) => {
                    Some(ServerMessage::Error { message: t.0, error_code: t.1 })
                }
                None => {
                    return None;
                }
            }
        } else {
            None
        }
    }
}


/// Round trip for arrays of server messages.
pub proof fn lemma_arr_sm_round_trip(v: Seq<ServerMessage>, v2: Seq<ServerMessage>)
    requires
        sms_wf(v),
    ensures
        arr_sm_decodable(JsonV::Arr(sms_jv(v))),
        arr_sm_matches(JsonV::Arr(sms_jv(v)), v2) ==> sms_jv(v2) == sms_jv(v),
    decreases v,
{
    lemma_sms_jv(v);
    let aa = JsonV::Arr(sms_jv(v))->Arr_0;
    assert(aa == sms_jv(v));
    assert forall|x: int| 0 <= x < aa.len() implies sm_decodable(#[trigger] aa[x]) by {
        assert(sm_wf(v[x]));
        lemma_sm_round_trip(v[x], v[x]);
    }
    if arr_sm_matches(JsonV::Arr(sms_jv(v)), v2) {
        lemma_sms_jv(v2);
        assert forall|x: int| 0 <= x < v.len() implies sms_jv(v2)[x] == sms_jv(v)[x] by {
            assert(sm_matches(aa[x], v2[x]));
            assert(sm_wf(v[x]));
            lemma_sm_round_trip(v[x], v2[x]);
        }
        assert(sms_jv(v2) =~= sms_jv(v));
    }
}

/// Round trip: the canonical tree of a `ReconnectedPayload` decodes, and any
/// value its members pin re-encodes to the same tree.
pub proof fn lemma_rc_round_trip(v: ReconnectedPayload, v2: ReconnectedPayload)
    requires
        sms_wf(v.missed_events@),
    ensures
        rc_decodable(rc_jv(v)),
        rc_matches(rc_jv(v), v2) ==> rc_members(v2) == rc_members(v),
    decreases v,
{
    reveal_strlit("current_players");
    reveal_strlit("current_spectators");
    reveal_strlit("game_name");
    reveal_strlit("is_authority");
    reveal_strlit("lobby_state");
    reveal_strlit("max_players");
    reveal_strlit("missed_events");
    reveal_strlit("player_id");
    reveal_strlit("ready_players");
    reveal_strlit("relay_type");
    reveal_strlit("room_code");
    reveal_strlit("room_id");
    reveal_strlit("supports_authority");
    assert("current_players"@.len() == 15);
    assert("current_spectators"@.len() == 18);
    assert("game_name"@.len() == 9);
    assert("is_authority"@.len() == 12);
    assert("lobby_state"@.len() == 11);
    assert("max_players"@.len() == 11);
    assert("missed_events"@.len() == 13);
    assert("player_id"@.len() == 9);
    assert("ready_players"@.len() == 13);
    assert("relay_type"@.len() == 10);
    assert("room_code"@.len() == 9);
    assert("room_id"@.len() == 7);
    assert("supports_authority"@.len() == 18);
    assert("current_spectators"@[0] == 'c');
    assert("game_name"@[0] == 'g');
    assert("lobby_state"@[0] == 'l');
    assert("max_players"@[0] == 'm');
    assert("missed_events"@[0] == 'm');
    assert("player_id"@[0] == 'p');
    assert("ready_players"@[0] == 'r');
    assert("room_code"@[0] == 'r');
    assert("supports_authority"@[0] == 's');
    let s0 = seq![("room_id"@, uid_jv(v.room_id))];
    let s1 = seq![("room_code"@, JsonV::Str(v.room_code@))];
    let s2 = seq![("player_id"@, uid_jv(v.player_id))];
    let s3 = seq![("game_name"@, JsonV::Str(v.game_name@))];
    let s4 = seq![("max_players"@, JsonV::Int(v.max_players as int))];
    let s5 = seq![("supports_authority"@, JsonV::Bool(v.supports_authority))];
    let s6 = seq![("current_players"@, JsonV::Arr(pis_jv(v.current_players@)))];
    let s7 = seq![("is_authority"@, JsonV::Bool(v.is_authority))];
    let s8 = seq![("lobby_state"@, JsonV::Str(ls_str(v.lobby_state)))];
    let s9 = seq![("ready_players"@, JsonV::Arr(uids_jv(v.ready_players@)))];
    let s10 = seq![("relay_type"@, JsonV::Str(v.relay_type@))];
    let s11 = seq![("current_spectators"@, JsonV::Arr(sis_jv(v.current_spectators@)))];
    let s12 = seq![("missed_events"@, JsonV::Arr(sms_jv(v.missed_events@)))];
    lemma_lookup_at(s0, 0);
    lemma_lookup_absent(s0, "room_code"@);
    lemma_lookup_absent(s0, "player_id"@);
    lemma_lookup_absent(s0, "game_name"@);
    lemma_lookup_absent(s0, "max_players"@);
    lemma_lookup_absent(s0, "supports_authority"@);
    lemma_lookup_absent(s0, "current_players"@);
    lemma_lookup_absent(s0, "is_authority"@);
    lemma_lookup_absent(s0, "lobby_state"@);
    lemma_lookup_absent(s0, "ready_players"@);
    lemma_lookup_absent(s0, "relay_type"@);
    lemma_lookup_absent(s0, "current_spectators"@);
    lemma_lookup_absent(s0, "missed_events"@);
    lemma_lookup_at(s1, 0);
    lemma_lookup_absent(s1, "room_id"@);
    lemma_lookup_absent(s1, "player_id"@);
    lemma_lookup_absent(s1, "game_name"@);
    lemma_lookup_absent(s1, "max_players"@);
    lemma_lookup_absent(s1, "supports_authority"@);
    lemma_lookup_absent(s1, "current_players"@);
    lemma_lookup_absent(s1, "is_authority"@);
    lemma_lookup_absent(s1, "lobby_state"@);
    lemma_lookup_absent(s1, "ready_players"@);
    lemma_lookup_absent(s1, "relay_type"@);
    lemma_lookup_absent(s1, "current_spectators"@);
    lemma_lookup_absent(s1, "missed_events"@);
    lemma_lookup_at(s2, 0);
    lemma_lookup_absent(s2, "room_id"@);
    lemma_lookup_absent(s2, "room_code"@);
    lemma_lookup_absent(s2, "game_name"@);
    lemma_lookup_absent(s2, "max_players"@);
    lemma_lookup_absent(s2, "supports_authority"@);
    lemma_lookup_absent(s2, "current_players"@);
    lemma_lookup_absent(s2, "is_authority"@);
    lemma_lookup_absent(s2, "lobby_state"@);
    lemma_lookup_absent(s2, "ready_players"@);
    lemma_lookup_absent(s2, "relay_type"@);
    lemma_lookup_absent(s2, "current_spectators"@);
    lemma_lookup_absent(s2, "missed_events"@);
    lemma_lookup_at(s3, 0);
    lemma_lookup_absent(s3, "room_id"@);
    lemma_lookup_absent(s3, "room_code"@);
    lemma_lookup_absent(s3, "player_id"@);
    lemma_lookup_absent(s3, "max_players"@);
    lemma_lookup_absent(s3, "supports_authority"@);
    lemma_lookup_absent(s3, "current_players"@);
    lemma_lookup_absent(s3, "is_authority"@);
    lemma_lookup_absent(s3, "lobby_state"@);
    lemma_lookup_absent(s3, "ready_players"@);
    lemma_lookup_absent(s3, "relay_type"@);
    lemma_lookup_absent(s3, "current_spectators"@);
    lemma_lookup_absent(s3, "missed_events"@);
    lemma_lookup_at(s4, 0);
    lemma_lookup_absent(s4, "room_id"@);
    lemma_lookup_absent(s4, "room_code"@);
    lemma_lookup_absent(s4, "player_id"@);
    lemma_lookup_absent(s4, "game_name"@);
    lemma_lookup_absent(s4, "supports_authority"@);
    lemma_lookup_absent(s4, "current_players"@);
    lemma_lookup_absent(s4, "is_authority"@);
    lemma_lookup_absent(s4, "lobby_state"@);
    lemma_lookup_absent(s4, "ready_players"@);
    lemma_lookup_absent(s4, "relay_type"@);
    lemma_lookup_absent(s4, "current_spectators"@);
    lemma_lookup_absent(s4, "missed_events"@);
    lemma_lookup_at(s5, 0);
    lemma_lookup_absent(s5, "room_id"@);
    lemma_lookup_absent(s5, "room_code"@);
    lemma_lookup_absent(s5, "player_id"@);
    lemma_lookup_absent(s5, "game_name"@);
    lemma_lookup_absent(s5, "max_players"@);
    lemma_lookup_absent(s5, "current_players"@);
    lemma_lookup_absent(s5, "is_authority"@);
    lemma_lookup_absent(s5, "lobby_state"@);
    lemma_lookup_absent(s5, "ready_players"@);
    lemma_lookup_absent(s5, "relay_type"@);
    lemma_lookup_absent(s5, "current_spectators"@);
    lemma_lookup_absent(s5, "missed_events"@);
    lemma_lookup_at(s6, 0);
    lemma_lookup_absent(s6, "room_id"@);
    lemma_lookup_absent(s6, "room_code"@);
    lemma_lookup_absent(s6, "player_id"@);
    lemma_lookup_absent(s6, "game_name"@);
    lemma_lookup_absent(s6, "max_players"@);
    lemma_lookup_absent(s6, "supports_authority"@);
    lemma_lookup_absent(s6, "is_authority"@);
    lemma_lookup_absent(s6, "lobby_state"@);
    lemma_lookup_absent(s6, "ready_players"@);
    lemma_lookup_absent(s6, "relay_type"@);
    lemma_lookup_absent(s6, "current_spectators"@);
    lemma_lookup_absent(s6, "missed_events"@);
    lemma_lookup_at(s7, 0);
    lemma_lookup_absent(s7, "room_id"@);
    lemma_lookup_absent(s7, "room_code"@);
    lemma_lookup_absent(s7, "player_id"@);
    lemma_lookup_absent(s7, "game_name"@);
    lemma_lookup_absent(s7, "max_players"@);
    lemma_lookup_absent(s7, "supports_authority"@);
    lemma_lookup_absent(s7, "current_players"@);
    lemma_lookup_absent(s7, "lobby_state"@);
    lemma_lookup_absent(s7, "ready_players"@);
    lemma_lookup_absent(s7, "relay_type"@);
    lemma_lookup_absent(s7, "current_spectators"@);
    lemma_lookup_absent(s7, "missed_events"@);
    lemma_lookup_at(s8, 0);
    lemma_lookup_absent(s8, "room_id"@);
    lemma_lookup_absent(s8, "room_code"@);
    lemma_lookup_absent(s8, "player_id"@);
    lemma_lookup_absent(s8, "game_name"@);
    lemma_lookup_absent(s8, "max_players"@);
    lemma_lookup_absent(s8, "supports_authority"@);
    lemma_lookup_absent(s8, "current_players"@);
    lemma_lookup_absent(s8, "is_authority"@);
    lemma_lookup_absent(s8, "ready_players"@);
    lemma_lookup_absent(s8, "relay_type"@);
    lemma_lookup_absent(s8, "current_spectators"@);
    lemma_lookup_absent(s8, "missed_events"@);
    lemma_lookup_at(s9, 0);
    lemma_lookup_absent(s9, "room_id"@);
    lemma_lookup_absent(s9, "room_code"@);
    lemma_lookup_absent(s9, "player_id"@);
    lemma_lookup_absent(s9, "game_name"@);
    lemma_lookup_absent(s9, "max_players"@);
    lemma_lookup_absent(s9, "supports_authority"@);
    lemma_lookup_absent(s9, "current_players"@);
    lemma_lookup_absent(s9, "is_authority"@);
    lemma_lookup_absent(s9, "lobby_state"@);
    lemma_lookup_absent(s9, "relay_type"@);
    lemma_lookup_absent(s9, "current_spectators"@);
    lemma_lookup_absent(s9, "missed_events"@);
    lemma_lookup_at(s10, 0);
    lemma_lookup_absent(s10, "room_id"@);
    lemma_lookup_absent(s10, "room_code"@);
    lemma_lookup_absent(s10, "player_id"@);
    lemma_lookup_absent(s10, "game_name"@);
    lemma_lookup_absent(s10, "max_players"@);
    lemma_lookup_absent(s10, "supports_authority"@);
    lemma_lookup_absent(s10, "current_players"@);
    lemma_lookup_absent(s10, "is_authority"@);
    lemma_lookup_absent(s10, "lobby_state"@);
    lemma_lookup_absent(s10, "ready_players"@);
    lemma_lookup_absent(s10, "current_spectators"@);
    lemma_lookup_absent(s10, "missed_events"@);
    lemma_lookup_at(s11, 0);
    lemma_lookup_absent(s11, "room_id"@);
    lemma_lookup_absent(s11, "room_code"@);
    lemma_lookup_absent(s11, "player_id"@);
    lemma_lookup_absent(s11, "game_name"@);
    lemma_lookup_absent(s11, "max_players"@);
    lemma_lookup_absent(s11, "supports_authority"@);
    lemma_lookup_absent(s11, "current_players"@);
    lemma_lookup_absent(s11, "is_authority"@);
    lemma_lookup_absent(s11, "lobby_state"@);
    lemma_lookup_absent(s11, "ready_players"@);
    lemma_lookup_absent(s11, "relay_type"@);
    lemma_lookup_absent(s11, "missed_events"@);
    lemma_lookup_at(s12, 0);
    lemma_lookup_absent(s12, "room_id"@);
    lemma_lookup_absent(s12, "room_code"@);
    lemma_lookup_absent(s12, "player_id"@);
    lemma_lookup_absent(s12, "game_name"@);
    lemma_lookup_absent(s12, "max_players"@);
    lemma_lookup_absent(s12, "supports_authority"@);
    lemma_lookup_absent(s12, "current_players"@);
    lemma_lookup_absent(s12, "is_authority"@);
    lemma_lookup_absent(s12, "lobby_state"@);
    lemma_lookup_absent(s12, "ready_players"@);
    lemma_lookup_absent(s12, "relay_type"@);
    lemma_lookup_absent(s12, "current_spectators"@);
    let p1 = s0 + s1;
    let p2 = p1 + s2;
    let p3 = p2 + s3;
    let p4 = p3 + s4;
    let p5 = p4 + s5;
    let p6 = p5 + s6;
    let p7 = p6 + s7;
    let p8 = p7 + s8;
    let p9 = p8 + s9;
    let p10 = p9 + s10;
    let p11 = p10 + s11;
    let p12 = p11 + s12;
    lemma_lookup_append(s0, s1, "room_id"@);
    lemma_lookup_append(p1, s2, "room_id"@);
    lemma_lookup_append(p2, s3, "room_id"@);
    lemma_lookup_append(p3, s4, "room_id"@);
    lemma_lookup_append(p4, s5, "room_id"@);
    lemma_lookup_append(p5, s6, "room_id"@);
    lemma_lookup_append(p6, s7, "room_id"@);
    lemma_lookup_append(p7, s8, "room_id"@);
    lemma_lookup_append(p8, s9, "room_id"@);
    lemma_lookup_append(p9, s10, "room_id"@);
    lemma_lookup_append(p10, s11, "room_id"@);
    lemma_lookup_append(p11, s12, "room_id"@);
    lemma_lookup_append(s0, s1, "room_code"@);
    lemma_lookup_append(p1, s2, "room_code"@);
    lemma_lookup_append(p2, s3, "room_code"@);
    lemma_lookup_append(p3, s4, "room_code"@);
    lemma_lookup_append(p4, s5, "room_code"@);
    lemma_lookup_append(p5, s6, "room_code"@);
    lemma_lookup_append(p6, s7, "room_code"@);
    lemma_lookup_append(p7, s8, "room_code"@);
    lemma_lookup_append(p8, s9, "room_code"@);
    lemma_lookup_append(p9, s10, "room_code"@);
    lemma_lookup_append(p10, s11, "room_code"@);
    lemma_lookup_append(p11, s12, "room_code"@);
    lemma_lookup_append(s0, s1, "player_id"@);
    lemma_lookup_append(p1, s2, "player_id"@);
    lemma_lookup_append(p2, s3, "player_id"@);
    lemma_lookup_append(p3, s4, "player_id"@);
    lemma_lookup_append(p4, s5, "player_id"@);
    lemma_lookup_append(p5, s6, "player_id"@);
    lemma_lookup_append(p6, s7, "player_id"@);
    lemma_lookup_append(p7, s8, "player_id"@);
    lemma_lookup_append(p8, s9, "player_id"@);
    lemma_lookup_append(p9, s10, "player_id"@);
    lemma_lookup_append(p10, s11, "player_id"@);
    lemma_lookup_append(p11, s12, "player_id"@);
    lemma_lookup_append(s0, s1, "game_name"@);
    lemma_lookup_append(p1, s2, "game_name"@);
    lemma_lookup_append(p2, s3, "game_name"@);
    lemma_lookup_append(p3, s4, "game_name"@);
    lemma_lookup_append(p4, s5, "game_name"@);
    lemma_lookup_append(p5, s6, "game_name"@);
    lemma_lookup_append(p6, s7, "game_name"@);
    lemma_lookup_append(p7, s8, "game_name"@);
    lemma_lookup_append(p8, s9, "game_name"@);
    lemma_lookup_append(p9, s10, "game_name"@);
    lemma_lookup_append(p10, s11, "game_name"@);
    lemma_lookup_append(p11, s12, "game_name"@);
    lemma_lookup_append(s0, s1, "max_players"@);
    lemma_lookup_append(p1, s2, "max_players"@);
    lemma_lookup_append(p2, s3, "max_players"@);
    lemma_lookup_append(p3, s4, "max_players"@);
    lemma_lookup_append(p4, s5, "max_players"@);
    lemma_lookup_append(p5, s6, "max_players"@);
    lemma_lookup_append(p6, s7, "max_players"@);
    lemma_lookup_append(p7, s8, "max_players"@);
    lemma_lookup_append(p8, s9, "max_players"@);
    lemma_lookup_append(p9, s10, "max_players"@);
    lemma_lookup_append(p10, s11, "max_players"@);
    lemma_lookup_append(p11, s12, "max_players"@);
    lemma_lookup_append(s0, s1, "supports_authority"@);
    lemma_lookup_append(p1, s2, "supports_authority"@);
    lemma_lookup_append(p2, s3, "supports_authority"@);
    lemma_lookup_append(p3, s4, "supports_authority"@);
    lemma_lookup_append(p4, s5, "supports_authority"@);
    lemma_lookup_append(p5, s6, "supports_authority"@);
    lemma_lookup_append(p6, s7, "supports_authority"@);
    lemma_lookup_append(p7, s8, "supports_authority"@);
    lemma_lookup_append(p8, s9, "supports_authority"@);
    lemma_lookup_append(p9, s10, "supports_authority"@);
    lemma_lookup_append(p10, s11, "supports_authority"@);
    lemma_lookup_append(p11, s12, "supports_authority"@);
    lemma_lookup_append(s0, s1, "current_players"@);
    lemma_lookup_append(p1, s2, "current_players"@);
    lemma_lookup_append(p2, s3, "current_players"@);
    lemma_lookup_append(p3, s4, "current_players"@);
    lemma_lookup_append(p4, s5, "current_players"@);
    lemma_lookup_append(p5, s6, "current_players"@);
    lemma_lookup_append(p6, s7, "current_players"@);
    lemma_lookup_append(p7, s8, "current_players"@);
    lemma_lookup_append(p8, s9, "current_players"@);
    lemma_lookup_append(p9, s10, "current_players"@);
    lemma_lookup_append(p10, s11, "current_players"@);
    lemma_lookup_append(p11, s12, "current_players"@);
    lemma_lookup_append(s0, s1, "is_authority"@);
    lemma_lookup_append(p1, s2, "is_authority"@);
    lemma_lookup_append(p2, s3, "is_authority"@);
    lemma_lookup_append(p3, s4, "is_authority"@);
    lemma_lookup_append(p4, s5, "is_authority"@);
    lemma_lookup_append(p5, s6, "is_authority"@);
    lemma_lookup_append(p6, s7, "is_authority"@);
    lemma_lookup_append(p7, s8, "is_authority"@);
    lemma_lookup_append(p8, s9, "is_authority"@);
    lemma_lookup_append(p9, s10, "is_authority"@);
    lemma_lookup_append(p10, s11, "is_authority"@);
    lemma_lookup_append(p11, s12, "is_authority"@);
    lemma_lookup_append(s0, s1, "lobby_state"@);
    lemma_lookup_append(p1, s2, "lobby_state"@);
    lemma_lookup_append(p2, s3, "lobby_state"@);
    lemma_lookup_append(p3, s4, "lobby_state"@);
    lemma_lookup_append(p4, s5, "lobby_state"@);
    lemma_lookup_append(p5, s6, "lobby_state"@);
    lemma_lookup_append(p6, s7, "lobby_state"@);
    lemma_lookup_append(p7, s8, "lobby_state"@);
    lemma_lookup_append(p8, s9, "lobby_state"@);
    lemma_lookup_append(p9, s10, "lobby_state"@);
    lemma_lookup_append(p10, s11, "lobby_state"@);
    lemma_lookup_append(p11, s12, "lobby_state"@);
    lemma_lookup_append(s0, s1, "ready_players"@);
    lemma_lookup_append(p1, s2, "ready_players"@);
    lemma_lookup_append(p2, s3, "ready_players"@);
    lemma_lookup_append(p3, s4, "ready_players"@);
    lemma_lookup_append(p4, s5, "ready_players"@);
    lemma_lookup_append(p5, s6, "ready_players"@);
    lemma_lookup_append(p6, s7, "ready_players"@);
    lemma_lookup_append(p7, s8, "ready_players"@);
    lemma_lookup_append(p8, s9, "ready_players"@);
    lemma_lookup_append(p9, s10, "ready_players"@);
    lemma_lookup_append(p10, s11, "ready_players"@);
    lemma_lookup_append(p11, s12, "ready_players"@);
    lemma_lookup_append(s0, s1, "relay_type"@);
    lemma_lookup_append(p1, s2, "relay_type"@);
    lemma_lookup_append(p2, s3, "relay_type"@);
    lemma_lookup_append(p3, s4, "relay_type"@);
    lemma_lookup_append(p4, s5, "relay_type"@);
    lemma_lookup_append(p5, s6, "relay_type"@);
    lemma_lookup_append(p6, s7, "relay_type"@);
    lemma_lookup_append(p7, s8, "relay_type"@);
    lemma_lookup_append(p8, s9, "relay_type"@);
    lemma_lookup_append(p9, s10, "relay_type"@);
    lemma_lookup_append(p10, s11, "relay_type"@);
    lemma_lookup_append(p11, s12, "relay_type"@);
    lemma_lookup_append(s0, s1, "current_spectators"@);
    lemma_lookup_append(p1, s2, "current_spectators"@);
    lemma_lookup_append(p2, s3, "current_spectators"@);
    lemma_lookup_append(p3, s4, "current_spectators"@);
    lemma_lookup_append(p4, s5, "current_spectators"@);
    lemma_lookup_append(p5, s6, "current_spectators"@);
    lemma_lookup_append(p6, s7, "current_spectators"@);
    lemma_lookup_append(p7, s8, "current_spectators"@);
    lemma_lookup_append(p8, s9, "current_spectators"@);
    lemma_lookup_append(p9, s10, "current_spectators"@);
    lemma_lookup_append(p10, s11, "current_spectators"@);
    lemma_lookup_append(p11, s12, "current_spectators"@);
    lemma_lookup_append(s0, s1, "missed_events"@);
    lemma_lookup_append(p1, s2, "missed_events"@);
    lemma_lookup_append(p2, s3, "missed_events"@);
    lemma_lookup_append(p3, s4, "missed_events"@);
    lemma_lookup_append(p4, s5, "missed_events"@);
    lemma_lookup_append(p5, s6, "missed_events"@);
    lemma_lookup_append(p6, s7, "missed_events"@);
    lemma_lookup_append(p7, s8, "missed_events"@);
    lemma_lookup_append(p8, s9, "missed_events"@);
    lemma_lookup_append(p9, s10, "missed_events"@);
    lemma_lookup_append(p10, s11, "missed_events"@);
    lemma_lookup_append(p11, s12, "missed_events"@);
    lemma_uid_text_round_trip(v.room_id.value as int);
    lemma_uid_text_round_trip(v.player_id.value as int);
    lemma_ls_round_trip(v.lobby_state);
    lemma_arr_pi_round_trip(v.current_players@, v.current_players@);
    lemma_arr_uid_round_trip(v.ready_players@, v.ready_players@);
    lemma_arr_si_round_trip(v.current_spectators@, v.current_spectators@);
    lemma_arr_sm_round_trip(v.missed_events@, v.missed_events@);
    assert(rc_decodable(rc_jv(v)));
    if rc_matches(rc_jv(v), v2) {
        lemma_arr_pi_round_trip(v.current_players@, v2.current_players@);
        lemma_arr_uid_round_trip(v.ready_players@, v2.ready_players@);
        lemma_arr_si_round_trip(v.current_spectators@, v2.current_spectators@);
        lemma_arr_sm_round_trip(v.missed_events@, v2.missed_events@);
        assert(rc_members(v2) =~~= rc_members(v));
    }
}

/// Round trip: the canonical tree of a `ServerMessage` decodes, and any
/// value its members pin re-encodes to the same tree.
#[verifier::rlimit(100)]
pub proof fn lemma_sm_round_trip(m: ServerMessage, m2: ServerMessage)
    requires
        sm_wf(m),
    ensures
        sm_decodable(sm_jv(m)),
        sm_matches(sm_jv(m), m2) ==> sm_jv(m2) == sm_jv(m),
    decreases m,
{
    reveal_strlit("Authenticated");
    reveal_strlit("AuthenticationError");
    reveal_strlit("AuthorityChanged");
    reveal_strlit("AuthorityResponse");
    reveal_strlit("Error");
    reveal_strlit("GameData");
    reveal_strlit("GameDataBinary");
    reveal_strlit("GameStarting");
    reveal_strlit("LobbyStateChanged");
    reveal_strlit("NewSpectatorJoined");
    reveal_strlit("PlayerJoined");
    reveal_strlit("PlayerLeft");
    reveal_strlit("PlayerReconnected");
    reveal_strlit("Pong");
    reveal_strlit("ProtocolInfo");
    reveal_strlit("Reconnected");
    reveal_strlit("ReconnectionFailed");
    reveal_strlit("RoomJoinFailed");
    reveal_strlit("RoomJoined");
    reveal_strlit("RoomLeft");
    reveal_strlit("SpectatorDisconnected");
    reveal_strlit("SpectatorJoinFailed");
    reveal_strlit("SpectatorJoined");
    reveal_strlit("SpectatorLeft");
    reveal_strlit("data");
    reveal_strlit("type");
    assert("Authenticated"@.len() == 13);
    assert("AuthenticationError"@.len() == 19);
    assert("AuthorityChanged"@.len() == 16);
    assert("AuthorityResponse"@.len() == 17);
    assert("Error"@.len() == 5);
    assert("GameData"@.len() == 8);
    assert("GameDataBinary"@.len() == 14);
    assert("GameStarting"@.len() == 12);
    assert("LobbyStateChanged"@.len() == 17);
    assert("NewSpectatorJoined"@.len() == 18);
    assert("PlayerJoined"@.len() == 12);
    assert("PlayerLeft"@.len() == 10);
    assert("PlayerReconnected"@.len() == 17);
    assert("Pong"@.len() == 4);
    assert("ProtocolInfo"@.len() == 12);
    assert("Reconnected"@.len() == 11);
    assert("ReconnectionFailed"@.len() == 18);
    assert("RoomJoinFailed"@.len() == 14);
    assert("RoomJoined"@.len() == 10);
    assert("RoomLeft"@.len() == 8);
    assert("SpectatorDisconnected"@.len() == 21);
    assert("SpectatorJoinFailed"@.len() == 19);
    assert("SpectatorJoined"@.len() == 15);
    assert("SpectatorLeft"@.len() == 13);
    assert("data"@.len() == 4);
    assert("type"@.len() == 4);
    assert("Authenticated"@[0] == 'A');
    assert("AuthenticationError"@[0] == 'A');
    assert("AuthorityResponse"@[0] == 'A');
    assert("GameData"@[0] == 'G');
    assert("GameDataBinary"@[0] == 'G');
    assert("GameStarting"@[0] == 'G');
    assert("LobbyStateChanged"@[0] == 'L');
    assert("NewSpectatorJoined"@[0] == 'N');
    assert("PlayerJoined"@[0] == 'P');
    assert("PlayerJoined"@[1] == 'l');
    assert("PlayerLeft"@[0] == 'P');
    assert("PlayerReconnected"@[0] == 'P');
    assert("Pong"@[0] == 'P');
    assert("ProtocolInfo"@[0] == 'P');
    assert("ProtocolInfo"@[1] == 'r');
    assert("ReconnectionFailed"@[0] == 'R');
    assert("RoomJoinFailed"@[0] == 'R');
    assert("RoomJoined"@[0] == 'R');
    assert("RoomLeft"@[0] == 'R');
    assert("SpectatorJoinFailed"@[0] == 'S');
    assert("SpectatorLeft"@[0] == 'S');
    assert("data"@[0] == 'd');
    assert("type"@[0] == 't');
    let o = sm_jv(m)->Obj_0;
    match m {
        ServerMessage::Authenticated { app_name, organization, rate_limits } => {
            lemma_lookup_at(o, 0);
            lemma_lookup_at(o, 1);
            lemma_sm_authed_round_trip(app_name, organization, rate_limits, app_name, organization, rate_limits);
            assert(sm_decodable(sm_jv(m)));
            if sm_matches(sm_jv(m), m2) {
                lemma_sm_authed_round_trip(app_name, organization, rate_limits, m2->Authenticated_app_name, m2->Authenticated_organization, m2->Authenticated_rate_limits);
                assert(sm_jv(m2) =~~= sm_jv(m));
            }
        }
        ServerMessage::ProtocolInfo(p) => {
            lemma_lookup_at(o, 0);
            lemma_lookup_at(o, 1);
            lemma_proto_round_trip(p, p);
            assert(sm_decodable(sm_jv(m)));
            if sm_matches(sm_jv(m), m2) {
                lemma_proto_round_trip(p, m2->ProtocolInfo_0);
                assert(sm_jv(m2) =~~= sm_jv(m));
            }
        }
        ServerMessage::AuthenticationError { error, error_code } => {
            lemma_lookup_at(o, 0);
            lemma_lookup_at(o, 1);
            lemma_sm_autherr_round_trip(error, error_code, error, error_code);
            assert(sm_decodable(sm_jv(m)));
            if sm_matches(sm_jv(m), m2) {
                lemma_sm_autherr_round_trip(error, error_code, m2->AuthenticationError_error, m2->AuthenticationError_error_code);
                assert(sm_jv(m2) =~~= sm_jv(m));
            }
        }
        ServerMessage::RoomJoined(p) => {
            lemma_lookup_at(o, 0);
            lemma_lookup_at(o, 1);
            lemma_rj_round_trip(*p, *p);
            assert(sm_decodable(sm_jv(m)));
            if sm_matches(sm_jv(m), m2) {
                lemma_rj_round_trip(*p, *m2->RoomJoined_0);
                assert(sm_jv(m2) =~~= sm_jv(m));
            }
        }
        ServerMessage::RoomJoinFailed { reason, error_code } => {
            lemma_lookup_at(o, 0);
            lemma_lookup_at(o, 1);
            lemma_sm_joinfail_round_trip(reason, error_code, reason, error_code);
            assert(sm_decodable(sm_jv(m)));
            if sm_matches(sm_jv(m), m2) {
                lemma_sm_joinfail_round_trip(reason, error_code, m2->RoomJoinFailed_reason, m2->RoomJoinFailed_error_code);
                assert(sm_jv(m2) =~~= sm_jv(m));
            }
        }
        ServerMessage::RoomLeft => {
            lemma_lookup_at(o, 0);
            assert(sm_decodable(sm_jv(m)));
            if sm_matches(sm_jv(m), m2) {
                assert(sm_jv(m2) =~~= sm_jv(m));
            }
        }
        ServerMessage::PlayerJoined { player } => {
            lemma_lookup_at(o, 0);
            lemma_lookup_at(o, 1);
            lemma_sm_pjoined_round_trip(player, player);
            assert(sm_decodable(sm_jv(m)));
            if sm_matches(sm_jv(m), m2) {
                lemma_sm_pjoined_round_trip(player, m2->PlayerJoined_player);
                assert(sm_jv(m2) =~~= sm_jv(m));
            }
        }
        ServerMessage::PlayerLeft { player_id } => {
            lemma_lookup_at(o, 0);
            lemma_lookup_at(o, 1);
            lemma_sm_pleft_round_trip(player_id, player_id);
            assert(sm_decodable(sm_jv(m)));
            if sm_matches(sm_jv(m), m2) {
                lemma_sm_pleft_round_trip(player_id, m2->PlayerLeft_player_id);
                assert(sm_jv(m2) =~~= sm_jv(m));
            }
        }
        ServerMessage::GameData { from_player, data } => {
            lemma_lookup_at(o, 0);
            lemma_lookup_at(o, 1);
            lemma_sm_gdata_round_trip(from_player, data, from_player, data);
            assert(sm_decodable(sm_jv(m)));
            if sm_matches(sm_jv(m), m2) {
                lemma_sm_gdata_round_trip(from_player, data, m2->GameData_from_player, m2->GameData_data);
                assert(sm_jv(m2) =~~= sm_jv(m));
            }
        }
        ServerMessage::GameDataBinary { from_player, encoding, payload } => {
            lemma_lookup_at(o, 0);
            lemma_lookup_at(o, 1);
            lemma_sm_gbin_round_trip(from_player, encoding, payload, from_player, encoding, payload);
            assert(sm_decodable(sm_jv(m)));
            if sm_matches(sm_jv(m), m2) {
                lemma_sm_gbin_round_trip(from_player, encoding, payload, m2->GameDataBinary_from_player, m2->GameDataBinary_encoding, m2->GameDataBinary_payload);
                assert(sm_jv(m2) =~~= sm_jv(m));
            }
        }
        ServerMessage::AuthorityChanged { authority_player, you_are_authority } => {
            lemma_lookup_at(o, 0);
            lemma_lookup_at(o, 1);
            lemma_sm_authch_round_trip(authority_player, you_are_authority, authority_player, you_are_authority);
            assert(sm_decodable(sm_jv(m)));
            if sm_matches(sm_jv(m), m2) {
                lemma_sm_authch_round_trip(authority_player, you_are_authority, m2->AuthorityChanged_authority_player, m2->AuthorityChanged_you_are_authority);
                assert(sm_jv(m2) =~~= sm_jv(m));
            }
        }
        ServerMessage::AuthorityResponse { granted, reason, error_code } => {
            lemma_lookup_at(o, 0);
            lemma_lookup_at(o, 1);
            lemma_sm_authresp_round_trip(granted, reason, error_code, granted, reason, error_code);
            assert(sm_decodable(sm_jv(m)));
            if sm_matches(sm_jv(m), m2) {
                lemma_sm_authresp_round_trip(granted, reason, error_code, m2->AuthorityResponse_granted, m2->AuthorityResponse_reason, m2->AuthorityResponse_error_code);
                assert(sm_jv(m2) =~~= sm_jv(m));
            }
        }
        ServerMessage::LobbyStateChanged { lobby_state, ready_players, all_ready } => {
            lemma_lookup_at(o, 0);
            lemma_lookup_at(o, 1);
            lemma_sm_lobby_round_trip(lobby_state, ready_players, all_ready, lobby_state, ready_players, all_ready);
            assert(sm_decodable(sm_jv(m)));
            if sm_matches(sm_jv(m), m2) {
                lemma_sm_lobby_round_trip(lobby_state, ready_players, all_ready, m2->LobbyStateChanged_lobby_state, m2->LobbyStateChanged_ready_players, m2->LobbyStateChanged_all_ready);
                assert(sm_jv(m2) =~~= sm_jv(m));
            }
        }
        ServerMessage::GameStarting { peer_connections } => {
            lemma_lookup_at(o, 0);
            lemma_lookup_at(o, 1);
            lemma_sm_starting_round_trip(peer_connections, peer_connections);
            assert(sm_decodable(sm_jv(m)));
            if sm_matches(sm_jv(m), m2) {
                lemma_sm_starting_round_trip(peer_connections, m2->GameStarting_peer_connections);
                assert(sm_jv(m2) =~~= sm_jv(m));
            }
        }
        ServerMessage::Pong => {
            lemma_lookup_at(o, 0);
            assert(sm_decodable(sm_jv(m)));
            if sm_matches(sm_jv(m), m2) {
                assert(sm_jv(m2) =~~= sm_jv(m));
            }
        }
        ServerMessage::Reconnected(p) => {
            lemma_lookup_at(o, 0);
            lemma_lookup_at(o, 1);
            lemma_rc_round_trip(*p, *p);
            assert(sm_decodable(sm_jv(m)));
            if sm_matches(sm_jv(m), m2) {
                lemma_rc_round_trip(*p, *m2->Reconnected_0);
                assert(sm_jv(m2) =~~= sm_jv(m));
            }
        }
        ServerMessage::ReconnectionFailed { reason, error_code } => {
            lemma_lookup_at(o, 0);
            lemma_lookup_at(o, 1);
            lemma_sm_reconfail_round_trip(reason, error_code, reason, error_code);
            assert(sm_decodable(sm_jv(m)));
            if sm_matches(sm_jv(m), m2) {
                lemma_sm_reconfail_round_trip(reason, error_code, m2->ReconnectionFailed_reason, m2->ReconnectionFailed_error_code);
                assert(sm_jv(m2) =~~= sm_jv(m));
            }
        }
        ServerMessage::PlayerReconnected { player_id } => {
            lemma_lookup_at(o, 0);
            lemma_lookup_at(o, 1);
            lemma_sm_preconn_round_trip(player_id, player_id);
            assert(sm_decodable(sm_jv(m)));
            if sm_matches(sm_jv(m), m2) {
                lemma_sm_preconn_round_trip(player_id, m2->PlayerReconnected_player_id);
                assert(sm_jv(m2) =~~= sm_jv(m));
            }
        }
        ServerMessage::SpectatorJoined(p) => {
            lemma_lookup_at(o, 0);
            lemma_lookup_at(o, 1);
            lemma_sj_round_trip(*p, *p);
            assert(sm_decodable(sm_jv(m)));
            if sm_matches(sm_jv(m), m2) {
                lemma_sj_round_trip(*p, *m2->SpectatorJoined_0);
                assert(sm_jv(m2) =~~= sm_jv(m));
            }
        }
        ServerMessage::SpectatorJoinFailed { reason, error_code } => {
            lemma_lookup_at(o, 0);
            lemma_lookup_at(o, 1);
            lemma_sm_sjoinfail_round_trip(reason, error_code, reason, error_code);
            assert(sm_decodable(sm_jv(m)));
            if sm_matches(sm_jv(m), m2) {
                lemma_sm_sjoinfail_round_trip(reason, error_code, m2->SpectatorJoinFailed_reason, m2->SpectatorJoinFailed_error_code);
                assert(sm_jv(m2) =~~= sm_jv(m));
            }
        }
        ServerMessage::SpectatorLeft { room_id, room_code, reason, current_spectators } => {
            lemma_lookup_at(o, 0);
            lemma_lookup_at(o, 1);
            lemma_sm_sleft_round_trip(room_id, room_code, reason, current_spectators, room_id, room_code, reason, current_spectators);
            assert(sm_decodable(sm_jv(m)));
            if sm_matches(sm_jv(m), m2) {
                lemma_sm_sleft_round_trip(room_id, room_code, reason, current_spectators, m2->SpectatorLeft_room_id, m2->SpectatorLeft_room_code, m2->SpectatorLeft_reason, m2->SpectatorLeft_current_spectators);
                assert(sm_jv(m2) =~~= sm_jv(m));
            }
        }
        ServerMessage::NewSpectatorJoined { spectator, current_spectators, reason } => {
            lemma_lookup_at(o, 0);
            lemma_lookup_at(o, 1);
            lemma_sm_newspec_round_trip(spectator, current_spectators, reason, spectator, current_spectators, reason);
            assert(sm_decodable(sm_jv(m)));
            if sm_matches(sm_jv(m), m2) {
                lemma_sm_newspec_round_trip(spectator, current_spectators, reason, m2->NewSpectatorJoined_spectator, m2->NewSpectatorJoined_current_spectators, m2->NewSpectatorJoined_reason);
                assert(sm_jv(m2) =~~= sm_jv(m));
            }
        }
        ServerMessage::SpectatorDisconnected { spectator_id, reason, current_spectators } => {
            lemma_lookup_at(o, 0);
            lemma_lookup_at(o, 1);
            lemma_sm_sdisc_round_trip(spectator_id, reason, current_spectators, spectator_id, reason, current_spectators);
            assert(sm_decodable(sm_jv(m)));
            if sm_matches(sm_jv(m), m2) {
                lemma_sm_sdisc_round_trip(spectator_id, reason, current_spectators, m2->SpectatorDisconnected_spectator_id, m2->SpectatorDisconnected_reason, m2->SpectatorDisconnected_current_spectators);
                assert(sm_jv(m2) =~~= sm_jv(m));
            }
        }
        ServerMessage::Error { message, error_code } => {
            lemma_lookup_at(o, 0);
            lemma_lookup_at(o, 1);
            lemma_sm_err_round_trip(message, error_code, message, error_code);
            assert(sm_decodable(sm_jv(m)));
            if sm_matches(sm_jv(m), m2) {
                lemma_sm_err_round_trip(message, error_code, m2->Error_message, m2->Error_error_code);
                assert(sm_jv(m2) =~~= sm_jv(m));
            }
        }
    }
}


// ── Text frames ─────────────────────────────────────────────────────

impl ClientMessage {
    /// The text frame of this message, exactly the canonical serialization
    /// of its tree.
    pub fn to_text(&self) -> (s: String)
        ensures
            s@ == crate::json::ser(cm_jv(*self)),
    {
        let j = self.to_json();
        crate::json::to_text(&j)
    }

    /// Reads a message from a text frame.  Succeeds exactly when the text
    /// parses as a document whose tree decodes; the members of the result
    /// are pinned by `cm_matches`.
    pub fn from_text(s: &str) -> (r: Result<ClientMessage, SignalFishError>)
        ensures
            match r {
                Ok(m) => crate::json::parse_doc(s@) matches Some(j) && cm_decodable(j)
                    && cm_matches(j, m),
                Err(e) => e is Serialization && !(crate::json::parse_doc(s@) matches Some(j)
                    && cm_decodable(j)),
            },
    {
        match crate::json::parse_text(s) {
            Some(j) => match ClientMessage::from_json(&j) {
                Some(m) => Ok(m),
                None => Err(
                    SignalFishError::Serialization(
                        String::from_str("unknown or malformed client message"),
                    ),
                ),
            },
            None => Err(SignalFishError::Serialization(String::from_str("invalid JSON text"))),
        }
    }
}

impl ServerMessage {
    /// The text frame of this message, exactly the canonical serialization
    /// of its tree.
    pub fn to_text(&self) -> (s: String)
        requires
            sm_wf(*self),
        ensures
            s@ == crate::json::ser(sm_jv(*self)),
    {
        let j = self.to_json();
        crate::json::to_text(&j)
    }

    /// Reads a message from a text frame.  Succeeds exactly when the text
    /// parses as a document whose tree decodes; the members of the result
    /// are pinned by `sm_matches`.
    pub fn from_text(s: &str) -> (r: Result<ServerMessage, SignalFishError>)
        ensures
            match r {
                Ok(m) => crate::json::parse_doc(s@) matches Some(j) && sm_decodable(j)
                    && sm_matches(j, m) && sm_wf(m),
                Err(e) => e is Serialization && !(crate::json::parse_doc(s@) matches Some(j)
                    && sm_decodable(j)),
            },
    {
        match crate::json::parse_text(s) {
            Some(j) => match ServerMessage::from_json(&j) {
                Some(m) => Ok(m),
                None => Err(
                    SignalFishError::Serialization(
                        String::from_str("unknown or malformed server message"),
                    ),
                ),
            },
            None => Err(SignalFishError::Serialization(String::from_str("invalid JSON text"))),
        }
    }
}

/// Whether a client message carries no content.
pub open spec fn cm_is_unit(m: ClientMessage) -> bool {
    m is LeaveRoom || m is PlayerReady || m is Ping || m is LeaveSpectator
}

/// Whether a server message carries no content.
pub open spec fn sm_is_unit(m: ServerMessage) -> bool {
    m is RoomLeft || m is Pong
}

/// Tag shape: every message is an object whose first member is `type`;
/// unit variants carry exactly that one member, content variants exactly
/// one more, named `data`.
pub proof fn lemma_client_message_tag_shape(m: ClientMessage)
    ensures
        cm_jv(m) is Obj,
        cm_jv(m)->Obj_0[0].0 == "type"@,
        cm_is_unit(m) ==> cm_jv(m)->Obj_0.len() == 1,
        !cm_is_unit(m) ==> cm_jv(m)->Obj_0.len() == 2 && cm_jv(m)->Obj_0[1].0 == "data"@,
{
}

/// Tag shape for server messages, as `lemma_client_message_tag_shape`.
pub proof fn lemma_server_message_tag_shape(m: ServerMessage)
    ensures
        sm_jv(m) is Obj,
        sm_jv(m)->Obj_0[0].0 == "type"@,
        sm_is_unit(m) ==> sm_jv(m)->Obj_0.len() == 1,
        !sm_is_unit(m) ==> sm_jv(m)->Obj_0.len() == 2 && sm_jv(m)->Obj_0[1].0 == "data"@,
{
}

/// Round trip: the text frame of any client message parses back to the
/// message's exact tree, that tree decodes, and every value the members pin
/// re-encodes to the same tree.
pub proof fn lemma_client_message_round_trip(m: ClientMessage, m2: ClientMessage)
    requires
        crate::json::wf(cm_jv(m)),
    ensures
        crate::json::parse_doc(crate::json::ser(cm_jv(m))) == Some(cm_jv(m)),
        cm_decodable(cm_jv(m)),
        cm_matches(cm_jv(m), m2) ==> cm_jv(m2) == cm_jv(m),
{
    crate::json::lemma_parse_doc_ser(cm_jv(m));
    lemma_cm_round_trip(m, m2);
}

/// Round trip for server messages, as `lemma_client_message_round_trip`.
pub proof fn lemma_server_message_round_trip(m: ServerMessage, m2: ServerMessage)
    requires
        sm_wf(m),
        crate::json::wf(sm_jv(m)),
    ensures
        crate::json::parse_doc(crate::json::ser(sm_jv(m))) == Some(sm_jv(m)),
        sm_decodable(sm_jv(m)),
        sm_matches(sm_jv(m), m2) ==> sm_jv(m2) == sm_jv(m),
{
    crate::json::lemma_parse_doc_ser(sm_jv(m));
    lemma_sm_round_trip(m, m2);
}

} // verus!
