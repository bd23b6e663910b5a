//! What the gateway reads from the local Strom's flow API.

use crate::json::{
    by_value, json_view, lemma_list_view, lemma_object_keys, list_view, member, object_view,
    opt_view, text_of, uint_of, Json, JsonView, Number,
};
use crate::openlive::{answer_of, read_status, Answer};
use crate::text::{
    comes_before, lemma_precedes_irreflexive, lemma_precedes_transitive, opt_text, precedes,
    same_text,
};
use vstd::prelude::*;

verus! {

/// What the gateway acts on of a flow.
#[derive(Debug)]
pub struct FlowState {
    pub id: String,
    pub name: String,
    /// True when the pipeline is actually running. Strom documents this as the field
    /// callers should use, rather than interpreting `gst_state` themselves.
    pub running: bool,
    /// Raw GStreamer state, for diagnostics only.
    pub gst_state: Option<String>,
}

/// A flow as Strom holds it: the fields the gateway acts on, and the whole document.
/// Strom owns fields that an update has to carry back rather than let default away.
#[derive(Debug)]
pub struct FetchedFlow {
    pub state: FlowState,
    pub raw: Json,
}

/// What came of creating a flow.
#[derive(Debug)]
pub enum FlowCreateOutcome {
    Created(FlowState),
    /// For a derived id the normal case after a restart rather than an error.
    AlreadyExists,
}

/// Why an answer could not be read.
#[derive(Clone, Copy, Debug, PartialEq, Eq, Structural)]
pub enum BadAnswer {
    /// The document has no `flow` member.
    NoFlow,
    /// It has one that is no flow.
    NotAFlow,
}

/// A field of a flow document: by its name, or by its place where the document is a list
/// of the fields.
pub open spec fn field(flow: JsonView, name: Seq<char>, place: int) -> Option<JsonView> {
    match flow {
        JsonView::List(fields) => if 0 <= place < fields.len() {
            Some(fields[place])
        } else {
            None
        },
        _ => member(flow, name),
    }
}

pub open spec fn id_field(flow: JsonView) -> Option<JsonView> {
    field(flow, "id"@, 0)
}

pub open spec fn name_field(flow: JsonView) -> Option<JsonView> {
    field(flow, "name"@, 1)
}

pub open spec fn running_field(flow: JsonView) -> Option<JsonView> {
    field(flow, "running"@, 2)
}

pub open spec fn gst_field(flow: JsonView) -> Option<JsonView> {
    field(flow, "gst_state"@, 3)
}

/// Whether a document is a flow: an object or a list of no more than its fields, each of
/// its kind or left out, and with an id.
pub open spec fn flow_shaped(flow: JsonView) -> bool {
    &&& flow is Object || (flow matches JsonView::List(fields) && fields.len() <= 4)
    &&& id_field(flow) matches Some(JsonView::Text(_))
    &&& (name_field(flow) is None || name_field(flow)->0 is Text)
    &&& (running_field(flow) is None || running_field(flow)->0 is Bool)
    &&& (gst_field(flow) is None || gst_field(flow)->0 is Text || gst_field(flow)->0 is Null)
}

/// A field by its name or its place.
fn find_field<'a>(flow: &'a Json, name: &str, place: usize) -> (r: Option<&'a Json>)
    ensures
        opt_view(r) == field(flow@, name@, place as int),
{
    match flow {
        Json::List(fields) => {
            proof {
                lemma_list_view(fields@);
            }
            if place < fields.len() {
                Some(&fields[place])
            } else {
                None
            }
        },
        _ => flow.get(name),
    }
}

impl FlowState {
    /// Holds what a flow document says.
    pub open spec fn reads(&self, flow: JsonView) -> bool {
        &&& text_of(id_field(flow)) == Some(self.id@)
        &&& self.name@ == (match text_of(name_field(flow)) {
            Some(s) => s,
            None => Seq::empty(),
        })
        &&& self.running == (running_field(flow) == Some(JsonView::Bool(true)))
        &&& opt_text(self.gst_state) == text_of(gst_field(flow))
    }

    /// Reads the fields of a flow document. Only the id has to be there.
    pub fn read(flow: &Json) -> (r: Option<FlowState>)
        ensures
            r is Some <==> flow_shaped(flow@),
            r is Some ==> r->0.reads(flow@),
    {
        match flow {
            Json::Object(_) => {},
            Json::List(fields) => {
                proof {
                    lemma_list_view(fields@);
                }
                if fields.len() > 4 {
                    return None;
                }
            },
            _ => return None,
        }
        let id = match find_field(flow, "id", 0) {
            Some(Json::Text(s)) => s.clone(),
            _ => return None,
        };
        let name = match find_field(flow, "name", 1) {
            Some(Json::Text(s)) => s.clone(),
            None => String::new(),
            _ => return None,
        };
        let running = match find_field(flow, "running", 2) {
            Some(Json::Bool(b)) => *b,
            None => false,
            _ => return None,
        };
        let gst_state = match find_field(flow, "gst_state", 3) {
            Some(Json::Text(s)) => Some(s.clone()),
            Some(Json::Null) | None => None,
            _ => return None,
        };
        Some(FlowState { id, name, running, gst_state })
    }
}

/// Reads an answer that carries a flow.
pub fn read_flow(body: &Json) -> (r: Result<FetchedFlow, BadAnswer>)
    ensures
        match member(body@, "flow"@) {
            None => r == Err::<FetchedFlow, BadAnswer>(BadAnswer::NoFlow),
            Some(flow) => if flow_shaped(flow) {
                r is Ok && r->Ok_0.raw@ == flow && r->Ok_0.state.reads(flow)
            } else {
                r == Err::<FetchedFlow, BadAnswer>(BadAnswer::NotAFlow)
            },
        },
{
    match body.get("flow") {
        None => Err(BadAnswer::NoFlow),
        Some(flow) => match FlowState::read(flow) {
            Some(state) => Ok(FetchedFlow { state, raw: flow.copy() }),
            None => Err(BadAnswer::NotAFlow),
        },
    }
}

/// What the status of an answer to creating a flow means: 409 says that the id exists.
#[derive(Clone, Copy, Debug, PartialEq, Eq, Structural)]
pub enum Creation {
    Made,
    Exists,
    Refused,
}

pub fn read_creation(status: u16) -> (r: Creation)
    ensures
        r == (if status == 409 {
            Creation::Exists
        } else if answer_of(status, false) == Answer::Body {
            Creation::Made
        } else {
            Creation::Refused
        }),
{
    if status == 409 {
        return Creation::Exists;
    }
    match read_status(status, false) {
        Answer::Body => Creation::Made,
        _ => Creation::Refused,
    }
}

// ---------------------------------------------------------------------------
// SRT statistics
// ---------------------------------------------------------------------------

/// The uplink's SRT connection as Strom reports it. A connected flag is deliberately not
/// part of it: a sink keeps a stale entry while it retries a vanished peer. What tells a
/// delivering uplink apart is `bytes_sent` advancing.
#[derive(Clone, Copy, Debug, PartialEq, Eq, Structural)]
pub struct SrtUplink {
    pub bytes_sent: u64,
    pub rtt_ms: Option<Number>,
    pub send_rate_mbps: Option<Number>,
    pub packets_retransmitted: Option<u64>,
    pub packets_sent_dropped: Option<u64>,
    pub negotiated_latency_ms: Option<u64>,
}

pub open spec fn number_of(j: Option<JsonView>) -> Option<Number> {
    match j {
        Some(JsonView::Number(n)) => Some(n),
        _ => None,
    }
}

pub open spec fn valued(n: Option<Number>) -> Option<Number> {
    match n {
        Some(n) => Some(by_value(n)),
        None => None,
    }
}

impl SrtUplink {
    /// Holds what a peer's entry says.
    pub open spec fn reads(&self, caller: JsonView) -> bool {
        &&& self.bytes_sent == (match uint_of(member(caller, "bytes_sent"@)) {
            Some(n) => n,
            None => 0,
        })
        &&& valued(self.rtt_ms) == number_of(member(caller, "rtt_ms"@))
        &&& valued(self.send_rate_mbps) == number_of(member(caller, "send_rate_mbps"@))
        &&& self.packets_retransmitted == uint_of(member(caller, "packets_retransmitted"@))
        &&& self.packets_sent_dropped == uint_of(member(caller, "packets_sent_dropped"@))
        &&& self.negotiated_latency_ms == uint_of(member(caller, "negotiated_latency_ms"@))
    }
}

/// A sink that dials: the gateway's uplink.
pub open spec fn is_uplink(connection: JsonView) -> bool {
    &&& text_of(member(connection, "role"@)) == Some("sink"@)
    &&& text_of(member(connection, "mode"@)) == Some("caller"@)
}

/// The name of the first uplink, in the order of the names.
pub open spec fn first_uplink(connections: Map<Seq<char>, JsonView>, key: Seq<char>) -> bool {
    &&& connections.contains_key(key)
    &&& is_uplink(connections[key])
    &&& forall|other: Seq<char>|
        #![trigger connections[other]]
        connections.contains_key(other) && is_uplink(connections[other]) ==> !precedes(other, key)
}

/// The first peer of a connection.
pub open spec fn first_caller(connection: JsonView) -> Option<JsonView> {
    match member(connection, "callers"@) {
        Some(JsonView::List(callers)) => if callers.len() > 0 {
            Some(callers[0])
        } else {
            None
        },
        _ => None,
    }
}

/// The connections that a statistics document lists.
pub open spec fn connections_of(body: JsonView) -> Option<Map<Seq<char>, JsonView>> {
    match member(body, "stats"@) {
        Some(stats) => match member(stats, "connections"@) {
            Some(JsonView::Object(m)) => Some(m),
            _ => None,
        },
        None => None,
    }
}

/// What is read of a statistics document: the first peer of the first uplink.
pub open spec fn uplink_read(r: Option<SrtUplink>, body: JsonView) -> bool {
    match connections_of(body) {
        None => r is None,
        Some(m) => {
            ||| r is None && forall|key: Seq<char>|
                #![trigger m[key]]
                m.contains_key(key) ==> !is_uplink(m[key])
            ||| exists|key: Seq<char>|
                #[trigger] first_uplink(m, key) && (match first_caller(m[key]) {
                    Some(caller) => r is Some && r->0.reads(caller),
                    None => r is None,
                })
        },
    }
}

fn check_uplink(connection: &Json) -> (r: bool)
    ensures
        r == is_uplink(connection@),
{
    let role = match connection.text_at("role") {
        Some(s) => same_text(s, "sink"),
        None => false,
    };
    let mode = match connection.text_at("mode") {
        Some(s) => same_text(s, "caller"),
        None => false,
    };
    role && mode
}

fn uint_at(j: &Json, key: &str) -> (r: Option<u64>)
    ensures
        r == uint_of(member(j@, key@)),
{
    match j.get(key) {
        Some(v) => v.as_uint(),
        None => None,
    }
}

fn number_at(j: &Json, key: &str) -> (r: Option<Number>)
    ensures
        valued(r) == number_of(member(j@, key@)),
{
    match j.get(key) {
        Some(v) => v.as_number(),
        None => None,
    }
}

fn read_caller(caller: &Json) -> (r: SrtUplink)
    ensures
        r.reads(caller@),
{
    SrtUplink {
        bytes_sent: uint_at(caller, "bytes_sent").unwrap_or(0),
        rtt_ms: number_at(caller, "rtt_ms"),
        send_rate_mbps: number_at(caller, "send_rate_mbps"),
        packets_retransmitted: uint_at(caller, "packets_retransmitted"),
        packets_sent_dropped: uint_at(caller, "packets_sent_dropped"),
        negotiated_latency_ms: uint_at(caller, "negotiated_latency_ms"),
    }
}

/// The least name whose connection is an uplink, among the first `n` entries.
spec fn best_of(
    entries: Seq<(String, Json)>,
    m: Map<Seq<char>, JsonView>,
    n: int,
    best: Option<usize>,
) -> bool {
    match best {
        None => forall|i: int| 0 <= i < n ==> !is_uplink(m[(#[trigger] entries[i]).0@]),
        Some(b) => {
            &&& b < entries.len()
            &&& is_uplink(m[entries[b as int].0@])
            &&& forall|i: int|
                0 <= i < n && is_uplink(m[(#[trigger] entries[i]).0@]) ==> !precedes(
                    entries[i].0@,
                    entries[b as int].0@,
                )
        },
    }
}

/// Where the first uplink of a set of connections is.
fn find_uplink(connections: &Json, entries: &Vec<(String, Json)>) -> (r: Option<usize>)
    requires
        *connections == Json::Object(*entries),
    ensures
        match r {
            Some(k) => k < entries@.len() && first_uplink(
                object_view(entries@),
                entries@[k as int].0@,
            ),
            None => forall|key: Seq<char>|
                #![trigger object_view(entries@)[key]]
                object_view(entries@).contains_key(key) ==> !is_uplink(object_view(entries@)[key]),
        },
{
    let ghost m = object_view(entries@);
    proof {
        lemma_object_keys(entries@);
    }
    let mut best: Option<usize> = None;
    let mut i: usize = 0;
    while i < entries.len()
        invariant
            i <= entries@.len(),
            m == object_view(entries@),
            connections@ == JsonView::Object(m),
            forall|k: Seq<char>| #[trigger]
                m.contains_key(k) <==> exists|j: int|
                    0 <= j < entries@.len() && (#[trigger] entries@[j]).0@ == k,
            best_of(entries@, m, i as int, best),
        decreases entries@.len() - i,
    {
        let key = entries[i].0.as_str();
        assert(m.contains_key(entries@[i as int].0@));
        let qualifies = match connections.get(key) {
            Some(v) => check_uplink(v),
            None => false,
        };
        if qualifies {
            match best {
                None => {
                    proof {
                        lemma_precedes_irreflexive(key@);
                    }
                    best = Some(i);
                },
                Some(b) => {
                    if comes_before(key, entries[b].0.as_str()) {
                        proof {
                            let old_key = entries@[b as int].0@;
                            lemma_precedes_irreflexive(key@);
                            assert forall|j: int|
                                0 <= j < i + 1 && is_uplink(
                                    m[(#[trigger] entries@[j]).0@],
                                ) implies !precedes(entries@[j].0@, key@) by {
                                if precedes(entries@[j].0@, key@) {
                                    lemma_precedes_transitive(entries@[j].0@, key@, old_key);
                                }
                            }
                        }
                        best = Some(i);
                    }
                },
            }
        }
        i = i + 1;
    }
    proof {
        match best {
            None => {
                assert forall|key: Seq<char>|
                    #![trigger m[key]]
                    m.contains_key(key) implies !is_uplink(m[key]) by {
                    let j = choose|j: int| 0 <= j < entries@.len() && (#[trigger] entries@[j]).0@
                        == key;
                }
            },
            Some(b) => {
                assert(m.contains_key(entries@[b as int].0@));
                assert forall|other: Seq<char>|
                    #![trigger m[other]]
                    m.contains_key(other) && is_uplink(m[other]) implies !precedes(
                    other,
                    entries@[b as int].0@,
                ) by {
                    let j = choose|j: int| 0 <= j < entries@.len() && (#[trigger] entries@[j]).0@
                        == other;
                }
            },
        }
    }
    best
}

/// Reads the uplink out of a statistics document: of the sinks that dial, the first by
/// name, and of its peers the first. None where there is no such connection.
pub fn srt_uplink(body: &Json) -> (r: Option<SrtUplink>)
    ensures
        uplink_read(r, body@),
{
    let stats = match body.get("stats") {
        Some(stats) => stats,
        None => return None,
    };
    let connections = match stats.get("connections") {
        Some(connections) => connections,
        None => return None,
    };
    let entries = match connections {
        Json::Object(entries) => entries,
        _ => return None,
    };
    let ghost m = object_view(entries@);
    assert(connections_of(body@) == Some(m));
    let k: usize = match find_uplink(connections, entries) {
        Some(k) => k,
        None => return None,
    };
    let key = entries[k].0.as_str();
    assert(first_uplink(m, key@));
    let connection = match connections.get(key) {
        Some(c) => c,
        None => return None,
    };
    match connection.get("callers") {
        Some(callers) => match callers.as_list() {
            Some(list) => {
                proof {
                    lemma_list_view(list@);
                }
                if list.len() > 0 {
                    assert(list_view(list@)[0] == json_view(list@[0]));
                    Some(read_caller(&list[0]))
                } else {
                    None
                }
            },
            None => None,
        },
        None => None,
    }
}

// ---------------------------------------------------------------------------
// What is read from Strom's answers
// ---------------------------------------------------------------------------

/// Of a flow its id has to be there; a name that is not is empty, and one that is not said
/// to run does not. Fields stand under their names, or in their order where there are
/// only values.
pub proof fn law_a_flow_is_read_by_name_or_by_place(
    flow: JsonView,
    fields: Seq<JsonView>,
    state: FlowState,
)
    ensures
        flow is Object && flow_shaped(flow) ==> member(flow, "id"@) is Some && member(
            flow,
            "id"@,
        )->0 is Text,
        flow is Object && state.reads(flow) ==> {
            &&& text_of(member(flow, "id"@)) == Some(state.id@)
            &&& member(flow, "name"@) is None ==> state.name@.len() == 0
            &&& text_of(member(flow, "name"@)) is Some ==> text_of(member(flow, "name"@)) == Some(
                state.name@,
            )
            &&& state.running <==> member(flow, "running"@) == Some(JsonView::Bool(true))
            &&& opt_text(state.gst_state) == text_of(member(flow, "gst_state"@))
        },
        flow_shaped(JsonView::List(fields)) ==> 1 <= fields.len() <= 4 && fields[0] is Text,
        fields.len() == 4 && state.reads(JsonView::List(fields)) ==> {
            &&& fields[0] == JsonView::Text(state.id@)
            &&& state.running <==> fields[2] == JsonView::Bool(true)
            &&& opt_text(state.gst_state) == text_of(Some(fields[3]))
        },
        !flow_shaped(JsonView::Null),
{
}

/// What is read of a peer is what stands under each name: bytes that are not told are
/// none, and any other value that is not told is missing.
pub proof fn law_a_peer_is_read_by_name(u: SrtUplink, caller: JsonView)
    requires
        u.reads(caller),
    ensures
        uint_of(member(caller, "bytes_sent"@)) is Some ==> u.bytes_sent == uint_of(
            member(caller, "bytes_sent"@),
        )->0,
        uint_of(member(caller, "bytes_sent"@)) is None ==> u.bytes_sent == 0,
        u.packets_retransmitted == uint_of(member(caller, "packets_retransmitted"@)),
        u.packets_sent_dropped == uint_of(member(caller, "packets_sent_dropped"@)),
        u.negotiated_latency_ms == uint_of(member(caller, "negotiated_latency_ms"@)),
        u.rtt_ms is Some <==> member(caller, "rtt_ms"@) is Some && member(
            caller,
            "rtt_ms"@,
        )->0 is Number,
        u.send_rate_mbps is Some <==> member(caller, "send_rate_mbps"@) is Some && member(
            caller,
            "send_rate_mbps"@,
        )->0 is Number,
{
}

/// The uplink is a connection that sends and that calls: one that only receives, or that
/// waits to be called, is none.
pub proof fn law_an_uplink_sends_and_calls(connection: JsonView)
    ensures
        is_uplink(connection) <==> text_of(member(connection, "role"@)) == Some("sink"@)
            && text_of(member(connection, "mode"@)) == Some("caller"@),
{
}

/// What is read is the first caller of the first uplink by name; without an uplink, or
/// without a caller on it, nothing is.
pub proof fn law_the_first_uplink_is_read(
    r: Option<SrtUplink>,
    body: JsonView,
    m: Map<Seq<char>, JsonView>,
    key: Seq<char>,
)
    requires
        uplink_read(r, body),
        connections_of(body) == Some(m),
        m.contains_key(key),
        is_uplink(m[key]),
        forall|other: Seq<char>|
            #![trigger m[other]]
            m.contains_key(other) && is_uplink(m[other]) && other != key ==> precedes(key, other),
    ensures
        match member(m[key], "callers"@) {
            Some(JsonView::List(callers)) => if callers.len() > 0 {
                r is Some && r->0.reads(callers[0])
            } else {
                r is None
            },
            _ => r is None,
        },
{
    let found = choose|found: Seq<char>|
        #[trigger] first_uplink(m, found) && (match first_caller(m[found]) {
            Some(caller) => r is Some && r->0.reads(caller),
            None => r is None,
        });
    if found != key {
        assert(precedes(key, found));
    }
}

/// The connections stand in the statistics of the answer, and an answer without them has
/// no uplink.
pub proof fn law_connections_stand_in_the_statistics(
    body: JsonView,
    stats: JsonView,
    m: Map<Seq<char>, JsonView>,
    r: Option<SrtUplink>,
)
    ensures
        member(body, "stats"@) == Some(stats) && member(stats, "connections"@) == Some(
            JsonView::Object(m),
        ) ==> connections_of(body) == Some(m),
        member(body, "stats"@) is None ==> (uplink_read(r, body) <==> r is None),
        member(body, "stats"@) == Some(stats) && member(stats, "connections"@) is None ==> (
        uplink_read(r, body) <==> r is None),
{
}

/// A document is a flow exactly when it has an id and nothing in it is of another kind
/// than it should be: a name is a text, whether it runs is told by yes or no, and the
/// state of its pipeline is a text or null.
pub proof fn law_a_flow_has_an_id_and_the_right_kinds(flow: JsonView)
    requires
        flow is Object,
    ensures
        flow_shaped(flow) <==> {
            &&& member(flow, "id"@) is Some && member(flow, "id"@)->0 is Text
            &&& member(flow, "name"@) is Some ==> member(flow, "name"@)->0 is Text
            &&& member(flow, "running"@) is Some ==> member(flow, "running"@)->0 is Bool
            &&& member(flow, "gst_state"@) is Some ==> member(flow, "gst_state"@)->0 is Text
                || member(flow, "gst_state"@)->0 is Null
        },
{
}

} // verus!
