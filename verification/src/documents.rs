//! The documents that others read: the frames of the heartbeat, whose field names are
//! Open Live's, and the reports that `status --json` and `devices --json` print.

use crate::heartbeat::{FlowState, InputStatus, Pusher, Snapshot, Uplink};
use crate::json::{
    by_value, list_view, member, push_item, text_of, Fields, Json, JsonView, Number,
};
use crate::report::{
    DeviceReport, EndpointReport, FlowReport, InputReport, ProcessReport, Reading, SourceReport,
    StatusReport, UplinkReport, UplinkStatsReport,
};
use vstd::prelude::*;

verus! {

pub open spec fn nothing() -> Map<Seq<char>, JsonView> {
    Map::empty()
}

pub open spec fn text(s: Seq<char>) -> JsonView {
    JsonView::Text(s)
}

pub open spec fn uint(n: int) -> JsonView {
    JsonView::Number(Number::PosInt(n as u64))
}

pub open spec fn double(bits: u64) -> JsonView {
    JsonView::Number(by_value(Number::Float(bits)))
}

pub open spec fn text_or_null(o: Option<String>) -> JsonView {
    match o {
        Some(s) => text(s@),
        None => JsonView::Null,
    }
}

pub open spec fn uint_or_null(o: Option<u64>) -> JsonView {
    match o {
        Some(n) => uint(n as int),
        None => JsonView::Null,
    }
}

pub open spec fn small_or_null(o: Option<u32>) -> JsonView {
    match o {
        Some(n) => uint(n as int),
        None => JsonView::Null,
    }
}

pub open spec fn reading_or_null(o: Option<Reading>) -> JsonView {
    match o {
        Some(r) => double(r.bits),
        None => JsonView::Null,
    }
}

fn opt_string(o: &Option<String>) -> (r: Json)
    ensures
        r@ == text_or_null(*o),
{
    match o {
        Some(s) => Json::text(s.as_str()),
        None => Json::Null,
    }
}

fn opt_uint(o: Option<u64>) -> (r: Json)
    ensures
        r@ == uint_or_null(o),
{
    match o {
        Some(n) => Json::uint(n),
        None => Json::Null,
    }
}

fn opt_small(o: Option<u32>) -> (r: Json)
    ensures
        r@ == small_or_null(o),
{
    match o {
        Some(n) => Json::uint(n as u64),
        None => Json::Null,
    }
}

fn opt_reading(o: Option<Reading>) -> (r: Json)
    ensures
        r@ == reading_or_null(o),
{
    match o {
        Some(reading) => Json::Number(Number::Float(reading.bits)),
        None => Json::Null,
    }
}

// ---------------------------------------------------------------------------
// Heartbeat frames
// ---------------------------------------------------------------------------

pub open spec fn flow_state_word(state: FlowState) -> Seq<char> {
    match state {
        FlowState::Idle => "idle"@,
        FlowState::Playing => "playing"@,
    }
}

pub open spec fn uplink_json(uplink: Option<Uplink>) -> JsonView {
    match uplink {
        Some(u) => JsonView::Object(
            nothing().insert("bitrateKbps"@, uint(u.bitrate_kbps as int)).insert(
                "rtt_ms"@,
                double(u.rtt_ms),
            ).insert("dropped"@, uint(u.dropped as int)),
        ),
        None => JsonView::Null,
    }
}

pub open spec fn input_json(i: InputStatus) -> JsonView {
    JsonView::Object(
        nothing().insert("inputId"@, text(i.input_id@)).insert("name"@, text(i.name@)).insert(
            "flowState"@,
            text(flow_state_word(i.flow_state)),
        ).insert("sourceId"@, text_or_null(i.source_id)).insert("uplink"@, uplink_json(i.uplink)),
    )
}

pub open spec fn inputs_json(s: Seq<InputStatus>) -> Seq<JsonView> {
    s.map_values(|i: InputStatus| input_json(i))
}

/// What every frame has: its kind, its number, which only grows while the process
/// lives, and when it was sent.
pub open spec fn envelope(kind: Seq<char>, seq: u64, ts: Seq<char>) -> Map<Seq<char>, JsonView> {
    nothing().insert("type"@, text(kind)).insert("seq"@, uint(seq as int)).insert("ts"@, text(ts))
}

/// A frame that carries a snapshot. A Strom version that is not known is left out.
pub open spec fn snapshot_frame(
    kind: Seq<char>,
    seq: u64,
    ts: Seq<char>,
    snapshot: Snapshot,
) -> JsonView {
    let hosted = envelope(kind, seq, ts).insert("host"@, text(snapshot.host@));
    let versioned = match snapshot.strom_version {
        Some(v) => hosted.insert("stromVersion"@, text(v@)),
        None => hosted,
    };
    JsonView::Object(
        versioned.insert("ingestVersion"@, text(snapshot.ingest_version@)).insert(
            "deviceCount"@,
            uint(snapshot.device_count as int),
        ).insert("streamingCount"@, uint(snapshot.streaming_count as int)).insert(
            "inputs"@,
            JsonView::List(inputs_json(snapshot.inputs@)),
        ),
    )
}

fn write_uplink(uplink: &Option<Uplink>) -> (r: Json)
    ensures
        r@ == uplink_json(*uplink),
{
    match uplink {
        Some(u) => Fields::new().with("bitrateKbps", Json::uint(u.bitrate_kbps)).with(
            "rtt_ms",
            Json::Number(Number::Float(u.rtt_ms)),
        ).with("dropped", Json::uint(u.dropped)).object(),
        None => Json::Null,
    }
}

fn write_inputs(inputs: &Vec<InputStatus>) -> (r: Vec<Json>)
    ensures
        list_view(r@) == inputs_json(inputs@),
{
    let mut out: Vec<Json> = Vec::new();
    assert(list_view(out@) =~= inputs_json(inputs@.subrange(0, 0)));
    let mut i: usize = 0;
    while i < inputs.len()
        invariant
            i <= inputs@.len(),
            list_view(out@) == inputs_json(inputs@.subrange(0, i as int)),
        decreases inputs@.len() - i,
    {
        let input = &inputs[i];
        push_item(
            &mut out,
            Fields::new().with("inputId", Json::text(input.input_id.as_str())).with(
                "name",
                Json::text(input.name.as_str()),
            ).with("flowState", Json::text(input.flow_state.word())).with(
                "sourceId",
                opt_string(&input.source_id),
            ).with("uplink", write_uplink(&input.uplink)).object(),
        );
        assert(inputs_json(inputs@.subrange(0, i + 1)) =~= inputs_json(
            inputs@.subrange(0, i as int),
        ).push(input_json(inputs@[i as int])));
        i = i + 1;
    }
    assert(inputs@.subrange(0, inputs@.len() as int) =~= inputs@);
    out
}

/// The next frame that carries a snapshot: `GATEWAY_ONLINE` or `HEARTBEAT`.
pub fn frame(pusher: &mut Pusher, kind: &str, ts: &str, snapshot: &Snapshot) -> (r: Json)
    requires
        old(pusher).seq < u64::MAX,
    ensures
        final(pusher).seq == old(pusher).seq + 1,
        final(pusher).failures == old(pusher).failures,
        final(pusher).reported == old(pusher).reported,
        r@ == snapshot_frame(kind@, final(pusher).seq, ts@, *snapshot),
{
    let seq: u64 = pusher.next_seq();
    let mut fields = Fields::new().with("type", Json::text(kind)).with(
        "seq",
        Json::uint(seq),
    ).with("ts", Json::text(ts)).with("host", Json::text(snapshot.host.as_str()));
    if let Some(v) = &snapshot.strom_version {
        fields = fields.with("stromVersion", Json::text(v.as_str()));
    }
    fields.with("ingestVersion", Json::text(snapshot.ingest_version.as_str())).with(
        "deviceCount",
        Json::uint(snapshot.device_count as u64),
    ).with("streamingCount", Json::uint(snapshot.streaming_count as u64)).with(
        "inputs",
        Json::List(write_inputs(&snapshot.inputs)),
    ).object()
}

/// The last frame: the gateway goes down on purpose.
pub fn offline_frame(pusher: &mut Pusher, ts: &str) -> (r: Json)
    requires
        old(pusher).seq < u64::MAX,
    ensures
        final(pusher).seq == old(pusher).seq + 1,
        final(pusher).failures == old(pusher).failures,
        final(pusher).reported == old(pusher).reported,
        r@ == JsonView::Object(
            envelope("GATEWAY_OFFLINE"@, final(pusher).seq, ts@).insert(
                "reason"@,
                text("operator-stop"@),
            ),
        ),
{
    let seq: u64 = pusher.next_seq();
    Fields::new().with("type", Json::text("GATEWAY_OFFLINE")).with("seq", Json::uint(seq)).with(
        "ts",
        Json::text(ts),
    ).with("reason", Json::text("operator-stop")).object()
}

// ---------------------------------------------------------------------------
// Reports
// ---------------------------------------------------------------------------

pub open spec fn process_json(p: ProcessReport) -> JsonView {
    JsonView::Object(
        nothing().insert("running"@, JsonView::Bool(p.running)).insert(
            "pid"@,
            small_or_null(p.pid),
        ),
    )
}

pub open spec fn target_json(u: Option<UplinkReport>) -> JsonView {
    match u {
        Some(u) => JsonView::Object(
            nothing().insert("host"@, text(u.host@)).insert("ports"@, text(u.ports@)).insert(
                "port_source"@,
                text(u.port_source@),
            ),
        ),
        None => JsonView::Null,
    }
}

pub open spec fn endpoint_json(e: EndpointReport) -> JsonView {
    JsonView::Object(
        nothing().insert("url"@, text(e.url@)).insert(
            "reachable"@,
            JsonView::Bool(e.reachable),
        ).insert("error"@, text_or_null(e.error)),
    )
}

pub open spec fn endpoint_or_null(e: Option<EndpointReport>) -> JsonView {
    match e {
        Some(e) => endpoint_json(e),
        None => JsonView::Null,
    }
}

pub open spec fn flow_or_null(f: Option<FlowReport>) -> JsonView {
    match f {
        Some(f) => JsonView::Object(
            nothing().insert("id"@, text(f.id@)).insert("running"@, JsonView::Bool(f.running)),
        ),
        None => JsonView::Null,
    }
}

pub open spec fn source_or_null(s: Option<SourceReport>) -> JsonView {
    match s {
        Some(s) => JsonView::Object(
            nothing().insert("id"@, text(s.id@)).insert("status"@, text(s.status@)),
        ),
        None => JsonView::Null,
    }
}

pub open spec fn stats_or_null(s: Option<UplinkStatsReport>) -> JsonView {
    match s {
        Some(s) => JsonView::Object(
            nothing().insert("send_rate_mbps"@, reading_or_null(s.send_rate_mbps)).insert(
                "rtt_ms"@,
                reading_or_null(s.rtt_ms),
            ).insert("bytes_sent"@, uint_or_null(s.bytes_sent)).insert(
                "bandwidth_mbps"@,
                reading_or_null(s.bandwidth_mbps),
            ).insert("negotiated_latency_ms"@, small_or_null(s.negotiated_latency_ms)).insert(
                "packets_sent"@,
                uint_or_null(s.packets_sent),
            ).insert("packets_sent_lost"@, uint_or_null(s.packets_sent_lost)).insert(
                "packets_sent_dropped"@,
                uint_or_null(s.packets_sent_dropped),
            ).insert("packets_retransmitted"@, uint_or_null(s.packets_retransmitted)).insert(
                "snd_buf_level_ms"@,
                small_or_null(s.snd_buf_level_ms),
            ),
        ),
        None => JsonView::Null,
    }
}

pub open spec fn report_json(i: InputReport) -> JsonView {
    JsonView::Object(
        nothing().insert("name"@, text(i.name@)).insert("flow"@, flow_or_null(i.flow)).insert(
            "uplink"@,
            stats_or_null(i.uplink),
        ).insert("source"@, source_or_null(i.source)),
    )
}

pub open spec fn reports_json(s: Seq<InputReport>) -> Seq<JsonView> {
    s.map_values(|i: InputReport| report_json(i))
}

/// What `status --json` prints.
pub open spec fn status_json(s: StatusReport) -> JsonView {
    JsonView::Object(
        nothing().insert("process"@, process_json(s.process)).insert(
            "uplink"@,
            target_json(s.uplink),
        ).insert("uplink_error"@, text_or_null(s.uplink_error)).insert(
            "strom"@,
            endpoint_json(s.strom),
        ).insert("open_live"@, endpoint_or_null(s.open_live)).insert(
            "inputs"@,
            JsonView::List(reports_json(s.inputs@)),
        ),
    )
}

fn write_endpoint(e: &EndpointReport) -> (r: Json)
    ensures
        r@ == endpoint_json(*e),
{
    Fields::new().with("url", Json::text(e.url.as_str())).with(
        "reachable",
        Json::Bool(e.reachable),
    ).with("error", opt_string(&e.error)).object()
}

fn write_stats(s: &Option<UplinkStatsReport>) -> (r: Json)
    ensures
        r@ == stats_or_null(*s),
{
    match s {
        Some(s) => Fields::new().with("send_rate_mbps", opt_reading(s.send_rate_mbps)).with(
            "rtt_ms",
            opt_reading(s.rtt_ms),
        ).with("bytes_sent", opt_uint(s.bytes_sent)).with(
            "bandwidth_mbps",
            opt_reading(s.bandwidth_mbps),
        ).with("negotiated_latency_ms", opt_small(s.negotiated_latency_ms)).with(
            "packets_sent",
            opt_uint(s.packets_sent),
        ).with("packets_sent_lost", opt_uint(s.packets_sent_lost)).with(
            "packets_sent_dropped",
            opt_uint(s.packets_sent_dropped),
        ).with("packets_retransmitted", opt_uint(s.packets_retransmitted)).with(
            "snd_buf_level_ms",
            opt_small(s.snd_buf_level_ms),
        ).object(),
        None => Json::Null,
    }
}

fn write_report(i: &InputReport) -> (r: Json)
    ensures
        r@ == report_json(*i),
{
    let flow = match &i.flow {
        Some(f) => Fields::new().with("id", Json::text(f.id.as_str())).with(
            "running",
            Json::Bool(f.running),
        ).object(),
        None => Json::Null,
    };
    let source = match &i.source {
        Some(s) => Fields::new().with("id", Json::text(s.id.as_str())).with(
            "status",
            Json::text(s.status.as_str()),
        ).object(),
        None => Json::Null,
    };
    Fields::new().with("name", Json::text(i.name.as_str())).with("flow", flow).with(
        "uplink",
        write_stats(&i.uplink),
    ).with("source", source).object()
}

/// The report as a document. It is the contract a script reads.
pub fn status_document(s: &StatusReport) -> (r: Json)
    ensures
        r@ == status_json(*s),
{
    let mut inputs: Vec<Json> = Vec::new();
    assert(list_view(inputs@) =~= reports_json(s.inputs@.subrange(0, 0)));
    let mut i: usize = 0;
    while i < s.inputs.len()
        invariant
            i <= s.inputs@.len(),
            list_view(inputs@) == reports_json(s.inputs@.subrange(0, i as int)),
        decreases s.inputs@.len() - i,
    {
        push_item(&mut inputs, write_report(&s.inputs[i]));
        assert(reports_json(s.inputs@.subrange(0, i + 1)) =~= reports_json(
            s.inputs@.subrange(0, i as int),
        ).push(report_json(s.inputs@[i as int])));
        i = i + 1;
    }
    assert(s.inputs@.subrange(0, s.inputs@.len() as int) =~= s.inputs@);
    let process = Fields::new().with("running", Json::Bool(s.process.running)).with(
        "pid",
        opt_small(s.process.pid),
    ).object();
    let uplink = match &s.uplink {
        Some(u) => Fields::new().with("host", Json::text(u.host.as_str())).with(
            "ports",
            Json::text(u.ports.as_str()),
        ).with("port_source", Json::text(u.port_source.as_str())).object(),
        None => Json::Null,
    };
    let open_live = match &s.open_live {
        Some(e) => write_endpoint(e),
        None => Json::Null,
    };
    Fields::new().with("process", process).with("uplink", uplink).with(
        "uplink_error",
        opt_string(&s.uplink_error),
    ).with("strom", write_endpoint(&s.strom)).with("open_live", open_live).with(
        "inputs",
        Json::List(inputs),
    ).object()
}

pub open spec fn device_json(d: DeviceReport) -> JsonView {
    JsonView::Object(
        nothing().insert("name"@, text(d.name@)).insert("id"@, text(d.id@)).insert(
            "virtual"@,
            JsonView::Bool(d.virtual_),
        ),
    )
}

pub open spec fn devices_json(s: Seq<DeviceReport>) -> Seq<JsonView> {
    s.map_values(|d: DeviceReport| device_json(d))
}

/// The devices as a document.
pub fn devices_document(all: &Vec<DeviceReport>) -> (r: Json)
    ensures
        r@ == JsonView::List(devices_json(all@)),
{
    let mut out: Vec<Json> = Vec::new();
    assert(list_view(out@) =~= devices_json(all@.subrange(0, 0)));
    let mut i: usize = 0;
    while i < all.len()
        invariant
            i <= all@.len(),
            list_view(out@) == devices_json(all@.subrange(0, i as int)),
        decreases all@.len() - i,
    {
        let d = &all[i];
        push_item(
            &mut out,
            Fields::new().with("name", Json::text(d.name.as_str())).with(
                "id",
                Json::text(d.id.as_str()),
            ).with("virtual", Json::Bool(d.virtual_)).object(),
        );
        assert(devices_json(all@.subrange(0, i + 1)) =~= devices_json(
            all@.subrange(0, i as int),
        ).push(device_json(all@[i as int])));
        i = i + 1;
    }
    assert(all@.subrange(0, all@.len() as int) =~= all@);
    Json::List(out)
}

// ---------------------------------------------------------------------------
// What the documents say
// ---------------------------------------------------------------------------

/// A frame carries its type, its number and its time, and the snapshot with each value
/// under its own name: the version of Strom only where it is known, and one entry per
/// input, in order.
pub proof fn law_a_frame_says_each_thing_under_its_name(
    kind: Seq<char>,
    seq: u64,
    ts: Seq<char>,
    s: Snapshot,
    i: int,
)
    ensures
        ({
            let f = snapshot_frame(kind, seq, ts, s);
            &&& text_of(member(f, "type"@)) == Some(kind)
            &&& member(f, "seq"@) == Some(JsonView::Number(Number::PosInt(seq)))
            &&& text_of(member(f, "ts"@)) == Some(ts)
            &&& text_of(member(f, "host"@)) == Some(s.host@)
            &&& text_of(member(f, "ingestVersion"@)) == Some(s.ingest_version@)
            &&& member(f, "deviceCount"@) == Some(
                JsonView::Number(Number::PosInt(s.device_count as u64)),
            )
            &&& member(f, "streamingCount"@) == Some(
                JsonView::Number(Number::PosInt(s.streaming_count as u64)),
            )
            &&& member(f, "stromVersion"@) is Some <==> s.strom_version is Some
            &&& s.strom_version is Some ==> text_of(member(f, "stromVersion"@)) == Some(
                s.strom_version->0@,
            )
            &&& member(f, "inputs"@) matches Some(JsonView::List(items)) && items.len()
                == s.inputs@.len() && (0 <= i < items.len() ==> items[i] == input_json(s.inputs@[i]))
        }),
{
    reveal_strlit("type");
    reveal_strlit("seq");
    reveal_strlit("ts");
    reveal_strlit("host");
    reveal_strlit("stromVersion");
    reveal_strlit("ingestVersion");
    reveal_strlit("deviceCount");
    reveal_strlit("streamingCount");
    reveal_strlit("inputs");
    assert("type"@.len() == 4 && "seq"@.len() == 3 && "ts"@.len() == 2 && "host"@.len() == 4);
    assert("stromVersion"@.len() == 12 && "ingestVersion"@.len() == 13);
    assert("deviceCount"@.len() == 11 && "streamingCount"@.len() == 14 && "inputs"@.len() == 6);
    assert("type"@[0] == 't' && "host"@[0] == 'h');
}

/// What a frame says of an input: its id, its name, whether it plays, the source that it
/// has and what its uplink measured, each under its own name, and nothing for what is
/// not known.
pub proof fn law_an_entry_says_each_thing_under_its_name(s: InputStatus)
    ensures
        ({
            let j = input_json(s);
            &&& text_of(member(j, "inputId"@)) == Some(s.input_id@)
            &&& text_of(member(j, "name"@)) == Some(s.name@)
            &&& text_of(member(j, "flowState"@)) == Some(
                if s.flow_state == FlowState::Playing {
                    "playing"@
                } else {
                    "idle"@
                },
            )
            &&& s.source_id is Some ==> text_of(member(j, "sourceId"@)) == Some(s.source_id->0@)
            &&& s.source_id is None ==> member(j, "sourceId"@) == Some(JsonView::Null)
            &&& s.uplink is None ==> member(j, "uplink"@) == Some(JsonView::Null)
            &&& s.uplink is Some ==> {
                let u = member(j, "uplink"@)->0;
                &&& member(j, "uplink"@) is Some
                &&& member(u, "bitrateKbps"@) == Some(
                    JsonView::Number(Number::PosInt(s.uplink->0.bitrate_kbps)),
                )
                &&& s.uplink->0.rtt_ms != 0x8000_0000_0000_0000 ==> member(u, "rtt_ms"@) == Some(
                    JsonView::Number(Number::Float(s.uplink->0.rtt_ms)),
                )
                &&& member(u, "dropped"@) == Some(
                    JsonView::Number(Number::PosInt(s.uplink->0.dropped)),
                )
            }
        }),
{
    reveal_strlit("inputId");
    reveal_strlit("name");
    reveal_strlit("flowState");
    reveal_strlit("sourceId");
    reveal_strlit("uplink");
    reveal_strlit("bitrateKbps");
    reveal_strlit("rtt_ms");
    reveal_strlit("dropped");
    assert("inputId"@.len() == 7 && "name"@.len() == 4 && "flowState"@.len() == 9);
    assert("sourceId"@.len() == 8 && "uplink"@.len() == 6 && "bitrateKbps"@.len() == 11);
    assert("rtt_ms"@.len() == 6 && "dropped"@.len() == 7);
    assert("inputId"@[0] == 'i' && "dropped"@[0] == 'd');
    assert("uplink"@[0] == 'u' && "rtt_ms"@[0] == 'r');
}

/// The status as a document: each part of the report under its own name, and null for
/// what is not there.
pub proof fn law_a_status_says_each_thing_under_its_name(s: StatusReport, i: int)
    ensures
        ({
            let j = status_json(s);
            let process = member(j, "process"@)->0;
            let strom = member(j, "strom"@)->0;
            &&& member(process, "running"@) == Some(JsonView::Bool(s.process.running))
            &&& s.process.pid is Some ==> member(process, "pid"@) == Some(
                JsonView::Number(Number::PosInt(s.process.pid->0 as u64)),
            )
            &&& s.process.pid is None ==> member(process, "pid"@) == Some(JsonView::Null)
            &&& s.uplink is None ==> member(j, "uplink"@) == Some(JsonView::Null)
            &&& s.uplink is Some ==> {
                let u = member(j, "uplink"@)->0;
                &&& text_of(member(u, "host"@)) == Some(s.uplink->0.host@)
                &&& text_of(member(u, "ports"@)) == Some(s.uplink->0.ports@)
                &&& text_of(member(u, "port_source"@)) == Some(s.uplink->0.port_source@)
            }
            &&& s.uplink_error is Some ==> text_of(member(j, "uplink_error"@)) == Some(
                s.uplink_error->0@,
            )
            &&& s.uplink_error is None ==> member(j, "uplink_error"@) == Some(JsonView::Null)
            &&& text_of(member(strom, "url"@)) == Some(s.strom.url@)
            &&& member(strom, "reachable"@) == Some(JsonView::Bool(s.strom.reachable))
            &&& s.strom.error is Some ==> text_of(member(strom, "error"@)) == Some(
                s.strom.error->0@,
            )
            &&& s.strom.error is None ==> member(strom, "error"@) == Some(JsonView::Null)
            &&& s.open_live is None ==> member(j, "open_live"@) == Some(JsonView::Null)
            &&& s.open_live is Some ==> {
                let o = member(j, "open_live"@)->0;
                &&& text_of(member(o, "url"@)) == Some(s.open_live->0.url@)
                &&& member(o, "reachable"@) == Some(JsonView::Bool(s.open_live->0.reachable))
            }
            &&& member(j, "inputs"@) matches Some(JsonView::List(items)) && items.len()
                == s.inputs@.len() && (0 <= i < items.len() ==> items[i] == report_json(s.inputs@[i]))
        }),
{
    reveal_strlit("process");
    reveal_strlit("uplink");
    reveal_strlit("uplink_error");
    reveal_strlit("strom");
    reveal_strlit("open_live");
    reveal_strlit("inputs");
    assert("process"@.len() == 7 && "uplink"@.len() == 6 && "uplink_error"@.len() == 12);
    assert("strom"@.len() == 5 && "open_live"@.len() == 9 && "inputs"@.len() == 6);
    assert("uplink"@[0] == 'u' && "inputs"@[0] == 'i');
    reveal_strlit("running");
    reveal_strlit("pid");
    assert("running"@.len() == 7 && "pid"@.len() == 3);
    reveal_strlit("host");
    reveal_strlit("ports");
    reveal_strlit("port_source");
    assert("host"@.len() == 4 && "ports"@.len() == 5 && "port_source"@.len() == 11);
    reveal_strlit("url");
    reveal_strlit("reachable");
    reveal_strlit("error");
    assert("url"@.len() == 3 && "reachable"@.len() == 9 && "error"@.len() == 5);
}

/// What a status says of an input: its name, its flow, its source, and every measurement
/// of its uplink under its own name.
pub proof fn law_a_reported_input_says_each_thing_under_its_name(r: InputReport)
    ensures
        ({
            let j = report_json(r);
            &&& text_of(member(j, "name"@)) == Some(r.name@)
            &&& r.flow is None ==> member(j, "flow"@) == Some(JsonView::Null)
            &&& r.flow is Some ==> text_of(member(member(j, "flow"@)->0, "id"@)) == Some(
                r.flow->0.id@,
            ) && member(member(j, "flow"@)->0, "running"@) == Some(
                JsonView::Bool(r.flow->0.running),
            )
            &&& r.source is None ==> member(j, "source"@) == Some(JsonView::Null)
            &&& r.source is Some ==> text_of(member(member(j, "source"@)->0, "id"@)) == Some(
                r.source->0.id@,
            ) && text_of(member(member(j, "source"@)->0, "status"@)) == Some(r.source->0.status@)
            &&& r.uplink is None ==> member(j, "uplink"@) == Some(JsonView::Null)
            &&& r.uplink is Some ==> member(j, "uplink"@) == Some(stats_or_null(r.uplink))
        }),
{
    reveal_strlit("name");
    reveal_strlit("flow");
    reveal_strlit("uplink");
    reveal_strlit("source");
    assert("name"@.len() == 4 && "flow"@.len() == 4 && "uplink"@.len() == 6);
    assert("source"@.len() == 6);
    assert("name"@[0] == 'n' && "flow"@[0] == 'f');
    assert("uplink"@[0] == 'u' && "source"@[0] == 's');
    reveal_strlit("id");
    reveal_strlit("running");
    assert("id"@.len() == 2 && "running"@.len() == 7);
    reveal_strlit("status");
    assert("status"@.len() == 6);
}

/// Every measurement stands under its own name, and null where it was not reported.
pub proof fn law_a_measurement_stands_under_its_name(s: UplinkStatsReport)
    ensures
        ({
            let j = stats_or_null(Some(s));
            &&& member(j, "send_rate_mbps"@) == Some(reading_or_null(s.send_rate_mbps))
            &&& member(j, "rtt_ms"@) == Some(reading_or_null(s.rtt_ms))
            &&& member(j, "bytes_sent"@) == Some(uint_or_null(s.bytes_sent))
            &&& member(j, "bandwidth_mbps"@) == Some(reading_or_null(s.bandwidth_mbps))
            &&& member(j, "negotiated_latency_ms"@) == Some(small_or_null(s.negotiated_latency_ms))
            &&& member(j, "packets_sent"@) == Some(uint_or_null(s.packets_sent))
            &&& member(j, "packets_sent_lost"@) == Some(uint_or_null(s.packets_sent_lost))
            &&& member(j, "packets_sent_dropped"@) == Some(uint_or_null(s.packets_sent_dropped))
            &&& member(j, "packets_retransmitted"@) == Some(uint_or_null(s.packets_retransmitted))
            &&& member(j, "snd_buf_level_ms"@) == Some(small_or_null(s.snd_buf_level_ms))
        }),
        stats_or_null(None) == JsonView::Null,
{
    reveal_strlit("send_rate_mbps");
    reveal_strlit("rtt_ms");
    reveal_strlit("bytes_sent");
    reveal_strlit("bandwidth_mbps");
    reveal_strlit("negotiated_latency_ms");
    reveal_strlit("packets_sent");
    reveal_strlit("packets_sent_lost");
    reveal_strlit("packets_sent_dropped");
    reveal_strlit("packets_retransmitted");
    reveal_strlit("snd_buf_level_ms");
    assert("send_rate_mbps"@.len() == 14 && "rtt_ms"@.len() == 6 && "bytes_sent"@.len() == 10);
    assert("bandwidth_mbps"@.len() == 14 && "negotiated_latency_ms"@.len() == 21);
    assert("packets_sent"@.len() == 12 && "packets_sent_lost"@.len() == 17);
    assert("packets_sent_dropped"@.len() == 20 && "packets_retransmitted"@.len() == 21);
    assert("snd_buf_level_ms"@.len() == 16);
    assert("send_rate_mbps"@[0] == 's' && "bandwidth_mbps"@[0] == 'b');
    assert("negotiated_latency_ms"@[0] == 'n' && "packets_retransmitted"@[0] == 'p');
}

/// A value that is there is written as it is, and one that is not as null.
pub proof fn law_a_missing_value_is_null(n: u64, m: u32, r: Reading)
    ensures
        uint_or_null(Some(n)) == JsonView::Number(Number::PosInt(n)),
        uint_or_null(None) == JsonView::Null,
        small_or_null(Some(m)) == JsonView::Number(Number::PosInt(m as u64)),
        small_or_null(None) == JsonView::Null,
        r.bits != 0x8000_0000_0000_0000 ==> reading_or_null(Some(r)) == JsonView::Number(
            Number::Float(r.bits),
        ),
        reading_or_null(None) == JsonView::Null,
{
}

/// A device is listed with its name, its id and whether it is virtual, in order.
pub proof fn law_a_device_says_each_thing_under_its_name(s: Seq<DeviceReport>, i: int)
    requires
        0 <= i < s.len(),
    ensures
        devices_json(s).len() == s.len(),
        text_of(member(devices_json(s)[i], "name"@)) == Some(s[i].name@),
        text_of(member(devices_json(s)[i], "id"@)) == Some(s[i].id@),
        member(devices_json(s)[i], "virtual"@) == Some(JsonView::Bool(s[i].virtual_)),
{
    reveal_strlit("name");
    reveal_strlit("id");
    reveal_strlit("virtual");
    assert("name"@.len() == 4 && "id"@.len() == 2 && "virtual"@.len() == 7);
}

} // verus!
