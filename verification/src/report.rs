//! What `status`, `devices`, and `up` say: the report gathered from Strom and Open
//! Live, and its text.

use crate::config::{format_port_range, mask_passphrase, masked, range_text};
use crate::devices::{virtual_name, Device, is_probably_virtual};
use crate::flow::{is_ours, ours, uuid_text, Flow, FlowId};
use crate::heartbeat::{FlowState, InputStatus, Snapshot, Uplink};
use crate::openlive::Source;
use crate::run::{
    law_a_source_is_found_by_its_id_before_its_name, our_sources, port_source_text, sources_to_sweep, with_name, Cloud, Live, State,
};
use crate::text::{
    comes_before, copy_opt, dec, decimal, lemma_precedes_total, lemma_precedes_transitive, pad,
    padded, precedes, same_text, shorten, shortened,
};
use vstd::prelude::*;

verus! {

// ---------------------------------------------------------------------------
// The report
// ---------------------------------------------------------------------------

/// Everything `status` reports, gathered once and rendered as text or JSON.
#[derive(Debug)]
pub struct StatusReport {
    /// The `up` process, by its pidfile.
    pub process: ProcessReport,
    /// Where feeds go, or why that could not be worked out.
    pub uplink: Option<UplinkReport>,
    pub uplink_error: Option<String>,
    pub strom: EndpointReport,
    /// Absent when registration is off.
    pub open_live: Option<EndpointReport>,
    pub inputs: Vec<InputReport>,
}

#[derive(Clone, Copy, Debug)]
pub struct ProcessReport {
    pub running: bool,
    pub pid: Option<u32>,
}

#[derive(Debug)]
pub struct UplinkReport {
    pub host: String,
    pub ports: String,
    pub port_source: String,
}

#[derive(Debug)]
pub struct EndpointReport {
    pub url: String,
    pub reachable: bool,
    pub error: Option<String>,
}

/// One input, by name: its flow in Strom, that flow's uplink, and its source in
/// Open Live. Any of the three may be missing; that is what `status` is for.
#[derive(Debug)]
pub struct InputReport {
    pub name: String,
    pub flow: Option<FlowReport>,
    pub uplink: Option<UplinkStatsReport>,
    pub source: Option<SourceReport>,
}

#[derive(Debug)]
pub struct FlowReport {
    pub id: String,
    pub running: bool,
}

/// A measured quantity: the bits of the number as it was received, and its sign and
/// digits in the precision it is shown with.
#[derive(Clone, Copy, Debug, PartialEq, Eq, Structural)]
pub struct Reading {
    pub bits: u64,
    pub negative: bool,
    pub shown: u64,
}

/// The sender's view of the SRT link, as Strom's srtsink reports it. Counters are
/// totals for the current connection; a reconnect starts them over.
#[derive(Clone, Copy, Debug, PartialEq, Eq, Structural)]
pub struct UplinkStatsReport {
    /// Shown in hundredths of a Mbps.
    pub send_rate_mbps: Option<Reading>,
    /// Shown in milliseconds.
    pub rtt_ms: Option<Reading>,
    pub bytes_sent: Option<u64>,
    pub bandwidth_mbps: Option<Reading>,
    pub negotiated_latency_ms: Option<u32>,
    pub packets_sent: Option<u64>,
    pub packets_sent_lost: Option<u64>,
    pub packets_sent_dropped: Option<u64>,
    pub packets_retransmitted: Option<u64>,
    pub snd_buf_level_ms: Option<u32>,
}

impl Default for UplinkStatsReport {
    fn default() -> (r: Self)
        ensures
            r == (UplinkStatsReport {
                send_rate_mbps: None,
                rtt_ms: None,
                bytes_sent: None,
                bandwidth_mbps: None,
                negotiated_latency_ms: None,
                packets_sent: None,
                packets_sent_lost: None,
                packets_sent_dropped: None,
                packets_retransmitted: None,
                snd_buf_level_ms: None,
            }),
    {
        UplinkStatsReport {
            send_rate_mbps: None,
            rtt_ms: None,
            bytes_sent: None,
            bandwidth_mbps: None,
            negotiated_latency_ms: None,
            packets_sent: None,
            packets_sent_lost: None,
            packets_sent_dropped: None,
            packets_retransmitted: None,
            snd_buf_level_ms: None,
        }
    }
}

#[derive(Debug)]
pub struct SourceReport {
    pub id: String,
    pub status: String,
}

// ---------------------------------------------------------------------------
// Gathering
// ---------------------------------------------------------------------------

/// The gateway's own flows, in the order Strom lists them.
pub open spec fn our_flows(s: Seq<Flow>, gateway_id: Seq<char>) -> Seq<Flow>
    decreases s.len(),
{
    if s.len() == 0 {
        Seq::empty()
    } else if ours(s[0]@, gateway_id) {
        seq![s[0]] + our_flows(s.drop_first(), gateway_id)
    } else {
        our_flows(s.drop_first(), gateway_id)
    }
}

/// Keeps the gateway's own flows.
pub fn keep_ours(flows: Vec<Flow>, gateway_id: &str) -> (r: Vec<Flow>)
    ensures
        r@ == our_flows(flows@, gateway_id@),
{
    let ghost given = flows@;
    let mut flows = flows;
    let mut kept: Vec<Flow> = Vec::new();
    assert(kept@ + our_flows(flows@, gateway_id@) =~= our_flows(given, gateway_id@));
    while flows.len() > 0
        invariant
            kept@ + our_flows(flows@, gateway_id@) == our_flows(given, gateway_id@),
        decreases flows@.len(),
    {
        let ghost before = flows@;
        let ghost had = kept@;
        let flow = flows.remove(0);
        assert(flows@ =~= before.drop_first());
        if is_ours(&flow, gateway_id) {
            kept.push(flow);
            assert(kept@ + our_flows(flows@, gateway_id@) =~= had + (seq![before[0]] + our_flows(
                flows@,
                gateway_id@,
            )));
        }
    }
    assert(kept@ =~= kept@ + our_flows(flows@, gateway_id@));
    kept
}

/// The first flow with a name.
pub open spec fn flow_named(s: Seq<Flow>, name: Seq<char>) -> Option<Flow>
    decreases s.len(),
{
    if s.len() == 0 {
        None
    } else if s[0].name@ == name {
        Some(s[0])
    } else {
        flow_named(s.drop_first(), name)
    }
}

pub fn find_flow(flows: &Vec<Flow>, name: &str) -> (r: Option<usize>)
    ensures
        match r {
            Some(k) => k < flows@.len() && flow_named(flows@, name@) == Some(flows@[k as int]),
            None => flow_named(flows@, name@) is None,
        },
{
    let mut i: usize = 0;
    assert(flows@.subrange(0, flows@.len() as int) =~= flows@);
    while i < flows.len()
        invariant
            i <= flows@.len(),
            flow_named(flows@, name@) == flow_named(
                flows@.subrange(i as int, flows@.len() as int),
                name@,
            ),
        decreases flows@.len() - i,
    {
        if same_text(flows[i].name.as_str(), name) {
            return Some(i);
        }
        assert(flows@.subrange(i as int, flows@.len() as int).drop_first() =~= flows@.subrange(
            i + 1,
            flows@.len() as int,
        ));
        i = i + 1;
    }
    None
}

/// Each before the next, so none twice.
pub open spec fn strictly_ordered(s: Seq<String>) -> bool {
    forall|i: int, j: int| 0 <= i < j < s.len() ==> precedes((#[trigger] s[i])@, (#[trigger] s[j])@)
}

pub open spec fn lists(s: Seq<String>, name: Seq<char>) -> bool {
    exists|i: int| 0 <= i < s.len() && (#[trigger] s[i])@ == name
}

pub open spec fn names_a_flow(s: Seq<Flow>, name: Seq<char>) -> bool {
    exists|i: int| 0 <= i < s.len() && (#[trigger] s[i]).name@ == name
}

pub open spec fn names_a_source(s: Seq<Source>, name: Seq<char>) -> bool {
    exists|i: int| 0 <= i < s.len() && (#[trigger] s[i]).name@ == name
}

fn add_name(names: &mut Vec<String>, name: &String)
    requires
        strictly_ordered(old(names)@),
    ensures
        strictly_ordered(final(names)@),
        forall|n: Seq<char>| lists(final(names)@, n) <==> lists(old(names)@, n) || n == name@,
{
    let ghost before = names@;
    let mut at: usize = 0;
    while at < names.len() && comes_before(names[at].as_str(), name.as_str())
        invariant
            at <= names@.len(),
            names@ == before,
            forall|j: int| 0 <= j < at ==> precedes((#[trigger] before[j])@, name@),
        decreases names@.len() - at,
    {
        at = at + 1;
    }
    if at < names.len() && same_text(names[at].as_str(), name.as_str()) {
        assert(lists(before, name@));
        return;
    }
    names.insert(at, name.clone());
    proof {
        let now = names@;
        assert(now == before.insert(at as int, *name));
        assert forall|j: int| at <= j < before.len() implies precedes(name@, (#[trigger] before[j])@) by {
            lemma_precedes_total(before[at as int]@, name@);
            if j > at {
                lemma_precedes_transitive(name@, before[at as int]@, before[j]@);
            }
        }
        assert forall|i: int, j: int| 0 <= i < j < now.len() implies precedes(
            (#[trigger] now[i])@,
            (#[trigger] now[j])@,
        ) by {
            if i < at && j > at {
                assert(now[j] == before[j - 1]);
                assert(precedes(before[i]@, before[j - 1]@));
            } else if i > at {
                assert(now[i] == before[i - 1] && now[j] == before[j - 1]);
            } else if i == at {
                assert(now[j] == before[j - 1]);
            }
        }
        assert forall|n: Seq<char>| lists(now, n) <==> lists(before, n) || n == name@ by {
            if lists(before, n) {
                let i = choose|i: int| 0 <= i < before.len() && (#[trigger] before[i])@ == n;
                if i < at {
                    assert(now[i]@ == n);
                } else {
                    assert(now[i + 1]@ == n);
                }
            }
            if n == name@ {
                assert(now[at as int]@ == n);
            }
            if lists(now, n) {
                let i = choose|i: int| 0 <= i < now.len() && (#[trigger] now[i])@ == n;
                if i < at {
                    assert(before[i]@ == n);
                } else if i > at {
                    assert(before[i - 1]@ == n);
                }
            }
        }
    }
}

/// The names of the inputs: of every flow and every source, each once, in order.
pub fn input_names(flows: &Vec<Flow>, sources: &Vec<Source>) -> (r: Vec<String>)
    ensures
        strictly_ordered(r@),
        forall|n: Seq<char>|
            lists(r@, n) <==> names_a_flow(flows@, n) || names_a_source(sources@, n),
{
    let mut names: Vec<String> = Vec::new();
    let mut i: usize = 0;
    while i < flows.len()
        invariant
            i <= flows@.len(),
            strictly_ordered(names@),
            forall|n: Seq<char>| lists(names@, n) <==> names_a_flow(flows@.subrange(0, i as int), n),
        decreases flows@.len() - i,
    {
        add_name(&mut names, &flows[i].name);
        proof {
            let upto = flows@.subrange(0, i as int);
            let next = flows@.subrange(0, i + 1);
            assert forall|n: Seq<char>| lists(names@, n) <==> names_a_flow(next, n) by {
                if names_a_flow(upto, n) {
                    let k = choose|k: int| 0 <= k < upto.len() && (#[trigger] upto[k]).name@ == n;
                    assert(next[k].name@ == n);
                }
                if n == flows@[i as int].name@ {
                    assert(next[i as int].name@ == n);
                }
                if names_a_flow(next, n) {
                    let k = choose|k: int| 0 <= k < next.len() && (#[trigger] next[k]).name@ == n;
                    if k < i {
                        assert(upto[k].name@ == n);
                    }
                }
            }
        }
        i = i + 1;
    }
    assert(flows@.subrange(0, flows@.len() as int) =~= flows@);
    let mut i: usize = 0;
    while i < sources.len()
        invariant
            i <= sources@.len(),
            strictly_ordered(names@),
            forall|n: Seq<char>|
                lists(names@, n) <==> names_a_flow(flows@, n) || names_a_source(
                    sources@.subrange(0, i as int),
                    n,
                ),
        decreases sources@.len() - i,
    {
        add_name(&mut names, &sources[i].name);
        proof {
            let upto = sources@.subrange(0, i as int);
            let next = sources@.subrange(0, i + 1);
            assert forall|n: Seq<char>|
                lists(names@, n) <==> names_a_flow(flows@, n) || names_a_source(next, n) by {
                if names_a_source(upto, n) {
                    let k = choose|k: int| 0 <= k < upto.len() && (#[trigger] upto[k]).name@ == n;
                    assert(next[k].name@ == n);
                }
                if n == sources@[i as int].name@ {
                    assert(next[i as int].name@ == n);
                }
                if names_a_source(next, n) {
                    let k = choose|k: int| 0 <= k < next.len() && (#[trigger] next[k]).name@ == n;
                    if k < i {
                        assert(upto[k].name@ == n);
                    }
                }
            }
        }
        i = i + 1;
    }
    assert(sources@.subrange(0, sources@.len() as int) =~= sources@);
    names
}

/// What Strom said about the uplinks, by flow.
#[derive(Debug)]
pub struct Samples {
    pub entries: Vec<(FlowId, UplinkStatsReport)>,
}

pub open spec fn sample_of(s: Seq<(FlowId, UplinkStatsReport)>, id: FlowId) -> Option<
    UplinkStatsReport,
>
    decreases s.len(),
{
    if s.len() == 0 {
        None
    } else if s[0].0 == id {
        Some(s[0].1)
    } else {
        sample_of(s.drop_first(), id)
    }
}

fn find_sample(samples: &Samples, id: FlowId) -> (r: Option<UplinkStatsReport>)
    ensures
        r == sample_of(samples.entries@, id),
{
    let entries = &samples.entries;
    let mut i: usize = 0;
    assert(entries@.subrange(0, entries@.len() as int) =~= entries@);
    while i < entries.len()
        invariant
            i <= entries@.len(),
            entries == &samples.entries,
            sample_of(entries@, id) == sample_of(
                entries@.subrange(i as int, entries@.len() as int),
                id,
            ),
        decreases entries@.len() - i,
    {
        if entries[i].0 == id {
            return Some(entries[i].1);
        }
        assert(entries@.subrange(i as int, entries@.len() as int).drop_first()
            =~= entries@.subrange(i + 1, entries@.len() as int));
        i = i + 1;
    }
    None
}

/// One input's report, by its name.
pub open spec fn reports(
    r: InputReport,
    flows: Seq<Flow>,
    sources: Seq<Source>,
    samples: Seq<(FlowId, UplinkStatsReport)>,
) -> bool {
    &&& match flow_named(flows, r.name@) {
        Some(f) => {
            &&& r.flow is Some
            &&& r.flow->0.id@ == uuid_text(f.id.value)
            &&& r.flow->0.running == f.running
            &&& r.uplink == sample_of(samples, f.id)
        },
        None => r.flow is None && r.uplink is None,
    }
    &&& match with_name(sources, r.name@) {
        Some(s) => r.source is Some && r.source->0.id@ == s.id@ && r.source->0.status@ == s.status@,
        None => r.source is None,
    }
}

fn report_input(name: &str, flows: &Vec<Flow>, sources: &Vec<Source>, samples: &Samples) -> (r:
    InputReport)
    ensures
        r.name@ == name@,
        reports(r, flows@, sources@, samples.entries@),
{
    let (flow, uplink) = match find_flow(flows, name) {
        Some(k) => (
            Some(FlowReport { id: flows[k].id.text(), running: flows[k].running }),
            find_sample(samples, flows[k].id),
        ),
        None => (None, None),
    };
    let source = match crate::run::find_by_name(sources, name) {
        Some(k) => Some(
            SourceReport { id: sources[k].id.clone(), status: sources[k].status.clone() },
        ),
        None => None,
    };
    InputReport { name: name.to_owned(), flow, uplink, source }
}

pub open spec fn reported(r: Seq<InputReport>, name: Seq<char>) -> bool {
    exists|i: int| 0 <= i < r.len() && (#[trigger] r[i]).name@ == name
}

/// Every input that has a flow or a source of ours, by name, in order.
pub open spec fn report_inputs(
    r: Seq<InputReport>,
    flows: Seq<Flow>,
    sources: Seq<Source>,
    samples: Seq<(FlowId, UplinkStatsReport)>,
) -> bool {
    &&& forall|i: int, j: int|
        0 <= i < j < r.len() ==> precedes((#[trigger] r[i]).name@, (#[trigger] r[j]).name@)
    &&& forall|i: int| 0 <= i < r.len() ==> reports(#[trigger] r[i], flows, sources, samples)
    &&& forall|n: Seq<char>| #[trigger]
        reported(r, n) <==> names_a_flow(flows, n) || names_a_source(sources, n)
}

/// What was found out for a report.
#[derive(Debug)]
pub struct Gathered {
    /// The pid of a running gateway, where there is one.
    pub pid: Option<u32>,
    /// Where feeds go, or why that could not be worked out.
    pub cloud: Result<Cloud, String>,
    pub strom_url: String,
    /// All of Strom's flows, or why it could not be asked.
    pub flows: Result<Vec<Flow>, String>,
    /// Absent when registration is off; else the address, and all sources or why they
    /// could not be listed.
    pub open_live: Option<(String, Result<Vec<Source>, String>)>,
    pub samples: Samples,
}

pub open spec fn listed_flows(g: Gathered, gateway_id: Seq<char>) -> Seq<Flow> {
    match g.flows {
        Ok(flows) => our_flows(flows@, gateway_id),
        Err(_) => Seq::empty(),
    }
}

pub open spec fn listed_sources(g: Gathered, gateway_name: Seq<char>) -> Seq<Source> {
    match g.open_live {
        Some((_, Ok(sources))) => our_sources(sources@, gateway_name),
        _ => Seq::empty(),
    }
}

pub open spec fn endpoint_of<T>(r: EndpointReport, url: Seq<char>, answer: Result<T, String>) -> bool {
    &&& r.url@ == url
    &&& r.reachable == (answer is Ok)
    &&& match answer {
        Ok(_) => r.error is None,
        Err(e) => r.error == Some(e),
    }
}

/// Puts a report together from what Strom and Open Live said.
pub fn gather_status(g: Gathered, gateway_id: &str, gateway_name: &str) -> (r: StatusReport)
    ensures
        r.process.running == (g.pid is Some),
        r.process.pid == g.pid,
        match g.cloud {
            Ok(cloud) => {
                &&& r.uplink is Some
                &&& r.uplink->0.host == cloud.host
                &&& r.uplink->0.ports@ == range_text(cloud.ports)
                &&& r.uplink->0.port_source@ == port_source_text(cloud.port_source)
                &&& r.uplink_error is None
            },
            Err(e) => r.uplink is None && r.uplink_error == Some(e),
        },
        endpoint_of(r.strom, g.strom_url@, g.flows),
        match g.open_live {
            Some((url, sources)) => r.open_live is Some && endpoint_of(
                r.open_live->0,
                url@,
                sources,
            ),
            None => r.open_live is None,
        },
        report_inputs(
            r.inputs@,
            listed_flows(g, gateway_id@),
            listed_sources(g, gateway_name@),
            g.samples.entries@,
        ),
{
    let (uplink, uplink_error) = match g.cloud {
        Ok(cloud) => (
            Some(
                UplinkReport {
                    ports: format_port_range(&cloud.ports),
                    port_source: cloud.port_source.text(),
                    host: cloud.host,
                },
            ),
            None,
        ),
        Err(e) => (None, Some(e)),
    };
    let (flows, strom) = match g.flows {
        Ok(flows) => (
            keep_ours(flows, gateway_id),
            EndpointReport { url: g.strom_url, reachable: true, error: None },
        ),
        Err(e) => (
            Vec::new(),
            EndpointReport { url: g.strom_url, reachable: false, error: Some(e) },
        ),
    };
    let (sources, open_live) = match g.open_live {
        Some((url, Ok(sources))) => (
            sources_to_sweep(&sources, gateway_name),
            Some(EndpointReport { url, reachable: true, error: None }),
        ),
        Some((url, Err(e))) => (
            Vec::new(),
            Some(EndpointReport { url, reachable: false, error: Some(e) }),
        ),
        None => (Vec::new(), None),
    };
    assert(flows@ =~= listed_flows(g, gateway_id@));
    assert(sources@ =~= listed_sources(g, gateway_name@));
    let names = input_names(&flows, &sources);
    let mut inputs: Vec<InputReport> = Vec::new();
    let mut i: usize = 0;
    while i < names.len()
        invariant
            i <= names@.len(),
            inputs@.len() == i,
            forall|j: int| 0 <= j < i ==> (#[trigger] inputs@[j]).name@ == names@[j]@,
            forall|j: int|
                0 <= j < i ==> reports(
                    #[trigger] inputs@[j],
                    flows@,
                    sources@,
                    g.samples.entries@,
                ),
        decreases names@.len() - i,
    {
        inputs.push(report_input(names[i].as_str(), &flows, &sources, &g.samples));
        i = i + 1;
    }
    proof {
        assert forall|i: int, j: int| 0 <= i < j < inputs@.len() implies precedes(
            (#[trigger] inputs@[i]).name@,
            (#[trigger] inputs@[j]).name@,
        ) by {
            assert(precedes(names@[i]@, names@[j]@));
        }
        assert forall|n: Seq<char>| #[trigger]
            reported(inputs@, n) <==> names_a_flow(flows@, n) || names_a_source(sources@, n) by {
            assert(lists(names@, n) <==> names_a_flow(flows@, n) || names_a_source(sources@, n));
            if lists(names@, n) {
                let k = choose|k: int| 0 <= k < names@.len() && (#[trigger] names@[k])@ == n;
                assert(inputs@[k].name@ == n);
            }
            if reported(inputs@, n) {
                let k = choose|k: int|
                    0 <= k < inputs@.len() && (#[trigger] inputs@[k]).name@ == n;
                assert(names@[k]@ == n);
            }
        }
    }
    StatusReport {
        process: ProcessReport { running: g.pid.is_some(), pid: g.pid },
        uplink,
        uplink_error,
        strom,
        open_live,
        inputs,
    }
}

// ---------------------------------------------------------------------------
// Text
// ---------------------------------------------------------------------------

/// Two digits behind the point.
pub open spec fn hundredths_text(n: nat) -> Seq<char> {
    dec(n / 100) + "."@ + dec(n % 100 / 10) + dec(n % 10)
}

pub fn show_hundredths(n: u64) -> (r: String)
    ensures
        r@ == hundredths_text(n as nat),
{
    decimal(n / 100).concat(".").concat(decimal(n % 100 / 10).as_str()).concat(
        decimal(n % 10).as_str(),
    )
}

pub open spec fn minus_of(r: Reading) -> Seq<char> {
    if r.negative {
        "-"@
    } else {
        ""@
    }
}

/// A reading that is shown with two digits behind the point.
pub open spec fn rate_text(r: Reading) -> Seq<char> {
    minus_of(r) + hundredths_text(r.shown as nat)
}

/// A reading that is shown as a whole number.
pub open spec fn whole_text(r: Reading) -> Seq<char> {
    minus_of(r) + dec(r.shown as nat)
}

fn write_minus(r: Reading) -> (m: String)
    ensures
        m@ == minus_of(r),
{
    if r.negative {
        "-".to_owned()
    } else {
        "".to_owned()
    }
}

pub fn show_rate(r: Reading) -> (t: String)
    ensures
        t@ == rate_text(r),
{
    write_minus(r).concat(show_hundredths(r.shown).as_str())
}

pub fn show_whole(r: Reading) -> (t: String)
    ensures
        t@ == whole_text(r),
{
    write_minus(r).concat(decimal(r.shown).as_str())
}

pub open spec fn flow_word(flow: Option<FlowReport>) -> Seq<char> {
    match flow {
        Some(f) => if f.running {
            "running"@
        } else {
            "stopped"@
        },
        None => "-"@,
    }
}

pub open spec fn uplink_words(flow: Option<FlowReport>, stats: Option<UplinkStatsReport>) -> Seq<
    char,
> {
    match (flow, stats) {
        (None, _) => "-"@,
        (Some(_), None) => "no receiver"@,
        (Some(_), Some(s)) => match (s.send_rate_mbps, s.rtt_ms) {
            (Some(rate), Some(rtt)) => rate_text(rate) + " Mbps, rtt "@ + whole_text(rtt)
                + " ms"@,
            _ => dec(
                (match s.bytes_sent {
                    Some(n) => n,
                    None => 0,
                }) as nat,
            ) + " bytes sent"@,
        },
    }
}

pub open spec fn source_word(source: Option<SourceReport>) -> Seq<char> {
    match source {
        Some(s) => s.status@,
        None => "not registered"@,
    }
}

/// A row of the status table.
pub open spec fn status_row(input: InputReport) -> Seq<char> {
    padded(shortened(input.name@, 36), 36) + " "@ + padded(flow_word(input.flow), 9) + " "@
        + padded(uplink_words(input.flow, input.uplink), 26) + " "@ + source_word(input.source)
        + "\n"@
}

pub open spec fn status_rows(inputs: Seq<InputReport>) -> Seq<char>
    decreases inputs.len(),
{
    if inputs.len() == 0 {
        Seq::empty()
    } else {
        status_rows(inputs.drop_last()) + status_row(inputs.last())
    }
}

pub open spec fn process_line(r: StatusReport) -> Seq<char> {
    match r.process.pid {
        Some(pid) => "Gateway running (pid "@ + dec(pid as nat) + ").\n"@,
        None => "No gateway process running.\n"@,
    }
}

pub open spec fn uplink_lines(r: StatusReport) -> Seq<char> {
    match (r.uplink, r.uplink_error) {
        (Some(u), _) => "Uplink to "@ + u.host@ + ", SRT ports "@ + u.ports@ + " from "@
            + u.port_source@ + ".\n\n"@,
        (None, Some(err)) => "Uplink not resolved: "@ + err@ + ".\n\n"@,
        (None, None) => Seq::empty(),
    }
}

pub open spec fn strom_line(r: StatusReport) -> Seq<char> {
    match r.strom.error {
        Some(err) => "Strom at "@ + r.strom.url@ + " is not reachable ("@ + err@ + ").\n"@,
        None => Seq::empty(),
    }
}

pub open spec fn open_live_line(r: StatusReport) -> Seq<char> {
    match r.open_live {
        Some(o) => match o.error {
            Some(err) => "Open Live is not reachable ("@ + err@ + ").\n"@,
            None => Seq::empty(),
        },
        None => Seq::empty(),
    }
}

pub open spec fn status_head() -> Seq<char> {
    padded("INPUT"@, 36) + " "@ + padded("FLOW"@, 9) + " "@ + padded("UPLINK"@, 26)
        + " OPEN LIVE\n"@
}

/// The whole report as text: who runs, where feeds go, what cannot be reached, and a
/// row per input.
pub open spec fn status_text(r: StatusReport) -> Seq<char> {
    process_line(r) + uplink_lines(r) + strom_line(r) + open_live_line(r) + if r.inputs@.len()
        == 0 {
        "Nothing of ours in Strom or Open Live.\n"@
    } else {
        status_head() + status_rows(r.inputs@)
    }
}

fn say_uplink(flow: &Option<FlowReport>, stats: &Option<UplinkStatsReport>) -> (r: String)
    ensures
        r@ == uplink_words(*flow, *stats),
{
    if flow.is_none() {
        return "-".to_owned();
    }
    match stats {
        None => "no receiver".to_owned(),
        Some(s) => match (s.send_rate_mbps, s.rtt_ms) {
            (Some(rate), Some(rtt)) => show_rate(rate).concat(" Mbps, rtt ").concat(
                show_whole(rtt).as_str(),
            ).concat(" ms"),
            _ => {
                let n: u64 = match s.bytes_sent {
                    Some(n) => n,
                    None => 0,
                };
                decimal(n).concat(" bytes sent")
            },
        },
    }
}

fn say_status_row(input: &InputReport) -> (r: String)
    ensures
        r@ == status_row(*input),
{
    let flow_state = match &input.flow {
        Some(f) => if f.running {
            "running"
        } else {
            "stopped"
        },
        None => "-",
    };
    let uplink = say_uplink(&input.flow, &input.uplink);
    let source = match &input.source {
        Some(s) => s.status.clone(),
        None => "not registered".to_owned(),
    };
    pad(shorten(input.name.as_str(), 36).as_str(), 36).concat(" ").concat(
        pad(flow_state, 9).as_str(),
    ).concat(" ").concat(pad(uplink.as_str(), 26).as_str()).concat(" ").concat(
        source.as_str(),
    ).concat("\n")
}

fn say_uplink_lines(r: &StatusReport) -> (out: String)
    ensures
        out@ == uplink_lines(*r),
{
    match (&r.uplink, &r.uplink_error) {
        (Some(u), _) => "Uplink to ".to_owned().concat(u.host.as_str()).concat(
            ", SRT ports ",
        ).concat(u.ports.as_str()).concat(" from ").concat(u.port_source.as_str()).concat(".\n\n"),
        (None, Some(err)) => "Uplink not resolved: ".to_owned().concat(err.as_str()).concat(
            ".\n\n",
        ),
        (None, None) => String::new(),
    }
}

fn say_unreachable(r: &StatusReport) -> (out: (String, String))
    ensures
        out.0@ == strom_line(*r),
        out.1@ == open_live_line(*r),
{
    let strom = match &r.strom.error {
        Some(err) => "Strom at ".to_owned().concat(r.strom.url.as_str()).concat(
            " is not reachable (",
        ).concat(err.as_str()).concat(").\n"),
        None => String::new(),
    };
    let open_live = match &r.open_live {
        Some(o) => match &o.error {
            Some(err) => "Open Live is not reachable (".to_owned().concat(err.as_str()).concat(
                ").\n",
            ),
            None => String::new(),
        },
        None => String::new(),
    };
    (strom, open_live)
}

pub fn render_status(r: &StatusReport) -> (text: String)
    ensures
        text@ == status_text(*r),
{
    let mut out = match r.process.pid {
        Some(pid) => "Gateway running (pid ".to_owned().concat(
            decimal(pid as u64).as_str(),
        ).concat(").\n"),
        None => "No gateway process running.\n".to_owned(),
    };
    out.append(say_uplink_lines(r).as_str());
    let (strom, open_live) = say_unreachable(r);
    out.append(strom.as_str());
    out.append(open_live.as_str());
    if r.inputs.len() == 0 {
        out.append("Nothing of ours in Strom or Open Live.\n");
        return out;
    }
    let head = pad("INPUT", 36).concat(" ").concat(pad("FLOW", 9).as_str()).concat(" ").concat(
        pad("UPLINK", 26).as_str(),
    ).concat(" OPEN LIVE\n");
    let mut rows = String::new();
    let mut i: usize = 0;
    while i < r.inputs.len()
        invariant
            i <= r.inputs@.len(),
            rows@ == status_rows(r.inputs@.subrange(0, i as int)),
        decreases r.inputs@.len() - i,
    {
        assert(r.inputs@.subrange(0, i + 1).drop_last() =~= r.inputs@.subrange(0, i as int));
        rows.append(say_status_row(&r.inputs[i]).as_str());
        i = i + 1;
    }
    assert(r.inputs@.subrange(0, r.inputs@.len() as int) =~= r.inputs@);
    let table = head.concat(rows.as_str());
    out.append(table.as_str());
    out
}

/// A reachable Strom and a reachable Open Live are not mentioned: the lines between the
/// first one and the table are about what is wrong, or where feeds go.
pub proof fn law_what_is_reachable_is_not_mentioned(r: StatusReport)
    requires
        r.strom.error is None,
        r.open_live is Some ==> r.open_live->0.error is None,
    ensures
        strom_line(r) == Seq::<char>::empty(),
        open_live_line(r) == Seq::<char>::empty(),
{
}

/// One capture device, as `devices` reports it.
#[derive(Debug)]
pub struct DeviceReport {
    pub name: String,
    pub id: String,
    /// Skipped by `up` unless `--all`: it produces nothing on its own.
    pub virtual_: bool,
}

/// The report of each device, in the order given.
pub fn report_devices(all: &Vec<Device>) -> (r: Vec<DeviceReport>)
    ensures
        r@.len() == all@.len(),
        forall|i: int|
            0 <= i < all@.len() ==> (#[trigger] r@[i]).name@ == all@[i].name@ && r@[i].id@
                == all@[i].id@ && r@[i].virtual_ == virtual_name(all@[i].name@),
{
    let mut out: Vec<DeviceReport> = Vec::new();
    let mut i: usize = 0;
    while i < all.len()
        invariant
            i <= all@.len(),
            out@.len() == i,
            forall|j: int|
                0 <= j < i ==> (#[trigger] out@[j]).name@ == all@[j].name@ && out@[j].id@
                    == all@[j].id@ && out@[j].virtual_ == virtual_name(all@[j].name@),
        decreases all@.len() - i,
    {
        out.push(
            DeviceReport {
                name: all[i].name.clone(),
                id: all[i].id.clone(),
                virtual_: is_probably_virtual(&all[i]),
            },
        );
        i = i + 1;
    }
    out
}

pub open spec fn device_row(d: DeviceReport) -> Seq<char> {
    padded(shortened(d.name@, 30), 30) + " "@ + padded(shortened(d.id@, 24), 24) + " "@ + (
    if d.virtual_ {
        "virtual, skipped unless --all"@
    } else {
        ""@
    }) + "\n"@
}

pub open spec fn device_rows(s: Seq<DeviceReport>) -> Seq<char>
    decreases s.len(),
{
    if s.len() == 0 {
        Seq::empty()
    } else {
        device_rows(s.drop_last()) + device_row(s.last())
    }
}

pub open spec fn devices_text(all: Seq<DeviceReport>) -> Seq<char> {
    if all.len() == 0 {
        "Strom reports no video sources on this machine.\n"@
    } else {
        padded("DEVICE"@, 30) + " "@ + padded("ID"@, 24) + " NOTE\n"@ + device_rows(all)
            + "\n`up` starts all of these except the virtual ones; `up --devices \"FaceTime\"` picks by name or id.\n"@
    }
}

pub fn render_devices(all: &Vec<DeviceReport>) -> (r: String)
    ensures
        r@ == devices_text(all@),
{
    if all.len() == 0 {
        return "Strom reports no video sources on this machine.\n".to_owned();
    }
    let mut out = pad("DEVICE", 30).concat(" ").concat(pad("ID", 24).as_str()).concat(" NOTE\n");
    let mut rows = String::new();
    let mut i: usize = 0;
    while i < all.len()
        invariant
            i <= all@.len(),
            rows@ == device_rows(all@.subrange(0, i as int)),
        decreases all@.len() - i,
    {
        assert(all@.subrange(0, i + 1).drop_last() =~= all@.subrange(0, i as int));
        let note = if all[i].virtual_ {
            "virtual, skipped unless --all"
        } else {
            ""
        };
        let row = pad(shorten(all[i].name.as_str(), 30).as_str(), 30).concat(" ").concat(
            pad(shorten(all[i].id.as_str(), 24).as_str(), 24).as_str(),
        ).concat(" ").concat(note).concat("\n");
        rows.append(row.as_str());
        i = i + 1;
    }
    assert(all@.subrange(0, all@.len() as int) =~= all@);
    out.append(rows.as_str());
    out.append(
        "\n`up` starts all of these except the virtual ones; `up --devices \"FaceTime\"` picks by name or id.\n",
    );
    out
}

// ---------------------------------------------------------------------------
// What `up` says
// ---------------------------------------------------------------------------

/// A quotient to the nearest whole number, a tie to the even one.
pub open spec fn nearest(n: int, d: int) -> int {
    let q = n / d;
    let twice = 2 * (n % d);
    if twice > d || (twice == d && q % 2 == 1) {
        q + 1
    } else {
        q
    }
}

/// What a number of inputs take of the uplink, in whole Mbps.
pub fn total_mbps(inputs: u32, bitrate_kbps: u32) -> (r: u64)
    ensures
        r == nearest(inputs as int * bitrate_kbps as int, 1000),
{
    assert(inputs as int * bitrate_kbps as int <= 0xffff_ffff * 0xffff_ffff) by (nonlinear_arith)
        requires
            0 <= inputs <= 0xffff_ffff,
            0 <= bitrate_kbps <= 0xffff_ffff,
    ;
    assert(inputs as int * bitrate_kbps as int >= 0) by (nonlinear_arith)
        requires
            0 <= inputs,
            0 <= bitrate_kbps,
    ;
    let total: u64 = inputs as u64 * bitrate_kbps as u64;
    let q: u64 = total / 1000;
    let twice: u64 = 2 * (total % 1000);
    if twice > 1000 || (twice == 1000 && q % 2 == 1) {
        q + 1
    } else {
        q
    }
}

/// The line that says what is about to start. Each input costs an encoder and its share
/// of the uplink, which is easy to overlook when one command starts all of them.
pub fn bring_up_line(inputs: u32, cloud: &Cloud, bitrate_kbps: u32) -> (r: String)
    ensures
        r@ == "Bringing up "@ + dec(inputs as nat) + " input(s) to "@ + cloud.host@ + ", "@ + (
        "SRT ports "@ + range_text(cloud.ports) + " from "@ + port_source_text(cloud.port_source))
            + ", about "@ + dec(nearest(inputs as int * bitrate_kbps as int, 1000) as nat)
            + " Mbps in total."@,
{
    let mbps: u64 = total_mbps(inputs, bitrate_kbps);
    "Bringing up ".to_owned().concat(decimal(inputs as u64).as_str()).concat(
        " input(s) to ",
    ).concat(cloud.host.as_str()).concat(", ").concat(cloud.describe_ports().as_str()).concat(
        ", about ",
    ).concat(decimal(mbps).as_str()).concat(" Mbps in total.")
}

pub open spec fn summary_row(l: Live) -> Seq<char> {
    padded(shortened(l.input.name@, 36), 36) + " "@ + padded(dec(l.input.endpoint.port as nat), 6)
        + " "@ + masked(l.input.endpoint.cloud_address()) + "\n"@
}

pub open spec fn summary_rows(live: Seq<Live>) -> Seq<char>
    decreases live.len(),
{
    if live.len() == 0 {
        Seq::empty()
    } else {
        summary_rows(live.drop_last()) + summary_row(live.last())
    }
}

/// The table of what was started. The passphrase stays off the terminal.
pub fn summary(live: &Vec<Live>) -> (r: String)
    ensures
        r@ == "\n"@ + padded("INPUT"@, 36) + " "@ + padded("PORT"@, 6) + " REGISTERED ADDRESS\n"@
            + summary_rows(live@)
            + "\nAssign these in Studio and activate the production; they read as inactive until\nsomething is receiving them. Ctrl-C stops and removes them.\n\n"@,
{
    let mut out = "\n".to_owned().concat(pad("INPUT", 36).as_str()).concat(" ").concat(
        pad("PORT", 6).as_str(),
    ).concat(" REGISTERED ADDRESS\n");
    let mut rows = String::new();
    let mut i: usize = 0;
    while i < live.len()
        invariant
            i <= live@.len(),
            rows@ == summary_rows(live@.subrange(0, i as int)),
        decreases live@.len() - i,
    {
        assert(live@.subrange(0, i + 1).drop_last() =~= live@.subrange(0, i as int));
        let row = pad(shorten(live[i].input.name.as_str(), 36).as_str(), 36).concat(" ").concat(
            pad(decimal(live[i].input.endpoint.port as u64).as_str(), 6).as_str(),
        ).concat(" ").concat(
            mask_passphrase(live[i].input.endpoint.cloud_uri().as_str()).as_str(),
        ).concat("\n");
        rows.append(row.as_str());
        i = i + 1;
    }
    assert(live@.subrange(0, live@.len() as int) =~= live@);
    out.append(rows.as_str());
    out.append(
        "\nAssign these in Studio and activate the production; they read as inactive until\nsomething is receiving them. Ctrl-C stops and removes them.\n\n",
    );
    out
}

/// Cut to a column, with an ellipsis where something was cut.
pub fn truncate(s: &str, width: usize) -> (r: String)
    ensures
        r@ == shortened(s@, width as int),
{
    shorten(s, width)
}

/// A text that is cut to a column fits it.
pub proof fn law_a_cut_text_fits_its_column(s: Seq<char>, width: int)
    requires
        width > 0,
    ensures
        shortened(s, width).len() <= width,
        s.len() > width ==> shortened(s, width).len() == width,
{
}

// ---------------------------------------------------------------------------
// What the heartbeat says
// ---------------------------------------------------------------------------

/// A flow plays while its feed is on air or waits for a receiver.
pub open spec fn flow_state_of(state: State) -> FlowState {
    match state {
        State::OnAir | State::Waiting => FlowState::Playing,
        _ => FlowState::Idle,
    }
}

/// How many feeds are delivering.
pub open spec fn on_air(live: Seq<Live>) -> nat
    decreases live.len(),
{
    if live.len() == 0 {
        0
    } else {
        on_air(live.drop_last()) + if live.last().state is OnAir {
            1nat
        } else {
            0nat
        }
    }
}

/// What is known of one feed: its input, its flow and source, and what its receiver
/// measured, where something receives it.
pub open spec fn status_of(s: InputStatus, l: Live, uplink: Option<Uplink>) -> bool {
    &&& s.input_id == l.input.id
    &&& s.name == l.input.name
    &&& s.flow_state == flow_state_of(l.state)
    &&& s.source_id == l.source_id
    &&& s.uplink == uplink
}

fn input_status(l: &Live, uplink: Option<Uplink>) -> (r: InputStatus)
    ensures
        status_of(r, *l, uplink),
{
    InputStatus {
        input_id: l.input.id.clone(),
        name: l.input.name.clone(),
        flow_state: match &l.state {
            State::OnAir => FlowState::Playing,
            State::Waiting => FlowState::Playing,
            _ => FlowState::Idle,
        },
        source_id: copy_opt(&l.source_id),
        uplink,
    }
}

/// What the heartbeat says of the feeds, with what each uplink measured last. A feed
/// without a measurement has none.
pub fn snapshot(host: &str, version: &str, live: &Vec<Live>, uplinks: &Vec<Option<Uplink>>) -> (r:
    Snapshot)
    ensures
        r.host@ == host@,
        r.strom_version is None,
        r.ingest_version@ == version@,
        r.device_count == live@.len(),
        r.streaming_count == on_air(live@),
        r.inputs@.len() == live@.len(),
        forall|i: int|
            0 <= i < live@.len() ==> status_of(
                #[trigger] r.inputs@[i],
                live@[i],
                if i < uplinks@.len() {
                    uplinks@[i]
                } else {
                    None
                },
            ),
{
    let mut inputs: Vec<InputStatus> = Vec::new();
    let mut streaming: usize = 0;
    let mut i: usize = 0;
    while i < live.len()
        invariant
            i <= live@.len(),
            streaming <= i,
            streaming == on_air(live@.subrange(0, i as int)),
            inputs@.len() == i,
            forall|k: int|
                0 <= k < i ==> status_of(
                    #[trigger] inputs@[k],
                    live@[k],
                    if k < uplinks@.len() {
                        uplinks@[k]
                    } else {
                        None
                    },
                ),
        decreases live@.len() - i,
    {
        let ghost upto = live@.subrange(0, i + 1);
        assert(upto.drop_last() =~= live@.subrange(0, i as int));
        if let State::OnAir = &live[i].state {
            streaming = streaming + 1;
        }
        let uplink: Option<Uplink> = if i < uplinks.len() {
            uplinks[i]
        } else {
            None
        };
        inputs.push(input_status(&live[i], uplink));
        i = i + 1;
    }
    assert(live@.subrange(0, live@.len() as int) =~= live@);
    Snapshot {
        host: host.to_owned(),
        strom_version: None,
        ingest_version: version.to_owned(),
        device_count: live.len(),
        streaming_count: streaming,
        inputs,
    }
}

// ---------------------------------------------------------------------------
// What a report amounts to
// ---------------------------------------------------------------------------

/// Rounding goes to the nearest whole number, to the even one from halfway.
pub proof fn law_the_nearest_is_at_most_half_away(n: int, d: int)
    requires
        d > 0,
    ensures
        -d <= 2 * (nearest(n, d) * d - n) <= d,
        2 * (nearest(n, d) * d - n) == d || 2 * (n - nearest(n, d) * d) == d ==> nearest(n, d) % 2
            == 0,
{
    let q = n / d;
    let r = n % d;
    vstd::arithmetic::div_mod::lemma_fundamental_div_mod(n, d);
    vstd::arithmetic::div_mod::lemma_mod_bound(n, d);
    assert(n == d * q + r && 0 <= r < d);
    assert((q + 1) * d == d * q + d) by (nonlinear_arith);
    assert(q * d == d * q) by (nonlinear_arith);
}

/// The flows that are reported are exactly those of the gateway, in the order in which
/// Strom lists them, and the sources those whose names carry the gateway's own. Where
/// either could not be asked, none are.
pub proof fn law_what_is_reported_is_the_gateways_own(
    g: Gathered,
    gateway_id: Seq<char>,
    gateway_name: Seq<char>,
)
    ensures
        g.flows is Ok ==> listed_flows(g, gateway_id) == g.flows->Ok_0@.filter(
            |x: Flow| ours(x@, gateway_id),
        ),
        g.flows is Err ==> listed_flows(g, gateway_id).len() == 0,
        g.open_live is None ==> listed_sources(g, gateway_name).len() == 0,
        g.open_live is Some && (g.open_live->0).1 is Err ==> listed_sources(g, gateway_name).len()
            == 0,
        g.open_live is Some && (g.open_live->0).1 is Ok ==> listed_sources(g, gateway_name)
            == our_sources(((g.open_live->0).1)->Ok_0@, gateway_name),
{
    if let Ok(flows) = g.flows {
        lemma_our_flows(flows@, gateway_id);
    }
}

proof fn lemma_our_flows(s: Seq<Flow>, gateway_id: Seq<char>)
    ensures
        our_flows(s, gateway_id) == s.filter(|x: Flow| ours(x@, gateway_id)),
    decreases s.len(),
{
    reveal(Seq::filter);
    let p = |x: Flow| ours(x@, gateway_id);
    if s.len() > 0 {
        let rest = s.drop_first();
        lemma_our_flows(rest, gateway_id);
        let head = seq![s[0]];
        assert(s =~= head + rest);
        Seq::filter_distributes_over_add(head, rest, p);
        assert(head.drop_last() =~= Seq::empty());
        if ours(s[0]@, gateway_id) {
            assert(head.filter(p) =~= head);
        } else {
            assert(head.drop_last().filter(p) =~= Seq::empty());
            assert(head.filter(p) =~= Seq::empty());
            assert(head.filter(p) + rest.filter(p) =~= rest.filter(p));
        }
    } else {
        assert(s.filter(p) =~= s);
    }
}

/// A report holds one line for every name that a flow or a source has, in the order of
/// the names. A line tells the flow and the source of that name, and of the uplink the
/// sample that was read for that flow; what is missing on one side is left out.
pub proof fn law_a_line_joins_a_flow_and_a_source_by_name(
    r: Seq<InputReport>,
    flows: Seq<Flow>,
    sources: Seq<Source>,
    samples: Seq<(FlowId, UplinkStatsReport)>,
    i: int,
    j: int,
    k: int,
)
    requires
        report_inputs(r, flows, sources, samples),
        0 <= i < r.len(),
    ensures
        i < j < r.len() ==> precedes(r[i].name@, r[j].name@),
        0 <= k < flows.len() && flows[k].name@ == r[i].name@ && (forall|m: int|
            0 <= m < k ==> (#[trigger] flows[m]).name@ != r[i].name@) ==> {
            &&& r[i].flow is Some
            &&& r[i].flow->0.id@ == uuid_text(flows[k].id.value)
            &&& r[i].flow->0.running == flows[k].running
            &&& r[i].uplink == sample_of(samples, flows[k].id)
        },
        (forall|m: int| 0 <= m < flows.len() ==> (#[trigger] flows[m]).name@ != r[i].name@)
            ==> r[i].flow is None && r[i].uplink is None,
        (forall|m: int| 0 <= m < sources.len() ==> (#[trigger] sources[m]).name@ != r[i].name@)
            ==> r[i].source is None,
        0 <= k < sources.len() && sources[k].name@ == r[i].name@ && (forall|m: int|
            0 <= m < k ==> (#[trigger] sources[m]).name@ != r[i].name@) ==> r[i].source is Some
            && r[i].source->0.id@ == sources[k].id@ && r[i].source->0.status@ == sources[k].status@,
{
    lemma_flow_named(flows, r[i].name@, k);
    law_a_source_is_found_by_its_id_before_its_name(sources, None, r[i].name@, k);
    assert(reports(r[i], flows, sources, samples));
}

/// Everything that a flow or a source is called by has a line, and nothing else has.
pub proof fn law_every_name_has_a_line(
    r: Seq<InputReport>,
    flows: Seq<Flow>,
    sources: Seq<Source>,
    samples: Seq<(FlowId, UplinkStatsReport)>,
    i: int,
    k: int,
)
    requires
        report_inputs(r, flows, sources, samples),
    ensures
        0 <= k < flows.len() ==> exists|m: int|
            0 <= m < r.len() && (#[trigger] r[m]).name@ == flows[k].name@,
        0 <= k < sources.len() ==> exists|m: int|
            0 <= m < r.len() && (#[trigger] r[m]).name@ == sources[k].name@,
        0 <= i < r.len() ==> (exists|m: int|
            0 <= m < flows.len() && (#[trigger] flows[m]).name@ == r[i].name@) || (exists|m: int|
            0 <= m < sources.len() && (#[trigger] sources[m]).name@ == r[i].name@),
{
    if 0 <= k < flows.len() {
        assert(names_a_flow(flows, flows[k].name@));
        assert(reported(r, flows[k].name@));
    }
    if 0 <= k < sources.len() {
        assert(names_a_source(sources, sources[k].name@));
        assert(reported(r, sources[k].name@));
    }
    if 0 <= i < r.len() {
        assert(reported(r, r[i].name@));
    }
}

proof fn lemma_flow_named(s: Seq<Flow>, name: Seq<char>, k: int)
    ensures
        0 <= k < s.len() && s[k].name@ == name && (forall|j: int|
            0 <= j < k ==> (#[trigger] s[j]).name@ != name) ==> flow_named(s, name) == Some(s[k]),
        (forall|j: int| 0 <= j < s.len() ==> (#[trigger] s[j]).name@ != name) ==> flow_named(
            s,
            name,
        ) is None,
    decreases s.len(),
{
    if s.len() > 0 {
        let rest = s.drop_first();
        lemma_flow_named(rest, name, k - 1);
        assert forall|j: int| 0 <= j < rest.len() implies #[trigger] rest[j] == s[j + 1] by {}
        if 0 < k < s.len() {
            assert(rest[k - 1] == s[k]);
        }
    }
}

/// The sample of a flow is the first that was read for its id.
pub proof fn law_a_sample_belongs_to_its_flow(
    s: Seq<(FlowId, UplinkStatsReport)>,
    id: FlowId,
    k: int,
)
    ensures
        0 <= k < s.len() && s[k].0 == id && (forall|j: int|
            0 <= j < k ==> (#[trigger] s[j]).0 != id) ==> sample_of(s, id) == Some(s[k].1),
        (forall|j: int| 0 <= j < s.len() ==> (#[trigger] s[j]).0 != id) ==> sample_of(s, id)
            is None,
    decreases s.len(),
{
    if s.len() > 0 {
        let rest = s.drop_first();
        law_a_sample_belongs_to_its_flow(rest, id, k - 1);
        assert forall|j: int| 0 <= j < rest.len() implies #[trigger] rest[j] == s[j + 1] by {}
        if 0 < k < s.len() {
            assert(rest[k - 1] == s[k]);
        }
    }
}

/// An endpoint is reachable exactly when it answered, and an error is told exactly when
/// it did not.
pub proof fn law_an_endpoint_that_answered_is_reachable<T>(
    r: EndpointReport,
    url: Seq<char>,
    answer: Result<T, String>,
)
    requires
        endpoint_of(r, url, answer),
    ensures
        r.url@ == url,
        r.reachable <==> answer is Ok,
        r.error is Some <==> answer is Err,
        answer is Err ==> r.error == Some(answer->Err_0),
{
}

/// Hundredths are written with the whole before the point and two digits behind it.
pub proof fn law_hundredths_have_two_digits(whole: nat, tenths: nat, hundredths: nat)
    requires
        tenths < 10,
        hundredths < 10,
    ensures
        hundredths_text(100 * whole + 10 * tenths + hundredths) == dec(whole) + "."@ + dec(tenths)
            + dec(hundredths),
{
    let n = 100 * whole + 10 * tenths + hundredths;
    assert(n / 100 == whole);
    assert(n % 100 == 10 * tenths + hundredths);
    assert(n % 100 / 10 == tenths);
    assert(n % 10 == hundredths);
}

/// What a line says of an uplink: nothing without a flow, that nobody receives without a
/// sample, the rate and the round trip where both are known, and else the bytes sent.
pub proof fn law_a_line_says_what_is_known_of_the_uplink(
    flow: FlowReport,
    s: UplinkStatsReport,
    any: Option<UplinkStatsReport>,
)
    ensures
        uplink_words(None, any) == "-"@,
        uplink_words(Some(flow), None) == "no receiver"@,
        s.send_rate_mbps is Some && s.rtt_ms is Some ==> uplink_words(Some(flow), Some(s)) == (
        if s.send_rate_mbps->0.negative {
            "-"@
        } else {
            ""@
        }) + hundredths_text(s.send_rate_mbps->0.shown as nat) + " Mbps, rtt "@ + (
        if s.rtt_ms->0.negative {
            "-"@
        } else {
            ""@
        } + dec(s.rtt_ms->0.shown as nat)) + " ms"@,
        (s.send_rate_mbps is None || s.rtt_ms is None) && s.bytes_sent is Some ==> uplink_words(
            Some(flow),
            Some(s),
        ) == dec(s.bytes_sent->0 as nat) + " bytes sent"@,
        (s.send_rate_mbps is None || s.rtt_ms is None) && s.bytes_sent is None ==> uplink_words(
            Some(flow),
            Some(s),
        ) == dec(0) + " bytes sent"@,
{
}

/// A flow is called running exactly when it runs, and a source by its own status.
pub proof fn law_a_line_tells_flow_and_source_apart(f: FlowReport, s: SourceReport)
    ensures
        flow_word(Some(f)) == "running"@ <==> f.running,
        flow_word(Some(f)) == "stopped"@ <==> !f.running,
        flow_word(None) == "-"@,
        source_word(Some(s)) == s.status@,
        source_word(None) == "not registered"@,
{
    reveal_strlit("running");
    reveal_strlit("stopped");
    assert("running"@[0] == 'r' && "stopped"@[0] == 's');
}

/// Lines follow one another in the order of what they tell, one each.
pub proof fn law_lines_follow_one_another(
    inputs: Seq<InputReport>,
    input: InputReport,
    all: Seq<DeviceReport>,
    d: DeviceReport,
    live: Seq<Live>,
    l: Live,
)
    ensures
        status_rows(inputs.push(input)) == status_rows(inputs) + status_row(input),
        device_rows(all.push(d)) == device_rows(all) + device_row(d),
        summary_rows(live.push(l)) == summary_rows(live) + summary_row(l),
        status_rows(Seq::empty()) == Seq::<char>::empty(),
{
    assert(inputs.push(input).drop_last() =~= inputs);
    assert(all.push(d).drop_last() =~= all);
    assert(live.push(l).drop_last() =~= live);
}

/// The columns of a line: the name cut and filled to its width, then the flow, the
/// uplink, and the source. What a device's line adds is whether it is skipped, and what a
/// summary adds is the port and the address with its passphrase masked.
pub proof fn law_a_line_has_its_columns(input: InputReport, d: DeviceReport, l: Live)
    ensures
        status_row(input) == padded(shortened(input.name@, 36), 36) + " "@ + padded(
            flow_word(input.flow),
            9,
        ) + " "@ + padded(uplink_words(input.flow, input.uplink), 26) + " "@ + source_word(
            input.source,
        ) + "\n"@,
        device_row(d) == padded(shortened(d.name@, 30), 30) + " "@ + padded(
            shortened(d.id@, 24),
            24,
        ) + " "@ + (if d.virtual_ {
            "virtual, skipped unless --all"@
        } else {
            ""@
        }) + "\n"@,
        summary_row(l) == padded(shortened(l.input.name@, 36), 36) + " "@ + padded(
            dec(l.input.endpoint.port as nat),
            6,
        ) + " "@ + masked(l.input.endpoint.cloud_address()) + "\n"@,
{
}

/// Filling a text up to a width leaves the text in front and adds spaces alone; cutting
/// one that is too long leaves its beginning and ends it in an ellipsis.
pub proof fn law_a_column_keeps_the_beginning(s: Seq<char>, width: int, i: int)
    requires
        width > 0,
    ensures
        s.is_prefix_of(padded(s, width)),
        s.len() <= width ==> padded(s, width).len() == width,
        s.len() > width ==> padded(s, width) == s,
        s.len() <= i < padded(s, width).len() ==> padded(s, width)[i] == ' ',
        s.len() <= width ==> shortened(s, width) == s,
        s.len() > width ==> shortened(s, width) == s.subrange(0, width - 1).push('…'),
{
    let p = padded(s, width);
    assert(p.subrange(0, s.len() as int) =~= s);
    if s.len() > width {
        assert(p =~= s);
    }
}

/// The feeds on air are counted one by one.
pub proof fn law_feeds_on_air_are_counted(live: Seq<Live>, l: Live)
    ensures
        on_air(Seq::empty()) == 0,
        l.state is OnAir ==> on_air(live.push(l)) == on_air(live) + 1,
        !(l.state is OnAir) ==> on_air(live.push(l)) == on_air(live),
{
    assert(live.push(l).drop_last() =~= live);
}

/// A feed plays whether or not somebody receives it, and is idle in every other state.
/// What the heartbeat says of it is its own id, name, source and measurement.
pub proof fn law_a_feed_is_told_as_it_is(s: InputStatus, l: Live, uplink: Option<Uplink>)
    requires
        status_of(s, l, uplink),
    ensures
        s.flow_state == FlowState::Playing <==> l.state is OnAir || l.state is Waiting,
        s.flow_state == FlowState::Idle <==> l.state is Starting || l.state is Unreachable
            || l.state is Failed,
        s.input_id == l.input.id,
        s.name == l.input.name,
        s.source_id == l.source_id,
        s.uplink == uplink,
{
}

/// A report says in its first lines whether a gateway runs, where feeds go, and what
/// cannot be reached and why, and then either that there is nothing or a line for each
/// input under the heading.
pub proof fn law_a_report_says_what_cannot_be_reached(r: StatusReport)
    ensures
        r.process.pid is Some ==> process_line(r) == "Gateway running (pid "@ + dec(
            r.process.pid->0 as nat,
        ) + ").\n"@,
        r.process.pid is None ==> process_line(r) == "No gateway process running.\n"@,
        r.uplink is Some ==> uplink_lines(r) == "Uplink to "@ + r.uplink->0.host@ + ", SRT ports "@
            + r.uplink->0.ports@ + " from "@ + r.uplink->0.port_source@ + ".\n\n"@,
        r.uplink is None && r.uplink_error is Some ==> uplink_lines(r) == "Uplink not resolved: "@
            + r.uplink_error->0@ + ".\n\n"@,
        r.strom.error is Some ==> strom_line(r) == "Strom at "@ + r.strom.url@
            + " is not reachable ("@ + r.strom.error->0@ + ").\n"@,
        r.open_live is Some && r.open_live->0.error is Some ==> open_live_line(r)
            == "Open Live is not reachable ("@ + r.open_live->0.error->0@ + ").\n"@,
        r.inputs@.len() == 0 ==> status_text(r) == process_line(r) + uplink_lines(r) + strom_line(r)
            + open_live_line(r) + "Nothing of ours in Strom or Open Live.\n"@,
        r.inputs@.len() > 0 ==> status_text(r) == process_line(r) + uplink_lines(r) + strom_line(r)
            + open_live_line(r) + (status_head() + status_rows(r.inputs@)),
{
}

/// A list of devices has a heading and a line for each, and says so where there are none.
pub proof fn law_devices_are_listed_under_a_heading(all: Seq<DeviceReport>)
    ensures
        all.len() == 0 ==> devices_text(all)
            == "Strom reports no video sources on this machine.\n"@,
        all.len() > 0 ==> devices_text(all) == padded("DEVICE"@, 30) + " "@ + padded("ID"@, 24)
            + " NOTE\n"@ + device_rows(all)
            + "\n`up` starts all of these except the virtual ones; `up --devices \"FaceTime\"` picks by name or id.\n"@,
        status_head() == padded("INPUT"@, 36) + " "@ + padded("FLOW"@, 9) + " "@ + padded(
            "UPLINK"@,
            26,
        ) + " OPEN LIVE\n"@,
{
}

} // verus!
