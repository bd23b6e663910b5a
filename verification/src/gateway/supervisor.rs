//! Flow supervision: what each answer of the local Strom means for one input, and what
//! is asked of it next.
//!
//! A pass is idempotent and safe to run forever: create the flow if absent, update it if
//! the settings changed, start it if it is not running. It provisions the flow in the
//! first place, pushes changes, and recovers a flow that fails while running. Transient
//! SRT drops are not handled here: the output block re-dials on its own, and restarting
//! the flow for a network blip would turn a recoverable gap into an encoder restart.

use crate::gateway::client::{FetchedFlow, FlowCreateOutcome, FlowState, SrtUplink};
use crate::gateway::config::{GatewayConfig, InputConfig};
use crate::gateway::flow::{differs, drifted, preserved, preserving_strom_state};
use crate::gateway::state::{advanced, counted_on, stats_of, SharedState};
use crate::gateway::status::{InputState, InputStatus};
use crate::json::Json;
use vstd::prelude::*;

verus! {

/// How often each input's flow is reconciled against Strom, in seconds.
pub const RECONCILE_INTERVAL_SECS: u64 = 10;

/// Backoff bounds after a failed pass, in seconds.
pub const BACKOFF_MIN_SECS: u64 = 1;

pub const BACKOFF_MAX_SECS: u64 = 30;

/// The inputs that are supervised.
pub open spec fn enabled(inputs: Seq<InputConfig>) -> Seq<InputConfig> {
    inputs.filter(|i: InputConfig| i.enabled)
}

pub fn supervised_inputs(cfg: &GatewayConfig) -> (r: Vec<InputConfig>)
    ensures
        r@ == enabled(cfg.inputs@),
{
    let inputs = &cfg.inputs;
    let mut out: Vec<InputConfig> = Vec::new();
    let mut i: usize = 0;
    assert(enabled(inputs@.subrange(0, 0)) =~= Seq::empty()) by {
        reveal(Seq::filter);
    }
    while i < inputs.len()
        invariant
            i <= inputs@.len(),
            inputs == &cfg.inputs,
            out@ == enabled(inputs@.subrange(0, i as int)),
        decreases inputs@.len() - i,
    {
        proof {
            reveal(Seq::filter);
            assert(inputs@.subrange(0, i + 1).drop_last() =~= inputs@.subrange(0, i as int));
        }
        if inputs[i].enabled {
            out.push(inputs[i].clone());
        }
        i = i + 1;
    }
    assert(inputs@.subrange(0, inputs@.len() as int) =~= inputs@);
    out
}

// ---------------------------------------------------------------------------
// One pass
// ---------------------------------------------------------------------------

/// What is asked of Strom next.
#[derive(Debug)]
pub enum Ask {
    /// Create the wanted flow.
    Create,
    /// Replace the stored flow by this body; where it runs, stop it afterwards. A
    /// running pipeline keeps the properties it was built with, so only a restart
    /// applies the change.
    Update { body: Json, stop: bool },
    /// Read the flow again: another writer created it in between.
    Reread,
    Start,
    /// Read the uplink's statistics.
    Measure,
}

/// A running flow is measured, another one started.
pub open spec fn next_ask(running: bool) -> Ask {
    if running {
        Ask::Measure
    } else {
        Ask::Start
    }
}

pub open spec fn in_state(status: Option<InputStatus>, state: InputState) -> Option<InputStatus> {
    match status {
        Some(s) => Some(InputStatus { state, ..s }),
        None => None,
    }
}

pub open spec fn with_gst(status: Option<InputStatus>, gst_state: Option<String>) -> Option<
    InputStatus,
> {
    match status {
        Some(s) => Some(InputStatus { gst_state, ..s }),
        None => None,
    }
}

pub open spec fn without_uplink(status: Option<InputStatus>) -> Option<InputStatus> {
    match status {
        Some(s) => Some(InputStatus { uplink: None, ..s }),
        None => None,
    }
}

pub open spec fn with_error(status: Option<InputStatus>, err: String) -> Option<InputStatus> {
    match status {
        Some(s) => Some(
            InputStatus { last_error: Some(err), restarts: counted_on(s.restarts), ..s },
        ),
        None => None,
    }
}

/// The status of an input before a running flow is measured, or another one started.
pub open spec fn before_ask(status: Option<InputStatus>, running: bool) -> Option<InputStatus> {
    if running {
        status
    } else {
        in_state(status, InputState::Starting)
    }
}

/// A flow that cannot be built will never build: the input fails and is not retried.
pub fn on_unbuildable(state: &mut SharedState, input_id: &str, err: &String)
    requires
        old(state).wf(),
    ensures
        final(state).changed_only(
            old(state),
            input_id@,
            with_error(in_state(old(state).status(input_id@), InputState::Failed), *err),
        ),
{
    state.set_state(input_id, InputState::Failed);
    state.record_error(input_id, err);
}

fn proceed(state: &mut SharedState, input_id: &str, running: bool) -> (r: Ask)
    requires
        old(state).wf(),
    ensures
        r == next_ask(running),
        final(state).changed_only(
            old(state),
            input_id@,
            before_ask(old(state).status(input_id@), running),
        ),
{
    if running {
        Ask::Measure
    } else {
        state.set_state(input_id, InputState::Starting);
        Ask::Start
    }
}

/// Strom answered with the flow it holds, if any. It is written only where its shape
/// differs: an unconditional update would drop the fields Strom owns on every tick.
pub fn on_fetched(
    state: &mut SharedState,
    input_id: &str,
    desired: &Json,
    found: &Option<FetchedFlow>,
) -> (r: Ask)
    requires
        old(state).wf(),
        desired@ is Object,
    ensures
        final(state).strom_reachable,
        match *found {
            None => r == Ask::Create && final(state).one_changed(
                old(state),
                input_id@,
                in_state(old(state).status(input_id@), InputState::Provisioning),
            ),
            Some(fetched) => if drifted(fetched.raw@, desired@) {
                (r matches Ask::Update { body, stop } && body@ == preserved(
                    desired@,
                    fetched.raw@,
                ) && stop == fetched.state.running) && final(state).one_changed(
                    old(state),
                    input_id@,
                    in_state(old(state).status(input_id@), InputState::Provisioning),
                )
            } else {
                r == next_ask(fetched.state.running) && final(state).one_changed(
                    old(state),
                    input_id@,
                    before_ask(
                        with_gst(old(state).status(input_id@), fetched.state.gst_state),
                        fetched.state.running,
                    ),
                )
            },
        },
{
    state.set_strom_reachable(true);
    match found {
        None => {
            state.set_state(input_id, InputState::Provisioning);
            Ask::Create
        },
        Some(fetched) => {
            if differs(&fetched.raw, desired) {
                state.set_state(input_id, InputState::Provisioning);
                Ask::Update {
                    body: preserving_strom_state(desired, &fetched.raw),
                    stop: fetched.state.running,
                }
            } else {
                state.set_gst_state(input_id, &fetched.state.gst_state);
                proceed(state, input_id, fetched.state.running)
            }
        },
    }
}

/// The update went through, and the flow was stopped where it ran.
pub fn on_updated(state: &mut SharedState, input_id: &str) -> (r: Ask)
    requires
        old(state).wf(),
    ensures
        r == Ask::Start,
        final(state).changed_only(
            old(state),
            input_id@,
            in_state(with_gst(old(state).status(input_id@), None), InputState::Starting),
        ),
{
    state.set_gst_state(input_id, &None);
    proceed(state, input_id, false)
}

/// The flow was created, or another writer was faster.
pub fn on_created(state: &mut SharedState, input_id: &str, outcome: &FlowCreateOutcome) -> (r: Ask)
    requires
        old(state).wf(),
    ensures
        match *outcome {
            FlowCreateOutcome::Created(flow) => r == next_ask(flow.running)
                && final(state).changed_only(
                old(state),
                input_id@,
                before_ask(old(state).status(input_id@), flow.running),
            ),
            FlowCreateOutcome::AlreadyExists => r == Ask::Reread && *final(state) == *old(state),
        },
{
    match outcome {
        FlowCreateOutcome::Created(flow) => proceed(state, input_id, flow.running),
        FlowCreateOutcome::AlreadyExists => Ask::Reread,
    }
}

/// The flow that another writer created was read.
pub fn on_reread(state: &mut SharedState, input_id: &str, found: &Option<FetchedFlow>) -> (r: Ask)
    requires
        old(state).wf(),
    ensures
        ({
            let running = found matches Some(f) && f.state.running;
            r == next_ask(running) && final(state).changed_only(
                old(state),
                input_id@,
                before_ask(old(state).status(input_id@), running),
            )
        }),
{
    let running = match found {
        Some(f) => f.state.running,
        None => false,
    };
    proceed(state, input_id, running)
}

pub open spec fn not_running_text() -> Seq<char> {
    "Strom reported the flow not running after start"@
}

/// The start was answered. A flow that came up is delivering nothing yet; one that did
/// not is surfaced, and the next pass tries again.
pub fn on_started(state: &mut SharedState, input_id: &str, started: &FlowState)
    requires
        old(state).wf(),
    ensures
        started.running ==> final(state).changed_only(
            old(state),
            input_id@,
            in_state(
                without_uplink(with_gst(old(state).status(input_id@), started.gst_state)),
                InputState::Stalled,
            ),
        ),
        !started.running ==> exists|err: String|
            #[trigger] with_error(
                in_state(
                    with_gst(old(state).status(input_id@), started.gst_state),
                    InputState::Failed,
                ),
                err,
            ) == final(state).status(input_id@) && err@ == not_running_text()
                && final(state).changed_only(old(state), input_id@, final(state).status(input_id@)),
{
    state.set_gst_state(input_id, &started.gst_state);
    if started.running {
        state.clear_uplink(input_id);
        state.set_state(input_id, InputState::Stalled);
    } else {
        state.set_state(input_id, InputState::Failed);
        let err = "Strom reported the flow not running after start".to_owned();
        state.record_error(input_id, &err);
        assert(with_error(
            in_state(with_gst(old(state).status(input_id@), started.gst_state), InputState::Failed),
            err,
        ) == state.status(input_id@));
    }
}

/// A running flow says nothing about whether the far end takes the stream. Only a
/// delivering uplink makes an input safe to assign, so the state tells the two apart.
pub open spec fn measured(status: Option<InputStatus>, stats: Option<SrtUplink>) -> Option<
    InputStatus,
> {
    match (status, stats) {
        (Some(s), Some(sample)) => {
            let delivering = advanced(s.uplink, sample.bytes_sent);
            Some(
                InputStatus {
                    uplink: Some(stats_of(sample, delivering)),
                    state: if delivering {
                        InputState::Running
                    } else {
                        InputState::Stalled
                    },
                    ..s
                },
            )
        },
        (Some(s), None) => Some(InputStatus { uplink: None, state: InputState::Stalled, ..s }),
        (None, _) => None,
    }
}

/// The uplink's statistics were read.
pub fn on_measured(state: &mut SharedState, input_id: &str, stats: &Option<SrtUplink>)
    requires
        old(state).wf(),
    ensures
        final(state).changed_only(
            old(state),
            input_id@,
            measured(old(state).status(input_id@), *stats),
        ),
{
    match stats {
        None => {
            state.clear_uplink(input_id);
            state.set_state(input_id, InputState::Stalled);
        },
        Some(sample) => {
            if state.record_uplink(input_id, sample) {
                state.set_state(input_id, InputState::Running);
            } else {
                state.set_state(input_id, InputState::Stalled);
            }
        },
    }
}

/// A call failed. The state is unknown rather than failed: Strom being unreachable is no
/// evidence that the flow stopped.
pub fn on_failure(state: &mut SharedState, input_id: &str, err: &String)
    requires
        old(state).wf(),
    ensures
        !final(state).strom_reachable,
        final(state).one_changed(
            old(state),
            input_id@,
            with_error(in_state(old(state).status(input_id@), InputState::Unknown), *err),
        ),
{
    state.set_state(input_id, InputState::Unknown);
    state.set_strom_reachable(false);
    state.record_error(input_id, err);
}

/// Only moving bytes put an input on air: a pass leaves it running exactly where a
/// sample showed more bytes out than the one before, and whatever it leaves running can
/// safely be assigned.
pub proof fn law_only_moving_bytes_make_an_input_deliverable(
    before: InputStatus,
    stats: Option<SrtUplink>,
)
    ensures
        measured(Some(before), stats)->0.state.deliverable() <==> stats is Some && advanced(
            before.uplink,
            stats->0.bytes_sent,
        ),
        measured(Some(before), stats)->0.id == before.id,
{
}

/// Losing Strom does not take an input off air: its source stays active, while it cannot
/// be assigned.
pub proof fn law_losing_strom_keeps_an_input_active(before: InputStatus, err: String)
    ensures
        ({
            let after = with_error(in_state(Some(before), InputState::Unknown), err)->0;
            &&& after.state.active()
            &&& !after.state.deliverable()
            &&& after.uplink == before.uplink
            &&& after.restarts >= before.restarts
        }),
{
}

// ---------------------------------------------------------------------------
// Backing off
// ---------------------------------------------------------------------------

/// How long the next failure is waited out, in seconds.
pub open spec fn next_backoff(secs: u64) -> u64 {
    if secs >= BACKOFF_MAX_SECS / 2 {
        BACKOFF_MAX_SECS
    } else {
        (secs * 2) as u64
    }
}

/// Doubles a wait, up to the longest one.
pub fn back_off(secs: u64) -> (r: u64)
    ensures
        r == next_backoff(secs),
{
    if secs >= BACKOFF_MAX_SECS / 2 {
        BACKOFF_MAX_SECS
    } else {
        secs * 2
    }
}

/// Waits never shrink and stay within their bounds.
pub proof fn law_waits_grow_up_to_half_a_minute(secs: u64)
    requires
        BACKOFF_MIN_SECS <= secs <= BACKOFF_MAX_SECS,
    ensures
        secs <= next_backoff(secs) <= BACKOFF_MAX_SECS,
        next_backoff(secs) == (if 2 * secs < BACKOFF_MAX_SECS {
            2 * secs
        } else {
            BACKOFF_MAX_SECS as int
        }),
{
}

/// A measured input runs exactly when more bytes have left than at the sample before,
/// whatever that sample was judged to be, and stalls otherwise. What it keeps is the new
/// sample, flagged with the same verdict, and an input without a sample keeps none.
pub proof fn law_two_byte_counts_tell_whether_an_input_runs(s: InputStatus, x: SrtUplink)
    ensures
        ({
            let after = measured(Some(s), Some(x))->0;
            let grown = s.uplink is Some && x.bytes_sent > s.uplink->0.bytes_sent;
            &&& measured(Some(s), Some(x)) is Some
            &&& after.state == InputState::Running <==> grown
            &&& after.state == InputState::Stalled <==> !grown
            &&& after.uplink is Some
            &&& after.uplink->0.delivering <==> grown
            &&& after.uplink->0.bytes_sent == x.bytes_sent
            &&& after.uplink->0.rtt_ms == x.rtt_ms
            &&& after.uplink->0.send_rate_mbps == x.send_rate_mbps
            &&& after.uplink->0.packets_retransmitted == x.packets_retransmitted
            &&& after.uplink->0.packets_sent_dropped == x.packets_sent_dropped
            &&& after.uplink->0.negotiated_latency_ms == x.negotiated_latency_ms
            &&& after.id == s.id && after.flow_id == s.flow_id && after.gst_state == s.gst_state
            &&& after.source_id == s.source_id && after.listener_address == s.listener_address
            &&& after.restarts == s.restarts && after.last_error == s.last_error
        }),
        ({
            let after = measured(Some(s), None)->0;
            &&& measured(Some(s), None) is Some
            &&& after.state == InputState::Stalled
            &&& after.uplink is None
            &&& after.id == s.id && after.source_id == s.source_id
        }),
        measured(None, Some(x)) is None,
{
}

/// Bytes that keep growing keep an input running from one sample to the next, and the
/// first sample that brings nothing new stalls it.
pub proof fn law_an_input_runs_as_long_as_its_bytes_grow(
    s: InputStatus,
    x: SrtUplink,
    y: SrtUplink,
)
    ensures
        ({
            let after = measured(measured(Some(s), Some(x)), Some(y))->0;
            &&& y.bytes_sent > x.bytes_sent ==> after.state == InputState::Running
            &&& y.bytes_sent <= x.bytes_sent ==> after.state == InputState::Stalled
        }),
        measured(measured(Some(s), None), Some(y))->0.state == InputState::Stalled,
{
}

/// A pass changes of an input what it found out and nothing else: a state leaves the
/// samples alone, an error is kept and counted, and what is cleared is the sample alone.
pub proof fn law_a_pass_changes_what_it_found_out(
    s: InputStatus,
    state: InputState,
    gst: Option<String>,
    err: String,
)
    ensures
        in_state(Some(s), state)->0.state == state,
        in_state(in_state(Some(s), state), s.state) == Some(s),
        with_gst(Some(s), gst)->0.gst_state == gst,
        with_gst(with_gst(Some(s), gst), s.gst_state) == Some(s),
        without_uplink(Some(s))->0.uplink is None,
        without_uplink(Some(s))->0.state == s.state,
        without_uplink(Some(s))->0.id == s.id,
        with_error(Some(s), err)->0.last_error == Some(err),
        s.restarts < u32::MAX ==> with_error(Some(s), err)->0.restarts == s.restarts + 1,
        with_error(Some(s), err)->0.state == s.state,
        with_error(Some(s), err)->0.uplink == s.uplink,
        with_error(Some(s), err)->0.id == s.id,
        in_state(None, state) is None && with_gst(None, gst) is None && with_error(None, err) is None,
{
}

/// A flow that runs is measured and its input left as it is; one that does not is started
/// and its input says so.
pub proof fn law_a_running_flow_is_measured_and_another_started(s: InputStatus)
    ensures
        next_ask(true) == Ask::Measure,
        next_ask(false) == Ask::Start,
        before_ask(Some(s), true) == Some(s),
        before_ask(Some(s), false)->0.state == InputState::Starting,
        before_ask(Some(s), false)->0.uplink == s.uplink,
{
}

/// The waits after failures are one second, then twice as long each time, and never more
/// than half a minute.
pub proof fn law_a_wait_doubles_up_to_half_a_minute(secs: u64)
    ensures
        secs < 15 ==> next_backoff(secs) == 2 * secs,
        secs >= 15 ==> next_backoff(secs) == 30,
        BACKOFF_MIN_SECS == 1,
{
}

/// Exactly the inputs that are enabled are supervised, in the order of the declarations.
pub proof fn law_enabled_inputs_are_supervised(inputs: Seq<InputConfig>, i: InputConfig)
    ensures
        enabled(inputs).contains(i) <==> inputs.contains(i) && i.enabled,
{
    broadcast use vstd::seq_lib::group_filter_ensures;

    let p = |i: InputConfig| i.enabled;
    if inputs.contains(i) && i.enabled {
        let k = inputs.index_of(i);
        inputs.lemma_filter_contains(p, k);
    }
    if enabled(inputs).contains(i) {
        let k = enabled(inputs).index_of(i);
        inputs.lemma_filter_pred(p, k);
        lemma_filtered_was_there(inputs, p, i);
    }
}

proof fn lemma_filtered_was_there(
    s: Seq<InputConfig>,
    p: spec_fn(InputConfig) -> bool,
    i: InputConfig,
)
    requires
        s.filter(p).contains(i),
    ensures
        s.contains(i),
    decreases s.len(),
{
    reveal(Seq::filter);
    if s.len() > 0 {
        let init = s.drop_last();
        if init.filter(p).contains(i) {
            lemma_filtered_was_there(init, p, i);
            let k = init.index_of(i);
            assert(s[k] == i);
        } else {
            let f = s.filter(p);
            let k = f.index_of(i);
            if k < init.filter(p).len() {
                assert(init.filter(p)[k] == i);
            }
            assert(s[s.len() - 1] == i);
        }
    }
}

} // verus!
