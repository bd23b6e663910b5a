//! Run-time status, served by the local control API and used to reconcile the status
//! of Open Live sources.

use crate::json::Number;
use crate::text::copy_opt;
use vstd::prelude::*;

verus! {

/// Per-input supervision state. It describes the local Strom flow: whether it exists,
/// whether it runs, and whether its uplink delivers. Transient SRT drops do not appear
/// here: the output block reconnects on its own.
#[derive(Clone, Copy, Debug, PartialEq, Eq, Structural)]
pub enum InputState {
    /// Configured but not started.
    Idle,
    /// Flow being created or updated in Strom.
    Provisioning,
    /// Flow created, start requested, not yet reported running.
    Starting,
    /// Strom reports the flow running and the SRT uplink is delivering bytes.
    Running,
    /// The flow runs but nothing takes the stream. Never reported as active: assigning
    /// a source that cannot deliver stops the cloud production from reaching playing.
    Stalled,
    /// Strom is unreachable, so the flow's true state is unknown. The feed may well
    /// still be on air.
    Unknown,
    /// The flow failed and waits to be retried.
    Failed,
}

impl InputState {
    pub open spec fn active(self) -> bool {
        self == InputState::Running || self == InputState::Unknown
    }

    pub open spec fn deliverable(self) -> bool {
        self == InputState::Running
    }

    /// Whether this state shows as an `active` source in Open Live. Losing contact with
    /// Strom is no evidence that the feed stopped, so `Unknown` counts.
    pub fn is_active(self) -> (r: bool)
        ensures
            r == self.active(),
    {
        self == InputState::Running || self == InputState::Unknown
    }

    /// Whether the operator can safely assign this input to a production. Stricter than
    /// `is_active`: the uplink has to be proven delivering.
    pub fn is_deliverable(self) -> (r: bool)
        ensures
            r == self.deliverable(),
    {
        self == InputState::Running
    }
}

/// What can safely be assigned shows as active, and a feed that nothing takes shows as
/// neither.
pub proof fn law_what_is_deliverable_is_active(state: InputState)
    ensures
        state.deliverable() ==> state.active(),
        !InputState::Stalled.active(),
        state.active() && !state.deliverable() ==> state == InputState::Unknown,
{
}

#[derive(Debug)]
pub struct GatewayStatus {
    pub gateway_id: String,
    pub version: String,
    pub uptime_seconds: u64,
    /// Whether the last Strom API call succeeded.
    pub strom_reachable: bool,
    pub inputs: Vec<InputStatus>,
}

#[derive(Debug)]
pub struct InputStatus {
    pub id: String,
    pub state: InputState,
    /// Deterministic Strom flow id for this input.
    pub flow_id: String,
    /// Raw GStreamer pipeline state as Strom reports it, for diagnostics.
    pub gst_state: Option<String>,
    /// Open Live source id once registered.
    pub source_id: Option<String>,
    /// SRT address registered with Open Live, for cross-checking the cloud side.
    pub listener_address: String,
    pub restarts: u32,
    pub last_error: Option<String>,
    /// SRT uplink telemetry. None until first polled.
    pub uplink: Option<UplinkStats>,
}

impl Clone for InputStatus {
    fn clone(&self) -> (r: Self)
        ensures
            r == *self,
    {
        InputStatus {
            id: self.id.clone(),
            state: self.state,
            flow_id: self.flow_id.clone(),
            gst_state: copy_opt(&self.gst_state),
            source_id: copy_opt(&self.source_id),
            listener_address: self.listener_address.clone(),
            restarts: self.restarts,
            last_error: copy_opt(&self.last_error),
            uplink: self.uplink,
        }
    }
}

/// Uplink health, from Strom's SRT statistics.
#[derive(Clone, Copy, Debug, PartialEq, Eq, Structural)]
pub struct UplinkStats {
    /// True only when `bytes_sent` advanced since the previous poll. Strom's own
    /// connected flag stays true against a vanished peer, so it is not used.
    pub delivering: bool,
    pub bytes_sent: u64,
    pub rtt_ms: Option<Number>,
    pub send_rate_mbps: Option<Number>,
    pub packets_retransmitted: Option<u64>,
    pub packets_sent_dropped: Option<u64>,
    pub negotiated_latency_ms: Option<u64>,
}

/// An input is safe to assign in one state alone, and reported active in that state and
/// while nothing is known of it.
pub proof fn law_only_a_running_input_is_deliverable(state: InputState)
    ensures
        state.deliverable() <==> state == InputState::Running,
        state.active() <==> state == InputState::Running || state == InputState::Unknown,
{
}

} // verus!
