//! The rules of a run: where feeds go and on which ports, how a poll is judged, which
//! flows and sources are the gateway's own, and what a source is told.
//!
//! Nothing here talks to anyone. Each rule takes what was found out and says what to
//! do next, so the loop around it only carries messages.

use crate::config::{
    format_port_range, mask_passphrase, masked, parsed_range, range_text, Config, ConfigError,
    Endpoint, Fault, PortRange, UplinkMode,
};
use crate::devices::prefix_of;
use crate::flow::{
    capture_device_of, captured_device, is_ours, ours, Flow, FlowId, FlowView, Input,
    Source as Captured,
};
use crate::openlive::{
    bound_port, drifted, listener_port, out_of_step, status_word, ServerInfo, Source,
    SourcePayload,
};
use crate::text::{
    blank, contains, contains_text, opt_text, parse_number, parsed_number, quote, quoted_text,
    same_text, starts_with, trim, trimmed, visible, visible_of,
};
use vstd::prelude::*;

verus! {

/// Quiet polls before an uplink that was delivering is reported inactive.
/// Hysteresis: every status flip rewrites the Open Live source, and CouchDB keeps a
/// revision per write, so one quiet poll must not flap the verdict.
pub const QUIET_TOLERANCE: u32 = 3;

/// Seconds between two rounds over all inputs.
pub const TICK_SECS: u64 = 10;

// ---------------------------------------------------------------------------
// Where feeds are sent, and on which ports
// ---------------------------------------------------------------------------

/// Who chose the port range.
#[derive(Clone, Copy, Debug, PartialEq, Eq, Structural)]
pub enum PortSource {
    /// Published by Open Live: the range its Strom has leased for callers.
    OpenLive,
    /// `uplink.port_range` in the settings.
    Settings,
}

pub open spec fn port_source_text(s: PortSource) -> Seq<char> {
    match s {
        PortSource::OpenLive => "Open Live"@,
        PortSource::Settings => "the settings"@,
    }
}

impl PortSource {
    pub fn text(&self) -> (r: String)
        ensures
            r@ == port_source_text(*self),
    {
        match self {
            PortSource::OpenLive => "Open Live".to_owned(),
            PortSource::Settings => "the settings".to_owned(),
        }
    }
}

/// Why there is nowhere to send, or nothing to send on.
#[derive(Debug)]
pub enum CloudError {
    /// The range in the settings is malformed.
    Range(ConfigError),
    /// Open Live could not be asked.
    Asking(String),
    /// No host is configured and there is nobody to ask.
    NobodyToAsk,
    /// Open Live does not know its Strom's host.
    NoHost,
    /// In listener mode the settings have to name the ports.
    ListenerRange,
    /// In caller mode neither side has a range; with what Open Live said of its lease.
    NoRange(Option<String>),
}

pub open spec fn no_range_reason(lease: Option<Seq<char>>) -> Seq<char> {
    if lease == Some("pending"@) {
        "Open Live is still waiting for its SRT port range from Strom (it retries every minute); wait and try again"@
    } else if lease == Some("unsupported"@) {
        "Open Live's Strom does not lease SRT ports; upgrade it"@
    } else if lease == Some("disabled"@) {
        "Open Live has SRT port leasing disabled"@
    } else {
        "Open Live publishes no SRT port range; upgrade it, or turn registration on"@
    }
}

fn say_no_range(lease: &Option<String>) -> (r: String)
    ensures
        r@ == no_range_reason(opt_text(*lease)),
{
    if let Some(l) = lease {
        if same_text(l.as_str(), "pending") {
            return "Open Live is still waiting for its SRT port range from Strom (it retries every minute); wait and try again".to_owned();
        }
        if same_text(l.as_str(), "unsupported") {
            return "Open Live's Strom does not lease SRT ports; upgrade it".to_owned();
        }
        if same_text(l.as_str(), "disabled") {
            return "Open Live has SRT port leasing disabled".to_owned();
        }
    }
    "Open Live publishes no SRT port range; upgrade it, or turn registration on".to_owned()
}

impl CloudError {
    pub open spec fn text(&self) -> Seq<char> {
        match self {
            CloudError::Range(e) => crate::config::fault_message(e.fault, e.value@),
            CloudError::Asking(e) => "asking Open Live where its Strom is: "@ + e@,
            CloudError::NobodyToAsk =>
                "no cloud Strom host configured, and registration is off so there is nobody to ask"@,
            CloudError::NoHost => "Open Live did not report a Strom host; set uplink.host"@,
            CloudError::ListenerRange =>
                "uplink.mode is \"listener\", so uplink.port_range must name this machine's SRT ports"@,
            CloudError::NoRange(lease) => "no SRT port range for the cloud Strom: "@
                + no_range_reason(opt_text(*lease))
                + ", or set uplink.port_range in the settings"@,
        }
    }

    pub fn message(&self) -> (r: String)
        ensures
            r@ == self.text(),
    {
        match self {
            CloudError::Range(e) => e.message(),
            CloudError::Asking(e) => "asking Open Live where its Strom is: ".to_owned().concat(
                e.as_str(),
            ),
            CloudError::NobodyToAsk => {
                "no cloud Strom host configured, and registration is off so there is nobody to ask".to_owned()
            },
            CloudError::NoHost => {
                "Open Live did not report a Strom host; set uplink.host".to_owned()
            },
            CloudError::ListenerRange => {
                "uplink.mode is \"listener\", so uplink.port_range must name this machine's SRT ports".to_owned()
            },
            CloudError::NoRange(lease) => {
                "no SRT port range for the cloud Strom: ".to_owned().concat(
                    say_no_range(lease).as_str(),
                ).concat(", or set uplink.port_range in the settings")
            },
        }
    }
}

/// Which range a link uses. In caller mode the ports are the cloud Strom's, and several
/// venues share that Strom, so a published range wins over anything in the settings; in
/// listener mode they are this machine's own, which only the settings can know.
pub open spec fn range_in_use(
    mode: UplinkMode,
    local: Option<PortRange>,
    published: Option<PortRange>,
) -> Option<(PortRange, PortSource)> {
    match mode {
        UplinkMode::Listener => match local {
            Some(range) => Some((range, PortSource::Settings)),
            None => None,
        },
        UplinkMode::Caller => match published {
            Some(range) => Some((range, PortSource::OpenLive)),
            None => match local {
                Some(range) => Some((range, PortSource::Settings)),
                None => None,
            },
        },
    }
}

pub fn choose_ports(
    mode: UplinkMode,
    local: Option<PortRange>,
    published: Option<PortRange>,
    lease_status: Option<String>,
) -> (r: Result<(PortRange, PortSource), CloudError>)
    ensures
        match r {
            Ok(found) => range_in_use(mode, local, published) == Some(found),
            Err(e) => range_in_use(mode, local, published) is None && match mode {
                UplinkMode::Listener => e is ListenerRange,
                UplinkMode::Caller => e == CloudError::NoRange(lease_status),
            },
        },
{
    match mode {
        UplinkMode::Listener => match local {
            Some(range) => Ok((range, PortSource::Settings)),
            None => Err(CloudError::ListenerRange),
        },
        UplinkMode::Caller => match published {
            Some(range) => Ok((range, PortSource::OpenLive)),
            None => match local {
                Some(range) => Ok((range, PortSource::Settings)),
                None => Err(CloudError::NoRange(lease_status)),
            },
        },
    }
}

/// The warning that a range in the settings is ignored, where one is.
pub fn ignored_range_warning(
    mode: UplinkMode,
    local: Option<PortRange>,
    published: Option<PortRange>,
) -> (r: Option<(String, String)>)
    ensures
        match r {
            Some((settings, open_live)) => mode == UplinkMode::Caller && local is Some
                && published is Some && local != published && settings@ == range_text(local->0)
                && open_live@ == range_text(published->0),
            None => !(mode == UplinkMode::Caller && local is Some && published is Some && local
                != published),
        },
{
    match (mode, local, published) {
        (UplinkMode::Caller, Some(l), Some(p)) => if l != p {
            Some((format_port_range(&l), format_port_range(&p)))
        } else {
            None
        },
        _ => None,
    }
}

/// In caller mode nothing in the settings can override a range that Open Live
/// publishes; in listener mode nothing that Open Live publishes counts.
pub proof fn law_the_end_that_listens_owns_the_range(
    local: Option<PortRange>,
    other_local: Option<PortRange>,
    published: Option<PortRange>,
    other_published: Option<PortRange>,
)
    ensures
        published is Some ==> range_in_use(UplinkMode::Caller, local, published) == range_in_use(
            UplinkMode::Caller,
            other_local,
            published,
        ),
        range_in_use(UplinkMode::Listener, local, published) == range_in_use(
            UplinkMode::Listener,
            local,
            other_published,
        ),
{
}

/// Where feeds are sent, and which ports the links use.
#[derive(Debug)]
pub struct Cloud {
    pub host: String,
    pub ports: PortRange,
    pub port_source: PortSource,
}

impl Cloud {
    pub fn describe_ports(&self) -> (r: String)
        ensures
            r@ == "SRT ports "@ + range_text(self.ports) + " from "@ + port_source_text(
                self.port_source,
            ),
    {
        "SRT ports ".to_owned().concat(format_port_range(&self.ports).as_str()).concat(
            " from ",
        ).concat(self.port_source.text().as_str())
    }
}

/// What came of asking Open Live about its Strom.
#[derive(Debug)]
pub enum Asked {
    /// It was not asked: there was no need, or nobody to ask.
    No,
    /// It answered, or has no such route.
    Info(Option<ServerInfo>),
    Failed(String),
}

/// Open Live is asked whenever it can be and something is needed from it: the host, or
/// in caller mode its Strom's ports.
pub open spec fn asks(cfg: Config, registered: bool) -> bool {
    registered && (visible(cfg.uplink.host) is None || cfg.uplink.mode == UplinkMode::Caller)
}

pub fn needs_open_live(cfg: &Config, registered: bool) -> (r: bool)
    ensures
        r == asks(*cfg, registered),
{
    registered && (visible_of(&cfg.uplink.host).is_none() || cfg.uplink.mode == UplinkMode::Caller)
}

/// The range in the settings, or none where it is blank.
pub open spec fn local_range(text: Seq<char>) -> Result<Option<PortRange>, (Fault, Seq<char>)> {
    if blank(text) {
        Ok(None)
    } else {
        match parsed_range(text) {
            Ok(range) => Ok(Some(range)),
            Err(e) => Err(e),
        }
    }
}

/// A failure to ask is survivable where the settings have both a host and a range.
pub open spec fn can_do_without(cfg: Config) -> bool {
    visible(cfg.uplink.host) is Some && local_range(cfg.uplink.port_range@) matches Ok(Some(_))
}

pub open spec fn info_of(asked: Asked) -> Option<ServerInfo> {
    match asked {
        Asked::Info(info) => info,
        _ => None,
    }
}

pub open spec fn info_host(info: Option<ServerInfo>) -> Option<Seq<char>> {
    match info {
        Some(i) => opt_text(i.strom_host),
        None => None,
    }
}

pub open spec fn info_range(info: Option<ServerInfo>) -> Option<PortRange> {
    match info {
        Some(i) => i.srt_port_range,
        None => None,
    }
}

pub open spec fn info_lease(info: Option<ServerInfo>) -> Option<String> {
    match info {
        Some(i) => i.srt_port_lease,
        None => None,
    }
}

/// The host feeds go to: the configured one, or else the one Open Live reports.
pub open spec fn host_in_use(cfg: Config, asked: Asked) -> Option<Seq<char>> {
    match visible(cfg.uplink.host) {
        Some(h) => Some(h),
        None => info_host(info_of(asked)),
    }
}

/// Resolves the cloud host and the port range from the settings and what Open Live
/// said. A configured host together with a configured range still starts when Open
/// Live is down; the sources are registered once it is back.
pub fn resolve_cloud(cfg: &Config, registered: bool, asked: Asked) -> (r: Result<Cloud, CloudError>)
    ensures
        match local_range(cfg.uplink.port_range@) {
            Err(fault) => r matches Err(CloudError::Range(e)) && e@ == fault,
            Ok(local) => if asked is Failed && !can_do_without(*cfg) {
                r == Err::<Cloud, CloudError>(CloudError::Asking(asked->Failed_0))
            } else if host_in_use(*cfg, asked) is None {
                r is Err && (if registered {
                    r->Err_0 is NoHost
                } else {
                    r->Err_0 is NobodyToAsk
                })
            } else if visible(cfg.uplink.host) is None && !registered {
                r is Err && r->Err_0 is NobodyToAsk
            } else {
                match range_in_use(cfg.uplink.mode, local, info_range(info_of(asked))) {
                    Some((ports, port_source)) => r is Ok && r->Ok_0.ports == ports
                        && r->Ok_0.port_source == port_source && Some(r->Ok_0.host@) == host_in_use(
                        *cfg,
                        asked,
                    ),
                    None => r is Err && (match cfg.uplink.mode {
                        UplinkMode::Listener => r->Err_0 is ListenerRange,
                        UplinkMode::Caller => r->Err_0 == CloudError::NoRange(
                            info_lease(info_of(asked)),
                        ),
                    }),
                }
            },
        },
{
    let configured = visible_of(&cfg.uplink.host);
    let local = match cfg.uplink.local_ports() {
        Ok(local) => local,
        Err(e) => return Err(CloudError::Range(e)),
    };
    let info: Option<ServerInfo> = match asked {
        Asked::No => None,
        Asked::Info(info) => info,
        Asked::Failed(err) => {
            if configured.is_some() && local.is_some() {
                None
            } else {
                return Err(CloudError::Asking(err));
            }
        },
    };
    let (reported, published, lease) = match info {
        Some(i) => (i.strom_host, i.srt_port_range, i.srt_port_lease),
        None => (None, None, None),
    };
    let host = match configured {
        Some(host) => host,
        None => {
            if !registered {
                return Err(CloudError::NobodyToAsk);
            }
            match reported {
                Some(host) => host,
                None => return Err(CloudError::NoHost),
            }
        },
    };
    match choose_ports(cfg.uplink.mode, local, published, lease) {
        Ok((ports, port_source)) => Ok(Cloud { host, ports, port_source }),
        Err(e) => Err(e),
    }
}

// ---------------------------------------------------------------------------
// One streaming input, and how a poll is judged
// ---------------------------------------------------------------------------

#[derive(Debug)]
pub enum State {
    /// Start requested, first poll pending.
    Starting,
    /// The flow runs but nothing is receiving the uplink. Normal until the source is
    /// assigned to a production.
    Waiting,
    /// Bytes are leaving. Reported to Open Live as `active`.
    OnAir,
    /// Strom is not answering. Not evidence that the feed stopped: the source's
    /// status is left as it was.
    Unreachable,
    Failed(String),
}

impl Clone for State {
    fn clone(&self) -> (r: Self)
        ensures
            r == *self,
    {
        match self {
            State::Starting => State::Starting,
            State::Waiting => State::Waiting,
            State::OnAir => State::OnAir,
            State::Unreachable => State::Unreachable,
            State::Failed(e) => State::Failed(e.clone()),
        }
    }
}

pub open spec fn state_text(s: State) -> Seq<char> {
    match s {
        State::Starting => "starting"@,
        State::Waiting => "waiting for a receiver"@,
        State::OnAir => "on air, the far end is receiving"@,
        State::Unreachable => "lost contact with Strom"@,
        State::Failed(e) => "failed: "@ + e@,
    }
}

/// Two states an operator would see as one.
pub open spec fn same_state(a: State, b: State) -> bool {
    match (a, b) {
        (State::Starting, State::Starting) => true,
        (State::Waiting, State::Waiting) => true,
        (State::OnAir, State::OnAir) => true,
        (State::Unreachable, State::Unreachable) => true,
        (State::Failed(x), State::Failed(y)) => x@ == y@,
        _ => false,
    }
}

impl State {
    pub fn describe(&self) -> (r: String)
        ensures
            r@ == state_text(*self),
    {
        match self {
            State::Starting => "starting".to_owned(),
            State::Waiting => "waiting for a receiver".to_owned(),
            State::OnAir => "on air, the far end is receiving".to_owned(),
            State::Unreachable => "lost contact with Strom".to_owned(),
            State::Failed(err) => "failed: ".to_owned().concat(err.as_str()),
        }
    }

    pub fn is_same(&self, other: &State) -> (r: bool)
        ensures
            r == same_state(*self, *other),
    {
        match (self, other) {
            (State::Starting, State::Starting) => true,
            (State::Waiting, State::Waiting) => true,
            (State::OnAir, State::OnAir) => true,
            (State::Unreachable, State::Unreachable) => true,
            (State::Failed(x), State::Failed(y)) => same_text(x.as_str(), y.as_str()),
            _ => false,
        }
    }
}

/// One streaming input and what the last poll found out about it.
#[derive(Debug)]
pub struct Live {
    pub input: Input,
    pub flow_id: FlowId,
    pub state: State,
    pub shown: Option<State>,
    pub last_bytes: Option<u64>,
    pub quiet_polls: u32,
    pub source_id: Option<String>,
}

/// What a poll does once it knows whether the flow is there.
#[derive(Clone, Copy, Debug, PartialEq, Eq, Structural)]
pub enum PollStep {
    /// Deleted under us, in Strom's editor or by another tool: put it back, then start.
    Recreate,
    Start,
    ReadStatistics,
}

/// Bytes moving between two polls is the test, not growth: a reconnect resets the
/// counter. The first sample has nothing to compare against and proves nothing.
pub open spec fn delivering(last_bytes: Option<u64>, bytes: u64) -> bool {
    last_bytes is Some && bytes != last_bytes->0 && bytes > 0
}

/// One more quiet poll, as far as it can be counted.
pub open spec fn one_more(quiet: u32) -> u32 {
    if quiet < u32::MAX {
        (quiet + 1) as u32
    } else {
        quiet
    }
}

/// The verdict of a poll that found statistics: delivering is on air; a feed that was
/// on air is held through the quiet polls that are tolerated; all else waits.
pub open spec fn judged(on_air: bool, last_bytes: Option<u64>, quiet: u32, bytes: u64) -> (
    bool,
    Option<u64>,
    u32,
) {
    if delivering(last_bytes, bytes) {
        (true, Some(bytes), 0)
    } else {
        (on_air && one_more(quiet) < QUIET_TOLERANCE, Some(bytes), one_more(quiet))
    }
}

impl Live {
    /// Everything a poll leaves alone.
    pub open spec fn same_feed(&self, other: &Live) -> bool {
        &&& self.input == other.input
        &&& self.flow_id == other.flow_id
        &&& self.shown == other.shown
        &&& self.source_id == other.source_id
    }

    pub fn new(input: Input, flow_id: FlowId, source_id: Option<String>) -> (r: Live)
        ensures
            r.input == input,
            r.flow_id == flow_id,
            r.state == State::Starting,
            r.shown is None,
            r.last_bytes is None,
            r.quiet_polls == 0,
            r.source_id == source_id,
    {
        Live {
            input,
            flow_id,
            state: State::Starting,
            shown: None,
            last_bytes: None,
            quiet_polls: 0,
            source_id,
        }
    }

    /// The first half of a poll: whether the flow was found, and whether it runs.
    pub fn on_flow(&self, running: Option<bool>) -> (r: PollStep)
        ensures
            r == match running {
                None => PollStep::Recreate,
                Some(false) => PollStep::Start,
                Some(true) => PollStep::ReadStatistics,
            },
    {
        match running {
            None => PollStep::Recreate,
            Some(runs) => if runs {
                PollStep::ReadStatistics
            } else {
                PollStep::Start
            },
        }
    }

    /// A flow that was not running was started: what Strom says of it now.
    pub fn on_started(&mut self, running: bool)
        ensures
            final(self).same_feed(old(self)),
            final(self).last_bytes is None,
            final(self).quiet_polls == old(self).quiet_polls,
            if running {
                final(self).state == State::Starting
            } else {
                final(self).state matches State::Failed(e) && e@
                    == "Strom did not report the flow running after start"@
            },
    {
        self.last_bytes = None;
        self.state = if running {
            State::Starting
        } else {
            State::Failed("Strom did not report the flow running after start".to_owned())
        };
    }

    /// A running flow's uplink: no peer at all, or the bytes sent to it so far.
    pub fn on_sample(&mut self, peer: Option<u64>)
        ensures
            final(self).same_feed(old(self)),
            match peer {
                None => final(self).state == State::Waiting && final(self).last_bytes is None
                    && final(self).quiet_polls == 0,
                Some(bytes) => {
                    let v = judged(
                        old(self).state is OnAir,
                        old(self).last_bytes,
                        old(self).quiet_polls,
                        bytes,
                    );
                    &&& final(self).state == (if v.0 {
                        State::OnAir
                    } else {
                        State::Waiting
                    })
                    &&& final(self).last_bytes == v.1
                    &&& final(self).quiet_polls == v.2
                },
            },
    {
        let bytes: u64 = match peer {
            Some(bytes) => bytes,
            None => {
                self.last_bytes = None;
                self.quiet_polls = 0;
                self.state = State::Waiting;
                return;
            },
        };
        let moved: bool = match self.last_bytes {
            Some(before) => bytes != before && bytes > 0,
            None => false,
        };
        self.last_bytes = Some(bytes);
        if moved {
            self.quiet_polls = 0;
            self.state = State::OnAir;
            return;
        }
        if self.quiet_polls < u32::MAX {
            self.quiet_polls = self.quiet_polls + 1;
        }
        let held: bool = match self.state {
            State::OnAir => self.quiet_polls < QUIET_TOLERANCE,
            _ => false,
        };
        self.state = if held {
            State::OnAir
        } else {
            State::Waiting
        };
    }

    /// Strom did not answer. What it said before no longer compares.
    pub fn on_lost(&mut self)
        ensures
            final(self).same_feed(old(self)),
            final(self).state == State::Unreachable,
            final(self).last_bytes is None,
            final(self).quiet_polls == old(self).quiet_polls,
    {
        self.last_bytes = None;
        self.state = State::Unreachable;
    }

    /// The line to print for a state that was not shown yet, if any. Appended lines
    /// rather than a redrawn screen: this is read over SSH, in tmux, and in a log file.
    pub fn news(&mut self) -> (r: Option<String>)
        ensures
            final(self).input == old(self).input,
            final(self).flow_id == old(self).flow_id,
            final(self).state == old(self).state,
            final(self).last_bytes == old(self).last_bytes,
            final(self).quiet_polls == old(self).quiet_polls,
            final(self).source_id == old(self).source_id,
            if old(self).shown is Some && same_state(old(self).shown->0, old(self).state) {
                r is None && final(self).shown == old(self).shown
            } else {
                r is Some && r->0@ == "  "@ + old(self).input.name@ + " — "@ + state_text(
                    old(self).state,
                ) && final(self).shown == Some(old(self).state)
            },
    {
        if let Some(shown) = &self.shown {
            if shown.is_same(&self.state) {
                return None;
            }
        }
        let line = "  ".to_owned().concat(self.input.name.as_str()).concat(" — ").concat(
            self.state.describe().as_str(),
        );
        self.shown = Some(self.state.clone());
        Some(line)
    }
}

/// What is left of being on air after `polls` quiet polls in a row.
pub open spec fn after_quiet(on_air: bool, bytes: u64, quiet: u32, polls: nat) -> (bool, u32)
    decreases polls,
{
    if polls == 0 {
        (on_air, quiet)
    } else {
        let (air, q) = after_quiet(on_air, bytes, quiet, (polls - 1) as nat);
        let v = judged(air, Some(bytes), q, bytes);
        (v.0, v.2)
    }
}

/// A feed that was just delivering is held on air for exactly as many quiet polls as
/// are tolerated less one, and is inactive from then on.
pub proof fn law_a_feed_on_air_is_held_through_quiet_polls(bytes: u64, polls: nat)
    requires
        polls < u32::MAX,
    ensures
        after_quiet(true, bytes, 0, polls).0 == (polls < QUIET_TOLERANCE),
        after_quiet(true, bytes, 0, polls).1 == polls,
    decreases polls,
{
    if polls > 0 {
        law_a_feed_on_air_is_held_through_quiet_polls(bytes, (polls - 1) as nat);
    }
}

/// A feed that is not on air goes on air only by bytes moving between two polls.
pub proof fn law_only_moving_bytes_put_a_feed_on_air(
    last_bytes: Option<u64>,
    quiet: u32,
    bytes: u64,
)
    ensures
        judged(false, last_bytes, quiet, bytes).0 <==> last_bytes is Some && bytes != last_bytes->0
            && bytes > 0,
{
}

/// A counter that a reconnect reset still counts as delivering.
pub proof fn law_a_reset_counter_is_not_a_stall(before: u64, bytes: u64, quiet: u32, on_air: bool)
    requires
        0 < bytes < before,
    ensures
        judged(on_air, Some(before), quiet, bytes) == (true, Some(bytes), 0u32),
{
}

// ---------------------------------------------------------------------------
// Sources
// ---------------------------------------------------------------------------

/// The first source with an id.
pub open spec fn with_id(sources: Seq<Source>, id: Seq<char>) -> Option<Source>
    decreases sources.len(),
{
    if sources.len() == 0 {
        None
    } else if sources[0].id@ == id {
        Some(sources[0])
    } else {
        with_id(sources.drop_first(), id)
    }
}

/// The first source with a name.
pub open spec fn with_name(sources: Seq<Source>, name: Seq<char>) -> Option<Source>
    decreases sources.len(),
{
    if sources.len() == 0 {
        None
    } else if sources[0].name@ == name {
        Some(sources[0])
    } else {
        with_name(sources.drop_first(), name)
    }
}

pub fn find_by_id(sources: &Vec<Source>, id: &str) -> (r: Option<usize>)
    ensures
        match r {
            Some(k) => k < sources@.len() && with_id(sources@, id@) == Some(sources@[k as int]),
            None => with_id(sources@, id@) is None,
        },
{
    let mut i: usize = 0;
    assert(sources@.subrange(0, sources@.len() as int) =~= sources@);
    while i < sources.len()
        invariant
            i <= sources@.len(),
            with_id(sources@, id@) == with_id(
                sources@.subrange(i as int, sources@.len() as int),
                id@,
            ),
        decreases sources@.len() - i,
    {
        if same_text(sources[i].id.as_str(), id) {
            return Some(i);
        }
        assert(sources@.subrange(i as int, sources@.len() as int).drop_first()
            =~= sources@.subrange(i + 1, sources@.len() as int));
        i = i + 1;
    }
    None
}

pub fn find_by_name(sources: &Vec<Source>, name: &str) -> (r: Option<usize>)
    ensures
        match r {
            Some(k) => k < sources@.len() && with_name(sources@, name@) == Some(sources@[k as int]),
            None => with_name(sources@, name@) is None,
        },
{
    let mut i: usize = 0;
    assert(sources@.subrange(0, sources@.len() as int) =~= sources@);
    while i < sources.len()
        invariant
            i <= sources@.len(),
            with_name(sources@, name@) == with_name(
                sources@.subrange(i as int, sources@.len() as int),
                name@,
            ),
        decreases sources@.len() - i,
    {
        if same_text(sources[i].name.as_str(), name) {
            return Some(i);
        }
        assert(sources@.subrange(i as int, sources@.len() as int).drop_first()
            =~= sources@.subrange(i + 1, sources@.len() as int));
        i = i + 1;
    }
    None
}

/// The source an input already has: by the id it was registered under, or else by
/// name, so that one left by an earlier run is adopted rather than recreated and a
/// Studio assignment that references its id survives a restart.
pub open spec fn adopted(sources: Seq<Source>, source_id: Option<Seq<char>>, name: Seq<char>) -> Option<
    Source,
> {
    let by_id = match source_id {
        Some(id) => with_id(sources, id),
        None => None,
    };
    match by_id {
        Some(s) => Some(s),
        None => with_name(sources, name),
    }
}

/// Whether the source is reported as delivering. Losing contact with Strom is not
/// evidence that the feed stopped, so then the status is left as it was.
pub open spec fn reported_active(state: State, existing: Option<Source>) -> bool {
    match state {
        State::OnAir => true,
        State::Unreachable => existing is Some && existing->0.status@ == "active"@,
        _ => false,
    }
}

/// What has to be sent to Open Live for one input.
#[derive(Debug)]
pub enum SourceAction {
    /// The stored source matches: nothing to write.
    Keep,
    Patch { id: String, payload: SourcePayload },
    Create(SourcePayload),
}

impl Live {
    /// Compares one input with the sources Open Live holds. Only a stored source that
    /// differs is rewritten, and only a missing one is made. A source in step is
    /// adopted at once; one that has to be written is adopted when the write went
    /// through.
    pub fn reconcile(&mut self, sources: &Vec<Source>) -> (r: SourceAction)
        ensures
            final(self).input == old(self).input,
            final(self).flow_id == old(self).flow_id,
            final(self).state == old(self).state,
            final(self).shown == old(self).shown,
            final(self).last_bytes == old(self).last_bytes,
            final(self).quiet_polls == old(self).quiet_polls,
            ({
                let found = adopted(
                    sources@,
                    opt_text(old(self).source_id),
                    old(self).input.name@,
                );
                let active = reported_active(old(self).state, found);
                let name = old(self).input.name@;
                let address = old(self).input.endpoint.cloud_address();
                let latency = old(self).input.endpoint.latency_ms;
                match found {
                    Some(stored) => match r {
                        SourceAction::Keep => {
                            &&& !out_of_step(stored, name, address, active, latency)
                            &&& opt_text(final(self).source_id) == Some(stored.id@)
                        },
                        SourceAction::Patch { id, payload } => {
                            &&& out_of_step(stored, name, address, active, latency)
                            &&& id@ == stored.id@
                            &&& payload.describes(name, address, active, latency)
                            &&& final(self).source_id == old(self).source_id
                        },
                        SourceAction::Create(_) => false,
                    },
                    None => {
                        &&& final(self).source_id == old(self).source_id
                        &&& r matches SourceAction::Create(payload) && payload.describes(
                            name,
                            address,
                            active,
                            latency,
                        )
                    },
                }
            }),
    {
        let by_id = match &self.source_id {
            Some(id) => find_by_id(sources, id.as_str()),
            None => None,
        };
        let found = match by_id {
            Some(k) => Some(k),
            None => find_by_name(sources, self.input.name.as_str()),
        };
        let active: bool = match &self.state {
            State::OnAir => true,
            State::Unreachable => match found {
                Some(k) => same_text(sources[k].status.as_str(), "active"),
                None => false,
            },
            _ => false,
        };
        let desired = SourcePayload::new(
            self.input.name.as_str(),
            self.input.endpoint.cloud_uri().as_str(),
            active,
            self.input.endpoint.latency_ms,
        );
        match found {
            Some(k) => {
                if drifted(&sources[k], &desired) {
                    SourceAction::Patch { id: sources[k].id.clone(), payload: desired }
                } else {
                    self.source_id = Some(sources[k].id.clone());
                    SourceAction::Keep
                }
            },
            None => SourceAction::Create(desired),
        }
    }

    /// The source of the input was made, or brought into step.
    pub fn on_written(&mut self, id: String)
        ensures
            final(self).input == old(self).input,
            final(self).flow_id == old(self).flow_id,
            final(self).state == old(self).state,
            final(self).shown == old(self).shown,
            final(self).last_bytes == old(self).last_bytes,
            final(self).quiet_polls == old(self).quiet_polls,
            final(self).source_id == Some(id),
    {
        self.source_id = Some(id);
    }
}

/// When contact with Strom is lost, a source keeps the status it had: a write for
/// another reason carries that same status.
pub proof fn law_losing_strom_leaves_the_status_as_it_was(stored: Source, payload: SourcePayload)
    requires
        stored.status@ == "active"@ || stored.status@ == "inactive"@,
        payload.status@ == status_word(reported_active(State::Unreachable, Some(stored))),
    ensures
        payload.status@ == stored.status@,
{
}

/// Whether a source carries this gateway's prefix. A sweep removes these and no others,
/// so sources of another gateway or made by hand are never touched.
pub open spec fn swept(s: Source, gateway_name: Seq<char>) -> bool {
    prefix_of(gateway_name).is_prefix_of(s.name@)
}

/// The sources with the gateway's prefix, in order.
pub open spec fn our_sources(s: Seq<Source>, gateway_name: Seq<char>) -> Seq<Source>
    decreases s.len(),
{
    if s.len() == 0 {
        Seq::empty()
    } else if swept(s.last(), gateway_name) {
        our_sources(s.drop_last(), gateway_name).push(s.last())
    } else {
        our_sources(s.drop_last(), gateway_name)
    }
}

pub fn sources_to_sweep(sources: &Vec<Source>, gateway_name: &str) -> (r: Vec<Source>)
    ensures
        r@ == our_sources(sources@, gateway_name@),
{
    let prefix = crate::devices::name_prefix(gateway_name);
    let mut out: Vec<Source> = Vec::new();
    let mut i: usize = 0;
    while i < sources.len()
        invariant
            i <= sources@.len(),
            prefix@ == prefix_of(gateway_name@),
            out@ == our_sources(sources@.subrange(0, i as int), gateway_name@),
        decreases sources@.len() - i,
    {
        let ghost upto = sources@.subrange(0, i + 1);
        assert(upto.drop_last() =~= sources@.subrange(0, i as int));
        if starts_with(sources[i].name.as_str(), prefix.as_str()) {
            out.push(sources[i].clone());
        }
        i = i + 1;
    }
    assert(sources@.subrange(0, sources@.len() as int) =~= sources@);
    out
}

// ---------------------------------------------------------------------------
// Ports assigned by Open Live
// ---------------------------------------------------------------------------

/// What to do about an input's port given the source Open Live already holds for it.
#[derive(Debug)]
pub enum PortPlan {
    /// The stored source names a port inside the range: build to it.
    Keep { source_id: String, port: u16 },
    /// The stored source has no usable port (none, or one outside the range Open
    /// Live now publishes, left by an older run): ask Open Live to reassign it.
    Reassign { source_id: String },
    /// No source yet: create one and let Open Live pick the port.
    Create,
}

/// A port that a stored source may keep.
pub open spec fn kept_port(stored: Source, range: PortRange) -> Option<u16> {
    match bound_port(stored.address@) {
        Some(port) => if range.has(port as int) {
            Some(port)
        } else {
            None
        },
        None => None,
    }
}

pub fn plan_port(existing: Option<&Source>, range: &PortRange) -> (r: PortPlan)
    ensures
        match existing {
            None => r is Create,
            Some(stored) => match kept_port(*stored, *range) {
                Some(p) => r matches PortPlan::Keep { source_id, port } && source_id@ == stored.id@
                    && port == p,
                None => r matches PortPlan::Reassign { source_id } && source_id@ == stored.id@,
            },
        },
{
    match existing {
        None => PortPlan::Create,
        Some(stored) => match listener_port(stored.address.as_str()) {
            Some(port) => if range.contains(port) {
                PortPlan::Keep { source_id: stored.id.clone(), port }
            } else {
                PortPlan::Reassign { source_id: stored.id.clone() }
            },
            None => PortPlan::Reassign { source_id: stored.id.clone() },
        },
    }
}

/// The inputs of a run while Open Live hands out their ports, one after the other.
/// Several gateways can feed one Open Live, and each only knows its own inputs, so the
/// one party that sees every source has to choose. An input registers with port 0,
/// which means "assign one", and takes the port Open Live wrote into the source. A
/// source left by an earlier run keeps its port, so the cloud side stays stable.
#[derive(Debug)]
pub struct PortAssignment {
    pub inputs: Vec<Input>,
    pub range: PortRange,
    /// What Open Live held when the run began.
    pub sources: Vec<Source>,
    /// The source ids of the inputs that are done, in order.
    pub source_ids: Vec<String>,
    /// The source whose port Open Live is being asked for, if any.
    pub asking: Option<Pending>,
}

#[derive(Debug)]
pub enum Pending {
    Creation,
    Reassignment { source_id: String },
}

/// What to do next about the ports.
#[derive(Debug)]
pub enum AssignStep {
    /// The next input keeps the port its source has; nothing to send.
    Kept,
    Create(SourcePayload),
    Reassign { source_id: String, payload: SourcePayload },
    /// Every input has its port.
    Done,
}

/// Why Open Live's answer cannot be used.
#[derive(Debug)]
pub enum AssignError {
    /// The source vanished between asking for a port and reading it back.
    Lost { name: String },
    /// The stored address names no listener port.
    NoPort { address: String, name: String },
}

impl AssignError {
    pub open spec fn text(&self) -> Seq<char> {
        match self {
            AssignError::Lost { name } => "Open Live lost the source for "@ + quoted_text(name@)
                + " while reassigning its port"@,
            AssignError::NoPort { address, name } => "Open Live stored "@ + masked(address@)
                + " for "@ + quoted_text(name@)
                + ", which names no listener port; is it running a version that assigns ports?"@,
        }
    }

    /// Names the address only masked: it may carry the passphrase.
    pub fn message(&self) -> (r: String)
        ensures
            r@ == self.text(),
    {
        match self {
            AssignError::Lost { name } => "Open Live lost the source for ".to_owned().concat(
                quote(name.as_str()).as_str(),
            ).concat(" while reassigning its port"),
            AssignError::NoPort { address, name } => "Open Live stored ".to_owned().concat(
                mask_passphrase(address.as_str()).as_str(),
            ).concat(" for ").concat(quote(name.as_str()).as_str()).concat(
                ", which names no listener port; is it running a version that assigns ports?",
            ),
        }
    }
}

/// An input on another port.
pub open spec fn on_port(input: Input, port: u16) -> Input {
    Input { endpoint: Endpoint { port, ..input.endpoint }, ..input }
}

impl PortAssignment {
    /// How many inputs have their port.
    pub open spec fn done(&self) -> int {
        self.source_ids@.len() as int
    }

    pub open spec fn wf(&self) -> bool {
        &&& self.done() <= self.inputs@.len()
        &&& self.asking is Some ==> self.done() < self.inputs@.len()
    }

    /// Open Live is being asked for another port of this source.
    pub open spec fn reassigns(&self, source_id: Seq<char>) -> bool {
        self.asking matches Some(Pending::Reassignment { source_id: id }) && id@ == source_id
    }

    /// The source that the next input already has.
    pub open spec fn existing(&self) -> Option<Source> {
        with_name(self.sources@, self.inputs@[self.done()].name@)
    }

    /// Only what belongs to the next input changed.
    pub open spec fn rest_kept(&self, before: &PortAssignment) -> bool {
        &&& self.range == before.range
        &&& self.sources == before.sources
        &&& self.inputs@.len() == before.inputs@.len()
        &&& forall|k: int|
            0 <= k < self.inputs@.len() && k != before.done() ==> self.inputs@[k]
                == before.inputs@[k]
    }

    pub fn new(inputs: Vec<Input>, range: PortRange, sources: Vec<Source>) -> (r: PortAssignment)
        ensures
            r.wf(),
            r.inputs == inputs,
            r.range == range,
            r.sources == sources,
            r.done() == 0,
            r.asking is None,
    {
        PortAssignment { inputs, range, sources, source_ids: Vec::new(), asking: None }
    }

    fn set_port(&mut self, at: usize, port: u16)
        requires
            at < old(self).inputs@.len(),
        ensures
            final(self).inputs@ == old(self).inputs@.update(
                at as int,
                on_port(old(self).inputs@[at as int], port),
            ),
            final(self).range == old(self).range,
            final(self).sources == old(self).sources,
            final(self).source_ids == old(self).source_ids,
            final(self).asking == old(self).asking,
    {
        let mut input = self.inputs[at].clone();
        input.endpoint.port = port;
        self.inputs.set(at, input);
    }

    /// The next step. Called again after each step until it is done; while an answer
    /// is pending, the answer comes first.
    pub fn step(&mut self) -> (r: AssignStep)
        requires
            old(self).wf(),
            old(self).asking is None,
        ensures
            final(self).wf(),
            final(self).rest_kept(old(self)),
            if old(self).done() == old(self).inputs@.len() {
                r is Done && *final(self) == *old(self)
            } else {
                let input = old(self).inputs@[old(self).done()];
                let now = final(self).inputs@[old(self).done()];
                match old(self).existing() {
                    Some(stored) => match kept_port(stored, old(self).range) {
                        Some(port) => {
                            &&& r is Kept
                            &&& now == on_port(input, port)
                            &&& final(self).done() == old(self).done() + 1
                            &&& final(self).source_ids@.drop_last() == old(self).source_ids@
                            &&& final(self).source_ids@.last()@ == stored.id@
                            &&& final(self).asking is None
                        },
                        None => {
                            &&& now == on_port(input, 0)
                            &&& final(self).source_ids == old(self).source_ids
                            &&& final(self).asking matches Some(
                                Pending::Reassignment { source_id },
                            ) && source_id@ == stored.id@
                            &&& r matches AssignStep::Reassign { source_id, payload } && source_id@
                                == stored.id@ && payload.describes(
                                input.name@,
                                now.endpoint.cloud_address(),
                                false,
                                input.endpoint.latency_ms,
                            )
                        },
                    },
                    None => {
                        &&& now == on_port(input, 0)
                        &&& final(self).source_ids == old(self).source_ids
                        &&& final(self).asking matches Some(Pending::Creation)
                        &&& r matches AssignStep::Create(payload) && payload.describes(
                            input.name@,
                            now.endpoint.cloud_address(),
                            false,
                            input.endpoint.latency_ms,
                        )
                    },
                }
            },
    {
        let at: usize = self.source_ids.len();
        if at == self.inputs.len() {
            return AssignStep::Done;
        }
        let plan = match find_by_name(&self.sources, self.inputs[at].name.as_str()) {
            Some(k) => plan_port(Some(&self.sources[k]), &self.range),
            None => plan_port(None, &self.range),
        };
        match plan {
            PortPlan::Keep { source_id, port } => {
                self.set_port(at, port);
                let ghost before = self.source_ids@;
                self.source_ids.push(source_id);
                assert(self.source_ids@.drop_last() =~= before);
                AssignStep::Kept
            },
            PortPlan::Create => {
                self.set_port(at, 0);
                self.asking = Some(Pending::Creation);
                AssignStep::Create(self.zero_payload(at))
            },
            PortPlan::Reassign { source_id } => {
                self.set_port(at, 0);
                self.asking = Some(Pending::Reassignment { source_id: source_id.clone() });
                AssignStep::Reassign { source_id, payload: self.zero_payload(at) }
            },
        }
    }

    fn zero_payload(&self, at: usize) -> (r: SourcePayload)
        requires
            at < self.inputs@.len(),
        ensures
            r.describes(
                self.inputs@[at as int].name@,
                self.inputs@[at as int].endpoint.cloud_address(),
                false,
                self.inputs@[at as int].endpoint.latency_ms,
            ),
    {
        SourcePayload::new(
            self.inputs[at].name.as_str(),
            self.inputs[at].endpoint.cloud_uri().as_str(),
            false,
            self.inputs[at].endpoint.latency_ms,
        )
    }

    fn take(&mut self, source_id: String, address: &str) -> (r: Result<(), AssignError>)
        requires
            old(self).wf(),
            old(self).done() < old(self).inputs@.len(),
        ensures
            final(self).wf(),
            final(self).rest_kept(old(self)),
            final(self).asking is None,
            match bound_port(address@) {
                Some(port) => {
                    &&& r is Ok
                    &&& final(self).inputs@[old(self).done()] == on_port(
                        old(self).inputs@[old(self).done()],
                        port,
                    )
                    &&& final(self).source_ids@ == old(self).source_ids@.push(source_id)
                },
                None => {
                    &&& r is Err && (r->Err_0 matches AssignError::NoPort { address: a, name }
                        && a@ == address@ && name@ == old(self).inputs@[old(self).done()].name@)
                    &&& final(self).inputs == old(self).inputs
                    &&& final(self).source_ids == old(self).source_ids
                },
            },
    {
        let at: usize = self.source_ids.len();
        self.asking = None;
        match listener_port(address) {
            Some(port) => {
                self.set_port(at, port);
                self.source_ids.push(source_id);
                Ok(())
            },
            None => Err(
                AssignError::NoPort {
                    address: address.to_owned(),
                    name: self.inputs[at].name.clone(),
                },
            ),
        }
    }

    /// Open Live made the source and wrote a port into its address.
    pub fn on_created(&mut self, created: &Source) -> (r: Result<(), AssignError>)
        requires
            old(self).wf(),
            old(self).asking matches Some(Pending::Creation),
        ensures
            final(self).wf(),
            final(self).rest_kept(old(self)),
            final(self).asking is None,
            match bound_port(created.address@) {
                Some(port) => {
                    &&& r is Ok
                    &&& final(self).inputs@[old(self).done()] == on_port(
                        old(self).inputs@[old(self).done()],
                        port,
                    )
                    &&& final(self).source_ids@ == old(self).source_ids@.push(created.id)
                },
                None => {
                    &&& r is Err && (r->Err_0 matches AssignError::NoPort { address: a, name }
                        && a@ == created.address@ && name@ == old(self).inputs@[old(
                        self,
                    ).done()].name@)
                    &&& final(self).inputs == old(self).inputs
                    &&& final(self).source_ids == old(self).source_ids
                },
            },
    {
        self.take(created.id.clone(), created.address.as_str())
    }

    /// Open Live was asked for a new port; the sources as it lists them now.
    pub fn on_relisted(&mut self, source_id: String, sources: &Vec<Source>) -> (r: Result<
        (),
        AssignError,
    >)
        requires
            old(self).wf(),
            old(self).reassigns(source_id@),
        ensures
            final(self).wf(),
            final(self).rest_kept(old(self)),
            final(self).asking is None,
            match with_id(sources@, source_id@) {
                Some(stored) => match bound_port(stored.address@) {
                    Some(port) => {
                        &&& r is Ok
                        &&& final(self).inputs@[old(self).done()] == on_port(
                            old(self).inputs@[old(self).done()],
                            port,
                        )
                        &&& final(self).source_ids@ == old(self).source_ids@.push(source_id)
                    },
                    None => {
                        &&& r is Err && (r->Err_0 matches AssignError::NoPort { address: a, name }
                            && a@ == stored.address@ && name@ == old(self).inputs@[old(
                            self,
                        ).done()].name@)
                        &&& final(self).inputs == old(self).inputs
                        &&& final(self).source_ids == old(self).source_ids
                    },
                },
                None => {
                    &&& r is Err && (r->Err_0 matches AssignError::Lost { name } && name@ == old(
                        self,
                    ).inputs@[old(self).done()].name@)
                    &&& final(self).inputs == old(self).inputs
                    &&& final(self).source_ids == old(self).source_ids
                },
            },
    {
        match find_by_id(sources, source_id.as_str()) {
            Some(k) => self.take(source_id, sources[k].address.as_str()),
            None => {
                self.asking = None;
                let at: usize = self.source_ids.len();
                Err(AssignError::Lost { name: self.inputs[at].name.clone() })
            },
        }
    }
}

// ---------------------------------------------------------------------------
// Flows in the way, and flows of ours
// ---------------------------------------------------------------------------

/// Why a flow is removed before a run starts. Two pipelines on one device contend for
/// frames, which presents as stutter rather than as an error.
#[derive(Clone, Copy, Debug, PartialEq, Eq, Structural)]
pub enum Conflict {
    LeftOver,
    HoldsDevice,
}

pub open spec fn opens(input: Input, device: Seq<char>) -> bool {
    input.source matches Captured::Device { device_id, .. } && device_id@ == device
}

pub open spec fn captures(inputs: Seq<Input>, device: Seq<char>) -> bool {
    exists|i: int| 0 <= i < inputs.len() && opens(#[trigger] inputs[i], device)
}

pub open spec fn conflict_of(flow: FlowView, gateway_id: Seq<char>, inputs: Seq<Input>) -> Option<
    Conflict,
> {
    if ours(flow, gateway_id) {
        Some(Conflict::LeftOver)
    } else if captured_device(flow) is Some && captures(inputs, captured_device(flow)->0) {
        Some(Conflict::HoldsDevice)
    } else {
        None
    }
}

fn device_is_captured(inputs: &Vec<Input>, device: &str) -> (r: bool)
    ensures
        r == captures(inputs@, device@),
{
    let mut i: usize = 0;
    while i < inputs.len()
        invariant
            i <= inputs@.len(),
            forall|j: int| 0 <= j < i ==> !opens(#[trigger] inputs@[j], device@),
        decreases inputs@.len() - i,
    {
        if let Captured::Device { device_id, .. } = &inputs[i].source {
            if same_text(device_id.as_str(), device) {
                assert(opens(inputs@[i as int], device@));
                return true;
            }
        }
        i = i + 1;
    }
    false
}

/// Whether an existing flow is in the way of the inputs about to start: one of our own
/// leftovers, or one already holding a camera that is about to be opened.
pub fn conflicts(flow: &Flow, gateway_id: &str, inputs: &Vec<Input>) -> (r: Option<Conflict>)
    ensures
        r == conflict_of(flow@, gateway_id@, inputs@),
{
    if is_ours(flow, gateway_id) {
        return Some(Conflict::LeftOver);
    }
    match capture_device_of(flow) {
        Some(device) => if device_is_captured(inputs, device) {
            Some(Conflict::HoldsDevice)
        } else {
            None
        },
        None => None,
    }
}

/// A flow that is neither ours nor on a camera about to be opened is never removed.
pub proof fn law_unrelated_flows_stay(flow: FlowView, gateway_id: Seq<char>, inputs: Seq<Input>)
    requires
        !ours(flow, gateway_id),
        captured_device(flow) is Some ==> !captures(inputs, captured_device(flow)->0),
    ensures
        conflict_of(flow, gateway_id, inputs) is None,
{
}

/// The line that says a flow was removed, and why.
pub fn removal_line(name: &str, why: Conflict) -> (r: String)
    ensures
        r@ == "  removed "@ + quoted_text(name@) + ", "@ + (match why {
            Conflict::LeftOver => "left over from an earlier run"@,
            Conflict::HoldsDevice => "which was holding one of these devices"@,
        }),
{
    "  removed ".to_owned().concat(quote(name).as_str()).concat(", ").concat(
        match why {
            Conflict::LeftOver => "left over from an earlier run",
            Conflict::HoldsDevice => "which was holding one of these devices",
        },
    )
}

// ---------------------------------------------------------------------------
// The running process
// ---------------------------------------------------------------------------

/// The pid a pidfile holds.
pub fn read_pid(content: &str) -> (r: Option<u32>)
    ensures
        match r {
            Some(pid) => parsed_number(trimmed(content@), u32::MAX as nat) == Some(pid as nat),
            None => parsed_number(trimmed(content@), u32::MAX as nat) is None,
        },
{
    match parse_number(trim(content).as_str(), u32::MAX as u64) {
        Some(n) => Some(n as u32),
        None => None,
    }
}

/// Whether a process is ours to signal: it is alive and its command name holds the
/// expected one. Pids are reused after a reboot, so a stale pidfile must never have an
/// unrelated process signalled.
pub fn process_named(alive: bool, command: Option<&str>, needle: &str) -> (r: bool)
    ensures
        r == (alive && command is Some && contains_text(command->0@, needle@)),
{
    if !alive {
        return false;
    }
    match command {
        Some(name) => contains(name, needle),
        None => false,
    }
}

/// The same for a running gateway. Linux truncates the command name to 15 characters.
pub fn is_running_gateway(alive: bool, command: Option<&str>) -> (r: bool)
    ensures
        r == (alive && command is Some && contains_text(command->0@, "open-live-inges"@)),
{
    process_named(alive, command, "open-live-inges")
}

// ---------------------------------------------------------------------------
// What a run decides
// ---------------------------------------------------------------------------

/// A source is taken away with its gateway exactly when it is listed and its name starts
/// with the gateway's own, whatever its status, address or latency is. What is taken
/// comes in the order of the list, each as often as it stands there.
pub proof fn law_a_sweep_goes_by_the_name_alone(
    all: Seq<Source>,
    gateway_name: Seq<char>,
    s: Source,
)
    ensures
        our_sources(all, gateway_name).contains(s) <==> all.contains(s) && (trimmed(gateway_name)
            + " — "@).is_prefix_of(s.name@),
        our_sources(all, gateway_name) == all.filter(
            |x: Source| (trimmed(gateway_name) + " — "@).is_prefix_of(x.name@),
        ),
    decreases all.len(),
{
    reveal(Seq::filter);
    if all.len() > 0 {
        let init = all.drop_last();
        let x = all.last();
        law_a_sweep_goes_by_the_name_alone(init, gateway_name, s);
        assert(all =~= init.push(x));
        assert(all[all.len() - 1] == x);
        if all.contains(s) {
            let i = all.index_of(s);
            if i < init.len() {
                assert(init[i] == s);
            }
        }
        if init.contains(s) {
            let i = init.index_of(s);
            assert(all[i] == s);
        }
        let m = our_sources(init, gateway_name);
        if (trimmed(gateway_name) + " — "@).is_prefix_of(x.name@) {
            if m.contains(s) {
                let i = m.index_of(s);
                assert(m.push(x)[i] == s);
            }
            assert(m.push(x)[m.len() as int] == x);
            if m.push(x).contains(s) {
                let i = m.push(x).index_of(s);
                if i < m.len() {
                    assert(m[i] == s);
                }
            }
        }
    }
}

/// Whoever listens names the ports. The cloud listens where the venue calls, so its range
/// is used where it publishes one and the one in the settings stands in for it; a venue
/// that listens uses its own or none.
pub proof fn law_the_range_is_the_listeners(own: PortRange, theirs: PortRange, any: Option<PortRange>)
    ensures
        range_in_use(UplinkMode::Caller, any, Some(theirs)) == Some((theirs, PortSource::OpenLive)),
        range_in_use(UplinkMode::Caller, Some(own), None) == Some((own, PortSource::Settings)),
        range_in_use(UplinkMode::Listener, Some(own), any) == Some((own, PortSource::Settings)),
        range_in_use(UplinkMode::Listener, None, any) is None,
        range_in_use(UplinkMode::Caller, None, None) is None,
{
}

/// Open Live is asked only by a box that registers, and then always for the ports that
/// it is to call, or for a host that the settings leave out.
pub proof fn law_open_live_is_asked_for_what_is_missing(cfg: Config, registered: bool)
    ensures
        !registered ==> !asks(cfg, registered),
        registered && cfg.uplink.mode == UplinkMode::Caller ==> asks(cfg, registered),
        registered && (cfg.uplink.host is None || blank(cfg.uplink.host->0@)) ==> asks(
            cfg,
            registered,
        ),
        cfg.uplink.mode == UplinkMode::Listener && cfg.uplink.host is Some && !blank(
            cfg.uplink.host->0@,
        ) ==> !asks(cfg, registered),
{
}

/// A host in the settings is used, without the white space around it, whatever Open Live
/// says; without one the host that Open Live reports is.
pub proof fn law_the_host_in_the_settings_wins(cfg: Config, asked: Asked, info: ServerInfo)
    ensures
        cfg.uplink.host is Some && !blank(cfg.uplink.host->0@) ==> host_in_use(cfg, asked) == Some(
            trimmed(cfg.uplink.host->0@),
        ),
        cfg.uplink.host is None || blank(cfg.uplink.host->0@) ==> {
            &&& info.strom_host is Some ==> host_in_use(cfg, Asked::Info(Some(info))) == Some(
                info.strom_host->0@,
            )
            &&& info.strom_host is None ==> host_in_use(cfg, Asked::Info(Some(info))) is None
            &&& host_in_use(cfg, Asked::Info(None)) is None
            &&& host_in_use(cfg, Asked::No) is None
        },
        info_range(info_of(Asked::Info(Some(info)))) == info.srt_port_range,
        info_lease(info_of(Asked::Info(Some(info)))) == info.srt_port_lease,
        asked is Failed ==> info_range(info_of(asked)) is None,
{
}

/// A run starts without Open Live exactly when the settings have both a host and a range.
pub proof fn law_a_run_can_do_without_open_live(cfg: Config)
    ensures
        can_do_without(cfg) <==> cfg.uplink.host is Some && !blank(cfg.uplink.host->0@) && !blank(
            cfg.uplink.port_range@,
        ) && parsed_range(cfg.uplink.port_range@) is Ok,
        blank(cfg.uplink.port_range@) ==> local_range(cfg.uplink.port_range@) == Ok::<
            Option<PortRange>,
            (Fault, Seq<char>),
        >(None),
{
}

/// What a poll makes of a counter, whatever came before: bytes that moved put the feed on
/// air and end the quiet; bytes that stand still are one more quiet poll, and the third
/// in a row takes the feed off. A feed that is off stays off while nothing moves, and the
/// counter read is always the one to compare with next.
pub proof fn law_a_poll_compares_two_counters(
    on_air: bool,
    before: u64,
    quiet: u32,
    bytes: u64,
)
    ensures
        ({
            let v = judged(on_air, Some(before), quiet, bytes);
            &&& v.1 == Some(bytes)
            &&& bytes != before && bytes > 0 ==> v.0 && v.2 == 0
            &&& bytes == before || bytes == 0 ==> (v.0 <==> on_air && quiet + 1 < 3)
            &&& (bytes == before || bytes == 0) && quiet < u32::MAX ==> v.2 == quiet + 1
        }),
        ({
            let v = judged(on_air, None, quiet, bytes);
            &&& v.1 == Some(bytes)
            &&& v.0 <==> on_air && quiet + 1 < 3
        }),
{
}

/// The source of an input is the one with the id that is remembered, and else the one
/// with its name. Of several the first that is listed is taken, and there is none exactly
/// when no listed source has either.
pub proof fn law_a_source_is_found_by_its_id_before_its_name(
    sources: Seq<Source>,
    source_id: Option<Seq<char>>,
    name: Seq<char>,
    k: int,
)
    ensures
        0 <= k < sources.len() && source_id is Some && sources[k].id@ == source_id->0 && (forall|
            j: int,
        |
            0 <= j < k ==> (#[trigger] sources[j]).id@ != source_id->0) ==> adopted(
            sources,
            source_id,
            name,
        ) == Some(sources[k]),
        (source_id is None || forall|j: int|
            0 <= j < sources.len() ==> (#[trigger] sources[j]).id@ != source_id->0) ==> {
            &&& 0 <= k < sources.len() && sources[k].name@ == name && (forall|j: int|
                0 <= j < k ==> (#[trigger] sources[j]).name@ != name) ==> adopted(
                sources,
                source_id,
                name,
            ) == Some(sources[k])
            &&& (forall|j: int| 0 <= j < sources.len() ==> (#[trigger] sources[j]).name@ != name)
                ==> adopted(sources, source_id, name) is None
        },
{
    if source_id is Some {
        lemma_with_id(sources, source_id->0, k);
    }
    lemma_with_name(sources, name, k);
}

proof fn lemma_with_id(sources: Seq<Source>, id: Seq<char>, k: int)
    ensures
        0 <= k < sources.len() && sources[k].id@ == id && (forall|j: int|
            0 <= j < k ==> (#[trigger] sources[j]).id@ != id) ==> with_id(sources, id) == Some(
            sources[k],
        ),
        (forall|j: int| 0 <= j < sources.len() ==> (#[trigger] sources[j]).id@ != id) ==> with_id(
            sources,
            id,
        ) is None,
    decreases sources.len(),
{
    if sources.len() > 0 {
        let rest = sources.drop_first();
        lemma_with_id(rest, id, k - 1);
        assert forall|j: int| 0 <= j < rest.len() implies #[trigger] rest[j] == sources[j + 1] by {}
        if k > 0 && k < sources.len() {
            assert(rest[k - 1] == sources[k]);
        }
    }
}

proof fn lemma_with_name(sources: Seq<Source>, name: Seq<char>, k: int)
    ensures
        0 <= k < sources.len() && sources[k].name@ == name && (forall|j: int|
            0 <= j < k ==> (#[trigger] sources[j]).name@ != name) ==> with_name(sources, name)
            == Some(sources[k]),
        (forall|j: int| 0 <= j < sources.len() ==> (#[trigger] sources[j]).name@ != name)
            ==> with_name(sources, name) is None,
    decreases sources.len(),
{
    if sources.len() > 0 {
        let rest = sources.drop_first();
        lemma_with_name(rest, name, k - 1);
        assert forall|j: int| 0 <= j < rest.len() implies #[trigger] rest[j] == sources[j + 1] by {}
        if k > 0 && k < sources.len() {
            assert(rest[k - 1] == sources[k]);
        }
    }
}

/// A source is reported active exactly when its feed is on air, or when Strom is out of
/// reach and the source was active already.
pub proof fn law_a_source_is_active_when_its_feed_is_on_air(
    state: State,
    existing: Option<Source>,
)
    ensures
        state is OnAir ==> reported_active(state, existing),
        state is Starting || state is Waiting || state is Failed ==> !reported_active(
            state,
            existing,
        ),
        state is Unreachable && existing is None ==> !reported_active(state, existing),
        state is Unreachable && existing is Some ==> (reported_active(state, existing)
            <==> existing->0.status@ == "active"@),
{
}

/// A source keeps the port that its address binds exactly when that port lies within the
/// range.
pub proof fn law_a_port_within_the_range_is_kept(stored: Source, range: PortRange)
    ensures
        kept_port(stored, range) is Some <==> bound_port(stored.address@) is Some && range.first
            <= bound_port(stored.address@)->0 <= range.last,
        kept_port(stored, range) is Some ==> kept_port(stored, range) == bound_port(
            stored.address@,
        ),
{
}

/// Giving an input a port changes its port and nothing else of it.
pub proof fn law_a_port_is_all_that_changes(input: Input, port: u16)
    ensures
        on_port(input, port).endpoint.port == port,
        on_port(input, input.endpoint.port) == input,
        on_port(on_port(input, port), input.endpoint.port) == input,
        on_port(input, port).id == input.id,
        on_port(input, port).name == input.name,
        on_port(input, port).source == input.source,
        on_port(input, port).endpoint.mode == input.endpoint.mode,
        on_port(input, port).endpoint.cloud_host == input.endpoint.cloud_host,
        on_port(input, port).endpoint.passphrase == input.endpoint.passphrase,
{
}

/// A flow stands in the way of a run exactly when it is one that the gateway built, or
/// when it captures a device that the run is to capture; the first is what it is called
/// where it is both.
pub proof fn law_a_flow_in_the_way_is_ours_or_holds_a_device(
    flow: FlowView,
    gateway_id: Seq<char>,
    inputs: Seq<Input>,
    k: int,
)
    ensures
        ours(flow, gateway_id) <==> conflict_of(flow, gateway_id, inputs) == Some(
            Conflict::LeftOver,
        ),
        0 <= k < inputs.len() && inputs[k].source is Device && captured_device(flow) == Some(
            inputs[k].source->device_id@,
        ) ==> conflict_of(flow, gateway_id, inputs) is Some,
        conflict_of(flow, gateway_id, inputs) == Some(Conflict::HoldsDevice) ==> captured_device(
            flow,
        ) is Some && exists|i: int|
            0 <= i < inputs.len() && (#[trigger] inputs[i]).source is Device
                && inputs[i].source->device_id@ == captured_device(flow)->0,
{
    if 0 <= k < inputs.len() && inputs[k].source is Device && captured_device(flow) == Some(
        inputs[k].source->device_id@,
    ) {
        assert(opens(inputs[k], captured_device(flow)->0));
    }
    if conflict_of(flow, gateway_id, inputs) == Some(Conflict::HoldsDevice) {
        let i = choose|i: int|
            0 <= i < inputs.len() && opens(#[trigger] inputs[i], captured_device(flow)->0);
        assert(inputs[i].source is Device);
    }
}

/// Two states look the same exactly when they are the same, a failure by its own words.
pub proof fn law_states_are_told_apart(a: State, b: State)
    ensures
        same_state(a, b) <==> match (a, b) {
            (State::Failed(x), State::Failed(y)) => x@ == y@,
            _ => a == b,
        },
        same_state(a, b) == same_state(b, a),
        same_state(a, b) ==> state_text(a) == state_text(b),
{
}

/// A poll leaves alone what the feed is: its input, its flow, its source and what was
/// shown of it.
pub proof fn law_a_poll_leaves_the_feed_as_it_is(before: Live, after: Live)
    ensures
        after.same_feed(&before) <==> after.input == before.input && after.flow_id
            == before.flow_id && after.shown == before.shown && after.source_id
            == before.source_id,
{
}

/// Giving one input its port leaves the range, the sources and every other input as they
/// were.
pub proof fn law_one_input_is_given_its_port_at_a_time(
    before: PortAssignment,
    after: PortAssignment,
    k: int,
)
    requires
        after.rest_kept(&before),
    ensures
        after.range == before.range,
        after.sources == before.sources,
        after.inputs@.len() == before.inputs@.len(),
        0 <= k < before.inputs@.len() && k != before.source_ids@.len() ==> after.inputs@[k]
            == before.inputs@[k],
{
}

/// The input whose turn it is is the first without a source, and the source that it may
/// take over is the first that is listed under its name.
pub proof fn law_inputs_take_their_turns(p: PortAssignment, k: int)
    requires
        p.wf(),
        p.source_ids@.len() < p.inputs@.len(),
    ensures
        p.done() == p.source_ids@.len(),
        ({
            let name = p.inputs@[p.source_ids@.len() as int].name@;
            &&& 0 <= k < p.sources@.len() && p.sources@[k].name@ == name && (forall|j: int|
                0 <= j < k ==> (#[trigger] p.sources@[j]).name@ != name) ==> p.existing() == Some(
                p.sources@[k],
            )
            &&& (forall|j: int| 0 <= j < p.sources@.len() ==> (#[trigger] p.sources@[j]).name@
                != name) ==> p.existing() is None
        }),
{
    lemma_with_name(p.sources@, p.inputs@[p.source_ids@.len() as int].name@, k);
}

/// The two places that a range can come from are told by name, and so is each state.
pub proof fn law_places_and_states_are_told_by_name(e: String)
    ensures
        port_source_text(PortSource::OpenLive) == "Open Live"@,
        port_source_text(PortSource::Settings) == "the settings"@,
        state_text(State::Starting) == "starting"@,
        state_text(State::Waiting) == "waiting for a receiver"@,
        state_text(State::OnAir) == "on air, the far end is receiving"@,
        state_text(State::Unreachable) == "lost contact with Strom"@,
        state_text(State::Failed(e)) == "failed: "@ + e@,
{
}

/// Why there is no range is told by what Open Live said of its lease.
pub proof fn law_a_missing_range_is_explained_by_the_lease(lease: Option<Seq<char>>)
    ensures
        no_range_reason(Some("pending"@))
            == "Open Live is still waiting for its SRT port range from Strom (it retries every minute); wait and try again"@,
        no_range_reason(Some("unsupported"@))
            == "Open Live's Strom does not lease SRT ports; upgrade it"@,
        no_range_reason(Some("disabled"@)) == "Open Live has SRT port leasing disabled"@,
        lease != Some("pending"@) && lease != Some("unsupported"@) && lease != Some("disabled"@)
            ==> no_range_reason(lease)
            == "Open Live publishes no SRT port range; upgrade it, or turn registration on"@,
{
    reveal_strlit("pending");
    reveal_strlit("unsupported");
    reveal_strlit("disabled");
    assert("pending"@.len() == 7 && "unsupported"@.len() == 11 && "disabled"@.len() == 8);
}

} // verus!
