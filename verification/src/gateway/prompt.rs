//! Interactive setup of the gateway: what is asked for, what each answer changes, and
//! what is said about it.
//!
//! Checking each answer as it is given is the point. A wrong credential that surfaces at
//! the prompt costs a retype; the same mistake surfacing later looks like a feed that
//! silently goes nowhere.

use crate::config::AuthMode;
use crate::gateway::config::{
    AppConfig, GatewayConfig, GatewayIdentity, OpenLiveConfig, StromConfig, UplinkMode,
    UplinkTemplate, VideoConfig,
};
use crate::local_strom::authority;
use crate::setup::{infer_auth_mode as infer_mode, mode_for_host, none_if_blank, Start};
use crate::strom::Reachability;
use crate::text::{
    blank, dec, decimal, is_blank, join, joined, opt_text, parse_number, parsed_number, same_text,
    texts, trim, trimmed, unicode_lowercase,
};
use vstd::prelude::*;

verus! {

// ---------------------------------------------------------------------------
// Asking
// ---------------------------------------------------------------------------

/// A question with its default, where it has one.
pub open spec fn prompt_text(label: Seq<char>, default: Seq<char>) -> Seq<char> {
    if default.len() > 0 {
        label + " ("@ + default + "): "@
    } else {
        label + ": "@
    }
}

pub fn prompt(label: &str, default: &str) -> (r: String)
    ensures
        r@ == prompt_text(label@, default@),
{
    if default.is_empty() {
        label.to_owned().concat(": ")
    } else {
        label.to_owned().concat(" (").concat(default).concat("): ")
    }
}

/// What a line means: itself without surrounding blanks, or the default where it is
/// blank.
pub open spec fn accepted(line: Seq<char>, default: Seq<char>) -> Seq<char> {
    if blank(line) {
        default
    } else {
        trimmed(line)
    }
}

pub fn accept(line: &str, default: &str) -> (r: String)
    ensures
        r@ == accepted(line@, default@),
{
    let t = trim(line);
    if t.as_str().is_empty() {
        default.to_owned()
    } else {
        t
    }
}

/// A question with a fixed set of answers.
pub fn choice_label(label: &str, options: &Vec<String>) -> (r: String)
    ensures
        r@ == label@ + " ["@ + joined(texts(options@), "/"@) + "]"@,
{
    label.to_owned().concat(" [").concat(join(options, "/").as_str()).concat("]")
}

/// What is said to an answer that is not one of them.
pub fn choice_hint(options: &Vec<String>) -> (r: String)
    ensures
        r@ == "  please answer one of: "@ + joined(texts(options@), ", "@),
{
    "  please answer one of: ".to_owned().concat(join(options, ", ").as_str())
}

/// A whole number, or nothing where the question has to be asked again.
pub fn accept_number(line: &str, default: u32) -> (r: Option<u32>)
    ensures
        match r {
            Some(n) => parsed_number(accepted(line@, dec(default as nat)), u32::MAX as nat) == Some(
                n as nat,
            ),
            None => parsed_number(accepted(line@, dec(default as nat)), u32::MAX as nat) is None,
        },
{
    let answer = accept(line, decimal(default as u64).as_str());
    match parse_number(answer.as_str(), u32::MAX as u64) {
        Some(n) => Some(n as u32),
        None => None,
    }
}

// ---------------------------------------------------------------------------
// Whether anything has to be asked
// ---------------------------------------------------------------------------

/// The word for a kind of credential.
pub open spec fn mode_word(mode: AuthMode) -> Seq<char> {
    match mode {
        AuthMode::Osc => "osc"@,
        AuthMode::Direct => "direct"@,
    }
}

/// Which kind of Open Live credential an address implies. Only the real Open Source
/// Cloud domain takes the token exchange; a host that merely mentions it does not.
pub fn infer_auth_mode(url: &str) -> (r: &'static str)
    ensures
        r@ == mode_word(mode_for_host(unicode_lowercase(authority(url@)))),
{
    match infer_mode(url) {
        AuthMode::Osc => "osc",
        AuthMode::Direct => "direct",
    }
}

/// With registration off there is nothing to register, so no address or credential is
/// needed.
pub open spec fn incomplete(cfg: GatewayConfig) -> bool {
    ||| blank(cfg.gateway.name@)
    ||| cfg.open_live.register && (cfg.open_live.url is None || (cfg.open_live.auth_mode@ == "osc"@
        && cfg.open_live.api_key is None))
}

/// Whether anything still has to be asked for.
pub fn needs_setup(cfg: &GatewayConfig) -> (r: bool)
    ensures
        r == incomplete(*cfg),
{
    if is_blank(cfg.gateway.name.as_str()) {
        return true;
    }
    if !cfg.open_live.register {
        return false;
    }
    cfg.open_live.url.is_none() || (same_text(cfg.open_live.auth_mode.as_str(), "osc")
        && cfg.open_live.api_key.is_none())
}

/// Whether setup runs. Without a terminal it refuses: a prompt on a closed stdin would
/// block forever with nothing to explain why.
pub fn start_setup(cfg: &GatewayConfig, force: bool, terminal: bool) -> (r: Start)
    ensures
        r == (if !force && !incomplete(*cfg) {
            Start::Skip
        } else if terminal {
            Start::Ask
        } else {
            Start::Refuse
        }),
{
    if !force && !needs_setup(cfg) {
        Start::Skip
    } else if terminal {
        Start::Ask
    } else {
        Start::Refuse
    }
}

pub fn refusal() -> (r: String)
    ensures
        r@
            == "settings are incomplete and there is no terminal to ask on — run it interactively once, or fill in the config file"@,
{
    "settings are incomplete and there is no terminal to ask on — run it interactively once, or fill in the config file".to_owned()
}

// ---------------------------------------------------------------------------
// Answers
// ---------------------------------------------------------------------------

/// The name that is offered: the one there is, else the host's, else a fixed one.
pub fn default_name(cfg: &GatewayConfig, host: Option<String>) -> (r: String)
    ensures
        r@ == (if !blank(cfg.gateway.name@) {
            cfg.gateway.name@
        } else {
            match host {
                Some(h) => h@,
                None => "gateway"@,
            }
        }),
{
    if !is_blank(cfg.gateway.name.as_str()) {
        return cfg.gateway.name.clone();
    }
    match host {
        Some(h) => h,
        None => "gateway".to_owned(),
    }
}

pub fn on_name(cfg: &mut GatewayConfig, line: &str, default: &str)
    ensures
        final(cfg).gateway.name@ == accepted(line@, default@),
        *final(cfg) == (GatewayConfig {
            gateway: GatewayIdentity { name: final(cfg).gateway.name, ..old(cfg).gateway },
            ..*old(cfg)
        }),
{
    cfg.gateway.name = accept(line, default);
}

/// An address brings its kind of credential with it. The result is the label under
/// which the credential is asked for, and what is said before.
pub fn on_url(cfg: &mut GatewayConfig, line: &str) -> (r: (String, String))
    ensures
        ({
            let default = match old(cfg).open_live.url {
                Some(url) => url@,
                None => "https://"@,
            };
            let url = accepted(line@, default);
            let mode = mode_for_host(unicode_lowercase(authority(url)));
            &&& opt_text(final(cfg).open_live.url) == Some(url)
            &&& final(cfg).open_live.auth_mode@ == mode_word(mode)
            &&& *final(cfg) == (GatewayConfig {
                open_live: OpenLiveConfig {
                    url: final(cfg).open_live.url,
                    auth_mode: final(cfg).open_live.auth_mode,
                    ..old(cfg).open_live
                },
                ..*old(cfg)
            })
            &&& r.0@ == (match mode {
                AuthMode::Osc => "OSC personal access token for Open Live"@,
                AuthMode::Direct => "Open Live API key (blank if it needs none)"@,
            })
            &&& r.1@ == (match mode {
                AuthMode::Osc => "  that is an Open Source Cloud address, so it needs an OSC token"@,
                AuthMode::Direct => "  self-hosted Open Live: it may need an API key, or none at all"@,
            })
        }),
{
    let url = match &cfg.open_live.url {
        Some(stored) => accept(line, stored.as_str()),
        None => accept(line, "https://"),
    };
    let mode = infer_mode(url.as_str());
    cfg.open_live.auth_mode = infer_auth_mode(url.as_str()).to_owned();
    cfg.open_live.url = Some(url);
    match mode {
        AuthMode::Osc => (
            "OSC personal access token for Open Live".to_owned(),
            "  that is an Open Source Cloud address, so it needs an OSC token".to_owned(),
        ),
        AuthMode::Direct => (
            "Open Live API key (blank if it needs none)".to_owned(),
            "  self-hosted Open Live: it may need an API key, or none at all".to_owned(),
        ),
    }
}

/// A blank credential keeps the one there is.
pub fn on_credential(cfg: &mut GatewayConfig, secret: &str)
    ensures
        blank(secret@) ==> *final(cfg) == *old(cfg),
        !blank(secret@) ==> opt_text(final(cfg).open_live.api_key) == Some(trimmed(secret@))
            && *final(cfg) == (GatewayConfig {
            open_live: OpenLiveConfig {
                api_key: final(cfg).open_live.api_key,
                ..old(cfg).open_live
            },
            ..*old(cfg)
        }),
{
    let t = trim(secret);
    if !t.as_str().is_empty() {
        cfg.open_live.api_key = Some(t);
    }
}

/// What is said about Open Live once it was asked.
pub fn say_open_live(asked: &Result<Option<String>, String>, host_configured: bool) -> (r: Vec<
    String,
>)
    ensures
        texts(r@) == (match *asked {
            Ok(Some(host)) => if host_configured {
                seq!["  reached Open Live; its Strom is "@ + host@]
            } else {
                seq![
                    "  reached Open Live; its Strom is "@ + host@,
                    "  feeds will be sent there"@,
                ]
            },
            Ok(None) => seq!["  reached Open Live, but it did not report a Strom host"@],
            Err(e) => seq!["  could not reach Open Live: "@ + e@],
        }),
{
    let mut lines: Vec<String> = Vec::new();
    match asked {
        Ok(Some(host)) => {
            lines.push("  reached Open Live; its Strom is ".to_owned().concat(host.as_str()));
            assert(texts(lines@) =~= seq!["  reached Open Live; its Strom is "@ + host@]);
            if !host_configured {
                lines.push("  feeds will be sent there".to_owned());
                assert(texts(lines@) =~= seq![
                    "  reached Open Live; its Strom is "@ + host@,
                    "  feeds will be sent there"@,
                ]);
            }
        },
        Ok(None) => {
            lines.push("  reached Open Live, but it did not report a Strom host".to_owned());
            assert(texts(lines@) =~= seq![
                "  reached Open Live, but it did not report a Strom host"@,
            ]);
        },
        Err(e) => {
            lines.push("  could not reach Open Live: ".to_owned().concat(e.as_str()));
            assert(texts(lines@) =~= seq!["  could not reach Open Live: "@ + e@]);
        },
    }
    lines
}

pub fn on_strom_url(cfg: &mut GatewayConfig, line: &str)
    ensures
        final(cfg).strom.url@ == accepted(line@, old(cfg).strom.url@),
        *final(cfg) == (GatewayConfig {
            strom: StromConfig { url: final(cfg).strom.url, ..old(cfg).strom },
            ..*old(cfg)
        }),
{
    cfg.strom.url = accept(line, cfg.strom.url.as_str());
}

/// What is said about the local Strom once it was probed: the first time, or after a
/// credential was entered.
pub fn say_strom(found: &Reachability, again: bool) -> (r: String)
    ensures
        r@ == (match *found {
            Reachability::Reachable { video_sources } => "  reached Strom; it can see "@ + dec(
                video_sources as nat,
            ) + " video source(s)"@,
            Reachability::NeedsCredential => if again {
                "  Strom still refuses that credential"@
            } else {
                "  Strom is there but wants a credential (it runs with STROM_API_KEY set)"@
            },
            Reachability::Unreachable(e) => "  could not reach Strom: "@ + e@,
        }),
{
    match found {
        Reachability::Reachable { video_sources } => "  reached Strom; it can see ".to_owned().concat(
            decimal(*video_sources as u64).as_str(),
        ).concat(" video source(s)"),
        Reachability::NeedsCredential => if again {
            "  Strom still refuses that credential".to_owned()
        } else {
            "  Strom is there but wants a credential (it runs with STROM_API_KEY set)".to_owned()
        },
        Reachability::Unreachable(e) => "  could not reach Strom: ".to_owned().concat(e.as_str()),
    }
}

/// A blank key takes the one there is away.
pub fn on_strom_key(cfg: &mut GatewayConfig, secret: &str)
    ensures
        opt_text(final(cfg).strom.api_key) == none_if_blank(secret@),
        *final(cfg) == (GatewayConfig {
            strom: StromConfig { api_key: final(cfg).strom.api_key, ..old(cfg).strom },
            ..*old(cfg)
        }),
{
    cfg.strom.api_key = crate::setup::blank_to_none(secret);
}

pub open spec fn direction_word(mode: UplinkMode) -> Seq<char> {
    match mode {
        UplinkMode::Caller => "caller"@,
        UplinkMode::Listener => "listener"@,
        UplinkMode::Rendezvous => "rendezvous"@,
    }
}

pub fn name_direction(mode: UplinkMode) -> (r: &'static str)
    ensures
        r@ == direction_word(mode),
{
    match mode {
        UplinkMode::Caller => "caller",
        UplinkMode::Listener => "listener",
        UplinkMode::Rendezvous => "rendezvous",
    }
}

pub open spec fn direction_named(s: Seq<char>) -> Option<UplinkMode> {
    if s == "caller"@ {
        Some(UplinkMode::Caller)
    } else if s == "listener"@ {
        Some(UplinkMode::Listener)
    } else if s == "rendezvous"@ {
        Some(UplinkMode::Rendezvous)
    } else {
        None
    }
}

/// Takes a direction, or says that the answer is none and has to be given again.
pub fn on_direction(cfg: &mut GatewayConfig, line: &str) -> (r: bool)
    ensures
        ({
            let answer = accepted(line@, direction_word(old(cfg).app.uplink.mode));
            match direction_named(answer) {
                Some(mode) => r && *final(cfg) == (GatewayConfig {
                    app: AppConfig {
                        uplink: UplinkTemplate { mode, ..old(cfg).app.uplink },
                        ..old(cfg).app
                    },
                    ..*old(cfg)
                }),
                None => !r && *final(cfg) == *old(cfg),
            }
        }),
{
    let answer = accept(line, name_direction(cfg.app.uplink.mode));
    if same_text(answer.as_str(), "caller") {
        cfg.app.uplink.mode = UplinkMode::Caller;
    } else if same_text(answer.as_str(), "listener") {
        cfg.app.uplink.mode = UplinkMode::Listener;
    } else if same_text(answer.as_str(), "rendezvous") {
        cfg.app.uplink.mode = UplinkMode::Rendezvous;
    } else {
        return false;
    }
    true
}

/// Whether the cloud dials this machine, which then needs an address.
pub open spec fn cloud_dials(mode: UplinkMode) -> bool {
    mode == UplinkMode::Listener || mode == UplinkMode::Rendezvous
}

pub fn needs_public_host(mode: UplinkMode) -> (r: bool)
    ensures
        r == cloud_dials(mode),
{
    mode == UplinkMode::Listener || mode == UplinkMode::Rendezvous
}

pub fn on_public_host(cfg: &mut GatewayConfig, line: &str)
    ensures
        ({
            let default = match old(cfg).app.uplink.public_host {
                Some(h) => h@,
                None => Seq::empty(),
            };
            let answer = accepted(line@, default);
            &&& opt_text(final(cfg).app.uplink.public_host) == (if blank(answer) {
                None
            } else {
                Some(answer)
            })
            &&& *final(cfg) == (GatewayConfig {
                app: AppConfig {
                    uplink: UplinkTemplate {
                        public_host: final(cfg).app.uplink.public_host,
                        ..old(cfg).app.uplink
                    },
                    ..old(cfg).app
                },
                ..*old(cfg)
            })
        }),
{
    let answer = match &cfg.app.uplink.public_host {
        Some(h) => accept(line, h.as_str()),
        None => accept(line, String::new().as_str()),
    };
    cfg.app.uplink.public_host = if is_blank(answer.as_str()) {
        None
    } else {
        Some(answer)
    };
}

pub fn on_port_range(cfg: &mut GatewayConfig, line: &str)
    ensures
        final(cfg).app.uplink.port_range@ == accepted(line@, old(cfg).app.uplink.port_range@),
        *final(cfg) == (GatewayConfig {
            app: AppConfig {
                uplink: UplinkTemplate {
                    port_range: final(cfg).app.uplink.port_range,
                    ..old(cfg).app.uplink
                },
                ..old(cfg).app
            },
            ..*old(cfg)
        }),
{
    cfg.app.uplink.port_range = accept(line, cfg.app.uplink.port_range.as_str());
}

/// Takes a latency, or says that the answer is no whole number.
pub fn on_latency(cfg: &mut GatewayConfig, line: &str) -> (r: bool)
    ensures
        match parsed_number(
            accepted(line@, dec(old(cfg).app.uplink.latency_ms as nat)),
            u32::MAX as nat,
        ) {
            Some(n) => r && *final(cfg) == (GatewayConfig {
                app: AppConfig {
                    uplink: UplinkTemplate { latency_ms: n as u32, ..old(cfg).app.uplink },
                    ..old(cfg).app
                },
                ..*old(cfg)
            }),
            None => !r && *final(cfg) == *old(cfg),
        },
{
    match accept_number(line, cfg.app.uplink.latency_ms) {
        Some(n) => {
            cfg.app.uplink.latency_ms = n;
            true
        },
        None => false,
    }
}

pub fn on_resolution(cfg: &mut GatewayConfig, line: &str)
    ensures
        final(cfg).app.video_resolution@ == trimmed(
            accepted(line@, old(cfg).app.video_resolution@),
        ),
        *final(cfg) == (GatewayConfig {
            app: AppConfig {
                video_resolution: final(cfg).app.video_resolution,
                ..old(cfg).app
            },
            ..*old(cfg)
        }),
{
    let answer = accept(line, cfg.app.video_resolution.as_str());
    cfg.app.video_resolution = trim(answer.as_str());
}

pub fn on_framerate(cfg: &mut GatewayConfig, line: &str)
    ensures
        final(cfg).app.video_framerate@ == trimmed(accepted(line@, old(cfg).app.video_framerate@)),
        *final(cfg) == (GatewayConfig {
            app: AppConfig { video_framerate: final(cfg).app.video_framerate, ..old(cfg).app },
            ..*old(cfg)
        }),
{
    let answer = accept(line, cfg.app.video_framerate.as_str());
    cfg.app.video_framerate = trim(answer.as_str());
}

/// Takes a bitrate, or says that the answer is no whole number.
pub fn on_bitrate(cfg: &mut GatewayConfig, line: &str) -> (r: bool)
    ensures
        match parsed_number(
            accepted(line@, dec(old(cfg).app.video.bitrate_kbps as nat)),
            u32::MAX as nat,
        ) {
            Some(n) => r && *final(cfg) == (GatewayConfig {
                app: AppConfig {
                    video: VideoConfig { bitrate_kbps: n as u32, ..old(cfg).app.video },
                    ..old(cfg).app
                },
                ..*old(cfg)
            }),
            None => !r && *final(cfg) == *old(cfg),
        },
{
    match accept_number(line, cfg.app.video.bitrate_kbps) {
        Some(n) => {
            cfg.app.video.bitrate_kbps = n;
            true
        },
        None => false,
    }
}

// ---------------------------------------------------------------------------
// The order of the questions
// ---------------------------------------------------------------------------

/// What is asked, in order.
#[derive(Clone, Copy, Debug, PartialEq, Eq, Structural)]
pub enum Step {
    Name,
    Url,
    Credential,
    StromUrl,
    StromKey,
    Direction,
    PublicHost,
    PortRange,
    Latency,
    Resolution,
    Framerate,
    Bitrate,
    Done,
}

pub open spec fn rank(step: Step) -> int {
    match step {
        Step::Name => 0,
        Step::Url => 1,
        Step::Credential => 2,
        Step::StromUrl => 3,
        Step::StromKey => 4,
        Step::Direction => 5,
        Step::PublicHost => 6,
        Step::PortRange => 7,
        Step::Latency => 8,
        Step::Resolution => 9,
        Step::Framerate => 10,
        Step::Bitrate => 11,
        Step::Done => 12,
    }
}

pub open spec fn step_after(step: Step, strom_wants_key: bool, mode: UplinkMode) -> Step {
    match step {
        Step::Name => Step::Url,
        Step::Url => Step::Credential,
        Step::Credential => Step::StromUrl,
        Step::StromUrl => if strom_wants_key {
            Step::StromKey
        } else {
            Step::Direction
        },
        Step::StromKey => Step::Direction,
        Step::Direction => if cloud_dials(mode) {
            Step::PublicHost
        } else {
            Step::PortRange
        },
        Step::PublicHost => Step::PortRange,
        Step::PortRange => Step::Latency,
        Step::Latency => Step::Resolution,
        Step::Resolution => Step::Framerate,
        Step::Framerate => Step::Bitrate,
        Step::Bitrate => Step::Done,
        Step::Done => Step::Done,
    }
}

/// What is asked once a question was answered. A key for the local Strom is asked for
/// only where a probe found that it wants one, and this machine's address only where the
/// cloud dials it.
pub fn next_step(step: Step, strom_wants_key: bool, mode: UplinkMode) -> (r: Step)
    ensures
        r == step_after(step, strom_wants_key, mode),
{
    match step {
        Step::Name => Step::Url,
        Step::Url => Step::Credential,
        Step::Credential => Step::StromUrl,
        Step::StromUrl => if strom_wants_key {
            Step::StromKey
        } else {
            Step::Direction
        },
        Step::StromKey => Step::Direction,
        Step::Direction => if needs_public_host(mode) {
            Step::PublicHost
        } else {
            Step::PortRange
        },
        Step::PublicHost => Step::PortRange,
        Step::PortRange => Step::Latency,
        Step::Latency => Step::Resolution,
        Step::Resolution => Step::Framerate,
        Step::Framerate => Step::Bitrate,
        Step::Bitrate => Step::Done,
        Step::Done => Step::Done,
    }
}

/// Every accepted answer leads on, so setup ends.
pub proof fn law_every_answer_leads_on(step: Step, strom_wants_key: bool, mode: UplinkMode)
    requires
        step != Step::Done,
    ensures
        rank(step) < rank(step_after(step, strom_wants_key, mode)) <= rank(Step::Done),
{
}

// ---------------------------------------------------------------------------
// What the questions go by
// ---------------------------------------------------------------------------

/// A blank line takes the default, and any other is taken without the white space around
/// it. The default is shown where there is one.
pub proof fn law_a_blank_line_takes_the_default(
    line: Seq<char>,
    label: Seq<char>,
    default: Seq<char>,
)
    ensures
        trimmed(line).len() == 0 ==> accepted(line, default) == default,
        trimmed(line).len() > 0 ==> accepted(line, default) == trimmed(line),
        default.len() == 0 ==> prompt_text(label, default) == label + ": "@,
        default.len() > 0 ==> prompt_text(label, default) == label + " ("@ + default + "): "@,
{
}

/// A direction is read back from its own word, and no other text is one.
pub proof fn law_a_direction_is_read_back(mode: UplinkMode, s: Seq<char>)
    ensures
        direction_named(direction_word(mode)) == Some(mode),
        direction_named(s) == Some(mode) ==> s == direction_word(mode),
        direction_word(UplinkMode::Caller) == "caller"@,
        direction_word(UplinkMode::Listener) == "listener"@,
        direction_word(UplinkMode::Rendezvous) == "rendezvous"@,
{
    reveal_strlit("caller");
    reveal_strlit("listener");
    reveal_strlit("rendezvous");
    assert("caller"@.len() == 6 && "listener"@.len() == 8 && "rendezvous"@.len() == 10);
}

/// The cloud dials the venue in every direction but the one in which the venue calls.
pub proof fn law_the_cloud_dials_unless_the_venue_calls(mode: UplinkMode)
    ensures
        cloud_dials(mode) <==> mode != UplinkMode::Caller,
{
}

/// Setup is needed exactly while the gateway has no name, or registers without an
/// address, or registers with Open Source Cloud and has no key.
pub proof fn law_setup_is_needed_while_something_is_missing(cfg: GatewayConfig)
    ensures
        incomplete(cfg) <==> !(!blank(cfg.gateway.name@) && (cfg.open_live.register
            ==> cfg.open_live.url is Some && (cfg.open_live.auth_mode@ != "osc"@
            || cfg.open_live.api_key is Some))),
{
}

/// The questions come in one order. A key for Strom is asked for only where Strom wants
/// one, and an own address only where the cloud dials.
pub proof fn law_the_questions_come_in_one_order(
    step: Step,
    strom_wants_key: bool,
    mode: UplinkMode,
)
    ensures
        step_after(Step::Name, strom_wants_key, mode) == Step::Url,
        step_after(Step::Url, strom_wants_key, mode) == Step::Credential,
        step_after(Step::Credential, strom_wants_key, mode) == Step::StromUrl,
        step_after(step, strom_wants_key, mode) == Step::StromKey <==> step == Step::StromUrl
            && strom_wants_key,
        step_after(Step::StromUrl, false, mode) == Step::Direction,
        step_after(Step::StromKey, strom_wants_key, mode) == Step::Direction,
        step_after(step, strom_wants_key, mode) == Step::PublicHost <==> step == Step::Direction
            && mode != UplinkMode::Caller,
        step_after(Step::Direction, strom_wants_key, UplinkMode::Caller) == Step::PortRange,
        step_after(Step::PublicHost, strom_wants_key, mode) == Step::PortRange,
        step_after(Step::PortRange, strom_wants_key, mode) == Step::Latency,
        step_after(Step::Latency, strom_wants_key, mode) == Step::Resolution,
        step_after(Step::Resolution, strom_wants_key, mode) == Step::Framerate,
        step_after(Step::Framerate, strom_wants_key, mode) == Step::Bitrate,
        step_after(Step::Bitrate, strom_wants_key, mode) == Step::Done,
{
}

/// A credential's mode has the word that is read back as that mode.
pub proof fn law_a_mode_has_its_word(mode: AuthMode)
    ensures
        mode == AuthMode::Osc ==> mode_word(mode) == "osc"@,
        mode == AuthMode::Direct ==> mode_word(mode) == "direct"@,
{
}

} // verus!
