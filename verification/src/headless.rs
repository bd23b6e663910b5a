//! Setup without questions: what a box that is configured by a script is refused for,
//! and what it is told.
//!
//! The same settings that the prompts ask for come from flags, the environment and the
//! settings file. What is missing or does not check out ends the run with a message that
//! names the fix.

use crate::config::{
    fault_message, format_port_range, parsed_range, range_text, AuthMode, Config, ConfigError,
    Fault, PortRange, UplinkMode,
};
use crate::openlive::ServerInfo;
use crate::osc::{exchanged_token, is_current, seconds_left, token_in_use, TokenInfo};
use crate::run::{choose_ports, range_in_use, CloudError, PortSource};
use crate::text::{blank, copy_opt, dec, decimal, is_blank, opt_text, visible, visible_of};
use vstd::prelude::*;

verus! {

/// Why a setup without questions cannot go on.
#[derive(Debug)]
pub enum HeadlessError {
    NoName,
    NoUrl,
    NeedsCredential { url: String },
    Expired,
    Unreachable { url: String },
    Listener,
    Range(ConfigError),
    Cloud(CloudError),
}

impl HeadlessError {
    pub open spec fn text(&self) -> Seq<char> {
        match self {
            HeadlessError::NoName => "no gateway name; pass --name"@,
            HeadlessError::NoUrl => "no Open Live URL; pass --open-live-url"@,
            HeadlessError::NeedsCredential { url } => "Open Live at "@ + url@
                + " needs a credential; set OLI_OPEN_LIVE_API_KEY or OSC_ACCESS_TOKEN, or log in with `npx @osaas/cli login`"@,
            HeadlessError::Expired =>
                "the Open Source Cloud token has expired; get a new one and set OLI_OPEN_LIVE_API_KEY"@,
            HeadlessError::Unreachable { url } => "could not reach Open Live at "@ + url@,
            HeadlessError::Listener => "listener mode needs --public-host and --port-range"@,
            HeadlessError::Range(e) => fault_message(e.fault, e.value@),
            HeadlessError::Cloud(e) => e.text(),
        }
    }

    pub fn message(&self) -> (r: String)
        ensures
            r@ == self.text(),
    {
        match self {
            HeadlessError::NoName => "no gateway name; pass --name".to_owned(),
            HeadlessError::NoUrl => "no Open Live URL; pass --open-live-url".to_owned(),
            HeadlessError::NeedsCredential { url } => "Open Live at ".to_owned().concat(
                url.as_str(),
            ).concat(
                " needs a credential; set OLI_OPEN_LIVE_API_KEY or OSC_ACCESS_TOKEN, or log in with `npx @osaas/cli login`",
            ),
            HeadlessError::Expired => {
                "the Open Source Cloud token has expired; get a new one and set OLI_OPEN_LIVE_API_KEY".to_owned()
            },
            HeadlessError::Unreachable { url } => "could not reach Open Live at ".to_owned().concat(
                url.as_str(),
            ),
            HeadlessError::Listener => {
                "listener mode needs --public-host and --port-range".to_owned()
            },
            HeadlessError::Range(e) => e.message(),
            HeadlessError::Cloud(e) => e.message(),
        }
    }
}

/// The token that a setup without questions works with: the one that a run would
/// exchange. None where Open Live takes a static key, or no key at all.
pub open spec fn token_needed(
    cfg: Config,
    env: Option<String>,
    saved: Option<String>,
) -> Option<Seq<char>> {
    if cfg.open_live.register && cfg.open_live.auth_mode == AuthMode::Osc {
        token_in_use(cfg.open_live.api_key, env, saved)
    } else {
        None
    }
}

pub fn find_token(cfg: &Config, env: &Option<String>, saved: &Option<String>) -> (r: Option<String>)
    ensures
        opt_text(r) == token_needed(*cfg, *env, *saved),
{
    if cfg.open_live.register && cfg.open_live.auth_mode == AuthMode::Osc {
        exchanged_token(&cfg.open_live.api_key, env, saved)
    } else {
        None
    }
}

/// The first thing that keeps Open Live from being asked: no name, no address, no
/// credential where one is needed, or one that has expired. Without registration nothing
/// of Open Live's is needed.
pub open spec fn not_ready(cfg: Config, token: Option<String>, e: HeadlessError) -> bool {
    if blank(cfg.gateway.name@) {
        e is NoName
    } else if visible(cfg.open_live.url) is None {
        e is NoUrl
    } else if token is None {
        e matches HeadlessError::NeedsCredential { url } && Some(url@) == visible(cfg.open_live.url)
    } else {
        e is Expired
    }
}

/// Whether Open Live can be asked.
pub open spec fn ready(
    cfg: Config,
    token: Option<String>,
    info: Option<TokenInfo>,
    now: u64,
) -> bool {
    &&& !blank(cfg.gateway.name@)
    &&& cfg.open_live.register ==> visible(cfg.open_live.url) is Some && (cfg.open_live.auth_mode
        == AuthMode::Osc ==> token is Some && !(info matches Some(i) && seconds_left(
        i.expires_at,
        now,
    ) == Some(0nat)))
}

/// Checks what the settings say before anyone is asked. `token` is the one that a run
/// would exchange, and `info` what it says of itself.
pub fn check_settings(
    cfg: &Config,
    token: &Option<String>,
    info: &Option<TokenInfo>,
    now: u64,
) -> (r: Result<(), HeadlessError>)
    ensures
        match r {
            Ok(()) => ready(*cfg, *token, *info, now),
            Err(e) => !ready(*cfg, *token, *info, now) && not_ready(*cfg, *token, e),
        },
{
    if is_blank(cfg.gateway.name.as_str()) {
        return Err(HeadlessError::NoName);
    }
    if !cfg.open_live.register {
        return Ok(());
    }
    let url = match visible_of(&cfg.open_live.url) {
        Some(url) => url,
        None => return Err(HeadlessError::NoUrl),
    };
    if cfg.open_live.auth_mode == AuthMode::Osc {
        if token.is_none() {
            return Err(HeadlessError::NeedsCredential { url });
        }
        if !is_current(info, now) {
            return Err(HeadlessError::Expired);
        }
    }
    Ok(())
}

/// The range in the settings, where there is one that can be read.
pub open spec fn own_range(cfg: Config) -> Option<PortRange> {
    if blank(cfg.uplink.port_range@) {
        None
    } else {
        match parsed_range(cfg.uplink.port_range@) {
            Ok(range) => Some(range),
            Err(_) => None,
        }
    }
}

pub open spec fn published_by(info: Option<ServerInfo>) -> Option<PortRange> {
    match info {
        Some(i) => i.srt_port_range,
        None => None,
    }
}

/// Which ports the links will use, by what Open Live says of its Strom. A listener has
/// to be told its own address and ports.
pub fn settle_uplink(cfg: &Config, info: &Option<ServerInfo>) -> (r: Result<
    (PortRange, PortSource),
    HeadlessError,
>)
    ensures
        match r {
            Ok(found) => {
                &&& cfg.uplink.mode == UplinkMode::Listener ==> visible(cfg.uplink.public_host)
                    is Some
                &&& blank(cfg.uplink.port_range@) || own_range(*cfg) is Some
                &&& range_in_use(cfg.uplink.mode, own_range(*cfg), published_by(*info)) == Some(
                    found,
                )
            },
            Err(e) => if cfg.uplink.mode == UplinkMode::Listener && (visible(cfg.uplink.public_host)
                is None || blank(cfg.uplink.port_range@)) {
                e is Listener
            } else if !blank(cfg.uplink.port_range@) && own_range(*cfg) is None {
                e matches HeadlessError::Range(fault) && parsed_range(cfg.uplink.port_range@)
                    == Err::<PortRange, (Fault, Seq<char>)>(fault@)
            } else {
                &&& range_in_use(cfg.uplink.mode, own_range(*cfg), published_by(*info)) is None
                &&& e matches HeadlessError::Cloud(CloudError::NoRange(lease)) && opt_text(lease)
                    == (match *info {
                    Some(i) => opt_text(i.srt_port_lease),
                    None => None,
                })
            },
        },
{
    if cfg.uplink.mode == UplinkMode::Listener && (visible_of(&cfg.uplink.public_host).is_none()
        || is_blank(cfg.uplink.port_range.as_str())) {
        return Err(HeadlessError::Listener);
    }
    let local = match cfg.uplink.local_ports() {
        Ok(local) => local,
        Err(e) => return Err(HeadlessError::Range(e)),
    };
    let (published, lease) = match info {
        Some(i) => (i.srt_port_range, copy_opt(&i.srt_port_lease)),
        None => (None, None),
    };
    match choose_ports(cfg.uplink.mode, local, published, lease) {
        Ok(found) => Ok(found),
        Err(e) => Err(HeadlessError::Cloud(e)),
    }
}

// ---------------------------------------------------------------------------
// What is told
// ---------------------------------------------------------------------------

pub fn name_line(cfg: &Config) -> (r: String)
    ensures
        r@ == "gateway name "@ + cfg.gateway.name@,
{
    "gateway name ".to_owned().concat(cfg.gateway.name.as_str())
}

/// Where the credential for Open Source Cloud comes from.
pub fn credential_line(key: &Option<String>, env: &Option<String>) -> (r: String)
    ensures
        r@ == "Open Source Cloud credential from "@ + (if visible(*key) is Some {
            "the settings (a personal access token)"@
        } else if visible(*env) is Some {
            "OSC_ACCESS_TOKEN"@
        } else {
            "the OSC CLI login"@
        }),
{
    let origin = if visible_of(key).is_some() {
        "the settings (a personal access token)"
    } else if visible_of(env).is_some() {
        "OSC_ACCESS_TOKEN"
    } else {
        "the OSC CLI login"
    };
    "Open Source Cloud credential from ".to_owned().concat(origin)
}

/// The ports that Open Live publishes, where it does.
pub fn published_line(info: &Option<ServerInfo>) -> (r: Option<String>)
    ensures
        opt_text(r) == (match published_by(*info) {
            Some(range) => Some(
                "its Strom takes SRT on ports "@ + range_text(range) + ", which callers use"@,
            ),
            None => None,
        }),
{
    match info {
        Some(i) => match i.srt_port_range {
            Some(range) => Some(
                "its Strom takes SRT on ports ".to_owned().concat(
                    format_port_range(&range).as_str(),
                ).concat(", which callers use"),
            ),
            None => None,
        },
        None => None,
    }
}

/// That nothing listens yet, and what will be started.
pub fn idle_strom_line(url: &str, why: &str, binary: &str) -> (r: String)
    ensures
        r@ == "nothing listening at "@ + url@ + " ("@ + why@ + "); up will start "@ + binary@,
{
    "nothing listening at ".to_owned().concat(url).concat(" (").concat(why).concat(
        "); up will start ",
    ).concat(binary)
}

/// Which end dials, on which ports, and who said so.
pub fn uplink_line(mode: UplinkMode, range: PortRange, source: PortSource) -> (r: String)
    ensures
        r@ == (match mode {
            UplinkMode::Caller => "caller"@,
            UplinkMode::Listener => "listener"@,
        }) + "; SRT port range "@ + range_text(range) + " comes from "@ + (match source {
            PortSource::OpenLive => "Open Live"@,
            PortSource::Settings => "the settings"@,
        }),
{
    let end = match mode {
        UplinkMode::Caller => "caller",
        UplinkMode::Listener => "listener",
    };
    let who = match source {
        PortSource::OpenLive => "Open Live",
        PortSource::Settings => "the settings",
    };
    end.to_owned().concat("; SRT port range ").concat(format_port_range(&range).as_str()).concat(
        " comes from ",
    ).concat(who)
}

pub fn latency_line(cfg: &Config) -> (r: String)
    ensures
        r@ == "SRT latency "@ + dec(cfg.uplink.latency_ms as nat) + " ms"@,
{
    "SRT latency ".to_owned().concat(decimal(cfg.uplink.latency_ms as u64).as_str()).concat(" ms")
}

pub open spec fn or_auto(o: Option<String>) -> Seq<char> {
    match visible(o) {
        Some(s) => s,
        None => "auto"@,
    }
}

fn say_or_auto(o: &Option<String>) -> (r: String)
    ensures
        r@ == or_auto(*o),
{
    match visible_of(o) {
        Some(s) => s,
        None => "auto".to_owned(),
    }
}

pub fn capture_line(cfg: &Config) -> (r: String)
    ensures
        r@ == "resolution "@ + or_auto(cfg.capture.video_resolution) + ", framerate "@ + or_auto(
            cfg.capture.video_framerate,
        ) + ", "@ + dec(cfg.video.bitrate_kbps as nat) + " kbps"@,
{
    "resolution ".to_owned().concat(say_or_auto(&cfg.capture.video_resolution).as_str()).concat(
        ", framerate ",
    ).concat(say_or_auto(&cfg.capture.video_framerate).as_str()).concat(", ").concat(
        decimal(cfg.video.bitrate_kbps as u64).as_str(),
    ).concat(" kbps")
}

/// That Open Live greeted the gateway with its token.
pub fn greeted_line(gateway_id: &str) -> (r: String)
    ensures
        r@ == "Open Live greets gateway "@ + gateway_id@ + "; status will be pushed to it"@,
{
    "Open Live greets gateway ".to_owned().concat(gateway_id).concat(
        "; status will be pushed to it",
    )
}

// ---------------------------------------------------------------------------
// When a box can start by itself
// ---------------------------------------------------------------------------

/// A box can start by itself exactly when it has a name and, where it registers, an
/// address to register at and, with Open Source Cloud, a token that has not run out.
pub proof fn law_a_box_is_ready_when_nothing_is_missing(
    cfg: Config,
    token: Option<String>,
    info: Option<TokenInfo>,
    now: u64,
)
    ensures
        ready(cfg, token, info, now) <==> {
            &&& !blank(cfg.gateway.name@)
            &&& cfg.open_live.register ==> cfg.open_live.url is Some && !blank(
                cfg.open_live.url->0@,
            )
            &&& cfg.open_live.register && cfg.open_live.auth_mode == AuthMode::Osc ==> token is Some
                && !(info is Some && info->0.expires_at is Some && info->0.expires_at->0 <= now)
        },
{
}

/// What is missing is named in one order: the name, the address, the credential, and
/// then that it has expired.
pub proof fn law_what_is_missing_is_named_in_order(
    cfg: Config,
    token: Option<String>,
    e: HeadlessError,
)
    requires
        not_ready(cfg, token, e),
    ensures
        e is NoName <==> blank(cfg.gateway.name@),
        e is NoUrl <==> !blank(cfg.gateway.name@) && (cfg.open_live.url is None || blank(
            cfg.open_live.url->0@,
        )),
        e is NeedsCredential <==> !blank(cfg.gateway.name@) && cfg.open_live.url is Some && !blank(
            cfg.open_live.url->0@,
        ) && token is None,
        e is Expired <==> !blank(cfg.gateway.name@) && cfg.open_live.url is Some && !blank(
            cfg.open_live.url->0@,
        ) && token is Some,
{
}

/// A token is looked for only by a box that registers with Open Source Cloud, and then it
/// is the one that would be exchanged.
pub proof fn law_a_token_is_looked_for_where_it_is_needed(
    cfg: Config,
    env: Option<String>,
    saved: Option<String>,
)
    ensures
        !cfg.open_live.register || cfg.open_live.auth_mode == AuthMode::Direct ==> token_needed(
            cfg,
            env,
            saved,
        ) is None,
        cfg.open_live.register && cfg.open_live.auth_mode == AuthMode::Osc ==> token_needed(
            cfg,
            env,
            saved,
        ) == token_in_use(cfg.open_live.api_key, env, saved),
{
}

/// The range of the settings counts where it is there and can be read, and the published
/// one is the one that Open Live told.
pub proof fn law_a_range_counts_where_it_can_be_read(cfg: Config, info: ServerInfo)
    ensures
        own_range(cfg) is Some <==> !blank(cfg.uplink.port_range@) && parsed_range(
            cfg.uplink.port_range@,
        ) is Ok,
        own_range(cfg) is Some ==> own_range(cfg)->0 == parsed_range(cfg.uplink.port_range@)->Ok_0,
        published_by(Some(info)) == info.srt_port_range,
        published_by(None) is None,
{
}

} // verus!
