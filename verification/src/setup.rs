//! Setup: which settings are missing, what is asked for, in what order, and what each
//! answer changes.
//!
//! Checking each answer as it is given is the point. A wrong credential caught at
//! the prompt costs a retype; the same mistake surfacing later looks like a feed that
//! silently goes nowhere.

use crate::config::{AuthMode, Config, OpenLive, UplinkMode};
use crate::local_strom::{authority, authority_of};
use crate::osc::{seconds_left, TokenInfo};
use crate::strom::Reachability;
use crate::text::{
    blank, copy_opt, dec, decimal, ends_with, is_blank, opt_text, same_text, to_lowercase, trim,
    trimmed, unicode_lowercase,
};
use vstd::prelude::*;

verus! {

// ---------------------------------------------------------------------------
// Which credential an address implies
// ---------------------------------------------------------------------------

/// The domain of Open Source Cloud itself, or a name below it.
pub open spec fn is_osc_host(host: Seq<char>) -> bool {
    host == "osaas.io"@ || ".osaas.io"@.is_suffix_of(host)
}

pub open spec fn mode_for_host(host: Seq<char>) -> AuthMode {
    if is_osc_host(host) {
        AuthMode::Osc
    } else {
        AuthMode::Direct
    }
}

/// The kind of credential for a host in lower case.
pub fn host_auth_mode(host: &str) -> (r: AuthMode)
    ensures
        r == mode_for_host(host@),
{
    if same_text(host, "osaas.io") || ends_with(host, ".osaas.io") {
        AuthMode::Osc
    } else {
        AuthMode::Direct
    }
}

/// Which kind of credential an Open Live address implies. An Open Source Cloud
/// instance sits behind a proxy that rejects a personal access token presented
/// directly, so it needs the exchange; anything else takes a static key. Inferring it
/// spares an operator a question nobody can answer from the words "osc" and "direct".
pub fn infer_auth_mode(url: &str) -> (r: AuthMode)
    ensures
        r == mode_for_host(unicode_lowercase(authority(url@))),
{
    let host = to_lowercase(authority_of(url).as_str());
    host_auth_mode(host.as_str())
}

// ---------------------------------------------------------------------------
// Whether anything has to be asked
// ---------------------------------------------------------------------------

/// With registration off there is nothing to register, so no address or credential is
/// needed, and a non-interactive run must not refuse over settings it will not use.
pub open spec fn incomplete(cfg: Config, osc_login: bool) -> bool {
    ||| blank(cfg.gateway.name@)
    ||| cfg.open_live.register && (cfg.open_live.url is None || (cfg.open_live.auth_mode
        == AuthMode::Osc && cfg.open_live.api_key is None && !osc_login))
}

/// Whether anything still has to be asked for. `osc_login` says whether the OSC CLI
/// has a saved login, which serves in place of a token in the settings.
pub fn needs_setup(cfg: &Config, osc_login: bool) -> (r: bool)
    ensures
        r == incomplete(*cfg, osc_login),
{
    if is_blank(cfg.gateway.name.as_str()) {
        return true;
    }
    if !cfg.open_live.register {
        return false;
    }
    cfg.open_live.url.is_none() || (cfg.open_live.auth_mode == AuthMode::Osc
        && cfg.open_live.api_key.is_none() && !osc_login)
}

/// Whether setup runs.
#[derive(Clone, Copy, Debug, PartialEq, Eq, Structural)]
pub enum Start {
    /// Everything is there.
    Skip,
    Ask,
    /// Something is missing and there is no terminal to ask on. Refusing beats hanging
    /// on a closed stdin.
    Refuse,
}

pub fn start_setup(cfg: &Config, force: bool, osc_login: bool, terminal: bool) -> (r: Start)
    ensures
        r == (if !force && !incomplete(*cfg, osc_login) {
            Start::Skip
        } else if terminal {
            Start::Ask
        } else {
            Start::Refuse
        }),
{
    if !force && !needs_setup(cfg, osc_login) {
        Start::Skip
    } else if terminal {
        Start::Ask
    } else {
        Start::Refuse
    }
}

// ---------------------------------------------------------------------------
// Answers
// ---------------------------------------------------------------------------

pub open spec fn none_if_blank(answer: Seq<char>) -> Option<Seq<char>> {
    if blank(answer) {
        None
    } else {
        Some(trimmed(answer))
    }
}

pub fn blank_to_none(answer: &str) -> (r: Option<String>)
    ensures
        opt_text(r) == none_if_blank(answer@),
{
    let t = trim(answer);
    if t.as_str().is_empty() {
        None
    } else {
        Some(t)
    }
}

/// Answers given as flags. No credential is among them.
#[derive(Debug)]
pub struct Answers {
    pub non_interactive: bool,
    pub name: Option<String>,
    pub open_live_url: Option<String>,
    pub uplink_mode: Option<UplinkMode>,
    pub public_host: Option<String>,
    pub port_range: Option<String>,
    pub gateway_id: Option<String>,
}

pub open spec fn or_given<T>(given: Option<T>, stored: T) -> T {
    match given {
        Some(v) => v,
        None => stored,
    }
}

pub open spec fn or_given_opt<T>(given: Option<T>, stored: Option<T>) -> Option<T> {
    match given {
        Some(v) => Some(v),
        None => stored,
    }
}

impl Answers {
    /// Overlays the settings with the answers that were given. A new address brings its
    /// kind of credential with it.
    pub fn apply(self, cfg: &mut Config)
        ensures
            final(cfg).gateway.name == or_given(self.name, old(cfg).gateway.name),
            final(cfg).gateway.id == old(cfg).gateway.id,
            final(cfg).open_live.url == or_given_opt(self.open_live_url, old(cfg).open_live.url),
            final(cfg).open_live.auth_mode == (match self.open_live_url {
                Some(url) => mode_for_host(unicode_lowercase(authority(url@))),
                None => old(cfg).open_live.auth_mode,
            }),
            final(cfg).open_live.gateway_id == or_given_opt(
                self.gateway_id,
                old(cfg).open_live.gateway_id,
            ),
            final(cfg).open_live.api_key == old(cfg).open_live.api_key,
            final(cfg).open_live.register == old(cfg).open_live.register,
            final(cfg).open_live.gateway_token == old(cfg).open_live.gateway_token,
            final(cfg).uplink.mode == or_given(self.uplink_mode, old(cfg).uplink.mode),
            final(cfg).uplink.public_host == or_given_opt(
                self.public_host,
                old(cfg).uplink.public_host,
            ),
            final(cfg).uplink.port_range == or_given(self.port_range, old(cfg).uplink.port_range),
            final(cfg).uplink.host == old(cfg).uplink.host,
            final(cfg).uplink.latency_ms == old(cfg).uplink.latency_ms,
            final(cfg).uplink.passphrase == old(cfg).uplink.passphrase,
            final(cfg).uplink.pbkeylen == old(cfg).uplink.pbkeylen,
            final(cfg).strom == old(cfg).strom,
            final(cfg).video == old(cfg).video,
            final(cfg).capture == old(cfg).capture,
            final(cfg).log == old(cfg).log,
    {
        if let Some(name) = self.name {
            cfg.gateway.name = name;
        }
        if let Some(url) = self.open_live_url {
            cfg.open_live.auth_mode = infer_auth_mode(url.as_str());
            cfg.open_live.url = Some(url);
        }
        if let Some(id) = self.gateway_id {
            cfg.open_live.gateway_id = Some(id);
        }
        if let Some(mode) = self.uplink_mode {
            cfg.uplink.mode = mode;
        }
        if let Some(host) = self.public_host {
            cfg.uplink.public_host = Some(host);
        }
        if let Some(range) = self.port_range {
            cfg.uplink.port_range = range;
        }
    }
}

// ---------------------------------------------------------------------------
// What is said
// ---------------------------------------------------------------------------

#[derive(Clone, Copy, Debug, PartialEq, Eq, Structural)]
pub enum Tone {
    /// Something checked out.
    Good,
    /// Worth knowing, not wrong.
    Note,
    /// Setup can continue, but the operator should look at this.
    Warn,
    /// A check failed.
    Fail,
}

#[derive(Debug)]
pub struct Said {
    pub tone: Tone,
    pub text: String,
}

impl Said {
    pub open spec fn view(&self) -> (Tone, Seq<char>) {
        (self.tone, self.text@)
    }

    fn of(tone: Tone, text: &str) -> (r: Said)
        ensures
            r@ == (tone, text@),
    {
        Said { tone, text: text.to_owned() }
    }
}

pub open spec fn said_views(s: Seq<Said>) -> Seq<(Tone, Seq<char>)> {
    s.map_values(|l: Said| l@)
}

// ---------------------------------------------------------------------------
// Open Source Cloud
// ---------------------------------------------------------------------------

/// The three ways in, in the order they are offered.
pub const PICK_ENV: usize = 0;

pub const PICK_LOGIN: usize = 1;

pub const PICK_PASTE: usize = 2;

/// Which way in is offered first: the environment variable where it is set, else a
/// stored token where there is one, else a login.
pub fn auth_default(env_is_set: bool, key_is_stored: bool) -> (r: usize)
    ensures
        r == (if env_is_set {
            PICK_ENV
        } else if key_is_stored {
            PICK_PASTE
        } else {
            PICK_LOGIN
        }),
{
    if env_is_set {
        PICK_ENV
    } else if key_is_stored {
        PICK_PASTE
    } else {
        PICK_LOGIN
    }
}

/// What follows a choice of how to authenticate.
#[derive(Debug)]
pub enum AuthStep {
    /// This is the token; with whether it is a login, which lasts an hour.
    Token { token: String, is_login: bool },
    /// Run the OSC CLI's login.
    RunLogin,
    /// Read the login that is saved.
    ReadLogin,
    /// Ask for a personal access token.
    AskSecret,
    /// Ask again how to authenticate.
    Again,
}

/// Everything of the registration settings but the stored token.
pub open spec fn same_but_key(a: OpenLive, b: OpenLive) -> bool {
    &&& a.url == b.url
    &&& a.auth_mode == b.auth_mode
    &&& a.register == b.register
    &&& a.gateway_id == b.gateway_id
    &&& a.gateway_token == b.gateway_token
}

/// A way in was picked. The environment variable and the login keep the secret out of
/// the settings file, so a stored token is dropped when one of them is used; it would
/// otherwise take precedence and silently be the credential in use.
pub fn on_auth_pick(
    open_live: &mut OpenLive,
    picked: usize,
    env: Option<String>,
    login_is_current: bool,
) -> (r: (AuthStep, Option<Said>))
    ensures
        same_but_key(*final(open_live), *old(open_live)),
        if picked == PICK_ENV {
            match env {
                Some(token) => {
                    &&& r.0 == AuthStep::Token { token, is_login: false }
                    &&& r.1 is None
                    &&& final(open_live).api_key is None
                },
                None => {
                    &&& r.0 is Again
                    &&& r.1 is Some
                    &&& r.1->0@ == (
                        Tone::Warn,
                        "OSC_ACCESS_TOKEN is not set in this environment"@,
                    )
                    &&& final(open_live).api_key == old(open_live).api_key
                },
            }
        } else {
            &&& r.0 == (if picked != PICK_LOGIN {
                AuthStep::AskSecret
            } else if login_is_current {
                AuthStep::ReadLogin
            } else {
                AuthStep::RunLogin
            })
            &&& r.1 is None
            &&& final(open_live).api_key == old(open_live).api_key
        },
{
    if picked == PICK_ENV {
        match env {
            Some(token) => {
                open_live.api_key = None;
                (AuthStep::Token { token, is_login: false }, None)
            },
            None => (
                AuthStep::Again,
                Some(Said::of(Tone::Warn, "OSC_ACCESS_TOKEN is not set in this environment")),
            ),
        }
    } else if picked == PICK_LOGIN {
        if login_is_current {
            (AuthStep::ReadLogin, None)
        } else {
            (AuthStep::RunLogin, None)
        }
    } else {
        (AuthStep::AskSecret, None)
    }
}

/// The login was run: on to reading it, or back to the choice with the reason.
pub fn on_login_run(failure: Option<String>) -> (r: (AuthStep, Option<Said>))
    ensures
        match failure {
            Some(err) => r.0 is Again && r.1 is Some && r.1->0@ == (
                Tone::Fail,
                "OSC CLI login failed: "@ + err@,
            ),
            None => r.0 is ReadLogin && r.1 is None,
        },
{
    match failure {
        Some(err) => (
            AuthStep::Again,
            Some(
                Said {
                    tone: Tone::Fail,
                    text: "OSC CLI login failed: ".to_owned().concat(err.as_str()),
                },
            ),
        ),
        None => (AuthStep::ReadLogin, None),
    }
}

/// The saved login was read.
pub fn on_login_read(open_live: &mut OpenLive, login: Option<String>, env_is_set: bool) -> (r: (
    AuthStep,
    Option<Said>,
))
    ensures
        same_but_key(*final(open_live), *old(open_live)),
        match login {
            Some(token) => {
                &&& r.0 == AuthStep::Token { token, is_login: true }
                &&& final(open_live).api_key is None
                &&& if env_is_set {
                    r.1 is Some && r.1->0@ == (
                        Tone::Warn,
                        "OSC_ACCESS_TOKEN is also set, and takes precedence over the login when the gateway runs"@,
                    )
                } else {
                    r.1 is None
                }
            },
            None => {
                &&& r.0 is Again
                &&& r.1 is Some
                &&& r.1->0@ == (Tone::Fail, "the OSC CLI saved no login"@)
                &&& final(open_live).api_key == old(open_live).api_key
            },
        },
{
    match login {
        Some(token) => {
            open_live.api_key = None;
            let said = if env_is_set {
                Some(
                    Said::of(
                        Tone::Warn,
                        "OSC_ACCESS_TOKEN is also set, and takes precedence over the login when the gateway runs",
                    ),
                )
            } else {
                None
            };
            (AuthStep::Token { token, is_login: true }, said)
        },
        None => (AuthStep::Again, Some(Said::of(Tone::Fail, "the OSC CLI saved no login"))),
    }
}

/// The prompt for a personal access token.
pub fn secret_label(key_is_stored: bool) -> (r: &'static str)
    ensures
        r@ == (if key_is_stored {
            "Personal access token (blank keeps the stored one)"@
        } else {
            "Personal access token"@
        }),
{
    if key_is_stored {
        "Personal access token (blank keeps the stored one)"
    } else {
        "Personal access token"
    }
}

/// A personal access token was entered, or left blank to keep the stored one.
pub fn on_secret(open_live: &mut OpenLive, secret: &str) -> (r: AuthStep)
    ensures
        same_but_key(*final(open_live), *old(open_live)),
        ({
            let token = match none_if_blank(secret@) {
                Some(s) => Some(s),
                None => opt_text(old(open_live).api_key),
            };
            match token {
                Some(t) => {
                    &&& r matches AuthStep::Token { token, is_login } && token@ == t && !is_login
                    &&& opt_text(final(open_live).api_key) == Some(t)
                },
                None => r is Again && final(open_live).api_key is None,
            }
        }),
{
    let token = match blank_to_none(secret) {
        Some(s) => Some(s),
        None => copy_opt(&open_live.api_key),
    };
    match token {
        Some(t) => {
            open_live.api_key = Some(t.clone());
            AuthStep::Token { token: t, is_login: false }
        },
        None => AuthStep::Again,
    }
}

/// What is said of a token: its workspace and how long it is valid, where it tells, and
/// a warning where it is a login that runs out.
pub open spec fn token_lines(
    workspace: Option<Seq<char>>,
    left: Option<nat>,
    is_login: bool,
) -> Seq<(Tone, Seq<char>)> {
    let about = match (workspace, left) {
        (Some(w), Some(s)) => seq![
            (
                Tone::Good,
                "workspace "@ + w + ", token valid for another "@ + dec(s / 60) + " minute(s)"@,
            ),
        ],
        (Some(w), None) => seq![(Tone::Good, "workspace "@ + w)],
        (None, Some(s)) => seq![
            (Tone::Good, "token valid for another "@ + dec(s / 60) + " minute(s)"@),
        ],
        (None, None) => Seq::empty(),
    };
    if is_login && left is Some {
        about.push(
            (
                Tone::Warn,
                "a login lasts an hour; for a show, set OSC_ACCESS_TOKEN or store a personal access token instead"@,
            ),
        )
    } else {
        about
    }
}

/// Which workspace the token landed in, and how long a login has left. The workspace
/// is what the operator chose in the browser, so it is worth reading back.
pub fn describe_token(info: &TokenInfo, is_login: bool, now: u64) -> (r: Vec<Said>)
    ensures
        said_views(r@) == token_lines(
            opt_text(info.workspace),
            seconds_left(info.expires_at, now),
            is_login,
        ),
{
    let mut out: Vec<Said> = Vec::new();
    let left = info.remaining(now);
    match (&info.workspace, left) {
        (Some(w), Some(s)) => out.push(
            Said {
                tone: Tone::Good,
                text: "workspace ".to_owned().concat(w.as_str()).concat(
                    ", token valid for another ",
                ).concat(decimal(s / 60).as_str()).concat(" minute(s)"),
            },
        ),
        (Some(w), None) => out.push(
            Said { tone: Tone::Good, text: "workspace ".to_owned().concat(w.as_str()) },
        ),
        (None, Some(s)) => out.push(
            Said {
                tone: Tone::Good,
                text: "token valid for another ".to_owned().concat(
                    decimal(s / 60).as_str(),
                ).concat(" minute(s)"),
            },
        ),
        (None, None) => {},
    }
    if is_login && left.is_some() {
        out.push(
            Said::of(
                Tone::Warn,
                "a login lasts an hour; for a show, set OSC_ACCESS_TOKEN or store a personal access token instead",
            ),
        );
    }
    proof {
        let want = token_lines(
            opt_text(info.workspace),
            seconds_left(info.expires_at, now),
            is_login,
        );
        assert(said_views(out@) =~= want);
    }
    out
}

/// The position of the current address among the instances, or the first.
pub open spec fn position_of(urls: Seq<String>, current: Option<Seq<char>>, from: int) -> int
    decreases urls.len() - from,
{
    if from < 0 || from >= urls.len() {
        0
    } else if Some(urls[from]@) == current {
        from
    } else {
        position_of(urls, current, from + 1)
    }
}

/// Which of a workspace's instances is offered first.
pub fn instance_default(urls: &Vec<String>, current: &Option<String>) -> (r: usize)
    ensures
        r == position_of(urls@, opt_text(*current), 0),
{
    let mut i: usize = 0;
    while i < urls.len()
        invariant
            i <= urls@.len(),
            position_of(urls@, opt_text(*current), 0) == position_of(
                urls@,
                opt_text(*current),
                i as int,
            ),
        decreases urls@.len() - i,
    {
        if let Some(url) = current {
            if same_text(urls[i].as_str(), url.as_str()) {
                return i;
            }
        }
        i = i + 1;
    }
    0
}

/// The address of the instance that was picked; none is the entry behind the last,
/// which is an address typed in.
pub fn instance_picked(urls: &Vec<String>, picked: usize) -> (r: Option<String>)
    ensures
        match r {
            Some(url) => picked < urls@.len() && url@ == urls@[picked as int]@,
            None => picked >= urls@.len(),
        },
{
    if picked < urls.len() {
        Some(urls[picked].clone())
    } else {
        None
    }
}

// ---------------------------------------------------------------------------
// The dialogue
// ---------------------------------------------------------------------------

/// What setup does next.
#[derive(Clone, Copy, Debug, PartialEq, Eq, Structural)]
pub enum Step {
    Name,
    /// Hosting first, because on Open Source Cloud the address is picked from a list
    /// rather than typed, and the credential is needed to fetch that list.
    Hosting,
    CloudLogin,
    Instance,
    Url,
    UrlLogin,
    ApiKey,
    /// Checked before asking anything else, so a bad address or credential is
    /// corrected while the operator is still looking at it.
    CheckOpenLive,
    StromUrl,
    ProbeStrom,
    StromKey,
    ProbeStromAgain,
    Mode,
    PublicHost,
    PortRange,
    Latency,
    Resolution,
    Framerate,
    Bitrate,
    Done,
}

/// Setup in progress: the settings so far, and what comes next.
#[derive(Debug)]
pub struct Dialogue {
    pub cfg: Config,
    pub step: Step,
}

/// The settings that setup never asks for keep their values.
pub open spec fn unasked_kept(a: Config, b: Config) -> bool {
    &&& a.gateway.id == b.gateway.id
    &&& a.strom.manage == b.strom.manage
    &&& a.strom.binary == b.strom.binary
    &&& a.strom.data_dir == b.strom.data_dir
    &&& a.open_live.register == b.open_live.register
    &&& a.open_live.gateway_id == b.open_live.gateway_id
    &&& a.open_live.gateway_token == b.open_live.gateway_token
    &&& a.uplink.host == b.uplink.host
    &&& a.uplink.passphrase == b.uplink.passphrase
    &&& a.uplink.pbkeylen == b.uplink.pbkeylen
    &&& a.video.codec == b.video.codec
    &&& a.video.encoder_preference == b.video.encoder_preference
    &&& a.video.quality_preset == b.video.quality_preset
    &&& a.video.tune == b.video.tune
    &&& a.video.rate_control == b.video.rate_control
    &&& a.video.keyframe_interval == b.video.keyframe_interval
    &&& a.log == b.log
}

/// The name that is offered: the stored one, else the machine's, else a fixed one.
pub fn default_name(cfg: &Config, host: Option<String>) -> (r: String)
    ensures
        r@ == (if !blank(cfg.gateway.name@) {
            trimmed(cfg.gateway.name@)
        } else {
            match host {
                Some(h) => h@,
                None => "gateway"@,
            }
        }),
{
    let name = trim(cfg.gateway.name.as_str());
    if !name.as_str().is_empty() {
        return name;
    }
    match host {
        Some(h) => h,
        None => "gateway".to_owned(),
    }
}

/// Which hosting is offered first: self-hosted where a stored address implies it.
pub fn hosting_default(cfg: &Config) -> (r: usize)
    ensures
        r == (match cfg.open_live.url {
            Some(url) => if mode_for_host(unicode_lowercase(authority(url@)))
                == AuthMode::Direct {
                1usize
            } else {
                0usize
            },
            None => 0usize,
        }),
{
    match &cfg.open_live.url {
        Some(url) => match infer_auth_mode(url.as_str()) {
            AuthMode::Direct => 1,
            AuthMode::Osc => 0,
        },
        None => 0,
    }
}

impl Dialogue {
    pub fn new(cfg: Config) -> (r: Dialogue)
        ensures
            r.cfg == cfg,
            r.step == Step::Name,
    {
        Dialogue { cfg, step: Step::Name }
    }

    pub fn on_name(&mut self, answer: &str)
        requires
            old(self).step == Step::Name,
        ensures
            follows(old(self).step, final(self).step),
            final(self).step == Step::Hosting,
            final(self).cfg.gateway.name@ == trimmed(answer@),
            final(self).cfg.gateway.id == old(self).cfg.gateway.id,
            final(self).cfg.strom == old(self).cfg.strom,
            final(self).cfg.open_live == old(self).cfg.open_live,
            final(self).cfg.uplink == old(self).cfg.uplink,
            final(self).cfg.video == old(self).cfg.video,
            final(self).cfg.capture == old(self).cfg.capture,
            final(self).cfg.log == old(self).cfg.log,
            unasked_kept(final(self).cfg, old(self).cfg),
    {
        self.cfg.gateway.name = trim(answer);
        self.step = Step::Hosting;
    }

    /// 0 is Open Source Cloud, anything else self-hosted.
    pub fn on_hosting(&mut self, picked: usize)
        requires
            old(self).step == Step::Hosting,
        ensures
            follows(old(self).step, final(self).step),
            final(self).step == (if picked == 0 {
                Step::CloudLogin
            } else {
                Step::Url
            }),
            final(self).cfg == old(self).cfg,
    {
        self.step = if picked == 0 {
            Step::CloudLogin
        } else {
            Step::Url
        };
    }

    /// A token is at hand; see `on_auth_pick` and what follows it.
    pub fn on_token(&mut self)
        requires
            old(self).step == Step::CloudLogin || old(self).step == Step::UrlLogin,
        ensures
            follows(old(self).step, final(self).step),
            if old(self).step == Step::CloudLogin {
                &&& final(self).step == Step::Instance
                &&& final(self).cfg == (Config {
                    open_live: OpenLive {
                        auth_mode: AuthMode::Osc,
                        ..old(self).cfg.open_live
                    },
                    ..old(self).cfg
                })
            } else {
                final(self).step == Step::CheckOpenLive && final(self).cfg == old(self).cfg
            },
    {
        if self.step == Step::CloudLogin {
            self.cfg.open_live.auth_mode = AuthMode::Osc;
            self.step = Step::Instance;
        } else {
            self.step = Step::CheckOpenLive;
        }
    }

    /// The instance's address, picked or typed.
    pub fn on_instance(&mut self, url: String)
        requires
            old(self).step == Step::Instance,
        ensures
            follows(old(self).step, final(self).step),
            final(self).step == Step::CheckOpenLive,
            final(self).cfg == (Config {
                open_live: OpenLive { url: Some(url), ..old(self).cfg.open_live },
                ..old(self).cfg
            }),
    {
        self.cfg.open_live.url = Some(url);
        self.step = Step::CheckOpenLive;
    }

    /// A typed address: the credential it needs follows from it.
    pub fn on_url(&mut self, answer: &str) -> (r: Said)
        requires
            old(self).step == Step::Url,
        ensures
            follows(old(self).step, final(self).step),
            opt_text(final(self).cfg.open_live.url) == Some(trimmed(answer@)),
            final(self).cfg.open_live.auth_mode == mode_for_host(
                unicode_lowercase(authority(trimmed(answer@))),
            ),
            final(self).cfg.open_live.api_key == old(self).cfg.open_live.api_key,
            final(self).cfg.open_live.register == old(self).cfg.open_live.register,
            final(self).cfg.gateway == old(self).cfg.gateway,
            final(self).cfg.strom == old(self).cfg.strom,
            final(self).cfg.uplink == old(self).cfg.uplink,
            final(self).cfg.video == old(self).cfg.video,
            final(self).cfg.capture == old(self).cfg.capture,
            final(self).cfg.log == old(self).cfg.log,
            unasked_kept(final(self).cfg, old(self).cfg),
            match final(self).cfg.open_live.auth_mode {
                AuthMode::Osc => final(self).step == Step::UrlLogin && r@ == (
                    Tone::Note,
                    "that is an Open Source Cloud address, so it needs an Open Source Cloud login"@,
                ),
                AuthMode::Direct => final(self).step == Step::ApiKey && r@ == (
                    Tone::Note,
                    "a self-hosted Open Live may need an API key, or none at all"@,
                ),
            },
    {
        let url = trim(answer);
        let mode = infer_auth_mode(url.as_str());
        self.cfg.open_live.auth_mode = mode;
        self.cfg.open_live.url = Some(url);
        match mode {
            AuthMode::Osc => {
                self.step = Step::UrlLogin;
                Said::of(
                    Tone::Note,
                    "that is an Open Source Cloud address, so it needs an Open Source Cloud login",
                )
            },
            AuthMode::Direct => {
                self.step = Step::ApiKey;
                Said::of(
                    Tone::Note,
                    "a self-hosted Open Live may need an API key, or none at all",
                )
            },
        }
    }

    /// A key for a self-hosted Open Live; blank leaves what is stored.
    pub fn on_api_key(&mut self, secret: &str)
        requires
            old(self).step == Step::ApiKey,
        ensures
            follows(old(self).step, final(self).step),
            final(self).step == Step::CheckOpenLive,
            same_but_key(final(self).cfg.open_live, old(self).cfg.open_live),
            match none_if_blank(secret@) {
                Some(key) => opt_text(final(self).cfg.open_live.api_key) == Some(key),
                None => final(self).cfg.open_live.api_key == old(self).cfg.open_live.api_key,
            },
            final(self).cfg.gateway == old(self).cfg.gateway,
            final(self).cfg.strom == old(self).cfg.strom,
            final(self).cfg.uplink == old(self).cfg.uplink,
            final(self).cfg.video == old(self).cfg.video,
            final(self).cfg.capture == old(self).cfg.capture,
            final(self).cfg.log == old(self).cfg.log,
            unasked_kept(final(self).cfg, old(self).cfg),
    {
        if let Some(key) = blank_to_none(secret) {
            self.cfg.open_live.api_key = Some(key);
        }
        self.step = Step::CheckOpenLive;
    }

    /// Open Live was asked for its sources and its Strom's host. A failure is said and
    /// setup goes on.
    pub fn on_open_live_checked(&mut self, outcome: Result<Option<String>, String>) -> (r: Said)
        requires
            old(self).step == Step::CheckOpenLive,
        ensures
            follows(old(self).step, final(self).step),
            final(self).step == Step::StromUrl,
            final(self).cfg == old(self).cfg,
            r@ == (match outcome {
                Ok(Some(host)) => (
                    Tone::Good,
                    (if old(self).cfg.uplink.host is None {
                        "reached Open Live; feeds will go to its Strom at "@
                    } else {
                        "reached Open Live; its Strom is "@
                    }) + host@,
                ),
                Ok(None) => (
                    Tone::Warn,
                    "reached Open Live, but it did not report a Strom host; set uplink.host in the settings file"@,
                ),
                Err(err) => (Tone::Fail, "could not reach Open Live: "@ + err@),
            }),
    {
        self.step = Step::StromUrl;
        match outcome {
            Ok(Some(host)) => {
                let head = if self.cfg.uplink.host.is_none() {
                    "reached Open Live; feeds will go to its Strom at "
                } else {
                    "reached Open Live; its Strom is "
                };
                Said { tone: Tone::Good, text: head.to_owned().concat(host.as_str()) }
            },
            Ok(None) => Said::of(
                Tone::Warn,
                "reached Open Live, but it did not report a Strom host; set uplink.host in the settings file",
            ),
            Err(err) => Said {
                tone: Tone::Fail,
                text: "could not reach Open Live: ".to_owned().concat(err.as_str()),
            },
        }
    }

    pub fn on_strom_url(&mut self, answer: &str)
        requires
            old(self).step == Step::StromUrl,
        ensures
            follows(old(self).step, final(self).step),
            final(self).step == Step::ProbeStrom,
            final(self).cfg.strom.url@ == trimmed(answer@),
            final(self).cfg.strom.api_key == old(self).cfg.strom.api_key,
            final(self).cfg.gateway == old(self).cfg.gateway,
            final(self).cfg.open_live == old(self).cfg.open_live,
            final(self).cfg.uplink == old(self).cfg.uplink,
            final(self).cfg.video == old(self).cfg.video,
            final(self).cfg.capture == old(self).cfg.capture,
            unasked_kept(final(self).cfg, old(self).cfg),
    {
        self.cfg.strom.url = trim(answer);
        self.step = Step::ProbeStrom;
    }

    /// Strom was probed. Its key is asked for only when it refuses without one, because
    /// "wants a credential" and "cannot be reached" send an operator to different places.
    pub fn on_probe(&mut self, found: Reachability) -> (r: Said)
        requires
            old(self).step == Step::ProbeStrom || old(self).step == Step::ProbeStromAgain,
        ensures
            follows(old(self).step, final(self).step),
            final(self).cfg == old(self).cfg,
            final(self).step == (if found is NeedsCredential && old(self).step
                == Step::ProbeStrom {
                Step::StromKey
            } else {
                Step::Mode
            }),
            r@ == (match found {
                Reachability::Reachable { video_sources } => (
                    Tone::Good,
                    "reached Strom; it can see "@ + dec(video_sources as nat)
                        + " video source(s)"@,
                ),
                Reachability::NeedsCredential => if old(self).step == Step::ProbeStrom {
                    (
                        Tone::Warn,
                        "Strom is there but wants a credential (it runs with STROM_API_KEY set)"@,
                    )
                } else {
                    (Tone::Fail, "Strom still refuses that credential"@)
                },
                Reachability::Unreachable(err) => (Tone::Fail, "could not reach Strom: "@ + err@),
            }),
    {
        let first: bool = self.step == Step::ProbeStrom;
        self.step = Step::Mode;
        match found {
            Reachability::Reachable { video_sources } => Said {
                tone: Tone::Good,
                text: "reached Strom; it can see ".to_owned().concat(
                    decimal(video_sources as u64).as_str(),
                ).concat(" video source(s)"),
            },
            Reachability::NeedsCredential => {
                if first {
                    self.step = Step::StromKey;
                    Said::of(
                        Tone::Warn,
                        "Strom is there but wants a credential (it runs with STROM_API_KEY set)",
                    )
                } else {
                    Said::of(Tone::Fail, "Strom still refuses that credential")
                }
            },
            Reachability::Unreachable(err) => Said {
                tone: Tone::Fail,
                text: "could not reach Strom: ".to_owned().concat(err.as_str()),
            },
        }
    }

    pub fn on_strom_key(&mut self, secret: &str)
        requires
            old(self).step == Step::StromKey,
        ensures
            follows(old(self).step, final(self).step),
            final(self).step == Step::ProbeStromAgain,
            opt_text(final(self).cfg.strom.api_key) == none_if_blank(secret@),
            final(self).cfg.strom.url == old(self).cfg.strom.url,
            final(self).cfg.gateway == old(self).cfg.gateway,
            final(self).cfg.open_live == old(self).cfg.open_live,
            final(self).cfg.uplink == old(self).cfg.uplink,
            final(self).cfg.video == old(self).cfg.video,
            final(self).cfg.capture == old(self).cfg.capture,
            unasked_kept(final(self).cfg, old(self).cfg),
    {
        self.cfg.strom.api_key = blank_to_none(secret);
        self.step = Step::ProbeStromAgain;
    }

    /// 1 is listener, anything else caller. Only a listener needs an address of its own.
    pub fn on_mode(&mut self, picked: usize)
        requires
            old(self).step == Step::Mode,
        ensures
            follows(old(self).step, final(self).step),
            final(self).cfg.uplink.mode == (if picked == 1 {
                UplinkMode::Listener
            } else {
                UplinkMode::Caller
            }),
            final(self).step == (if picked == 1 {
                Step::PublicHost
            } else {
                Step::PortRange
            }),
            final(self).cfg.uplink.public_host == old(self).cfg.uplink.public_host,
            final(self).cfg.uplink.port_range == old(self).cfg.uplink.port_range,
            final(self).cfg.uplink.latency_ms == old(self).cfg.uplink.latency_ms,
            final(self).cfg.gateway == old(self).cfg.gateway,
            final(self).cfg.strom == old(self).cfg.strom,
            final(self).cfg.open_live == old(self).cfg.open_live,
            final(self).cfg.video == old(self).cfg.video,
            final(self).cfg.capture == old(self).cfg.capture,
            unasked_kept(final(self).cfg, old(self).cfg),
    {
        if picked == 1 {
            self.cfg.uplink.mode = UplinkMode::Listener;
            self.step = Step::PublicHost;
        } else {
            self.cfg.uplink.mode = UplinkMode::Caller;
            self.step = Step::PortRange;
        }
    }

    pub fn on_public_host(&mut self, answer: &str)
        requires
            old(self).step == Step::PublicHost,
        ensures
            follows(old(self).step, final(self).step),
            final(self).step == Step::PortRange,
            opt_text(final(self).cfg.uplink.public_host) == none_if_blank(answer@),
            final(self).cfg.uplink.mode == old(self).cfg.uplink.mode,
            final(self).cfg.uplink.port_range == old(self).cfg.uplink.port_range,
            final(self).cfg.uplink.latency_ms == old(self).cfg.uplink.latency_ms,
            final(self).cfg.gateway == old(self).cfg.gateway,
            final(self).cfg.strom == old(self).cfg.strom,
            final(self).cfg.open_live == old(self).cfg.open_live,
            final(self).cfg.video == old(self).cfg.video,
            final(self).cfg.capture == old(self).cfg.capture,
            unasked_kept(final(self).cfg, old(self).cfg),
    {
        self.cfg.uplink.public_host = blank_to_none(answer);
        self.step = Step::PortRange;
    }

    pub fn on_port_range(&mut self, answer: &str)
        requires
            old(self).step == Step::PortRange,
        ensures
            follows(old(self).step, final(self).step),
            final(self).step == Step::Latency,
            final(self).cfg.uplink.port_range@ == trimmed(answer@),
            final(self).cfg.uplink.mode == old(self).cfg.uplink.mode,
            final(self).cfg.uplink.public_host == old(self).cfg.uplink.public_host,
            final(self).cfg.uplink.latency_ms == old(self).cfg.uplink.latency_ms,
            final(self).cfg.gateway == old(self).cfg.gateway,
            final(self).cfg.strom == old(self).cfg.strom,
            final(self).cfg.open_live == old(self).cfg.open_live,
            final(self).cfg.video == old(self).cfg.video,
            final(self).cfg.capture == old(self).cfg.capture,
            unasked_kept(final(self).cfg, old(self).cfg),
    {
        self.cfg.uplink.port_range = trim(answer);
        self.step = Step::Latency;
    }

    pub fn on_latency(&mut self, answer: u32)
        requires
            old(self).step == Step::Latency,
        ensures
            follows(old(self).step, final(self).step),
            final(self).step == Step::Resolution,
            final(self).cfg.uplink.latency_ms == answer,
            final(self).cfg.uplink.mode == old(self).cfg.uplink.mode,
            final(self).cfg.uplink.public_host == old(self).cfg.uplink.public_host,
            final(self).cfg.uplink.port_range == old(self).cfg.uplink.port_range,
            final(self).cfg.gateway == old(self).cfg.gateway,
            final(self).cfg.strom == old(self).cfg.strom,
            final(self).cfg.open_live == old(self).cfg.open_live,
            final(self).cfg.video == old(self).cfg.video,
            final(self).cfg.capture == old(self).cfg.capture,
            unasked_kept(final(self).cfg, old(self).cfg),
    {
        self.cfg.uplink.latency_ms = answer;
        self.step = Step::Resolution;
    }

    pub fn on_resolution(&mut self, answer: &str)
        requires
            old(self).step == Step::Resolution,
        ensures
            follows(old(self).step, final(self).step),
            final(self).step == Step::Framerate,
            opt_text(final(self).cfg.capture.video_resolution) == none_if_blank(answer@),
            final(self).cfg.capture.video_framerate == old(self).cfg.capture.video_framerate,
            final(self).cfg.gateway == old(self).cfg.gateway,
            final(self).cfg.strom == old(self).cfg.strom,
            final(self).cfg.open_live == old(self).cfg.open_live,
            final(self).cfg.uplink == old(self).cfg.uplink,
            final(self).cfg.video == old(self).cfg.video,
            unasked_kept(final(self).cfg, old(self).cfg),
    {
        self.cfg.capture.video_resolution = blank_to_none(answer);
        self.step = Step::Framerate;
    }

    pub fn on_framerate(&mut self, answer: &str)
        requires
            old(self).step == Step::Framerate,
        ensures
            follows(old(self).step, final(self).step),
            final(self).step == Step::Bitrate,
            opt_text(final(self).cfg.capture.video_framerate) == none_if_blank(answer@),
            final(self).cfg.capture.video_resolution == old(self).cfg.capture.video_resolution,
            final(self).cfg.gateway == old(self).cfg.gateway,
            final(self).cfg.strom == old(self).cfg.strom,
            final(self).cfg.open_live == old(self).cfg.open_live,
            final(self).cfg.uplink == old(self).cfg.uplink,
            final(self).cfg.video == old(self).cfg.video,
            unasked_kept(final(self).cfg, old(self).cfg),
    {
        self.cfg.capture.video_framerate = blank_to_none(answer);
        self.step = Step::Bitrate;
    }

    pub fn on_bitrate(&mut self, answer: u32)
        requires
            old(self).step == Step::Bitrate,
        ensures
            follows(old(self).step, final(self).step),
            final(self).step == Step::Done,
            final(self).cfg.video.bitrate_kbps == answer,
            final(self).cfg.gateway == old(self).cfg.gateway,
            final(self).cfg.strom == old(self).cfg.strom,
            final(self).cfg.open_live == old(self).cfg.open_live,
            final(self).cfg.uplink == old(self).cfg.uplink,
            final(self).cfg.capture == old(self).cfg.capture,
            unasked_kept(final(self).cfg, old(self).cfg),
    {
        self.cfg.video.bitrate_kbps = answer;
        self.step = Step::Done;
    }
}

/// How many answers setup still needs at most.
pub open spec fn steps_left(step: Step) -> nat {
    match step {
        Step::Name => 16,
        Step::Hosting => 15,
        Step::CloudLogin => 14,
        Step::Instance => 13,
        Step::Url => 14,
        Step::UrlLogin => 13,
        Step::ApiKey => 13,
        Step::CheckOpenLive => 12,
        Step::StromUrl => 11,
        Step::ProbeStrom => 10,
        Step::StromKey => 9,
        Step::ProbeStromAgain => 8,
        Step::Mode => 7,
        Step::PublicHost => 6,
        Step::PortRange => 5,
        Step::Latency => 4,
        Step::Resolution => 3,
        Step::Framerate => 2,
        Step::Bitrate => 1,
        Step::Done => 0,
    }
}

/// What can follow a step.
pub open spec fn follows(from: Step, to: Step) -> bool {
    match from {
        Step::Name => to == Step::Hosting,
        Step::Hosting => to == Step::CloudLogin || to == Step::Url,
        Step::CloudLogin => to == Step::Instance,
        Step::Instance => to == Step::CheckOpenLive,
        Step::Url => to == Step::UrlLogin || to == Step::ApiKey,
        Step::UrlLogin => to == Step::CheckOpenLive,
        Step::ApiKey => to == Step::CheckOpenLive,
        Step::CheckOpenLive => to == Step::StromUrl,
        Step::StromUrl => to == Step::ProbeStrom,
        Step::ProbeStrom => to == Step::StromKey || to == Step::Mode,
        Step::StromKey => to == Step::ProbeStromAgain,
        Step::ProbeStromAgain => to == Step::Mode,
        Step::Mode => to == Step::PublicHost || to == Step::PortRange,
        Step::PublicHost => to == Step::PortRange,
        Step::PortRange => to == Step::Latency,
        Step::Latency => to == Step::Resolution,
        Step::Resolution => to == Step::Framerate,
        Step::Framerate => to == Step::Bitrate,
        Step::Bitrate => to == Step::Done,
        Step::Done => false,
    }
}

/// Setup always comes to an end: every answer leaves fewer to give, and only the end
/// has nothing after it.
pub proof fn law_setup_ends(from: Step, to: Step)
    ensures
        follows(from, to) ==> steps_left(to) < steps_left(from),
        steps_left(from) == 0 ==> from == Step::Done,
{
}

// ---------------------------------------------------------------------------
// What setup goes by
// ---------------------------------------------------------------------------

/// An instance is Open Source Cloud's exactly when its host is that domain or one below
/// it: a domain that merely ends in the same letters is not.
pub proof fn law_the_host_tells_the_credential(name: Seq<char>, host: Seq<char>)
    ensures
        mode_for_host(name + ".osaas.io"@) == AuthMode::Osc,
        mode_for_host("osaas.io"@) == AuthMode::Osc,
        host != "osaas.io"@ && !".osaas.io"@.is_suffix_of(host) ==> mode_for_host(host)
            == AuthMode::Direct,
        name.len() > 0 && name.last() != '.' ==> mode_for_host(name + "osaas.io"@)
            == AuthMode::Direct,
{
    reveal_strlit(".osaas.io");
    reveal_strlit("osaas.io");
    let below = name + ".osaas.io"@;
    assert(below.subrange(below.len() - 9, below.len() as int) =~= ".osaas.io"@);
    if name.len() > 0 && name.last() != '.' {
        let other = name + "osaas.io"@;
        assert(other.len() > 8);
        if ".osaas.io"@.is_suffix_of(other) {
            assert(other.subrange(other.len() - 9, other.len() as int)[0] == name.last());
            assert(".osaas.io"@[0] == '.');
        }
    }
}

/// Setup is needed exactly while the box has no name, or registers without an address, or
/// registers with Open Source Cloud and has neither a key nor a login.
pub proof fn law_setup_is_needed_while_something_is_missing(cfg: Config, osc_login: bool)
    ensures
        incomplete(cfg, osc_login) <==> !(!blank(cfg.gateway.name@) && (cfg.open_live.register
            ==> cfg.open_live.url is Some && (cfg.open_live.auth_mode == AuthMode::Direct
            || cfg.open_live.api_key is Some || osc_login))),
{
}

/// An answer is taken without the white space around it, and a blank one is none.
pub proof fn law_a_blank_answer_is_none(answer: Seq<char>)
    ensures
        trimmed(answer).len() == 0 ==> none_if_blank(answer) is None,
        trimmed(answer).len() > 0 ==> none_if_blank(answer) == Some(trimmed(answer)),
{
}

/// What is given on the command line replaces what is stored, and nothing else does.
pub proof fn law_what_is_given_replaces_what_is_stored<T>(
    given: T,
    stored: T,
    kept: Option<T>,
)
    ensures
        or_given(Some(given), stored) == given,
        or_given(None, stored) == stored,
        or_given_opt(Some(given), kept) == Some(given),
        or_given_opt(None, kept) == kept,
{
}

/// What is told of a token: its workspace and the whole minutes it has left, as far as
/// they are known, and of a login that runs out also that it does.
pub proof fn law_a_token_is_told_by_workspace_and_time(w: Seq<char>, minutes: nat, rest: nat)
    requires
        rest < 60,
    ensures
        ({
            let left = Some(60 * minutes + rest);
            let time = "token valid for another "@ + dec(minutes) + " minute(s)"@;
            &&& token_lines(Some(w), left, false) == seq![
                (Tone::Good, "workspace "@ + w + ", token valid for another "@ + dec(minutes)
                    + " minute(s)"@),
            ]
            &&& token_lines(None, left, false) == seq![(Tone::Good, time)]
            &&& token_lines(Some(w), None, false) == seq![(Tone::Good, "workspace "@ + w)]
            &&& token_lines(None, None, false) == Seq::<(Tone, Seq<char>)>::empty()
            &&& token_lines(Some(w), None, true) == token_lines(Some(w), None, false)
            &&& token_lines(None, left, true).len() == 2
            &&& token_lines(None, left, true)[0] == (Tone::Good, time)
            &&& token_lines(None, left, true)[1].0 == Tone::Warn
        }),
{
    let n = 60 * minutes + rest;
    assert(n / 60 == minutes);
}

/// The instance to start from is the first that is in use already, and the first of all
/// where none is.
pub proof fn law_the_current_instance_is_preselected(
    urls: Seq<String>,
    current: Option<Seq<char>>,
    from: int,
    k: int,
)
    requires
        0 <= from,
    ensures
        from <= k < urls.len() && Some(urls[k]@) == current && (forall|j: int|
            from <= j < k ==> Some((#[trigger] urls[j])@) != current) ==> position_of(
            urls,
            current,
            from,
        ) == k,
        (forall|j: int| from <= j < urls.len() ==> Some((#[trigger] urls[j])@) != current)
            ==> position_of(urls, current, from) == 0,
    decreases urls.len() - from,
{
    if from < urls.len() {
        law_the_current_instance_is_preselected(urls, current, from + 1, k);
    }
}

/// The dialogue goes from the name to the bitrate in one order. It leaves out what an
/// answer makes needless: a login or a key goes with where Open Live is hosted, a key for
/// Strom is asked for only where Strom wants one, and an own address only where the cloud
/// dials.
pub proof fn law_the_dialogue_goes_in_one_order(to: Step)
    ensures
        follows(Step::Name, to) <==> to == Step::Hosting,
        follows(Step::Hosting, to) <==> to == Step::CloudLogin || to == Step::Url,
        follows(Step::CloudLogin, to) <==> to == Step::Instance,
        follows(Step::Instance, to) <==> to == Step::CheckOpenLive,
        follows(Step::Url, to) <==> to == Step::UrlLogin || to == Step::ApiKey,
        follows(Step::UrlLogin, to) <==> to == Step::CheckOpenLive,
        follows(Step::ApiKey, to) <==> to == Step::CheckOpenLive,
        follows(Step::CheckOpenLive, to) <==> to == Step::StromUrl,
        follows(Step::StromUrl, to) <==> to == Step::ProbeStrom,
        follows(Step::ProbeStrom, to) <==> to == Step::StromKey || to == Step::Mode,
        follows(Step::StromKey, to) <==> to == Step::ProbeStromAgain,
        follows(Step::ProbeStromAgain, to) <==> to == Step::Mode,
        follows(Step::Mode, to) <==> to == Step::PublicHost || to == Step::PortRange,
        follows(Step::PublicHost, to) <==> to == Step::PortRange,
        follows(Step::PortRange, to) <==> to == Step::Latency,
        follows(Step::Latency, to) <==> to == Step::Resolution,
        follows(Step::Resolution, to) <==> to == Step::Framerate,
        follows(Step::Framerate, to) <==> to == Step::Bitrate,
        follows(Step::Bitrate, to) <==> to == Step::Done,
        !follows(Step::Done, to),
{
}

/// What the dialogue does not ask for stays as it was.
pub proof fn law_what_is_not_asked_for_stays(a: Config, b: Config)
    requires
        unasked_kept(a, b),
    ensures
        a.gateway.id == b.gateway.id,
        a.strom.manage == b.strom.manage && a.strom.binary == b.strom.binary && a.strom.data_dir
            == b.strom.data_dir,
        a.open_live.register == b.open_live.register,
        a.open_live.gateway_id == b.open_live.gateway_id && a.open_live.gateway_token
            == b.open_live.gateway_token,
        a.uplink.host == b.uplink.host && a.uplink.passphrase == b.uplink.passphrase
            && a.uplink.pbkeylen == b.uplink.pbkeylen,
        a.video.codec == b.video.codec && a.video.encoder_preference == b.video.encoder_preference
            && a.video.quality_preset == b.video.quality_preset && a.video.tune == b.video.tune
            && a.video.rate_control == b.video.rate_control && a.video.keyframe_interval
            == b.video.keyframe_interval,
        a.log == b.log,
{
}

/// Storing a key changes nothing of the registration but the key.
pub proof fn law_a_key_is_all_that_changes(a: OpenLive, b: OpenLive)
    ensures
        same_but_key(a, b) <==> a == (OpenLive { api_key: a.api_key, ..b }),
{
}

} // verus!
