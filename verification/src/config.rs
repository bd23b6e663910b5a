//! Settings: one file per user, overlaid by a few environment variables.
//!
//! Section and property names mirror the Strom blocks they end up on, so a value in
//! the file can be traced to the block it configures.

use crate::text::{
    ascii_lower, char_from, char_is_alphanumeric, copy_opt, dec, decimal, find_char, find_chars,
    find_from, find_text, has_at, is_alphanumeric, is_white, law_a_notation_names_one_number,
    law_a_number_is_read_up_to_the_limit, law_a_text_is_cut_at_the_first_mark,
    law_only_digits_are_a_number, law_padding_is_trimmed_away, lemma_char_from,
    lemma_decimal_is_read_back, lemma_find_from, lower_chars,
    opt_text, parse_number, parsed_number, quote, quoted_text, same_text, split_at_first,
    split_once, starts_with, string_of, to_chars, trim, trimmed, blank, is_blank, nonempty, visible,
    visible_of,
};
use vstd::prelude::*;

verus! {

pub const ENV_OPEN_LIVE_URL: &'static str = "OLI_OPEN_LIVE_URL";

pub const ENV_OPEN_LIVE_API_KEY: &'static str = "OLI_OPEN_LIVE_API_KEY";

pub const ENV_OPEN_LIVE_AUTH_MODE: &'static str = "OLI_OPEN_LIVE_AUTH_MODE";

pub const ENV_OPEN_LIVE_GATEWAY_TOKEN: &'static str = "OLI_OPEN_LIVE_GATEWAY_TOKEN";

pub const ENV_STROM_URL: &'static str = "OLI_STROM_URL";

pub const ENV_STROM_API_KEY: &'static str = "OLI_STROM_API_KEY";

/// What an operator types to sign in to Open Source Cloud.
pub const LOGIN_COMMAND: &'static str = "npx @osaas/cli login";

// ---------------------------------------------------------------------------
// Faults
// ---------------------------------------------------------------------------

/// What is wrong with a setting.
#[derive(Clone, Copy, Debug, PartialEq, Eq, Structural)]
pub enum Fault {
    StromUrl,
    PortRangeShape,
    FirstPort,
    LastPort,
    EmptyPortRange,
    PublicHostMissing,
    KeyLength,
    PassphraseLength,
    PassphraseCharacters,
    ResolutionShape,
    Width,
    Height,
    Framerate,
    OpenLiveUrlMissing,
    OscTokenMissing,
    AuthMode,
}

/// A setting that was refused, with the value that was found.
#[derive(Clone, Debug)]
pub struct ConfigError {
    pub fault: Fault,
    pub value: String,
}

/// The text of a refusal.
pub open spec fn fault_message(fault: Fault, value: Seq<char>) -> Seq<char> {
    match fault {
        Fault::StromUrl => "strom.url must be an http or https URL, got "@ + quoted_text(value),
        Fault::PortRangeShape => "port_range must be \"first-last\", got "@ + quoted_text(value),
        Fault::FirstPort => "invalid first port in "@ + quoted_text(value),
        Fault::LastPort => "invalid last port in "@ + quoted_text(value),
        Fault::EmptyPortRange => "empty port range "@ + quoted_text(value),
        Fault::PublicHostMissing =>
            "uplink.mode is \"listener\", where the cloud dials this machine, so uplink.public_host must be its address as the cloud sees it"@,
        Fault::KeyLength => "uplink.pbkeylen must be 16, 24, or 32, got "@ + value,
        Fault::PassphraseLength => "uplink.passphrase must be 10 to 79 characters, got "@ + value,
        Fault::PassphraseCharacters =>
            "uplink.passphrase may only contain letters, digits, and - _ . ~ ! *"@,
        Fault::ResolutionShape => "resolution must be WxH, got "@ + quoted_text(value),
        Fault::Width => "bad width in "@ + quoted_text(value),
        Fault::Height => "bad height in "@ + quoted_text(value),
        Fault::Framerate => "capture.video_framerate must be N/D, e.g. 25/1, got "@ + quoted_text(
            value,
        ),
        Fault::OpenLiveUrlMissing => "open_live.register is on but open_live.url is unset"@,
        Fault::OscTokenMissing =>
            "open_live.auth_mode is \"osc\" but there is no OSC token: log in with `npx @osaas/cli login`, or set open_live.api_key"@,
        Fault::AuthMode => "auth_mode must be \"direct\" or \"osc\", got "@ + quoted_text(value),
    }
}

impl ConfigError {
    /// The refusal as data.
    pub open spec fn view(&self) -> (Fault, Seq<char>) {
        (self.fault, self.value@)
    }

    fn of(fault: Fault, value: &str) -> (r: ConfigError)
        ensures
            r@ == (fault, value@),
    {
        ConfigError { fault, value: value.to_owned() }
    }

    pub fn message(&self) -> (r: String)
        ensures
            r@ == fault_message(self.fault, self.value@),
    {
        let value = self.value.as_str();
        match self.fault {
            Fault::StromUrl => with_quoted("strom.url must be an http or https URL, got ", value),
            Fault::PortRangeShape => with_quoted(
                "port_range must be \"first-last\", got ",
                value,
            ),
            Fault::FirstPort => with_quoted("invalid first port in ", value),
            Fault::LastPort => with_quoted("invalid last port in ", value),
            Fault::EmptyPortRange => with_quoted("empty port range ", value),
            Fault::PublicHostMissing => {
                "uplink.mode is \"listener\", where the cloud dials this machine, so uplink.public_host must be its address as the cloud sees it".to_owned()
            },
            Fault::KeyLength => "uplink.pbkeylen must be 16, 24, or 32, got ".to_owned().concat(
                value,
            ),
            Fault::PassphraseLength =>
                "uplink.passphrase must be 10 to 79 characters, got ".to_owned().concat(value),
            Fault::PassphraseCharacters => {
                "uplink.passphrase may only contain letters, digits, and - _ . ~ ! *".to_owned()
            },
            Fault::ResolutionShape => with_quoted("resolution must be WxH, got ", value),
            Fault::Width => with_quoted("bad width in ", value),
            Fault::Height => with_quoted("bad height in ", value),
            Fault::Framerate => with_quoted(
                "capture.video_framerate must be N/D, e.g. 25/1, got ",
                value,
            ),
            Fault::OpenLiveUrlMissing => {
                "open_live.register is on but open_live.url is unset".to_owned()
            },
            Fault::OscTokenMissing => {
                "open_live.auth_mode is \"osc\" but there is no OSC token: log in with `npx @osaas/cli login`, or set open_live.api_key".to_owned()
            },
            Fault::AuthMode => with_quoted("auth_mode must be \"direct\" or \"osc\", got ", value),
        }
    }
}

fn with_quoted(what: &str, value: &str) -> (r: String)
    ensures
        r@ == what@ + quoted_text(value@),
{
    what.to_owned().concat(quote(value).as_str())
}

// ---------------------------------------------------------------------------
// The settings
// ---------------------------------------------------------------------------

#[derive(Clone, Debug)]
pub struct Config {
    pub gateway: Gateway,
    pub strom: Strom,
    pub open_live: OpenLive,
    pub uplink: Uplink,
    pub video: Video,
    pub capture: Capture,
    pub log: Log,
}

#[derive(Clone, Debug)]
pub struct Gateway {
    /// Stable identity for this machine. It seeds the flow ids, so changing it hides
    /// existing flows from `down` and `status`. Defaults to the hostname.
    pub id: Option<String>,
    /// Prefix of every source name in Open Live, so two venues' cameras can be told
    /// apart in Studio.
    pub name: String,
}

#[derive(Clone, Debug)]
pub struct Strom {
    /// The Strom on this machine, which does the capturing and encoding. Not the
    /// cloud Strom, and not something Open Live knows about.
    pub url: String,
    /// Set when that Strom runs with `STROM_API_KEY`.
    pub api_key: Option<String>,
    /// Start a headless Strom when nothing is listening at `url`, and stop it again
    /// on the way out. A Strom already running is always adopted, never replaced or
    /// stopped: it may be a service this box depends on, or someone else's.
    pub manage: bool,
    /// The Strom executable: a name to find on `PATH`, or a path.
    pub binary: String,
    /// Where a managed Strom keeps its flows. Defaults beside our own settings, so it
    /// never disturbs an existing install.
    pub data_dir: Option<String>,
}

#[derive(Clone, Debug)]
pub struct OpenLive {
    pub url: Option<String>,
    pub auth_mode: AuthMode,
    /// Bearer token or OSC personal access token, depending on `auth_mode`. In osc
    /// mode it can stay unset, and the login saved by `npx @osaas/cli login` is used.
    pub api_key: Option<String>,
    /// Register a source per input. Off for a box that only streams to a Strom.
    pub register: bool,
    /// The gateway resource this box pushes its status to, where it has one.
    pub gateway_id: Option<String>,
    /// The token that goes with `gateway_id`.
    pub gateway_token: Option<String>,
}

/// How the Open Live credential is presented.
#[derive(Clone, Copy, Debug, PartialEq, Eq, Structural)]
pub enum AuthMode {
    /// Sent as the bearer token as-is: a self-hosted Open Live with a static `API_KEY`,
    /// or none at all.
    Direct,
    /// An OSC personal access token, exchanged for a short-lived service token. The
    /// proxy in front of an OSC-hosted instance rejects a PAT presented directly.
    Osc,
}

/// The SRT link template. A port is allocated per input from `port_range`.
#[derive(Clone, Debug)]
pub struct Uplink {
    pub mode: UplinkMode,
    /// The cloud Strom to send to. Discovered from Open Live when unset.
    pub host: Option<String>,
    /// This machine's address as the cloud sees it. Needed in listener mode, where
    /// the cloud dials the venue.
    pub public_host: Option<String>,
    /// Inclusive `first-last` range, e.g. "47110-47129".
    pub port_range: String,
    /// Rule of thumb: 3-4x the measured RTT.
    pub latency_ms: u32,
    pub passphrase: Option<String>,
    /// AES key length in bytes: 16, 24, or 32.
    pub pbkeylen: Option<u32>,
}

/// Which end of the SRT link dials. A deployment constraint, not a preference:
/// whichever end listens needs an inbound UDP port.
#[derive(Clone, Copy, Debug, PartialEq, Eq, Structural)]
pub enum UplinkMode {
    /// The venue dials the cloud. Nothing inbound at the venue.
    Caller,
    /// The cloud dials the venue. Matches the convention Open Live's own seeded
    /// sources use, at the cost of a public address or port forward at the venue.
    Listener,
}

/// Maps to `builtin.videoenc`. Strom picks the encoder element itself, hardware
/// first, so this expresses intent rather than an element name.
#[derive(Clone, Debug)]
pub struct Video {
    /// `h264`, `h265`, `av1`, `vp9`.
    pub codec: String,
    pub bitrate_kbps: u32,
    /// `auto`, `hardware`, or `software`.
    pub encoder_preference: String,
    /// `ultrafast`, `fast`, `medium`, `slow`, `veryslow`.
    pub quality_preset: String,
    pub tune: String,
    /// `cbr`, `vbr`, or `cqp`.
    pub rate_control: String,
    /// In frames. One or two seconds' worth lets a reconnecting receiver lock on.
    pub keyframe_interval: u32,
}

/// Capture format to request. Blank takes whatever each device offers, which is the
/// right answer for most devices: `builtin.local_input` cannot scale or re-time, so
/// asking for a format a device does not advertise fails negotiation.
#[derive(Clone, Debug)]
pub struct Capture {
    /// `WxH`, e.g. `1280x720`.
    pub video_resolution: Option<String>,
    /// `N/D`, e.g. `25/1`.
    pub video_framerate: Option<String>,
}

#[derive(Clone, Debug)]
pub struct Log {
    pub level: String,
}

impl Default for Gateway {
    fn default() -> (r: Self)
        ensures
            r.id is None,
            r.name@ == Seq::<char>::empty(),
    {
        Gateway { id: None, name: String::new() }
    }
}

impl Default for Strom {
    fn default() -> (r: Self)
        ensures
            r.url@ == "http://127.0.0.1:8080"@,
            r.api_key is None,
            r.manage,
            r.binary@ == "strom"@,
            r.data_dir is None,
    {
        Strom {
            url: "http://127.0.0.1:8080".to_owned(),
            api_key: None,
            manage: true,
            binary: "strom".to_owned(),
            data_dir: None,
        }
    }
}

impl Default for OpenLive {
    fn default() -> (r: Self)
        ensures
            r.url is None,
            r.auth_mode == AuthMode::Direct,
            r.api_key is None,
            r.register,
            r.gateway_id is None,
            r.gateway_token is None,
    {
        OpenLive {
            url: None,
            auth_mode: AuthMode::Direct,
            api_key: None,
            register: true,
            gateway_id: None,
            gateway_token: None,
        }
    }
}

impl Default for AuthMode {
    fn default() -> (r: Self)
        ensures
            r == AuthMode::Direct,
    {
        AuthMode::Direct
    }
}

impl Default for UplinkMode {
    fn default() -> (r: Self)
        ensures
            r == UplinkMode::Caller,
    {
        UplinkMode::Caller
    }
}

impl Default for Uplink {
    fn default() -> (r: Self)
        ensures
            r.mode == UplinkMode::Caller,
            r.host is None,
            r.public_host is None,
            r.port_range@ == "47110-47129"@,
            r.latency_ms == 200,
            r.passphrase is None,
            r.pbkeylen is None,
    {
        Uplink {
            mode: UplinkMode::Caller,
            host: None,
            public_host: None,
            port_range: "47110-47129".to_owned(),
            latency_ms: 200,
            passphrase: None,
            pbkeylen: None,
        }
    }
}

impl Default for Video {
    fn default() -> (r: Self)
        ensures
            r.codec@ == "h264"@,
            r.bitrate_kbps == 6000,
            r.encoder_preference@ == "auto"@,
            r.quality_preset@ == "ultrafast"@,
            r.tune@ == "zerolatency"@,
            r.rate_control@ == "cbr"@,
            r.keyframe_interval == 25,
    {
        Video {
            codec: "h264".to_owned(),
            bitrate_kbps: 6000,
            encoder_preference: "auto".to_owned(),
            quality_preset: "ultrafast".to_owned(),
            tune: "zerolatency".to_owned(),
            rate_control: "cbr".to_owned(),
            keyframe_interval: 25,
        }
    }
}

impl Default for Capture {
    fn default() -> (r: Self)
        ensures
            r.video_resolution is None,
            r.video_framerate is None,
    {
        Capture { video_resolution: None, video_framerate: None }
    }
}

impl Default for Log {
    fn default() -> (r: Self)
        ensures
            r.level@ == "info"@,
    {
        Log { level: "info".to_owned() }
    }
}

impl Default for Config {
    fn default() -> (r: Self)
        ensures
            r.gateway.id is None,
            r.gateway.name@ == Seq::<char>::empty(),
            r.strom.url@ == "http://127.0.0.1:8080"@,
            r.strom.api_key is None,
            r.strom.manage,
            r.strom.binary@ == "strom"@,
            r.strom.data_dir is None,
            r.open_live.url is None,
            r.open_live.auth_mode == AuthMode::Direct,
            r.open_live.api_key is None,
            r.open_live.register,
            r.open_live.gateway_id is None,
            r.open_live.gateway_token is None,
            r.uplink.mode == UplinkMode::Caller,
            r.uplink.host is None,
            r.uplink.public_host is None,
            r.uplink.port_range@ == "47110-47129"@,
            r.uplink.latency_ms == 200,
            r.uplink.passphrase is None,
            r.uplink.pbkeylen is None,
            r.video.codec@ == "h264"@,
            r.video.bitrate_kbps == 6000,
            r.video.encoder_preference@ == "auto"@,
            r.video.quality_preset@ == "ultrafast"@,
            r.video.tune@ == "zerolatency"@,
            r.video.rate_control@ == "cbr"@,
            r.video.keyframe_interval == 25,
            r.capture.video_resolution is None,
            r.capture.video_framerate is None,
            r.log.level@ == "info"@,
    {
        Config {
            gateway: Gateway::default(),
            strom: Strom::default(),
            open_live: OpenLive::default(),
            uplink: Uplink::default(),
            video: Video::default(),
            capture: Capture::default(),
            log: Log::default(),
        }
    }
}

// ---------------------------------------------------------------------------
// Identity
// ---------------------------------------------------------------------------

/// The name this machine goes by, from the `hostname` crate's `get`, or nothing where
/// it cannot be read or is not Unicode. What comes back depends on the machine alone,
/// so nothing is claimed of it.
#[verifier::external_body]
pub fn hostname() -> (r: Option<String>) {
    hostname::get().ok().and_then(|h| h.into_string().ok())
}

/// The configured id without surrounding blanks, or else the machine's name, or else
/// a fixed name.
pub open spec fn gateway_id(configured: Option<Seq<char>>, host: Option<Seq<char>>) -> Seq<char> {
    match configured {
        Some(id) => id,
        None => match host {
            Some(h) => h,
            None => "open-live-gateway"@,
        },
    }
}

impl Gateway {
    /// The identity, once the machine's own name is known.
    pub fn resolved_id_on(&self, host: Option<String>) -> (r: String)
        ensures
            r@ == gateway_id(visible(self.id), opt_text(host)),
    {
        match visible_of(&self.id) {
            Some(id) => id,
            None => match host {
                Some(h) => h,
                None => "open-live-gateway".to_owned(),
            },
        }
    }

    pub fn resolved_id(&self) -> (r: String)
        ensures
            exists|host: Option<Seq<char>>| r@ == #[trigger] gateway_id(visible(self.id), host),
    {
        let host = hostname();
        let ghost h = opt_text(host);
        let r = self.resolved_id_on(host);
        assert(r@ == gateway_id(visible(self.id), h));
        r
    }
}

// ---------------------------------------------------------------------------
// Ports
// ---------------------------------------------------------------------------

/// An inclusive range of UDP ports.
#[derive(Clone, Copy, Debug, PartialEq, Eq, Structural)]
pub struct PortRange {
    pub first: u16,
    pub last: u16,
}

impl PortRange {
    /// Names at least one port, and not port zero.
    pub open spec fn wf(self) -> bool {
        0 < self.first <= self.last
    }

    pub open spec fn has(self, port: int) -> bool {
        self.first <= port <= self.last
    }

    /// How many ports the range names.
    pub open spec fn count(self) -> int {
        if self.first <= self.last {
            self.last - self.first + 1
        } else {
            0
        }
    }

    pub fn contains(&self, port: u16) -> (r: bool)
        ensures
            r == self.has(port as int),
    {
        self.first <= port && port <= self.last
    }
}

/// `first-last`.
pub open spec fn range_text(range: PortRange) -> Seq<char> {
    dec(range.first as nat) + "-"@ + dec(range.last as nat)
}

pub fn format_port_range(range: &PortRange) -> (r: String)
    ensures
        r@ == range_text(*range),
{
    decimal(range.first as u64).concat("-").concat(decimal(range.last as u64).as_str())
}

/// What a `first-last` text denotes, or what is wrong with it.
pub open spec fn parsed_range(s: Seq<char>) -> Result<PortRange, (Fault, Seq<char>)> {
    match split_at_first(s, '-') {
        None => Err((Fault::PortRangeShape, s)),
        Some((a, b)) => match parsed_number(trimmed(a), u16::MAX as nat) {
            None => Err((Fault::FirstPort, s)),
            Some(first) => match parsed_number(trimmed(b), u16::MAX as nat) {
                None => Err((Fault::LastPort, s)),
                Some(last) => if first == 0 || last < first {
                    Err((Fault::EmptyPortRange, s))
                } else {
                    Ok(PortRange { first: first as u16, last: last as u16 })
                },
            },
        },
    }
}

/// The outcome of a check, with its error as data.
pub open spec fn outcome<T>(r: Result<T, ConfigError>) -> Result<T, (Fault, Seq<char>)> {
    match r {
        Ok(v) => Ok(v),
        Err(e) => Err(e@),
    }
}

/// Reads a `first-last` text.
pub fn parse_port_range(text: &str) -> (r: Result<PortRange, ConfigError>)
    ensures
        outcome(r) == parsed_range(text@),
        r is Ok ==> r->Ok_0.wf(),
{
    let (a, b) = match split_once(text, '-') {
        Some(parts) => parts,
        None => return Err(ConfigError::of(Fault::PortRangeShape, text)),
    };
    let first: u64 = match parse_number(trim(a.as_str()).as_str(), u16::MAX as u64) {
        Some(n) => n,
        None => return Err(ConfigError::of(Fault::FirstPort, text)),
    };
    let last: u64 = match parse_number(trim(b.as_str()).as_str(), u16::MAX as u64) {
        Some(n) => n,
        None => return Err(ConfigError::of(Fault::LastPort, text)),
    };
    if first == 0 || last < first {
        return Err(ConfigError::of(Fault::EmptyPortRange, text));
    }
    Ok(PortRange { first: first as u16, last: last as u16 })
}

impl Uplink {
    pub fn ports(&self) -> (r: Result<PortRange, ConfigError>)
        ensures
            outcome(r) == parsed_range(self.port_range@),
            r is Ok ==> r->Ok_0.wf(),
    {
        parse_port_range(self.port_range.as_str())
    }

    /// The range in the settings, where one is set at all.
    pub fn local_ports(&self) -> (r: Result<Option<PortRange>, ConfigError>)
        ensures
            match r {
                Ok(None) => blank(self.port_range@),
                Ok(Some(range)) => !blank(self.port_range@) && parsed_range(self.port_range@) == Ok::<
                    PortRange,
                    (Fault, Seq<char>),
                >(range) && range.wf(),
                Err(e) => !blank(self.port_range@) && parsed_range(self.port_range@) == Err::<
                    PortRange,
                    (Fault, Seq<char>),
                >(e@),
            },
    {
        if is_blank(self.port_range.as_str()) {
            return Ok(None);
        }
        match self.ports() {
            Ok(range) => Ok(Some(range)),
            Err(e) => Err(e),
        }
    }

    /// One concrete link, once a cloud host and a port are known.
    pub fn endpoint(&self, cloud_host: &str, port: u16) -> (r: Endpoint)
        ensures
            r.valid(),
            r.mode == self.mode,
            r.cloud_host@ == cloud_host@,
            r.public_host@ == opt_or_empty(self.public_host),
            r.port == port,
            r.latency_ms == self.latency_ms,
            r.secret() == nonempty(self.passphrase),
            r.pbkeylen == self.pbkeylen,
    {
        let public_host = match &self.public_host {
            Some(h) => h.clone(),
            None => String::new(),
        };
        let passphrase = match &self.passphrase {
            Some(p) => if p.as_str().is_empty() {
                None
            } else {
                Some(p.clone())
            },
            None => None,
        };
        Endpoint {
            mode: self.mode,
            cloud_host: cloud_host.to_owned(),
            public_host,
            port,
            latency_ms: self.latency_ms,
            passphrase,
            pbkeylen: self.pbkeylen,
        }
    }
}

pub open spec fn opt_or_empty(o: Option<String>) -> Seq<char> {
    match o {
        Some(s) => s@,
        None => Seq::empty(),
    }
}

// ---------------------------------------------------------------------------
// One link, two mirrored addresses
// ---------------------------------------------------------------------------

/// One SRT link, described by the two URIs that mirror each other: the one on the
/// venue Strom's output block, and the one registered on the Open Live source for
/// the cloud Strom's input block.
#[derive(Debug)]
pub struct Endpoint {
    pub mode: UplinkMode,
    pub cloud_host: String,
    pub public_host: String,
    pub port: u16,
    pub latency_ms: u32,
    /// Absent on a link without encryption, and never empty on one that is valid.
    pub passphrase: Option<String>,
    pub pbkeylen: Option<u32>,
}

impl Clone for Endpoint {
    fn clone(&self) -> (r: Self)
        ensures
            r == *self,
    {
        Endpoint {
            mode: self.mode,
            cloud_host: self.cloud_host.clone(),
            public_host: self.public_host.clone(),
            port: self.port,
            latency_ms: self.latency_ms,
            passphrase: copy_opt(&self.passphrase),
            pbkeylen: self.pbkeylen,
        }
    }
}

/// The parameters that both ends of an encrypted link must agree on.
pub open spec fn crypto_suffix(secret: Option<Seq<char>>, key_length: Option<u32>) -> Seq<char> {
    match secret {
        None => Seq::empty(),
        Some(p) => match key_length {
            Some(len) => "&passphrase="@ + p + "&pbkeylen="@ + dec(len as nat),
            None => "&passphrase="@ + p,
        },
    }
}

/// An address that dials `host`.
pub open spec fn dial_uri(host: Seq<char>, port: u16) -> Seq<char> {
    "srt://"@ + host + ":"@ + dec(port as nat) + "?mode=caller"@
}

/// An address that binds `port` and waits.
pub open spec fn bind_uri(port: u16) -> Seq<char> {
    "srt://:"@ + dec(port as nat) + "?mode=listener"@
}

pub open spec fn latency_suffix(latency_ms: u32) -> Seq<char> {
    "&latency="@ + dec(latency_ms as nat)
}

/// Appends the encryption parameters to an address.
pub fn write_crypto(uri: &mut String, secret: &Option<String>, key_length: Option<u32>)
    ensures
        final(uri)@ == old(uri)@ + crypto_suffix(opt_text(*secret), key_length),
{
    let ghost before = uri@;
    match secret {
        None => {
            assert(uri@ =~= before + crypto_suffix(None, key_length));
        },
        Some(p) => {
            uri.append("&passphrase=");
            uri.append(p.as_str());
            match key_length {
                Some(len) => {
                    uri.append("&pbkeylen=");
                    uri.append(decimal(len as u64).as_str());
                },
                None => {},
            }
            assert(uri@ =~= before + crypto_suffix(Some(p@), key_length));
        },
    }
}

pub fn write_dial(host: &str, port: u16) -> (r: String)
    ensures
        r@ == dial_uri(host@, port),
{
    "srt://".to_owned().concat(host).concat(":").concat(decimal(port as u64).as_str()).concat(
        "?mode=caller",
    )
}

pub fn write_bind(port: u16) -> (r: String)
    ensures
        r@ == bind_uri(port),
{
    "srt://:".to_owned().concat(decimal(port as u64).as_str()).concat("?mode=listener")
}

impl Endpoint {
    /// An encrypted link has something to encrypt with.
    pub open spec fn valid(&self) -> bool {
        self.passphrase matches Some(p) ==> p@.len() > 0
    }

    /// The passphrase, where the link is encrypted.
    pub open spec fn secret(&self) -> Option<Seq<char>> {
        opt_text(self.passphrase)
    }

    /// What both addresses of the link end in.
    pub open spec fn crypto(&self) -> Seq<char> {
        crypto_suffix(self.secret(), self.pbkeylen)
    }

    /// The address the venue Strom gets.
    pub open spec fn venue_address(&self) -> Seq<char> {
        (match self.mode {
            UplinkMode::Caller => dial_uri(self.cloud_host@, self.port),
            UplinkMode::Listener => bind_uri(self.port),
        }) + latency_suffix(self.latency_ms) + self.crypto()
    }

    /// The address the cloud Strom gets.
    pub open spec fn cloud_address(&self) -> Seq<char> {
        (match self.mode {
            UplinkMode::Caller => bind_uri(self.port),
            UplinkMode::Listener => dial_uri(self.public_host@, self.port),
        }) + self.crypto()
    }

    /// For `builtin.mpegtssrt_output` on the venue Strom.
    pub fn venue_uri(&self) -> (r: String)
        ensures
            r@ == self.venue_address(),
    {
        let mut uri = match self.mode {
            UplinkMode::Caller => write_dial(self.cloud_host.as_str(), self.port),
            UplinkMode::Listener => write_bind(self.port),
        };
        let suffix = "&latency=".to_owned().concat(decimal(self.latency_ms as u64).as_str());
        uri.append(suffix.as_str());
        write_crypto(&mut uri, &self.passphrase, self.pbkeylen);
        uri
    }

    /// Registered on the Open Live source, which becomes the cloud Strom's `srt_uri`.
    /// `srtsrc` defaults to caller mode, so the mode is always explicit here.
    pub fn cloud_uri(&self) -> (r: String)
        ensures
            r@ == self.cloud_address(),
    {
        let mut uri = match self.mode {
            UplinkMode::Caller => write_bind(self.port),
            UplinkMode::Listener => write_dial(self.public_host.as_str(), self.port),
        };
        write_crypto(&mut uri, &self.passphrase, self.pbkeylen);
        uri
    }
}

/// Exactly one end of a link dials and the other binds, on the same port: whichever
/// end the venue's address gives to the venue, the cloud's gives the opposite to the
/// cloud, and both end in the same encryption parameters.
pub proof fn law_the_two_addresses_mirror_each_other(e: Endpoint)
    ensures
        e.mode == UplinkMode::Caller ==> {
            &&& e.venue_address() == dial_uri(e.cloud_host@, e.port) + latency_suffix(e.latency_ms)
                + e.crypto()
            &&& e.cloud_address() == bind_uri(e.port) + e.crypto()
        },
        e.mode == UplinkMode::Listener ==> {
            &&& e.venue_address() == bind_uri(e.port) + latency_suffix(e.latency_ms) + e.crypto()
            &&& e.cloud_address() == dial_uri(e.public_host@, e.port) + e.crypto()
        },
        e.crypto().is_suffix_of(e.venue_address()),
        e.crypto().is_suffix_of(e.cloud_address()),
{
    let v = e.venue_address();
    assert(v.subrange(v.len() - e.crypto().len(), v.len() as int) =~= e.crypto());
    let c = e.cloud_address();
    assert(c.subrange(c.len() - e.crypto().len(), c.len() as int) =~= e.crypto());
}

// ---------------------------------------------------------------------------
// Checking
// ---------------------------------------------------------------------------

/// The position of the first `x` of either case, or the length.
pub open spec fn cross_at(s: Seq<char>) -> int {
    let small = char_from(s, 'x', 0);
    let large = char_from(s, 'X', 0);
    if small <= large {
        small
    } else {
        large
    }
}

/// What a `WxH` text denotes, or what is wrong with it.
pub open spec fn parsed_resolution(s: Seq<char>) -> Result<(u32, u32), (Fault, Seq<char>)> {
    let k = cross_at(s);
    if k >= s.len() {
        Err((Fault::ResolutionShape, s))
    } else {
        match parsed_number(trimmed(s.subrange(0, k)), u32::MAX as nat) {
            None => Err((Fault::Width, s)),
            Some(w) => match parsed_number(
                trimmed(s.subrange(k + 1, s.len() as int)),
                u32::MAX as nat,
            ) {
                None => Err((Fault::Height, s)),
                Some(h) => Ok((w as u32, h as u32)),
            },
        }
    }
}

/// Splits a `WxH` string.
pub fn parse_resolution(resolution: &str) -> (r: Result<(u32, u32), ConfigError>)
    ensures
        outcome(r) == parsed_resolution(resolution@),
{
    let v = to_chars(resolution);
    let small: usize = find_char(&v, 'x', 0);
    let large: usize = find_char(&v, 'X', 0);
    let k: usize = if small <= large {
        small
    } else {
        large
    };
    if k >= v.len() {
        return Err(ConfigError::of(Fault::ResolutionShape, resolution));
    }
    let w: u64 = match parse_number(trim(string_of(&v, 0, k).as_str()).as_str(), u32::MAX as u64) {
        Some(n) => n,
        None => return Err(ConfigError::of(Fault::Width, resolution)),
    };
    let h: u64 = match parse_number(
        trim(string_of(&v, k + 1, v.len()).as_str()).as_str(),
        u32::MAX as u64,
    ) {
        Some(n) => n,
        None => return Err(ConfigError::of(Fault::Height, resolution)),
    };
    Ok((w as u32, h as u32))
}

/// `N/D` with a denominator above zero.
pub open spec fn is_framerate(s: Seq<char>) -> bool {
    match split_at_first(s, '/') {
        None => false,
        Some((n, d)) => parsed_number(n, u32::MAX as nat) is Some && parsed_number(
            d,
            u32::MAX as nat,
        ) is Some && parsed_number(d, u32::MAX as nat)->0 > 0,
    }
}

pub fn check_framerate(rate: &str) -> (r: bool)
    ensures
        r == is_framerate(rate@),
{
    match split_once(rate, '/') {
        None => false,
        Some((n, d)) => {
            let numerator = parse_number(n.as_str(), u32::MAX as u64);
            let denominator = parse_number(d.as_str(), u32::MAX as u64);
            match (numerator, denominator) {
                (Some(_), Some(d)) => d > 0,
                _ => false,
            }
        },
    }
}

pub open spec fn is_http_url(s: Seq<char>) -> bool {
    "http://"@.is_prefix_of(s) || "https://"@.is_prefix_of(s)
}

pub fn check_http_url(s: &str) -> (r: bool)
    ensures
        r == is_http_url(s@),
{
    starts_with(s, "http://") || starts_with(s, "https://")
}

/// A character that can stand in a URI unescaped.
pub open spec fn passphrase_char(c: char) -> bool {
    is_alphanumeric(c) || c == '-' || c == '_' || c == '.' || c == '~' || c == '!' || c == '*'
}

pub open spec fn all_passphrase_chars(s: Seq<char>) -> bool {
    forall|i: int| 0 <= i < s.len() ==> passphrase_char(#[trigger] s[i])
}

fn check_passphrase_chars(s: &str) -> (r: bool)
    ensures
        r == all_passphrase_chars(s@),
{
    let v = to_chars(s);
    let mut i: usize = 0;
    while i < v.len()
        invariant
            i <= v@.len(),
            v@ == s@,
            forall|j: int| 0 <= j < i ==> passphrase_char(#[trigger] v@[j]),
        decreases v@.len() - i,
    {
        let c: char = v[i];
        if !(char_is_alphanumeric(c) || c == '-' || c == '_' || c == '.' || c == '~' || c == '!'
            || c == '*') {
            assert(!passphrase_char(s@[i as int]));
            return false;
        }
        i = i + 1;
    }
    true
}

/// What is wrong with the link, if anything.
pub open spec fn uplink_fault(u: Uplink) -> Option<(Fault, Seq<char>)> {
    if parsed_range(u.port_range@) is Err {
        Some(parsed_range(u.port_range@)->Err_0)
    } else if u.mode == UplinkMode::Listener && visible(u.public_host) is None {
        Some((Fault::PublicHostMissing, Seq::empty()))
    } else if u.pbkeylen is Some && u.pbkeylen->0 != 16 && u.pbkeylen->0 != 24 && u.pbkeylen->0
        != 32 {
        Some((Fault::KeyLength, dec(u.pbkeylen->0 as nat)))
    } else {
        match nonempty(u.passphrase) {
            None => None,
            Some(p) => if !(10 <= p.len() <= 79) {
                Some((Fault::PassphraseLength, dec(p.len())))
            } else if !all_passphrase_chars(p) {
                Some((Fault::PassphraseCharacters, Seq::empty()))
            } else {
                None
            },
        }
    }
}

/// What is wrong with the capture format, if anything.
pub open spec fn capture_fault(c: Capture) -> Option<(Fault, Seq<char>)> {
    if nonempty(c.video_resolution) is Some && parsed_resolution(
        nonempty(c.video_resolution)->0,
    ) is Err {
        Some(parsed_resolution(nonempty(c.video_resolution)->0)->Err_0)
    } else if nonempty(c.video_framerate) is Some && !is_framerate(nonempty(c.video_framerate)->0) {
        Some((Fault::Framerate, nonempty(c.video_framerate)->0))
    } else {
        None
    }
}

/// What is wrong with registration, if anything. Only osc mode needs a credential, and
/// a saved login serves as one.
pub open spec fn open_live_fault(o: OpenLive, osc_login: bool) -> Option<(Fault, Seq<char>)> {
    if !o.register {
        None
    } else if visible(o.url) is None {
        Some((Fault::OpenLiveUrlMissing, Seq::empty()))
    } else if o.auth_mode == AuthMode::Osc && !osc_login && visible(o.api_key) is None {
        Some((Fault::OscTokenMissing, Seq::empty()))
    } else {
        None
    }
}

/// The first thing wrong with the settings, if anything: the Strom address, then the
/// link, then the capture format, then registration.
pub open spec fn first_fault(cfg: Config, osc_login: bool) -> Option<(Fault, Seq<char>)> {
    if !is_http_url(cfg.strom.url@) {
        Some((Fault::StromUrl, cfg.strom.url@))
    } else if uplink_fault(cfg.uplink) is Some {
        uplink_fault(cfg.uplink)
    } else if capture_fault(cfg.capture) is Some {
        capture_fault(cfg.capture)
    } else {
        open_live_fault(cfg.open_live, osc_login)
    }
}

/// The verdict of a check: nothing, or the fault it found.
pub open spec fn verdict(r: Result<(), ConfigError>) -> Option<(Fault, Seq<char>)> {
    match r {
        Ok(_) => None,
        Err(e) => Some(e@),
    }
}

fn check_uplink(u: &Uplink) -> (r: Result<(), ConfigError>)
    ensures
        verdict(r) == uplink_fault(*u),
{
    match u.ports() {
        Ok(_) => {},
        Err(e) => return Err(e),
    }
    if u.mode == UplinkMode::Listener {
        if visible_of(&u.public_host).is_none() {
            return Err(ConfigError { fault: Fault::PublicHostMissing, value: String::new() });
        }
    }
    if let Some(len) = u.pbkeylen {
        if len != 16 && len != 24 && len != 32 {
            return Err(ConfigError { fault: Fault::KeyLength, value: decimal(len as u64) });
        }
    }
    if let Some(p) = &u.passphrase {
        if !p.as_str().is_empty() {
            let n: usize = p.as_str().unicode_len();
            if n < 10 || n > 79 {
                return Err(
                    ConfigError { fault: Fault::PassphraseLength, value: decimal(n as u64) },
                );
            }
            if !check_passphrase_chars(p.as_str()) {
                return Err(
                    ConfigError { fault: Fault::PassphraseCharacters, value: String::new() },
                );
            }
        }
    }
    Ok(())
}

fn check_capture(c: &Capture) -> (r: Result<(), ConfigError>)
    ensures
        verdict(r) == capture_fault(*c),
{
    if let Some(res) = &c.video_resolution {
        if !res.as_str().is_empty() {
            match parse_resolution(res.as_str()) {
                Ok(_) => {},
                Err(e) => return Err(e),
            }
        }
    }
    if let Some(rate) = &c.video_framerate {
        if !rate.as_str().is_empty() && !check_framerate(rate.as_str()) {
            return Err(ConfigError::of(Fault::Framerate, rate.as_str()));
        }
    }
    Ok(())
}

fn check_open_live(o: &OpenLive, osc_login: bool) -> (r: Result<(), ConfigError>)
    ensures
        verdict(r) == open_live_fault(*o, osc_login),
{
    if !o.register {
        return Ok(());
    }
    if visible_of(&o.url).is_none() {
        return Err(ConfigError { fault: Fault::OpenLiveUrlMissing, value: String::new() });
    }
    if o.auth_mode == AuthMode::Osc && !osc_login {
        if visible_of(&o.api_key).is_none() {
            return Err(ConfigError { fault: Fault::OscTokenMissing, value: String::new() });
        }
    }
    Ok(())
}

/// Rejects settings that would otherwise fail confusingly at runtime. `osc_login` says
/// whether the OSC CLI has a saved login, which stands in for `open_live.api_key` in
/// osc mode.
pub fn validate_with(cfg: &Config, osc_login: bool) -> (r: Result<(), ConfigError>)
    ensures
        verdict(r) == first_fault(*cfg, osc_login),
{
    if !check_http_url(cfg.strom.url.as_str()) {
        return Err(ConfigError::of(Fault::StromUrl, cfg.strom.url.as_str()));
    }
    match check_uplink(&cfg.uplink) {
        Ok(_) => {},
        Err(e) => return Err(e),
    }
    match check_capture(&cfg.capture) {
        Ok(_) => {},
        Err(e) => return Err(e),
    }
    check_open_live(&cfg.open_live, osc_login)
}

/// Checks the settings, given the login that the OSC CLI has saved, if any.
pub fn validate(cfg: &Config, saved_login: &Option<String>) -> (r: Result<(), ConfigError>)
    ensures
        verdict(r) == first_fault(*cfg, saved_login is Some),
{
    validate_with(cfg, saved_login.is_some())
}

/// A passphrase that passed the checks cannot break the addresses it travels in: it
/// holds no `&`, so it ends where the next parameter begins.
pub proof fn law_a_checked_passphrase_never_splits_an_address(cfg: Config, osc_login: bool, i: int)
    requires
        first_fault(cfg, osc_login) is None,
        nonempty(cfg.uplink.passphrase) is Some,
        0 <= i < nonempty(cfg.uplink.passphrase)->0.len(),
    ensures
        nonempty(cfg.uplink.passphrase)->0[i] != '&',
        10 <= nonempty(cfg.uplink.passphrase)->0.len() <= 79,
{
    assert(passphrase_char(nonempty(cfg.uplink.passphrase)->0[i]));
}

// ---------------------------------------------------------------------------
// Masking
// ---------------------------------------------------------------------------

/// The parameter whose value is masked.
pub open spec fn secret_key() -> Seq<char> {
    "passphrase="@
}

/// Where the value of the passphrase parameter begins, if there is one.
pub open spec fn secret_start(uri: Seq<char>) -> Option<int> {
    match find_text(ascii_lower(uri), secret_key()) {
        Some(at) => Some(at + secret_key().len()),
        None => None,
    }
}

/// The address with the value of its passphrase parameter replaced.
pub open spec fn masked(uri: Seq<char>) -> Seq<char> {
    match secret_start(uri) {
        None => uri,
        Some(from) => uri.subrange(0, from) + "***"@ + uri.subrange(
            char_from(uri, '&', from),
            uri.len() as int,
        ),
    }
}

proof fn lemma_secret_start_bounds(uri: Seq<char>)
    ensures
        secret_start(uri) is Some ==> 0 < secret_start(uri)->0 <= uri.len(),
        secret_start(uri) is Some ==> has_at(
            ascii_lower(uri),
            secret_key(),
            secret_start(uri)->0 - secret_key().len(),
        ),
{
    reveal_strlit("passphrase=");
    lemma_find_from(ascii_lower(uri), secret_key(), 0);
}

/// Replaces a passphrase value in a URI with the same mask Open Live applies on
/// read. Used both to compare addresses and to keep the passphrase off the terminal.
pub fn mask_passphrase(uri: &str) -> (r: String)
    ensures
        r@ == masked(uri@),
{
    let v = to_chars(uri);
    let lower = lower_chars(&v);
    let key = to_chars("passphrase=");
    proof {
        lemma_find_from(lower@, key@, 0);
    }
    match find_chars(&lower, &key) {
        None => uri.to_owned(),
        Some(at) => {
            assert(at + key.len() <= v.len());
            let from: usize = at + key.len();
            let to: usize = find_char(&v, '&', from);
            string_of(&v, 0, from).concat("***").concat(string_of(&v, to, v.len()).as_str())
        },
    }
}

/// Two texts that agree up to and including a found position find the same position.
proof fn lemma_find_same(a: Seq<char>, b: Seq<char>, pat: Seq<char>, i: int, k: int)
    requires
        0 <= i <= k,
        find_from(a, pat, i) == Some(k),
        k + pat.len() <= b.len(),
        k + pat.len() <= a.len(),
        forall|j: int| 0 <= j < k + pat.len() ==> a[j] == b[j],
    ensures
        find_from(b, pat, i) == Some(k),
    decreases k - i,
{
    lemma_find_from(a, pat, i);
    assert(a.subrange(i, i + pat.len()) =~= b.subrange(i, i + pat.len()));
    if i < k {
        assert(!has_at(a, pat, i));
        lemma_find_same(a, b, pat, i + 1, k);
    }
}

/// Masking an address that is already masked changes nothing.
pub proof fn law_masking_twice_is_masking_once(uri: Seq<char>)
    ensures
        masked(masked(uri)) == masked(uri),
{
    reveal_strlit("***");
    lemma_secret_start_bounds(uri);
    if let Some(from) = secret_start(uri) {
        let to = char_from(uri, '&', from);
        lemma_char_from(uri, '&', from);
        let m = masked(uri);
        let at = from - secret_key().len();
        lemma_find_same(ascii_lower(uri), ascii_lower(m), secret_key(), 0, at);
        assert(secret_start(m) == Some(from));
        assert(m.subrange(0, from) =~= uri.subrange(0, from));
        let end = char_from(m, '&', from);
        lemma_char_from(m, '&', from);
        assert(m[from] == '*' && m[from + 1] == '*' && m[from + 2] == '*');
        assert(forall|j: int|
            #![trigger m[j]]
            from + 3 <= j < m.len() ==> m[j] == uri[to + (j - from - 3)]);
        if to < uri.len() {
            assert(m[from + 3] == '&');
        }
        assert(end == from + 3);
        assert(m.subrange(end, m.len() as int) =~= uri.subrange(to, uri.len() as int));
        assert(masked(m) =~= m);
    }
}

/// Masking hides every value alike: two addresses that differ only in the value of
/// their passphrase look the same once masked.
pub proof fn law_masking_hides_the_value(before: Seq<char>, a: Seq<char>, b: Seq<char>, after: Seq<char>)
    requires
        secret_start(before) == Some(before.len() as int),
        forall|i: int| 0 <= i < a.len() ==> a[i] != '&',
        forall|i: int| 0 <= i < b.len() ==> b[i] != '&',
        after.len() == 0 || after[0] == '&',
    ensures
        masked(before + a + after) == before + "***"@ + after,
        masked(before + a + after) == masked(before + b + after),
{
    lemma_masked_value(before, a, after);
    lemma_masked_value(before, b, after);
}

proof fn lemma_masked_value(before: Seq<char>, value: Seq<char>, after: Seq<char>)
    requires
        secret_start(before) == Some(before.len() as int),
        forall|i: int| 0 <= i < value.len() ==> value[i] != '&',
        after.len() == 0 || after[0] == '&',
    ensures
        masked(before + value + after) == before + "***"@ + after,
{
    let uri = before + value + after;
    let from = before.len() as int;
    lemma_secret_start_bounds(before);
    lemma_find_same(
        ascii_lower(before),
        ascii_lower(uri),
        secret_key(),
        0,
        from - secret_key().len(),
    );
    assert(secret_start(uri) == Some(from));
    lemma_char_from(uri, '&', from);
    let to = char_from(uri, '&', from);
    let k = from + value.len();
    assert(forall|j: int| #![trigger uri[j]] from <= j < k ==> uri[j] == value[j - from]);
    if after.len() > 0 {
        assert(uri[k] == '&');
    }
    assert(to == k);
    assert(uri.subrange(0, from) =~= before);
    assert(uri.subrange(to, uri.len() as int) =~= after);
}

// ---------------------------------------------------------------------------
// Overrides and places
// ---------------------------------------------------------------------------

pub open spec fn auth_mode_named(s: Seq<char>) -> Option<AuthMode> {
    if s == "direct"@ {
        Some(AuthMode::Direct)
    } else if s == "osc"@ {
        Some(AuthMode::Osc)
    } else {
        None
    }
}

impl AuthMode {
    pub fn from_str(s: &str) -> (r: Result<AuthMode, ConfigError>)
        ensures
            match r {
                Ok(mode) => auth_mode_named(s@) == Some(mode),
                Err(e) => auth_mode_named(s@) is None && e@ == (Fault::AuthMode, s@),
            },
    {
        if same_text(s, "direct") {
            Ok(AuthMode::Direct)
        } else if same_text(s, "osc") {
            Ok(AuthMode::Osc)
        } else {
            Err(ConfigError::of(Fault::AuthMode, s))
        }
    }
}

/// The values a deployment tool can inject without templating a file, as found in the
/// environment.
#[derive(Clone, Debug)]
pub struct Overrides {
    pub open_live_url: Option<String>,
    pub open_live_api_key: Option<String>,
    pub open_live_auth_mode: Option<String>,
    pub open_live_gateway_token: Option<String>,
    pub strom_url: Option<String>,
    pub strom_api_key: Option<String>,
}

/// The injected value where there is one.
pub open spec fn or_injected<T>(stored: Option<T>, injected: Option<T>) -> Option<T> {
    match injected {
        Some(v) => Some(v),
        None => stored,
    }
}

/// The settings with every injected value in place, and all else as stored.
pub open spec fn overlaid(cfg: Config, env: Overrides) -> Config {
    Config {
        open_live: OpenLive {
            url: or_injected(cfg.open_live.url, env.open_live_url),
            api_key: or_injected(cfg.open_live.api_key, env.open_live_api_key),
            auth_mode: match env.open_live_auth_mode {
                Some(mode) => auth_mode_named(mode@)->0,
                None => cfg.open_live.auth_mode,
            },
            gateway_token: or_injected(cfg.open_live.gateway_token, env.open_live_gateway_token),
            ..cfg.open_live
        },
        strom: Strom {
            url: match env.strom_url {
                Some(url) => url,
                None => cfg.strom.url,
            },
            api_key: or_injected(cfg.strom.api_key, env.strom_api_key),
            ..cfg.strom
        },
        ..cfg
    }
}

/// Overlays what the environment injects.
pub fn with_env_overrides(cfg: Config, env: Overrides) -> (r: Result<Config, ConfigError>)
    ensures
        match r {
            Ok(c) => c == overlaid(cfg, env) && (env.open_live_auth_mode is Some
                ==> auth_mode_named(env.open_live_auth_mode->0@) is Some),
            Err(e) => env.open_live_auth_mode is Some && auth_mode_named(
                env.open_live_auth_mode->0@,
            ) is None && e@ == (Fault::AuthMode, env.open_live_auth_mode->0@),
        },
{
    let mut cfg = cfg;
    if let Some(url) = env.open_live_url {
        cfg.open_live.url = Some(url);
    }
    if let Some(key) = env.open_live_api_key {
        cfg.open_live.api_key = Some(key);
    }
    if let Some(mode) = env.open_live_auth_mode {
        match AuthMode::from_str(mode.as_str()) {
            Ok(mode) => {
                cfg.open_live.auth_mode = mode;
            },
            Err(e) => return Err(e),
        }
    }
    if let Some(token) = env.open_live_gateway_token {
        cfg.open_live.gateway_token = Some(token);
    }
    if let Some(url) = env.strom_url {
        cfg.strom.url = url;
    }
    if let Some(key) = env.strom_api_key {
        cfg.strom.api_key = Some(key);
    }
    Ok(cfg)
}

/// What the per-user directory depends on.
#[derive(Clone, Debug)]
pub struct Places {
    pub macos: bool,
    pub home: Option<String>,
    pub xdg_config_home: Option<String>,
}

/// A path below another: a separator stands between them unless one is there already.
pub open spec fn below(base: Seq<char>, leaf: Seq<char>) -> Seq<char> {
    if base.len() == 0 || base.last() == '/' {
        base + leaf
    } else {
        base + "/"@ + leaf
    }
}

pub fn join_path(base: &str, leaf: &str) -> (r: String)
    ensures
        r@ == below(base@, leaf@),
{
    let n: usize = base.unicode_len();
    if n == 0 || base.get_char(n - 1) == '/' {
        base.to_owned().concat(leaf)
    } else {
        base.to_owned().concat("/").concat(leaf)
    }
}

/// Where per-user files live: the platform's place for settings, or the working
/// directory where the environment names none.
pub open spec fn user_place(p: Places) -> Seq<char> {
    below(
        if p.macos {
            match p.home {
                Some(h) => below(below(h@, "Library"@), "Application Support"@),
                None => "."@,
            }
        } else {
            match p.xdg_config_home {
                Some(x) => x@,
                None => match p.home {
                    Some(h) => below(h@, ".config"@),
                    None => "."@,
                },
            }
        },
        "open-live-ingest"@,
    )
}

/// Where per-user files live. Per-user because this is run by an operator, not root.
pub fn user_dir(p: &Places) -> (r: String)
    ensures
        r@ == user_place(*p),
{
    let base = if p.macos {
        match &p.home {
            Some(h) => join_path(
                join_path(h.as_str(), "Library").as_str(),
                "Application Support",
            ),
            None => ".".to_owned(),
        }
    } else {
        match &p.xdg_config_home {
            Some(x) => x.clone(),
            None => match &p.home {
                Some(h) => join_path(h.as_str(), ".config"),
                None => ".".to_owned(),
            },
        }
    };
    join_path(base.as_str(), "open-live-ingest")
}

pub fn default_path(p: &Places) -> (r: String)
    ensures
        r@ == below(user_place(*p), "gateway.toml"@),
{
    join_path(user_dir(p).as_str(), "gateway.toml")
}

/// The pid of a running `up`, so `down` can ask it to stop.
pub fn pidfile(p: &Places) -> (r: String)
    ensures
        r@ == below(user_place(*p), "gateway.pid"@),
{
    join_path(user_dir(p).as_str(), "gateway.pid")
}

/// The pid of a Strom the gateway started, so `down` can stop it after a hard kill.
/// These two pidfiles are the only local state.
pub fn strom_pidfile(p: &Places) -> (r: String)
    ensures
        r@ == below(user_place(*p), "strom.pid"@),
{
    join_path(user_dir(p).as_str(), "strom.pid")
}

// ---------------------------------------------------------------------------
// What the checks accept
// ---------------------------------------------------------------------------

proof fn lemma_cut(a: Seq<char>, c: char, b: Seq<char>)
    requires
        !a.contains(c),
    ensures
        char_from(a + seq![c] + b, c, 0) == a.len(),
        split_at_first(a + seq![c] + b, c) == Some((a, b)),
{
    let s = a + seq![c] + b;
    lemma_char_from(s, c, 0);
    let k = char_from(s, c, 0);
    assert(s[a.len() as int] == c);
    if k < a.len() {
        assert(a[k] == c);
    }
    assert(s.subrange(0, k) =~= a);
    assert(s.subrange(k + 1, s.len() as int) =~= b);
}

proof fn lemma_a_notation_holds_no_mark(n: nat, c: char)
    requires
        !('0' <= c <= '9'),
    ensures
        !dec(n).contains(c),
{
    law_a_notation_names_one_number(n, n);
}

/// Two numbers with a slash between them are a framerate exactly when both fit 32 bits
/// and the second is not zero. A text without a slash is none, nor is one that holds
/// anything but digits, a slash and signs.
pub proof fn law_a_framerate_is_a_quotient(n: nat, d: nat, s: Seq<char>)
    ensures
        is_framerate(dec(n) + "/"@ + dec(d)) <==> n <= 0xFFFF_FFFF && 0 < d <= 0xFFFF_FFFF,
        is_framerate(s) ==> s.contains('/'),
        is_framerate(s) ==> forall|i: int|
            0 <= i < s.len() ==> '0' <= #[trigger] s[i] <= '9' || s[i] == '/' || s[i] == '+',
{
    reveal_strlit("/");
    assert("/"@ =~= seq!['/']);
    lemma_a_notation_holds_no_mark(n, '/');
    lemma_cut(dec(n), '/', dec(d));
    law_a_number_is_read_up_to_the_limit(n, u32::MAX as nat);
    law_a_number_is_read_up_to_the_limit(d, u32::MAX as nat);
    law_a_text_is_cut_at_the_first_mark(s, '/');
    if is_framerate(s) {
        let (a, b) = split_at_first(s, '/')->0;
        law_only_digits_are_a_number(a, u32::MAX as nat);
        law_only_digits_are_a_number(b, u32::MAX as nat);
        assert forall|i: int| 0 <= i < s.len() implies '0' <= #[trigger] s[i] <= '9' || s[i] == '/'
            || s[i] == '+' by {
            if i < a.len() {
                assert(s[i] == a[i]);
            } else if i > a.len() {
                assert(s[i] == b[i - a.len() - 1]);
            }
        }
    }
}

/// What is asked of a capture is accepted whatever it is, as long as a resolution that
/// is asked for is two numbers and a framerate that is asked for has a divisor.
pub proof fn law_a_capture_format_is_accepted(c: Capture, w: nat, h: nat, n: nat, d: nat)
    requires
        nonempty(c.video_resolution) is None || nonempty(c.video_resolution)->0 == dec(w) + "x"@
            + dec(h),
        nonempty(c.video_framerate) is None || nonempty(c.video_framerate)->0 == dec(n) + "/"@
            + dec(d),
    ensures
        capture_fault(c) is None <==> (nonempty(c.video_resolution) is Some ==> w <= 0xFFFF_FFFF
            && h <= 0xFFFF_FFFF) && (nonempty(c.video_framerate) is Some ==> n <= 0xFFFF_FFFF && 0
            < d <= 0xFFFF_FFFF),
        capture_fault(c) matches Some((fault, value)) ==> (fault == Fault::Framerate ==> value
            == nonempty(c.video_framerate)->0) && (fault != Fault::Framerate ==> value == nonempty(
            c.video_resolution,
        )->0),
{
    law_a_framerate_is_a_quotient(n, d, Seq::empty());
    law_a_resolution_is_two_numbers(w, h, Seq::empty());
}

/// Two numbers with a cross of either case between them are a resolution, width first;
/// a number that does not fit is named in the refusal. A text without a cross is none.
pub proof fn law_a_resolution_is_two_numbers(w: nat, h: nat, s: Seq<char>)
    ensures
        parsed_resolution(dec(w) + "x"@ + dec(h)) == (if w > 0xFFFF_FFFF {
            Err((Fault::Width, dec(w) + "x"@ + dec(h)))
        } else if h > 0xFFFF_FFFF {
            Err((Fault::Height, dec(w) + "x"@ + dec(h)))
        } else {
            Ok((w as u32, h as u32))
        }),
        w <= 0xFFFF_FFFF && h <= 0xFFFF_FFFF ==> parsed_resolution(dec(w) + "X"@ + dec(h)) == Ok::<
            (u32, u32),
            (Fault, Seq<char>),
        >((w as u32, h as u32)),
        !s.contains('x') && !s.contains('X') ==> parsed_resolution(s) == Err::<
            (u32, u32),
            (Fault, Seq<char>),
        >((Fault::ResolutionShape, s)),
{
    reveal_strlit("x");
    reveal_strlit("X");
    lemma_a_notation_holds_no_mark(w, 'x');
    lemma_a_notation_holds_no_mark(w, 'X');
    lemma_a_notation_holds_no_mark(h, 'x');
    lemma_a_notation_holds_no_mark(h, 'X');
    law_a_number_is_read_up_to_the_limit(w, u32::MAX as nat);
    law_a_number_is_read_up_to_the_limit(h, u32::MAX as nat);
    lemma_decimal_is_read_back(w, w);
    lemma_decimal_is_read_back(h, h);
    lemma_crossed(dec(w), 'x', dec(h));
    lemma_crossed(dec(w), 'X', dec(h));
    assert("x"@ =~= seq!['x']);
    assert("X"@ =~= seq!['X']);
    lemma_char_from(s, 'x', 0);
    lemma_char_from(s, 'X', 0);
}

pub proof fn lemma_crossed(a: Seq<char>, c: char, b: Seq<char>)
    requires
        c == 'x' || c == 'X',
        !a.contains('x') && !a.contains('X'),
        !b.contains('x') && !b.contains('X'),
    ensures
        cross_at(a + seq![c] + b) == a.len(),
        (a + seq![c] + b).subrange(0, a.len() as int) == a,
        (a + seq![c] + b).subrange(a.len() as int + 1, (a + seq![c] + b).len() as int) == b,
{
    let s = a + seq![c] + b;
    lemma_cut(a, c, b);
    let other = if c == 'x' {
        'X'
    } else {
        'x'
    };
    lemma_char_from(s, other, 0);
    let k = char_from(s, other, 0);
    if k < s.len() {
        if k < a.len() {
            assert(a[k] == other);
        } else if k > a.len() {
            assert(b[k - a.len() - 1] == other);
        }
    }
    assert(s.subrange(0, a.len() as int) =~= a);
    assert(s.subrange(a.len() as int + 1, s.len() as int) =~= b);
}

/// Two numbers with a dash between them, and white space around either, are the range
/// from the first port to the last. It is refused exactly when a number does not fit a
/// port, when it begins at zero, or when it ends before it begins, and a text without a
/// dash is no range. Every refusal quotes the text as it stands.
pub proof fn law_a_port_range_is_two_ports(
    before: Seq<char>,
    first: nat,
    middle: Seq<char>,
    gap: Seq<char>,
    last: nat,
    after: Seq<char>,
    s: Seq<char>,
)
    requires
        forall|i: int| 0 <= i < before.len() ==> is_white(#[trigger] before[i]),
        forall|i: int| 0 <= i < middle.len() ==> is_white(#[trigger] middle[i]),
        forall|i: int| 0 <= i < gap.len() ==> is_white(#[trigger] gap[i]),
        forall|i: int| 0 <= i < after.len() ==> is_white(#[trigger] after[i]),
    ensures
        ({
            let text = before + dec(first) + middle + "-"@ + (gap + dec(last) + after);
            parsed_range(text) == (if first > 65535 {
                Err((Fault::FirstPort, text))
            } else if last > 65535 {
                Err((Fault::LastPort, text))
            } else if first == 0 || last < first {
                Err((Fault::EmptyPortRange, text))
            } else {
                Ok(PortRange { first: first as u16, last: last as u16 })
            })
        }),
        !s.contains('-') ==> parsed_range(s) == Err::<PortRange, (Fault, Seq<char>)>(
            (Fault::PortRangeShape, s),
        ),
        parsed_range(s) matches Err((_, value)) ==> value == s,
{
    reveal_strlit("-");
    assert("-"@ =~= seq!['-']);
    let a = before + dec(first) + middle;
    let b = gap + dec(last) + after;
    lemma_a_notation_holds_no_mark(first, '-');
    assert(!a.contains('-')) by {
        assert forall|i: int| 0 <= i < a.len() implies a[i] != '-' by {
            if i < before.len() {
                assert(a[i] == before[i]);
            } else if i < before.len() + dec(first).len() {
                assert(a[i] == dec(first)[i - before.len()]);
            } else {
                assert(a[i] == middle[i - before.len() - dec(first).len()]);
            }
        }
    }
    lemma_cut(a, '-', b);
    law_padding_is_trimmed_away(before, dec(first), middle);
    law_padding_is_trimmed_away(gap, dec(last), after);
    lemma_decimal_is_read_back(first, first);
    lemma_decimal_is_read_back(last, last);
    law_a_number_is_read_up_to_the_limit(first, u16::MAX as nat);
    law_a_number_is_read_up_to_the_limit(last, u16::MAX as nat);
    law_a_text_is_cut_at_the_first_mark(s, '-');
}

/// Settings that are accepted can be acted on: the local Strom has a web address, the
/// range names ports, a link that the cloud dials has an address to dial, a key has one
/// of the three lengths of AES, a passphrase is one that SRT takes and a URI can hold,
/// and a box that registers knows where and as whom. Settings of which all of this holds
/// are accepted.
pub proof fn law_accepted_settings_can_be_acted_on(cfg: Config, osc_login: bool)
    ensures
        first_fault(cfg, osc_login) is None <==> {
            &&& "http://"@.is_prefix_of(cfg.strom.url@) || "https://"@.is_prefix_of(cfg.strom.url@)
            &&& parsed_range(cfg.uplink.port_range@) is Ok
            &&& cfg.uplink.mode == UplinkMode::Listener ==> cfg.uplink.public_host is Some && !blank(
                cfg.uplink.public_host->0@,
            )
            &&& cfg.uplink.pbkeylen is Some ==> cfg.uplink.pbkeylen->0 == 16
                || cfg.uplink.pbkeylen->0 == 24 || cfg.uplink.pbkeylen->0 == 32
            &&& cfg.uplink.passphrase is Some && cfg.uplink.passphrase->0@.len() > 0 ==> {
                let p = cfg.uplink.passphrase->0@;
                &&& 10 <= p.len() <= 79
                &&& forall|i: int|
                    0 <= i < p.len() ==> 'a' <= #[trigger] p[i] <= 'z' || 'A' <= p[i] <= 'Z' || '0'
                        <= p[i] <= '9' || p[i] == '-' || p[i] == '_' || p[i] == '.' || p[i] == '~'
                        || p[i] == '!' || p[i] == '*'
            }
            &&& cfg.capture.video_resolution is Some && cfg.capture.video_resolution->0@.len() > 0
                ==> parsed_resolution(cfg.capture.video_resolution->0@) is Ok
            &&& cfg.capture.video_framerate is Some && cfg.capture.video_framerate->0@.len() > 0
                ==> is_framerate(cfg.capture.video_framerate->0@)
            &&& cfg.open_live.register ==> {
                &&& cfg.open_live.url is Some && !blank(cfg.open_live.url->0@)
                &&& cfg.open_live.auth_mode == AuthMode::Direct || osc_login || (
                cfg.open_live.api_key is Some && !blank(cfg.open_live.api_key->0@))
            }
        },
{
}

/// What is wrong with one group of settings is said before what is wrong with a later
/// one: changing the later groups changes nothing of the refusal.
pub proof fn law_the_first_fault_is_the_one_named(
    cfg: Config,
    other: Config,
    osc_login: bool,
    other_login: bool,
)
    requires
        cfg.strom.url@ == other.strom.url@,
        first_fault(cfg, osc_login) is Some,
    ensures
        cfg.uplink == other.uplink && cfg.capture == other.capture && (open_live_fault(
            cfg.open_live,
            osc_login,
        ) is None || open_live_fault(cfg.open_live, osc_login) != first_fault(cfg, osc_login))
            ==> first_fault(other, other_login) == first_fault(cfg, osc_login),
        cfg.uplink == other.uplink && (first_fault(cfg, osc_login)->0).0 != Fault::OpenLiveUrlMissing
            && (first_fault(cfg, osc_login)->0).0 != Fault::OscTokenMissing && capture_fault(
            cfg.capture,
        ) is None ==> first_fault(other, other_login) == first_fault(cfg, osc_login),
        (first_fault(cfg, osc_login)->0).0 == Fault::StromUrl ==> first_fault(other, other_login)
            == Some((Fault::StromUrl, cfg.strom.url@)),
{
}

/// The two ends of a link are told to meet at one port, one of them dialling the other:
/// the host that is dialled is the cloud's where the venue calls and the venue's where
/// it listens, the latency is the venue's to set, and both are given the same passphrase
/// and key length.
pub proof fn law_an_address_spells_out_the_link(e: Endpoint)
    ensures
        ({
            let key: Seq<char> = match (e.passphrase, e.pbkeylen) {
                (Some(p), Some(n)) => "&passphrase="@ + p@ + "&pbkeylen="@ + dec(n as nat),
                (Some(p), None) => "&passphrase="@ + p@,
                (None, _) => Seq::empty(),
            };
            let port = dec(e.port as nat);
            let latency = "&latency="@ + dec(e.latency_ms as nat);
            match e.mode {
                UplinkMode::Caller => {
                    &&& e.venue_address() == "srt://"@ + e.cloud_host@ + ":"@ + port
                        + "?mode=caller"@ + latency + key
                    &&& e.cloud_address() == "srt://:"@ + port + "?mode=listener"@ + key
                },
                UplinkMode::Listener => {
                    &&& e.venue_address() == "srt://:"@ + port + "?mode=listener"@ + latency + key
                    &&& e.cloud_address() == "srt://"@ + e.public_host@ + ":"@ + port
                        + "?mode=caller"@ + key
                },
            }
        }),
{
}

/// The value of the first passphrase in an address, up to the next parameter, is
/// replaced and the rest stands as it was, however the parameter's name is spelt. An
/// address without a passphrase is left alone.
pub proof fn law_masking_replaces_the_value_alone(
    before: Seq<char>,
    key: Seq<char>,
    value: Seq<char>,
    after: Seq<char>,
    plain: Seq<char>,
)
    requires
        ascii_lower(key) == "passphrase="@,
        forall|i: int| 0 <= i < before.len() ==> !has_at(ascii_lower(before + key), "passphrase="@, i),
        forall|i: int| !has_at(ascii_lower(plain), "passphrase="@, i),
        forall|i: int| 0 <= i < value.len() ==> value[i] != '&',
        after.len() == 0 || after[0] == '&',
    ensures
        masked(before + key + value + after) == before + key + "***"@ + after,
        masked(plain) == plain,
{
    reveal_strlit("passphrase=");
    let head = before + key;
    lemma_find_from(ascii_lower(head), secret_key(), 0);
    let at = before.len() as int;
    assert(ascii_lower(key).len() == key.len());
    assert(ascii_lower(head).subrange(at, at + secret_key().len()) =~= ascii_lower(key));
    assert(has_at(ascii_lower(head), secret_key(), at));
    assert(secret_start(head) == Some(head.len() as int));
    lemma_masked_value(head, value, after);
    lemma_find_from(ascii_lower(plain), secret_key(), 0);
}

/// An injected value takes the place of the stored one, a value that is not injected
/// leaves the stored one alone, and no other setting changes.
pub proof fn law_an_injected_value_replaces_its_own_setting(cfg: Config, env: Overrides)
    ensures
        ({
            let r = overlaid(cfg, env);
            &&& r.open_live.url == if env.open_live_url is Some {
                env.open_live_url
            } else {
                cfg.open_live.url
            }
            &&& r.open_live.api_key == if env.open_live_api_key is Some {
                env.open_live_api_key
            } else {
                cfg.open_live.api_key
            }
            &&& r.open_live.gateway_token == if env.open_live_gateway_token is Some {
                env.open_live_gateway_token
            } else {
                cfg.open_live.gateway_token
            }
            &&& r.strom.api_key == if env.strom_api_key is Some {
                env.strom_api_key
            } else {
                cfg.strom.api_key
            }
            &&& r.strom.url == if env.strom_url is Some {
                env.strom_url->0
            } else {
                cfg.strom.url
            }
            &&& env.open_live_auth_mode is None ==> r.open_live.auth_mode == cfg.open_live.auth_mode
            &&& env.open_live_auth_mode is Some && env.open_live_auth_mode->0@ == "osc"@
                ==> r.open_live.auth_mode == AuthMode::Osc
            &&& env.open_live_auth_mode is Some && env.open_live_auth_mode->0@ == "direct"@
                ==> r.open_live.auth_mode == AuthMode::Direct
            &&& r.open_live.register == cfg.open_live.register && r.open_live.gateway_id
                == cfg.open_live.gateway_id
            &&& r.strom.manage == cfg.strom.manage && r.strom.binary == cfg.strom.binary
                && r.strom.data_dir == cfg.strom.data_dir
            &&& r.gateway == cfg.gateway && r.uplink == cfg.uplink && r.video == cfg.video
                && r.capture == cfg.capture && r.log == cfg.log
        }),
{
    reveal_strlit("osc");
    reveal_strlit("direct");
    assert("osc"@.len() != "direct"@.len());
}

/// A mode is read from its own name and from no other text.
pub proof fn law_a_mode_has_one_name(s: Seq<char>)
    ensures
        auth_mode_named(s) == Some(AuthMode::Osc) <==> s == "osc"@,
        auth_mode_named(s) == Some(AuthMode::Direct) <==> s == "direct"@,
{
    reveal_strlit("osc");
    reveal_strlit("direct");
    assert("osc"@.len() != "direct"@.len());
}

/// The id that was set names the machine; without one the host does.
pub proof fn law_a_set_id_names_the_machine(
    id: Seq<char>,
    host: Seq<char>,
    any: Option<Seq<char>>,
)
    ensures
        gateway_id(Some(id), any) == id,
        gateway_id(None, Some(host)) == host,
        gateway_id(None, None) == "open-live-gateway"@,
{
}

/// A range holds its two ends and what lies between them, and counts each once.
pub proof fn law_a_range_holds_both_its_ends(range: PortRange, port: u16)
    requires
        range.first <= range.last,
    ensures
        range.has(range.first as int) && range.has(range.last as int),
        range.has(port as int) <==> !(port < range.first) && !(port > range.last),
        range.count() == 1 + (range.last - range.first),
{
}

/// Settings are kept below the directory that the user's system sets aside for them.
pub proof fn law_settings_live_in_the_users_own_place(p: Places)
    requires
        p.home is Some && p.home->0@.len() > 0 && p.home->0@.last() != '/',
        p.xdg_config_home is Some ==> p.xdg_config_home->0@.len() > 0
            && p.xdg_config_home->0@.last() != '/',
    ensures
        p.macos ==> user_place(p) == p.home->0@
            + "/Library/Application Support/open-live-ingest"@,
        !p.macos && p.xdg_config_home is None ==> user_place(p) == p.home->0@
            + "/.config/open-live-ingest"@,
        !p.macos && p.xdg_config_home is Some ==> user_place(p) == p.xdg_config_home->0@
            + "/open-live-ingest"@,
{
    reveal_strlit("/");
    reveal_strlit("Library");
    reveal_strlit("Application Support");
    reveal_strlit(".config");
    reveal_strlit("open-live-ingest");
    reveal_strlit("/open-live-ingest");
    reveal_strlit("/.config/open-live-ingest");
    reveal_strlit("/Library/Application Support/open-live-ingest");
    let home = p.home->0@;
    assert((home + "/"@ + ".config"@).last() == 'g');
    assert((home + "/"@ + "Library"@).last() == 'y');
    assert((home + "/"@ + "Library"@ + "/"@ + "Application Support"@).last() == 't');
    assert(home + "/"@ + ".config"@ + "/"@ + "open-live-ingest"@ =~= home
        + "/.config/open-live-ingest"@);
    assert(home + "/"@ + "Library"@ + "/"@ + "Application Support"@ + "/"@ + "open-live-ingest"@
        =~= home + "/Library/Application Support/open-live-ingest"@);
    if p.xdg_config_home is Some {
        let x = p.xdg_config_home->0@;
        assert(x + "/"@ + "open-live-ingest"@ =~= x + "/open-live-ingest"@);
    }
}

/// A range is read back from how it is written.
pub proof fn law_a_range_is_read_back(range: PortRange)
    requires
        0 < range.first <= range.last,
    ensures
        parsed_range(range_text(range)) == Ok::<PortRange, (Fault, Seq<char>)>(range),
{
    let none: Seq<char> = Seq::empty();
    law_a_port_range_is_two_ports(
        none,
        range.first as nat,
        none,
        none,
        range.last as nat,
        none,
        none,
    );
    assert(none + dec(range.first as nat) + none + "-"@ + (none + dec(range.last as nat) + none)
        =~= range_text(range));
}

/// A refusal carries its fault and the value that was found.
pub proof fn law_a_refusal_names_its_fault(e: ConfigError, range: PortRange)
    ensures
        verdict(Ok(())) is None,
        verdict(Err(e)) == Some((e.fault, e.value@)),
        outcome::<PortRange>(Err(e)) == Err::<PortRange, (Fault, Seq<char>)>((e.fault, e.value@)),
        outcome(Ok(range)) == Ok::<PortRange, (Fault, Seq<char>)>(range),
{
}

/// A refusal that is about a value ends in that value, quoted where it is a text, so that
/// it can be found in the settings.
pub proof fn law_a_refusal_quotes_what_was_found(fault: Fault, value: Seq<char>)
    ensures
        fault == Fault::StromUrl || fault == Fault::PortRangeShape || fault == Fault::FirstPort
            || fault == Fault::LastPort || fault == Fault::EmptyPortRange || fault
            == Fault::ResolutionShape || fault == Fault::Width || fault == Fault::Height || fault
            == Fault::Framerate || fault == Fault::AuthMode ==> quoted_text(value).is_suffix_of(
            fault_message(fault, value),
        ),
        fault == Fault::KeyLength || fault == Fault::PassphraseLength ==> value.is_suffix_of(
            fault_message(fault, value),
        ),
        fault == Fault::PublicHostMissing || fault == Fault::PassphraseCharacters || fault
            == Fault::OpenLiveUrlMissing || fault == Fault::OscTokenMissing ==> fault_message(
            fault,
            value,
        ) == fault_message(fault, Seq::empty()),
{
    let m = fault_message(fault, value);
    if fault == Fault::KeyLength || fault == Fault::PassphraseLength {
        assert(m.subrange(m.len() - value.len(), m.len() as int) =~= value);
    } else if fault != Fault::PublicHostMissing && fault != Fault::PassphraseCharacters && fault
        != Fault::OpenLiveUrlMissing && fault != Fault::OscTokenMissing {
        let q = quoted_text(value);
        assert(m.subrange(m.len() - q.len(), m.len() as int) =~= q);
    }
}

} // verus!
