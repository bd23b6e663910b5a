//! Settings of the gateway with declared inputs.
//!
//! Read from TOML, then overlaid by environment variables and the command line. Names
//! in the capture, video, and uplink sections mirror the property names of the Strom
//! blocks they configure, so a value can be traced straight to the block it lands on.

use crate::config::{
    bind_uri, check_http_url, crypto_suffix, dial_uri, is_http_url, latency_suffix, or_injected,
    outcome, parse_port_range, parsed_range, write_bind, write_crypto, write_dial, ConfigError,
    PortRange,
};
use crate::text::{blank, copy_opt, dec, decimal, is_blank, nonempty, opt_text, same_text};
use vstd::prelude::*;

verus! {

/// Default SRT latency in ms. Matches the default of Strom's SRT blocks so both ends
/// agree unless told otherwise.
pub const DEFAULT_SRT_LATENCY_MS: u32 = 200;

/// Default video bitrate in kbps for a 1080p25 contribution feed.
pub const DEFAULT_VIDEO_BITRATE_KBPS: u32 = 6000;

pub const ENV_OPEN_LIVE_URL: &'static str = "OLG_OPEN_LIVE_URL";

pub const ENV_OPEN_LIVE_API_KEY: &'static str = "OLG_OPEN_LIVE_API_KEY";

pub const ENV_CONTROL_BIND: &'static str = "OLG_CONTROL_BIND";

pub const ENV_CONTROL_TOKEN: &'static str = "OLG_CONTROL_TOKEN";

pub const ENV_STROM_URL: &'static str = "OLG_STROM_URL";

pub const ENV_STROM_API_KEY: &'static str = "OLG_STROM_API_KEY";

// ---------------------------------------------------------------------------
// The settings
// ---------------------------------------------------------------------------

#[derive(Debug)]
pub struct GatewayConfig {
    pub gateway: GatewayIdentity,
    /// The local Strom instance this gateway drives.
    pub strom: StromConfig,
    /// One entry per capture input. Each becomes its own Strom flow with its own SRT
    /// port, so one camera failing cannot disturb another.
    pub inputs: Vec<InputConfig>,
    pub open_live: OpenLiveConfig,
    pub control: ControlConfig,
    pub log: LogConfig,
    /// What an input started at run time is made from.
    pub app: AppConfig,
}

#[derive(Debug)]
pub struct GatewayIdentity {
    /// Stable identity for this box. Defaults to the hostname when unset. Also seeds
    /// the deterministic flow ids, so changing it orphans the flows already created.
    pub id: Option<String>,
    /// Human-readable name, used as a prefix for registered Open Live source names.
    pub name: String,
}

#[derive(Debug)]
pub struct StromConfig {
    /// Base URL of the local Strom instance, e.g. `http://127.0.0.1:8080`.
    pub url: String,
    /// Strom API key, sent as a bearer token. Unset when Strom runs without auth.
    pub api_key: Option<String>,
    /// Start a headless Strom where nothing answers at `url`.
    pub manage: bool,
    /// The Strom executable: a name to find on `PATH`, or a path.
    pub binary: String,
    /// Where a managed Strom keeps its data.
    pub data_dir: Option<String>,
}

#[derive(Debug)]
pub struct InputConfig {
    /// Local identifier, unique within this gateway (e.g. "cam1").
    pub id: String,
    /// Name registered with Open Live. Defaults to the gateway's name and the id.
    pub name: Option<String>,
    pub capture: CaptureConfig,
    pub video: VideoConfig,
    pub uplink: UplinkConfig,
    /// Whether this input's flow is created and started automatically.
    pub enabled: bool,
}

/// Capture backend, mapped to the Strom block that implements it.
///
/// DeckLink is preferred where available because its video and audio share the card's
/// clock. Local capture covers USB, where the two arrive on independent clocks and
/// drift.
#[derive(Debug)]
pub enum CaptureConfig {
    /// `builtin.decklink_input`
    Decklink {
        device_number: i32,
        /// `auto`, `sdi`, `hdmi`, `optical`, `component`, `composite`, `svideo`.
        connection: String,
        /// `auto`, or an explicit mode such as `1080p25`.
        mode: String,
        video_format: String,
        /// Keeps frames from a card with no signal off the wire.
        drop_no_signal_frames: bool,
        audio: bool,
    },
    /// `builtin.local_input`: any device the OS exposes as a video or audio source.
    Local {
        /// Strom's device id, not a `/dev/video*` path. Unset lets Strom pick the OS
        /// default.
        video_device: Option<String>,
        /// `WxH`, e.g. `1920x1080`.
        video_resolution: String,
        video_framerate: String,
        /// Strom's device id. Unset for video-only capture.
        audio_device: Option<String>,
        audio_channels: u32,
        audio_rate: u32,
    },
    /// Test pattern and tone, built from raw elements. For commissioning an SRT link
    /// before the cameras arrive.
    Test {
        video_resolution: String,
        video_framerate: String,
        audio_rate: u32,
        audio_channels: u32,
    },
}

/// Maps to `builtin.videoenc`. Strom picks the encoder element itself, hardware first,
/// so this expresses intent rather than an element name.
#[derive(Debug)]
pub struct VideoConfig {
    /// `h264`, `h265`, `av1`, `vp9`. H.264 is the interoperable default.
    pub codec: String,
    pub bitrate_kbps: u32,
    /// `auto`, `hardware`, or `software`.
    pub encoder_preference: String,
    /// `ultrafast`, `fast`, `medium`, `slow`, `veryslow`.
    pub quality_preset: String,
    /// `zerolatency` for contribution.
    pub tune: String,
    /// `cbr`, `vbr`, or `cqp`. CBR for contribution over a committed link.
    pub rate_control: String,
    /// In frames. One or two seconds' worth lets a reconnecting receiver lock on.
    pub keyframe_interval: u32,
}

/// Which end of the SRT link dials the other. A deployment question, not a preference:
/// whichever end listens needs an inbound UDP port.
#[derive(Clone, Copy, Debug, PartialEq, Eq, Structural)]
pub enum UplinkMode {
    /// The venue dials the cloud, which publishes a port. Nothing inbound at the venue.
    Caller,
    /// The cloud dials the venue, which publishes a port. Nothing inbound in the cloud.
    Listener,
    /// Both ends dial each other, punching through NAT.
    Rendezvous,
}

/// SRT uplink to the cloud Strom, mapped to `builtin.mpegtssrt_output`.
///
/// One link is described by two URIs that mirror each other: the one on the venue
/// Strom's output block, and the one registered on the Open Live source for the cloud
/// Strom's input block. `mode` decides which side dials.
#[derive(Debug)]
pub struct UplinkConfig {
    pub mode: UplinkMode,
    /// Public hostname of the cloud Strom. Used when the venue dials.
    pub host: String,
    /// This gateway's address as the cloud sees it. Needed where the cloud dials.
    pub public_host: Option<String>,
    /// UDP port for this input, unique across every gateway on the same Strom.
    pub port: u16,
    /// Rule of thumb: 3-4x the measured RTT.
    pub latency_ms: u32,
    /// Owned by the gateway: Open Live masks it on read, so it is never read back.
    pub passphrase: Option<String>,
    /// AES key length in bytes (16, 24, or 32).
    pub pbkeylen: Option<u32>,
    pub stream_id: Option<String>,
}

#[derive(Debug)]
pub struct OpenLiveConfig {
    pub url: Option<String>,
    /// `direct` sends the key as it is; `osc` exchanges it for a service token.
    pub auth_mode: String,
    /// Bearer token or OSC personal access token, depending on `auth_mode`.
    pub api_key: Option<String>,
    /// Create and update source documents automatically.
    pub register: bool,
    /// Where resolved source ids are kept so restarts do not create duplicates.
    pub state_path: String,
}

#[derive(Debug)]
pub struct ControlConfig {
    /// Local control API bind address. A non-loopback bind requires `token`.
    pub bind: String,
    pub token: Option<String>,
}

#[derive(Debug)]
pub struct LogConfig {
    pub level: String,
}

/// What an input that an operator starts is made from.
#[derive(Debug)]
pub struct AppConfig {
    pub video_resolution: String,
    pub video_framerate: String,
    pub video: VideoConfig,
    pub uplink: UplinkTemplate,
}

/// An uplink without a port: one is allocated per input.
#[derive(Debug)]
pub struct UplinkTemplate {
    pub mode: UplinkMode,
    /// The cloud Strom to send to. Discovered from Open Live when unset.
    pub host: Option<String>,
    pub public_host: Option<String>,
    /// Inclusive `first-last` range.
    pub port_range: String,
    pub latency_ms: u32,
    pub passphrase: Option<String>,
    pub pbkeylen: Option<u32>,
}

impl Clone for GatewayIdentity {
    fn clone(&self) -> (r: Self)
        ensures
            r == *self,
    {
        GatewayIdentity { id: copy_opt(&self.id), name: self.name.clone() }
    }
}

impl Clone for StromConfig {
    fn clone(&self) -> (r: Self)
        ensures
            r == *self,
    {
        StromConfig {
            url: self.url.clone(),
            api_key: copy_opt(&self.api_key),
            manage: self.manage,
            binary: self.binary.clone(),
            data_dir: copy_opt(&self.data_dir),
        }
    }
}

impl Clone for CaptureConfig {
    fn clone(&self) -> (r: Self)
        ensures
            r == *self,
    {
        match self {
            CaptureConfig::Decklink {
                device_number,
                connection,
                mode,
                video_format,
                drop_no_signal_frames,
                audio,
            } => CaptureConfig::Decklink {
                device_number: *device_number,
                connection: connection.clone(),
                mode: mode.clone(),
                video_format: video_format.clone(),
                drop_no_signal_frames: *drop_no_signal_frames,
                audio: *audio,
            },
            CaptureConfig::Local {
                video_device,
                video_resolution,
                video_framerate,
                audio_device,
                audio_channels,
                audio_rate,
            } => CaptureConfig::Local {
                video_device: copy_opt(video_device),
                video_resolution: video_resolution.clone(),
                video_framerate: video_framerate.clone(),
                audio_device: copy_opt(audio_device),
                audio_channels: *audio_channels,
                audio_rate: *audio_rate,
            },
            CaptureConfig::Test {
                video_resolution,
                video_framerate,
                audio_rate,
                audio_channels,
            } => CaptureConfig::Test {
                video_resolution: video_resolution.clone(),
                video_framerate: video_framerate.clone(),
                audio_rate: *audio_rate,
                audio_channels: *audio_channels,
            },
        }
    }
}

impl Clone for VideoConfig {
    fn clone(&self) -> (r: Self)
        ensures
            r == *self,
    {
        VideoConfig {
            codec: self.codec.clone(),
            bitrate_kbps: self.bitrate_kbps,
            encoder_preference: self.encoder_preference.clone(),
            quality_preset: self.quality_preset.clone(),
            tune: self.tune.clone(),
            rate_control: self.rate_control.clone(),
            keyframe_interval: self.keyframe_interval,
        }
    }
}

impl Clone for UplinkConfig {
    fn clone(&self) -> (r: Self)
        ensures
            r == *self,
    {
        UplinkConfig {
            mode: self.mode,
            host: self.host.clone(),
            public_host: copy_opt(&self.public_host),
            port: self.port,
            latency_ms: self.latency_ms,
            passphrase: copy_opt(&self.passphrase),
            pbkeylen: self.pbkeylen,
            stream_id: copy_opt(&self.stream_id),
        }
    }
}

impl Clone for InputConfig {
    fn clone(&self) -> (r: Self)
        ensures
            r == *self,
    {
        InputConfig {
            id: self.id.clone(),
            name: copy_opt(&self.name),
            capture: self.capture.clone(),
            video: self.video.clone(),
            uplink: self.uplink.clone(),
            enabled: self.enabled,
        }
    }
}

impl Clone for OpenLiveConfig {
    fn clone(&self) -> (r: Self)
        ensures
            r == *self,
    {
        OpenLiveConfig {
            url: copy_opt(&self.url),
            auth_mode: self.auth_mode.clone(),
            api_key: copy_opt(&self.api_key),
            register: self.register,
            state_path: self.state_path.clone(),
        }
    }
}

impl Clone for ControlConfig {
    fn clone(&self) -> (r: Self)
        ensures
            r == *self,
    {
        ControlConfig { bind: self.bind.clone(), token: copy_opt(&self.token) }
    }
}

impl Clone for LogConfig {
    fn clone(&self) -> (r: Self)
        ensures
            r == *self,
    {
        LogConfig { level: self.level.clone() }
    }
}

impl Clone for UplinkTemplate {
    fn clone(&self) -> (r: Self)
        ensures
            r == *self,
    {
        UplinkTemplate {
            mode: self.mode,
            host: copy_opt(&self.host),
            public_host: copy_opt(&self.public_host),
            port_range: self.port_range.clone(),
            latency_ms: self.latency_ms,
            passphrase: copy_opt(&self.passphrase),
            pbkeylen: self.pbkeylen,
        }
    }
}

impl Clone for AppConfig {
    fn clone(&self) -> (r: Self)
        ensures
            r == *self,
    {
        AppConfig {
            video_resolution: self.video_resolution.clone(),
            video_framerate: self.video_framerate.clone(),
            video: self.video.clone(),
            uplink: self.uplink.clone(),
        }
    }
}

impl GatewayConfig {
    /// Holds the same settings, value by value.
    pub open spec fn same_as(&self, other: &GatewayConfig) -> bool {
        &&& self.gateway == other.gateway
        &&& self.strom == other.strom
        &&& self.inputs@ == other.inputs@
        &&& self.open_live == other.open_live
        &&& self.control == other.control
        &&& self.log == other.log
        &&& self.app == other.app
    }
}

impl Clone for GatewayConfig {
    fn clone(&self) -> (r: Self)
        ensures
            r.same_as(self),
    {
        let inputs = self.inputs.clone();
        assert(inputs@ =~= self.inputs@);
        GatewayConfig {
            gateway: self.gateway.clone(),
            strom: self.strom.clone(),
            inputs,
            open_live: self.open_live.clone(),
            control: self.control.clone(),
            log: self.log.clone(),
            app: self.app.clone(),
        }
    }
}

impl GatewayIdentity {
    pub open spec fn is_default(&self) -> bool {
        &&& self.id is None
        &&& self.name@ == Seq::<char>::empty()
    }
}

impl Default for GatewayIdentity {
    fn default() -> (r: Self)
        ensures
            r.is_default(),
    {
        GatewayIdentity { id: None, name: String::new() }
    }
}

impl StromConfig {
    pub open spec fn is_default(&self) -> bool {
        &&& self.url@ == "http://127.0.0.1:8080"@
        &&& self.api_key is None
        &&& self.manage
        &&& self.binary@ == "strom"@
        &&& self.data_dir is None
    }
}

impl Default for StromConfig {
    fn default() -> (r: Self)
        ensures
            r.is_default(),
    {
        StromConfig {
            url: "http://127.0.0.1:8080".to_owned(),
            api_key: None,
            manage: true,
            binary: "strom".to_owned(),
            data_dir: None,
        }
    }
}

impl OpenLiveConfig {
    pub open spec fn is_default(&self) -> bool {
        &&& self.url is None
        &&& self.auth_mode@ == "direct"@
        &&& self.api_key is None
        &&& self.register
        &&& self.state_path@ == "/var/lib/open-live-gateway/state.json"@
    }
}

impl Default for OpenLiveConfig {
    fn default() -> (r: Self)
        ensures
            r.is_default(),
    {
        OpenLiveConfig {
            url: None,
            auth_mode: "direct".to_owned(),
            api_key: None,
            register: true,
            state_path: "/var/lib/open-live-gateway/state.json".to_owned(),
        }
    }
}

impl VideoConfig {
    pub open spec fn is_default(&self) -> bool {
        &&& self.codec@ == "h264"@
        &&& self.bitrate_kbps == DEFAULT_VIDEO_BITRATE_KBPS
        &&& self.encoder_preference@ == "auto"@
        &&& self.quality_preset@ == "ultrafast"@
        &&& self.tune@ == "zerolatency"@
        &&& self.rate_control@ == "cbr"@
        &&& self.keyframe_interval == 25
    }
}

impl Default for VideoConfig {
    fn default() -> (r: Self)
        ensures
            r.is_default(),
    {
        VideoConfig {
            codec: "h264".to_owned(),
            bitrate_kbps: DEFAULT_VIDEO_BITRATE_KBPS,
            encoder_preference: "auto".to_owned(),
            quality_preset: "ultrafast".to_owned(),
            tune: "zerolatency".to_owned(),
            rate_control: "cbr".to_owned(),
            keyframe_interval: 25,
        }
    }
}

impl ControlConfig {
    pub open spec fn is_default(&self) -> bool {
        &&& self.bind@ == "127.0.0.1:9001"@
        &&& self.token is None
    }
}

impl Default for ControlConfig {
    fn default() -> (r: Self)
        ensures
            r.is_default(),
    {
        ControlConfig { bind: "127.0.0.1:9001".to_owned(), token: None }
    }
}

impl LogConfig {
    pub open spec fn is_default(&self) -> bool {
        &&& self.level@ == "info"@
    }
}

impl Default for LogConfig {
    fn default() -> (r: Self)
        ensures
            r.is_default(),
    {
        LogConfig { level: "info".to_owned() }
    }
}

impl Default for UplinkMode {
    fn default() -> (r: Self)
        ensures
            r == UplinkMode::Caller,
    {
        UplinkMode::Caller
    }
}

impl UplinkTemplate {
    pub open spec fn is_default(&self) -> bool {
        &&& self.mode == UplinkMode::Caller
        &&& self.host is None
        &&& self.public_host is None
        &&& self.port_range@ == "9000-9100"@
        &&& self.latency_ms == DEFAULT_SRT_LATENCY_MS
        &&& self.passphrase is None
        &&& self.pbkeylen is None
    }
}

impl Default for UplinkTemplate {
    fn default() -> (r: Self)
        ensures
            r.is_default(),
    {
        UplinkTemplate {
            mode: UplinkMode::Caller,
            host: None,
            public_host: None,
            port_range: "9000-9100".to_owned(),
            latency_ms: DEFAULT_SRT_LATENCY_MS,
            passphrase: None,
            pbkeylen: None,
        }
    }
}

impl Default for AppConfig {
    fn default() -> (r: Self)
        ensures
            r.video_resolution@ == "1920x1080"@,
            r.video_framerate@ == "25/1"@,
            r.video.is_default(),
            r.uplink.is_default(),
    {
        AppConfig {
            video_resolution: "1920x1080".to_owned(),
            video_framerate: "25/1".to_owned(),
            video: VideoConfig::default(),
            uplink: UplinkTemplate::default(),
        }
    }
}

impl Default for GatewayConfig {
    fn default() -> (r: Self)
        ensures
            r.gateway.is_default(),
            r.strom.is_default(),
            r.inputs@.len() == 0,
            r.open_live.is_default(),
            r.control.is_default(),
            r.log.is_default(),
            r.app.video_resolution@ == "1920x1080"@,
            r.app.video_framerate@ == "25/1"@,
            r.app.video.is_default(),
            r.app.uplink.is_default(),
    {
        GatewayConfig {
            gateway: GatewayIdentity::default(),
            strom: StromConfig::default(),
            inputs: Vec::new(),
            open_live: OpenLiveConfig::default(),
            control: ControlConfig::default(),
            log: LogConfig::default(),
            app: AppConfig::default(),
        }
    }
}

// ---------------------------------------------------------------------------
// One link, two mirrored addresses
// ---------------------------------------------------------------------------

pub open spec fn or_empty(o: Option<String>) -> Seq<char> {
    match o {
        Some(s) => s@,
        None => Seq::empty(),
    }
}

/// An address where both ends dial.
pub open spec fn meet_uri(host: Seq<char>, port: u16) -> Seq<char> {
    "srt://"@ + host + ":"@ + dec(port as nat) + "?mode=rendezvous"@
}

fn write_meet(host: &str, port: u16) -> (r: String)
    ensures
        r@ == meet_uri(host@, port),
{
    "srt://".to_owned().concat(host).concat(":").concat(decimal(port as u64).as_str()).concat(
        "?mode=rendezvous",
    )
}

fn nonempty_of(o: &Option<String>) -> (r: Option<String>)
    ensures
        opt_text(r) == nonempty(*o),
{
    match o {
        Some(s) => if s.as_str().is_empty() {
            None
        } else {
            Some(s.clone())
        },
        None => None,
    }
}

impl UplinkConfig {
    /// What both addresses carry where the link is encrypted.
    pub open spec fn crypto(&self) -> Seq<char> {
        crypto_suffix(nonempty(self.passphrase), self.pbkeylen)
    }

    pub open spec fn stream_suffix(&self) -> Seq<char> {
        match nonempty(self.stream_id) {
            Some(id) => "&streamid="@ + id,
            None => Seq::empty(),
        }
    }

    /// The address the venue Strom gets.
    pub open spec fn venue_address(&self) -> Seq<char> {
        (match self.mode {
            UplinkMode::Caller => dial_uri(self.host@, self.port),
            UplinkMode::Listener => bind_uri(self.port),
            UplinkMode::Rendezvous => meet_uri(self.host@, self.port),
        }) + latency_suffix(self.latency_ms) + self.crypto() + self.stream_suffix()
    }

    /// The address the cloud Strom gets.
    pub open spec fn cloud_address(&self) -> Seq<char> {
        (match self.mode {
            UplinkMode::Caller => bind_uri(self.port),
            UplinkMode::Listener => dial_uri(or_empty(self.public_host), self.port),
            UplinkMode::Rendezvous => meet_uri(or_empty(self.public_host), self.port),
        }) + self.crypto()
    }

    /// The URI for the venue Strom's `builtin.mpegtssrt_output`.
    pub fn venue_uri(&self) -> (r: String)
        ensures
            r@ == self.venue_address(),
    {
        let mut uri = match self.mode {
            UplinkMode::Caller => write_dial(self.host.as_str(), self.port),
            UplinkMode::Listener => write_bind(self.port),
            UplinkMode::Rendezvous => write_meet(self.host.as_str(), self.port),
        };
        let suffix = "&latency=".to_owned().concat(decimal(self.latency_ms as u64).as_str());
        uri.append(suffix.as_str());
        write_crypto(&mut uri, &nonempty_of(&self.passphrase), self.pbkeylen);
        let ghost before = uri@;
        match nonempty_of(&self.stream_id) {
            Some(id) => {
                let suffix = "&streamid=".to_owned().concat(id.as_str());
                uri.append(suffix.as_str());
            },
            None => {
                assert(uri@ =~= before + self.stream_suffix());
            },
        }
        uri
    }

    /// The address registered on the Open Live source, which becomes the `srt_uri` of
    /// the cloud Strom's input block. `srtsrc` defaults to caller mode, so the mode is
    /// always explicit.
    pub fn cloud_uri(&self) -> (r: String)
        ensures
            r@ == self.cloud_address(),
    {
        let mut uri = match self.mode {
            UplinkMode::Caller => write_bind(self.port),
            UplinkMode::Listener => match &self.public_host {
                Some(h) => write_dial(h.as_str(), self.port),
                None => write_dial(String::new().as_str(), self.port),
            },
            UplinkMode::Rendezvous => match &self.public_host {
                Some(h) => write_meet(h.as_str(), self.port),
                None => write_meet(String::new().as_str(), self.port),
            },
        };
        write_crypto(&mut uri, &nonempty_of(&self.passphrase), self.pbkeylen);
        uri
    }
}

/// The two addresses of a link mirror each other: where one end dials the other binds,
/// on the same port, or both dial each other; and both carry the same encryption
/// parameters.
pub proof fn law_the_two_ends_of_an_uplink_agree(u: UplinkConfig)
    ensures
        ({
            let end = latency_suffix(u.latency_ms) + u.crypto() + u.stream_suffix();
            match u.mode {
                UplinkMode::Caller => {
                    &&& u.venue_address() == dial_uri(u.host@, u.port) + end
                    &&& u.cloud_address() == bind_uri(u.port) + u.crypto()
                },
                UplinkMode::Listener => {
                    &&& u.venue_address() == bind_uri(u.port) + end
                    &&& u.cloud_address() == dial_uri(or_empty(u.public_host), u.port) + u.crypto()
                },
                UplinkMode::Rendezvous => {
                    &&& u.venue_address() == meet_uri(u.host@, u.port) + end
                    &&& u.cloud_address() == meet_uri(or_empty(u.public_host), u.port) + u.crypto()
                },
            }
        }),
{
    let end = latency_suffix(u.latency_ms) + u.crypto() + u.stream_suffix();
    assert(bind_uri(u.port) + end =~= bind_uri(u.port) + latency_suffix(u.latency_ms) + u.crypto()
        + u.stream_suffix());
    assert(dial_uri(u.host@, u.port) + end =~= dial_uri(u.host@, u.port) + latency_suffix(
        u.latency_ms,
    ) + u.crypto() + u.stream_suffix());
    assert(meet_uri(u.host@, u.port) + end =~= meet_uri(u.host@, u.port) + latency_suffix(
        u.latency_ms,
    ) + u.crypto() + u.stream_suffix());
}

/// Where the venue dials, the cloud only binds a port: its address does not depend on
/// either host, nor on the stream id.
pub proof fn law_a_bound_address_names_no_host(a: UplinkConfig, b: UplinkConfig)
    requires
        a.mode == UplinkMode::Caller,
        b.mode == UplinkMode::Caller,
        a.port == b.port,
        a.passphrase == b.passphrase,
        a.pbkeylen == b.pbkeylen,
    ensures
        a.cloud_address() == b.cloud_address(),
{
}

impl UplinkTemplate {
    pub fn ports(&self) -> (r: Result<PortRange, ConfigError>)
        ensures
            outcome(r) == parsed_range(self.port_range@),
            r is Ok ==> r->Ok_0.wf(),
    {
        parse_port_range(self.port_range.as_str())
    }

    /// One concrete link, once a port and a cloud host are known.
    pub fn materialize(&self, port: u16, cloud_host: &str) -> (r: UplinkConfig)
        ensures
            r.mode == self.mode,
            r.host@ == cloud_host@,
            r.public_host == self.public_host,
            r.port == port,
            r.latency_ms == self.latency_ms,
            r.passphrase == self.passphrase,
            r.pbkeylen == self.pbkeylen,
            r.stream_id is None,
    {
        UplinkConfig {
            mode: self.mode,
            host: cloud_host.to_owned(),
            public_host: copy_opt(&self.public_host),
            port,
            latency_ms: self.latency_ms,
            passphrase: copy_opt(&self.passphrase),
            pbkeylen: self.pbkeylen,
            stream_id: None,
        }
    }
}

impl InputConfig {
    pub open spec fn registered_name(&self, gateway_name: Seq<char>) -> Seq<char> {
        match self.name {
            Some(name) => name@,
            None => gateway_name + " — "@ + self.id@,
        }
    }

    /// Name registered with Open Live.
    pub fn source_name(&self, gateway_name: &str) -> (r: String)
        ensures
            r@ == self.registered_name(gateway_name@),
    {
        match &self.name {
            Some(name) => name.clone(),
            None => gateway_name.to_owned().concat(" — ").concat(self.id.as_str()),
        }
    }
}

// ---------------------------------------------------------------------------
// Overrides
// ---------------------------------------------------------------------------

/// Values injected by the environment and the command line. A short list: what a
/// deployment tool needs to inject without templating a whole file.
#[derive(Debug)]
pub struct GatewayOverrides {
    pub open_live_url: Option<String>,
    pub open_live_api_key: Option<String>,
    pub control_bind: Option<String>,
    pub control_token: Option<String>,
    pub strom_url: Option<String>,
    pub strom_api_key: Option<String>,
    pub log_level: Option<String>,
}

pub open spec fn or_stored<T>(injected: Option<T>, stored: T) -> T {
    match injected {
        Some(v) => v,
        None => stored,
    }
}

/// The settings of a file, overlaid by what was injected.
pub fn with_overrides(cfg: GatewayConfig, env: GatewayOverrides) -> (r: GatewayConfig)
    ensures
        r == (GatewayConfig {
            strom: StromConfig {
                url: or_stored(env.strom_url, cfg.strom.url),
                api_key: or_injected(cfg.strom.api_key, env.strom_api_key),
                ..cfg.strom
            },
            open_live: OpenLiveConfig {
                url: or_injected(cfg.open_live.url, env.open_live_url),
                api_key: or_injected(cfg.open_live.api_key, env.open_live_api_key),
                ..cfg.open_live
            },
            control: ControlConfig {
                bind: or_stored(env.control_bind, cfg.control.bind),
                token: or_injected(cfg.control.token, env.control_token),
            },
            log: LogConfig { level: or_stored(env.log_level, cfg.log.level) },
            ..cfg
        }),
{
    let mut cfg = cfg;
    if let Some(url) = env.open_live_url {
        cfg.open_live.url = Some(url);
    }
    if let Some(key) = env.open_live_api_key {
        cfg.open_live.api_key = Some(key);
    }
    if let Some(bind) = env.control_bind {
        cfg.control.bind = bind;
    }
    if let Some(token) = env.control_token {
        cfg.control.token = Some(token);
    }
    if let Some(url) = env.strom_url {
        cfg.strom.url = url;
    }
    if let Some(key) = env.strom_api_key {
        cfg.strom.api_key = Some(key);
    }
    if let Some(level) = env.log_level {
        cfg.log.level = level;
    }
    cfg
}

// ---------------------------------------------------------------------------
// Validation
// ---------------------------------------------------------------------------

/// What is wrong with the settings.
#[derive(Debug)]
pub enum SettingsError {
    NoInputs,
    StromUrlUnset,
    StromUrlNotHttp { url: String },
    DuplicateId { id: String },
    PortReused { id: String, port: u16 },
    NoHost { id: String },
    KeyLength { id: String, length: u32 },
    BadBind { bind: String },
    OpenBind { address: String },
    UrlUnset,
    KeyUnset,
}

pub enum SettingsFault {
    NoInputs,
    StromUrlUnset,
    StromUrlNotHttp(Seq<char>),
    DuplicateId(Seq<char>),
    PortReused(Seq<char>, u16),
    NoHost(Seq<char>),
    KeyLength(Seq<char>, u32),
    BadBind(Seq<char>),
    OpenBind(Seq<char>),
    UrlUnset,
    KeyUnset,
}

impl SettingsError {
    pub open spec fn view(&self) -> SettingsFault {
        match self {
            SettingsError::NoInputs => SettingsFault::NoInputs,
            SettingsError::StromUrlUnset => SettingsFault::StromUrlUnset,
            SettingsError::StromUrlNotHttp { url } => SettingsFault::StromUrlNotHttp(url@),
            SettingsError::DuplicateId { id } => SettingsFault::DuplicateId(id@),
            SettingsError::PortReused { id, port } => SettingsFault::PortReused(id@, *port),
            SettingsError::NoHost { id } => SettingsFault::NoHost(id@),
            SettingsError::KeyLength { id, length } => SettingsFault::KeyLength(id@, *length),
            SettingsError::BadBind { bind } => SettingsFault::BadBind(bind@),
            SettingsError::OpenBind { address } => SettingsFault::OpenBind(address@),
            SettingsError::UrlUnset => SettingsFault::UrlUnset,
            SettingsError::KeyUnset => SettingsFault::KeyUnset,
        }
    }

    pub fn message(&self) -> (r: String)
        ensures
            r@ == fault_text(self@),
    {
        match self {
            SettingsError::NoInputs => "no inputs configured".to_owned(),
            SettingsError::StromUrlUnset => {
                "strom.url is unset — the gateway needs a local Strom instance to drive".to_owned()
            },
            SettingsError::StromUrlNotHttp { url } => {
                "strom.url must be an http or https URL, got ".to_owned().concat(url.as_str())
            },
            SettingsError::DuplicateId { id } => {
                "duplicate input id: ".to_owned().concat(id.as_str())
            },
            SettingsError::PortReused { id, port } => "input ".to_owned().concat(
                id.as_str(),
            ).concat(" reuses SRT port ").concat(decimal(*port as u64).as_str()).concat(
                " already claimed by another input",
            ),
            SettingsError::NoHost { id } => "input ".to_owned().concat(id.as_str()).concat(
                " has no uplink host",
            ),
            SettingsError::KeyLength { id, length } => "input ".to_owned().concat(
                id.as_str(),
            ).concat(" has invalid pbkeylen ").concat(decimal(*length as u64).as_str()).concat(
                " (expected 16, 24, or 32)",
            ),
            SettingsError::BadBind { bind } => "invalid control bind address: ".to_owned().concat(
                bind.as_str(),
            ),
            SettingsError::OpenBind { address } => "control API bound to ".to_owned().concat(
                address.as_str(),
            ).concat(" without a token — set control.token or bind to loopback"),
            SettingsError::UrlUnset => {
                "open_live.register is on but open_live.url is unset".to_owned()
            },
            SettingsError::KeyUnset => {
                "open_live.register is on but open_live.api_key is unset".to_owned()
            },
        }
    }
}

pub open spec fn fault_text(fault: SettingsFault) -> Seq<char> {
    match fault {
        SettingsFault::NoInputs => "no inputs configured"@,
        SettingsFault::StromUrlUnset => "strom.url is unset — the gateway needs a local Strom instance to drive"@,
        SettingsFault::StromUrlNotHttp(url) => "strom.url must be an http or https URL, got "@
            + url,
        SettingsFault::DuplicateId(id) => "duplicate input id: "@ + id,
        SettingsFault::PortReused(id, port) => "input "@ + id + " reuses SRT port "@ + dec(
            port as nat,
        ) + " already claimed by another input"@,
        SettingsFault::NoHost(id) => "input "@ + id + " has no uplink host"@,
        SettingsFault::KeyLength(id, length) => "input "@ + id + " has invalid pbkeylen "@ + dec(
            length as nat,
        ) + " (expected 16, 24, or 32)"@,
        SettingsFault::BadBind(bind) => "invalid control bind address: "@ + bind,
        SettingsFault::OpenBind(address) => "control API bound to "@ + address
            + " without a token — set control.token or bind to loopback"@,
        SettingsFault::UrlUnset => "open_live.register is on but open_live.url is unset"@,
        SettingsFault::KeyUnset => "open_live.register is on but open_live.api_key is unset"@,
    }
}

/// A bind address once read: as it is written out, and whether only this machine can
/// reach it.
#[derive(Debug)]
pub struct BindAddress {
    pub text: String,
    pub loopback: bool,
}

/// Whether an earlier input has this id.
pub open spec fn id_taken(earlier: Seq<InputConfig>, id: Seq<char>) -> bool {
    exists|i: int| 0 <= i < earlier.len() && (#[trigger] earlier[i]).id@ == id
}

pub open spec fn port_taken(earlier: Seq<InputConfig>, port: u16) -> bool {
    exists|i: int| 0 <= i < earlier.len() && (#[trigger] earlier[i]).uplink.port == port
}

pub open spec fn key_length_ok(length: Option<u32>) -> bool {
    match length {
        Some(len) => len == 16 || len == 24 || len == 32,
        None => true,
    }
}

/// The first thing wrong with one input, given those before it.
pub open spec fn input_fault(earlier: Seq<InputConfig>, input: InputConfig) -> Option<
    SettingsFault,
> {
    if id_taken(earlier, input.id@) {
        Some(SettingsFault::DuplicateId(input.id@))
    } else if port_taken(earlier, input.uplink.port) {
        Some(SettingsFault::PortReused(input.id@, input.uplink.port))
    } else if blank(input.uplink.host@) {
        Some(SettingsFault::NoHost(input.id@))
    } else if !key_length_ok(input.uplink.pbkeylen) {
        Some(SettingsFault::KeyLength(input.id@, input.uplink.pbkeylen->0))
    } else {
        None
    }
}

pub open spec fn inputs_fault(inputs: Seq<InputConfig>) -> Option<SettingsFault>
    decreases inputs.len(),
{
    if inputs.len() == 0 {
        None
    } else {
        match inputs_fault(inputs.drop_last()) {
            Some(fault) => Some(fault),
            None => input_fault(inputs.drop_last(), inputs.last()),
        }
    }
}

/// The first thing wrong with the settings, in the order in which they are read.
pub open spec fn settings_fault(cfg: GatewayConfig, bind: Option<BindAddress>) -> Option<
    SettingsFault,
> {
    if cfg.inputs@.len() == 0 {
        Some(SettingsFault::NoInputs)
    } else if blank(cfg.strom.url@) {
        Some(SettingsFault::StromUrlUnset)
    } else if !is_http_url(cfg.strom.url@) {
        Some(SettingsFault::StromUrlNotHttp(cfg.strom.url@))
    } else if inputs_fault(cfg.inputs@) is Some {
        inputs_fault(cfg.inputs@)
    } else if bind is None {
        Some(SettingsFault::BadBind(cfg.control.bind@))
    } else if !bind->0.loopback && cfg.control.token is None {
        Some(SettingsFault::OpenBind(bind->0.text@))
    } else if cfg.open_live.register && cfg.open_live.url is None {
        Some(SettingsFault::UrlUnset)
    } else if cfg.open_live.register && cfg.open_live.api_key is None {
        Some(SettingsFault::KeyUnset)
    } else {
        None
    }
}

pub open spec fn fault_of(r: Result<(), SettingsError>) -> Option<SettingsFault> {
    match r {
        Ok(_) => None,
        Err(e) => Some(e@),
    }
}

fn check_input(inputs: &Vec<InputConfig>, at: usize) -> (r: Result<(), SettingsError>)
    requires
        at < inputs@.len(),
    ensures
        fault_of(r) == input_fault(inputs@.subrange(0, at as int), inputs@[at as int]),
{
    let input = &inputs[at];
    let mut same_id = false;
    let mut same_port = false;
    let mut i: usize = 0;
    while i < at
        invariant
            i <= at < inputs@.len(),
            *input == inputs@[at as int],
            same_id == id_taken(inputs@.subrange(0, i as int), input.id@),
            same_port == port_taken(inputs@.subrange(0, i as int), input.uplink.port),
        decreases at - i,
    {
        let ghost upto = inputs@.subrange(0, i as int);
        let ghost next = inputs@.subrange(0, i + 1);
        assert(next[i as int] == inputs@[i as int]);
        assert forall|j: int| 0 <= j < i implies next[j] == #[trigger] upto[j] by {}
        assert forall|j: int| 0 <= j < i implies upto[j] == #[trigger] next[j] by {}
        if same_text(inputs[i].id.as_str(), input.id.as_str()) {
            same_id = true;
        }
        if inputs[i].uplink.port == input.uplink.port {
            same_port = true;
        }
        i = i + 1;
    }
    if same_id {
        return Err(SettingsError::DuplicateId { id: input.id.clone() });
    }
    if same_port {
        return Err(SettingsError::PortReused { id: input.id.clone(), port: input.uplink.port });
    }
    if is_blank(input.uplink.host.as_str()) {
        return Err(SettingsError::NoHost { id: input.id.clone() });
    }
    if let Some(len) = input.uplink.pbkeylen {
        if len != 16 && len != 24 && len != 32 {
            return Err(SettingsError::KeyLength { id: input.id.clone(), length: len });
        }
    }
    Ok(())
}

/// Rejects settings that would fail confusingly at run time. `bind` is the control bind
/// address, where it is one.
pub fn validate(cfg: &GatewayConfig, bind: &Option<BindAddress>) -> (r: Result<(), SettingsError>)
    ensures
        fault_of(r) == settings_fault(*cfg, *bind),
{
    if cfg.inputs.len() == 0 {
        return Err(SettingsError::NoInputs);
    }
    if is_blank(cfg.strom.url.as_str()) {
        return Err(SettingsError::StromUrlUnset);
    }
    if !check_http_url(cfg.strom.url.as_str()) {
        return Err(SettingsError::StromUrlNotHttp { url: cfg.strom.url.clone() });
    }
    let inputs = &cfg.inputs;
    let mut i: usize = 0;
    while i < inputs.len()
        invariant
            i <= inputs@.len(),
            inputs == &cfg.inputs,
            inputs_fault(inputs@.subrange(0, i as int)) is None,
            cfg.inputs@.len() > 0,
            !blank(cfg.strom.url@),
            is_http_url(cfg.strom.url@),
        decreases inputs@.len() - i,
    {
        assert(inputs@.subrange(0, i + 1).drop_last() =~= inputs@.subrange(0, i as int));
        match check_input(inputs, i) {
            Ok(_) => {},
            Err(e) => {
                proof {
                    lemma_first_fault_stays(inputs@, i + 1);
                }
                return Err(e);
            },
        }
        i = i + 1;
    }
    assert(inputs@.subrange(0, inputs@.len() as int) =~= inputs@);
    match bind {
        None => return Err(SettingsError::BadBind { bind: cfg.control.bind.clone() }),
        Some(address) => {
            if !address.loopback && cfg.control.token.is_none() {
                return Err(SettingsError::OpenBind { address: address.text.clone() });
            }
        },
    }
    if cfg.open_live.register {
        if cfg.open_live.url.is_none() {
            return Err(SettingsError::UrlUnset);
        }
        if cfg.open_live.api_key.is_none() {
            return Err(SettingsError::KeyUnset);
        }
    }
    Ok(())
}

proof fn lemma_first_fault_stays(inputs: Seq<InputConfig>, n: int)
    requires
        0 <= n <= inputs.len(),
        inputs_fault(inputs.subrange(0, n)) is Some,
    ensures
        inputs_fault(inputs) == inputs_fault(inputs.subrange(0, n)),
    decreases inputs.len() - n,
{
    if n < inputs.len() {
        assert(inputs.subrange(0, n + 1).drop_last() =~= inputs.subrange(0, n));
        lemma_first_fault_stays(inputs, n + 1);
    } else {
        assert(inputs.subrange(0, n) =~= inputs);
    }
}

/// Settings that pass have inputs of distinct ids on distinct ports, and a control API
/// that is either out of reach from elsewhere or protected.
pub proof fn law_checked_settings_keep_inputs_apart(cfg: GatewayConfig, bind: Option<BindAddress>)
    requires
        settings_fault(cfg, bind) is None,
    ensures
        cfg.inputs@.len() > 0,
        forall|i: int, j: int|
            0 <= i < j < cfg.inputs@.len() ==> (#[trigger] cfg.inputs@[i]).id@ != (
            #[trigger] cfg.inputs@[j]).id@ && cfg.inputs@[i].uplink.port
                != cfg.inputs@[j].uplink.port,
        bind is Some,
        bind->0.loopback || cfg.control.token is Some,
{
    lemma_no_fault_keeps_apart(cfg.inputs@);
}

proof fn lemma_no_fault_keeps_apart(inputs: Seq<InputConfig>)
    requires
        inputs_fault(inputs) is None,
    ensures
        forall|i: int, j: int|
            0 <= i < j < inputs.len() ==> (#[trigger] inputs[i]).id@ != (#[trigger] inputs[j]).id@
                && inputs[i].uplink.port != inputs[j].uplink.port,
    decreases inputs.len(),
{
    if inputs.len() > 0 {
        let init = inputs.drop_last();
        lemma_no_fault_keeps_apart(init);
        assert forall|i: int, j: int| 0 <= i < j < inputs.len() implies (
        #[trigger] inputs[i]).id@ != (#[trigger] inputs[j]).id@ && inputs[i].uplink.port
            != inputs[j].uplink.port by {
            assert(init[i] == inputs[i]);
            if j < inputs.len() - 1 {
                assert(init[j] == inputs[j]);
            }
        }
    }
}

// ---------------------------------------------------------------------------
// What the checks accept
// ---------------------------------------------------------------------------

/// The two ends of an uplink meet at one port. A venue that calls dials the host and has
/// the cloud bind; one that listens binds and has the cloud dial its public host; in a
/// rendezvous each dials the other. Latency and stream id are the venue's alone, and both
/// ends are given the same key.
pub proof fn law_an_address_spells_out_the_uplink(u: UplinkConfig)
    ensures
        ({
            let key: Seq<char> = match u.passphrase {
                Some(p) => if p@.len() == 0 {
                    Seq::empty()
                } else {
                    match u.pbkeylen {
                        Some(n) => "&passphrase="@ + p@ + "&pbkeylen="@ + dec(n as nat),
                        None => "&passphrase="@ + p@,
                    }
                },
                None => Seq::empty(),
            };
            let id: Seq<char> = match u.stream_id {
                Some(s) => if s@.len() == 0 {
                    Seq::empty()
                } else {
                    "&streamid="@ + s@
                },
                None => Seq::empty(),
            };
            let public: Seq<char> = match u.public_host {
                Some(h) => h@,
                None => Seq::empty(),
            };
            let port = dec(u.port as nat);
            let latency = "&latency="@ + dec(u.latency_ms as nat);
            match u.mode {
                UplinkMode::Caller => {
                    &&& u.venue_address() == "srt://"@ + u.host@ + ":"@ + port + "?mode=caller"@
                        + latency + key + id
                    &&& u.cloud_address() == "srt://:"@ + port + "?mode=listener"@ + key
                },
                UplinkMode::Listener => {
                    &&& u.venue_address() == "srt://:"@ + port + "?mode=listener"@ + latency + key
                        + id
                    &&& u.cloud_address() == "srt://"@ + public + ":"@ + port + "?mode=caller"@
                        + key
                },
                UplinkMode::Rendezvous => {
                    &&& u.venue_address() == "srt://"@ + u.host@ + ":"@ + port
                        + "?mode=rendezvous"@ + latency + key + id
                    &&& u.cloud_address() == "srt://"@ + public + ":"@ + port + "?mode=rendezvous"@
                        + key
                },
            }
        }),
{
}

/// Settings are accepted exactly when there is an input, the local Strom has a web
/// address, no two inputs share an id or a port, every input has a host and a key length
/// of AES, the control API is bound to an address that only this machine reaches or has a
/// token, and a box that registers knows where and with what key.
pub proof fn law_accepted_settings_can_be_acted_on(cfg: GatewayConfig, bind: Option<BindAddress>)
    ensures
        settings_fault(cfg, bind) is None <==> {
            let inputs = cfg.inputs@;
            &&& inputs.len() > 0
            &&& !blank(cfg.strom.url@)
            &&& "http://"@.is_prefix_of(cfg.strom.url@) || "https://"@.is_prefix_of(cfg.strom.url@)
            &&& forall|i: int, j: int|
                0 <= i < j < inputs.len() ==> (#[trigger] inputs[i]).id@ != (
                #[trigger] inputs[j]).id@ && inputs[i].uplink.port != inputs[j].uplink.port
            &&& forall|i: int|
                0 <= i < inputs.len() ==> !blank((#[trigger] inputs[i]).uplink.host@) && (
                inputs[i].uplink.pbkeylen is None || inputs[i].uplink.pbkeylen->0 == 16
                    || inputs[i].uplink.pbkeylen->0 == 24 || inputs[i].uplink.pbkeylen->0 == 32)
            &&& bind is Some && (bind->0.loopback || cfg.control.token is Some)
            &&& cfg.open_live.register ==> cfg.open_live.url is Some && cfg.open_live.api_key
                is Some
        },
{
    lemma_inputs_fault(cfg.inputs@);
}

proof fn lemma_inputs_fault(inputs: Seq<InputConfig>)
    ensures
        inputs_fault(inputs) is None <==> {
            &&& forall|i: int, j: int|
                0 <= i < j < inputs.len() ==> (#[trigger] inputs[i]).id@ != (
                #[trigger] inputs[j]).id@ && inputs[i].uplink.port != inputs[j].uplink.port
            &&& forall|i: int|
                0 <= i < inputs.len() ==> !blank((#[trigger] inputs[i]).uplink.host@) && (
                inputs[i].uplink.pbkeylen is None || inputs[i].uplink.pbkeylen->0 == 16
                    || inputs[i].uplink.pbkeylen->0 == 24 || inputs[i].uplink.pbkeylen->0 == 32)
        },
    decreases inputs.len(),
{
    if inputs.len() > 0 {
        let init = inputs.drop_last();
        let last = inputs.len() - 1;
        lemma_inputs_fault(init);
        assert forall|i: int| 0 <= i < init.len() implies #[trigger] init[i] == inputs[i] by {}
        if inputs_fault(inputs) is None {
            assert forall|i: int, j: int| 0 <= i < j < inputs.len() implies (
            #[trigger] inputs[i]).id@ != (#[trigger] inputs[j]).id@ && inputs[i].uplink.port
                != inputs[j].uplink.port by {
                assert(init[i] == inputs[i]);
                if j < last {
                    assert(init[j] == inputs[j]);
                }
            }
            assert forall|i: int| 0 <= i < inputs.len() implies !blank(
                (#[trigger] inputs[i]).uplink.host@,
            ) && (inputs[i].uplink.pbkeylen is None || inputs[i].uplink.pbkeylen->0 == 16
                || inputs[i].uplink.pbkeylen->0 == 24 || inputs[i].uplink.pbkeylen->0 == 32) by {
                if i < last {
                    assert(init[i] == inputs[i]);
                }
            }
        } else if inputs_fault(init) is None {
            let x = inputs[last];
            if id_taken(init, x.id@) {
                let i = choose|i: int| 0 <= i < init.len() && (#[trigger] init[i]).id@ == x.id@;
                assert(inputs[i].id@ == inputs[last].id@);
            } else if port_taken(init, x.uplink.port) {
                let i = choose|i: int|
                    0 <= i < init.len() && (#[trigger] init[i]).uplink.port == x.uplink.port;
                assert(inputs[i].uplink.port == inputs[last].uplink.port);
            }
        }
    }
}

/// The first input that is at fault is the one named, whatever stands behind it: a
/// second use of an id before one of a port, then a missing host, then a key length.
pub proof fn law_the_first_bad_input_is_named(
    before: Seq<InputConfig>,
    input: InputConfig,
    after: Seq<InputConfig>,
    k: int,
)
    requires
        inputs_fault(before) is None,
    ensures
        0 <= k < before.len() && before[k].id@ == input.id@ ==> inputs_fault(
            before.push(input) + after,
        ) == Some(SettingsFault::DuplicateId(input.id@)),
        0 <= k < before.len() && before[k].uplink.port == input.uplink.port && (forall|i: int|
            0 <= i < before.len() ==> (#[trigger] before[i]).id@ != input.id@) ==> inputs_fault(
            before.push(input) + after,
        ) == Some(SettingsFault::PortReused(input.id@, input.uplink.port)),
        (forall|i: int|
            0 <= i < before.len() ==> (#[trigger] before[i]).id@ != input.id@
                && before[i].uplink.port != input.uplink.port) ==> {
            &&& blank(input.uplink.host@) ==> inputs_fault(before.push(input) + after) == Some(
                SettingsFault::NoHost(input.id@),
            )
            &&& !blank(input.uplink.host@) && input.uplink.pbkeylen is Some
                && input.uplink.pbkeylen->0 != 16 && input.uplink.pbkeylen->0 != 24
                && input.uplink.pbkeylen->0 != 32 ==> inputs_fault(before.push(input) + after)
                == Some(SettingsFault::KeyLength(input.id@, input.uplink.pbkeylen->0))
        },
    decreases after.len(),
{
    let all = before.push(input) + after;
    if after.len() == 0 {
        assert(all =~= before.push(input));
        assert(all.drop_last() =~= before);
        if 0 <= k < before.len() && before[k].id@ == input.id@ {
            assert(id_taken(before, input.id@));
        }
        if 0 <= k < before.len() && before[k].uplink.port == input.uplink.port {
            assert(port_taken(before, input.uplink.port));
        }
    } else {
        law_the_first_bad_input_is_named(before, input, after.drop_last(), k);
        assert(all.drop_last() =~= before.push(input) + after.drop_last());
    }
}

/// Faults are named in one order: what is wrong with the whole before the inputs, these
/// before the control API, and that before the registration.
pub proof fn law_settings_are_checked_in_one_order(cfg: GatewayConfig, bind: Option<BindAddress>)
    ensures
        cfg.inputs@.len() == 0 ==> settings_fault(cfg, bind) == Some(SettingsFault::NoInputs),
        cfg.inputs@.len() > 0 && blank(cfg.strom.url@) ==> settings_fault(cfg, bind) == Some(
            SettingsFault::StromUrlUnset,
        ),
        cfg.inputs@.len() > 0 && !blank(cfg.strom.url@) && is_http_url(cfg.strom.url@) ==> {
            &&& inputs_fault(cfg.inputs@) is Some ==> settings_fault(cfg, bind) == inputs_fault(
                cfg.inputs@,
            )
            &&& inputs_fault(cfg.inputs@) is None && bind is None ==> settings_fault(cfg, bind)
                == Some(SettingsFault::BadBind(cfg.control.bind@))
            &&& inputs_fault(cfg.inputs@) is None && bind is Some && !bind->0.loopback
                && cfg.control.token is None ==> settings_fault(cfg, bind) == Some(
                SettingsFault::OpenBind(bind->0.text@),
            )
            &&& inputs_fault(cfg.inputs@) is None && bind is Some && bind->0.loopback
                && cfg.open_live.register && cfg.open_live.url is None ==> settings_fault(cfg, bind)
                == Some(SettingsFault::UrlUnset)
            &&& inputs_fault(cfg.inputs@) is None && bind is Some && bind->0.loopback
                && cfg.open_live.register && cfg.open_live.url is Some && cfg.open_live.api_key
                is None ==> settings_fault(cfg, bind) == Some(SettingsFault::KeyUnset)
        },
{
}

/// An input is registered under the name that it has, and else under the gateway's name
/// and its own id.
pub proof fn law_an_input_is_registered_under_its_name(input: InputConfig, gateway_name: Seq<char>)
    ensures
        input.name is Some ==> input.registered_name(gateway_name) == input.name->0@,
        input.name is None ==> input.registered_name(gateway_name) == gateway_name + " — "@
            + input.id@,
{
}

/// An injected value takes the place of a stored one.
pub proof fn law_an_injected_value_wins<T>(injected: T, stored: T)
    ensures
        or_stored(Some(injected), stored) == injected,
        or_stored(None, stored) == stored,
{
}

/// Settings that are the same are the same part by part.
pub proof fn law_the_same_settings_agree_in_every_part(a: GatewayConfig, b: GatewayConfig)
    requires
        a.same_as(&b),
    ensures
        a.gateway == b.gateway && a.strom == b.strom && a.open_live == b.open_live,
        a.inputs@ == b.inputs@,
        a.control == b.control && a.log == b.log && a.app == b.app,
{
}

/// What is not set has its default: a link that the venue calls, without a key; H.264 at
/// six megabits, encoded for low latency; a control API that only this machine reaches;
/// and a local Strom that is started where none answers.
pub proof fn law_defaults_are_safe_to_start_with(
    strom: StromConfig,
    open_live: OpenLiveConfig,
    video: VideoConfig,
    control: ControlConfig,
    uplink: UplinkTemplate,
)
    ensures
        strom.is_default() ==> strom.url@ == "http://127.0.0.1:8080"@ && strom.manage
            && strom.binary@ == "strom"@ && strom.api_key is None && strom.data_dir is None,
        open_live.is_default() ==> open_live.register && open_live.url is None
            && open_live.auth_mode@ == "direct"@ && open_live.api_key is None
            && open_live.state_path@ == "/var/lib/open-live-gateway/state.json"@,
        video.is_default() ==> video.codec@ == "h264"@ && video.bitrate_kbps == 6000
            && video.encoder_preference@ == "auto"@ && video.quality_preset@ == "ultrafast"@
            && video.tune@ == "zerolatency"@ && video.rate_control@ == "cbr"@
            && video.keyframe_interval == 25,
        control.is_default() ==> control.bind@ == "127.0.0.1:9001"@ && control.token is None,
        uplink.is_default() ==> uplink.mode == UplinkMode::Caller && uplink.port_range@
            == "9000-9100"@ && uplink.latency_ms == 200 && uplink.host is None
            && uplink.public_host is None && uplink.passphrase is None && uplink.pbkeylen is None,
{
}

/// Faults are told as they were found, and no fault is told where there is none.
pub proof fn law_a_fault_is_told_as_it_was_found(e: SettingsError, id: String, port: u16, n: u32)
    ensures
        fault_of(Ok(())) is None,
        fault_of(Err(e)) == Some(e@),
        (SettingsError::DuplicateId { id })@ == SettingsFault::DuplicateId(id@),
        (SettingsError::PortReused { id, port })@ == SettingsFault::PortReused(id@, port),
        (SettingsError::KeyLength { id, length: n })@ == SettingsFault::KeyLength(id@, n),
        (SettingsError::NoHost { id })@ == SettingsFault::NoHost(id@),
        "duplicate input id: "@ + id@ == fault_text(SettingsFault::DuplicateId(id@)),
        fault_text(SettingsFault::PortReused(id@, port)) == "input "@ + id@ + " reuses SRT port "@
            + dec(port as nat) + " already claimed by another input"@,
        fault_text(SettingsFault::KeyLength(id@, n)) == "input "@ + id@ + " has invalid pbkeylen "@
            + dec(n as nat) + " (expected 16, 24, or 32)"@,
        fault_text(SettingsFault::NoHost(id@)) == "input "@ + id@ + " has no uplink host"@,
{
}

} // verus!
