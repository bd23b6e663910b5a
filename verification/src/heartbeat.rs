//! Status pushed to Open Live, so a Studio operator can see a venue without shelling
//! into it.
//!
//! One outbound WebSocket to Open Live's gateway heartbeat endpoint, opened with the
//! per-gateway token Open Live minted for this box. Nothing inbound is acted on: a
//! frame from Open Live is a greeting, an acknowledgement, or an error, and anything
//! else is ignored. Best effort, like registration: a socket that cannot be opened is
//! retried with backoff and never touches a flow.

use crate::config::OpenLive;
use crate::json::{member, parse_json, parsed_json, text_of, Json, JsonView, Number};
use crate::report::{law_the_nearest_is_at_most_half_away, nearest};
use crate::text::{
    after_prefix, char_is_alphanumeric, contains_text, dec, decimal, has_at, is_alphanumeric,
    law_trailing_marks_come_off,
    needs_no_escape, opt_text, quote, quoted_text, same_text, strip_prefix, strip_trailing,
    to_chars, trim, trimmed, visible, visible_of, without_trailing,
};
use vstd::prelude::*;

verus! {

/// Intervals in nanoseconds. Open Live's advice when its `HELLO` names none.
pub const DEFAULT_INTERVAL: u64 = 5_000_000_000;

/// Bounds on the interval Open Live may ask for: a tick a second is the most a
/// venue's link should carry, and past a minute the gateway would read as down.
pub const MIN_INTERVAL: u64 = 1_000_000_000;

pub const MAX_INTERVAL: u64 = 60_000_000_000;

/// Seconds between attempts, at most.
pub const MAX_BACKOFF_SECS: u64 = 60;

/// Open Live's application close code for a refused token.
pub const CLOSE_UNAUTHORIZED: u16 = 4401;

// ---------------------------------------------------------------------------
// Where to push, and as whom
// ---------------------------------------------------------------------------

/// Where to push, and as whom.
pub struct Target {
    pub socket_url: String,
    pub gateway_id: String,
    pub token: String,
}

/// Why there is no target although the settings ask for one.
#[derive(Debug)]
pub enum TargetError {
    TokenMissing,
    IdMissing,
    UrlMissing,
    IdCharacters(String),
    UrlScheme(String),
}

impl TargetError {
    pub open spec fn text(&self) -> Seq<char> {
        match self {
            TargetError::TokenMissing =>
                "open_live.gateway_id is set but open_live.gateway_token is not; set it, or OLI_OPEN_LIVE_GATEWAY_TOKEN"@,
            TargetError::IdMissing =>
                "open_live.gateway_token is set but open_live.gateway_id is not; set it to the id Open Live gave the gateway"@,
            TargetError::UrlMissing => "open_live.gateway_id is set but open_live.url is not"@,
            TargetError::IdCharacters(id) =>
                "open_live.gateway_id may only contain letters, digits, - and _, got "@
                    + quoted_text(id@),
            TargetError::UrlScheme(url) =>
                "open_live.url must start with http:// or https://, got "@ + quoted_text(url@),
        }
    }

    pub fn message(&self) -> (r: String)
        ensures
            r@ == self.text(),
    {
        match self {
            TargetError::TokenMissing => {
                "open_live.gateway_id is set but open_live.gateway_token is not; set it, or OLI_OPEN_LIVE_GATEWAY_TOKEN".to_owned()
            },
            TargetError::IdMissing => {
                "open_live.gateway_token is set but open_live.gateway_id is not; set it to the id Open Live gave the gateway".to_owned()
            },
            TargetError::UrlMissing => {
                "open_live.gateway_id is set but open_live.url is not".to_owned()
            },
            TargetError::IdCharacters(id) => {
                "open_live.gateway_id may only contain letters, digits, - and _, got ".to_owned().concat(
                quote(id.as_str()).as_str())
            },
            TargetError::UrlScheme(url) => {
                "open_live.url must start with http:// or https://, got ".to_owned().concat(
                    quote(url.as_str()).as_str(),
                )
            },
        }
    }
}

pub open spec fn id_char_ok(c: char) -> bool {
    is_alphanumeric(c) || c == '-' || c == '_'
}

pub open spec fn id_ok(id: Seq<char>) -> bool {
    forall|i: int| 0 <= i < id.len() ==> id_char_ok(#[trigger] id[i])
}

/// The address over WebSocket: the same host, encrypted where the API is.
pub open spec fn websocket_base(base: Seq<char>) -> Option<Seq<char>> {
    match after_prefix(base, "https://"@) {
        Some(rest) => Some("wss://"@ + rest),
        None => match after_prefix(base, "http://"@) {
            Some(rest) => Some("ws://"@ + rest),
            None => None,
        },
    }
}

/// An address without surrounding blanks and trailing slashes.
pub open spec fn bare(base: Seq<char>) -> Seq<char> {
    without_trailing(trimmed(base), '/')
}

fn check_id(id: &str) -> (r: bool)
    ensures
        r == id_ok(id@),
{
    let v = to_chars(id);
    let mut i: usize = 0;
    while i < v.len()
        invariant
            i <= v@.len(),
            v@ == id@,
            forall|j: int| 0 <= j < i ==> id_char_ok(#[trigger] v@[j]),
        decreases v@.len() - i,
    {
        let c: char = v[i];
        if !(char_is_alphanumeric(c) || c == '-' || c == '_') {
            assert(!id_char_ok(id@[i as int]));
            return false;
        }
        i = i + 1;
    }
    true
}

/// The heartbeat endpoint for an Open Live address: the same host, over WebSocket.
pub fn socket_url(base: &str, gateway_id: &str) -> (r: Result<String, TargetError>)
    ensures
        match r {
            Ok(url) => id_ok(gateway_id@) && websocket_base(bare(base@)) is Some && url@
                == websocket_base(bare(base@))->0 + "/ws/gateways/"@ + gateway_id@ + "/heartbeat"@,
            Err(TargetError::IdCharacters(id)) => !id_ok(gateway_id@) && id@ == gateway_id@,
            Err(TargetError::UrlScheme(url)) => id_ok(gateway_id@) && websocket_base(
                bare(base@),
            ) is None && url@ == bare(base@),
            Err(_) => false,
        },
{
    if !check_id(gateway_id) {
        return Err(TargetError::IdCharacters(gateway_id.to_owned()));
    }
    let base = strip_trailing(trim(base).as_str(), '/');
    let ws = match strip_prefix(base.as_str(), "https://") {
        Some(rest) => "wss://".to_owned().concat(rest.as_str()),
        None => match strip_prefix(base.as_str(), "http://") {
            Some(rest) => "ws://".to_owned().concat(rest.as_str()),
            None => return Err(TargetError::UrlScheme(base)),
        },
    };
    Ok(ws.concat("/ws/gateways/").concat(gateway_id).concat("/heartbeat"))
}

impl Target {
    /// None when the settings name no gateway: the heartbeat is optional, and a box
    /// nobody has registered as a gateway in Open Live simply does not push. An id
    /// without its token, or the reverse, is a mistake worth refusing at startup.
    pub fn from_config(cfg: &OpenLive) -> (r: Result<Option<Target>, TargetError>)
        ensures
            match (visible(cfg.gateway_id), visible(cfg.gateway_token)) {
                (None, None) => r matches Ok(None),
                (Some(_), None) => r matches Err(TargetError::TokenMissing),
                (None, Some(_)) => r matches Err(TargetError::IdMissing),
                (Some(id), Some(token)) => match visible(cfg.url) {
                    None => r matches Err(TargetError::UrlMissing),
                    Some(url) => if !id_ok(id) {
                        r is Err && (r->Err_0 matches TargetError::IdCharacters(i) && i@ == id)
                    } else {
                        match websocket_base(bare(url)) {
                            None => r is Err && (r->Err_0 matches TargetError::UrlScheme(u) && u@
                                == bare(url)),
                            Some(ws) => r is Ok && r->Ok_0 is Some && (r->Ok_0->0).socket_url@ == ws
                                + "/ws/gateways/"@ + id + "/heartbeat"@ && (r->Ok_0->0).gateway_id@
                                == id && (r->Ok_0->0).token@ == token,
                        }
                    },
                },
            },
    {
        let (id, token) = match (visible_of(&cfg.gateway_id), visible_of(&cfg.gateway_token)) {
            (None, None) => return Ok(None),
            (Some(_), None) => return Err(TargetError::TokenMissing),
            (None, Some(_)) => return Err(TargetError::IdMissing),
            (Some(id), Some(token)) => (id, token),
        };
        let url = match visible_of(&cfg.url) {
            Some(url) => url,
            None => return Err(TargetError::UrlMissing),
        };
        match socket_url(url.as_str(), id.as_str()) {
            Ok(socket_url) => Ok(Some(Target { socket_url, gateway_id: id, token })),
            Err(e) => Err(e),
        }
    }

    /// The target as it may be printed: the token is the one thing here that must not
    /// be.
    pub open spec fn printed_form(&self) -> Seq<char> {
        "Target { socket_url: "@ + quoted_text(self.socket_url@) + ", gateway_id: "@ + quoted_text(
            self.gateway_id@,
        ) + ", token: \"***\" }"@
    }

    /// Names the gateway: the id that Open Live gave it stands in the text.
    pub fn printed(&self) -> (r: String)
        ensures
            r@ == self.printed_form(),
            id_ok(self.gateway_id@) ==> contains_text(r@, self.gateway_id@),
    {
        let head = "Target { socket_url: ".to_owned().concat(
            quote(self.socket_url.as_str()).as_str(),
        ).concat(", gateway_id: ");
        let id = quote(self.gateway_id.as_str());
        let r = head.clone().concat(id.as_str()).concat(", token: \"***\" }");
        proof {
            if id_ok(self.gateway_id@) {
                assert(needs_no_escape(self.gateway_id@));
                let at = 1 + head@.len() as int;
                assert(r@.subrange(at, at + self.gateway_id@.len()) =~= self.gateway_id@);
                assert(has_at(r@, self.gateway_id@, at));
            }
        }
        r
    }

    /// The header that presents the token. It travels there and never in the URL.
    pub fn authorization(&self) -> (r: String)
        ensures
            r@ == "Bearer "@ + self.token@,
    {
        "Bearer ".to_owned().concat(self.token.as_str())
    }

    /// What is said when Open Live refuses the token. The token is not.
    pub fn refusal(&self) -> (r: String)
        ensures
            r@ == refusal_text(self.gateway_id@),
    {
        "Open Live refused the token for gateway ".to_owned().concat(
            self.gateway_id.as_str(),
        ).concat(
            "; check open_live.gateway_id and open_live.gateway_token, or rotate the token",
        )
    }
}

pub open spec fn refusal_text(gateway_id: Seq<char>) -> Seq<char> {
    "Open Live refused the token for gateway "@ + gateway_id
        + "; check open_live.gateway_id and open_live.gateway_token, or rotate the token"@
}

/// Neither the printed form nor the refusal depends on the token: two targets that
/// differ in nothing else are printed alike.
pub proof fn law_the_token_is_never_printed(a: Target, b: Target)
    requires
        a.socket_url@ == b.socket_url@,
        a.gateway_id@ == b.gateway_id@,
    ensures
        a.printed_form() == b.printed_form(),
        refusal_text(a.gateway_id@) == refusal_text(b.gateway_id@),
{
}

// ---------------------------------------------------------------------------
// What one heartbeat says
// ---------------------------------------------------------------------------

/// What one heartbeat says: the same facts `status` reports, in the field names Open
/// Live's gateway resource stores.
#[derive(Debug)]
pub struct Snapshot {
    pub host: String,
    pub strom_version: Option<String>,
    /// Not in Open Live's schema; by contract it ignores fields it does not know, and
    /// a version is the first thing to want when a venue misbehaves.
    pub ingest_version: String,
    /// Inputs this gateway drives.
    pub device_count: usize,
    /// Inputs whose uplink is delivering.
    pub streaming_count: usize,
    pub inputs: Vec<InputStatus>,
}

#[derive(Debug)]
pub struct InputStatus {
    pub input_id: String,
    pub name: String,
    pub flow_state: FlowState,
    /// The Open Live source this input registered as, once known.
    pub source_id: Option<String>,
    /// Absent until something receives the feed.
    pub uplink: Option<Uplink>,
}

/// Strom's flow state vocabulary, which is what Open Live stores. Strom also has
/// `paused`, which a gateway flow is never left in.
#[derive(Clone, Copy, Debug, PartialEq, Eq, Structural)]
pub enum FlowState {
    Idle,
    Playing,
}

impl FlowState {
    pub fn word(&self) -> (r: &'static str)
        ensures
            r@ == match *self {
                FlowState::Idle => "idle"@,
                FlowState::Playing => "playing"@,
            },
    {
        match self {
            FlowState::Idle => "idle",
            FlowState::Playing => "playing",
        }
    }
}

#[derive(Clone, Copy, Debug, PartialEq, Eq, Structural)]
pub struct Uplink {
    pub bitrate_kbps: u64,
    /// The bits of the round-trip time in milliseconds.
    pub rtt_ms: u64,
    /// Packets dropped before transmission.
    pub dropped: u64,
}

impl Uplink {
    /// From what Strom reports of the SRT peer, where it reports it: the send rate
    /// rounded to kbps, the bits of the round-trip time, and the drops.
    pub fn from_srt(send_rate_kbps: Option<u64>, rtt_ms: Option<u64>, dropped: Option<u64>) -> (r:
        Uplink)
        ensures
            r.bitrate_kbps == (match send_rate_kbps {
                Some(n) => n,
                None => 0,
            }),
            r.rtt_ms == (match rtt_ms {
                Some(n) => n,
                None => 0,
            }),
            r.dropped == (match dropped {
                Some(n) => n,
                None => 0,
            }),
    {
        Uplink {
            bitrate_kbps: send_rate_kbps.unwrap_or(0),
            rtt_ms: rtt_ms.unwrap_or(0),
            dropped: dropped.unwrap_or(0),
        }
    }
}

// ---------------------------------------------------------------------------
// Frames from Open Live
// ---------------------------------------------------------------------------

/// What a frame from Open Live means to this end.
#[derive(Debug)]
pub enum Inbound {
    /// The greeting, with the interval in nanoseconds.
    Hello { interval: u64 },
    Unauthorized,
    /// An in-band error other than a refused token, by its code.
    Rejected(String),
    Closed,
    /// An acknowledgement, the end of the empty snapshot, a ping, or something this
    /// version does not know. By contract unknown frames are ignored.
    Ignore,
}

pub enum InboundView {
    Hello(u64),
    Unauthorized,
    Rejected(Seq<char>),
    Closed,
    Ignore,
}

impl Inbound {
    pub open spec fn view(&self) -> InboundView {
        match self {
            Inbound::Hello { interval } => InboundView::Hello(*interval),
            Inbound::Unauthorized => InboundView::Unauthorized,
            Inbound::Rejected(code) => InboundView::Rejected(code@),
            Inbound::Closed => InboundView::Closed,
            Inbound::Ignore => InboundView::Ignore,
        }
    }
}

/// Two to the power of what is missing from 52, for the exponents of the doubles from
/// 1 up to 64.
pub open spec fn scale_of(exponent: int) -> int {
    if exponent == 0 {
        0x10_0000_0000_0000
    } else if exponent == 1 {
        0x8_0000_0000_0000
    } else if exponent == 2 {
        0x4_0000_0000_0000
    } else if exponent == 3 {
        0x2_0000_0000_0000
    } else if exponent == 4 {
        0x1_0000_0000_0000
    } else {
        0x8000_0000_0000
    }
}

/// A double between 1 and 60, by its bits, in nanoseconds where it counts seconds:
/// rounded to the nearest, a tie to the even one.
pub open spec fn double_nanos(bits: u64) -> int {
    let exponent = bits as int / 0x10_0000_0000_0000 - 1023;
    let mantissa = 0x10_0000_0000_0000 + bits as int % 0x10_0000_0000_0000;
    nearest(mantissa * 1_000_000_000, scale_of(exponent))
}

/// The interval a greeting asks for, kept within bounds. A value that is not a number,
/// or not one above zero, is no request.
pub open spec fn interval_of(asked: Option<Number>) -> u64 {
    match asked {
        None => DEFAULT_INTERVAL,
        Some(Number::NegInt(_)) => DEFAULT_INTERVAL,
        Some(Number::PosInt(n)) => if n == 0 {
            DEFAULT_INTERVAL
        } else if n >= 60 {
            MAX_INTERVAL
        } else {
            (n * 1_000_000_000) as u64
        },
        // Doubles above zero are ordered as their bits are; the infinite and the
        // negative ones come after all others. 1.0 and 60.0 are the bounds.
        Some(Number::Float(bits)) => if bits == 0 || bits >= 0x7FF0_0000_0000_0000 {
            DEFAULT_INTERVAL
        } else if bits <= 0x3FF0_0000_0000_0000 {
            MIN_INTERVAL
        } else if bits >= 0x404E_0000_0000_0000 {
            MAX_INTERVAL
        } else {
            double_nanos(bits) as u64
        },
    }
}

proof fn lemma_double_nanos(bits: u64)
    requires
        0x3FF0_0000_0000_0000 < bits < 0x404E_0000_0000_0000,
    ensures
        MIN_INTERVAL <= double_nanos(bits) <= MAX_INTERVAL,
        0 <= bits as int / 0x10_0000_0000_0000 - 1023 <= 5,
{
    let e = bits as int / 0x10_0000_0000_0000;
    let f = bits as int % 0x10_0000_0000_0000;
    assert(1023 <= e <= 1028);
    if e == 1028 {
        assert(f < 0xE_0000_0000_0000);
    }
}

/// However long an interval Open Live asks for, or none, or nonsense: a heartbeat goes
/// out at most once a second and at least once a minute.
pub proof fn law_the_interval_stays_within_bounds(asked: Option<Number>)
    ensures
        MIN_INTERVAL <= interval_of(asked) <= MAX_INTERVAL,
{
    if let Some(Number::Float(bits)) = asked {
        if 0x3FF0_0000_0000_0000 < bits < 0x404E_0000_0000_0000 {
            lemma_double_nanos(bits);
        }
    }
}

fn double_to_nanos(bits: u64) -> (r: u64)
    requires
        0x3FF0_0000_0000_0000 < bits < 0x404E_0000_0000_0000,
    ensures
        r == double_nanos(bits),
{
    proof {
        lemma_double_nanos(bits);
    }
    let exponent: u64 = bits / 0x10_0000_0000_0000 - 1023;
    let mantissa: u128 = (0x10_0000_0000_0000 + bits % 0x10_0000_0000_0000) as u128;
    let scale: u128 = if exponent == 0 {
        0x10_0000_0000_0000
    } else if exponent == 1 {
        0x8_0000_0000_0000
    } else if exponent == 2 {
        0x4_0000_0000_0000
    } else if exponent == 3 {
        0x2_0000_0000_0000
    } else if exponent == 4 {
        0x1_0000_0000_0000
    } else {
        0x8000_0000_0000
    };
    let n: u128 = mantissa * 1_000_000_000;
    let q: u128 = n / scale;
    let twice: u128 = 2 * (n % scale);
    if twice > scale || (twice == scale && q % 2 == 1) {
        (q + 1) as u64
    } else {
        q as u64
    }
}

/// The interval a greeting asks for, kept within bounds.
pub fn asked_interval(asked: Option<Number>) -> (r: u64)
    ensures
        r == interval_of(asked),
{
    match asked {
        None => DEFAULT_INTERVAL,
        Some(Number::NegInt(_)) => DEFAULT_INTERVAL,
        Some(Number::PosInt(n)) => if n == 0 {
            DEFAULT_INTERVAL
        } else if n >= 60 {
            MAX_INTERVAL
        } else {
            n * 1_000_000_000
        },
        Some(Number::Float(bits)) => if bits == 0 || bits >= 0x7FF0_0000_0000_0000 {
            DEFAULT_INTERVAL
        } else if bits <= 0x3FF0_0000_0000_0000 {
            MIN_INTERVAL
        } else if bits >= 0x404E_0000_0000_0000 {
            MAX_INTERVAL
        } else {
            double_to_nanos(bits)
        },
    }
}

pub open spec fn number_of(j: Option<JsonView>) -> Option<Number> {
    match j {
        Some(JsonView::Number(n)) => Some(n),
        _ => None,
    }
}

/// What a document from Open Live means: by its type, and for an error by its code.
pub open spec fn frame_meaning(doc: JsonView) -> InboundView {
    let kind = text_of(member(doc, "type"@));
    if kind == Some("HELLO"@) {
        InboundView::Hello(interval_of(number_of(member(doc, "heartbeatIntervalSeconds"@))))
    } else if kind == Some("ERROR"@) {
        match text_of(member(doc, "code"@)) {
            Some(code) => if code == "unauthorized"@ {
                InboundView::Unauthorized
            } else {
                InboundView::Rejected(code)
            },
            None => InboundView::Rejected("unknown"@),
        }
    } else {
        InboundView::Ignore
    }
}

/// What a text frame means: what it says where it is a document, and else nothing.
pub open spec fn text_meaning(doc: Option<JsonView>) -> InboundView {
    match doc {
        Some(d) => frame_meaning(d),
        None => InboundView::Ignore,
    }
}

/// What a document from Open Live means to this end.
pub fn classify_document(doc: &Json) -> (r: Inbound)
    ensures
        r@ == frame_meaning(doc@),
{
    let kind = match doc.text_at("type") {
        Some(kind) => kind,
        None => return Inbound::Ignore,
    };
    if same_text(kind, "HELLO") {
        proof {
            reveal_strlit("HELLO");
            reveal_strlit("ERROR");
        }
        let asked = match doc.get("heartbeatIntervalSeconds") {
            Some(Json::Number(n)) => Some(by_value_of(*n)),
            _ => None,
        };
        return Inbound::Hello { interval: asked_interval(asked) };
    }
    if same_text(kind, "ERROR") {
        return match doc.text_at("code") {
            Some(code) => if same_text(code, "unauthorized") {
                Inbound::Unauthorized
            } else {
                Inbound::Rejected(code.to_owned())
            },
            None => Inbound::Rejected("unknown".to_owned()),
        };
    }
    Inbound::Ignore
}

fn by_value_of(n: Number) -> (r: Number)
    ensures
        r == crate::json::by_value(n),
{
    match n {
        Number::Float(bits) => if bits == crate::json::NEG_ZERO_BITS {
            Number::Float(crate::json::ZERO_BITS)
        } else {
            n
        },
        _ => n,
    }
}

pub fn classify_text(text: &str) -> (r: Inbound)
    ensures
        r@ == text_meaning(parsed_json(text@)),
{
    match parse_json(text) {
        Some(doc) => classify_document(&doc),
        None => Inbound::Ignore,
    }
}

/// A message on the socket.
#[derive(Debug)]
pub enum Message {
    Text(String),
    /// The close, with its code where it has one.
    Close(Option<u16>),
    Other,
}

pub open spec fn message_meaning(m: Message) -> InboundView {
    match m {
        Message::Text(text) => text_meaning(parsed_json(text@)),
        Message::Close(code) => if code == Some(CLOSE_UNAUTHORIZED) {
            InboundView::Unauthorized
        } else {
            InboundView::Closed
        },
        Message::Other => InboundView::Ignore,
    }
}

pub fn classify(message: &Message) -> (r: Inbound)
    ensures
        r@ == message_meaning(*message),
{
    match message {
        Message::Text(text) => classify_text(text.as_str()),
        Message::Close(code) => match code {
            Some(c) => if *c == CLOSE_UNAUTHORIZED {
                Inbound::Unauthorized
            } else {
                Inbound::Closed
            },
            None => Inbound::Closed,
        },
        Message::Other => Inbound::Ignore,
    }
}

/// Open Live's first word.
#[derive(Clone, Copy, Debug, PartialEq, Eq, Structural)]
pub enum Greeting {
    /// The interval in nanoseconds.
    Hello { interval: u64 },
    Unauthorized,
    Closed,
}

/// What a frame says while the greeting is awaited; none is to keep waiting. Open Live
/// completes the upgrade even for a bad token, so that it can say so in a frame before
/// closing; that is why a refusal arrives here and not from the connect.
pub fn as_greeting(frame: &Inbound) -> (r: Option<Greeting>)
    ensures
        r == match frame@ {
            InboundView::Hello(interval) => Some(Greeting::Hello { interval }),
            InboundView::Unauthorized => Some(Greeting::Unauthorized),
            InboundView::Closed => Some(Greeting::Closed),
            _ => None,
        },
{
    match frame {
        Inbound::Hello { interval } => Some(Greeting::Hello { interval: *interval }),
        Inbound::Unauthorized => Some(Greeting::Unauthorized),
        Inbound::Closed => Some(Greeting::Closed),
        Inbound::Rejected(_) => None,
        Inbound::Ignore => None,
    }
}

/// How one connection ended.
#[derive(Clone, Copy, Debug, PartialEq, Eq, Structural)]
pub enum Ending {
    /// Told to stop; the shutdown notice went out.
    Stopped,
    /// Open Live refused the token. Retrying quickly will not help.
    Unauthorized,
    /// The socket closed or failed. `was_connected` says whether the greeting had
    /// arrived, which separates a working link that dropped from one that never came up.
    Dropped { was_connected: bool },
}

/// What a greeting leads to: the interval to push at, or the end of the connection.
pub fn after_greeting(g: Greeting) -> (r: Result<u64, Ending>)
    ensures
        r == match g {
            Greeting::Hello { interval } => Ok::<u64, Ending>(interval),
            Greeting::Unauthorized => Err(Ending::Unauthorized),
            Greeting::Closed => Err(Ending::Dropped { was_connected: false }),
        },
{
    match g {
        Greeting::Hello { interval } => Ok(interval),
        Greeting::Unauthorized => Err(Ending::Unauthorized),
        Greeting::Closed => Err(Ending::Dropped { was_connected: false }),
    }
}

/// What a frame does to a connection that was greeted; none is to go on. A command in
/// a frame is ignored, not acted on.
pub fn while_connected(frame: &Inbound) -> (r: Option<Ending>)
    ensures
        r == match frame@ {
            InboundView::Unauthorized => Some(Ending::Unauthorized),
            InboundView::Closed => Some(Ending::Dropped { was_connected: true }),
            _ => None,
        },
{
    match frame {
        Inbound::Unauthorized => Some(Ending::Unauthorized),
        Inbound::Closed => Some(Ending::Dropped { was_connected: true }),
        _ => None,
    }
}

// ---------------------------------------------------------------------------
// Retrying
// ---------------------------------------------------------------------------

/// Seconds before the next attempt: one at first, doubled with each failure, up to a
/// minute.
pub open spec fn delay_after(failures: nat) -> nat
    decreases failures,
{
    if failures <= 1 {
        1
    } else if 2 * delay_after((failures - 1) as nat) > MAX_BACKOFF_SECS {
        MAX_BACKOFF_SECS as nat
    } else {
        2 * delay_after((failures - 1) as nat)
    }
}

proof fn lemma_delay_settles(failures: nat)
    requires
        failures >= 7,
    ensures
        delay_after(failures) == MAX_BACKOFF_SECS,
    decreases failures,
{
    reveal_with_fuel(delay_after, 8);
    if failures > 7 {
        lemma_delay_settles((failures - 1) as nat);
    }
}

pub fn backoff(failures: u32) -> (r: u64)
    ensures
        r == delay_after(failures as nat),
{
    proof {
        reveal_with_fuel(delay_after, 8);
        if failures >= 7 {
            lemma_delay_settles(failures as nat);
        }
    }
    if failures <= 1 {
        1
    } else if failures == 2 {
        2
    } else if failures == 3 {
        4
    } else if failures == 4 {
        8
    } else if failures == 5 {
        16
    } else if failures == 6 {
        32
    } else {
        MAX_BACKOFF_SECS
    }
}

/// The wait never exceeds a minute and never shrinks while attempts keep failing.
pub proof fn law_backoff_grows_up_to_a_minute(failures: nat)
    ensures
        1 <= delay_after(failures) <= MAX_BACKOFF_SECS,
        delay_after(failures) <= delay_after(failures + 1),
    decreases failures,
{
    if failures > 0 {
        law_backoff_grows_up_to_a_minute((failures - 1) as nat);
    }
}

/// What the heartbeat remembers between connections: how many frames it sent, how
/// often it failed in a row, and what it last complained of.
#[derive(Debug)]
pub struct Pusher {
    pub seq: u64,
    pub failures: u32,
    pub reported: Option<String>,
}

/// What to do after a connection ended.
#[derive(Debug)]
pub struct Retry {
    /// Seconds to wait.
    pub delay: u64,
    /// The line to log, unless it would repeat the last one.
    pub complaint: Option<String>,
}

pub open spec fn counted(failures: u32) -> u32 {
    if failures < u32::MAX {
        (failures + 1) as u32
    } else {
        failures
    }
}

pub open spec fn complaint_text(why: Seq<char>, delay: nat) -> Seq<char> {
    why + "; retrying every "@ + dec(delay) + "s"@
}

impl Pusher {
    pub fn new() -> (r: Pusher)
        ensures
            r.seq == 0,
            r.failures == 0,
            r.reported is None,
    {
        Pusher { seq: 0, failures: 0, reported: None }
    }

    /// The number of the next frame. It only grows while this process lives.
    pub fn next_seq(&mut self) -> (r: u64)
        requires
            old(self).seq < u64::MAX,
        ensures
            r == old(self).seq + 1,
            final(self).seq == r,
            final(self).failures == old(self).failures,
            final(self).reported == old(self).reported,
    {
        self.seq = self.seq + 1;
        self.seq
    }

    fn complain(&mut self, why: String, delay: u64) -> (r: Retry)
        ensures
            final(self).seq == old(self).seq,
            final(self).failures == old(self).failures,
            opt_text(final(self).reported) == Some(why@),
            r.delay == delay,
            if opt_text(old(self).reported) == Some(why@) {
                r.complaint is None
            } else {
                opt_text(r.complaint) == Some(complaint_text(why@, delay as nat))
            },
    {
        let repeated: bool = match &self.reported {
            Some(said) => same_text(said.as_str(), why.as_str()),
            None => false,
        };
        let complaint = if repeated {
            None
        } else {
            Some(
                why.clone().concat("; retrying every ").concat(decimal(delay).as_str()).concat("s"),
            )
        };
        self.reported = Some(why);
        Retry { delay, complaint }
    }

    /// A connection ended, or could not be made. Each failure is reported once, not on
    /// every retry, and a link that had worked starts over: so a log read after the
    /// show says when Studio could and could not see the venue. None is to stop.
    pub fn on_ending(&mut self, ending: Ending, gateway_id: &str) -> (r: Option<Retry>)
        ensures
            final(self).seq == old(self).seq,
            match ending {
                Ending::Stopped => r is None && *final(self) == *old(self),
                Ending::Unauthorized => {
                    let why = refusal_text(gateway_id@);
                    &&& r is Some
                    &&& r->0.delay == MAX_BACKOFF_SECS
                    &&& final(self).failures == old(self).failures
                    &&& opt_text(final(self).reported) == Some(why)
                    &&& if opt_text(old(self).reported) == Some(why) {
                        r->0.complaint is None
                    } else {
                        opt_text(r->0.complaint) == Some(
                            complaint_text(why, MAX_BACKOFF_SECS as nat),
                        )
                    }
                },
                Ending::Dropped { was_connected } => {
                    let why = "the heartbeat socket to Open Live closed"@;
                    let failures = if was_connected {
                        1u32
                    } else {
                        counted(old(self).failures)
                    };
                    &&& r is Some
                    &&& r->0.delay == delay_after(failures as nat)
                    &&& final(self).failures == failures
                    &&& opt_text(final(self).reported) == Some(why)
                    &&& if !was_connected && opt_text(old(self).reported) == Some(why) {
                        r->0.complaint is None
                    } else {
                        opt_text(r->0.complaint) == Some(complaint_text(why, r->0.delay as nat))
                    }
                },
            },
    {
        match ending {
            Ending::Stopped => None,
            Ending::Unauthorized => {
                let why = "Open Live refused the token for gateway ".to_owned().concat(
                    gateway_id,
                ).concat(
                    "; check open_live.gateway_id and open_live.gateway_token, or rotate the token",
                );
                Some(self.complain(why, MAX_BACKOFF_SECS))
            },
            Ending::Dropped { was_connected } => {
                if was_connected {
                    self.failures = 0;
                    self.reported = None;
                }
                if self.failures < u32::MAX {
                    self.failures = self.failures + 1;
                }
                let delay: u64 = backoff(self.failures);
                Some(self.complain("the heartbeat socket to Open Live closed".to_owned(), delay))
            },
        }
    }

    /// A connection failed with an error.
    pub fn on_error(&mut self, error: &str) -> (r: Retry)
        ensures
            final(self).seq == old(self).seq,
            final(self).failures == counted(old(self).failures),
            r.delay == delay_after(counted(old(self).failures) as nat),
            ({
                let why = "could not push status to Open Live: "@ + error@;
                &&& opt_text(final(self).reported) == Some(why)
                &&& if opt_text(old(self).reported) == Some(why) {
                    r.complaint is None
                } else {
                    opt_text(r.complaint) == Some(complaint_text(why, r.delay as nat))
                }
            }),
    {
        if self.failures < u32::MAX {
            self.failures = self.failures + 1;
        }
        let delay: u64 = backoff(self.failures);
        self.complain("could not push status to Open Live: ".to_owned().concat(error), delay)
    }
}

// ---------------------------------------------------------------------------
// Timestamps
// ---------------------------------------------------------------------------

pub open spec fn is_leap(year: int) -> bool {
    year % 4 == 0 && (year % 100 != 0 || year % 400 == 0)
}

pub open spec fn month_length(year: int, month: int) -> int {
    if month == 2 {
        if is_leap(year) {
            29
        } else {
            28
        }
    } else if month == 4 || month == 6 || month == 9 || month == 11 {
        30
    } else {
        31
    }
}

/// Days of a year before the first of a month.
pub open spec fn days_before_month(year: int, month: int) -> int
    decreases month,
{
    if month <= 1 {
        0
    } else {
        days_before_month(year, month - 1) + month_length(year, month - 1)
    }
}

/// Days from 1970-01-01 to a date of the Gregorian calendar, extended backwards: the
/// days of the years before, a leap day for each leap year among them, the days of the
/// months before, and the days of the month before.
pub open spec fn day_number(year: int, month: int, day: int) -> int {
    365 * year + (year - 1) / 4 - (year - 1) / 100 + (year - 1) / 400 + days_before_month(
        year,
        month,
    ) + day - 1 - 719_527
}

pub open spec fn is_date(year: int, month: int, day: int) -> bool {
    1 <= month <= 12 && 1 <= day <= month_length(year, month)
}

proof fn lemma_months(year: int)
    ensures
        days_before_month(year, 1) == 0,
        days_before_month(year, 2) == 31,
        ({
            let l: int = if is_leap(year) {
                1
            } else {
                0
            };
            &&& days_before_month(year, 3) == 59 + l
            &&& days_before_month(year, 4) == 90 + l
            &&& days_before_month(year, 5) == 120 + l
            &&& days_before_month(year, 6) == 151 + l
            &&& days_before_month(year, 7) == 181 + l
            &&& days_before_month(year, 8) == 212 + l
            &&& days_before_month(year, 9) == 243 + l
            &&& days_before_month(year, 10) == 273 + l
            &&& days_before_month(year, 11) == 304 + l
            &&& days_before_month(year, 12) == 334 + l
        }),
{
    reveal_with_fuel(days_before_month, 13);
}

/// A year of the calendar that begins in March, by its place in a cycle of 400 years.
proof fn lemma_leap_days(era: int, yoe: int)
    requires
        0 <= yoe < 400,
    ensures
        ({
            let y = era * 400 + yoe;
            let l: int = if is_leap(y) {
                1
            } else {
                0
            };
            &&& (y - 1) / 4 - (y - 1) / 100 + (y - 1) / 400 + l == era * 97 + yoe / 4 - yoe / 100
        }),
{
    let y = era * 400 + yoe;
    assert(y / 4 == era * 100 + yoe / 4);
    assert(y / 100 == era * 4 + yoe / 100);
    assert(y / 400 == era);
    assert((y - 1) / 4 == y / 4 - if y % 4 == 0 {
        1int
    } else {
        0int
    });
    assert((y - 1) / 100 == y / 100 - if y % 100 == 0 {
        1int
    } else {
        0int
    });
    assert((y - 1) / 400 == y / 400 - if y % 400 == 0 {
        1int
    } else {
        0int
    });
    assert(y % 400 == 0 ==> y % 100 == 0);
    assert(y % 100 == 0 ==> y % 4 == 0);
}

/// A day of the cycle of 400 years that begins in March, as a year of the cycle and a
/// day of that year. The leap day is the last of its year, so it is day 365 of every
/// fourth year but for three of the four last ones of a century.
fn year_of_cycle(doe: i64) -> (r: (i64, i64))
    requires
        0 <= doe < 146_097,
    ensures
        0 <= r.0 < 400,
        0 <= r.1 <= 365,
        doe == 365 * r.0 + r.0 / 4 - r.0 / 100 + r.1,
        r.1 == 365 ==> (r.0 + 1) % 4 == 0 && ((r.0 + 1) % 100 != 0 || (r.0 + 1) % 400 == 0),
{
    let century: i64 = if doe / 36_524 == 4 {
        3
    } else {
        doe / 36_524
    };
    let doc: i64 = doe - century * 36_524;
    assert(0 <= century <= 3 && 0 <= doc <= 36_524);
    assert(doc == 36_524 ==> century == 3);
    let quad: i64 = doc / 1_461;
    let doq: i64 = doc - quad * 1_461;
    assert(0 <= quad <= 24 && 0 <= doq < 1_461);
    assert(quad == 24 && doq == 1_460 ==> doc == 36_524);
    let year: i64 = if doq / 365 == 4 {
        3
    } else {
        doq / 365
    };
    let doy: i64 = doq - year * 365;
    assert(0 <= year <= 3 && 0 <= doy <= 365);
    assert(doy == 365 ==> year == 3 && doq == 1_460);
    let yoe: i64 = century * 100 + quad * 4 + year;
    assert(yoe / 4 == century * 25 + quad);
    assert(yoe / 100 == century);
    if doy == 365 {
        assert(yoe + 1 == 4 * (century * 25 + quad + 1));
        if quad == 24 {
            assert(yoe + 1 == 400);
        } else {
            assert((yoe + 1) % 100 == 4 * (quad + 1));
        }
    }
    (yoe, doy)
}

/// A day of a year that begins in March, as a month counted from March and a day of it.
fn month_of_year(doy: i64) -> (r: (i64, i64))
    requires
        0 <= doy <= 365,
    ensures
        0 <= r.0 <= 11,
        1 <= r.1,
        doy == days_from_march(r.0 as int) + r.1 - 1,
        r.1 <= march_month_length(r.0 as int),
        r.0 == 11 && r.1 == 29 ==> doy == 365,
{
    let mp: i64 = (5 * doy + 2) / 153;
    let day: i64 = doy - (153 * mp + 2) / 5 + 1;
    assert(0 <= mp <= 11);
    assert((153 * mp + 2) / 5 == days_from_march(mp as int));
    (mp, day)
}

/// Days from the first of March to the first of the month so many months later.
pub open spec fn days_from_march(m: int) -> int {
    if m == 0 {
        0
    } else if m == 1 {
        31
    } else if m == 2 {
        61
    } else if m == 3 {
        92
    } else if m == 4 {
        122
    } else if m == 5 {
        153
    } else if m == 6 {
        184
    } else if m == 7 {
        214
    } else if m == 8 {
        245
    } else if m == 9 {
        275
    } else if m == 10 {
        306
    } else {
        337
    }
}

/// The length of a month counted from March; February at its longest.
pub open spec fn march_month_length(m: int) -> int {
    if m == 11 {
        29
    } else if m == 1 || m == 3 || m == 6 || m == 8 {
        30
    } else {
        31
    }
}

/// The calendar date of a day of a year that begins in March.
proof fn lemma_calendar_date(era: int, yoe: int, doy: int, m: int, day: int)
    requires
        0 <= yoe < 400,
        0 <= m <= 11,
        1 <= day <= march_month_length(m),
        doy == days_from_march(m) + day - 1,
        m == 11 && day == 29 ==> is_leap(yoe + 1),
    ensures
        ({
            let march_year = era * 400 + yoe;
            let year = if m < 10 {
                march_year
            } else {
                march_year + 1
            };
            let month = if m < 10 {
                m + 3
            } else {
                m - 9
            };
            &&& is_date(year, month, day)
            &&& day_number(year, month, day) == era * 146_097 + 365 * yoe + yoe / 4 - yoe / 100
                + doy - 719_468
        }),
{
    let march_year = era * 400 + yoe;
    if m < 10 {
        lemma_leap_days(era, yoe);
        lemma_months(march_year);
    } else {
        lemma_leap_before(era, yoe);
        lemma_months(march_year + 1);
        lemma_leap_cycle(era, yoe + 1);
    }
}

/// Whether a year is a leap year depends on its place in a cycle of 400 years only.
proof fn lemma_leap_cycle(era: int, n: int)
    ensures
        is_leap(era * 400 + n) == is_leap(n),
{
    let y = era * 400 + n;
    vstd::arithmetic::div_mod::lemma_mod_multiples_vanish(era * 100, n, 4);
    vstd::arithmetic::div_mod::lemma_mod_multiples_vanish(era * 4, n, 100);
    vstd::arithmetic::div_mod::lemma_mod_multiples_vanish(era, n, 400);
    assert(4 * (era * 100) + n == y);
    assert(100 * (era * 4) + n == y);
    assert(400 * era + n == y);
}

/// Days since 1970-01-01 to a date: the one date with that day number.
pub fn civil_from_days(days: i64) -> (r: (i64, u32, u32))
    requires
        days <= i64::MAX - 719_468,
    ensures
        is_date(r.0 as int, r.1 as int, r.2 as int),
        day_number(r.0 as int, r.1 as int, r.2 as int) == days,
{
    // Counted from 0000-03-01: a cycle of 400 years has 146097 days.
    let z: i64 = days + 719_468;
    let era: i64 = if z >= 0 {
        z / 146_097
    } else {
        -((-(z + 1)) / 146_097) - 1
    };
    let doe: i64 = z - era * 146_097;
    let (yoe, doy): (i64, i64) = year_of_cycle(doe);
    let (m, day): (i64, i64) = month_of_year(doy);
    proof {
        lemma_calendar_date(era as int, yoe as int, doy as int, m as int, day as int);
    }
    let march_year: i64 = yoe + era * 400;
    if m < 10 {
        (march_year, (m + 3) as u32, day as u32)
    } else {
        (march_year + 1, (m - 9) as u32, day as u32)
    }
}

/// The leap days up to and including a year, by its place in a cycle.
proof fn lemma_leap_before(era: int, yoe: int)
    requires
        0 <= yoe < 400,
    ensures
        (era * 400 + yoe) / 4 - (era * 400 + yoe) / 100 + (era * 400 + yoe) / 400 == era * 97 + yoe
            / 4 - yoe / 100,
{
    let y = era * 400 + yoe;
    assert(y / 4 == era * 100 + yoe / 4);
    assert(y / 100 == era * 4 + yoe / 100);
    assert(y / 400 == era);
}

/// A number with zeros in front up to a width.
pub open spec fn zero_padded(n: nat, width: nat) -> Seq<char> {
    Seq::new(
        if dec(n).len() < width {
            (width - dec(n).len()) as nat
        } else {
            0
        },
        |i: int| '0',
    ) + dec(n)
}

fn zeros(n: u64, width: usize) -> (r: String)
    ensures
        r@ == zero_padded(n as nat, width as nat),
{
    let digits = decimal(n);
    let len: usize = digits.as_str().unicode_len();
    let mut out = String::new();
    let mut have: usize = len;
    while have < width
        invariant
            have >= len,
            have <= width || have == len,
            out@ == Seq::new((have - len) as nat, |i: int| '0'),
        decreases width - have,
    {
        out.push('0');
        have = have + 1;
        assert(out@ =~= Seq::new((have - len) as nat, |i: int| '0'));
    }
    out.concat(digits.as_str())
}

/// ISO 8601 UTC with milliseconds, for a day of the calendar and a time of that day.
pub open spec fn timestamp(year: int, month: int, day: int, second_of_day: int, millis: int) -> Seq<
    char,
> {
    zero_padded(year as nat, 4) + "-"@ + zero_padded(month as nat, 2) + "-"@ + zero_padded(
        day as nat,
        2,
    ) + "T"@ + zero_padded((second_of_day / 3600) as nat, 2) + ":"@ + zero_padded(
        (second_of_day % 3600 / 60) as nat,
        2,
    ) + ":"@ + zero_padded((second_of_day % 60) as nat, 2) + "."@ + zero_padded(millis as nat, 3)
        + "Z"@
}

/// ISO 8601 UTC with milliseconds, as the envelope wants, for a time since 1970.
pub fn iso8601(secs: u64, millis: u32) -> (r: String)
    requires
        millis < 1000,
    ensures
        exists|year: int, month: int, day: int|
            is_date(year, month, day) && day_number(year, month, day) == secs as int / 86_400
                && r@ == #[trigger] timestamp(year, month, day, secs as int % 86_400, millis as int),
{
    let days: u64 = secs / 86_400;
    let (year, month, day): (i64, u32, u32) = civil_from_days(days as i64);
    proof {
        lemma_after_epoch(year as int, month as int, day as int);
    }
    let of_day: u64 = secs % 86_400;
    let r = zeros(year as u64, 4).concat("-").concat(zeros(month as u64, 2).as_str()).concat(
        "-",
    ).concat(zeros(day as u64, 2).as_str()).concat("T").concat(
        zeros(of_day / 3600, 2).as_str(),
    ).concat(":").concat(zeros(of_day % 3600 / 60, 2).as_str()).concat(":").concat(
        zeros(of_day % 60, 2).as_str(),
    ).concat(".").concat(zeros(millis as u64, 3).as_str()).concat("Z");
    assert(r@ == timestamp(
        year as int,
        month as int,
        day as int,
        secs as int % 86_400,
        millis as int,
    ));
    r
}

/// A date on or after the first day counted lies in no year before zero.
proof fn lemma_after_epoch(year: int, month: int, day: int)
    requires
        is_date(year, month, day),
        day_number(year, month, day) >= 0,
    ensures
        year >= 0,
{
    lemma_months(year);
    if year < 0 {
        assert((year - 1) / 4 - (year - 1) / 100 + (year - 1) / 400 <= 0);
    }
}

/// A date comes before another exactly where its day number is smaller, so a day has
/// one date and a date one day.
pub proof fn law_a_day_has_one_date(
    y1: int,
    m1: int,
    d1: int,
    y2: int,
    m2: int,
    d2: int,
)
    requires
        is_date(y1, m1, d1),
        is_date(y2, m2, d2),
        day_number(y1, m1, d1) == day_number(y2, m2, d2),
    ensures
        y1 == y2 && m1 == m2 && d1 == d2,
{
    lemma_months(y1);
    lemma_months(y2);
    if y1 < y2 {
        lemma_year_start(y1, y2);
    } else if y2 < y1 {
        lemma_year_start(y2, y1);
    }
}

/// A quotient grows by one exactly where the divisor divides.
proof fn lemma_one_more_multiple(a: int, d: int)
    requires
        d == 4 || d == 100 || d == 400,
    ensures
        a / d == (a - 1) / d + (if a % d == 0 {
            1int
        } else {
            0
        }),
{
}

proof fn lemma_leaps(a: int)
    ensures
        a / 4 - a / 100 + a / 400 == (a - 1) / 4 - (a - 1) / 100 + (a - 1) / 400 + (if is_leap(a) {
            1int
        } else {
            0int
        }),
{
    lemma_one_more_multiple(a, 4);
    lemma_one_more_multiple(a, 100);
    lemma_one_more_multiple(a, 400);
    lemma_multiples_nest(a);
    lemma_leaps_add_up(
        (a / 4, (a - 1) / 4),
        (a / 100, (a - 1) / 100),
        (a / 400, (a - 1) / 400),
        a % 4 == 0,
        a % 100 == 0,
        a % 400 == 0,
    );
}

proof fn lemma_multiples_nest(a: int)
    ensures
        a % 400 == 0 ==> a % 100 == 0,
        a % 100 == 0 ==> a % 4 == 0,
{
}

proof fn lemma_leaps_add_up(
    four: (int, int),
    hundred: (int, int),
    four_hundred: (int, int),
    by_4: bool,
    by_100: bool,
    by_400: bool,
)
    requires
        four.0 == four.1 + (if by_4 {
            1int
        } else {
            0
        }),
        hundred.0 == hundred.1 + (if by_100 {
            1int
        } else {
            0
        }),
        four_hundred.0 == four_hundred.1 + (if by_400 {
            1int
        } else {
            0
        }),
        by_400 ==> by_100,
        by_100 ==> by_4,
    ensures
        four.0 - hundred.0 + four_hundred.0 == four.1 - hundred.1 + four_hundred.1 + (if by_4 && (
        !by_100 || by_400) {
            1int
        } else {
            0
        }),
{
}

/// A later year starts after the last day of an earlier one.
proof fn lemma_year_start(a: int, b: int)
    requires
        a < b,
    ensures
        365 * a + (a - 1) / 4 - (a - 1) / 100 + (a - 1) / 400 + 365 + (if is_leap(a) {
            1int
        } else {
            0int
        }) <= 365 * b + (b - 1) / 4 - (b - 1) / 100 + (b - 1) / 400,
    decreases b - a,
{
    lemma_leaps(a);
    assert((a + 1) - 1 == a);
    if a + 1 < b {
        lemma_year_start(a + 1, b);
    }
}

// ---------------------------------------------------------------------------
// What the heartbeat goes by
// ---------------------------------------------------------------------------

/// The socket is on the host of the web address: a secure address has a secure socket
/// and a plain one a plain socket, and no other address has one. White space around the
/// address and slashes at its end make no difference.
pub proof fn law_the_socket_is_on_the_same_host(host: Seq<char>, other: Seq<char>)
    ensures
        websocket_base("https://"@ + host) == Some("wss://"@ + host),
        websocket_base("http://"@ + host) == Some("ws://"@ + host),
        !"https://"@.is_prefix_of(other) && !"http://"@.is_prefix_of(other) ==> websocket_base(
            other,
        ) is None,
        bare(host).len() > 0 ==> bare(host).last() != '/',
{
    reveal_strlit("https://");
    reveal_strlit("http://");
    let s = "https://"@ + host;
    let p = "http://"@ + host;
    assert(s.subrange(0, 8) =~= "https://"@);
    assert(s.subrange(8, s.len() as int) =~= host);
    assert(p.subrange(0, 7) =~= "http://"@);
    assert(p.subrange(7, p.len() as int) =~= host);
    if "https://"@.is_prefix_of(p) {
        assert(p.subrange(0, 8)[4] == p[4]);
        assert("https://"@[4] == 's' && p[4] == ':');
    }
    law_trailing_marks_come_off(trimmed(host), '/');
}

/// A gateway's id is one that stands in a path as it is: letters, digits, dashes and
/// underscores.
pub proof fn law_an_id_stands_in_a_path_as_it_is(id: Seq<char>)
    ensures
        id_ok(id) <==> forall|i: int|
            0 <= i < id.len() ==> 'a' <= #[trigger] id[i] <= 'z' || 'A' <= id[i] <= 'Z' || '0'
                <= id[i] <= '9' || id[i] == '-' || id[i] == '_',
{
    if id_ok(id) {
        assert forall|i: int| 0 <= i < id.len() implies 'a' <= #[trigger] id[i] <= 'z' || 'A'
            <= id[i] <= 'Z' || '0' <= id[i] <= '9' || id[i] == '-' || id[i] == '_' by {
            assert(id_char_ok(id[i]));
        }
    }
}

/// An interval of whole seconds is taken as it is asked for, up to a minute; none, zero
/// and a negative one leave it at five seconds.
pub proof fn law_an_interval_is_taken_as_asked(n: u64, m: i64)
    ensures
        1 <= n <= 60 ==> interval_of(Some(Number::PosInt(n))) == n * 1_000_000_000,
        n > 60 ==> interval_of(Some(Number::PosInt(n))) == 60_000_000_000,
        interval_of(Some(Number::PosInt(0))) == 5_000_000_000,
        interval_of(Some(Number::NegInt(m))) == 5_000_000_000,
        interval_of(None) == 5_000_000_000,
{
}

/// An interval with a fraction, between one second and sixty, is taken to the nearest
/// nanosecond; a shorter one is one second, a longer one a minute, and what is no
/// positive number leaves it at five. The value of a double is its mantissa over a power
/// of two that halves with each step of its exponent.
pub proof fn law_a_fraction_is_taken_to_the_nanosecond(bits: u64)
    ensures
        bits == 0 || bits >= 0x7FF0_0000_0000_0000 ==> interval_of(Some(Number::Float(bits)))
            == 5_000_000_000,
        0 < bits <= 0x3FF0_0000_0000_0000 ==> interval_of(Some(Number::Float(bits)))
            == 1_000_000_000,
        0x404E_0000_0000_0000 <= bits < 0x7FF0_0000_0000_0000 ==> interval_of(
            Some(Number::Float(bits)),
        ) == 60_000_000_000,
        0x3FF0_0000_0000_0000 < bits < 0x404E_0000_0000_0000 ==> {
            let exponent = bits as int / 0x10_0000_0000_0000 - 1023;
            let mantissa = 0x10_0000_0000_0000 + bits as int % 0x10_0000_0000_0000;
            let r = interval_of(Some(Number::Float(bits))) as int;
            &&& 0 <= exponent <= 5
            &&& -scale_of(exponent) <= 2 * (r * scale_of(exponent) - mantissa * 1_000_000_000)
                <= scale_of(exponent)
        },
        scale_of(0) == 0x10_0000_0000_0000,
        forall|e: int| 0 <= e < 5 ==> #[trigger] scale_of(e) == 2 * scale_of(e + 1),
{
    assert forall|e: int| 0 <= e < 5 implies #[trigger] scale_of(e) == 2 * scale_of(e + 1) by {}
    if 0x3FF0_0000_0000_0000 < bits < 0x404E_0000_0000_0000 {
        let exponent = bits as int / 0x10_0000_0000_0000 - 1023;
        let mantissa = 0x10_0000_0000_0000 + bits as int % 0x10_0000_0000_0000;
        law_the_interval_stays_within_bounds(Some(Number::Float(bits)));
        lemma_nanos_fit(bits);
        law_the_nearest_is_at_most_half_away(mantissa * 1_000_000_000, scale_of(exponent));
    }
}

proof fn lemma_nanos_fit(bits: u64)
    requires
        0x3FF0_0000_0000_0000 < bits < 0x404E_0000_0000_0000,
    ensures
        0 <= double_nanos(bits) <= u64::MAX,
{
    let exponent = bits as int / 0x10_0000_0000_0000 - 1023;
    let mantissa = 0x10_0000_0000_0000 + bits as int % 0x10_0000_0000_0000;
    let n = mantissa * 1_000_000_000;
    let d = scale_of(exponent);
    law_the_nearest_is_at_most_half_away(n, d);
    let r = double_nanos(bits);
    assert(0x20_0000_0000_0000 >= mantissa);
    assert(r * d <= n + d);
    assert(r <= u64::MAX) by (nonlinear_arith)
        requires
            r * d <= n + d,
            d >= 0x8000_0000_0000,
            n <= 0x20_0000_0000_0000 * 1_000_000_000,
    ;
    assert(r >= 0) by (nonlinear_arith)
        requires
            2 * (r * d - n) >= -d,
            d >= 0x8000_0000_0000,
            n >= 0x10_0000_0000_0000 * 1_000_000_000,
    ;
}

/// A frame is known by its type: a greeting brings its interval, an error its code, with
/// the one for a refused token apart, and every other frame is ignored.
pub proof fn law_a_frame_is_known_by_its_type(doc: JsonView, code: Seq<char>, n: Number)
    ensures
        text_of(member(doc, "type"@)) == Some("HELLO"@) && member(
            doc,
            "heartbeatIntervalSeconds"@,
        ) == Some(JsonView::Number(n)) ==> frame_meaning(doc) == InboundView::Hello(
            interval_of(Some(n)),
        ),
        text_of(member(doc, "type"@)) == Some("HELLO"@) && member(
            doc,
            "heartbeatIntervalSeconds"@,
        ) is None ==> frame_meaning(doc) == InboundView::Hello(5_000_000_000),
        text_of(member(doc, "type"@)) == Some("ERROR"@) && text_of(member(doc, "code"@)) == Some(
            code,
        ) ==> frame_meaning(doc) == (if code == "unauthorized"@ {
            InboundView::Unauthorized
        } else {
            InboundView::Rejected(code)
        }),
        text_of(member(doc, "type"@)) == Some("ERROR"@) && text_of(member(doc, "code"@)) is None
            ==> frame_meaning(doc) == InboundView::Rejected("unknown"@),
        text_of(member(doc, "type"@)) != Some("HELLO"@) && text_of(member(doc, "type"@)) != Some(
            "ERROR"@,
        ) ==> frame_meaning(doc) == InboundView::Ignore,
{
    reveal_strlit("HELLO");
    reveal_strlit("ERROR");
    assert("HELLO"@[0] == 'H' && "ERROR"@[0] == 'E');
}

/// A socket that closes is closed, unless the code says that the token was refused. What
/// is no text, or no document, is ignored.
pub proof fn law_a_close_tells_a_refusal_by_its_code(code: Option<u16>, text: String)
    ensures
        message_meaning(Message::Close(Some(4401))) == InboundView::Unauthorized,
        code != Some(4401u16) ==> message_meaning(Message::Close(code)) == InboundView::Closed,
        message_meaning(Message::Other) == InboundView::Ignore,
        parsed_json(text@) is None ==> message_meaning(Message::Text(text)) == InboundView::Ignore,
        parsed_json(text@) is Some ==> message_meaning(Message::Text(text)) == frame_meaning(
            parsed_json(text@)->0,
        ),
{
}

/// The delay is one second after the first failure, twice as long after each further
/// one, and a minute once doubling would pass it.
pub proof fn law_the_delay_doubles_up_to_a_minute(failures: nat)
    ensures
        delay_after(0) == 1 && delay_after(1) == 1,
        failures >= 1 ==> delay_after(failures + 1) == (if 2 * delay_after(failures) <= 60 {
            2 * delay_after(failures)
        } else {
            60
        }),
        failures >= 7 ==> delay_after(failures) == 60,
{
    if failures >= 7 {
        lemma_delay_settles(failures);
    }
}

/// The calendar: the first of January 1970 is day zero, each day is one on from the day
/// before, each month begins where the one before it ended, and each year where December
/// did. February has 29 days in the years that four divides, unless a hundred does and
/// four hundred does not.
pub proof fn law_days_follow_one_another(year: int, month: int, day: int)
    ensures
        day_number(1970, 1, 1) == 0,
        day_number(year, month, day + 1) == day_number(year, month, day) + 1,
        1 <= month ==> day_number(year, month + 1, 1) == day_number(
            year,
            month,
            month_length(year, month),
        ) + 1,
        day_number(year + 1, 1, 1) == day_number(year, 12, 31) + 1,
        month_length(year, 2) == (if year % 400 == 0 || (year % 4 == 0 && year % 100 != 0) {
            29int
        } else {
            28
        }),
        month == 4 || month == 6 || month == 9 || month == 11 ==> month_length(year, month) == 30,
        month == 1 || month == 3 || month == 5 || month == 7 || month == 8 || month == 10 || month
            == 12 ==> month_length(year, month) == 31,
{
    reveal_with_fuel(days_before_month, 13);
    assert(days_before_month(year, 12) + 31 == if is_leap(year) {
        366int
    } else {
        365
    });
    lemma_leaps(year);
    lemma_multiples_nest(year);
}

/// A time is written with its parts in their order, each filled up with zeros to its own
/// width: hours and minutes are what the seconds of the day make.
pub proof fn law_a_time_is_written_part_by_part(
    year: int,
    month: int,
    day: int,
    hour: int,
    minute: int,
    second: int,
    millis: int,
)
    requires
        1970 <= year <= 9999,
        is_date(year, month, day),
        0 <= hour < 24,
        0 <= minute < 60,
        0 <= second < 60,
        0 <= millis < 1000,
    ensures
        timestamp(year, month, day, 3600 * hour + 60 * minute + second, millis) == zero_padded(
            year as nat,
            4,
        ) + "-"@ + zero_padded(month as nat, 2) + "-"@ + zero_padded(day as nat, 2) + "T"@
            + zero_padded(hour as nat, 2) + ":"@ + zero_padded(minute as nat, 2) + ":"@
            + zero_padded(second as nat, 2) + "."@ + zero_padded(millis as nat, 3) + "Z"@,
{
    let t = 3600 * hour + 60 * minute + second;
    assert(t / 3600 == hour);
    assert(t % 3600 == 60 * minute + second);
    assert(t % 3600 / 60 == minute);
    assert(t % 60 == second);
}

/// Zeros in front fill a number up to its width and leave its digits as they are.
pub proof fn law_zeros_fill_up_to_the_width(n: nat, width: nat, i: int)
    ensures
        dec(n).len() <= width ==> zero_padded(n, width).len() == width,
        dec(n).is_suffix_of(zero_padded(n, width)),
        0 <= i < zero_padded(n, width).len() - dec(n).len() ==> zero_padded(n, width)[i] == '0',
{
    let z = zero_padded(n, width);
    assert(z.subrange(z.len() - dec(n).len(), z.len() as int) =~= dec(n));
}

/// A failure is counted one on, and the count stops at the highest number there is.
pub proof fn law_a_failure_is_counted_one_on(failures: u32)
    ensures
        failures < u32::MAX ==> counted(failures) == failures + 1,
        counted(u32::MAX) == u32::MAX,
{
}

/// A complaint says why, and how long it waits between attempts.
pub proof fn law_a_complaint_says_why_and_how_long(why: Seq<char>, delay: nat)
    ensures
        complaint_text(why, delay) == why + "; retrying every "@ + dec(delay) + "s"@,
{
}

/// What is printed of a target names the socket and the gateway, and stars in place of
/// the token.
pub proof fn law_a_target_is_printed_without_its_token(t: Target)
    ensures
        t.printed_form() == "Target { socket_url: "@ + quoted_text(t.socket_url@)
            + ", gateway_id: "@ + quoted_text(t.gateway_id@) + ", token: \"***\" }"@,
{
}

} // verus!
