//! What the gateway says to the Open Live `/api/v1` API, what it makes of the answers,
//! and the two ways of authenticating against it.
//!
//! The credential must never reach the logs: errors are built from status codes, and
//! request bodies are never dumped because the source address carries the passphrase.

use crate::config::{
    law_masking_twice_is_masking_once, mask_passphrase, masked, parse_port_range, parsed_range,
    AuthMode, Endpoint, PortRange, UplinkMode,
};
use crate::osc::{exchanged_token, token_in_use};
use crate::text::{
    after_prefix, blank, char_from, copy_opt, dec, is_blank, law_a_mark_parts_the_pieces,
    law_a_notation_names_one_number, law_a_number_is_read_up_to_the_limit,
    law_a_text_is_cut_at_the_first_mark, lemma_char_from, nonempty, opt_text, parse_number,
    parsed_number,
    same_text, split, split_all, split_at_first, split_once, strip_prefix, strip_trailing, texts,
    visible, without_trailing,
};
use vstd::prelude::*;

verus! {

/// Seconds before expiry at which a token is renewed, so that one never dies
/// mid-request.
pub const REFRESH_BUFFER_SECS: u64 = 300;

pub const TOKEN_EXCHANGE_URL: &'static str = "https://token.svc.prod.osaas.io/servicetoken";

pub const OPEN_LIVE_SERVICE_ID: &'static str = "eyevinn-open-live";

// ---------------------------------------------------------------------------
// Sources
// ---------------------------------------------------------------------------

/// A source as the gateway wants it.
#[derive(Clone, Debug)]
pub struct SourcePayload {
    pub name: String,
    /// The address the cloud Strom's input block gets.
    pub address: String,
    pub stream_type: String,
    /// `active` means "safe to assign to a production". A source assigned while its
    /// feed never arrives stops the cloud flow from reaching playing at all, so this
    /// has to mean the uplink is delivering, not merely that the flow runs.
    pub status: String,
    /// SRT receiver latency in ms. Open Live takes the maximum across a production's
    /// sources when generating the flow.
    pub latency: u32,
    pub live_camera: bool,
}

pub open spec fn status_word(active: bool) -> Seq<char> {
    if active {
        "active"@
    } else {
        "inactive"@
    }
}

impl SourcePayload {
    /// What is sent for an input.
    pub open spec fn describes(
        &self,
        name: Seq<char>,
        address: Seq<char>,
        active: bool,
        latency: u32,
    ) -> bool {
        &&& self.name@ == name
        &&& self.address@ == address
        &&& self.stream_type@ == "srt"@
        &&& self.status@ == status_word(active)
        &&& self.latency == latency
        &&& self.live_camera
    }

    pub fn new(name: &str, address: &str, active: bool, latency: u32) -> (r: SourcePayload)
        ensures
            r.describes(name@, address@, active, latency),
    {
        SourcePayload {
            name: name.to_owned(),
            address: address.to_owned(),
            stream_type: "srt".to_owned(),
            status: if active {
                "active".to_owned()
            } else {
                "inactive".to_owned()
            },
            latency,
            live_camera: true,
        }
    }
}

/// A source as Open Live stores it.
#[derive(Debug)]
pub struct Source {
    pub id: String,
    pub name: String,
    /// Returned with any passphrase masked, which is why the gateway never reads the
    /// passphrase back and compares addresses masked.
    pub address: String,
    pub stream_type: String,
    pub status: String,
    pub latency: Option<u32>,
}

impl Clone for Source {
    fn clone(&self) -> (r: Self)
        ensures
            r == *self,
    {
        Source {
            id: self.id.clone(),
            name: self.name.clone(),
            address: self.address.clone(),
            stream_type: self.stream_type.clone(),
            status: self.status.clone(),
            latency: self.latency,
        }
    }
}

/// A stored source differs from the wanted one in something the gateway owns. A
/// latency that is not reported is no difference: an older Open Live lacks the field.
pub open spec fn differs_from(stored: Source, desired: SourcePayload) -> bool {
    ||| stored.name@ != desired.name@
    ||| stored.stream_type@ != desired.stream_type@
    ||| stored.status@ != desired.status@
    ||| stored.latency is Some && stored.latency->0 != desired.latency
    ||| masked(stored.address@) != masked(desired.address@)
}

/// The same, for what an input would be registered with.
pub open spec fn out_of_step(
    stored: Source,
    name: Seq<char>,
    address: Seq<char>,
    active: bool,
    latency: u32,
) -> bool {
    ||| stored.name@ != name
    ||| stored.stream_type@ != "srt"@
    ||| stored.status@ != status_word(active)
    ||| stored.latency is Some && stored.latency->0 != latency
    ||| masked(stored.address@) != masked(address)
}

/// Whether a stored source needs a PATCH to match what the gateway wants. Only what
/// differs is written: Open Live keeps a CouchDB revision per write, so a needless
/// PATCH every tick would add thousands of revisions a day per source.
pub fn drifted(stored: &Source, desired: &SourcePayload) -> (r: bool)
    ensures
        r == differs_from(*stored, *desired),
{
    if stored.name != desired.name || stored.stream_type != desired.stream_type || stored.status
        != desired.status {
        return true;
    }
    if let Some(latency) = stored.latency {
        if latency != desired.latency {
            return true;
        }
    }
    mask_passphrase(stored.address.as_str()) != mask_passphrase(desired.address.as_str())
}

/// What Open Live hands back of a source it was given: the same source under an id,
/// with the passphrase masked, and on an older version without its latency.
pub open spec fn read_back(stored: Source, written: SourcePayload) -> bool {
    &&& stored.name@ == written.name@
    &&& stored.stream_type@ == written.stream_type@
    &&& stored.status@ == written.status@
    &&& stored.address@ == masked(written.address@)
    &&& stored.latency is None || stored.latency == Some(written.latency)
}

/// A source that was written and is read back, masked, needs no further write: an
/// unchanged feed costs no revision.
pub proof fn law_a_source_read_back_has_not_drifted(stored: Source, written: SourcePayload)
    requires
        read_back(stored, written),
    ensures
        !differs_from(stored, written),
{
    law_masking_twice_is_masking_once(written.address@);
}

/// What was written for an input and is read back needs no second write.
pub proof fn law_a_written_source_is_in_step(
    stored: Source,
    written: SourcePayload,
    name: Seq<char>,
    address: Seq<char>,
    active: bool,
    latency: u32,
)
    requires
        written.describes(name, address, active, latency),
        read_back(stored, written),
    ensures
        !out_of_step(stored, name, address, active, latency),
{
    law_masking_twice_is_masking_once(address);
}

/// A change of the port, the status, or a reported latency is always noticed.
pub proof fn law_a_visible_change_is_drift(
    stored: Source,
    written: SourcePayload,
    desired: SourcePayload,
)
    requires
        read_back(stored, written),
        ({
            ||| desired.status@ != written.status@
            ||| masked(desired.address@) != masked(written.address@)
            ||| stored.latency is Some && desired.latency != written.latency
        }),
    ensures
        differs_from(stored, desired),
{
    law_masking_twice_is_masking_once(written.address@);
}

// ---------------------------------------------------------------------------
// Ports
// ---------------------------------------------------------------------------

pub open spec fn names_listener_mode(query: Seq<char>) -> bool {
    exists|i: int|
        0 <= i < split_all(query, '&').len() && #[trigger] split_all(query, '&')[i]
            == "mode=listener"@
}

/// The port an address binds, where it binds one: an SRT address without a host, a port
/// above zero, and `mode=listener` among its parameters.
pub open spec fn bound_port(address: Seq<char>) -> Option<u16> {
    match after_prefix(address, "srt://:"@) {
        None => None,
        Some(rest) => match split_at_first(rest, '?') {
            None => None,
            Some((port, query)) => match parsed_number(port, u16::MAX as nat) {
                Some(n) => if n > 0 && names_listener_mode(query) {
                    Some(n as u16)
                } else {
                    None
                },
                None => None,
            },
        },
    }
}

fn has_listener_mode(query: &str) -> (r: bool)
    ensures
        r == names_listener_mode(query@),
{
    let parts = split(query, '&');
    let ghost all = split_all(query@, '&');
    let mut i: usize = 0;
    while i < parts.len()
        invariant
            i <= parts@.len(),
            all == split_all(query@, '&'),
            texts(parts@) == all,
            forall|j: int| 0 <= j < i ==> #[trigger] all[j] != "mode=listener"@,
        decreases parts@.len() - i,
    {
        assert(all[i as int] == parts@[i as int]@);
        if same_text(parts[i].as_str(), "mode=listener") {
            return true;
        }
        i = i + 1;
    }
    false
}

/// The port an address binds.
pub fn listener_port(address: &str) -> (r: Option<u16>)
    ensures
        r == bound_port(address@),
{
    let rest = match strip_prefix(address, "srt://:") {
        Some(rest) => rest,
        None => return None,
    };
    let (port, query) = match split_once(rest.as_str(), '?') {
        Some(parts) => parts,
        None => return None,
    };
    match parse_number(port.as_str(), u16::MAX as u64) {
        Some(n) => if n > 0 && has_listener_mode(query.as_str()) {
            Some(n as u16)
        } else {
            None
        },
        None => None,
    }
}

/// What Open Live publishes about its Strom.
#[derive(Clone, Debug)]
pub struct ServerInfo {
    pub strom_host: Option<String>,
    /// The ports its Strom has leased for callers.
    pub srt_port_range: Option<PortRange>,
    /// How the lease stands, where there is one to speak of.
    pub srt_port_lease: Option<String>,
}

pub open spec fn published_range(text: Option<String>) -> Option<PortRange> {
    match text {
        Some(s) => match parsed_range(s@) {
            Ok(range) => Some(range),
            Err(_) => None,
        },
        None => None,
    }
}

impl ServerInfo {
    /// Reads the published values: an empty host counts as none, and so does a range
    /// that is not one.
    pub fn read(host: Option<String>, range: Option<String>, lease: Option<String>) -> (r:
        ServerInfo)
        ensures
            opt_text(r.strom_host) == nonempty(host),
            r.srt_port_range == published_range(range),
            r.srt_port_lease == lease,
    {
        let strom_host = match host {
            Some(h) => if h.as_str().is_empty() {
                None
            } else {
                Some(h)
            },
            None => None,
        };
        let srt_port_range = match range {
            Some(text) => {
                match parse_port_range(text.as_str()) {
                    Ok(range) => Some(range),
                    Err(_) => None,
                }
            },
            None => None,
        };
        ServerInfo { strom_host, srt_port_range, srt_port_lease: lease }
    }
}

// ---------------------------------------------------------------------------
// Requests and answers
// ---------------------------------------------------------------------------

/// What an HTTP status means for a request.
#[derive(Clone, Copy, Debug, PartialEq, Eq, Structural)]
pub enum Answer {
    /// The body holds what was asked for.
    Body,
    /// There is no such thing, and that is an answer rather than an error.
    Absent,
    Refused,
}

pub open spec fn answer_of(status: u16, absent_is_an_answer: bool) -> Answer {
    if status == 404 && absent_is_an_answer {
        Answer::Absent
    } else if 200 <= status < 300 {
        Answer::Body
    } else {
        Answer::Refused
    }
}

pub fn read_status(status: u16, absent_is_an_answer: bool) -> (r: Answer)
    ensures
        r == answer_of(status, absent_is_an_answer),
{
    if status == 404 && absent_is_an_answer {
        Answer::Absent
    } else if 200 <= status && status < 300 {
        Answer::Body
    } else {
        Answer::Refused
    }
}

/// The error of a refused request: what was asked and the status, never the body.
pub fn refusal(what: &str, status: &str) -> (r: String)
    ensures
        r@ == what@ + " failed with HTTP "@ + status@,
{
    what.to_owned().concat(" failed with HTTP ").concat(status)
}

/// Where Open Live is and how to authenticate to it.
#[derive(Debug)]
pub struct OpenLiveClient {
    pub base_url: String,
    pub auth: Auth,
}

impl OpenLiveClient {
    /// Speaks to an address with a credential; a blank key is no key.
    pub open spec fn serves(
        &self,
        url: Seq<char>,
        auth_mode: AuthMode,
        api_key: Option<String>,
    ) -> bool {
        &&& self.base_url@ == without_trailing(url, '/')
        &&& self.auth.starts_as(
            auth_mode,
            match api_key {
                Some(k) => if blank(k@) {
                    None
                } else {
                    Some(k@)
                },
                None => None,
            },
        )
    }

    pub fn new(base_url: &str, auth_mode: AuthMode, api_key: &Option<String>) -> (r: OpenLiveClient)
        ensures
            r.serves(base_url@, auth_mode, *api_key),
    {
        let key = match api_key {
            Some(k) => if is_blank(k.as_str()) {
                None
            } else {
                Some(k.clone())
            },
            None => None,
        };
        OpenLiveClient {
            base_url: strip_trailing(base_url, '/'),
            auth: Auth::new(auth_mode, key),
        }
    }

    pub fn server_info_url(&self) -> (r: String)
        ensures
            r@ == self.base_url@ + "/api/v1/server-info"@,
    {
        self.base_url.clone().concat("/api/v1/server-info")
    }

    pub fn sources_url(&self) -> (r: String)
        ensures
            r@ == self.base_url@ + "/api/v1/sources"@,
    {
        self.base_url.clone().concat("/api/v1/sources")
    }

    pub fn source_url(&self, id: &str) -> (r: String)
        ensures
            r@ == self.base_url@ + "/api/v1/sources/"@ + id@,
    {
        self.base_url.clone().concat("/api/v1/sources/").concat(id)
    }
}

// ---------------------------------------------------------------------------
// Credentials
// ---------------------------------------------------------------------------

/// A service token and when it expires, in Unix seconds.
#[derive(Debug)]
pub struct CachedToken {
    pub token: String,
    pub expires_at: u64,
}

/// Inside the refresh buffer, or past it.
pub open spec fn expiring(expires_at: u64, now: u64) -> bool {
    now + REFRESH_BUFFER_SECS >= expires_at
}

pub fn is_expiring(cached: &CachedToken, now: u64) -> (r: bool)
    ensures
        r == expiring(cached.expires_at, now),
{
    cached.expires_at <= REFRESH_BUFFER_SECS || now >= cached.expires_at - REFRESH_BUFFER_SECS
}

/// The bearer token to present: a static key as-is, or an OSC token exchanged for a
/// cached, short-lived service token. Without a key, the OSC command line tool's own
/// token is exchanged in its place.
#[derive(Debug)]
pub enum Auth {
    Direct { key: Option<String> },
    Osc { key: Option<String>, cache: Option<CachedToken> },
}

/// What a request needs before it can be sent.
#[derive(Debug)]
pub enum Bearer {
    /// Send this token, or none.
    Present(Option<String>),
    /// Exchange this token first.
    Exchange(String),
    /// There is no token to exchange.
    Missing,
}

impl Bearer {
    /// Asks for an exchange of a token, or says that there is none.
    pub open spec fn exchanges(&self, token: Option<Seq<char>>) -> bool {
        match token {
            Some(t) => self matches Bearer::Exchange(sent) && sent@ == t,
            None => self is Missing,
        }
    }
}

impl Auth {
    /// A fresh credential: the key as it was configured, with nothing exchanged yet.
    pub open spec fn starts_as(&self, mode: AuthMode, key: Option<Seq<char>>) -> bool {
        match mode {
            AuthMode::Direct => self matches Auth::Direct { key: k } && opt_text(*k) == key,
            AuthMode::Osc => self matches Auth::Osc { key: k, cache } && cache is None && opt_text(
                *k,
            ) == key,
        }
    }

    pub fn new(mode: AuthMode, key: Option<String>) -> (r: Auth)
        ensures
            r.starts_as(mode, opt_text(key)),
    {
        match mode {
            AuthMode::Direct => Auth::Direct { key },
            AuthMode::Osc => Auth::Osc { key, cache: None },
        }
    }

    /// Which token a request at `now` presents, or that one has to be exchanged first:
    /// only where none is cached, or the cached one is about to expire. Exchanged is the
    /// configured key, or else the environment's token, or else the saved login; both are
    /// handed in anew with each request, so that a fresh login takes effect at the next
    /// exchange.
    pub fn bearer(&self, now: u64, env: &Option<String>, saved: &Option<String>) -> (r: Bearer)
        ensures
            match self {
                Auth::Direct { key } => r matches Bearer::Present(k) && k == *key,
                Auth::Osc { key, cache } => match cache {
                    Some(c) => if !expiring(c.expires_at, now) {
                        r matches Bearer::Present(k) && k is Some && k->0@ == c.token@
                    } else {
                        r.exchanges(token_in_use(*key, *env, *saved))
                    },
                    None => r.exchanges(token_in_use(*key, *env, *saved)),
                },
            },
    {
        match self {
            Auth::Direct { key } => Bearer::Present(copy_opt(key)),
            Auth::Osc { key, cache } => {
                if let Some(c) = cache {
                    if !is_expiring(c, now) {
                        return Bearer::Present(Some(c.token.clone()));
                    }
                }
                match exchanged_token(key, env, saved) {
                    Some(token) => Bearer::Exchange(token),
                    None => Bearer::Missing,
                }
            },
        }
    }

    /// Keeps an exchanged token and presents it. A static key is not replaced.
    pub fn accept(&mut self, fresh: CachedToken) -> (r: Option<String>)
        ensures
            match *old(self) {
                Auth::Direct { key } => *final(self) == *old(self) && r == key,
                Auth::Osc { key, .. } => *final(self) == (Auth::Osc { key, cache: Some(fresh) })
                    && r is Some && r->0@ == fresh.token@,
            },
    {
        match self {
            Auth::Direct { key } => copy_opt(key),
            Auth::Osc { cache, .. } => {
                let token = fresh.token.clone();
                *cache = Some(fresh);
                Some(token)
            },
        }
    }
}

/// A burst of requests fires one exchange: once a token was accepted, every request
/// until the refresh buffer presents that token.
pub proof fn law_an_accepted_token_is_presented_until_the_buffer(fresh: CachedToken, now: u64)
    requires
        now + REFRESH_BUFFER_SECS < fresh.expires_at,
    ensures
        !expiring(fresh.expires_at, now),
        forall|earlier: u64| earlier <= now ==> !expiring(fresh.expires_at, earlier),
{
}

/// Without a key in the settings and a token in the environment, what is exchanged is
/// whatever the OSC command line tool's login holds at that moment: signing in again renews a running gateway. Only
/// where there is no login either is nothing asked of the token service.
pub proof fn law_a_fresh_login_serves_the_next_exchange(
    key: Option<String>,
    env: Option<String>,
    saved: Option<String>,
)
    requires
        key matches Some(k) ==> blank(k@),
        visible(env) is None,
    ensures
        token_in_use(key, env, saved) == visible(saved),
{
}

// ---------------------------------------------------------------------------
// What is compared, and what is read
// ---------------------------------------------------------------------------

/// A stored source has drifted exactly when a name, a type, a status, a latency that it
/// has, or an address differs. Of two addresses only what is shown of them counts, and a
/// latency that is not stored is no difference.
pub proof fn law_drift_is_a_visible_difference(
    stored: Source,
    desired: SourcePayload,
    name: Seq<char>,
    address: Seq<char>,
    active: bool,
    latency: u32,
)
    requires
        desired.describes(name, address, active, latency),
    ensures
        differs_from(stored, desired) <==> out_of_step(stored, name, address, active, latency),
        differs_from(stored, desired) <==> !(stored.name@ == name && stored.stream_type@ == "srt"@
            && stored.status@ == (if active {
            "active"@
        } else {
            "inactive"@
        }) && (stored.latency == Some(latency) || stored.latency is None) && masked(stored.address@)
            == masked(address)),
        desired.live_camera,
{
}

/// An address whose port is bound names that port: one of a host names none, nor does
/// one without the listener's mode among its parameters, whatever else stands there.
pub proof fn law_a_bound_address_names_its_port(
    n: nat,
    before: Seq<char>,
    after: Seq<char>,
    host: Seq<char>,
)
    requires
        before.len() == 0 || before.last() == '&',
        after.len() == 0 || after[0] == '&',
        host.len() > 0 && host[0] != ':',
    ensures
        bound_port("srt://:"@ + dec(n) + "?"@ + (before + "mode=listener"@ + after)) == (if 0 < n
            <= 65535 {
            Some(n as u16)
        } else {
            None
        }),
        bound_port("srt://:"@ + dec(n)) is None,
        bound_port("srt://:"@ + dec(n) + "?"@ + "mode=caller"@) is None,
        bound_port("srt://"@ + host) is None,
{
    reveal_strlit("srt://:");
    reveal_strlit("srt://");
    reveal_strlit("?");
    reveal_strlit("mode=listener");
    reveal_strlit("mode=caller");
    assert("?"@ =~= seq!['?']);
    law_a_notation_names_one_number(n, n);
    law_a_number_is_read_up_to_the_limit(n, u16::MAX as nat);
    let mode = "mode=listener"@;
    let query = before + mode + after;
    lemma_query_of(n, query);
    lemma_query_of(n, "mode=caller"@);
    // The listener's mode is one of the parameters.
    let first = if before.len() == 0 {
        Seq::empty()
    } else {
        split_all(before.drop_last(), '&')
    };
    let rest = mode + after;
    if before.len() > 0 {
        assert(before =~= before.drop_last().push('&'));
        law_a_mark_parts_the_pieces(before.drop_last(), '&', rest);
        assert(query =~= before.drop_last().push('&') + rest);
    } else {
        assert(query =~= rest);
    }
    assert(split_all(query, '&') =~= first + split_all(rest, '&'));
    lemma_char_from(mode, '&', 0);
    assert(!mode.contains('&'));
    assert(split_all(mode, '&') =~= seq![mode]) by {
        if char_from(mode, '&', 0) < mode.len() {
            assert(mode[char_from(mode, '&', 0)] == '&');
        }
    }
    if after.len() > 0 {
        law_a_mark_parts_the_pieces(mode, '&', after.drop_first());
        assert(rest =~= mode.push('&') + after.drop_first());
        assert(split_all(rest, '&')[0] == mode);
    } else {
        assert(rest =~= mode);
    }
    assert(split_all(query, '&')[first.len() as int] == mode);
    assert(names_listener_mode(query));
    // The caller's is another.
    let caller = "mode=caller"@;
    lemma_char_from(caller, '&', 0);
    assert(!caller.contains('&'));
    assert(split_all(caller, '&') =~= seq![caller]) by {
        if char_from(caller, '&', 0) < caller.len() {
            assert(caller[char_from(caller, '&', 0)] == '&');
        }
    }
    assert(!names_listener_mode(caller));
    // Without parameters, or with a host, there is no bound port.
    let bare = "srt://:"@ + dec(n);
    assert(bare.subrange(7, bare.len() as int) =~= dec(n));
    law_a_text_is_cut_at_the_first_mark(dec(n), '?');
    let dialled = "srt://"@ + host;
    if "srt://:"@.is_prefix_of(dialled) {
        assert(dialled.subrange(0, 7)[6] == host[0]);
    }
}

proof fn lemma_query_of(n: nat, query: Seq<char>)
    ensures
        ({
            let address = "srt://:"@ + dec(n) + "?"@ + query;
            &&& after_prefix(address, "srt://:"@) == Some(dec(n) + "?"@ + query)
            &&& split_at_first(dec(n) + "?"@ + query, '?') == Some((dec(n), query))
        }),
{
    reveal_strlit("srt://:");
    reveal_strlit("?");
    law_a_notation_names_one_number(n, n);
    let address = "srt://:"@ + dec(n) + "?"@ + query;
    let rest = dec(n) + "?"@ + query;
    assert(address.subrange(0, 7) =~= "srt://:"@);
    assert(address.subrange(7, address.len() as int) =~= rest);
    lemma_char_from(rest, '?', 0);
    let k = char_from(rest, '?', 0);
    let len = dec(n).len() as int;
    assert(rest[len] == '?');
    if k < len {
        assert(rest[k] == dec(n)[k]);
    }
    assert(rest.subrange(0, k) =~= dec(n));
    assert(rest.subrange(k + 1, rest.len() as int) =~= query);
}

/// A port that a link's own end is told to bind is read back from the address that the
/// cloud is given.
pub proof fn law_the_port_of_a_link_is_read_back(e: Endpoint)
    requires
        e.mode == UplinkMode::Caller,
        e.port > 0,
    ensures
        bound_port(e.cloud_address()) == Some(e.port),
{
    reveal_strlit("?mode=listener");
    reveal_strlit("?");
    reveal_strlit("mode=listener");
    reveal_strlit("&passphrase=");
    let tail = e.crypto();
    let empty: Seq<char> = Seq::empty();
    assert(tail.len() == 0 || tail[0] == '&');
    law_a_bound_address_names_its_port(e.port as nat, empty, tail, seq!['h']);
    assert(e.cloud_address() =~= "srt://:"@ + dec(e.port as nat) + "?"@ + (empty + "mode=listener"@
        + tail));
}

/// A range is published where the text that says it is one, and nowhere else.
pub proof fn law_a_published_range_is_one_that_can_be_read(text: Option<String>)
    ensures
        published_range(text) is Some <==> text is Some && parsed_range(text->0@) is Ok,
        published_range(text) is Some ==> parsed_range(text->0@) == Ok::<
            PortRange,
            (crate::config::Fault, Seq<char>),
        >(published_range(text)->0),
{
}

/// A reply has a body exactly when its status is one of success. That something is
/// absent is an answer only where the question allows for it.
pub proof fn law_only_success_has_a_body(status: u16)
    ensures
        answer_of(status, false) == Answer::Body <==> 200 <= status <= 299,
        answer_of(status, true) == Answer::Body <==> 200 <= status <= 299,
        answer_of(status, true) == Answer::Absent <==> status == 404,
        answer_of(status, false) != Answer::Absent,
{
}

/// A token counts as spent from five minutes before it expires: one that is not spent will
/// still be good for at least that long, and a spent one is never fresh again.
pub proof fn law_a_token_is_given_up_before_it_expires(expires_at: u64, now: u64, later: u64)
    requires
        now <= later,
    ensures
        expiring(expires_at, now) ==> expiring(expires_at, later),
        !expiring(expires_at, now) <==> now + 300 < expires_at,
        expires_at <= now ==> expiring(expires_at, now),
{
}

/// A client asks at the address it was given, without slashes at its end, and presents
/// the key that it was given in the way that it was told; a blank key is none, and nothing
/// has been exchanged yet.
pub proof fn law_a_client_starts_with_what_it_was_given(
    c: OpenLiveClient,
    url: Seq<char>,
    mode: AuthMode,
    key: Option<String>,
)
    requires
        c.serves(url, mode, key),
    ensures
        c.base_url@ == without_trailing(url, '/'),
        mode == AuthMode::Direct ==> c.auth is Direct,
        mode == AuthMode::Osc ==> c.auth is Osc && c.auth->cache is None,
        mode == AuthMode::Direct && key is Some && !blank(key->0@) ==> c.auth->Direct_key is Some
            && c.auth->Direct_key->0@ == key->0@,
        mode == AuthMode::Osc && key is Some && !blank(key->0@) ==> c.auth->Osc_key is Some
            && c.auth->Osc_key->0@ == key->0@,
        mode == AuthMode::Direct && (key is None || blank(key->0@)) ==> c.auth->Direct_key is None,
        mode == AuthMode::Osc && (key is None || blank(key->0@)) ==> c.auth->Osc_key is None,
{
}

/// What is exchanged is the token there is, and without one it is said to be missing.
pub proof fn law_a_token_that_is_there_is_exchanged(b: Bearer, token: Seq<char>)
    ensures
        b.exchanges(Some(token)) <==> b is Exchange && b->Exchange_0@ == token,
        b.exchanges(None) <==> b is Missing,
{
}

} // verus!
