//! What the gateway says to the local Strom's flow, discovery, and statistics API, and
//! what it makes of the answers.
//!
//! Errors carry the HTTP status only. A flow body echoes block properties, and those
//! carry the SRT passphrase.

use crate::report::UplinkStatsReport;
use crate::text::{strip_trailing, without_trailing};
use vstd::prelude::*;

verus! {

/// Whether Strom can be used.
#[derive(Debug)]
pub enum Reachability {
    Reachable { video_sources: usize },
    /// Reached, but it wants a credential. Distinct from unreachable because the two
    /// send an operator to completely different places.
    NeedsCredential,
    Unreachable(String),
}

/// What came of asking Strom for its video sources.
#[derive(Debug)]
pub enum Probe {
    /// There was no answer.
    NoAnswer(String),
    /// An answer with its status, the status as text, and how many sources the body
    /// listed, where it listed any.
    Answer { status: u16, status_text: String, sources: Option<usize> },
}

/// Reads a probe: 401 and 403 mean a credential is wanted, any other refusal that Strom
/// cannot be used, and a body that is no list counts as none.
pub fn read_probe(probe: Probe) -> (r: Reachability)
    ensures
        match probe {
            Probe::NoAnswer(err) => r == Reachability::Unreachable(err),
            Probe::Answer { status, status_text, sources } => if status == 401 || status == 403 {
                r is NeedsCredential
            } else if !(200 <= status < 300) {
                r matches Reachability::Unreachable(err) && err@ == "HTTP "@ + status_text@
            } else {
                r matches Reachability::Reachable { video_sources } && video_sources == (match sources {
                    Some(n) => n,
                    None => 0,
                })
            },
        },
{
    match probe {
        Probe::NoAnswer(err) => Reachability::Unreachable(err),
        Probe::Answer { status, status_text, sources } => {
            if status == 401 || status == 403 {
                Reachability::NeedsCredential
            } else if status < 200 || status >= 300 {
                Reachability::Unreachable("HTTP ".to_owned().concat(status_text.as_str()))
            } else {
                Reachability::Reachable { video_sources: sources.unwrap_or(0) }
            }
        },
    }
}

/// Which end of a connection the element is.
#[derive(Clone, Copy, Debug, PartialEq, Eq, Structural)]
pub enum SrtRole {
    Source,
    Sink,
}

/// One SRT element of a flow and its peers.
#[derive(Debug)]
pub struct SrtConnection {
    pub role: SrtRole,
    pub callers: Vec<UplinkStatsReport>,
}

/// The first sending element's first peer.
pub open spec fn first_peer(connections: Seq<SrtConnection>) -> Option<UplinkStatsReport>
    decreases connections.len(),
{
    if connections.len() == 0 {
        None
    } else if connections[0].role == SrtRole::Sink {
        if connections[0].callers@.len() > 0 {
            Some(connections[0].callers@[0])
        } else {
            None
        }
    } else {
        first_peer(connections.drop_first())
    }
}

/// The sending element's first peer, whichever end dialled. A connected flag is
/// deliberately not read: srtsink keeps a stale entry reporting connected while it
/// retries a vanished peer. Bytes moving between polls is what proves delivery.
pub fn uplink_peer(connections: &Vec<SrtConnection>) -> (r: Option<UplinkStatsReport>)
    ensures
        r == first_peer(connections@),
{
    let mut i: usize = 0;
    assert(connections@.subrange(0, connections@.len() as int) =~= connections@);
    while i < connections.len()
        invariant
            i <= connections@.len(),
            first_peer(connections@) == first_peer(
                connections@.subrange(i as int, connections@.len() as int),
            ),
        decreases connections@.len() - i,
    {
        let ghost rest = connections@.subrange(i as int, connections@.len() as int);
        assert(rest[0] == connections@[i as int]);
        if connections[i].role == SrtRole::Sink {
            return if connections[i].callers.len() > 0 {
                Some(connections[i].callers[0])
            } else {
                None
            };
        }
        assert(rest.drop_first() =~= connections@.subrange(i + 1, connections@.len() as int));
        i = i + 1;
    }
    None
}

/// Where Strom is.
#[derive(Debug)]
pub struct StromClient {
    pub base_url: String,
    pub api_key: Option<String>,
}

impl StromClient {
    pub fn new(base_url: &str, api_key: Option<String>) -> (r: StromClient)
        ensures
            r.base_url@ == without_trailing(base_url@, '/'),
            r.api_key == api_key,
    {
        StromClient { base_url: strip_trailing(base_url, '/'), api_key }
    }

    pub fn devices_url(&self) -> (r: String)
        ensures
            r@ == self.base_url@ + "/api/discovery/devices?category=video_source"@,
    {
        self.base_url.clone().concat("/api/discovery/devices?category=video_source")
    }

    pub fn flows_url(&self) -> (r: String)
        ensures
            r@ == self.base_url@ + "/api/flows"@,
    {
        self.base_url.clone().concat("/api/flows")
    }

    /// The address of one flow, or of something below it.
    pub fn flow_url(&self, id: &str, below: &str) -> (r: String)
        ensures
            r@ == self.base_url@ + "/api/flows/"@ + id@ + below@,
    {
        self.base_url.clone().concat("/api/flows/").concat(id).concat(below)
    }
}

/// The peer of an uplink is the first caller of the first connection that sends; a
/// connection that receives counts for nothing, and a sender without a caller has none.
pub proof fn law_the_peer_is_the_first_caller_of_the_sender(
    connections: Seq<SrtConnection>,
    k: int,
)
    ensures
        0 <= k < connections.len() && connections[k].role == SrtRole::Sink && (forall|j: int|
            0 <= j < k ==> (#[trigger] connections[j]).role != SrtRole::Sink) ==> first_peer(
            connections,
        ) == (if connections[k].callers@.len() > 0 {
            Some(connections[k].callers@[0])
        } else {
            None
        }),
        (forall|j: int|
            0 <= j < connections.len() ==> (#[trigger] connections[j]).role != SrtRole::Sink)
            ==> first_peer(connections) is None,
    decreases connections.len(),
{
    if connections.len() > 0 {
        let rest = connections.drop_first();
        law_the_peer_is_the_first_caller_of_the_sender(rest, k - 1);
        assert forall|j: int| 0 <= j < rest.len() implies #[trigger] rest[j] == connections[j
            + 1] by {}
        if 0 < k < connections.len() {
            assert(rest[k - 1] == connections[k]);
        }
    }
}

} // verus!
