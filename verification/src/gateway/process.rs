//! Starting and stopping a headless Strom for the gateway.
//!
//! The rule is **adopt, never replace**: a Strom already listening is used as it is and
//! never stopped. Only a Strom this process started is a Strom this process may kill.

use crate::config::{below, join_path};
use crate::gateway::config::{GatewayConfig, StromConfig};
use crate::local_strom::{
    explicit_port, holds_slash, lookup_of, port_of as explicit_port_of, Lookup,
};
use crate::strom::Reachability;
use crate::text::{nonempty, opt_text, quote, quoted_text};
use vstd::prelude::*;

verus! {

/// Where Strom listens unless its address says otherwise.
pub const DEFAULT_PORT: u16 = 8080;

/// Milliseconds between probes of a Strom that was started, and between looks at one
/// that is stopping.
pub const READY_POLL_MS: u64 = 400;

pub const STOP_POLL_MS: u64 = 200;

/// Seconds a Strom may take to stop before it is killed.
pub const STOP_TIMEOUT_SECS: u64 = 10;

/// The port in a Strom URL.
pub fn port_of(url: &str) -> (r: Option<u16>)
    ensures
        match r {
            Some(p) => explicit_port(url@) == Some(p as nat),
            None => explicit_port(url@) is None,
        },
{
    explicit_port_of(url)
}

/// How the local Strom came to be.
#[derive(Debug)]
pub enum LocalStrom {
    /// Already running. Left alone entirely.
    Adopted,
    /// Started here, and stopped on the way out.
    Managed(Managed),
}

#[derive(Debug)]
pub struct Managed {
    pub pid: u32,
    pub log_path: String,
}

impl LocalStrom {
    /// The pid of a Strom we started, to be recorded so that a later teardown can clean
    /// up after a hard kill.
    pub fn managed_pid(&self) -> (r: Option<u32>)
        ensures
            r == (match self {
                LocalStrom::Adopted => None,
                LocalStrom::Managed(m) => Some(m.pid),
            }),
    {
        match self {
            LocalStrom::Adopted => None,
            LocalStrom::Managed(m) => Some(m.pid),
        }
    }

    /// Where a managed Strom's output went, for error reporting.
    pub fn log_path(&self) -> (r: Option<&str>)
        ensures
            match self {
                LocalStrom::Adopted => r is None,
                LocalStrom::Managed(m) => r is Some && r->0@ == m.log_path@,
            },
    {
        match self {
            LocalStrom::Adopted => None,
            LocalStrom::Managed(m) => Some(m.log_path.as_str()),
        }
    }
}

// ---------------------------------------------------------------------------
// Adopting or starting
// ---------------------------------------------------------------------------

/// What to do about a local Strom.
#[derive(Debug)]
pub enum StromStart {
    Adopt,
    Start { port: u16 },
    Refuse(String),
}

pub open spec fn credential_text(url: Seq<char>) -> Seq<char> {
    "Strom at "@ + url
        + " needs a credential.\n\nIt is running with STROM_API_KEY set. Run `open-live-gateway setup` and enter that key when it asks."@
}

pub open spec fn unmanaged_text(url: Seq<char>) -> Seq<char> {
    "nothing is listening at "@ + url
        + ", and [strom] manage is off.\n\nStart Strom yourself, or set manage = true to have the gateway run one."@
}

/// What to do about a local Strom, by what a probe found. A running Strom that wants a
/// credential is still a running Strom: starting a second one would fight it for the
/// port.
pub fn ensure_running(found: &Reachability, strom: &StromConfig) -> (r: StromStart)
    ensures
        match *found {
            Reachability::Reachable { .. } => r is Adopt,
            Reachability::NeedsCredential => r matches StromStart::Refuse(e) && e@
                == credential_text(strom.url@),
            Reachability::Unreachable(_) => if !strom.manage {
                r matches StromStart::Refuse(e) && e@ == unmanaged_text(strom.url@)
            } else {
                r == (StromStart::Start {
                    port: match explicit_port(strom.url@) {
                        Some(p) => p as u16,
                        None => DEFAULT_PORT,
                    },
                })
            },
        },
{
    match found {
        Reachability::Reachable { .. } => StromStart::Adopt,
        Reachability::NeedsCredential => StromStart::Refuse(
            "Strom at ".to_owned().concat(strom.url.as_str()).concat(
                " needs a credential.\n\nIt is running with STROM_API_KEY set. Run `open-live-gateway setup` and enter that key when it asks.",
            ),
        ),
        Reachability::Unreachable(_) => {
            if !strom.manage {
                return StromStart::Refuse(
                    "nothing is listening at ".to_owned().concat(strom.url.as_str()).concat(
                        ", and [strom] manage is off.\n\nStart Strom yourself, or set manage = true to have the gateway run one.",
                    ),
                );
            }
            StromStart::Start {
                port: match port_of(strom.url.as_str()) {
                    Some(port) => port,
                    None => DEFAULT_PORT,
                },
            }
        },
    }
}

/// What a look at a stopping Strom found.
#[derive(Clone, Copy, Debug, PartialEq, Eq, Structural)]
pub enum Exit {
    Gone,
    StillThere,
    /// It could not be waited for.
    Unknown,
}

/// What is done about a stopping Strom.
#[derive(Clone, Copy, Debug, PartialEq, Eq, Structural)]
pub enum StopStep {
    Done,
    Wait,
    /// It holds capture devices and sockets; leaving it behind would make the next run
    /// adopt a half-dead engine.
    Kill,
}

pub fn on_stopping(exit: Exit, before_deadline: bool) -> (r: StopStep)
    ensures
        r == (match exit {
            Exit::Gone => StopStep::Done,
            Exit::StillThere => if before_deadline {
                StopStep::Wait
            } else {
                StopStep::Kill
            },
            Exit::Unknown => StopStep::Done,
        }),
{
    match exit {
        Exit::Gone => StopStep::Done,
        Exit::StillThere => if before_deadline {
            StopStep::Wait
        } else {
            StopStep::Kill
        },
        Exit::Unknown => StopStep::Done,
    }
}

// ---------------------------------------------------------------------------
// The executable and its data
// ---------------------------------------------------------------------------

/// What is said when the executable was not found: at its path, or under its name on
/// `PATH`.
pub fn binary_not_found(configured: &str) -> (r: String)
    ensures
        r@ == (if holds_slash(configured@) {
            "no Strom executable at "@ + configured@
                + ".\n\nSet [strom] binary to where it is installed, or install it:\n    curl -sSL https://raw.githubusercontent.com/Eyevinn/strom/main/install.sh | bash"@
        } else {
            "could not find "@ + quoted_text(configured@)
                + " on PATH.\n\nInstall Strom, or set [strom] binary to its path:\n    curl -sSL https://raw.githubusercontent.com/Eyevinn/strom/main/install.sh | bash"@
        }),
{
    let none: Vec<String> = Vec::new();
    match lookup_of(configured, &none) {
        Lookup::Exactly(path) => "no Strom executable at ".to_owned().concat(path.as_str()).concat(
            ".\n\nSet [strom] binary to where it is installed, or install it:\n    curl -sSL https://raw.githubusercontent.com/Eyevinn/strom/main/install.sh | bash",
        ),
        Lookup::FirstOf(_) => "could not find ".to_owned().concat(
            quote(configured).as_str(),
        ).concat(
            " on PATH.\n\nInstall Strom, or set [strom] binary to its path:\n    curl -sSL https://raw.githubusercontent.com/Eyevinn/strom/main/install.sh | bash",
        ),
    }
}

pub open spec fn data_place(configured: Option<Seq<char>>, settings_dir: Option<Seq<char>>) -> Seq<
    char,
> {
    match configured {
        Some(dir) => dir,
        None => match settings_dir {
            Some(dir) => below(dir, "strom-data"@),
            None => "strom-data"@,
        },
    }
}

/// Where a managed Strom keeps its data: beside our own settings by default, so that it
/// never writes into an existing install's data directory.
pub fn data_dir(cfg: &GatewayConfig, settings_dir: &Option<String>) -> (r: String)
    ensures
        r@ == data_place(nonempty(cfg.strom.data_dir), opt_text(*settings_dir)),
{
    if let Some(dir) = &cfg.strom.data_dir {
        if !dir.as_str().is_empty() {
            return dir.clone();
        }
    }
    match settings_dir {
        Some(dir) => join_path(dir.as_str(), "strom-data"),
        None => "strom-data".to_owned(),
    }
}

/// The directory that is set keeps the flows; without one they stand beside the settings,
/// or where the program runs where there are none.
pub proof fn law_flows_are_kept_where_it_is_set(dir: Seq<char>, any: Option<Seq<char>>)
    ensures
        data_place(Some(dir), any) == dir,
        data_place(None, None) == "strom-data"@,
        dir.len() > 0 && dir.last() != '/' ==> data_place(None, Some(dir)) == dir
            + "/strom-data"@,
{
    reveal_strlit("/");
    reveal_strlit("strom-data");
    reveal_strlit("/strom-data");
    assert(dir + "/"@ + "strom-data"@ =~= dir + "/strom-data"@);
}

} // verus!
