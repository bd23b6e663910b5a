//! The Strom on this machine: adopted if one is listening, started headless if not.
//!
//! The rule is **adopt, never replace**. A Strom already answering at the configured
//! URL is used as it is and never stopped, because it may be a service this box
//! depends on or another operator's session. Only a Strom this process started is a
//! Strom this process may stop, and it is stopped on the way out so a camera does
//! not stay open with nothing supervising it.

use crate::config::{below, join_path, user_dir, user_place, Config, Places, Strom};
use crate::strom::Reachability;
use crate::text::{
    blank, char_from, contains_text, dec, decimal, find_chars, find_text, has_at,
    law_a_mark_parts_the_pieces, law_a_notation_names_one_number,
    law_a_number_is_read_up_to_the_limit, law_the_pieces_make_up_the_text, lemma_char_from,
    lemma_find_from, opt_text, parse_number, parsed_number, quote, quoted_text, string_of,
    to_chars, up_to_char, before_char, trimmed, visible, visible_of, split, split_all, texts,
};
use vstd::prelude::*;

verus! {

/// Seconds a started Strom may take: it loads GStreamer and probes for hardware first.
pub const READY_TIMEOUT_SECS: u64 = 45;

// ---------------------------------------------------------------------------
// Addresses
// ---------------------------------------------------------------------------

/// An address without its scheme: what stands between the first `://` and the next,
/// or all of it where there is none.
pub open spec fn after_scheme(url: Seq<char>) -> Seq<char> {
    match find_text(url, "://"@) {
        Some(k) => {
            let rest = url.subrange(k + 3, url.len() as int);
            match find_text(rest, "://"@) {
                Some(j) => rest.subrange(0, j),
                None => rest,
            }
        },
        None => url,
    }
}

/// The host and port of an address.
pub open spec fn authority(url: Seq<char>) -> Seq<char> {
    before_char(after_scheme(url), '/')
}

/// What follows the last colon, where there is one.
pub open spec fn after_last_colon(s: Seq<char>) -> Option<Seq<char>>
    decreases s.len(),
{
    if s.len() == 0 {
        None
    } else if s.last() == ':' {
        Some(Seq::empty())
    } else {
        match after_last_colon(s.drop_last()) {
            Some(rest) => Some(rest.push(s.last())),
            None => None,
        }
    }
}

/// The explicit port of an address.
pub open spec fn explicit_port(url: Seq<char>) -> Option<nat> {
    match after_last_colon(authority(url)) {
        Some(digits) => parsed_number(digits, u16::MAX as nat),
        None => None,
    }
}

/// An address without its scheme.
pub fn strip_scheme(url: &str) -> (r: String)
    ensures
        r@ == after_scheme(url@),
{
    proof {
        reveal_strlit("://");
    }
    let v = to_chars(url);
    let mark = to_chars("://");
    proof {
        lemma_find_from(v@, mark@, 0);
    }
    match find_chars(&v, &mark) {
        Some(k) => {
            assert(k + 3 <= v.len());
            let rest = string_of(&v, k + 3, v.len());
            let w = to_chars(rest.as_str());
            proof {
                lemma_find_from(w@, mark@, 0);
            }
            match find_chars(&w, &mark) {
                Some(j) => string_of(&w, 0, j),
                None => rest,
            }
        },
        None => url.to_owned(),
    }
}

/// The host and port of an address.
pub fn authority_of(url: &str) -> (r: String)
    ensures
        r@ == authority(url@),
{
    up_to_char(strip_scheme(url).as_str(), '/')
}

proof fn lemma_after_last_colon(s: Seq<char>, k: int)
    requires
        0 <= k < s.len(),
        s[k] == ':',
        forall|j: int| k < j < s.len() ==> s[j] != ':',
    ensures
        after_last_colon(s) == Some(s.subrange(k + 1, s.len() as int)),
    decreases s.len(),
{
    if k == s.len() - 1 {
        assert(s.subrange(k + 1, s.len() as int) =~= Seq::empty());
    } else {
        lemma_after_last_colon(s.drop_last(), k);
        assert(s.drop_last().subrange(k + 1, s.len() - 1).push(s.last()) =~= s.subrange(
            k + 1,
            s.len() as int,
        ));
    }
}

proof fn lemma_no_colon(s: Seq<char>)
    requires
        forall|j: int| 0 <= j < s.len() ==> s[j] != ':',
    ensures
        after_last_colon(s) is None,
    decreases s.len(),
{
    if s.len() > 0 {
        lemma_no_colon(s.drop_last());
    }
}

fn split_last_colon(s: &str) -> (r: Option<String>)
    ensures
        opt_text(r) == after_last_colon(s@),
{
    let v = to_chars(s);
    let mut i: usize = v.len();
    while i > 0
        invariant
            i <= v@.len(),
            v@ == s@,
            forall|j: int| i <= j < v@.len() ==> v@[j] != ':',
        decreases i,
    {
        if v[i - 1] == ':' {
            proof {
                lemma_after_last_colon(s@, i - 1);
            }
            return Some(string_of(&v, i, v.len()));
        }
        i = i - 1;
    }
    proof {
        lemma_no_colon(s@);
    }
    None
}

/// The explicit port in a URL. None when the URL relies on the scheme default, in
/// which case a Strom started on a guessed port would never be the one probed.
pub fn port_of(url: &str) -> (r: Option<u16>)
    ensures
        match r {
            Some(p) => explicit_port(url@) == Some(p as nat),
            None => explicit_port(url@) is None,
        },
{
    match split_last_colon(authority_of(url).as_str()) {
        Some(digits) => match parse_number(digits.as_str(), u16::MAX as u64) {
            Some(n) => Some(n as u16),
            None => None,
        },
        None => None,
    }
}

// ---------------------------------------------------------------------------
// Adopting or starting
// ---------------------------------------------------------------------------

/// What to do about a local Strom.
#[derive(Debug)]
pub enum StromPlan {
    /// Use the one that answers. It is never stopped.
    Adopt,
    /// Start one on this port; it is stopped on the way out.
    Start { port: u16 },
    Refuse(StromRefusal),
}

#[derive(Clone, Copy, Debug, PartialEq, Eq, Structural)]
pub enum StromRefusal {
    /// A running Strom that wants a credential is still a running Strom. Starting a
    /// second one would fight it for the port.
    NeedsCredential,
    /// Nothing answers, and the settings say not to start one.
    NotManaged,
    /// There is no executable to start.
    NoBinary,
    /// The address names no port to start one on.
    NoPort,
}

pub open spec fn refusal_text(why: StromRefusal, url: Seq<char>, binary: Seq<char>) -> Seq<char> {
    match why {
        StromRefusal::NoBinary => not_found_text(binary),
        StromRefusal::NeedsCredential => "Strom at "@ + url
            + " wants a credential.\n\nIt runs with STROM_API_KEY set. Run `open-live-ingest setup` and enter that key when asked."@,
        StromRefusal::NotManaged => "nothing is listening at "@ + url
            + ", and [strom] manage is off.\n\nStart Strom yourself, for example:\n    strom --headless --port 8080\n\nor set manage = true to have the gateway run one."@,
        StromRefusal::NoPort => "strom.url "@ + quoted_text(url)
            + " names no port, so there is nothing to start a Strom on"@,
    }
}

pub fn say_refusal(why: StromRefusal, strom: &Strom) -> (r: String)
    ensures
        r@ == refusal_text(why, strom.url@, strom.binary@),
{
    let url = strom.url.as_str();
    match why {
        StromRefusal::NoBinary => not_found(strom.binary.as_str()),
        StromRefusal::NeedsCredential => "Strom at ".to_owned().concat(url).concat(
            " wants a credential.\n\nIt runs with STROM_API_KEY set. Run `open-live-ingest setup` and enter that key when asked.",
        ),
        StromRefusal::NotManaged => "nothing is listening at ".to_owned().concat(url).concat(
            ", and [strom] manage is off.\n\nStart Strom yourself, for example:\n    strom --headless --port 8080\n\nor set manage = true to have the gateway run one.",
        ),
        StromRefusal::NoPort => "strom.url ".to_owned().concat(quote(url).as_str()).concat(
            " names no port, so there is nothing to start a Strom on",
        ),
    }
}

/// Adopt what answers; start one only where nothing does, the settings allow it, there is
/// an executable, and the address names a port. What is missing is said in that order.
pub open spec fn plan_of(
    found: Reachability,
    manage: bool,
    has_binary: bool,
    url: Seq<char>,
) -> StromPlan {
    match found {
        Reachability::Reachable { .. } => StromPlan::Adopt,
        Reachability::NeedsCredential => StromPlan::Refuse(StromRefusal::NeedsCredential),
        Reachability::Unreachable(_) => if !manage {
            StromPlan::Refuse(StromRefusal::NotManaged)
        } else if !has_binary {
            StromPlan::Refuse(StromRefusal::NoBinary)
        } else {
            match explicit_port(url) {
                Some(port) => StromPlan::Start { port: port as u16 },
                None => StromPlan::Refuse(StromRefusal::NoPort),
            }
        },
    }
}

/// What to do about a local Strom, by what a probe found and whether the executable was
/// found too.
pub fn plan_strom(found: &Reachability, strom: &Strom, has_binary: bool) -> (r: StromPlan)
    ensures
        r == plan_of(*found, strom.manage, has_binary, strom.url@),
{
    match found {
        Reachability::Reachable { .. } => StromPlan::Adopt,
        Reachability::NeedsCredential => StromPlan::Refuse(StromRefusal::NeedsCredential),
        Reachability::Unreachable(_) => {
            if !strom.manage {
                return StromPlan::Refuse(StromRefusal::NotManaged);
            }
            if !has_binary {
                return StromPlan::Refuse(StromRefusal::NoBinary);
            }
            match port_of(strom.url.as_str()) {
                Some(port) => StromPlan::Start { port },
                None => StromPlan::Refuse(StromRefusal::NoPort),
            }
        },
    }
}

/// A Strom that answers, whatever it answers, is never replaced by one of our own.
pub proof fn law_adopt_never_replace(
    found: Reachability,
    manage: bool,
    has_binary: bool,
    url: Seq<char>,
)
    requires
        !(found is Unreachable),
    ensures
        !(plan_of(found, manage, has_binary, url) is Start),
{
}

/// What a probe of a freshly started Strom means.
#[derive(Debug)]
pub enum Readiness {
    Ready { video_sources: usize },
    Wait,
    Failed(String),
}

/// Reads a probe of a Strom that was just started. No key was set on it, so one that
/// wants a credential is someone else's; one that does not answer is given until the
/// deadline. `log_tail` is what its log ends in.
pub fn read_readiness(found: Reachability, before_deadline: bool, log_tail: &str) -> (r: Readiness)
    ensures
        match found {
            Reachability::Reachable { video_sources } => r == (Readiness::Ready { video_sources }),
            Reachability::NeedsCredential => r matches Readiness::Failed(e) && e@
                == "the Strom on that port wants a credential, so it is not the one we started"@,
            Reachability::Unreachable(err) => if before_deadline {
                r is Wait
            } else {
                r matches Readiness::Failed(e) && e@ == "Strom did not become ready within "@ + dec(
                    READY_TIMEOUT_SECS as nat,
                ) + "s ("@ + err@ + ")."@ + log_tail@
            },
        },
{
    match found {
        Reachability::Reachable { video_sources } => Readiness::Ready { video_sources },
        Reachability::NeedsCredential => Readiness::Failed(
            "the Strom on that port wants a credential, so it is not the one we started".to_owned(),
        ),
        Reachability::Unreachable(err) => {
            if before_deadline {
                Readiness::Wait
            } else {
                Readiness::Failed(
                    "Strom did not become ready within ".to_owned().concat(
                        decimal(READY_TIMEOUT_SECS).as_str(),
                    ).concat("s (").concat(err.as_str()).concat(").").concat(log_tail),
                )
            }
        },
    }
}

/// Only a Strom that this process, or an earlier run of it, recorded as its own is
/// stopped, and only while a process of that name has the pid. An adopted Strom is
/// never recorded, so it is never stopped.
pub fn stops_recorded(recorded: Option<u32>, alive: bool, command: Option<&str>) -> (r: bool)
    ensures
        r == (recorded is Some && alive && command is Some && contains_text(
            command->0@,
            "strom"@,
        )),
{
    recorded.is_some() && crate::run::process_named(alive, command, "strom")
}

pub open spec fn data_place(strom: Strom, p: Places) -> Seq<char> {
    match visible(strom.data_dir) {
        Some(dir) => dir,
        None => below(user_place(p), "strom-data"@),
    }
}

/// Where a managed Strom keeps its flows. Beside our own settings by default, so it
/// never writes into an existing install's data directory.
pub fn data_dir(cfg: &Config, p: &Places) -> (r: String)
    ensures
        r@ == data_place(cfg.strom, *p),
{
    match visible_of(&cfg.strom.data_dir) {
        Some(dir) => dir,
        None => join_path(user_dir(p).as_str(), "strom-data"),
    }
}

// ---------------------------------------------------------------------------
// The log's end
// ---------------------------------------------------------------------------

/// A line without the carriage return that may end it.
pub open spec fn bare_line(s: Seq<char>) -> Seq<char> {
    if s.len() > 0 && s.last() == '\r' {
        s.drop_last()
    } else {
        s
    }
}

/// The lines of a text: the pieces between line feeds, without an empty one behind the
/// last line feed; a carriage return before a line feed belongs to it.
pub open spec fn lines_of(text: Seq<char>) -> Seq<Seq<char>> {
    let parts = split_all(text, '\n');
    if parts.last().len() == 0 {
        parts.drop_last().map_values(|s: Seq<char>| bare_line(s))
    } else {
        parts.drop_last().map_values(|s: Seq<char>| bare_line(s)).push(parts.last())
    }
}

fn chop_line(s: &str) -> (r: String)
    ensures
        r@ == bare_line(s@),
{
    let v = to_chars(s);
    if v.len() > 0 && v[v.len() - 1] == '\r' {
        string_of(&v, 0, v.len() - 1)
    } else {
        s.to_owned()
    }
}

proof fn lemma_split_nonempty(s: Seq<char>, c: char)
    ensures
        split_all(s, c).len() > 0,
    decreases s.len(),
{
}

fn lines(text: &str) -> (r: Vec<String>)
    ensures
        texts(r@) == lines_of(text@),
{
    let parts = split(text, '\n');
    let ghost all = split_all(text@, '\n');
    proof {
        lemma_split_nonempty(text@, '\n');
    }
    let last: usize = parts.len() - 1;
    let mut out: Vec<String> = Vec::new();
    let mut i: usize = 0;
    let ghost body = all.drop_last().map_values(|s: Seq<char>| bare_line(s));
    while i < last
        invariant
            i <= last,
            last == parts@.len() - 1,
            texts(parts@) == all,
            body == all.drop_last().map_values(|s: Seq<char>| bare_line(s)),
            texts(out@) == body.subrange(0, i as int),
        decreases last - i,
    {
        assert(all[i as int] == parts@[i as int]@);
        let ghost before = texts(out@);
        let line = chop_line(parts[i].as_str());
        out.push(line);
        assert(texts(out@) =~= before.push(bare_line(all[i as int])));
        assert(body.subrange(0, i + 1) =~= body.subrange(0, i as int).push(body[i as int]));
        i = i + 1;
    }
    assert(body.subrange(0, last as int) =~= body);
    assert(all.last() == parts@[last as int]@);
    if !parts[last].as_str().is_empty() {
        let ghost before = texts(out@);
        out.push(parts[last].clone());
        assert(texts(out@) =~= before.push(all.last()));
    }
    out
}

pub open spec fn indented(lines: Seq<Seq<char>>) -> Seq<char>
    decreases lines.len(),
{
    if lines.len() == 0 {
        Seq::empty()
    } else {
        indented(lines.drop_last()) + "    "@ + lines.last() + "\n"@
    }
}

/// The last of a sequence, at most `n` of it.
pub open spec fn last_of(s: Seq<Seq<char>>, n: int) -> Seq<Seq<char>> {
    if s.len() > n {
        s.subrange(s.len() - n, s.len() as int)
    } else {
        s
    }
}

pub open spec fn log_end(path: Seq<char>, text: Seq<char>) -> Seq<char> {
    let tail = last_of(lines_of(text), 8);
    if tail.len() == 0 {
        Seq::empty()
    } else {
        "\n\nThe end of "@ + path + ":\n"@ + indented(tail)
    }
}

/// The last few lines of Strom's log, to put the reason next to the failure.
pub fn tail_of_log(path: &str, text: &str) -> (r: String)
    ensures
        r@ == log_end(path@, text@),
{
    let all = lines(text);
    let ghost views = texts(all@);
    if all.len() == 0 {
        return String::new();
    }
    let from: usize = if all.len() > 8 {
        all.len() - 8
    } else {
        0
    };
    let ghost tail = last_of(views, 8);
    assert(tail =~= views.subrange(from as int, views.len() as int));
    let mut body = String::new();
    let mut i: usize = from;
    while i < all.len()
        invariant
            from <= i <= all@.len(),
            views == texts(all@),
            tail == views.subrange(from as int, views.len() as int),
            body@ == indented(tail.subrange(0, i - from)),
        decreases all@.len() - i,
    {
        assert(tail.subrange(0, i - from + 1).drop_last() =~= tail.subrange(0, i - from));
        assert(tail[i - from] == all@[i as int]@);
        body.append("    ");
        body.append(all[i].as_str());
        body.append("\n");
        i = i + 1;
    }
    assert(tail.subrange(0, tail.len() as int) =~= tail);
    "\n\nThe end of ".to_owned().concat(path).concat(":\n").concat(body.as_str())
}

// ---------------------------------------------------------------------------
// The executable
// ---------------------------------------------------------------------------

/// How the configured executable is looked for.
#[derive(Debug)]
pub enum Lookup {
    /// A path: that file and no other.
    Exactly(String),
    /// A name: the first of these that is a file.
    FirstOf(Vec<String>),
}

pub open spec fn holds_slash(s: Seq<char>) -> bool {
    exists|i: int| 0 <= i < s.len() && s[i] == '/'
}

fn has_slash(s: &str) -> (r: bool)
    ensures
        r == holds_slash(s@),
{
    let v = to_chars(s);
    let mut i: usize = 0;
    while i < v.len()
        invariant
            i <= v@.len(),
            v@ == s@,
            forall|j: int| 0 <= j < i ==> v@[j] != '/',
        decreases v@.len() - i,
    {
        if v[i] == '/' {
            assert(s@[i as int] == '/');
            return true;
        }
        i = i + 1;
    }
    false
}

/// An explicit path, or a name on `PATH`, whose directories are given in order. A path
/// that does not exist must not be looked up under its basename.
pub fn lookup_of(configured: &str, path_dirs: &Vec<String>) -> (r: Lookup)
    ensures
        if holds_slash(configured@) {
            r matches Lookup::Exactly(p) && p@ == configured@
        } else {
            r matches Lookup::FirstOf(v) && texts(v@) == texts(path_dirs@).map_values(
                |d: Seq<char>| below(d, configured@),
            )
        },
{
    if has_slash(configured) {
        return Lookup::Exactly(configured.to_owned());
    }
    let mut out: Vec<String> = Vec::new();
    let mut i: usize = 0;
    while i < path_dirs.len()
        invariant
            i <= path_dirs@.len(),
            out@.len() == i,
            forall|j: int|
                0 <= j < i ==> (#[trigger] out@[j])@ == below(path_dirs@[j]@, configured@),
        decreases path_dirs@.len() - i,
    {
        out.push(join_path(path_dirs[i].as_str(), configured));
        i = i + 1;
    }
    assert(texts(out@) =~= texts(path_dirs@).map_values(|d: Seq<char>| below(d, configured@)));
    Lookup::FirstOf(out)
}

pub open spec fn install_hint() -> Seq<char> {
    "Install Strom, or set [strom] binary to its path:\n    curl -sSL https://raw.githubusercontent.com/Eyevinn/strom/main/install.sh | bash"@
}

pub open spec fn not_found_text(configured: Seq<char>) -> Seq<char> {
    (if holds_slash(configured) {
        "no Strom executable at "@ + configured + ".\n\n"@
    } else {
        "could not find "@ + quoted_text(configured) + " on PATH.\n\n"@
    }) + install_hint()
}

/// What is said when the executable was not found.
pub fn not_found(configured: &str) -> (r: String)
    ensures
        r@ == not_found_text(configured@),
{
    let head = if has_slash(configured) {
        "no Strom executable at ".to_owned().concat(configured).concat(".\n\n")
    } else {
        "could not find ".to_owned().concat(quote(configured).as_str()).concat(" on PATH.\n\n")
    };
    head.concat(
        "Install Strom, or set [strom] binary to its path:\n    curl -sSL https://raw.githubusercontent.com/Eyevinn/strom/main/install.sh | bash",
    )
}

// ---------------------------------------------------------------------------
// What is decided about the local Strom
// ---------------------------------------------------------------------------

/// A port is read from behind the host, whatever path follows, and one that does not fit
/// is none. A host without a colon names no port.
pub proof fn law_the_port_stands_behind_the_host(
    scheme: Seq<char>,
    host: Seq<char>,
    port: nat,
    path: Seq<char>,
)
    requires
        !scheme.contains(':'),
        !host.contains('/'),
        path.len() == 0 || path[0] == '/',
    ensures
        explicit_port(scheme + "://"@ + (host + ":"@ + dec(port) + path)) == (if port <= 65535 {
            Some(port)
        } else {
            None
        }),
        !host.contains(':') ==> explicit_port(scheme + "://"@ + (host + path)) is None,
{
    reveal_strlit(":");
    reveal_strlit("://");
    law_a_notation_names_one_number(port, port);
    law_a_number_is_read_up_to_the_limit(port, u16::MAX as nat);
    let whole = host + ":"@ + dec(port);
    assert(!whole.contains('/')) by {
        assert forall|i: int| 0 <= i < whole.len() implies whole[i] != '/' by {
            if i < host.len() {
                assert(whole[i] == host[i]);
            } else if i > host.len() {
                assert(whole[i] == dec(port)[i - host.len() - 1]);
            }
        }
    }
    assert(whole.last() == dec(port).last());
    assert(host + ":"@ + dec(port) + path =~= whole + path);
    lemma_authority(scheme, whole, path);
    lemma_port_behind_colon(host, dec(port));
    if !host.contains(':') {
        if host.len() > 0 {
            assert(host.last() != ':');
        }
        lemma_authority(scheme, host, path);
        lemma_no_colon(host);
    }
}

proof fn lemma_authority(scheme: Seq<char>, host: Seq<char>, path: Seq<char>)
    requires
        !scheme.contains(':'),
        !host.contains('/'),
        host.len() == 0 || host.last() != ':',
        path.len() == 0 || path[0] == '/',
    ensures
        authority(scheme + "://"@ + (host + path)) == host,
{
    reveal_strlit("://");
    let mark = "://"@;
    let rest = host + path;
    let url = scheme + mark + rest;
    let at = scheme.len() as int;
    assert(url.subrange(at, at + 3) =~= mark);
    assert(has_at(url, mark, at));
    lemma_find_from(url, mark, 0);
    let k = find_text(url, mark)->0;
    if k < at {
        assert(url.subrange(k, k + 3)[0] == url[k]);
        assert(url[k] == scheme[k]);
        assert(scheme.contains(':'));
    }
    assert(k == at);
    assert(url.subrange(k + 3, url.len() as int) =~= rest);
    lemma_find_from(rest, mark, 0);
    let upto = after_scheme(url);
    let end = host.len() as int;
    match find_text(rest, mark) {
        Some(j) => {
            assert(rest.subrange(j, j + 3)[1] == rest[j + 1]);
            assert(rest.subrange(j, j + 3)[0] == rest[j]);
            assert(rest[j] == ':' && rest[j + 1] == '/');
            if j < end {
                assert(rest[j] == host[j]);
                if j + 1 < end {
                    assert(rest[j + 1] == host[j + 1]);
                }
            }
            assert(j >= end);
            assert(path.len() > 0);
            assert(rest[end] == '/');
            assert(j > end);
            assert(upto =~= rest.subrange(0, j));
        },
        None => {},
    }
    lemma_char_from(upto, '/', 0);
    let c = char_from(upto, '/', 0);
    if path.len() > 0 {
        assert(upto[end] == '/');
    }
    if c < end {
        assert(upto[c] == host[c]);
    }
    assert(c == end);
    assert(upto.subrange(0, c) =~= host);
}

proof fn lemma_port_behind_colon(host: Seq<char>, digits: Seq<char>)
    requires
        forall|i: int| 0 <= i < digits.len() ==> '0' <= #[trigger] digits[i] <= '9',
    ensures
        after_last_colon(host + ":"@ + digits) == Some(digits),
    decreases digits.len(),
{
    reveal_strlit(":");
    let s = host + ":"@ + digits;
    if digits.len() == 0 {
        assert(s.last() == ':');
        assert(digits =~= Seq::empty());
    } else {
        assert(s.last() == digits.last());
        assert(s.drop_last() =~= host + ":"@ + digits.drop_last());
        lemma_port_behind_colon(host, digits.drop_last());
        assert(digits.drop_last().push(digits.last()) =~= digits);
    }
}

/// A Strom that answers is adopted and one that wants a credential is refused, whatever
/// the settings say. Where none answers, one is started exactly when that is allowed, its
/// program is there, and the address names a port; otherwise the first of these that is
/// missing is the reason.
pub proof fn law_a_strom_is_started_where_none_answers(
    found: Reachability,
    manage: bool,
    has_binary: bool,
    url: Seq<char>,
)
    ensures
        plan_of(found, manage, has_binary, url) == StromPlan::Adopt <==> found is Reachable,
        found is NeedsCredential ==> plan_of(found, manage, has_binary, url) == StromPlan::Refuse(
            StromRefusal::NeedsCredential,
        ),
        plan_of(found, manage, has_binary, url) is Start <==> found is Unreachable && manage
            && has_binary && explicit_port(url) is Some,
        plan_of(found, manage, has_binary, url) matches StromPlan::Start { port } ==> explicit_port(
            url,
        )->0 as u16 == port,
        found is Unreachable && !manage ==> plan_of(found, manage, has_binary, url)
            == StromPlan::Refuse(StromRefusal::NotManaged),
        found is Unreachable && manage && !has_binary ==> plan_of(found, manage, has_binary, url)
            == StromPlan::Refuse(StromRefusal::NoBinary),
        found is Unreachable && manage && has_binary && explicit_port(url) is None ==> plan_of(
            found,
            manage,
            has_binary,
            url,
        ) == StromPlan::Refuse(StromRefusal::NoPort),
{
}

/// The directory that is set keeps the flows; without one they stand beside the settings.
pub proof fn law_flows_are_kept_where_it_is_set(strom: Strom, p: Places)
    ensures
        strom.data_dir is Some && !blank(strom.data_dir->0@) ==> data_place(strom, p) == trimmed(
            strom.data_dir->0@,
        ),
        strom.data_dir is None ==> data_place(strom, p) == below(user_place(p), "strom-data"@),
{
}

/// A log is read line by line: each ends at a line feed, with or without a carriage
/// return before it, and what stands behind the last is a line only if it is not empty.
pub proof fn law_a_log_is_read_line_by_line(line: Seq<char>, rest: Seq<char>)
    requires
        !line.contains('\n'),
        line.len() == 0 || line.last() != '\r',
    ensures
        lines_of(line.push('\n') + rest) == seq![line] + lines_of(rest),
        lines_of(line.push('\r').push('\n') + rest) == seq![line] + lines_of(rest),
        line.len() > 0 ==> lines_of(line) == seq![line],
        lines_of(Seq::empty()) == Seq::<Seq<char>>::empty(),
{
    lemma_one_line(line, line, rest);
    let cr = line.push('\r');
    assert(!cr.contains('\n')) by {
        assert forall|i: int| 0 <= i < cr.len() implies cr[i] != '\n' by {
            if i < line.len() {
                assert(cr[i] == line[i]);
            }
        }
    }
    assert(cr.drop_last() =~= line);
    lemma_one_line(cr, line, rest);
    lemma_one_piece(line);
    let none: Seq<char> = Seq::empty();
    assert(!none.contains('\n'));
    lemma_one_piece(none);
    assert(lines_of(none) =~= Seq::empty());
    if line.len() > 0 {
        assert(lines_of(line) =~= seq![line]);
    }
}

proof fn lemma_one_piece(line: Seq<char>)
    requires
        !line.contains('\n'),
    ensures
        split_all(line, '\n') == seq![line],
{
    lemma_char_from(line, '\n', 0);
    if char_from(line, '\n', 0) < line.len() {
        assert(line[char_from(line, '\n', 0)] == '\n');
    }
    assert(split_all(line, '\n') =~= seq![line]);
}

proof fn lemma_one_line(piece: Seq<char>, line: Seq<char>, rest: Seq<char>)
    requires
        !piece.contains('\n'),
        bare_line(piece) == line,
    ensures
        lines_of(piece.push('\n') + rest) == seq![line] + lines_of(rest),
{
    law_a_mark_parts_the_pieces(piece, '\n', rest);
    lemma_one_piece(piece);
    law_the_pieces_make_up_the_text(rest, '\n');
    let more = split_all(rest, '\n');
    let all = split_all(piece.push('\n') + rest, '\n');
    assert(all =~= seq![piece] + more);
    assert(all.last() == more.last());
    assert(all.drop_last() =~= seq![piece] + more.drop_last());
    let f = |s: Seq<char>| bare_line(s);
    assert(all.drop_last().map_values(f) =~= seq![line] + more.drop_last().map_values(f));
    assert(lines_of(piece.push('\n') + rest) =~= seq![line] + lines_of(rest));
}

/// Of a log the last eight lines are shown, or all where there are fewer, in their order.
pub proof fn law_the_last_lines_are_shown(lines: Seq<Seq<char>>, line: Seq<char>)
    ensures
        lines.len() <= 8 ==> last_of(lines, 8) == lines,
        lines.len() > 8 ==> last_of(lines, 8).len() == 8 && last_of(lines, 8).is_suffix_of(lines),
        indented(lines.push(line)) == indented(lines) + "    "@ + line + "\n"@,
        indented(Seq::empty()) == Seq::<char>::empty(),
{
    assert(lines.push(line).drop_last() =~= lines);
}

/// A failed start quotes the end of the log, and says nothing of a log that is empty.
pub proof fn law_the_end_of_the_log_is_quoted(path: Seq<char>, text: Seq<char>)
    ensures
        lines_of(text).len() == 0 ==> log_end(path, text) == Seq::<char>::empty(),
        0 < lines_of(text).len() <= 8 ==> log_end(path, text) == "\n\nThe end of "@ + path + ":\n"@
            + indented(lines_of(text)),
        lines_of(text).len() > 8 ==> log_end(path, text) == "\n\nThe end of "@ + path + ":\n"@
            + indented(lines_of(text).subrange(lines_of(text).len() - 8, lines_of(text).len() as int)),
{
}

/// A program that is not there is told by the place it was looked for at: its path where
/// it is one, and else its name.
pub proof fn law_a_missing_program_is_told_by_its_place(configured: Seq<char>, i: int)
    ensures
        0 <= i < configured.len() && configured[i] == '/' ==> not_found_text(configured)
            == "no Strom executable at "@ + configured + ".\n\n"@ + install_hint(),
        !configured.contains('/') ==> not_found_text(configured) == "could not find "@
            + quoted_text(configured) + " on PATH.\n\n"@ + install_hint(),
{
}

} // verus!
