//! `status --watch`: what a screen shows of the status report, gathered again every
//! few seconds.
//!
//! Read-only. The screen shows what `status` prints, plus what only a second look can
//! tell: whether bytes have moved since the last poll, and how the send rate has
//! trended.

use crate::report::{
    law_the_nearest_is_at_most_half_away,
    nearest, rate_text, show_rate, show_whole, whole_text, EndpointReport, FlowReport, InputReport,
    StatusReport, UplinkStatsReport,
};
use crate::text::{dec, decimal, pad, padded, same_text, spaces, texts};
use vstd::arithmetic::div_mod::{
    lemma_div_pos_is_pos, lemma_fundamental_div_mod, lemma_fundamental_div_mod_converse,
};
use vstd::arithmetic::power2::{
    lemma2_to64, lemma_pow2_adds, lemma_pow2_pos, lemma_pow2_strictly_increases, pow2,
};
use vstd::prelude::*;

verus! {

/// Seconds between two rounds of asking. Fast enough to see a link come and go, slow
/// enough that a watched gateway is no noticeable load on either.
pub const REFRESH_SECS: u64 = 2;

/// Rate samples kept per input: two minutes of trend.
pub const HISTORY: usize = 60;

/// A report older than this many nanoseconds is drawn as stale: a poll is taking longer
/// than it should, usually because Strom or Open Live has stopped answering.
pub const STALE_AFTER: u64 = 6_000_000_000;

/// Narrower than this and the header's two columns would run into each other, so
/// they are stacked.
pub const SIDE_BY_SIDE_HEADER: u16 = 110;

pub const COLUMN_SPACING: u16 = 2;

/// How many columns the table has.
pub const COLUMN_COUNT: usize = 12;

pub const TREND_WIDTH: usize = 20;

// ---------------------------------------------------------------------------
// Keys
// ---------------------------------------------------------------------------

#[derive(Clone, Copy, Debug, PartialEq, Eq, Structural)]
pub enum Action {
    Quit,
    Refresh,
}

/// A key as the terminal reports it.
#[derive(Clone, Copy, Debug, PartialEq, Eq, Structural)]
pub enum Key {
    Char(char),
    Esc,
    Other,
}

/// What an event on the terminal asks for: none of them on release, `q`, Escape, and
/// Control-C to quit, `r` to refresh.
pub open spec fn meaning_of_key(key: Option<(Key, bool, bool)>) -> Option<Action> {
    match key {
        None => None,
        Some((code, control, released)) => if released {
            None
        } else if code == Key::Char('q') || code == Key::Esc {
            Some(Action::Quit)
        } else if code == Key::Char('c') && control {
            Some(Action::Quit)
        } else if code == Key::Char('r') {
            Some(Action::Refresh)
        } else {
            None
        },
    }
}

/// The action of an event: a key with whether Control is held and whether it was
/// released, or an event that is no key.
pub fn action(key: Option<(Key, bool, bool)>) -> (r: Option<Action>)
    ensures
        r == meaning_of_key(key),
{
    match key {
        None => None,
        Some((code, control, released)) => {
            if released {
                return None;
            }
            match code {
                Key::Esc => Some(Action::Quit),
                Key::Char(c) => if c == 'q' || (c == 'c' && control) {
                    Some(Action::Quit)
                } else if c == 'r' {
                    Some(Action::Refresh)
                } else {
                    None
                },
                Key::Other => None,
            }
        },
    }
}

/// The keys that do something, each with what it does, as the last line names them.
pub fn key_hints() -> (r: Vec<(&'static str, &'static str)>)
    ensures
        r@.len() == 2,
        r@[0].0@ == "q"@ && r@[0].1@ == " quit   "@,
        r@[1].0@ == "r"@ && r@[1].1@ == " refresh now   "@,
{
    vec![("q", " quit   "), ("r", " refresh now   ")]
}

// ---------------------------------------------------------------------------
// What successive reports say about one input
// ---------------------------------------------------------------------------

/// Where an input's bytes are going, judged the way `up` judges it: bytes moving
/// between two polls is the test, not a `connected` flag, which srtsink keeps
/// reporting for a peer that has gone.
#[derive(Clone, Copy, Debug, PartialEq, Eq, Structural)]
pub enum Delivery {
    /// No flow, or a flow that is not running.
    Nowhere,
    /// The flow runs but nothing is connected to the uplink. Normal until the source
    /// is assigned to a production.
    NoReceiver,
    /// A receiver is connected; the next poll tells whether bytes move.
    Connected,
    /// Bytes moved since the last poll.
    OnAir,
    /// A receiver is connected but the byte counter did not move.
    Stalled,
}

pub open spec fn delivery_label(d: Delivery) -> Seq<char> {
    match d {
        Delivery::Nowhere => "-"@,
        Delivery::NoReceiver => "no receiver"@,
        Delivery::Connected => "connected"@,
        Delivery::OnAir => "on air"@,
        Delivery::Stalled => "stalled"@,
    }
}

impl Delivery {
    pub fn label(self) -> (r: &'static str)
        ensures
            r@ == delivery_label(self),
    {
        match self {
            Delivery::Nowhere => "-",
            Delivery::NoReceiver => "no receiver",
            Delivery::Connected => "connected",
            Delivery::OnAir => "on air",
            Delivery::Stalled => "stalled",
        }
    }
}

/// What successive reports say about one input.
#[derive(Debug)]
pub struct Trend {
    pub last_bytes: Option<u64>,
    pub delivery: Delivery,
    /// The bits of the send rate per poll, newest last. None when there was nothing to
    /// measure.
    pub rates: Vec<Option<u64>>,
}

pub struct TrendView {
    pub last_bytes: Option<u64>,
    pub delivery: Delivery,
    pub rates: Seq<Option<u64>>,
}

pub open spec fn no_trend() -> TrendView {
    TrendView { last_bytes: None, delivery: Delivery::Nowhere, rates: Seq::empty() }
}

pub open spec fn is_running(flow: Option<FlowReport>) -> bool {
    flow is Some && flow->0.running
}

pub open spec fn measured(input: InputReport) -> Option<UplinkStatsReport> {
    if is_running(input.flow) {
        input.uplink
    } else {
        None
    }
}

pub open spec fn bytes_of(s: UplinkStatsReport) -> u64 {
    match s.bytes_sent {
        Some(n) => n,
        None => 0,
    }
}

/// The newest samples, as many as are kept.
pub open spec fn newest(rates: Seq<Option<u64>>, n: int) -> Seq<Option<u64>> {
    if rates.len() > n {
        rates.subrange(rates.len() - n, rates.len() as int)
    } else {
        rates
    }
}

pub open spec fn rate_of(s: Option<UplinkStatsReport>) -> Option<u64> {
    match s {
        Some(s) => match s.send_rate_mbps {
            Some(r) => Some(r.bits),
            None => None,
        },
        None => None,
    }
}

/// A trend after one more report. A gap forgets the byte counter: a reconnect restarts
/// it, so the first sample after a gap is not compared with the one before.
pub open spec fn observed(t: TrendView, input: InputReport) -> TrendView {
    TrendView {
        last_bytes: match measured(input) {
            Some(s) => Some(bytes_of(s)),
            None => None,
        },
        delivery: match measured(input) {
            None => if is_running(input.flow) {
                Delivery::NoReceiver
            } else {
                Delivery::Nowhere
            },
            Some(s) => match t.last_bytes {
                None => Delivery::Connected,
                Some(before) => if bytes_of(s) != before && bytes_of(s) > 0 {
                    Delivery::OnAir
                } else {
                    Delivery::Stalled
                },
            },
        },
        rates: newest(t.rates.push(rate_of(measured(input))), HISTORY as int),
    }
}

impl Trend {
    pub open spec fn view(&self) -> TrendView {
        TrendView { last_bytes: self.last_bytes, delivery: self.delivery, rates: self.rates@ }
    }

    pub open spec fn wf(&self) -> bool {
        self.rates@.len() <= HISTORY
    }

    pub fn new() -> (r: Trend)
        ensures
            r@ == no_trend(),
            r.wf(),
    {
        Trend { last_bytes: None, delivery: Delivery::Nowhere, rates: Vec::new() }
    }

    pub fn copy(&self) -> (r: Trend)
        ensures
            r@ == self@,
            r.rates@ == self.rates@,
    {
        let mut rates: Vec<Option<u64>> = Vec::new();
        let mut i: usize = 0;
        while i < self.rates.len()
            invariant
                i <= self.rates@.len(),
                rates@ == self.rates@.subrange(0, i as int),
            decreases self.rates@.len() - i,
        {
            rates.push(self.rates[i]);
            i = i + 1;
        }
        assert(rates@ =~= self.rates@);
        Trend { last_bytes: self.last_bytes, delivery: self.delivery, rates }
    }

    pub fn observe(&mut self, input: &InputReport)
        requires
            old(self).wf(),
        ensures
            final(self)@ == observed(old(self)@, *input),
            final(self).wf(),
    {
        let running: bool = match &input.flow {
            Some(f) => f.running,
            None => false,
        };
        let stats: Option<UplinkStatsReport> = if running {
            input.uplink
        } else {
            None
        };
        let mut rate: Option<u64> = None;
        match stats {
            None => {
                self.last_bytes = None;
                self.delivery = if running {
                    Delivery::NoReceiver
                } else {
                    Delivery::Nowhere
                };
            },
            Some(s) => {
                let bytes: u64 = s.bytes_sent.unwrap_or(0);
                self.delivery = match self.last_bytes {
                    None => Delivery::Connected,
                    Some(before) => if bytes != before && bytes > 0 {
                        Delivery::OnAir
                    } else {
                        Delivery::Stalled
                    },
                };
                self.last_bytes = Some(bytes);
                if let Some(r) = s.send_rate_mbps {
                    rate = Some(r.bits);
                }
            },
        }
        let ghost before = self.rates@;
        self.rates.push(rate);
        let ghost all = self.rates@;
        if self.rates.len() > HISTORY {
            self.rates.remove(0);
            assert(self.rates@ =~= newest(all, HISTORY as int));
        }
        assert(self.rates@ =~= newest(before.push(rate), HISTORY as int));
    }
}

/// A receiver that comes back starts over: after a report without one, the next sample
/// is only a connection, whatever the counter was before.
pub proof fn law_a_receiver_that_comes_back_starts_over(
    t: TrendView,
    gap: InputReport,
    back: InputReport,
)
    requires
        measured(gap) is None,
        measured(back) is Some,
    ensures
        observed(observed(t, gap), back).delivery == Delivery::Connected,
{
}

// ---------------------------------------------------------------------------
// What is on screen
// ---------------------------------------------------------------------------

/// What is on screen: the latest report and, per input, what successive reports
/// reveal that a single one cannot.
#[derive(Debug)]
pub struct Watch {
    pub gateway: String,
    pub report: Option<StatusReport>,
    /// Why the last poll produced no report. The previous report stays on screen.
    pub poll_error: Option<String>,
    /// When the report came, in nanoseconds of some clock.
    pub refreshed: Option<u64>,
    pub trends: Vec<(String, Trend)>,
}

pub open spec fn trends_map(s: Seq<(String, Trend)>) -> Map<Seq<char>, TrendView>
    decreases s.len(),
{
    if s.len() == 0 {
        Map::empty()
    } else {
        trends_map(s.drop_last()).insert(s.last().0@, s.last().1@)
    }
}

pub open spec fn trend_or_new(m: Map<Seq<char>, TrendView>, name: Seq<char>) -> TrendView {
    if m.contains_key(name) {
        m[name]
    } else {
        no_trend()
    }
}

/// The trends after a report: of its inputs and no others, each as it was with the
/// report added.
pub open spec fn trends_after(old: Map<Seq<char>, TrendView>, inputs: Seq<InputReport>) -> Map<
    Seq<char>,
    TrendView,
>
    decreases inputs.len(),
{
    if inputs.len() == 0 {
        Map::empty()
    } else {
        let m = trends_after(old, inputs.drop_last());
        let input = inputs.last();
        let before = if m.contains_key(input.name@) {
            m[input.name@]
        } else {
            trend_or_new(old, input.name@)
        };
        m.insert(input.name@, observed(before, input))
    }
}

pub open spec fn trends_wf(s: Seq<(String, Trend)>) -> bool {
    forall|i: int| 0 <= i < s.len() ==> (#[trigger] s[i]).1.wf()
}

fn find_trend(s: &Vec<(String, Trend)>, name: &str) -> (r: Option<usize>)
    ensures
        match r {
            Some(k) => k < s@.len() && trends_map(s@).contains_key(name@) && trends_map(s@)[name@]
                == s@[k as int].1@,
            None => !trends_map(s@).contains_key(name@),
        },
{
    let mut i: usize = s.len();
    assert(s@.subrange(0, i as int) =~= s@);
    while i > 0
        invariant
            i <= s@.len(),
            trends_map(s@).contains_key(name@) == trends_map(
                s@.subrange(0, i as int),
            ).contains_key(name@),
            trends_map(s@).contains_key(name@) ==> trends_map(s@)[name@] == trends_map(
                s@.subrange(0, i as int),
            )[name@],
        decreases i,
    {
        let ghost upto = s@.subrange(0, i as int);
        assert(upto.drop_last() =~= s@.subrange(0, i - 1));
        i = i - 1;
        if same_text(s[i].0.as_str(), name) {
            return Some(i);
        }
    }
    None
}

/// The lines under the table: everything that deserves one.
pub open spec fn attention(report: Option<StatusReport>, poll_error: Option<String>) -> Seq<
    Seq<char>,
> {
    (match report {
        Some(r) => (if r.uplink is None && r.uplink_error is Some {
            seq!["Uplink not resolved: "@ + r.uplink_error->0@]
        } else {
            Seq::empty()
        }) + (match r.strom.error {
            Some(err) => seq![
                "Strom at "@ + r.strom.url@ + " is not reachable ("@ + err@ + ")"@,
            ],
            None => Seq::empty(),
        }) + (match r.open_live {
            Some(o) => match o.error {
                Some(err) => seq!["Open Live is not reachable ("@ + err@ + ")"@],
                None => Seq::empty(),
            },
            None => Seq::empty(),
        }),
        None => Seq::empty(),
    }) + (match poll_error {
        Some(err) => seq!["Could not gather status: "@ + err@],
        None => Seq::empty(),
    })
}

impl Watch {
    pub open spec fn wf(&self) -> bool {
        trends_wf(self.trends@)
    }

    /// The trends by input name.
    pub open spec fn trends_view(&self) -> Map<Seq<char>, TrendView> {
        trends_map(self.trends@)
    }

    pub fn new(gateway: String) -> (r: Watch)
        ensures
            r.wf(),
            r.gateway == gateway,
            r.report is None,
            r.poll_error is None,
            r.refreshed is None,
            r.trends_view() == Map::<Seq<char>, TrendView>::empty(),
    {
        Watch { gateway, report: None, poll_error: None, refreshed: None, trends: Vec::new() }
    }

    /// Takes a report in, or the reason there is none; then the previous one stays.
    pub fn apply(&mut self, report: Result<StatusReport, String>, now: u64)
        requires
            old(self).wf(),
        ensures
            final(self).wf(),
            final(self).gateway == old(self).gateway,
            match report {
                Ok(r) => {
                    &&& final(self).report == Some(r)
                    &&& final(self).poll_error is None
                    &&& final(self).refreshed == Some(now)
                    &&& final(self).trends_view() == trends_after(
                        old(self).trends_view(),
                        r.inputs@,
                    )
                },
                Err(err) => {
                    &&& final(self).report == old(self).report
                    &&& final(self).poll_error == Some(err)
                    &&& final(self).refreshed == old(self).refreshed
                    &&& final(self).trends == old(self).trends
                },
            },
    {
        match report {
            Ok(r) => {
                let mut next: Vec<(String, Trend)> = Vec::new();
                let mut i: usize = 0;
                while i < r.inputs.len()
                    invariant
                        i <= r.inputs@.len(),
                        *self == *old(self),
                        self.wf(),
                        trends_wf(next@),
                        trends_map(next@) == trends_after(
                            self.trends_view(),
                            r.inputs@.subrange(0, i as int),
                        ),
                    decreases r.inputs@.len() - i,
                {
                    let ghost upto = r.inputs@.subrange(0, i + 1);
                    assert(upto.drop_last() =~= r.inputs@.subrange(0, i as int));
                    let name = r.inputs[i].name.clone();
                    let mut trend = match find_trend(&next, name.as_str()) {
                        Some(k) => next[k].1.copy(),
                        None => match find_trend(&self.trends, name.as_str()) {
                            Some(k) => self.trends[k].1.copy(),
                            None => Trend::new(),
                        },
                    };
                    trend.observe(&r.inputs[i]);
                    let ghost had = next@;
                    next.push((name, trend));
                    assert(next@.drop_last() =~= had);
                    i = i + 1;
                }
                assert(r.inputs@.subrange(0, r.inputs@.len() as int) =~= r.inputs@);
                self.trends = next;
                self.report = Some(r);
                self.poll_error = None;
                self.refreshed = Some(now);
            },
            Err(err) => {
                self.poll_error = Some(err);
            },
        }
    }

    pub fn trend(&self, name: &str) -> (r: Trend)
        requires
            self.wf(),
        ensures
            r@ == trend_or_new(self.trends_view(), name@),
            r.wf(),
    {
        match find_trend(&self.trends, name) {
            Some(k) => self.trends[k].1.copy(),
            None => Trend::new(),
        }
    }

    /// The title of the box under the table; none where nothing deserves a line in it.
    pub fn notes_title(&self) -> (r: Option<&'static str>)
        ensures
            match r {
                Some(title) => attention(self.report, self.poll_error).len() > 0 && title@
                    == "Attention"@,
                None => attention(self.report, self.poll_error).len() == 0,
            },
    {
        let messages = self.messages();
        assert(texts(messages@).len() == messages@.len());
        if messages.len() > 0 {
            Some("Attention")
        } else {
            None
        }
    }

    /// Everything that deserves a line under the table.
    pub fn messages(&self) -> (r: Vec<String>)
        ensures
            texts(r@) == attention(self.report, self.poll_error),
    {
        let mut out: Vec<String> = Vec::new();
        if let Some(r) = &self.report {
            if r.uplink.is_none() {
                if let Some(err) = &r.uplink_error {
                    out.push("Uplink not resolved: ".to_owned().concat(err.as_str()));
                }
            }
            if let Some(err) = &r.strom.error {
                out.push(
                    "Strom at ".to_owned().concat(r.strom.url.as_str()).concat(
                        " is not reachable (",
                    ).concat(err.as_str()).concat(")"),
                );
            }
            if let Some(o) = &r.open_live {
                if let Some(err) = &o.error {
                    out.push(
                        "Open Live is not reachable (".to_owned().concat(err.as_str()).concat(")"),
                    );
                }
            }
        }
        if let Some(err) = &self.poll_error {
            out.push("Could not gather status: ".to_owned().concat(err.as_str()));
        }
        assert(texts(out@) =~= attention(self.report, self.poll_error));
        out
    }
}

/// The trends of inputs that vanished from the report are dropped.
pub proof fn law_trends_follow_the_report(
    old: Map<Seq<char>, TrendView>,
    inputs: Seq<InputReport>,
    name: Seq<char>,
)
    ensures
        trends_after(old, inputs).contains_key(name) <==> exists|i: int|
            0 <= i < inputs.len() && (#[trigger] inputs[i]).name@ == name,
    decreases inputs.len(),
{
    if inputs.len() > 0 {
        let init = inputs.drop_last();
        law_trends_follow_the_report(old, init, name);
        if exists|i: int| 0 <= i < init.len() && (#[trigger] init[i]).name@ == name {
            let i = choose|i: int| 0 <= i < init.len() && (#[trigger] init[i]).name@ == name;
            assert(inputs[i].name@ == name);
        }
        if inputs.last().name@ == name {
            assert(inputs[inputs.len() - 1].name@ == name);
        }
        if exists|i: int| 0 <= i < inputs.len() && (#[trigger] inputs[i]).name@ == name {
            let i = choose|i: int| 0 <= i < inputs.len() && (#[trigger] inputs[i]).name@ == name;
            if i < inputs.len() - 1 {
                assert(init[i].name@ == name);
            }
        }
    }
}

// ---------------------------------------------------------------------------
// The trend as bars
// ---------------------------------------------------------------------------

pub open spec fn bar(level: int) -> char {
    if level <= 0 {
        '▁'
    } else if level == 1 {
        '▂'
    } else if level == 2 {
        '▃'
    } else if level == 3 {
        '▄'
    } else if level == 4 {
        '▅'
    } else if level == 5 {
        '▆'
    } else if level == 6 {
        '▇'
    } else {
        '█'
    }
}

/// The bits of an infinite double. The finite ones that are not negative lie below, in
/// the order of their bits; the negative ones, and what is no number, lie above.
pub const INFINITE: u64 = 0x7FF0_0000_0000_0000;

/// How many doubles share an exponent.
pub const PER_EXPONENT: u64 = 0x10_0000_0000_0000;

/// The digits of a finite double that is not negative, as a whole number.
pub open spec fn mantissa_of(bits: u64) -> int {
    if bits < PER_EXPONENT {
        bits as int
    } else {
        PER_EXPONENT + bits as int % PER_EXPONENT as int
    }
}

/// How often its digits are doubled.
pub open spec fn doublings_of(bits: u64) -> nat {
    if bits < PER_EXPONENT {
        0
    } else {
        (bits as int / PER_EXPONENT as int - 1) as nat
    }
}

/// The value of a finite double that is not negative, counted in the smallest of them.
pub open spec fn value_of(bits: u64) -> int {
    mantissa_of(bits) * pow2(doublings_of(bits))
}

/// A rate as it counts towards the scale: one below zero counts as none.
pub open spec fn counted(bits: u64) -> u64 {
    if bits <= INFINITE {
        bits
    } else {
        0
    }
}

pub open spec fn highest(rates: Seq<Option<u64>>) -> u64
    decreases rates.len(),
{
    if rates.len() == 0 {
        0
    } else {
        let rest = highest(rates.drop_last());
        match rates.last() {
            Some(r) => if counted(r) > rest {
                counted(r)
            } else {
                rest
            },
            None => rest,
        }
    }
}

/// The power of two that leaves a quotient between a sixteenth and one the digits of a
/// double in front of the point.
pub open spec fn scale_for(n: int, d: int) -> int {
    if n >= d {
        0x10_0000_0000_0000
    } else if 2 * n >= d {
        0x20_0000_0000_0000
    } else if 4 * n >= d {
        0x40_0000_0000_0000
    } else if 8 * n >= d {
        0x80_0000_0000_0000
    } else {
        0x100_0000_0000_0000
    }
}

/// Seven times the digits of a double, as far as a double has room for them.
pub open spec fn sevenfold(digits: int) -> int {
    if 7 * digits >= 0x80_0000_0000_0000 {
        nearest(7 * digits, 8) * 8
    } else {
        nearest(7 * digits, 4) * 4
    }
}

/// How many sevenths of `d` are in `n`, to the nearest, computed in doubles: the quotient
/// is rounded to one, and so is seven times that. Less than a sixteenth is none, however
/// it is rounded.
pub open spec fn sevenths(n: int, d: int) -> int {
    if 16 * n < d {
        0
    } else {
        let scale = scale_for(n, d);
        (2 * sevenfold(nearest(n * scale, d)) + scale) / (2 * scale)
    }
}

/// One of eight levels.
pub open spec fn level_of(rate: u64, max: u64) -> int {
    sevenths(value_of(rate), value_of(max))
}

pub open spec fn bar_of(rate: Option<u64>, max: u64) -> char {
    match rate {
        None => ' ',
        Some(r) => if max == 0 || max == INFINITE {
            bar(0)
        } else {
            bar(level_of(counted(r), max))
        },
    }
}

/// The newest `width` samples as bars, newest at the right, scaled to the highest of
/// them. A poll with nothing to measure leaves a gap.
pub open spec fn bars(rates: Seq<Option<u64>>, width: int) -> Seq<char> {
    let recent = newest(rates, width);
    spaces(width - recent.len()) + recent.map_values(
        |r: Option<u64>| bar_of(r, highest(recent)),
    )
}

proof fn lemma_nearest_scaled(n: int, d: int, shared: int)
    requires
        0 <= n,
        0 < d,
        0 < shared,
    ensures
        nearest(n * shared, d * shared) == nearest(n, d),
{
    let q = n / d;
    let r = n % d;
    lemma_fundamental_div_mod(n, d);
    assert(n * shared == q * (d * shared) + r * shared) by (nonlinear_arith)
        requires
            n == d * q + r,
    ;
    assert(0 <= r * shared < d * shared) by (nonlinear_arith)
        requires
            0 <= r < d,
            0 < shared,
    ;
    lemma_fundamental_div_mod_converse(n * shared, d * shared, q, r * shared);
    assert((2 * (r * shared) > d * shared) == (2 * r > d)) by (nonlinear_arith)
        requires
            0 < shared,
    ;
    assert((2 * (r * shared) == d * shared) == (2 * r == d)) by (nonlinear_arith)
        requires
            0 < shared,
    ;
}

/// A factor that both values share changes nothing.
proof fn lemma_sevenths_scaled(n: int, d: int, shared: int)
    requires
        0 <= n,
        0 < d,
        0 < shared,
    ensures
        sevenths(n * shared, d * shared) == sevenths(n, d),
{
    assert forall|k: int| 0 < k implies (#[trigger] (k * (n * shared)) >= d * shared) == (k * n
        >= d) by {
        assert((k * (n * shared) >= d * shared) == (k * n >= d)) by (nonlinear_arith)
            requires
                0 < shared,
        ;
    }
    assert(1 * (n * shared) == n * shared);
    assert((16 * (n * shared) >= d * shared) == (16 * n >= d));
    assert((8 * (n * shared) >= d * shared) == (8 * n >= d));
    assert((4 * (n * shared) >= d * shared) == (4 * n >= d));
    assert((2 * (n * shared) >= d * shared) == (2 * n >= d));
    assert((n * shared >= d * shared) == (n >= d));
    let scale = scale_for(n, d);
    assert(scale_for(n * shared, d * shared) == scale);
    assert(n * shared * scale == n * scale * shared) by (nonlinear_arith);
    assert(0 <= n * scale) by (nonlinear_arith)
        requires
            0 <= n,
            0 < scale,
    ;
    lemma_nearest_scaled(n * scale, d, shared);
}

fn round_quotient(n: u128, d: u128) -> (r: u128)
    requires
        0 < d < 0x1000_0000_0000_0000_0000_0000_0000_0000,
        n < 0x1000_0000_0000_0000_0000_0000_0000_0000,
    ensures
        r == nearest(n as int, d as int),
        r <= n + 1,
{
    let q: u128 = n / d;
    let twice: u128 = 2 * (n % d);
    proof {
        lemma_fundamental_div_mod(n as int, d as int);
        assert(q <= n) by (nonlinear_arith)
            requires
                q == n / d,
                0 < d,
                0 <= n,
        ;
    }
    if twice > d || (twice == d && q % 2 == 1) {
        q + 1
    } else {
        q
    }
}

/// The level of one value beside another, by their digits.
fn count_sevenths(n: u64, d: u64) -> (r: u64)
    requires
        n < 2 * PER_EXPONENT,
        0 < d <= 32 * PER_EXPONENT,
    ensures
        r == sevenths(n as int, d as int),
{
    if 16 * n < d {
        return 0;
    }
    let scale: u128 = if n >= d {
        0x10_0000_0000_0000
    } else if 2 * n >= d {
        0x20_0000_0000_0000
    } else if 4 * n >= d {
        0x40_0000_0000_0000
    } else if 8 * n >= d {
        0x80_0000_0000_0000
    } else {
        0x100_0000_0000_0000
    };
    assert(n as int * scale as int <= 0x20_0000_0000_0000 * 0x100_0000_0000_0000)
        by (nonlinear_arith)
        requires
            0 <= n as int <= 0x20_0000_0000_0000,
            0 <= scale as int <= 0x100_0000_0000_0000,
    ;
    let digits: u128 = round_quotient(n as u128 * scale, d as u128);
    let product: u128 = if 7 * digits >= 0x80_0000_0000_0000 {
        round_quotient(7 * digits, 8) * 8
    } else {
        round_quotient(7 * digits, 4) * 4
    };
    let level: u128 = (2 * product + scale) / (2 * scale);
    proof {
        lemma_few_sevenths(n as int, d as int);
    }
    level as u64
}

/// The level is far below what a machine word holds.
proof fn lemma_few_sevenths(n: int, d: int)
    requires
        0 <= n < 0x20_0000_0000_0000,
        0 < d,
        16 * n >= d,
    ensures
        0 <= sevenths(n, d) <= 0x1000_0000_0000_0000,
{
    let scale = scale_for(n, d);
    let m = nearest(n * scale, d);
    let q = n * scale / d;
    lemma_fundamental_div_mod(n * scale, d);
    assert(0 <= q <= n * scale && q <= m <= q + 1) by {
        assert(0 <= n * scale) by (nonlinear_arith)
            requires
                0 <= n,
                0 < scale,
        ;
        lemma_div_pos_is_pos(n * scale, d);
        assert(q <= n * scale) by (nonlinear_arith)
            requires
                q == n * scale / d,
                0 < d,
                0 <= n * scale,
        ;
    }
    let p = sevenfold(m);
    assert(p <= 7 * m + 8 && p >= 0);
    assert(n * scale <= 0x20_0000_0000_0000 * scale) by (nonlinear_arith)
        requires
            n <= 0x20_0000_0000_0000,
            0 < scale,
    ;
    let top = 2 * p + scale;
    assert(top <= 0x1000_0000_0000_0000 * (2 * scale));
    assert(0 <= top / (2 * scale) <= 0x1000_0000_0000_0000) by (nonlinear_arith)
        requires
            0 <= top <= 0x1000_0000_0000_0000 * (2 * scale),
            0 < scale,
    ;
}

proof fn lemma_parts(bits: u64)
    ensures
        0 <= mantissa_of(bits) < 2 * PER_EXPONENT,
        doublings_of(bits) > 0 ==> mantissa_of(bits) >= PER_EXPONENT,
        bits > 0 ==> mantissa_of(bits) > 0,
        bits > 0 ==> value_of(bits) > 0,
        value_of(bits) >= 0,
{
    let m = mantissa_of(bits);
    let p = pow2(doublings_of(bits)) as int;
    lemma_pow2_pos(doublings_of(bits));
    assert(m * p >= 0) by (nonlinear_arith)
        requires
            m >= 0,
            p > 0,
    ;
    if m > 0 {
        assert(m * p > 0) by (nonlinear_arith)
            requires
                m > 0,
                p > 0,
        ;
    }
}

/// The level of a rate beside the highest, by the digits of both.
fn level_between(rate: u64, max: u64) -> (r: u64)
    requires
        rate <= max < INFINITE,
        0 < max,
    ensures
        r == level_of(rate, max),
{
    let m: u64 = if rate < PER_EXPONENT {
        rate
    } else {
        PER_EXPONENT + rate % PER_EXPONENT
    };
    let n: u64 = if max < PER_EXPONENT {
        max
    } else {
        PER_EXPONENT + max % PER_EXPONENT
    };
    let less: u64 = if rate < PER_EXPONENT {
        0
    } else {
        rate / PER_EXPONENT - 1
    };
    let more: u64 = if max < PER_EXPONENT {
        0
    } else {
        max / PER_EXPONENT - 1
    };
    proof {
        lemma_parts(rate);
        lemma_parts(max);
        assert(less <= more);
    }
    let apart: u64 = more - less;
    let factor: u64 = if apart == 0 {
        1
    } else if apart == 1 {
        2
    } else if apart == 2 {
        4
    } else if apart == 3 {
        8
    } else if apart == 4 {
        16
    } else {
        32
    };
    let ghost shared = pow2(less as nat) as int;
    let ghost wide = n as int * pow2(apart as nat);
    proof {
        lemma_pow2_pos(less as nat);
        lemma2_to64();
        lemma_pow2_adds(apart as nat, less as nat);
        assert(n as int * pow2(more as nat) == wide * shared) by (nonlinear_arith)
            requires
                pow2(more as nat) == pow2(apart as nat) * pow2(less as nat),
                wide == n as int * pow2(apart as nat),
                shared == pow2(less as nat),
        ;
        if apart > 5 {
            lemma_pow2_strictly_increases(5, apart as nat);
        }
        assert(wide >= n as int * factor as int) by (nonlinear_arith)
            requires
                wide == n as int * pow2(apart as nat),
                pow2(apart as nat) >= factor as int,
                n as int >= 0,
        ;
        assert(n as int * factor as int > 0) by (nonlinear_arith)
            requires
                n as int > 0,
                factor as int > 0,
        ;
        lemma_sevenths_scaled(m as int, wide, shared);
        assert(level_of(rate, max) == sevenths(m as int, wide));
    }
    if apart > 4 {
        assert(n >= PER_EXPONENT && factor == 32);
        assert(16 * m < wide);
        return 0;
    }
    assert(wide == n * factor);
    assert(n * factor <= 32 * PER_EXPONENT) by (nonlinear_arith)
        requires
            n <= 2 * PER_EXPONENT,
            factor <= 16,
            n >= 0,
    ;
    count_sevenths(m, n * factor)
}

fn write_bar(rate: Option<u64>, max: u64) -> (r: char)
    requires
        max <= INFINITE,
        rate matches Some(bits) ==> counted(bits) <= max,
    ensures
        r == bar_of(rate, max),
{
    let level: u64 = match rate {
        None => return ' ',
        Some(r) => if max == 0 || max == INFINITE {
            0
        } else if r <= INFINITE {
            level_between(r, max)
        } else {
            level_between(0, max)
        },
    };
    if level == 0 {
        '▁'
    } else if level == 1 {
        '▂'
    } else if level == 2 {
        '▃'
    } else if level == 3 {
        '▄'
    } else if level == 4 {
        '▅'
    } else if level == 5 {
        '▆'
    } else if level == 6 {
        '▇'
    } else {
        '█'
    }
}

proof fn lemma_highest(rates: Seq<Option<u64>>)
    ensures
        highest(rates) <= INFINITE,
        forall|i: int|
            0 <= i < rates.len() && (#[trigger] rates[i]) is Some ==> counted(rates[i]->0)
                <= highest(rates),
    decreases rates.len(),
{
    if rates.len() > 0 {
        lemma_highest(rates.drop_last());
        assert forall|i: int|
            0 <= i < rates.len() && (#[trigger] rates[i]) is Some implies counted(rates[i]->0)
            <= highest(rates) by {
            if i < rates.len() - 1 {
                assert(rates.drop_last()[i] == rates[i]);
            }
        }
    }
}

pub fn sparkline(rates: &Vec<Option<u64>>, width: usize) -> (r: String)
    ensures
        r@ == bars(rates@, width as int),
{
    let from: usize = if rates.len() > width {
        rates.len() - width
    } else {
        0
    };
    let ghost recent = newest(rates@, width as int);
    assert(recent =~= rates@.subrange(from as int, rates@.len() as int));
    let mut max: u64 = 0;
    let mut i: usize = from;
    while i < rates.len()
        invariant
            from <= i <= rates@.len(),
            recent == rates@.subrange(from as int, rates@.len() as int),
            max == highest(recent.subrange(0, i - from)),
        decreases rates@.len() - i,
    {
        assert(recent.subrange(0, i - from + 1).drop_last() =~= recent.subrange(0, i - from));
        assert(recent[i - from] == rates@[i as int]);
        if let Some(r) = rates[i] {
            if r <= INFINITE && r > max {
                max = r;
            }
        }
        i = i + 1;
    }
    assert(recent.subrange(0, recent.len() as int) =~= recent);
    proof {
        lemma_highest(recent);
    }
    let mut out = pad("", width - (rates.len() - from));
    let ghost lead = out@;
    proof {
        reveal_strlit("");
        assert(out@ =~= spaces(width - recent.len()));
    }
    let ghost drawn = recent.map_values(|r: Option<u64>| bar_of(r, max));
    let mut i: usize = from;
    assert(out@ =~= lead + drawn.subrange(0, 0));
    while i < rates.len()
        invariant
            from <= i <= rates@.len(),
            recent == rates@.subrange(from as int, rates@.len() as int),
            drawn == recent.map_values(|r: Option<u64>| bar_of(r, max)),
            out@ == lead + drawn.subrange(0, i - from),
            max <= INFINITE,
            forall|j: int|
                0 <= j < recent.len() && (#[trigger] recent[j]) is Some ==> counted(recent[j]->0)
                    <= max,
        decreases rates@.len() - i,
    {
        assert(recent[i - from] == rates@[i as int]);
        let c: char = write_bar(rates[i], max);
        out.push(c);
        assert(drawn.subrange(0, i - from + 1) =~= drawn.subrange(0, i - from).push(c));
        assert(out@ =~= lead + drawn.subrange(0, i - from + 1));
        i = i + 1;
    }
    assert(drawn.subrange(0, drawn.len() as int) =~= drawn);
    assert(drawn =~= recent.map_values(|r: Option<u64>| bar_of(r, highest(recent))));
    out
}

/// The bars fill their column exactly, and the highest rate among them has the highest
/// bar.
pub proof fn law_the_highest_rate_has_the_highest_bar(
    rates: Seq<Option<u64>>,
    width: int,
    i: int,
)
    requires
        0 < width,
        0 <= i < newest(rates, width).len(),
        newest(rates, width)[i] is Some,
        newest(rates, width)[i]->0 == highest(newest(rates, width)),
        0 < highest(newest(rates, width)) < INFINITE,
    ensures
        bars(rates, width).len() == width,
        bars(rates, width)[width - newest(rates, width).len() + i] == '█',
{
    let recent = newest(rates, width);
    let max = highest(recent);
    lemma_parts(max);
    let v = value_of(max);
    let scale: int = 0x10_0000_0000_0000;
    lemma_fundamental_div_mod_converse(v * scale, v, scale, 0);
    assert(scale_for(v, v) == scale);
    assert(nearest(v * scale, v) == scale);
    assert(sevenfold(scale) == 7 * scale);
    assert(!(16 * v < v));
    assert((2 * (7 * scale) + scale) / (2 * scale) == 7);
    assert(sevenths(v, v) == (2 * sevenfold(nearest(v * scale, v)) + scale) / (2 * scale));
}

// ---------------------------------------------------------------------------
// The table
// ---------------------------------------------------------------------------

/// The columns, from left to right.
#[derive(Clone, Copy, Debug, PartialEq, Eq, Structural)]
pub enum Column {
    Input,
    Flow,
    Uplink,
    Rate,
    Rtt,
    Latency,
    Lost,
    Retransmitted,
    Dropped,
    Buffer,
    OpenLive,
    Trend,
}

pub open spec fn column_at(i: int) -> Column {
    if i == 0 {
        Column::Input
    } else if i == 1 {
        Column::Flow
    } else if i == 2 {
        Column::Uplink
    } else if i == 3 {
        Column::Rate
    } else if i == 4 {
        Column::Rtt
    } else if i == 5 {
        Column::Latency
    } else if i == 6 {
        Column::Lost
    } else if i == 7 {
        Column::Retransmitted
    } else if i == 8 {
        Column::Dropped
    } else if i == 9 {
        Column::Buffer
    } else if i == 10 {
        Column::OpenLive
    } else {
        Column::Trend
    }
}

pub fn nth_column(i: usize) -> (r: Column)
    ensures
        r == column_at(i as int),
{
    if i == 0 {
        Column::Input
    } else if i == 1 {
        Column::Flow
    } else if i == 2 {
        Column::Uplink
    } else if i == 3 {
        Column::Rate
    } else if i == 4 {
        Column::Rtt
    } else if i == 5 {
        Column::Latency
    } else if i == 6 {
        Column::Lost
    } else if i == 7 {
        Column::Retransmitted
    } else if i == 8 {
        Column::Dropped
    } else if i == 9 {
        Column::Buffer
    } else if i == 10 {
        Column::OpenLive
    } else {
        Column::Trend
    }
}

/// A column's width. The input column takes the width the others leave, and at least
/// this; narrower and it would be unreadable.
pub open spec fn width_of(c: Column) -> u16 {
    match c {
        Column::Input => 16,
        Column::Flow => 7,
        Column::Uplink => 11,
        Column::Rate => 10,
        Column::Rtt => 7,
        Column::Latency => 7,
        Column::Lost => 6,
        Column::Retransmitted => 6,
        Column::Dropped => 6,
        Column::Buffer => 7,
        Column::OpenLive => 14,
        Column::Trend => 20,
    }
}

/// What goes when the terminal is narrow: lowest first, and none where there is no
/// rank, which is never dropped.
pub open spec fn rank_of(c: Column) -> Option<u8> {
    match c {
        Column::Buffer => Some(1),
        Column::Latency => Some(2),
        Column::Dropped => Some(2),
        Column::Retransmitted => Some(3),
        Column::Trend => Some(4),
        Column::Lost => Some(5),
        Column::Rtt => Some(6),
        _ => None,
    }
}

impl Column {
    pub fn title(self) -> (r: &'static str)
        ensures
            r@ == match self {
                Column::Input => "INPUT"@,
                Column::Flow => "FLOW"@,
                Column::Uplink => "UPLINK"@,
                Column::Rate => "RATE"@,
                Column::Rtt => "RTT"@,
                Column::Latency => "LAT"@,
                Column::Lost => "LOST"@,
                Column::Retransmitted => "RETX"@,
                Column::Dropped => "DROP"@,
                Column::Buffer => "BUF"@,
                Column::OpenLive => "OPEN LIVE"@,
                Column::Trend => "TREND"@,
            },
    {
        match self {
            Column::Input => "INPUT",
            Column::Flow => "FLOW",
            Column::Uplink => "UPLINK",
            Column::Rate => "RATE",
            Column::Rtt => "RTT",
            Column::Latency => "LAT",
            Column::Lost => "LOST",
            Column::Retransmitted => "RETX",
            Column::Dropped => "DROP",
            Column::Buffer => "BUF",
            Column::OpenLive => "OPEN LIVE",
            Column::Trend => "TREND",
        }
    }

    pub fn width(self) -> (r: u16)
        ensures
            r == width_of(self),
    {
        match self {
            Column::Input => 16,
            Column::Flow => 7,
            Column::Uplink => 11,
            Column::Rate => 10,
            Column::Rtt => 7,
            Column::Latency => 7,
            Column::Lost => 6,
            Column::Retransmitted => 6,
            Column::Dropped => 6,
            Column::Buffer => 7,
            Column::OpenLive => 14,
            Column::Trend => 20,
        }
    }

    fn rank(self) -> (r: Option<u8>)
        ensures
            r == rank_of(self),
    {
        match self {
            Column::Buffer => Some(1),
            Column::Latency => Some(2),
            Column::Dropped => Some(2),
            Column::Retransmitted => Some(3),
            Column::Trend => Some(4),
            Column::Lost => Some(5),
            Column::Rtt => Some(6),
            _ => None,
        }
    }
}

pub open spec fn widths(shown: Seq<Column>) -> int
    decreases shown.len(),
{
    if shown.len() == 0 {
        0
    } else {
        widths(shown.drop_last()) + width_of(shown.last())
    }
}

/// The width that columns take together, with the spacing between them.
pub open spec fn needed(shown: Seq<Column>) -> int {
    widths(shown) + COLUMN_SPACING * if shown.len() > 0 {
        shown.len() - 1
    } else {
        0
    }
}

/// The place of the column to drop next: the first of the lowest rank.
pub open spec fn next_to_drop(shown: Seq<Column>) -> Option<int>
    decreases shown.len(),
{
    if shown.len() == 0 {
        None
    } else {
        let before = next_to_drop(shown.drop_last());
        match rank_of(shown.last()) {
            None => before,
            Some(rank) => match before {
                Some(k) => if rank < rank_of(shown[k])->0 {
                    Some(shown.len() - 1)
                } else {
                    Some(k)
                },
                None => Some(shown.len() - 1),
            },
        }
    }
}

proof fn lemma_next_to_drop(shown: Seq<Column>)
    ensures
        match next_to_drop(shown) {
            Some(k) => 0 <= k < shown.len() && rank_of(shown[k]) is Some && forall|j: int|
                0 <= j < shown.len() && rank_of(#[trigger] shown[j]) is Some ==> rank_of(
                    shown[k],
                )->0 <= rank_of(shown[j])->0,
            None => forall|j: int|
                0 <= j < shown.len() ==> rank_of(#[trigger] shown[j]) is None,
        },
    decreases shown.len(),
{
    if shown.len() > 0 {
        let init = shown.drop_last();
        lemma_next_to_drop(init);
        if let Some(k) = next_to_drop(init) {
            assert(init[k] == shown[k]);
        }
        assert forall|j: int|
            0 <= j < shown.len() && rank_of(#[trigger] shown[j]) is Some implies next_to_drop(
            shown,
        ) is Some && rank_of(shown[next_to_drop(shown)->0])->0 <= rank_of(shown[j])->0 by {
            if j < shown.len() - 1 {
                assert(init[j] == shown[j]);
            }
        }
    }
}

/// The columns that fit, dropping the least important until the rest do, or only those
/// are left that are never dropped.
pub open spec fn fitting(shown: Seq<Column>, width: int) -> Seq<Column>
    decreases shown.len(),
{
    if needed(shown) <= width {
        shown
    } else {
        match next_to_drop(shown) {
            Some(k) => if 0 <= k < shown.len() {
                fitting(shown.remove(k), width)
            } else {
                shown
            },
            None => shown,
        }
    }
}

pub open spec fn all_columns() -> Seq<Column> {
    Seq::new(COLUMN_COUNT as nat, |i: int| column_at(i))
}

fn total_width(shown: &Vec<Column>) -> (r: u32)
    requires
        shown@.len() <= COLUMN_COUNT,
    ensures
        r == needed(shown@),
{
    let mut sum: u32 = 0;
    let mut i: usize = 0;
    while i < shown.len()
        invariant
            i <= shown@.len(),
            shown@.len() <= COLUMN_COUNT,
            sum == widths(shown@.subrange(0, i as int)),
            sum <= 20 * i,
        decreases shown@.len() - i,
    {
        assert(shown@.subrange(0, i + 1).drop_last() =~= shown@.subrange(0, i as int));
        sum = sum + shown[i].width() as u32;
        i = i + 1;
    }
    assert(shown@.subrange(0, shown@.len() as int) =~= shown@);
    if shown.len() > 0 {
        sum + 2 * (shown.len() as u32 - 1)
    } else {
        sum
    }
}

fn find_next_to_drop(shown: &Vec<Column>) -> (r: Option<usize>)
    ensures
        match r {
            Some(k) => k < shown@.len() && next_to_drop(shown@) == Some(k as int),
            None => next_to_drop(shown@) is None,
        },
{
    let mut found: Option<usize> = None;
    let mut i: usize = 0;
    while i < shown.len()
        invariant
            i <= shown@.len(),
            match found {
                Some(k) => k < i && next_to_drop(shown@.subrange(0, i as int)) == Some(k as int)
                    && rank_of(shown@[k as int]) is Some,
                None => next_to_drop(shown@.subrange(0, i as int)) is None,
            },
        decreases shown@.len() - i,
    {
        let ghost upto = shown@.subrange(0, i + 1);
        assert(upto.drop_last() =~= shown@.subrange(0, i as int));
        if let Some(rank) = shown[i].rank() {
            match found {
                Some(k) => {
                    assert(upto[k as int] == shown@[k as int]);
                    if let Some(best) = shown[k].rank() {
                        if rank < best {
                            found = Some(i);
                        }
                    }
                },
                None => {
                    found = Some(i);
                },
            }
        }
        i = i + 1;
    }
    assert(shown@.subrange(0, shown@.len() as int) =~= shown@);
    found
}

/// Which columns fit in `width`.
pub fn visible_columns(width: u16) -> (r: Vec<Column>)
    ensures
        r@ == fitting(all_columns(), width as int),
{
    let mut shown: Vec<Column> = Vec::new();
    let mut i: usize = 0;
    while i < COLUMN_COUNT
        invariant
            i <= COLUMN_COUNT,
            shown@ == all_columns().subrange(0, i as int),
        decreases COLUMN_COUNT - i,
    {
        shown.push(nth_column(i));
        assert(shown@ =~= all_columns().subrange(0, i + 1));
        i = i + 1;
    }
    assert(shown@ =~= all_columns());
    loop
        invariant
            shown@.len() <= COLUMN_COUNT,
            fitting(all_columns(), width as int) == fitting(shown@, width as int),
        decreases shown@.len(),
    {
        if total_width(&shown) <= width as u32 {
            return shown;
        }
        match find_next_to_drop(&shown) {
            Some(k) => {
                shown.remove(k);
            },
            None => return shown,
        }
    }
}

/// However narrow the terminal: the columns that are never dropped are all there, and
/// the rest fit beside them or are gone.
pub proof fn law_the_essential_columns_are_always_shown(shown: Seq<Column>, width: int, c: Column)
    requires
        shown.contains(c),
        rank_of(c) is None,
    ensures
        fitting(shown, width).contains(c),
        needed(fitting(shown, width)) <= width || forall|j: int|
            0 <= j < fitting(shown, width).len() ==> rank_of(
                #[trigger] fitting(shown, width)[j],
            ) is None,
    decreases shown.len(),
{
    if needed(shown) > width {
        lemma_next_to_drop(shown);
        if let Some(k) = next_to_drop(shown) {
            let i = choose|i: int| 0 <= i < shown.len() && shown[i] == c;
            assert(i != k);
            let rest = shown.remove(k);
            if i < k {
                assert(rest[i] == c);
            } else {
                assert(rest[i - 1] == c);
            }
            law_the_essential_columns_are_always_shown(rest, width, c);
        }
    }
}

// ---------------------------------------------------------------------------
// Cells
// ---------------------------------------------------------------------------

/// How a text is set off. Only the coloured ones vanish without colour.
#[derive(Clone, Copy, Debug, PartialEq, Eq, Structural)]
pub enum Tint {
    Plain,
    Good,
    Warn,
    Bad,
    Dim,
}

#[derive(Debug)]
pub struct Painted {
    pub text: String,
    pub tint: Tint,
}

impl Painted {
    pub open spec fn view(&self) -> (Seq<char>, Tint) {
        (self.text@, self.tint)
    }

    fn of(text: &str, tint: Tint) -> (r: Painted)
        ensures
            r@ == (text@, tint),
    {
        Painted { text: text.to_owned(), tint }
    }
}

pub open spec fn count_cell(n: Option<u64>) -> (Seq<char>, Tint) {
    match n {
        Some(n) => (
            dec(n as nat),
            if n == 0 {
                Tint::Dim
            } else {
                Tint::Plain
            },
        ),
        None => ("-"@, Tint::Dim),
    }
}

pub open spec fn millis_cell(n: Option<u32>) -> (Seq<char>, Tint) {
    match n {
        Some(n) => (dec(n as nat) + " ms"@, Tint::Plain),
        None => ("-"@, Tint::Dim),
    }
}

pub open spec fn stat<T>(s: Option<UplinkStatsReport>, f: spec_fn(UplinkStatsReport) -> Option<T>) -> Option<
    T,
> {
    match s {
        Some(s) => f(s),
        None => None,
    }
}

pub open spec fn delivery_tint(d: Delivery) -> Tint {
    match d {
        Delivery::OnAir => Tint::Good,
        Delivery::Stalled => Tint::Warn,
        Delivery::Nowhere => Tint::Dim,
        _ => Tint::Plain,
    }
}

pub open spec fn source_cell(input: InputReport) -> (Seq<char>, Tint) {
    match input.source {
        Some(s) => (
            s.status@,
            if s.status@ == "active"@ {
                Tint::Good
            } else if s.status@ == "inactive"@ {
                Tint::Warn
            } else {
                Tint::Plain
            },
        ),
        None => if input.flow is Some {
            ("not registered"@, Tint::Bad)
        } else {
            ("-"@, Tint::Dim)
        },
    }
}

/// What one column shows of one input.
pub open spec fn cell_of(c: Column, input: InputReport, t: TrendView) -> (Seq<char>, Tint) {
    match c {
        Column::Input => (input.name@, Tint::Plain),
        Column::Flow => match input.flow {
            Some(f) => if f.running {
                ("running"@, Tint::Good)
            } else {
                ("stopped"@, Tint::Warn)
            },
            None => ("-"@, Tint::Dim),
        },
        Column::Uplink => (delivery_label(t.delivery), delivery_tint(t.delivery)),
        Column::Rate => match stat(input.uplink, |s: UplinkStatsReport| s.send_rate_mbps) {
            Some(rate) => (rate_text(rate) + " Mbps"@, Tint::Plain),
            None => ("-"@, Tint::Dim),
        },
        Column::Rtt => match stat(input.uplink, |s: UplinkStatsReport| s.rtt_ms) {
            Some(rtt) => (whole_text(rtt) + " ms"@, Tint::Plain),
            None => ("-"@, Tint::Dim),
        },
        Column::Latency => millis_cell(
            stat(input.uplink, |s: UplinkStatsReport| s.negotiated_latency_ms),
        ),
        Column::Lost => count_cell(stat(input.uplink, |s: UplinkStatsReport| s.packets_sent_lost)),
        Column::Retransmitted => count_cell(
            stat(input.uplink, |s: UplinkStatsReport| s.packets_retransmitted),
        ),
        Column::Dropped => count_cell(
            stat(input.uplink, |s: UplinkStatsReport| s.packets_sent_dropped),
        ),
        Column::Buffer => millis_cell(
            stat(input.uplink, |s: UplinkStatsReport| s.snd_buf_level_ms),
        ),
        Column::OpenLive => source_cell(input),
        Column::Trend => (bars(t.rates, TREND_WIDTH as int), Tint::Plain),
    }
}

fn paint_count(n: Option<u64>) -> (r: Painted)
    ensures
        r@ == count_cell(n),
{
    match n {
        Some(n) => Painted {
            text: decimal(n),
            tint: if n == 0 {
                Tint::Dim
            } else {
                Tint::Plain
            },
        },
        None => Painted::of("-", Tint::Dim),
    }
}

fn paint_millis(n: Option<u32>) -> (r: Painted)
    ensures
        r@ == millis_cell(n),
{
    match n {
        Some(n) => Painted { text: decimal(n as u64).concat(" ms"), tint: Tint::Plain },
        None => Painted::of("-", Tint::Dim),
    }
}

fn paint_source(input: &InputReport) -> (r: Painted)
    ensures
        r@ == source_cell(*input),
{
    match &input.source {
        Some(s) => {
            let tint = if same_text(s.status.as_str(), "active") {
                Tint::Good
            } else if same_text(s.status.as_str(), "inactive") {
                Tint::Warn
            } else {
                Tint::Plain
            };
            Painted { text: s.status.clone(), tint }
        },
        None => if input.flow.is_some() {
            Painted::of("not registered", Tint::Bad)
        } else {
            Painted::of("-", Tint::Dim)
        },
    }
}

pub fn cell(column: Column, input: &InputReport, trend: &Trend) -> (r: Painted)
    ensures
        r@ == cell_of(column, *input, trend@),
{
    let stats: UplinkStatsReport = match input.uplink {
        Some(s) => s,
        None => UplinkStatsReport::default(),
    };
    match column {
        Column::Input => Painted { text: input.name.clone(), tint: Tint::Plain },
        Column::Flow => match &input.flow {
            Some(f) => if f.running {
                Painted::of("running", Tint::Good)
            } else {
                Painted::of("stopped", Tint::Warn)
            },
            None => Painted::of("-", Tint::Dim),
        },
        Column::Uplink => {
            let tint = match trend.delivery {
                Delivery::OnAir => Tint::Good,
                Delivery::Stalled => Tint::Warn,
                Delivery::Nowhere => Tint::Dim,
                _ => Tint::Plain,
            };
            Painted::of(trend.delivery.label(), tint)
        },
        Column::Rate => match stats.send_rate_mbps {
            Some(rate) => Painted {
                text: show_rate(rate).concat(" Mbps"),
                tint: Tint::Plain,
            },
            None => Painted::of("-", Tint::Dim),
        },
        Column::Rtt => match stats.rtt_ms {
            Some(rtt) => Painted { text: show_whole(rtt).concat(" ms"), tint: Tint::Plain },
            None => Painted::of("-", Tint::Dim),
        },
        Column::Latency => paint_millis(stats.negotiated_latency_ms),
        Column::Lost => paint_count(stats.packets_sent_lost),
        Column::Retransmitted => paint_count(stats.packets_retransmitted),
        Column::Dropped => paint_count(stats.packets_sent_dropped),
        Column::Buffer => paint_millis(stats.snd_buf_level_ms),
        Column::OpenLive => paint_source(input),
        Column::Trend => Painted {
            text: sparkline(&trend.rates, TREND_WIDTH),
            tint: Tint::Plain,
        },
    }
}

// ---------------------------------------------------------------------------
// The header, the notes, and the footer
// ---------------------------------------------------------------------------

pub open spec fn process_cell(report: Option<StatusReport>) -> (Seq<char>, Tint) {
    match report {
        Some(r) => match r.process.pid {
            Some(pid) => ("running (pid "@ + dec(pid as nat) + ")"@, Tint::Good),
            None => ("not running"@, Tint::Warn),
        },
        None => ("asking"@, Tint::Dim),
    }
}

pub open spec fn uplink_cell(report: Option<StatusReport>) -> (Seq<char>, Tint) {
    match report {
        Some(r) => match r.uplink {
            Some(u) => (
                u.host@ + ", SRT ports "@ + u.ports@ + " from "@ + u.port_source@,
                Tint::Plain,
            ),
            None => ("not resolved"@, Tint::Bad),
        },
        None => ("asking"@, Tint::Dim),
    }
}

/// Whether an end is reachable, or what stands in its place, and its address.
pub open spec fn endpoint_cells(e: Option<EndpointReport>, absent: Seq<char>) -> (
    (Seq<char>, Tint),
    Seq<char>,
) {
    match e {
        Some(e) => (
            if e.reachable {
                ("reachable  "@, Tint::Good)
            } else {
                ("unreachable"@, Tint::Bad)
            },
            "  "@ + e.url@,
        ),
        None => ((absent, Tint::Dim), Seq::empty()),
    }
}

fn paint_endpoint(e: Option<&EndpointReport>, absent: &str) -> (r: (Painted, String))
    ensures
        (r.0@, r.1@) == endpoint_cells(
            match e {
                Some(e) => Some(*e),
                None => None,
            },
            absent@,
        ),
{
    match e {
        Some(e) => (
            if e.reachable {
                Painted::of("reachable  ", Tint::Good)
            } else {
                Painted::of("unreachable", Tint::Bad)
            },
            "  ".to_owned().concat(e.url.as_str()),
        ),
        None => (Painted::of(absent, Tint::Dim), String::new()),
    }
}

/// What the header shows.
#[derive(Debug)]
pub struct Header {
    pub title: String,
    pub process: Painted,
    pub uplink: Painted,
    pub strom: (Painted, String),
    pub open_live: (Painted, String),
}

/// A label in the header's right half: ten columns and a blank.
pub fn endpoint_label(label: &str) -> (r: String)
    ensures
        r@ == padded(label@, 10) + " "@,
{
    pad(label, 10).concat(" ")
}

impl Watch {
    pub fn header(&self) -> (r: Header)
        ensures
            r.title@ == "Open Live Ingest: "@ + self.gateway@,
            r.process@ == process_cell(self.report),
            r.uplink@ == uplink_cell(self.report),
            match self.report {
                Some(report) => {
                    &&& (r.strom.0@, r.strom.1@) == endpoint_cells(Some(report.strom), ""@)
                    &&& (r.open_live.0@, r.open_live.1@) == endpoint_cells(
                        report.open_live,
                        "registration off"@,
                    )
                },
                None => {
                    &&& (r.strom.0@, r.strom.1@) == endpoint_cells(None, "asking"@)
                    &&& (r.open_live.0@, r.open_live.1@) == endpoint_cells(None, "asking"@)
                },
            },
    {
        let title = "Open Live Ingest: ".to_owned().concat(self.gateway.as_str());
        match &self.report {
            Some(report) => {
                let process = match report.process.pid {
                    Some(pid) => Painted {
                        text: "running (pid ".to_owned().concat(
                            decimal(pid as u64).as_str(),
                        ).concat(")"),
                        tint: Tint::Good,
                    },
                    None => Painted::of("not running", Tint::Warn),
                };
                let uplink = match &report.uplink {
                    Some(u) => Painted {
                        text: u.host.clone().concat(", SRT ports ").concat(
                            u.ports.as_str(),
                        ).concat(" from ").concat(u.port_source.as_str()),
                        tint: Tint::Plain,
                    },
                    None => Painted::of("not resolved", Tint::Bad),
                };
                Header {
                    title,
                    process,
                    uplink,
                    strom: paint_endpoint(Some(&report.strom), ""),
                    open_live: match &report.open_live {
                        Some(o) => paint_endpoint(Some(o), "registration off"),
                        None => paint_endpoint(None, "registration off"),
                    },
                }
            },
            None => Header {
                title,
                process: Painted::of("asking", Tint::Dim),
                uplink: Painted::of("asking", Tint::Dim),
                strom: paint_endpoint(None, "asking"),
                open_live: paint_endpoint(None, "asking"),
            },
        }
    }

    /// What stands in place of the table, where there is none to draw.
    pub fn placeholder(&self) -> (r: Option<Painted>)
        ensures
            match self.report {
                None => r is Some && r->0@ == ("Asking Strom and Open Live..."@, Tint::Dim),
                Some(report) => if report.inputs@.len() == 0 {
                    r is Some && r->0@ == ("Nothing of ours in Strom or Open Live."@, Tint::Plain)
                } else {
                    r is None
                },
            },
    {
        match &self.report {
            None => Some(Painted::of("Asking Strom and Open Live...", Tint::Dim)),
            Some(report) => if report.inputs.len() == 0 {
                Some(Painted::of("Nothing of ours in Strom or Open Live.", Tint::Plain))
            } else {
                None
            },
        }
    }

    /// How fresh the report is, at `now` on the clock it came by.
    pub fn freshness(&self, now: u64) -> (r: Painted)
        ensures
            match self.refreshed {
                Some(at) => {
                    let age: nat = if now > at {
                        (now - at) as nat
                    } else {
                        0
                    };
                    let text = "refreshed "@ + dec(age / 1_000_000_000) + "s ago, every "@ + dec(
                        REFRESH_SECS as nat,
                    ) + "s"@;
                    r@ == if age > STALE_AFTER {
                        (text + ", waiting on a slow answer"@, Tint::Warn)
                    } else {
                        (text, Tint::Dim)
                    }
                },
                None => r@ == ("waiting for the first answer"@, Tint::Dim),
            },
    {
        match self.refreshed {
            Some(at) => {
                let age: u64 = if now > at {
                    now - at
                } else {
                    0
                };
                let text = "refreshed ".to_owned().concat(
                    decimal(age / 1_000_000_000).as_str(),
                ).concat("s ago, every ").concat(decimal(REFRESH_SECS).as_str()).concat("s");
                if age > STALE_AFTER {
                    Painted { text: text.concat(", waiting on a slow answer"), tint: Tint::Warn }
                } else {
                    Painted { text, tint: Tint::Dim }
                }
            },
            None => Painted::of("waiting for the first answer", Tint::Dim),
        }
    }
}

/// How the screen is divided: the rows of the header and of the notes.
#[derive(Clone, Copy, Debug, PartialEq, Eq, Structural)]
pub struct Rows {
    pub stacked: bool,
    pub header: u16,
    pub notes: u16,
}

/// How a screen of this width is divided for so many notes: a narrow one stacks the
/// header's two halves, and notes are framed where there are any.
pub fn divide(width: u16, notes: usize) -> (r: Rows)
    requires
        notes <= 4,
    ensures
        r.stacked == (width < SIDE_BY_SIDE_HEADER),
        r.header == (if r.stacked {
            6int
        } else {
            4int
        }),
        r.notes == (if notes == 0 {
            0
        } else {
            notes + 2
        }),
{
    let stacked: bool = width < SIDE_BY_SIDE_HEADER;
    Rows {
        stacked,
        header: if stacked {
            6
        } else {
            4
        },
        notes: if notes == 0 {
            0
        } else {
            notes as u16 + 2
        },
    }
}

/// There are never more notes than a screen has room for.
pub proof fn law_there_are_at_most_four_notes(
    report: Option<StatusReport>,
    poll_error: Option<String>,
)
    ensures
        attention(report, poll_error).len() <= 4,
{
}

// ---------------------------------------------------------------------------
// What the watch shows
// ---------------------------------------------------------------------------

/// A key acts when it goes down: `q`, escape, and `c` with the control key leave, `r`
/// asks again, and no other key does anything.
pub proof fn law_a_key_acts_when_it_goes_down(code: Key, control: bool)
    ensures
        meaning_of_key(Some((code, control, true))) is None,
        meaning_of_key(None) is None,
        meaning_of_key(Some((Key::Char('q'), control, false))) == Some(Action::Quit),
        meaning_of_key(Some((Key::Esc, control, false))) == Some(Action::Quit),
        meaning_of_key(Some((Key::Char('c'), true, false))) == Some(Action::Quit),
        meaning_of_key(Some((Key::Char('c'), false, false))) is None,
        meaning_of_key(Some((Key::Char('r'), control, false))) == Some(Action::Refresh),
        code != Key::Char('q') && code != Key::Char('c') && code != Key::Char('r') && code
            != Key::Esc ==> meaning_of_key(Some((code, control, false))) is None,
{
}

/// An uplink is on air exactly when its flow runs, a receiver was there before and is
/// there now, and the bytes sent moved in between and are not back at nothing. A receiver
/// that was not there before is merely connected, one that is gone is none, and a flow
/// that does not run leads nowhere, whatever was measured.
pub proof fn law_an_uplink_is_judged_by_two_samples(t: TrendView, input: InputReport)
    ensures
        ({
            let runs = input.flow is Some && input.flow->0.running;
            let after = observed(t, input);
            let now: u64 = if input.uplink is Some && input.uplink->0.bytes_sent is Some {
                input.uplink->0.bytes_sent->0
            } else {
                0
            };
            &&& after.delivery == Delivery::Nowhere <==> !runs
            &&& after.delivery == Delivery::NoReceiver <==> runs && input.uplink is None
            &&& after.delivery == Delivery::Connected <==> runs && input.uplink is Some
                && t.last_bytes is None
            &&& after.delivery == Delivery::OnAir <==> runs && input.uplink is Some && t.last_bytes
                is Some && now != t.last_bytes->0 && now > 0
            &&& after.delivery == Delivery::Stalled <==> runs && input.uplink is Some
                && t.last_bytes is Some && (now == t.last_bytes->0 || now == 0)
            &&& after.last_bytes == if runs && input.uplink is Some {
                Some(now)
            } else {
                None
            }
        }),
{
}

/// The rates of the last sixty polls are kept, the newest last: each poll adds one, or a
/// gap where nothing was measured, and drops the oldest once there are more.
pub proof fn law_a_poll_adds_one_rate(t: TrendView, input: InputReport, i: int)
    requires
        t.rates.len() <= 60,
    ensures
        ({
            let after = observed(t, input).rates;
            let runs = input.flow is Some && input.flow->0.running;
            &&& after.len() == if t.rates.len() < 60 {
                t.rates.len() + 1
            } else {
                60
            }
            &&& after.last() == (if runs && input.uplink is Some && input.uplink->0.send_rate_mbps
                is Some {
                Some(input.uplink->0.send_rate_mbps->0.bits)
            } else {
                None
            })
            &&& 0 <= i < after.len() - 1 ==> after[i] == t.rates[i + (t.rates.len() + 1
                - after.len())]
        }),
{
}

/// The trend of a name goes on from the one it had, or from none; where the report has
/// the name once, one poll is added to it.
pub proof fn law_a_trend_goes_on_under_its_name(
    old: Map<Seq<char>, TrendView>,
    inputs: Seq<InputReport>,
    k: int,
)
    requires
        0 <= k < inputs.len(),
        forall|i: int|
            0 <= i < inputs.len() && i != k ==> (#[trigger] inputs[i]).name@ != inputs[k].name@,
    ensures
        trends_after(old, inputs).contains_key(inputs[k].name@),
        trends_after(old, inputs)[inputs[k].name@] == observed(
            if old.contains_key(inputs[k].name@) {
                old[inputs[k].name@]
            } else {
                (TrendView { last_bytes: None, delivery: Delivery::Nowhere, rates: Seq::empty() })
            },
            inputs[k],
        ),
    decreases inputs.len(),
{
    let init = inputs.drop_last();
    let name = inputs[k].name@;
    law_trends_follow_the_report(old, init, name);
    if k == inputs.len() - 1 {
        if trends_after(old, init).contains_key(name) {
            let i = choose|i: int| 0 <= i < init.len() && (#[trigger] init[i]).name@ == name;
            assert(inputs[i].name@ == name);
        }
    } else {
        assert(init[k] == inputs[k]);
        assert forall|i: int| 0 <= i < init.len() && i != k implies (#[trigger] init[i]).name@
            != init[k].name@ by {
            assert(init[i] == inputs[i]);
        }
        law_a_trend_goes_on_under_its_name(old, init, k);
        assert(inputs[inputs.len() - 1].name@ != name);
    }
}

/// The notes say what is wrong and nothing else: an uplink that was not resolved, an
/// endpoint that did not answer, and a poll that failed, in that order, each with its
/// reason.
pub proof fn law_the_notes_say_what_is_wrong(r: StatusReport, err: String)
    ensures
        attention(None, None).len() == 0,
        attention(None, Some(err)) == seq!["Could not gather status: "@ + err@],
        attention(Some(r), Some(err)) == attention(Some(r), None).push(
            "Could not gather status: "@ + err@,
        ),
        r.uplink is Some && r.strom.error is None && (r.open_live is None || r.open_live->0.error
            is None) ==> attention(Some(r), None).len() == 0,
        r.uplink is None && r.uplink_error is Some ==> attention(Some(r), None).len() > 0
            && attention(Some(r), None)[0] == "Uplink not resolved: "@ + r.uplink_error->0@,
        r.strom.error is Some ==> attention(Some(r), None).contains(
            "Strom at "@ + r.strom.url@ + " is not reachable ("@ + r.strom.error->0@ + ")"@,
        ),
        r.open_live is Some && r.open_live->0.error is Some ==> attention(Some(r), None).len() > 0
            && attention(Some(r), None).last() == "Open Live is not reachable ("@
            + r.open_live->0.error->0@ + ")"@,
        attention(Some(r), None).len() == (if r.uplink is None && r.uplink_error is Some {
            1int
        } else {
            0
        }) + (if r.strom.error is Some {
            1int
        } else {
            0
        }) + (if r.open_live is Some && r.open_live->0.error is Some {
            1int
        } else {
            0
        }),
{
    let notes = attention(Some(r), None);
    assert(attention(None, Some(err)) =~= seq!["Could not gather status: "@ + err@]);
    assert(attention(Some(r), Some(err)) =~= notes.push("Could not gather status: "@ + err@));
    if r.strom.error is Some {
        let at = if r.uplink is None && r.uplink_error is Some {
            1int
        } else {
            0
        };
        assert(notes[at] == "Strom at "@ + r.strom.url@ + " is not reachable ("@ + r.strom.error->0@
            + ")"@);
    }
}

/// The highest rate is one of them, or zero, and none that is a number lies above it.
pub proof fn law_no_rate_lies_above_the_highest(rates: Seq<Option<u64>>, i: int)
    ensures
        0 <= i < rates.len() && rates[i] is Some && rates[i]->0 <= 0x7FF0_0000_0000_0000
            ==> rates[i]->0 <= highest(rates),
        highest(rates) <= 0x7FF0_0000_0000_0000,
        highest(rates) > 0 ==> rates.contains(Some(highest(rates))),
    decreases rates.len(),
{
    if rates.len() > 0 {
        let init = rates.drop_last();
        law_no_rate_lies_above_the_highest(init, i);
        if 0 <= i < init.len() {
            assert(init[i] == rates[i]);
        }
        if highest(init) > 0 {
            let k = init.index_of(Some(highest(init)));
            assert(rates[k] == Some(highest(init)));
        }
        assert(rates[rates.len() - 1] == rates.last());
    }
}

/// A bar has the height, in sevenths, that its rate has of the highest, give or take a
/// little more than half a step: so bars rise with the rates.
pub proof fn law_a_bar_has_the_share_of_its_rate(n: int, d: int)
    requires
        0 <= n <= d,
        0 < d,
    ensures
        -6 * d <= 10 * (sevenths(n, d) * d - 7 * n) <= 6 * d,
{
    let l = sevenths(n, d);
    if 16 * n < d {
        assert(l * d == 0);
    } else {
        let s = scale_for(n, d);
        let q = nearest(n * s, d);
        law_the_nearest_is_at_most_half_away(n * s, d);
        law_the_nearest_is_at_most_half_away(7 * q, 8);
        law_the_nearest_is_at_most_half_away(7 * q, 4);
        let f = sevenfold(q);
        assert(-8 <= 2 * (f - 7 * q) <= 8);
        let m = 2 * f + s;
        vstd::arithmetic::div_mod::lemma_fundamental_div_mod(m, 2 * s);
        vstd::arithmetic::div_mod::lemma_mod_bound(m, 2 * s);
        assert(l == m / (2 * s));
        lemma_share(n, d, s, q, f, l);
    }
}

proof fn lemma_share(n: int, d: int, s: int, q: int, f: int, l: int)
    requires
        0 < d,
        0 <= n,
        0x10_0000_0000_0000 <= s,
        -d <= 2 * (q * d - n * s) <= d,
        -8 <= 2 * (f - 7 * q) <= 8,
        2 * s * l <= 2 * f + s < 2 * s * l + 2 * s,
    ensures
        -6 * d <= 10 * (l * d - 7 * n) <= 6 * d,
{
    // Everything over the common divisor, times the scale.
    let x = l * d - 7 * n;
    assert(f * d - 7 * (q * d) <= 4 * d) by (nonlinear_arith)
        requires
            2 * (f - 7 * q) <= 8,
            0 < d,
    ;
    assert(f * d - 7 * (q * d) >= -4 * d) by (nonlinear_arith)
        requires
            2 * (f - 7 * q) >= -8,
            0 < d,
    ;
    assert(2 * (s * l * d) <= 2 * (f * d) + s * d) by (nonlinear_arith)
        requires
            2 * s * l <= 2 * f + s,
            0 < d,
    ;
    assert(2 * (f * d) + s * d <= 2 * (s * l * d) + 2 * (s * d)) by (nonlinear_arith)
        requires
            2 * f + s < 2 * s * l + 2 * s,
            0 < d,
    ;
    assert(s * x == s * l * d - 7 * (n * s)) by (nonlinear_arith)
        requires
            x == l * d - 7 * n,
    ;
    assert(75 * d <= s * d) by (nonlinear_arith)
        requires
            0x10_0000_0000_0000 <= s,
            0 < d,
    ;
    assert(10 * (s * x) <= 6 * (s * d));
    assert(10 * (s * x) >= -6 * (s * d));
    assert(10 * x <= 6 * d) by (nonlinear_arith)
        requires
            10 * (s * x) <= 6 * (s * d),
            s > 0,
    ;
    assert(10 * x >= -6 * d) by (nonlinear_arith)
        requires
            10 * (s * x) >= -6 * (s * d),
            s > 0,
    ;
}

/// A poll that measured nothing leaves a gap, and a rate its bar; where no rate is above
/// zero, or the highest is no number, every bar is the lowest. Higher bars are for higher
/// levels, eight in all.
pub proof fn law_a_gap_is_left_where_nothing_was_measured(rate: u64, max: u64)
    ensures
        bar_of(None, max) == ' ',
        max == 0 ==> bar_of(Some(rate), max) == '▁',
        max == 0x7FF0_0000_0000_0000 ==> bar_of(Some(rate), max) == '▁',
        0 < max < 0x7FF0_0000_0000_0000 && rate <= 0x7FF0_0000_0000_0000 ==> bar_of(
            Some(rate),
            max,
        ) == bar(sevenths(value_of(rate), value_of(max))),
        forall|l: int| 0 <= l < 8 ==> (#[trigger] bar(l)) as u32 == 0x2581 + l,
{
}

/// Columns go for want of room alone: the line is shown whole where it fits. Five of the
/// twelve never go, and of the others the send buffer is the least needed and the round
/// trip the most.
pub proof fn law_columns_go_for_want_of_room_alone(width: int)
    ensures
        needed(all_columns()) <= width ==> fitting(all_columns(), width) == all_columns(),
        fitting(all_columns(), width).len() <= all_columns().len(),
        all_columns().len() == 12,
        forall|c: Column| #[trigger] rank_of(c) is None <==> c is Input || c is Flow || c is Uplink
            || c is Rate || c is OpenLive,
        rank_of(Column::Buffer)->0 < rank_of(Column::Latency)->0,
        rank_of(Column::Latency)->0 == rank_of(Column::Dropped)->0,
        rank_of(Column::Dropped)->0 < rank_of(Column::Retransmitted)->0,
        rank_of(Column::Retransmitted)->0 < rank_of(Column::Trend)->0,
        rank_of(Column::Trend)->0 < rank_of(Column::Lost)->0,
        rank_of(Column::Lost)->0 < rank_of(Column::Rtt)->0,
{
    lemma_fitting_drops(all_columns(), width);
}

proof fn lemma_fitting_drops(shown: Seq<Column>, width: int)
    ensures
        fitting(shown, width).len() <= shown.len(),
    decreases shown.len(),
{
    if needed(shown) > width {
        if let Some(k) = next_to_drop(shown) {
            if 0 <= k < shown.len() {
                lemma_fitting_drops(shown.remove(k), width);
            }
        }
    }
}

/// The column to go next is the first of those with the lowest rank.
pub proof fn law_the_least_needed_column_goes_first(shown: Seq<Column>, j: int)
    ensures
        next_to_drop(shown) is None <==> forall|i: int|
            0 <= i < shown.len() ==> rank_of(#[trigger] shown[i]) is None,
        next_to_drop(shown) matches Some(k) ==> {
            &&& 0 <= k < shown.len() && rank_of(shown[k]) is Some
            &&& 0 <= j < shown.len() && rank_of(shown[j]) is Some ==> rank_of(shown[k])->0
                <= rank_of(shown[j])->0
            &&& 0 <= j < k && rank_of(shown[j]) is Some ==> rank_of(shown[k])->0 < rank_of(
                shown[j],
            )->0
        },
    decreases shown.len(),
{
    if shown.len() > 0 {
        let init = shown.drop_last();
        law_the_least_needed_column_goes_first(init, j);
        assert forall|i: int| 0 <= i < init.len() implies #[trigger] init[i] == shown[i] by {}
        if 0 <= j < init.len() {
            assert(init[j] == shown[j]);
        }
        if let Some(k) = next_to_drop(init) {
            assert(init[k] == shown[k]);
        }
        assert(shown[shown.len() - 1] == shown.last());
        if next_to_drop(shown) is None {
            assert forall|i: int| 0 <= i < shown.len() implies rank_of(#[trigger] shown[i])
                is None by {
                if i < init.len() {
                    assert(init[i] == shown[i]);
                }
            }
        }
    }
}

/// Each cell shows the value of its own column, and a dash where there is none.
pub proof fn law_each_cell_shows_its_own_value(
    input: InputReport,
    s: UplinkStatsReport,
    t: TrendView,
)
    requires
        input.uplink == Some(s),
    ensures
        cell_of(Column::Input, input, t).0 == input.name@,
        cell_of(Column::Flow, input, t) == (match input.flow {
            Some(f) => if f.running {
                ("running"@, Tint::Good)
            } else {
                ("stopped"@, Tint::Warn)
            },
            None => ("-"@, Tint::Dim),
        }),
        s.send_rate_mbps is Some ==> cell_of(Column::Rate, input, t).0 == rate_text(
            s.send_rate_mbps->0,
        ) + " Mbps"@,
        s.rtt_ms is Some ==> cell_of(Column::Rtt, input, t).0 == whole_text(s.rtt_ms->0) + " ms"@,
        s.negotiated_latency_ms is Some ==> cell_of(Column::Latency, input, t).0 == dec(
            s.negotiated_latency_ms->0 as nat,
        ) + " ms"@,
        s.packets_sent_lost is Some ==> cell_of(Column::Lost, input, t).0 == dec(
            s.packets_sent_lost->0 as nat,
        ),
        s.packets_retransmitted is Some ==> cell_of(Column::Retransmitted, input, t).0 == dec(
            s.packets_retransmitted->0 as nat,
        ),
        s.packets_sent_dropped is Some ==> cell_of(Column::Dropped, input, t).0 == dec(
            s.packets_sent_dropped->0 as nat,
        ),
        s.snd_buf_level_ms is Some ==> cell_of(Column::Buffer, input, t).0 == dec(
            s.snd_buf_level_ms->0 as nat,
        ) + " ms"@,
        s.send_rate_mbps is None ==> cell_of(Column::Rate, input, t) == ("-"@, Tint::Dim),
        s.rtt_ms is None ==> cell_of(Column::Rtt, input, t) == ("-"@, Tint::Dim),
        s.negotiated_latency_ms is None ==> cell_of(Column::Latency, input, t) == (
            "-"@,
            Tint::Dim,
        ),
        s.packets_sent_lost is None ==> cell_of(Column::Lost, input, t) == ("-"@, Tint::Dim),
        s.packets_retransmitted is None ==> cell_of(Column::Retransmitted, input, t) == (
            "-"@,
            Tint::Dim,
        ),
        s.packets_sent_dropped is None ==> cell_of(Column::Dropped, input, t) == ("-"@, Tint::Dim),
        s.snd_buf_level_ms is None ==> cell_of(Column::Buffer, input, t) == ("-"@, Tint::Dim),
{
}

/// A count of nothing is dimmed and one of something is not, and what is wrong stands
/// out: a stalled uplink and an inactive source warn, a source that is missing is bad.
pub proof fn law_what_is_wrong_stands_out(input: InputReport, t: TrendView, n: u64)
    ensures
        count_cell(Some(n)).1 == Tint::Dim <==> n == 0,
        t.delivery == Delivery::OnAir ==> cell_of(Column::Uplink, input, t) == (
            "on air"@,
            Tint::Good,
        ),
        t.delivery == Delivery::Stalled ==> cell_of(Column::Uplink, input, t) == (
            "stalled"@,
            Tint::Warn,
        ),
        t.delivery == Delivery::Connected ==> cell_of(Column::Uplink, input, t) == (
            "connected"@,
            Tint::Plain,
        ),
        t.delivery == Delivery::NoReceiver ==> cell_of(Column::Uplink, input, t) == (
            "no receiver"@,
            Tint::Plain,
        ),
        t.delivery == Delivery::Nowhere ==> cell_of(Column::Uplink, input, t) == ("-"@, Tint::Dim),
        input.source is None && input.flow is Some ==> cell_of(Column::OpenLive, input, t) == (
            "not registered"@,
            Tint::Bad,
        ),
        input.source is None && input.flow is None ==> cell_of(Column::OpenLive, input, t) == (
            "-"@,
            Tint::Dim,
        ),
        input.source is Some ==> cell_of(Column::OpenLive, input, t).0 == input.source->0.status@,
        input.source is Some && input.source->0.status@ == "active"@ ==> cell_of(
            Column::OpenLive,
            input,
            t,
        ).1 == Tint::Good,
        input.source is Some && input.source->0.status@ == "inactive"@ ==> cell_of(
            Column::OpenLive,
            input,
            t,
        ).1 == Tint::Warn,
{
    reveal_strlit("active");
    reveal_strlit("inactive");
    assert("active"@.len() != "inactive"@.len());
}

/// The head of the screen tells the process, the uplink and the endpoints as the report
/// has them, and before there is a report that it is being asked for.
pub proof fn law_the_head_tells_the_report(r: StatusReport, e: EndpointReport, absent: Seq<char>)
    ensures
        process_cell(None) == ("asking"@, Tint::Dim),
        uplink_cell(None) == ("asking"@, Tint::Dim),
        r.process.pid is Some ==> process_cell(Some(r)) == (
            "running (pid "@ + dec(r.process.pid->0 as nat) + ")"@,
            Tint::Good,
        ),
        r.process.pid is None ==> process_cell(Some(r)) == ("not running"@, Tint::Warn),
        r.uplink is Some ==> uplink_cell(Some(r)) == (
            r.uplink->0.host@ + ", SRT ports "@ + r.uplink->0.ports@ + " from "@
                + r.uplink->0.port_source@,
            Tint::Plain,
        ),
        r.uplink is None ==> uplink_cell(Some(r)) == ("not resolved"@, Tint::Bad),
        endpoint_cells(Some(e), absent).1 == "  "@ + e.url@,
        e.reachable ==> endpoint_cells(Some(e), absent).0 == ("reachable  "@, Tint::Good),
        !e.reachable ==> endpoint_cells(Some(e), absent).0 == ("unreachable"@, Tint::Bad),
        endpoint_cells(None, absent).0 == (absent, Tint::Dim),
{
}

/// A line needs the width of each of its columns and two spaces between every two; the
/// whole line needs 139.
pub proof fn law_a_line_needs_its_columns_and_gaps(shown: Seq<Column>, c: Column)
    ensures
        needed(Seq::empty()) == 0,
        needed(seq![c]) == width_of(c),
        shown.len() > 0 ==> needed(shown.push(c)) == needed(shown) + 2 + width_of(c),
        needed(all_columns()) == 139,
{
    assert(shown.push(c).drop_last() =~= shown);
    assert(seq![c].drop_last() =~= Seq::empty());
    assert(widths(Seq::empty()) == 0);
    lemma_widths_sum();
}

proof fn lemma_widths_sum()
    ensures
        widths(all_columns()) == 117,
{
    let all = all_columns();
    assert(all.subrange(0, 12) =~= all);
    assert(all.subrange(0, 0) =~= Seq::empty());
    assert(widths(all.subrange(0, 0)) == 0);
    lemma_one_wider(1);
    lemma_one_wider(2);
    lemma_one_wider(3);
    lemma_one_wider(4);
    lemma_one_wider(5);
    lemma_one_wider(6);
    lemma_one_wider(7);
    lemma_one_wider(8);
    lemma_one_wider(9);
    lemma_one_wider(10);
    lemma_one_wider(11);
    lemma_one_wider(12);
}

proof fn lemma_one_wider(n: int)
    requires
        0 < n <= 12,
    ensures
        widths(all_columns().subrange(0, n)) == widths(all_columns().subrange(0, n - 1)) + width_of(
            column_at(n - 1),
        ),
{
    let all = all_columns();
    assert(all.subrange(0, n).drop_last() =~= all.subrange(0, n - 1));
    assert(all.subrange(0, n).last() == column_at(n - 1));
}

} // verus!
