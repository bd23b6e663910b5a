//! Run-time state shared between the flow supervisors, the control API, and the Open
//! Live registration.

use crate::flow::{derived_id, uuid_text};
use crate::gateway::client::SrtUplink;
use crate::gateway::config::{GatewayConfig, InputConfig};
use crate::gateway::flow::flow_id;
use crate::gateway::status::{GatewayStatus, InputState, InputStatus, UplinkStats};
use crate::text::{
    comes_before, copy_opt, lemma_precedes_irreflexive, lemma_precedes_total,
    lemma_precedes_transitive, precedes, same_text,
};
use vstd::prelude::*;

verus! {

/// The status of every input, in the order of their ids.
#[derive(Debug)]
pub struct SharedState {
    pub gateway_id: String,
    pub strom_reachable: bool,
    pub inputs: Vec<InputStatus>,
}

/// In the order of their ids, each id once.
pub open spec fn ordered(s: Seq<InputStatus>) -> bool {
    forall|i: int, j: int|
        0 <= i < j < s.len() ==> precedes((#[trigger] s[i]).id@, (#[trigger] s[j]).id@)
}

/// The status of an input, where it is known.
pub open spec fn status_of(s: Seq<InputStatus>, id: Seq<char>) -> Option<InputStatus>
    decreases s.len(),
{
    if s.len() == 0 {
        None
    } else if s.last().id@ == id {
        Some(s.last())
    } else {
        status_of(s.drop_last(), id)
    }
}

/// How an input starts out.
pub open spec fn starts_out(status: InputStatus, gateway_id: Seq<char>, input: InputConfig) -> bool {
    &&& status.id@ == input.id@
    &&& status.state == InputState::Idle
    &&& status.flow_id@ == uuid_text(derived_id(gateway_id, input.id@).value)
    &&& status.gst_state is None
    &&& status.source_id is None
    &&& status.listener_address@ == input.uplink.cloud_address()
    &&& status.restarts == 0
    &&& status.last_error is None
    &&& status.uplink is None
}

/// The last input with an id: of two with one id the later counts.
pub open spec fn declared(inputs: Seq<InputConfig>, id: Seq<char>) -> Option<InputConfig>
    decreases inputs.len(),
{
    if inputs.len() == 0 {
        None
    } else if inputs.last().id@ == id {
        Some(inputs.last())
    } else {
        declared(inputs.drop_last(), id)
    }
}

proof fn lemma_status_of(s: Seq<InputStatus>, id: Seq<char>)
    ensures
        match status_of(s, id) {
            Some(status) => status.id@ == id && exists|i: int|
                0 <= i < s.len() && #[trigger] s[i] == status,
            None => forall|i: int| 0 <= i < s.len() ==> (#[trigger] s[i]).id@ != id,
        },
    decreases s.len(),
{
    if s.len() > 0 {
        let init = s.drop_last();
        if s.last().id@ == id {
            assert(s[s.len() - 1] == s.last());
        } else {
            lemma_status_of(init, id);
            match status_of(init, id) {
                Some(status) => {
                    let i = choose|i: int| 0 <= i < init.len() && #[trigger] init[i] == status;
                    assert(s[i] == status);
                },
                None => {
                    assert forall|i: int| 0 <= i < s.len() implies (#[trigger] s[i]).id@ != id by {
                        if i < s.len() - 1 {
                            assert(init[i] == s[i]);
                        }
                    }
                },
            }
        }
    }
}

proof fn lemma_status_at(s: Seq<InputStatus>, i: int)
    requires
        ordered(s),
        0 <= i < s.len(),
    ensures
        status_of(s, s[i].id@) == Some(s[i]),
{
    lemma_status_of(s, s[i].id@);
    match status_of(s, s[i].id@) {
        Some(status) => {
            let j = choose|j: int| 0 <= j < s.len() && #[trigger] s[j] == status;
            lemma_precedes_irreflexive(s[i].id@);
            if i < j {
                assert(precedes(s[i].id@, s[j].id@));
            } else if j < i {
                assert(precedes(s[j].id@, s[i].id@));
            }
        },
        None => {
            assert(s[i].id@ != s[i].id@);
        },
    }
}

impl SharedState {
    pub open spec fn wf(&self) -> bool {
        ordered(self.inputs@)
    }

    /// The status of an input, where it is known.
    pub open spec fn status(&self, id: Seq<char>) -> Option<InputStatus> {
        status_of(self.inputs@, id)
    }

    pub fn new(gateway_id: String, cfg: &GatewayConfig) -> (r: SharedState)
        ensures
            r.wf(),
            r.gateway_id == gateway_id,
            !r.strom_reachable,
            forall|id: Seq<char>|
                match declared(cfg.inputs@, id) {
                    Some(input) => #[trigger] r.status(id) is Some && starts_out(
                        r.status(id)->0,
                        gateway_id@,
                        input,
                    ),
                    None => r.status(id) is None,
                },
    {
        let id = gateway_id.clone();
        let mut state = SharedState { gateway_id, strom_reachable: false, inputs: Vec::new() };
        let inputs = &cfg.inputs;
        let mut i: usize = 0;
        while i < inputs.len()
            invariant
                i <= inputs@.len(),
                inputs == &cfg.inputs,
                state.wf(),
                state.gateway_id == gateway_id,
                id@ == gateway_id@,
                !state.strom_reachable,
                forall|id: Seq<char>|
                    match declared(inputs@.subrange(0, i as int), id) {
                        Some(input) => #[trigger] state.status(id) is Some && starts_out(
                            state.status(id)->0,
                            gateway_id@,
                            input,
                        ),
                        None => state.status(id) is None,
                    },
            decreases inputs@.len() - i,
        {
            assert(inputs@.subrange(0, i + 1).drop_last() =~= inputs@.subrange(0, i as int));
            state.add_input(&inputs[i], id.as_str());
            i = i + 1;
        }
        assert(inputs@.subrange(0, inputs@.len() as int) =~= inputs@);
        state
    }

    /// Adds an input as it starts out. One with the same id is replaced.
    pub fn add_input(&mut self, input: &InputConfig, gateway_id: &str)
        requires
            old(self).wf(),
        ensures
            final(self).wf(),
            final(self).gateway_id == old(self).gateway_id,
            final(self).strom_reachable == old(self).strom_reachable,
            final(self).status(input.id@) is Some,
            starts_out(final(self).status(input.id@)->0, gateway_id@, *input),
            forall|id: Seq<char>|
                id != input.id@ ==> #[trigger] final(self).status(id) == old(self).status(id),
    {
        let status = InputStatus {
            id: input.id.clone(),
            state: InputState::Idle,
            flow_id: flow_id(gateway_id, input.id.as_str()),
            gst_state: None,
            source_id: None,
            listener_address: input.uplink.cloud_uri(),
            restarts: 0,
            last_error: None,
            uplink: None,
        };
        let ghost before = self.inputs@;
        let ghost key = input.id@;
        let mut at: usize = 0;
        while at < self.inputs.len() && comes_before(
            self.inputs[at].id.as_str(),
            input.id.as_str(),
        )
            invariant
                at <= self.inputs@.len(),
                self.inputs@ == before,
                key == input.id@,
                forall|j: int| 0 <= j < at ==> precedes((#[trigger] before[j]).id@, key),
            decreases self.inputs@.len() - at,
        {
            at = at + 1;
        }
        if at < self.inputs.len() && same_text(self.inputs[at].id.as_str(), input.id.as_str()) {
            self.inputs.set(at, status);
            proof {
                let after = self.inputs@;
                assert(after =~= before.update(at as int, status));
                assert(ordered(after)) by {
                    assert forall|i: int, j: int| 0 <= i < j < after.len() implies precedes(
                        (#[trigger] after[i]).id@,
                        (#[trigger] after[j]).id@,
                    ) by {
                        assert(before[i].id@ == after[i].id@ && before[j].id@ == after[j].id@);
                    }
                }
                lemma_status_at(after, at as int);
                assert forall|id: Seq<char>| id != key implies #[trigger] status_of(after, id)
                    == status_of(before, id) by {
                    lemma_same_elsewhere(before, after, id, key);
                }
            }
        } else {
            self.inputs.insert(at, status);
            proof {
                let after = self.inputs@;
                assert(after == before.insert(at as int, status));
                if at < before.len() {
                    lemma_precedes_total(before[at as int].id@, key);
                    assert(precedes(key, before[at as int].id@));
                }
                assert forall|i: int, j: int| 0 <= i < j < after.len() implies precedes(
                    (#[trigger] after[i]).id@,
                    (#[trigger] after[j]).id@,
                ) by {
                    if j == at {
                        assert(after[i] == before[i]);
                    } else if i == at {
                        assert(after[j] == before[j - 1]);
                        if j - 1 > at {
                            assert(precedes(before[at as int].id@, before[j - 1].id@));
                            lemma_precedes_transitive(
                                key,
                                before[at as int].id@,
                                before[j - 1].id@,
                            );
                        }
                    } else {
                        let a = if i < at {
                            i
                        } else {
                            i - 1
                        };
                        let b = if j < at {
                            j
                        } else {
                            j - 1
                        };
                        assert(after[i] == before[a] && after[j] == before[b]);
                    }
                }
                lemma_status_at(after, at as int);
                assert forall|id: Seq<char>| id != key implies #[trigger] status_of(after, id)
                    == status_of(before, id) by {
                    lemma_same_elsewhere_inserted(before, at as int, status, id);
                }
            }
        }
    }

    /// Forgets an input.
    pub fn remove_input(&mut self, input_id: &str)
        requires
            old(self).wf(),
        ensures
            final(self).wf(),
            final(self).gateway_id == old(self).gateway_id,
            final(self).strom_reachable == old(self).strom_reachable,
            final(self).status(input_id@) is None,
            forall|id: Seq<char>|
                id != input_id@ ==> #[trigger] final(self).status(id) == old(self).status(id),
    {
        let ghost before = self.inputs@;
        let mut i: usize = 0;
        while i < self.inputs.len()
            invariant
                i <= self.inputs@.len(),
                self.inputs@ == before,
                ordered(before),
                self.gateway_id == old(self).gateway_id,
                self.strom_reachable == old(self).strom_reachable,
                before == old(self).inputs@,
                forall|j: int| 0 <= j < i ==> (#[trigger] before[j]).id@ != input_id@,
            decreases self.inputs@.len() - i,
        {
            if same_text(self.inputs[i].id.as_str(), input_id) {
                let gone = self.inputs.remove(i);
                proof {
                    let after = self.inputs@;
                    assert(before =~= after.insert(i as int, gone));
                    assert forall|a: int, b: int| 0 <= a < b < after.len() implies precedes(
                        (#[trigger] after[a]).id@,
                        (#[trigger] after[b]).id@,
                    ) by {
                        let x = if a < i {
                            a
                        } else {
                            a + 1
                        };
                        let y = if b < i {
                            b
                        } else {
                            b + 1
                        };
                        assert(after[a] == before[x] && after[b] == before[y]);
                    }
                    lemma_status_of(after, input_id@);
                    if let Some(status) = status_of(after, input_id@) {
                        let a = choose|a: int| 0 <= a < after.len() && #[trigger] after[a] == status;
                        let x = if a < i {
                            a
                        } else {
                            a + 1
                        };
                        assert(before[x] == status);
                        assert(before[i as int].id@ == before[x].id@);
                        lemma_precedes_irreflexive(input_id@);
                    }
                    assert forall|id: Seq<char>| id != input_id@ implies #[trigger] status_of(
                        after,
                        id,
                    ) == status_of(before, id) by {
                        lemma_same_elsewhere_inserted(after, i as int, gone, id);
                    }
                }
                return;
            }
            i = i + 1;
        }
        proof {
            lemma_status_of(before, input_id@);
        }
    }
}

impl SharedState {
    /// Differs from `before` in the status of one input, and at most in whether Strom
    /// could be reached.
    pub open spec fn one_changed(
        &self,
        before: &SharedState,
        id: Seq<char>,
        status: Option<InputStatus>,
    ) -> bool {
        &&& self.wf()
        &&& self.gateway_id == before.gateway_id
        &&& self.status(id) == status
        &&& forall|other: Seq<char>|
            other != id ==> #[trigger] self.status(other) == before.status(other)
    }

    /// Differs from `before` in the status of one input and in nothing else.
    pub open spec fn changed_only(
        &self,
        before: &SharedState,
        id: Seq<char>,
        status: Option<InputStatus>,
    ) -> bool {
        &&& self.one_changed(before, id, status)
        &&& self.strom_reachable == before.strom_reachable
    }

    fn index_of(&self, input_id: &str) -> (r: Option<usize>)
        requires
            self.wf(),
        ensures
            match r {
                Some(k) => k < self.inputs@.len() && self.inputs@[k as int].id@ == input_id@
                    && self.status(input_id@) == Some(self.inputs@[k as int]),
                None => self.status(input_id@) is None,
            },
    {
        let mut i: usize = 0;
        while i < self.inputs.len()
            invariant
                i <= self.inputs@.len(),
                self.wf(),
                forall|j: int| 0 <= j < i ==> (#[trigger] self.inputs@[j]).id@ != input_id@,
            decreases self.inputs@.len() - i,
        {
            if same_text(self.inputs[i].id.as_str(), input_id) {
                proof {
                    lemma_status_at(self.inputs@, i as int);
                }
                return Some(i);
            }
            i = i + 1;
        }
        proof {
            lemma_status_of(self.inputs@, input_id@);
        }
        None
    }

    fn replace(&mut self, k: usize, status: InputStatus)
        requires
            old(self).wf(),
            k < old(self).inputs@.len(),
            status.id@ == old(self).inputs@[k as int].id@,
        ensures
            final(self).changed_only(old(self), status.id@, Some(status)),
    {
        let ghost before = self.inputs@;
        let ghost id = status.id@;
        self.inputs.set(k, status);
        proof {
            let after = self.inputs@;
            assert(after =~= before.update(k as int, status));
            assert forall|i: int, j: int| 0 <= i < j < after.len() implies precedes(
                (#[trigger] after[i]).id@,
                (#[trigger] after[j]).id@,
            ) by {
                assert(before[i].id@ == after[i].id@ && before[j].id@ == after[j].id@);
            }
            lemma_status_at(after, k as int);
            assert forall|other: Seq<char>| other != id implies #[trigger] status_of(after, other)
                == status_of(before, other) by {
                lemma_same_elsewhere(before, after, other, id);
            }
        }
    }

    /// The status of an input, where it is known.
    pub fn find(&self, input_id: &str) -> (r: Option<&InputStatus>)
        requires
            self.wf(),
        ensures
            match r {
                Some(s) => self.status(input_id@) == Some(*s),
                None => self.status(input_id@) is None,
            },
    {
        match self.index_of(input_id) {
            Some(k) => Some(&self.inputs[k]),
            None => None,
        }
    }

    /// The state of an input, where it is known.
    pub fn state_of(&self, input_id: &str) -> (r: Option<InputState>)
        requires
            self.wf(),
        ensures
            match self.status(input_id@) {
                Some(s) => r == Some(s.state),
                None => r is None,
            },
    {
        match self.index_of(input_id) {
            Some(k) => Some(self.inputs[k].state),
            None => None,
        }
    }

    pub fn gateway_id(&self) -> (r: &str)
        ensures
            r@ == self.gateway_id@,
    {
        self.gateway_id.as_str()
    }

    /// What is known of the gateway, the inputs in the order of their ids.
    pub fn snapshot(&self, version: &str, uptime_seconds: u64) -> (r: GatewayStatus)
        requires
            self.wf(),
        ensures
            r.gateway_id@ == self.gateway_id@,
            r.version@ == version@,
            r.uptime_seconds == uptime_seconds,
            r.strom_reachable == self.strom_reachable,
            r.inputs@ == self.inputs@,
            ordered(r.inputs@),
    {
        let inputs = self.inputs.clone();
        assert(inputs@ =~= self.inputs@);
        GatewayStatus {
            gateway_id: self.gateway_id.clone(),
            version: version.to_owned(),
            uptime_seconds,
            strom_reachable: self.strom_reachable,
            inputs,
        }
    }

    pub fn set_strom_reachable(&mut self, reachable: bool)
        ensures
            final(self).gateway_id == old(self).gateway_id,
            final(self).inputs == old(self).inputs,
            final(self).strom_reachable == reachable,
            forall|id: Seq<char>| #[trigger] final(self).status(id) == old(self).status(id),
    {
        self.strom_reachable = reachable;
    }

    pub fn set_state(&mut self, input_id: &str, state: InputState)
        requires
            old(self).wf(),
        ensures
            final(self).changed_only(
                old(self),
                input_id@,
                match old(self).status(input_id@) {
                    Some(s) => Some(InputStatus { state, ..s }),
                    None => None,
                },
            ),
    {
        if let Some(k) = self.index_of(input_id) {
            let mut status = self.inputs[k].clone();
            status.state = state;
            self.replace(k, status);
        }
    }

    pub fn set_gst_state(&mut self, input_id: &str, gst_state: &Option<String>)
        requires
            old(self).wf(),
        ensures
            final(self).changed_only(
                old(self),
                input_id@,
                match old(self).status(input_id@) {
                    Some(s) => Some(InputStatus { gst_state: *gst_state, ..s }),
                    None => None,
                },
            ),
    {
        if let Some(k) = self.index_of(input_id) {
            let mut status = self.inputs[k].clone();
            status.gst_state = copy_opt(gst_state);
            self.replace(k, status);
        }
    }

    pub fn set_source_id(&mut self, input_id: &str, source_id: &String)
        requires
            old(self).wf(),
        ensures
            final(self).changed_only(
                old(self),
                input_id@,
                match old(self).status(input_id@) {
                    Some(s) => Some(InputStatus { source_id: Some(*source_id), ..s }),
                    None => None,
                },
            ),
    {
        if let Some(k) = self.index_of(input_id) {
            let mut status = self.inputs[k].clone();
            status.source_id = Some(source_id.clone());
            self.replace(k, status);
        }
    }

    /// Keeps an error and counts it. The count stops at its largest value.
    pub fn record_error(&mut self, input_id: &str, err: &String)
        requires
            old(self).wf(),
        ensures
            final(self).changed_only(
                old(self),
                input_id@,
                match old(self).status(input_id@) {
                    Some(s) => Some(
                        InputStatus {
                            last_error: Some(*err),
                            restarts: counted_on(s.restarts),
                            ..s
                        },
                    ),
                    None => None,
                },
            ),
    {
        if let Some(k) = self.index_of(input_id) {
            let mut status = self.inputs[k].clone();
            status.last_error = Some(err.clone());
            if status.restarts < u32::MAX {
                status.restarts = status.restarts + 1;
            }
            self.replace(k, status);
        }
    }

    /// Keeps a sample of the uplink and tells whether it delivers: only where more
    /// bytes went out than at the previous sample.
    pub fn record_uplink(&mut self, input_id: &str, sample: &SrtUplink) -> (r: bool)
        requires
            old(self).wf(),
        ensures
            r == (match old(self).status(input_id@) {
                Some(s) => advanced(s.uplink, sample.bytes_sent),
                None => false,
            }),
            final(self).changed_only(
                old(self),
                input_id@,
                match old(self).status(input_id@) {
                    Some(s) => Some(
                        InputStatus { uplink: Some(stats_of(*sample, r)), ..s },
                    ),
                    None => None,
                },
            ),
    {
        match self.index_of(input_id) {
            Some(k) => {
                let mut status = self.inputs[k].clone();
                let delivering = match status.uplink {
                    Some(previous) => sample.bytes_sent > previous.bytes_sent,
                    None => false,
                };
                status.uplink = Some(
                    UplinkStats {
                        delivering,
                        bytes_sent: sample.bytes_sent,
                        rtt_ms: sample.rtt_ms,
                        send_rate_mbps: sample.send_rate_mbps,
                        packets_retransmitted: sample.packets_retransmitted,
                        packets_sent_dropped: sample.packets_sent_dropped,
                        negotiated_latency_ms: sample.negotiated_latency_ms,
                    },
                );
                self.replace(k, status);
                delivering
            },
            None => false,
        }
    }

    /// Drops the uplink's samples: the next one has nothing to be compared with.
    pub fn clear_uplink(&mut self, input_id: &str)
        requires
            old(self).wf(),
        ensures
            final(self).changed_only(
                old(self),
                input_id@,
                match old(self).status(input_id@) {
                    Some(s) => Some(InputStatus { uplink: None, ..s }),
                    None => None,
                },
            ),
    {
        if let Some(k) = self.index_of(input_id) {
            let mut status = self.inputs[k].clone();
            status.uplink = None;
            self.replace(k, status);
        }
    }
}

pub open spec fn counted_on(n: u32) -> u32 {
    if n < u32::MAX {
        (n + 1) as u32
    } else {
        n
    }
}

/// More bytes went out than at the previous sample, and there was one.
pub open spec fn advanced(previous: Option<UplinkStats>, bytes_sent: u64) -> bool {
    previous matches Some(p) && bytes_sent > p.bytes_sent
}

pub open spec fn stats_of(sample: SrtUplink, delivering: bool) -> UplinkStats {
    UplinkStats {
        delivering,
        bytes_sent: sample.bytes_sent,
        rtt_ms: sample.rtt_ms,
        send_rate_mbps: sample.send_rate_mbps,
        packets_retransmitted: sample.packets_retransmitted,
        packets_sent_dropped: sample.packets_sent_dropped,
        negotiated_latency_ms: sample.negotiated_latency_ms,
    }
}

proof fn lemma_same_elsewhere(
    before: Seq<InputStatus>,
    after: Seq<InputStatus>,
    id: Seq<char>,
    key: Seq<char>,
)
    requires
        before.len() == after.len(),
        id != key,
        forall|i: int|
            0 <= i < before.len() ==> #[trigger] after[i] == before[i] || (after[i].id@ == key
                && before[i].id@ == key),
    ensures
        status_of(after, id) == status_of(before, id),
    decreases before.len(),
{
    if before.len() > 0 {
        let b = before.drop_last();
        let a = after.drop_last();
        assert forall|i: int| 0 <= i < b.len() implies #[trigger] a[i] == b[i] || (a[i].id@ == key
            && b[i].id@ == key) by {
            assert(after[i] == a[i] && before[i] == b[i]);
        }
        assert(after[after.len() - 1] == after.last());
        lemma_same_elsewhere(b, a, id, key);
    }
}

proof fn lemma_same_elsewhere_inserted(
    before: Seq<InputStatus>,
    at: int,
    status: InputStatus,
    id: Seq<char>,
)
    requires
        0 <= at <= before.len(),
        id != status.id@,
    ensures
        status_of(before.insert(at, status), id) == status_of(before, id),
    decreases before.len(),
{
    let after = before.insert(at, status);
    if at == before.len() {
        assert(after.drop_last() =~= before);
    } else {
        assert(after.last() == before.last());
        assert(after.drop_last() =~= before.drop_last().insert(at, status));
        lemma_same_elsewhere_inserted(before.drop_last(), at, status, id);
    }
}

// ---------------------------------------------------------------------------
// What is kept of an input
// ---------------------------------------------------------------------------

/// An uplink delivers exactly when more bytes have left than at the sample before: what
/// else that sample said, whether it was delivering then among it, makes no difference,
/// and a first sample proves nothing.
pub proof fn law_an_uplink_delivers_when_its_bytes_grow(p: UplinkStats, q: UplinkStats, bytes: u64)
    ensures
        advanced(Some(p), bytes) <==> bytes > p.bytes_sent,
        p.bytes_sent == q.bytes_sent ==> advanced(Some(p), bytes) == advanced(Some(q), bytes),
        !advanced(None, bytes),
{
}

/// What is kept of a sample is what the sample said, each value in its own place.
pub proof fn law_a_sample_is_kept_as_it_was_read(sample: SrtUplink, delivering: bool)
    ensures
        ({
            let kept = stats_of(sample, delivering);
            &&& kept.delivering == delivering
            &&& kept.bytes_sent == sample.bytes_sent
            &&& kept.rtt_ms == sample.rtt_ms
            &&& kept.send_rate_mbps == sample.send_rate_mbps
            &&& kept.packets_retransmitted == sample.packets_retransmitted
            &&& kept.packets_sent_dropped == sample.packets_sent_dropped
            &&& kept.negotiated_latency_ms == sample.negotiated_latency_ms
        }),
{
}

/// The status of an id is the one listed under it, and there is one exactly when one is
/// listed.
pub proof fn law_a_status_is_found_under_its_id(s: Seq<InputStatus>, id: Seq<char>, k: int)
    ensures
        ordered(s) && 0 <= k < s.len() ==> status_of(s, s[k].id@) == Some(s[k]),
        status_of(s, id) is Some <==> exists|i: int| 0 <= i < s.len() && (#[trigger] s[i]).id@ == id,
        status_of(s, id) is Some ==> status_of(s, id)->0.id@ == id,
    decreases s.len(),
{
    if s.len() > 0 {
        let init = s.drop_last();
        law_a_status_is_found_under_its_id(init, id, k);
        assert(s[s.len() - 1] == s.last());
        if exists|i: int| 0 <= i < init.len() && (#[trigger] init[i]).id@ == id {
            let i = choose|i: int| 0 <= i < init.len() && (#[trigger] init[i]).id@ == id;
            assert(s[i].id@ == id);
        }
        if exists|i: int| 0 <= i < s.len() && (#[trigger] s[i]).id@ == id {
            let i = choose|i: int| 0 <= i < s.len() && (#[trigger] s[i]).id@ == id;
            if i < init.len() {
                assert(init[i].id@ == id);
            }
        }
        if ordered(s) && 0 <= k < s.len() - 1 {
            assert forall|i: int, j: int| 0 <= i < j < init.len() implies precedes(
                (#[trigger] init[i]).id@,
                (#[trigger] init[j]).id@,
            ) by {
                assert(init[i] == s[i] && init[j] == s[j]);
            }
            assert(precedes(s[k].id@, s[s.len() - 1].id@));
            if s[k].id@ == s.last().id@ {
                lemma_precedes_irreflexive(s.last().id@);
            }
            assert(init[k] == s[k]);
        }
    }
}

/// An input that was just declared has done nothing yet: it is idle, knows of no source
/// and no sample, and tells the id of its flow and the address that the cloud is given.
pub proof fn law_an_input_starts_out_idle(
    status: InputStatus,
    gateway_id: Seq<char>,
    input: InputConfig,
)
    requires
        starts_out(status, gateway_id, input),
    ensures
        status.id@ == input.id@,
        status.state == InputState::Idle,
        status.uplink is None && status.source_id is None && status.last_error is None,
        status.gst_state is None && status.restarts == 0,
        status.listener_address@ == input.uplink.cloud_address(),
        status.flow_id@ == uuid_text(derived_id(gateway_id, input.id@).value),
{
}

/// The declaration of an id is one that was made under it, and there is one exactly when
/// one was made.
pub proof fn law_a_declaration_is_found_under_its_id(inputs: Seq<InputConfig>, id: Seq<char>)
    ensures
        declared(inputs, id) is Some <==> exists|i: int|
            0 <= i < inputs.len() && (#[trigger] inputs[i]).id@ == id,
        declared(inputs, id) is Some ==> declared(inputs, id)->0.id@ == id && inputs.contains(
            declared(inputs, id)->0,
        ),
    decreases inputs.len(),
{
    if inputs.len() > 0 {
        let init = inputs.drop_last();
        law_a_declaration_is_found_under_its_id(init, id);
        assert(inputs[inputs.len() - 1] == inputs.last());
        if exists|i: int| 0 <= i < init.len() && (#[trigger] init[i]).id@ == id {
            let i = choose|i: int| 0 <= i < init.len() && (#[trigger] init[i]).id@ == id;
            assert(inputs[i].id@ == id);
        }
        if exists|i: int| 0 <= i < inputs.len() && (#[trigger] inputs[i]).id@ == id {
            let i = choose|i: int| 0 <= i < inputs.len() && (#[trigger] inputs[i]).id@ == id;
            if i < init.len() {
                assert(init[i].id@ == id);
            }
        }
        if declared(init, id) is Some && inputs.last().id@ != id {
            let i = init.index_of(declared(init, id)->0);
            assert(inputs[i] == declared(inputs, id)->0);
        }
    }
}

/// Counting goes one on, and stops at the highest number there is.
pub proof fn law_a_count_goes_one_on(n: u32)
    ensures
        n < u32::MAX ==> counted_on(n) == n + 1,
        counted_on(u32::MAX) == u32::MAX,
{
}

/// A change to one input is told by its new status, and leaves every other input and the
/// gateway's id as they were; unless it says otherwise it also leaves alone whether Strom
/// is reachable.
pub proof fn law_one_input_changes_at_a_time(
    before: SharedState,
    after: SharedState,
    id: Seq<char>,
    other: Seq<char>,
    status: Option<InputStatus>,
)
    ensures
        after.one_changed(&before, id, status) ==> after.status(id) == status && after.gateway_id
            == before.gateway_id && (other != id ==> after.status(other) == before.status(other)),
        after.changed_only(&before, id, status) ==> after.one_changed(&before, id, status)
            && after.strom_reachable == before.strom_reachable,
{
}

} // verus!
