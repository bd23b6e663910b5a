//! From the devices Strom can see to the inputs the gateway streams: filtering,
//! selection, naming, and port allocation.

use crate::config::{
    fault_message, opt_or_empty, parsed_range, Capture, ConfigError, Endpoint, PortRange, Uplink,
};
use crate::flow::{device_input_id, id_of_device, Input, Source};
use crate::text::{
    ascii_lower, comes_before, contains, contains_text, copy_opt, decimal, dec, has_at, join, joined,
    lemma_precedes_irreflexive, lemma_precedes_total, lemma_precedes_transitive, nonempty, opt_text,
    precedes, quote, quoted_text, same_ignoring_ascii_case, split, split_all, texts, to_lowercase, trim,
    trimmed, unicode_lowercase,
};
use vstd::prelude::*;

verus! {

/// A capture device as Strom's discovery reports it.
#[derive(Debug)]
pub struct Device {
    pub id: String,
    pub name: String,
    /// What discovered it, where that is known.
    pub provider: Option<String>,
}

impl Clone for Device {
    fn clone(&self) -> (r: Self)
        ensures
            r == *self,
    {
        Device {
            id: self.id.clone(),
            name: self.name.clone(),
            provider: copy_opt(&self.provider),
        }
    }
}

pub struct DeviceView {
    pub id: Seq<char>,
    pub name: Seq<char>,
    pub provider: Option<Seq<char>>,
}

impl Device {
    pub open spec fn view(&self) -> DeviceView {
        DeviceView { id: self.id@, name: self.name@, provider: opt_text(self.provider) }
    }
}

pub open spec fn devices_view(s: Seq<Device>) -> Seq<DeviceView> {
    s.map_values(|d: Device| d@)
}

// ---------------------------------------------------------------------------
// Virtual devices
// ---------------------------------------------------------------------------

/// Whether a device exists but produces nothing unless another application is
/// running. Streaming one registers a source that sits in Studio waiting for a
/// picture, which reads as a fault, so they are skipped unless asked for. A name
/// heuristic, because the platform providers do not distinguish them.
pub open spec fn virtual_name(name: Seq<char>) -> bool {
    let n = unicode_lowercase(name);
    ||| contains_text(n, "virtual"@)
    ||| contains_text(n, "obs"@)
    ||| contains_text(n, "loopback"@)
    ||| contains_text(n, "dummy"@)
    ||| contains_text(n, "null"@)
    ||| contains_text(n, "screen capture"@)
    ||| contains_text(n, "desktop"@)
}

/// The same, for a name already in lower case.
pub fn hints_at_virtual(lower: &str) -> (r: bool)
    ensures
        r == (contains_text(lower@, "virtual"@) || contains_text(lower@, "obs"@) || contains_text(
            lower@,
            "loopback"@,
        ) || contains_text(lower@, "dummy"@) || contains_text(lower@, "null"@) || contains_text(
            lower@,
            "screen capture"@,
        ) || contains_text(lower@, "desktop"@)),
{
    contains(lower, "virtual") || contains(lower, "obs") || contains(lower, "loopback")
        || contains(lower, "dummy") || contains(lower, "null") || contains(lower, "screen capture")
        || contains(lower, "desktop")
}

pub fn is_probably_virtual(device: &Device) -> (r: bool)
    ensures
        r == virtual_name(device.name@),
{
    let lower = to_lowercase(device.name.as_str());
    hints_at_virtual(lower.as_str())
}

// ---------------------------------------------------------------------------
// Candidates, in name order
// ---------------------------------------------------------------------------

/// The devices that are not skipped, in the order given.
pub open spec fn kept(s: Seq<DeviceView>, include_virtual: bool) -> Seq<DeviceView>
    decreases s.len(),
{
    if s.len() == 0 {
        Seq::empty()
    } else if include_virtual || !virtual_name(s.last().name) {
        kept(s.drop_last(), include_virtual).push(s.last())
    } else {
        kept(s.drop_last(), include_virtual)
    }
}

/// The position behind every device whose name does not come after `name`.
pub open spec fn place(s: Seq<DeviceView>, name: Seq<char>) -> int
    decreases s.len(),
{
    if s.len() == 0 || !precedes(name, s.last().name) {
        s.len() as int
    } else {
        place(s.drop_last(), name)
    }
}

/// In name order; devices of one name stay in the order given.
pub open spec fn by_name(s: Seq<DeviceView>) -> Seq<DeviceView>
    decreases s.len(),
{
    if s.len() == 0 {
        Seq::empty()
    } else {
        let before = by_name(s.drop_last());
        before.insert(place(before, s.last().name), s.last())
    }
}

pub open spec fn candidates(s: Seq<DeviceView>, include_virtual: bool) -> Seq<DeviceView> {
    by_name(kept(s, include_virtual))
}

pub open spec fn in_name_order(s: Seq<DeviceView>) -> bool {
    forall|i: int, j: int| 0 <= i < j < s.len() ==> !precedes(s[j].name, s[i].name)
}

proof fn lemma_place(s: Seq<DeviceView>, name: Seq<char>)
    ensures
        0 <= place(s, name) <= s.len(),
        place(s, name) > 0 ==> !precedes(name, s[place(s, name) - 1].name),
        forall|j: int| place(s, name) <= j < s.len() ==> precedes(name, #[trigger] s[j].name),
    decreases s.len(),
{
    if s.len() > 0 && precedes(name, s.last().name) {
        let init = s.drop_last();
        lemma_place(init, name);
        assert forall|j: int| place(s, name) <= j < s.len() implies precedes(
            name,
            #[trigger] s[j].name,
        ) by {
            if j < s.len() - 1 {
                assert(init[j].name == s[j].name);
            }
        }
    }
}

/// The candidates come in name order, and they are exactly the devices that were not
/// skipped, each as often as it was reported.
pub proof fn law_candidates_are_the_kept_devices_in_name_order(
    s: Seq<DeviceView>,
    include_virtual: bool,
)
    ensures
        in_name_order(candidates(s, include_virtual)),
        candidates(s, include_virtual).to_multiset() == kept(s, include_virtual).to_multiset(),
        forall|d: DeviceView|
            kept(s, include_virtual).contains(d) <==> s.contains(d) && (include_virtual
                || !virtual_name(d.name)),
{
    lemma_by_name(kept(s, include_virtual));
    lemma_kept(s, include_virtual);
}

/// No two devices share a name.
pub open spec fn told_apart(s: Seq<DeviceView>) -> bool {
    forall|i: int, j: int| 0 <= i < j < s.len() ==> s[i].name != s[j].name
}

proof fn lemma_kept_count(s: Seq<DeviceView>, include_virtual: bool, d: DeviceView)
    ensures
        kept(s, include_virtual).to_multiset().count(d) == (if include_virtual || !virtual_name(
            d.name,
        ) {
            s.to_multiset().count(d)
        } else {
            0
        }),
    decreases s.len(),
{
    broadcast use vstd::seq_lib::group_to_multiset_ensures;

    if s.len() > 0 {
        let init = s.drop_last();
        lemma_kept_count(init, include_virtual, d);
        assert(s =~= init.push(s.last()));
    }
}

/// Devices with names of their own have one name order only.
proof fn lemma_one_order(a: Seq<DeviceView>, b: Seq<DeviceView>)
    requires
        in_name_order(a),
        in_name_order(b),
        told_apart(a),
        a.to_multiset() == b.to_multiset(),
    ensures
        a == b,
    decreases a.len(),
{
    a.to_multiset_ensures();
    b.to_multiset_ensures();
    assert(a.to_multiset().len() == b.to_multiset().len());
    if a.len() > 0 {
        let n = a.len() - 1;
        assert(a.contains(a[n]) && a.to_multiset().count(a[n]) > 0);
        assert(b.contains(b[n]) && b.to_multiset().count(b[n]) > 0);
        let j = choose|j: int| 0 <= j < b.len() && b[j] == a[n];
        let i = choose|i: int| 0 <= i < a.len() && a[i] == b[n];
        if i < n {
            // Both come last in one of the two orders, so neither name precedes the other.
            assert(!precedes(a[n].name, a[i].name));
            assert(!precedes(b[n].name, b[j].name));
            lemma_precedes_total(a[n].name, a[i].name);
            assert(a[i].name != a[n].name);
        }
        assert(a[n] == b[n]);
        assert(a.remove(n) =~= a.drop_last());
        assert(b.remove(n) =~= b.drop_last());
        assert(a.drop_last().to_multiset() == b.drop_last().to_multiset());
        lemma_one_order(a.drop_last(), b.drop_last());
        assert(a =~= a.drop_last().push(a[n]));
        assert(b =~= b.drop_last().push(b[n]));
    }
}

/// The order in which Strom lists the devices does not matter, as long as no two share a
/// name: the same cameras come in the same order, and so land on the same ports, across
/// runs.
pub proof fn law_the_order_of_discovery_does_not_matter(
    s: Seq<DeviceView>,
    t: Seq<DeviceView>,
    include_virtual: bool,
)
    requires
        s.to_multiset() == t.to_multiset(),
        told_apart(candidates(s, include_virtual)),
    ensures
        candidates(s, include_virtual) == candidates(t, include_virtual),
{
    broadcast use vstd::seq_lib::group_to_multiset_ensures;

    let a = kept(s, include_virtual);
    let b = kept(t, include_virtual);
    assert(a.to_multiset() =~= b.to_multiset()) by {
        assert forall|d: DeviceView| a.to_multiset().count(d) == b.to_multiset().count(d) by {
            lemma_kept_count(s, include_virtual, d);
            lemma_kept_count(t, include_virtual, d);
        }
    }
    lemma_by_name(a);
    lemma_by_name(b);
    lemma_one_order(by_name(a), by_name(b));
}

proof fn lemma_kept(s: Seq<DeviceView>, include_virtual: bool)
    ensures
        forall|d: DeviceView|
            kept(s, include_virtual).contains(d) <==> s.contains(d) && (include_virtual
                || !virtual_name(d.name)),
    decreases s.len(),
{
    if s.len() > 0 {
        let init = s.drop_last();
        let k = kept(init, include_virtual);
        lemma_kept(init, include_virtual);
        assert(s =~= init.push(s.last()));
        assert forall|d: DeviceView|
            kept(s, include_virtual).contains(d) <==> s.contains(d) && (include_virtual
                || !virtual_name(d.name)) by {
            if init.contains(d) {
                let i = choose|i: int| 0 <= i < init.len() && init[i] == d;
                assert(s[i] == d);
            }
            if d == s.last() {
                assert(s[s.len() - 1] == d);
            }
            if s.contains(d) && !(d == s.last()) {
                let i = choose|i: int| 0 <= i < s.len() && s[i] == d;
                assert(init[i] == d);
            }
            let all = kept(s, include_virtual);
            if k.contains(d) {
                let i = choose|i: int| 0 <= i < k.len() && k[i] == d;
                assert(all[i] == d);
            }
            if all.contains(d) && !k.contains(d) {
                let i = choose|i: int| 0 <= i < all.len() && all[i] == d;
                if i < k.len() {
                    assert(k[i] == d);
                }
            }
            if include_virtual || !virtual_name(s.last().name) {
                assert(all[all.len() - 1] == s.last());
            }
        }
    }
}

proof fn lemma_by_name(s: Seq<DeviceView>)
    ensures
        in_name_order(by_name(s)),
        by_name(s).to_multiset() == s.to_multiset(),
        by_name(s).len() == s.len(),
    decreases s.len(),
{
    broadcast use vstd::seq_lib::group_to_multiset_ensures;

    if s.len() > 0 {
        let d = s.last();
        let before = by_name(s.drop_last());
        lemma_by_name(s.drop_last());
        lemma_place(before, d.name);
        let k = place(before, d.name);
        let after = by_name(s);
        assert(after == before.insert(k, d));
        assert forall|i: int, j: int| 0 <= i < j < after.len() implies !precedes(
            after[j].name,
            after[i].name,
        ) by {
            if j == k {
                // Everything before the place does not come after the new device.
                lemma_not_after(before, k, d.name, i);
            } else if i == k {
                assert(after[j] == before[j - 1]);
                assert(precedes(d.name, before[j - 1].name));
                if precedes(before[j - 1].name, d.name) {
                    lemma_precedes_transitive(d.name, before[j - 1].name, d.name);
                    lemma_precedes_irreflexive(d.name);
                }
            } else {
                let a = if i < k {
                    i
                } else {
                    i - 1
                };
                let b = if j < k {
                    j
                } else {
                    j - 1
                };
                assert(after[i] == before[a] && after[j] == before[b]);
            }
        }
        assert(s =~= s.drop_last().push(d));
        assert(s.to_multiset() == s.drop_last().to_multiset().insert(d));
        assert(after.to_multiset() == before.to_multiset().insert(d));
    } else {
        assert(by_name(s) =~= s);
    }
}

proof fn lemma_not_after(s: Seq<DeviceView>, k: int, name: Seq<char>, i: int)
    requires
        in_name_order(s),
        k == place(s, name),
        0 <= i < k <= s.len(),
    ensures
        !precedes(name, s[i].name),
{
    lemma_place(s, name);
    if i < k - 1 && precedes(name, s[i].name) {
        lemma_precedes_total(s[i].name, s[k - 1].name);
        if precedes(s[i].name, s[k - 1].name) {
            lemma_precedes_transitive(name, s[i].name, s[k - 1].name);
        }
    }
}

/// The devices that are not skipped, in name order.
fn gather(all: Vec<Device>, include_virtual: bool) -> (r: Vec<Device>)
    ensures
        devices_view(r@) == candidates(devices_view(all@), include_virtual),
{
    let mut out: Vec<Device> = Vec::new();
    let mut i: usize = 0;
    let ghost views = devices_view(all@);
    while i < all.len()
        invariant
            i <= all@.len(),
            views == devices_view(all@),
            devices_view(out@) == candidates(views.subrange(0, i as int), include_virtual),
        decreases all@.len() - i,
    {
        let ghost upto = views.subrange(0, i + 1);
        assert(upto.drop_last() =~= views.subrange(0, i as int));
        assert(upto.last() == all@[i as int]@);
        if include_virtual || !is_probably_virtual(&all[i]) {
            let ghost k0 = kept(views.subrange(0, i as int), include_virtual);
            assert(kept(upto, include_virtual).drop_last() =~= k0);
            let ghost before = devices_view(out@);
            let ghost d = all@[i as int]@;
            let mut at: usize = out.len();
            assert(before.subrange(0, at as int) =~= before);
            while at > 0 && comes_before(all[i].name.as_str(), out[at - 1].name.as_str())
                invariant
                    at <= out@.len(),
                    i < all@.len(),
                    before == devices_view(out@),
                    d == all@[i as int]@,
                    place(before, d.name) == place(before.subrange(0, at as int), d.name),
                decreases at,
            {
                assert(before.subrange(0, at as int).drop_last() =~= before.subrange(0, at - 1));
                assert(before[at - 1] == out@[at - 1]@);
                at = at - 1;
            }
            assert(place(before, d.name) == at) by {
                if at > 0 {
                    assert(before[at - 1] == out@[at - 1]@);
                }
            }
            out.insert(at, all[i].clone());
            assert(devices_view(out@) =~= before.insert(at as int, d));
        }
        i = i + 1;
    }
    assert(views.subrange(0, all@.len() as int) =~= views);
    out
}

/// Everything Strom can see, in name order, as `devices` lists it.
pub fn sorted_by_name(all: Vec<Device>) -> (r: Vec<Device>)
    ensures
        devices_view(r@) == candidates(devices_view(all@), true),
{
    gather(all, true)
}

// ---------------------------------------------------------------------------
// Selection
// ---------------------------------------------------------------------------

/// A device is meant by its id, or by a fragment of its name, in any case.
pub open spec fn meant(d: DeviceView, wanted: Seq<char>) -> bool {
    ascii_lower(d.id) == ascii_lower(wanted) || contains_text(
        unicode_lowercase(d.name),
        unicode_lowercase(wanted),
    )
}

/// The devices that one entry of a selection means.
pub open spec fn matches_of(s: Seq<DeviceView>, wanted: Seq<char>) -> Seq<DeviceView>
    decreases s.len(),
{
    if s.len() == 0 {
        Seq::empty()
    } else if meant(s.last(), wanted) {
        matches_of(s.drop_last(), wanted).push(s.last())
    } else {
        matches_of(s.drop_last(), wanted)
    }
}

/// Why a selection was refused.
#[derive(Clone, Debug)]
pub enum ChooseError {
    NoMatch { wanted: String },
    Several { wanted: String, names: Vec<String> },
    Nothing,
}

pub enum ChooseFault {
    NoMatch(Seq<char>),
    Several(Seq<char>, Seq<Seq<char>>),
    Nothing,
}

impl ChooseError {
    pub open spec fn view(&self) -> ChooseFault {
        match self {
            ChooseError::NoMatch { wanted } => ChooseFault::NoMatch(wanted@),
            ChooseError::Several { wanted, names } => ChooseFault::Several(wanted@, texts(names@)),
            ChooseError::Nothing => ChooseFault::Nothing,
        }
    }

    pub open spec fn text(&self) -> Seq<char> {
        match self@ {
            ChooseFault::NoMatch(wanted) => "no device matches "@ + quoted_text(wanted)
                + ". Run `open-live-ingest devices` to see them."@,
            ChooseFault::Several(wanted, names) => quoted_text(wanted) + " matches "@ + dec(
                names.len(),
            ) + " devices ("@ + joined(names, ", "@) + "). Use a longer name or an id."@,
            ChooseFault::Nothing => "--devices selected nothing"@,
        }
    }

    pub fn message(&self) -> (r: String)
        ensures
            r@ == self.text(),
    {
        match self {
            ChooseError::NoMatch { wanted } => "no device matches ".to_owned().concat(
                quote(wanted.as_str()).as_str(),
            ).concat(". Run `open-live-ingest devices` to see them."),
            ChooseError::Several { wanted, names } => quote(wanted.as_str()).concat(
                " matches ",
            ).concat(decimal(names.len() as u64).as_str()).concat(" devices (").concat(
                join(names, ", ").as_str(),
            ).concat("). Use a longer name or an id."),
            ChooseError::Nothing => "--devices selected nothing".to_owned(),
        }
    }
}

/// The entries of a selection: the parts between commas, trimmed, without empty ones.
pub open spec fn entries_of(parts: Seq<Seq<char>>) -> Seq<Seq<char>>
    decreases parts.len(),
{
    if parts.len() == 0 {
        Seq::empty()
    } else if trimmed(parts.last()).len() > 0 {
        entries_of(parts.drop_last()).push(trimmed(parts.last()))
    } else {
        entries_of(parts.drop_last())
    }
}

pub open spec fn names_of(s: Seq<DeviceView>) -> Seq<Seq<char>> {
    s.map_values(|d: DeviceView| d.name)
}

/// One device per entry, in the order of the entries; an entry that means no device,
/// or more than one, refuses the whole selection.
pub open spec fn picked(s: Seq<DeviceView>, wanted: Seq<Seq<char>>) -> Result<
    Seq<DeviceView>,
    ChooseFault,
>
    decreases wanted.len(),
{
    if wanted.len() == 0 {
        Ok(Seq::empty())
    } else {
        match picked(s, wanted.drop_last()) {
            Err(e) => Err(e),
            Ok(before) => {
                let m = matches_of(s, wanted.last());
                if m.len() == 1 {
                    Ok(before.push(m[0]))
                } else if m.len() == 0 {
                    Err(ChooseFault::NoMatch(wanted.last()))
                } else {
                    Err(ChooseFault::Several(wanted.last(), names_of(m)))
                }
            },
        }
    }
}

/// The devices that were asked for, of those reported: every candidate in name order, or
/// one per entry of a selection in the order of its entries.
pub open spec fn selected(
    all: Seq<DeviceView>,
    include_virtual: bool,
    selection: Option<Seq<char>>,
) -> Result<Seq<DeviceView>, ChooseFault> {
    let devices = candidates(all, include_virtual);
    match selection {
        None => Ok(devices),
        Some(text) => match picked(devices, entries_of(split_all(text, ','))) {
            Err(e) => Err(e),
            Ok(found) => if found.len() == 0 {
                Err(ChooseFault::Nothing)
            } else {
                Ok(found)
            },
        },
    }
}

/// What a run streams: the devices that were asked for, in name order.
pub open spec fn chosen(
    all: Seq<DeviceView>,
    include_virtual: bool,
    selection: Option<Seq<char>>,
) -> Result<Seq<DeviceView>, ChooseFault> {
    match (selection, selected(all, include_virtual, selection)) {
        (_, Err(e)) => Err(e),
        (None, Ok(devices)) => Ok(devices),
        (Some(_), Ok(devices)) => Ok(by_name(devices)),
    }
}

fn find_matches(devices: &Vec<Device>, wanted: &str) -> (r: Vec<Device>)
    ensures
        devices_view(r@) == matches_of(devices_view(devices@), wanted@),
{
    let needle = to_lowercase(wanted);
    let mut out: Vec<Device> = Vec::new();
    let mut i: usize = 0;
    let ghost views = devices_view(devices@);
    while i < devices.len()
        invariant
            i <= devices@.len(),
            views == devices_view(devices@),
            needle@ == unicode_lowercase(wanted@),
            devices_view(out@) == matches_of(views.subrange(0, i as int), wanted@),
        decreases devices@.len() - i,
    {
        let ghost upto = views.subrange(0, i + 1);
        assert(upto.drop_last() =~= views.subrange(0, i as int));
        assert(upto.last() == devices@[i as int]@);
        let ghost before = devices_view(out@);
        if same_ignoring_ascii_case(devices[i].id.as_str(), wanted) || contains(
            to_lowercase(devices[i].name.as_str()).as_str(),
            needle.as_str(),
        ) {
            out.push(devices[i].clone());
            assert(devices_view(out@) =~= before.push(devices@[i as int]@));
        }
        i = i + 1;
    }
    assert(views.subrange(0, devices@.len() as int) =~= views);
    out
}

fn names(devices: &Vec<Device>) -> (r: Vec<String>)
    ensures
        texts(r@) == names_of(devices_view(devices@)),
{
    let mut out: Vec<String> = Vec::new();
    let mut i: usize = 0;
    while i < devices.len()
        invariant
            i <= devices@.len(),
            out@.len() == i,
            forall|j: int| 0 <= j < i ==> (#[trigger] out@[j])@ == devices@[j].name@,
        decreases devices@.len() - i,
    {
        out.push(devices[i].name.clone());
        i = i + 1;
    }
    assert(texts(out@) =~= names_of(devices_view(devices@)));
    out
}

/// The outcome of a choice, as data.
pub open spec fn choice(r: Result<Vec<Device>, ChooseError>) -> Result<
    Seq<DeviceView>,
    ChooseFault,
> {
    match r {
        Ok(v) => Ok(devices_view(v@)),
        Err(e) => Err(e@),
    }
}

/// Filters and selects, sorted by name so output is stable between runs.
///
/// Selection is by id or by name fragment, never by position: a device list changes
/// between runs, so a number that meant one camera yesterday can mean another today.
pub fn choose_devices(all: Vec<Device>, include_virtual: bool, selection: Option<&str>) -> (r:
    Result<Vec<Device>, ChooseError>)
    ensures
        choice(r) == chosen(
            devices_view(all@),
            include_virtual,
            match selection {
                Some(s) => Some(s@),
                None => None,
            },
        ),
{
    match select_devices(all, include_virtual, selection) {
        Ok(devices) => if selection.is_some() {
            proof {
                lemma_kept_all(devices_view(devices@));
            }
            Ok(gather(devices, true))
        } else {
            Ok(devices)
        },
        Err(e) => Err(e),
    }
}

/// Filters and selects, in the order of the selection's entries where there is one.
pub fn select_devices(all: Vec<Device>, include_virtual: bool, selection: Option<&str>) -> (r:
    Result<Vec<Device>, ChooseError>)
    ensures
        choice(r) == selected(
            devices_view(all@),
            include_virtual,
            match selection {
                Some(s) => Some(s@),
                None => None,
            },
        ),
{
    let devices = gather(all, include_virtual);
    let text = match selection {
        Some(s) => s,
        None => return Ok(devices),
    };
    let parts = split(text, ',');
    let ghost wanted = texts(parts@);
    let ghost views = devices_view(devices@);
    let mut found: Vec<Device> = Vec::new();
    let mut i: usize = 0;
    assert(devices_view(found@) =~= Seq::empty());
    while i < parts.len()
        invariant
            i <= parts@.len(),
            wanted == texts(parts@),
            wanted == split_all(text@, ','),
            selection is Some,
            selection->0@ == text@,
            views == devices_view(devices@),
            views == candidates(devices_view(all@), include_virtual),
            picked(views, entries_of(wanted.subrange(0, i as int))) == Ok::<
                Seq<DeviceView>,
                ChooseFault,
            >(devices_view(found@)),
        decreases parts@.len() - i,
    {
        let ghost upto = wanted.subrange(0, i + 1);
        assert(upto.drop_last() =~= wanted.subrange(0, i as int));
        assert(upto.last() == parts@[i as int]@);
        let ghost earlier = entries_of(wanted.subrange(0, i as int));
        let entry = trim(parts[i].as_str());
        if !entry.as_str().is_empty() {
            let ghost now = entries_of(upto);
            assert(now == earlier.push(entry@));
            assert(now.drop_last() =~= earlier);
            let m = find_matches(&devices, entry.as_str());
            let ghost ms = matches_of(views, entry@);
            assert(ms.len() == m@.len());
            if m.len() == 1 {
                let ghost before = devices_view(found@);
                found.push(m[0].clone());
                assert(ms[0] == m@[0]@);
                assert(devices_view(found@) =~= before.push(ms[0]));
            } else {
                proof {
                    lemma_picked_stops(views, wanted, i + 1);
                }
                if m.len() == 0 {
                    return Err(ChooseError::NoMatch { wanted: entry });
                }
                return Err(ChooseError::Several { wanted: entry, names: names(&m) });
            }
        }
        i = i + 1;
    }
    assert(wanted.subrange(0, parts@.len() as int) =~= wanted);
    if found.len() == 0 {
        return Err(ChooseError::Nothing);
    }
    Ok(found)
}

/// Once an entry refuses the selection, later entries do not change that.
proof fn lemma_picked_stops(s: Seq<DeviceView>, parts: Seq<Seq<char>>, k: int)
    requires
        0 <= k <= parts.len(),
        picked(s, entries_of(parts.subrange(0, k))) is Err,
    ensures
        picked(s, entries_of(parts)) == picked(s, entries_of(parts.subrange(0, k))),
    decreases parts.len() - k,
{
    if k < parts.len() {
        let next = parts.subrange(0, k + 1);
        assert(next.drop_last() =~= parts.subrange(0, k));
        let e = entries_of(next);
        if trimmed(next.last()).len() > 0 {
            assert(e.drop_last() =~= entries_of(parts.subrange(0, k)));
        }
        lemma_picked_stops(s, parts, k + 1);
    } else {
        assert(parts.subrange(0, k) =~= parts);
    }
}

/// Nothing is skipped where virtual devices are wanted too.
proof fn lemma_kept_all(s: Seq<DeviceView>)
    ensures
        kept(s, true) == s,
    decreases s.len(),
{
    if s.len() > 0 {
        lemma_kept_all(s.drop_last());
        assert(s =~= s.drop_last().push(s.last()));
    }
}

/// Whatever is asked for, and in whatever order, what a run streams comes in name order,
/// each device as often as it was asked for. So the same cameras land on the same ports
/// however the selection is written.
pub proof fn law_what_is_chosen_comes_in_name_order(
    all: Seq<DeviceView>,
    include_virtual: bool,
    selection: Option<Seq<char>>,
)
    requires
        chosen(all, include_virtual, selection) is Ok,
    ensures
        in_name_order(chosen(all, include_virtual, selection)->Ok_0),
        chosen(all, include_virtual, selection)->Ok_0.to_multiset() == selected(
            all,
            include_virtual,
            selection,
        )->Ok_0.to_multiset(),
{
    lemma_by_name(kept(all, include_virtual));
    lemma_by_name(selected(all, include_virtual, selection)->Ok_0);
}

/// A selection that is accepted gives one device per entry, and each is the only
/// device its entry means.
pub proof fn law_every_chosen_device_is_the_only_one_meant(
    s: Seq<DeviceView>,
    wanted: Seq<Seq<char>>,
    i: int,
)
    requires
        picked(s, wanted) is Ok,
        0 <= i < wanted.len(),
    ensures
        picked(s, wanted)->Ok_0.len() == wanted.len(),
        matches_of(s, wanted[i]) == seq![picked(s, wanted)->Ok_0[i]],
    decreases wanted.len(),
{
    let m = matches_of(s, wanted.last());
    assert(m =~= seq![m[0]]);
    if wanted.len() > 1 {
        law_every_chosen_device_is_the_only_one_meant(s, wanted.drop_last(), 0);
    }
    if i < wanted.len() - 1 {
        law_every_chosen_device_is_the_only_one_meant(s, wanted.drop_last(), i);
    }
}

// ---------------------------------------------------------------------------
// Inputs
// ---------------------------------------------------------------------------

/// The name of a gateway without surrounding blanks, and a dash.
pub open spec fn prefix_of(gateway_name: Seq<char>) -> Seq<char> {
    trimmed(gateway_name) + " — "@
}

/// The prefix every source and flow of this gateway carries, so an operator can tell
/// two venues' cameras apart in Studio and cleanup can recognise its own sources.
pub fn name_prefix(gateway_name: &str) -> (r: String)
    ensures
        r@ == prefix_of(gateway_name@),
{
    trim(gateway_name).concat(" — ")
}

/// The link of an input that was given a port.
pub open spec fn linked(e: Endpoint, uplink: Uplink, cloud_host: Seq<char>, port: int) -> bool {
    &&& e.mode == uplink.mode
    &&& e.cloud_host@ == cloud_host
    &&& e.public_host@ == opt_or_empty(uplink.public_host)
    &&& e.port == port
    &&& e.latency_ms == uplink.latency_ms
    &&& e.secret() == nonempty(uplink.passphrase)
    &&& e.pbkeylen == uplink.pbkeylen
}

/// The input that streams the test pattern.
pub open spec fn is_test_input(i: Input, gateway_name: Seq<char>, capture: Capture) -> bool {
    &&& i.id@ == "test"@
    &&& i.name@ == prefix_of(gateway_name) + "Test pattern"@
    &&& i.source matches Source::Test { resolution, framerate } && resolution@ == (
    match capture.video_resolution {
        Some(r) => r@,
        None => "1920x1080"@,
    }) && framerate@ == (match capture.video_framerate {
        Some(r) => r@,
        None => "25/1"@,
    })
}

/// The input that streams a device.
pub open spec fn is_device_input(
    i: Input,
    d: DeviceView,
    gateway_name: Seq<char>,
    capture: Capture,
) -> bool {
    &&& i.id@ == id_of_device(d.id)
    &&& i.name@ == prefix_of(gateway_name) + d.name
    &&& i.source matches Source::Device { device_id, resolution, framerate } && device_id@ == d.id
        && resolution == capture.video_resolution && framerate == capture.video_framerate
}

/// How many inputs a run has.
pub open spec fn input_count(devices: Seq<DeviceView>, test_pattern: bool) -> int {
    devices.len() + if test_pattern {
        1int
    } else {
        0int
    }
}

/// One input per device, behind the test pattern where that is asked for, each on the
/// next port of the range.
pub open spec fn inputs_match(
    inputs: Seq<Input>,
    devices: Seq<DeviceView>,
    test_pattern: bool,
    gateway_name: Seq<char>,
    uplink: Uplink,
    capture: Capture,
    cloud_host: Seq<char>,
    ports: PortRange,
) -> bool {
    let extra = if test_pattern {
        1int
    } else {
        0int
    };
    &&& inputs.len() == input_count(devices, test_pattern)
    &&& forall|k: int|
        0 <= k < inputs.len() ==> linked(
            (#[trigger] inputs[k]).endpoint,
            uplink,
            cloud_host,
            ports.first + k,
        )
    &&& test_pattern ==> is_test_input(inputs[0], gateway_name, capture)
    &&& forall|k: int|
        extra <= k < inputs.len() ==> is_device_input(
            #[trigger] inputs[k],
            devices[k - extra],
            gateway_name,
            capture,
        )
}

/// Why no inputs could be made.
#[derive(Clone, Debug)]
pub enum InputsError {
    /// The range in the settings is malformed.
    Range(ConfigError),
    /// The range has fewer ports than there are inputs.
    NoPort { range: String },
}

impl InputsError {
    pub open spec fn text(&self) -> Seq<char> {
        match *self {
            InputsError::Range(e) => fault_message(e.fault, e.value@),
            InputsError::NoPort { range } => "no free SRT port left in range "@ + range@,
        }
    }

    pub fn message(&self) -> (r: String)
        ensures
            r@ == self.text(),
    {
        match self {
            InputsError::Range(e) => e.message(),
            InputsError::NoPort { range } => "no free SRT port left in range ".to_owned().concat(
                range.as_str(),
            ),
        }
    }
}

/// Builds one input per device, allocating the lowest free port of `ports` to each in
/// name order. Deterministic, so the same devices land on the same ports across runs
/// and the addresses registered in Open Live stay stable.
pub fn inputs_within(
    devices: &Vec<Device>,
    test_pattern: bool,
    gateway_name: &str,
    uplink: &Uplink,
    capture: &Capture,
    cloud_host: &str,
    ports: PortRange,
    range_name: &str,
) -> (r: Result<Vec<Input>, InputsError>)
    ensures
        match r {
            Ok(inputs) => input_count(devices_view(devices@), test_pattern) <= ports.count()
                && inputs_match(
                inputs@,
                devices_view(devices@),
                test_pattern,
                gateway_name@,
                *uplink,
                *capture,
                cloud_host@,
                ports,
            ),
            Err(InputsError::NoPort { range }) => range@ == range_name@ && input_count(
                devices_view(devices@),
                test_pattern,
            ) > ports.count(),
            Err(InputsError::Range(_)) => false,
        },
{
    let prefix = name_prefix(gateway_name);
    let room: usize = if ports.first <= ports.last {
        (ports.last - ports.first) as usize + 1
    } else {
        0
    };
    let ghost views = devices_view(devices@);
    let ghost extra: int = if test_pattern {
        1
    } else {
        0
    };
    let mut inputs: Vec<Input> = Vec::new();
    if test_pattern {
        if room == 0 {
            return Err(InputsError::NoPort { range: range_name.to_owned() });
        }
        let resolution = match &capture.video_resolution {
            Some(r) => r.clone(),
            None => "1920x1080".to_owned(),
        };
        let framerate = match &capture.video_framerate {
            Some(r) => r.clone(),
            None => "25/1".to_owned(),
        };
        inputs.push(
            Input {
                id: "test".to_owned(),
                name: prefix.clone().concat("Test pattern"),
                source: Source::Test { resolution, framerate },
                endpoint: uplink.endpoint(cloud_host, ports.first),
            },
        );
    }
    let mut i: usize = 0;
    while i < devices.len()
        invariant
            i <= devices@.len(),
            views == devices_view(devices@),
            room == ports.count(),
            prefix@ == prefix_of(gateway_name@),
            extra == if test_pattern {
                1int
            } else {
                0int
            },
            inputs@.len() == i + extra,
            inputs@.len() <= room,
            forall|k: int|
                0 <= k < inputs@.len() ==> linked(
                    (#[trigger] inputs@[k]).endpoint,
                    *uplink,
                    cloud_host@,
                    ports.first + k,
                ),
            test_pattern ==> is_test_input(inputs@[0], gateway_name@, *capture),
            forall|k: int|
                extra <= k < inputs@.len() ==> is_device_input(
                    #[trigger] inputs@[k],
                    views[k - extra],
                    gateway_name@,
                    *capture,
                ),
        decreases devices@.len() - i,
    {
        if inputs.len() >= room {
            return Err(InputsError::NoPort { range: range_name.to_owned() });
        }
        let port: u16 = ports.first + inputs.len() as u16;
        assert(views[i as int] == devices@[i as int]@);
        inputs.push(
            Input {
                id: device_input_id(devices[i].id.as_str()),
                name: prefix.clone().concat(devices[i].name.as_str()),
                source: Source::Device {
                    device_id: devices[i].id.clone(),
                    resolution: copy_opt(&capture.video_resolution),
                    framerate: copy_opt(&capture.video_framerate),
                },
                endpoint: uplink.endpoint(cloud_host, port),
            },
        );
        i = i + 1;
    }
    Ok(inputs)
}

/// The same, on the ports that the settings name.
pub fn inputs_for(
    devices: &Vec<Device>,
    test_pattern: bool,
    gateway_name: &str,
    uplink: &Uplink,
    capture: &Capture,
    cloud_host: &str,
) -> (r: Result<Vec<Input>, InputsError>)
    ensures
        match parsed_range(uplink.port_range@) {
            Err(fault) => r is Err && (r->Err_0 matches InputsError::Range(e) && e@ == fault),
            Ok(ports) => match r {
                Ok(inputs) => input_count(devices_view(devices@), test_pattern) <= ports.count()
                    && inputs_match(
                    inputs@,
                    devices_view(devices@),
                    test_pattern,
                    gateway_name@,
                    *uplink,
                    *capture,
                    cloud_host@,
                    ports,
                ),
                Err(InputsError::NoPort { range }) => range@ == uplink.port_range@ && input_count(
                    devices_view(devices@),
                    test_pattern,
                ) > ports.count(),
                Err(InputsError::Range(_)) => false,
            },
        },
{
    let ports = match uplink.ports() {
        Ok(p) => p,
        Err(e) => return Err(InputsError::Range(e)),
    };
    inputs_within(
        devices,
        test_pattern,
        gateway_name,
        uplink,
        capture,
        cloud_host,
        ports,
        uplink.port_range.as_str(),
    )
}

/// No two inputs of a run share a port, and every port lies in the range.
pub proof fn law_every_input_has_a_port_of_its_own(
    inputs: Seq<Input>,
    devices: Seq<DeviceView>,
    test_pattern: bool,
    gateway_name: Seq<char>,
    uplink: Uplink,
    capture: Capture,
    cloud_host: Seq<char>,
    ports: PortRange,
    i: int,
    j: int,
)
    requires
        inputs_match(
            inputs,
            devices,
            test_pattern,
            gateway_name,
            uplink,
            capture,
            cloud_host,
            ports,
        ),
        input_count(devices, test_pattern) <= ports.count(),
        0 <= i < inputs.len(),
        0 <= j < inputs.len(),
        i != j,
    ensures
        inputs[i].endpoint.port != inputs[j].endpoint.port,
        ports.has(inputs[i].endpoint.port as int),
{
    assert(linked(inputs[i].endpoint, uplink, cloud_host, ports.first + i));
    assert(linked(inputs[j].endpoint, uplink, cloud_host, ports.first + j));
}

/// Every input's name carries the gateway's prefix, so a sweep by prefix finds it.
pub proof fn law_every_input_carries_the_prefix(
    inputs: Seq<Input>,
    devices: Seq<DeviceView>,
    test_pattern: bool,
    gateway_name: Seq<char>,
    uplink: Uplink,
    capture: Capture,
    cloud_host: Seq<char>,
    ports: PortRange,
    i: int,
)
    requires
        inputs_match(
            inputs,
            devices,
            test_pattern,
            gateway_name,
            uplink,
            capture,
            cloud_host,
            ports,
        ),
        0 <= i < inputs.len(),
    ensures
        prefix_of(gateway_name).is_prefix_of(inputs[i].name@),
{
    let extra: int = if test_pattern {
        1
    } else {
        0
    };
    if i >= extra {
        assert(is_device_input(inputs[i], devices[i - extra], gateway_name, capture));
    }
}

/// Blanks around a gateway's name make no difference to what it recognises.
pub proof fn law_a_padded_name_has_the_same_prefix(gateway_name: Seq<char>)
    ensures
        prefix_of(trimmed(gateway_name)) == prefix_of(gateway_name),
{
    crate::text::lemma_trimmed_idempotent(gateway_name);
}

// ---------------------------------------------------------------------------
// What is chosen, and what comes of it
// ---------------------------------------------------------------------------

/// The devices that an entry means are those of the list whose id it is, in whatever
/// case of ASCII, or whose name has it somewhere once both are in lower case. They come
/// as often and in the order in which they are listed.
pub proof fn law_an_entry_means_an_id_or_a_part_of_a_name(
    s: Seq<DeviceView>,
    wanted: Seq<char>,
    d: DeviceView,
)
    ensures
        matches_of(s, wanted).contains(d) <==> s.contains(d) && (ascii_lower(d.id) == ascii_lower(
            wanted,
        ) || exists|i: int|
            0 <= i <= unicode_lowercase(d.name).len() - unicode_lowercase(wanted).len()
                && #[trigger] unicode_lowercase(d.name).subrange(
                i,
                i + unicode_lowercase(wanted).len(),
            ) == unicode_lowercase(wanted)),
        matches_of(s, wanted) == s.filter(|x: DeviceView| matches_of(seq![x], wanted).len() > 0),
    decreases s.len(),
{
    reveal(Seq::filter);
    lemma_one_meant(d, wanted);
    if s.len() > 0 {
        let init = s.drop_last();
        let x = s.last();
        law_an_entry_means_an_id_or_a_part_of_a_name(init, wanted, d);
        lemma_one_meant(x, wanted);
        assert(s =~= init.push(x));
        let m = matches_of(init, wanted);
        if s.contains(d) {
            let i = s.index_of(d);
            if i < init.len() {
                assert(init[i] == d);
            }
        }
        if init.contains(d) {
            let i = init.index_of(d);
            assert(s[i] == d);
        }
        if meant(x, wanted) {
            if m.contains(d) {
                let i = m.index_of(d);
                assert(m.push(x)[i] == d);
            }
            assert(m.push(x)[m.len() as int] == x);
            if m.push(x).contains(d) {
                let i = m.push(x).index_of(d);
                if i < m.len() {
                    assert(m[i] == d);
                }
            }
        }
        assert(s[s.len() - 1] == x);
    }
}

proof fn lemma_one_meant(x: DeviceView, wanted: Seq<char>)
    ensures
        (matches_of(seq![x], wanted).len() > 0) == meant(x, wanted),
        contains_text(unicode_lowercase(x.name), unicode_lowercase(wanted)) == exists|i: int|
            0 <= i <= unicode_lowercase(x.name).len() - unicode_lowercase(wanted).len()
                && #[trigger] unicode_lowercase(x.name).subrange(
                i,
                i + unicode_lowercase(wanted).len(),
            ) == unicode_lowercase(wanted),
{
    let t = seq![x];
    assert(t.drop_last() =~= Seq::empty());
    assert(matches_of(t.drop_last(), wanted) =~= Seq::empty());
    let name = unicode_lowercase(x.name);
    let pat = unicode_lowercase(wanted);
    if exists|i: int|
        0 <= i <= name.len() - pat.len() && #[trigger] name.subrange(i, i + pat.len()) == pat {
        let i = choose|i: int|
            0 <= i <= name.len() - pat.len() && #[trigger] name.subrange(i, i + pat.len()) == pat;
        assert(has_at(name, pat, i));
    }
    if contains_text(name, pat) {
        let i = choose|i: int| has_at(name, pat, i);
        assert(name.subrange(i, i + pat.len()) == pat);
    }
}

/// Case makes no difference in a selection: entries with one lower-case form mean the
/// same devices, and whatever is chosen with one is chosen with the other.
pub proof fn law_case_makes_no_difference(
    s: Seq<DeviceView>,
    before: Seq<Seq<char>>,
    a: Seq<char>,
    b: Seq<char>,
)
    requires
        unicode_lowercase(a) == unicode_lowercase(b),
        ascii_lower(a) == ascii_lower(b),
    ensures
        matches_of(s, a) == matches_of(s, b),
        picked(s, before.push(a)) is Ok <==> picked(s, before.push(b)) is Ok,
        picked(s, before.push(a)) is Ok ==> picked(s, before.push(a)) == picked(s, before.push(b)),
    decreases s.len(),
{
    if s.len() > 0 {
        law_case_makes_no_difference(s.drop_last(), before, a, b);
    }
    assert(before.push(a).drop_last() =~= before);
    assert(before.push(b).drop_last() =~= before);
}

/// A device is meant by its name just as it is listed, by any text with the same
/// lower-case form, and by its id in any case, and no entry means a device by anything
/// else about it.
pub proof fn law_a_device_is_meant_by_its_name_and_by_its_id(
    s: Seq<DeviceView>,
    d: DeviceView,
    other: DeviceView,
    wanted: Seq<char>,
)
    requires
        s.contains(d),
    ensures
        matches_of(s, d.name).contains(d),
        matches_of(s, d.id).contains(d),
        unicode_lowercase(wanted) == unicode_lowercase(d.name) ==> matches_of(s, wanted).contains(d),
        ascii_lower(wanted) == ascii_lower(d.id) ==> matches_of(s, wanted).contains(d),
        s.contains(other) && other.name == d.name && other.id == d.id ==> (matches_of(
            s,
            wanted,
        ).contains(d) <==> matches_of(s, wanted).contains(other)),
{
    law_an_entry_means_an_id_or_a_part_of_a_name(s, d.name, d);
    law_an_entry_means_an_id_or_a_part_of_a_name(s, d.id, d);
    law_an_entry_means_an_id_or_a_part_of_a_name(s, wanted, d);
    law_an_entry_means_an_id_or_a_part_of_a_name(s, wanted, other);
    let name = unicode_lowercase(d.name);
    assert(name.subrange(0int, 0int + name.len()) =~= name);
}

/// A device is skipped when its name, in lower case, has one of a few words in it, and
/// none is skipped when virtual devices are asked for.
pub proof fn law_a_virtual_device_is_told_by_its_name(s: Seq<DeviceView>, d: DeviceView)
    requires
        s.contains(d),
    ensures
        candidates(s, true).contains(d),
        candidates(s, false).contains(d) <==> {
            let name = unicode_lowercase(d.name);
            !(contains_text(name, "virtual"@) || contains_text(name, "obs"@) || contains_text(
                name,
                "loopback"@,
            ) || contains_text(name, "dummy"@) || contains_text(name, "null"@) || contains_text(
                name,
                "screen capture"@,
            ) || contains_text(name, "desktop"@))
        },
{
    broadcast use vstd::seq_lib::group_to_multiset_ensures;

    lemma_kept(s, true);
    lemma_kept(s, false);
    lemma_by_name(kept(s, true));
    lemma_by_name(kept(s, false));
    assert(kept(s, true).to_multiset().count(d) > 0);
    assert(candidates(s, true).to_multiset().count(d) > 0);
    assert(candidates(s, false).contains(d) <==> kept(s, false).contains(d)) by {
        assert(candidates(s, false).to_multiset().count(d) > 0 <==> candidates(s, false).contains(
            d,
        ));
        assert(kept(s, false).to_multiset().count(d) > 0 <==> kept(s, false).contains(d));
    }
}

/// Candidates come with the names in ascending order, and devices of one name in the
/// order in which they were found.
pub proof fn law_candidates_ascend_by_name(
    s: Seq<DeviceView>,
    i: int,
    j: int,
    name: Seq<char>,
)
    ensures
        0 <= i < j < candidates(s, true).len() ==> candidates(s, true)[i].name == candidates(
            s,
            true,
        )[j].name || precedes(candidates(s, true)[i].name, candidates(s, true)[j].name),
        candidates(s, true).filter(|d: DeviceView| d.name == name) == s.filter(
            |d: DeviceView| d.name == name,
        ),
{
    lemma_kept_all(s);
    lemma_by_name(s);
    lemma_equal_names_keep_their_order(s, name);
    if 0 <= i < j < candidates(s, true).len() {
        lemma_precedes_total(candidates(s, true)[i].name, candidates(s, true)[j].name);
    }
}

proof fn lemma_equal_names_keep_their_order(s: Seq<DeviceView>, name: Seq<char>)
    ensures
        by_name(s).filter(|d: DeviceView| d.name == name) == s.filter(
            |d: DeviceView| d.name == name,
        ),
    decreases s.len(),
{
    reveal(Seq::filter);
    let p = |d: DeviceView| d.name == name;
    if s.len() > 0 {
        let d = s.last();
        let before = by_name(s.drop_last());
        lemma_equal_names_keep_their_order(s.drop_last(), name);
        lemma_place(before, d.name);
        let k = place(before, d.name);
        let a = before.subrange(0, k);
        let b = before.subrange(k, before.len() as int);
        assert(before =~= a + b);
        assert(before.insert(k, d) =~= (a + seq![d]) + b);
        Seq::filter_distributes_over_add(a, b, p);
        Seq::filter_distributes_over_add(a + seq![d], b, p);
        Seq::filter_distributes_over_add(a, seq![d], p);
        assert(seq![d].drop_last() =~= Seq::empty());
        if d.name == name {
            lemma_precedes_irreflexive(name);
            assert forall|i: int| 0 <= i < b.len() implies !p(#[trigger] b[i]) by {
                assert(b[i].name == before[k + i].name);
            }
            lemma_none_kept(b, p);
            assert(seq![d].filter(p) =~= seq![d]);
            assert(before.filter(p) =~= a.filter(p));
            assert(by_name(s).filter(p) =~= a.filter(p).push(d));
            assert(s.filter(p) =~= s.drop_last().filter(p).push(d));
        } else {
            assert forall|i: int| 0 <= i < seq![d].len() implies !p(#[trigger] seq![d][i]) by {}
            lemma_none_kept(seq![d], p);
            assert(by_name(s).filter(p) =~= before.filter(p));
        }
    } else {
        assert(by_name(s) =~= s);
    }
}

proof fn lemma_none_kept(s: Seq<DeviceView>, p: spec_fn(DeviceView) -> bool)
    requires
        forall|i: int| 0 <= i < s.len() ==> !p(#[trigger] s[i]),
    ensures
        s.filter(p) == Seq::<DeviceView>::empty(),
    decreases s.len(),
{
    reveal(Seq::filter);
    if s.len() > 0 {
        assert forall|i: int| 0 <= i < s.drop_last().len() implies !p(
            #[trigger] s.drop_last()[i],
        ) by {
            assert(s.drop_last()[i] == s[i]);
        }
        lemma_none_kept(s.drop_last(), p);
    } else {
        assert(s =~= Seq::empty());
    }
}

/// The entries of a selection are its parts without the white space around them, and a
/// part of white space alone is no entry.
pub proof fn law_a_blank_part_is_no_entry(parts: Seq<Seq<char>>, part: Seq<char>)
    ensures
        trimmed(part).len() == 0 ==> entries_of(parts.push(part)) == entries_of(parts),
        trimmed(part).len() > 0 ==> entries_of(parts.push(part)) == entries_of(parts).push(
            trimmed(part),
        ),
        entries_of(Seq::empty()) == Seq::<Seq<char>>::empty(),
{
    assert(parts.push(part).drop_last() =~= parts);
}

/// The first entry that does not mean exactly one device is what a selection fails
/// over: it is named where it means none, and where it means several they are listed.
/// Later entries make no difference.
pub proof fn law_the_first_bad_entry_is_named(
    s: Seq<DeviceView>,
    before: Seq<Seq<char>>,
    entry: Seq<char>,
    after: Seq<Seq<char>>,
)
    requires
        picked(s, before) is Ok,
        matches_of(s, entry).len() != 1,
    ensures
        matches_of(s, entry).len() == 0 ==> picked(s, before.push(entry) + after) == Err::<
            Seq<DeviceView>,
            ChooseFault,
        >(ChooseFault::NoMatch(entry)),
        matches_of(s, entry).len() > 1 ==> picked(s, before.push(entry) + after) == Err::<
            Seq<DeviceView>,
            ChooseFault,
        >(ChooseFault::Several(entry, matches_of(s, entry).map_values(|d: DeviceView| d.name))),
    decreases after.len(),
{
    let all = before.push(entry) + after;
    if after.len() == 0 {
        assert(all =~= before.push(entry));
        assert(all.drop_last() =~= before);
    } else {
        law_the_first_bad_entry_is_named(s, before, entry, after.drop_last());
        assert(all.drop_last() =~= before.push(entry) + after.drop_last());
    }
}

/// Without a selection every candidate is chosen. With one, the choice is refused when
/// it has no entry at all, and otherwise it succeeds exactly when every entry means one
/// device.
pub proof fn law_a_selection_succeeds_when_every_entry_means_one_device(
    all: Seq<DeviceView>,
    include_virtual: bool,
    text: Seq<char>,
)
    ensures
        chosen(all, include_virtual, None) == Ok::<Seq<DeviceView>, ChooseFault>(
            candidates(all, include_virtual),
        ),
        ({
            let entries = entries_of(split_all(text, ','));
            &&& chosen(all, include_virtual, Some(text)) is Ok <==> entries.len() > 0 && forall|
                i: int,
            |
                0 <= i < entries.len() ==> matches_of(
                    candidates(all, include_virtual),
                    #[trigger] entries[i],
                ).len() == 1
            &&& entries.len() == 0 ==> chosen(all, include_virtual, Some(text)) == Err::<
                Seq<DeviceView>,
                ChooseFault,
            >(ChooseFault::Nothing)
        }),
{
    let entries = entries_of(split_all(text, ','));
    let s = candidates(all, include_virtual);
    lemma_picked_when_all_are_clear(s, entries);
}

proof fn lemma_picked_when_all_are_clear(s: Seq<DeviceView>, wanted: Seq<Seq<char>>)
    ensures
        picked(s, wanted) is Ok <==> forall|i: int|
            0 <= i < wanted.len() ==> matches_of(s, #[trigger] wanted[i]).len() == 1,
        picked(s, wanted) is Ok ==> picked(s, wanted)->Ok_0.len() == wanted.len(),
    decreases wanted.len(),
{
    if wanted.len() > 0 {
        let init = wanted.drop_last();
        lemma_picked_when_all_are_clear(s, init);
        if picked(s, wanted) is Ok {
            assert forall|i: int| 0 <= i < wanted.len() implies matches_of(
                s,
                #[trigger] wanted[i],
            ).len() == 1 by {
                if i < init.len() {
                    assert(init[i] == wanted[i]);
                }
            }
        } else if picked(s, init) is Err {
            let i = choose|i: int| 0 <= i < init.len() && matches_of(s, #[trigger] init[i]).len() != 1;
            assert(wanted[i] == init[i]);
        } else {
            assert(matches_of(s, wanted[wanted.len() - 1]).len() != 1);
        }
    }
}

/// The inputs of a run: the test pattern first where it is asked for, then one per
/// device in the order given. The k-th takes the k-th port of the range, and every one
/// carries the link settings as they stand. A device is asked for the format that is
/// set; the test pattern is full HD at 25 frames where none is.
pub proof fn law_inputs_follow_the_devices(
    inputs: Seq<Input>,
    devices: Seq<DeviceView>,
    test_pattern: bool,
    gateway_name: Seq<char>,
    uplink: Uplink,
    capture: Capture,
    cloud_host: Seq<char>,
    ports: PortRange,
    k: int,
)
    requires
        inputs_match(
            inputs,
            devices,
            test_pattern,
            gateway_name,
            uplink,
            capture,
            cloud_host,
            ports,
        ),
        0 <= k < inputs.len(),
    ensures
        inputs.len() == devices.len() + if test_pattern {
            1int
        } else {
            0
        },
        inputs[k].endpoint.port == ports.first + k,
        inputs[k].endpoint.mode == uplink.mode,
        inputs[k].endpoint.cloud_host@ == cloud_host,
        uplink.public_host is Some ==> inputs[k].endpoint.public_host@ == uplink.public_host->0@,
        inputs[k].endpoint.latency_ms == uplink.latency_ms,
        inputs[k].endpoint.pbkeylen == uplink.pbkeylen,
        inputs[k].endpoint.passphrase is Some <==> uplink.passphrase is Some
            && uplink.passphrase->0@.len() > 0,
        inputs[k].endpoint.passphrase is Some ==> inputs[k].endpoint.passphrase->0@
            == uplink.passphrase->0@,
        !test_pattern || k > 0 ==> {
            let d = devices[k - if test_pattern {
                1int
            } else {
                0
            }];
            &&& inputs[k].name@ == trimmed(gateway_name) + " — "@ + d.name
            &&& inputs[k].id@ == id_of_device(d.id)
            &&& inputs[k].source is Device
            &&& inputs[k].source->device_id@ == d.id
            &&& inputs[k].source->Device_resolution == capture.video_resolution
            &&& inputs[k].source->Device_framerate == capture.video_framerate
        },
        test_pattern && k == 0 ==> {
            &&& inputs[k].name@ == trimmed(gateway_name) + " — "@ + "Test pattern"@
            &&& inputs[k].id@ == "test"@
            &&& inputs[k].source is Test
            &&& inputs[k].source->Test_resolution@ == if capture.video_resolution is Some {
                capture.video_resolution->0@
            } else {
                "1920x1080"@
            }
            &&& inputs[k].source->Test_framerate@ == if capture.video_framerate is Some {
                capture.video_framerate->0@
            } else {
                "25/1"@
            }
        },
{
}

/// Devices are told by their id, name and provider, in the order given, and a refusal by
/// the entry that it is about.
pub proof fn law_a_device_is_told_as_it_was_found(s: Seq<Device>, i: int, wanted: String)
    requires
        0 <= i < s.len(),
    ensures
        devices_view(s).len() == s.len(),
        devices_view(s)[i].id == s[i].id@,
        devices_view(s)[i].name == s[i].name@,
        s[i].provider is Some ==> devices_view(s)[i].provider == Some(s[i].provider->0@),
        s[i].provider is None ==> devices_view(s)[i].provider is None,
        (ChooseError::NoMatch { wanted })@ == ChooseFault::NoMatch(wanted@),
        ChooseError::Nothing@ == ChooseFault::Nothing,
{
}

/// An entry that is a part of a device's name, just as the name is listed, means that
/// device wherever the name in lower case is its parts in lower case. That is so but where
/// a part ends in a Greek sigma, which has another form at the end of a word.
pub proof fn law_a_part_of_a_name_means_the_device(
    s: Seq<DeviceView>,
    d: DeviceView,
    before: Seq<char>,
    wanted: Seq<char>,
    after: Seq<char>,
)
    requires
        s.contains(d),
        d.name == before + wanted + after,
        unicode_lowercase(d.name) == unicode_lowercase(before) + unicode_lowercase(wanted)
            + unicode_lowercase(after),
    ensures
        matches_of(s, wanted).contains(d),
{
    law_an_entry_means_an_id_or_a_part_of_a_name(s, wanted, d);
    let name = unicode_lowercase(d.name);
    let pat = unicode_lowercase(wanted);
    let at = unicode_lowercase(before).len() as int;
    assert(name.subrange(at, at + pat.len()) =~= pat);
}

/// A refused choice quotes the entry that it is about and, where several devices are
/// meant, counts and lists them.
pub proof fn law_a_refused_choice_quotes_its_entry(e: ChooseError)
    ensures
        e@ matches ChooseFault::NoMatch(wanted) ==> e.text() == "no device matches "@
            + quoted_text(wanted) + ". Run `open-live-ingest devices` to see them."@,
        e@ matches ChooseFault::Several(wanted, names) ==> e.text() == quoted_text(wanted)
            + " matches "@ + dec(names.len()) + " devices ("@ + joined(names, ", "@)
            + "). Use a longer name or an id."@,
        e@ == ChooseFault::Nothing ==> e.text() == "--devices selected nothing"@,
{
}

} // verus!
