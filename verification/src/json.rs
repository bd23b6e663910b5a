//! JSON documents as plain values: what the gateway reads of Strom's and Open Live's
//! answers, and compares.

use crate::text::same_text;
use serde_json::Value;
use vstd::prelude::*;

verus! {

/// A number as it was written: an integer of either sign, or the bits of a double.
#[derive(Clone, Copy, Debug, PartialEq, Eq, Structural)]
pub enum Number {
    PosInt(u64),
    NegInt(i64),
    Float(u64),
}

/// The bits of a double zero of either sign.
pub const ZERO_BITS: u64 = 0;

pub const NEG_ZERO_BITS: u64 = 0x8000_0000_0000_0000;

/// The number by value: the two zeros of a double are one.
pub open spec fn by_value(n: Number) -> Number {
    match n {
        Number::Float(bits) => if bits == NEG_ZERO_BITS {
            Number::Float(ZERO_BITS)
        } else {
            n
        },
        _ => n,
    }
}

/// A document. Of two members with one name the later counts.
#[derive(Debug)]
pub enum Json {
    Null,
    Bool(bool),
    Number(Number),
    Text(String),
    List(Vec<Json>),
    Object(Vec<(String, Json)>),
}

/// What a document means: lists by position, objects by name.
pub enum JsonView {
    Null,
    Bool(bool),
    Number(Number),
    Text(Seq<char>),
    List(Seq<JsonView>),
    Object(Map<Seq<char>, JsonView>),
}

pub open spec fn json_view(j: Json) -> JsonView
    decreases j,
{
    match j {
        Json::Null => JsonView::Null,
        Json::Bool(b) => JsonView::Bool(b),
        Json::Number(n) => JsonView::Number(by_value(n)),
        Json::Text(s) => JsonView::Text(s@),
        Json::List(v) => JsonView::List(list_view(v@)),
        Json::Object(v) => JsonView::Object(object_view(v@)),
    }
}

pub open spec fn list_view(s: Seq<Json>) -> Seq<JsonView>
    decreases s,
{
    if s.len() == 0 {
        Seq::empty()
    } else {
        list_view(s.drop_last()).push(json_view(s.last()))
    }
}

pub open spec fn object_view(s: Seq<(String, Json)>) -> Map<Seq<char>, JsonView>
    decreases s,
{
    if s.len() == 0 {
        Map::empty()
    } else {
        object_view(s.drop_last()).insert(s.last().0@, json_view(s.last().1))
    }
}

impl View for Json {
    type V = JsonView;

    open spec fn view(&self) -> JsonView {
        json_view(*self)
    }
}

pub proof fn lemma_list_view(s: Seq<Json>)
    ensures
        list_view(s).len() == s.len(),
        forall|i: int| 0 <= i < s.len() ==> #[trigger] list_view(s)[i] == json_view(s[i]),
    decreases s.len(),
{
    if s.len() > 0 {
        lemma_list_view(s.drop_last());
        assert forall|i: int| 0 <= i < s.len() implies #[trigger] list_view(s)[i] == json_view(
            s[i],
        ) by {
            if i < s.len() - 1 {
                assert(list_view(s.drop_last())[i] == json_view(s.drop_last()[i]));
            }
        }
    }
}

/// The member of a document with a name: none where it is no object or has no such
/// member.
pub open spec fn member(j: JsonView, key: Seq<char>) -> Option<JsonView> {
    match j {
        JsonView::Object(m) => if m.contains_key(key) {
            Some(m[key])
        } else {
            None
        },
        _ => None,
    }
}

pub open spec fn text_of(j: Option<JsonView>) -> Option<Seq<char>> {
    match j {
        Some(JsonView::Text(s)) => Some(s),
        _ => None,
    }
}

/// The view behind a reference, where there is one.
pub open spec fn opt_view(j: Option<&Json>) -> Option<JsonView> {
    match j {
        Some(v) => Some(v@),
        None => None,
    }
}

pub open spec fn uint_of(j: Option<JsonView>) -> Option<u64> {
    match j {
        Some(JsonView::Number(Number::PosInt(n))) => Some(n),
        _ => None,
    }
}

/// The items of a list, and none of anything else.
pub open spec fn items_of(j: Option<JsonView>) -> Seq<JsonView> {
    match j {
        Some(JsonView::List(items)) => items,
        _ => Seq::empty(),
    }
}

/// A member as it stands in a document where an absent one is null.
pub open spec fn or_null(j: Option<JsonView>) -> JsonView {
    match j {
        Some(v) => v,
        None => JsonView::Null,
    }
}

/// The members of an object, as it is put together.
#[derive(Debug)]
pub struct Fields {
    pub entries: Vec<(String, Json)>,
}

impl Fields {
    pub open spec fn view(&self) -> Map<Seq<char>, JsonView> {
        object_view(self.entries@)
    }

    pub fn new() -> (r: Fields)
        ensures
            r@ == Map::<Seq<char>, JsonView>::empty(),
    {
        Fields { entries: Vec::new() }
    }

    pub fn with(self, key: &str, value: Json) -> (r: Fields)
        ensures
            r@ == self@.insert(key@, value@),
    {
        let mut entries = self.entries;
        let ghost before = entries@;
        entries.push((key.to_owned(), value));
        assert(entries@.drop_last() =~= before);
        Fields { entries }
    }

    pub fn object(self) -> (r: Json)
        ensures
            r@ == JsonView::Object(self@),
    {
        Json::Object(self.entries)
    }
}

/// Adds a document to a list of them.
pub fn push_item(items: &mut Vec<Json>, item: Json)
    ensures
        list_view(final(items)@) == list_view(old(items)@).push(item@),
{
    let ghost before = items@;
    items.push(item);
    assert(items@.drop_last() =~= before);
}

impl Json {
    pub fn get(&self, key: &str) -> (r: Option<&Json>)
        ensures
            opt_view(r) == member(self@, key@),
    {
        let members = match self {
            Json::Object(v) => v,
            _ => return None,
        };
        let mut i: usize = members.len();
        assert(members@.subrange(0, i as int) =~= members@);
        while i > 0
            invariant
                i <= members@.len(),
                self@ == JsonView::Object(object_view(members@)),
                member(self@, key@) == member(
                    JsonView::Object(object_view(members@.subrange(0, i as int))),
                    key@,
                ),
            decreases i,
        {
            let ghost upto = members@.subrange(0, i as int);
            assert(upto.drop_last() =~= members@.subrange(0, i - 1));
            i = i - 1;
            if same_text(members[i].0.as_str(), key) {
                return Some(&members[i].1);
            }
        }
        None
    }

    pub fn as_text(&self) -> (r: Option<&str>)
        ensures
            match r {
                Some(s) => text_of(Some(self@)) == Some(s@),
                None => text_of(Some(self@)) is None,
            },
    {
        match self {
            Json::Text(s) => Some(s.as_str()),
            _ => None,
        }
    }

    /// The text of a member, where it has one that is a text.
    pub fn text_at(&self, key: &str) -> (r: Option<&str>)
        ensures
            match r {
                Some(s) => text_of(member(self@, key@)) == Some(s@),
                None => text_of(member(self@, key@)) is None,
            },
    {
        match self.get(key) {
            Some(v) => v.as_text(),
            None => None,
        }
    }

    /// The items of a document that is a list.
    pub fn as_list(&self) -> (r: Option<&Vec<Json>>)
        ensures
            match r {
                Some(v) => self@ == JsonView::List(list_view(v@)),
                None => !(self@ is List),
            },
    {
        match self {
            Json::List(v) => Some(v),
            _ => None,
        }
    }

    /// A number that is a whole one of no sign.
    pub fn as_uint(&self) -> (r: Option<u64>)
        ensures
            r == uint_of(Some(self@)),
    {
        match self {
            Json::Number(Number::PosInt(n)) => Some(*n),
            _ => None,
        }
    }

    /// Whatever number a document is.
    pub fn as_number(&self) -> (r: Option<Number>)
        ensures
            match r {
                Some(n) => self@ == JsonView::Number(by_value(n)),
                None => !(self@ is Number),
            },
    {
        match self {
            Json::Number(n) => Some(*n),
            _ => None,
        }
    }

    pub fn text(s: &str) -> (r: Json)
        ensures
            r@ == JsonView::Text(s@),
    {
        Json::Text(s.to_owned())
    }

    pub fn uint(n: u64) -> (r: Json)
        ensures
            r@ == JsonView::Number(Number::PosInt(n)),
    {
        Json::Number(Number::PosInt(n))
    }

    pub fn copy(&self) -> (r: Json)
        ensures
            r@ == self@,
        decreases self,
    {
        match self {
            Json::Null => Json::Null,
            Json::Bool(b) => Json::Bool(*b),
            Json::Number(n) => Json::Number(*n),
            Json::Text(s) => Json::Text(s.clone()),
            Json::List(v) => {
                let mut out: Vec<Json> = Vec::new();
                let mut i: usize = 0;
                while i < v.len()
                    invariant
                        i <= v@.len(),
                        *self == Json::List(*v),
                        list_view(out@) == list_view(v@.subrange(0, i as int)),
                    decreases v@.len() - i,
                {
                    assert(v@.subrange(0, i + 1).drop_last() =~= v@.subrange(0, i as int));
                    let ghost before = out@;
                    assert(decreases_to!(*self => self->List_0));
                    assert(decreases_to!(*v => v@[i as int]));
                    out.push(v[i].copy());
                    assert(out@.drop_last() =~= before);
                    i = i + 1;
                }
                assert(v@.subrange(0, v@.len() as int) =~= v@);
                Json::List(out)
            },
            Json::Object(v) => {
                let mut out: Vec<(String, Json)> = Vec::new();
                let mut i: usize = 0;
                while i < v.len()
                    invariant
                        i <= v@.len(),
                        *self == Json::Object(*v),
                        object_view(out@) == object_view(v@.subrange(0, i as int)),
                    decreases v@.len() - i,
                {
                    assert(v@.subrange(0, i + 1).drop_last() =~= v@.subrange(0, i as int));
                    let ghost before = out@;
                    assert(decreases_to!(*self => self->Object_0));
                    assert(decreases_to!(*v => v@[i as int]));
                    assert(decreases_to!(v@[i as int] => v@[i as int].1));
                    out.push((v[i].0.clone(), v[i].1.copy()));
                    assert(out@.drop_last() =~= before);
                    i = i + 1;
                }
                assert(v@.subrange(0, v@.len() as int) =~= v@);
                Json::Object(out)
            },
        }
    }
}

// ---------------------------------------------------------------------------
// Reading
// ---------------------------------------------------------------------------

/// A JSON document of the `serde_json` crate.
#[verifier::external_type_specification]
#[verifier::external_body]
pub struct ExValue(serde_json::Value);

/// What `serde_json::from_str` reads from a text, or nothing where it is no JSON
/// document.
pub uninterp spec fn parsed_json(text: Seq<char>) -> Option<JsonView>;

/// Turns a `serde_json::Value` into the same document of this library, variant by
/// variant.
#[verifier::external_body]
fn from_value(value: Value) -> (r: Json) {
    match value {
        Value::Null => Json::Null,
        Value::Bool(b) => Json::Bool(b),
        Value::Number(n) => Json::Number(match (n.as_u64(), n.as_i64()) {
            (Some(u), _) => Number::PosInt(u),
            (None, Some(i)) => Number::NegInt(i),
            (None, None) => Number::Float(n.as_f64().unwrap_or_default().to_bits()),
        }),
        Value::String(s) => Json::Text(s),
        Value::Array(v) => Json::List(v.into_iter().map(from_value).collect()),
        Value::Object(m) => Json::Object(
            m.into_iter().map(|(k, v)| (k, from_value(v))).collect(),
        ),
    }
}

/// Calls `serde_json::from_str` for a document of any shape. The contract claims that
/// the document depends on nothing but the characters of the text.
#[verifier::external_body]
pub(crate) fn parse_json(text: &str) -> (r: Option<Json>)
    ensures
        match r {
            Some(j) => parsed_json(text@) == Some(j@),
            None => parsed_json(text@) is None,
        },
{
    serde_json::from_str::<serde_json::Value>(text).ok().map(from_value)
}

/// What `serde_json::from_slice` reads from bytes, or nothing where they are no JSON
/// document.
pub uninterp spec fn parsed_json_bytes(bytes: Seq<u8>) -> Option<JsonView>;

/// Calls `serde_json::from_slice` for a document of any shape. The contract claims that
/// the document depends on nothing but the bytes.
#[verifier::external_body]
pub(crate) fn parse_json_bytes(bytes: &Vec<u8>) -> (r: Option<Json>)
    ensures
        match r {
            Some(j) => parsed_json_bytes(bytes@) == Some(j@),
            None => parsed_json_bytes(bytes@) is None,
        },
{
    serde_json::from_slice::<serde_json::Value>(bytes.as_slice()).ok().map(from_value)
}

// ---------------------------------------------------------------------------
// Comparing
// ---------------------------------------------------------------------------

fn same_number(a: Number, b: Number) -> (r: bool)
    ensures
        r == (by_value(a) == by_value(b)),
{
    match (a, b) {
        (Number::PosInt(x), Number::PosInt(y)) => x == y,
        (Number::NegInt(x), Number::NegInt(y)) => x == y,
        (Number::Float(x), Number::Float(y)) => {
            let p: u64 = if x == NEG_ZERO_BITS {
                ZERO_BITS
            } else {
                x
            };
            let q: u64 = if y == NEG_ZERO_BITS {
                ZERO_BITS
            } else {
                y
            };
            p == q
        },
        _ => false,
    }
}

/// Every member of `a` is in `b` with an equal value, for the first `n` entries of `a`.
spec fn members_within(a: Seq<(String, Json)>, b: Seq<(String, Json)>, n: int) -> bool {
    forall|i: int|
        0 <= i < n ==> object_view(b).contains_key((#[trigger] a[i]).0@) && object_view(
            b,
        )[a[i].0@] == object_view(a)[a[i].0@]
}

pub proof fn lemma_object_keys(s: Seq<(String, Json)>)
    ensures
        forall|k: Seq<char>| #[trigger]
            object_view(s).contains_key(k) <==> exists|i: int|
                0 <= i < s.len() && (#[trigger] s[i]).0@ == k,
    decreases s.len(),
{
    if s.len() > 0 {
        let init = s.drop_last();
        lemma_object_keys(init);
        assert forall|k: Seq<char>| #[trigger] object_view(s).contains_key(k) <==> exists|i: int|
            0 <= i < s.len() && (#[trigger] s[i]).0@ == k by {
            assert(object_view(s).contains_key(k) <==> object_view(init).contains_key(k) || k
                == s.last().0@);
            if object_view(init).contains_key(k) {
                let i = choose|i: int| 0 <= i < init.len() && (#[trigger] init[i]).0@ == k;
                assert(s[i].0@ == k);
            }
            if k == s.last().0@ {
                assert(s[s.len() - 1].0@ == k);
            }
            if exists|i: int| 0 <= i < s.len() && (#[trigger] s[i]).0@ == k {
                let i = choose|i: int| 0 <= i < s.len() && (#[trigger] s[i]).0@ == k;
                if i < s.len() - 1 {
                    assert(init[i].0@ == k);
                }
            }
        }
    }
}

proof fn lemma_same_members(a: Seq<(String, Json)>, b: Seq<(String, Json)>)
    requires
        members_within(a, b, a.len() as int),
        members_within(b, a, b.len() as int),
    ensures
        object_view(a) == object_view(b),
{
    lemma_object_keys(a);
    lemma_object_keys(b);
    assert forall|k: Seq<char>| object_view(a).contains_key(k) implies #[trigger] object_view(
        b,
    ).contains_key(k) && object_view(b)[k] == object_view(a)[k] by {
        let i = choose|i: int| 0 <= i < a.len() && (#[trigger] a[i]).0@ == k;
        assert(object_view(b).contains_key(a[i].0@));
    }
    assert forall|k: Seq<char>| object_view(b).contains_key(k) implies #[trigger] object_view(
        a,
    ).contains_key(k) by {
        let i = choose|i: int| 0 <= i < b.len() && (#[trigger] b[i]).0@ == k;
        assert(object_view(a).contains_key(b[i].0@));
    }
    assert(object_view(a) =~= object_view(b));
}

/// Where the last entry with a name is.
fn last_index(s: &Vec<(String, Json)>, key: &str) -> (r: Option<usize>)
    ensures
        match r {
            Some(k) => k < s@.len() && object_view(s@).contains_key(key@) && object_view(s@)[key@]
                == json_view(s@[k as int].1),
            None => !object_view(s@).contains_key(key@),
        },
{
    let mut i: usize = s.len();
    assert(s@.subrange(0, i as int) =~= s@);
    while i > 0
        invariant
            i <= s@.len(),
            object_view(s@).contains_key(key@) == object_view(
                s@.subrange(0, i as int),
            ).contains_key(key@),
            object_view(s@).contains_key(key@) ==> object_view(s@)[key@] == object_view(
                s@.subrange(0, i as int),
            )[key@],
        decreases i,
    {
        let ghost upto = s@.subrange(0, i as int);
        assert(upto.drop_last() =~= s@.subrange(0, i - 1));
        i = i - 1;
        if same_text(s[i].0.as_str(), key) {
            return Some(i);
        }
    }
    None
}

/// Whether two documents mean the same.
pub fn same_json(a: &Json, b: &Json) -> (r: bool)
    ensures
        r == (a@ == b@),
    decreases a,
{
    match (a, b) {
        (Json::Null, Json::Null) => true,
        (Json::Bool(x), Json::Bool(y)) => *x == *y,
        (Json::Number(x), Json::Number(y)) => same_number(*x, *y),
        (Json::Text(x), Json::Text(y)) => same_text(x.as_str(), y.as_str()),
        (Json::List(x), Json::List(y)) => same_list(x, y),
        (Json::Object(x), Json::Object(y)) => {
            let mut i: usize = 0;
            while i < x.len()
                invariant
                    i <= x@.len(),
                    *a == Json::Object(*x),
                    *b == Json::Object(*y),
                    members_within(x@, y@, i as int),
                decreases x@.len() - i,
            {
                proof {
                    lemma_object_keys(x@);
                    assert(x@[i as int].0@ == x@[i as int].0@);
                    assert(object_view(x@).contains_key(x@[i as int].0@));
                }
                let p = last_index(x, x[i].0.as_str());
                let q = last_index(y, x[i].0.as_str());
                match (p, q) {
                    (Some(p), Some(q)) => {
                        assert(decreases_to!(*a => a->Object_0));
                        assert(decreases_to!(*x => x@[p as int]));
                        assert(decreases_to!(x@[p as int] => x@[p as int].1));
                        if !same_json(&x[p].1, &y[q].1) {
                            assert(object_view(x@)[x@[i as int].0@] != object_view(
                                y@,
                            )[x@[i as int].0@]);
                            return false;
                        }
                    },
                    _ => {
                        assert(object_view(x@).contains_key(x@[i as int].0@) != object_view(
                            y@,
                        ).contains_key(x@[i as int].0@));
                        return false;
                    },
                }
                i = i + 1;
            }
            let mut j: usize = 0;
            while j < y.len()
                invariant
                    j <= y@.len(),
                    *a == Json::Object(*x),
                    *b == Json::Object(*y),
                    members_within(x@, y@, x@.len() as int),
                    members_within(y@, x@, j as int),
                decreases y@.len() - j,
            {
                proof {
                    lemma_object_keys(x@);
                    lemma_object_keys(y@);
                    assert(object_view(y@).contains_key(y@[j as int].0@));
                }
                match last_index(x, y[j].0.as_str()) {
                    Some(k) => {
                        proof {
                            let key = y@[j as int].0@;
                            let e = choose|e: int| 0 <= e < x@.len() && (#[trigger] x@[e]).0@ == key;
                            assert(object_view(y@)[x@[e].0@] == object_view(x@)[x@[e].0@]);
                        }
                    },
                    None => {
                        assert(object_view(x@).contains_key(y@[j as int].0@) != object_view(
                            y@,
                        ).contains_key(y@[j as int].0@));
                        return false;
                    },
                }
                j = j + 1;
            }
            proof {
                lemma_same_members(x@, y@);
            }
            true
        },
        _ => false,
    }
}

/// Whether two lists of documents mean the same.
pub fn same_list(x: &Vec<Json>, y: &Vec<Json>) -> (r: bool)
    ensures
        r == (list_view(x@) == list_view(y@)),
    decreases x,
{
    proof {
        lemma_list_view(x@);
        lemma_list_view(y@);
    }
    if x.len() != y.len() {
        return false;
    }
    let mut i: usize = 0;
    while i < x.len()
        invariant
            i <= x@.len(),
            x@.len() == y@.len(),
            list_view(x@).len() == x@.len(),
            list_view(y@).len() == y@.len(),
            forall|k: int| 0 <= k < x@.len() ==> #[trigger] list_view(x@)[k] == json_view(x@[k]),
            forall|k: int| 0 <= k < y@.len() ==> #[trigger] list_view(y@)[k] == json_view(y@[k]),
            forall|k: int| 0 <= k < i ==> json_view(#[trigger] x@[k]) == json_view(y@[k]),
        decreases x@.len() - i,
    {
        if !same_json(&x[i], &y[i]) {
            assert(list_view(x@)[i as int] != list_view(y@)[i as int]);
            return false;
        }
        i = i + 1;
    }
    assert(list_view(x@) =~= list_view(y@));
    true
}

} // verus!
