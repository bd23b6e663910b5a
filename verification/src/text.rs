//! Text as sequences of characters: the handful of string operations the gateway
//! needs, each with what it computes stated over `Seq<char>`.

use vstd::prelude::*;

verus! {

/// `String::push` appends the given character to the end of the string.
pub assume_specification[ String::push ](s: &mut String, c: char)
    ensures
        final(s)@ == old(s)@.push(c),
;

/// The result of `str::to_lowercase`: the lowercase equivalent by Unicode's
/// `Lowercase` property, which may have another length than the argument.
pub uninterp spec fn unicode_lowercase(s: Seq<char>) -> Seq<char>;

/// Calls `str::to_lowercase`. The contract claims only that the result depends on
/// nothing but the characters of the argument.
#[verifier::external_body]
pub(crate) fn to_lowercase(s: &str) -> (r: String)
    ensures
        r@ == unicode_lowercase(s@),
{
    s.to_lowercase()
}

/// What `{:?}` prints for a string: quoted, with control characters escaped.
pub uninterp spec fn quoted_text(s: Seq<char>) -> Seq<char>;

/// Nothing but ASCII letters and digits, `-` and `_`: characters that are never escaped.
pub open spec fn needs_no_escape(s: Seq<char>) -> bool {
    forall|i: int|
        0 <= i < s.len() ==> is_alphanumeric(#[trigger] s[i]) || s[i] == '-' || s[i] == '_'
}

/// Formats a string with `{:?}`. The contract claims that the result depends on nothing
/// but the characters of the argument, and that a text in which nothing needs an escape
/// stands as it is between two quotation marks. What becomes of other characters is left
/// unsaid.
#[verifier::external_body]
pub(crate) fn quote(s: &str) -> (r: String)
    ensures
        r@ == quoted_text(s@),
        needs_no_escape(s@) ==> r@ == seq!['"'] + s@ + seq!['"'],
{
    format!("{:?}", s)
}

// ---------------------------------------------------------------------------
// Characters
// ---------------------------------------------------------------------------

/// Unicode's `White_Space` property.
pub open spec fn is_white(c: char) -> bool {
    let n = c as u32;
    ||| 0x9 <= n <= 0xD
    ||| n == 0x20
    ||| n == 0x85
    ||| n == 0xA0
    ||| n == 0x1680
    ||| 0x2000 <= n <= 0x200A
    ||| n == 0x2028
    ||| n == 0x2029
    ||| n == 0x202F
    ||| n == 0x205F
    ||| n == 0x3000
}

pub fn char_is_white(c: char) -> (r: bool)
    ensures
        r == is_white(c),
{
    let n: u32 = c as u32;
    (0x9 <= n && n <= 0xD) || n == 0x20 || n == 0x85 || n == 0xA0 || n == 0x1680 || (0x2000 <= n
        && n <= 0x200A) || n == 0x2028 || n == 0x2029 || n == 0x202F || n == 0x205F || n == 0x3000
}

pub open spec fn is_digit(c: char) -> bool {
    '0' <= c <= '9'
}

pub open spec fn is_alphanumeric(c: char) -> bool {
    is_digit(c) || 'a' <= c <= 'z' || 'A' <= c <= 'Z'
}

pub fn char_is_alphanumeric(c: char) -> (r: bool)
    ensures
        r == is_alphanumeric(c),
{
    ('0' <= c && c <= '9') || ('a' <= c && c <= 'z') || ('A' <= c && c <= 'Z')
}

/// ASCII upper case to lower case; every other character is itself.
pub open spec fn lower_char(c: char) -> char {
    if 'A' <= c <= 'Z' {
        ((c as u32 + 32) as u32) as char
    } else {
        c
    }
}

pub fn char_to_lower(c: char) -> (r: char)
    ensures
        r == lower_char(c),
{
    if 'A' <= c && c <= 'Z' {
        let n: u8 = c as u8;
        (n + 32) as char
    } else {
        c
    }
}

pub open spec fn digit_char(d: nat) -> char {
    ((48 + d) as u8) as char
}

pub open spec fn digit_value(c: char) -> nat {
    (c as u32 - 48) as nat
}

// ---------------------------------------------------------------------------
// Between strings and vectors of characters
// ---------------------------------------------------------------------------

pub fn to_chars(s: &str) -> (r: Vec<char>)
    ensures
        r@ == s@,
{
    let mut out: Vec<char> = Vec::new();
    for c in it: s.chars()
        invariant
            out@ == it.seq().take(it.index() as int),
            it.seq() == s@,
    {
        out.push(c);
    }
    out
}

/// The characters of `v` from `from` up to `to`, as a string.
pub fn string_of(v: &Vec<char>, from: usize, to: usize) -> (r: String)
    requires
        from <= to <= v@.len(),
    ensures
        r@ == v@.subrange(from as int, to as int),
{
    let mut out = String::new();
    let mut i: usize = from;
    while i < to
        invariant
            from <= i <= to <= v@.len(),
            out@ == v@.subrange(from as int, i as int),
        decreases to - i,
    {
        out.push(v[i]);
        i = i + 1;
    }
    out
}

pub fn same_text(a: &str, b: &str) -> (r: bool)
    ensures
        r == (a@ == b@),
{
    let x = to_chars(a);
    let y = to_chars(b);
    if x.len() != y.len() {
        return false;
    }
    let mut i: usize = 0;
    while i < x.len()
        invariant
            i <= x@.len(),
            x@.len() == y@.len(),
            x@ == a@,
            y@ == b@,
            forall|j: int| 0 <= j < i ==> x@[j] == y@[j],
        decreases x@.len() - i,
    {
        if x[i] != y[i] {
            return false;
        }
        i = i + 1;
    }
    assert(x@ =~= y@);
    true
}

// ---------------------------------------------------------------------------
// Trimming
// ---------------------------------------------------------------------------

/// The text without its leading white space.
pub open spec fn trim_start(s: Seq<char>) -> Seq<char>
    decreases s.len(),
{
    if s.len() > 0 && is_white(s[0]) {
        trim_start(s.drop_first())
    } else {
        s
    }
}

/// The text without its trailing white space.
pub open spec fn trim_end(s: Seq<char>) -> Seq<char>
    decreases s.len(),
{
    if s.len() > 0 && is_white(s.last()) {
        trim_end(s.drop_last())
    } else {
        s
    }
}

/// The text without the white space at its ends.
pub open spec fn trimmed(s: Seq<char>) -> Seq<char> {
    trim_end(trim_start(s))
}

/// Nothing but white space, or nothing at all.
pub open spec fn blank(s: Seq<char>) -> bool {
    trimmed(s).len() == 0
}

pub fn trim(s: &str) -> (r: String)
    ensures
        r@ == trimmed(s@),
{
    let v = to_chars(s);
    let mut from: usize = 0;
    assert(v@.subrange(0, v@.len() as int) =~= v@);
    while from < v.len() && char_is_white(v[from])
        invariant
            from <= v@.len(),
            trim_start(v@) == trim_start(v@.subrange(from as int, v@.len() as int)),
        decreases v@.len() - from,
    {
        assert(v@.subrange(from as int, v@.len() as int).drop_first() =~= v@.subrange(
            from + 1,
            v@.len() as int,
        ));
        from = from + 1;
    }
    let ghost rest = v@.subrange(from as int, v@.len() as int);
    assert(trim_start(v@) == rest);
    let mut to: usize = v.len();
    while to > from && char_is_white(v[to - 1])
        invariant
            from <= to <= v@.len(),
            trim_end(rest) == trim_end(v@.subrange(from as int, to as int)),
        decreases to,
    {
        assert(v@.subrange(from as int, to as int).drop_last() =~= v@.subrange(
            from as int,
            to - 1,
        ));
        to = to - 1;
    }
    string_of(&v, from, to)
}

/// Whether there is anything but white space in the text.
pub fn is_blank(s: &str) -> (r: bool)
    ensures
        r == blank(s@),
{
    let t = trim(s);
    t.as_str().is_empty()
}

/// A text that starts and ends in something visible is its own trimmed form.
pub proof fn lemma_trimmed_keeps(s: Seq<char>)
    requires
        s.len() == 0 || (!is_white(s[0]) && !is_white(s.last())),
    ensures
        trimmed(s) == s,
{
}

/// Trimming leaves nothing further to trim.
pub proof fn lemma_trim_start_head(s: Seq<char>)
    ensures
        trim_start(s).len() == 0 || !is_white(trim_start(s)[0]),
        trim_start(s).len() <= s.len(),
    decreases s.len(),
{
    if s.len() > 0 && is_white(s[0]) {
        lemma_trim_start_head(s.drop_first());
    }
}

pub proof fn lemma_trim_end_last(s: Seq<char>)
    ensures
        trim_end(s).len() == 0 || !is_white(trim_end(s).last()),
        trim_end(s).is_prefix_of(s),
    decreases s.len(),
{
    if s.len() > 0 && is_white(s.last()) {
        lemma_trim_end_last(s.drop_last());
    }
}

/// Trimming twice is trimming once.
pub proof fn lemma_trimmed_idempotent(s: Seq<char>)
    ensures
        trimmed(trimmed(s)) == trimmed(s),
{
    lemma_trim_start_head(s);
    lemma_trim_end_last(trim_start(s));
    lemma_trimmed_keeps(trimmed(s));
}

// ---------------------------------------------------------------------------
// Searching
// ---------------------------------------------------------------------------

/// `pat` stands in `s` at position `i`.
pub open spec fn has_at(s: Seq<char>, pat: Seq<char>, i: int) -> bool {
    0 <= i && i + pat.len() <= s.len() && s.subrange(i, i + pat.len()) == pat
}

pub open spec fn contains_text(s: Seq<char>, pat: Seq<char>) -> bool {
    exists|i: int| has_at(s, pat, i)
}

/// The first position at or after `i` where `pat` stands.
pub open spec fn find_from(s: Seq<char>, pat: Seq<char>, i: int) -> Option<int>
    decreases s.len() + 1 - i,
{
    if i < 0 || i + pat.len() > s.len() {
        None
    } else if has_at(s, pat, i) {
        Some(i)
    } else {
        find_from(s, pat, i + 1)
    }
}

pub open spec fn find_text(s: Seq<char>, pat: Seq<char>) -> Option<int> {
    find_from(s, pat, 0)
}

pub proof fn lemma_find_from(s: Seq<char>, pat: Seq<char>, i: int)
    requires
        0 <= i,
    ensures
        match find_from(s, pat, i) {
            Some(k) => i <= k && has_at(s, pat, k) && forall|j: int|
                i <= j < k ==> !has_at(s, pat, j),
            None => forall|j: int| i <= j ==> !has_at(s, pat, j),
        },
    decreases s.len() + 1 - i,
{
    if i + pat.len() > s.len() {
    } else if has_at(s, pat, i) {
    } else {
        lemma_find_from(s, pat, i + 1);
    }
}

/// Whether `pat` stands in `v` at position `i`.
pub fn chars_at(v: &Vec<char>, pat: &Vec<char>, i: usize) -> (r: bool)
    ensures
        r == has_at(v@, pat@, i as int),
{
    if pat.len() > v.len() || i > v.len() - pat.len() {
        return false;
    }
    let mut j: usize = 0;
    while j < pat.len()
        invariant
            j <= pat@.len(),
            i + pat@.len() <= v.len(),
            forall|k: int| 0 <= k < j ==> v@[i + k] == pat@[k],
        decreases pat@.len() - j,
    {
        if v[i + j] != pat[j] {
            assert(v@.subrange(i as int, i + pat@.len())[j as int] != pat@[j as int]);
            return false;
        }
        j = j + 1;
    }
    assert(v@.subrange(i as int, i + pat@.len()) =~= pat@);
    true
}

/// The first position in `v` where `pat` stands.
pub fn find_chars(v: &Vec<char>, pat: &Vec<char>) -> (r: Option<usize>)
    ensures
        match r {
            Some(k) => find_text(v@, pat@) == Some(k as int),
            None => find_text(v@, pat@) is None,
        },
{
    if pat.len() > v.len() {
        return None;
    }
    let last: usize = v.len() - pat.len();
    let mut i: usize = 0;
    loop
        invariant
            i <= last,
            last == v@.len() - pat@.len(),
            find_text(v@, pat@) == find_from(v@, pat@, i as int),
        decreases last - i,
    {
        if chars_at(v, pat, i) {
            return Some(i);
        }
        if i == last {
            assert(find_from(v@, pat@, i + 1) is None);
            return None;
        }
        i = i + 1;
    }
}

pub fn contains(s: &str, pat: &str) -> (r: bool)
    ensures
        r == contains_text(s@, pat@),
{
    let v = to_chars(s);
    let p = to_chars(pat);
    let found = find_chars(&v, &p);
    proof {
        lemma_find_from(s@, pat@, 0);
        if found is Some {
            assert(has_at(s@, pat@, found->0 as int));
        } else {
            assert forall|i: int| !has_at(s@, pat@, i) by {}
        }
    }
    found.is_some()
}

pub fn starts_with(s: &str, prefix: &str) -> (r: bool)
    ensures
        r == prefix@.is_prefix_of(s@),
{
    let v = to_chars(s);
    let p = to_chars(prefix);
    let r = chars_at(&v, &p, 0);
    proof {
        if prefix@.is_prefix_of(s@) {
            assert(s@.subrange(0, prefix@.len() as int) =~= prefix@);
        }
        if r {
            assert(prefix@.is_prefix_of(s@));
        }
    }
    r
}

pub fn ends_with(s: &str, suffix: &str) -> (r: bool)
    ensures
        r == suffix@.is_suffix_of(s@),
{
    let v = to_chars(s);
    let p = to_chars(suffix);
    if p.len() > v.len() {
        return false;
    }
    let r = chars_at(&v, &p, v.len() - p.len());
    proof {
        assert(s@.len() - suffix@.len() + suffix@.len() == s@.len());
        if suffix@.is_suffix_of(s@) {
            assert(s@.subrange(s@.len() - suffix@.len(), s@.len() as int) =~= suffix@);
        }
        if r {
            assert(suffix@.is_suffix_of(s@));
        }
    }
    r
}

/// What follows `prefix`, where the text begins with it.
pub open spec fn after_prefix(s: Seq<char>, prefix: Seq<char>) -> Option<Seq<char>> {
    if prefix.is_prefix_of(s) {
        Some(s.subrange(prefix.len() as int, s.len() as int))
    } else {
        None
    }
}

pub fn strip_prefix(s: &str, prefix: &str) -> (r: Option<String>)
    ensures
        match r {
            Some(rest) => after_prefix(s@, prefix@) == Some(rest@),
            None => after_prefix(s@, prefix@) is None,
        },
{
    if starts_with(s, prefix) {
        let v = to_chars(s);
        let n: usize = prefix.unicode_len();
        Some(string_of(&v, n, v.len()))
    } else {
        None
    }
}

// ---------------------------------------------------------------------------
// Splitting at a character
// ---------------------------------------------------------------------------

/// The first position at or after `i` that holds `c`, or the length.
pub open spec fn char_from(s: Seq<char>, c: char, i: int) -> int
    decreases s.len() - i,
{
    if i < 0 || i >= s.len() {
        s.len() as int
    } else if s[i] == c {
        i
    } else {
        char_from(s, c, i + 1)
    }
}

/// The parts before and after the first `c`.
pub open spec fn split_at_first(s: Seq<char>, c: char) -> Option<(Seq<char>, Seq<char>)> {
    let k = char_from(s, c, 0);
    if k < s.len() {
        Some((s.subrange(0, k), s.subrange(k + 1, s.len() as int)))
    } else {
        None
    }
}

pub proof fn lemma_char_from(s: Seq<char>, c: char, i: int)
    requires
        0 <= i <= s.len(),
    ensures
        i <= char_from(s, c, i) <= s.len(),
        forall|j: int| i <= j < char_from(s, c, i) ==> s[j] != c,
        char_from(s, c, i) < s.len() ==> s[char_from(s, c, i)] == c,
    decreases s.len() - i,
{
    if i < s.len() && s[i] != c {
        lemma_char_from(s, c, i + 1);
    }
}

pub fn find_char(v: &Vec<char>, c: char, from: usize) -> (r: usize)
    requires
        from <= v@.len(),
    ensures
        r == char_from(v@, c, from as int),
        from <= r <= v@.len(),
{
    let mut i: usize = from;
    while i < v.len() && v[i] != c
        invariant
            from <= i <= v@.len(),
            char_from(v@, c, from as int) == char_from(v@, c, i as int),
        decreases v@.len() - i,
    {
        i = i + 1;
    }
    i
}

pub fn split_once(s: &str, c: char) -> (r: Option<(String, String)>)
    ensures
        match r {
            Some((a, b)) => split_at_first(s@, c) == Some((a@, b@)),
            None => split_at_first(s@, c) is None,
        },
{
    let v = to_chars(s);
    let k: usize = find_char(&v, c, 0);
    if k < v.len() {
        Some((string_of(&v, 0, k), string_of(&v, k + 1, v.len())))
    } else {
        None
    }
}

/// The text up to the first `c`, or all of it.
pub open spec fn before_char(s: Seq<char>, c: char) -> Seq<char> {
    s.subrange(0, char_from(s, c, 0))
}

pub fn up_to_char(s: &str, c: char) -> (r: String)
    ensures
        r@ == before_char(s@, c),
{
    let v = to_chars(s);
    let k: usize = find_char(&v, c, 0);
    string_of(&v, 0, k)
}

/// The pieces between the occurrences of `c`: one more than there are occurrences.
pub open spec fn split_all(s: Seq<char>, c: char) -> Seq<Seq<char>>
    decreases s.len(),
{
    let k = char_from(s, c, 0);
    if 0 <= k < s.len() {
        seq![s.subrange(0, k)] + split_all(s.subrange(k + 1, s.len() as int), c)
    } else {
        seq![s]
    }
}

/// The views of a vector of strings.
pub open spec fn texts(v: Seq<String>) -> Seq<Seq<char>> {
    v.map_values(|s: String| s@)
}

pub fn split(s: &str, c: char) -> (r: Vec<String>)
    ensures
        texts(r@) == split_all(s@, c),
{
    let v = to_chars(s);
    let mut out: Vec<String> = Vec::new();
    let mut from: usize = 0;
    proof {
        assert(v@.subrange(0, v@.len() as int) =~= v@);
        assert(texts(out@) + split_all(v@, c) =~= split_all(v@, c));
    }
    loop
        invariant
            from <= v@.len(),
            v@ == s@,
            split_all(v@, c) == texts(out@) + split_all(
                v@.subrange(from as int, v@.len() as int),
                c,
            ),
        decreases v@.len() - from,
    {
        let k: usize = find_char(&v, c, from);
        let ghost rest = v@.subrange(from as int, v@.len() as int);
        proof {
            lemma_char_from_shift(v@, c, from as int, from as int);
        }
        let piece = string_of(&v, from, k);
        assert(piece@ =~= rest.subrange(0, k - from));
        let ghost before = out@;
        out.push(piece);
        assert(texts(out@) =~= texts(before).push(piece@));
        if k == v.len() {
            assert(piece@ =~= rest);
            assert(texts(out@) =~= texts(before) + seq![rest]);
            return out;
        }
        assert(rest.subrange(k - from + 1, rest.len() as int) =~= v@.subrange(
            k + 1,
            v@.len() as int,
        ));
        assert(texts(out@) + split_all(v@.subrange(k + 1, v@.len() as int), c) =~= texts(before) + (
        seq![piece@] + split_all(v@.subrange(k + 1, v@.len() as int), c)));
        from = k + 1;
    }
}

/// Searching a tail from its start is searching the whole from there.
proof fn lemma_char_from_shift(s: Seq<char>, c: char, base: int, i: int)
    requires
        0 <= base <= i <= s.len(),
    ensures
        char_from(s.subrange(base, s.len() as int), c, i - base) == char_from(s, c, i) - base,
    decreases s.len() - i,
{
    if i < s.len() && s[i] != c {
        lemma_char_from_shift(s, c, base, i + 1);
    }
}

// ---------------------------------------------------------------------------
// Numbers
// ---------------------------------------------------------------------------

/// Decimal notation.
pub open spec fn dec(n: nat) -> Seq<char>
    decreases n,
{
    if n < 10 {
        seq![digit_char(n)]
    } else {
        dec(n / 10).push(digit_char(n % 10))
    }
}

pub open spec fn all_digits(s: Seq<char>) -> bool {
    forall|i: int| 0 <= i < s.len() ==> is_digit(#[trigger] s[i])
}

/// What a run of decimal digits denotes.
pub open spec fn digits_value(s: Seq<char>) -> nat
    decreases s.len(),
{
    if s.len() == 0 {
        0
    } else {
        digits_value(s.drop_last()) * 10 + digit_value(s.last())
    }
}

/// An unsigned number as the standard parser reads it: an optional plus sign, then
/// one or more decimal digits, for a value no greater than `max`.
pub open spec fn parsed_number(s: Seq<char>, max: nat) -> Option<nat> {
    let d = if s.len() > 0 && s[0] == '+' {
        s.drop_first()
    } else {
        s
    };
    if d.len() > 0 && all_digits(d) && digits_value(d) <= max {
        Some(digits_value(d))
    } else {
        None
    }
}

pub fn decimal(n: u64) -> (r: String)
    ensures
        r@ == dec(n as nat),
    decreases n,
{
    let d: u8 = (n % 10) as u8;
    let c: char = (48 + d) as char;
    if n < 10 {
        let mut out = String::new();
        out.push(c);
        assert(out@ =~= seq![digit_char(n as nat)]);
        out
    } else {
        let mut out = decimal(n / 10);
        out.push(c);
        out
    }
}

/// A number is read back from its decimal notation, which has no blanks around it.
pub proof fn lemma_decimal_is_read_back(n: nat, max: nat)
    requires
        n <= max,
    ensures
        parsed_number(dec(n), max) == Some(n),
        trimmed(dec(n)) == dec(n),
{
    lemma_dec_digits(n);
    let d = dec(n);
    assert(is_digit(d[0]) && is_digit(d.last()));
    assert(trim_start(d) == d);
    assert(trim_end(d) == d);
}

proof fn lemma_dec_digits(n: nat)
    ensures
        dec(n).len() > 0,
        all_digits(dec(n)),
        digits_value(dec(n)) == n,
    decreases n,
{
    if n < 10 {
        assert(dec(n).drop_last() =~= Seq::empty());
        assert(digits_value(dec(n).drop_last()) == 0);
    } else {
        lemma_dec_digits(n / 10);
        let init = dec(n / 10);
        assert(dec(n).drop_last() =~= init);
        assert forall|i: int| 0 <= i < dec(n).len() implies is_digit(#[trigger] dec(n)[i]) by {
            if i < init.len() {
                assert(dec(n)[i] == init[i]);
            }
        }
    }
}

proof fn lemma_digits_value_prefix(s: Seq<char>, k: int)
    requires
        0 <= k <= s.len(),
    ensures
        digits_value(s.subrange(0, k)) <= digits_value(s),
    decreases s.len() - k,
{
    if k < s.len() {
        lemma_digits_value_prefix(s, k + 1);
        assert(s.subrange(0, k + 1).drop_last() =~= s.subrange(0, k));
    } else {
        assert(s.subrange(0, k) =~= s);
    }
}

/// Reads an unsigned number no greater than `max`.
pub fn parse_number(s: &str, max: u64) -> (r: Option<u64>)
    ensures
        match r {
            Some(n) => parsed_number(s@, max as nat) == Some(n as nat),
            None => parsed_number(s@, max as nat) is None,
        },
{
    let v = to_chars(s);
    let from: usize = if v.len() > 0 && v[0] == '+' {
        1
    } else {
        0
    };
    let ghost d = v@.subrange(from as int, v@.len() as int);
    proof {
        if from == 1 {
            assert(d =~= s@.drop_first());
        } else {
            assert(d =~= s@);
        }
    }
    if from == v.len() {
        return None;
    }
    let mut i: usize = from;
    let mut value: u64 = 0;
    while i < v.len()
        invariant
            from <= i <= v@.len(),
            d == v@.subrange(from as int, v@.len() as int),
            parsed_number(s@, max as nat) == if d.len() > 0 && all_digits(d) && digits_value(d)
                <= max as nat {
                Some(digits_value(d))
            } else {
                None::<nat>
            },
            forall|j: int| 0 <= j < i - from ==> is_digit(#[trigger] d[j]),
            value == digits_value(d.subrange(0, i - from)),
            value <= max,
        decreases v@.len() - i,
    {
        let c: char = v[i];
        assert(d[i - from] == c);
        if !('0' <= c && c <= '9') {
            return None;
        }
        let digit: u64 = (c as u32 - 48) as u64;
        proof {
            assert(d.subrange(0, i - from + 1).drop_last() =~= d.subrange(0, i - from));
            lemma_digits_value_prefix(d, i - from + 1);
        }
        if value > (u64::MAX - digit) / 10 {
            return None;
        }
        value = value * 10 + digit;
        if value > max {
            return None;
        }
        i = i + 1;
    }
    assert(d.subrange(0, d.len() as int) =~= d);
    Some(value)
}

// ---------------------------------------------------------------------------
// Case, columns, joining
// ---------------------------------------------------------------------------

pub open spec fn ascii_lower(s: Seq<char>) -> Seq<char> {
    s.map_values(|c: char| lower_char(c))
}

pub fn lower_chars(v: &Vec<char>) -> (r: Vec<char>)
    ensures
        r@ == ascii_lower(v@),
{
    let mut out: Vec<char> = Vec::new();
    let mut i: usize = 0;
    while i < v.len()
        invariant
            i <= v@.len(),
            out@ == ascii_lower(v@).subrange(0, i as int),
        decreases v@.len() - i,
    {
        out.push(char_to_lower(v[i]));
        i = i + 1;
    }
    assert(out@ =~= ascii_lower(v@));
    out
}

/// Equal but for the case of ASCII letters.
pub fn same_ignoring_ascii_case(a: &str, b: &str) -> (r: bool)
    ensures
        r == (ascii_lower(a@) == ascii_lower(b@)),
{
    let x = lower_chars(&to_chars(a));
    let y = lower_chars(&to_chars(b));
    if x.len() != y.len() {
        return false;
    }
    let s = string_of(&x, 0, x.len());
    let t = string_of(&y, 0, y.len());
    assert(s@ =~= x@);
    assert(t@ =~= y@);
    same_text(s.as_str(), t.as_str())
}

pub open spec fn spaces(n: int) -> Seq<char> {
    Seq::new(
        if n > 0 {
            n as nat
        } else {
            0
        },
        |i: int| ' ',
    )
}

/// Left-aligned in a column of `width` characters; a longer text is left as it is.
pub open spec fn padded(s: Seq<char>, width: int) -> Seq<char> {
    s + spaces(width - s.len())
}

pub fn pad(s: &str, width: usize) -> (r: String)
    ensures
        r@ == padded(s@, width as int),
{
    let mut out = s.to_owned();
    let mut n: usize = s.unicode_len();
    assert(out@ =~= s@ + spaces(0));
    while n < width
        invariant
            n >= s@.len(),
            n <= width || n == s@.len(),
            out@ == s@ + spaces(n - s@.len()),
        decreases width - n,
    {
        assert(spaces(n + 1 - s@.len()) =~= spaces(n - s@.len()).push(' '));
        out.push(' ');
        assert(out@ =~= s@ + spaces(n + 1 - s@.len()));
        n = n + 1;
    }
    if width <= s.unicode_len() {
        assert(spaces(width - s@.len()) =~= spaces(0));
    }
    out
}

/// Cut to `width` characters, the last of them an ellipsis, where it is longer.
pub open spec fn shortened(s: Seq<char>, width: int) -> Seq<char> {
    if s.len() <= width {
        s
    } else {
        s.subrange(
            0,
            if width > 0 {
                width - 1
            } else {
                0
            },
        ).push('\u{2026}')
    }
}

pub fn shorten(s: &str, width: usize) -> (r: String)
    ensures
        r@ == shortened(s@, width as int),
{
    let v = to_chars(s);
    if v.len() <= width {
        return s.to_owned();
    }
    let keep: usize = if width > 0 {
        width - 1
    } else {
        0
    };
    let mut out = string_of(&v, 0, keep);
    out.push('\u{2026}');
    out
}

/// The texts in order with `sep` between each two.
pub open spec fn joined(parts: Seq<Seq<char>>, sep: Seq<char>) -> Seq<char>
    decreases parts.len(),
{
    if parts.len() == 0 {
        Seq::empty()
    } else if parts.len() == 1 {
        parts[0]
    } else {
        joined(parts.drop_last(), sep) + sep + parts.last()
    }
}

pub fn join(parts: &Vec<String>, sep: &str) -> (r: String)
    ensures
        r@ == joined(texts(parts@), sep@),
{
    let mut out = String::new();
    let mut i: usize = 0;
    while i < parts.len()
        invariant
            i <= parts@.len(),
            out@ == joined(texts(parts@).subrange(0, i as int), sep@),
        decreases parts@.len() - i,
    {
        let ghost upto = texts(parts@).subrange(0, i + 1);
        assert(upto.drop_last() =~= texts(parts@).subrange(0, i as int));
        if i > 0 {
            out.append(sep);
        }
        out.append(parts[i].as_str());
        proof {
            if i == 0 {
                assert(out@ =~= upto[0]);
            }
        }
        i = i + 1;
    }
    assert(texts(parts@).subrange(0, parts@.len() as int) =~= texts(parts@));
    out
}

// ---------------------------------------------------------------------------
// Order
// ---------------------------------------------------------------------------

/// The order of strings: by the first character that differs, and a proper prefix
/// comes first.
pub open spec fn precedes(a: Seq<char>, b: Seq<char>) -> bool
    decreases a.len(),
{
    if b.len() == 0 {
        false
    } else if a.len() == 0 {
        true
    } else if a[0] == b[0] {
        precedes(a.drop_first(), b.drop_first())
    } else {
        a[0] < b[0]
    }
}

pub fn comes_before(a: &str, b: &str) -> (r: bool)
    ensures
        r == precedes(a@, b@),
{
    let x = to_chars(a);
    let y = to_chars(b);
    let mut i: usize = 0;
    proof {
        assert(x@.subrange(0, x@.len() as int) =~= x@);
        assert(y@.subrange(0, y@.len() as int) =~= y@);
    }
    loop
        invariant
            i <= x@.len(),
            i <= y@.len(),
            precedes(a@, b@) == precedes(
                x@.subrange(i as int, x@.len() as int),
                y@.subrange(i as int, y@.len() as int),
            ),
        decreases x@.len() - i,
    {
        if i == y.len() {
            return false;
        }
        if i == x.len() {
            return true;
        }
        if x[i] != y[i] {
            return x[i] < y[i];
        }
        proof {
            assert(x@.subrange(i as int, x@.len() as int).drop_first() =~= x@.subrange(
                i + 1,
                x@.len() as int,
            ));
            assert(y@.subrange(i as int, y@.len() as int).drop_first() =~= y@.subrange(
                i + 1,
                y@.len() as int,
            ));
        }
        i = i + 1;
    }
}

pub proof fn lemma_precedes_irreflexive(a: Seq<char>)
    ensures
        !precedes(a, a),
    decreases a.len(),
{
    if a.len() > 0 {
        lemma_precedes_irreflexive(a.drop_first());
    }
}

pub proof fn lemma_precedes_transitive(a: Seq<char>, b: Seq<char>, c: Seq<char>)
    requires
        precedes(a, b),
        precedes(b, c),
    ensures
        precedes(a, c),
    decreases a.len(),
{
    if a.len() > 0 && b.len() > 0 && c.len() > 0 && a[0] == b[0] && b[0] == c[0] {
        lemma_precedes_transitive(a.drop_first(), b.drop_first(), c.drop_first());
    }
}

pub proof fn lemma_precedes_total(a: Seq<char>, b: Seq<char>)
    ensures
        precedes(a, b) || precedes(b, a) || a == b,
    decreases a.len(),
{
    if a.len() > 0 && b.len() > 0 && a[0] == b[0] {
        lemma_precedes_total(a.drop_first(), b.drop_first());
        if a.drop_first() == b.drop_first() {
            assert(a =~= seq![a[0]] + a.drop_first());
            assert(b =~= seq![b[0]] + b.drop_first());
        }
    } else if a.len() == 0 && b.len() == 0 {
        assert(a =~= b);
    }
}

// ---------------------------------------------------------------------------
// Optional text
// ---------------------------------------------------------------------------

pub open spec fn opt_text(o: Option<String>) -> Option<Seq<char>> {
    match o {
        Some(s) => Some(s@),
        None => None,
    }
}

/// The text, unless there is none or it is empty.
pub open spec fn nonempty(o: Option<String>) -> Option<Seq<char>> {
    match o {
        Some(s) => if s@.len() > 0 {
            Some(s@)
        } else {
            None
        },
        None => None,
    }
}

/// The trimmed text, unless there is none or nothing is left of it.
pub open spec fn visible(o: Option<String>) -> Option<Seq<char>> {
    match o {
        Some(s) => if !blank(s@) {
            Some(trimmed(s@))
        } else {
            None
        },
        None => None,
    }
}

pub fn visible_of(o: &Option<String>) -> (r: Option<String>)
    ensures
        opt_text(r) == visible(*o),
{
    match o {
        Some(s) => {
            let t = trim(s.as_str());
            if t.as_str().is_empty() {
                None
            } else {
                Some(t)
            }
        },
        None => None,
    }
}

pub fn copy_opt(o: &Option<String>) -> (r: Option<String>)
    ensures
        r == *o,
{
    match o {
        Some(s) => Some(s.clone()),
        None => None,
    }
}

// ---------------------------------------------------------------------------
// Trailing characters
// ---------------------------------------------------------------------------

/// The text without any `c` at its end.
pub open spec fn without_trailing(s: Seq<char>, c: char) -> Seq<char>
    decreases s.len(),
{
    if s.len() > 0 && s.last() == c {
        without_trailing(s.drop_last(), c)
    } else {
        s
    }
}

pub fn strip_trailing(s: &str, c: char) -> (r: String)
    ensures
        r@ == without_trailing(s@, c),
{
    let v = to_chars(s);
    let mut to: usize = v.len();
    assert(v@.subrange(0, to as int) =~= v@);
    while to > 0 && v[to - 1] == c
        invariant
            to <= v@.len(),
            without_trailing(v@, c) == without_trailing(v@.subrange(0, to as int), c),
        decreases to,
    {
        assert(v@.subrange(0, to as int).drop_last() =~= v@.subrange(0, to - 1));
        to = to - 1;
    }
    string_of(&v, 0, to)
}

// ---------------------------------------------------------------------------
// What the operations on text amount to
// ---------------------------------------------------------------------------

/// Trimming takes white space off both ends and nothing else: what is left stands
/// between two stretches of white space, and neither begins nor ends with any.
pub proof fn law_trimming_takes_white_space_off_both_ends(s: Seq<char>)
    ensures
        exists|from: int, to: int|
            0 <= from <= to <= s.len() && trimmed(s) == #[trigger] s.subrange(from, to) && (forall|
                i: int,
            |
                0 <= i < from ==> is_white(#[trigger] s[i])) && (forall|i: int|
                to <= i < s.len() ==> is_white(#[trigger] s[i])),
        trimmed(s).len() > 0 ==> !is_white(trimmed(s)[0]) && !is_white(trimmed(s).last()),
{
    let from = lemma_trim_start_at(s);
    let rest = trim_start(s);
    let upto = lemma_trim_end_at(rest);
    assert(trimmed(s) =~= s.subrange(from, from + upto));
    assert forall|i: int| from + upto <= i < s.len() implies is_white(#[trigger] s[i]) by {
        assert(rest[i - from] == s[i]);
    }
    lemma_trim_start_head(s);
    lemma_trim_end_last(rest);
}

proof fn lemma_trim_start_at(s: Seq<char>) -> (from: int)
    ensures
        0 <= from <= s.len(),
        trim_start(s) == s.subrange(from, s.len() as int),
        forall|i: int| 0 <= i < from ==> is_white(#[trigger] s[i]),
    decreases s.len(),
{
    if s.len() > 0 && is_white(s[0]) {
        let t = s.drop_first();
        let from = lemma_trim_start_at(t);
        assert(t.subrange(from, t.len() as int) =~= s.subrange(from + 1, s.len() as int));
        assert forall|i: int| 0 <= i < from + 1 implies is_white(#[trigger] s[i]) by {
            if i > 0 {
                assert(t[i - 1] == s[i]);
            }
        }
        from + 1
    } else {
        assert(s.subrange(0, s.len() as int) =~= s);
        0
    }
}

proof fn lemma_trim_end_at(s: Seq<char>) -> (to: int)
    ensures
        0 <= to <= s.len(),
        trim_end(s) == s.subrange(0, to),
        forall|i: int| to <= i < s.len() ==> is_white(#[trigger] s[i]),
    decreases s.len(),
{
    if s.len() > 0 && is_white(s.last()) {
        let t = s.drop_last();
        let to = lemma_trim_end_at(t);
        assert(t.subrange(0, to) =~= s.subrange(0, to));
        assert forall|i: int| to <= i < s.len() implies is_white(#[trigger] s[i]) by {
            if i < t.len() {
                assert(t[i] == s[i]);
            }
        }
        to
    } else {
        assert(s.subrange(0, s.len() as int) =~= s);
        s.len() as int
    }
}

/// White space around a text makes no difference once it is trimmed.
pub proof fn law_padding_is_trimmed_away(before: Seq<char>, s: Seq<char>, after: Seq<char>)
    requires
        forall|i: int| 0 <= i < before.len() ==> is_white(#[trigger] before[i]),
        forall|i: int| 0 <= i < after.len() ==> is_white(#[trigger] after[i]),
    ensures
        trimmed(before + s + after) == trimmed(s),
{
    lemma_trim_start_skips(before, s + after);
    assert(before + s + after =~= before + (s + after));
    if trim_start(s).len() == 0 {
        let from = lemma_trim_start_at(s);
        assert(from == s.len());
        lemma_trim_start_skips(s, after);
        let at = lemma_trim_start_at(after);
        if at < after.len() {
            lemma_trim_start_head(after);
            assert(trim_start(after)[0] == after[at]);
        }
    } else {
        lemma_trim_start_before(s, after);
        lemma_trim_end_skips(trim_start(s), after);
    }
}

proof fn lemma_trim_start_skips(before: Seq<char>, s: Seq<char>)
    requires
        forall|i: int| 0 <= i < before.len() ==> is_white(#[trigger] before[i]),
    ensures
        trim_start(before + s) == trim_start(s),
    decreases before.len(),
{
    if before.len() == 0 {
        assert(before + s =~= s);
    } else {
        assert((before + s).drop_first() =~= before.drop_first() + s);
        assert((before + s)[0] == before[0]);
        lemma_trim_start_skips(before.drop_first(), s);
    }
}

proof fn lemma_trim_start_before(s: Seq<char>, after: Seq<char>)
    requires
        trim_start(s).len() > 0,
    ensures
        trim_start(s + after) == trim_start(s) + after,
    decreases s.len(),
{
    if s.len() > 0 && is_white(s[0]) {
        assert((s + after).drop_first() =~= s.drop_first() + after);
        assert((s + after)[0] == s[0]);
        lemma_trim_start_before(s.drop_first(), after);
    } else {
        assert((s + after)[0] == s[0]);
    }
}

proof fn lemma_trim_end_skips(s: Seq<char>, after: Seq<char>)
    requires
        forall|i: int| 0 <= i < after.len() ==> is_white(#[trigger] after[i]),
    ensures
        trim_end(s + after) == trim_end(s),
    decreases after.len(),
{
    if after.len() == 0 {
        assert(s + after =~= s);
    } else {
        assert((s + after).drop_last() =~= s + after.drop_last());
        assert((s + after).last() == after.last());
        lemma_trim_end_skips(s, after.drop_last());
    }
}

/// The notation of a number is its digits: one beyond the limit is not read, and a sign
/// in front of one within it changes nothing.
pub proof fn law_a_number_is_read_up_to_the_limit(n: nat, max: nat)
    ensures
        parsed_number(dec(n), max) == (if n <= max {
            Some(n)
        } else {
            None
        }),
        parsed_number("+"@ + dec(n), max) == parsed_number(dec(n), max),
{
    reveal_strlit("+");
    lemma_dec_digits(n);
    assert(("+"@ + dec(n)).drop_first() =~= dec(n));
    assert(dec(n)[0] != '+');
}

/// Only a text of digits, after at most one sign, is read as a number.
pub proof fn law_only_digits_are_a_number(s: Seq<char>, max: nat)
    ensures
        parsed_number(s, max) is Some ==> parsed_number(s, max)->0 <= max && s.len() > 0 && (
        '0' <= s[0] <= '9' || s[0] == '+') && '0' <= s.last() <= '9' && forall|i: int|
            1 <= i < s.len() ==> '0' <= #[trigger] s[i] <= '9',
{
    if parsed_number(s, max) is Some {
        let d = if s.len() > 0 && s[0] == '+' {
            s.drop_first()
        } else {
            s
        };
        assert(s.last() == d.last());
        assert forall|i: int| 1 <= i < s.len() implies '0' <= #[trigger] s[i] <= '9' by {
            if s[0] == '+' {
                assert(d[i - 1] == s[i]);
            } else {
                assert(d[i] == s[i]);
            }
        }
        assert(is_digit(d[0]) && is_digit(d.last()));
    }
}

/// A number's decimal notation is digits alone, and no two numbers share one.
pub proof fn law_a_notation_names_one_number(m: nat, n: nat)
    ensures
        dec(n).len() > 0,
        forall|i: int| 0 <= i < dec(n).len() ==> '0' <= #[trigger] dec(n)[i] <= '9',
        dec(m) == dec(n) ==> m == n,
        n > 0 ==> dec(n)[0] != '0',
{
    lemma_dec_digits(m);
    lemma_dec_digits(n);
    assert forall|i: int| 0 <= i < dec(n).len() implies '0' <= #[trigger] dec(n)[i] <= '9' by {
        assert(is_digit(dec(n)[i]));
    }
    lemma_no_leading_zero(n);
}

proof fn lemma_no_leading_zero(n: nat)
    ensures
        n > 0 ==> dec(n)[0] != '0',
    decreases n,
{
    if n >= 10 {
        lemma_dec_digits(n / 10);
        lemma_no_leading_zero(n / 10);
        assert(dec(n)[0] == dec(n / 10)[0]);
    }
}

/// A text is cut at the first such character: the piece before it holds none, and the
/// two pieces with it between them are the text. Without one there is nothing to cut.
pub proof fn law_a_text_is_cut_at_the_first_mark(s: Seq<char>, c: char)
    ensures
        split_at_first(s, c) is Some <==> s.contains(c),
        split_at_first(s, c) matches Some((a, b)) ==> s == a.push(c) + b && !a.contains(c),
{
    lemma_char_from(s, c, 0);
    let k = char_from(s, c, 0);
    if k < s.len() {
        assert(s[k] == c);
        let a = s.subrange(0, k);
        let b = s.subrange(k + 1, s.len() as int);
        assert(s =~= a.push(c) + b);
        assert forall|i: int| 0 <= i < a.len() implies a[i] != c by {
            assert(s[i] == a[i]);
        }
    }
}

/// The pieces of a text, put together again with the mark between them, are the text,
/// and no piece holds the mark.
pub proof fn law_the_pieces_make_up_the_text(s: Seq<char>, c: char)
    ensures
        split_all(s, c).len() > 0,
        joined(split_all(s, c), seq![c]) == s,
        forall|i: int|
            0 <= i < split_all(s, c).len() ==> !(#[trigger] split_all(s, c)[i]).contains(c),
    decreases s.len(),
{
    lemma_char_from(s, c, 0);
    let k = char_from(s, c, 0);
    if 0 <= k < s.len() {
        let head = s.subrange(0, k);
        let rest = s.subrange(k + 1, s.len() as int);
        law_the_pieces_make_up_the_text(rest, c);
        lemma_joined_head(head, split_all(rest, c), seq![c]);
        assert(s =~= head + seq![c] + rest);
        assert forall|i: int| 0 <= i < split_all(s, c).len() implies !(#[trigger] split_all(
            s,
            c,
        )[i]).contains(c) by {
            if i == 0 {
                assert forall|j: int| 0 <= j < head.len() implies head[j] != c by {
                    assert(s[j] == head[j]);
                }
            } else {
                assert(split_all(s, c)[i] == split_all(rest, c)[i - 1]);
            }
        }
    } else {
        assert(split_all(s, c) =~= seq![s]);
    }
}

proof fn lemma_joined_head(head: Seq<char>, parts: Seq<Seq<char>>, sep: Seq<char>)
    requires
        parts.len() > 0,
    ensures
        joined(seq![head] + parts, sep) == head + sep + joined(parts, sep),
    decreases parts.len(),
{
    let all = seq![head] + parts;
    assert(all.last() == parts.last());
    if parts.len() == 1 {
        assert(all.drop_last() =~= seq![head]);
        assert(parts[0] == parts.last());
        assert(joined(all.drop_last(), sep) == head);
    } else {
        assert(all.drop_last() =~= seq![head] + parts.drop_last());
        lemma_joined_head(head, parts.drop_last(), sep);
        assert(joined(all, sep) == joined(all.drop_last(), sep) + sep + parts.last());
        assert(joined(parts, sep) == joined(parts.drop_last(), sep) + sep + parts.last());
        assert(joined(all, sep) =~= head + sep + joined(parts, sep));
    }
}

/// Lower case changes the capitals of ASCII, each into its own small letter, and no
/// other character.
pub proof fn law_lower_case_changes_capitals_alone(s: Seq<char>)
    ensures
        ascii_lower(s).len() == s.len(),
        forall|i: int|
            0 <= i < s.len() ==> (#[trigger] ascii_lower(s)[i]) as u32 == (if 'A' <= s[i] <= 'Z' {
                s[i] as u32 + 32
            } else {
                s[i] as u32 as int
            }),
        ascii_lower(ascii_lower(s)) == ascii_lower(s),
{
    assert(ascii_lower(ascii_lower(s)) =~= ascii_lower(s));
}

/// One text comes before another exactly when it is a beginning of it, or has the
/// smaller character at the first place where the two differ.
pub proof fn law_texts_are_ordered_by_their_first_difference(a: Seq<char>, b: Seq<char>)
    ensures
        precedes(a, b) <==> (a.len() < b.len() && a.is_prefix_of(b)) || exists|k: int|
            0 <= k < a.len() && k < b.len() && #[trigger] a[k] < b[k] && a.subrange(0, k)
                == b.subrange(0, k),
    decreases a.len(),
{
    if b.len() > 0 && a.len() > 0 {
        let s = a.drop_first();
        let t = b.drop_first();
        if a[0] == b[0] {
            law_texts_are_ordered_by_their_first_difference(s, t);
            if precedes(a, b) {
                if s.len() < t.len() && s.is_prefix_of(t) {
                    assert(a =~= seq![a[0]] + s);
                    assert(b =~= seq![a[0]] + t);
                    assert(a.is_prefix_of(b)) by {
                        assert(b.subrange(0, a.len() as int) =~= seq![a[0]] + t.subrange(
                            0,
                            s.len() as int,
                        ));
                    }
                } else {
                    let k = choose|k: int|
                        0 <= k < s.len() && k < t.len() && #[trigger] s[k] < t[k] && s.subrange(
                            0,
                            k,
                        ) == t.subrange(0, k);
                    assert(a[k + 1] == s[k] && b[k + 1] == t[k]);
                    assert(a.subrange(0, k + 1) =~= seq![a[0]] + s.subrange(0, k));
                    assert(b.subrange(0, k + 1) =~= seq![a[0]] + t.subrange(0, k));
                }
            }
            if a.len() < b.len() && a.is_prefix_of(b) {
                assert(t.subrange(0, s.len() as int) =~= b.subrange(0, a.len() as int).drop_first());
                assert(a.drop_first() =~= s);
                assert(s.is_prefix_of(t));
            }
            if exists|k: int|
                0 <= k < a.len() && k < b.len() && #[trigger] a[k] < b[k] && a.subrange(0, k)
                    == b.subrange(0, k) {
                let k = choose|k: int|
                    0 <= k < a.len() && k < b.len() && #[trigger] a[k] < b[k] && a.subrange(0, k)
                        == b.subrange(0, k);
                assert(k > 0);
                assert(s[k - 1] == a[k] && t[k - 1] == b[k]);
                assert(s.subrange(0, k - 1) =~= a.subrange(0, k).drop_first());
                assert(t.subrange(0, k - 1) =~= b.subrange(0, k).drop_first());
            }
        } else {
            if a[0] < b[0] {
                assert(a.subrange(0, 0) =~= b.subrange(0, 0));
            }
            if a.len() < b.len() && a.is_prefix_of(b) {
                assert(b.subrange(0, a.len() as int)[0] == a[0]);
            }
            if exists|k: int|
                0 <= k < a.len() && k < b.len() && #[trigger] a[k] < b[k] && a.subrange(0, k)
                    == b.subrange(0, k) {
                let k = choose|k: int|
                    0 <= k < a.len() && k < b.len() && #[trigger] a[k] < b[k] && a.subrange(0, k)
                        == b.subrange(0, k);
                if k > 0 {
                    assert(a.subrange(0, k)[0] == b.subrange(0, k)[0]);
                }
            }
        }
    } else if a.len() == 0 && b.len() > 0 {
        assert(a.is_prefix_of(b)) by {
            assert(b.subrange(0, 0) =~= a);
        }
    }
}

/// A trailing mark is taken off until none is left, and nothing else goes.
pub proof fn law_trailing_marks_come_off(s: Seq<char>, c: char)
    ensures
        without_trailing(s, c).len() > 0 ==> without_trailing(s, c).last() != c,
        without_trailing(s, c).is_prefix_of(s),
        forall|i: int| without_trailing(s, c).len() <= i < s.len() ==> #[trigger] s[i] == c,
    decreases s.len(),
{
    if s.len() > 0 && s.last() == c {
        let t = s.drop_last();
        law_trailing_marks_come_off(t, c);
        assert forall|i: int| without_trailing(s, c).len() <= i < s.len() implies #[trigger] s[i]
            == c by {
            if i < t.len() {
                assert(t[i] == s[i]);
            }
        }
    }
}

/// A text with a mark in it has the pieces of what stands before the mark, then those of
/// what stands behind it.
pub proof fn law_a_mark_parts_the_pieces(a: Seq<char>, c: char, b: Seq<char>)
    ensures
        split_all(a.push(c) + b, c) == split_all(a, c) + split_all(b, c),
    decreases a.len(),
{
    let s = a.push(c) + b;
    lemma_char_from(s, c, 0);
    lemma_char_from(a, c, 0);
    let k = char_from(s, c, 0);
    assert(s[a.len() as int] == c);
    assert forall|i: int| 0 <= i < a.len() implies s[i] == a[i] by {}
    if a.contains(c) {
        let at = char_from(a, c, 0);
        let i = a.index_of(c);
        assert(a[i] == c);
        assert(at < a.len());
        if k < at {
            assert(a[k] == c);
        }
        if at < k {
            assert(s[at] == c);
        }
        let rest = a.subrange(at + 1, a.len() as int);
        assert(s.subrange(k + 1, s.len() as int) =~= rest.push(c) + b);
        assert(s.subrange(0, k) =~= a.subrange(0, at));
        law_a_mark_parts_the_pieces(rest, c, b);
        assert(split_all(s, c) =~= split_all(a, c) + split_all(b, c));
    } else {
        if k < a.len() {
            assert(a[k] == c);
        }
        assert(k == a.len());
        if char_from(a, c, 0) < a.len() {
            assert(a.contains(c));
        }
        assert(s.subrange(0, k) =~= a);
        assert(s.subrange(k + 1, s.len() as int) =~= b);
        assert(split_all(a, c) =~= seq![a]);
        assert(split_all(s, c) =~= split_all(a, c) + split_all(b, c));
    }
}

/// A text is blank exactly when it is white space throughout.
pub proof fn law_a_blank_text_is_white_space_throughout(s: Seq<char>)
    ensures
        blank(s) <==> forall|i: int| 0 <= i < s.len() ==> is_white(#[trigger] s[i]),
{
    law_trimming_takes_white_space_off_both_ends(s);
    let (from, to) = choose|from: int, to: int|
        0 <= from <= to <= s.len() && trimmed(s) == #[trigger] s.subrange(from, to) && (forall|
            i: int,
        |
            0 <= i < from ==> is_white(#[trigger] s[i])) && (forall|i: int|
            to <= i < s.len() ==> is_white(#[trigger] s[i]));
    if !blank(s) {
        assert(trimmed(s)[0] == s[from]);
    }
}

/// Of the ASCII characters the space and the five from the tab to the carriage return are
/// white space, and none else.
pub proof fn law_white_space_is_space_and_line_breaks(c: char)
    requires
        (c as u32) < 0x80,
    ensures
        is_white(c) <==> c == ' ' || 9 <= (c as u32) <= 13,
{
}

/// A text is found at the first place where it stands, and not found exactly when it
/// stands nowhere.
pub proof fn law_a_text_is_found_where_it_stands_first(s: Seq<char>, pat: Seq<char>, j: int)
    ensures
        find_text(s, pat) is Some <==> contains_text(s, pat),
        find_text(s, pat) matches Some(k) ==> 0 <= k && k + pat.len() <= s.len() && s.subrange(
            k,
            k + pat.len(),
        ) == pat,
        find_text(s, pat) matches Some(k) ==> 0 <= j < k ==> s.subrange(j, j + pat.len()) != pat,
{
    lemma_find_from(s, pat, 0);
    if contains_text(s, pat) {
        let k = choose|k: int| has_at(s, pat, k);
        assert(has_at(s, pat, k));
    }
    if let Some(k) = find_text(s, pat) {
        assert(has_at(s, pat, k));
        if 0 <= j < k {
            assert(!has_at(s, pat, j));
        }
    }
}

/// A text contains another exactly when the other stands somewhere between a beginning
/// and an end of it.
pub proof fn law_a_text_contains_what_stands_in_it(
    before: Seq<char>,
    pat: Seq<char>,
    after: Seq<char>,
)
    ensures
        contains_text(before + pat + after, pat),
        contains_text(pat, pat),
        pat.len() > before.len() ==> !contains_text(before, pat),
{
    let s = before + pat + after;
    assert(s.subrange(before.len() as int, before.len() as int + pat.len()) =~= pat);
    assert(has_at(s, pat, before.len() as int));
    assert(pat.subrange(0int, 0int + pat.len()) =~= pat);
    assert(has_at(pat, pat, 0));
}

/// A prefix comes off exactly where it is one, and what is left is what stood behind it.
pub proof fn law_a_prefix_comes_off(prefix: Seq<char>, rest: Seq<char>, s: Seq<char>)
    ensures
        after_prefix(prefix + rest, prefix) == Some(rest),
        after_prefix(s, prefix) is Some <==> prefix.is_prefix_of(s),
{
    let whole = prefix + rest;
    assert(whole.subrange(0, prefix.len() as int) =~= prefix);
    assert(whole.subrange(prefix.len() as int, whole.len() as int) =~= rest);
}

/// A setting counts as empty when it is missing or has no characters, and as visible when
/// it has any that are not white space; what is visible is told without the white space
/// around it.
pub proof fn law_an_empty_setting_is_missing(s: String)
    ensures
        nonempty(None) is None && visible(None) is None && opt_text(None) is None,
        opt_text(Some(s)) == Some(s@),
        s@.len() == 0 ==> nonempty(Some(s)) is None,
        s@.len() > 0 ==> nonempty(Some(s)) == Some(s@),
        blank(s@) ==> visible(Some(s)) is None,
        !blank(s@) ==> visible(Some(s)) == Some(trimmed(s@)),
{
}

/// Texts are joined in their order with the separator between every two.
pub proof fn law_texts_are_joined_in_order(
    parts: Seq<Seq<char>>,
    last: Seq<char>,
    sep: Seq<char>,
)
    ensures
        joined(Seq::empty(), sep) == Seq::<char>::empty(),
        joined(seq![last], sep) == last,
        parts.len() > 0 ==> joined(parts.push(last), sep) == joined(parts, sep) + sep + last,
{
    assert(parts.push(last).drop_last() =~= parts);
}

} // verus!
