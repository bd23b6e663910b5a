//! The Open Source Cloud command line tool's login, used instead of a pasted token.
//!
//! `npx @osaas/cli login` signs in through the browser and saves the token to
//! `~/.osc/token`. That token is exchanged for a service token exactly like a personal
//! access token, so the gateway reads it from there and never has to hold a secret in
//! its own settings. It is read again at each exchange: a fresh login in another
//! session takes effect without restarting a running gateway.

use crate::config::{below, join_path};
use crate::json::{member, parse_json_bytes, parsed_json_bytes, text_of, Json, JsonView, Number};
use crate::text::{
    blank, char_from, is_blank, law_a_mark_parts_the_pieces, lemma_char_from, opt_text, split,
    split_all, texts, to_chars, trimmed, visible, visible_of,
};
use vstd::prelude::*;

verus! {

/// The OSC CLI's own environment variable, which it prefers over its saved token.
pub const ENV_TOKEN: &'static str = "OSC_ACCESS_TOKEN";

pub open spec fn token_place(home: Option<String>) -> Option<Seq<char>> {
    match home {
        Some(h) => Some(below(below(h@, ".osc"@), "token"@)),
        None => None,
    }
}

/// Where `login` saves the production token.
pub fn token_path(home: &Option<String>) -> (r: Option<String>)
    ensures
        opt_text(r) == token_place(*home),
{
    match home {
        Some(h) => Some(join_path(join_path(h.as_str(), ".osc").as_str(), "token")),
        None => None,
    }
}

/// The token the OSC CLI would use itself: its environment variable first, then the
/// saved login, each without surrounding blanks and none where nothing is left.
pub open spec fn cli_token(env: Option<String>, saved: Option<String>) -> Option<Seq<char>> {
    match visible(env) {
        Some(token) => Some(token),
        None => visible(saved),
    }
}

/// The token by the environment variable and the content of the saved login, where
/// there is one.
pub fn token_from(env: &Option<String>, saved: &Option<String>) -> (r: Option<String>)
    ensures
        opt_text(r) == cli_token(*env, *saved),
{
    match visible_of(env) {
        Some(token) => Some(token),
        None => visible_of(saved),
    }
}

/// The token to exchange: a key in the settings, as it stands there, wins over the
/// environment, which wins over the saved login. A deployment tool that injects one must
/// not be overridden by whoever last signed in on the box.
pub open spec fn token_in_use(
    configured: Option<String>,
    env: Option<String>,
    saved: Option<String>,
) -> Option<Seq<char>> {
    match configured {
        Some(key) => if !blank(key@) {
            Some(key@)
        } else {
            cli_token(env, saved)
        },
        None => cli_token(env, saved),
    }
}

pub fn exchanged_token(
    configured: &Option<String>,
    env: &Option<String>,
    saved: &Option<String>,
) -> (r: Option<String>)
    ensures
        opt_text(r) == token_in_use(*configured, *env, *saved),
{
    match configured {
        Some(key) => if !is_blank(key.as_str()) {
            Some(key.clone())
        } else {
            token_from(env, saved)
        },
        None => token_from(env, saved),
    }
}

/// What is configured cannot be overridden from the environment, and the environment
/// cannot be overridden by a saved login.
pub proof fn law_the_nearer_token_wins(
    configured: Option<String>,
    env: Option<String>,
    other_env: Option<String>,
    saved: Option<String>,
    other_saved: Option<String>,
)
    ensures
        visible(configured) is Some ==> token_in_use(configured, env, saved) == token_in_use(
            configured,
            other_env,
            other_saved,
        ),
        visible(env) is Some ==> token_in_use(configured, env, saved) == token_in_use(
            configured,
            env,
            other_saved,
        ),
{
}

/// Where the login is, for a prompt or a message. Never the token itself.
pub fn describe_location(env_is_set: bool, home: &Option<String>) -> (r: String)
    ensures
        r@ == (if env_is_set {
            "OSC_ACCESS_TOKEN"@
        } else {
            match token_place(*home) {
                Some(p) => p,
                None => "~/.osc/token"@,
            }
        }),
{
    if env_is_set {
        return "OSC_ACCESS_TOKEN".to_owned();
    }
    match token_path(home) {
        Some(p) => p,
        None => "~/.osc/token".to_owned(),
    }
}

/// How the OSC CLI's login ended.
#[derive(Debug)]
pub enum LoginOutcome {
    Success,
    /// It ran and failed, with its status.
    Exited(String),
    /// There is no `npx` to run it with.
    NpxMissing,
    /// It could not be run.
    NotRun(String),
}

/// What is said of a login that failed; none where it succeeded.
pub fn login_failure(outcome: &LoginOutcome) -> (r: Option<String>)
    ensures
        opt_text(r) == (match outcome {
            LoginOutcome::Success => None,
            LoginOutcome::Exited(status) => Some("`npx @osaas/cli login` exited with "@ + status@),
            LoginOutcome::NpxMissing => Some(
                "npx was not found on PATH; the OSC CLI needs Node.js"@,
            ),
            LoginOutcome::NotRun(err) => Some("running the OSC CLI: "@ + err@),
        }),
{
    match outcome {
        LoginOutcome::Success => None,
        LoginOutcome::Exited(status) => Some(
            "`npx @osaas/cli login` exited with ".to_owned().concat(status.as_str()),
        ),
        LoginOutcome::NpxMissing => Some(
            "npx was not found on PATH; the OSC CLI needs Node.js".to_owned(),
        ),
        LoginOutcome::NotRun(err) => Some("running the OSC CLI: ".to_owned().concat(err.as_str())),
    }
}

// ---------------------------------------------------------------------------
// What a token says of itself
// ---------------------------------------------------------------------------

/// A digit of base 64 in the alphabet that is safe in addresses.
pub open spec fn digit_of(c: char) -> Option<int> {
    if 'A' <= c <= 'Z' {
        Some(c as int - 'A' as int)
    } else if 'a' <= c <= 'z' {
        Some(c as int - 'a' as int + 26)
    } else if '0' <= c <= '9' {
        Some(c as int - '0' as int + 52)
    } else if c == '-' {
        Some(62)
    } else if c == '_' {
        Some(63)
    } else {
        None
    }
}

fn read_digit(c: char) -> (r: Option<u8>)
    ensures
        match r {
            Some(d) => digit_of(c) == Some(d as int) && d < 64,
            None => digit_of(c) is None,
        },
{
    if 'A' <= c && c <= 'Z' {
        Some((c as u32 - 65) as u8)
    } else if 'a' <= c && c <= 'z' {
        Some((c as u32 - 97 + 26) as u8)
    } else if '0' <= c && c <= '9' {
        Some((c as u32 - 48 + 52) as u8)
    } else if c == '-' {
        Some(62)
    } else if c == '_' {
        Some(63)
    } else {
        None
    }
}

/// The bytes of digits, three for every four of them. One digit left over is too few for
/// a byte.
pub open spec fn bytes_of(digits: Seq<u8>) -> Option<Seq<u8>>
    decreases digits.len(),
{
    if digits.len() == 0 {
        Some(Seq::empty())
    } else if digits.len() == 1 {
        None
    } else {
        let a = (digits[0] * 4 + digits[1] / 16) as u8;
        if digits.len() == 2 {
            Some(seq![a])
        } else {
            let b = (digits[1] % 16 * 16 + digits[2] / 4) as u8;
            if digits.len() == 3 {
                Some(seq![a, b])
            } else {
                let c = (digits[2] % 4 * 64 + digits[3]) as u8;
                match bytes_of(digits.subrange(4, digits.len() as int)) {
                    Some(rest) => Some(seq![a, b, c] + rest),
                    None => None,
                }
            }
        }
    }
}

spec fn digits_in(s: Seq<char>, digits: Seq<u8>) -> bool {
    &&& digits.len() == s.len()
    &&& forall|i: int| 0 <= i < s.len() ==> digit_of(#[trigger] s[i]) == Some(digits[i] as int)
}

/// The bytes that a text in base 64 stands for, without padding.
pub open spec fn decoded(s: Seq<char>) -> Option<Seq<u8>> {
    if forall|i: int| 0 <= i < s.len() ==> digit_of(#[trigger] s[i]) is Some {
        bytes_of(Seq::new(s.len(), |i: int| digit_of(s[i])->0 as u8))
    } else {
        None
    }
}

spec fn followed(front: Seq<u8>, rest: Option<Seq<u8>>) -> Option<Seq<u8>> {
    match rest {
        Some(bytes) => Some(front + bytes),
        None => None,
    }
}

fn join_digits(digits: &Vec<u8>) -> (r: Option<Vec<u8>>)
    requires
        forall|i: int| 0 <= i < digits@.len() ==> #[trigger] digits@[i] < 64,
    ensures
        match r {
            Some(bytes) => bytes_of(digits@) == Some(bytes@),
            None => bytes_of(digits@) is None,
        },
{
    let mut out: Vec<u8> = Vec::new();
    let mut i: usize = 0;
    let ghost all = digits@;
    proof {
        assert(all.subrange(0, all.len() as int) =~= all);
        assert(followed(out@, bytes_of(all)) == bytes_of(all)) by {
            if bytes_of(all) is Some {
                assert(out@ + bytes_of(all)->0 =~= bytes_of(all)->0);
            }
        }
    }
    while digits.len() - i >= 4
        invariant
            i <= digits@.len(),
            all == digits@,
            forall|j: int| 0 <= j < all.len() ==> #[trigger] all[j] < 64,
            bytes_of(all) == followed(out@, bytes_of(all.subrange(i as int, all.len() as int))),
        decreases digits@.len() - i,
    {
        let ghost rest = all.subrange(i as int, all.len() as int);
        let ghost front = out@;
        assert(rest[0] == all[i as int] && rest[1] == all[i + 1] && rest[2] == all[i + 2] && rest[3]
            == all[i + 3]);
        let a: u8 = digits[i] * 4 + digits[i + 1] / 16;
        let b: u8 = digits[i + 1] % 16 * 16 + digits[i + 2] / 4;
        let c: u8 = digits[i + 2] % 4 * 64 + digits[i + 3];
        out.push(a);
        out.push(b);
        out.push(c);
        i = i + 4;
        proof {
            let next = all.subrange(i as int, all.len() as int);
            assert(rest.subrange(4, rest.len() as int) =~= next);
            if bytes_of(next) is Some {
                assert(front + (seq![a, b, c] + bytes_of(next)->0) =~= out@ + bytes_of(next)->0);
            }
        }
    }
    let ghost rest = all.subrange(i as int, all.len() as int);
    let left: usize = digits.len() - i;
    if left == 1 {
        return None;
    }
    if left >= 2 {
        assert(rest[0] == all[i as int] && rest[1] == all[i + 1]);
        let ghost front = out@;
        let a: u8 = digits[i] * 4 + digits[i + 1] / 16;
        out.push(a);
        if left == 3 {
            assert(rest[2] == all[i + 2]);
            let b: u8 = digits[i + 1] % 16 * 16 + digits[i + 2] / 4;
            out.push(b);
            assert(front + seq![a, b] =~= out@);
        } else {
            assert(front + seq![a] =~= out@);
        }
    } else {
        assert(out@ + Seq::<u8>::empty() =~= out@);
    }
    Some(out)
}

/// Reads base 64 in the alphabet that is safe in addresses, without padding.
pub fn decode(text: &str) -> (r: Option<Vec<u8>>)
    ensures
        match r {
            Some(bytes) => decoded(text@) == Some(bytes@),
            None => decoded(text@) is None,
        },
{
    let chars = to_chars(text);
    let mut digits: Vec<u8> = Vec::new();
    let mut i: usize = 0;
    while i < chars.len()
        invariant
            i <= chars@.len(),
            chars@ == text@,
            digits_in(text@.subrange(0, i as int), digits@),
            forall|j: int| 0 <= j < digits@.len() ==> #[trigger] digits@[j] < 64,
        decreases chars@.len() - i,
    {
        let ghost upto = text@.subrange(0, i + 1);
        match read_digit(chars[i]) {
            Some(d) => {
                let ghost before = digits@;
                digits.push(d);
                assert forall|j: int| 0 <= j < upto.len() implies digit_of(#[trigger] upto[j])
                    == Some(digits@[j] as int) by {
                    if j < i {
                        assert(text@.subrange(0, i as int)[j] == upto[j]);
                        assert(before[j] == digits@[j]);
                    }
                }
            },
            None => {
                assert(digit_of(text@[i as int]) is None);
                return None;
            },
        }
        i = i + 1;
    }
    proof {
        assert(text@.subrange(0, text@.len() as int) =~= text@);
        assert(digits@ =~= Seq::new(text@.len(), |i: int| digit_of(text@[i])->0 as u8));
    }
    join_digits(&digits)
}

/// What a token says of itself: its workspace, and when it expires, in Unix seconds.
#[derive(Debug)]
pub struct TokenInfo {
    pub workspace: Option<String>,
    pub expires_at: Option<u64>,
}

pub open spec fn seconds_left(expires_at: Option<u64>, now: u64) -> Option<nat> {
    match expires_at {
        Some(at) => Some(
            if at > now {
                (at - now) as nat
            } else {
                0
            },
        ),
        None => None,
    }
}

impl TokenInfo {
    pub fn remaining(&self, now: u64) -> (r: Option<u64>)
        ensures
            match r {
                Some(left) => seconds_left(self.expires_at, now) == Some(left as nat),
                None => seconds_left(self.expires_at, now) is None,
            },
    {
        match self.expires_at {
            Some(at) => Some(
                if at > now {
                    at - now
                } else {
                    0
                },
            ),
            None => None,
        }
    }

    pub fn is_expired(&self, now: u64) -> (r: bool)
        ensures
            r == (seconds_left(self.expires_at, now) == Some(0nat)),
    {
        match self.expires_at {
            Some(at) => at <= now,
            None => false,
        }
    }
}

/// The part of a token that holds its claims: the middle one of three.
pub open spec fn claims_part(token: Seq<char>) -> Option<Seq<char>> {
    if split_all(token, '.').len() == 3 {
        Some(split_all(token, '.')[1])
    } else {
        None
    }
}

/// When the claims say that a token expires.
pub open spec fn expiry_in(claims: JsonView) -> Option<u64> {
    match member(claims, "exp"@) {
        Some(JsonView::Number(Number::PosInt(at))) => Some(at),
        _ => None,
    }
}

/// What claims say of their token. Which claim names the workspace is up to whoever
/// issued it.
pub fn read_claims(claims: &Json, workspace_claim: &str) -> (r: TokenInfo)
    ensures
        opt_text(r.workspace) == text_of(member(claims@, workspace_claim@)),
        r.expires_at == expiry_in(claims@),
{
    let workspace = match claims.text_at(workspace_claim) {
        Some(name) => Some(name.to_owned()),
        None => None,
    };
    let expires_at = match claims.get("exp") {
        Some(Json::Number(Number::PosInt(at))) => Some(*at),
        _ => None,
    };
    TokenInfo { workspace, expires_at }
}

/// The claims of a token, where it has some that can be read.
pub open spec fn claims_of(token: Seq<char>) -> Option<JsonView> {
    match claims_part(token) {
        Some(part) => match decoded(part) {
            Some(bytes) => parsed_json_bytes(bytes),
            None => None,
        },
        None => None,
    }
}

/// What a token says of itself. Nothing is checked: only whoever issued the token can say
/// whether it holds, and this is for the operator to read.
pub fn inspect(token: &str, workspace_claim: &str) -> (r: Option<TokenInfo>)
    ensures
        match claims_of(token@) {
            Some(claims) => r matches Some(info) && opt_text(info.workspace) == text_of(
                member(claims, workspace_claim@),
            ) && info.expires_at == expiry_in(claims),
            None => r is None,
        },
{
    let parts = split(token, '.');
    let ghost all = split_all(token@, '.');
    assert(texts(parts@).len() == parts@.len());
    if parts.len() != 3 {
        return None;
    }
    assert(all[1] == parts@[1]@);
    match decode(parts[1].as_str()) {
        Some(bytes) => match parse_json_bytes(&bytes) {
            Some(claims) => Some(read_claims(&claims, workspace_claim)),
            None => None,
        },
        None => None,
    }
}

/// Whether a login still serves: one that says it has expired does not.
pub fn is_current(info: &Option<TokenInfo>, now: u64) -> (r: bool)
    ensures
        r == !(info matches Some(i) && seconds_left(i.expires_at, now) == Some(0nat)),
{
    match info {
        Some(i) => !i.is_expired(now),
        None => true,
    }
}

// ---------------------------------------------------------------------------
// What a token says
// ---------------------------------------------------------------------------

/// A key in the settings is exchanged as it stands there; without one the environment's
/// token is, and without that the saved login, each without the white space around it.
/// What is blank counts as missing everywhere.
pub proof fn law_the_token_is_the_first_that_is_there(
    configured: Option<String>,
    env: Option<String>,
    saved: Option<String>,
)
    ensures
        configured is Some && !blank(configured->0@) ==> token_in_use(configured, env, saved)
            == Some(configured->0@),
        configured is None || blank(configured->0@) ==> {
            &&& env is Some && !blank(env->0@) ==> token_in_use(configured, env, saved) == Some(
                trimmed(env->0@),
            )
            &&& env is None || blank(env->0@) ==> {
                &&& saved is Some && !blank(saved->0@) ==> token_in_use(configured, env, saved)
                    == Some(trimmed(saved->0@))
                &&& saved is None || blank(saved->0@) ==> token_in_use(configured, env, saved)
                    is None
            }
        },
{
}

/// The login is saved below the user's home.
pub proof fn law_the_login_is_saved_at_home(home: String)
    requires
        home@.len() > 0,
        home@.last() != '/',
    ensures
        token_place(Some(home)) == Some(home@ + "/.osc/token"@),
        token_place(None) is None,
{
    reveal_strlit("/");
    reveal_strlit(".osc");
    reveal_strlit("token");
    reveal_strlit("/.osc/token");
    assert((home@ + "/"@ + ".osc"@).last() == 'c');
    assert(home@ + "/"@ + ".osc"@ + "/"@ + "token"@ =~= home@ + "/.osc/token"@);
}

/// The digits of the encoding are the capitals, the small letters, the figures, the dash
/// and the underscore, in that order, and no other character is one.
pub proof fn law_a_digit_has_its_place_in_the_alphabet(c: char, d: char)
    ensures
        digit_of('A') == Some(0int) && digit_of('a') == Some(26int) && digit_of('0') == Some(52int),
        digit_of('-') == Some(62int) && digit_of('_') == Some(63int),
        'A' <= c <= 'Z' && 'A' <= d <= 'Z' || 'a' <= c <= 'z' && 'a' <= d <= 'z' || '0' <= c <= '9'
            && '0' <= d <= '9' ==> digit_of(c) is Some && digit_of(d)->0 - digit_of(c)->0
            == d as int - c as int,
        digit_of(c) is Some ==> 0 <= digit_of(c)->0 < 64,
        digit_of(c) is Some && digit_of(c) == digit_of(d) ==> c == d,
        digit_of(c) is Some <==> 'A' <= c <= 'Z' || 'a' <= c <= 'z' || '0' <= c <= '9' || c == '-'
            || c == '_',
{
}

/// Four digits of six bits are three bytes of eight, in the same order of bits; two
/// digits left over are one byte and three are two, and one alone is no encoding.
pub proof fn law_four_digits_are_three_bytes(
    a: u8,
    b: u8,
    c: u8,
    d: u8,
    rest: Seq<u8>,
    bytes: Seq<u8>,
)
    requires
        a < 64 && b < 64 && c < 64 && d < 64,
        bytes_of(rest) == Some(bytes),
    ensures
        ({
            let r = bytes_of(seq![a, b, c, d] + rest)->0;
            &&& bytes_of(seq![a, b, c, d] + rest) is Some
            &&& r.len() == 3 + bytes.len()
            &&& r.subrange(3, r.len() as int) == bytes
            &&& r[0] * 65536 + r[1] * 256 + r[2] == a * 262144 + b * 4096 + c * 64 + d
        }),
        ({
            let r = bytes_of(seq![a, b])->0;
            &&& bytes_of(seq![a, b]) is Some
            &&& r.len() == 1
            &&& r[0] == (a * 64 + b) / 16
        }),
        ({
            let r = bytes_of(seq![a, b, c])->0;
            &&& bytes_of(seq![a, b, c]) is Some
            &&& r.len() == 2
            &&& r[0] * 256 + r[1] == (a * 4096 + b * 64 + c) / 4
        }),
        bytes_of(seq![a]) is None,
{
    let all = seq![a, b, c, d] + rest;
    assert(all.subrange(4, all.len() as int) =~= rest);
    let r = bytes_of(all)->0;
    let first: u8 = (a * 4 + b / 16) as u8;
    let second: u8 = (b % 16 * 16 + c / 4) as u8;
    let third: u8 = (c % 4 * 64 + d) as u8;
    assert(r =~= seq![first, second, third] + bytes);
    assert(r.subrange(3, r.len() as int) =~= bytes);
    assert(first == a * 4 + b / 16 && second == b % 16 * 16 + c / 4 && third == c % 4 * 64 + d);
}

/// A text is decoded only if every character of it is a digit.
pub proof fn law_a_foreign_character_is_not_decoded(s: Seq<char>, i: int)
    requires
        0 <= i < s.len(),
        digit_of(s[i]) is None,
    ensures
        decoded(s) is None,
{
}

/// A token tells its claims in the second of exactly three parts.
pub proof fn law_the_claims_are_the_middle_part(
    head: Seq<char>,
    claims: Seq<char>,
    signature: Seq<char>,
    token: Seq<char>,
)
    requires
        !head.contains('.'),
        !claims.contains('.'),
        !signature.contains('.'),
        !token.contains('.'),
    ensures
        claims_part(head.push('.') + (claims.push('.') + signature)) == Some(claims),
        claims_part(head.push('.') + signature) is None,
        claims_part(token) is None,
{
    lemma_one_part(head);
    lemma_one_part(claims);
    lemma_one_part(signature);
    lemma_one_part(token);
    law_a_mark_parts_the_pieces(claims, '.', signature);
    law_a_mark_parts_the_pieces(head, '.', claims.push('.') + signature);
    law_a_mark_parts_the_pieces(head, '.', signature);
    assert(split_all(head.push('.') + (claims.push('.') + signature), '.') =~= seq![
        head,
        claims,
        signature,
    ]);
    assert(split_all(head.push('.') + signature, '.') =~= seq![head, signature]);
}

proof fn lemma_one_part(s: Seq<char>)
    requires
        !s.contains('.'),
    ensures
        split_all(s, '.') == seq![s],
{
    lemma_char_from(s, '.', 0);
    if char_from(s, '.', 0) < s.len() {
        assert(s[char_from(s, '.', 0)] == '.');
    }
    assert(split_all(s, '.') =~= seq![s]);
}

/// What is left of a token is the time until it expires, and nothing once it has.
pub proof fn law_a_token_runs_down(at: u64, now: u64)
    ensures
        seconds_left(None, now) is None,
        now <= at ==> seconds_left(Some(at), now) == Some((at - now) as nat),
        now >= at ==> seconds_left(Some(at), now) == Some(0nat),
{
}

/// The expiry is the claim of that name, where it is a whole number.
pub proof fn law_the_expiry_is_a_claim(claims: JsonView, at: u64)
    ensures
        expiry_in(claims) == Some(at) <==> member(claims, "exp"@) == Some(
            JsonView::Number(Number::PosInt(at)),
        ),
{
}

/// The claims of a token are its middle part, decoded and read, and a token of any other
/// shape has none.
pub proof fn law_claims_are_decoded_and_read(token: Seq<char>)
    ensures
        claims_part(token) is None ==> claims_of(token) is None,
        claims_part(token) is Some && decoded(claims_part(token)->0) is None ==> claims_of(token)
            is None,
        claims_part(token) is Some && decoded(claims_part(token)->0) is Some ==> claims_of(token)
            == parsed_json_bytes(decoded(claims_part(token)->0)->0),
{
}

} // verus!
