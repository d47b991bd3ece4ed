//! The calls into other crates, and into the parts of the standard library
//! that have no specification of their own. The contracts here are believed,
//! not proved; everything else in the library is proved from them.

use crate::json;
use crate::passages;
use crate::passages::Aim;
use crate::text;
use dashmap::DashMap;
use serde_json::value::RawValue;
use std::collections::HashMap;
use vstd::prelude::*;
use vstd::utf8::*;

verus! {

// ── dashmap ──

/// `dashmap::DashMap`, a map from keys to values.
#[verifier::external_type_specification]
#[verifier::external_body]
#[verifier::reject_recursive_types(K)]
#[verifier::reject_recursive_types(V)]
#[verifier::reject_recursive_types(S)]
pub struct ExDashMap<K, V, S>(DashMap<K, V, S>);

/// What a `DashMap` holds: the number stored under each key.
pub uninterp spec fn entries(m: DashMap<String, usize>) -> Map<Seq<char>, usize>;

/// `DashMap::new` gives a map that holds nothing.
#[verifier::external_body]
pub(crate) fn index_new() -> (r: DashMap<String, usize>)
    ensures
        entries(r).dom() == Set::<Seq<char>>::empty(),
{
    DashMap::new()
}

/// `DashMap::get` gives the value under the key, where there is one.
#[verifier::external_body]
pub(crate) fn index_get(m: &DashMap<String, usize>, key: &str) -> (r: Option<usize>)
    ensures
        r == entries(*m).get(key@),
{
    m.get(key).map(|v| *v)
}

/// `DashMap::insert` puts the value under the key, in place of any value that
/// was there, and gives back that earlier value.
#[verifier::external_body]
pub(crate) fn index_insert(m: &mut DashMap<String, usize>, key: String, value: usize) -> (r: Option<
    usize,
>)
    ensures
        entries(*final(m)) == entries(*old(m)).insert(key@, value),
        r == entries(*old(m)).get(key@),
{
    m.insert(key, value)
}

/// `DashMap::remove` takes the key out of the map and gives back its value,
/// where there was one.
#[verifier::external_body]
pub(crate) fn index_remove(m: &mut DashMap<String, usize>, key: &str) -> (r: Option<usize>)
    ensures
        entries(*final(m)) == entries(*old(m)).remove(key@),
        r == entries(*old(m)).get(key@),
{
    m.remove(key).map(|e| e.1)
}

// ── regex ──

/// A match of a pattern: where it starts and ends, in bytes, and the texts of
/// its groups, the whole match first. A group that took no part has no text.
pub struct Found {
    pub start: usize,
    pub end: usize,
    pub groups: Vec<Option<String>>,
}

impl View for Found {
    type V = (int, int, Seq<Option<Seq<char>>>);

    open spec fn view(&self) -> (int, int, Seq<Option<Seq<char>>>) {
        (
            self.start as int,
            self.end as int,
            self.groups@.map_values(|g: Option<String>| text::opt_view(g)),
        )
    }
}

/// The matches of a list.
pub open spec fn found_views(m: Seq<Found>) -> Seq<(int, int, Seq<Option<Seq<char>>>)> {
    m.map_values(|f: Found| f@)
}

/// A call of a tool inside a reply: its name and its arguments.
pub const TOOL_CALL: &'static str = r"\{tool:(\w+)([^}]*)\}";

/// An argument of a tool call: its name and its value.
pub const TOOL_ARG: &'static str = r#"(\w+)="([^"]+)""#;

/// An attempt to make the assistant drop its instructions.
pub const IGNORE_INSTRUCTIONS: &'static str = r"(?i)(zignoruj|ignore|forget).*?instrukcje";

/// An attempt to make the assistant give a secret away.
pub const GIVE_SECRET: &'static str = r"(?i)(podaj|give|show).*(hasło|password|secret|token)";

/// A statement of what the user prefers.
pub const PREFERENCE: &'static str = r"preferuję|wolę|używam";

/// A statement of what the user works with.
pub const TECH_STACK: &'static str = r"pracuję.*na|używam.*w";

/// The patterns that the library searches with.
pub open spec fn is_pattern(p: Seq<char>) -> bool {
    ||| p == TOOL_CALL@
    ||| p == TOOL_ARG@
    ||| p == IGNORE_INSTRUCTIONS@
    ||| p == GIVE_SECRET@
    ||| p == PREFERENCE@
    ||| p == TECH_STACK@
}

/// The successive matches of a pattern in a text that do not overlap, leftmost
/// first.
pub uninterp spec fn regex_matches(pattern: Seq<char>, text: Seq<char>) -> Seq<
    (int, int, Seq<Option<Seq<char>>>),
>;

/// The matches stand in the text one behind the other, each between two
/// characters of it.
pub open spec fn in_order(text: Seq<char>, m: Seq<(int, int, Seq<Option<Seq<char>>>)>) -> bool {
    &&& forall|i: int|
        0 <= i < m.len() ==> 0 <= (#[trigger] m[i]).0 <= m[i].1 <= encode_utf8(text).len()
            && is_char_boundary(encode_utf8(text), m[i].0) && is_char_boundary(
            encode_utf8(text),
            m[i].1,
        )
    &&& forall|i: int, j: int| 0 <= i < j < m.len() ==> (#[trigger] m[i]).1 <= (#[trigger] m[j]).0
}

/// The start of a text up to the end of its first `k` matches, with `rep` in
/// the place of each.
pub open spec fn replaced_until(
    bytes: Seq<u8>,
    m: Seq<(int, int, Seq<Option<Seq<char>>>)>,
    rep: Seq<u8>,
    k: int,
) -> Seq<u8>
    decreases k,
{
    if k <= 0 {
        Seq::empty()
    } else {
        let from = if k == 1 {
            0
        } else {
            m[k - 2].1
        };
        replaced_until(bytes, m, rep, k - 1) + bytes.subrange(from, m[k - 1].0) + rep
    }
}

/// A text with `rep` in the place of each of the matches.
pub open spec fn replaced(
    bytes: Seq<u8>,
    m: Seq<(int, int, Seq<Option<Seq<char>>>)>,
    rep: Seq<u8>,
) -> Seq<u8> {
    let from = if m.len() == 0 {
        0
    } else {
        m.last().1
    };
    replaced_until(bytes, m, rep, m.len() as int) + bytes.subrange(from, bytes.len() as int)
}

/// `Regex::captures_iter` gives the successive matches that do not overlap,
/// with the text of each group. Offsets lie within the text and between two of
/// its characters.
#[verifier::external_body]
pub(crate) fn regex_captures(pattern: &str, haystack: &str) -> (r: Vec<Found>)
    requires
        is_pattern(pattern@),
    ensures
        found_views(r@) == regex_matches(pattern@, haystack@),
        in_order(haystack@, found_views(r@)),
{
    let re = regex::Regex::new(pattern).unwrap();
    re.captures_iter(haystack).map(|c| Found {
        start: c.get(0).unwrap().start(),
        end: c.get(0).unwrap().end(),
        groups: c.iter().map(|g| g.map(|m| m.as_str().to_string())).collect(),
    }).collect()
}

/// `Regex::find` gives the start and the end of the first match, where there is
/// a match.
#[verifier::external_body]
pub(crate) fn regex_find(pattern: &str, haystack: &str) -> (r: Option<(usize, usize)>)
    requires
        is_pattern(pattern@),
    ensures
        r is Some <==> regex_matches(pattern@, haystack@).len() > 0,
        r matches Some(p) ==> p.0 == regex_matches(pattern@, haystack@)[0].0 && p.1 == regex_matches(
            pattern@,
            haystack@,
        )[0].1 && is_char_boundary(encode_utf8(haystack@), p.0 as int) && is_char_boundary(
            encode_utf8(haystack@),
            p.1 as int,
        ),
{
    let re = regex::Regex::new(pattern).unwrap();
    re.find(haystack).map(|m| (m.start(), m.end()))
}

/// `Regex::replace_all` puts the replacement in the place of each match. The
/// replacement stands for itself, as it refers to no group. What the two patterns
/// for misuse match is stated in full: a word of the first group, in letters of
/// either case by simple case folding, then any characters but the end of a line,
/// as few as can be for `.*?` and as many for `.*`, then a word at the end; of
/// such matches, from the left, each that begins behind the one before.
#[verifier::external_body]
pub(crate) fn regex_replace_all(pattern: &str, haystack: &str, rep: &str) -> (r: String)
    requires
        is_pattern(pattern@),
        !rep@.contains('$'),
    ensures
        encode_utf8(r@) == replaced(
            encode_utf8(haystack@),
            regex_matches(pattern@, haystack@),
            encode_utf8(rep@),
        ),
        pattern@ == IGNORE_INSTRUCTIONS@ ==> r@ == passages::without(
            Aim::Instructions,
            haystack@,
            rep@,
        ),
        pattern@ == GIVE_SECRET@ ==> r@ == passages::without(Aim::Secrets, haystack@, rep@),
{
    let re = regex::Regex::new(pattern).unwrap();
    re.replace_all(haystack, rep).into_owned()
}

// ── meval ──

/// The characters of plain arithmetic: digits, the point, the four operators,
/// parentheses and the space.
pub open spec fn is_arithmetic(c: char) -> bool {
    ||| ('0' <= c && c <= '9')
    ||| c == '.'
    ||| c == '+'
    ||| c == '-'
    ||| c == '*'
    ||| c == '/'
    ||| c == '('
    ||| c == ')'
    ||| c == ' '
}

/// The text is made of spaces, at least one, and of nothing else.
pub open spec fn is_blank(s: Seq<char>) -> bool {
    s.len() > 0 && forall|i: int| 0 <= i < s.len() ==> #[trigger] s[i] == ' '
}

/// What plain arithmetic comes to: the number, or what is wrong with it.
pub uninterp spec fn arithmetic_value(expr: Seq<char>) -> Result<Seq<char>, Seq<char>>;

/// The texts of a result.
pub open spec fn result_view(r: Result<String, String>) -> Result<Seq<char>, Seq<char>> {
    match r {
        Ok(s) => Ok(s@),
        Err(s) => Err(s@),
    }
}

/// `meval::eval_str` evaluates an expression, or says what is wrong with it. It
/// panics on a text of nothing but spaces.
#[verifier::external_body]
pub(crate) fn eval_arithmetic(expr: &str) -> (r: Result<String, String>)
    requires
        forall|i: int| 0 <= i < expr@.len() ==> is_arithmetic(#[trigger] expr@[i]),
        !is_blank(expr@),
    ensures
        result_view(r) == arithmetic_value(expr@),
{
    meval::eval_str(expr).map(|v| v.to_string()).map_err(|e| e.to_string())
}

// ── chrono ──

/// A decimal digit.
pub open spec fn is_digit(c: char) -> bool {
    '0' <= c <= '9'
}

/// Two digits stand at place `i`.
pub open spec fn two_digits(s: Seq<char>, i: int) -> bool {
    is_digit(s[i]) && is_digit(s[i + 1])
}

/// A year: four digits, or a sign and at least four.
pub open spec fn is_year(s: Seq<char>) -> bool {
    let digits = if s.len() > 0 && (s[0] == '+' || s[0] == '-') {
        s.skip(1)
    } else {
        s
    };
    &&& digits.len() >= 4
    &&& digits.len() == s.len() ==> s.len() == 4
    &&& forall|i: int| 0 <= i < digits.len() ==> is_digit(#[trigger] digits[i])
}

/// What stands behind the year of a date: the month and the day.
pub open spec fn is_month_day(s: Seq<char>) -> bool {
    s.len() == 6 && s[0] == '-' && two_digits(s, 1) && s[3] == '-' && two_digits(s, 4)
}

/// Hours, minutes and seconds.
pub open spec fn is_clock(s: Seq<char>) -> bool {
    s.len() == 8 && two_digits(s, 0) && s[2] == ':' && two_digits(s, 3) && s[5] == ':'
        && two_digits(s, 6)
}

/// How far a local time is from the universal one: a sign, hours and minutes, and
/// seconds where there are any.
pub open spec fn is_offset(s: Seq<char>) -> bool {
    &&& s.len() == 6 || s.len() == 9
    &&& s[0] == '+' || s[0] == '-'
    &&& two_digits(s, 1) && s[3] == ':' && two_digits(s, 4)
    &&& s.len() == 9 ==> s[6] == ':' && two_digits(s, 7)
}

/// A stamp of these parts, with a space between the date, the time and the
/// offset.
pub open spec fn stamp_of(
    year: Seq<char>,
    month_day: Seq<char>,
    clock: Seq<char>,
    offset: Seq<char>,
) -> Seq<char> {
    year + month_day + seq![' '] + clock + seq![' '] + offset
}

/// A stamp: a date, a time and an offset.
pub open spec fn is_stamp(s: Seq<char>) -> bool {
    exists|year: Seq<char>, month_day: Seq<char>, clock: Seq<char>, offset: Seq<char>|
        is_year(year) && is_month_day(month_day) && is_clock(clock) && is_offset(offset) && s
            == #[trigger] stamp_of(year, month_day, clock, offset)
}

/// `chrono::Local::now` reads the clock, and `DateTime::format` writes the date,
/// the time and the offset of the local time zone. Only the form of the text is
/// stated, as the rest is the time.
#[verifier::external_body]
pub(crate) fn local_time() -> (r: String)
    ensures
        is_stamp(r@),
{
    chrono::Local::now().format("%Y-%m-%d %H:%M:%S %Z").to_string()
}

// ── urlencoding ──

/// The bytes that stand for themselves in a URL.
pub open spec fn is_unreserved(b: u8) -> bool {
    ||| 0x30 <= b <= 0x39
    ||| 0x41 <= b <= 0x5a
    ||| 0x61 <= b <= 0x7a
    ||| b == 0x2d
    ||| b == 0x2e
    ||| b == 0x5f
    ||| b == 0x7e
}

/// An upper-case hexadecimal digit.
pub open spec fn hex_digit(d: u8) -> char {
    if d < 10 {
        ((d + 48) as u8) as char
    } else {
        ((d + 55) as u8) as char
    }
}

/// The bytes with all but the unreserved ones written as `%` and two
/// hexadecimal digits.
pub open spec fn percent_encoded(bytes: Seq<u8>) -> Seq<char>
    decreases bytes.len(),
{
    if bytes.len() == 0 {
        Seq::empty()
    } else {
        let b = bytes.last();
        let before = percent_encoded(bytes.drop_last());
        if is_unreserved(b) {
            before.push(b as char)
        } else {
            before + seq!['%', hex_digit(b / 16), hex_digit(b % 16)]
        }
    }
}

/// `urlencoding::encode` writes every byte but the letters, the digits and
/// `-`, `.`, `_`, `~` as `%` and two upper-case hexadecimal digits.
#[verifier::external_body]
pub(crate) fn url_encode(s: &str) -> (r: String)
    ensures
        r@ == percent_encoded(encode_utf8(s@)),
{
    urlencoding::encode(s).into_owned()
}

// ── scraper ──

/// The body of a page.
pub const BODY: &'static str = "body";

/// The snippets on a page of search results.
pub const SNIPPET: &'static str = "td.result-snippet";

/// The pieces of text inside each element of a page that a selector picks, the
/// elements in the order in which the parser made them.
pub uninterp spec fn selected_text(html: Seq<char>, selector: Seq<char>) -> Seq<Seq<Seq<char>>>;

/// The texts of a list of lists of strings.
pub open spec fn nested_views(v: Seq<Vec<String>>) -> Seq<Seq<Seq<char>>> {
    v.map_values(|e: Vec<String>| text::views(e@))
}

/// `scraper::Html::parse_document`, `Html::select` and `ElementRef::text` give
/// the text nodes inside each element that the selector picks.
#[verifier::external_body]
pub(crate) fn html_select(html: &str, selector: &str) -> (r: Vec<Vec<String>>)
    requires
        selector@ == BODY@ || selector@ == SNIPPET@,
    ensures
        nested_views(r@) == selected_text(html@, selector@),
{
    let doc = scraper::Html::parse_document(html);
    let sel = scraper::Selector::parse(selector).unwrap();
    doc.select(&sel).map(|e| e.text().map(|t| t.to_string()).collect()).collect()
}

/// `chrono::Utc::now` reads the clock: the seconds since the start of 1970. It
/// reaches from that start to the last second of the year 262142.
#[verifier::external_body]
pub(crate) fn unix_time() -> (r: i64)
    ensures
        0 <= r <= LAST_SECOND,
{
    chrono::Utc::now().timestamp()
}

/// The first second that `chrono` can represent.
pub const FIRST_SECOND: i64 = -8_334_601_228_800;

/// The last second that `chrono` can represent.
pub const LAST_SECOND: i64 = 8_210_266_876_799;

// ── jsonwebtoken ──

/// How many seconds after its expiry `jsonwebtoken` still takes a token.
pub const LEEWAY: u64 = 60;

/// What decoding a token under a secret gives at the second `now` since the
/// start of 1970: its claims as the JSON text that they are written in, or
/// nothing where the token is not taken.
pub uninterp spec fn jwt_decoded(token: Seq<char>, secret: Seq<char>, now: u64) -> Option<Seq<char>>;

/// From the end of the first minute of 1970 on, decoding the token gives these
/// claims until the leeway after its expiry is over, and nothing later.
pub open spec fn jwt_lapses(
    token: Seq<char>,
    secret: Seq<char>,
    claims: Seq<char>,
    exp: i64,
) -> bool {
    forall|now: u64|
        now >= LEEWAY ==> #[trigger] jwt_decoded(token, secret, now) == if now - LEEWAY <= exp {
            Some(claims)
        } else {
            None
        }
}

/// The claims that came out of a token, if any.
pub open spec fn decoded_view(d: Result<String, String>) -> Option<Seq<char>> {
    match d {
        Ok(c) => Some(c@),
        Err(_) => None,
    }
}

/// The subject, the expiry and the rights of the holder in the JSON text of
/// claims. One that is missing or of another type is `None`; of a repeated one the
/// last counts.
pub uninterp spec fn json_claims(claims: Seq<char>) -> (
    Option<Seq<char>>,
    Option<i64>,
    Option<bool>,
);

/// The token says this, each of it once, until the leeway after its expiry is
/// over.
pub open spec fn jwt_says(
    token: Seq<char>,
    secret: Seq<char>,
    sub: Seq<char>,
    exp: i64,
    adm: bool,
) -> bool {
    exists|claims: Seq<char>| #[trigger]
        jwt_lapses(token, secret, claims, exp) && json_claims(claims) == (
            Some(sub),
            Some(exp),
            Some(adm),
        ) && !json::repeated(claims, "adm"@)
}

/// The token with these claims, signed with the secret.
pub uninterp spec fn jwt_token(sub: Seq<char>, exp: i64, adm: bool, secret: Seq<char>) -> Seq<char>;

/// `jsonwebtoken::encode` signs the claims with HMAC-SHA-256 under the secret.
/// With a secret for a key it does not fail, and decoding the token under the
/// same secret gives the claims back, each written once, until the leeway after
/// the expiry is over.
#[verifier::external_body]
pub(crate) fn jwt_encode(sub: &str, exp: i64, adm: bool, secret: &str) -> (r: Result<String, String>)
    ensures
        r is Ok,
        r matches Ok(t) ==> t@ == jwt_token(sub@, exp, adm, secret@),
        r matches Ok(t) ==> jwt_says(t@, secret@, sub@, exp, adm),
{
    let mut claims = serde_json::Map::new();
    claims.insert("sub".to_string(), serde_json::Value::from(sub));
    claims.insert("exp".to_string(), serde_json::Value::from(exp));
    claims.insert("adm".to_string(), serde_json::Value::from(adm));
    let key = jsonwebtoken::EncodingKey::from_secret(secret.as_bytes());
    jsonwebtoken::encode(&jsonwebtoken::Header::default(), &claims, &key).map_err(|e| e.to_string())
}

/// `jsonwebtoken::decode` gives the claims of a token that is signed with
/// HMAC-SHA-256 under the secret and whose expiry lies no further back than the
/// leeway, here as the JSON text that they are written in. It reads the clock
/// once, and what the clock shows is left unsaid. A token that it takes does not
/// expire before 1970, and where the expiry is a whole number, the expiry alone
/// says until when the token is taken. Claims that are not UTF-8 have no text, and
/// a token with such claims is not taken.
#[verifier::external_body]
pub(crate) fn jwt_decode(token: &str, secret: &str) -> (r: Result<String, String>)
    ensures
        exists|now: u64| #[trigger] jwt_decoded(token@, secret@, now) == decoded_view(r),
        r matches Ok(c) ==> (json_claims(c@).1 matches Some(exp) ==> exp >= 0),
        r matches Ok(c) ==> (json_claims(c@).1 matches Some(exp) ==> jwt_lapses(
            token@,
            secret@,
            c@,
            exp,
        )),
{
    let key = jsonwebtoken::DecodingKey::from_secret(secret.as_bytes());
    let rules = jsonwebtoken::Validation::new(jsonwebtoken::Algorithm::HS256);
    let data = jsonwebtoken::decode::<Box<RawValue>>(token, &key, &rules);
    data.map(|d| d.claims.get().to_string()).map_err(|e| e.to_string())
}

/// `serde_json::from_str` reads the subject, the expiry and the rights of the
/// holder from the JSON text of claims, each on its own, so that what else stands
/// there does not matter.
#[verifier::external_body]
pub(crate) fn read_claims(claims: &str) -> (r: (Option<String>, Option<i64>, Option<bool>))
    ensures
        (text::opt_view(r.0), r.1, r.2) == json_claims(claims@),
{
    let m: HashMap<String, Box<RawValue>> = serde_json::from_str(claims).unwrap_or_default();
    let sub = m.get("sub").and_then(|v| serde_json::from_str(v.get()).ok());
    let exp = m.get("exp").and_then(|v| serde_json::from_str(v.get()).ok());
    let adm = m.get("adm").and_then(|v| serde_json::from_str(v.get()).ok());
    (sub, exp, adm)
}

// ── governor ──

/// A keyed `governor::RateLimiter`: how often each key has been let through of
/// late.
#[verifier::external_body]
pub struct Limiter {
    inner: governor::RateLimiter<
        String,
        governor::state::keyed::DefaultKeyedStateStore<String>,
        governor::clock::DefaultClock,
    >,
}

/// How many requests of one key a limiter lets through in a minute.
pub uninterp spec fn per_minute(l: Limiter) -> nat;

/// How many nanoseconds lie between two requests of a key at an even rate.
pub open spec fn pace(l: Limiter) -> nat {
    60_000_000_000nat / per_minute(l)
}

/// The state that a limiter holds of each key: when its next request would be due
/// at an even rate, in nanoseconds since the limiter was made. A key has a state
/// once a request of it was let through.
pub uninterp spec fn arrivals(l: Limiter) -> Map<Seq<char>, nat>;

/// `governor::RateLimiter::keyed` with `Quota::per_minute` makes a limiter of
/// that many requests a minute, which knows no key yet.
#[verifier::external_body]
pub(crate) fn limiter_new(rpm: u32) -> (r: Limiter)
    requires
        rpm > 0,
    ensures
        per_minute(r) == rpm,
        (arrivals(r) == Map::<Seq<char>, nat>::empty()),
{
    let quota = governor::Quota::per_minute(std::num::NonZeroU32::new(rpm).unwrap());
    Limiter { inner: governor::RateLimiter::keyed(quota) }
}

/// `governor::RateLimiter::check_key` lets a request of the key through or not.
/// Where it does, the key is due later than before, by the pace at least, and
/// nothing changes for others; where it does not, nothing changes at all, and the
/// key was due later than as many requests as may pass in a minute take. A key
/// that it does not know yet is let through, whatever the clock shows. Nothing
/// more is said of which later requests are, as that depends on the clock.
#[verifier::external_body]
pub(crate) fn limiter_check(l: &mut Limiter, key: &String) -> (r: bool)
    ensures
        per_minute(*final(l)) == per_minute(*old(l)),
        r ==> arrivals(*final(l)).contains_key(key@),
        r ==> arrivals(*final(l)) == arrivals(*old(l)).insert(key@, arrivals(*final(l))[key@]),
        r ==> (arrivals(*old(l)).contains_key(key@) ==> arrivals(*old(l))[key@] < arrivals(
            *final(l),
        )[key@]),
        r ==> (arrivals(*old(l)).contains_key(key@) ==> arrivals(*old(l))[key@] + pace(*old(l))
            <= arrivals(*final(l))[key@]),
        r ==> 2 * pace(*old(l)) <= arrivals(*final(l))[key@],
        !r ==> arrivals(*final(l)) == arrivals(*old(l)),
        !r ==> arrivals(*final(l)).contains_key(key@),
        !r ==> arrivals(*final(l))[key@] > pace(*old(l)) * per_minute(*old(l)),
{
    l.inner.check_key(key).is_ok()
}

// ── http ──

/// The character may stand in the value of a header: any but the control
/// characters, of which the tab alone may.
pub open spec fn is_header_char(c: char) -> bool {
    c == '\t' || ((c as u32) >= 32 && (c as u32) != 127)
}

/// `HeaderValue::from_str` accepts exactly the texts without control characters
/// other than the tab.
#[verifier::external_body]
pub(crate) fn is_header_value(s: &str) -> (r: bool)
    ensures
        r <==> forall|i: int| 0 <= i < s@.len() ==> is_header_char(#[trigger] s@[i]),
{
    axum::http::HeaderValue::from_str(s).is_ok()
}

// ── mime_guess ──

/// The media type that the extension of a path suggests.
pub uninterp spec fn guessed_type(path: Seq<char>) -> Seq<char>;

/// `mime_guess::from_path` and `MimeGuess::first_or_octet_stream` give the media
/// type that the extension of the path suggests.
#[verifier::external_body]
pub(crate) fn guess_type(path: &str) -> (r: String)
    ensures
        r@ == guessed_type(path@),
{
    mime_guess::from_path(path).first_or_octet_stream().to_string()
}

// ── textwrap ──

/// The lines that a text is broken into for a width of `width` columns.
pub uninterp spec fn wrapped_lines(text: Seq<char>, width: nat) -> Seq<Seq<char>>;

/// `textwrap::wrap` breaks a text into lines of the given width, as far as that
/// can be: a character that is wider than the width still gets a line.
#[verifier::external_body]
pub(crate) fn wrap_text(s: &str, width: usize) -> (r: Vec<String>)
    requires
        width <= 65535,
    ensures
        text::views(r@) == wrapped_lines(s@, width as nat),
{
    textwrap::wrap(s, width).into_iter().map(|l| l.into_owned()).collect()
}

// ── uuid ──

/// A lower-case hexadecimal digit.
pub open spec fn is_hex(c: char) -> bool {
    ('0' <= c && c <= '9') || ('a' <= c && c <= 'f')
}

/// Five groups of hexadecimal digits with hyphens between, 36 characters in
/// all, of the random kind.
pub open spec fn is_uuid(s: Seq<char>) -> bool {
    &&& s.len() == 36
    &&& s[14] == '4'
    &&& forall|i: int|
        0 <= i < 36 ==> if i == 8 || i == 13 || i == 18 || i == 23 {
            #[trigger] s[i] == '-'
        } else {
            is_hex(s[i])
        }
}

/// `uuid::Uuid::new_v4` draws a random identifier. Nothing is said of which one
/// comes, as it is random; its text has a fixed form.
#[verifier::external_body]
pub(crate) fn new_id() -> (r: String)
    ensures
        is_uuid(r@),
{
    uuid::Uuid::new_v4().to_string()
}

// ── std ──

/// A letter of the English alphabet in lower case, any other character as it is.
pub open spec fn ascii_lower(c: char) -> char {
    if 'A' <= c && c <= 'Z' {
        ((c as u8) + 32) as u8 as char
    } else {
        c
    }
}

/// Every character is of the ASCII range.
pub open spec fn is_ascii_text(s: Seq<char>) -> bool {
    forall|i: int| 0 <= i < s.len() ==> (#[trigger] s[i] as u32) < 128
}

/// A text in lower case.
pub uninterp spec fn lowercase(s: Seq<char>) -> Seq<char>;

/// `str::to_lowercase` gives the lower-case equivalent of the text. On a text
/// of ASCII characters it changes the capital letters alone.
#[verifier::external_body]
pub(crate) fn to_lowercase(s: &str) -> (r: String)
    ensures
        r@ == lowercase(s@),
        is_ascii_text(s@) ==> r@ == s@.map_values(|c: char| ascii_lower(c)),
{
    s.to_lowercase()
}

/// The character is a letter or a digit.
pub uninterp spec fn alphanumeric(c: char) -> bool;

/// `char::is_alphanumeric` tells letters and digits from other characters. Of
/// the ASCII characters it picks the digits and the letters of either case.
#[verifier::external_body]
pub(crate) fn is_alphanumeric(c: char) -> (r: bool)
    ensures
        r == alphanumeric(c),
        (c as u32) < 128 ==> r == (('0' <= c && c <= '9') || ('A' <= c && c <= 'Z') || ('a' <= c && c
            <= 'z')),
{
    c.is_alphanumeric()
}

/// `str::from_utf8` accepts exactly the bytes that are UTF-8, and gives the text
/// they encode.
#[verifier::external_body]
pub(crate) fn decode_text(bytes: &[u8]) -> (r: Option<String>)
    ensures
        r is Some <==> valid_utf8(bytes@),
        r matches Some(t) ==> t@ == decode_utf8(bytes@),
{
    std::str::from_utf8(bytes).ok().map(|t| t.to_string())
}

/// The bytes as text, with a replacement character in the place of each sequence
/// that is not UTF-8.
pub uninterp spec fn lossy_text(bytes: Seq<u8>) -> Seq<char>;

/// `String::from_utf8_lossy` reads bytes as text. Bytes that are UTF-8 give the
/// text they encode.
#[verifier::external_body]
pub(crate) fn decode_lossy(bytes: &[u8]) -> (r: String)
    ensures
        r@ == lossy_text(bytes@),
        valid_utf8(bytes@) ==> r@ == decode_utf8(bytes@),
{
    String::from_utf8_lossy(bytes).to_string()
}

} // verus!
