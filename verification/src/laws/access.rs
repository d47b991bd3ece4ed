//! Laws of who may use the service.

use crate::auth;
use crate::auth::{
    admission, build_limiter, claims_from, claims_in, client_address, known_users, mint_token,
    mint_token_at, verify_token, Admission, AuthState, Claims, LoginAnswer, LoginReq,
};
use crate::config::Config;
use crate::error::HexError;
use crate::json;
use crate::laws;
use crate::outside;
use crate::store::Store;
use crate::text;
use vstd::prelude::*;

verus! {

/// A request is served exactly where its client may ask again and, where tokens
/// are asked for, brought a valid one; then it is served on behalf of the holder.
/// Asking too often is told before a bad token. Each refusal has its status.
pub proof fn law_admission(
    allowed: bool,
    enabled: bool,
    claims: Option<Claims>,
    r: Admission,
    said: Option<(u16, String)>,
)
    requires
        call_ensures(admission, (allowed, enabled, claims), r),
        call_ensures(Admission::refusal, (&r,), said),
    ensures
        said is None <==> allowed && (!enabled || claims is Some),
        r is Pass <==> said is None,
        said matches Some(p) ==> p.0 == (if !allowed {
            429int
        } else {
            401int
        }),
        !allowed ==> (said matches Some(p)
            && p.1@ == "Rate limit exceeded. Try again in a minute."@),
        allowed && said is Some ==> (said matches Some(p) && p.1@ == "Invalid or missing token."@),
        r matches Admission::Pass(c) ==> (enabled ==> c == claims) && (!enabled ==> c is None),
{
}

/// A request is counted for the address that it came from, and for this machine
/// where there is none. Another client is not affected.
pub proof fn law_clients_apart(
    a: &mut AuthState,
    address: &Option<String>,
    authorization: &Option<String>,
    r: Admission,
    other: Seq<char>,
    token: Seq<char>,
)
    requires
        call_ensures(AuthState::auth_middleware, (a, address, authorization), r),
        address is Some ==> other != address->0@,
        address is None ==> other != "127.0.0.1"@,
    ensures
        outside::arrivals(final(a).limiter).contains_key(other) <==> outside::arrivals(
            old(a).limiter,
        ).contains_key(other),
        outside::arrivals(old(a).limiter).contains_key(other) ==> outside::arrivals(
            final(a).limiter,
        )[other] == outside::arrivals(old(a).limiter)[other],
        address matches Some(s) ==> (!outside::arrivals(old(a).limiter).contains_key(s@) ==> !(
        r is TooMany)),
        !old(a).auth_enabled ==> !(r is Unauthorized),
        r is TooMany ==> outside::arrivals(final(a).limiter) == outside::arrivals(old(a).limiter),
        !(r is TooMany) ==> outside::arrivals(final(a).limiter).contains_key(
            match *address {
                Some(s) => s@,
                None => "127.0.0.1"@,
            },
        ),
        !old(a).auth_enabled && !(r is TooMany) ==> r == Admission::Pass(None),
        old(a).auth_enabled && r is Pass ==> r->Pass_0 is Some,
        authorization matches Some(h) ==> (h@ == "Bearer "@ + token ==> (
        r matches Admission::Pass(Some(c)) ==> auth::vouches(token, old(a).jwt_secret@, c@))),
        final(a).jwt_secret == old(a).jwt_secret,
        final(a).auth_enabled == old(a).auth_enabled,
{
    law_bearer(token, token);
}

/// The address that a request was forwarded for is what stands before the first
/// comma of the header, without space around it.
pub proof fn law_forwarded(
    header: &Option<String>,
    r: Option<String>,
    first: Seq<char>,
    rest: Seq<char>,
)
    requires
        call_ensures(client_address, (header,), r),
        forall|i: int| 0 <= i < first.len() ==> #[trigger] first[i] != ',',
    ensures
        header is None <==> r is None,
        header matches Some(h) ==> (h@ == first ==> r->0@ == text::trimmed(first)),
        header matches Some(h) ==> (h@ == first.push(',') + rest ==> r->0@ == text::trimmed(first)),
{
    if let Some(h) = *header {
        laws::text::law_split_at_cut(first, ',', rest, text::is_char(','));
        assert(text::split_on(first, ',') == seq![first]);
    }
}

/// The token of a header is what stands behind `Bearer `.
pub proof fn law_bearer(t: Seq<char>, h: Seq<char>)
    ensures
        auth::bearer_token(Some("Bearer "@ + t)) == t,
        !text::has_prefix(h, "Bearer "@) ==> auth::bearer_token(Some(h)).len() == 0,
        auth::bearer_token(None).len() == 0,
{
    let p = "Bearer "@;
    assert((p + t).take(p.len() as int) =~= p);
    assert((p + t).skip(p.len() as int) =~= t);
}

/// A token speaks of its holder where it says who that is, until when, and whether
/// an administrator, and nothing of it twice.
pub proof fn law_claims(
    read: (Option<String>, Option<i64>, Option<bool>),
    r: Option<Claims>,
    decoded: &Result<String, String>,
    c: Option<Claims>,
)
    requires
        call_ensures(claims_from, (read,), r),
        call_ensures(claims_in, (decoded,), c),
    ensures
        r is Some <==> read.0 is Some && read.1 is Some && read.2 is Some,
        r matches Some(x) ==> x.sub@ == read.0->0@ && x.exp == read.1->0 && x.adm == read.2->0,
        decoded is Err ==> c is None,
        decoded matches Ok(s) ==> (json::repeated(s@, "adm"@) ==> c is None),
        decoded matches Ok(s) ==> (!json::repeated(s@, "adm"@) ==> {
            let claims = outside::json_claims(s@);
            &&& c is Some <==> claims.0 is Some && claims.1 is Some && claims.2 is Some
            &&& c matches Some(x) ==> x.sub@ == claims.0->0 && x.exp == claims.1->0 && x.adm
                == claims.2->0
        }),
{
}

/// A token is minted for its holder under the secret, to expire after so many
/// hours of an hour's seconds, as long as that is a date.
pub proof fn law_minted(
    now: i64,
    name: &str,
    admin: bool,
    secret: &str,
    hours: i64,
    r: Result<String, HexError>,
    then: u64,
)
    requires
        outside::FIRST_SECOND <= now <= outside::LAST_SECOND,
        call_ensures(mint_token_at, (now, name, admin, secret, hours), r),
    ensures
        r is Ok <==> outside::FIRST_SECOND <= now + 3600 * hours <= outside::LAST_SECOND,
        r matches Ok(t) ==> then >= 60 && then - 60 <= now + 3600 * hours ==> auth::claims_at(
            t@,
            secret@,
            then,
        ) == Some((name@, (now + 3600 * hours) as i64, admin)),
        r matches Ok(t) ==> then >= 60 && then - 60 > now + 3600 * hours ==> auth::claims_at(
            t@,
            secret@,
            then,
        ) is None,
        r matches Err(e) ==> (e matches HexError::Internal(c) && c@ == "expiry out of range"@),
{
}

/// A login gives a token exactly where the name is known and the password is its
/// own, for the one who logs in and for a day; an unknown name and a wrong password
/// are answered alike.
pub proof fn law_login(
    a: &AuthState,
    now: i64,
    req: &LoginReq,
    users: &Store<(String, bool)>,
    r: LoginAnswer,
    status: u16,
    then: u64,
)
    requires
        users.wf(),
        outside::FIRST_SECOND <= now <= outside::LAST_SECOND - 86400,
        call_ensures(AuthState::login_at, (a, now, req, users), r),
        call_ensures(LoginAnswer::status, (&r,), status),
    ensures
        status == 200 <==> users@.contains_key(req.username@) && users@[req.username@].0@
            == req.password@,
        status == 200 || status == 401,
        r is Token <==> status == 200,
        r is Denied <==> status == 401,
        r matches LoginAnswer::Token(t) ==> then >= 60 && then - 60 <= now + 86400
            ==> auth::claims_at(t@, a.jwt_secret@, then) == Some(
            (req.username@, (now + 86400) as i64, users@[req.username@].1),
        ),
        r matches LoginAnswer::Token(t) ==> then >= 60 && then - 60 > now + 86400
            ==> auth::claims_at(t@, a.jwt_secret@, then) is None,
{
}

/// There is one user, the administrator, with the password that was set, and with
/// a known one where none was.
pub proof fn law_users(pass: &Option<String>, r: Store<(String, bool)>, name: Seq<char>)
    requires
        call_ensures(known_users, (pass,), r),
    ensures
        r@.contains_key(name) <==> name == "admin"@,
        r@["admin"@].1,
        pass matches Some(p) ==> r@["admin"@].0@ == p@,
        pass is None ==> r@["admin"@].0@ == "hexai-admin"@,
{
}

/// The guard is the one that the settings ask for, and lets at least one request a
/// minute through.
pub proof fn law_guard(cfg: &Config, a: AuthState, key: Seq<char>)
    requires
        call_ensures(AuthState::new, (cfg,), a),
    ensures
        cfg.rate_limit_rpm > 0 ==> outside::per_minute(a.limiter) == cfg.rate_limit_rpm,
        outside::per_minute(a.limiter) > 0,
        !outside::arrivals(a.limiter).contains_key(key),
        a.jwt_secret@ == cfg.jwt_secret@,
        a.auth_enabled == cfg.auth_enabled,
{
}

/// A token that is found valid is valid for its holder until the leeway after its
/// expiry is over, and not later. One that was minted is found valid with what it
/// was minted with, under the same secret, or not at all.
pub proof fn law_verified(
    now: i64,
    name: &str,
    admin: bool,
    secret: &str,
    hours: i64,
    r: Result<String, HexError>,
    token: &str,
    v: Option<Claims>,
)
    requires
        outside::FIRST_SECOND <= now <= outside::LAST_SECOND,
        call_ensures(mint_token_at, (now, name, admin, secret, hours), r),
        r is Ok,
        token@ == r->Ok_0@,
        call_ensures(verify_token, (token, secret), v),
    ensures
        v matches Some(c) ==> c.sub@ == name@ && c.adm == admin && c.exp == now + 3600 * hours,
{
    let minted = (name@, (now + 3600 * hours) as i64, admin);
    assert(auth::vouches(token@, secret@, minted));
    if let Some(c) = v {
        assert(auth::claims_at(token@, secret@, outside::LEEWAY) == Some(c@));
        assert(auth::claims_at(token@, secret@, outside::LEEWAY) is Some);
    }
}

/// A limiter lets as many requests a minute through as it is told, and at least
/// one.
pub proof fn law_limiter(rpm: u32, r: outside::Limiter, key: Seq<char>)
    requires
        call_ensures(build_limiter, (rpm,), r),
    ensures
        rpm > 0 ==> outside::per_minute(r) == rpm,
        rpm == 0 ==> outside::per_minute(r) == 1,
        !outside::arrivals(r).contains_key(key),
{
}

/// Whatever the clock shows, a token speaks of the one for whom it was minted, and
/// a login gives one to those alone who are known and bring their password.
pub proof fn law_tokens_speak_of_holders(
    a: &AuthState,
    req: &LoginReq,
    users: &Store<(String, bool)>,
    r: LoginAnswer,
    name: &str,
    admin: bool,
    secret: &str,
    hours: i64,
    m: Result<String, HexError>,
    token: &str,
    v: Option<Claims>,
)
    requires
        users.wf(),
        call_ensures(AuthState::login, (a, req, users), r),
        call_ensures(mint_token, (name, admin, secret, hours), m),
        secret@ == a.jwt_secret@,
        call_ensures(verify_token, (token, secret), v),
    ensures
        r is Denied <==> !(users@.contains_key(req.username@) && users@[req.username@].0@
            == req.password@),
        r matches LoginAnswer::Token(t) ==> (t@ == token@ && v is Some ==> v->0.sub@
            == req.username@ && v->0.adm == users@[req.username@].1),
        m matches Ok(t) ==> (t@ == token@ && v is Some ==> v->0.sub@ == name@ && v->0.adm == admin),
        m matches Err(e) ==> (e matches HexError::Internal(c) && c@ == "expiry out of range"@),
{
    if let Some(c) = v {
        assert(auth::claims_at(token@, secret@, outside::LEEWAY) == (if 0 <= c.exp {
            Some(c@)
        } else {
            None
        }));
    }
    if let LoginAnswer::Token(t) = r {
        if t@ == token@ && v is Some {
            let now = choose|now: int|
                0 <= now <= outside::LAST_SECOND && auth::is_date(
                    #[trigger] auth::expiry(now, auth::LOGIN_HOURS as int),
                ) && auth::vouches(
                    t@,
                    secret@,
                    (
                        req.username@,
                        auth::expiry(now, auth::LOGIN_HOURS as int) as i64,
                        users@[req.username@].1,
                    ),
                );
            let at = auth::claims_at(token@, secret@, outside::LEEWAY);
            assert(at == Some(v->0@));
        }
    }
    if let Ok(t) = m {
        if t@ == token@ && v is Some {
            let now = choose|now: int|
                0 <= now <= outside::LAST_SECOND && auth::is_date(
                    #[trigger] auth::expiry(now, hours as int),
                ) && auth::vouches(
                    t@,
                    secret@,
                    (name@, auth::expiry(now, hours as int) as i64, admin),
                );
            let at = auth::claims_at(token@, secret@, outside::LEEWAY);
            assert(at == Some(v->0@));
        }
    }
}

} // verus!
