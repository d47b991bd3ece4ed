//! Who may use the service, and how often.

use crate::config::Config;
use crate::error::HexError;
use crate::json;
use crate::json::repeats;
use crate::outside;
use crate::outside::{
    jwt_decode, jwt_encode, limiter_check, limiter_new, read_claims, unix_time, Limiter,
    FIRST_SECOND, LAST_SECOND, LEEWAY,
};
use crate::store::Store;
use crate::text;
use crate::text::{same_text, split_char, strip_prefix, text_or, trim};
use vstd::prelude::*;

verus! {

// ── Tokens ──

/// What a token says of its holder.
#[derive(Clone, Debug)]
pub struct Claims {
    /// The name of the holder.
    pub sub: String,
    /// When the token expires, in seconds since the start of 1970.
    pub exp: i64,
    /// Whether the holder is an administrator.
    pub adm: bool,
}

impl View for Claims {
    type V = (Seq<char>, i64, bool);

    open spec fn view(&self) -> (Seq<char>, i64, bool) {
        (self.sub@, self.exp, self.adm)
    }
}

/// The claims of a token, where none is missing.
pub open spec fn complete(c: (Option<Seq<char>>, Option<i64>, Option<bool>)) -> Option<
    (Seq<char>, i64, bool),
> {
    match c {
        (Some(sub), Some(exp), Some(adm)) => Some((sub, exp, adm)),
        _ => None,
    }
}

/// What the text of claims says of the holder of a token, where it says all of it
/// and nothing of it twice. A subject or an expiry that is written twice makes a
/// token invalid by itself.
pub open spec fn claims_of(claims: Seq<char>) -> Option<(Seq<char>, i64, bool)> {
    if json::repeated(claims, "adm"@) {
        None
    } else {
        complete(outside::json_claims(claims))
    }
}

/// What a token says of its holder at the second `now`, where it is signed with
/// the secret, says all of it and has not expired.
pub open spec fn claims_at(token: Seq<char>, secret: Seq<char>, now: u64) -> Option<
    (Seq<char>, i64, bool),
> {
    match outside::jwt_decoded(token, secret, now) {
        Some(claims) => claims_of(claims),
        None => None,
    }
}

/// The token says this of its holder until the leeway after its expiry is over,
/// and nothing later.
pub open spec fn vouches(token: Seq<char>, secret: Seq<char>, c: (Seq<char>, i64, bool)) -> bool {
    forall|now: u64|
        now >= LEEWAY ==> #[trigger] claims_at(token, secret, now) == if now - LEEWAY <= c.1 {
            Some(c)
        } else {
            None
        }
}

/// The claims of an optional value.
pub open spec fn claims_view(c: Option<Claims>) -> Option<(Seq<char>, i64, bool)> {
    match c {
        Some(c) => Some(c@),
        None => None,
    }
}

/// The second that lies `hours` hours after `now`.
pub open spec fn expiry(now: int, hours: int) -> int {
    now + 3600 * hours
}

/// Whether a second can be represented as a date.
pub open spec fn is_date(second: int) -> bool {
    FIRST_SECOND <= second <= LAST_SECOND
}

/// What is said where a token would expire beyond all dates.
pub const NO_SUCH_DATE: &'static str = "expiry out of range";

/// A token for a holder that expires `hours` hours after `now`. It fails where
/// that is beyond all dates.
pub fn mint_token_at(now: i64, username: &str, is_admin: bool, secret: &str, hours: i64) -> (r: Result<
    String,
    HexError,
>)
    requires
        is_date(now as int),
    ensures
        if is_date(expiry(now as int, hours as int)) {
            r matches Ok(t) && t@ == outside::jwt_token(
                username@,
                expiry(now as int, hours as int) as i64,
                is_admin,
                secret@,
            ) && vouches(
                t@,
                secret@,
                (username@, expiry(now as int, hours as int) as i64, is_admin),
            )
        } else {
            r matches Err(HexError::Internal(c)) && c@ == NO_SUCH_DATE@
        },
{
    let wide: i128 = now as i128 + 3600 * (hours as i128);
    if wide < FIRST_SECOND as i128 || wide > LAST_SECOND as i128 {
        return Err(HexError::Internal(NO_SUCH_DATE.to_owned()));
    }
    match jwt_encode(username, wide as i64, is_admin, secret) {
        Ok(t) => Ok(t),
        Err(e) => Err(HexError::Internal(e)),
    }
}

/// A token for a holder that expires in `hours` hours. It fails where that is
/// beyond all dates.
pub fn mint_token(username: &str, is_admin: bool, secret: &str, hours: i64) -> (r: Result<
    String,
    HexError,
>)
    ensures
        match r {
            Ok(t) => exists|now: int|
                0 <= now <= LAST_SECOND && is_date(#[trigger] expiry(now, hours as int)) && t@
                    == outside::jwt_token(
                    username@,
                    expiry(now, hours as int) as i64,
                    is_admin,
                    secret@,
                ) && vouches(
                    t@,
                    secret@,
                    (username@, expiry(now, hours as int) as i64, is_admin),
                ),
            Err(e) => e matches HexError::Internal(c) && c@ == NO_SUCH_DATE@ && exists|now: int|
                0 <= now <= LAST_SECOND && !is_date(#[trigger] expiry(now, hours as int)),
        },
{
    let now: i64 = unix_time();
    mint_token_at(now, username, is_admin, secret, hours)
}

/// The claims of a token, where none is missing.
pub fn claims_from(read: (Option<String>, Option<i64>, Option<bool>)) -> (r: Option<Claims>)
    ensures
        claims_view(r) == complete((text::opt_view(read.0), read.1, read.2)),
{
    match read {
        (Some(sub), Some(exp), Some(adm)) => Some(Claims { sub, exp, adm }),
        _ => None,
    }
}

/// What a decoded token says of its holder, given the text of its claims.
pub fn claims_in(decoded: &Result<String, String>) -> (r: Option<Claims>)
    ensures
        claims_view(r) == match *decoded {
            Ok(c) => claims_of(c@),
            Err(_) => None,
        },
{
    match decoded {
        Ok(c) => if repeats(c.as_str(), "adm") {
            None
        } else {
            claims_from(read_claims(c.as_str()))
        },
        Err(_) => None,
    }
}

/// What a token says of its holder, where it is signed with the secret, says
/// all of it and has not expired.
pub fn verify_token(token: &str, secret: &str) -> (r: Option<Claims>)
    ensures
        exists|now: u64| claims_view(r) == #[trigger] claims_at(token@, secret@, now),
        r matches Some(c) ==> c.exp >= 0 && vouches(token@, secret@, c@),
{
    let decoded = jwt_decode(token, secret);
    proof {
        let now = choose|now: u64|
            #[trigger] outside::jwt_decoded(token@, secret@, now) == outside::decoded_view(decoded);
        assert(claims_at(token@, secret@, now) == match outside::decoded_view(decoded) {
            Some(c) => claims_of(c),
            None => None,
        });
    }
    claims_in(&decoded)
}

/// A token is accepted with the claims that it was minted with, and as long as
/// they allow: where minting gave the token under a secret, checking it under
/// that secret at the second `now` gives those claims until the leeway after the
/// expiry is over, and nothing later.
pub proof fn lemma_minted_claims_come_back(
    token: Seq<char>,
    secret: Seq<char>,
    minted: (Seq<char>, i64, bool),
    verified: Option<Claims>,
    now: u64,
)
    requires
        vouches(token, secret, minted),
        claims_view(verified) == claims_at(token, secret, now),
        verified matches Some(c) ==> c.exp >= 0 && vouches(token, secret, c@),
    ensures
        verified is Some ==> claims_view(verified) == Some(minted),
        now >= LEEWAY ==> (verified is Some <==> now - LEEWAY <= minted.1),
{
    let first = claims_at(token, secret, LEEWAY);
    if verified is Some {
        assert(first == Some(verified->0@));
    }
}

// ── Limits ──

/// A limiter of `rpm` requests a minute, and of at least one.
pub fn build_limiter(rpm: u32) -> (r: Limiter)
    ensures
        outside::per_minute(r) == if rpm == 0 {
            1nat
        } else {
            rpm as nat
        },
        outside::arrivals(r) == Map::<Seq<char>, nat>::empty(),
{
    limiter_new(
        if rpm == 0 {
            1
        } else {
            rpm
        },
    )
}

/// The name under which requests of this machine are counted.
pub const LOCALHOST: &'static str = "127.0.0.1";

/// The address that a request was forwarded for, as the header gives it: what
/// stands before the first comma.
pub open spec fn forwarded_for(header: Option<Seq<char>>) -> Option<Seq<char>> {
    match header {
        Some(h) => Some(text::trimmed(text::split_on(h, ',')[0])),
        None => None,
    }
}

/// The address that a request was forwarded for, as the header gives it.
pub fn client_address(forwarded: &Option<String>) -> (r: Option<String>)
    ensures
        text::opt_view(r) == forwarded_for(text::opt_view(*forwarded)),
{
    match forwarded {
        Some(h) => {
            let parts: Vec<String> = split_char(h.as_str(), ',');
            proof {
                assert(text::views(parts@)[0] == parts@[0]@);
            }
            Some(trim(parts[0].as_str()))
        },
        None => None,
    }
}

/// The token of an `Authorization` header, or nothing.
pub open spec fn bearer_token(header: Option<Seq<char>>) -> Seq<char> {
    match header {
        Some(h) => match text::without_prefix(h, "Bearer "@) {
            Some(t) => t,
            None => Seq::empty(),
        },
        None => Seq::empty(),
    }
}

fn bearer(header: &Option<String>) -> (r: String)
    ensures
        r@ == bearer_token(text::opt_view(*header)),
{
    match header {
        Some(h) => match strip_prefix(h.as_str(), "Bearer ") {
            Some(t) => t,
            None => String::new(),
        },
        None => String::new(),
    }
}

// ── Admission ──

/// What becomes of a request.
pub enum Admission {
    /// It is served, on behalf of the holder of a token where one was asked for.
    Pass(Option<Claims>),
    /// There were too many of the same client.
    TooMany,
    /// The token is missing or not valid.
    Unauthorized,
}

/// What is said to a client that asks too often.
pub const RATE_LIMITED: &'static str = "Rate limit exceeded. Try again in a minute.";

/// What is said to a client without a valid token.
pub const NO_TOKEN: &'static str = "Invalid or missing token.";

/// What is said to a client with a wrong name or password.
pub const WRONG_LOGIN: &'static str = "Invalid credentials.";

/// What becomes of a request, given whether its client may ask again, whether
/// tokens are asked for, and what its token says.
pub fn admission(allowed: bool, auth_enabled: bool, claims: Option<Claims>) -> (r: Admission)
    ensures
        match r {
            Admission::TooMany => !allowed,
            Admission::Unauthorized => allowed && auth_enabled && claims is None,
            Admission::Pass(c) => allowed && if auth_enabled {
                claims is Some && c == claims
            } else {
                c is None
            },
        },
{
    if !allowed {
        return Admission::TooMany;
    }
    if !auth_enabled {
        return Admission::Pass(None);
    }
    match claims {
        Some(c) => Admission::Pass(Some(c)),
        None => Admission::Unauthorized,
    }
}

impl Admission {
    /// The status and the message that answer a request which is not served.
    pub fn refusal(&self) -> (r: Option<(u16, String)>)
        ensures
            match *self {
                Admission::Pass(_) => r is None,
                Admission::TooMany => r matches Some(p) && p.0 == 429 && p.1@ == RATE_LIMITED@,
                Admission::Unauthorized => r matches Some(p) && p.0 == 401 && p.1@ == NO_TOKEN@,
            },
    {
        match self {
            Admission::Pass(_) => None,
            Admission::TooMany => Some((429, RATE_LIMITED.to_owned())),
            Admission::Unauthorized => Some((401, NO_TOKEN.to_owned())),
        }
    }
}

/// Of all keys, the given one alone changed: it is due later than it was, by the
/// pace at least, or was not known before and is due after two such spans.
pub open spec fn later(
    before: Map<Seq<char>, nat>,
    after: Map<Seq<char>, nat>,
    key: Seq<char>,
    pace: nat,
) -> bool {
    &&& after.contains_key(key)
    &&& after == before.insert(key, after[key])
    &&& 2 * pace <= after[key]
    &&& before.contains_key(key) ==> after[key] > before[key] && after[key] >= before[key] + pace
}

/// The guard of the service.
pub struct AuthState {
    pub limiter: Limiter,
    pub jwt_secret: String,
    pub auth_enabled: bool,
}

/// Who is known: the password of each name, and whether the holder is an
/// administrator. There is one administrator.
pub fn known_users(admin_pass: &Option<String>) -> (r: Store<(String, bool)>)
    ensures
        r.wf(),
        forall|n: Seq<char>| #[trigger] r@.contains_key(n) <==> n == "admin"@,
        r@["admin"@].0@ == text::or_default(*admin_pass, DEFAULT_PASS@),
        r@["admin"@].1,
{
    let mut users: Store<(String, bool)> = Store::new();
    users.insert("admin".to_owned(), (text_or(admin_pass, DEFAULT_PASS), true));
    users
}

/// The password of the administrator unless another one is set.
pub const DEFAULT_PASS: &'static str = "hexai-admin";

/// How long a token is valid that a login gives, in hours.
pub const LOGIN_HOURS: i64 = 24;

/// What answers a login.
pub enum LoginAnswer {
    /// A token for the user.
    Token(String),
    /// The token could not be made, and why.
    Failed(String),
    /// The name or the password is wrong.
    Denied,
}

/// A request to log in.
pub struct LoginReq {
    pub username: String,
    pub password: String,
}

impl AuthState {
    /// The guard that the settings ask for.
    pub fn new(cfg: &Config) -> (a: Self)
        ensures
            outside::per_minute(a.limiter) == if cfg.rate_limit_rpm == 0 {
                1nat
            } else {
                cfg.rate_limit_rpm as nat
            },
            outside::arrivals(a.limiter) == Map::<Seq<char>, nat>::empty(),
            a.jwt_secret@ == cfg.jwt_secret@,
            a.auth_enabled == cfg.auth_enabled,
    {
        AuthState {
            limiter: build_limiter(cfg.rate_limit_rpm),
            jwt_secret: cfg.jwt_secret.clone(),
            auth_enabled: cfg.auth_enabled,
        }
    }

    /// What becomes of a request from the given address with the given
    /// `Authorization` header. A client that has not been let through before is
    /// not refused for asking too often.
    pub fn auth_middleware(
        &mut self,
        address: &Option<String>,
        authorization: &Option<String>,
    ) -> (r: Admission)
        ensures
            final(self).jwt_secret == old(self).jwt_secret,
            final(self).auth_enabled == old(self).auth_enabled,
            outside::per_minute(final(self).limiter) == outside::per_minute(old(self).limiter),
            r is TooMany <==> outside::arrivals(final(self).limiter) == outside::arrivals(
                old(self).limiter,
            ),
            r is TooMany ==> outside::arrivals(old(self).limiter).contains_key(
                text::or_default(*address, LOCALHOST@),
            ),
            r is TooMany ==> outside::arrivals(old(self).limiter)[text::or_default(
                *address,
                LOCALHOST@,
            )] > outside::pace(old(self).limiter) * outside::per_minute(old(self).limiter),
            !(r is TooMany) ==> later(
                outside::arrivals(old(self).limiter),
                outside::arrivals(final(self).limiter),
                text::or_default(*address, LOCALHOST@),
                outside::pace(old(self).limiter),
            ),
            r is Unauthorized ==> old(self).auth_enabled && exists|now: u64|
                (#[trigger] claims_at(
                    bearer_token(text::opt_view(*authorization)),
                    old(self).jwt_secret@,
                    now,
                )) is None,
            r matches Admission::Pass(c) ==> if old(self).auth_enabled {
                c is Some && exists|now: u64|
                    claims_view(c) == #[trigger] claims_at(
                        bearer_token(text::opt_view(*authorization)),
                        old(self).jwt_secret@,
                        now,
                    )
            } else {
                c is None
            },
            r matches Admission::Pass(Some(c)) ==> c.exp >= 0 && vouches(
                bearer_token(text::opt_view(*authorization)),
                old(self).jwt_secret@,
                c@,
            ),
    {
        let key: String = text_or(address, LOCALHOST);
        let ghost due = outside::arrivals(self.limiter);
        let allowed: bool = limiter_check(&mut self.limiter, &key);
        proof {
            let now_due = outside::arrivals(self.limiter);
            assert(allowed && due.contains_key(key@) ==> now_due[key@] != due[key@]);
            assert(allowed ==> now_due != due);
        }
        if !allowed {
            return admission(false, self.auth_enabled, None);
        }
        if !self.auth_enabled {
            return admission(true, false, None);
        }
        let token: String = bearer(authorization);
        admission(true, true, verify_token(token.as_str(), self.jwt_secret.as_str()))
    }

    /// Logs a user in at the second `now`.
    pub fn login_at(&self, now: i64, req: &LoginReq, users: &Store<(String, bool)>) -> (r: LoginAnswer)
        requires
            users.wf(),
            is_date(now as int),
        ensures
            if !login_matches(*req, users@) {
                r is Denied
            } else if is_date(expiry(now as int, LOGIN_HOURS as int)) {
                r matches LoginAnswer::Token(t) && t@ == outside::jwt_token(
                    req.username@,
                    expiry(now as int, LOGIN_HOURS as int) as i64,
                    users@[req.username@].1,
                    self.jwt_secret@,
                ) && vouches(
                    t@,
                    self.jwt_secret@,
                    (
                        req.username@,
                        expiry(now as int, LOGIN_HOURS as int) as i64,
                        users@[req.username@].1,
                    ),
                )
            } else {
                r matches LoginAnswer::Failed(e) && e@ == "Internal: "@ + NO_SUCH_DATE@
            },
    {
        match users.get(req.username.as_str()) {
            Some(user) => {
                if same_text(user.0.as_str(), req.password.as_str()) {
                    match mint_token_at(
                        now,
                        req.username.as_str(),
                        user.1,
                        self.jwt_secret.as_str(),
                        LOGIN_HOURS,
                    ) {
                        Ok(token) => LoginAnswer::Token(token),
                        Err(e) => LoginAnswer::Failed(e.message()),
                    }
                } else {
                    LoginAnswer::Denied
                }
            },
            None => LoginAnswer::Denied,
        }
    }

    /// Logs a user in.
    pub fn login(&self, req: &LoginReq, users: &Store<(String, bool)>) -> (r: LoginAnswer)
        requires
            users.wf(),
        ensures
            r is Denied <==> !login_matches(*req, users@),
            r matches LoginAnswer::Token(t) ==> exists|now: int|
                0 <= now <= LAST_SECOND && is_date(#[trigger] expiry(now, LOGIN_HOURS as int)) && t@
                    == outside::jwt_token(
                    req.username@,
                    expiry(now, LOGIN_HOURS as int) as i64,
                    users@[req.username@].1,
                    self.jwt_secret@,
                ) && vouches(
                    t@,
                    self.jwt_secret@,
                    (
                        req.username@,
                        expiry(now, LOGIN_HOURS as int) as i64,
                        users@[req.username@].1,
                    ),
                ),
            r matches LoginAnswer::Failed(e) ==> e@ == "Internal: "@ + NO_SUCH_DATE@ && exists|
                now: int,
            |
                0 <= now <= LAST_SECOND && !is_date(#[trigger] expiry(now, LOGIN_HOURS as int)),
    {
        let now: i64 = unix_time();
        self.login_at(now, req, users)
    }
}

/// The name is known and the password is the right one.
pub open spec fn login_matches(req: LoginReq, users: Map<Seq<char>, (String, bool)>) -> bool {
    users.contains_key(req.username@) && users[req.username@].0@ == req.password@
}

impl LoginAnswer {
    /// The status of the answer.
    pub fn status(&self) -> (s: u16)
        ensures
            s == (match *self {
                LoginAnswer::Token(_) => 200u16,
                LoginAnswer::Failed(_) => 500u16,
                LoginAnswer::Denied => 401u16,
            }),
    {
        match self {
            LoginAnswer::Token(_) => 200,
            LoginAnswer::Failed(_) => 500,
            LoginAnswer::Denied => 401,
        }
    }
}

} // verus!
