//! The settings of the server.

use crate::text;
use crate::text::{copy_opt, parse_number, same_text, split_char, text_or, trim};
use vstd::prelude::*;

verus! {

/// The values of the environment variables that hold settings.
pub struct ConfigEnv {
    /// `HEXAI_HOST`
    pub host: Option<String>,
    /// `HEXAI_PORT`
    pub port: Option<String>,
    /// `REDIS_URL`
    pub redis_url: Option<String>,
    /// `OLLAMA_URL`
    pub ollama_url: Option<String>,
    /// `SERPER_API_KEY`
    pub serper_api_key: Option<String>,
    /// `HEXAI_DB_PATH`
    pub db_path: Option<String>,
    /// `HEXAI_JWT_SECRET`
    pub jwt_secret: Option<String>,
    /// `HEXAI_AUTH`
    pub auth: Option<String>,
    /// `HEXAI_RATE_LIMIT_RPM`
    pub rate_limit_rpm: Option<String>,
    /// `HEXAI_CORS_ORIGINS`
    pub cors_origins: Option<String>,
}

/// The settings of the server.
#[derive(Clone, Debug)]
pub struct Config {
    pub host: String,
    pub port: u16,
    pub redis_url: String,
    pub ollama_url: String,
    pub serper_api_key: Option<String>,
    pub session_ttl_secs: u64,
    pub session_max_tokens: usize,
    pub db_path: String,
    pub jwt_secret: String,
    pub auth_enabled: bool,
    /// Requests per minute and client.
    pub rate_limit_rpm: u32,
    /// Allowed origins; `*` stands for any.
    pub cors_origins: Vec<String>,
}

/// The number that the variable spells, or else `default` where it is unset or
/// spells no number up to `max`.
pub open spec fn number_or(v: Option<String>, max: nat, default: nat) -> nat {
    match v {
        Some(s) => match text::parsed_number(s@, max) {
            Some(n) => n,
            None => default,
        },
        None => default,
    }
}

/// The origins in a comma-separated list, without the space around each.
pub open spec fn origins(list: Seq<char>) -> Seq<Seq<char>> {
    text::split_on(list, ',').map_values(|o: Seq<char>| text::trimmed(o))
}

/// The variable switches a setting on.
pub open spec fn is_on(v: Option<String>) -> bool {
    v matches Some(s) && (s@ == "1"@ || s@ == "true"@)
}

/// Reads a number of at most `max` from a variable.
pub fn env_number(v: &Option<String>, max: u64, default: u64) -> (n: u64)
    requires
        default <= max,
    ensures
        n == number_or(*v, max as nat, default as nat),
        n <= max,
{
    match v {
        Some(s) => match parse_number(s.as_str(), max) {
            Some(n) => n,
            None => default,
        },
        None => default,
    }
}

fn split_origins(list: &str) -> (r: Vec<String>)
    ensures
        text::views(r@) == origins(list@),
{
    let parts: Vec<String> = split_char(list, ',');
    let mut out: Vec<String> = Vec::new();
    let mut i: usize = 0;
    while i < parts.len()
        invariant
            i <= parts@.len(),
            out@.len() == i,
            forall|j: int| 0 <= j < i ==> (#[trigger] out@[j])@ == text::trimmed(parts@[j]@),
        decreases parts@.len() - i,
    {
        out.push(trim(parts[i].as_str()));
        i = i + 1;
    }
    proof {
        let pieces = text::split_on(list@, ',');
        assert(pieces.len() == out@.len());
        assert forall|j: int| 0 <= j < out@.len() implies text::views(out@)[j] == origins(list@)[j] by {
            assert(out@[j]@ == text::trimmed(parts@[j]@));
            assert(pieces[j] == parts@[j]@);
        }
        assert(text::views(out@) =~= origins(list@));
    }
    out
}

impl Config {
    /// The settings that the environment gives: each variable where it is set
    /// and readable, and a default otherwise.
    pub fn from_env(env: &ConfigEnv) -> (c: Self)
        ensures
            c.host@ == text::or_default(env.host, "0.0.0.0"@),
            c.port == number_or(env.port, 65535, 8000),
            c.redis_url@ == text::or_default(env.redis_url, "redis://127.0.0.1:6379"@),
            c.ollama_url@ == text::or_default(env.ollama_url, "http://127.0.0.1:11434"@),
            text::opt_view(c.serper_api_key) == text::opt_view(env.serper_api_key),
            c.session_ttl_secs == 86400,
            c.session_max_tokens == 4096,
            c.db_path@ == text::or_default(env.db_path, "./hexai.db"@),
            c.jwt_secret@ == text::or_default(env.jwt_secret, "change-me-in-production"@),
            c.auth_enabled == is_on(env.auth),
            c.rate_limit_rpm == number_or(env.rate_limit_rpm, 4294967295, 60),
            text::views(c.cors_origins@) == origins(text::or_default(env.cors_origins, "*"@)),
    {
        let cors_raw: String = text_or(&env.cors_origins, "*");
        let auth_enabled: bool = match &env.auth {
            Some(v) => same_text(v.as_str(), "1") || same_text(v.as_str(), "true"),
            None => false,
        };
        Config {
            host: text_or(&env.host, "0.0.0.0"),
            port: env_number(&env.port, 65535, 8000) as u16,
            redis_url: text_or(&env.redis_url, "redis://127.0.0.1:6379"),
            ollama_url: text_or(&env.ollama_url, "http://127.0.0.1:11434"),
            serper_api_key: copy_opt(&env.serper_api_key),
            session_ttl_secs: 86400,
            session_max_tokens: 4096,
            db_path: text_or(&env.db_path, "./hexai.db"),
            jwt_secret: text_or(&env.jwt_secret, "change-me-in-production"),
            auth_enabled,
            rate_limit_rpm: env_number(&env.rate_limit_rpm, 4294967295, 60) as u32,
            cors_origins: split_origins(cors_raw.as_str()),
        }
    }
}

} // verus!
