//! Configuration values: the loaded settings, and the override rules by
//! which an environment value (when set) wins over the YAML default.

use vstd::prelude::*;
use crate::compare::opt_text;
use crate::text::{all_digits, chars_of, digits_value, parse_unsigned, parse_unsigned_chars, str_eq};

verus! {

/// The service configuration.
pub struct Config {
    pub database_source: String,
    /// Startup gate: run pending schema migrations before seeding.
    pub database_migrate: bool,
    pub redis_addr: String,
    pub redis_password: String,
    /// RS256 private key PEM (minting).
    pub jwt_private_key: Option<String>,
    /// RS256 public key PEM (verification).
    pub jwt_public_key: Option<String>,
    pub access_token_expires_secs: i64,
    pub refresh_token_expires_secs: i64,
    pub oss: Option<OssConfig>,
}

/// The object-storage section.
pub struct OssConfig {
    pub endpoint: String,
    pub upload_host: String,
    pub download_host: String,
    pub access_key: String,
    pub secret_key: String,
    pub use_ssl: bool,
}

/// What `str::parse::<i64>` yields: an optional sign, then one or more
/// digits, the value within `i64`.
pub open spec fn parse_i64(s: Seq<char>) -> Option<i64> {
    if s.len() > 0 && s[0] == '-' {
        let d = s.drop_first();
        if d.len() > 0 && all_digits(d) && digits_value(d) <= 0x8000_0000_0000_0000 {
            Some((0 - digits_value(d)) as i64)
        } else {
            None
        }
    } else {
        match parse_unsigned(s, i64::MAX as nat) {
            Some(v) => Some(v as i64),
            None => None,
        }
    }
}

/// Parses a signed decimal (see `parse_i64`).
pub fn resolve_int_parse(s: &[char]) -> (r: Option<i64>)
    ensures
        r == parse_i64(s@),
{
    if s.len() > 0 && s[0] == '-' {
        let mut d: Vec<char> = Vec::new();
        let mut i: usize = 1;
        while i < s.len()
            invariant
                1 <= i <= s.len(),
                d@ =~= s@.subrange(1, i as int),
            decreases s.len() - i,
        {
            d.push(s[i]);
            i += 1;
        }
        assert(d@ =~= s@.drop_first());
        if d.len() > 0 && d[0] == '+' {
            // A sign after the sign is not a digit.
            assert(!all_digits(d@)) by {
                assert(!('0' <= d@[0] && d@[0] <= '9'));
            }
            return None;
        }
        assert(crate::text::unsigned_digits(d@) == d@);
        match parse_unsigned_chars(d.as_slice(), 0x8000_0000_0000_0000) {
            Some(v) => {
                if v == 0x8000_0000_0000_0000 {
                    Some(i64::MIN)
                } else {
                    let w: i64 = v as i64;
                    Some(-w)
                }
            },
            None => None,
        }
    } else {
        match parse_unsigned_chars(s, 0x7fff_ffff_ffff_ffff) {
            Some(v) => Some(v as i64),
            None => None,
        }
    }
}

/// An integer setting: a set value that parses wins, else the YAML value,
/// else the code default.
pub fn resolve_int(raw: Option<&str>, yaml: Option<i64>, default: i64) -> (r: i64)
    ensures
        r == match (match raw {
            Some(v) => parse_i64(v@),
            None => None,
        }) {
            Some(v) => v,
            None => match yaml {
                Some(y) => y,
                None => default,
            },
        },
{
    let parsed = match raw {
        Some(v) => resolve_int_parse(chars_of(v).as_slice()),
        None => None,
    };
    match parsed {
        Some(v) => v,
        None => match yaml {
            Some(y) => y,
            None => default,
        },
    }
}

/// A string setting: a set value wins verbatim (even empty), else YAML.
pub fn resolve_string(raw: Option<String>, yaml: String) -> (r: String)
    ensures
        r@ == match raw {
            Some(v) => v@,
            None => yaml@,
        },
{
    match raw {
        Some(v) => v,
        None => yaml,
    }
}

/// A boolean setting: a set value means true exactly when it is `true`
/// or `1`; unset keeps the YAML value.
pub fn resolve_bool(raw: Option<&str>, yaml: bool) -> (r: bool)
    ensures
        r == match raw {
            Some(v) => v@ == "true"@ || v@ == "1"@,
            None => yaml,
        },
{
    match raw {
        Some(v) => str_eq(v, "true") || str_eq(v, "1"),
        None => yaml,
    }
}

/// A set, non-empty value — `None` when unset or empty.
pub fn resolve_non_empty(raw: Option<String>) -> (r: Option<String>)
    ensures
        opt_text(r) == match raw {
            Some(v) => if v@.len() > 0 {
                Some(v@)
            } else {
                None
            },
            None => None,
        },
{
    match raw {
        Some(v) => non_empty(v),
        None => None,
    }
}

/// A set, non-empty value, else the (non-empty) YAML value.
pub fn resolve_non_empty_or(raw: Option<String>, yaml: Option<String>) -> (r: Option<String>)
    ensures
        opt_text(r) == match raw {
            Some(v) => if v@.len() > 0 {
                Some(v@)
            } else {
                opt_text(yaml)
            },
            None => opt_text(yaml),
        },
{
    match resolve_non_empty(raw) {
        Some(v) => Some(v),
        None => yaml,
    }
}

/// `Some(v)` when `v` is non-empty.
pub fn non_empty(v: String) -> (r: Option<String>)
    ensures
        opt_text(r) == if v@.len() > 0 {
            Some(v@)
        } else {
            None
        },
{
    if v.as_str().is_empty() {
        None
    } else {
        Some(v)
    }
}

/// The object-storage section is configured exactly when it names an
/// endpoint.
pub fn oss_config(
    endpoint: String,
    upload_host: String,
    download_host: String,
    access_key: String,
    secret_key: String,
    use_ssl: bool,
) -> (r: Option<OssConfig>)
    ensures
        r is Some <==> endpoint@.len() > 0,
        r matches Some(o) ==> o.endpoint@ == endpoint@ && o.upload_host@ == upload_host@
            && o.download_host@ == download_host@ && o.access_key@ == access_key@
            && o.secret_key@ == secret_key@ && o.use_ssl == use_ssl,
{
    if endpoint.as_str().is_empty() {
        None
    } else {
        Some(OssConfig { endpoint, upload_host, download_host, access_key, secret_key, use_ssl })
    }
}

/// The settings the YAML files give (empty texts where a file is silent).
pub struct YamlSettings {
    pub database_source: String,
    pub database_migrate: bool,
    pub redis_addr: String,
    pub redis_password: String,
    pub jwt_private_key: String,
    pub jwt_public_key: String,
    pub access_token_expires_secs: Option<i64>,
    pub refresh_token_expires_secs: Option<i64>,
    pub oss_endpoint: String,
    pub oss_upload_host: String,
    pub oss_download_host: String,
    pub oss_access_key: String,
    pub oss_secret_key: String,
    pub oss_use_ssl: bool,
}

/// The override values the environment sets.
pub struct EnvSettings {
    pub database_source: Option<String>,
    pub database_migrate: Option<String>,
    pub redis_addr: Option<String>,
    pub redis_password: Option<String>,
    pub jwt_private_key: Option<String>,
    pub jwt_public_key: Option<String>,
    pub access_token_expires_secs: Option<String>,
    pub refresh_token_expires_secs: Option<String>,
    pub oss_endpoint: Option<String>,
}

/// The access-token lifetime when nothing sets it: 15 minutes.
pub const DEFAULT_ACCESS_EXPIRES_SECS: i64 = 900;

/// The refresh-token lifetime when nothing sets it: 7 days.
pub const DEFAULT_REFRESH_EXPIRES_SECS: i64 = 604800;

/// The integer an override sets, if it parses.
pub open spec fn env_int_value(raw: Option<String>) -> Option<i64> {
    match raw {
        Some(v) => parse_i64(v@),
        None => None,
    }
}

/// An integer setting: the parsed override, else the YAML value, else the
/// default.
pub open spec fn int_setting(raw: Option<String>, yaml: Option<i64>, default: i64) -> i64 {
    match env_int_value(raw) {
        Some(v) => v,
        None => match yaml {
            Some(y) => y,
            None => default,
        },
    }
}

/// A text setting: the override when set (even empty), else the YAML.
pub open spec fn text_setting(raw: Option<String>, yaml: Seq<char>) -> Seq<char> {
    match raw {
        Some(v) => v@,
        None => yaml,
    }
}

/// A non-empty key: the override when set and non-empty, else the YAML
/// value when non-empty.
pub open spec fn key_setting(raw: Option<String>, yaml: Seq<char>) -> Option<Seq<char>> {
    match raw {
        Some(v) if v@.len() > 0 => Some(v@),
        _ => if yaml.len() > 0 {
            Some(yaml)
        } else {
            None
        },
    }
}

impl Config {
    /// The configuration the YAML files and the environment make: each
    /// override wins by its rule; the token lifetimes default to 15
    /// minutes and 7 days; object storage is configured exactly when an
    /// endpoint is (the override endpoint, when set and non-empty,
    /// replacing the file's).
    pub fn from_sources(yaml: YamlSettings, env: EnvSettings) -> (r: Config)
        ensures
            r.database_source@ == text_setting(env.database_source, yaml.database_source@),
            r.database_migrate == (match env.database_migrate {
                Some(v) => v@ == "true"@ || v@ == "1"@,
                None => yaml.database_migrate,
            }),
            r.redis_addr@ == text_setting(env.redis_addr, yaml.redis_addr@),
            r.redis_password@ == text_setting(env.redis_password, yaml.redis_password@),
            opt_text(r.jwt_private_key) == key_setting(env.jwt_private_key, yaml.jwt_private_key@),
            opt_text(r.jwt_public_key) == key_setting(env.jwt_public_key, yaml.jwt_public_key@),
            r.access_token_expires_secs == int_setting(
                env.access_token_expires_secs,
                yaml.access_token_expires_secs,
                DEFAULT_ACCESS_EXPIRES_SECS,
            ),
            r.refresh_token_expires_secs == int_setting(
                env.refresh_token_expires_secs,
                yaml.refresh_token_expires_secs,
                DEFAULT_REFRESH_EXPIRES_SECS,
            ),
            ({
                let endpoint = match env.oss_endpoint {
                    Some(v) if v@.len() > 0 => v@,
                    _ => yaml.oss_endpoint@,
                };
                &&& (r.oss is Some <==> endpoint.len() > 0)
                &&& (r.oss matches Some(o) ==> o.endpoint@ == endpoint && o.upload_host@
                    == yaml.oss_upload_host@ && o.download_host@ == yaml.oss_download_host@
                    && o.access_key@ == yaml.oss_access_key@ && o.secret_key@
                    == yaml.oss_secret_key@ && o.use_ssl == yaml.oss_use_ssl)
            }),
    {
        let access = resolve_int(
            match &env.access_token_expires_secs {
                Some(v) => Some(v.as_str()),
                None => None,
            },
            yaml.access_token_expires_secs,
            DEFAULT_ACCESS_EXPIRES_SECS,
        );
        let refresh = resolve_int(
            match &env.refresh_token_expires_secs {
                Some(v) => Some(v.as_str()),
                None => None,
            },
            yaml.refresh_token_expires_secs,
            DEFAULT_REFRESH_EXPIRES_SECS,
        );
        let migrate = resolve_bool(
            match &env.database_migrate {
                Some(v) => Some(v.as_str()),
                None => None,
            },
            yaml.database_migrate,
        );
        let endpoint = match resolve_non_empty(env.oss_endpoint) {
            Some(v) => v,
            None => yaml.oss_endpoint,
        };
        Config {
            database_source: resolve_string(env.database_source, yaml.database_source),
            database_migrate: migrate,
            redis_addr: resolve_string(env.redis_addr, yaml.redis_addr),
            redis_password: resolve_string(env.redis_password, yaml.redis_password),
            jwt_private_key: resolve_non_empty_or(env.jwt_private_key, non_empty(yaml.jwt_private_key)),
            jwt_public_key: resolve_non_empty_or(env.jwt_public_key, non_empty(yaml.jwt_public_key)),
            access_token_expires_secs: access,
            refresh_token_expires_secs: refresh,
            oss: oss_config(
                endpoint,
                yaml.oss_upload_host,
                yaml.oss_download_host,
                yaml.oss_access_key,
                yaml.oss_secret_key,
                yaml.oss_use_ssl,
            ),
        }
    }
}

/// The Redis URL of an address and password: `redis://:{password}@{addr}/`.
pub fn redis_url(password: &str, addr: &str) -> (r: String)
    ensures
        r@ == "redis://:"@ + password@ + "@"@ + addr@ + "/"@,
{
    let mut v = chars_of("redis://:");
    crate::text::push_str(&mut v, password);
    crate::text::push_str(&mut v, "@");
    crate::text::push_str(&mut v, addr);
    crate::text::push_str(&mut v, "/");
    crate::text::string_of(v.as_slice())
}

/// The minting key: the configured private key, which minting requires.
pub fn mint_key(private_key: Option<String>) -> (r: Result<String, String>)
    ensures
        match private_key {
            Some(k) => r matches Ok(v) && v@ == k@,
            None => r matches Err(e) && e@ == "auth.yaml private_key missing (RS256 minting requires it)"@,
        },
{
    match private_key {
        Some(k) => Ok(k),
        None => Err("auth.yaml private_key missing (RS256 minting requires it)".to_owned()),
    }
}

/// The connections the database pool keeps open.
pub const DB_POOL_CONNECTIONS: u32 = 25;

/// How long a database connect may take, in seconds.
pub const DB_CONNECT_TIMEOUT_SECS: u64 = 10;

/// The region object storage is addressed in.
pub const OSS_REGION: &'static str = "us-east-1";

/// The content buckets objects are routed into.
pub fn oss_bucket_names() -> (r: Vec<String>)
    ensures
        r@.map_values(|s: String| s@) == seq!["images"@, "videos"@, "audios"@, "docs"@, "files"@],
{
    let mut v: Vec<String> = Vec::new();
    v.push("images".to_owned());
    v.push("videos".to_owned());
    v.push("audios".to_owned());
    v.push("docs".to_owned());
    v.push("files".to_owned());
    assert(v@.map_values(|s: String| s@) =~= seq!["images"@, "videos"@, "audios"@, "docs"@, "files"@]);
    v
}

} // verus!
