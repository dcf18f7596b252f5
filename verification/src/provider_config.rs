//! OpenAI-compatible Provider configuration records.
//!
//! A configuration names its secret by reference only and points at an
//! endpoint that is HTTPS, or plain HTTP on a loopback host. Endpoints are
//! parsed with the `url` crate and stored in canonical form.
use crate::error::SqlitePersistenceError;
use crate::text::{
    blank, empty_string, has_control_char, has_prefix, push_char, starts_with_bytes, str_equal,
    valid_text,
};
use crate::capabilities::{ascending_indices, sorted_indices, texts};
use vstd::utf8::encode_utf8;
use vstd::prelude::*;
use vstd::string::StringSliceAdditionalSpecFns;

verus! {

/// Wire/spec identifier of a Provider configuration.
pub const PROVIDER_CONFIG_SPEC: &'static str = "nimora.provider-config/1";

/// Schema version of stored Provider configurations.
pub const PROVIDER_SCHEMA_VERSION: u32 = 1;

/// Most Provider configurations kept at once.
pub const MAX_CONFIGS: usize = 64;

/// A Provider configuration without secret material.
#[derive(Debug, Clone, PartialEq, Eq)]
pub struct ProviderConfig {
    pub spec: String,
    pub id: String,
    pub display_name: String,
    pub base_url: String,
    pub credential_reference: String,
    pub default_model: Option<String>,
    pub context_window_tokens: u64,
    pub max_output_tokens: u64,
    pub enabled: bool,
    pub revision: u64,
}

/// What the endpoint rules read of a parsed URL.
#[derive(Debug, Clone, PartialEq, Eq)]
pub struct UrlParts {
    pub scheme: String,
    pub username: String,
    pub password: Option<String>,
    /// Host serialization; an IPv6 host is written between brackets.
    pub host: Option<String>,
    /// Octets of an IPv4 host.
    pub ipv4: Option<[u8; 4]>,
    pub path: String,
    pub query: Option<String>,
    pub fragment: Option<String>,
    pub cannot_be_a_base: bool,
    /// Serialization of the URL after its path was set to the empty string.
    pub pathless: String,
}

/// What `url::Url::parse` makes of a string: `None` when it is not a URL.
pub uninterp spec fn parsed_url(input: Seq<char>) -> Option<UrlParts>;

/// Parses a URL with `url::Url::parse` and reads its components
/// (`scheme`, `username`, `password`, `host_str`, `host`, `path`, `query`,
/// `fragment`, `cannot_be_a_base`) and its serialization after
/// `set_path("")`. The result is a function of the input alone; nothing more
/// is stated of it.
#[verifier::external_body]
fn parse_url(value: &str) -> (r: Option<UrlParts>)
    ensures
        r == parsed_url(value@),
{
    let url = url::Url::parse(value).ok()?;
    let mut pathless = url.clone();
    pathless.set_path("");
    let ipv4 = match url.host() { Some(url::Host::Ipv4(a)) => Some(a.octets()), _ => None };
    Some(UrlParts {
        scheme: url.scheme().to_owned(), username: url.username().to_owned(),
        password: url.password().map(str::to_owned), host: url.host_str().map(str::to_owned),
        ipv4, path: url.path().to_owned(), query: url.query().map(str::to_owned),
        fragment: url.fragment().map(str::to_owned), cannot_be_a_base: url.cannot_be_a_base(),
        pathless: pathless.to_string(),
    })
}

// ----------------------------------------------------------------------------
// Endpoint rules
// ----------------------------------------------------------------------------

pub open spec fn ascii_lower(c: char) -> char {
    if 'A' <= c <= 'Z' {
        ((c as u32) + 32) as char
    } else {
        c
    }
}

/// `a` and `b` are equal up to ASCII case.
pub open spec fn eq_ignore_ascii_case(a: Seq<char>, b: Seq<char>) -> bool {
    a.len() == b.len() && forall|i: int| 0 <= i < a.len() ==> ascii_lower(a[i]) == ascii_lower(b[i])
}

pub open spec fn localhost() -> Seq<char> {
    seq!['l', 'o', 'c', 'a', 'l', 'h', 'o', 's', 't']
}

/// A host that may be reached over plain HTTP: `localhost` in any case, or an
/// IPv4 address in `127.0.0.0/8`.
pub open spec fn loopback_host(host: Seq<char>, ipv4: Option<[u8; 4]>) -> bool {
    eq_ignore_ascii_case(host, localhost()) || match ipv4 {
        Some(octets) => octets@[0] == 127,
        None => false,
    }
}

/// `s` without its trailing `/` characters.
pub open spec fn trim_trailing_slashes(s: Seq<char>) -> Seq<char>
    decreases s.len(),
{
    if s.len() > 0 && s.last() == '/' {
        trim_trailing_slashes(s.drop_last())
    } else {
        s
    }
}

/// The canonical endpoint of a parsed URL, or `None` when it is rejected:
/// no query, fragment or credentials, an empty or `/` path, a host, and HTTPS
/// or loopback HTTP.
pub open spec fn endpoint_of(parts: Option<UrlParts>) -> Option<Seq<char>> {
    match parts {
        None => None,
        Some(p) => {
            if p.cannot_be_a_base || p.query is Some || p.fragment is Some || p.username@.len() > 0
                || p.password is Some || (p.path@ != seq!['/'] && p.path@.len() > 0) {
                None
            } else {
                match p.host {
                    None => None,
                    Some(host) => {
                        let https = seq!['h', 't', 't', 'p', 's'];
                        let http = seq!['h', 't', 't', 'p'];
                        if p.scheme@ != https && !(p.scheme@ == http && loopback_host(
                            host@,
                            p.ipv4,
                        )) {
                            None
                        } else {
                            Some(trim_trailing_slashes(p.pathless@))
                        }
                    }
                }
            }
        }
    }
}

/// Whether `s` is `localhost` up to ASCII case.
fn is_localhost(s: &str) -> (r: bool)
    ensures
        r == eq_ignore_ascii_case(s@, localhost()),
{
    let expected = ['l', 'o', 'c', 'a', 'l', 'h', 'o', 's', 't'];
    assert(expected@ =~= localhost());
    if s.unicode_len() != 9 {
        return false;
    }
    let mut i: usize = 0;
    while i < 9
        invariant
            0 <= i <= 9,
            s@.len() == 9,
            expected@ =~= localhost(),
            forall|k: int| 0 <= k < i ==> ascii_lower(s@[k]) == ascii_lower(expected@[k]),
        decreases 9 - i,
    {
        let c = s.get_char(i);
        let lower = if 'A' <= c && c <= 'Z' {
            ((c as u32) + 32) as u8 as char
        } else {
            c
        };
        proof {
            if 'A' <= c <= 'Z' {
                assert(((c as u32) + 32) as u8 as char == ((c as u32) + 32) as char);
            }
        }
        if lower != expected[i] {
            return false;
        }
        i = i + 1;
    }
    true
}

/// `s` without its trailing `/` characters.
fn trimmed_trailing_slashes(s: &str) -> (r: String)
    ensures
        r@ == trim_trailing_slashes(s@),
{
    let mut chars: Vec<char> = Vec::new();
    for c in it: s.chars()
        invariant
            it.seq() == s@,
            chars@ == s@.take(it.index() as int),
    {
        chars.push(c);
        proof {
            assert(s@.take(it.index() + 1) =~= s@.take(it.index() as int).push(c));
        }
    }
    proof {
        assert(s@.take(s@.len() as int) =~= s@);
    }
    let mut k: usize = chars.len();
    while k > 0 && chars[k - 1] == '/'
        invariant
            0 <= k <= chars@.len(),
            chars@ == s@,
            trim_trailing_slashes(s@) == trim_trailing_slashes(s@.take(k as int)),
        decreases k,
    {
        proof {
            assert(s@.take(k as int).drop_last() =~= s@.take(k - 1));
        }
        k = k - 1;
    }
    let mut out = empty_string();
    let mut i: usize = 0;
    while i < k
        invariant
            0 <= i <= k <= chars@.len(),
            chars@ == s@,
            out@ == s@.take(i as int),
        decreases k - i,
    {
        push_char(&mut out, chars[i]);
        proof {
            assert(s@.take(i + 1) =~= s@.take(i as int).push(s@[i as int]));
        }
        i = i + 1;
    }
    out
}

/// The canonical endpoint of a parsed URL.
///
/// # Errors
///
/// Returns [`SqlitePersistenceError::InvalidProviderConfig`] for anything but
/// a base URL with a host, no credentials, query or fragment, an empty or `/`
/// path, and the `https` scheme (or `http` on a loopback host).
pub fn endpoint_from_parts(parts: &Option<UrlParts>) -> (r: Result<String, SqlitePersistenceError>)
    ensures
        match endpoint_of(*parts) {
            Some(e) => r matches Ok(s) && s@ == e,
            None => r == Err::<String, SqlitePersistenceError>(
                SqlitePersistenceError::InvalidProviderConfig,
            ),
        },
{
    let p = match parts {
        Some(p) => p,
        None => return Err(SqlitePersistenceError::InvalidProviderConfig),
    };
    let slash = "/";
    proof {
        reveal_strlit("/");
        assert(slash@ =~= seq!['/']);
    }
    if p.cannot_be_a_base || p.query.is_some() || p.fragment.is_some() || p.username.as_str().unicode_len() > 0
        || p.password.is_some() || (!str_equal(p.path.as_str(), slash) && p.path.as_str().unicode_len() > 0) {
        return Err(SqlitePersistenceError::InvalidProviderConfig);
    }
    let host = match &p.host {
        Some(h) => h,
        None => return Err(SqlitePersistenceError::InvalidProviderConfig),
    };
    let loopback = is_localhost(host.as_str()) || match p.ipv4 {
        Some(octets) => octets[0] == 127,
        None => false,
    };
    let https = "https";
    let http = "http";
    proof {
        reveal_strlit("https");
        reveal_strlit("http");
        assert(https@ =~= seq!['h', 't', 't', 'p', 's']);
        assert(http@ =~= seq!['h', 't', 't', 'p']);
    }
    if !str_equal(p.scheme.as_str(), https) && !(str_equal(p.scheme.as_str(), http) && loopback) {
        return Err(SqlitePersistenceError::InvalidProviderConfig);
    }
    Ok(trimmed_trailing_slashes(p.pathless.as_str()))
}

/// Parses `value` as a URL and returns its canonical endpoint.
///
/// # Errors
///
/// Returns [`SqlitePersistenceError::InvalidProviderConfig`] when `value` is
/// not a URL or breaks the endpoint rules of [`endpoint_from_parts`].
pub fn canonical_endpoint(value: &str) -> (r: Result<String, SqlitePersistenceError>)
    ensures
        match endpoint_of(parsed_url(value@)) {
            Some(e) => r matches Ok(s) && s@ == e,
            None => r == Err::<String, SqlitePersistenceError>(
                SqlitePersistenceError::InvalidProviderConfig,
            ),
        },
{
    let parts = parse_url(value);
    endpoint_from_parts(&parts)
}

// ----------------------------------------------------------------------------
// Identifiers and references
// ----------------------------------------------------------------------------

/// Bytes allowed inside a colon-separated segment: `a-z`, `0-9`, `-`, `_`, `.`.
pub open spec fn segment_byte(b: u8) -> bool {
    (0x61 <= b <= 0x7a) || (0x30 <= b <= 0x39) || b == 0x2d || b == 0x5f || b == 0x2e
}

/// Length of the colon-free run at the end of `s`.
pub open spec fn trailing_run(s: Seq<u8>) -> nat
    decreases s.len(),
{
    if s.len() == 0 || s.last() == 0x3a {
        0
    } else {
        trailing_run(s.drop_last()) + 1
    }
}

/// `s` holds `::` at `i`.
pub open spec fn colons_at(s: Seq<u8>, i: int) -> bool {
    s[i] == 0x3a && s[i + 1] == 0x3a
}

/// Splitting `s` at every `:` gives only non-empty segments of at most `max`
/// allowed bytes.
pub open spec fn colon_segments_ok(s: Seq<u8>, max: int) -> bool {
    &&& s.len() > 0
    &&& s[0] != 0x3a
    &&& s.last() != 0x3a
    &&& forall|i: int| 0 <= i < s.len() - 1 ==> !#[trigger] colons_at(s, i)
    &&& forall|i: int| 0 <= i < s.len() && s[i] != 0x3a ==> segment_byte(s[i])
    &&& forall|n: int| 0 < n <= s.len() ==> #[trigger] trailing_run(s.take(n)) <= max
}

/// `provider:openai-compatible:` as bytes.
pub open spec fn provider_id_prefix() -> Seq<u8> {
    seq![
        0x70u8, 0x72, 0x6f, 0x76, 0x69, 0x64, 0x65, 0x72, 0x3a, 0x6f, 0x70, 0x65, 0x6e, 0x61, 0x69,
        0x2d, 0x63, 0x6f, 0x6d, 0x70, 0x61, 0x74, 0x69, 0x62, 0x6c, 0x65, 0x3a,
    ]
}

/// `secret:provider:` as bytes.
pub open spec fn secret_reference_prefix() -> Seq<u8> {
    seq![
        0x73u8, 0x65, 0x63, 0x72, 0x65, 0x74, 0x3a, 0x70, 0x72, 0x6f, 0x76, 0x69, 0x64, 0x65,
        0x72, 0x3a,
    ]
}

/// A Provider identifier: `provider:openai-compatible:...`, at most 128
/// bytes, segments of at most 64 allowed bytes.
pub open spec fn provider_id_ok(id: Seq<u8>) -> bool {
    has_prefix(id, provider_id_prefix()) && id.len() <= 128 && colon_segments_ok(id, 64)
}

/// A credential reference: `secret:provider:...`, at most 160 bytes,
/// segments of at most 64 allowed bytes.
pub open spec fn secret_reference_ok(reference: Seq<u8>) -> bool {
    has_prefix(reference, secret_reference_prefix()) && reference.len() <= 160
        && colon_segments_ok(reference, 64)
}

/// Whether every `:`-separated segment of `bytes` is non-empty and made of at
/// most `max` allowed bytes.
fn colon_segments_valid(bytes: &[u8], max: usize) -> (r: bool)
    ensures
        r == colon_segments_ok(bytes@, max as int),
{
    let s = Ghost(bytes@);
    if bytes.len() == 0 || bytes[0] == 0x3a || bytes[bytes.len() - 1] == 0x3a {
        return false;
    }
    let mut run: usize = 0;
    let mut i: usize = 0;
    while i < bytes.len()
        invariant
            s@ == bytes@,
            0 <= i <= bytes@.len(),
            bytes@.len() > 0,
            bytes@[0] != 0x3a,
            run == trailing_run(bytes@.take(i as int)),
            run <= max,
            forall|k: int| 0 <= k < i - 1 ==> !#[trigger] colons_at(bytes@, k),
            forall|k: int| 0 <= k < i && bytes@[k] != 0x3a ==> segment_byte(bytes@[k]),
            forall|n: int| 0 < n <= i ==> #[trigger] trailing_run(bytes@.take(n)) <= max,
        decreases bytes@.len() - i,
    {
        let b = bytes[i];
        proof {
            assert(bytes@.take(i + 1).drop_last() =~= bytes@.take(i as int));
        }
        if b == 0x3a {
            if i > 0 && bytes[i - 1] == 0x3a {
                assert(colons_at(bytes@, i - 1));
                return false;
            }
            run = 0;
        } else {
            if !((0x61 <= b && b <= 0x7a) || (0x30 <= b && b <= 0x39) || b == 0x2d || b == 0x5f
                || b == 0x2e) {
                return false;
            }
            if run >= max {
                assert(trailing_run(bytes@.take(i + 1)) > max);
                return false;
            }
            run = run + 1;
        }
        i = i + 1;
    }
    proof {
        assert forall|k: int| 0 <= k < bytes@.len() - 1 implies !#[trigger] colons_at(bytes@, k) by {
            if k == bytes@.len() - 2 {
                assert(bytes@[k + 1] != 0x3a);
            }
        }
    }
    true
}

/// Whether `value` is a valid Provider identifier.
pub fn valid_provider_id(value: &str) -> (r: bool)
    ensures
        r == provider_id_ok(value.spec_bytes()),
{
    let prefix: [u8; 27] = [
        0x70, 0x72, 0x6f, 0x76, 0x69, 0x64, 0x65, 0x72, 0x3a, 0x6f, 0x70, 0x65, 0x6e, 0x61, 0x69,
        0x2d, 0x63, 0x6f, 0x6d, 0x70, 0x61, 0x74, 0x69, 0x62, 0x6c, 0x65, 0x3a,
    ];
    assert(prefix@ =~= provider_id_prefix());
    let bytes = value.as_bytes();
    starts_with_bytes(bytes, prefix.as_slice()) && bytes.len() <= 128 && colon_segments_valid(
        bytes,
        64,
    )
}

/// Whether `value` is a valid credential reference.
pub fn valid_secret_reference(value: &str) -> (r: bool)
    ensures
        r == secret_reference_ok(value.spec_bytes()),
{
    let prefix: [u8; 16] = [
        0x73, 0x65, 0x63, 0x72, 0x65, 0x74, 0x3a, 0x70, 0x72, 0x6f, 0x76, 0x69, 0x64, 0x65, 0x72,
        0x3a,
    ];
    assert(prefix@ =~= secret_reference_prefix());
    let bytes = value.as_bytes();
    starts_with_bytes(bytes, prefix.as_slice()) && bytes.len() <= 160 && colon_segments_valid(
        bytes,
        64,
    )
}

// ----------------------------------------------------------------------------
// Whole configurations
// ----------------------------------------------------------------------------

/// Non-blank text of at most `max` UTF-8 bytes without control characters.
pub open spec fn text_ok(s: Seq<char>, max: int) -> bool {
    !blank(s) && encode_utf8(s).len() <= max && !has_control_char(s)
}

/// A stored configuration is acceptable: known spec, valid identity and
/// reference, a display name and model name of at most 128 bytes that are not
/// blank and hold no control character, a canonical endpoint, and token
/// limits with `0 < max_output_tokens <= context_window_tokens`.
pub open spec fn config_ok(config: ProviderConfig) -> bool {
    &&& config.spec@ == PROVIDER_CONFIG_SPEC@
    &&& provider_id_ok(encode_utf8(config.id@))
    &&& text_ok(config.display_name@, 128)
    &&& endpoint_of(parsed_url(config.base_url@)) == Some(config.base_url@)
    &&& secret_reference_ok(encode_utf8(config.credential_reference@))
    &&& match config.default_model {
        Some(model) => text_ok(model@, 128),
        None => true,
    }
    &&& config.context_window_tokens > 0
    &&& config.max_output_tokens > 0
    &&& config.max_output_tokens <= config.context_window_tokens
}

/// Checks a configuration before it is stored or after it is read.
///
/// # Errors
///
/// Returns [`SqlitePersistenceError::InvalidProviderConfig`] unless
/// [`config_ok`] holds.
pub fn validate(config: &ProviderConfig) -> (r: Result<(), SqlitePersistenceError>)
    ensures
        r is Ok <==> config_ok(*config),
        r is Err ==> r == Err::<(), SqlitePersistenceError>(
            SqlitePersistenceError::InvalidProviderConfig,
        ),
{
    let spec = PROVIDER_CONFIG_SPEC;
    if !str_equal(config.spec.as_str(), spec) || !valid_provider_id(config.id.as_str())
        || !valid_text(config.display_name.as_str(), 128) {
        return Err(SqlitePersistenceError::InvalidProviderConfig);
    }
    let endpoint = match canonical_endpoint(config.base_url.as_str()) {
        Ok(endpoint) => endpoint,
        Err(e) => return Err(e),
    };
    if !str_equal(endpoint.as_str(), config.base_url.as_str()) || !valid_secret_reference(
        config.credential_reference.as_str(),
    ) {
        return Err(SqlitePersistenceError::InvalidProviderConfig);
    }
    let model_ok = match &config.default_model {
        Some(model) => valid_text(model.as_str(), 128),
        None => true,
    };
    if !model_ok || config.context_window_tokens == 0 || config.max_output_tokens == 0
        || config.max_output_tokens > config.context_window_tokens {
        return Err(SqlitePersistenceError::InvalidProviderConfig);
    }
    Ok(())
}

impl ProviderConfig {
    /// The configuration that [`ProviderConfig::new`] builds from its
    /// arguments, with `base_url` already canonical.
    pub open spec fn assembled(
        id: Seq<char>,
        display_name: Seq<char>,
        base_url: Seq<char>,
        credential_reference: Seq<char>,
        default_model: Option<String>,
        context_window_tokens: u64,
        max_output_tokens: u64,
        enabled: bool,
        config: ProviderConfig,
    ) -> bool {
        &&& config.spec@ == PROVIDER_CONFIG_SPEC@
        &&& config.id@ == id
        &&& config.display_name@ == display_name
        &&& config.base_url@ == base_url
        &&& config.credential_reference@ == credential_reference
        &&& config.default_model == default_model
        &&& config.context_window_tokens == context_window_tokens
        &&& config.max_output_tokens == max_output_tokens
        &&& config.enabled == enabled
        &&& config.revision == 0
    }

    /// Creates a canonical OpenAI-compatible Provider configuration at
    /// revision zero, without secret material.
    ///
    /// # Errors
    ///
    /// Returns [`SqlitePersistenceError::InvalidProviderConfig`] for an
    /// invalid identity, endpoint, reference, name, model or token limits.
    pub fn new(
        id: &str,
        display_name: &str,
        base_url: &str,
        credential_reference: &str,
        default_model: Option<String>,
        context_window_tokens: u64,
        max_output_tokens: u64,
        enabled: bool,
    ) -> (r: Result<Self, SqlitePersistenceError>)
        ensures
            match endpoint_of(parsed_url(base_url@)) {
                None => r == Err::<Self, SqlitePersistenceError>(
                    SqlitePersistenceError::InvalidProviderConfig,
                ),
                Some(endpoint) => match r {
                    Ok(config) => config_ok(config) && Self::assembled(
                        id@,
                        display_name@,
                        endpoint,
                        credential_reference@,
                        default_model,
                        context_window_tokens,
                        max_output_tokens,
                        enabled,
                        config,
                    ),
                    Err(e) => e == SqlitePersistenceError::InvalidProviderConfig && forall|
                        config: ProviderConfig,
                    |
                        Self::assembled(
                            id@,
                            display_name@,
                            endpoint,
                            credential_reference@,
                            default_model,
                            context_window_tokens,
                            max_output_tokens,
                            enabled,
                            config,
                        ) ==> !#[trigger] config_ok(config),
                },
            },
    {
        let base_url = match canonical_endpoint(base_url) {
            Ok(endpoint) => endpoint,
            Err(e) => return Err(e),
        };
        let config = ProviderConfig {
            spec: PROVIDER_CONFIG_SPEC.to_owned(),
            id: id.to_owned(),
            display_name: display_name.to_owned(),
            base_url,
            credential_reference: credential_reference.to_owned(),
            default_model,
            context_window_tokens,
            max_output_tokens,
            enabled,
            revision: 0,
        };
        match validate(&config) {
            Ok(()) => Ok(config),
            Err(e) => {
                proof {
                    assert forall|other: ProviderConfig|
                        Self::assembled(
                            id@,
                            display_name@,
                            config.base_url@,
                            credential_reference@,
                            config.default_model,
                            context_window_tokens,
                            max_output_tokens,
                            enabled,
                            other,
                        ) implies !#[trigger] config_ok(other) by {
                    }
                }
                Err(e)
            },
        }
    }
}

// ----------------------------------------------------------------------------
// Stored configurations
// ----------------------------------------------------------------------------

/// Largest value storage holds (`i64::MAX`).
pub const MAX_STORED: u64 = 9_223_372_036_854_775_807;

/// One row of the configuration table: its key and revision beside the payload.
#[derive(Debug, Clone, PartialEq, Eq)]
pub struct ProviderConfigRow {
    pub provider_id: String,
    pub revision: i64,
    pub schema_version: u32,
    pub config: ProviderConfig,
}

/// The mathematical content of a configuration.
pub open spec fn config_view(c: ProviderConfig) -> (
    Seq<char>,
    Seq<char>,
    Seq<char>,
    Seq<char>,
    Seq<char>,
    Option<Seq<char>>,
    u64,
    u64,
    bool,
    u64,
) {
    (
        c.spec@,
        c.id@,
        c.display_name@,
        c.base_url@,
        c.credential_reference@,
        match c.default_model {
            Some(m) => Some(m@),
            None => None,
        },
        c.context_window_tokens,
        c.max_output_tokens,
        c.enabled,
        c.revision,
    )
}

fn copy_config(c: &ProviderConfig, revision: u64) -> (r: ProviderConfig)
    ensures
        config_view(r) == config_view(ProviderConfig { revision, ..*c }),
{
    ProviderConfig {
        spec: c.spec.clone(),
        id: c.id.clone(),
        display_name: c.display_name.clone(),
        base_url: c.base_url.clone(),
        credential_reference: c.credential_reference.clone(),
        default_model: match &c.default_model {
            Some(m) => Some(m.clone()),
            None => None,
        },
        context_window_tokens: c.context_window_tokens,
        max_output_tokens: c.max_output_tokens,
        enabled: c.enabled,
        revision,
    }
}

/// Some row is keyed by the identifier.
pub open spec fn has_config(rows: Seq<ProviderConfigRow>, id: Seq<char>) -> bool {
    exists|i: int| 0 <= i < rows.len() && rows[i].provider_id@ == id
}

/// Row `i` is the first keyed by the identifier.
pub open spec fn first_config(rows: Seq<ProviderConfigRow>, id: Seq<char>, i: int) -> bool {
    &&& 0 <= i < rows.len()
    &&& rows[i].provider_id@ == id
    &&& forall|j: int| 0 <= j < i ==> #[trigger] rows[j].provider_id@ != id
}

/// No two rows share a key (the table's primary key).
pub open spec fn distinct_configs(rows: Seq<ProviderConfigRow>) -> bool {
    forall|i: int, j: int|
        0 <= i < rows.len() && 0 <= j < rows.len() && i != j ==> #[trigger] rows[i].provider_id@
            != #[trigger] rows[j].provider_id@
}

fn find_config(rows: &Vec<ProviderConfigRow>, id: &str) -> (r: Option<usize>)
    ensures
        match r {
            Some(i) => first_config(rows@, id@, i as int),
            None => !has_config(rows@, id@),
        },
{
    let mut i: usize = 0;
    while i < rows.len()
        invariant
            0 <= i <= rows@.len(),
            forall|j: int| 0 <= j < i ==> #[trigger] rows@[j].provider_id@ != id@,
        decreases rows@.len() - i,
    {
        if str_equal(rows[i].provider_id.as_str(), id) {
            return Some(i);
        }
        i = i + 1;
    }
    None
}

/// `r` is what saving a checked configuration answers, given the rows.
pub open spec fn save_answer(
    r: Result<ProviderConfig, SqlitePersistenceError>,
    rows: Seq<ProviderConfigRow>,
    config: ProviderConfig,
) -> bool {
    let stored = choose|i: int| first_config(rows, config.id@, i);
    if has_config(rows, config.id@) && rows[stored].revision < 0 {
        r == Err::<ProviderConfig, SqlitePersistenceError>(SqlitePersistenceError::InvalidProviderConfig)
    } else if has_config(rows, config.id@) && rows[stored].revision as int != config.revision as int {
        r == Err::<ProviderConfig, SqlitePersistenceError>(SqlitePersistenceError::ProviderConfigConflict)
    } else if !has_config(rows, config.id@) && config.revision != 0 {
        r == Err::<ProviderConfig, SqlitePersistenceError>(SqlitePersistenceError::ProviderConfigConflict)
    } else if !has_config(rows, config.id@) && rows.len() >= MAX_CONFIGS {
        r == Err::<ProviderConfig, SqlitePersistenceError>(SqlitePersistenceError::InvalidProviderConfig)
    } else if config.revision >= MAX_STORED {
        r == Err::<ProviderConfig, SqlitePersistenceError>(SqlitePersistenceError::InvalidProviderConfig)
    } else {
        r matches Ok(c) && config_view(c) == config_view(
            ProviderConfig { revision: (config.revision + 1) as u64, ..config },
        )
    }
}

/// The row that stores a committed configuration.
pub open spec fn stores_config(row: ProviderConfigRow, committed: ProviderConfig) -> bool {
    &&& row.provider_id@ == committed.id@
    &&& row.revision as int == committed.revision as int
    &&& row.schema_version == PROVIDER_SCHEMA_VERSION
    &&& config_view(row.config) == config_view(committed)
}

/// Creates a configuration at revision zero, or replaces the stored one whose
/// revision the configuration carries, and hands back what was committed: the
/// configuration at the next revision.
///
/// # Errors
///
/// [`SqlitePersistenceError::InvalidProviderConfig`] unless [`config_ok`];
/// then those of [`save_answer`]. The rows are then unchanged.
pub fn save_config(rows: &mut Vec<ProviderConfigRow>, config: &ProviderConfig) -> (r: Result<
    ProviderConfig,
    SqlitePersistenceError,
>)
    ensures
        !config_ok(*config) ==> r == Err::<ProviderConfig, SqlitePersistenceError>(
            SqlitePersistenceError::InvalidProviderConfig,
        ),
        config_ok(*config) ==> save_answer(r, old(rows)@, *config),
        r is Err ==> final(rows)@ == old(rows)@,
        r matches Ok(c) ==> if has_config(old(rows)@, config.id@) {
            let i = choose|i: int| first_config(old(rows)@, config.id@, i);
            final(rows)@.len() == old(rows)@.len() && stores_config(final(rows)@[i], c) && forall|j: int|
                0 <= j < old(rows)@.len() && j != i ==> #[trigger] final(rows)@[j] == old(rows)@[j]
        } else {
            final(rows)@.len() == old(rows)@.len() + 1 && final(rows)@.drop_last() == old(rows)@
                && stores_config(final(rows)@.last(), c)
        },
        distinct_configs(old(rows)@) ==> distinct_configs(final(rows)@),
{
    validate(config)?;
    let found = find_config(rows, config.id.as_str());
    let ghost stored = choose|i: int| first_config(rows@, config.id@, i);
    match found {
        Some(i) => {
            proof {
                if stored != i as int {
                    assert(first_config(rows@, config.id@, stored));
                    if stored < i {
                        assert(rows@[stored].provider_id@ != config.id@);
                    } else {
                        assert(rows@[i as int].provider_id@ != config.id@);
                    }
                }
            }
            if rows[i].revision < 0 {
                return Err(SqlitePersistenceError::InvalidProviderConfig);
            }
            if rows[i].revision as u64 != config.revision {
                return Err(SqlitePersistenceError::ProviderConfigConflict);
            }
        },
        None => {
            if config.revision != 0 {
                return Err(SqlitePersistenceError::ProviderConfigConflict);
            }
            if rows.len() >= MAX_CONFIGS {
                return Err(SqlitePersistenceError::InvalidProviderConfig);
            }
        },
    }
    if config.revision >= MAX_STORED {
        return Err(SqlitePersistenceError::InvalidProviderConfig);
    }
    let next = config.revision + 1;
    let committed = copy_config(config, next);
    let row = ProviderConfigRow {
        provider_id: config.id.clone(),
        revision: next as i64,
        schema_version: PROVIDER_SCHEMA_VERSION,
        config: copy_config(config, next),
    };
    let ghost o = rows@;
    match found {
        Some(i) => {
            rows.set(i, row);
        },
        None => {
            rows.push(row);
            proof {
                assert(rows@.drop_last() =~= o);
            }
        },
    }
    proof {
        if distinct_configs(o) {
            match found {
                Some(i) => {
                    assert forall|a: int, b: int|
                        0 <= a < rows@.len() && 0 <= b < rows@.len() && a != b implies #[trigger] rows@[a].provider_id@
                        != #[trigger] rows@[b].provider_id@ by {
                        assert(rows@[a].provider_id@ == o[a].provider_id@);
                        assert(rows@[b].provider_id@ == o[b].provider_id@);
                    }
                },
                None => {
                    assert forall|a: int, b: int|
                        0 <= a < rows@.len() && 0 <= b < rows@.len() && a != b implies #[trigger] rows@[a].provider_id@
                        != #[trigger] rows@[b].provider_id@ by {
                        if a < o.len() {
                            assert(rows@[a] == o[a]);
                        }
                        if b < o.len() {
                            assert(rows@[b] == o[b]);
                        }
                    }
                },
            }
        }
    }
    Ok(committed)
}

/// The keys of the rows.
pub open spec fn provider_ids(rows: Seq<ProviderConfigRow>) -> Seq<Seq<char>> {
    rows.map_values(|row: ProviderConfigRow| row.provider_id@)
}

/// `order` lists every row once, by ascending key (byte-wise, as storage
/// orders text).
pub open spec fn key_order(rows: Seq<ProviderConfigRow>, order: Seq<usize>) -> bool {
    ascending_indices(provider_ids(rows), order)
}

fn key_sorted(rows: &Vec<ProviderConfigRow>) -> (r: Vec<usize>)
    ensures
        key_order(rows@, r@),
{
    let mut ids: Vec<String> = Vec::new();
    let mut i: usize = 0;
    while i < rows.len()
        invariant
            0 <= i <= rows@.len(),
            ids@.len() == i,
            texts(ids@) == provider_ids(rows@.take(i as int)),
        decreases rows@.len() - i,
    {
        let ghost before = ids@;
        ids.push(rows[i].provider_id.clone());
        proof {
            assert forall|k: int| 0 <= k < i + 1 implies #[trigger] texts(ids@)[k] == provider_ids(
                rows@.take(i + 1),
            )[k] by {
                if k < i {
                    assert(ids@[k] == before[k]);
                    assert(texts(before)[k] == provider_ids(rows@.take(i as int))[k]);
                }
            }
            assert(texts(ids@) =~= provider_ids(rows@.take(i + 1)));
        }
        i = i + 1;
    }
    proof {
        assert(rows@.take(rows@.len() as int) == rows@);
    }
    sorted_indices(&ids)
}

/// What listing the configuration of a row fails with, if anything.
pub open spec fn config_row_error(row: ProviderConfigRow) -> Option<SqlitePersistenceError> {
    if row.schema_version != PROVIDER_SCHEMA_VERSION || !config_ok(row.config)
        || row.config.id@ != row.provider_id@ || row.config.revision > MAX_STORED
        || row.config.revision as int != row.revision as int {
        Some(SqlitePersistenceError::InvalidProviderConfig)
    } else {
        None
    }
}

/// `r` is what listing the rows in `order` answers: every configuration in
/// order, or the error of the first row that fails.
pub open spec fn listing_answer(
    r: Result<Vec<ProviderConfig>, SqlitePersistenceError>,
    rows: Seq<ProviderConfigRow>,
    order: Seq<usize>,
) -> bool {
    match r {
        Ok(listed) => listed@.len() == order.len() && forall|k: int|
            0 <= k < order.len() ==> config_row_error(rows[#[trigger] order[k] as int]) is None
                && config_view(listed@[k]) == config_view(rows[order[k] as int].config),
        Err(e) => exists|k: int|
            0 <= k < order.len() && config_row_error(rows[order[k] as int]) == Some(e) && forall|
                m: int,
            |
                0 <= m < k ==> config_row_error(rows[#[trigger] order[m] as int]) is None,
    }
}

fn check_config_row(row: &ProviderConfigRow) -> (r: Result<(), SqlitePersistenceError>)
    ensures
        match config_row_error(*row) {
            Some(e) => r == Err::<(), SqlitePersistenceError>(e),
            None => r is Ok,
        },
{
    if row.schema_version != PROVIDER_SCHEMA_VERSION {
        return Err(SqlitePersistenceError::InvalidProviderConfig);
    }
    validate(&row.config)?;
    if !str_equal(row.config.id.as_str(), row.provider_id.as_str()) || row.config.revision
        > MAX_STORED || row.config.revision as i64 != row.revision {
        return Err(SqlitePersistenceError::InvalidProviderConfig);
    }
    Ok(())
}

/// Lists every configuration in ascending key order, checking each row.
///
/// # Errors
///
/// [`SqlitePersistenceError::InvalidProviderConfig`] for the first listed row
/// of another schema version, that breaks [`config_ok`], or that disagrees
/// with its key or revision.
pub fn list_configs(rows: &Vec<ProviderConfigRow>) -> (r: Result<
    Vec<ProviderConfig>,
    SqlitePersistenceError,
>)
    ensures
        exists|order: Seq<usize>| key_order(rows@, order) && listing_answer(r, rows@, order),
{
    let order = key_sorted(rows);
    let mut listed: Vec<ProviderConfig> = Vec::new();
    let mut k: usize = 0;
    while k < order.len()
        invariant
            key_order(rows@, order@),
            0 <= k <= order@.len(),
            listed@.len() == k,
            forall|m: int|
                0 <= m < k ==> config_row_error(rows@[#[trigger] order@[m] as int]) is None
                    && config_view(listed@[m]) == config_view(rows@[order@[m] as int].config),
        decreases order@.len() - k,
    {
        let row = &rows[order[k]];
        match check_config_row(row) {
            Ok(()) => {
                let ghost before = listed@;
                listed.push(copy_config(&row.config, row.config.revision));
                proof {
                    assert forall|m: int| 0 <= m < k + 1 implies config_row_error(
                        rows@[#[trigger] order@[m] as int],
                    ) is None && config_view(listed@[m]) == config_view(
                        rows@[order@[m] as int].config,
                    ) by {
                        if m < k {
                            assert(listed@[m] == before[m]);
                        }
                    }
                }
            },
            Err(e) => {
                proof {
                    assert(listing_answer(Err(e), rows@, order@));
                }
                return Err(e);
            },
        }
        k = k + 1;
    }
    proof {
        assert(listing_answer(Ok(listed), rows@, order@));
    }
    Ok(listed)
}

/// `r` is what looking the identifier up answers, given the rows listed in `order`.
pub open spec fn lookup_answer(
    r: Result<Option<ProviderConfig>, SqlitePersistenceError>,
    rows: Seq<ProviderConfigRow>,
    order: Seq<usize>,
    id: Seq<char>,
) -> bool {
    match r {
        Err(e) => listing_answer(Err(e), rows, order),
        Ok(found) => (forall|k: int|
            0 <= k < order.len() ==> config_row_error(rows[#[trigger] order[k] as int]) is None)
            && match found {
            None => !has_config(rows, id),
            Some(c) => exists|i: int|
                0 <= i < rows.len() && rows[i].provider_id@ == id && config_view(c) == config_view(
                    rows[i].config,
                ),
        },
    }
}

/// Loads the configuration with the identifier, after checking every row.
///
/// # Errors
///
/// [`SqlitePersistenceError::InvalidProviderConfig`] for an invalid
/// identifier, and the errors of [`list_configs`].
pub fn get_config(rows: &Vec<ProviderConfigRow>, id: &str) -> (r: Result<
    Option<ProviderConfig>,
    SqlitePersistenceError,
>)
    ensures
        !provider_id_ok(encode_utf8(id@)) ==> r == Err::<
            Option<ProviderConfig>,
            SqlitePersistenceError,
        >(SqlitePersistenceError::InvalidProviderConfig),
        provider_id_ok(encode_utf8(id@)) ==> exists|order: Seq<usize>|
            key_order(rows@, order) && lookup_answer(r, rows@, order, id@),
{
    if !valid_provider_id(id) {
        return Err(SqlitePersistenceError::InvalidProviderConfig);
    }
    let listed = match list_configs(rows) {
        Err(e) => {
            return Err(e);
        },
        Ok(listed) => listed,
    };
    let ghost order = choose|order: Seq<usize>|
        key_order(rows@, order) && listing_answer(Ok(listed), rows@, order);
    let mut k: usize = 0;
    while k < listed.len()
        invariant
            key_order(rows@, order),
            listing_answer(Ok(listed), rows@, order),
            0 <= k <= listed@.len(),
            forall|m: int| 0 <= m < k ==> #[trigger] listed@[m].id@ != id@,
        decreases listed@.len() - k,
    {
        if str_equal(listed[k].id.as_str(), id) {
            let found = copy_config(&listed[k], listed[k].revision);
            proof {
                let i = order[k as int] as int;
                assert(config_row_error(rows@[i]) is None);
                assert(lookup_answer(Ok(Some(found)), rows@, order, id@));
            }
            return Ok(Some(found));
        }
        k = k + 1;
    }
    proof {
        assert forall|i: int| 0 <= i < rows@.len() implies #[trigger] rows@[i].provider_id@ != id@ by {
            assert(order.contains(i as usize));
            let m = choose|m: int| 0 <= m < order.len() && order[m] == i as usize;
            assert(config_row_error(rows@[order[m] as int]) is None);
            assert(listed@[m].id@ != id@);
        }
    }
    Ok(None)
}

/// Some row is keyed by the identifier at the stored revision.
pub open spec fn has_version(rows: Seq<ProviderConfigRow>, id: Seq<char>, revision: int) -> bool {
    exists|i: int| 0 <= i < rows.len() && rows[i].provider_id@ == id && rows[i].revision == revision
}

/// Deletes the configuration with the identifier at exactly the revision,
/// and tells whether it did.
///
/// # Errors
///
/// [`SqlitePersistenceError::InvalidProviderConfig`] for an invalid
/// identifier, revision 0 or a revision beyond storage range;
/// [`SqlitePersistenceError::ProviderConfigConflict`] when the configuration
/// is stored at another revision; and the errors of [`get_config`] when it
/// looks the identifier up. The rows are then unchanged.
pub fn delete_config(rows: &mut Vec<ProviderConfigRow>, id: &str, revision: u64) -> (r: Result<
    bool,
    SqlitePersistenceError,
>)
    ensures
        !provider_id_ok(encode_utf8(id@)) || revision == 0 || revision > MAX_STORED ==> r == Err::<
            bool,
            SqlitePersistenceError,
        >(SqlitePersistenceError::InvalidProviderConfig),
        r is Err || r == Ok::<bool, SqlitePersistenceError>(false) ==> final(rows)@ == old(rows)@,
        provider_id_ok(encode_utf8(id@)) && 1 <= revision <= MAX_STORED && has_version(
            old(rows)@,
            id@,
            revision as int,
        ) ==> r == Ok::<bool, SqlitePersistenceError>(true) && exists|i: int|
            0 <= i < old(rows)@.len() && old(rows)@[i].provider_id@ == id@ && old(rows)@[i].revision
                == revision as int && final(rows)@ == old(rows)@.remove(i),
        provider_id_ok(encode_utf8(id@)) && 1 <= revision <= MAX_STORED && !has_version(
            old(rows)@,
            id@,
            revision as int,
        ) ==> exists|order: Seq<usize>|
            key_order(old(rows)@, order) && match r {
                Err(SqlitePersistenceError::ProviderConfigConflict) => lookup_answer(
                    Err(SqlitePersistenceError::ProviderConfigConflict),
                    old(rows)@,
                    order,
                    id@,
                ) || (forall|k: int|
                    0 <= k < order.len() ==> config_row_error(
                        old(rows)@[#[trigger] order[k] as int],
                    ) is None) && has_config(old(rows)@, id@),
                Err(e) => lookup_answer(Err(e), old(rows)@, order, id@),
                Ok(deleted) => !deleted && lookup_answer(
                    Ok(None),
                    old(rows)@,
                    order,
                    id@,
                ),
            },
{
    if !valid_provider_id(id) || revision == 0 || revision > MAX_STORED {
        return Err(SqlitePersistenceError::InvalidProviderConfig);
    }
    let stored_revision = revision as i64;
    let mut i: usize = 0;
    while i < rows.len()
        invariant
            0 <= i <= rows@.len(),
            rows@ == old(rows)@,
            provider_id_ok(encode_utf8(id@)),
            1 <= revision <= MAX_STORED,
            stored_revision == revision as int,
            forall|j: int|
                0 <= j < i ==> !(#[trigger] rows@[j].provider_id@ == id@ && rows@[j].revision
                    == revision as int),
        decreases rows@.len() - i,
    {
        if rows[i].revision == stored_revision && str_equal(rows[i].provider_id.as_str(), id) {
            rows.remove(i);
            return Ok(true);
        }
        i = i + 1;
    }
    match get_config(rows, id) {
        Err(e) => Err(e),
        Ok(Some(_)) => {
            Err(SqlitePersistenceError::ProviderConfigConflict)
        },
        Ok(None) => Ok(false),
    }
}

/// What a save committed reads back: its row lists without error and holds
/// the configuration at the next revision.
pub proof fn law_saved_config_reads_back(
    config: ProviderConfig,
    committed: ProviderConfig,
    row: ProviderConfigRow,
)
    requires
        config_ok(config),
        config.revision < MAX_STORED,
        config_view(committed) == config_view(
            ProviderConfig { revision: (config.revision + 1) as u64, ..config },
        ),
        stores_config(row, committed),
    ensures
        config_row_error(row) is None,
        config_view(row.config) == config_view(committed),
        row.config.revision == config.revision + 1,
{
    let c = row.config;
    assert(c.default_model matches Some(m) ==> config.default_model matches Some(n) && m@ == n@);
    assert(config.default_model matches Some(n) ==> c.default_model matches Some(m) && m@ == n@);
}

/// A configuration that was saved is what loading its identifier gives back,
/// while every stored row is sound.
pub proof fn law_saved_config_is_found(
    rows: Seq<ProviderConfigRow>,
    committed: ProviderConfig,
    i: int,
    order: Seq<usize>,
    r: Result<Option<ProviderConfig>, SqlitePersistenceError>,
)
    requires
        0 <= i < rows.len(),
        stores_config(rows[i], committed),
        distinct_configs(rows),
        forall|j: int| 0 <= j < rows.len() ==> config_row_error(#[trigger] rows[j]) is None,
        key_order(rows, order),
        lookup_answer(r, rows, order, committed.id@),
    ensures
        r matches Ok(Some(found)) && config_view(found) == config_view(committed),
{
    match r {
        Err(e) => {
            let k = choose|k: int|
                0 <= k < order.len() && config_row_error(rows[order[k] as int]) == Some(e) && forall|
                    m: int,
                |
                    0 <= m < k ==> config_row_error(rows[#[trigger] order[m] as int]) is None;
            assert(order[k] < provider_ids(rows).len());
            assert(config_row_error(rows[order[k] as int]) is None);
        },
        Ok(None) => {
            assert(rows[i].provider_id@ == committed.id@);
            assert(has_config(rows, committed.id@));
        },
        Ok(Some(found)) => {
            let j = choose|j: int|
                0 <= j < rows.len() && rows[j].provider_id@ == committed.id@ && config_view(found)
                    == config_view(rows[j].config);
            if j != i {
                assert(rows[i].provider_id@ != rows[j].provider_id@);
            }
        },
    }
}

/// A save that carries a revision the store has moved past is refused as a
/// conflict.
pub proof fn law_stale_save_conflicts(rows: Seq<ProviderConfigRow>, config: ProviderConfig, i: int)
    requires
        first_config(rows, config.id@, i),
        rows[i].revision >= 0,
        rows[i].revision as int != config.revision as int,
    ensures
        forall|r: Result<ProviderConfig, SqlitePersistenceError>|
            #[trigger] save_answer(r, rows, config) ==> r == Err::<
                ProviderConfig,
                SqlitePersistenceError,
            >(SqlitePersistenceError::ProviderConfigConflict),
{
    let stored = choose|k: int| first_config(rows, config.id@, k);
    assert(first_config(rows, config.id@, stored));
    if stored < i {
        assert(rows[stored].provider_id@ != config.id@);
    } else if i < stored {
        assert(rows[i].provider_id@ != config.id@);
    }
}

} // verus!
