//! The agent's settings, from the values of its environment variables.

use vstd::prelude::*;
use vstd::string::*;
use crate::random::{is_uuid_text, new_uuid_v4};
use crate::text::{chars_of, concat2, contains_str, seq_contains_seq, str_eq, string_from_range};

verus! {

/// The values of the agent's environment variables; `None` for one that is not set.
#[derive(Debug, Clone)]
pub struct AgentEnv {
    pub public_ip: Option<String>,
    pub coordinator_url: Option<String>,
    pub coordinator_token: Option<String>,
    pub node_id: Option<String>,
    pub region: Option<String>,
    pub turn_port: Option<String>,
    pub turn_tls_port: Option<String>,
    pub relay_min_port: Option<String>,
    pub relay_max_port: Option<String>,
    pub heartbeat_interval: Option<String>,
}

/// The agent's settings.
#[derive(Debug, Clone)]
pub struct AgentConfig {
    pub node_id: String,
    pub region: String,
    pub public_ip: String,
    pub coordinator_url: String,
    pub coordinator_token: String,
    pub turn_port: u16,
    pub turn_tls_port: u16,
    pub relay_min_port: u16,
    pub relay_max_port: u16,
    pub heartbeat_interval: u64,
}

/// Why the settings cannot be used.
#[derive(Debug, Clone)]
pub enum ConfigError {
    /// A required variable is not set; it is named.
    Missing(String),
    /// A value is the placeholder of the example file, or empty; the text says which.
    Invalid(String),
}

impl ConfigError {
    /// The text shown for the error.
    pub fn message(&self) -> (r: String)
        ensures
            r@ == match self {
                ConfigError::Missing(name) => "缺少必填配置: "@ + name@,
                ConfigError::Invalid(what) => "配置值无效: "@ + what@,
            },
    {
        match self {
            ConfigError::Missing(name) => concat2("缺少必填配置: ", name.as_str()),
            ConfigError::Invalid(what) => concat2("配置值无效: ", what.as_str()),
        }
    }
}

/// An ASCII decimal digit.
pub open spec fn is_digit(c: char) -> bool {
    '0' <= c && c <= '9'
}

/// The value of an ASCII digit.
pub open spec fn digit_value(c: char) -> nat {
    (c as u32 - '0' as u32) as nat
}

/// The value of a string of decimal digits.
pub open spec fn digits_value(t: Seq<char>) -> nat
    decreases t.len(),
{
    if t.len() == 0 {
        0
    } else {
        digits_value(t.drop_last()) * 10 + digit_value(t.last())
    }
}

/// The digits of an unsigned number's text: what follows an optional leading `+`.
pub open spec fn unsigned_digits(s: Seq<char>) -> Seq<char> {
    if s.len() > 0 && s[0] == '+' { s.drop_first() } else { s }
}

/// The value of `s` read as an unsigned number no larger than `max`, as `str::parse` reads an
/// unsigned integer type: an optional `+`, then one or more decimal digits. `None` for any
/// other text, or a larger value.
pub open spec fn parsed_unsigned(s: Seq<char>, max: nat) -> Option<nat> {
    let t = unsigned_digits(s);
    if t.len() > 0 && (forall|i: int| 0 <= i < t.len() ==> is_digit(#[trigger] t[i])) && digits_value(t) <= max {
        Some(digits_value(t))
    } else {
        None
    }
}

proof fn lemma_capped_step(v: int, d: int, cap: int)
    requires
        v >= 0,
        0 <= d < 10,
        cap >= 1,
    ensures
        (if v < cap { v } else { cap }) * 10 + d >= cap ==> v * 10 + d >= cap,
        (if v < cap { v } else { cap }) * 10 + d < cap ==> v < cap,
{
    if v >= cap {
        assert(cap * 10 + d >= cap) by (nonlinear_arith)
            requires
                cap >= 1,
                d >= 0;
        assert(v * 10 + d >= cap) by (nonlinear_arith)
            requires
                v >= cap,
                cap >= 1,
                d >= 0;
    }
}

/// Reads `s` as an unsigned number no larger than `max` (see `parsed_unsigned`).
pub fn parse_unsigned(s: &str, max: u64) -> (r: Option<u64>)
    ensures
        match parsed_unsigned(s@, max as nat) {
            Some(v) => r == Some(v as u64),
            None => r is None,
        },
{
    let chars = chars_of(s);
    let start: usize = if chars.len() > 0 && chars[0] == '+' { 1 } else { 0 };
    let ghost t = unsigned_digits(s@);
    proof {
        assert(t =~= chars@.subrange(start as int, chars@.len() as int));
    }
    if start >= chars.len() {
        return None;
    }
    let cap: u128 = max as u128 + 1;
    let mut acc: u128 = 0;
    let mut i: usize = start;
    while i < chars.len()
        invariant
            chars@ == s@,
            start <= i <= chars@.len(),
            t == chars@.subrange(start as int, chars@.len() as int),
            t == unsigned_digits(s@),
            cap == max + 1,
            acc == if digits_value(chars@.subrange(start as int, i as int)) < cap {
                digits_value(chars@.subrange(start as int, i as int))
            } else {
                cap as nat
            },
            forall|j: int| start <= j < i ==> is_digit(#[trigger] chars@[j]),
        decreases chars.len() - i,
    {
        let c = chars[i];
        if !('0' <= c && c <= '9') {
            proof {
                assert(t[i - start] == c);
                assert(!is_digit(t[i - start]));
            }
            return None;
        }
        let d: u128 = (c as u32 - '0' as u32) as u128;
        let ghost prefix = chars@.subrange(start as int, i as int);
        proof {
            assert(chars@.subrange(start as int, i + 1).drop_last() =~= prefix);
            assert(chars@.subrange(start as int, i + 1).last() == c);
            lemma_capped_step(digits_value(prefix) as int, d as int, cap as int);
        }
        let next: u128 = acc * 10 + d;
        acc = if next >= cap { cap } else { next };
        i = i + 1;
    }
    proof {
        assert(chars@.subrange(start as int, chars@.len() as int) == t);
        assert forall|j: int| 0 <= j < t.len() implies is_digit(#[trigger] t[j]) by {
            assert(t[j] == chars@[start + j]);
        }
    }
    if acc > max as u128 {
        None
    } else {
        Some(acc as u64)
    }
}

/// A setting read as a port (`None`: unset, or not a number that fits a port).
pub fn parse_port(s: &Option<String>) -> (r: Option<u16>)
    ensures
        match s {
            Some(text) => match parsed_unsigned(text@, 65535) {
                Some(v) => r == Some(v as u16),
                None => r is None,
            },
            None => r is None,
        },
{
    match s {
        Some(text) => match parse_unsigned(text.as_str(), 65535) {
            Some(v) => Some(v as u16),
            None => None,
        },
        None => None,
    }
}

/// A setting read as a number of seconds (`None`: unset, or not a number that fits a `u64`).
pub fn parse_seconds(s: &Option<String>) -> (r: Option<u64>)
    ensures
        match s {
            Some(text) => match parsed_unsigned(text@, u64::MAX as nat) {
                Some(v) => r == Some(v as u64),
                None => r is None,
            },
            None => r is None,
        },
{
    match s {
        Some(text) => parse_unsigned(text.as_str(), u64::MAX),
        None => None,
    }
}

/// A port setting, or `default` when it is unset or unreadable.
pub open spec fn port_or(s: Option<String>, default: u16) -> u16 {
    match s {
        Some(text) => match parsed_unsigned(text@, 65535) {
            Some(v) => v as u16,
            None => default,
        },
        None => default,
    }
}

/// A seconds setting, or `default` when it is unset or unreadable.
pub open spec fn seconds_or(s: Option<String>, default: u64) -> u64 {
    match s {
        Some(text) => match parsed_unsigned(text@, u64::MAX as nat) {
            Some(v) => v as u64,
            None => default,
        },
        None => default,
    }
}

/// The error of the required settings, or none when they can be used: each must be set, and
/// must not be empty or the placeholder of the example file.
pub open spec fn required_error(env: AgentEnv) -> Option<(bool, Seq<char>)> {
    match env.public_ip {
        None => Some((true, "PUBLIC_IP"@)),
        Some(ip) => if ip@ == "你的公网IP"@ || ip@.len() == 0 {
            Some((false, "PUBLIC_IP 未配置或使用了默认值"@))
        } else {
            match env.coordinator_url {
                None => Some((true, "COORDINATOR_URL"@)),
                Some(url) => if seq_contains_seq(url@, "example.com"@) {
                    Some((false, "COORDINATOR_URL 未配置或使用了默认值"@))
                } else {
                    match env.coordinator_token {
                        None => Some((true, "COORDINATOR_TOKEN"@)),
                        Some(tok) => if tok@ == "your-agent-token-here"@ || tok@.len() == 0 {
                            Some((false, "COORDINATOR_TOKEN 未配置或使用了默认值"@))
                        } else {
                            None
                        },
                    }
                },
            }
        },
    }
}

/// `e` is the error that `required_error` describes.
pub open spec fn is_error(e: ConfigError, d: (bool, Seq<char>)) -> bool {
    if d.0 {
        e matches ConfigError::Missing(name) && name@ == d.1
    } else {
        e matches ConfigError::Invalid(what) && what@ == d.1
    }
}

/// The settings from `env`, all required ones present and usable (see `required_error`).
/// `fallback_node_id` is the node id when `NODE_ID` is unset.
pub open spec fn settings_of(env: AgentEnv, fallback_node_id: Seq<char>, c: AgentConfig) -> bool {
    &&& c.public_ip@ == env.public_ip->0@
    &&& c.coordinator_url@ == env.coordinator_url->0@
    &&& c.coordinator_token@ == env.coordinator_token->0@
    &&& c.node_id@ == match env.node_id { Some(n) => n@, None => fallback_node_id }
    &&& c.region@ == match env.region { Some(r) => r@, None => "unknown"@ }
    &&& c.turn_port == port_or(env.turn_port, 3478)
    &&& c.turn_tls_port == port_or(env.turn_tls_port, 5349)
    &&& c.relay_min_port == port_or(env.relay_min_port, 49152)
    &&& c.relay_max_port == port_or(env.relay_max_port, 65535)
    &&& c.heartbeat_interval == seconds_or(env.heartbeat_interval, 5)
}

/// The node id an agent takes when none is set: `turn-` and the first eight hexadecimal
/// digits of a random UUID.
pub open spec fn is_generated_node_id(s: Seq<char>) -> bool {
    exists|u: Seq<char>| is_uuid_text(u) && s == "turn-"@ + #[trigger] u.take(8)
}

impl AgentConfig {
    /// The settings from the environment's values, with `fallback_node_id` as the node id when
    /// none is set.
    pub fn from_env_with(env: AgentEnv, fallback_node_id: String) -> (r: Result<AgentConfig, ConfigError>)
        ensures
            match required_error(env) {
                Some(d) => r matches Err(e) && is_error(e, d),
                None => r matches Ok(c) && settings_of(env, fallback_node_id@, c),
            },
    {
        let ghost env0 = env;
        proof {
            reveal_strlit("PUBLIC_IP");
            reveal_strlit("COORDINATOR_URL");
            reveal_strlit("COORDINATOR_TOKEN");
        }
        let public_ip = match env.public_ip {
            Some(v) => v,
            None => return Err(ConfigError::Missing(String::from_str("PUBLIC_IP"))),
        };
        if str_eq(public_ip.as_str(), "你的公网IP") || public_ip.as_str().unicode_len() == 0 {
            return Err(ConfigError::Invalid(String::from_str("PUBLIC_IP 未配置或使用了默认值")));
        }
        let coordinator_url = match env.coordinator_url {
            Some(v) => v,
            None => return Err(ConfigError::Missing(String::from_str("COORDINATOR_URL"))),
        };
        if contains_str(coordinator_url.as_str(), "example.com") {
            return Err(ConfigError::Invalid(String::from_str("COORDINATOR_URL 未配置或使用了默认值")));
        }
        let coordinator_token = match env.coordinator_token {
            Some(v) => v,
            None => return Err(ConfigError::Missing(String::from_str("COORDINATOR_TOKEN"))),
        };
        if str_eq(coordinator_token.as_str(), "your-agent-token-here") || coordinator_token.as_str().unicode_len() == 0 {
            return Err(ConfigError::Invalid(String::from_str("COORDINATOR_TOKEN 未配置或使用了默认值")));
        }
        let node_id = match env.node_id {
            Some(v) => v,
            None => fallback_node_id,
        };
        let region = match env.region {
            Some(v) => v,
            None => String::from_str("unknown"),
        };
        let turn_port = match parse_port(&env.turn_port) { Some(v) => v, None => 3478 };
        let turn_tls_port = match parse_port(&env.turn_tls_port) { Some(v) => v, None => 5349 };
        let relay_min_port = match parse_port(&env.relay_min_port) { Some(v) => v, None => 49152 };
        let relay_max_port = match parse_port(&env.relay_max_port) { Some(v) => v, None => 65535 };
        let heartbeat_interval = match parse_seconds(&env.heartbeat_interval) { Some(v) => v, None => 5 };
        Ok(AgentConfig {
            node_id,
            region,
            public_ip,
            coordinator_url,
            coordinator_token,
            turn_port,
            turn_tls_port,
            relay_min_port,
            relay_max_port,
            heartbeat_interval,
        })
    }

    /// The settings from the environment's values; when no node id is set, one is generated
    /// (see `is_generated_node_id`).
    pub fn from_env(env: AgentEnv) -> (r: Result<AgentConfig, ConfigError>)
        ensures
            match required_error(env) {
                Some(d) => r matches Err(e) && is_error(e, d),
                None => r matches Ok(c) && exists|f: Seq<char>| is_generated_node_id(f)
                    && #[trigger] settings_of(env, f, c),
            },
    {
        let uuid = new_uuid_v4();
        let chars = chars_of(uuid.as_str());
        let head = string_from_range(&chars, 0, 8);
        let fallback = concat2("turn-", head.as_str());
        proof {
            assert(head@ == uuid@.take(8));
            assert(is_generated_node_id(fallback@));
        }
        AgentConfig::from_env_with(env, fallback)
    }
}


/// The digits of a decimal numeral are worth the number.
proof fn lemma_digits_value_dec(n: nat)
    ensures
        digits_value(crate::text::dec(n)) == n,
    decreases n,
{
    let d = crate::text::digit_char(n % 10);
    assert(digit_value(d) == n % 10);
    let s = crate::text::dec(n);
    if n >= 10 {
        lemma_digits_value_dec(n / 10);
        assert(s.drop_last() == crate::text::dec(n / 10));
        assert(s.last() == d);
        assert(digits_value(s) == digits_value(s.drop_last()) * 10 + digit_value(s.last()));
        assert(digits_value(s.drop_last()) == n / 10);
        assert(n == (n / 10) * 10 + n % 10);
    } else {
        assert(s.drop_last() =~= Seq::<char>::empty());
        assert(s.last() == d);
        assert(digits_value(s.drop_last()) == 0);
        assert(digits_value(s) == digits_value(s.drop_last()) * 10 + digit_value(s.last()));
    }
}

/// A number written in decimal is read back as itself, when it is no larger than the bound.
pub proof fn law_decimal_round_trip(n: nat, max: nat)
    requires
        n <= max,
    ensures
        parsed_unsigned(crate::text::dec(n), max) == Some(n),
{
    let s = crate::text::dec(n);
    crate::text::lemma_dec_digits(n);
    assert(s.len() > 0) by {
        if n >= 10 {
            assert(s.len() == crate::text::dec(n / 10).len() + 1);
        }
    }
    assert(s[0] != '+');
    assert(unsigned_digits(s) == s);
    assert forall|i: int| 0 <= i < s.len() implies is_digit(#[trigger] s[i]) by {}
    lemma_digits_value_dec(n);
}

} // verus!
