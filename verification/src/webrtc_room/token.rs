//! Short-lived tokens that admit a participant to a room's signalling channel.
//!
//! A token is `{payload}.{signature}`: the payload is the claims' JSON text in URL-safe Base64,
//! the signature the URL-safe Base64 of the HMAC-SHA256 of the payload text under the secret.

use vstd::prelude::*;
use vstd::string::*;
use vstd::utf8::*;
use crate::clock::{now_unix_seconds, MAX_TIMESTAMP, MIN_TIMESTAMP};
use crate::crypto::{
    base64_url, base64_url_decode, base64_url_decoded, base64_url_encode, hmac_sha256,
    hmac_sha256_tag, is_url_safe_b64_char, string_from_utf8,
};
use crate::text::{
    after_first, before_first, chars_of, concat3, first_index_of, lemma_first_index_of, split_first,
    str_eq, string_from_chars, vec_contains_char,
};

verus! {

/// What a room token asserts.
#[derive(Debug, Clone)]
pub struct RoomTokenClaims {
    pub participant_id: String,
    pub room_id: String,
    pub display_name: String,
    pub is_creator: bool,
    pub user_id: Option<String>,
    /// Expiry, in seconds since the Unix epoch.
    pub exp: i64,
}

/// Why a token is refused.
#[derive(Debug, Clone, Copy, PartialEq, Eq, Structural)]
pub enum TokenError {
    InvalidFormat,
    InvalidSignature,
    Expired,
}

impl TokenError {
    /// The text shown for the error.
    pub fn message(&self) -> (r: String)
        ensures
            r@ == match self {
                TokenError::InvalidFormat => "Token 格式无效"@,
                TokenError::InvalidSignature => "Token 签名无效"@,
                TokenError::Expired => "Token 已过期"@,
            },
    {
        match self {
            TokenError::InvalidFormat => String::from_str("Token 格式无效"),
            TokenError::InvalidSignature => String::from_str("Token 签名无效"),
            TokenError::Expired => String::from_str("Token 已过期"),
        }
    }
}

/// The signature of `data` under the key bytes `key`.
pub open spec fn signature_of(key: Seq<u8>, data: Seq<char>) -> Seq<char> {
    base64_url(hmac_sha256(key, encode_utf8(data)))
}

/// The token that carries `payload`, signed with `key`.
pub open spec fn token_of(key: Seq<u8>, payload: Seq<char>) -> Seq<char> {
    let p = base64_url(encode_utf8(payload));
    p + "."@ + signature_of(key, p)
}

/// The outcome of checking a token: its payload text, or why it is refused. A token must have
/// exactly one `.`, a signature matching its first part, and a first part that is Base64 of UTF-8.
pub open spec fn token_verdict(key: Seq<u8>, token: Seq<char>) -> Result<Seq<char>, TokenError> {
    match after_first(token, '.') {
        None => Err(TokenError::InvalidFormat),
        Some(sig) => if sig.contains('.') {
            Err(TokenError::InvalidFormat)
        } else if sig != signature_of(key, before_first(token, '.')) {
            Err(TokenError::InvalidSignature)
        } else {
            match base64_url_decoded(before_first(token, '.')) {
                None => Err(TokenError::InvalidFormat),
                Some(b) => if valid_utf8(b) { Ok(decode_utf8(b)) } else { Err(TokenError::InvalidFormat) },
            }
        },
    }
}

/// The expiry of something issued at `now` that lives `ttl` seconds, capped at the last
/// instant the clock can represent.
pub open spec fn expiry_after(now: i64, ttl: u64) -> int {
    if now + ttl <= MAX_TIMESTAMP { now + ttl } else { MAX_TIMESTAMP as int }
}

/// Issues and checks room tokens.
pub struct RoomTokenService {
    secret: String,
    ttl_secs: u64,
}

/// The first `.` of `a + "." + b`, when `a` has none, is the one between them.
proof fn lemma_first_dot(a: Seq<char>, b: Seq<char>)
    requires
        !a.contains('.'),
    ensures
        first_index_of(a + "."@ + b, '.') == a.len(),
        before_first(a + "."@ + b, '.') == a,
        after_first(a + "."@ + b, '.') == Some(b),
{
    reveal_strlit(".");
    let s = a + "."@ + b;
    lemma_first_index_of(s, '.');
    assert(s[a.len() as int] == '.');
    let k = first_index_of(s, '.');
    if k < a.len() {
        assert(s[k] == a[k]);
        assert(a.contains('.'));
    }
    assert(s.subrange(0, a.len() as int) == a);
    assert(s.subrange(a.len() as int + 1, s.len() as int) == b);
}

impl RoomTokenService {
    /// The key bytes of the signatures.
    pub closed spec fn key(&self) -> Seq<u8> {
        encode_utf8(self.secret@)
    }

    /// Token lifetime, in seconds.
    pub closed spec fn ttl(&self) -> u64 {
        self.ttl_secs
    }

    pub fn new(secret: String, ttl_secs: u64) -> (r: Self)
        ensures
            r.key() == encode_utf8(secret@),
            r.ttl() == ttl_secs,
    {
        RoomTokenService { secret, ttl_secs }
    }

    /// Token lifetime, in seconds.
    pub fn ttl_secs(&self) -> (r: u64)
        ensures
            r == self.ttl(),
    {
        self.ttl_secs
    }

    /// The signature of `data`.
    pub fn sign(&self, data: &str) -> (r: String)
        ensures
            r@ == signature_of(self.key(), data@),
            forall|i: int| 0 <= i < r@.len() ==> is_url_safe_b64_char(#[trigger] r@[i]),
    {
        let tag = hmac_sha256_tag(self.secret.as_str().as_bytes(), data.as_bytes());
        base64_url_encode(tag.as_slice())
    }

    /// The token carrying the claims' JSON text `payload`. Checking it gives `payload` back.
    pub fn generate_token(&self, payload: &str) -> (r: String)
        requires
            payload.spec_bytes().len() <= usize::MAX / 2,
        ensures
            r@ == token_of(self.key(), payload@),
            token_verdict(self.key(), r@) == Ok::<Seq<char>, TokenError>(payload@),
    {
        let payload_b64 = base64_url_encode(payload.as_bytes());
        let signature = self.sign(payload_b64.as_str());
        let token = concat3(payload_b64.as_str(), ".", signature.as_str());
        proof {
            reveal_strlit(".");
            let p = payload_b64@;
            let s = signature@;
            assert(!p.contains('.')) by {
                if p.contains('.') {
                    let i = choose|i: int| 0 <= i < p.len() && p[i] == '.';
                    assert(is_url_safe_b64_char(p[i]));
                }
            }
            assert(!s.contains('.')) by {
                if s.contains('.') {
                    let i = choose|i: int| 0 <= i < s.len() && s[i] == '.';
                    assert(is_url_safe_b64_char(s[i]));
                }
            }
            lemma_first_dot(p, s);
            encode_utf8_valid_utf8(payload@);
            encode_utf8_decode_utf8(payload@);
        }
        token
    }

    /// Checks a token's form and signature and returns the claims' JSON text it carries.
    pub fn verify_token(&self, token: &str) -> (r: Result<String, TokenError>)
        ensures
            match token_verdict(self.key(), token@) {
                Ok(p) => r is Ok && r->Ok_0@ == p,
                Err(e) => r == Err::<String, TokenError>(e),
            },
    {
        let v = chars_of(token);
        let (head, rest) = split_first(&v, '.');
        let sig = match rest {
            None => return Err(TokenError::InvalidFormat),
            Some(s) => s,
        };
        if vec_contains_char(&sig, '.') {
            return Err(TokenError::InvalidFormat);
        }
        let payload_b64 = string_from_chars(&head);
        let signature = string_from_chars(&sig);
        let expected_signature = self.sign(payload_b64.as_str());
        if !str_eq(signature.as_str(), expected_signature.as_str()) {
            return Err(TokenError::InvalidSignature);
        }
        let payload_bytes = match base64_url_decode(payload_b64.as_str()) {
            Some(b) => b,
            None => return Err(TokenError::InvalidFormat),
        };
        match string_from_utf8(payload_bytes) {
            Some(s) => Ok(s),
            None => Err(TokenError::InvalidFormat),
        }
    }

    /// Claims whose expiry has passed are refused.
    pub fn check_expiry(claims: RoomTokenClaims, now: i64) -> (r: Result<RoomTokenClaims, TokenError>)
        ensures
            claims.exp < now ==> r == Err::<RoomTokenClaims, TokenError>(TokenError::Expired),
            claims.exp >= now ==> r == Ok::<RoomTokenClaims, TokenError>(claims),
    {
        if claims.exp < now { Err(TokenError::Expired) } else { Ok(claims) }
    }

    /// The expiry of a token issued at `now`.
    pub fn expires_at_from(&self, now: i64) -> (r: i64)
        requires
            self.ttl() <= i64::MAX / 1000,
            MIN_TIMESTAMP <= now <= MAX_TIMESTAMP,
        ensures
            r == expiry_after(now, self.ttl()),
    {
        let t = self.ttl_secs as i64;
        if now <= MAX_TIMESTAMP - t { now + t } else { MAX_TIMESTAMP }
    }

    /// The expiry of a token issued now.
    pub fn get_expires_at(&self) -> (r: i64)
        requires
            self.ttl() <= i64::MAX / 1000,
        ensures
            exists|now: i64| MIN_TIMESTAMP <= now <= MAX_TIMESTAMP && r == #[trigger] expiry_after(now, self.ttl()),
    {
        let now = now_unix_seconds();
        self.expires_at_from(now)
    }

    /// The claims of a participant, expiring `ttl` seconds after `now`.
    pub fn create_claims_at(
        &self,
        participant_id: String,
        room_id: String,
        display_name: String,
        is_creator: bool,
        user_id: Option<String>,
        now: i64,
    ) -> (r: RoomTokenClaims)
        requires
            self.ttl() <= i64::MAX / 1000,
            MIN_TIMESTAMP <= now <= MAX_TIMESTAMP,
        ensures
            r.participant_id == participant_id,
            r.room_id == room_id,
            r.display_name == display_name,
            r.is_creator == is_creator,
            r.user_id == user_id,
            r.exp == expiry_after(now, self.ttl()),
    {
        let exp = self.expires_at_from(now);
        RoomTokenClaims { participant_id, room_id, display_name, is_creator, user_id, exp }
    }

    /// The claims of a participant, expiring `ttl` seconds from now.
    pub fn create_claims(
        &self,
        participant_id: String,
        room_id: String,
        display_name: String,
        is_creator: bool,
        user_id: Option<String>,
    ) -> (r: RoomTokenClaims)
        requires
            self.ttl() <= i64::MAX / 1000,
        ensures
            r.participant_id == participant_id,
            r.room_id == room_id,
            r.display_name == display_name,
            r.is_creator == is_creator,
            r.user_id == user_id,
            exists|now: i64| MIN_TIMESTAMP <= now <= MAX_TIMESTAMP && r.exp == #[trigger] expiry_after(now, self.ttl()),
    {
        let now = now_unix_seconds();
        self.create_claims_at(participant_id, room_id, display_name, is_creator, user_id, now)
    }
}

} // verus!
