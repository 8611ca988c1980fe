//! Short-lived TURN credentials in the form of the TURN REST API: the user name is
//! `{expiry}:{user id}`, the password the Base64 of the HMAC-SHA1 of the user name under the
//! shared secret.

use vstd::prelude::*;
use vstd::string::*;
use vstd::utf8::*;
use crate::clock::{now_unix_seconds, MAX_TIMESTAMP, MIN_TIMESTAMP};
use crate::crypto::{base64_standard, base64_standard_encode, hmac_sha1, hmac_sha1_tag};
use crate::text::{concat3, dec_int, i64_to_string, strings_view};
use crate::turn::models::{IceServer, IceServersResponse};
use crate::turn::secrets::SecretManager;

verus! {

/// The TURN user name of `user_id` for credentials that expire at `expires_at`.
pub open spec fn turn_username(expires_at: i64, user_id: Seq<char>) -> Seq<char> {
    dec_int(expires_at as int) + ":"@ + user_id
}

/// The TURN password of `username` under `secret`.
pub open spec fn turn_credential(secret: Seq<char>, username: Seq<char>) -> Seq<char> {
    base64_standard(hmac_sha1(encode_utf8(secret), encode_utf8(username)))
}

/// The public STUN servers handed out with every answer.
pub open spec fn stun_urls() -> Seq<Seq<char>> {
    seq!["stun:stun.l.google.com:19302"@, "stun:stun1.l.google.com:19302"@]
}

/// `s` is the ICE server of a selected node with the given URLs and credentials.
pub open spec fn is_turn_server(s: IceServer, urls: Seq<Seq<char>>, username: Seq<char>, credential: Seq<char>) -> bool {
    &&& strings_view(s.urls@) == urls
    &&& s.username matches Some(u) && u@ == username
    &&& s.credential matches Some(c) && c@ == credential
    &&& s.credential_type matches Some(t) && t@ == "password"@
}

/// `s` is the public STUN server entry, with no credentials.
pub open spec fn is_stun_server(s: IceServer) -> bool {
    &&& strings_view(s.urls@) == stun_urls()
    &&& s.username is None
    &&& s.credential is None
    &&& s.credential_type is None
}

/// The Base64 of the HMAC-SHA1 of `message` under `secret`.
fn hmac_sha1_base64(secret: &str, message: &str) -> (r: String)
    ensures
        r@ == turn_credential(secret@, message@),
{
    let tag = hmac_sha1_tag(secret.as_bytes(), message.as_bytes());
    base64_standard_encode(tag.as_slice())
}

/// Issues TURN credentials valid for a fixed time in a realm.
#[derive(Debug, Clone)]
pub struct CredentialService {
    credential_ttl_secs: u64,
    realm: String,
}

/// Whether credentials issued at `now` with a lifetime of `ttl` seconds expire within the
/// calendar.
pub open spec fn credentials_fit(now: i64, ttl: u64) -> bool {
    MIN_TIMESTAMP <= now && now + ttl <= MAX_TIMESTAMP
}

impl CredentialService {
    /// Seconds that credentials stay valid.
    pub closed spec fn ttl(&self) -> u64 {
        self.credential_ttl_secs
    }

    /// The realm of the TURN servers.
    pub closed spec fn realm_view(&self) -> Seq<char> {
        self.realm@
    }

    pub fn new(credential_ttl_secs: u64, realm: String) -> (r: Self)
        ensures
            r.ttl() == credential_ttl_secs,
            r.realm_view() == realm@,
    {
        CredentialService { credential_ttl_secs, realm }
    }

    /// The ICE servers for `user_id` at `now`: one per selected node (given by its URLs, in
    /// order) with credentials under `secret` that expire `ttl` seconds after `now`, then the
    /// public STUN servers.
    pub fn generate_ice_servers_at(&self, secret: &str, user_id: &str, node_urls: Vec<Vec<String>>, now: i64)
        -> (r: IceServersResponse)
        requires
            MIN_TIMESTAMP <= now,
            now + self.ttl() <= MAX_TIMESTAMP,
        ensures
            r.expires_at == now + self.ttl(),
            r.ice_servers@.len() == node_urls@.len() + 1,
            forall|i: int| 0 <= i < node_urls@.len() ==> is_turn_server(
                #[trigger] r.ice_servers@[i],
                strings_view(node_urls@[i]@),
                turn_username(r.expires_at, user_id@),
                turn_credential(secret@, turn_username(r.expires_at, user_id@)),
            ),
            is_stun_server(r.ice_servers@[node_urls@.len() as int]),
    {
        let expires_at: i64 = now + self.credential_ttl_secs as i64;
        let stamp = i64_to_string(expires_at);
        let username = concat3(stamp.as_str(), ":", user_id);
        let credential = hmac_sha1_base64(secret, username.as_str());
        let ghost name = turn_username(expires_at, user_id@);
        let ghost cred = turn_credential(secret@, name);
        let mut ice_servers: Vec<IceServer> = Vec::new();
        let mut i: usize = 0;
        while i < node_urls.len()
            invariant
                i <= node_urls@.len(),
                ice_servers@.len() == i,
                username@ == name,
                credential@ == cred,
                forall|k: int| 0 <= k < i ==> is_turn_server(#[trigger] ice_servers@[k], strings_view(node_urls@[k]@), name, cred),
            decreases node_urls@.len() - i,
        {
            let urls = node_urls[i].clone();
            ice_servers.push(IceServer {
                urls,
                username: Some(username.clone()),
                credential: Some(credential.clone()),
                credential_type: Some(String::from_str("password")),
            });
            i = i + 1;
        }
        let stun = vec![
            String::from_str("stun:stun.l.google.com:19302"),
            String::from_str("stun:stun1.l.google.com:19302"),
        ];
        proof {
            assert(strings_view(stun@) =~= stun_urls());
        }
        ice_servers.push(IceServer { urls: stun, username: None, credential: None, credential_type: None });
        IceServersResponse { ice_servers, expires_at }
    }

    /// The ICE servers for `user_id` now, under the current secret of `secrets`; `None` when the
    /// credentials' expiry would lie beyond the calendar.
    pub fn generate_ice_servers(&self, secrets: &SecretManager, user_id: &str, node_urls: Vec<Vec<String>>)
        -> (r: Option<IceServersResponse>)
        ensures
            match r {
                Some(resp) => MIN_TIMESTAMP + self.ttl() <= resp.expires_at <= MAX_TIMESTAMP
                    && resp.ice_servers@.len() == node_urls@.len() + 1
                    && (forall|i: int| 0 <= i < node_urls@.len() ==> is_turn_server(
                        #[trigger] resp.ice_servers@[i],
                        strings_view(node_urls@[i]@),
                        turn_username(resp.expires_at, user_id@),
                        turn_credential(secrets.current().secret@, turn_username(resp.expires_at, user_id@)),
                    ))
                    && is_stun_server(resp.ice_servers@[node_urls@.len() as int]),
                None => exists|now: i64| MIN_TIMESTAMP <= now <= MAX_TIMESTAMP
                    && !#[trigger] credentials_fit(now, self.ttl()),
            },
            self.ttl() == 0 ==> r is Some,
    {
        let now = now_unix_seconds();
        if self.credential_ttl_secs > (MAX_TIMESTAMP as u64) || now > MAX_TIMESTAMP - self.credential_ttl_secs as i64 {
            proof {
                if self.credential_ttl_secs > (MAX_TIMESTAMP as u64) {
                    assert(!credentials_fit(MAX_TIMESTAMP, self.ttl()));
                } else {
                    assert(!credentials_fit(now, self.ttl()));
                }
            }
            return None;
        }
        let secret = secrets.get_current_secret();
        Some(self.generate_ice_servers_at(secret.as_str(), user_id, node_urls, now))
    }

    /// The realm of the TURN servers.
    pub fn get_realm(&self) -> (r: &str)
        ensures
            r@ == self.realm_view(),
    {
        self.realm.as_str()
    }

    /// Seconds that credentials stay valid.
    pub fn get_credential_ttl(&self) -> (r: u64)
        ensures
            r == self.ttl(),
    {
        self.credential_ttl_secs
    }
}

} // verus!
