//! The shared secret of the TURN servers, and its rotation.

use vstd::prelude::*;
use crate::clock::{now_unix_seconds, MAX_TIMESTAMP, MIN_TIMESTAMP};
use crate::random::random_alphanumeric;
use crate::text::{ascii_alnum, push_char};

verus! {

/// A secret and its validity, in seconds since the Unix epoch.
#[derive(Debug, Clone)]
pub struct SecretEntry {
    pub secret: String,
    pub created_at: i64,
    pub expires_at: i64,
}

/// How long a secret stays valid: two rotation periods, so that the previous one still works
/// while clients move to the new one.
pub open spec fn secret_lifetime(rotation_hours: u64) -> int {
    rotation_hours * 2 * 3600
}

/// A secret made at `now` can be given an expiry that the calendar represents.
pub open spec fn lifetime_fits(rotation_hours: u64, now: i64) -> bool {
    MIN_TIMESTAMP <= now && now + secret_lifetime(rotation_hours) <= MAX_TIMESTAMP
}

/// A generated secret: 32 ASCII letters and digits.
pub open spec fn is_generated_secret(s: Seq<char>) -> bool {
    &&& s.len() == 32
    &&& forall|i: int| 0 <= i < 32 ==> ascii_alnum(#[trigger] s[i])
}

/// A random secret of 32 ASCII letters and digits.
pub fn generate_secret() -> (r: String)
    ensures
        is_generated_secret(r@),
{
    let mut r = String::new();
    let mut k: usize = 0;
    while k < 32
        invariant
            k <= 32,
            r@.len() == k,
            forall|i: int| 0 <= i < k ==> ascii_alnum(#[trigger] r@[i]),
        decreases 32 - k,
    {
        let c = random_alphanumeric();
        push_char(&mut r, c);
        k = k + 1;
    }
    r
}

/// The current secret, the one it replaced, and the rotation period.
#[derive(Debug)]
pub struct SecretManager {
    current_secret: SecretEntry,
    previous_secret: Option<SecretEntry>,
    rotation_hours: u64,
}

impl SecretManager {
    /// The secret in use.
    pub closed spec fn current(&self) -> SecretEntry {
        self.current_secret
    }

    /// The secret used before the last rotation, if any.
    pub closed spec fn previous(&self) -> Option<SecretEntry> {
        self.previous_secret
    }

    /// Hours between rotations.
    pub closed spec fn period(&self) -> u64 {
        self.rotation_hours
    }

    /// A manager whose first secret is `secret`, made at `now`.
    pub fn new_at(rotation_hours: u64, secret: String, now: i64) -> (r: Self)
        requires
            lifetime_fits(rotation_hours, now),
        ensures
            r.current().secret@ == secret@,
            r.current().created_at == now,
            r.current().expires_at == now + secret_lifetime(rotation_hours),
            r.previous() is None,
            r.period() == rotation_hours,
    {
        let lifetime: i64 = (rotation_hours * 7200) as i64;
        SecretManager {
            current_secret: SecretEntry { secret, created_at: now, expires_at: now + lifetime },
            previous_secret: None,
            rotation_hours,
        }
    }

    /// A manager with a fresh random secret made now; `None` when its expiry would lie beyond
    /// the calendar.
    pub fn new(rotation_hours: u64) -> (r: Option<Self>)
        ensures
            match r {
                Some(m) => is_generated_secret(m.current().secret@)
                    && m.current().expires_at == m.current().created_at + secret_lifetime(rotation_hours)
                    && MIN_TIMESTAMP <= m.current().created_at <= MAX_TIMESTAMP
                    && m.previous() is None && m.period() == rotation_hours,
                None => exists|now: i64| MIN_TIMESTAMP <= now <= MAX_TIMESTAMP
                    && !#[trigger] lifetime_fits(rotation_hours, now),
            },
            rotation_hours == 0 ==> r is Some,
    {
        let now = now_unix_seconds();
        if rotation_hours > 1_000_000_000 || now > MAX_TIMESTAMP - (rotation_hours * 7200) as i64 {
            proof {
                if rotation_hours > 1_000_000_000 {
                    assert(!lifetime_fits(rotation_hours, MAX_TIMESTAMP));
                } else {
                    assert(!lifetime_fits(rotation_hours, now));
                }
            }
            return None;
        }
        let secret = generate_secret();
        Some(SecretManager::new_at(rotation_hours, secret, now))
    }

    /// The secret in use.
    pub fn get_current_secret(&self) -> (r: String)
        ensures
            r@ == self.current().secret@,
    {
        self.current_secret.secret.clone()
    }

    /// The secret in use with its validity.
    pub fn get_current_entry(&self) -> (r: SecretEntry)
        ensures
            r.secret@ == self.current().secret@,
            r.created_at == self.current().created_at,
            r.expires_at == self.current().expires_at,
    {
        SecretEntry {
            secret: self.current_secret.secret.clone(),
            created_at: self.current_secret.created_at,
            expires_at: self.current_secret.expires_at,
        }
    }

    /// The secret used before the last rotation, if any.
    pub fn get_previous_entry(&self) -> (r: Option<SecretEntry>)
        ensures
            match (r, self.previous()) {
                (Some(e), Some(p)) => e.secret@ == p.secret@ && e.created_at == p.created_at
                    && e.expires_at == p.expires_at,
                (None, None) => true,
                _ => false,
            },
    {
        match &self.previous_secret {
            Some(p) => Some(SecretEntry { secret: p.secret.clone(), created_at: p.created_at, expires_at: p.expires_at }),
            None => None,
        }
    }

    /// Hours between rotations.
    pub fn rotation_hours(&self) -> (r: u64)
        ensures
            r == self.period(),
    {
        self.rotation_hours
    }

    /// Replaces the secret with `secret`, made at `now`; the old one is kept as the previous
    /// secret. Gives the new entry.
    pub fn rotate_at(&mut self, secret: String, now: i64) -> (r: SecretEntry)
        requires
            lifetime_fits(old(self).period(), now),
        ensures
            final(self).current() == r,
            r.secret@ == secret@,
            r.created_at == now,
            r.expires_at == now + secret_lifetime(old(self).period()),
            final(self).previous() == Some(old(self).current()),
            final(self).period() == old(self).period(),
    {
        let lifetime: i64 = (self.rotation_hours * 7200) as i64;
        let entry = SecretEntry { secret, created_at: now, expires_at: now + lifetime };
        let fresh = SecretEntry { secret: entry.secret.clone(), created_at: now, expires_at: entry.expires_at };
        let mut old_entry = fresh;
        std::mem::swap(&mut old_entry, &mut self.current_secret);
        self.previous_secret = Some(old_entry);
        proof {
            assert(self.current_secret.secret@ == entry.secret@);
        }
        entry
    }

    /// Replaces the secret with a fresh random one made now; `None`, with nothing changed, when
    /// the new secret's expiry would lie beyond the calendar.
    pub fn rotate(&mut self) -> (r: Option<SecretEntry>)
        ensures
            match r {
                Some(e) => is_generated_secret(e.secret@)
                    && final(self).current() == e
                    && e.expires_at == e.created_at + secret_lifetime(old(self).period())
                    && MIN_TIMESTAMP <= e.created_at <= MAX_TIMESTAMP
                    && final(self).previous() == Some(old(self).current()),
                None => *final(self) == *old(self) && exists|now: i64| MIN_TIMESTAMP <= now <= MAX_TIMESTAMP
                    && !#[trigger] lifetime_fits(old(self).period(), now),
            },
            old(self).period() == 0 ==> r is Some,
            final(self).period() == old(self).period(),
    {
        let now = now_unix_seconds();
        if self.rotation_hours > 1_000_000_000 || now > MAX_TIMESTAMP - (self.rotation_hours * 7200) as i64 {
            proof {
                if self.rotation_hours > 1_000_000_000 {
                    assert(!lifetime_fits(old(self).period(), MAX_TIMESTAMP));
                } else {
                    assert(!lifetime_fits(old(self).period(), now));
                }
            }
            return None;
        }
        let secret = generate_secret();
        Some(self.rotate_at(secret, now))
    }
}

} // verus!
