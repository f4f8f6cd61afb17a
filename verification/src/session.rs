//! Session tokens: opaque, high-entropy bearer tokens that are never stored
//! in plaintext. The store keeps only the token's SHA-256 digest, hex-encoded,
//! next to the user id and the creation time; a presented token is hashed the
//! same way and looked up by that key. Sessions expire by age alone.
use vstd::prelude::*;

use rand::RngCore;
use sha2::{Digest, Sha256};

use crate::model::{
    purge_sessions, session_expired, session_lookup, sessions_without_key, SessionModel,
};
use crate::store::{user_eq, Session, UserId};

verus! {

/// Number of days a session stays valid in the reference deployment.
pub const SESSION_DAYS: u32 = 7;

/// The SHA-256 digest of a token, as the sha2 crate computes it. The digest
/// depends on the input alone, so it carries a name; nothing else is assumed
/// about its value.
pub uninterp spec fn sha256_of(s: Seq<char>) -> Seq<u8>;

/// The lowercase hex digit of a nibble.
pub open spec fn hex_digit(n: u8) -> char {
    if n == 0 {
        '0'
    } else if n == 1 {
        '1'
    } else if n == 2 {
        '2'
    } else if n == 3 {
        '3'
    } else if n == 4 {
        '4'
    } else if n == 5 {
        '5'
    } else if n == 6 {
        '6'
    } else if n == 7 {
        '7'
    } else if n == 8 {
        '8'
    } else if n == 9 {
        '9'
    } else if n == 10 {
        'a'
    } else if n == 11 {
        'b'
    } else if n == 12 {
        'c'
    } else if n == 13 {
        'd'
    } else if n == 14 {
        'e'
    } else {
        'f'
    }
}

/// Lowercase hex encoding: two digits per byte, in order.
pub open spec fn hex_of(b: Seq<u8>) -> Seq<char>
    decreases b.len(),
{
    if b.len() == 0 {
        Seq::empty()
    } else {
        hex_of(b.drop_last()) + seq![hex_digit(b.last() / 16), hex_digit(b.last() % 16)]
    }
}

/// The key under which a session token is stored: the hex-encoded SHA-256
/// digest of the token.
pub open spec fn session_key_of(token: Seq<char>) -> Seq<char> {
    hex_of(sha256_of(token))
}

/// Relies on rand's `thread_rng`/`fill_bytes`: 16 bytes from a
/// cryptographically strong source. Nothing is promised of their values.
#[verifier::external_body]
pub(crate) fn random_token_bytes() -> (r: Vec<u8>)
    ensures
        r@.len() == 16,
{
    let mut buf = [0u8; 16];
    rand::thread_rng().fill_bytes(&mut buf);
    buf.to_vec()
}

/// Relies on sha2's `Sha256::digest`: a 32-byte digest that depends on the
/// input alone.
#[verifier::external_body]
pub(crate) fn sha256_digest(s: &str) -> (r: Vec<u8>)
    ensures
        r@ == sha256_of(s@),
        r@.len() == 32,
{
    Sha256::digest(s.as_bytes()).to_vec()
}

/// Relies on base16ct's `lower::encode_string`: two lowercase hex digits per
/// input byte, in input order. It panics above `usize::MAX / 2` input bytes,
/// so that length is excluded.
#[verifier::external_body]
pub(crate) fn hex_lower(b: &Vec<u8>) -> (r: String)
    requires
        b@.len() * 2 <= usize::MAX,
    ensures
        r@ == hex_of(b@),
{
    base16ct::lower::encode_string(b.as_slice())
}

/// The storage key of a presented token: hex-encoded SHA-256.
pub fn session_key(token: &str) -> (r: String)
    ensures
        r@ == session_key_of(token@),
{
    let digest = sha256_digest(token);
    hex_lower(&digest)
}

/// The resolved identity policy: a session grants access to a row only when
/// the row's owner is the session's user.
pub fn authz(session: &Session, user_id: &UserId) -> (r: bool)
    ensures
        r == (session.user_id@ == user_id@),
{
    user_eq(&session.user_id, user_id)
}

// ---------------------------------------------------------------------------
// Laws of the session store.

/// Appending a session changes a lookup only where the key found nothing yet.
pub proof fn lemma_session_lookup_push(s: Seq<SessionModel>, y: SessionModel, key: Seq<char>)
    ensures
        session_lookup(s.push(y), key) == if session_lookup(s, key) is Some {
            session_lookup(s, key)
        } else if y.key == key {
            Some(y)
        } else {
            None
        },
    decreases s.len(),
{
    if s.len() == 0 {
        assert(s.push(y)[0] == y);
    } else {
        assert(s.push(y)[0] == s[0]);
        assert(s.push(y).skip(1) =~= s.skip(1).push(y));
        lemma_session_lookup_push(s.skip(1), y, key);
    }
}

/// A lookup finds nothing exactly when no stored session has the key.
pub proof fn lemma_session_lookup_none(s: Seq<SessionModel>, key: Seq<char>)
    ensures
        session_lookup(s, key) is None <==> forall|i: int|
            0 <= i < s.len() ==> (#[trigger] s[i]).key != key,
    decreases s.len(),
{
    if s.len() > 0 {
        lemma_session_lookup_none(s.skip(1), key);
        if s[0].key != key {
            assert(forall|i: int| 1 <= i < s.len() ==> s.skip(1)[i - 1] == s[i]);
            if session_lookup(s, key) is Some {
                let i = choose|i: int| 0 <= i < s.skip(1).len() && (#[trigger] s.skip(1)[i]).key
                    == key;
                assert(s[i + 1].key == key);
            }
        }
    }
}

/// Session round trip: a freshly created session is found under its key, and
/// after deletion by that key nothing is found under it any more.
pub proof fn lemma_session_round_trip(
    s: Seq<SessionModel>,
    key: Seq<char>,
    user: Seq<char>,
    created_at: u64,
)
    ensures
        session_lookup(seq![SessionModel { key, user, created_at }] + s, key) == Some(
            SessionModel { key, user, created_at },
        ),
        session_lookup(sessions_without_key(s, key), key) is None,
{
    let m = SessionModel { key, user, created_at };
    assert((seq![m] + s)[0] == m);
    lemma_removed_key_unresolvable(s, key);
}

/// Deleting by key really removes every session stored under it.
pub proof fn lemma_removed_key_unresolvable(s: Seq<SessionModel>, key: Seq<char>)
    ensures
        session_lookup(sessions_without_key(s, key), key) is None,
    decreases s.len(),
{
    if s.len() > 0 {
        lemma_removed_key_unresolvable(s.drop_last(), key);
        if s.last().key != key {
            lemma_session_lookup_push(sessions_without_key(s.drop_last(), key), s.last(), key);
        }
    }
}

/// Once every session stored under a key is expired, a purge makes the key
/// unresolvable.
pub proof fn lemma_expired_sessions_purged(
    s: Seq<SessionModel>,
    key: Seq<char>,
    now: u64,
    max_age_days: u32,
)
    requires
        forall|i: int|
            0 <= i < s.len() && (#[trigger] s[i]).key == key ==> session_expired(
                s[i],
                now,
                max_age_days,
            ),
    ensures
        session_lookup(purge_sessions(s, now, max_age_days), key) is None,
    decreases s.len(),
{
    if s.len() > 0 {
        assert(forall|i: int| 0 <= i < s.drop_last().len() ==> s.drop_last()[i] == s[i]);
        lemma_expired_sessions_purged(s.drop_last(), key, now, max_age_days);
        if !session_expired(s.last(), now, max_age_days) {
            assert(s[s.len() - 1] == s.last());
            assert(s.last().key != key);
            lemma_session_lookup_push(
                purge_sessions(s.drop_last(), now, max_age_days),
                s.last(),
                key,
            );
        }
    }
}

/// A session that is not yet expired survives a purge and still resolves to
/// the same row.
pub proof fn lemma_unexpired_session_survives_purge(
    s: Seq<SessionModel>,
    key: Seq<char>,
    now: u64,
    max_age_days: u32,
)
    requires
        session_lookup(s, key) matches Some(x) && !session_expired(x, now, max_age_days),
    ensures
        session_lookup(purge_sessions(s, now, max_age_days), key) == session_lookup(s, key),
    decreases s.len(),
{
    let d = s.drop_last();
    let l = s.last();
    assert(s =~= d.push(l));
    lemma_session_lookup_push(d, l, key);
    if session_lookup(d, key) is Some {
        lemma_unexpired_session_survives_purge(d, key, now, max_age_days);
        if !session_expired(l, now, max_age_days) {
            lemma_session_lookup_push(purge_sessions(d, now, max_age_days), l, key);
        }
    } else {
        assert(l.key == key && session_lookup(s, key) == Some(l));
        assert(!session_expired(l, now, max_age_days));
        lemma_session_lookup_none(d, key);
        assert forall|i: int|
            0 <= i < d.len() && (#[trigger] d[i]).key == key implies session_expired(
            d[i],
            now,
            max_age_days,
        ) by {}
        lemma_expired_sessions_purged(d, key, now, max_age_days);
        lemma_session_lookup_push(purge_sessions(d, now, max_age_days), l, key);
    }
}

/// The expiry sweep is idempotent: running it again at the same time removes
/// nothing more.
pub proof fn lemma_purge_idempotent(s: Seq<SessionModel>, now: u64, max_age_days: u32)
    ensures
        purge_sessions(purge_sessions(s, now, max_age_days), now, max_age_days) == purge_sessions(
            s,
            now,
            max_age_days,
        ),
    decreases s.len(),
{
    if s.len() > 0 {
        lemma_purge_idempotent(s.drop_last(), now, max_age_days);
        if !session_expired(s.last(), now, max_age_days) {
            let kept = purge_sessions(s.drop_last(), now, max_age_days);
            assert(kept.push(s.last()).drop_last() =~= kept);
            assert(purge_sessions(kept, now, max_age_days).push(s.last()).drop_last()
                =~= purge_sessions(kept, now, max_age_days));
        }
    }
}

/// Deleting by key is idempotent: a second deletion of the same key removes
/// nothing more.
pub proof fn lemma_delete_session_idempotent(s: Seq<SessionModel>, key: Seq<char>)
    ensures
        sessions_without_key(sessions_without_key(s, key), key) == sessions_without_key(s, key),
    decreases s.len(),
{
    if s.len() > 0 {
        lemma_delete_session_idempotent(s.drop_last(), key);
        if s.last().key != key {
            let kept = sessions_without_key(s.drop_last(), key);
            assert(kept.push(s.last()).drop_last() =~= kept);
            assert(sessions_without_key(kept, key).push(s.last()).drop_last()
                =~= sessions_without_key(kept, key));
        }
    }
}

/// The age bounds of the expiry rule: one day before the cutoff a session is
/// not expired, one day past it it is.
pub proof fn lemma_session_age_bounds(x: SessionModel, max_age_days: u32)
    requires
        max_age_days >= 1,
        x.created_at + (max_age_days + 1) * 86400 <= u64::MAX,
    ensures
        !session_expired(
            x,
            (x.created_at + (max_age_days - 1) * 86400) as u64,
            max_age_days,
        ),
        session_expired(x, (x.created_at + (max_age_days + 1) * 86400) as u64, max_age_days),
{
}

} // verus!
