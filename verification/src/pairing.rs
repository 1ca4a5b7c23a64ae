//! Pairing of users with platforms by one-time codes.
//!
//! An unknown user asks for an 8-character code from an alphabet without
//! look-alike characters; the bot owner approves the code. Only a salted
//! SHA-256 digest of a code is kept. Codes expire after an hour, a platform
//! holds at most three live codes, a user may ask once per ten minutes, and
//! five failed approvals lock a platform's approvals for an hour.

use vstd::prelude::*;

use sha2::Digest;

use crate::clock::unix_now_secs;
use crate::entropy::{random_below, random_salt};
use crate::platform::push_str;
use crate::strmap::StrMap;
use crate::text::{chars_of, push_char, to_uppercase, trim, trim_str, uppercase};

verus! {

/// Characters of a code.
pub const CODE_LENGTH: usize = 8;

/// Seconds a code stays valid.
pub const CODE_TTL_SECONDS: u64 = 3600;

/// Seconds between two code requests of one user.
pub const RATE_LIMIT_SECONDS: u64 = 600;

/// Seconds approvals stay locked after too many failures.
pub const LOCKOUT_SECONDS: u64 = 3600;

/// Live codes a platform may hold.
pub const MAX_PENDING_PER_PLATFORM: usize = 3;

/// Failed approvals in a row that lock a platform.
pub const MAX_FAILED_ATTEMPTS: u64 = 5;

/// The code alphabet: capitals and digits without 0, O, 1 and I.
pub open spec fn in_alphabet(c: char) -> bool {
    ('A' <= c <= 'Z' && c != 'I' && c != 'O') || ('2' <= c <= '9')
}

/// Letters in the code alphabet.
pub const ALPHABET_SIZE: usize = 32;

/// The `k`-th letter of the alphabet `ABCDEFGHJKLMNPQRSTUVWXYZ23456789`.
fn alphabet_char(k: usize) -> (c: char)
    requires
        k < ALPHABET_SIZE,
    ensures
        in_alphabet(c),
{
    match k {
        0 => 'A',
        1 => 'B',
        2 => 'C',
        3 => 'D',
        4 => 'E',
        5 => 'F',
        6 => 'G',
        7 => 'H',
        8 => 'J',
        9 => 'K',
        10 => 'L',
        11 => 'M',
        12 => 'N',
        13 => 'P',
        14 => 'Q',
        15 => 'R',
        16 => 'S',
        17 => 'T',
        18 => 'U',
        19 => 'V',
        20 => 'W',
        21 => 'X',
        22 => 'Y',
        23 => 'Z',
        24 => '2',
        25 => '3',
        26 => '4',
        27 => '5',
        28 => '6',
        29 => '7',
        30 => '8',
        _ => '9',
    }
}

/// What `sha2::Sha256` over the salt then the code's UTF-8 bytes gives,
/// written as lower-case hex.
pub uninterp spec fn code_digest(code: Seq<char>, salt: Seq<u8>) -> Seq<char>;

/// The lower-case hex digit of a value below 16.
pub open spec fn hex_digit(d: u8) -> char {
    if d < 10 {
        (('0' as u8) + d) as char
    } else {
        (('a' as u8) + d - 10) as char
    }
}

/// The value of a hex digit of either case, if it is one.
pub open spec fn hex_value(c: char) -> Option<u8> {
    if '0' <= c <= '9' {
        Some(((c as u32) - ('0' as u32)) as u8)
    } else if 'a' <= c <= 'f' {
        Some(((c as u32) - ('a' as u32) + 10) as u8)
    } else if 'A' <= c <= 'F' {
        Some(((c as u32) - ('A' as u32) + 10) as u8)
    } else {
        None
    }
}

/// What `hex::encode` writes for bytes: two lower-case hex digits per byte,
/// high half first.
pub open spec fn hex_text(b: Seq<u8>) -> Seq<char>
    decreases b.len(),
{
    if b.len() == 0 {
        Seq::empty()
    } else {
        seq![hex_digit(b[0] / 16), hex_digit(b[0] % 16)] + hex_text(b.skip(1))
    }
}

/// What `hex::decode` reads from a text: each pair of hex digits (of either
/// case) is a byte; `None` for an odd length or a character that is not a
/// hex digit.
pub open spec fn hex_bytes(s: Seq<char>) -> Option<Seq<u8>>
    decreases s.len(),
{
    if s.len() == 0 {
        Some(Seq::empty())
    } else if s.len() == 1 {
        None
    } else {
        match (hex_value(s[0]), hex_value(s[1]), hex_bytes(s.skip(2))) {
            (Some(h), Some(l), Some(rest)) => Some(seq![(h * 16 + l) as u8] + rest),
            _ => None,
        }
    }
}

/// A hex digit reads back as its value.
proof fn lemma_hex_digit(d: u8)
    requires
        d < 16,
    ensures
        hex_value(hex_digit(d)) == Some(d),
{
    if d < 10 {
        assert((('0' as u8) + d) as char as u32 == 48 + d);
    } else {
        assert((('a' as u8) + d - 10) as char as u32 == 97 + d - 10);
    }
}

/// Decoding what `hex_text` writes gives the bytes back.
pub proof fn lemma_hex_round_trip(b: Seq<u8>)
    ensures
        hex_bytes(hex_text(b)) == Some(b),
    decreases b.len(),
{
    if b.len() > 0 {
        let t = hex_text(b);
        lemma_hex_round_trip(b.skip(1));
        lemma_hex_digit(b[0] / 16);
        lemma_hex_digit(b[0] % 16);
        assert(t.skip(2) =~= hex_text(b.skip(1)));
        assert(t[0] == hex_digit(b[0] / 16));
        assert(t[1] == hex_digit(b[0] % 16));
        assert(((b[0] / 16) * 16 + b[0] % 16) as u8 == b[0]);
        assert(seq![b[0]] + b.skip(1) =~= b);
    }
}

/// Calls `Sha256::new`, `update` with the salt then the code's bytes, and
/// `finalize`, written with `{:x}`.
#[verifier::external_body]
fn hash_code(code: &str, salt: &[u8]) -> (h: String)
    ensures
        h@ == code_digest(code@, salt@),
{
    let mut hasher = sha2::Sha256::new();
    hasher.update(salt);
    hasher.update(code.as_bytes());
    format!("{:x}", hasher.finalize())
}

/// Calls `hex::encode`.
#[verifier::external_body]
fn hex_encode(b: &[u8]) -> (s: String)
    ensures
        s@ == hex_text(b@),
{
    hex::encode(b)
}

/// Calls `hex::decode`.
#[verifier::external_body]
fn hex_decode(s: &str) -> (r: Option<Vec<u8>>)
    ensures
        match r {
            Some(b) => hex_bytes(s@) == Some(b@),
            None => hex_bytes(s@) is None,
        },
{
    hex::decode(s).ok()
}

/// A code waiting for approval, kept as a salted digest.
#[derive(Debug)]
pub struct PendingEntry {
    pub hash: String,
    pub salt: String,
    pub user_id: String,
    pub user_name: String,
    pub created_at: u64,
}

impl Clone for PendingEntry {
    fn clone(&self) -> (r: Self)
        ensures
            r == *self,
    {
        PendingEntry {
            hash: self.hash.clone(),
            salt: self.salt.clone(),
            user_id: self.user_id.clone(),
            user_name: self.user_name.clone(),
            created_at: self.created_at,
        }
    }
}

/// An approved user.
#[derive(Debug)]
pub struct ApprovedUser {
    pub user_id: String,
    pub user_name: String,
    pub approved_at: u64,
}

impl Clone for ApprovedUser {
    fn clone(&self) -> (r: Self)
        ensures
            r == *self,
    {
        ApprovedUser { user_id: self.user_id.clone(), user_name: self.user_name.clone(), approved_at: self.approved_at }
    }
}

/// A pending request as listed: the first 8 characters of the digest
/// stand for the code.
#[derive(Debug)]
pub struct PendingEntryInfo {
    pub platform: String,
    pub code: String,
    pub user_id: String,
    pub user_name: String,
    pub age_minutes: u64,
}

/// Request times, failure counts and lockouts.
#[derive(Debug)]
pub struct RateLimitState {
    /// `{platform}:{user}` to the time of the user's last request.
    pub last_requests: StrMap<u64>,
    /// Platform to its failed approvals in a row.
    pub failed_attempts: StrMap<u64>,
    /// Platform to the end of its lockout.
    pub lockout_until: StrMap<u64>,
}

/// Seconds from `then` to `now`, zero when `then` is later.
pub open spec fn age(now: u64, then: u64) -> u64 {
    if now >= then {
        (now - then) as u64
    } else {
        0
    }
}

/// Whether a pending entry is still valid at `now`.
pub open spec fn unexpired(e: PendingEntry, now: u64) -> bool {
    age(now, e.created_at) <= CODE_TTL_SECONDS
}

/// The entries still valid at `now`.
pub open spec fn cleaned(es: Seq<PendingEntry>, now: u64) -> Seq<PendingEntry> {
    es.filter(|e: PendingEntry| unexpired(e, now))
}

/// Whether `code` is the code an entry was made for.
pub open spec fn code_matches(e: PendingEntry, code: Seq<char>) -> bool {
    match hex_bytes(e.salt@) {
        Some(salt) => code_digest(code, salt) == e.hash@,
        None => false,
    }
}

/// Whether `i` is the first entry of `es` that `code` matches.
pub open spec fn first_matching(es: Seq<PendingEntry>, code: Seq<char>, i: int) -> bool {
    &&& 0 <= i < es.len()
    &&& code_matches(es[i], code)
    &&& forall|j: int| 0 <= j < i ==> !code_matches(#[trigger] es[j], code)
}

/// The key of a user's request time.
pub open spec fn request_key(platform: Seq<char>, user_id: Seq<char>) -> Seq<char> {
    platform + ":"@ + user_id
}

/// The entries of a platform in a string-keyed map of lists (none when
/// absent).
pub open spec fn listed_under<T>(m: Map<Seq<char>, Vec<T>>, k: Seq<char>) -> Seq<T> {
    if m.contains_key(k) {
        m[k]@
    } else {
        Seq::empty()
    }
}

/// A number in a string-keyed map (0 when absent).
pub open spec fn count_under(m: Map<Seq<char>, u64>, k: Seq<char>) -> u64 {
    if m.contains_key(k) {
        m[k]
    } else {
        0
    }
}

/// The failure count and lockout end after one more failed approval at
/// `now`: the fifth failure in a row locks the platform and starts the
/// count again.
pub open spec fn after_failure(fails: u64, lockout: Option<u64>, now: u64) -> (u64, Option<u64>) {
    if fails + 1 >= MAX_FAILED_ATTEMPTS {
        (
            0,
            Some(
                if now as int + LOCKOUT_SECONDS <= u64::MAX {
                    (now + LOCKOUT_SECONDS) as u64
                } else {
                    u64::MAX
                },
            ),
        )
    } else {
        ((fails + 1) as u64, lockout)
    }
}

/// Whether a lockout end locks at `now`.
pub open spec fn locks(lockout: Option<u64>, now: u64) -> bool {
    match lockout {
        Some(t) => now < t,
        None => false,
    }
}

/// The in-memory pairing store.
#[derive(Debug)]
pub struct PairingStore {
    /// Platform to its pending entries, oldest first.
    pub pending: StrMap<Vec<PendingEntry>>,
    /// Platform to its approved users, in order of approval.
    pub approved: StrMap<Vec<ApprovedUser>>,
    pub rate_limits: RateLimitState,
}

impl PairingStore {
    /// The maps are consistent.
    pub open spec fn wf(&self) -> bool {
        &&& self.pending.wf()
        &&& self.approved.wf()
        &&& self.rate_limits.last_requests.wf()
        &&& self.rate_limits.failed_attempts.wf()
        &&& self.rate_limits.lockout_until.wf()
    }

    /// The pending entries of a platform.
    pub open spec fn pending_of(&self, platform: Seq<char>) -> Seq<PendingEntry> {
        listed_under(self.pending@, platform)
    }

    /// The approved users of a platform.
    pub open spec fn approved_of(&self, platform: Seq<char>) -> Seq<ApprovedUser> {
        listed_under(self.approved@, platform)
    }

    /// The lockout end of a platform, if any.
    pub open spec fn lockout_of(&self, platform: Seq<char>) -> Option<u64> {
        if self.rate_limits.lockout_until@.contains_key(platform) {
            Some(self.rate_limits.lockout_until@[platform])
        } else {
            None
        }
    }

    /// Whether a platform's approvals are locked at `now`.
    pub open spec fn locked_out(&self, platform: Seq<char>, now: u64) -> bool {
        locks(self.lockout_of(platform), now)
    }

    /// Whether a user asked for a code less than `RATE_LIMIT_SECONDS` before
    /// `now`.
    pub open spec fn rate_limited(&self, platform: Seq<char>, user_id: Seq<char>, now: u64) -> bool {
        let k = request_key(platform, user_id);
        self.rate_limits.last_requests@.contains_key(k) && age(now, self.rate_limits.last_requests@[k])
            < RATE_LIMIT_SECONDS
    }

    /// An empty store.
    pub fn new() -> (s: Self)
        ensures
            s.wf(),
            s.pending@ == Map::<Seq<char>, Vec<PendingEntry>>::empty(),
            s.approved@ == Map::<Seq<char>, Vec<ApprovedUser>>::empty(),
            s.rate_limits.last_requests@ == Map::<Seq<char>, u64>::empty(),
            s.rate_limits.failed_attempts@ == Map::<Seq<char>, u64>::empty(),
            s.rate_limits.lockout_until@ == Map::<Seq<char>, u64>::empty(),
    {
        PairingStore {
            pending: StrMap::new(),
            approved: StrMap::new(),
            rate_limits: RateLimitState {
                last_requests: StrMap::new(),
                failed_attempts: StrMap::new(),
                lockout_until: StrMap::new(),
            },
        }
    }

    /// Drops a platform's codes that expired by `now`.
    pub fn cleanup_expired(&mut self, platform: &str, now: u64)
        requires
            old(self).wf(),
        ensures
            final(self).wf(),
            final(self).pending@.dom() == old(self).pending@.dom(),
            final(self).pending.key_seq() == old(self).pending.key_seq(),
            final(self).pending_of(platform@) == cleaned(old(self).pending_of(platform@), now),
            forall|q: Seq<char>| q != platform@ ==> #[trigger] final(self).pending@[q] == old(self).pending@[q],
            final(self).approved == old(self).approved,
            final(self).rate_limits == old(self).rate_limits,
    {
        match self.pending.get(platform) {
            Some(entries) => {
                let kept = keep_unexpired(entries.as_slice(), now);
                self.pending.insert(platform.to_owned(), kept);
                proof {
                    assert(self.pending@.dom() =~= old(self).pending@.dom());
                }
            },
            None => {
                proof {
                    assert(cleaned(Seq::<PendingEntry>::empty(), now) =~= Seq::<PendingEntry>::empty());
                }
            },
        }
    }

    /// Whether a platform's approvals are locked at `now`.
    pub fn is_locked_out(&self, platform: &str, now: u64) -> (b: bool)
        requires
            self.wf(),
        ensures
            b == self.locked_out(platform@, now),
    {
        match self.rate_limits.lockout_until.get(platform) {
            Some(until) => now < *until,
            None => false,
        }
    }

    /// Whether a user is still barred from asking again at `now`.
    pub fn is_rate_limited(&self, platform: &str, user_id: &str, now: u64) -> (b: bool)
        requires
            self.wf(),
        ensures
            b == self.rate_limited(platform@, user_id@, now),
    {
        let key = request_key_string(platform, user_id);
        match self.rate_limits.last_requests.get(key.as_str()) {
            Some(last) => now.saturating_sub(*last) < RATE_LIMIT_SECONDS,
            None => false,
        }
    }

    /// Records a failed approval at `now` (see `after_failure`).
    pub fn record_failed_attempt(&mut self, platform: &str, now: u64)
        requires
            old(self).wf(),
        ensures
            final(self).wf(),
            ({
                let (f, l) = after_failure(
                    count_under(old(self).rate_limits.failed_attempts@, platform@),
                    old(self).lockout_of(platform@),
                    now,
                );
                &&& final(self).rate_limits.failed_attempts@ == old(self).rate_limits.failed_attempts@.insert(
                    platform@,
                    f,
                )
                &&& final(self).lockout_of(platform@) == l
            }),
            forall|q: Seq<char>|
                q != platform@ ==> #[trigger] final(self).rate_limits.lockout_until@.contains_key(q)
                    == old(self).rate_limits.lockout_until@.contains_key(q) && final(self).rate_limits.lockout_until@[q] == old(self).rate_limits.lockout_until@[q],
            final(self).pending == old(self).pending,
            final(self).approved == old(self).approved,
            final(self).rate_limits.last_requests == old(self).rate_limits.last_requests,
    {
        let failed: u64 = match self.rate_limits.failed_attempts.get(platform) {
            Some(f) => *f,
            None => 0,
        };
        if failed >= MAX_FAILED_ATTEMPTS - 1 {
            self.rate_limits.lockout_until.insert(platform.to_owned(), now.saturating_add(LOCKOUT_SECONDS));
            self.rate_limits.failed_attempts.insert(platform.to_owned(), 0);
        } else {
            self.rate_limits.failed_attempts.insert(platform.to_owned(), failed + 1);
        }
    }

    /// Adds a user to a platform's approved users, approved at `now`.
    pub fn approve_user(&mut self, platform: &str, user_id: &str, user_name: &str, now: u64)
        requires
            old(self).wf(),
        ensures
            final(self).wf(),
            final(self).approved_of(platform@).len() == old(self).approved_of(platform@).len() + 1,
            final(self).approved_of(platform@).drop_last() == old(self).approved_of(platform@),
            final(self).approved_of(platform@).last().user_id@ == user_id@,
            final(self).approved_of(platform@).last().user_name@ == user_name@,
            final(self).approved_of(platform@).last().approved_at == now,
            forall|q: Seq<char>| q != platform@ ==> #[trigger] final(self).approved_of(q) == old(self).approved_of(q),
            final(self).pending == old(self).pending,
            final(self).rate_limits == old(self).rate_limits,
    {
        let mut users: Vec<ApprovedUser> = match self.approved.get(platform) {
            Some(us) => clone_users(us.as_slice()),
            None => Vec::new(),
        };
        users.push(
            ApprovedUser { user_id: user_id.to_owned(), user_name: user_name.to_owned(), approved_at: now },
        );
        self.approved.insert(platform.to_owned(), users);
        proof {
            assert(self.approved_of(platform@).drop_last() =~= old(self).approved_of(platform@));
        }
    }

    /// Gives a user a code at `now` (see `PairingManager::generate_code`).
    /// Expired codes of the platform are dropped first. A locked platform, a
    /// user who asked less than ten minutes ago, or a platform with three
    /// live codes gets none. Otherwise the code's salted digest is kept,
    /// the request time noted, and the code returned.
    pub fn generate_code_at(&mut self, platform: &str, user_id: &str, user_name: &str, now: u64) -> (r: Option<
        String,
    >)
        requires
            old(self).wf(),
        ensures
            final(self).wf(),
            final(self).approved == old(self).approved,
            final(self).rate_limits.failed_attempts == old(self).rate_limits.failed_attempts,
            final(self).rate_limits.lockout_until == old(self).rate_limits.lockout_until,
            forall|q: Seq<char>| q != platform@ ==> #[trigger] final(self).pending_of(q) == old(self).pending_of(q),
            ({
                let live = cleaned(old(self).pending_of(platform@), now);
                let refused = old(self).locked_out(platform@, now) || old(self).rate_limited(platform@, user_id@, now)
                    || live.len() >= MAX_PENDING_PER_PLATFORM;
                &&& refused ==> r is None && final(self).pending_of(platform@) == live
                    && final(self).rate_limits.last_requests == old(self).rate_limits.last_requests
                &&& !refused ==> r is Some && issued(
                    final(self).pending_of(platform@),
                    live,
                    r->0@,
                    user_id@,
                    user_name@,
                    now,
                ) && final(self).rate_limits.last_requests@ == old(self).rate_limits.last_requests@.insert(
                    request_key(platform@, user_id@),
                    now,
                )
                &&& live.len() <= MAX_PENDING_PER_PLATFORM ==> final(self).pending_of(platform@).len()
                    <= MAX_PENDING_PER_PLATFORM
            }),
    {
        self.cleanup_expired(platform, now);
        if self.is_locked_out(platform, now) {
            return None;
        }
        if self.is_rate_limited(platform, user_id, now) {
            return None;
        }
        let count = match self.pending.get(platform) {
            Some(es) => es.len(),
            None => 0,
        };
        if count >= MAX_PENDING_PER_PLATFORM {
            return None;
        }
        // The code in the form approvals compare against: upper case, as the
        // alphabet already is.
        let fresh = new_code();
        let code = to_uppercase(fresh.as_str());
        proof {
            lemma_code_is_trimmed(code@);
        }
        let salt = random_salt();
        let hash = hash_code(code.as_str(), salt.as_slice());
        let salt_hex = hex_encode(salt.as_slice());
        proof {
            lemma_hex_round_trip(salt@);
        }
        let entry = PendingEntry {
            hash,
            salt: salt_hex,
            user_id: user_id.to_owned(),
            user_name: user_name.to_owned(),
            created_at: now,
        };
        let ghost live = self.pending_of(platform@);
        let mut entries: Vec<PendingEntry> = match self.pending.get(platform) {
            Some(es) => clone_entries(es.as_slice()),
            None => Vec::new(),
        };
        entries.push(entry);
        self.pending.insert(platform.to_owned(), entries);
        let key = request_key_string(platform, user_id);
        self.rate_limits.last_requests.insert(key, now);
        proof {
            assert(self.pending_of(platform@) =~= live.push(entry));
            assert(code_matches(entry, code@));
            assert(uppercase(code@) == code@);
            assert(trim(code@) == code@);
            assert(live.push(entry).drop_last() =~= live);
            assert(code@ == fresh@);
            assert(issued(self.pending_of(platform@), live, code@, user_id@, user_name@, now));
            assert(forall|q: Seq<char>| q != platform@ ==> #[trigger] self.pending_of(q) == old(self).pending_of(q));
            assert(live == cleaned(old(self).pending_of(platform@), now));
        }
        Some(code)
    }

    /// Approves a code at `now` (see `PairingManager::approve_code`).
    /// Expired codes of the platform are dropped first. A locked platform
    /// refuses. The code is trimmed and put in upper case; the first entry
    /// it matches is taken out (with every entry of the same digest) and
    /// its user approved. A code that matches none counts as a failure.
    pub fn approve_code_at(&mut self, platform: &str, code: &str, now: u64) -> (r: Option<(String, String)>)
        requires
            old(self).wf(),
        ensures
            final(self).wf(),
            forall|q: Seq<char>| q != platform@ ==> #[trigger] final(self).pending_of(q) == old(self).pending_of(q),
            forall|q: Seq<char>| q != platform@ ==> #[trigger] final(self).approved_of(q) == old(self).approved_of(q),
            final(self).rate_limits.last_requests == old(self).rate_limits.last_requests,
            ({
                let live = cleaned(old(self).pending_of(platform@), now);
                let c = uppercase(trim(code@));
                &&& old(self).locked_out(platform@, now) ==> r is None && final(self).pending_of(platform@) == live
                    && final(self).approved == old(self).approved && final(self).rate_limits
                    == old(self).rate_limits
                &&& !old(self).locked_out(platform@, now) && (forall|i: int| !first_matching(live, c, i)) ==> {
                    let (f, l) = after_failure(
                        count_under(old(self).rate_limits.failed_attempts@, platform@),
                        old(self).lockout_of(platform@),
                        now,
                    );
                    &&& r is None
                    &&& final(self).pending_of(platform@) == live
                    &&& final(self).approved == old(self).approved
                    &&& final(self).rate_limits.failed_attempts@ == old(self).rate_limits.failed_attempts@.insert(
                        platform@,
                        f,
                    )
                    &&& final(self).lockout_of(platform@) == l
                }
                &&& forall|i: int|
                    !old(self).locked_out(platform@, now) && first_matching(live, c, i) ==> {
                        let e = live[i];
                        &&& r matches Some(p) && p.0@ == e.user_id@ && p.1@ == e.user_name@
                        &&& final(self).pending_of(platform@) == live.filter(|x: PendingEntry| x.hash@ != e.hash@)
                        &&& final(self).approved_of(platform@).drop_last() == old(self).approved_of(platform@)
                        &&& final(self).approved_of(platform@).last().user_id@ == e.user_id@
                        &&& final(self).approved_of(platform@).last().user_name@ == e.user_name@
                        &&& final(self).approved_of(platform@).last().approved_at == now
                        &&& final(self).rate_limits == old(self).rate_limits
                    }
            }),
    {
        self.cleanup_expired(platform, now);
        if self.is_locked_out(platform, now) {
            return None;
        }
        let trimmed = trim_str(code);
        let normalized = to_uppercase(trimmed.as_str());
        let ghost live = self.pending_of(platform@);
        let found: Option<(PendingEntry, Vec<PendingEntry>)> = match self.pending.get(platform) {
            Some(es) => match find_matching(es.as_slice(), normalized.as_str()) {
                Some(e) => {
                    let rest = without_hash(es.as_slice(), e.hash.as_str());
                    Some((e, rest))
                },
                None => None,
            },
            None => None,
        };
        let (entry, remaining) = match found {
            Some(x) => x,
            None => {
                proof {
                    assert forall|i: int| !first_matching(live, normalized@, i) by {
                        if live.len() == 0 {
                        }
                    }
                }
                self.record_failed_attempt(platform, now);
                return None;
            },
        };
        proof {
            let i = choose|i: int| first_matching(live, normalized@, i) && live[i] == entry;
            assert forall|j: int| first_matching(live, normalized@, j) implies live[j] == entry by {
                if j < i {
                    assert(!code_matches(live[j], normalized@));
                } else if j > i {
                    assert(!code_matches(live[i], normalized@));
                }
            }
        }
        self.pending.insert(platform.to_owned(), remaining);
        self.approve_user(platform, entry.user_id.as_str(), entry.user_name.as_str(), now);
        Some((entry.user_id, entry.user_name))
    }

    /// The pending requests of one platform, or of all, as listed at `now`
    /// (expired codes are dropped first).
    pub fn list_pending_at(&mut self, platform: Option<&str>, now: u64) -> (r: Vec<PendingEntryInfo>)
        requires
            old(self).wf(),
        ensures
            final(self).wf(),
            final(self).approved == old(self).approved,
            final(self).rate_limits == old(self).rate_limits,
            pending_listing(
                *old(self),
                platform_view(platform),
                now,
                r@,
            ),
    {
        let mut results: Vec<PendingEntryInfo> = Vec::new();
        match platform {
            Some(p) => {
                self.cleanup_expired(p, now);
                if let Some(entries) = self.pending.get(p) {
                    append_infos(&mut results, p, entries.as_slice(), now);
                    proof {
                        assert forall|i: int| 0 <= i < results@.len() implies #[trigger] lists(
                            results@[i],
                            p@,
                            cleaned(old(self).pending_of(p@), now)[i],
                            now,
                        ) by {
                            assert(results@[0 + i] == results@[i]);
                        }
                    }
                } else {
                    proof {
                        assert(cleaned(old(self).pending_of(p@), now) =~= Seq::<PendingEntry>::empty()) by {
                            assert(old(self).pending_of(p@) =~= Seq::<PendingEntry>::empty());
                        }
                    }
                }
            },
            None => {
                let n = self.pending.len();
                let ghost ks = self.pending.key_seq();
                let ghost all = all_pending(ks, old(self).pending@, now);
                let mut k: usize = 0;
                proof {
                    self.pending.lemma_view();
                }
                while k < n
                    invariant
                        self.wf(),
                        ks == old(self).pending.key_seq(),
                        ks == self.pending.key_seq(),
                        ks.no_duplicates(),
                        n == ks.len(),
                        k <= n,
                        self.approved == old(self).approved,
                        self.rate_limits == old(self).rate_limits,
                        forall|q: Seq<char>|
                            #[trigger] self.pending_of(q) == if ks.take(k as int).contains(q) {
                                cleaned(old(self).pending_of(q), now)
                            } else {
                                old(self).pending_of(q)
                            },
                        results@.len() == all_pending(ks.take(k as int), old(self).pending@, now).len(),
                        forall|i: int|
                            0 <= i < results@.len() ==> #[trigger] lists(
                                results@[i],
                                all_pending(ks.take(k as int), old(self).pending@, now)[i].0,
                                all_pending(ks.take(k as int), old(self).pending@, now)[i].1,
                                now,
                            ),
                    decreases n - k,
                {
                    let name = self.pending.key_at(k).clone();
                    let ghost before = *self;
                    let ghost prev = results@;
                    let ghost pre_all = all_pending(ks.take(k as int), old(self).pending@, now);
                    proof {
                        if ks.take(k as int).contains(name@) {
                            let j = choose|j: int| 0 <= j < k && #[trigger] ks.take(k as int)[j] == name@;
                            assert(ks[j] == ks[k as int]);
                        }
                    }
                    self.cleanup_expired(name.as_str(), now);
                    let ghost fresh = cleaned(old(self).pending_of(name@), now);
                    assert(self.pending_of(name@) == fresh);
                    proof {
                        assert(ks.take(k + 1 as int).drop_last() =~= ks.take(k as int));
                        assert(ks.take(k + 1 as int).last() == name@);
                        assert forall|q: Seq<char>|
                            #[trigger] self.pending_of(q) == if ks.take(k + 1 as int).contains(q) {
                                cleaned(old(self).pending_of(q), now)
                            } else {
                                old(self).pending_of(q)
                            } by {
                            if q != name@ {
                                assert(self.pending@.dom() == before.pending@.dom());
                                assert(before.pending_of(q) == self.pending_of(q));
                                if ks.take(k + 1 as int).contains(q) {
                                    let j = choose|j: int| 0 <= j < k + 1 && #[trigger] ks.take(k + 1 as int)[j] == q;
                                    assert(j != k);
                                    assert(ks.take(k as int)[j] == q);
                                }
                                if ks.take(k as int).contains(q) {
                                    let j = choose|j: int| 0 <= j < k && #[trigger] ks.take(k as int)[j] == q;
                                    assert(ks.take(k + 1 as int)[j] == q);
                                }
                            } else {
                                assert(ks.take(k + 1 as int)[k as int] == q);
                            }
                        }
                    }
                    match self.pending.get(name.as_str()) {
                        Some(entries) => {
                            append_infos(&mut results, name.as_str(), entries.as_slice(), now);
                            proof {
                                assert(entries@ == fresh);
                            }
                        },
                        None => {
                            proof {
                                assert(fresh =~= Seq::<PendingEntry>::empty());
                            }
                        },
                    }
                    proof {
                        let tail = fresh.map_values(|e: PendingEntry| (name@, e));
                        assert(all_pending(ks.take(k + 1 as int), old(self).pending@, now) == pre_all + tail);
                        assert forall|i: int|
                            0 <= i < results@.len() implies #[trigger] lists(
                                results@[i],
                                all_pending(ks.take(k + 1 as int), old(self).pending@, now)[i].0,
                                all_pending(ks.take(k + 1 as int), old(self).pending@, now)[i].1,
                                now,
                            ) by {
                            if i < prev.len() {
                                assert(results@[i] == prev[i]);
                            } else {
                                assert(results@[prev.len() + (i - prev.len())] == results@[i]);
                            }
                        }
                    }
                    k = k + 1;
                }
                proof {
                    assert(ks.take(n as int) =~= ks);
                }
            },
        }
        results
    }

    /// The approved users of one platform, or of all.
    pub fn list_approved(&self, platform: Option<&str>) -> (r: Vec<ApprovedUser>)
        requires
            self.wf(),
        ensures
            platform matches Some(p) ==> r@ == self.approved_of(p@),
            platform is None ==> r@ == all_approved(self.approved.key_seq(), self.approved@),
    {
        match platform {
            Some(p) => match self.approved.get(p) {
                Some(us) => clone_users(us.as_slice()),
                None => Vec::new(),
            },
            None => {
                let mut all: Vec<ApprovedUser> = Vec::new();
                let n = self.approved.len();
                let mut k: usize = 0;
                proof {
                    self.approved.lemma_view();
                }
                while k < n
                    invariant
                        self.wf(),
                        n == self.approved.key_seq().len(),
                        k <= n,
                        all@ == all_approved(self.approved.key_seq().take(k as int), self.approved@),
                        forall|i: int|
                            0 <= i < self.approved.key_seq().len() ==> #[trigger] self.approved@[self.approved.key_seq()[i]]
                                == self.approved.val_seq()[i] && self.approved@.contains_key(self.approved.key_seq()[i]),
                    decreases n - k,
                {
                    let us = clone_users(self.approved.value_at(k).as_slice());
                    let ghost prefix = all@;
                    let mut j: usize = 0;
                    while j < us.len()
                        invariant
                            j <= us@.len(),
                            all@ == prefix + us@.take(j as int),
                        decreases us.len() - j,
                    {
                        all.push(us[j].clone());
                        j = j + 1;
                        proof {
                            assert(all@ =~= prefix + us@.take(j as int));
                        }
                    }
                    proof {
                        let ks = self.approved.key_seq();
                        assert(ks.take(k + 1 as int).drop_last() =~= ks.take(k as int));
                        assert(ks.take(k + 1 as int).last() == ks[k as int]);
                        assert(us@.take(us@.len() as int) =~= us@);
                        assert(listed_under(self.approved@, ks[k as int]) == us@);
                    }
                    k = k + 1;
                }
                proof {
                    assert(self.approved.key_seq().take(n as int) =~= self.approved.key_seq());
                }
                all
            },
        }
    }

    /// Whether a user is approved on a platform.
    pub fn is_approved(&self, platform: &str, user_id: &str) -> (b: bool)
        requires
            self.wf(),
        ensures
            b == exists|i: int|
                0 <= i < self.approved_of(platform@).len() && (#[trigger] self.approved_of(platform@)[i]).user_id@
                    == user_id@,
    {
        match self.approved.get(platform) {
            Some(us) => {
                let mut i: usize = 0;
                while i < us.len()
                    invariant
                        i <= us@.len(),
                        us@ == self.approved_of(platform@),
                        forall|j: int| 0 <= j < i ==> (#[trigger] us@[j]).user_id@ != user_id@,
                    decreases us.len() - i,
                {
                    if crate::text::str_eq(us[i].user_id.as_str(), user_id) {
                        return true;
                    }
                    i = i + 1;
                }
                false
            },
            None => false,
        }
    }

    /// Withdraws a user's approval on a platform; tells whether the user was
    /// approved there.
    pub fn revoke(&mut self, platform: &str, user_id: &str) -> (b: bool)
        requires
            old(self).wf(),
        ensures
            final(self).wf(),
            final(self).approved_of(platform@) == old(self).approved_of(platform@).filter(
                |u: ApprovedUser| u.user_id@ != user_id@,
            ),
            b == (final(self).approved_of(platform@).len() != old(self).approved_of(platform@).len()),
            forall|q: Seq<char>| q != platform@ ==> #[trigger] final(self).approved_of(q) == old(self).approved_of(q),
            final(self).pending == old(self).pending,
            final(self).rate_limits == old(self).rate_limits,
    {
        match self.approved.get(platform) {
            Some(us) => {
                let before = us.len();
                let kept = users_except(us.as_slice(), user_id);
                let after = kept.len();
                self.approved.insert(platform.to_owned(), kept);
                before != after
            },
            None => {
                proof {
                    assert(Seq::<ApprovedUser>::empty().filter(|u: ApprovedUser| u.user_id@ != user_id@)
                        =~= Seq::<ApprovedUser>::empty());
                }
                false
            },
        }
    }
}


/// `after` is `live` with one new entry for `code`, made at `now` for the
/// user: the code has `CODE_LENGTH` characters of the alphabet, is its own
/// trimmed upper case form, and matches the entry.
pub open spec fn issued(
    after: Seq<PendingEntry>,
    live: Seq<PendingEntry>,
    code: Seq<char>,
    user_id: Seq<char>,
    user_name: Seq<char>,
    now: u64,
) -> bool {
    &&& after.len() == live.len() + 1
    &&& after.drop_last() == live
    &&& after.last().user_id@ == user_id
    &&& after.last().user_name@ == user_name
    &&& after.last().created_at == now
    &&& code_matches(after.last(), code)
    &&& code.len() == CODE_LENGTH
    &&& forall|i: int| 0 <= i < code.len() ==> in_alphabet(#[trigger] code[i])
    &&& uppercase(code) == code
    &&& trim(code) == code
}

/// What asking for a code at `now` does (see
/// `PairingStore::generate_code_at`): refused, the platform keeps its live
/// codes; granted, a code is issued.
pub open spec fn generation(
    old: PairingStore,
    new: PairingStore,
    platform: Seq<char>,
    user_id: Seq<char>,
    user_name: Seq<char>,
    r: Option<String>,
    now: u64,
) -> bool {
    let live = cleaned(old.pending_of(platform), now);
    let refused = old.locked_out(platform, now) || old.rate_limited(platform, user_id, now) || live.len()
        >= MAX_PENDING_PER_PLATFORM;
    &&& refused ==> r is None && new.pending_of(platform) == live
    &&& !refused ==> r is Some && issued(new.pending_of(platform), live, r->0@, user_id, user_name, now)
}

/// Whether approving `code` for `platform` at `now` takes the store `old`
/// to `new` with the answer `r` (see `PairingStore::approve_code_at`).
pub open spec fn approval(
    old: PairingStore,
    new: PairingStore,
    platform: Seq<char>,
    code: Seq<char>,
    r: Option<(String, String)>,
    now: u64,
) -> bool {
    let live = cleaned(old.pending_of(platform), now);
    let c = uppercase(trim(code));
    &&& forall|q: Seq<char>| q != platform ==> #[trigger] new.pending_of(q) == old.pending_of(q)
    &&& forall|q: Seq<char>| q != platform ==> #[trigger] new.approved_of(q) == old.approved_of(q)
    &&& new.rate_limits.last_requests == old.rate_limits.last_requests
    &&& old.locked_out(platform, now) ==> r is None && new.pending_of(platform) == live && new.approved
        == old.approved && new.rate_limits == old.rate_limits
    &&& !old.locked_out(platform, now) && (forall|i: int| !first_matching(live, c, i)) ==> {
        let (f, l) = after_failure(count_under(old.rate_limits.failed_attempts@, platform), old.lockout_of(platform), now);
        &&& r is None
        &&& new.pending_of(platform) == live
        &&& new.approved == old.approved
        &&& new.rate_limits.failed_attempts@ == old.rate_limits.failed_attempts@.insert(platform, f)
        &&& new.lockout_of(platform) == l
    }
    &&& forall|i: int|
        !old.locked_out(platform, now) && first_matching(live, c, i) ==> {
            let e = live[i];
            &&& r matches Some(p) && p.0@ == e.user_id@ && p.1@ == e.user_name@
            &&& new.pending_of(platform) == live.filter(|x: PendingEntry| x.hash@ != e.hash@)
            &&& new.approved_of(platform).drop_last() == old.approved_of(platform)
            &&& new.approved_of(platform).last().user_id@ == e.user_id@
            &&& new.approved_of(platform).last().user_name@ == e.user_name@
            &&& new.approved_of(platform).last().approved_at == now
            &&& new.rate_limits == old.rate_limits
        }
}

/// The lists under the keys, one after the other.
pub open spec fn all_approved(keys: Seq<Seq<char>>, m: Map<Seq<char>, Vec<ApprovedUser>>) -> Seq<ApprovedUser>
    decreases keys.len(),
{
    if keys.len() == 0 {
        Seq::empty()
    } else {
        all_approved(keys.drop_last(), m) + listed_under(m, keys.last())
    }
}

/// The characters of a platform name, if one is given.
pub open spec fn platform_view(platform: Option<&str>) -> Option<Seq<char>> {
    match platform {
        Some(p) => Some(p@),
        None => None,
    }
}

/// The pending entries of the platforms `keys`, in that order, each with
/// its platform, once expired codes are dropped.
pub open spec fn all_pending(keys: Seq<Seq<char>>, m: Map<Seq<char>, Vec<PendingEntry>>, now: u64) -> Seq<
    (Seq<char>, PendingEntry),
>
    decreases keys.len(),
{
    if keys.len() == 0 {
        Seq::empty()
    } else {
        all_pending(keys.drop_last(), m, now) + cleaned(listed_under(m, keys.last()), now).map_values(
            |e: PendingEntry| (keys.last(), e),
        )
    }
}

/// Whether `r` is the listing of the pending requests of `platform` (of
/// every platform, in the store's order, when none is given) that the store
/// `s` gives at `now`.
pub open spec fn pending_listing(s: PairingStore, platform: Option<Seq<char>>, now: u64, r: Seq<PendingEntryInfo>) -> bool {
    match platform {
        Some(p) => r.len() == cleaned(s.pending_of(p), now).len() && forall|i: int|
            0 <= i < r.len() ==> #[trigger] lists(r[i], p, cleaned(s.pending_of(p), now)[i], now),
        None => r.len() == all_pending(s.pending.key_seq(), s.pending@, now).len() && forall|i: int|
            0 <= i < r.len() ==> #[trigger] lists(
                r[i],
                all_pending(s.pending.key_seq(), s.pending@, now)[i].0,
                all_pending(s.pending.key_seq(), s.pending@, now)[i].1,
                now,
            ),
    }
}

/// `info` lists entry `e` of platform `p` at `now`.
pub open spec fn lists(info: PendingEntryInfo, p: Seq<char>, e: PendingEntry, now: u64) -> bool {
    &&& info.platform@ == p
    &&& info.code@ == e.hash@.take(if e.hash@.len() < 8 {
        e.hash@.len() as int
    } else {
        8
    })
    &&& info.user_id@ == e.user_id@
    &&& info.user_name@ == e.user_name@
    &&& info.age_minutes == age(now, e.created_at) / 60
}

/// Text of alphabet characters has no whitespace at its ends.
proof fn lemma_code_is_trimmed(code: Seq<char>)
    requires
        forall|i: int| 0 <= i < code.len() ==> in_alphabet(#[trigger] code[i]),
    ensures
        trim(code) == code,
{
    assert forall|i: int| 0 <= i < code.len() implies !crate::text::is_ws(#[trigger] code[i]) by {
        assert(in_alphabet(code[i]));
    }
    crate::text::lemma_trim_start(code, 0);
    assert(code.skip(0) =~= code);
    crate::text::lemma_trim_end(code, code.len() as int);
    assert(code.take(code.len() as int) =~= code);
}

/// The key of a user's request time: `{platform}:{user}`.
fn request_key_string(platform: &str, user_id: &str) -> (k: String)
    ensures
        k@ == request_key(platform@, user_id@),
{
    let mut k = platform.to_owned();
    push_char(&mut k, ':');
    push_str(&mut k, user_id);
    proof {
        reveal_strlit(":");
        assert(k@ =~= request_key(platform@, user_id@));
    }
    k
}

/// A fresh code: `CODE_LENGTH` characters drawn from the alphabet.
fn new_code() -> (c: String)
    ensures
        c@.len() == CODE_LENGTH,
        forall|i: int| 0 <= i < c@.len() ==> in_alphabet(#[trigger] c@[i]),
        crate::text::ascii_upper_or_digit(c@),
{
    let mut c = String::new();
    let mut i: usize = 0;
    while i < CODE_LENGTH
        invariant
            i <= CODE_LENGTH,
            c@.len() == i,
            forall|j: int| 0 <= j < i ==> in_alphabet(#[trigger] c@[j]),
        decreases CODE_LENGTH - i,
    {
        let ch = alphabet_char(random_below(ALPHABET_SIZE));
        let ghost before = c@;
        push_char(&mut c, ch);
        proof {
            assert forall|j: int| 0 <= j < i + 1 implies in_alphabet(#[trigger] c@[j]) by {
                if j < before.len() {
                    assert(c@[j] == before[j]);
                }
            }
        }
        i = i + 1;
    }
    proof {
        assert forall|j: int| 0 <= j < c@.len() implies ('A' <= #[trigger] c@[j] <= 'Z') || ('0' <= c@[j]
            <= '9') by {
            assert(in_alphabet(c@[j]));
        }
    }
    c
}

/// The entries still valid at `now`.
fn keep_unexpired(es: &[PendingEntry], now: u64) -> (r: Vec<PendingEntry>)
    ensures
        r@ == cleaned(es@, now),
{
    let mut r: Vec<PendingEntry> = Vec::new();
    let mut i: usize = 0;
    while i < es.len()
        invariant
            i <= es@.len(),
            r@ == cleaned(es@.take(i as int), now),
        decreases es.len() - i,
    {
        proof {
            assert(es@.take(i + 1 as int) =~= es@.take(i as int).push(es@[i as int]));
            es@.take(i as int).lemma_filter_push(es@[i as int], |e: PendingEntry| unexpired(e, now));
        }
        if now.saturating_sub(es[i].created_at) <= CODE_TTL_SECONDS {
            r.push(es[i].clone());
        }
        i = i + 1;
    }
    proof {
        assert(es@.take(es@.len() as int) =~= es@);
    }
    r
}

/// A copy of the entries.
fn clone_entries(es: &[PendingEntry]) -> (r: Vec<PendingEntry>)
    ensures
        r@ == es@,
{
    let mut r: Vec<PendingEntry> = Vec::new();
    let mut i: usize = 0;
    while i < es.len()
        invariant
            i <= es@.len(),
            r@ == es@.take(i as int),
        decreases es.len() - i,
    {
        r.push(es[i].clone());
        i = i + 1;
        proof {
            assert(r@ =~= es@.take(i as int));
        }
    }
    proof {
        assert(es@.take(es@.len() as int) =~= es@);
    }
    r
}

/// A copy of the users.
fn clone_users(us: &[ApprovedUser]) -> (r: Vec<ApprovedUser>)
    ensures
        r@ == us@,
{
    let mut r: Vec<ApprovedUser> = Vec::new();
    let mut i: usize = 0;
    while i < us.len()
        invariant
            i <= us@.len(),
            r@ == us@.take(i as int),
        decreases us.len() - i,
    {
        r.push(us[i].clone());
        i = i + 1;
        proof {
            assert(r@ =~= us@.take(i as int));
        }
    }
    proof {
        assert(us@.take(us@.len() as int) =~= us@);
    }
    r
}

/// The first entry that `code` matches, if any.
fn find_matching(es: &[PendingEntry], code: &str) -> (r: Option<PendingEntry>)
    ensures
        match r {
            Some(e) => exists|i: int| first_matching(es@, code@, i) && es@[i] == e,
            None => forall|i: int| !first_matching(es@, code@, i),
        },
{
    let mut i: usize = 0;
    while i < es.len()
        invariant
            i <= es@.len(),
            forall|j: int| 0 <= j < i ==> !code_matches(#[trigger] es@[j], code@),
        decreases es.len() - i,
    {
        let matched = match hex_decode(es[i].salt.as_str()) {
            Some(salt) => {
                let h = hash_code(code, salt.as_slice());
                crate::text::str_eq(h.as_str(), es[i].hash.as_str())
            },
            None => false,
        };
        if matched {
            let e = es[i].clone();
            proof {
                assert(first_matching(es@, code@, i as int));
            }
            return Some(e);
        }
        i = i + 1;
    }
    proof {
        assert forall|k: int| !first_matching(es@, code@, k) by {
            if 0 <= k < es@.len() {
                assert(!code_matches(es@[k], code@));
            }
        }
    }
    None
}

/// The entries whose digest is not `h`.
fn without_hash(es: &[PendingEntry], h: &str) -> (r: Vec<PendingEntry>)
    ensures
        r@ == es@.filter(|x: PendingEntry| x.hash@ != h@),
{
    let mut r: Vec<PendingEntry> = Vec::new();
    let mut i: usize = 0;
    while i < es.len()
        invariant
            i <= es@.len(),
            r@ == es@.take(i as int).filter(|x: PendingEntry| x.hash@ != h@),
        decreases es.len() - i,
    {
        proof {
            assert(es@.take(i + 1 as int) =~= es@.take(i as int).push(es@[i as int]));
            es@.take(i as int).lemma_filter_push(es@[i as int], |x: PendingEntry| x.hash@ != h@);
        }
        if !crate::text::str_eq(es[i].hash.as_str(), h) {
            r.push(es[i].clone());
        }
        i = i + 1;
    }
    proof {
        assert(es@.take(es@.len() as int) =~= es@);
    }
    r
}

/// The users other than `user_id`.
fn users_except(us: &[ApprovedUser], user_id: &str) -> (r: Vec<ApprovedUser>)
    ensures
        r@ == us@.filter(|u: ApprovedUser| u.user_id@ != user_id@),
{
    let mut r: Vec<ApprovedUser> = Vec::new();
    let mut i: usize = 0;
    while i < us.len()
        invariant
            i <= us@.len(),
            r@ == us@.take(i as int).filter(|u: ApprovedUser| u.user_id@ != user_id@),
        decreases us.len() - i,
    {
        proof {
            assert(us@.take(i + 1 as int) =~= us@.take(i as int).push(us@[i as int]));
            us@.take(i as int).lemma_filter_push(us@[i as int], |u: ApprovedUser| u.user_id@ != user_id@);
        }
        if !crate::text::str_eq(us[i].user_id.as_str(), user_id) {
            r.push(us[i].clone());
        }
        i = i + 1;
    }
    proof {
        assert(us@.take(us@.len() as int) =~= us@);
    }
    r
}

/// Appends the listing of a platform's entries at `now`.
fn append_infos(results: &mut Vec<PendingEntryInfo>, p: &str, es: &[PendingEntry], now: u64)
    ensures
        final(results)@.len() == old(results)@.len() + es@.len(),
        forall|i: int| 0 <= i < old(results)@.len() ==> #[trigger] final(results)@[i] == old(results)@[i],
        forall|i: int|
            0 <= i < es@.len() ==> #[trigger] lists(final(results)@[old(results)@.len() + i], p@, es@[i], now),
{
    let mut i: usize = 0;
    while i < es.len()
        invariant
            i <= es@.len(),
            results@.len() == old(results)@.len() + i,
            forall|j: int| 0 <= j < old(results)@.len() ==> #[trigger] results@[j] == old(results)@[j],
            forall|j: int| 0 <= j < i ==> #[trigger] lists(results@[old(results)@.len() + j], p@, es@[j], now),
        decreases es.len() - i,
    {
        let hv = chars_of(es[i].hash.as_str());
        let n = if hv.len() < 8 {
            hv.len()
        } else {
            8
        };
        let code = crate::text::string_of_range(hv.as_slice(), 0, n);
        proof {
            assert(code@ =~= es@[i as int].hash@.take(n as int));
        }
        results.push(
            PendingEntryInfo {
                platform: p.to_owned(),
                code,
                user_id: es[i].user_id.clone(),
                user_name: es[i].user_name.clone(),
                age_minutes: now.saturating_sub(es[i].created_at) / 60,
            },
        );
        i = i + 1;
    }
}

/// The manager that the rest of the gateway talks to; it reads the clock
/// for the store.
#[derive(Debug)]
pub struct PairingManager {
    pub store: PairingStore,
}

impl PairingManager {
    /// An empty manager.
    pub fn new() -> (m: Self)
        ensures
            m.store.wf(),
            m.store.pending@ == Map::<Seq<char>, Vec<PendingEntry>>::empty(),
            m.store.approved@ == Map::<Seq<char>, Vec<ApprovedUser>>::empty(),
    {
        PairingManager { store: PairingStore::new() }
    }

    /// Gives a user a code now (see `PairingStore::generate_code_at`).
    pub fn generate_code(&mut self, platform: &str, user_id: &str, user_name: &str) -> (r: Option<String>)
        requires
            old(self).store.wf(),
        ensures
            final(self).store.wf(),
            exists|now: u64| #[trigger] generation(old(self).store, final(self).store, platform@, user_id@, user_name@, r, now),
    {
        let now = unix_now_secs();
        let r = self.store.generate_code_at(platform, user_id, user_name, now);
        proof {
            assert(generation(old(self).store, self.store, platform@, user_id@, user_name@, r, now));
        }
        r
    }

    /// Approves a code now (see `PairingStore::approve_code_at`).
    pub fn approve_code(&mut self, platform: &str, code: &str) -> (r: Option<(String, String)>)
        requires
            old(self).store.wf(),
        ensures
            final(self).store.wf(),
            exists|now: u64| #[trigger] approval(old(self).store, final(self).store, platform@, code@, r, now),
            r matches Some(p) ==> exists|i: int|
                0 <= i < old(self).store.pending_of(platform@).len() && p.0@ == (#[trigger] old(self).store.pending_of(platform@)[i]).user_id@ && p.1@ == old(self).store.pending_of(platform@)[i].user_name@
                    && code_matches(old(self).store.pending_of(platform@)[i], uppercase(trim(code@))),
    {
        let now = unix_now_secs();
        let ghost before = self.store.pending_of(platform@);
        let r = self.store.approve_code_at(platform, code, now);
        proof {
            assert(approval(old(self).store, self.store, platform@, code@, r, now));
            if r is Some {
                let c = uppercase(trim(code@));
                let live = cleaned(before, now);
                let i = choose|i: int| first_matching(live, c, i);
                assert(live.contains(live[i]));
                before.lemma_filter_contains_rev(|e: PendingEntry| unexpired(e, now), live[i]);
                let k = choose|k: int| 0 <= k < before.len() && before[k] == live[i];
                assert(before[k] == live[i]);
            }
        }
        r
    }

    /// The pending requests of one platform, or of all, as of now.
    pub fn list_pending(&mut self, platform: Option<&str>) -> (r: Vec<PendingEntryInfo>)
        requires
            old(self).store.wf(),
        ensures
            final(self).store.wf(),
            exists|now: u64|
                #[trigger] pending_listing(
                    old(self).store,
                    platform_view(platform),
                    now,
                    r@,
                ),
    {
        let now = unix_now_secs();
        self.store.list_pending_at(platform, now)
    }

    /// The approved users of one platform, or of all.
    pub fn list_approved(&self, platform: Option<&str>) -> (r: Vec<ApprovedUser>)
        requires
            self.store.wf(),
        ensures
            platform matches Some(p) ==> r@ == self.store.approved_of(p@),
            platform is None ==> r@ == all_approved(self.store.approved.key_seq(), self.store.approved@),
    {
        self.store.list_approved(platform)
    }

    /// Whether a user is approved on a platform.
    pub fn is_approved(&self, platform: &str, user_id: &str) -> (b: bool)
        requires
            self.store.wf(),
        ensures
            b == exists|i: int|
                0 <= i < self.store.approved_of(platform@).len() && (#[trigger] self.store.approved_of(
                    platform@,
                )[i]).user_id@ == user_id@,
    {
        self.store.is_approved(platform, user_id)
    }

    /// Withdraws a user's approval (see `PairingStore::revoke`).
    pub fn revoke(&mut self, platform: &str, user_id: &str) -> (b: bool)
        requires
            old(self).store.wf(),
        ensures
            final(self).store.wf(),
            final(self).store.approved_of(platform@) == old(self).store.approved_of(platform@).filter(
                |u: ApprovedUser| u.user_id@ != user_id@,
            ),
            b == (final(self).store.approved_of(platform@).len() != old(self).store.approved_of(platform@).len()),
    {
        self.store.revoke(platform, user_id)
    }
}

/// A code just issued is accepted when it comes back (as typed, trimmed and
/// upper-cased) while it is still valid: some entry of the platform's live
/// codes matches it.
pub proof fn law_issued_code_is_accepted(
    after: Seq<PendingEntry>,
    live: Seq<PendingEntry>,
    code: Seq<char>,
    user_id: Seq<char>,
    user_name: Seq<char>,
    issued_at: u64,
    now: u64,
)
    requires
        issued(after, live, code, user_id, user_name, issued_at),
        issued_at <= now,
        now <= issued_at + CODE_TTL_SECONDS,
    ensures
        exists|i: int| first_matching(cleaned(after, now), uppercase(trim(code)), i),
{
    let f = |e: PendingEntry| unexpired(e, now);
    assert(after =~= live.push(after.last()));
    live.lemma_filter_push(after.last(), f);
    let c = cleaned(after, now);
    let last = c.len() - 1;
    assert(c[last] == after.last());
    assert(code_matches(c[last], uppercase(trim(code))));
    lemma_first_match_exists(c, uppercase(trim(code)), last);
}

/// When some entry matches a code, a first one does.
proof fn lemma_first_match_exists(es: Seq<PendingEntry>, code: Seq<char>, k: int)
    requires
        0 <= k < es.len(),
        code_matches(es[k], code),
    ensures
        exists|i: int| first_matching(es, code, i),
    decreases k,
{
    if exists|j: int| 0 <= j < k && code_matches(#[trigger] es[j], code) {
        let j = choose|j: int| 0 <= j < k && code_matches(#[trigger] es[j], code);
        lemma_first_match_exists(es, code, j);
    } else {
        assert(first_matching(es, code, k));
    }
}

/// Five failed approvals in a row lock a platform's approvals from the
/// fifth one on, for `LOCKOUT_SECONDS`.
pub proof fn law_fifth_failure_locks(lockout: Option<u64>, t1: u64, t2: u64, t3: u64, t4: u64, t5: u64, now: u64)
    requires
        t5 <= now,
        now < t5 + LOCKOUT_SECONDS,
        t5 + LOCKOUT_SECONDS <= u64::MAX,
    ensures
        ({
            let s1 = after_failure(0, lockout, t1);
            let s2 = after_failure(s1.0, s1.1, t2);
            let s3 = after_failure(s2.0, s2.1, t3);
            let s4 = after_failure(s3.0, s3.1, t4);
            let s5 = after_failure(s4.0, s4.1, t5);
            s5.0 == 0 && locks(s5.1, now)
        }),
{
}

/// Right after a code is issued to a user, the user's next request within
/// `RATE_LIMIT_SECONDS` is refused.
pub proof fn law_issue_starts_rate_limit(s: PairingStore, platform: Seq<char>, user_id: Seq<char>, t: u64, now: u64)
    requires
        s.rate_limits.last_requests@.contains_key(request_key(platform, user_id)),
        s.rate_limits.last_requests@[request_key(platform, user_id)] == t,
        t <= now,
        now < t + RATE_LIMIT_SECONDS,
    ensures
        s.rate_limited(platform, user_id, now),
{
}

} // verus!
