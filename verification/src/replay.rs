//! Protection against replayed handshakes.
//!
//! The first message of a handshake carries a time stamp and a random number. A message is
//! refused where its stamp is not fresh or its number was seen before.

use vstd::prelude::*;
use vstd::string::*;

use crate::clock::{clock_told_secs, elapsed_secs, now_secs, passed_secs, present, was_present};
use crate::error::{is_crypto_error, CoreError, CoreResult};
use crate::octets::{
    append_bytes, be_bytes, be_value, lemma_be_bytes_len, lemma_be_read_back, lemma_be_write_back,
    lemma_pow256_values, push_be, read_be,
};
use crate::text::{decimal, push_decimal};

verus! {

/// The length of the protection: eight bytes of time stamp, sixteen of random number.
pub const REPLAY_PAYLOAD_LEN: usize = 24;

/// How many seconds a time stamp may be off.
pub const REPLAY_WINDOW_SECS: u64 = 60;

/// How many numbers are remembered at most.
pub const MAX_NONCE_CACHE_ENTRIES: usize = 100_000;

/// How many seconds pass at least between two cleanings.
pub const PRUNE_INTERVAL_SECS: u64 = 10;

/// What identifies a first message: its time stamp and its random number in two halves.
#[derive(Debug, Clone, Copy, PartialEq, Eq, Structural)]
pub struct Nonce {
    pub ts: u64,
    pub hi: u64,
    pub lo: u64,
}

/// The order of nonces: oldest first.
pub open spec fn nonce_lt(a: Nonce, b: Nonce) -> bool {
    a.ts < b.ts || (a.ts == b.ts && (a.hi < b.hi || (a.hi == b.hi && a.lo < b.lo)))
}

/// The nonce of a payload.
pub open spec fn nonce_of(payload: Seq<u8>) -> Nonce {
    Nonce {
        ts: be_value(payload.subrange(0, 8)) as u64,
        hi: be_value(payload.subrange(8, 16)) as u64,
        lo: be_value(payload.subrange(16, 24)) as u64,
    }
}

/// Whether nonces are in strictly ascending order.
pub open spec fn nonces_sorted(s: Seq<Nonce>) -> bool {
    forall|i: int, j: int| 0 <= i < j < s.len() ==> nonce_lt(#[trigger] s[i], #[trigger] s[j])
}

/// Whether a nonce is still within the window at `now`, or ahead of it.
pub open spec fn still_fresh(n: Nonce, now: u64) -> bool {
    now - n.ts <= 60
}

/// What is remembered after a cleaning at `now`.
pub open spec fn pruned(seen: Set<Nonce>, now: u64) -> Set<Nonce> {
    seen.filter(|n: Nonce| still_fresh(n, now))
}

/// What is remembered once a payload has been looked at, before it is judged: cleaned where
/// that is due or there is no more room.
pub open spec fn cleaned(seen: Set<Nonce>, now: u64, due: bool) -> Set<Nonce> {
    if due || seen.len() >= 100_000 {
        pruned(seen, now)
    } else {
        seen
    }
}

/// Whether the time stamp of a payload is within the window.
pub open spec fn timely(payload: Seq<u8>, now: u64) -> bool {
    let ts = nonce_of(payload).ts;
    ts - now <= 60 && now - ts <= 60
}

/// What is wrong with a payload, in words; `None` where it is accepted.
pub open spec fn replay_error(
    seen: Set<Nonce>,
    payload: Seq<u8>,
    now: u64,
    due: bool,
) -> Option<Seq<char>> {
    if payload.len() < 24 {
        Some("重放保护 payload 过短：需要 24 字节，实际 "@ + decimal(payload.len()))
    } else {
        let ts = nonce_of(payload).ts;
        if ts - now > 60 {
            Some("握手时间戳超前过多 ("@ + decimal((ts - now) as nat) + "s > 60s)，拒绝"@)
        } else if now - ts > 60 {
            Some("握手时间戳过期 ("@ + decimal((now - ts) as nat) + "s > 60s)，拒绝重放"@)
        } else if cleaned(seen, now, due).len() >= 100_000 {
            Some("nonce 缓存已达硬上限"@)
        } else if cleaned(seen, now, due).contains(nonce_of(payload)) {
            Some("握手 nonce 重复，拒绝精确重放"@)
        } else {
            None
        }
    }
}

/// What is remembered after a payload was judged.
pub open spec fn seen_after(
    seen: Set<Nonce>,
    payload: Seq<u8>,
    now: u64,
    due: bool,
) -> Set<Nonce> {
    if payload.len() < 24 || !timely(payload, now) {
        seen
    } else if replay_error(seen, payload, now, due) is None {
        cleaned(seen, now, due).insert(nonce_of(payload))
    } else {
        cleaned(seen, now, due)
    }
}

/// Whether `answer` and what is remembered afterwards are right.
pub open spec fn judged(
    before: Set<Nonce>,
    after: Set<Nonce>,
    payload: Seq<u8>,
    now: u64,
    due: bool,
    answer: CoreResult<()>,
) -> bool {
    &&& after == seen_after(before, payload, now, due)
    &&& match answer {
        Ok(()) => replay_error(before, payload, now, due) is None,
        Err(e) => replay_error(before, payload, now, due) matches Some(m) && is_crypto_error(e, m),
    }
}

/// The nonces of accepted messages, as long as they matter.
#[derive(Debug)]
pub struct SeenNonces {
    list: Vec<Nonce>,
    max_seen_timestamp: u64,
}

impl View for SeenNonces {
    type V = Set<Nonce>;

    closed spec fn view(&self) -> Set<Nonce> {
        self.list@.to_set()
    }
}

proof fn lemma_sorted_set(s: Seq<Nonce>)
    requires
        nonces_sorted(s),
    ensures
        s.no_duplicates(),
        s.to_set().finite(),
        s.to_set().len() == s.len(),
{
    assert forall|i: int, j: int| 0 <= i < s.len() && 0 <= j < s.len() && i != j implies s[i]
        != s[j] by {
        if i < j {
            assert(nonce_lt(s[i], s[j]));
        } else {
            assert(nonce_lt(s[j], s[i]));
        }
    }
    s.unique_seq_to_set();
}

impl SeenNonces {
    pub closed spec fn wf(&self) -> bool {
        nonces_sorted(self.list@)
    }

    /// The latest time stamp that was within the window when it came.
    pub closed spec fn latest(&self) -> u64 {
        self.max_seen_timestamp
    }

    pub fn new() -> (r: Self)
        ensures
            r.wf(),
            r@ == Set::<Nonce>::empty(),
            r.latest() == 0,
    {
        let r = SeenNonces { list: Vec::new(), max_seen_timestamp: 0 };
        assert(r@ =~= Set::<Nonce>::empty());
        r
    }

    /// The number of remembered nonces before `n`.
    fn rank(&self, n: Nonce) -> (r: usize)
        requires
            self.wf(),
        ensures
            r <= self.list@.len(),
            forall|i: int| 0 <= i < r ==> nonce_lt(#[trigger] self.list@[i], n),
            forall|i: int| r <= i < self.list@.len() ==> !nonce_lt(#[trigger] self.list@[i], n),
    {
        let mut lo: usize = 0;
        let mut hi: usize = self.list.len();
        while lo < hi
            invariant
                self.wf(),
                lo <= hi <= self.list@.len(),
                forall|i: int| 0 <= i < lo ==> nonce_lt(#[trigger] self.list@[i], n),
                forall|i: int| hi <= i < self.list@.len() ==> !nonce_lt(#[trigger] self.list@[i], n),
            decreases hi - lo,
        {
            let mid: usize = lo + (hi - lo) / 2;
            let m = self.list[mid];
            if m.ts < n.ts || (m.ts == n.ts && (m.hi < n.hi || (m.hi == n.hi && m.lo < n.lo))) {
                assert forall|i: int| 0 <= i <= mid implies nonce_lt(
                    #[trigger] self.list@[i],
                    n,
                ) by {
                    if i < mid {
                        assert(nonce_lt(self.list@[i], self.list@[mid as int]));
                    }
                }
                lo = mid + 1;
            } else {
                assert forall|i: int| mid <= i < self.list@.len() implies !nonce_lt(
                    #[trigger] self.list@[i],
                    n,
                ) by {
                    if i > mid {
                        assert(nonce_lt(self.list@[mid as int], self.list@[i]));
                    }
                }
                hi = mid;
            }
        }
        lo
    }

    /// Forgets the nonces that have left the window at `now`.
    fn prune(&mut self, now: u64)
        requires
            old(self).wf(),
        ensures
            final(self).wf(),
            final(self)@ == pruned(old(self)@, now),
            final(self).latest() == old(self).latest(),
    {
        let ghost start = self.list@;
        let bound = Nonce { ts: if now >= 60 { now - 60 } else { 0 }, hi: 0, lo: 0 };
        let k: usize = self.rank(bound);
        self.list = self.list.split_off(k);
        proof {
            let t = self.list@;
            assert(t =~= start.subrange(k as int, start.len() as int));
            assert forall|i: int, j: int| 0 <= i < j < t.len() implies nonce_lt(
                #[trigger] t[i],
                #[trigger] t[j],
            ) by {
                assert(nonce_lt(start[i + k], start[j + k]));
            }
            assert forall|n: Nonce| t.to_set().contains(n) <==> pruned(
                start.to_set(),
                now,
            ).contains(n) by {
                if t.contains(n) {
                    let i = choose|i: int| 0 <= i < t.len() && t[i] == n;
                    assert(start[i + k] == n);
                    assert(!nonce_lt(start[i + k], bound));
                }
                if start.contains(n) && still_fresh(n, now) {
                    let i = choose|i: int| 0 <= i < start.len() && start[i] == n;
                    if i < k {
                        assert(nonce_lt(start[i], bound));
                    }
                    assert(t[i - k] == n);
                }
            }
            assert(self@ =~= pruned(old(self)@, now));
        }
    }

    /// Judges a payload at `now`, and remembers its nonce where it is accepted. `due` says
    /// that it is time for a cleaning; the second result, whether one took place.
    pub fn check(&mut self, payload: &[u8], now: u64, due: bool) -> (r: (CoreResult<()>, bool))
        requires
            old(self).wf(),
        ensures
            final(self).wf(),
            judged(old(self)@, final(self)@, payload@, now, due, r.0),
            r.1 == (payload@.len() >= 24 && timely(payload@, now) && (due || old(self)@.len()
                >= 100_000)),
            final(self).latest() == (if payload@.len() >= 24 && timely(payload@, now) && nonce_of(
                payload@,
            ).ts > old(self).latest() {
                nonce_of(payload@).ts
            } else {
                old(self).latest()
            }),
    {
        if payload.len() < REPLAY_PAYLOAD_LEN {
            let mut m = "重放保护 payload 过短：需要 24 字节，实际 ".to_owned();
            push_decimal(&mut m, payload.len() as u64);
            return (Err(CoreError::Crypto(m)), false);
        }
        proof {
            lemma_pow256_values();
        }
        let nonce = Nonce {
            ts: read_be(payload, 0, 8),
            hi: read_be(payload, 8, 16),
            lo: read_be(payload, 16, 24),
        };
        assert(nonce == nonce_of(payload@));
        if nonce.ts > now {
            if nonce.ts - now > REPLAY_WINDOW_SECS {
                let mut m = "握手时间戳超前过多 (".to_owned();
                push_decimal(&mut m, nonce.ts - now);
                m.append("s > 60s)，拒绝");
                return (Err(CoreError::Crypto(m)), false);
            }
        } else if now - nonce.ts > REPLAY_WINDOW_SECS {
            let mut m = "握手时间戳过期 (".to_owned();
            push_decimal(&mut m, now - nonce.ts);
            m.append("s > 60s)，拒绝重放");
            return (Err(CoreError::Crypto(m)), false);
        }
        if nonce.ts > self.max_seen_timestamp {
            self.max_seen_timestamp = nonce.ts;
        }
        let clean = due || self.count() >= MAX_NONCE_CACHE_ENTRIES;
        if clean {
            self.prune(now);
        }
        assert(self@ == cleaned(old(self)@, now, due));
        if self.count() >= MAX_NONCE_CACHE_ENTRIES {
            return (Err(CoreError::Crypto("nonce 缓存已达硬上限".to_owned())), clean);
        }
        if !self.remember(nonce) {
            return (
                Err(CoreError::Crypto("握手 nonce 重复，拒绝精确重放".to_owned())),
                clean,
            );
        }
        (Ok(()), clean)
    }

    /// How many nonces are remembered.
    fn count(&self) -> (r: usize)
        requires
            self.wf(),
        ensures
            r == self@.len(),
    {
        proof {
            lemma_sorted_set(self.list@);
        }
        self.list.len()
    }

    /// Remembers a nonce, and tells whether it is new.
    fn remember(&mut self, nonce: Nonce) -> (r: bool)
        requires
            old(self).wf(),
        ensures
            final(self).wf(),
            r == !old(self)@.contains(nonce),
            !r ==> final(self)@ == old(self)@,
            r ==> final(self)@ == old(self)@.insert(nonce),
            final(self).latest() == old(self).latest(),
    {
        let ghost s = self.list@;
        let k: usize = self.rank(nonce);
        if k < self.list.len() && self.list[k] == nonce {
            assert(s[k as int] == nonce);
            return false;
        }
        proof {
            if s.contains(nonce) {
                let i = choose|i: int| 0 <= i < s.len() && s[i] == nonce;
                assert(i >= k);
                if i > k {
                    assert(nonce_lt(s[k as int], s[i]));
                }
            }
        }
        self.list.insert(k, nonce);
        proof {
            let t = self.list@;
            assert forall|i: int, j: int| 0 <= i < j < t.len() implies nonce_lt(
                #[trigger] t[i],
                #[trigger] t[j],
            ) by {
                if i < k && j < k {
                    assert(nonce_lt(s[i], s[j]));
                } else if i < k && j > k {
                    assert(nonce_lt(s[i], s[j - 1]));
                } else if i == k {
                    assert(!nonce_lt(s[j - 1], nonce));
                    assert(s[j - 1] != nonce) by {
                        assert(!s.contains(nonce));
                    }
                } else if i > k {
                    assert(nonce_lt(s[i - 1], s[j - 1]));
                }
            }
            assert forall|n: Nonce| t.to_set().contains(n) <==> s.to_set().insert(nonce).contains(
                n,
            ) by {
                if t.contains(n) {
                    let i = choose|i: int| 0 <= i < t.len() && t[i] == n;
                    if i < k {
                        assert(s[i] == n);
                    } else if i > k {
                        assert(s[i - 1] == n);
                    }
                }
                if s.contains(n) {
                    let i = choose|i: int| 0 <= i < s.len() && s[i] == n;
                    if i < k {
                        assert(t[i] == n);
                    } else {
                        assert(t[i + 1] == n);
                    }
                }
                assert(t[k as int] == nonce);
            }
            assert(self@ =~= s.to_set().insert(nonce));
        }
        true
    }
}

/// Remembers first messages and when it was last cleaned.
#[derive(Debug)]
pub struct NonceCache {
    seen: SeenNonces,
    last_prune: Option<std::time::Instant>,
}

impl View for NonceCache {
    type V = Set<Nonce>;

    closed spec fn view(&self) -> Set<Nonce> {
        self.seen@
    }
}

impl Default for NonceCache {
    fn default() -> (r: Self)
        ensures
            r.wf(),
            r@ == Set::<Nonce>::empty(),
    {
        NonceCache::new()
    }
}

/// Whether a payload leads to a cleaning.
pub open spec fn cleans(seen: Set<Nonce>, payload: Seq<u8>, now: u64, due: bool) -> bool {
    payload.len() >= 24 && timely(payload, now) && (due || seen.len() >= 100_000)
}

/// Whether a payload was judged at `now` as the clock has it, and the time of the last cleaning
/// kept.
pub open spec fn judged_at(
    before: NonceCache,
    after: NonceCache,
    payload: Seq<u8>,
    now: u64,
    answer: CoreResult<()>,
) -> bool {
    exists|due: bool| #[trigger]
        before.due_told(due) && judged(before@, after@, payload, now, due, answer) && (if cleans(
            before@,
            payload,
            now,
            due,
        ) {
            after.last_cleaning() matches Some(t) && was_present(t)
        } else {
            after.last_cleaning() == before.last_cleaning()
        })
}

/// Whether a payload was judged now, as the clock has it.
pub open spec fn judged_now(
    before: NonceCache,
    after: NonceCache,
    payload: Seq<u8>,
    answer: CoreResult<()>,
) -> bool {
    exists|now: u64| #[trigger] clock_told_secs(now) && judged_at(before, after, payload, now, answer)
}

impl NonceCache {
    pub closed spec fn wf(&self) -> bool {
        self.seen.wf()
    }

    /// When the cache was last cleaned.
    pub closed spec fn last_cleaning(&self) -> Option<std::time::Instant> {
        self.last_prune
    }

    /// Whether the clock told whether it is time for a cleaning: the first, or ten seconds after
    /// the last.
    pub open spec fn due_told(&self, due: bool) -> bool {
        match self.last_cleaning() {
            Some(then) => exists|secs: u64| #[trigger] passed_secs(then, secs) && due == (secs >= 10),
            None => due,
        }
    }

    pub fn new() -> (r: Self)
        ensures
            r.wf(),
            r@ == Set::<Nonce>::empty(),
            r.last_cleaning() is None,
    {
        NonceCache { seen: SeenNonces::new(), last_prune: None }
    }

    /// Judges a payload at `now`, given in seconds since the Unix epoch.
    pub fn verify_replay_at(&mut self, payload: &[u8], now: u64) -> (r: CoreResult<()>)
        requires
            old(self).wf(),
        ensures
            final(self).wf(),
            judged_at(*old(self), *final(self), payload@, now, r),
    {
        let due = match &self.last_prune {
            Some(then) => {
                let secs = elapsed_secs(then);
                assert(passed_secs(*then, secs));
                secs >= PRUNE_INTERVAL_SECS
            },
            None => true,
        };
        assert(old(self).due_told(due));
        let (answer, clean) = self.seen.check(payload, now, due);
        if clean {
            self.last_prune = Some(present());
        }
        assert(judged(old(self)@, self@, payload@, now, due, answer));
        answer
    }

    /// Judges a payload now: its time stamp has to be within the window, and its nonce new.
    pub fn verify_replay(&mut self, payload: &[u8]) -> (r: CoreResult<()>)
        requires
            old(self).wf(),
        ensures
            final(self).wf(),
            judged_now(*old(self), *final(self), payload@, r),
            payload@.len() < 24 ==> r is Err,
            payload@.len() >= 24 && old(self)@.contains(nonce_of(payload@)) ==> r is Err,
    {
        let now: u64 = now_secs();
        let r = self.verify_replay_at(payload, now);
        proof {
            let due = choose|due: bool| #[trigger]
                old(self).due_told(due) && judged(old(self)@, self@, payload@, now, due, r);
            if payload@.len() >= 24 && old(self)@.contains(nonce_of(payload@)) {
                law_replay_is_refused(old(self)@, payload@, now, due);
            }
        }
        r
    }
}

/// The bytes of the protection.
pub open spec fn replay_bytes(now: u64, random: Seq<u8>) -> Seq<u8> {
    be_bytes(now as nat, 8) + random
}

/// Sixteen random bytes.
///
/// Calls `rand::RngCore::fill_bytes` of `rand::thread_rng`. Nothing is promised of the bytes,
/// which rest on chance.
#[verifier::external_body]
fn random16() -> [u8; 16] {
    let mut out = [0u8; 16];
    rand::RngCore::fill_bytes(&mut rand::thread_rng(), &mut out);
    out
}

/// Whether these bytes were drawn at random.
pub closed spec fn drawn16(bytes: [u8; 16]) -> bool {
    call_ensures(random16, (), bytes)
}

/// Whether `p` is the protection for a message sent at a time that the clock told, with bytes
/// drawn at random.
pub open spec fn fresh_protection(p: Seq<u8>) -> bool {
    exists|now: u64, random: [u8; 16]| #[trigger]
        clock_told_secs(now) && #[trigger] drawn16(random) && p == replay_bytes(now, random@)
}

/// The protection for a message sent at `now`.
pub fn replay_payload_at(now: u64, random: &[u8; 16]) -> (r: Vec<u8>)
    ensures
        r@ == replay_bytes(now, random@),
        r@.len() == 24,
{
    let mut out: Vec<u8> = Vec::new();
    push_be(&mut out, now, 8);
    append_bytes(&mut out, random.as_slice());
    proof {
        lemma_be_bytes_len(now as nat, 8);
        assert(out@ =~= replay_bytes(now, random@));
    }
    out
}

/// The protection for a message sent now.
pub fn generate_replay_payload() -> (r: Vec<u8>)
    ensures
        r@.len() == 24,
        fresh_protection(r@),
{
    let random = random16();
    let now: u64 = now_secs();
    assert(clock_told_secs(now) && drawn16(random));
    replay_payload_at(now, &random)
}

/// A message that was accepted and is still remembered is never accepted again, at no time.
pub proof fn law_replay_is_refused(seen: Set<Nonce>, payload: Seq<u8>, now: u64, due: bool)
    requires
        payload.len() >= 24,
        seen.contains(nonce_of(payload)),
    ensures
        replay_error(seen, payload, now, due) is Some,
{
}

/// An accepted message is remembered.
pub proof fn law_accepted_is_remembered(seen: Set<Nonce>, payload: Seq<u8>, now: u64, due: bool)
    requires
        replay_error(seen, payload, now, due) is None,
    ensures
        seen_after(seen, payload, now, due).contains(nonce_of(payload)),
{
}

/// What is remembered is forgotten only once its time stamp has left the window.
pub proof fn law_forgotten_only_when_stale(
    seen: Set<Nonce>,
    payload: Seq<u8>,
    now: u64,
    due: bool,
    n: Nonce,
)
    requires
        seen.contains(n),
        !seen_after(seen, payload, now, due).contains(n),
    ensures
        now - n.ts > 60,
{
}

/// There are never more nonces remembered than the limit.
pub proof fn law_memory_is_bounded(seen: Set<Nonce>, payload: Seq<u8>, now: u64, due: bool)
    requires
        seen.finite(),
        seen.len() <= 100_000,
    ensures
        seen_after(seen, payload, now, due).len() <= 100_000,
{
    let c = cleaned(seen, now, due);
    assert(c.finite() && c.len() <= seen.len()) by {
        vstd::set_lib::lemma_len_subset(c, seen);
    }
}

/// A message sent at `then` is accepted at any time within the window by whoever has not seen
/// its nonce and has room.
pub proof fn law_fresh_is_accepted(
    seen: Set<Nonce>,
    then: u64,
    random: Seq<u8>,
    now: u64,
    due: bool,
)
    requires
        random.len() == 16,
        -60 <= then - now <= 60,
        !seen.contains(nonce_of(replay_bytes(then, random))),
        cleaned(seen, now, due).len() < 100_000,
    ensures
        replay_error(seen, replay_bytes(then, random), now, due) is None,
{
    let payload = replay_bytes(then, random);
    lemma_be_bytes_len(then as nat, 8);
    lemma_pow256_values();
    assert(payload.subrange(0, 8) =~= be_bytes(then as nat, 8));
    lemma_be_read_back(payload, 0, then as nat, 8);
}

/// Different payloads have different nonces.
pub proof fn law_nonce_identifies_payload(a: Seq<u8>, b: Seq<u8>)
    requires
        a.len() == 24,
        b.len() == 24,
        nonce_of(a) == nonce_of(b),
    ensures
        a == b,
{
    lemma_pow256_values();
    lemma_part(a, 0);
    lemma_part(a, 8);
    lemma_part(a, 16);
    lemma_part(b, 0);
    lemma_part(b, 8);
    lemma_part(b, 16);
    assert(a =~= a.subrange(0, 8) + a.subrange(8, 16) + a.subrange(16, 24));
    assert(b =~= b.subrange(0, 8) + b.subrange(8, 16) + b.subrange(16, 24));
}

proof fn lemma_part(s: Seq<u8>, from: int)
    requires
        0 <= from,
        from + 8 <= s.len(),
    ensures
        s.subrange(from, from + 8) == be_bytes(
            (be_value(s.subrange(from, from + 8)) as u64) as nat,
            8,
        ),
{
    let part = s.subrange(from, from + 8);
    lemma_be_write_back(part);
    crate::octets::lemma_be_value_bound(part);
    lemma_pow256_values();
}

/// A message that was accepted is not accepted again, at whichever time it comes.
pub proof fn law_second_use_is_refused(
    first: &mut SeenNonces,
    second: &mut SeenNonces,
    payload: &[u8],
    now: u64,
    due: bool,
    later: u64,
    due_later: bool,
    once: (CoreResult<()>, bool),
    twice: (CoreResult<()>, bool),
)
    requires
        call_ensures(SeenNonces::check, (first, payload, now, due), once),
        once.0 is Ok,
        *old(second) == *final(first),
        call_ensures(SeenNonces::check, (second, payload, later, due_later), twice),
    ensures
        twice.0 matches Err(e) && e is Crypto,
{
    law_accepted_is_remembered(old(first)@, payload@, now, due);
    law_replay_is_refused(old(second)@, payload@, later, due_later);
}

/// A message sent at a time is accepted within sixty seconds of it, before or after, by whoever has seen
/// nothing yet; further off it is refused, and so is what is too short. What is refused for its time is not
/// remembered.
pub proof fn law_message_is_good_for_a_minute(
    made: SeenNonces,
    seen: &mut SeenNonces,
    then: u64,
    random: &[u8; 16],
    protection: Vec<u8>,
    payload: &[u8],
    now: u64,
    due: bool,
    r: (CoreResult<()>, bool),
)
    requires
        call_ensures(SeenNonces::new, (), made),
        *old(seen) == made,
        call_ensures(replay_payload_at, (then, random), protection),
        payload@ == protection@,
        call_ensures(SeenNonces::check, (seen, payload, now, due), r),
    ensures
        protection@.len() == 24,
        r.0 is Ok <==> -60 <= then - now <= 60,
        r.0 is Err ==> final(seen)@ == old(seen)@,
        r.0 is Ok ==> final(seen)@.len() == 1,
{
    let p = payload@;
    assert(cleaned(old(seen)@, now, due) =~= Set::<Nonce>::empty());
    lemma_stamp_of(then, random@);
    if -60 <= then - now <= 60 {
        law_fresh_is_accepted(old(seen)@, then, random@, now, due);
    }
}

proof fn lemma_stamp_of(then: u64, random: Seq<u8>)
    requires
        random.len() == 16,
    ensures
        nonce_of(replay_bytes(then, random)).ts == then,
{
    let payload = replay_bytes(then, random);
    lemma_be_bytes_len(then as nat, 8);
    lemma_pow256_values();
    assert(payload.subrange(0, 8) =~= be_bytes(then as nat, 8));
    lemma_be_read_back(payload, 0, then as nat, 8);
}

/// Whatever comes, what is too short is refused, no more is remembered than a hundred thousand messages
/// where no more were, and nothing is forgotten that could still be accepted.
pub proof fn law_memory_is_kept_and_bounded(
    seen: &mut SeenNonces,
    payload: &[u8],
    now: u64,
    due: bool,
    r: (CoreResult<()>, bool),
)
    requires
        old(seen)@.finite(),
        call_ensures(SeenNonces::check, (seen, payload, now, due), r),
    ensures
        payload@.len() < 24 ==> r.0 is Err,
        old(seen)@.len() <= 100_000 ==> final(seen)@.len() <= 100_000,
        forall|n: Nonce| #[trigger]
            old(seen)@.contains(n) && !final(seen)@.contains(n) ==> now - n.ts > 60,
        r.0 matches Err(e) ==> e is Crypto,
{
    if old(seen)@.len() <= 100_000 {
        law_memory_is_bounded(old(seen)@, payload@, now, due);
    }
    assert forall|n: Nonce| #[trigger]
        old(seen)@.contains(n) && !final(seen)@.contains(n) implies now - n.ts > 60 by {
        law_forgotten_only_when_stale(old(seen)@, payload@, now, due, n);
    }
}

/// With its own clock, too, a cache accepts no message twice.
pub proof fn law_cache_refuses_second_use(
    first: &mut NonceCache,
    second: &mut NonceCache,
    payload: &[u8],
    now: u64,
    once: CoreResult<()>,
    twice: CoreResult<()>,
)
    requires
        call_ensures(NonceCache::verify_replay_at, (first, payload, now), once),
        once is Ok,
        *old(second) == *final(first),
        call_ensures(NonceCache::verify_replay, (second, payload), twice),
    ensures
        twice is Err,
{
    let due = choose|due: bool| #[trigger]
        old(first).due_told(due) && judged(old(first)@, final(first)@, payload@, now, due, once) && (
        if cleans(old(first)@, payload@, now, due) {
            final(first).last_cleaning() matches Some(t) && was_present(t)
        } else {
            final(first).last_cleaning() == old(first).last_cleaning()
        });
    law_accepted_is_remembered(old(first)@, payload@, now, due);
}

/// A message that is protected now carries a time that the clock told: it is accepted within a minute of that
/// by whoever has seen nothing yet.
pub proof fn law_new_protection_is_fresh(
    protection: Vec<u8>,
    made: NonceCache,
    seen: &mut NonceCache,
    payload: &[u8],
    now: u64,
    r: CoreResult<()>,
)
    requires
        call_ensures(generate_replay_payload, (), protection),
        payload@ == protection@,
        call_ensures(NonceCache::new, (), made),
        *old(seen) == made,
        call_ensures(NonceCache::verify_replay_at, (seen, payload, now), r),
    ensures
        protection@.len() == 24,
        exists|then: u64| #[trigger] clock_told_secs(then) && (r is Ok <==> -60 <= then - now <= 60),
{
    let (then, random) = choose|then: u64, random: [u8; 16]| #[trigger]
        clock_told_secs(then) && #[trigger] drawn16(random) && protection@ == replay_bytes(
            then,
            random@,
        );
    assert(clock_told_secs(then));
    lemma_stamp_of(then, random@);
    let due = choose|due: bool| #[trigger]
        old(seen).due_told(due) && judged(old(seen)@, final(seen)@, payload@, now, due, r) && (
        if cleans(old(seen)@, payload@, now, due) {
            final(seen).last_cleaning() matches Some(t) && was_present(t)
        } else {
            final(seen).last_cleaning() == old(seen).last_cleaning()
        });
    assert(cleaned(old(seen)@, now, due) =~= Set::<Nonce>::empty());
    if -60 <= then - now <= 60 {
        law_fresh_is_accepted(old(seen)@, then, random@, now, due);
    }
}

/// A message that was not seen is accepted within a minute of its time by whoever remembers less than a hundred
/// thousand messages.
pub proof fn law_unseen_message_is_accepted(
    seen: &mut SeenNonces,
    then: u64,
    random: &[u8; 16],
    protection: Vec<u8>,
    payload: &[u8],
    now: u64,
    due: bool,
    r: (CoreResult<()>, bool),
)
    requires
        old(seen)@.finite(),
        old(seen)@.len() < 100_000,
        call_ensures(replay_payload_at, (then, random), protection),
        payload@ == protection@,
        !old(seen)@.contains(nonce_of(payload@)),
        call_ensures(SeenNonces::check, (seen, payload, now, due), r),
    ensures
        r.0 is Ok <==> -60 <= then - now <= 60,
        r.0 is Ok ==> final(seen)@.contains(nonce_of(payload@)),
{
    lemma_stamp_of(then, random@);
    vstd::set_lib::lemma_len_subset(cleaned(old(seen)@, now, due), old(seen)@);
    if -60 <= then - now <= 60 {
        law_fresh_is_accepted(old(seen)@, then, random@, now, due);
    }
}

} // verus!
