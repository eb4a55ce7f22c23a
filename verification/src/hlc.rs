//! The hybrid logical clock and the local sequence number.
//!
//! The clock orders events approximately for display, gap detection and retention windows. It
//! takes no part in the ordering of document changes.

use vstd::prelude::*;
use vstd::string::*;

use crate::clock::{clock_told, now_millis};
use crate::text::{decimal, decimal_signed, decimal_signed_string, push_decimal};

verus! {

/// A time stamp: wall-clock milliseconds, and a counter that orders events within one.
#[derive(Debug, Clone, Copy, PartialEq, Eq, Ord, Structural)]
pub struct Hlc {
    /// Milliseconds since the Unix epoch.
    pub physical_ms: i64,
    /// Counter within the millisecond.
    pub logical: u32,
}

/// The order of time stamps: by milliseconds, then by counter.
pub open spec fn hlc_before(a: Hlc, b: Hlc) -> bool {
    a.physical_ms < b.physical_ms || (a.physical_ms == b.physical_ms && a.logical < b.logical)
}

/// The larger of two milliseconds.
pub open spec fn later(a: i64, b: i64) -> i64 {
    if a >= b {
        a
    } else {
        b
    }
}

/// The clock after a local event at wall time `now`.
pub open spec fn ticked(h: Hlc, now: i64) -> Hlc {
    if now > h.physical_ms {
        Hlc { physical_ms: now, logical: 0 }
    } else {
        Hlc { physical_ms: h.physical_ms, logical: (h.logical + 1) as u32 }
    }
}

/// The clock after the receipt of an event stamped `remote` at wall time `now`.
///
/// The physical time never falls behind any of the three. Where both stamps carry the same
/// milliseconds the counter passes both of theirs; else it passes that of the stamp whose
/// milliseconds are kept, and starts again where the wall clock is ahead of both.
pub open spec fn received(h: Hlc, remote: Hlc, now: i64) -> Hlc {
    let physical_ms = later(later(h.physical_ms, remote.physical_ms), now);
    let logical = if h.physical_ms == remote.physical_ms {
        (if h.logical >= remote.logical {
            h.logical
        } else {
            remote.logical
        }) + 1
    } else if physical_ms == h.physical_ms {
        h.logical + 1
    } else if physical_ms == remote.physical_ms {
        remote.logical + 1
    } else {
        0
    };
    Hlc { physical_ms, logical: logical as u32 }
}

/// The 64-bit form: 44 bits of milliseconds above 20 bits of counter.
pub open spec fn compact(h: Hlc) -> int {
    (h.physical_ms as int % 0x1000_0000_0000) * 0x10_0000 + h.logical as int % 0x10_0000
}

impl Hlc {
    /// The earliest stamp of the epoch.
    pub fn zero() -> (r: Self)
        ensures
            r == (Hlc { physical_ms: 0, logical: 0 }),
    {
        Hlc { physical_ms: 0, logical: 0 }
    }

    /// The first stamp of a millisecond.
    pub fn from_millis(physical_ms: i64) -> (r: Self)
        ensures
            r == (Hlc { physical_ms, logical: 0 }),
    {
        Hlc { physical_ms, logical: 0 }
    }

    /// Advances the clock for a local event at wall time `now`.
    pub fn tick_at(&mut self, now: i64) -> (r: Hlc)
        requires
            now > old(self).physical_ms || old(self).logical < u32::MAX,
        ensures
            *final(self) == ticked(*old(self), now),
            r == *final(self),
            hlc_before(*old(self), r),
    {
        if now > self.physical_ms {
            self.physical_ms = now;
            self.logical = 0;
        } else {
            self.logical = self.logical + 1;
        }
        *self
    }

    /// Advances the clock for a local event now.
    pub fn tick(&mut self) -> (r: Hlc)
        requires
            old(self).logical < u32::MAX,
        ensures
            exists|now: i64| #[trigger]
                clock_told(now) && *final(self) == ticked(*old(self), now),
            r == *final(self),
            hlc_before(*old(self), r),
    {
        let now: i64 = now_millis();
        self.tick_at(now)
    }

    /// Merges the stamp of a remote event that arrives at wall time `now`.
    pub fn receive_at(&mut self, remote: &Hlc, now: i64) -> (r: Hlc)
        requires
            old(self).logical < u32::MAX,
            remote.logical < u32::MAX,
        ensures
            *final(self) == received(*old(self), *remote, now),
            r == *final(self),
            hlc_before(*old(self), r),
            hlc_before(*remote, r),
    {
        let mut physical: i64 = self.physical_ms;
        if remote.physical_ms > physical {
            physical = remote.physical_ms;
        }
        if now > physical {
            physical = now;
        }
        if self.physical_ms == remote.physical_ms {
            if remote.logical > self.logical {
                self.logical = remote.logical;
            }
            self.logical = self.logical + 1;
        } else if physical == self.physical_ms {
            self.logical = self.logical + 1;
        } else if physical == remote.physical_ms {
            self.logical = remote.logical + 1;
        } else {
            self.logical = 0;
        }
        self.physical_ms = physical;
        *self
    }

    /// Merges the stamp of a remote event that arrives now.
    pub fn receive(&mut self, remote: &Hlc) -> (r: Hlc)
        requires
            old(self).logical < u32::MAX,
            remote.logical < u32::MAX,
        ensures
            exists|now: i64| #[trigger]
                clock_told(now) && *final(self) == received(*old(self), *remote, now),
            r == *final(self),
            hlc_before(*old(self), r),
            hlc_before(*remote, r),
    {
        let now: i64 = now_millis();
        self.receive_at(remote, now)
    }

    /// The 64-bit form of the stamp.
    pub fn to_compact(&self) -> (r: u64)
        ensures
            r == compact(*self),
    {
        let p = self.physical_ms;
        let l = self.logical;
        let physical: u64 = (#[verifier::truncate] (p as u64)) & 0xFFF_FFFF_FFFFu64;
        let logical: u64 = (l as u64) & 0xF_FFFFu64;
        proof {
            let wide = p as u64;
            if p >= 0 {
                assert(wide == p);
                assert(wide & 0xFFF_FFFF_FFFFu64 == wide % 0x1000_0000_0000u64) by (bit_vector);
            } else {
                assert(p < 0 ==> (p as u64) == p + 0x1_0000_0000_0000_0000) by (bit_vector);
                assert(wide & 0xFFF_FFFF_FFFFu64 == wide % 0x1000_0000_0000u64) by (bit_vector);
                assert((p + 0x1_0000_0000_0000_0000) % 0x1000_0000_0000 == p as int
                    % 0x1000_0000_0000);
            }
            let wl = l as u64;
            assert(wl & 0xF_FFFFu64 == wl % 0x10_0000u64) by (bit_vector);
            assert(physical < 0x1000_0000_0000u64 && logical < 0x10_0000u64 ==> ((physical << 20u64)
                | logical) == physical * 0x10_0000 + logical) by (bit_vector);
        }
        (physical << 20u64) | logical
    }

    /// The stamp with a given 64-bit form.
    pub fn from_compact(v: u64) -> (r: Self)
        ensures
            r.physical_ms == v as int / 0x10_0000,
            r.logical == v as int % 0x10_0000,
    {
        proof {
            assert(v >> 20u64 == v / 0x10_0000u64) by (bit_vector);
            assert(v & 0xF_FFFFu64 == v % 0x10_0000u64) by (bit_vector);
        }
        Hlc { physical_ms: (v >> 20u64) as i64, logical: (v & 0xF_FFFFu64) as u32 }
    }

    /// The stamp as text: milliseconds, a hyphen, the counter.
    pub fn to_string(&self) -> (r: String)
        ensures
            r@ == decimal_signed(self.physical_ms as int) + "-"@ + decimal(self.logical as nat),
    {
        let mut out = decimal_signed_string(self.physical_ms);
        out.append("-");
        push_decimal(&mut out, self.logical as u64);
        out
    }
}

impl PartialOrd for Hlc {
    fn partial_cmp(&self, other: &Self) -> (r: Option<std::cmp::Ordering>) {
        if self.physical_ms < other.physical_ms {
            Some(std::cmp::Ordering::Less)
        } else if self.physical_ms > other.physical_ms {
            Some(std::cmp::Ordering::Greater)
        } else if self.logical < other.logical {
            Some(std::cmp::Ordering::Less)
        } else if self.logical > other.logical {
            Some(std::cmp::Ordering::Greater)
        } else {
            Some(std::cmp::Ordering::Equal)
        }
    }
}

impl vstd::std_specs::cmp::PartialOrdSpecImpl for Hlc {
    open spec fn obeys_partial_cmp_spec() -> bool {
        true
    }

    open spec fn partial_cmp_spec(&self, other: &Self) -> Option<std::cmp::Ordering> {
        if hlc_before(*self, *other) {
            Some(std::cmp::Ordering::Less)
        } else if hlc_before(*other, *self) {
            Some(std::cmp::Ordering::Greater)
        } else {
            Some(std::cmp::Ordering::Equal)
        }
    }
}

/// A stamp within 44 bits of milliseconds and 20 bits of counter survives the 64-bit form.
pub proof fn law_compact_roundtrip(h: Hlc)
    requires
        0 <= h.physical_ms < 0x1000_0000_0000,
        h.logical < 0x10_0000,
    ensures
        0 <= compact(h) <= u64::MAX,
        compact(h) / 0x10_0000 == h.physical_ms,
        compact(h) % 0x10_0000 == h.logical as int,
{
}

/// Within those widths the 64-bit forms are ordered as the stamps are.
pub proof fn law_compact_keeps_order(a: Hlc, b: Hlc)
    requires
        0 <= a.physical_ms < 0x1000_0000_0000,
        a.logical < 0x10_0000,
        0 <= b.physical_ms < 0x1000_0000_0000,
        b.logical < 0x10_0000,
    ensures
        hlc_before(a, b) <==> compact(a) < compact(b),
{
}

/// The order of stamps is total, and no stamp comes before itself.
pub proof fn law_order_is_strict_and_total(a: Hlc, b: Hlc, c: Hlc)
    ensures
        !hlc_before(a, a),
        hlc_before(a, b) || hlc_before(b, a) || a == b,
        hlc_before(a, b) && hlc_before(b, c) ==> hlc_before(a, c),
{
}

/// A number that only grows, to tell repeated messages from new ones.
#[derive(Debug, Clone, Copy, PartialEq, Eq, Hash, Structural)]
pub struct LocalSeq(pub u64);

impl Default for LocalSeq {
    fn default() -> (r: Self)
        ensures
            r == LocalSeq(0),
    {
        LocalSeq(0)
    }
}

impl LocalSeq {
    pub fn new() -> (r: Self)
        ensures
            r == LocalSeq(0),
    {
        LocalSeq(0)
    }

    /// Advances by one and returns the new number.
    pub fn next(&mut self) -> (r: u64)
        requires
            old(self).0 < u64::MAX,
        ensures
            final(self).0 == old(self).0 + 1,
            r == final(self).0,
    {
        self.0 = self.0 + 1;
        self.0
    }

    pub fn current(&self) -> (r: u64)
        ensures
            r == self.0,
    {
        self.0
    }

    /// Whether `seen` is not beyond the highest number so far.
    pub fn is_duplicate(&self, seen: u64) -> (r: bool)
        ensures
            r == (seen <= self.0),
    {
        seen <= self.0
    }
}

/// A stamp for a local event is the wall clock where that is ahead, with the counter at zero; else it
/// keeps the milliseconds and counts one on. It never falls behind either.
pub proof fn law_tick_follows_the_wall_clock(clock: &mut Hlc, now: i64, r: Hlc)
    requires
        old(clock).logical < u32::MAX,
        call_ensures(Hlc::tick_at, (clock, now), r),
    ensures
        r == *final(clock),
        r.physical_ms >= now,
        r.physical_ms >= old(clock).physical_ms,
        r.physical_ms == now || r.physical_ms == old(clock).physical_ms,
        now > old(clock).physical_ms ==> r.logical == 0,
        now <= old(clock).physical_ms ==> r.logical == old(clock).logical + 1,
{
}

/// A stamp for an event that came in is ahead of the clock and of the stamp that came with it, not behind
/// the wall clock, and no further ahead than it has to be: its milliseconds are those of one of the
/// three, and its counter is one more than that of a stamp with these milliseconds, or zero.
pub proof fn law_receipt_passes_both_stamps(clock: &mut Hlc, remote: &Hlc, now: i64, r: Hlc)
    requires
        old(clock).logical < u32::MAX,
        remote.logical < u32::MAX,
        call_ensures(Hlc::receive_at, (clock, remote, now), r),
    ensures
        r == *final(clock),
        r.physical_ms >= now,
        r.physical_ms == now || r.physical_ms == old(clock).physical_ms || r.physical_ms
            == remote.physical_ms,
        r.physical_ms > old(clock).physical_ms || (r.physical_ms == old(clock).physical_ms
            && r.logical > old(clock).logical),
        r.physical_ms > remote.physical_ms || (r.physical_ms == remote.physical_ms && r.logical
            > remote.logical),
        r.logical == 0 || r.logical == old(clock).logical + 1 || r.logical == remote.logical + 1,
        now > old(clock).physical_ms && now > remote.physical_ms && old(clock).physical_ms
            != remote.physical_ms ==> r.logical == 0,
{
}

/// What a stamp becomes in 64 bits is read back as the stamp, within 44 bits of milliseconds and 20 bits
/// of counter.
pub proof fn law_compact_form_is_read_back(h: &Hlc, v: u64, back: Hlc)
    requires
        0 <= h.physical_ms < 0x1000_0000_0000,
        h.logical < 0x10_0000,
        call_ensures(Hlc::to_compact, (h,), v),
        call_ensures(Hlc::from_compact, (v,), back),
    ensures
        back == *h,
        v == h.physical_ms * 0x10_0000 + h.logical,
{
    law_compact_roundtrip(*h);
}

/// Local numbers go up one by one from zero; a number that was given out is a duplicate from then on, and
/// one that was not is none.
pub proof fn law_numbers_are_new_once(
    made: LocalSeq,
    seq: &mut LocalSeq,
    given: u64,
    before: bool,
    after: bool,
    later: u64,
    ahead: bool,
)
    requires
        call_ensures(LocalSeq::new, (), made),
        call_ensures(LocalSeq::next, (seq,), given),
        call_ensures(LocalSeq::is_duplicate, (&*old(seq), given), before),
        call_ensures(LocalSeq::is_duplicate, (&*final(seq), given), after),
        later > given,
        call_ensures(LocalSeq::is_duplicate, (&*final(seq), later), ahead),
    ensures
        made.0 == 0,
        old(seq).0 < u64::MAX ==> given == old(seq).0 + 1,
        old(seq).0 < u64::MAX ==> !before && after && !ahead,
{
}

/// Now, too, a stamp for a local event is ahead of the clock and not behind a time that the wall clock told.
pub proof fn law_tick_now_goes_forward(clock: &mut Hlc, r: Hlc)
    requires
        old(clock).logical < u32::MAX,
        call_ensures(Hlc::tick, (clock,), r),
    ensures
        r == *final(clock),
        r.physical_ms > old(clock).physical_ms || (r.physical_ms == old(clock).physical_ms
            && r.logical == old(clock).logical + 1),
        exists|now: i64| #[trigger]
            clock_told(now) && r.physical_ms >= now && (r.physical_ms == now || r.physical_ms == old(
                clock).physical_ms) && (r.physical_ms > old(clock).physical_ms ==> r.logical == 0),
{
    let now = choose|now: i64| #[trigger]
        clock_told(now) && *final(clock) == ticked(*old(clock), now);
    assert(clock_told(now));
}

/// Now, too, a stamp for an event that came in is ahead of the clock and of the stamp that came with it, and
/// not behind a time that the wall clock told.
pub proof fn law_receipt_now_goes_forward(clock: &mut Hlc, remote: &Hlc, r: Hlc)
    requires
        old(clock).logical < u32::MAX,
        remote.logical < u32::MAX,
        call_ensures(Hlc::receive, (clock, remote), r),
    ensures
        r == *final(clock),
        r.physical_ms > old(clock).physical_ms || (r.physical_ms == old(clock).physical_ms
            && r.logical > old(clock).logical),
        r.physical_ms > remote.physical_ms || (r.physical_ms == remote.physical_ms && r.logical
            > remote.logical),
        exists|now: i64| #[trigger]
            clock_told(now) && r.physical_ms >= now && (r.physical_ms == now || r.physical_ms == old(
                clock).physical_ms || r.physical_ms == remote.physical_ms),
{
    let now = choose|now: i64| #[trigger]
        clock_told(now) && *final(clock) == received(*old(clock), *remote, now);
    assert(clock_told(now));
}

/// A stamp of a millisecond is the first of it, and that of zero the first of all from the epoch on.
pub proof fn law_first_stamps(ms: i64, first: Hlc, zero: Hlc, of_zero: Hlc)
    requires
        call_ensures(Hlc::from_millis, (ms,), first),
        call_ensures(Hlc::zero, (), zero),
        call_ensures(Hlc::from_millis, (0i64,), of_zero),
    ensures
        first.physical_ms == ms && first.logical == 0,
        zero == of_zero,
{
}

} // verus!
