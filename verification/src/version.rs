//! The protocol version and the negotiation of capabilities.
//!
//! Peers of different major versions refuse each other. Within a major version they use what
//! both can do.

use vstd::prelude::*;
use vstd::string::*;

use crate::model::AnchorCapabilities;
use crate::text::{decimal, decimal_string, push_decimal};

verus! {

pub const MAJOR_VERSION: u8 = 1;

pub const MINOR_VERSION: u8 = 0;

/// A protocol version.
#[derive(Debug, Clone, Copy, PartialEq, Eq, Hash, Structural)]
pub struct ProtocolVersion {
    pub major: u8,
    pub minor: u8,
}

impl ProtocolVersion {
    /// The version spoken here.
    pub fn current() -> (r: Self)
        ensures
            r == (ProtocolVersion { major: 1, minor: 0 }),
    {
        ProtocolVersion { major: MAJOR_VERSION, minor: MINOR_VERSION }
    }

    pub fn new(major: u8, minor: u8) -> (r: Self)
        ensures
            r == (ProtocolVersion { major, minor }),
    {
        ProtocolVersion { major, minor }
    }

    /// Whether the major versions agree.
    pub fn is_compatible(&self, other: &Self) -> (r: bool)
        ensures
            r == (self.major == other.major),
    {
        self.major == other.major
    }

    /// Whether this is a later minor version of the same major version.
    pub fn is_newer_than(&self, other: &Self) -> (r: bool)
        ensures
            r == (self.major == other.major && self.minor > other.minor),
    {
        self.major == other.major && self.minor > other.minor
    }

    /// The version as text: major, a full stop, minor.
    pub fn to_string(&self) -> (r: String)
        ensures
            r@ == decimal(self.major as nat) + "."@ + decimal(self.minor as nat),
    {
        let mut out = decimal_string(self.major as u64);
        out.append(".");
        push_decimal(&mut out, self.minor as u64);
        out
    }
}

/// What two peers can do, and what they can do together.
#[derive(Debug, Clone, Copy, PartialEq, Eq, Structural)]
pub struct NegotiatedCapabilities {
    pub local: AnchorCapabilities,
    pub remote: AnchorCapabilities,
    pub effective: AnchorCapabilities,
}

impl Default for NegotiatedCapabilities {
    fn default() -> (r: Self)
        ensures
            !r.local.can_anchor && !r.local.can_relay && !r.local.persistent,
            r.remote == r.local,
            r.effective == r.local,
    {
        NegotiatedCapabilities {
            local: AnchorCapabilities::default(),
            remote: AnchorCapabilities::default(),
            effective: AnchorCapabilities::default(),
        }
    }
}

/// The outcome of a negotiation.
#[derive(Debug, Clone, Copy, PartialEq, Eq, Structural)]
pub enum NegotiationResult {
    Agreed(NegotiatedCapabilities),
    VersionMismatch { local: ProtocolVersion, remote: ProtocolVersion },
}

/// The capabilities that both sets have.
pub open spec fn common(a: AnchorCapabilities, b: AnchorCapabilities) -> AnchorCapabilities {
    AnchorCapabilities {
        can_anchor: a.can_anchor && b.can_anchor,
        can_relay: a.can_relay && b.can_relay,
        persistent: a.persistent && b.persistent,
    }
}

/// The outcome for two versions and two sets of capabilities.
pub open spec fn negotiated(
    local_version: ProtocolVersion,
    remote_version: ProtocolVersion,
    local_caps: AnchorCapabilities,
    remote_caps: AnchorCapabilities,
) -> NegotiationResult {
    if local_version.major != remote_version.major {
        NegotiationResult::VersionMismatch { local: local_version, remote: remote_version }
    } else {
        NegotiationResult::Agreed(
            NegotiatedCapabilities {
                local: local_caps,
                remote: remote_caps,
                effective: common(local_caps, remote_caps),
            },
        )
    }
}

/// Settles what two peers can do together.
pub fn negotiate(
    local_version: ProtocolVersion,
    remote_version: ProtocolVersion,
    local_caps: AnchorCapabilities,
    remote_caps: AnchorCapabilities,
) -> (r: NegotiationResult)
    ensures
        r == negotiated(local_version, remote_version, local_caps, remote_caps),
{
    if !local_version.is_compatible(&remote_version) {
        return NegotiationResult::VersionMismatch { local: local_version, remote: remote_version };
    }
    let effective = AnchorCapabilities {
        can_anchor: local_caps.can_anchor && remote_caps.can_anchor,
        can_relay: local_caps.can_relay && remote_caps.can_relay,
        persistent: local_caps.persistent && remote_caps.persistent,
    };
    NegotiationResult::Agreed(
        NegotiatedCapabilities { local: local_caps, remote: remote_caps, effective },
    )
}

/// Both sides of a negotiation come to the same effective capabilities, or both refuse.
pub proof fn law_negotiation_is_symmetric(
    v: ProtocolVersion,
    w: ProtocolVersion,
    a: AnchorCapabilities,
    b: AnchorCapabilities,
)
    ensures
        match (negotiated(v, w, a, b), negotiated(w, v, b, a)) {
            (NegotiationResult::Agreed(x), NegotiationResult::Agreed(y)) => x.effective == y.effective
                && x.local == y.remote && x.remote == y.local,
            (
                NegotiationResult::VersionMismatch { local, remote },
                NegotiationResult::VersionMismatch { local: l2, remote: r2 },
            ) => local == r2 && remote == l2,
            _ => false,
        },
{
}

/// Peers agree just where their major versions do, and can then do together what each of them can do;
/// otherwise both versions are told.
pub proof fn law_peers_use_what_both_can_do(
    v: ProtocolVersion,
    w: ProtocolVersion,
    a: AnchorCapabilities,
    b: AnchorCapabilities,
    r: NegotiationResult,
    compatible: bool,
)
    requires
        call_ensures(negotiate, (v, w, a, b), r),
        call_ensures(ProtocolVersion::is_compatible, (&v, &w), compatible),
    ensures
        compatible <==> v.major == w.major,
        r is Agreed <==> compatible,
        r matches NegotiationResult::Agreed(n) ==> {
            &&& n.local == a
            &&& n.remote == b
            &&& n.effective.can_anchor <==> a.can_anchor && b.can_anchor
            &&& n.effective.can_relay <==> a.can_relay && b.can_relay
            &&& n.effective.persistent <==> a.persistent && b.persistent
        },
        r matches NegotiationResult::VersionMismatch { local, remote } ==> local == v && remote
            == w,
{
}

/// Of two versions one is newer than the other only within a major version, and then by the minor
/// number.
pub proof fn law_newer_is_an_order(
    a: ProtocolVersion,
    b: ProtocolVersion,
    ab: bool,
    ba: bool,
)
    requires
        call_ensures(ProtocolVersion::is_newer_than, (&a, &b), ab),
        call_ensures(ProtocolVersion::is_newer_than, (&b, &a), ba),
    ensures
        ab ==> !ba && a.major == b.major && a.minor > b.minor,
        a.major == b.major && a.minor != b.minor ==> ab || ba,
        a.major != b.major ==> !ab && !ba,
{
}

/// The version spoken here is 1.0, and a version is written with a full stop between its numbers.
pub proof fn law_version_is_written(
    current: ProtocolVersion,
    major: u8,
    minor: u8,
    v: ProtocolVersion,
    text: String,
    n: int,
)
    requires
        call_ensures(ProtocolVersion::current, (), current),
        call_ensures(ProtocolVersion::new, (major, minor), v),
        call_ensures(ProtocolVersion::to_string, (&v,), text),
        n == decimal(major as nat).len(),
    ensures
        current.major == 1 && current.minor == 0,
        v.major == major && v.minor == minor,
        n < text@.len(),
        text@[n] == '.',
        crate::text::digits_value(text@.take(n)) == major,
        crate::text::digits_value(text@.skip(n + 1)) == minor,
{
    reveal_strlit(".");
    assert("."@ =~= seq!['.']);
    crate::text::lemma_decimal_value(major as nat);
    crate::text::lemma_decimal_value(minor as nat);
    assert(text@.take(n) =~= decimal(major as nat));
    assert(text@.skip(n + 1) =~= decimal(minor as nat));
}

} // verus!
