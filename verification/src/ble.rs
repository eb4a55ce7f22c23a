//! Nearby devices as the platform reports them.

use vstd::prelude::*;
use vstd::string::*;

use crate::error::{CoreError, CoreResult};
use crate::ids::PeerId;
use crate::model::{AnchorCapabilities, Endpoint, PresenceHint};
use crate::text::join2;

verus! {

/// An endpoint, as it crosses to the platform.
#[derive(Debug)]
pub struct FfiEndpoint {
    pub host: String,
    pub port: u16,
}

/// What a device can do for the others, as it crosses to the platform.
#[derive(Debug, Clone, Copy, PartialEq, Eq, Structural)]
pub struct FfiAnchorCapabilities {
    pub can_anchor: bool,
    pub can_relay: bool,
    pub persistent: bool,
}

/// What a device announces of itself, as it crosses to the platform.
#[derive(Debug)]
pub struct FfiPresenceHint {
    pub group_id: String,
    pub device_id: String,
    pub capabilities: FfiAnchorCapabilities,
    pub endpoint: Option<FfiEndpoint>,
}

/// A device that was found nearby, as it crosses to the platform.
#[derive(Debug)]
pub struct FfiDiscoveryEvent {
    pub peer_id: String,
    pub hint: FfiPresenceHint,
    /// How strong its signal is, in dBm.
    pub rssi: i16,
}

/// A device that was found nearby.
#[derive(Debug)]
pub struct DiscoveryEvent {
    pub peer_id: PeerId,
    pub hint: PresenceHint,
    /// How strong its signal is, in dBm.
    pub rssi: i16,
}

/// Whether both hints announce the same.
pub open spec fn same_hint(h: PresenceHint, f: FfiPresenceHint) -> bool {
    &&& f.group_id@ == h.group_id@
    &&& f.device_id@ == h.device_id@
    &&& f.capabilities.can_anchor == h.capabilities.can_anchor
    &&& f.capabilities.can_relay == h.capabilities.can_relay
    &&& f.capabilities.persistent == h.capabilities.persistent
    &&& (f.endpoint is Some) == (h.endpoint is Some)
    &&& f.endpoint is Some ==> f.endpoint->Some_0.host@ == h.endpoint->Some_0.host@
        && f.endpoint->Some_0.port == h.endpoint->Some_0.port
}

/// Whether both report the same device.
pub open spec fn same_discovery(e: DiscoveryEvent, f: FfiDiscoveryEvent) -> bool {
    f.peer_id@ == e.peer_id@ && same_hint(e.hint, f.hint) && f.rssi == e.rssi
}

impl FfiPresenceHint {
    /// A hint as it crosses to the platform.
    pub fn of(h: &PresenceHint) -> (r: Self)
        ensures
            same_hint(*h, r),
    {
        FfiPresenceHint {
            group_id: h.group_id.clone(),
            device_id: h.device_id.clone(),
            capabilities: FfiAnchorCapabilities {
                can_anchor: h.capabilities.can_anchor,
                can_relay: h.capabilities.can_relay,
                persistent: h.capabilities.persistent,
            },
            endpoint: match &h.endpoint {
                Some(e) => Some(FfiEndpoint { host: e.host.clone(), port: e.port }),
                None => None,
            },
        }
    }

    /// The hint that crossed from the platform.
    pub fn into_hint(self) -> (r: PresenceHint)
        ensures
            same_hint(r, self),
    {
        PresenceHint {
            group_id: self.group_id,
            device_id: self.device_id,
            capabilities: AnchorCapabilities {
                can_anchor: self.capabilities.can_anchor,
                can_relay: self.capabilities.can_relay,
                persistent: self.capabilities.persistent,
            },
            endpoint: match self.endpoint {
                Some(e) => Some(Endpoint { host: e.host, port: e.port }),
                None => None,
            },
        }
    }
}

impl FfiDiscoveryEvent {
    /// A device that was found, as it crosses to the platform.
    pub fn of(e: &DiscoveryEvent) -> (r: Self)
        ensures
            same_discovery(*e, r),
    {
        FfiDiscoveryEvent {
            peer_id: e.peer_id.0.clone(),
            hint: FfiPresenceHint::of(&e.hint),
            rssi: e.rssi,
        }
    }

    /// The device that the platform found.
    pub fn into_event(self) -> (r: DiscoveryEvent)
        ensures
            same_discovery(r, self),
    {
        DiscoveryEvent {
            peer_id: PeerId(self.peer_id),
            hint: self.hint.into_hint(),
            rssi: self.rssi,
        }
    }
}

/// The devices that the platform found, in their order.
pub fn discoveries(found: Vec<FfiDiscoveryEvent>) -> (r: Vec<DiscoveryEvent>)
    ensures
        r@.len() == found@.len(),
        forall|i: int| 0 <= i < r@.len() ==> same_discovery(#[trigger] r@[i], found@[i]),
{
    let ghost all = found@;
    let mut forward = found;
    let mut back: Vec<DiscoveryEvent> = Vec::new();
    while forward.len() > 0
        invariant
            forward@.len() + back@.len() == all.len(),
            forward@ == all.take(forward@.len() as int),
            forall|i: int|
                0 <= i < back@.len() ==> same_discovery(
                    #[trigger] back@[i],
                    all[all.len() - 1 - i],
                ),
        decreases forward@.len(),
    {
        let ghost n = forward@.len() as int;
        let e = forward.pop().unwrap();
        assert(e == all[n - 1]);
        assert(forward@ =~= all.take(n - 1));
        back.push(e.into_event());
    }
    let mut out: Vec<DiscoveryEvent> = Vec::new();
    let ghost mirrored = back@;
    while back.len() > 0
        invariant
            back@ == mirrored.take(back@.len() as int),
            back@.len() + out@.len() == all.len(),
            mirrored.len() == all.len(),
            forall|i: int|
                0 <= i < mirrored.len() ==> same_discovery(
                    #[trigger] mirrored[i],
                    all[all.len() - 1 - i],
                ),
            forall|i: int| 0 <= i < out@.len() ==> same_discovery(#[trigger] out@[i], all[i]),
        decreases back@.len(),
    {
        let ghost n = back@.len() as int;
        let e = back.pop().unwrap();
        assert(e == mirrored[n - 1]);
        assert(back@ =~= mirrored.take(n - 1));
        out.push(e);
    }
    out
}

/// Whether `e` is a transport error with text `m`.
pub open spec fn is_transport_error(e: CoreError, m: Seq<char>) -> bool {
    e matches CoreError::Transport(t) && t@ == m
}

/// Whether a broadcast began; the platform answers with a text that is empty where it did.
pub fn broadcast_result(answer: &str) -> (r: CoreResult<()>)
    ensures
        match r {
            Ok(_) => answer@.len() == 0,
            Err(e) => answer@.len() > 0 && is_transport_error(
                e,
                "平台 BLE 广播失败: "@ + answer@,
            ),
        },
{
    if answer.unicode_len() == 0 {
        Ok(())
    } else {
        Err(CoreError::Transport(join2("平台 BLE 广播失败: ", answer)))
    }
}

/// Whether a scan began; the platform answers with a text that is empty where it did.
pub fn scan_result(answer: &str) -> (r: CoreResult<()>)
    ensures
        match r {
            Ok(_) => answer@.len() == 0,
            Err(e) => answer@.len() > 0 && is_transport_error(
                e,
                "平台 BLE 扫描失败: "@ + answer@,
            ),
        },
{
    if answer.unicode_len() == 0 {
        Ok(())
    } else {
        Err(CoreError::Transport(join2("平台 BLE 扫描失败: ", answer)))
    }
}

/// What a platform offers for finding devices nearby. Platforms implement it.
pub trait ForeignPresenceBackend {
    /// Begins to broadcast; the answer is empty where that works, and says why not otherwise.
    fn start_broadcast(&self, payload: Vec<u8>) -> String;

    fn stop_broadcast(&self);

    /// Begins to scan; the answer is empty where that works, and says why not otherwise.
    fn start_scan(&self) -> String;

    fn stop_scan(&self);

    /// The devices found since the last call.
    fn drain_discoveries(&self) -> Vec<FfiDiscoveryEvent>;
}

/// A platform's means of finding devices, as the library uses it.
#[derive(Debug)]
pub struct ForeignBleAdapter<B> {
    inner: B,
}

impl<B: ForeignPresenceBackend> ForeignBleAdapter<B> {
    /// The platform's means.
    pub closed spec fn backend(&self) -> B {
        self.inner
    }

    pub fn new(inner: B) -> (r: Self)
        ensures
            r.backend() == inner,
    {
        ForeignBleAdapter { inner }
    }

    /// Begins to broadcast. The platform's answer decides.
    pub fn start_broadcast(&self, payload: Vec<u8>) -> (r: CoreResult<()>)
        ensures
            exists|answer: String|
                call_ensures(B::start_broadcast, (&self.backend(), payload), answer) && match r {
                    Ok(_) => answer@.len() == 0,
                    Err(e) => answer@.len() > 0 && is_transport_error(
                        e,
                        "平台 BLE 广播失败: "@ + answer@,
                    ),
                },
    {
        let answer = self.inner.start_broadcast(payload);
        broadcast_result(answer.as_str())
    }

    pub fn stop_broadcast(&self)
        ensures
            call_ensures(B::stop_broadcast, (&self.backend(),), ()),
    {
        self.inner.stop_broadcast()
    }

    /// Begins to scan. The platform's answer decides.
    pub fn start_scan(&self) -> (r: CoreResult<()>)
        ensures
            exists|answer: String|
                call_ensures(B::start_scan, (&self.backend(),), answer) && match r {
                    Ok(_) => answer@.len() == 0,
                    Err(e) => answer@.len() > 0 && is_transport_error(
                        e,
                        "平台 BLE 扫描失败: "@ + answer@,
                    ),
                },
    {
        let answer = self.inner.start_scan();
        scan_result(answer.as_str())
    }

    pub fn stop_scan(&self)
        ensures
            call_ensures(B::stop_scan, (&self.backend(),), ()),
    {
        self.inner.stop_scan()
    }

    /// The devices found since the last call.
    pub fn drain_discoveries(&self) -> (r: Vec<DiscoveryEvent>)
        ensures
            exists|found: Vec<FfiDiscoveryEvent>|
                call_ensures(B::drain_discoveries, (&self.backend(),), found) && r@.len()
                    == found@.len() && forall|i: int|
                    0 <= i < r@.len() ==> same_discovery(#[trigger] r@[i], found@[i]),
    {
        let found = self.inner.drain_discoveries();
        discoveries(found)
    }
}

/// A hint that crosses to the platform and back announces the same.
pub proof fn law_hint_crosses_both_ways(h: PresenceHint, f: FfiPresenceHint, back: PresenceHint)
    requires
        same_hint(h, f),
        same_hint(back, f),
    ensures
        back.group_id@ == h.group_id@,
        back.device_id@ == h.device_id@,
        back.capabilities == h.capabilities,
        (back.endpoint is Some) == (h.endpoint is Some),
        back.endpoint is Some ==> back.endpoint->Some_0.host@ == h.endpoint->Some_0.host@
            && back.endpoint->Some_0.port == h.endpoint->Some_0.port,
{
}

/// A device that was found crosses to the platform and back as it was: who it is, what it announces, and
/// how strong its signal is.
pub proof fn law_discovery_crosses_both_ways(
    e: &DiscoveryEvent,
    f: FfiDiscoveryEvent,
    back: DiscoveryEvent,
)
    requires
        call_ensures(FfiDiscoveryEvent::of, (e,), f),
        call_ensures(FfiDiscoveryEvent::into_event, (f,), back),
    ensures
        f.peer_id@ == e.peer_id@,
        f.rssi == e.rssi,
        f.hint.group_id@ == e.hint.group_id@,
        f.hint.device_id@ == e.hint.device_id@,
        f.hint.capabilities.can_anchor == e.hint.capabilities.can_anchor,
        f.hint.capabilities.can_relay == e.hint.capabilities.can_relay,
        f.hint.capabilities.persistent == e.hint.capabilities.persistent,
        f.hint.endpoint is Some <==> e.hint.endpoint is Some,
        e.hint.endpoint matches Some(p) ==> f.hint.endpoint->Some_0.host@ == p.host@
            && f.hint.endpoint->Some_0.port == p.port,
        back.peer_id@ == e.peer_id@,
        back.rssi == e.rssi,
        back.hint.group_id@ == e.hint.group_id@,
        back.hint.device_id@ == e.hint.device_id@,
        back.hint.capabilities == e.hint.capabilities,
        back.hint.endpoint is Some <==> e.hint.endpoint is Some,
        e.hint.endpoint matches Some(p) ==> back.hint.endpoint->Some_0.host@ == p.host@
            && back.hint.endpoint->Some_0.port == p.port,
{
}

/// A hint crosses to the platform and back as it was.
pub proof fn law_hint_is_announced_as_it_is(
    h: &PresenceHint,
    f: FfiPresenceHint,
    back: PresenceHint,
)
    requires
        call_ensures(FfiPresenceHint::of, (h,), f),
        call_ensures(FfiPresenceHint::into_hint, (f,), back),
    ensures
        f.group_id@ == h.group_id@ && back.group_id@ == h.group_id@,
        f.device_id@ == h.device_id@ && back.device_id@ == h.device_id@,
        f.capabilities.can_anchor == h.capabilities.can_anchor,
        f.capabilities.can_relay == h.capabilities.can_relay,
        f.capabilities.persistent == h.capabilities.persistent,
        back.capabilities == h.capabilities,
        back.endpoint is Some <==> h.endpoint is Some,
        h.endpoint matches Some(p) ==> back.endpoint->Some_0.host@ == p.host@
            && back.endpoint->Some_0.port == p.port,
{
}

/// All devices that the platform found are told, one for one and in their order.
pub proof fn law_found_devices_are_told(found: Vec<FfiDiscoveryEvent>, r: Vec<DiscoveryEvent>)
    requires
        call_ensures(discoveries, (found,), r),
    ensures
        r@.len() == found@.len(),
        forall|i: int|
            0 <= i < found@.len() ==> (#[trigger] r@[i]).peer_id@ == found@[i].peer_id@
                && r@[i].rssi == found@[i].rssi && r@[i].hint.device_id@
                == found@[i].hint.device_id@ && r@[i].hint.group_id@ == found@[i].hint.group_id@,
{
}

/// What the platform could not begin fails, with what the platform says of it; otherwise it began.
pub proof fn law_platform_answer_decides(
    answer: &str,
    broadcast: CoreResult<()>,
    scan: CoreResult<()>,
)
    requires
        call_ensures(broadcast_result, (answer,), broadcast),
        call_ensures(scan_result, (answer,), scan),
    ensures
        broadcast is Ok <==> answer@.len() == 0,
        scan is Ok <==> answer@.len() == 0,
        broadcast matches Err(e) ==> (e matches CoreError::Transport(t) && t@ == "平台 BLE 广播失败: "@
            + answer@),
        scan matches Err(e) ==> (e matches CoreError::Transport(t) && t@ == "平台 BLE 扫描失败: "@
            + answer@),
{
}

/// The platform is asked to broadcast just what is given, to scan, and to tell what it found; its answers
/// decide.
pub proof fn law_platform_does_the_work<B: ForeignPresenceBackend>(
    inner: B,
    adapter: ForeignBleAdapter<B>,
    payload: Vec<u8>,
    broadcast: CoreResult<()>,
    scan: CoreResult<()>,
    told: Vec<DiscoveryEvent>,
)
    requires
        call_ensures(ForeignBleAdapter::<B>::new, (inner,), adapter),
        call_ensures(ForeignBleAdapter::<B>::start_broadcast, (&adapter, payload), broadcast),
        call_ensures(ForeignBleAdapter::<B>::start_scan, (&adapter,), scan),
        call_ensures(ForeignBleAdapter::<B>::drain_discoveries, (&adapter,), told),
    ensures
        exists|answer: String| #[trigger]
            call_ensures(B::start_broadcast, (&inner, payload), answer) && (broadcast is Ok
                <==> answer@.len() == 0),
        exists|answer: String| #[trigger]
            call_ensures(B::start_scan, (&inner,), answer) && (scan is Ok <==> answer@.len() == 0),
        exists|found: Vec<FfiDiscoveryEvent>| #[trigger]
            call_ensures(B::drain_discoveries, (&inner,), found) && told@.len() == found@.len(),
{
}

} // verus!
