//! The binary frames of the protocol.
//!
//! Discovery frames announce a device, control frames carry type-length-value entries, data
//! frames carry document changes. Every frame starts with the same two bytes. Numbers are
//! written most significant byte first.

use vstd::prelude::*;
use vstd::string::*;

use crate::digest::{hex_encode, sha256, sha256_digest};
use crate::ids::{DocId, PeerId, SessionId};
use crate::model::{AnchorCapabilities, DataFrame, DataFrameKind};
use crate::octets::{
    append_bytes, array4, array8, be_bytes, be_value, copy_range, lemma_be_bytes_len,
    lemma_be_read_back, lemma_pow256_values, push_be, read_be,
};
use crate::text::{decimal, hex_chars, push_decimal};

verus! {

/// The first two bytes of every frame.
pub const MAGIC: [u8; 2] = [0x54, 0x43];

pub const PROTOCOL_VERSION: u8 = 1;

/// The first two bytes of every frame, as a sequence.
pub open spec fn magic() -> Seq<u8> {
    MAGIC@
}

/// Why a frame cannot be read.
#[derive(Debug, Clone, Copy, PartialEq, Eq, Structural)]
pub enum FrameError {
    TooShort,
    BadMagic,
    ChecksumMismatch,
    UnknownControlType(u8),
    UnknownDataFrameKind(u8),
    VersionMismatch(u8),
    FrameTooLarge(usize),
}

/// The text shown for a frame error.
pub open spec fn frame_error_text(e: FrameError) -> Seq<char> {
    match e {
        FrameError::TooShort => "数据过短"@,
        FrameError::BadMagic => "magic 不匹配"@,
        FrameError::ChecksumMismatch => "checksum 不匹配"@,
        FrameError::UnknownControlType(v) => "未知控制类型: "@ + decimal(v as nat),
        FrameError::UnknownDataFrameKind(v) => "未知数据帧类型: "@ + decimal(v as nat),
        FrameError::VersionMismatch(v) => "版本不兼容: "@ + decimal(v as nat),
        FrameError::FrameTooLarge(n) => "帧过大: "@ + decimal(n as nat)
            + " 字节，超过最大限制"@,
    }
}

impl FrameError {
    /// The text shown for this error.
    pub fn message(&self) -> (r: String)
        ensures
            r@ == frame_error_text(*self),
    {
        match self {
            FrameError::TooShort => "数据过短".to_owned(),
            FrameError::BadMagic => "magic 不匹配".to_owned(),
            FrameError::ChecksumMismatch => "checksum 不匹配".to_owned(),
            FrameError::UnknownControlType(v) => {
                let mut out = "未知控制类型: ".to_owned();
                push_decimal(&mut out, *v as u64);
                out
            },
            FrameError::UnknownDataFrameKind(v) => {
                let mut out = "未知数据帧类型: ".to_owned();
                push_decimal(&mut out, *v as u64);
                out
            },
            FrameError::VersionMismatch(v) => {
                let mut out = "版本不兼容: ".to_owned();
                push_decimal(&mut out, *v as u64);
                out
            },
            FrameError::FrameTooLarge(n) => {
                let mut out = "帧过大: ".to_owned();
                push_decimal(&mut out, *n as u64);
                out.append(" 字节，超过最大限制");
                out
            },
        }
    }
}

/// The two bytes that say what a device can do: bit 0 anchor, bit 1 relay, bit 2 always on.
pub open spec fn caps_bits(caps: AnchorCapabilities) -> Seq<u8> {
    let low = (if caps.can_anchor {
        1int
    } else {
        0
    }) + (if caps.can_relay {
        2int
    } else {
        0
    }) + (if caps.persistent {
        4int
    } else {
        0
    });
    seq![0u8, low as u8]
}

/// What the two bytes say a device can do.
pub open spec fn caps_of_bits(bits: Seq<u8>) -> AnchorCapabilities {
    AnchorCapabilities {
        can_anchor: bits[1] % 2 == 1,
        can_relay: (bits[1] / 2) % 2 == 1,
        persistent: (bits[1] / 4) % 2 == 1,
    }
}

fn caps_to_bits(caps: AnchorCapabilities) -> (r: [u8; 2])
    ensures
        r@ == caps_bits(caps),
{
    let mut low: u8 = 0;
    if caps.can_anchor {
        low = low + 1;
    }
    if caps.can_relay {
        low = low + 2;
    }
    if caps.persistent {
        low = low + 4;
    }
    let r = [0u8, low];
    assert(r@ =~= caps_bits(caps));
    r
}

fn bits_to_caps(bits: &[u8; 2]) -> (r: AnchorCapabilities)
    ensures
        r == caps_of_bits(bits@),
{
    AnchorCapabilities {
        can_anchor: bits[1] % 2 == 1,
        can_relay: (bits[1] / 2) % 2 == 1,
        persistent: (bits[1] / 4) % 2 == 1,
    }
}

/// One step of the CCITT checksum: shift out a bit, and subtract the polynomial if it was set.
pub open spec fn crc_step(c: u16) -> u16 {
    if c & 0x8000u16 != 0 {
        (c << 1u16) ^ 0x1021u16
    } else {
        c << 1u16
    }
}

/// `n` steps of the checksum.
pub open spec fn crc_steps(c: u16, n: nat) -> u16
    decreases n,
{
    if n == 0 {
        c
    } else {
        crc_step(crc_steps(c, (n - 1) as nat))
    }
}

/// The checksum `c` carried on over the bytes of `s`.
pub open spec fn crc_over(c: u16, s: Seq<u8>) -> u16
    decreases s.len(),
{
    if s.len() == 0 {
        c
    } else {
        crc_steps(crc_over(c, s.drop_last()) ^ ((s.last() as u16) << 8u16), 8)
    }
}

/// The CCITT checksum of the identifying part of a discovery frame.
pub open spec fn crc_of(group: Seq<u8>, device: Seq<u8>, caps: Seq<u8>) -> u16 {
    crc_over(0xFFFF, group + device + caps)
}

fn crc16(group: &[u8; 4], device: &[u8; 8], caps: &[u8; 2]) -> (r: u16)
    ensures
        r == crc_of(group@, device@, caps@),
{
    let mut data: Vec<u8> = Vec::new();
    append_bytes(&mut data, group.as_slice());
    append_bytes(&mut data, device.as_slice());
    append_bytes(&mut data, caps.as_slice());
    assert(data@ =~= group@ + device@ + caps@);
    let mut crc: u16 = 0xFFFF;
    let mut i: usize = 0;
    while i < data.len()
        invariant
            i <= data@.len(),
            crc == crc_over(0xFFFF, data@.take(i as int)),
        decreases data@.len() - i,
    {
        assert(data@.take(i + 1).drop_last() =~= data@.take(i as int));
        crc = crc ^ ((data[i] as u16) << 8u16);
        let ghost start = crc;
        let mut k: usize = 0;
        while k < 8
            invariant
                k <= 8,
                crc == crc_steps(start, k as nat),
            decreases 8 - k,
        {
            if crc & 0x8000u16 != 0 {
                crc = (crc << 1u16) ^ 0x1021u16;
            } else {
                crc = crc << 1u16;
            }
            k = k + 1;
        }
        i = i + 1;
    }
    assert(data@.take(i as int) =~= data@);
    crc
}

/// The first four bytes of the digest of a group's name.
fn group_id_to_bytes(group_id: &str) -> (r: [u8; 4])
    ensures
        r@ == sha256_digest(vstd::utf8::encode_utf8(group_id@)).subrange(0, 4),
{
    let digest = sha256(group_id.as_bytes());
    array4(digest.as_slice(), 0)
}

/// The first eight bytes of the digest of a device's name.
fn device_id_to_bytes(device_id: &str) -> (r: [u8; 8])
    ensures
        r@ == short_id(device_id@),
{
    let digest = sha256(device_id.as_bytes());
    array8(digest.as_slice(), 0)
}

/// The eight bytes by which a name is known on the wire.
pub open spec fn short_id(name: Seq<char>) -> Seq<u8> {
    sha256_digest(vstd::utf8::encode_utf8(name)).subrange(0, 8)
}

/// Announces a device.
///
/// `magic(2) | version(1) | group_id(4) | device_id(8) | capability_bits(2) | checksum(2)`
#[derive(Debug, Clone, Copy, PartialEq, Eq)]
pub struct DiscoveryFrame {
    pub version: u8,
    pub group_id: [u8; 4],
    pub device_id: [u8; 8],
    pub capability_bits: [u8; 2],
    pub checksum: u16,
}

/// What a discovery frame holds.
#[verifier::ext_equal]
pub struct DiscoveryView {
    pub version: u8,
    pub group_id: Seq<u8>,
    pub device_id: Seq<u8>,
    pub capability_bits: Seq<u8>,
    pub checksum: u16,
}

impl View for DiscoveryFrame {
    type V = DiscoveryView;

    open spec fn view(&self) -> DiscoveryView {
        DiscoveryView {
            version: self.version,
            group_id: self.group_id@,
            device_id: self.device_id@,
            capability_bits: self.capability_bits@,
            checksum: self.checksum,
        }
    }
}

/// The bytes of a discovery frame.
pub open spec fn discovery_bytes(f: DiscoveryView) -> Seq<u8> {
    magic() + seq![f.version] + f.group_id + f.device_id + f.capability_bits + be_bytes(
        f.checksum as nat,
        2,
    )
}

/// The discovery frame at the start of `data`.
pub open spec fn discovery_decoded(data: Seq<u8>) -> Result<DiscoveryView, FrameError> {
    if data.len() < 19 {
        Err(FrameError::TooShort)
    } else if data.subrange(0, 2) != magic() {
        Err(FrameError::BadMagic)
    } else {
        let f = DiscoveryView {
            version: data[2],
            group_id: data.subrange(3, 7),
            device_id: data.subrange(7, 15),
            capability_bits: data.subrange(15, 17),
            checksum: be_value(data.subrange(17, 19)) as u16,
        };
        if crc_of(f.group_id, f.device_id, f.capability_bits) != f.checksum {
            Err(FrameError::ChecksumMismatch)
        } else {
            Ok(f)
        }
    }
}

/// Whether `data` starts with the magic bytes.
fn has_magic(data: &[u8]) -> (r: bool)
    requires
        data@.len() >= 2,
    ensures
        r == (data@.subrange(0, 2) == magic()),
{
    let r = data[0] == MAGIC[0] && data[1] == MAGIC[1];
    proof {
        if r {
            assert(data@.subrange(0, 2) =~= magic());
        } else {
            assert(data@.subrange(0, 2)[0] == data@[0]);
            assert(data@.subrange(0, 2)[1] == data@[1]);
            assert(magic()[0] == MAGIC[0] && magic()[1] == MAGIC[1]);
        }
    }
    r
}

fn push_magic(buf: &mut Vec<u8>)
    ensures
        final(buf)@ == old(buf)@ + magic(),
{
    buf.push(MAGIC[0]);
    buf.push(MAGIC[1]);
    assert(buf@ =~= old(buf)@ + magic());
}

impl DiscoveryFrame {
    /// The frame by which a device of a group announces itself.
    pub fn from_presence(group_id: &str, device_id: &str, caps: AnchorCapabilities) -> (r: Self)
        ensures
            r.version == 1,
            r.group_id@ == sha256_digest(vstd::utf8::encode_utf8(group_id@)).subrange(0, 4),
            r.device_id@ == short_id(device_id@),
            r.capability_bits@ == caps_bits(caps),
            r.checksum == crc_of(r.group_id@, r.device_id@, r.capability_bits@),
    {
        let group_bytes = group_id_to_bytes(group_id);
        let device_bytes = device_id_to_bytes(device_id);
        let cap_bits = caps_to_bits(caps);
        let checksum: u16 = crc16(&group_bytes, &device_bytes, &cap_bits);
        DiscoveryFrame {
            version: PROTOCOL_VERSION,
            group_id: group_bytes,
            device_id: device_bytes,
            capability_bits: cap_bits,
            checksum,
        }
    }

    /// The bytes of the frame.
    pub fn encode(&self) -> (r: Vec<u8>)
        ensures
            r@ == discovery_bytes(self@),
            r@.len() == 19,
    {
        let mut buf: Vec<u8> = Vec::new();
        push_magic(&mut buf);
        buf.push(self.version);
        append_bytes(&mut buf, self.group_id.as_slice());
        append_bytes(&mut buf, self.device_id.as_slice());
        append_bytes(&mut buf, self.capability_bits.as_slice());
        push_be(&mut buf, self.checksum as u64, 2);
        proof {
            lemma_be_bytes_len(self.checksum as nat, 2);
            assert(buf@ =~= discovery_bytes(self@));
        }
        buf
    }

    /// Reads the frame at the start of `data`.
    pub fn decode(data: &[u8]) -> (r: Result<Self, FrameError>)
        ensures
            match r {
                Ok(f) => discovery_decoded(data@) == Ok::<DiscoveryView, FrameError>(f@),
                Err(e) => discovery_decoded(data@) == Err::<DiscoveryView, FrameError>(e),
            },
    {
        if data.len() < 19 {
            return Err(FrameError::TooShort);
        }
        if !has_magic(data) {
            return Err(FrameError::BadMagic);
        }
        let group_id = array4(data, 3);
        let device_id = array8(data, 7);
        let capability_bits = [data[15], data[16]];
        assert(capability_bits@ =~= data@.subrange(15, 17));
        proof {
            lemma_pow256_values();
        }
        let checksum: u16 = read_be(data, 17, 19) as u16;
        let expected: u16 = crc16(&group_id, &device_id, &capability_bits);
        if expected != checksum {
            return Err(FrameError::ChecksumMismatch);
        }
        Ok(DiscoveryFrame { version: data[2], group_id, device_id, capability_bits, checksum })
    }

    /// What the announced device can do.
    pub fn capabilities(&self) -> (r: AnchorCapabilities)
        ensures
            r == caps_of_bits(self.capability_bits@),
    {
        bits_to_caps(&self.capability_bits)
    }
}

/// The two capability bytes tell what they were made from.
pub proof fn law_capabilities_roundtrip(caps: AnchorCapabilities)
    ensures
        caps_of_bits(caps_bits(caps)) == caps,
{
}

/// A discovery frame with its right checksum reads back from its bytes, whatever follows them.
pub proof fn law_discovery_roundtrip(f: DiscoveryView, rest: Seq<u8>)
    requires
        f.group_id.len() == 4,
        f.device_id.len() == 8,
        f.capability_bits.len() == 2,
        f.checksum == crc_of(f.group_id, f.device_id, f.capability_bits),
    ensures
        discovery_decoded(discovery_bytes(f) + rest) == Ok::<DiscoveryView, FrameError>(f),
{
    let data = discovery_bytes(f) + rest;
    lemma_be_bytes_len(f.checksum as nat, 2);
    lemma_pow256_values();
    assert(data.subrange(0, 2) =~= magic());
    assert(data.subrange(3, 7) =~= f.group_id);
    assert(data.subrange(7, 15) =~= f.device_id);
    assert(data.subrange(15, 17) =~= f.capability_bits);
    assert(data.subrange(17, 19) =~= be_bytes(f.checksum as nat, 2));
    lemma_be_read_back(data, 17, f.checksum as nat, 2);
}

/// A discovery frame whose checksum is not that of its contents is refused as such.
pub proof fn law_discovery_wrong_checksum(f: DiscoveryView, rest: Seq<u8>)
    requires
        f.group_id.len() == 4,
        f.device_id.len() == 8,
        f.capability_bits.len() == 2,
        f.checksum != crc_of(f.group_id, f.device_id, f.capability_bits),
    ensures
        discovery_decoded(discovery_bytes(f) + rest) == Err::<DiscoveryView, FrameError>(
            FrameError::ChecksumMismatch,
        ),
{
    let data = discovery_bytes(f) + rest;
    lemma_be_bytes_len(f.checksum as nat, 2);
    lemma_pow256_values();
    assert(data.subrange(0, 2) =~= magic());
    assert(data.subrange(3, 7) =~= f.group_id);
    assert(data.subrange(7, 15) =~= f.device_id);
    assert(data.subrange(15, 17) =~= f.capability_bits);
    assert(data.subrange(17, 19) =~= be_bytes(f.checksum as nat, 2));
    lemma_be_read_back(data, 17, f.checksum as nat, 2);
}

/// The kinds of control frame.
#[derive(Debug, Clone, Copy, PartialEq, Eq, Hash, Structural)]
pub enum ControlType {
    Capabilities,
    KnownCheckpoint,
    AckSummary,
    NeedRanges,
    TransportHints,
    RelayHints,
    Introduce,
    Revoke,
    KeyRotate,
    SyncIntent,
}

/// The number of a control type on the wire.
pub open spec fn control_code(t: ControlType) -> u8 {
    match t {
        ControlType::Capabilities => 1,
        ControlType::KnownCheckpoint => 2,
        ControlType::AckSummary => 3,
        ControlType::NeedRanges => 4,
        ControlType::TransportHints => 5,
        ControlType::RelayHints => 6,
        ControlType::Introduce => 7,
        ControlType::Revoke => 8,
        ControlType::KeyRotate => 9,
        ControlType::SyncIntent => 10,
    }
}

impl ControlType {
    /// The type with number `v`: there is one exactly for 1 to 10.
    pub fn from_u8(v: u8) -> (r: Option<Self>)
        ensures
            r is Some <==> 1 <= v <= 10,
            r matches Some(t) ==> control_code(t) == v,
    {
        match v {
            1 => Some(ControlType::Capabilities),
            2 => Some(ControlType::KnownCheckpoint),
            3 => Some(ControlType::AckSummary),
            4 => Some(ControlType::NeedRanges),
            5 => Some(ControlType::TransportHints),
            6 => Some(ControlType::RelayHints),
            7 => Some(ControlType::Introduce),
            8 => Some(ControlType::Revoke),
            9 => Some(ControlType::KeyRotate),
            10 => Some(ControlType::SyncIntent),
            _ => None,
        }
    }

    /// The number on the wire.
    pub fn as_u8(&self) -> (r: u8)
        ensures
            r == control_code(*self),
    {
        match self {
            ControlType::Capabilities => 1,
            ControlType::KnownCheckpoint => 2,
            ControlType::AckSummary => 3,
            ControlType::NeedRanges => 4,
            ControlType::TransportHints => 5,
            ControlType::RelayHints => 6,
            ControlType::Introduce => 7,
            ControlType::Revoke => 8,
            ControlType::KeyRotate => 9,
            ControlType::SyncIntent => 10,
        }
    }
}

/// Carries control messages.
///
/// `magic(2) | version(1) | ctrl_type(1) | session_id(8) | payload_len(2) | payload(n)`
#[derive(Debug, PartialEq, Eq)]
pub struct ControlFrame {
    pub version: u8,
    pub ctrl_type: ControlType,
    pub session_id: u64,
    /// Type-length-value entries.
    pub payload: Vec<u8>,
}

/// What a control frame holds.
#[verifier::ext_equal]
pub struct ControlView {
    pub version: u8,
    pub ctrl_type: ControlType,
    pub session_id: u64,
    pub payload: Seq<u8>,
}

impl View for ControlFrame {
    type V = ControlView;

    open spec fn view(&self) -> ControlView {
        ControlView {
            version: self.version,
            ctrl_type: self.ctrl_type,
            session_id: self.session_id,
            payload: self.payload@,
        }
    }
}

/// The bytes of a control frame. Only the low sixteen bits of the payload's length are written.
pub open spec fn control_bytes(f: ControlView) -> Seq<u8> {
    magic() + seq![f.version, control_code(f.ctrl_type)] + be_bytes(f.session_id as nat, 8)
        + be_bytes(f.payload.len(), 2) + f.payload
}

/// The type with number `v`.
pub open spec fn control_of_code(v: u8) -> ControlType {
    choose|t: ControlType| control_code(t) == v
}

/// The control frame at the start of `data`.
pub open spec fn control_decoded(data: Seq<u8>) -> Result<ControlView, FrameError> {
    if data.len() < 14 {
        Err(FrameError::TooShort)
    } else if data.subrange(0, 2) != magic() {
        Err(FrameError::BadMagic)
    } else if !(1 <= data[3] <= 10) {
        Err(FrameError::UnknownControlType(data[3]))
    } else {
        let n = be_value(data.subrange(12, 14)) as int;
        if data.len() < 14 + n {
            Err(FrameError::TooShort)
        } else {
            Ok(
                ControlView {
                    version: data[2],
                    ctrl_type: control_of_code(data[3]),
                    session_id: be_value(data.subrange(4, 12)) as u64,
                    payload: data.subrange(14, 14 + n),
                },
            )
        }
    }
}

proof fn lemma_control_of_code(t: ControlType)
    ensures
        control_of_code(control_code(t)) == t,
{
    let u = control_of_code(control_code(t));
    assert(control_code(t) == control_code(t));
    assert(control_code(u) == control_code(t));
}

impl ControlFrame {
    /// A frame of the current version.
    pub fn new(ctrl_type: ControlType, session_id: u64, payload: Vec<u8>) -> (r: Self)
        ensures
            r == (ControlFrame { version: 1, ctrl_type, session_id, payload }),
    {
        ControlFrame { version: PROTOCOL_VERSION, ctrl_type, session_id, payload }
    }

    /// The bytes of the frame.
    pub fn encode(&self) -> (r: Vec<u8>)
        ensures
            r@ == control_bytes(self@),
    {
        let mut buf: Vec<u8> = Vec::new();
        push_magic(&mut buf);
        buf.push(self.version);
        buf.push(self.ctrl_type.as_u8());
        push_be(&mut buf, self.session_id, 8);
        push_be(&mut buf, self.payload.len() as u64, 2);
        append_bytes(&mut buf, self.payload.as_slice());
        assert(buf@ =~= control_bytes(self@));
        buf
    }

    /// Reads the frame at the start of `data`.
    pub fn decode(data: &[u8]) -> (r: Result<Self, FrameError>)
        ensures
            match r {
                Ok(f) => control_decoded(data@) == Ok::<ControlView, FrameError>(f@),
                Err(e) => control_decoded(data@) == Err::<ControlView, FrameError>(e),
            },
    {
        if data.len() < 14 {
            return Err(FrameError::TooShort);
        }
        if !has_magic(data) {
            return Err(FrameError::BadMagic);
        }
        let ctrl_type = match ControlType::from_u8(data[3]) {
            Some(t) => t,
            None => return Err(FrameError::UnknownControlType(data[3])),
        };
        proof {
            lemma_control_of_code(ctrl_type);
            lemma_pow256_values();
        }
        let session_id: u64 = read_be(data, 4, 12);
        let payload_len: usize = read_be(data, 12, 14) as usize;
        if data.len() - 14 < payload_len {
            return Err(FrameError::TooShort);
        }
        let payload = copy_range(data, 14, 14 + payload_len);
        Ok(ControlFrame { version: data[2], ctrl_type, session_id, payload })
    }
}

/// A control frame whose payload's length fits in sixteen bits reads back from its bytes,
/// whatever follows them.
pub proof fn law_control_roundtrip(f: ControlView, rest: Seq<u8>)
    requires
        f.payload.len() <= 0xFFFF,
    ensures
        control_decoded(control_bytes(f) + rest) == Ok::<ControlView, FrameError>(f),
{
    let data = control_bytes(f) + rest;
    lemma_be_bytes_len(f.session_id as nat, 8);
    lemma_be_bytes_len(f.payload.len(), 2);
    lemma_pow256_values();
    lemma_control_of_code(f.ctrl_type);
    assert(data.subrange(0, 2) =~= magic());
    assert(data.subrange(4, 12) =~= be_bytes(f.session_id as nat, 8));
    assert(data.subrange(12, 14) =~= be_bytes(f.payload.len(), 2));
    lemma_be_read_back(data, 4, f.session_id as nat, 8);
    lemma_be_read_back(data, 12, f.payload.len(), 2);
    assert(data.subrange(14, 14 + f.payload.len() as int) =~= f.payload);
}

/// The place of a data frame in a batch: the two low bits of its flags.
#[derive(Debug, Clone, Copy, PartialEq, Eq, Hash, Structural)]
pub enum BatchFlag {
    /// Not part of a batch.
    Single,
    BatchStart,
    BatchMiddle,
    BatchEnd,
}

/// The two bits of a batch flag.
pub open spec fn batch_code(f: BatchFlag) -> u8 {
    match f {
        BatchFlag::Single => 0,
        BatchFlag::BatchStart => 1,
        BatchFlag::BatchMiddle => 2,
        BatchFlag::BatchEnd => 3,
    }
}

impl BatchFlag {
    /// The batch flag of a flags byte; its six high bits do not matter.
    pub fn from_flags(flags: u8) -> (r: Self)
        ensures
            batch_code(r) == flags % 4,
    {
        match flags % 4 {
            0 => BatchFlag::Single,
            1 => BatchFlag::BatchStart,
            2 => BatchFlag::BatchMiddle,
            _ => BatchFlag::BatchEnd,
        }
    }

    pub fn as_u8(&self) -> (r: u8)
        ensures
            r == batch_code(*self),
    {
        match self {
            BatchFlag::Single => 0,
            BatchFlag::BatchStart => 1,
            BatchFlag::BatchMiddle => 2,
            BatchFlag::BatchEnd => 3,
        }
    }
}

/// The number of a data frame kind on the wire.
pub open spec fn kind_code(k: DataFrameKind) -> u8 {
    match k {
        DataFrameKind::Delta => 0,
        DataFrameKind::SnapshotChunk => 1,
        DataFrameKind::BatchMiddle => 2,
    }
}

/// The data frame kind with number `v`.
pub open spec fn kind_of_code(v: u8) -> DataFrameKind {
    if v == 0 {
        DataFrameKind::Delta
    } else if v == 1 {
        DataFrameKind::SnapshotChunk
    } else {
        DataFrameKind::BatchMiddle
    }
}

fn data_frame_kind_to_u8(kind: DataFrameKind) -> (r: u8)
    ensures
        r == kind_code(kind),
{
    match kind {
        DataFrameKind::Delta => 0,
        DataFrameKind::SnapshotChunk => 1,
        DataFrameKind::BatchMiddle => 2,
    }
}

/// An unknown number is an error rather than a plain change.
fn u8_to_data_frame_kind(v: u8) -> (r: Result<DataFrameKind, FrameError>)
    ensures
        r == (if v <= 2 {
            Ok::<DataFrameKind, FrameError>(kind_of_code(v))
        } else {
            Err(FrameError::UnknownDataFrameKind(v))
        }),
{
    match v {
        0 => Ok(DataFrameKind::Delta),
        1 => Ok(DataFrameKind::SnapshotChunk),
        2 => Ok(DataFrameKind::BatchMiddle),
        other => Err(FrameError::UnknownDataFrameKind(other)),
    }
}

/// Carries a document change.
///
/// `magic(2) | version(1) | flags(1) | doc_id(8) | actor_id(8) | seq(4) | kind(1)
/// | payload_len(4) | payload(n) | ref(8) | sig_len(2) | sig(m)`
#[derive(Debug, PartialEq, Eq)]
pub struct DataFrameWire {
    pub version: u8,
    /// The batch flag in the two low bits; the others are reserved.
    pub flags: u8,
    pub doc_id: [u8; 8],
    /// The sender.
    pub actor_id: [u8; 8],
    pub seq: u32,
    pub kind: DataFrameKind,
    pub payload: Vec<u8>,
    /// What the frame refers to, such as a checkpoint.
    pub ref_id: [u8; 8],
    /// The batch's integrity tag.
    pub sig: Vec<u8>,
}

/// What a data frame holds.
#[verifier::ext_equal]
pub struct DataView {
    pub version: u8,
    pub flags: u8,
    pub doc_id: Seq<u8>,
    pub actor_id: Seq<u8>,
    pub seq: u32,
    pub kind: DataFrameKind,
    pub payload: Seq<u8>,
    pub ref_id: Seq<u8>,
    pub sig: Seq<u8>,
}

impl View for DataFrameWire {
    type V = DataView;

    open spec fn view(&self) -> DataView {
        DataView {
            version: self.version,
            flags: self.flags,
            doc_id: self.doc_id@,
            actor_id: self.actor_id@,
            seq: self.seq,
            kind: self.kind,
            payload: self.payload@,
            ref_id: self.ref_id@,
            sig: self.sig@,
        }
    }
}

/// The bytes of a data frame. Of the lengths only the low 32 and 16 bits are written.
pub open spec fn data_bytes(f: DataView) -> Seq<u8> {
    magic() + seq![f.version, f.flags] + f.doc_id + f.actor_id + be_bytes(f.seq as nat, 4) + seq![
        kind_code(f.kind),
    ] + be_bytes(f.payload.len(), 4) + f.payload + f.ref_id + be_bytes(f.sig.len(), 2) + f.sig
}

/// The data frame at the start of `data`.
pub open spec fn data_decoded(data: Seq<u8>) -> Result<DataView, FrameError> {
    if data.len() < 29 {
        Err(FrameError::TooShort)
    } else if data.subrange(0, 2) != magic() {
        Err(FrameError::BadMagic)
    } else if data[24] > 2 {
        Err(FrameError::UnknownDataFrameKind(data[24]))
    } else {
        let n = be_value(data.subrange(25, 29)) as int;
        if data.len() < 29 + n + 10 {
            Err(FrameError::TooShort)
        } else {
            let m = be_value(data.subrange(37 + n, 39 + n)) as int;
            if data.len() < 39 + n + m {
                Err(FrameError::TooShort)
            } else {
                Ok(
                    DataView {
                        version: data[2],
                        flags: data[3],
                        doc_id: data.subrange(4, 12),
                        actor_id: data.subrange(12, 20),
                        seq: be_value(data.subrange(20, 24)) as u32,
                        kind: kind_of_code(data[24]),
                        payload: data.subrange(29, 29 + n),
                        ref_id: data.subrange(29 + n, 37 + n),
                        sig: data.subrange(39 + n, 39 + n + m),
                    },
                )
            }
        }
    }
}

impl DataFrameWire {
    /// A frame of the current version, with no integrity tag yet.
    pub fn new(
        doc_id: &DocId,
        actor_id: &PeerId,
        seq: u32,
        kind: DataFrameKind,
        payload: Vec<u8>,
        batch_flag: BatchFlag,
        ref_id: [u8; 8],
    ) -> (r: Self)
        ensures
            r@ == (DataView {
                version: 1,
                flags: batch_code(batch_flag),
                doc_id: short_id(doc_id@),
                actor_id: short_id(actor_id@),
                seq,
                kind,
                payload: payload@,
                ref_id: ref_id@,
                sig: Seq::empty(),
            }),
    {
        let r = DataFrameWire {
            version: PROTOCOL_VERSION,
            flags: batch_flag.as_u8(),
            doc_id: device_id_to_bytes(doc_id.as_str()),
            actor_id: device_id_to_bytes(actor_id.as_str()),
            seq,
            kind,
            payload,
            ref_id,
            sig: Vec::new(),
        };
        assert(r@.sig =~= Seq::<u8>::empty());
        r
    }

    /// The frame's place in its batch.
    pub fn batch_flag(&self) -> (r: BatchFlag)
        ensures
            batch_code(r) == self.flags % 4,
    {
        BatchFlag::from_flags(self.flags)
    }

    /// The frame as the synchronisation layer sees it: document and sender are known by the
    /// hexadecimal notation of their eight bytes, and no session is set.
    pub fn to_data_frame(&self) -> (r: DataFrame)
        ensures
            r.doc_id@ == hex_chars(self.doc_id@),
            r.actor_id@ == hex_chars(self.actor_id@),
            r.seq == self.seq,
            r.kind == self.kind,
            r.payload@ == self.payload@,
            r.session_id == SessionId(0),
    {
        let payload = copy_range(self.payload.as_slice(), 0, self.payload.len());
        assert(payload@ =~= self.payload@);
        DataFrame {
            doc_id: DocId(hex_encode(self.doc_id.as_slice())),
            actor_id: PeerId(hex_encode(self.actor_id.as_slice())),
            seq: self.seq,
            kind: self.kind,
            payload,
            session_id: SessionId::new(0),
        }
    }

    /// The bytes of the frame.
    pub fn encode(&self) -> (r: Vec<u8>)
        ensures
            r@ == data_bytes(self@),
    {
        let mut buf: Vec<u8> = Vec::new();
        push_magic(&mut buf);
        buf.push(self.version);
        buf.push(self.flags);
        append_bytes(&mut buf, self.doc_id.as_slice());
        append_bytes(&mut buf, self.actor_id.as_slice());
        push_be(&mut buf, self.seq as u64, 4);
        buf.push(data_frame_kind_to_u8(self.kind));
        push_be(&mut buf, self.payload.len() as u64, 4);
        append_bytes(&mut buf, self.payload.as_slice());
        append_bytes(&mut buf, self.ref_id.as_slice());
        push_be(&mut buf, self.sig.len() as u64, 2);
        append_bytes(&mut buf, self.sig.as_slice());
        assert(buf@ =~= data_bytes(self@));
        buf
    }

    /// Reads the frame at the start of `data`.
    pub fn decode(data: &[u8]) -> (r: Result<Self, FrameError>)
        ensures
            match r {
                Ok(f) => data_decoded(data@) == Ok::<DataView, FrameError>(f@),
                Err(e) => data_decoded(data@) == Err::<DataView, FrameError>(e),
            },
    {
        if data.len() < 29 {
            return Err(FrameError::TooShort);
        }
        if !has_magic(data) {
            return Err(FrameError::BadMagic);
        }
        let kind = match u8_to_data_frame_kind(data[24]) {
            Ok(k) => k,
            Err(e) => return Err(e),
        };
        proof {
            lemma_pow256_values();
        }
        let seq: u32 = read_be(data, 20, 24) as u32;
        let payload_len: usize = read_be(data, 25, 29) as usize;
        let rest: usize = data.len() - 29;
        if rest < payload_len || rest - payload_len < 10 {
            return Err(FrameError::TooShort);
        }
        let ref_start: usize = 29 + payload_len;
        let sig_start: usize = ref_start + 10;
        let sig_len: usize = read_be(data, ref_start + 8, sig_start) as usize;
        if data.len() - sig_start < sig_len {
            return Err(FrameError::TooShort);
        }
        Ok(
            DataFrameWire {
                version: data[2],
                flags: data[3],
                doc_id: array8(data, 4),
                actor_id: array8(data, 12),
                seq,
                kind,
                payload: copy_range(data, 29, ref_start),
                ref_id: array8(data, ref_start),
                sig: copy_range(data, sig_start, sig_start + sig_len),
            },
        )
    }
}

/// A data frame whose lengths fit in their fields reads back from its bytes, whatever follows
/// them.
pub proof fn law_data_roundtrip(f: DataView, rest: Seq<u8>)
    requires
        f.doc_id.len() == 8,
        f.actor_id.len() == 8,
        f.ref_id.len() == 8,
        f.payload.len() <= 0xFFFF_FFFF,
        f.sig.len() <= 0xFFFF,
    ensures
        data_decoded(data_bytes(f) + rest) == Ok::<DataView, FrameError>(f),
{
    let data = data_bytes(f) + rest;
    let n = f.payload.len() as int;
    let m = f.sig.len() as int;
    lemma_be_bytes_len(f.seq as nat, 4);
    lemma_be_bytes_len(f.payload.len(), 4);
    lemma_be_bytes_len(f.sig.len(), 2);
    lemma_pow256_values();
    assert(data.subrange(0, 2) =~= magic());
    assert(data.subrange(4, 12) =~= f.doc_id);
    assert(data.subrange(12, 20) =~= f.actor_id);
    assert(data.subrange(20, 24) =~= be_bytes(f.seq as nat, 4));
    assert(data[24] == kind_code(f.kind));
    assert(data.subrange(25, 29) =~= be_bytes(f.payload.len(), 4));
    lemma_be_read_back(data, 20, f.seq as nat, 4);
    lemma_be_read_back(data, 25, f.payload.len(), 4);
    assert(data.subrange(29, 29 + n) =~= f.payload);
    assert(data.subrange(29 + n, 37 + n) =~= f.ref_id);
    assert(data.subrange(37 + n, 39 + n) =~= be_bytes(f.sig.len(), 2));
    lemma_be_read_back(data, 37 + n, f.sig.len(), 2);
    assert(data.subrange(39 + n, 39 + n + m) =~= f.sig);
}

/// Type-length-value entries: `type(1) | length(2) | value(n)`.
pub struct Tlv;

/// The bytes of one entry. Only the low sixteen bits of the length are written.
pub open spec fn tlv_bytes(tlv_type: u8, value: Seq<u8>) -> Seq<u8> {
    seq![tlv_type] + be_bytes(value.len(), 2) + value
}

/// Entries with each value taken as its bytes.
pub open spec fn tlv_views(entries: Seq<(u8, Vec<u8>)>) -> Seq<(u8, Seq<u8>)> {
    entries.map_values(|e: (u8, Vec<u8>)| (e.0, e.1@))
}

/// The bytes of entries in a row.
pub open spec fn tlv_all_bytes(entries: Seq<(u8, Seq<u8>)>) -> Seq<u8>
    decreases entries.len(),
{
    if entries.len() == 0 {
        Seq::empty()
    } else {
        tlv_bytes(entries[0].0, entries[0].1) + tlv_all_bytes(entries.drop_first())
    }
}

/// The entries that `data` is made of.
pub open spec fn tlv_decoded(data: Seq<u8>) -> Result<Seq<(u8, Seq<u8>)>, FrameError>
    decreases data.len(),
{
    if data.len() == 0 {
        Ok(Seq::empty())
    } else if data.len() < 3 {
        Err(FrameError::TooShort)
    } else {
        let n = be_value(data.subrange(1, 3)) as int;
        if data.len() < 3 + n {
            Err(FrameError::TooShort)
        } else {
            match tlv_decoded(data.skip(3 + n)) {
                Ok(rest) => Ok(seq![(data[0], data.subrange(3, 3 + n))] + rest),
                Err(e) => Err(e),
            }
        }
    }
}

/// `front`, then what is left to decode.
pub open spec fn tlv_continued(
    front: Seq<(u8, Seq<u8>)>,
    rest: Result<Seq<(u8, Seq<u8>)>, FrameError>,
) -> Result<Seq<(u8, Seq<u8>)>, FrameError> {
    match rest {
        Ok(entries) => Ok(front + entries),
        Err(e) => Err(e),
    }
}

impl Tlv {
    /// The bytes of one entry.
    pub fn encode(tlv_type: u8, value: &[u8]) -> (r: Vec<u8>)
        ensures
            r@ == tlv_bytes(tlv_type, value@),
    {
        let mut buf: Vec<u8> = Vec::new();
        buf.push(tlv_type);
        push_be(&mut buf, value.len() as u64, 2);
        append_bytes(&mut buf, value);
        assert(buf@ =~= tlv_bytes(tlv_type, value@));
        buf
    }

    /// Reads all entries of `data`.
    pub fn decode_all(data: &[u8]) -> (r: Result<Vec<(u8, Vec<u8>)>, FrameError>)
        ensures
            match r {
                Ok(v) => tlv_decoded(data@) == Ok::<Seq<(u8, Seq<u8>)>, FrameError>(tlv_views(v@)),
                Err(e) => tlv_decoded(data@) == Err::<Seq<(u8, Seq<u8>)>, FrameError>(e),
            },
    {
        let mut result: Vec<(u8, Vec<u8>)> = Vec::new();
        let mut pos: usize = 0;
        proof {
            assert(data@.skip(0) =~= data@);
            match tlv_decoded(data@) {
                Ok(entries) => {
                    assert(tlv_views(result@) + entries =~= entries);
                },
                Err(_) => {},
            }
        }
        while pos < data.len()
            invariant
                pos <= data@.len(),
                tlv_decoded(data@) == tlv_continued(
                    tlv_views(result@),
                    tlv_decoded(data@.skip(pos as int)),
                ),
            decreases data@.len() - pos,
        {
            let ghost rest = data@.skip(pos as int);
            if data.len() - pos < 3 {
                return Err(FrameError::TooShort);
            }
            proof {
                lemma_pow256_values();
                assert(rest.subrange(1, 3) =~= data@.subrange(pos + 1, pos + 3));
            }
            let tlv_type: u8 = data[pos];
            let len: usize = read_be(data, pos + 1, pos + 3) as usize;
            if data.len() - pos - 3 < len {
                return Err(FrameError::TooShort);
            }
            let value = copy_range(data, pos + 3, pos + 3 + len);
            let ghost before = result@;
            result.push((tlv_type, value));
            proof {
                assert(rest.subrange(3, 3 + len) =~= value@);
                assert(rest.skip(3 + len) =~= data@.skip(pos + 3 + len));
                assert(tlv_views(result@) =~= tlv_views(before).push((tlv_type, value@)));
                match tlv_decoded(rest.skip(3 + len)) {
                    Ok(entries) => {
                        assert(tlv_views(before) + (seq![(tlv_type, value@)] + entries)
                            =~= tlv_views(result@) + entries);
                    },
                    Err(_) => {},
                }
            }
            pos = pos + 3 + len;
        }
        proof {
            assert(data@.skip(pos as int) =~= Seq::<u8>::empty());
            assert(tlv_views(result@) + Seq::<(u8, Seq<u8>)>::empty() =~= tlv_views(result@));
        }
        Ok(result)
    }

    /// The bytes of entries in a row.
    pub fn encode_all(entries: &[(u8, Vec<u8>)]) -> (r: Vec<u8>)
        ensures
            r@ == tlv_all_bytes(tlv_views(entries@)),
    {
        let mut buf: Vec<u8> = Vec::new();
        let mut i: usize = 0;
        let ghost views = tlv_views(entries@);
        assert(views.skip(0) =~= views);
        assert(buf@ + tlv_all_bytes(views) =~= tlv_all_bytes(views));
        while i < entries.len()
            invariant
                i <= entries@.len(),
                views == tlv_views(entries@),
                buf@ + tlv_all_bytes(views.skip(i as int)) == tlv_all_bytes(views),
            decreases entries@.len() - i,
        {
            let ghost before = buf@;
            let one = Tlv::encode(entries[i].0, entries[i].1.as_slice());
            append_bytes(&mut buf, one.as_slice());
            proof {
                let rest = views.skip(i as int);
                assert(rest.drop_first() =~= views.skip(i + 1));
                assert(before + (one@ + tlv_all_bytes(views.skip(i + 1))) =~= buf@
                    + tlv_all_bytes(views.skip(i + 1)));
            }
            i = i + 1;
        }
        assert(views.skip(i as int) =~= Seq::<(u8, Seq<u8>)>::empty());
        assert(buf@ + Seq::<u8>::empty() =~= buf@);
        buf
    }
}

/// Entries whose lengths fit in sixteen bits read back from their bytes.
pub proof fn law_tlv_roundtrip(entries: Seq<(u8, Seq<u8>)>)
    requires
        forall|i: int| 0 <= i < entries.len() ==> (#[trigger] entries[i]).1.len() <= 0xFFFF,
    ensures
        tlv_decoded(tlv_all_bytes(entries)) == Ok::<Seq<(u8, Seq<u8>)>, FrameError>(entries),
    decreases entries.len(),
{
    let data = tlv_all_bytes(entries);
    if entries.len() == 0 {
        assert(entries =~= Seq::<(u8, Seq<u8>)>::empty());
    } else {
        let value = entries[0].1;
        let tail = entries.drop_first();
        assert forall|i: int| 0 <= i < tail.len() implies (#[trigger] tail[i]).1.len()
            <= 0xFFFF by {
            assert(tail[i] == entries[i + 1]);
        }
        law_tlv_roundtrip(tail);
        lemma_be_bytes_len(value.len(), 2);
        lemma_pow256_values();
        assert(data.subrange(1, 3) =~= be_bytes(value.len(), 2));
        lemma_be_read_back(data, 1, value.len(), 2);
        assert(data.subrange(3, 3 + value.len() as int) =~= value);
        assert(data.skip(3 + value.len() as int) =~= tlv_all_bytes(tail));
        assert(seq![entries[0]] + tail =~= entries);
    }
}

/// Announcing a device gives bytes from which it is read back, whatever follows them: who it is, in which
/// group, and what it can do.
pub proof fn law_announced_device_is_read(
    group_id: &str,
    device_id: &str,
    caps: AnchorCapabilities,
    frame: DiscoveryFrame,
    bytes: Vec<u8>,
    rest: Seq<u8>,
    data: &[u8],
    r: Result<DiscoveryFrame, FrameError>,
    can: AnchorCapabilities,
)
    requires
        call_ensures(DiscoveryFrame::from_presence, (group_id, device_id, caps), frame),
        call_ensures(DiscoveryFrame::encode, (&frame,), bytes),
        data@ == bytes@ + rest,
        call_ensures(DiscoveryFrame::decode, (data,), r),
        r matches Ok(f) ==> call_ensures(DiscoveryFrame::capabilities, (&f,), can),
    ensures
        bytes@.len() == 19,
        bytes@[0] == 0x54 && bytes@[1] == 0x43 && bytes@[2] == 1,
        r is Ok,
        r->Ok_0.group_id@ == sha256_digest(vstd::utf8::encode_utf8(group_id@)).take(4),
        r->Ok_0.device_id@ == sha256_digest(vstd::utf8::encode_utf8(device_id@)).take(8),
        r->Ok_0.version == 1,
        can == caps,
{
    law_discovery_roundtrip(frame@, rest);
    law_capabilities_roundtrip(caps);
    assert(r->Ok_0@ == frame@);
    assert(sha256_digest(vstd::utf8::encode_utf8(group_id@)).take(4) =~= sha256_digest(
        vstd::utf8::encode_utf8(group_id@),
    ).subrange(0, 4));
    assert(sha256_digest(vstd::utf8::encode_utf8(device_id@)).take(8) =~= sha256_digest(
        vstd::utf8::encode_utf8(device_id@),
    ).subrange(0, 8));
    let head = magic() + seq![frame.version];
    assert(bytes@ =~= head + (frame.group_id@ + frame.device_id@ + frame.capability_bits@
        + be_bytes(frame.checksum as nat, 2)));
    assert(bytes@[0] == head[0] && bytes@[1] == head[1] && bytes@[2] == head[2]);
}

proof fn lemma_crc_steps_injective(a: u16, b: u16, n: nat)
    requires
        crc_steps(a, n) == crc_steps(b, n),
    ensures
        a == b,
    decreases n,
{
    if n > 0 {
        let x = crc_steps(a, (n - 1) as nat);
        let y = crc_steps(b, (n - 1) as nat);
        let sx = crc_step(x);
        let sy = crc_step(y);
        assert(x == y) by (bit_vector)
            requires
                sx == sy,
                sx == (if x & 0x8000u16 != 0 {
                    (x << 1u16) ^ 0x1021u16
                } else {
                    x << 1u16
                }),
                sy == (if y & 0x8000u16 != 0 {
                    (y << 1u16) ^ 0x1021u16
                } else {
                    y << 1u16
                }),
        ;
        lemma_crc_steps_injective(a, b, (n - 1) as nat);
    }
}

proof fn lemma_crc_detects(s: Seq<u8>, t: Seq<u8>, i: int)
    requires
        s.len() == t.len(),
        0 <= i < s.len(),
        s[i] != t[i],
        forall|j: int| 0 <= j < s.len() && j != i ==> s[j] == t[j],
    ensures
        crc_over(0xFFFF, s) != crc_over(0xFFFF, t),
    decreases s.len(),
{
    let n = s.len() - 1;
    let c = crc_over(0xFFFF, s.drop_last());
    let d = crc_over(0xFFFF, t.drop_last());
    let a = s.last();
    let b = t.last();
    if crc_over(0xFFFF, s) == crc_over(0xFFFF, t) {
        lemma_crc_steps_injective(c ^ ((a as u16) << 8u16), d ^ ((b as u16) << 8u16), 8);
        if i < n {
            lemma_crc_detects(s.drop_last(), t.drop_last(), i);
            assert(a == b);
            assert(c == d) by (bit_vector)
                requires
                    c ^ ((a as u16) << 8u16) == d ^ ((a as u16) << 8u16),
            ;
        } else {
            assert(s.drop_last() =~= t.drop_last());
            assert(a == b) by (bit_vector)
                requires
                    c ^ ((a as u16) << 8u16) == c ^ ((b as u16) << 8u16),
            ;
        }
    }
}

/// An announcement in which any one byte of group, device or capabilities was changed on the way is refused
/// for its checksum.
pub proof fn law_changed_announcement_is_refused(
    data: &[u8],
    changed: &[u8],
    i: int,
    r: Result<DiscoveryFrame, FrameError>,
    refused: Result<DiscoveryFrame, FrameError>,
)
    requires
        3 <= i < 17,
        changed@.len() == data@.len(),
        data@.len() >= 19,
        changed@[i] != data@[i],
        forall|j: int| 0 <= j < data@.len() && j != i ==> changed@[j] == data@[j],
        call_ensures(DiscoveryFrame::decode, (data,), r),
        r is Ok,
        call_ensures(DiscoveryFrame::decode, (changed,), refused),
    ensures
        refused matches Err(e) && e is ChecksumMismatch,
{
    let s = data@.subrange(3, 7) + data@.subrange(7, 15) + data@.subrange(15, 17);
    let t = changed@.subrange(3, 7) + changed@.subrange(7, 15) + changed@.subrange(15, 17);
    assert(s =~= data@.subrange(3, 17));
    assert(t =~= changed@.subrange(3, 17));
    assert(s[i - 3] == data@[i] && t[i - 3] == changed@[i]);
    assert forall|j: int| 0 <= j < s.len() && j != i - 3 implies s[j] == t[j] by {
        assert(s[j] == data@[j + 3] && t[j] == changed@[j + 3]);
    }
    lemma_crc_detects(s, t, i - 3);
    assert(changed@.subrange(0, 2) =~= data@.subrange(0, 2));
    assert(changed@.subrange(17, 19) =~= data@.subrange(17, 19));
}

/// Every frame is refused that is shorter than its fields, or does not begin with the two bytes of the
/// protocol.
pub proof fn law_foreign_bytes_are_no_frames(
    data: &[u8],
    discovery: Result<DiscoveryFrame, FrameError>,
    control: Result<ControlFrame, FrameError>,
    wire: Result<DataFrameWire, FrameError>,
)
    requires
        call_ensures(DiscoveryFrame::decode, (data,), discovery),
        call_ensures(ControlFrame::decode, (data,), control),
        call_ensures(DataFrameWire::decode, (data,), wire),
    ensures
        discovery is Ok ==> data@.len() >= 19,
        control is Ok ==> data@.len() >= 14,
        wire is Ok ==> data@.len() >= 39,
        discovery is Ok || control is Ok || wire is Ok ==> data@[0] == 0x54 && data@[1] == 0x43,
        data@.len() < 14 ==> (control matches Err(e) && e is TooShort) && (wire matches Err(e) && e
            is TooShort) && (discovery matches Err(e) && e is TooShort),
{
    if data@.len() >= 14 {
        assert(data@.subrange(0, 2)[0] == data@[0] && data@.subrange(0, 2)[1] == data@[1]);
    }
}

/// A control frame reads back from its bytes, whatever follows them, where the length of its payload fits
/// into sixteen bits.
pub proof fn law_control_frame_is_read(
    ctrl_type: ControlType,
    session_id: u64,
    payload: Vec<u8>,
    frame: ControlFrame,
    bytes: Vec<u8>,
    rest: Seq<u8>,
    data: &[u8],
    r: Result<ControlFrame, FrameError>,
)
    requires
        payload@.len() <= 65535,
        call_ensures(ControlFrame::new, (ctrl_type, session_id, payload), frame),
        call_ensures(ControlFrame::encode, (&frame,), bytes),
        data@ == bytes@ + rest,
        call_ensures(ControlFrame::decode, (data,), r),
    ensures
        bytes@.len() == 14 + payload@.len(),
        r matches Ok(f) && f.version == 1 && f.ctrl_type == ctrl_type && f.session_id == session_id
            && f.payload@ == payload@,
{
    law_control_roundtrip(frame@, rest);
    lemma_be_bytes_len(session_id as nat, 8);
    lemma_be_bytes_len(payload@.len(), 2);
    assert(r->Ok_0@ == frame@);
}

/// The kinds of control frame are numbered one after the other from one on, and each is found by its
/// number; no other number is one.
pub proof fn law_control_types_are_numbered(t: ControlType, n: u8, v: u8, r: Option<ControlType>)
    requires
        call_ensures(ControlType::as_u8, (&t,), n),
        call_ensures(ControlType::from_u8, (v,), r),
    ensures
        v == n ==> r == Some(t),
        r is Some <==> 1 <= v <= 10,
        t is Capabilities ==> n == 1,
        t is KnownCheckpoint ==> n == 2,
        t is AckSummary ==> n == 3,
        t is NeedRanges ==> n == 4,
        t is TransportHints ==> n == 5,
        t is RelayHints ==> n == 6,
        t is Introduce ==> n == 7,
        t is Revoke ==> n == 8,
        t is KeyRotate ==> n == 9,
        t is SyncIntent ==> n == 10,
{
}

/// A change that is put into a frame reads back from its bytes, whatever follows them, and is seen by the
/// synchronisation with the same number, kind and bytes; document and sender are known by the first eight
/// bytes of the digests of their names, in hexadecimal.
pub proof fn law_data_frame_is_read(
    doc_id: &DocId,
    actor_id: &PeerId,
    seq: u32,
    kind: DataFrameKind,
    payload: Vec<u8>,
    flag: BatchFlag,
    ref_id: [u8; 8],
    frame: DataFrameWire,
    bytes: Vec<u8>,
    rest: Seq<u8>,
    data: &[u8],
    r: Result<DataFrameWire, FrameError>,
    seen: DataFrame,
    place: BatchFlag,
)
    requires
        payload@.len() <= 0xFFFF_FFFF,
        call_ensures(
            DataFrameWire::new,
            (doc_id, actor_id, seq, kind, payload, flag, ref_id),
            frame,
        ),
        call_ensures(DataFrameWire::encode, (&frame,), bytes),
        data@ == bytes@ + rest,
        call_ensures(DataFrameWire::decode, (data,), r),
        r matches Ok(f) ==> call_ensures(DataFrameWire::to_data_frame, (&f,), seen)
            && call_ensures(DataFrameWire::batch_flag, (&f,), place),
    ensures
        r is Ok,
        r->Ok_0.version == 1,
        r->Ok_0.ref_id@ == ref_id@,
        r->Ok_0.sig@.len() == 0,
        place == flag,
        seen.seq == seq,
        seen.kind == kind,
        seen.payload@ == payload@,
        seen.doc_id@ == hex_chars(sha256_digest(vstd::utf8::encode_utf8(doc_id@)).take(8)),
        seen.actor_id@ == hex_chars(sha256_digest(vstd::utf8::encode_utf8(actor_id@)).take(8)),
{
    assert(frame@.doc_id == frame.doc_id@ && frame@.actor_id == frame.actor_id@ && frame@.ref_id
        == frame.ref_id@);
    law_data_roundtrip(frame@, rest);
    assert(r->Ok_0@ == frame@);
    assert(sha256_digest(vstd::utf8::encode_utf8(doc_id@)).take(8) =~= short_id(doc_id@));
    assert(sha256_digest(vstd::utf8::encode_utf8(actor_id@)).take(8) =~= short_id(actor_id@));
}

/// Any frame that is sealed with a tag reads back with the tag, where the lengths fit into their fields.
pub proof fn law_sealed_frame_is_read(
    frame: &DataFrameWire,
    bytes: Vec<u8>,
    data: &[u8],
    r: Result<DataFrameWire, FrameError>,
)
    requires
        frame.payload@.len() <= 0xFFFF_FFFF,
        frame.sig@.len() <= 0xFFFF,
        call_ensures(DataFrameWire::encode, (frame,), bytes),
        data@ == bytes@,
        call_ensures(DataFrameWire::decode, (data,), r),
    ensures
        r is Ok,
        r->Ok_0.version == frame.version,
        r->Ok_0.flags == frame.flags,
        r->Ok_0.doc_id@ == frame.doc_id@,
        r->Ok_0.actor_id@ == frame.actor_id@,
        r->Ok_0.seq == frame.seq,
        r->Ok_0.kind == frame.kind,
        r->Ok_0.payload@ == frame.payload@,
        r->Ok_0.ref_id@ == frame.ref_id@,
        r->Ok_0.sig@ == frame.sig@,
{
    law_data_roundtrip(frame@, Seq::empty());
    assert(bytes@ + Seq::<u8>::empty() =~= bytes@);
    assert(r->Ok_0@ == frame@);
}

/// The place of a frame in its batch is found by its number, and rests on the two low bits only.
pub proof fn law_batch_places_are_numbered(
    f: BatchFlag,
    n: u8,
    flags: u8,
    r: BatchFlag,
    low: BatchFlag,
)
    requires
        call_ensures(BatchFlag::as_u8, (&f,), n),
        call_ensures(BatchFlag::from_flags, (flags,), r),
        call_ensures(BatchFlag::from_flags, ((flags % 4) as u8,), low),
    ensures
        r == low,
        flags % 4 == n ==> r == f,
        f is Single ==> n == 0,
        f is BatchStart ==> n == 1,
        f is BatchMiddle ==> n == 2,
        f is BatchEnd ==> n == 3,
{
}

/// Entries that are written in a row read back, one for one and in their order, where their lengths fit into
/// sixteen bits; and writing them in a row is writing one behind the other.
pub proof fn law_entries_are_read_back(
    entries: &[(u8, Vec<u8>)],
    bytes: Vec<u8>,
    data: &[u8],
    r: Result<Vec<(u8, Vec<u8>)>, FrameError>,
    fewer: &[(u8, Vec<u8>)],
    fewer_bytes: Vec<u8>,
    value: &[u8],
    first: Vec<u8>,
)
    requires
        forall|i: int| 0 <= i < entries@.len() ==> (#[trigger] entries@[i]).1@.len() <= 65535,
        call_ensures(Tlv::encode_all, (entries,), bytes),
        data@ == bytes@,
        call_ensures(Tlv::decode_all, (data,), r),
        entries@.len() > 0,
        fewer@ == entries@.drop_first(),
        call_ensures(Tlv::encode_all, (fewer,), fewer_bytes),
        value@ == entries@[0].1@,
        call_ensures(Tlv::encode, (entries@[0].0, value), first),
    ensures
        r is Ok,
        r->Ok_0@.len() == entries@.len(),
        forall|i: int|
            0 <= i < entries@.len() ==> (#[trigger] r->Ok_0@[i]).0 == entries@[i].0
                && r->Ok_0@[i].1@ == entries@[i].1@,
        bytes@ == first@ + fewer_bytes@,
        first@.len() == 3 + value@.len(),
        first@[0] == entries@[0].0,
        first@.skip(3) == value@,
{
    let views = tlv_views(entries@);
    assert forall|i: int| 0 <= i < views.len() implies (#[trigger] views[i]).1.len() <= 0xFFFF by {
        assert(views[i].1 == entries@[i].1@);
    }
    law_tlv_roundtrip(views);
    let back = tlv_views(r->Ok_0@);
    assert(back == views);
    assert(back.len() == r->Ok_0@.len());
    assert forall|i: int| 0 <= i < entries@.len() implies (#[trigger] r->Ok_0@[i]).0
        == entries@[i].0 && r->Ok_0@[i].1@ == entries@[i].1@ by {
        assert(back[i] == views[i]);
    }
    assert(views.drop_first() =~= tlv_views(fewer@));
    lemma_be_bytes_len(value@.len(), 2);
    assert(first@.skip(3) =~= value@);
}

/// Nothing is no entries, and what ends within an entry is refused.
pub proof fn law_cut_entries_are_refused(
    data: &[u8],
    r: Result<Vec<(u8, Vec<u8>)>, FrameError>,
)
    requires
        call_ensures(Tlv::decode_all, (data,), r),
    ensures
        data@.len() == 0 ==> (r matches Ok(v) && v@.len() == 0),
        0 < data@.len() < 3 ==> (r matches Err(e) && e is TooShort),
        data@.len() >= 3 && data@.len() < 3 + data@[1] * 256 + data@[2] ==> (r matches Err(e) && e
            is TooShort),
{
    if data@.len() == 0 && r is Ok {
        assert(tlv_views(r->Ok_0@).len() == r->Ok_0@.len());
    }
    if data@.len() >= 3 {
        let s = data@.subrange(1, 3);
        reveal_with_fuel(be_value, 3);
        assert(s.drop_last().drop_last() =~= Seq::<u8>::empty());
        assert(be_value(s) == s[0] * 256 + s[1]);
    }
}

/// A number that names no kind of frame is refused as such.
pub proof fn law_unknown_kinds_are_refused(
    data: &[u8],
    control: Result<ControlFrame, FrameError>,
    wire: Result<DataFrameWire, FrameError>,
)
    requires
        data@.len() >= 39,
        data@[0] == 0x54 && data@[1] == 0x43,
        call_ensures(ControlFrame::decode, (data,), control),
        call_ensures(DataFrameWire::decode, (data,), wire),
    ensures
        data@[3] == 0 || data@[3] > 10 ==> control == Err::<ControlFrame, FrameError>(
            FrameError::UnknownControlType(data@[3]),
        ),
        data@[24] > 2 ==> wire == Err::<DataFrameWire, FrameError>(
            FrameError::UnknownDataFrameKind(data@[24]),
        ),
        wire matches Ok(f) ==> (data@[24] == 0 <==> f.kind is Delta) && (data@[24] == 1 <==> f.kind
            is SnapshotChunk) && (data@[24] == 2 <==> f.kind is BatchMiddle),
{
    assert(data@.subrange(0, 2) =~= MAGIC@);
}

/// The text that is shown for a frame error says what is wrong, with the number that is.
pub proof fn law_shown_frame_error_says_what_is_wrong(e: &FrameError, r: String)
    requires
        call_ensures(FrameError::message, (e,), r),
    ensures
        e is TooShort ==> r@ == "数据过短"@,
        e is BadMagic ==> r@ == "magic 不匹配"@,
        e is ChecksumMismatch ==> r@ == "checksum 不匹配"@,
        *e matches FrameError::UnknownControlType(v) ==> r@ == "未知控制类型: "@ + decimal(
            v as nat,
        ),
        *e matches FrameError::UnknownDataFrameKind(v) ==> r@ == "未知数据帧类型: "@ + decimal(
            v as nat,
        ),
        *e matches FrameError::VersionMismatch(v) ==> r@ == "版本不兼容: "@ + decimal(v as nat),
        *e matches FrameError::FrameTooLarge(n) ==> r@ == "帧过大: "@ + decimal(n as nat)
            + " 字节，超过最大限制"@,
{
}

} // verus!
