//! The handshake, in three messages.
//!
//! 1. The initiator sends its ephemeral key, and the protection against replay as payload.
//! 2. The responder checks the protection and sends its ephemeral and its static key.
//! 3. The initiator sends its static key.
//!
//! Both sides have to start from the same prologue, such as protocol version and group; else the
//! handshake fails.

use vstd::prelude::*;

use crate::error::{crypto_error, crypto_refusal, is_crypto_error, CoreError, CoreResult};
use crate::octets::{array32, copy_range};
use crate::replay::{fresh_protection, generate_replay_payload, judged_now, NonceCache};
use crate::secure_session::{channel_of, in_step, ChannelView, Session};

verus! {

/// The handshake pattern and its primitives.
pub const NOISE_PARAMS: &'static str = "Noise_XX_25519_ChaChaPoly_BLAKE2s";

/// The longest message of a handshake.
pub const MAX_MESSAGE_LEN: usize = 65535;

#[verifier::external_type_specification]
#[verifier::external_body]
pub struct ExNoiseParams(snow::params::NoiseParams);

#[verifier::external_type_specification]
#[verifier::external_body]
pub struct ExHandshakeState(snow::HandshakeState);

/// The state of a handshake.
#[verifier::ext_equal]
pub struct HandshakeView {
    /// Whether its parameters are those of this library.
    pub ours: bool,
    pub initiator: bool,
    /// The private key that it was made with.
    pub local: Seq<u8>,
    pub prologue: Seq<u8>,
    /// How many messages were written and read.
    pub position: int,
    /// The messages that were written and read, in their order.
    pub passed: Seq<Seq<u8>>,
    /// Whether no message was refused so far.
    pub smooth: bool,
    /// Whether this side writes the next message.
    pub my_turn: bool,
    /// The peer's static key, once it is known.
    pub remote: Option<Seq<u8>>,
    /// What the keys of the channel come from.
    pub secret: Seq<u8>,
}

/// The state of a handshake.
pub uninterp spec fn handshake_of(s: snow::HandshakeState) -> HandshakeView;

/// Whether parameters were read from a name.
pub uninterp spec fn read_from(p: snow::params::NoiseParams, name: Seq<char>) -> bool;

/// The public key of a private key.
pub uninterp spec fn x25519_public(private: Seq<u8>) -> Seq<u8>;

/// Whether a message is one that a side in this state wrote for a payload.
pub uninterp spec fn handshake_sent(v: HandshakeView, payload: Seq<u8>, message: Seq<u8>) -> bool;

/// Whether a side in this state was refused to write a message for a payload, for this reason.
pub uninterp spec fn handshake_unsent(v: HandshakeView, payload: Seq<u8>, why: Seq<char>) -> bool;

/// The cipher and key that the initiator, or the responder, sends with.
pub uninterp spec fn channel_key(secret: Seq<u8>, from_initiator: bool) -> Seq<u8>;

/// Whether a state is that of a handshake that was not begun yet.
pub open spec fn is_opening(
    v: HandshakeView,
    initiator: bool,
    local: Seq<u8>,
    prologue: Seq<u8>,
) -> bool {
    &&& v.ours
    &&& v.initiator == initiator
    &&& v.local == local
    &&& v.prologue == prologue
    &&& v.position == 0
    &&& v.passed == Seq::<Seq<u8>>::empty()
    &&& v.smooth
    &&& v.my_turn == initiator
    &&& v.remote is None
}

/// Whether two states are of the same handshake on the same side.
pub open spec fn same_handshake(a: HandshakeView, b: HandshakeView) -> bool {
    &&& b.ours == a.ours
    &&& b.initiator == a.initiator
    &&& b.local == a.local
    &&& b.prologue == a.prologue
}

/// Whether a handshake stays where it is: a message was refused.
pub open spec fn stays(a: HandshakeView, b: HandshakeView) -> bool {
    &&& same_handshake(a, b)
    &&& b.position == a.position
    &&& b.passed == a.passed
    &&& b.my_turn == a.my_turn
    &&& b.secret == a.secret
}

/// How much longer than its payload the message at a position is: for keys and tags.
pub open spec fn message_overhead(position: int) -> int {
    if position == 0 {
        32
    } else if position == 1 {
        96
    } else {
        64
    }
}

/// Whether a handshake went on by a message that was written.
pub open spec fn wrote(a: HandshakeView, b: HandshakeView, message: Seq<u8>) -> bool {
    &&& same_handshake(a, b)
    &&& a.my_turn && a.position < 3
    &&& b.position == a.position + 1
    &&& b.passed == a.passed.push(message)
    &&& b.smooth == a.smooth
    &&& !b.my_turn
    &&& b.remote == a.remote
}

/// Whether a handshake went on by a message that was read. After the first message the peer's
/// static key is known.
pub open spec fn has_read(a: HandshakeView, b: HandshakeView, message: Seq<u8>) -> bool {
    &&& same_handshake(a, b)
    &&& !a.my_turn && a.position < 3
    &&& b.position == a.position + 1
    &&& b.passed == a.passed.push(message)
    &&& b.smooth == a.smooth
    &&& b.my_turn
    &&& a.position > 0 ==> b.remote is Some && b.remote->Some_0.len() == 32
}

/// Whether two states are the two sides of one handshake: the same messages have passed, and it
/// is one side's turn to write.
pub open spec fn paired(a: HandshakeView, b: HandshakeView) -> bool {
    &&& a.ours && b.ours
    &&& a.smooth && b.smooth
    &&& a.initiator != b.initiator
    &&& a.prologue == b.prologue
    &&& a.position == b.position
    &&& a.passed == b.passed
    &&& a.my_turn != b.my_turn
}

/// Whether one side holds the other's static key and, at the end, the same secret.
pub open spec fn meets(v: HandshakeView, peer: HandshakeView) -> bool {
    &&& peer.local.len() == 32 ==> v.remote == Some(x25519_public(peer.local))
    &&& v.position == 3 ==> v.secret == peer.secret
}

/// The channel that a handshake leads to.
pub open spec fn channel_after(v: HandshakeView) -> ChannelView {
    ChannelView {
        out_key: channel_key(v.secret, v.initiator),
        out_nonce: 0,
        in_key: channel_key(v.secret, !v.initiator),
        in_nonce: 0,
        may_send: true,
        may_receive: true,
    }
}

/// The parameters that a name stands for.
///
/// Calls `snow::params::NoiseParams::from_str`, which takes the name that this library uses. When
/// it takes another is left unsaid.
#[verifier::external_body]
pub(crate) fn noise_params(name: &str) -> (r: Result<snow::params::NoiseParams, String>)
    ensures
        name@ == NOISE_PARAMS@ ==> r is Ok,
        r is Ok ==> read_from(r->Ok_0, name@),
{
    name.parse().map_err(|e: snow::Error| e.to_string())
}

/// A new private and public key.
///
/// Calls `snow::Builder::generate_keypair`. Which key comes, and whether one comes, rests on the
/// system's random numbers; the public key is that of the private key, as named by
/// `x25519_public`.
#[verifier::external_body]
fn new_keypair(params: snow::params::NoiseParams) -> (r: Result<(Vec<u8>, Vec<u8>), String>)
    requires
        read_from(params, NOISE_PARAMS@),
    ensures
        r is Ok ==> r->Ok_0.0@.len() == 32,
        r is Ok ==> r->Ok_0.1@.len() == 32,
        r is Ok ==> r->Ok_0.1@ == x25519_public(r->Ok_0.0@),
{
    snow::Builder::new(params).generate_keypair().map(|k| (k.private, k.public)).map_err(
        |e| e.to_string(),
    )
}

/// Whether these keys were drawn, with the parameters of this library.
pub closed spec fn drawn_keypair(private: Seq<u8>, public: Seq<u8>) -> bool {
    exists|params: snow::params::NoiseParams, k: Vec<u8>, p: Vec<u8>|
        read_from(params, NOISE_PARAMS@) && k@ == private && p@ == public
            && #[trigger] call_ensures(new_keypair, (params,), Ok((k, p)))
}

/// Whether keys were to be drawn, with the parameters of this library, and none came, for this
/// reason.
pub closed spec fn undrawn_keypair(why: Seq<char>) -> bool {
    exists|params: snow::params::NoiseParams, text: String|
        read_from(params, NOISE_PARAMS@) && text@ == why && #[trigger] call_ensures(
            new_keypair,
            (params,),
            Err(text),
        )
}

/// Draws a new private and public key.
pub(crate) fn draw_keypair(params: snow::params::NoiseParams) -> (r: Result<
    (Vec<u8>, Vec<u8>),
    String,
>)
    requires
        read_from(params, NOISE_PARAMS@),
    ensures
        match r {
            Ok(k) => {
                &&& drawn_keypair(k.0@, k.1@)
                &&& k.0@.len() == 32
                &&& k.1@.len() == 32
                &&& k.1@ == x25519_public(k.0@)
            },
            Err(why) => undrawn_keypair(why@),
        },
{
    let ghost p = params;
    let r = new_keypair(params);
    proof {
        if r is Ok {
            assert(call_ensures(new_keypair, (p,), Ok((r->Ok_0.0, r->Ok_0.1))));
        } else {
            assert(call_ensures(new_keypair, (p,), Err(r->Err_0)));
        }
    }
    r
}

/// The state of the side that sends first. Calls `snow::Builder::build_initiator`, with a private
/// key and a prologue; with these parameters it succeeds. A longer key would make it panic.
#[verifier::external_body]
fn build_initiator(
    params: snow::params::NoiseParams,
    private: &[u8],
    prologue: &[u8],
) -> (r: Result<snow::HandshakeState, String>)
    requires
        read_from(params, NOISE_PARAMS@),
        private@.len() <= 32,
    ensures
        r is Ok,
        is_opening(handshake_of(r->Ok_0), true, private@, prologue@),
{
    snow::Builder::new(params).local_private_key(private).and_then(|b| b.prologue(prologue)).and_then(
        |b| b.build_initiator(),
    ).map_err(|e| e.to_string())
}

/// The state of the side that receives first. Calls `snow::Builder::build_responder`, with a
/// private key and a prologue; with these parameters it succeeds. A longer key would make it
/// panic.
#[verifier::external_body]
fn build_responder(
    params: snow::params::NoiseParams,
    private: &[u8],
    prologue: &[u8],
) -> (r: Result<snow::HandshakeState, String>)
    requires
        read_from(params, NOISE_PARAMS@),
        private@.len() <= 32,
    ensures
        r is Ok,
        is_opening(handshake_of(r->Ok_0), false, private@, prologue@),
{
    snow::Builder::new(params).local_private_key(private).and_then(|b| b.prologue(prologue)).and_then(
        |b| b.build_responder(),
    ).map_err(|e| e.to_string())
}

/// Writes the next message into `buf`, and tells its length.
///
/// Calls `snow::HandshakeState::write_message`. The first message is an ephemeral key of 32 bytes
/// and the payload as it is. What the later ones hold rests on ephemeral keys, which rest on
/// chance; that a message was written in a state is named by `handshake_sent`, and that none was,
/// and why, by `handshake_unsent`. The last message needs no random numbers, and is written
/// wherever it is due and fits. A refused message leaves the handshake where it is.
#[verifier::external_body]
fn write_handshake(
    state: &mut snow::HandshakeState,
    payload: &[u8],
    buf: &mut Vec<u8>,
) -> (r: Result<usize, String>)
    requires
        handshake_of(*old(state)).ours,
        payload@.len() <= 65535,
        old(buf)@.len() == 65535,
    ensures
        final(buf)@.len() == old(buf)@.len(),
        r is Ok ==> r->Ok_0 <= old(buf)@.len() && r->Ok_0 <= 65535,
        r is Ok ==> wrote(handshake_of(*old(state)), handshake_of(*final(state)), final(buf)@.take(r->Ok_0 as int)),
        r is Ok ==> handshake_sent(handshake_of(*old(state)), payload@, final(buf)@.take(r->Ok_0 as int)),
        r is Ok ==> r->Ok_0 == message_overhead(handshake_of(*old(state)).position) + payload@.len(),
        r is Ok && handshake_of(*old(state)).position == 0 ==> final(buf)@.subrange(32, r->Ok_0 as int) == payload@,
        handshake_of(*old(state)).position == 2 && handshake_of(*old(state)).my_turn && payload@.len() + 64 <= 65535 ==> r is Ok,
        r is Err ==> handshake_unsent(handshake_of(*old(state)), payload@, r->Err_0@),
        r is Err ==> stays(handshake_of(*old(state)), handshake_of(*final(state))),
{
    state.write_message(payload, buf.as_mut_slice()).map_err(|e| e.to_string())
}

/// Reads a message, writes its payload into `buf`, and tells its length.
///
/// Calls `snow::HandshakeState::read_message`. The payload of the first message is what comes
/// after the ephemeral key of 32 bytes; a message that is long enough is taken where one is due.
/// A later message is taken, and yields its payload, where the other side of the same handshake
/// wrote it; when any other is taken is left unsaid. Once both sides' messages have passed, each
/// holds the other's static key, and at the end both hold the same secret. A refused message
/// leaves the handshake where it is, but what was refused may spoil what comes later.
#[verifier::external_body]
fn read_handshake(
    state: &mut snow::HandshakeState,
    message: &[u8],
    buf: &mut Vec<u8>,
) -> (r: Result<usize, String>)
    requires
        handshake_of(*old(state)).ours,
        old(buf)@.len() == 65535,
    ensures
        final(buf)@.len() == old(buf)@.len(),
        r is Ok ==> r->Ok_0 <= message@.len() && message@.len() <= 65535,
        r is Ok ==> has_read(handshake_of(*old(state)), handshake_of(*final(state)), message@),
        handshake_of(*old(state)).position == 0 ==> (r is Ok) == (!handshake_of(*old(state)).my_turn && 32 <= message@.len() <= 65535),
        r is Ok && handshake_of(*old(state)).position == 0 ==> r->Ok_0 + 32 == message@.len() && final(buf)@.take(r->Ok_0 as int) == message@.skip(32),
        forall|w: snow::HandshakeState, p: Seq<u8>| #[trigger] handshake_sent(handshake_of(w), p, message@) && paired(handshake_of(w), handshake_of(*old(state))) && handshake_of(w).my_turn ==> r is Ok && final(buf)@.take(r->Ok_0 as int) == p,
        r is Ok && handshake_of(*old(state)).position > 0 ==> forall|w: snow::HandshakeState| #[trigger] paired(handshake_of(w), handshake_of(*final(state))) ==> meets(handshake_of(*final(state)), handshake_of(w)),
        r is Err ==> stays(handshake_of(*old(state)), handshake_of(*final(state))),
{
    state.read_message(message, buf.as_mut_slice()).map_err(|e| e.to_string())
}

/// The peer's static key, once it is known. Calls `snow::HandshakeState::get_remote_static`.
#[verifier::external_body]
fn remote_static(state: &snow::HandshakeState) -> (r: Option<Vec<u8>>)
    ensures
        (r is Some) == (handshake_of(*state).remote is Some),
        r is Some ==> r->Some_0@ == handshake_of(*state).remote->Some_0,
{
    state.get_remote_static().map(|k| k.to_vec())
}

/// The state of the channel after the handshake.
///
/// Calls `snow::HandshakeState::into_transport_mode`, which takes a handshake whose three
/// messages have passed. Each side sends with the key that the other receives with, where both
/// came to the same secret; the keys are named by `channel_key`.
#[verifier::external_body]
fn into_channel(state: snow::HandshakeState) -> (r: Result<snow::TransportState, String>)
    requires
        handshake_of(state).ours,
    ensures
        (r is Ok) == (handshake_of(state).position == 3),
        r is Ok ==> channel_of(r->Ok_0).out_key == channel_key(handshake_of(state).secret, handshake_of(state).initiator),
        r is Ok ==> channel_of(r->Ok_0).in_key == channel_key(handshake_of(state).secret, !handshake_of(state).initiator),
        r is Ok ==> channel_of(r->Ok_0) == channel_after(handshake_of(state)),
{
    state.into_transport_mode().map_err(|e| e.to_string())
}

/// Who sends first.
#[derive(Debug, Clone, Copy, PartialEq, Eq, Structural)]
pub enum NoiseRole {
    Initiator,
    Responder,
}

/// What a handshake yields.
pub struct HandshakeResult {
    /// The peer's static key.
    pub remote_static_pubkey: [u8; 32],
    pub session: Session,
}

/// A handshake under way.
pub struct NoiseHandshake {
    state: snow::HandshakeState,
    role: NoiseRole,
    /// How many steps were taken, out of two.
    step: u8,
    /// What protects the initiator's first message.
    replay_payload: Vec<u8>,
}

/// Checks the payload of a first message. An empty one is refused: there is no way round the
/// protection.
pub fn check_first_payload(payload: &[u8], cache: &mut NonceCache) -> (r: CoreResult<()>)
    requires
        old(cache).wf(),
    ensures
        final(cache).wf(),
        payload@.len() == 0 ==> *final(cache) == *old(cache) && (r matches Err(e)
            && is_crypto_error(e, "握手 payload 为空，拒绝无重放保护的握手"@)),
        payload@.len() > 0 ==> judged_now(*old(cache), *final(cache), payload@, r),
{
    if payload.len() == 0 {
        return Err(
            CoreError::Crypto("握手 payload 为空，拒绝无重放保护的握手".to_owned()),
        );
    }
    cache.verify_replay(payload)
}

impl NoiseHandshake {
    /// Who this side is.
    pub closed spec fn side(&self) -> NoiseRole {
        self.role
    }

    /// How many steps were taken.
    pub closed spec fn steps(&self) -> u8 {
        self.step
    }

    /// What protects the first message.
    pub closed spec fn protection(&self) -> Seq<u8> {
        self.replay_payload@
    }

    /// The state of the handshake.
    pub closed spec fn state(&self) -> HandshakeView {
        handshake_of(self.state)
    }

    /// The steps taken and the messages that passed go together. Where the responder's first step
    /// failed after it read a message, that message has passed all the same.
    pub open spec fn wf(&self) -> bool {
        let v = self.state();
        &&& v.ours
        &&& v.initiator == (self.side() == NoiseRole::Initiator)
        &&& self.steps() <= 2
        &&& self.protection().len() == (if v.initiator {
            24int
        } else {
            0int
        })
        &&& self.steps() == 0 ==> {
            if v.initiator {
                v.position == 0 && v.my_turn
            } else {
                (v.position == 0 && !v.my_turn) || (v.position == 1 && v.my_turn)
            }
        }
        &&& self.steps() == 1 ==> {
            !v.my_turn && v.position == (if v.initiator {
                1int
            } else {
                2int
            })
        }
        &&& self.steps() == 2 ==> v.position == 3 && v.remote is Some && v.remote->Some_0.len()
            == 32
    }

    /// Starts a handshake as initiator, with a static private key.
    pub fn initiator(local_static_private: &[u8], prologue: &[u8]) -> (r: CoreResult<Self>)
        requires
            local_static_private@.len() <= 32,
        ensures
            r matches Ok(h) && {
                &&& h.wf()
                &&& h.side() == NoiseRole::Initiator
                &&& h.steps() == 0
                &&& is_opening(h.state(), true, local_static_private@, prologue@)
                &&& fresh_protection(h.protection())
            },
    {
        let params = match noise_params(NOISE_PARAMS) {
            Ok(p) => p,
            Err(why) => {
                return Err(crypto_error("解析 Noise 参数失败: ", why.as_str()));
            },
        };
        match build_initiator(params, local_static_private, prologue) {
            Ok(state) => Ok(
                NoiseHandshake {
                    state,
                    role: NoiseRole::Initiator,
                    step: 0,
                    replay_payload: generate_replay_payload(),
                },
            ),
            Err(why) => Err(
                crypto_error("构建 initiator 失败: ", why.as_str()),
            ),
        }
    }

    /// Starts a handshake as responder, with a static private key.
    pub fn responder(local_static_private: &[u8], prologue: &[u8]) -> (r: CoreResult<Self>)
        requires
            local_static_private@.len() <= 32,
        ensures
            r matches Ok(h) && {
                &&& h.wf()
                &&& h.side() == NoiseRole::Responder
                &&& h.steps() == 0
                &&& is_opening(h.state(), false, local_static_private@, prologue@)
            },
    {
        let params = match noise_params(NOISE_PARAMS) {
            Ok(p) => p,
            Err(why) => {
                return Err(crypto_error("解析 Noise 参数失败: ", why.as_str()));
            },
        };
        match build_responder(params, local_static_private, prologue) {
            Ok(state) => Ok(
                NoiseHandshake {
                    state,
                    role: NoiseRole::Responder,
                    step: 0,
                    replay_payload: Vec::new(),
                },
            ),
            Err(why) => Err(
                crypto_error("构建 responder 失败: ", why.as_str()),
            ),
        }
    }

    /// Writes the next message of this side.
    fn write(&mut self, payload: &[u8]) -> (r: CoreResult<Vec<u8>>)
        requires
            old(self).state().ours,
            payload@.len() <= 65535,
        ensures
            final(self).side() == old(self).side(),
            final(self).steps() == old(self).steps(),
            final(self).protection() == old(self).protection(),
            match r {
                Ok(m) => {
                    &&& has_sent(*old(self), payload@, m@, *final(self))
                    &&& old(self).state().position == 0 ==> m@.skip(32) == payload@
                },
                Err(e) => {
                    &&& stays(old(self).state(), final(self).state())
                    &&& was_unsent(*old(self), payload@, e)
                    &&& !(old(self).state().position == 2 && old(self).state().my_turn
                        && payload@.len() + 64 <= 65535)
                },
            },
    {
        let mut buf: Vec<u8> = vec![0u8; MAX_MESSAGE_LEN];
        match write_handshake(&mut self.state, payload, &mut buf) {
            Ok(len) => {
                let message = copy_range(buf.as_slice(), 0, len);
                proof {
                    assert(message@ =~= buf@.take(len as int));
                    if old(self).state().position == 0 {
                        assert(message@.skip(32) =~= buf@.subrange(32, len as int));
                    }
                }
                Ok(message)
            },
            Err(why) => {
                assert(handshake_unsent(old(self).state(), payload@, why@));
                Err(crypto_error("write_message 失败: ", why.as_str()))
            },
        }
    }

    /// Reads the next message of the other side, and returns its payload.
    fn read(&mut self, message: &[u8]) -> (r: CoreResult<Vec<u8>>)
        requires
            old(self).state().ours,
        ensures
            final(self).side() == old(self).side(),
            final(self).steps() == old(self).steps(),
            final(self).protection() == old(self).protection(),
            old(self).state().position == 0 ==> (r is Ok) == (!old(self).state().my_turn && 32
                <= message@.len() <= 65535),
            match r {
                Ok(p) => {
                    &&& has_taken(*old(self), message@, *final(self))
                    &&& old(self).state().position == 0 ==> p@ == message@.skip(32)
                },
                Err(e) => {
                    &&& stays(old(self).state(), final(self).state())
                    &&& crypto_refusal(e, "read_message 失败: "@)
                    &&& !was_meant_for(*old(self), message@)
                },
            },
    {
        let mut buf: Vec<u8> = vec![0u8; MAX_MESSAGE_LEN];
        match read_handshake(&mut self.state, message, &mut buf) {
            Ok(len) => {
                let payload = copy_range(buf.as_slice(), 0, len);
                assert(payload@ =~= buf@.take(len as int));
                Ok(payload)
            },
            Err(why) => Err(crypto_error("read_message 失败: ", why.as_str())),
        }
    }

    /// Takes the next step: reads what was received, where something is due, and returns what
    /// is to be sent. A step that fails is not taken. After the last step nothing is sent.
    pub fn step(&mut self, received: Option<&[u8]>, cache: &mut NonceCache) -> (r: CoreResult<
        Vec<u8>,
    >)
        requires
            old(self).wf(),
            old(cache).wf(),
        ensures
            final(self).wf(),
            final(cache).wf(),
            final(self).side() == old(self).side(),
            final(self).protection() == old(self).protection(),
            same_handshake(old(self).state(), final(self).state()),
            match r {
                Ok(m) => {
                    &&& final(self).steps() == (if old(self).steps() >= 2 {
                        old(self).steps() as int
                    } else {
                        old(self).steps() + 1
                    })
                    &&& message_due(old(self).side(), old(self).steps()) ==> received is Some
                    &&& went_on(*old(self), received, m@, *final(self))
                },
                Err(e) => {
                    &&& final(self).steps() == old(self).steps()
                    &&& e is Crypto
                    &&& old(self).steps() < 2
                    &&& !checks_replay(old(self).side(), old(self).steps()) ==> stays(
                        old(self).state(),
                        final(self).state(),
                    )
                },
            },
            old(self).side() == NoiseRole::Initiator && old(self).steps() == 0 ==> (
            r matches Err(e) ==> was_unsent(*old(self), old(self).protection(), e)),
            old(self).steps() == 1 && received is Some ==> (r matches Err(e) ==> crypto_refusal(
                e,
                "read_message 失败: "@,
            )),
            old(self).steps() == 1 && received is Some ==> answered(
                *old(self),
                received->Some_0,
                *final(self),
                r,
            ),
            old(self).steps() >= 2 ==> *final(self) == *old(self),
            message_due(old(self).side(), old(self).steps()) && received is None ==> *final(self)
                == *old(self) && *final(cache) == *old(cache) && (r matches Err(e)
                && is_crypto_error(e, missing_text(old(self).side(), old(self).steps()))),
            checks_replay(old(self).side(), old(self).steps()) && received is Some ==> (
            if old(self).state().position == 0 {
                first_answered(*old(self), *old(cache), *final(cache), received->Some_0@, r)
            } else {
                r is Err && *final(cache) == *old(cache)
            }),
            !checks_replay(old(self).side(), old(self).steps()) ==> *final(cache) == *old(cache),
    {
        if self.step >= 2 {
            return Ok(Vec::new());
        }
        match self.role {
            NoiseRole::Initiator => {
                if self.step == 0 {
                    let payload = copy_range(
                        self.replay_payload.as_slice(),
                        0,
                        self.replay_payload.len(),
                    );
                    assert(payload@ =~= self.protection());
                    match self.write(payload.as_slice()) {
                        Ok(message) => {
                            self.step = 1;
                            Ok(message)
                        },
                        Err(e) => Err(e),
                    }
                } else {
                    match received {
                        None => Err(
                            CoreError::Crypto("initiator step 1 需要收到消息".to_owned()),
                        ),
                        Some(message) => match self.read(message) {
                            Err(e) => Err(e),
                            Ok(_) => {
                                let ghost mid = *self;
                                let empty: Vec<u8> = Vec::new();
                                match self.write(empty.as_slice()) {
                                    Ok(reply) => {
                                        self.step = 2;
                                        assert(took_and_sent(
                                            *old(self),
                                            message@,
                                            mid,
                                            reply@,
                                            *self,
                                        ));
                                        Ok(reply)
                                    },
                                    Err(e) => Err(e),
                                }
                            },
                        },
                    }
                }
            },
            NoiseRole::Responder => {
                if self.step == 0 {
                    self.respond(received, cache)
                } else {
                    match received {
                        None => Err(
                            CoreError::Crypto("responder step 1 需要收到消息".to_owned()),
                        ),
                        Some(message) => match self.read(message) {
                            Err(e) => Err(e),
                            Ok(_) => {
                                self.step = 2;
                                Ok(Vec::new())
                            },
                        },
                    }
                }
            },
        }
    }

    /// The responder's first step.
    fn respond(&mut self, received: Option<&[u8]>, cache: &mut NonceCache) -> (r: CoreResult<
        Vec<u8>,
    >)
        requires
            old(self).wf(),
            old(cache).wf(),
            old(self).side() == NoiseRole::Responder,
            old(self).steps() == 0,
        ensures
            final(self).wf(),
            final(cache).wf(),
            final(self).side() == old(self).side(),
            final(self).protection() == old(self).protection(),
            same_handshake(old(self).state(), final(self).state()),
            r matches Ok(m) ==> final(self).steps() == 1 && received is Some && exists|
                mid: NoiseHandshake,
            | #[trigger]
                took_and_sent(*old(self), received->Some_0@, mid, m@, *final(self)),
            r matches Err(e) ==> final(self).steps() == 0 && e is Crypto,
            received is None ==> *final(self) == *old(self) && *final(cache) == *old(cache) && (
            r matches Err(e) && is_crypto_error(e, "responder step 0 需要收到消息"@)),
            received is Some ==> (if old(self).state().position == 0 {
                first_answered(*old(self), *old(cache), *final(cache), received->Some_0@, r)
            } else {
                r is Err && *final(cache) == *old(cache)
            }),
    {
        let message = match received {
            None => {
                return Err(CoreError::Crypto("responder step 0 需要收到消息".to_owned()));
            },
            Some(message) => message,
        };
        let payload = match self.read(message) {
            Ok(p) => p,
            Err(e) => return Err(e),
        };
        let checked = check_first_payload(payload.as_slice(), cache);
        match checked {
            Ok(()) => {},
            Err(e) => return Err(e),
        }
        let ghost mid = *self;
        let empty: Vec<u8> = Vec::new();
        match self.write(empty.as_slice()) {
            Ok(reply) => {
                self.step = 1;
                assert(took_and_sent(*old(self), message@, mid, reply@, *self));
                Ok(reply)
            },
            Err(e) => Err(e),
        }
    }

    /// Whether both steps were taken.
    pub fn is_finished(&self) -> (r: bool)
        ensures
            r == (self.steps() >= 2),
    {
        self.step >= 2
    }

    /// Turns a finished handshake into a channel, and tells the peer's static key.
    pub fn into_transport(self) -> (r: CoreResult<HandshakeResult>)
        requires
            self.wf(),
        ensures
            match r {
                Ok(h) => {
                    &&& self.steps() >= 2
                    &&& Some(h.remote_static_pubkey@) == self.state().remote
                    &&& h.session.channel() == channel_after(self.state())
                    &&& h.session.sent() == 0
                    &&& h.session.received() == 0
                    &&& h.session.threshold() == 0x10_0000
                },
                Err(e) => self.steps() < 2 && is_crypto_error(e, "握手未完成"@),
            },
    {
        if !self.is_finished() {
            return Err(CoreError::Crypto("握手未完成".to_owned()));
        }
        let key = match remote_static(&self.state) {
            Some(k) => k,
            None => return Err(CoreError::Crypto("无法获取对端静态公钥".to_owned())),
        };
        if key.len() != 32 {
            return Err(CoreError::Crypto("对端静态公钥长度不正确".to_owned()));
        }
        let remote_static_pubkey = array32(key.as_slice(), 0);
        match into_channel(self.state) {
            Ok(transport) => Ok(
                HandshakeResult { remote_static_pubkey, session: Session::new(transport) },
            ),
            Err(why) => Err(crypto_error("转为传输模式失败: ", why.as_str())),
        }
    }
}

/// Whether the step of a side reads a message.
pub open spec fn message_due(side: NoiseRole, steps: u8) -> bool {
    steps < 2 && (side == NoiseRole::Responder || steps == 1)
}

/// Whether the step of a side checks for replay.
pub open spec fn checks_replay(side: NoiseRole, steps: u8) -> bool {
    side == NoiseRole::Responder && steps == 0
}

/// What is said where a message is missing.
pub open spec fn missing_text(side: NoiseRole, steps: u8) -> Seq<char> {
    if side == NoiseRole::Initiator {
        "initiator step 1 需要收到消息"@
    } else if steps == 0 {
        "responder step 0 需要收到消息"@
    } else {
        "responder step 1 需要收到消息"@
    }
}

/// Whether a side wrote a message for a payload.
pub open spec fn has_sent(
    before: NoiseHandshake,
    payload: Seq<u8>,
    message: Seq<u8>,
    after: NoiseHandshake,
) -> bool {
    &&& wrote(before.state(), after.state(), message)
    &&& handshake_sent(before.state(), payload, message)
    &&& message.len() == message_overhead(before.state().position) + payload.len()
}

/// Whether `e` says why a side was refused to write a message for a payload.
pub open spec fn was_unsent(h: NoiseHandshake, payload: Seq<u8>, e: CoreError) -> bool {
    exists|why: Seq<char>| #[trigger]
        handshake_unsent(h.state(), payload, why) && is_crypto_error(
            e,
            "write_message 失败: "@ + why,
        )
}

/// Whether a side read a message. After the first, it has met whoever is the other side of the
/// same handshake.
pub open spec fn has_taken(before: NoiseHandshake, message: Seq<u8>, after: NoiseHandshake) -> bool {
    &&& has_read(before.state(), after.state(), message)
    &&& before.state().position > 0 ==> forall|peer: NoiseHandshake| #[trigger]
        paired(peer.state(), after.state()) ==> meets(after.state(), peer.state())
}

/// Whether a message was written by the other side of the same handshake, and is due.
pub open spec fn was_meant_for(h: NoiseHandshake, message: Seq<u8>) -> bool {
    exists|peer: NoiseHandshake, payload: Seq<u8>| #[trigger]
        handshake_sent(peer.state(), payload, message) && paired(peer.state(), h.state())
            && peer.state().my_turn
}

/// Whether a side read a message, which left it at `mid`, and answered it.
pub open spec fn took_and_sent(
    before: NoiseHandshake,
    message: Seq<u8>,
    mid: NoiseHandshake,
    answer: Seq<u8>,
    after: NoiseHandshake,
) -> bool {
    has_taken(before, message, mid) && has_sent(mid, Seq::<u8>::empty(), answer, after)
}

/// Whether a step brought a side on and gave it `sent` to send. The initiator begins with what
/// protects it against replay; afterwards each side answers what it reads, until the responder
/// has nothing left to say.
pub open spec fn went_on(
    before: NoiseHandshake,
    received: Option<&[u8]>,
    sent: Seq<u8>,
    after: NoiseHandshake,
) -> bool {
    if before.steps() >= 2 {
        sent == Seq::<u8>::empty()
    } else if before.side() == NoiseRole::Initiator && before.steps() == 0 {
        &&& has_sent(before, before.protection(), sent, after)
        &&& sent.len() == 56
        &&& sent.skip(32) == before.protection()
    } else if before.side() == NoiseRole::Responder && before.steps() == 1 {
        sent == Seq::<u8>::empty() && has_taken(before, received->Some_0@, after)
    } else {
        exists|mid: NoiseHandshake| #[trigger]
            took_and_sent(before, received->Some_0@, mid, sent, after)
    }
}

/// Whether `r` is what the responder answers to a first message, and what is remembered changed
/// accordingly. The protection against replay is what comes after the ephemeral key.
pub open spec fn first_answered(
    h: NoiseHandshake,
    before: NonceCache,
    after: NonceCache,
    message: Seq<u8>,
    r: CoreResult<Vec<u8>>,
) -> bool {
    if !(32 <= message.len() <= 65535) {
        after == before && (r matches Err(e) && crypto_refusal(e, "read_message 失败: "@))
    } else if message.len() == 32 {
        after == before && (r matches Err(e) && is_crypto_error(
            e,
            "握手 payload 为空，拒绝无重放保护的握手"@,
        ))
    } else {
        exists|answer: CoreResult<()>|
            #[trigger] judged_now(before, after, message.skip(32), answer) && match answer {
                Ok(_) => r matches Err(e) ==> exists|mid: NoiseHandshake|
                    has_taken(h, message, mid) && #[trigger] was_unsent(
                        mid,
                        Seq::<u8>::empty(),
                        e,
                    ),
                Err(why) => r == Err::<Vec<u8>, CoreError>(why),
            }
    }
}

/// A handshake between two sides that start alike, and whose messages all arrive, comes to its
/// end: once the responder has answered the first message, the initiator takes the answer and
/// sends its own, and the responder takes that. Then each side holds the other's static key, and
/// their channels are in step, both ways.
pub proof fn law_honest_handshake_completes(
    i0: NoiseHandshake,
    i1: NoiseHandshake,
    i2: NoiseHandshake,
    r0: NoiseHandshake,
    r1: NoiseHandshake,
    r2: NoiseHandshake,
    received: Seq<&[u8]>,
)
    requires
        received.len() == 3,
        i0.wf() && r0.wf(),
        i0.side() == NoiseRole::Initiator && r0.side() == NoiseRole::Responder,
        i0.steps() == 0 && r0.steps() == 0,
        paired(i0.state(), r0.state()),
        i0.state().local.len() == 32 && r0.state().local.len() == 32,
        i1.side() == NoiseRole::Initiator && r1.side() == NoiseRole::Responder,
        i1.steps() == 1 && r1.steps() == 1,
        went_on(i0, None, received[0]@, i1),
        went_on(r0, Some(received[0]), received[1]@, r1),
    ensures
        was_meant_for(i1, received[1]@),
        went_on(i1, Some(received[1]), received[2]@, i2) ==> was_meant_for(r1, received[2]@),
        went_on(i1, Some(received[1]), received[2]@, i2) && went_on(
            r1,
            Some(received[2]),
            Seq::empty(),
            r2,
        ) ==> {
            &&& i2.state().remote == Some(x25519_public(r0.state().local))
            &&& r2.state().remote == Some(x25519_public(i0.state().local))
            &&& in_step(channel_after(i2.state()), channel_after(r2.state()))
            &&& in_step(channel_after(r2.state()), channel_after(i2.state()))
        },
{
    let mid = choose|mid: NoiseHandshake| #[trigger]
        took_and_sent(r0, received[0]@, mid, received[1]@, r1);
    assert(took_and_sent(r0, received[0]@, mid, received[1]@, r1));
    assert(paired(mid.state(), i1.state()));
    assert(handshake_sent(mid.state(), Seq::<u8>::empty(), received[1]@));
    if went_on(i1, Some(received[1]), received[2]@, i2) {
        let turn = choose|turn: NoiseHandshake| #[trigger]
            took_and_sent(i1, received[1]@, turn, received[2]@, i2);
        assert(took_and_sent(i1, received[1]@, turn, received[2]@, i2));
        assert(paired(r1.state(), turn.state()));
        assert(paired(turn.state(), r1.state()));
        assert(handshake_sent(turn.state(), Seq::<u8>::empty(), received[2]@));
        if went_on(r1, Some(received[2]), Seq::empty(), r2) {
            assert(paired(i2.state(), r2.state()));
        }
    }
}

/// Whether a side that waits for its second message took it and was finished, or, where the
/// message was not meant for it, refused it and stayed where it was.
pub open spec fn answered(
    before: NoiseHandshake,
    received: &[u8],
    after: NoiseHandshake,
    r: CoreResult<Vec<u8>>,
) -> bool {
    match r {
        Ok(m) => after.steps() == 2 && went_on(before, Some(received), m@, after),
        Err(_) => after.steps() == 1 && !was_meant_for(before, received@),
    }
}

/// Whether a message is no forgery: it is taken only where the other side of the same handshake
/// wrote it.
pub open spec fn unforged(h: NoiseHandshake, message: Seq<u8>) -> bool {
    forall|after: NoiseHandshake| #[trigger]
        has_taken(h, message, after) ==> was_meant_for(h, message)
}

/// Whether a message is no collision: it was not written in handshakes with different prologues.
pub open spec fn written_for_one_prologue(message: Seq<u8>) -> bool {
    forall|a: NoiseHandshake, p: Seq<u8>, b: NoiseHandshake, q: Seq<u8>| #[trigger]
        handshake_sent(a.state(), p, message) && #[trigger] handshake_sent(b.state(), q, message)
            ==> a.state().prologue == b.state().prologue
}

/// Two sides that answer each other come to the end of their handshake where they began with the
/// same prologue, such as the same group; where they did not, the initiator refuses the
/// responder's answer and is not finished. That holds as far as the answer is neither a forgery
/// nor a collision.
pub proof fn law_prologues_decide(
    i0: NoiseHandshake,
    i1: NoiseHandshake,
    i2: NoiseHandshake,
    r0: NoiseHandshake,
    r1: NoiseHandshake,
    r2: NoiseHandshake,
    received: Seq<&[u8]>,
    answer: CoreResult<Vec<u8>>,
    last: CoreResult<Vec<u8>>,
)
    requires
        received.len() == 3,
        i0.wf() && r0.wf(),
        i0.side() == NoiseRole::Initiator && r0.side() == NoiseRole::Responder,
        i0.steps() == 0 && r0.steps() == 0,
        is_opening(i0.state(), true, i0.state().local, i0.state().prologue),
        is_opening(r0.state(), false, r0.state().local, r0.state().prologue),
        i0.state().local.len() == 32 && r0.state().local.len() == 32,
        i1.side() == NoiseRole::Initiator && r1.side() == NoiseRole::Responder,
        i1.steps() == 1 && r1.steps() == 1,
        went_on(i0, None, received[0]@, i1),
        went_on(r0, Some(received[0]), received[1]@, r1),
        unforged(i1, received[1]@),
        written_for_one_prologue(received[1]@),
        answered(i1, received[1], i2, answer),
        answer matches Ok(m) ==> m@ == received[2]@,
        answered(r1, received[2], r2, last),
    ensures
        (answer is Ok) == (i0.state().prologue == r0.state().prologue),
        answer is Ok ==> i2.steps() == 2 && received[2]@.len() == 64,
        answer is Err ==> i2.steps() < 2,
        answer is Ok ==> r2.steps() == 2 && (last matches Ok(m) && m@.len() == 0),
{
    if i0.state().prologue == r0.state().prologue {
        law_honest_handshake_completes(i0, i1, i2, r0, r1, r2, received);
        let turn = choose|turn: NoiseHandshake| #[trigger]
            took_and_sent(i1, received[1]@, turn, received[2]@, i2);
        assert(took_and_sent(i1, received[1]@, turn, received[2]@, i2));
    } else {
        let mid = choose|mid: NoiseHandshake| #[trigger]
            took_and_sent(r0, received[0]@, mid, received[1]@, r1);
        assert(took_and_sent(r0, received[0]@, mid, received[1]@, r1));
        assert(handshake_sent(mid.state(), Seq::<u8>::empty(), received[1]@));
        if answer is Ok {
            let turn = choose|turn: NoiseHandshake| #[trigger]
                took_and_sent(i1, received[1]@, turn, answer->Ok_0@, i2);
            assert(took_and_sent(i1, received[1]@, turn, answer->Ok_0@, i2));
            assert(has_taken(i1, received[1]@, turn));
            let (peer, payload) = choose|peer: NoiseHandshake, payload: Seq<u8>| #[trigger]
                handshake_sent(peer.state(), payload, received[1]@) && paired(
                    peer.state(),
                    i1.state(),
                ) && peer.state().my_turn;
            assert(peer.state().prologue == mid.state().prologue);
            assert(false);
        }
    }
}

/// Two sides of a handshake that came to the same secret have channels that are in step, both
/// ways.
pub proof fn law_handshake_joins_channels(a: HandshakeView, b: HandshakeView)
    requires
        a.secret == b.secret,
        a.initiator != b.initiator,
    ensures
        in_step(channel_after(a), channel_after(b)),
        in_step(channel_after(b), channel_after(a)),
{
}

/// Two sides that begin with the same prologue, and whose messages all arrive, are finished after two steps
/// each once the responder answers the first message. Each then knows the other's static key, and what one
/// encrypts the other holds the key and number for, both ways.
pub proof fn law_handshake_comes_to_a_channel(
    initiator_key: &[u8],
    responder_key: &[u8],
    prologue: &[u8],
    made: CoreResult<NoiseHandshake>,
    made_there: CoreResult<NoiseHandshake>,
    i1: &mut NoiseHandshake,
    r1: &mut NoiseHandshake,
    i2: &mut NoiseHandshake,
    r2: &mut NoiseHandshake,
    ci1: &mut NonceCache,
    cr1: &mut NonceCache,
    ci2: &mut NonceCache,
    cr2: &mut NonceCache,
    m1: CoreResult<Vec<u8>>,
    m2: CoreResult<Vec<u8>>,
    m3: CoreResult<Vec<u8>>,
    m4: CoreResult<Vec<u8>>,
    d1: &[u8],
    d2: &[u8],
    d3: &[u8],
    done: bool,
    done_there: bool,
    here: CoreResult<HandshakeResult>,
    there: CoreResult<HandshakeResult>,
)
    requires
        initiator_key@.len() == 32,
        responder_key@.len() == 32,
        call_ensures(NoiseHandshake::initiator, (initiator_key, prologue), made),
        call_ensures(NoiseHandshake::responder, (responder_key, prologue), made_there),
        made == Ok::<NoiseHandshake, CoreError>(*old(i1)),
        made_there == Ok::<NoiseHandshake, CoreError>(*old(r1)),
        call_ensures(NoiseHandshake::step, (i1, None, ci1), m1),
        m1 matches Ok(m) && m@ == d1@,
        call_ensures(NoiseHandshake::step, (r1, Some(d1), cr1), m2),
        m2 matches Ok(m) && m@ == d2@,
        *old(i2) == *final(i1),
        call_ensures(NoiseHandshake::step, (i2, Some(d2), ci2), m3),
        m3 matches Ok(m) ==> m@ == d3@,
        *old(r2) == *final(r1),
        call_ensures(NoiseHandshake::step, (r2, Some(d3), cr2), m4),
        call_ensures(NoiseHandshake::is_finished, (&*final(i2),), done),
        call_ensures(NoiseHandshake::is_finished, (&*final(r2),), done_there),
        call_ensures(NoiseHandshake::into_transport, (*final(i2),), here),
        call_ensures(NoiseHandshake::into_transport, (*final(r2),), there),
    ensures
        m3 is Ok,
        m4 matches Ok(m) && m@.len() == 0,
        done && done_there,
        here is Ok && there is Ok,
        here->Ok_0.remote_static_pubkey@ == x25519_public(responder_key@),
        there->Ok_0.remote_static_pubkey@ == x25519_public(initiator_key@),
        ({
            let a = here->Ok_0.session.channel();
            let b = there->Ok_0.session.channel();
            &&& a.may_send && b.may_receive && a.out_key == b.in_key && a.out_nonce == b.in_nonce
            &&& b.may_send && a.may_receive && b.out_key == a.in_key && b.out_nonce == a.in_nonce
        }),
        here->Ok_0.session.sent() == 0 && here->Ok_0.session.received() == 0,
        here->Ok_0.session.threshold() == 1_048_576 && there->Ok_0.session.threshold() == 1_048_576,
{
    let i0 = *old(i1);
    let r0 = *old(r1);
    assert(paired(i0.state(), r0.state()));
    let received = seq![d1, d2, d3];
    law_honest_handshake_completes(
        i0,
        *final(i1),
        *final(i2),
        r0,
        *final(r1),
        *final(r2),
        received,
    );
    assert(received[0]@ == d1@ && received[1]@ == d2@ && received[2]@ == d3@);
    assert(was_meant_for(*final(i1), d2@));
    assert(m3 is Ok);
    assert(went_on(*final(i1), Some(received[1]), received[2]@, *final(i2)));
    assert(was_meant_for(*final(r1), d3@));
    assert(m4 is Ok);
    assert(m4->Ok_0@ =~= Seq::<u8>::empty());
    assert(went_on(*final(r1), Some(received[2]), Seq::empty(), *final(r2)));
}

/// A first message that a responder accepted is refused by every responder that remembers it, whichever
/// handshake it is given to.
pub proof fn law_replayed_handshake_is_refused(
    first: &mut NoiseHandshake,
    second: &mut NoiseHandshake,
    key: &[u8],
    prologue: &[u8],
    other_key: &[u8],
    other_prologue: &[u8],
    made: CoreResult<NoiseHandshake>,
    made_again: CoreResult<NoiseHandshake>,
    cache: &mut NonceCache,
    cache_later: &mut NonceCache,
    message: &[u8],
    once: CoreResult<Vec<u8>>,
    twice: CoreResult<Vec<u8>>,
)
    requires
        old(cache).wf(),
        key@.len() <= 32 && other_key@.len() <= 32,
        call_ensures(NoiseHandshake::responder, (key, prologue), made),
        call_ensures(NoiseHandshake::responder, (other_key, other_prologue), made_again),
        made == Ok::<NoiseHandshake, CoreError>(*old(first)),
        made_again == Ok::<NoiseHandshake, CoreError>(*old(second)),
        call_ensures(NoiseHandshake::step, (first, Some(message), cache), once),
        once is Ok,
        *old(cache_later) == *final(cache),
        call_ensures(NoiseHandshake::step, (second, Some(message), cache_later), twice),
    ensures
        twice matches Err(e) && e is Crypto,
{
    assert(first_answered(*old(first), *old(cache), *final(cache), message@, once));
    assert(first_answered(*old(second), *old(cache_later), *final(cache_later), message@, twice));
    let p = message@.skip(32);
    let a = choose|answer: CoreResult<()>|
        #[trigger] judged_now(*old(cache), *final(cache), p, answer) && match answer {
            Ok(_) => true,
            Err(why) => once == Err::<Vec<u8>, CoreError>(why),
        };
    assert(judged_now(*old(cache), *final(cache), p, a));
    lemma_accepted_is_held(*old(cache), *final(cache), p, a);
    if twice is Ok {
        let b = choose|answer: CoreResult<()>|
            #[trigger] judged_now(*old(cache_later), *final(cache_later), p, answer)
                && match answer {
                Ok(_) => true,
                Err(why) => twice == Err::<Vec<u8>, CoreError>(why),
            };
        assert(judged_now(*old(cache_later), *final(cache_later), p, b));
        lemma_held_is_refused(*old(cache_later), *final(cache_later), p, b);
    }
}

proof fn lemma_accepted_is_held(
    before: NonceCache,
    after: NonceCache,
    payload: Seq<u8>,
    answer: CoreResult<()>,
)
    requires
        judged_now(before, after, payload, answer),
        answer is Ok,
    ensures
        payload.len() >= 24,
        after@.contains(crate::replay::nonce_of(payload)),
{
    let now = choose|now: u64| #[trigger]
        crate::clock::clock_told_secs(now) && crate::replay::judged_at(
            before,
            after,
            payload,
            now,
            answer,
        );
    lemma_judged_at(before, after, payload, now, answer);
}

proof fn lemma_held_is_refused(
    before: NonceCache,
    after: NonceCache,
    payload: Seq<u8>,
    answer: CoreResult<()>,
)
    requires
        judged_now(before, after, payload, answer),
        payload.len() >= 24,
        before@.contains(crate::replay::nonce_of(payload)),
    ensures
        answer is Err,
{
    let now = choose|now: u64| #[trigger]
        crate::clock::clock_told_secs(now) && crate::replay::judged_at(
            before,
            after,
            payload,
            now,
            answer,
        );
    lemma_judged_at(before, after, payload, now, answer);
}

proof fn lemma_judged_at(
    before: NonceCache,
    after: NonceCache,
    payload: Seq<u8>,
    now: u64,
    answer: CoreResult<()>,
)
    requires
        crate::replay::judged_at(before, after, payload, now, answer),
    ensures
        answer is Ok ==> payload.len() >= 24 && after@.contains(crate::replay::nonce_of(payload)),
        payload.len() >= 24 && before@.contains(crate::replay::nonce_of(payload)) ==> answer is Err,
{
    if payload.len() >= 24 {
        assert forall|due: bool| before@.contains(crate::replay::nonce_of(payload)) implies
            #[trigger] crate::replay::replay_error(before@, payload, now, due) is Some by {
            crate::replay::law_replay_is_refused(before@, payload, now, due);
        }
    }
}

/// A side that waits for a message and gets none does not go on, and neither does one that is not finished
/// become a channel. A first message without protection is refused.
pub proof fn law_handshake_needs_its_messages(
    h: &mut NoiseHandshake,
    cache: &mut NonceCache,
    r: CoreResult<Vec<u8>>,
    done: bool,
    channel: CoreResult<HandshakeResult>,
    empty: &[u8],
    cache_of_empty: &mut NonceCache,
    unprotected: CoreResult<()>,
)
    requires
        call_ensures(NoiseHandshake::step, (h, None, cache), r),
        call_ensures(NoiseHandshake::is_finished, (&*old(h),), done),
        call_ensures(NoiseHandshake::into_transport, (*old(h),), channel),
        empty@.len() == 0,
        call_ensures(check_first_payload, (empty, cache_of_empty), unprotected),
    ensures
        old(h).side() is Responder && !done ==> r is Err && *final(h) == *old(h),
        old(h).side() is Initiator && old(h).steps() == 1 ==> r is Err && *final(h) == *old(h),
        done ==> (r matches Ok(m) && m@.len() == 0),
        channel is Ok <==> done,
        done <==> old(h).steps() >= 2,
        unprotected is Err && *final(cache_of_empty) == *old(cache_of_empty),
{
}

} // verus!
