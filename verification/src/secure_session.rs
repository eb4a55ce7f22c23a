//! The channel after a handshake.
//!
//! Keys are renewed only when both sides agree to it: the session counts messages and says when
//! it is time, but never renews a key by itself. A lost message thus never puts the two sides
//! out of step.

use vstd::prelude::*;

use crate::error::{crypto_error, crypto_refusal, CoreResult};

verus! {

/// After how many messages keys should be renewed, where nothing else is said.
pub const DEFAULT_REKEY_THRESHOLD: u64 = 0x10_0000;

#[verifier::external_type_specification]
#[verifier::external_body]
pub struct ExTransportState(snow::TransportState);

/// The state of a channel.
#[verifier::ext_equal]
pub struct ChannelView {
    /// The cipher and key for what is sent.
    pub out_key: Seq<u8>,
    /// The number that the next message sent bears.
    pub out_nonce: u64,
    /// The cipher and key for what is received.
    pub in_key: Seq<u8>,
    /// The number that the next message received bears.
    pub in_nonce: u64,
    /// Whether the pattern of the handshake lets this side send.
    pub may_send: bool,
    /// Whether the pattern of the handshake lets this side receive.
    pub may_receive: bool,
}

/// The state of a channel.
pub uninterp spec fn channel_of(t: snow::TransportState) -> ChannelView;

/// A message encrypted under a cipher and key and a number.
pub uninterp spec fn sealed(key: Seq<u8>, nonce: u64, plain: Seq<u8>) -> Seq<u8>;

/// What decrypting under a cipher and key and a number yields; nothing where the tag is wrong.
pub uninterp spec fn opened(key: Seq<u8>, nonce: u64, cipher: Seq<u8>) -> Option<Seq<u8>>;

/// The cipher and key that follow upon one.
pub uninterp spec fn renewed_key(key: Seq<u8>) -> Seq<u8>;

/// Whether a channel encrypts a message of `len` bytes. The last number is never used.
pub open spec fn can_encrypt(c: ChannelView, len: nat) -> bool {
    c.may_send && len + 16 <= 65535 && c.out_nonce != u64::MAX
}

/// Whether a channel decrypts a message.
pub open spec fn can_decrypt(c: ChannelView, cipher: Seq<u8>) -> bool {
    &&& c.may_receive
    &&& 16 <= cipher.len() <= 65535
    &&& c.in_nonce != u64::MAX
    &&& opened(c.in_key, c.in_nonce, cipher) is Some
}

/// The channel after a message was encrypted.
pub open spec fn after_encrypt(c: ChannelView) -> ChannelView {
    ChannelView { out_nonce: (c.out_nonce + 1) as u64, ..c }
}

/// The channel after a message was decrypted.
pub open spec fn after_decrypt(c: ChannelView) -> ChannelView {
    ChannelView { in_nonce: (c.in_nonce + 1) as u64, ..c }
}

/// The channel with the key for what is sent renewed.
pub open spec fn out_renewed(c: ChannelView) -> ChannelView {
    ChannelView { out_key: renewed_key(c.out_key), ..c }
}

/// The channel with the key for what is received renewed.
pub open spec fn in_renewed(c: ChannelView) -> ChannelView {
    ChannelView { in_key: renewed_key(c.in_key), ..c }
}

/// Whether `cipher` is what a channel makes of `plain`, and decrypts to it.
pub open spec fn encrypts_to(c: ChannelView, plain: Seq<u8>, cipher: Seq<u8>) -> bool {
    &&& cipher == sealed(c.out_key, c.out_nonce, plain)
    &&& cipher.len() == plain.len() + 16
    &&& opened(c.out_key, c.out_nonce, cipher) == Some(plain)
}

/// Encrypts `plaintext` into `buf`, and tells the length.
///
/// Calls `snow::TransportState::write_message`: a tag of sixteen bytes is added, and the whole is
/// refused where it is longer than 65535 bytes or than the buffer, or where the numbers are used
/// up. What the bytes are is named by `sealed`; they decrypt to the message. A refused message
/// changes nothing. What the text of an error says is left unsaid.
#[verifier::external_body]
fn write_channel(
    transport: &mut snow::TransportState,
    plaintext: &[u8],
    buf: &mut Vec<u8>,
) -> (r: Result<usize, String>)
    requires
        plaintext@.len() <= usize::MAX - 16,
    ensures
        final(buf)@.len() == old(buf)@.len(),
        (r is Ok) == (can_encrypt(channel_of(*old(transport)), plaintext@.len()) && plaintext@.len() + 16 <= old(buf)@.len()),
        r is Ok ==> r->Ok_0 == plaintext@.len() + 16,
        r is Ok ==> final(buf)@.take(r->Ok_0 as int) == sealed(channel_of(*old(transport)).out_key, channel_of(*old(transport)).out_nonce, plaintext@),
        r is Ok ==> opened(channel_of(*old(transport)).out_key, channel_of(*old(transport)).out_nonce, final(buf)@.take(r->Ok_0 as int)) == Some(plaintext@),
        r is Ok ==> channel_of(*final(transport)) == after_encrypt(channel_of(*old(transport))),
        r is Err ==> channel_of(*final(transport)) == channel_of(*old(transport)),
{
    transport.write_message(plaintext, buf.as_mut_slice()).map_err(|e| e.to_string())
}

/// Decrypts `ciphertext` into `buf`, and tells the length.
///
/// Calls `snow::TransportState::read_message`: the tag of sixteen bytes is checked and taken off,
/// and messages longer than 65535 bytes are refused. What comes out is named by `opened`. A
/// refused message changes nothing. What the text of an error says is left unsaid.
#[verifier::external_body]
fn read_channel(
    transport: &mut snow::TransportState,
    ciphertext: &[u8],
    buf: &mut Vec<u8>,
) -> (r: Result<usize, String>)
    requires
        ciphertext@.len() <= old(buf)@.len(),
    ensures
        final(buf)@.len() == old(buf)@.len(),
        (r is Ok) == can_decrypt(channel_of(*old(transport)), ciphertext@),
        r is Ok ==> r->Ok_0 + 16 == ciphertext@.len(),
        r is Ok ==> Some(final(buf)@.take(r->Ok_0 as int)) == opened(channel_of(*old(transport)).in_key, channel_of(*old(transport)).in_nonce, ciphertext@),
        r is Ok ==> channel_of(*final(transport)) == after_decrypt(channel_of(*old(transport))),
        r is Err ==> channel_of(*final(transport)) == channel_of(*old(transport)),
{
    transport.read_message(ciphertext, buf.as_mut_slice()).map_err(|e| e.to_string())
}

/// Renews the key for what is sent. Calls `snow::TransportState::rekey_outgoing`; the key that
/// follows upon one is named by `renewed_key`, and the numbers go on.
#[verifier::external_body]
fn renew_outgoing(transport: &mut snow::TransportState)
    ensures
        channel_of(*final(transport)).out_key == renewed_key(channel_of(*old(transport)).out_key),
        channel_of(*final(transport)) == out_renewed(channel_of(*old(transport))),
{
    transport.rekey_outgoing()
}

/// Renews the key for what is received. Calls `snow::TransportState::rekey_incoming`; the key
/// that follows upon one is named by `renewed_key`, and the numbers go on.
#[verifier::external_body]
fn renew_incoming(transport: &mut snow::TransportState)
    ensures
        channel_of(*final(transport)).in_key == renewed_key(channel_of(*old(transport)).in_key),
        channel_of(*final(transport)) == in_renewed(channel_of(*old(transport))),
{
    transport.rekey_incoming()
}

/// A channel to a peer.
pub struct Session {
    transport: snow::TransportState,
    encrypt_count: u64,
    decrypt_count: u64,
    rekey_threshold: u64,
}

impl Session {
    /// How many messages were encrypted since the key was renewed.
    pub closed spec fn sent(&self) -> u64 {
        self.encrypt_count
    }

    /// How many messages were decrypted since the key was renewed.
    pub closed spec fn received(&self) -> u64 {
        self.decrypt_count
    }

    /// The state of the channel.
    pub closed spec fn channel(&self) -> ChannelView {
        channel_of(self.transport)
    }

    /// After how many messages keys should be renewed.
    pub closed spec fn threshold(&self) -> u64 {
        self.rekey_threshold
    }

    pub(crate) fn new(transport: snow::TransportState) -> (r: Self)
        ensures
            r.sent() == 0,
            r.received() == 0,
            r.threshold() == 0x10_0000,
            r.channel() == channel_of(transport),
    {
        Session {
            transport,
            encrypt_count: 0,
            decrypt_count: 0,
            rekey_threshold: DEFAULT_REKEY_THRESHOLD,
        }
    }

    /// Sets after how many messages keys should be renewed.
    pub fn set_rekey_threshold(&mut self, threshold: u64)
        ensures
            final(self).threshold() == threshold,
            final(self).sent() == old(self).sent(),
            final(self).received() == old(self).received(),
            final(self).channel() == old(self).channel(),
    {
        self.rekey_threshold = threshold;
    }

    /// Whether it is time to renew the key for what is sent.
    pub fn outgoing_rekey_pending(&self) -> (r: bool)
        ensures
            r == (self.sent() >= self.threshold()),
    {
        self.encrypt_count >= self.rekey_threshold
    }

    /// Whether it is time to renew the key for what is received.
    pub fn incoming_rekey_pending(&self) -> (r: bool)
        ensures
            r == (self.received() >= self.threshold()),
    {
        self.decrypt_count >= self.rekey_threshold
    }

    /// Renews the key for what is sent. The peer has to renew its key for what it receives.
    pub fn rekey_outgoing(&mut self)
        ensures
            final(self).sent() == 0,
            final(self).received() == old(self).received(),
            final(self).threshold() == old(self).threshold(),
            final(self).channel() == out_renewed(old(self).channel()),
    {
        renew_outgoing(&mut self.transport);
        self.encrypt_count = 0;
    }

    /// Renews the key for what is received. The peer has to renew its key for what it sends.
    pub fn rekey_incoming(&mut self)
        ensures
            final(self).received() == 0,
            final(self).sent() == old(self).sent(),
            final(self).threshold() == old(self).threshold(),
            final(self).channel() == in_renewed(old(self).channel()),
    {
        renew_incoming(&mut self.transport);
        self.decrypt_count = 0;
    }

    /// Renews both keys. The peer has to do the same.
    pub fn rekey(&mut self) -> (r: CoreResult<()>)
        ensures
            r is Ok,
            final(self).sent() == 0,
            final(self).received() == 0,
            final(self).threshold() == old(self).threshold(),
            final(self).channel() == in_renewed(out_renewed(old(self).channel())),
    {
        renew_outgoing(&mut self.transport);
        renew_incoming(&mut self.transport);
        self.encrypt_count = 0;
        self.decrypt_count = 0;
        Ok(())
    }

    /// Encrypts a message. Only a message that was encrypted counts.
    pub fn encrypt(&mut self, plaintext: &[u8]) -> (r: CoreResult<Vec<u8>>)
        requires
            plaintext@.len() <= usize::MAX - 16,
            old(self).sent() < u64::MAX,
        ensures
            final(self).received() == old(self).received(),
            final(self).threshold() == old(self).threshold(),
            match r {
                Ok(c) => {
                    &&& can_encrypt(old(self).channel(), plaintext@.len())
                    &&& encrypts_to(old(self).channel(), plaintext@, c@)
                    &&& final(self).channel() == after_encrypt(old(self).channel())
                    &&& final(self).sent() == old(self).sent() + 1
                },
                Err(e) => {
                    &&& !can_encrypt(old(self).channel(), plaintext@.len())
                    &&& final(self).channel() == old(self).channel()
                    &&& final(self).sent() == old(self).sent()
                    &&& crypto_refusal(e, "加密失败: "@)
                },
            },
    {
        let mut buf: Vec<u8> = vec![0u8; plaintext.len() + 16];
        match write_channel(&mut self.transport, plaintext, &mut buf) {
            Ok(len) => {
                buf.truncate(len);
                assert(buf@ =~= sealed(
                    old(self).channel().out_key,
                    old(self).channel().out_nonce,
                    plaintext@,
                ));
                self.encrypt_count = self.encrypt_count + 1;
                Ok(buf)
            },
            Err(why) => Err(crypto_error("加密失败: ", why.as_str())),
        }
    }

    /// Decrypts a message. Only a message that was decrypted counts.
    pub fn decrypt(&mut self, ciphertext: &[u8]) -> (r: CoreResult<Vec<u8>>)
        requires
            old(self).received() < u64::MAX,
        ensures
            final(self).sent() == old(self).sent(),
            final(self).threshold() == old(self).threshold(),
            match r {
                Ok(p) => {
                    &&& can_decrypt(old(self).channel(), ciphertext@)
                    &&& Some(p@) == opened(
                        old(self).channel().in_key,
                        old(self).channel().in_nonce,
                        ciphertext@,
                    )
                    &&& final(self).channel() == after_decrypt(old(self).channel())
                    &&& final(self).received() == old(self).received() + 1
                },
                Err(e) => {
                    &&& !can_decrypt(old(self).channel(), ciphertext@)
                    &&& final(self).channel() == old(self).channel()
                    &&& final(self).received() == old(self).received()
                    &&& crypto_refusal(e, "解密失败: "@)
                },
            },
    {
        let mut buf: Vec<u8> = vec![0u8; ciphertext.len()];
        match read_channel(&mut self.transport, ciphertext, &mut buf) {
            Ok(len) => {
                buf.truncate(len);
                self.decrypt_count = self.decrypt_count + 1;
                Ok(buf)
            },
            Err(why) => Err(crypto_error("解密失败: ", why.as_str())),
        }
    }

    /// How many messages were encrypted since the key was renewed.
    pub fn encrypt_count(&self) -> (r: u64)
        ensures
            r == self.sent(),
    {
        self.encrypt_count
    }

    /// How many messages were decrypted since the key was renewed.
    pub fn decrypt_count(&self) -> (r: u64)
        ensures
            r == self.received(),
    {
        self.decrypt_count
    }
}

/// Whether what `a` sends next is what `b` receives next.
pub open spec fn in_step(a: ChannelView, b: ChannelView) -> bool {
    &&& a.may_send
    &&& b.may_receive
    &&& a.out_key == b.in_key
    &&& a.out_nonce == b.in_nonce
}

/// What one side encrypts, the other decrypts, and afterwards they are in step again.
pub proof fn law_message_arrives(a: ChannelView, b: ChannelView, plain: Seq<u8>, cipher: Seq<u8>)
    requires
        in_step(a, b),
        can_encrypt(a, plain.len()),
        encrypts_to(a, plain, cipher),
    ensures
        can_decrypt(b, cipher),
        opened(b.in_key, b.in_nonce, cipher) == Some(plain),
        in_step(after_encrypt(a), after_decrypt(b)),
{
}

/// Where one side renews the key for what it sends and the other the key for what it receives,
/// they stay in step.
pub proof fn law_renewal_keeps_step(a: ChannelView, b: ChannelView)
    requires
        in_step(a, b),
    ensures
        in_step(out_renewed(a), in_renewed(b)),
{
}

/// What one side encrypts, the other side decrypts to what it was, where it holds the same key and number
/// for what it receives; afterwards the two hold the same key and number again.
pub proof fn law_encrypted_message_arrives(
    a: &mut Session,
    b: &mut Session,
    plain: &[u8],
    cipher: CoreResult<Vec<u8>>,
    given: &[u8],
    r: CoreResult<Vec<u8>>,
)
    requires
        old(b).received() < u64::MAX,
        old(a).sent() < u64::MAX,
        old(a).channel().out_key == old(b).channel().in_key,
        old(a).channel().out_nonce == old(b).channel().in_nonce,
        old(b).channel().may_receive,
        call_ensures(Session::encrypt, (a, plain), cipher),
        cipher matches Ok(c) && c@ == given@,
        call_ensures(Session::decrypt, (b, given), r),
    ensures
        r matches Ok(p) && p@ == plain@,
        given@.len() == plain@.len() + 16,
        final(a).channel().out_key == final(b).channel().in_key,
        final(a).channel().out_nonce == final(b).channel().in_nonce,
        final(a).channel().out_nonce == old(a).channel().out_nonce + 1,
        final(a).channel().in_key == old(a).channel().in_key,
        final(a).channel().in_nonce == old(a).channel().in_nonce,
        final(b).channel().out_key == old(b).channel().out_key,
        final(b).channel().out_nonce == old(b).channel().out_nonce,
        final(a).sent() == old(a).sent() + 1,
        final(b).received() == old(b).received() + 1,
{
    law_message_arrives(old(a).channel(), old(b).channel(), plain@, given@);
}

/// A message is encrypted just where this side may send, the message with its tag is no longer than 65535
/// bytes, and there is a number left for it; where it is refused, nothing changes and nothing is counted.
pub proof fn law_encryption_is_owed(
    session: &mut Session,
    plain: &[u8],
    r: CoreResult<Vec<u8>>,
    before: u64,
    after: u64,
)
    requires
        old(session).sent() < u64::MAX,
        plain@.len() <= usize::MAX - 16,
        call_ensures(Session::encrypt, (session, plain), r),
        call_ensures(Session::encrypt_count, (&*old(session),), before),
        call_ensures(Session::encrypt_count, (&*final(session),), after),
    ensures
        r is Ok <==> old(session).channel().may_send && plain@.len() <= 65519 && old(
            session,
        ).channel().out_nonce < u64::MAX,
        r is Ok ==> after == before + 1,
        r is Err ==> after == before && final(session).channel() == old(session).channel(),
        r matches Err(e) ==> e is Crypto,
{
}

/// A message that was not encrypted for this side under the key and number that are due is refused, and
/// refusing it changes nothing.
pub proof fn law_foreign_message_is_refused(
    session: &mut Session,
    cipher: &[u8],
    r: CoreResult<Vec<u8>>,
    before: u64,
    after: u64,
)
    requires
        old(session).received() < u64::MAX,
        call_ensures(Session::decrypt, (session, cipher), r),
        call_ensures(Session::decrypt_count, (&*old(session),), before),
        call_ensures(Session::decrypt_count, (&*final(session),), after),
    ensures
        opened(old(session).channel().in_key, old(session).channel().in_nonce, cipher@) is None
            ==> r is Err,
        r is Ok ==> Some(r->Ok_0@) == opened(
            old(session).channel().in_key,
            old(session).channel().in_nonce,
            cipher@,
        ) && after == before + 1,
        r is Err ==> after == before && final(session).channel() == old(session).channel(),
        r matches Err(e) ==> e is Crypto,
{
}

/// Where one side renews the key for what it sends and the other the key for what it receives, they hold
/// the same key again, another one than before as far as keys follow upon others; the other direction and
/// the numbers stay, and the count begins again.
pub proof fn law_renewed_keys_fit(a: &mut Session, b: &mut Session)
    requires
        old(a).channel().out_key == old(b).channel().in_key,
        old(a).channel().out_nonce == old(b).channel().in_nonce,
        call_ensures(Session::rekey_outgoing, (a,), ()),
        call_ensures(Session::rekey_incoming, (b,), ()),
    ensures
        final(a).channel().out_key == final(b).channel().in_key,
        final(a).channel().out_key == renewed_key(old(a).channel().out_key),
        final(a).channel().out_nonce == old(a).channel().out_nonce,
        final(b).channel().in_nonce == old(b).channel().in_nonce,
        final(a).channel().in_key == old(a).channel().in_key,
        final(a).channel().in_nonce == old(a).channel().in_nonce,
        final(b).channel().out_key == old(b).channel().out_key,
        final(b).channel().out_nonce == old(b).channel().out_nonce,
        final(a).sent() == 0 && final(a).received() == old(a).received(),
        final(b).received() == 0 && final(b).sent() == old(b).sent(),
{
}

/// Renewing both keys is renewing each of them.
pub proof fn law_rekey_renews_both(
    both: &mut Session,
    r: CoreResult<()>,
    first: &mut Session,
    second: &mut Session,
)
    requires
        *old(both) == *old(first),
        call_ensures(Session::rekey, (both,), r),
        call_ensures(Session::rekey_outgoing, (first,), ()),
        *old(second) == *final(first),
        call_ensures(Session::rekey_incoming, (second,), ()),
    ensures
        r is Ok,
        final(both).channel() == final(second).channel(),
        final(both).channel().out_key == renewed_key(old(both).channel().out_key),
        final(both).channel().in_key == renewed_key(old(both).channel().in_key),
        final(both).sent() == 0 && final(both).received() == 0,
{
}

/// It is time to renew a key once as many messages went its way as was set, and not before; renewing it
/// ends that.
pub proof fn law_renewal_is_due_at_the_threshold(
    session: &mut Session,
    threshold: u64,
    out_due: bool,
    in_due: bool,
    renewed: &mut Session,
    out_due_after: bool,
)
    requires
        call_ensures(Session::set_rekey_threshold, (session, threshold), ()),
        call_ensures(Session::outgoing_rekey_pending, (&*final(session),), out_due),
        call_ensures(Session::incoming_rekey_pending, (&*final(session),), in_due),
        *old(renewed) == *final(session),
        call_ensures(Session::rekey_outgoing, (renewed,), ()),
        call_ensures(Session::outgoing_rekey_pending, (&*final(renewed),), out_due_after),
    ensures
        out_due <==> old(session).sent() >= threshold,
        in_due <==> old(session).received() >= threshold,
        threshold > 0 ==> !out_due_after,
        final(session).channel() == old(session).channel(),
{
}

} // verus!
