//! The payload of a session's data frames.
//!
//! A payload says whether it changes a block or the block list: `0x00` and the change, or `0x01`,
//! the length of the block's identifier (two bytes, least significant first), the identifier in
//! UTF-8, and the change.

use vstd::prelude::*;
use vstd::utf8::*;

use crate::error::{CoreError, CoreResult};
use crate::ids::BlockId;
use crate::octets::{append_bytes, copy_range};
use crate::text::{hex_pair, hex_pair_string, join2, utf8_error_text, utf8_text};

verus! {

/// The longest block identifier that a payload can carry, in bytes.
pub const MAX_BLOCK_ID_LEN: usize = 0xFFFF;

/// The bytes of a payload.
pub open spec fn payload_bytes(block_id: Option<Seq<char>>, delta: Seq<u8>) -> Seq<u8> {
    match block_id {
        None => seq![0u8] + delta,
        Some(id) => {
            let name = encode_utf8(id);
            seq![1u8, (name.len() % 256) as u8, (name.len() / 256) as u8] + name + delta
        },
    }
}

/// What a payload holds, or the text that says what is wrong with it.
pub open spec fn payload_decoded(payload: Seq<u8>) -> Result<
    (Option<Seq<char>>, Seq<u8>),
    Seq<char>,
> {
    if payload.len() == 0 {
        Err("payload 为空，无法解码 session 帧"@)
    } else if payload[0] == 0 {
        Ok((None, payload.skip(1)))
    } else if payload[0] == 1 {
        if payload.len() < 3 {
            Err("block delta payload 过短，缺少 block_id 长度"@)
        } else {
            let n = payload[1] + 256 * payload[2];
            if payload.len() < 3 + n {
                Err("block delta payload 过短，block_id 被截断"@)
            } else if !valid_utf8(payload.subrange(3, 3 + n)) {
                Err("block_id 不是有效 UTF-8: "@ + utf8_error_text(payload.subrange(3, 3 + n)))
            } else {
                Ok((Some(decode_utf8(payload.subrange(3, 3 + n))), payload.skip(3 + n)))
            }
        }
    } else {
        Err("未知的 session 帧标志: 0x"@ + hex_pair(payload[0]))
    }
}

/// Puts a block's identifier, if any, in front of a change.
pub fn encode_payload(block_id: Option<&BlockId>, delta: &[u8]) -> (r: Vec<u8>)
    requires
        block_id matches Some(b) ==> encode_utf8(b@).len() <= 0xFFFF,
    ensures
        r@ == payload_bytes(
            match block_id {
                Some(b) => Some(b@),
                None => None,
            },
            delta@,
        ),
{
    let mut buf: Vec<u8> = Vec::new();
    match block_id {
        None => {
            buf.push(0);
            append_bytes(&mut buf, delta);
            assert(buf@ =~= seq![0u8] + delta@);
        },
        Some(bid) => {
            let name = bid.as_str().as_bytes();
            let len: usize = name.len();
            buf.push(1);
            buf.push((len % 256) as u8);
            buf.push((len / 256) as u8);
            append_bytes(&mut buf, name);
            append_bytes(&mut buf, delta);
            assert(buf@ =~= seq![1u8, (len % 256) as u8, (len / 256) as u8] + name@ + delta@);
        },
    }
    buf
}

/// Takes a payload apart.
pub fn decode_payload(payload: &[u8]) -> (r: CoreResult<(Option<BlockId>, Vec<u8>)>)
    ensures
        match r {
            Ok((id, delta)) => payload_decoded(payload@) == Ok::<
                (Option<Seq<char>>, Seq<u8>),
                Seq<char>,
            >(
                (
                    match id {
                        Some(b) => Some(b@),
                        None => None,
                    },
                    delta@,
                ),
            ),
            Err(e) => e matches CoreError::Internal(m) && payload_decoded(payload@) == Err::<
                (Option<Seq<char>>, Seq<u8>),
                Seq<char>,
            >(m@),
        },
{
    if payload.len() == 0 {
        return Err(CoreError::Internal("payload 为空，无法解码 session 帧".to_owned()));
    }
    match payload[0] {
        0 => {
            let delta = copy_range(payload, 1, payload.len());
            assert(delta@ =~= payload@.skip(1));
            Ok((None, delta))
        },
        1 => {
            if payload.len() < 3 {
                return Err(
                    CoreError::Internal(
                        "block delta payload 过短，缺少 block_id 长度".to_owned(),
                    ),
                );
            }
            let len: usize = payload[1] as usize + 256 * payload[2] as usize;
            if payload.len() - 3 < len {
                return Err(
                    CoreError::Internal("block delta payload 过短，block_id 被截断".to_owned()),
                );
            }
            let name = copy_range(payload, 3, 3 + len);
            match utf8_text(name) {
                Err(why) => Err(
                    CoreError::Internal(join2("block_id 不是有效 UTF-8: ", why.as_str())),
                ),
                Ok(id) => {
                    let delta = copy_range(payload, 3 + len, payload.len());
                    proof {
                        assert(delta@ =~= payload@.skip(3 + len));
                        encode_utf8_decode_utf8(id@);
                    }
                    Ok((Some(BlockId(id)), delta))
                },
            }
        },
        flag => {
            let digits = hex_pair_string(flag);
            Err(CoreError::Internal(join2("未知的 session 帧标志: 0x", digits.as_str())))
        },
    }
}

/// A payload reads back from its bytes, where the identifier's length fits in sixteen bits.
pub proof fn law_payload_roundtrip(block_id: Option<Seq<char>>, delta: Seq<u8>)
    requires
        block_id matches Some(id) ==> encode_utf8(id).len() <= 0xFFFF,
    ensures
        payload_decoded(payload_bytes(block_id, delta)) == Ok::<
            (Option<Seq<char>>, Seq<u8>),
            Seq<char>,
        >((block_id, delta)),
{
    let data = payload_bytes(block_id, delta);
    match block_id {
        None => {
            assert(data.skip(1) =~= delta);
        },
        Some(id) => {
            let name = encode_utf8(id);
            let n = name.len() as int;
            assert(data[1] + 256 * data[2] == n);
            assert(data.subrange(3, 3 + n) =~= name);
            assert(data.skip(3 + n) =~= delta);
            encode_utf8_valid_utf8(id);
            encode_utf8_decode_utf8(id);
        },
    }
}

/// What was put together is taken apart again: the block's identifier, or none, and the change.
pub proof fn law_payload_is_read_back(
    block_id: Option<&BlockId>,
    delta: &[u8],
    payload: Vec<u8>,
    given: &[u8],
    r: CoreResult<(Option<BlockId>, Vec<u8>)>,
)
    requires
        block_id matches Some(b) ==> encode_utf8(b@).len() <= 65535,
        call_ensures(encode_payload, (block_id, delta), payload),
        given@ == payload@,
        call_ensures(decode_payload, (given,), r),
    ensures
        r matches Ok((id, change)) && change@ == delta@ && (id is Some <==> block_id is Some) && (id
            is Some ==> id->Some_0@ == block_id->Some_0@),
        payload@.len() == delta@.len() + (match block_id {
            Some(b) => 3 + encode_utf8(b@).len(),
            None => 1,
        }),
        payload@[0] == (if block_id is Some {
            1u8
        } else {
            0u8
        }),
        payload@.skip(payload@.len() - delta@.len()) == delta@,
{
    let id = match block_id {
        Some(b) => Some(b@),
        None => None,
    };
    law_payload_roundtrip(id, delta@);
    assert(payload@.skip(payload@.len() - delta@.len()) =~= delta@);
}

/// A payload that is empty, or begins with anything but the two marks, is refused, and so is one that is too
/// short for the identifier that it announces.
pub proof fn law_malformed_payload_is_refused(
    payload: &[u8],
    r: CoreResult<(Option<BlockId>, Vec<u8>)>,
)
    requires
        call_ensures(decode_payload, (payload,), r),
    ensures
        payload@.len() == 0 ==> r is Err,
        payload@.len() > 0 && payload@[0] > 1 ==> r is Err,
        payload@.len() > 0 && payload@[0] == 1 && payload@.len() < 3 ==> r is Err,
        payload@.len() >= 3 && payload@[0] == 1 && payload@.len() < 3 + payload@[1] + 256
            * payload@[2] ==> r is Err,
        payload@.len() > 0 && payload@[0] == 0 ==> (r matches Ok((id, change)) && id is None
            && change@ == payload@.skip(1)),
        r matches Err(e) ==> e is Internal,
{
}

} // verus!
