//! Compression of stored snapshots.
//!
//! A first byte of one marks compressed data; all else is stored as it is.

use vstd::prelude::*;

use crate::error::{CoreError, CoreResult};
use crate::octets::{append_bytes, copy_range};
use crate::text::join2;

verus! {

/// The first byte of compressed data.
pub const COMPRESSED_PREFIX: u8 = 0x01;

/// Data shorter than this is not compressed.
pub const MIN_COMPRESS_LEN: usize = 256;

/// How hard compression tries.
const ZSTD_LEVEL: i32 = 3;

/// Data compressed at a level.
pub uninterp spec fn zstd_encoded(data: Seq<u8>, level: i32) -> Option<Seq<u8>>;

/// Data that was compressed.
pub uninterp spec fn zstd_decoded(data: Seq<u8>) -> Option<Seq<u8>>;

/// Bytes that may be absent.
pub open spec fn bytes_view(r: Option<Vec<u8>>) -> Option<Seq<u8>> {
    match r {
        Some(v) => Some(v@),
        None => None,
    }
}

/// Compresses `data`.
///
/// Calls `zstd::encode_all`, whose result is named by `zstd_encoded`. What was compressed is
/// decompressed to what it was.
#[verifier::external_body]
fn zstd_encode(data: &[u8], level: i32) -> (r: Option<Vec<u8>>)
    ensures
        bytes_view(r) == zstd_encoded(data@, level),
        r is Some ==> zstd_decoded(r->Some_0@) == Some(data@),
{
    zstd::encode_all(data, level).ok()
}

/// Decompresses `data`.
///
/// Calls `zstd::decode_all`, whose result is named by `zstd_decoded`. What the text of an error
/// says is left unsaid.
#[verifier::external_body]
fn zstd_decode(data: &[u8]) -> (r: Result<Vec<u8>, String>)
    ensures
        bytes_view(r.ok()) == zstd_decoded(data@),
{
    zstd::decode_all(data).map_err(|e| e.to_string())
}

/// What is stored of data, where compressing it gives `encoded`: that behind the mark, where the
/// data is long enough and becomes shorter by it.
pub open spec fn packed(data: Seq<u8>, encoded: Option<Seq<u8>>) -> Seq<u8> {
    match encoded {
        Some(e) => if data.len() >= MIN_COMPRESS_LEN && e.len() + 1 < data.len() {
            seq![COMPRESSED_PREFIX] + e
        } else {
            data
        },
        None => data,
    }
}

/// What stored data says, where decompressing what follows the mark gives `decoded`.
pub open spec fn unpacked(stored: Seq<u8>, decoded: Option<Seq<u8>>) -> Option<Seq<u8>> {
    if stored.len() > 0 && stored[0] == COMPRESSED_PREFIX {
        decoded
    } else {
        Some(stored)
    }
}

/// What is stored of `data`.
pub open spec fn stored_form(data: Seq<u8>) -> Seq<u8> {
    packed(data, zstd_encoded(data, 3))
}

/// What stored data says.
pub open spec fn loaded_form(stored: Seq<u8>) -> Option<Seq<u8>> {
    unpacked(stored, zstd_decoded(stored.skip(1)))
}

/// What is stored of `data`. It says `data` again, unless it is stored as it is and begins with
/// the mark.
pub fn compress(data: &[u8]) -> (r: Vec<u8>)
    ensures
        r@ == stored_form(data@),
        r@.len() <= data@.len(),
        r@ != data@ || data@.len() == 0 || data@[0] != COMPRESSED_PREFIX ==> loaded_form(r@)
            == Some(data@),
{
    if data.len() >= MIN_COMPRESS_LEN {
        if let Some(compressed) = zstd_encode(data, ZSTD_LEVEL) {
            if compressed.len() < data.len() - 1 {
                let mut buf: Vec<u8> = Vec::new();
                buf.push(COMPRESSED_PREFIX);
                append_bytes(&mut buf, compressed.as_slice());
                assert(buf@ =~= seq![COMPRESSED_PREFIX] + compressed@);
                assert(buf@.skip(1) =~= compressed@);
                return buf;
            }
        }
    }
    let mut buf: Vec<u8> = Vec::new();
    append_bytes(&mut buf, data);
    assert(buf@ =~= data@);
    buf
}

/// Whether `e` says that stored data could not be decompressed.
pub open spec fn is_unpack_error(e: CoreError) -> bool {
    e matches CoreError::Store(t) && "zstd 解压失败: "@.is_prefix_of(t@)
}

/// What stored data says.
pub fn decompress(data: &[u8]) -> (r: CoreResult<Vec<u8>>)
    ensures
        match r {
            Ok(v) => loaded_form(data@) == Some(v@),
            Err(e) => loaded_form(data@) is None && is_unpack_error(e),
        },
{
    if data.len() > 0 && data[0] == COMPRESSED_PREFIX {
        let rest = copy_range(data, 1, data.len());
        assert(rest@ =~= data@.skip(1));
        match zstd_decode(rest.as_slice()) {
            Ok(v) => Ok(v),
            Err(e) => {
                let text = join2("zstd 解压失败: ", e.as_str());
                assert("zstd 解压失败: "@.is_prefix_of(text@));
                Err(CoreError::Store(text))
            },
        }
    } else {
        let mut out: Vec<u8> = Vec::new();
        append_bytes(&mut out, data);
        assert(out@ =~= data@);
        Ok(out)
    }
}

/// Data that was stored before there was compression, and does not begin with the mark, is
/// loaded as it is.
pub proof fn law_plain_data_is_loaded(data: Seq<u8>)
    requires
        data.len() == 0 || data[0] != COMPRESSED_PREFIX,
    ensures
        loaded_form(data) == Some(data),
{
}

/// Data that is compressed and decompressed is as it was, unless it begins with the mark and is kept as it
/// is. What is stored is never longer than the data, and short data is stored as it is.
pub proof fn law_compressed_data_is_read_back(
    data: &[u8],
    stored: Vec<u8>,
    again: &[u8],
    back: CoreResult<Vec<u8>>,
)
    requires
        call_ensures(compress, (data,), stored),
        again@ == stored@,
        call_ensures(decompress, (again,), back),
    ensures
        data@.len() == 0 || data@[0] != 1 || stored@ != data@ ==> back is Ok && back->Ok_0@
            == data@,
        stored@.len() <= data@.len(),
        data@.len() < 256 ==> stored@ == data@,
        stored@ != data@ ==> stored@[0] == 1,
{
}

/// What does not begin with the mark is loaded as it is; what does is loaded only where what follows can be
/// decompressed.
pub proof fn law_mark_decides(stored: &[u8], back: CoreResult<Vec<u8>>)
    requires
        call_ensures(decompress, (stored,), back),
    ensures
        stored@.len() == 0 || stored@[0] != 1 ==> back is Ok && back->Ok_0@ == stored@,
        stored@.len() > 0 && stored@[0] == 1 ==> (back is Ok <==> zstd_decoded(stored@.skip(1))
            is Some) && (back is Ok ==> Some(back->Ok_0@) == zstd_decoded(stored@.skip(1))),
        back matches Err(e) ==> e is Store,
{
}

/// Data of 256 bytes or more that becomes shorter by compression, the mark included, is stored compressed
/// behind the mark; all other data is stored as it is.
pub proof fn law_what_shrinks_is_compressed(data: &[u8], stored: Vec<u8>)
    requires
        call_ensures(compress, (data,), stored),
    ensures
        zstd_encoded(data@, 3) matches Some(e) ==> (data@.len() >= 256 && e.len() + 1 < data@.len()
            ==> stored@.len() == e.len() + 1 && stored@[0] == 1 && stored@.skip(1) == e),
        stored@ == data@ || (zstd_encoded(data@, 3) is Some && stored@.len() < data@.len()),
        zstd_encoded(data@, 3) is None ==> stored@ == data@,
{
    if zstd_encoded(data@, 3) is Some {
        let e = zstd_encoded(data@, 3)->Some_0;
        assert((seq![1u8] + e).skip(1) =~= e);
    }
}

} // verus!
