//! Compression of shuffle data with LZ4 and Zstd.

use bytes::Bytes;
use vstd::prelude::*;
use vstd::slice::{slice_subrange, slice_to_vec};
use vstd::string::*;

use crate::buffers;
use crate::client::lz4_lengths;
use crate::config::CompressionCodec;
use crate::error::{CelebornError, Result};
use crate::text;
use crate::wire;

verus! {

/// What `lz4_flex::decompress_size_prepended` gives for its input: the data, or the text
/// of the error.
pub uninterp spec fn lz4_unpacked(packed: Seq<u8>) -> std::result::Result<Seq<u8>, Seq<char>>;

/// What an output of `len` zero bytes holds after `lz4_flex::decompress_into`, or the
/// text of the error.
pub uninterp spec fn lz4_block(block: Seq<u8>, len: nat) -> std::result::Result<
    Seq<u8>,
    Seq<char>,
>;

/// What `zstd::encode_all` gives for data at a level: the frame, or the text of the error.
pub uninterp spec fn zstd_packed(data: Seq<u8>, level: i32) -> std::result::Result<
    Seq<u8>,
    Seq<char>,
>;

/// What `zstd::decode_all` gives for its input: the data, or the text of the error.
pub uninterp spec fn zstd_unpacked(packed: Seq<u8>) -> std::result::Result<Seq<u8>, Seq<char>>;

/// Whether the outcome of a call is the named one.
pub open spec fn same_outcome(
    r: std::result::Result<Vec<u8>, String>,
    named: std::result::Result<Seq<u8>, Seq<char>>,
) -> bool {
    match named {
        Ok(d) => r matches Ok(v) && v@ == d,
        Err(t) => r matches Err(m) && m@ == t,
    }
}

/// Whether the named outcome is the data `d`.
pub open spec fn gives(named: std::result::Result<Seq<u8>, Seq<char>>, d: Seq<u8>) -> bool {
    named matches Ok(x) && x == d
}

/// How many bytes LZ4 sets aside to compress `n` bytes behind their length.
pub open spec fn lz4_room(n: nat) -> int {
    24 + n as int * 110 / 100
}

/// Whether `n` bytes can be compressed: the room set aside fits in memory, and its
/// computation in a machine word.
pub open spec fn lz4_fits(n: nat) -> bool {
    n * 110 <= usize::MAX && lz4_room(n) <= isize::MAX
}

/// Whether LZ4 can be asked to unpack the bytes: the length that they begin with fits in
/// memory, and the decoder can add up the lengths that it meets in the block behind it.
pub open spec fn lz4_readable(packed: Seq<u8>) -> bool {
    packed.len() < 4 || {
        let len = wire::le_nat(packed.subrange(0, 4)) as int;
        len <= isize::MAX && lz4_lengths::adds_up(packed.skip(4), 0, 0, len)
    }
}

/// `lz4_flex::compress_prepend_size`: a block behind the length of the data in four
/// bytes, little-endian, in no more than the room set aside. The compressed bytes depend on
/// the machine; of data of less than 2^32 bytes it is claimed that no length in the block
/// exceeds that of the data, so that the decoder can add them up, that
/// `decompress_size_prepended` gives the data back, and that `decompress_into` does so from
/// the block alone.
#[verifier::external_body]
pub(crate) fn lz4_pack(data: &[u8]) -> (r: Vec<u8>)
    requires
        lz4_fits(data@.len()),
    ensures
        4 <= r@.len() <= lz4_room(data@.len()),
        data@.len() <= u32::MAX ==> wire::le_nat(r@.subrange(0, 4)) == data@.len(),
        data@.len() <= u32::MAX ==> lz4_readable(r@),
        data@.len() <= u32::MAX ==> gives(lz4_unpacked(r@), data@),
        data@.len() <= u32::MAX ==> gives(lz4_block(r@.skip(4), data@.len()), data@),
{
    lz4_flex::compress_prepend_size(data)
}

/// `lz4_flex::decompress_size_prepended`: the data behind a length, or an error.
#[verifier::external_body]
pub(crate) fn lz4_unpack(packed: &[u8]) -> (r: std::result::Result<Vec<u8>, String>)
    requires
        lz4_readable(packed@),
    ensures
        same_outcome(r, lz4_unpacked(packed@)),
{
    lz4_flex::decompress_size_prepended(packed).map_err(|e| e.to_string())
}

/// `lz4_flex::decompress_into` on an output of `len` zero bytes: the output, or an
/// error. The output keeps its length.
#[verifier::external_body]
pub(crate) fn lz4_unpack_block(block: &[u8], len: usize) -> (r: std::result::Result<Vec<u8>, String>)
    requires
        len <= isize::MAX,
        lz4_lengths::adds_up(block@, 0, 0, len as int),
    ensures
        same_outcome(r, lz4_block(block@, len as nat)),
        r matches Ok(v) ==> v@.len() == len,
{
    let mut out = vec![0u8; len];
    match lz4_flex::decompress_into(block, &mut out) {
        Ok(_) => Ok(out),
        Err(e) => Err(e.to_string()),
    }
}

/// `zstd::encode_all`: a Zstd frame, or the text of an error. It depends on the data and the
/// level alone. It is claimed that `decode_all` gives the data back from the frame; which
/// bytes the frame has is not stated.
#[verifier::external_body]
pub(crate) fn zstd_pack(data: &[u8], level: i32) -> (r: std::result::Result<Vec<u8>, String>)
    ensures
        same_outcome(r, zstd_packed(data@, level)),
        r matches Ok(v) ==> gives(zstd_unpacked(v@), data@),
{
    zstd::encode_all(data, level).map_err(|e| e.to_string())
}

/// `zstd::decode_all`: the data in a Zstd frame, or an error.
#[verifier::external_body]
pub(crate) fn zstd_unpack(packed: &[u8]) -> (r: std::result::Result<Vec<u8>, String>)
    ensures
        same_outcome(r, zstd_unpacked(packed@)),
{
    zstd::decode_all(packed).map_err(|e| e.to_string())
}

/// The level at which Zstd compresses shuffle data.
pub const ZSTD_LEVEL: i32 = 3;

/// What data that was packed with `codec` unpacks to, or the text of the error. LZ4 data
/// whose lengths cannot be held is refused.
pub open spec fn unpacked(codec: CompressionCodec, packed: Seq<u8>) -> std::result::Result<
    Seq<u8>,
    Seq<char>,
> {
    match codec {
        CompressionCodec::Uncompressed => Ok(packed),
        CompressionCodec::Lz4 => if lz4_readable(packed) {
            match lz4_unpacked(packed) {
                Ok(d) => Ok(d),
                Err(t) => Err("LZ4 decompression failed: "@ + t),
            }
        } else {
            Err("LZ4 data too long"@)
        },
        CompressionCodec::Zstd => match zstd_unpacked(packed) {
            Ok(d) => Ok(d),
            Err(t) => Err("Zstd decompression failed: "@ + t),
        },
    }
}

/// Why data is not compressed, if it is not: Zstd refused it.
pub open spec fn pack_fault(codec: CompressionCodec, data: Seq<u8>) -> Option<Seq<char>> {
    match codec {
        CompressionCodec::Zstd => match zstd_packed(data, ZSTD_LEVEL) {
            Ok(_) => None,
            Err(t) => Some("Zstd compression failed: "@ + t),
        },
        _ => None,
    }
}

/// Whether `e` reports why data is not compressed.
pub open spec fn is_pack_error(e: CelebornError, codec: CompressionCodec, data: Seq<u8>) -> bool {
    e matches CelebornError::Compression(m) && pack_fault(codec, data) == Some(m@)
}

/// Whether data of `n` bytes can be given back: LZ4 writes its length in four bytes.
pub open spec fn restorable(codec: CompressionCodec, n: nat) -> bool {
    codec is Lz4 ==> n <= u32::MAX
}

/// Whether `packed` is a compressed form of `data`: unpacking it gives `data` back. Zstd
/// compresses at its level; LZ4 stays within its room.
pub open spec fn packs(codec: CompressionCodec, data: Seq<u8>, packed: Seq<u8>) -> bool {
    &&& (codec is Uncompressed ==> packed == data)
    &&& (codec is Zstd ==> gives(zstd_packed(data, ZSTD_LEVEL), packed))
    &&& (codec is Lz4 ==> 4 <= packed.len() <= lz4_room(data.len()))
    &&& (restorable(codec, data.len()) ==> gives(unpacked(codec, packed), data) && gives(
        batch_unpacked(codec, packed),
        data,
    ))
}

/// Compressed data is given back by either way to unpack it, whatever the codec; by LZ4 up to
/// the longest length that it can write.
pub proof fn law_packed_data_is_given_back(codec: CompressionCodec, data: Seq<u8>, packed: Seq<u8>)
    requires
        packs(codec, data, packed),
        codec is Lz4 ==> data.len() <= u32::MAX,
    ensures
        unpacked(codec, packed) == Ok::<Seq<u8>, Seq<char>>(data),
        batch_unpacked(codec, packed) == Ok::<Seq<u8>, Seq<char>>(data),
{
}

/// Whether `codec` can be asked to compress `n` bytes.
pub open spec fn can_compress(codec: CompressionCodec, n: nat) -> bool {
    codec is Lz4 ==> lz4_fits(n)
}

/// What a batch with the compressed bytes `data` holds, or the text of the error. LZ4
/// data starts with its length in four bytes; data whose lengths cannot be held is refused.
pub open spec fn batch_unpacked(codec: CompressionCodec, data: Seq<u8>) -> std::result::Result<
    Seq<u8>,
    Seq<char>,
> {
    match codec {
        CompressionCodec::Uncompressed => Ok(data),
        CompressionCodec::Lz4 => {
            if data.len() < 4 {
                Err("LZ4 data too short"@)
            } else if !lz4_readable(data) {
                Err("LZ4 data too long"@)
            } else {
                match lz4_block(data.skip(4), wire::le_nat(data.subrange(0, 4))) {
                    Ok(d) => Ok(d),
                    Err(t) => Err("LZ4 decompression failed: "@ + t),
                }
            }
        },
        CompressionCodec::Zstd => match zstd_unpacked(data) {
            Ok(d) => Ok(d),
            Err(t) => Err("ZSTD decompression failed: "@ + t),
        },
    }
}

/// Compress data using the codec. The result unpacks to the data again, whole or batch
/// by batch. Only Zstd can refuse it.
pub fn compress_data(codec: CompressionCodec, data: &[u8]) -> (r: Result<Vec<u8>>)
    requires
        can_compress(codec, data@.len()),
    ensures
        match r {
            Ok(v) => pack_fault(codec, data@) is None && packs(codec, data@, v@),
            Err(e) => is_pack_error(e, codec, data@),
        },
{
    match codec {
        CompressionCodec::Uncompressed => Ok(slice_to_vec(data)),
        CompressionCodec::Lz4 => Ok(lz4_pack(data)),
        CompressionCodec::Zstd => finish_zstd(zstd_pack(data, ZSTD_LEVEL)),
    }
}

/// Reports how Zstd ended.
pub fn finish_zstd(packed: std::result::Result<Vec<u8>, String>) -> (r: Result<Vec<u8>>)
    ensures
        match packed {
            Ok(v) => r == Ok::<Vec<u8>, CelebornError>(v),
            Err(m) => r matches Err(CelebornError::Compression(t)) && t@
                == "Zstd compression failed: "@ + m@,
        },
{
    match packed {
        Ok(v) => Ok(v),
        Err(m) => Err(CelebornError::Compression(text::join("Zstd compression failed: ", m.as_str()))),
    }
}

/// Whether LZ4 can be asked to unpack the bytes.
fn is_lz4_readable(packed: &[u8]) -> (r: bool)
    ensures
        r == lz4_readable(packed@),
{
    if packed.len() < 4 {
        return true;
    }
    let original_len: usize = wire::read_u32_le(packed, 0) as usize;
    if original_len > isize::MAX as usize {
        return false;
    }
    let block: &[u8] = slice_subrange(packed, 4, packed.len());
    assert(block@ =~= packed@.skip(4));
    lz4_lengths::lengths_add_up(block, original_len)
}

/// Whether an outcome is reported as it must be: the data, or a compression error.
pub open spec fn unpack_reported(
    r: std::result::Result<Bytes, CelebornError>,
    named: std::result::Result<Seq<u8>, Seq<char>>,
) -> bool {
    match named {
        Ok(d) => r matches Ok(b) && buffers::octets(b) == d,
        Err(t) => r matches Err(CelebornError::Compression(m)) && m@ == t,
    }
}

/// Reports how LZ4 or Zstd ended, under the given heading.
pub fn finish_unpack(outcome: std::result::Result<Vec<u8>, String>, heading: &str) -> (r: Result<Bytes>)
    ensures
        match outcome {
            Ok(v) => r matches Ok(b) && buffers::octets(b) == v@,
            Err(m) => r matches Err(CelebornError::Compression(t)) && t@ == heading@ + m@,
        },
{
    match outcome {
        Ok(v) => Ok(buffers::bytes_from_vec(v)),
        Err(m) => Err(CelebornError::Compression(text::join(heading, m.as_str()))),
    }
}

/// Decompress data using the codec.
pub fn decompress_data(codec: CompressionCodec, data: &Bytes) -> (r: Result<Bytes>)
    ensures
        unpack_reported(r, unpacked(codec, buffers::octets(*data))),
{
    match codec {
        CompressionCodec::Uncompressed => Ok(buffers::bytes_clone(data)),
        CompressionCodec::Lz4 => {
            let bytes: &[u8] = buffers::bytes_as_slice(data);
            if !is_lz4_readable(bytes) {
                return Err(CelebornError::Compression("LZ4 data too long".to_owned()));
            }
            finish_unpack(lz4_unpack(bytes), "LZ4 decompression failed: ")
        },
        CompressionCodec::Zstd => finish_unpack(
            zstd_unpack(buffers::bytes_as_slice(data)),
            "Zstd decompression failed: ",
        ),
    }
}

/// Whether a batch is reported as it must be: its data, or a decompression error.
pub open spec fn batch_reported(
    r: std::result::Result<Vec<u8>, CelebornError>,
    named: std::result::Result<Seq<u8>, Seq<char>>,
) -> bool {
    match named {
        Ok(d) => r matches Ok(v) && v@ == d,
        Err(t) => r matches Err(CelebornError::DecompressionFailed(m)) && m@ == t,
    }
}

/// Reports how unpacking a batch ended, under the given heading.
pub fn finish_batch(outcome: std::result::Result<Vec<u8>, String>, heading: &str) -> (r: Result<Vec<u8>>)
    ensures
        match outcome {
            Ok(v) => r == Ok::<Vec<u8>, CelebornError>(v),
            Err(m) => r matches Err(CelebornError::DecompressionFailed(t)) && t@ == heading@ + m@,
        },
{
    match outcome {
        Ok(v) => Ok(v),
        Err(m) => Err(CelebornError::DecompressionFailed(text::join(heading, m.as_str()))),
    }
}

/// Decompress a batch using the codec.
pub fn decompress_batch(codec: CompressionCodec, data: &[u8]) -> (r: Result<Vec<u8>>)
    ensures
        batch_reported(r, batch_unpacked(codec, data@)),
{
    match codec {
        CompressionCodec::Uncompressed => Ok(slice_to_vec(data)),
        CompressionCodec::Lz4 => {
            if data.len() < 4 {
                return Err(CelebornError::DecompressionFailed("LZ4 data too short".to_owned()));
            }
            if !is_lz4_readable(data) {
                return Err(CelebornError::DecompressionFailed("LZ4 data too long".to_owned()));
            }
            let original_len: usize = wire::read_u32_le(data, 0) as usize;
            let block: &[u8] = slice_subrange(data, 4, data.len());
            assert(block@ =~= data@.skip(4));
            finish_batch(lz4_unpack_block(block, original_len), "LZ4 decompression failed: ")
        },
        CompressionCodec::Zstd => finish_batch(zstd_unpack(data), "ZSTD decompression failed: "),
    }
}

} // verus!
