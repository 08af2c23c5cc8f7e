//! Wire-packet codec for the two proprietary network formats of the host
//! engine: the single-file script download packet and the auto-refresh
//! broadcast packet. Both embed a SHA-256 digest of the NUL-terminated
//! script source followed by its LZMA-compressed bytes.

use vstd::prelude::*;
use vstd::bytes::{
    lemma_auto_spec_u16_to_from_le_bytes, lemma_auto_spec_u32_to_from_le_bytes,
    spec_u16_from_le_bytes, spec_u16_to_le_bytes, spec_u32_from_le_bytes, spec_u32_to_le_bytes,
    u16_from_le_bytes, u16_to_le_bytes, u32_from_le_bytes, u32_to_le_bytes, u64_from_le_bytes,
};
use vstd::slice::{slice_subrange, slice_to_vec};
use vstd::utf8::encode_utf8;

verus! {

/// Tag byte of a single-file download packet.
pub const DOWNLOAD_TAG: u8 = 4;

/// Tag byte of an auto-refresh broadcast packet.
pub const AUTOREFRESH_TAG: u8 = 1;

/// The SHA-256 digest of a byte sequence; determined by the input alone.
pub uninterp spec fn sha256_of(data: Seq<u8>) -> Seq<u8>;

/// What LZMA decompression yields on a byte sequence (`None` where the
/// sequence is not a well-formed compressed stream); determined by the
/// input alone.
pub uninterp spec fn lzma_decode(data: Seq<u8>) -> Option<Seq<u8>>;

/// Relies on sha2::Sha256::digest: the 32-byte SHA-256 digest, a function
/// of the input bytes alone.
#[verifier::external_body]
pub(crate) fn sha256(data: &[u8]) -> (r: Vec<u8>)
    ensures
        r@ == sha256_of(data@),
        r@.len() == 32,
{
    <sha2::Sha256 as sha2::Digest>::digest(data).to_vec()
}

/// Relies on gmod_lzma::compress (level 9): on success the output is a
/// stream that gmod_lzma::decompress turns back into exactly the input,
/// as the crate documents; on failure the LZMA error code is returned.
#[verifier::external_body]
pub(crate) fn lzma_compress(data: &[u8]) -> (r: Result<Vec<u8>, u64>)
    ensures
        r matches Ok(c) ==> lzma_decode(c@) == Some(data@),
{
    gmod_lzma::compress(data, 9).map_err(|e| e as u64)
}

/// Relies on gmod_lzma::decompress: on success the result is the decoded
/// stream, a function of the input bytes alone; on failure the LZMA error
/// code is returned. The stream header declares the output length in its
/// bytes 5..13, and the crate allocates that much up front: a claim above
/// the largest allocatable size panics inside the crate instead of
/// returning, so such inputs are excluded here and callers decline them.
#[verifier::external_body]
pub(crate) fn lzma_decompress(data: &[u8]) -> (r: Result<Vec<u8>, u64>)
    requires
        data@.len() >= 13 ==> vstd::bytes::spec_u64_from_le_bytes(data@.subrange(5, 13))
            <= 0x7fff_ffff_ffff_ffff,
    ensures
        r matches Ok(p) ==> lzma_decode(data@) == Some(p@),
{
    gmod_lzma::decompress(data).map_err(|e| e as u64)
}

/// The script source as sent on the wire: its UTF-8 bytes with the
/// terminating NUL appended.
pub open spec fn nul_terminated(code: Seq<u8>) -> Seq<u8> {
    code.push(0u8)
}

/// True when the byte sequence holds a NUL byte.
pub open spec fn has_nul(data: Seq<u8>) -> bool {
    data.contains(0u8)
}

pub(crate) fn contains_nul(data: &[u8]) -> (r: bool)
    ensures
        r == has_nul(data@),
{
    let n = data.len();
    let mut i: usize = 0;
    while i < n
        invariant
            n == data@.len(),
            0 <= i <= n,
            forall|k: int| 0 <= k < i ==> data@[k] != 0u8,
        decreases n - i,
    {
        if *vstd::slice::slice_index_get(data, i) == 0u8 {
            assert(data@[i as int] == 0u8);
            return true;
        }
        i += 1;
    }
    false
}

/// Layout of a download packet: tag byte 4, the 16-bit file id
/// (little-endian), the 32-byte digest, then the compressed source.
pub open spec fn spec_download_packet(file_id: u16, hash: Seq<u8>, compressed: Seq<u8>) -> Seq<u8> {
    seq![DOWNLOAD_TAG] + spec_u16_to_le_bytes(file_id) + hash + compressed
}

/// Fields read back out of a download packet, if it is long enough and
/// carries the right tag.
pub open spec fn spec_decode_download(data: Seq<u8>) -> Option<(u16, Seq<u8>, Seq<u8>)> {
    if data.len() >= 35 && data[0] == DOWNLOAD_TAG {
        Some(
            (
                spec_u16_from_le_bytes(data.subrange(1, 3)),
                data.subrange(3, 35),
                data.skip(35),
            ),
        )
    } else {
        None
    }
}

#[derive(Clone, Copy, Debug, PartialEq, Eq, Structural)]
pub enum BuildLuaDownloadPacketError {
    LuaCodeContainsNul,
    CompressFailed(u64),
}

#[derive(Clone, Copy, Debug, PartialEq, Eq, Structural)]
pub enum BuildLuaAutoRefreshPacketError {
    FilepathContainsNul,
    LuaCodeContainsNul,
    CompressFailed(u64),
}

/// Encodes a single-file download packet for `lua_code` under `file_id`.
///
/// On success the packet carries the tag, the little-endian file id, the
/// SHA-256 digest of the NUL-terminated source and a compressed stream
/// that decompresses back to that NUL-terminated source.
pub fn build_lua_download_packet(file_id: u16, lua_code: &str) -> (r: Result<
    Vec<u8>,
    BuildLuaDownloadPacketError,
>)
    ensures
        ({
            let code = encode_utf8(lua_code@);
            &&& (r matches Err(BuildLuaDownloadPacketError::LuaCodeContainsNul)) <==> has_nul(
                code,
            )
            &&& r matches Ok(p) ==> {
                &&& p@ == spec_download_packet(
                    file_id,
                    sha256_of(nul_terminated(code)),
                    p@.skip(35),
                )
                &&& p@.len() >= 35
                &&& sha256_of(nul_terminated(code)).len() == 32
                &&& lzma_decode(p@.skip(35)) == Some(nul_terminated(code))
            }
        }),
{
    let code_bytes = lua_code.as_bytes();
    if contains_nul(code_bytes) {
        return Err(BuildLuaDownloadPacketError::LuaCodeContainsNul);
    }
    let mut wire: Vec<u8> = slice_to_vec(code_bytes);
    wire.push(0u8);
    let mut compressed = match lzma_compress(wire.as_slice()) {
        Ok(c) => c,
        Err(e) => {
            return Err(BuildLuaDownloadPacketError::CompressFailed(e));
        },
    };
    let mut hash = sha256(wire.as_slice());
    let ghost comp_view = compressed@;
    let ghost hash_view = hash@;
    let mut out: Vec<u8> = Vec::new();
    out.push(DOWNLOAD_TAG);
    let mut fid = u16_to_le_bytes(file_id);
    out.append(&mut fid);
    out.append(&mut hash);
    out.append(&mut compressed);
    proof {
        lemma_auto_spec_u16_to_from_le_bytes();
        let code = encode_utf8(lua_code@);
        assert(wire@ == nul_terminated(code));
        assert(out@ =~= seq![DOWNLOAD_TAG] + spec_u16_to_le_bytes(file_id) + hash_view
            + comp_view);
        assert(out@.skip(35) =~= comp_view);
        assert(out@ == spec_download_packet(file_id, sha256_of(nul_terminated(code)), out@.skip(
            35,
        )));
    }
    Ok(out)
}

/// A download packet taken apart into its fields.
#[derive(Debug)]
pub struct DownloadPacket {
    pub file_id: u16,
    pub hash: Vec<u8>,
    pub compressed: Vec<u8>,
}

#[derive(Clone, Copy, Debug, PartialEq, Eq, Structural)]
pub enum DecodeDownloadError {
    TooShort,
    WrongTag,
}

/// Takes a download packet apart: the file id, the embedded digest and the
/// compressed payload.
pub fn decode_download(data: &[u8]) -> (r: Result<DownloadPacket, DecodeDownloadError>)
    ensures
        r matches Ok(p) ==> spec_decode_download(data@) == Some((p.file_id, p.hash@, p.compressed@)),
        r is Err <==> spec_decode_download(data@) is None,
        r == Err::<DownloadPacket, DecodeDownloadError>(DecodeDownloadError::TooShort) <==> data@.len() < 35,
        r == Err::<DownloadPacket, DecodeDownloadError>(DecodeDownloadError::WrongTag) <==> (
        data@.len() >= 35 && data@[0] != DOWNLOAD_TAG),
{
    if data.len() < 35 {
        return Err(DecodeDownloadError::TooShort);
    }
    if *vstd::slice::slice_index_get(data, 0) != DOWNLOAD_TAG {
        return Err(DecodeDownloadError::WrongTag);
    }
    let file_id = u16_from_le_bytes(slice_subrange(data, 1, 3));
    let hash = slice_to_vec(slice_subrange(data, 3, 35));
    let compressed = slice_to_vec(slice_subrange(data, 35, data.len()));
    proof {
        assert(data@.subrange(35, data@.len() as int) =~= data@.skip(35));
    }
    Ok(DownloadPacket { file_id, hash, compressed })
}

/// Law: decoding a well-formed download packet recovers the file id, the
/// digest and the compressed payload exactly.
pub proof fn lemma_download_round_trip(file_id: u16, hash: Seq<u8>, compressed: Seq<u8>)
    requires
        hash.len() == 32,
    ensures
        spec_decode_download(spec_download_packet(file_id, hash, compressed)) == Some(
            (file_id, hash, compressed),
        ),
{
    lemma_auto_spec_u16_to_from_le_bytes();
    let data = spec_download_packet(file_id, hash, compressed);
    assert(data.subrange(1, 3) =~= spec_u16_to_le_bytes(file_id));
    assert(data.subrange(3, 35) =~= hash);
    assert(data.skip(35) =~= compressed);
}

/// The 32-bit size field of an auto-refresh packet: the compressed length
/// plus the 32 digest bytes, in the engine's wrapping 32-bit arithmetic.
pub open spec fn spec_size_field(compressed_len: nat) -> u32 {
    vstd::wrapping::u32_specs::wrapping_add(compressed_len as u32, 32u32)
}

/// Layout of an auto-refresh packet: tag byte 1, the NUL-terminated file
/// path, the 32-bit size field (little-endian), the 32-byte digest, then
/// the compressed source.
pub open spec fn spec_autorefresh_packet(
    path: Seq<u8>,
    size_field: u32,
    hash: Seq<u8>,
    compressed: Seq<u8>,
) -> Seq<u8> {
    seq![AUTOREFRESH_TAG] + path + seq![0u8] + spec_u32_to_le_bytes(size_field) + hash + compressed
}

/// Fields read back out of an auto-refresh packet: the path runs to the
/// first NUL after the tag, and the compressed payload is whatever follows
/// the size and digest fields.
pub open spec fn spec_decode_autorefresh(data: Seq<u8>) -> Option<(Seq<u8>, u32, Seq<u8>, Seq<u8>)> {
    if data.len() >= 1 && data[0] == AUTOREFRESH_TAG {
        let rest = data.skip(1);
        match rest.index_of_first(0u8) {
            Some(i) => if rest.len() >= i + 37 {
                Some(
                    (
                        rest.subrange(0, i),
                        spec_u32_from_le_bytes(rest.subrange(i + 1, i + 5)),
                        rest.subrange(i + 5, i + 37),
                        rest.skip(i + 37),
                    ),
                )
            } else {
                None
            },
            None => None,
        }
    } else {
        None
    }
}

/// Encodes an auto-refresh broadcast packet for `lua_code` under
/// `filepath`.
///
/// On success the packet carries the tag, the NUL-terminated path, the
/// size field (compressed length plus digest length), the SHA-256 digest
/// of the NUL-terminated source and a compressed stream that decompresses
/// back to that NUL-terminated source.
pub fn build_lua_autorefresh_packet(filepath: &str, lua_code: &str) -> (r: Result<
    Vec<u8>,
    BuildLuaAutoRefreshPacketError,
>)
    ensures
        ({
            let path_b = encode_utf8(filepath@);
            let code = encode_utf8(lua_code@);
            &&& (r matches Err(BuildLuaAutoRefreshPacketError::FilepathContainsNul)) <==> has_nul(
                path_b,
            )
            &&& (r matches Err(BuildLuaAutoRefreshPacketError::LuaCodeContainsNul)) <==> (!has_nul(
                path_b,
            ) && has_nul(code))
            &&& r matches Ok(p) ==> {
                &&& p@.len() >= path_b.len() + 38
                &&& p@ == spec_autorefresh_packet(
                    path_b,
                    spec_size_field((p@.len() - path_b.len() - 38) as nat),
                    sha256_of(nul_terminated(code)),
                    p@.skip(path_b.len() as int + 38),
                )
                &&& sha256_of(nul_terminated(code)).len() == 32
                &&& lzma_decode(p@.skip(path_b.len() as int + 38)) == Some(nul_terminated(code))
            }
        }),
{
    let path_bytes = filepath.as_bytes();
    if contains_nul(path_bytes) {
        return Err(BuildLuaAutoRefreshPacketError::FilepathContainsNul);
    }
    let code_bytes = lua_code.as_bytes();
    if contains_nul(code_bytes) {
        return Err(BuildLuaAutoRefreshPacketError::LuaCodeContainsNul);
    }
    let mut wire: Vec<u8> = slice_to_vec(code_bytes);
    wire.push(0u8);
    let mut compressed = match lzma_compress(wire.as_slice()) {
        Ok(c) => c,
        Err(e) => {
            return Err(BuildLuaAutoRefreshPacketError::CompressFailed(e));
        },
    };
    let mut hash = sha256(wire.as_slice());
    let clen32 = #[verifier::truncate] (compressed.len() as u32);
    let size_field = clen32.wrapping_add(32);
    let ghost comp_view = compressed@;
    let ghost hash_view = hash@;
    let mut out: Vec<u8> = Vec::new();
    out.push(AUTOREFRESH_TAG);
    out.extend_from_slice(path_bytes);
    out.push(0u8);
    let mut sf = u32_to_le_bytes(size_field);
    out.append(&mut sf);
    out.append(&mut hash);
    out.append(&mut compressed);
    proof {
        lemma_auto_spec_u32_to_from_le_bytes();
        let path_b = encode_utf8(filepath@);
        let code = encode_utf8(lua_code@);
        let pl = path_b.len() as int;
        assert(wire@ == nul_terminated(code));
        assert(out@ =~= seq![AUTOREFRESH_TAG] + path_b + seq![0u8] + spec_u32_to_le_bytes(
            size_field,
        ) + hash_view + comp_view);
        assert(out@.skip(pl + 38) =~= comp_view);
        assert(size_field == spec_size_field((out@.len() - pl - 38) as nat));
        assert(out@ == spec_autorefresh_packet(
            path_b,
            spec_size_field((out@.len() - pl - 38) as nat),
            sha256_of(nul_terminated(code)),
            out@.skip(pl + 38),
        ));
    }
    Ok(out)
}

/// An auto-refresh packet taken apart into its fields.
#[derive(Debug)]
pub struct AutoRefreshPacket {
    pub path: Vec<u8>,
    pub size_field: u32,
    pub hash: Vec<u8>,
    pub compressed: Vec<u8>,
}

#[derive(Clone, Copy, Debug, PartialEq, Eq, Structural)]
pub enum DecodeAutoRefreshError {
    WrongTag,
    NoPathTerminator,
    TooShort,
}

/// Takes an auto-refresh packet apart: the path (without its NUL), the
/// size field, the embedded digest and the compressed payload.
pub fn decode_autorefresh(data: &[u8]) -> (r: Result<AutoRefreshPacket, DecodeAutoRefreshError>)
    ensures
        r matches Ok(p) ==> spec_decode_autorefresh(data@) == Some(
            (p.path@, p.size_field, p.hash@, p.compressed@),
        ),
        r is Err <==> spec_decode_autorefresh(data@) is None,
        r matches Ok(p) ==> !has_nul(p.path@),
{
    let n = data.len();
    if n < 1 || *vstd::slice::slice_index_get(data, 0) != AUTOREFRESH_TAG {
        return Err(DecodeAutoRefreshError::WrongTag);
    }
    let ghost rest = data@.skip(1);
    let mut j: usize = 1;
    let mut found = false;
    while j < n && !found
        invariant
            1 <= j <= n,
            n == data@.len(),
            rest == data@.skip(1),
            found ==> j >= 2 && rest[j - 2] == 0u8,
            forall|k: int| 0 <= k < (if found { j - 2 } else { j - 1 }) ==> rest[k] != 0u8,
        decreases n - j + (if found { 0int } else { 1int }),
    {
        if *vstd::slice::slice_index_get(data, j) == 0u8 {
            found = true;
        }
        j += 1;
    }
    if !found {
        proof {
            assert(forall|k: int| 0 <= k < rest.len() ==> rest[k] != 0u8);
            rest.index_of_first_ensures(0u8);
        }
        return Err(DecodeAutoRefreshError::NoPathTerminator);
    }
    let j = j - 1;
    proof {
        assert(rest[j - 1] == 0u8);
        assert(rest.contains(0u8));
        rest.index_of_first_ensures(0u8);
        let idx = rest.index_of_first(0u8).unwrap();
        assert(idx <= j - 1);
        if idx < j - 1 {
            assert(rest[idx] != 0u8);
        }
        assert(rest.index_of_first(0u8) == Some(j - 1 as int));
    }
    // The packet must still hold the size field, the digest and at least
    // an empty payload after the path's NUL.
    if n - j < 37 {
        return Err(DecodeAutoRefreshError::TooShort);
    }
    let path = slice_to_vec(slice_subrange(data, 1, j));
    let size_field = u32_from_le_bytes(slice_subrange(data, j + 1, j + 5));
    let hash = slice_to_vec(slice_subrange(data, j + 5, j + 37));
    let compressed = slice_to_vec(slice_subrange(data, j + 37, n));
    proof {
        let i = j - 1 as int;
        assert(path@ =~= rest.subrange(0, i));
        assert(data@.subrange(j + 1, j + 5) =~= rest.subrange(i + 1, i + 5));
        assert(hash@ =~= rest.subrange(i + 5, i + 37));
        assert(compressed@ =~= rest.skip(i + 37));
        assert(forall|k: int| 0 <= k < path@.len() ==> path@[k] != 0u8);
    }
    Ok(AutoRefreshPacket { path, size_field, hash, compressed })
}

/// Takes an auto-refresh packet apart and decompresses its payload: the
/// file path and the NUL-terminated script source as sent.
pub fn decode_autorefresh_source(data: &[u8]) -> (r: Option<(Vec<u8>, Vec<u8>)>)
    ensures
        spec_decode_autorefresh(data@) is None ==> r is None,
        r matches Some(parts) ==> {
            &&& spec_decode_autorefresh(data@) matches Some(fields)
            &&& parts.0@ == fields.0
            &&& !has_nul(parts.0@)
            &&& lzma_decode(fields.3) == Some(parts.1@)
        },
{
    let packet = match decode_autorefresh(data) {
        Ok(packet) => packet,
        Err(_) => {
            return None;
        },
    };
    // The stream header may claim any output length; a claim no allocation
    // can satisfy is declined here, where the decompressor would panic.
    if packet.compressed.len() >= 13 {
        let declared = u64_from_le_bytes(slice_subrange(packet.compressed.as_slice(), 5, 13));
        if declared > 0x7fff_ffff_ffff_ffff {
            return None;
        }
    }
    let wire = match lzma_decompress(packet.compressed.as_slice()) {
        Ok(wire) => wire,
        Err(_) => {
            return None;
        },
    };
    Some((packet.path, wire))
}

/// Law: decoding a well-formed auto-refresh packet recovers the path, the
/// size field, the digest and the compressed payload exactly.
pub proof fn lemma_autorefresh_round_trip(
    path: Seq<u8>,
    size_field: u32,
    hash: Seq<u8>,
    compressed: Seq<u8>,
)
    requires
        hash.len() == 32,
        !has_nul(path),
    ensures
        spec_decode_autorefresh(spec_autorefresh_packet(path, size_field, hash, compressed))
            == Some((path, size_field, hash, compressed)),
{
    lemma_auto_spec_u32_to_from_le_bytes();
    let data = spec_autorefresh_packet(path, size_field, hash, compressed);
    let rest = data.skip(1);
    let pl = path.len() as int;
    assert(rest =~= path + seq![0u8] + spec_u32_to_le_bytes(size_field) + hash + compressed);
    assert(rest[pl] == 0u8);
    assert(rest.contains(0u8));
    rest.index_of_first_ensures(0u8);
    let idx = rest.index_of_first(0u8).unwrap();
    assert(idx <= pl);
    if idx < pl {
        assert(rest[idx] == path[idx]);
        assert(path.contains(0u8));
    }
    assert(rest.index_of_first(0u8) == Some(pl));
    assert(rest.subrange(0, pl) =~= path);
    assert(rest.subrange(pl + 1, pl + 5) =~= spec_u32_to_le_bytes(size_field));
    assert(rest.subrange(pl + 5, pl + 37) =~= hash);
    assert(rest.skip(pl + 37) =~= compressed);
}

} // verus!
