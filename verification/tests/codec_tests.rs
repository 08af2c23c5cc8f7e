use packuwus::codec::{
    build_lua_autorefresh_packet, build_lua_download_packet, decode_autorefresh, decode_download,
    BuildLuaAutoRefreshPacketError, BuildLuaDownloadPacketError, DecodeAutoRefreshError,
    DecodeDownloadError,
};
use sha2::Digest;

#[test]
fn download_packet_layout_and_round_trip() {
    let code = "print('hi')";
    let packet = build_lua_download_packet(0x1234, code).unwrap();

    // Tag, then the file id in little-endian byte order.
    assert_eq!(packet[0], 4);
    assert_eq!(packet[1], 0x34);
    assert_eq!(packet[2], 0x12);
    assert!(packet.len() > 35);

    let decoded = decode_download(&packet).unwrap();
    assert_eq!(decoded.file_id, 0x1234);
    assert_eq!(decoded.hash.len(), 32);
    assert_eq!(decoded.hash.as_slice(), &packet[3..35]);
    assert_eq!(decoded.compressed.as_slice(), &packet[35..]);

    // The embedded payload decompresses back to the NUL-terminated source.
    let plain = gmod_lzma::decompress(&decoded.compressed).unwrap();
    assert_eq!(plain, b"print('hi')\0");
}

#[test]
fn download_packet_hash_is_sha256_of_nul_terminated_source() {
    let code = "local x = 1\nreturn x";
    let packet = build_lua_download_packet(7, code).unwrap();
    let expected = sha2::Sha256::digest(b"local x = 1\nreturn x\0");
    assert_eq!(&packet[3..35], expected.as_slice());
}

#[test]
fn download_packet_rejects_nul_in_code() {
    let err = build_lua_download_packet(1, "bad\0code").unwrap_err();
    assert_eq!(err, BuildLuaDownloadPacketError::LuaCodeContainsNul);
}

#[test]
fn decode_download_hand_built_packet() {
    // Hand-built packet: tag 4, file id 0x1234, a known digest, a known blob.
    let mut data: Vec<u8> = vec![4, 0x34, 0x12];
    let hash: Vec<u8> = (0u8..32).collect();
    data.extend_from_slice(&hash);
    let blob = [9u8, 9, 9];
    data.extend_from_slice(&blob);

    let decoded = decode_download(&data).unwrap();
    assert_eq!(decoded.file_id, 0x1234);
    assert_eq!(decoded.hash, hash);
    assert_eq!(decoded.compressed.as_slice(), &blob);
}

#[test]
fn decode_download_errors() {
    assert_eq!(decode_download(&[4u8; 10]).unwrap_err(), DecodeDownloadError::TooShort);
    assert_eq!(decode_download(&[1u8; 40]).unwrap_err(), DecodeDownloadError::WrongTag);
}

#[test]
fn autorefresh_packet_layout_and_round_trip() {
    let path = "lua/autorun/foo.lua";
    let code = "print('reloaded')";
    let packet = build_lua_autorefresh_packet(path, code).unwrap();

    assert_eq!(packet[0], 1);
    let decoded = decode_autorefresh(&packet).unwrap();
    assert_eq!(decoded.path, path.as_bytes());
    assert_eq!(decoded.hash.len(), 32);
    assert_eq!(decoded.size_field as usize, decoded.compressed.len() + 32);

    let plain = gmod_lzma::decompress(&decoded.compressed).unwrap();
    assert_eq!(plain, b"print('reloaded')\0");
}

#[test]
fn autorefresh_packet_hash_is_sha256_of_nul_terminated_source() {
    let packet = build_lua_autorefresh_packet("a.lua", "x").unwrap();
    let decoded = decode_autorefresh(&packet).unwrap();
    let expected = sha2::Sha256::digest(b"x\0");
    assert_eq!(decoded.hash.as_slice(), expected.as_slice());
}

#[test]
fn autorefresh_packet_rejects_nul() {
    let err = build_lua_autorefresh_packet("bad\0path", "code").unwrap_err();
    assert_eq!(err, BuildLuaAutoRefreshPacketError::FilepathContainsNul);
    let err = build_lua_autorefresh_packet("path", "bad\0code").unwrap_err();
    assert_eq!(err, BuildLuaAutoRefreshPacketError::LuaCodeContainsNul);
}

#[test]
fn decode_autorefresh_hand_built_packet() {
    let mut data: Vec<u8> = vec![1];
    data.extend_from_slice(b"foo.lua\0");
    let blob = [7u8, 8, 9, 10];
    data.extend_from_slice(&(blob.len() as u32 + 32).to_le_bytes());
    let hash: Vec<u8> = (100u8..132).collect();
    data.extend_from_slice(&hash);
    data.extend_from_slice(&blob);

    let decoded = decode_autorefresh(&data).unwrap();
    assert_eq!(decoded.path, b"foo.lua");
    assert_eq!(decoded.size_field, 36);
    assert_eq!(decoded.hash, hash);
    assert_eq!(decoded.compressed.as_slice(), &blob);
}

#[test]
fn decode_autorefresh_errors() {
    assert_eq!(decode_autorefresh(&[4u8; 50]).unwrap_err(), DecodeAutoRefreshError::WrongTag);
    assert_eq!(
        decode_autorefresh(&[1u8, 2, 3]).unwrap_err(),
        DecodeAutoRefreshError::NoPathTerminator
    );
    assert_eq!(
        decode_autorefresh(&[1u8, b'a', 0, 1, 2]).unwrap_err(),
        DecodeAutoRefreshError::TooShort
    );
}

#[test]
fn decode_autorefresh_source_decompresses_payload() {
    let packet = build_lua_autorefresh_packet("dir/f.lua", "return 1").unwrap();
    let (path, wire) = packuwus::decode_autorefresh_source(&packet).unwrap();
    assert_eq!(path, b"dir/f.lua");
    assert_eq!(wire, b"return 1\0");
    // Garbage is not an auto-refresh packet.
    assert!(packuwus::decode_autorefresh_source(&[9u8; 4]).is_none());
}

#[test]
fn decode_autorefresh_source_declines_absurd_length_claim() {
    // An auto-refresh packet whose compressed stream claims an output
    // length no allocation can satisfy is declined, not decompressed.
    let mut data: Vec<u8> = vec![1];
    data.extend_from_slice(b"foo.lua\0");
    let mut blob: Vec<u8> = vec![0x5d, 0, 0, 1, 0];
    blob.extend_from_slice(&u64::MAX.to_le_bytes());
    blob.extend_from_slice(&[0u8; 8]);
    data.extend_from_slice(&(blob.len() as u32 + 32).to_le_bytes());
    data.extend_from_slice(&[0u8; 32]);
    data.extend_from_slice(&blob);

    assert!(packuwus::decode_autorefresh_source(&data).is_none());
}

#[test]
fn compress_is_not_identity() {
    // The compressed payload of a packet differs from the plain source:
    // the compression wrapper really compresses.
    let code = "return 42";
    let packet = build_lua_download_packet(1, code).unwrap();
    let decoded = decode_download(&packet).unwrap();
    assert_ne!(decoded.compressed.as_slice(), b"return 42\0");
}
