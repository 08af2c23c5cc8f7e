//! Runtime extension core for a game server's script-bundling pipeline:
//! module/symbol resolution, hook slot state, the wire-packet codec for
//! script downloads, the pack store of tracked files, and the single-flight
//! repack coordinator.

pub mod codec;
pub mod hook;
pub mod module;
pub mod repack;
pub mod serve;
pub mod store;

pub use codec::{
    build_lua_autorefresh_packet, build_lua_download_packet, decode_autorefresh,
    decode_autorefresh_source, decode_download,
    has_nul, lemma_autorefresh_round_trip, lemma_download_round_trip, lzma_decode, nul_terminated,
    sha256_of, spec_autorefresh_packet, spec_decode_autorefresh, spec_decode_download,
    spec_download_packet, spec_size_field, AutoRefreshPacket, BuildLuaAutoRefreshPacketError,
    BuildLuaDownloadPacketError, DecodeAutoRefreshError, DecodeDownloadError, DownloadPacket,
    AUTOREFRESH_TAG, DOWNLOAD_TAG,
};
pub use hook::{Hook, HookError, HookState};
pub use module::{
    elf_symbols_of, entry_matches, spec_last_component, MapEntry, Module, ModuleFromMemMapError,
    ModuleFromProcessError, SymbolError,
};
pub use repack::{
    lemma_single_flight, spec_finish_failed, spec_finish_ok, spec_poll, spec_start,
    RepackCoordinator, RepackStatus,
};
pub use serve::{
    is_hex_char, HandlePackError, spec_serve_prefix, tracked_visible, DownloadableUpdate, ReadFileError, ServePlan,
    TryServeError, WriteFileError,
};
pub use store::{
    blobs_match, spec_archive, spec_entry_bytes, spec_starts_with, AddFileError, BuildArchiveError,
    EditFileError, PackUwUs, PackedFile,
};
