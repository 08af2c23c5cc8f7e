//! Serving a repack: turns the pack store's current state into a serve
//! plan — the archive bytes, the path to write them under, which client
//! file registry entries get a fresh content hash, and how the
//! downloadables registry is updated. The caller performs the file write
//! and the registry patches; the write must never exceed a registry slot's
//! original width, which holding the patched entry to the found slot's
//! index models.

use vstd::prelude::*;
use vstd::string::StringExecFns;
use vstd::utf8::encode_utf8;

use crate::codec::{
    build_lua_download_packet, has_nul, lzma_decode, nul_terminated, sha256, sha256_of,
    spec_download_packet,
};
use crate::store::{blobs_match, spec_archive, spec_starts_with, BuildArchiveError, PackUwUs};

verus! {

/// Directory prefix, relative to the host's writable data root, under
/// which served archives live.
pub open spec fn spec_serve_prefix() -> Seq<char> {
    "data/serve_packuwus/"@
}

/// True for the characters a simple-format random identifier is made of.
pub open spec fn is_hex_char(c: char) -> bool {
    ('0' <= c && c <= '9') || ('a' <= c && c <= 'f')
}

/// Relies on uuid::Uuid::new_v4 rendered through its simple formatter:
/// a fresh random identifier of exactly 32 lowercase hexadecimal
/// characters. Nothing more is promised of a random value.
#[verifier::external_body]
fn fresh_archive_id() -> (r: String)
    ensures
        r@.len() == 32,
        forall|i: int| 0 <= i < r@.len() ==> is_hex_char(#[trigger] r@[i]),
{
    uuid::Uuid::new_v4().simple().to_string()
}

/// Error reported when the scripting layer's pack decision cannot be
/// obtained: the global decision function is missing, it raised an error,
/// or it returned a value of the named unexpected type. The caller that
/// marshals the call constructs these; packet handling then degrades to
/// passing the original traffic through.
#[derive(Debug, PartialEq, Eq)]
pub enum HandlePackError {
    NoGlobalFunc,
    LuaErrorOccured,
    InvalidReturnValue(String),
}

/// Error reported by the engine file system when a file cannot be opened
/// for reading.
#[derive(Clone, Copy, Debug, PartialEq, Eq, Structural)]
pub enum ReadFileError {
    OpenFailed,
}

/// Error reported by the engine file system when a file cannot be opened
/// for writing.
#[derive(Clone, Copy, Debug, PartialEq, Eq, Structural)]
pub enum WriteFileError {
    OpenFailed,
}

#[derive(Clone, Copy, Debug, PartialEq, Eq, Structural)]
pub enum TryServeError {
    WriteFileFailed(WriteFileError),
    PackedContentsNotSet,
    CompressFailed(u64),
}

/// How the downloadables registry advertises the fresh archive: patch the
/// previously advertised entry in place, or append a new one.
#[derive(Clone, Copy, Debug, PartialEq, Eq, Structural)]
pub enum DownloadableUpdate {
    Patch(usize),
    Append,
}

/// Everything a repack changes outside the store, computed up front.
#[derive(Debug)]
pub struct ServePlan {
    /// Fresh random identifier of this archive.
    pub archive_id: String,
    /// Path the archive is written to and advertised under.
    pub out_path: String,
    /// The combined archive blob.
    pub archive: Vec<u8>,
    /// Indices of client-file registry entries whose path is tracked.
    pub hash_updates: Vec<usize>,
    /// The digest stored as each updated entry's user data: SHA-256 of the
    /// NUL-terminated pack-marker content.
    pub user_data: Vec<u8>,
    /// What to do to the downloadables registry.
    pub downloadable: DownloadableUpdate,
}

/// True when the client-file registry entry at `i` exists and names a
/// tracked file.
pub open spec fn tracked_visible(store: &PackUwUs, cf: Seq<Option<String>>, i: int) -> bool {
    0 <= i < cf.len() && match cf[i] {
        Some(s) => store.is_tracked(s@),
        None => false,
    }
}

impl PackUwUs {
    /// Plans a repack: nothing to do while the store is unchanged; with
    /// changes, builds the archive under a fresh identifier, lists the
    /// tracked client-file registry entries that get the pack-marker
    /// digest as user data — failing if the marker was never supplied —
    /// and finds the previously advertised archive entry to patch, if any.
    pub fn try_serve(&self, client_files: &Vec<Option<String>>, downloadables: &Vec<String>) -> (r:
        Result<Option<ServePlan>, TryServeError>)
        requires
            self.wf(),
            self.spec_packed_contents() matches Some(pc) ==> !has_nul(encode_utf8(pc)),
        ensures
            r == Ok::<Option<ServePlan>, TryServeError>(None::<ServePlan>) <==> !self.spec_content_changed(),
            !(r matches Err(TryServeError::WriteFileFailed(_))),
            r == Err::<Option<ServePlan>, TryServeError>(TryServeError::PackedContentsNotSet)
                ==> self.spec_packed_contents() is None && exists|i: int|
                tracked_visible(self, client_files@, i),
            (self.spec_content_changed() && self.spec_packed_contents() is None && exists|i: int|
                tracked_visible(self, client_files@, i)) ==> (r
                == Err::<Option<ServePlan>, TryServeError>(TryServeError::PackedContentsNotSet)
                || r matches Err(TryServeError::CompressFailed(_))),
            r matches Ok(Some(plan)) ==> {
                &&& self.spec_content_changed()
                &&& plan.archive_id@.len() == 32
                &&& forall|i: int|
                    0 <= i < plan.archive_id@.len() ==> is_hex_char(#[trigger] plan.archive_id@[i])
                &&& plan.out_path@ == spec_serve_prefix() + plan.archive_id@ + ".bsp"@
                &&& exists|blobs: Seq<Seq<u8>>|
                    #[trigger] blobs_match(self.entries(), blobs) && plan.archive@ == spec_archive(
                        self.entries(),
                        blobs,
                    )
                &&& forall|k: int|
                    0 <= k < plan.hash_updates@.len() ==> tracked_visible(
                        self,
                        client_files@,
                        #[trigger] plan.hash_updates@[k] as int,
                    )
                &&& forall|i: usize|
                    tracked_visible(self, client_files@, i as int)
                        ==> plan.hash_updates@.contains(i)
                &&& forall|k1: int, k2: int|
                    0 <= k1 < k2 < plan.hash_updates@.len()
                        ==> #[trigger] plan.hash_updates@[k1] < #[trigger] plan.hash_updates@[k2]
                &&& (self.spec_packed_contents() matches Some(pc) ==> plan.user_data@ == sha256_of(
                    nul_terminated(encode_utf8(pc)),
                ) && plan.user_data@.len() == 32)
                &&& match plan.downloadable {
                    DownloadableUpdate::Patch(i) => 0 <= i < downloadables@.len()
                        && spec_starts_with(downloadables@[i as int]@, spec_serve_prefix())
                        && forall|j: int|
                        0 <= j < i ==> !spec_starts_with(
                            (#[trigger] downloadables@[j])@,
                            spec_serve_prefix(),
                        ),
                    DownloadableUpdate::Append => forall|j: int|
                        0 <= j < downloadables@.len() ==> !spec_starts_with(
                            (#[trigger] downloadables@[j])@,
                            spec_serve_prefix(),
                        ),
                }
            },
    {
        if !self.content_changed() {
            return Ok(None);
        }
        let archive = match self.build_archive() {
            Ok(a) => a,
            Err(BuildArchiveError::CompressFailed(e)) => {
                return Err(TryServeError::CompressFailed(e));
            },
        };
        // Which client-file registry entries name tracked files.
        let cn = client_files.len();
        let mut hash_updates: Vec<usize> = Vec::new();
        let mut i: usize = 0;
        while i < cn
            invariant
                0 <= i <= cn,
                cn == client_files@.len(),
                self.wf(),
                forall|k: int|
                    0 <= k < hash_updates@.len() ==> tracked_visible(
                        self,
                        client_files@,
                        #[trigger] hash_updates@[k] as int,
                    ),
                forall|j: usize|
                    j < i && tracked_visible(self, client_files@, j as int)
                        ==> hash_updates@.contains(j),
                forall|k1: int, k2: int|
                    0 <= k1 < k2 < hash_updates@.len() ==> #[trigger] hash_updates@[k1]
                        < #[trigger] hash_updates@[k2],
                forall|k: int|
                    0 <= k < hash_updates@.len() ==> #[trigger] hash_updates@[k] < i,
            decreases cn - i,
        {
            let entry_tracked = match &client_files[i] {
                Some(s) => self.is_packed(s.as_str()),
                None => false,
            };
            let ghost pre = hash_updates@;
            if entry_tracked {
                hash_updates.push(i);
            }
            proof {
                assert forall|j: usize|
                    j < i + 1 && tracked_visible(
                        self,
                        client_files@,
                        j as int,
                    ) implies hash_updates@.contains(j) by {
                    if j < i {
                        assert(pre.contains(j));
                        let k = choose|k: int| 0 <= k < pre.len() && pre[k] == j;
                        assert(hash_updates@[k] == j);
                    } else {
                        assert(hash_updates@[pre.len() as int] == i);
                    }
                }
            }
            i += 1;
        }
        // The digest those entries get as user data.
        let user_data: Vec<u8> = match self.packed_contents() {
            Some(pc) => {
                let mut marker: Vec<u8> = vstd::slice::slice_to_vec(pc.as_str().as_bytes());
                marker.push(0u8);
                sha256(marker.as_slice())
            },
            None => {
                if hash_updates.len() > 0 {
                    proof {
                        let k0 = hash_updates@[0];
                        assert(tracked_visible(self, client_files@, k0 as int));
                    }
                    return Err(TryServeError::PackedContentsNotSet);
                }
                proof {
                    assert forall|ii: int| !tracked_visible(self, client_files@, ii) by {
                        if 0 <= ii < client_files@.len() && tracked_visible(
                            self,
                            client_files@,
                            ii,
                        ) {
                            assert(hash_updates@.contains(ii as usize));
                        }
                    }
                }
                Vec::new()
            },
        };
        // Where the downloadables registry advertises the archive.
        let dn = downloadables.len();
        let mut downloadable = DownloadableUpdate::Append;
        let mut d: usize = 0;
        let mut found = false;
        while d < dn && !found
            invariant
                0 <= d <= dn,
                dn == downloadables@.len(),
                found ==> d >= 1 && downloadable == DownloadableUpdate::Patch((d - 1) as usize)
                    && spec_starts_with(downloadables@[d - 1]@, spec_serve_prefix()),
                forall|j: int|
                    0 <= j < (if found {
                        d - 1
                    } else {
                        d as int
                    }) ==> !spec_starts_with((#[trigger] downloadables@[j])@, spec_serve_prefix()),
                !found ==> downloadable == DownloadableUpdate::Append,
            decreases dn - d + (if found {
                0int
            } else {
                1int
            }),
        {
            if crate::store::str_starts_with(downloadables[d].as_str(), "data/serve_packuwus/") {
                downloadable = DownloadableUpdate::Patch(d);
                found = true;
            }
            d += 1;
        }
        let archive_id = fresh_archive_id();
        let mut out_path = String::new();
        out_path.append("data/serve_packuwus/");
        out_path.append(archive_id.as_str());
        out_path.append(".bsp");
        proof {
            assert(out_path@ =~= spec_serve_prefix() + archive_id@ + ".bsp"@);
        }
        Ok(
            Some(
                ServePlan { archive_id, out_path, archive, hash_updates, user_data, downloadable },
            ),
        )
    }

    /// Decides what a single-file download interception sends: where the
    /// registry names a tracked file and the pack marker is set, a fresh
    /// download packet carrying the marker; everywhere else nothing, and
    /// the original traffic passes through.
    pub fn download_rewrite(&self, file_id: u16, registry_path: Option<&String>) -> (r: Option<
        Vec<u8>,
    >)
        ensures
            registry_path is None ==> r is None,
            registry_path matches Some(p) && !self.is_tracked(p@) ==> r is None,
            self.spec_packed_contents() is None ==> r is None,
            r matches Some(pkt) ==> {
                &&& registry_path matches Some(p) && self.is_tracked(p@)
                &&& self.spec_packed_contents() matches Some(pc) && !has_nul(encode_utf8(pc))
                    && pkt@ == spec_download_packet(
                    file_id,
                    sha256_of(nul_terminated(encode_utf8(pc))),
                    pkt@.skip(35),
                ) && lzma_decode(pkt@.skip(35)) == Some(nul_terminated(encode_utf8(pc)))
            },
    {
        let path = match registry_path {
            Some(p) => p,
            None => {
                return None;
            },
        };
        if !self.is_packed(path.as_str()) {
            return None;
        }
        let pc = match self.packed_contents() {
            Some(pc) => pc,
            None => {
                return None;
            },
        };
        match build_lua_download_packet(file_id, pc.as_str()) {
            Ok(pkt) => Some(pkt),
            Err(_) => None,
        }
    }

    /// Applies the scripting layer's auto-refresh decision: the code to
    /// keep (the rewritten code if one came back, else the original) is
    /// stored for the file if it is tracked, and a replacement broadcast
    /// packet is built exactly when the layer asked to pack and rewrote
    /// the code. Returns whether the store took the edit, and the packet.
    pub fn handle_autorefresh(
        &mut self,
        filepath: &str,
        original_code: String,
        should_pack: bool,
        new_code: Option<String>,
    ) -> (r: (bool, Option<Vec<u8>>))
        requires
            old(self).wf(),
        ensures
            final (self).wf(),
            ({
                let saved = match new_code {
                    Some(c) => c@,
                    None => original_code@,
                };
                &&& r.0 == old(self).is_tracked(filepath@)
                &&& old(self).is_tracked(filepath@) ==> {
                    &&& final (self).entries() == old(self).entries().update(
                        old(self).path_index(filepath@),
                        (filepath@, saved),
                    )
                    &&& final (self).content_of(filepath@) == saved
                }
                &&& !old(self).is_tracked(filepath@) ==> *final (self) == *old(self)
                &&& final (self).spec_content_changed() == (old(self).spec_content_changed() || old(
                    self,
                ).is_tracked(filepath@))
                &&& final (self).spec_packed_contents() == old(self).spec_packed_contents()
                &&& (!should_pack || new_code is None) ==> r.1 is None
                &&& r.1 matches Some(pkt) ==> {
                    &&& should_pack && new_code is Some
                    &&& !has_nul(encode_utf8(filepath@)) && !has_nul(encode_utf8(saved))
                    &&& pkt@.len() >= encode_utf8(filepath@).len() + 38
                    &&& pkt@ == crate::codec::spec_autorefresh_packet(
                        encode_utf8(filepath@),
                        crate::codec::spec_size_field(
                            (pkt@.len() - encode_utf8(filepath@).len() - 38) as nat,
                        ),
                        sha256_of(nul_terminated(encode_utf8(saved))),
                        pkt@.skip(encode_utf8(filepath@).len() as int + 38),
                    )
                    &&& lzma_decode(pkt@.skip(encode_utf8(filepath@).len() as int + 38)) == Some(
                        nul_terminated(encode_utf8(saved)),
                    )
                }
            }),
    {
        let has_new = new_code.is_some();
        let code_to_save = match new_code {
            Some(c) => c,
            None => original_code,
        };
        let for_packet: Option<String> = if should_pack && has_new {
            Some(code_to_save.clone())
        } else {
            None
        };
        let edited = match self.edit_file(filepath, code_to_save) {
            Ok(()) => true,
            Err(_) => false,
        };
        let packet = match for_packet {
            Some(code) => match crate::codec::build_lua_autorefresh_packet(
                filepath,
                code.as_str(),
            ) {
                Ok(pkt) => Some(pkt),
                Err(_) => None,
            },
            None => None,
        };
        (edited, packet)
    }
}

} // verus!
