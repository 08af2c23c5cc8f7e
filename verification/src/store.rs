//! The pack store: the registry of tracked script files and their current
//! (possibly rewritten) contents, a dirty flag that records whether anything
//! changed since the last repack, and the externally supplied pack-marker
//! content. Builds the combined servable archive blob.

use vstd::prelude::*;
use vstd::bytes::{spec_u64_to_le_bytes, u64_to_le_bytes};
use vstd::string::{StrSliceExecFns, StringExecFns};
use vstd::utf8::encode_utf8;

use crate::codec::{lzma_compress, lzma_decode};

verus! {

/// True when `p` is a prefix of `s`.
pub open spec fn spec_starts_with(s: Seq<char>, p: Seq<char>) -> bool {
    s.len() >= p.len() && s.subrange(0, p.len() as int) == p
}

pub(crate) fn str_eq(a: &str, b: &str) -> (r: bool)
    ensures
        r == (a@ == b@),
{
    let n = a.unicode_len();
    if n != b.unicode_len() {
        return false;
    }
    let mut i: usize = 0;
    while i < n
        invariant
            0 <= i <= n,
            n == a@.len(),
            n == b@.len(),
            forall|k: int| 0 <= k < i ==> a@[k] == b@[k],
        decreases n - i,
    {
        if a.get_char(i) != b.get_char(i) {
            return false;
        }
        i += 1;
    }
    proof {
        assert(a@ =~= b@);
    }
    true
}

pub(crate) fn str_starts_with(s: &str, p: &str) -> (r: bool)
    ensures
        r == spec_starts_with(s@, p@),
{
    let pn = p.unicode_len();
    if s.unicode_len() < pn {
        return false;
    }
    let mut i: usize = 0;
    while i < pn
        invariant
            0 <= i <= pn,
            pn == p@.len(),
            s@.len() >= pn,
            forall|k: int| 0 <= k < i ==> s@[k] == p@[k],
        decreases pn - i,
    {
        if s.get_char(i) != p.get_char(i) {
            return false;
        }
        i += 1;
    }
    proof {
        assert(s@.subrange(0, pn as int) =~= p@);
    }
    true
}

/// One tracked script file's current content.
#[derive(Debug)]
pub struct PackedFile {
    pub content: String,
}

#[derive(Clone, Copy, Debug, PartialEq, Eq, Structural)]
pub enum AddFileError {
    Exists,
}

#[derive(Clone, Copy, Debug, PartialEq, Eq, Structural)]
pub enum EditFileError {
    DontExist,
}

#[derive(Clone, Copy, Debug, PartialEq, Eq, Structural)]
pub enum BuildArchiveError {
    CompressFailed(u64),
}

/// Byte layout of one archive entry: the path bytes, a NUL, the compressed
/// blob's length as a little-endian 64-bit count, then the blob itself.
pub open spec fn spec_entry_bytes(path: Seq<char>, blob: Seq<u8>) -> Seq<u8> {
    encode_utf8(path) + seq![0u8] + spec_u64_to_le_bytes(blob.len() as u64) + blob
}

/// Byte layout of the whole archive: the entries in store order, one blob
/// per tracked file.
pub open spec fn spec_archive(entries: Seq<(Seq<char>, Seq<char>)>, blobs: Seq<Seq<u8>>) -> Seq<u8>
    decreases entries.len(),
{
    if entries.len() == 0 {
        Seq::empty()
    } else {
        spec_archive(entries.drop_last(), blobs.drop_last()) + spec_entry_bytes(
            entries.last().0,
            blobs.last(),
        )
    }
}

/// True when `blobs` holds, for each tracked file in order, a compressed
/// stream that decompresses back to that file's content bytes.
pub open spec fn blobs_match(entries: Seq<(Seq<char>, Seq<char>)>, blobs: Seq<Seq<u8>>) -> bool {
    &&& blobs.len() == entries.len()
    &&& forall|i: int|
        0 <= i < entries.len() ==> lzma_decode(#[trigger] blobs[i]) == Some(
            encode_utf8(entries[i].1),
        )
}

/// The in-memory registry of tracked script files.
pub struct PackUwUs {
    files: Vec<(String, PackedFile)>,
    content_changed: bool,
    packed_contents: Option<String>,
}

impl PackUwUs {
    /// The tracked files as (path, content) pairs, in store order.
    pub closed spec fn entries(&self) -> Seq<(Seq<char>, Seq<char>)> {
        self.files@.map_values(|f: (String, PackedFile)| (f.0@, f.1.content@))
    }

    pub closed spec fn spec_content_changed(&self) -> bool {
        self.content_changed
    }

    pub closed spec fn spec_packed_contents(&self) -> Option<Seq<char>> {
        match self.packed_contents {
            Some(ref s) => Some(s@),
            None => None,
        }
    }

    /// Tracked paths are unique: each path names at most one file.
    pub open spec fn wf(&self) -> bool {
        forall|i: int, j: int|
            0 <= i < j < self.entries().len() ==> (#[trigger] self.entries()[i]).0 != (
            #[trigger] self.entries()[j]).0
    }

    pub open spec fn is_tracked(&self, path: Seq<char>) -> bool {
        exists|i: int| 0 <= i < self.entries().len() && (#[trigger] self.entries()[i]).0 == path
    }

    /// Index of the file tracked under `path`.
    pub open spec fn path_index(&self, path: Seq<char>) -> int {
        choose|i: int| 0 <= i < self.entries().len() && (#[trigger] self.entries()[i]).0 == path
    }

    /// Content of the file tracked under `path`.
    pub open spec fn content_of(&self, path: Seq<char>) -> Seq<char> {
        self.entries()[self.path_index(path)].1
    }

    pub fn new() -> (r: PackUwUs)
        ensures
            r.wf(),
            r.entries() == Seq::<(Seq<char>, Seq<char>)>::empty(),
            !r.spec_content_changed(),
            r.spec_packed_contents() is None,
    {
        PackUwUs { files: Vec::new(), content_changed: false, packed_contents: None }
    }

    pub fn content_changed(&self) -> (r: bool)
        ensures
            r == self.spec_content_changed(),
    {
        self.content_changed
    }

    pub fn packed_contents(&self) -> (r: Option<&String>)
        ensures
            match r {
                Some(s) => self.spec_packed_contents() == Some(s@),
                None => self.spec_packed_contents() is None,
            },
    {
        match &self.packed_contents {
            Some(s) => Some(s),
            None => None,
        }
    }

    /// Stores the pack-marker content that a repack serves for every
    /// tracked file.
    pub fn set_packed_contents(&mut self, content: String)
        ensures
            final (self).spec_packed_contents() == Some(content@),
            final (self).entries() == old(self).entries(),
            final (self).spec_content_changed() == old(self).spec_content_changed(),
            old(self).wf() ==> final (self).wf(),
    {
        self.packed_contents = Some(content);
    }

    fn find_path(&self, path: &str) -> (r: Option<usize>)
        ensures
            match r {
                Some(i) => 0 <= i < self.entries().len() && self.entries()[i as int].0 == path@,
                None => !self.is_tracked(path@),
            },
    {
        let n = self.files.len();
        let mut i: usize = 0;
        while i < n
            invariant
                0 <= i <= n,
                n == self.files@.len(),
                n == self.entries().len(),
                forall|k: int| 0 <= k < i ==> (#[trigger] self.entries()[k]).0 != path@,
            decreases n - i,
        {
            if str_eq(self.files[i].0.as_str(), path) {
                return Some(i);
            }
            i += 1;
        }
        None
    }

    /// Pure membership test: is `path` tracked?
    pub fn is_packed(&self, path: &str) -> (r: bool)
        ensures
            r == self.is_tracked(path@),
    {
        self.find_path(path).is_some()
    }

    /// Content of the file tracked under `path`, if any.
    pub fn file_content(&self, path: &str) -> (r: Option<&String>)
        requires
            self.wf(),
        ensures
            match r {
                Some(c) => self.is_tracked(path@) && c@ == self.content_of(path@),
                None => !self.is_tracked(path@),
            },
    {
        match self.find_path(path) {
            Some(i) => Some(&self.files[i].1.content),
            None => None,
        }
    }

    /// Tracks a new file under `path` with the given content; fails if the
    /// path is already tracked, and marks the store changed otherwise.
    pub fn add_file(&mut self, path: &str, content: String) -> (r: Result<(), AddFileError>)
        requires
            old(self).wf(),
        ensures
            final (self).wf(),
            old(self).is_tracked(path@) ==> r == Err::<(), AddFileError>(AddFileError::Exists)
                && *final (self) == *old(self),
            !old(self).is_tracked(path@) ==> {
                &&& r == Ok::<(), AddFileError>(())
                &&& final (self).entries() == old(self).entries().push((path@, content@))
                &&& final (self).spec_content_changed()
                &&& final (self).spec_packed_contents() == old(self).spec_packed_contents()
            },
    {
        if self.find_path(path).is_some() {
            return Err(AddFileError::Exists);
        }
        let ghost pre = self.entries();
        self.content_changed = true;
        self.files.push((path.to_owned(), PackedFile { content }));
        proof {
            assert(self.entries() =~= pre.push((path@, content@)));
        }
        Ok(())
    }

    /// Replaces the content of the file tracked under `path`; fails if the
    /// path is not tracked, and marks the store changed otherwise.
    pub fn edit_file(&mut self, path: &str, new_content: String) -> (r: Result<(), EditFileError>)
        requires
            old(self).wf(),
        ensures
            final (self).wf(),
            !old(self).is_tracked(path@) ==> r == Err::<(), EditFileError>(EditFileError::DontExist)
                && *final (self) == *old(self),
            old(self).is_tracked(path@) ==> {
                &&& r == Ok::<(), EditFileError>(())
                &&& final (self).entries() == old(self).entries().update(
                    old(self).path_index(path@),
                    (path@, new_content@),
                )
                &&& final (self).is_tracked(path@)
                &&& final (self).content_of(path@) == new_content@
                &&& final (self).spec_content_changed()
                &&& final (self).spec_packed_contents() == old(self).spec_packed_contents()
            },
    {
        match self.find_path(path) {
            None => Err(EditFileError::DontExist),
            Some(i) => {
                let ghost pre = self.entries();
                self.content_changed = true;
                let mut entry = self.files.remove(i);
                entry.1.content = new_content;
                self.files.insert(i, entry);
                proof {
                    assert(self.entries() =~= pre.update(i as int, (path@, new_content@)));
                    assert(old(self).path_index(path@) == i as int);
                    assert(self.entries()[i as int].0 == path@);
                    assert(self.is_tracked(path@));
                    assert(self.path_index(path@) == i as int);
                }
                Ok(())
            },
        }
    }

    /// Law: a successful add of `path` leaves `path` tracked and the store
    /// marked changed — so an immediate second add of the same path hits
    /// `add_file`'s already-tracked case and is rejected with `Exists`,
    /// leaving the store as it was.
    pub proof fn lemma_add_leaves_tracked(pre: PackUwUs, post: PackUwUs, path: Seq<char>, content: Seq<char>)
        requires
            !pre.is_tracked(path),
            post.entries() == pre.entries().push((path, content)),
            post.spec_content_changed(),
        ensures
            post.is_tracked(path),
            post.spec_content_changed(),
    {
        assert(post.entries()[post.entries().len() - 1].0 == path);
    }

    /// Builds the combined servable archive: for every tracked file in
    /// store order, the path bytes, a NUL, the compressed content's length
    /// as a 64-bit little-endian count, then the compressed content.
    pub fn build_archive(&self) -> (r: Result<Vec<u8>, BuildArchiveError>)
        ensures
            r matches Ok(a) ==> exists|blobs: Seq<Seq<u8>>|
                #[trigger] blobs_match(self.entries(), blobs) && a@ == spec_archive(
                    self.entries(),
                    blobs,
                ),
    {
        let n = self.files.len();
        let mut out: Vec<u8> = Vec::new();
        let ghost mut blobs = Seq::<Seq<u8>>::empty();
        let mut i: usize = 0;
        while i < n
            invariant
                0 <= i <= n,
                n == self.files@.len(),
                n == self.entries().len(),
                blobs.len() == i,
                blobs_match(self.entries().take(i as int), blobs),
                out@ == spec_archive(self.entries().take(i as int), blobs),
            decreases n - i,
        {
            let ghost pre_entries = self.entries().take(i as int);
            let ghost pre_blobs = blobs;
            let ghost pre_out = out@;
            out.extend_from_slice(self.files[i].0.as_str().as_bytes());
            out.push(0u8);
            let mut blob = match lzma_compress(self.files[i].1.content.as_str().as_bytes()) {
                Ok(b) => b,
                Err(e) => {
                    return Err(BuildArchiveError::CompressFailed(e));
                },
            };
            let ghost blob_view = blob@;
            let mut lenb = u64_to_le_bytes(blob.len() as u64);
            out.append(&mut lenb);
            out.append(&mut blob);
            proof {
                blobs = blobs.push(blob_view);
                let cur = self.entries().take(i + 1);
                assert(cur.drop_last() =~= pre_entries);
                assert(blobs.drop_last() =~= pre_blobs);
                assert(cur.last() == self.entries()[i as int]);
                assert(out@ =~= pre_out + spec_entry_bytes(self.entries()[i as int].0, blob_view));
                assert(blobs_match(cur, blobs));
            }
            i += 1;
        }
        proof {
            assert(self.entries().take(n as int) =~= self.entries());
        }
        Ok(out)
    }
}

} // verus!
