use crate::bytes::Base64Bytes;
use crate::meta::{decimal, etag, etag_of, last_modified, mime, mime_guess_of, modified_or_now};
use crate::path::{
    has_parent_segment, is_servable, is_servable_path, is_within_root, join_path, joined,
};
use crate::text::has_prefix;
use crate::table::{distinct_keys, entries_map, Table};
use std::borrow::Cow;
use vstd::prelude::*;

verus! {

/// One stored asset: its bytes, the metadata a cache needs, and any kept encoded variants of
/// the same bytes.
#[derive(Clone, Debug, PartialEq, Eq)]
pub struct MiniCdnFile {
    /// For ETAG-based caching.
    pub etag: String,
    /// For last modified caching: seconds since the Unix epoch, in decimal.
    pub last_modified: String,
    /// MIME type.
    pub mime: String,
    /// Raw bytes of file.
    pub contents: Base64Bytes,
    /// Contents compressed as Brotli.
    pub contents_brotli: Option<Base64Bytes>,
    /// Contents compressed as GZIP.
    pub contents_gzip: Option<Base64Bytes>,
    /// Contents compressed as WebP (only applies to images).
    pub contents_webp: Option<Base64Bytes>,
}

/// The record of a file read from disk: metadata derived from `path` and the bytes, and no
/// encoded variants.
pub open spec fn is_plain_record(
    f: MiniCdnFile,
    path: Seq<char>,
    contents: Seq<u8>,
    modified: Option<u64>,
    now: u64,
) -> bool {
    &&& f.mime@ == mime_guess_of(path)
    &&& f.etag@ == etag_of(contents)
    &&& f.last_modified@ == decimal(modified_or_now(modified, now) as nat)
    &&& f.contents@ == contents
    &&& f.contents_brotli is None
    &&& f.contents_gzip is None
    &&& f.contents_webp is None
}

impl MiniCdnFile {
    /// The record of a file read from disk at `path`, with no encoded variants: compression is
    /// too costly to run on every request. `modified` is the file's modification time in
    /// seconds since the Unix epoch, where the file system gives one; `now` stands in for it
    /// otherwise.
    pub fn plain(path: &str, contents: Vec<u8>, modified: Option<u64>, now: u64) -> (r: Self)
        ensures
            is_plain_record(r, path@, contents@, modified, now),
    {
        let etag = etag(contents.as_slice());
        MiniCdnFile {
            etag,
            last_modified: last_modified(modified, now),
            mime: mime(path),
            contents: Base64Bytes::from_vec(contents),
            contents_brotli: None,
            contents_gzip: None,
            contents_webp: None,
        }
    }
}

/// The map built by inserting `s` in order into `m`: a later entry replaces an earlier one
/// with the same path.
pub open spec fn inserted_all(
    m: Map<Seq<char>, MiniCdnFile>,
    s: Seq<(String, MiniCdnFile)>,
) -> Map<Seq<char>, MiniCdnFile>
    decreases s.len(),
{
    if s.len() == 0 {
        m
    } else {
        inserted_all(m.insert(s[0].0@, s[0].1), s.drop_first())
    }
}

/// A collection of files held in memory.
#[derive(Clone, Debug)]
pub struct EmbeddedMiniCdn {
    files: Table<MiniCdnFile>,
}

impl View for EmbeddedMiniCdn {
    type V = Map<Seq<char>, MiniCdnFile>;

    closed spec fn view(&self) -> Map<Seq<char>, MiniCdnFile> {
        self.files@
    }
}

impl Default for EmbeddedMiniCdn {
    fn default() -> (r: Self)
        ensures
            r.wf(),
            r@ == Map::<Seq<char>, MiniCdnFile>::empty(),
    {
        EmbeddedMiniCdn { files: Table::new() }
    }
}

impl EmbeddedMiniCdn {
    /// Well-formed: each path is held once.
    pub closed spec fn wf(&self) -> bool {
        self.files.wf()
    }

    /// A store holding the files of `entries`, inserted in order.
    pub fn from_entries(entries: Vec<(String, MiniCdnFile)>) -> (r: Self)
        ensures
            r.wf(),
            r@ == inserted_all(Map::empty(), entries@),
    {
        let mut r = EmbeddedMiniCdn::default();
        let mut rest = entries;
        while rest.len() > 0
            invariant
                r.wf(),
                inserted_all(r@, rest@) == inserted_all(Map::empty(), entries@),
            decreases rest@.len(),
        {
            let ghost before = rest@;
            let (path, file) = rest.remove(0);
            assert(rest@ =~= before.drop_first());
            r.insert(path, file);
        }
        r
    }

    /// Gets a previously embedded or inserted file. A path that no store may answer (see
    /// [`crate::is_servable_path`]) is never found.
    pub fn get(&self, path: &str) -> (r: Option<&MiniCdnFile>)
        requires
            self.wf(),
        ensures
            r is Some <==> is_servable(path@) && self@.contains_key(path@),
            r matches Some(f) ==> *f == self@[path@],
    {
        if !is_servable_path(path) {
            return None;
        }
        self.files.get(path)
    }

    /// Inserts a file, replacing any file held at the same path.
    pub fn insert(&mut self, path: String, file: MiniCdnFile)
        requires
            old(self).wf(),
        ensures
            final(self).wf(),
            final(self)@ == old(self)@.insert(path@, file),
    {
        self.files.insert(path, file);
    }

    /// Removes a file.
    pub fn remove(&mut self, path: &str)
        requires
            old(self).wf(),
        ensures
            final(self).wf(),
            final(self)@ == old(self)@.remove(path@),
    {
        self.files.remove(path);
    }

    /// The held files with their paths, in no particular order, each path once.
    pub fn iter(&self) -> (r: &[(String, MiniCdnFile)])
        requires
            self.wf(),
        ensures
            distinct_keys(r@),
            self@ == entries_map(r@),
    {
        self.files.as_slice()
    }
}

/// A collection of files read from a root directory on each access.
#[derive(Debug)]
pub struct FilesystemMiniCdn {
    root_path: Cow<'static, str>,
}

impl View for FilesystemMiniCdn {
    type V = Seq<char>;

    closed spec fn view(&self) -> Seq<char> {
        self.root_path@
    }
}

impl Clone for FilesystemMiniCdn {
    fn clone(&self) -> (r: Self)
        ensures
            r@ == self@,
    {
        FilesystemMiniCdn { root_path: Cow::Owned(self.root_path().to_owned()) }
    }
}

impl FilesystemMiniCdn {
    /// References the files. Subsequent accesses will load from the file system relative to
    /// this path.
    pub fn new(root_path: Cow<'static, str>) -> (r: Self)
        ensures
            r@ == root_path@,
    {
        FilesystemMiniCdn { root_path }
    }

    /// The root directory.
    pub fn root_path(&self) -> (r: &str)
        ensures
            r@ == self@,
    {
        match &self.root_path {
            Cow::Borrowed(s) => s,
            Cow::Owned(s) => s.as_str(),
        }
    }

    /// The path to read for a request, joined onto the root; `None` where the request may not
    /// be answered. Whatever the request, it is taken relative to the root.
    pub fn request(&self, path: &str) -> (r: Option<String>)
        ensures
            r is Some <==> is_servable(path@),
            r matches Some(p) ==> p@ == joined(self@, path@),
    {
        if !is_servable_path(path) {
            return None;
        }
        Some(join_path(self.root_path(), path))
    }

    /// The record served for a file read at `canonical_path`: none where that path does not
    /// lie under `canonical_root`, whether a `..` or a link led out of the root.
    pub fn serve(
        canonical_path: &str,
        canonical_root: &str,
        contents: Vec<u8>,
        modified: Option<u64>,
        now: u64,
    ) -> (r: Option<MiniCdnFile>)
        ensures
            r is Some <==> has_prefix(canonical_path@, canonical_root@),
            r matches Some(f) ==> is_plain_record(f, canonical_path@, contents@, modified, now),
    {
        if !is_within_root(canonical_path, canonical_root) {
            return None;
        }
        Some(MiniCdnFile::plain(canonical_path, contents, modified, now))
    }
}

/// A collection of files, either held in memory or read from the file system at run time.
#[derive(Clone, Debug)]
pub enum MiniCdn {
    Embedded(EmbeddedMiniCdn),
    Filesystem(FilesystemMiniCdn),
}

/// What a lookup in a [`MiniCdn`] comes to.
#[derive(Debug)]
pub enum Lookup<'a> {
    /// The store holds the file.
    Found(&'a MiniCdnFile),
    /// The store reads its files from disk: the file, if any, is at this path under the root.
    /// It is served only if its canonical path lies under the canonical root (see
    /// [`FilesystemMiniCdn::serve`]).
    ReadFrom(String),
    /// No file is served under that path.
    Absent,
}

/// Whether a store may answer `path` at all: an embedded store answers the paths it holds, a
/// filesystem store any path its root may hold; neither answers a path that is not servable.
pub open spec fn may_answer(cdn: MiniCdn, path: Seq<char>) -> bool {
    is_servable(path) && match cdn {
        MiniCdn::Embedded(e) => e@.contains_key(path),
        MiniCdn::Filesystem(_) => true,
    }
}

impl Default for MiniCdn {
    fn default() -> (r: Self)
        ensures
            r.wf(),
            r matches MiniCdn::Embedded(e) && e@ == Map::<Seq<char>, MiniCdnFile>::empty(),
    {
        MiniCdn::Embedded(EmbeddedMiniCdn::default())
    }
}

impl MiniCdn {
    /// Well-formed: an embedded store holds each path once.
    pub open spec fn wf(&self) -> bool {
        match self {
            MiniCdn::Embedded(e) => e.wf(),
            MiniCdn::Filesystem(_) => true,
        }
    }

    /// References the files. Subsequent accesses will load from the file system relative to
    /// this path.
    pub fn new_filesystem_from_path(root_path: Cow<'static, str>) -> (r: Self)
        ensures
            r matches MiniCdn::Filesystem(f) && f@ == root_path@,
    {
        MiniCdn::Filesystem(FilesystemMiniCdn::new(root_path))
    }

    /// Looks a file up by path. An embedded store answers from memory; a filesystem store
    /// names the path to read, which the caller reads and turns into a record with
    /// [`FilesystemMiniCdn::serve`].
    pub fn get(&self, path: &str) -> (r: Lookup<'_>)
        requires
            self.wf(),
        ensures
            r is Absent <==> !may_answer(*self, path@),
            self matches MiniCdn::Embedded(e) ==> !(r is ReadFrom) && (r matches Lookup::Found(
                f,
            ) ==> *f == e@[path@]),
            self matches MiniCdn::Filesystem(fs) ==> !(r is Found) && (r matches Lookup::ReadFrom(
                p,
            ) ==> p@ == joined(fs@, path@)),
    {
        match self {
            MiniCdn::Embedded(embedded) => match embedded.get(path) {
                Some(f) => Lookup::Found(f),
                None => Lookup::Absent,
            },
            MiniCdn::Filesystem(filesystem) => match filesystem.request(path) {
                Some(p) => Lookup::ReadFrom(p),
                None => Lookup::Absent,
            },
        }
    }

    /// Inserts a file, replacing any file held at the same path. A filesystem store first
    /// becomes an embedded store holding `listing`, the files its root yields, each read
    /// once; it stays embedded from then on. An embedded store ignores `listing`.
    pub fn insert(&mut self, path: String, file: MiniCdnFile, listing: Vec<(String, MiniCdnFile)>)
        requires
            old(self).wf(),
        ensures
            final(self).wf(),
            (*final(self)) is Embedded,
            *old(self) matches MiniCdn::Embedded(e) ==> (*final(self) matches MiniCdn::Embedded(n) && n@ == e@.insert(path@, file)),
            (*old(self)) is Filesystem ==> (*final(self) matches MiniCdn::Embedded(n) && n@
                == inserted_all(Map::empty(), listing@).insert(path@, file)),
    {
        if let MiniCdn::Filesystem(_) = self {
            *self = MiniCdn::Embedded(EmbeddedMiniCdn::from_entries(listing));
        }
        match self {
            MiniCdn::Embedded(embedded) => embedded.insert(path, file),
            MiniCdn::Filesystem(_) => {},
        }
    }
}

/// Inserting entries in order leaves a path that none of them has as `m` held it.
pub proof fn lemma_inserted_all_other(
    m: Map<Seq<char>, MiniCdnFile>,
    s: Seq<(String, MiniCdnFile)>,
    k: Seq<char>,
)
    requires
        forall|i: int| 0 <= i < s.len() ==> s[i].0@ != k,
    ensures
        inserted_all(m, s).contains_key(k) == m.contains_key(k),
        m.contains_key(k) ==> inserted_all(m, s)[k] == m[k],
    decreases s.len(),
{
    if s.len() > 0 {
        let t = s.drop_first();
        assert(s[0].0@ != k);
        assert forall|i: int| 0 <= i < t.len() implies t[i].0@ != k by {
            assert(t[i] == s[i + 1]);
        }
        lemma_inserted_all_other(m.insert(s[0].0@, s[0].1), t, k);
    }
}

/// Inserting entries with distinct paths in order leaves each under its own path.
pub proof fn lemma_inserted_all_at(
    m: Map<Seq<char>, MiniCdnFile>,
    s: Seq<(String, MiniCdnFile)>,
    i: int,
)
    requires
        distinct_keys(s),
        0 <= i < s.len(),
    ensures
        inserted_all(m, s).contains_key(s[i].0@),
        inserted_all(m, s)[s[i].0@] == s[i].1,
    decreases s.len(),
{
    let t = s.drop_first();
    let m2 = m.insert(s[0].0@, s[0].1);
    if i == 0 {
        assert forall|j: int| 0 <= j < t.len() implies t[j].0@ != s[0].0@ by {
            assert(t[j] == s[j + 1]);
        }
        lemma_inserted_all_other(m2, t, s[0].0@);
    } else {
        assert(distinct_keys(t)) by {
            assert forall|a: int, b: int|
                0 <= a < t.len() && 0 <= b < t.len() && a != b implies t[a].0@ != t[b].0@ by {
                assert(t[a] == s[a + 1]);
                assert(t[b] == s[b + 1]);
            }
        }
        assert(t[i - 1] == s[i]);
        lemma_inserted_all_at(m2, t, i - 1);
    }
}

/// An embedded store built from the files that a filesystem store yields answers each of
/// their paths with the very record the filesystem lookup produced, so with identical
/// contents.
pub proof fn lemma_embedded_agrees_with_filesystem(
    listing: Seq<(String, MiniCdnFile)>,
    i: int,
)
    requires
        distinct_keys(listing),
        0 <= i < listing.len(),
    ensures
        inserted_all(Map::empty(), listing).contains_key(listing[i].0@),
        inserted_all(Map::empty(), listing)[listing[i].0@] == listing[i].1,
        inserted_all(Map::empty(), listing)[listing[i].0@].contents == listing[i].1.contents,
{
    lemma_inserted_all_at(Map::empty(), listing, i);
}

/// Inserting into a filesystem store turns it into an embedded store that holds the inserted
/// file under its path and every other file the root yielded, unchanged.
pub proof fn lemma_insert_keeps_reachable(
    listing: Seq<(String, MiniCdnFile)>,
    path: Seq<char>,
    file: MiniCdnFile,
)
    requires
        distinct_keys(listing),
    ensures
        inserted_all(Map::empty(), listing).insert(path, file).contains_key(path),
        inserted_all(Map::empty(), listing).insert(path, file)[path] == file,
        forall|i: int|
            0 <= i < listing.len() && listing[i].0@ != path ==> #[trigger] inserted_all(
                Map::empty(),
                listing,
            ).insert(path, file).contains_key(listing[i].0@) && inserted_all(
                Map::empty(),
                listing,
            ).insert(path, file)[listing[i].0@] == listing[i].1,
{
    assert forall|i: int| 0 <= i < listing.len() && listing[i].0@ != path implies #[trigger] inserted_all(
        Map::empty(),
        listing,
    ).insert(path, file).contains_key(listing[i].0@) && inserted_all(Map::empty(), listing).insert(
        path,
        file,
    )[listing[i].0@] == listing[i].1 by {
        lemma_inserted_all_at(Map::empty(), listing, i);
    }
}

/// No store answers a path with a `..` segment, whatever it holds or reads.
pub proof fn lemma_parent_segments_absent(cdn: MiniCdn, path: Seq<char>)
    requires
        has_parent_segment(path),
    ensures
        !may_answer(cdn, path),
{
}

} // verus!
