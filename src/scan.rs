use crate::bytes::Base64Bytes;
use crate::compress::{
    brotli_encoding, compress, default_config, gzip_encoding, is_webp_source, kept,
    webp_target_for, webp_target_of, worth_keeping, Config, WebpTarget,
};
use crate::meta::{decimal, etag, etag_of, last_modified, mime, mime_guess_of, modified_or_now};
use crate::path::{asset_stem, is_within_root, stem};
use crate::text::has_prefix;
use crate::store::{EmbeddedMiniCdn, MiniCdnFile};
use crate::table::{lists_exactly, Table};
use vstd::prelude::*;

verus! {

/// An optional byte vector as an optional payload.
pub open spec fn payload_of(v: Option<Vec<u8>>) -> Option<Seq<u8>> {
    match v {
        Some(b) => Some(b@),
        None => None,
    }
}

/// An optional payload's bytes.
pub open spec fn bytes_of(v: Option<Base64Bytes>) -> Option<Seq<u8>> {
    match v {
        Some(b) => Some(b@),
        None => None,
    }
}

/// The record of an asset embedded with compression: metadata derived from `path` and the
/// bytes, and the variants that the compression pipeline keeps under `config`, given the
/// WebP transcoding `webp_attempt`.
pub open spec fn is_compressed_record(
    f: MiniCdnFile,
    path: Seq<char>,
    contents: Seq<u8>,
    modified: Option<u64>,
    now: u64,
    config: Config,
    webp_attempt: Option<Vec<u8>>,
) -> bool {
    &&& f.mime@ == mime_guess_of(path)
    &&& f.etag@ == etag_of(contents)
    &&& f.last_modified@ == decimal(modified_or_now(modified, now) as nat)
    &&& f.contents@ == contents
    &&& bytes_of(f.contents_webp) == (if is_webp_source(mime_guess_of(path)) {
        payload_of(kept(webp_attempt, contents.len() as int))
    } else {
        None
    })
    &&& f.contents_webp is Some ==> f.contents_brotli is None && f.contents_gzip is None
    &&& f.contents_brotli matches Some(b) ==> b@ == brotli_encoding(
        contents,
        config.brotli_buffer_size,
        config.brotli_level,
        config.brotli_large_window_size,
    ) && worth_keeping(b@.len() as int, contents.len() as int)
    &&& f.contents_gzip matches Some(g) ==> g@ == gzip_encoding(contents, config.gzip_level)
        && worth_keeping(g@.len() as int, contents.len() as int)
    &&& f.contents_webp is None ==> (f.contents_brotli is Some <==> worth_keeping(
        brotli_encoding(
            contents,
            config.brotli_buffer_size,
            config.brotli_level,
            config.brotli_large_window_size,
        ).len() as int,
        contents.len() as int,
    ))
    &&& f.contents_webp is None ==> (f.contents_gzip is Some <==> worth_keeping(
        gzip_encoding(contents, config.gzip_level).len() as int,
        contents.len() as int,
    ))
}

fn into_payload(v: Option<Vec<u8>>) -> (r: Option<Base64Bytes>)
    ensures
        bytes_of(r) == payload_of(v),
{
    match v {
        Some(b) => Some(Base64Bytes::from_vec(b)),
        None => None,
    }
}

/// A scan that embeds a directory tree with compressed variants, fed one file at a time in
/// scan order: descriptor files of a directory before the other files.
///
/// Each descriptor is held under the name of the asset it configures until an asset with
/// that stem takes it; one that no asset takes fails the scan.
pub struct CompressedScan {
    store: EmbeddedMiniCdn,
    pending: Table<Config>,
}

impl CompressedScan {
    /// Well-formed: the store and the pending descriptors hold each name once, and every
    /// pending descriptor holds parameters the codecs accept.
    pub closed spec fn wf(&self) -> bool {
        &&& self.store.wf()
        &&& self.pending.wf()
        &&& forall|k: Seq<char>| #[trigger]
            self.pending@.contains_key(k) ==> self.pending@[k].is_valid()
    }

    /// The assets embedded so far, by path.
    pub closed spec fn stored(&self) -> Map<Seq<char>, MiniCdnFile> {
        self.store@
    }

    /// The descriptors that no asset has taken yet, by the name they configure.
    pub closed spec fn pending(&self) -> Map<Seq<char>, Config> {
        self.pending@
    }

    /// A scan that has seen no file.
    pub fn new() -> (r: Self)
        ensures
            r.wf(),
            r.stored() == Map::<Seq<char>, MiniCdnFile>::empty(),
            r.pending() == Map::<Seq<char>, Config>::empty(),
    {
        CompressedScan { store: EmbeddedMiniCdn::default(), pending: Table::new() }
    }

    /// Records a parsed descriptor for the asset `name` (see [`crate::descriptor_target`]); a
    /// later descriptor for the same name replaces an earlier one.
    pub fn add_descriptor(&mut self, name: String, config: Config)
        requires
            old(self).wf(),
            config.is_valid(),
        ensures
            final(self).wf(),
            final(self).pending() == old(self).pending().insert(name@, config),
            final(self).stored() == old(self).stored(),
    {
        self.pending.insert(name, config);
    }

    /// The parameters for the asset at `relative_path`: those of the descriptor pending under
    /// its stem, which is taken, or the defaults.
    pub fn take_config(&mut self, relative_path: &str) -> (r: Config)
        requires
            old(self).wf(),
        ensures
            final(self).wf(),
            r.is_valid(),
            r == (if old(self).pending().contains_key(stem(relative_path@)) {
                old(self).pending()[stem(relative_path@)]
            } else {
                default_config()
            }),
            final(self).pending() == old(self).pending().remove(stem(relative_path@)),
            final(self).stored() == old(self).stored(),
    {
        let name = asset_stem(relative_path);
        match self.pending.remove(name.as_str()) {
            Some(config) => config,
            None => Config::default(),
        }
    }

    /// How the asset at `relative_path` is to be transcoded to WebP under `config`, if at all.
    pub fn webp_target(relative_path: &str, config: &Config) -> (r: Option<WebpTarget>)
        ensures
            r == webp_target_of(mime_guess_of(relative_path@), *config),
            r is Some <==> is_webp_source(mime_guess_of(relative_path@)),
    {
        let mime = mime(relative_path);
        webp_target_for(mime.as_str(), config)
    }

    /// Embeds an asset found at `canonical_path`: derives its metadata and runs the
    /// compression pipeline on it. A file whose canonical path does not lie under the
    /// canonical root (reached through a link that leaves the root) is skipped.
    /// `webp_attempt` is the asset transcoded as [`CompressedScan::webp_target`] asks, or
    /// `None`; `modified` and `now` are as for [`MiniCdnFile::plain`].
    pub fn add_file(
        &mut self,
        relative_path: String,
        canonical_path: &str,
        canonical_root: &str,
        contents: Vec<u8>,
        modified: Option<u64>,
        now: u64,
        config: &Config,
        webp_attempt: Option<Vec<u8>>,
    )
        requires
            old(self).wf(),
            config.is_valid(),
        ensures
            final(self).wf(),
            final(self).pending() == old(self).pending(),
            !has_prefix(canonical_path@, canonical_root@) ==> final(self).stored() == old(
                self,
            ).stored(),
            has_prefix(canonical_path@, canonical_root@) ==> final(self).stored().dom() == old(
                self,
            ).stored().dom().insert(relative_path@),
            has_prefix(canonical_path@, canonical_root@) ==> forall|k: Seq<char>|
                k != relative_path@ && old(self).stored().contains_key(k)
                    ==> final(self).stored()[k] == old(self).stored()[k],
            has_prefix(canonical_path@, canonical_root@) ==> is_compressed_record(
                final(self).stored()[relative_path@],
                relative_path@,
                contents@,
                modified,
                now,
                *config,
                webp_attempt,
            ),
    {
        if !is_within_root(canonical_path, canonical_root) {
            return;
        }
        let mime = mime(relative_path.as_str());
        let variants = compress(contents.as_slice(), mime.as_str(), config, webp_attempt);
        let file = MiniCdnFile {
            etag: etag(contents.as_slice()),
            last_modified: last_modified(modified, now),
            mime,
            contents: Base64Bytes::from_vec(contents),
            contents_brotli: into_payload(variants.brotli),
            contents_gzip: into_payload(variants.gzip),
            contents_webp: into_payload(variants.webp),
        };
        self.store.insert(relative_path, file);
    }

    /// Ends the scan: the embedded store, or, where descriptors were left that no asset took,
    /// their names, each once.
    pub fn finish(self) -> (r: Result<EmbeddedMiniCdn, Vec<String>>)
        requires
            self.wf(),
        ensures
            r is Ok <==> self.pending().dom() == Set::<Seq<char>>::empty(),
            r matches Ok(e) ==> e.wf() && e@ == self.stored(),
            r matches Err(names) ==> lists_exactly(names@, self.pending().dom()),
    {
        if self.pending.is_empty() {
            Ok(self.store)
        } else {
            Err(self.pending.keys())
        }
    }
}

/// A descriptor registered for a name configures the asset whose stem is that name, and once
/// that asset takes it, it is no longer pending.
pub proof fn lemma_descriptor_consumed(
    pending: Map<Seq<char>, Config>,
    name: Seq<char>,
    config: Config,
    asset: Seq<char>,
)
    requires
        stem(asset) == name,
    ensures
        pending.insert(name, config).contains_key(stem(asset)),
        pending.insert(name, config)[stem(asset)] == config,
        !pending.insert(name, config).remove(stem(asset)).contains_key(name),
{
}

} // verus!
