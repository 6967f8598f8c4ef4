//! A static-asset content store: files held in memory or read from a root directory, each
//! served with its MIME type, a content hash, a modification time and, optionally, smaller
//! precomputed encodings of its bytes.
//!
//! Reading the disk, walking directories, parsing descriptor files and transcoding images
//! happen around this crate; it makes every decision on the values they produce: which
//! requests may be answered and where they are read from, the metadata of each file, which
//! encoded variants are kept, and which descriptor configures which asset.
pub mod bytes;
pub mod compress;
pub mod meta;
pub mod path;
pub mod scan;
pub mod store;
pub mod table;
pub mod text;

pub use crate::bytes::{Base64Bytes, ByteBuf};
pub use crate::compress::{
    compress, keep_if_smaller, webp_target_for, Config, RasterFormat, Variants, WebpQuality, WebpTarget,
};
pub use crate::meta::{decimal_text, etag, last_modified};
pub use crate::path::{
    asset_stem, descriptor_target, is_servable_path, is_within_root, join_path, logical_path,
    scan_order, CONFIG_SUFFIX,
};
pub use crate::scan::CompressedScan;
pub use crate::store::{EmbeddedMiniCdn, FilesystemMiniCdn, Lookup, MiniCdn, MiniCdnFile};
