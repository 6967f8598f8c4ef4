use crate::text::same_text;
use vstd::prelude::*;

verus! {

/// How an image is transcoded to WebP.
#[derive(Clone, Copy, Debug, PartialEq, Eq, Structural)]
pub enum WebpQuality {
    /// Lossy, at this quality from 0 to 100.
    Lossy(u8),
    /// Lossless.
    Lossless,
}

/// The codec parameters used for one asset; a descriptor file may override them.
#[derive(Clone, Copy, Debug, PartialEq, Eq, Structural)]
pub struct Config {
    /// Brotli quality, 0 to 11.
    pub brotli_level: u8,
    /// Size of the Brotli writer's buffer.
    pub brotli_buffer_size: usize,
    /// Base-2 logarithm of the Brotli window.
    pub brotli_large_window_size: u8,
    /// Gzip compression level, 0 to 9.
    pub gzip_level: u8,
    /// How PNG and JPEG images are transcoded to WebP.
    pub webp_quality: WebpQuality,
}

impl Config {
    /// Parameters the codecs accept: a gzip level from 0 to 9.
    pub open spec fn is_valid(&self) -> bool {
        self.gzip_level <= 9
    }

    /// Whether the codecs accept these parameters.
    pub fn valid(&self) -> (r: bool)
        ensures
            r == self.is_valid(),
    {
        self.gzip_level <= 9
    }
}

/// The parameters used where no descriptor says otherwise.
pub open spec fn default_config() -> Config {
    Config {
        brotli_level: 9,
        brotli_buffer_size: 4096,
        brotli_large_window_size: 20,
        gzip_level: 8,
        webp_quality: WebpQuality::Lossy(90),
    }
}

impl Default for Config {
    fn default() -> (r: Config)
        ensures
            r == default_config(),
    {
        Config {
            brotli_level: 9,
            brotli_buffer_size: 4096,
            brotli_large_window_size: 20,
            gzip_level: 8,
            webp_quality: WebpQuality::Lossy(90),
        }
    }
}

/// An encoding of `raw_len` bytes is kept only when it is at least about 10% smaller.
pub open spec fn worth_keeping(encoded_len: int, raw_len: int) -> bool {
    encoded_len * 10 < raw_len * 9
}

/// What is kept of a candidate encoding of `raw_len` bytes.
pub open spec fn kept(candidate: Option<Vec<u8>>, raw_len: int) -> Option<Vec<u8>> {
    match candidate {
        Some(v) => if worth_keeping(v@.len() as int, raw_len) {
            Some(v)
        } else {
            None
        },
        None => None,
    }
}

/// Keeps a candidate encoding of `raw_len` bytes only when it is worth keeping.
pub fn keep_if_smaller(candidate: Option<Vec<u8>>, raw_len: usize) -> (r: Option<Vec<u8>>)
    ensures
        r == kept(candidate, raw_len as int),
{
    match candidate {
        Some(v) => {
            if (v.len() as u128) * 10 < (raw_len as u128) * 9 {
                Some(v)
            } else {
                None
            }
        },
        None => None,
    }
}

/// The Brotli stream that brotli's `CompressorWriter` writes for the bytes with these
/// parameters.
pub uninterp spec fn brotli_encoding(
    data: Seq<u8>,
    buffer_size: usize,
    quality: u8,
    lgwin: u8,
) -> Seq<u8>;

/// Relies on brotli::CompressorWriter: all of `contents` written to a writer made with this
/// buffer size, quality and window leaves the Brotli stream in the output once the writer is
/// dropped. Writing into a vector never fails, and the encoder reports no error on this path.
#[verifier::external_body]
fn brotli_compress(contents: &[u8], buffer_size: usize, quality: u8, lgwin: u8) -> (r: Option<
    Vec<u8>,
>)
    ensures
        r is Some,
        r matches Some(v) ==> v@ == brotli_encoding(contents@, buffer_size, quality, lgwin),
{
    let mut output = Vec::new();
    let mut writer = brotli::CompressorWriter::new(&mut output, buffer_size, quality as u32, lgwin as u32);
    let written = std::io::Write::write_all(&mut writer, contents);
    drop(writer);
    match written {
        Ok(()) => Some(output),
        Err(_) => None,
    }
}

/// The gzip stream that flate2's `GzEncoder` writes for the bytes at this level.
pub uninterp spec fn gzip_encoding(data: Seq<u8>, level: u8) -> Seq<u8>;

/// Relies on flate2::write::GzEncoder: all of `contents` written to an encoder at this level,
/// then `finish`, gives the gzip stream. Writing into a vector never fails; levels above 10
/// trip an assertion in the backend, so the level stays within 0 to 9.
#[verifier::external_body]
fn gzip_compress(contents: &[u8], level: u8) -> (r: Option<Vec<u8>>)
    requires
        level <= 9,
    ensures
        r is Some,
        r matches Some(v) ==> v@ == gzip_encoding(contents@, level),
{
    let level = flate2::Compression::new(level as u32);
    let mut encoder = flate2::write::GzEncoder::new(Vec::new(), level);
    match std::io::Write::write_all(&mut encoder, contents) {
        Ok(()) => encoder.finish().ok(),
        Err(_) => None,
    }
}

/// The raster image types that are transcoded to WebP.
pub open spec fn is_webp_source(mime: Seq<char>) -> bool {
    mime == "image/png"@ || mime == "image/jpeg"@
}

/// A raster image format that is transcoded to WebP.
#[derive(Clone, Copy, Debug, PartialEq, Eq, Structural)]
pub enum RasterFormat {
    Png,
    Jpeg,
}

/// How an image is to be transcoded to WebP: the format to decode it as, and the quality.
#[derive(Clone, Copy, Debug, PartialEq, Eq, Structural)]
pub struct WebpTarget {
    pub format: RasterFormat,
    pub quality: WebpQuality,
}

/// How an asset of this MIME type is to be transcoded under `config`, if at all.
pub open spec fn webp_target_of(mime: Seq<char>, config: Config) -> Option<WebpTarget> {
    if mime == "image/png"@ {
        Some(WebpTarget { format: RasterFormat::Png, quality: config.webp_quality })
    } else if mime == "image/jpeg"@ {
        Some(WebpTarget { format: RasterFormat::Jpeg, quality: config.webp_quality })
    } else {
        None
    }
}

/// How an asset of this MIME type is to be transcoded to WebP, if at all.
pub fn webp_target_for(mime: &str, config: &Config) -> (r: Option<WebpTarget>)
    ensures
        r == webp_target_of(mime@, *config),
        r is Some <==> is_webp_source(mime@),
{
    if same_text(mime, "image/png") {
        Some(WebpTarget { format: RasterFormat::Png, quality: config.webp_quality })
    } else if same_text(mime, "image/jpeg") {
        Some(WebpTarget { format: RasterFormat::Jpeg, quality: config.webp_quality })
    } else {
        None
    }
}

/// The encoded variants kept for one asset.
#[derive(Debug)]
pub struct Variants {
    /// The Brotli stream of the bytes, if kept.
    pub brotli: Option<Vec<u8>>,
    /// The gzip stream of the bytes, if kept.
    pub gzip: Option<Vec<u8>>,
    /// The image transcoded to WebP, if kept.
    pub webp: Option<Vec<u8>>,
}

/// Decides the encoded variants of an asset's bytes.
///
/// `webp_attempt` is the asset transcoded to WebP as [`webp_target_for`] asks, or `None`
/// where that was not asked or failed. A WebP variant that is worth keeping is kept and then
/// no generic compression is run; otherwise Brotli and gzip are each run and kept exactly
/// when worth keeping.
pub fn compress(contents: &[u8], mime: &str, config: &Config, webp_attempt: Option<Vec<u8>>) -> (r:
    Variants)
    requires
        config.is_valid(),
    ensures
        r.webp == (if is_webp_source(mime@) {
            kept(webp_attempt, contents@.len() as int)
        } else {
            None
        }),
        r.webp is Some ==> r.brotli is None && r.gzip is None,
        r.brotli matches Some(b) ==> b@ == brotli_encoding(
            contents@,
            config.brotli_buffer_size,
            config.brotli_level,
            config.brotli_large_window_size,
        ) && worth_keeping(b@.len() as int, contents@.len() as int),
        r.gzip matches Some(g) ==> g@ == gzip_encoding(contents@, config.gzip_level)
            && worth_keeping(g@.len() as int, contents@.len() as int),
        r.webp is None ==> (r.brotli is Some <==> worth_keeping(
            brotli_encoding(
                contents@,
                config.brotli_buffer_size,
                config.brotli_level,
                config.brotli_large_window_size,
            ).len() as int,
            contents@.len() as int,
        )),
        r.webp is None ==> (r.gzip is Some <==> worth_keeping(
            gzip_encoding(contents@, config.gzip_level).len() as int,
            contents@.len() as int,
        )),
{
    let webp = match webp_target_for(mime, config) {
        Some(_) => keep_if_smaller(webp_attempt, contents.len()),
        None => None,
    };
    if webp.is_some() {
        return Variants { brotli: None, gzip: None, webp };
    }
    let brotli = keep_if_smaller(
        brotli_compress(
            contents,
            config.brotli_buffer_size,
            config.brotli_level,
            config.brotli_large_window_size,
        ),
        contents.len(),
    );
    let gzip = keep_if_smaller(gzip_compress(contents, config.gzip_level), contents.len());
    Variants { brotli, gzip, webp: None }
}

} // verus!
