use minicdn::{
    compress, keep_if_smaller, webp_target_for, CompressedScan, Config, RasterFormat, WebpQuality,
    WebpTarget,
};
use std::io::Read;

fn noise(n: usize) -> Vec<u8> {
    let mut x: u64 = 0x9e37_79b9_7f4a_7c15;
    (0..n)
        .map(|_| {
            x ^= x << 13;
            x ^= x >> 7;
            x ^= x << 17;
            (x >> 24) as u8
        })
        .collect()
}

fn gunzip(data: &[u8]) -> Vec<u8> {
    let mut out = Vec::new();
    flate2::read::GzDecoder::new(data).read_to_end(&mut out).unwrap();
    out
}

fn unbrotli(data: &[u8]) -> Vec<u8> {
    let mut out = Vec::new();
    brotli::Decompressor::new(data, 4096).read_to_end(&mut out).unwrap();
    out
}

#[test]
fn default_config_values() {
    let c = Config::default();
    assert_eq!(c.brotli_level, 9);
    assert_eq!(c.brotli_buffer_size, 4096);
    assert_eq!(c.brotli_large_window_size, 20);
    assert_eq!(c.gzip_level, 8);
    assert_eq!(c.webp_quality, WebpQuality::Lossy(90));
}

#[test]
fn threshold_is_ten_percent() {
    assert_eq!(keep_if_smaller(Some(vec![0; 89]), 100), Some(vec![0; 89]));
    assert_eq!(keep_if_smaller(Some(vec![0; 90]), 100), None);
    assert_eq!(keep_if_smaller(Some(vec![0; 1]), 1), None);
    assert_eq!(keep_if_smaller(None, 100), None);
    assert_eq!(keep_if_smaller(Some(Vec::new()), 2), Some(Vec::new()));
}

#[test]
fn repetitive_payload_keeps_smaller_variants_that_round_trip() {
    let contents = vec![b'a'; 10_000];
    let v = compress(&contents, "text/plain", &Config::default(), None);
    assert!(v.webp.is_none());
    let b = v.brotli.expect("brotli kept");
    let g = v.gzip.expect("gzip kept");
    assert!(b.len() * 10 < contents.len() * 9);
    assert!(g.len() * 10 < contents.len() * 9);
    assert_eq!(unbrotli(&b), contents);
    assert_eq!(gunzip(&g), contents);
}

#[test]
fn text_round_trips_through_each_variant() {
    let contents = b"<html><body>hello hello hello hello hello hello</body></html>\n".repeat(50);
    let config = Config { brotli_level: 5, gzip_level: 1, ..Config::default() };
    let v = compress(&contents, "text/html", &config, None);
    assert_eq!(unbrotli(&v.brotli.expect("brotli kept")), contents);
    assert_eq!(gunzip(&v.gzip.expect("gzip kept")), contents);
}

#[test]
fn incompressible_payload_keeps_nothing() {
    let contents = noise(4096);
    let v = compress(&contents, "application/octet-stream", &Config::default(), None);
    assert!(v.brotli.is_none());
    assert!(v.gzip.is_none());
    assert!(v.webp.is_none());
}

#[test]
fn empty_payload_keeps_nothing() {
    let v = compress(&[], "text/plain", &Config::default(), None);
    assert!(v.brotli.is_none() && v.gzip.is_none() && v.webp.is_none());
}

#[test]
fn kept_webp_excludes_generic_compression() {
    let contents = vec![0u8; 1000];
    let v = compress(&contents, "image/png", &Config::default(), Some(vec![1, 2, 3]));
    assert_eq!(v.webp, Some(vec![1, 2, 3]));
    assert!(v.brotli.is_none());
    assert!(v.gzip.is_none());
}

#[test]
fn unkept_webp_falls_back_to_generic_compression() {
    let contents = vec![0u8; 1000];
    let v = compress(&contents, "image/jpeg", &Config::default(), Some(vec![0; 950]));
    assert!(v.webp.is_none());
    assert!(v.brotli.is_some());
    assert!(v.gzip.is_some());
}

#[test]
fn webp_only_for_png_and_jpeg() {
    let c = Config::default();
    let lossy = WebpQuality::Lossy(90);
    assert_eq!(
        webp_target_for("image/png", &c),
        Some(WebpTarget { format: RasterFormat::Png, quality: lossy })
    );
    assert_eq!(
        webp_target_for("image/jpeg", &c),
        Some(WebpTarget { format: RasterFormat::Jpeg, quality: lossy })
    );
    assert_eq!(webp_target_for("image/gif", &c), None);
    assert_eq!(webp_target_for("text/html", &c), None);
    let v = compress(&[0u8; 1000], "text/html", &c, Some(vec![1]));
    assert!(v.webp.is_none());
    assert!(v.gzip.is_some());
    assert_eq!(
        CompressedScan::webp_target("photo.jpg", &c),
        Some(WebpTarget { format: RasterFormat::Jpeg, quality: lossy })
    );
    assert_eq!(CompressedScan::webp_target("notes.txt", &c), None);
}

#[test]
fn descriptor_overrides_matching_asset() {
    let lossless = Config { webp_quality: WebpQuality::Lossless, gzip_level: 1, ..Config::default() };
    let mut scan = CompressedScan::new();
    scan.add_descriptor("img/logo".to_string(), lossless);
    let config = scan.take_config("img/logo.png");
    assert_eq!(config, lossless);
    assert_eq!(
        CompressedScan::webp_target("img/logo.png", &config),
        Some(WebpTarget { format: RasterFormat::Png, quality: WebpQuality::Lossless })
    );
    assert_eq!(scan.take_config("img/other.png"), Config::default());
    scan.add_file(
        "img/logo.png".to_string(),
        "/site/img/logo.png",
        "/site",
        vec![7u8; 100],
        Some(10),
        20,
        &config,
        Some(vec![1]),
    );
    let store = scan.finish().expect("no descriptor left");
    let f = store.get("img/logo.png").expect("embedded");
    assert_eq!(f.mime, "image/png");
    assert_eq!(f.last_modified, "10");
    assert_eq!(f.contents.as_slice(), &[7u8; 100][..]);
    assert_eq!(f.contents_webp.as_ref().map(|w| w.as_slice().to_vec()), Some(vec![1]));
    assert!(f.contents_brotli.is_none() && f.contents_gzip.is_none());
}

#[test]
fn orphaned_descriptor_fails_the_scan() {
    let mut scan = CompressedScan::new();
    scan.add_descriptor("missing".to_string(), Config::default());
    scan.add_descriptor("also_missing".to_string(), Config::default());
    scan.add_descriptor("index".to_string(), Config::default());
    let config = scan.take_config("index.html");
    scan.add_file(
        "index.html".to_string(),
        "/site/index.html",
        "/site",
        b"<p>hi</p>".to_vec(),
        None,
        5,
        &config,
        None,
    );
    let mut names = scan.finish().expect_err("descriptors left");
    names.sort();
    assert_eq!(names, vec!["also_missing".to_string(), "missing".to_string()]);
}

#[test]
fn scan_embeds_compressed_variants() {
    let mut scan = CompressedScan::new();
    let config = scan.take_config("big.txt");
    let contents = vec![b'z'; 5000];
    scan.add_file("big.txt".to_string(), "/site/big.txt", "/site", contents.clone(), None, 99, &config, None);
    let store = scan.finish().expect("nothing pending");
    let f = store.get("big.txt").expect("embedded");
    assert_eq!(f.mime, "text/plain");
    assert_eq!(f.last_modified, "99");
    assert_eq!(unbrotli(f.contents_brotli.as_ref().unwrap().as_slice()), contents);
    assert_eq!(gunzip(f.contents_gzip.as_ref().unwrap().as_slice()), contents);
    assert!(f.contents_webp.is_none());
}

#[test]
fn scan_skips_files_outside_root() {
    let mut scan = CompressedScan::new();
    let config = scan.take_config("link.txt");
    scan.add_file("link.txt".to_string(), "/etc/secret.txt", "/site", b"secret".to_vec(), None, 1, &config, None);
    scan.add_file("ok.txt".to_string(), "/site/ok.txt", "/site", b"fine".to_vec(), None, 1, &config, None);
    let store = scan.finish().expect("nothing pending");
    assert!(store.get("link.txt").is_none());
    assert_eq!(store.get("ok.txt").unwrap().contents.as_slice(), b"fine");
    assert_eq!(store.iter().len(), 1);
}

#[test]
fn scans_of_same_input_agree() {
    let build = || {
        let mut scan = CompressedScan::new();
        let config = scan.take_config("a.txt");
        scan.add_file("a.txt".to_string(), "/r/a.txt", "/r", vec![b'q'; 3000], Some(5), 6, &config, None);
        scan.finish().expect("nothing pending")
    };
    let (s1, s2) = (build(), build());
    assert_eq!(s1.get("a.txt"), s2.get("a.txt"));
    assert!(s1.get("a.txt").unwrap().contents_brotli.is_some());
    assert!(s1.get("a.txt").unwrap().contents_gzip.is_some());
}

#[test]
fn config_validity() {
    assert!(Config::default().valid());
    assert!(Config { gzip_level: 9, ..Config::default() }.valid());
    assert!(!Config { gzip_level: 10, ..Config::default() }.valid());
}
