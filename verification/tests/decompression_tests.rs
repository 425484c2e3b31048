use std::io::Write;

use flate2::{write::GzEncoder, write::ZlibEncoder, Compression};
use heirloom_backend::decompression::{
    accept_decoded, decompress_body, decompress_deflate, decompress_gzip, ContentEncoding,
    DecompressionConfig,
};
use heirloom_backend::strmap::StrMap;

fn gzip_encode(data: &[u8]) -> Vec<u8> {
    let mut encoder = GzEncoder::new(Vec::new(), Compression::default());
    encoder.write_all(data).unwrap();
    encoder.finish().unwrap()
}

fn deflate_encode(data: &[u8]) -> Vec<u8> {
    let mut encoder = ZlibEncoder::new(Vec::new(), Compression::default());
    encoder.write_all(data).unwrap();
    encoder.finish().unwrap()
}

#[test]
fn test_content_encoding_from_header() {
    assert_eq!(ContentEncoding::from_header("gzip"), ContentEncoding::Gzip);
    assert_eq!(
        ContentEncoding::from_header("x-gzip"),
        ContentEncoding::Gzip
    );
    assert_eq!(
        ContentEncoding::from_header("deflate"),
        ContentEncoding::Deflate
    );
    assert_eq!(
        ContentEncoding::from_header("identity"),
        ContentEncoding::Identity
    );
    assert_eq!(ContentEncoding::from_header(""), ContentEncoding::Identity);
    assert_eq!(
        ContentEncoding::from_header("br"),
        ContentEncoding::Unknown("br".to_string())
    );
}

#[test]
fn test_decompress_gzip_roundtrip() {
    let original = b"hello heirloom-protocol vault data";
    let compressed = gzip_encode(original);
    let decompressed = decompress_gzip(&compressed, 1024).unwrap();
    assert_eq!(decompressed, original);
}

#[test]
fn test_decompress_deflate_roundtrip() {
    let original = b"hello heirloom-protocol deflate data";
    let compressed = deflate_encode(original);
    let decompressed = decompress_deflate(&compressed, 1024).unwrap();
    assert_eq!(decompressed, original);
}

#[test]
fn test_decompress_gzip_exceeds_limit() {
    // Compress a 100-byte payload but allow only 50 bytes out.
    let original = vec![b'x'; 100];
    let compressed = gzip_encode(&original);
    let result = decompress_gzip(&compressed, 50);
    assert!(result.is_err());
    assert!(result.unwrap_err().contains("exceeds limit"));
}

#[test]
fn test_decompress_body_gzip() {
    let config = DecompressionConfig::default();
    let original = b"vault payload compressed";
    let compressed = gzip_encode(original);
    let out = decompress_body(&compressed, "gzip", &config).unwrap();
    assert_eq!(out, original);
}

#[test]
fn test_decompress_body_identity_passthrough() {
    let config = DecompressionConfig::default();
    let data = b"plain body no encoding";
    let out = decompress_body(data, "identity", &config).unwrap();
    assert_eq!(out, data);
}

#[test]
fn test_decompress_body_disabled() {
    let config = DecompressionConfig {
        enabled: false,
        ..Default::default()
    };
    // Even gzip bytes should pass through unchanged when disabled.
    let original = b"raw bytes";
    let out = decompress_body(original, "gzip", &config).unwrap();
    assert_eq!(out, original);
}

#[test]
fn test_config_defaults() {
    let cfg = DecompressionConfig::default();
    assert_eq!(cfg.max_body_bytes, 10 * 1024 * 1024);
    assert!(cfg.enabled);
}

#[test]
fn test_config_from_env() {
    let mut vars: StrMap<String> = StrMap::new();
    vars.insert("DECOMP_MAX_BODY_BYTES".to_string(), "2048".to_string());
    vars.insert("DECOMP_ENABLED".to_string(), "true".to_string());
    let cfg = DecompressionConfig::from_env(&vars);
    assert_eq!(cfg.max_body_bytes, 2048);
    assert!(cfg.enabled);
}

#[test]
fn test_config_disabled_via_env() {
    let mut vars: StrMap<String> = StrMap::new();
    vars.insert("DECOMP_ENABLED".to_string(), "false".to_string());
    let cfg = DecompressionConfig::from_env(&vars);
    assert!(!cfg.enabled);
}

#[test]
fn a_body_that_is_not_compressed_is_refused() {
    let config = DecompressionConfig::default();
    assert!(decompress_body(b"no gzip at all", "gzip", &config).is_err());
    assert!(decompress_body(b"no zlib at all", "deflate", &config).is_err());
    assert_eq!(decompress_body(b"x", "br", &config), Ok(b"x".to_vec()));
}

#[test]
fn a_decoded_body_is_held_to_the_limit() {
    assert_eq!(accept_decoded(Ok(vec![1, 2]), "failed", 2), Ok(vec![1, 2]));
    assert!(accept_decoded(Ok(vec![1, 2, 3]), "failed", 2).is_err());
    assert!(accept_decoded(Err("bad".to_string()), "failed", 2).unwrap_err().contains("bad"));
    let packed = deflate_encode(&[b'x'; 100]);
    assert!(decompress_deflate(&packed, 50).is_err());
}
