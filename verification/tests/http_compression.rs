use std::io::Write;
use hurl_lib::compression::{CompressionCodec, CompressionConfig, Decompressor};

#[test]
fn compression_test_compression_codec_gzip() {
    assert_eq!(CompressionCodec::Gzip.as_header_value(), "gzip");
    assert_eq!(
        CompressionCodec::from_header_value("gzip"),
        Some(CompressionCodec::Gzip)
    );
}

#[test]
fn compression_test_compression_codec_deflate() {
    assert_eq!(CompressionCodec::Deflate.as_header_value(), "deflate");
    assert_eq!(
        CompressionCodec::from_header_value("deflate"),
        Some(CompressionCodec::Deflate)
    );
}

#[test]
fn compression_test_compression_codec_brotli() {
    assert_eq!(CompressionCodec::Brotli.as_header_value(), "br");
    assert_eq!(
        CompressionCodec::from_header_value("br"),
        Some(CompressionCodec::Brotli)
    );
}

#[test]
fn test_compression_config_default() {
    let config = CompressionConfig::new();
    assert!(config.enabled);
    assert_eq!(config.codecs.len(), 1);
    assert_eq!(config.min_size_bytes, 1024);
}

#[test]
fn compression_test_compression_config_disabled() {
    let config = CompressionConfig::disabled();
    assert!(!config.enabled);
}

#[test]
fn compression_test_accept_encoding_header() {
    let config =
        CompressionConfig::new().with_codecs(vec![CompressionCodec::Gzip, CompressionCodec::Brotli]);
    let header = config.accept_encoding_header();
    assert!(header.contains("gzip"));
    assert!(header.contains("br"));
}

#[test]
fn compression_test_compression_codec_case_insensitive() {
    assert_eq!(
        CompressionCodec::from_header_value("GZIP"),
        Some(CompressionCodec::Gzip)
    );
    assert_eq!(
        CompressionCodec::from_header_value("GzIp"),
        Some(CompressionCodec::Gzip)
    );
}

#[test]
fn compression_test_compression_config_with_codecs() {
    let config = CompressionConfig::new()
        .with_codecs(vec![CompressionCodec::Deflate, CompressionCodec::Brotli]);
    assert_eq!(config.codecs.len(), 2);
    assert_eq!(config.codecs[0], CompressionCodec::Deflate);
    assert_eq!(config.codecs[1], CompressionCodec::Brotli);
}

#[test]
fn compression_test_compression_config_with_min_size() {
    let config = CompressionConfig::new().with_min_size(2048);
    assert_eq!(config.min_size_bytes, 2048);
}

#[test]
fn test_unknown_codec() {
    assert_eq!(CompressionCodec::from_header_value("unknown"), None);
}

#[test]
fn tests_test_compression_codec_gzip() {
    assert_eq!(CompressionCodec::Gzip.as_header_value(), "gzip");
}

#[test]
fn tests_test_compression_codec_deflate() {
    assert_eq!(CompressionCodec::Deflate.as_header_value(), "deflate");
}

#[test]
fn tests_test_compression_codec_brotli() {
    assert_eq!(CompressionCodec::Brotli.as_header_value(), "br");
}

#[test]
fn test_compression_codec_from_header_gzip() {
    assert_eq!(
        CompressionCodec::from_header_value("gzip"),
        Some(CompressionCodec::Gzip)
    );
}

#[test]
fn test_compression_codec_from_header_deflate() {
    assert_eq!(
        CompressionCodec::from_header_value("deflate"),
        Some(CompressionCodec::Deflate)
    );
}

#[test]
fn test_compression_codec_from_header_br() {
    assert_eq!(
        CompressionCodec::from_header_value("br"),
        Some(CompressionCodec::Brotli)
    );
}

#[test]
fn tests_test_compression_codec_case_insensitive() {
    assert_eq!(
        CompressionCodec::from_header_value("GZIP"),
        Some(CompressionCodec::Gzip)
    );
}

#[test]
fn test_compression_codec_unknown() {
    assert_eq!(CompressionCodec::from_header_value("unknown"), None);
}

#[test]
fn test_compression_config_new() {
    let config = CompressionConfig::new();
    assert!(config.enabled);
    assert_eq!(config.codecs.len(), 1);
    assert_eq!(config.min_size_bytes, 1024);
}

#[test]
fn tests_test_compression_config_disabled() {
    let config = CompressionConfig::disabled();
    assert!(!config.enabled);
}

#[test]
fn tests_test_compression_config_with_codecs() {
    let config = CompressionConfig::new()
        .with_codecs(vec![CompressionCodec::Gzip, CompressionCodec::Brotli]);
    assert_eq!(config.codecs.len(), 2);
}

#[test]
fn tests_test_compression_config_with_min_size() {
    let config = CompressionConfig::new().with_min_size(2048);
    assert_eq!(config.min_size_bytes, 2048);
}

#[test]
fn tests_test_accept_encoding_header() {
    let config =
        CompressionConfig::new().with_codecs(vec![CompressionCodec::Gzip, CompressionCodec::Brotli]);
    let header = config.accept_encoding_header();
    assert!(header.contains("gzip"));
    assert!(header.contains("br"));
}

#[test]
fn test_compression_config_multiple_codecs() {
    let config = CompressionConfig::new().with_codecs(vec![
        CompressionCodec::Gzip,
        CompressionCodec::Brotli,
        CompressionCodec::Deflate,
    ]);
    let header = config.accept_encoding_header();
    assert!(header.contains("gzip"));
    assert!(header.contains("br"));
    assert!(header.contains("deflate"));
    assert_eq!(header, "gzip, br, deflate");
}

#[test]
fn test_gzip_round_trip() {
    let original = b"hello, compressed world".to_vec();
    let mut encoder = flate2::write::GzEncoder::new(Vec::new(), flate2::Compression::default());
    encoder.write_all(&original).unwrap();
    let compressed = encoder.finish().unwrap();
    let decompressed = Decompressor::decompress(&compressed, CompressionCodec::Gzip).unwrap();
    assert_eq!(decompressed, original);
}

#[test]
fn test_deflate_round_trip() {
    let original = b"deflated text".to_vec();
    let mut encoder =
        flate2::write::DeflateEncoder::new(Vec::new(), flate2::Compression::default());
    encoder.write_all(&original).unwrap();
    let compressed = encoder.finish().unwrap();
    let decompressed = Decompressor::decompress(&compressed, CompressionCodec::Deflate).unwrap();
    assert_eq!(decompressed, original);
}

#[test]
fn test_decompress_malformed_gzip() {
    let garbage = vec![1u8, 2, 3, 4];
    assert!(Decompressor::decompress(&garbage, CompressionCodec::Gzip).is_err());
}

#[test]
fn test_auto_decompress_passthrough() {
    let data = vec![10u8, 20, 30];
    let out = Decompressor::auto_decompress(&data, None).unwrap();
    assert_eq!(out, data);
    let out2 = Decompressor::auto_decompress(&data, Some("identity")).unwrap();
    assert_eq!(out2, data);
}

#[test]
fn test_brotli_round_trip() {
    let original = b"brotli payload".to_vec();
    let mut compressed = Vec::new();
    {
        let mut writer = brotli::CompressorWriter::new(&mut compressed, 4096, 5, 22);
        writer.write_all(&original).unwrap();
    }
    let decompressed = Decompressor::decompress(&compressed, CompressionCodec::Brotli).unwrap();
    assert_eq!(decompressed, original);
}
