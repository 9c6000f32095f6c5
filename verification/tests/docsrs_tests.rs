use std::io::Write;

use cratesio_mcp::docsrs::{
    classify_parse_failure, classify_status, is_gzip, prepare_payload, version_warning,
    DocsRsError, WarnLevel,
};

fn gzip_compress(data: &[u8]) -> Vec<u8> {
    let mut encoder = flate2::write::GzEncoder::new(Vec::new(), flate2::Compression::default());
    encoder.write_all(data).unwrap();
    encoder.finish().unwrap()
}

#[test]
fn gzip_magic_detection() {
    assert!(is_gzip(&vec![0x1f, 0x8b, 0x00]));
    assert!(!is_gzip(&vec![0x1f]));
    assert!(!is_gzip(&vec![b'{', b'}']));
    assert!(!is_gzip(&vec![]));
}

#[test]
fn gzip_payload_is_decompressed_before_parsing() {
    // A byte stream starting with 0x1f 0x8b is decompressed regardless of
    // any content-type claim: the payload handed on is the decompressed
    // JSON, not the raw stream.
    let json = br#"{"format_version": 39}"#.to_vec();
    let compressed = gzip_compress(&json);
    assert!(is_gzip(&compressed));
    let out = prepare_payload(200, compressed, "serde", "latest").unwrap();
    assert_eq!(out.0, json);
    assert_eq!(out.1, Some(39));
}

#[test]
fn plain_payload_is_passed_through() {
    // A stream without the gzip magic number is parsed directly, with no
    // decompression attempted.
    let json = br#"{"format_version": 41}"#.to_vec();
    let out = prepare_payload(200, json.clone(), "serde", "latest").unwrap();
    assert_eq!(out.0, json);
    assert_eq!(out.1, Some(41));
}

#[test]
fn corrupt_gzip_yields_decompress_error() {
    let body = vec![0x1f, 0x8b, 0xff, 0x00, 0x01];
    let err = prepare_payload(200, body, "serde", "latest").unwrap_err();
    assert!(matches!(err, DocsRsError::Decompress { .. }));
}

#[test]
fn payload_without_version_probes_nothing() {
    let json = b"{}".to_vec();
    let out = prepare_payload(200, json.clone(), "serde", "latest").unwrap();
    assert_eq!(out.0, json);
    assert_eq!(out.1, None);
}

#[test]
fn status_404_is_not_found() {
    let err = prepare_payload(404, vec![], "nonexistent", "latest").unwrap_err();
    match err {
        DocsRsError::NotFound { name, version } => {
            assert_eq!(name, "nonexistent");
            assert_eq!(version, "latest");
        }
        other => panic!("expected NotFound, got: {}", other.message()),
    }
}

#[test]
fn status_406_is_docs_not_available() {
    let err = prepare_payload(406, vec![], "oldcrate", "0.1.0").unwrap_err();
    assert!(matches!(err, DocsRsError::DocsNotAvailable { .. }));
}

#[test]
fn other_error_status_is_http_error() {
    let err = prepare_payload(500, vec![], "x", "1").unwrap_err();
    match err {
        DocsRsError::Http { status } => assert_eq!(status, 500),
        other => panic!("expected Http, got: {}", other.message()),
    }
}

#[test]
fn classify_status_success_is_none() {
    assert!(classify_status(200, "a".to_string(), "b".to_string()).is_none());
    assert!(classify_status(299, "a".to_string(), "b".to_string()).is_none());
    assert!(classify_status(301, "a".to_string(), "b".to_string()).is_some());
}

#[test]
fn format_mismatch_error_carries_versions() {
    // A parse failure with a probed version different from the supported
    // one is a FormatMismatch carrying both version numbers, not a
    // generic Parse error.
    let err = classify_parse_failure("badcrate".to_string(), "bad".to_string(), Some(44), 39);
    match &err {
        DocsRsError::FormatMismatch { name, expected, actual, .. } => {
            assert_eq!(name, "badcrate");
            assert_eq!(*expected, 39);
            assert_eq!(*actual, 44);
        }
        other => panic!("expected FormatMismatch, got: {}", other.message()),
    }
    let msg = err.message();
    assert!(msg.contains("format v"));
    assert!(msg.contains("consider updating the rustdoc-types dependency"));
}

#[test]
fn parse_failure_with_matching_version_is_plain_parse() {
    let err = classify_parse_failure("bad".to_string(), "oops".to_string(), Some(39), 39);
    assert!(matches!(err, DocsRsError::Parse { .. }));
    let err2 = classify_parse_failure("bad".to_string(), "oops".to_string(), None, 39);
    assert!(matches!(err2, DocsRsError::Parse { .. }));
}

#[test]
fn version_drift_warning_tiers() {
    // A successful parse with a version difference produces a warning, not
    // an error; the warning escalates once the difference exceeds two.
    assert!(matches!(version_warning(Some(39), 39), WarnLevel::Silent));
    assert!(matches!(version_warning(Some(40), 39), WarnLevel::Close));
    assert!(matches!(version_warning(Some(37), 39), WarnLevel::Close));
    assert!(matches!(version_warning(Some(42), 39), WarnLevel::Far));
    assert!(matches!(version_warning(Some(35), 39), WarnLevel::Far));
    assert!(matches!(version_warning(None, 39), WarnLevel::Silent));
}

#[test]
fn error_messages_name_the_crate() {
    let e = DocsRsError::NotFound { name: "serde".to_string(), version: "latest".to_string() };
    assert_eq!(e.message(), "not found: serde vlatest");
    let d = DocsRsError::Decompress { name: "serde".to_string(), cause: "bad header".to_string() };
    assert_eq!(d.message(), "failed to decompress rustdoc JSON for serde: bad header");
    let h = DocsRsError::Http { status: 502 };
    assert_eq!(h.message(), "HTTP error: status 502");
}
