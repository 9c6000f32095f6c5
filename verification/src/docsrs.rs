//! The pure part of the docs.rs fetch path: response-status classification,
//! gzip detection and decompression, the speculative format-version probe,
//! and schema-version mismatch classification.
//!
//! The network call itself lives outside the library; these functions take
//! the response status and body as plain values.

use vstd::prelude::*;
use crate::text::{spec_dec, u64_string};

verus! {

/// Errors from the docs.rs fetch path.
#[derive(Debug)]
pub enum DocsRsError {
    /// HTTP transport failure, carrying the upstream status.
    Http { status: u16 },
    /// Crate or version not found on docs.rs.
    NotFound { name: String, version: String },
    /// Rustdoc JSON not available (crate predates docs.rs JSON support).
    DocsNotAvailable { name: String, version: String },
    /// Failed to decompress the gzip response body.
    Decompress { name: String, cause: String },
    /// Failed to parse the rustdoc JSON.
    Parse { name: String, cause: String },
    /// Rustdoc JSON format version mismatch caused a parse failure.
    FormatMismatch { name: String, expected: u32, actual: u32, cause: String },
}

/// The human-readable message of an error.
pub open spec fn spec_error_message(e: DocsRsError) -> Seq<char> {
    match e {
        DocsRsError::Http { status } => "HTTP error: status "@ + spec_dec(status as nat),
        DocsRsError::NotFound { name, version } => "not found: "@ + name@ + " v"@ + version@,
        DocsRsError::DocsNotAvailable { name, version } => "rustdoc JSON not available for "@
            + name@ + " v"@ + version@ + " (requires docs.rs builds after 2025-05-23)"@,
        DocsRsError::Decompress { name, cause } => "failed to decompress rustdoc JSON for "@
            + name@ + ": "@ + cause@,
        DocsRsError::Parse { name, cause } => "failed to parse rustdoc JSON for "@ + name@ + ": "@
            + cause@,
        DocsRsError::FormatMismatch { name, expected, actual, cause } =>
            "failed to parse rustdoc JSON for "@ + name@ + ": docs.rs serves format v"@ + spec_dec(
            actual as nat,
        ) + " but cratesio-mcp supports v"@ + spec_dec(expected as nat)
            + " -- consider updating the rustdoc-types dependency: "@ + cause@,
    }
}

impl DocsRsError {
    /// Render the error as a human-readable message.
    pub fn message(&self) -> (r: String)
        ensures
            r@ == spec_error_message(*self),
    {
        match self {
            DocsRsError::Http { status } => {
                let mut s = String::from_str("HTTP error: status ");
                let d = u64_string(*status as u64);
                s.append(d.as_str());
                proof {
                    assert(s@ =~= spec_error_message(*self));
                }
                s
            },
            DocsRsError::NotFound { name, version } => {
                let mut s = String::from_str("not found: ");
                s.append(name.as_str());
                s.append(" v");
                s.append(version.as_str());
                proof {
                    assert(s@ =~= spec_error_message(*self));
                }
                s
            },
            DocsRsError::DocsNotAvailable { name, version } => {
                let mut s = String::from_str("rustdoc JSON not available for ");
                s.append(name.as_str());
                s.append(" v");
                s.append(version.as_str());
                s.append(" (requires docs.rs builds after 2025-05-23)");
                proof {
                    assert(s@ =~= spec_error_message(*self));
                }
                s
            },
            DocsRsError::Decompress { name, cause } => {
                let mut s = String::from_str("failed to decompress rustdoc JSON for ");
                s.append(name.as_str());
                s.append(": ");
                s.append(cause.as_str());
                proof {
                    assert(s@ =~= spec_error_message(*self));
                }
                s
            },
            DocsRsError::Parse { name, cause } => {
                let mut s = String::from_str("failed to parse rustdoc JSON for ");
                s.append(name.as_str());
                s.append(": ");
                s.append(cause.as_str());
                proof {
                    assert(s@ =~= spec_error_message(*self));
                }
                s
            },
            DocsRsError::FormatMismatch { name, expected, actual, cause } => {
                let mut s = String::from_str("failed to parse rustdoc JSON for ");
                s.append(name.as_str());
                s.append(": docs.rs serves format v");
                let a = u64_string(*actual as u64);
                s.append(a.as_str());
                s.append(" but cratesio-mcp supports v");
                let e = u64_string(*expected as u64);
                s.append(e.as_str());
                s.append(" -- consider updating the rustdoc-types dependency: ");
                s.append(cause.as_str());
                proof {
                    assert(s@ =~= spec_error_message(*self));
                }
                s
            },
        }
    }
}

/// Whether a byte stream carries the gzip magic number in its first two
/// bytes.
pub open spec fn spec_is_gzip(b: Seq<u8>) -> bool {
    b.len() >= 2 && b[0] == 0x1fu8 && b[1] == 0x8bu8
}

/// Detect the gzip magic number, independent of any declared content type.
pub fn is_gzip(bytes: &Vec<u8>) -> (r: bool)
    ensures
        r == spec_is_gzip(bytes@),
{
    bytes.len() >= 2 && bytes[0] == 0x1f && bytes[1] == 0x8b
}

/// The bytes that gzip-decompressing a stream yields, a function of the
/// stream alone.
pub uninterp spec fn gunzip_of(b: Seq<u8>) -> Seq<u8>;

/// Whether gzip-decompressing a stream succeeds, a function of the stream
/// alone.
pub uninterp spec fn gunzip_ok_of(b: Seq<u8>) -> bool;

/// Relies on flate2's `read::GzDecoder`: reading it to the end yields the
/// decompressed form of the input bytes, and whether it succeeds at all,
/// both depend on those bytes alone (the input is fully in memory, so no
/// transient read failure can intrude).
#[verifier::external_body]
fn gunzip(bytes: &Vec<u8>) -> (r: Result<Vec<u8>, String>)
    ensures
        (r is Ok) == gunzip_ok_of(bytes@),
        r matches Ok(d) ==> d@ == gunzip_of(bytes@),
{
    let mut decoder = flate2::read::GzDecoder::new(&bytes[..]);
    let mut out = Vec::new();
    match std::io::Read::read_to_end(&mut decoder, &mut out) {
        Ok(_) => Ok(out),
        Err(e) => Err(format!("{e}")),
    }
}

/// The integer `format_version` field that a speculative parse of a JSON
/// document finds, a function of the bytes alone.
pub uninterp spec fn probe_version_of(b: Seq<u8>) -> Option<u32>;

/// Relies on serde_json::from_slice: the parsed value, and so the integer
/// `format_version` field read from it, depends on the input bytes alone.
#[verifier::external_body]
fn probe_format_version(bytes: &Vec<u8>) -> (r: Option<u32>)
    ensures
        r == probe_version_of(bytes@),
{
    let v: serde_json::Value = match serde_json::from_slice(bytes) {
        Ok(v) => v,
        Err(_) => return None,
    };
    let f = match v.get("format_version") {
        Some(f) => f,
        None => return None,
    };
    let n = match f.as_u64() {
        Some(n) => n,
        None => return None,
    };
    u32::try_from(n).ok()
}

/// Classification of an HTTP response status: not found, documentation
/// unavailable, other non-success, or nothing for a success status.
pub open spec fn spec_classify_status(status: u16, name: String, version: String) -> Option<
    DocsRsError,
> {
    if status == 404 {
        Some(DocsRsError::NotFound { name, version })
    } else if status == 406 {
        Some(DocsRsError::DocsNotAvailable { name, version })
    } else if status < 200 || status > 299 {
        Some(DocsRsError::Http { status })
    } else {
        None
    }
}

/// Classify an HTTP response status before the body is read: 404 means the
/// crate or version is unknown, 406 that the build predates JSON support,
/// any other non-success status a transport failure.
pub fn classify_status(status: u16, name: String, version: String) -> (r: Option<DocsRsError>)
    ensures
        r == spec_classify_status(status, name, version),
{
    if status == 404 {
        Some(DocsRsError::NotFound { name, version })
    } else if status == 406 {
        Some(DocsRsError::DocsNotAvailable { name, version })
    } else if status < 200 || status > 299 {
        Some(DocsRsError::Http { status })
    } else {
        None
    }
}

/// Normalize a response body: a body starting with the gzip magic number is
/// decompressed, any other body is passed through untouched.
pub fn decode_body(body: Vec<u8>, name: String) -> (r: Result<Vec<u8>, DocsRsError>)
    ensures
        spec_is_gzip(body@) ==> (r is Ok) == gunzip_ok_of(body@),
        spec_is_gzip(body@) ==> (match r {
            Ok(d) => d@ == gunzip_of(body@),
            Err(e) => e matches DocsRsError::Decompress { name: n, cause: c } && n == name,
        }),
        !spec_is_gzip(body@) ==> r == Ok::<Vec<u8>, DocsRsError>(body),
{
    if is_gzip(&body) {
        match gunzip(&body) {
            Ok(d) => Ok(d),
            Err(cause) => Err(DocsRsError::Decompress { name, cause }),
        }
    } else {
        Ok(body)
    }
}

/// The error reported when full deserialization fails: a format mismatch
/// when the speculative version probe saw a version other than the
/// supported one, a plain parse failure otherwise.
pub open spec fn spec_classify_parse_failure(
    name: String,
    cause: String,
    probed: Option<u32>,
    expected: u32,
) -> DocsRsError {
    match probed {
        Some(actual) => if actual != expected {
            DocsRsError::FormatMismatch { name, expected, actual, cause }
        } else {
            DocsRsError::Parse { name, cause }
        },
        None => DocsRsError::Parse { name, cause },
    }
}

/// Classify a full-deserialization failure, using the speculative version
/// probe to tell schema drift from plain parse errors.
pub fn classify_parse_failure(
    name: String,
    cause: String,
    probed: Option<u32>,
    expected: u32,
) -> (r: DocsRsError)
    ensures
        r == spec_classify_parse_failure(name, cause, probed, expected),
{
    match probed {
        Some(actual) => if actual != expected {
            DocsRsError::FormatMismatch { name, expected, actual, cause }
        } else {
            DocsRsError::Parse { name, cause }
        },
        None => DocsRsError::Parse { name, cause },
    }
}

/// Severity of the warning emitted when a document parses despite a
/// version difference.
#[derive(Debug, Clone, Copy, PartialEq, Eq)]
pub enum WarnLevel {
    /// No warning: versions agree or nothing was probed.
    Silent,
    /// Informational: the versions differ by at most two.
    Close,
    /// Elevated: the versions differ by more than two.
    Far,
}

/// The warning tier for a probed format version against the supported one.
pub open spec fn spec_version_warning(probed: Option<u32>, expected: u32) -> WarnLevel {
    match probed {
        Some(actual) => {
            let diff = if actual >= expected {
                actual - expected
            } else {
                expected - actual
            };
            if diff == 0 {
                WarnLevel::Silent
            } else if diff <= 2 {
                WarnLevel::Close
            } else {
                WarnLevel::Far
            }
        },
        None => WarnLevel::Silent,
    }
}

/// Grade the schema-version drift of a successfully parsed document: no
/// warning when versions agree, informational for a small difference,
/// elevated once it exceeds two.
pub fn version_warning(probed: Option<u32>, expected: u32) -> (r: WarnLevel)
    ensures
        r == spec_version_warning(probed, expected),
{
    match probed {
        Some(actual) => {
            let diff: u32 = if actual >= expected {
                actual - expected
            } else {
                expected - actual
            };
            if diff == 0 {
                WarnLevel::Silent
            } else if diff <= 2 {
                WarnLevel::Close
            } else {
                WarnLevel::Far
            }
        },
        None => WarnLevel::Silent,
    }
}

/// Interpret a docs.rs response: classify the status, normalize gzip
/// compression by inspecting the leading magic bytes, and probe the
/// format version of the resulting JSON document.
///
/// On success the caller receives the plain JSON bytes together with the
/// probed format version.
pub fn prepare_payload(status: u16, body: Vec<u8>, name: &str, version: &str) -> (r: Result<
    (Vec<u8>, Option<u32>),
    DocsRsError,
>)
    ensures
        status == 404 ==> (r matches Err(DocsRsError::NotFound { name: n, version: v }) && n@
            == name@ && v@ == version@),
        status == 406 ==> (r matches Err(DocsRsError::DocsNotAvailable { name: n, version: v })
            && n@ == name@ && v@ == version@),
        (status != 404 && status != 406 && (status < 200 || status > 299)) ==> (r matches Err(
            DocsRsError::Http { status: s },
        ) && s == status),
        (200 <= status <= 299 && spec_is_gzip(body@)) ==> (r is Ok) == gunzip_ok_of(body@),
        (200 <= status <= 299 && spec_is_gzip(body@)) ==> (match r {
            Ok((d, p)) => d@ == gunzip_of(body@) && p == probe_version_of(gunzip_of(body@)),
            Err(e) => e matches DocsRsError::Decompress { name: n, cause: c } && n@ == name@,
        }),
        (200 <= status <= 299 && !spec_is_gzip(body@)) ==> (r matches Ok((d, p)) && d@ == body@
            && p == probe_version_of(body@)),
{
    let name_s = String::from_str(name);
    let version_s = String::from_str(version);
    match classify_status(status, name_s, version_s) {
        Some(e) => Err(e),
        None => {
            let name_s2 = String::from_str(name);
            match decode_body(body, name_s2) {
                Ok(d) => {
                    let p = probe_format_version(&d);
                    Ok((d, p))
                },
                Err(e) => Err(e),
            }
        },
    }
}

} // verus!
