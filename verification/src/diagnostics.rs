//! Redacted diagnostic bundles: report types, integrity manifest and naming.
//!
//! The host serializes the report, writes the ZIP archive and publishes it;
//! the manifest entry, its digest and the destination rules are decided here.
use crate::hex::{encode_hex, hex_chars};
use crate::text::{ends_with_bytes, empty_string, has_suffix, push_char};
use sha2::Digest;
use vstd::prelude::*;
use vstd::string::StringSliceAdditionalSpecFns;

verus! {

/// Archive path of the report.
pub const REPORT_PATH: &'static str = "report.json";

/// Largest accepted serialized report: 256 KiB.
pub const MAX_REPORT_BYTES: usize = 262_144;

/// Spec identifier of the bundle manifest.
pub const BUNDLE_MANIFEST_SPEC: &'static str = "nimora.diagnostic-bundle-manifest/1";

/// Spec identifier of the bundle receipt.
pub const BUNDLE_RECEIPT_SPEC: &'static str = "nimora.diagnostic-bundle-receipt/1";

#[derive(Debug, Clone, PartialEq, Eq)]
pub struct DiagnosticReport {
    pub spec: String,
    pub generated_at_ms: u64,
    pub application: ApplicationSummary,
    pub system: SystemSummary,
    pub runtime: RuntimeSummary,
    pub data_protection: DataProtectionSummary,
    pub privacy: PrivacySummary,
}

#[derive(Debug, Clone, PartialEq, Eq)]
pub struct ApplicationSummary {
    pub name: String,
    pub version: String,
}

#[derive(Debug, Clone, PartialEq, Eq)]
pub struct SystemSummary {
    pub os: String,
    pub architecture: String,
}

#[derive(Debug, Clone, PartialEq, Eq)]
pub struct RuntimeSummary {
    pub startup_mode: String,
    pub startup_reason: Option<String>,
    pub safety_mode: String,
    pub outbox_pending: u64,
    pub outbox_dead_letter: u64,
}

#[derive(Debug, Clone, Copy, PartialEq, Eq, Structural)]
pub struct DataProtectionSummary {
    pub database_schema: u32,
    pub backup_count: u64,
    pub latest_backup_at_ms: Option<u64>,
    pub pending_restore: bool,
    pub last_backup_error: bool,
}

#[derive(Debug, Clone, Copy, PartialEq, Eq, Structural)]
pub struct PrivacySummary {
    pub includes_logs: bool,
    pub includes_user_content: bool,
    pub includes_secrets: bool,
    pub includes_file_paths: bool,
    pub automatically_uploaded: bool,
}

/// What the host learns about a published bundle.
#[derive(Debug, Clone, PartialEq, Eq)]
pub struct DiagnosticBundleReceipt {
    pub spec: String,
    pub bytes: u64,
    pub sha256: String,
}

/// One archived file and its integrity data.
#[derive(Debug, Clone, PartialEq, Eq)]
pub struct BundleFile {
    pub path: String,
    pub bytes: u64,
    pub sha256: String,
}

/// The integrity manifest written beside the report.
#[derive(Debug, Clone, PartialEq, Eq)]
pub struct BundleManifest {
    pub spec: String,
    pub files: Vec<BundleFile>,
}

/// Why a bundle was not exported.
#[derive(Debug, Clone, PartialEq, Eq)]
pub enum DiagnosticBundleError {
    InvalidDestination,
    ReportTooLarge,
    Io(String),
    Json(String),
    Zip(String),
}

/// The SHA-256 digest of a byte string.
pub uninterp spec fn sha256_digest(data: Seq<u8>) -> Seq<u8>;

/// SHA-256 digest (`sha2::Sha256::digest`): 32 bytes, a function of the input
/// alone.
#[verifier::external_body]
fn sha256(data: &[u8]) -> (r: Vec<u8>)
    ensures
        r@ == sha256_digest(data@),
        r@.len() == 32,
{
    sha2::Sha256::digest(data).to_vec()
}

/// Lowercase hexadecimal SHA-256 digest.
pub fn sha256_hex(data: &[u8]) -> (r: String)
    ensures
        r@ == hex_chars(sha256_digest(data@)),
        r@.len() == 64,
{
    let digest = sha256(data);
    encode_hex(digest.as_slice())
}

/// The manifest of a bundle holding one serialized report.
///
/// # Errors
///
/// Returns [`DiagnosticBundleError::ReportTooLarge`] for reports over 256 KiB.
pub fn report_manifest(report_bytes: &[u8]) -> (r: Result<BundleManifest, DiagnosticBundleError>)
    ensures
        report_bytes@.len() > MAX_REPORT_BYTES ==> r == Err::<
            BundleManifest,
            DiagnosticBundleError,
        >(DiagnosticBundleError::ReportTooLarge),
        report_bytes@.len() <= MAX_REPORT_BYTES ==> (r matches Ok(m) && m.spec@
            == BUNDLE_MANIFEST_SPEC@ && m.files@.len() == 1 && m.files@[0].path@ == REPORT_PATH@
            && m.files@[0].bytes == report_bytes@.len() && m.files@[0].sha256@ == hex_chars(
            sha256_digest(report_bytes@),
        )),
{
    if report_bytes.len() > MAX_REPORT_BYTES {
        return Err(DiagnosticBundleError::ReportTooLarge);
    }
    let file = BundleFile {
        path: REPORT_PATH.to_owned(),
        bytes: report_bytes.len() as u64,
        sha256: sha256_hex(report_bytes),
    };
    let mut files: Vec<BundleFile> = Vec::new();
    files.push(file);
    Ok(BundleManifest { spec: BUNDLE_MANIFEST_SPEC.to_owned(), files })
}

/// `.nimora-diagnostics.zip` as bytes.
pub open spec fn bundle_extension() -> Seq<u8> {
    seq![
        0x2eu8, 0x6e, 0x69, 0x6d, 0x6f, 0x72, 0x61, 0x2d, 0x64, 0x69, 0x61, 0x67, 0x6e, 0x6f, 0x73,
        0x74, 0x69, 0x63, 0x73, 0x2e, 0x7a, 0x69, 0x70,
    ]
}

/// Whether a destination file name carries the bundle extension.
pub fn is_bundle_file_name(name: &str) -> (r: bool)
    ensures
        r == has_suffix(name.spec_bytes(), bundle_extension()),
{
    let extension: [u8; 23] = [
        0x2e, 0x6e, 0x69, 0x6d, 0x6f, 0x72, 0x61, 0x2d, 0x64, 0x69, 0x61, 0x67, 0x6e, 0x6f, 0x73,
        0x74, 0x69, 0x63, 0x73, 0x2e, 0x7a, 0x69, 0x70,
    ];
    assert(extension@ =~= bundle_extension());
    ends_with_bytes(name.as_bytes(), extension.as_slice())
}

/// A destination is acceptable when it is absolute, unused, inside an existing
/// directory, and named with the bundle extension.
pub open spec fn destination_ok(
    absolute: bool,
    exists_already: bool,
    parent_is_dir: bool,
    file_name: Option<Seq<u8>>,
) -> bool {
    absolute && !exists_already && parent_is_dir && match file_name {
        Some(name) => has_suffix(name, bundle_extension()),
        None => false,
    }
}

/// Decides whether a destination path may receive a new bundle, given what
/// the host observed of it.
///
/// # Errors
///
/// Returns [`DiagnosticBundleError::InvalidDestination`] unless the path is
/// absolute, unused, inside an existing directory and ends in
/// `.nimora-diagnostics.zip`.
pub fn validate_destination(
    absolute: bool,
    exists_already: bool,
    parent_is_dir: bool,
    file_name: Option<&str>,
) -> (r: Result<(), DiagnosticBundleError>)
    ensures
        r is Ok <==> destination_ok(
            absolute,
            exists_already,
            parent_is_dir,
            match file_name {
                Some(n) => Some(n.spec_bytes()),
                None => None,
            },
        ),
        r is Err ==> r == Err::<(), DiagnosticBundleError>(DiagnosticBundleError::InvalidDestination),
{
    let valid_name = match file_name {
        Some(name) => is_bundle_file_name(name),
        None => false,
    };
    if !absolute || exists_already || !valid_name || !parent_is_dir {
        return Err(DiagnosticBundleError::InvalidDestination);
    }
    Ok(())
}

/// Name of the temporary file a bundle is written to before publication:
/// `.<name>.partial`.
pub open spec fn partial_name(name: Seq<char>) -> Seq<char> {
    seq!['.'] + name + seq!['.', 'p', 'a', 'r', 't', 'i', 'a', 'l']
}

/// The temporary file name for a bundle named `name`.
pub fn partial_path(name: &str) -> (r: String)
    ensures
        r@ == partial_name(name@),
{
    let mut out = empty_string();
    push_char(&mut out, '.');
    let ghost start = out@;
    for c in it: name.chars()
        invariant
            out@ == seq!['.'] + name@.take(it.index() as int),
            it.seq() == name@,
    {
        let ghost before = out@;
        push_char(&mut out, c);
        proof {
            assert(name@.take(it.index() + 1) =~= name@.take(it.index() as int).push(c));
        }
    }
    proof {
        assert(name@.take(name@.len() as int) =~= name@);
    }
    let tail = ['.', 'p', 'a', 'r', 't', 'i', 'a', 'l'];
    let mut i: usize = 0;
    while i < 8
        invariant
            0 <= i <= 8,
            out@ == seq!['.'] + name@ + tail@.take(i as int),
            tail@ =~= seq!['.', 'p', 'a', 'r', 't', 'i', 'a', 'l'],
        decreases 8 - i,
    {
        push_char(&mut out, tail[i]);
        proof {
            assert(tail@.take(i + 1) =~= tail@.take(i as int).push(tail@[i as int]));
            assert(seq!['.'] + name@ + tail@.take(i + 1) =~= (seq!['.'] + name@ + tail@.take(
                i as int,
            )).push(tail@[i as int]));
        }
        i = i + 1;
    }
    proof {
        assert(tail@.take(8) =~= tail@);
    }
    out
}

/// The receipt of a published bundle.
pub fn bundle_receipt(bytes: u64, sha256: String) -> (r: DiagnosticBundleReceipt)
    ensures
        r.spec@ == BUNDLE_RECEIPT_SPEC@,
        r.bytes == bytes,
        r.sha256 == sha256,
{
    DiagnosticBundleReceipt { spec: BUNDLE_RECEIPT_SPEC.to_owned(), bytes, sha256 }
}

} // verus!
