use nimora_core::diagnostics::{
    is_bundle_file_name, partial_path, report_manifest, sha256_hex, validate_destination,
    DiagnosticBundleError, BUNDLE_MANIFEST_SPEC, MAX_REPORT_BYTES, REPORT_PATH,
};
use nimora_core::model_import::{
    check_probe_request, check_staged_source, finish_glb_probe, glb_json_chunk, parse_optional_binary_chunk, read_u32,
    GltfSummary, ModelImportError, ModelProbeRequest, MODEL_PROBE_SPEC,
};

fn glb(json: &[u8], binary: Option<&[u8]>) -> Vec<u8> {
    let total = 20 + json.len() + binary.map_or(0, |b| 8 + b.len());
    let mut out = Vec::new();
    out.extend_from_slice(b"glTF");
    out.extend_from_slice(&2u32.to_le_bytes());
    out.extend_from_slice(&(total as u32).to_le_bytes());
    out.extend_from_slice(&(json.len() as u32).to_le_bytes());
    out.extend_from_slice(&0x4e4f_534au32.to_le_bytes());
    out.extend_from_slice(json);
    if let Some(b) = binary {
        out.extend_from_slice(&(b.len() as u32).to_le_bytes());
        out.extend_from_slice(&0x004e_4942u32.to_le_bytes());
        out.extend_from_slice(b);
    }
    out
}

fn summary(version: &str) -> GltfSummary {
    GltfSummary {
        asset_version: version.into(),
        nodes: 3,
        meshes: 2,
        materials: 1,
        textures: 0,
        animations: 4,
        skins: 1,
        buffer_uris: vec![false],
        image_uris: Vec::new(),
    }
}

#[test]
fn reads_little_endian_integers() {
    assert_eq!(read_u32(&[1, 2, 3, 4, 5], 1), Ok(0x0504_0302));
    assert!(matches!(read_u32(&[1, 2, 3], 0), Err(ModelImportError::InvalidGlb(_))));
}

#[test]
fn probes_a_well_formed_glb() {
    let json = br#"{"asset":{"version":"2.0"}}    "#;
    let bytes = glb(json, Some(&[0u8; 16]));
    let json_length = glb_json_chunk(&bytes).expect("json chunk");
    assert_eq!(json_length, json.len());
    assert_eq!(parse_optional_binary_chunk(&bytes, 20 + json_length), Ok(16));
    let report = finish_glb_probe(&bytes, json_length, Ok(summary("2.0"))).expect("report");
    assert_eq!(report.format, "glb");
    assert_eq!(report.format_version, "2.0");
    assert_eq!(report.bytes, bytes.len() as u64);
    assert_eq!(report.binary_bytes, 16);
    assert_eq!((report.nodes, report.meshes, report.animations, report.skins), (3, 2, 4, 1));
}

#[test]
fn rejects_malformed_containers() {
    let json = br#"{"asset":{"version":"2.0"}}"#;
    let mut bad_magic = glb(json, None);
    bad_magic[0] = b'x';
    assert_eq!(glb_json_chunk(&bad_magic), Err(ModelImportError::InvalidGlb("missing GLB header")));
    let mut v1 = glb(json, None);
    v1[4] = 1;
    assert_eq!(glb_json_chunk(&v1), Err(ModelImportError::InvalidGlb("only GLB 2.0 is accepted")));
    let mut short = glb(json, None);
    short.push(0);
    assert_eq!(
        glb_json_chunk(&short),
        Err(ModelImportError::InvalidGlb("declared length does not match file"))
    );
    let empty_json = glb(b"", None);
    assert_eq!(glb_json_chunk(&empty_json), Err(ModelImportError::InvalidGlb("first chunk must be bounded JSON")));
    let with_tail = glb(json, None);
    let mut trailing = with_tail.clone();
    trailing.extend_from_slice(&[1, 2, 3]);
    let total = trailing.len() as u32;
    trailing[8..12].copy_from_slice(&total.to_le_bytes());
    assert_eq!(
        parse_optional_binary_chunk(&trailing, 20 + json.len()),
        Err(ModelImportError::InvalidGlb("truncated binary chunk header"))
    );
}

#[test]
fn rejects_unsafe_or_oversized_documents() {
    let bytes = glb(br#"{"asset":{"version":"2.0"}}"#, None);
    let n = glb_json_chunk(&bytes).expect("json");
    assert_eq!(
        finish_glb_probe(&bytes, n, Ok(summary("1.0"))),
        Err(ModelImportError::InvalidGlb("asset.version must be 2.0"))
    );
    let mut with_uri = summary("2.0");
    with_uri.image_uris = vec![false, true];
    assert_eq!(
        finish_glb_probe(&bytes, n, Ok(with_uri)),
        Err(ModelImportError::InvalidGlb("external and data URIs are not accepted in GLB"))
    );
    let mut huge = summary("2.0");
    huge.nodes = 10_001;
    assert_eq!(finish_glb_probe(&bytes, n, Ok(huge)), Err(ModelImportError::ResourceBudgetExceeded));
    assert_eq!(
        finish_glb_probe(&bytes, n, Err("expected value".into())),
        Err(ModelImportError::InvalidJson("expected value".into()))
    );
}

#[test]
fn probe_requests_are_checked() {
    let request = ModelProbeRequest { spec: MODEL_PROBE_SPEC.into(), source: "model.glb".into() };
    assert_eq!(check_probe_request(&request, 10), Ok(()));
    assert_eq!(check_probe_request(&request, 83_886_081), Err(ModelImportError::InputBudgetExceeded));
    let other = ModelProbeRequest { spec: "nimora.model-probe/2".into(), source: "model.glb".into() };
    assert_eq!(check_probe_request(&other, 10), Err(ModelImportError::InvalidRequest));
}

#[test]
fn manifest_records_size_and_digest() {
    let manifest = report_manifest(b"abc").expect("manifest");
    assert_eq!(manifest.spec, BUNDLE_MANIFEST_SPEC);
    assert_eq!(manifest.files.len(), 1);
    assert_eq!(manifest.files[0].path, REPORT_PATH);
    assert_eq!(manifest.files[0].bytes, 3);
    assert_eq!(
        manifest.files[0].sha256,
        "ba7816bf8f01cfea414140de5dae2223b00361a396177a9cb410ff61f20015ad"
    );
    assert_eq!(
        sha256_hex(b""),
        "e3b0c44298fc1c149afbf4c8996fb92427ae41e4649b934ca495991b7852b855"
    );
    assert_eq!(
        report_manifest(&vec![b' '; MAX_REPORT_BYTES + 1]),
        Err(DiagnosticBundleError::ReportTooLarge)
    );
}

#[test]
fn destinations_must_be_new_absolute_bundle_files() {
    assert!(is_bundle_file_name("support.nimora-diagnostics.zip"));
    assert!(!is_bundle_file_name("support.zip"));
    assert_eq!(validate_destination(true, false, true, Some("a.nimora-diagnostics.zip")), Ok(()));
    for (absolute, exists, parent, name) in [
        (false, false, true, Some("a.nimora-diagnostics.zip")),
        (true, true, true, Some("a.nimora-diagnostics.zip")),
        (true, false, false, Some("a.nimora-diagnostics.zip")),
        (true, false, true, Some("a.zip")),
        (true, false, true, None),
    ] {
        assert_eq!(
            validate_destination(absolute, exists, parent, name),
            Err(DiagnosticBundleError::InvalidDestination)
        );
    }
    assert_eq!(partial_path("a.nimora-diagnostics.zip"), ".a.nimora-diagnostics.zip.partial");
}

#[test]
fn staged_sources_name_one_entry() {
    for ok in ["model.glb", "a", ".hidden.glb", "model.glb/", "model.glb/.", "model.glb//./", "..glb"] {
        assert_eq!(check_staged_source(ok), Ok(()), "{ok}");
    }
    for bad in ["", "/model.glb", ".", "..", "./model.glb", "../model.glb", "dir/model.glb", "model.glb/..", "a/.b", "a/b/"] {
        assert_eq!(check_staged_source(bad), Err(ModelImportError::UnsafeSource), "{bad}");
    }
}
