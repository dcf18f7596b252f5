//! GLB 2.0 container probing for staged character models.
//!
//! The container layout (header, JSON chunk, optional binary chunk) and the
//! import budgets are checked here; the host reads the staged file, decodes
//! the JSON chunk into a [`GltfSummary`] and runs the probe in an isolated
//! worker process.
use crate::text::str_equal;
use vstd::prelude::*;
use vstd::string::StringSliceAdditionalSpecFns;

verus! {

/// Spec identifier of a probe request.
pub const MODEL_PROBE_SPEC: &'static str = "nimora.model-probe/1";

/// Spec identifier of a probe report.
pub const MODEL_PROBE_REPORT_SPEC: &'static str = "nimora.model-probe-report/1";

/// `JSON` chunk type.
pub const GLB_JSON_CHUNK: u32 = 0x4e4f_534a;

/// `BIN\0` chunk type.
pub const GLB_BINARY_CHUNK: u32 = 0x004e_4942;

/// Largest accepted model file: 80 MiB.
pub const MAX_MODEL_BYTES: u64 = 83_886_080;

/// Largest accepted JSON chunk: 1 MiB.
pub const MAX_JSON_BYTES: usize = 1_048_576;

pub const MAX_NODES: usize = 10_000;

pub const MAX_MESHES: usize = 2_000;

pub const MAX_MATERIALS: usize = 1_000;

pub const MAX_TEXTURES: usize = 1_000;

/// A request to probe one staged model file.
#[derive(Debug, Clone, PartialEq, Eq)]
pub struct ModelProbeRequest {
    pub spec: String,
    /// File name relative to the isolated staging directory.
    pub source: String,
}

/// Facts about a probed GLB model.
#[derive(Debug, Clone, PartialEq, Eq)]
pub struct ModelProbeReport {
    pub spec: String,
    pub format: String,
    pub format_version: String,
    pub bytes: u64,
    pub json_bytes: usize,
    pub binary_bytes: usize,
    pub nodes: usize,
    pub meshes: usize,
    pub materials: usize,
    pub textures: usize,
    pub animations: usize,
    pub skins: usize,
}

/// Why a staged model was rejected.
#[derive(Debug, Clone, PartialEq, Eq)]
pub enum ModelImportError {
    InvalidRequest,
    UnsafeSource,
    InvalidSource,
    InputBudgetExceeded,
    InvalidGlb(&'static str),
    InvalidJson(String),
    ResourceBudgetExceeded,
    Io(String),
}

/// Why the isolated worker did not deliver a report.
#[derive(Debug, Clone, PartialEq, Eq)]
pub enum ModelWorkerError {
    Start(String),
    TimedOut,
    Crashed,
    OutputBudgetExceeded,
    Protocol(String),
    Rejected(String),
}

/// What the probe reads from the glTF JSON document.
#[derive(Debug, Clone, PartialEq, Eq)]
pub struct GltfSummary {
    pub asset_version: String,
    pub nodes: usize,
    pub meshes: usize,
    pub materials: usize,
    pub textures: usize,
    pub animations: usize,
    pub skins: usize,
    /// Per buffer: whether it names a `uri`.
    pub buffer_uris: Vec<bool>,
    /// Per image: whether it names a `uri`.
    pub image_uris: Vec<bool>,
}

/// Little-endian `u32` at `offset`, when four bytes are there.
pub open spec fn le_u32(bytes: Seq<u8>, offset: int) -> Option<u32> {
    if 0 <= offset && offset + 4 <= bytes.len() {
        Some(
            (bytes[offset] + bytes[offset + 1] * 0x100 + bytes[offset + 2] * 0x1_0000 + bytes[offset
                + 3] * 0x100_0000) as u32,
        )
    } else {
        None
    }
}

/// Reads a little-endian `u32`.
///
/// # Errors
///
/// Returns `InvalidGlb("truncated integer")` when fewer than four bytes remain.
pub fn read_u32(bytes: &[u8], offset: usize) -> (r: Result<u32, ModelImportError>)
    ensures
        match le_u32(bytes@, offset as int) {
            Some(v) => r == Ok::<u32, ModelImportError>(v),
            None => r == Err::<u32, ModelImportError>(
                ModelImportError::InvalidGlb("truncated integer"),
            ),
        },
{
    if offset > bytes.len() || bytes.len() - offset < 4 {
        return Err(ModelImportError::InvalidGlb("truncated integer"));
    }
    let b0 = bytes[offset] as u32;
    let b1 = bytes[offset + 1] as u32;
    let b2 = bytes[offset + 2] as u32;
    let b3 = bytes[offset + 3] as u32;
    Ok(b0 + b1 * 0x100 + b2 * 0x1_0000 + b3 * 0x100_0000)
}

/// `glTF` magic.
pub open spec fn glb_magic() -> Seq<u8> {
    seq![0x67u8, 0x6c, 0x54, 0x46]
}

/// Length of the JSON chunk of a GLB 2.0 container, or the first layout error:
/// a 20-byte header starting with `glTF`, version 2, a declared length equal to
/// the file size, then a non-empty JSON chunk of at most 1 MiB that fits.
pub open spec fn glb_json_length(bytes: Seq<u8>) -> Result<usize, ModelImportError> {
    if bytes.len() < 20 || bytes.subrange(0, 4) != glb_magic() {
        Err(ModelImportError::InvalidGlb("missing GLB header"))
    } else if le_u32(bytes, 4) != Some(2u32) {
        Err(ModelImportError::InvalidGlb("only GLB 2.0 is accepted"))
    } else if le_u32(bytes, 8)->0 != bytes.len() {
        Err(ModelImportError::InvalidGlb("declared length does not match file"))
    } else if le_u32(bytes, 16)->0 != GLB_JSON_CHUNK || le_u32(bytes, 12)->0 == 0 || le_u32(
        bytes,
        12,
    )->0 > MAX_JSON_BYTES {
        Err(ModelImportError::InvalidGlb("first chunk must be bounded JSON"))
    } else if 20 + le_u32(bytes, 12)->0 > bytes.len() {
        Err(ModelImportError::InvalidGlb("JSON chunk exceeds container"))
    } else {
        Ok(le_u32(bytes, 12)->0 as usize)
    }
}

/// Checks the GLB header and returns the length of the JSON chunk, which
/// occupies `bytes[20..20 + length]`.
///
/// # Errors
///
/// Returns the first layout error as [`ModelImportError::InvalidGlb`].
pub fn glb_json_chunk(bytes: &[u8]) -> (r: Result<usize, ModelImportError>)
    ensures
        r == glb_json_length(bytes@),
        r matches Ok(n) ==> 20 + n <= bytes@.len(),
{
    let magic: [u8; 4] = [0x67, 0x6c, 0x54, 0x46];
    assert(magic@ =~= glb_magic());
    if bytes.len() < 20 || !crate::text::bytes_equal(
        vstd::slice::slice_subrange(bytes, 0, 4),
        magic.as_slice(),
    ) {
        return Err(ModelImportError::InvalidGlb("missing GLB header"));
    }
    let version = match read_u32(bytes, 4) {
        Ok(v) => v,
        Err(e) => return Err(e),
    };
    if version != 2 {
        return Err(ModelImportError::InvalidGlb("only GLB 2.0 is accepted"));
    }
    let declared = match read_u32(bytes, 8) {
        Ok(v) => v,
        Err(e) => return Err(e),
    };
    if declared as u64 != bytes.len() as u64 {
        return Err(ModelImportError::InvalidGlb("declared length does not match file"));
    }
    let json_length = match read_u32(bytes, 12) {
        Ok(v) => v,
        Err(e) => return Err(e),
    };
    let chunk_type = match read_u32(bytes, 16) {
        Ok(v) => v,
        Err(e) => return Err(e),
    };
    if chunk_type != GLB_JSON_CHUNK || json_length == 0 || json_length as u64
        > MAX_JSON_BYTES as u64 {
        return Err(ModelImportError::InvalidGlb("first chunk must be bounded JSON"));
    }
    if 20 + json_length as u64 > bytes.len() as u64 {
        return Err(ModelImportError::InvalidGlb("JSON chunk exceeds container"));
    }
    Ok(json_length as usize)
}

/// Length of the optional trailing binary chunk after `json_end`.
pub open spec fn binary_chunk_length(bytes: Seq<u8>, json_end: int) -> Result<usize, ModelImportError> {
    if json_end == bytes.len() {
        Ok(0usize)
    } else if bytes.len() - json_end < 8 {
        Err(ModelImportError::InvalidGlb("truncated binary chunk header"))
    } else if le_u32(bytes, json_end + 4)->0 != GLB_BINARY_CHUNK || json_end + 8 + le_u32(
        bytes,
        json_end,
    )->0 != bytes.len() {
        Err(ModelImportError::InvalidGlb("invalid trailing binary chunk"))
    } else {
        Ok(le_u32(bytes, json_end)->0 as usize)
    }
}

/// Parses the optional binary chunk that must end the container exactly.
///
/// # Errors
///
/// Returns [`ModelImportError::InvalidGlb`] for a truncated header, another
/// chunk type, or a length that does not end at the file end.
pub fn parse_optional_binary_chunk(bytes: &[u8], json_end: usize) -> (r: Result<
    usize,
    ModelImportError,
>)
    requires
        json_end <= bytes@.len(),
    ensures
        r == binary_chunk_length(bytes@, json_end as int),
{
    if json_end == bytes.len() {
        return Ok(0);
    }
    if bytes.len() - json_end < 8 {
        return Err(ModelImportError::InvalidGlb("truncated binary chunk header"));
    }
    let length = match read_u32(bytes, json_end) {
        Ok(v) => v,
        Err(e) => return Err(e),
    };
    let chunk_type = match read_u32(bytes, json_end + 4) {
        Ok(v) => v,
        Err(e) => return Err(e),
    };
    if chunk_type != GLB_BINARY_CHUNK || json_end as u128 + 8 + length as u128 != bytes.len() as u128 {
        return Err(ModelImportError::InvalidGlb("invalid trailing binary chunk"));
    }
    Ok(length as usize)
}

/// Some flag of the sequence is set.
pub open spec fn any_set(flags: Seq<bool>) -> bool {
    exists|i: int| 0 <= i < flags.len() && flags[i]
}

fn any_flag(flags: &Vec<bool>) -> (r: bool)
    ensures
        r == any_set(flags@),
{
    let mut i: usize = 0;
    while i < flags.len()
        invariant
            0 <= i <= flags@.len(),
            forall|j: int| 0 <= j < i ==> !flags@[j],
        decreases flags@.len() - i,
    {
        if flags[i] {
            return true;
        }
        i = i + 1;
    }
    false
}

/// The first reason the probe rejects a container whose JSON chunk has
/// `json_length` bytes and decoded to `document`: the JSON error; a wrong
/// asset version; external URIs; exceeded resource budgets; a bad binary chunk.
pub open spec fn glb_probe_error(
    bytes: Seq<u8>,
    json_length: usize,
    document: Result<GltfSummary, String>,
) -> Option<ModelImportError> {
    match document {
        Err(message) => Some(ModelImportError::InvalidJson(message)),
        Ok(doc) => if doc.asset_version@ != "2.0"@ {
            Some(ModelImportError::InvalidGlb("asset.version must be 2.0"))
        } else if any_set(doc.buffer_uris@) || any_set(doc.image_uris@) {
            Some(ModelImportError::InvalidGlb("external and data URIs are not accepted in GLB"))
        } else if doc.nodes > MAX_NODES || doc.meshes > MAX_MESHES || doc.materials > MAX_MATERIALS
            || doc.textures > MAX_TEXTURES {
            Some(ModelImportError::ResourceBudgetExceeded)
        } else {
            match binary_chunk_length(bytes, 20 + json_length) {
                Err(e) => Some(e),
                Ok(_) => None,
            }
        },
    }
}

/// The report describes the container and its document.
pub open spec fn report_describes(
    report: ModelProbeReport,
    bytes: Seq<u8>,
    json_length: usize,
    doc: GltfSummary,
) -> bool {
    &&& report.spec@ == MODEL_PROBE_REPORT_SPEC@
    &&& report.format@ == "glb"@
    &&& report.format_version@ == doc.asset_version@
    &&& report.bytes == bytes.len()
    &&& report.json_bytes == json_length
    &&& binary_chunk_length(bytes, 20 + json_length) == Ok::<usize, ModelImportError>(
        report.binary_bytes,
    )
    &&& report.nodes == doc.nodes
    &&& report.meshes == doc.meshes
    &&& report.materials == doc.materials
    &&& report.textures == doc.textures
    &&& report.animations == doc.animations
    &&& report.skins == doc.skins
}

/// Completes the probe of a container whose header [`glb_json_chunk`]
/// accepted, given the decoded JSON chunk.
///
/// # Errors
///
/// Returns the first reason of [`glb_probe_error`].
pub fn finish_glb_probe(
    bytes: &[u8],
    json_length: usize,
    document: Result<GltfSummary, String>,
) -> (r: Result<ModelProbeReport, ModelImportError>)
    requires
        20 + json_length <= bytes@.len(),
    ensures
        match glb_probe_error(bytes@, json_length, document) {
            Some(e) => r == Err::<ModelProbeReport, ModelImportError>(e),
            None => r matches Ok(report) && report_describes(
                report,
                bytes@,
                json_length,
                document->Ok_0,
            ),
        },
{
    let doc = match document {
        Err(message) => return Err(ModelImportError::InvalidJson(message)),
        Ok(doc) => doc,
    };
    if !str_equal(doc.asset_version.as_str(), "2.0") {
        return Err(ModelImportError::InvalidGlb("asset.version must be 2.0"));
    }
    if any_flag(&doc.buffer_uris) || any_flag(&doc.image_uris) {
        return Err(ModelImportError::InvalidGlb("external and data URIs are not accepted in GLB"));
    }
    if doc.nodes > MAX_NODES || doc.meshes > MAX_MESHES || doc.materials > MAX_MATERIALS
        || doc.textures > MAX_TEXTURES {
        return Err(ModelImportError::ResourceBudgetExceeded);
    }
    let total = bytes.len();
    assert(total == bytes@.len());
    let binary_bytes = match parse_optional_binary_chunk(bytes, 20 + json_length) {
        Ok(n) => n,
        Err(e) => return Err(e),
    };
    Ok(
        ModelProbeReport {
            spec: MODEL_PROBE_REPORT_SPEC.to_owned(),
            format: "glb".to_owned(),
            format_version: doc.asset_version,
            bytes: bytes.len() as u64,
            json_bytes: json_length,
            binary_bytes,
            nodes: doc.nodes,
            meshes: doc.meshes,
            materials: doc.materials,
            textures: doc.textures,
            animations: doc.animations,
            skins: doc.skins,
        },
    )
}

/// Checks the request spec and the staged file size.
///
/// # Errors
///
/// Returns [`ModelImportError::InvalidRequest`] for another spec and
/// [`ModelImportError::InputBudgetExceeded`] for files over 80 MiB.
pub fn check_probe_request(request: &ModelProbeRequest, file_bytes: u64) -> (r: Result<
    (),
    ModelImportError,
>)
    ensures
        request.spec@ != MODEL_PROBE_SPEC@ ==> r == Err::<(), ModelImportError>(
            ModelImportError::InvalidRequest,
        ),
        request.spec@ == MODEL_PROBE_SPEC@ && file_bytes > MAX_MODEL_BYTES ==> r == Err::<
            (),
            ModelImportError,
        >(ModelImportError::InputBudgetExceeded),
        request.spec@ == MODEL_PROBE_SPEC@ && file_bytes <= MAX_MODEL_BYTES ==> r is Ok,
{
    if !str_equal(request.spec.as_str(), MODEL_PROBE_SPEC) {
        return Err(ModelImportError::InvalidRequest);
    }
    if file_bytes > MAX_MODEL_BYTES {
        return Err(ModelImportError::InputBudgetExceeded);
    }
    Ok(())
}


// ----------------------------------------------------------------------------
// Staged source names
// ----------------------------------------------------------------------------

/// `n` is where the first path component of `path` ends: the first `/`, or
/// the end.
pub open spec fn first_component_end(path: Seq<u8>, n: int) -> bool {
    &&& 0 <= n <= path.len()
    &&& (n == path.len() || path[n] == 0x2f)
    &&& forall|i: int| 0 <= i < n ==> #[trigger] path[i] != 0x2f
}

/// A component that names an entry: not empty, not `.` and not `..`.
pub open spec fn normal_component(name: Seq<u8>) -> bool {
    name.len() > 0 && name != seq![0x2eu8] && name != seq![0x2eu8, 0x2eu8]
}

/// What follows the first component adds none: only separators and `.`
/// components, which path syntax drops.
pub open spec fn no_further_component(rest: Seq<u8>) -> bool {
    forall|i: int|
        0 <= i < rest.len() ==> #[trigger] rest[i] == 0x2f || (rest[i] == 0x2e && i > 0 && rest[i - 1]
            == 0x2f && (i + 1 == rest.len() || rest[i + 1] == 0x2f))
}

/// A staging-relative source made of exactly one normal path component, in
/// `/`-separated form: relative, neither `.` nor `..`, and naming nothing
/// below it.
pub open spec fn single_normal_component(path: Seq<u8>) -> bool {
    exists|n: int|
        #[trigger] first_component_end(path, n) && normal_component(path.take(n))
            && no_further_component(path.skip(n))
}

proof fn lemma_normal_component(head: Seq<u8>)
    ensures
        normal_component(head) == (head.len() > 0 && !(head.len() == 1 && head[0] == 0x2e) && !(
        head.len() == 2 && head[0] == 0x2e && head[1] == 0x2e)),
{
    let one = seq![0x2eu8];
    let two = seq![0x2eu8, 0x2eu8];
    if head.len() == 1 && head[0] == 0x2e {
        assert(head =~= one);
    }
    if head.len() == 2 && head[0] == 0x2e && head[1] == 0x2e {
        assert(head =~= two);
    }
    if head == one {
        assert(head.len() == 1 && head[0] == one[0]);
    }
    if head == two {
        assert(head.len() == 2 && head[0] == two[0] && head[1] == two[1]);
    }
}

/// Checks that a staged source names one entry of the staging directory.
///
/// # Errors
///
/// Returns [`ModelImportError::UnsafeSource`] unless
/// [`single_normal_component`] holds: an empty or absolute path, `.` or `..`,
/// or one that reaches below its first component.
pub fn check_staged_source(source: &str) -> (r: Result<(), ModelImportError>)
    ensures
        r is Ok <==> single_normal_component(source.spec_bytes()),
        r is Err ==> r == Err::<(), ModelImportError>(ModelImportError::UnsafeSource),
{
    let bytes = source.as_bytes();
    let mut n: usize = 0;
    while n < bytes.len() && bytes[n] != 0x2f
        invariant
            0 <= n <= bytes@.len(),
            forall|i: int| 0 <= i < n ==> #[trigger] bytes@[i] != 0x2f,
        decreases bytes@.len() - n,
    {
        n = n + 1;
    }
    proof {
        assert(first_component_end(bytes@, n as int));
        assert forall|m: int| #[trigger] first_component_end(bytes@, m) implies m == n by {
            if m < n {
                assert(bytes@[m] != 0x2f);
            } else if m > n {
                assert(bytes@[n as int] == 0x2f);
            }
        }
    }
    let dot: u8 = 0x2e;
    let head_ok = n > 0 && !(n == 1 && bytes[0] == dot) && !(n == 2 && bytes[0] == dot && bytes[1]
        == dot);
    proof {
        lemma_normal_component(bytes@.take(n as int));
    }
    if !head_ok {
        return Err(ModelImportError::UnsafeSource);
    }
    let mut k: usize = n;
    while k < bytes.len()
        invariant
            n <= k <= bytes@.len(),
            bytes@ == source.spec_bytes(),
            first_component_end(bytes@, n as int),
            forall|m: int| #[trigger] first_component_end(bytes@, m) ==> m == n,
            forall|i: int|
                n <= i < k ==> #[trigger] bytes@[i] == 0x2f || (bytes@[i] == 0x2e && i > n && bytes@[i
                    - 1] == 0x2f && (i + 1 == bytes@.len() || bytes@[i + 1] == 0x2f)),
        decreases bytes@.len() - k,
    {
        let b = bytes[k];
        let ok = b == 0x2f || (b == 0x2e && k > n && bytes[k - 1] == 0x2f && (k + 1 == bytes.len()
            || bytes[k + 1] == 0x2f));
        if !ok {
            proof {
                let rest = bytes@.skip(n as int);
                let j = k - n;
                assert(rest[j] == bytes@[k as int]);
                if k > n {
                    assert(rest[j - 1] == bytes@[k - 1]);
                }
                if k + 1 < bytes@.len() {
                    assert(rest[j + 1] == bytes@[k + 1]);
                }
                assert(!(rest[j] == 0x2f || (rest[j] == 0x2e && j > 0 && rest[j - 1] == 0x2f && (j + 1
                    == rest.len() || rest[j + 1] == 0x2f))));
                assert(!no_further_component(rest));
                if single_normal_component(bytes@) {
                    let m = choose|m: int|
                        #[trigger] first_component_end(bytes@, m) && normal_component(bytes@.take(m))
                            && no_further_component(bytes@.skip(m));
                    assert(m == n);
                }
            }
            return Err(ModelImportError::UnsafeSource);
        }
        k = k + 1;
    }
    proof {
        let rest = bytes@.skip(n as int);
        assert forall|i: int| 0 <= i < rest.len() implies #[trigger] rest[i] == 0x2f || (rest[i]
            == 0x2e && i > 0 && rest[i - 1] == 0x2f && (i + 1 == rest.len() || rest[i + 1] == 0x2f)) by {
            assert(rest[i] == bytes@[n + i]);
            if i > 0 {
                assert(rest[i - 1] == bytes@[n + i - 1]);
            }
            if i + 1 < rest.len() {
                assert(rest[i + 1] == bytes@[n + i + 1]);
            }
        }
    }
    Ok(())
}

} // verus!
