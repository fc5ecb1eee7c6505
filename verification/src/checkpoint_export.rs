//! The decisions of the checkpoint-export importer: which manifests of the
//! dense-bigram export schema are accepted, whether a tensor file matches
//! the digest its manifest entry pins, and the ordered block topology that a
//! well-formed manifest declares.
//!
//! Reading the files and parsing the manifest JSON happen outside; what is
//! read is handed in as plain values. Activation ranges are `f32` values in
//! the manifest and are held here as their IEEE-754 bit patterns.

use vstd::prelude::*;
use vstd::string::StringExecFns;
use vstd::string::StrSliceExecFns;
use crate::bringup::{sha256, sha256_digest};
use crate::lower_infer::{ExportBlockRefs, ExportTopology};

verus! {

/// The only export schema the importer accepts.
pub open spec fn export_schema() -> Seq<char> {
    "f_s6_dense_checkpoint_export.v1"@
}

/// One tensor file of the export, with the SHA-256 its manifest pins (as
/// lower-case hex) and its declared shape.
#[derive(Clone, Debug, PartialEq, Eq)]
pub struct ExportManifestTensor {
    pub name: String,
    pub file: String,
    pub sha256: String,
    pub shape: Vec<u32>,
}

/// The declared `[rows, cols]` of a projection matrix.
#[derive(Clone, Copy, Debug, PartialEq, Eq, Structural)]
pub struct MatrixShape {
    pub rows: u32,
    pub cols: u32,
}

/// One block of the export: a pre-norm residual FFN with an up and a down
/// ternary projection, each a weight tensor and a paired scale tensor.
#[derive(Clone, Debug, PartialEq, Eq)]
pub struct ExportManifestLayer {
    pub index: u32,
    pub kind: String,
    pub up_ternary: String,
    pub up_scales: String,
    pub up_shape: MatrixShape,
    pub down_ternary: String,
    pub down_scales: String,
    pub down_shape: MatrixShape,
}

/// The topology the export declares.
#[derive(Clone, Debug, PartialEq, Eq)]
pub struct ExportManifestTopology {
    pub d_ff: u32,
    pub d_model: u32,
    pub family: String,
    pub moe: bool,
    pub n_blocks: u32,
    pub sequence_state_kind: String,
    pub tied_head: bool,
    pub vocab: u32,
}

/// The numeric conventions the export declares, as far as the importer
/// checks them.
#[derive(Clone, Debug, PartialEq, Eq)]
pub struct ExportNumericConvention {
    pub activation_format: String,
    pub activation_quant_steps: u32,
    pub activation_range_lo_bits: u32,
    pub activation_range_hi_bits: u32,
    pub norm_kind: String,
    pub weight_encoding: String,
    pub weight_scale: String,
    pub embedding_dtype: String,
}

/// What the importer reads of the export manifest.
#[derive(Clone, Debug, PartialEq, Eq)]
pub struct ExportManifest {
    pub schema: String,
    pub git_sha: String,
    pub layers: Vec<ExportManifestLayer>,
    pub convention: ExportNumericConvention,
    pub tensors: Vec<ExportManifestTensor>,
    pub topology: ExportManifestTopology,
}

/// A numeric-convention field whose declared value the importer refuses.
#[derive(Clone, Copy, Debug, PartialEq, Eq, Structural)]
pub enum ConventionField {
    TopologyFamily,
    TopologyMoe,
    TopologyTiedHead,
    TopologySequenceStateKind,
    ActivationFormat,
    NormKind,
    WeightEncoding,
    WeightScale,
    EmbeddingDtype,
    LayerKind,
}

/// Why an export is refused. Tensors are named by their manifest name, or by
/// their position in the manifest's tensor list.
#[derive(Clone, Debug, PartialEq, Eq)]
pub enum CheckpointImportError {
    UnsupportedSchema { schema: String },
    UnsupportedConvention { field: ConventionField, observed: String },
    UnsupportedFlag { field: ConventionField, observed: bool },
    UnsupportedQuantSteps { observed: u32 },
    UnsupportedActivationRange { lo_bits: u32, hi_bits: u32 },
    LayerCountMismatch { declared: u32, listed: usize },
    ShaMismatch { tensor: String, expected: String, computed: String },
    DuplicateTensor { name: String },
    MissingTensor { name: String },
    MissingEmbedding,
    EmbeddingDecode { byte_len: usize },
    EmbeddingShape { tensor: usize, vocab: u32, d_model: u32 },
    TensorDecode { tensor: String, byte_len: usize, width: usize },
    DModelTooWide { d_model: u32 },
    NonContiguousLayer { position: usize, index: u32 },
    LayerShapes { position: usize, up: MatrixShape, down: MatrixShape },
    MissingTernarySuffix { weight: String },
    UnpairedScale { scale: String, weight: String },
    TensorShape { tensor: usize, expected: MatrixShape },
}

/// The bit pattern of the `f32` value 8.0.
pub open spec fn f32_bits_8() -> u32 {
    0x4100_0000
}

/// The bit pattern of the `f32` value -8.0.
pub open spec fn f32_bits_minus_8() -> u32 {
    0xC100_0000
}

/// The first convention the manifest breaks, in the order the importer
/// checks them.
pub open spec fn convention_refusal(m: ExportManifest) -> Option<CheckpointImportError> {
    let t = m.topology;
    let c = m.convention;
    if t.family@ != "dense_ffn_bigram_context"@ {
        Some(CheckpointImportError::UnsupportedConvention { field: ConventionField::TopologyFamily, observed: t.family })
    } else if t.moe {
        Some(CheckpointImportError::UnsupportedFlag { field: ConventionField::TopologyMoe, observed: true })
    } else if !t.tied_head {
        Some(CheckpointImportError::UnsupportedFlag { field: ConventionField::TopologyTiedHead, observed: false })
    } else if t.sequence_state_kind@ != "stateless_bigram_context"@ {
        Some(
            CheckpointImportError::UnsupportedConvention {
                field: ConventionField::TopologySequenceStateKind,
                observed: t.sequence_state_kind,
            },
        )
    } else if c.activation_format@ != "Int8_symmetric"@ {
        Some(
            CheckpointImportError::UnsupportedConvention {
                field: ConventionField::ActivationFormat,
                observed: c.activation_format,
            },
        )
    } else if c.activation_quant_steps != 127 {
        Some(CheckpointImportError::UnsupportedQuantSteps { observed: c.activation_quant_steps })
    } else if c.activation_range_lo_bits != f32_bits_minus_8() || c.activation_range_hi_bits != f32_bits_8() {
        Some(
            CheckpointImportError::UnsupportedActivationRange {
                lo_bits: c.activation_range_lo_bits,
                hi_bits: c.activation_range_hi_bits,
            },
        )
    } else if c.norm_kind@ != "tile_rms_then_affine_clip(full_vector)"@ {
        Some(CheckpointImportError::UnsupportedConvention { field: ConventionField::NormKind, observed: c.norm_kind })
    } else if c.weight_encoding@ != "Ternary2 {-1,0,+1}"@ {
        Some(
            CheckpointImportError::UnsupportedConvention {
                field: ConventionField::WeightEncoding,
                observed: c.weight_encoding,
            },
        )
    } else if c.weight_scale@ != "per_output_row Q8.8 (u16 raw, f32 = raw/256)"@ {
        Some(
            CheckpointImportError::UnsupportedConvention { field: ConventionField::WeightScale, observed: c.weight_scale },
        )
    } else if c.embedding_dtype@ != "f32_le"@ {
        Some(
            CheckpointImportError::UnsupportedConvention {
                field: ConventionField::EmbeddingDtype,
                observed: c.embedding_dtype,
            },
        )
    } else {
        None
    }
}

/// Why the manifest is refused before any tensor file is read: an unknown
/// schema, a convention the lowering does not implement, or a layer list
/// whose length is not the declared block count.
pub open spec fn header_refusal(m: ExportManifest) -> Option<CheckpointImportError> {
    if m.schema@ != export_schema() {
        Some(CheckpointImportError::UnsupportedSchema { schema: m.schema })
    } else if convention_refusal(m) is Some {
        convention_refusal(m)
    } else if m.layers@.len() != m.topology.n_blocks {
        Some(CheckpointImportError::LayerCountMismatch { declared: m.topology.n_blocks, listed: m.layers@.len() as usize })
    } else {
        None
    }
}

fn text_is(text: &String, expected: &str) -> (same: bool)
    ensures
        same == (text@ == expected@),
{
    let expected = String::from_str(expected);
    *text == expected
}

fn refuse_text(field: ConventionField, observed: &String) -> (error: CheckpointImportError)
    ensures
        error == (CheckpointImportError::UnsupportedConvention { field, observed: *observed }),
{
    CheckpointImportError::UnsupportedConvention { field, observed: observed.clone() }
}

fn check_conventions(m: &ExportManifest) -> (result: Result<(), CheckpointImportError>)
    ensures
        match convention_refusal(*m) {
            Some(error) => result == Err::<(), CheckpointImportError>(error),
            None => result is Ok,
        },
{
    proof {
        reveal_strlit("dense_ffn_bigram_context");
        reveal_strlit("stateless_bigram_context");
        reveal_strlit("Int8_symmetric");
        reveal_strlit("tile_rms_then_affine_clip(full_vector)");
        reveal_strlit("Ternary2 {-1,0,+1}");
        reveal_strlit("per_output_row Q8.8 (u16 raw, f32 = raw/256)");
        reveal_strlit("f32_le");
    }
    let t = &m.topology;
    let c = &m.convention;
    if !text_is(&t.family, "dense_ffn_bigram_context") {
        return Err(refuse_text(ConventionField::TopologyFamily, &t.family));
    }
    if t.moe {
        return Err(CheckpointImportError::UnsupportedFlag { field: ConventionField::TopologyMoe, observed: true });
    }
    if !t.tied_head {
        return Err(CheckpointImportError::UnsupportedFlag { field: ConventionField::TopologyTiedHead, observed: false });
    }
    if !text_is(&t.sequence_state_kind, "stateless_bigram_context") {
        return Err(refuse_text(ConventionField::TopologySequenceStateKind, &t.sequence_state_kind));
    }
    if !text_is(&c.activation_format, "Int8_symmetric") {
        return Err(refuse_text(ConventionField::ActivationFormat, &c.activation_format));
    }
    if c.activation_quant_steps != 127 {
        return Err(CheckpointImportError::UnsupportedQuantSteps { observed: c.activation_quant_steps });
    }
    if c.activation_range_lo_bits != 0xC100_0000u32 || c.activation_range_hi_bits != 0x4100_0000u32 {
        return Err(
            CheckpointImportError::UnsupportedActivationRange {
                lo_bits: c.activation_range_lo_bits,
                hi_bits: c.activation_range_hi_bits,
            },
        );
    }
    if !text_is(&c.norm_kind, "tile_rms_then_affine_clip(full_vector)") {
        return Err(refuse_text(ConventionField::NormKind, &c.norm_kind));
    }
    if !text_is(&c.weight_encoding, "Ternary2 {-1,0,+1}") {
        return Err(refuse_text(ConventionField::WeightEncoding, &c.weight_encoding));
    }
    if !text_is(&c.weight_scale, "per_output_row Q8.8 (u16 raw, f32 = raw/256)") {
        return Err(refuse_text(ConventionField::WeightScale, &c.weight_scale));
    }
    if !text_is(&c.embedding_dtype, "f32_le") {
        return Err(refuse_text(ConventionField::EmbeddingDtype, &c.embedding_dtype));
    }
    Ok(())
}

/// Checks what can be checked of the manifest before any tensor file is
/// read: the schema, the numeric conventions, and the block count.
pub fn check_export_header(m: &ExportManifest) -> (result: Result<(), CheckpointImportError>)
    ensures
        match header_refusal(*m) {
            Some(error) => result == Err::<(), CheckpointImportError>(error),
            None => result is Ok,
        },
{
    proof {
        reveal_strlit("f_s6_dense_checkpoint_export.v1");
    }
    if !text_is(&m.schema, "f_s6_dense_checkpoint_export.v1") {
        return Err(CheckpointImportError::UnsupportedSchema { schema: m.schema.clone() });
    }
    if let Err(error) = check_conventions(m) {
        return Err(error);
    }
    if m.layers.len() as u64 != m.topology.n_blocks as u64 {
        return Err(CheckpointImportError::LayerCountMismatch { declared: m.topology.n_blocks, listed: m.layers.len() });
    }
    Ok(())
}

// ------------------------------------------------------------ tensor files

/// The character of hex digit `d`, lower case.
pub open spec fn hex_digit(d: nat) -> char {
    if d < 10 {
        (48 + d) as char
    } else {
        (87 + d) as char
    }
}

/// `bytes` in lower-case hex, two digits per byte, high nibble first.
pub open spec fn lower_hex(bytes: Seq<u8>) -> Seq<char>
    decreases bytes.len(),
{
    if bytes.len() == 0 {
        Seq::empty()
    } else {
        lower_hex(bytes.drop_last()) + seq![hex_digit(bytes.last() as nat / 16), hex_digit(bytes.last() as nat % 16)]
    }
}

fn hex_digit_str(d: u8) -> (text: &'static str)
    requires
        d < 16,
    ensures
        text@ == seq![hex_digit(d as nat)],
{
    proof {
        reveal_strlit("0");
        reveal_strlit("1");
        reveal_strlit("2");
        reveal_strlit("3");
        reveal_strlit("4");
        reveal_strlit("5");
        reveal_strlit("6");
        reveal_strlit("7");
        reveal_strlit("8");
        reveal_strlit("9");
        reveal_strlit("a");
        reveal_strlit("b");
        reveal_strlit("c");
        reveal_strlit("d");
        reveal_strlit("e");
        reveal_strlit("f");
    }
    match d {
        0 => "0",
        1 => "1",
        2 => "2",
        3 => "3",
        4 => "4",
        5 => "5",
        6 => "6",
        7 => "7",
        8 => "8",
        9 => "9",
        10 => "a",
        11 => "b",
        12 => "c",
        13 => "d",
        14 => "e",
        _ => "f",
    }
}

/// `bytes` written as lower-case hex.
pub fn to_lower_hex(bytes: &[u8]) -> (text: String)
    ensures
        text@ == lower_hex(bytes@),
{
    let mut text = String::new();
    let mut i: usize = 0;
    while i < bytes.len()
        invariant
            i <= bytes@.len(),
            text@ == lower_hex(bytes@.take(i as int)),
        decreases bytes@.len() - i,
    {
        let b = bytes[i];
        text.append(hex_digit_str(b / 16));
        text.append(hex_digit_str(b % 16));
        proof {
            assert(bytes@.take(i + 1).drop_last() =~= bytes@.take(i as int));
        }
        i = i + 1;
    }
    proof {
        assert(bytes@.take(bytes@.len() as int) =~= bytes@);
    }
    text
}

/// The SHA-256 of `bytes` in lower-case hex, as the importer records the
/// manifest's own digest and compares tensor digests.
pub fn sha256_hex(bytes: &[u8]) -> (text: String)
    ensures
        text@ == lower_hex(sha256_digest(bytes@)),
{
    let digest = sha256(bytes);
    to_lower_hex(digest.as_slice())
}

/// Whether `bytes` hash, in lower-case hex, to `expected`.
pub fn digest_matches(bytes: &[u8], expected: &String) -> (matches: bool)
    ensures
        matches == (lower_hex(sha256_digest(bytes@)) == expected@),
{
    let computed = sha256_hex(bytes);
    computed == *expected
}

/// Some earlier tensor of the manifest has the name `name`.
pub open spec fn name_listed(seen: Seq<String>, name: Seq<char>) -> bool {
    exists|i: int| 0 <= i < seen.len() && (#[trigger] seen[i])@ == name
}

/// Checks one tensor file of the manifest, after the tensors `seen` before
/// it: the file's SHA-256, in lower-case hex, must be the digest its entry
/// pins, and its name must not repeat an earlier one.
pub fn check_tensor_entry(seen: &Vec<String>, entry: &ExportManifestTensor, bytes: &[u8]) -> (result: Result<(), CheckpointImportError>)
    ensures
        lower_hex(sha256_digest(bytes@)) != entry.sha256@ ==> (result matches Err(
            CheckpointImportError::ShaMismatch { tensor, expected, computed },
        ) && tensor == entry.name && expected == entry.sha256 && computed@ == lower_hex(sha256_digest(bytes@))),
        lower_hex(sha256_digest(bytes@)) == entry.sha256@ ==> result == if name_listed(seen@, entry.name@) {
            Err::<(), CheckpointImportError>(CheckpointImportError::DuplicateTensor { name: entry.name })
        } else {
            Ok::<(), CheckpointImportError>(())
        },
{
    let computed = sha256_hex(bytes);
    if computed != entry.sha256 {
        return Err(
            CheckpointImportError::ShaMismatch {
                tensor: entry.name.clone(),
                expected: entry.sha256.clone(),
                computed,
            },
        );
    }
    let mut j: usize = 0;
    while j < seen.len()
        invariant
            j <= seen@.len(),
            computed@ == lower_hex(sha256_digest(bytes@)),
            computed@ == entry.sha256@,
            forall|q: int| 0 <= q < j ==> (#[trigger] seen@[q])@ != entry.name@,
        decreases seen@.len() - j,
    {
        if seen[j] == entry.name {
            return Err(CheckpointImportError::DuplicateTensor { name: entry.name.clone() });
        }
        j = j + 1;
    }
    Ok(())
}

// ------------------------------------------------------------ topology

/// The provenance an import records for the build report: the schema, the
/// trainer's revision, the manifest's own digest, how many tensor files were
/// digest-checked, and the sequence-state kind with the placeholder the
/// artifact records for it.
#[derive(Clone, Debug, PartialEq, Eq)]
pub struct CheckpointExportFacts {
    pub schema: String,
    pub trainer_git_sha: String,
    pub manifest_sha256: String,
    pub tensors_verified_sha256: usize,
    pub sequence_state_kind: String,
    pub sequence_semantics_placeholder: String,
}

/// The placeholder the artifact records for a stateless bigram context: a
/// linear state of one 4-byte slot per layer.
pub open spec fn sequence_placeholder() -> Seq<char> {
    "linear_state(4 bytes/layer) placeholder for stateless_bigram_context"@
}

/// The facts of an accepted export whose manifest file held
/// `manifest_bytes` and whose tensor list held `tensors_verified` files.
pub fn export_facts(m: &ExportManifest, manifest_bytes: &[u8], tensors_verified: usize) -> (facts: CheckpointExportFacts)
    ensures
        facts.schema@ == export_schema(),
        facts.trainer_git_sha == m.git_sha,
        facts.manifest_sha256@ == lower_hex(sha256_digest(manifest_bytes@)),
        facts.tensors_verified_sha256 == tensors_verified,
        facts.sequence_state_kind == m.topology.sequence_state_kind,
        facts.sequence_semantics_placeholder@ == sequence_placeholder(),
{
    proof {
        reveal_strlit("f_s6_dense_checkpoint_export.v1");
        reveal_strlit("linear_state(4 bytes/layer) placeholder for stateless_bigram_context");
    }
    CheckpointExportFacts {
        schema: String::from_str("f_s6_dense_checkpoint_export.v1"),
        trainer_git_sha: m.git_sha.clone(),
        manifest_sha256: sha256_hex(manifest_bytes),
        tensors_verified_sha256: tensors_verified,
        sequence_state_kind: m.topology.sequence_state_kind.clone(),
        sequence_semantics_placeholder: String::from_str(
            "linear_state(4 bytes/layer) placeholder for stateless_bigram_context",
        ),
    }
}

/// A tensor file that passed its digest check: its manifest name and shape,
/// and the number of bytes the file holds.
#[derive(Clone, Debug, PartialEq, Eq)]
pub struct LoadedTensor {
    pub name: String,
    pub shape: Vec<u32>,
    pub byte_len: usize,
}

/// The position of the first tensor named `name`, from position `i` on,
/// or -1.
pub open spec fn tensor_index_from(ts: Seq<LoadedTensor>, name: Seq<char>, i: int) -> int
    decreases ts.len() - i,
{
    if i < 0 || i >= ts.len() {
        -1
    } else if ts[i].name@ == name {
        i
    } else {
        tensor_index_from(ts, name, i + 1)
    }
}

/// The position of the first tensor named `name`, or -1.
pub open spec fn tensor_index(ts: Seq<LoadedTensor>, name: Seq<char>) -> int {
    tensor_index_from(ts, name, 0)
}

/// `s` without its trailing `suffix`, if it ends with it.
pub open spec fn strip_suffix(s: Seq<char>, suffix: Seq<char>) -> Option<Seq<char>> {
    if s.len() >= suffix.len() && s.subrange(s.len() - suffix.len(), s.len() as int) == suffix {
        Some(s.subrange(0, s.len() - suffix.len()))
    } else {
        None
    }
}

/// A declared shape is `[rows, cols]`.
pub open spec fn shape_is(shape: Seq<u32>, expected: MatrixShape) -> bool {
    shape.len() == 2 && shape[0] == expected.rows && shape[1] == expected.cols
}

/// Why one projection of a layer is refused: its weight name must end in
/// `.ternary`, its scale name must be the same path ending in `.scales`,
/// both tensors must be listed, the weight must have the layer's shape and
/// the scales must decode as `u16` values.
pub open spec fn projection_refusal(
    ts: Seq<LoadedTensor>,
    weight: String,
    scale: String,
    shape: MatrixShape,
) -> Option<CheckpointImportError> {
    match strip_suffix(weight@, ".ternary"@) {
        None => Some(CheckpointImportError::MissingTernarySuffix { weight }),
        Some(path) => if strip_suffix(scale@, ".scales"@) != Some(path) {
            Some(CheckpointImportError::UnpairedScale { scale, weight })
        } else {
            let w = tensor_index(ts, weight@);
            let s = tensor_index(ts, scale@);
            if w < 0 {
                Some(CheckpointImportError::MissingTensor { name: weight })
            } else if !shape_is(ts[w].shape@, shape) {
                Some(CheckpointImportError::TensorShape { tensor: w as usize, expected: shape })
            } else if s < 0 {
                Some(CheckpointImportError::MissingTensor { name: scale })
            } else if ts[s].byte_len % 2 != 0 {
                Some(CheckpointImportError::TensorDecode { tensor: scale, byte_len: ts[s].byte_len, width: 2 })
            } else {
                None
            }
        },
    }
}

/// Why the layer at position `k` is refused.
pub open spec fn layer_refusal(m: ExportManifest, ts: Seq<LoadedTensor>, k: int) -> Option<CheckpointImportError> {
    let layer = m.layers@[k];
    let up = MatrixShape { rows: m.topology.d_ff, cols: m.topology.d_model };
    let down = MatrixShape { rows: m.topology.d_model, cols: m.topology.d_ff };
    if layer.index != k {
        Some(CheckpointImportError::NonContiguousLayer { position: k as usize, index: layer.index })
    } else if layer.kind@ != "prenorm_residual_ffn"@ {
        Some(CheckpointImportError::UnsupportedConvention { field: ConventionField::LayerKind, observed: layer.kind })
    } else if layer.up_shape != up || layer.down_shape != down {
        Some(CheckpointImportError::LayerShapes { position: k as usize, up: layer.up_shape, down: layer.down_shape })
    } else if projection_refusal(ts, layer.up_ternary, layer.up_scales, layer.up_shape) is Some {
        projection_refusal(ts, layer.up_ternary, layer.up_scales, layer.up_shape)
    } else {
        projection_refusal(ts, layer.down_ternary, layer.down_scales, layer.down_shape)
    }
}

/// The first refusal among the layers from position `k` on.
pub open spec fn layers_refusal_from(m: ExportManifest, ts: Seq<LoadedTensor>, k: int) -> Option<CheckpointImportError>
    decreases m.layers@.len() - k,
{
    if k < 0 || k >= m.layers@.len() {
        None
    } else if layer_refusal(m, ts, k) is Some {
        layer_refusal(m, ts, k)
    } else {
        layers_refusal_from(m, ts, k + 1)
    }
}

/// Why the topology of a manifest whose tensors all loaded is refused: the
/// embedding must be listed with shape `[vocab, d_model]` and decode as
/// `f32` values, `d_model` must fit the `u16` norm tile width, and every
/// layer must be well formed.
pub open spec fn topology_refusal(m: ExportManifest, ts: Seq<LoadedTensor>) -> Option<CheckpointImportError> {
    let e = tensor_index(ts, "embedding"@);
    let t = m.topology;
    if e < 0 {
        Some(CheckpointImportError::MissingEmbedding)
    } else if ts[e].shape@ != seq![t.vocab, t.d_model] {
        Some(CheckpointImportError::EmbeddingShape { tensor: e as usize, vocab: t.vocab, d_model: t.d_model })
    } else if ts[e].byte_len % 4 != 0 {
        Some(CheckpointImportError::EmbeddingDecode { byte_len: ts[e].byte_len })
    } else if t.d_model > 0xffff {
        Some(CheckpointImportError::DModelTooWide { d_model: t.d_model })
    } else {
        layers_refusal_from(m, ts, 0)
    }
}

/// The block that layer `k` declares: its position and the paths of its
/// two projections.
pub open spec fn declared_block(m: ExportManifest, k: int, block: ExportBlockRefs) -> bool {
    &&& block.index == k
    &&& strip_suffix(m.layers@[k].up_ternary@, ".ternary"@) == Some(block.up_projection@)
    &&& strip_suffix(m.layers@[k].down_ternary@, ".ternary"@) == Some(block.down_projection@)
}

/// The topology a manifest declares.
pub open spec fn declared_topology(m: ExportManifest, topology: ExportTopology) -> bool {
    &&& topology.embedding@ == "embedding"@
    &&& topology.d_model == m.topology.d_model
    &&& topology.d_ff == m.topology.d_ff
    &&& topology.vocab == m.topology.vocab
    &&& topology.blocks@.len() == m.layers@.len()
    &&& forall|k: int| 0 <= k < m.layers@.len() ==> declared_block(m, k, #[trigger] topology.blocks@[k])
}

fn find_tensor(ts: &Vec<LoadedTensor>, name: &str) -> (found: Option<usize>)
    ensures
        match found {
            Some(i) => i as int == tensor_index(ts@, name@) && i < ts@.len(),
            None => tensor_index(ts@, name@) == -1,
        },
{
    let wanted = String::from_str(name);
    let mut i: usize = 0;
    while i < ts.len()
        invariant
            i <= ts@.len(),
            wanted@ == name@,
            tensor_index(ts@, name@) == tensor_index_from(ts@, name@, i as int),
        decreases ts@.len() - i,
    {
        if ts[i].name == wanted {
            return Some(i);
        }
        i = i + 1;
    }
    None
}

fn strip_suffix_exec<'a>(s: &'a str, suffix: &str) -> (stripped: Option<&'a str>)
    ensures
        match stripped {
            Some(p) => strip_suffix(s@, suffix@) == Some(p@),
            None => strip_suffix(s@, suffix@) is None,
        },
{
    let n = s.unicode_len();
    let k = suffix.unicode_len();
    if n < k {
        return None;
    }
    let tail = s.substring_char(n - k, n);
    if String::from_str(tail) == String::from_str(suffix) {
        Some(s.substring_char(0, n - k))
    } else {
        None
    }
}

fn check_projection(ts: &Vec<LoadedTensor>, weight: &String, scale: &String, shape: MatrixShape) -> (result: Result<String, CheckpointImportError>)
    ensures
        match projection_refusal(ts@, *weight, *scale, shape) {
            Some(error) => result == Err::<String, CheckpointImportError>(error),
            None => result matches Ok(path) && strip_suffix(weight@, ".ternary"@) == Some(path@),
        },
{
    proof {
        reveal_strlit(".ternary");
        reveal_strlit(".scales");
    }
    let path = match strip_suffix_exec(weight.as_str(), ".ternary") {
        None => {
            return Err(CheckpointImportError::MissingTernarySuffix { weight: weight.clone() });
        },
        Some(path) => path,
    };
    let paired = match strip_suffix_exec(scale.as_str(), ".scales") {
        None => false,
        Some(scale_path) => String::from_str(scale_path) == String::from_str(path),
    };
    if !paired {
        return Err(CheckpointImportError::UnpairedScale { scale: scale.clone(), weight: weight.clone() });
    }
    let w = match find_tensor(ts, weight.as_str()) {
        None => {
            return Err(CheckpointImportError::MissingTensor { name: weight.clone() });
        },
        Some(w) => w,
    };
    let declared = &ts[w].shape;
    if !(declared.len() == 2 && declared[0] == shape.rows && declared[1] == shape.cols) {
        return Err(CheckpointImportError::TensorShape { tensor: w, expected: shape });
    }
    let s = match find_tensor(ts, scale.as_str()) {
        None => {
            return Err(CheckpointImportError::MissingTensor { name: scale.clone() });
        },
        Some(s) => s,
    };
    if ts[s].byte_len % 2 != 0 {
        return Err(CheckpointImportError::TensorDecode { tensor: scale.clone(), byte_len: ts[s].byte_len, width: 2 });
    }
    Ok(String::from_str(path))
}

fn check_layer(m: &ExportManifest, ts: &Vec<LoadedTensor>, k: usize) -> (result: Result<ExportBlockRefs, CheckpointImportError>)
    requires
        k < m.layers@.len(),
    ensures
        match layer_refusal(*m, ts@, k as int) {
            Some(error) => result == Err::<ExportBlockRefs, CheckpointImportError>(error),
            None => result matches Ok(block) && declared_block(*m, k as int, block),
        },
{
    proof {
        reveal_strlit("prenorm_residual_ffn");
    }
    let layer = &m.layers[k];
    let up = MatrixShape { rows: m.topology.d_ff, cols: m.topology.d_model };
    let down = MatrixShape { rows: m.topology.d_model, cols: m.topology.d_ff };
    if layer.index as u64 != k as u64 {
        return Err(CheckpointImportError::NonContiguousLayer { position: k, index: layer.index });
    }
    if !text_is(&layer.kind, "prenorm_residual_ffn") {
        return Err(refuse_text(ConventionField::LayerKind, &layer.kind));
    }
    if layer.up_shape != up || layer.down_shape != down {
        return Err(CheckpointImportError::LayerShapes { position: k, up: layer.up_shape, down: layer.down_shape });
    }
    let up_projection = match check_projection(ts, &layer.up_ternary, &layer.up_scales, layer.up_shape) {
        Err(error) => {
            return Err(error);
        },
        Ok(path) => path,
    };
    let down_projection = match check_projection(ts, &layer.down_ternary, &layer.down_scales, layer.down_shape) {
        Err(error) => {
            return Err(error);
        },
        Ok(path) => path,
    };
    Ok(ExportBlockRefs { index: k, up_projection, down_projection })
}

/// The topology that a manifest whose header passed and whose tensor files
/// all loaded declares, or the first reason it is refused, in the order the
/// importer checks: the embedding, the norm tile width, then each layer in
/// order.
pub fn check_export_topology(m: &ExportManifest, ts: &Vec<LoadedTensor>) -> (result: Result<ExportTopology, CheckpointImportError>)
    ensures
        match topology_refusal(*m, ts@) {
            Some(error) => result == Err::<ExportTopology, CheckpointImportError>(error),
            None => result matches Ok(topology) && declared_topology(*m, topology),
        },
{
    proof {
        reveal_strlit("embedding");
    }
    let e = match find_tensor(ts, "embedding") {
        None => {
            return Err(CheckpointImportError::MissingEmbedding);
        },
        Some(e) => e,
    };
    let t = &m.topology;
    let shape = &ts[e].shape;
    if !(shape.len() == 2 && shape[0] == t.vocab && shape[1] == t.d_model) {
        proof {
            assert(ts@[e as int].shape@ != seq![t.vocab, t.d_model]);
        }
        return Err(CheckpointImportError::EmbeddingShape { tensor: e, vocab: t.vocab, d_model: t.d_model });
    }
    proof {
        assert(ts@[e as int].shape@ =~= seq![t.vocab, t.d_model]);
    }
    if ts[e].byte_len % 4 != 0 {
        return Err(CheckpointImportError::EmbeddingDecode { byte_len: ts[e].byte_len });
    }
    if t.d_model > 0xffff {
        return Err(CheckpointImportError::DModelTooWide { d_model: t.d_model });
    }
    let mut blocks: Vec<ExportBlockRefs> = Vec::new();
    let mut k: usize = 0;
    while k < m.layers.len()
        invariant
            k <= m.layers@.len(),
            blocks@.len() == k,
            layers_refusal_from(*m, ts@, 0) == layers_refusal_from(*m, ts@, k as int),
            topology_refusal(*m, ts@) == layers_refusal_from(*m, ts@, 0),
            forall|j: int| 0 <= j < k ==> declared_block(*m, j, #[trigger] blocks@[j]),
        decreases m.layers@.len() - k,
    {
        match check_layer(m, ts, k) {
            Err(error) => {
                return Err(error);
            },
            Ok(block) => {
                blocks.push(block);
            },
        }
        k = k + 1;
    }
    Ok(
        ExportTopology {
            embedding: String::from_str("embedding"),
            blocks,
            d_model: t.d_model as usize,
            d_ff: t.d_ff as usize,
            vocab: t.vocab as usize,
        },
    )
}


// ------------------------------------------------------------ payloads

/// The signed byte that `b` holds in two's complement.
pub open spec fn signed_byte(b: u8) -> i8 {
    if b < 128 {
        b as i8
    } else {
        (b - 256) as i8
    }
}

/// A ternary weight file's bytes as the signed values they hold.
pub fn decode_i8(bytes: &[u8]) -> (values: Vec<i8>)
    ensures
        values@.len() == bytes@.len(),
        forall|i: int| 0 <= i < bytes@.len() ==> values@[i] == signed_byte(#[trigger] bytes@[i]),
{
    let mut values: Vec<i8> = Vec::new();
    let mut i: usize = 0;
    while i < bytes.len()
        invariant
            i <= bytes@.len(),
            values@.len() == i,
            forall|j: int| 0 <= j < i ==> values@[j] == signed_byte(#[trigger] bytes@[j]),
        decreases bytes@.len() - i,
    {
        let b = bytes[i];
        let v: i8 = if b < 128 {
            b as i8
        } else {
            (b as i16 - 256) as i8
        };
        values.push(v);
        i = i + 1;
    }
    values
}

/// The little-endian `u16` values of `bytes`, two bytes each.
pub open spec fn le_u16s(bytes: Seq<u8>) -> Seq<u16> {
    Seq::new(bytes.len() / 2, |i: int| (bytes[2 * i] + 256 * bytes[2 * i + 1]) as u16)
}

/// A scale file's bytes as little-endian raw Q8.8 values; refused when the
/// file does not hold whole values.
pub fn decode_u16(name: &String, bytes: &[u8]) -> (result: Result<Vec<u16>, CheckpointImportError>)
    ensures
        bytes@.len() % 2 != 0 ==> result == Err::<Vec<u16>, CheckpointImportError>(
            CheckpointImportError::TensorDecode { tensor: *name, byte_len: bytes@.len() as usize, width: 2 },
        ),
        bytes@.len() % 2 == 0 ==> (result matches Ok(values) && values@ == le_u16s(bytes@)),
{
    if bytes.len() % 2 != 0 {
        return Err(CheckpointImportError::TensorDecode { tensor: name.clone(), byte_len: bytes.len(), width: 2 });
    }
    let len = bytes.len();
    let n = len / 2;
    let mut values: Vec<u16> = Vec::new();
    let mut i: usize = 0;
    while i < n
        invariant
            len == bytes@.len(),
            n == bytes@.len() / 2,
            bytes@.len() % 2 == 0,
            i <= n,
            values@ == le_u16s(bytes@).take(i as int),
        decreases n - i,
    {
        assert(2 * i + 1 < bytes@.len()) by (nonlinear_arith)
            requires
                i < n,
                n == bytes@.len() / 2,
                bytes@.len() % 2 == 0,
        ;
        let lo = bytes[2 * i] as u16;
        let hi = bytes[2 * i + 1] as u16;
        values.push(lo + hi * 256);
        proof {
            assert(le_u16s(bytes@).take(i + 1) =~= le_u16s(bytes@).take(i as int).push(le_u16s(bytes@)[i as int]));
        }
        i = i + 1;
    }
    proof {
        assert(le_u16s(bytes@).take(n as int) =~= le_u16s(bytes@));
    }
    Ok(values)
}

} // verus!
