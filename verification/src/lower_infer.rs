//! The typed model program of the dense-bigram class: the op sequence the
//! deployed model executes, as the later stages read it.
//!
//! ```text
//! embed(prev_byte) -> x
//! for each block: norm_quant(x) -> up matvec -> gelu -> down matvec -> x += delta
//! norm_quant(x) -> tied head matvec -> argmax
//! ```
//!
//! Tensor and artifact paths are held as their text. Activation ranges are
//! `f32` values upstream; the program holds each as its IEEE-754 bit pattern.

use vstd::prelude::*;
use crate::text::{append, append_decimal, decimal};
use crate::budget::{ScaleFormat, ScaleGranularity, WeightEncoding};

verus! {

/// A resolved ternary matvec: projection path, weight and scale tensor ids,
/// and the matrix shape.
#[derive(Clone, Debug, PartialEq, Eq)]
pub struct TernaryMatvecOp {
    pub projection: String,
    pub weight: String,
    pub scale: String,
    pub rows: usize,
    pub cols: usize,
}

/// Full-vector RMS norm plus activation quantization.
#[derive(Clone, Debug, PartialEq, Eq)]
pub struct NormQuantOp {
    pub norm: String,
    /// Signed activation grid half-width (127 for int8 symmetric).
    pub qmax: i32,
    /// The bit pattern of the `f32` activation range half-width.
    pub range_bits: u32,
}

/// Elementwise GELU on the activation grid.
#[derive(Clone, Debug, PartialEq, Eq)]
pub struct GeluOp {
    pub activation: String,
    pub qmax: i32,
    /// The bit pattern of the `f32` activation range half-width.
    pub range_bits: u32,
}

/// One pre-norm residual FFN block in execution order.
#[derive(Clone, Debug, PartialEq, Eq)]
pub struct FfnBlockProgram {
    pub index: usize,
    pub norm: NormQuantOp,
    pub up: TernaryMatvecOp,
    pub gelu: GeluOp,
    pub down: TernaryMatvecOp,
}

/// The typed model program of the dense-bigram class.
#[derive(Clone, Debug, PartialEq, Eq)]
pub struct DenseBigramProgram {
    pub d_model: usize,
    pub d_ff: usize,
    pub vocab: usize,
    /// The full-precision embedding tensor, also the tied head.
    pub embedding: String,
    pub blocks: Vec<FfnBlockProgram>,
    pub final_norm: NormQuantOp,
}

/// The six op names of block `k`, in execution order.
pub open spec fn block_op_names(k: nat) -> Seq<Seq<char>> {
    let prefix = "block"@ + decimal(k);
    seq![
        prefix + ".norm_quant"@,
        prefix + ".up.matvec"@,
        prefix + ".up.scale_epilogue"@,
        prefix + ".gelu"@,
        prefix + ".down.matvec"@,
        prefix + ".down.scale_epilogue_residual_add"@,
    ]
}

/// The op names of the blocks whose indices are `indices`, in order.
pub open spec fn blocks_op_names(indices: Seq<usize>) -> Seq<Seq<char>>
    decreases indices.len(),
{
    if indices.len() == 0 {
        Seq::empty()
    } else {
        blocks_op_names(indices.drop_last()) + block_op_names(indices.last() as nat)
    }
}

/// The block indices of `blocks`, in order.
pub open spec fn block_indices(blocks: Seq<FfnBlockProgram>) -> Seq<usize> {
    blocks.map_values(|b: FfnBlockProgram| b.index)
}

/// The names of the program's ops in execution order.
pub open spec fn program_op_names(blocks: Seq<FfnBlockProgram>) -> Seq<Seq<char>> {
    seq!["embed_lookup"@] + blocks_op_names(block_indices(blocks)) + seq![
        "final.norm_quant"@,
        "head.tied_matvec"@,
        "head.argmax"@,
    ]
}

/// Six ops per block.
pub proof fn lemma_blocks_op_names_len(indices: Seq<usize>)
    ensures
        blocks_op_names(indices).len() == 6 * indices.len(),
    decreases indices.len(),
{
    if indices.len() > 0 {
        lemma_blocks_op_names_len(indices.drop_last());
    }
}

/// Op `j` of block `k`, and its name.
pub fn block_op_name(k: usize, j: usize) -> (name: String)
    requires
        j < 6,
    ensures
        name@ == block_op_names(k as nat)[j as int],
{
    let prefix = append_decimal("block".to_owned(), k as u64);
    let tail = if j == 0 {
        ".norm_quant"
    } else if j == 1 {
        ".up.matvec"
    } else if j == 2 {
        ".up.scale_epilogue"
    } else if j == 3 {
        ".gelu"
    } else if j == 4 {
        ".down.matvec"
    } else {
        ".down.scale_epilogue_residual_add"
    };
    append(prefix, tail)
}

impl DenseBigramProgram {
    /// Names of the ops in execution order.
    pub fn op_names(&self) -> (ops: Vec<String>)
        ensures
            ops@.map_values(|s: String| s@) == program_op_names(self.blocks@),
            ops@.len() == 6 * self.blocks@.len() + 4,
    {
        let ghost indices = block_indices(self.blocks@);
        let mut ops: Vec<String> = Vec::new();
        ops.push("embed_lookup".to_owned());
        let mut b: usize = 0;
        while b < self.blocks.len()
            invariant
                b <= self.blocks@.len(),
                indices == block_indices(self.blocks@),
                ops@.map_values(|s: String| s@) == seq!["embed_lookup"@] + blocks_op_names(indices.subrange(0, b as int)),
            decreases self.blocks@.len() - b,
        {
            let k = self.blocks[b].index;
            let mut j: usize = 0;
            while j < 6
                invariant
                    j <= 6,
                    b < self.blocks@.len(),
                    k == indices[b as int],
                    ops@.map_values(|s: String| s@) == seq!["embed_lookup"@] + blocks_op_names(indices.subrange(0, b as int))
                        + block_op_names(k as nat).subrange(0, j as int),
                decreases 6 - j,
            {
                let name = block_op_name(k, j);
                let ghost before = ops@;
                ops.push(name);
                proof {
                    assert(ops@.map_values(|s: String| s@) =~= before.map_values(|s: String| s@).push(
                        block_op_names(k as nat)[j as int],
                    ));
                    assert(block_op_names(k as nat).subrange(0, j + 1) =~= block_op_names(k as nat).subrange(0, j as int).push(
                        block_op_names(k as nat)[j as int],
                    ));
                    assert(ops@.map_values(|s: String| s@) =~= seq!["embed_lookup"@] + blocks_op_names(indices.subrange(0, b as int))
                        + block_op_names(k as nat).subrange(0, j + 1));
                }
                j = j + 1;
            }
            proof {
                assert(indices.subrange(0, b + 1).drop_last() =~= indices.subrange(0, b as int));
                assert(block_op_names(k as nat).subrange(0, 6) =~= block_op_names(k as nat));
                assert(ops@.map_values(|s: String| s@) =~= seq!["embed_lookup"@] + blocks_op_names(indices.subrange(0, b + 1)));
            }
            b = b + 1;
        }
        proof {
            assert(indices.subrange(0, self.blocks@.len() as int) =~= indices);
        }
        ops.push("final.norm_quant".to_owned());
        ops.push("head.tied_matvec".to_owned());
        ops.push("head.argmax".to_owned());
        proof {
            assert(ops@.map_values(|s: String| s@) =~= program_op_names(self.blocks@));
            lemma_blocks_op_names_len(indices);
        }
        ops
    }
}


// ------------------------------------------------------------ lowering

/// A canonical tensor of the artifact as lowering reads it: its identifier,
/// whether it is an embedding, and its shape.
#[derive(Clone, Debug, PartialEq, Eq)]
pub struct TensorFacts {
    pub id: String,
    pub is_embedding: bool,
    pub dims: Vec<u64>,
}

/// A weight quant entry: the tensor it covers and whether it is kept at
/// full precision (has no ternary plan).
#[derive(Clone, Debug, PartialEq, Eq)]
pub struct WeightQuantFacts {
    pub tensor: String,
    pub full_precision: bool,
}

/// A ternary weight plan: its projection, packing and tensors.
#[derive(Clone, Debug, PartialEq, Eq)]
pub struct TernaryPlanFacts {
    pub projection: String,
    pub encoding: WeightEncoding,
    pub scale_granularity: ScaleGranularity,
    pub scale_format: ScaleFormat,
    pub weight: String,
    pub scale: String,
}

/// A norm plan: the norm it covers, whether it is a tile-RMS-then-affine-clip
/// plan, and the bit pattern of its `f32` clip bound.
#[derive(Clone, Debug, PartialEq, Eq)]
pub struct NormPlanFacts {
    pub norm: String,
    pub tile_rms_then_affine_clip: bool,
    pub clip_hi_bits: u32,
}

/// The nonlinearity an activation quant entry applies.
#[derive(Clone, Copy, Debug, PartialEq, Eq, Structural)]
pub enum ActivationNonlinearity {
    Identity,
    GeluClip,
    Other,
}

/// An activation quant entry: its activation, nonlinearity, whether its
/// `f32` range is symmetric, and the bit pattern of its upper bound.
#[derive(Clone, Debug, PartialEq, Eq)]
pub struct ActivationFacts {
    pub activation: String,
    pub nonlinearity: ActivationNonlinearity,
    pub symmetric_range: bool,
    pub range_hi_bits: u32,
}

/// What inference lowering reads of an artifact core.
#[derive(Clone, Debug, PartialEq, Eq)]
pub struct ArtifactFacts {
    pub tensors: Vec<TensorFacts>,
    pub weight_quant: Vec<WeightQuantFacts>,
    pub ternary_plans: Vec<TernaryPlanFacts>,
    pub norm_plans: Vec<NormPlanFacts>,
    pub activations: Vec<ActivationFacts>,
}

/// Projection paths for one pre-norm residual FFN block.
#[derive(Clone, Debug, PartialEq, Eq)]
pub struct ExportBlockRefs {
    pub index: usize,
    pub up_projection: String,
    pub down_projection: String,
}

/// The topology of a checkpoint export.
#[derive(Clone, Debug, PartialEq, Eq)]
pub struct ExportTopology {
    /// The full-precision embedding, also the tied head.
    pub embedding: String,
    /// Blocks in execution order.
    pub blocks: Vec<ExportBlockRefs>,
    pub d_model: usize,
    pub d_ff: usize,
    pub vocab: usize,
}

/// Why inference lowering refuses an artifact.
#[derive(Clone, Debug, PartialEq, Eq)]
pub enum LowerInferError {
    MissingTernaryEntry { projection: String },
    UnsupportedTernaryPlan { projection: String, reason: &'static str },
    MissingTensor { id: String },
    MissingEmbeddingQuantEntry,
    EmbeddingKindMismatch { id: String },
    ShapeChainBroken { what: String },
    MissingNormPlan { norm: String },
    UnsupportedNormPlan { norm: String, reason: &'static str },
    MissingActivationEntry { activation: String },
    UnsupportedActivationEntry { activation: String, reason: &'static str },
}

/// A refusal of inference lowering, as values.
pub enum LowerInferErrorView {
    MissingTernaryEntry { projection: Seq<char> },
    UnsupportedTernaryPlan { projection: Seq<char>, reason: Seq<char> },
    MissingTensor { id: Seq<char> },
    MissingEmbeddingQuantEntry,
    EmbeddingKindMismatch { id: Seq<char> },
    ShapeChainBroken { what: Seq<char> },
    MissingNormPlan { norm: Seq<char> },
    UnsupportedNormPlan { norm: Seq<char>, reason: Seq<char> },
    MissingActivationEntry { activation: Seq<char> },
    UnsupportedActivationEntry { activation: Seq<char>, reason: Seq<char> },
}

impl View for LowerInferError {
    type V = LowerInferErrorView;

    open spec fn view(&self) -> LowerInferErrorView {
        match self {
            LowerInferError::MissingTernaryEntry { projection } => LowerInferErrorView::MissingTernaryEntry {
                projection: projection@,
            },
            LowerInferError::UnsupportedTernaryPlan { projection, reason } => LowerInferErrorView::UnsupportedTernaryPlan {
                projection: projection@,
                reason: reason@,
            },
            LowerInferError::MissingTensor { id } => LowerInferErrorView::MissingTensor { id: id@ },
            LowerInferError::MissingEmbeddingQuantEntry => LowerInferErrorView::MissingEmbeddingQuantEntry,
            LowerInferError::EmbeddingKindMismatch { id } => LowerInferErrorView::EmbeddingKindMismatch { id: id@ },
            LowerInferError::ShapeChainBroken { what } => LowerInferErrorView::ShapeChainBroken { what: what@ },
            LowerInferError::MissingNormPlan { norm } => LowerInferErrorView::MissingNormPlan { norm: norm@ },
            LowerInferError::UnsupportedNormPlan { norm, reason } => LowerInferErrorView::UnsupportedNormPlan {
                norm: norm@,
                reason: reason@,
            },
            LowerInferError::MissingActivationEntry { activation } => LowerInferErrorView::MissingActivationEntry {
                activation: activation@,
            },
            LowerInferError::UnsupportedActivationEntry { activation, reason } => LowerInferErrorView::UnsupportedActivationEntry {
                activation: activation@,
                reason: reason@,
            },
        }
    }
}

/// A ternary matvec, as values.
pub struct MatvecView {
    pub projection: Seq<char>,
    pub weight: Seq<char>,
    pub scale: Seq<char>,
    pub rows: usize,
    pub cols: usize,
}

impl View for TernaryMatvecOp {
    type V = MatvecView;

    open spec fn view(&self) -> MatvecView {
        MatvecView {
            projection: self.projection@,
            weight: self.weight@,
            scale: self.scale@,
            rows: self.rows,
            cols: self.cols,
        }
    }
}

/// A norm-quant op or a GELU op, as values: its path, grid and range.
pub struct GridOpView {
    pub path: Seq<char>,
    pub qmax: i32,
    pub range_bits: u32,
}

impl View for NormQuantOp {
    type V = GridOpView;

    open spec fn view(&self) -> GridOpView {
        GridOpView { path: self.norm@, qmax: self.qmax, range_bits: self.range_bits }
    }
}

impl View for GeluOp {
    type V = GridOpView;

    open spec fn view(&self) -> GridOpView {
        GridOpView { path: self.activation@, qmax: self.qmax, range_bits: self.range_bits }
    }
}

/// One FFN block, as values.
pub struct BlockView {
    pub index: usize,
    pub norm: GridOpView,
    pub up: MatvecView,
    pub gelu: GridOpView,
    pub down: MatvecView,
}

impl View for FfnBlockProgram {
    type V = BlockView;

    open spec fn view(&self) -> BlockView {
        BlockView { index: self.index, norm: self.norm@, up: self.up@, gelu: self.gelu@, down: self.down@ }
    }
}

/// The blocks as values.
pub open spec fn block_views(blocks: Seq<FfnBlockProgram>) -> Seq<BlockView> {
    blocks.map_values(|block: FfnBlockProgram| block@)
}

/// The typed model program, as values.
pub struct ProgramView {
    pub d_model: usize,
    pub d_ff: usize,
    pub vocab: usize,
    pub embedding: Seq<char>,
    pub blocks: Seq<BlockView>,
    pub final_norm: GridOpView,
}

impl View for DenseBigramProgram {
    type V = ProgramView;

    open spec fn view(&self) -> ProgramView {
        ProgramView {
            d_model: self.d_model,
            d_ff: self.d_ff,
            vocab: self.vocab,
            embedding: self.embedding@,
            blocks: block_views(self.blocks@),
            final_norm: self.final_norm@,
        }
    }
}

/// The position of the last tensor with identifier `id`: later tensors of
/// one identifier replace earlier ones.
#[verifier::opaque]
pub open spec fn last_tensor(tensors: Seq<TensorFacts>, id: Seq<char>) -> Option<int> {
    if exists|i: int| 0 <= i < tensors.len() && (#[trigger] tensors[i]).id@ == id {
        Some(
            choose|i: int|
                0 <= i < tensors.len() && tensors[i].id@ == id && forall|j: int|
                    i < j < tensors.len() ==> (#[trigger] tensors[j]).id@ != id,
        )
    } else {
        None
    }
}

fn find_last_tensor(tensors: &Vec<TensorFacts>, id: &String) -> (found: Option<usize>)
    ensures
        found matches Some(i) ==> i < tensors@.len() && last_tensor(tensors@, id@) == Some(i as int),
        found is None ==> last_tensor(tensors@, id@) is None,
{
    reveal(last_tensor);
    let mut found: Option<usize> = None;
    let mut i: usize = 0;
    while i < tensors.len()
        invariant
            i <= tensors@.len(),
            found matches Some(f) ==> f < i && tensors@[f as int].id@ == id@ && forall|j: int|
                f < j < i ==> (#[trigger] tensors@[j]).id@ != id@,
            found is None ==> forall|j: int| 0 <= j < i ==> (#[trigger] tensors@[j]).id@ != id@,
        decreases tensors@.len() - i,
    {
        if tensors[i].id == *id {
            found = Some(i);
        }
        i = i + 1;
    }
    proof {
        if let Some(f) = found {
            let c = choose|c: int|
                0 <= c < tensors@.len() && tensors@[c].id@ == id@ && forall|j: int|
                    c < j < tensors@.len() ==> (#[trigger] tensors@[j]).id@ != id@;
            if c < f {
                assert(tensors@[f as int].id@ != id@);
            }
            if c > f {
                assert(tensors@[c].id@ != id@);
            }
        }
    }
    found
}

/// The full-precision weight entry `k` resolves an embedding tensor.
pub open spec fn resolves_embedding(facts: ArtifactFacts, k: int) -> bool {
    let entry = facts.weight_quant@[k];
    &&& entry.full_precision
    &&& last_tensor(facts.tensors@, entry.tensor@) is Some
    &&& facts.tensors@[last_tensor(facts.tensors@, entry.tensor@)->Some_0].is_embedding
}

/// The first full-precision weight entry that resolves an embedding tensor.
#[verifier::opaque]
pub open spec fn embedding_entry(facts: ArtifactFacts) -> Option<int> {
    if exists|k: int| 0 <= k < facts.weight_quant@.len() && #[trigger] resolves_embedding(facts, k) {
        Some(
            choose|k: int|
                0 <= k < facts.weight_quant@.len() && resolves_embedding(facts, k) && forall|j: int|
                    0 <= j < k ==> !#[trigger] resolves_embedding(facts, j),
        )
    } else {
        None
    }
}

/// The first activation entry with `nonlinearity`.
#[verifier::opaque]
pub open spec fn activation_entry(facts: ArtifactFacts, nonlinearity: ActivationNonlinearity) -> Option<int> {
    let entries = facts.activations@;
    if exists|k: int| 0 <= k < entries.len() && (#[trigger] entries[k]).nonlinearity == nonlinearity {
        Some(
            choose|k: int|
                0 <= k < entries.len() && entries[k].nonlinearity == nonlinearity && forall|j: int|
                    0 <= j < k ==> (#[trigger] entries[j]).nonlinearity != nonlinearity,
        )
    } else {
        None
    }
}

/// The first ternary plan of `projection`.
#[verifier::opaque]
pub open spec fn ternary_plan_of(facts: ArtifactFacts, projection: Seq<char>) -> Option<int> {
    let plans = facts.ternary_plans@;
    if exists|k: int| 0 <= k < plans.len() && (#[trigger] plans[k]).projection@ == projection {
        Some(
            choose|k: int|
                0 <= k < plans.len() && plans[k].projection@ == projection && forall|j: int|
                    0 <= j < k ==> (#[trigger] plans[j]).projection@ != projection,
        )
    } else {
        None
    }
}

/// The first norm plan of `norm`.
#[verifier::opaque]
pub open spec fn norm_plan_of(facts: ArtifactFacts, norm: Seq<char>) -> Option<int> {
    let plans = facts.norm_plans@;
    if exists|k: int| 0 <= k < plans.len() && (#[trigger] plans[k]).norm@ == norm {
        Some(
            choose|k: int|
                0 <= k < plans.len() && plans[k].norm@ == norm && forall|j: int| 0 <= j < k ==> (#[trigger] plans[j]).norm@ != norm,
        )
    } else {
        None
    }
}

/// The matvec of `projection`, resolved through its ternary plan: only
/// ternary-2 weights with per-row Q8.8 scales lower.
#[verifier::opaque]
pub open spec fn spec_resolve_matvec(facts: ArtifactFacts, projection: Seq<char>) -> Result<MatvecView, LowerInferErrorView> {
    match ternary_plan_of(facts, projection) {
        None => Err(LowerInferErrorView::MissingTernaryEntry { projection }),
        Some(k) => {
            let plan = facts.ternary_plans@[k];
            if plan.encoding != WeightEncoding::Ternary2 {
                Err(
                    LowerInferErrorView::UnsupportedTernaryPlan {
                        projection,
                        reason: "only Ternary2 encoding is lowerable"@,
                    },
                )
            } else if plan.scale_granularity != ScaleGranularity::PerOutputRow {
                Err(
                    LowerInferErrorView::UnsupportedTernaryPlan {
                        projection,
                        reason: "only per-output-row scales are lowerable"@,
                    },
                )
            } else if plan.scale_format != ScaleFormat::Q8_8 {
                Err(LowerInferErrorView::UnsupportedTernaryPlan { projection, reason: "only Q8.8 scales are lowerable"@ })
            } else {
                match last_tensor(facts.tensors@, plan.weight@) {
                    None => Err(LowerInferErrorView::MissingTensor { id: plan.weight@ }),
                    Some(t) => {
                        let dims = facts.tensors@[t].dims@;
                        Ok(
                            MatvecView {
                                projection,
                                weight: plan.weight@,
                                scale: plan.scale@,
                                rows: dims[0] as usize,
                                cols: dims[1] as usize,
                            },
                        )
                    },
                }
            }
        },
    }
}

/// Resolving `projection` reads a weight tensor of at least two dimensions,
/// when it gets that far.
pub open spec fn matvec_shape_readable(facts: ArtifactFacts, projection: Seq<char>) -> bool {
    match ternary_plan_of(facts, projection) {
        None => true,
        Some(k) => match last_tensor(facts.tensors@, facts.ternary_plans@[k].weight@) {
            None => true,
            Some(t) => facts.tensors@[t].dims@.len() >= 2,
        },
    }
}

/// The norm-quant op of `norm`: only tile-RMS-then-affine-clip norms lower.
#[verifier::opaque]
pub open spec fn spec_resolve_norm(facts: ArtifactFacts, norm: Seq<char>) -> Result<GridOpView, LowerInferErrorView> {
    match norm_plan_of(facts, norm) {
        None => Err(LowerInferErrorView::MissingNormPlan { norm }),
        Some(k) => {
            let plan = facts.norm_plans@[k];
            if !plan.tile_rms_then_affine_clip {
                Err(
                    LowerInferErrorView::UnsupportedNormPlan {
                        norm,
                        reason: "only tile-RMS-then-affine-clip norms are lowerable"@,
                    },
                )
            } else {
                Ok(GridOpView { path: norm, qmax: 127, range_bits: plan.clip_hi_bits })
            }
        },
    }
}

/// The path of the norm of block `index`.
pub open spec fn block_norm_path(index: usize) -> Seq<char> {
    "block"@ + decimal(index as nat) + ".norm"@
}

/// The numbers of `dims` in decimal, separated by a comma and a space.
pub open spec fn joined_decimals(dims: Seq<u64>) -> Seq<char>
    decreases dims.len(),
{
    if dims.len() == 0 {
        Seq::empty()
    } else if dims.len() == 1 {
        decimal(dims[0] as nat)
    } else {
        joined_decimals(dims.drop_last()) + ", "@ + decimal(dims.last() as nat)
    }
}

/// `dims` as `Debug` writes a list of numbers.
pub open spec fn dims_text(dims: Seq<u64>) -> Seq<char> {
    "["@ + joined_decimals(dims) + "]"@
}

/// The text of a matrix-shape break in block `index`.
pub open spec fn shape_break_text(index: usize, which: Seq<char>, rows: usize, cols: usize, want_rows: usize, want_cols: usize) -> Seq<char> {
    "block "@ + decimal(index as nat) + " "@ + which + " "@ + decimal(rows as nat) + "x"@ + decimal(cols as nat)
        + " vs expected "@ + decimal(want_rows as nat) + "x"@ + decimal(want_cols as nat)
}

/// Block `b` of the topology lowered, with the GELU of `gelu`.
#[verifier::opaque]
pub open spec fn spec_lower_block(
    facts: ArtifactFacts,
    topology: ExportTopology,
    b: int,
    gelu: ActivationFacts,
) -> Result<BlockView, LowerInferErrorView> {
    let block = topology.blocks@[b];
    match spec_resolve_matvec(facts, block.up_projection@) {
        Err(failure) => Err(failure),
        Ok(up) => match spec_resolve_matvec(facts, block.down_projection@) {
            Err(failure) => Err(failure),
            Ok(down) => {
                if up.cols != topology.d_model || up.rows != topology.d_ff {
                    Err(
                        LowerInferErrorView::ShapeChainBroken {
                            what: shape_break_text(block.index, "up"@, up.rows, up.cols, topology.d_ff, topology.d_model),
                        },
                    )
                } else if down.cols != topology.d_ff || down.rows != topology.d_model {
                    Err(
                        LowerInferErrorView::ShapeChainBroken {
                            what: shape_break_text(block.index, "down"@, down.rows, down.cols, topology.d_model, topology.d_ff),
                        },
                    )
                } else {
                    match spec_resolve_norm(facts, block_norm_path(block.index)) {
                        Err(failure) => Err(failure),
                        Ok(norm) => Ok(
                            BlockView {
                                index: block.index,
                                norm,
                                up,
                                gelu: GridOpView { path: gelu.activation@, qmax: 127, range_bits: gelu.range_hi_bits },
                                down,
                            },
                        ),
                    }
                }
            },
        },
    }
}

/// The first `n` blocks lowered in order, or the first refusal.
pub open spec fn spec_lower_blocks(facts: ArtifactFacts, topology: ExportTopology, n: int, gelu: ActivationFacts) -> Result<
    Seq<BlockView>,
    LowerInferErrorView,
>
    decreases n,
{
    if n <= 0 {
        Ok(Seq::empty())
    } else {
        match spec_lower_blocks(facts, topology, n - 1, gelu) {
            Err(failure) => Err(failure),
            Ok(blocks) => match spec_lower_block(facts, topology, n - 1, gelu) {
                Err(failure) => Err(failure),
                Ok(block) => Ok(blocks.push(block)),
            },
        }
    }
}

/// Lowering reads only weight tensors of at least two dimensions.
pub open spec fn lowering_shapes_readable(facts: ArtifactFacts, topology: ExportTopology) -> bool {
    forall|b: int|
        0 <= b < topology.blocks@.len() ==> matvec_shape_readable(facts, (#[trigger] topology.blocks@[b]).up_projection@)
            && matvec_shape_readable(facts, topology.blocks@[b].down_projection@)
}

/// The program of `facts` and `topology` once its embedding and activation
/// entries are resolved: each block in order, then the final norm.
pub open spec fn spec_lower_program(
    facts: ArtifactFacts,
    topology: ExportTopology,
    gelu: ActivationFacts,
    embedding: Seq<char>,
) -> Result<ProgramView, LowerInferErrorView> {
    match spec_lower_blocks(facts, topology, topology.blocks@.len() as int, gelu) {
        Err(failure) => Err(failure),
        Ok(blocks) => match spec_resolve_norm(facts, "final.norm"@) {
            Err(failure) => Err(failure),
            Ok(final_norm) => Ok(
                ProgramView {
                    d_model: topology.d_model,
                    d_ff: topology.d_ff,
                    vocab: topology.vocab,
                    embedding,
                    blocks,
                    final_norm,
                },
            ),
        },
    }
}

/// The typed program of `facts` and `topology`, or the first refusal: the
/// embedding resolved through a full-precision weight entry and checked
/// against the topology, the norm-quant and GELU activation entries, which
/// must have symmetric ranges, each block in order, and the final norm.
pub open spec fn spec_lower_infer(facts: ArtifactFacts, topology: ExportTopology) -> Result<ProgramView, LowerInferErrorView> {
    match embedding_entry(facts) {
        None => Err(LowerInferErrorView::MissingEmbeddingQuantEntry),
        Some(e) => {
            let entry = facts.weight_quant@[e];
            let dims = facts.tensors@[last_tensor(facts.tensors@, entry.tensor@)->Some_0].dims@;
            if entry.tensor@ != topology.embedding@ {
                Err(LowerInferErrorView::EmbeddingKindMismatch { id: topology.embedding@ })
            } else if dims.len() != 2 || dims[0] as usize != topology.vocab || dims[1] as usize != topology.d_model {
                Err(
                    LowerInferErrorView::ShapeChainBroken {
                        what: "embedding shape "@ + dims_text(dims) + " vs topology ["@ + decimal(topology.vocab as nat) + ", "@
                            + decimal(topology.d_model as nat) + "]"@,
                    },
                )
            } else if activation_entry(facts, ActivationNonlinearity::Identity) is None {
                Err(LowerInferErrorView::MissingActivationEntry { activation: "activation.norm_quant"@ })
            } else if activation_entry(facts, ActivationNonlinearity::GeluClip) is None {
                Err(LowerInferErrorView::MissingActivationEntry { activation: "activation.ffn_gelu"@ })
            } else {
                let norm_act = facts.activations@[activation_entry(facts, ActivationNonlinearity::Identity)->Some_0];
                let gelu_act = facts.activations@[activation_entry(facts, ActivationNonlinearity::GeluClip)->Some_0];
                if !norm_act.symmetric_range {
                    Err(
                        LowerInferErrorView::UnsupportedActivationEntry {
                            activation: norm_act.activation@,
                            reason: "activation range must be symmetric"@,
                        },
                    )
                } else if !gelu_act.symmetric_range {
                    Err(
                        LowerInferErrorView::UnsupportedActivationEntry {
                            activation: gelu_act.activation@,
                            reason: "activation range must be symmetric"@,
                        },
                    )
                } else {
                    spec_lower_program(facts, topology, gelu_act, entry.tensor@)
                }
            }
        },
    }
}

/// `result` as values.
pub open spec fn lowered_view(result: Result<DenseBigramProgram, LowerInferError>) -> Result<ProgramView, LowerInferErrorView> {
    match result {
        Ok(program) => Ok(program@),
        Err(failure) => Err(failure@),
    }
}

fn dims_string(dims: &Vec<u64>) -> (text: String)
    ensures
        text@ == dims_text(dims@),
{
    let mut text = "[".to_owned();
    let mut i: usize = 0;
    while i < dims.len()
        invariant
            i <= dims@.len(),
            text@ == "["@ + joined_decimals(dims@.take(i as int)),
        decreases dims@.len() - i,
    {
        let ghost before = text@;
        proof {
            assert(dims@.take(i + 1).drop_last() =~= dims@.take(i as int));
            assert(dims@.take(i + 1).last() == dims@[i as int]);
        }
        if i > 0 {
            text = append(text, ", ");
        } else {
            proof {
                assert(dims@.take(0) =~= Seq::<u64>::empty());
                assert(before =~= "["@ + Seq::<char>::empty());
            }
        }
        text = append_decimal(text, dims[i]);
        proof {
            if i > 0 {
                assert(text@ =~= "["@ + joined_decimals(dims@.take(i + 1)));
            } else {
                assert(dims@.take(1).len() == 1);
                assert(text@ =~= "["@ + joined_decimals(dims@.take(i + 1)));
            }
        }
        i = i + 1;
    }
    proof {
        assert(dims@.take(i as int) =~= dims@);
    }
    append(text, "]")
}

fn shape_break(index: usize, which: &str, rows: usize, cols: usize, want_rows: usize, want_cols: usize) -> (text: String)
    ensures
        text@ == shape_break_text(index, which@, rows, cols, want_rows, want_cols),
{
    let text = append_decimal("block ".to_owned(), index as u64);
    let text = append(text, " ");
    let text = append(text, which);
    let text = append(text, " ");
    let text = append_decimal(text, rows as u64);
    let text = append(text, "x");
    let text = append_decimal(text, cols as u64);
    let text = append(text, " vs expected ");
    let text = append_decimal(text, want_rows as u64);
    let text = append(text, "x");
    let text = append_decimal(text, want_cols as u64);
    proof {
        assert(text@ =~= shape_break_text(index, which@, rows, cols, want_rows, want_cols));
    }
    text
}

fn find_embedding_entry(facts: &ArtifactFacts) -> (found: Option<(usize, usize)>)
    ensures
        found matches Some((e, t)) ==> embedding_entry(*facts) == Some(e as int) && e < facts.weight_quant@.len()
            && last_tensor(facts.tensors@, facts.weight_quant@[e as int].tensor@) == Some(t as int) && t < facts.tensors@.len(),
        found is None ==> embedding_entry(*facts) is None,
{
    reveal(embedding_entry);
    let mut k: usize = 0;
    while k < facts.weight_quant.len()
        invariant
            k <= facts.weight_quant@.len(),
            forall|j: int| 0 <= j < k ==> !#[trigger] resolves_embedding(*facts, j),
        decreases facts.weight_quant@.len() - k,
    {
        let entry = &facts.weight_quant[k];
        if entry.full_precision {
            if let Some(t) = find_last_tensor(&facts.tensors, &entry.tensor) {
                if facts.tensors[t].is_embedding {
                    proof {
                        reveal(embedding_entry);
                        assert(resolves_embedding(*facts, k as int));
                        let c = choose|c: int|
                            0 <= c < facts.weight_quant@.len() && resolves_embedding(*facts, c) && forall|j: int|
                                0 <= j < c ==> !#[trigger] resolves_embedding(*facts, j);
                        if c > k {
                            assert(!resolves_embedding(*facts, k as int));
                        }
                    }
                    return Some((k, t));
                }
            }
        }
        k = k + 1;
    }
    None
}

fn find_activation(facts: &ArtifactFacts, nonlinearity: ActivationNonlinearity) -> (found: Option<usize>)
    ensures
        found matches Some(k) ==> k < facts.activations@.len() && activation_entry(*facts, nonlinearity) == Some(k as int),
        found is None ==> activation_entry(*facts, nonlinearity) is None,
{
    reveal(activation_entry);
    let entries = &facts.activations;
    let mut k: usize = 0;
    while k < entries.len()
        invariant
            k <= entries@.len(),
            entries == &facts.activations,
            forall|j: int| 0 <= j < k ==> (#[trigger] entries@[j]).nonlinearity != nonlinearity,
        decreases entries@.len() - k,
    {
        if entries[k].nonlinearity == nonlinearity {
            proof {
                reveal(activation_entry);
                let c = choose|c: int|
                    0 <= c < entries@.len() && entries@[c].nonlinearity == nonlinearity && forall|j: int|
                        0 <= j < c ==> (#[trigger] entries@[j]).nonlinearity != nonlinearity;
                if c > k {
                    assert(entries@[k as int].nonlinearity != nonlinearity);
                }
            }
            return Some(k);
        }
        k = k + 1;
    }
    None
}

fn find_ternary_plan(facts: &ArtifactFacts, projection: &String) -> (found: Option<usize>)
    ensures
        found matches Some(k) ==> k < facts.ternary_plans@.len() && ternary_plan_of(*facts, projection@) == Some(k as int),
        found is None ==> ternary_plan_of(*facts, projection@) is None,
{
    reveal(ternary_plan_of);
    let plans = &facts.ternary_plans;
    let mut k: usize = 0;
    while k < plans.len()
        invariant
            k <= plans@.len(),
            plans == &facts.ternary_plans,
            forall|j: int| 0 <= j < k ==> (#[trigger] plans@[j]).projection@ != projection@,
        decreases plans@.len() - k,
    {
        if plans[k].projection == *projection {
            proof {
                reveal(ternary_plan_of);
                let c = choose|c: int|
                    0 <= c < plans@.len() && plans@[c].projection@ == projection@ && forall|j: int|
                        0 <= j < c ==> (#[trigger] plans@[j]).projection@ != projection@;
                if c > k {
                    assert(plans@[k as int].projection@ != projection@);
                }
            }
            return Some(k);
        }
        k = k + 1;
    }
    None
}

fn find_norm_plan(facts: &ArtifactFacts, norm: &String) -> (found: Option<usize>)
    ensures
        found matches Some(k) ==> k < facts.norm_plans@.len() && norm_plan_of(*facts, norm@) == Some(k as int),
        found is None ==> norm_plan_of(*facts, norm@) is None,
{
    reveal(norm_plan_of);
    let plans = &facts.norm_plans;
    let mut k: usize = 0;
    while k < plans.len()
        invariant
            k <= plans@.len(),
            plans == &facts.norm_plans,
            forall|j: int| 0 <= j < k ==> (#[trigger] plans@[j]).norm@ != norm@,
        decreases plans@.len() - k,
    {
        if plans[k].norm == *norm {
            proof {
                reveal(norm_plan_of);
                let c = choose|c: int|
                    0 <= c < plans@.len() && plans@[c].norm@ == norm@ && forall|j: int|
                        0 <= j < c ==> (#[trigger] plans@[j]).norm@ != norm@;
                if c > k {
                    assert(plans@[k as int].norm@ != norm@);
                }
            }
            return Some(k);
        }
        k = k + 1;
    }
    None
}

/// The matvec of `projection`, resolved through its ternary plan.
fn resolve_matvec(facts: &ArtifactFacts, projection: &String) -> (resolved: Result<TernaryMatvecOp, LowerInferError>)
    requires
        matvec_shape_readable(*facts, projection@),
    ensures
        match resolved {
            Ok(op) => spec_resolve_matvec(*facts, projection@) == Ok::<MatvecView, LowerInferErrorView>(op@),
            Err(failure) => spec_resolve_matvec(*facts, projection@) == Err::<MatvecView, LowerInferErrorView>(failure@),
        },
{
    reveal(spec_resolve_matvec);
    let k = match find_ternary_plan(facts, projection) {
        Some(k) => k,
        None => {
            return Err(LowerInferError::MissingTernaryEntry { projection: projection.clone() });
        },
    };
    let plan = &facts.ternary_plans[k];
    if plan.encoding != WeightEncoding::Ternary2 {
        return Err(
            LowerInferError::UnsupportedTernaryPlan {
                projection: projection.clone(),
                reason: "only Ternary2 encoding is lowerable",
            },
        );
    }
    if plan.scale_granularity != ScaleGranularity::PerOutputRow {
        return Err(
            LowerInferError::UnsupportedTernaryPlan {
                projection: projection.clone(),
                reason: "only per-output-row scales are lowerable",
            },
        );
    }
    if plan.scale_format != ScaleFormat::Q8_8 {
        return Err(
            LowerInferError::UnsupportedTernaryPlan {
                projection: projection.clone(),
                reason: "only Q8.8 scales are lowerable",
            },
        );
    }
    let t = match find_last_tensor(&facts.tensors, &plan.weight) {
        Some(t) => t,
        None => {
            return Err(LowerInferError::MissingTensor { id: plan.weight.clone() });
        },
    };
    let dims = &facts.tensors[t].dims;
    Ok(
        TernaryMatvecOp {
            projection: projection.clone(),
            weight: plan.weight.clone(),
            scale: plan.scale.clone(),
            rows: dims[0] as usize,
            cols: dims[1] as usize,
        },
    )
}

/// The norm-quant op of `norm`.
fn resolve_norm(facts: &ArtifactFacts, norm: String) -> (resolved: Result<NormQuantOp, LowerInferError>)
    ensures
        match resolved {
            Ok(op) => spec_resolve_norm(*facts, norm@) == Ok::<GridOpView, LowerInferErrorView>(op@),
            Err(failure) => spec_resolve_norm(*facts, norm@) == Err::<GridOpView, LowerInferErrorView>(failure@),
        },
{
    reveal(spec_resolve_norm);
    let k = match find_norm_plan(facts, &norm) {
        Some(k) => k,
        None => {
            return Err(LowerInferError::MissingNormPlan { norm });
        },
    };
    let plan = &facts.norm_plans[k];
    if !plan.tile_rms_then_affine_clip {
        return Err(
            LowerInferError::UnsupportedNormPlan { norm, reason: "only tile-RMS-then-affine-clip norms are lowerable" },
        );
    }
    Ok(NormQuantOp { norm, qmax: 127, range_bits: plan.clip_hi_bits })
}

/// Lowers block `b` of the topology.
fn lower_block(
    facts: &ArtifactFacts,
    topology: &ExportTopology,
    b: usize,
    gelu: &ActivationFacts,
) -> (lowered: Result<FfnBlockProgram, LowerInferError>)
    requires
        b < topology.blocks@.len(),
        lowering_shapes_readable(*facts, *topology),
    ensures
        match lowered {
            Ok(block) => spec_lower_block(*facts, *topology, b as int, *gelu) == Ok::<BlockView, LowerInferErrorView>(block@),
            Err(failure) => spec_lower_block(*facts, *topology, b as int, *gelu) == Err::<BlockView, LowerInferErrorView>(
                failure@,
            ),
        },
{
    reveal(spec_lower_block);
    let block = &topology.blocks[b];
    proof {
        assert(matvec_shape_readable(*facts, topology.blocks@[b as int].up_projection@));
    }
    let up = resolve_matvec(facts, &block.up_projection)?;
    let down = resolve_matvec(facts, &block.down_projection)?;
    if up.cols != topology.d_model || up.rows != topology.d_ff {
        return Err(
            LowerInferError::ShapeChainBroken {
                what: shape_break(block.index, "up", up.rows, up.cols, topology.d_ff, topology.d_model),
            },
        );
    }
    if down.cols != topology.d_ff || down.rows != topology.d_model {
        return Err(
            LowerInferError::ShapeChainBroken {
                what: shape_break(block.index, "down", down.rows, down.cols, topology.d_model, topology.d_ff),
            },
        );
    }
    let norm_path = append(append_decimal("block".to_owned(), block.index as u64), ".norm");
    let norm = resolve_norm(facts, norm_path)?;
    Ok(
        FfnBlockProgram {
            index: block.index,
            norm,
            gelu: GeluOp { activation: gelu.activation.clone(), qmax: 127, range_bits: gelu.range_hi_bits },
            up,
            down,
        },
    )
}

/// Lowers the artifact facts and the export topology into the typed model
/// program. Every reference resolves through the quant entries; shape
/// chains are checked end to end.
pub fn lower_infer(facts: &ArtifactFacts, topology: &ExportTopology) -> (result: Result<DenseBigramProgram, LowerInferError>)
    requires
        lowering_shapes_readable(*facts, *topology),
    ensures
        lowered_view(result) == spec_lower_infer(*facts, *topology),
{
    let (e, t) = match find_embedding_entry(facts) {
        Some(found) => found,
        None => {
            return Err(LowerInferError::MissingEmbeddingQuantEntry);
        },
    };
    let entry = &facts.weight_quant[e];
    if entry.tensor != topology.embedding {
        return Err(LowerInferError::EmbeddingKindMismatch { id: topology.embedding.clone() });
    }
    let dims = &facts.tensors[t].dims;
    if dims.len() != 2 || dims[0] as usize != topology.vocab || dims[1] as usize != topology.d_model {
        let shape = dims_string(dims);
        let what = append("embedding shape ".to_owned(), shape.as_str());
        let what = append(what, " vs topology [");
        let what = append_decimal(what, topology.vocab as u64);
        let what = append(what, ", ");
        let what = append_decimal(what, topology.d_model as u64);
        let what = append(what, "]");
        proof {
            assert(what@ =~= "embedding shape "@ + dims_text(dims@) + " vs topology ["@ + decimal(topology.vocab as nat) + ", "@
                + decimal(topology.d_model as nat) + "]"@);
        }
        return Err(LowerInferError::ShapeChainBroken { what });
    }
    let norm_index = match find_activation(facts, ActivationNonlinearity::Identity) {
        Some(k) => k,
        None => {
            return Err(LowerInferError::MissingActivationEntry { activation: "activation.norm_quant".to_owned() });
        },
    };
    let gelu_index = match find_activation(facts, ActivationNonlinearity::GeluClip) {
        Some(k) => k,
        None => {
            return Err(LowerInferError::MissingActivationEntry { activation: "activation.ffn_gelu".to_owned() });
        },
    };
    let norm_act = &facts.activations[norm_index];
    let gelu_act = &facts.activations[gelu_index];
    if !norm_act.symmetric_range {
        return Err(
            LowerInferError::UnsupportedActivationEntry {
                activation: norm_act.activation.clone(),
                reason: "activation range must be symmetric",
            },
        );
    }
    if !gelu_act.symmetric_range {
        return Err(
            LowerInferError::UnsupportedActivationEntry {
                activation: gelu_act.activation.clone(),
                reason: "activation range must be symmetric",
            },
        );
    }
    let mut blocks: Vec<FfnBlockProgram> = Vec::new();
    let mut b: usize = 0;
    proof {
        assert(block_views(blocks@) =~= Seq::<BlockView>::empty());
        assert(spec_lower_infer(*facts, *topology) == spec_lower_program(*facts, *topology, *gelu_act, entry.tensor@));
    }
    while b < topology.blocks.len()
        invariant
            b <= topology.blocks@.len(),
            spec_lower_infer(*facts, *topology) == spec_lower_program(*facts, *topology, *gelu_act, entry.tensor@),
            lowering_shapes_readable(*facts, *topology),
            *gelu_act == facts.activations@[activation_entry(*facts, ActivationNonlinearity::GeluClip)->Some_0],
            spec_lower_blocks(*facts, *topology, b as int, *gelu_act) == Ok::<Seq<BlockView>, LowerInferErrorView>(
                block_views(blocks@),
            ),
        decreases topology.blocks@.len() - b,
    {
        let block = lower_block(facts, topology, b, gelu_act);
        match block {
            Ok(block) => {
                let ghost before = blocks@;
                blocks.push(block);
                proof {
                    assert(block_views(blocks@) =~= block_views(before).push(block@));
                }
            },
            Err(failure) => {
                proof {
                    lemma_lower_blocks_failure_stays(*facts, *topology, b as int + 1, topology.blocks@.len() as int, *gelu_act);
                }
                return Err(failure);
            },
        }
        b = b + 1;
    }
    let final_norm = resolve_norm(facts, "final.norm".to_owned())?;
    Ok(
        DenseBigramProgram {
            d_model: topology.d_model,
            d_ff: topology.d_ff,
            vocab: topology.vocab,
            embedding: entry.tensor.clone(),
            blocks,
            final_norm,
        },
    )
}

proof fn lemma_lower_blocks_failure_stays(facts: ArtifactFacts, topology: ExportTopology, n: int, m: int, gelu: ActivationFacts)
    requires
        0 <= n <= m,
        spec_lower_blocks(facts, topology, n, gelu) is Err,
    ensures
        spec_lower_blocks(facts, topology, m, gelu) == spec_lower_blocks(facts, topology, n, gelu),
    decreases m - n,
{
    if n < m {
        lemma_lower_blocks_failure_stays(facts, topology, n, m - 1, gelu);
    }
}


// ------------------------------------------------------------ laws

/// A matvec op read from `projection`'s ternary plan: the first plan of
/// that projection gives the op its weight and scale tensor ids, and the
/// last tensor carrying the weight id gives its rows and columns.
pub open spec fn matvec_reads_plan(facts: ArtifactFacts, projection: Seq<char>, op: MatvecView) -> bool {
    let plans = facts.ternary_plans@;
    let tensors = facts.tensors@;
    &&& op.projection == projection
    &&& exists|k: int|
        0 <= k < plans.len() && (#[trigger] plans[k]).projection@ == projection && (forall|j: int|
            0 <= j < k ==> (#[trigger] plans[j]).projection@ != projection) && op.weight == plans[k].weight@
            && op.scale == plans[k].scale@
    &&& exists|t: int|
        0 <= t < tensors.len() && (#[trigger] tensors[t]).id@ == op.weight && (forall|j: int|
            t < j < tensors.len() ==> (#[trigger] tensors[j]).id@ != op.weight) && op.rows == tensors[t].dims@[0] as usize
            && op.cols == tensors[t].dims@[1] as usize
}

proof fn lemma_first_plan_exists(plans: Seq<TernaryPlanFacts>, projection: Seq<char>, k0: int)
    requires
        0 <= k0 < plans.len(),
        plans[k0].projection@ == projection,
    ensures
        exists|k: int|
            0 <= k < plans.len() && plans[k].projection@ == projection && forall|j: int|
                0 <= j < k ==> (#[trigger] plans[j]).projection@ != projection,
    decreases k0,
{
    if exists|j: int| 0 <= j < k0 && (#[trigger] plans[j]).projection@ == projection {
        let j = choose|j: int| 0 <= j < k0 && (#[trigger] plans[j]).projection@ == projection;
        lemma_first_plan_exists(plans, projection, j);
    } else {
        assert(forall|j: int| 0 <= j < k0 ==> (#[trigger] plans[j]).projection@ != projection);
    }
}

proof fn lemma_last_tensor_exists(tensors: Seq<TensorFacts>, id: Seq<char>, t0: int)
    requires
        0 <= t0 < tensors.len(),
        tensors[t0].id@ == id,
    ensures
        exists|t: int|
            0 <= t < tensors.len() && tensors[t].id@ == id && forall|j: int|
                t < j < tensors.len() ==> (#[trigger] tensors[j]).id@ != id,
    decreases tensors.len() - t0,
{
    if exists|j: int| t0 < j < tensors.len() && (#[trigger] tensors[j]).id@ == id {
        let j = choose|j: int| t0 < j < tensors.len() && (#[trigger] tensors[j]).id@ == id;
        lemma_last_tensor_exists(tensors, id, j);
    } else {
        assert(forall|j: int| t0 < j < tensors.len() ==> (#[trigger] tensors[j]).id@ != id);
    }
}

/// A resolved matvec is read from its projection's plan.
pub proof fn lemma_resolved_matvec_reads_plan(facts: ArtifactFacts, projection: Seq<char>)
    ensures
        spec_resolve_matvec(facts, projection) matches Ok(op) ==> matvec_reads_plan(facts, projection, op),
{
    reveal(spec_resolve_matvec);
    reveal(ternary_plan_of);
    reveal(last_tensor);
    if let Ok(op) = spec_resolve_matvec(facts, projection) {
        let plans = facts.ternary_plans@;
        let k0 = choose|k: int| 0 <= k < plans.len() && (#[trigger] plans[k]).projection@ == projection;
        lemma_first_plan_exists(plans, projection, k0);
        let k = ternary_plan_of(facts, projection)->Some_0;
        let weight = plans[k].weight@;
        let tensors = facts.tensors@;
        let t0 = choose|t: int| 0 <= t < tensors.len() && (#[trigger] tensors[t]).id@ == weight;
        lemma_last_tensor_exists(tensors, weight, t0);
        let t = last_tensor(tensors, weight)->Some_0;
        assert(plans[k].projection@ == projection);
        assert(tensors[t].id@ == op.weight);
    }
}

proof fn lemma_lowered_blocks_are_block_lowerings(
    facts: ArtifactFacts,
    topology: ExportTopology,
    n: int,
    gelu: ActivationFacts,
)
    requires
        n >= 0,
    ensures
        spec_lower_blocks(facts, topology, n, gelu) matches Ok(blocks) ==> blocks.len() == n && forall|b: int|
            0 <= b < n ==> spec_lower_block(facts, topology, b, gelu) == Ok::<BlockView, LowerInferErrorView>(
                #[trigger] blocks[b],
            ),
    decreases n,
{
    if n > 0 {
        lemma_lowered_blocks_are_block_lowerings(facts, topology, n - 1, gelu);
    }
}

/// Every matvec of a lowered program is read from the ternary plan of its
/// block's projection: the up op from the up projection's plan and the down
/// op from the down projection's, each with the plan's weight and scale ids
/// and the weight tensor's dims. The program has one block per topology
/// block, in order, and its shapes chain: each up projection maps d_model
/// to d_ff and each down projection maps d_ff back to d_model.
pub proof fn lemma_lowered_matvecs_read_their_plans(facts: ArtifactFacts, topology: ExportTopology)
    ensures
        spec_lower_infer(facts, topology) matches Ok(program) ==> {
            &&& program.blocks.len() == topology.blocks@.len()
            &&& forall|b: int|
                0 <= b < program.blocks.len() ==> matvec_reads_plan(
                    facts,
                    topology.blocks@[b].up_projection@,
                    (#[trigger] program.blocks[b]).up,
                ) && matvec_reads_plan(facts, topology.blocks@[b].down_projection@, program.blocks[b].down)
            &&& forall|b: int|
                0 <= b < program.blocks.len() ==> {
                    let block = #[trigger] program.blocks[b];
                    &&& block.index == topology.blocks@[b].index
                    &&& block.up.rows == topology.d_ff && block.up.cols == topology.d_model
                    &&& block.down.rows == topology.d_model && block.down.cols == topology.d_ff
                }
        },
{
    if let Ok(program) = spec_lower_infer(facts, topology) {
        let gelu = facts.activations@[activation_entry(facts, ActivationNonlinearity::GeluClip)->Some_0];
        let n = topology.blocks@.len() as int;
        lemma_lowered_blocks_are_block_lowerings(facts, topology, n, gelu);
        assert forall|b: int| 0 <= b < program.blocks.len() implies matvec_reads_plan(
            facts,
            topology.blocks@[b].up_projection@,
            (#[trigger] program.blocks[b]).up,
        ) && matvec_reads_plan(facts, topology.blocks@[b].down_projection@, program.blocks[b].down) by {
            reveal(spec_lower_block);
            lemma_resolved_matvec_reads_plan(facts, topology.blocks@[b].up_projection@);
            lemma_resolved_matvec_reads_plan(facts, topology.blocks@[b].down_projection@);
        }
        assert forall|b: int| 0 <= b < program.blocks.len() implies {
            let block = #[trigger] program.blocks[b];
            &&& block.index == topology.blocks@[b].index
            &&& block.up.rows == topology.d_ff && block.up.cols == topology.d_model
            &&& block.down.rows == topology.d_model && block.down.cols == topology.d_ff
        } by {
            reveal(spec_lower_block);
        }
    }
}

} // verus!
