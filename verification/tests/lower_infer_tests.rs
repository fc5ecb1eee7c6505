use gbf_codegen::budget::{ScaleFormat, ScaleGranularity, WeightEncoding};
use gbf_codegen::lower_infer::{
    lower_infer, ActivationFacts, ActivationNonlinearity, ArtifactFacts, DenseBigramProgram,
    ExportBlockRefs, ExportTopology, LowerInferError, NormPlanFacts, TensorFacts, TernaryPlanFacts,
    WeightQuantFacts,
};

const D_MODEL: u64 = 64;
const D_FF: u64 = 128;
const VOCAB: u64 = 256;
const N_BLOCKS: usize = 4;

fn tensor(id: &str, dims: &[u64], is_embedding: bool) -> TensorFacts {
    TensorFacts { id: id.to_owned(), is_embedding, dims: dims.to_vec() }
}

fn plan(projection: &str) -> TernaryPlanFacts {
    TernaryPlanFacts {
        projection: projection.to_owned(),
        encoding: WeightEncoding::Ternary2,
        scale_granularity: ScaleGranularity::PerOutputRow,
        scale_format: ScaleFormat::Q8_8,
        weight: format!("{projection}.ternary"),
        scale: format!("{projection}.scales"),
    }
}

fn norm(path: &str) -> NormPlanFacts {
    NormPlanFacts { norm: path.to_owned(), tile_rms_then_affine_clip: true, clip_hi_bits: 8.0f32.to_bits() }
}

fn activation(path: &str, nonlinearity: ActivationNonlinearity) -> ActivationFacts {
    ActivationFacts {
        activation: path.to_owned(),
        nonlinearity,
        symmetric_range: true,
        range_hi_bits: 8.0f32.to_bits(),
    }
}

/// The facts of a synthetic dense-bigram export: a full-precision
/// embedding, four blocks of up/down ternary projections with their norms,
/// the final norm and the two activation entries.
fn synthetic_export() -> (ArtifactFacts, ExportTopology) {
    let mut tensors = vec![tensor("embedding", &[VOCAB, D_MODEL], true)];
    let mut ternary_plans = Vec::new();
    let mut norm_plans = Vec::new();
    let mut blocks = Vec::new();
    for k in 0..N_BLOCKS {
        let up = format!("block{k}_up");
        let down = format!("block{k}_down");
        tensors.push(tensor(&format!("{up}.ternary"), &[D_FF, D_MODEL], false));
        tensors.push(tensor(&format!("{up}.scales"), &[D_FF], false));
        tensors.push(tensor(&format!("{down}.ternary"), &[D_MODEL, D_FF], false));
        tensors.push(tensor(&format!("{down}.scales"), &[D_MODEL], false));
        ternary_plans.push(plan(&up));
        ternary_plans.push(plan(&down));
        norm_plans.push(norm(&format!("block{k}.norm")));
        blocks.push(ExportBlockRefs { index: k, up_projection: up, down_projection: down });
    }
    norm_plans.push(norm("final.norm"));
    let facts = ArtifactFacts {
        tensors,
        weight_quant: vec![WeightQuantFacts { tensor: "embedding".to_owned(), full_precision: true }],
        ternary_plans,
        norm_plans,
        activations: vec![
            activation("activation.norm_quant", ActivationNonlinearity::Identity),
            activation("activation.ffn_gelu", ActivationNonlinearity::GeluClip),
        ],
    };
    let topology = ExportTopology {
        embedding: "embedding".to_owned(),
        blocks,
        d_model: D_MODEL as usize,
        d_ff: D_FF as usize,
        vocab: VOCAB as usize,
    };
    (facts, topology)
}

fn program() -> DenseBigramProgram {
    let (facts, topology) = synthetic_export();
    lower_infer(&facts, &topology).expect("lowers")
}

#[test]
fn lower_infer_types_the_full_op_sequence() {
    let program = program();
    assert_eq!(program.blocks.len(), 4);
    assert_eq!(program.d_model, 64);
    assert_eq!(program.d_ff, 128);
    assert_eq!(program.vocab, 256);
    assert_eq!(program.embedding.as_str(), "embedding");
    for (k, block) in program.blocks.iter().enumerate() {
        assert_eq!(block.index, k);
        assert_eq!((block.up.rows, block.up.cols), (128, 64));
        assert_eq!((block.down.rows, block.down.cols), (64, 128));
        assert_eq!(block.norm.qmax, 127);
        assert_eq!(f32::from_bits(block.norm.range_bits), 8.0);
        assert_eq!(f32::from_bits(block.gelu.range_bits), 8.0);
    }
    // embed + 4 blocks x 6 ops + final norm + head + argmax.
    assert_eq!(program.op_names().len(), 1 + 4 * 6 + 3);
}

#[test]
fn lower_infer_rejects_missing_ternary_entry() {
    let (facts, mut topology) = synthetic_export();
    topology.blocks[0].up_projection = "no_such_projection".to_owned();
    let err = lower_infer(&facts, &topology).expect_err("must reject");
    assert!(matches!(err, LowerInferError::MissingTernaryEntry { .. }));
}

#[test]
fn lower_infer_reports_a_broken_shape_chain() {
    let (mut facts, topology) = synthetic_export();
    facts.tensors[3].dims = vec![D_MODEL, D_MODEL];
    let err = lower_infer(&facts, &topology).expect_err("must reject");
    assert_eq!(
        err,
        LowerInferError::ShapeChainBroken { what: "block 0 down 64x64 vs expected 64x128".to_owned() }
    );
}

#[test]
fn lower_infer_requires_a_symmetric_activation_range() {
    let (mut facts, topology) = synthetic_export();
    facts.activations[1].symmetric_range = false;
    let err = lower_infer(&facts, &topology).expect_err("must reject");
    assert!(matches!(err, LowerInferError::UnsupportedActivationEntry { .. }));

    let (mut facts, topology) = synthetic_export();
    facts.activations.remove(0);
    let err = lower_infer(&facts, &topology).expect_err("must reject");
    assert!(matches!(err, LowerInferError::MissingActivationEntry { .. }));
}

#[test]
fn lower_infer_refuses_unsupported_plans() {
    let (mut facts, topology) = synthetic_export();
    facts.ternary_plans[1].scale_format = ScaleFormat::Q4_4;
    let err = lower_infer(&facts, &topology).expect_err("must reject");
    assert_eq!(
        err,
        LowerInferError::UnsupportedTernaryPlan {
            projection: "block0_down".to_owned(),
            reason: "only Q8.8 scales are lowerable"
        }
    );

    let (mut facts, topology) = synthetic_export();
    facts.norm_plans.pop();
    let err = lower_infer(&facts, &topology).expect_err("must reject");
    assert_eq!(err, LowerInferError::MissingNormPlan { norm: "final.norm".to_owned() });
}
