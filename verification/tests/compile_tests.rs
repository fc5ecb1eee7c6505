use gbf_codegen::compile::{
    check_plan_supported, plan_compile, CompileError, CompileOptions, BUILD_REPORT_SCHEMA,
};
use gbf_codegen::kernel_select::{select_kernels, KernelFamily, KernelPlan, KernelSelection};
use gbf_codegen::legalize::{legalize, RANGE_EIGHT_F32_BITS};
use gbf_codegen::lower_infer::{
    DenseBigramProgram, FfnBlockProgram, GeluOp, NormQuantOp, TernaryMatvecOp,
};
use gbf_codegen::lower_quant::QuantLoweredModel;

fn matvec(name: &str, rows: usize, cols: usize) -> TernaryMatvecOp {
    TernaryMatvecOp {
        projection: name.to_string(),
        weight: format!("{name}.ternary"),
        scale: format!("{name}.scales"),
        rows,
        cols,
    }
}

fn norm(name: &str) -> NormQuantOp {
    NormQuantOp {
        norm: name.to_string(),
        qmax: 127,
        range_bits: 8.0f32.to_bits(),
    }
}

fn synthetic_program(n_blocks: usize) -> DenseBigramProgram {
    let blocks = (0..n_blocks)
        .map(|index| FfnBlockProgram {
            index,
            norm: norm(&format!("block{index}.norm")),
            up: matvec(&format!("block{index}_up"), 128, 64),
            gelu: GeluOp {
                activation: "activation.ffn_gelu".to_string(),
                qmax: 127,
                range_bits: 8.0f32.to_bits(),
            },
            down: matvec(&format!("block{index}_down"), 64, 128),
        })
        .collect();
    DenseBigramProgram {
        d_model: 64,
        d_ff: 128,
        vocab: 256,
        embedding: "embedding".to_string(),
        blocks,
        final_norm: norm("final.norm"),
    }
}

fn lowered(max_scale_raw: u16, max_abs_embedding: f32) -> QuantLoweredModel {
    let emb_q = f64::from(max_abs_embedding) * 32.0;
    QuantLoweredModel {
        weight_zero_permille: 480,
        max_scale_raw,
        max_abs_embedding_text: format!("{max_abs_embedding}"),
        embedding_q11_5_text: format!("{emb_q:.1}"),
        embedding_fits_q11_5: emb_q <= 32767.0,
    }
}

#[test]
fn op_names_follow_the_program() {
    let program = synthetic_program(4);
    let ops = program.op_names();
    assert_eq!(ops.len(), 1 + 4 * 6 + 3);
    assert_eq!(ops[0], "embed_lookup");
    assert_eq!(ops[1], "block0.norm_quant");
    assert_eq!(ops[6], "block0.down.scale_epilogue_residual_add");
    assert_eq!(ops[9], "block1.up.scale_epilogue");
    assert_eq!(ops[25], "final.norm_quant");
    assert_eq!(ops[26], "head.tied_matvec");
    assert_eq!(ops[27], "head.argmax");
}

#[test]
fn kernel_plan_covers_every_program_op() {
    let program = synthetic_program(4);
    let plan = select_kernels(&program);
    let op_names = program.op_names();
    assert_eq!(plan.selections.len(), op_names.len());
    for op in &op_names {
        assert!(plan.kernel_for(op).is_some(), "no kernel selected for {op}");
    }
    assert_eq!(
        plan.kernel_for("block2.up.matvec"),
        Some(KernelFamily::V3WeightsAsCodeBanked)
    );
    assert_eq!(
        plan.kernel_for("head.tied_matvec"),
        Some(KernelFamily::TiedHeadLaneMajorI8ProductLut)
    );
}

#[test]
fn kernel_plan_answers_none_for_unknown_ops() {
    let plan = select_kernels(&synthetic_program(2));
    assert_eq!(plan.kernel_for("block2.up.matvec"), None);
    assert_eq!(plan.kernel_for(""), None);
    assert_eq!(
        plan.kernel_for("embed_lookup"),
        Some(KernelFamily::EmbeddingTableQ11_5Banked)
    );
    assert_eq!(
        plan.kernel_for("block1.gelu"),
        Some(KernelFamily::GeluLut255)
    );
}

#[test]
fn kernel_for_takes_the_first_selection() {
    let plan = KernelPlan {
        selections: vec![
            KernelSelection {
                op: "x".to_string(),
                kernel: KernelFamily::GeluLut255,
                rationale: "first",
            },
            KernelSelection {
                op: "x".to_string(),
                kernel: KernelFamily::ArgmaxI24LowestIndex,
                rationale: "second",
            },
        ],
    };
    assert_eq!(plan.kernel_for("x"), Some(KernelFamily::GeluLut255));
}

#[test]
fn legalize_passes_the_synthetic_model_and_records_observed_values() {
    let program = synthetic_program(4);
    let report = legalize(&program, &lowered(300, 0.75)).expect("legalizes");
    assert_eq!(report.checks.len(), 6);
    assert!(report.checks.iter().all(|c| c.ok));
    assert_eq!(report.checks[0].name, "dims_match_backend_contract");
    assert_eq!(
        report.checks[0].observed,
        "d_model=64, d_ff=128, n_blocks=4, vocab=256"
    );
    assert_eq!(report.checks[1].observed, "max fan_in 128 -> bound 16256");
    assert_eq!(
        report.checks[3].observed,
        "max_scale 300 -> 9753727 (< 4294967296)"
    );
    assert_eq!(report.checks[4].observed, "1032256");
    assert_eq!(report.checks[5].observed, "max|emb| 0.75 -> 24.0");
}

#[test]
fn legalize_rejects_wrong_dims() {
    let mut program = synthetic_program(4);
    program.blocks.pop();
    let err = legalize(&program, &lowered(300, 0.75)).expect_err("must reject");
    assert!(err
        .failed
        .iter()
        .any(|c| c.name == "dims_match_backend_contract"));
    assert_eq!(err.failed.len(), 1);
    assert_eq!(
        err.failed[0].observed,
        "d_model=64, d_ff=128, n_blocks=3, vocab=256"
    );
}

#[test]
fn legalize_rejects_off_grid_and_wide_fan_in() {
    let mut program = synthetic_program(4);
    program.blocks[1].gelu.range_bits = 4.0f32.to_bits();
    program.blocks[2].down.cols = 300;
    let err = legalize(&program, &lowered(300, 0.75)).expect_err("must reject");
    let names: Vec<&str> = err.failed.iter().map(|c| c.name).collect();
    assert_eq!(
        names,
        vec!["matvec_i16_accumulator", "activation_grid"]
    );
    assert_eq!(err.failed[1].observed, "at least one op off-grid");
    assert_eq!(RANGE_EIGHT_F32_BITS, 8.0f32.to_bits());
}

#[test]
fn legalize_rejects_large_scales_and_embeddings() {
    let program = synthetic_program(4);
    let err = legalize(&program, &lowered(u16::MAX, 2048.0)).expect_err("must reject");
    let names: Vec<&str> = err.failed.iter().map(|c| c.name).collect();
    assert_eq!(names, vec!["embedding_q11_5"]);
    assert_eq!(err.failed[0].observed, "max|emb| 2048 -> 65536.0");

    let mut wide = synthetic_program(4);
    wide.blocks[0].up.cols = 300;
    let err = legalize(&wide, &lowered(u16::MAX, 0.5)).expect_err("must reject");
    let names: Vec<&str> = err.failed.iter().map(|c| c.name).collect();
    assert_eq!(names, vec!["matvec_i16_accumulator", "down_epilogue_u32"]);
}

#[test]
fn plan_compile_runs_the_middle_of_the_pipeline() {
    let program = synthetic_program(4);
    let plan = plan_compile(&program, &lowered(300, 0.75), &CompileOptions::default())
        .expect("plans");
    assert!(plan.legalization.checks.iter().all(|c| c.ok));
    assert_eq!(plan.kernel_plan.selections.len(), 28);
    assert_eq!(plan.program.n_blocks, 4);
    assert_eq!(plan.program.ops, program.op_names());
    assert_eq!(plan.program.weight_zero_permille, 480);
    assert_eq!(CompileOptions::default().n_tokens, 256);
    assert!(BUILD_REPORT_SCHEMA.starts_with("gbf_compile_build_report"));
}

#[test]
fn compile_rejects_bad_token_counts() {
    let program = synthetic_program(4);
    assert!(matches!(
        plan_compile(&program, &lowered(300, 0.75), &CompileOptions { n_tokens: 0 }),
        Err(CompileError::BadTokenCount { n_tokens: 0 })
    ));
    assert!(matches!(
        plan_compile(&program, &lowered(300, 0.75), &CompileOptions { n_tokens: 257 }),
        Err(CompileError::BadTokenCount { n_tokens: 257 })
    ));
    let mut oversized = synthetic_program(4);
    oversized.d_model = usize::MAX;
    assert!(matches!(
        plan_compile(&oversized, &lowered(300, 0.75), &CompileOptions { n_tokens: 0 }),
        Err(CompileError::BadTokenCount { n_tokens: 0 })
    ));
}

#[test]
fn compile_stops_on_illegal_model() {
    let program = synthetic_program(3);
    assert!(matches!(
        plan_compile(&program, &lowered(300, 0.75), &CompileOptions { n_tokens: 8 }),
        Err(CompileError::Legalize(_))
    ));
}

#[test]
fn plan_check_refuses_a_plan_missing_an_op() {
    let program = synthetic_program(2);
    let mut plan = select_kernels(&program);
    check_plan_supported(&program, &plan).expect("selected plan is supported");
    plan.selections.pop();
    assert!(matches!(
        check_plan_supported(&program, &plan),
        Err(CompileError::UnsupportedKernelSelection { ref op, ref kernel }) if op == "head.argmax" && kernel == "<none>"
    ));
}

