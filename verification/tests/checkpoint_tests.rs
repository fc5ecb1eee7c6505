use gbf_codegen::subword::{check_subword_program, check_tokenizer_format, SubwordRefusal};
use gbf_codegen::checkpoint_export::{
    check_export_header, check_export_topology, decode_i8, decode_u16, export_facts, check_tensor_entry, sha256_hex, to_lower_hex,
    CheckpointImportError, ConventionField, ExportManifest, ExportManifestLayer, ExportManifestTensor,
    ExportManifestTopology, ExportNumericConvention, LoadedTensor, MatrixShape,
};
use gbf_codegen::state_checkpoint::{
    check_after_load, check_before_load, check_embedding_bytes, check_plan_finished, check_router_bytes,
    check_state_header, state_tensor_role_plan, StateTensorRole, check_state_tensor_digest,
    resolve_state_tensor, router_rank, state_tensor_plan, LogitPaging, StateCheckpointImportError,
    StateDimension, StateManifest, StateManifestTensor,
};
use sha2::{Digest, Sha256};

fn hex(bytes: &[u8]) -> String {
    Sha256::digest(bytes).iter().map(|b| format!("{b:02x}")).collect()
}

fn layer(index: u32, d_model: u32, d_ff: u32) -> ExportManifestLayer {
    ExportManifestLayer {
        index,
        kind: "prenorm_residual_ffn".to_owned(),
        up_ternary: format!("block{index}_up.ternary"),
        up_scales: format!("block{index}_up.scales"),
        up_shape: MatrixShape { rows: d_ff, cols: d_model },
        down_ternary: format!("block{index}_down.ternary"),
        down_scales: format!("block{index}_down.scales"),
        down_shape: MatrixShape { rows: d_model, cols: d_ff },
    }
}

fn manifest(n_blocks: u32) -> ExportManifest {
    let (d_model, d_ff, vocab) = (4, 8, 16);
    let layers = (0..n_blocks).map(|k| layer(k, d_model, d_ff)).collect();
    ExportManifest {
        schema: "f_s6_dense_checkpoint_export.v1".to_owned(),
        git_sha: "abc".to_owned(),
        layers,
        convention: ExportNumericConvention {
            activation_format: "Int8_symmetric".to_owned(),
            activation_quant_steps: 127,
            activation_range_lo_bits: (-8.0f32).to_bits(),
            activation_range_hi_bits: 8.0f32.to_bits(),
            norm_kind: "tile_rms_then_affine_clip(full_vector)".to_owned(),
            weight_encoding: "Ternary2 {-1,0,+1}".to_owned(),
            weight_scale: "per_output_row Q8.8 (u16 raw, f32 = raw/256)".to_owned(),
            embedding_dtype: "f32_le".to_owned(),
        },
        tensors: Vec::new(),
        topology: ExportManifestTopology {
            d_ff,
            d_model,
            family: "dense_ffn_bigram_context".to_owned(),
            moe: false,
            n_blocks,
            sequence_state_kind: "stateless_bigram_context".to_owned(),
            tied_head: true,
            vocab,
        },
    }
}

fn loaded(m: &ExportManifest) -> Vec<LoadedTensor> {
    let mut out = vec![LoadedTensor {
        name: "embedding".to_owned(),
        shape: vec![m.topology.vocab, m.topology.d_model],
        byte_len: (m.topology.vocab * m.topology.d_model * 4) as usize,
    }];
    for l in &m.layers {
        for (w, s, shape) in [(&l.up_ternary, &l.up_scales, l.up_shape), (&l.down_ternary, &l.down_scales, l.down_shape)] {
            out.push(LoadedTensor { name: w.clone(), shape: vec![shape.rows, shape.cols], byte_len: (shape.rows * shape.cols) as usize });
            out.push(LoadedTensor { name: s.clone(), shape: vec![shape.rows], byte_len: (shape.rows * 2) as usize });
        }
    }
    out
}

#[test]
fn lower_hex_writes_two_digits_per_byte() {
    assert_eq!(to_lower_hex(&[0x00, 0x0f, 0xa5, 0xff]), "000fa5ff");
    assert_eq!(sha256_hex(b"abc"), hex(b"abc"));
    assert_eq!(
        sha256_hex(b""),
        "e3b0c44298fc1c149afbf4c8996fb92427ae41e4649b934ca495991b7852b855"
    );
}

#[test]
fn export_header_accepts_the_pinned_conventions() {
    assert_eq!(check_export_header(&manifest(2)), Ok(()));
}

#[test]
fn export_header_refusals_come_in_check_order() {
    let mut m = manifest(2);
    m.schema = "other".to_owned();
    m.topology.moe = true;
    assert_eq!(check_export_header(&m), Err(CheckpointImportError::UnsupportedSchema { schema: "other".to_owned() }));

    let mut m = manifest(2);
    m.topology.moe = true;
    m.convention.activation_quant_steps = 255;
    assert_eq!(
        check_export_header(&m),
        Err(CheckpointImportError::UnsupportedFlag { field: ConventionField::TopologyMoe, observed: true })
    );

    let mut m = manifest(2);
    m.convention.activation_quant_steps = 255;
    assert_eq!(check_export_header(&m), Err(CheckpointImportError::UnsupportedQuantSteps { observed: 255 }));

    let mut m = manifest(2);
    m.convention.activation_range_hi_bits = 4.0f32.to_bits();
    assert_eq!(
        check_export_header(&m),
        Err(CheckpointImportError::UnsupportedActivationRange {
            lo_bits: (-8.0f32).to_bits(),
            hi_bits: 4.0f32.to_bits()
        })
    );

    let mut m = manifest(2);
    m.convention.embedding_dtype = "f16".to_owned();
    assert_eq!(
        check_export_header(&m),
        Err(CheckpointImportError::UnsupportedConvention {
            field: ConventionField::EmbeddingDtype,
            observed: "f16".to_owned()
        })
    );

    let mut m = manifest(2);
    m.topology.n_blocks = 3;
    assert_eq!(check_export_header(&m), Err(CheckpointImportError::LayerCountMismatch { declared: 3, listed: 2 }));
}

#[test]
fn tensor_entries_are_digest_checked_then_deduplicated() {
    let bytes = b"ternary weights";
    let entry = ExportManifestTensor {
        name: "block0_up.ternary".to_owned(),
        file: "tensors/block0_up.ternary.bin".to_owned(),
        sha256: hex(bytes),
        shape: vec![8, 4],
    };
    assert_eq!(check_tensor_entry(&Vec::new(), &entry, bytes), Ok(()));
    assert_eq!(
        check_tensor_entry(&vec!["block0_up.ternary".to_owned()], &entry, bytes),
        Err(CheckpointImportError::DuplicateTensor { name: "block0_up.ternary".to_owned() })
    );
    let tampered = b"ternary weightz";
    assert_eq!(
        check_tensor_entry(&vec!["block0_up.ternary".to_owned()], &entry, tampered),
        Err(CheckpointImportError::ShaMismatch {
            tensor: "block0_up.ternary".to_owned(),
            expected: hex(bytes),
            computed: hex(tampered),
        })
    );
}

#[test]
fn export_topology_lists_blocks_in_order() {
    let m = manifest(2);
    let topology = check_export_topology(&m, &loaded(&m)).expect("well-formed export");
    assert_eq!(topology.embedding, "embedding");
    assert_eq!((topology.d_model, topology.d_ff, topology.vocab), (4, 8, 16));
    assert_eq!(topology.blocks.len(), 2);
    assert_eq!(topology.blocks[1].index, 1);
    assert_eq!(topology.blocks[1].up_projection, "block1_up");
    assert_eq!(topology.blocks[1].down_projection, "block1_down");
}

#[test]
fn export_topology_refusals() {
    let m = manifest(2);
    let mut ts = loaded(&m);
    ts[0].shape = vec![16, 5];
    assert_eq!(
        check_export_topology(&m, &ts),
        Err(CheckpointImportError::EmbeddingShape { tensor: 0, vocab: 16, d_model: 4 })
    );

    let mut ts = loaded(&m);
    ts[0].byte_len = 3;
    assert_eq!(check_export_topology(&m, &ts), Err(CheckpointImportError::EmbeddingDecode { byte_len: 3 }));

    let ts = loaded(&m)[1..].to_vec();
    assert_eq!(check_export_topology(&m, &ts), Err(CheckpointImportError::MissingEmbedding));

    let mut swapped = m.clone();
    swapped.layers[1].index = 0;
    assert_eq!(
        check_export_topology(&swapped, &loaded(&m)),
        Err(CheckpointImportError::NonContiguousLayer { position: 1, index: 0 })
    );

    let mut unpaired = m.clone();
    unpaired.layers[0].up_scales = "block9_up.scales".to_owned();
    assert_eq!(
        check_export_topology(&unpaired, &loaded(&m)),
        Err(CheckpointImportError::UnpairedScale {
            scale: "block9_up.scales".to_owned(),
            weight: "block0_up.ternary".to_owned()
        })
    );

    let mut no_suffix = m.clone();
    no_suffix.layers[0].down_ternary = "block0_down.weights".to_owned();
    assert_eq!(
        check_export_topology(&no_suffix, &loaded(&m)),
        Err(CheckpointImportError::MissingTernarySuffix { weight: "block0_down.weights".to_owned() })
    );

    let mut ts = loaded(&m);
    ts[1].shape = vec![4, 8];
    assert_eq!(
        check_export_topology(&m, &ts),
        Err(CheckpointImportError::TensorShape { tensor: 1, expected: MatrixShape { rows: 8, cols: 4 } })
    );

    let mut ts = loaded(&m);
    ts[2].byte_len = 15;
    assert_eq!(
        check_export_topology(&m, &ts),
        Err(CheckpointImportError::TensorDecode { tensor: "block0_up.scales".to_owned(), byte_len: 15, width: 2 })
    );

    let mut ts = loaded(&m);
    ts.remove(4);
    assert_eq!(
        check_export_topology(&m, &ts),
        Err(CheckpointImportError::MissingTensor { name: "block0_down.scales".to_owned() })
    );

    let mut wide = m.clone();
    wide.topology.d_model = 70_000;
    let mut ts = loaded(&m);
    ts[0].shape = vec![16, 70_000];
    assert_eq!(check_export_topology(&wide, &ts), Err(CheckpointImportError::DModelTooWide { d_model: 70_000 }));
}

fn state_manifest(schema: &str, moe: Option<bool>) -> StateManifest {
    StateManifest {
        schema: schema.to_owned(),
        git_sha: String::new(),
        moe,
        n_experts_per_block: Some(2),
        vocab: Some(256),
        d_model: Some(64),
        d_ff: Some(128),
        n_blocks: Some(2),
        state_slots: Some(16),
    }
}

#[test]
fn state_header_reads_dense_and_moe_topologies() {
    let dense = check_state_header(&state_manifest("f_s5_state_checkpoint_export.v1", None), 256).unwrap();
    assert!(!dense.is_moe);
    assert_eq!(dense.topology.n_experts, 1);
    assert_eq!(dense.topology.logit_paging, LogitPaging::SinglePage);
    assert_eq!((dense.topology.d_model, dense.topology.d_ff, dense.topology.n_blocks), (64, 128, 2));

    let moe = check_state_header(&state_manifest("f_s8_moe_state_checkpoint_export.v2", Some(true)), 128).unwrap();
    assert!(moe.is_moe);
    assert_eq!(moe.topology.n_experts, 2);
    assert_eq!(moe.topology.logit_paging, LogitPaging::Paged);
}

#[test]
fn state_header_refusals() {
    assert_eq!(
        check_state_header(&state_manifest("f_s9", None), 256),
        Err(StateCheckpointImportError::UnexpectedSchema { schema: "f_s9".to_owned() })
    );
    assert_eq!(
        check_state_header(&state_manifest("f_s8_moe_state_checkpoint_export.v2", Some(false)), 256),
        Err(StateCheckpointImportError::MoeFlagDisagrees {
            schema: "f_s8_moe_state_checkpoint_export.v2".to_owned(),
            manifest_is_moe: false
        })
    );
    let mut m = state_manifest("f_s5_state_checkpoint_export.v1", None);
    m.d_ff = None;
    m.state_slots = None;
    assert_eq!(
        check_state_header(&m, 256),
        Err(StateCheckpointImportError::MissingDimension { dimension: StateDimension::DFf })
    );
}

#[test]
fn state_tensor_plan_orders_the_loads() {
    let dense = check_state_header(&state_manifest("f_s5_state_checkpoint_export.v1", None), 256).unwrap();
    let names = state_tensor_plan(&dense);
    assert_eq!(
        names,
        vec![
            "embedding", "state_decay",
            "state_input_to_state.ternary", "state_input_to_state.scales",
            "state_state_to_output.ternary", "state_state_to_output.scales",
            "block0_up.ternary", "block0_up.scales", "block0_down.ternary", "block0_down.scales",
            "block1_up.ternary", "block1_up.scales", "block1_down.ternary", "block1_down.scales",
        ]
    );
    let mut m = state_manifest("f_s8_moe_state_checkpoint_export.v2", Some(true));
    m.n_blocks = Some(1);
    let moe = check_state_header(&m, 256).unwrap();
    let names = state_tensor_plan(&moe);
    assert_eq!(names.len(), 6 + 4 + 2 * 4);
    assert_eq!(names[6], "block0_router_input_projection");
    assert_eq!(names[9], "block0_router_expert_bias");
    assert_eq!(names[10], "block0_expert0_up.ternary");
    assert_eq!(names[17], "block0_expert1_down.scales");
}

#[test]
fn state_tensors_resolve_through_the_manifest() {
    let entries = vec![
        StateManifestTensor { name: None, file: Some("x".to_owned()), sha256: String::new() },
        StateManifestTensor { name: Some("state_decay".to_owned()), file: None, sha256: String::new() },
        StateManifestTensor { name: Some("embedding".to_owned()), file: Some("e.bin".to_owned()), sha256: hex(b"e") },
        StateManifestTensor { name: Some("embedding".to_owned()), file: None, sha256: String::new() },
    ];
    assert_eq!(resolve_state_tensor(&entries, &"embedding".to_owned()), Ok(2));
    assert_eq!(
        resolve_state_tensor(&entries, &"state_decay".to_owned()),
        Err(StateCheckpointImportError::MissingTensorFile { name: "state_decay".to_owned() })
    );
    assert_eq!(
        resolve_state_tensor(&entries, &"block0_up.ternary".to_owned()),
        Err(StateCheckpointImportError::MissingTensor { name: "block0_up.ternary".to_owned() })
    );
    let name = "embedding".to_owned();
    assert_eq!(check_state_tensor_digest(&name, b"e", &entries[2].sha256), Ok(()));
    assert_eq!(
        check_state_tensor_digest(&name, b"f", &entries[2].sha256),
        Err(StateCheckpointImportError::ShaMismatch { tensor: name.clone() })
    );
}

#[test]
fn state_file_lengths_are_checked() {
    let dense = check_state_header(&state_manifest("f_s5_state_checkpoint_export.v1", None), 256).unwrap();
    assert_eq!(check_embedding_bytes(&dense.topology, 256 * 64 * 4), Ok(()));
    assert_eq!(
        check_embedding_bytes(&dense.topology, 256 * 64),
        Err(StateCheckpointImportError::EmbeddingByteLength { byte_len: 256 * 64 })
    );
    let name = "block0_router_input_bias".to_owned();
    assert_eq!(check_router_bytes(&name, 8), Ok(()));
    assert_eq!(check_router_bytes(&name, 6), Err(StateCheckpointImportError::RouterNotF32Aligned { name }));
    assert_eq!(router_rank(&vec![Some(4), None], 0), Ok(4));
    assert_eq!(router_rank(&vec![Some(4), None], 1), Err(StateCheckpointImportError::MissingRouterRank { block: 1 }));
    assert_eq!(router_rank(&vec![Some(4), None], 2), Err(StateCheckpointImportError::MissingRouterRank { block: 2 }));
}

#[test]
fn subword_profile_takes_dense_paged_checkpoints_and_matching_tokenizers() {
    assert_eq!(check_tokenizer_format(&"gbllm_bpe.v2".to_owned()), Ok(()));
    assert_eq!(
        check_tokenizer_format(&"gbllm_bpe.v1".to_owned()),
        Err(SubwordRefusal::UnexpectedTokenizerFormat { format: "gbllm_bpe.v1".to_owned() })
    );
    let paged = check_state_header(&state_manifest("f_s5_state_checkpoint_export.v1", None), 128).unwrap();
    assert_eq!(check_subword_program(&paged, 256), Ok(()));
    assert_eq!(
        check_subword_program(&paged, 300),
        Err(SubwordRefusal::VocabMismatch { tokenizer_vocab: 300, checkpoint_vocab: 256 })
    );
    let single = check_state_header(&state_manifest("f_s5_state_checkpoint_export.v1", None), 256).unwrap();
    assert_eq!(check_subword_program(&single, 256), Err(SubwordRefusal::NotDensePaged));
    let moe = check_state_header(&state_manifest("f_s8_moe_state_checkpoint_export.v2", Some(true)), 128).unwrap();
    assert_eq!(check_subword_program(&moe, 256), Err(SubwordRefusal::NotDensePaged));
}

#[test]
fn export_facts_record_the_manifest_digest() {
    let m = manifest(1);
    let facts = export_facts(&m, b"{}", 5);
    assert_eq!(facts.schema, "f_s6_dense_checkpoint_export.v1");
    assert_eq!(facts.trainer_git_sha, "abc");
    assert_eq!(facts.manifest_sha256, hex(b"{}"));
    assert_eq!(facts.tensors_verified_sha256, 5);
    assert_eq!(facts.sequence_state_kind, "stateless_bigram_context");
    assert_eq!(
        facts.sequence_semantics_placeholder,
        "linear_state(4 bytes/layer) placeholder for stateless_bigram_context"
    );
}

#[test]
fn importer_rejects_corrupted_tensor_bytes() {
    let written: Vec<u8> = (0u8..64).map(|i| (i % 3) as u8).collect();
    let entry = ExportManifestTensor {
        name: "block1_up.ternary".to_owned(),
        file: "tensors/block1_up.ternary.i8.bin".to_owned(),
        sha256: hex(&written),
        shape: vec![128, 64],
    };
    let mut bytes = written.clone();
    bytes[0] = if bytes[0] == 1 { 0 } else { 1 };
    let err = check_tensor_entry(&Vec::new(), &entry, &bytes).expect_err("must reject");
    assert!(
        matches!(err, CheckpointImportError::ShaMismatch { ref tensor, .. } if tensor == "block1_up.ternary"),
        "unexpected error: {err:?}"
    );
}

#[test]
fn importer_rejects_wrong_schema() {
    let mut m = manifest(4);
    m.schema = "something_else.v9".to_owned();
    let err = check_export_header(&m).expect_err("must reject");
    assert!(matches!(err, CheckpointImportError::UnsupportedSchema { .. }));
}

#[test]
fn importer_rejects_unsupported_activation_range() {
    let mut m = manifest(4);
    m.convention.activation_range_hi_bits = 4.0f32.to_bits();
    let err = check_export_header(&m).expect_err("must reject");
    assert!(matches!(err, CheckpointImportError::UnsupportedActivationRange { .. }));
}

#[test]
fn payload_bytes_decode_to_signed_weights_and_le_scales() {
    assert_eq!(decode_i8(&[0x00, 0x01, 0xff, 0x80, 0x7f]), vec![0i8, 1, -1, -128, 127]);
    let name = "block0_up.scales".to_owned();
    assert_eq!(decode_u16(&name, &[0x00, 0x01, 0xff, 0xff, 0x34, 0x12]), Ok(vec![256u16, 65535, 0x1234]));
    assert_eq!(decode_u16(&name, &[]), Ok(Vec::new()));
    assert_eq!(
        decode_u16(&name, &[1, 2, 3]),
        Err(CheckpointImportError::TensorDecode { tensor: name.clone(), byte_len: 3, width: 2 })
    );
}

#[test]
fn state_load_roles_line_up_with_the_plan() {
    let mut m = state_manifest("f_s8_moe_state_checkpoint_export.v2", Some(true));
    m.n_blocks = Some(2);
    let moe = check_state_header(&m, 256).unwrap();
    let names = state_tensor_plan(&moe);
    let roles = state_tensor_role_plan(&moe);
    assert_eq!(names.len(), roles.len());
    assert_eq!(roles[0], StateTensorRole::Embedding);
    assert_eq!(roles[1], StateTensorRole::StateDecay);
    for (name, role) in names.iter().zip(&roles) {
        match role {
            StateTensorRole::RouterInputProjection { block } => {
                assert_eq!(*name, format!("block{block}_router_input_projection"))
            }
            StateTensorRole::Router => assert!(name.contains("_router_"), "{name}"),
            StateTensorRole::Weight => assert!(name.ends_with(".ternary") || name.ends_with(".scales"), "{name}"),
            StateTensorRole::StateLayer => assert!(name.starts_with("state_"), "{name}"),
            _ => {}
        }
    }
    let dense = check_state_header(&state_manifest("f_s5_state_checkpoint_export.v1", None), 256).unwrap();
    let roles = state_tensor_role_plan(&dense);
    assert_eq!(roles.len(), state_tensor_plan(&dense).len());
    assert!(!roles.iter().any(|r| matches!(r, StateTensorRole::Router | StateTensorRole::RouterInputProjection { .. })));
}

#[test]
fn state_load_checks_around_each_file() {
    let ranks = Some(vec![Some(8), None]);
    let first = StateTensorRole::RouterInputProjection { block: 0 };
    assert_eq!(check_before_load(&ranks, first), Ok(Some(8)));
    assert_eq!(
        check_before_load(&ranks, StateTensorRole::RouterInputProjection { block: 1 }),
        Err(StateCheckpointImportError::MissingRouterRank { block: 1 })
    );
    assert_eq!(check_before_load(&None, first), Err(StateCheckpointImportError::MissingLayersArray));
    assert_eq!(check_before_load(&None, StateTensorRole::Weight), Ok(None));

    let dense = check_state_header(&state_manifest("f_s5_state_checkpoint_export.v1", None), 256).unwrap();
    let embedding = "embedding".to_owned();
    assert_eq!(check_after_load(&dense, &embedding, StateTensorRole::Embedding, 256 * 64 * 4), Ok(()));
    assert_eq!(
        check_after_load(&dense, &embedding, StateTensorRole::Embedding, 10),
        Err(StateCheckpointImportError::EmbeddingByteLength { byte_len: 10 })
    );
    let bias = "block0_router_input_bias".to_owned();
    assert_eq!(
        check_after_load(&dense, &bias, StateTensorRole::Router, 6),
        Err(StateCheckpointImportError::RouterNotF32Aligned { name: bias.clone() })
    );
    assert_eq!(check_after_load(&dense, &bias, StateTensorRole::Weight, 6), Ok(()));

    assert_eq!(check_plan_finished(&dense, false), Ok(()));
    let moe = check_state_header(&state_manifest("f_s8_moe_state_checkpoint_export.v2", Some(true)), 256).unwrap();
    assert_eq!(check_plan_finished(&moe, false), Err(StateCheckpointImportError::MissingLayersArray));
    assert_eq!(check_plan_finished(&moe, true), Ok(()));
}
