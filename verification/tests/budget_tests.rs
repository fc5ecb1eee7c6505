use gbf_codegen::budget::{
    checked_add_byte_budget, decide_static_budget, empty_projections_for_runtime_budget, validate_budget_view,
    StaticBudgetOutcome, StaticFitInterpretation, accumulator_bound, accumulator_maxima, common_bank_footprint, expert_payload_bytes,
    expert_payload_bytes_with_widths, project_budget, residual_i32,
    rom_slot_effective_cap_bytes, scale_bytes, u32_byte_budget, weight_bytes, AccumulatorDomain,
    BudgetComponentRef, BudgetFailure, BudgetField, BudgetMathError, CompileObjective, ExpertId,
    ExpertPlacementStatus, ExpertProjection, LayerId, ProjectedSizeSource,
    QuantGraphBudgetView, QuantGraphBudgetViewError, ReductionSiteId, ReductionSiteProjection,
    RoutingProjection, ScaleFormat, ScaleFormatByteWidths, ScaleGranularity,
    SequenceStateProjection, SharedKernelProjection, SharedLutProjection, TernaryWeightPlan,
    UnassignedBecause, WeightEncoding,
};
use gbf_codegen::ids::{CompileProfileId, Hash256, KernelSpecId, TargetProfileId};
use gbf_codegen::policy::{
    placement_model_for_profile, BudgetSlotClass, BudgetSlotId, PlacementProfile, RomBudgetSlot,
    RuntimeChromeBudget, RuntimeMemoryCapSection, StaticPlacementModel,
};

fn hash(byte: u8) -> Hash256 {
    Hash256::from_bytes(&[byte; 32])
}

fn plan_with(
    encoding: WeightEncoding,
    scale_granularity: ScaleGranularity,
    scale_format: ScaleFormat,
) -> TernaryWeightPlan {
    TernaryWeightPlan {
        encoding,
        scale_granularity,
        scale_format,
    }
}

fn ternary_plan() -> TernaryWeightPlan {
    plan_with(
        WeightEncoding::Ternary2,
        ScaleGranularity::PerOutputRow,
        ScaleFormat::Q8_8,
    )
}

fn expert_with_plan(rows: u32, cols: u32, metadata_bytes: u32, plan: TernaryWeightPlan) -> ExpertProjection {
    ExpertProjection {
        layer: LayerId(0),
        expert: ExpertId(0),
        rows,
        cols,
        metadata_bytes,
        plan,
    }
}

fn expert_with_payload(layer: u16, expert: u16, payload_bytes: u32) -> ExpertProjection {
    assert!(payload_bytes >= 2);
    ExpertProjection {
        layer: LayerId(layer),
        expert: ExpertId(expert),
        rows: 1,
        cols: 1,
        metadata_bytes: payload_bytes - 2,
        plan: plan_with(
            WeightEncoding::Binary1,
            ScaleGranularity::PerTensor,
            ScaleFormat::Q4_4,
        ),
    }
}

fn sequence_state() -> SequenceStateProjection {
    SequenceStateProjection {
        projected_wram_bytes: 256,
        projected_wram_source: ProjectedSizeSource::StaticGraphProjection,
        projected_sram_bytes: 512,
        projected_sram_source: ProjectedSizeSource::StaticGraphProjection,
        projected_hram_bytes: 8,
        projected_hram_source: ProjectedSizeSource::StaticGraphProjection,
        projected_sram_page_switches_per_token: 1,
    }
}

fn budget_view_with_experts(experts: Vec<ExpertProjection>) -> QuantGraphBudgetView {
    let mut layers: Vec<LayerId> = experts.iter().map(|expert| expert.layer).collect();
    layers.sort();
    layers.dedup();
    QuantGraphBudgetView {
        semantic_core_hash: hash(0x02),
        quant_graph_hash: hash(0x23),
        layers,
        experts,
        shared_kernels: Vec::new(),
        shared_luts: Vec::new(),
        shared_dense_ffn: None,
        reduction_sites: Vec::new(),
        sequence_state: sequence_state(),
        routing: RoutingProjection::default(),
    }
}

fn slot(id: u16, class: BudgetSlotClass, usable_bytes: u32, reserved_slack: u16, caps: &[PlacementProfile]) -> RomBudgetSlot {
    RomBudgetSlot {
        id: BudgetSlotId(id),
        class,
        usable_bytes,
        reserved_slack,
        placement_caps: caps.to_vec(),
    }
}

fn runtime_budget_with_slots(rom_slots: Vec<RomBudgetSlot>) -> RuntimeChromeBudget {
    RuntimeChromeBudget {
        target: TargetProfileId("dmg-mbc5-8mib-128kib".to_owned()),
        profile: CompileProfileId("default".to_owned()),
        runtime_nucleus_hash: hash(0x10),
        rom_slots,
        memory_caps: RuntimeMemoryCapSection {
            wram_usable_bytes: 8192,
            sram_usable_bytes: 131_072,
            hram_usable_bytes: 127,
            source_target_profile_hash: hash(0x11),
        },
        wram_reserved: 1024,
        sram_reserved: 0,
    }
}

fn objective() -> CompileObjective {
    CompileObjective {
        max_bank_switches_per_token: None,
        max_sram_page_switches_per_token: None,
    }
}

fn run(
    profile: PlacementProfile,
    budget: &RuntimeChromeBudget,
    view: &QuantGraphBudgetView,
) -> (gbf_codegen::budget::BudgetProjectionSection, Vec<BudgetFailure>) {
    project_budget(
        profile,
        budget,
        view,
        ScaleFormatByteWidths::default(),
        &objective(),
        false,
    )
}

#[test]
fn f_b4_budget_computes_ternary2_payload_bytes_from_shape() {
    let expert = expert_with_plan(
        3,
        5,
        7,
        plan_with(
            WeightEncoding::Ternary2,
            ScaleGranularity::PerTensor,
            ScaleFormat::Q8_8,
        ),
    );
    assert_eq!(expert_payload_bytes(&expert), Ok(13));
}

#[test]
fn f_b4_budget_computes_scale_bytes_by_granularity() {
    let per_tensor = expert_with_plan(
        10,
        7,
        0,
        plan_with(
            WeightEncoding::Binary1,
            ScaleGranularity::PerTensor,
            ScaleFormat::Q8_8,
        ),
    );
    let per_output_row = expert_with_plan(
        10,
        7,
        0,
        plan_with(
            WeightEncoding::Binary1,
            ScaleGranularity::PerOutputRow,
            ScaleFormat::Q4_4,
        ),
    );
    let per_group = expert_with_plan(
        10,
        7,
        0,
        plan_with(
            WeightEncoding::Binary1,
            ScaleGranularity::PerGroup { group_size: 4 },
            ScaleFormat::Pow2,
        ),
    );
    assert_eq!(expert_payload_bytes(&per_tensor), Ok(11));
    assert_eq!(expert_payload_bytes(&per_output_row), Ok(19));
    assert_eq!(expert_payload_bytes(&per_group), Ok(12));
}

#[test]
fn f_b4_budget_applies_non_default_pow2_scale_width_from_project_budget_path() {
    let budget = runtime_budget_with_slots(vec![slot(
        1,
        BudgetSlotClass::ExpertBank,
        16_384,
        0,
        &[PlacementProfile::StrictOnePerBank],
    )]);
    let mut view = budget_view_with_experts(vec![expert_with_plan(10, 7, 0, ternary_plan())]);
    view.experts[0].plan = plan_with(
        WeightEncoding::Binary1,
        ScaleGranularity::PerGroup { group_size: 4 },
        ScaleFormat::Pow2,
    );
    let widths = ScaleFormatByteWidths::new(3);
    let (projections, failures) = project_budget(
        PlacementProfile::StrictOnePerBank,
        &budget,
        &view,
        widths,
        &objective(),
        false,
    );
    assert!(failures.is_empty(), "{failures:?}");
    assert_eq!(projections.per_expert_payload[0].payload_bytes, 18);
    assert_eq!(expert_payload_bytes_with_widths(&view.experts[0], widths), Ok(18));
}

#[test]
fn byte_math_follows_the_encodings() {
    assert_eq!(weight_bytes(3, 5, WeightEncoding::Ternary2), Ok(4));
    assert_eq!(weight_bytes(3, 5, WeightEncoding::Binary1), Ok(2));
    assert_eq!(weight_bytes(3, 5, WeightEncoding::SparseTernaryBitplanes), Ok(4));
    assert_eq!(weight_bytes(0, 5, WeightEncoding::Ternary2), Ok(0));
    assert_eq!(
        scale_bytes(
            10,
            ScaleGranularity::PerGroup { group_size: 3 },
            ScaleFormat::Q8_8,
            ScaleFormatByteWidths::default()
        ),
        Ok(8)
    );
    assert_eq!(u32_byte_budget(u64::from(u32::MAX)), Ok(u32::MAX));
    assert_eq!(
        u32_byte_budget(u64::from(u32::MAX) + 1),
        Err(BudgetMathError::Overflow)
    );
    assert_eq!(residual_i32(i64::MAX), i32::MAX);
    assert_eq!(residual_i32(i64::MIN), i32::MIN);
    assert_eq!(residual_i32(-5), -5);
}

#[test]
fn f_b4_budget_uses_reserved_slack_in_effective_cap() {
    let slack = slot(1, BudgetSlotClass::ExpertBank, 100, 30, &[PlacementProfile::Budgeted]);
    assert_eq!(rom_slot_effective_cap_bytes(&slack), 70);
    let budget = runtime_budget_with_slots(vec![slack]);
    let view = budget_view_with_experts(vec![expert_with_payload(0, 0, 71)]);
    let (projections, failures) = run(PlacementProfile::Budgeted, &budget, &view);
    assert!(!failures.is_empty());
    assert_eq!(projections.per_bank_occupancy[0].effective_cap_bytes, 70);
}

#[test]
fn f_b4_budget_strict_one_per_bank_deterministic() {
    let budget = runtime_budget_with_slots(vec![
        slot(2, BudgetSlotClass::ExpertBank, 32, 0, &[PlacementProfile::StrictOnePerBank]),
        slot(1, BudgetSlotClass::ExpertBank, 32, 0, &[PlacementProfile::StrictOnePerBank]),
    ]);
    let view = budget_view_with_experts(vec![
        expert_with_payload(0, 0, 10),
        expert_with_payload(0, 1, 10),
    ]);
    let first = run(PlacementProfile::StrictOnePerBank, &budget, &view);
    let second = run(PlacementProfile::StrictOnePerBank, &budget, &view);
    assert!(first.1.is_empty(), "{:?}", first.1);
    assert_eq!(first, second);
    assert_eq!(
        first
            .0
            .per_expert_payload
            .iter()
            .map(|entry| entry.assigned_slot)
            .collect::<Vec<_>>(),
        vec![Some(BudgetSlotId(1)), Some(BudgetSlotId(2))]
    );
    assert!(first
        .0
        .per_bank_occupancy
        .iter()
        .all(|entry| entry.assigned_components.len() <= 1));
}

#[test]
fn f_b4_budget_budgeted_first_fit_is_byte_stable() {
    let budget = runtime_budget_with_slots(vec![
        slot(1, BudgetSlotClass::ExpertBank, 25, 0, &[PlacementProfile::Budgeted]),
        slot(2, BudgetSlotClass::ExpertBank, 64, 0, &[PlacementProfile::Budgeted]),
    ]);
    let view = budget_view_with_experts(vec![
        expert_with_payload(0, 0, 20),
        expert_with_payload(0, 1, 10),
    ]);
    let first = run(PlacementProfile::Budgeted, &budget, &view);
    let second = run(PlacementProfile::Budgeted, &budget, &view);
    assert!(first.1.is_empty(), "{:?}", first.1);
    assert_eq!(first, second);
    assert_eq!(
        first
            .0
            .per_expert_payload
            .iter()
            .map(|entry| entry.assigned_slot)
            .collect::<Vec<_>>(),
        vec![Some(BudgetSlotId(1)), Some(BudgetSlotId(2))]
    );
    assert_eq!(first.0.per_bank_occupancy[0].assigned_bytes, 20);
    assert_eq!(first.0.per_bank_occupancy[1].assigned_bytes, 10);
    assert_eq!(first.0.per_bank_occupancy[0].residual_bytes, 5);
}

#[test]
fn f_b4_budget_unassigned_strict_expert_records_reason() {
    let budget = runtime_budget_with_slots(vec![slot(
        1,
        BudgetSlotClass::ExpertBank,
        64,
        0,
        &[PlacementProfile::StrictOnePerBank],
    )]);
    let view = budget_view_with_experts(vec![
        expert_with_payload(0, 0, 10),
        expert_with_payload(0, 1, 10),
    ]);
    let (projections, failures) = run(PlacementProfile::StrictOnePerBank, &budget, &view);
    assert!(!failures.is_empty());
    let second = &projections.per_expert_payload[1];
    assert_eq!(second.assigned_slot, None);
    assert_eq!(
        second.placement_status,
        ExpertPlacementStatus::UnassignedStrictDistinctSlotsExhausted
    );
    assert_eq!(
        second.unassigned_because,
        Some(UnassignedBecause::StrictDistinctSlotsExhausted)
    );
}

#[test]
fn f_b4_budget_rejects_placement_profile_infeasible() {
    let budget = runtime_budget_with_slots(vec![slot(
        1,
        BudgetSlotClass::ExpertBank,
        64,
        0,
        &[PlacementProfile::Budgeted],
    )]);
    let view = budget_view_with_experts(vec![expert_with_payload(0, 0, 10)]);
    let (projections, failures) = run(PlacementProfile::StrictOnePerBank, &budget, &view);
    assert!(failures
        .iter()
        .any(|failure| matches!(failure, BudgetFailure::PlacementProfileInfeasible { .. })));
    assert_eq!(
        projections.per_expert_payload[0].placement_status,
        ExpertPlacementStatus::UnassignedNoEligibleSlots
    );
}

#[test]
fn f_b4_budget_rejects_expert_exceeds_slot() {
    let budget = runtime_budget_with_slots(vec![slot(
        1,
        BudgetSlotClass::ExpertBank,
        16,
        0,
        &[PlacementProfile::Budgeted],
    )]);
    let view = budget_view_with_experts(vec![expert_with_payload(0, 0, 20)]);
    let (_, failures) = run(PlacementProfile::Budgeted, &budget, &view);
    assert!(failures.iter().any(|failure| matches!(
        failure,
        BudgetFailure::ExpertExceedsSlot {
            payload_bytes: 20,
            cap_bytes: 16,
            excess_bytes: 4,
            ..
        }
    )));
}

#[test]
fn f_b4_budget_common_payload_uses_common_bank_eligible_slots() {
    let budget = runtime_budget_with_slots(vec![
        slot(1, BudgetSlotClass::ExpertBank, 64, 0, &[PlacementProfile::Budgeted]),
        slot(2, BudgetSlotClass::CommonBank, 64, 0, &[PlacementProfile::Budgeted]),
    ]);
    let mut view = budget_view_with_experts(vec![expert_with_payload(0, 0, 10)]);
    view.shared_kernels = vec![SharedKernelProjection {
        id: KernelSpecId("matvec".to_owned()),
        bytes: 24,
        bank0_compatible: false,
    }];
    view.shared_luts = vec![SharedLutProjection {
        id: "gelu".to_owned(),
        bytes: 8,
        bank0_compatible: false,
    }];
    let footprint = common_bank_footprint(&view).expect("footprint");
    assert_eq!(footprint.kernel_bytes, 24);
    assert_eq!(footprint.lut_bytes, 8);
    assert_eq!(footprint.aggregate_bytes, 32);
    let (projections, failures) = run(PlacementProfile::Budgeted, &budget, &view);
    assert!(failures.is_empty(), "{failures:?}");
    let common = &projections.per_bank_occupancy[1];
    assert_eq!(common.slot, BudgetSlotId(2));
    assert_eq!(common.assigned_bytes, 32);
    assert!(common.assigned_components.contains(&BudgetComponentRef::SharedKernel {
        id: KernelSpecId("matvec".to_owned())
    }));
}

#[test]
fn f_b4_budget_rejects_wram_peak_exceeds_cap() {
    let budget = runtime_budget_with_slots(vec![slot(
        1,
        BudgetSlotClass::ExpertBank,
        64,
        0,
        &[PlacementProfile::Budgeted],
    )]);
    let mut view = budget_view_with_experts(vec![expert_with_payload(0, 0, 10)]);
    view.sequence_state.projected_wram_bytes = 9000;
    let (_, failures) = run(PlacementProfile::Budgeted, &budget, &view);
    assert!(failures
        .iter()
        .any(|failure| matches!(failure, BudgetFailure::WramPeakExceedsCap { peak: 9000, .. })));
}

#[test]
fn f_b4_budget_rejects_switches_per_token_over_cap() {
    let budget = runtime_budget_with_slots(vec![slot(
        1,
        BudgetSlotClass::ExpertBank,
        64,
        0,
        &[PlacementProfile::Budgeted],
    )]);
    let mut view = budget_view_with_experts(vec![expert_with_payload(0, 0, 10)]);
    view.routing.projected_bank_switches_per_token = 5;
    let (projections, failures) = project_budget(
        PlacementProfile::Budgeted,
        &budget,
        &view,
        ScaleFormatByteWidths::default(),
        &CompileObjective {
            max_bank_switches_per_token: Some(4),
            max_sram_page_switches_per_token: None,
        },
        false,
    );
    assert_eq!(projections.projected_bank_switches_per_token.decision_value, 5);
    assert!(failures.iter().any(|failure| matches!(
        failure,
        BudgetFailure::BankSwitchesPerTokenOverCap { decision_value: 5, cap: 4, .. }
    )));
}

#[test]
fn f_b4_budget_rejects_accumulator_exceeds_i32() {
    let site = ReductionSiteProjection {
        site: ReductionSiteId("block0.up".to_owned()),
        layer: Some(LayerId(0)),
        expert: None,
        term_count: 1 << 20,
        input_max_abs_q: 1 << 10,
        weight_max_abs_q: 1 << 10,
        bias_max_abs_q: None,
        accumulator_domain: AccumulatorDomain::RawIntegerProducts,
    };
    let bound = accumulator_bound(&site, 0).expect("fits u64");
    assert_eq!(bound.projected_max_abs, 1 << 40);
    assert!(!bound.i32_safe);
    assert!(!bound.i16_safe);

    let budget = runtime_budget_with_slots(vec![slot(
        1,
        BudgetSlotClass::ExpertBank,
        64,
        0,
        &[PlacementProfile::Budgeted],
    )]);
    let mut view = budget_view_with_experts(vec![expert_with_payload(0, 0, 10)]);
    view.reduction_sites = vec![site];
    let (_, failures) = run(PlacementProfile::Budgeted, &budget, &view);
    assert!(failures
        .iter()
        .any(|failure| matches!(failure, BudgetFailure::AccumulatorExceedsI32 { .. })));
}

#[test]
fn f_b4_budget_records_i16_safe_for_range_plan() {
    let site = ReductionSiteProjection {
        site: ReductionSiteId("block0.down".to_owned()),
        layer: Some(LayerId(0)),
        expert: None,
        term_count: 64,
        input_max_abs_q: 127,
        weight_max_abs_q: 1,
        bias_max_abs_q: Some(100),
        accumulator_domain: AccumulatorDomain::RawIntegerProducts,
    };
    let bound = accumulator_bound(&site, 0).expect("fits");
    assert_eq!(bound.projected_max_abs, 64 * 127 + 100);
    assert!(bound.i16_safe);
    assert!(bound.i32_safe);
}

#[test]
fn f_b4_budget_validates_quant_graph_budget_view_ordering() {
    let mut view = budget_view_fixture(4, 4, 0);
    view.layers = vec![LayerId(1), LayerId(0)];
    assert_eq!(
        view.validate_semantics().expect_err("layers are unsorted"),
        QuantGraphBudgetViewError::Malformed { field: BudgetField::Layers }
    );

    let mut view = budget_view_fixture(4, 4, 0);
    view.layers = vec![LayerId(0), LayerId(1)];
    view.experts[0].layer = LayerId(1);
    view.experts.push(ExpertProjection {
        layer: LayerId(0),
        expert: ExpertId(0),
        rows: 4,
        cols: 4,
        metadata_bytes: 0,
        plan: ternary_plan(),
    });
    assert_eq!(
        view.validate_semantics().expect_err("experts are unsorted"),
        QuantGraphBudgetViewError::Malformed { field: BudgetField::Experts }
    );

    let mut view = budget_view_fixture(4, 4, 0);
    view.shared_kernels = vec![
        SharedKernelProjection { id: KernelSpecId("kernel.z".to_owned()), bytes: 8, bank0_compatible: false },
        SharedKernelProjection { id: KernelSpecId("kernel.a".to_owned()), bytes: 4, bank0_compatible: false },
    ];
    assert_eq!(
        view.validate_semantics().expect_err("shared kernels are unsorted"),
        QuantGraphBudgetViewError::Malformed { field: BudgetField::SharedKernels }
    );

    let mut view = budget_view_fixture(4, 4, 0);
    view.shared_luts = vec![
        SharedLutProjection { id: "lut.z".to_owned(), bytes: 8, bank0_compatible: false },
        SharedLutProjection { id: "lut.a".to_owned(), bytes: 4, bank0_compatible: false },
    ];
    assert_eq!(
        view.validate_semantics().expect_err("shared LUTs are unsorted"),
        QuantGraphBudgetViewError::Malformed { field: BudgetField::SharedLuts }
    );

    let mut view = budget_view_fixture(4, 4, 0);
    view.reduction_sites = vec![keyed_site("site.z", 4), keyed_site("site.a", 4)];
    assert_eq!(
        view.validate_semantics().expect_err("reduction sites are unsorted"),
        QuantGraphBudgetViewError::Malformed { field: BudgetField::ReductionSites }
    );
}

fn keyed_site(name: &str, term_count: u32) -> ReductionSiteProjection {
    ReductionSiteProjection {
        site: ReductionSiteId(name.to_owned()),
        layer: Some(LayerId(0)),
        expert: Some(ExpertId(0)),
        term_count,
        input_max_abs_q: 2,
        weight_max_abs_q: 3,
        bias_max_abs_q: Some(1),
        accumulator_domain: AccumulatorDomain::RawIntegerProducts,
    }
}

#[test]
fn f_b4_budget_rejects_duplicate_quant_graph_budget_view_keys() {
    let duplicate_expert = {
        let mut view = budget_view_fixture(4, 4, 0);
        view.experts.push(view.experts[0].clone());
        view
    };
    let duplicate_shared_kernel = {
        let mut view = budget_view_fixture(4, 4, 0);
        view.shared_kernels = vec![
            SharedKernelProjection { id: KernelSpecId("kernel.shared".to_owned()), bytes: 8, bank0_compatible: false },
            SharedKernelProjection { id: KernelSpecId("kernel.shared".to_owned()), bytes: 4, bank0_compatible: false },
        ];
        view
    };
    let duplicate_shared_lut = {
        let mut view = budget_view_fixture(4, 4, 0);
        view.shared_luts = vec![
            SharedLutProjection { id: "lut.shared".to_owned(), bytes: 8, bank0_compatible: false },
            SharedLutProjection { id: "lut.shared".to_owned(), bytes: 4, bank0_compatible: false },
        ];
        view
    };
    let duplicate_reduction_site = {
        let mut view = budget_view_fixture(4, 4, 0);
        view.reduction_sites = vec![keyed_site("site.shared", 4), keyed_site("site.shared", 8)];
        view
    };
    for (view, expected_field) in [
        (duplicate_expert, BudgetField::Experts),
        (duplicate_shared_kernel, BudgetField::SharedKernels),
        (duplicate_shared_lut, BudgetField::SharedLuts),
        (duplicate_reduction_site, BudgetField::ReductionSites),
    ] {
        assert_eq!(
            view.validate_semantics().expect_err("duplicate keyed projection is malformed"),
            QuantGraphBudgetViewError::Malformed { field: expected_field }
        );
    }
}

#[test]
fn f_b4_budget_computes_sparse_bitplane_payload_without_plan_metadata_layout() {
    let expert = expert_with_plan(
        3,
        5,
        3,
        plan_with(WeightEncoding::SparseTernaryBitplanes, ScaleGranularity::PerTensor, ScaleFormat::Q4_4),
    );
    assert_eq!(expert_payload_bytes(&expert), Ok(8));
}

#[test]
fn f_b4_budget_quant_graph_view_error_maps_to_typed_field_path() {
    let mut view = budget_view_with_experts(vec![expert_with_payload(0, 0, 10)]);
    view.experts[0].layer = LayerId(9);
    let error = view.validate_semantics().expect_err("unknown layer");
    assert_eq!(error.field_path(), BudgetField::ExpertLayer { index: 0 });
}

#[test]
fn f_b4_budget_static_placement_model_matches_pinned_mapping() {
    assert_eq!(
        placement_model_for_profile(PlacementProfile::StrictOnePerBank),
        StaticPlacementModel::StrictOnePerBank
    );
    assert_eq!(
        placement_model_for_profile(PlacementProfile::Budgeted),
        StaticPlacementModel::BudgetedFirstFit
    );
    assert_eq!(
        placement_model_for_profile(PlacementProfile::PackedExperts),
        StaticPlacementModel::PackedExpertsFirstFitDecreasing
    );
}

#[test]
fn routing_default_is_a_synthetic_top1_router() {
    let routing = RoutingProjection::default();
    assert_eq!(routing.model.kind, "synthetic-top1");
    assert_eq!(routing.projected_bank_switches_per_token, 0);
    assert_eq!(routing.expected_bank_switches_q16_16, None);
}

fn decide(
    budget: Option<&RuntimeChromeBudget>,
    view: Result<QuantGraphBudgetView, QuantGraphBudgetViewError>,
    quant_graph_core_hash: Hash256,
) -> gbf_codegen::budget::StaticBudgetDecision {
    decide_static_budget(
        PlacementProfile::Budgeted,
        budget,
        view,
        hash(0x02),
        quant_graph_core_hash,
        ScaleFormatByteWidths::default(),
        &objective(),
        false,
    )
}

fn one_slot_budget() -> RuntimeChromeBudget {
    runtime_budget_with_slots(vec![
        slot(2, BudgetSlotClass::ExpertBank, 64, 0, &[PlacementProfile::Budgeted]),
        slot(1, BudgetSlotClass::CommonBank, 64, 0, &[PlacementProfile::Budgeted]),
    ])
}

#[test]
fn f_b4_budget_rejects_missing_runtime_chrome_budget() {
    let view = budget_view_with_experts(vec![expert_with_payload(0, 0, 10)]);
    let decision = decide(None, Ok(view), hash(0x02));
    assert_eq!(decision.outcome, StaticBudgetOutcome::Failed);
    assert_eq!(decision.failures, vec![BudgetFailure::MissingRuntimeChromeBudget]);
    assert_eq!(
        decision.projections.routing_model.kind,
        "not_evaluated_missing_runtime_chrome_budget"
    );
    assert!(decision.projections.per_bank_occupancy.is_empty());
}

#[test]
fn f_b4_budget_rejects_quant_graph_semantic_hash_mismatch() {
    let budget = one_slot_budget();
    let view = budget_view_with_experts(vec![expert_with_payload(0, 0, 10)]);
    let decision = decide(Some(&budget), Ok(view.clone()), hash(0xee));
    assert_eq!(decision.outcome, StaticBudgetOutcome::Failed);
    assert_eq!(
        decision.failures,
        vec![BudgetFailure::QuantGraphBudgetViewMalformed {
            field: BudgetField::QuantGraphSemanticCoreHash
        }]
    );
    let mut drifted = view.clone();
    drifted.semantic_core_hash = hash(0xee);
    assert_eq!(
        validate_budget_view(hash(0x02), hash(0x02), &drifted),
        Err(BudgetFailure::QuantGraphBudgetViewMalformed {
            field: BudgetField::BudgetViewSemanticCoreHash
        })
    );
    assert_eq!(validate_budget_view(hash(0x02), hash(0x02), &view), Ok(()));
}

#[test]
fn refused_views_report_empty_projections_of_the_budget() {
    let budget = one_slot_budget();
    let decision = decide(
        Some(&budget),
        Err(QuantGraphBudgetViewError::Malformed {
            field: BudgetField::Layers,
        }),
        hash(0x02),
    );
    assert_eq!(
        decision.failures,
        vec![BudgetFailure::QuantGraphBudgetViewMalformed {
            field: BudgetField::Layers
        }]
    );
    assert_eq!(decision.projections, empty_projections_for_runtime_budget(&budget));
    let slots: Vec<BudgetSlotId> = decision
        .projections
        .per_bank_occupancy
        .iter()
        .map(|entry| entry.slot)
        .collect();
    assert_eq!(slots, vec![BudgetSlotId(1), BudgetSlotId(2)]);
    assert!(decision
        .projections
        .per_bank_occupancy
        .iter()
        .all(|entry| entry.assigned_bytes == 0 && entry.residual_bytes == 64));
}

#[test]
fn fitting_graph_passes_the_stage() {
    let budget = one_slot_budget();
    let view = budget_view_with_experts(vec![expert_with_payload(0, 0, 10)]);
    let decision = decide(Some(&budget), Ok(view.clone()), hash(0x02));
    assert_eq!(decision.outcome, StaticBudgetOutcome::Passed, "{:?}", decision.failures);
    assert!(decision.failures.is_empty());
    assert_eq!(decision.reduction_site_facts, view.reduction_sites);
    assert_eq!(
        decision.projections.per_expert_payload[0].assigned_slot,
        Some(BudgetSlotId(2))
    );
}

#[test]
fn accumulator_maxima_records_bounds_and_failures_site_by_site() {
    let safe = ReductionSiteProjection {
        site: ReductionSiteId("a".to_owned()),
        layer: None,
        expert: None,
        term_count: 4,
        input_max_abs_q: 100,
        weight_max_abs_q: 100,
        bias_max_abs_q: None,
        accumulator_domain: AccumulatorDomain::RawIntegerProducts,
    };
    let wide = ReductionSiteProjection {
        site: ReductionSiteId("b".to_owned()),
        term_count: u32::MAX,
        input_max_abs_q: u32::MAX,
        weight_max_abs_q: u32::MAX,
        ..safe.clone()
    };
    let (bounds, failures) = accumulator_maxima(&vec![safe.clone(), wide], true);
    assert_eq!(bounds.len(), 1);
    assert_eq!(bounds[0].projected_max_abs, 40_000);
    assert_eq!(
        failures,
        vec![
            BudgetFailure::AccumulatorExceedsI32 {
                site: ReductionSiteId("a".to_owned()),
                projected_max_abs: 40_000
            },
            BudgetFailure::QuantGraphBudgetViewMalformed {
                field: BudgetField::ReductionSiteProjectedMaxAbs { index: 1 }
            },
        ]
    );
    let (_, unlocked) = accumulator_maxima(&vec![safe], false);
    assert!(unlocked.is_empty());
}

#[test]
fn packed_experts_place_the_largest_payload_first() {
    let budget = runtime_budget_with_slots(vec![
        slot(1, BudgetSlotClass::ExpertBank, 30, 0, &[PlacementProfile::PackedExperts, PlacementProfile::Budgeted]),
        slot(2, BudgetSlotClass::ExpertBank, 30, 0, &[PlacementProfile::PackedExperts, PlacementProfile::Budgeted]),
    ]);
    let view = budget_view_with_experts(vec![expert_with_payload(0, 0, 10), expert_with_payload(0, 1, 25)]);
    let packed = run(PlacementProfile::PackedExperts, &budget, &view);
    assert!(packed.1.is_empty(), "{:?}", packed.1);
    let packed_slots: Vec<_> = packed.0.per_expert_payload.iter().map(|entry| entry.assigned_slot).collect();
    assert_eq!(packed_slots, vec![Some(BudgetSlotId(2)), Some(BudgetSlotId(1))]);
    assert_eq!(packed.0.per_bank_occupancy[0].assigned_bytes, 25);
    assert_eq!(packed.0.per_bank_occupancy[1].assigned_bytes, 10);

    let in_order = run(PlacementProfile::Budgeted, &budget, &view);
    assert!(in_order.1.is_empty(), "{:?}", in_order.1);
    let in_order_slots: Vec<_> = in_order.0.per_expert_payload.iter().map(|entry| entry.assigned_slot).collect();
    assert_eq!(in_order_slots, vec![Some(BudgetSlotId(1)), Some(BudgetSlotId(2))]);
}

#[test]
fn packed_experts_of_equal_size_go_by_layer_then_expert() {
    let budget = runtime_budget_with_slots(vec![
        slot(1, BudgetSlotClass::ExpertBank, 12, 0, &[PlacementProfile::PackedExperts]),
        slot(2, BudgetSlotClass::ExpertBank, 12, 0, &[PlacementProfile::PackedExperts]),
        slot(3, BudgetSlotClass::ExpertBank, 12, 0, &[PlacementProfile::PackedExperts]),
    ]);
    let view = budget_view_with_experts(vec![
        expert_with_payload(1, 0, 10),
        expert_with_payload(0, 1, 10),
        expert_with_payload(0, 0, 10),
    ]);
    let packed = run(PlacementProfile::PackedExperts, &budget, &view);
    assert!(packed.1.is_empty(), "{:?}", packed.1);
    let slots: Vec<_> = packed.0.per_expert_payload.iter().map(|entry| entry.assigned_slot).collect();
    assert_eq!(slots, vec![Some(BudgetSlotId(3)), Some(BudgetSlotId(2)), Some(BudgetSlotId(1))]);
}

#[test]
fn slots_are_listed_in_order_of_id() {
    let budget = runtime_budget_with_slots(vec![
        slot(7, BudgetSlotClass::ExpertBank, 64, 0, &[PlacementProfile::Budgeted]),
        slot(2, BudgetSlotClass::CommonBank, 32, 4, &[PlacementProfile::Budgeted]),
        slot(5, BudgetSlotClass::ExpertBank, 16, 0, &[PlacementProfile::Budgeted]),
    ]);
    let view = budget_view_with_experts(Vec::new());
    let (section, failures) = run(PlacementProfile::Budgeted, &budget, &view);
    assert!(failures.is_empty(), "{:?}", failures);
    let ids: Vec<_> = section.per_bank_occupancy.iter().map(|entry| entry.slot).collect();
    assert_eq!(ids, vec![BudgetSlotId(2), BudgetSlotId(5), BudgetSlotId(7)]);
    assert_eq!(section.per_bank_occupancy[0].effective_cap_bytes, 28);
    assert_eq!(section.per_bank_occupancy[0].residual_bytes, 28);
}

#[test]
fn common_bank_overflows_merge_into_the_worst() {
    let budget = runtime_budget_with_slots(vec![slot(2, BudgetSlotClass::CommonBank, 20, 0, &[PlacementProfile::Budgeted])]);
    let mut view = budget_view_with_experts(Vec::new());
    view.shared_kernels = vec![
        SharedKernelProjection { id: KernelSpecId("a".to_owned()), bytes: 15, bank0_compatible: false },
        SharedKernelProjection { id: KernelSpecId("b".to_owned()), bytes: 10, bank0_compatible: false },
    ];
    view.shared_luts = vec![SharedLutProjection { id: "c".to_owned(), bytes: 10, bank0_compatible: false }];
    let (section, failures) = run(PlacementProfile::Budgeted, &budget, &view);
    assert_eq!(
        failures,
        vec![BudgetFailure::CommonBankExceedsCap { assigned_bytes: 35, cap_bytes: 20, excess_bytes: 15 }]
    );
    assert_eq!(section.per_bank_occupancy[0].assigned_bytes, 35);
    assert_eq!(section.per_bank_occupancy[0].residual_bytes, -15);
    assert_eq!(section.per_bank_occupancy[0].assigned_components.len(), 3);
}

fn decide_with(
    profile: PlacementProfile,
    budget: Option<&RuntimeChromeBudget>,
    view: QuantGraphBudgetView,
) -> gbf_codegen::budget::StaticBudgetDecision {
    decide_static_budget(
        profile,
        budget,
        Ok(view),
        hash(0x02),
        hash(0x02),
        ScaleFormatByteWidths::default(),
        &objective(),
        false,
    )
}

fn runtime_budget_fixture() -> RuntimeChromeBudget {
    let mut budget = runtime_budget_with_slots(vec![slot(
        1,
        BudgetSlotClass::ExpertBank,
        1024,
        128,
        &[PlacementProfile::StrictOnePerBank],
    )]);
    budget.memory_caps.sram_usable_bytes = 32768;
    budget.wram_reserved = 0;
    budget
}

fn budget_view_fixture(rows: u32, cols: u32, metadata_bytes: u32) -> QuantGraphBudgetView {
    let mut view = budget_view_with_experts(vec![ExpertProjection {
        layer: LayerId(0),
        expert: ExpertId(0),
        rows,
        cols,
        metadata_bytes,
        plan: plan_with(WeightEncoding::Ternary2, ScaleGranularity::PerTensor, ScaleFormat::Q8_8),
    }]);
    view.sequence_state = SequenceStateProjection {
        projected_wram_bytes: 0,
        projected_wram_source: ProjectedSizeSource::StaticGraphProjection,
        projected_sram_bytes: 0,
        projected_sram_source: ProjectedSizeSource::StaticGraphProjection,
        projected_hram_bytes: 0,
        projected_hram_source: ProjectedSizeSource::StaticGraphProjection,
        projected_sram_page_switches_per_token: 0,
    };
    view
}

#[test]
fn f_b4_budget_fits_means_necessary_checks_only() {
    let budget = runtime_budget_fixture();
    let strict = PlacementProfile::StrictOnePerBank;
    let passing = decide_with(strict, Some(&budget), budget_view_fixture(4, 4, 0));
    assert_eq!(passing.outcome, StaticBudgetOutcome::Passed, "{:?}", passing.failures);
    assert!(passing.fits);
    assert!(passing.failures.is_empty());
    assert_eq!(passing.interpretation, StaticFitInterpretation::PassesNecessaryStaticChecks);
    assert_eq!(passing.placement_model, StaticPlacementModel::StrictOnePerBank);

    let mut failing_view = budget_view_fixture(4, 4, 0);
    failing_view.sequence_state.projected_wram_bytes = budget.memory_caps.wram_usable_bytes + 1;
    let failing = decide_with(strict, Some(&budget), failing_view);
    assert_eq!(failing.outcome, StaticBudgetOutcome::Failed);
    assert!(!failing.fits);
    assert!(!failing.failures.is_empty());
    assert_eq!(failing.interpretation, StaticFitInterpretation::FailsNecessaryStaticChecks);

    let missing = decide_with(strict, None, budget_view_fixture(4, 4, 0));
    assert!(!missing.fits);
    assert_eq!(missing.outcome, StaticBudgetOutcome::Failed);
    assert_eq!(missing.failures, vec![BudgetFailure::MissingRuntimeChromeBudget]);
    assert_eq!(missing.interpretation, StaticFitInterpretation::FailsNecessaryStaticChecks);
}

#[test]
fn f_b4_budget_rejects_overflow_in_byte_math() {
    assert_eq!(checked_add_byte_budget(u64::MAX, 1), Err(BudgetMathError::Overflow));
    let budget = runtime_budget_fixture();
    let view = budget_view_fixture(u32::MAX, u32::MAX, u32::MAX);
    let decision = decide_with(PlacementProfile::StrictOnePerBank, Some(&budget), view);
    assert_eq!(decision.outcome, StaticBudgetOutcome::Failed);
    assert_eq!(
        decision.failures,
        vec![BudgetFailure::QuantGraphBudgetViewMalformed {
            field: BudgetField::ExpertPayloadBytes { index: 0 }
        }]
    );
    assert!(decision.projections.per_expert_payload.is_empty());
}

#[test]
fn f_b4_budget_expert_exceeds_slot_reports_expert_payload_for_cumulative_bust() {
    let budget = runtime_budget_with_slots(vec![slot(
        7,
        BudgetSlotClass::ExpertBank,
        25,
        0,
        &[PlacementProfile::Budgeted],
    )]);
    let view = budget_view_with_experts(vec![expert_with_payload(0, 0, 20), expert_with_payload(0, 1, 10)]);
    let decision = decide_with(PlacementProfile::Budgeted, Some(&budget), view);
    let projections = &decision.projections;
    assert_eq!(decision.outcome, StaticBudgetOutcome::Failed);
    assert!(!decision.fits);
    assert_eq!(projections.per_expert_payload[0].placement_status, ExpertPlacementStatus::Assigned);
    assert_eq!(projections.per_expert_payload[1].assigned_slot, Some(BudgetSlotId(7)));
    assert_eq!(
        projections.per_expert_payload[1].placement_status,
        ExpertPlacementStatus::AssignedOverCap
    );
    assert_eq!(projections.per_bank_occupancy[0].assigned_bytes, 30);
    assert_eq!(projections.per_bank_occupancy[0].residual_bytes, -5);
    assert_eq!(
        projections.per_bank_occupancy[0].assigned_components,
        vec![
            BudgetComponentRef::Expert { layer: LayerId(0), expert: ExpertId(0) },
            BudgetComponentRef::Expert { layer: LayerId(0), expert: ExpertId(1) },
        ]
    );
    assert_eq!(
        decision.failures,
        vec![BudgetFailure::ExpertExceedsSlot {
            layer: LayerId(0),
            expert: ExpertId(1),
            slot: BudgetSlotId(7),
            payload_bytes: 10,
            cap_bytes: 25,
            excess_bytes: 5,
        }]
    );
}

#[test]
fn f_b4_budget_packed_experts_descending_then_layer_expert() {
    let caps = [PlacementProfile::PackedExperts];
    let budget = runtime_budget_with_slots(vec![
        slot(1, BudgetSlotClass::ExpertBank, 50, 0, &caps),
        slot(2, BudgetSlotClass::ExpertBank, 50, 0, &caps),
    ]);
    let view = budget_view_with_experts(vec![
        expert_with_payload(0, 0, 20),
        expert_with_payload(0, 1, 30),
        expert_with_payload(1, 0, 30),
    ]);
    let first = decide_with(PlacementProfile::PackedExperts, Some(&budget), view.clone());
    let second = decide_with(PlacementProfile::PackedExperts, Some(&budget), view);
    assert_eq!(first, second);
    assert_eq!(first.outcome, StaticBudgetOutcome::Passed, "{:?}", first.failures);
    assert_eq!(first.placement_model, StaticPlacementModel::PackedExpertsFirstFitDecreasing);
    let slots: Vec<_> = first.projections.per_expert_payload.iter().map(|entry| entry.assigned_slot).collect();
    assert_eq!(slots, vec![Some(BudgetSlotId(1)), Some(BudgetSlotId(1)), Some(BudgetSlotId(2))]);
    assert_eq!(
        first.projections.per_bank_occupancy[0].assigned_components,
        vec![
            BudgetComponentRef::Expert { layer: LayerId(0), expert: ExpertId(1) },
            BudgetComponentRef::Expert { layer: LayerId(0), expert: ExpertId(0) },
        ]
    );
}
