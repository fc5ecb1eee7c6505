use gbf_codegen::budget::{
    decide_static_budget, expert_payload_bytes, run_static_budget, QuantGraphBudgetSource,
    QuantGraphBudgetViewError, AccumulatorBound, AccumulatorDomain, BudgetComponentRef,
    BudgetFailure, BudgetField, CommonBankFootprintSection, CompileObjective, ExpertId, ExpertProjection, LayerId,
    ProjectedSize, ProjectedSizeSource, ProjectedSwitchCount, QuantGraphBudgetView, ReductionSiteId,
    ReductionSiteProjection, RoutingModelSection, RoutingProjection, ScaleFormat, ScaleFormatByteWidths,
    ScaleGranularity, SequenceStateProjection, SharedDenseFfnProjection, SharedKernelProjection,
    SharedLutProjection, StaticBudgetDecision, StaticBudgetOutcome, SwitchProjectionSource, TernaryWeightPlan,
    WeightEncoding,
};
use std::cell::Cell;

use gbf_codegen::ids::{CompileProfileId, Hash256, KernelSpecId, TargetProfileId};
use gbf_codegen::policy::{
    placement_model_for_profile, BudgetSlotClass, BudgetSlotId, PlacementProfile, RomBudgetSlot,
    RuntimeChromeBudget, RuntimeMemoryCapSection, StaticPlacementModel,
};

fn hash(byte: u8) -> Hash256 {
    Hash256::from_bytes(&[byte; 32])
}

fn plan_with(encoding: WeightEncoding, scale_granularity: ScaleGranularity, scale_format: ScaleFormat) -> TernaryWeightPlan {
    TernaryWeightPlan { encoding, scale_granularity, scale_format }
}

fn zero_sequence_state() -> SequenceStateProjection {
    SequenceStateProjection {
        projected_wram_bytes: 0,
        projected_wram_source: ProjectedSizeSource::StaticGraphProjection,
        projected_sram_bytes: 0,
        projected_sram_source: ProjectedSizeSource::StaticGraphProjection,
        projected_hram_bytes: 0,
        projected_hram_source: ProjectedSizeSource::StaticGraphProjection,
        projected_sram_page_switches_per_token: 0,
    }
}

fn expert_with_plan(rows: u32, cols: u32, metadata_bytes: u32, plan: TernaryWeightPlan) -> ExpertProjection {
    ExpertProjection { layer: LayerId(0), expert: ExpertId(0), rows, cols, metadata_bytes, plan }
}

fn budget_view_with_experts(experts: Vec<ExpertProjection>) -> QuantGraphBudgetView {
    let mut layers: Vec<LayerId> = experts.iter().map(|expert| expert.layer).collect();
    layers.sort();
    layers.dedup();
    QuantGraphBudgetView {
        semantic_core_hash: hash(0x02),
        quant_graph_hash: hash(0x23),
        layers,
        experts,
        shared_kernels: Vec::new(),
        shared_luts: Vec::new(),
        shared_dense_ffn: None,
        reduction_sites: Vec::new(),
        sequence_state: zero_sequence_state(),
        routing: RoutingProjection::default(),
    }
}

fn budget_view_fixture(rows: u32, cols: u32, metadata_bytes: u32) -> QuantGraphBudgetView {
    budget_view_with_experts(vec![expert_with_plan(
        rows,
        cols,
        metadata_bytes,
        plan_with(WeightEncoding::Ternary2, ScaleGranularity::PerTensor, ScaleFormat::Q8_8),
    )])
}

fn expert_with_payload(layer: u16, expert: u16, payload_bytes: u32) -> ExpertProjection {
    assert!(payload_bytes >= 2);
    ExpertProjection {
        layer: LayerId(layer),
        expert: ExpertId(expert),
        rows: 1,
        cols: 1,
        metadata_bytes: payload_bytes - 2,
        plan: plan_with(WeightEncoding::Binary1, ScaleGranularity::PerTensor, ScaleFormat::Q4_4),
    }
}

fn slot(id: u16, class: BudgetSlotClass, usable_bytes: u32, reserved_slack: u16, caps: &[PlacementProfile]) -> RomBudgetSlot {
    RomBudgetSlot { id: BudgetSlotId(id), class, usable_bytes, reserved_slack, placement_caps: caps.to_vec() }
}

fn expert_slot(id: u16, usable_bytes: u32, reserved_slack: u16, caps: &[PlacementProfile]) -> RomBudgetSlot {
    slot(id, BudgetSlotClass::ExpertBank, usable_bytes, reserved_slack, caps)
}

fn common_slot(id: u16, usable_bytes: u32, caps: &[PlacementProfile]) -> RomBudgetSlot {
    slot(id, BudgetSlotClass::CommonBank, usable_bytes, 0, caps)
}

fn bank0_slot(id: u16, usable_bytes: u32, caps: &[PlacementProfile]) -> RomBudgetSlot {
    slot(id, BudgetSlotClass::Bank0Free, usable_bytes, 0, caps)
}

fn runtime_budget_with_slots(rom_slots: Vec<RomBudgetSlot>) -> RuntimeChromeBudget {
    RuntimeChromeBudget {
        target: TargetProfileId("dmg-mbc5-8mib-128kib".to_owned()),
        profile: CompileProfileId("Bringup".to_owned()),
        runtime_nucleus_hash: hash(0x40),
        rom_slots,
        memory_caps: RuntimeMemoryCapSection {
            wram_usable_bytes: 8192,
            sram_usable_bytes: 32768,
            hram_usable_bytes: 127,
            source_target_profile_hash: hash(0x08),
        },
        wram_reserved: 0,
        sram_reserved: 0,
    }
}

fn runtime_budget_fixture() -> RuntimeChromeBudget {
    runtime_budget_with_slots(vec![expert_slot(1, 1024, 128, &[PlacementProfile::StrictOnePerBank])])
}

/// The objective of the default compile profile: at most 17 bank switches
/// and 3 SRAM page switches per token.
fn default_objective() -> CompileObjective {
    CompileObjective { max_bank_switches_per_token: Some(17), max_sram_page_switches_per_token: Some(3) }
}

fn decide_as(
    profile: PlacementProfile,
    budget: Option<&RuntimeChromeBudget>,
    view: QuantGraphBudgetView,
    objective: &CompileObjective,
    single_i16_only_locked: bool,
) -> StaticBudgetDecision {
    decide_static_budget(
        profile,
        budget,
        Ok(view),
        hash(0x02),
        hash(0x02),
        ScaleFormatByteWidths::default(),
        objective,
        single_i16_only_locked,
    )
}

fn decide_default(budget: &RuntimeChromeBudget, view: QuantGraphBudgetView) -> StaticBudgetDecision {
    decide_as(PlacementProfile::StrictOnePerBank, Some(budget), view, &default_objective(), false)
}

fn decide_budgeted(budget: &RuntimeChromeBudget, view: QuantGraphBudgetView) -> StaticBudgetDecision {
    decide_as(PlacementProfile::Budgeted, Some(budget), view, &default_objective(), false)
}

fn site(name: &str, term_count: u32, input: u32, weight: u32, bias: Option<u32>) -> ReductionSiteProjection {
    ReductionSiteProjection {
        site: ReductionSiteId(name.to_owned()),
        layer: Some(LayerId(0)),
        expert: Some(ExpertId(0)),
        term_count,
        input_max_abs_q: input,
        weight_max_abs_q: weight,
        bias_max_abs_q: bias,
        accumulator_domain: AccumulatorDomain::RawIntegerProducts,
    }
}

#[test]
fn f_b4_budget_rejects_sram_peak_exceeds_cap() {
    let budget = runtime_budget_fixture();
    let mut view = budget_view_fixture(4, 4, 0);
    view.sequence_state.projected_sram_bytes = budget.memory_caps.sram_usable_bytes + 1;
    view.sequence_state.projected_sram_source = ProjectedSizeSource::HintBundleConstraint;
    let decision = decide_default(&budget, view);
    assert_eq!(decision.outcome, StaticBudgetOutcome::Failed);
    assert_eq!(
        decision.projections.projected_sram,
        ProjectedSize { peak_bytes: 32_769, source: ProjectedSizeSource::HintBundleConstraint }
    );
    assert_eq!(decision.failures, vec![BudgetFailure::SramPeakExceedsCap { peak: 32_769, cap: 32_768 }]);
}

#[test]
fn f_b4_budget_rejects_hram_peak_exceeds_cap() {
    let mut budget = runtime_budget_fixture();
    budget.memory_caps.hram_usable_bytes = 64;
    let mut view = budget_view_fixture(4, 4, 0);
    view.sequence_state.projected_hram_bytes = 65;
    view.sequence_state.projected_hram_source = ProjectedSizeSource::CalibrationSamplingClosedForm;
    let decision = decide_default(&budget, view);
    assert_eq!(decision.outcome, StaticBudgetOutcome::Failed);
    assert_eq!(
        decision.projections.projected_hram,
        ProjectedSize { peak_bytes: 65, source: ProjectedSizeSource::CalibrationSamplingClosedForm }
    );
    assert_eq!(decision.failures, vec![BudgetFailure::HramPeakExceedsCap { peak: 65, cap: 64 }]);
}

#[test]
fn f_b4_budget_records_projected_size_source() {
    let budget = runtime_budget_fixture();
    let mut view = budget_view_fixture(4, 4, 0);
    view.sequence_state.projected_wram_bytes = 128;
    view.sequence_state.projected_wram_source = ProjectedSizeSource::HintBundleConstraint;
    view.sequence_state.projected_sram_bytes = 0;
    view.sequence_state.projected_sram_source = ProjectedSizeSource::CalibrationSamplingClosedForm;
    view.sequence_state.projected_hram_bytes = 16;
    view.sequence_state.projected_hram_source = ProjectedSizeSource::StaticGraphProjection;
    let decision = decide_default(&budget, view);
    assert_eq!(decision.outcome, StaticBudgetOutcome::Passed, "{:?}", decision.failures);
    assert_eq!(
        decision.projections.projected_wram,
        ProjectedSize { peak_bytes: 128, source: ProjectedSizeSource::HintBundleConstraint }
    );
    assert_eq!(
        decision.projections.projected_sram,
        ProjectedSize { peak_bytes: 0, source: ProjectedSizeSource::CalibrationSamplingClosedForm }
    );
    assert_eq!(
        decision.projections.projected_hram,
        ProjectedSize { peak_bytes: 16, source: ProjectedSizeSource::StaticGraphProjection }
    );
}

#[test]
fn f_b4_budget_routing_model_named_in_report() {
    let budget = runtime_budget_fixture();
    let mut view = budget_view_fixture(4, 4, 0);
    view.routing = RoutingProjection {
        model: RoutingModelSection { kind: "top-2-deterministic-once-per-token".to_owned() },
        projected_bank_switches_per_token: 7,
        expected_bank_switches_q16_16: Some(3 * 65_536),
    };
    let decision = decide_default(&budget, view);
    assert_eq!(decision.outcome, StaticBudgetOutcome::Passed, "{:?}", decision.failures);
    assert_eq!(
        decision.projections.routing_model,
        RoutingModelSection { kind: "top-2-deterministic-once-per-token".to_owned() }
    );
    assert_eq!(
        decision.projections.projected_bank_switches_per_token,
        ProjectedSwitchCount {
            upper_bound: 7,
            expected_q16_16: Some(3 * 65_536),
            decision_value: 7,
            source: SwitchProjectionSource::ConservativeStaticUpperBound,
        }
    );
}

#[test]
fn f_b4_budget_switch_decision_uses_upper_bound_by_default() {
    let budget = runtime_budget_fixture();
    let mut view = budget_view_fixture(4, 4, 0);
    view.routing.projected_bank_switches_per_token = 9;
    view.routing.expected_bank_switches_q16_16 = Some(2 * 65_536);
    let decision = decide_default(&budget, view);
    assert_eq!(decision.outcome, StaticBudgetOutcome::Passed, "{:?}", decision.failures);
    assert_eq!(
        decision.projections.projected_bank_switches_per_token,
        ProjectedSwitchCount {
            upper_bound: 9,
            expected_q16_16: Some(2 * 65_536),
            decision_value: 9,
            source: SwitchProjectionSource::ConservativeStaticUpperBound,
        }
    );
}

#[test]
fn f_b4_budget_recovery_switch_decision_uses_upper_bound() {
    let recovery = CompileObjective { max_bank_switches_per_token: Some(8), max_sram_page_switches_per_token: Some(3) };
    let budget = runtime_budget_fixture();
    let mut view = budget_view_fixture(4, 4, 0);
    view.routing.projected_bank_switches_per_token = 9;
    view.routing.expected_bank_switches_q16_16 = Some(65_536);
    let decision = decide_as(PlacementProfile::StrictOnePerBank, Some(&budget), view, &recovery, false);
    assert_eq!(decision.outcome, StaticBudgetOutcome::Failed);
    assert_eq!(
        decision.projections.projected_bank_switches_per_token,
        ProjectedSwitchCount {
            upper_bound: 9,
            expected_q16_16: Some(65_536),
            decision_value: 9,
            source: SwitchProjectionSource::ConservativeStaticUpperBound,
        }
    );
    assert_eq!(
        decision.failures,
        vec![BudgetFailure::BankSwitchesPerTokenOverCap {
            decision_value: 9,
            upper_bound: 9,
            cap: 8,
            source: SwitchProjectionSource::ConservativeStaticUpperBound,
        }]
    );
}

#[test]
fn f_b4_budget_rejects_sram_page_switches_per_token_over_cap() {
    let budget = runtime_budget_fixture();
    let mut view = budget_view_fixture(4, 4, 0);
    view.sequence_state.projected_sram_bytes = 8192;
    view.sequence_state.projected_sram_source = ProjectedSizeSource::StaticGraphProjection;
    view.sequence_state.projected_sram_page_switches_per_token = 4;
    let decision = decide_default(&budget, view);
    assert_eq!(decision.outcome, StaticBudgetOutcome::Failed);
    assert_eq!(
        decision.projections.projected_sram_page_switches_per_token,
        ProjectedSwitchCount {
            upper_bound: 4,
            expected_q16_16: None,
            decision_value: 4,
            source: SwitchProjectionSource::ConservativeStaticUpperBound,
        }
    );
    assert_eq!(
        decision.failures,
        vec![BudgetFailure::SramPageSwitchesPerTokenOverCap {
            decision_value: 4,
            upper_bound: 4,
            cap: 3,
            source: SwitchProjectionSource::ConservativeStaticUpperBound,
        }]
    );
}

#[test]
fn f_b4_budget_hard_fail_on_i16_only_lock_with_unsafe_site() {
    let budget = runtime_budget_fixture();
    let mut view = budget_view_fixture(4, 4, 0);
    view.reduction_sites = vec![site("site.i16.locked", 40_000, 1, 1, None)];
    let decision = decide_as(PlacementProfile::StrictOnePerBank, Some(&budget), view, &default_objective(), true);
    assert_eq!(decision.outcome, StaticBudgetOutcome::Failed);
    assert_eq!(
        decision.projections.accumulator_maxima,
        vec![AccumulatorBound {
            site: ReductionSiteId("site.i16.locked".to_owned()),
            projected_max_abs: 40_000,
            i16_safe: false,
            i32_safe: true,
        }]
    );
    assert_eq!(
        decision.failures,
        vec![BudgetFailure::AccumulatorExceedsI32 {
            site: ReductionSiteId("site.i16.locked".to_owned()),
            projected_max_abs: 40_000,
        }]
    );
}

#[test]
fn f_b4_budget_rejects_accumulator_projection_that_cannot_fit_u64() {
    let budget = runtime_budget_fixture();
    let mut view = budget_view_fixture(4, 4, 0);
    view.reduction_sites = vec![site("site.u64.overflow", u32::MAX, u32::MAX, u32::MAX, Some(u32::MAX))];
    let decision = decide_default(&budget, view);
    assert_eq!(decision.outcome, StaticBudgetOutcome::Failed);
    assert!(decision.projections.accumulator_maxima.is_empty());
    assert_eq!(
        decision.failures,
        vec![BudgetFailure::QuantGraphBudgetViewMalformed {
            field: BudgetField::ReductionSiteProjectedMaxAbs { index: 0 }
        }]
    );
}

#[test]
fn f_b4_budget_missing_runtime_chrome_budget_records_budget_failure() {
    let decision = decide_as(
        PlacementProfile::StrictOnePerBank,
        None,
        budget_view_fixture(4, 4, 0),
        &default_objective(),
        false,
    );
    assert_eq!(decision.failures, vec![BudgetFailure::MissingRuntimeChromeBudget]);
    assert_eq!(decision.fits, decision.failures.is_empty());
}

#[test]
fn f_b4_budget_records_static_placement_model() {
    assert_eq!(placement_model_for_profile(PlacementProfile::StrictOnePerBank), StaticPlacementModel::StrictOnePerBank);
    assert_eq!(placement_model_for_profile(PlacementProfile::Budgeted), StaticPlacementModel::BudgetedFirstFit);
    assert_eq!(
        placement_model_for_profile(PlacementProfile::PackedExperts),
        StaticPlacementModel::PackedExpertsFirstFitDecreasing
    );
    let decision = decide_as(
        PlacementProfile::PackedExperts,
        None,
        budget_view_fixture(4, 4, 0),
        &default_objective(),
        false,
    );
    assert_eq!(decision.placement_model, StaticPlacementModel::PackedExpertsFirstFitDecreasing);
}

#[test]
fn f_b4_budget_per_expert_payload_covers_every_expert() {
    let caps = [PlacementProfile::Budgeted];
    let budget = runtime_budget_with_slots(vec![expert_slot(1, 20, 0, &caps), common_slot(2, 64, &caps), expert_slot(3, 64, 0, &caps)]);
    let view = budget_view_with_experts(vec![expert_with_payload(0, 0, 10), expert_with_payload(0, 1, 11)]);
    let decision = decide_budgeted(&budget, view);
    assert_eq!(decision.outcome, StaticBudgetOutcome::Passed, "{:?}", decision.failures);
    let rows: Vec<_> = decision
        .projections
        .per_expert_payload
        .iter()
        .map(|entry| (entry.layer, entry.expert, entry.payload_bytes))
        .collect();
    assert_eq!(rows, vec![(LayerId(0), ExpertId(0), 10), (LayerId(0), ExpertId(1), 11)]);
    assert_eq!(decision.projections.per_bank_occupancy.len(), budget.rom_slots.len());
    assert_eq!(decision.projections.per_bank_occupancy[0].placement_caps, vec![PlacementProfile::Budgeted]);
    assert_eq!(
        decision.projections.per_bank_occupancy[0].assigned_components,
        vec![BudgetComponentRef::Expert { layer: LayerId(0), expert: ExpertId(0) }]
    );
    assert_eq!(
        decision.projections.per_bank_occupancy[2].assigned_components,
        vec![BudgetComponentRef::Expert { layer: LayerId(0), expert: ExpertId(1) }]
    );
}

#[test]
fn f_b4_budget_expert_payload_bytes_pins_bd_w80_matrix_orientation() {
    let per_tensor = plan_with(WeightEncoding::Ternary2, ScaleGranularity::PerTensor, ScaleFormat::Q8_8);
    let per_output_row = plan_with(WeightEncoding::Ternary2, ScaleGranularity::PerOutputRow, ScaleFormat::Q8_8);
    let per_group = plan_with(WeightEncoding::Ternary2, ScaleGranularity::PerGroup { group_size: 16 }, ScaleFormat::Q8_8);
    assert_eq!(expert_payload_bytes(&expert_with_plan(128, 224, 0, per_tensor)), Ok(7_170));
    assert_eq!(expert_payload_bytes(&expert_with_plan(128, 224, 0, per_output_row)), Ok(7_424));
    assert_eq!(expert_payload_bytes(&expert_with_plan(224, 128, 0, per_output_row)), Ok(7_616));
    assert_eq!(expert_payload_bytes(&expert_with_plan(128, 224, 0, per_group)), Ok(7_184));
    let full_two_matrix_expert = expert_payload_bytes(&expert_with_plan(224, 128, 0, per_output_row)).unwrap()
        + expert_payload_bytes(&expert_with_plan(128, 224, 0, per_output_row)).unwrap();
    assert_eq!(full_two_matrix_expert, 15_040);
}

#[test]
fn f_b4_budget_is_deterministic_for_same_inputs() {
    let caps = [PlacementProfile::PackedExperts];
    let budget = runtime_budget_with_slots(vec![expert_slot(1, 25, 0, &caps), expert_slot(2, 25, 0, &caps), common_slot(3, 64, &caps)]);
    let view = budget_view_with_experts(vec![expert_with_payload(0, 0, 11), expert_with_payload(0, 1, 10)]);
    let first = decide_as(PlacementProfile::PackedExperts, Some(&budget), view.clone(), &default_objective(), false);
    let second = decide_as(PlacementProfile::PackedExperts, Some(&budget), view, &default_objective(), false);
    assert_eq!(first, second);
}

fn shared_kernel(id: &str, bytes: u32, bank0_compatible: bool) -> SharedKernelProjection {
    SharedKernelProjection { id: KernelSpecId(id.to_owned()), bytes, bank0_compatible }
}

fn shared_lut(id: &str, bytes: u32, bank0_compatible: bool) -> SharedLutProjection {
    SharedLutProjection { id: id.to_owned(), bytes, bank0_compatible }
}

#[test]
fn f_b4_budget_rejects_common_bank_exceeds_cap() {
    let caps = [PlacementProfile::Budgeted];
    let budget = runtime_budget_with_slots(vec![common_slot(1, 10, &caps), expert_slot(2, 64, 0, &caps)]);
    let mut view = budget_view_fixture(1, 1, 3);
    view.shared_kernels = vec![shared_kernel("kernel.shared", 7, false)];
    view.shared_luts = vec![shared_lut("lut.shared", 6, false)];
    view.shared_dense_ffn = Some(SharedDenseFfnProjection { bytes: 5, bank0_compatible: false });
    let decision = decide_budgeted(&budget, view);
    assert_eq!(decision.outcome, StaticBudgetOutcome::Failed);
    assert_eq!(
        decision.failures,
        vec![BudgetFailure::CommonBankExceedsCap { assigned_bytes: 18, cap_bytes: 10, excess_bytes: 8 }]
    );
    assert_eq!(decision.projections.common_bank_footprint.aggregate_bytes, 18);
    assert_eq!(decision.projections.per_bank_occupancy[0].assigned_bytes, 18);
    assert_eq!(
        decision.projections.per_bank_occupancy[0].assigned_components,
        vec![
            BudgetComponentRef::SharedKernel { id: KernelSpecId("kernel.shared".to_owned()) },
            BudgetComponentRef::SharedLut { id: "lut.shared".to_owned() },
            BudgetComponentRef::SharedDenseFfn,
        ]
    );
}

#[test]
fn f_b4_budget_common_fragmentation_reports_positive_excess() {
    let caps = [PlacementProfile::Budgeted];
    let budget = runtime_budget_with_slots(vec![common_slot(1, 10, &caps), common_slot(2, 10, &caps), expert_slot(3, 64, 0, &caps)]);
    let mut view = budget_view_fixture(1, 1, 3);
    view.shared_kernels = vec![shared_kernel("kernel.fragmented", 15, false)];
    let decision = decide_budgeted(&budget, view);
    assert_eq!(decision.outcome, StaticBudgetOutcome::Failed);
    assert_eq!(
        decision.failures,
        vec![BudgetFailure::CommonBankExceedsCap { assigned_bytes: 15, cap_bytes: 10, excess_bytes: 5 }]
    );
    assert_eq!(decision.projections.per_bank_occupancy[0].assigned_bytes, 15);
}

#[test]
fn f_b4_budget_common_failure_excludes_bank0_bytes_from_common_only_cap() {
    let caps = [PlacementProfile::Budgeted];
    let budget = runtime_budget_with_slots(vec![bank0_slot(0, 8, &caps), common_slot(1, 10, &caps), expert_slot(2, 64, 0, &caps)]);
    let mut view = budget_view_fixture(1, 1, 3);
    view.shared_kernels = vec![shared_kernel("kernel.bank0.ok", 8, true)];
    view.shared_luts = vec![shared_lut("lut.common.only", 8, false)];
    view.shared_dense_ffn = Some(SharedDenseFfnProjection { bytes: 5, bank0_compatible: false });
    let decision = decide_budgeted(&budget, view);
    assert_eq!(decision.outcome, StaticBudgetOutcome::Failed);
    assert_eq!(
        decision.failures,
        vec![BudgetFailure::CommonBankExceedsCap { assigned_bytes: 13, cap_bytes: 10, excess_bytes: 3 }]
    );
    assert_eq!(
        decision.projections.common_bank_footprint,
        CommonBankFootprintSection { kernel_bytes: 8, lut_bytes: 8, shared_dense_ffn_bytes: Some(5), aggregate_bytes: 21 }
    );
}

#[test]
fn f_b4_budget_bank0_compatible_failure_reports_slot_domain_cap() {
    let caps = [PlacementProfile::Budgeted];
    let budget = runtime_budget_with_slots(vec![bank0_slot(0, 10, &caps), common_slot(1, 10, &caps), expert_slot(2, 64, 0, &caps)]);
    let mut view = budget_view_fixture(1, 1, 3);
    view.shared_kernels = vec![shared_kernel("kernel.bank0.ok", 8, true)];
    view.shared_luts = vec![shared_lut("lut.common.full", 10, false)];
    view.shared_dense_ffn = Some(SharedDenseFfnProjection { bytes: 5, bank0_compatible: true });
    let decision = decide_budgeted(&budget, view);
    assert_eq!(decision.outcome, StaticBudgetOutcome::Failed);
    assert_eq!(
        decision.failures,
        vec![BudgetFailure::CommonBankExceedsCap { assigned_bytes: 13, cap_bytes: 10, excess_bytes: 3 }]
    );
    assert_eq!(decision.projections.common_bank_footprint.aggregate_bytes, 23);
}

#[test]
fn f_b4_budget_aggregate_bytes_equals_sum_of_components() {
    let caps = [PlacementProfile::Budgeted];
    let budget = runtime_budget_with_slots(vec![common_slot(1, 64, &caps), expert_slot(2, 64, 0, &caps)]);
    let mut view = budget_view_fixture(1, 1, 3);
    view.shared_kernels = vec![shared_kernel("kernel.shared", 14, false)];
    view.shared_luts = vec![shared_lut("lut.shared", 9, false)];
    view.shared_dense_ffn = Some(SharedDenseFfnProjection { bytes: 6, bank0_compatible: false });
    let decision = decide_budgeted(&budget, view);
    assert_eq!(decision.outcome, StaticBudgetOutcome::Passed, "{:?}", decision.failures);
    assert_eq!(
        decision.projections.common_bank_footprint,
        CommonBankFootprintSection { kernel_bytes: 14, lut_bytes: 9, shared_dense_ffn_bytes: Some(6), aggregate_bytes: 29 }
    );
}

#[test]
fn f_b4_budget_common_footprint_overflow_is_malformed_view() {
    let caps = [PlacementProfile::Budgeted];
    let budget = runtime_budget_with_slots(vec![common_slot(1, 4096, &caps), expert_slot(2, 64, 0, &caps)]);
    let mut view = budget_view_fixture(1, 1, 3);
    view.shared_kernels = vec![shared_kernel("kernel.max", u32::MAX, false)];
    view.shared_luts = vec![shared_lut("lut.one", 1, false)];
    let decision = decide_budgeted(&budget, view);
    assert_eq!(decision.outcome, StaticBudgetOutcome::Failed);
    assert_eq!(
        decision.failures,
        vec![BudgetFailure::QuantGraphBudgetViewMalformed { field: BudgetField::CommonBankFootprintAggregate }]
    );
}

#[test]
fn f_b4_budget_common_payload_respects_bank0_compatibility_flags() {
    let caps = [PlacementProfile::Budgeted];
    let budget = runtime_budget_with_slots(vec![bank0_slot(0, 12, &caps), common_slot(1, 8, &caps), expert_slot(2, 64, 0, &caps)]);
    let mut view = budget_view_fixture(1, 1, 3);
    view.shared_kernels = vec![shared_kernel("kernel.bank0.ok", 12, true)];
    view.shared_luts = vec![shared_lut("lut.common.only", 8, false)];
    let decision = decide_budgeted(&budget, view);
    assert_eq!(decision.outcome, StaticBudgetOutcome::Passed, "{:?}", decision.failures);
    assert_eq!(
        decision.projections.per_bank_occupancy[0].assigned_components,
        vec![BudgetComponentRef::SharedKernel { id: KernelSpecId("kernel.bank0.ok".to_owned()) }]
    );
    assert_eq!(
        decision.projections.per_bank_occupancy[1].assigned_components,
        vec![BudgetComponentRef::SharedLut { id: "lut.common.only".to_owned() }]
    );
}

struct TrackingQuantGraph {
    view: QuantGraphBudgetView,
    calls: Cell<u32>,
}

impl TrackingQuantGraph {
    fn new(view: QuantGraphBudgetView) -> Self {
        Self { view, calls: Cell::new(0) }
    }
}

impl QuantGraphBudgetSource for TrackingQuantGraph {
    fn quant_graph_hash(&self) -> Hash256 {
        self.view.quant_graph_hash
    }

    fn semantic_core_hash(&self) -> Hash256 {
        self.view.semantic_core_hash
    }

    fn to_budget_view(&self) -> Result<QuantGraphBudgetView, QuantGraphBudgetViewError> {
        self.calls.set(self.calls.get() + 1);
        Ok(self.view.clone())
    }
}

fn run_budget_with(budget: Option<&RuntimeChromeBudget>, quant_graph: &TrackingQuantGraph) -> StaticBudgetDecision {
    run_static_budget(
        PlacementProfile::StrictOnePerBank,
        budget,
        quant_graph,
        hash(0x02),
        ScaleFormatByteWidths::default(),
        &default_objective(),
        false,
    )
}

#[test]
fn f_b4_budget_missing_runtime_chrome_budget_does_not_call_to_budget_view() {
    let quant_graph = TrackingQuantGraph::new(budget_view_fixture(4, 4, 0));
    let decision = run_budget_with(None, &quant_graph);
    assert_eq!(quant_graph.calls.get(), 0);
    assert_eq!(decision.failures, vec![BudgetFailure::MissingRuntimeChromeBudget]);
    assert!(!decision.fits);
}

#[test]
fn f_b4_budget_uses_quant_graph_budget_source_trait_stub_until_f_b3() {
    let budget = runtime_budget_fixture();
    let quant_graph = TrackingQuantGraph::new(budget_view_fixture(4, 4, 0));
    let decision = run_budget_with(Some(&budget), &quant_graph);
    assert_eq!(quant_graph.calls.get(), 1);
    assert_eq!(quant_graph.quant_graph_hash(), hash(0x23));
    assert_eq!(decision.outcome, StaticBudgetOutcome::Passed, "{:?}", decision.failures);
    assert_eq!(decision.projections.per_expert_payload[0].layer, LayerId(0));
    assert_eq!(decision.projections.per_expert_payload[0].expert, ExpertId(0));
}

#[test]
fn run_static_budget_refuses_a_graph_with_another_semantic_core() {
    let budget = runtime_budget_fixture();
    let mut view = budget_view_fixture(4, 4, 0);
    view.semantic_core_hash = hash(0xee);
    let quant_graph = TrackingQuantGraph::new(view);
    let decision = run_budget_with(Some(&budget), &quant_graph);
    assert_eq!(quant_graph.calls.get(), 1);
    assert_eq!(
        decision.failures,
        vec![BudgetFailure::QuantGraphBudgetViewMalformed { field: BudgetField::QuantGraphSemanticCoreHash }]
    );
    assert!(decision.projections.per_expert_payload.is_empty());
}

#[test]
fn f_b4_budget_includes_shared_dense_ffn_in_common_bank_footprint() {
    let caps = [PlacementProfile::Budgeted];
    let budget = runtime_budget_with_slots(vec![common_slot(1, 64, &caps), expert_slot(2, 64, 0, &caps)]);
    let mut view = budget_view_fixture(1, 1, 3);
    view.shared_kernels = vec![shared_kernel("kernel.shared", 12, false)];
    view.shared_luts = vec![shared_lut("lut.shared", 8, false)];
    view.shared_dense_ffn = Some(SharedDenseFfnProjection { bytes: 21, bank0_compatible: false });
    let decision = decide_budgeted(&budget, view);
    assert_eq!(decision.outcome, StaticBudgetOutcome::Passed, "{:?}", decision.failures);
    assert_eq!(
        decision.projections.common_bank_footprint,
        CommonBankFootprintSection { kernel_bytes: 12, lut_bytes: 8, shared_dense_ffn_bytes: Some(21), aggregate_bytes: 41 }
    );
    assert_eq!(
        decision.projections.per_bank_occupancy[0].assigned_components,
        vec![
            BudgetComponentRef::SharedKernel { id: KernelSpecId("kernel.shared".to_owned()) },
            BudgetComponentRef::SharedLut { id: "lut.shared".to_owned() },
            BudgetComponentRef::SharedDenseFfn,
        ]
    );
    assert_eq!(decision.projections.per_expert_payload[0].payload_bytes, 6);

    let mut no_shared_dense_view = budget_view_fixture(1, 1, 3);
    no_shared_dense_view.shared_kernels = vec![shared_kernel("kernel.shared", 12, false)];
    no_shared_dense_view.shared_luts = vec![shared_lut("lut.shared", 8, false)];
    let decision = decide_budgeted(&budget, no_shared_dense_view);
    assert_eq!(decision.outcome, StaticBudgetOutcome::Passed, "{:?}", decision.failures);
    assert_eq!(
        decision.projections.common_bank_footprint,
        CommonBankFootprintSection { kernel_bytes: 12, lut_bytes: 8, shared_dense_ffn_bytes: None, aggregate_bytes: 20 }
    );
}
