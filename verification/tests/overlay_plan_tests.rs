use gbf_codegen::ids::{
    CompileProfileId, DeterminismClass, Hash256, KernelSpecId, LutInstanceId, SemVer,
    TargetProfileId,
};
use gbf_codegen::overlay_plan::{
    build_overlay_plan, finalize_overlay_plan_output, validate_overlay_plan_json_surface,
    OverlayEvictionPolicy, OverlayInstallEvent, OverlayPlanAuditParents,
    OverlayPlanDiagnosticCode, OverlayPlanInputHashes, OverlayPlanInputIdentity,
    OverlayPlanInputs, OverlayPlanOutcome, OverlayPlanOutput, OverlayPlanPolicyProjection,
    OverlayResident, OverlayResidentId, OverlaySource, OverlayTargetProfileSummary,
    RomReachabilityClass, RomWindowPlan, RuntimeMode, WramOverlayDemand,
    WramOverlayKernelDemand, WramOverlayLutDemand, WramRegionConstraint,
};
use gbf_codegen::policy::{RomBudgetSlot, RuntimeChromeBudget, RuntimeMemoryCapSection};

fn hash(byte: u8) -> Hash256 {
    Hash256::from_bytes(&[byte; 32])
}

fn resident_kernel(id: &str, payload_bytes: u32) -> OverlayResident {
    let resident = OverlayResidentId::Kernel {
        kernel: KernelSpecId(id.to_owned()),
    };
    OverlayResident {
        id: resident.clone(),
        payload_bytes,
        reachability: RomReachabilityClass::HotPath,
        source: OverlaySource::RomWindowOverlayDemand { resident },
    }
}

fn resident_lut(id: &str, payload_bytes: u32) -> OverlayResident {
    let resident = OverlayResidentId::Lut {
        lut: LutInstanceId(id.to_owned()),
    };
    OverlayResident {
        id: resident.clone(),
        payload_bytes,
        reachability: RomReachabilityClass::HotPath,
        source: OverlaySource::RomWindowOverlayDemand { resident },
    }
}

fn rom_window_plan(self_hash: Hash256, residents: &[OverlayResident]) -> RomWindowPlan {
    let kernels = residents
        .iter()
        .filter_map(|resident| match &resident.id {
            OverlayResidentId::Kernel { kernel } => Some(WramOverlayKernelDemand {
                kernel: kernel.clone(),
                byte_size: resident.payload_bytes,
                reachability: resident.reachability,
            }),
            OverlayResidentId::Lut { .. } => None,
        })
        .collect();
    let luts = residents
        .iter()
        .filter_map(|resident| match &resident.id {
            OverlayResidentId::Lut { lut } => Some(WramOverlayLutDemand {
                lut: lut.clone(),
                byte_size: resident.payload_bytes,
                reachability: resident.reachability,
            }),
            OverlayResidentId::Kernel { .. } => None,
        })
        .collect();
    RomWindowPlan {
        overlay_demand: WramOverlayDemand { kernels, luts },
        rom_window_plan_self_hash: self_hash,
    }
}

fn fixture_inputs(residents: Vec<OverlayResident>) -> OverlayPlanInputs {
    let hashes = OverlayPlanInputHashes {
        storage_plan_self_hash: hash(1),
        sram_page_plan_self_hash: hash(2),
        rom_window_plan_self_hash: hash(3),
        runtime_chrome_budget_hash: hash(4),
        target_profile_hash: hash(5),
        overlay_plan_policy_projection_hash: hash(6),
    };
    OverlayPlanInputs {
        input_identity: OverlayPlanInputIdentity {
            storage_plan_self_hash: hashes.storage_plan_self_hash,
            sram_page_plan_self_hash: hashes.sram_page_plan_self_hash,
            rom_window_plan_self_hash: hashes.rom_window_plan_self_hash,
            runtime_chrome_budget_hash: hashes.runtime_chrome_budget_hash,
            target_profile_hash: hashes.target_profile_hash,
            overlay_plan_policy_projection_hash: hashes.overlay_plan_policy_projection_hash,
            determinism: DeterminismClass::Deterministic,
            target_profile_id: TargetProfileId("dmg-mbc5".to_owned()),
            schema_version: SemVer {
                major: 1,
                minor: 0,
                patch: 0,
            },
        },
        expected_input_hashes: hashes,
        audit_parents: OverlayPlanAuditParents {
            policy_resolution_self_hash: hash(7),
            artifact_validation_self_hash: hash(8),
            compile_request_hash: hash(9),
        },
        runtime_chrome_budget: RuntimeChromeBudget {
            target: TargetProfileId("dmg-mbc5".to_owned()),
            profile: CompileProfileId("Bringup".to_owned()),
            runtime_nucleus_hash: hash(10),
            rom_slots: Vec::<RomBudgetSlot>::new(),
            memory_caps: RuntimeMemoryCapSection {
                wram_usable_bytes: 8 * 1024,
                sram_usable_bytes: 32 * 1024,
                hram_usable_bytes: 127,
                source_target_profile_hash: hash(11),
            },
            wram_reserved: 1024,
            sram_reserved: 512,
        },
        target_profile: OverlayTargetProfileSummary {
            allowed_overlay_constraints: vec![WramRegionConstraint::DmgWramC000Dfff],
            default_overlay_constraint: WramRegionConstraint::DmgWramC000Dfff,
            wram_overlay_region_max_bytes: 1024,
        },
        policy: OverlayPlanPolicyProjection {
            overlay_eviction_default: OverlayEvictionPolicy::ReloadOnUse,
            overlay_install_event_default: Some(OverlayInstallEvent::ExpertSwitch),
            runtime_modes_requested: vec![RuntimeMode::Steady],
            require_explicit_zero_reservation: false,
        },
        rom_window_plan: rom_window_plan(hashes.rom_window_plan_self_hash, &residents),
    }
}

fn assert_has_code(output: &OverlayPlanOutput, expected: OverlayPlanDiagnosticCode) {
    assert_eq!(output.outcome, OverlayPlanOutcome::Failed);
    assert!(output.result.is_none());
    assert!(
        output
            .diagnostics
            .iter()
            .any(|diagnostic| diagnostic.code == expected),
        "missing {expected:?} in {:?}",
        output.diagnostics
    );
}

#[test]
fn pass_single_region_share_class_installs_and_report_round_trip() {
    let output = build_overlay_plan(&fixture_inputs(vec![
        resident_kernel("matvec", 384),
        resident_lut("gelu", 128),
    ]));
    assert_eq!(output.outcome, OverlayPlanOutcome::Succeeded);
    let output = finalize_overlay_plan_output(output, None, hash(42));
    let result = output.result.as_ref().expect("overlay plan");
    assert_eq!(result.summary.region_count, 1);
    assert_eq!(result.summary.share_class_count, 1);
    assert_eq!(result.summary.install_count, 2);
    assert_eq!(result.summary.reserved_bytes, 384);
    assert_eq!(result.product.regions[0].bytes, 384);
    assert_eq!(result.product.reservation.per_region[0].bytes, 384);
    assert_eq!(
        result.overlay_plan_self_hash,
        result.product.overlay_plan_self_hash
    );
    assert_eq!(result.overlay_plan_self_hash, hash(42));
}

#[test]
fn plan_installs_kernels_before_luts() {
    let output = build_overlay_plan(&fixture_inputs(vec![
        resident_lut("gelu", 128),
        resident_kernel("matvec", 384),
        resident_kernel("attn", 200),
    ]));
    let result = output.result.as_ref().expect("overlay plan");
    let members: Vec<&OverlayResidentId> = result
        .product
        .installs
        .iter()
        .map(|install| &install.member)
        .collect();
    assert_eq!(
        members,
        vec![
            &OverlayResidentId::Kernel {
                kernel: KernelSpecId("attn".to_owned())
            },
            &OverlayResidentId::Kernel {
                kernel: KernelSpecId("matvec".to_owned())
            },
            &OverlayResidentId::Lut {
                lut: LutInstanceId("gelu".to_owned())
            },
        ]
    );
    assert!(result
        .product
        .installs
        .iter()
        .all(|install| install.install_event == OverlayInstallEvent::ExpertSwitch));
}

#[test]
fn canonical_sort_is_stable_across_rom_overlay_demand_order() {
    let first = build_overlay_plan(&fixture_inputs(vec![
        resident_kernel("matvec", 384),
        resident_lut("gelu", 128),
    ]));
    let second = build_overlay_plan(&fixture_inputs(vec![
        resident_lut("gelu", 128),
        resident_kernel("matvec", 384),
    ]));
    assert_eq!(first.outcome, OverlayPlanOutcome::Succeeded);
    assert_eq!(second.outcome, OverlayPlanOutcome::Succeeded);
    assert_eq!(first, second);
}

#[test]
fn reject_hash_region_eviction_and_missing_install_event() {
    let mut hash_mismatch = fixture_inputs(vec![resident_kernel("matvec", 128)]);
    hash_mismatch
        .expected_input_hashes
        .rom_window_plan_self_hash = hash(88);
    assert_has_code(
        &build_overlay_plan(&hash_mismatch),
        OverlayPlanDiagnosticCode::OverlayInputHashMismatch,
    );

    let mut region_overflow = fixture_inputs(vec![resident_kernel("matvec", 513)]);
    region_overflow.target_profile.wram_overlay_region_max_bytes = 512;
    assert_has_code(
        &build_overlay_plan(&region_overflow),
        OverlayPlanDiagnosticCode::OverlayRegionPayloadExceedsRegionCap,
    );

    let mut undefined_eviction = fixture_inputs(vec![
        resident_kernel("matvec", 128),
        resident_lut("gelu", 128),
    ]);
    undefined_eviction.policy.overlay_eviction_default = OverlayEvictionPolicy::Undefined;
    assert_has_code(
        &build_overlay_plan(&undefined_eviction),
        OverlayPlanDiagnosticCode::OverlayShareClassEvictionUndefined,
    );

    let mut missing_event = fixture_inputs(vec![resident_kernel("matvec", 128)]);
    missing_event.policy.overlay_install_event_default = None;
    assert_has_code(
        &build_overlay_plan(&missing_event),
        OverlayPlanDiagnosticCode::OverlayInstallEventDefaultMissing,
    );

    let mut wram_cap = fixture_inputs(vec![resident_kernel("matvec", 1025)]);
    wram_cap.target_profile.wram_overlay_region_max_bytes = 2048;
    wram_cap.runtime_chrome_budget.wram_reserved = 1024;
    assert_has_code(
        &build_overlay_plan(&wram_cap),
        OverlayPlanDiagnosticCode::OverlayWramOverlayCapExceeded,
    );

    let mut empty_runtime_modes = fixture_inputs(vec![resident_kernel("matvec", 128)]);
    empty_runtime_modes.policy.runtime_modes_requested.clear();
    assert_has_code(
        &build_overlay_plan(&empty_runtime_modes),
        OverlayPlanDiagnosticCode::OverlayResolvedPolicyProjectionMismatch,
    );

    let mut unsupported_target = fixture_inputs(vec![resident_kernel("matvec", 128)]);
    unsupported_target
        .target_profile
        .allowed_overlay_constraints
        .clear();
    assert_has_code(
        &build_overlay_plan(&unsupported_target),
        OverlayPlanDiagnosticCode::OverlayTargetProfileLayoutUnsupported,
    );
}

#[test]
fn reject_surface_leaks_are_hard_diagnostics() {
    let role = validate_overlay_plan_json_surface("{\"leak\":\"SectionRole\"}")
        .expect("surface diagnostic");
    assert_eq!(role.code, OverlayPlanDiagnosticCode::OverlaySectionRoleLeaked);
    let scheduling = validate_overlay_plan_json_surface("{\"leak\":\"ArenaPlan\"}")
        .expect("surface diagnostic");
    assert_eq!(
        scheduling.code,
        OverlayPlanDiagnosticCode::OverlaySchedulingFieldLeaked
    );
    let repair = validate_overlay_plan_json_surface("{\"leak\":\"RepairProposal\"}")
        .expect("surface diagnostic");
    assert_eq!(
        repair.code,
        OverlayPlanDiagnosticCode::OverlayRepairProvenanceForbidden
    );
    assert!(validate_overlay_plan_json_surface("{\"regions\":[]}").is_none());
}

#[test]
fn surface_leak_fails_a_built_plan() {
    let output = build_overlay_plan(&fixture_inputs(vec![resident_kernel("matvec", 128)]));
    let leak = validate_overlay_plan_json_surface("{\"leak\":\"RepairProposal\"}");
    let finalized = finalize_overlay_plan_output(output, leak, hash(1));
    assert_has_code(
        &finalized,
        OverlayPlanDiagnosticCode::OverlayRepairProvenanceForbidden,
    );
}

#[test]
fn empty_overlay_demand_short_circuits_or_rejects_declared_zero_policy() {
    let empty = build_overlay_plan(&fixture_inputs(Vec::new()));
    assert_eq!(empty.outcome, OverlayPlanOutcome::Succeeded);
    let result = empty.result.as_ref().expect("empty overlay plan");
    assert!(result.product.regions.is_empty());
    assert_eq!(result.summary.reserved_bytes, 0);

    let mut explicit_zero = fixture_inputs(Vec::new());
    explicit_zero.policy.require_explicit_zero_reservation = true;
    assert_has_code(
        &build_overlay_plan(&explicit_zero),
        OverlayPlanDiagnosticCode::OverlayNoCandidatesButReservationDeclared,
    );
}
