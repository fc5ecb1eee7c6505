use std::collections::BTreeSet;

use gbf_codegen::arena::{
    align_up, arena_for, build_arena_plan, byte_range, finalize_arena_plan_output,
    lifetime_priority, take_range, validate_address_invariants, validate_arena_plan_json_surface,
    ArenaBacking, ArenaId, ArenaInstance, ArenaPlan, ArenaPlanBindingInput,
    ArenaPlanDiagnosticCode, ArenaPlanInputHashes, ArenaPlanInputIdentity, ArenaPlanInputs,
    ArenaPlanOutcome, ArenaPlanOutput, ArenaPlanPolicyProjection, ArenaSlotId,
    ArenaTargetProfileSummary, ArenaZerofillPolicy, ByteRange, NamedArena, SlotBindingKind,
};
use gbf_codegen::ids::{
    AliasClassId, CommitGroupId, CompileProfileId, DeterminismClass, Hash256, KernelSpecId,
    PageId, PersistPageId, SemVer, SequenceStreamId, TargetProfileId, ValueId,
};
use gbf_codegen::overlay_plan::{
    OverlayId, OverlayPlan, OverlayPlanInputIdentity, OverlayRegion, OverlayReservation,
    OverlayReservationEntry, OverlayReservationKind, OverlayResident, OverlayResidentId,
    OverlaySource, RomReachabilityClass, WramRegionConstraint,
};
use gbf_codegen::policy::{
    BudgetSlotClass, BudgetSlotId, PlacementProfile, RomBudgetSlot, RuntimeChromeBudget,
    RuntimeMemoryCapSection,
};
use gbf_codegen::sram_page_plan::{PersistentPageGeometry, SramPageBinding, SramPagePlan};
use gbf_codegen::storage_plan::{LifetimeClass, Materialization, StorageBinding, StorageClass};

fn hash(byte: u8) -> Hash256 {
    Hash256::from_bytes(&[byte; 32])
}

fn geometry() -> PersistentPageGeometry {
    PersistentPageGeometry {
        header_bytes: 16,
        payload_bytes: 512,
        commit_word_bytes: 16,
        alignment: 16,
    }
}

fn storage_binding(value: u32, materialization: Materialization, alias: u32) -> StorageBinding {
    StorageBinding {
        value: ValueId(value),
        alias_class: AliasClassId(alias),
        materialization,
    }
}

fn sram_plan(geometry: PersistentPageGeometry) -> SramPagePlan {
    SramPagePlan {
        bindings: vec![SramPageBinding {
            binding_id: ValueId(3),
            page: PageId(0),
            commit_group: CommitGroupId(1),
            payload_bytes: 256,
            geometry,
            sequence_stream: SequenceStreamId(1),
        }],
        geometry,
        sram_page_plan_self_hash: hash(2),
    }
}

fn matvec_resident() -> OverlayResident {
    let id = OverlayResidentId::Kernel {
        kernel: KernelSpecId("matvec".to_owned()),
    };
    OverlayResident {
        id: id.clone(),
        payload_bytes: 128,
        reachability: RomReachabilityClass::HotPath,
        source: OverlaySource::RomWindowOverlayDemand { resident: id },
    }
}

fn overlay_plan() -> OverlayPlan {
    OverlayPlan {
        identity: OverlayPlanInputIdentity {
            storage_plan_self_hash: hash(1),
            sram_page_plan_self_hash: hash(2),
            rom_window_plan_self_hash: hash(3),
            runtime_chrome_budget_hash: hash(5),
            target_profile_hash: hash(6),
            overlay_plan_policy_projection_hash: hash(11),
            determinism: DeterminismClass::Deterministic,
            target_profile_id: TargetProfileId("dmg-mbc5".to_owned()),
            schema_version: SemVer {
                major: 1,
                minor: 0,
                patch: 0,
            },
        },
        regions: vec![OverlayRegion {
            id: OverlayId(0),
            bytes: 128,
            constraint: WramRegionConstraint::DmgWramC000Dfff,
            members: vec![matvec_resident()],
            reservation_kind: OverlayReservationKind::WramOverlay,
            reservation_floor_bytes: 128,
            reservation_ceil_bytes: 128,
        }],
        share_classes: Vec::new(),
        installs: Vec::new(),
        reservation: OverlayReservation {
            total_bytes: 128,
            per_region: vec![OverlayReservationEntry {
                region: OverlayId(0),
                bytes: 128,
                reservation_kind: OverlayReservationKind::WramOverlay,
            }],
            cap_bytes: 1024,
            region_max_bytes: 1024,
        },
        overlay_plan_self_hash: hash(4),
    }
}

fn runtime_budget() -> RuntimeChromeBudget {
    RuntimeChromeBudget {
        target: TargetProfileId("dmg-mbc5".to_owned()),
        profile: CompileProfileId("Bringup".to_owned()),
        runtime_nucleus_hash: hash(20),
        rom_slots: vec![RomBudgetSlot {
            id: BudgetSlotId(0),
            class: BudgetSlotClass::Bank0Free,
            usable_bytes: 16 * 1024,
            reserved_slack: 0,
            placement_caps: vec![PlacementProfile::Budgeted],
        }],
        memory_caps: RuntimeMemoryCapSection {
            wram_usable_bytes: 8192,
            sram_usable_bytes: 32768,
            hram_usable_bytes: 127,
            source_target_profile_hash: hash(6),
        },
        wram_reserved: 1024,
        sram_reserved: 0,
    }
}

fn fixture_inputs() -> ArenaPlanInputs {
    let hashes = ArenaPlanInputHashes {
        storage_plan_self_hash: hash(1),
        sram_page_plan_self_hash: hash(2),
        rom_window_plan_self_hash: hash(3),
        overlay_plan_self_hash: hash(4),
        runtime_chrome_budget_hash: hash(5),
        target_profile_hash: hash(6),
        arena_plan_policy_projection_hash: hash(7),
    };
    let geometry = geometry();
    ArenaPlanInputs {
        input_identity: ArenaPlanInputIdentity {
            storage_plan_self_hash: hashes.storage_plan_self_hash,
            sram_page_plan_self_hash: hashes.sram_page_plan_self_hash,
            rom_window_plan_self_hash: hashes.rom_window_plan_self_hash,
            overlay_plan_self_hash: hashes.overlay_plan_self_hash,
            runtime_chrome_budget_hash: hashes.runtime_chrome_budget_hash,
            target_profile_hash: hashes.target_profile_hash,
            arena_plan_policy_projection_hash: hashes.arena_plan_policy_projection_hash,
            determinism: DeterminismClass::Deterministic,
            target_profile_id: TargetProfileId("dmg-mbc5".to_owned()),
            schema_version: SemVer {
                major: 1,
                minor: 0,
                patch: 0,
            },
        },
        expected_input_hashes: hashes,
        runtime_chrome_budget: runtime_budget(),
        target_profile: ArenaTargetProfileSummary {
            wram_usable_bytes: 8192,
            sram_window_bytes: 8192,
            hram_usable_bytes: 127,
        },
        policy: ArenaPlanPolicyProjection {
            arena_alignment_default: 16,
            arena_zerofill_policy: ArenaZerofillPolicy::ZeroOnBuild,
            persistent_page_geometry: geometry,
        },
        storage_bindings: vec![
            ArenaPlanBindingInput {
                binding: storage_binding(
                    1,
                    Materialization::Materialize {
                        class: StorageClass::WramHot,
                        lifetime: LifetimeClass::Slice,
                    },
                    7,
                ),
                size_bytes: 64,
            },
            ArenaPlanBindingInput {
                binding: storage_binding(
                    2,
                    Materialization::Materialize {
                        class: StorageClass::WramHot,
                        lifetime: LifetimeClass::Slice,
                    },
                    7,
                ),
                size_bytes: 64,
            },
            ArenaPlanBindingInput {
                binding: storage_binding(
                    3,
                    Materialization::Persist {
                        page: PersistPageId(3),
                        commit_group: CommitGroupId(1),
                    },
                    8,
                ),
                size_bytes: 256,
            },
        ],
        sram_page_plan: sram_plan(geometry),
        overlay_plan: overlay_plan(),
    }
}

fn assert_has_code(output: &ArenaPlanOutput, expected: ArenaPlanDiagnosticCode) {
    assert_eq!(output.outcome, ArenaPlanOutcome::Failed);
    assert!(output.result.is_none());
    assert!(
        output
            .diagnostics
            .iter()
            .any(|diagnostic| diagnostic.code == expected),
        "missing {expected:?} in {:?}",
        output.diagnostics
    );
}

fn successful_plan(input: &ArenaPlanInputs) -> ArenaPlan {
    let output = build_arena_plan(input);
    assert_eq!(
        output.outcome,
        ArenaPlanOutcome::Succeeded,
        "{:?}",
        output.diagnostics
    );
    output.result.expect("arena result").product
}

#[test]
fn pass_materialize_persist_overlay_cert_and_report_round_trip() {
    let output = build_arena_plan(&fixture_inputs());
    assert_eq!(
        output.outcome,
        ArenaPlanOutcome::Succeeded,
        "{:?}",
        output.diagnostics
    );
    let result = output.result.as_ref().expect("arena result");
    assert_eq!(result.summary.overlay_reserved_bytes, 128);
    assert_eq!(result.product.overlay_reservation.total_bytes, 128);
    let honor_entry = result
        .product
        .overlay_reservation
        .per_region
        .first()
        .expect("overlay honor entry");
    assert_eq!(honor_entry.overlay_id, OverlayId(0));
    assert_eq!(honor_entry.arena_id, ArenaId(0));
    assert_eq!(honor_entry.bytes, 128);
    assert_eq!(honor_entry.byte_range.len, 128);
    assert_eq!(result.product.arena_bindings.materialize_to_slot.len(), 2);
    assert_eq!(result.product.arena_bindings.persist_to_slot_pair.len(), 1);

    let alias_slots = result
        .product
        .arena_bindings
        .materialize_to_slot
        .iter()
        .map(|binding| binding.slot)
        .collect::<BTreeSet<_>>();
    assert_eq!(alias_slots.len(), 1);

    let cert = output.cert.as_ref().expect("arena certificate");
    assert!(cert.address_invariants.all_pass());
    assert_eq!(cert.reservation_honor.total_bytes, 128);

    let finalized = finalize_arena_plan_output(output.clone(), None, Some(hash(50)), Some(hash(51)));
    assert_eq!(finalized.outcome, ArenaPlanOutcome::Succeeded);
    let finalized_result = finalized.result.as_ref().expect("finalized result");
    assert_eq!(finalized_result.arena_plan_self_hash, hash(50));
    assert_eq!(finalized_result.product.arena_plan_self_hash, hash(50));
    let finalized_cert = finalized.cert.as_ref().expect("finalized cert");
    assert_eq!(finalized_cert.arena_plan_self_hash, hash(50));
    assert_eq!(finalized_cert.arena_cert_self_hash, hash(51));
    assert_ne!(finalized_cert.arena_cert_self_hash, Hash256::zero());
}

#[test]
fn reject_hash_geometry_unmapped_and_sram_span() {
    let mut hash_mismatch = fixture_inputs();
    hash_mismatch.expected_input_hashes.overlay_plan_self_hash = hash(99);
    assert_has_code(
        &build_arena_plan(&hash_mismatch),
        ArenaPlanDiagnosticCode::ArenaInputHashMismatch,
    );

    let mut geometry = fixture_inputs();
    geometry.policy.persistent_page_geometry.alignment = 8;
    assert_has_code(
        &build_arena_plan(&geometry),
        ArenaPlanDiagnosticCode::ArenaPersistentPageGeometryMismatch,
    );

    let mut unmapped = fixture_inputs();
    unmapped.storage_bindings.push(ArenaPlanBindingInput {
        binding: storage_binding(
            10,
            Materialization::Materialize {
                class: StorageClass::RomConst,
                lifetime: LifetimeClass::Session,
            },
            4,
        ),
        size_bytes: 16,
    });
    assert_has_code(
        &build_arena_plan(&unmapped),
        ArenaPlanDiagnosticCode::ArenaUnmappedStorageClass,
    );

    let mut span = fixture_inputs();
    span.target_profile.sram_window_bytes = 128;
    assert_has_code(
        &build_arena_plan(&span),
        ArenaPlanDiagnosticCode::ArenaSramSpanForbidden,
    );
}

#[test]
fn reject_overlay_payload_and_reservation_region_drift() {
    let mut oversized = fixture_inputs();
    oversized.overlay_plan.regions[0].members[0].payload_bytes = 129;
    assert_has_code(
        &build_arena_plan(&oversized),
        ArenaPlanDiagnosticCode::ArenaOverlayReservationOverflow,
    );

    let mut byte_drift = fixture_inputs();
    byte_drift.overlay_plan.reservation.per_region[0].bytes = 64;
    assert_has_code(
        &build_arena_plan(&byte_drift),
        ArenaPlanDiagnosticCode::ArenaOverlayReservationCountMismatch,
    );

    let mut count_drift = fixture_inputs();
    count_drift.overlay_plan.reservation.per_region.clear();
    assert_has_code(
        &build_arena_plan(&count_drift),
        ArenaPlanDiagnosticCode::ArenaOverlayReservationCountMismatch,
    );
}

#[test]
fn address_invariants_reject_alias_lifetime_continuation_harness_and_persist_drift() {
    let input = fixture_inputs();

    let mut alias_plan = successful_plan(&input);
    let arena = alias_plan
        .wram_arenas
        .iter_mut()
        .find(|arena| matches!(arena.named, NamedArena::WramAccumScratch))
        .expect("wram accum arena");
    let mut overlapping = arena.slots[0].clone();
    overlapping.id = ArenaSlotId(10_000);
    overlapping.alias_class_id = Some(AliasClassId(10_000));
    arena.slots.push(overlapping);
    assert!(!validate_address_invariants(&input, &alias_plan).f_addr_3_alias_total_or_disjoint);

    let mut lifetime_plan = successful_plan(&input);
    let materialized_slot = lifetime_plan
        .arena_bindings
        .materialize_to_slot
        .first()
        .expect("materialized binding")
        .slot;
    for arena in &mut lifetime_plan.wram_arenas {
        if let Some(slot) = arena
            .slots
            .iter_mut()
            .find(|slot| slot.id == materialized_slot)
        {
            slot.lifetime_class = LifetimeClass::Token;
        }
    }
    assert!(!validate_address_invariants(&input, &lifetime_plan).f_addr_4_lifetime_preservation);

    let mut continuation_plan = successful_plan(&input);
    continuation_plan.wram_arenas.push(ArenaInstance {
        id: ArenaId(10_001),
        named: NamedArena::WramContinuationRecord,
        byte_range: ByteRange {
            start: 4096,
            len: 0,
        },
        backing: ArenaBacking::Wram,
        alignment: input.policy.arena_alignment_default,
        zerofill: input.policy.arena_zerofill_policy,
        slots: Vec::new(),
    });
    assert!(!validate_address_invariants(&input, &continuation_plan).f_addr_10_continuation_sized);

    let mut harness_plan = successful_plan(&input);
    let sequence_range = harness_plan
        .sram_arenas
        .iter()
        .find(|arena| matches!(arena.named, NamedArena::SramSequenceStatePages { .. }))
        .expect("sequence-state arena")
        .byte_range;
    harness_plan.sram_arenas.push(ArenaInstance {
        id: ArenaId(10_002),
        named: NamedArena::SramHarnessCommandBlock,
        byte_range: sequence_range,
        backing: ArenaBacking::Sram,
        alignment: input.policy.arena_alignment_default,
        zerofill: input.policy.arena_zerofill_policy,
        slots: Vec::new(),
    });
    assert!(!validate_address_invariants(&input, &harness_plan).f_addr_11_harness_disjoint);

    let mut persistent_plan = successful_plan(&input);
    for arena in &mut persistent_plan.sram_arenas {
        if let Some(slot) = arena.slots.iter_mut().find(|slot| {
            matches!(
                slot.binding_kind,
                SlotBindingKind::PersistentPageA { .. } | SlotBindingKind::PersistentPageB { .. }
            )
        }) {
            slot.byte_offset = 1;
            break;
        }
    }
    assert!(
        !validate_address_invariants(&input, &persistent_plan)
            .f_addr_12_persistent_page_header_aligned
    );
}

#[test]
fn continuation_invariant_accepts_session_materialization_with_nonzero_arena() {
    let mut input = fixture_inputs();
    input.storage_bindings.push(ArenaPlanBindingInput {
        binding: storage_binding(
            11,
            Materialization::Materialize {
                class: StorageClass::WramHot,
                lifetime: LifetimeClass::Session,
            },
            11,
        ),
        size_bytes: 32,
    });
    let plan = successful_plan(&input);
    let invariants = validate_address_invariants(&input, &plan);
    assert!(invariants.f_addr_10_continuation_sized);
    assert!(plan.wram_arenas.iter().any(|arena| matches!(
        arena.named,
        NamedArena::WramContinuationRecord
    ) && arena.byte_range.len >= 32));
}

#[test]
fn overlay_reservation_honor_cross_checks_per_region_entries() {
    let input = fixture_inputs();
    let mut plan = successful_plan(&input);
    plan.overlay_reservation.per_region[0].bytes = 64;
    assert!(!validate_address_invariants(&input, &plan).f_addr_5_overlay_byte_equality);

    let mut plan = successful_plan(&input);
    plan.overlay_reservation.per_region[0].arena_id = ArenaId(10_003);
    assert!(!validate_address_invariants(&input, &plan).f_addr_5_overlay_byte_equality);
}

#[test]
fn successful_plan_satisfies_every_address_invariant() {
    let input = fixture_inputs();
    let plan = successful_plan(&input);
    assert!(validate_address_invariants(&input, &plan).all_pass());
}

#[test]
fn surface_leaks_fail_the_arena_output() {
    let leak = validate_arena_plan_json_surface("{\"leak\":\"SectionRole\"}");
    assert_eq!(
        leak.as_ref().expect("surface diagnostic").code,
        ArenaPlanDiagnosticCode::ArenaSectionRoleLeaked
    );
    assert!(validate_arena_plan_json_surface("{\"wram_arenas\":[]}").is_none());
    let output = build_arena_plan(&fixture_inputs());
    let finalized = finalize_arena_plan_output(output, leak, Some(hash(50)), Some(hash(51)));
    assert_has_code(&finalized, ArenaPlanDiagnosticCode::ArenaSectionRoleLeaked);
}

#[test]
fn layout_helpers_follow_their_formulas() {
    assert_eq!(align_up(0, 16), 0);
    assert_eq!(align_up(1, 16), 16);
    assert_eq!(align_up(32, 16), 32);
    assert_eq!(align_up(33, 8), 40);
    assert_eq!(
        byte_range(16, 32),
        Some(ByteRange {
            start: 16,
            len: 32
        })
    );
    assert_eq!(byte_range(70_000, 1), None);
    let mut cursor = 10u32;
    assert_eq!(take_range(&mut cursor, 6), Some(10));
    assert_eq!(cursor, 16);
    assert!(lifetime_priority(LifetimeClass::Slice) < lifetime_priority(LifetimeClass::Persistent));
    assert_eq!(
        arena_for(StorageClass::WramHot, LifetimeClass::Session),
        Some(NamedArena::WramContinuationRecord)
    );
    assert_eq!(arena_for(StorageClass::RomConst, LifetimeClass::Session), None);
}

#[test]
fn reject_zero_alignment_policy() {
    let mut input = fixture_inputs();
    input.policy.arena_alignment_default = 0;
    assert_has_code(
        &build_arena_plan(&input),
        ArenaPlanDiagnosticCode::ArenaPolicyProjectionMismatch,
    );
}

#[test]
fn reject_page_shared_across_streams() {
    let mut input = fixture_inputs();
    let mut other = input.sram_page_plan.bindings[0];
    other.sequence_stream = SequenceStreamId(2);
    input.sram_page_plan.bindings.push(other);
    assert_has_code(
        &build_arena_plan(&input),
        ArenaPlanDiagnosticCode::ArenaCrossStreamPageSharing,
    );
}

#[test]
fn reject_persisted_page_without_storage_binding() {
    let mut input = fixture_inputs();
    input.sram_page_plan.bindings[0].binding_id = ValueId(42);
    assert_has_code(
        &build_arena_plan(&input),
        ArenaPlanDiagnosticCode::ArenaPersistentPageStreamMismatch,
    );
}

#[test]
fn reject_empty_materialized_value() {
    let mut input = fixture_inputs();
    input.storage_bindings[0].size_bytes = 0;
    assert_has_code(
        &build_arena_plan(&input),
        ArenaPlanDiagnosticCode::ArenaAllocationFailed,
    );
}

#[test]
fn reject_alias_class_with_two_lifetimes() {
    let mut input = fixture_inputs();
    input.storage_bindings.push(ArenaPlanBindingInput {
        binding: storage_binding(
            20,
            Materialization::Materialize {
                class: StorageClass::HramHot,
                lifetime: LifetimeClass::Slice,
            },
            9,
        ),
        size_bytes: 2,
    });
    input.storage_bindings.push(ArenaPlanBindingInput {
        binding: storage_binding(
            21,
            Materialization::Materialize {
                class: StorageClass::HramHot,
                lifetime: LifetimeClass::Token,
            },
            9,
        ),
        size_bytes: 2,
    });
    assert_has_code(
        &build_arena_plan(&input),
        ArenaPlanDiagnosticCode::ArenaLifetimeClassMismatch,
    );
}

#[test]
fn reject_memories_over_their_caps() {
    let mut hram = fixture_inputs();
    hram.target_profile.hram_usable_bytes = 20;
    assert_has_code(
        &build_arena_plan(&hram),
        ArenaPlanDiagnosticCode::ArenaHramUsableCapExceeded,
    );

    let mut wram = fixture_inputs();
    wram.target_profile.wram_usable_bytes = 150;
    assert_has_code(
        &build_arena_plan(&wram),
        ArenaPlanDiagnosticCode::ArenaBank0WramOverflow,
    );

    let mut sram = fixture_inputs();
    sram.runtime_chrome_budget.memory_caps.sram_usable_bytes = 600;
    assert_has_code(
        &build_arena_plan(&sram),
        ArenaPlanDiagnosticCode::ArenaCapacityExceeded,
    );
}

#[test]
fn surface_rejects_scheduling_words_and_repair_provenance() {
    let scheduling = validate_arena_plan_json_surface("{\"lease\":\"LeaseId\"}");
    assert_eq!(
        scheduling.expect("surface diagnostic").code,
        ArenaPlanDiagnosticCode::ArenaSchedulingFieldLeaked
    );
    let repair = validate_arena_plan_json_surface("{\"repair_proposals\":[]}");
    assert_eq!(
        repair.expect("surface diagnostic").code,
        ArenaPlanDiagnosticCode::ArenaRepairProvenanceForbidden
    );
}
