use std::collections::BTreeSet;

use gbf_codegen::bringup::{
    i32s_to_le_bytes, lower_request_to_asmir, materialize_operand_fixture, plan_arena,
    plan_rom_window, plan_storage, ranges_overlap, reassemble_tiles, run_bringup_model,
    synthetic_frame_events, tile_bytes, tile_schedule, validate_no_raw_mbc_writes,
    validate_no_yield_while_lease_active, validate_structural_counts,
    validate_uses_banklease_ops, AsmInstr, BankedOperandPlacement, BringupRunMetrics,
    BringupValidationError, ComputeBringupRequest, ComputeBringupRequestError, FrameEvent,
    OperandFixtureSpec, OperandKind, OperandLayout, PreLayoutOp, RomBankId, RomBankOffset,
    RomResidency, RunMetric, SectionItem, SquareDim, TileSize, WramArenaSlot, YieldQuantum,
    REQUEST_HASH_DOMAIN,
};
use gbf_codegen::quarter_square::{
    quarter_square_mul_i8, quarter_square_table_bytes_le, quarter_square_table_i16,
    quarter_square_table_split_bytes, QUARTER_SQUARE_BYTES, QUARTER_SQUARE_LEN,
};

const RUNTIME_USED: u32 = 4096;

fn valid_distinct(n: u16) -> ComputeBringupRequest {
    ComputeBringupRequest {
        matrix_dim: SquareDim::new(n).expect("valid"),
        operand_layout: OperandLayout::DistinctRomBanks {
            a: BankedOperandPlacement {
                bank: RomBankId::new(1).expect("bank"),
                offset: RomBankOffset::zero(),
            },
            b: BankedOperandPlacement {
                bank: RomBankId::new(2).expect("bank"),
                offset: RomBankOffset::zero(),
            },
        },
        ..ComputeBringupRequest::l1_wram_smoke()
    }
}

fn request_json(request: &ComputeBringupRequest) -> Vec<u8> {
    format!(
        "{{\"matrix_dim\":{},\"operand_layout\":\"{:?}\",\"tile_size\":\"{:?}\"}}",
        request.matrix_dim.n(),
        request.operand_layout,
        request.tile_size
    )
    .into_bytes()
}

#[test]
fn compute_bringup_request_accepts_valid() {
    valid_distinct(128).validate().expect("valid");
}

#[test]
fn f_b1_request_validation_accepts_l1_smoke_layout() {
    ComputeBringupRequest::l1_wram_smoke()
        .validate()
        .expect("valid smoke");
}

#[test]
fn f_b1_request_validation_rejects_smoke_layout_for_n_gt_16() {
    let request = ComputeBringupRequest {
        matrix_dim: SquareDim::new(32).expect("valid"),
        ..ComputeBringupRequest::l1_wram_smoke()
    };
    assert_eq!(
        request.validate(),
        Err(ComputeBringupRequestError::SmokeLayoutRequiresN16 { found: 32 })
    );
}

#[test]
fn compute_bringup_request_rejects_same_bank() {
    let request = ComputeBringupRequest {
        operand_layout: OperandLayout::DistinctRomBanks {
            a: BankedOperandPlacement {
                bank: RomBankId::new(1).expect("bank"),
                offset: RomBankOffset::zero(),
            },
            b: BankedOperandPlacement {
                bank: RomBankId::new(1).expect("bank"),
                offset: RomBankOffset::zero(),
            },
        },
        ..valid_distinct(64)
    };
    assert_eq!(
        request.validate(),
        Err(ComputeBringupRequestError::SameBank { bank: 1 })
    );
}

#[test]
fn compute_bringup_request_rejects_bank0_operand() {
    assert_eq!(RomBankId::new(0), Err(ComputeBringupRequestError::BankZero));
}

#[test]
fn compute_bringup_request_rejects_bad_operand_offset() {
    let request = ComputeBringupRequest {
        operand_layout: OperandLayout::DistinctRomBanks {
            a: BankedOperandPlacement {
                bank: RomBankId::new(1).expect("bank"),
                offset: RomBankOffset::new(16_000),
            },
            b: BankedOperandPlacement {
                bank: RomBankId::new(2).expect("bank"),
                offset: RomBankOffset::zero(),
            },
        },
        ..valid_distinct(64)
    };
    assert!(matches!(
        request.validate(),
        Err(ComputeBringupRequestError::BadOperandOffset { operand, .. }) if operand == OperandKind::A
    ));
}

#[test]
fn compute_bringup_request_rejects_bad_tile() {
    let request = ComputeBringupRequest {
        tile_size: TileSize { m: 8, n: 16, k: 16 },
        ..valid_distinct(64)
    };
    assert!(matches!(
        request.validate(),
        Err(ComputeBringupRequestError::BadTile { .. })
    ));
}

#[test]
fn compute_bringup_request_hash_includes_fixture_and_layout() {
    let base = valid_distinct(64);
    let base_hash = base.hash(&request_json(&base)).expect("hash");
    let shifted = ComputeBringupRequest {
        operand_layout: OperandLayout::DistinctRomBanks {
            a: BankedOperandPlacement {
                bank: RomBankId::new(3).expect("bank"),
                offset: RomBankOffset::new(16),
            },
            b: BankedOperandPlacement {
                bank: RomBankId::new(2).expect("bank"),
                offset: RomBankOffset::zero(),
            },
        },
        ..base.clone()
    };
    assert_ne!(base_hash, shifted.hash(&request_json(&shifted)).expect("hash"));
}

#[test]
fn request_hash_is_sha256_of_domain_and_json() {
    let request = valid_distinct(64);
    let json = request_json(&request);
    let hash = request.hash(&json).expect("hash");
    assert_eq!(hash, request.hash(&json).expect("hash"));
    assert_ne!(hash, gbf_codegen::ids::Hash256::zero());
    let mut other = json.clone();
    other.push(b' ');
    assert_ne!(hash, request.hash(&other).expect("hash"));
    assert!(REQUEST_HASH_DOMAIN.starts_with("gbf-codegen"));
}

#[test]
fn request_hash_refuses_an_invalid_request() {
    let request = ComputeBringupRequest {
        tile_size: TileSize { m: 8, n: 16, k: 16 },
        ..valid_distinct(64)
    };
    assert!(matches!(
        request.hash(b"{}"),
        Err(ComputeBringupRequestError::BadTile { .. })
    ));
}

#[test]
fn quarter_square_table_shape() {
    let table = quarter_square_table_i16();
    assert_eq!(table.len(), QUARTER_SQUARE_LEN);
    assert_eq!(
        quarter_square_table_bytes_le().len(),
        QUARTER_SQUARE_BYTES as usize
    );
    assert_eq!(
        quarter_square_table_split_bytes().len(),
        QUARTER_SQUARE_BYTES as usize
    );
    assert_eq!(
        &quarter_square_table_split_bytes()[..4],
        &[
            table[0].to_le_bytes()[0],
            table[1].to_le_bytes()[0],
            table[2].to_le_bytes()[0],
            table[3].to_le_bytes()[0]
        ]
    );
    assert_eq!(
        &quarter_square_table_split_bytes()[512..516],
        &[
            table[0].to_le_bytes()[1],
            table[1].to_le_bytes()[1],
            table[2].to_le_bytes()[1],
            table[3].to_le_bytes()[1]
        ]
    );
    assert_eq!(table[0], 16_384);
    assert!(table.iter().all(|value| *value >= 0));
}

#[test]
fn quarter_square_mul_exhaustive_i8() {
    for a in i8::MIN..=i8::MAX {
        for b in i8::MIN..=i8::MAX {
            assert_eq!(quarter_square_mul_i8(a, b), i32::from(a) * i32::from(b));
        }
    }
}

#[test]
fn quarter_square_table_holds_floor_of_quarter_squares() {
    let table = quarter_square_table_i16();
    for (index, value) in table.iter().enumerate() {
        let x = index as i32 - 256;
        assert_eq!(i32::from(*value), x * x / 4);
    }
    let le = quarter_square_table_bytes_le();
    assert_eq!(&le[..2], &table[0].to_le_bytes());
}

#[test]
fn f_b1_rom_window_plan_distinct_banks() {
    let plan = plan_rom_window(&valid_distinct(64), RUNTIME_USED).expect("plan");
    assert!(matches!(
        plan.operand_a,
        RomResidency::SwitchableRom { bank, .. } if bank.get() == 1
    ));
    assert!(matches!(
        plan.operand_b,
        RomResidency::SwitchableRom { bank, .. } if bank.get() == 2
    ));
}

#[test]
fn rom_window_plan_is_deterministic() {
    assert_eq!(
        plan_rom_window(&valid_distinct(64), RUNTIME_USED).expect("plan"),
        plan_rom_window(&valid_distinct(64), RUNTIME_USED).expect("plan")
    );
}

#[test]
fn rom_window_plan_bank0_resources() {
    let plan = plan_rom_window(&valid_distinct(128), RUNTIME_USED).expect("plan");
    assert!(matches!(plan.kernel, RomResidency::PermanentBank0 { .. }));
    assert!(matches!(
        plan.multiply_table,
        RomResidency::PermanentBank0 { length: 0, .. }
    ));
    assert!(plan.bank0_free_bytes > 0);
    assert_eq!(plan.bank0_used_bytes + plan.bank0_free_bytes, 16384);
    assert_eq!(plan.bank0_used_bytes, RUNTIME_USED + 512);
}

#[test]
fn rom_window_plan_refuses_an_invalid_request() {
    let request = ComputeBringupRequest {
        tile_size: TileSize { m: 8, n: 16, k: 16 },
        ..valid_distinct(64)
    };
    assert!(plan_rom_window(&request, RUNTIME_USED).is_err());
}

#[test]
fn f_b1_l2_lowering_uses_banklease_ops() {
    let section = lower_request_to_asmir(&valid_distinct(64)).expect("section");
    validate_uses_banklease_ops(&section).expect("uses leases");
}

#[test]
fn f_b1_banklease_validator_rejects_leaked_lease() {
    let mut section = lower_request_to_asmir(&valid_distinct(64)).expect("section");
    let release_idx = section
        .items
        .iter()
        .position(|item| {
            matches!(
                item,
                SectionItem::PreLayout {
                    op: PreLayoutOp::BankRelease { .. }
                }
            )
        })
        .expect("release op exists");
    section.items.remove(release_idx);
    section.items.retain(|item| {
        !matches!(
            item,
            SectionItem::PreLayout {
                op: PreLayoutOp::Yield
            }
        )
    });

    assert!(matches!(
        validate_uses_banklease_ops(&section),
        Err(BringupValidationError::UnbalancedBankLeases { .. })
    ));
    assert!(matches!(
        validate_no_yield_while_lease_active(&section),
        Err(BringupValidationError::UnreleasedBankLeases { .. })
    ));
}

#[test]
fn f_b1_banklease_validator_rejects_unknown_release() {
    let mut section = lower_request_to_asmir(&valid_distinct(64)).expect("section");
    let release = section
        .items
        .iter_mut()
        .find(|item| {
            matches!(
                item,
                SectionItem::PreLayout {
                    op: PreLayoutOp::BankRelease { .. }
                }
            )
        })
        .expect("release op exists");
    *release = SectionItem::PreLayout {
        op: PreLayoutOp::BankRelease { lease_id: 999 },
    };

    assert!(matches!(
        validate_no_yield_while_lease_active(&section),
        Err(BringupValidationError::UnknownBankRelease { lease_id: 999, .. })
    ));
}

#[test]
fn banklease_validator_rejects_yield_under_lease() {
    let mut section = lower_request_to_asmir(&valid_distinct(64)).expect("section");
    let lease_idx = section
        .items
        .iter()
        .position(|item| {
            matches!(
                item,
                SectionItem::PreLayout {
                    op: PreLayoutOp::BankLease { .. }
                }
            )
        })
        .expect("lease op exists");
    section.items.insert(
        lease_idx + 1,
        SectionItem::PreLayout {
            op: PreLayoutOp::Yield,
        },
    );
    assert!(matches!(
        validate_no_yield_while_lease_active(&section),
        Err(BringupValidationError::YieldWithActiveLease { ref active, .. }) if active == &vec![0]
    ));
}

#[test]
fn banklease_validator_rejects_duplicate_lease() {
    let mut section = lower_request_to_asmir(&valid_distinct(64)).expect("section");
    section.items.insert(
        1,
        SectionItem::PreLayout {
            op: PreLayoutOp::BankLease {
                lease_id: 0,
                generation: 1,
                bank: 1,
            },
        },
    );
    assert!(matches!(
        validate_no_yield_while_lease_active(&section),
        Err(BringupValidationError::DuplicateBankLease { lease_id: 0, .. })
    ));
}

#[test]
fn smoke_lowering_has_no_leases() {
    let section = lower_request_to_asmir(&ComputeBringupRequest::l1_wram_smoke()).expect("section");
    assert!(matches!(
        validate_uses_banklease_ops(&section),
        Err(BringupValidationError::MissingBankLeaseOps { .. })
    ));
    validate_no_yield_while_lease_active(&section).expect("no lease, no fault");
}

#[test]
fn f_b1_l2_generated_code_has_no_raw_mbc_writes() {
    let section = lower_request_to_asmir(&valid_distinct(64)).expect("section");
    validate_no_raw_mbc_writes(&section).expect("no raw mbc");
}

#[test]
fn generated_code_has_no_raw_mbc_writes() {
    f_b1_l2_generated_code_has_no_raw_mbc_writes();
}

#[test]
fn raw_mbc_write_is_rejected() {
    let mut section = lower_request_to_asmir(&valid_distinct(64)).expect("section");
    section.items.push(SectionItem::Instr {
        instr: AsmInstr::StoreADirect { addr: 0x2000 },
    });
    assert!(matches!(
        validate_no_raw_mbc_writes(&section),
        Err(BringupValidationError::RawMbcWrite { .. })
    ));
    let mut wram = lower_request_to_asmir(&valid_distinct(64)).expect("section");
    wram.items.push(SectionItem::Instr {
        instr: AsmInstr::StoreADirect { addr: 0xC000 },
    });
    validate_no_raw_mbc_writes(&wram).expect("a WRAM store is no MBC write");
}

#[test]
fn operand_copy_requires_active_lease() {
    let section = lower_request_to_asmir(&valid_distinct(64)).expect("section");
    let mut saw_copy_inside_lease = false;
    let mut active = false;
    for item in &section.items {
        match item {
            SectionItem::Instr { .. } if active => saw_copy_inside_lease = true,
            SectionItem::PreLayout {
                op: PreLayoutOp::BankLease { .. },
            } => active = true,
            SectionItem::PreLayout {
                op: PreLayoutOp::BankRelease { .. },
            } => active = false,
            _ => {}
        }
    }
    assert!(saw_copy_inside_lease);
}

#[test]
fn f_b1_l3_tile_schedule_covers_output_once() {
    let dim = SquareDim::new(128).expect("valid");
    let schedule = tile_schedule(dim);
    assert_eq!(schedule.len(), 64);
    let unique: BTreeSet<_> = schedule.iter().map(|coord| (coord.mt, coord.nt)).collect();
    assert_eq!(unique.len(), 64);
    assert_eq!(schedule[9].mt, 1);
    assert_eq!(schedule[9].nt, 1);
    assert_eq!(schedule[9].tile_index, 9);
}

#[test]
fn f_b1_l3_arena_slots_do_not_overlap() {
    plan_arena().validate().expect("valid");
}

#[test]
fn arena_slot_overlap_is_symmetric() {
    let left = WramArenaSlot {
        offset: 0x0000,
        length: 16,
    };
    let right = WramArenaSlot {
        offset: 0x0008,
        length: 16,
    };
    let far = WramArenaSlot {
        offset: 0x0010,
        length: 16,
    };
    assert!(ranges_overlap(left, right));
    assert!(ranges_overlap(right, left));
    assert!(!ranges_overlap(left, far));
}

#[test]
fn storage_plan_follows_arena() {
    let arena = plan_arena();
    let storage = plan_storage(arena);
    assert_eq!(storage.accumulator.offset, arena.accumulator_tile.offset);
    assert_eq!(storage.a_panel.length, arena.a_panel.length);
    assert_eq!(storage.b_panel.offset, arena.b_panel.offset);
}

#[test]
fn f_b1_l1_lowering_is_deterministic() {
    let request = ComputeBringupRequest::l1_wram_smoke();
    assert_eq!(
        lower_request_to_asmir(&request).expect("section"),
        lower_request_to_asmir(&request).expect("section")
    );
}

#[test]
fn f_b1_report_aggregation_known_fixture() {
    let run = run_bringup_model(&valid_distinct(32)).expect("run");
    validate_structural_counts(&run.metrics, run.dim).expect("counts");
}

#[test]
fn structural_counts_reject_a_drifted_metric() {
    let dim = SquareDim::new(32).expect("valid");
    let mut metrics = BringupRunMetrics::structural(dim);
    metrics.output_tiles += 1;
    let mismatch = validate_structural_counts(&metrics, dim).expect_err("drift caught");
    assert_eq!(mismatch.metric, RunMetric::OutputTiles);
}

#[test]
fn model_run_matches_a_plain_matmul() {
    let request = valid_distinct(32);
    let run = run_bringup_model(&request).expect("run");
    let dim = run.dim;
    let n = usize::from(dim.n());
    let a = materialize_operand_fixture(OperandFixtureSpec::DeterministicAffineV1, OperandKind::A, dim);
    let b = materialize_operand_fixture(OperandFixtureSpec::DeterministicAffineV1, OperandKind::B, dim);
    assert_eq!(a.len(), n * n);
    for row in [0usize, 7, 31] {
        for col in [0usize, 13, 31] {
            let mut sum = 0i32;
            for k in 0..n {
                sum += i32::from(a[row * n + k] as i8) * i32::from(b[k * n + col] as i8);
            }
            assert_eq!(run.output_i32[row * n + col], sum);
        }
    }
    assert_eq!(reassemble_tiles(dim, &run.output_tiles), run.output_i32);
    assert_eq!(run.output_bytes_le(), i32s_to_le_bytes(&run.output_i32));
    assert_eq!(
        run.output_tiles[0].bytes,
        tile_bytes(&run.output_i32, dim, 0, 0)
    );
}

#[test]
fn le_bytes_are_little_endian() {
    assert_eq!(
        i32s_to_le_bytes(&vec![1, -1, 0x0102_0304]),
        vec![1, 0, 0, 0, 0xff, 0xff, 0xff, 0xff, 4, 3, 2, 1]
    );
}

#[test]
fn synthetic_frame_events_alternate_kinds() {
    let events = synthetic_frame_events(3, YieldQuantum::KLaneRow);
    assert!(!events.is_empty());
    assert!(events
        .iter()
        .any(|event| matches!(event.event, FrameEvent::VBlankFired { .. })));
}
