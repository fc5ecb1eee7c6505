use gbf_codegen::bringup::is_mbc_register_addr;
use gbf_codegen::matmul_asm::{
    mul_add_subroutine, AluSrc8, Cond, MatmulInstr, MatmulItem, MulAddLabel, Reg8, L0_MUL_COUNT, L0_OUT_PTR,
    L0_TEMP_A,
};

#[test]
fn mul_add_subroutine_starts_at_its_entry_and_returns() {
    let items = mul_add_subroutine();
    assert_eq!(items.len(), 101);
    assert_eq!(items[0], MatmulItem::Label(MulAddLabel::Entry));
    assert_eq!(MulAddLabel::Entry.name(), "mul_add_i8_i32");
    assert_eq!(items[1], MatmulItem::Instr(MatmulInstr::Ld8RegFromImm { dst: Reg8::D, imm: 0 }));
    assert_eq!(items[2], MatmulItem::Instr(MatmulInstr::LdAFromDirect { addr: L0_TEMP_A }));
    assert_eq!(items.last(), Some(&MatmulItem::Instr(MatmulInstr::Ret)));
    assert!(items.contains(&MatmulItem::Instr(MatmulInstr::LdAFromDirect { addr: L0_OUT_PTR + 1 })));
    assert!(items.contains(&MatmulItem::Instr(MatmulInstr::Ld8RegFromImm { dst: Reg8::A, imm: 8 })));
    assert!(items.contains(&MatmulItem::Instr(MatmulInstr::LdDirectFromA { addr: L0_MUL_COUNT })));
    assert!(items.contains(&MatmulItem::Instr(MatmulInstr::XorA { src: AluSrc8::Imm(1) })));
}

#[test]
fn mul_add_jumps_land_on_labels_defined_once() {
    let items = mul_add_subroutine();
    let mut jumps = 0;
    for item in &items {
        if let MatmulItem::Jump { label, .. } = item {
            jumps += 1;
            let defined = items.iter().filter(|other| **other == MatmulItem::Label(*label)).count();
            assert_eq!(defined, 1, "{}", label.name());
        }
    }
    assert_eq!(jumps, 8);
    let loop_back = items
        .iter()
        .position(|item| *item == MatmulItem::Jump { cond: Some(Cond::NZ), label: MulAddLabel::ShiftLoop })
        .unwrap();
    let loop_head = items.iter().position(|item| *item == MatmulItem::Label(MulAddLabel::ShiftLoop)).unwrap();
    assert!(loop_head < loop_back);
}

#[test]
fn stores_below_0x8000_reach_the_mbc() {
    assert!(is_mbc_register_addr(0x0000));
    assert!(is_mbc_register_addr(0x2000));
    assert!(is_mbc_register_addr(0x7FFF));
    assert!(!is_mbc_register_addr(0x8000));
    assert!(!is_mbc_register_addr(0xC000));
}

#[test]
fn mul_add_labels_keep_their_assembled_names() {
    let names: Vec<&str> = [
        MulAddLabel::Entry,
        MulAddLabel::APositive,
        MulAddLabel::ADone,
        MulAddLabel::BPositive,
        MulAddLabel::BDone,
        MulAddLabel::ShiftLoop,
        MulAddLabel::ShiftSkipAdd,
        MulAddLabel::LoopDone,
        MulAddLabel::ProductSigned,
        MulAddLabel::SignExtDone,
    ]
    .iter()
    .map(|label| label.name())
    .collect();
    assert_eq!(
        names,
        vec![
            "mul_add_i8_i32",
            "mul_a_positive",
            "mul_a_done",
            "mul_b_positive",
            "mul_b_done",
            "mul_shift_loop",
            "mul_shift_skip_add",
            "mul_loop_done",
            "mul_product_signed",
            "mul_sign_ext_done",
        ]
    );
}
