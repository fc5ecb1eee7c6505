//! The signed multiply-accumulate subroutine of the bringup matmul kernel,
//! as a fixed list of SM83 instructions, labels and jumps.
//!
//! `mul_add_i8_i32` multiplies the two signed bytes at the kernel's A and B
//! temporaries by shift-and-add on their magnitudes, restores the sign,
//! sign-extends the 16-bit product, and adds it into the little-endian i32
//! that the output pointer addresses.

use vstd::prelude::*;

verus! {

/// The output pointer (little-endian) of the kernel's scratch block.
pub const L0_OUT_PTR: u16 = 0xC704;
/// The A operand byte.
pub const L0_TEMP_A: u16 = 0xC707;
/// The B operand byte.
pub const L0_TEMP_B: u16 = 0xC708;
/// The low byte of the 16-bit product.
pub const L0_PROD_LO: u16 = 0xC709;
/// The high byte of the 16-bit product.
pub const L0_PROD_HI: u16 = 0xC70A;
/// Whether the product is to be negated.
pub const L0_SIGN_FLAG: u16 = 0xC724;
/// The shift-and-add iteration counter.
pub const L0_MUL_COUNT: u16 = 0xC725;

/// An 8-bit register.
#[derive(Clone, Copy, Debug, PartialEq, Eq, Structural)]
pub enum Reg8 {
    A,
    B,
    C,
    D,
    E,
    H,
    L,
}

/// A branch condition on the flags.
#[derive(Clone, Copy, Debug, PartialEq, Eq, Structural)]
pub enum Cond {
    Z,
    NZ,
    C,
    NC,
}

/// The second operand of an 8-bit ALU instruction.
#[derive(Clone, Copy, Debug, PartialEq, Eq, Structural)]
pub enum AluSrc8 {
    Reg(Reg8),
    Imm(u8),
}

/// The instructions the subroutine uses.
#[derive(Clone, Copy, Debug, PartialEq, Eq, Structural)]
pub enum MatmulInstr {
    Ld8RegFromImm { dst: Reg8, imm: u8 },
    Ld8Reg { dst: Reg8, src: Reg8 },
    LdAFromDirect { addr: u16 },
    LdDirectFromA { addr: u16 },
    Ld8RegFromHl { dst: Reg8 },
    Ld8HlFromReg { src: Reg8 },
    Bit { bit: u8, reg: Reg8 },
    Cpl,
    AddA { src: AluSrc8 },
    AdcA { src: AluSrc8 },
    XorA { src: AluSrc8 },
    CpA { src: AluSrc8 },
    Sla { reg: Reg8 },
    Rl { reg: Reg8 },
    Srl { reg: Reg8 },
    Dec8 { reg: Reg8 },
    Inc16Hl,
    Ret,
}

/// The labels of the subroutine.
#[derive(Clone, Copy, Debug, PartialEq, Eq, Structural)]
pub enum MulAddLabel {
    Entry,
    APositive,
    ADone,
    BPositive,
    BDone,
    ShiftLoop,
    ShiftSkipAdd,
    LoopDone,
    ProductSigned,
    SignExtDone,
}

impl MulAddLabel {
    /// The label's name in the assembled program.
    pub open spec fn spec_name(self) -> Seq<char> {
        match self {
            MulAddLabel::Entry => "mul_add_i8_i32"@,
            MulAddLabel::APositive => "mul_a_positive"@,
            MulAddLabel::ADone => "mul_a_done"@,
            MulAddLabel::BPositive => "mul_b_positive"@,
            MulAddLabel::BDone => "mul_b_done"@,
            MulAddLabel::ShiftLoop => "mul_shift_loop"@,
            MulAddLabel::ShiftSkipAdd => "mul_shift_skip_add"@,
            MulAddLabel::LoopDone => "mul_loop_done"@,
            MulAddLabel::ProductSigned => "mul_product_signed"@,
            MulAddLabel::SignExtDone => "mul_sign_ext_done"@,
        }
    }

    /// The label's name in the assembled program.
    pub fn name(self) -> (name: &'static str)
        ensures
            name@ == self.spec_name(),
    {
        proof {
            reveal_strlit("mul_add_i8_i32");
            reveal_strlit("mul_a_positive");
            reveal_strlit("mul_a_done");
            reveal_strlit("mul_b_positive");
            reveal_strlit("mul_b_done");
            reveal_strlit("mul_shift_loop");
            reveal_strlit("mul_shift_skip_add");
            reveal_strlit("mul_loop_done");
            reveal_strlit("mul_product_signed");
            reveal_strlit("mul_sign_ext_done");
        }
        match self {
            MulAddLabel::Entry => "mul_add_i8_i32",
            MulAddLabel::APositive => "mul_a_positive",
            MulAddLabel::ADone => "mul_a_done",
            MulAddLabel::BPositive => "mul_b_positive",
            MulAddLabel::BDone => "mul_b_done",
            MulAddLabel::ShiftLoop => "mul_shift_loop",
            MulAddLabel::ShiftSkipAdd => "mul_shift_skip_add",
            MulAddLabel::LoopDone => "mul_loop_done",
            MulAddLabel::ProductSigned => "mul_product_signed",
            MulAddLabel::SignExtDone => "mul_sign_ext_done",
        }
    }
}

/// One item of the subroutine: a label, an instruction, or a jump to a label.
#[derive(Clone, Copy, Debug, PartialEq, Eq, Structural)]
pub enum MatmulItem {
    Label(MulAddLabel),
    Instr(MatmulInstr),
    Jump { cond: Option<Cond>, label: MulAddLabel },
}

pub open spec fn ins(instr: MatmulInstr) -> MatmulItem {
    MatmulItem::Instr(instr)
}

pub open spec fn ld(dst: Reg8, src: Reg8) -> MatmulItem {
    ins(MatmulInstr::Ld8Reg { dst, src })
}

pub open spec fn ld_imm(dst: Reg8, imm: u8) -> MatmulItem {
    ins(MatmulInstr::Ld8RegFromImm { dst, imm })
}

pub open spec fn ld_a_from(addr: u16) -> MatmulItem {
    ins(MatmulInstr::LdAFromDirect { addr })
}

pub open spec fn ld_direct_from_a(addr: u16) -> MatmulItem {
    ins(MatmulInstr::LdDirectFromA { addr })
}

/// Flip the sign flag held in D.
pub open spec fn toggle_sign() -> Seq<MatmulItem> {
    seq![ld(Reg8::A, Reg8::D), ins(MatmulInstr::XorA { src: AluSrc8::Imm(1) }), ld(Reg8::D, Reg8::A)]
}

/// Store the constant `value` at `addr`.
pub open spec fn write_direct_imm(addr: u16, value: u8) -> Seq<MatmulItem> {
    seq![ld_imm(Reg8::A, value), ld_direct_from_a(addr)]
}

/// Load HL from the little-endian pointer at `ptr`.
pub open spec fn load_hl_from_ptr(ptr: u16) -> Seq<MatmulItem> {
    seq![ld_a_from((ptr + 1) as u16), ld(Reg8::H, Reg8::A), ld_a_from(ptr), ld(Reg8::L, Reg8::A)]
}

/// The magnitude of the signed byte at `temp` into `reg`, toggling the
/// sign flag when it is negative.
pub open spec fn operand_magnitude(temp: u16, reg: Reg8, positive: MulAddLabel, done: MulAddLabel) -> Seq<MatmulItem> {
    seq![
        ld_a_from(temp),
        ins(MatmulInstr::Bit { bit: 7, reg: Reg8::A }),
        MatmulItem::Jump { cond: Some(Cond::Z), label: positive },
        ins(MatmulInstr::Cpl),
        ins(MatmulInstr::AddA { src: AluSrc8::Imm(1) }),
        ld(reg, Reg8::A),
    ] + toggle_sign() + seq![
        MatmulItem::Jump { cond: None, label: done },
        MatmulItem::Label(positive),
        ld(reg, Reg8::A),
        MatmulItem::Label(done),
    ]
}

/// Save the sign flag, clear the product in HL, widen the A magnitude into
/// DE, and set eight iterations.
pub open spec fn multiply_setup() -> Seq<MatmulItem> {
    seq![
        ld(Reg8::A, Reg8::D),
        ld_direct_from_a(L0_SIGN_FLAG),
        ld_imm(Reg8::H, 0),
        ld_imm(Reg8::L, 0),
        ld(Reg8::D, Reg8::H),
        ld(Reg8::E, Reg8::C),
    ] + write_direct_imm(L0_MUL_COUNT, 8)
}

/// Eight rounds of: add DE into HL when B's low bit is set, then shift DE
/// left and B right.
pub open spec fn shift_loop() -> Seq<MatmulItem> {
    seq![
        MatmulItem::Label(MulAddLabel::ShiftLoop),
        ins(MatmulInstr::Bit { bit: 0, reg: Reg8::B }),
        MatmulItem::Jump { cond: Some(Cond::Z), label: MulAddLabel::ShiftSkipAdd },
        ld(Reg8::A, Reg8::L),
        ins(MatmulInstr::AddA { src: AluSrc8::Reg(Reg8::E) }),
        ld(Reg8::L, Reg8::A),
        ld(Reg8::A, Reg8::H),
        ins(MatmulInstr::AdcA { src: AluSrc8::Reg(Reg8::D) }),
        ld(Reg8::H, Reg8::A),
        MatmulItem::Label(MulAddLabel::ShiftSkipAdd),
        ins(MatmulInstr::Sla { reg: Reg8::E }),
        ins(MatmulInstr::Rl { reg: Reg8::D }),
        ins(MatmulInstr::Srl { reg: Reg8::B }),
        ld_a_from(L0_MUL_COUNT),
        ins(MatmulInstr::Dec8 { reg: Reg8::A }),
        ld_direct_from_a(L0_MUL_COUNT),
        MatmulItem::Jump { cond: Some(Cond::NZ), label: MulAddLabel::ShiftLoop },
    ]
}

/// Negate HL when the sign flag is set, then sign-extend it into E.
pub open spec fn restore_sign() -> Seq<MatmulItem> {
    seq![
        MatmulItem::Label(MulAddLabel::LoopDone),
        ld_a_from(L0_SIGN_FLAG),
        ins(MatmulInstr::CpA { src: AluSrc8::Imm(0) }),
        MatmulItem::Jump { cond: Some(Cond::Z), label: MulAddLabel::ProductSigned },
        ld(Reg8::A, Reg8::L),
        ins(MatmulInstr::Cpl),
        ins(MatmulInstr::AddA { src: AluSrc8::Imm(1) }),
        ld(Reg8::L, Reg8::A),
        ld(Reg8::A, Reg8::H),
        ins(MatmulInstr::Cpl),
        ins(MatmulInstr::AdcA { src: AluSrc8::Imm(0) }),
        ld(Reg8::H, Reg8::A),
        MatmulItem::Label(MulAddLabel::ProductSigned),
        ld_imm(Reg8::E, 0),
        ld(Reg8::A, Reg8::H),
        ins(MatmulInstr::Bit { bit: 7, reg: Reg8::A }),
        MatmulItem::Jump { cond: Some(Cond::Z), label: MulAddLabel::SignExtDone },
        ld_imm(Reg8::E, 0xFF),
        MatmulItem::Label(MulAddLabel::SignExtDone),
    ]
}

/// Store the product, point HL at the output, and add the sign-extended
/// product into the i32 there, byte by byte with carry.
pub open spec fn accumulate() -> Seq<MatmulItem> {
    seq![ld(Reg8::A, Reg8::L), ld_direct_from_a(L0_PROD_LO), ld(Reg8::A, Reg8::H), ld_direct_from_a(L0_PROD_HI)]
        + load_hl_from_ptr(L0_OUT_PTR) + seq![
        ld_a_from(L0_PROD_LO),
        ld(Reg8::C, Reg8::A),
        ins(MatmulInstr::Ld8RegFromHl { dst: Reg8::A }),
        ins(MatmulInstr::AddA { src: AluSrc8::Reg(Reg8::C) }),
        ins(MatmulInstr::Ld8HlFromReg { src: Reg8::A }),
        ins(MatmulInstr::Inc16Hl),
        ld_a_from(L0_PROD_HI),
        ld(Reg8::C, Reg8::A),
        ins(MatmulInstr::Ld8RegFromHl { dst: Reg8::A }),
        ins(MatmulInstr::AdcA { src: AluSrc8::Reg(Reg8::C) }),
        ins(MatmulInstr::Ld8HlFromReg { src: Reg8::A }),
        ins(MatmulInstr::Inc16Hl),
        ld(Reg8::C, Reg8::E),
        ins(MatmulInstr::Ld8RegFromHl { dst: Reg8::A }),
        ins(MatmulInstr::AdcA { src: AluSrc8::Reg(Reg8::C) }),
        ins(MatmulInstr::Ld8HlFromReg { src: Reg8::A }),
        ins(MatmulInstr::Inc16Hl),
        ins(MatmulInstr::Ld8RegFromHl { dst: Reg8::A }),
        ins(MatmulInstr::AdcA { src: AluSrc8::Reg(Reg8::C) }),
        ins(MatmulInstr::Ld8HlFromReg { src: Reg8::A }),
        ins(MatmulInstr::Ret),
    ]
}

/// The whole subroutine, in order.
pub open spec fn spec_mul_add_subroutine() -> Seq<MatmulItem> {
    seq![MatmulItem::Label(MulAddLabel::Entry), ld_imm(Reg8::D, 0)]
        + operand_magnitude(L0_TEMP_A, Reg8::C, MulAddLabel::APositive, MulAddLabel::ADone)
        + operand_magnitude(L0_TEMP_B, Reg8::B, MulAddLabel::BPositive, MulAddLabel::BDone)
        + multiply_setup() + shift_loop() + restore_sign() + accumulate()
}

fn push_all(items: &mut Vec<MatmulItem>, tail: &[MatmulItem])
    ensures
        final(items)@ == old(items)@ + tail@,
{
    let mut i: usize = 0;
    while i < tail.len()
        invariant
            i <= tail@.len(),
            items@ == old(items)@ + tail@.take(i as int),
        decreases tail@.len() - i,
    {
        items.push(tail[i]);
        proof {
            assert(tail@.take(i + 1) =~= tail@.take(i as int).push(tail@[i as int]));
        }
        i = i + 1;
    }
    proof {
        assert(tail@.take(tail@.len() as int) =~= tail@);
    }
}

fn push_toggle_sign(items: &mut Vec<MatmulItem>)
    ensures
        final(items)@ == old(items)@ + toggle_sign(),
{
    let tail = [
        MatmulItem::Instr(MatmulInstr::Ld8Reg { dst: Reg8::A, src: Reg8::D }),
        MatmulItem::Instr(MatmulInstr::XorA { src: AluSrc8::Imm(1) }),
        MatmulItem::Instr(MatmulInstr::Ld8Reg { dst: Reg8::D, src: Reg8::A }),
    ];
    push_all(items, &tail);
    assert(tail@ =~= toggle_sign());
}

fn push_operand_magnitude(items: &mut Vec<MatmulItem>, temp: u16, reg: Reg8, positive: MulAddLabel, done: MulAddLabel)
    ensures
        final(items)@ == old(items)@ + operand_magnitude(temp, reg, positive, done),
{
    let head = [
        MatmulItem::Instr(MatmulInstr::LdAFromDirect { addr: temp }),
        MatmulItem::Instr(MatmulInstr::Bit { bit: 7, reg: Reg8::A }),
        MatmulItem::Jump { cond: Some(Cond::Z), label: positive },
        MatmulItem::Instr(MatmulInstr::Cpl),
        MatmulItem::Instr(MatmulInstr::AddA { src: AluSrc8::Imm(1) }),
        MatmulItem::Instr(MatmulInstr::Ld8Reg { dst: reg, src: Reg8::A }),
    ];
    let tail = [
        MatmulItem::Jump { cond: None, label: done },
        MatmulItem::Label(positive),
        MatmulItem::Instr(MatmulInstr::Ld8Reg { dst: reg, src: Reg8::A }),
        MatmulItem::Label(done),
    ];
    let ghost start = items@;
    push_all(items, &head);
    push_toggle_sign(items);
    push_all(items, &tail);
    assert(items@ =~= start + operand_magnitude(temp, reg, positive, done));
}

fn push_multiply_setup(items: &mut Vec<MatmulItem>)
    ensures
        final(items)@ == old(items)@ + multiply_setup(),
{
    let part = [
        MatmulItem::Instr(MatmulInstr::Ld8Reg { dst: Reg8::A, src: Reg8::D }),
        MatmulItem::Instr(MatmulInstr::LdDirectFromA { addr: L0_SIGN_FLAG }),
        MatmulItem::Instr(MatmulInstr::Ld8RegFromImm { dst: Reg8::H, imm: 0 }),
        MatmulItem::Instr(MatmulInstr::Ld8RegFromImm { dst: Reg8::L, imm: 0 }),
        MatmulItem::Instr(MatmulInstr::Ld8Reg { dst: Reg8::D, src: Reg8::H }),
        MatmulItem::Instr(MatmulInstr::Ld8Reg { dst: Reg8::E, src: Reg8::C }),
        MatmulItem::Instr(MatmulInstr::Ld8RegFromImm { dst: Reg8::A, imm: 8 }),
        MatmulItem::Instr(MatmulInstr::LdDirectFromA { addr: L0_MUL_COUNT }),
    ];
    push_all(items, &part);
    assert(part@ =~= multiply_setup());
}

fn push_shift_loop(items: &mut Vec<MatmulItem>)
    ensures
        final(items)@ == old(items)@ + shift_loop(),
{
    let part = [
        MatmulItem::Label(MulAddLabel::ShiftLoop),
        MatmulItem::Instr(MatmulInstr::Bit { bit: 0, reg: Reg8::B }),
        MatmulItem::Jump { cond: Some(Cond::Z), label: MulAddLabel::ShiftSkipAdd },
        MatmulItem::Instr(MatmulInstr::Ld8Reg { dst: Reg8::A, src: Reg8::L }),
        MatmulItem::Instr(MatmulInstr::AddA { src: AluSrc8::Reg(Reg8::E) }),
        MatmulItem::Instr(MatmulInstr::Ld8Reg { dst: Reg8::L, src: Reg8::A }),
        MatmulItem::Instr(MatmulInstr::Ld8Reg { dst: Reg8::A, src: Reg8::H }),
        MatmulItem::Instr(MatmulInstr::AdcA { src: AluSrc8::Reg(Reg8::D) }),
        MatmulItem::Instr(MatmulInstr::Ld8Reg { dst: Reg8::H, src: Reg8::A }),
        MatmulItem::Label(MulAddLabel::ShiftSkipAdd),
        MatmulItem::Instr(MatmulInstr::Sla { reg: Reg8::E }),
        MatmulItem::Instr(MatmulInstr::Rl { reg: Reg8::D }),
        MatmulItem::Instr(MatmulInstr::Srl { reg: Reg8::B }),
        MatmulItem::Instr(MatmulInstr::LdAFromDirect { addr: L0_MUL_COUNT }),
        MatmulItem::Instr(MatmulInstr::Dec8 { reg: Reg8::A }),
        MatmulItem::Instr(MatmulInstr::LdDirectFromA { addr: L0_MUL_COUNT }),
        MatmulItem::Jump { cond: Some(Cond::NZ), label: MulAddLabel::ShiftLoop },
    ];
    push_all(items, &part);
    assert(part@ =~= shift_loop());
}

fn push_restore_sign(items: &mut Vec<MatmulItem>)
    ensures
        final(items)@ == old(items)@ + restore_sign(),
{
    let part = [
        MatmulItem::Label(MulAddLabel::LoopDone),
        MatmulItem::Instr(MatmulInstr::LdAFromDirect { addr: L0_SIGN_FLAG }),
        MatmulItem::Instr(MatmulInstr::CpA { src: AluSrc8::Imm(0) }),
        MatmulItem::Jump { cond: Some(Cond::Z), label: MulAddLabel::ProductSigned },
        MatmulItem::Instr(MatmulInstr::Ld8Reg { dst: Reg8::A, src: Reg8::L }),
        MatmulItem::Instr(MatmulInstr::Cpl),
        MatmulItem::Instr(MatmulInstr::AddA { src: AluSrc8::Imm(1) }),
        MatmulItem::Instr(MatmulInstr::Ld8Reg { dst: Reg8::L, src: Reg8::A }),
        MatmulItem::Instr(MatmulInstr::Ld8Reg { dst: Reg8::A, src: Reg8::H }),
        MatmulItem::Instr(MatmulInstr::Cpl),
        MatmulItem::Instr(MatmulInstr::AdcA { src: AluSrc8::Imm(0) }),
        MatmulItem::Instr(MatmulInstr::Ld8Reg { dst: Reg8::H, src: Reg8::A }),
        MatmulItem::Label(MulAddLabel::ProductSigned),
        MatmulItem::Instr(MatmulInstr::Ld8RegFromImm { dst: Reg8::E, imm: 0 }),
        MatmulItem::Instr(MatmulInstr::Ld8Reg { dst: Reg8::A, src: Reg8::H }),
        MatmulItem::Instr(MatmulInstr::Bit { bit: 7, reg: Reg8::A }),
        MatmulItem::Jump { cond: Some(Cond::Z), label: MulAddLabel::SignExtDone },
        MatmulItem::Instr(MatmulInstr::Ld8RegFromImm { dst: Reg8::E, imm: 0xFF }),
        MatmulItem::Label(MulAddLabel::SignExtDone),
    ];
    push_all(items, &part);
    assert(part@ =~= restore_sign());
}

fn push_accumulate(items: &mut Vec<MatmulItem>)
    ensures
        final(items)@ == old(items)@ + accumulate(),
{
    let part = [
        MatmulItem::Instr(MatmulInstr::Ld8Reg { dst: Reg8::A, src: Reg8::L }),
        MatmulItem::Instr(MatmulInstr::LdDirectFromA { addr: L0_PROD_LO }),
        MatmulItem::Instr(MatmulInstr::Ld8Reg { dst: Reg8::A, src: Reg8::H }),
        MatmulItem::Instr(MatmulInstr::LdDirectFromA { addr: L0_PROD_HI }),
        MatmulItem::Instr(MatmulInstr::LdAFromDirect { addr: L0_OUT_PTR + 1 }),
        MatmulItem::Instr(MatmulInstr::Ld8Reg { dst: Reg8::H, src: Reg8::A }),
        MatmulItem::Instr(MatmulInstr::LdAFromDirect { addr: L0_OUT_PTR }),
        MatmulItem::Instr(MatmulInstr::Ld8Reg { dst: Reg8::L, src: Reg8::A }),
        MatmulItem::Instr(MatmulInstr::LdAFromDirect { addr: L0_PROD_LO }),
        MatmulItem::Instr(MatmulInstr::Ld8Reg { dst: Reg8::C, src: Reg8::A }),
        MatmulItem::Instr(MatmulInstr::Ld8RegFromHl { dst: Reg8::A }),
        MatmulItem::Instr(MatmulInstr::AddA { src: AluSrc8::Reg(Reg8::C) }),
        MatmulItem::Instr(MatmulInstr::Ld8HlFromReg { src: Reg8::A }),
        MatmulItem::Instr(MatmulInstr::Inc16Hl),
        MatmulItem::Instr(MatmulInstr::LdAFromDirect { addr: L0_PROD_HI }),
        MatmulItem::Instr(MatmulInstr::Ld8Reg { dst: Reg8::C, src: Reg8::A }),
        MatmulItem::Instr(MatmulInstr::Ld8RegFromHl { dst: Reg8::A }),
        MatmulItem::Instr(MatmulInstr::AdcA { src: AluSrc8::Reg(Reg8::C) }),
        MatmulItem::Instr(MatmulInstr::Ld8HlFromReg { src: Reg8::A }),
        MatmulItem::Instr(MatmulInstr::Inc16Hl),
        MatmulItem::Instr(MatmulInstr::Ld8Reg { dst: Reg8::C, src: Reg8::E }),
        MatmulItem::Instr(MatmulInstr::Ld8RegFromHl { dst: Reg8::A }),
        MatmulItem::Instr(MatmulInstr::AdcA { src: AluSrc8::Reg(Reg8::C) }),
        MatmulItem::Instr(MatmulInstr::Ld8HlFromReg { src: Reg8::A }),
        MatmulItem::Instr(MatmulInstr::Inc16Hl),
        MatmulItem::Instr(MatmulInstr::Ld8RegFromHl { dst: Reg8::A }),
        MatmulItem::Instr(MatmulInstr::AdcA { src: AluSrc8::Reg(Reg8::C) }),
        MatmulItem::Instr(MatmulInstr::Ld8HlFromReg { src: Reg8::A }),
        MatmulItem::Instr(MatmulInstr::Ret),
    ];
    push_all(items, &part);
    assert(part@ =~= accumulate());
}

/// The `mul_add_i8_i32` subroutine of the bringup matmul kernel.
pub fn mul_add_subroutine() -> (items: Vec<MatmulItem>)
    ensures
        items@ == spec_mul_add_subroutine(),
{
    let mut items: Vec<MatmulItem> = Vec::new();
    items.push(MatmulItem::Label(MulAddLabel::Entry));
    items.push(MatmulItem::Instr(MatmulInstr::Ld8RegFromImm { dst: Reg8::D, imm: 0 }));
    push_operand_magnitude(&mut items, L0_TEMP_A, Reg8::C, MulAddLabel::APositive, MulAddLabel::ADone);
    push_operand_magnitude(&mut items, L0_TEMP_B, Reg8::B, MulAddLabel::BPositive, MulAddLabel::BDone);
    push_multiply_setup(&mut items);
    push_shift_loop(&mut items);
    push_restore_sign(&mut items);
    push_accumulate(&mut items);
    assert(items@ =~= spec_mul_add_subroutine());
    items
}


/// `items` holds the label `label` at some position.
pub open spec fn defines_label(items: Seq<MatmulItem>, label: MulAddLabel) -> bool {
    exists|i: int| 0 <= i < items.len() && items[i] == MatmulItem::Label(label)
}

/// Every jump of the subroutine lands on a label the subroutine defines, so
/// it assembles without reaching outside itself.
pub proof fn lemma_mul_add_jumps_resolve()
    ensures
        forall|i: int|
            0 <= i < spec_mul_add_subroutine().len() && (#[trigger] spec_mul_add_subroutine()[i]) is Jump
                ==> defines_label(spec_mul_add_subroutine(), spec_mul_add_subroutine()[i]->label),
{
    let s = spec_mul_add_subroutine();
    assert(s.len() == 101);
    assert(s[0] == MatmulItem::Label(MulAddLabel::Entry));
    assert(s[12] == MatmulItem::Label(MulAddLabel::APositive));
    assert(s[14] == MatmulItem::Label(MulAddLabel::ADone));
    assert(s[25] == MatmulItem::Label(MulAddLabel::BPositive));
    assert(s[27] == MatmulItem::Label(MulAddLabel::BDone));
    assert(s[36] == MatmulItem::Label(MulAddLabel::ShiftLoop));
    assert(s[45] == MatmulItem::Label(MulAddLabel::ShiftSkipAdd));
    assert(s[53] == MatmulItem::Label(MulAddLabel::LoopDone));
    assert(s[65] == MatmulItem::Label(MulAddLabel::ProductSigned));
    assert(s[71] == MatmulItem::Label(MulAddLabel::SignExtDone));
    assert forall|l: MulAddLabel| #[trigger] defines_label(s, l) by {
        match l {
            MulAddLabel::Entry => assert(s[0] == MatmulItem::Label(l)),
            MulAddLabel::APositive => assert(s[12] == MatmulItem::Label(l)),
            MulAddLabel::ADone => assert(s[14] == MatmulItem::Label(l)),
            MulAddLabel::BPositive => assert(s[25] == MatmulItem::Label(l)),
            MulAddLabel::BDone => assert(s[27] == MatmulItem::Label(l)),
            MulAddLabel::ShiftLoop => assert(s[36] == MatmulItem::Label(l)),
            MulAddLabel::ShiftSkipAdd => assert(s[45] == MatmulItem::Label(l)),
            MulAddLabel::LoopDone => assert(s[53] == MatmulItem::Label(l)),
            MulAddLabel::ProductSigned => assert(s[65] == MatmulItem::Label(l)),
            MulAddLabel::SignExtDone => assert(s[71] == MatmulItem::Label(l)),
        }
    }
}

} // verus!
