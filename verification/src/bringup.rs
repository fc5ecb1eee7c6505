//! The F-B1 compute bringup: the request that asks for one square int8
//! matrix multiply on the DMG/MBC5 target, its validation, the fixed plans
//! it lowers to, its deterministic operand fixtures, and the host-side model
//! of the run.

use vstd::prelude::*;
use vstd::arithmetic::div_mod::lemma_fundamental_div_mod_converse;
use crate::ids::{CompileProfileId, Hash256, TargetProfileId};
use sha2::{Digest, Sha256};
use crate::quarter_square::quarter_square_mul_i8;
use crate::text::utf8;

verus! {

/// The compile profile that bringup requests run under.
pub const BRINGUP_COMPILE_PROFILE_ID: &'static str = "bringup";

/// The target profile that bringup requests run on: the DMG with an MBC5
/// cartridge of 8 MiB ROM and 128 KiB SRAM.
pub const BRINGUP_TARGET_PROFILE_ID: &'static str = "dmg-mbc5-8mib-128kib";

/// Bytes in one switchable ROM bank.
pub const ROM_BANK_SIZE_BYTES: u32 = 16384;

/// Bytes in the fixed ROM bank 0.
pub const BANK0_SIZE_BYTES: u32 = 16384;

/// Bytes of work RAM.
pub const WRAM_SIZE_BYTES: u32 = 8192;

/// Machine cycles in one video frame.
pub const FRAME_M_CYCLES: u32 = 17556;

pub const TILE_EDGE: u16 = 16;

pub const ACCUMULATOR_TILE_BYTES: u16 = 1024;

pub const PANEL_TILE_BYTES: u16 = 256;

pub const EMITTED_MULTIPLY_KERNEL_ID: &'static str = "fixed_8_step_shift_add_i8_i32";

/// The edge of a square matrix: a multiple of the tile edge from 16 to 128.
#[derive(Clone, Copy, Debug, PartialEq, Eq, Hash)]
pub struct SquareDim {
    n: u16,
}

impl SquareDim {
    #[verifier::type_invariant]
    spec fn well_formed(self) -> bool {
        self.n % 16 == 0 && 16 <= self.n <= 128
    }

    pub closed spec fn spec_n(self) -> u16 {
        self.n
    }

    /// The edge `n`, when it is a multiple of 16 from 16 to 128.
    pub fn new(n: u16) -> (dim: Option<SquareDim>)
        ensures
            dim is Some <==> n % 16 == 0 && 16 <= n <= 128,
            dim matches Some(d) ==> d.spec_n() == n,
    {
        if n % 16 == 0 && 16 <= n && n <= 128 {
            Some(SquareDim { n })
        } else {
            None
        }
    }

    pub fn n(self) -> (n: u16)
        ensures
            n == self.spec_n(),
            n % 16 == 0,
            16 <= n <= 128,
    {
        proof {
            use_type_invariant(self);
        }
        self.n
    }

    /// Tiles along each axis.
    pub fn tiles_per_axis(self) -> (tiles: u16)
        ensures
            tiles == self.spec_n() / 16,
            1 <= tiles <= 8,
    {
        proof {
            use_type_invariant(self);
        }
        self.n / 16
    }

    /// Elements of one matrix.
    pub fn elem_count(self) -> (count: usize)
        ensures
            count == self.spec_n() * self.spec_n(),
            count <= 16384,
    {
        proof {
            use_type_invariant(self);
        }
        let n = self.n as usize;
        assert(n * n <= 128 * 128) by (nonlinear_arith)
            requires
                n <= 128,
        ;
        n * n
    }

    /// Bytes of one int8 operand.
    pub fn operand_bytes(self) -> (bytes: usize)
        ensures
            bytes == self.spec_n() * self.spec_n(),
            bytes <= 16384,
    {
        self.elem_count()
    }

    /// Bytes of the int32 output.
    pub fn output_bytes_i32(self) -> (bytes: usize)
        ensures
            bytes == 4 * self.spec_n() * self.spec_n(),
            bytes <= 65536,
    {
        let count = self.elem_count();
        assert(count * 4 == 4 * self.spec_n() * self.spec_n()) by (nonlinear_arith)
            requires
                count == self.spec_n() * self.spec_n(),
        ;
        count * 4
    }
}

#[derive(Clone, Copy, Debug, PartialEq, Eq, Structural, Hash)]
pub enum KernelImplId {
    QuarterSquareTableV1,
}

#[derive(Clone, Copy, Debug, PartialEq, Eq, Structural, Hash)]
pub enum OperandFixtureSpec {
    DeterministicAffineV1,
}

/// The edges of one compute tile.
#[derive(Clone, Copy, Debug, PartialEq, Eq, Structural, Hash)]
pub struct TileSize {
    pub m: u16,
    pub n: u16,
    pub k: u16,
}

impl TileSize {
    pub open spec fn spec_f_b1() -> TileSize {
        TileSize { m: TILE_EDGE, n: TILE_EDGE, k: TILE_EDGE }
    }

    /// The fixed 16x16x16 tile.
    pub fn f_b1() -> (tile: TileSize)
        ensures
            tile == TileSize::spec_f_b1(),
    {
        TileSize { m: TILE_EDGE, n: TILE_EDGE, k: TILE_EDGE }
    }
}

/// How much work the kernel does between two yields.
#[derive(Clone, Copy, Debug, PartialEq, Eq, Structural, Hash)]
pub enum YieldQuantum {
    KLaneFullTile,
    KLaneRows4,
    KLaneRow,
}

pub open spec fn spec_products_per_quantum(quantum: YieldQuantum) -> u16 {
    match quantum {
        YieldQuantum::KLaneFullTile => 256,
        YieldQuantum::KLaneRows4 => 64,
        YieldQuantum::KLaneRow => 16,
    }
}

impl YieldQuantum {
    /// Products computed per quantum.
    pub fn products_per_quantum(self) -> (products: u16)
        ensures
            products == spec_products_per_quantum(self),
    {
        match self {
            YieldQuantum::KLaneFullTile => 16 * 16,
            YieldQuantum::KLaneRows4 => 4 * 16,
            YieldQuantum::KLaneRow => 16,
        }
    }
}

impl Default for YieldQuantum {
    /// One k-lane row per quantum.
    fn default() -> (quantum: YieldQuantum)
        ensures
            quantum == YieldQuantum::KLaneRow,
    {
        YieldQuantum::KLaneRow
    }
}

/// A switchable ROM bank that may hold an operand: 1 to 511.
#[derive(Clone, Copy, Debug, PartialEq, Eq, Structural, Hash, PartialOrd, Ord)]
pub struct RomBankId(u16);

impl RomBankId {
    pub const MAX_MBC5: u16 = 511;

    pub closed spec fn spec_get(self) -> u16 {
        self.0
    }

    /// The bank numbered `bank`.
    pub closed spec fn spec_bank(bank: u16) -> RomBankId {
        RomBankId(bank)
    }

    pub proof fn lemma_spec_bank(bank: u16)
        ensures
            RomBankId::spec_bank(bank).spec_get() == bank,
    {
    }

    /// The bank, unless it is bank 0 or beyond the MBC5 range.
    pub fn new(bank: u16) -> (id: Result<RomBankId, ComputeBringupRequestError>)
        ensures
            bank == 0 ==> id == Err::<RomBankId, ComputeBringupRequestError>(
                ComputeBringupRequestError::BankZero,
            ),
            bank > 511 ==> id == Err::<RomBankId, ComputeBringupRequestError>(
                ComputeBringupRequestError::BankOutOfRange { bank },
            ),
            1 <= bank <= 511 ==> (id matches Ok(b) && b.spec_get() == bank),
    {
        if bank == 0 {
            return Err(ComputeBringupRequestError::BankZero);
        }
        if bank > 511 {
            return Err(ComputeBringupRequestError::BankOutOfRange { bank });
        }
        Ok(RomBankId(bank))
    }

    pub fn get(self) -> (bank: u16)
        ensures
            bank == self.spec_get(),
    {
        self.0
    }
}

/// A byte offset inside a ROM bank.
#[derive(Clone, Copy, Debug, PartialEq, Eq, Structural, Hash, PartialOrd, Ord)]
pub struct RomBankOffset(u16);

impl RomBankOffset {
    pub closed spec fn spec_get(self) -> u16 {
        self.0
    }

    pub fn new(offset: u16) -> (made: RomBankOffset)
        ensures
            made.spec_get() == offset,
    {
        RomBankOffset(offset)
    }

    /// The start of the bank.
    pub fn zero() -> (made: RomBankOffset)
        ensures
            made.spec_get() == 0,
    {
        RomBankOffset(0)
    }

    pub fn get(self) -> (offset: u16)
        ensures
            offset == self.spec_get(),
    {
        self.0
    }
}

/// Where one operand sits in ROM.
#[derive(Clone, Copy, Debug, PartialEq, Eq, Structural, Hash)]
pub struct BankedOperandPlacement {
    pub bank: RomBankId,
    pub offset: RomBankOffset,
}

/// Where the two operands come from.
#[derive(Clone, Copy, Debug, PartialEq, Eq, Structural, Hash)]
pub enum OperandLayout {
    WramSmoke,
    DistinctRomBanks { a: BankedOperandPlacement, b: BankedOperandPlacement },
}

#[derive(Clone, Copy, Debug, PartialEq, Eq, Structural, Hash)]
pub enum OperandKind {
    A,
    B,
}

/// Why a bringup request is refused.
#[derive(Clone, Debug, PartialEq, Eq)]
pub enum ComputeBringupRequestError {
    NonBringupCompileProfile { found: String },
    UnsupportedTarget { found: String },
    UnsupportedKernel,
    BadTile { found: TileSize },
    UnsupportedFixture,
    SmokeLayoutRequiresN16 { found: u16 },
    SameBank { bank: u16 },
    BankZero,
    BankOutOfRange { bank: u16 },
    BadOperandOffset { operand: OperandKind, offset: u16, len: u32 },
    N128RequiresZeroOffset { operand: OperandKind, offset: u16 },
    Hash { reason: String },
}

/// A request for one square int8 matrix multiply on the bringup target.
#[derive(Clone, Debug, PartialEq, Eq)]
pub struct ComputeBringupRequest {
    pub target_profile_id: TargetProfileId,
    pub kernel_impl_id: KernelImplId,
    pub compile_profile_id: CompileProfileId,
    pub matrix_dim: SquareDim,
    pub tile_size: TileSize,
    pub operand_fixture: OperandFixtureSpec,
    pub operand_layout: OperandLayout,
    pub yield_quantum: YieldQuantum,
}

/// Why `placement` of `operand`, `len` bytes long, is refused.
pub open spec fn placement_failure(
    operand: OperandKind,
    placement: BankedOperandPlacement,
    len: u32,
    dim: SquareDim,
) -> Option<ComputeBringupRequestError> {
    if placement.offset.spec_get() + len > ROM_BANK_SIZE_BYTES {
        Some(
            ComputeBringupRequestError::BadOperandOffset {
                operand,
                offset: placement.offset.spec_get(),
                len,
            },
        )
    } else if dim.spec_n() == 128 && placement.offset.spec_get() != 0 {
        Some(
            ComputeBringupRequestError::N128RequiresZeroOffset {
                operand,
                offset: placement.offset.spec_get(),
            },
        )
    } else {
        None
    }
}

/// Why `layout` is refused for matrices of edge `dim`.
pub open spec fn layout_failure(layout: OperandLayout, dim: SquareDim) -> Option<ComputeBringupRequestError> {
    match layout {
        OperandLayout::WramSmoke => if dim.spec_n() == 16 {
            None
        } else {
            Some(ComputeBringupRequestError::SmokeLayoutRequiresN16 { found: dim.spec_n() })
        },
        OperandLayout::DistinctRomBanks { a, b } => {
            let len = (dim.spec_n() * dim.spec_n()) as u32;
            if a.bank == b.bank {
                Some(ComputeBringupRequestError::SameBank { bank: a.bank.spec_get() })
            } else if placement_failure(OperandKind::A, a, len, dim) is Some {
                placement_failure(OperandKind::A, a, len, dim)
            } else {
                placement_failure(OperandKind::B, b, len, dim)
            }
        },
    }
}

/// Why `request` is refused, checked in order.
pub open spec fn request_failure(request: ComputeBringupRequest) -> Option<ComputeBringupRequestError> {
    if request.compile_profile_id.0@ != BRINGUP_COMPILE_PROFILE_ID@ {
        Some(
            ComputeBringupRequestError::NonBringupCompileProfile {
                found: request.compile_profile_id.0,
            },
        )
    } else if request.target_profile_id.0@ != BRINGUP_TARGET_PROFILE_ID@ {
        Some(ComputeBringupRequestError::UnsupportedTarget { found: request.target_profile_id.0 })
    } else if request.kernel_impl_id != KernelImplId::QuarterSquareTableV1 {
        Some(ComputeBringupRequestError::UnsupportedKernel)
    } else if request.tile_size != TileSize::spec_f_b1() {
        Some(ComputeBringupRequestError::BadTile { found: request.tile_size })
    } else if request.operand_fixture != OperandFixtureSpec::DeterministicAffineV1 {
        Some(ComputeBringupRequestError::UnsupportedFixture)
    } else {
        layout_failure(request.operand_layout, request.matrix_dim)
    }
}

fn validate_placement(
    operand: OperandKind,
    placement: BankedOperandPlacement,
    len: u32,
    dim: SquareDim,
) -> (result: Result<(), ComputeBringupRequestError>)
    requires
        len <= 16384,
    ensures
        result is Err <==> placement_failure(operand, placement, len, dim) is Some,
        result matches Err(e) ==> placement_failure(operand, placement, len, dim) == Some(e),
{
    let offset = placement.offset.get() as u32;
    if offset + len > ROM_BANK_SIZE_BYTES {
        return Err(
            ComputeBringupRequestError::BadOperandOffset { operand, offset: placement.offset.get(), len },
        );
    }
    if dim.n() == 128 && placement.offset.get() != 0 {
        return Err(
            ComputeBringupRequestError::N128RequiresZeroOffset { operand, offset: placement.offset.get() },
        );
    }
    Ok(())
}

impl OperandLayout {
    /// Checks the layout against matrices of edge `dim`.
    pub fn validate(&self, dim: SquareDim) -> (result: Result<(), ComputeBringupRequestError>)
        ensures
            result is Err <==> layout_failure(*self, dim) is Some,
            result matches Err(e) ==> layout_failure(*self, dim) == Some(e),
    {
        match self {
            OperandLayout::WramSmoke => {
                if dim.n() == 16 {
                    Ok(())
                } else {
                    Err(ComputeBringupRequestError::SmokeLayoutRequiresN16 { found: dim.n() })
                }
            },
            OperandLayout::DistinctRomBanks { a, b } => {
                if a.bank == b.bank {
                    return Err(ComputeBringupRequestError::SameBank { bank: a.bank.get() });
                }
                let len = dim.operand_bytes() as u32;
                validate_placement(OperandKind::A, *a, len, dim)?;
                validate_placement(OperandKind::B, *b, len, dim)?;
                Ok(())
            },
        }
    }
}

impl ComputeBringupRequest {
    /// The 16x16 smoke request with both operands in WRAM.
    pub fn l1_wram_smoke() -> (request: ComputeBringupRequest)
        ensures
            request.target_profile_id.0@ == BRINGUP_TARGET_PROFILE_ID@,
            request.compile_profile_id.0@ == BRINGUP_COMPILE_PROFILE_ID@,
            request.kernel_impl_id == KernelImplId::QuarterSquareTableV1,
            request.matrix_dim.spec_n() == 16,
            request.tile_size == TileSize::spec_f_b1(),
            request.operand_fixture == OperandFixtureSpec::DeterministicAffineV1,
            request.operand_layout == OperandLayout::WramSmoke,
            request.yield_quantum == YieldQuantum::KLaneRow,
            request_failure(request) is None,
    {
        let dim = SquareDim { n: 16 };
        ComputeBringupRequest {
            target_profile_id: TargetProfileId(BRINGUP_TARGET_PROFILE_ID.to_owned()),
            kernel_impl_id: KernelImplId::QuarterSquareTableV1,
            compile_profile_id: CompileProfileId(BRINGUP_COMPILE_PROFILE_ID.to_owned()),
            matrix_dim: dim,
            tile_size: TileSize::f_b1(),
            operand_fixture: OperandFixtureSpec::DeterministicAffineV1,
            operand_layout: OperandLayout::WramSmoke,
            yield_quantum: YieldQuantum::default(),
        }
    }

    /// The headline 128x128 request with A in ROM bank 1 and B in bank 2.
    pub fn headline_n128() -> (request: ComputeBringupRequest)
        ensures
            request.target_profile_id.0@ == BRINGUP_TARGET_PROFILE_ID@,
            request.compile_profile_id.0@ == BRINGUP_COMPILE_PROFILE_ID@,
            request.kernel_impl_id == KernelImplId::QuarterSquareTableV1,
            request.matrix_dim.spec_n() == 128,
            request.tile_size == TileSize::spec_f_b1(),
            request.operand_fixture == OperandFixtureSpec::DeterministicAffineV1,
            request.operand_layout matches OperandLayout::DistinctRomBanks { a, b } && a.bank.spec_get()
                == 1 && a.offset.spec_get() == 0 && b.bank.spec_get() == 2 && b.offset.spec_get() == 0,
            request.yield_quantum == YieldQuantum::KLaneRow,
            request_failure(request) is None,
    {
        let smoke = ComputeBringupRequest::l1_wram_smoke();
        let dim = SquareDim { n: 128 };
        let a = RomBankId(1);
        let b = RomBankId(2);
        assert(dim.spec_n() == 128);
        assert(dim.spec_n() * dim.spec_n() == 16384);
        ComputeBringupRequest {
            matrix_dim: dim,
            operand_layout: OperandLayout::DistinctRomBanks {
                a: BankedOperandPlacement { bank: a, offset: RomBankOffset::zero() },
                b: BankedOperandPlacement { bank: b, offset: RomBankOffset::zero() },
            },
            ..smoke
        }
    }

    /// Checks the request: the bringup compile profile and target, the
    /// quarter-square kernel, the fixed tile, the affine fixture, and an
    /// operand layout that fits the matrix.
    pub fn validate(&self) -> (result: Result<(), ComputeBringupRequestError>)
        ensures
            result is Err <==> request_failure(*self) is Some,
            result matches Err(e) ==> request_failure(*self) == Some(e),
    {
        let profile = BRINGUP_COMPILE_PROFILE_ID.to_owned();
        if !(self.compile_profile_id.0 == profile) {
            return Err(
                ComputeBringupRequestError::NonBringupCompileProfile { found: self.compile_profile_id.0.clone() },
            );
        }
        let target = BRINGUP_TARGET_PROFILE_ID.to_owned();
        if !(self.target_profile_id.0 == target) {
            return Err(ComputeBringupRequestError::UnsupportedTarget { found: self.target_profile_id.0.clone() });
        }
        if self.kernel_impl_id != KernelImplId::QuarterSquareTableV1 {
            return Err(ComputeBringupRequestError::UnsupportedKernel);
        }
        if self.tile_size != TileSize::f_b1() {
            return Err(ComputeBringupRequestError::BadTile { found: self.tile_size });
        }
        if self.operand_fixture != OperandFixtureSpec::DeterministicAffineV1 {
            return Err(ComputeBringupRequestError::UnsupportedFixture);
        }
        self.operand_layout.validate(self.matrix_dim)
    }
}


// ------------------------------------------------------------------ plans

/// Where a resource of the run lives in ROM.
#[derive(Clone, Copy, Debug, PartialEq, Eq, Structural, Hash)]
pub enum RomResidency {
    PermanentBank0 { offset: u16, length: u16 },
    SwitchableRom { bank: RomBankId, offset: u16, length: u16 },
}

/// The ROM placement of the kernel, its table and the two operands.
#[derive(Clone, Copy, Debug, PartialEq, Eq, Structural)]
pub struct BringupRomWindowPlan {
    pub kernel: RomResidency,
    pub multiply_table: RomResidency,
    pub operand_a: RomResidency,
    pub operand_b: RomResidency,
    pub bank0_used_bytes: u32,
    pub bank0_free_bytes: u32,
}

/// The bytes of bank 0 that the kernel takes.
pub const KERNEL_ROM_BYTES: u16 = 512;

/// The ROM window plan of `request`, whose runtime nucleus takes
/// `runtime_used` bytes of bank 0.
pub open spec fn spec_rom_window(request: ComputeBringupRequest, runtime_used: u32) -> BringupRomWindowPlan {
    let len = (request.matrix_dim.spec_n() * request.matrix_dim.spec_n()) as u16;
    let (a, b) = match request.operand_layout {
        OperandLayout::WramSmoke => (
            RomResidency::SwitchableRom { bank: RomBankId::spec_bank(1), offset: 0, length: len },
            RomResidency::SwitchableRom { bank: RomBankId::spec_bank(2), offset: 0, length: len },
        ),
        OperandLayout::DistinctRomBanks { a, b } => (
            RomResidency::SwitchableRom { bank: a.bank, offset: a.offset.spec_get(), length: len },
            RomResidency::SwitchableRom { bank: b.bank, offset: b.offset.spec_get(), length: len },
        ),
    };
    BringupRomWindowPlan {
        kernel: RomResidency::PermanentBank0 { offset: 0x2000, length: KERNEL_ROM_BYTES },
        multiply_table: RomResidency::PermanentBank0 { offset: 0x2200, length: 0 },
        operand_a: a,
        operand_b: b,
        bank0_used_bytes: (runtime_used + KERNEL_ROM_BYTES) as u32,
        bank0_free_bytes: (BANK0_SIZE_BYTES - runtime_used - KERNEL_ROM_BYTES) as u32,
    }
}

/// `residency` is in switchable bank `bank`, starting at `offset`, `length`
/// bytes long.
pub open spec fn resides_at(residency: RomResidency, bank: RomBankId, offset: u16, length: int) -> bool {
    residency matches RomResidency::SwitchableRom { bank: b, offset: o, length: l } && b == bank && o == offset && l
        == length
}

/// A banked layout's operands are planned where the request places them:
/// each in its own bank at its own in-bank offset.
pub open spec fn operands_where_requested(request: ComputeBringupRequest, plan: BringupRomWindowPlan) -> bool {
    let len = (request.matrix_dim.spec_n() * request.matrix_dim.spec_n()) as u16 as int;
    request.operand_layout matches OperandLayout::DistinctRomBanks { a, b } ==> resides_at(
        plan.operand_a,
        a.bank,
        a.offset.spec_get(),
        len,
    ) && resides_at(plan.operand_b, b.bank, b.offset.spec_get(), len)
}

/// The ROM window keeps each banked operand where the request puts it: the
/// bank and in-bank offset of operand A and of operand B are those of the
/// request, each `n * n` bytes long; for a request that validates the two
/// banks differ and each operand ends inside its bank; and bank 0's used and
/// free bytes make up the whole bank.
pub proof fn lemma_rom_window_places_operands_where_requested(request: ComputeBringupRequest, runtime_used: u32)
    ensures
        operands_where_requested(request, spec_rom_window(request, runtime_used)),
        runtime_used + KERNEL_ROM_BYTES <= BANK0_SIZE_BYTES ==> spec_rom_window(request, runtime_used).bank0_used_bytes
            + spec_rom_window(request, runtime_used).bank0_free_bytes == BANK0_SIZE_BYTES,
        request.operand_layout matches OperandLayout::DistinctRomBanks { a, b } ==> (request_failure(request) is None
            ==> {
            &&& a.bank != b.bank
            &&& a.offset.spec_get() + request.matrix_dim.spec_n() * request.matrix_dim.spec_n() <= ROM_BANK_SIZE_BYTES
            &&& b.offset.spec_get() + request.matrix_dim.spec_n() * request.matrix_dim.spec_n() <= ROM_BANK_SIZE_BYTES
        }),
{
    let n = request.matrix_dim.spec_n();
    assert(n * n <= 65535 * 65535) by (nonlinear_arith)
        requires
            n <= 65535,
    ;
}

/// Places the kernel and its table in bank 0 and the operands in their
/// switchable banks (banks 1 and 2 for the WRAM smoke layout), given the
/// bytes of bank 0 that the runtime nucleus takes.
pub fn plan_rom_window(
    request: &ComputeBringupRequest,
    runtime_used: u32,
) -> (plan: Result<BringupRomWindowPlan, ComputeBringupRequestError>)
    requires
        runtime_used + KERNEL_ROM_BYTES <= BANK0_SIZE_BYTES,
    ensures
        plan is Err <==> request_failure(*request) is Some,
        plan matches Err(e) ==> request_failure(*request) == Some(e),
        plan matches Ok(p) ==> p == spec_rom_window(*request, runtime_used),
        plan matches Ok(p) ==> operands_where_requested(*request, p),
{
    proof {
        lemma_rom_window_places_operands_where_requested(*request, runtime_used);
    }
    request.validate()?;
    let len = request.matrix_dim.operand_bytes() as u16;
    let (a, b) = match request.operand_layout {
        OperandLayout::WramSmoke => (
            RomResidency::SwitchableRom { bank: RomBankId(1), offset: 0, length: len },
            RomResidency::SwitchableRom { bank: RomBankId(2), offset: 0, length: len },
        ),
        OperandLayout::DistinctRomBanks { a, b } => (
            RomResidency::SwitchableRom { bank: a.bank, offset: a.offset.get(), length: len },
            RomResidency::SwitchableRom { bank: b.bank, offset: b.offset.get(), length: len },
        ),
    };
    let used = runtime_used + KERNEL_ROM_BYTES as u32;
    Ok(
        BringupRomWindowPlan {
            kernel: RomResidency::PermanentBank0 { offset: 0x2000, length: KERNEL_ROM_BYTES },
            multiply_table: RomResidency::PermanentBank0 { offset: 0x2200, length: 0 },
            operand_a: a,
            operand_b: b,
            bank0_used_bytes: used,
            bank0_free_bytes: BANK0_SIZE_BYTES - used,
        },
    )
}

/// A slot of work RAM.
#[derive(Clone, Copy, Debug, PartialEq, Eq, Structural, Hash)]
pub struct WramArenaSlot {
    pub offset: u16,
    pub length: u16,
}

/// The work-RAM slots of the run: the accumulator tile and the two panels.
#[derive(Clone, Copy, Debug, PartialEq, Eq, Structural)]
pub struct BringupArenaPlan {
    pub accumulator_tile: WramArenaSlot,
    pub a_panel: WramArenaSlot,
    pub b_panel: WramArenaSlot,
}

/// Why a bringup arena plan is refused.
#[derive(Clone, Copy, Debug, PartialEq, Eq, Structural)]
pub enum ArenaPlanError {
    AccumulatorUnaligned { offset: u16 },
    WramOverflow { offset: u16, length: u16 },
    Overlap { left: WramArenaSlot, right: WramArenaSlot },
}

pub open spec fn slot_end(slot: WramArenaSlot) -> int {
    slot.offset + slot.length
}

/// The two slots share a byte.
pub open spec fn spec_ranges_overlap(left: WramArenaSlot, right: WramArenaSlot) -> bool {
    left.offset < slot_end(right) && right.offset < slot_end(left)
}

pub fn ranges_overlap(left: WramArenaSlot, right: WramArenaSlot) -> (overlap: bool)
    ensures
        overlap == spec_ranges_overlap(left, right),
{
    let left_start = left.offset as u32;
    let left_end = left_start + left.length as u32;
    let right_start = right.offset as u32;
    let right_end = right_start + right.length as u32;
    left_start < right_end && right_start < left_end
}

/// Why `plan` is refused: an unaligned accumulator, then the first slot past
/// the end of WRAM, then the first overlapping pair, in slot order.
pub open spec fn arena_plan_failure(plan: BringupArenaPlan) -> Option<ArenaPlanError> {
    let acc = plan.accumulator_tile;
    let a = plan.a_panel;
    let b = plan.b_panel;
    if acc.offset % 4 != 0 {
        Some(ArenaPlanError::AccumulatorUnaligned { offset: acc.offset })
    } else if slot_end(acc) > WRAM_SIZE_BYTES {
        Some(ArenaPlanError::WramOverflow { offset: acc.offset, length: acc.length })
    } else if slot_end(a) > WRAM_SIZE_BYTES {
        Some(ArenaPlanError::WramOverflow { offset: a.offset, length: a.length })
    } else if slot_end(b) > WRAM_SIZE_BYTES {
        Some(ArenaPlanError::WramOverflow { offset: b.offset, length: b.length })
    } else if spec_ranges_overlap(acc, a) {
        Some(ArenaPlanError::Overlap { left: acc, right: a })
    } else if spec_ranges_overlap(acc, b) {
        Some(ArenaPlanError::Overlap { left: acc, right: b })
    } else if spec_ranges_overlap(a, b) {
        Some(ArenaPlanError::Overlap { left: a, right: b })
    } else {
        None
    }
}

impl BringupArenaPlan {
    /// Checks that the accumulator is 4-byte aligned and that the slots fit
    /// in WRAM without sharing a byte.
    pub fn validate(&self) -> (result: Result<(), ArenaPlanError>)
        ensures
            result is Err <==> arena_plan_failure(*self) is Some,
            result matches Err(e) ==> arena_plan_failure(*self) == Some(e),
    {
        if self.accumulator_tile.offset % 4 != 0 {
            return Err(ArenaPlanError::AccumulatorUnaligned { offset: self.accumulator_tile.offset });
        }
        let slots = [self.accumulator_tile, self.a_panel, self.b_panel];
        let mut i: usize = 0;
        while i < 3
            invariant
                i <= 3,
                self.accumulator_tile.offset % 4 == 0,
                slots@ == seq![self.accumulator_tile, self.a_panel, self.b_panel],
                forall|k: int| 0 <= k < i ==> slot_end(#[trigger] slots@[k]) <= WRAM_SIZE_BYTES,
            decreases 3 - i,
        {
            let slot = slots[i];
            if slot.offset as u32 + slot.length as u32 > WRAM_SIZE_BYTES {
                return Err(ArenaPlanError::WramOverflow { offset: slot.offset, length: slot.length });
            }
            i = i + 1;
        }
        assert(slot_end(slots@[0]) <= WRAM_SIZE_BYTES && slot_end(slots@[1]) <= WRAM_SIZE_BYTES);
        if ranges_overlap(self.accumulator_tile, self.a_panel) {
            return Err(ArenaPlanError::Overlap { left: self.accumulator_tile, right: self.a_panel });
        }
        if ranges_overlap(self.accumulator_tile, self.b_panel) {
            return Err(ArenaPlanError::Overlap { left: self.accumulator_tile, right: self.b_panel });
        }
        if ranges_overlap(self.a_panel, self.b_panel) {
            return Err(ArenaPlanError::Overlap { left: self.a_panel, right: self.b_panel });
        }
        Ok(())
    }
}

/// The fixed arena: the accumulator tile at 0, then the A panel, then the B panel.
pub fn plan_arena() -> (plan: BringupArenaPlan)
    ensures
        plan == (BringupArenaPlan {
            accumulator_tile: WramArenaSlot { offset: 0, length: ACCUMULATOR_TILE_BYTES },
            a_panel: WramArenaSlot { offset: ACCUMULATOR_TILE_BYTES, length: PANEL_TILE_BYTES },
            b_panel: WramArenaSlot {
                offset: (ACCUMULATOR_TILE_BYTES + PANEL_TILE_BYTES) as u16,
                length: PANEL_TILE_BYTES,
            },
        }),
        arena_plan_failure(plan) is None,
{
    BringupArenaPlan {
        accumulator_tile: WramArenaSlot { offset: 0x0000, length: ACCUMULATOR_TILE_BYTES },
        a_panel: WramArenaSlot { offset: ACCUMULATOR_TILE_BYTES, length: PANEL_TILE_BYTES },
        b_panel: WramArenaSlot {
            offset: ACCUMULATOR_TILE_BYTES + PANEL_TILE_BYTES,
            length: PANEL_TILE_BYTES,
        },
    }
}

#[derive(Clone, Copy, Debug, PartialEq, Eq, Structural, Hash)]
pub enum StorageClass {
    WramScratch,
}

#[derive(Clone, Copy, Debug, PartialEq, Eq, Structural, Hash)]
pub struct StorageBinding {
    pub class: StorageClass,
    pub offset: u16,
    pub length: u16,
}

#[derive(Clone, Copy, Debug, PartialEq, Eq, Structural, Hash)]
pub enum TileOrder {
    MtMajorNtMinorRowMajorI32Le,
}

/// How the output leaves the machine.
#[derive(Clone, Copy, Debug, PartialEq, Eq, Structural, Hash)]
pub enum OutputBinding {
    HarnessTileStream { source: WramArenaSlot, tile_bytes: u16, order: TileOrder },
}

/// The storage of the run's tiles and output.
#[derive(Clone, Copy, Debug, PartialEq, Eq, Structural)]
pub struct BringupStoragePlan {
    pub accumulator: StorageBinding,
    pub a_panel: StorageBinding,
    pub b_panel: StorageBinding,
    pub output: OutputBinding,
}

pub open spec fn scratch_binding(slot: WramArenaSlot) -> StorageBinding {
    StorageBinding { class: StorageClass::WramScratch, offset: slot.offset, length: slot.length }
}

/// Binds each arena slot as WRAM scratch and streams the output out of the
/// accumulator tile, tile by tile.
pub fn plan_storage(arena: BringupArenaPlan) -> (plan: BringupStoragePlan)
    ensures
        plan == (BringupStoragePlan {
            accumulator: scratch_binding(arena.accumulator_tile),
            a_panel: scratch_binding(arena.a_panel),
            b_panel: scratch_binding(arena.b_panel),
            output: OutputBinding::HarnessTileStream {
                source: arena.accumulator_tile,
                tile_bytes: ACCUMULATOR_TILE_BYTES,
                order: TileOrder::MtMajorNtMinorRowMajorI32Le,
            },
        }),
{
    BringupStoragePlan {
        accumulator: StorageBinding {
            class: StorageClass::WramScratch,
            offset: arena.accumulator_tile.offset,
            length: arena.accumulator_tile.length,
        },
        a_panel: StorageBinding {
            class: StorageClass::WramScratch,
            offset: arena.a_panel.offset,
            length: arena.a_panel.length,
        },
        b_panel: StorageBinding {
            class: StorageClass::WramScratch,
            offset: arena.b_panel.offset,
            length: arena.b_panel.length,
        },
        output: OutputBinding::HarnessTileStream {
            source: arena.accumulator_tile,
            tile_bytes: ACCUMULATOR_TILE_BYTES,
            order: TileOrder::MtMajorNtMinorRowMajorI32Le,
        },
    }
}

/// One output tile, by its position in the schedule and its tile row and column.
#[derive(Clone, Copy, Debug, PartialEq, Eq, Structural)]
pub struct TileCoord {
    pub tile_index: u16,
    pub mt: u16,
    pub nt: u16,
}

/// Every output tile once, tile rows outermost.
pub fn tile_schedule(dim: SquareDim) -> (schedule: Vec<TileCoord>)
    ensures
        schedule@.len() == (dim.spec_n() / 16) * (dim.spec_n() / 16),
        forall|i: int|
            0 <= i < schedule@.len() ==> #[trigger] schedule@[i] == (TileCoord {
                tile_index: i as u16,
                mt: (i / (dim.spec_n() / 16) as int) as u16,
                nt: (i % (dim.spec_n() / 16) as int) as u16,
            }),
{
    let tiles = dim.tiles_per_axis();
    let mut out: Vec<TileCoord> = Vec::new();
    let mut tile_index: u16 = 0;
    let mut mt: u16 = 0;
    while mt < tiles
        invariant
            1 <= tiles <= 8,
            tiles == dim.spec_n() / 16,
            mt <= tiles,
            tile_index == mt * tiles,
            out@.len() == tile_index,
            forall|i: int|
                0 <= i < out@.len() ==> #[trigger] out@[i] == (TileCoord {
                    tile_index: i as u16,
                    mt: (i / tiles as int) as u16,
                    nt: (i % tiles as int) as u16,
                }),
        decreases tiles - mt,
    {
        let mut nt: u16 = 0;
        while nt < tiles
            invariant
                1 <= tiles <= 8,
                mt < tiles,
                nt <= tiles,
                tile_index == mt * tiles + nt,
                out@.len() == tile_index,
                forall|i: int|
                    0 <= i < out@.len() ==> #[trigger] out@[i] == (TileCoord {
                        tile_index: i as u16,
                        mt: (i / tiles as int) as u16,
                        nt: (i % tiles as int) as u16,
                    }),
            decreases tiles - nt,
        {
            proof {
                assert(mt * tiles + nt < 64) by (nonlinear_arith)
                    requires
                        mt < tiles,
                        nt < tiles,
                        tiles <= 8,
                ;
                assert((mt * tiles + nt) / tiles as int == mt && (mt * tiles + nt) % tiles as int == nt)
                    by (nonlinear_arith)
                    requires
                        nt < tiles,
                        tiles >= 1,
                ;
            }
            out.push(TileCoord { tile_index, mt, nt });
            tile_index = tile_index + 1;
            nt = nt + 1;
        }
        assert(tile_index == (mt + 1) * tiles) by (nonlinear_arith)
            requires
                tile_index == mt * tiles + tiles,
        ;
        mt = mt + 1;
    }
    out
}

/// Output tile (`mt`, `nt`) is listed in `schedule`.
pub open spec fn tile_listed(schedule: Seq<TileCoord>, mt: int, nt: int) -> bool {
    exists|i: int| 0 <= i < schedule.len() && #[trigger] schedule[i].mt == mt && schedule[i].nt == nt
}

/// The schedule of a `t` x `t` tile grid covers each output tile exactly
/// once.
pub proof fn lemma_tile_schedule_covers_once(t: int, schedule: Seq<TileCoord>)
    requires
        1 <= t <= 8,
        schedule.len() == t * t,
        forall|i: int|
            0 <= i < schedule.len() ==> #[trigger] schedule[i] == (TileCoord {
                tile_index: i as u16,
                mt: (i / t) as u16,
                nt: (i % t) as u16,
            }),
    ensures
        forall|mt: int, nt: int| 0 <= mt < t && 0 <= nt < t ==> #[trigger] tile_listed(schedule, mt, nt),
        forall|i: int, j: int|
            0 <= i < schedule.len() && 0 <= j < schedule.len() && #[trigger] schedule[i].mt == #[trigger] schedule[j].mt
                && schedule[i].nt == schedule[j].nt ==> i == j,
{
    assert forall|mt: int, nt: int| 0 <= mt < t && 0 <= nt < t implies #[trigger] tile_listed(schedule, mt, nt) by {
        let i = mt * t + nt;
        assert(0 <= i < t * t) by (nonlinear_arith)
            requires
                0 <= mt < t,
                0 <= nt < t,
                i == mt * t + nt,
        ;
        vstd::arithmetic::div_mod::lemma_fundamental_div_mod_converse_div(i, t, mt, nt);
        vstd::arithmetic::div_mod::lemma_fundamental_div_mod_converse_mod(i, t, mt, nt);
        assert(schedule[i].mt == mt && schedule[i].nt == nt);
    }
    assert forall|i: int, j: int|
        0 <= i < schedule.len() && 0 <= j < schedule.len() && #[trigger] schedule[i].mt == #[trigger] schedule[j].mt
            && schedule[i].nt == schedule[j].nt implies i == j by {
        assert(0 <= i / t < 8 && 0 <= i % t < 8) by (nonlinear_arith)
            requires
                0 <= i < t * t,
                1 <= t <= 8,
        ;
        assert(0 <= j / t < 8 && 0 <= j % t < 8) by (nonlinear_arith)
            requires
                0 <= j < t * t,
                1 <= t <= 8,
        ;
        assert(i / t == j / t && i % t == j % t);
        vstd::arithmetic::div_mod::lemma_fundamental_div_mod(i, t);
        vstd::arithmetic::div_mod::lemma_fundamental_div_mod(j, t);
    }
}

// ------------------------------------------------------------- fixtures

/// The affine coefficients of each operand's fixture.
pub open spec fn fixture_raw(operand: OperandKind, i: int, j: int) -> int {
    match operand {
        OperandKind::A => 73 * i + 37 * j + 19,
        OperandKind::B => 29 * i + 91 * j + 11,
    }
}

/// The int8 value of the fixture at row `i`, column `j`.
pub open spec fn fixture_value(operand: OperandKind, i: int, j: int) -> int {
    fixture_raw(operand, i, j) % 256 - 128
}

/// The byte that holds that value in two's complement.
pub open spec fn fixture_byte(operand: OperandKind, i: int, j: int) -> u8 {
    ((fixture_raw(operand, i, j) % 256 + 128) % 256) as u8
}

/// The deterministic operand of edge `dim`, row by row.
pub fn materialize_operand_fixture(
    fixture: OperandFixtureSpec,
    operand: OperandKind,
    dim: SquareDim,
) -> (bytes: Vec<u8>)
    ensures
        bytes@.len() == dim.spec_n() * dim.spec_n(),
        forall|i: int, j: int|
            0 <= i < dim.spec_n() && 0 <= j < dim.spec_n() ==> #[trigger] bytes@[i * dim.spec_n() + j]
                == fixture_byte(operand, i, j),
{
    let n = dim.n();
    let mut out: Vec<u8> = Vec::new();
    let mut i: u16 = 0;
    while i < n
        invariant
            n == dim.spec_n(),
            n <= 128,
            i <= n,
            out@.len() == i * n,
            forall|r: int, c: int|
                0 <= r < i && 0 <= c < n ==> #[trigger] out@[r * n + c] == fixture_byte(operand, r, c),
        decreases n - i,
    {
        let mut j: u16 = 0;
        while j < n
            invariant
                n == dim.spec_n(),
                n <= 128,
                i < n,
                j <= n,
                out@.len() == i * n + j,
                forall|r: int, c: int|
                    0 <= r < i && 0 <= c < n ==> #[trigger] out@[r * n + c] == fixture_byte(operand, r, c),
                forall|c: int| 0 <= c < j ==> #[trigger] out@[i * n + c] == fixture_byte(operand, i as int, c),
            decreases n - j,
        {
            let raw: u32 = match operand {
                OperandKind::A => 73 * i as u32 + 37 * j as u32 + 19,
                OperandKind::B => 29 * i as u32 + 91 * j as u32 + 11,
            };
            let byte = ((raw % 256 + 128) % 256) as u8;
            proof {
                assert(out@.len() == i * n + j);
            }
            out.push(byte);
            proof {
                assert forall|r: int, c: int| 0 <= r < i && 0 <= c < n implies #[trigger] out@[r * n + c]
                    == fixture_byte(operand, r, c) by {
                    assert(r * n + c < i * n) by (nonlinear_arith)
                        requires
                            r < i,
                            c < n,
                    ;
                }
            }
            j = j + 1;
        }
        proof {
            assert forall|r: int, c: int| 0 <= r < i + 1 && 0 <= c < n implies #[trigger] out@[r * n + c]
                == fixture_byte(operand, r, c) by {
                if r == i {
                } else {
                }
            }
            assert(out@.len() == (i + 1) * n) by (nonlinear_arith)
                requires
                    out@.len() == i * n + n,
            ;
        }
        i = i + 1;
    }
    out
}


// ------------------------------------------------------- lowered sections

/// The identifier of an assembly section.
#[derive(Clone, Copy, Debug, PartialEq, Eq, Structural, Hash)]
pub struct SectionId(pub u16);

/// The section that holds the bringup kernel.
pub const FB1_KERNEL_SECTION: u16 = 0xB100;

/// The instructions that bringup sections hold.
#[derive(Clone, Copy, Debug, PartialEq, Eq, Structural, Hash)]
pub enum AsmInstr {
    Nop,
    LoadAImmediate { imm: u8 },
    StoreADirect { addr: u16 },
}

/// What an instruction does to the machine, as the section checks see it.
#[derive(Clone, Copy, Debug, PartialEq, Eq, Structural, Hash)]
pub enum MachineEffectKind {
    PureCompute,
    MemoryStore,
    StoreToMbcRegister,
}

/// A store below 0x8000 goes to the cartridge's MBC registers.
pub open spec fn spec_instr_effect(instr: AsmInstr) -> MachineEffectKind {
    match instr {
        AsmInstr::Nop => MachineEffectKind::PureCompute,
        AsmInstr::LoadAImmediate { .. } => MachineEffectKind::PureCompute,
        AsmInstr::StoreADirect { addr } => if addr < 0x8000 {
            MachineEffectKind::StoreToMbcRegister
        } else {
            MachineEffectKind::MemoryStore
        },
    }
}

/// Whether a store to `addr` reaches the cartridge's MBC registers, which
/// decode every address below 0x8000.
pub fn is_mbc_register_addr(addr: u16) -> (mbc: bool)
    ensures
        mbc == (addr < 0x8000),
{
    addr <= 0x7FFF
}

pub fn instr_effect(instr: AsmInstr) -> (effect: MachineEffectKind)
    ensures
        effect == spec_instr_effect(instr),
{
    match instr {
        AsmInstr::Nop => MachineEffectKind::PureCompute,
        AsmInstr::LoadAImmediate { .. } => MachineEffectKind::PureCompute,
        AsmInstr::StoreADirect { addr } => if is_mbc_register_addr(addr) {
            MachineEffectKind::StoreToMbcRegister
        } else {
            MachineEffectKind::MemoryStore
        },
    }
}

/// An operation that the layout pass lowers: taking or giving back a ROM
/// bank lease, or a cooperative yield.
#[derive(Clone, Copy, Debug, PartialEq, Eq, Structural, Hash)]
pub enum PreLayoutOp {
    BankLease { lease_id: u32, generation: u32, bank: u16 },
    BankRelease { lease_id: u32 },
    Yield,
}

#[derive(Clone, Copy, Debug, PartialEq, Eq, Structural, Hash)]
pub enum SectionItem {
    Instr { instr: AsmInstr },
    PreLayout { op: PreLayoutOp },
}

/// A section of lowered code: its items in order.
#[derive(Clone, Debug, PartialEq, Eq)]
pub struct AsmSection {
    pub id: SectionId,
    pub items: Vec<SectionItem>,
    pub size_hint_bytes: u16,
}

/// The items that lease `bank` for one operand copy under `lease_id`.
pub open spec fn lease_copy_items(lease_id: u32, bank: u16) -> Seq<SectionItem> {
    seq![
        SectionItem::PreLayout {
            op: PreLayoutOp::BankLease { lease_id, generation: (lease_id + 1) as u32, bank },
        },
        SectionItem::Instr { instr: AsmInstr::Nop },
        SectionItem::PreLayout { op: PreLayoutOp::BankRelease { lease_id } },
    ]
}

/// The items the kernel section is lowered to for `layout`.
pub open spec fn lowered_items(layout: OperandLayout) -> Seq<SectionItem> {
    let leases = match layout {
        OperandLayout::WramSmoke => Seq::empty(),
        OperandLayout::DistinctRomBanks { a, b } => lease_copy_items(0, a.bank.spec_get()) + lease_copy_items(
            1,
            b.bank.spec_get(),
        ),
    };
    seq![SectionItem::Instr { instr: AsmInstr::Nop }] + leases + seq![
        SectionItem::PreLayout { op: PreLayoutOp::Yield },
        SectionItem::Instr { instr: AsmInstr::Nop },
    ]
}

/// `item` leases a ROM bank.
pub open spec fn is_bank_lease(item: SectionItem) -> bool {
    item matches SectionItem::PreLayout { op: PreLayoutOp::BankLease { .. } }
}

/// `item` is lease `id` of ROM bank `bank`.
pub open spec fn is_lease_of(item: SectionItem, id: u32, bank: u16) -> bool {
    match item {
        SectionItem::PreLayout { op: PreLayoutOp::BankLease { lease_id, bank: leased, .. } } => lease_id == id && leased
            == bank,
        _ => false,
    }
}

/// Each bank lease of `items` maps the bank of the operand it copies: lease
/// 0 is operand A's and lease 1 operand B's, and both are there.
pub open spec fn leases_map_operand_banks(items: Seq<SectionItem>, a_bank: u16, b_bank: u16) -> bool {
    &&& forall|i: int|
        0 <= i < items.len() && #[trigger] is_bank_lease(items[i]) ==> is_lease_of(items[i], 0, a_bank) || is_lease_of(
            items[i],
            1,
            b_bank,
        )
    &&& exists|i: int| 0 <= i < items.len() && #[trigger] is_lease_of(items[i], 0, a_bank)
    &&& exists|i: int| 0 <= i < items.len() && #[trigger] is_lease_of(items[i], 1, b_bank)
}

/// A kernel section lowered for banked operands leases exactly the two
/// operand banks, each under its own lease: lease 0 maps the bank the
/// request places operand A in and lease 1 the bank of operand B, so each
/// operand is copied with its own bank switched in. The WRAM smoke layout
/// leases no bank.
pub proof fn lemma_lowered_leases_map_operand_banks(layout: OperandLayout)
    ensures
        layout matches OperandLayout::DistinctRomBanks { a, b } ==> leases_map_operand_banks(
            lowered_items(layout),
            a.bank.spec_get(),
            b.bank.spec_get(),
        ),
        layout is WramSmoke ==> forall|i: int|
            0 <= i < lowered_items(layout).len() ==> !#[trigger] is_bank_lease(lowered_items(layout)[i]),
{
    let items = lowered_items(layout);
    if let OperandLayout::DistinctRomBanks { a, b } = layout {
        assert(is_lease_of(items[1], 0, a.bank.spec_get()));
        assert(is_lease_of(items[4], 1, b.bank.spec_get()));
    }
}

/// Some instruction of `items` writes an MBC register.
pub open spec fn has_raw_mbc_write(items: Seq<SectionItem>) -> bool {
    exists|i: int|
        0 <= i < items.len() && (#[trigger] items[i] matches SectionItem::Instr { instr }
            && spec_instr_effect(instr) == MachineEffectKind::StoreToMbcRegister)
}

/// The pre-layout operations of `items`, in order.
pub open spec fn pre_layout_ops(items: Seq<SectionItem>) -> Seq<PreLayoutOp>
    decreases items.len(),
{
    if items.len() == 0 {
        Seq::empty()
    } else {
        let rest = pre_layout_ops(items.drop_last());
        match items.last() {
            SectionItem::PreLayout { op } => rest.push(op),
            _ => rest,
        }
    }
}

pub open spec fn lease_count(ops: Seq<PreLayoutOp>) -> nat
    decreases ops.len(),
{
    if ops.len() == 0 {
        0
    } else {
        lease_count(ops.drop_last()) + if ops.last() is BankLease { 1nat } else { 0nat }
    }
}

pub open spec fn release_count(ops: Seq<PreLayoutOp>) -> nat
    decreases ops.len(),
{
    if ops.len() == 0 {
        0
    } else {
        release_count(ops.drop_last()) + if ops.last() is BankRelease { 1nat } else { 0nat }
    }
}

/// The first lease fault met while walking a section's operations.
#[derive(Clone, Copy, Debug, PartialEq, Eq, Structural)]
pub enum LeaseFault {
    DuplicateLease { lease_id: u32 },
    UnknownRelease { lease_id: u32 },
    DuplicateRelease { lease_id: u32 },
    YieldWhileActive,
}

/// The leases active, acquired and released after walking `ops`, and the
/// first fault, after which the walk stops.
pub open spec fn lease_walk(ops: Seq<PreLayoutOp>) -> (Set<u32>, Set<u32>, Set<u32>, Option<LeaseFault>)
    decreases ops.len(),
{
    if ops.len() == 0 {
        (Set::empty(), Set::empty(), Set::empty(), None)
    } else {
        let (active, acquired, released, fault) = lease_walk(ops.drop_last());
        if fault is Some {
            (active, acquired, released, fault)
        } else {
            match ops.last() {
                PreLayoutOp::BankLease { lease_id, .. } => if acquired.contains(lease_id)
                    || active.contains(lease_id) {
                    (active, acquired, released, Some(LeaseFault::DuplicateLease { lease_id }))
                } else {
                    (active.insert(lease_id), acquired.insert(lease_id), released, None)
                },
                PreLayoutOp::BankRelease { lease_id } => if !active.contains(lease_id) {
                    (active, acquired, released, Some(LeaseFault::UnknownRelease { lease_id }))
                } else if released.contains(lease_id) {
                    (active.remove(lease_id), acquired, released, Some(LeaseFault::DuplicateRelease { lease_id }))
                } else {
                    (active.remove(lease_id), acquired, released.insert(lease_id), None)
                },
                PreLayoutOp::Yield => if active =~= Set::empty() {
                    (active, acquired, released, None)
                } else {
                    (active, acquired, released, Some(LeaseFault::YieldWhileActive))
                },
            }
        }
    }
}

/// Why a lowered section is refused.
#[derive(Clone, Debug, PartialEq, Eq)]
pub enum BringupValidationError {
    RawMbcWrite { section: SectionId },
    MissingBankLeaseOps { section: SectionId },
    UnbalancedBankLeases { section: SectionId, acquired: usize, released: usize },
    DuplicateBankLease { section: SectionId, lease_id: u32 },
    DuplicateBankRelease { section: SectionId, lease_id: u32 },
    UnknownBankRelease { section: SectionId, lease_id: u32 },
    UnreleasedBankLeases { section: SectionId, active: Vec<u32> },
    YieldWithActiveLease { section: SectionId, active: Vec<u32> },
}

/// `listed` lists the members of `set` in increasing order.
pub open spec fn lists_in_order(listed: Seq<u32>, set: Set<u32>) -> bool {
    &&& forall|i: int, j: int| 0 <= i < j < listed.len() ==> listed[i] < listed[j]
    &&& forall|x: u32| #[trigger] listed.contains(x) <==> set.contains(x)
}

/// `result` is the lease verdict on the operations of `section`.
pub open spec fn lease_verdict(section: AsmSection, result: Result<(), BringupValidationError>) -> bool {
    let (active, _, _, fault) = lease_walk(pre_layout_ops(section.items@));
    match fault {
        Some(LeaseFault::DuplicateLease { lease_id }) => result == Err::<(), BringupValidationError>(
            BringupValidationError::DuplicateBankLease { section: section.id, lease_id },
        ),
        Some(LeaseFault::UnknownRelease { lease_id }) => result == Err::<(), BringupValidationError>(
            BringupValidationError::UnknownBankRelease { section: section.id, lease_id },
        ),
        Some(LeaseFault::DuplicateRelease { lease_id }) => result == Err::<(), BringupValidationError>(
            BringupValidationError::DuplicateBankRelease { section: section.id, lease_id },
        ),
        Some(LeaseFault::YieldWhileActive) => result matches Err(
            BringupValidationError::YieldWithActiveLease { section: s, active: listed },
        ) && s == section.id && lists_in_order(listed@, active),
        None => if active =~= Set::empty() {
            result is Ok
        } else {
            result matches Err(BringupValidationError::UnreleasedBankLeases { section: s, active: listed })
                && s == section.id && lists_in_order(listed@, active)
        },
    }
}

impl AsmSection {
    /// The pre-layout operations of the section, in order.
    pub fn pre_layout_ops(&self) -> (ops: Vec<PreLayoutOp>)
        ensures
            ops@ == pre_layout_ops(self.items@),
    {
        let mut ops: Vec<PreLayoutOp> = Vec::new();
        let mut i: usize = 0;
        while i < self.items.len()
            invariant
                i <= self.items@.len(),
                ops@ == pre_layout_ops(self.items@.subrange(0, i as int)),
            decreases self.items@.len() - i,
        {
            proof {
                assert(self.items@.subrange(0, i + 1).drop_last() =~= self.items@.subrange(0, i as int));
            }
            if let SectionItem::PreLayout { op } = self.items[i] {
                ops.push(op);
            }
            i = i + 1;
        }
        assert(self.items@.subrange(0, self.items@.len() as int) =~= self.items@);
        ops
    }
}

/// Lowers the request to the kernel section: for ROM operands, one lease of
/// each operand's bank around its copy, then a yield.
pub fn lower_request_to_asmir(request: &ComputeBringupRequest) -> (section: Result<AsmSection, ComputeBringupRequestError>)
    ensures
        section is Err <==> request_failure(*request) is Some,
        section matches Err(e) ==> request_failure(*request) == Some(e),
        section matches Ok(s) ==> {
            &&& s.id == SectionId(FB1_KERNEL_SECTION)
            &&& s.size_hint_bytes == KERNEL_ROM_BYTES
            &&& s.items@ == lowered_items(request.operand_layout)
            &&& !has_raw_mbc_write(s.items@)
            &&& lease_walk(pre_layout_ops(s.items@)).3 is None
            &&& lease_walk(pre_layout_ops(s.items@)).0 =~= Set::empty()
            &&& request.operand_layout matches OperandLayout::DistinctRomBanks { a, b } ==> leases_map_operand_banks(
                s.items@,
                a.bank.spec_get(),
                b.bank.spec_get(),
            )
        },
{
    request.validate()?;
    let mut items: Vec<SectionItem> = Vec::new();
    items.push(SectionItem::Instr { instr: AsmInstr::Nop });
    if let OperandLayout::DistinctRomBanks { a, b } = request.operand_layout {
        emit_operand_copy_lease(&mut items, 0, a.bank.get());
        emit_operand_copy_lease(&mut items, 1, b.bank.get());
    }
    items.push(SectionItem::PreLayout { op: PreLayoutOp::Yield });
    items.push(SectionItem::Instr { instr: AsmInstr::Nop });
    let section = AsmSection { id: SectionId(FB1_KERNEL_SECTION), items, size_hint_bytes: KERNEL_ROM_BYTES };
    proof {
        assert(section.items@ =~= lowered_items(request.operand_layout));
        lemma_lowered_items_lawful(request.operand_layout);
        lemma_lowered_leases_map_operand_banks(request.operand_layout);
    }
    Ok(section)
}

fn emit_operand_copy_lease(items: &mut Vec<SectionItem>, lease_id: u32, bank: u16)
    requires
        lease_id < 2,
    ensures
        final(items)@ == old(items)@ + lease_copy_items(lease_id, bank),
{
    items.push(
        SectionItem::PreLayout {
            op: PreLayoutOp::BankLease { lease_id, generation: lease_id + 1, bank },
        },
    );
    items.push(SectionItem::Instr { instr: AsmInstr::Nop });
    items.push(SectionItem::PreLayout { op: PreLayoutOp::BankRelease { lease_id } });
    assert(final(items)@ =~= old(items)@ + lease_copy_items(lease_id, bank));
}

proof fn lemma_lowered_items_lawful(layout: OperandLayout)
    ensures
        !has_raw_mbc_write(lowered_items(layout)),
        lease_walk(pre_layout_ops(lowered_items(layout))).3 is None,
        lease_walk(pre_layout_ops(lowered_items(layout))).0 =~= Set::empty(),
{
    let items = lowered_items(layout);
    assert forall|i: int| 0 <= i < items.len() implies !(#[trigger] items[i] matches SectionItem::Instr { instr }
        && spec_instr_effect(instr) == MachineEffectKind::StoreToMbcRegister) by {
    }
    reveal_with_fuel(pre_layout_ops, 10);
    reveal_with_fuel(lease_walk, 6);
    match layout {
        OperandLayout::WramSmoke => {
            assert(items.drop_last().drop_last().drop_last() =~= Seq::<SectionItem>::empty());
            assert(pre_layout_ops(items) =~= seq![PreLayoutOp::Yield]);
        },
        OperandLayout::DistinctRomBanks { a, b } => {
            let ops = seq![
                PreLayoutOp::BankLease { lease_id: 0, generation: 1, bank: a.bank.spec_get() },
                PreLayoutOp::BankRelease { lease_id: 0 },
                PreLayoutOp::BankLease { lease_id: 1, generation: 2, bank: b.bank.spec_get() },
                PreLayoutOp::BankRelease { lease_id: 1 },
                PreLayoutOp::Yield,
            ];
            assert(pre_layout_ops(items) =~= ops);
            assert(ops.drop_last().drop_last().drop_last().drop_last().drop_last() =~= Seq::<PreLayoutOp>::empty());
            assert(ops.take(1).drop_last() =~= Seq::<PreLayoutOp>::empty());
            assert(ops.take(2).drop_last() =~= ops.take(1));
            assert(ops.take(3).drop_last() =~= ops.take(2));
            assert(ops.take(4).drop_last() =~= ops.take(3));
            assert(ops.take(5) =~= ops);
            assert(ops.drop_last() =~= ops.take(4));
            assert(lease_walk(ops.take(2)).0 =~= Set::<u32>::empty());
            assert(lease_walk(ops.take(4)).0 =~= Set::<u32>::empty());
        },
    }
}


// ------------------------------------------------------- section checks

/// Refuses a section that writes an MBC register directly.
pub fn validate_no_raw_mbc_writes(section: &AsmSection) -> (result: Result<(), BringupValidationError>)
    ensures
        result is Err <==> has_raw_mbc_write(section.items@),
        result matches Err(e) ==> e == (BringupValidationError::RawMbcWrite { section: section.id }),
{
    let mut i: usize = 0;
    while i < section.items.len()
        invariant
            i <= section.items@.len(),
            forall|k: int|
                0 <= k < i ==> !(#[trigger] section.items@[k] matches SectionItem::Instr { instr }
                    && spec_instr_effect(instr) == MachineEffectKind::StoreToMbcRegister),
        decreases section.items@.len() - i,
    {
        if let SectionItem::Instr { instr } = section.items[i] {
            if instr_effect(instr) == MachineEffectKind::StoreToMbcRegister {
                assert(section.items@[i as int] matches SectionItem::Instr { instr }
                    && spec_instr_effect(instr) == MachineEffectKind::StoreToMbcRegister);
                return Err(BringupValidationError::RawMbcWrite { section: section.id });
            }
        }
        i = i + 1;
    }
    Ok(())
}

fn contains_id(ids: &Vec<u32>, id: u32) -> (found: bool)
    ensures
        found == ids@.contains(id),
{
    let mut i: usize = 0;
    while i < ids.len()
        invariant
            i <= ids@.len(),
            forall|k: int| 0 <= k < i ==> ids@[k] != id,
        decreases ids@.len() - i,
    {
        if ids[i] == id {
            return true;
        }
        i = i + 1;
    }
    false
}

pub open spec fn strictly_increasing(ids: Seq<u32>) -> bool {
    forall|i: int, j: int| 0 <= i < j < ids.len() ==> ids[i] < ids[j]
}

/// Inserts `id` in order.
fn insert_in_order(ids: &mut Vec<u32>, id: u32)
    requires
        strictly_increasing(old(ids)@),
        !old(ids)@.contains(id),
    ensures
        strictly_increasing(final(ids)@),
        forall|x: u32| #[trigger] final(ids)@.contains(x) <==> (old(ids)@.contains(x) || x == id),
{
    let mut pos: usize = 0;
    while pos < ids.len() && ids[pos] < id
        invariant
            pos <= ids@.len(),
            forall|k: int| 0 <= k < pos ==> ids@[k] < id,
        decreases ids@.len() - pos,
    {
        pos = pos + 1;
    }
    let ghost before = ids@;
    ids.insert(pos, id);
    proof {
        assert(ids@ =~= before.subrange(0, pos as int) + seq![id] + before.subrange(pos as int, before.len() as int));
        if pos < before.len() {
            assert(before[pos as int] != id);
            assert(before[pos as int] > id);
        }
        assert forall|i: int, j: int| 0 <= i < j < ids@.len() implies ids@[i] < ids@[j] by {
            if j < pos {
            } else if j == pos {
            } else if i < pos {
                assert(ids@[j] == before[j - 1]);
                assert(before[pos as int] > id);
            } else if i == pos {
                assert(ids@[j] == before[j - 1]);
            } else {
                assert(ids@[i] == before[i - 1]);
                assert(ids@[j] == before[j - 1]);
            }
        }
        assert forall|x: u32| #[trigger] ids@.contains(x) <==> (before.contains(x) || x == id) by {
            if ids@.contains(x) {
                let k = choose|k: int| 0 <= k < ids@.len() && ids@[k] == x;
                if k < pos {
                    assert(before[k] == x);
                } else if k > pos {
                    assert(before[k - 1] == x);
                }
            }
            if before.contains(x) {
                let k = choose|k: int| 0 <= k < before.len() && before[k] == x;
                if k < pos {
                    assert(ids@[k] == x);
                } else {
                    assert(ids@[k + 1] == x);
                }
            }
            if x == id {
                assert(ids@[pos as int] == x);
            }
        }
    }
}

/// Removes `id`; whether it was there.
fn remove_id(ids: &mut Vec<u32>, id: u32) -> (found: bool)
    requires
        strictly_increasing(old(ids)@),
    ensures
        found == old(ids)@.contains(id),
        strictly_increasing(final(ids)@),
        forall|x: u32| #[trigger] final(ids)@.contains(x) <==> (old(ids)@.contains(x) && x != id),
{
    let mut pos: usize = 0;
    while pos < ids.len()
        invariant
            pos <= ids@.len(),
            ids@ == old(ids)@,
            strictly_increasing(ids@),
            forall|k: int| 0 <= k < pos ==> ids@[k] != id,
        decreases ids@.len() - pos,
    {
        if ids[pos] == id {
            let ghost before = ids@;
            ids.remove(pos);
            proof {
                assert(ids@ =~= before.subrange(0, pos as int) + before.subrange(pos + 1, before.len() as int));
                assert forall|i: int, j: int| 0 <= i < j < ids@.len() implies ids@[i] < ids@[j] by {
                    if j < pos {
                    } else if i < pos {
                        assert(ids@[j] == before[j + 1]);
                    } else {
                        assert(ids@[i] == before[i + 1]);
                        assert(ids@[j] == before[j + 1]);
                    }
                }
                assert forall|x: u32| #[trigger] ids@.contains(x) <==> (before.contains(x) && x != id) by {
                    if ids@.contains(x) {
                        let k = choose|k: int| 0 <= k < ids@.len() && ids@[k] == x;
                        if k < pos {
                            assert(before[k] == x);
                        } else {
                            assert(before[k + 1] == x);
                            assert(before[pos as int] < before[k + 1]);
                        }
                    }
                    if before.contains(x) && x != id {
                        let k = choose|k: int| 0 <= k < before.len() && before[k] == x;
                        if k < pos {
                            assert(ids@[k] == x);
                        } else {
                            assert(k != pos);
                            assert(ids@[k - 1] == x);
                        }
                    }
                }
            }
            return true;
        }
        pos = pos + 1;
    }
    false
}

/// Refuses a section that yields while a bank lease is active, leases a
/// bank twice, or releases a lease it does not hold, and one that ends with
/// a lease still active.
pub fn validate_no_yield_while_lease_active(section: &AsmSection) -> (result: Result<(), BringupValidationError>)
    ensures
        lease_verdict(*section, result),
{
    let ops = section.pre_layout_ops();
    let mut active: Vec<u32> = Vec::new();
    let mut acquired: Vec<u32> = Vec::new();
    let mut released: Vec<u32> = Vec::new();
    let mut i: usize = 0;
    proof {
        assert(ops@.take(0) =~= Seq::<PreLayoutOp>::empty());
    }
    while i < ops.len()
        invariant
            ops@ == pre_layout_ops(section.items@),
            i <= ops@.len(),
            lease_walk(ops@.take(i as int)).3 is None,
            strictly_increasing(active@),
            forall|x: u32| #[trigger] active@.contains(x) <==> lease_walk(ops@.take(i as int)).0.contains(x),
            forall|x: u32| #[trigger] acquired@.contains(x) <==> lease_walk(ops@.take(i as int)).1.contains(x),
            forall|x: u32| #[trigger] released@.contains(x) <==> lease_walk(ops@.take(i as int)).2.contains(x),
        decreases ops@.len() - i,
    {
        let ghost walked = lease_walk(ops@.take(i as int));
        proof {
            assert(ops@.take(i + 1).drop_last() =~= ops@.take(i as int));
            assert(ops@.take(i + 1).last() == ops@[i as int]);
        }
        match ops[i] {
            PreLayoutOp::BankLease { lease_id, .. } => {
                if contains_id(&acquired, lease_id) || contains_id(&active, lease_id) {
                    proof {
                        lemma_walk_fault_stays(ops@, i as int + 1);
                    }
                    return Err(BringupValidationError::DuplicateBankLease { section: section.id, lease_id });
                }
                insert_in_order(&mut active, lease_id);
                let ghost acquired_before = acquired@;
                acquired.push(lease_id);
                proof {
                    assert forall|x: u32| #[trigger] acquired@.contains(x) <==> (acquired_before.contains(x)
                        || x == lease_id) by {
                        if acquired@.contains(x) {
                            let k = choose|k: int| 0 <= k < acquired@.len() && acquired@[k] == x;
                            if k < acquired_before.len() {
                                assert(acquired_before[k] == x);
                            }
                        }
                        if acquired_before.contains(x) {
                            let k = choose|k: int| 0 <= k < acquired_before.len() && acquired_before[k] == x;
                            assert(acquired@[k] == x);
                        }
                        if x == lease_id {
                            assert(acquired@[acquired_before.len() as int] == x);
                        }
                    }
                }
            },
            PreLayoutOp::BankRelease { lease_id } => {
                if !remove_id(&mut active, lease_id) {
                    proof {
                        lemma_walk_fault_stays(ops@, i as int + 1);
                    }
                    return Err(BringupValidationError::UnknownBankRelease { section: section.id, lease_id });
                }
                if contains_id(&released, lease_id) {
                    proof {
                        lemma_walk_fault_stays(ops@, i as int + 1);
                    }
                    return Err(BringupValidationError::DuplicateBankRelease { section: section.id, lease_id });
                }
                let ghost released_before = released@;
                released.push(lease_id);
                proof {
                    assert forall|x: u32| #[trigger] released@.contains(x) <==> (released_before.contains(x)
                        || x == lease_id) by {
                        if released@.contains(x) {
                            let k = choose|k: int| 0 <= k < released@.len() && released@[k] == x;
                            if k < released_before.len() {
                                assert(released_before[k] == x);
                            }
                        }
                        if released_before.contains(x) {
                            let k = choose|k: int| 0 <= k < released_before.len() && released_before[k] == x;
                            assert(released@[k] == x);
                        }
                        if x == lease_id {
                            assert(released@[released_before.len() as int] == x);
                        }
                    }
                }
            },
            PreLayoutOp::Yield => {
                if active.len() > 0 {
                    proof {
                        assert(active@.contains(active@[0]));
                        assert(!(walked.0 =~= Set::empty()));
                        lemma_walk_fault_stays(ops@, i as int + 1);
                    }
                    return Err(BringupValidationError::YieldWithActiveLease { section: section.id, active });
                }
                proof {
                    assert forall|x: u32| !walked.0.contains(x) by {
                        assert(!active@.contains(x));
                    }
                    assert(walked.0 =~= Set::empty());
                }
            },
        }
        i = i + 1;
    }
    proof {
        assert(ops@.take(ops@.len() as int) =~= ops@);
    }
    if active.len() > 0 {
        proof {
            assert(active@.contains(active@[0]));
        }
        return Err(BringupValidationError::UnreleasedBankLeases { section: section.id, active });
    }
    proof {
        let walked = lease_walk(ops@);
        assert forall|x: u32| !walked.0.contains(x) by {
            assert(!active@.contains(x));
        }
        assert(walked.0 =~= Set::empty());
    }
    Ok(())
}

/// Once the walk faults, it keeps that fault and its sets.
proof fn lemma_walk_fault_stays(ops: Seq<PreLayoutOp>, n: int)
    requires
        0 <= n <= ops.len(),
        lease_walk(ops.take(n)).3 is Some,
    ensures
        lease_walk(ops) == lease_walk(ops.take(n)),
    decreases ops.len() - n,
{
    if n < ops.len() {
        assert(ops.take(n + 1).drop_last() =~= ops.take(n));
        lemma_walk_fault_stays(ops, n + 1);
    } else {
        assert(ops.take(n) =~= ops);
    }
}

/// Counts the leases and releases of `ops`.
fn count_leases(ops: &Vec<PreLayoutOp>) -> (counts: (usize, usize))
    ensures
        counts.0 == lease_count(ops@),
        counts.1 == release_count(ops@),
{
    let mut leases: usize = 0;
    let mut releases: usize = 0;
    let mut i: usize = 0;
    while i < ops.len()
        invariant
            i <= ops@.len(),
            leases == lease_count(ops@.take(i as int)),
            releases == release_count(ops@.take(i as int)),
            leases <= i,
            releases <= i,
        decreases ops@.len() - i,
    {
        proof {
            assert(ops@.take(i + 1).drop_last() =~= ops@.take(i as int));
        }
        match ops[i] {
            PreLayoutOp::BankLease { .. } => {
                leases = leases + 1;
            },
            PreLayoutOp::BankRelease { .. } => {
                releases = releases + 1;
            },
            PreLayoutOp::Yield => {},
        }
        i = i + 1;
    }
    assert(ops@.take(ops@.len() as int) =~= ops@);
    (leases, releases)
}

/// Requires the section to take and give back bank leases, as many of each,
/// and then to respect them.
pub fn validate_uses_banklease_ops(section: &AsmSection) -> (result: Result<(), BringupValidationError>)
    ensures
        ({
            let ops = pre_layout_ops(section.items@);
            let leases = lease_count(ops);
            let releases = release_count(ops);
            if leases == 0 || releases == 0 {
                result == Err::<(), BringupValidationError>(
                    BringupValidationError::MissingBankLeaseOps { section: section.id },
                )
            } else if leases != releases {
                result == Err::<(), BringupValidationError>(
                    BringupValidationError::UnbalancedBankLeases {
                        section: section.id,
                        acquired: leases as usize,
                        released: releases as usize,
                    },
                )
            } else {
                lease_verdict(*section, result)
            }
        }),
{
    let ops = section.pre_layout_ops();
    let (leases, releases) = count_leases(&ops);
    if leases == 0 || releases == 0 {
        return Err(BringupValidationError::MissingBankLeaseOps { section: section.id });
    }
    if leases != releases {
        return Err(
            BringupValidationError::UnbalancedBankLeases { section: section.id, acquired: leases, released: releases },
        );
    }
    validate_no_yield_while_lease_active(section)
}

/// The kernel section lowered from a valid request passes every section
/// check: no raw MBC write, and a lease discipline with no fault that ends
/// with no lease active.
pub proof fn lemma_lowered_section_passes(request: ComputeBringupRequest, section: AsmSection)
    requires
        request_failure(request) is None,
        section.items@ == lowered_items(request.operand_layout),
    ensures
        !has_raw_mbc_write(section.items@),
        lease_walk(pre_layout_ops(section.items@)).3 is None,
        lease_walk(pre_layout_ops(section.items@)).0 =~= Set::empty(),
        forall|result: Result<(), BringupValidationError>| lease_verdict(section, result) ==> result is Ok,
{
    lemma_lowered_items_lawful(request.operand_layout);
}


// ------------------------------------------------------------ run model

/// The counters a bringup run reports.
#[derive(Clone, Copy, Debug, PartialEq, Eq, Structural)]
pub struct BringupRunMetrics {
    pub products: u64,
    pub cycles_per_full_matmul_mcycles: u64,
    pub output_tiles: u32,
    pub k_tiles_per_output_tile: u32,
    pub operand_panel_copies: u32,
    pub operand_panel_bytes_copied: u32,
    pub full_output_bytes: u32,
    pub bank_lease_acquire_count: u32,
    pub bank_lease_release_count: u32,
    pub bank_lease_balance: i32,
    pub max_active_bank_leases: u16,
    pub yield_while_bank_lease_active_count: u32,
    pub harness_pause_while_bank_lease_active_count: u32,
    pub widget_update_count: u32,
    pub scheduler_service_count: u32,
    pub frame_service_misses: u32,
    pub max_no_progress_frames: u32,
    pub max_unyielded_compute_mcycles: u32,
    pub max_bank_lease_hold_mcycles: u32,
    pub cycles_per_product_sample_count: u32,
}

/// The counters that the shape of an `n`-edge multiply fixes.
pub open spec fn spec_structural_metrics(n: int) -> BringupRunMetrics {
    let tiles = n / 16;
    let output_tiles = tiles * tiles;
    let copies = output_tiles * tiles * 2;
    BringupRunMetrics {
        products: (n * n * n) as u64,
        cycles_per_full_matmul_mcycles: (n * n * n * 4) as u64,
        output_tiles: output_tiles as u32,
        k_tiles_per_output_tile: tiles as u32,
        operand_panel_copies: copies as u32,
        operand_panel_bytes_copied: (copies * 256) as u32,
        full_output_bytes: (4 * n * n) as u32,
        bank_lease_acquire_count: copies as u32,
        bank_lease_release_count: copies as u32,
        bank_lease_balance: 0,
        max_active_bank_leases: 1,
        yield_while_bank_lease_active_count: 0,
        harness_pause_while_bank_lease_active_count: 0,
        widget_update_count: 0,
        scheduler_service_count: 0,
        frame_service_misses: 0,
        max_no_progress_frames: 1,
        max_unyielded_compute_mcycles: 320,
        max_bank_lease_hold_mcycles: 128,
        cycles_per_product_sample_count: n as u32,
    }
}

impl BringupRunMetrics {
    /// The counters that the matrix shape alone fixes: products, tiles, panel
    /// copies and the leases around them, with every dynamic counter at rest.
    pub fn structural(dim: SquareDim) -> (metrics: BringupRunMetrics)
        ensures
            metrics == spec_structural_metrics(dim.spec_n() as int),
    {
        let n16 = dim.n();
        let n = n16 as u64;
        let tiles = dim.tiles_per_axis() as u32;
        proof {
            assert(n * n <= 128 * 128 && n * n * n <= 128 * 128 * 128 && n * n * n * 4 <= 128 * 128 * 128 * 4)
                by (nonlinear_arith)
                requires
                    n <= 128,
            ;
            assert(tiles * tiles * tiles * 2 <= 1024 && tiles * tiles <= 64) by (nonlinear_arith)
                requires
                    tiles <= 8,
            ;
        }
        let output_tiles = tiles * tiles;
        let copies = output_tiles * tiles * 2;
        BringupRunMetrics {
            products: n * n * n,
            cycles_per_full_matmul_mcycles: n * n * n * 4,
            output_tiles,
            k_tiles_per_output_tile: tiles,
            operand_panel_copies: copies,
            operand_panel_bytes_copied: copies * 256,
            full_output_bytes: dim.output_bytes_i32() as u32,
            bank_lease_acquire_count: copies,
            bank_lease_release_count: copies,
            bank_lease_balance: 0,
            max_active_bank_leases: 1,
            yield_while_bank_lease_active_count: 0,
            harness_pause_while_bank_lease_active_count: 0,
            widget_update_count: 0,
            scheduler_service_count: 0,
            frame_service_misses: 0,
            max_no_progress_frames: 1,
            max_unyielded_compute_mcycles: 320,
            max_bank_lease_hold_mcycles: 128,
            cycles_per_product_sample_count: n16 as u32,
        }
    }
}

/// The structural counters that a run's report is checked against.
#[derive(Clone, Copy, Debug, PartialEq, Eq, Structural)]
pub enum RunMetric {
    Products,
    OutputTiles,
    KTilesPerOutputTile,
    OperandPanelCopies,
    OperandPanelBytesCopied,
    FullOutputBytes,
}

/// A reported counter that differs from the one the shape fixes.
#[derive(Clone, Copy, Debug, PartialEq, Eq, Structural)]
pub struct StructuralCountMismatch {
    pub metric: RunMetric,
    pub found: u64,
    pub expected: u64,
}

/// The first structural counter of `metrics` that differs from `expected`.
pub open spec fn structural_mismatch(
    metrics: BringupRunMetrics,
    expected: BringupRunMetrics,
) -> Option<StructuralCountMismatch> {
    if metrics.products != expected.products {
        Some(StructuralCountMismatch { metric: RunMetric::Products, found: metrics.products, expected: expected.products })
    } else if metrics.output_tiles != expected.output_tiles {
        Some(StructuralCountMismatch {
            metric: RunMetric::OutputTiles,
            found: metrics.output_tiles as u64,
            expected: expected.output_tiles as u64,
        })
    } else if metrics.k_tiles_per_output_tile != expected.k_tiles_per_output_tile {
        Some(StructuralCountMismatch {
            metric: RunMetric::KTilesPerOutputTile,
            found: metrics.k_tiles_per_output_tile as u64,
            expected: expected.k_tiles_per_output_tile as u64,
        })
    } else if metrics.operand_panel_copies != expected.operand_panel_copies {
        Some(StructuralCountMismatch {
            metric: RunMetric::OperandPanelCopies,
            found: metrics.operand_panel_copies as u64,
            expected: expected.operand_panel_copies as u64,
        })
    } else if metrics.operand_panel_bytes_copied != expected.operand_panel_bytes_copied {
        Some(StructuralCountMismatch {
            metric: RunMetric::OperandPanelBytesCopied,
            found: metrics.operand_panel_bytes_copied as u64,
            expected: expected.operand_panel_bytes_copied as u64,
        })
    } else if metrics.full_output_bytes != expected.full_output_bytes {
        Some(StructuralCountMismatch {
            metric: RunMetric::FullOutputBytes,
            found: metrics.full_output_bytes as u64,
            expected: expected.full_output_bytes as u64,
        })
    } else {
        None
    }
}

/// Checks a run's structural counters against those the shape fixes.
pub fn validate_structural_counts(metrics: &BringupRunMetrics, dim: SquareDim) -> (result: Result<(), StructuralCountMismatch>)
    ensures
        result is Err <==> structural_mismatch(*metrics, spec_structural_metrics(dim.spec_n() as int)) is Some,
        result matches Err(e) ==> structural_mismatch(*metrics, spec_structural_metrics(dim.spec_n() as int))
            == Some(e),
{
    let expected = BringupRunMetrics::structural(dim);
    if metrics.products != expected.products {
        return Err(StructuralCountMismatch { metric: RunMetric::Products, found: metrics.products, expected: expected.products });
    }
    if metrics.output_tiles != expected.output_tiles {
        return Err(StructuralCountMismatch {
            metric: RunMetric::OutputTiles,
            found: metrics.output_tiles as u64,
            expected: expected.output_tiles as u64,
        });
    }
    if metrics.k_tiles_per_output_tile != expected.k_tiles_per_output_tile {
        return Err(StructuralCountMismatch {
            metric: RunMetric::KTilesPerOutputTile,
            found: metrics.k_tiles_per_output_tile as u64,
            expected: expected.k_tiles_per_output_tile as u64,
        });
    }
    if metrics.operand_panel_copies != expected.operand_panel_copies {
        return Err(StructuralCountMismatch {
            metric: RunMetric::OperandPanelCopies,
            found: metrics.operand_panel_copies as u64,
            expected: expected.operand_panel_copies as u64,
        });
    }
    if metrics.operand_panel_bytes_copied != expected.operand_panel_bytes_copied {
        return Err(StructuralCountMismatch {
            metric: RunMetric::OperandPanelBytesCopied,
            found: metrics.operand_panel_bytes_copied as u64,
            expected: expected.operand_panel_bytes_copied as u64,
        });
    }
    if metrics.full_output_bytes != expected.full_output_bytes {
        return Err(StructuralCountMismatch {
            metric: RunMetric::FullOutputBytes,
            found: metrics.full_output_bytes as u64,
            expected: expected.full_output_bytes as u64,
        });
    }
    Ok(())
}

/// What the frame loop reports, one event at a time.
#[derive(Clone, Copy, Debug, PartialEq, Eq, Structural)]
pub enum FrameEvent {
    VBlankFired { frame: u32, mcycle_since_boot: u64 },
    WidgetTickDispatched { frame: u32, mcycle_since_boot: u64 },
    SchedulerServicedFrame { frame: u32, mcycle_since_boot: u64 },
    YieldReturnedToScheduler {
        frame: u32,
        mcycle_since_boot: u64,
        remaining_frame_mcycles_i32: i32,
        completed_quantum_products: u16,
        compute_progress_epoch: u32,
    },
    ComputeProgressEpochAdvanced { frame: u32, mcycle_since_boot: u64, compute_progress_epoch: u32 },
}

/// A frame event with its sequence number.
#[derive(Clone, Copy, Debug, PartialEq, Eq, Structural)]
pub struct FrameEventEnvelope {
    pub seq: u64,
    pub event: FrameEvent,
}

/// Event `r` of the five that frame `frame` reports.
pub open spec fn spec_frame_event(frame: u32, r: int, quantum: YieldQuantum) -> FrameEvent {
    let base = (frame * FRAME_M_CYCLES) as u64;
    if r == 0 {
        FrameEvent::VBlankFired { frame, mcycle_since_boot: base }
    } else if r == 1 {
        FrameEvent::WidgetTickDispatched { frame, mcycle_since_boot: (base + 32) as u64 }
    } else if r == 2 {
        FrameEvent::SchedulerServicedFrame { frame, mcycle_since_boot: (base + 64) as u64 }
    } else if r == 3 {
        FrameEvent::YieldReturnedToScheduler {
            frame,
            mcycle_since_boot: (base + 128) as u64,
            remaining_frame_mcycles_i32: (FRAME_M_CYCLES - 128) as i32,
            completed_quantum_products: spec_products_per_quantum(quantum),
            compute_progress_epoch: (frame + 1) as u32,
        }
    } else {
        FrameEvent::ComputeProgressEpochAdvanced {
            frame,
            mcycle_since_boot: (base + 129) as u64,
            compute_progress_epoch: (frame + 1) as u32,
        }
    }
}

fn push_frame_event(events: &mut Vec<FrameEventEnvelope>, seq: &mut u64, event: FrameEvent)
    requires
        *old(seq) < u64::MAX,
    ensures
        final(events)@ == old(events)@.push(FrameEventEnvelope { seq: *old(seq), event }),
        *final(seq) == *old(seq) + 1,
{
    events.push(FrameEventEnvelope { seq: *seq, event });
    *seq = *seq + 1;
}

/// The events of `frame_count` serviced frames: each frame fires its
/// vblank, ticks the widget, services the scheduler, returns one quantum
/// from compute and advances the progress epoch, numbered in order.
pub fn synthetic_frame_events(frame_count: u32, quantum: YieldQuantum) -> (events: Vec<FrameEventEnvelope>)
    requires
        frame_count < u32::MAX,
    ensures
        events@.len() == 5 * frame_count,
        forall|f: int, r: int|
            0 <= f < frame_count && 0 <= r < 5 ==> #[trigger] events@[5 * f + r] == (FrameEventEnvelope {
                seq: (5 * f + r) as u64,
                event: spec_frame_event(f as u32, r, quantum),
            }),
{
    let mut seq: u64 = 0;
    let mut events: Vec<FrameEventEnvelope> = Vec::new();
    let products = quantum.products_per_quantum();
    let mut frame: u32 = 0;
    while frame < frame_count
        invariant
            frame <= frame_count < u32::MAX,
            products == spec_products_per_quantum(quantum),
            seq == 5 * frame,
            events@.len() == 5 * frame,
            forall|f: int, r: int|
                0 <= f < frame && 0 <= r < 5 ==> #[trigger] events@[5 * f + r] == (FrameEventEnvelope {
                    seq: (5 * f + r) as u64,
                    event: spec_frame_event(f as u32, r, quantum),
                }),
        decreases frame_count - frame,
    {
        let base: u64 = frame as u64 * FRAME_M_CYCLES as u64;
        proof {
            assert(base <= 0xffff_ffff * 17556) by (nonlinear_arith)
                requires
                    base == frame * 17556,
                    frame <= 0xffff_ffff,
            ;
        }
        let ghost start = events@;
        push_frame_event(&mut events, &mut seq, FrameEvent::VBlankFired { frame, mcycle_since_boot: base });
        push_frame_event(
            &mut events,
            &mut seq,
            FrameEvent::WidgetTickDispatched { frame, mcycle_since_boot: base + 32 },
        );
        push_frame_event(
            &mut events,
            &mut seq,
            FrameEvent::SchedulerServicedFrame { frame, mcycle_since_boot: base + 64 },
        );
        push_frame_event(
            &mut events,
            &mut seq,
            FrameEvent::YieldReturnedToScheduler {
                frame,
                mcycle_since_boot: base + 128,
                remaining_frame_mcycles_i32: FRAME_M_CYCLES as i32 - 128,
                completed_quantum_products: products,
                compute_progress_epoch: frame + 1,
            },
        );
        push_frame_event(
            &mut events,
            &mut seq,
            FrameEvent::ComputeProgressEpochAdvanced {
                frame,
                mcycle_since_boot: base + 129,
                compute_progress_epoch: frame + 1,
            },
        );
        proof {
            assert forall|f: int, r: int| 0 <= f < frame + 1 && 0 <= r < 5 implies #[trigger] events@[5 * f + r]
                == (FrameEventEnvelope { seq: (5 * f + r) as u64, event: spec_frame_event(f as u32, r, quantum) }) by {
                if f < frame {
                    assert(events@[5 * f + r] == start[5 * f + r]);
                }
            }
        }
        frame = frame + 1;
    }
    events
}


/// Byte `k` (least significant first) of `value` in two's complement.
pub open spec fn le_byte(value: i32, k: int) -> u8 {
    let u = value as u32;
    if k == 0 {
        (u % 256) as u8
    } else if k == 1 {
        ((u / 256) % 256) as u8
    } else if k == 2 {
        ((u / 65536) % 256) as u8
    } else {
        (u / 16777216) as u8
    }
}

/// `values` as little-endian bytes, four per value.
pub open spec fn spec_i32s_le_bytes(values: Seq<i32>) -> Seq<u8> {
    Seq::new(4 * values.len(), |p: int| le_byte(values[p / 4], p % 4))
}

fn push_le_bytes(bytes: &mut Vec<u8>, value: i32)
    ensures
        final(bytes)@ == old(bytes)@ + seq![le_byte(value, 0), le_byte(value, 1), le_byte(value, 2), le_byte(value, 3)],
{
    let u = value as u32;
    bytes.push((u % 256) as u8);
    bytes.push(((u / 256) % 256) as u8);
    bytes.push(((u / 65536) % 256) as u8);
    bytes.push((u / 16777216) as u8);
    assert(final(bytes)@ =~= old(bytes)@ + seq![le_byte(value, 0), le_byte(value, 1), le_byte(value, 2), le_byte(value, 3)]);
}

/// The values as little-endian bytes.
pub fn i32s_to_le_bytes(values: &Vec<i32>) -> (bytes: Vec<u8>)
    requires
        values@.len() <= 0x1000_0000,
    ensures
        bytes@ == spec_i32s_le_bytes(values@),
{
    let mut bytes: Vec<u8> = Vec::new();
    let mut i: usize = 0;
    while i < values.len()
        invariant
            i <= values@.len() <= 0x1000_0000,
            bytes@.len() == 4 * i,
            forall|p: int| 0 <= p < 4 * i ==> #[trigger] bytes@[p] == le_byte(values@[p / 4], p % 4),
        decreases values@.len() - i,
    {
        push_le_bytes(&mut bytes, values[i]);
        i = i + 1;
    }
    assert(bytes@ =~= spec_i32s_le_bytes(values@));
    bytes
}

/// The position in an `n`-edge matrix of element `e` of tile (`mt`, `nt`),
/// row by row inside the tile.
pub open spec fn tile_element(n: int, mt: int, nt: int, e: int) -> int {
    (16 * mt + e / 16) * n + 16 * nt + e % 16
}

/// The bytes of tile (`mt`, `nt`) of `out`: its 256 values, row by row, as
/// little-endian int32.
pub open spec fn spec_tile_bytes(out: Seq<i32>, n: int, mt: int, nt: int) -> Seq<u8> {
    Seq::new(1024, |p: int| le_byte(out[tile_element(n, mt, nt, p / 4)], p % 4))
}

proof fn lemma_tile_element_bounds(n: int, mt: int, nt: int, e: int)
    requires
        16 <= n <= 128,
        n % 16 == 0,
        0 <= mt < n / 16,
        0 <= nt < n / 16,
        0 <= e < 256,
    ensures
        0 <= tile_element(n, mt, nt, e) < n * n,
{
    let row = 16 * mt + e / 16;
    let col = 16 * nt + e % 16;
    assert(row < n && col < n) by (nonlinear_arith)
        requires
            16 <= n,
            n % 16 == 0,
            0 <= mt < n / 16,
            0 <= nt < n / 16,
            0 <= e < 256,
            row == 16 * mt + e / 16,
            col == 16 * nt + e % 16,
    ;
    assert(0 <= row * n + col < n * n) by (nonlinear_arith)
        requires
            0 <= row < n,
            0 <= col < n,
    ;
}

/// The bytes of one output tile.
pub fn tile_bytes(out: &Vec<i32>, dim: SquareDim, mt: u16, nt: u16) -> (bytes: Vec<u8>)
    requires
        out@.len() == dim.spec_n() * dim.spec_n(),
        mt < dim.spec_n() / 16,
        nt < dim.spec_n() / 16,
    ensures
        bytes@ == spec_tile_bytes(out@, dim.spec_n() as int, mt as int, nt as int),
{
    let n = dim.n() as usize;
    let mut bytes: Vec<u8> = Vec::new();
    let mut e: usize = 0;
    while e < 256
        invariant
            n == dim.spec_n(),
            16 <= n <= 128,
            n % 16 == 0,
            out@.len() == n * n,
            mt < n / 16,
            nt < n / 16,
            e <= 256,
            bytes@.len() == 4 * e,
            forall|p: int|
                0 <= p < 4 * e ==> #[trigger] bytes@[p] == le_byte(out@[tile_element(n as int, mt as int, nt as int, p / 4)], p % 4),
        decreases 256 - e,
    {
        proof {
            lemma_tile_element_bounds(n as int, mt as int, nt as int, e as int);
        }
        let row: usize = 16 * mt as usize + e / 16;
        let col: usize = 16 * nt as usize + e % 16;
        proof {
            assert(row < n && col < n) by (nonlinear_arith)
                requires
                    16 <= n,
                    n % 16 == 0,
                    mt < n / 16,
                    nt < n / 16,
                    e < 256,
                    row == 16 * mt + e / 16,
                    col == 16 * nt + e % 16,
            ;
            assert(row * n + col < n * n && n * n <= 16384) by (nonlinear_arith)
                requires
                    row < n,
                    col < n,
                    n <= 128,
            ;
        }
        push_le_bytes(&mut bytes, out[row * n + col]);
        e = e + 1;
    }
    assert(bytes@ =~= spec_tile_bytes(out@, dim.spec_n() as int, mt as int, nt as int));
    bytes
}

/// One output tile as the harness dumps it.
#[derive(Clone, Debug, PartialEq, Eq)]
pub struct TileDump {
    pub tile_index: u16,
    pub mt: u16,
    pub nt: u16,
    pub source_wram_addr: u16,
    pub bytes: Vec<u8>,
}

/// The sum of the first `k` products of row `i` of A and column `j` of B of
/// the affine fixtures.
pub open spec fn fixture_dot(i: int, j: int, k: int) -> int
    decreases k,
{
    if k <= 0 {
        0
    } else {
        fixture_dot(i, j, k - 1) + fixture_value(OperandKind::A, i, k - 1) * fixture_value(
            OperandKind::B,
            k - 1,
            j,
        )
    }
}

/// The int8 that a byte holds in two's complement.
pub open spec fn byte_as_i8(byte: u8) -> int {
    if byte >= 128 {
        byte - 256
    } else {
        byte as int
    }
}

proof fn lemma_fixture_byte_value(operand: OperandKind, i: int, j: int)
    requires
        0 <= i,
        0 <= j,
    ensures
        byte_as_i8(fixture_byte(operand, i, j)) == fixture_value(operand, i, j),
        -128 <= fixture_value(operand, i, j) < 128,
{
}

fn byte_to_i8(byte: u8) -> (value: i8)
    ensures
        value == byte_as_i8(byte),
{
    if byte >= 128 {
        (byte as i16 - 256) as i8
    } else {
        byte as i8
    }
}

/// The operand as int8 values.
fn operand_values(bytes: &Vec<u8>) -> (values: Vec<i8>)
    ensures
        values@.len() == bytes@.len(),
        forall|p: int| 0 <= p < bytes@.len() ==> #[trigger] values@[p] == byte_as_i8(bytes@[p]),
{
    let mut values: Vec<i8> = Vec::new();
    let mut p: usize = 0;
    while p < bytes.len()
        invariant
            p <= bytes@.len(),
            values@.len() == p,
            forall|q: int| 0 <= q < p ==> #[trigger] values@[q] == byte_as_i8(bytes@[q]),
        decreases bytes@.len() - p,
    {
        values.push(byte_to_i8(bytes[p]));
        p = p + 1;
    }
    values
}

/// Entry (`i`, `j`) of the product of the fixtures, as the quarter-square
/// kernel accumulates it.
#[verifier::rlimit(40)]
fn product_entry(a: &Vec<i8>, b: &Vec<i8>, n: usize, i: usize, j: usize) -> (entry: i32)
    requires
        16 <= n <= 128,
        i < n,
        j < n,
        a@.len() == n * n,
        b@.len() == n * n,
        forall|p: int, q: int| 0 <= p < n && 0 <= q < n ==> #[trigger] a@[p * n + q] == fixture_value(OperandKind::A, p, q),
        forall|p: int, q: int| 0 <= p < n && 0 <= q < n ==> #[trigger] b@[p * n + q] == fixture_value(OperandKind::B, p, q),
    ensures
        entry == fixture_dot(i as int, j as int, n as int),
{
    let mut acc: i32 = 0;
    let mut k: usize = 0;
    while k < n
        invariant
            16 <= n <= 128,
            i < n,
            j < n,
            k <= n,
            a@.len() == n * n,
            b@.len() == n * n,
            forall|p: int, q: int| 0 <= p < n && 0 <= q < n ==> #[trigger] a@[p * n + q] == fixture_value(OperandKind::A, p, q),
            forall|p: int, q: int| 0 <= p < n && 0 <= q < n ==> #[trigger] b@[p * n + q] == fixture_value(OperandKind::B, p, q),
            acc == fixture_dot(i as int, j as int, k as int),
            -16384 * k <= acc <= 16384 * k,
        decreases n - k,
    {
        proof {
            assert(i * n + k < n * n && k * n + j < n * n && n * n <= 16384) by (nonlinear_arith)
                requires
                    i < n,
                    j < n,
                    k < n,
                    n <= 128,
            ;
        }
        let x = a[i * n + k];
        let y = b[k * n + j];
        let product = quarter_square_mul_i8(x, y);
        proof {
            assert(-16384 <= x * y <= 16384) by (nonlinear_arith)
                requires
                    -128 <= x <= 127,
                    -128 <= y <= 127,
            ;
        }
        acc = acc + product;
        k = k + 1;
    }
    acc
}

/// What a bringup run produced: the output matrix, its tiles as the harness
/// streams them, the run's counters and its frame events.
#[derive(Clone, Debug, PartialEq, Eq)]
pub struct BringupRun {
    pub dim: SquareDim,
    pub rom_sha256: Option<String>,
    pub output_i32: Vec<i32>,
    pub output_tiles: Vec<TileDump>,
    pub metrics: BringupRunMetrics,
    pub frame_events: Vec<FrameEventEnvelope>,
}

impl BringupRun {
    /// The output matrix as little-endian int32 bytes.
    pub fn output_bytes_le(&self) -> (bytes: Vec<u8>)
        requires
            self.output_i32@.len() <= 0x1000_0000,
        ensures
            bytes@ == spec_i32s_le_bytes(self.output_i32@),
    {
        i32s_to_le_bytes(&self.output_i32)
    }
}

/// The frames a run of `n`-edge matrices services: one per output tile, at
/// least two, plus two.
pub open spec fn run_frame_count(n: int) -> int {
    let tiles = (n / 16) * (n / 16);
    (if tiles < 2 { 2 } else { tiles }) + 2
}

/// `run` is the model run of the valid request `request`.
pub open spec fn is_model_run(request: ComputeBringupRequest, run: BringupRun) -> bool {
    let n = request.matrix_dim.spec_n() as int;
    let t = n / 16;
    let frames = run_frame_count(n);
    &&& 16 <= n <= 128
    &&& n % 16 == 0
    &&& run.dim == request.matrix_dim
    &&& run.rom_sha256 is None
    &&& run.output_i32@.len() == n * n
    &&& forall|i: int, j: int| 0 <= i < n && 0 <= j < n ==> #[trigger] run.output_i32@[i * n + j] == fixture_dot(i, j, n)
    &&& run.output_tiles@.len() == t * t
    &&& forall|q: int|
        0 <= q < t * t ==> {
            let tile = #[trigger] run.output_tiles@[q];
            &&& tile.tile_index == q
            &&& tile.mt == q / t
            &&& tile.nt == q % t
            &&& tile.source_wram_addr == 0xC000
            &&& tile.bytes@ == spec_tile_bytes(run.output_i32@, n, q / t, q % t)
        }
    &&& run.metrics == (BringupRunMetrics {
        widget_update_count: frames as u32,
        scheduler_service_count: frames as u32,
        ..spec_structural_metrics(n)
    })
    &&& run.frame_events@.len() == 5 * frames
    &&& forall|f: int, r: int|
        0 <= f < frames && 0 <= r < 5 ==> #[trigger] run.frame_events@[5 * f + r] == (FrameEventEnvelope {
            seq: (5 * f + r) as u64,
            event: spec_frame_event(f as u32, r, request.yield_quantum),
        })
}

/// Runs the request on the host model: multiplies the two fixtures with the
/// quarter-square kernel, dumps the output tile by tile, and reports the
/// structural counters and one serviced frame per tile.
pub fn run_bringup_model(request: &ComputeBringupRequest) -> (run: Result<BringupRun, ComputeBringupRequestError>)
    ensures
        run is Err <==> request_failure(*request) is Some,
        run matches Err(e) ==> request_failure(*request) == Some(e),
        run matches Ok(r) ==> is_model_run(*request, r),
{
    request.validate()?;
    let dim = request.matrix_dim;
    let n = dim.n() as usize;
    let a_bytes = materialize_operand_fixture(request.operand_fixture, OperandKind::A, dim);
    let b_bytes = materialize_operand_fixture(request.operand_fixture, OperandKind::B, dim);
    let a = operand_values(&a_bytes);
    let b = operand_values(&b_bytes);
    proof {
        assert forall|p: int, q: int| 0 <= p < n && 0 <= q < n implies #[trigger] a@[p * n + q]
            == fixture_value(OperandKind::A, p, q) by {
            assert(0 <= p * n + q < n * n) by (nonlinear_arith)
                requires
                    0 <= p < n,
                    0 <= q < n,
            ;
            assert(a_bytes@[p * n + q] == fixture_byte(OperandKind::A, p, q));
            lemma_fixture_byte_value(OperandKind::A, p, q);
        }
        assert forall|p: int, q: int| 0 <= p < n && 0 <= q < n implies #[trigger] b@[p * n + q]
            == fixture_value(OperandKind::B, p, q) by {
            assert(0 <= p * n + q < n * n) by (nonlinear_arith)
                requires
                    0 <= p < n,
                    0 <= q < n,
            ;
            assert(b_bytes@[p * n + q] == fixture_byte(OperandKind::B, p, q));
            lemma_fixture_byte_value(OperandKind::B, p, q);
        }
    }
    let mut out: Vec<i32> = Vec::new();
    let mut i: usize = 0;
    while i < n
        invariant
            n == dim.spec_n(),
            16 <= n <= 128,
            i <= n,
            a@.len() == n * n,
            b@.len() == n * n,
            forall|p: int, q: int| 0 <= p < n && 0 <= q < n ==> #[trigger] a@[p * n + q] == fixture_value(OperandKind::A, p, q),
            forall|p: int, q: int| 0 <= p < n && 0 <= q < n ==> #[trigger] b@[p * n + q] == fixture_value(OperandKind::B, p, q),
            out@.len() == i * n,
            forall|p: int, q: int| 0 <= p < i && 0 <= q < n ==> #[trigger] out@[p * n + q] == fixture_dot(p, q, n as int),
        decreases n - i,
    {
        let mut j: usize = 0;
        while j < n
            invariant
                n == dim.spec_n(),
                16 <= n <= 128,
                i < n,
                j <= n,
                a@.len() == n * n,
                b@.len() == n * n,
                forall|p: int, q: int| 0 <= p < n && 0 <= q < n ==> #[trigger] a@[p * n + q] == fixture_value(OperandKind::A, p, q),
                forall|p: int, q: int| 0 <= p < n && 0 <= q < n ==> #[trigger] b@[p * n + q] == fixture_value(OperandKind::B, p, q),
                out@.len() == i * n + j,
                forall|p: int, q: int| 0 <= p < i && 0 <= q < n ==> #[trigger] out@[p * n + q] == fixture_dot(p, q, n as int),
                forall|q: int| 0 <= q < j ==> #[trigger] out@[i * n + q] == fixture_dot(i as int, q, n as int),
            decreases n - j,
        {
            let entry = product_entry(&a, &b, n, i, j);
            out.push(entry);
            proof {
                assert forall|p: int, q: int| 0 <= p < i && 0 <= q < n implies #[trigger] out@[p * n + q]
                    == fixture_dot(p, q, n as int) by {
                    assert(p * n + q < i * n) by (nonlinear_arith)
                        requires
                            p < i,
                            q < n,
                    ;
                }
            }
            j = j + 1;
        }
        proof {
            assert forall|p: int, q: int| 0 <= p < i + 1 && 0 <= q < n implies #[trigger] out@[p * n + q]
                == fixture_dot(p, q, n as int) by {
                if p == i {
                } else {
                }
            }
            assert(out@.len() == (i + 1) * n) by (nonlinear_arith)
                requires
                    out@.len() == i * n + n,
            ;
        }
        i = i + 1;
    }
    let schedule = tile_schedule(dim);
    let tiles = dim.tiles_per_axis();
    let mut output_tiles: Vec<TileDump> = Vec::new();
    let mut q: usize = 0;
    while q < schedule.len()
        invariant
            n == dim.spec_n(),
            16 <= n <= 128,
            n % 16 == 0,
            tiles == n / 16,
            1 <= tiles <= 8,
            out@.len() == n * n,
            schedule@.len() == tiles * tiles,
            forall|k: int|
                0 <= k < schedule@.len() ==> #[trigger] schedule@[k] == (TileCoord {
                    tile_index: k as u16,
                    mt: (k / tiles as int) as u16,
                    nt: (k % tiles as int) as u16,
                }),
            q <= schedule@.len(),
            output_tiles@.len() == q,
            forall|k: int|
                0 <= k < q ==> {
                    let tile = #[trigger] output_tiles@[k];
                    &&& tile.tile_index == k
                    &&& tile.mt == k / tiles as int
                    &&& tile.nt == k % tiles as int
                    &&& tile.source_wram_addr == 0xC000
                    &&& tile.bytes@ == spec_tile_bytes(out@, n as int, k / tiles as int, k % tiles as int)
                },
        decreases schedule@.len() - q,
    {
        let coord = schedule[q];
        proof {
            assert(q < 64) by (nonlinear_arith)
                requires
                    q < tiles * tiles,
                    tiles <= 8,
            ;
            assert(((q as int) / (tiles as int)) < tiles && ((q as int) % (tiles as int)) < tiles) by (nonlinear_arith)
                requires
                    q < tiles * tiles,
                    tiles >= 1,
            ;
        }
        let bytes = tile_bytes(&out, dim, coord.mt, coord.nt);
        output_tiles.push(TileDump {
            tile_index: coord.tile_index,
            mt: coord.mt,
            nt: coord.nt,
            source_wram_addr: 0xC000,
            bytes,
        });
        q = q + 1;
    }
    let mut metrics = BringupRunMetrics::structural(dim);
    let busy = if metrics.output_tiles < 2 { 2 } else { metrics.output_tiles };
    proof {
        assert(tiles * tiles <= 64) by (nonlinear_arith)
            requires
                tiles <= 8,
        ;
    }
    let frame_count = busy + 2;
    metrics.widget_update_count = frame_count;
    metrics.scheduler_service_count = frame_count;
    let frame_events = synthetic_frame_events(frame_count, request.yield_quantum);
    Ok(BringupRun { dim, rom_sha256: None, output_i32: out, output_tiles, metrics, frame_events })
}


/// The int32 that four little-endian bytes at `at` hold.
pub open spec fn i32_from_le(bytes: Seq<u8>, at: int) -> i32 {
    ((bytes[at] + 256 * bytes[at + 1] + 65536 * bytes[at + 2] + 16777216 * bytes[at + 3]) as u32) as i32
}

/// Position `p` of an `n`-edge matrix lies in tile (`mt`, `nt`).
pub open spec fn in_tile(n: int, mt: int, nt: int, p: int) -> bool {
    &&& 16 * mt <= p / n < 16 * mt + 16
    &&& 16 * nt <= p % n < 16 * nt + 16
}

/// The element of its tile that position `p` is, row by row.
pub open spec fn tile_local(n: int, mt: int, nt: int, p: int) -> int {
    (p / n - 16 * mt) * 16 + (p % n - 16 * nt)
}

/// `out` with the values of `tile` written over its tile.
pub open spec fn apply_tile(out: Seq<i32>, n: int, tile: TileDump) -> Seq<i32> {
    Seq::new(
        out.len(),
        |p: int|
            if in_tile(n, tile.mt as int, tile.nt as int, p) {
                i32_from_le(tile.bytes@, 4 * tile_local(n, tile.mt as int, tile.nt as int, p))
            } else {
                out[p]
            },
    )
}

/// The matrix that `tiles` give when written in order over zeros.
pub open spec fn reassembled(n: int, tiles: Seq<TileDump>) -> Seq<i32>
    decreases tiles.len(),
{
    if tiles.len() == 0 {
        Seq::new((n * n) as nat, |p: int| 0i32)
    } else {
        apply_tile(reassembled(n, tiles.drop_last()), n, tiles.last())
    }
}

/// The row and column of position `row * n + col`.
proof fn lemma_position(n: int, row: int, col: int)
    requires
        0 < n,
        0 <= row,
        0 <= col < n,
    ensures
        (row * n + col) / n == row,
        (row * n + col) % n == col,
{
    lemma_fundamental_div_mod_converse(row * n + col, n, row, col);
}

fn read_le_i32(bytes: &Vec<u8>, at: usize) -> (value: i32)
    requires
        at + 4 <= bytes@.len(),
        at <= 1020,
    ensures
        value == i32_from_le(bytes@, at as int),
{
    let word: u32 = bytes[at] as u32 + 256 * bytes[at + 1] as u32 + 65536 * bytes[at + 2] as u32
        + 16777216 * bytes[at + 3] as u32;
    word as i32
}

/// Writes the values of `tile` over its tile of `out`.
fn write_tile(out: &mut Vec<i32>, n: usize, tile: &TileDump)
    requires
        16 <= n <= 128,
        n % 16 == 0,
        old(out)@.len() == n * n,
        tile.mt < n / 16,
        tile.nt < n / 16,
        tile.bytes@.len() >= 1024,
    ensures
        final(out)@ == apply_tile(old(out)@, n as int, *tile),
{
    let ghost before = out@;
    let ghost mt = tile.mt as int;
    let ghost nt = tile.nt as int;
    let mut e: usize = 0;
    while e < 256
        invariant
            16 <= n <= 128,
            n % 16 == 0,
            mt == tile.mt,
            nt == tile.nt,
            tile.mt < n / 16,
            tile.nt < n / 16,
            tile.bytes@.len() >= 1024,
            e <= 256,
            out@.len() == before.len() == n * n,
            forall|p: int|
                0 <= p < n * n ==> #[trigger] out@[p] == if in_tile(n as int, mt, nt, p) && tile_local(n as int, mt, nt, p) < e {
                    i32_from_le(tile.bytes@, 4 * tile_local(n as int, mt, nt, p))
                } else {
                    before[p]
                },
        decreases 256 - e,
    {
        let row: usize = 16 * tile.mt as usize + e / 16;
        let col: usize = 16 * tile.nt as usize + e % 16;
        proof {
            assert(row < n && col < n) by (nonlinear_arith)
                requires
                    16 <= n,
                    n % 16 == 0,
                    tile.mt < n / 16,
                    tile.nt < n / 16,
                    e < 256,
                    row == 16 * tile.mt + e / 16,
                    col == 16 * tile.nt + e % 16,
            ;
            assert(row * n + col < n * n && n * n <= 16384) by (nonlinear_arith)
                requires
                    row < n,
                    col < n,
                    n <= 128,
            ;
            lemma_position(n as int, row as int, col as int);
        }
        let index = row * n + col;
        let value = read_le_i32(&tile.bytes, 4 * e);
        out.set(index, value);
        proof {
            assert(in_tile(n as int, mt, nt, index as int));
            assert(tile_local(n as int, mt, nt, index as int) == e);
            assert forall|p: int| 0 <= p < n * n implies #[trigger] out@[p] == if in_tile(n as int, mt, nt, p)
                && tile_local(n as int, mt, nt, p) < e + 1 {
                i32_from_le(tile.bytes@, 4 * tile_local(n as int, mt, nt, p))
            } else {
                before[p]
            } by {
                if p != index && in_tile(n as int, mt, nt, p) && tile_local(n as int, mt, nt, p) == e {
                    let r = p / n as int;
                    let c = p % n as int;
                    assert(p == r * n + c) by (nonlinear_arith)
                        requires
                            n > 0,
                            r == p / n as int,
                            c == p % n as int,
                    ;
                    assert(r == row && c == col);
                }
            }
        }
        e = e + 1;
    }
    proof {
        assert(out@ =~= apply_tile(before, n as int, *tile));
    }
}

/// Writes each tile's values over its tile of a zero matrix, in order.
pub fn reassemble_tiles(dim: SquareDim, tiles: &Vec<TileDump>) -> (out: Vec<i32>)
    requires
        forall|k: int|
            0 <= k < tiles@.len() ==> {
                let tile = #[trigger] tiles@[k];
                &&& tile.mt < dim.spec_n() / 16
                &&& tile.nt < dim.spec_n() / 16
                &&& tile.bytes@.len() >= 1024
            },
    ensures
        out@ == reassembled(dim.spec_n() as int, tiles@),
{
    let n = dim.n() as usize;
    let count = dim.elem_count();
    let mut out: Vec<i32> = Vec::new();
    while out.len() < count
        invariant
            count == n * n,
            out@.len() <= count,
            forall|p: int| 0 <= p < out@.len() ==> #[trigger] out@[p] == 0i32,
        decreases count - out@.len(),
    {
        out.push(0);
    }
    proof {
        assert(out@ =~= reassembled(n as int, tiles@.take(0)));
    }
    let mut k: usize = 0;
    while k < tiles.len()
        invariant
            n == dim.spec_n(),
            16 <= n <= 128,
            n % 16 == 0,
            k <= tiles@.len(),
            out@ == reassembled(n as int, tiles@.take(k as int)),
            out@.len() == n * n,
            forall|q: int|
                0 <= q < tiles@.len() ==> {
                    let tile = #[trigger] tiles@[q];
                    &&& tile.mt < n / 16
                    &&& tile.nt < n / 16
                    &&& tile.bytes@.len() >= 1024
                },
        decreases tiles@.len() - k,
    {
        let tile = &tiles[k];
        write_tile(&mut out, n, tile);
        proof {
            assert(tiles@.take(k + 1).drop_last() =~= tiles@.take(k as int));
        }
        k = k + 1;
    }
    assert(tiles@.take(tiles@.len() as int) =~= tiles@);
    out
}


/// The four little-endian bytes of an int32 give it back.
pub proof fn lemma_le_bytes_round_trip(value: i32)
    ensures
        ((le_byte(value, 0) + 256 * le_byte(value, 1) + 65536 * le_byte(value, 2) + 16777216 * le_byte(
            value,
            3,
        )) as u32) as i32 == value,
{
    let u = value as u32;
    assert((u % 256) + 256 * ((u / 256) % 256) + 65536 * ((u / 65536) % 256) + 16777216 * (u / 16777216) == u);
    assert((value as u32) as i32 == value) by (bit_vector);
}

/// A position of an `n`-edge matrix lies in tile (`mt`, `nt`) exactly when
/// those are its row and column divided by 16, and then it is the element of
/// that tile that `tile_local` names.
proof fn lemma_tile_position(n: int, mt: int, nt: int, p: int)
    requires
        16 <= n <= 128,
        n % 16 == 0,
        0 <= p < n * n,
        0 <= mt,
        0 <= nt,
    ensures
        in_tile(n, mt, nt, p) <==> (mt == (p / n) / 16 && nt == (p % n) / 16),
        in_tile(n, mt, nt, p) ==> 0 <= tile_local(n, mt, nt, p) < 256 && tile_element(
            n,
            mt,
            nt,
            tile_local(n, mt, nt, p),
        ) == p,
{
    let row = p / n;
    let col = p % n;
    assert(p == row * n + col && 0 <= col < n && 0 <= row < n) by (nonlinear_arith)
        requires
            n > 0,
            0 <= p < n * n,
            row == p / n,
            col == p % n,
    ;
    if in_tile(n, mt, nt, p) {
        let e = (row - 16 * mt) * 16 + (col - 16 * nt);
        assert(e / 16 == row - 16 * mt && e % 16 == col - 16 * nt) by (nonlinear_arith)
            requires
                e == (row - 16 * mt) * 16 + (col - 16 * nt),
                0 <= row - 16 * mt < 16,
                0 <= col - 16 * nt < 16,
        ;
    }
}

/// Tile `q` of a run's schedule over `out`.
pub open spec fn model_tile_fits(out: Seq<i32>, n: int, q: int, tile: TileDump) -> bool {
    let t = n / 16;
    &&& tile.mt == q / t
    &&& tile.nt == q % t
    &&& tile.bytes@ == spec_tile_bytes(out, n, q / t, q % t)
}

/// Reassembling the tiles a run dumps gives back the run's output: every
/// position of the matrix lies in exactly one tile of the schedule, and the
/// tile's bytes hold its value.
pub proof fn lemma_reassemble_round_trip(n: int, out: Seq<i32>, tiles: Seq<TileDump>)
    requires
        16 <= n <= 128,
        n % 16 == 0,
        out.len() == n * n,
        tiles.len() == (n / 16) * (n / 16),
        forall|q: int| 0 <= q < tiles.len() ==> model_tile_fits(out, n, q, #[trigger] tiles[q]),
    ensures
        reassembled(n, tiles) == out,
{
    let t = n / 16;
    assert forall|k: int, p: int|
        0 <= k <= tiles.len() && 0 <= p < n * n implies #[trigger] reassembled(n, tiles.take(k))[p] == if ((p / n)
        / 16) * t + (p % n) / 16 < k {
        out[p]
    } else {
        0i32
    } by {
        lemma_reassembled_prefix(n, out, tiles, k, p);
    }
    assert(tiles.take(tiles.len() as int) =~= tiles);
    assert forall|p: int| 0 <= p < n * n implies #[trigger] reassembled(n, tiles)[p] == out[p] by {
        let row = p / n;
        let col = p % n;
        assert(row < n && col < n && (row / 16) * t + col / 16 < t * t) by (nonlinear_arith)
            requires
                16 <= n,
                n % 16 == 0,
                t == n / 16,
                0 <= p < n * n,
                row == p / n,
                col == p % n,
        ;
        assert(reassembled(n, tiles.take(tiles.len() as int))[p] == out[p]);
    }
    assert(reassembled(n, tiles).len() == n * n) by {
        lemma_reassembled_len(n, tiles);
    }
    assert(reassembled(n, tiles) =~= out);
}

proof fn lemma_reassembled_len(n: int, tiles: Seq<TileDump>)
    requires
        n >= 0,
    ensures
        reassembled(n, tiles).len() == n * n,
    decreases tiles.len(),
{
    if tiles.len() > 0 {
        lemma_reassembled_len(n, tiles.drop_last());
    }
}

proof fn lemma_reassembled_prefix(n: int, out: Seq<i32>, tiles: Seq<TileDump>, k: int, p: int)
    requires
        16 <= n <= 128,
        n % 16 == 0,
        out.len() == n * n,
        tiles.len() == (n / 16) * (n / 16),
        forall|q: int| 0 <= q < tiles.len() ==> model_tile_fits(out, n, q, #[trigger] tiles[q]),
        0 <= k <= tiles.len(),
        0 <= p < n * n,
    ensures
        reassembled(n, tiles.take(k))[p] == if ((p / n) / 16) * (n / 16) + (p % n) / 16 < k {
            out[p]
        } else {
            0i32
        },
    decreases k,
{
    let t = n / 16;
    let row = p / n;
    let col = p % n;
    let home = (row / 16) * t + col / 16;
    if k == 0 {
        assert(tiles.take(0) =~= Seq::<TileDump>::empty());
    } else {
        lemma_reassembled_prefix(n, out, tiles, k - 1, p);
        assert(tiles.take(k).drop_last() =~= tiles.take(k - 1));
        lemma_reassembled_len(n, tiles.take(k - 1));
        let tile = tiles[k - 1];
        assert(model_tile_fits(out, n, k - 1, tile));
        let q = k - 1;
        assert(0 <= q / t && 0 <= q % t && q == (q / t) * t + q % t && q % t < t) by (nonlinear_arith)
            requires
                t >= 1,
                q >= 0,
        ;
        lemma_tile_position(n, q / t, q % t, p);
        assert(row < n && col < n && row / 16 < t && col / 16 < t) by (nonlinear_arith)
            requires
                16 <= n,
                n % 16 == 0,
                t == n / 16,
                0 <= p < n * n,
                row == p / n,
                col == p % n,
        ;
        if in_tile(n, q / t, q % t, p) {
            assert(home == q);
            let e = tile_local(n, q / t, q % t, p);
            assert(0 <= tile_element(n, q / t, q % t, e) < n * n);
            assert(tile.bytes@[4 * e] == le_byte(out[p], 0));
            assert(tile.bytes@[4 * e + 1] == le_byte(out[p], 1));
            assert(tile.bytes@[4 * e + 2] == le_byte(out[p], 2));
            assert(tile.bytes@[4 * e + 3] == le_byte(out[p], 3));
            lemma_le_bytes_round_trip(out[p]);
        } else {
            assert(home != q) by {
                if home == q {
                    assert((home / t) == row / 16 && (home % t) == col / 16) by (nonlinear_arith)
                        requires
                            home == (row / 16) * t + col / 16,
                            0 <= col / 16 < t,
                            0 <= row / 16,
                    ;
                }
            }
        }
    }
}


/// The tiles of a model run reassemble to its output matrix.
pub proof fn lemma_model_run_reassembles(request: ComputeBringupRequest, run: BringupRun)
    requires
        is_model_run(request, run),
    ensures
        reassembled(run.dim.spec_n() as int, run.output_tiles@) == run.output_i32@,
{
    let n = request.matrix_dim.spec_n() as int;
    assert forall|q: int| 0 <= q < run.output_tiles@.len() implies model_tile_fits(
        run.output_i32@,
        n,
        q,
        #[trigger] run.output_tiles@[q],
    ) by {
        let t = n / 16;
        assert(q / t < t && q % t < t) by (nonlinear_arith)
            requires
                0 <= q < t * t,
                t >= 1,
        ;
    }
    lemma_reassemble_round_trip(n, run.output_i32@, run.output_tiles@);
}


// ---------------------------------------------------------------- hashing

/// The SHA-256 digest of `message`.
pub uninterp spec fn sha256_digest(message: Seq<u8>) -> Seq<u8>;

/// `sha2::Sha256::digest`: the contract claims that the bytes returned are
/// the SHA-256 digest of the bytes passed in, a function of them alone, and
/// that there are 32 of them.
#[verifier::external_body]
pub(crate) fn sha256(message: &[u8]) -> (digest: Vec<u8>)
    ensures
        digest@ == sha256_digest(message@),
        digest@.len() == 32,
{
    Sha256::digest(message).to_vec()
}

/// The domain that request hashes are taken under.
pub const REQUEST_HASH_DOMAIN: &'static str = "gbf-codegen/f-b1/request";

/// The hash of `bytes` under `domain`: SHA-256 of the domain followed by the
/// bytes.
pub fn hash_domain(domain: &[u8], bytes: &[u8]) -> (hash: Hash256)
    ensures
        hash == Hash256::spec_from_bytes(sha256_digest(domain@ + bytes@)),
{
    let mut message: Vec<u8> = Vec::new();
    let mut i: usize = 0;
    while i < domain.len()
        invariant
            i <= domain@.len(),
            message@ == domain@.subrange(0, i as int),
        decreases domain@.len() - i,
    {
        message.push(domain[i]);
        i = i + 1;
    }
    let mut j: usize = 0;
    while j < bytes.len()
        invariant
            j <= bytes@.len(),
            message@ == domain@ + bytes@.subrange(0, j as int),
        decreases bytes@.len() - j,
    {
        message.push(bytes[j]);
        j = j + 1;
    }
    proof {
        assert(domain@.subrange(0, domain@.len() as int) =~= domain@);
        assert(bytes@.subrange(0, bytes@.len() as int) =~= bytes@);
    }
    let digest = sha256(message.as_slice());
    Hash256::from_bytes(digest.as_slice())
}

impl ComputeBringupRequest {
    /// The hash of a valid request, taken over its serialized form `json`
    /// under the request domain.
    pub fn hash(&self, json: &[u8]) -> (hash: Result<Hash256, ComputeBringupRequestError>)
        ensures
            hash is Err <==> request_failure(*self) is Some,
            hash matches Err(e) ==> request_failure(*self) == Some(e),
            hash matches Ok(h) ==> h == Hash256::spec_from_bytes(
                sha256_digest(utf8(REQUEST_HASH_DOMAIN@) + json@),
            ),
    {
        self.validate()?;
        Ok(hash_domain(REQUEST_HASH_DOMAIN.as_bytes(), json))
    }
}

/// A streaming ROM and the program counters of its safe points.
#[derive(Clone, Debug, PartialEq, Eq)]
pub struct BringupStreamingRom {
    pub rom: Vec<u8>,
    pub tile_safe_point_pc: u16,
    pub compute_yield_safe_point_pc: u16,
    pub copy_yield_safe_point_pc: u16,
    pub vblank_handler_pc: u16,
}

} // verus!
