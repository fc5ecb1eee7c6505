//! Legalization: the lowered model is checked against the Game Boy numeric
//! contract before kernel selection.
//!
//! Each check pairs the pinned device bound with the value observed in the
//! model; a failed check aborts compilation with the named reason, and the
//! passing checks are recorded in the build report.

use vstd::prelude::*;
use crate::lower_infer::{DenseBigramProgram, FfnBlockProgram, NormQuantOp};
use crate::lower_quant::QuantLoweredModel;
use crate::text::{append, append_decimal, decimal};

verus! {

/// Model width the banked backend is pinned to.
pub const D_MODEL: usize = 64;

/// Feed-forward width the banked backend is pinned to.
pub const D_FF: usize = 128;

/// Block count the banked backend is pinned to.
pub const N_BLOCKS: usize = 4;

/// Vocabulary size the head scans.
pub const VOCAB: usize = 256;

/// Signed activation grid half-width.
pub const QMAX: i32 = 127;

/// The bit pattern of the `f32` value 8.0, the activation range half-width.
pub const RANGE_EIGHT_F32_BITS: u32 = 0x4100_0000;

/// One legality check: named bound against the observed value.
#[derive(Clone, Debug, PartialEq, Eq)]
pub struct LegalizationCheck {
    pub name: &'static str,
    pub bound: String,
    pub observed: String,
    pub ok: bool,
}

impl LegalizationCheck {
    /// A copy of the check.
    pub fn duplicate(&self) -> (copy: LegalizationCheck)
        ensures
            copy == *self,
    {
        LegalizationCheck {
            name: self.name,
            bound: self.bound.clone(),
            observed: self.observed.clone(),
            ok: self.ok,
        }
    }
}

/// The checks that legalization ran, all of them passed.
#[derive(Clone, Debug, PartialEq, Eq)]
pub struct LegalizationReport {
    pub checks: Vec<LegalizationCheck>,
}

/// The checks that failed.
#[derive(Clone, Debug, PartialEq, Eq)]
pub struct LegalizeError {
    pub failed: Vec<LegalizationCheck>,
}

/// A check as the contracts see it: name, bound, observed, verdict.
pub open spec fn check_view(c: LegalizationCheck) -> (Seq<char>, Seq<char>, Seq<char>, bool) {
    (c.name@, c.bound@, c.observed@, c.ok)
}

pub open spec fn checks_view(checks: Seq<LegalizationCheck>) -> Seq<(Seq<char>, Seq<char>, Seq<char>, bool)> {
    checks.map_values(|c: LegalizationCheck| check_view(c))
}

/// The largest fan-in (column count) of any block matvec, 0 with no blocks.
pub open spec fn max_fan_in(blocks: Seq<FfnBlockProgram>) -> nat
    decreases blocks.len(),
{
    if blocks.len() == 0 {
        0
    } else {
        let rest = max_fan_in(blocks.drop_last());
        let b = blocks.last();
        let m = if b.up.cols >= b.down.cols { b.up.cols as nat } else { b.down.cols as nat };
        if m >= rest { m } else { rest }
    }
}

/// A norm sits on the `[-8, 8] / 127` activation grid.
pub open spec fn norm_on_grid(n: NormQuantOp) -> bool {
    n.qmax == QMAX && n.range_bits == RANGE_EIGHT_F32_BITS
}

/// Every norm and GELU op sits on the `[-8, 8] / 127` activation grid.
pub open spec fn grids_ok(p: DenseBigramProgram) -> bool {
    &&& forall|i: int|
        0 <= i < p.blocks@.len() ==> {
            let b = #[trigger] p.blocks@[i];
            norm_on_grid(b.norm) && b.gelu.qmax == QMAX && b.gelu.range_bits == RANGE_EIGHT_F32_BITS
        }
    &&& norm_on_grid(p.final_norm)
}

/// The numerator of the down epilogue: `max_scale * max_acc * 2 + 127`.
pub open spec fn down_numerator(p: DenseBigramProgram, q: QuantLoweredModel) -> nat {
    (q.max_scale_raw * (max_fan_in(p.blocks@) * 127) * 2 + 127) as nat
}

/// The inputs on which legalization computes without overflow.
pub open spec fn legalize_in_range(p: DenseBigramProgram, q: QuantLoweredModel) -> bool {
    &&& max_fan_in(p.blocks@) * 127 <= i64::MAX
    &&& down_numerator(p, q) <= u64::MAX
    &&& p.d_model * 127 * 127 <= u64::MAX
}

pub open spec fn dims_check(p: DenseBigramProgram) -> (Seq<char>, Seq<char>, Seq<char>, bool) {
    (
        "dims_match_backend_contract"@,
        "d_model=64, d_ff=128, n_blocks=4, vocab=256"@,
        "d_model="@ + decimal(p.d_model as nat) + ", d_ff="@ + decimal(p.d_ff as nat) + ", n_blocks="@
            + decimal(p.blocks@.len()) + ", vocab="@ + decimal(p.vocab as nat),
        p.d_model == D_MODEL && p.d_ff == D_FF && p.blocks@.len() == N_BLOCKS && p.vocab == VOCAB,
    )
}

pub open spec fn accumulator_check(p: DenseBigramProgram) -> (Seq<char>, Seq<char>, Seq<char>, bool) {
    let m = max_fan_in(p.blocks@);
    (
        "matvec_i16_accumulator"@,
        "fan_in * 127 <= 32767 (fan_in <= 258)"@,
        "max fan_in "@ + decimal(m) + " -> bound "@ + decimal(m * 127),
        m * 127 <= 32767,
    )
}

pub open spec fn grid_check(p: DenseBigramProgram) -> (Seq<char>, Seq<char>, Seq<char>, bool) {
    (
        "activation_grid"@,
        "qmax 127, range 8.0 on every norm/gelu op"@,
        if grids_ok(p) {
            "all ops on the [-8,8]/127 grid"@
        } else {
            "at least one op off-grid"@
        },
        grids_ok(p),
    )
}

pub open spec fn epilogue_check(p: DenseBigramProgram, q: QuantLoweredModel) -> (Seq<char>, Seq<char>, Seq<char>, bool) {
    let num = down_numerator(p, q);
    (
        "down_epilogue_u32"@,
        "max_scale * max_acc * 2 + 127 < 2^32"@,
        "max_scale "@ + decimal(q.max_scale_raw as nat) + " -> "@ + decimal(num) + " (< 4294967296)"@,
        num < 0x1_0000_0000,
    )
}

pub open spec fn logits_check(p: DenseBigramProgram) -> (Seq<char>, Seq<char>, Seq<char>, bool) {
    let bound = (p.d_model * 127 * 127) as nat;
    ("head_logits_i24"@, "d_model * 127^2 < 8388608"@, decimal(bound), bound < 0x80_0000)
}

pub open spec fn embedding_check(q: QuantLoweredModel) -> (Seq<char>, Seq<char>, Seq<char>, bool) {
    (
        "embedding_q11_5"@,
        "max|emb| * 32 <= 32767"@,
        "max|emb| "@ + q.max_abs_embedding_text@ + " -> "@ + q.embedding_q11_5_text@,
        q.embedding_fits_q11_5,
    )
}

/// The six device-contract checks, in the order they are run.
pub open spec fn legality_checks(p: DenseBigramProgram, q: QuantLoweredModel) -> Seq<
    (Seq<char>, Seq<char>, Seq<char>, bool),
> {
    seq![
        dims_check(p),
        accumulator_check(p),
        grid_check(p),
        epilogue_check(p, q),
        logits_check(p),
        embedding_check(q),
    ]
}

/// The checks of `checks` that failed, in order.
pub open spec fn failed_checks(checks: Seq<(Seq<char>, Seq<char>, Seq<char>, bool)>) -> Seq<
    (Seq<char>, Seq<char>, Seq<char>, bool),
>
    decreases checks.len(),
{
    if checks.len() == 0 {
        Seq::empty()
    } else if checks.last().3 {
        failed_checks(checks.drop_last())
    } else {
        failed_checks(checks.drop_last()).push(checks.last())
    }
}

/// No check failed exactly when every check passed.
pub proof fn lemma_failed_checks_empty(checks: Seq<(Seq<char>, Seq<char>, Seq<char>, bool)>)
    ensures
        failed_checks(checks).len() == 0 <==> forall|i: int| 0 <= i < checks.len() ==> (#[trigger] checks[i]).3,
        forall|i: int| 0 <= i < failed_checks(checks).len() ==> !(#[trigger] failed_checks(checks)[i]).3,
    decreases checks.len(),
{
    if checks.len() > 0 {
        lemma_failed_checks_empty(checks.drop_last());
        if !checks.last().3 {
            assert(!checks[checks.len() - 1].3);
        }
        assert forall|i: int| 0 <= i < checks.len() - 1 implies checks.drop_last()[i] == checks[i] by {}
    }
}

fn max_fan_in_exec(blocks: &Vec<FfnBlockProgram>) -> (m: usize)
    ensures
        m == max_fan_in(blocks@),
{
    let mut m: usize = 0;
    let mut i: usize = 0;
    while i < blocks.len()
        invariant
            i <= blocks@.len(),
            m == max_fan_in(blocks@.subrange(0, i as int)),
        decreases blocks@.len() - i,
    {
        let b = &blocks[i];
        let wider = if b.up.cols >= b.down.cols { b.up.cols } else { b.down.cols };
        proof {
            assert(blocks@.subrange(0, i + 1).drop_last() =~= blocks@.subrange(0, i as int));
        }
        if wider >= m {
            m = wider;
        }
        i = i + 1;
    }
    proof {
        assert(blocks@.subrange(0, blocks@.len() as int) =~= blocks@);
    }
    m
}

fn norm_on_grid_exec(n: &NormQuantOp) -> (on: bool)
    ensures
        on == norm_on_grid(*n),
{
    n.qmax == QMAX && n.range_bits == RANGE_EIGHT_F32_BITS
}

fn grids_ok_exec(p: &DenseBigramProgram) -> (ok: bool)
    ensures
        ok == grids_ok(*p),
{
    let mut i: usize = 0;
    while i < p.blocks.len()
        invariant
            i <= p.blocks@.len(),
            forall|j: int|
                0 <= j < i ==> {
                    let b = #[trigger] p.blocks@[j];
                    norm_on_grid(b.norm) && b.gelu.qmax == QMAX && b.gelu.range_bits == RANGE_EIGHT_F32_BITS
                },
        decreases p.blocks@.len() - i,
    {
        let b = &p.blocks[i];
        if !(norm_on_grid_exec(&b.norm) && b.gelu.qmax == QMAX && b.gelu.range_bits == RANGE_EIGHT_F32_BITS) {
            return false;
        }
        i = i + 1;
    }
    norm_on_grid_exec(&p.final_norm)
}

fn dims_check_exec(p: &DenseBigramProgram) -> (c: LegalizationCheck)
    ensures
        check_view(c) == dims_check(*p),
{
    let observed = append_decimal("d_model=".to_owned(), p.d_model as u64);
    let observed = append(observed, ", d_ff=");
    let observed = append_decimal(observed, p.d_ff as u64);
    let observed = append(observed, ", n_blocks=");
    let observed = append_decimal(observed, p.blocks.len() as u64);
    let observed = append(observed, ", vocab=");
    let observed = append_decimal(observed, p.vocab as u64);
    LegalizationCheck {
        name: "dims_match_backend_contract",
        bound: "d_model=64, d_ff=128, n_blocks=4, vocab=256".to_owned(),
        observed,
        ok: p.d_model == D_MODEL && p.d_ff == D_FF && p.blocks.len() == N_BLOCKS && p.vocab == VOCAB,
    }
}

fn accumulator_check_exec(p: &DenseBigramProgram, m: usize) -> (c: LegalizationCheck)
    requires
        m == max_fan_in(p.blocks@),
        m * 127 <= i64::MAX,
    ensures
        check_view(c) == accumulator_check(*p),
{
    let bound = m as u64 * 127;
    let observed = append_decimal("max fan_in ".to_owned(), m as u64);
    let observed = append(observed, " -> bound ");
    let observed = append_decimal(observed, bound);
    LegalizationCheck {
        name: "matvec_i16_accumulator",
        bound: "fan_in * 127 <= 32767 (fan_in <= 258)".to_owned(),
        observed,
        ok: bound <= 32767,
    }
}

fn grid_check_exec(p: &DenseBigramProgram) -> (c: LegalizationCheck)
    ensures
        check_view(c) == grid_check(*p),
{
    let ok = grids_ok_exec(p);
    LegalizationCheck {
        name: "activation_grid",
        bound: "qmax 127, range 8.0 on every norm/gelu op".to_owned(),
        observed: if ok {
            "all ops on the [-8,8]/127 grid".to_owned()
        } else {
            "at least one op off-grid".to_owned()
        },
        ok,
    }
}

fn epilogue_check_exec(p: &DenseBigramProgram, q: &QuantLoweredModel, m: usize) -> (c: LegalizationCheck)
    requires
        m == max_fan_in(p.blocks@),
        legalize_in_range(*p, *q),
    ensures
        check_view(c) == epilogue_check(*p, *q),
{
    let max_acc = m as u64 * 127;
    assert(q.max_scale_raw * max_acc * 2 + 127 == down_numerator(*p, *q));
    let num = q.max_scale_raw as u64 * max_acc * 2 + 127;
    let observed = append_decimal("max_scale ".to_owned(), q.max_scale_raw as u64);
    let observed = append(observed, " -> ");
    let observed = append_decimal(observed, num);
    let observed = append(observed, " (< 4294967296)");
    LegalizationCheck {
        name: "down_epilogue_u32",
        bound: "max_scale * max_acc * 2 + 127 < 2^32".to_owned(),
        observed,
        ok: num < 0x1_0000_0000,
    }
}

fn logits_check_exec(p: &DenseBigramProgram) -> (c: LegalizationCheck)
    requires
        p.d_model * 127 * 127 <= u64::MAX,
    ensures
        check_view(c) == logits_check(*p),
{
    let bound = p.d_model as u64 * 127 * 127;
    LegalizationCheck {
        name: "head_logits_i24",
        bound: "d_model * 127^2 < 8388608".to_owned(),
        observed: append_decimal(String::new(), bound),
        ok: bound < 0x80_0000,
    }
}

fn embedding_check_exec(q: &QuantLoweredModel) -> (c: LegalizationCheck)
    ensures
        check_view(c) == embedding_check(*q),
{
    let observed = append("max|emb| ".to_owned(), q.max_abs_embedding_text.as_str());
    let observed = append(observed, " -> ");
    let observed = append(observed, q.embedding_q11_5_text.as_str());
    LegalizationCheck {
        name: "embedding_q11_5",
        bound: "max|emb| * 32 <= 32767".to_owned(),
        observed,
        ok: q.embedding_fits_q11_5,
    }
}

/// Whether legalization's bounds fit the 64-bit products they are computed
/// in.
pub fn legalize_in_range_exec(program: &DenseBigramProgram, lowered: &QuantLoweredModel) -> (ok: bool)
    ensures
        ok == legalize_in_range(*program, *lowered),
{
    let m = max_fan_in_exec(&program.blocks) as u128;
    let acc = m * 127;
    let scale = lowered.max_scale_raw as u128;
    assert(scale * acc <= 0xffff * (0xffff_ffff_ffff_ffff * 127)) by (nonlinear_arith)
        requires
            scale <= 0xffff,
            acc <= 0xffff_ffff_ffff_ffff * 127,
    ;
    let num = scale * acc * 2 + 127;
    let logits = program.d_model as u128 * 127 * 127;
    acc <= i64::MAX as u128 && num <= u64::MAX as u128 && logits <= u64::MAX as u128
}

/// Runs every device-contract check; the report when all pass, else the
/// failed ones in order.
pub fn legalize(program: &DenseBigramProgram, lowered: &QuantLoweredModel) -> (result: Result<
    LegalizationReport,
    LegalizeError,
>)
    requires
        legalize_in_range(*program, *lowered),
    ensures
        result is Ok <==> forall|i: int|
            0 <= i < 6 ==> (#[trigger] legality_checks(*program, *lowered)[i]).3,
        result matches Ok(report) ==> checks_view(report.checks@) == legality_checks(*program, *lowered),
        result matches Err(e) ==> checks_view(e.failed@) == failed_checks(
            legality_checks(*program, *lowered),
        ),
{
    let m = max_fan_in_exec(&program.blocks);
    let mut checks: Vec<LegalizationCheck> = Vec::new();
    checks.push(dims_check_exec(program));
    checks.push(accumulator_check_exec(program, m));
    checks.push(grid_check_exec(program));
    checks.push(epilogue_check_exec(program, lowered, m));
    checks.push(logits_check_exec(program));
    checks.push(embedding_check_exec(lowered));
    let ghost all = legality_checks(*program, *lowered);
    proof {
        assert(checks_view(checks@) =~= all);
    }
    let mut failed: Vec<LegalizationCheck> = Vec::new();
    let mut i: usize = 0;
    while i < checks.len()
        invariant
            i <= checks@.len(),
            checks_view(checks@) == all,
            checks_view(failed@) == failed_checks(all.subrange(0, i as int)),
        decreases checks@.len() - i,
    {
        proof {
            assert(all.subrange(0, i + 1).drop_last() =~= all.subrange(0, i as int));
            assert(all[i as int] == check_view(checks@[i as int]));
        }
        if !checks[i].ok {
            let ghost before = failed@;
            failed.push(checks[i].duplicate());
            proof {
                assert(checks_view(failed@) =~= checks_view(before).push(all[i as int]));
            }
        }
        i = i + 1;
    }
    proof {
        assert(all.subrange(0, all.len() as int) =~= all);
        lemma_failed_checks_empty(all);
    }
    if failed.len() == 0 {
        Ok(LegalizationReport { checks })
    } else {
        Err(LegalizeError { failed })
    }
}

} // verus!
