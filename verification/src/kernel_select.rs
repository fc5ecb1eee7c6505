//! Kernel selection: each op of the model program is mapped onto a measured
//! kernel family.
//!
//! Block matvecs take the banked weights-as-code family, which won the
//! kernel bake-off on M-cycles per MAC; the tied head takes the lane-major i8
//! product-LUT kernel; the scalar ops take the integer routines proven
//! byte-exact by the one-token and multi-token gates.

use vstd::prelude::*;
use crate::text::decimal;
use crate::lower_infer::{
    block_indices, block_op_name, block_op_names, blocks_op_names, program_op_names,
    DenseBigramProgram,
};

verus! {

/// The kernel families that the model-ROM backend implements.
#[derive(Clone, Copy, Debug, PartialEq, Eq, Structural, Hash)]
pub enum KernelFamily {
    /// Banked straight-line add/sub code over u8 zp128 activations walked
    /// with SP; i16 accumulators seeded with `-128 * sum(row)`.
    V3WeightsAsCodeBanked,
    /// Q11.5 embedding rows copied from banked ROM tables.
    EmbeddingTableQ11_5Banked,
    /// Integer full-vector RMS norm and activation quant.
    IntNormQuantFullVector,
    /// Q8.8 row-scale multiply with round-half-away requantization.
    ScaleEpilogueQ8_8,
    /// 255-entry GELU LUT on the activation grid.
    GeluLut255,
    /// Q8.8 scale epilogue to the Q11.5 residual grid and a wrapping add.
    ScaleEpilogueQ8_8ResidualAdd,
    /// Lane-major transposed i8 tied head via per-lane product LUT pages,
    /// i24 accumulation.
    TiedHeadLaneMajorI8ProductLut,
    /// 256-way i24 argmax scan, lowest index wins ties.
    ArgmaxI24LowestIndex,
}

/// One op-to-kernel decision with its measured-evidence rationale.
#[derive(Clone, Debug, PartialEq, Eq)]
pub struct KernelSelection {
    pub op: String,
    pub kernel: KernelFamily,
    pub rationale: &'static str,
}

/// The kernel plan of a model program.
#[derive(Clone, Debug, PartialEq, Eq)]
pub struct KernelPlan {
    pub selections: Vec<KernelSelection>,
}

pub const MATVEC_RATIONALE: &'static str = "kernel bake-off (bd-rzq5n): V3 weights-as-code won M-cycles/MAC over V1/V2; byte-exact under the one-token and multi-token gates";

pub const TABLE_RATIONALE: &'static str = "banked data table proven byte-exact by the one-token bring-up (bd-59qiq)";

pub const ROUTINE_RATIONALE: &'static str = "bank-0 integer routine proven byte-exact by the one-token bring-up (bd-59qiq)";

/// A selection as the contracts see it: op name, kernel, rationale.
pub open spec fn selection_view(s: KernelSelection) -> (Seq<char>, KernelFamily, Seq<char>) {
    (s.op@, s.kernel, s.rationale@)
}

/// The kernel and rationale of op `j` of a block.
pub open spec fn block_op_kernel(j: int) -> (KernelFamily, Seq<char>) {
    if j == 0 {
        (KernelFamily::IntNormQuantFullVector, ROUTINE_RATIONALE@)
    } else if j == 1 {
        (KernelFamily::V3WeightsAsCodeBanked, MATVEC_RATIONALE@)
    } else if j == 2 {
        (KernelFamily::ScaleEpilogueQ8_8, ROUTINE_RATIONALE@)
    } else if j == 3 {
        (KernelFamily::GeluLut255, ROUTINE_RATIONALE@)
    } else if j == 4 {
        (KernelFamily::V3WeightsAsCodeBanked, MATVEC_RATIONALE@)
    } else {
        (KernelFamily::ScaleEpilogueQ8_8ResidualAdd, ROUTINE_RATIONALE@)
    }
}

/// The selections of block `k`, in op order.
pub open spec fn block_selections(k: nat) -> Seq<(Seq<char>, KernelFamily, Seq<char>)> {
    Seq::new(6, |j: int| (block_op_names(k)[j], block_op_kernel(j).0, block_op_kernel(j).1))
}

pub open spec fn blocks_selections(indices: Seq<usize>) -> Seq<(Seq<char>, KernelFamily, Seq<char>)>
    decreases indices.len(),
{
    if indices.len() == 0 {
        Seq::empty()
    } else {
        blocks_selections(indices.drop_last()) + block_selections(indices.last() as nat)
    }
}

/// The plan that selection gives a program with these blocks.
pub open spec fn program_selections(
    blocks: Seq<crate::lower_infer::FfnBlockProgram>,
) -> Seq<(Seq<char>, KernelFamily, Seq<char>)> {
    seq![("embed_lookup"@, KernelFamily::EmbeddingTableQ11_5Banked, TABLE_RATIONALE@)]
        + blocks_selections(block_indices(blocks)) + seq![
        ("final.norm_quant"@, KernelFamily::IntNormQuantFullVector, ROUTINE_RATIONALE@),
        ("head.tied_matvec"@, KernelFamily::TiedHeadLaneMajorI8ProductLut, TABLE_RATIONALE@),
        ("head.argmax"@, KernelFamily::ArgmaxI24LowestIndex, ROUTINE_RATIONALE@),
    ]
}

/// The kernel of the first selection for `op`.
pub open spec fn first_kernel_for(
    selections: Seq<(Seq<char>, KernelFamily, Seq<char>)>,
    op: Seq<char>,
) -> Option<KernelFamily>
    decreases selections.len(),
{
    if selections.len() == 0 {
        None
    } else if selections[0].0 == op {
        Some(selections[0].1)
    } else {
        first_kernel_for(selections.drop_first(), op)
    }
}

impl KernelPlan {
    pub open spec fn view_selections(self) -> Seq<(Seq<char>, KernelFamily, Seq<char>)> {
        self.selections@.map_values(|s: KernelSelection| selection_view(s))
    }

    /// Kernel selected for a named op, if any: that of the first selection
    /// for it.
    pub fn kernel_for(&self, op: &str) -> (kernel: Option<KernelFamily>)
        ensures
            kernel == first_kernel_for(self.view_selections(), op@),
    {
        let target = op.to_owned();
        let ghost all = self.view_selections();
        proof {
            assert(all.subrange(0, all.len() as int) =~= all);
        }
        let mut i: usize = 0;
        while i < self.selections.len()
            invariant
                i <= self.selections@.len(),
                all == self.view_selections(),
                target@ == op@,
                first_kernel_for(all, op@) == first_kernel_for(all.subrange(i as int, all.len() as int), op@),
            decreases self.selections@.len() - i,
        {
            proof {
                let rest = all.subrange(i as int, all.len() as int);
                assert(rest.drop_first() =~= all.subrange(i + 1, all.len() as int));
                assert(rest[0] == selection_view(self.selections@[i as int]));
            }
            if self.selections[i].op == target {
                return Some(self.selections[i].kernel);
            }
            i = i + 1;
        }
        None
    }
}

/// Kernel selection gives the program's ops in order, each its kernel.
pub proof fn lemma_selection_names(indices: Seq<usize>)
    ensures
        blocks_selections(indices).len() == blocks_op_names(indices).len(),
        forall|i: int|
            0 <= i < blocks_op_names(indices).len() ==> (#[trigger] blocks_selections(indices)[i]).0
                == blocks_op_names(indices)[i],
    decreases indices.len(),
{
    if indices.len() > 0 {
        lemma_selection_names(indices.drop_last());
        let k = indices.last() as nat;
        assert forall|j: int| 0 <= j < 6 implies #[trigger] block_selections(k)[j].0 == block_op_names(k)[j] by {}
    }
}

/// A selection list holds a kernel for each op it names.
pub proof fn lemma_first_kernel_for_named(
    selections: Seq<(Seq<char>, KernelFamily, Seq<char>)>,
    i: int,
)
    requires
        0 <= i < selections.len(),
    ensures
        first_kernel_for(selections, selections[i].0) is Some,
    decreases selections.len(),
{
    if selections[0].0 != selections[i].0 {
        lemma_first_kernel_for_named(selections.drop_first(), i - 1);
    }
}

/// Every op of the program gets a kernel, and the plan holds one selection
/// per op, in the program's order.
pub proof fn lemma_every_op_has_a_kernel(program: DenseBigramProgram, plan: KernelPlan)
    requires
        plan.view_selections() == program_selections(program.blocks@),
    ensures
        plan.view_selections().len() == program_op_names(program.blocks@).len(),
        forall|i: int|
            0 <= i < program_op_names(program.blocks@).len() ==> first_kernel_for(
                plan.view_selections(),
                #[trigger] program_op_names(program.blocks@)[i],
            ) is Some,
{
    let indices = block_indices(program.blocks@);
    lemma_selection_names(indices);
    let sel = plan.view_selections();
    let names = program_op_names(program.blocks@);
    assert forall|i: int| 0 <= i < names.len() implies sel[i].0 == #[trigger] names[i] by {
        let nb = blocks_op_names(indices).len();
        if i == 0 {
        } else if i <= nb {
            assert(sel[i] == blocks_selections(indices)[i - 1]);
            assert(names[i] == blocks_op_names(indices)[i - 1]);
        } else {
        }
    }
    assert forall|i: int| 0 <= i < names.len() implies first_kernel_for(sel, #[trigger] names[i]) is Some by {
        lemma_first_kernel_for_named(sel, i);
    }
}

/// The six selections of block `k`, pushed in op order.
fn push_block_selections(selections: &mut Vec<KernelSelection>, k: usize)
    ensures
        final(selections)@.map_values(|s: KernelSelection| selection_view(s)) == old(selections)@.map_values(
            |s: KernelSelection| selection_view(s),
        ) + block_selections(k as nat),
{
    let ghost start = old(selections)@.map_values(|s: KernelSelection| selection_view(s));
    let mut j: usize = 0;
    while j < 6
        invariant
            j <= 6,
            selections@.map_values(|s: KernelSelection| selection_view(s)) == start + block_selections(
                k as nat,
            ).subrange(0, j as int),
        decreases 6 - j,
    {
        let op = block_op_name(k, j);
        let (kernel, rationale) = if j == 0 {
            (KernelFamily::IntNormQuantFullVector, ROUTINE_RATIONALE)
        } else if j == 1 {
            (KernelFamily::V3WeightsAsCodeBanked, MATVEC_RATIONALE)
        } else if j == 2 {
            (KernelFamily::ScaleEpilogueQ8_8, ROUTINE_RATIONALE)
        } else if j == 3 {
            (KernelFamily::GeluLut255, ROUTINE_RATIONALE)
        } else if j == 4 {
            (KernelFamily::V3WeightsAsCodeBanked, MATVEC_RATIONALE)
        } else {
            (KernelFamily::ScaleEpilogueQ8_8ResidualAdd, ROUTINE_RATIONALE)
        };
        let ghost before = selections@;
        selections.push(KernelSelection { op, kernel, rationale });
        proof {
            assert(selections@.map_values(|s: KernelSelection| selection_view(s)) =~= before.map_values(
                |s: KernelSelection| selection_view(s),
            ).push(block_selections(k as nat)[j as int]));
            assert(block_selections(k as nat).subrange(0, j + 1) =~= block_selections(k as nat).subrange(
                0,
                j as int,
            ).push(block_selections(k as nat)[j as int]));
        }
        j = j + 1;
    }
    proof {
        assert(block_selections(k as nat).subrange(0, 6) =~= block_selections(k as nat));
    }
}

fn push_selection(
    selections: &mut Vec<KernelSelection>,
    op: &str,
    kernel: KernelFamily,
    rationale: &'static str,
)
    ensures
        final(selections)@.map_values(|s: KernelSelection| selection_view(s)) == old(selections)@.map_values(
            |s: KernelSelection| selection_view(s),
        ).push((op@, kernel, rationale@)),
{
    selections.push(KernelSelection { op: op.to_owned(), kernel, rationale });
    proof {
        assert(final(selections)@.map_values(|s: KernelSelection| selection_view(s)) =~= old(
            selections,
        )@.map_values(|s: KernelSelection| selection_view(s)).push((op@, kernel, rationale@)));
    }
}

/// Selects a kernel for every op of the program, in op order.
pub fn select_kernels(program: &DenseBigramProgram) -> (plan: KernelPlan)
    ensures
        plan.view_selections() == program_selections(program.blocks@),
        forall|i: int|
            0 <= i < plan.view_selections().len() ==> ((#[trigger] plan.view_selections()[i]).1
                == KernelFamily::V3WeightsAsCodeBanked <==> is_matvec_op(plan.view_selections()[i].0)),
        forall|i: int|
            0 <= i < plan.view_selections().len() ==> kernel_for_op_name((#[trigger] plan.view_selections()[i]).0)
                == Some(plan.view_selections()[i].1),
{
    let ghost indices = block_indices(program.blocks@);
    let mut selections: Vec<KernelSelection> = Vec::new();
    push_selection(&mut selections, "embed_lookup", KernelFamily::EmbeddingTableQ11_5Banked, TABLE_RATIONALE);
    let mut b: usize = 0;
    while b < program.blocks.len()
        invariant
            b <= program.blocks@.len(),
            indices == block_indices(program.blocks@),
            selections@.map_values(|s: KernelSelection| selection_view(s)) == seq![
                ("embed_lookup"@, KernelFamily::EmbeddingTableQ11_5Banked, TABLE_RATIONALE@),
            ] + blocks_selections(indices.subrange(0, b as int)),
        decreases program.blocks@.len() - b,
    {
        push_block_selections(&mut selections, program.blocks[b].index);
        proof {
            assert(indices.subrange(0, b + 1).drop_last() =~= indices.subrange(0, b as int));
            assert(selections@.map_values(|s: KernelSelection| selection_view(s)) =~= seq![
                ("embed_lookup"@, KernelFamily::EmbeddingTableQ11_5Banked, TABLE_RATIONALE@),
            ] + blocks_selections(indices.subrange(0, b + 1)));
        }
        b = b + 1;
    }
    proof {
        assert(indices.subrange(0, program.blocks@.len() as int) =~= indices);
    }
    push_selection(&mut selections, "final.norm_quant", KernelFamily::IntNormQuantFullVector, ROUTINE_RATIONALE);
    push_selection(&mut selections, "head.tied_matvec", KernelFamily::TiedHeadLaneMajorI8ProductLut, TABLE_RATIONALE);
    push_selection(&mut selections, "head.argmax", KernelFamily::ArgmaxI24LowestIndex, ROUTINE_RATIONALE);
    let plan = KernelPlan { selections };
    proof {
        assert(plan.view_selections() =~= program_selections(program.blocks@));
        lemma_matvec_ops_run_on_weights_as_code(*program, plan);
        lemma_selection_follows_op_names(*program, plan);
    }
    plan
}


// ------------------------------------------------------------ laws

/// `s` ends with `suffix`.
pub open spec fn ends_with(s: Seq<char>, suffix: Seq<char>) -> bool {
    s.len() >= suffix.len() && s.subrange(s.len() - suffix.len(), s.len() as int) == suffix
}

/// An op that multiplies a matrix by a vector: its name ends in `.matvec`.
pub open spec fn is_matvec_op(op: Seq<char>) -> bool {
    ends_with(op, ".matvec"@)
}

proof fn lemma_ends_with_concat(p: Seq<char>, s: Seq<char>, suffix: Seq<char>)
    requires
        s.len() >= suffix.len(),
    ensures
        ends_with(p + s, suffix) == ends_with(s, suffix),
{
    let n = suffix.len() as int;
    let whole = p + s;
    assert(whole.subrange(whole.len() - n, whole.len() as int) =~= s.subrange(s.len() - n, s.len() as int));
}

/// A block op's name is `block{k}` followed by its own tail.
proof fn lemma_block_op_is_matvec(k: nat, j: int)
    requires
        0 <= j < 6,
    ensures
        is_matvec_op(block_op_names(k)[j]) <==> (j == 1 || j == 4),
{
    reveal_strlit(".matvec");
    reveal_strlit("block");
    reveal_strlit(".norm_quant");
    reveal_strlit(".up.matvec");
    reveal_strlit(".up.scale_epilogue");
    reveal_strlit(".gelu");
    reveal_strlit(".down.matvec");
    reveal_strlit(".down.scale_epilogue_residual_add");
    let p = "block"@ + decimal(k);
    let m = ".matvec"@;
    if j == 3 {
        let name = p + ".gelu"@;
        assert(name == block_op_names(k)[3]);
        assert(name.len() >= 7);
        assert(name.subrange(name.len() - 7, name.len() as int)[2] == '.');
        assert(m[2] == 'a');
    } else {
        let tail = if j == 0 {
            ".norm_quant"@
        } else if j == 1 {
            ".up.matvec"@
        } else if j == 2 {
            ".up.scale_epilogue"@
        } else if j == 4 {
            ".down.matvec"@
        } else {
            ".down.scale_epilogue_residual_add"@
        };
        assert(block_op_names(k)[j] == p + tail);
        lemma_ends_with_concat(p, tail, m);
        let end = tail.subrange(tail.len() - 7, tail.len() as int);
        if j == 1 || j == 4 {
            assert(end =~= m);
        } else {
            assert(end[6] != m[6] || end[0] != m[0] || end[1] != m[1]);
        }
    }
}

proof fn lemma_blocks_selection_entries(indices: Seq<usize>, i: int)
    requires
        0 <= i < blocks_selections(indices).len(),
    ensures
        exists|k: nat, j: int| 0 <= j < 6 && #[trigger] blocks_selections(indices)[i] == (
            block_op_names(k)[j],
            block_op_kernel(j).0,
            block_op_kernel(j).1,
        ),
    decreases indices.len(),
{
    lemma_selection_names(indices.drop_last());
    let front = blocks_selections(indices.drop_last());
    let k = indices.last() as nat;
    if i < front.len() {
        lemma_blocks_selection_entries(indices.drop_last(), i);
        let (kk, jj) = choose|kk: nat, jj: int| 0 <= jj < 6 && #[trigger] front[i] == (
            block_op_names(kk)[jj],
            block_op_kernel(jj).0,
            block_op_kernel(jj).1,
        );
        assert(blocks_selections(indices)[i] == front[i]);
    } else {
        let j = i - front.len();
        assert(blocks_selections(indices)[i] == block_selections(k)[j]);
    }
}

/// The matrix-vector products of the program, and only they, run on the
/// banked weights-as-code kernel, with the kernel bake-off as rationale:
/// every op whose name ends in `.matvec` (each block's up and down
/// projection) gets `V3WeightsAsCodeBanked`, and no other op does.
pub proof fn lemma_matvec_ops_run_on_weights_as_code(program: DenseBigramProgram, plan: KernelPlan)
    requires
        plan.view_selections() == program_selections(program.blocks@),
    ensures
        forall|i: int|
            0 <= i < plan.view_selections().len() ==> {
                let s = #[trigger] plan.view_selections()[i];
                &&& (s.1 == KernelFamily::V3WeightsAsCodeBanked <==> is_matvec_op(s.0))
                &&& (is_matvec_op(s.0) ==> s.2 == MATVEC_RATIONALE@)
            },
{
    reveal_strlit(".matvec");
    reveal_strlit("embed_lookup");
    reveal_strlit("final.norm_quant");
    reveal_strlit("head.tied_matvec");
    reveal_strlit("head.argmax");
    let sel = plan.view_selections();
    let indices = block_indices(program.blocks@);
    let middle = blocks_selections(indices);
    let m = ".matvec"@;
    assert forall|i: int| 0 <= i < sel.len() implies {
        let s = #[trigger] sel[i];
        &&& (s.1 == KernelFamily::V3WeightsAsCodeBanked <==> is_matvec_op(s.0))
        &&& (is_matvec_op(s.0) ==> s.2 == MATVEC_RATIONALE@)
    } by {
        if i == 0 {
            let name = "embed_lookup"@;
            assert(name.subrange(5, 12)[0] != m[0]);
        } else if i <= middle.len() {
            assert(sel[i] == middle[i - 1]);
            lemma_blocks_selection_entries(indices, i - 1);
            let (k, j) = choose|k: nat, j: int| 0 <= j < 6 && #[trigger] middle[i - 1] == (
                block_op_names(k)[j],
                block_op_kernel(j).0,
                block_op_kernel(j).1,
            );
            lemma_block_op_is_matvec(k, j);
        } else if i == middle.len() + 1 {
            let name = "final.norm_quant"@;
            assert(name.subrange(9, 16)[0] != m[0]);
        } else if i == middle.len() + 2 {
            let name = "head.tied_matvec"@;
            assert(name.subrange(9, 16)[0] != m[0]);
        } else {
            let name = "head.argmax"@;
            assert(name.subrange(4, 11)[0] != m[0] || name.subrange(4, 11)[1] != m[1]);
        }
    }
}


/// The kernel family an op runs on, read off its name: the embedding
/// lookup, the tied head and the argmax by name; block and final ops by
/// their tail (a matrix-vector product, a norm-and-quantize, the GELU, the
/// scale epilogue with the residual add, or the plain scale epilogue).
pub open spec fn kernel_for_op_name(op: Seq<char>) -> Option<KernelFamily> {
    if op == "embed_lookup"@ {
        Some(KernelFamily::EmbeddingTableQ11_5Banked)
    } else if op == "head.tied_matvec"@ {
        Some(KernelFamily::TiedHeadLaneMajorI8ProductLut)
    } else if op == "head.argmax"@ {
        Some(KernelFamily::ArgmaxI24LowestIndex)
    } else if ends_with(op, ".matvec"@) {
        Some(KernelFamily::V3WeightsAsCodeBanked)
    } else if ends_with(op, ".norm_quant"@) {
        Some(KernelFamily::IntNormQuantFullVector)
    } else if ends_with(op, ".gelu"@) {
        Some(KernelFamily::GeluLut255)
    } else if ends_with(op, "_residual_add"@) {
        Some(KernelFamily::ScaleEpilogueQ8_8ResidualAdd)
    } else if ends_with(op, ".scale_epilogue"@) {
        Some(KernelFamily::ScaleEpilogueQ8_8)
    } else {
        None
    }
}

proof fn lemma_ends_with_last(s: Seq<char>, suffix: Seq<char>)
    requires
        suffix.len() > 0,
        ends_with(s, suffix),
    ensures
        s.last() == suffix.last(),
{
    assert(s.subrange(s.len() - suffix.len(), s.len() as int)[suffix.len() - 1] == s.last());
}

proof fn lemma_block_op_kernel_by_name(k: nat, j: int)
    requires
        0 <= j < 6,
    ensures
        kernel_for_op_name(block_op_names(k)[j]) == Some(block_op_kernel(j).0),
{
    reveal_strlit("embed_lookup");
    reveal_strlit("head.tied_matvec");
    reveal_strlit("head.argmax");
    reveal_strlit(".matvec");
    reveal_strlit(".norm_quant");
    reveal_strlit(".gelu");
    reveal_strlit("_residual_add");
    reveal_strlit(".scale_epilogue");
    reveal_strlit("block");
    reveal_strlit(".up.matvec");
    reveal_strlit(".up.scale_epilogue");
    reveal_strlit(".down.matvec");
    reveal_strlit(".down.scale_epilogue_residual_add");
    let p = "block"@ + decimal(k);
    let tail = if j == 0 {
        ".norm_quant"@
    } else if j == 1 {
        ".up.matvec"@
    } else if j == 2 {
        ".up.scale_epilogue"@
    } else if j == 3 {
        ".gelu"@
    } else if j == 4 {
        ".down.matvec"@
    } else {
        ".down.scale_epilogue_residual_add"@
    };
    let name = p + tail;
    assert(block_op_names(k)[j] == name);
    assert(name[0] == 'b');
    assert(name.last() == tail.last());
    let sufs = seq![".matvec"@, ".norm_quant"@, ".gelu"@, "_residual_add"@, ".scale_epilogue"@];
    assert forall|q: int| 0 <= q < 5 && ends_with(name, #[trigger] sufs[q]) implies name.last() == sufs[q].last() by {
        lemma_ends_with_last(name, sufs[q]);
    }
    assert(name != "embed_lookup"@ && name != "head.tied_matvec"@ && name != "head.argmax"@) by {
        assert("embed_lookup"@[0] != 'b');
        assert("head.tied_matvec"@[0] != 'b');
        assert("head.argmax"@[0] != 'b');
    }
    if j == 0 {
        lemma_ends_with_concat(p, tail, ".norm_quant"@);
        assert(tail.subrange(0, 11) =~= ".norm_quant"@);
    } else if j == 1 || j == 4 {
        lemma_ends_with_concat(p, tail, ".matvec"@);
        assert(tail.subrange(tail.len() - 7, tail.len() as int) =~= ".matvec"@);
    } else if j == 2 {
        lemma_ends_with_concat(p, tail, ".scale_epilogue"@);
        assert(tail.subrange(tail.len() - 15, tail.len() as int) =~= ".scale_epilogue"@);
    } else if j == 3 {
        lemma_ends_with_concat(p, tail, ".gelu"@);
        assert(tail.subrange(0, 5) =~= ".gelu"@);
    } else {
        lemma_ends_with_concat(p, tail, "_residual_add"@);
        assert(tail.subrange(tail.len() - 13, tail.len() as int) =~= "_residual_add"@);
    }
}

/// Every op of a selected plan runs on the kernel family its name calls
/// for: the lookup, head and argmax by name, and each block or final op by
/// the kind of step its name ends in.
pub proof fn lemma_selection_follows_op_names(program: DenseBigramProgram, plan: KernelPlan)
    requires
        plan.view_selections() == program_selections(program.blocks@),
    ensures
        forall|i: int|
            0 <= i < plan.view_selections().len() ==> kernel_for_op_name((#[trigger] plan.view_selections()[i]).0)
                == Some(plan.view_selections()[i].1),
{
    reveal_strlit("embed_lookup");
    reveal_strlit("final.norm_quant");
    reveal_strlit("head.tied_matvec");
    reveal_strlit("head.argmax");
    reveal_strlit(".matvec");
    reveal_strlit(".norm_quant");
    let sel = plan.view_selections();
    let indices = block_indices(program.blocks@);
    let middle = blocks_selections(indices);
    assert forall|i: int| 0 <= i < sel.len() implies kernel_for_op_name((#[trigger] sel[i]).0) == Some(sel[i].1) by {
        if i == 0 {
        } else if i <= middle.len() {
            assert(sel[i] == middle[i - 1]);
            lemma_blocks_selection_entries(indices, i - 1);
            let (k, j) = choose|k: nat, j: int| 0 <= j < 6 && #[trigger] middle[i - 1] == (
                block_op_names(k)[j],
                block_op_kernel(j).0,
                block_op_kernel(j).1,
            );
            lemma_block_op_kernel_by_name(k, j);
        } else if i == middle.len() + 1 {
            let name = "final.norm_quant"@;
            assert(name != "embed_lookup"@ && name != "head.tied_matvec"@ && name != "head.argmax"@) by {
                assert(name[0] != "head.tied_matvec"@[0]);
                assert(name.len() != "embed_lookup"@.len());
                assert(name.len() != "head.argmax"@.len());
            }
            if ends_with(name, ".matvec"@) {
                lemma_ends_with_last(name, ".matvec"@);
            }
            assert(name.subrange(5, 16) =~= ".norm_quant"@);
        } else if i == middle.len() + 2 {
        } else {
            assert("head.argmax"@ != "head.tied_matvec"@) by {
                assert("head.argmax"@.len() != "head.tied_matvec"@.len());
            }
        }
    }
}

} // verus!
