//! The decisions of the compile path between import and the ROM backend:
//! the token count is checked, the lowered model is legalized, kernels are
//! selected, and the plan is checked against the families the backend
//! implements.

use vstd::prelude::*;
use crate::kernel_select::{
    first_kernel_for, lemma_every_op_has_a_kernel, program_selections, select_kernels,
    KernelFamily, KernelPlan,
};
use crate::legalize::{
    checks_view, failed_checks, legality_checks, legalize, legalize_in_range, LegalizationReport,
    LegalizeError,
};
use crate::lower_infer::{program_op_names, DenseBigramProgram};
use crate::lower_quant::QuantLoweredModel;

verus! {

/// Build-report schema identifier.
pub const BUILD_REPORT_SCHEMA: &'static str = "gbf_compile_build_report.v1";

/// Largest number of on-device generation steps the token ring holds.
pub const MAX_N_TOKENS: u16 = 256;

/// Compilation options.
#[derive(Clone, Copy, Debug, PartialEq, Eq, Structural)]
pub struct CompileOptions {
    /// On-device generation steps compiled into the ROM loop (1..=256).
    pub n_tokens: u16,
}

impl Default for CompileOptions {
    fn default() -> (options: CompileOptions)
        ensures
            options.n_tokens == MAX_N_TOKENS,
    {
        CompileOptions { n_tokens: MAX_N_TOKENS }
    }
}

/// The shape facts of the compiled program, as the build report records
/// them.
#[derive(Clone, Debug, PartialEq, Eq)]
pub struct ProgramFacts {
    pub d_model: usize,
    pub d_ff: usize,
    pub n_blocks: usize,
    pub vocab: usize,
    pub ops: Vec<String>,
    pub weight_zero_permille: u32,
    pub max_scale_raw: u16,
}

/// Why the compile path stops between import and the ROM backend.
#[derive(Clone, Debug, PartialEq, Eq)]
pub enum CompileError {
    Legalize(LegalizeError),
    /// Kernel selection chose a family the ROM backend does not implement,
    /// or left an op without one.
    UnsupportedKernelSelection { op: String, kernel: String },
    BadTokenCount { n_tokens: u16 },
}

/// What the compile path decided for a program: its legality report, its
/// kernel plan and its facts.
#[derive(Clone, Debug, PartialEq, Eq)]
pub struct CompilePlan {
    pub legalization: LegalizationReport,
    pub kernel_plan: KernelPlan,
    pub program: ProgramFacts,
}

/// The backend implements `kernel`.
pub open spec fn kernel_supported(kernel: KernelFamily) -> bool {
    match kernel {
        KernelFamily::V3WeightsAsCodeBanked => true,
        KernelFamily::EmbeddingTableQ11_5Banked => true,
        KernelFamily::IntNormQuantFullVector => true,
        KernelFamily::ScaleEpilogueQ8_8 => true,
        KernelFamily::GeluLut255 => true,
        KernelFamily::ScaleEpilogueQ8_8ResidualAdd => true,
        KernelFamily::TiedHeadLaneMajorI8ProductLut => true,
        KernelFamily::ArgmaxI24LowestIndex => true,
    }
}

/// The plan names only supported families and gives every op of the
/// program a kernel.
pub open spec fn plan_supported(program: DenseBigramProgram, plan: KernelPlan) -> bool {
    &&& forall|i: int| 0 <= i < plan.selections@.len() ==> kernel_supported(#[trigger] plan.selections@[i].kernel)
    &&& forall|i: int|
        0 <= i < program_op_names(program.blocks@).len() ==> first_kernel_for(
            plan.view_selections(),
            #[trigger] program_op_names(program.blocks@)[i],
        ) is Some
}

fn kernel_supported_exec(kernel: KernelFamily) -> (supported: bool)
    ensures
        supported == kernel_supported(kernel),
{
    match kernel {
        KernelFamily::V3WeightsAsCodeBanked => true,
        KernelFamily::EmbeddingTableQ11_5Banked => true,
        KernelFamily::IntNormQuantFullVector => true,
        KernelFamily::ScaleEpilogueQ8_8 => true,
        KernelFamily::GeluLut255 => true,
        KernelFamily::ScaleEpilogueQ8_8ResidualAdd => true,
        KernelFamily::TiedHeadLaneMajorI8ProductLut => true,
        KernelFamily::ArgmaxI24LowestIndex => true,
    }
}

/// The name `Debug` gives `kernel`.
pub open spec fn kernel_family_name(kernel: KernelFamily) -> Seq<char> {
    match kernel {
        KernelFamily::V3WeightsAsCodeBanked => "V3WeightsAsCodeBanked"@,
        KernelFamily::EmbeddingTableQ11_5Banked => "EmbeddingTableQ11_5Banked"@,
        KernelFamily::IntNormQuantFullVector => "IntNormQuantFullVector"@,
        KernelFamily::ScaleEpilogueQ8_8 => "ScaleEpilogueQ8_8"@,
        KernelFamily::GeluLut255 => "GeluLut255"@,
        KernelFamily::ScaleEpilogueQ8_8ResidualAdd => "ScaleEpilogueQ8_8ResidualAdd"@,
        KernelFamily::TiedHeadLaneMajorI8ProductLut => "TiedHeadLaneMajorI8ProductLut"@,
        KernelFamily::ArgmaxI24LowestIndex => "ArgmaxI24LowestIndex"@,
    }
}

fn kernel_name(kernel: KernelFamily) -> (name: String)
    ensures
        name@ == kernel_family_name(kernel),
{
    match kernel {
        KernelFamily::V3WeightsAsCodeBanked => "V3WeightsAsCodeBanked".to_owned(),
        KernelFamily::EmbeddingTableQ11_5Banked => "EmbeddingTableQ11_5Banked".to_owned(),
        KernelFamily::IntNormQuantFullVector => "IntNormQuantFullVector".to_owned(),
        KernelFamily::ScaleEpilogueQ8_8 => "ScaleEpilogueQ8_8".to_owned(),
        KernelFamily::GeluLut255 => "GeluLut255".to_owned(),
        KernelFamily::ScaleEpilogueQ8_8ResidualAdd => "ScaleEpilogueQ8_8ResidualAdd".to_owned(),
        KernelFamily::TiedHeadLaneMajorI8ProductLut => "TiedHeadLaneMajorI8ProductLut".to_owned(),
        KernelFamily::ArgmaxI24LowestIndex => "ArgmaxI24LowestIndex".to_owned(),
    }
}

/// Checks that the plan only names families the backend implements, and
/// that every op of the program has a kernel.
pub fn check_plan_supported(program: &DenseBigramProgram, plan: &KernelPlan) -> (result: Result<(), CompileError>)
    ensures
        result is Ok <==> plan_supported(*program, *plan),
        result matches Err(e) ==> e is UnsupportedKernelSelection,
        result matches Err(CompileError::UnsupportedKernelSelection { op, kernel }) ==> {
            let names = program_op_names(program.blocks@);
            &&& kernel@ == "<none>"@
            &&& exists|k: int|
                0 <= k < names.len() && op@ == names[k] && first_kernel_for(plan.view_selections(), #[trigger] names[k]) is None
                    && forall|j: int| 0 <= j < k ==> first_kernel_for(plan.view_selections(), #[trigger] names[j]) is Some
        },
{
    let mut i: usize = 0;
    while i < plan.selections.len()
        invariant
            i <= plan.selections@.len(),
            forall|j: int| 0 <= j < i ==> kernel_supported(#[trigger] plan.selections@[j].kernel),
        decreases plan.selections@.len() - i,
    {
        let selection = &plan.selections[i];
        if !kernel_supported_exec(selection.kernel) {
            return Err(
                CompileError::UnsupportedKernelSelection {
                    op: selection.op.clone(),
                    kernel: kernel_name(selection.kernel),
                },
            );
        }
        i = i + 1;
    }
    let ops = program.op_names();
    let ghost names = program_op_names(program.blocks@);
    let mut k: usize = 0;
    while k < ops.len()
        invariant
            k <= ops@.len(),
            ops@.map_values(|s: String| s@) == names,
            names == program_op_names(program.blocks@),
            forall|j: int| 0 <= j < k ==> first_kernel_for(plan.view_selections(), #[trigger] names[j]) is Some,
        decreases ops@.len() - k,
    {
        proof {
            assert(ops@.map_values(|s: String| s@)[k as int] == ops@[k as int]@);
        }
        if plan.kernel_for(ops[k].as_str()).is_none() {
            assert(first_kernel_for(plan.view_selections(), program_op_names(program.blocks@)[k as int]) is None);
            assert(k < program_op_names(program.blocks@).len());
            let op = ops[k].clone();
            proof {
                assert(op@ == names[k as int]);
            }
            return Err(CompileError::UnsupportedKernelSelection { op, kernel: "<none>".to_owned() });
        }
        k = k + 1;
    }
    Ok(())
}

/// The plan that kernel selection makes always passes the backend check.
pub proof fn lemma_selected_plan_is_supported(program: DenseBigramProgram, plan: KernelPlan)
    requires
        plan.view_selections() == program_selections(program.blocks@),
    ensures
        plan_supported(program, plan),
{
    lemma_every_op_has_a_kernel(program, plan);
}

/// The facts of `program` for the build report.
pub open spec fn program_facts_match(facts: ProgramFacts, program: DenseBigramProgram, lowered: QuantLoweredModel) -> bool {
    &&& facts.d_model == program.d_model
    &&& facts.d_ff == program.d_ff
    &&& facts.n_blocks == program.blocks@.len()
    &&& facts.vocab == program.vocab
    &&& facts.ops@.map_values(|s: String| s@) == program_op_names(program.blocks@)
    &&& facts.weight_zero_permille == lowered.weight_zero_permille
    &&& facts.max_scale_raw == lowered.max_scale_raw
}

/// The token count is within the ring capacity `1..=256`.
pub open spec fn token_count_ok(options: CompileOptions) -> bool {
    1 <= options.n_tokens <= MAX_N_TOKENS
}

/// The compile path's decisions for a lowered program: the token count is
/// checked first, then legality, then kernel selection and the backend
/// check, which never fails for the plan that selection makes.
pub fn plan_compile(
    program: &DenseBigramProgram,
    lowered: &QuantLoweredModel,
    options: &CompileOptions,
) -> (result: Result<CompilePlan, CompileError>)
    requires
        token_count_ok(*options) ==> legalize_in_range(*program, *lowered),
    ensures
        !token_count_ok(*options) ==> result == Err::<CompilePlan, CompileError>(
            CompileError::BadTokenCount { n_tokens: options.n_tokens },
        ),
        token_count_ok(*options) ==> (result is Ok <==> forall|i: int|
            0 <= i < 6 ==> (#[trigger] legality_checks(*program, *lowered)[i]).3),
        token_count_ok(*options) ==> (result matches Err(e) ==> e matches CompileError::Legalize(l)
            && checks_view(l.failed@) == failed_checks(legality_checks(*program, *lowered))),
        result matches Ok(p) ==> {
            &&& checks_view(p.legalization.checks@) == legality_checks(*program, *lowered)
            &&& p.kernel_plan.view_selections() == program_selections(program.blocks@)
            &&& program_facts_match(p.program, *program, *lowered)
        },
{
    if options.n_tokens == 0 || options.n_tokens > MAX_N_TOKENS {
        return Err(CompileError::BadTokenCount { n_tokens: options.n_tokens });
    }
    let legalization = match legalize(program, lowered) {
        Ok(report) => report,
        Err(e) => {
            return Err(CompileError::Legalize(e));
        },
    };
    let plan = select_kernels(program);
    proof {
        lemma_selected_plan_is_supported(*program, plan);
    }
    let checked = check_plan_supported(program, &plan);
    assert(checked is Ok);
    let facts = ProgramFacts {
        d_model: program.d_model,
        d_ff: program.d_ff,
        n_blocks: program.blocks.len(),
        vocab: program.vocab,
        ops: program.op_names(),
        weight_zero_permille: lowered.weight_zero_permille,
        max_scale_raw: lowered.max_scale_raw,
    };
    Ok(CompilePlan { legalization, kernel_plan: plan, program: facts })
}

} // verus!
