//! Verified planning core of the Game Boy codegen pipeline: the F-B1 compute
//! bringup request, its quarter-square multiply kernel and its signed
//! multiply-accumulate subroutine; the checks of the checkpoint importers;
//! arena and overlay planning; the static ROM budget; and the decisions of
//! the compile path from the typed model program to its kernel plan.

pub mod quarter_square;
pub mod sorting;
pub mod text;
pub mod ids;
pub mod policy;
pub mod storage_plan;
pub mod sram_page_plan;
pub mod overlay_plan;
pub mod arena;
pub mod bringup;
pub mod budget;
pub mod lower_infer;
pub mod kernel_select;
pub mod lower_quant;
pub mod legalize;
pub mod compile;
pub mod place;
pub mod checkpoint_export;
pub mod state_checkpoint;
pub mod matmul_asm;
pub mod subword;
