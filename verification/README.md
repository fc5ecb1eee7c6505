# gbf_codegen

The planning core of a compiler that turns a quantized model into a Game Boy
(DMG, MBC5) ROM, written in Verus. Every function in `src/` carries a
contract, and Verus proves each of them but one: the SHA-256 call into the
`sha2` crate (`bringup::sha256`) is a trusted wrapper, whose contract names
the digest without proving it.

- `quarter_square`: the quarter-square multiply table and the int8 multiply
  built on it.
- `bringup`: the compute bringup request (validation, hashing), its ROM window,
  WRAM arena and tile schedule, the lowered kernel section and the bank-lease
  checks over it, and the model run whose tiles reassemble to the product.
- `overlay_plan`, `arena` (with `arena/layout.rs`): the WRAM overlay plan and
  the arena plan with its fourteen address invariants.
- `budget`: expert payload sizes, placement into ROM banks under a placement
  profile, the common bank, accumulator bounds, memory and switch caps, and
  the static budget stage.
- `lower_infer`, `lower_quant`, `legalize`, `kernel_select`, `compile`: the
  dense-bigram program, its device-contract checks, kernel selection and the
  decisions of the compile path.
- `checkpoint_export`, `state_checkpoint`, `subword`: what the checkpoint
  importers accept (schemas, conventions, digests of the tensor files, the
  declared topology and the order tensors load in) and what the interactive
  subword profile accepts.
- `matmul_asm`: the signed multiply-accumulate subroutine of the bringup
  kernel as a fixed instruction list; `place`: the rows of the placement
  report.
- `text`, `sorting`, `ids`, `policy`, `storage_plan`, `sram_page_plan`:
  shared helpers and the inputs the stages read.

`app/` holds what stays outside the verified library: serde forms, error
messages, the `f32` facts of a lowered model, the hashing of serialized
products, and the reading of checkpoint files from disk. `tests/` exercises the library on concrete values.
