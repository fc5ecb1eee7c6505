//! The decisions of the recurrent state-checkpoint importer: which manifest
//! headers of the dense and the top-1 MoE export schemas are accepted and
//! the topology they declare, the tensor files a checkpoint of that
//! topology is loaded from and in which order, and the checks each loaded
//! file must pass. Every tensor is resolved through the manifest and its
//! SHA-256 checked before model lowering.
//!
//! Reading the files and parsing the manifest JSON happen outside; what is
//! read is handed in as plain values, with `None` for a field that is absent
//! or not of the expected JSON type.

use vstd::prelude::*;
use vstd::string::StringExecFns;
use crate::bringup::sha256_digest;
use crate::checkpoint_export::{digest_matches, lower_hex};
use crate::text::{append, append_decimal, decimal};

verus! {

/// The schema of dense recurrent checkpoints.
pub open spec fn dense_state_schema() -> Seq<char> {
    "f_s5_state_checkpoint_export.v1"@
}

/// The schema of top-1 MoE recurrent checkpoints.
pub open spec fn moe_state_schema() -> Seq<char> {
    "f_s8_moe_state_checkpoint_export.v2"@
}

/// What the importer reads of a state checkpoint's manifest: the
/// schema and git revision (empty where absent), the topology's MoE flag and
/// its dimensions.
#[derive(Clone, Debug, PartialEq, Eq)]
pub struct StateManifest {
    pub schema: String,
    pub git_sha: String,
    pub moe: Option<bool>,
    pub n_experts_per_block: Option<u64>,
    pub vocab: Option<u64>,
    pub d_model: Option<u64>,
    pub d_ff: Option<u64>,
    pub n_blocks: Option<u64>,
    pub state_slots: Option<u64>,
}

/// Whether the logits fit one page of ids or are paged.
#[derive(Clone, Copy, Debug, PartialEq, Eq, Structural)]
pub enum LogitPaging {
    SinglePage,
    Paged,
}

/// The topology of a recurrent checkpoint.
#[derive(Clone, Copy, Debug, PartialEq, Eq, Structural)]
pub struct StateTopology {
    pub d_model: usize,
    pub d_ff: usize,
    pub n_blocks: usize,
    pub state_slots: usize,
    pub vocab: usize,
    pub n_experts: usize,
    pub logit_paging: LogitPaging,
}

/// What an accepted header declares: whether the checkpoint is MoE, and
/// its topology.
#[derive(Clone, Copy, Debug, PartialEq, Eq, Structural)]
pub struct StateHeader {
    pub is_moe: bool,
    pub topology: StateTopology,
}

/// A topology dimension of the manifest.
#[derive(Clone, Copy, Debug, PartialEq, Eq, Structural)]
pub enum StateDimension {
    NExpertsPerBlock,
    Vocab,
    DModel,
    DFf,
    NBlocks,
    StateSlots,
}

/// Why a state checkpoint is refused.
#[derive(Clone, Debug, PartialEq, Eq)]
pub enum StateCheckpointImportError {
    UnexpectedSchema { schema: String },
    MoeFlagDisagrees { schema: String, manifest_is_moe: bool },
    MissingDimension { dimension: StateDimension },
    MissingTensor { name: String },
    MissingTensorFile { name: String },
    ShaMismatch { tensor: String },
    EmbeddingByteLength { byte_len: usize },
    MissingRouterRank { block: usize },
    RouterNotF32Aligned { name: String },
    MissingLayersArray,
}

/// The header a manifest declares, or why it is refused: the schema must be
/// one of the two, the topology's MoE flag must agree with it, and every
/// dimension must be given (the experts per block only for MoE). Vocabularies
/// above `logit_page_ids` are paged.
pub open spec fn state_header(m: StateManifest, logit_page_ids: usize) -> Result<StateHeader, StateCheckpointImportError> {
    let is_moe = m.schema@ == moe_state_schema();
    let manifest_is_moe = m.moe == Some(true);
    if m.schema@ != dense_state_schema() && !is_moe {
        Err(StateCheckpointImportError::UnexpectedSchema { schema: m.schema })
    } else if manifest_is_moe != is_moe {
        Err(StateCheckpointImportError::MoeFlagDisagrees { schema: m.schema, manifest_is_moe })
    } else if is_moe && m.n_experts_per_block is None {
        Err(StateCheckpointImportError::MissingDimension { dimension: StateDimension::NExpertsPerBlock })
    } else if m.vocab is None {
        Err(StateCheckpointImportError::MissingDimension { dimension: StateDimension::Vocab })
    } else if m.d_model is None {
        Err(StateCheckpointImportError::MissingDimension { dimension: StateDimension::DModel })
    } else if m.d_ff is None {
        Err(StateCheckpointImportError::MissingDimension { dimension: StateDimension::DFf })
    } else if m.n_blocks is None {
        Err(StateCheckpointImportError::MissingDimension { dimension: StateDimension::NBlocks })
    } else if m.state_slots is None {
        Err(StateCheckpointImportError::MissingDimension { dimension: StateDimension::StateSlots })
    } else {
        let vocab = m.vocab.unwrap() as usize;
        Ok(
            StateHeader {
                is_moe,
                topology: StateTopology {
                    d_model: m.d_model.unwrap() as usize,
                    d_ff: m.d_ff.unwrap() as usize,
                    n_blocks: m.n_blocks.unwrap() as usize,
                    state_slots: m.state_slots.unwrap() as usize,
                    vocab,
                    n_experts: if is_moe {
                        m.n_experts_per_block.unwrap() as usize
                    } else {
                        1
                    },
                    logit_paging: if vocab > logit_page_ids {
                        LogitPaging::Paged
                    } else {
                        LogitPaging::SinglePage
                    },
                },
            },
        )
    }
}

fn dimension(value: Option<u64>, which: StateDimension) -> (result: Result<usize, StateCheckpointImportError>)
    ensures
        match value {
            Some(n) => result == Ok::<usize, StateCheckpointImportError>(n as usize),
            None => result == Err::<usize, StateCheckpointImportError>(
                StateCheckpointImportError::MissingDimension { dimension: which },
            ),
        },
{
    match value {
        Some(n) => Ok(n as usize),
        None => Err(StateCheckpointImportError::MissingDimension { dimension: which }),
    }
}

/// Checks a state checkpoint's manifest header and returns what it declares.
pub fn check_state_header(m: &StateManifest, logit_page_ids: usize) -> (result: Result<StateHeader, StateCheckpointImportError>)
    ensures
        result == state_header(*m, logit_page_ids),
{
    proof {
        reveal_strlit("f_s5_state_checkpoint_export.v1");
        reveal_strlit("f_s8_moe_state_checkpoint_export.v2");
    }
    let dense = String::from_str("f_s5_state_checkpoint_export.v1");
    let moe = String::from_str("f_s8_moe_state_checkpoint_export.v2");
    let is_moe = m.schema == moe;
    if !is_moe && m.schema != dense {
        return Err(StateCheckpointImportError::UnexpectedSchema { schema: m.schema.clone() });
    }
    let manifest_is_moe = match m.moe {
        Some(flag) => flag,
        None => false,
    };
    if manifest_is_moe != is_moe {
        return Err(StateCheckpointImportError::MoeFlagDisagrees { schema: m.schema.clone(), manifest_is_moe });
    }
    let n_experts = if is_moe {
        dimension(m.n_experts_per_block, StateDimension::NExpertsPerBlock)?
    } else {
        1
    };
    let vocab = dimension(m.vocab, StateDimension::Vocab)?;
    let d_model = dimension(m.d_model, StateDimension::DModel)?;
    let d_ff = dimension(m.d_ff, StateDimension::DFf)?;
    let n_blocks = dimension(m.n_blocks, StateDimension::NBlocks)?;
    let state_slots = dimension(m.state_slots, StateDimension::StateSlots)?;
    let logit_paging = if vocab > logit_page_ids {
        LogitPaging::Paged
    } else {
        LogitPaging::SinglePage
    };
    Ok(
        StateHeader {
            is_moe,
            topology: StateTopology { d_model, d_ff, n_blocks, state_slots, vocab, n_experts, logit_paging },
        },
    )
}

// ------------------------------------------------------------ tensor files

/// The weight and the scale tensor of the ternary layer at `base`.
pub open spec fn ternary_pair(base: Seq<char>) -> Seq<Seq<char>> {
    seq![base + ".ternary"@, base + ".scales"@]
}

/// `block{k}`.
pub open spec fn block_prefix(k: nat) -> Seq<char> {
    "block"@ + decimal(k)
}

/// The tensors of dense block `k`, in load order.
pub open spec fn dense_block_names(k: nat) -> Seq<Seq<char>> {
    ternary_pair(block_prefix(k) + "_up"@) + ternary_pair(block_prefix(k) + "_down"@)
}

/// The tensors of expert `e` of block `k`, in load order.
pub open spec fn expert_names(k: nat, e: nat) -> Seq<Seq<char>> {
    let base = block_prefix(k) + "_expert"@ + decimal(e);
    ternary_pair(base + "_up"@) + ternary_pair(base + "_down"@)
}

/// The tensors of the first `n` experts of block `k`.
pub open spec fn experts_names(k: nat, n: nat) -> Seq<Seq<char>>
    decreases n,
{
    if n == 0 {
        Seq::empty()
    } else {
        experts_names(k, (n - 1) as nat) + expert_names(k, (n - 1) as nat)
    }
}

/// The router tensors of MoE block `k`, in load order.
pub open spec fn router_names(k: nat) -> Seq<Seq<char>> {
    seq![
        block_prefix(k) + "_router_input_projection"@,
        block_prefix(k) + "_router_input_bias"@,
        block_prefix(k) + "_router_expert_projection"@,
        block_prefix(k) + "_router_expert_bias"@,
    ]
}

/// The tensors of block `k`, in load order.
pub open spec fn block_names(t: StateTopology, is_moe: bool, k: nat) -> Seq<Seq<char>> {
    if is_moe {
        router_names(k) + experts_names(k, t.n_experts as nat)
    } else {
        dense_block_names(k)
    }
}

/// The tensors of the first `n` blocks.
pub open spec fn blocks_names(t: StateTopology, is_moe: bool, n: nat) -> Seq<Seq<char>>
    decreases n,
{
    if n == 0 {
        Seq::empty()
    } else {
        blocks_names(t, is_moe, (n - 1) as nat) + block_names(t, is_moe, (n - 1) as nat)
    }
}

/// Every tensor a checkpoint of `header` is loaded from, in load order: the
/// embedding, the state decay, the state input and output layers, then each
/// block.
pub open spec fn state_tensor_names(header: StateHeader) -> Seq<Seq<char>> {
    seq!["embedding"@, "state_decay"@] + ternary_pair("state_input_to_state"@) + ternary_pair(
        "state_state_to_output"@,
    ) + blocks_names(header.topology, header.is_moe, header.topology.n_blocks as nat)
}

/// The texts of `names`.
pub open spec fn texts(names: Seq<String>) -> Seq<Seq<char>> {
    names.map_values(|name: String| name@)
}

proof fn lemma_texts_push(names: Seq<String>, name: String)
    ensures
        texts(names.push(name)) == texts(names).push(name@),
{
    assert(texts(names.push(name)) =~= texts(names).push(name@));
}

fn push_pair(names: &mut Vec<String>, base: &String)
    ensures
        texts(final(names)@) == texts(old(names)@) + ternary_pair(base@),
{
    proof {
        reveal_strlit(".ternary");
        reveal_strlit(".scales");
    }
    let ghost start = names@;
    let weight = append(base.clone(), ".ternary");
    let scale = append(base.clone(), ".scales");
    proof {
        lemma_texts_push(names@, weight);
        lemma_texts_push(names@.push(weight), scale);
    }
    names.push(weight);
    names.push(scale);
    assert(texts(names@) =~= texts(start) + ternary_pair(base@));
}

fn block_base(k: usize) -> (base: String)
    ensures
        base@ == block_prefix(k as nat),
{
    proof {
        reveal_strlit("block");
    }
    append_decimal(String::from_str("block"), k as u64)
}

fn push_named(names: &mut Vec<String>, base: &String, tail: &str)
    ensures
        texts(final(names)@) == texts(old(names)@).push(base@ + tail@),
{
    let name = append(base.clone(), tail);
    proof {
        lemma_texts_push(names@, name);
    }
    names.push(name);
}

fn push_dense_block(names: &mut Vec<String>, k: usize)
    ensures
        texts(final(names)@) == texts(old(names)@) + dense_block_names(k as nat),
{
    proof {
        reveal_strlit("_up");
        reveal_strlit("_down");
    }
    let ghost start = texts(names@);
    let base = block_base(k);
    let up = append(base.clone(), "_up");
    let down = append(base, "_down");
    push_pair(names, &up);
    push_pair(names, &down);
    assert(texts(names@) =~= start + dense_block_names(k as nat));
}

fn push_expert(names: &mut Vec<String>, k: usize, e: usize)
    ensures
        texts(final(names)@) == texts(old(names)@) + expert_names(k as nat, e as nat),
{
    proof {
        reveal_strlit("_expert");
        reveal_strlit("_up");
        reveal_strlit("_down");
    }
    let ghost start = texts(names@);
    let base = append_decimal(append(block_base(k), "_expert"), e as u64);
    let up = append(base.clone(), "_up");
    let down = append(base, "_down");
    push_pair(names, &up);
    push_pair(names, &down);
    assert(texts(names@) =~= start + expert_names(k as nat, e as nat));
}

fn push_moe_block(names: &mut Vec<String>, k: usize, n_experts: usize)
    ensures
        texts(final(names)@) == texts(old(names)@) + router_names(k as nat) + experts_names(k as nat, n_experts as nat),
{
    proof {
        reveal_strlit("_router_input_projection");
        reveal_strlit("_router_input_bias");
        reveal_strlit("_router_expert_projection");
        reveal_strlit("_router_expert_bias");
    }
    let ghost start = texts(names@);
    let base = block_base(k);
    push_named(names, &base, "_router_input_projection");
    push_named(names, &base, "_router_input_bias");
    push_named(names, &base, "_router_expert_projection");
    push_named(names, &base, "_router_expert_bias");
    assert(texts(names@) =~= start + router_names(k as nat));
    let ghost routed = texts(names@);
    let mut e: usize = 0;
    while e < n_experts
        invariant
            e <= n_experts,
            texts(names@) == routed + experts_names(k as nat, e as nat),
            routed == start + router_names(k as nat),
        decreases n_experts - e,
    {
        push_expert(names, k, e);
        proof {
            assert(experts_names(k as nat, (e + 1) as nat) == experts_names(k as nat, e as nat) + expert_names(
                k as nat,
                e as nat,
            ));
            assert(texts(names@) =~= routed + experts_names(k as nat, (e + 1) as nat));
        }
        e = e + 1;
    }
}

/// The names of the tensor files a checkpoint of `header` is loaded from,
/// in the order the importer loads them.
pub fn state_tensor_plan(header: &StateHeader) -> (names: Vec<String>)
    ensures
        texts(names@) == state_tensor_names(*header),
{
    proof {
        reveal_strlit("embedding");
        reveal_strlit("state_decay");
        reveal_strlit("state_input_to_state");
        reveal_strlit("state_state_to_output");
    }
    let mut names: Vec<String> = Vec::new();
    let embedding = String::from_str("embedding");
    let decay = String::from_str("state_decay");
    proof {
        lemma_texts_push(names@, embedding);
        lemma_texts_push(names@.push(embedding), decay);
    }
    names.push(embedding);
    names.push(decay);
    push_pair(&mut names, &String::from_str("state_input_to_state"));
    push_pair(&mut names, &String::from_str("state_state_to_output"));
    let ghost head = texts(names@);
    assert(head =~= seq!["embedding"@, "state_decay"@] + ternary_pair("state_input_to_state"@) + ternary_pair(
        "state_state_to_output"@,
    ));
    let t = header.topology;
    let mut k: usize = 0;
    while k < t.n_blocks
        invariant
            k <= t.n_blocks,
            t == header.topology,
            texts(names@) == head + blocks_names(t, header.is_moe, k as nat),
        decreases t.n_blocks - k,
    {
        let ghost before = texts(names@);
        if header.is_moe {
            push_moe_block(&mut names, k, t.n_experts);
        } else {
            push_dense_block(&mut names, k);
        }
        proof {
            assert(texts(names@) =~= before + block_names(t, header.is_moe, k as nat));
            assert(blocks_names(t, header.is_moe, (k + 1) as nat) == blocks_names(t, header.is_moe, k as nat)
                + block_names(t, header.is_moe, k as nat));
            assert(texts(names@) =~= head + blocks_names(t, header.is_moe, (k + 1) as nat));
        }
        k = k + 1;
    }
    names
}

/// One entry of the manifest's tensor list: its name and file, where given,
/// and the digest it pins (empty where absent).
#[derive(Clone, Debug, PartialEq, Eq)]
pub struct StateManifestTensor {
    pub name: Option<String>,
    pub file: Option<String>,
    pub sha256: String,
}

/// The first entry named `name`, from position `i` on, or -1.
pub open spec fn state_entry_from(entries: Seq<StateManifestTensor>, name: Seq<char>, i: int) -> int
    decreases entries.len() - i,
{
    if i < 0 || i >= entries.len() {
        -1
    } else if entries[i].name matches Some(n) && n@ == name {
        i
    } else {
        state_entry_from(entries, name, i + 1)
    }
}

/// Resolves tensor `name` through the manifest: the first entry of that
/// name, which must give a file.
pub fn resolve_state_tensor(entries: &Vec<StateManifestTensor>, name: &String) -> (result: Result<usize, StateCheckpointImportError>)
    ensures
        ({
            let i = state_entry_from(entries@, name@, 0);
            if i < 0 {
                result == Err::<usize, StateCheckpointImportError>(StateCheckpointImportError::MissingTensor { name: *name })
            } else if entries@[i].file is None {
                result == Err::<usize, StateCheckpointImportError>(
                    StateCheckpointImportError::MissingTensorFile { name: *name },
                )
            } else {
                result == Ok::<usize, StateCheckpointImportError>(i as usize)
            }
        }),
{
    let mut i: usize = 0;
    while i < entries.len()
        invariant
            i <= entries@.len(),
            state_entry_from(entries@, name@, 0) == state_entry_from(entries@, name@, i as int),
        decreases entries@.len() - i,
    {
        let hit = match &entries[i].name {
            Some(n) => *n == *name,
            None => false,
        };
        if hit {
            if entries[i].file.is_none() {
                return Err(StateCheckpointImportError::MissingTensorFile { name: name.clone() });
            }
            return Ok(i);
        }
        i = i + 1;
    }
    Err(StateCheckpointImportError::MissingTensor { name: name.clone() })
}

/// Checks a loaded tensor file against the digest its entry pins.
pub fn check_state_tensor_digest(name: &String, bytes: &[u8], expected: &String) -> (result: Result<(), StateCheckpointImportError>)
    ensures
        result == if lower_hex(sha256_digest(bytes@)) == expected@ {
            Ok::<(), StateCheckpointImportError>(())
        } else {
            Err::<(), StateCheckpointImportError>(StateCheckpointImportError::ShaMismatch { tensor: *name })
        },
{
    if digest_matches(bytes, expected) {
        Ok(())
    } else {
        Err(StateCheckpointImportError::ShaMismatch { tensor: name.clone() })
    }
}

/// Checks the embedding file's length: `vocab * d_model` little-endian
/// `f32` values.
pub fn check_embedding_bytes(t: &StateTopology, byte_len: usize) -> (result: Result<(), StateCheckpointImportError>)
    ensures
        result == if byte_len == t.vocab * t.d_model * 4 {
            Ok::<(), StateCheckpointImportError>(())
        } else {
            Err::<(), StateCheckpointImportError>(StateCheckpointImportError::EmbeddingByteLength { byte_len })
        },
{
    let fits = match t.vocab.checked_mul(t.d_model) {
        None => false,
        Some(cells) => match cells.checked_mul(4) {
            None => false,
            Some(bytes) => bytes == byte_len,
        },
    };
    if fits {
        Ok(())
    } else {
        Err(StateCheckpointImportError::EmbeddingByteLength { byte_len })
    }
}

/// The router rank the manifest gives MoE block `k`, if its layer list has
/// one.
pub fn router_rank(ranks: &Vec<Option<u64>>, k: usize) -> (result: Result<usize, StateCheckpointImportError>)
    ensures
        result == if k < ranks@.len() && ranks@[k as int] is Some {
            Ok::<usize, StateCheckpointImportError>(ranks@[k as int].unwrap() as usize)
        } else {
            Err::<usize, StateCheckpointImportError>(StateCheckpointImportError::MissingRouterRank { block: k })
        },
{
    if k < ranks.len() {
        if let Some(rank) = ranks[k] {
            return Ok(rank as usize);
        }
    }
    Err(StateCheckpointImportError::MissingRouterRank { block: k })
}

/// Checks that a router tensor file holds whole `f32` values.
pub fn check_router_bytes(name: &String, byte_len: usize) -> (result: Result<(), StateCheckpointImportError>)
    ensures
        result == if byte_len % 4 == 0 {
            Ok::<(), StateCheckpointImportError>(())
        } else {
            Err::<(), StateCheckpointImportError>(StateCheckpointImportError::RouterNotF32Aligned { name: *name })
        },
{
    if byte_len % 4 == 0 {
        Ok(())
    } else {
        Err(StateCheckpointImportError::RouterNotF32Aligned { name: name.clone() })
    }
}


// ------------------------------------------------------------ load steps

/// What a tensor of the load plan is, as far as the checks around its load
/// depend on it.
#[derive(Clone, Copy, Debug, PartialEq, Eq, Structural)]
pub enum StateTensorRole {
    Embedding,
    StateDecay,
    StateLayer,
    /// The first router tensor of MoE block `block`, before which the
    /// block's router rank is read.
    RouterInputProjection { block: usize },
    Router,
    Weight,
}

pub open spec fn repeat_role(role: StateTensorRole, n: nat) -> Seq<StateTensorRole> {
    Seq::new(n, |i: int| role)
}

/// The roles of the first `n` experts of a block.
pub open spec fn experts_roles(n: nat) -> Seq<StateTensorRole>
    decreases n,
{
    if n == 0 {
        Seq::empty()
    } else {
        experts_roles((n - 1) as nat) + repeat_role(StateTensorRole::Weight, 4)
    }
}

/// The roles of block `k`'s tensors, in load order.
pub open spec fn block_roles(t: StateTopology, is_moe: bool, k: nat) -> Seq<StateTensorRole> {
    if is_moe {
        seq![StateTensorRole::RouterInputProjection { block: k as usize }] + repeat_role(StateTensorRole::Router, 3)
            + experts_roles(t.n_experts as nat)
    } else {
        repeat_role(StateTensorRole::Weight, 4)
    }
}

/// The roles of the first `n` blocks' tensors.
pub open spec fn blocks_roles(t: StateTopology, is_moe: bool, n: nat) -> Seq<StateTensorRole>
    decreases n,
{
    if n == 0 {
        Seq::empty()
    } else {
        blocks_roles(t, is_moe, (n - 1) as nat) + block_roles(t, is_moe, (n - 1) as nat)
    }
}

/// The role of each tensor of `state_tensor_names(header)`, position by
/// position.
pub open spec fn state_tensor_roles(header: StateHeader) -> Seq<StateTensorRole> {
    seq![StateTensorRole::Embedding, StateTensorRole::StateDecay] + repeat_role(StateTensorRole::StateLayer, 4)
        + blocks_roles(header.topology, header.is_moe, header.topology.n_blocks as nat)
}

proof fn lemma_experts_lengths(k: nat, n: nat)
    ensures
        experts_roles(n).len() == experts_names(k, n).len(),
    decreases n,
{
    if n > 0 {
        lemma_experts_lengths(k, (n - 1) as nat);
    }
}

proof fn lemma_blocks_lengths(t: StateTopology, is_moe: bool, n: nat)
    ensures
        blocks_roles(t, is_moe, n).len() == blocks_names(t, is_moe, n).len(),
    decreases n,
{
    if n > 0 {
        lemma_blocks_lengths(t, is_moe, (n - 1) as nat);
        lemma_experts_lengths((n - 1) as nat, t.n_experts as nat);
    }
}

fn push_roles(roles: &mut Vec<StateTensorRole>, role: StateTensorRole, n: usize)
    ensures
        final(roles)@ == old(roles)@ + repeat_role(role, n as nat),
{
    let mut i: usize = 0;
    while i < n
        invariant
            i <= n,
            roles@ == old(roles)@ + repeat_role(role, i as nat),
        decreases n - i,
    {
        roles.push(role);
        proof {
            assert(repeat_role(role, (i + 1) as nat) =~= repeat_role(role, i as nat).push(role));
        }
        i = i + 1;
    }
}

/// The role of each tensor of the load plan, in the same order as
/// `state_tensor_plan`'s names.
pub fn state_tensor_role_plan(header: &StateHeader) -> (roles: Vec<StateTensorRole>)
    ensures
        roles@ == state_tensor_roles(*header),
        roles@.len() == state_tensor_names(*header).len(),
{
    let mut roles: Vec<StateTensorRole> = Vec::new();
    roles.push(StateTensorRole::Embedding);
    roles.push(StateTensorRole::StateDecay);
    push_roles(&mut roles, StateTensorRole::StateLayer, 4);
    let ghost head = roles@;
    let t = header.topology;
    let mut k: usize = 0;
    while k < t.n_blocks
        invariant
            k <= t.n_blocks,
            t == header.topology,
            roles@ == head + blocks_roles(t, header.is_moe, k as nat),
        decreases t.n_blocks - k,
    {
        let ghost before = roles@;
        if header.is_moe {
            roles.push(StateTensorRole::RouterInputProjection { block: k });
            push_roles(&mut roles, StateTensorRole::Router, 3);
            let ghost routed = roles@;
            let mut e: usize = 0;
            while e < t.n_experts
                invariant
                    e <= t.n_experts,
                    roles@ == routed + experts_roles(e as nat),
                decreases t.n_experts - e,
            {
                push_roles(&mut roles, StateTensorRole::Weight, 4);
                proof {
                    assert(roles@ =~= routed + experts_roles((e + 1) as nat));
                }
                e = e + 1;
            }
            assert(roles@ =~= before + block_roles(t, header.is_moe, k as nat));
        } else {
            push_roles(&mut roles, StateTensorRole::Weight, 4);
        }
        proof {
            assert(roles@ =~= head + blocks_roles(t, header.is_moe, (k + 1) as nat));
        }
        k = k + 1;
    }
    proof {
        assert(roles@ =~= state_tensor_roles(*header));
        lemma_blocks_lengths(t, header.is_moe, t.n_blocks as nat);
    }
    roles
}

/// What is checked before a tensor's file is loaded: before a MoE block's
/// router tensors, the manifest's layer list must give the block's router
/// rank, which is returned. `ranks` is each listed layer's rank, or `None`
/// where the manifest has no layer list.
pub fn check_before_load(ranks: &Option<Vec<Option<u64>>>, role: StateTensorRole) -> (result: Result<Option<usize>, StateCheckpointImportError>)
    ensures
        result == match role {
            StateTensorRole::RouterInputProjection { block } => match ranks {
                None => Err::<Option<usize>, StateCheckpointImportError>(StateCheckpointImportError::MissingLayersArray),
                Some(r) => if block < r@.len() && r@[block as int] is Some {
                    Ok::<Option<usize>, StateCheckpointImportError>(Some(r@[block as int].unwrap() as usize))
                } else {
                    Err::<Option<usize>, StateCheckpointImportError>(
                        StateCheckpointImportError::MissingRouterRank { block },
                    )
                },
            },
            _ => Ok::<Option<usize>, StateCheckpointImportError>(None),
        },
{
    match role {
        StateTensorRole::RouterInputProjection { block } => match ranks {
            None => Err(StateCheckpointImportError::MissingLayersArray),
            Some(r) => match router_rank(r, block) {
                Ok(rank) => Ok(Some(rank)),
                Err(error) => Err(error),
            },
        },
        _ => Ok(None),
    }
}

/// What is checked once a tensor's file of `byte_len` bytes is loaded and
/// its digest checked: the embedding's length, and that a router tensor
/// holds whole `f32` values.
pub fn check_after_load(header: &StateHeader, name: &String, role: StateTensorRole, byte_len: usize) -> (result: Result<(), StateCheckpointImportError>)
    ensures
        result == match role {
            StateTensorRole::Embedding => if byte_len == header.topology.vocab * header.topology.d_model * 4 {
                Ok::<(), StateCheckpointImportError>(())
            } else {
                Err::<(), StateCheckpointImportError>(StateCheckpointImportError::EmbeddingByteLength { byte_len })
            },
            StateTensorRole::RouterInputProjection { .. } | StateTensorRole::Router => if byte_len % 4 == 0 {
                Ok::<(), StateCheckpointImportError>(())
            } else {
                Err::<(), StateCheckpointImportError>(StateCheckpointImportError::RouterNotF32Aligned { name: *name })
            },
            _ => Ok::<(), StateCheckpointImportError>(()),
        },
{
    match role {
        StateTensorRole::Embedding => check_embedding_bytes(&header.topology, byte_len),
        StateTensorRole::RouterInputProjection { .. } => check_router_bytes(name, byte_len),
        StateTensorRole::Router => check_router_bytes(name, byte_len),
        _ => Ok(()),
    }
}

/// What is checked once every tensor is loaded: a MoE checkpoint's manifest
/// must have a layer list even when it declares no blocks.
pub fn check_plan_finished(header: &StateHeader, has_layer_list: bool) -> (result: Result<(), StateCheckpointImportError>)
    ensures
        result == if header.is_moe && !has_layer_list {
            Err::<(), StateCheckpointImportError>(StateCheckpointImportError::MissingLayersArray)
        } else {
            Ok::<(), StateCheckpointImportError>(())
        },
{
    if header.is_moe && !has_layer_list {
        Err(StateCheckpointImportError::MissingLayersArray)
    } else {
        Ok(())
    }
}

} // verus!
