//! Construction of the arena plan: the overlay regions first, then the
//! runtime HRAM cells, the persistent page pairs and the materialized values,
//! each arena laid out slot by slot and placed in its memory.

use vstd::prelude::*;
use crate::arena::{
    address_invariants_hold, all_slots_with_arena, arena_input_products, arena_input_products_exec,
    arena_list, flat_slots, named_arena_key, named_key, validate_address_invariants, ArenaAddressInvariants,
    ArenaBacking, ArenaBindings, ArenaCertBody, ArenaId, ArenaInstance, ArenaPersistentGeometryWitness,
    ArenaPersistentPageWitness, ArenaPlan, ArenaPlanBindingInput, ArenaPlanDiagnostic, ArenaPlanDiagnosticCode,
    ArenaPlanDiagnosticProvenance, ArenaPlanInputHashes, ArenaPlanInputProduct, ArenaPlanInputs,
    ArenaPlanOutcome, ArenaPlanOutput, ArenaPlanResult, ArenaPlanSummary, ArenaPolicyField,
    ArenaRule, ArenaSlot, ArenaSlotId, ArenaZerofillPolicy, ByteRange, MaterializeSlotBinding, NamedArena,
    OverlayArenaBinding, OverlayReservationHonor, OverlayReservationHonorEntry,
    PersistSlotPairBinding, RuntimeFixedKind, SlotBindingKind, SlotBindingRef,
};
use crate::ids::{AliasClassId, CommitGroupId, Hash256, PageId, PersistPageId, SequenceStreamId, ValueId};
use crate::overlay_plan::{
    find_first_word, first_contained, mentions_repair, section_role_words, section_role_words_exec,
    OverlayId, OverlayRegion, OverlayReservationEntry, OverlayResident,
};
use crate::text::str_contains;
use crate::sorting::{lemma_sort_by_key_rekey, rekey, sort_by_key, stable_sort_by_key};
use crate::sram_page_plan::{PersistentPageGeometry, SramPageBinding};
use crate::storage_plan::{LifetimeClass, Materialization, StorageClass};

verus! {

/// The pass version that the arena certificate records.
pub const ARENA_CERT_PASS_VERSION: &'static str = "arena.cert/stage9/v1";

// ------------------------------------------------------------ preflight

/// The diagnostic for a product whose recorded hash differs from the one
/// computed.
pub open spec fn arena_hash_mismatch(
    product: ArenaPlanInputProduct,
    recorded: Hash256,
    computed: Hash256,
) -> ArenaPlanDiagnostic {
    ArenaPlanDiagnostic {
        code: ArenaPlanDiagnosticCode::ArenaInputHashMismatch,
        provenance: ArenaPlanDiagnosticProvenance::HashMismatch { product, recorded, computed },
    }
}

/// One diagnostic per product, in product order, whose recorded and expected
/// hashes differ.
pub open spec fn arena_hash_mismatches(
    products: Seq<ArenaPlanInputProduct>,
    recorded: ArenaPlanInputHashes,
    expected: ArenaPlanInputHashes,
) -> Seq<ArenaPlanDiagnostic>
    decreases products.len(),
{
    if products.len() == 0 {
        Seq::empty()
    } else {
        let p = products.last();
        let earlier = arena_hash_mismatches(products.drop_last(), recorded, expected);
        if recorded.spec_hash_for_product(p) != expected.spec_hash_for_product(p) {
            earlier.push(
                arena_hash_mismatch(
                    p,
                    recorded.spec_hash_for_product(p),
                    expected.spec_hash_for_product(p),
                ),
            )
        } else {
            earlier
        }
    }
}

/// The hash mismatches of `input`, in product order.
pub open spec fn input_hash_mismatches(input: ArenaPlanInputs) -> Seq<ArenaPlanDiagnostic> {
    arena_hash_mismatches(
        arena_input_products(),
        input.input_identity.spec_hashes(),
        input.expected_input_hashes,
    )
}

pub open spec fn reservation_diagnostic(
    rule: ArenaRule,
    total_bytes: u32,
    expected_bytes: u32,
) -> ArenaPlanDiagnostic {
    ArenaPlanDiagnostic {
        code: ArenaPlanDiagnosticCode::ArenaOverlayReservationCountMismatch,
        provenance: ArenaPlanDiagnosticProvenance::Reservation {
            invariant: rule,
            total_bytes,
            expected_bytes,
        },
    }
}

/// The position of the first region with identifier `id`.
pub open spec fn region_position(regions: Seq<OverlayRegion>, id: OverlayId) -> Option<int>
    decreases regions.len(),
{
    if regions.len() == 0 {
        None
    } else {
        let earlier = region_position(regions.drop_last(), id);
        if earlier is Some {
            earlier
        } else if regions.last().id == id {
            Some(regions.len() - 1)
        } else {
            None
        }
    }
}

/// What reservation entry `k` is refused for, when the entries before it
/// were accepted.
pub open spec fn reservation_entry_failure(input: ArenaPlanInputs, k: int) -> Option<ArenaPlanDiagnostic> {
    let entries = input.overlay_plan.reservation.per_region@;
    let regions = input.overlay_plan.regions@;
    let entry = entries[k];
    if exists|j: int| 0 <= j < k && (#[trigger] entries[j]).region == entry.region {
        Some(reservation_diagnostic(ArenaRule::ApSc25, entries.len() as u32, k as u32))
    } else if region_position(regions, entry.region) is None {
        Some(reservation_diagnostic(ArenaRule::ApSc25, entry.bytes as u32, 0))
    } else {
        let region = regions[region_position(regions, entry.region)->Some_0];
        if entry.bytes != region.bytes || entry.reservation_kind != region.reservation_kind {
            Some(reservation_diagnostic(ArenaRule::ApSc24, region.bytes as u32, entry.bytes as u32))
        } else {
            None
        }
    }
}

/// The first refusal among the first `n` reservation entries.
pub open spec fn reservation_entries_failure(input: ArenaPlanInputs, n: int) -> Option<ArenaPlanDiagnostic>
    decreases n,
{
    if n <= 0 {
        None
    } else {
        let earlier = reservation_entries_failure(input, n - 1);
        if earlier is Some {
            earlier
        } else {
            reservation_entry_failure(input, n - 1)
        }
    }
}

/// The bytes of `entries`, summed with saturation at `u32::MAX`.
pub open spec fn saturating_entry_total(entries: Seq<OverlayReservationEntry>) -> u32
    decreases entries.len(),
{
    if entries.len() == 0 {
        0
    } else {
        let sum = saturating_entry_total(entries.drop_last()) + entries.last().bytes;
        if sum > u32::MAX {
            u32::MAX
        } else {
            sum as u32
        }
    }
}

/// Why the overlay reservation that the arena plan must honor is refused.
pub open spec fn reservation_input_failure(input: ArenaPlanInputs) -> Option<ArenaPlanDiagnostic> {
    let reservation = input.overlay_plan.reservation;
    let entries = reservation.per_region@;
    if entries.len() != input.overlay_plan.regions@.len() {
        Some(
            reservation_diagnostic(
                ArenaRule::ApSc25,
                entries.len() as u32,
                input.overlay_plan.regions@.len() as u32,
            ),
        )
    } else if reservation_entries_failure(input, entries.len() as int) is Some {
        reservation_entries_failure(input, entries.len() as int)
    } else if saturating_entry_total(entries) != reservation.total_bytes as u32 {
        Some(
            reservation_diagnostic(
                ArenaRule::ApSc25,
                saturating_entry_total(entries),
                reservation.total_bytes as u32,
            ),
        )
    } else {
        None
    }
}

/// The refusal that comes before any arena is laid out, once every input
/// hash matched.
pub open spec fn arena_preflight_failure(input: ArenaPlanInputs) -> Option<ArenaPlanDiagnostic> {
    if input.input_identity.sram_page_plan_self_hash != input.sram_page_plan.sram_page_plan_self_hash {
        Some(
            arena_hash_mismatch(
                ArenaPlanInputProduct::SramPagePlan,
                input.input_identity.sram_page_plan_self_hash,
                input.sram_page_plan.sram_page_plan_self_hash,
            ),
        )
    } else if input.input_identity.overlay_plan_self_hash != input.overlay_plan.overlay_plan_self_hash {
        Some(
            arena_hash_mismatch(
                ArenaPlanInputProduct::OverlayPlan,
                input.input_identity.overlay_plan_self_hash,
                input.overlay_plan.overlay_plan_self_hash,
            ),
        )
    } else if input.sram_page_plan.geometry != input.policy.persistent_page_geometry {
        Some(
            ArenaPlanDiagnostic {
                code: ArenaPlanDiagnosticCode::ArenaPersistentPageGeometryMismatch,
                provenance: ArenaPlanDiagnosticProvenance::Geometry {
                    observed: input.sram_page_plan.geometry,
                    expected: input.policy.persistent_page_geometry,
                },
            },
        )
    } else if input.policy.arena_alignment_default == 0 {
        Some(
            ArenaPlanDiagnostic {
                code: ArenaPlanDiagnosticCode::ArenaPolicyProjectionMismatch,
                provenance: ArenaPlanDiagnosticProvenance::PolicyProjection {
                    field: ArenaPolicyField::ArenaAlignmentDefault,
                },
            },
        )
    } else {
        reservation_input_failure(input)
    }
}

// --------------------------------------------------------- small helpers

/// The arena that holds values of `class` living for `lifetime`, if any.
pub open spec fn spec_arena_for(class: StorageClass, lifetime: LifetimeClass) -> Option<NamedArena> {
    match (class, lifetime) {
        (StorageClass::WramHot, LifetimeClass::Slice) => Some(NamedArena::WramAccumScratch),
        (StorageClass::WramHot, LifetimeClass::ResumeWindow) => Some(NamedArena::WramActivationsPingA),
        (StorageClass::WramHot, LifetimeClass::Token) => Some(NamedArena::WramActivationsPingB),
        (StorageClass::WramHot, LifetimeClass::Session) => Some(NamedArena::WramContinuationRecord),
        (StorageClass::HramHot, LifetimeClass::Slice) => Some(NamedArena::HramSchedulerScratch),
        (StorageClass::HramHot, LifetimeClass::Token) => Some(NamedArena::HramSchedulerScratch),
        (StorageClass::SramPaged, LifetimeClass::Session) => Some(NamedArena::SramColdSpill),
        _ => None,
    }
}

pub fn arena_for(class: StorageClass, lifetime: LifetimeClass) -> (named: Option<NamedArena>)
    ensures
        named == spec_arena_for(class, lifetime),
        named matches Some(n) ==> Some(spec_backing_for(n)) == class_memory(class),
{
    match (class, lifetime) {
        (StorageClass::WramHot, LifetimeClass::Slice) => Some(NamedArena::WramAccumScratch),
        (StorageClass::WramHot, LifetimeClass::ResumeWindow) => Some(NamedArena::WramActivationsPingA),
        (StorageClass::WramHot, LifetimeClass::Token) => Some(NamedArena::WramActivationsPingB),
        (StorageClass::WramHot, LifetimeClass::Session) => Some(NamedArena::WramContinuationRecord),
        (StorageClass::HramHot, LifetimeClass::Slice) => Some(NamedArena::HramSchedulerScratch),
        (StorageClass::HramHot, LifetimeClass::Token) => Some(NamedArena::HramSchedulerScratch),
        (StorageClass::SramPaged, LifetimeClass::Session) => Some(NamedArena::SramColdSpill),
        _ => None,
    }
}

/// The memory that values of a storage class live in.
pub open spec fn class_memory(class: StorageClass) -> Option<ArenaBacking> {
    match class {
        StorageClass::WramHot => Some(ArenaBacking::Wram),
        StorageClass::HramHot => Some(ArenaBacking::Hram),
        StorageClass::SramPaged => Some(ArenaBacking::Sram),
        StorageClass::RomConst => None,
    }
}

/// Where hot WRAM values go, by how long they live: slice-lived values in
/// the accumulator scratch, resume-window values in activation ping buffer
/// A, token-lived values in ping buffer B, session-lived values in the
/// continuation record; values of different lifetimes never share an
/// arena, and every arena a class maps to lives in that class's memory.
pub proof fn lemma_arena_for_separates_lifetimes(class: StorageClass, l1: LifetimeClass, l2: LifetimeClass)
    ensures
        spec_arena_for(StorageClass::WramHot, LifetimeClass::Slice) == Some(NamedArena::WramAccumScratch),
        spec_arena_for(StorageClass::WramHot, LifetimeClass::ResumeWindow) == Some(NamedArena::WramActivationsPingA),
        spec_arena_for(StorageClass::WramHot, LifetimeClass::Token) == Some(NamedArena::WramActivationsPingB),
        spec_arena_for(StorageClass::WramHot, LifetimeClass::Session) == Some(NamedArena::WramContinuationRecord),
        spec_arena_for(StorageClass::WramHot, l1) is Some && l1 != l2 ==> spec_arena_for(StorageClass::WramHot, l1)
            != spec_arena_for(StorageClass::WramHot, l2),
        spec_arena_for(class, l1) matches Some(named) ==> Some(spec_backing_for(named)) == class_memory(class),
{
}

/// The memory behind a named arena.
pub open spec fn spec_backing_for(named: NamedArena) -> ArenaBacking {
    match named {
        NamedArena::WramActivationsPingA | NamedArena::WramActivationsPingB
        | NamedArena::WramAccumScratch | NamedArena::WramRouteScratch
        | NamedArena::WramDecodeScratch | NamedArena::WramContinuationRecord
        | NamedArena::WramOverlayRegion { .. } => ArenaBacking::Wram,
        NamedArena::SramSequenceStatePages { .. } | NamedArena::SramTracePages
        | NamedArena::SramHarnessCommandBlock | NamedArena::SramHarnessResultBlock
        | NamedArena::SramPersistedTranscript | NamedArena::SramColdSpill => ArenaBacking::Sram,
        _ => ArenaBacking::Hram,
    }
}

pub fn backing_for(named: &NamedArena) -> (backing: ArenaBacking)
    ensures
        backing == spec_backing_for(*named),
{
    match named {
        NamedArena::WramActivationsPingA | NamedArena::WramActivationsPingB
        | NamedArena::WramAccumScratch | NamedArena::WramRouteScratch
        | NamedArena::WramDecodeScratch | NamedArena::WramContinuationRecord
        | NamedArena::WramOverlayRegion { .. } => ArenaBacking::Wram,
        NamedArena::SramSequenceStatePages { .. } | NamedArena::SramTracePages
        | NamedArena::SramHarnessCommandBlock | NamedArena::SramHarnessResultBlock
        | NamedArena::SramPersistedTranscript | NamedArena::SramColdSpill => ArenaBacking::Sram,
        _ => ArenaBacking::Hram,
    }
}

/// The number of `alignment`-sized blocks that cover `value` bytes.
pub open spec fn blocks_covering(value: u32, alignment: u32) -> int {
    if value % alignment == 0 {
        (value / alignment) as int
    } else {
        (value / alignment) as int + 1
    }
}

/// `value` rounded up to a multiple of `alignment`, saturating at `u32::MAX`.
pub open spec fn spec_align_up(value: u32, alignment: u32) -> u32 {
    if alignment <= 1 {
        value
    } else {
        let rounded = blocks_covering(value, alignment) * alignment;
        if rounded > u32::MAX {
            u32::MAX
        } else {
            rounded as u32
        }
    }
}

pub fn align_up(value: u32, alignment: u32) -> (aligned: u32)
    ensures
        aligned == spec_align_up(value, alignment),
{
    if alignment <= 1 {
        value
    } else {
        let quotient: u64 = (value / alignment) as u64;
        let blocks: u64 = if value % alignment == 0 {
            quotient
        } else {
            quotient + 1
        };
        match blocks.checked_mul(alignment as u64) {
            Some(product) => {
                if product > u32::MAX as u64 {
                    u32::MAX
                } else {
                    product as u32
                }
            },
            None => u32::MAX,
        }
    }
}

/// The order of a lifetime among slots of one size and alias class.
pub open spec fn spec_lifetime_priority(lifetime: LifetimeClass) -> u8 {
    match lifetime {
        LifetimeClass::Slice => 0,
        LifetimeClass::ResumeWindow => 1,
        LifetimeClass::Token => 2,
        LifetimeClass::Session => 3,
        LifetimeClass::Persistent => 4,
    }
}

pub fn lifetime_priority(lifetime: LifetimeClass) -> (priority: u8)
    ensures
        priority == spec_lifetime_priority(lifetime),
{
    match lifetime {
        LifetimeClass::Slice => 0,
        LifetimeClass::ResumeWindow => 1,
        LifetimeClass::Token => 2,
        LifetimeClass::Session => 3,
        LifetimeClass::Persistent => 4,
    }
}

pub open spec fn spec_binding_kind_order(kind: SlotBindingKind) -> u8 {
    match kind {
        SlotBindingKind::MaterializedValue => 0,
        SlotBindingKind::PersistentPageA { .. } => 1,
        SlotBindingKind::PersistentPageB { .. } => 2,
        SlotBindingKind::OverlayMember { .. } => 3,
        SlotBindingKind::RuntimeFixed { .. } => 4,
        SlotBindingKind::TraceRing { .. } => 5,
    }
}

pub fn binding_kind_order(kind: &SlotBindingKind) -> (order: u8)
    ensures
        order == spec_binding_kind_order(*kind),
{
    match kind {
        SlotBindingKind::MaterializedValue => 0,
        SlotBindingKind::PersistentPageA { .. } => 1,
        SlotBindingKind::PersistentPageB { .. } => 2,
        SlotBindingKind::OverlayMember { .. } => 3,
        SlotBindingKind::RuntimeFixed { .. } => 4,
        SlotBindingKind::TraceRing { .. } => 5,
    }
}

pub open spec fn runtime_kind_index(kind: RuntimeFixedKind) -> u32 {
    match kind {
        RuntimeFixedKind::HramFrameFlags => 0,
        RuntimeFixedKind::HramBankShadow => 1,
        RuntimeFixedKind::HramFaultCode => 2,
        RuntimeFixedKind::HramSchedulerScratch => 3,
        RuntimeFixedKind::HramYieldRequested => 4,
    }
}

pub open spec fn spec_binding_ref_order(reference: SlotBindingRef) -> u32 {
    match reference {
        SlotBindingRef::Value { value } => value.0,
        SlotBindingRef::PersistPage { value, .. } => value.0,
        SlotBindingRef::OverlayMember { overlay, .. } => overlay.0,
        SlotBindingRef::RuntimeFixed { runtime_kind } => runtime_kind_index(runtime_kind),
        SlotBindingRef::TraceRing { trace_ring } => trace_ring.0,
    }
}

pub fn binding_ref_order(reference: &SlotBindingRef) -> (order: u32)
    ensures
        order == spec_binding_ref_order(*reference),
{
    match reference {
        SlotBindingRef::Value { value } => value.0,
        SlotBindingRef::PersistPage { value, .. } => value.0,
        SlotBindingRef::OverlayMember { overlay, .. } => overlay.0,
        SlotBindingRef::RuntimeFixed { runtime_kind } => match runtime_kind {
            RuntimeFixedKind::HramFrameFlags => 0,
            RuntimeFixedKind::HramBankShadow => 1,
            RuntimeFixedKind::HramFaultCode => 2,
            RuntimeFixedKind::HramSchedulerScratch => 3,
            RuntimeFixedKind::HramYieldRequested => 4,
        },
        SlotBindingRef::TraceRing { trace_ring } => trace_ring.0,
    }
}

/// The range of `len` bytes at `start`, when both fit in 16 bits.
pub fn byte_range(start: u32, len: u32) -> (range: Option<ByteRange>)
    ensures
        range is Some <==> start <= u16::MAX && len <= u16::MAX,
        range matches Some(r) ==> r.start == start && r.len == len,
{
    if start <= u16::MAX as u32 && len <= u16::MAX as u32 {
        Some(ByteRange { start: start as u16, len: len as u16 })
    } else {
        None
    }
}

/// Takes `len` bytes at `cursor`: the start, when it and `len` fit in 16
/// bits, with the cursor moved past them (saturating).
pub fn take_range(cursor: &mut u32, len: u32) -> (start: Option<u16>)
    ensures
        start is Some <==> *old(cursor) <= u16::MAX && len <= u16::MAX,
        start matches Some(s) ==> s == *old(cursor) && *final(cursor) == *old(cursor) + len,
        start is None ==> *final(cursor) == *old(cursor),
{
    if *cursor > u16::MAX as u32 || len > u16::MAX as u32 {
        return None;
    }
    let start = *cursor as u16;
    *cursor = *cursor + len;
    Some(start)
}

/// The next identifier from `next`, which moves on by one (saturating).
pub fn next_slot_id(next: &mut u32) -> (id: ArenaSlotId)
    ensures
        id.0 == *old(next),
        *final(next) == (if *old(next) == u32::MAX { u32::MAX } else { (*old(next) + 1) as u32 }),
{
    let id = ArenaSlotId(*next);
    *next = next.saturating_add(1);
    id
}

pub fn next_arena_id(next: &mut u32) -> (id: ArenaId)
    ensures
        id.0 == *old(next),
        *final(next) == (if *old(next) == u32::MAX { u32::MAX } else { (*old(next) + 1) as u32 }),
{
    let id = ArenaId(*next);
    *next = next.saturating_add(1);
    id
}

/// `value` as a `u16`, saturating.
pub fn saturating_u16(value: usize) -> (narrowed: u16)
    ensures
        narrowed == (if value > u16::MAX { u16::MAX as int } else { value as int }),
{
    if value > u16::MAX as usize {
        u16::MAX
    } else {
        value as u16
    }
}


// ------------------------------------------------------------- outputs

/// `output` is the failed output of `input` with `diagnostics`.
pub open spec fn arena_failed_with(
    input: ArenaPlanInputs,
    output: ArenaPlanOutput,
    diagnostics: Seq<ArenaPlanDiagnostic>,
) -> bool {
    &&& output.input_identity == input.input_identity
    &&& output.outcome == ArenaPlanOutcome::Failed
    &&& output.result is None
    &&& output.cert is None
    &&& output.diagnostics@ == diagnostics
}

fn failed_output(input: &ArenaPlanInputs, diagnostic: ArenaPlanDiagnostic) -> (output: ArenaPlanOutput)
    ensures
        arena_failed_with(*input, output, seq![diagnostic]),
{
    let mut diagnostics: Vec<ArenaPlanDiagnostic> = Vec::new();
    diagnostics.push(diagnostic);
    assert(diagnostics@ =~= seq![diagnostic]);
    ArenaPlanOutput {
        input_identity: input.input_identity.duplicate(),
        outcome: ArenaPlanOutcome::Failed,
        result: None,
        cert: None,
        diagnostics,
    }
}

fn input_hash_mismatch_diagnostics(input: &ArenaPlanInputs) -> (diagnostics: Vec<ArenaPlanDiagnostic>)
    ensures
        diagnostics@ == input_hash_mismatches(*input),
{
    let products = arena_input_products_exec();
    let recorded_hashes = input.input_identity.hashes();
    let mut diagnostics: Vec<ArenaPlanDiagnostic> = Vec::new();
    let mut i: usize = 0;
    while i < products.len()
        invariant
            products@ == arena_input_products(),
            recorded_hashes == input.input_identity.spec_hashes(),
            i <= products@.len(),
            diagnostics@ == arena_hash_mismatches(
                products@.subrange(0, i as int),
                recorded_hashes,
                input.expected_input_hashes,
            ),
        decreases products@.len() - i,
    {
        let product = products[i];
        let recorded = recorded_hashes.hash_for_product(product);
        let computed = input.expected_input_hashes.hash_for_product(product);
        proof {
            assert(products@.subrange(0, i + 1).drop_last() =~= products@.subrange(0, i as int));
        }
        if recorded != computed {
            diagnostics.push(
                ArenaPlanDiagnostic {
                    code: ArenaPlanDiagnosticCode::ArenaInputHashMismatch,
                    provenance: ArenaPlanDiagnosticProvenance::HashMismatch { product, recorded, computed },
                },
            );
        }
        i = i + 1;
    }
    proof {
        assert(products@.subrange(0, products@.len() as int) =~= products@);
    }
    diagnostics
}

fn find_region(regions: &Vec<OverlayRegion>, id: OverlayId) -> (found: Option<usize>)
    ensures
        found is Some <==> region_position(regions@, id) is Some,
        found matches Some(r) ==> r == region_position(regions@, id)->Some_0 && r < regions@.len(),
{
    let mut r: usize = 0;
    while r < regions.len()
        invariant
            r <= regions@.len(),
            region_position(regions@.subrange(0, r as int), id) is None,
        decreases regions@.len() - r,
    {
        proof {
            assert(regions@.subrange(0, r + 1).drop_last() =~= regions@.subrange(0, r as int));
        }
        if regions[r].id == id {
            proof {
                lemma_region_position_prefix(regions@, r as int + 1, id);
            }
            return Some(r);
        }
        r = r + 1;
    }
    proof {
        assert(regions@.subrange(0, regions@.len() as int) =~= regions@);
    }
    None
}

/// Once a prefix holds the identifier, the first position is found in it.
proof fn lemma_region_position_prefix(regions: Seq<OverlayRegion>, n: int, id: OverlayId)
    requires
        0 <= n <= regions.len(),
        region_position(regions.subrange(0, n), id) is Some,
    ensures
        region_position(regions, id) == region_position(regions.subrange(0, n), id),
    decreases regions.len() - n,
{
    if n < regions.len() {
        assert(regions.subrange(0, n + 1).drop_last() =~= regions.subrange(0, n));
        lemma_region_position_prefix(regions, n + 1, id);
    } else {
        assert(regions.subrange(0, n) =~= regions);
    }
}

/// Once a prefix of the entries is refused, every longer prefix is refused
/// for the same reason.
proof fn lemma_entries_failure_stable(input: ArenaPlanInputs, k: int, n: int)
    requires
        0 <= k <= n,
        reservation_entries_failure(input, k) is Some,
    ensures
        reservation_entries_failure(input, n) == reservation_entries_failure(input, k),
    decreases n - k,
{
    if k < n {
        lemma_entries_failure_stable(input, k, n - 1);
    }
}

/// Checks the overlay reservation against the overlay regions it reserves.
#[verifier::loop_isolation(false)]
pub fn validate_overlay_reservation_input(input: &ArenaPlanInputs) -> (found: Option<ArenaPlanDiagnostic>)
    ensures
        found == reservation_input_failure(*input),
{
    let reservation = &input.overlay_plan.reservation;
    let entries = &reservation.per_region;
    let regions = &input.overlay_plan.regions;
    if entries.len() != regions.len() {
        return Some(
            ArenaPlanDiagnostic {
                code: ArenaPlanDiagnosticCode::ArenaOverlayReservationCountMismatch,
                provenance: ArenaPlanDiagnosticProvenance::Reservation {
                    invariant: ArenaRule::ApSc25,
                    total_bytes: entries.len() as u32,
                    expected_bytes: regions.len() as u32,
                },
            },
        );
    }
    let mut k: usize = 0;
    while k < entries.len()
        invariant
            entries == &input.overlay_plan.reservation.per_region,
            regions == &input.overlay_plan.regions,
            k <= entries@.len(),
            reservation_entries_failure(*input, k as int) is None,
        decreases entries@.len() - k,
    {
        let entry = entries[k];
        let mut j: usize = 0;
        while j < k
            invariant
                entries == &input.overlay_plan.reservation.per_region,
                k < entries@.len(),
                entry == entries@[k as int],
                j <= k,
                forall|q: int| 0 <= q < j ==> (#[trigger] entries@[q]).region != entry.region,
            decreases k - j,
        {
            if entries[j].region == entry.region {
                proof {
                    assert(reservation_entries_failure(*input, k + 1) == reservation_entry_failure(
                        *input,
                        k as int,
                    ));
                    assert(entries@[j as int].region == entry.region);
                    lemma_entries_failure_stable(*input, k + 1, entries@.len() as int);
                }
                return Some(
                    ArenaPlanDiagnostic {
                        code: ArenaPlanDiagnosticCode::ArenaOverlayReservationCountMismatch,
                        provenance: ArenaPlanDiagnosticProvenance::Reservation {
                            invariant: ArenaRule::ApSc25,
                            total_bytes: entries.len() as u32,
                            expected_bytes: k as u32,
                        },
                    },
                );
            }
            j = j + 1;
        }
        match find_region(regions, entry.region) {
            None => {
                proof {
                    assert(reservation_entries_failure(*input, k + 1) == reservation_entry_failure(
                        *input,
                        k as int,
                    ));
                    lemma_entries_failure_stable(*input, k + 1, entries@.len() as int);
                }
                return Some(
                    ArenaPlanDiagnostic {
                        code: ArenaPlanDiagnosticCode::ArenaOverlayReservationCountMismatch,
                        provenance: ArenaPlanDiagnosticProvenance::Reservation {
                            invariant: ArenaRule::ApSc25,
                            total_bytes: entry.bytes as u32,
                            expected_bytes: 0,
                        },
                    },
                );
            },
            Some(r) => {
                let region = &regions[r];
                if entry.bytes != region.bytes || entry.reservation_kind != region.reservation_kind {
                    proof {
                        assert(reservation_entries_failure(*input, k + 1) == reservation_entry_failure(
                            *input,
                            k as int,
                        ));
                        lemma_entries_failure_stable(*input, k + 1, entries@.len() as int);
                    }
                    return Some(
                        ArenaPlanDiagnostic {
                            code: ArenaPlanDiagnosticCode::ArenaOverlayReservationCountMismatch,
                            provenance: ArenaPlanDiagnosticProvenance::Reservation {
                                invariant: ArenaRule::ApSc24,
                                total_bytes: region.bytes as u32,
                                expected_bytes: entry.bytes as u32,
                            },
                        },
                    );
                }
            },
        }
        assert(reservation_entries_failure(*input, k + 1) == reservation_entry_failure(*input, k as int));
        k = k + 1;
    }
    let mut total: u32 = 0;
    let mut e: usize = 0;
    while e < entries.len()
        invariant
            e <= entries@.len(),
            total == saturating_entry_total(entries@.subrange(0, e as int)),
        decreases entries@.len() - e,
    {
        proof {
            assert(entries@.subrange(0, e + 1).drop_last() =~= entries@.subrange(0, e as int));
        }
        total = total.saturating_add(entries[e].bytes as u32);
        e = e + 1;
    }
    proof {
        assert(entries@.subrange(0, entries@.len() as int) =~= entries@);
    }
    if total != reservation.total_bytes as u32 {
        return Some(
            ArenaPlanDiagnostic {
                code: ArenaPlanDiagnosticCode::ArenaOverlayReservationCountMismatch,
                provenance: ArenaPlanDiagnosticProvenance::Reservation {
                    invariant: ArenaRule::ApSc25,
                    total_bytes: total,
                    expected_bytes: reservation.total_bytes as u32,
                },
            },
        );
    }
    None
}


// ------------------------------------------------------------ layout

/// The slots gathered for one named arena before it is laid out.
struct ArenaBuilder {
    backing: ArenaBacking,
    slots: Vec<ArenaSlot>,
}

/// The values of one (arena, alias class) pair, which share one slot.
struct MaterializeGroup {
    named: NamedArena,
    alias_class: AliasClassId,
    backing: ArenaBacking,
    lifetime: LifetimeClass,
    size_bytes: u16,
    first_value: ValueId,
    values: Vec<ValueId>,
}

/// How far each memory has been handed out.
struct BackingCursors {
    wram: u32,
    sram: u32,
    hram: u32,
}

/// Everything gathered while the plan is put together.
struct PlanParts {
    slot_id: u32,
    arena_id: u32,
    wram_arenas: Vec<ArenaInstance>,
    sram_arenas: Vec<ArenaInstance>,
    hram_assignments: Vec<ArenaInstance>,
    builders: Vec<(NamedArena, ArenaBuilder)>,
    materialize_to_slot: Vec<MaterializeSlotBinding>,
    persist_to_slot_pair: Vec<PersistSlotPairBinding>,
    overlay_to_arena: Vec<OverlayArenaBinding>,
    persistent_witnesses: Vec<ArenaPersistentPageWitness>,
    honor_entries: Vec<OverlayReservationHonorEntry>,
    wram_cursor: u32,
    reservation_total: u32,
}

/// An arena as values.
pub struct ArenaView {
    pub id: ArenaId,
    pub named: NamedArena,
    pub byte_range: ByteRange,
    pub backing: ArenaBacking,
    pub alignment: u16,
    pub zerofill: ArenaZerofillPolicy,
    pub slots: Seq<ArenaSlot>,
}

impl View for ArenaInstance {
    type V = ArenaView;

    open spec fn view(&self) -> ArenaView {
        ArenaView {
            id: self.id,
            named: self.named,
            byte_range: self.byte_range,
            backing: self.backing,
            alignment: self.alignment,
            zerofill: self.zerofill,
            slots: self.slots@,
        }
    }
}

/// The arenas as values.
pub open spec fn arena_views(arenas: Seq<ArenaInstance>) -> Seq<ArenaView> {
    arenas.map_values(|arena: ArenaInstance| arena@)
}

/// A named arena still gathering slots: its memory and its slots so far.
pub type BuilderView = (NamedArena, ArenaBacking, Seq<ArenaSlot>);

/// The builders as values.
pub closed spec fn builder_views(builders: Seq<(NamedArena, ArenaBuilder)>) -> Seq<BuilderView> {
    builders.map_values(|entry: (NamedArena, ArenaBuilder)| (entry.0, entry.1.backing, entry.1.slots@))
}

/// Everything gathered while the plan is put together, as values.
pub struct PartsView {
    pub slot_id: u32,
    pub arena_id: u32,
    pub wram_arenas: Seq<ArenaView>,
    pub sram_arenas: Seq<ArenaView>,
    pub hram_assignments: Seq<ArenaView>,
    pub builders: Seq<BuilderView>,
    pub materialize_to_slot: Seq<MaterializeSlotBinding>,
    pub persist_to_slot_pair: Seq<PersistSlotPairBinding>,
    pub overlay_to_arena: Seq<OverlayArenaBinding>,
    pub persistent_witnesses: Seq<ArenaPersistentPageWitness>,
    pub honor_entries: Seq<OverlayReservationHonorEntry>,
    pub wram_cursor: u32,
    pub reservation_total: u32,
}

impl View for PlanParts {
    type V = PartsView;

    closed spec fn view(&self) -> PartsView {
        PartsView {
            slot_id: self.slot_id,
            arena_id: self.arena_id,
            wram_arenas: arena_views(self.wram_arenas@),
            sram_arenas: arena_views(self.sram_arenas@),
            hram_assignments: arena_views(self.hram_assignments@),
            builders: builder_views(self.builders@),
            materialize_to_slot: self.materialize_to_slot@,
            persist_to_slot_pair: self.persist_to_slot_pair@,
            overlay_to_arena: self.overlay_to_arena@,
            persistent_witnesses: self.persistent_witnesses@,
            honor_entries: self.honor_entries@,
            wram_cursor: self.wram_cursor,
            reservation_total: self.reservation_total,
        }
    }
}

/// The parts before anything is laid out.
pub open spec fn empty_parts() -> PartsView {
    PartsView {
        slot_id: 0,
        arena_id: 0,
        wram_arenas: Seq::empty(),
        sram_arenas: Seq::empty(),
        hram_assignments: Seq::empty(),
        builders: Seq::empty(),
        materialize_to_slot: Seq::empty(),
        persist_to_slot_pair: Seq::empty(),
        overlay_to_arena: Seq::empty(),
        persistent_witnesses: Seq::empty(),
        honor_entries: Seq::empty(),
        wram_cursor: 0,
        reservation_total: 0,
    }
}

/// `a + b`, saturating at `u32::MAX`.
pub open spec fn sat_add(a: int, b: int) -> u32 {
    if a + b > u32::MAX {
        u32::MAX
    } else {
        (a + b) as u32
    }
}

fn diagnostic(code: ArenaPlanDiagnosticCode, provenance: ArenaPlanDiagnosticProvenance) -> (found: Option<ArenaPlanDiagnostic>)
    ensures
        found == Some(ArenaPlanDiagnostic { code, provenance }),
{
    Some(ArenaPlanDiagnostic { code, provenance })
}

/// The items of `keyed`, in order, without their keys.
pub open spec fn unkeyed<T>(keyed: Seq<(u64, T)>) -> Seq<T> {
    keyed.map_values(|item: (u64, T)| item.1)
}

fn unkey<T>(keyed: Vec<(u64, T)>) -> (items: Vec<T>)
    ensures
        items@.len() == keyed@.len(),
        items@ == unkeyed(keyed@),
{
    let ghost initial = keyed@;
    let mut keyed = keyed;
    let mut items: Vec<T> = Vec::new();
    while keyed.len() > 0
        invariant
            items@.len() + keyed@.len() == initial.len(),
            items@ == unkeyed(initial).take(items@.len() as int),
            keyed@ == initial.skip(items@.len() as int),
        decreases keyed@.len(),
    {
        let ghost done = items@.len() as int;
        let (_, item) = keyed.remove(0);
        items.push(item);
        proof {
            assert(items@ =~= unkeyed(initial).take(done + 1));
            assert(keyed@ =~= initial.skip(done + 1));
        }
    }
    proof {
        assert(unkeyed(initial).take(initial.len() as int) =~= unkeyed(initial));
    }
    items
}

/// The builders with `slot` added to the builder of `named`, which is made
/// with `backing` when there is none yet.
pub open spec fn spec_push_slot(builders: Seq<BuilderView>, named: NamedArena, backing: ArenaBacking, slot: ArenaSlot) -> Seq<
    BuilderView,
> {
    if exists|i: int| 0 <= i < builders.len() && (#[trigger] builders[i]).0 == named {
        let i = choose|i: int|
            0 <= i < builders.len() && builders[i].0 == named && forall|j: int| 0 <= j < i ==> (#[trigger] builders[j]).0 != named;
        builders.update(i, (named, builders[i].1, builders[i].2.push(slot)))
    } else {
        builders.push((named, backing, seq![slot]))
    }
}

/// Adds `slot` to the builder of `named`, made with `backing` when it is new.
fn push_slot(builders: &mut Vec<(NamedArena, ArenaBuilder)>, named: NamedArena, backing: ArenaBacking, slot: ArenaSlot)
    ensures
        builder_views(final(builders)@) == spec_push_slot(builder_views(old(builders)@), named, backing, slot),
{
    let ghost views = builder_views(builders@);
    proof {
        assert forall|j: int| 0 <= j < builders@.len() implies #[trigger] views[j] == (
            builders@[j].0,
            builders@[j].1.backing,
            builders@[j].1.slots@,
        ) by {}
    }
    let mut i: usize = 0;
    while i < builders.len()
        invariant
            i <= builders@.len(),
            views == builder_views(old(builders)@),
            builders@ == old(builders)@,
            forall|j: int| 0 <= j < builders@.len() ==> #[trigger] views[j] == (
                builders@[j].0,
                builders@[j].1.backing,
                builders@[j].1.slots@,
            ),
            forall|j: int| 0 <= j < i ==> (#[trigger] views[j]).0 != named,
        decreases builders@.len() - i,
    {
        if builders[i].0 == named {
            let ghost before = builders@;
            let (held, mut builder) = builders.remove(i);
            builder.slots.push(slot);
            builders.insert(i, (held, builder));
            proof {
                assert(views[i as int].0 == named);
                let c = choose|c: int|
                    0 <= c < views.len() && views[c].0 == named && forall|j: int| 0 <= j < c ==> (#[trigger] views[j]).0 != named;
                if c > i {
                    assert(views[i as int].0 != named);
                }
                assert(builder_views(builders@) =~= views.update(i as int, (named, views[i as int].1, views[i as int].2.push(slot))));
            }
            return;
        }
        i = i + 1;
    }
    let mut slots: Vec<ArenaSlot> = Vec::new();
    slots.push(slot);
    builders.push((named, ArenaBuilder { backing, slots }));
    proof {
        assert(builder_views(builders@) =~= views.push((named, backing, seq![slot])));
    }
}

/// The slot of an overlay member, at the start of its region's arena.
pub open spec fn overlay_member_slot(region: OverlayRegion, member: OverlayResident, id: u32) -> ArenaSlot {
    ArenaSlot {
        id: ArenaSlotId(id),
        byte_offset: 0,
        size_bytes: member.payload_bytes as u16,
        alias_class_id: None,
        lifetime_class: LifetimeClass::Slice,
        binding_kind: SlotBindingKind::OverlayMember { overlay: region.id, member: member.id },
        binding_ref: SlotBindingRef::OverlayMember { overlay: region.id, member: member.id },
    }
}

/// The member of `region` is larger than the region.
pub open spec fn member_oversized(region: OverlayRegion, m: int) -> bool {
    region.members@[m].payload_bytes > region.bytes
}

/// The first member of `region` larger than the region, if any.
pub open spec fn first_oversized_member(region: OverlayRegion) -> Option<int> {
    if exists|m: int| 0 <= m < region.members@.len() && #[trigger] member_oversized(region, m) {
        Some(
            choose|m: int|
                0 <= m < region.members@.len() && member_oversized(region, m) && forall|j: int|
                    0 <= j < m ==> !#[trigger] member_oversized(region, j),
        )
    } else {
        None
    }
}

/// The arena of one overlay region laid out after `parts`: at the WRAM
/// cursor, one slot per member at its start; refused when the cursor has
/// left 16 bits or a member is larger than the region.
pub open spec fn overlay_region_step(input: ArenaPlanInputs, parts: PartsView, region: OverlayRegion) -> Result<
    PartsView,
    ArenaPlanDiagnostic,
> {
    let members = region.members@;
    if parts.wram_cursor > u16::MAX {
        Err(
            ArenaPlanDiagnostic {
                code: ArenaPlanDiagnosticCode::ArenaOverlayReservationOverflow,
                provenance: ArenaPlanDiagnosticProvenance::Reservation {
                    invariant: ArenaRule::FReservationNoOverflow,
                    total_bytes: sat_add(parts.wram_cursor as int, region.bytes as int),
                    expected_bytes: input.target_profile.wram_usable_bytes,
                },
            },
        )
    } else if first_oversized_member(region) is Some {
        let m = first_oversized_member(region)->Some_0;
        Err(
            ArenaPlanDiagnostic {
                code: ArenaPlanDiagnosticCode::ArenaOverlayReservationOverflow,
                provenance: ArenaPlanDiagnosticProvenance::Slot {
                    invariant: ArenaRule::FAddr7,
                    slot_id: sat_add(parts.slot_id as int, m),
                    observed_bytes: members[m].payload_bytes,
                    cap_bytes: region.bytes as u32,
                },
            },
        )
    } else {
        let range = ByteRange { start: parts.wram_cursor as u16, len: region.bytes };
        let id = ArenaId(parts.arena_id);
        Ok(
            PartsView {
                slot_id: sat_add(parts.slot_id as int, members.len() as int),
                arena_id: sat_add(parts.arena_id as int, 1),
                wram_arenas: parts.wram_arenas.push(
                    ArenaView {
                        id,
                        named: NamedArena::WramOverlayRegion { overlay: region.id },
                        byte_range: range,
                        backing: ArenaBacking::Wram,
                        alignment: input.policy.arena_alignment_default,
                        zerofill: input.policy.arena_zerofill_policy,
                        slots: Seq::new(
                            members.len(),
                            |m: int| overlay_member_slot(region, members[m], sat_add(parts.slot_id as int, m)),
                        ),
                    },
                ),
                overlay_to_arena: parts.overlay_to_arena.push(OverlayArenaBinding { overlay: region.id, arena: id }),
                honor_entries: parts.honor_entries.push(
                    OverlayReservationHonorEntry { overlay_id: region.id, arena_id: id, bytes: region.bytes, byte_range: range },
                ),
                wram_cursor: sat_add(parts.wram_cursor as int, region.bytes as int),
                reservation_total: sat_add(parts.reservation_total as int, region.bytes as int),
                ..parts
            },
        )
    }
}

/// The overlay regions laid out one after another, or the first refusal.
pub open spec fn overlay_phase(input: ArenaPlanInputs, parts: PartsView, regions: Seq<OverlayRegion>) -> Result<
    PartsView,
    ArenaPlanDiagnostic,
>
    decreases regions.len(),
{
    if regions.len() == 0 {
        Ok(parts)
    } else {
        match overlay_phase(input, parts, regions.drop_last()) {
            Ok(laid_out) => overlay_region_step(input, laid_out, regions.last()),
            Err(failure) => Err(failure),
        }
    }
}

proof fn lemma_overlay_failure_stays(input: ArenaPlanInputs, parts: PartsView, regions: Seq<OverlayRegion>, n: int)
    requires
        0 <= n <= regions.len(),
        overlay_phase(input, parts, regions.take(n)) is Err,
    ensures
        overlay_phase(input, parts, regions) == overlay_phase(input, parts, regions.take(n)),
    decreases regions.len() - n,
{
    if n == regions.len() {
        assert(regions.take(n) =~= regions);
    } else {
        assert(regions.take(n + 1).drop_last() =~= regions.take(n));
        lemma_overlay_failure_stays(input, parts, regions, n + 1);
    }
}

/// One arena per overlay region, in region order, holding one slot per member
/// at the region's start.
fn lay_out_overlay_regions(input: &ArenaPlanInputs, parts: &mut PlanParts) -> (failure: Option<ArenaPlanDiagnostic>)
    ensures
        match failure {
            Some(d) => overlay_phase(*input, old(parts)@, input.overlay_plan.regions@) == Err::<PartsView, ArenaPlanDiagnostic>(d),
            None => overlay_phase(*input, old(parts)@, input.overlay_plan.regions@) == Ok::<PartsView, ArenaPlanDiagnostic>(final(parts)@),
        },
{
    let regions = &input.overlay_plan.regions;
    let ghost start = parts@;
    let mut r: usize = 0;
    proof {
        assert(regions@.take(0) =~= Seq::<OverlayRegion>::empty());
    }
    while r < regions.len()
        invariant
            r <= regions@.len(),
            regions == &input.overlay_plan.regions,
            start == old(parts)@,
            overlay_phase(*input, start, regions@.take(r as int)) == Ok::<PartsView, ArenaPlanDiagnostic>(parts@),
        decreases regions@.len() - r,
    {
        let region = &regions[r];
        let ghost before = parts@;
        proof {
            assert(regions@.take(r + 1).drop_last() =~= regions@.take(r as int));
            assert(regions@.take(r + 1).last() == regions@[r as int]);
        }
        let range = match byte_range(parts.wram_cursor, region.bytes as u32) {
            Some(range) => range,
            None => {
                let failure = diagnostic(
                    ArenaPlanDiagnosticCode::ArenaOverlayReservationOverflow,
                    ArenaPlanDiagnosticProvenance::Reservation {
                        invariant: ArenaRule::FReservationNoOverflow,
                        total_bytes: parts.wram_cursor.saturating_add(region.bytes as u32),
                        expected_bytes: input.target_profile.wram_usable_bytes,
                    },
                );
                proof {
                    assert(before.wram_cursor > u16::MAX);
                    assert(overlay_region_step(*input, before, regions@[r as int]) == Err::<PartsView, ArenaPlanDiagnostic>(failure->Some_0));
                    assert(overlay_phase(*input, start, regions@.take(r + 1)) == Err::<PartsView, ArenaPlanDiagnostic>(failure->Some_0));
                    lemma_overlay_failure_stays(*input, start, regions@, r + 1);
                }
                return failure;
            },
        };
        let ghost first_slot = parts.slot_id;
        let mut slots: Vec<ArenaSlot> = Vec::new();
        let mut m: usize = 0;
        while m < region.members.len()
            invariant
                r < regions@.len(),
                regions == &input.overlay_plan.regions,
                start == old(parts)@,
                *region == regions@[r as int],
                overlay_phase(*input, start, regions@.take(r as int)) == Ok::<PartsView, ArenaPlanDiagnostic>(before),
                regions@.take(r + 1).drop_last() == regions@.take(r as int),
                regions@.take(r + 1).last() == regions@[r as int],
                before.wram_cursor <= u16::MAX,
                m <= region.members@.len(),
                parts@ == (PartsView { slot_id: parts.slot_id, ..before }),
                before.slot_id == first_slot,
                parts.slot_id == sat_add(first_slot as int, m as int),
                slots@ == Seq::new(
                    m as nat,
                    |k: int| overlay_member_slot(*region, region.members@[k], sat_add(first_slot as int, k)),
                ),
                forall|k: int| 0 <= k < m ==> !#[trigger] member_oversized(*region, k),
            decreases region.members@.len() - m,
        {
            let member = &region.members[m];
            if member.payload_bytes > region.bytes as u32 {
                proof {
                    assert(member_oversized(*region, m as int));
                    let c = choose|c: int|
                        0 <= c < region.members@.len() && member_oversized(*region, c) && forall|j: int|
                            0 <= j < c ==> !#[trigger] member_oversized(*region, j);
                    if c > m {
                        assert(!member_oversized(*region, m as int));
                    }
                    if c < m {
                        assert(!member_oversized(*region, c));
                    }
                }
                let failure = diagnostic(
                    ArenaPlanDiagnosticCode::ArenaOverlayReservationOverflow,
                    ArenaPlanDiagnosticProvenance::Slot {
                        invariant: ArenaRule::FAddr7,
                        slot_id: parts.slot_id,
                        observed_bytes: member.payload_bytes,
                        cap_bytes: region.bytes as u32,
                    },
                );
                proof {
                    assert(first_oversized_member(*region) == Some(m as int));
                    assert(overlay_phase(*input, start, regions@.take(r + 1)) == Err::<PartsView, ArenaPlanDiagnostic>(failure->Some_0));
                    lemma_overlay_failure_stays(*input, start, regions@, r + 1);
                }
                return failure;
            }
            let id = next_slot_id(&mut parts.slot_id);
            slots.push(
                ArenaSlot {
                    id,
                    byte_offset: 0,
                    size_bytes: member.payload_bytes as u16,
                    alias_class_id: None,
                    lifetime_class: LifetimeClass::Slice,
                    binding_kind: SlotBindingKind::OverlayMember {
                        overlay: region.id,
                        member: member.id.duplicate(),
                    },
                    binding_ref: SlotBindingRef::OverlayMember {
                        overlay: region.id,
                        member: member.id.duplicate(),
                    },
                },
            );
            m = m + 1;
            proof {
                assert(slots@ =~= Seq::new(
                    m as nat,
                    |k: int| overlay_member_slot(*region, region.members@[k], sat_add(first_slot as int, k)),
                ));
            }
        }
        proof {
            assert forall|k: int| 0 <= k < region.members@.len() implies !#[trigger] member_oversized(*region, k) by {}
            assert(first_oversized_member(*region) is None);
        }
        let id = next_arena_id(&mut parts.arena_id);
        let ghost arenas_before = parts.wram_arenas@;
        let arena = ArenaInstance {
            id,
            named: NamedArena::WramOverlayRegion { overlay: region.id },
            byte_range: range,
            backing: ArenaBacking::Wram,
            alignment: input.policy.arena_alignment_default,
            zerofill: input.policy.arena_zerofill_policy,
            slots,
        };
        parts.wram_arenas.push(arena);
        parts.overlay_to_arena.push(OverlayArenaBinding { overlay: region.id, arena: id });
        parts.honor_entries.push(
            OverlayReservationHonorEntry {
                overlay_id: region.id,
                arena_id: id,
                bytes: region.bytes,
                byte_range: range,
            },
        );
        parts.wram_cursor = parts.wram_cursor.saturating_add(region.bytes as u32);
        parts.reservation_total = parts.reservation_total.saturating_add(region.bytes as u32);
        proof {
            assert(arena_views(parts.wram_arenas@) =~= arena_views(arenas_before).push(arena@));
            assert(parts@ == overlay_region_step(*input, before, *region)->Ok_0);
        }
        r = r + 1;
    }
    proof {
        assert(regions@.take(r as int) =~= regions@);
    }
    None
}

/// The runtime-owned HRAM cells: arena, kind and size.
pub open spec fn runtime_cells() -> Seq<(NamedArena, RuntimeFixedKind, u16)> {
    seq![
        (NamedArena::HramFrameFlags, RuntimeFixedKind::HramFrameFlags, 1u16),
        (NamedArena::HramBankShadow, RuntimeFixedKind::HramBankShadow, 1u16),
        (NamedArena::HramFaultCode, RuntimeFixedKind::HramFaultCode, 1u16),
        (NamedArena::HramSchedulerScratch, RuntimeFixedKind::HramSchedulerScratch, 8u16),
        (NamedArena::HramYieldRequested, RuntimeFixedKind::HramYieldRequested, 1u16),
    ]
}

/// The slot of a runtime-owned HRAM cell.
pub open spec fn runtime_cell_slot(kind: RuntimeFixedKind, size: u16, id: u32) -> ArenaSlot {
    ArenaSlot {
        id: ArenaSlotId(id),
        byte_offset: 0,
        size_bytes: size,
        alias_class_id: None,
        lifetime_class: LifetimeClass::Session,
        binding_kind: SlotBindingKind::RuntimeFixed { runtime_kind: kind },
        binding_ref: SlotBindingRef::RuntimeFixed { runtime_kind: kind },
    }
}

/// `parts` with a slot for each of `cells`, in turn.
pub open spec fn add_runtime_cells(parts: PartsView, cells: Seq<(NamedArena, RuntimeFixedKind, u16)>) -> PartsView
    decreases cells.len(),
{
    if cells.len() == 0 {
        parts
    } else {
        let earlier = add_runtime_cells(parts, cells.drop_last());
        let cell = cells.last();
        PartsView {
            slot_id: sat_add(earlier.slot_id as int, 1),
            builders: spec_push_slot(
                earlier.builders,
                cell.0,
                ArenaBacking::Hram,
                runtime_cell_slot(cell.1, cell.2, earlier.slot_id),
            ),
            ..earlier
        }
    }
}

/// The runtime-owned HRAM cells, each in its own arena.
fn add_runtime_hram_slots(parts: &mut PlanParts)
    ensures
        final(parts)@ == add_runtime_cells(old(parts)@, runtime_cells()),
{
    let cells: Vec<(NamedArena, RuntimeFixedKind, u16)> = vec![
        (NamedArena::HramFrameFlags, RuntimeFixedKind::HramFrameFlags, 1),
        (NamedArena::HramBankShadow, RuntimeFixedKind::HramBankShadow, 1),
        (NamedArena::HramFaultCode, RuntimeFixedKind::HramFaultCode, 1),
        (NamedArena::HramSchedulerScratch, RuntimeFixedKind::HramSchedulerScratch, 8),
        (NamedArena::HramYieldRequested, RuntimeFixedKind::HramYieldRequested, 1),
    ];
    proof {
        assert(cells@ =~= runtime_cells());
        assert(cells@.take(0) =~= Seq::<(NamedArena, RuntimeFixedKind, u16)>::empty());
    }
    let ghost start = parts@;
    let mut i: usize = 0;
    while i < cells.len()
        invariant
            i <= cells@.len(),
            cells@ == runtime_cells(),
            start == old(parts)@,
            parts@ == add_runtime_cells(start, cells@.take(i as int)),
        decreases cells@.len() - i,
    {
        let (named, kind, size) = cells[i];
        let ghost before = parts@;
        let id = next_slot_id(&mut parts.slot_id);
        push_slot(
            &mut parts.builders,
            named,
            ArenaBacking::Hram,
            ArenaSlot {
                id,
                byte_offset: 0,
                size_bytes: size,
                alias_class_id: None,
                lifetime_class: LifetimeClass::Session,
                binding_kind: SlotBindingKind::RuntimeFixed { runtime_kind: kind },
                binding_ref: SlotBindingRef::RuntimeFixed { runtime_kind: kind },
            },
        );
        proof {
            assert(cells@.take(i + 1).drop_last() =~= cells@.take(i as int));
            assert(cells@.take(i + 1).last() == cells@[i as int]);
        }
        i = i + 1;
    }
    proof {
        assert(cells@.take(i as int) =~= cells@);
    }
}

/// The position of the last storage binding of `value`.
pub open spec fn spec_last_storage(input: ArenaPlanInputs, value: ValueId) -> Option<int> {
    let bindings = input.storage_bindings@;
    if exists|i: int| 0 <= i < bindings.len() && (#[trigger] bindings[i]).binding.value == value {
        Some(
            choose|i: int|
                0 <= i < bindings.len() && bindings[i].binding.value == value && forall|j: int|
                    i < j < bindings.len() ==> (#[trigger] bindings[j]).binding.value != value,
        )
    } else {
        None
    }
}

/// The position of the last storage binding of `value`: later bindings of a
/// value replace earlier ones.
fn last_storage_binding(input: &ArenaPlanInputs, value: ValueId) -> (found: Option<usize>)
    ensures
        found matches Some(i) ==> i < input.storage_bindings@.len() && spec_last_storage(*input, value) == Some(i as int),
        found is None ==> spec_last_storage(*input, value) is None,
{
    let bindings = &input.storage_bindings;
    let mut found: Option<usize> = None;
    let mut i: usize = 0;
    while i < bindings.len()
        invariant
            i <= bindings@.len(),
            bindings == &input.storage_bindings,
            found matches Some(f) ==> f < i && bindings@[f as int].binding.value == value && forall|j: int|
                f < j < i ==> (#[trigger] bindings@[j]).binding.value != value,
            found is None ==> forall|j: int| 0 <= j < i ==> (#[trigger] bindings@[j]).binding.value != value,
        decreases bindings@.len() - i,
    {
        if bindings[i].binding.value == value {
            found = Some(i);
        }
        i = i + 1;
    }
    proof {
        if let Some(f) = found {
            let c = choose|c: int|
                0 <= c < bindings@.len() && bindings@[c].binding.value == value && forall|j: int|
                    c < j < bindings@.len() ==> (#[trigger] bindings@[j]).binding.value != value;
            if c < f {
                assert(bindings@[f as int].binding.value != value);
            }
            if c > f {
                assert(bindings@[c].binding.value != value);
            }
        }
    }
    found
}

/// The bytes of one persistent page slot: payload, header and commit word,
/// saturating.
pub open spec fn spec_page_size(geometry: PersistentPageGeometry) -> u32 {
    sat_add(sat_add(geometry.payload_bytes as int, geometry.header_bytes as int) as int, geometry.commit_word_bytes as int)
}

/// One of the two slots of a persistent page.
pub open spec fn persistent_page_slot(binding: SramPageBinding, page_size: u16, id: u32, is_a: bool) -> ArenaSlot {
    ArenaSlot {
        id: ArenaSlotId(id),
        byte_offset: 0,
        size_bytes: page_size,
        alias_class_id: None,
        lifetime_class: LifetimeClass::Persistent,
        binding_kind: if is_a {
            SlotBindingKind::PersistentPageA { page: binding.page, commit_group: binding.commit_group }
        } else {
            SlotBindingKind::PersistentPageB { page: binding.page, commit_group: binding.commit_group }
        },
        binding_ref: SlotBindingRef::Value { value: binding.binding_id },
    }
}

/// One of the two slots of a persistent page.
fn persistent_slot(next_slot: &mut u32, binding: &SramPageBinding, page_size: u16, is_a: bool) -> (slot: ArenaSlot)
    ensures
        slot == persistent_page_slot(*binding, page_size, *old(next_slot), is_a),
        *final(next_slot) == sat_add(*old(next_slot) as int, 1),
{
    let id = next_slot_id(next_slot);
    ArenaSlot {
        id,
        byte_offset: 0,
        size_bytes: page_size,
        alias_class_id: None,
        lifetime_class: LifetimeClass::Persistent,
        binding_kind: if is_a {
            SlotBindingKind::PersistentPageA { page: binding.page, commit_group: binding.commit_group }
        } else {
            SlotBindingKind::PersistentPageB { page: binding.page, commit_group: binding.commit_group }
        },
        binding_ref: SlotBindingRef::Value { value: binding.binding_id },
    }
}

/// Bindings `j` and `k` are on the same SRAM page.
pub open spec fn same_page(bindings: Seq<SramPageBinding>, j: int, k: int) -> bool {
    bindings[j].page == bindings[k].page
}

/// The first binding before `k` on the page of binding `k`, if any.
pub open spec fn first_on_page(bindings: Seq<SramPageBinding>, k: int) -> Option<int> {
    if exists|j: int| 0 <= j < k && #[trigger] same_page(bindings, j, k) {
        Some(
            choose|j: int|
                0 <= j < k && same_page(bindings, j, k) && forall|i: int| 0 <= i < j ==> !#[trigger] same_page(bindings, i, k),
        )
    } else {
        None
    }
}

/// `parts` with the A/B slot pair of a persisted binding in the arena of its
/// sequence stream, and the pair and its witness recorded.
pub open spec fn with_page_pair(
    parts: PartsView,
    binding: SramPageBinding,
    page_size: u32,
    page: PersistPageId,
    commit_group: CommitGroupId,
) -> PartsView {
    let slot_a = persistent_page_slot(binding, page_size as u16, parts.slot_id, true);
    let slot_b = persistent_page_slot(binding, page_size as u16, sat_add(parts.slot_id as int, 1), false);
    let named = NamedArena::SramSequenceStatePages { stream: binding.sequence_stream };
    PartsView {
        slot_id: sat_add(sat_add(parts.slot_id as int, 1) as int, 1),
        builders: spec_push_slot(spec_push_slot(parts.builders, named, ArenaBacking::Sram, slot_a), named, ArenaBacking::Sram, slot_b),
        persist_to_slot_pair: parts.persist_to_slot_pair.push(
            PersistSlotPairBinding {
                value: binding.binding_id,
                persist_page: page,
                sram_page: binding.page,
                commit_group,
                slot_a: slot_a.id,
                slot_b: slot_b.id,
            },
        ),
        persistent_witnesses: parts.persistent_witnesses.push(
            ArenaPersistentPageWitness {
                value: binding.binding_id,
                sram_page: binding.page,
                commit_group,
                slot_a: slot_a.id,
                slot_b: slot_b.id,
                slot_size_bytes: page_size as u16,
            },
        ),
        ..parts
    }
}

fn add_page_pair(
    parts: &mut PlanParts,
    binding: &SramPageBinding,
    page_size: u32,
    page: PersistPageId,
    commit_group: CommitGroupId,
)
    requires
        page_size <= u16::MAX,
    ensures
        final(parts)@ == with_page_pair(old(parts)@, *binding, page_size, page, commit_group),
{
    let slot_a = persistent_slot(&mut parts.slot_id, binding, page_size as u16, true);
    let slot_b = persistent_slot(&mut parts.slot_id, binding, page_size as u16, false);
    let slot_a_id = slot_a.id;
    let slot_b_id = slot_b.id;
    let named = NamedArena::SramSequenceStatePages { stream: binding.sequence_stream };
    push_slot(&mut parts.builders, named, ArenaBacking::Sram, slot_a);
    push_slot(&mut parts.builders, named, ArenaBacking::Sram, slot_b);
    parts.persist_to_slot_pair.push(
        PersistSlotPairBinding {
            value: binding.binding_id,
            persist_page: page,
            sram_page: binding.page,
            commit_group,
            slot_a: slot_a_id,
            slot_b: slot_b_id,
        },
    );
    parts.persistent_witnesses.push(
        ArenaPersistentPageWitness {
            value: binding.binding_id,
            sram_page: binding.page,
            commit_group,
            slot_a: slot_a_id,
            slot_b: slot_b_id,
            slot_size_bytes: page_size as u16,
        },
    );
}

/// Persisted binding `k` laid out after `parts`: an A/B slot pair in the
/// arena of its sequence stream; refused when its page already belongs to
/// another stream or it has no storage binding.
#[verifier::opaque]
pub open spec fn persistent_step(input: ArenaPlanInputs, parts: PartsView, k: int, page_size: u32) -> Result<
    PartsView,
    ArenaPlanDiagnostic,
> {
    let bindings = input.sram_page_plan.bindings@;
    let binding = bindings[k];
    if first_on_page(bindings, k) is Some && bindings[first_on_page(bindings, k)->Some_0].sequence_stream
        != binding.sequence_stream {
        Err(
            ArenaPlanDiagnostic {
                code: ArenaPlanDiagnosticCode::ArenaCrossStreamPageSharing,
                provenance: ArenaPlanDiagnosticProvenance::Binding {
                    invariant: ArenaRule::ApSc2,
                    binding_id: binding.binding_id.0,
                },
            },
        )
    } else if spec_last_storage(input, binding.binding_id) is None {
        Err(
            ArenaPlanDiagnostic {
                code: ArenaPlanDiagnosticCode::ArenaPersistentPageStreamMismatch,
                provenance: ArenaPlanDiagnosticProvenance::Binding {
                    invariant: ArenaRule::FAddr14,
                    binding_id: binding.binding_id.0,
                },
            },
        )
    } else {
        match input.storage_bindings@[spec_last_storage(input, binding.binding_id)->Some_0].binding.materialization {
            Materialization::Persist { page, commit_group } => Ok(with_page_pair(parts, binding, page_size, page, commit_group)),
            _ => Ok(parts),
        }
    }
}

proof fn lemma_persistent_step(input: ArenaPlanInputs, parts: PartsView, k: int, page_size: u32, owner_clash: bool)
    requires
        owner_clash == (first_on_page(input.sram_page_plan.bindings@, k) is Some
            && input.sram_page_plan.bindings@[first_on_page(input.sram_page_plan.bindings@, k)->Some_0].sequence_stream
            != input.sram_page_plan.bindings@[k].sequence_stream),
    ensures
        ({
            let binding = input.sram_page_plan.bindings@[k];
            let storage = spec_last_storage(input, binding.binding_id);
            persistent_step(input, parts, k, page_size) == if owner_clash {
                Err::<PartsView, ArenaPlanDiagnostic>(
                    ArenaPlanDiagnostic {
                        code: ArenaPlanDiagnosticCode::ArenaCrossStreamPageSharing,
                        provenance: ArenaPlanDiagnosticProvenance::Binding {
                            invariant: ArenaRule::ApSc2,
                            binding_id: binding.binding_id.0,
                        },
                    },
                )
            } else if storage is None {
                Err::<PartsView, ArenaPlanDiagnostic>(
                    ArenaPlanDiagnostic {
                        code: ArenaPlanDiagnosticCode::ArenaPersistentPageStreamMismatch,
                        provenance: ArenaPlanDiagnosticProvenance::Binding {
                            invariant: ArenaRule::FAddr14,
                            binding_id: binding.binding_id.0,
                        },
                    },
                )
            } else {
                match input.storage_bindings@[storage->Some_0].binding.materialization {
                    Materialization::Persist { page, commit_group } => Ok::<PartsView, ArenaPlanDiagnostic>(
                        with_page_pair(parts, binding, page_size, page, commit_group),
                    ),
                    _ => Ok::<PartsView, ArenaPlanDiagnostic>(parts),
                }
            }
        }),
{
    reveal(persistent_step);
}

/// The first `n` persisted bindings laid out one after another, or the
/// first refusal.
pub open spec fn persistent_bindings(input: ArenaPlanInputs, parts: PartsView, n: int, page_size: u32) -> Result<
    PartsView,
    ArenaPlanDiagnostic,
>
    decreases n,
{
    if n <= 0 {
        Ok(parts)
    } else {
        match persistent_bindings(input, parts, n - 1, page_size) {
            Ok(laid_out) => persistent_step(input, laid_out, n - 1, page_size),
            Err(failure) => Err(failure),
        }
    }
}

/// The persistent page pairs laid out after `parts`; refused first when a
/// page slot does not fit the SRAM window or 16 bits.
pub open spec fn persistent_phase(input: ArenaPlanInputs, parts: PartsView) -> Result<PartsView, ArenaPlanDiagnostic> {
    let page_size = spec_page_size(input.policy.persistent_page_geometry);
    if page_size > input.target_profile.sram_window_bytes || page_size > u16::MAX {
        Err(
            ArenaPlanDiagnostic {
                code: ArenaPlanDiagnosticCode::ArenaSramSpanForbidden,
                provenance: ArenaPlanDiagnosticProvenance::Slot {
                    invariant: ArenaRule::FAddr8,
                    slot_id: 0,
                    observed_bytes: page_size,
                    cap_bytes: input.target_profile.sram_window_bytes,
                },
            },
        )
    } else {
        persistent_bindings(input, parts, input.sram_page_plan.bindings@.len() as int, page_size)
    }
}

proof fn lemma_persistent_failure_stays(input: ArenaPlanInputs, parts: PartsView, n: int, m: int, page_size: u32)
    requires
        0 <= n <= m,
        persistent_bindings(input, parts, n, page_size) is Err,
    ensures
        persistent_bindings(input, parts, m, page_size) == persistent_bindings(input, parts, n, page_size),
    decreases m - n,
{
    if n < m {
        lemma_persistent_failure_stays(input, parts, n, m - 1, page_size);
    }
}

/// Each page of the bindings before `b` listed once, with the stream of the
/// first binding on it.
#[verifier::opaque]
pub open spec fn page_owners_so_far(owners: Seq<(PageId, SequenceStreamId)>, bindings: Seq<SramPageBinding>, b: int) -> bool {
    &&& forall|q: int|
        0 <= q < owners.len() ==> exists|w: int|
            0 <= w < b && first_on_page(bindings, w) is None && #[trigger] owners[q] == (
                bindings[w].page,
                bindings[w].sequence_stream,
            )
    &&& forall|j: int| 0 <= j < b ==> #[trigger] page_listed(owners, bindings[j].page)
    &&& forall|q1: int, q2: int| 0 <= q1 < q2 < owners.len() ==> (#[trigger] owners[q1]).0 != (#[trigger] owners[q2]).0
}

proof fn lemma_page_owned(owners: Seq<(PageId, SequenceStreamId)>, bindings: Seq<SramPageBinding>, b: int, p: int)
    requires
        0 <= b < bindings.len(),
        page_owners_so_far(owners, bindings, b),
        0 <= p < owners.len(),
        owners[p].0 == bindings[b].page,
    ensures
        first_on_page(bindings, b) is Some,
        bindings[first_on_page(bindings, b)->Some_0].sequence_stream == owners[p].1,
        page_owners_so_far(owners, bindings, b + 1),
{
    reveal(page_owners_so_far);
    let w = choose|w: int|
        0 <= w < b && first_on_page(bindings, w) is None && #[trigger] owners[p] == (
            bindings[w].page,
            bindings[w].sequence_stream,
        );
    assert(same_page(bindings, w, b));
    assert forall|i: int| 0 <= i < w implies !#[trigger] same_page(bindings, i, b) by {
        if same_page(bindings, i, b) {
            assert(same_page(bindings, i, w));
        }
    }
    let c = choose|c: int|
        0 <= c < b && same_page(bindings, c, b) && forall|i: int| 0 <= i < c ==> !#[trigger] same_page(bindings, i, b);
    if c > w {
        assert(!same_page(bindings, w, b));
    }
    assert(first_on_page(bindings, b) == Some(w));
    assert forall|q: int| 0 <= q < owners.len() implies exists|x: int|
        0 <= x < b + 1 && first_on_page(bindings, x) is None && #[trigger] owners[q] == (
            bindings[x].page,
            bindings[x].sequence_stream,
        ) by {
        let x = choose|x: int|
            0 <= x < b && first_on_page(bindings, x) is None && #[trigger] owners[q] == (
                bindings[x].page,
                bindings[x].sequence_stream,
            );
    }
    assert forall|j: int| 0 <= j < b + 1 implies #[trigger] page_listed(owners, bindings[j].page) by {
        if j == b {
            assert(owners[p].0 == bindings[j].page);
        }
    }
}

proof fn lemma_page_unowned(
    owners: Seq<(PageId, SequenceStreamId)>,
    bindings: Seq<SramPageBinding>,
    b: int,
)
    requires
        0 <= b < bindings.len(),
        page_owners_so_far(owners, bindings, b),
        forall|q: int| 0 <= q < owners.len() ==> (#[trigger] owners[q]).0 != bindings[b].page,
    ensures
        first_on_page(bindings, b) is None,
        page_owners_so_far(owners.push((bindings[b].page, bindings[b].sequence_stream)), bindings, b + 1),
{
    reveal(page_owners_so_far);
    let grown = owners.push((bindings[b].page, bindings[b].sequence_stream));
    assert forall|j: int| 0 <= j < b implies !#[trigger] same_page(bindings, j, b) by {
        assert(page_listed(owners, bindings[j].page));
        let q = choose|q: int| 0 <= q < owners.len() && (#[trigger] owners[q]).0 == bindings[j].page;
    }
    assert(first_on_page(bindings, b) is None);
    assert forall|q: int| 0 <= q < grown.len() implies exists|x: int|
        0 <= x < b + 1 && first_on_page(bindings, x) is None && #[trigger] grown[q] == (
            bindings[x].page,
            bindings[x].sequence_stream,
        ) by {
        if q < owners.len() {
            assert(grown[q] == owners[q]);
            let x = choose|x: int|
                0 <= x < b && first_on_page(bindings, x) is None && #[trigger] owners[q] == (
                    bindings[x].page,
                    bindings[x].sequence_stream,
                );
        } else {
            assert(grown[q] == (bindings[b].page, bindings[b].sequence_stream));
        }
    }
    assert forall|j: int| 0 <= j < b + 1 implies #[trigger] page_listed(grown, bindings[j].page) by {
        if j < b {
            assert(page_listed(owners, bindings[j].page));
            let q = choose|q: int| 0 <= q < owners.len() && (#[trigger] owners[q]).0 == bindings[j].page;
            assert(grown[q] == owners[q]);
        } else {
            assert(grown[owners.len() as int].0 == bindings[j].page);
        }
    }
    assert forall|q1: int, q2: int| 0 <= q1 < q2 < grown.len() implies (#[trigger] grown[q1]).0 != (#[trigger] grown[q2]).0 by {
        if q2 == owners.len() {
            assert(grown[q1] == owners[q1]);
        } else {
            assert(grown[q1] == owners[q1]);
            assert(grown[q2] == owners[q2]);
        }
    }
}

/// `page` has an owner listed.
pub open spec fn page_listed(owners: Seq<(PageId, SequenceStreamId)>, page: PageId) -> bool {
    exists|q: int| 0 <= q < owners.len() && (#[trigger] owners[q]).0 == page
}

fn find_page(owners: &Vec<(PageId, SequenceStreamId)>, page: PageId) -> (found: Option<usize>)
    ensures
        found matches Some(p) ==> p < owners@.len() && owners@[p as int].0 == page,
        found is None ==> forall|q: int| 0 <= q < owners@.len() ==> (#[trigger] owners@[q]).0 != page,
{
    let mut p: usize = 0;
    while p < owners.len()
        invariant
            p <= owners@.len(),
            forall|q: int| 0 <= q < p ==> (#[trigger] owners@[q]).0 != page,
        decreases owners@.len() - p,
    {
        if owners[p].0 == page {
            return Some(p);
        }
        p = p + 1;
    }
    None
}

/// An A/B slot pair for every persisted value of the SRAM page plan, in the
/// arena of its sequence stream.
fn add_persistent_slots(input: &ArenaPlanInputs, parts: &mut PlanParts) -> (failure: Option<ArenaPlanDiagnostic>)
    ensures
        match failure {
            Some(d) => persistent_phase(*input, old(parts)@) == Err::<PartsView, ArenaPlanDiagnostic>(d),
            None => persistent_phase(*input, old(parts)@) == Ok::<PartsView, ArenaPlanDiagnostic>(final(parts)@),
        },
{
    let geometry = input.policy.persistent_page_geometry;
    let page_size: u32 = geometry.payload_bytes.saturating_add(geometry.header_bytes as u32).saturating_add(
        geometry.commit_word_bytes as u32,
    );
    if page_size > input.target_profile.sram_window_bytes || page_size > u16::MAX as u32 {
        return diagnostic(
            ArenaPlanDiagnosticCode::ArenaSramSpanForbidden,
            ArenaPlanDiagnosticProvenance::Slot {
                invariant: ArenaRule::FAddr8,
                slot_id: 0,
                observed_bytes: page_size,
                cap_bytes: input.target_profile.sram_window_bytes,
            },
        );
    }
    let ghost start = parts@;
    let mut page_stream: Vec<(PageId, SequenceStreamId)> = Vec::new();
    proof {
        reveal(page_owners_so_far);
    }
    let bindings = &input.sram_page_plan.bindings;
    let mut b: usize = 0;
    while b < bindings.len()
        invariant
            b <= bindings@.len(),
            bindings == &input.sram_page_plan.bindings,
            page_size <= u16::MAX,
            page_size == spec_page_size(input.policy.persistent_page_geometry),
            page_size <= input.target_profile.sram_window_bytes,
            start == old(parts)@,
            persistent_bindings(*input, start, b as int, page_size) == Ok::<PartsView, ArenaPlanDiagnostic>(parts@),
            page_owners_so_far(page_stream@, bindings@, b as int),
        decreases bindings@.len() - b,
    {
        let ghost before = parts@;
        let failure = place_persisted_binding(input, parts, &mut page_stream, b, page_size);
        if failure.is_some() {
            proof {
                lemma_persistent_failure_stays(*input, start, b + 1, bindings@.len() as int, page_size);
            }
            return failure;
        }
        b = b + 1;
    }
    None
}

/// Lays out persisted binding `b`, keeping the owner of each page seen.
fn place_persisted_binding(
    input: &ArenaPlanInputs,
    parts: &mut PlanParts,
    page_stream: &mut Vec<(PageId, SequenceStreamId)>,
    b: usize,
    page_size: u32,
) -> (failure: Option<ArenaPlanDiagnostic>)
    requires
        b < input.sram_page_plan.bindings@.len(),
        page_size <= u16::MAX,
        page_owners_so_far(old(page_stream)@, input.sram_page_plan.bindings@, b as int),
    ensures
        match failure {
            Some(d) => persistent_step(*input, old(parts)@, b as int, page_size) == Err::<PartsView, ArenaPlanDiagnostic>(d),
            None => persistent_step(*input, old(parts)@, b as int, page_size) == Ok::<PartsView, ArenaPlanDiagnostic>(
                final(parts)@,
            ) && page_owners_so_far(final(page_stream)@, input.sram_page_plan.bindings@, b + 1),
        },
{
    let bindings = &input.sram_page_plan.bindings;
    let binding = &bindings[b];
    let ghost owners = page_stream@;
    let found = find_page(page_stream, binding.page);
    match found {
        Some(p) => {
            let stream = page_stream[p].1;
            proof {
                lemma_page_owned(owners, bindings@, b as int, p as int);
                lemma_persistent_step(*input, old(parts)@, b as int, page_size, stream != binding.sequence_stream);
            }
            if stream != binding.sequence_stream {
                return diagnostic(
                    ArenaPlanDiagnosticCode::ArenaCrossStreamPageSharing,
                    ArenaPlanDiagnosticProvenance::Binding {
                        invariant: ArenaRule::ApSc2,
                        binding_id: binding.binding_id.get(),
                    },
                );
            }
        },
        None => {
            proof {
                lemma_page_unowned(owners, bindings@, b as int);
                lemma_persistent_step(*input, old(parts)@, b as int, page_size, false);
            }
            page_stream.push((binding.page, binding.sequence_stream));
        },
    }
    let storage = match last_storage_binding(input, binding.binding_id) {
        Some(storage) => storage,
        None => {
            return diagnostic(
                ArenaPlanDiagnosticCode::ArenaPersistentPageStreamMismatch,
                ArenaPlanDiagnosticProvenance::Binding {
                    invariant: ArenaRule::FAddr14,
                    binding_id: binding.binding_id.get(),
                },
            );
        },
    };
    if let Materialization::Persist { page, commit_group } = input.storage_bindings[storage].binding.materialization {
        add_page_pair(parts, binding, page_size, page, commit_group);
    }
    None
}

/// The values of one (arena, alias class) group, as values.
pub struct GroupView {
    pub named: NamedArena,
    pub alias_class: AliasClassId,
    pub backing: ArenaBacking,
    pub lifetime: LifetimeClass,
    pub size_bytes: u16,
    pub first_value: ValueId,
    pub values: Seq<ValueId>,
}

pub closed spec fn group_view(group: MaterializeGroup) -> GroupView {
    GroupView {
        named: group.named,
        alias_class: group.alias_class,
        backing: group.backing,
        lifetime: group.lifetime,
        size_bytes: group.size_bytes,
        first_value: group.first_value,
        values: group.values@,
    }
}

pub closed spec fn group_views(groups: Seq<MaterializeGroup>) -> Seq<GroupView> {
    groups.map_values(|group: MaterializeGroup| group_view(group))
}

/// The position of the group of `named` and `alias_class`, if any.
pub open spec fn group_position(groups: Seq<GroupView>, named: NamedArena, alias_class: AliasClassId) -> Option<int> {
    if exists|g: int| 0 <= g < groups.len() && (#[trigger] groups[g]).named == named && groups[g].alias_class == alias_class {
        Some(
            choose|g: int|
                0 <= g < groups.len() && groups[g].named == named && groups[g].alias_class == alias_class && forall|j: int|
                    0 <= j < g ==> !((#[trigger] groups[j]).named == named && groups[j].alias_class == alias_class),
        )
    } else {
        None
    }
}

/// The groups once storage binding `entry` is counted: a materialized value
/// joins the group of its arena and alias class, which takes the larger
/// size and the smaller first value; refused when it is empty or beyond 16
/// bits, when its class has no arena, or when its group lives otherwise.
pub open spec fn group_step(groups: Seq<GroupView>, entry: ArenaPlanBindingInput) -> Result<Seq<GroupView>, ArenaPlanDiagnostic> {
    let value = entry.binding.value;
    match entry.binding.materialization {
        Materialization::Materialize { class, lifetime } => {
            if entry.size_bytes == 0 || entry.size_bytes > u16::MAX {
                Err(
                    ArenaPlanDiagnostic {
                        code: ArenaPlanDiagnosticCode::ArenaAllocationFailed,
                        provenance: ArenaPlanDiagnosticProvenance::Binding { invariant: ArenaRule::ApSc1, binding_id: value.0 },
                    },
                )
            } else if spec_arena_for(class, lifetime) is None {
                Err(
                    ArenaPlanDiagnostic {
                        code: ArenaPlanDiagnosticCode::ArenaUnmappedStorageClass,
                        provenance: ArenaPlanDiagnosticProvenance::Binding { invariant: ArenaRule::ApSc8, binding_id: value.0 },
                    },
                )
            } else {
                let named = spec_arena_for(class, lifetime)->Some_0;
                let alias_class = entry.binding.alias_class;
                let size = entry.size_bytes as u16;
                match group_position(groups, named, alias_class) {
                    None => Ok(
                        groups.push(
                            GroupView {
                                named,
                                alias_class,
                                backing: spec_backing_for(named),
                                lifetime,
                                size_bytes: size,
                                first_value: value,
                                values: seq![value],
                            },
                        ),
                    ),
                    Some(g) => {
                        let group = groups[g];
                        if group.lifetime != lifetime {
                            Err(
                                ArenaPlanDiagnostic {
                                    code: ArenaPlanDiagnosticCode::ArenaLifetimeClassMismatch,
                                    provenance: ArenaPlanDiagnosticProvenance::AliasClass {
                                        invariant: ArenaRule::ApSc7,
                                        alias_class_id: alias_class.0,
                                    },
                                },
                            )
                        } else {
                            Ok(
                                groups.update(
                                    g,
                                    GroupView {
                                        size_bytes: if size > group.size_bytes { size } else { group.size_bytes },
                                        first_value: if value.0 < group.first_value.0 { value } else { group.first_value },
                                        values: group.values.push(value),
                                        ..group
                                    },
                                ),
                            )
                        }
                    },
                }
            }
        },
        _ => Ok(groups),
    }
}

/// The groups of the first `n` storage bindings, or the first refusal.
pub open spec fn grouped(input: ArenaPlanInputs, n: int) -> Result<Seq<GroupView>, ArenaPlanDiagnostic>
    decreases n,
{
    if n <= 0 {
        Ok(Seq::empty())
    } else {
        match grouped(input, n - 1) {
            Ok(groups) => group_step(groups, input.storage_bindings@[n - 1]),
            Err(failure) => Err(failure),
        }
    }
}

proof fn lemma_grouped_failure_stays(input: ArenaPlanInputs, n: int, m: int)
    requires
        0 <= n <= m,
        grouped(input, n) is Err,
    ensures
        grouped(input, m) == grouped(input, n),
    decreases m - n,
{
    if n < m {
        lemma_grouped_failure_stays(input, n, m - 1);
    }
}

fn find_group(groups: &Vec<MaterializeGroup>, named: NamedArena, alias_class: AliasClassId) -> (found: Option<usize>)
    ensures
        found matches Some(g) ==> g < groups@.len() && group_position(group_views(groups@), named, alias_class) == Some(g as int),
        found is None ==> group_position(group_views(groups@), named, alias_class) is None,
{
    let ghost views = group_views(groups@);
    proof {
        assert forall|j: int| 0 <= j < groups@.len() implies #[trigger] views[j] == group_view(groups@[j]) by {}
    }
    let mut g: usize = 0;
    while g < groups.len()
        invariant
            g <= groups@.len(),
            views == group_views(groups@),
            forall|j: int| 0 <= j < groups@.len() ==> #[trigger] views[j] == group_view(groups@[j]),
            forall|j: int| 0 <= j < g ==> !((#[trigger] views[j]).named == named && views[j].alias_class == alias_class),
        decreases groups@.len() - g,
    {
        if groups[g].named == named && groups[g].alias_class == alias_class {
            proof {
                assert(views[g as int].named == named && views[g as int].alias_class == alias_class);
                let c = choose|c: int|
                    0 <= c < views.len() && views[c].named == named && views[c].alias_class == alias_class && forall|j: int|
                        0 <= j < c ==> !((#[trigger] views[j]).named == named && views[j].alias_class == alias_class);
                if c > g {
                    assert(!(views[g as int].named == named && views[g as int].alias_class == alias_class));
                }
            }
            return Some(g);
        }
        g = g + 1;
    }
    None
}

/// Counts one storage binding into the groups.
#[verifier::spinoff_prover]
#[verifier::rlimit(50)]
fn group_binding(groups: &mut Vec<MaterializeGroup>, binding: ArenaPlanBindingInput) -> (failure: Option<ArenaPlanDiagnostic>)
    ensures
        match failure {
            Some(d) => group_step(group_views(old(groups)@), binding) == Err::<Seq<GroupView>, ArenaPlanDiagnostic>(d),
            None => group_step(group_views(old(groups)@), binding) == Ok::<Seq<GroupView>, ArenaPlanDiagnostic>(
                group_views(final(groups)@),
            ),
        },
{
    let ghost before = group_views(groups@);
    if let Materialization::Materialize { class, lifetime } = binding.binding.materialization {
        if binding.size_bytes == 0 || binding.size_bytes > u16::MAX as u32 {
            return diagnostic(
                ArenaPlanDiagnosticCode::ArenaAllocationFailed,
                ArenaPlanDiagnosticProvenance::Binding { invariant: ArenaRule::ApSc1, binding_id: binding.binding.value.get() },
            );
        }
        let named = match arena_for(class, lifetime) {
            Some(named) => named,
            None => {
                return diagnostic(
                    ArenaPlanDiagnosticCode::ArenaUnmappedStorageClass,
                    ArenaPlanDiagnosticProvenance::Binding {
                        invariant: ArenaRule::ApSc8,
                        binding_id: binding.binding.value.get(),
                    },
                );
            },
        };
        let alias_class = binding.binding.alias_class;
        let size = binding.size_bytes as u16;
        match find_group(groups, named, alias_class) {
            None => {
                let mut values: Vec<ValueId> = Vec::new();
                values.push(binding.binding.value);
                let group = MaterializeGroup {
                    named,
                    alias_class,
                    backing: backing_for(&named),
                    lifetime,
                    size_bytes: size,
                    first_value: binding.binding.value,
                    values,
                };
                proof {
                    assert(group_view(group).values =~= seq![binding.binding.value]);
                }
                groups.push(group);
                proof {
                    assert(group_views(groups@) =~= before.push(group_view(group)));
                }
            },
            Some(g) => {
                let ghost prior = groups@;
                proof {
                    assert(before[g as int] == group_view(prior[g as int]));
                }
                let mut group = groups.remove(g);
                if group.lifetime != lifetime {
                    return diagnostic(
                        ArenaPlanDiagnosticCode::ArenaLifetimeClassMismatch,
                        ArenaPlanDiagnosticProvenance::AliasClass { invariant: ArenaRule::ApSc7, alias_class_id: alias_class.0 },
                    );
                }
                if size > group.size_bytes {
                    group.size_bytes = size;
                }
                if binding.binding.value.0 < group.first_value.0 {
                    group.first_value = binding.binding.value;
                }
                group.values.push(binding.binding.value);
                groups.insert(g, group);
                proof {
                    assert(group_views(groups@) =~= group_step(before, binding)->Ok_0);
                }
            },
        }
    }
    None
}

/// Groups the materialized values by arena and alias class.
fn group_materialized_values(input: &ArenaPlanInputs, groups: &mut Vec<MaterializeGroup>) -> (failure: Option<ArenaPlanDiagnostic>)
    requires
        old(groups)@.len() == 0,
    ensures
        match failure {
            Some(d) => grouped(*input, input.storage_bindings@.len() as int) == Err::<Seq<GroupView>, ArenaPlanDiagnostic>(d),
            None => grouped(*input, input.storage_bindings@.len() as int) == Ok::<Seq<GroupView>, ArenaPlanDiagnostic>(
                group_views(final(groups)@),
            ),
        },
{
    proof {
        assert(group_views(groups@) =~= Seq::<GroupView>::empty());
    }
    let mut i: usize = 0;
    while i < input.storage_bindings.len()
        invariant
            i <= input.storage_bindings@.len(),
            grouped(*input, i as int) == Ok::<Seq<GroupView>, ArenaPlanDiagnostic>(group_views(groups@)),
        decreases input.storage_bindings@.len() - i,
    {
        let failure = group_binding(groups, input.storage_bindings[i]);
        if failure.is_some() {
            proof {
                lemma_grouped_failure_stays(*input, i + 1, input.storage_bindings@.len() as int);
            }
            return failure;
        }
        i = i + 1;
    }
    None
}

/// `values` keyed by their number.
pub open spec fn value_keyed(values: Seq<ValueId>) -> Seq<(u64, ValueId)> {
    values.map_values(|value: ValueId| (value.0 as u64, value))
}

/// `values` in increasing order, equal values as they came.
pub open spec fn sorted_values(values: Seq<ValueId>) -> Seq<ValueId> {
    unkeyed(sort_by_key(value_keyed(values)))
}

/// `values` in increasing order.
fn sort_values(values: Vec<ValueId>) -> (sorted: Vec<ValueId>)
    ensures
        sorted@ == sorted_values(values@),
{
    let ghost initial = values@;
    let mut values = values;
    let mut keyed: Vec<(u64, ValueId)> = Vec::new();
    while values.len() > 0
        invariant
            keyed@.len() + values@.len() == initial.len(),
            keyed@ == value_keyed(initial).take(keyed@.len() as int),
            values@ == initial.skip(keyed@.len() as int),
        decreases values@.len(),
    {
        let ghost done = keyed@.len() as int;
        let value = values.remove(0);
        keyed.push((value.0 as u64, value));
        proof {
            assert(keyed@ =~= value_keyed(initial).take(done + 1));
            assert(values@ =~= initial.skip(done + 1));
        }
    }
    proof {
        assert(value_keyed(initial).take(initial.len() as int) =~= value_keyed(initial));
    }
    unkey(stable_sort_by_key(keyed))
}

/// Groups keyed by alias class.
pub open spec fn alias_keyed(groups: Seq<GroupView>) -> Seq<(u64, GroupView)> {
    groups.map_values(|group: GroupView| (group.alias_class.0 as u64, group))
}

/// Groups keyed by arena.
pub open spec fn arena_keyed(groups: Seq<GroupView>) -> Seq<(u64, GroupView)> {
    groups.map_values(|group: GroupView| (named_key(group.named) as u64, group))
}

/// The groups in the order their slots are made: by arena, then by alias
/// class, then as they came.
pub open spec fn ordered_groups(groups: Seq<GroupView>) -> Seq<GroupView> {
    unkeyed(sort_by_key(arena_keyed(unkeyed(sort_by_key(alias_keyed(groups))))))
}

pub closed spec fn group_view_fn() -> spec_fn(MaterializeGroup) -> GroupView {
    |group: MaterializeGroup| group_view(group)
}

proof fn lemma_unkeyed_groups(keyed: Seq<(u64, MaterializeGroup)>)
    ensures
        group_views(unkeyed(keyed)) == unkeyed(rekey(keyed, group_view_fn())),
{
    assert(group_views(unkeyed(keyed)) =~= unkeyed(rekey(keyed, group_view_fn())));
}

/// The groups sorted by alias class, then by arena.
fn order_groups(groups: Vec<MaterializeGroup>) -> (ordered: Vec<MaterializeGroup>)
    ensures
        group_views(ordered@) == ordered_groups(group_views(groups@)),
{
    let ghost initial = groups@;
    let ghost f = group_view_fn();
    let mut groups = groups;
    let mut by_alias: Vec<(u64, MaterializeGroup)> = Vec::new();
    while groups.len() > 0
        invariant
            f == group_view_fn(),
            by_alias@.len() + groups@.len() == initial.len(),
            rekey(by_alias@, f) == alias_keyed(group_views(initial)).take(by_alias@.len() as int),
            groups@ == initial.skip(by_alias@.len() as int),
        decreases groups@.len(),
    {
        let ghost done = by_alias@.len() as int;
        let group = groups.remove(0);
        by_alias.push((group.alias_class.0 as u64, group));
        proof {
            assert(rekey(by_alias@, f) =~= alias_keyed(group_views(initial)).take(done + 1));
            assert(groups@ =~= initial.skip(done + 1));
        }
    }
    proof {
        assert(alias_keyed(group_views(initial)).take(initial.len() as int) =~= alias_keyed(group_views(initial)));
    }
    let ghost by_alias_view = by_alias@;
    let sorted = stable_sort_by_key(by_alias);
    proof {
        lemma_sort_by_key_rekey(by_alias_view, f);
        lemma_unkeyed_groups(sorted@);
    }
    let by_alias = unkey(sorted);
    let ghost middle = by_alias@;
    let mut by_alias = by_alias;
    let mut by_arena: Vec<(u64, MaterializeGroup)> = Vec::new();
    while by_alias.len() > 0
        invariant
            f == group_view_fn(),
            by_arena@.len() + by_alias@.len() == middle.len(),
            rekey(by_arena@, f) == arena_keyed(group_views(middle)).take(by_arena@.len() as int),
            by_alias@ == middle.skip(by_arena@.len() as int),
        decreases by_alias@.len(),
    {
        let ghost done = by_arena@.len() as int;
        let group = by_alias.remove(0);
        by_arena.push((named_arena_key(group.named), group));
        proof {
            assert(rekey(by_arena@, f) =~= arena_keyed(group_views(middle)).take(done + 1));
            assert(by_alias@ =~= middle.skip(done + 1));
        }
    }
    proof {
        assert(arena_keyed(group_views(middle)).take(middle.len() as int) =~= arena_keyed(group_views(middle)));
    }
    let ghost by_arena_view = by_arena@;
    let sorted = stable_sort_by_key(by_arena);
    proof {
        lemma_sort_by_key_rekey(by_arena_view, f);
        lemma_unkeyed_groups(sorted@);
    }
    unkey(sorted)
}

/// The slot of a group: its largest size, bound to its first value.
pub open spec fn group_slot(group: GroupView, id: u32) -> ArenaSlot {
    ArenaSlot {
        id: ArenaSlotId(id),
        byte_offset: 0,
        size_bytes: group.size_bytes,
        alias_class_id: Some(group.alias_class),
        lifetime_class: group.lifetime,
        binding_kind: SlotBindingKind::MaterializedValue,
        binding_ref: SlotBindingRef::Value { value: group.first_value },
    }
}

/// Each of `values` bound to slot `id`.
pub open spec fn slot_bindings(values: Seq<ValueId>, id: u32) -> Seq<MaterializeSlotBinding> {
    values.map_values(|value: ValueId| MaterializeSlotBinding { value, slot: ArenaSlotId(id) })
}

/// `parts` with the slot of `group` and the bindings of its values.
pub open spec fn group_slot_step(parts: PartsView, group: GroupView) -> PartsView {
    let id = parts.slot_id;
    PartsView {
        slot_id: sat_add(id as int, 1),
        materialize_to_slot: parts.materialize_to_slot + slot_bindings(sorted_values(group.values), id),
        builders: spec_push_slot(parts.builders, group.named, group.backing, group_slot(group, id)),
        ..parts
    }
}

/// `parts` with the slots of `groups`, one after another.
pub open spec fn group_slots(parts: PartsView, groups: Seq<GroupView>) -> PartsView
    decreases groups.len(),
{
    if groups.len() == 0 {
        parts
    } else {
        group_slot_step(group_slots(parts, groups.drop_last()), groups.last())
    }
}

/// The materialized values laid out after `parts`: one slot per group, or
/// the first refusal of the grouping.
pub open spec fn materialized_phase(input: ArenaPlanInputs, parts: PartsView) -> Result<PartsView, ArenaPlanDiagnostic> {
    match grouped(input, input.storage_bindings@.len() as int) {
        Ok(groups) => Ok(group_slots(parts, ordered_groups(groups))),
        Err(failure) => Err(failure),
    }
}

fn add_group_slot(parts: &mut PlanParts, group: MaterializeGroup)
    ensures
        final(parts)@ == group_slot_step(old(parts)@, group_view(group)),
{
    let ghost start = parts@;
    let slot_id = next_slot_id(&mut parts.slot_id);
    let values = sort_values(group.values);
    let ghost bindings_before = parts.materialize_to_slot@;
    let mut v: usize = 0;
    while v < values.len()
        invariant
            v <= values@.len(),
            parts.materialize_to_slot@ == bindings_before + slot_bindings(values@, slot_id.0).take(v as int),
            slot_id.0 == start.slot_id,
            parts@ == (PartsView {
                slot_id: sat_add(start.slot_id as int, 1),
                materialize_to_slot: parts.materialize_to_slot@,
                ..start
            }),
        decreases values@.len() - v,
    {
        let ghost done = v as int;
        parts.materialize_to_slot.push(MaterializeSlotBinding { value: values[v], slot: slot_id });
        v = v + 1;
        proof {
            assert(parts.materialize_to_slot@ =~= bindings_before + slot_bindings(values@, slot_id.0).take(v as int));
        }
    }
    proof {
        assert(slot_bindings(values@, slot_id.0).take(v as int) =~= slot_bindings(values@, slot_id.0));
    }
    push_slot(
        &mut parts.builders,
        group.named,
        group.backing,
        ArenaSlot {
            id: slot_id,
            byte_offset: 0,
            size_bytes: group.size_bytes,
            alias_class_id: Some(group.alias_class),
            lifetime_class: group.lifetime,
            binding_kind: SlotBindingKind::MaterializedValue,
            binding_ref: SlotBindingRef::Value { value: group.first_value },
        },
    );
}

/// One slot per (arena, alias class) group, holding the group's largest
/// value, in the order of arena and then alias class.
fn add_materialized_slots(input: &ArenaPlanInputs, parts: &mut PlanParts) -> (failure: Option<ArenaPlanDiagnostic>)
    ensures
        match failure {
            Some(d) => materialized_phase(*input, old(parts)@) == Err::<PartsView, ArenaPlanDiagnostic>(d),
            None => materialized_phase(*input, old(parts)@) == Ok::<PartsView, ArenaPlanDiagnostic>(final(parts)@),
        },
{
    let mut groups: Vec<MaterializeGroup> = Vec::new();
    let failure = group_materialized_values(input, &mut groups);
    if failure.is_some() {
        return failure;
    }
    let ordered = order_groups(groups);
    let ghost all = group_views(ordered@);
    let ghost start = parts@;
    let total = ordered.len();
    let mut ordered = ordered;
    let mut k: usize = 0;
    proof {
        assert(all.take(0) =~= Seq::<GroupView>::empty());
        assert(group_views(ordered@) =~= all.skip(0));
    }
    while ordered.len() > 0
        invariant
            k + ordered@.len() == all.len(),
            total == all.len(),
            group_views(ordered@) == all.skip(k as int),
            parts@ == group_slots(start, all.take(k as int)),
        decreases ordered@.len(),
    {
        let ghost remaining = ordered@;
        let group = ordered.remove(0);
        proof {
            assert(group_views(remaining)[0] == group_view(group));
            assert(all[k as int] == group_view(group));
            assert(all.take(k + 1).drop_last() =~= all.take(k as int));
        }
        add_group_slot(parts, group);
        k = k + 1;
        proof {
            assert forall|j: int| 0 <= j < ordered@.len() implies #[trigger] group_views(ordered@)[j] == all.skip(k as int)[j] by {
                assert(ordered@[j] == remaining[j + 1]);
                assert(group_views(remaining)[j + 1] == group_view(remaining[j + 1]));
                assert(group_views(remaining)[j + 1] == all.skip(k - 1)[j + 1]);
            }
            assert(group_views(ordered@) =~= all.skip(k as int));
        }
    }
    proof {
        assert(all.take(k as int) =~= all);
    }
    None
}

/// The key that orders slots of one size and alias class: lifetime, then
/// kind, then what the slot is bound to.
pub open spec fn detail_key(slot: ArenaSlot) -> u64 {
    (spec_lifetime_priority(slot.lifetime_class) as int * 0x8_0000_0000 + spec_binding_kind_order(slot.binding_kind) as int
        * 0x1_0000_0000 + spec_binding_ref_order(slot.binding_ref) as int) as u64
}

/// The key that puts larger slots first, then lower alias classes, slots
/// without one last.
pub open spec fn size_key(slot: ArenaSlot) -> u64 {
    let alias: int = match slot.alias_class_id {
        Some(alias) => alias.0 as int,
        None => u32::MAX as int,
    };
    ((u16::MAX - slot.size_bytes) * 0x1_0000_0000 + alias) as u64
}

pub open spec fn detail_keyed(slots: Seq<ArenaSlot>) -> Seq<(u64, ArenaSlot)> {
    slots.map_values(|slot: ArenaSlot| (detail_key(slot), slot))
}

pub open spec fn size_keyed(slots: Seq<ArenaSlot>) -> Seq<(u64, ArenaSlot)> {
    slots.map_values(|slot: ArenaSlot| (size_key(slot), slot))
}

/// The slots of one arena in layout order.
pub open spec fn ordered_slots(slots: Seq<ArenaSlot>) -> Seq<ArenaSlot> {
    unkeyed(sort_by_key(size_keyed(unkeyed(sort_by_key(detail_keyed(slots))))))
}

/// The slots of one arena in layout order: largest first, then by alias
/// class (unaliased last), lifetime, kind and reference.
fn order_slots(slots: Vec<ArenaSlot>) -> (ordered: Vec<ArenaSlot>)
    ensures
        ordered@ == ordered_slots(slots@),
{
    let ghost initial = slots@;
    let mut slots = slots;
    let mut by_detail: Vec<(u64, ArenaSlot)> = Vec::new();
    while slots.len() > 0
        invariant
            by_detail@.len() + slots@.len() == initial.len(),
            by_detail@ == detail_keyed(initial).take(by_detail@.len() as int),
            slots@ == initial.skip(by_detail@.len() as int),
        decreases slots@.len(),
    {
        let ghost done = by_detail@.len() as int;
        let slot = slots.remove(0);
        let key: u64 = lifetime_priority(slot.lifetime_class) as u64 * 0x8_0000_0000
            + binding_kind_order(&slot.binding_kind) as u64 * 0x1_0000_0000
            + binding_ref_order(&slot.binding_ref) as u64;
        by_detail.push((key, slot));
        proof {
            assert(by_detail@ =~= detail_keyed(initial).take(done + 1));
            assert(slots@ =~= initial.skip(done + 1));
        }
    }
    proof {
        assert(detail_keyed(initial).take(initial.len() as int) =~= detail_keyed(initial));
    }
    let by_detail = unkey(stable_sort_by_key(by_detail));
    let ghost middle = by_detail@;
    let mut by_detail = by_detail;
    let mut by_size: Vec<(u64, ArenaSlot)> = Vec::new();
    while by_detail.len() > 0
        invariant
            by_size@.len() + by_detail@.len() == middle.len(),
            by_size@ == size_keyed(middle).take(by_size@.len() as int),
            by_detail@ == middle.skip(by_size@.len() as int),
        decreases by_detail@.len(),
    {
        let ghost done = by_size@.len() as int;
        let slot = by_detail.remove(0);
        let alias: u64 = match slot.alias_class_id {
            Some(alias) => alias.0 as u64,
            None => u32::MAX as u64,
        };
        let key: u64 = (u16::MAX - slot.size_bytes) as u64 * 0x1_0000_0000 + alias;
        by_size.push((key, slot));
        proof {
            assert(by_size@ =~= size_keyed(middle).take(done + 1));
            assert(by_detail@ =~= middle.skip(done + 1));
        }
    }
    proof {
        assert(size_keyed(middle).take(middle.len() as int) =~= size_keyed(middle));
    }
    unkey(stable_sort_by_key(by_size))
}

/// The first `n` slots laid out one after another from offset 0, each at
/// the cursor rounded up to `alignment`, with the cursor past the last; or
/// the slot whose offset leaves 16 bits.
pub open spec fn slot_layout(slots: Seq<ArenaSlot>, n: int, alignment: u32) -> Result<(Seq<ArenaSlot>, u32), ArenaPlanDiagnostic>
    decreases n,
{
    if n <= 0 {
        Ok((Seq::empty(), 0u32))
    } else {
        match slot_layout(slots, n - 1, alignment) {
            Ok(laid) => {
                let slot = slots[n - 1];
                let offset = spec_align_up(laid.1, alignment);
                if offset > u16::MAX {
                    Err(
                        ArenaPlanDiagnostic {
                            code: ArenaPlanDiagnosticCode::ArenaAllocationFailed,
                            provenance: ArenaPlanDiagnosticProvenance::Slot {
                                invariant: ArenaRule::ApSc22,
                                slot_id: slot.id.0,
                                observed_bytes: offset,
                                cap_bytes: u16::MAX as u32,
                            },
                        },
                    )
                } else {
                    Ok((laid.0.push(ArenaSlot { byte_offset: offset as u16, ..slot }), sat_add(offset as int, slot.size_bytes as int)))
                }
            },
            Err(failure) => Err(failure),
        }
    }
}

proof fn lemma_slot_layout_failure_stays(slots: Seq<ArenaSlot>, n: int, m: int, alignment: u32)
    requires
        0 <= n <= m,
        slot_layout(slots, n, alignment) is Err,
    ensures
        slot_layout(slots, m, alignment) == slot_layout(slots, n, alignment),
    decreases m - n,
{
    if n < m {
        lemma_slot_layout_failure_stays(slots, n, m - 1, alignment);
    }
}

/// How far each memory has been handed out: WRAM, SRAM, HRAM.
pub type Cursors = (u32, u32, u32);

pub open spec fn cursor_of(cursors: Cursors, backing: ArenaBacking) -> u32 {
    match backing {
        ArenaBacking::Wram => cursors.0,
        ArenaBacking::Sram => cursors.1,
        ArenaBacking::Hram => cursors.2,
    }
}

pub open spec fn with_cursor(cursors: Cursors, backing: ArenaBacking, value: u32) -> Cursors {
    match backing {
        ArenaBacking::Wram => (value, cursors.1, cursors.2),
        ArenaBacking::Sram => (cursors.0, value, cursors.2),
        ArenaBacking::Hram => (cursors.0, cursors.1, value),
    }
}

/// The usable bytes of a memory.
pub open spec fn memory_cap(input: ArenaPlanInputs, backing: ArenaBacking) -> u32 {
    match backing {
        ArenaBacking::Wram => input.target_profile.wram_usable_bytes,
        ArenaBacking::Sram => input.runtime_chrome_budget.memory_caps.sram_usable_bytes,
        ArenaBacking::Hram => input.target_profile.hram_usable_bytes,
    }
}

/// What an arena that ends past its memory's usable bytes is refused as.
pub open spec fn over_cap_code(backing: ArenaBacking) -> ArenaPlanDiagnosticCode {
    match backing {
        ArenaBacking::Hram => ArenaPlanDiagnosticCode::ArenaHramUsableCapExceeded,
        ArenaBacking::Wram => ArenaPlanDiagnosticCode::ArenaBank0WramOverflow,
        ArenaBacking::Sram => ArenaPlanDiagnosticCode::ArenaCapacityExceeded,
    }
}

/// The arena of one builder: its slots laid out in order, the whole rounded
/// up to the alignment and placed at the cursor of its memory, which moves
/// past it; refused when a slot offset or the arena leaves 16 bits, or the
/// arena ends past its memory's usable bytes.
pub open spec fn spec_finalize(
    input: ArenaPlanInputs,
    builder: BuilderView,
    cursors: Cursors,
    id: ArenaId,
) -> Result<(ArenaView, Cursors), ArenaPlanDiagnostic> {
    let named = builder.0;
    let backing = builder.1;
    let alignment = input.policy.arena_alignment_default as u32;
    let ordered = ordered_slots(builder.2);
    match slot_layout(ordered, ordered.len() as int, alignment) {
        Err(failure) => Err(failure),
        Ok(laid) => {
            let len = spec_align_up(laid.1, alignment);
            let cursor = cursor_of(cursors, backing);
            if cursor > u16::MAX || len > u16::MAX {
                Err(
                    ArenaPlanDiagnostic {
                        code: ArenaPlanDiagnosticCode::ArenaCapacityExceeded,
                        provenance: ArenaPlanDiagnosticProvenance::Arena { invariant: ArenaRule::ApSc16, arena_id: id.0, named },
                    },
                )
            } else {
                let range = ByteRange { start: cursor as u16, len: len as u16 };
                let cap = memory_cap(input, backing);
                if range.spec_end() > cap {
                    Err(
                        ArenaPlanDiagnostic {
                            code: over_cap_code(backing),
                            provenance: ArenaPlanDiagnosticProvenance::Slot {
                                invariant: ArenaRule::ApSc16,
                                slot_id: 0,
                                observed_bytes: range.spec_end() as u32,
                                cap_bytes: cap,
                            },
                        },
                    )
                } else {
                    Ok(
                        (
                            ArenaView {
                                id,
                                named,
                                byte_range: range,
                                backing,
                                alignment: input.policy.arena_alignment_default,
                                zerofill: input.policy.arena_zerofill_policy,
                                slots: laid.0,
                            },
                            with_cursor(cursors, backing, (cursor + len) as u32),
                        ),
                    )
                }
            }
        },
    }
}

pub closed spec fn cursors_view(cursors: BackingCursors) -> Cursors {
    (cursors.wram, cursors.sram, cursors.hram)
}

/// Lays out the slots of one arena and places the arena in its memory.
fn finalize_builder(
    input: &ArenaPlanInputs,
    named: NamedArena,
    builder: ArenaBuilder,
    cursors: &mut BackingCursors,
    id: ArenaId,
) -> (arena: Result<ArenaInstance, ArenaPlanDiagnostic>)
    requires
        input.policy.arena_alignment_default != 0,
    ensures
        match arena {
            Ok(made) => spec_finalize(*input, (named, builder.backing, builder.slots@), cursors_view(*old(cursors)), id)
                == Ok::<(ArenaView, Cursors), ArenaPlanDiagnostic>((made@, cursors_view(*final(cursors)))),
            Err(d) => spec_finalize(*input, (named, builder.backing, builder.slots@), cursors_view(*old(cursors)), id)
                == Err::<(ArenaView, Cursors), ArenaPlanDiagnostic>(d),
        },
{
    let alignment = input.policy.arena_alignment_default as u32;
    let ghost builder_slots = builder.slots@;
    let ordered = order_slots(builder.slots);
    let ghost all = ordered@;
    let total = ordered.len();
    let mut ordered = ordered;
    let mut slots: Vec<ArenaSlot> = Vec::new();
    let mut cursor: u32 = 0;
    let mut k: usize = 0;
    while ordered.len() > 0
        invariant
            k + ordered@.len() == all.len(),
            total == all.len(),
            ordered@ == all.skip(k as int),
            alignment == input.policy.arena_alignment_default as u32,
            all == ordered_slots(builder_slots),
            builder_slots == builder.slots@,
            slot_layout(all, k as int, alignment) == Ok::<(Seq<ArenaSlot>, u32), ArenaPlanDiagnostic>((slots@, cursor)),
        decreases ordered@.len(),
    {
        let slot = ordered.remove(0);
        proof {
            assert(slot == all[k as int]);
        }
        let ghost laid_before = (slots@, cursor);
        cursor = align_up(cursor, alignment);
        if cursor > u16::MAX as u32 {
            proof {
                assert(all.take(k + 1).len() == k + 1);
                assert(slot_layout(all, k as int, alignment) == Ok::<(Seq<ArenaSlot>, u32), ArenaPlanDiagnostic>(laid_before));
                assert(slot_layout(all, k + 1, alignment) is Err);
                lemma_slot_layout_failure_stays(all, k + 1, all.len() as int, alignment);
            }
            return Err(
                ArenaPlanDiagnostic {
                    code: ArenaPlanDiagnosticCode::ArenaAllocationFailed,
                    provenance: ArenaPlanDiagnosticProvenance::Slot {
                        invariant: ArenaRule::ApSc22,
                        slot_id: slot.id.0,
                        observed_bytes: cursor,
                        cap_bytes: u16::MAX as u32,
                    },
                },
            );
        }
        let offset = cursor as u16;
        cursor = cursor.saturating_add(slot.size_bytes as u32);
        slots.push(ArenaSlot { byte_offset: offset, ..slot });
        k = k + 1;
        proof {
            assert(ordered@ =~= all.skip(k as int));
        }
    }
    proof {
        assert(k == all.len());
    }
    let len = align_up(cursor, alignment);
    let start = match builder.backing {
        ArenaBacking::Wram => take_range(&mut cursors.wram, len),
        ArenaBacking::Sram => take_range(&mut cursors.sram, len),
        ArenaBacking::Hram => take_range(&mut cursors.hram, len),
    };
    let byte_range = match start {
        Some(start) => ByteRange { start, len: len as u16 },
        None => {
            return Err(
                ArenaPlanDiagnostic {
                    code: ArenaPlanDiagnosticCode::ArenaCapacityExceeded,
                    provenance: ArenaPlanDiagnosticProvenance::Arena { invariant: ArenaRule::ApSc16, arena_id: id.0, named },
                },
            );
        },
    };
    let cap = match builder.backing {
        ArenaBacking::Wram => input.target_profile.wram_usable_bytes,
        ArenaBacking::Sram => input.runtime_chrome_budget.memory_caps.sram_usable_bytes,
        ArenaBacking::Hram => input.target_profile.hram_usable_bytes,
    };
    if byte_range.end() > cap {
        let code = match builder.backing {
            ArenaBacking::Hram => ArenaPlanDiagnosticCode::ArenaHramUsableCapExceeded,
            ArenaBacking::Wram => ArenaPlanDiagnosticCode::ArenaBank0WramOverflow,
            ArenaBacking::Sram => ArenaPlanDiagnosticCode::ArenaCapacityExceeded,
        };
        return Err(
            ArenaPlanDiagnostic {
                code,
                provenance: ArenaPlanDiagnosticProvenance::Slot {
                    invariant: ArenaRule::ApSc16,
                    slot_id: 0,
                    observed_bytes: byte_range.end(),
                    cap_bytes: cap,
                },
            },
        );
    }
    Ok(
        ArenaInstance {
            id,
            named,
            byte_range,
            backing: builder.backing,
            alignment: input.policy.arena_alignment_default,
            zerofill: input.policy.arena_zerofill_policy,
            slots,
        },
    )
}

pub closed spec fn builder_view_fn() -> spec_fn((NamedArena, ArenaBuilder)) -> BuilderView {
    |entry: (NamedArena, ArenaBuilder)| (entry.0, entry.1.backing, entry.1.slots@)
}

/// Builders keyed by arena.
pub open spec fn builder_keyed(builders: Seq<BuilderView>) -> Seq<(u64, BuilderView)> {
    builders.map_values(|builder: BuilderView| (named_key(builder.0) as u64, builder))
}

/// The builders in arena order.
pub open spec fn ordered_builders(builders: Seq<BuilderView>) -> Seq<BuilderView> {
    unkeyed(sort_by_key(builder_keyed(builders)))
}

/// `parts` with `arena` added to the arenas of its memory.
pub open spec fn with_arena(parts: PartsView, arena: ArenaView) -> PartsView {
    match arena.backing {
        ArenaBacking::Wram => PartsView { wram_arenas: parts.wram_arenas.push(arena), ..parts },
        ArenaBacking::Sram => PartsView { sram_arenas: parts.sram_arenas.push(arena), ..parts },
        ArenaBacking::Hram => PartsView { hram_assignments: parts.hram_assignments.push(arena), ..parts },
    }
}

/// `builders` laid out one after another from `cursors`, each arena taking
/// the next arena id; or the first refusal.
pub open spec fn lay_out_from(input: ArenaPlanInputs, parts: PartsView, cursors: Cursors, builders: Seq<BuilderView>) -> Result<
    (PartsView, Cursors),
    ArenaPlanDiagnostic,
>
    decreases builders.len(),
{
    if builders.len() == 0 {
        Ok((parts, cursors))
    } else {
        match lay_out_from(input, parts, cursors, builders.drop_last()) {
            Ok(state) => {
                let id = ArenaId(state.0.arena_id);
                let next = PartsView { arena_id: sat_add(state.0.arena_id as int, 1), ..state.0 };
                match spec_finalize(input, builders.last(), state.1, id) {
                    Ok(made) => Ok((with_arena(next, made.0), made.1)),
                    Err(failure) => Err(failure),
                }
            },
            Err(failure) => Err(failure),
        }
    }
}

proof fn lemma_lay_out_failure_stays(input: ArenaPlanInputs, parts: PartsView, cursors: Cursors, builders: Seq<BuilderView>, n: int)
    requires
        0 <= n <= builders.len(),
        lay_out_from(input, parts, cursors, builders.take(n)) is Err,
    ensures
        lay_out_from(input, parts, cursors, builders) == lay_out_from(input, parts, cursors, builders.take(n)),
    decreases builders.len() - n,
{
    if n == builders.len() {
        assert(builders.take(n) =~= builders);
    } else {
        assert(builders.take(n + 1).drop_last() =~= builders.take(n));
        lemma_lay_out_failure_stays(input, parts, cursors, builders, n + 1);
    }
}

/// Every gathered builder laid out in arena order: WRAM after the overlay
/// regions, SRAM and HRAM from their start.
pub open spec fn builder_phase(input: ArenaPlanInputs, parts: PartsView) -> Result<PartsView, ArenaPlanDiagnostic> {
    match lay_out_from(
        input,
        PartsView { builders: Seq::empty(), ..parts },
        (parts.wram_cursor, 0u32, 0u32),
        ordered_builders(parts.builders),
    ) {
        Ok(state) => Ok(state.0),
        Err(failure) => Err(failure),
    }
}

proof fn lemma_unkeyed_builders(keyed: Seq<(u64, (NamedArena, ArenaBuilder))>)
    ensures
        builder_views(unkeyed(keyed)) == unkeyed(rekey(keyed, builder_view_fn())),
{
    assert(builder_views(unkeyed(keyed)) =~= unkeyed(rekey(keyed, builder_view_fn())));
}

fn place_arena(parts: &mut PlanParts, arena: ArenaInstance)
    ensures
        final(parts)@ == with_arena(old(parts)@, arena@),
{
    let ghost before = parts@;
    match arena.backing {
        ArenaBacking::Wram => {
            let ghost list = parts.wram_arenas@;
            parts.wram_arenas.push(arena);
            proof {
                assert(arena_views(parts.wram_arenas@) =~= arena_views(list).push(arena@));
            }
        },
        ArenaBacking::Sram => {
            let ghost list = parts.sram_arenas@;
            parts.sram_arenas.push(arena);
            proof {
                assert(arena_views(parts.sram_arenas@) =~= arena_views(list).push(arena@));
            }
        },
        ArenaBacking::Hram => {
            let ghost list = parts.hram_assignments@;
            parts.hram_assignments.push(arena);
            proof {
                assert(arena_views(parts.hram_assignments@) =~= arena_views(list).push(arena@));
            }
        },
    }
}

/// Lays out every gathered builder, in arena order, into its memory.
fn lay_out_builders(input: &ArenaPlanInputs, parts: &mut PlanParts) -> (failure: Option<ArenaPlanDiagnostic>)
    requires
        input.policy.arena_alignment_default != 0,
    ensures
        match failure {
            Some(d) => builder_phase(*input, old(parts)@) == Err::<PartsView, ArenaPlanDiagnostic>(d),
            None => builder_phase(*input, old(parts)@) == Ok::<PartsView, ArenaPlanDiagnostic>(final(parts)@),
        },
{
    let ghost start = parts@;
    let ghost initial = parts.builders@;
    let ghost f = builder_view_fn();
    let mut keyed: Vec<(u64, (NamedArena, ArenaBuilder))> = Vec::new();
    while parts.builders.len() > 0
        invariant
            f == builder_view_fn(),
            keyed@.len() + parts.builders@.len() == initial.len(),
            rekey(keyed@, f) == builder_keyed(builder_views(initial)).take(keyed@.len() as int),
            parts.builders@ == initial.skip(keyed@.len() as int),
            parts@ == (PartsView { builders: builder_views(parts.builders@), ..start }),
        decreases parts.builders@.len(),
    {
        let ghost done = keyed@.len() as int;
        let entry = parts.builders.remove(0);
        keyed.push((named_arena_key(entry.0), entry));
        proof {
            assert(rekey(keyed@, f) =~= builder_keyed(builder_views(initial)).take(done + 1));
            assert(parts.builders@ =~= initial.skip(done + 1));
        }
    }
    proof {
        assert(builder_keyed(builder_views(initial)).take(initial.len() as int) =~= builder_keyed(builder_views(initial)));
        assert(builder_views(parts.builders@) =~= Seq::<BuilderView>::empty());
        assert(start.builders == builder_views(initial));
    }
    let ghost keyed_view = keyed@;
    let sorted = stable_sort_by_key(keyed);
    proof {
        lemma_sort_by_key_rekey(keyed_view, f);
        lemma_unkeyed_builders(sorted@);
    }
    let ordered = unkey(sorted);
    let ghost all = builder_views(ordered@);
    let ghost emptied = parts@;
    let ghost first_cursors: Cursors = (parts.wram_cursor, 0u32, 0u32);
    let mut cursors = BackingCursors { wram: parts.wram_cursor, sram: 0, hram: 0 };
    let total = ordered.len();
    let mut ordered = ordered;
    let mut k: usize = 0;
    proof {
        assert(all.take(0) =~= Seq::<BuilderView>::empty());
        assert(builder_views(ordered@) =~= all.skip(0));
    }
    while ordered.len() > 0
        invariant
            input.policy.arena_alignment_default != 0,
            k + ordered@.len() == all.len(),
            total == all.len(),
            builder_views(ordered@) == all.skip(k as int),
            all == ordered_builders(start.builders),
            emptied == (PartsView { builders: Seq::empty(), ..start }),
            first_cursors == (start.wram_cursor, 0u32, 0u32),
            start == old(parts)@,
            lay_out_from(*input, emptied, first_cursors, all.take(k as int)) == Ok::<(PartsView, Cursors), ArenaPlanDiagnostic>(
                (parts@, cursors_view(cursors)),
            ),
        decreases ordered@.len(),
    {
        let ghost remaining = ordered@;
        let ghost before = parts@;
        let (named, builder) = ordered.remove(0);
        proof {
            assert(builder_views(remaining)[0] == (named, builder.backing, builder.slots@));
            assert(all[k as int] == (named, builder.backing, builder.slots@));
            assert(all.take(k + 1).drop_last() =~= all.take(k as int));
        }
        let id = next_arena_id(&mut parts.arena_id);
        match finalize_builder(input, named, builder, &mut cursors, id) {
            Err(failure) => {
                proof {
                    lemma_lay_out_failure_stays(*input, emptied, first_cursors, all, k + 1);
                }
                return Some(failure);
            },
            Ok(arena) => {
                place_arena(parts, arena);
            },
        }
        k = k + 1;
        proof {
            assert forall|j: int| 0 <= j < ordered@.len() implies #[trigger] builder_views(ordered@)[j] == all.skip(k as int)[j] by {
                assert(ordered@[j] == remaining[j + 1]);
                assert(builder_views(remaining)[j + 1] == all.skip(k - 1)[j + 1]);
            }
            assert(builder_views(ordered@) =~= all.skip(k as int));
        }
    }
    proof {
        assert(all.take(k as int) =~= all);
    }
    None
}

/// Arenas keyed by start, then by name.
pub open spec fn placed_arena_keyed(arenas: Seq<ArenaView>) -> Seq<(u64, ArenaView)> {
    arenas.map_values(|arena: ArenaView| ((arena.byte_range.start as int * 0x40_0000_0000 + named_key(arena.named)) as u64, arena))
}

/// The arenas in plan order: by start, then by name.
pub open spec fn ordered_arenas(arenas: Seq<ArenaView>) -> Seq<ArenaView> {
    unkeyed(sort_by_key(placed_arena_keyed(arenas)))
}

pub open spec fn arena_view_fn() -> spec_fn(ArenaInstance) -> ArenaView {
    |arena: ArenaInstance| arena@
}

/// `arenas` ordered by start, then by name.
fn order_arenas(arenas: Vec<ArenaInstance>) -> (ordered: Vec<ArenaInstance>)
    ensures
        arena_views(ordered@) == ordered_arenas(arena_views(arenas@)),
{
    let ghost initial = arenas@;
    let ghost f = arena_view_fn();
    let mut arenas = arenas;
    let mut keyed: Vec<(u64, ArenaInstance)> = Vec::new();
    while arenas.len() > 0
        invariant
            f == arena_view_fn(),
            keyed@.len() + arenas@.len() == initial.len(),
            rekey(keyed@, f) == placed_arena_keyed(arena_views(initial)).take(keyed@.len() as int),
            arenas@ == initial.skip(keyed@.len() as int),
        decreases arenas@.len(),
    {
        let ghost done = keyed@.len() as int;
        let arena = arenas.remove(0);
        keyed.push((arena.byte_range.start as u64 * 0x40_0000_0000 + named_arena_key(arena.named), arena));
        proof {
            assert(rekey(keyed@, f) =~= placed_arena_keyed(arena_views(initial)).take(done + 1));
            assert(arenas@ =~= initial.skip(done + 1));
        }
    }
    proof {
        assert(placed_arena_keyed(arena_views(initial)).take(initial.len() as int) =~= placed_arena_keyed(arena_views(initial)));
    }
    let ghost keyed_view = keyed@;
    let sorted = stable_sort_by_key(keyed);
    let ordered = unkey(sorted);
    proof {
        lemma_sort_by_key_rekey(keyed_view, f);
        assert(arena_views(ordered@) =~= unkeyed(rekey(sorted@, f)));
    }
    ordered
}

/// Materialize bindings keyed by value.
pub open spec fn binding_value_keyed(bindings: Seq<MaterializeSlotBinding>) -> Seq<(u64, MaterializeSlotBinding)> {
    bindings.map_values(|binding: MaterializeSlotBinding| (binding.value.0 as u64, binding))
}

/// The materialize bindings in plan order: by value.
pub open spec fn ordered_materialize_bindings(bindings: Seq<MaterializeSlotBinding>) -> Seq<MaterializeSlotBinding> {
    unkeyed(sort_by_key(binding_value_keyed(bindings)))
}

fn order_materialize_bindings(bindings: Vec<MaterializeSlotBinding>) -> (ordered: Vec<MaterializeSlotBinding>)
    ensures
        ordered@ == ordered_materialize_bindings(bindings@),
{
    let ghost initial = bindings@;
    let mut bindings = bindings;
    let mut keyed: Vec<(u64, MaterializeSlotBinding)> = Vec::new();
    while bindings.len() > 0
        invariant
            keyed@.len() + bindings@.len() == initial.len(),
            keyed@ == binding_value_keyed(initial).take(keyed@.len() as int),
            bindings@ == initial.skip(keyed@.len() as int),
        decreases bindings@.len(),
    {
        let ghost done = keyed@.len() as int;
        let binding = bindings.remove(0);
        keyed.push((binding.value.0 as u64, binding));
        proof {
            assert(keyed@ =~= binding_value_keyed(initial).take(done + 1));
            assert(bindings@ =~= initial.skip(done + 1));
        }
    }
    proof {
        assert(binding_value_keyed(initial).take(initial.len() as int) =~= binding_value_keyed(initial));
    }
    unkey(stable_sort_by_key(keyed))
}

pub open spec fn pair_value_keyed(pairs: Seq<PersistSlotPairBinding>) -> Seq<(u64, PersistSlotPairBinding)> {
    pairs.map_values(|pair: PersistSlotPairBinding| (pair.value.0 as u64, pair))
}

pub open spec fn pair_page_keyed(pairs: Seq<PersistSlotPairBinding>) -> Seq<(u64, PersistSlotPairBinding)> {
    pairs.map_values(
        |pair: PersistSlotPairBinding| ((pair.sram_page.0 as int * 0x1_0000_0000 + pair.commit_group.0 as int) as u64, pair),
    )
}

/// The persist pairs in plan order: by SRAM page, commit group, then value.
pub open spec fn ordered_persist_pairs(pairs: Seq<PersistSlotPairBinding>) -> Seq<PersistSlotPairBinding> {
    unkeyed(sort_by_key(pair_page_keyed(unkeyed(sort_by_key(pair_value_keyed(pairs))))))
}

/// Pairs ordered by SRAM page, commit group, then value.
fn order_persist_pairs(pairs: Vec<PersistSlotPairBinding>) -> (ordered: Vec<PersistSlotPairBinding>)
    ensures
        ordered@ == ordered_persist_pairs(pairs@),
{
    let ghost initial = pairs@;
    let mut pairs = pairs;
    let mut by_value: Vec<(u64, PersistSlotPairBinding)> = Vec::new();
    while pairs.len() > 0
        invariant
            by_value@.len() + pairs@.len() == initial.len(),
            by_value@ == pair_value_keyed(initial).take(by_value@.len() as int),
            pairs@ == initial.skip(by_value@.len() as int),
        decreases pairs@.len(),
    {
        let ghost done = by_value@.len() as int;
        let pair = pairs.remove(0);
        by_value.push((pair.value.0 as u64, pair));
        proof {
            assert(by_value@ =~= pair_value_keyed(initial).take(done + 1));
            assert(pairs@ =~= initial.skip(done + 1));
        }
    }
    proof {
        assert(pair_value_keyed(initial).take(initial.len() as int) =~= pair_value_keyed(initial));
    }
    let by_value = unkey(stable_sort_by_key(by_value));
    let ghost middle = by_value@;
    let mut by_value = by_value;
    let mut by_page: Vec<(u64, PersistSlotPairBinding)> = Vec::new();
    while by_value.len() > 0
        invariant
            by_page@.len() + by_value@.len() == middle.len(),
            by_page@ == pair_page_keyed(middle).take(by_page@.len() as int),
            by_value@ == middle.skip(by_page@.len() as int),
        decreases by_value@.len(),
    {
        let ghost done = by_page@.len() as int;
        let pair = by_value.remove(0);
        by_page.push((pair.sram_page.0 as u64 * 0x1_0000_0000 + pair.commit_group.0 as u64, pair));
        proof {
            assert(by_page@ =~= pair_page_keyed(middle).take(done + 1));
            assert(by_value@ =~= middle.skip(done + 1));
        }
    }
    proof {
        assert(pair_page_keyed(middle).take(middle.len() as int) =~= pair_page_keyed(middle));
    }
    unkey(stable_sort_by_key(by_page))
}

pub open spec fn witness_value_keyed(witnesses: Seq<ArenaPersistentPageWitness>) -> Seq<(u64, ArenaPersistentPageWitness)> {
    witnesses.map_values(|witness: ArenaPersistentPageWitness| (witness.value.0 as u64, witness))
}

pub open spec fn witness_page_keyed(witnesses: Seq<ArenaPersistentPageWitness>) -> Seq<(u64, ArenaPersistentPageWitness)> {
    witnesses.map_values(
        |witness: ArenaPersistentPageWitness|
            ((witness.sram_page.0 as int * 0x1_0000_0000 + witness.commit_group.0 as int) as u64, witness),
    )
}

/// The page witnesses in plan order: by SRAM page, commit group, then value.
pub open spec fn ordered_witnesses(witnesses: Seq<ArenaPersistentPageWitness>) -> Seq<ArenaPersistentPageWitness> {
    unkeyed(sort_by_key(witness_page_keyed(unkeyed(sort_by_key(witness_value_keyed(witnesses))))))
}

/// Witnesses ordered by SRAM page, commit group, then value.
fn order_witnesses(witnesses: Vec<ArenaPersistentPageWitness>) -> (ordered: Vec<ArenaPersistentPageWitness>)
    ensures
        ordered@ == ordered_witnesses(witnesses@),
{
    let ghost initial = witnesses@;
    let mut witnesses = witnesses;
    let mut by_value: Vec<(u64, ArenaPersistentPageWitness)> = Vec::new();
    while witnesses.len() > 0
        invariant
            by_value@.len() + witnesses@.len() == initial.len(),
            by_value@ == witness_value_keyed(initial).take(by_value@.len() as int),
            witnesses@ == initial.skip(by_value@.len() as int),
        decreases witnesses@.len(),
    {
        let ghost done = by_value@.len() as int;
        let witness = witnesses.remove(0);
        by_value.push((witness.value.0 as u64, witness));
        proof {
            assert(by_value@ =~= witness_value_keyed(initial).take(done + 1));
            assert(witnesses@ =~= initial.skip(done + 1));
        }
    }
    proof {
        assert(witness_value_keyed(initial).take(initial.len() as int) =~= witness_value_keyed(initial));
    }
    let by_value = unkey(stable_sort_by_key(by_value));
    let ghost middle = by_value@;
    let mut by_value = by_value;
    let mut by_page: Vec<(u64, ArenaPersistentPageWitness)> = Vec::new();
    while by_value.len() > 0
        invariant
            by_page@.len() + by_value@.len() == middle.len(),
            by_page@ == witness_page_keyed(middle).take(by_page@.len() as int),
            by_value@ == middle.skip(by_page@.len() as int),
        decreases by_value@.len(),
    {
        let ghost done = by_page@.len() as int;
        let witness = by_value.remove(0);
        by_page.push((witness.sram_page.0 as u64 * 0x1_0000_0000 + witness.commit_group.0 as u64, witness));
        proof {
            assert(by_page@ =~= witness_page_keyed(middle).take(done + 1));
            assert(by_value@ =~= middle.skip(done + 1));
        }
    }
    proof {
        assert(witness_page_keyed(middle).take(middle.len() as int) =~= witness_page_keyed(middle));
    }
    unkey(stable_sort_by_key(by_page))
}

pub open spec fn overlay_binding_keyed(bindings: Seq<OverlayArenaBinding>) -> Seq<(u64, OverlayArenaBinding)> {
    bindings.map_values(|binding: OverlayArenaBinding| (binding.overlay.0 as u64, binding))
}

/// The overlay bindings in plan order: by overlay.
pub open spec fn ordered_overlay_bindings(bindings: Seq<OverlayArenaBinding>) -> Seq<OverlayArenaBinding> {
    unkeyed(sort_by_key(overlay_binding_keyed(bindings)))
}

fn order_overlay_bindings(bindings: Vec<OverlayArenaBinding>) -> (ordered: Vec<OverlayArenaBinding>)
    ensures
        ordered@ == ordered_overlay_bindings(bindings@),
{
    let ghost initial = bindings@;
    let mut bindings = bindings;
    let mut keyed: Vec<(u64, OverlayArenaBinding)> = Vec::new();
    while bindings.len() > 0
        invariant
            keyed@.len() + bindings@.len() == initial.len(),
            keyed@ == overlay_binding_keyed(initial).take(keyed@.len() as int),
            bindings@ == initial.skip(keyed@.len() as int),
        decreases bindings@.len(),
    {
        let ghost done = keyed@.len() as int;
        let binding = bindings.remove(0);
        keyed.push((binding.overlay.0 as u64, binding));
        proof {
            assert(keyed@ =~= overlay_binding_keyed(initial).take(done + 1));
            assert(bindings@ =~= initial.skip(done + 1));
        }
    }
    proof {
        assert(overlay_binding_keyed(initial).take(initial.len() as int) =~= overlay_binding_keyed(initial));
    }
    unkey(stable_sort_by_key(keyed))
}

fn copy_honor_entries(entries: &Vec<OverlayReservationHonorEntry>) -> (copy: Vec<OverlayReservationHonorEntry>)
    ensures
        copy@ == entries@,
{
    let mut copy: Vec<OverlayReservationHonorEntry> = Vec::new();
    let mut i: usize = 0;
    while i < entries.len()
        invariant
            i <= entries@.len(),
            copy@ == entries@.subrange(0, i as int),
        decreases entries@.len() - i,
    {
        copy.push(entries[i]);
        i = i + 1;
    }
    assert(entries@.subrange(0, entries@.len() as int) =~= entries@);
    copy
}


// -------------------------------------------------------------- the plan

/// The summary that a plan reports of itself.
pub open spec fn summary_of(plan: ArenaPlan) -> ArenaPlanSummary {
    ArenaPlanSummary {
        wram_arena_count: saturating_count(plan.wram_arenas@.len()),
        sram_arena_count: saturating_count(plan.sram_arenas@.len()),
        hram_assignment_count: saturating_count(plan.hram_assignments@.len()),
        slot_count: flat_slots(arena_list(plan)).len() as u32,
        overlay_reserved_bytes: plan.overlay_reservation.total_bytes,
    }
}

pub open spec fn saturating_count(count: nat) -> u16 {
    if count > u16::MAX {
        u16::MAX
    } else {
        count as u16
    }
}

/// Everything laid out for `input` once its preflight passed: the overlay
/// regions, whose bytes must add up to the reservation; the runtime HRAM
/// cells; the persistent page pairs; the materialized values; and every
/// arena placed in its memory. Or the first refusal.
pub open spec fn arena_construction(input: ArenaPlanInputs) -> Result<PartsView, ArenaPlanDiagnostic> {
    match overlay_phase(input, empty_parts(), input.overlay_plan.regions@) {
        Err(failure) => Err(failure),
        Ok(overlays) => {
            if overlays.reservation_total != input.overlay_plan.reservation.total_bytes as u32 {
                Err(
                    ArenaPlanDiagnostic {
                        code: ArenaPlanDiagnosticCode::ArenaOverlayReservationCountMismatch,
                        provenance: ArenaPlanDiagnosticProvenance::Reservation {
                            invariant: ArenaRule::ApSc25,
                            total_bytes: overlays.reservation_total,
                            expected_bytes: input.overlay_plan.reservation.total_bytes as u32,
                        },
                    },
                )
            } else {
                match persistent_phase(input, add_runtime_cells(overlays, runtime_cells())) {
                    Err(failure) => Err(failure),
                    Ok(persisted) => match materialized_phase(input, persisted) {
                        Err(failure) => Err(failure),
                        Ok(materialized) => builder_phase(input, materialized),
                    },
                }
            }
        },
    }
}

/// `plan` is the plan made of `parts`: the arenas and bindings in plan
/// order, the reservation as laid out, and no hash yet.
pub open spec fn plan_of_parts(input: ArenaPlanInputs, parts: PartsView, plan: ArenaPlan) -> bool {
    &&& plan.identity == input.input_identity
    &&& arena_views(plan.wram_arenas@) == ordered_arenas(parts.wram_arenas)
    &&& arena_views(plan.sram_arenas@) == ordered_arenas(parts.sram_arenas)
    &&& arena_views(plan.hram_assignments@) == ordered_arenas(parts.hram_assignments)
    &&& plan.overlay_reservation.total_bytes == (if parts.reservation_total > u16::MAX {
        u16::MAX
    } else {
        parts.reservation_total as u16
    })
    &&& plan.overlay_reservation.expected_total_bytes == input.overlay_plan.reservation.total_bytes
    &&& plan.overlay_reservation.per_region@ == parts.honor_entries
    &&& plan.arena_bindings.materialize_to_slot@ == ordered_materialize_bindings(parts.materialize_to_slot)
    &&& plan.arena_bindings.persist_to_slot_pair@ == ordered_persist_pairs(parts.persist_to_slot_pair)
    &&& plan.arena_bindings.overlay_to_arena@ == ordered_overlay_bindings(parts.overlay_to_arena)
    &&& plan.arena_plan_self_hash == Hash256::spec_zero()
}

/// The refusal of a plan that breaks an address invariant.
pub open spec fn invariant_refusal() -> ArenaPlanDiagnostic {
    ArenaPlanDiagnostic {
        code: ArenaPlanDiagnosticCode::ArenaCertAddressInvariantFailed,
        provenance: ArenaPlanDiagnosticProvenance::PolicyProjection { field: ArenaPolicyField::AddressInvariants },
    }
}

/// What the arena stage gives for `input` once the preflight passed: the
/// refusal of the construction; else the plan made of what was laid out,
/// certified, when it keeps every address invariant; else the refusal of a
/// plan that breaks one.
pub open spec fn arena_built(input: ArenaPlanInputs, output: ArenaPlanOutput) -> bool {
    match arena_construction(input) {
        Err(failure) => arena_failed_with(input, output, seq![failure]),
        Ok(parts) => match output.result {
            Some(result) => {
                &&& arena_succeeded(input, output)
                &&& plan_of_parts(input, parts, result.product)
                &&& output.cert->Some_0.persistent_page_geometry.pages@ == ordered_witnesses(parts.persistent_witnesses)
            },
            None => {
                &&& arena_failed_with(input, output, seq![invariant_refusal()])
                &&& exists|plan: ArenaPlan| plan_of_parts(input, parts, plan) && !address_invariants_hold(input, plan)
            },
        },
    }
}

/// `output` is a certified arena plan of `input`, not yet hashed: every
/// address invariant holds of the plan, the certificate records them all
/// as holding, and the certificate and summary describe the plan.
pub open spec fn arena_succeeded(input: ArenaPlanInputs, output: ArenaPlanOutput) -> bool {
    match (output.result, output.cert) {
        (Some(result), Some(cert)) => {
            let plan = result.product;
            &&& output.outcome == ArenaPlanOutcome::Succeeded
            &&& output.input_identity == input.input_identity
            &&& output.diagnostics@.len() == 0
            &&& plan.identity == input.input_identity
            &&& address_invariants_hold(input, plan)
            &&& plan.overlay_reservation.expected_total_bytes == input.overlay_plan.reservation.total_bytes
            &&& plan.arena_plan_self_hash == Hash256::spec_zero()
            &&& result.arena_plan_self_hash == Hash256::spec_zero()
            &&& result.summary == summary_of(plan)
            &&& cert.pass_version@ == ARENA_CERT_PASS_VERSION@
            &&& cert.arena_plan_self_hash == Hash256::spec_zero()
            &&& cert.address_invariants.spec_all_pass()
            &&& cert.reservation_honor.total_bytes == plan.overlay_reservation.total_bytes
            &&& cert.reservation_honor.expected_total_bytes == plan.overlay_reservation.expected_total_bytes
            &&& cert.reservation_honor.per_region@ == plan.overlay_reservation.per_region@
            &&& cert.persistent_page_geometry.geometry == input.policy.persistent_page_geometry
            &&& cert.harness_no_leak
            &&& cert.diagnostics@.len() == 0
            &&& cert.arena_cert_self_hash == Hash256::spec_zero()
        },
        _ => false,
    }
}

/// Plans the arenas of a program: checks the input hashes, the page geometry,
/// the alignment and the overlay reservation; lays out the overlay regions,
/// the runtime HRAM cells, the persistent page pairs and the materialized
/// values, and places every arena in its memory (`arena_construction`); and
/// certifies the fourteen address invariants of the plan made of them.
/// The plan and certificate hashes are left zero for
/// `finalize_arena_plan_output`.
pub fn build_arena_plan(input: &ArenaPlanInputs) -> (output: ArenaPlanOutput)
    ensures
        input_hash_mismatches(*input).len() > 0 ==> arena_failed_with(
            *input,
            output,
            input_hash_mismatches(*input),
        ),
        input_hash_mismatches(*input).len() == 0 && arena_preflight_failure(*input) is Some
            ==> arena_failed_with(*input, output, seq![arena_preflight_failure(*input)->Some_0]),
        output.outcome == ArenaPlanOutcome::Succeeded ==> {
            &&& input_hash_mismatches(*input).len() == 0
            &&& arena_preflight_failure(*input) is None
            &&& arena_succeeded(*input, output)
        },
        output.outcome == ArenaPlanOutcome::Failed ==> {
            &&& output.input_identity == input.input_identity
            &&& output.result is None
            &&& output.cert is None
            &&& output.diagnostics@.len() > 0
        },
        input_hash_mismatches(*input).len() == 0 && arena_preflight_failure(*input) is None ==> arena_built(*input, output),
{
    let hash_diagnostics = input_hash_mismatch_diagnostics(input);
    if hash_diagnostics.len() > 0 {
        return ArenaPlanOutput {
            input_identity: input.input_identity.duplicate(),
            outcome: ArenaPlanOutcome::Failed,
            result: None,
            cert: None,
            diagnostics: hash_diagnostics,
        };
    }
    if input.input_identity.sram_page_plan_self_hash != input.sram_page_plan.sram_page_plan_self_hash {
        return failed_output(
            input,
            ArenaPlanDiagnostic {
                code: ArenaPlanDiagnosticCode::ArenaInputHashMismatch,
                provenance: ArenaPlanDiagnosticProvenance::HashMismatch {
                    product: ArenaPlanInputProduct::SramPagePlan,
                    recorded: input.input_identity.sram_page_plan_self_hash,
                    computed: input.sram_page_plan.sram_page_plan_self_hash,
                },
            },
        );
    }
    if input.input_identity.overlay_plan_self_hash != input.overlay_plan.overlay_plan_self_hash {
        return failed_output(
            input,
            ArenaPlanDiagnostic {
                code: ArenaPlanDiagnosticCode::ArenaInputHashMismatch,
                provenance: ArenaPlanDiagnosticProvenance::HashMismatch {
                    product: ArenaPlanInputProduct::OverlayPlan,
                    recorded: input.input_identity.overlay_plan_self_hash,
                    computed: input.overlay_plan.overlay_plan_self_hash,
                },
            },
        );
    }
    if input.sram_page_plan.geometry != input.policy.persistent_page_geometry {
        return failed_output(
            input,
            ArenaPlanDiagnostic {
                code: ArenaPlanDiagnosticCode::ArenaPersistentPageGeometryMismatch,
                provenance: ArenaPlanDiagnosticProvenance::Geometry {
                    observed: input.sram_page_plan.geometry,
                    expected: input.policy.persistent_page_geometry,
                },
            },
        );
    }
    if input.policy.arena_alignment_default == 0 {
        return failed_output(
            input,
            ArenaPlanDiagnostic {
                code: ArenaPlanDiagnosticCode::ArenaPolicyProjectionMismatch,
                provenance: ArenaPlanDiagnosticProvenance::PolicyProjection {
                    field: ArenaPolicyField::ArenaAlignmentDefault,
                },
            },
        );
    }
    if let Some(failure) = validate_overlay_reservation_input(input) {
        return failed_output(input, failure);
    }
    let mut parts = PlanParts {
        slot_id: 0,
        arena_id: 0,
        wram_arenas: Vec::new(),
        sram_arenas: Vec::new(),
        hram_assignments: Vec::new(),
        builders: Vec::new(),
        materialize_to_slot: Vec::new(),
        persist_to_slot_pair: Vec::new(),
        overlay_to_arena: Vec::new(),
        persistent_witnesses: Vec::new(),
        honor_entries: Vec::new(),
        wram_cursor: 0,
        reservation_total: 0,
    };
    proof {
        assert(arena_views(parts.wram_arenas@) =~= Seq::<ArenaView>::empty());
        assert(arena_views(parts.sram_arenas@) =~= Seq::<ArenaView>::empty());
        assert(arena_views(parts.hram_assignments@) =~= Seq::<ArenaView>::empty());
        assert(builder_views(parts.builders@) =~= Seq::<BuilderView>::empty());
        assert(parts@ == empty_parts());
    }
    if let Some(failure) = lay_out_overlay_regions(input, &mut parts) {
        return failed_output(input, failure);
    }
    if parts.reservation_total != input.overlay_plan.reservation.total_bytes as u32 {
        return failed_output(
            input,
            ArenaPlanDiagnostic {
                code: ArenaPlanDiagnosticCode::ArenaOverlayReservationCountMismatch,
                provenance: ArenaPlanDiagnosticProvenance::Reservation {
                    invariant: ArenaRule::ApSc25,
                    total_bytes: parts.reservation_total,
                    expected_bytes: input.overlay_plan.reservation.total_bytes as u32,
                },
            },
        );
    }
    add_runtime_hram_slots(&mut parts);
    if let Some(failure) = add_persistent_slots(input, &mut parts) {
        return failed_output(input, failure);
    }
    if let Some(failure) = add_materialized_slots(input, &mut parts) {
        return failed_output(input, failure);
    }
    if let Some(failure) = lay_out_builders(input, &mut parts) {
        return failed_output(input, failure);
    }
    let ghost laid = parts@;
    let total_bytes: u16 = if parts.reservation_total > u16::MAX as u32 {
        u16::MAX
    } else {
        parts.reservation_total as u16
    };
    let cert_entries = copy_honor_entries(&parts.honor_entries);
    let plan = ArenaPlan {
        identity: input.input_identity.duplicate(),
        wram_arenas: order_arenas(parts.wram_arenas),
        sram_arenas: order_arenas(parts.sram_arenas),
        hram_assignments: order_arenas(parts.hram_assignments),
        overlay_reservation: OverlayReservationHonor {
            total_bytes,
            expected_total_bytes: input.overlay_plan.reservation.total_bytes,
            per_region: parts.honor_entries,
        },
        arena_bindings: ArenaBindings {
            materialize_to_slot: order_materialize_bindings(parts.materialize_to_slot),
            persist_to_slot_pair: order_persist_pairs(parts.persist_to_slot_pair),
            overlay_to_arena: order_overlay_bindings(parts.overlay_to_arena),
        },
        arena_plan_self_hash: Hash256::zero(),
    };
    proof {
        assert(plan_of_parts(*input, laid, plan));
    }
    let invariants = validate_address_invariants(input, &plan);
    if !invariants.all_pass() {
        return failed_output(
            input,
            ArenaPlanDiagnostic {
                code: ArenaPlanDiagnosticCode::ArenaCertAddressInvariantFailed,
                provenance: ArenaPlanDiagnosticProvenance::PolicyProjection {
                    field: ArenaPolicyField::AddressInvariants,
                },
            },
        );
    }
    let slots = all_slots_with_arena(&plan);
    let summary = ArenaPlanSummary {
        wram_arena_count: saturating_u16(plan.wram_arenas.len()),
        sram_arena_count: saturating_u16(plan.sram_arenas.len()),
        hram_assignment_count: saturating_u16(plan.hram_assignments.len()),
        slot_count: slots.len() as u32,
        overlay_reserved_bytes: plan.overlay_reservation.total_bytes,
    };
    let cert = ArenaCertBody {
        pass_version: ARENA_CERT_PASS_VERSION.to_owned(),
        arena_plan_self_hash: Hash256::zero(),
        address_invariants: invariants,
        reservation_honor: OverlayReservationHonor {
            total_bytes,
            expected_total_bytes: input.overlay_plan.reservation.total_bytes,
            per_region: cert_entries,
        },
        persistent_page_geometry: ArenaPersistentGeometryWitness {
            geometry: input.policy.persistent_page_geometry,
            pages: order_witnesses(parts.persistent_witnesses),
        },
        harness_no_leak: true,
        diagnostics: Vec::new(),
        arena_cert_self_hash: Hash256::zero(),
    };
    ArenaPlanOutput {
        input_identity: input.input_identity.duplicate(),
        outcome: ArenaPlanOutcome::Succeeded,
        result: Some(ArenaPlanResult { product: plan, arena_plan_self_hash: Hash256::zero(), summary }),
        cert: Some(cert),
        diagnostics: Vec::new(),
    }
}


// ------------------------------------------------------------- surface

/// The words whose presence in a serialized arena plan leaks a scheduling
/// concern.
pub open spec fn arena_scheduling_words() -> Seq<Seq<char>> {
    seq!["SliceId"@, "LeaseId"@, "ResourceVector"@, "CycleBudget"@]
}

fn arena_scheduling_words_exec() -> (words: Vec<&'static str>)
    ensures
        words@.map_values(|w: &str| w@) == arena_scheduling_words(),
{
    proof {
        reveal_strlit("SliceId");
        reveal_strlit("LeaseId");
        reveal_strlit("ResourceVector");
        reveal_strlit("CycleBudget");
    }
    let words = vec!["SliceId", "LeaseId", "ResourceVector", "CycleBudget"];
    assert(words@.map_values(|w: &str| w@) =~= arena_scheduling_words());
    words
}

/// The diagnostic of `code` that points at the JSON word `tag`.
pub open spec fn arena_json_diagnostic(code: ArenaPlanDiagnosticCode, tag: Seq<char>, diagnostic: ArenaPlanDiagnostic) -> bool {
    &&& diagnostic.code == code
    &&& diagnostic.provenance matches ArenaPlanDiagnosticProvenance::JsonPath { field_or_tag }
        && field_or_tag@ == tag
}

/// `found` is the surface verdict on serialized arena-plan JSON `text`:
/// assembly words first, then scheduling words, then repair provenance.
pub open spec fn arena_surface_verdict(text: Seq<char>, found: Option<ArenaPlanDiagnostic>) -> bool {
    match first_contained(text, section_role_words()) {
        Some(i) => found is Some && arena_json_diagnostic(
            ArenaPlanDiagnosticCode::ArenaSectionRoleLeaked,
            section_role_words()[i],
            found->Some_0,
        ),
        None => match first_contained(text, arena_scheduling_words()) {
            Some(i) => found is Some && arena_json_diagnostic(
                ArenaPlanDiagnosticCode::ArenaSchedulingFieldLeaked,
                arena_scheduling_words()[i],
                found->Some_0,
            ),
            None => if mentions_repair(text) {
                found is Some && arena_json_diagnostic(
                    ArenaPlanDiagnosticCode::ArenaRepairProvenanceForbidden,
                    "repair"@,
                    found->Some_0,
                )
            } else {
                found is None
            },
        },
    }
}

fn arena_json_path(code: ArenaPlanDiagnosticCode, tag: &str) -> (diagnostic: ArenaPlanDiagnostic)
    ensures
        arena_json_diagnostic(code, tag@, diagnostic),
{
    ArenaPlanDiagnostic {
        code,
        provenance: ArenaPlanDiagnosticProvenance::JsonPath { field_or_tag: tag.to_owned() },
    }
}

/// Checks serialized arena-plan JSON for words of other stages.
pub fn validate_arena_plan_json_surface(text: &str) -> (found: Option<ArenaPlanDiagnostic>)
    ensures
        arena_surface_verdict(text@, found),
{
    let roles = section_role_words_exec();
    if let Some(i) = find_first_word(text, &roles) {
        assert(roles@.map_values(|w: &str| w@)[i as int] == roles@[i as int]@);
        return Some(arena_json_path(ArenaPlanDiagnosticCode::ArenaSectionRoleLeaked, roles[i]));
    }
    let scheduling = arena_scheduling_words_exec();
    if let Some(i) = find_first_word(text, &scheduling) {
        assert(scheduling@.map_values(|w: &str| w@)[i as int] == scheduling@[i as int]@);
        return Some(arena_json_path(ArenaPlanDiagnosticCode::ArenaSchedulingFieldLeaked, scheduling[i]));
    }
    proof {
        reveal_strlit("RepairProposal");
        reveal_strlit("repair_proposals");
        reveal_strlit("repair");
    }
    if str_contains(text, "RepairProposal") || str_contains(text, "repair_proposals") {
        return Some(arena_json_path(ArenaPlanDiagnosticCode::ArenaRepairProvenanceForbidden, "repair"));
    }
    None
}

/// The failed output that a hashing step of `output` gives, pointing at `field`.
pub open spec fn hash_failed(output: ArenaPlanOutput, finalized: ArenaPlanOutput, field: ArenaPolicyField) -> bool {
    &&& finalized.input_identity == output.input_identity
    &&& finalized.outcome == ArenaPlanOutcome::Failed
    &&& finalized.result is None
    &&& finalized.cert is None
    &&& finalized.diagnostics@ == seq![
        ArenaPlanDiagnostic {
            code: ArenaPlanDiagnosticCode::ArenaCanonicalSortDrift,
            provenance: ArenaPlanDiagnosticProvenance::PolicyProjection { field },
        },
    ]
}

fn refuse(output: ArenaPlanOutput, diagnostic: ArenaPlanDiagnostic) -> (refused: ArenaPlanOutput)
    ensures
        refused.input_identity == output.input_identity,
        refused.outcome == ArenaPlanOutcome::Failed,
        refused.result is None,
        refused.cert is None,
        refused.diagnostics@ == seq![diagnostic],
{
    let mut diagnostics: Vec<ArenaPlanDiagnostic> = Vec::new();
    diagnostics.push(diagnostic);
    assert(diagnostics@ =~= seq![diagnostic]);
    ArenaPlanOutput {
        input_identity: output.input_identity,
        outcome: ArenaPlanOutcome::Failed,
        result: None,
        cert: None,
        diagnostics,
    }
}

/// Completes a built plan with the verdict on its serialized surface and its
/// two self hashes (`None` where hashing failed). A surface diagnostic, or a
/// failed hash, fails the output; otherwise the plan, its result and the
/// certificate carry the hashes. A failed output is returned unchanged.
pub fn finalize_arena_plan_output(
    output: ArenaPlanOutput,
    surface: Option<ArenaPlanDiagnostic>,
    plan_hash: Option<Hash256>,
    cert_hash: Option<Hash256>,
) -> (finalized: ArenaPlanOutput)
    ensures
        !(output.outcome == ArenaPlanOutcome::Succeeded && output.result is Some && output.cert is Some)
            ==> finalized == output,
        output.outcome == ArenaPlanOutcome::Succeeded && output.result is Some && output.cert is Some
            ==> {
            let result = output.result->Some_0;
            let cert = output.cert->Some_0;
            if surface is Some {
                &&& finalized.input_identity == output.input_identity
                &&& finalized.outcome == ArenaPlanOutcome::Failed
                &&& finalized.result is None
                &&& finalized.cert is None
                &&& finalized.diagnostics@ == seq![surface->Some_0]
            } else if plan_hash is None {
                hash_failed(output, finalized, ArenaPolicyField::ArenaPlanSelfHash)
            } else if cert_hash is None {
                hash_failed(output, finalized, ArenaPolicyField::ArenaCertSelfHash)
            } else {
                let hash = plan_hash->Some_0;
                &&& finalized.input_identity == output.input_identity
                &&& finalized.outcome == ArenaPlanOutcome::Succeeded
                &&& finalized.diagnostics == output.diagnostics
                &&& finalized.result == Some(
                    ArenaPlanResult {
                        product: ArenaPlan { arena_plan_self_hash: hash, ..result.product },
                        arena_plan_self_hash: hash,
                        summary: result.summary,
                    },
                )
                &&& finalized.cert == Some(
                    ArenaCertBody {
                        arena_plan_self_hash: hash,
                        arena_cert_self_hash: cert_hash->Some_0,
                        ..cert
                    },
                )
            }
        },
{
    if output.outcome != ArenaPlanOutcome::Succeeded || output.result.is_none() || output.cert.is_none() {
        return output;
    }
    if let Some(diagnostic) = surface {
        return refuse(output, diagnostic);
    }
    let hash = match plan_hash {
        Some(hash) => hash,
        None => {
            return refuse(
                output,
                ArenaPlanDiagnostic {
                    code: ArenaPlanDiagnosticCode::ArenaCanonicalSortDrift,
                    provenance: ArenaPlanDiagnosticProvenance::PolicyProjection {
                        field: ArenaPolicyField::ArenaPlanSelfHash,
                    },
                },
            );
        },
    };
    let certificate_hash = match cert_hash {
        Some(certificate_hash) => certificate_hash,
        None => {
            return refuse(
                output,
                ArenaPlanDiagnostic {
                    code: ArenaPlanDiagnosticCode::ArenaCanonicalSortDrift,
                    provenance: ArenaPlanDiagnosticProvenance::PolicyProjection {
                        field: ArenaPolicyField::ArenaCertSelfHash,
                    },
                },
            );
        },
    };
    let ArenaPlanOutput { input_identity, outcome, result, cert, diagnostics } = output;
    match (result, cert) {
        (Some(result), Some(cert)) => ArenaPlanOutput {
            input_identity,
            outcome,
            result: Some(
                ArenaPlanResult {
                    product: ArenaPlan { arena_plan_self_hash: hash, ..result.product },
                    arena_plan_self_hash: hash,
                    summary: result.summary,
                },
            ),
            cert: Some(
                ArenaCertBody { arena_plan_self_hash: hash, arena_cert_self_hash: certificate_hash, ..cert },
            ),
            diagnostics,
        },
        (result, cert) => ArenaPlanOutput { input_identity, outcome, result, cert, diagnostics },
    }
}

} // verus!
