//! Stage 9: the arena plan. Every materialized, persistent, overlay and
//! runtime-fixed value gets a slot in a named arena, and every arena gets a
//! byte range in WRAM, SRAM or HRAM.

use vstd::prelude::*;
use crate::ids::{
    AliasClassId, CommitGroupId, DeterminismClass, Hash256, PageId, PersistPageId, SemVer,
    SequenceStreamId, TargetProfileId, ValueId,
};
use crate::overlay_plan::{
    OverlayId, OverlayPlan, OverlayRegion, OverlayReservationEntry, OverlayResidentId,
};
use crate::policy::RuntimeChromeBudget;
use crate::sram_page_plan::{PersistentPageGeometry, SramPagePlan};
use crate::storage_plan::{LifetimeClass, Materialization, StorageBinding, StorageClass};

mod layout;

pub use self::layout::{
    align_up, arena_for, backing_for, binding_kind_order, binding_ref_order, build_arena_plan,
    byte_range, finalize_arena_plan_output, lifetime_priority, take_range,
    validate_arena_plan_json_surface, validate_overlay_reservation_input, ARENA_CERT_PASS_VERSION,
};

verus! {

#[derive(Clone, Copy, Debug, PartialEq, Eq, Structural, Hash, PartialOrd, Ord)]
pub struct ArenaId(pub u32);

#[derive(Clone, Copy, Debug, PartialEq, Eq, Structural, Hash, PartialOrd, Ord)]
pub struct ArenaSlotId(pub u32);

/// The arenas that the runtime knows by name.
#[derive(Clone, Copy, Debug, PartialEq, Eq, Structural, Hash, PartialOrd, Ord)]
pub enum NamedArena {
    WramActivationsPingA,
    WramActivationsPingB,
    WramAccumScratch,
    WramRouteScratch,
    WramDecodeScratch,
    WramContinuationRecord,
    WramOverlayRegion { overlay: OverlayId },
    SramSequenceStatePages { stream: SequenceStreamId },
    SramTracePages,
    SramHarnessCommandBlock,
    SramHarnessResultBlock,
    SramPersistedTranscript,
    SramColdSpill,
    HramFrameFlags,
    HramBankShadow,
    HramFaultCode,
    HramSchedulerScratch,
    HramYieldRequested,
}

/// The position of a named arena in the derived order: its variant, then its
/// identifier.
pub open spec fn named_key(named: NamedArena) -> int {
    match named {
        NamedArena::WramActivationsPingA => 0int,
        NamedArena::WramActivationsPingB => 1int * 0x1_0000_0000int,
        NamedArena::WramAccumScratch => 2int * 0x1_0000_0000int,
        NamedArena::WramRouteScratch => 3int * 0x1_0000_0000int,
        NamedArena::WramDecodeScratch => 4int * 0x1_0000_0000int,
        NamedArena::WramContinuationRecord => 5int * 0x1_0000_0000int,
        NamedArena::WramOverlayRegion { overlay } => 6int * 0x1_0000_0000int + overlay.0,
        NamedArena::SramSequenceStatePages { stream } => 7int * 0x1_0000_0000int + stream.0,
        NamedArena::SramTracePages => 8int * 0x1_0000_0000int,
        NamedArena::SramHarnessCommandBlock => 9int * 0x1_0000_0000int,
        NamedArena::SramHarnessResultBlock => 10int * 0x1_0000_0000int,
        NamedArena::SramPersistedTranscript => 11int * 0x1_0000_0000int,
        NamedArena::SramColdSpill => 12int * 0x1_0000_0000int,
        NamedArena::HramFrameFlags => 13int * 0x1_0000_0000int,
        NamedArena::HramBankShadow => 14int * 0x1_0000_0000int,
        NamedArena::HramFaultCode => 15int * 0x1_0000_0000int,
        NamedArena::HramSchedulerScratch => 16int * 0x1_0000_0000int,
        NamedArena::HramYieldRequested => 17int * 0x1_0000_0000int,
    }
}

/// Distinct named arenas have distinct keys.
pub proof fn lemma_named_key_injective(a: NamedArena, b: NamedArena)
    requires
        named_key(a) == named_key(b),
    ensures
        a == b,
{
}

pub fn named_arena_key(named: NamedArena) -> (key: u64)
    ensures
        key == named_key(named),
        key < 18 * 0x1_0000_0000,
{
    match named {
        NamedArena::WramActivationsPingA => 0,
        NamedArena::WramActivationsPingB => 1 * 0x1_0000_0000,
        NamedArena::WramAccumScratch => 2 * 0x1_0000_0000,
        NamedArena::WramRouteScratch => 3 * 0x1_0000_0000,
        NamedArena::WramDecodeScratch => 4 * 0x1_0000_0000,
        NamedArena::WramContinuationRecord => 5 * 0x1_0000_0000,
        NamedArena::WramOverlayRegion { overlay } => 6 * 0x1_0000_0000 + overlay.0 as u64,
        NamedArena::SramSequenceStatePages { stream } => 7 * 0x1_0000_0000 + stream.0 as u64,
        NamedArena::SramTracePages => 8 * 0x1_0000_0000,
        NamedArena::SramHarnessCommandBlock => 9 * 0x1_0000_0000,
        NamedArena::SramHarnessResultBlock => 10 * 0x1_0000_0000,
        NamedArena::SramPersistedTranscript => 11 * 0x1_0000_0000,
        NamedArena::SramColdSpill => 12 * 0x1_0000_0000,
        NamedArena::HramFrameFlags => 13 * 0x1_0000_0000,
        NamedArena::HramBankShadow => 14 * 0x1_0000_0000,
        NamedArena::HramFaultCode => 15 * 0x1_0000_0000,
        NamedArena::HramSchedulerScratch => 16 * 0x1_0000_0000,
        NamedArena::HramYieldRequested => 17 * 0x1_0000_0000,
    }
}

/// The memory that backs an arena.
#[derive(Clone, Copy, Debug, PartialEq, Eq, Structural, Hash, PartialOrd, Ord)]
pub enum ArenaBacking {
    Wram,
    Sram,
    Hram,
}

/// `len` bytes from `start`.
#[derive(Clone, Copy, Debug, PartialEq, Eq, Structural)]
pub struct ByteRange {
    pub start: u16,
    pub len: u16,
}

impl ByteRange {
    pub open spec fn spec_end(self) -> int {
        self.start + self.len
    }

    /// The two ranges share at least one byte.
    pub open spec fn spec_intersects(self, other: ByteRange) -> bool {
        self.start < other.spec_end() && other.start < self.spec_end()
    }

    /// One past the last byte.
    pub fn end(self) -> (end: u32)
        ensures
            end == self.spec_end(),
    {
        self.start as u32 + self.len as u32
    }

    /// Whether the two ranges share a byte.
    pub fn intersects(self, other: ByteRange) -> (shared: bool)
        ensures
            shared == self.spec_intersects(other),
    {
        (self.start as u32) < other.end() && (other.start as u32) < self.end()
    }
}

#[derive(Clone, Copy, Debug, PartialEq, Eq, Structural, Hash)]
pub enum ArenaZerofillPolicy {
    ZeroOnBuild,
    RuntimeCleared,
    NotRequired,
}

/// The runtime-owned HRAM cells.
#[derive(Clone, Copy, Debug, PartialEq, Eq, Structural, Hash, PartialOrd, Ord)]
pub enum RuntimeFixedKind {
    HramFrameFlags,
    HramBankShadow,
    HramFaultCode,
    HramSchedulerScratch,
    HramYieldRequested,
}

#[derive(Clone, Copy, Debug, PartialEq, Eq, Structural, Hash, PartialOrd, Ord)]
pub struct TraceRingId(pub u32);

/// What kind of storage a slot provides.
#[derive(Clone, Debug, PartialEq, Eq, Hash, PartialOrd, Ord)]
pub enum SlotBindingKind {
    MaterializedValue,
    PersistentPageA { page: PageId, commit_group: CommitGroupId },
    PersistentPageB { page: PageId, commit_group: CommitGroupId },
    OverlayMember { overlay: OverlayId, member: OverlayResidentId },
    RuntimeFixed { runtime_kind: RuntimeFixedKind },
    TraceRing { trace_ring: TraceRingId },
}

impl SlotBindingKind {
    pub fn duplicate(&self) -> (copy: SlotBindingKind)
        ensures
            copy == *self,
    {
        match self {
            SlotBindingKind::MaterializedValue => SlotBindingKind::MaterializedValue,
            SlotBindingKind::PersistentPageA { page, commit_group } => SlotBindingKind::PersistentPageA {
                page: *page,
                commit_group: *commit_group,
            },
            SlotBindingKind::PersistentPageB { page, commit_group } => SlotBindingKind::PersistentPageB {
                page: *page,
                commit_group: *commit_group,
            },
            SlotBindingKind::OverlayMember { overlay, member } => SlotBindingKind::OverlayMember {
                overlay: *overlay,
                member: member.duplicate(),
            },
            SlotBindingKind::RuntimeFixed { runtime_kind } => SlotBindingKind::RuntimeFixed {
                runtime_kind: *runtime_kind,
            },
            SlotBindingKind::TraceRing { trace_ring } => SlotBindingKind::TraceRing {
                trace_ring: *trace_ring,
            },
        }
    }
}

/// What a slot holds.
#[derive(Clone, Debug, PartialEq, Eq, Hash, PartialOrd, Ord)]
pub enum SlotBindingRef {
    Value { value: ValueId },
    PersistPage { value: ValueId, page: PersistPageId },
    OverlayMember { overlay: OverlayId, member: OverlayResidentId },
    RuntimeFixed { runtime_kind: RuntimeFixedKind },
    TraceRing { trace_ring: TraceRingId },
}

impl SlotBindingRef {
    pub fn duplicate(&self) -> (copy: SlotBindingRef)
        ensures
            copy == *self,
    {
        match self {
            SlotBindingRef::Value { value } => SlotBindingRef::Value { value: *value },
            SlotBindingRef::PersistPage { value, page } => SlotBindingRef::PersistPage {
                value: *value,
                page: *page,
            },
            SlotBindingRef::OverlayMember { overlay, member } => SlotBindingRef::OverlayMember {
                overlay: *overlay,
                member: member.duplicate(),
            },
            SlotBindingRef::RuntimeFixed { runtime_kind } => SlotBindingRef::RuntimeFixed {
                runtime_kind: *runtime_kind,
            },
            SlotBindingRef::TraceRing { trace_ring } => SlotBindingRef::TraceRing {
                trace_ring: *trace_ring,
            },
        }
    }
}

/// A slot of an arena.
#[derive(Clone, Debug, PartialEq, Eq)]
pub struct ArenaSlot {
    pub id: ArenaSlotId,
    pub byte_offset: u16,
    pub size_bytes: u16,
    pub alias_class_id: Option<AliasClassId>,
    pub lifetime_class: LifetimeClass,
    pub binding_kind: SlotBindingKind,
    pub binding_ref: SlotBindingRef,
}

impl ArenaSlot {
    pub fn duplicate(&self) -> (copy: ArenaSlot)
        ensures
            copy == *self,
    {
        ArenaSlot {
            id: self.id,
            byte_offset: self.byte_offset,
            size_bytes: self.size_bytes,
            alias_class_id: self.alias_class_id,
            lifetime_class: self.lifetime_class,
            binding_kind: self.binding_kind.duplicate(),
            binding_ref: self.binding_ref.duplicate(),
        }
    }

    /// The bytes of the slot, relative to its arena.
    pub open spec fn spec_range(&self) -> ByteRange {
        ByteRange { start: self.byte_offset, len: self.size_bytes }
    }
}

/// A named arena with its range and slots.
#[derive(Clone, Debug, PartialEq, Eq)]
pub struct ArenaInstance {
    pub id: ArenaId,
    pub named: NamedArena,
    pub byte_range: ByteRange,
    pub backing: ArenaBacking,
    pub alignment: u16,
    pub zerofill: ArenaZerofillPolicy,
    pub slots: Vec<ArenaSlot>,
}

#[derive(Clone, Copy, Debug, PartialEq, Eq, Structural)]
pub struct MaterializeSlotBinding {
    pub value: ValueId,
    pub slot: ArenaSlotId,
}

#[derive(Clone, Copy, Debug, PartialEq, Eq, Structural)]
pub struct PersistSlotPairBinding {
    pub value: ValueId,
    pub persist_page: PersistPageId,
    pub sram_page: PageId,
    pub commit_group: CommitGroupId,
    pub slot_a: ArenaSlotId,
    pub slot_b: ArenaSlotId,
}

#[derive(Clone, Copy, Debug, PartialEq, Eq, Structural)]
pub struct OverlayArenaBinding {
    pub overlay: OverlayId,
    pub arena: ArenaId,
}

/// Which slot each materialized, persistent and overlay product landed in.
#[derive(Clone, Debug, PartialEq, Eq)]
pub struct ArenaBindings {
    pub materialize_to_slot: Vec<MaterializeSlotBinding>,
    pub persist_to_slot_pair: Vec<PersistSlotPairBinding>,
    pub overlay_to_arena: Vec<OverlayArenaBinding>,
}

/// The overlay reservation as the arenas honor it.
#[derive(Clone, Debug, PartialEq, Eq)]
pub struct OverlayReservationHonor {
    pub total_bytes: u16,
    pub expected_total_bytes: u16,
    pub per_region: Vec<OverlayReservationHonorEntry>,
}

#[derive(Clone, Copy, Debug, PartialEq, Eq, Structural)]
pub struct OverlayReservationHonorEntry {
    pub overlay_id: OverlayId,
    pub arena_id: ArenaId,
    pub bytes: u16,
    pub byte_range: ByteRange,
}

/// The hashes of the products this stage reads, as recorded.
#[derive(Clone, Debug, PartialEq, Eq)]
pub struct ArenaPlanInputIdentity {
    pub storage_plan_self_hash: Hash256,
    pub sram_page_plan_self_hash: Hash256,
    pub rom_window_plan_self_hash: Hash256,
    pub overlay_plan_self_hash: Hash256,
    pub runtime_chrome_budget_hash: Hash256,
    pub target_profile_hash: Hash256,
    pub arena_plan_policy_projection_hash: Hash256,
    pub determinism: DeterminismClass,
    pub target_profile_id: TargetProfileId,
    pub schema_version: SemVer,
}

#[derive(Clone, Copy, Debug, PartialEq, Eq, Structural)]
pub struct ArenaPlanInputHashes {
    pub storage_plan_self_hash: Hash256,
    pub sram_page_plan_self_hash: Hash256,
    pub rom_window_plan_self_hash: Hash256,
    pub overlay_plan_self_hash: Hash256,
    pub runtime_chrome_budget_hash: Hash256,
    pub target_profile_hash: Hash256,
    pub arena_plan_policy_projection_hash: Hash256,
}

impl ArenaPlanInputIdentity {
    pub fn duplicate(&self) -> (copy: ArenaPlanInputIdentity)
        ensures
            copy == *self,
    {
        ArenaPlanInputIdentity {
            storage_plan_self_hash: self.storage_plan_self_hash,
            sram_page_plan_self_hash: self.sram_page_plan_self_hash,
            rom_window_plan_self_hash: self.rom_window_plan_self_hash,
            overlay_plan_self_hash: self.overlay_plan_self_hash,
            runtime_chrome_budget_hash: self.runtime_chrome_budget_hash,
            target_profile_hash: self.target_profile_hash,
            arena_plan_policy_projection_hash: self.arena_plan_policy_projection_hash,
            determinism: self.determinism,
            target_profile_id: self.target_profile_id.duplicate(),
            schema_version: self.schema_version,
        }
    }

    pub open spec fn spec_hashes(&self) -> ArenaPlanInputHashes {
        ArenaPlanInputHashes {
            storage_plan_self_hash: self.storage_plan_self_hash,
            sram_page_plan_self_hash: self.sram_page_plan_self_hash,
            rom_window_plan_self_hash: self.rom_window_plan_self_hash,
            overlay_plan_self_hash: self.overlay_plan_self_hash,
            runtime_chrome_budget_hash: self.runtime_chrome_budget_hash,
            target_profile_hash: self.target_profile_hash,
            arena_plan_policy_projection_hash: self.arena_plan_policy_projection_hash,
        }
    }

    pub fn hashes(&self) -> (hashes: ArenaPlanInputHashes)
        ensures
            hashes == self.spec_hashes(),
    {
        ArenaPlanInputHashes {
            storage_plan_self_hash: self.storage_plan_self_hash,
            sram_page_plan_self_hash: self.sram_page_plan_self_hash,
            rom_window_plan_self_hash: self.rom_window_plan_self_hash,
            overlay_plan_self_hash: self.overlay_plan_self_hash,
            runtime_chrome_budget_hash: self.runtime_chrome_budget_hash,
            target_profile_hash: self.target_profile_hash,
            arena_plan_policy_projection_hash: self.arena_plan_policy_projection_hash,
        }
    }

    pub fn hash_for_product(&self, product: ArenaPlanInputProduct) -> (hash: Hash256)
        ensures
            hash == self.spec_hashes().spec_hash_for_product(product),
    {
        self.hashes().hash_for_product(product)
    }
}

impl ArenaPlanInputHashes {
    pub open spec fn spec_hash_for_product(&self, product: ArenaPlanInputProduct) -> Hash256 {
        match product {
            ArenaPlanInputProduct::StoragePlan => self.storage_plan_self_hash,
            ArenaPlanInputProduct::SramPagePlan => self.sram_page_plan_self_hash,
            ArenaPlanInputProduct::RomWindowPlan => self.rom_window_plan_self_hash,
            ArenaPlanInputProduct::OverlayPlan => self.overlay_plan_self_hash,
            ArenaPlanInputProduct::RuntimeChromeBudget => self.runtime_chrome_budget_hash,
            ArenaPlanInputProduct::TargetProfile => self.target_profile_hash,
            ArenaPlanInputProduct::PolicyProjection => self.arena_plan_policy_projection_hash,
        }
    }

    pub fn hash_for_product(&self, product: ArenaPlanInputProduct) -> (hash: Hash256)
        ensures
            hash == self.spec_hash_for_product(product),
    {
        match product {
            ArenaPlanInputProduct::StoragePlan => self.storage_plan_self_hash,
            ArenaPlanInputProduct::SramPagePlan => self.sram_page_plan_self_hash,
            ArenaPlanInputProduct::RomWindowPlan => self.rom_window_plan_self_hash,
            ArenaPlanInputProduct::OverlayPlan => self.overlay_plan_self_hash,
            ArenaPlanInputProduct::RuntimeChromeBudget => self.runtime_chrome_budget_hash,
            ArenaPlanInputProduct::TargetProfile => self.target_profile_hash,
            ArenaPlanInputProduct::PolicyProjection => self.arena_plan_policy_projection_hash,
        }
    }
}

/// An input product of this stage, named by its hash field.
#[derive(Clone, Copy, Debug, PartialEq, Eq, Structural)]
pub enum ArenaPlanInputProduct {
    StoragePlan,
    SramPagePlan,
    RomWindowPlan,
    OverlayPlan,
    RuntimeChromeBudget,
    TargetProfile,
    PolicyProjection,
}

/// The hash field name of each product.
pub open spec fn arena_product_field_name(product: ArenaPlanInputProduct) -> Seq<char> {
    match product {
        ArenaPlanInputProduct::StoragePlan => "storage_plan_self_hash"@,
        ArenaPlanInputProduct::SramPagePlan => "sram_page_plan_self_hash"@,
        ArenaPlanInputProduct::RomWindowPlan => "rom_window_plan_self_hash"@,
        ArenaPlanInputProduct::OverlayPlan => "overlay_plan_self_hash"@,
        ArenaPlanInputProduct::RuntimeChromeBudget => "runtime_chrome_budget_hash"@,
        ArenaPlanInputProduct::TargetProfile => "target_profile_hash"@,
        ArenaPlanInputProduct::PolicyProjection => "arena_plan_policy_projection_hash"@,
    }
}

impl ArenaPlanInputProduct {
    /// The name of the hash field that records this product.
    pub fn field_name(self) -> (name: &'static str)
        ensures
            name@ == arena_product_field_name(self),
    {
        proof {
            reveal_strlit("storage_plan_self_hash");
            reveal_strlit("sram_page_plan_self_hash");
            reveal_strlit("rom_window_plan_self_hash");
            reveal_strlit("overlay_plan_self_hash");
            reveal_strlit("runtime_chrome_budget_hash");
            reveal_strlit("target_profile_hash");
            reveal_strlit("arena_plan_policy_projection_hash");
        }
        match self {
            ArenaPlanInputProduct::StoragePlan => "storage_plan_self_hash",
            ArenaPlanInputProduct::SramPagePlan => "sram_page_plan_self_hash",
            ArenaPlanInputProduct::RomWindowPlan => "rom_window_plan_self_hash",
            ArenaPlanInputProduct::OverlayPlan => "overlay_plan_self_hash",
            ArenaPlanInputProduct::RuntimeChromeBudget => "runtime_chrome_budget_hash",
            ArenaPlanInputProduct::TargetProfile => "target_profile_hash",
            ArenaPlanInputProduct::PolicyProjection => "arena_plan_policy_projection_hash",
        }
    }
}

/// The products in the order their hashes are checked.
pub open spec fn arena_input_products() -> Seq<ArenaPlanInputProduct> {
    seq![
        ArenaPlanInputProduct::StoragePlan,
        ArenaPlanInputProduct::SramPagePlan,
        ArenaPlanInputProduct::RomWindowPlan,
        ArenaPlanInputProduct::OverlayPlan,
        ArenaPlanInputProduct::RuntimeChromeBudget,
        ArenaPlanInputProduct::TargetProfile,
        ArenaPlanInputProduct::PolicyProjection,
    ]
}

pub(crate) fn arena_input_products_exec() -> (products: Vec<ArenaPlanInputProduct>)
    ensures
        products@ == arena_input_products(),
{
    let products = vec![
        ArenaPlanInputProduct::StoragePlan,
        ArenaPlanInputProduct::SramPagePlan,
        ArenaPlanInputProduct::RomWindowPlan,
        ArenaPlanInputProduct::OverlayPlan,
        ArenaPlanInputProduct::RuntimeChromeBudget,
        ArenaPlanInputProduct::TargetProfile,
        ArenaPlanInputProduct::PolicyProjection,
    ];
    assert(products@ =~= arena_input_products());
    products
}

/// The part of the resolved policy that this stage reads.
#[derive(Clone, Copy, Debug, PartialEq, Eq, Structural)]
pub struct ArenaPlanPolicyProjection {
    pub arena_alignment_default: u16,
    pub arena_zerofill_policy: ArenaZerofillPolicy,
    pub persistent_page_geometry: PersistentPageGeometry,
}

/// The part of the target profile that this stage reads.
#[derive(Clone, Copy, Debug, PartialEq, Eq, Structural)]
pub struct ArenaTargetProfileSummary {
    pub wram_usable_bytes: u32,
    pub sram_window_bytes: u32,
    pub hram_usable_bytes: u32,
}

/// A storage decision together with the size of the value.
#[derive(Clone, Copy, Debug, PartialEq, Eq, Structural)]
pub struct ArenaPlanBindingInput {
    pub binding: StorageBinding,
    pub size_bytes: u32,
}

#[derive(Clone, Debug, PartialEq, Eq)]
pub struct ArenaPlanInputs {
    pub input_identity: ArenaPlanInputIdentity,
    pub expected_input_hashes: ArenaPlanInputHashes,
    pub runtime_chrome_budget: RuntimeChromeBudget,
    pub target_profile: ArenaTargetProfileSummary,
    pub policy: ArenaPlanPolicyProjection,
    pub storage_bindings: Vec<ArenaPlanBindingInput>,
    pub sram_page_plan: SramPagePlan,
    pub overlay_plan: OverlayPlan,
}

/// The arena plan product.
#[derive(Clone, Debug, PartialEq, Eq)]
pub struct ArenaPlan {
    pub identity: ArenaPlanInputIdentity,
    pub wram_arenas: Vec<ArenaInstance>,
    pub sram_arenas: Vec<ArenaInstance>,
    pub hram_assignments: Vec<ArenaInstance>,
    pub overlay_reservation: OverlayReservationHonor,
    pub arena_bindings: ArenaBindings,
    pub arena_plan_self_hash: Hash256,
}

#[derive(Clone, Copy, Debug, PartialEq, Eq, Structural)]
pub struct ArenaPlanSummary {
    pub wram_arena_count: u16,
    pub sram_arena_count: u16,
    pub hram_assignment_count: u16,
    pub slot_count: u32,
    pub overlay_reserved_bytes: u16,
}

#[derive(Clone, Debug, PartialEq, Eq)]
pub struct ArenaPlanResult {
    pub product: ArenaPlan,
    pub arena_plan_self_hash: Hash256,
    pub summary: ArenaPlanSummary,
}

#[derive(Clone, Copy, Debug, PartialEq, Eq, Structural)]
pub enum ArenaPlanOutcome {
    Succeeded,
    Failed,
}

/// The address invariants that the arena certificate records.
#[derive(Clone, Copy, Debug, PartialEq, Eq, Structural)]
pub struct ArenaAddressInvariants {
    pub f_addr_1_materialize_coverage: bool,
    pub f_addr_2_persist_coverage: bool,
    pub f_addr_3_alias_total_or_disjoint: bool,
    pub f_addr_4_lifetime_preservation: bool,
    pub f_addr_5_overlay_byte_equality: bool,
    pub f_addr_6_overlay_disjointness: bool,
    pub f_addr_7_overlay_member_start_of_region: bool,
    pub f_addr_8_sram_no_span: bool,
    pub f_addr_9_hram_page_bound: bool,
    pub f_addr_10_continuation_sized: bool,
    pub f_addr_11_harness_disjoint: bool,
    pub f_addr_12_persistent_page_header_aligned: bool,
    pub f_addr_13_slot_id_unique: bool,
    pub f_addr_14_binding_ref_resolves: bool,
}

impl ArenaAddressInvariants {
    pub open spec fn spec_all_pass(self) -> bool {
        &&& self.f_addr_1_materialize_coverage
        &&& self.f_addr_2_persist_coverage
        &&& self.f_addr_3_alias_total_or_disjoint
        &&& self.f_addr_4_lifetime_preservation
        &&& self.f_addr_5_overlay_byte_equality
        &&& self.f_addr_6_overlay_disjointness
        &&& self.f_addr_7_overlay_member_start_of_region
        &&& self.f_addr_8_sram_no_span
        &&& self.f_addr_9_hram_page_bound
        &&& self.f_addr_10_continuation_sized
        &&& self.f_addr_11_harness_disjoint
        &&& self.f_addr_12_persistent_page_header_aligned
        &&& self.f_addr_13_slot_id_unique
        &&& self.f_addr_14_binding_ref_resolves
    }

    /// Every invariant recorded as holding.
    pub fn all_true() -> (all: ArenaAddressInvariants)
        ensures
            all.spec_all_pass(),
    {
        ArenaAddressInvariants {
            f_addr_1_materialize_coverage: true,
            f_addr_2_persist_coverage: true,
            f_addr_3_alias_total_or_disjoint: true,
            f_addr_4_lifetime_preservation: true,
            f_addr_5_overlay_byte_equality: true,
            f_addr_6_overlay_disjointness: true,
            f_addr_7_overlay_member_start_of_region: true,
            f_addr_8_sram_no_span: true,
            f_addr_9_hram_page_bound: true,
            f_addr_10_continuation_sized: true,
            f_addr_11_harness_disjoint: true,
            f_addr_12_persistent_page_header_aligned: true,
            f_addr_13_slot_id_unique: true,
            f_addr_14_binding_ref_resolves: true,
        }
    }

    /// Whether every invariant holds.
    pub fn all_pass(self) -> (pass: bool)
        ensures
            pass == self.spec_all_pass(),
    {
        self.f_addr_1_materialize_coverage && self.f_addr_2_persist_coverage
            && self.f_addr_3_alias_total_or_disjoint && self.f_addr_4_lifetime_preservation
            && self.f_addr_5_overlay_byte_equality && self.f_addr_6_overlay_disjointness
            && self.f_addr_7_overlay_member_start_of_region && self.f_addr_8_sram_no_span
            && self.f_addr_9_hram_page_bound && self.f_addr_10_continuation_sized
            && self.f_addr_11_harness_disjoint && self.f_addr_12_persistent_page_header_aligned
            && self.f_addr_13_slot_id_unique && self.f_addr_14_binding_ref_resolves
    }
}

/// A persistent value's A/B slot pair, as the certificate records it.
#[derive(Clone, Copy, Debug, PartialEq, Eq, Structural)]
pub struct ArenaPersistentPageWitness {
    pub value: ValueId,
    pub sram_page: PageId,
    pub commit_group: CommitGroupId,
    pub slot_a: ArenaSlotId,
    pub slot_b: ArenaSlotId,
    pub slot_size_bytes: u16,
}

#[derive(Clone, Debug, PartialEq, Eq)]
pub struct ArenaPersistentGeometryWitness {
    pub geometry: PersistentPageGeometry,
    pub pages: Vec<ArenaPersistentPageWitness>,
}

/// The arena certificate.
#[derive(Clone, Debug, PartialEq, Eq)]
pub struct ArenaCertBody {
    pub pass_version: String,
    pub arena_plan_self_hash: Hash256,
    pub address_invariants: ArenaAddressInvariants,
    pub reservation_honor: OverlayReservationHonor,
    pub persistent_page_geometry: ArenaPersistentGeometryWitness,
    pub harness_no_leak: bool,
    pub diagnostics: Vec<ArenaPlanDiagnostic>,
    pub arena_cert_self_hash: Hash256,
}

/// The diagnostic codes of this stage.
#[derive(Clone, Copy, Debug, PartialEq, Eq, Structural, Hash)]
pub enum ArenaPlanDiagnosticCode {
    ArenaInputHashMismatch,
    ArenaPersistentPageGeometryMismatch,
    ArenaPolicyProjectionMismatch,
    ArenaOverlayReservationOverflow,
    ArenaOverlayReservationCountMismatch,
    ArenaSramSpanForbidden,
    ArenaCrossStreamPageSharing,
    ArenaPersistentPageStreamMismatch,
    ArenaAllocationFailed,
    ArenaUnmappedStorageClass,
    ArenaLifetimeClassMismatch,
    ArenaCapacityExceeded,
    ArenaHramUsableCapExceeded,
    ArenaBank0WramOverflow,
    ArenaCertAddressInvariantFailed,
    ArenaSectionRoleLeaked,
    ArenaSchedulingFieldLeaked,
    ArenaRepairProvenanceForbidden,
    ArenaCanonicalSortDrift,
}

/// The rule that a diagnostic reports as broken.
#[derive(Clone, Copy, Debug, PartialEq, Eq, Structural, Hash)]
pub enum ArenaRule {
    ApSc1,
    ApSc2,
    ApSc7,
    ApSc8,
    ApSc16,
    ApSc22,
    ApSc24,
    ApSc25,
    FAddr7,
    FAddr8,
    FAddr14,
    FReservationNoOverflow,
}

/// A policy field that a diagnostic points at.
#[derive(Clone, Copy, Debug, PartialEq, Eq, Structural, Hash)]
pub enum ArenaPolicyField {
    ArenaAlignmentDefault,
    AddressInvariants,
    ArenaPlanSelfHash,
    ArenaCertSelfHash,
}

/// What a diagnostic of this stage points at.
#[derive(Clone, Debug, PartialEq, Eq)]
pub enum ArenaPlanDiagnosticProvenance {
    HashMismatch { product: ArenaPlanInputProduct, recorded: Hash256, computed: Hash256 },
    Geometry { observed: PersistentPageGeometry, expected: PersistentPageGeometry },
    PolicyProjection { field: ArenaPolicyField },
    Reservation { invariant: ArenaRule, total_bytes: u32, expected_bytes: u32 },
    Slot { invariant: ArenaRule, slot_id: u32, observed_bytes: u32, cap_bytes: u32 },
    Binding { invariant: ArenaRule, binding_id: u32 },
    AliasClass { invariant: ArenaRule, alias_class_id: u32 },
    Arena { invariant: ArenaRule, arena_id: u32, named: NamedArena },
    JsonPath { field_or_tag: String },
}

/// A hard diagnostic of arena planning.
#[derive(Clone, Debug, PartialEq, Eq)]
pub struct ArenaPlanDiagnostic {
    pub code: ArenaPlanDiagnosticCode,
    pub provenance: ArenaPlanDiagnosticProvenance,
}

#[derive(Clone, Debug, PartialEq, Eq)]
pub struct ArenaPlanOutput {
    pub input_identity: ArenaPlanInputIdentity,
    pub outcome: ArenaPlanOutcome,
    pub result: Option<ArenaPlanResult>,
    pub cert: Option<ArenaCertBody>,
    pub diagnostics: Vec<ArenaPlanDiagnostic>,
}

// ------------------------------------------------------ address invariants

/// All arenas of a plan: WRAM, then SRAM, then HRAM.
pub open spec fn arena_list(plan: ArenaPlan) -> Seq<ArenaInstance> {
    plan.wram_arenas@ + plan.sram_arenas@ + plan.hram_assignments@
}

/// Every slot of `arenas` with its arena's id, arena by arena.
pub open spec fn flat_slots(arenas: Seq<ArenaInstance>) -> Seq<(ArenaId, ArenaSlot)>
    decreases arenas.len(),
{
    if arenas.len() == 0 {
        Seq::empty()
    } else {
        flat_slots(arenas.drop_last()) + arenas.last().slots@.map_values(
            |slot: ArenaSlot| (arenas.last().id, slot),
        )
    }
}

pub proof fn lemma_flat_slots_concat(a: Seq<ArenaInstance>, b: Seq<ArenaInstance>)
    ensures
        flat_slots(a + b) == flat_slots(a) + flat_slots(b),
    decreases b.len(),
{
    if b.len() == 0 {
        assert(a + b =~= a);
        assert(flat_slots(a) + flat_slots(b) =~= flat_slots(a));
    } else {
        assert((a + b).drop_last() =~= a + b.drop_last());
        lemma_flat_slots_concat(a, b.drop_last());
        assert(flat_slots(a + b) =~= flat_slots(a) + flat_slots(b));
    }
}

/// `value` is materialized by some storage binding.
pub open spec fn is_materialized_value(input: ArenaPlanInputs, value: ValueId) -> bool {
    exists|i: int|
        0 <= i < input.storage_bindings@.len() && (#[trigger] input.storage_bindings@[i]).binding.materialization is Materialize
            && input.storage_bindings@[i].binding.value == value
}

/// `value` is persisted by some storage binding.
pub open spec fn is_persisted_value(input: ArenaPlanInputs, value: ValueId) -> bool {
    exists|i: int|
        0 <= i < input.storage_bindings@.len() && (#[trigger] input.storage_bindings@[i]).binding.materialization is Persist
            && input.storage_bindings@[i].binding.value == value
}

/// F-Addr-1: the materialized values are exactly the values bound to slots.
pub open spec fn materialize_coverage(input: ArenaPlanInputs, plan: ArenaPlan) -> bool {
    forall|value: ValueId|
        #![trigger is_materialized_value(input, value)]
        is_materialized_value(input, value) <==> exists|j: int|
            0 <= j < plan.arena_bindings.materialize_to_slot@.len()
                && (#[trigger] plan.arena_bindings.materialize_to_slot@[j]).value == value
}

/// F-Addr-2: the persisted values are exactly the values bound to slot pairs.
pub open spec fn persist_coverage(input: ArenaPlanInputs, plan: ArenaPlan) -> bool {
    forall|value: ValueId|
        #![trigger is_persisted_value(input, value)]
        is_persisted_value(input, value) <==> exists|j: int|
            0 <= j < plan.arena_bindings.persist_to_slot_pair@.len()
                && (#[trigger] plan.arena_bindings.persist_to_slot_pair@[j]).value == value
}

/// Both slots are members of the same overlay.
pub open spec fn same_overlay_members(left: ArenaSlot, right: ArenaSlot) -> bool {
    left.binding_kind matches SlotBindingKind::OverlayMember { overlay: lo, .. }
        && right.binding_kind matches SlotBindingKind::OverlayMember { overlay: ro, .. } && lo == ro
}

/// Two slots of one arena may share bytes only as members of one overlay, or
/// as the same alias class over the same range.
pub open spec fn overlap_allowed(left: ArenaSlot, right: ArenaSlot) -> bool {
    same_overlay_members(left, right) || (left.alias_class_id is Some
        && left.alias_class_id == right.alias_class_id && left.spec_range() == right.spec_range())
}

/// F-Addr-3: overlapping slots of one arena are aliases or overlay members.
pub open spec fn alias_total_or_disjoint(plan: ArenaPlan) -> bool {
    let flat = flat_slots(arena_list(plan));
    forall|i: int, j: int|
        0 <= i < j < flat.len() && (#[trigger] flat[i]).0 == (#[trigger] flat[j]).0
            && flat[i].1.spec_range().spec_intersects(flat[j].1.spec_range()) ==> overlap_allowed(
            flat[i].1,
            flat[j].1,
        )
}

/// `j` is the first binding of `value` in `bound`.
pub open spec fn first_binding(bound: Seq<MaterializeSlotBinding>, value: ValueId, j: int) -> bool {
    &&& 0 <= j < bound.len()
    &&& bound[j].value == value
    &&& forall|p: int| 0 <= p < j ==> (#[trigger] bound[p]).value != value
}

/// `k` is the first slot of `flat` with id `id`.
pub open spec fn first_slot(flat: Seq<(ArenaId, ArenaSlot)>, id: ArenaSlotId, k: int) -> bool {
    &&& 0 <= k < flat.len()
    &&& flat[k].1.id == id
    &&& forall|p: int| 0 <= p < k ==> (#[trigger] flat[p]).1.id != id
}

/// F-Addr-4: each materialized value is bound, and the first slot its first
/// binding names keeps the value's lifetime.
pub open spec fn lifetime_preserved(input: ArenaPlanInputs, plan: ArenaPlan) -> bool {
    let flat = flat_slots(arena_list(plan));
    let bound = plan.arena_bindings.materialize_to_slot@;
    forall|i: int|
        #![trigger input.storage_bindings@[i]]
        0 <= i < input.storage_bindings@.len() && input.storage_bindings@[i].binding.materialization is Materialize
            ==> exists|j: int, k: int|
            #[trigger] first_binding(bound, input.storage_bindings@[i].binding.value, j) && #[trigger] first_slot(
                flat,
                bound[j].slot,
                k,
            ) && flat[k].1.lifetime_class == input.storage_bindings@[i].binding.materialization->lifetime
}

/// Entry `e` of the honor table is the one honoring `wanted`: the same
/// region and size, the only entry for that region, backed by a WRAM arena
/// of that region with the same range.
pub open spec fn honor_entry_for(plan: ArenaPlan, e: int, wanted: OverlayReservationEntry) -> bool {
    let honor = plan.overlay_reservation;
    let entry = honor.per_region@[e];
    &&& 0 <= e < honor.per_region@.len()
    &&& entry.overlay_id == wanted.region
    &&& entry.bytes == wanted.bytes
    &&& entry.byte_range.len == wanted.bytes
    &&& (forall|other: int|
        0 <= other < honor.per_region@.len() && (#[trigger] honor.per_region@[other]).overlay_id
            == wanted.region ==> other == e)
    &&& exists|a: int|
        0 <= a < plan.wram_arenas@.len() && (#[trigger] plan.wram_arenas@[a]).id == entry.arena_id
            && plan.wram_arenas@[a].named == (NamedArena::WramOverlayRegion { overlay: wanted.region })
            && plan.wram_arenas@[a].byte_range == entry.byte_range
}

pub open spec fn region_honored(plan: ArenaPlan, wanted: OverlayReservationEntry) -> bool {
    exists|e: int| #[trigger] honor_entry_for(plan, e, wanted)
}

/// F-Addr-5: the plan honors the overlay reservation byte for byte.
pub open spec fn overlay_reservation_honored(input: ArenaPlanInputs, plan: ArenaPlan) -> bool {
    let reservation = input.overlay_plan.reservation;
    let honor = plan.overlay_reservation;
    &&& honor.total_bytes == reservation.total_bytes
    &&& honor.expected_total_bytes == reservation.total_bytes
    &&& honor.per_region@.len() == reservation.per_region@.len()
    &&& forall|r: int|
        0 <= r < reservation.per_region@.len() ==> region_honored(plan, #[trigger] reservation.per_region@[r])
}

pub open spec fn is_overlay_arena(named: NamedArena) -> bool {
    named is WramOverlayRegion
}

/// F-Addr-6: overlay regions share no byte with the other WRAM arenas.
pub open spec fn overlay_disjoint(plan: ArenaPlan) -> bool {
    let wram = plan.wram_arenas@;
    forall|i: int, j: int|
        0 <= i < wram.len() && 0 <= j < wram.len() && is_overlay_arena((#[trigger] wram[i]).named)
            && !is_overlay_arena((#[trigger] wram[j]).named) ==> !wram[i].byte_range.spec_intersects(
            wram[j].byte_range,
        )
}

/// `slot` holds `member` of `region` at the region's start and fits it.
pub open spec fn slot_at_start(slot: ArenaSlot, region: OverlayRegion, member: OverlayResidentId) -> bool {
    &&& slot.binding_kind matches SlotBindingKind::OverlayMember { overlay, member: held }
        && overlay == region.id && held.same(&member)
    &&& slot.byte_offset == 0
    &&& slot.size_bytes <= region.bytes
}

/// `arena` holds a slot for `member` of `region` at its start that fits the region.
pub open spec fn member_at_start(arena: ArenaInstance, region: OverlayRegion, member: OverlayResidentId) -> bool {
    exists|s: int| 0 <= s < arena.slots@.len() && slot_at_start(#[trigger] arena.slots@[s], region, member)
}

pub open spec fn region_members_at_start(arena: ArenaInstance, region: OverlayRegion) -> bool {
    forall|m: int|
        0 <= m < region.members@.len() ==> member_at_start(arena, region, (#[trigger] region.members@[m]).id)
}

/// `a` is the first WRAM arena of the plan named `named`.
pub open spec fn first_named_arena(wram: Seq<ArenaInstance>, named: NamedArena, a: int) -> bool {
    &&& 0 <= a < wram.len()
    &&& wram[a].named == named
    &&& forall|p: int| 0 <= p < a ==> (#[trigger] wram[p]).named != named
}

/// The first WRAM arena of `region` holds each of its members at its start.
pub open spec fn region_has_start_arena(plan: ArenaPlan, region: OverlayRegion) -> bool {
    exists|a: int|
        #[trigger] first_named_arena(plan.wram_arenas@, NamedArena::WramOverlayRegion { overlay: region.id }, a)
            && region_members_at_start(plan.wram_arenas@[a], region)
}

/// F-Addr-7: every overlay member has a slot at the start of its region's
/// arena that fits the region.
pub open spec fn overlay_member_start(input: ArenaPlanInputs, plan: ArenaPlan) -> bool {
    forall|r: int|
        0 <= r < input.overlay_plan.regions@.len() ==> region_has_start_arena(
            plan,
            #[trigger] input.overlay_plan.regions@[r],
        )
}

/// F-Addr-8: no SRAM slot crosses a window boundary.
pub open spec fn sram_no_span(input: ArenaPlanInputs, plan: ArenaPlan) -> bool {
    let window = input.target_profile.sram_window_bytes;
    forall|a: int, s: int|
        0 <= a < plan.sram_arenas@.len() && 0 <= s < plan.sram_arenas@[a].slots@.len() ==> {
            let slot = #[trigger] plan.sram_arenas@[a].slots@[s];
            window != 0 && (slot.byte_offset as int % window as int) + slot.size_bytes <= window
        }
}

/// F-Addr-9: HRAM assignments end within usable HRAM.
pub open spec fn hram_bound(input: ArenaPlanInputs, plan: ArenaPlan) -> bool {
    forall|a: int|
        0 <= a < plan.hram_assignments@.len() ==> (#[trigger] plan.hram_assignments@[a]).byte_range.spec_end()
            <= input.target_profile.hram_usable_bytes
}

pub open spec fn is_session_hot(binding: ArenaPlanBindingInput) -> bool {
    binding.binding.materialization == (Materialization::Materialize {
        class: StorageClass::WramHot,
        lifetime: LifetimeClass::Session,
    })
}

/// F-Addr-10: a continuation record exists exactly when a session-lived
/// value sits in hot WRAM, and then it holds sized materialized slots.
pub open spec fn continuation_sized(input: ArenaPlanInputs, plan: ArenaPlan) -> bool {
    let wram = plan.wram_arenas@;
    let session = exists|i: int|
        0 <= i < input.storage_bindings@.len() && is_session_hot(
            #[trigger] input.storage_bindings@[i],
        );
    if !session {
        forall|a: int| 0 <= a < wram.len() ==> (#[trigger] wram[a]).named != NamedArena::WramContinuationRecord
    } else {
        exists|a: int|
            0 <= a < wram.len() && (#[trigger] wram[a]).named == NamedArena::WramContinuationRecord
                && (forall|b: int|
                0 <= b < wram.len() && (#[trigger] wram[b]).named == NamedArena::WramContinuationRecord
                    ==> b == a) && wram[a].byte_range.len > 0 && wram[a].slots@.len() > 0
                && forall|s: int|
                0 <= s < wram[a].slots@.len() ==> (#[trigger] wram[a].slots@[s]).size_bytes > 0
                    && wram[a].slots@[s].binding_kind is MaterializedValue
    }
}

pub open spec fn is_harness_arena(named: NamedArena) -> bool {
    named is SramHarnessCommandBlock || named is SramHarnessResultBlock
        || named is SramPersistedTranscript
}

pub open spec fn is_data_arena(named: NamedArena) -> bool {
    named is SramSequenceStatePages || named is SramColdSpill || named is SramTracePages
}

/// F-Addr-11: harness blocks share no byte with data arenas.
pub open spec fn harness_disjoint(plan: ArenaPlan) -> bool {
    let sram = plan.sram_arenas@;
    forall|i: int, j: int|
        0 <= i < sram.len() && 0 <= j < sram.len() && is_harness_arena((#[trigger] sram[i]).named)
            && is_data_arena((#[trigger] sram[j]).named) ==> !sram[i].byte_range.spec_intersects(
            sram[j].byte_range,
        )
}

/// The size of one persistent page: payload, header, and commit word.
pub open spec fn page_size(geometry: PersistentPageGeometry) -> int {
    geometry.payload_bytes + geometry.header_bytes + geometry.commit_word_bytes
}

pub open spec fn is_persistent_kind(kind: SlotBindingKind) -> bool {
    kind is PersistentPageA || kind is PersistentPageB
}

/// F-Addr-12: persistent page slots are aligned, page sized, and inside their arena.
pub open spec fn persistent_page_header_aligned(input: ArenaPlanInputs, plan: ArenaPlan) -> bool {
    let geometry = input.policy.persistent_page_geometry;
    &&& geometry.alignment != 0
    &&& 0 < page_size(geometry) <= u16::MAX
    &&& forall|a: int, s: int|
        0 <= a < plan.sram_arenas@.len() && 0 <= s < plan.sram_arenas@[a].slots@.len()
            && is_persistent_kind((#[trigger] plan.sram_arenas@[a].slots@[s]).binding_kind) ==> {
            let slot = plan.sram_arenas@[a].slots@[s];
            &&& slot.byte_offset as int % geometry.alignment as int == 0
            &&& slot.size_bytes == page_size(geometry)
            &&& slot.size_bytes >= geometry.header_bytes + geometry.commit_word_bytes
            &&& slot.byte_offset + slot.size_bytes <= plan.sram_arenas@[a].byte_range.len
        }
}

/// F-Addr-13: slot ids are unique across the plan.
pub open spec fn slot_ids_unique(plan: ArenaPlan) -> bool {
    let flat = flat_slots(arena_list(plan));
    forall|i: int, j: int|
        0 <= i < j < flat.len() ==> (#[trigger] flat[i]).1.id != (#[trigger] flat[j]).1.id
}

/// What a slot's binding reference points at exists in the inputs.
pub open spec fn binding_ref_resolves(input: ArenaPlanInputs, reference: SlotBindingRef) -> bool {
    match reference {
        SlotBindingRef::Value { value } => is_materialized_value(input, value) || exists|b: int|
            0 <= b < input.sram_page_plan.bindings@.len()
                && (#[trigger] input.sram_page_plan.bindings@[b]).binding_id == value,
        SlotBindingRef::PersistPage { value, .. } => is_persisted_value(input, value),
        SlotBindingRef::OverlayMember { overlay, .. } => exists|r: int|
            0 <= r < input.overlay_plan.regions@.len()
                && (#[trigger] input.overlay_plan.regions@[r]).id == overlay,
        SlotBindingRef::RuntimeFixed { .. } => true,
        SlotBindingRef::TraceRing { .. } => true,
    }
}

/// F-Addr-14: every slot's binding reference resolves.
pub open spec fn binding_refs_resolve(input: ArenaPlanInputs, plan: ArenaPlan) -> bool {
    let flat = flat_slots(arena_list(plan));
    forall|k: int| 0 <= k < flat.len() ==> binding_ref_resolves(input, (#[trigger] flat[k]).1.binding_ref)
}

/// All fourteen address invariants of the arena certificate.
pub open spec fn address_invariants_hold(input: ArenaPlanInputs, plan: ArenaPlan) -> bool {
    &&& materialize_coverage(input, plan)
    &&& persist_coverage(input, plan)
    &&& alias_total_or_disjoint(plan)
    &&& lifetime_preserved(input, plan)
    &&& overlay_reservation_honored(input, plan)
    &&& overlay_disjoint(plan)
    &&& overlay_member_start(input, plan)
    &&& sram_no_span(input, plan)
    &&& hram_bound(input, plan)
    &&& continuation_sized(input, plan)
    &&& harness_disjoint(plan)
    &&& persistent_page_header_aligned(input, plan)
    &&& slot_ids_unique(plan)
    &&& binding_refs_resolve(input, plan)
}

// ------------------------------------------------------------- validators

fn append_flat_slots(out: &mut Vec<(ArenaId, ArenaSlot)>, arenas: &Vec<ArenaInstance>)
    ensures
        final(out)@ == old(out)@ + flat_slots(arenas@),
{
    let ghost start = out@;
    let mut a: usize = 0;
    while a < arenas.len()
        invariant
            a <= arenas@.len(),
            out@ == start + flat_slots(arenas@.subrange(0, a as int)),
        decreases arenas@.len() - a,
    {
        let arena = &arenas[a];
        let ghost before = out@;
        let mut s: usize = 0;
        while s < arena.slots.len()
            invariant
                s <= arena.slots@.len(),
                out@ == before + arena.slots@.subrange(0, s as int).map_values(
                    |slot: ArenaSlot| (arena.id, slot),
                ),
            decreases arena.slots@.len() - s,
        {
            out.push((arena.id, arena.slots[s].duplicate()));
            proof {
                assert(arena.slots@.subrange(0, s + 1).map_values(|slot: ArenaSlot| (arena.id, slot))
                    =~= arena.slots@.subrange(0, s as int).map_values(
                    |slot: ArenaSlot| (arena.id, slot),
                ).push((arena.id, arena.slots@[s as int])));
            }
            s = s + 1;
        }
        proof {
            assert(arena.slots@.subrange(0, arena.slots@.len() as int) =~= arena.slots@);
            assert(arenas@.subrange(0, a + 1).drop_last() =~= arenas@.subrange(0, a as int));
            assert(arenas@.subrange(0, a + 1).last() == arenas@[a as int]);
        }
        a = a + 1;
    }
    proof {
        assert(arenas@.subrange(0, arenas@.len() as int) =~= arenas@);
    }
}

/// Every slot of the plan with its arena's id, in arena order.
pub(crate) fn all_slots_with_arena(plan: &ArenaPlan) -> (slots: Vec<(ArenaId, ArenaSlot)>)
    ensures
        slots@ == flat_slots(arena_list(*plan)),
{
    let mut slots: Vec<(ArenaId, ArenaSlot)> = Vec::new();
    append_flat_slots(&mut slots, &plan.wram_arenas);
    append_flat_slots(&mut slots, &plan.sram_arenas);
    append_flat_slots(&mut slots, &plan.hram_assignments);
    proof {
        lemma_flat_slots_concat(plan.wram_arenas@, plan.sram_arenas@);
        lemma_flat_slots_concat(plan.wram_arenas@ + plan.sram_arenas@, plan.hram_assignments@);
        assert(Seq::<(ArenaId, ArenaSlot)>::empty() + flat_slots(plan.wram_arenas@)
            =~= flat_slots(plan.wram_arenas@));
        assert(slots@ =~= flat_slots(arena_list(*plan)));
    }
    slots
}

fn bound_to_slot(bound: &Vec<MaterializeSlotBinding>, value: ValueId) -> (found: bool)
    ensures
        found == exists|j: int| 0 <= j < bound@.len() && (#[trigger] bound@[j]).value == value,
{
    let mut j: usize = 0;
    while j < bound.len()
        invariant
            j <= bound@.len(),
            forall|k: int| 0 <= k < j ==> (#[trigger] bound@[k]).value != value,
        decreases bound@.len() - j,
    {
        if bound[j].value == value {
            return true;
        }
        j = j + 1;
    }
    false
}

fn bound_to_pair(bound: &Vec<PersistSlotPairBinding>, value: ValueId) -> (found: bool)
    ensures
        found == exists|j: int| 0 <= j < bound@.len() && (#[trigger] bound@[j]).value == value,
{
    let mut j: usize = 0;
    while j < bound.len()
        invariant
            j <= bound@.len(),
            forall|k: int| 0 <= k < j ==> (#[trigger] bound@[k]).value != value,
        decreases bound@.len() - j,
    {
        if bound[j].value == value {
            return true;
        }
        j = j + 1;
    }
    false
}

fn materialized_value_exec(input: &ArenaPlanInputs, value: ValueId) -> (found: bool)
    ensures
        found == is_materialized_value(*input, value),
{
    let mut i: usize = 0;
    while i < input.storage_bindings.len()
        invariant
            i <= input.storage_bindings@.len(),
            forall|k: int|
                0 <= k < i ==> !((#[trigger] input.storage_bindings@[k]).binding.materialization is Materialize
                    && input.storage_bindings@[k].binding.value == value),
        decreases input.storage_bindings@.len() - i,
    {
        let binding = input.storage_bindings[i].binding;
        if let Materialization::Materialize { .. } = binding.materialization {
            if binding.value == value {
                return true;
            }
        }
        i = i + 1;
    }
    false
}

fn persisted_value_exec(input: &ArenaPlanInputs, value: ValueId) -> (found: bool)
    ensures
        found == is_persisted_value(*input, value),
{
    let mut i: usize = 0;
    while i < input.storage_bindings.len()
        invariant
            i <= input.storage_bindings@.len(),
            forall|k: int|
                0 <= k < i ==> !((#[trigger] input.storage_bindings@[k]).binding.materialization is Persist
                    && input.storage_bindings@[k].binding.value == value),
        decreases input.storage_bindings@.len() - i,
    {
        let binding = input.storage_bindings[i].binding;
        if let Materialization::Persist { .. } = binding.materialization {
            if binding.value == value {
                return true;
            }
        }
        i = i + 1;
    }
    false
}

fn check_materialize_coverage(input: &ArenaPlanInputs, plan: &ArenaPlan) -> (ok: bool)
    ensures
        ok == materialize_coverage(*input, *plan),
{
    let bound = &plan.arena_bindings.materialize_to_slot;
    let mut i: usize = 0;
    while i < input.storage_bindings.len()
        invariant
            i <= input.storage_bindings@.len(),
            bound == &plan.arena_bindings.materialize_to_slot,
            forall|k: int|
                0 <= k < i && (#[trigger] input.storage_bindings@[k]).binding.materialization is Materialize
                    ==> exists|j: int|
                    0 <= j < bound@.len() && (#[trigger] bound@[j]).value
                        == input.storage_bindings@[k].binding.value,
        decreases input.storage_bindings@.len() - i,
    {
        let binding = input.storage_bindings[i].binding;
        if let Materialization::Materialize { .. } = binding.materialization {
            if !bound_to_slot(bound, binding.value) {
                assert(input.storage_bindings@[i as int].binding == binding);
                assert(is_materialized_value(*input, binding.value));
                return false;
            }
        }
        i = i + 1;
    }
    let mut j: usize = 0;
    while j < bound.len()
        invariant
            j <= bound@.len(),
            bound == &plan.arena_bindings.materialize_to_slot,
            forall|k: int| 0 <= k < j ==> is_materialized_value(*input, (#[trigger] bound@[k]).value),
        decreases bound@.len() - j,
    {
        if !materialized_value_exec(input, bound[j].value) {
            return false;
        }
        j = j + 1;
    }
    true
}

fn check_persist_coverage(input: &ArenaPlanInputs, plan: &ArenaPlan) -> (ok: bool)
    ensures
        ok == persist_coverage(*input, *plan),
{
    let bound = &plan.arena_bindings.persist_to_slot_pair;
    let mut i: usize = 0;
    while i < input.storage_bindings.len()
        invariant
            i <= input.storage_bindings@.len(),
            bound == &plan.arena_bindings.persist_to_slot_pair,
            forall|k: int|
                0 <= k < i && (#[trigger] input.storage_bindings@[k]).binding.materialization is Persist
                    ==> exists|j: int|
                    0 <= j < bound@.len() && (#[trigger] bound@[j]).value
                        == input.storage_bindings@[k].binding.value,
        decreases input.storage_bindings@.len() - i,
    {
        let binding = input.storage_bindings[i].binding;
        if let Materialization::Persist { .. } = binding.materialization {
            if !bound_to_pair(bound, binding.value) {
                assert(input.storage_bindings@[i as int].binding == binding);
                assert(is_persisted_value(*input, binding.value));
                return false;
            }
        }
        i = i + 1;
    }
    let mut j: usize = 0;
    while j < bound.len()
        invariant
            j <= bound@.len(),
            bound == &plan.arena_bindings.persist_to_slot_pair,
            forall|k: int| 0 <= k < j ==> is_persisted_value(*input, (#[trigger] bound@[k]).value),
        decreases bound@.len() - j,
    {
        if !persisted_value_exec(input, bound[j].value) {
            return false;
        }
        j = j + 1;
    }
    true
}

fn slot_range(slot: &ArenaSlot) -> (range: ByteRange)
    ensures
        range == slot.spec_range(),
{
    ByteRange { start: slot.byte_offset, len: slot.size_bytes }
}

fn overlap_allowed_exec(left: &ArenaSlot, right: &ArenaSlot) -> (allowed: bool)
    ensures
        allowed == overlap_allowed(*left, *right),
{
    let both_overlay = match (&left.binding_kind, &right.binding_kind) {
        (
            SlotBindingKind::OverlayMember { overlay: lo, .. },
            SlotBindingKind::OverlayMember { overlay: ro, .. },
        ) => *lo == *ro,
        _ => false,
    };
    let same_alias = match (left.alias_class_id, right.alias_class_id) {
        (Some(la), Some(ra)) => la == ra,
        _ => false,
    };
    both_overlay || (same_alias && slot_range(left) == slot_range(right))
}

fn check_alias_total_or_disjoint(slots: &Vec<(ArenaId, ArenaSlot)>) -> (ok: bool)
    ensures
        ok == forall|i: int, j: int|
            0 <= i < j < slots@.len() && (#[trigger] slots@[i]).0 == (#[trigger] slots@[j]).0
                && slots@[i].1.spec_range().spec_intersects(slots@[j].1.spec_range())
                ==> overlap_allowed(slots@[i].1, slots@[j].1),
{
    let mut i: usize = 0;
    while i < slots.len()
        invariant
            i <= slots@.len(),
            forall|a: int, b: int|
                0 <= a < i && a < b < slots@.len() && (#[trigger] slots@[a]).0 == (#[trigger] slots@[b]).0
                    && slots@[a].1.spec_range().spec_intersects(slots@[b].1.spec_range())
                    ==> overlap_allowed(slots@[a].1, slots@[b].1),
        decreases slots@.len() - i,
    {
        let mut j: usize = i + 1;
        while j < slots.len()
            invariant
                i < slots@.len(),
                i + 1 <= j <= slots@.len(),
                forall|a: int, b: int|
                    0 <= a < i && a < b < slots@.len() && (#[trigger] slots@[a]).0 == (#[trigger] slots@[b]).0
                        && slots@[a].1.spec_range().spec_intersects(slots@[b].1.spec_range())
                        ==> overlap_allowed(slots@[a].1, slots@[b].1),
                forall|b: int|
                    i < b < j && slots@[i as int].0 == (#[trigger] slots@[b]).0
                        && slots@[i as int].1.spec_range().spec_intersects(slots@[b].1.spec_range())
                        ==> overlap_allowed(slots@[i as int].1, slots@[b].1),
            decreases slots@.len() - j,
        {
            let left = &slots[i];
            let right = &slots[j];
            if left.0 == right.0 && slot_range(&left.1).intersects(slot_range(&right.1)) {
                if !overlap_allowed_exec(&left.1, &right.1) {
                    return false;
                }
            }
            j = j + 1;
        }
        i = i + 1;
    }
    true
}

fn check_slot_ids_unique(slots: &Vec<(ArenaId, ArenaSlot)>) -> (ok: bool)
    ensures
        ok == forall|i: int, j: int|
            0 <= i < j < slots@.len() ==> (#[trigger] slots@[i]).1.id != (#[trigger] slots@[j]).1.id,
{
    let mut i: usize = 0;
    while i < slots.len()
        invariant
            i <= slots@.len(),
            forall|a: int, b: int|
                0 <= a < i && a < b < slots@.len() ==> (#[trigger] slots@[a]).1.id != (#[trigger] slots@[b]).1.id,
        decreases slots@.len() - i,
    {
        let mut j: usize = i + 1;
        while j < slots.len()
            invariant
                i < slots@.len(),
                i + 1 <= j <= slots@.len(),
                forall|a: int, b: int|
                    0 <= a < i && a < b < slots@.len() ==> (#[trigger] slots@[a]).1.id
                        != (#[trigger] slots@[b]).1.id,
                forall|b: int| i < b < j ==> slots@[i as int].1.id != (#[trigger] slots@[b]).1.id,
            decreases slots@.len() - j,
        {
            if slots[i].1.id == slots[j].1.id {
                return false;
            }
            j = j + 1;
        }
        i = i + 1;
    }
    true
}

fn first_bound_slot(bound: &Vec<MaterializeSlotBinding>, value: ValueId) -> (found: Option<usize>)
    ensures
        found matches Some(j) ==> first_binding(bound@, value, j as int),
        found is None ==> forall|p: int| 0 <= p < bound@.len() ==> (#[trigger] bound@[p]).value != value,
{
    let mut j: usize = 0;
    while j < bound.len()
        invariant
            j <= bound@.len(),
            forall|p: int| 0 <= p < j ==> (#[trigger] bound@[p]).value != value,
        decreases bound@.len() - j,
    {
        if bound[j].value == value {
            return Some(j);
        }
        j = j + 1;
    }
    None
}

fn first_slot_with_id(slots: &Vec<(ArenaId, ArenaSlot)>, id: ArenaSlotId) -> (found: Option<usize>)
    ensures
        found matches Some(k) ==> first_slot(slots@, id, k as int),
        found is None ==> forall|p: int| 0 <= p < slots@.len() ==> (#[trigger] slots@[p]).1.id != id,
{
    let mut k: usize = 0;
    while k < slots.len()
        invariant
            k <= slots@.len(),
            forall|p: int| 0 <= p < k ==> (#[trigger] slots@[p]).1.id != id,
        decreases slots@.len() - k,
    {
        if slots[k].1.id == id {
            return Some(k);
        }
        k = k + 1;
    }
    None
}

fn check_lifetime_preserved(
    input: &ArenaPlanInputs,
    plan: &ArenaPlan,
    slots: &Vec<(ArenaId, ArenaSlot)>,
) -> (ok: bool)
    requires
        slots@ == flat_slots(arena_list(*plan)),
    ensures
        ok == lifetime_preserved(*input, *plan),
{
    let bound = &plan.arena_bindings.materialize_to_slot;
    let mut i: usize = 0;
    while i < input.storage_bindings.len()
        invariant
            i <= input.storage_bindings@.len(),
            bound == &plan.arena_bindings.materialize_to_slot,
            slots@ == flat_slots(arena_list(*plan)),
            forall|k: int|
                #![trigger input.storage_bindings@[k]]
                0 <= k < i && input.storage_bindings@[k].binding.materialization is Materialize
                    ==> exists|j: int, q: int|
                    #[trigger] first_binding(bound@, input.storage_bindings@[k].binding.value, j)
                        && #[trigger] first_slot(slots@, bound@[j].slot, q) && slots@[q].1.lifetime_class
                        == input.storage_bindings@[k].binding.materialization->lifetime,
        decreases input.storage_bindings@.len() - i,
    {
        let binding = input.storage_bindings[i].binding;
        assert(input.storage_bindings@[i as int].binding == binding);
        if let Materialization::Materialize { lifetime, .. } = binding.materialization {
            match first_bound_slot(bound, binding.value) {
                None => {
                    assert(!lifetime_preserved(*input, *plan)) by {
                        assert forall|j: int, q: int|
                            !(#[trigger] first_binding(bound@, binding.value, j) && #[trigger] first_slot(
                                slots@,
                                bound@[j].slot,
                                q,
                            )) by {
                            if first_binding(bound@, binding.value, j) {
                                assert(bound@[j].value == binding.value);
                            }
                        }
                    }
                    return false;
                },
                Some(j) => match first_slot_with_id(slots, bound[j].slot) {
                    None => {
                        assert(!lifetime_preserved(*input, *plan)) by {
                            assert forall|j2: int, q: int|
                                !(#[trigger] first_binding(bound@, binding.value, j2) && #[trigger] first_slot(
                                    slots@,
                                    bound@[j2].slot,
                                    q,
                                )) by {
                                if first_binding(bound@, binding.value, j2) && first_slot(slots@, bound@[j2].slot, q) {
                                    if j2 < j as int {
                                        assert(bound@[j2].value != binding.value);
                                    } else if j2 > j as int {
                                        assert(bound@[j as int].value != binding.value);
                                    }
                                    assert(slots@[q].1.id == bound@[j as int].slot);
                                }
                            }
                        }
                        return false;
                    },
                    Some(q) => {
                        if slots[q].1.lifetime_class != lifetime {
                            assert(!lifetime_preserved(*input, *plan)) by {
                                assert forall|j2: int, q2: int|
                                    #[trigger] first_binding(bound@, binding.value, j2) && #[trigger] first_slot(
                                        slots@,
                                        bound@[j2].slot,
                                        q2,
                                    ) implies slots@[q2].1.lifetime_class != lifetime by {
                                    if j2 < j as int {
                                        assert(bound@[j2].value != binding.value);
                                    } else if j2 > j as int {
                                        assert(bound@[j as int].value != binding.value);
                                    }
                                    if q2 < q as int {
                                        assert(slots@[q2].1.id != bound@[j as int].slot);
                                    } else if q2 > q as int {
                                        assert(slots@[q as int].1.id != bound@[j as int].slot);
                                    }
                                }
                            }
                            return false;
                        }
                        assert(first_binding(bound@, input.storage_bindings@[i as int].binding.value, j as int));
                        assert(first_slot(slots@, bound@[j as int].slot, q as int));
                    },
                },
            }
        }
        i = i + 1;
    }
    true
}

#[verifier::loop_isolation(false)]
fn check_region_honored(plan: &ArenaPlan, wanted: OverlayReservationEntry) -> (ok: bool)
    ensures
        ok == region_honored(*plan, wanted),
{
    let honor = &plan.overlay_reservation;
    let mut found: Option<usize> = None;
    let mut e: usize = 0;
    while e < honor.per_region.len()
        invariant
            honor == &plan.overlay_reservation,
            e <= honor.per_region@.len(),
            found matches Some(f) ==> f < e && honor.per_region@[f as int].overlay_id == wanted.region
                && forall|o: int|
                0 <= o < e && (#[trigger] honor.per_region@[o]).overlay_id == wanted.region ==> o == f,
            found is None ==> forall|o: int|
                0 <= o < e ==> (#[trigger] honor.per_region@[o]).overlay_id != wanted.region,
        decreases honor.per_region@.len() - e,
    {
        if honor.per_region[e].overlay_id == wanted.region {
            if let Some(f) = found {
                proof {
                    assert forall|x: int| !#[trigger] honor_entry_for(*plan, x, wanted) by {
                        if honor_entry_for(*plan, x, wanted) {
                            assert(honor.per_region@[f as int].overlay_id == wanted.region);
                            assert(honor.per_region@[e as int].overlay_id == wanted.region);
                        }
                    }
                }
                return false;
            }
            found = Some(e);
        }
        e = e + 1;
    }
    let index = match found {
        None => {
            proof {
                assert forall|x: int| !#[trigger] honor_entry_for(*plan, x, wanted) by {
                    if honor_entry_for(*plan, x, wanted) {
                        assert(honor.per_region@[x].overlay_id == wanted.region);
                    }
                }
            }
            return false;
        },
        Some(index) => index,
    };
    let entry = honor.per_region[index];
    if entry.bytes != wanted.bytes || entry.byte_range.len != wanted.bytes {
        proof {
            assert forall|x: int| !#[trigger] honor_entry_for(*plan, x, wanted) by {
                if honor_entry_for(*plan, x, wanted) {
                    assert(honor.per_region@[x].overlay_id == wanted.region);
                    assert(x == index as int);
                }
            }
        }
        return false;
    }
    let wanted_arena = NamedArena::WramOverlayRegion { overlay: wanted.region };
    let mut a: usize = 0;
    while a < plan.wram_arenas.len()
        invariant
            a <= plan.wram_arenas@.len(),
            forall|b: int|
                0 <= b < a ==> !((#[trigger] plan.wram_arenas@[b]).id == entry.arena_id
                    && plan.wram_arenas@[b].named == wanted_arena
                    && plan.wram_arenas@[b].byte_range == entry.byte_range),
        decreases plan.wram_arenas@.len() - a,
    {
        let arena = &plan.wram_arenas[a];
        if arena.id == entry.arena_id && arena.named == wanted_arena && arena.byte_range
            == entry.byte_range {
            assert(honor_entry_for(*plan, index as int, wanted));
            return true;
        }
        a = a + 1;
    }
    proof {
        assert forall|x: int| !#[trigger] honor_entry_for(*plan, x, wanted) by {
            if honor_entry_for(*plan, x, wanted) {
                assert(honor.per_region@[x].overlay_id == wanted.region);
                assert(x == index as int);
            }
        }
    }
    false
}

fn check_overlay_reservation_honored(input: &ArenaPlanInputs, plan: &ArenaPlan) -> (ok: bool)
    ensures
        ok == overlay_reservation_honored(*input, *plan),
{
    let reservation = &input.overlay_plan.reservation;
    let honor = &plan.overlay_reservation;
    if honor.total_bytes != reservation.total_bytes || honor.expected_total_bytes
        != reservation.total_bytes || honor.per_region.len() != reservation.per_region.len() {
        return false;
    }
    let mut r: usize = 0;
    while r < reservation.per_region.len()
        invariant
            r <= reservation.per_region@.len(),
            reservation == &input.overlay_plan.reservation,
            forall|q: int|
                0 <= q < r ==> region_honored(*plan, #[trigger] reservation.per_region@[q]),
        decreases reservation.per_region@.len() - r,
    {
        if !check_region_honored(plan, reservation.per_region[r]) {
            return false;
        }
        r = r + 1;
    }
    true
}

fn is_overlay_arena_exec(named: NamedArena) -> (overlay: bool)
    ensures
        overlay == is_overlay_arena(named),
{
    match named {
        NamedArena::WramOverlayRegion { .. } => true,
        _ => false,
    }
}

fn check_overlay_disjoint(plan: &ArenaPlan) -> (ok: bool)
    ensures
        ok == overlay_disjoint(*plan),
{
    let wram = &plan.wram_arenas;
    let mut i: usize = 0;
    while i < wram.len()
        invariant
            wram == &plan.wram_arenas,
            i <= wram@.len(),
            forall|x: int, y: int|
                0 <= x < i && 0 <= y < wram@.len() && is_overlay_arena((#[trigger] wram@[x]).named)
                    && !is_overlay_arena((#[trigger] wram@[y]).named)
                    ==> !wram@[x].byte_range.spec_intersects(wram@[y].byte_range),
        decreases wram@.len() - i,
    {
        if is_overlay_arena_exec(wram[i].named) {
            let mut j: usize = 0;
            while j < wram.len()
                invariant
                    wram == &plan.wram_arenas,
                    i < wram@.len(),
                    j <= wram@.len(),
                    is_overlay_arena(wram@[i as int].named),
                    forall|x: int, y: int|
                        0 <= x < i && 0 <= y < wram@.len() && is_overlay_arena((#[trigger] wram@[x]).named)
                            && !is_overlay_arena((#[trigger] wram@[y]).named)
                            ==> !wram@[x].byte_range.spec_intersects(wram@[y].byte_range),
                    forall|y: int|
                        0 <= y < j && !is_overlay_arena((#[trigger] wram@[y]).named)
                            ==> !wram@[i as int].byte_range.spec_intersects(wram@[y].byte_range),
                decreases wram@.len() - j,
            {
                if !is_overlay_arena_exec(wram[j].named) && wram[i].byte_range.intersects(
                    wram[j].byte_range,
                ) {
                    return false;
                }
                j = j + 1;
            }
        }
        i = i + 1;
    }
    true
}

fn check_region_members_at_start(arena: &ArenaInstance, region: &OverlayRegion) -> (ok: bool)
    ensures
        ok == region_members_at_start(*arena, *region),
{
    let mut m: usize = 0;
    while m < region.members.len()
        invariant
            m <= region.members@.len(),
            forall|k: int|
                0 <= k < m ==> member_at_start(*arena, *region, (#[trigger] region.members@[k]).id),
        decreases region.members@.len() - m,
    {
        let member_id = &region.members[m].id;
        let mut s: usize = 0;
        let mut hit = false;
        while s < arena.slots.len() && !hit
            invariant
                s <= arena.slots@.len(),
                hit ==> member_at_start(*arena, *region, *member_id),
                !hit ==> forall|t: int| 0 <= t < s ==> !slot_at_start(#[trigger] arena.slots@[t], *region, *member_id),
            decreases arena.slots@.len() - s,
        {
            let slot = &arena.slots[s];
            let kind_ok = match &slot.binding_kind {
                SlotBindingKind::OverlayMember { overlay, member } => *overlay == region.id
                    && member.same_as(member_id),
                _ => false,
            };
            if kind_ok && slot.byte_offset == 0 && slot.size_bytes <= region.bytes {
                assert(arena.slots@[s as int] == *slot);
                hit = true;
            }
            s = s + 1;
        }
        if !hit {
            return false;
        }
        m = m + 1;
    }
    true
}

fn check_overlay_member_start(input: &ArenaPlanInputs, plan: &ArenaPlan) -> (ok: bool)
    ensures
        ok == overlay_member_start(*input, *plan),
{
    let regions = &input.overlay_plan.regions;
    let wram = &plan.wram_arenas;
    let mut r: usize = 0;
    while r < regions.len()
        invariant
            regions == &input.overlay_plan.regions,
            wram == &plan.wram_arenas,
            r <= regions@.len(),
            forall|q: int| 0 <= q < r ==> region_has_start_arena(*plan, #[trigger] regions@[q]),
        decreases regions@.len() - r,
    {
        let region = &regions[r];
        let wanted = NamedArena::WramOverlayRegion { overlay: region.id };
        let mut a: usize = 0;
        while a < wram.len() && wram[a].named != wanted
            invariant
                wram == &plan.wram_arenas,
                a <= wram@.len(),
                forall|p: int| 0 <= p < a ==> (#[trigger] wram@[p]).named != wanted,
            decreases wram@.len() - a,
        {
            a = a + 1;
        }
        if a == wram.len() {
            assert(!region_has_start_arena(*plan, regions@[r as int]));
            return false;
        }
        assert(first_named_arena(wram@, wanted, a as int));
        if !check_region_members_at_start(&wram[a], region) {
            assert(!region_has_start_arena(*plan, regions@[r as int])) by {
                assert forall|b: int| #[trigger] first_named_arena(wram@, wanted, b) implies b == a as int by {
                    if b < a as int {
                        assert(wram@[b].named != wanted);
                    } else if b > a as int {
                        assert(wram@[a as int].named != wanted);
                    }
                }
            }
            return false;
        }
        r = r + 1;
    }
    true
}

fn check_sram_no_span(input: &ArenaPlanInputs, plan: &ArenaPlan) -> (ok: bool)
    ensures
        ok == sram_no_span(*input, *plan),
{
    let window = input.target_profile.sram_window_bytes;
    let sram = &plan.sram_arenas;
    let mut a: usize = 0;
    while a < sram.len()
        invariant
            sram == &plan.sram_arenas,
            window == input.target_profile.sram_window_bytes,
            a <= sram@.len(),
            forall|x: int, y: int|
                0 <= x < a && 0 <= y < sram@[x].slots@.len() ==> {
                    let slot = #[trigger] sram@[x].slots@[y];
                    window != 0 && (slot.byte_offset as int % window as int) + slot.size_bytes <= window
                },
        decreases sram@.len() - a,
    {
        let slots = &sram[a].slots;
        let mut s: usize = 0;
        while s < slots.len()
            invariant
                sram == &plan.sram_arenas,
                a < sram@.len(),
                slots == &sram@[a as int].slots,
                window == input.target_profile.sram_window_bytes,
                s <= slots@.len(),
                forall|x: int, y: int|
                    0 <= x < a && 0 <= y < sram@[x].slots@.len() ==> {
                        let slot = #[trigger] sram@[x].slots@[y];
                        window != 0 && (slot.byte_offset as int % window as int) + slot.size_bytes
                            <= window
                    },
                forall|y: int|
                    0 <= y < s ==> {
                        let slot = #[trigger] slots@[y];
                        window != 0 && (slot.byte_offset as int % window as int) + slot.size_bytes
                            <= window
                    },
            decreases slots@.len() - s,
        {
            if window == 0 {
                return false;
            }
            let start_in_window = slots[s].byte_offset as u32 % window;
            if start_in_window as u64 + slots[s].size_bytes as u64 > window as u64 {
                return false;
            }
            s = s + 1;
        }
        a = a + 1;
    }
    true
}

fn check_hram_bound(input: &ArenaPlanInputs, plan: &ArenaPlan) -> (ok: bool)
    ensures
        ok == hram_bound(*input, *plan),
{
    let mut a: usize = 0;
    while a < plan.hram_assignments.len()
        invariant
            a <= plan.hram_assignments@.len(),
            forall|x: int|
                0 <= x < a ==> (#[trigger] plan.hram_assignments@[x]).byte_range.spec_end()
                    <= input.target_profile.hram_usable_bytes,
        decreases plan.hram_assignments@.len() - a,
    {
        if plan.hram_assignments[a].byte_range.end() > input.target_profile.hram_usable_bytes {
            return false;
        }
        a = a + 1;
    }
    true
}

fn check_continuation_sized(input: &ArenaPlanInputs, plan: &ArenaPlan) -> (ok: bool)
    ensures
        ok == continuation_sized(*input, *plan),
{
    let mut session = false;
    let mut i: usize = 0;
    while i < input.storage_bindings.len()
        invariant
            i <= input.storage_bindings@.len(),
            session == exists|k: int|
                0 <= k < i && is_session_hot(#[trigger] input.storage_bindings@[k]),
        decreases input.storage_bindings@.len() - i,
    {
        if input.storage_bindings[i].binding.materialization == (Materialization::Materialize {
            class: StorageClass::WramHot,
            lifetime: LifetimeClass::Session,
        }) {
            session = true;
        }
        i = i + 1;
    }
    let wram = &plan.wram_arenas;
    let mut count: usize = 0;
    let mut first: usize = 0;
    let mut second: usize = 0;
    let mut a: usize = 0;
    while a < wram.len()
        invariant
            wram == &plan.wram_arenas,
            a <= wram@.len(),
            count <= a,
            count == 0 ==> forall|k: int|
                0 <= k < a ==> (#[trigger] wram@[k]).named != NamedArena::WramContinuationRecord,
            count >= 1 ==> first < a && wram@[first as int].named
                == NamedArena::WramContinuationRecord,
            count == 1 ==> forall|k: int|
                0 <= k < a && (#[trigger] wram@[k]).named == NamedArena::WramContinuationRecord
                    ==> k == first,
            count >= 2 ==> second < a && second != first && wram@[second as int].named
                == NamedArena::WramContinuationRecord,
        decreases wram@.len() - a,
    {
        if wram[a].named == NamedArena::WramContinuationRecord {
            if count == 0 {
                first = a;
            } else if count == 1 {
                second = a;
            }
            if count < 2 {
                count = count + 1;
            }
        }
        a = a + 1;
    }
    if !session {
        return count == 0;
    }
    if count != 1 {
        proof {
            if count >= 2 {
                assert forall|x: int|
                    0 <= x < wram@.len() && (#[trigger] wram@[x]).named == NamedArena::WramContinuationRecord
                    implies !(forall|b: int|
                    0 <= b < wram@.len() && (#[trigger] wram@[b]).named == NamedArena::WramContinuationRecord
                        ==> b == x) by {
                    if x == first as int {
                        assert(wram@[second as int].named == NamedArena::WramContinuationRecord);
                    } else {
                        assert(wram@[first as int].named == NamedArena::WramContinuationRecord);
                    }
                }
            }
        }
        return false;
    }
    let arena = &wram[first];
    if arena.byte_range.len == 0 || arena.slots.len() == 0 {
        return false;
    }
    let mut s: usize = 0;
    while s < arena.slots.len()
        invariant
            s <= arena.slots@.len(),
            session,
            exists|k: int| 0 <= k < input.storage_bindings@.len() && is_session_hot(#[trigger] input.storage_bindings@[k]),
            wram == &plan.wram_arenas,
            first < wram@.len(),
            *arena == wram@[first as int],
            forall|k: int|
                0 <= k < wram@.len() && (#[trigger] wram@[k]).named == NamedArena::WramContinuationRecord
                    ==> k == first,
            forall|k: int|
                0 <= k < s ==> (#[trigger] arena.slots@[k]).size_bytes > 0
                    && arena.slots@[k].binding_kind is MaterializedValue,
        decreases arena.slots@.len() - s,
    {
        let slot = &arena.slots[s];
        let materialized = match slot.binding_kind {
            SlotBindingKind::MaterializedValue => true,
            _ => false,
        };
        if slot.size_bytes == 0 || !materialized {
            proof {
                assert(wram@[first as int].slots@[s as int] == *slot);
                assert forall|x: int|
                    0 <= x < wram@.len() && (#[trigger] wram@[x]).named == NamedArena::WramContinuationRecord
                    implies !(forall|t: int|
                    0 <= t < wram@[x].slots@.len() ==> (#[trigger] wram@[x].slots@[t]).size_bytes > 0
                        && wram@[x].slots@[t].binding_kind is MaterializedValue) by {
                    assert(x == first as int);
                    assert(wram@[x].slots@[s as int] == *slot);
                }
            }
            return false;
        }
        s = s + 1;
    }
    true
}

fn is_harness_arena_exec(named: NamedArena) -> (harness: bool)
    ensures
        harness == is_harness_arena(named),
{
    match named {
        NamedArena::SramHarnessCommandBlock | NamedArena::SramHarnessResultBlock
        | NamedArena::SramPersistedTranscript => true,
        _ => false,
    }
}

fn is_data_arena_exec(named: NamedArena) -> (data: bool)
    ensures
        data == is_data_arena(named),
{
    match named {
        NamedArena::SramSequenceStatePages { .. } | NamedArena::SramColdSpill
        | NamedArena::SramTracePages => true,
        _ => false,
    }
}

fn check_harness_disjoint(plan: &ArenaPlan) -> (ok: bool)
    ensures
        ok == harness_disjoint(*plan),
{
    let sram = &plan.sram_arenas;
    let mut i: usize = 0;
    while i < sram.len()
        invariant
            sram == &plan.sram_arenas,
            i <= sram@.len(),
            forall|x: int, y: int|
                0 <= x < i && 0 <= y < sram@.len() && is_harness_arena((#[trigger] sram@[x]).named)
                    && is_data_arena((#[trigger] sram@[y]).named)
                    ==> !sram@[x].byte_range.spec_intersects(sram@[y].byte_range),
        decreases sram@.len() - i,
    {
        if is_harness_arena_exec(sram[i].named) {
            let mut j: usize = 0;
            while j < sram.len()
                invariant
                    sram == &plan.sram_arenas,
                    i < sram@.len(),
                    j <= sram@.len(),
                    is_harness_arena(sram@[i as int].named),
                    forall|x: int, y: int|
                        0 <= x < i && 0 <= y < sram@.len() && is_harness_arena((#[trigger] sram@[x]).named)
                            && is_data_arena((#[trigger] sram@[y]).named)
                            ==> !sram@[x].byte_range.spec_intersects(sram@[y].byte_range),
                    forall|y: int|
                        0 <= y < j && is_data_arena((#[trigger] sram@[y]).named)
                            ==> !sram@[i as int].byte_range.spec_intersects(sram@[y].byte_range),
                decreases sram@.len() - j,
            {
                if is_data_arena_exec(sram[j].named) && sram[i].byte_range.intersects(
                    sram[j].byte_range,
                ) {
                    return false;
                }
                j = j + 1;
            }
        }
        i = i + 1;
    }
    true
}

/// The page size of `geometry`, saturating at `u32::MAX`.
fn saturating_page_size(geometry: PersistentPageGeometry) -> (size: u32)
    ensures
        size == if page_size(geometry) > u32::MAX {
            u32::MAX as int
        } else {
            page_size(geometry)
        },
{
    geometry.payload_bytes.saturating_add(geometry.header_bytes as u32).saturating_add(
        geometry.commit_word_bytes as u32,
    )
}

fn is_persistent_kind_exec(kind: &SlotBindingKind) -> (persistent: bool)
    ensures
        persistent == is_persistent_kind(*kind),
{
    match kind {
        SlotBindingKind::PersistentPageA { .. } | SlotBindingKind::PersistentPageB { .. } => true,
        _ => false,
    }
}

fn check_persistent_page_header_aligned(input: &ArenaPlanInputs, plan: &ArenaPlan) -> (ok: bool)
    ensures
        ok == persistent_page_header_aligned(*input, *plan),
{
    let geometry = input.policy.persistent_page_geometry;
    if geometry.alignment == 0 {
        return false;
    }
    let size = saturating_page_size(geometry);
    if size == 0 || size > u16::MAX as u32 {
        return false;
    }
    let sram = &plan.sram_arenas;
    let mut a: usize = 0;
    while a < sram.len()
        invariant
            sram == &plan.sram_arenas,
            geometry == input.policy.persistent_page_geometry,
            geometry.alignment != 0,
            size == page_size(geometry),
            a <= sram@.len(),
            forall|x: int, y: int|
                0 <= x < a && 0 <= y < sram@[x].slots@.len() && is_persistent_kind(
                    (#[trigger] sram@[x].slots@[y]).binding_kind,
                ) ==> {
                    let slot = sram@[x].slots@[y];
                    &&& slot.byte_offset as int % geometry.alignment as int == 0
                    &&& slot.size_bytes == page_size(geometry)
                    &&& slot.size_bytes >= geometry.header_bytes + geometry.commit_word_bytes
                    &&& slot.byte_offset + slot.size_bytes <= sram@[x].byte_range.len
                },
        decreases sram@.len() - a,
    {
        let arena = &sram[a];
        let mut s: usize = 0;
        while s < arena.slots.len()
            invariant
                sram == &plan.sram_arenas,
                a < sram@.len(),
                arena == &sram@[a as int],
                geometry == input.policy.persistent_page_geometry,
                geometry.alignment != 0,
                size == page_size(geometry),
                s <= arena.slots@.len(),
                forall|x: int, y: int|
                    0 <= x < a && 0 <= y < sram@[x].slots@.len() && is_persistent_kind(
                        (#[trigger] sram@[x].slots@[y]).binding_kind,
                    ) ==> {
                        let slot = sram@[x].slots@[y];
                        &&& slot.byte_offset as int % geometry.alignment as int == 0
                        &&& slot.size_bytes == page_size(geometry)
                        &&& slot.size_bytes >= geometry.header_bytes + geometry.commit_word_bytes
                        &&& slot.byte_offset + slot.size_bytes <= sram@[x].byte_range.len
                    },
                forall|y: int|
                    0 <= y < s && is_persistent_kind((#[trigger] arena.slots@[y]).binding_kind)
                        ==> {
                        let slot = arena.slots@[y];
                        &&& slot.byte_offset as int % geometry.alignment as int == 0
                        &&& slot.size_bytes == page_size(geometry)
                        &&& slot.size_bytes >= geometry.header_bytes + geometry.commit_word_bytes
                        &&& slot.byte_offset + slot.size_bytes <= arena.byte_range.len
                    },
            decreases arena.slots@.len() - s,
        {
            let slot = &arena.slots[s];
            if is_persistent_kind_exec(&slot.binding_kind) {
                let offset = slot.byte_offset as u32;
                let bytes = slot.size_bytes as u32;
                if offset % geometry.alignment as u32 != 0 || bytes != size || bytes
                    < geometry.header_bytes as u32 + geometry.commit_word_bytes as u32 || offset
                    + bytes > arena.byte_range.len as u32 {
                    return false;
                }
            }
            s = s + 1;
        }
        a = a + 1;
    }
    true
}

fn binding_ref_resolves_exec(input: &ArenaPlanInputs, reference: &SlotBindingRef) -> (resolves: bool)
    ensures
        resolves == binding_ref_resolves(*input, *reference),
{
    match reference {
        SlotBindingRef::Value { value } => {
            if materialized_value_exec(input, *value) {
                return true;
            }
            let bindings = &input.sram_page_plan.bindings;
            let mut b: usize = 0;
            while b < bindings.len()
                invariant
                    b <= bindings@.len(),
                    bindings == &input.sram_page_plan.bindings,
                    *reference == (SlotBindingRef::Value { value: *value }),
                    !is_materialized_value(*input, *value),
                    forall|p: int| 0 <= p < b ==> (#[trigger] bindings@[p]).binding_id != *value,
                decreases bindings@.len() - b,
            {
                if bindings[b].binding_id == *value {
                    assert(bindings@[b as int].binding_id == *value);
                    return true;
                }
                b = b + 1;
            }
            false
        },
        SlotBindingRef::PersistPage { value, .. } => persisted_value_exec(input, *value),
        SlotBindingRef::OverlayMember { overlay, .. } => {
            let regions = &input.overlay_plan.regions;
            let mut r: usize = 0;
            while r < regions.len()
                invariant
                    r <= regions@.len(),
                    regions == &input.overlay_plan.regions,
                    (*reference matches SlotBindingRef::OverlayMember { overlay: o, .. } && o == *overlay),
                    forall|p: int| 0 <= p < r ==> (#[trigger] regions@[p]).id != *overlay,
                decreases regions@.len() - r,
            {
                if regions[r].id == *overlay {
                    assert(regions@[r as int].id == *overlay);
                    return true;
                }
                r = r + 1;
            }
            false
        },
        SlotBindingRef::RuntimeFixed { .. } => true,
        SlotBindingRef::TraceRing { .. } => true,
    }
}

fn check_binding_refs_resolve(input: &ArenaPlanInputs, slots: &Vec<(ArenaId, ArenaSlot)>) -> (ok: bool)
    ensures
        ok == forall|k: int|
            0 <= k < slots@.len() ==> binding_ref_resolves(*input, (#[trigger] slots@[k]).1.binding_ref),
{
    let mut k: usize = 0;
    while k < slots.len()
        invariant
            k <= slots@.len(),
            forall|q: int|
                0 <= q < k ==> binding_ref_resolves(*input, (#[trigger] slots@[q]).1.binding_ref),
        decreases slots@.len() - k,
    {
        if !binding_ref_resolves_exec(input, &slots[k].1.binding_ref) {
            return false;
        }
        k = k + 1;
    }
    true
}

/// The verdict on each of the fourteen address invariants of `plan`.
pub open spec fn spec_address_invariants(input: ArenaPlanInputs, plan: ArenaPlan) -> ArenaAddressInvariants {
    ArenaAddressInvariants {
        f_addr_1_materialize_coverage: materialize_coverage(input, plan),
        f_addr_2_persist_coverage: persist_coverage(input, plan),
        f_addr_3_alias_total_or_disjoint: alias_total_or_disjoint(plan),
        f_addr_4_lifetime_preservation: lifetime_preserved(input, plan),
        f_addr_5_overlay_byte_equality: overlay_reservation_honored(input, plan),
        f_addr_6_overlay_disjointness: overlay_disjoint(plan),
        f_addr_7_overlay_member_start_of_region: overlay_member_start(input, plan),
        f_addr_8_sram_no_span: sram_no_span(input, plan),
        f_addr_9_hram_page_bound: hram_bound(input, plan),
        f_addr_10_continuation_sized: continuation_sized(input, plan),
        f_addr_11_harness_disjoint: harness_disjoint(plan),
        f_addr_12_persistent_page_header_aligned: persistent_page_header_aligned(input, plan),
        f_addr_13_slot_id_unique: slot_ids_unique(plan),
        f_addr_14_binding_ref_resolves: binding_refs_resolve(input, plan),
    }
}

/// Evaluates the fourteen address invariants of `plan`; they all pass
/// exactly when the invariants hold.
pub fn validate_address_invariants(input: &ArenaPlanInputs, plan: &ArenaPlan) -> (invariants: ArenaAddressInvariants)
    ensures
        invariants == spec_address_invariants(*input, *plan),
        invariants.spec_all_pass() <==> address_invariants_hold(*input, *plan),
{
    let slots = all_slots_with_arena(plan);
    ArenaAddressInvariants {
        f_addr_1_materialize_coverage: check_materialize_coverage(input, plan),
        f_addr_2_persist_coverage: check_persist_coverage(input, plan),
        f_addr_3_alias_total_or_disjoint: check_alias_total_or_disjoint(&slots),
        f_addr_4_lifetime_preservation: check_lifetime_preserved(input, plan, &slots),
        f_addr_5_overlay_byte_equality: check_overlay_reservation_honored(input, plan),
        f_addr_6_overlay_disjointness: check_overlay_disjoint(plan),
        f_addr_7_overlay_member_start_of_region: check_overlay_member_start(input, plan),
        f_addr_8_sram_no_span: check_sram_no_span(input, plan),
        f_addr_9_hram_page_bound: check_hram_bound(input, plan),
        f_addr_10_continuation_sized: check_continuation_sized(input, plan),
        f_addr_11_harness_disjoint: check_harness_disjoint(plan),
        f_addr_12_persistent_page_header_aligned: check_persistent_page_header_aligned(input, plan),
        f_addr_13_slot_id_unique: check_slot_ids_unique(&slots),
        f_addr_14_binding_ref_resolves: check_binding_refs_resolve(input, &slots),
    }
}

} // verus!
