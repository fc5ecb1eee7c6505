//! Stage 8.5: the WRAM overlay plan. Every kernel and lookup table that the
//! ROM window plan demands as a WRAM overlay shares one region, sized for the
//! largest member.

use vstd::prelude::*;
use vstd::multiset::Multiset;
use crate::ids::{
    DeterminismClass, Hash256, KernelSpecId, LutInstanceId, SemVer, TargetProfileId,
};
use crate::policy::RuntimeChromeBudget;
use crate::text::{bytes_contain, bytes_lt, str_contains, string_lt, utf8};

verus! {

broadcast use vstd::seq_lib::group_to_multiset_ensures;

#[derive(Clone, Copy, Debug, PartialEq, Eq, Structural, Hash, PartialOrd, Ord)]
pub struct OverlayId(pub u32);

#[derive(Clone, Copy, Debug, PartialEq, Eq, Structural, Hash, PartialOrd, Ord)]
pub struct OverlayShareClassId(pub u32);

#[derive(Clone, Copy, Debug, PartialEq, Eq, Structural, Hash, PartialOrd, Ord)]
pub struct OverlayInstallId(pub u32);

/// A kernel or lookup table that may be installed into a WRAM overlay.
#[derive(Clone, Debug, PartialEq, Eq, Hash, PartialOrd, Ord)]
pub enum OverlayResidentId {
    Kernel { kernel: KernelSpecId },
    Lut { lut: LutInstanceId },
}

impl OverlayResidentId {
    /// Kernels order before lookup tables.
    pub open spec fn kind_rank(&self) -> int {
        match self {
            OverlayResidentId::Kernel { .. } => 0,
            OverlayResidentId::Lut { .. } => 1,
        }
    }

    /// The characters of the identifier.
    pub open spec fn name(&self) -> Seq<char> {
        match self {
            OverlayResidentId::Kernel { kernel } => kernel.0@,
            OverlayResidentId::Lut { lut } => lut.0@,
        }
    }

    /// The two identifiers are the same resident.
    pub open spec fn same(&self, other: &OverlayResidentId) -> bool {
        self.kind_rank() == other.kind_rank() && self.name() == other.name()
    }

    /// `self` orders strictly before `other`, as the derived order does.
    pub open spec fn before(&self, other: &OverlayResidentId) -> bool {
        self.kind_rank() < other.kind_rank() || (self.kind_rank() == other.kind_rank()
            && bytes_lt(utf8(self.name()), utf8(other.name())))
    }

    fn name_ref(&self) -> (name: &String)
        ensures
            name@ == self.name(),
    {
        match self {
            OverlayResidentId::Kernel { kernel } => &kernel.0,
            OverlayResidentId::Lut { lut } => &lut.0,
        }
    }

    fn kind_rank_exec(&self) -> (rank: u8)
        ensures
            rank == self.kind_rank(),
    {
        match self {
            OverlayResidentId::Kernel { .. } => 0,
            OverlayResidentId::Lut { .. } => 1,
        }
    }

    /// A copy of this identifier.
    pub fn duplicate(&self) -> (copy: OverlayResidentId)
        ensures
            copy == *self,
    {
        match self {
            OverlayResidentId::Kernel { kernel } => OverlayResidentId::Kernel {
                kernel: KernelSpecId(kernel.0.clone()),
            },
            OverlayResidentId::Lut { lut } => OverlayResidentId::Lut {
                lut: LutInstanceId(lut.0.clone()),
            },
        }
    }

    /// Whether the two identifiers name the same resident.
    pub fn same_as(&self, other: &OverlayResidentId) -> (same: bool)
        ensures
            same == self.same(other),
    {
        self.kind_rank_exec() == other.kind_rank_exec() && *self.name_ref()
            == *other.name_ref()
    }

    /// Whether `self` orders strictly before `other`.
    pub fn is_before(&self, other: &OverlayResidentId) -> (before: bool)
        ensures
            before == self.before(other),
    {
        let left = self.kind_rank_exec();
        let right = other.kind_rank_exec();
        if left != right {
            left < right
        } else {
            string_lt(self.name_ref(), other.name_ref())
        }
    }
}

/// "Not after": the order that sorted member lists follow.
pub open spec fn resident_le(a: &OverlayResidentId, b: &OverlayResidentId) -> bool {
    !b.before(a)
}

proof fn lemma_resident_le_transitive(a: &OverlayResidentId, b: &OverlayResidentId, c: &OverlayResidentId)
    requires
        resident_le(a, b),
        resident_le(b, c),
    ensures
        resident_le(a, c),
{
    let ua = utf8(a.name());
    let ub = utf8(b.name());
    let uc = utf8(c.name());
    if a.kind_rank() == b.kind_rank() && b.kind_rank() == c.kind_rank() {
        if bytes_lt(uc, ua) {
            if bytes_lt(ub, ua) {
            } else if bytes_lt(ua, ub) {
                crate::text::lemma_bytes_lt_transitive(uc, ua, ub);
                if bytes_lt(uc, ub) {
                }
            } else {
                crate::text::lemma_bytes_lt_total(ua, ub);
            }
        }
    }
}

/// Where an overlay member is loaded from.
#[derive(Clone, Debug, PartialEq, Eq, Hash, PartialOrd, Ord)]
pub enum OverlaySource {
    RomWindowOverlayDemand { resident: OverlayResidentId },
}

impl OverlaySource {
    pub fn duplicate(&self) -> (copy: OverlaySource)
        ensures
            copy == *self,
    {
        match self {
            OverlaySource::RomWindowOverlayDemand { resident } => {
                OverlaySource::RomWindowOverlayDemand { resident: resident.duplicate() }
            },
        }
    }
}

/// How hot the code path that reaches a ROM resident is.
#[derive(Clone, Copy, Debug, PartialEq, Eq, Structural, Hash, PartialOrd, Ord)]
pub enum RomReachabilityClass {
    HotPath,
}

/// A member of an overlay region.
#[derive(Clone, Debug, PartialEq, Eq)]
pub struct OverlayResident {
    pub id: OverlayResidentId,
    pub payload_bytes: u32,
    pub reachability: RomReachabilityClass,
    pub source: OverlaySource,
}

impl OverlayResident {
    pub fn duplicate(&self) -> (copy: OverlayResident)
        ensures
            copy == *self,
    {
        OverlayResident {
            id: self.id.duplicate(),
            payload_bytes: self.payload_bytes,
            reachability: self.reachability,
            source: self.source.duplicate(),
        }
    }
}

#[derive(Clone, Copy, Debug, PartialEq, Eq, Structural, Hash, PartialOrd, Ord)]
pub enum WramRegionConstraint {
    DmgWramC000Dfff,
}

#[derive(Clone, Copy, Debug, PartialEq, Eq, Structural, Hash)]
pub enum OverlayReservationKind {
    WramOverlay,
}

#[derive(Clone, Copy, Debug, PartialEq, Eq, Structural, Hash)]
pub enum OverlayEvictionPolicy {
    Undefined,
    ReloadOnUse,
}

#[derive(Clone, Copy, Debug, PartialEq, Eq, Structural, Hash, PartialOrd, Ord)]
pub enum OverlayInstallEvent {
    TokenBoundary,
    ExpertSwitch,
}

/// A WRAM region shared by the overlay members installed into it.
#[derive(Clone, Debug, PartialEq, Eq)]
pub struct OverlayRegion {
    pub id: OverlayId,
    pub bytes: u16,
    pub constraint: WramRegionConstraint,
    pub members: Vec<OverlayResident>,
    pub reservation_kind: OverlayReservationKind,
    pub reservation_floor_bytes: u16,
    pub reservation_ceil_bytes: u16,
}

#[derive(Clone, Debug, PartialEq, Eq)]
pub struct OverlayShareClass {
    pub id: OverlayShareClassId,
    pub region: OverlayId,
    pub members: Vec<OverlayResidentId>,
    pub eviction: OverlayEvictionPolicy,
}

#[derive(Clone, Debug, PartialEq, Eq)]
pub struct OverlayInstall {
    pub id: OverlayInstallId,
    pub region: OverlayId,
    pub member: OverlayResidentId,
    pub source: OverlaySource,
    pub install_event: OverlayInstallEvent,
    pub lease_shape: OverlayLeaseShape,
}

#[derive(Clone, Debug, PartialEq, Eq)]
pub struct OverlayLeaseShape {
    pub source_lease: OverlaySourceLease,
    pub wram_region_lease: OverlayWramRegionLease,
}

#[derive(Clone, Debug, PartialEq, Eq)]
pub struct OverlaySourceLease {
    pub source: OverlaySource,
    pub acquire_at: OverlayInstallEvent,
    pub release_at: OverlayInstallEvent,
}

#[derive(Clone, Copy, Debug, PartialEq, Eq, Structural)]
pub struct OverlayWramRegionLease {
    pub region: OverlayId,
    pub acquire_at: OverlayInstallEvent,
    pub release_at: OverlayInstallEvent,
}

/// The WRAM reserved for overlays: the sum of all regions.
#[derive(Clone, Debug, PartialEq, Eq)]
pub struct OverlayReservation {
    pub total_bytes: u16,
    pub per_region: Vec<OverlayReservationEntry>,
    pub cap_bytes: u16,
    pub region_max_bytes: u16,
}

#[derive(Clone, Copy, Debug, PartialEq, Eq, Structural)]
pub struct OverlayReservationEntry {
    pub region: OverlayId,
    pub bytes: u16,
    pub reservation_kind: OverlayReservationKind,
}

/// The hashes of the products this stage reads, as recorded.
#[derive(Clone, Debug, PartialEq, Eq)]
pub struct OverlayPlanInputIdentity {
    pub storage_plan_self_hash: Hash256,
    pub sram_page_plan_self_hash: Hash256,
    pub rom_window_plan_self_hash: Hash256,
    pub runtime_chrome_budget_hash: Hash256,
    pub target_profile_hash: Hash256,
    pub overlay_plan_policy_projection_hash: Hash256,
    pub determinism: DeterminismClass,
    pub target_profile_id: TargetProfileId,
    pub schema_version: SemVer,
}

#[derive(Clone, Copy, Debug, PartialEq, Eq, Structural)]
pub struct OverlayPlanInputHashes {
    pub storage_plan_self_hash: Hash256,
    pub sram_page_plan_self_hash: Hash256,
    pub rom_window_plan_self_hash: Hash256,
    pub runtime_chrome_budget_hash: Hash256,
    pub target_profile_hash: Hash256,
    pub overlay_plan_policy_projection_hash: Hash256,
}

impl OverlayPlanInputIdentity {
    pub fn duplicate(&self) -> (copy: OverlayPlanInputIdentity)
        ensures
            copy == *self,
    {
        OverlayPlanInputIdentity {
            storage_plan_self_hash: self.storage_plan_self_hash,
            sram_page_plan_self_hash: self.sram_page_plan_self_hash,
            rom_window_plan_self_hash: self.rom_window_plan_self_hash,
            runtime_chrome_budget_hash: self.runtime_chrome_budget_hash,
            target_profile_hash: self.target_profile_hash,
            overlay_plan_policy_projection_hash: self.overlay_plan_policy_projection_hash,
            determinism: self.determinism,
            target_profile_id: self.target_profile_id.duplicate(),
            schema_version: self.schema_version,
        }
    }

    pub open spec fn spec_hashes(&self) -> OverlayPlanInputHashes {
        OverlayPlanInputHashes {
            storage_plan_self_hash: self.storage_plan_self_hash,
            sram_page_plan_self_hash: self.sram_page_plan_self_hash,
            rom_window_plan_self_hash: self.rom_window_plan_self_hash,
            runtime_chrome_budget_hash: self.runtime_chrome_budget_hash,
            target_profile_hash: self.target_profile_hash,
            overlay_plan_policy_projection_hash: self.overlay_plan_policy_projection_hash,
        }
    }

    pub fn hashes(&self) -> (hashes: OverlayPlanInputHashes)
        ensures
            hashes == self.spec_hashes(),
    {
        OverlayPlanInputHashes {
            storage_plan_self_hash: self.storage_plan_self_hash,
            sram_page_plan_self_hash: self.sram_page_plan_self_hash,
            rom_window_plan_self_hash: self.rom_window_plan_self_hash,
            runtime_chrome_budget_hash: self.runtime_chrome_budget_hash,
            target_profile_hash: self.target_profile_hash,
            overlay_plan_policy_projection_hash: self.overlay_plan_policy_projection_hash,
        }
    }

    pub fn hash_for_product(&self, product: OverlayPlanInputProduct) -> (hash: Hash256)
        ensures
            hash == self.spec_hashes().spec_hash_for_product(product),
    {
        self.hashes().hash_for_product(product)
    }
}

impl OverlayPlanInputHashes {
    pub open spec fn spec_hash_for_product(&self, product: OverlayPlanInputProduct) -> Hash256 {
        match product {
            OverlayPlanInputProduct::StoragePlan => self.storage_plan_self_hash,
            OverlayPlanInputProduct::SramPagePlan => self.sram_page_plan_self_hash,
            OverlayPlanInputProduct::RomWindowPlan => self.rom_window_plan_self_hash,
            OverlayPlanInputProduct::RuntimeChromeBudget => self.runtime_chrome_budget_hash,
            OverlayPlanInputProduct::TargetProfile => self.target_profile_hash,
            OverlayPlanInputProduct::PolicyProjection => self.overlay_plan_policy_projection_hash,
        }
    }

    pub fn hash_for_product(&self, product: OverlayPlanInputProduct) -> (hash: Hash256)
        ensures
            hash == self.spec_hash_for_product(product),
    {
        match product {
            OverlayPlanInputProduct::StoragePlan => self.storage_plan_self_hash,
            OverlayPlanInputProduct::SramPagePlan => self.sram_page_plan_self_hash,
            OverlayPlanInputProduct::RomWindowPlan => self.rom_window_plan_self_hash,
            OverlayPlanInputProduct::RuntimeChromeBudget => self.runtime_chrome_budget_hash,
            OverlayPlanInputProduct::TargetProfile => self.target_profile_hash,
            OverlayPlanInputProduct::PolicyProjection => self.overlay_plan_policy_projection_hash,
        }
    }
}

/// An input product of this stage, named by its hash field.
#[derive(Clone, Copy, Debug, PartialEq, Eq, Structural)]
pub enum OverlayPlanInputProduct {
    StoragePlan,
    SramPagePlan,
    RomWindowPlan,
    RuntimeChromeBudget,
    TargetProfile,
    PolicyProjection,
}

impl OverlayPlanInputProduct {
    /// The name of the hash field that records this product.
    pub fn field_name(self) -> (name: &'static str)
        ensures
            name@ == overlay_product_field_name(self),
    {
        proof {
            reveal_strlit("storage_plan_self_hash");
            reveal_strlit("sram_page_plan_self_hash");
            reveal_strlit("rom_window_plan_self_hash");
            reveal_strlit("runtime_chrome_budget_hash");
            reveal_strlit("target_profile_hash");
            reveal_strlit("overlay_plan_policy_projection_hash");
        }
        match self {
            OverlayPlanInputProduct::StoragePlan => "storage_plan_self_hash",
            OverlayPlanInputProduct::SramPagePlan => "sram_page_plan_self_hash",
            OverlayPlanInputProduct::RomWindowPlan => "rom_window_plan_self_hash",
            OverlayPlanInputProduct::RuntimeChromeBudget => "runtime_chrome_budget_hash",
            OverlayPlanInputProduct::TargetProfile => "target_profile_hash",
            OverlayPlanInputProduct::PolicyProjection => "overlay_plan_policy_projection_hash",
        }
    }
}

/// The hash field name of each product.
pub open spec fn overlay_product_field_name(product: OverlayPlanInputProduct) -> Seq<char> {
    match product {
        OverlayPlanInputProduct::StoragePlan => "storage_plan_self_hash"@,
        OverlayPlanInputProduct::SramPagePlan => "sram_page_plan_self_hash"@,
        OverlayPlanInputProduct::RomWindowPlan => "rom_window_plan_self_hash"@,
        OverlayPlanInputProduct::RuntimeChromeBudget => "runtime_chrome_budget_hash"@,
        OverlayPlanInputProduct::TargetProfile => "target_profile_hash"@,
        OverlayPlanInputProduct::PolicyProjection => "overlay_plan_policy_projection_hash"@,
    }
}

/// The products in the order their hashes are checked.
pub open spec fn overlay_input_products() -> Seq<OverlayPlanInputProduct> {
    seq![
        OverlayPlanInputProduct::StoragePlan,
        OverlayPlanInputProduct::SramPagePlan,
        OverlayPlanInputProduct::RomWindowPlan,
        OverlayPlanInputProduct::RuntimeChromeBudget,
        OverlayPlanInputProduct::TargetProfile,
        OverlayPlanInputProduct::PolicyProjection,
    ]
}

fn overlay_input_products_exec() -> (products: Vec<OverlayPlanInputProduct>)
    ensures
        products@ == overlay_input_products(),
{
    let products = vec![
        OverlayPlanInputProduct::StoragePlan,
        OverlayPlanInputProduct::SramPagePlan,
        OverlayPlanInputProduct::RomWindowPlan,
        OverlayPlanInputProduct::RuntimeChromeBudget,
        OverlayPlanInputProduct::TargetProfile,
        OverlayPlanInputProduct::PolicyProjection,
    ];
    assert(products@ =~= overlay_input_products());
    products
}

#[derive(Clone, Copy, Debug, PartialEq, Eq, Structural, Hash, PartialOrd, Ord)]
pub enum RuntimeMode {
    Interactive,
    Steady,
}

/// The part of the resolved policy that this stage reads.
#[derive(Clone, Debug, PartialEq, Eq)]
pub struct OverlayPlanPolicyProjection {
    pub overlay_eviction_default: OverlayEvictionPolicy,
    pub overlay_install_event_default: Option<OverlayInstallEvent>,
    /// The runtime modes requested (a set).
    pub runtime_modes_requested: Vec<RuntimeMode>,
    pub require_explicit_zero_reservation: bool,
}

/// The part of the target profile that this stage reads.
#[derive(Clone, Debug, PartialEq, Eq)]
pub struct OverlayTargetProfileSummary {
    /// The region constraints the target allows (a set).
    pub allowed_overlay_constraints: Vec<WramRegionConstraint>,
    pub default_overlay_constraint: WramRegionConstraint,
    pub wram_overlay_region_max_bytes: u16,
}

#[derive(Clone, Copy, Debug, PartialEq, Eq, Structural)]
pub struct OverlayPlanAuditParents {
    pub policy_resolution_self_hash: Hash256,
    pub artifact_validation_self_hash: Hash256,
    pub compile_request_hash: Hash256,
}

/// A kernel that the ROM window plan wants installed as a WRAM overlay.
#[derive(Clone, Debug, PartialEq, Eq)]
pub struct WramOverlayKernelDemand {
    pub kernel: KernelSpecId,
    pub byte_size: u32,
    pub reachability: RomReachabilityClass,
}

/// A lookup table that the ROM window plan wants installed as a WRAM overlay.
#[derive(Clone, Debug, PartialEq, Eq)]
pub struct WramOverlayLutDemand {
    pub lut: LutInstanceId,
    pub byte_size: u32,
    pub reachability: RomReachabilityClass,
}

#[derive(Clone, Debug, PartialEq, Eq)]
pub struct WramOverlayDemand {
    pub kernels: Vec<WramOverlayKernelDemand>,
    pub luts: Vec<WramOverlayLutDemand>,
}

/// The part of the ROM window plan that this stage reads.
#[derive(Clone, Debug, PartialEq, Eq)]
pub struct RomWindowPlan {
    pub overlay_demand: WramOverlayDemand,
    pub rom_window_plan_self_hash: Hash256,
}

#[derive(Clone, Debug, PartialEq, Eq)]
pub struct OverlayPlanInputs {
    pub input_identity: OverlayPlanInputIdentity,
    pub expected_input_hashes: OverlayPlanInputHashes,
    pub audit_parents: OverlayPlanAuditParents,
    pub runtime_chrome_budget: RuntimeChromeBudget,
    pub target_profile: OverlayTargetProfileSummary,
    pub policy: OverlayPlanPolicyProjection,
    pub rom_window_plan: RomWindowPlan,
}

/// The overlay plan product.
#[derive(Clone, Debug, PartialEq, Eq)]
pub struct OverlayPlan {
    pub identity: OverlayPlanInputIdentity,
    pub regions: Vec<OverlayRegion>,
    pub share_classes: Vec<OverlayShareClass>,
    pub installs: Vec<OverlayInstall>,
    pub reservation: OverlayReservation,
    pub overlay_plan_self_hash: Hash256,
}

#[derive(Clone, Copy, Debug, PartialEq, Eq, Structural)]
pub struct OverlayPlanSummary {
    pub region_count: u16,
    pub share_class_count: u16,
    pub install_count: u16,
    pub reserved_bytes: u16,
    pub cap_bytes: u16,
}

#[derive(Clone, Debug, PartialEq, Eq)]
pub struct OverlayPlanResult {
    pub product: OverlayPlan,
    pub overlay_plan_self_hash: Hash256,
    pub summary: OverlayPlanSummary,
}

#[derive(Clone, Copy, Debug, PartialEq, Eq, Structural)]
pub enum OverlayPlanOutcome {
    Succeeded,
    Failed,
}

/// The diagnostic codes of this stage.
#[derive(Clone, Copy, Debug, PartialEq, Eq, Structural, Hash)]
pub enum OverlayPlanDiagnosticCode {
    OverlayInputHashMismatch,
    OverlayResolvedPolicyProjectionMismatch,
    OverlayTargetProfileLayoutUnsupported,
    OverlayNoCandidatesButReservationDeclared,
    OverlayInstallEventDefaultMissing,
    OverlayRegionPayloadExceedsRegionCap,
    OverlayWramOverlayCapExceeded,
    OverlayShareClassEvictionUndefined,
    OverlaySectionRoleLeaked,
    OverlaySchedulingFieldLeaked,
    OverlayRepairProvenanceForbidden,
    OverlayCanonicalSortDrift,
}

/// A policy field that a diagnostic points at.
#[derive(Clone, Copy, Debug, PartialEq, Eq, Structural, Hash)]
pub enum OverlayPolicyField {
    RuntimeModesRequested,
    OverlayInstallEventDefault,
    OverlayPlanSelfHash,
}

/// What a diagnostic of this stage points at.
#[derive(Clone, Debug, PartialEq, Eq)]
pub enum OverlayPlanDiagnosticProvenance {
    HashMismatch { product: OverlayPlanInputProduct, recorded: Hash256, computed: Hash256 },
    PolicyProjection { field: OverlayPolicyField },
    TargetProfileLayout { target_profile_hash: Hash256 },
    Reservation { total_bytes: u32, cap_bytes: u32 },
    Region { region_id: u32 },
    JsonPath { field_or_tag: String },
}

/// A hard diagnostic of overlay planning.
#[derive(Clone, Debug, PartialEq, Eq)]
pub struct OverlayPlanDiagnostic {
    pub code: OverlayPlanDiagnosticCode,
    pub provenance: OverlayPlanDiagnosticProvenance,
}

#[derive(Clone, Debug, PartialEq, Eq)]
pub struct OverlayPlanOutput {
    pub input_identity: OverlayPlanInputIdentity,
    pub audit_parents: OverlayPlanAuditParents,
    pub outcome: OverlayPlanOutcome,
    pub result: Option<OverlayPlanResult>,
    pub diagnostics: Vec<OverlayPlanDiagnostic>,
}

// ---------------------------------------------------------------- specs

/// The diagnostic for a product whose recorded hash differs from the expected one.
pub open spec fn hash_mismatch(
    product: OverlayPlanInputProduct,
    recorded: Hash256,
    computed: Hash256,
) -> OverlayPlanDiagnostic {
    OverlayPlanDiagnostic {
        code: OverlayPlanDiagnosticCode::OverlayInputHashMismatch,
        provenance: OverlayPlanDiagnosticProvenance::HashMismatch { product, recorded, computed },
    }
}

/// One diagnostic per product, in product order, whose recorded and expected
/// hashes differ.
pub open spec fn hash_mismatches(
    products: Seq<OverlayPlanInputProduct>,
    recorded: OverlayPlanInputHashes,
    expected: OverlayPlanInputHashes,
) -> Seq<OverlayPlanDiagnostic>
    decreases products.len(),
{
    if products.len() == 0 {
        Seq::empty()
    } else {
        let p = products.last();
        let earlier = hash_mismatches(products.drop_last(), recorded, expected);
        if recorded.spec_hash_for_product(p) != expected.spec_hash_for_product(p) {
            earlier.push(
                hash_mismatch(
                    p,
                    recorded.spec_hash_for_product(p),
                    expected.spec_hash_for_product(p),
                ),
            )
        } else {
            earlier
        }
    }
}

/// The overlay demand as residents: kernels first, then lookup tables.
pub open spec fn demand_residents(plan: RomWindowPlan) -> Seq<OverlayResident> {
    plan.overlay_demand.kernels@.map_values(
        |k: WramOverlayKernelDemand|
            OverlayResident {
                id: OverlayResidentId::Kernel { kernel: k.kernel },
                payload_bytes: k.byte_size,
                reachability: k.reachability,
                source: OverlaySource::RomWindowOverlayDemand {
                    resident: OverlayResidentId::Kernel { kernel: k.kernel },
                },
            },
    ) + plan.overlay_demand.luts@.map_values(
        |l: WramOverlayLutDemand|
            OverlayResident {
                id: OverlayResidentId::Lut { lut: l.lut },
                payload_bytes: l.byte_size,
                reachability: l.reachability,
                source: OverlaySource::RomWindowOverlayDemand {
                    resident: OverlayResidentId::Lut { lut: l.lut },
                },
            },
    )
}

/// Members ordered by identifier, never decreasing.
pub open spec fn members_sorted(members: Seq<OverlayResident>) -> bool {
    forall|i: int, j: int| 0 <= i < j < members.len() ==> resident_le(&members[i].id, &members[j].id)
}

/// The largest payload among `members`, or 0.
pub open spec fn max_payload(members: Seq<OverlayResident>) -> int
    decreases members.len(),
{
    if members.len() == 0 {
        0
    } else {
        let rest = max_payload(members.drop_last());
        if members.last().payload_bytes > rest {
            members.last().payload_bytes as int
        } else {
            rest
        }
    }
}

/// The checks that fail before any member is looked at, in order.
pub open spec fn preflight_failure(input: OverlayPlanInputs) -> Option<OverlayPlanDiagnostic> {
    let recorded = input.input_identity.spec_hashes();
    if hash_mismatches(overlay_input_products(), recorded, input.expected_input_hashes).len() > 0 {
        None
    } else if input.input_identity.rom_window_plan_self_hash
        != input.rom_window_plan.rom_window_plan_self_hash {
        Some(
            hash_mismatch(
                OverlayPlanInputProduct::RomWindowPlan,
                input.input_identity.rom_window_plan_self_hash,
                input.rom_window_plan.rom_window_plan_self_hash,
            ),
        )
    } else if input.policy.runtime_modes_requested@.len() == 0 {
        Some(
            OverlayPlanDiagnostic {
                code: OverlayPlanDiagnosticCode::OverlayResolvedPolicyProjectionMismatch,
                provenance: OverlayPlanDiagnosticProvenance::PolicyProjection {
                    field: OverlayPolicyField::RuntimeModesRequested,
                },
            },
        )
    } else if !input.target_profile.allowed_overlay_constraints@.contains(
        input.target_profile.default_overlay_constraint,
    ) {
        Some(
            OverlayPlanDiagnostic {
                code: OverlayPlanDiagnosticCode::OverlayTargetProfileLayoutUnsupported,
                provenance: OverlayPlanDiagnosticProvenance::TargetProfileLayout {
                    target_profile_hash: input.input_identity.target_profile_hash,
                },
            },
        )
    } else {
        None
    }
}

/// The failure that the member checks give for `members`, if any.
pub open spec fn member_failure(
    input: OverlayPlanInputs,
    members: Seq<OverlayResident>,
) -> Option<OverlayPlanDiagnostic> {
    let max = max_payload(members);
    if members.len() == 0 {
        if input.policy.require_explicit_zero_reservation && input.runtime_chrome_budget.wram_reserved
            > 0 {
            Some(
                OverlayPlanDiagnostic {
                    code: OverlayPlanDiagnosticCode::OverlayNoCandidatesButReservationDeclared,
                    provenance: OverlayPlanDiagnosticProvenance::Reservation {
                        total_bytes: 0,
                        cap_bytes: input.runtime_chrome_budget.wram_reserved as u32,
                    },
                },
            )
        } else {
            None
        }
    } else if input.policy.overlay_install_event_default is None {
        Some(
            OverlayPlanDiagnostic {
                code: OverlayPlanDiagnosticCode::OverlayInstallEventDefaultMissing,
                provenance: OverlayPlanDiagnosticProvenance::PolicyProjection {
                    field: OverlayPolicyField::OverlayInstallEventDefault,
                },
            },
        )
    } else if max > input.target_profile.wram_overlay_region_max_bytes {
        Some(
            OverlayPlanDiagnostic {
                code: OverlayPlanDiagnosticCode::OverlayRegionPayloadExceedsRegionCap,
                provenance: OverlayPlanDiagnosticProvenance::Reservation {
                    total_bytes: max as u32,
                    cap_bytes: input.target_profile.wram_overlay_region_max_bytes as u32,
                },
            },
        )
    } else if max > input.runtime_chrome_budget.wram_reserved {
        Some(
            OverlayPlanDiagnostic {
                code: OverlayPlanDiagnosticCode::OverlayWramOverlayCapExceeded,
                provenance: OverlayPlanDiagnosticProvenance::Reservation {
                    total_bytes: max as u32,
                    cap_bytes: input.runtime_chrome_budget.wram_reserved as u32,
                },
            },
        )
    } else if members.len() >= 2 && input.policy.overlay_eviction_default
        == OverlayEvictionPolicy::Undefined {
        Some(
            OverlayPlanDiagnostic {
                code: OverlayPlanDiagnosticCode::OverlayShareClassEvictionUndefined,
                provenance: OverlayPlanDiagnosticProvenance::Region { region_id: 0 },
            },
        )
    } else {
        None
    }
}

/// The ids of `members`, in order.
pub open spec fn member_ids(members: Seq<OverlayResident>) -> Seq<OverlayResidentId> {
    members.map_values(|m: OverlayResident| m.id)
}

/// `region` is the single shared region over `members`.
pub open spec fn region_matches(
    input: OverlayPlanInputs,
    region: OverlayRegion,
    members: Seq<OverlayResident>,
) -> bool {
    let bytes = max_payload(members);
    &&& region.id == OverlayId(0)
    &&& region.bytes == bytes
    &&& region.constraint == input.target_profile.default_overlay_constraint
    &&& region.members@ == members
    &&& region.reservation_kind == OverlayReservationKind::WramOverlay
    &&& region.reservation_floor_bytes == bytes
    &&& region.reservation_ceil_bytes == bytes
}

/// `install` installs `member` into region 0 on `event`, leasing both its
/// source and the region over that event.
pub open spec fn install_matches(
    install: OverlayInstall,
    index: int,
    member: OverlayResident,
    event: OverlayInstallEvent,
) -> bool {
    &&& install.id == OverlayInstallId(index as u32)
    &&& install.region == OverlayId(0)
    &&& install.member == member.id
    &&& install.source == member.source
    &&& install.install_event == event
    &&& install.lease_shape.source_lease.source == member.source
    &&& install.lease_shape.source_lease.acquire_at == event
    &&& install.lease_shape.source_lease.release_at == event
    &&& install.lease_shape.wram_region_lease == (OverlayWramRegionLease {
        region: OverlayId(0),
        acquire_at: event,
        release_at: event,
    })
}

/// The reservation over `regions`: a saturating sum and one entry per region.
pub open spec fn reservation_matches(
    reservation: OverlayReservation,
    regions: Seq<OverlayRegion>,
    cap_bytes: u16,
    region_max_bytes: u16,
) -> bool {
    &&& reservation.total_bytes == saturating_region_total(regions)
    &&& reservation.per_region@.len() == regions.len()
    &&& forall|i: int|
        0 <= i < regions.len() ==> #[trigger] reservation.per_region@[i] == (OverlayReservationEntry {
            region: regions[i].id,
            bytes: regions[i].bytes,
            reservation_kind: OverlayReservationKind::WramOverlay,
        })
    &&& reservation.cap_bytes == cap_bytes
    &&& reservation.region_max_bytes == region_max_bytes
}

/// The saturating `u16` sum of the region sizes.
pub open spec fn saturating_region_total(regions: Seq<OverlayRegion>) -> u16
    decreases regions.len(),
{
    if regions.len() == 0 {
        0
    } else {
        let sum = saturating_region_total(regions.drop_last()) + regions.last().bytes;
        if sum > u16::MAX {
            u16::MAX
        } else {
            sum as u16
        }
    }
}

/// `value` clamped into `u16`.
pub open spec fn saturating_u16(value: int) -> u16 {
    if value > u16::MAX {
        u16::MAX
    } else {
        value as u16
    }
}

/// A successful output over `members`, whose plan is still unhashed.
pub open spec fn succeeded_over(
    input: OverlayPlanInputs,
    output: OverlayPlanOutput,
    members: Seq<OverlayResident>,
) -> bool {
    &&& output.outcome == OverlayPlanOutcome::Succeeded
    &&& output.diagnostics@.len() == 0
    &&& output.input_identity == input.input_identity
    &&& output.audit_parents == input.audit_parents
    &&& output.result is Some
    &&& {
        let result = output.result->Some_0;
        let plan = result.product;
        let event = input.policy.overlay_install_event_default->Some_0;
        &&& plan.identity == input.input_identity
        &&& plan.overlay_plan_self_hash == Hash256::spec_zero()
        &&& result.overlay_plan_self_hash == Hash256::spec_zero()
        &&& (members.len() == 0 ==> plan.regions@.len() == 0 && plan.share_classes@.len() == 0
            && plan.installs@.len() == 0)
        &&& (members.len() > 0 ==> plan.regions@.len() == 1 && region_matches(
            input,
            plan.regions@[0],
            members,
        ))
        &&& plan.share_classes@.len() == (if members.len() >= 2 { 1int } else { 0int })
        &&& (members.len() >= 2 ==> {
            let class = plan.share_classes@[0];
            &&& class.id == OverlayShareClassId(0)
            &&& class.region == OverlayId(0)
            &&& class.members@ == member_ids(members)
            &&& class.eviction == input.policy.overlay_eviction_default
        })
        &&& (members.len() > 0 ==> plan.installs@.len() == members.len() && forall|i: int|
            0 <= i < members.len() ==> install_matches(
                #[trigger] plan.installs@[i],
                i,
                members[i],
                event,
            ))
        &&& reservation_matches(
            plan.reservation,
            plan.regions@,
            input.runtime_chrome_budget.wram_reserved,
            input.target_profile.wram_overlay_region_max_bytes,
        )
        &&& result.summary == (OverlayPlanSummary {
            region_count: saturating_u16(plan.regions@.len() as int),
            share_class_count: saturating_u16(plan.share_classes@.len() as int),
            install_count: saturating_u16(plan.installs@.len() as int),
            reserved_bytes: plan.reservation.total_bytes,
            cap_bytes: plan.reservation.cap_bytes,
        })
    }
}

/// A failed output that carries exactly `diagnostics`.
pub open spec fn failed_with(
    input: OverlayPlanInputs,
    output: OverlayPlanOutput,
    diagnostics: Seq<OverlayPlanDiagnostic>,
) -> bool {
    &&& output.outcome == OverlayPlanOutcome::Failed
    &&& output.result is None
    &&& output.diagnostics@ == diagnostics
    &&& output.input_identity == input.input_identity
    &&& output.audit_parents == input.audit_parents
}

// ---------------------------------------------------------------- exec

fn input_hash_mismatch_diagnostics(input: &OverlayPlanInputs) -> (diagnostics: Vec<OverlayPlanDiagnostic>)
    ensures
        diagnostics@ == hash_mismatches(
            overlay_input_products(),
            input.input_identity.spec_hashes(),
            input.expected_input_hashes,
        ),
{
    let products = overlay_input_products_exec();
    let recorded_hashes = input.input_identity.hashes();
    let mut diagnostics: Vec<OverlayPlanDiagnostic> = Vec::new();
    let mut i: usize = 0;
    while i < products.len()
        invariant
            products@ == overlay_input_products(),
            recorded_hashes == input.input_identity.spec_hashes(),
            i <= products@.len(),
            diagnostics@ == hash_mismatches(
                products@.subrange(0, i as int),
                recorded_hashes,
                input.expected_input_hashes,
            ),
        decreases products@.len() - i,
    {
        let product = products[i];
        let recorded = recorded_hashes.hash_for_product(product);
        let computed = input.expected_input_hashes.hash_for_product(product);
        proof {
            assert(products@.subrange(0, i + 1).drop_last() =~= products@.subrange(0, i as int));
        }
        if recorded != computed {
            diagnostics.push(
                OverlayPlanDiagnostic {
                    code: OverlayPlanDiagnosticCode::OverlayInputHashMismatch,
                    provenance: OverlayPlanDiagnosticProvenance::HashMismatch {
                        product,
                        recorded,
                        computed,
                    },
                },
            );
        }
        i = i + 1;
    }
    proof {
        assert(products@.subrange(0, products@.len() as int) =~= products@);
    }
    diagnostics
}

fn constraint_allowed(allowed: &Vec<WramRegionConstraint>, wanted: WramRegionConstraint) -> (found: bool)
    ensures
        found == allowed@.contains(wanted),
{
    let mut i: usize = 0;
    while i < allowed.len()
        invariant
            i <= allowed@.len(),
            forall|k: int| 0 <= k < i ==> allowed@[k] != wanted,
        decreases allowed@.len() - i,
    {
        if allowed[i] == wanted {
            return true;
        }
        i = i + 1;
    }
    false
}

/// The overlay demand of the ROM window plan as residents, kernels first.
fn overlay_members(plan: &RomWindowPlan) -> (members: Vec<OverlayResident>)
    ensures
        members@ == demand_residents(*plan),
{
    let mut members: Vec<OverlayResident> = Vec::new();
    let kernels = &plan.overlay_demand.kernels;
    let luts = &plan.overlay_demand.luts;
    let ghost kernel_part = kernels@.map_values(
        |k: WramOverlayKernelDemand|
            OverlayResident {
                id: OverlayResidentId::Kernel { kernel: k.kernel },
                payload_bytes: k.byte_size,
                reachability: k.reachability,
                source: OverlaySource::RomWindowOverlayDemand {
                    resident: OverlayResidentId::Kernel { kernel: k.kernel },
                },
            },
    );
    let ghost lut_part = luts@.map_values(
        |l: WramOverlayLutDemand|
            OverlayResident {
                id: OverlayResidentId::Lut { lut: l.lut },
                payload_bytes: l.byte_size,
                reachability: l.reachability,
                source: OverlaySource::RomWindowOverlayDemand {
                    resident: OverlayResidentId::Lut { lut: l.lut },
                },
            },
    );
    let mut i: usize = 0;
    while i < kernels.len()
        invariant
            i <= kernels@.len(),
            kernel_part.len() == kernels@.len(),
            forall|k: int| 0 <= k < kernels@.len() ==> #[trigger] kernel_part[k] == (OverlayResident {
                id: OverlayResidentId::Kernel { kernel: kernels@[k].kernel },
                payload_bytes: kernels@[k].byte_size,
                reachability: kernels@[k].reachability,
                source: OverlaySource::RomWindowOverlayDemand {
                    resident: OverlayResidentId::Kernel { kernel: kernels@[k].kernel },
                },
            }),
            members@ == kernel_part.subrange(0, i as int),
        decreases kernels@.len() - i,
    {
        let demand = &kernels[i];
        let id = OverlayResidentId::Kernel { kernel: KernelSpecId(demand.kernel.0.clone()) };
        let resident = OverlayResident {
            source: OverlaySource::RomWindowOverlayDemand { resident: id.duplicate() },
            id,
            payload_bytes: demand.byte_size,
            reachability: demand.reachability,
        };
        members.push(resident);
        proof {
            assert(members@ =~= kernel_part.subrange(0, i + 1));
        }
        i = i + 1;
    }
    let mut j: usize = 0;
    while j < luts.len()
        invariant
            j <= luts@.len(),
            kernel_part.len() == kernels@.len(),
            lut_part.len() == luts@.len(),
            forall|k: int| 0 <= k < luts@.len() ==> #[trigger] lut_part[k] == (OverlayResident {
                id: OverlayResidentId::Lut { lut: luts@[k].lut },
                payload_bytes: luts@[k].byte_size,
                reachability: luts@[k].reachability,
                source: OverlaySource::RomWindowOverlayDemand {
                    resident: OverlayResidentId::Lut { lut: luts@[k].lut },
                },
            }),
            members@ == kernel_part + lut_part.subrange(0, j as int),
        decreases luts@.len() - j,
    {
        let demand = &luts[j];
        let id = OverlayResidentId::Lut { lut: LutInstanceId(demand.lut.0.clone()) };
        let resident = OverlayResident {
            source: OverlaySource::RomWindowOverlayDemand { resident: id.duplicate() },
            id,
            payload_bytes: demand.byte_size,
            reachability: demand.reachability,
        };
        members.push(resident);
        proof {
            assert(members@ =~= kernel_part + lut_part.subrange(0, j + 1));
        }
        j = j + 1;
    }
    proof {
        assert(kernel_part.subrange(0, kernels@.len() as int) =~= kernel_part);
        assert(lut_part.subrange(0, luts@.len() as int) =~= lut_part);
        assert(members@ =~= demand_residents(*plan));
    }
    members
}

/// First position after every member not after `id`.
fn resident_insertion_point(sorted: &Vec<OverlayResident>, id: &OverlayResidentId) -> (pos: usize)
    requires
        members_sorted(sorted@),
    ensures
        pos <= sorted@.len(),
        forall|k: int| 0 <= k < pos ==> resident_le(&sorted@[k].id, id),
        forall|k: int| pos <= k < sorted@.len() ==> id.before(&sorted@[k].id),
{
    let mut pos: usize = sorted.len();
    while pos > 0 && id.is_before(&sorted[pos - 1].id)
        invariant
            members_sorted(sorted@),
            pos <= sorted@.len(),
            forall|k: int| pos <= k < sorted@.len() ==> id.before(&sorted@[k].id),
        decreases pos,
    {
        pos = pos - 1;
    }
    proof {
        if pos > 0 {
            assert(resident_le(&sorted@[pos - 1].id, id));
            assert forall|k: int| 0 <= k < pos implies resident_le(&sorted@[k].id, id) by {
                if k < pos - 1 {
                    lemma_resident_le_transitive(&sorted@[k].id, &sorted@[pos - 1].id, id);
                }
            }
        }
    }
    pos
}

/// The members in identifier order; equal identifiers keep their order.
/// `sorted` with `item` inserted after every member that it does not come
/// before.
pub open spec fn insert_member(sorted: Seq<OverlayResident>, item: OverlayResident) -> Seq<OverlayResident>
    decreases sorted.len(),
{
    if sorted.len() == 0 {
        seq![item]
    } else if item.id.before(&sorted.last().id) {
        insert_member(sorted.drop_last(), item).push(sorted.last())
    } else {
        sorted.push(item)
    }
}

/// `items` ordered by identifier by inserting each in turn: members of equal
/// identifiers keep the order they came in.
pub open spec fn sorted_members(items: Seq<OverlayResident>) -> Seq<OverlayResident>
    decreases items.len(),
{
    if items.len() == 0 {
        Seq::empty()
    } else {
        insert_member(sorted_members(items.drop_last()), items.last())
    }
}

proof fn lemma_insert_member(sorted: Seq<OverlayResident>, item: OverlayResident, pos: int)
    requires
        0 <= pos <= sorted.len(),
        forall|k: int| 0 <= k < pos ==> !item.id.before(&#[trigger] sorted[k].id),
        forall|k: int| pos <= k < sorted.len() ==> item.id.before(&#[trigger] sorted[k].id),
    ensures
        insert_member(sorted, item) == sorted.insert(pos, item),
    decreases sorted.len(),
{
    if sorted.len() == 0 {
        assert(sorted.insert(pos, item) =~= seq![item]);
    } else if item.id.before(&sorted.last().id) {
        lemma_insert_member(sorted.drop_last(), item, pos);
        assert(sorted.drop_last().insert(pos, item).push(sorted.last()) =~= sorted.insert(pos, item));
    } else {
        assert(sorted.push(item) =~= sorted.insert(pos, item));
    }
}

fn sort_members(members: Vec<OverlayResident>) -> (sorted: Vec<OverlayResident>)
    ensures
        sorted@ == sorted_members(members@),
        members_sorted(sorted@),
        sorted@.to_multiset() == members@.to_multiset(),
        sorted@.len() == members@.len(),
{
    let mut rest = members;
    let mut sorted: Vec<OverlayResident> = Vec::new();
    let ghost initial = rest@;
    while rest.len() > 0
        invariant
            members_sorted(sorted@),
            sorted@.to_multiset().add(rest@.to_multiset()) == initial.to_multiset(),
            sorted@.len() + rest@.len() == initial.len(),
            sorted@ == sorted_members(initial.take(sorted@.len() as int)),
            rest@ == initial.skip(sorted@.len() as int),
        decreases rest@.len(),
    {
        let ghost rest_before = rest@;
        let ghost sorted_before = sorted@;
        let item = rest.remove(0);
        let pos = resident_insertion_point(&sorted, &item.id);
        sorted.insert(pos, item);
        proof {
            let done = sorted_before.len() as int;
            assert(item == initial[done]);
            assert(initial.take(done + 1).drop_last() =~= initial.take(done));
            assert forall|k: int| 0 <= k < pos implies !item.id.before(&#[trigger] sorted_before[k].id) by {
                assert(resident_le(&sorted_before[k].id, &item.id));
            }
            lemma_insert_member(sorted_before, item, pos as int);
            assert(rest@ =~= initial.skip(done + 1));
            assert(rest_before.remove(0).to_multiset() == rest_before.to_multiset().remove(
                rest_before[0],
            ));
            assert(sorted@.to_multiset() == sorted_before.to_multiset().insert(item));
            assert forall|i: int, j: int| 0 <= i < j < sorted@.len() implies resident_le(
                &sorted@[i].id,
                &sorted@[j].id,
            ) by {
                if i < pos && j < pos {
                    assert(sorted@[i] == sorted_before[i]);
                    assert(sorted@[j] == sorted_before[j]);
                } else if i < pos && j == pos {
                    assert(sorted@[i] == sorted_before[i]);
                } else if i < pos {
                    assert(sorted@[i] == sorted_before[i]);
                    assert(sorted@[j] == sorted_before[j - 1]);
                } else if i == pos {
                    assert(sorted@[j] == sorted_before[j - 1]);
                    let a = sorted_before[j - 1].id;
                    let b = item.id;
                    if a.before(&b) {
                        crate::text::lemma_bytes_lt_irreflexive(utf8(a.name()));
                        if a.kind_rank() == b.kind_rank() {
                            crate::text::lemma_bytes_lt_transitive(
                                utf8(a.name()),
                                utf8(b.name()),
                                utf8(a.name()),
                            );
                        }
                    }
                } else {
                    assert(sorted@[i] == sorted_before[i - 1]);
                    assert(sorted@[j] == sorted_before[j - 1]);
                }
            }
        }
    }
    proof {
        assert(initial.take(initial.len() as int) =~= initial);
        assert(rest@.to_multiset() =~= vstd::multiset::Multiset::empty());
        assert(sorted@.to_multiset().add(vstd::multiset::Multiset::empty())
            =~= sorted@.to_multiset());
    }
    sorted
}

fn max_payload_exec(members: &Vec<OverlayResident>) -> (max: u32)
    ensures
        max == max_payload(members@),
{
    let mut max: u32 = 0;
    let mut i: usize = 0;
    while i < members.len()
        invariant
            i <= members@.len(),
            max == max_payload(members@.subrange(0, i as int)),
        decreases members@.len() - i,
    {
        proof {
            assert(members@.subrange(0, i + 1).drop_last() =~= members@.subrange(0, i as int));
        }
        if members[i].payload_bytes > max {
            max = members[i].payload_bytes;
        }
        i = i + 1;
    }
    proof {
        assert(members@.subrange(0, members@.len() as int) =~= members@);
    }
    max
}

fn saturating_u16_exec(value: usize) -> (clamped: u16)
    ensures
        clamped == saturating_u16(value as int),
{
    if value > u16::MAX as usize {
        u16::MAX
    } else {
        value as u16
    }
}

fn compute_reservation(regions: &Vec<OverlayRegion>, cap_bytes: u16, region_max_bytes: u16) -> (reservation: OverlayReservation)
    ensures
        reservation_matches(reservation, regions@, cap_bytes, region_max_bytes),
{
    let mut total: u16 = 0;
    let mut per_region: Vec<OverlayReservationEntry> = Vec::new();
    let mut i: usize = 0;
    while i < regions.len()
        invariant
            i <= regions@.len(),
            total == saturating_region_total(regions@.subrange(0, i as int)),
            per_region@.len() == i,
            forall|k: int|
                0 <= k < i ==> #[trigger] per_region@[k] == (OverlayReservationEntry {
                    region: regions@[k].id,
                    bytes: regions@[k].bytes,
                    reservation_kind: OverlayReservationKind::WramOverlay,
                }),
        decreases regions@.len() - i,
    {
        proof {
            assert(regions@.subrange(0, i + 1).drop_last() =~= regions@.subrange(0, i as int));
        }
        total = total.saturating_add(regions[i].bytes);
        per_region.push(
            OverlayReservationEntry {
                region: regions[i].id,
                bytes: regions[i].bytes,
                reservation_kind: OverlayReservationKind::WramOverlay,
            },
        );
        i = i + 1;
    }
    proof {
        assert(regions@.subrange(0, regions@.len() as int) =~= regions@);
    }
    OverlayReservation { total_bytes: total, per_region, cap_bytes, region_max_bytes }
}

fn failed_output(input: &OverlayPlanInputs, diagnostic: OverlayPlanDiagnostic) -> (output: OverlayPlanOutput)
    ensures
        failed_with(*input, output, seq![diagnostic]),
{
    let mut diagnostics: Vec<OverlayPlanDiagnostic> = Vec::new();
    diagnostics.push(diagnostic);
    assert(diagnostics@ =~= seq![diagnostic]);
    OverlayPlanOutput {
        input_identity: input.input_identity.duplicate(),
        audit_parents: input.audit_parents,
        outcome: OverlayPlanOutcome::Failed,
        result: None,
        diagnostics,
    }
}

fn succeeded_output(
    input: &OverlayPlanInputs,
    regions: Vec<OverlayRegion>,
    share_classes: Vec<OverlayShareClass>,
    installs: Vec<OverlayInstall>,
) -> (output: OverlayPlanOutput)
    ensures
        output.outcome == OverlayPlanOutcome::Succeeded,
        output.diagnostics@.len() == 0,
        output.input_identity == input.input_identity,
        output.audit_parents == input.audit_parents,
        output.result is Some,
        output.result->Some_0.product.identity == input.input_identity,
        output.result->Some_0.product.regions == regions,
        output.result->Some_0.product.share_classes == share_classes,
        output.result->Some_0.product.installs == installs,
        output.result->Some_0.product.overlay_plan_self_hash == Hash256::spec_zero(),
        output.result->Some_0.overlay_plan_self_hash == Hash256::spec_zero(),
        reservation_matches(
            output.result->Some_0.product.reservation,
            regions@,
            input.runtime_chrome_budget.wram_reserved,
            input.target_profile.wram_overlay_region_max_bytes,
        ),
        output.result->Some_0.summary == (OverlayPlanSummary {
            region_count: saturating_u16(regions@.len() as int),
            share_class_count: saturating_u16(share_classes@.len() as int),
            install_count: saturating_u16(installs@.len() as int),
            reserved_bytes: output.result->Some_0.product.reservation.total_bytes,
            cap_bytes: output.result->Some_0.product.reservation.cap_bytes,
        }),
{
    let reservation = compute_reservation(
        &regions,
        input.runtime_chrome_budget.wram_reserved,
        input.target_profile.wram_overlay_region_max_bytes,
    );
    let summary = OverlayPlanSummary {
        region_count: saturating_u16_exec(regions.len()),
        share_class_count: saturating_u16_exec(share_classes.len()),
        install_count: saturating_u16_exec(installs.len()),
        reserved_bytes: reservation.total_bytes,
        cap_bytes: reservation.cap_bytes,
    };
    let plan = OverlayPlan {
        identity: input.input_identity.duplicate(),
        regions,
        share_classes,
        installs,
        reservation,
        overlay_plan_self_hash: Hash256::zero(),
    };
    OverlayPlanOutput {
        input_identity: input.input_identity.duplicate(),
        audit_parents: input.audit_parents,
        outcome: OverlayPlanOutcome::Succeeded,
        result: Some(
            OverlayPlanResult { product: plan, overlay_plan_self_hash: Hash256::zero(), summary },
        ),
        diagnostics: Vec::new(),
    }
}

/// `output` is what overlay planning makes of `input`: the hash mismatches,
/// else the first preflight failure, else the verdict over the demand in
/// canonical order.
pub open spec fn overlay_plan_built(input: OverlayPlanInputs, output: OverlayPlanOutput) -> bool {
    let mismatches = hash_mismatches(
        overlay_input_products(),
        input.input_identity.spec_hashes(),
        input.expected_input_hashes,
    );
    if mismatches.len() > 0 {
        failed_with(input, output, mismatches)
    } else if preflight_failure(input) is Some {
        failed_with(input, output, seq![preflight_failure(input)->Some_0])
    } else {
        let members = sorted_members(demand_residents(input.rom_window_plan));
        &&& members_sorted(members)
        &&& members.to_multiset() == demand_residents(input.rom_window_plan).to_multiset()
        &&& match member_failure(input, members) {
            Some(diagnostic) => failed_with(input, output, seq![diagnostic]),
            None => succeeded_over(input, output, members),
        }
    }
}

/// Builds the overlay plan. The plan comes back unhashed: its surface is
/// checked and its self hash filled in by [`finalize_overlay_plan_output`].
pub fn build_overlay_plan(input: &OverlayPlanInputs) -> (output: OverlayPlanOutput)
    ensures
        overlay_plan_built(*input, output),
{
    let hash_diagnostics = input_hash_mismatch_diagnostics(input);
    if hash_diagnostics.len() > 0 {
        return OverlayPlanOutput {
            input_identity: input.input_identity.duplicate(),
            audit_parents: input.audit_parents,
            outcome: OverlayPlanOutcome::Failed,
            result: None,
            diagnostics: hash_diagnostics,
        };
    }
    if input.input_identity.rom_window_plan_self_hash
        != input.rom_window_plan.rom_window_plan_self_hash {
        return failed_output(
            input,
            OverlayPlanDiagnostic {
                code: OverlayPlanDiagnosticCode::OverlayInputHashMismatch,
                provenance: OverlayPlanDiagnosticProvenance::HashMismatch {
                    product: OverlayPlanInputProduct::RomWindowPlan,
                    recorded: input.input_identity.rom_window_plan_self_hash,
                    computed: input.rom_window_plan.rom_window_plan_self_hash,
                },
            },
        );
    }
    if input.policy.runtime_modes_requested.len() == 0 {
        return failed_output(
            input,
            OverlayPlanDiagnostic {
                code: OverlayPlanDiagnosticCode::OverlayResolvedPolicyProjectionMismatch,
                provenance: OverlayPlanDiagnosticProvenance::PolicyProjection {
                    field: OverlayPolicyField::RuntimeModesRequested,
                },
            },
        );
    }
    if !constraint_allowed(
        &input.target_profile.allowed_overlay_constraints,
        input.target_profile.default_overlay_constraint,
    ) {
        return failed_output(
            input,
            OverlayPlanDiagnostic {
                code: OverlayPlanDiagnosticCode::OverlayTargetProfileLayoutUnsupported,
                provenance: OverlayPlanDiagnosticProvenance::TargetProfileLayout {
                    target_profile_hash: input.input_identity.target_profile_hash,
                },
            },
        );
    }

    let members = sort_members(overlay_members(&input.rom_window_plan));
    let ghost m = members@;
    assert(member_failure(*input, m) == member_failure(*input, members@));

    if members.len() == 0 {
        if input.policy.require_explicit_zero_reservation && input.runtime_chrome_budget.wram_reserved
            > 0 {
            return failed_output(
                input,
                OverlayPlanDiagnostic {
                    code: OverlayPlanDiagnosticCode::OverlayNoCandidatesButReservationDeclared,
                    provenance: OverlayPlanDiagnosticProvenance::Reservation {
                        total_bytes: 0,
                        cap_bytes: input.runtime_chrome_budget.wram_reserved as u32,
                    },
                },
            );
        }
        let output = succeeded_output(input, Vec::new(), Vec::new(), Vec::new());
        assert(succeeded_over(*input, output, m));
        return output;
    }

    let install_event = match input.policy.overlay_install_event_default {
        Some(event) => event,
        None => {
            return failed_output(
                input,
                OverlayPlanDiagnostic {
                    code: OverlayPlanDiagnosticCode::OverlayInstallEventDefaultMissing,
                    provenance: OverlayPlanDiagnosticProvenance::PolicyProjection {
                        field: OverlayPolicyField::OverlayInstallEventDefault,
                    },
                },
            );
        },
    };

    let max_payload = max_payload_exec(&members);
    if max_payload > input.target_profile.wram_overlay_region_max_bytes as u32 {
        return failed_output(
            input,
            OverlayPlanDiagnostic {
                code: OverlayPlanDiagnosticCode::OverlayRegionPayloadExceedsRegionCap,
                provenance: OverlayPlanDiagnosticProvenance::Reservation {
                    total_bytes: max_payload,
                    cap_bytes: input.target_profile.wram_overlay_region_max_bytes as u32,
                },
            },
        );
    }
    if max_payload > input.runtime_chrome_budget.wram_reserved as u32 {
        return failed_output(
            input,
            OverlayPlanDiagnostic {
                code: OverlayPlanDiagnosticCode::OverlayWramOverlayCapExceeded,
                provenance: OverlayPlanDiagnosticProvenance::Reservation {
                    total_bytes: max_payload,
                    cap_bytes: input.runtime_chrome_budget.wram_reserved as u32,
                },
            },
        );
    }
    if members.len() >= 2 && input.policy.overlay_eviction_default
        == OverlayEvictionPolicy::Undefined {
        return failed_output(
            input,
            OverlayPlanDiagnostic {
                code: OverlayPlanDiagnosticCode::OverlayShareClassEvictionUndefined,
                provenance: OverlayPlanDiagnosticProvenance::Region { region_id: 0 },
            },
        );
    }

    let region_bytes = max_payload as u16;
    let region_id = OverlayId(0);

    let mut share_classes: Vec<OverlayShareClass> = Vec::new();
    let mut installs: Vec<OverlayInstall> = Vec::new();
    let mut share_members: Vec<OverlayResidentId> = Vec::new();
    let mut region_members: Vec<OverlayResident> = Vec::new();
    let mut i: usize = 0;
    while i < members.len()
        invariant
            m == members@,
            region_id == OverlayId(0),
            i <= members@.len(),
            region_members@ == members@.subrange(0, i as int),
            share_members@ == member_ids(members@.subrange(0, i as int)),
            installs@.len() == i,
            forall|k: int|
                0 <= k < i ==> install_matches(#[trigger] installs@[k], k, members@[k], install_event),
        decreases members@.len() - i,
    {
        let member = &members[i];
        proof {
            assert(member_ids(members@.subrange(0, i + 1)) =~= member_ids(
                members@.subrange(0, i as int),
            ).push(member.id));
            assert(members@.subrange(0, i + 1) =~= members@.subrange(0, i as int).push(*member));
        }
        let ghost installs_before = installs@;
        region_members.push(member.duplicate());
        share_members.push(member.id.duplicate());
        installs.push(
            OverlayInstall {
                id: OverlayInstallId(i as u32),
                region: region_id,
                member: member.id.duplicate(),
                source: member.source.duplicate(),
                install_event,
                lease_shape: OverlayLeaseShape {
                    source_lease: OverlaySourceLease {
                        source: member.source.duplicate(),
                        acquire_at: install_event,
                        release_at: install_event,
                    },
                    wram_region_lease: OverlayWramRegionLease {
                        region: region_id,
                        acquire_at: install_event,
                        release_at: install_event,
                    },
                },
            },
        );
        proof {
            assert forall|k: int| 0 <= k < i + 1 implies install_matches(
                #[trigger] installs@[k],
                k,
                members@[k],
                install_event,
            ) by {
                if k < i {
                    assert(installs@[k] == installs_before[k]);
                    assert(install_matches(installs_before[k], k, members@[k], install_event));
                } else {
                    let ins = installs@[k];
                    assert(k == i as int);
                    assert(ins.id == OverlayInstallId(k as u32));
                    assert(ins.lease_shape.wram_region_lease == (OverlayWramRegionLease {
                        region: OverlayId(0),
                        acquire_at: install_event,
                        release_at: install_event,
                    }));
                }
            }
        }
        i = i + 1;
    }
    proof {
        assert(members@.subrange(0, members@.len() as int) =~= members@);
    }
    if members.len() >= 2 {
        share_classes.push(
            OverlayShareClass {
                id: OverlayShareClassId(0),
                region: region_id,
                members: share_members,
                eviction: input.policy.overlay_eviction_default,
            },
        );
    }
    let region = OverlayRegion {
        id: region_id,
        bytes: region_bytes,
        constraint: input.target_profile.default_overlay_constraint,
        members: region_members,
        reservation_kind: OverlayReservationKind::WramOverlay,
        reservation_floor_bytes: region_bytes,
        reservation_ceil_bytes: region_bytes,
    };
    let mut regions: Vec<OverlayRegion> = Vec::new();
    regions.push(region);
    let output = succeeded_output(input, regions, share_classes, installs);
    assert(succeeded_over(*input, output, m));
    output
}

/// The words whose presence in a serialized plan leaks an assembly concern.
pub open spec fn section_role_words() -> Seq<Seq<char>> {
    seq!["AsmIR"@, "SectionRole"@, "BankPlacement"@]
}

/// The words whose presence in a serialized overlay plan leaks a later
/// stage's scheduling or addressing concern.
pub open spec fn overlay_scheduling_words() -> Seq<Seq<char>> {
    seq![
        "ArenaPlan"@,
        "ArenaId"@,
        "ArenaSlot"@,
        "AddressSpace"@,
        "ByteRange"@,
        "SliceId"@,
        "LeaseId"@,
        "ResourceVector"@,
        "CycleBudget"@,
    ]
}

/// Index of the first word of `words` that occurs in `text`, if any.
pub open spec fn first_contained(text: Seq<char>, words: Seq<Seq<char>>) -> Option<int>
    decreases words.len(),
{
    if words.len() == 0 {
        None
    } else {
        match first_contained(text, words.drop_last()) {
            Some(i) => Some(i),
            None => if bytes_contain(utf8(text), utf8(words.last())) {
                Some(words.len() - 1)
            } else {
                None
            },
        }
    }
}

/// Whether a serialized product mentions repair provenance.
pub open spec fn mentions_repair(text: Seq<char>) -> bool {
    bytes_contain(utf8(text), utf8("RepairProposal"@)) || bytes_contain(
        utf8(text),
        utf8("repair_proposals"@),
    )
}

/// The first word of `words` (given as `strs`) found in `text`, with its index.
pub fn find_first_word(text: &str, words: &Vec<&str>) -> (found: Option<usize>)
    ensures
        ({
            let views = words@.map_values(|w: &str| w@);
            match found {
                Some(i) => i < words@.len() && first_contained(text@, views) == Some(i as int),
                None => first_contained(text@, views) is None,
            }
        }),
{
    let ghost views = words@.map_values(|w: &str| w@);
    let mut i: usize = 0;
    while i < words.len()
        invariant
            i <= words@.len(),
            views == words@.map_values(|w: &str| w@),
            first_contained(text@, views.subrange(0, i as int)) is None,
        decreases words@.len() - i,
    {
        proof {
            assert(views.subrange(0, i + 1).drop_last() =~= views.subrange(0, i as int));
        }
        if str_contains(text, words[i]) {
            proof {
                lemma_first_contained_prefix(text@, views, i as int + 1, i as int);
            }
            return Some(i);
        }
        i = i + 1;
    }
    proof {
        assert(views.subrange(0, words@.len() as int) =~= views);
    }
    None
}

proof fn lemma_first_contained_prefix(text: Seq<char>, words: Seq<Seq<char>>, n: int, idx: int)
    requires
        0 <= n <= words.len(),
        first_contained(text, words.subrange(0, n)) == Some(idx),
    ensures
        first_contained(text, words) == Some(idx),
    decreases words.len() - n,
{
    if n < words.len() {
        assert(words.subrange(0, n + 1).drop_last() =~= words.subrange(0, n));
        assert(first_contained(text, words.subrange(0, n + 1)) == Some(idx));
        lemma_first_contained_prefix(text, words, n + 1, idx);
    } else {
        assert(words.subrange(0, n) =~= words);
    }
}

/// The diagnostic of `code` that points at the JSON word `tag`.
pub open spec fn json_path_diagnostic(
    diagnostic: OverlayPlanDiagnostic,
    code: OverlayPlanDiagnosticCode,
    tag: Seq<char>,
) -> bool {
    &&& diagnostic.code == code
    &&& diagnostic.provenance matches OverlayPlanDiagnosticProvenance::JsonPath { field_or_tag }
        && field_or_tag@ == tag
}

/// `found` is the surface verdict on serialized overlay-plan JSON `text`:
/// assembly words first, then scheduling words, then repair provenance.
pub open spec fn overlay_surface_verdict(text: Seq<char>, found: Option<OverlayPlanDiagnostic>) -> bool {
    match first_contained(text, section_role_words()) {
        Some(i) => found is Some && json_path_diagnostic(
            found->Some_0,
            OverlayPlanDiagnosticCode::OverlaySectionRoleLeaked,
            section_role_words()[i],
        ),
        None => match first_contained(text, overlay_scheduling_words()) {
            Some(i) => found is Some && json_path_diagnostic(
                found->Some_0,
                OverlayPlanDiagnosticCode::OverlaySchedulingFieldLeaked,
                overlay_scheduling_words()[i],
            ),
            None => if mentions_repair(text) {
                found is Some && json_path_diagnostic(
                    found->Some_0,
                    OverlayPlanDiagnosticCode::OverlayRepairProvenanceForbidden,
                    "repair"@,
                )
            } else {
                found is None
            },
        },
    }
}

pub(crate) fn section_role_words_exec() -> (words: Vec<&'static str>)
    ensures
        words@.map_values(|w: &str| w@) == section_role_words(),
{
    proof {
        reveal_strlit("AsmIR");
        reveal_strlit("SectionRole");
        reveal_strlit("BankPlacement");
    }
    let words = vec!["AsmIR", "SectionRole", "BankPlacement"];
    assert(words@.map_values(|w: &str| w@) =~= section_role_words());
    words
}

fn overlay_scheduling_words_exec() -> (words: Vec<&'static str>)
    ensures
        words@.map_values(|w: &str| w@) == overlay_scheduling_words(),
{
    proof {
        reveal_strlit("ArenaPlan");
        reveal_strlit("ArenaId");
        reveal_strlit("ArenaSlot");
        reveal_strlit("AddressSpace");
        reveal_strlit("ByteRange");
        reveal_strlit("SliceId");
        reveal_strlit("LeaseId");
        reveal_strlit("ResourceVector");
        reveal_strlit("CycleBudget");
    }
    let words = vec![
        "ArenaPlan",
        "ArenaId",
        "ArenaSlot",
        "AddressSpace",
        "ByteRange",
        "SliceId",
        "LeaseId",
        "ResourceVector",
        "CycleBudget",
    ];
    assert(words@.map_values(|w: &str| w@) =~= overlay_scheduling_words());
    words
}

fn json_diagnostic(code: OverlayPlanDiagnosticCode, tag: &str) -> (diagnostic: OverlayPlanDiagnostic)
    ensures
        json_path_diagnostic(diagnostic, code, tag@),
{
    OverlayPlanDiagnostic {
        code,
        provenance: OverlayPlanDiagnosticProvenance::JsonPath { field_or_tag: tag.to_owned() },
    }
}

/// Checks serialized overlay-plan JSON for words of other stages.
pub fn validate_overlay_plan_json_surface(text: &str) -> (found: Option<OverlayPlanDiagnostic>)
    ensures
        overlay_surface_verdict(text@, found),
{
    let roles = section_role_words_exec();
    if let Some(i) = find_first_word(text, &roles) {
        assert(roles@.map_values(|w: &str| w@)[i as int] == roles@[i as int]@);
        return Some(json_diagnostic(OverlayPlanDiagnosticCode::OverlaySectionRoleLeaked, roles[i]));
    }
    let scheduling = overlay_scheduling_words_exec();
    if let Some(i) = find_first_word(text, &scheduling) {
        assert(scheduling@.map_values(|w: &str| w@)[i as int] == scheduling@[i as int]@);
        return Some(
            json_diagnostic(OverlayPlanDiagnosticCode::OverlaySchedulingFieldLeaked, scheduling[i]),
        );
    }
    proof {
        reveal_strlit("RepairProposal");
        reveal_strlit("repair_proposals");
        reveal_strlit("repair");
    }
    if str_contains(text, "RepairProposal") || str_contains(text, "repair_proposals") {
        return Some(json_diagnostic(OverlayPlanDiagnosticCode::OverlayRepairProvenanceForbidden, "repair"));
    }
    None
}

/// Completes a built plan with the verdict on its serialized surface and its
/// self hash: a surface diagnostic fails the output; otherwise the plan and
/// its result carry `self_hash`. A failed output is returned unchanged.
pub fn finalize_overlay_plan_output(
    output: OverlayPlanOutput,
    surface: Option<OverlayPlanDiagnostic>,
    self_hash: Hash256,
) -> (finalized: OverlayPlanOutput)
    ensures
        output.outcome == OverlayPlanOutcome::Failed || output.result is None ==> finalized == output,
        output.outcome == OverlayPlanOutcome::Succeeded && output.result is Some && surface is Some
            ==> {
            &&& finalized.outcome == OverlayPlanOutcome::Failed
            &&& finalized.result is None
            &&& finalized.diagnostics@ == seq![surface->Some_0]
            &&& finalized.input_identity == output.input_identity
            &&& finalized.audit_parents == output.audit_parents
        },
        output.outcome == OverlayPlanOutcome::Succeeded && output.result is Some && surface is None
            ==> {
            let before = output.result->Some_0;
            &&& finalized.outcome == OverlayPlanOutcome::Succeeded
            &&& finalized.diagnostics == output.diagnostics
            &&& finalized.input_identity == output.input_identity
            &&& finalized.audit_parents == output.audit_parents
            &&& finalized.result == Some(
                OverlayPlanResult {
                    product: OverlayPlan { overlay_plan_self_hash: self_hash, ..before.product },
                    overlay_plan_self_hash: self_hash,
                    summary: before.summary,
                },
            )
        },
{
    if output.outcome == OverlayPlanOutcome::Failed {
        return output;
    }
    match output.result {
        None => OverlayPlanOutput { result: None, ..output },
        Some(result) => match surface {
            Some(diagnostic) => {
                let mut diagnostics: Vec<OverlayPlanDiagnostic> = Vec::new();
                diagnostics.push(diagnostic);
                assert(diagnostics@ =~= seq![diagnostic]);
                OverlayPlanOutput {
                    input_identity: output.input_identity,
                    audit_parents: output.audit_parents,
                    outcome: OverlayPlanOutcome::Failed,
                    result: None,
                    diagnostics,
                }
            },
            None => {
                let product = OverlayPlan { overlay_plan_self_hash: self_hash, ..result.product };
                OverlayPlanOutput {
                    result: Some(
                        OverlayPlanResult {
                            product,
                            overlay_plan_self_hash: self_hash,
                            summary: result.summary,
                        },
                    ),
                    ..output
                }
            },
        },
    }
}

// ------------------------------------------------------------ demand order

/// Two identifiers neither of which orders before the other are the same
/// resident.
proof fn lemma_resident_le_antisymmetric(a: &OverlayResidentId, b: &OverlayResidentId)
    requires
        resident_le(a, b),
        resident_le(b, a),
    ensures
        a.same(b),
{
    if a.kind_rank() == b.kind_rank() {
        crate::text::lemma_bytes_lt_total(utf8(a.name()), utf8(b.name()));
        vstd::utf8::encode_utf8_decode_utf8(a.name());
        vstd::utf8::encode_utf8_decode_utf8(b.name());
    }
}

/// No two different residents of `members` share an identifier.
pub open spec fn ids_unambiguous(members: Multiset<OverlayResident>) -> bool {
    forall|x: OverlayResident, y: OverlayResident|
        members.contains(x) && members.contains(y) && x.id.same(&y.id) ==> x == y
}

/// Two member lists in canonical order that hold the same residents, no two
/// of which share an identifier, are the same list.
pub proof fn lemma_sorted_members_unique(m1: Seq<OverlayResident>, m2: Seq<OverlayResident>)
    requires
        members_sorted(m1),
        members_sorted(m2),
        m1.to_multiset() == m2.to_multiset(),
        ids_unambiguous(m1.to_multiset()),
    ensures
        m1 == m2,
    decreases m1.len(),
{
    if m1.len() == 0 {
        assert(m2.to_multiset().len() == 0);
        assert(m1 =~= m2);
    } else {
        assert(m1.to_multiset().count(m1[0]) > 0) by {
            assert(m1.contains(m1[0]));
        }
        assert(m2.contains(m1[0]));
        let k = choose|k: int| 0 <= k < m2.len() && m2[k] == m1[0];
        assert(m1.to_multiset().count(m2[0]) > 0) by {
            assert(m2.contains(m2[0]));
        }
        assert(m1.contains(m2[0]));
        let j = choose|j: int| 0 <= j < m1.len() && m1[j] == m2[0];
        if j > 0 && k > 0 {
            assert(resident_le(&m1[0].id, &m1[j].id));
            assert(resident_le(&m2[0].id, &m2[k].id));
            lemma_resident_le_antisymmetric(&m1[0].id, &m2[0].id);
            assert(m1.to_multiset().contains(m2[0]));
        }
        assert(m1[0] == m2[0]);
        let r1 = m1.remove(0);
        let r2 = m2.remove(0);
        assert(r1 =~= m1.drop_first());
        assert(r2 =~= m2.drop_first());
        assert(r1.to_multiset() == m1.to_multiset().remove(m1[0]));
        assert(r2.to_multiset() == m2.to_multiset().remove(m2[0]));
        assert forall|x: OverlayResident, y: OverlayResident|
            r1.to_multiset().contains(x) && r1.to_multiset().contains(y) && x.id.same(&y.id) implies x == y by {
            assert(m1.to_multiset().contains(x));
            assert(m1.to_multiset().contains(y));
        }
        lemma_sorted_members_unique(r1, r2);
        assert(m1 =~= seq![m1[0]] + r1);
        assert(m2 =~= seq![m2[0]] + r2);
    }
}

/// The two inputs differ at most in the order of the overlay demand.
pub open spec fn same_but_demand_order(i1: OverlayPlanInputs, i2: OverlayPlanInputs) -> bool {
    &&& i1.input_identity == i2.input_identity
    &&& i1.expected_input_hashes == i2.expected_input_hashes
    &&& i1.audit_parents == i2.audit_parents
    &&& i1.runtime_chrome_budget == i2.runtime_chrome_budget
    &&& i1.target_profile == i2.target_profile
    &&& i1.policy == i2.policy
    &&& i1.rom_window_plan.rom_window_plan_self_hash == i2.rom_window_plan.rom_window_plan_self_hash
    &&& demand_residents(i1.rom_window_plan).to_multiset() == demand_residents(i2.rom_window_plan).to_multiset()
}

pub open spec fn region_view(r: OverlayRegion) -> (OverlayId, u16, WramRegionConstraint, Seq<OverlayResident>, u16, u16) {
    (r.id, r.bytes, r.constraint, r.members@, r.reservation_floor_bytes, r.reservation_ceil_bytes)
}

pub open spec fn share_class_view(c: OverlayShareClass) -> (OverlayShareClassId, OverlayId, Seq<OverlayResidentId>, OverlayEvictionPolicy) {
    (c.id, c.region, c.members@, c.eviction)
}

/// The two outputs hold the same verdict and the same plan.
pub open spec fn same_overlay_output(o1: OverlayPlanOutput, o2: OverlayPlanOutput) -> bool {
    &&& o1.outcome == o2.outcome
    &&& o1.diagnostics@ == o2.diagnostics@
    &&& o1.input_identity == o2.input_identity
    &&& o1.audit_parents == o2.audit_parents
    &&& (o1.result is Some <==> o2.result is Some)
    &&& o1.result is Some ==> {
        let r1 = o1.result->Some_0;
        let r2 = o2.result->Some_0;
        &&& r1.product.identity == r2.product.identity
        &&& r1.product.regions@.map_values(|r: OverlayRegion| region_view(r))
            == r2.product.regions@.map_values(|r: OverlayRegion| region_view(r))
        &&& r1.product.share_classes@.map_values(|c: OverlayShareClass| share_class_view(c))
            == r2.product.share_classes@.map_values(|c: OverlayShareClass| share_class_view(c))
        &&& r1.product.installs@ == r2.product.installs@
        &&& r1.product.reservation.total_bytes == r2.product.reservation.total_bytes
        &&& r1.product.reservation.per_region@ == r2.product.reservation.per_region@
        &&& r1.product.reservation.cap_bytes == r2.product.reservation.cap_bytes
        &&& r1.product.reservation.region_max_bytes == r2.product.reservation.region_max_bytes
        &&& r1.product.overlay_plan_self_hash == r2.product.overlay_plan_self_hash
        &&& r1.overlay_plan_self_hash == r2.overlay_plan_self_hash
        &&& r1.summary == r2.summary
    }
}

proof fn lemma_same_success(i1: OverlayPlanInputs, i2: OverlayPlanInputs, o1: OverlayPlanOutput, o2: OverlayPlanOutput, m: Seq<OverlayResident>)
    requires
        same_but_demand_order(i1, i2),
        succeeded_over(i1, o1, m),
        succeeded_over(i2, o2, m),
    ensures
        same_overlay_output(o1, o2),
{
    let p1 = o1.result->Some_0.product;
    let p2 = o2.result->Some_0.product;
    assert(o1.diagnostics@ =~= o2.diagnostics@);
    if m.len() > 0 {
        assert(region_view(p1.regions@[0]) == region_view(p2.regions@[0]));
        assert(p1.installs@ =~= p2.installs@) by {
            assert forall|i: int| 0 <= i < m.len() implies p1.installs@[i] == p2.installs@[i] by {
                assert(install_matches(p1.installs@[i], i, m[i], i1.policy.overlay_install_event_default->Some_0));
                assert(install_matches(p2.installs@[i], i, m[i], i2.policy.overlay_install_event_default->Some_0));
            }
        }
        assert(p1.regions@.drop_last() =~= Seq::<OverlayRegion>::empty());
        assert(p2.regions@.drop_last() =~= Seq::<OverlayRegion>::empty());
        assert(saturating_region_total(p1.regions@) == saturating_region_total(p2.regions@));
        assert(p1.reservation.per_region@ =~= p2.reservation.per_region@) by {
            assert(p1.reservation.per_region@[0] == p2.reservation.per_region@[0]);
        }
    } else {
        assert(p1.installs@ =~= p2.installs@);
        assert(p1.reservation.per_region@ =~= p2.reservation.per_region@);
    }
    assert(p1.regions@.map_values(|r: OverlayRegion| region_view(r)) =~= p2.regions@.map_values(
        |r: OverlayRegion| region_view(r),
    ));
    if m.len() >= 2 {
        assert(share_class_view(p1.share_classes@[0]) == share_class_view(p2.share_classes@[0]));
    }
    assert(p1.share_classes@.len() == p2.share_classes@.len());
    assert(p1.share_classes@.map_values(|c: OverlayShareClass| share_class_view(c)) =~= p2.share_classes@.map_values(
        |c: OverlayShareClass| share_class_view(c),
    ));
}

/// The overlay plan does not depend on the order in which the ROM window
/// plan lists its overlay demand, as long as no two different residents are
/// demanded under one identifier.
pub proof fn lemma_overlay_plan_ignores_demand_order(
    i1: OverlayPlanInputs,
    i2: OverlayPlanInputs,
    o1: OverlayPlanOutput,
    o2: OverlayPlanOutput,
)
    requires
        same_but_demand_order(i1, i2),
        ids_unambiguous(demand_residents(i1.rom_window_plan).to_multiset()),
        overlay_plan_built(i1, o1),
        overlay_plan_built(i2, o2),
    ensures
        same_overlay_output(o1, o2),
{
    assert(i1.input_identity.spec_hashes() == i2.input_identity.spec_hashes());
    assert(preflight_failure(i1) == preflight_failure(i2));
    let mismatches = hash_mismatches(overlay_input_products(), i1.input_identity.spec_hashes(), i1.expected_input_hashes);
    if mismatches.len() > 0 {
        assert(o1.diagnostics@ == o2.diagnostics@);
    } else if preflight_failure(i1) is Some {
        assert(o1.diagnostics@ == o2.diagnostics@);
    } else {
        let m1 = sorted_members(demand_residents(i1.rom_window_plan));
        let m2 = sorted_members(demand_residents(i2.rom_window_plan));
        lemma_sorted_members_unique(m1, m2);
        assert(member_failure(i1, m1) == member_failure(i2, m2));
        match member_failure(i1, m1) {
            Some(diagnostic) => {
                assert(o1.diagnostics@ == o2.diagnostics@);
            },
            None => {
                lemma_same_success(i1, i2, o1, o2, m1);
            },
        }
    }
}

} // verus!
