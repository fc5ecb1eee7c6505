//! The storage decisions that arena planning consumes: where each value
//! lives and for how long.

use vstd::prelude::*;
use crate::ids::{AliasClassId, CommitGroupId, PersistPageId, ValueId};

verus! {

/// The memory class a value is stored in.
#[derive(Clone, Copy, Debug, PartialEq, Eq, Structural, Hash, PartialOrd, Ord)]
pub enum StorageClass {
    WramHot,
    HramHot,
    SramPaged,
    RomConst,
}

/// How long a stored value must stay live.
#[derive(Clone, Copy, Debug, PartialEq, Eq, Structural, Hash, PartialOrd, Ord)]
pub enum LifetimeClass {
    Slice,
    ResumeWindow,
    Token,
    Session,
    Persistent,
}

/// How a value is kept between its producer and its consumers.
#[derive(Clone, Copy, Debug, PartialEq, Eq, Structural, Hash)]
pub enum Materialization {
    Recompute,
    Persist { page: PersistPageId, commit_group: CommitGroupId },
    Materialize { class: StorageClass, lifetime: LifetimeClass },
}

/// The storage decision for one value.
#[derive(Clone, Copy, Debug, PartialEq, Eq, Structural, Hash)]
pub struct StorageBinding {
    pub value: ValueId,
    pub alias_class: AliasClassId,
    pub materialization: Materialization,
}

} // verus!
