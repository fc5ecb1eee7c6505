//! Identifiers shared by the planning stages.

use vstd::prelude::*;

verus! {

/// A 256-bit content hash, held as four 64-bit words.
#[derive(Clone, Copy, Debug, PartialEq, Eq, Structural, Hash, PartialOrd, Ord)]
pub struct Hash256 {
    pub w0: u64,
    pub w1: u64,
    pub w2: u64,
    pub w3: u64,
}

impl Hash256 {
    /// The all-zero hash, the placeholder of a hash not yet computed.
    pub open spec fn spec_zero() -> Hash256 {
        Hash256 { w0: 0, w1: 0, w2: 0, w3: 0 }
    }

    pub fn zero() -> (hash: Hash256)
        ensures
            hash == Hash256::spec_zero(),
    {
        Hash256 { w0: 0, w1: 0, w2: 0, w3: 0 }
    }

    /// The hash that 32 bytes hold, read as four big-endian words.
    pub open spec fn spec_from_bytes(bytes: Seq<u8>) -> Hash256 {
        Hash256 {
            w0: be_word(bytes, 0) as u64,
            w1: be_word(bytes, 8) as u64,
            w2: be_word(bytes, 16) as u64,
            w3: be_word(bytes, 24) as u64,
        }
    }

    /// The hash of 32 bytes, read as four big-endian words.
    pub fn from_bytes(bytes: &[u8]) -> (hash: Hash256)
        requires
            bytes@.len() == 32,
        ensures
            hash == Hash256::spec_from_bytes(bytes@),
            hash.w0 == be_word(bytes@, 0),
            hash.w1 == be_word(bytes@, 8),
            hash.w2 == be_word(bytes@, 16),
            hash.w3 == be_word(bytes@, 24),
    {
        Hash256 {
            w0: read_be_word(bytes, 0),
            w1: read_be_word(bytes, 8),
            w2: read_be_word(bytes, 16),
            w3: read_be_word(bytes, 24),
        }
    }
}

/// The big-endian value of the 8 bytes of `bytes` from `at` on.
pub open spec fn be_word(bytes: Seq<u8>, at: int) -> int
    decreases 8int,
{
    be_prefix(bytes, at, 8)
}

/// The big-endian value of the `n` bytes of `bytes` from `at` on.
pub open spec fn be_prefix(bytes: Seq<u8>, at: int, n: nat) -> int
    decreases n,
{
    if n == 0 {
        0
    } else {
        be_prefix(bytes, at, (n - 1) as nat) * 256 + bytes[at + n - 1]
    }
}

spec fn pow256(n: nat) -> int
    decreases n,
{
    if n == 0 {
        1
    } else {
        pow256((n - 1) as nat) * 256
    }
}

proof fn lemma_be_prefix_bound(bytes: Seq<u8>, at: int, n: nat)
    requires
        0 <= at,
        at + n <= bytes.len(),
    ensures
        0 <= be_prefix(bytes, at, n) < pow256(n),
    decreases n,
{
    if n > 0 {
        lemma_be_prefix_bound(bytes, at, (n - 1) as nat);
        let p = pow256((n - 1) as nat);
        let v = be_prefix(bytes, at, (n - 1) as nat);
        let b = bytes[at + n - 1];
        assert(0 <= v * 256 + b < p * 256) by (nonlinear_arith)
            requires
                0 <= v < p,
                0 <= b < 256,
        ;
    }
}

proof fn lemma_pow256_monotone(n: nat)
    requires
        n <= 7,
    ensures
        pow256(n) <= 0x100000000000000,
    decreases 7 - n,
{
    if n == 7 {
        reveal_with_fuel(pow256, 8);
    } else {
        lemma_pow256_monotone(n + 1);
        assert(pow256(n + 1) == pow256(n) * 256);
    }
}

fn read_be_word(bytes: &[u8], at: usize) -> (word: u64)
    requires
        at + 8 <= bytes@.len(),
    ensures
        word == be_word(bytes@, at as int),
{
    let blen = bytes.len();
    let mut word: u64 = 0;
    let mut k: usize = 0;
    while k < 8
        invariant
            blen == bytes@.len(),
            at + 8 <= bytes@.len(),
            k <= 8,
            word == be_prefix(bytes@, at as int, k as nat),
        decreases 8 - k,
    {
        proof {
            lemma_be_prefix_bound(bytes@, at as int, k as nat);
            lemma_pow256_monotone(k as nat);
        }
        word = word * 256 + bytes[at + k] as u64;
        k = k + 1;
    }
    word
}

#[derive(Clone, Copy, Debug, PartialEq, Eq, Structural, Hash, PartialOrd, Ord)]
pub struct ValueId(pub u32);

impl ValueId {
    pub fn get(self) -> (value: u32)
        ensures
            value == self.0,
    {
        self.0
    }
}

#[derive(Clone, Copy, Debug, PartialEq, Eq, Structural, Hash, PartialOrd, Ord)]
pub struct PageId(pub u32);

#[derive(Clone, Copy, Debug, PartialEq, Eq, Structural, Hash, PartialOrd, Ord)]
pub struct SequenceStreamId(pub u32);

#[derive(Clone, Copy, Debug, PartialEq, Eq, Structural, Hash, PartialOrd, Ord)]
pub struct CommitGroupId(pub u32);

#[derive(Clone, Copy, Debug, PartialEq, Eq, Structural, Hash, PartialOrd, Ord)]
pub struct PersistPageId(pub u32);

#[derive(Clone, Copy, Debug, PartialEq, Eq, Structural, Hash, PartialOrd, Ord)]
pub struct AliasClassId(pub u32);

/// Identifier of a kernel specification.
#[derive(Clone, Debug, PartialEq, Eq, Hash, PartialOrd, Ord)]
pub struct KernelSpecId(pub String);

/// Identifier of a lookup-table instance.
#[derive(Clone, Debug, PartialEq, Eq, Hash, PartialOrd, Ord)]
pub struct LutInstanceId(pub String);

/// Identifier of a target profile.
#[derive(Clone, Debug, PartialEq, Eq, Hash)]
pub struct TargetProfileId(pub String);

impl TargetProfileId {
    pub fn duplicate(&self) -> (copy: TargetProfileId)
        ensures
            copy == *self,
    {
        TargetProfileId(self.0.clone())
    }
}

/// Identifier of a compile profile.
#[derive(Clone, Debug, PartialEq, Eq, Hash)]
pub struct CompileProfileId(pub String);

/// A schema version.
#[derive(Clone, Copy, Debug, PartialEq, Eq, Structural, Hash)]
pub struct SemVer {
    pub major: u16,
    pub minor: u16,
    pub patch: u16,
}

/// Whether a product was built deterministically.
#[derive(Clone, Copy, Debug, PartialEq, Eq, Structural, Hash)]
pub enum DeterminismClass {
    Deterministic,
}

} // verus!
