//! Fixed-width identifiers: the 256-bit values of the proof-of-work side,
//! the hash values of the proof-of-stake ledger, account addresses and peer
//! ids. Each is a plain byte array, and two values are equal exactly when
//! their bytes are.

use vstd::prelude::*;

verus! {

/// Compares two byte arrays of the same width.
pub fn bytes_equal<const N: usize>(a: &[u8; N], b: &[u8; N]) -> (same: bool)
    ensures
        same == (*a == *b),
{
    let mut i: usize = 0;
    while i < N
        invariant
            i <= N,
            forall|k: int| 0 <= k < i ==> a[k] == b[k],
        decreases N - i,
    {
        if a[i] != b[i] {
            return false;
        }
        i += 1;
    }
    proof {
        assert(*a =~= *b);
    }
    true
}

/// The array that holds the 32 bytes of `s`.
pub open spec fn array32(s: Seq<u8>) -> [u8; 32] {
    choose|a: [u8; 32]| a@ == s
}

spec fn array32_prefix(s: Seq<u8>, n: nat) -> [u8; 32]
    decreases n,
{
    if n == 0 {
        vstd::array::spec_array_fill_for_copy_type::<u8, 32>(0u8)
    } else {
        vstd::array::spec_array_update(array32_prefix(s, (n - 1) as nat), n - 1, s[n - 1])
    }
}

proof fn lemma_array32_prefix(s: Seq<u8>, n: nat)
    requires
        n <= 32,
        s.len() == 32,
    ensures
        forall|k: int| 0 <= k < n ==> array32_prefix(s, n)@[k] == s[k],
    decreases n,
{
    if n > 0 {
        lemma_array32_prefix(s, (n - 1) as nat);
    }
}

/// Every sequence of 32 bytes is held by one array, and `array32` names it.
pub proof fn lemma_array32(s: Seq<u8>)
    requires
        s.len() == 32,
    ensures
        array32(s)@ == s,
        forall|a: [u8; 32]| a@ == s ==> a == array32(s),
{
    lemma_array32_prefix(s, 32);
    let witness = array32_prefix(s, 32);
    assert(witness@ =~= s);
    assert forall|a: [u8; 32]| a@ == s implies a == array32(s) by {
        assert(a =~= array32(s));
    }
}

/// Copies the 32 bytes of `src` that start at `offset` into an array.
pub fn array_from_slice(src: &[u8], offset: usize) -> (out: [u8; 32])
    requires
        offset + 32 <= src@.len(),
    ensures
        out@ == src@.subrange(offset as int, offset + 32),
        out == array32(src@.subrange(offset as int, offset + 32)),
{
    let len: usize = src.len();
    let mut out: [u8; 32] = [0u8; 32];
    let mut i: usize = 0;
    while i < 32
        invariant
            i <= 32,
            len == src@.len(),
            offset + 32 <= len,
            forall|k: int| 0 <= k < i ==> out[k] == src@[offset + k],
        decreases 32 - i,
    {
        out[i] = src[offset + i];
        i += 1;
    }
    proof {
        assert(out@ =~= src@.subrange(offset as int, offset + 32));
        lemma_array32(src@.subrange(offset as int, offset + 32));
    }
    out
}

/// A 256-bit value as the proof-of-work side writes it: block hashes, the
/// ids of proof-of-stake blocks and the ids of validators.
#[derive(Clone, Copy, Debug)]
pub struct H256 {
    pub bytes: [u8; 32],
}

/// The id of a committed proof-of-stake block.
pub type PosBlockId = H256;

/// The id of a validator as the proof-of-work side knows it.
pub type NodeId = H256;

impl H256 {
    pub fn new(bytes: [u8; 32]) -> (h: H256)
        ensures
            h.bytes == bytes,
    {
        H256 { bytes }
    }

    /// The value whose bytes are those of `src`, which must hold exactly 32.
    pub fn from_slice(src: &[u8]) -> (h: H256)
        requires
            src@.len() == 32,
        ensures
            h.bytes@ == src@,
    {
        let bytes = array_from_slice(src, 0);
        proof {
            assert(src@.subrange(0, 32) =~= src@);
        }
        H256 { bytes }
    }

    pub fn to_fixed_bytes(&self) -> (bytes: [u8; 32])
        ensures
            bytes == self.bytes,
    {
        self.bytes
    }
}

impl PartialEq for H256 {
    fn eq(&self, other: &H256) -> (same: bool) {
        bytes_equal(&self.bytes, &other.bytes)
    }
}

impl Eq for H256 {

}

impl vstd::std_specs::cmp::PartialEqSpecImpl for H256 {
    open spec fn obeys_eq_spec() -> bool {
        true
    }

    open spec fn eq_spec(&self, other: &H256) -> bool {
        self.bytes == other.bytes
    }
}

/// A hash as the proof-of-stake ledger writes it. A committed block is
/// stored under the hash whose bytes are those of its id.
#[derive(Clone, Copy, Debug)]
pub struct HashValue {
    pub hash: [u8; 32],
}

impl HashValue {
    pub fn new(hash: [u8; 32]) -> (h: HashValue)
        ensures
            h.hash == hash,
    {
        HashValue { hash }
    }
}

impl PartialEq for HashValue {
    fn eq(&self, other: &HashValue) -> (same: bool) {
        bytes_equal(&self.hash, &other.hash)
    }
}

impl Eq for HashValue {

}

impl vstd::std_specs::cmp::PartialEqSpecImpl for HashValue {
    open spec fn obeys_eq_spec() -> bool {
        true
    }

    open spec fn eq_spec(&self, other: &HashValue) -> bool {
        self.hash == other.hash
    }
}

/// The address of an account on the proof-of-stake chain. A validator's
/// address has the bytes of its node id, and a peer's address has the bytes
/// of the hash of its peer id.
#[derive(Clone, Copy, Debug)]
pub struct AccountAddress {
    pub bytes: [u8; 32],
}

impl AccountAddress {
    pub fn new(bytes: [u8; 32]) -> (a: AccountAddress)
        ensures
            a.bytes == bytes,
    {
        AccountAddress { bytes }
    }
}

impl PartialEq for AccountAddress {
    fn eq(&self, other: &AccountAddress) -> (same: bool) {
        bytes_equal(&self.bytes, &other.bytes)
    }
}

impl Eq for AccountAddress {

}

impl vstd::std_specs::cmp::PartialEqSpecImpl for AccountAddress {
    open spec fn obeys_eq_spec() -> bool {
        true
    }

    open spec fn eq_spec(&self, other: &AccountAddress) -> bool {
        self.bytes == other.bytes
    }
}

/// The id of a peer on the network: its 512-bit public key.
#[derive(Clone, Copy, Debug)]
pub struct H512 {
    pub bytes: [u8; 64],
}

impl H512 {
    pub fn new(bytes: [u8; 64]) -> (h: H512)
        ensures
            h.bytes == bytes,
    {
        H512 { bytes }
    }
}

impl PartialEq for H512 {
    fn eq(&self, other: &H512) -> (same: bool) {
        bytes_equal(&self.bytes, &other.bytes)
    }
}

impl Eq for H512 {

}

impl vstd::std_specs::cmp::PartialEqSpecImpl for H512 {
    open spec fn obeys_eq_spec() -> bool {
        true
    }

    open spec fn eq_spec(&self, other: &H512) -> bool {
        self.bytes == other.bytes
    }
}

} // verus!
