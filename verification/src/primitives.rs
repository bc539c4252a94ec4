use vstd::prelude::*;

verus! {

/// Index of an account in the account tree.
#[derive(Clone, Copy, Debug, PartialEq, Eq, Hash, Structural)]
pub struct AccountId(pub u32);

/// Identifier of a token: a fungible token or a non-fungible one.
#[derive(Clone, Copy, Debug, PartialEq, Eq, Hash, Structural)]
pub struct TokenId(pub u32);

/// Per-account counter of authored transactions.
#[derive(Clone, Copy, Debug, PartialEq, Eq, Hash, Structural)]
pub struct Nonce(pub u32);

/// Whether two byte arrays of the same length hold the same bytes.
pub fn bytes_equal<const N: usize>(a: &[u8; N], b: &[u8; N]) -> (r: bool)
    ensures
        r == (*a == *b),
{
    let mut i: usize = 0;
    while i < N
        invariant
            i <= N,
            forall|j: int| 0 <= j < i ==> a@[j] == b@[j],
        decreases N - i,
    {
        if a[i] != b[i] {
            return false;
        }
        i += 1;
    }
    assert(*a =~= *b);
    true
}

/// A 20-byte base-layer address.
#[derive(Clone, Copy, Debug, Eq, Hash)]
pub struct Address {
    pub bytes: [u8; 20],
}

impl PartialEq for Address {
    fn eq(&self, other: &Address) -> (r: bool) {
        bytes_equal(&self.bytes, &other.bytes)
    }
}

impl vstd::std_specs::cmp::PartialEqSpecImpl for Address {
    open spec fn obeys_eq_spec() -> bool {
        true
    }

    open spec fn eq_spec(&self, other: &Address) -> bool {
        *self == *other
    }
}

impl Address {
    /// The address whose bytes are all zero.
    pub fn zero() -> (r: Address)
        ensures
            r.bytes@ == Seq::new(20, |i: int| 0u8),
    {
        let r = Address { bytes: [0u8; 20] };
        r
    }

    /// The address made of the twenty bytes of `src`.
    pub fn from_slice(src: &[u8]) -> (r: Address)
        requires
            src@.len() == 20,
        ensures
            r.bytes@ == src@,
    {
        let mut bytes = [0u8; 20];
        let mut i: usize = 0;
        while i < 20
            invariant
                i <= 20,
                src@.len() == 20,
                forall|j: int| 0 <= j < i ==> bytes@[j] == src@[j],
            decreases 20 - i,
        {
            bytes[i] = src[i];
            i += 1;
        }
        Address { bytes }
    }
}

/// A 32-byte value: a content hash or a token digest.
#[derive(Clone, Copy, Debug, Eq, Hash)]
pub struct H256 {
    pub bytes: [u8; 32],
}

impl PartialEq for H256 {
    fn eq(&self, other: &H256) -> (r: bool) {
        bytes_equal(&self.bytes, &other.bytes)
    }
}

impl vstd::std_specs::cmp::PartialEqSpecImpl for H256 {
    open spec fn obeys_eq_spec() -> bool {
        true
    }

    open spec fn eq_spec(&self, other: &H256) -> bool {
        *self == *other
    }
}

impl Default for H256 {
    fn default() -> (r: H256)
        ensures
            r.bytes@ == Seq::new(32, |i: int| 0u8),
    {
        let r = H256 { bytes: [0u8; 32] };
        r
    }
}

/// Hash of the public key that may sign for an account.
#[derive(Clone, Copy, Debug, Eq, Hash)]
pub struct PubKeyHash {
    pub data: [u8; 20],
}

impl PartialEq for PubKeyHash {
    fn eq(&self, other: &PubKeyHash) -> (r: bool) {
        bytes_equal(&self.data, &other.data)
    }
}

impl vstd::std_specs::cmp::PartialEqSpecImpl for PubKeyHash {
    open spec fn obeys_eq_spec() -> bool {
        true
    }

    open spec fn eq_spec(&self, other: &PubKeyHash) -> bool {
        *self == *other
    }
}

/// A signature of the base layer: 65 bytes.
#[derive(Clone, Copy, Debug, Eq, Hash)]
pub struct PackedEthSignature {
    pub bytes: [u8; 65],
}

impl PartialEq for PackedEthSignature {
    fn eq(&self, other: &PackedEthSignature) -> (r: bool) {
        bytes_equal(&self.bytes, &other.bytes)
    }
}

impl vstd::std_specs::cmp::PartialEqSpecImpl for PackedEthSignature {
    open spec fn obeys_eq_spec() -> bool {
        true
    }

    open spec fn eq_spec(&self, other: &PackedEthSignature) -> bool {
        *self == *other
    }
}

} // verus!
