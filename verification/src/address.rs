//! Stellar addresses as plain values: an account (ed25519 key) or a contract
//! (contract id), each identified by 32 bytes.
use vstd::prelude::*;

verus! {

/// Which kind of Stellar address a 32-byte key belongs to.
#[derive(Clone, Copy, Debug, PartialEq, Eq, Structural)]
pub enum AddressKind {
    /// A classic account, identified by its ed25519 public key.
    Account,
    /// A contract, identified by its contract id.
    Contract,
}

/// A Stellar address: its kind and its 32-byte key.
#[derive(Clone, Copy, Debug, PartialEq, Eq)]
pub struct Address {
    pub kind: AddressKind,
    pub key: [u8; 32],
}

impl Address {
    /// The account address with the given ed25519 public key.
    pub fn account(key: [u8; 32]) -> (a: Address)
        ensures
            a.kind == AddressKind::Account,
            a.key == key,
    {
        Address { kind: AddressKind::Account, key }
    }

    /// The contract address with the given contract id.
    pub fn contract(key: [u8; 32]) -> (a: Address)
        ensures
            a.kind == AddressKind::Contract,
            a.key == key,
    {
        Address { kind: AddressKind::Contract, key }
    }

    /// Whether two addresses are the same address.
    pub fn same(&self, other: &Address) -> (r: bool)
        ensures
            r == (*self == *other),
    {
        if self.kind != other.kind {
            return false;
        }
        let mut i: usize = 0;
        while i < 32
            invariant
                i <= 32,
                forall|j: int| 0 <= j < i ==> self.key[j] == other.key[j],
            decreases 32 - i,
        {
            if self.key[i] != other.key[i] {
                return false;
            }
            i = i + 1;
        }
        assert(self.key =~= other.key);
        true
    }
}

/// Whether two 32-byte digests are equal.
pub fn same_digest(a: &[u8; 32], b: &[u8; 32]) -> (r: bool)
    ensures
        r == (*a == *b),
{
    let mut i: usize = 0;
    while i < 32
        invariant
            i <= 32,
            forall|j: int| 0 <= j < i ==> a[j] == b[j],
        decreases 32 - i,
    {
        if a[i] != b[i] {
            return false;
        }
        i = i + 1;
    }
    assert(*a =~= *b);
    true
}

} // verus!
