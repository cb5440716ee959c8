//! Hierarchical-deterministic address derivation for the binary ledger:
//! derivation paths, and the hash of a derived public key as an address.
//!
//! The key-derivation primitive (seed and path to key pair) is an external
//! collaborator; this module builds the paths, consumes the derived public
//! keys, and hashes each into its address.

use vstd::prelude::*;

use crate::crypto::{blake2b_256, blake2b_256_of};
use crate::errors::Error;
use crate::ternary::valid_trits;

verus! {

/// The flag marking a hardened derivation-path component.
pub const HARDENED: u32 = 0x8000_0000;

/// Opaque seed material: a byte seed for digital-signature derivation, or
/// a legacy ternary seed usable only with one-time signatures.
#[derive(Debug)]
pub enum Seed {
    /// A seed for the digital-signature scheme of the binary ledger.
    Ed25519(Vec<u8>),
    /// A legacy ternary seed.
    Legacy(Vec<i8>),
}

/// An address of either ledger.
#[derive(Debug)]
pub enum Address {
    /// A binary-ledger address: the 32-byte hash of a derived public key.
    Ed25519(Vec<u8>),
    /// A legacy ternary address: a fixed-width trit digest.
    Legacy(Vec<i8>),
}

/// Whether `a` is the binary-ledger address of the public key `pk`.
pub open spec fn is_address_of_public_key(a: Address, pk: Seq<u8>) -> bool {
    match a {
        Address::Ed25519(h) => h@ == blake2b_256_of(pk),
        Address::Legacy(_) => false,
    }
}

/// Hash a derived public key into its binary-ledger address.
pub fn address_from_public_key(public_key: &Vec<u8>) -> (a: Address)
    ensures
        is_address_of_public_key(a, public_key@),
{
    let hash = blake2b_256(public_key);
    Address::Ed25519(hash)
}

/// A path component with the hardened flag set.
pub open spec fn hardened(x: int) -> u32 {
    (x + 0x8000_0000) as u32
}

/// The hardened derivation path for one address: the fixed purpose and
/// coin components, the account, the chain flag (0 external, 1 internal),
/// and the address index, every component hardened.
pub fn derivation_path(account: u32, index: u32, internal: bool) -> (r: Vec<u32>)
    requires
        account < HARDENED,
        index < HARDENED,
    ensures
        r@ =~= seq![
            hardened(44),
            hardened(4218),
            hardened(account as int),
            hardened(
                if internal {
                    1
                } else {
                    0
                },
            ),
            hardened(index as int),
        ],
{
    let mut path: Vec<u32> = Vec::new();
    path.push(44 + HARDENED);
    path.push(4218 + HARDENED);
    path.push(account + HARDENED);
    if internal {
        path.push(1 + HARDENED);
    } else {
        path.push(HARDENED);
    }
    path.push(index + HARDENED);
    path
}

/// Builder of the address-derivation API: seed, account index and index
/// range.
pub struct GetAddressesBuilder<'a> {
    /// The seed addresses are derived from.
    pub seed: &'a Seed,
    /// The account index; required before `get`.
    pub account_index: Option<usize>,
    /// The index range to derive, as (start, end); 0..20 when absent.
    pub range: Option<(usize, usize)>,
}

impl<'a> GetAddressesBuilder<'a> {
    /// The index range the builder will derive.
    pub open spec fn spec_range(self) -> (int, int) {
        match self.range {
            Some((s, e)) => (s as int, e as int),
            None => (0int, 20int),
        }
    }

    /// How many indices the range holds.
    pub open spec fn spec_range_len(self) -> int {
        let (s, e) = self.spec_range();
        if e >= s {
            e - s
        } else {
            0
        }
    }

    /// Create the builder over a seed.
    pub fn new(seed: &'a Seed) -> (r: Self)
        ensures
            r.seed == seed,
            r.account_index is None,
            r.range is None,
    {
        Self { seed, account_index: None, range: None }
    }

    /// Set the account index.
    pub fn account_index(self, account_index: usize) -> (r: Self)
        ensures
            r.seed == self.seed,
            r.account_index == Some(account_index),
            r.range == self.range,
    {
        Self { account_index: Some(account_index), ..self }
    }

    /// Set the index range.
    pub fn range(self, start: usize, end: usize) -> (r: Self)
        ensures
            r.seed == self.seed,
            r.account_index == self.account_index,
            r.range == Some((start, end)),
    {
        Self { range: Some((start, end)), ..self }
    }

    /// Consume the builder and produce the ordered address list: for every
    /// index of the range, the external then the internal address, each
    /// the hash of the matching derived public key. The keys come from the
    /// key-derivation collaborator, external then internal per index, in
    /// range order. Requires a digital-signature-capable seed; any other
    /// seed variant is caller misuse, not a recoverable error.
    pub fn get(self, public_keys: &Vec<Vec<u8>>) -> (r: Result<Vec<(Address, bool)>, Error>)
        requires
            self.seed is Ed25519,
            public_keys@.len() == 2 * self.spec_range_len(),
        ensures
            r is Err <==> self.account_index is None,
            r matches Err(e) ==> e == Error::MissingParameter,
            r matches Ok(v) ==> v@.len() == 2 * self.spec_range_len() && (forall|k: int|
                0 <= k < v@.len() ==> (#[trigger] v@[k]).1 == (k % 2 == 1)
                    && is_address_of_public_key(v@[k].0, public_keys@[k]@)),
    {
        if self.account_index.is_none() {
            return Err(Error::MissingParameter);
        }
        let (start, end) = match self.range {
            Some(r) => r,
            None => (0, 20),
        };
        let range_len = if end >= start {
            end - start
        } else {
            0
        };
        let npk = public_keys.len();
        let mut addresses: Vec<(Address, bool)> = Vec::new();
        for i in 0..range_len
            invariant
                range_len == self.spec_range_len(),
                npk == public_keys@.len(),
                public_keys@.len() == 2 * range_len,
                addresses@.len() == 2 * i,
                forall|k: int|
                    0 <= k < addresses@.len() ==> (#[trigger] addresses@[k]).1 == (k % 2 == 1)
                        && is_address_of_public_key(addresses@[k].0, public_keys@[k]@),
        {
            let address = address_from_public_key(&public_keys[2 * i]);
            let internal_address = address_from_public_key(&public_keys[2 * i + 1]);
            addresses.push((address, false));
            addresses.push((internal_address, true));
        }
        Ok(addresses)
    }
}

/// Two address lists that both satisfy `get`'s contract over the same
/// public keys are identical in length, alternation and address bytes:
/// derivation is deterministic in its inputs.
pub proof fn lemma_addresses_deterministic(
    v1: Seq<(Address, bool)>,
    v2: Seq<(Address, bool)>,
    public_keys: Seq<Seq<u8>>,
)
    requires
        v1.len() == public_keys.len(),
        v2.len() == public_keys.len(),
        forall|k: int|
            0 <= k < v1.len() ==> (#[trigger] v1[k]).1 == (k % 2 == 1) && is_address_of_public_key(
                v1[k].0,
                public_keys[k],
            ),
        forall|k: int|
            0 <= k < v2.len() ==> (#[trigger] v2[k]).1 == (k % 2 == 1) && is_address_of_public_key(
                v2[k].0,
                public_keys[k],
            ),
    ensures
        forall|k: int|
            0 <= k < v1.len() ==> (#[trigger] v1[k]).1 == v2[k].1 && address_bytes(v1[k].0)
                == address_bytes(v2[k].0),
{
    assert forall|k: int| 0 <= k < v1.len() implies (v1[k].1 == v2[k].1 && address_bytes(v1[k].0)
        == address_bytes(v2[k].0)) by {
        assert(is_address_of_public_key(v1[k].0, public_keys[k]));
        assert(is_address_of_public_key(v2[k].0, public_keys[k]));
    }
}

/// The bytes of a binary-ledger address.
pub open spec fn address_bytes(a: Address) -> Seq<u8> {
    match a {
        Address::Ed25519(h) => h@,
        Address::Legacy(t) => Seq::empty(),
    }
}

} // verus!
