//! Ledger identities and the deterministic derivation of record addresses.

use anchor_lang::prelude::Pubkey;
use vstd::prelude::*;
use vstd::std_specs::cmp::PartialEqSpecImpl;

verus! {

/// A 32-byte identity on the ledger: a party, an asset, a program or a record.
#[derive(Clone, Copy, Debug)]
pub struct Address {
    pub bytes: [u8; 32],
}

impl View for Address {
    type V = Seq<u8>;

    open spec fn view(&self) -> Seq<u8> {
        self.bytes@
    }
}

impl PartialEq for Address {
    fn eq(&self, other: &Self) -> (same: bool) {
        let mut i: usize = 0;
        while i < 32
            invariant
                i <= 32,
                forall|j: int| 0 <= j < i ==> self.bytes@[j] == other.bytes@[j],
            decreases 32 - i,
        {
            if self.bytes[i] != other.bytes[i] {
                return false;
            }
            i += 1;
        }
        assert(self.bytes =~= other.bytes);
        true
    }
}

impl PartialEqSpecImpl for Address {
    open spec fn obeys_eq_spec() -> bool {
        true
    }

    open spec fn eq_spec(&self, other: &Self) -> bool {
        *self == *other
    }
}

impl Eq for Address {

}

impl Default for Address {
    /// The identity of 32 zero bytes.
    fn default() -> (address: Address)
        ensures
            forall|i: int| 0 <= i < 32 ==> address@[i] == 0,
    {
        Address { bytes: [0; 32] }
    }
}

impl Address {
    /// The identity made of the given bytes.
    pub fn new(bytes: [u8; 32]) -> (address: Address)
        ensures
            address.bytes == bytes,
    {
        Address { bytes }
    }

    /// The bytes of the identity, as a seed for a derivation.
    pub fn to_seed(&self) -> (seed: Vec<u8>)
        ensures
            seed@ == self@,
    {
        let mut seed: Vec<u8> = Vec::new();
        let mut i: usize = 0;
        while i < 32
            invariant
                i <= 32,
                seed@ == self@.take(i as int),
            decreases 32 - i,
        {
            seed.push(self.bytes[i]);
            i += 1;
        }
        seed
    }
}

/// The identity whose bytes are the given ones.
pub closed spec fn address_of(bytes: Seq<u8>) -> Address {
    choose|a: Address| a@ == bytes
}

/// Every identity is the one that its own bytes name.
pub proof fn lemma_address_of(a: Address)
    ensures
        address_of(a@) == a,
{
    lemma_address_by_bytes(address_of(a@), a);
}

/// Two identities with the same bytes are the same identity.
pub proof fn lemma_address_by_bytes(a: Address, b: Address)
    ensures
        a@ == b@ <==> a == b,
        a@.len() == 32,
{
    if a@ == b@ {
        assert(a.bytes =~= b.bytes);
    }
}

/// The address and the tag byte that `Pubkey::try_find_program_address`
/// derives from a sequence of seeds under a program's namespace, or `None`
/// where it finds no address.
pub uninterp spec fn program_address(seeds: Seq<Seq<u8>>, program: Seq<u8>) -> Option<(Seq<u8>, u8)>;

/// Calls `Pubkey::try_find_program_address` on the seeds and the program's
/// identity. The contract claims only that the outcome is the one named by
/// [`program_address`] for the same bytes: the derivation is a fixed function
/// of its arguments.
#[verifier::external_body]
pub(crate) fn find_program_address(seeds: &Vec<Vec<u8>>, program: &Address) -> (found: Option<(Address, u8)>)
    ensures
        match found {
            Some((address, tag)) => program_address(seeds.deep_view(), program@) == Some((address@, tag)),
            None => program_address(seeds.deep_view(), program@) is None,
        },
{
    let parts: Vec<&[u8]> = seeds.iter().map(|seed| seed.as_slice()).collect();
    match Pubkey::try_find_program_address(&parts, &Pubkey::new_from_array(program.bytes)) {
        Some((key, tag)) => Some((Address { bytes: key.to_bytes() }, tag)),
        None => None,
    }
}

/// The address and tag derived from the seeds under the program's namespace.
pub open spec fn derived(seeds: Seq<Seq<u8>>, program: Address) -> Option<(Address, u8)> {
    match program_address(seeds, program@) {
        Some((bytes, tag)) => Some((address_of(bytes), tag)),
        None => None,
    }
}

/// Derives an address and its tag from the seeds under the program's
/// namespace.
pub fn derive_address(seeds: &Vec<Vec<u8>>, program: &Address) -> (found: Option<(Address, u8)>)
    ensures
        found == derived(seeds.deep_view(), *program),
{
    let found = find_program_address(seeds, program);
    proof {
        if let Some((address, _)) = found {
            lemma_address_of(address);
        }
    }
    found
}

/// The namespace of the exchange: the identity under which offers are derived.
pub open spec fn exchange_program() -> Address {
    address_of(
        seq![
            126u8, 50, 209, 199, 153, 68, 94, 183, 58, 91, 97, 123, 116, 80, 8, 187,
            251, 173, 183, 216, 140, 222, 182, 56, 152, 34, 107, 35, 108, 18, 3, 235,
        ],
    )
}

/// The identity of the asset-transfer service, a seed of every holding's address.
pub open spec fn token_program() -> Address {
    address_of(
        seq![
            6u8, 221, 246, 225, 215, 101, 161, 147, 217, 203, 225, 70, 206, 235, 121, 172,
            28, 180, 133, 237, 95, 91, 55, 145, 58, 140, 245, 133, 126, 255, 0, 169,
        ],
    )
}

/// The namespace under which the addresses of holdings are derived.
pub open spec fn associated_token_program() -> Address {
    address_of(
        seq![
            140u8, 151, 37, 143, 78, 36, 137, 241, 187, 61, 16, 41, 20, 142, 13, 131,
            11, 90, 19, 153, 218, 255, 16, 132, 4, 142, 123, 216, 219, 233, 248, 89,
        ],
    )
}

/// The namespace of the exchange.
pub fn exchange_program_id() -> (id: Address)
    ensures
        id == exchange_program(),
{
    let id = Address {
        bytes: [
            126, 50, 209, 199, 153, 68, 94, 183, 58, 91, 97, 123, 116, 80, 8, 187,
            251, 173, 183, 216, 140, 222, 182, 56, 152, 34, 107, 35, 108, 18, 3, 235,
        ],
    };
    proof {
        assert(id@ =~= seq![
            126u8, 50, 209, 199, 153, 68, 94, 183, 58, 91, 97, 123, 116, 80, 8, 187,
            251, 173, 183, 216, 140, 222, 182, 56, 152, 34, 107, 35, 108, 18, 3, 235,
        ]);
        lemma_address_of(id);
    }
    id
}

/// The identity of the asset-transfer service.
pub fn token_program_id() -> (id: Address)
    ensures
        id == token_program(),
{
    let id = Address {
        bytes: [
            6, 221, 246, 225, 215, 101, 161, 147, 217, 203, 225, 70, 206, 235, 121, 172,
            28, 180, 133, 237, 95, 91, 55, 145, 58, 140, 245, 133, 126, 255, 0, 169,
        ],
    };
    proof {
        assert(id@ =~= seq![
            6u8, 221, 246, 225, 215, 101, 161, 147, 217, 203, 225, 70, 206, 235, 121, 172,
            28, 180, 133, 237, 95, 91, 55, 145, 58, 140, 245, 133, 126, 255, 0, 169,
        ]);
        lemma_address_of(id);
    }
    id
}

/// The namespace under which the addresses of holdings are derived.
pub fn associated_token_program_id() -> (id: Address)
    ensures
        id == associated_token_program(),
{
    let id = Address {
        bytes: [
            140, 151, 37, 143, 78, 36, 137, 241, 187, 61, 16, 41, 20, 142, 13, 131,
            11, 90, 19, 153, 218, 255, 16, 132, 4, 142, 123, 216, 219, 233, 248, 89,
        ],
    };
    proof {
        assert(id@ =~= seq![
            140u8, 151, 37, 143, 78, 36, 137, 241, 187, 61, 16, 41, 20, 142, 13, 131,
            11, 90, 19, 153, 218, 255, 16, 132, 4, 142, 123, 216, 219, 233, 248, 89,
        ]);
        lemma_address_of(id);
    }
    id
}

/// The first seed of every offer's address: the ASCII word "offer".
pub open spec fn offer_tag() -> Seq<u8> {
    seq![111u8, 102, 102, 101, 114]
}

/// The seeds of the offer that `maker` publishes under `id`: the word
/// "offer", the maker's bytes, and the identifier in little-endian order.
pub open spec fn offer_seeds(maker: Address, id: u64) -> Seq<Seq<u8>> {
    seq![offer_tag(), maker@, vstd::bytes::spec_u64_to_le_bytes(id)]
}

/// The address of the offer that `maker` publishes under `id`, with the tag
/// byte that completes its derivation.
pub open spec fn offer_address_of(maker: Address, id: u64) -> Option<(Address, u8)> {
    derived(offer_seeds(maker, id), exchange_program())
}

/// The seeds of the holding in which `owner` keeps `asset`.
pub open spec fn holding_seeds(owner: Address, asset: Address) -> Seq<Seq<u8>> {
    seq![owner@, token_program()@, asset@]
}

/// The address of the holding in which `owner` keeps `asset`.
pub open spec fn holding_address_of(owner: Address, asset: Address) -> Option<Address> {
    match derived(holding_seeds(owner, asset), associated_token_program()) {
        Some((address, _)) => Some(address),
        None => None,
    }
}

/// Seeds are plain bytes: read element by element they are what they hold.
pub(crate) proof fn lemma_seeds_plain(seeds: Vec<Vec<u8>>)
    ensures
        seeds.deep_view().len() == seeds@.len(),
        forall|i: int| 0 <= i < seeds@.len() ==> #[trigger] seeds.deep_view()[i] == seeds@[i]@,
{
}

/// Derives the address of the offer that `maker` publishes under `id`.
pub fn offer_address(maker: &Address, id: u64) -> (found: Option<(Address, u8)>)
    ensures
        found == offer_address_of(*maker, id),
{
    let mut seeds: Vec<Vec<u8>> = Vec::new();
    seeds.push(vec![111u8, 102, 102, 101, 114]);
    seeds.push(maker.to_seed());
    seeds.push(vstd::bytes::u64_to_le_bytes(id));
    proof {
        lemma_seeds_plain(seeds);
        assert(seeds.deep_view() =~= offer_seeds(*maker, id));
    }
    derive_address(&seeds, &exchange_program_id())
}

/// Derives the address of the holding in which `owner` keeps `asset`.
pub fn holding_address(owner: &Address, asset: &Address) -> (found: Option<Address>)
    ensures
        found == holding_address_of(*owner, *asset),
{
    let mut seeds: Vec<Vec<u8>> = Vec::new();
    seeds.push(owner.to_seed());
    seeds.push(token_program_id().to_seed());
    seeds.push(asset.to_seed());
    proof {
        lemma_seeds_plain(seeds);
        assert(seeds.deep_view() =~= holding_seeds(*owner, *asset));
    }
    match derive_address(&seeds, &associated_token_program_id()) {
        Some((address, _)) => Some(address),
        None => None,
    }
}

} // verus!
