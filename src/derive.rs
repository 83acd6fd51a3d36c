use vstd::prelude::*;

use crate::error::LendingError;
use crate::key::Key;

verus! {

/// The address and nonce that the ledger's program-address search finds for
/// `seeds` under `program`, or `None` when no nonce gives an off-curve address.
pub uninterp spec fn program_address_of(seeds: Seq<Seq<u8>>, program: Seq<u8>) -> Option<(Seq<u8>, u8)>;

/// The byte strings held in a sequence of vectors.
pub open spec fn byte_strings(v: Seq<Vec<u8>>) -> Seq<Seq<u8>> {
    v.map_values(|s: Vec<u8>| s@)
}

/// Relies on `Pubkey::try_find_program_address` (solana-pubkey, re-exported by
/// anchor-lang): it hashes the seeds, a nonce counting down from 255 and the
/// program id, and returns the first address off the signing curve with its
/// nonce; `None` if there is none. It reads nothing but its arguments.
#[verifier::external_body]
fn try_find_program_address(seeds: &Vec<Vec<u8>>, program: &Key) -> (r: Option<(Key, u8)>)
    ensures
        match r {
            Some((k, n)) => program_address_of(byte_strings(seeds@), program.bytes@) == Some((k.bytes@, n)),
            None => program_address_of(byte_strings(seeds@), program.bytes@) is None,
        },
{
    let refs: Vec<&[u8]> = seeds.iter().map(|s| s.as_slice()).collect();
    let program_id = anchor_lang::prelude::Pubkey::new_from_array(program.bytes);
    anchor_lang::prelude::Pubkey::try_find_program_address(&refs, &program_id)
        .map(|(k, n)| (Key { bytes: k.to_bytes() }, n))
}

fn copy_bytes(v: &Vec<u8>) -> (r: Vec<u8>)
    ensures
        r@ == v@,
{
    let mut r: Vec<u8> = Vec::new();
    let mut i: usize = 0;
    while i < v.len()
        invariant
            0 <= i <= v@.len(),
            r@ == v@.subrange(0, i as int),
        decreases v@.len() - i,
    {
        r.push(v[i]);
        i = i + 1;
    }
    assert(r@ =~= v@);
    r
}

/// What `derive_address` returns for a seed, its components and a program.
pub open spec fn derivation(seed: Seq<u8>, components: Seq<Seq<u8>>, program: Seq<u8>) -> Result<(Seq<u8>, u8), LendingError> {
    match program_address_of(seq![seed] + components, program) {
        Some(found) => Ok(found),
        None => Err(LendingError::AddressDerivationExhausted),
    }
}

/// Derives the address of a record from a seed naming its kind and the
/// components that identify it, under `program`.
pub fn derive_address(seed: &Vec<u8>, components: &Vec<Vec<u8>>, program: &Key) -> (r: Result<(Key, u8), LendingError>)
    ensures
        match r {
            Ok((k, n)) => derivation(seed@, byte_strings(components@), program.bytes@) == Ok::<(Seq<u8>, u8), LendingError>((k.bytes@, n)),
            Err(e) => derivation(seed@, byte_strings(components@), program.bytes@) == Err::<(Seq<u8>, u8), LendingError>(e),
        },
{
    let mut seeds: Vec<Vec<u8>> = Vec::new();
    seeds.push(copy_bytes(seed));
    assert(byte_strings(seeds@) =~= seq![seed@] + byte_strings(components@).subrange(0, 0));
    let mut i: usize = 0;
    while i < components.len()
        invariant
            0 <= i <= components@.len(),
            seeds@.len() == i + 1,
            byte_strings(seeds@) == seq![seed@] + byte_strings(components@).subrange(0, i as int),
        decreases components@.len() - i,
    {
        let c = copy_bytes(&components[i]);
        let ghost before = seeds@;
        seeds.push(c);
        proof {
            let lhs = byte_strings(seeds@);
            let rhs = seq![seed@] + byte_strings(components@).subrange(0, i + 1);
            assert(seeds@ == before.push(c));
            assert(lhs.len() == rhs.len());
            assert forall|j: int| 0 <= j < lhs.len() implies lhs[j] == rhs[j] by {
                if j < lhs.len() - 1 {
                    assert(lhs[j] == byte_strings(before)[j]);
                }
            }
            assert(lhs =~= rhs);
        }
        i = i + 1;
    }
    assert(byte_strings(components@).subrange(0, components@.len() as int) =~= byte_strings(components@));
    match try_find_program_address(&seeds, program) {
        Some(found) => Ok(found),
        None => Err(LendingError::AddressDerivationExhausted),
    }
}

/// Derivation is a function of its inputs: two derivations from the same seed,
/// components and program give the same address and nonce, or fail alike.
pub proof fn derivation_is_deterministic(seed: Seq<u8>, components: Seq<Seq<u8>>, program: Seq<u8>, r1: Result<(Seq<u8>, u8), LendingError>, r2: Result<(Seq<u8>, u8), LendingError>)
    requires
        r1 == derivation(seed, components, program),
        r2 == derivation(seed, components, program),
    ensures
        r1 == r2,
{
}

} // verus!
