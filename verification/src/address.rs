//! Addresses that are derived from seeds and a program, and so have no
//! private key: only the program can sign for them.

use crate::identity::{
    identity_of, lemma_identity_of, Identity, ASSOCIATED_TOKEN_PROGRAM_ID, TOKEN_METADATA_ID,
    TOKEN_PROGRAM_ID,
};
use vstd::prelude::*;

verus! {

/// The bytes of `metadata`, the first seed of every address of the metadata
/// registry.
pub const METADATA_SEED: [u8; 8] = [109, 101, 116, 97, 100, 97, 116, 97];

/// The bytes of `edition`, the last seed of an asset's edition account.
pub const EDITION_SEED: [u8; 7] = [101, 100, 105, 116, 105, 111, 110];

/// The bytes of `token_record`, the seed that marks the record kept for one
/// holding account of an asset.
pub const TOKEN_RECORD_SEED: [u8; 12] = [116, 111, 107, 101, 110, 95, 114, 101, 99, 111, 114, 100];

/// The address derived from `seeds` for `program`, with the bump seed that
/// made it valid, or `None` where the seeds admit no address.
pub uninterp spec fn program_address(seeds: Seq<Seq<u8>>, program: Seq<u8>) -> Option<
    (Seq<u8>, u8),
>;

/// The seeds as byte strings.
pub open spec fn seeds_view(seeds: Seq<Vec<u8>>) -> Seq<Seq<u8>> {
    Seq::new(seeds.len(), |i: int| seeds[i]@)
}

/// `Pubkey::try_find_program_address`: the first address off the curve that
/// the seeds and a bump seed, tried from 255 downwards, hash to for
/// `program`. It is `None` where there are too many seeds, one is too long, or
/// no bump seed yields such an address.
#[verifier::external_body]
pub(crate) fn try_find_program_address(seeds: &Vec<Vec<u8>>, program: &Identity) -> (r: Option<
    (Identity, u8),
>)
    ensures
        match r {
            Some((address, bump)) => program_address(seeds_view(seeds@), program@) == Some(
                (address@, bump),
            ),
            None => program_address(seeds_view(seeds@), program@) is None,
        },
{
    let seeds: Vec<&[u8]> = seeds.iter().map(|seed| seed.as_slice()).collect();
    let program = anchor_lang::prelude::Pubkey::new_from_array(program.bytes);
    match anchor_lang::prelude::Pubkey::try_find_program_address(&seeds, &program) {
        Some((address, bump)) => Some((Identity { bytes: address.to_bytes() }, bump)),
        None => None,
    }
}

/// The address alone of a derived account.
pub open spec fn derived_address(seeds: Seq<Seq<u8>>, program: Identity) -> Option<Identity> {
    match program_address(seeds, program@) {
        Some((address, _)) => Some(identity_of(address)),
        None => None,
    }
}

/// Derives the address that `seeds` give for `program`.
pub fn find_address(seeds: &Vec<Vec<u8>>, program: &Identity) -> (r: Option<Identity>)
    ensures
        r == derived_address(seeds_view(seeds@), *program),
{
    match try_find_program_address(seeds, program) {
        Some((address, _)) => {
            proof {
                lemma_identity_of(address);
            }
            Some(address)
        },
        None => None,
    }
}

/// Seeds of the holding account of `wallet` for `mint`.
pub open spec fn associated_token_seeds(wallet: Identity, mint: Identity) -> Seq<Seq<u8>> {
    seq![wallet@, TOKEN_PROGRAM_ID@, mint@]
}

/// Seeds of the edition account of the asset minted by `mint`.
pub open spec fn master_edition_seeds(mint: Identity) -> Seq<Seq<u8>> {
    seq![METADATA_SEED@, TOKEN_METADATA_ID@, mint@, EDITION_SEED@]
}

/// Seeds of the record that the metadata registry keeps for the holding
/// account `token` of the asset minted by `mint`.
pub open spec fn token_record_seeds(mint: Identity, token: Identity) -> Seq<Seq<u8>> {
    seq![METADATA_SEED@, TOKEN_METADATA_ID@, mint@, TOKEN_RECORD_SEED@, token@]
}

/// The holding account of `wallet` for `mint` under the standard token
/// program: the address derived for the associated-token program from the
/// wallet, the token program and the mint.
pub open spec fn associated_token(wallet: Identity, mint: Identity) -> Option<Identity> {
    derived_address(
        associated_token_seeds(wallet, mint),
        Identity { bytes: ASSOCIATED_TOKEN_PROGRAM_ID },
    )
}

/// The edition account of the asset minted by `mint`: the address derived for
/// the metadata registry from `metadata`, the registry, the mint and
/// `edition`.
pub open spec fn master_edition(mint: Identity) -> Option<Identity> {
    derived_address(master_edition_seeds(mint), Identity { bytes: TOKEN_METADATA_ID })
}

/// The record that the metadata registry keeps for the holding account
/// `token` of the asset minted by `mint`: the address derived for the
/// registry from `metadata`, the registry, the mint, `token_record` and the
/// holding account.
pub open spec fn token_record(mint: Identity, token: Identity) -> Option<Identity> {
    derived_address(token_record_seeds(mint, token), Identity { bytes: TOKEN_METADATA_ID })
}

/// A copy of the bytes of a slice.
pub fn seed_of(bytes: &[u8]) -> (seed: Vec<u8>)
    ensures
        seed@ == bytes@,
{
    vstd::slice::slice_to_vec(bytes)
}

/// Derives the holding account of `wallet` for `mint`.
pub fn associated_token_address(wallet: &Identity, mint: &Identity) -> (r: Option<Identity>)
    ensures
        r == associated_token(*wallet, *mint),
{
    let mut seeds: Vec<Vec<u8>> = Vec::new();
    seeds.push(wallet.to_vec());
    seeds.push(seed_of(&TOKEN_PROGRAM_ID));
    seeds.push(mint.to_vec());
    assert(seeds_view(seeds@) =~= associated_token_seeds(*wallet, *mint));
    find_address(&seeds, &Identity::new(ASSOCIATED_TOKEN_PROGRAM_ID))
}

/// Derives the edition account of the asset minted by `mint`.
pub fn master_edition_address(mint: &Identity) -> (r: Option<Identity>)
    ensures
        r == master_edition(*mint),
{
    let mut seeds: Vec<Vec<u8>> = Vec::new();
    seeds.push(seed_of(&METADATA_SEED));
    seeds.push(seed_of(&TOKEN_METADATA_ID));
    seeds.push(mint.to_vec());
    seeds.push(seed_of(&EDITION_SEED));
    assert(seeds_view(seeds@) =~= master_edition_seeds(*mint));
    find_address(&seeds, &Identity::new(TOKEN_METADATA_ID))
}

/// Derives the record that the metadata registry keeps for the holding
/// account `token` of the asset minted by `mint`.
pub fn token_record_address(mint: &Identity, token: &Identity) -> (r: Option<Identity>)
    ensures
        r == token_record(*mint, *token),
{
    let mut seeds: Vec<Vec<u8>> = Vec::new();
    seeds.push(seed_of(&METADATA_SEED));
    seeds.push(seed_of(&TOKEN_METADATA_ID));
    seeds.push(mint.to_vec());
    seeds.push(seed_of(&TOKEN_RECORD_SEED));
    seeds.push(token.to_vec());
    assert(seeds_view(seeds@) =~= token_record_seeds(*mint, *token));
    find_address(&seeds, &Identity::new(TOKEN_METADATA_ID))
}

} // verus!
