use anchor_lang::prelude::Pubkey;
use vstd::prelude::*;
use vstd::utf8::encode_utf8;

verus! {

/// `Pubkey` of `solana_program`, an identity on the ledger: an account's
/// address. Declared so that records and requests can hold one; the engine
/// stores and hands on such values and never looks inside one.
#[verifier::external_type_specification]
#[verifier::external_body]
pub struct ExPubkey(Pubkey);

/// The tag under which every election's address is derived.
pub const ELECTION_SEED: [u8; 8] = [101, 108, 101, 99, 116, 105, 111, 110];

/// What `Pubkey::try_find_program_address` returns for the two seeds `tag` and
/// `key` under the program `program_id`: the derived address with its bump
/// seed, or `None` where the seeds admit none.
pub uninterp spec fn program_address(tag: Seq<u8>, key: Seq<u8>, program_id: Pubkey) -> Option<
    (Pubkey, u8),
>;

/// The address of the election called `name` under `program_id`: derived from
/// the election tag and the bytes of the name, and from nothing else.
pub open spec fn address_of(program_id: Pubkey, name: Seq<char>) -> Option<(Pubkey, u8)> {
    program_address(ELECTION_SEED@, encode_utf8(name), program_id)
}

/// Calls `Pubkey::try_find_program_address` with the seeds `tag` and `key`.
/// Trusted: the derivation hashes its arguments and searches the bump seeds
/// downward from 255, so its result is a function of the arguments alone; the
/// contract says no more than that. It returns `None` rather than panic.
#[verifier::external_body]
fn find_program_address(tag: &[u8], key: &[u8], program_id: &Pubkey) -> (found: Option<
    (Pubkey, u8),
>)
    ensures
        found == program_address(tag@, key@, *program_id),
{
    Pubkey::try_find_program_address(&[tag, key], program_id)
}

/// The address at which the record of the election called `name` is kept
/// under `program_id`, with the bump seed that completes its seeds.
pub fn election_address(program_id: &Pubkey, name: &str) -> (found: Option<(Pubkey, u8)>)
    ensures
        found == address_of(*program_id, name@),
{
    find_program_address(ELECTION_SEED.as_slice(), name.as_bytes(), program_id)
}

} // verus!
