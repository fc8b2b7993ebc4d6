use vstd::prelude::*;
use solana_program::pubkey::Pubkey;

verus! {

/// The outcome of the host's program-derived-address search for a greeting
/// record: a deterministic, collision-resistant function of the program
/// namespace, the paying principal's key, and the record's name. It carries
/// no meaning beyond determinism: the same inputs always yield the same
/// outcome, so callers can compute the address off-line.
pub uninterp spec fn derive_of(program: Seq<u8>, payer: Seq<u8>, name: Seq<u8>) -> Option<Seq<u8>>;

/// Relies on `solana_program::pubkey::Pubkey::try_find_program_address`:
/// off the ledger it hashes the seeds and program id with SHA-256, trying
/// bump seeds from high to low, so its outcome is a function of the
/// arguments alone; it returns `None` only when no bump seed yields a
/// valid address (for example, when a seed exceeds the 32-byte seed
/// limit). A returned address is always 32 bytes.
#[verifier::external_body]
fn try_derive(program_id: &Vec<u8>, payer: &Vec<u8>, name: &Vec<u8>) -> (r: Option<Vec<u8>>)
    requires
        program_id@.len() == 32,
        payer@.len() == 32,
    ensures
        match r {
            Some(a) => derive_of(program_id@, payer@, name@) == Some(a@) && a@.len() == 32,
            None => derive_of(program_id@, payer@, name@) is None,
        },
{
    let program = Pubkey::try_from(program_id.as_slice()).unwrap();
    let seeds: [&[u8]; 2] = [payer.as_slice(), name.as_slice()];
    Pubkey::try_find_program_address(&seeds, &program).map(|(addr, _bump)| {
        addr.to_bytes().to_vec()
    })
}

/// Derives the storage address of the greeting record that `payer` would
/// create under `name`. Deterministic: two computations on the same inputs
/// return the same address, so a caller can compute the address before
/// invoking the program. Returns `None` only in the statistically
/// improbable event that no address exists for these seeds, or when `name`
/// exceeds the host's 32-byte seed limit.
pub fn derive_address(program_id: &Vec<u8>, payer: &Vec<u8>, name: &Vec<u8>) -> (r: Option<
    Vec<u8>,
>)
    requires
        program_id@.len() == 32,
        payer@.len() == 32,
    ensures
        match r {
            Some(a) => derive_of(program_id@, payer@, name@) == Some(a@) && a@.len() == 32,
            None => derive_of(program_id@, payer@, name@) is None,
        },
{
    try_derive(program_id, payer, name)
}

} // verus!
