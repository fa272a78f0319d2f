use vstd::prelude::*;
use rand::Rng;
use crate::contract_error::ContractError;

verus! {

#[verifier::external_type_specification]
#[verifier::external_body]
pub struct ExOsRng(rand::OsRng);

/// Handle on the operating system's random source.
pub struct OsRandom {
    rng: rand::OsRng,
}

impl OsRandom {
    /// Opens the random source.
    pub fn new() -> (r: Option<OsRandom>) {
        match os_rng_new() {
            Some(rng) => Some(OsRandom { rng }),
            None => None,
        }
    }
}

/// Calls `rand::OsRng::new`, mapping its I/O error to `None`. Whether the
/// source opens depends on the machine, so nothing is stated of the result.
#[verifier::external_body]
fn os_rng_new() -> (r: Option<rand::OsRng>) {
    rand::OsRng::new().ok()
}

/// Calls `rand::Rng::fill_bytes` on `OsRng` over the whole of `buf`. The bytes
/// are random; the contract states only that the length is kept.
#[verifier::external_body]
fn os_rng_fill_bytes(rng: &mut rand::OsRng, buf: &mut Vec<u8>)
    ensures
        final(buf)@.len() == old(buf)@.len(),
{
    rng.fill_bytes(buf.as_mut_slice())
}

/// Overwrites `buf` with random bytes.
pub fn fill_random(rng: &mut OsRandom, buf: &mut Vec<u8>)
    ensures
        final(buf)@.len() == old(buf)@.len(),
{
    os_rng_fill_bytes(&mut rng.rng, buf)
}

/// Fills `destination` with random bytes from the operating system.
pub fn get_random_bytes(destination: &mut Vec<u8>) -> (r: Result<(), ContractError>)
    ensures
        final(destination)@.len() == old(destination)@.len(),
        r matches Err(e) ==> e.message@ == "Random bytes failed"@,
{
    let mut rng = match OsRandom::new() {
        Some(rng) => rng,
        None => return Err(ContractError::new("Random bytes failed")),
    };
    fill_random(&mut rng, destination);
    Ok(())
}

} // verus!
