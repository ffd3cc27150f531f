//! Creation of the mint.
use vstd::prelude::*;
use crate::error::VaultError;

verus! {

/// The accounts of the instruction that creates the mint with six decimals
/// and the signer as mint authority; the creation itself is done by the
/// account constraints, so the instruction has no logic of its own.
#[derive(Clone, Copy, Debug)]
pub struct MintToken {
    pub user: [u8; 32],
    pub mint: [u8; 32],
}

impl MintToken {
    /// Succeeds without further work.
    pub fn init_mint(&mut self) -> (r: Result<(), VaultError>)
        ensures
            r is Ok,
            *final(self) == *old(self),
    {
        Ok(())
    }
}

} // verus!
