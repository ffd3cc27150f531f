//! Creation of the vault's accounts.
use vstd::prelude::*;
use crate::error::VaultError;
use crate::state::{Balance, Config, Whitelist};

verus! {

/// Bump seeds of the accounts created by `init`.
#[derive(Clone, Copy, Debug)]
pub struct InitializeWhitelistBumps {
    pub config: u8,
    pub whitelist: u8,
    pub balance: u8,
}

/// The accounts created when the vault is set up.
#[derive(Debug)]
pub struct InitializeWhitelist {
    /// Address of the signer that becomes the administrator.
    pub admin: [u8; 32],
    pub config: Config,
    pub whitelist: Whitelist,
    pub balance: Balance,
}

impl InitializeWhitelist {
    /// Records the administrator, starts an empty whitelist and a zero balance.
    pub fn init(&mut self, bumps: InitializeWhitelistBumps) -> (r: Result<(), VaultError>)
        ensures
            r is Ok,
            final(self).admin == old(self).admin,
            final(self).config == (Config { admin: old(self).admin, bump: bumps.config }),
            final(self).whitelist.bump == bumps.whitelist,
            final(self).whitelist.accounts@ == Seq::<crate::state::WhitelistEntry>::empty(),
            final(self).balance == (Balance { amount: 0, bump: bumps.balance }),
    {
        self.config = Config { admin: self.admin, bump: bumps.config };
        self.whitelist = Whitelist { accounts: Vec::new(), bump: bumps.whitelist };
        self.balance = Balance { amount: 0, bump: bumps.balance };
        Ok(())
    }
}

} // verus!
