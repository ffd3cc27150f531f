//! The check run by the token-2022 program on every transfer of the mint.
use vstd::prelude::*;
use anchor_lang::solana_program::program_error::ProgramError;
use anchor_spl::token_2022::spl_token_2022::extension::transfer_hook::TransferHookAccount;
use anchor_spl::token_2022::spl_token_2022::extension::{
    BaseStateWithExtensionsMut,
    PodStateWithExtensionsMut,
};
use anchor_spl::token_2022::spl_token_2022::pod::PodAccount;
use crate::error::VaultError;
use crate::layout::{self, find_user, read_amount};

verus! {

/// The `transferring` flag that the transfer-hook extension of the token-2022
/// account with data `data` holds, or `None` where the data does not unpack as
/// an initialized token-2022 account carrying that extension.
pub uninterp spec fn token_account_transferring(data: Seq<u8>) -> Option<bool>;

/// Reads the `transferring` flag of a token-2022 account through
/// `PodStateWithExtensionsMut::<PodAccount>::unpack` and
/// `get_extension_mut::<TransferHookAccount>` of spl-token-2022. The contract
/// claims only that the outcome is a function of the account data, named
/// `token_account_transferring`; which error comes back is not stated.
#[verifier::external_body]
fn transferring_flag(data: &Vec<u8>) -> (r: Result<bool, ProgramError>)
    ensures
        match r {
            Ok(b) => token_account_transferring(data@) == Some(b),
            Err(_) => token_account_transferring(data@) is None,
        },
{
    let mut buf = data.clone();
    let mut account = PodStateWithExtensionsMut::<PodAccount>::unpack(buf.as_mut_slice())?;
    let extension = account.get_extension_mut::<TransferHookAccount>()?;
    Ok(bool::from(extension.transferring))
}

/// What the hook answers for a transfer of `amount` by `owner`: the first
/// entry of `owner` must exist, and the amount it records must be at least
/// `amount`.
pub open spec fn transfer_verdict(data: Seq<u8>, owner: Seq<u8>, amount: u64) -> Result<(), VaultError> {
    if layout::has_user(data, owner) {
        let i = choose|i: int| layout::is_first_match(data, owner, i);
        if layout::amount_at(data, i) < amount {
            Err(VaultError::InsufficientFunds)
        } else {
            Ok(())
        }
    } else {
        Err(VaultError::UserDoesNotExist)
    }
}

/// Turns the `transferring` flag, or the error met reading it, into the
/// hook's answer: only a source account in the middle of a transfer passes.
pub fn check_transferring(flag: Result<bool, ProgramError>) -> (r: Result<(), VaultError>)
    ensures
        match flag {
            Ok(true) => r is Ok,
            Ok(false) => r == Err::<(), VaultError>(VaultError::NotTransferring),
            Err(e) => r == Err::<(), VaultError>(VaultError::Program(e)),
        },
{
    match flag {
        Ok(true) => Ok(()),
        Ok(false) => Err(VaultError::NotTransferring),
        Err(e) => Err(VaultError::Program(e)),
    }
}

/// Checks the whitelist for a transfer of `amount` by `owner`.
pub fn check_whitelisted_amount(whitelist: &Vec<u8>, owner: &[u8; 32], amount: u64) -> (r: Result<
    (),
    VaultError,
>)
    requires
        layout::holds_entries(whitelist@),
    ensures
        r == transfer_verdict(whitelist@, owner@, amount),
{
    match find_user(whitelist, owner) {
        Some(i) => {
            proof {
                let j = choose|j: int| layout::is_first_match(whitelist@, owner@, j);
                layout::lemma_first_match_unique(whitelist@, owner@, i as int, j);
            }
            if read_amount(whitelist, i) < amount {
                Err(VaultError::InsufficientFunds)
            } else {
                Ok(())
            }
        },
        None => Err(VaultError::UserDoesNotExist),
    }
}

/// The accounts of the transfer hook, as far as its logic reads them.
pub struct TransferHook {
    /// Owner recorded in the source token account.
    pub source_owner: [u8; 32],
    /// Data of the source token account.
    pub source_account: Vec<u8>,
    /// Data of the whitelist account.
    pub whitelist: Vec<u8>,
}

impl TransferHook {
    /// Runs the hook for a transfer of `amount`: the source account must be
    /// in the middle of a transfer and its owner must pass the whitelist.
    pub fn transfer_hook(&mut self, amount: u64) -> (r: Result<(), VaultError>)
        requires
            layout::holds_entries(old(self).whitelist@),
        ensures
            *final(self) == *old(self),
            match token_account_transferring(old(self).source_account@) {
                Some(true) => r == transfer_verdict(
                    old(self).whitelist@,
                    old(self).source_owner@,
                    amount,
                ),
                Some(false) => r == Err::<(), VaultError>(VaultError::NotTransferring),
                None => r matches Err(VaultError::Program(_)),
            },
    {
        self.is_transferring()?;
        check_whitelisted_amount(&self.whitelist, &self.source_owner, amount)
    }

    /// Checks that the source token account is in the middle of a transfer.
    pub fn is_transferring(&mut self) -> (r: Result<(), VaultError>)
        ensures
            *final(self) == *old(self),
            match token_account_transferring(old(self).source_account@) {
                Some(true) => r is Ok,
                Some(false) => r == Err::<(), VaultError>(VaultError::NotTransferring),
                None => r matches Err(VaultError::Program(_)),
            },
    {
        check_transferring(transferring_flag(&self.source_account))
    }
}

} // verus!
