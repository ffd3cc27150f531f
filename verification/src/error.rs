use vstd::prelude::*;

verus! {

/// The account-data error type of the Solana runtime.
#[verifier::external_type_specification]
#[verifier::external_body]
pub struct ExProgramError(anchor_lang::solana_program::program_error::ProgramError);

/// Why an instruction of the vault is refused.
#[derive(Debug)]
pub enum VaultError {
    /// The user is already on the whitelist.
    UserAlreadyExists,
    /// The user is not on the whitelist.
    UserDoesNotExist,
    /// The whitelisted amount of the sender is below the transfer amount.
    InsufficientFunds,
    /// The source token account is not in the middle of a transfer.
    NotTransferring,
    /// No bump seed gives a valid program address for the seeds.
    NoViableBumpSeed,
    /// An error reported by the runtime or a program library.
    Program(anchor_lang::solana_program::program_error::ProgramError),
}

} // verus!
