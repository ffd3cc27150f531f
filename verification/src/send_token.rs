//! The token-2022 `TransferChecked` instruction that sends tokens through the hook.
use vstd::prelude::*;
use vstd::bytes::*;

verus! {

/// An account of an instruction.
#[derive(Clone, Copy, Debug)]
pub struct InstructionAccount {
    pub pubkey: [u8; 32],
    pub is_signer: bool,
    pub is_writable: bool,
}

/// An instruction for another program.
#[derive(Debug)]
pub struct TokenInstruction {
    pub program_id: [u8; 32],
    pub accounts: Vec<InstructionAccount>,
    pub data: Vec<u8>,
}

/// Tag of `TransferChecked` in the token program's instruction set.
pub const TRANSFER_CHECKED: u8 = 12;

/// Decimals of the vault's mint.
pub const MINT_DECIMALS: u8 = 6;

/// The accounts of the send instruction.
#[derive(Clone, Copy, Debug)]
pub struct SendToken {
    pub admin: [u8; 32],
    pub sender: [u8; 32],
    pub mint: [u8; 32],
    pub source_ata: [u8; 32],
    pub destination_ata: [u8; 32],
    pub program_id: [u8; 32],
    pub whitelist: [u8; 32],
    pub balance: [u8; 32],
    pub extra_account_meta_list: [u8; 32],
    pub token_program: [u8; 32],
}

/// The account `key` with its flags.
pub open spec fn is_account(a: InstructionAccount, key: [u8; 32], signer: bool, writable: bool) -> bool {
    a.pubkey == key && a.is_signer == signer && a.is_writable == writable
}

/// The instruction data of `TransferChecked` for `amount` tokens of a mint
/// with six decimals.
pub open spec fn transfer_checked_data(amount: u64) -> Seq<u8> {
    seq![TRANSFER_CHECKED] + spec_u64_to_le_bytes(amount) + seq![MINT_DECIMALS]
}

fn account(pubkey: [u8; 32], is_signer: bool, is_writable: bool) -> (a: InstructionAccount)
    ensures
        is_account(a, pubkey, is_signer, is_writable),
{
    InstructionAccount { pubkey, is_signer, is_writable }
}

impl SendToken {
    /// The instruction that moves `amount` tokens from the source to the
    /// destination account, signed by the administrator and carrying the
    /// hook's extra accounts.
    pub fn send_token(&mut self, amount: u64) -> (ix: TokenInstruction)
        ensures
            *final(self) == *old(self),
            ix.program_id == old(self).token_program,
            ix.data@ == transfer_checked_data(amount),
            ix.accounts@.len() == 8,
            is_account(ix.accounts@[0], old(self).source_ata, false, true),
            is_account(ix.accounts@[1], old(self).mint, false, false),
            is_account(ix.accounts@[2], old(self).destination_ata, false, true),
            is_account(ix.accounts@[3], old(self).admin, true, false),
            is_account(ix.accounts@[4], old(self).extra_account_meta_list, false, false),
            is_account(ix.accounts@[5], old(self).whitelist, false, false),
            is_account(ix.accounts@[6], old(self).balance, false, false),
            is_account(ix.accounts@[7], old(self).program_id, false, false),
    {
        let mut account_metas: Vec<InstructionAccount> = Vec::new();
        account_metas.push(account(self.source_ata, false, true));
        account_metas.push(account(self.mint, false, false));
        account_metas.push(account(self.destination_ata, false, true));
        account_metas.push(account(self.admin, true, false));
        account_metas.push(account(self.extra_account_meta_list, false, false));
        account_metas.push(account(self.whitelist, false, false));
        account_metas.push(account(self.balance, false, false));
        account_metas.push(account(self.program_id, false, false));
        let mut data: Vec<u8> = Vec::with_capacity(18);
        data.push(TRANSFER_CHECKED);
        let mut amount_bytes = u64_to_le_bytes(amount);
        data.append(&mut amount_bytes);
        data.push(MINT_DECIMALS);
        TokenInstruction { program_id: self.token_program, accounts: account_metas, data }
    }
}

/// The `TransferChecked` data is ten bytes: the instruction tag, the eight
/// bytes of the amount, which read back as a little-endian `u64` to exactly
/// the requested amount, and the mint's decimals; different amounts give
/// different data.
pub proof fn law_transfer_data_carries_amount(amount: u64, other: u64)
    ensures
        transfer_checked_data(amount).len() == 10,
        transfer_checked_data(amount)[0] == TRANSFER_CHECKED,
        transfer_checked_data(amount)[9] == MINT_DECIMALS,
        spec_u64_from_le_bytes(transfer_checked_data(amount).subrange(1, 9)) == amount,
        amount != other ==> transfer_checked_data(amount) != transfer_checked_data(other),
{
    lemma_auto_spec_u64_to_from_le_bytes();
    assert(spec_u64_to_le_bytes(amount).len() == 8);
    assert(spec_u64_to_le_bytes(other).len() == 8);
    assert(transfer_checked_data(amount).subrange(1, 9) =~= spec_u64_to_le_bytes(amount));
    assert(transfer_checked_data(other).subrange(1, 9) =~= spec_u64_to_le_bytes(other));
    if amount != other && transfer_checked_data(amount) == transfer_checked_data(other) {
        assert(spec_u64_from_le_bytes(spec_u64_to_le_bytes(amount)) == amount);
        assert(spec_u64_from_le_bytes(spec_u64_to_le_bytes(other)) == other);
    }
}

} // verus!
