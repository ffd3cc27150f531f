//! The list of extra accounts that the token-2022 program hands to the hook.
use vstd::prelude::*;
use vstd::pervasive::unreached;
use vstd::bytes::*;
use anchor_lang::solana_program::program_error::ProgramError;
use anchor_lang::solana_program::pubkey::Pubkey;
use spl_tlv_account_resolution::account::ExtraAccountMeta;
use spl_tlv_account_resolution::state::ExtraAccountMetaList;
use spl_transfer_hook_interface::instruction::ExecuteInstruction;
use crate::constants::{bytes_to_vec, BALANCE_SEED, EXECUTE_DISCRIMINATOR, ID, WHITELIST_SEED};
use crate::ops_whitelist;
use crate::error::VaultError;

verus! {

/// An extra account required by the hook, as stored in the meta list: a
/// discriminator (0 for a fixed address), the address configuration and the
/// signer and writable flags.
#[derive(Clone, Copy, Debug)]
pub struct ExtraMeta {
    pub discriminator: u8,
    pub address_config: [u8; 32],
    pub is_signer: bool,
    pub is_writable: bool,
}

impl ExtraMeta {
    /// The 35 bytes of the meta as stored in account data.
    pub open spec fn pod_bytes(self) -> Seq<u8> {
        seq![self.discriminator] + self.address_config@ + seq![
            if self.is_signer {
                1u8
            } else {
                0u8
            },
            if self.is_writable {
                1u8
            } else {
                0u8
            },
        ]
    }

    /// The meta names the fixed address `key`, neither signer nor writable.
    pub open spec fn is_readonly_address(self, key: Seq<u8>) -> bool {
        &&& self.discriminator == 0
        &&& self.address_config@ == key
        &&& !self.is_signer
        &&& !self.is_writable
    }
}

/// The stored bytes of a read-only, non-signing meta for the fixed address `key`.
pub open spec fn readonly_address_pod(key: Seq<u8>) -> Seq<u8> {
    seq![0u8] + key + seq![0u8, 0u8]
}

/// The stored bytes of the hook's extra metas: the whitelist, then the balance account.
pub open spec fn expected_pods() -> Seq<Seq<u8>> {
    seq![
        readonly_address_pod(whitelist_address().unwrap().0),
        readonly_address_pod(balance_address().unwrap().0),
    ]
}

/// The stored bytes of each meta.
pub open spec fn pods(metas: Seq<ExtraMeta>) -> Seq<Seq<u8>> {
    metas.map_values(|m: ExtraMeta| m.pod_bytes())
}

/// The program address and bump that the bump search finds for `seeds` and
/// `program_id`, or `None` where no bump seed gives one.
pub uninterp spec fn program_address(seeds: Seq<Seq<u8>>, program_id: Seq<u8>) -> Option<(Seq<u8>, u8)>;

/// A zeroed buffer of `len` bytes takes a meta list of `count` metas: the
/// list's length (the count field and 35 bytes per meta) fits in the `u32`
/// length field, and the buffer holds the discriminator, the length, the
/// count and the metas.
pub open spec fn meta_list_fits(len: nat, count: nat) -> bool {
    &&& 35 * count + 4 <= u32::MAX
    &&& 16 + 35 * count <= len
}

/// A zeroed buffer of `len` bytes once the meta list with the stored metas
/// `metas` is written into it: the `Execute` discriminator, the list's length
/// and its count as little-endian `u32`s, the metas one after another, and
/// the zero bytes that remain.
pub open spec fn meta_list_bytes(len: nat, metas: Seq<Seq<u8>>) -> Seq<u8> {
    let k = metas.len();
    EXECUTE_DISCRIMINATOR@ + spec_u32_to_le_bytes((35 * k + 4) as u32) + spec_u32_to_le_bytes(
        k as u32,
    ) + metas.flatten() + ops_whitelist::zeros((len - 16 - 35 * k) as nat)
}

/// Calls `Pubkey::try_find_program_address` of solana-pubkey, the search
/// behind `Pubkey::find_program_address` that reports a failed search as
/// `None` where `find_program_address` panics. The contract claims only that
/// the outcome is a function of the seeds and the program id, named
/// `program_address`.
#[verifier::external_body]
fn find_program_address(seeds: &Vec<Vec<u8>>, program_id: &[u8; 32]) -> (r: Option<([u8; 32], u8)>)
    ensures
        match r {
            Some((key, bump)) => program_address(seeds.deep_view(), program_id@) == Some(
                (key@, bump),
            ),
            None => program_address(seeds.deep_view(), program_id@) is None,
        },
{
    let seed_slices: Vec<&[u8]> = seeds.iter().map(|s| s.as_slice()).collect();
    Pubkey::try_find_program_address(&seed_slices, &Pubkey::new_from_array(*program_id)).map(
        |(key, bump)| (key.to_bytes(), bump),
    )
}

/// Calls `ExtraAccountMeta::new_with_pubkey` of spl-tlv-account-resolution,
/// which always succeeds with discriminator 0, the key's bytes as address
/// configuration and the two flags.
#[verifier::external_body]
fn meta_with_pubkey(key: &[u8; 32], is_signer: bool, is_writable: bool) -> (r: Result<ExtraMeta, ProgramError>)
    ensures
        match r {
            Ok(m) => m.discriminator == 0 && m.address_config == *key && m.is_signer == is_signer
                && m.is_writable == is_writable,
            Err(_) => false,
        },
{
    match ExtraAccountMeta::new_with_pubkey(&Pubkey::new_from_array(*key), is_signer, is_writable) {
        Ok(m) => Ok(
            ExtraMeta {
                discriminator: m.discriminator,
                address_config: m.address_config,
                is_signer: bool::from(m.is_signer),
                is_writable: bool::from(m.is_writable),
            },
        ),
        Err(e) => Err(e),
    }
}

/// Calls `ExtraAccountMetaList::size_of` of spl-tlv-account-resolution: the
/// twelve bytes of the type-length header added, saturating, to four bytes
/// of count and 35 bytes per meta; an error where those overflow.
#[verifier::external_body]
fn meta_list_size_of(num_items: usize) -> (r: Result<usize, ProgramError>)
    ensures
        match r {
            Ok(n) => 35 * num_items + 4 <= usize::MAX && n == (if 35 * num_items + 16
                <= usize::MAX {
                (35 * num_items + 16) as usize
            } else {
                usize::MAX
            }),
            Err(_) => 35 * num_items + 4 > usize::MAX,
        },
{
    ExtraAccountMetaList::size_of(num_items)
}

/// Calls `ExtraAccountMetaList::init::<ExecuteInstruction>` of
/// spl-tlv-account-resolution on a zeroed buffer (on other data it may
/// panic). The contract claims that it succeeds exactly when the list fits
/// the buffer, that it then leaves the buffer as `meta_list_bytes` says, and
/// that the buffer keeps its length either way. What a failure leaves in the
/// buffer (the discriminator and the length may already be written) is not
/// stated.
#[verifier::external_body]
fn init_execute_meta_list(data: &mut Vec<u8>, metas: &Vec<ExtraMeta>) -> (r: Result<(), ProgramError>)
    requires
        forall|k: int| 0 <= k < old(data)@.len() ==> old(data)@[k] == 0u8,
    ensures
        final(data)@.len() == old(data)@.len(),
        match r {
            Ok(_) => meta_list_fits(old(data)@.len(), metas@.len()) && final(data)@
                == meta_list_bytes(old(data)@.len(), pods(metas@)),
            Err(_) => !meta_list_fits(old(data)@.len(), metas@.len()),
        },
{
    let converted: Vec<ExtraAccountMeta> = metas.iter().map(
        |m| ExtraAccountMeta {
            discriminator: m.discriminator,
            address_config: m.address_config,
            is_signer: m.is_signer.into(),
            is_writable: m.is_writable.into(),
        },
    ).collect();
    ExtraAccountMetaList::init::<ExecuteInstruction>(data.as_mut_slice(), &converted)
}

/// The whitelist account's address and bump.
pub open spec fn whitelist_address() -> Option<(Seq<u8>, u8)> {
    program_address(seq![WHITELIST_SEED@], ID@)
}

/// The balance account's address and bump, derived from the whitelist's.
pub open spec fn balance_address() -> Option<(Seq<u8>, u8)> {
    match whitelist_address() {
        Some((whitelist, _)) => program_address(seq![BALANCE_SEED@, whitelist], ID@),
        None => None,
    }
}

/// Builds the metas of the hook's extra accounts from their addresses: the
/// whitelist, then the balance, both read-only and not signing.
pub fn extra_metas_for(whitelist: &[u8; 32], balance: &[u8; 32]) -> (r: Vec<ExtraMeta>)
    ensures
        r@.len() == 2,
        r@[0].is_readonly_address(whitelist@),
        r@[1].is_readonly_address(balance@),
{
    let first = match meta_with_pubkey(whitelist, false, false) {
        Ok(m) => m,
        Err(_) => unreached(),
    };
    let second = match meta_with_pubkey(balance, false, false) {
        Ok(m) => m,
        Err(_) => unreached(),
    };
    let mut metas: Vec<ExtraMeta> = Vec::new();
    metas.push(first);
    metas.push(second);
    metas
}

/// The accounts of the instruction that writes the extra-account-meta list,
/// as far as its logic reads them.
pub struct InitializeAccountMetaList {
    /// Data of the extra-account-meta list account.
    pub extra_account_meta_list: Vec<u8>,
}

impl InitializeAccountMetaList {
    /// The extra accounts of the hook: the whitelist and the balance
    /// account, found from their seeds under the vault's program id.
    pub fn extra_account_meta() -> (r: Result<Vec<ExtraMeta>, VaultError>)
        ensures
            r is Ok <==> balance_address() is Some,
            r matches Ok(v) ==> {
                &&& v@.len() == 2
                &&& v@[0].is_readonly_address(whitelist_address().unwrap().0)
                &&& v@[1].is_readonly_address(balance_address().unwrap().0)
                &&& pods(v@) == expected_pods()
            },
            r matches Err(e) ==> e == VaultError::NoViableBumpSeed,
    {
        let mut seeds: Vec<Vec<u8>> = Vec::new();
        seeds.push(bytes_to_vec(&WHITELIST_SEED));
        assert(seeds.deep_view() =~= seq![WHITELIST_SEED@]) by {
            assert(seeds.deep_view()[0] =~= WHITELIST_SEED@);
        }
        let whitelist = match find_program_address(&seeds, &ID) {
            Some((key, _)) => key,
            None => {
                return Err(VaultError::NoViableBumpSeed);
            },
        };
        let mut balance_seeds: Vec<Vec<u8>> = Vec::new();
        balance_seeds.push(bytes_to_vec(&BALANCE_SEED));
        balance_seeds.push(bytes_to_vec(&whitelist));
        assert(balance_seeds.deep_view() =~= seq![BALANCE_SEED@, whitelist@]) by {
            assert(balance_seeds.deep_view()[0] =~= BALANCE_SEED@);
            assert(balance_seeds.deep_view()[1] =~= whitelist@);
        }
        let balance = match find_program_address(&balance_seeds, &ID) {
            Some((key, _)) => key,
            None => {
                return Err(VaultError::NoViableBumpSeed);
            },
        };
        let metas = extra_metas_for(&whitelist, &balance);
        assert(pods(metas@) =~= expected_pods()) by {
            assert(metas@[0].pod_bytes() =~= readonly_address_pod(whitelist@));
            assert(metas@[1].pod_bytes() =~= readonly_address_pod(balance@));
        }
        Ok(metas)
    }

    /// Size of the meta-list account: the type-length header, the count and
    /// one stored meta per extra account.
    pub fn extra_account_meta_list_size() -> (r: Result<usize, VaultError>)
        ensures
            r is Ok <==> balance_address() is Some,
            r matches Ok(n) ==> n == 86,
            r matches Err(e) ==> e == VaultError::NoViableBumpSeed,
    {
        let metas = Self::extra_account_meta()?;
        match meta_list_size_of(metas.len()) {
            Ok(n) => Ok(n),
            Err(e) => Err(VaultError::Program(e)),
        }
    }

    /// Writes the list of the hook's extra accounts into the freshly created,
    /// zeroed meta-list account: the whitelist, then the balance account.
    pub fn init_transfer_hook(&mut self) -> (r: Result<(), VaultError>)
        requires
            forall|k: int|
                0 <= k < old(self).extra_account_meta_list@.len()
                    ==> old(self).extra_account_meta_list@[k] == 0u8,
        ensures
            final(self).extra_account_meta_list@.len() == old(self).extra_account_meta_list@.len(),
            balance_address() is None ==> {
                &&& r == Err::<(), VaultError>(VaultError::NoViableBumpSeed)
                &&& final(self).extra_account_meta_list@ == old(self).extra_account_meta_list@
            },
            balance_address() is Some ==> (r is Ok <==> 86 <= old(
                self,
            ).extra_account_meta_list@.len()),
            balance_address() is Some && r is Err ==> r matches Err(VaultError::Program(_)),
            r is Ok ==> final(self).extra_account_meta_list@ == meta_list_bytes(
                old(self).extra_account_meta_list@.len(),
                expected_pods(),
            ),
    {
        let extra_data = Self::extra_account_meta()?;
        match init_execute_meta_list(&mut self.extra_account_meta_list, &extra_data) {
            Ok(()) => Ok(()),
            Err(e) => Err(VaultError::Program(e)),
        }
    }
}

} // verus!
