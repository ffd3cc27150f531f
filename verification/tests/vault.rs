use anchor_lang::solana_program::program_option::COption;
use anchor_lang::solana_program::pubkey::Pubkey;
use anchor_spl::token_2022::spl_token_2022::extension::transfer_hook::TransferHookAccount;
use anchor_spl::token_2022::spl_token_2022::extension::{
    BaseStateWithExtensionsMut, ExtensionType, StateWithExtensionsMut,
};
use anchor_spl::token_2022::spl_token_2022::state::{Account, AccountState};
use transfer_hook_vault::constants::{
    BALANCE_SEED, CONFIG_SEED, EXTRA_ACCOUNT_META, ID, WHITELIST_DISCRIMINATOR, WHITELIST_SEED,
};
use transfer_hook_vault::error::VaultError;
use transfer_hook_vault::extra_account_meta::InitializeAccountMetaList;
use transfer_hook_vault::initialize_whitelist::{InitializeWhitelist, InitializeWhitelistBumps};
use transfer_hook_vault::mint_token::MintToken;
use transfer_hook_vault::ops_whitelist::{LamportMove, OpsWhitelist};
use transfer_hook_vault::send_token::SendToken;
use transfer_hook_vault::state::{Balance, Config, Whitelist, WhitelistEntry};
use transfer_hook_vault::transfer_hook::{check_transferring, TransferHook};

fn key(byte: u8) -> [u8; 32] {
    [byte; 32]
}

/// Data of an initialized token-2022 account owned by `owner` that carries the
/// transfer-hook extension with the given flag.
fn token_account(owner: [u8; 32], transferring: bool) -> Vec<u8> {
    let len = ExtensionType::try_calculate_account_len::<Account>(&[
        ExtensionType::TransferHookAccount,
    ])
    .unwrap();
    let mut data = vec![0u8; len];
    {
        let mut state = StateWithExtensionsMut::<Account>::unpack_uninitialized(&mut data).unwrap();
        let extension = state.init_extension::<TransferHookAccount>(true).unwrap();
        extension.transferring = transferring.into();
        state.base = Account {
            mint: Pubkey::new_from_array(key(7)),
            owner: Pubkey::new_from_array(owner),
            amount: 10000,
            delegate: COption::None,
            state: AccountState::Initialized,
            is_native: COption::None,
            delegated_amount: 0,
            close_authority: COption::None,
        };
        state.pack_base();
        state.init_account_type().unwrap();
    }
    data
}

fn empty_whitelist_data() -> Vec<u8> {
    Whitelist { bump: 254, accounts: vec![] }.to_account_data()
}

fn ops(whitelist: Vec<u8>, lamports: u64, balance: u64) -> OpsWhitelist {
    OpsWhitelist {
        whitelist,
        whitelist_lamports: lamports,
        balance: Balance { amount: balance, bump: 253 },
    }
}

fn decoded(data: &Vec<u8>) -> Whitelist {
    Whitelist::from_account_data(data).unwrap()
}

#[test]
fn test_initialize() {
    let admin = key(1);
    let amount: u64 = 10000;

    // initialize
    let mut init = InitializeWhitelist {
        admin,
        config: Config { admin: [0u8; 32], bump: 0 },
        whitelist: Whitelist { bump: 0, accounts: vec![WhitelistEntry { user: key(9), amount: 1 }] },
        balance: Balance { amount: 5, bump: 0 },
    };
    init.init(InitializeWhitelistBumps { config: 255, whitelist: 254, balance: 253 }).unwrap();
    assert_eq!(init.config.admin, admin);
    assert!(init.whitelist.accounts.is_empty());
    assert_eq!(init.balance.amount, 0);

    // add whitelist
    let data = init.whitelist.to_account_data();
    let mut state = ops(data, 1_000, init.balance.amount);
    state.add_whitelist(admin, amount, 2_000).unwrap();
    let whitelist_data = decoded(&state.whitelist);
    assert_eq!(whitelist_data.accounts.len(), 1);
    assert_eq!(whitelist_data.accounts[0].user, admin);
    assert_eq!(whitelist_data.accounts[0].amount, amount);
    assert_eq!(state.balance.amount, amount);

    // mint
    let mut mint = MintToken { user: admin, mint: key(7) };
    assert!(mint.init_mint().is_ok());

    // extra account meta list
    let size = InitializeAccountMetaList::extra_account_meta_list_size().unwrap();
    let mut meta_list = InitializeAccountMetaList { extra_account_meta_list: vec![0u8; size] };
    meta_list.init_transfer_hook().unwrap();
    let extra_data = &meta_list.extra_account_meta_list;
    let mut extra_length = [0u8; 4];
    extra_length.copy_from_slice(&extra_data[8..12]);
    let extra_data_length = u32::from_le_bytes(extra_length);
    let count_data = extra_data_length / 35;
    assert_eq!(count_data, 2);

    // transfer hook called outside a transfer
    let mut hook = TransferHook {
        source_owner: admin,
        source_account: token_account(admin, false),
        whitelist: state.whitelist.clone(),
    };
    let res = hook.transfer_hook(amount);
    assert!(res.is_err(), "Not Transferring");

    // remove whitelist
    state.remove_whitelist(admin, 1_000).unwrap();
    let whitelist_data = decoded(&state.whitelist);
    assert_eq!(whitelist_data.accounts.len(), 0);
    assert_eq!(state.balance.amount, 0);
}

#[test]
fn constants_match_their_derivations() {
    let id: Pubkey = "B6Ko2vrRgrURt9VEoF4Jq6TVpWTCzJjjEsiGic2tZrPV".parse().unwrap();
    assert_eq!(id.to_bytes(), ID);
    assert_eq!(WHITELIST_DISCRIMINATOR, [204, 176, 52, 79, 146, 121, 54, 247]);
    assert_eq!(&CONFIG_SEED[..], b"config");
    assert_eq!(&WHITELIST_SEED[..], b"Whitelist");
    assert_eq!(&BALANCE_SEED[..], b"balance");
    assert_eq!(&EXTRA_ACCOUNT_META[..], b"extra-account-meta");
}

#[test]
fn whitelist_encoding_layout() {
    let w = Whitelist {
        bump: 7,
        accounts: vec![
            WhitelistEntry { user: key(1), amount: 0x0102 },
            WhitelistEntry { user: key(2), amount: u64::MAX },
        ],
    };
    let data = w.to_account_data();
    assert_eq!(data.len(), 13 + 80);
    assert_eq!(&data[0..8], &WHITELIST_DISCRIMINATOR[..]);
    assert_eq!(data[8], 7);
    assert_eq!(&data[9..13], &[2, 0, 0, 0]);
    assert_eq!(&data[13..45], &key(1)[..]);
    assert_eq!(&data[45..53], &[2, 1, 0, 0, 0, 0, 0, 0]);
    assert_eq!(&data[53..85], &key(2)[..]);
    assert_eq!(&data[85..93], &[255u8; 8]);
    let back = decoded(&data);
    assert_eq!(back.bump, 7);
    assert_eq!(back.accounts.len(), 2);
    assert_eq!(back.accounts[1].user, key(2));
    assert_eq!(back.accounts[1].amount, u64::MAX);
}

#[test]
fn whitelist_decoding_rejects_bad_data() {
    let data = empty_whitelist_data();
    assert!(Whitelist::from_account_data(&data[..12].to_vec()).is_none());
    let mut wrong_tag = data.clone();
    wrong_tag[0] ^= 1;
    assert!(Whitelist::from_account_data(&wrong_tag).is_none());
    let mut too_many = data.clone();
    too_many[9] = 1;
    assert!(Whitelist::from_account_data(&too_many).is_none());
}

#[test]
fn add_refuses_a_user_already_whitelisted() {
    let mut state = ops(empty_whitelist_data(), 100, 0);
    assert_eq!(state.add_whitelist(key(3), 50, 400).unwrap(), LamportMove::FromAdmin(300));
    let before = state.whitelist.clone();
    let res = state.add_whitelist(key(3), 70, 900);
    assert!(matches!(res, Err(VaultError::UserAlreadyExists)));
    assert_eq!(state.whitelist, before);
    assert_eq!(state.balance.amount, 50);
    assert_eq!(state.whitelist_lamports, 400);
}

#[test]
fn add_appends_and_grows_by_one_entry() {
    let mut state = ops(empty_whitelist_data(), 0, 0);
    state.add_whitelist(key(1), 10, 0).unwrap();
    state.add_whitelist(key(2), 20, 0).unwrap();
    state.add_whitelist(key(3), 30, 0).unwrap();
    assert_eq!(state.whitelist.len(), 13 + 3 * 40);
    let w = decoded(&state.whitelist);
    let users: Vec<[u8; 32]> = w.accounts.iter().map(|e| e.user).collect();
    assert_eq!(users, vec![key(1), key(2), key(3)]);
    assert_eq!(state.balance.amount, 60);
    assert_eq!(state.whitelist[8], 254);
}

#[test]
fn remove_moves_the_last_entry_into_the_gap() {
    let mut state = ops(empty_whitelist_data(), 0, 0);
    state.add_whitelist(key(1), 10, 0).unwrap();
    state.add_whitelist(key(2), 20, 0).unwrap();
    state.add_whitelist(key(3), 30, 0).unwrap();
    state.remove_whitelist(key(1), 0).unwrap();
    let w = decoded(&state.whitelist);
    assert_eq!(w.accounts.len(), 2);
    assert_eq!(w.accounts[0].user, key(3));
    assert_eq!(w.accounts[0].amount, 30);
    assert_eq!(w.accounts[1].user, key(2));
    assert_eq!(state.balance.amount, 50);
    assert_eq!(state.whitelist.len(), 13 + 2 * 40);
}

#[test]
fn remove_refuses_an_unknown_user() {
    let mut state = ops(empty_whitelist_data(), 0, 0);
    state.add_whitelist(key(1), 10, 0).unwrap();
    let before = state.whitelist.clone();
    let res = state.remove_whitelist(key(2), 0);
    assert!(matches!(res, Err(VaultError::UserDoesNotExist)));
    assert_eq!(state.whitelist, before);
    assert_eq!(state.balance.amount, 10);
}

#[test]
fn remove_after_add_restores_the_data() {
    let mut state = ops(empty_whitelist_data(), 0, 0);
    state.add_whitelist(key(1), 10, 0).unwrap();
    let before = state.whitelist.clone();
    state.add_whitelist(key(2), 99, 0).unwrap();
    state.remove_whitelist(key(2), 0).unwrap();
    assert_eq!(state.whitelist, before);
    assert_eq!(state.balance.amount, 10);
}

#[test]
fn realloc_moves_rent_both_ways() {
    let mut state = ops(empty_whitelist_data(), 1_000, 0);
    let m = state.realloc_whitelist(true, 1_600);
    assert_eq!(m, LamportMove::FromAdmin(600));
    assert_eq!(state.whitelist.len(), 53);
    assert!(state.whitelist[13..].iter().all(|b| *b == 0));
    assert_eq!(state.whitelist_lamports, 1_600);
    let m = state.realloc_whitelist(false, 1_000);
    assert_eq!(m, LamportMove::ToAdmin(600));
    assert_eq!(state.whitelist, empty_whitelist_data());
    assert_eq!(state.whitelist_lamports, 1_000);
}

#[test]
fn hook_refuses_outside_a_transfer() {
    let mut state = ops(empty_whitelist_data(), 0, 0);
    state.add_whitelist(key(1), 10000, 0).unwrap();
    let mut hook = TransferHook {
        source_owner: key(1),
        source_account: token_account(key(1), false),
        whitelist: state.whitelist.clone(),
    };
    assert!(matches!(hook.transfer_hook(1), Err(VaultError::NotTransferring)));
    assert!(matches!(hook.is_transferring(), Err(VaultError::NotTransferring)));
}

#[test]
fn hook_compares_amounts_as_numbers() {
    let mut state = ops(empty_whitelist_data(), 0, 0);
    state.add_whitelist(key(1), 10000, 0).unwrap();
    let mut hook = TransferHook {
        source_owner: key(1),
        source_account: token_account(key(1), true),
        whitelist: state.whitelist.clone(),
    };
    assert!(hook.is_transferring().is_ok());
    assert!(hook.transfer_hook(10000).is_ok());
    assert!(hook.transfer_hook(8000).is_ok());
    assert!(hook.transfer_hook(100).is_ok());
    assert!(hook.transfer_hook(16).is_ok());
    assert!(hook.transfer_hook(0).is_ok());
    assert!(matches!(hook.transfer_hook(10001), Err(VaultError::InsufficientFunds)));
    assert!(matches!(hook.transfer_hook(u64::MAX), Err(VaultError::InsufficientFunds)));
}

#[test]
fn added_user_may_transfer_up_to_the_allowance() {
    let mut state = ops(empty_whitelist_data(), 0, 0);
    state.add_whitelist(key(9), 256, 0).unwrap();
    let mut hook = TransferHook {
        source_owner: key(9),
        source_account: token_account(key(9), true),
        whitelist: state.whitelist.clone(),
    };
    for amount in [0u64, 1, 2, 255, 256] {
        assert!(hook.transfer_hook(amount).is_ok());
    }
    for amount in [257u64, 512, 65536] {
        assert!(matches!(hook.transfer_hook(amount), Err(VaultError::InsufficientFunds)));
    }
}

#[test]
fn hook_refuses_an_owner_not_whitelisted() {
    let mut state = ops(empty_whitelist_data(), 0, 0);
    state.add_whitelist(key(1), 10000, 0).unwrap();
    let mut hook = TransferHook {
        source_owner: key(2),
        source_account: token_account(key(2), true),
        whitelist: state.whitelist.clone(),
    };
    assert!(matches!(hook.transfer_hook(1), Err(VaultError::UserDoesNotExist)));
}

#[test]
fn hook_reports_unreadable_token_accounts() {
    let mut hook = TransferHook {
        source_owner: key(1),
        source_account: vec![1u8; 10],
        whitelist: empty_whitelist_data(),
    };
    assert!(matches!(hook.transfer_hook(1), Err(VaultError::Program(_))));
    assert!(matches!(check_transferring(Ok(true)), Ok(())));
    assert!(matches!(check_transferring(Ok(false)), Err(VaultError::NotTransferring)));
}

#[test]
fn extra_metas_name_whitelist_and_balance() {
    let program = Pubkey::new_from_array(ID);
    let (whitelist, _) = Pubkey::find_program_address(&[b"Whitelist"], &program);
    let (balance, _) = Pubkey::find_program_address(&[b"balance", whitelist.as_ref()], &program);
    let metas = InitializeAccountMetaList::extra_account_meta().unwrap();
    assert_eq!(metas.len(), 2);
    assert_eq!(metas[0].address_config, whitelist.to_bytes());
    assert_eq!(metas[1].address_config, balance.to_bytes());
    for m in &metas {
        assert_eq!(m.discriminator, 0);
        assert!(!m.is_signer && !m.is_writable);
    }
    assert_eq!(InitializeAccountMetaList::extra_account_meta_list_size().unwrap(), 86);
}

#[test]
fn meta_list_account_layout() {
    let mut list = InitializeAccountMetaList { extra_account_meta_list: vec![0u8; 86] };
    list.init_transfer_hook().unwrap();
    let data = &list.extra_account_meta_list;
    // First eight bytes of SHA-256 of `spl-transfer-hook-interface:execute`.
    assert_eq!(&data[0..8], &[105, 37, 101, 197, 75, 251, 102, 26]);
    assert_eq!(&data[8..12], &74u32.to_le_bytes());
    assert_eq!(&data[12..16], &2u32.to_le_bytes());
    let program = Pubkey::new_from_array(ID);
    let (whitelist, _) = Pubkey::find_program_address(&[b"Whitelist"], &program);
    assert_eq!(data[16], 0);
    assert_eq!(&data[17..49], whitelist.as_ref());
    assert_eq!(&data[49..51], &[0, 0]);
}

#[test]
fn meta_list_too_small_is_refused() {
    let mut list = InitializeAccountMetaList { extra_account_meta_list: vec![0u8; 40] };
    assert!(matches!(list.init_transfer_hook(), Err(VaultError::Program(_))));
}

#[test]
fn send_token_builds_transfer_checked() {
    let mut send = SendToken {
        admin: key(1),
        sender: key(2),
        mint: key(3),
        source_ata: key(4),
        destination_ata: key(5),
        program_id: key(6),
        whitelist: key(7),
        balance: key(8),
        extra_account_meta_list: key(9),
        token_program: key(10),
    };
    let ix = send.send_token(0x0102);
    assert_eq!(ix.program_id, key(10));
    assert_eq!(ix.data, vec![12, 2, 1, 0, 0, 0, 0, 0, 0, 6]);
    let keys: Vec<[u8; 32]> = ix.accounts.iter().map(|a| a.pubkey).collect();
    assert_eq!(keys, vec![key(4), key(3), key(5), key(1), key(9), key(7), key(8), key(6)]);
    let writable: Vec<bool> = ix.accounts.iter().map(|a| a.is_writable).collect();
    assert_eq!(writable, vec![true, false, true, false, false, false, false, false]);
    let signers: Vec<bool> = ix.accounts.iter().map(|a| a.is_signer).collect();
    assert_eq!(signers, vec![false, false, false, true, false, false, false, false]);
}

#[test]
fn removed_user_is_refused_by_the_hook() {
    let mut state = ops(empty_whitelist_data(), 0, 0);
    state.add_whitelist(key(1), 500, 0).unwrap();
    state.add_whitelist(key(2), 600, 0).unwrap();
    state.remove_whitelist(key(1), 0).unwrap();
    let mut hook = TransferHook {
        source_owner: key(1),
        source_account: token_account(key(1), true),
        whitelist: state.whitelist.clone(),
    };
    assert!(matches!(hook.transfer_hook(1), Err(VaultError::UserDoesNotExist)));
    hook.source_owner = key(2);
    assert!(hook.transfer_hook(600).is_ok());
}

/// Rent-exempt minimum used by the tests: a base plus a price per byte.
fn rent(len: usize) -> u64 {
    1_000 + 7 * len as u64
}

#[test]
fn remove_after_add_restores_the_whole_state() {
    let data = {
        let mut s = ops(empty_whitelist_data(), rent(13), 0);
        s.add_whitelist(key(1), 10, rent(53)).unwrap();
        s.whitelist
    };
    let mut state = ops(data.clone(), rent(53), 10);
    let paid = state.add_whitelist(key(2), 99, rent(93)).unwrap();
    assert_eq!(paid, LamportMove::FromAdmin(280));
    let returned = state.remove_whitelist(key(2), rent(53)).unwrap();
    assert_eq!(returned, LamportMove::ToAdmin(280));
    assert_eq!(state.whitelist, data);
    assert_eq!(state.whitelist_lamports, rent(53));
    assert_eq!((state.balance.amount, state.balance.bump), (10, 253));
}

#[test]
fn adds_in_either_order_agree() {
    let mut first = ops(empty_whitelist_data(), rent(13), 5);
    let mut second = ops(empty_whitelist_data(), rent(13), 5);
    let f1 = first.add_whitelist(key(1), 100, rent(53)).unwrap();
    let f2 = first.add_whitelist(key(2), 200, rent(93)).unwrap();
    let s1 = second.add_whitelist(key(2), 200, rent(53)).unwrap();
    let s2 = second.add_whitelist(key(1), 100, rent(93)).unwrap();
    assert_eq!((f1, f2), (s1, s2));
    assert_eq!(f1, LamportMove::FromAdmin(280));
    assert_eq!(first.whitelist.len(), second.whitelist.len());
    assert_eq!(first.whitelist_lamports, second.whitelist_lamports);
    assert_eq!(
        (first.balance.amount, first.balance.bump),
        (second.balance.amount, second.balance.bump)
    );
    assert_eq!(first.balance.amount, 305);
    let mut a: Vec<([u8; 32], u64)> =
        decoded(&first.whitelist).accounts.iter().map(|e| (e.user, e.amount)).collect();
    let mut b: Vec<([u8; 32], u64)> =
        decoded(&second.whitelist).accounts.iter().map(|e| (e.user, e.amount)).collect();
    assert_ne!(a, b);
    a.sort();
    b.sort();
    assert_eq!(a, b);
}

#[test]
fn removed_user_stays_refused_after_later_operations() {
    let mut state = ops(empty_whitelist_data(), rent(13), 0);
    state.add_whitelist(key(1), 500, rent(53)).unwrap();
    state.add_whitelist(key(2), 600, rent(93)).unwrap();
    state.remove_whitelist(key(1), rent(53)).unwrap();
    state.add_whitelist(key(3), 700, rent(93)).unwrap();
    state.remove_whitelist(key(2), rent(53)).unwrap();
    assert!(matches!(state.remove_whitelist(key(1), rent(13)), Err(VaultError::UserDoesNotExist)));
    state.add_whitelist(key(4), 800, rent(93)).unwrap();
    let mut hook = TransferHook {
        source_owner: key(1),
        source_account: token_account(key(1), true),
        whitelist: state.whitelist.clone(),
    };
    for amount in [0u64, 1, 500, u64::MAX] {
        assert!(matches!(hook.transfer_hook(amount), Err(VaultError::UserDoesNotExist)));
    }
    assert_eq!(state.balance.amount, 1500);
    assert_eq!(state.whitelist_lamports, rent(93));
}

#[test]
fn meta_list_in_a_larger_account_keeps_zeros_after_it() {
    let mut list = InitializeAccountMetaList { extra_account_meta_list: vec![0u8; 100] };
    list.init_transfer_hook().unwrap();
    let data = &list.extra_account_meta_list;
    assert_eq!(data.len(), 100);
    let program = Pubkey::new_from_array(ID);
    let (whitelist, _) = Pubkey::find_program_address(&[b"Whitelist"], &program);
    let (balance, _) = Pubkey::find_program_address(&[b"balance", whitelist.as_ref()], &program);
    let mut expected = vec![105u8, 37, 101, 197, 75, 251, 102, 26, 74, 0, 0, 0, 2, 0, 0, 0];
    expected.push(0);
    expected.extend_from_slice(whitelist.as_ref());
    expected.extend_from_slice(&[0, 0, 0]);
    expected.extend_from_slice(balance.as_ref());
    expected.extend_from_slice(&[0, 0]);
    expected.extend_from_slice(&[0u8; 14]);
    assert_eq!(data, &expected);
}

#[test]
fn meta_list_one_byte_short_is_refused() {
    let mut list = InitializeAccountMetaList { extra_account_meta_list: vec![0u8; 85] };
    assert!(matches!(list.init_transfer_hook(), Err(VaultError::Program(_))));
    assert_eq!(list.extra_account_meta_list.len(), 85);
}
