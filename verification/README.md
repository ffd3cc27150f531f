# transfer_hook_vault

A token-2022 transfer-hook vault, written in Verus. An administrator keeps a
whitelist of users with an amount each; the hook lets a transfer through only
while the source account is mid-transfer and its owner is whitelisted.

- `src/` is the verified library: the byte layout of the whitelist account
  (`layout`, `state`), adding and removing users together with the rent that
  moves when the account is resized (`ops_whitelist`), the hook's check
  (`transfer_hook`), the list of the hook's extra accounts
  (`extra_account_meta`), the setup of the accounts (`initialize_whitelist`,
  `mint_token`) and the `TransferChecked` instruction (`send_token`).
  `laws` states what holds across operations: the balance is the sum of the
  whitelisted amounts, no user is listed twice and the whitelist account is
  paid exactly to its rent-exempt minimum; removing a user undoes adding
  them, lamports included; two additions commute; a removed user stays
  refused by the hook.
- `app/` is the Anchor program around it: account constraints, reads and
  writes of account data, the rent sysvar and the cross-program invocations.
- `tests/` runs the library, with the real spl-token-2022 and
  spl-tlv-account-resolution code behind it.
