use vstd::prelude::*;

verus! {

/// Address of the vault program.
pub const ID: [u8; 32] = [
    149u8, 242u8, 5u8, 252u8, 175u8, 72u8, 57u8, 51u8, 231u8, 215u8, 184u8, 82u8, 32u8, 72u8, 57u8,
    221u8, 169u8, 188u8, 108u8, 102u8, 112u8, 150u8, 255u8, 59u8, 64u8, 108u8, 169u8, 162u8, 183u8,
    200u8, 176u8, 12u8,
];

/// Seed of the config account: `config`.
pub const CONFIG_SEED: [u8; 6] = [99u8, 111u8, 110u8, 102u8, 105u8, 103u8];

/// Seed of the whitelist account: `Whitelist`.
pub const WHITELIST_SEED: [u8; 9] = [87u8, 104u8, 105u8, 116u8, 101u8, 108u8, 105u8, 115u8, 116u8];

/// Seed of the balance account, followed by the whitelist address: `balance`.
pub const BALANCE_SEED: [u8; 7] = [98u8, 97u8, 108u8, 97u8, 110u8, 99u8, 101u8];

/// Seed of the extra-account-meta list, followed by the mint address: `extra-account-meta`.
pub const EXTRA_ACCOUNT_META: [u8; 18] = [
    101u8, 120u8, 116u8, 114u8, 97u8, 45u8, 97u8, 99u8, 99u8, 111u8, 117u8, 110u8, 116u8, 45u8,
    109u8, 101u8, 116u8, 97u8,
];

/// Account discriminator of `Whitelist`: the first eight bytes of the SHA-256
/// digest of `account:Whitelist`.
pub const WHITELIST_DISCRIMINATOR: [u8; 8] = [204u8, 176u8, 52u8, 79u8, 146u8, 121u8, 54u8, 247u8];

/// Discriminator of the transfer-hook interface's `Execute` instruction,
/// which heads the extra-account-meta list: the first eight bytes of the
/// SHA-256 digest of `spl-transfer-hook-interface:execute`.
pub const EXECUTE_DISCRIMINATOR: [u8; 8] = [105u8, 37u8, 101u8, 197u8, 75u8, 251u8, 102u8, 26u8];

/// Copies a byte array into a vector.
pub fn bytes_to_vec<const N: usize>(a: &[u8; N]) -> (r: Vec<u8>)
    ensures
        r@ == a@,
{
    let mut v: Vec<u8> = Vec::new();
    let mut i: usize = 0;
    while i < N
        invariant
            i <= N,
            a@.len() == N,
            v@ == a@.subrange(0, i as int),
        decreases N - i,
    {
        v.push(a[i]);
        i = i + 1;
    }
    assert(v@ =~= a@);
    v
}

} // verus!
