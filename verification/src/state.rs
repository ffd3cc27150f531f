//! Account state of the vault.
use vstd::prelude::*;
use vstd::bytes::*;
use crate::constants::{bytes_to_vec, WHITELIST_DISCRIMINATOR};
use crate::layout::{self, read_amount, read_count};

verus! {

/// The vault's configuration: its administrator.
#[derive(Clone, Copy, Debug)]
pub struct Config {
    pub admin: [u8; 32],
    pub bump: u8,
}

/// A whitelisted user and the amount recorded for them.
#[derive(Clone, Copy, Debug)]
pub struct WhitelistEntry {
    pub user: [u8; 32],
    pub amount: u64,
}

/// The whitelist account.
#[derive(Debug)]
pub struct Whitelist {
    pub bump: u8,
    pub accounts: Vec<WhitelistEntry>,
}

/// The running total of whitelisted amounts.
#[derive(Clone, Copy, Debug)]
pub struct Balance {
    pub amount: u64,
    pub bump: u8,
}

impl WhitelistEntry {
    /// The entry as an (address, amount) pair.
    pub open spec fn pair(self) -> (Seq<u8>, u64) {
        (self.user@, self.amount)
    }
}

/// `data` is the account data of a whitelist with this bump and these entries.
pub open spec fn encodes(data: Seq<u8>, bump: u8, accounts: Seq<WhitelistEntry>) -> bool {
    &&& data.len() == layout::entry_start(accounts.len() as int)
    &&& data.subrange(0, 8) == WHITELIST_DISCRIMINATOR@
    &&& data[8] == bump
    &&& data.subrange(9, 13) == spec_u32_to_le_bytes(accounts.len() as u32)
    &&& forall|j: int|
        0 <= j < accounts.len() ==> {
            &&& #[trigger] layout::user_at(data, j) == accounts[j].user@
            &&& layout::amount_bytes_at(data, j) == spec_u64_to_le_bytes(accounts[j].amount)
        }
}

/// `data` can be read as a whitelist account.
pub open spec fn decodable(data: Seq<u8>) -> bool {
    &&& layout::holds_entries(data)
    &&& data.subrange(0, 8) == WHITELIST_DISCRIMINATOR@
}

impl Whitelist {
    /// Serializes the whitelist as account data: discriminator, bump, entry
    /// count and entries.
    pub fn to_account_data(&self) -> (r: Vec<u8>)
        requires
            self.accounts@.len() <= u32::MAX,
            layout::entry_start(self.accounts@.len() as int) <= usize::MAX,
        ensures
            encodes(r@, self.bump, self.accounts@),
    {
        let n = self.accounts.len();
        let mut data = bytes_to_vec(&WHITELIST_DISCRIMINATOR);
        data.push(self.bump);
        let count = u32_to_le_bytes(n as u32);
        let mut c: usize = 0;
        while c < 4
            invariant
                c <= 4,
                count@.len() == 4,
                data@.len() == 9 + c,
                data@.subrange(0, 8) == WHITELIST_DISCRIMINATOR@,
                data@[8] == self.bump,
                data@.subrange(9, 9 + c as int) == count@.subrange(0, c as int),
            decreases 4 - c,
        {
            data.push(count[c]);
            c = c + 1;
            assert(data@.subrange(9, 9 + c as int) =~= count@.subrange(0, c as int));
            assert(data@.subrange(0, 8) =~= WHITELIST_DISCRIMINATOR@);
        }
        assert(count@.subrange(0, 4) =~= count@);
        let mut i: usize = 0;
        while i < n
            invariant
                i <= n,
                n == self.accounts@.len(),
                n <= u32::MAX,
                layout::entry_start(n as int) <= usize::MAX,
                data@.len() == layout::entry_start(i as int),
                data@.subrange(0, 8) == WHITELIST_DISCRIMINATOR@,
                data@[8] == self.bump,
                data@.subrange(9, 13) == spec_u32_to_le_bytes(n as u32),
                forall|j: int|
                    0 <= j < i ==> {
                        &&& #[trigger] layout::user_at(data@, j) == self.accounts@[j].user@
                        &&& layout::amount_bytes_at(data@, j) == spec_u64_to_le_bytes(
                            self.accounts@[j].amount,
                        )
                    },
            decreases n - i,
        {
            let entry = self.accounts[i];
            let ghost before = data@;
            let mut k: usize = 0;
            while k < 32
                invariant
                    k <= 32,
                    i < n,
                    layout::entry_start(n as int) <= usize::MAX,
                    entry.user@.len() == 32,
                    data@.len() == layout::entry_start(i as int) + k,
                    data@.subrange(0, layout::entry_start(i as int)) == before,
                    data@.subrange(layout::entry_start(i as int), layout::entry_start(i as int) + k)
                        == entry.user@.subrange(0, k as int),
                decreases 32 - k,
            {
                data.push(entry.user[k]);
                k = k + 1;
                assert(data@.subrange(0, layout::entry_start(i as int)) =~= before);
                assert(data@.subrange(layout::entry_start(i as int), layout::entry_start(i as int) + k)
                    =~= entry.user@.subrange(0, k as int));
            }
            let amount = u64_to_le_bytes(entry.amount);
            let mut k: usize = 0;
            while k < 8
                invariant
                    k <= 8,
                    i < n,
                    layout::entry_start(n as int) <= usize::MAX,
                    amount@.len() == 8,
                    data@.len() == layout::entry_start(i as int) + 32 + k,
                    data@.subrange(0, layout::entry_start(i as int)) == before,
                    data@.subrange(layout::entry_start(i as int), layout::entry_start(i as int) + 32)
                        == entry.user@,
                    data@.subrange(layout::entry_start(i as int) + 32, layout::entry_start(i as int) + 32 + k)
                        == amount@.subrange(0, k as int),
                decreases 8 - k,
            {
                data.push(amount[k]);
                k = k + 1;
                assert(data@.subrange(0, layout::entry_start(i as int)) =~= before);
                assert(data@.subrange(layout::entry_start(i as int), layout::entry_start(i as int) + 32)
                    =~= entry.user@) by {
                    assert(entry.user@.subrange(0, 32) =~= entry.user@);
                }
                assert(data@.subrange(layout::entry_start(i as int) + 32, layout::entry_start(i as int) + 32 + k)
                    =~= amount@.subrange(0, k as int));
            }
            assert(amount@.subrange(0, 8) =~= amount@);
            assert forall|j: int| 0 <= j < i + 1 implies #[trigger] layout::user_at(data@, j)
                == self.accounts@[j].user@ && layout::amount_bytes_at(data@, j)
                == spec_u64_to_le_bytes(self.accounts@[j].amount) by {
                if j < i {
                    assert(layout::user_at(data@, j) =~= layout::user_at(before, j));
                    assert(layout::amount_bytes_at(data@, j) =~= layout::amount_bytes_at(before, j));
                } else {
                    assert(layout::user_at(data@, j) == entry.user@);
                    assert(layout::amount_bytes_at(data@, j) == amount@);
                }
            }
            assert(data@.subrange(0, 8) =~= before.subrange(0, 8));
            assert(data@.subrange(9, 13) =~= before.subrange(9, 13));
            assert(data@.len() == layout::entry_start(i + 1));
            i = i + 1;
        }
        data
    }

    /// Reads a whitelist from account data; `None` when the data is too short
    /// for its header or its entries, or does not carry the whitelist
    /// discriminator.
    pub fn from_account_data(data: &Vec<u8>) -> (r: Option<Whitelist>)
        ensures
            r is Some <==> decodable(data@),
            r matches Some(w) ==> {
                &&& w.bump == data@[8]
                &&& w.accounts@.map_values(|e: WhitelistEntry| e.pair()) == layout::entries(data@)
            },
    {
        let len = data.len();
        if len < 13 {
            return None;
        }
        let mut d: usize = 0;
        while d < 8
            invariant
                d <= 8,
                13 <= data@.len(),
                forall|j: int| 0 <= j < d ==> data@[j] == WHITELIST_DISCRIMINATOR@[j],
            decreases 8 - d,
        {
            if data[d] != WHITELIST_DISCRIMINATOR[d] {
                assert(data@.subrange(0, 8)[d as int] != WHITELIST_DISCRIMINATOR@[d as int]);
                return None;
            }
            d = d + 1;
        }
        assert(data@.subrange(0, 8) =~= WHITELIST_DISCRIMINATOR@);
        let count = read_count(data) as usize;
        if count > (len - 13) / 40 {
            return None;
        }
        let mut accounts: Vec<WhitelistEntry> = Vec::new();
        let mut i: usize = 0;
        while i < count
            invariant
                i <= count,
                count == layout::count_of(data@),
                layout::holds_entries(data@),
                len == data@.len(),
                accounts@.len() == i,
                forall|j: int| 0 <= j < i ==> #[trigger] accounts@[j].pair() == layout::entries(data@)[j],
            decreases count - i,
        {
            let start = 13 + i * 40;
            let mut user = [0u8; 32];
            let mut k: usize = 0;
            while k < 32
                invariant
                    k <= 32,
                    start == layout::entry_start(i as int),
                    start + 32 <= data@.len(),
                    len == data@.len(),
                    user@.len() == 32,
                    forall|m: int| 0 <= m < k ==> #[trigger] user@[m] == data@[start + m],
                decreases 32 - k,
            {
                user[k] = data[start + k];
                k = k + 1;
            }
            assert(user@ =~= layout::user_at(data@, i as int));
            let amount = read_amount(data, i);
            accounts.push(WhitelistEntry { user, amount });
            i = i + 1;
        }
        assert(accounts@.map_values(|e: WhitelistEntry| e.pair()) =~= layout::entries(data@));
        Some(Whitelist { bump: data[8], accounts })
    }
}

} // verus!
