//! Adding users to and removing users from the whitelist.
use vstd::prelude::*;
use vstd::bytes::*;
use vstd::slice::{slice_subrange, slice_to_vec};
use crate::constants::bytes_to_vec;
use crate::error::VaultError;
use crate::layout::{self, find_user, ranges_match, read_amount, read_count, write_bytes};
use crate::state::Balance;

verus! {

/// Lamports that must move for the whitelist account to stay rent exempt
/// after a resize.
#[derive(Clone, Copy, Debug, PartialEq, Eq, Structural)]
pub enum LamportMove {
    /// Transferred from the administrator to the whitelist account through
    /// the system program.
    FromAdmin(u64),
    /// Moved from the whitelist account back to the administrator.
    ToAdmin(u64),
}

/// The accounts of the instructions that change the whitelist, as far as
/// their logic reads them.
pub struct OpsWhitelist {
    /// Data of the whitelist account.
    pub whitelist: Vec<u8>,
    /// Lamports held by the whitelist account.
    pub whitelist_lamports: u64,
    /// The balance account.
    pub balance: Balance,
}

/// The whitelist state that the operations change: the whitelist data, the
/// whitelist account's lamports and the balance account.
pub type WhitelistState = (Seq<u8>, u64, Balance);

impl View for OpsWhitelist {
    type V = WhitelistState;

    open spec fn view(&self) -> WhitelistState {
        (self.whitelist@, self.whitelist_lamports, self.balance)
    }
}

/// What adding `user` with `amount` does to the state `s` when the grown
/// account needs `rent_minimum` lamports: the answer and the new state. A
/// user already listed is refused and nothing changes; otherwise the entry
/// is appended, the administrator tops the account up to `rent_minimum`, and
/// the balance grows by `amount`.
pub open spec fn add_step(s: WhitelistState, user: Seq<u8>, amount: u64, rent_minimum: u64) -> (
    Result<LamportMove, VaultError>,
    WhitelistState,
) {
    if layout::has_user(s.0, user) {
        (Err(VaultError::UserAlreadyExists), s)
    } else {
        (
            Ok(LamportMove::FromAdmin((rent_minimum - s.1) as u64)),
            (
                added_data(s.0, user, amount),
                rent_minimum,
                Balance { amount: (s.2.amount + amount) as u64, bump: s.2.bump },
            ),
        )
    }
}

/// What removing `user` does to the state `s` when the shrunk account needs
/// `rent_minimum` lamports: the answer and the new state. A user not listed
/// is refused and nothing changes; otherwise the first entry of `user` is
/// removed, the lamports above `rent_minimum` go back to the administrator,
/// and the entry's amount leaves the balance.
pub open spec fn remove_step(s: WhitelistState, user: Seq<u8>, rent_minimum: u64) -> (
    Result<LamportMove, VaultError>,
    WhitelistState,
) {
    if layout::has_user(s.0, user) {
        let i = choose|i: int| layout::is_first_match(s.0, user, i);
        (
            Ok(LamportMove::ToAdmin((s.1 - rent_minimum) as u64)),
            (
                removed_data(s.0, i),
                rent_minimum,
                Balance { amount: (s.2.amount - layout::amount_at(s.0, i)) as u64, bump: s.2.bump },
            ),
        )
    } else {
        (Err(VaultError::UserDoesNotExist), s)
    }
}

/// `n` zero bytes.
pub open spec fn zeros(n: nat) -> Seq<u8> {
    Seq::new(n, |k: int| 0u8)
}

/// The entry count that follows `c`, as the `u32` cast of the header computes it.
pub open spec fn next_count(c: nat) -> u32 {
    if c < u32::MAX {
        (c + 1) as u32
    } else {
        0u32
    }
}

/// Whitelist data after appending the entry (`user`, `amount`).
pub open spec fn added_data(data: Seq<u8>, user: Seq<u8>, amount: u64) -> Seq<u8> {
    let c = layout::count_of(data);
    let grown = data + zeros(40);
    let with_entry = layout::overwrite(
        grown,
        layout::entry_start(c as int),
        user + spec_u64_to_le_bytes(amount),
    );
    layout::overwrite(with_entry, 9, spec_u32_to_le_bytes(next_count(c)))
}

/// Whitelist data after removing entry `i`: unless entry `i` holds the same
/// address as the last entry, the last entry is copied over it; the count
/// drops by one and the data shrinks by one entry.
pub open spec fn removed_data(data: Seq<u8>, i: int) -> Seq<u8> {
    let c = layout::count_of(data);
    let last = c - 1;
    let moved = if layout::user_at(data, i) != layout::user_at(data, last) {
        layout::overwrite(
            data,
            layout::entry_start(i),
            data.subrange(layout::entry_start(last), layout::entry_start(last) + 40),
        )
    } else {
        data
    };
    layout::overwrite(moved, 9, spec_u32_to_le_bytes((c - 1) as u32)).subrange(
        0,
        data.len() - 40,
    )
}

/// The entries after removing entry `i` as `removed_data` does.
pub open spec fn removed_entries(data: Seq<u8>, i: int) -> Seq<(Seq<u8>, u64)> {
    let e = layout::entries(data);
    let last = layout::count_of(data) - 1;
    if layout::user_at(data, i) != layout::user_at(data, last) {
        e.update(i, e[last]).drop_last()
    } else {
        e.drop_last()
    }
}

/// What appending an entry does to the layout.
pub proof fn lemma_added_data(data: Seq<u8>, user: Seq<u8>, amount: u64)
    requires
        layout::holds_entries(data),
        user.len() == 32,
    ensures
        ({
            let a = added_data(data, user, amount);
            let c = layout::count_of(data);
            &&& a.len() == data.len() + 40
            &&& a.subrange(0, 9) == data.subrange(0, 9)
            &&& layout::count_of(a) == next_count(c)
            &&& layout::holds_entries(a)
            &&& c < u32::MAX ==> layout::entries(a) == layout::entries(data).push((user, amount))
            &&& (c < u32::MAX && layout::is_exact(data)) ==> layout::is_exact(a)
        }),
{
    let a = added_data(data, user, amount);
    let c = layout::count_of(data);
    lemma_auto_spec_u32_to_from_le_bytes();
    lemma_auto_spec_u64_to_from_le_bytes();
    assert(a.subrange(9, 13) =~= spec_u32_to_le_bytes(next_count(c)));
    assert(a.subrange(0, 9) =~= data.subrange(0, 9));
    if c < u32::MAX {
        let e = layout::entries(data).push((user, amount));
        assert forall|j: int| 0 <= j < c + 1 implies #[trigger] layout::entries(a)[j] == e[j] by {
            if j < c {
                assert(layout::user_at(a, j) =~= layout::user_at(data, j));
                assert(layout::amount_bytes_at(a, j) =~= layout::amount_bytes_at(data, j));
            } else {
                assert(layout::user_at(a, j) =~= user);
                assert(layout::amount_bytes_at(a, j) =~= spec_u64_to_le_bytes(amount));
            }
        }
        assert(layout::entries(a) =~= e);
    }
}

/// What removing entry `i` does to the layout.
pub proof fn lemma_removed_data(data: Seq<u8>, i: int)
    requires
        layout::holds_entries(data),
        0 <= i < layout::count_of(data),
    ensures
        ({
            let r = removed_data(data, i);
            let c = layout::count_of(data);
            &&& r.len() == data.len() - 40
            &&& r.subrange(0, 9) == data.subrange(0, 9)
            &&& layout::count_of(r) == c - 1
            &&& layout::holds_entries(r)
            &&& layout::entries(r) == removed_entries(data, i)
            &&& layout::is_exact(data) ==> layout::is_exact(r)
        }),
{
    let r = removed_data(data, i);
    let c = layout::count_of(data);
    let last = c - 1;
    lemma_auto_spec_u32_to_from_le_bytes();
    assert(r.subrange(9, 13) =~= spec_u32_to_le_bytes((c - 1) as u32));
    assert(r.subrange(0, 9) =~= data.subrange(0, 9));
    let e = removed_entries(data, i);
    let moves = layout::user_at(data, i) != layout::user_at(data, last);
    assert forall|j: int| 0 <= j < c - 1 implies #[trigger] layout::entries(r)[j] == e[j] by {
        if j == i && moves {
            assert(layout::user_at(r, j) =~= layout::user_at(data, last));
            assert(layout::amount_bytes_at(r, j) =~= layout::amount_bytes_at(data, last));
        } else {
            assert(layout::user_at(r, j) =~= layout::user_at(data, j));
            assert(layout::amount_bytes_at(r, j) =~= layout::amount_bytes_at(data, j));
        }
    }
    assert(layout::entries(r) =~= e);
}

impl OpsWhitelist {
    /// Resizes the whitelist data by one entry, growing it with zero bytes
    /// when `is_add` and shrinking it otherwise, and says which lamports
    /// must move so that the account holds exactly `rent_minimum`, the
    /// rent-exempt minimum for the new size.
    pub fn realloc_whitelist(&mut self, is_add: bool, rent_minimum: u64) -> (m: LamportMove)
        requires
            is_add ==> old(self).whitelist@.len() + 40 <= usize::MAX,
            is_add ==> old(self).whitelist_lamports <= rent_minimum,
            !is_add ==> 40 <= old(self).whitelist@.len(),
            !is_add ==> rent_minimum <= old(self).whitelist_lamports,
        ensures
            is_add ==> final(self).whitelist@ == old(self).whitelist@ + zeros(40),
            is_add ==> m == LamportMove::FromAdmin(
                (rent_minimum - old(self).whitelist_lamports) as u64,
            ),
            !is_add ==> final(self).whitelist@ == old(self).whitelist@.subrange(
                0,
                old(self).whitelist@.len() - 40,
            ),
            !is_add ==> m == LamportMove::ToAdmin(
                (old(self).whitelist_lamports - rent_minimum) as u64,
            ),
            final(self).whitelist_lamports == rent_minimum,
            final(self).balance == old(self).balance,
    {
        let len = self.whitelist.len();
        if is_add {
            let rent_diff = rent_minimum - self.whitelist_lamports;
            let mut k: usize = 0;
            while k < 40
                invariant
                    k <= 40,
                    len == old(self).whitelist@.len(),
                    len + 40 <= usize::MAX,
                    self.whitelist@ == old(self).whitelist@ + zeros(k as nat),
                    self.whitelist_lamports == old(self).whitelist_lamports,
                    self.balance == old(self).balance,
                decreases 40 - k,
            {
                self.whitelist.push(0u8);
                k = k + 1;
                assert(self.whitelist@ =~= old(self).whitelist@ + zeros(k as nat));
            }
            self.whitelist_lamports = rent_minimum;
            LamportMove::FromAdmin(rent_diff)
        } else {
            let rent_diff = self.whitelist_lamports - rent_minimum;
            self.whitelist.truncate(len - 40);
            self.whitelist_lamports = rent_minimum;
            LamportMove::ToAdmin(rent_diff)
        }
    }

    /// Appends `user` with `amount` to the whitelist, growing the account by
    /// one entry, and adds `amount` to the balance. A user already on the
    /// whitelist is refused and nothing changes.
    pub fn add_whitelist(&mut self, user: [u8; 32], amount: u64, rent_minimum: u64) -> (r: Result<
        LamportMove,
        VaultError,
    >)
        requires
            layout::holds_entries(old(self).whitelist@),
            old(self).whitelist@.len() + 40 <= usize::MAX,
            !layout::has_user(old(self).whitelist@, user@) ==> old(self).whitelist_lamports
                <= rent_minimum,
            !layout::has_user(old(self).whitelist@, user@) ==> old(self).balance.amount + amount
                <= u64::MAX,
        ensures
            (r, final(self)@) == add_step(old(self)@, user@, amount, rent_minimum),
            layout::has_user(old(self).whitelist@, user@) ==> {
                &&& r == Err::<LamportMove, VaultError>(VaultError::UserAlreadyExists)
                &&& *final(self) == *old(self)
            },
            !layout::has_user(old(self).whitelist@, user@) ==> {
                &&& r == Ok::<LamportMove, VaultError>(
                    LamportMove::FromAdmin((rent_minimum - old(self).whitelist_lamports) as u64),
                )
                &&& final(self).whitelist@ == added_data(old(self).whitelist@, user@, amount)
                &&& final(self).whitelist_lamports == rent_minimum
                &&& final(self).balance.amount == old(self).balance.amount + amount
                &&& final(self).balance.bump == old(self).balance.bump
                &&& layout::holds_entries(final(self).whitelist@)
                &&& layout::count_of(old(self).whitelist@) < u32::MAX ==> layout::entries(
                    final(self).whitelist@,
                ) == layout::entries(old(self).whitelist@).push((user@, amount))
            },
    {
        if let Some(_) = find_user(&self.whitelist, &user) {
            return Err(VaultError::UserAlreadyExists);
        }
        let total_users = read_count(&self.whitelist) as usize;
        let ghost d0 = self.whitelist@;
        let lamports = self.realloc_whitelist(true, rent_minimum);
        let start = 13 + total_users * 40;
        let mut data_bytes = bytes_to_vec(&user);
        let amount_bytes = u64_to_le_bytes(amount);
        data_bytes.append(&mut amount_bytes.clone());
        assert(data_bytes@ == user@ + spec_u64_to_le_bytes(amount));
        write_bytes(&mut self.whitelist, start, &data_bytes);
        let new_total: u32 = if total_users < 4294967295usize {
            (total_users + 1) as u32
        } else {
            0u32
        };
        let count_bytes = u32_to_le_bytes(new_total);
        write_bytes(&mut self.whitelist, 9, &count_bytes);
        self.balance.amount = self.balance.amount + amount;
        proof {
            lemma_added_data(d0, user@, amount);
        }
        Ok(lamports)
    }

    /// Removes `user` from the whitelist: the last entry takes its place,
    /// the account shrinks by one entry, and its amount leaves the balance.
    /// A user not on the whitelist is refused and nothing changes.
    pub fn remove_whitelist(&mut self, user: [u8; 32], rent_minimum: u64) -> (r: Result<
        LamportMove,
        VaultError,
    >)
        requires
            layout::holds_entries(old(self).whitelist@),
            layout::count_of(old(self).whitelist@) * 40 <= u32::MAX,
            forall|i: int|
                layout::is_first_match(old(self).whitelist@, user@, i) ==> layout::amount_at(
                    old(self).whitelist@,
                    i,
                ) <= old(self).balance.amount,
            layout::has_user(old(self).whitelist@, user@) ==> rent_minimum <= old(
                self,
            ).whitelist_lamports,
        ensures
            (r, final(self)@) == remove_step(old(self)@, user@, rent_minimum),
            !layout::has_user(old(self).whitelist@, user@) ==> {
                &&& r == Err::<LamportMove, VaultError>(VaultError::UserDoesNotExist)
                &&& *final(self) == *old(self)
            },
            forall|i: int|
                layout::is_first_match(old(self).whitelist@, user@, i) ==> {
                    &&& r == Ok::<LamportMove, VaultError>(
                        LamportMove::ToAdmin((old(self).whitelist_lamports - rent_minimum) as u64),
                    )
                    &&& final(self).whitelist@ == removed_data(old(self).whitelist@, i)
                    &&& final(self).whitelist_lamports == rent_minimum
                    &&& final(self).balance.amount == old(self).balance.amount - layout::amount_at(
                        old(self).whitelist@,
                        i,
                    )
                    &&& final(self).balance.bump == old(self).balance.bump
                    &&& layout::holds_entries(final(self).whitelist@)
                    &&& layout::entries(final(self).whitelist@) == removed_entries(
                        old(self).whitelist@,
                        i,
                    )
                },
    {
        let found = find_user(&self.whitelist, &user);
        let i = match found {
            Some(i) => i,
            None => {
                return Err(VaultError::UserDoesNotExist);
            },
        };
        proof {
            assert forall|j: int| layout::is_first_match(old(self).whitelist@, user@, j) implies j
                == i by {
                layout::lemma_first_match_unique(old(self).whitelist@, user@, i as int, j);
            }
        }
        let ghost d0 = self.whitelist@;
        let mut total_users = read_count(&self.whitelist);
        let start_offset = 13 + i * 40;
        let last_end = 13 + ((total_users * 40) as usize);
        let last_start = last_end - 40;
        let user_balance = read_amount(&self.whitelist, i);
        self.balance.amount = self.balance.amount - user_balance;
        if !ranges_match(&self.whitelist, start_offset, last_start) {
            let last_data = slice_to_vec(
                slice_subrange(self.whitelist.as_slice(), last_start, last_end),
            );
            write_bytes(&mut self.whitelist, start_offset, &last_data);
        }
        total_users = total_users - 1;
        let count_bytes = u32_to_le_bytes(total_users);
        write_bytes(&mut self.whitelist, 9, &count_bytes);
        let lamports = self.realloc_whitelist(false, rent_minimum);
        proof {
            lemma_removed_data(d0, i as int);
        }
        Ok(lamports)
    }
}

} // verus!
