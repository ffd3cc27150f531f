//! Properties of the vault that span its operations.
use vstd::prelude::*;
use vstd::bytes::*;
use crate::error::VaultError;
use crate::layout;
use crate::ops_whitelist;
use crate::ops_whitelist::{LamportMove, WhitelistState};
use crate::state;
use crate::transfer_hook;

verus! {

/// Sum of the amounts of a sequence of entries.
pub open spec fn total_amount(e: Seq<(Seq<u8>, u64)>) -> int
    decreases e.len(),
{
    if e.len() == 0 {
        0
    } else {
        total_amount(e.drop_last()) + e.last().1
    }
}

/// The whitelist data ends after its counted entries, no address occurs
/// twice, and `balance` is the sum of the recorded amounts.
pub open spec fn vault_consistent(data: Seq<u8>, balance: u64) -> bool {
    &&& layout::holds_entries(data)
    &&& layout::is_exact(data)
    &&& layout::users_distinct(data)
    &&& total_amount(layout::entries(data)) == balance
}

/// Replacing one entry changes the sum by the difference of the amounts.
pub proof fn lemma_total_amount_update(e: Seq<(Seq<u8>, u64)>, i: int, v: (Seq<u8>, u64))
    requires
        0 <= i < e.len(),
    ensures
        total_amount(e.update(i, v)) == total_amount(e) - e[i].1 + v.1,
    decreases e.len(),
{
    let u = e.update(i, v);
    if i == e.len() - 1 {
        assert(u.drop_last() =~= e.drop_last());
    } else {
        assert(u.drop_last() =~= e.drop_last().update(i, v));
        lemma_total_amount_update(e.drop_last(), i, v);
    }
}

/// A sum of amounts is never negative.
pub proof fn lemma_total_amount_nonneg(e: Seq<(Seq<u8>, u64)>)
    ensures
        total_amount(e) >= 0,
    decreases e.len(),
{
    if e.len() > 0 {
        lemma_total_amount_nonneg(e.drop_last());
    }
}

/// The account data of a freshly created whitelist, with a zero balance,
/// forms a consistent vault.
pub proof fn law_initial_vault_consistent(data: Seq<u8>, bump: u8)
    requires
        state::encodes(data, bump, Seq::<state::WhitelistEntry>::empty()),
    ensures
        vault_consistent(data, 0),
{
    lemma_auto_spec_u32_to_from_le_bytes();
    assert(spec_u32_to_le_bytes(0u32).len() == 4);
    assert(spec_u32_from_le_bytes(spec_u32_to_le_bytes(0u32)) == 0u32);
    assert(data.subrange(9, 13) == spec_u32_to_le_bytes(0u32));
    assert(layout::count_of(data) == 0);
    assert(layout::entries(data) =~= Seq::<(Seq<u8>, u64)>::empty());
}

/// Account data written for a whitelist reads back as the same bump and
/// entries.
pub proof fn law_encoding_reads_back(data: Seq<u8>, bump: u8, accounts: Seq<state::WhitelistEntry>)
    requires
        state::encodes(data, bump, accounts),
        accounts.len() <= u32::MAX,
    ensures
        state::decodable(data),
        data[8] == bump,
        layout::entries(data) == accounts.map_values(|e: state::WhitelistEntry| e.pair()),
{
    lemma_auto_spec_u32_to_from_le_bytes();
    lemma_auto_spec_u64_to_from_le_bytes();
    let n = accounts.len() as u32;
    assert(spec_u32_to_le_bytes(n).len() == 4);
    assert(spec_u32_from_le_bytes(spec_u32_to_le_bytes(n)) == n);
    assert(layout::count_of(data) == accounts.len());
    assert forall|j: int| 0 <= j < accounts.len() implies #[trigger] layout::entries(data)[j]
        == accounts.map_values(|e: state::WhitelistEntry| e.pair())[j] by {
        assert(layout::user_at(data, j) == accounts[j].user@);
        assert(layout::amount_bytes_at(data, j) == spec_u64_to_le_bytes(accounts[j].amount));
    }
    assert(layout::entries(data) =~= accounts.map_values(|e: state::WhitelistEntry| e.pair()));
}

/// Adding a user who is not yet whitelisted keeps the vault consistent,
/// with the amount added to the balance.
pub proof fn lemma_add_keeps_vault_consistent(data: Seq<u8>, balance: u64, user: Seq<u8>, amount: u64)
    requires
        vault_consistent(data, balance),
        user.len() == 32,
        !layout::has_user(data, user),
        layout::count_of(data) < u32::MAX,
        balance + amount <= u64::MAX,
    ensures
        vault_consistent(ops_whitelist::added_data(data, user, amount), (balance + amount) as u64),
{
    let a = ops_whitelist::added_data(data, user, amount);
    let c = layout::count_of(data);
    ops_whitelist::lemma_added_data(data, user, amount);
    let e = layout::entries(data).push((user, amount));
    assert(layout::entries(a) == e);
    assert(e.drop_last() =~= layout::entries(data));
    assert forall|i: int, j: int|
        0 <= i < layout::count_of(a) && 0 <= j < layout::count_of(a) && i != j implies
        layout::user_at(a, i) != layout::user_at(a, j) by {
        assert(layout::user_at(a, i) == e[i].0);
        assert(layout::user_at(a, j) == e[j].0);
        if i < c && j < c {
            assert(layout::user_at(data, i) == e[i].0);
            assert(layout::user_at(data, j) == e[j].0);
        } else if i < c {
            assert(layout::user_at(data, i) == e[i].0);
        } else {
            assert(layout::user_at(data, j) == e[j].0);
        }
    }
}

/// Removing a whitelisted user keeps the vault consistent, with that user's
/// amount taken from the balance.
pub proof fn lemma_remove_keeps_vault_consistent(data: Seq<u8>, balance: u64, user: Seq<u8>, i: int)
    requires
        vault_consistent(data, balance),
        layout::is_first_match(data, user, i),
    ensures
        layout::amount_at(data, i) <= balance,
        vault_consistent(
            ops_whitelist::removed_data(data, i),
            (balance - layout::amount_at(data, i)) as u64,
        ),
{
    let r = ops_whitelist::removed_data(data, i);
    let c = layout::count_of(data);
    let last = c - 1;
    let e = layout::entries(data);
    ops_whitelist::lemma_removed_data(data, i);
    let re = layout::entries(r);
    assert(e[i].1 == layout::amount_at(data, i));
    if i != last {
        assert(layout::user_at(data, i) != layout::user_at(data, last));
        let u = e.update(i, e[last]);
        assert(re == u.drop_last());
        lemma_total_amount_update(e, i, e[last]);
        assert(total_amount(u) == total_amount(u.drop_last()) + u.last().1);
        let z = e.update(i, (e[i].0, 0u64));
        lemma_total_amount_update(e, i, (e[i].0, 0u64));
        lemma_total_amount_nonneg(z);
        assert forall|a: int, b: int|
            0 <= a < layout::count_of(r) && 0 <= b < layout::count_of(r) && a != b implies
            layout::user_at(r, a) != layout::user_at(r, b) by {
            assert(layout::user_at(r, a) == re[a].0);
            assert(layout::user_at(r, b) == re[b].0);
            let a0 = if a == i { last } else { a };
            let b0 = if b == i { last } else { b };
            assert(re[a].0 == layout::user_at(data, a0));
            assert(re[b].0 == layout::user_at(data, b0));
        }
    } else {
        assert(re == e.drop_last());
        assert(total_amount(e) == total_amount(e.drop_last()) + e.last().1);
        lemma_total_amount_nonneg(e.drop_last());
        assert forall|a: int, b: int|
            0 <= a < layout::count_of(r) && 0 <= b < layout::count_of(r) && a != b implies
            layout::user_at(r, a) != layout::user_at(r, b) by {
            assert(layout::user_at(r, a) == re[a].0);
            assert(layout::user_at(r, b) == re[b].0);
            assert(re[a].0 == layout::user_at(data, a));
            assert(re[b].0 == layout::user_at(data, b));
        }
    }
}

/// Removing a user right after adding them restores the whitelist data
/// byte for byte.
pub proof fn lemma_remove_undoes_add_data(data: Seq<u8>, user: Seq<u8>, amount: u64)
    requires
        layout::holds_entries(data),
        layout::is_exact(data),
        user.len() == 32,
        !layout::has_user(data, user),
        layout::count_of(data) < u32::MAX,
    ensures
        layout::is_first_match(
            ops_whitelist::added_data(data, user, amount),
            user,
            layout::count_of(data) as int,
        ),
        layout::amount_at(ops_whitelist::added_data(data, user, amount), layout::count_of(data) as int)
            == amount,
        ops_whitelist::removed_data(
            ops_whitelist::added_data(data, user, amount),
            layout::count_of(data) as int,
        ) == data,
{
    let a = ops_whitelist::added_data(data, user, amount);
    let c = layout::count_of(data);
    ops_whitelist::lemma_added_data(data, user, amount);
    lemma_auto_spec_u32_to_from_le_bytes();
    let e = layout::entries(a);
    assert(e[c as int] == (user, amount));
    assert(layout::user_at(a, c as int) == user);
    assert forall|j: int| 0 <= j < c implies #[trigger] layout::user_at(a, j) != user by {
        assert(e[j] == layout::entries(data)[j]);
        assert(layout::user_at(a, j) == layout::user_at(data, j));
    }
    assert(spec_u32_to_le_bytes(c as u32) == data.subrange(9, 13));
    let r = ops_whitelist::removed_data(a, c as int);
    assert(r =~= data);
}

/// A user just added passes the hook exactly for the transfers of at most
/// the amount they were added with.
pub proof fn law_added_user_verdict(data: Seq<u8>, user: Seq<u8>, amount: u64, transfer: u64)
    requires
        layout::holds_entries(data),
        user.len() == 32,
        !layout::has_user(data, user),
        layout::count_of(data) < u32::MAX,
    ensures
        transfer_hook::transfer_verdict(ops_whitelist::added_data(data, user, amount), user, transfer)
            == if amount < transfer {
            Err::<(), VaultError>(VaultError::InsufficientFunds)
        } else {
            Ok(())
        },
{
    let a = ops_whitelist::added_data(data, user, amount);
    let c = layout::count_of(data) as int;
    ops_whitelist::lemma_added_data(data, user, amount);
    let e = layout::entries(a);
    assert(e[c] == (user, amount));
    assert(layout::user_at(a, c) == user);
    assert forall|j: int| 0 <= j < c implies #[trigger] layout::user_at(a, j) != user by {
        assert(e[j] == layout::entries(data)[j]);
    }
    assert(layout::is_first_match(a, user, c));
    let i = choose|i: int| layout::is_first_match(a, user, i);
    layout::lemma_first_match_unique(a, user, i, c);
}

/// After `add_whitelist` accepts `user` with `amount` (the entry appended,
/// the balance grown, the account paid to its new rent minimum), the hook
/// lets through every transfer of theirs of at most `amount`.
pub proof fn law_added_user_allowance(
    s: WhitelistState,
    user: Seq<u8>,
    amount: u64,
    rent_minimum: u64,
    transfer: u64,
)
    requires
        layout::holds_entries(s.0),
        user.len() == 32,
        layout::count_of(s.0) < u32::MAX,
        ops_whitelist::add_step(s, user, amount, rent_minimum).0 is Ok,
        transfer <= amount,
    ensures
        transfer_hook::transfer_verdict(
            ops_whitelist::add_step(s, user, amount, rent_minimum).1.0,
            user,
            transfer,
        ) == Ok::<(), VaultError>(()),
{
    law_added_user_verdict(s.0, user, amount, transfer);
}

/// The hook's verdict is monotone in the amount: on the same whitelist, an
/// owner who may transfer `larger` may transfer any `smaller` amount too.
pub proof fn law_verdict_monotone(data: Seq<u8>, owner: Seq<u8>, smaller: u64, larger: u64)
    requires
        smaller <= larger,
        transfer_hook::transfer_verdict(data, owner, larger) is Ok,
    ensures
        transfer_hook::transfer_verdict(data, owner, smaller) is Ok,
{
}

/// Once removed, a user whose address occurred once is no longer on the
/// whitelist.
pub proof fn lemma_removed_user_absent(data: Seq<u8>, user: Seq<u8>, i: int)
    requires
        layout::holds_entries(data),
        layout::users_distinct(data),
        layout::is_first_match(data, user, i),
    ensures
        !layout::has_user(ops_whitelist::removed_data(data, i), user),
{
    let r = ops_whitelist::removed_data(data, i);
    let last = layout::count_of(data) - 1;
    ops_whitelist::lemma_removed_data(data, i);
    let re = layout::entries(r);
    assert forall|j: int| 0 <= j < layout::count_of(r) implies #[trigger] layout::user_at(r, j)
        != user by {
        assert(layout::user_at(r, j) == re[j].0);
        if i != last {
            assert(layout::user_at(data, i) != layout::user_at(data, last));
            let j0 = if j == i { last } else { j };
            assert(re[j].0 == layout::user_at(data, j0));
        } else {
            assert(re[j].0 == layout::user_at(data, j));
        }
    }
}

/// The whitelist data ends after its counted entries, no address occurs
/// twice, the balance is the sum of the listed amounts, and the whitelist
/// account holds exactly the rent-exempt minimum that `rent` gives for its
/// size.
pub open spec fn vault_invariant(s: WhitelistState, rent: spec_fn(nat) -> u64) -> bool {
    &&& vault_consistent(s.0, s.2.amount)
    &&& s.1 == rent(s.0.len())
}

/// A listed user has a first entry.
pub proof fn lemma_first_match_exists(data: Seq<u8>, user: Seq<u8>, i: int)
    requires
        0 <= i < layout::count_of(data),
        layout::user_at(data, i) == user,
    ensures
        exists|j: int| layout::is_first_match(data, user, j),
    decreases i,
{
    if exists|j: int| 0 <= j < i && #[trigger] layout::user_at(data, j) == user {
        let j = choose|j: int| 0 <= j < i && #[trigger] layout::user_at(data, j) == user;
        lemma_first_match_exists(data, user, j);
    } else {
        assert(layout::is_first_match(data, user, i));
    }
}

/// Appending an entry for another address leaves an absent address absent.
pub proof fn lemma_add_keeps_absent(data: Seq<u8>, user: Seq<u8>, amount: u64, other: Seq<u8>)
    requires
        layout::holds_entries(data),
        user.len() == 32,
        user != other,
        !layout::has_user(data, other),
    ensures
        !layout::has_user(ops_whitelist::added_data(data, user, amount), other),
{
    let a = ops_whitelist::added_data(data, user, amount);
    let c = layout::count_of(data);
    ops_whitelist::lemma_added_data(data, user, amount);
    if c < u32::MAX {
        let e = layout::entries(a);
        assert forall|j: int| 0 <= j < layout::count_of(a) implies #[trigger] layout::user_at(a, j)
            != other by {
            assert(layout::user_at(a, j) == e[j].0);
            if j < c {
                assert(e[j] == layout::entries(data)[j]);
            }
        }
    }
}

/// Removing an entry leaves an absent address absent.
pub proof fn lemma_remove_keeps_absent(data: Seq<u8>, i: int, other: Seq<u8>)
    requires
        layout::holds_entries(data),
        0 <= i < layout::count_of(data),
        !layout::has_user(data, other),
    ensures
        !layout::has_user(ops_whitelist::removed_data(data, i), other),
{
    let r = ops_whitelist::removed_data(data, i);
    let last = layout::count_of(data) - 1;
    ops_whitelist::lemma_removed_data(data, i);
    let re = layout::entries(r);
    assert forall|j: int| 0 <= j < layout::count_of(r) implies #[trigger] layout::user_at(r, j)
        != other by {
        assert(layout::user_at(r, j) == re[j].0);
        if layout::user_at(data, i) != layout::user_at(data, last) {
            let j0 = if j == i { last } else { j };
            assert(re[j].0 == layout::user_at(data, j0));
        } else {
            assert(re[j].0 == layout::user_at(data, j));
        }
    }
}

/// Adding a user keeps the vault invariant when the grown account is paid
/// to its rent-exempt minimum: a new user is accepted, a listed one refused.
pub proof fn law_add_keeps_vault_invariant(
    s: WhitelistState,
    rent: spec_fn(nat) -> u64,
    user: Seq<u8>,
    amount: u64,
)
    requires
        vault_invariant(s, rent),
        user.len() == 32,
        layout::count_of(s.0) < u32::MAX,
        !layout::has_user(s.0, user) ==> s.2.amount + amount <= u64::MAX,
    ensures
        ({
            let (r, t) = ops_whitelist::add_step(s, user, amount, rent(s.0.len() + 40));
            &&& r is Ok <==> !layout::has_user(s.0, user)
            &&& vault_invariant(t, rent)
        }),
{
    if !layout::has_user(s.0, user) {
        lemma_add_keeps_vault_consistent(s.0, s.2.amount, user, amount);
        ops_whitelist::lemma_added_data(s.0, user, amount);
    }
}

/// Removing a user keeps the vault invariant when the shrunk account is
/// paid down to its rent-exempt minimum: a listed user is accepted, an
/// absent one refused.
pub proof fn law_remove_keeps_vault_invariant(s: WhitelistState, rent: spec_fn(nat) -> u64, user: Seq<u8>)
    requires
        vault_invariant(s, rent),
    ensures
        ({
            let (r, t) = ops_whitelist::remove_step(s, user, rent((s.0.len() - 40) as nat));
            &&& r is Ok <==> layout::has_user(s.0, user)
            &&& vault_invariant(t, rent)
        }),
{
    if layout::has_user(s.0, user) {
        let w = choose|j: int| 0 <= j < layout::count_of(s.0) && #[trigger] layout::user_at(s.0, j) == user;
        lemma_first_match_exists(s.0, user, w);
        let i = choose|i: int| layout::is_first_match(s.0, user, i);
        lemma_remove_keeps_vault_consistent(s.0, s.2.amount, user, i);
        ops_whitelist::lemma_removed_data(s.0, i);
    }
}

/// Removing a user right after adding them restores the whole state: the
/// whitelist data byte for byte, its lamports and the balance; and the
/// lamports the administrator paid for the growth come back to them.
pub proof fn law_remove_undoes_add(
    s: WhitelistState,
    rent: spec_fn(nat) -> u64,
    user: Seq<u8>,
    amount: u64,
)
    requires
        layout::holds_entries(s.0),
        layout::is_exact(s.0),
        s.1 == rent(s.0.len()),
        user.len() == 32,
        !layout::has_user(s.0, user),
        layout::count_of(s.0) < u32::MAX,
        s.2.amount + amount <= u64::MAX,
    ensures
        ({
            let (r1, s1) = ops_whitelist::add_step(s, user, amount, rent(s.0.len() + 40));
            let (r2, s2) = ops_whitelist::remove_step(s1, user, rent((s1.0.len() - 40) as nat));
            let d = (rent(s.0.len() + 40) - rent(s.0.len())) as u64;
            &&& r1 == Ok::<LamportMove, VaultError>(LamportMove::FromAdmin(d))
            &&& r2 == Ok::<LamportMove, VaultError>(LamportMove::ToAdmin(d))
            &&& s2 == s
        }),
{
    let c = layout::count_of(s.0) as int;
    let a = ops_whitelist::added_data(s.0, user, amount);
    lemma_remove_undoes_add_data(s.0, user, amount);
    ops_whitelist::lemma_added_data(s.0, user, amount);
    assert(layout::has_user(a, user));
    let i = choose|i: int| layout::is_first_match(a, user, i);
    layout::lemma_first_match_unique(a, user, i, c);
    lemma_auto_spec_u64_to_from_le_bytes();
    assert(spec_u64_to_le_bytes(amount).len() == 8);
}

/// Two new users added one after the other give the same vault in either
/// order: the same entries up to order, the same size, lamports and
/// balance, and the same lamport moves asked of the administrator.
pub proof fn law_adds_commute(
    s: WhitelistState,
    rent: spec_fn(nat) -> u64,
    u1: Seq<u8>,
    a1: u64,
    u2: Seq<u8>,
    a2: u64,
)
    requires
        layout::holds_entries(s.0),
        u1.len() == 32,
        u2.len() == 32,
        u1 != u2,
        !layout::has_user(s.0, u1),
        !layout::has_user(s.0, u2),
        layout::count_of(s.0) + 1 < u32::MAX,
        s.2.amount + a1 + a2 <= u64::MAX,
    ensures
        ({
            let (r1, t1) = ops_whitelist::add_step(s, u1, a1, rent(s.0.len() + 40));
            let (r2, t2) = ops_whitelist::add_step(t1, u2, a2, rent(t1.0.len() + 40));
            let (q1, w1) = ops_whitelist::add_step(s, u2, a2, rent(s.0.len() + 40));
            let (q2, w2) = ops_whitelist::add_step(w1, u1, a1, rent(w1.0.len() + 40));
            &&& r1 is Ok && r2 is Ok && q1 is Ok && q2 is Ok
            &&& r1 == q1 && r2 == q2
            &&& layout::entries(t2.0).to_multiset() == layout::entries(w2.0).to_multiset()
            &&& t2.0.len() == w2.0.len()
            &&& t2.1 == w2.1
            &&& t2.2 == w2.2
        }),
{
    let d = s.0;
    let e = layout::entries(d);
    let t1 = ops_whitelist::added_data(d, u1, a1);
    let w1 = ops_whitelist::added_data(d, u2, a2);
    ops_whitelist::lemma_added_data(d, u1, a1);
    ops_whitelist::lemma_added_data(d, u2, a2);
    lemma_add_keeps_absent(d, u1, a1, u2);
    lemma_add_keeps_absent(d, u2, a2, u1);
    ops_whitelist::lemma_added_data(t1, u2, a2);
    ops_whitelist::lemma_added_data(w1, u1, a1);
    let t2 = ops_whitelist::added_data(t1, u2, a2);
    let w2 = ops_whitelist::added_data(w1, u1, a1);
    assert(layout::entries(t2) == e.push((u1, a1)).push((u2, a2)));
    assert(layout::entries(w2) == e.push((u2, a2)).push((u1, a1)));
    broadcast use vstd::seq_lib::group_to_multiset_ensures;
    assert(layout::entries(t2).to_multiset() =~= layout::entries(w2).to_multiset());
}

/// The operations `ops` applied in turn to `s`: `(true, user, amount)` adds
/// `user` with `amount`, `(false, user, _)` removes `user`, and each resize
/// is paid to the rent-exempt minimum that `rent` gives for the new size.
pub open spec fn run(s: WhitelistState, ops: Seq<(bool, Seq<u8>, u64)>, rent: spec_fn(nat) -> u64) -> WhitelistState
    decreases ops.len(),
{
    if ops.len() == 0 {
        s
    } else {
        let op = ops[0];
        let next = if op.0 {
            ops_whitelist::add_step(s, op.1, op.2, rent(s.0.len() + 40)).1
        } else {
            ops_whitelist::remove_step(s, op.1, rent((s.0.len() - 40) as nat)).1
        };
        run(next, ops.drop_first(), rent)
    }
}

/// Operations that never add `user` keep an absent `user` absent.
pub proof fn lemma_run_keeps_absent(
    s: WhitelistState,
    ops: Seq<(bool, Seq<u8>, u64)>,
    rent: spec_fn(nat) -> u64,
    user: Seq<u8>,
)
    requires
        layout::holds_entries(s.0),
        !layout::has_user(s.0, user),
        forall|k: int| 0 <= k < ops.len() ==> (#[trigger] ops[k]).1.len() == 32,
        forall|k: int| 0 <= k < ops.len() && (#[trigger] ops[k]).0 ==> ops[k].1 != user,
    ensures
        layout::holds_entries(run(s, ops, rent).0),
        !layout::has_user(run(s, ops, rent).0, user),
    decreases ops.len(),
{
    if ops.len() > 0 {
        let op = ops[0];
        if op.0 {
            if !layout::has_user(s.0, op.1) {
                ops_whitelist::lemma_added_data(s.0, op.1, op.2);
                lemma_add_keeps_absent(s.0, op.1, op.2, user);
            }
        } else if layout::has_user(s.0, op.1) {
            let w = choose|j: int| 0 <= j < layout::count_of(s.0) && #[trigger] layout::user_at(s.0, j) == op.1;
            lemma_first_match_exists(s.0, op.1, w);
            let i = choose|i: int| layout::is_first_match(s.0, op.1, i);
            ops_whitelist::lemma_removed_data(s.0, i);
            lemma_remove_keeps_absent(s.0, i, user);
        }
        let next = if op.0 {
            ops_whitelist::add_step(s, op.1, op.2, rent(s.0.len() + 40)).1
        } else {
            ops_whitelist::remove_step(s, op.1, rent((s.0.len() - 40) as nat)).1
        };
        let rest = ops.drop_first();
        assert forall|k: int| 0 <= k < rest.len() implies (#[trigger] rest[k]).1.len() == 32 by {
            assert(rest[k] == ops[k + 1]);
        }
        assert forall|k: int| 0 <= k < rest.len() && (#[trigger] rest[k]).0 implies rest[k].1 != user by {
            assert(rest[k] == ops[k + 1]);
        }
        lemma_run_keeps_absent(next, rest, rent, user);
    }
}

/// Once a user is removed, the hook refuses every transfer of theirs as
/// from a user who does not exist, whatever adds of other users and
/// removals follow.
pub proof fn law_removed_user_stays_refused(
    s: WhitelistState,
    rent: spec_fn(nat) -> u64,
    user: Seq<u8>,
    ops: Seq<(bool, Seq<u8>, u64)>,
    transfer: u64,
)
    requires
        layout::holds_entries(s.0),
        layout::users_distinct(s.0),
        layout::has_user(s.0, user),
        forall|k: int| 0 <= k < ops.len() ==> (#[trigger] ops[k]).1.len() == 32,
        forall|k: int| 0 <= k < ops.len() && (#[trigger] ops[k]).0 ==> ops[k].1 != user,
    ensures
        ({
            let (r, t) = ops_whitelist::remove_step(s, user, rent((s.0.len() - 40) as nat));
            &&& r is Ok
            &&& transfer_hook::transfer_verdict(run(t, ops, rent).0, user, transfer)
                == Err::<(), VaultError>(VaultError::UserDoesNotExist)
        }),
{
    let w = choose|j: int| 0 <= j < layout::count_of(s.0) && #[trigger] layout::user_at(s.0, j) == user;
    lemma_first_match_exists(s.0, user, w);
    let i = choose|i: int| layout::is_first_match(s.0, user, i);
    lemma_removed_user_absent(s.0, user, i);
    ops_whitelist::lemma_removed_data(s.0, i);
    let t = ops_whitelist::remove_step(s, user, rent((s.0.len() - 40) as nat)).1;
    lemma_run_keeps_absent(t, ops, rent, user);
}

/// The hook judges an owner by the owner's own first entry alone: a listed
/// owner passes exactly when the amount recorded in that entry is at least
/// the transfer amount, and is refused for insufficient funds otherwise,
/// wherever the entry stands and whatever the other entries record.
pub proof fn law_verdict_reads_owner_entry(data: Seq<u8>, owner: Seq<u8>, i: int, amount: u64)
    requires
        layout::is_first_match(data, owner, i),
    ensures
        transfer_hook::transfer_verdict(data, owner, amount) == if layout::amount_at(data, i)
            >= amount {
            Ok::<(), VaultError>(())
        } else {
            Err::<(), VaultError>(VaultError::InsufficientFunds)
        },
{
    assert(layout::has_user(data, owner));
    let j = choose|j: int| layout::is_first_match(data, owner, j);
    layout::lemma_first_match_unique(data, owner, i, j);
}

/// Adding another user does not change the hook's verdict for a listed
/// owner, for any transfer amount.
pub proof fn law_add_keeps_other_verdicts(
    data: Seq<u8>,
    user: Seq<u8>,
    amount: u64,
    owner: Seq<u8>,
    transfer: u64,
)
    requires
        layout::holds_entries(data),
        user.len() == 32,
        user != owner,
        layout::has_user(data, owner),
        layout::count_of(data) < u32::MAX,
    ensures
        transfer_hook::transfer_verdict(ops_whitelist::added_data(data, user, amount), owner, transfer)
            == transfer_hook::transfer_verdict(data, owner, transfer),
{
    let a = ops_whitelist::added_data(data, user, amount);
    let c = layout::count_of(data) as int;
    let w = choose|j: int| 0 <= j < c && #[trigger] layout::user_at(data, j) == owner;
    lemma_first_match_exists(data, owner, w);
    let i = choose|i: int| layout::is_first_match(data, owner, i);
    ops_whitelist::lemma_added_data(data, user, amount);
    let e = layout::entries(a);
    assert(e[i] == layout::entries(data)[i]);
    assert forall|j: int| 0 <= j < i implies #[trigger] layout::user_at(a, j) != owner by {
        assert(e[j] == layout::entries(data)[j]);
        assert(layout::user_at(data, j) != owner);
    }
    assert(layout::is_first_match(a, owner, i));
    law_verdict_reads_owner_entry(data, owner, i, transfer);
    law_verdict_reads_owner_entry(a, owner, i, transfer);
}

/// Removing the entry of a user leaves every other user with exactly the
/// address and amount it had: entries before the last keep their place,
/// and the last entry, unchanged, fills the removed one's place.
pub proof fn law_remove_keeps_other_entries(data: Seq<u8>, user: Seq<u8>, i: int)
    requires
        layout::holds_entries(data),
        layout::users_distinct(data),
        layout::is_first_match(data, user, i),
    ensures
        ({
            let r = ops_whitelist::removed_data(data, i);
            let c = layout::count_of(data) as int;
            &&& layout::count_of(r) == c - 1
            &&& forall|j: int|
                0 <= j < c - 1 && j != i ==> #[trigger] layout::user_at(r, j) == layout::user_at(
                    data,
                    j,
                ) && layout::amount_at(r, j) == layout::amount_at(data, j)
            &&& i < c - 1 ==> layout::user_at(r, i) == layout::user_at(data, c - 1)
                && layout::amount_at(r, i) == layout::amount_at(data, c - 1)
        }),
{
    let r = ops_whitelist::removed_data(data, i);
    let c = layout::count_of(data) as int;
    ops_whitelist::lemma_removed_data(data, i);
    let e = layout::entries(data);
    let re = layout::entries(r);
    assert forall|j: int| 0 <= j < c - 1 && j != i implies #[trigger] layout::user_at(r, j)
        == layout::user_at(data, j) && layout::amount_at(r, j) == layout::amount_at(data, j) by {
        assert(re[j] == (layout::user_at(r, j), layout::amount_at(r, j)));
        assert(e[j] == (layout::user_at(data, j), layout::amount_at(data, j)));
        if i < c - 1 {
            assert(layout::user_at(data, i) != layout::user_at(data, c - 1));
        }
    }
    if i < c - 1 {
        assert(layout::user_at(data, i) != layout::user_at(data, c - 1));
        assert(re[i] == (layout::user_at(r, i), layout::amount_at(r, i)));
        assert(e[c - 1] == (layout::user_at(data, c - 1), layout::amount_at(data, c - 1)));
    }
}

} // verus!
