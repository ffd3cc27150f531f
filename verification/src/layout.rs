//! Byte layout of the whitelist account.
//!
//! The account holds an eight-byte discriminator, a one-byte bump, the number
//! of entries as a little-endian `u32` at bytes 9..13, and then the entries,
//! 40 bytes each: the 32 bytes of the user's address followed by the amount
//! as a little-endian `u64`.
use vstd::prelude::*;
use vstd::bytes::*;
use vstd::slice::slice_subrange;

verus! {

/// The entry count recorded in the header.
pub open spec fn count_of(data: Seq<u8>) -> nat {
    spec_u32_from_le_bytes(data.subrange(9, 13)) as nat
}

/// Offset of entry `i`.
pub open spec fn entry_start(i: int) -> int {
    13 + 40 * i
}

/// The address stored in entry `i`.
pub open spec fn user_at(data: Seq<u8>, i: int) -> Seq<u8> {
    data.subrange(entry_start(i), entry_start(i) + 32)
}

/// The eight bytes of the amount stored in entry `i`.
pub open spec fn amount_bytes_at(data: Seq<u8>, i: int) -> Seq<u8> {
    data.subrange(entry_start(i) + 32, entry_start(i) + 40)
}

/// The amount stored in entry `i`.
pub open spec fn amount_at(data: Seq<u8>, i: int) -> u64 {
    spec_u64_from_le_bytes(amount_bytes_at(data, i))
}

/// The header is present and every counted entry lies inside the data.
pub open spec fn holds_entries(data: Seq<u8>) -> bool {
    &&& 13 <= data.len()
    &&& entry_start(count_of(data) as int) <= data.len()
}

/// The data ends right after the last counted entry.
pub open spec fn is_exact(data: Seq<u8>) -> bool {
    data.len() == entry_start(count_of(data) as int)
}

/// The counted entries as (address, amount) pairs.
pub open spec fn entries(data: Seq<u8>) -> Seq<(Seq<u8>, u64)> {
    Seq::new(count_of(data), |i: int| (user_at(data, i), amount_at(data, i)))
}

/// Some counted entry holds `user`.
pub open spec fn has_user(data: Seq<u8>, user: Seq<u8>) -> bool {
    exists|i: int| 0 <= i < count_of(data) && #[trigger] user_at(data, i) == user
}

/// Entry `i` is the first counted entry that holds `user`.
pub open spec fn is_first_match(data: Seq<u8>, user: Seq<u8>, i: int) -> bool {
    &&& 0 <= i < count_of(data)
    &&& user_at(data, i) == user
    &&& forall|j: int| 0 <= j < i ==> #[trigger] user_at(data, j) != user
}

/// `data` with the bytes from `at` on replaced by `bytes`.
pub open spec fn overwrite(data: Seq<u8>, at: int, bytes: Seq<u8>) -> Seq<u8> {
    Seq::new(data.len(), |k: int| if at <= k < at + bytes.len() { bytes[k - at] } else { data[k] })
}

/// Two counted entries never hold the same address.
pub open spec fn users_distinct(data: Seq<u8>) -> bool {
    forall|i: int, j: int|
        0 <= i < count_of(data) && 0 <= j < count_of(data) && i != j ==> user_at(data, i) != user_at(
            data,
            j,
        )
}

/// The first match is unique.
pub proof fn lemma_first_match_unique(data: Seq<u8>, user: Seq<u8>, i: int, j: int)
    requires
        is_first_match(data, user, i),
        is_first_match(data, user, j),
    ensures
        i == j,
{
    if i < j {
        assert(user_at(data, i) != user);
    } else if j < i {
        assert(user_at(data, j) != user);
    }
}

/// Reads the entry count.
pub fn read_count(data: &Vec<u8>) -> (r: u32)
    requires
        13 <= data@.len(),
    ensures
        r == count_of(data@),
{
    u32_from_le_bytes(slice_subrange(data.as_slice(), 9, 13))
}

/// Reads the amount of entry `i`.
pub fn read_amount(data: &Vec<u8>, i: usize) -> (r: u64)
    requires
        holds_entries(data@),
        i < count_of(data@),
    ensures
        r == amount_at(data@, i as int),
{
    let len = data.len();
    assert(entry_start(i as int) + 40 <= len);
    let start = 13 + i * 40;
    u64_from_le_bytes(slice_subrange(data.as_slice(), start + 32, start + 40))
}

/// Whether the 32 bytes of `data` from `start` on equal `user`.
pub fn user_matches(data: &Vec<u8>, start: usize, user: &[u8; 32]) -> (r: bool)
    requires
        start + 32 <= data@.len(),
    ensures
        r == (data@.subrange(start as int, start + 32) == user@),
{
    let mut k: usize = 0;
    while k < 32
        invariant
            k <= 32,
            start + 32 <= data.len(),
            user@.len() == 32,
            forall|j: int| 0 <= j < k ==> data@[start + j] == user@[j],
        decreases 32 - k,
    {
        if data[start + k] != user[k] {
            assert(data@.subrange(start as int, start + 32)[k as int] != user@[k as int]);
            return false;
        }
        k = k + 1;
    }
    assert(data@.subrange(start as int, start + 32) =~= user@);
    true
}

/// Whether the 32 bytes of `data` from `a` on equal those from `b` on.
pub fn ranges_match(data: &Vec<u8>, a: usize, b: usize) -> (r: bool)
    requires
        a + 32 <= data@.len(),
        b + 32 <= data@.len(),
    ensures
        r == (data@.subrange(a as int, a + 32) == data@.subrange(b as int, b + 32)),
{
    let ghost sa = data@.subrange(a as int, a + 32);
    let ghost sb = data@.subrange(b as int, b + 32);
    let mut k: usize = 0;
    while k < 32
        invariant
            k <= 32,
            a + 32 <= data.len(),
            b + 32 <= data.len(),
            sa == data@.subrange(a as int, a + 32),
            sb == data@.subrange(b as int, b + 32),
            forall|j: int| 0 <= j < k ==> #[trigger] sa[j] == sb[j],
        decreases 32 - k,
    {
        if data[a + k] != data[b + k] {
            assert(sa[k as int] != sb[k as int]);
            return false;
        }
        assert(sa[k as int] == sb[k as int]);
        k = k + 1;
    }
    assert(data@.subrange(a as int, a + 32) =~= data@.subrange(b as int, b + 32));
    true
}

/// Finds the first counted entry that holds `user`.
pub fn find_user(data: &Vec<u8>, user: &[u8; 32]) -> (r: Option<usize>)
    requires
        holds_entries(data@),
    ensures
        match r {
            Some(i) => is_first_match(data@, user@, i as int),
            None => !has_user(data@, user@),
        },
{
    let total = read_count(data) as usize;
    let mut i: usize = 0;
    while i < total
        invariant
            total == count_of(data@),
            holds_entries(data@),
            entry_start(total as int) <= data.len(),
            i <= total,
            forall|j: int| 0 <= j < i ==> #[trigger] user_at(data@, j) != user@,
        decreases total - i,
    {
        let start = 13 + i * 40;
        if user_matches(data, start, user) {
            return Some(i);
        }
        i = i + 1;
    }
    None
}

/// Overwrites the bytes of `data` from `at` on with `bytes`.
pub fn write_bytes(data: &mut Vec<u8>, at: usize, bytes: &Vec<u8>)
    requires
        at + bytes@.len() <= old(data)@.len(),
    ensures
        final(data)@ == overwrite(old(data)@, at as int, bytes@),
{
    let ghost d0 = data@;
    let n = bytes.len();
    let mut k: usize = 0;
    while k < n
        invariant
            k <= n,
            n == bytes@.len(),
            at + n <= d0.len(),
            data.len() == d0.len(),
            data@ == overwrite(d0, at as int, bytes@.subrange(0, k as int)),
        decreases n - k,
    {
        data[at + k] = bytes[k];
        k = k + 1;
        assert(data@ =~= overwrite(d0, at as int, bytes@.subrange(0, k as int)));
    }
    assert(bytes@.subrange(0, n as int) =~= bytes@);
}

} // verus!
