//! Numbers as big-endian byte strings.

use vstd::prelude::*;

verus! {

/// The most bytes that a number may be joined from.
pub const MAX_BYTES: usize = 16;

/// The shortest big-endian byte string of `n`; zero is one zero byte.
pub open spec fn be_bytes(n: nat) -> Seq<u8>
    decreases n,
{
    if n < 256 {
        seq![n as u8]
    } else {
        be_bytes(n / 256).push((n % 256) as u8)
    }
}

/// The number that a big-endian byte string stands for; the empty string is zero.
pub open spec fn be_value(b: Seq<u8>) -> nat
    decreases b.len(),
{
    if b.len() == 0 {
        0
    } else {
        be_value(b.drop_last()) * 256 + b.last() as nat
    }
}

/// What joining `parts` into a number of at most `max` gives: nothing where
/// there are more than sixteen bytes or the number is above `max`.
pub open spec fn join_spec(parts: Seq<u8>, max: nat) -> Option<nat> {
    if parts.len() <= MAX_BYTES && be_value(parts) <= max {
        Some(be_value(parts))
    } else {
        None
    }
}

/// 256 to the power of `k`.
pub open spec fn pow256(k: nat) -> nat
    decreases k,
{
    if k == 0 {
        1
    } else {
        256 * pow256((k - 1) as nat)
    }
}

/// The bytes of a number stand for that number.
pub proof fn lemma_be_value_of_bytes(n: nat)
    ensures
        be_value(be_bytes(n)) == n,
    decreases n,
{
    if n < 256 {
        assert(seq![n as u8].drop_last() =~= Seq::<u8>::empty());
        assert(be_value(Seq::<u8>::empty()) == 0);
    } else {
        lemma_be_value_of_bytes(n / 256);
        assert(be_bytes(n / 256).push((n % 256) as u8).drop_last() =~= be_bytes(n / 256));
    }
}

/// A number below 256 to the `k` has at most `k` bytes.
pub proof fn lemma_be_bytes_len(n: nat, k: nat)
    requires
        k >= 1,
        n < pow256(k),
    ensures
        1 <= be_bytes(n).len() <= k,
    decreases n,
{
    if n >= 256 {
        if k == 1 {
            assert(pow256(1) == 256 * pow256(0));
        }
        lemma_be_bytes_len(n / 256, (k - 1) as nat);
    }
}

/// Every 128-bit number has at most sixteen bytes.
pub proof fn lemma_be_bytes_fit(n: nat)
    requires
        n <= u128::MAX,
    ensures
        1 <= be_bytes(n).len() <= MAX_BYTES,
        join_spec(be_bytes(n), n) == Some(n),
{
    reveal_with_fuel(pow256, 17);
    assert(pow256(16) == 0x1_0000_0000_0000_0000_0000_0000_0000_0000);
    lemma_be_bytes_len(n, 16);
    lemma_be_value_of_bytes(n);
}

// The error that libpt's `array_to_unsigned` reports.
#[verifier::external_type_specification]
#[verifier::external_body]
pub struct ExJoinError(anyhow::Error);

/// Calls `libpt::bintols::split::unsigned_to_vec`, which pushes the low byte
/// of the number and shifts it right by eight bits until nothing is left, then
/// reverses what it pushed; for zero it returns one zero byte.
#[verifier::external_body]
pub(crate) fn split_bytes(num: u128) -> (r: Vec<u8>)
    ensures
        r@ == be_bytes(num as nat),
{
    libpt::bintols::split::unsigned_to_vec(num)
}

/// Calls `libpt::bintols::join::array_to_unsigned` for `u128`, which refuses
/// more than sixteen bytes and otherwise adds up each byte times 256 to the
/// power of its distance from the end, which cannot exceed 128 bits.
#[verifier::external_body]
pub(crate) fn join_bytes(parts: &[u8]) -> (r: Result<u128, anyhow::Error>)
    ensures
        r is Ok <==> parts@.len() <= MAX_BYTES,
        r is Ok ==> r->Ok_0 as nat == be_value(parts@),
{
    libpt::bintols::join::array_to_unsigned::<u128>(parts)
}

/// The shortest big-endian byte string of a number.
pub fn to_bytes(num: u128) -> (r: Vec<u8>)
    ensures
        r@ == be_bytes(num as nat),
        1 <= r@.len() <= MAX_BYTES,
{
    proof {
        lemma_be_bytes_fit(num as nat);
    }
    split_bytes(num)
}

/// Joins big-endian bytes into a number of at most `max`.
pub fn join(parts: &[u8], max: u128) -> (r: Option<u128>)
    ensures
        match r {
            Some(v) => join_spec(parts@, max as nat) == Some(v as nat),
            None => join_spec(parts@, max as nat) is None,
        },
{
    match join_bytes(parts) {
        Ok(v) => if v <= max {
            Some(v)
        } else {
            None
        },
        Err(_) => None,
    }
}

} // verus!
