use vstd::prelude::*;
use crate::types::{AccountId, MarketId, PositionKey, TokenId};

verus! {

/// The keccak-256 digest of a byte string.
pub uninterp spec fn keccak_256_of(data: Seq<u8>) -> Seq<u8>;

/// Relies on sp_core's `KeccakHasher::hash` (keccak-256 of the bytes): the digest
/// depends on the bytes alone.
#[verifier::external_body]
fn keccak_256(data: &Vec<u8>) -> (r: [u8; 32])
    ensures
        r@ == keccak_256_of(data@),
{
    <sp_core::KeccakHasher as sp_core::Hasher>::hash(data.as_slice()).0
}

/// The `n` low bytes of `x`, least significant first.
pub open spec fn le_bytes(x: nat, n: nat) -> Seq<u8>
    decreases n,
{
    if n == 0 {
        Seq::empty()
    } else {
        seq![(x % 256) as u8] + le_bytes(x / 256, (n - 1) as nat)
    }
}

/// The bytes a position key hashes: owner, market and collateral token as eight
/// little-endian bytes each, then one byte for the side.
pub open spec fn position_key_bytes(
    account: AccountId,
    market: MarketId,
    collateral_token: TokenId,
    is_long: bool,
) -> Seq<u8> {
    le_bytes(account as nat, 8) + le_bytes(market as nat, 8) + le_bytes(collateral_token as nat, 8)
        + seq![if is_long { 1u8 } else { 0u8 }]
}

/// The key of the position of `account` in `market` with `collateral_token` on one side.
pub open spec fn spec_position_key(
    account: AccountId,
    market: MarketId,
    collateral_token: TokenId,
    is_long: bool,
) -> Seq<u8> {
    keccak_256_of(position_key_bytes(account, market, collateral_token, is_long))
}

fn push_le_u64(out: &mut Vec<u8>, x: u64)
    ensures
        final(out)@ == old(out)@ + le_bytes(x as nat, 8),
{
    let ghost start = out@;
    let mut v: u64 = x;
    let mut i: u64 = 0;
    while i < 8
        invariant
            i <= 8,
            out@ + le_bytes(v as nat, (8 - i) as nat) == start + le_bytes(x as nat, 8),
        decreases 8 - i,
    {
        let ghost before = out@;
        out.push((v % 256) as u8);
        proof {
            let rest = le_bytes((v / 256) as nat, (8 - i - 1) as nat);
            assert(le_bytes(v as nat, (8 - i) as nat) == seq![(v % 256) as u8] + rest);
            assert(before + (seq![(v % 256) as u8] + rest) =~= out@ + rest);
        }
        v = v / 256;
        i = i + 1;
    }
    assert(le_bytes(v as nat, 0) =~= Seq::<u8>::empty());
    assert(out@ =~= out@ + le_bytes(v as nat, 0));
}

/// The key, as a byte array, of the position of `account` in `market` with
/// `collateral_token` on one side.
pub open spec fn position_key_of(
    account: AccountId,
    market: MarketId,
    collateral_token: TokenId,
    is_long: bool,
) -> PositionKey {
    choose|k: PositionKey| k@ == spec_position_key(account, market, collateral_token, is_long)
}

/// Canonical key of a position: keccak-256 of its owner, market, collateral token and side.
pub fn position_key(
    account: AccountId,
    market: MarketId,
    collateral_token: TokenId,
    is_long: bool,
) -> (r: PositionKey)
    ensures
        r@ == spec_position_key(account, market, collateral_token, is_long),
        r == position_key_of(account, market, collateral_token, is_long),
{
    let mut data: Vec<u8> = Vec::new();
    push_le_u64(&mut data, account);
    push_le_u64(&mut data, market);
    push_le_u64(&mut data, collateral_token);
    data.push(if is_long { 1u8 } else { 0u8 });
    assert(data@ =~= position_key_bytes(account, market, collateral_token, is_long));
    let r = keccak_256(&data);
    proof {
        let k = position_key_of(account, market, collateral_token, is_long);
        assert(k@ == r@);
        lemma_key_view_injective(k, r);
    }
    r
}

/// Two keys with the same bytes are the same key.
pub proof fn lemma_key_view_injective(a: PositionKey, b: PositionKey)
    requires
        a@ == b@,
    ensures
        a == b,
{
    broadcast use vstd::array::axiom_array_ext_equal;

    assert forall|i: int| 0 <= i < 32 implies a[i] == b[i] by {
        assert(a@[i] == b@[i]);
    }
    assert(a =~= b);
}

/// Whether two keys are equal, byte by byte.
pub fn same_key(a: &PositionKey, b: &PositionKey) -> (r: bool)
    ensures
        r == (*a == *b),
{
    let mut i: usize = 0;
    while i < 32
        invariant
            i <= 32,
            forall|j: int| 0 <= j < i ==> a[j] == b[j],
        decreases 32 - i,
    {
        if a[i] != b[i] {
            return false;
        }
        i = i + 1;
    }
    proof {
        broadcast use vstd::array::axiom_array_ext_equal;

        assert(*a =~= *b);
    }
    true
}

} // verus!
