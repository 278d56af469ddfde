//! What the treasury has from the runtime it lives in: fixed-point fractions, the hash
//! function, and the account that belongs to a module. Each function here without a verified body
//! makes one call into the runtime's crates, and its contract is what is taken on trust of that
//! call.

use sp_runtime::traits::AccountIdConversion;
use vstd::prelude::*;

verus! {

/// `parts` out of `whole` of `value`, rounded to the nearest unit, an exact half rounded down.
pub open spec fn portion(parts: int, whole: int, value: int) -> int {
    parts * value / whole + if parts * value % whole > whole / 2 {
        1int
    } else {
        0int
    }
}

/// No more than the whole is taken.
pub open spec fn capped(parts: int, whole: int) -> int {
    if parts < whole {
        parts
    } else {
        whole
    }
}

/// A part of an amount is at most that amount.
pub proof fn lemma_portion_within(parts: int, whole: int, value: int)
    requires
        0 <= parts <= whole,
        0 < whole,
        0 <= value,
    ensures
        0 <= portion(parts, whole, value) <= value,
{
    let product = parts * value;
    assert(0 <= product <= whole * value) by (nonlinear_arith)
        requires
            product == parts * value,
            0 <= parts <= whole,
            0 <= value,
    ;
    let q = product / whole;
    let r = product % whole;
    assert(product == whole * q + r && 0 <= r < whole && 0 <= q) by (nonlinear_arith)
        requires
            q == product / whole,
            r == product % whole,
            0 < whole,
            0 <= product,
    ;
    assert(r > 0 ==> q + 1 <= value) by (nonlinear_arith)
        requires
            product == whole * q + r,
            product <= whole * value,
            0 < whole,
    ;
    assert(q <= value) by (nonlinear_arith)
        requires
            product == whole * q + r,
            0 <= r,
            product <= whole * value,
            0 < whole,
    ;
}

/// `sp_runtime::Permill * value`, for the fraction of `parts` millionths.
///
/// `Permill::from_parts` caps the fraction at one, and the product is accurate, without
/// overflow, and rounded to the nearest unit with an exact half rounded down.
#[verifier::external_body]
pub(crate) fn permill_of(parts: u32, value: u128) -> (r: u128)
    ensures
        r == portion(capped(parts as int, 1_000_000), 1_000_000, value as int),
{
    sp_runtime::Permill::from_parts(parts) * value
}

/// `sp_runtime::Percent * value`, for the fraction of `parts` hundredths.
///
/// `Percent::from_parts` caps the fraction at one, and the product is accurate, without
/// overflow, and rounded to the nearest unit with an exact half rounded down.
#[verifier::external_body]
pub(crate) fn percent_of(parts: u8, value: u128) -> (r: u128)
    ensures
        r == portion(capped(parts as int, 100), 100, value as int),
{
    sp_runtime::Percent::from_parts(parts) * value
}

/// The hash function of a chain: the same bytes have the same digest whenever they are hashed.
pub trait Hashing {
    /// The digest of some bytes. It is open which one until a hash function says so.
    open spec fn digest(data: Seq<u8>) -> [u8; 32] {
        arbitrary::<spec_fn(Seq<u8>) -> [u8; 32]>()(data)
    }

    /// Digests a byte string.
    fn hash(data: &Vec<u8>) -> (r: [u8; 32])
        ensures
            r == Self::digest(data@),
    ;

    /// Digests the encoding of the pair of a hash and an account: the bytes of the one, and then
    /// those of the other.
    fn hash_of(hash: &[u8; 32], who: &[u8; 32]) -> (r: [u8; 32])
        ensures
            r == Self::digest(hash@ + who@),
    ;
}

/// The hash function of a chain that hashes with BLAKE2b, 256 bits long.
#[derive(Clone, Copy, Debug, PartialEq, Eq)]
pub struct BlakeTwo256;

impl Hashing for BlakeTwo256 {
    open spec fn digest(data: Seq<u8>) -> [u8; 32] {
        blake_two_256(data)
    }

    fn hash(data: &Vec<u8>) -> (r: [u8; 32]) {
        hash(data)
    }

    fn hash_of(hash: &[u8; 32], who: &[u8; 32]) -> (r: [u8; 32]) {
        hash_of_pair(hash, who)
    }
}

/// The BLAKE2b digest, 256 bits long, of some bytes.
pub uninterp spec fn blake_two_256(data: Seq<u8>) -> [u8; 32];

/// `<BlakeTwo256 as sp_runtime::traits::Hash>::hash`: the digest of a byte string.
#[verifier::external_body]
fn hash(data: &Vec<u8>) -> (r: [u8; 32])
    ensures
        r == blake_two_256(data@),
{
    <sp_runtime::traits::BlakeTwo256 as sp_runtime::traits::Hash>::hash(&data[..]).into()
}

/// `<BlakeTwo256 as sp_runtime::traits::Hash>::hash_of`, on the pair of a hash and an account.
///
/// The call digests the pair's encoding. A pair is encoded as its parts one after the other,
/// and a hash and an account are each encoded as their thirty-two bytes.
#[verifier::external_body]
fn hash_of_pair(hash: &[u8; 32], who: &[u8; 32]) -> (r: [u8; 32])
    ensures
        r == blake_two_256(hash@ + who@),
{
    let hash: <sp_runtime::traits::BlakeTwo256 as sp_runtime::traits::Hash>::Output =
        (*hash).into();
    let who = sp_runtime::AccountId32::new(*who);
    <sp_runtime::traits::BlakeTwo256 as sp_runtime::traits::Hash>::hash_of(&(&hash, &who)).into()
}

/// `into_account_truncating` of `sp_runtime::traits::AccountIdConversion`, on a
/// `frame_support::PalletId`.
///
/// The account is the encoding of the type's tag, `modl`, and of the eight bytes of the
/// identifier, filled up with zeroes.
#[verifier::external_body]
pub(crate) fn module_account(id: [u8; 8]) -> (r: [u8; 32])
    ensures
        r@ == seq![0x6du8, 0x6f, 0x64, 0x6c] + id@ + Seq::new(20, |i: int| 0u8),
{
    let account: sp_runtime::AccountId32 = frame_support::PalletId(id).into_account_truncating();
    account.into()
}

} // verus!
