use rand::Rng;
use vstd::prelude::*;

verus! {

/// Length, in characters, of every issued session token.
pub const TOKEN_LEN: usize = 8;

/// Holds of the characters a session token may be made of: the
/// alphanumeric ASCII alphabet `0`-`9`, `A`-`Z`, `a`-`z`.
pub open spec fn is_token_char(c: char) -> bool {
    (48 <= c as u32 && c as u32 <= 57) || (65 <= c as u32 && c as u32 <= 90) || (97 <= c as u32
        && c as u32 <= 122)
}

/// Relies on rand's `Alphanumeric` distribution, which samples bytes
/// uniformly from the alphanumeric ASCII alphabet `0`-`9`, `A`-`Z`,
/// `a`-`z`; the draw itself is random, so nothing more is promised.
#[verifier::external_body]
pub(crate) fn random_token() -> (r: String)
    ensures
        r@.len() == TOKEN_LEN as nat,
        forall|i: int| 0 <= i < r@.len() ==> is_token_char(#[trigger] r@[i]),
{
    rand::thread_rng().sample_iter(&rand::distributions::Alphanumeric).take(TOKEN_LEN).map(
        char::from,
    ).collect()
}

/// Relies on `rand::random::<u16>`: the drawn id always fits in 16
/// bits; which id comes back is random, so nothing more is promised.
#[verifier::external_body]
pub(crate) fn random_resource_id() -> (r: u64)
    ensures
        r < 65536,
{
    rand::random::<u16>() as u64
}

} // verus!
