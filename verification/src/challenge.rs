//! Drawing what a registration needs: a challenge string and a token.

use vstd::prelude::*;
use vstd::string::*;

verus! {

/// The number of characters of a challenge string.
pub const CHALLENGE_LENGTH: usize = 100;

/// The window length by which challenges are answered.
pub const KMER_LENGTH: usize = 3;

/// The alphabet of challenge strings: the four letters `A`, `C`, `T`, `G`.
pub open spec fn in_alphabet(c: char) -> bool {
    c == 'A' || c == 'C' || c == 'T' || c == 'G'
}

/// A well-formed challenge string: `CHALLENGE_LENGTH` characters, each of
/// the alphabet.
pub open spec fn is_challenge(s: Seq<char>) -> bool {
    &&& s.len() == CHALLENGE_LENGTH
    &&& forall|i: int| 0 <= i < s.len() ==> in_alphabet(#[trigger] s[i])
}

/// A version 4 identifier: the four bits from bit 76 hold the version 4, the
/// two bits from bit 62 hold the variant `10`.
pub open spec fn is_random_token(token: u128) -> bool {
    &&& (token / 0x1000_0000_0000_0000_0000) % 16 == 4
    &&& (token / 0x4000_0000_0000_0000) % 4 == 2
}

/// Calls `random_string::generate`. Trusted: the string returned has
/// `length` characters and each of them is a character of `charset`; which
/// ones is left to chance. The outside function panics on an empty charset,
/// and allocates room for `length` characters at once.
#[verifier::external_body]
fn random_over(length: usize, charset: &str) -> (r: String)
    requires
        charset@.len() > 0,
        length <= isize::MAX,
    ensures
        r@.len() == length,
        forall|i: int| 0 <= i < r@.len() ==> charset@.contains(#[trigger] r@[i]),
{
    random_string::generate(length, charset)
}

/// Calls `uuid::Uuid::new_v4` and hands the identifier out as its 128 bits
/// (`Uuid::as_u128`). Trusted: the version and variant bits are those of a
/// version 4 identifier; the other 122 bits are left to chance.
#[verifier::external_body]
fn random_token() -> (token: u128)
    ensures
        is_random_token(token),
{
    uuid::Uuid::new_v4().as_u128()
}

/// A fresh challenge string: `CHALLENGE_LENGTH` characters drawn at random
/// from the alphabet `A`, `C`, `T`, `G`.
pub fn generate_challenge_string() -> (challenge: String)
    ensures
        is_challenge(challenge@),
{
    let charset = "ACTG";
    proof {
        reveal_strlit("ACTG");
    }
    let challenge = random_over(CHALLENGE_LENGTH, charset);
    assert forall|i: int| 0 <= i < challenge@.len() implies in_alphabet(
        #[trigger] challenge@[i],
    ) by {
        assert(charset@.contains(challenge@[i]));
        let j = choose|j: int| 0 <= j < charset@.len() && charset@[j] == challenge@[i];
        assert(charset@[j] == challenge@[i]);
    }
    challenge
}

/// A fresh token: a random 128-bit identifier of version 4.
pub fn generate_token() -> (token: u128)
    ensures
        is_random_token(token),
{
    random_token()
}

} // verus!
