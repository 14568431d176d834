use vstd::prelude::*;
use vstd::string::*;
use vstd::utf8::encode_utf8;

verus! {

/// Whether a text is the canonical form of an externally issued principal,
/// exactly as `candid::Principal::from_text` decides it; determined by the
/// characters alone.
pub uninterp spec fn parses_as_principal(s: Seq<char>) -> bool;

/// The lowercase hexadecimal encoding of the SHA-256 digest of `bytes`;
/// determined by the bytes alone.
pub uninterp spec fn sha256_hex_of(bytes: Seq<u8>) -> Seq<char>;

/// Relies on `candid::Principal::from_text`: it parses the text without
/// consulting anything beyond its characters, so acceptance is a function of
/// the characters alone.
#[verifier::external_body]
fn is_principal_text(s: &str) -> (r: bool)
    ensures
        r == parses_as_principal(s@),
{
    candid::Principal::from_text(s).is_ok()
}

/// Relies on `sha256::digest`: it returns the lowercase hexadecimal encoding
/// of the 32-byte SHA-256 digest of the input, hence 64 characters, a
/// function of the input bytes alone.
#[verifier::external_body]
fn sha256_hex(bytes: &Vec<u8>) -> (r: String)
    ensures
        r@ == sha256_hex_of(bytes@),
        r@.len() == 64,
{
    sha256::digest(bytes)
}

/// The token that replaces an identity-shaped value: the trailing half of the
/// hex digest of the value's bytes followed by the process salt.
pub open spec fn obfuscated_token(user: Seq<char>, salt: Seq<u8>) -> Seq<char> {
    sha256_hex_of(encode_utf8(user) + salt).subrange(32, 64)
}

/// What obfuscation returns: identity-shaped values are replaced by their
/// salted token, anything else passes through unchanged.
pub open spec fn obfuscate_spec(user: Seq<char>, salt: Seq<u8>) -> Seq<char> {
    if parses_as_principal(user) {
        obfuscated_token(user, salt)
    } else {
        user
    }
}

/// Replaces an identity-shaped value by a salted one-way token of fixed
/// length; any other value is returned unchanged.
pub fn obfuscate_user(user: String, salt: [u8; 32]) -> (r: String)
    ensures
        r@ == obfuscate_spec(user@, salt@),
{
    if !is_principal_text(user.as_str()) {
        return user;
    }
    let mut bytes: Vec<u8> = user.as_str().as_bytes_vec();
    let mut i: usize = 0;
    while i < 32
        invariant
            i <= 32,
            bytes@ == encode_utf8(user@) + salt@.subrange(0, i as int),
        decreases 32 - i,
    {
        proof {
            assert(salt@.subrange(0, i + 1) =~= salt@.subrange(0, i as int).push(
                salt@[i as int],
            ));
        }
        bytes.push(salt[i]);
        i += 1;
    }
    proof {
        assert(salt@.subrange(0, 32) =~= salt@);
        assert(bytes@ =~= encode_utf8(user@) + salt@);
    }
    let hex = sha256_hex(&bytes);
    let token = hex.as_str().substring_char(32, 64).to_owned();
    token
}

/// Obfuscation is deterministic: two results computed from the same value and
/// the same salt are equal.
pub proof fn lemma_obfuscation_deterministic(
    r1: Seq<char>,
    r2: Seq<char>,
    user: Seq<char>,
    salt: Seq<u8>,
)
    requires
        r1 == obfuscate_spec(user, salt),
        r2 == obfuscate_spec(user, salt),
    ensures
        r1 == r2,
{
}

/// A value that is not identity-shaped is returned unchanged, whatever the
/// salt.
pub proof fn lemma_non_identity_unchanged(user: Seq<char>, salt: Seq<u8>)
    requires
        !parses_as_principal(user),
    ensures
        obfuscate_spec(user, salt) == user,
{
}

} // verus!
