use canister_core::obfuscate::obfuscate_user;

const SALT_A: [u8; 32] = [7u8; 32];
const SALT_B: [u8; 32] = [8u8; 32];

#[test]
fn non_identity_value_passes_through_unchanged() {
    assert_eq!(obfuscate_user("hello".to_string(), SALT_A), "hello");
    assert_eq!(obfuscate_user(String::new(), SALT_A), "");
    assert_eq!(
        obfuscate_user("not-a-principal!".to_string(), SALT_A),
        "not-a-principal!"
    );
}

#[test]
fn identity_value_is_replaced_by_fixed_length_token() {
    let token = obfuscate_user("2vxsx-fae".to_string(), SALT_A);
    assert_ne!(token, "2vxsx-fae");
    assert_eq!(token.len(), 32);
}

#[test]
fn obfuscation_is_deterministic_for_one_salt() {
    let t1 = obfuscate_user("2vxsx-fae".to_string(), SALT_A);
    let t2 = obfuscate_user("2vxsx-fae".to_string(), SALT_A);
    assert_eq!(t1, t2);
}

#[test]
fn obfuscation_depends_on_the_salt() {
    let t1 = obfuscate_user("2vxsx-fae".to_string(), SALT_A);
    let t2 = obfuscate_user("2vxsx-fae".to_string(), SALT_B);
    assert_ne!(t1, t2);
}

#[test]
fn token_is_trailing_half_of_salted_digest() {
    let user = "aaaaa-aa";
    assert!(candid::Principal::from_text(user).is_ok());
    let mut bytes = Vec::new();
    bytes.extend_from_slice(user.as_bytes());
    bytes.extend_from_slice(&SALT_A);
    let expected = sha256::digest(&bytes)[32..].to_string();
    assert_eq!(obfuscate_user(user.to_string(), SALT_A), expected);
}
