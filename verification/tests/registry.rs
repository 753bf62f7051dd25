use username_nft::errors::RegistryError;
use username_nft::events::EventTag;
use username_nft::registry::check_claim;
use username_nft::registry::check_change;
use username_nft::registry::UsernameNFT;
use username_nft::registry::MAX_USERNAME_LEN;
use username_nft::registry::MIN_USERNAME_LEN;
use username_nft::ttl::horizon_after_write;
use username_nft::ttl::TTL_LOW_WATER_MARK;
use username_nft::ttl::TTL_RENEWAL_TARGET;

#[test]
fn test_claim_and_get_username() {
    let mut registry = UsernameNFT::new();
    let user: u64 = 1;
    let username = String::from("spookygamer");

    // Claim username
    let claimed = registry.claim_username(user, username.clone(), true);
    assert!(claimed.is_ok());

    // Get username
    let stored = registry.get_username(user);
    assert_eq!(stored, Some(username));
}

#[test]
fn test_change_username() {
    let mut registry = UsernameNFT::new();
    let user: u64 = 1;

    // Claim first
    let claimed = registry.claim_username(user, String::from("oldname"), true);
    assert!(claimed.is_ok());

    // Change
    let changed = registry.change_username(user, String::from("newname"), true);
    assert!(changed.is_ok());

    // Verify
    let stored = registry.get_username(user);
    assert_eq!(stored, Some(String::from("newname")));
}

#[test]
fn fresh_registry_has_no_records() {
    let registry = UsernameNFT::new();
    assert_eq!(registry.get_username(0), None);
    assert_eq!(registry.get_username(42), None);
}

#[test]
fn claim_rejects_length_two() {
    let mut registry = UsernameNFT::new();
    let r = registry.claim_username(1, String::from("ab"), true);
    assert!(matches!(r, Err(RegistryError::ValidationError)));
    assert_eq!(registry.get_username(1), None);
}

#[test]
fn claim_rejects_length_twenty_one() {
    let mut registry = UsernameNFT::new();
    let name = "a".repeat(21);
    assert_eq!(name.len(), 21);
    let r = registry.claim_username(1, name, true);
    assert!(matches!(r, Err(RegistryError::ValidationError)));
    assert_eq!(registry.get_username(1), None);
}

#[test]
fn claim_accepts_length_three() {
    let mut registry = UsernameNFT::new();
    let r = registry.claim_username(1, String::from("abc"), true);
    assert!(r.is_ok());
    assert_eq!(registry.get_username(1), Some(String::from("abc")));
}

#[test]
fn claim_accepts_length_twenty() {
    let mut registry = UsernameNFT::new();
    let name = "b".repeat(20);
    let r = registry.claim_username(1, name.clone(), true);
    assert!(r.is_ok());
    assert_eq!(registry.get_username(1), Some(name));
}

#[test]
fn claim_accepts_middling_length() {
    let mut registry = UsernameNFT::new();
    let name = "c".repeat(11);
    let r = registry.claim_username(1, name.clone(), true);
    assert!(r.is_ok());
    assert_eq!(registry.get_username(1), Some(name));
}

#[test]
fn change_applies_same_length_policy() {
    let mut registry = UsernameNFT::new();
    registry.claim_username(1, String::from("firstname"), true).unwrap();
    let too_short = registry.change_username(1, String::from("xy"), true);
    assert!(matches!(too_short, Err(RegistryError::ValidationError)));
    let too_long = registry.change_username(1, "z".repeat(21), true);
    assert!(matches!(too_long, Err(RegistryError::ValidationError)));
    // the record is untouched by the refused changes
    assert_eq!(registry.get_username(1), Some(String::from("firstname")));
    let at_min = registry.change_username(1, String::from("xyz"), true);
    assert!(at_min.is_ok());
    assert_eq!(registry.get_username(1), Some(String::from("xyz")));
}

#[test]
fn second_claim_conflicts() {
    let mut registry = UsernameNFT::new();
    registry.claim_username(1, String::from("heldname"), true).unwrap();
    let again = registry.claim_username(1, String::from("othername"), true);
    assert!(matches!(again, Err(RegistryError::ConflictError)));
    // the held record is untouched
    assert_eq!(registry.get_username(1), Some(String::from("heldname")));
}

#[test]
fn second_claim_with_invalid_name_fails_validation_first() {
    // the length policy is checked before the conflict check
    let mut registry = UsernameNFT::new();
    registry.claim_username(1, String::from("heldname"), true).unwrap();
    let again = registry.claim_username(1, String::from("ab"), true);
    assert!(matches!(again, Err(RegistryError::ValidationError)));
    assert_eq!(registry.get_username(1), Some(String::from("heldname")));
}

#[test]
fn change_without_claim_is_not_found() {
    let mut registry = UsernameNFT::new();
    let r = registry.change_username(7, String::from("newname"), true);
    assert!(matches!(r, Err(RegistryError::NotFoundError)));
    // the owner stays absent
    assert_eq!(registry.get_username(7), None);
}

#[test]
fn unauthorized_claim_is_refused() {
    let mut registry = UsernameNFT::new();
    let r = registry.claim_username(1, String::from("spookygamer"), false);
    assert!(matches!(r, Err(RegistryError::AuthorizationError)));
    assert_eq!(registry.get_username(1), None);
}

#[test]
fn unauthorized_change_is_refused() {
    let mut registry = UsernameNFT::new();
    registry.claim_username(1, String::from("heldname"), true).unwrap();
    let r = registry.change_username(1, String::from("newname"), false);
    assert!(matches!(r, Err(RegistryError::AuthorizationError)));
    assert_eq!(registry.get_username(1), Some(String::from("heldname")));
}

#[test]
fn claim_returns_claimed_notification() {
    let mut registry = UsernameNFT::new();
    let n = registry.claim_username(9, String::from("spookygamer"), true).unwrap();
    assert_eq!(n.tag, EventTag::Claimed);
    assert_eq!(n.owner, 9);
    assert_eq!(n.username, String::from("spookygamer"));
}

#[test]
fn change_returns_changed_notification() {
    let mut registry = UsernameNFT::new();
    registry.claim_username(9, String::from("oldname"), true).unwrap();
    let n = registry.change_username(9, String::from("newname"), true).unwrap();
    assert_eq!(n.tag, EventTag::Changed);
    assert_eq!(n.owner, 9);
    assert_eq!(n.username, String::from("newname"));
}

#[test]
fn usernames_are_not_globally_unique() {
    // the scenario: O1 claims, reads, changes, reads; O2 claims the same text
    let mut registry = UsernameNFT::new();
    let o1: u64 = 1;
    let o2: u64 = 2;
    registry.claim_username(o1, String::from("spookygamer"), true).unwrap();
    assert_eq!(registry.get_username(o1), Some(String::from("spookygamer")));
    registry.change_username(o1, String::from("newname"), true).unwrap();
    assert_eq!(registry.get_username(o1), Some(String::from("newname")));
    let second_owner = registry.claim_username(o2, String::from("newname"), true);
    assert!(second_owner.is_ok());
    assert_eq!(registry.get_username(o2), Some(String::from("newname")));
    assert_eq!(registry.get_username(o1), Some(String::from("newname")));
}

#[test]
fn check_claim_matches_the_protocol() {
    let valid = String::from("goodname");
    let short = String::from("ab");
    assert_eq!(check_claim(false, &valid, true), None);
    assert_eq!(check_claim(false, &valid, false), Some(RegistryError::AuthorizationError));
    assert_eq!(check_claim(false, &short, true), Some(RegistryError::ValidationError));
    assert_eq!(check_claim(true, &valid, true), Some(RegistryError::ConflictError));
    // authorization is checked before validation
    assert_eq!(check_claim(true, &short, false), Some(RegistryError::AuthorizationError));
}

#[test]
fn check_change_matches_the_protocol() {
    let valid = String::from("goodname");
    let long = "w".repeat(21);
    assert_eq!(check_change(true, &valid, true), None);
    assert_eq!(check_change(true, &valid, false), Some(RegistryError::AuthorizationError));
    assert_eq!(check_change(true, &long, true), Some(RegistryError::ValidationError));
    assert_eq!(check_change(false, &valid, true), Some(RegistryError::NotFoundError));
}

#[test]
fn length_bounds_are_three_and_twenty() {
    assert_eq!(MIN_USERNAME_LEN, 3);
    assert_eq!(MAX_USERNAME_LEN, 20);
}

#[test]
fn error_messages_identify_the_kind() {
    assert_eq!(
        RegistryError::AuthorizationError.message(),
        "Caller is not authorized for this call"
    );
    assert_eq!(RegistryError::ValidationError.message(), "Username must be 3-20 characters");
    assert_eq!(RegistryError::ConflictError.message(), "Address already has a username");
    assert_eq!(RegistryError::NotFoundError.message(), "No username to change");
}

#[test]
fn horizon_is_renewed_under_the_low_water_mark() {
    assert_eq!(horizon_after_write(0), TTL_RENEWAL_TARGET);
    assert_eq!(horizon_after_write(99), TTL_RENEWAL_TARGET);
    assert_eq!(horizon_after_write(TTL_LOW_WATER_MARK - 1), 31536000);
}

#[test]
fn horizon_is_never_shortened() {
    assert_eq!(horizon_after_write(TTL_LOW_WATER_MARK), TTL_LOW_WATER_MARK);
    assert_eq!(horizon_after_write(100), 100);
    assert_eq!(horizon_after_write(31536000), 31536000);
    assert_eq!(horizon_after_write(40000000), 40000000);
    for remaining in [0u32, 1, 50, 99, 100, 101, 31535999, 31536000, 31536001] {
        assert!(horizon_after_write(remaining) >= remaining);
    }
}
