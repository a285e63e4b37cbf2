use defguard_core::store::{UserStore, Wallet, WebAuthnKey};
use defguard_core::user::{MFAMethod, PasswordError, User, RECOVERY_CODES_COUNT};

fn harry() -> User {
    User::new(
        "hpotter".into(),
        "pass123",
        "Potter".into(),
        "Harry".into(),
        "h.potter@hogwart.edu.uk".into(),
        None,
    )
}

#[test]
fn test_user() {
    let mut store = UserStore::new();
    let mut user = harry();
    user.save(&mut store);

    let fetched_user = User::find_by_username(&store, "hpotter");
    assert!(fetched_user.is_some());
    assert_eq!(fetched_user.unwrap().email, "h.potter@hogwart.edu.uk");

    user.email = "harry.potter@hogwart.edu.uk".into();
    user.save(&mut store);

    let fetched_user = User::find_by_username(&store, "hpotter");
    assert!(fetched_user.is_some());
    assert_eq!(fetched_user.unwrap().email, "harry.potter@hogwart.edu.uk");

    assert!(user.verify_password("pass123").is_ok());

    let fetched_user = User::find_by_username(&store, "rweasley");
    assert!(fetched_user.is_none());
}

#[test]
fn test_all_users() {
    let mut store = UserStore::new();
    let mut harry = harry();
    harry.save(&mut store);

    let mut albus = User::new(
        "adumbledore".into(),
        "magic!",
        "Dumbledore".into(),
        "Albus".into(),
        "a.dumbledore@hogwart.edu.uk".into(),
        None,
    );
    albus.save(&mut store);

    let users = User::all(&store);
    assert_eq!(users.len(), 2);

    albus.delete(&mut store);

    let users = User::all(&store);
    assert_eq!(users.len(), 1);
    assert_eq!(users[0].username, "hpotter");
}

#[test]
fn test_recovery_codes() {
    let mut store = UserStore::new();
    let mut harry = harry();
    let codes = harry.enable_mfa(&mut store).unwrap();
    assert_eq!(codes.len(), RECOVERY_CODES_COUNT);
    assert_eq!(harry.recovery_codes.len(), RECOVERY_CODES_COUNT);
    harry.save(&mut store);

    let fetched_user = User::find_by_username(&store, "hpotter");
    assert!(fetched_user.is_some());

    let mut user = fetched_user.unwrap();
    assert_eq!(user.recovery_codes.len(), RECOVERY_CODES_COUNT);
    assert!(!user.verify_recovery_code(&mut store, "invalid code"));
    let codes = user.recovery_codes.clone();
    for code in &codes {
        assert!(user.verify_recovery_code(&mut store, code));
    }
    assert_eq!(user.recovery_codes.len(), 0);
}

#[test]
fn recovery_code_cannot_be_replayed() {
    let mut store = UserStore::new();
    let mut user = harry();
    let codes = user.enable_mfa(&mut store).unwrap();
    let first = codes[0].clone();
    assert!(user.verify_recovery_code(&mut store, &first));
    assert_eq!(user.recovery_codes.len(), RECOVERY_CODES_COUNT - 1);
    assert!(!user.verify_recovery_code(&mut store, &first));
    assert_eq!(user.recovery_codes.len(), RECOVERY_CODES_COUNT - 1);
}

#[test]
fn password_round_trip() {
    let mut store = UserStore::new();
    let mut user = harry();
    assert!(user.verify_password("pass123").is_ok());
    assert!(matches!(
        user.verify_password("wrong password"),
        Err(PasswordError::Mismatch)
    ));
    user.set_password("new secret phrase");
    assert!(user.verify_password("new secret phrase").is_ok());
    assert!(matches!(
        user.verify_password("pass123"),
        Err(PasswordError::Mismatch)
    ));
    user.save(&mut store);
    let fetched = User::find_by_username(&store, "hpotter").unwrap();
    assert!(fetched.verify_password("new secret phrase").is_ok());
}

#[test]
fn malformed_hash_is_internal_error() {
    let mut user = harry();
    user.password_hash = Some("not a phc string".into());
    assert!(matches!(
        user.verify_password("pass123"),
        Err(PasswordError::MalformedHash)
    ));
    let mut blank = User::new_inactive(
        "nhash".into(),
        "None".into(),
        "No".into(),
        "n@example.com".into(),
        None,
    );
    assert!(matches!(
        blank.verify_password("anything"),
        Err(PasswordError::MissingHash)
    ));
    blank.set_password("now set");
    assert!(blank.verify_password("now set").is_ok());
}

#[test]
fn totp_secret_and_codes() {
    let mut store = UserStore::new();
    let mut user = harry();
    let encoded = user.new_secret(&mut store);
    // Twenty bytes of secret give a 32-character base32 encoding.
    assert_eq!(encoded.len(), 32);
    // The secret alone does not make TOTP active.
    assert!(!user.totp_enabled);
    let timestamp: u64 = 1_700_000_000;
    let generator = otpauth::TOTP::from_base32(encoded.clone()).unwrap();
    let code = generator.generate(30, timestamp);
    // Until confirmed, no code is accepted.
    assert!(!user.verify_code(code, timestamp));
    user.enable_totp(&mut store);
    assert!(user.totp_enabled);
    assert!(user.verify_code(code, timestamp));
    let wrong = if code == 0 { 1 } else { code - 1 };
    assert!(!user.verify_code(wrong, timestamp));
    user.disable_totp(&mut store);
    assert!(!user.verify_code(code, timestamp));
    assert!(user.totp_secret.is_none());
}

#[test]
fn mfa_aggregation_and_disable() {
    let mut store = UserStore::new();
    let mut user = harry();
    user.save(&mut store);
    let uid = user.id.unwrap();
    assert!(!user.mfa_enabled(&store));

    store.wallets.push(Wallet {
        user_id: uid,
        address: "0xabc".into(),
        name: "main".into(),
        chain_id: 1,
        use_for_mfa: true,
        validated: true,
    });
    assert!(user.mfa_enabled(&store));
    // Already enabled through the wallet: no new recovery codes.
    assert!(user.enable_mfa(&mut store).is_none());

    store.webauthn_keys.push(WebAuthnKey {
        id: 7,
        user_id: uid,
        name: "yubi".into(),
    });

    user.disable_mfa(&mut store);
    assert!(!user.mfa_enabled(&store));
    assert!(user.totp_secret.is_none());
    assert!(!user.totp_enabled);
    assert!(user.recovery_codes.is_empty());
    assert!(!store.wallets[0].use_for_mfa);
    assert!(store.webauthn_keys.is_empty());

    // With no factor left, enabling generates a fresh full set.
    let codes = user.enable_mfa(&mut store).unwrap();
    assert_eq!(codes.len(), RECOVERY_CODES_COUNT);
    for code in &codes {
        assert_eq!(code.len(), 16);
        assert!(code.chars().all(|c| c.is_ascii_alphanumeric()));
    }
}

#[test]
fn groups_and_relations() {
    let mut store = UserStore::new();
    let mut user = harry();
    user.save(&mut store);
    store.groups.push(defguard_core::store::Group {
        id: 10,
        name: "wheel".into(),
    });
    store.groups.push(defguard_core::store::Group {
        id: 11,
        name: "vpn".into(),
    });
    let wheel = defguard_core::store::Group {
        id: 10,
        name: "wheel".into(),
    };
    user.add_to_group(&mut store, &wheel);
    user.add_to_group(&mut store, &wheel);
    assert_eq!(store.memberships.len(), 1);
    assert_eq!(user.member_of(&store), vec!["wheel".to_string()]);
    user.remove_from_group(&mut store, &wheel);
    assert!(store.memberships.is_empty());
    assert!(user.member_of(&store).is_empty());
    assert_eq!(user.mfa_method, MFAMethod::NoMfa);
}
