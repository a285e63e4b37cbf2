use defguard_core::keys::{AuthenticationKeyType, KeyStore, YubiKey};
use defguard_core::provider::{OpenIdProvider, ProviderStore};
use defguard_core::ssh_keys::{
    add_authentication_key, delete_authentication_key, fetch_authentication_keys,
    get_authorized_keys, rename_authentication_key, AddAuthenticationKeyData,
    AuthenticationKeyInfo, RenameRequest, SshKeysRequestParams, WebError,
};
use defguard_core::store::{Group, UserStore};
use defguard_core::user::User;
use defguard_core::yubikey::{delete_yubikey, rename_yubikey, RenameRequest as YkRename};

const ED25519_KEY: &str =
    "ssh-ed25519 AAAAC3NzaC1lZDI1NTE5AAAAILM+rvN+ot98qgEN796jTiQfZfG1KaT0PtFDJ/XFSqti user@example.com";

#[test]
fn add_key_validates_trims_and_deduplicates() {
    let mut ks = KeyStore::new();
    let data = AddAuthenticationKeyData {
        key: format!("{ED25519_KEY}\n\r\n"),
        name: "laptop".into(),
        key_type: AuthenticationKeyType::Ssh,
    };
    add_authentication_key(&mut ks, 1, data).unwrap();

    let infos = fetch_authentication_keys(&ks, 1);
    assert_eq!(infos.len(), 1);
    assert_eq!(infos[0].key, ED25519_KEY);
    assert_eq!(infos[0].name, Some("laptop".to_string()));
    assert!(infos[0].yubikey_name.is_none());

    // The same material again, for the same user, is refused.
    let again = AddAuthenticationKeyData {
        key: ED25519_KEY.to_string(),
        name: "again".into(),
        key_type: AuthenticationKeyType::Ssh,
    };
    match add_authentication_key(&mut ks, 1, again) {
        Err(WebError::BadRequest(m)) => assert_eq!(m, "Key already exists."),
        other => panic!("expected a duplicate-key refusal, got {other:?}"),
    }

    // Garbage is not an SSH key.
    let junk = AddAuthenticationKeyData {
        key: "definitely not a public key".into(),
        name: "junk".into(),
        key_type: AuthenticationKeyType::Ssh,
    };
    match add_authentication_key(&mut ks, 1, junk) {
        Err(WebError::BadRequest(m)) => assert_eq!(m, "SSH key failed verification."),
        other => panic!("expected a parse refusal, got {other:?}"),
    }

    // GPG keys are stored without SSH parsing.
    let gpg = AddAuthenticationKeyData {
        key: "-----BEGIN PGP PUBLIC KEY BLOCK----- ...".into(),
        name: "gpg".into(),
        key_type: AuthenticationKeyType::Gpg,
    };
    add_authentication_key(&mut ks, 1, gpg).unwrap();
    assert_eq!(fetch_authentication_keys(&ks, 1).len(), 2);
}

#[test]
fn authorized_keys_feed() {
    let mut us = UserStore::new();
    let mut ks = KeyStore::new();
    let mut harry = User::new(
        "hpotter".into(),
        "pass123",
        "Potter".into(),
        "Harry".into(),
        "h.potter@hogwart.edu.uk".into(),
        None,
    );
    harry.save(&mut us);
    let hid = harry.id.unwrap();
    let mut ron = User::new(
        "rweasley".into(),
        "pass456",
        "Weasley".into(),
        "Ron".into(),
        "r.weasley@hogwart.edu.uk".into(),
        None,
    );
    ron.save(&mut us);
    let rid = ron.id.unwrap();

    us.groups.push(Group { id: 10, name: "wheel".into() });
    us.memberships.push((10, hid));

    ks.insert_key(hid, "ssh-ed25519 AAAA1".into(), None, AuthenticationKeyType::Ssh, None);
    ks.insert_key(hid, "ssh-ed25519 AAAA2".into(), None, AuthenticationKeyType::Ssh, None);
    ks.insert_key(hid, "gpg material".into(), None, AuthenticationKeyType::Gpg, None);
    ks.insert_key(rid, "ssh-ed25519 BBBB1".into(), None, AuthenticationKeyType::Ssh, None);

    // By user only: that user's SSH keys, GPG keys never appear.
    let by_user = SshKeysRequestParams { username: Some("hpotter".into()), group: None };
    assert_eq!(
        get_authorized_keys(&us, &ks, &by_user),
        "ssh-ed25519 AAAA1\nssh-ed25519 AAAA2"
    );

    // By group only: every member's SSH keys.
    let by_group = SshKeysRequestParams { username: None, group: Some("wheel".into()) };
    assert_eq!(
        get_authorized_keys(&us, &ks, &by_group),
        "ssh-ed25519 AAAA1\nssh-ed25519 AAAA2"
    );

    // Both: the user must belong to the group.
    let both_out = SshKeysRequestParams {
        username: Some("rweasley".into()),
        group: Some("wheel".into()),
    };
    assert_eq!(get_authorized_keys(&us, &ks, &both_out), "");

    // Unknown names and empty filters answer with an empty feed.
    let unknown_user =
        SshKeysRequestParams { username: Some("nobody".into()), group: None };
    assert_eq!(get_authorized_keys(&us, &ks, &unknown_user), "");
    let unknown_group =
        SshKeysRequestParams { username: None, group: Some("nogroup".into()) };
    assert_eq!(get_authorized_keys(&us, &ks, &unknown_group), "");
    let no_filter = SshKeysRequestParams { username: None, group: None };
    assert_eq!(get_authorized_keys(&us, &ks, &no_filter), "");
}

#[test]
fn delete_and_rename_keys_respect_ownership() {
    let mut ks = KeyStore::new();
    let key_id = ks.insert_key(
        1,
        "ssh-ed25519 AAAA1".into(),
        Some("old name".into()),
        AuthenticationKeyType::Ssh,
        None,
    );

    // Another user without admin rights may neither rename nor delete.
    assert!(matches!(
        rename_authentication_key(&mut ks, false, 2, key_id, RenameRequest { name: "x".into() }),
        Err(WebError::Forbidden(_))
    ));
    assert!(matches!(
        delete_authentication_key(&mut ks, false, 2, key_id),
        Err(WebError::Forbidden(_))
    ));

    // The owner renames, the admin deletes.
    rename_authentication_key(&mut ks, false, 1, key_id, RenameRequest { name: "new name".into() })
        .unwrap();
    assert_eq!(
        fetch_authentication_keys(&ks, 1)[0].name,
        Some("new name".to_string())
    );
    delete_authentication_key(&mut ks, true, 2, key_id).unwrap();
    assert!(fetch_authentication_keys(&ks, 1).is_empty());

    assert!(matches!(
        delete_authentication_key(&mut ks, true, 2, key_id),
        Err(WebError::BadRequest(_))
    ));
    assert!(matches!(
        rename_authentication_key(&mut ks, true, 2, key_id, RenameRequest { name: "x".into() }),
        Err(WebError::ObjectNotFound(_))
    ));
}

#[test]
fn hardware_keys_are_renamed_through_their_yubikey() {
    let mut ks = KeyStore::new();
    ks.yubikeys.push(YubiKey { id: 5, user_id: 1, name: "slot A".into(), serial: "12345".into() });
    let key_id = ks.insert_key(
        1,
        "ssh-ed25519 AAAA1".into(),
        Some("hw".into()),
        AuthenticationKeyType::Ssh,
        Some(5),
    );
    match rename_authentication_key(&mut ks, true, 1, key_id, RenameRequest { name: "x".into() }) {
        Err(WebError::BadRequest(m)) => assert_eq!(m, "Rename yubikey instead."),
        other => panic!("expected a redirect to the yubikey, got {other:?}"),
    }

    // The listing joins the yubikey's name and serial onto the key.
    let infos = AuthenticationKeyInfo::find_by_user_id(&ks, 1);
    assert_eq!(infos.len(), 1);
    assert_eq!(infos[0].yubikey_id, Some(5));
    assert_eq!(infos[0].yubikey_name, Some("slot A".to_string()));
    assert_eq!(infos[0].yubikey_serial, Some("12345".to_string()));
}

#[test]
fn yubikey_delete_and_rename() {
    let mut ks = KeyStore::new();
    ks.yubikeys.push(YubiKey { id: 5, user_id: 1, name: "slot A".into(), serial: "12345".into() });

    assert!(matches!(
        delete_yubikey(&mut ks, false, 2, 5),
        Err(WebError::Forbidden(_))
    ));
    assert!(matches!(
        rename_yubikey(&mut ks, false, 2, 5, YkRename { name: "x".into() }),
        Err(WebError::Forbidden(_))
    ));
    assert!(matches!(
        delete_yubikey(&mut ks, true, 2, 99),
        Err(WebError::ObjectNotFound(_))
    ));

    let renamed = rename_yubikey(&mut ks, false, 1, 5, YkRename { name: "slot B".into() })
        .unwrap();
    assert_eq!(renamed.name, "slot B");
    assert_eq!(renamed.serial, "12345");
    assert_eq!(ks.yubikeys[0].name, "slot B");

    delete_yubikey(&mut ks, true, 2, 5).unwrap();
    assert!(ks.yubikeys.is_empty());
}

#[test]
fn provider_upsert_keeps_a_single_current_row() {
    let mut store = ProviderStore { providers: Vec::new(), next_id: 1 };
    let first = OpenIdProvider::new(
        "keycloak".into(),
        "https://kc.example.com".into(),
        "client-1".into(),
        "SECRET-REDACTED".into(),
        None,
    );
    let saved = first.upsert(&mut store);
    assert_eq!(saved.id, Some(1));
    assert_eq!(saved.name, "keycloak");
    assert_eq!(store.providers.len(), 1);

    let replacement = OpenIdProvider::new(
        "okta".into(),
        "https://okta.example.com".into(),
        "client-2".into(),
        "SECRET-REDACTED".into(),
        Some("Okta".into()),
    );
    let previous = replacement.upsert(&mut store);
    // The previous current row is handed back, id and all...
    assert_eq!(previous.id, Some(1));
    assert_eq!(previous.name, "keycloak");
    // ...while the single row now carries the new configuration.
    assert_eq!(store.providers.len(), 1);
    assert_eq!(store.providers[0].id, Some(1));
    assert_eq!(store.providers[0].name, "okta");

    let current = OpenIdProvider::get_current(&store).unwrap();
    assert_eq!(current.name, "okta");
    assert_eq!(current.display_name, Some("Okta".to_string()));
    assert!(OpenIdProvider::find_by_name(&store, "okta").is_some());
    assert!(OpenIdProvider::find_by_name(&store, "keycloak").is_none());
}
