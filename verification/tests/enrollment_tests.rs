use defguard_core::enrollment::{Enrollment, EnrollmentError, StatusCode, TokenStore};
use defguard_core::settings::Settings;
use defguard_core::store::UserStore;
use defguard_core::user::User;

fn inactive_user(store: &mut UserStore) -> User {
    let mut user = User::new_inactive(
        "newbie".into(),
        "New".into(),
        "Bee".into(),
        "new.bee@example.com".into(),
        None,
    );
    user.save(store);
    user
}

fn admin_user(store: &mut UserStore) -> User {
    let mut admin = User::new(
        "admin".into(),
        "admin pass",
        "Ad".into(),
        "Min".into(),
        "admin@example.com".into(),
        None,
    );
    admin.save(store);
    admin
}

#[test]
fn token_lifecycle_scenario() {
    // A brand-new token with a day of validity; a session of ten
    // minutes is begun at once.
    let now: i64 = 1_000_000;
    let mut tokens = TokenStore::new();
    let token = Enrollment::new(1, 2, None, 86400, now);
    let id = token.id.clone();
    assert_eq!(id.len(), 32);
    assert!(id.chars().all(|c| c.is_ascii_alphanumeric()));
    assert_eq!(token.expires_at, now + 86400);
    assert!(token.used_at.is_none());
    tokens.save(token).unwrap();

    let deadline = tokens.begin_session(&id, now, 600).unwrap();
    assert_eq!(deadline, now + 600);

    // The token is single-use: a racing second caller, serialized
    // behind the first, sees the replay error.
    assert!(matches!(
        tokens.begin_session(&id, now, 600),
        Err(EnrollmentError::TokenUsed)
    ));

    let row = tokens.find_by_id(&id).unwrap();
    assert_eq!(row.used_at, Some(now));
    assert!(row.is_used());
    assert!(row.is_session_valid(now + 599, 600));
    assert!(!row.is_session_valid(now + 600, 600));
    assert!(!row.is_session_valid(deadline, 600));
}

#[test]
fn expired_and_missing_tokens() {
    let now: i64 = 5_000;
    let mut tokens = TokenStore::new();
    let token = Enrollment::new(1, 2, None, 100, now);
    let id = token.id.clone();
    tokens.save(token).unwrap();

    assert!(matches!(
        tokens.begin_session("no such token", now, 600),
        Err(EnrollmentError::NotFound)
    ));
    assert!(matches!(
        tokens.begin_session(&id, now + 101, 600),
        Err(EnrollmentError::TokenExpired)
    ));
    // The failed attempts consumed nothing.
    let row = tokens.find_by_id(&id).unwrap();
    assert!(row.used_at.is_none());
    assert!(!row.is_expired(now + 100));
    assert!(row.is_expired(now + 101));
}

#[test]
fn issue_sends_deep_link_notification() {
    let mut users = UserStore::new();
    let mut tokens = TokenStore::new();
    let user = inactive_user(&mut users);
    let admin = admin_user(&mut users);
    let (tx, mut rx) = tokio::sync::mpsc::unbounded_channel();

    let token_id = user
        .start_enrollment(
            &mut tokens,
            &admin,
            Some("new.bee@example.com".into()),
            86400,
            "https://enroll.example.com",
            true,
            &tx,
            1_000,
        )
        .unwrap();
    assert_eq!(token_id.len(), 32);

    let mail = rx.try_recv().unwrap();
    assert_eq!(mail.to, "new.bee@example.com");
    assert_eq!(mail.subject, "Defguard user enrollment");
    assert_eq!(
        mail.content,
        format!("https://enroll.example.com?token={token_id}")
    );

    let row = tokens.find_by_id(&token_id).unwrap();
    assert_eq!(row.user_id, user.id.unwrap());
    assert_eq!(row.admin_id, admin.id.unwrap());
    assert_eq!(row.email, Some("new.bee@example.com".to_string()));
    assert_eq!(row.created_at, 1_000);
    assert_eq!(row.expires_at, 1_000 + 86400);
}

#[test]
fn issue_supersedes_prior_tokens() {
    let mut users = UserStore::new();
    let mut tokens = TokenStore::new();
    let user = inactive_user(&mut users);
    let admin = admin_user(&mut users);
    let (tx, _rx) = tokio::sync::mpsc::unbounded_channel();

    let first = user
        .start_enrollment(&mut tokens, &admin, None, 86400, "https://e", false, &tx, 1_000)
        .unwrap();
    let second = user
        .start_enrollment(&mut tokens, &admin, None, 86400, "https://e", false, &tx, 2_000)
        .unwrap();
    assert_ne!(first, second);

    let uid = user.id.unwrap();
    let all = tokens.fetch_all();
    let unused: Vec<_> = all
        .iter()
        .filter(|t| t.user_id == uid && t.used_at.is_none())
        .collect();
    assert_eq!(unused.len(), 1);
    assert_eq!(unused[0].id, second);
    assert!(matches!(
        tokens.begin_session(&first, 2_000, 600),
        Err(EnrollmentError::NotFound)
    ));
}

#[test]
fn issue_keeps_consumed_tokens() {
    let mut users = UserStore::new();
    let mut tokens = TokenStore::new();
    let user = inactive_user(&mut users);
    let admin = admin_user(&mut users);
    let (tx, _rx) = tokio::sync::mpsc::unbounded_channel();

    let first = user
        .start_enrollment(&mut tokens, &admin, None, 86400, "https://e", false, &tx, 1_000)
        .unwrap();
    tokens.begin_session(&first, 1_000, 600).unwrap();
    let _second = user
        .start_enrollment(&mut tokens, &admin, None, 86400, "https://e", false, &tx, 2_000)
        .unwrap();
    // The consumed token is history, not a stale duplicate: it stays.
    assert_eq!(tokens.fetch_all().len(), 2);
    assert!(tokens.find_by_id(&first).is_ok());
}

#[test]
fn issue_for_active_account_is_refused_without_writes() {
    let mut users = UserStore::new();
    let mut tokens = TokenStore::new();
    let admin = admin_user(&mut users);
    let mut active = User::new(
        "already".into(),
        "set password",
        "Al".into(),
        "Ready".into(),
        "already@example.com".into(),
        None,
    );
    active.save(&mut users);
    let (tx, mut rx) = tokio::sync::mpsc::unbounded_channel();

    let r = active.start_enrollment(
        &mut tokens,
        &admin,
        Some("already@example.com".into()),
        86400,
        "https://e",
        true,
        &tx,
        1_000,
    );
    assert!(matches!(r, Err(EnrollmentError::AlreadyActive)));
    assert_eq!(tokens.fetch_all().len(), 0);
    assert!(rx.try_recv().is_err());
}

#[test]
fn enqueue_failure_aborts_issue() {
    let mut users = UserStore::new();
    let mut tokens = TokenStore::new();
    let user = inactive_user(&mut users);
    let admin = admin_user(&mut users);
    let (tx, rx) = tokio::sync::mpsc::unbounded_channel();
    drop(rx);

    let r = user.start_enrollment(
        &mut tokens,
        &admin,
        Some("new.bee@example.com".into()),
        86400,
        "https://e",
        true,
        &tx,
        1_000,
    );
    assert!(matches!(r, Err(EnrollmentError::NotificationError(_))));
    assert_eq!(tokens.fetch_all().len(), 0);
}

#[test]
fn duplicate_token_identity_is_a_store_error() {
    let mut tokens = TokenStore::new();
    let token = Enrollment::new(1, 2, None, 100, 0);
    let copy = token.duplicate();
    tokens.save(token).unwrap();
    assert!(matches!(
        tokens.save(copy),
        Err(EnrollmentError::DbError(_))
    ));
    assert_eq!(tokens.fetch_all().len(), 1);
}

#[test]
fn token_subject_and_issuer_lookup() {
    let mut users = UserStore::new();
    let user = inactive_user(&mut users);
    let admin = admin_user(&mut users);
    let token = Enrollment::new(user.id.unwrap(), admin.id.unwrap(), None, 86400, 0);
    assert_eq!(token.fetch_user(&users).unwrap().username, "newbie");
    assert_eq!(token.fetch_admin(&users).unwrap().username, "admin");
    let dangling = Enrollment::new(999, 998, None, 86400, 0);
    assert!(matches!(
        dangling.fetch_user(&users),
        Err(EnrollmentError::UserNotFound)
    ));
    assert!(matches!(
        dangling.fetch_admin(&users),
        Err(EnrollmentError::AdminNotFound)
    ));
}

#[test]
fn error_status_mapping_is_anti_enumeration() {
    for err in [
        EnrollmentError::NotFound,
        EnrollmentError::TokenExpired,
        EnrollmentError::SessionExpired,
        EnrollmentError::TokenUsed,
    ] {
        let (code, msg) = err.status();
        assert_eq!(code, StatusCode::Unauthenticated);
        assert_eq!(msg, "invalid token");
    }
    let (code, msg) = EnrollmentError::AlreadyActive.status();
    assert_eq!(code, StatusCode::InvalidArgument);
    assert_eq!(msg, "already active");
    for err in [
        EnrollmentError::DbError("boom".into()),
        EnrollmentError::UserNotFound,
        EnrollmentError::AdminNotFound,
        EnrollmentError::NotificationError("gone".into()),
        EnrollmentError::WelcomeMsgNotConfigured,
        EnrollmentError::WelcomeEmailNotConfigured,
    ] {
        let (code, msg) = err.status();
        assert_eq!(code, StatusCode::Internal);
        assert_eq!(msg, "unexpected error");
    }
}

#[test]
fn welcome_message_and_email_lookup() {
    let settings = Settings {
        enrollment_welcome_message: Some("hello".into()),
        enrollment_welcome_email: Some("mail body".into()),
        enrollment_use_welcome_message_as_email: false,
    };
    assert_eq!(settings.enrollment_welcome_message().unwrap(), "hello");
    assert_eq!(settings.enrollment_welcome_email().unwrap(), "mail body");

    let reuse = Settings {
        enrollment_welcome_message: Some("hello".into()),
        enrollment_welcome_email: None,
        enrollment_use_welcome_message_as_email: true,
    };
    assert_eq!(reuse.enrollment_welcome_email().unwrap(), "hello");

    let empty = Settings {
        enrollment_welcome_message: None,
        enrollment_welcome_email: None,
        enrollment_use_welcome_message_as_email: false,
    };
    assert!(matches!(
        empty.enrollment_welcome_message(),
        Err(EnrollmentError::WelcomeMsgNotConfigured)
    ));
    assert!(matches!(
        empty.enrollment_welcome_email(),
        Err(EnrollmentError::WelcomeEmailNotConfigured)
    ));
    let empty_reuse = Settings {
        enrollment_welcome_message: None,
        enrollment_welcome_email: Some("unused".into()),
        enrollment_use_welcome_message_as_email: true,
    };
    assert!(matches!(
        empty_reuse.enrollment_welcome_email(),
        Err(EnrollmentError::WelcomeMsgNotConfigured)
    ));
}

#[test]
fn row_level_start_session() {
    let mut token = Enrollment::new(1, 2, None, 100, 0);
    let deadline = token.start_session(50, 600).unwrap();
    assert_eq!(deadline, 650);
    assert_eq!(token.used_at, Some(50));
    let mut spent = token.duplicate();
    assert!(matches!(
        spent.start_session(60, 600),
        Err(EnrollmentError::TokenUsed)
    ));
    let mut late = Enrollment::new(1, 2, None, 100, 0);
    assert!(matches!(
        late.start_session(101, 600),
        Err(EnrollmentError::TokenExpired)
    ));
    assert!(late.used_at.is_none());
}
