use repolyze::settings::Settings;

#[test]
fn default_settings_has_no_aliases() {
    let s = Settings::default();
    assert!(!s.has_aliases());
    assert_eq!(s.canonical_key("alice@example.com"), "alice@example.com");
}

#[test]
fn canonical_key_returns_name_when_mapped() {
    let users = vec![(
        "Alice".to_string(),
        vec!["alice@work.com".to_string(), "alice@home.com".to_string()],
    )];
    let s = Settings::from_users(users);

    assert!(s.has_aliases());
    assert_eq!(s.canonical_key("alice@work.com"), "Alice");
    assert_eq!(s.canonical_key("alice@home.com"), "Alice");
    assert_eq!(s.canonical_key("ALICE@WORK.COM"), "Alice");
}

#[test]
fn canonical_key_returns_email_when_not_mapped() {
    let users = vec![("Alice".to_string(), vec!["alice@work.com".to_string()])];
    let s = Settings::from_users(users);

    assert_eq!(s.canonical_key("Bob@Example.com"), "bob@example.com");
}

#[test]
fn emails_for_key_returns_all_emails_for_user() {
    let users = vec![(
        "Alice".to_string(),
        vec!["Alice@Work.com".to_string(), "alice@home.com".to_string()],
    )];
    let s = Settings::from_users(users);

    let mut emails = s.emails_for_key("Alice");
    emails.sort();
    assert_eq!(emails, vec!["alice@home.com", "alice@work.com"]);
}

#[test]
fn emails_for_key_returns_key_as_email_when_not_a_user() {
    let s = Settings::default();
    assert_eq!(s.emails_for_key("bob@example.com"), vec!["bob@example.com"]);
}

#[test]
fn later_users_override_earlier_ones() {
    let users = vec![
        ("Alice".to_string(), vec!["shared@example.com".to_string()]),
        ("Bob".to_string(), vec!["shared@example.com".to_string()]),
    ];
    let s = Settings::from_users(users);
    assert_eq!(s.canonical_key("shared@example.com"), "Bob");
}

#[test]
fn canonical_key_ignores_ascii_case_of_stored_and_asked_emails() {
    let s = Settings::from_users(vec![("Alice".to_string(), vec!["Alice@Work.COM".to_string()])]);
    assert_eq!(s.emails_for_key("Alice"), vec!["alice@work.com".to_string()]);
    assert_eq!(s.canonical_key("alice@work.com"), "Alice");
    assert_eq!(s.canonical_key("ALICE@WORK.COM"), s.canonical_key("alice@work.com"));
    assert_eq!(s.canonical_key("BOB@X.ORG"), "bob@x.org");
}

#[test]
fn emails_of_a_name_lead_back_to_that_name() {
    let s = Settings::from_users(vec![
        ("Alice".to_string(), vec!["alice@home.org".to_string(), "A.Smith@Work.com".to_string()]),
        ("Bob".to_string(), vec!["bob@x.org".to_string()]),
    ]);
    for name in ["Alice", "Bob"] {
        for e in s.emails_for_key(name) {
            assert_eq!(s.canonical_key(&e), name);
            assert_eq!(s.canonical_key(&e.to_uppercase()), name);
        }
    }
    assert_eq!(s.emails_for_key("Alice"), vec!["alice@home.org".to_string(), "a.smith@work.com".to_string()]);
}
