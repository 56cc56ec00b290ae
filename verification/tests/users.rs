use argon2::password_hash::{PasswordHasher, SaltString};
use argon2::Argon2;
use mailroom::config::{DomainCfg, TlsSettings};
use mailroom::config_helpers::{addresses_are_valid, checked_addresses, get_all_addresses};
use mailroom::database::user::User;
use mailroom::database::user_database::authenticate_user;

fn stored(password: &str) -> String {
    let salt = SaltString::from_b64("c29tZSBmaXhlZCBzYWx0").unwrap();
    Argon2::default()
        .hash_password(password.as_bytes(), &salt)
        .unwrap()
        .to_string()
}

fn user(hash: String) -> User {
    User { email_address: "alice@example.org".to_owned(), password: hash }
}

#[test]
fn password_check() {
    let found = authenticate_user(Some(user(stored("password"))), "password").unwrap();
    assert_eq!(found.email_address, "alice@example.org");
    assert!(authenticate_user(Some(user(stored("password"))), "Password").is_none());
    assert!(authenticate_user(Some(user(stored("password"))), "").is_none());
    // The password itself is no hash of it
    assert!(authenticate_user(Some(user("password".to_owned())), "password").is_none());
    assert!(authenticate_user(Some(user("".to_owned())), "").is_none());
    // No user, no match
    assert!(authenticate_user(None, "password").is_none());
}

fn domain(name: &str, users: &[&str]) -> DomainCfg {
    DomainCfg {
        name: name.to_owned(),
        tls_settings: TlsSettings::Disabled,
        users: users.iter().map(|u| (*u).to_owned()).collect(),
    }
}

#[test]
fn configured_addresses() {
    let domains = vec![
        domain("example.org", &["alice", "bob"]),
        domain("empty.example", &[]),
        domain("example.net", &["carol"]),
    ];
    assert!(addresses_are_valid(&domains));
    let texts = |addresses: Vec<mailroom::address::MailAddress>| -> Vec<String> {
        addresses.iter().map(|a| a.as_str().to_owned()).collect()
    };
    assert_eq!(
        texts(get_all_addresses(&domains)),
        vec!["alice@example.org", "bob@example.org", "carol@example.net"]
    );
    assert_eq!(
        texts(checked_addresses(&domains).unwrap()),
        vec!["alice@example.org", "bob@example.org", "carol@example.net"]
    );
    assert_eq!(texts(get_all_addresses(&Vec::new())), Vec::<String>::new());

    let domains = vec![
        domain("example.org", &["alice"]),
        domain("example.net", &["carol", "not valid", "dave"]),
    ];
    assert!(!addresses_are_valid(&domains));
    assert!(checked_addresses(&domains).is_none());
    let domains = vec![domain("", &["alice"])];
    assert!(checked_addresses(&domains).is_none());
}
