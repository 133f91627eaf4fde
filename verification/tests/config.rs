use hookbot::config::{AdminPassword, AppConfig};

fn s(v: &str) -> Option<String> {
    Some(v.to_string())
}

#[test]
fn api_key_prefers_the_variable_then_the_trimmed_file() {
    assert_eq!(AppConfig::resolve_api_key(s("env-key"), s("file-key")), s("env-key"));
    assert_eq!(AppConfig::resolve_api_key(s(""), s("  file-key \n")), s("file-key"));
    assert_eq!(AppConfig::resolve_api_key(None, s("file-key")), s("file-key"));
    assert_eq!(AppConfig::resolve_api_key(s(""), s(" \t\n")), None);
    assert_eq!(AppConfig::resolve_api_key(None, None), None);
}

#[test]
fn admin_password_hash_from_the_environment_is_used_as_is() {
    match AppConfig::resolve_admin_password(s("$2b$12$abc"), s("ignored")) {
        Some(AdminPassword::Configured(h)) => assert_eq!(h, "$2b$12$abc"),
        _ => panic!("expected the configured hash"),
    }
}

#[test]
fn admin_password_is_generated_when_nothing_is_configured() {
    match AppConfig::resolve_admin_password(s(""), None) {
        Some(AdminPassword::Generated { hash, password }) => {
            assert_eq!(password.len(), 8);
            assert!(password.chars().all(|c| c.is_ascii_digit() || ('a'..='f').contains(&c)));
            assert_ne!(hash, password);
            assert!(bcrypt::verify(&password, &hash).unwrap());
        }
        _ => panic!("expected a generated password"),
    }
}

#[test]
fn admin_password_from_the_environment_is_hashed() {
    match AppConfig::resolve_admin_password(None, s("hunter2")) {
        Some(AdminPassword::Hashed(h)) => {
            assert_ne!(h, "hunter2");
            assert!(bcrypt::verify("hunter2", &h).unwrap());
        }
        _ => panic!("expected the hash of the configured password"),
    }
}
