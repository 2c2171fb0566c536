use rastos::auth::cli::{default_config_path, generate_key, key_text, AddKeyArgs};
use rastos::auth::config::{ApiKeyConfig, RemoveError, Removed, ServiceKeys};
use rastos::auth::{get_api_key, get_api_key_from_env, ApiKey, ApiKeyManager, AuthError};

#[test]
fn test_add_to_manager() {
    let mut config = ApiKeyConfig::default();

    // Add a test service
    let service_keys = ServiceKeys {
        primary: Some("test-primary-key".to_string()),
        additional: vec!["test-additional-1".to_string()],
        env_var: None,
    };

    config.keys.insert("test-service".to_string(), service_keys);

    // Add to manager
    let mut manager = ApiKeyManager::new();
    config.add_to_manager(&mut manager).unwrap();

    // Verify keys were added
    assert!(manager.validate_key("test-primary-key", "test-service").is_ok());
    assert!(manager.validate_key("test-additional-1", "test-service").is_ok());

    // Verify invalid key
    assert!(manager.validate_key("invalid-key", "test-service").is_err());
}

#[test]
fn test_api_key_validation() {
    let mut manager = ApiKeyManager::new();
    let key = "test-key".to_string();

    // Add a test key
    manager
        .add_key(ApiKey {
            key: key.clone(),
            service: "backup".to_string(),
            description: Some("Test key".to_string()),
            expires_at: None,
        })
        .unwrap();

    // Test valid key
    assert!(manager.validate_key(&key, "backup").is_ok());

    // Test invalid service
    assert!(matches!(
        manager.validate_key(&key, "llm"),
        Err(AuthError::InvalidApiKey)
    ));

    // Test non-existent key
    assert!(matches!(
        manager.validate_key("invalid-key", "backup"),
        Err(AuthError::InvalidApiKey)
    ));
}

#[test]
fn test_expired_key() {
    let mut manager = ApiKeyManager::new();
    let key = "expired-key".to_string();

    // Add an expired key (expired 1 hour ago)
    let one_hour_ago = (std::time::SystemTime::now()
        .duration_since(std::time::UNIX_EPOCH)
        .unwrap()
        .as_secs() as i64)
        - 3600;

    manager
        .add_key(ApiKey {
            key: key.clone(),
            service: "backup".to_string(),
            description: Some("Expired key".to_string()),
            expires_at: Some(one_hour_ago),
        })
        .unwrap();

    // Should fail with expired key
    assert!(matches!(
        manager.validate_key(&key, "backup"),
        Err(AuthError::Other(msg)) if msg.contains("expired")
    ));
}

#[test]
fn test_get_key() {
    let mut config = ApiKeyConfig::default();

    // Add a test service with an environment variable
    let service_keys = ServiceKeys {
        primary: Some("test-primary-key".to_string()),
        additional: vec!["test-additional-1".to_string()],
        env_var: Some("TEST_API_KEY".to_string()),
    };

    config.keys.insert("test-service".to_string(), service_keys);

    // Test getting the primary key
    assert_eq!(config.get_key("test-service", None).unwrap(), "test-primary-key");

    // Test getting a non-existent service
    assert!(config.get_key("non-existent", None).is_none());
}

#[test]
fn env_value_overrides_primary_key() {
    let mut config = ApiKeyConfig::default();
    config.keys.insert(
        "svc".to_string(),
        ServiceKeys {
            primary: Some("from-file".to_string()),
            additional: vec![],
            env_var: Some("SVC_KEY".to_string()),
        },
    );
    config.keys.insert(
        "plain".to_string(),
        ServiceKeys { primary: Some("p".to_string()), additional: vec![], env_var: None },
    );
    assert_eq!(config.override_var("svc").unwrap(), "SVC_KEY");
    assert!(config.override_var("plain").is_none());
    assert_eq!(config.get_key("svc", Some("from-env")).unwrap(), "from-env");
    // Without an override variable the value of the environment is not looked at.
    assert_eq!(config.get_key("plain", Some("from-env")).unwrap(), "p");
}

#[test]
fn env_var_name_is_upper_case_prefix() {
    let mut config = ApiKeyConfig::default();
    assert_eq!(config.env_var_for_service("backup"), "RAST_API_KEY");
    config.env_prefix = "my_app".to_string();
    assert_eq!(config.env_var_for_service("llm"), "MY_APP_API_KEY");
}

#[test]
fn validate_key_at_judges_expiry_by_the_second() {
    let mut manager = ApiKeyManager::new();
    manager
        .add_key(ApiKey {
            key: "k".to_string(),
            service: "backup".to_string(),
            description: None,
            expires_at: Some(1000),
        })
        .unwrap();
    assert!(manager.validate_key_at("k", "backup", 999).is_ok());
    assert!(manager.validate_key_at("k", "backup", 1000).is_ok());
    match manager.validate_key_at("k", "backup", 1001) {
        Err(AuthError::Other(m)) => assert_eq!(m, "API key has expired"),
        _ => panic!("expected an expired key"),
    }
    assert!(matches!(manager.validate_key_at("k", "llm", 0), Err(AuthError::InvalidApiKey)));
    assert!(matches!(manager.validate_key_at("x", "backup", 0), Err(AuthError::InvalidApiKey)));
}

#[test]
fn add_key_replaces_and_remove_key_forgets() {
    let mut manager = ApiKeyManager::new();
    manager
        .add_key(ApiKey {
            key: "k".to_string(),
            service: "a".to_string(),
            description: None,
            expires_at: None,
        })
        .unwrap();
    manager
        .add_key(ApiKey {
            key: "k".to_string(),
            service: "b".to_string(),
            description: None,
            expires_at: None,
        })
        .unwrap();
    assert!(manager.validate_key("k", "b").is_ok());
    assert!(manager.validate_key("k", "a").is_err());
    manager.remove_key("k").unwrap();
    assert!(manager.validate_key("k", "b").is_err());
    // Forgetting an unknown key is no error.
    manager.remove_key("k").unwrap();
}

#[test]
fn get_api_key_prefers_the_argument() {
    let mut manager = ApiKeyManager::new();
    for k in ["arg-key", "env-key"] {
        manager
            .add_key(ApiKey {
                key: k.to_string(),
                service: "llm".to_string(),
                description: None,
                expires_at: None,
            })
            .unwrap();
    }
    let key = get_api_key(
        Some("arg-key".to_string()),
        Some("env-key".to_string()),
        "llm",
        &manager,
    )
    .unwrap();
    assert_eq!(key, "arg-key");
    let key = get_api_key(None, Some("env-key".to_string()), "llm", &manager).unwrap();
    assert_eq!(key, "env-key");
    assert!(matches!(get_api_key(None, None, "llm", &manager), Err(AuthError::MissingApiKey)));
    assert!(matches!(
        get_api_key(Some("other".to_string()), Some("env-key".to_string()), "llm", &manager),
        Err(AuthError::InvalidApiKey)
    ));
    assert!(matches!(
        get_api_key_from_env(None, "llm", &manager),
        Err(AuthError::MissingApiKey)
    ));
    assert_eq!(
        get_api_key_from_env(Some("env-key".to_string()), "llm", &manager).unwrap(),
        "env-key"
    );
}

#[test]
fn additional_keys_are_numbered_from_one() {
    let mut config = ApiKeyConfig::default();
    config.keys.insert(
        "svc".to_string(),
        ServiceKeys {
            primary: None,
            additional: vec!["a1".to_string(), "a2".to_string()],
            env_var: None,
        },
    );
    let mut manager = ApiKeyManager::new();
    config.add_to_manager(&mut manager).unwrap();
    assert!(manager.validate_key("a1", "svc").is_ok());
    assert!(manager.validate_key("a2", "svc").is_ok());
}

#[test]
fn config_add_key_moves_old_primary_to_additional() {
    let mut config = ApiKeyConfig::default();
    config.add_key("svc", "first".to_string(), false, None);
    {
        let keys = config.keys.get("svc").unwrap();
        assert_eq!(keys.primary.as_deref(), Some("first"));
        assert!(keys.additional.is_empty());
    }
    config.add_key("svc", "second".to_string(), false, Some("SVC".to_string()));
    {
        let keys = config.keys.get("svc").unwrap();
        assert_eq!(keys.primary.as_deref(), Some("first"));
        assert_eq!(keys.additional, vec!["second".to_string()]);
        assert_eq!(keys.env_var.as_deref(), Some("SVC"));
    }
    config.add_key("svc", "third".to_string(), true, None);
    let keys = config.keys.get("svc").unwrap();
    assert_eq!(keys.primary.as_deref(), Some("third"));
    assert_eq!(keys.additional, vec!["second".to_string(), "first".to_string()]);
    assert_eq!(keys.env_var.as_deref(), Some("SVC"));
}

#[test]
fn config_remove_key_outcomes() {
    let mut config = ApiKeyConfig::default();
    config.add_key("svc", "p".to_string(), true, None);
    config.add_key("svc", "a".to_string(), false, None);
    config.add_key("svc", "b".to_string(), false, None);
    assert_eq!(config.remove_key("nope", Some("p"), false), Err(RemoveError::NoService));
    assert_eq!(config.remove_key("svc", None, false), Err(RemoveError::NothingNamed));
    assert_eq!(config.remove_key("svc", Some("zzz"), false), Err(RemoveError::NoKey));
    assert_eq!(config.remove_key("svc", Some("a"), false), Ok(Removed::Additional));
    assert_eq!(config.keys.get("svc").unwrap().additional, vec!["b".to_string()]);
    assert_eq!(config.remove_key("svc", Some("p"), false), Ok(Removed::Primary));
    assert!(config.keys.get("svc").unwrap().primary.is_none());
    assert_eq!(config.remove_key("svc", None, true), Ok(Removed::All));
    assert!(config.keys.get("svc").is_none());
}

#[test]
fn key_text_is_url_safe_base64_without_padding() {
    assert_eq!(key_text(b"").unwrap(), "");
    assert_eq!(key_text(b"f").unwrap(), "Zg");
    assert_eq!(key_text(b"fo").unwrap(), "Zm8");
    assert_eq!(key_text(b"foo").unwrap(), "Zm9v");
    assert_eq!(key_text(b"hello").unwrap(), "aGVsbG8");
    assert_eq!(key_text(&[0xfb, 0xff, 0xfe]).unwrap(), "-__-");
}

#[test]
fn generated_keys_have_the_length_of_their_bytes() {
    // 32 bytes give 43 characters, 3 bytes give 4.
    assert_eq!(generate_key(32).unwrap().chars().count(), 43);
    assert_eq!(generate_key(3).unwrap().chars().count(), 4);
    assert_eq!(generate_key(0).unwrap(), "");
    assert_ne!(generate_key(32).unwrap(), generate_key(32).unwrap());
}

fn add_args(key: Option<&str>, expires: Option<&str>) -> AddKeyArgs {
    AddKeyArgs {
        service: "svc".to_string(),
        key: key.map(|k| k.to_string()),
        description: None,
        expires: expires.map(|e| e.to_string()),
        primary: false,
        env_var: None,
        config: default_config_path(),
    }
}

#[test]
fn expiry_is_the_first_second_of_the_day() {
    assert_eq!(add_args(None, None).expires_at(), Ok(None));
    assert_eq!(add_args(None, Some("1970-01-01")).expires_at(), Ok(Some(0)));
    assert_eq!(add_args(None, Some("1970-01-02")).expires_at(), Ok(Some(86_400)));
    assert_eq!(add_args(None, Some("2015-05-15")).expires_at(), Ok(Some(1_431_648_000)));
    assert_eq!(add_args(None, Some("2015-02-30")).expires_at(), Err("2015-02-30".to_string()));
    assert_eq!(add_args(None, Some("tomorrow")).expires_at(), Err("tomorrow".to_string()));
}

#[test]
fn key_to_add_is_the_given_one_or_a_fresh_one() {
    assert_eq!(add_args(Some("given"), None).key_to_add().unwrap(), "given");
    let fresh = add_args(None, None).key_to_add().unwrap();
    assert_eq!(fresh.chars().count(), 43);
    assert!(fresh.chars().all(|c| c.is_ascii_alphanumeric() || c == '-' || c == '_'));
    assert_ne!(fresh, add_args(None, None).key_to_add().unwrap());
    assert_eq!(default_config_path(), "/etc/rast/auth/keys.toml");
}

#[test]
fn test_env_var_override() {
    let mut config = ApiKeyConfig::default();

    // Add a test service with an environment variable
    let service_keys = ServiceKeys {
        primary: Some("test-primary-key".to_string()),
        additional: vec!["test-additional-1".to_string()],
        env_var: Some("TEST_API_KEY".to_string()),
    };

    config.keys.insert("test-service".to_string(), service_keys);

    // The variable that is to be read, and what it holds
    assert_eq!(config.override_var("test-service").unwrap(), "TEST_API_KEY");

    // Should get the key from the environment variable
    assert_eq!(config.get_key("test-service", Some("env-var-key")).unwrap(), "env-var-key");
}

#[test]
fn test_get_api_key_from_env() {
    let mut manager = ApiKeyManager::new();
    let test_key = "test-env-key";

    // Add a test key
    manager
        .add_key(ApiKey {
            key: test_key.to_string(),
            service: "backup".to_string(),
            description: None,
            expires_at: None,
        })
        .unwrap();

    // Test getting key from env
    let key = get_api_key_from_env(Some(test_key.to_string()), "backup", &manager).unwrap();
    assert_eq!(key, test_key);

    // Test missing env var
    assert!(matches!(
        get_api_key_from_env(None, "backup", &manager),
        Err(AuthError::MissingApiKey)
    ));
}

#[test]
fn test_get_api_key() {
    let mut manager = ApiKeyManager::new();
    let test_key = "test-arg-key";

    // Add a test key
    manager
        .add_key(ApiKey {
            key: test_key.to_string(),
            service: "llm".to_string(),
            description: None,
            expires_at: None,
        })
        .unwrap();

    // Test getting key from argument
    let key = get_api_key(Some(test_key.to_string()), None, "llm", &manager).unwrap();
    assert_eq!(key, test_key);

    // Test getting key from env when arg is None
    let key = get_api_key(None, Some(test_key.to_string()), "llm", &manager).unwrap();
    assert_eq!(key, test_key);

    // Test missing key
    assert!(matches!(
        get_api_key(None, None, "llm", &manager),
        Err(AuthError::MissingApiKey)
    ));
}
