use rig::validation::{validate_app_name, validate_env_var_name, validate_network_name};

#[test]
fn test_validate_network_name() {
    assert!(validate_network_name("my-network").is_ok());
    assert!(validate_network_name("network123").is_ok());
    assert!(validate_network_name("a").is_ok());

    assert!(validate_network_name("").is_err());
    assert!(validate_network_name("-network").is_err());
    assert!(validate_network_name("network-").is_err());
    assert!(validate_network_name("my_network").is_err());
    assert!(validate_network_name(&"a".repeat(64)).is_err());
}

#[test]
fn test_validate_env_var_name() {
    assert!(validate_env_var_name("MY_VAR").is_ok());
    assert!(validate_env_var_name("API_KEY_123").is_ok());

    assert!(validate_env_var_name("").is_err());
    assert!(validate_env_var_name("my_var").is_err());
    assert!(validate_env_var_name("MY-VAR").is_err());
}

#[test]
fn test_validate_app_name_follows_network_rule() {
    assert!(validate_app_name("my-app").is_ok());
    assert!(validate_app_name("app42").is_ok());
    assert!(validate_app_name("").is_err());
    assert!(validate_app_name("-app").is_err());
    assert!(validate_app_name(&"a".repeat(64)).is_err());
}

#[test]
fn test_validation_error_kind() {
    let err = validate_network_name("").unwrap_err();
    assert!(matches!(err, rig::RigError::Generic(_)));
    assert_eq!(err.message(), "Network name cannot be empty");
}
