use oqto::auth::{AuthConfig, ConfigValidationError, DevUser, Role};

#[test]
fn test_auth_config_default() {
    let config = AuthConfig::default();
    assert!(config.dev_mode);
    assert!(config.jwt_secret.is_none());
    assert_eq!(config.dev_users.len(), 2);
}

#[test]
fn test_dev_user_new_with_plaintext() {
    let user = DevUser::new_with_plaintext("test", "Test", "test@example.com", "testpass123", Role::Admin);
    assert_eq!(user.id, "test");
    assert_eq!(user.role, Role::Admin);
    assert_ne!(user.password_hash, "testpass123");
    assert!(user.password_hash.starts_with("$2"));
}

#[test]
fn test_dev_user_password_verification() {
    let user = DevUser::new_with_plaintext("test", "Test", "test@example.com", "correctpassword", Role::User);
    assert!(user.verify_password("correctpassword"));
    assert!(!user.verify_password("wrongpassword"));
    assert!(!user.verify_password(""));
}

#[test]
fn test_config_validation_dev_mode() {
    let config = AuthConfig::default();
    assert!(config.validate().is_ok());
}

#[test]
fn test_config_validation_production_mode_no_secret() {
    let mut config = AuthConfig::default();
    config.dev_mode = false;
    config.jwt_secret = None;
    assert_eq!(config.validate().unwrap_err(), ConfigValidationError::MissingJwtSecret);
}

#[test]
fn test_config_validation_production_mode_insecure_secret() {
    let mut config = AuthConfig::default();
    config.dev_mode = false;
    config.jwt_secret = Some("dev-secret-change-in-production".to_string());
    assert_eq!(config.validate().unwrap_err(), ConfigValidationError::InsecureJwtSecret);
}

#[test]
fn test_config_validation_production_mode_short_secret() {
    let mut config = AuthConfig::default();
    config.dev_mode = false;
    config.jwt_secret = Some("tooshort".to_string());
    assert_eq!(config.validate().unwrap_err(), ConfigValidationError::JwtSecretTooShort);
}

#[test]
fn test_config_validation_production_mode_valid() {
    let mut config = AuthConfig::default();
    config.dev_mode = false;
    config.jwt_secret = Some("a-very-long-and-secure-jwt-secret-that-is-at-least-32-chars".to_string());
    assert!(config.validate().is_ok());
}

#[test]
fn test_generate_jwt_secret() {
    let secret = AuthConfig::generate_jwt_secret();
    assert_eq!(secret.len(), 64);
    assert!(secret.chars().all(|c| c.is_ascii_alphanumeric()));
}
