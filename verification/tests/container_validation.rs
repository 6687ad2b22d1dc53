use oqto::container::{
    validate_container_name, validate_container_path, validate_env_var_key, validate_hostname,
    validate_image_name, validate_volume_path, ContainerConfig,
};

#[test]
fn test_validate_image_name_valid() {
    assert!(validate_image_name("ubuntu").is_ok());
    assert!(validate_image_name("ubuntu:latest").is_ok());
    assert!(validate_image_name("ubuntu:20.04").is_ok());
    assert!(validate_image_name("library/nginx").is_ok());
    assert!(validate_image_name("myregistry.io/myimage:v1.0").is_ok());
    assert!(validate_image_name("gcr.io/project/image@sha256:abc123").is_ok());
    assert!(validate_image_name("my-image_v1").is_ok());
}

#[test]
fn test_validate_image_name_invalid() {
    assert!(validate_image_name("").is_err());
    assert!(validate_image_name("image with spaces").is_err());
    assert!(validate_image_name("image;rm -rf /").is_err());
    assert!(validate_image_name("image$(whoami)").is_err());
    assert!(validate_image_name("image`id`").is_err());
    assert!(validate_image_name("../../../etc/passwd").is_err());
}

#[test]
fn test_validate_container_name_valid() {
    assert!(validate_container_name("mycontainer").is_ok());
    assert!(validate_container_name("my-container").is_ok());
    assert!(validate_container_name("my_container").is_ok());
    assert!(validate_container_name("container123").is_ok());
    assert!(validate_container_name("_private").is_ok());
}

#[test]
fn test_validate_container_name_invalid() {
    assert!(validate_container_name("").is_err());
    assert!(validate_container_name("-starts-with-dash").is_err());
    assert!(validate_container_name("contains spaces").is_err());
    assert!(validate_container_name("has;semicolon").is_err());
    assert!(validate_container_name("$(whoami)").is_err());
}

#[test]
fn test_validate_hostname_valid() {
    assert!(validate_hostname("localhost").is_ok());
    assert!(validate_hostname("my-host").is_ok());
    assert!(validate_hostname("host.example.com").is_ok());
    assert!(validate_hostname("sub1.sub2.example.com").is_ok());
}

#[test]
fn test_validate_hostname_invalid() {
    assert!(validate_hostname("").is_err());
    assert!(validate_hostname("-invalid").is_err());
    assert!(validate_hostname("invalid-").is_err());
    assert!(validate_hostname("has spaces").is_err());
    assert!(validate_hostname("..").is_err());
}

#[test]
fn test_validate_env_var_key_valid() {
    assert!(validate_env_var_key("PATH").is_ok());
    assert!(validate_env_var_key("MY_VAR").is_ok());
    assert!(validate_env_var_key("_PRIVATE").is_ok());
    assert!(validate_env_var_key("VAR123").is_ok());
}

#[test]
fn test_validate_env_var_key_invalid() {
    assert!(validate_env_var_key("").is_err());
    assert!(validate_env_var_key("123VAR").is_err());
    assert!(validate_env_var_key("MY-VAR").is_err());
    assert!(validate_env_var_key("MY VAR").is_err());
    assert!(validate_env_var_key("$(whoami)").is_err());
}

#[test]
fn test_validate_volume_path_valid() {
    assert!(validate_volume_path("/home/user/data", "host").is_ok());
    assert!(validate_volume_path("./relative/path", "host").is_ok());
    assert!(validate_volume_path("/var/lib/data", "container").is_ok());
}

#[test]
fn test_validate_volume_path_invalid() {
    assert!(validate_volume_path("", "host").is_err());
    assert!(validate_volume_path("/path;rm -rf /", "host").is_err());
    assert!(validate_volume_path("/path$(whoami)", "host").is_err());
    assert!(validate_volume_path("/path`id`", "host").is_err());
    assert!(validate_volume_path("/path\0null", "host").is_err());
}

#[test]
fn test_validate_container_path_valid() {
    assert!(validate_container_path("/home/user").is_ok());
    assert!(validate_container_path("/var/lib/data").is_ok());
    assert!(validate_container_path("/").is_ok());
}

#[test]
fn test_validate_container_path_invalid() {
    assert!(validate_container_path("").is_err());
    assert!(validate_container_path("relative/path").is_err());
    assert!(validate_container_path("/path\0null").is_err());
}

#[test]
fn test_container_config_validate() {
    let config = ContainerConfig::new("ubuntu:latest")
        .name("my-container")
        .hostname("myhost")
        .env("MY_VAR", "value")
        .volume("/host/path", "/container/path");

    assert!(config.validate().is_ok());
}

#[test]
fn test_container_config_validate_invalid_image() {
    let config = ContainerConfig::new("invalid$(whoami)");
    assert!(config.validate().is_err());
}

#[test]
fn test_container_config_validate_invalid_name() {
    let config = ContainerConfig::new("ubuntu").name("invalid;name");
    assert!(config.validate().is_err());
}

#[test]
fn container_name_starts_with_letter_or_underscore() {
    assert!(validate_container_name("1abc").is_err());
    assert!(validate_container_name("a1bc").is_ok());
    assert!(validate_container_name("_1bc").is_ok());
}
