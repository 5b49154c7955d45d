use opsml_cli::errors::RetrievalError;
use opsml_cli::utils::{check_args, remove_suffix, validate_registry};

#[test]
fn test_remove_suffix() {
    let test_uri_with_slash = "http://localhost:8080/";
    let test_uri_without_slash = "http://localhost:8080";
    let processed_with_slash_uri = remove_suffix(test_uri_with_slash, '/');
    let processed_without_slash_uri = remove_suffix(test_uri_without_slash, '/');
    assert_eq!(processed_with_slash_uri, "http://localhost:8080");
    assert_eq!(processed_without_slash_uri, test_uri_without_slash);
}

#[test]
fn test_validate_registry() {
    let v = vec!["data", "model", "run", "audit"];

    for name in &v {
        validate_registry(name).unwrap();
    }
}

#[test]
fn test_validate_registry_rejects_unknown() {
    assert!(validate_registry("warehouse").is_err());
    assert_eq!(validate_registry("warehouse").unwrap_err(), "warehouse");
    assert!(validate_registry("").is_err());
    assert!(validate_registry("Data").is_err());
}

fn s(v: &str) -> Option<String> {
    Some(v.to_string())
}

#[test]
fn identity_uid_alone_is_valid() {
    assert!(check_args(&None, &None, &s("x")).is_ok());
}

#[test]
fn identity_name_and_version_is_valid() {
    assert!(check_args(&s("m"), &s("1.0.0"), &None).is_ok());
}

#[test]
fn identity_empty_is_invalid() {
    let r = check_args(&None, &None, &None);
    assert!(matches!(r, Err(RetrievalError::InvalidIdentity)));
}

#[test]
fn identity_uid_with_name_is_invalid() {
    let r = check_args(&s("m"), &None, &s("x"));
    assert!(matches!(r, Err(RetrievalError::InvalidIdentity)));
}

#[test]
fn identity_name_without_version_is_invalid() {
    let r = check_args(&s("m"), &None, &None);
    assert!(matches!(r, Err(RetrievalError::InvalidIdentity)));
}

#[test]
fn identity_all_fields_is_invalid() {
    let r = check_args(&s("m"), &s("1.0.0"), &s("x"));
    assert!(matches!(r, Err(RetrievalError::InvalidIdentity)));
}

#[test]
fn remove_suffix_other_character() {
    assert_eq!(remove_suffix("a,b,", ','), "a,b");
    assert_eq!(remove_suffix("", '/'), "");
    assert_eq!(remove_suffix("/", '/'), "");
}
