use crud_core::users::errors::AppError;
use crud_core::users::user::CreateUserDto;
use crud_core::users::validate::validate_create_user;

fn payload(username: &str, email: &str, role: &str, hash: &str) -> CreateUserDto {
    CreateUserDto {
        username: username.to_string(),
        email: email.to_string(),
        role: role.to_string(),
        password_hash: hash.to_string(),
    }
}

#[test]
fn valid_payload_passes_through_unchanged() {
    let v = validate_create_user(payload("alfa", "alfa@example.com", "admin", "h")).unwrap();
    assert_eq!(v.0.username, "alfa".to_string());
    assert_eq!(v.0.email, "alfa@example.com".to_string());
    assert_eq!(v.0.role, "admin".to_string());
    assert_eq!(v.0.password_hash, "h".to_string());
}

#[test]
fn malformed_email_is_unprocessable() {
    let r = validate_create_user(payload("alfa", "not-an-email", "user", "h"));
    assert!(matches!(r, Err(AppError::RequestPayloadNotValid(_))));
}

#[test]
fn email_without_at_sign_is_rejected() {
    let r = validate_create_user(payload("alfa", "alfa.example.com", "user", "h"));
    assert!(matches!(r, Err(AppError::RequestPayloadNotValid(_))));
}

#[test]
fn empty_email_is_rejected() {
    let r = validate_create_user(payload("alfa", "", "user", "h"));
    assert!(matches!(r, Err(AppError::RequestPayloadNotValid(_))));
}

#[test]
fn empty_username_is_rejected() {
    let r = validate_create_user(payload("", "alfa@example.com", "user", "h"));
    assert!(matches!(r, Err(AppError::RequestPayloadNotValid(_))));
}

#[test]
fn empty_role_is_rejected() {
    let r = validate_create_user(payload("alfa", "alfa@example.com", "", "h"));
    assert!(matches!(r, Err(AppError::RequestPayloadNotValid(_))));
}

#[test]
fn empty_password_hash_is_rejected() {
    let r = validate_create_user(payload("alfa", "alfa@example.com", "user", ""));
    assert!(matches!(r, Err(AppError::RequestPayloadNotValid(_))));
}

#[test]
fn malformed_email_maps_to_unprocessable_entity_status() {
    let err = validate_create_user(payload("alfa", "broken@", "user", "h")).unwrap_err();
    let (status, body) = err.response_parts();
    assert_eq!(status, 422);
    assert_eq!(body.code, "RequestPayloadNotValidUnprocessableEntity".to_string());
    assert!(body.stacktrace.is_none());
}
