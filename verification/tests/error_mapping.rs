use crud_core::catalog::errors::AppError as CatalogError;
use crud_core::users::errors::AppError as UserError;

#[test]
fn catalog_errors_map_to_their_statuses() {
    let (status, msg) = CatalogError::InternalServerError.response_parts();
    assert_eq!(status, 500);
    assert_eq!(msg, "Internal Server Error".to_string());

    let (status, msg) = CatalogError::NotFound("Product not found".to_string()).response_parts();
    assert_eq!(status, 404);
    assert_eq!(msg, "Product not found".to_string());

    let (status, msg) = CatalogError::Invalid("bad paging".to_string()).response_parts();
    assert_eq!(status, 400);
    assert_eq!(msg, "bad paging".to_string());
}

#[test]
fn user_errors_map_to_their_statuses_and_codes() {
    let (status, body) = UserError::UserNotFound.response_parts();
    assert_eq!(status, 404);
    assert_eq!(body.code, "UserNotFound".to_string());
    assert_eq!(body.cause, "User not found".to_string());

    let (status, body) = UserError::NoUsersFound.response_parts();
    assert_eq!(status, 500);
    assert_eq!(body.code, "NoUsersFound".to_string());
    assert_eq!(body.cause, "No users found in database".to_string());

    let (status, body) = UserError::UserCouldNotBeCreated.response_parts();
    assert_eq!(status, 500);
    assert_eq!(body.code, "UserCouldNotBeCreated".to_string());
    assert_eq!(body.cause, "User could not be created".to_string());

    let (status, body) = UserError::UserCouldNotBeUpdated.response_parts();
    assert_eq!(status, 500);
    assert_eq!(body.code, "UserCouldNotBeUpdated".to_string());
    assert_eq!(body.cause, "User could not be updated".to_string());

    let (status, body) = UserError::UserCouldNotBeDeleted.response_parts();
    assert_eq!(status, 500);
    assert_eq!(body.code, "UserCouldNotBeDeleted".to_string());
    assert_eq!(body.cause, "User could not be deleted".to_string());

    let (status, body) = UserError::RequestPayloadNotValid("why".to_string()).response_parts();
    assert_eq!(status, 422);
    assert_eq!(body.code, "RequestPayloadNotValidUnprocessableEntity".to_string());
    assert_eq!(body.cause, "why".to_string());

    let (status, body) = UserError::DatabaseConnectionFailure.response_parts();
    assert_eq!(status, 500);
    assert_eq!(body.code, "DatabaseConnectionFailure".to_string());
    assert_eq!(body.cause, "Could not connect to database".to_string());
}

#[test]
fn user_error_default_and_description() {
    let e = UserError::default();
    assert_eq!(e, UserError::DatabaseConnectionFailure);
    assert_eq!(e.description(), "something went wrong".to_string());
}
