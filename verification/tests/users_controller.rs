use crud_core::users::controller::UserController;
use crud_core::users::errors::AppError;
use crud_core::users::pagination::Pagination;
use crud_core::users::repo::UserRepo;
use crud_core::users::user::{CreateUserDto, UpdateUserDto, User, UserIsActiveDto};
use crud_core::users::validate::{validate_create_user, ValidatedJson};

fn payload(username: &str, email: &str) -> CreateUserDto {
    CreateUserDto {
        username: username.to_string(),
        email: email.to_string(),
        role: "user".to_string(),
        password_hash: "hashed".to_string(),
    }
}

fn seeded_repo() -> (UserRepo, u128) {
    let mut repo = UserRepo::new();
    let dto = validate_create_user(payload("alfa_doe", "alfa_doe@gmail.com")).unwrap();
    let created = UserController::create_user(&mut repo, dto).unwrap();
    (repo, created.id)
}

#[test]
fn controller_create_sets_active_and_equal_stamps() {
    let mut repo = UserRepo::new();
    let dto = validate_create_user(payload("alfa_doe", "alfa_doe@gmail.com")).unwrap();
    let created = UserController::create_user(&mut repo, dto).unwrap();
    assert!(created.is_active);
    assert!(created.created_at.is_some());
    assert_eq!(created.created_at, created.updated_at);
    assert_eq!(created.username, "alfa_doe".to_string());
    assert_eq!(created.email, "alfa_doe@gmail.com".to_string());
    assert_eq!(created.role, "user".to_string());
}

#[test]
fn controller_get_after_create_roundtrips() {
    let (repo, id) = seeded_repo();
    let fetched = UserController::get_user_by_id(&repo, id).unwrap();
    assert_eq!(fetched.id, id);
    assert_eq!(fetched.username, "alfa_doe".to_string());
    assert_eq!(fetched.email, "alfa_doe@gmail.com".to_string());
}

#[test]
fn controller_get_missing_user_is_not_found() {
    let repo = UserRepo::new();
    let r = UserController::get_user_by_id(&repo, 12345);
    assert_eq!(r, Err(AppError::UserNotFound));
}

#[test]
fn controller_create_duplicate_email_fails() {
    let (mut repo, _) = seeded_repo();
    let dto = validate_create_user(payload("other_name", "alfa_doe@gmail.com")).unwrap();
    let r = UserController::create_user(&mut repo, dto);
    assert_eq!(r, Err(AppError::UserCouldNotBeCreated));
}

#[test]
fn dto_projection_ignores_password_hash() {
    let mut a = User {
        id: 9,
        username: "alfa".to_string(),
        email: "a@example.com".to_string(),
        password_hash: "secret-one".to_string(),
        role: "admin".to_string(),
        is_active: true,
        created_at: Some(1),
        updated_at: Some(2),
    };
    let dto_a = a.into_dto();
    a.password_hash = "entirely-different".to_string();
    let dto_b = a.into_dto();
    assert_eq!(dto_a, dto_b);
}

#[test]
fn listing_echoes_paging_and_counts_all_rows() {
    let mut repo = UserRepo::new();
    for i in 1..=4u128 {
        let dto = validate_create_user(payload(
            &format!("user{}", i),
            &format!("user{}@example.com", i),
        ))
        .unwrap();
        UserController::create_user(&mut repo, dto).unwrap();
    }
    let q = Pagination { username: None, page: None, limit: None, order_by: None };
    let resp = UserController::get_all_users(&repo, q).unwrap();
    assert_eq!(resp.page, 1);
    assert_eq!(resp.limit, 3);
    assert_eq!(resp.total, 4);
    assert_eq!(resp.order_by, "id".to_string());
    assert_eq!(resp.data.len(), 3);
}

#[test]
fn listing_filters_and_echoes_raw_order_by() {
    let mut repo = UserRepo::new();
    for name in ["alfa_doe", "beta_smith", "gamma_doe"] {
        let dto = validate_create_user(payload(name, &format!("{}@example.com", name))).unwrap();
        UserController::create_user(&mut repo, dto).unwrap();
    }
    let q = Pagination {
        username: Some("doe".to_string()),
        page: Some(1),
        limit: Some(10),
        order_by: Some("not-a-column".to_string()),
    };
    let resp = UserController::get_all_users(&repo, q).unwrap();
    assert_eq!(resp.order_by, "not-a-column".to_string());
    assert_eq!(resp.data.len(), 2);
    assert!(resp.data.iter().all(|d| d.username.contains("doe")));
    assert_eq!(resp.total, 3);
}

#[test]
fn listing_rejects_page_zero() {
    let repo = UserRepo::new();
    let q = Pagination { username: None, page: Some(0), limit: None, order_by: None };
    let r = UserController::get_all_users(&repo, q);
    assert!(matches!(r, Err(AppError::RequestPayloadNotValid(_))));
}

#[test]
fn listing_beyond_the_rows_is_empty() {
    let (repo, _) = seeded_repo();
    let q = Pagination { username: None, page: Some(50), limit: Some(10), order_by: None };
    let resp = UserController::get_all_users(&repo, q).unwrap();
    assert!(resp.data.is_empty());
    assert_eq!(resp.total, 1);
}

#[test]
fn controller_update_preserves_hash_and_creation() {
    let (mut repo, id) = seeded_repo();
    let before = UserController::get_user_by_id(&repo, id).unwrap();
    let patch = ValidatedJson(UpdateUserDto {
        id,
        username: "renamed".to_string(),
        email: "renamed@example.com".to_string(),
        role: "admin".to_string(),
        is_active: false,
        updated_at: None,
    });
    let updated = UserController::update_user(&mut repo, id, patch).unwrap();
    assert_eq!(updated.id, id);
    assert_eq!(updated.username, "renamed".to_string());
    assert_eq!(updated.email, "renamed@example.com".to_string());
    assert_eq!(updated.role, "admin".to_string());
    assert!(!updated.is_active);
    assert_eq!(updated.created_at, before.created_at);
}

#[test]
fn controller_update_missing_user_is_not_found() {
    let mut repo = UserRepo::new();
    let patch = ValidatedJson(UpdateUserDto {
        id: 1,
        username: "x".to_string(),
        email: "x@example.com".to_string(),
        role: "user".to_string(),
        is_active: true,
        updated_at: None,
    });
    let r = UserController::update_user(&mut repo, 1, patch);
    assert_eq!(r, Err(AppError::UserNotFound));
}

#[test]
fn controller_update_to_taken_email_fails() {
    let (mut repo, id) = seeded_repo();
    let dto = validate_create_user(payload("beta_smith", "beta_smith@gmail.com")).unwrap();
    UserController::create_user(&mut repo, dto).unwrap();
    let patch = ValidatedJson(UpdateUserDto {
        id,
        username: "alfa_doe".to_string(),
        email: "beta_smith@gmail.com".to_string(),
        role: "user".to_string(),
        is_active: true,
        updated_at: None,
    });
    let r = UserController::update_user(&mut repo, id, patch);
    assert_eq!(r, Err(AppError::UserCouldNotBeUpdated));
}

#[test]
fn controller_toggle_is_active() {
    let (mut repo, id) = seeded_repo();
    let toggled = UserController::update_user_is_active(
        &mut repo,
        id,
        UserIsActiveDto { is_active: false },
    )
    .unwrap();
    assert!(!toggled.is_active);
    assert_eq!(toggled.username, "alfa_doe".to_string());
    let missing = UserController::update_user_is_active(
        &mut repo,
        999,
        UserIsActiveDto { is_active: true },
    );
    assert_eq!(missing, Err(AppError::UserNotFound));
}

#[test]
fn controller_delete_then_get_is_not_found() {
    let (mut repo, id) = seeded_repo();
    let deleted = UserController::delete_user(&mut repo, id).unwrap();
    assert_eq!(deleted.id, id);
    assert_eq!(deleted.username, "alfa_doe".to_string());
    assert_eq!(deleted.email, "alfa_doe@gmail.com".to_string());
    let r = UserController::get_user_by_id(&repo, id);
    assert_eq!(r, Err(AppError::UserNotFound));
    let again = UserController::delete_user(&mut repo, id);
    assert_eq!(again, Err(AppError::UserNotFound));
}
