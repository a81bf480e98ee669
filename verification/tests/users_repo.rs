use crud_core::users::repo::{StoreError, UserRepo};
use crud_core::users::user::User;

fn user(id: u128, username: &str, email: &str) -> User {
    User {
        id,
        username: username.to_string(),
        email: email.to_string(),
        password_hash: format!("hash-{}", id),
        role: "user".to_string(),
        is_active: true,
        created_at: Some(100),
        updated_at: Some(100),
    }
}

#[test]
fn create_returns_the_row_as_stored() {
    let mut repo = UserRepo::new();
    let created = repo.create(user(1, "alfa_doe", "alfa_doe@gmail.com")).unwrap();
    assert_eq!(created, user(1, "alfa_doe", "alfa_doe@gmail.com"));
}

#[test]
fn create_rejects_duplicate_id() {
    let mut repo = UserRepo::new();
    repo.create(user(1, "alfa", "a@example.com")).unwrap();
    let r = repo.create(user(1, "beta", "b@example.com"));
    assert_eq!(r, Err(StoreError::UniqueViolation));
}

#[test]
fn create_rejects_duplicate_email() {
    let mut repo = UserRepo::new();
    repo.create(user(1, "alfa", "same@example.com")).unwrap();
    let r = repo.create(user(2, "beta", "same@example.com"));
    assert_eq!(r, Err(StoreError::UniqueViolation));
}

#[test]
fn read_finds_by_id_and_misses_cleanly() {
    let mut repo = UserRepo::new();
    repo.create(user(5, "alfa", "a@example.com")).unwrap();
    assert_eq!(repo.read(5).unwrap(), Some(user(5, "alfa", "a@example.com")));
    assert_eq!(repo.read(6).unwrap(), None);
}

#[test]
fn count_total_counts_every_row() {
    let mut repo = UserRepo::new();
    assert_eq!(repo.count_total().unwrap(), 0);
    repo.create(user(1, "alfa", "a@example.com")).unwrap();
    repo.create(user(2, "beta", "b@example.com")).unwrap();
    assert_eq!(repo.count_total().unwrap(), 2);
}

#[test]
fn read_all_orders_by_username() {
    let mut repo = UserRepo::new();
    repo.create(user(1, "charlie", "c@example.com")).unwrap();
    repo.create(user(2, "alfa", "a@example.com")).unwrap();
    repo.create(user(3, "beta", "b@example.com")).unwrap();
    let rows = repo.read_all(None, 10, 0, "username").unwrap();
    let names: Vec<String> = rows.iter().map(|u| u.username.clone()).collect();
    assert_eq!(names, vec!["alfa".to_string(), "beta".to_string(), "charlie".to_string()]);
}

#[test]
fn read_all_unknown_column_falls_back_to_id() {
    let mut repo = UserRepo::new();
    repo.create(user(3, "charlie", "c@example.com")).unwrap();
    repo.create(user(1, "alfa", "a@example.com")).unwrap();
    repo.create(user(2, "beta", "b@example.com")).unwrap();
    let rows = repo.read_all(None, 10, 0, "no-such-column").unwrap();
    let ids: Vec<u128> = rows.iter().map(|u| u.id).collect();
    assert_eq!(ids, vec![1, 2, 3]);
}

#[test]
fn read_all_equal_keys_keep_insertion_order() {
    let mut repo = UserRepo::new();
    repo.create(user(10, "same", "a@example.com")).unwrap();
    repo.create(user(20, "same", "b@example.com")).unwrap();
    repo.create(user(30, "same", "c@example.com")).unwrap();
    let rows = repo.read_all(None, 10, 0, "username").unwrap();
    let ids: Vec<u128> = rows.iter().map(|u| u.id).collect();
    assert_eq!(ids, vec![10, 20, 30]);
}

#[test]
fn read_all_filters_by_username_substring() {
    let mut repo = UserRepo::new();
    repo.create(user(1, "alfa_doe", "a@example.com")).unwrap();
    repo.create(user(2, "beta_smith", "b@example.com")).unwrap();
    repo.create(user(3, "gamma_doe", "c@example.com")).unwrap();
    let rows = repo.read_all(Some("doe".to_string()), 10, 0, "id").unwrap();
    let ids: Vec<u128> = rows.iter().map(|u| u.id).collect();
    assert_eq!(ids, vec![1, 3]);
    let none = repo.read_all(Some("zzz".to_string()), 10, 0, "id").unwrap();
    assert!(none.is_empty());
}

#[test]
fn read_all_windows_by_offset_and_limit() {
    let mut repo = UserRepo::new();
    for i in 1..=5u128 {
        repo.create(user(i, &format!("u{}", i), &format!("u{}@example.com", i))).unwrap();
    }
    let rows = repo.read_all(None, 2, 2, "id").unwrap();
    let ids: Vec<u128> = rows.iter().map(|u| u.id).collect();
    assert_eq!(ids, vec![3, 4]);
    let beyond = repo.read_all(None, 2, 50, "id").unwrap();
    assert!(beyond.is_empty());
}

#[test]
fn update_preserves_hash_and_creation_stamp() {
    let mut repo = UserRepo::new();
    repo.create(user(1, "alfa", "a@example.com")).unwrap();
    let mut patch = user(999, "alfa2", "a2@example.com");
    patch.role = "admin".to_string();
    patch.is_active = false;
    patch.updated_at = Some(500);
    let updated = repo.update(1, patch).unwrap();
    assert_eq!(updated.id, 1);
    assert_eq!(updated.username, "alfa2".to_string());
    assert_eq!(updated.email, "a2@example.com".to_string());
    assert_eq!(updated.role, "admin".to_string());
    assert!(!updated.is_active);
    assert_eq!(updated.password_hash, "hash-1".to_string());
    assert_eq!(updated.created_at, Some(100));
    assert_eq!(updated.updated_at, Some(500));
}

#[test]
fn update_missing_row_is_not_found() {
    let mut repo = UserRepo::new();
    let r = repo.update(1, user(1, "alfa", "a@example.com"));
    assert_eq!(r, Err(StoreError::RowNotFound));
}

#[test]
fn update_to_anothers_email_is_rejected() {
    let mut repo = UserRepo::new();
    repo.create(user(1, "alfa", "a@example.com")).unwrap();
    repo.create(user(2, "beta", "b@example.com")).unwrap();
    let mut patch = user(2, "beta", "a@example.com");
    patch.updated_at = Some(200);
    let r = repo.update(2, patch);
    assert_eq!(r, Err(StoreError::UniqueViolation));
}

#[test]
fn update_keeping_own_email_is_fine() {
    let mut repo = UserRepo::new();
    repo.create(user(1, "alfa", "a@example.com")).unwrap();
    let mut patch = user(1, "renamed", "a@example.com");
    patch.updated_at = Some(200);
    let updated = repo.update(1, patch).unwrap();
    assert_eq!(updated.username, "renamed".to_string());
    assert_eq!(updated.email, "a@example.com".to_string());
}

#[test]
fn update_is_active_touches_only_flag_and_stamp() {
    let mut repo = UserRepo::new();
    repo.create(user(1, "alfa", "a@example.com")).unwrap();
    let updated = repo.update_is_active(1, false, 900).unwrap();
    assert!(!updated.is_active);
    assert_eq!(updated.updated_at, Some(900));
    assert_eq!(updated.username, "alfa".to_string());
    assert_eq!(updated.email, "a@example.com".to_string());
    assert_eq!(updated.password_hash, "hash-1".to_string());
    assert_eq!(updated.created_at, Some(100));
}

#[test]
fn delete_returns_the_row_and_forgets_it() {
    let mut repo = UserRepo::new();
    repo.create(user(1, "alfa", "a@example.com")).unwrap();
    let removed = repo.delete(1).unwrap();
    assert_eq!(removed.id, 1);
    assert_eq!(repo.read(1).unwrap(), None);
    assert_eq!(repo.delete(1), Err(StoreError::RowNotFound));
}
