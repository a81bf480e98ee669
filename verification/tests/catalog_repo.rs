use crud_core::catalog::errors::AppError;
use crud_core::catalog::product::{CreateProductDto, UpdateProductDto};
use crud_core::catalog::repo::ProductRepo;

fn laptop() -> CreateProductDto {
    CreateProductDto {
        name: "Laptop".to_string(),
        description: Some("A powerful laptop".to_string()),
        price_cents: 120000,
        image_url: Some("https://example.com/laptop.jpg".to_string()),
    }
}

fn mouse() -> CreateProductDto {
    CreateProductDto {
        name: "Mouse".to_string(),
        description: Some("A wireless mouse".to_string()),
        price_cents: 2500,
        image_url: None,
    }
}

#[test]
fn create_assigns_id_and_equal_stamps() {
    let mut repo = ProductRepo::new();
    let p = repo.create(&laptop(), 7, 1_000).unwrap();
    assert_eq!(p.id, 7);
    assert_eq!(p.name, "Laptop".to_string());
    assert_eq!(p.price_cents, 120000);
    assert_eq!(p.created_at, 1_000);
    assert_eq!(p.updated_at, 1_000);
}

#[test]
fn create_duplicate_id_is_store_failure() {
    let mut repo = ProductRepo::new();
    repo.create(&laptop(), 7, 1_000).unwrap();
    let second = repo.create(&mouse(), 7, 2_000);
    assert!(matches!(second, Err(AppError::InternalServerError)));
}

#[test]
fn get_by_id_after_create_roundtrips() {
    let mut repo = ProductRepo::new();
    let created = repo.create(&laptop(), 42, 5_000).unwrap();
    let fetched = repo.get_by_id(42).unwrap();
    assert_eq!(fetched, created);
}

#[test]
fn get_by_id_missing_is_not_found() {
    let repo = ProductRepo::new();
    let r = repo.get_by_id(9);
    assert_eq!(r, Err(AppError::NotFound("Product not found".to_string())));
}

#[test]
fn update_overwrites_only_given_fields() {
    let mut repo = ProductRepo::new();
    repo.create(&laptop(), 1, 100).unwrap();
    let patch = UpdateProductDto {
        name: None,
        description: None,
        price_cents: Some(99900),
        image_url: None,
    };
    let updated = repo.update(1, &patch, 200).unwrap();
    assert_eq!(updated.name, "Laptop".to_string());
    assert_eq!(updated.description, Some("A powerful laptop".to_string()));
    assert_eq!(updated.price_cents, 99900);
    assert_eq!(updated.created_at, 100);
    assert_eq!(updated.updated_at, 200);
}

#[test]
fn update_with_all_omitted_is_noop_except_stamp() {
    let mut repo = ProductRepo::new();
    let before = repo.create(&laptop(), 1, 100).unwrap();
    let patch = UpdateProductDto { name: None, description: None, price_cents: None, image_url: None };
    let after = repo.update(1, &patch, 250).unwrap();
    assert_eq!(after.id, before.id);
    assert_eq!(after.name, before.name);
    assert_eq!(after.description, before.description);
    assert_eq!(after.price_cents, before.price_cents);
    assert_eq!(after.image_url, before.image_url);
    assert_eq!(after.created_at, before.created_at);
    assert_eq!(after.updated_at, 250);
}

#[test]
fn update_missing_is_not_found() {
    let mut repo = ProductRepo::new();
    let patch = UpdateProductDto { name: None, description: None, price_cents: None, image_url: None };
    let r = repo.update(5, &patch, 10);
    assert_eq!(r, Err(AppError::NotFound("Product not found".to_string())));
}

#[test]
fn delete_then_get_is_not_found() {
    let mut repo = ProductRepo::new();
    repo.create(&laptop(), 3, 100).unwrap();
    assert!(repo.delete(3).is_ok());
    let r = repo.get_by_id(3);
    assert_eq!(r, Err(AppError::NotFound("Product not found".to_string())));
}

#[test]
fn delete_missing_is_not_found() {
    let mut repo = ProductRepo::new();
    let r = repo.delete(3);
    assert_eq!(r, Err(AppError::NotFound("Product not found".to_string())));
}
