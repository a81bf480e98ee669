use crud_core::catalog::controller::{
    create_product, delete_product, get_product, get_products, update_product,
};
use crud_core::catalog::errors::AppError;
use crud_core::catalog::pagination::Pagination;
use crud_core::catalog::product::{CreateProductDto, UpdateProductDto};
use crud_core::catalog::repo::ProductRepo;

#[test]
fn product_lifecycle() {
    let mut repo = ProductRepo::new();

    let created = create_product(
        &mut repo,
        &CreateProductDto {
            name: "Laptop".to_string(),
            description: None,
            price_cents: 120000,
            image_url: None,
        },
        77,
        1_000,
    )
    .unwrap();
    assert_eq!(created.id, 77);
    assert_eq!(created.created_at, created.updated_at);

    let listing = get_products(
        &repo,
        &Pagination { page: Some(1), per_page: Some(10) },
    )
    .unwrap();
    assert!(listing.total >= 1);
    assert!(listing.data.iter().any(|d| d.id == 77));

    let updated = update_product(
        &mut repo,
        77,
        &UpdateProductDto {
            name: None,
            description: None,
            price_cents: Some(99900),
            image_url: None,
        },
        2_000,
    )
    .unwrap();
    assert_eq!(updated.name, "Laptop".to_string());
    assert_eq!(updated.price_cents, 99900);
    assert!(updated.updated_at > updated.created_at);

    assert!(delete_product(&mut repo, 77).is_ok());

    let gone = get_product(&repo, 77);
    assert!(matches!(gone, Err(AppError::NotFound(_))));
    let (status, _) = gone.unwrap_err().response_parts();
    assert_eq!(status, 404);
}
