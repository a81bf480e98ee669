use crud_core::catalog::errors::AppError;
use crud_core::catalog::pagination::{total_pages_of, Pagination};
use crud_core::catalog::product::CreateProductDto;
use crud_core::catalog::repo::ProductRepo;

fn dto(name: &str, cents: u64) -> CreateProductDto {
    CreateProductDto {
        name: name.to_string(),
        description: None,
        price_cents: cents,
        image_url: None,
    }
}

fn seeded(stamps: &[i64]) -> ProductRepo {
    let mut repo = ProductRepo::new();
    for (i, t) in stamps.iter().enumerate() {
        let id = (i + 1) as u128;
        repo.create(&dto(&format!("p{}", id), 100), id, *t).unwrap();
    }
    repo
}

#[test]
fn total_pages_is_the_ceiling() {
    assert_eq!(total_pages_of(0, 1), 0);
    assert_eq!(total_pages_of(0, 10), 0);
    assert_eq!(total_pages_of(1, 10), 1);
    assert_eq!(total_pages_of(5, 2), 3);
    assert_eq!(total_pages_of(10, 10), 1);
    assert_eq!(total_pages_of(11, 10), 2);
}

#[test]
fn list_reports_total_and_total_pages() {
    let repo = seeded(&[10, 20, 30, 40, 50]);
    let page = Pagination { page: Some(1), per_page: Some(2) };
    let resp = repo.get_all(&page).unwrap();
    assert_eq!(resp.page, 1);
    assert_eq!(resp.per_page, 2);
    assert_eq!(resp.total, 5);
    assert_eq!(resp.total_pages, 3);
    assert_eq!(resp.data.len(), 2);
}

#[test]
fn list_orders_newest_first() {
    let repo = seeded(&[10, 30, 20]);
    let page = Pagination { page: None, per_page: None };
    let resp = repo.get_all(&page).unwrap();
    let ids: Vec<u128> = resp.data.iter().map(|p| p.id).collect();
    assert_eq!(ids, vec![2, 3, 1]);
}

#[test]
fn list_keeps_insertion_order_on_equal_stamps() {
    let repo = seeded(&[10, 10, 10]);
    let page = Pagination { page: None, per_page: None };
    let resp = repo.get_all(&page).unwrap();
    let ids: Vec<u128> = resp.data.iter().map(|p| p.id).collect();
    assert_eq!(ids, vec![1, 2, 3]);
}

#[test]
fn list_second_window_holds_the_middle_rows() {
    let repo = seeded(&[50, 40, 30, 20, 10]);
    let page = Pagination { page: Some(2), per_page: Some(2) };
    let resp = repo.get_all(&page).unwrap();
    let ids: Vec<u128> = resp.data.iter().map(|p| p.id).collect();
    assert_eq!(ids, vec![3, 4]);
}

#[test]
fn list_beyond_last_page_is_empty_not_an_error() {
    let repo = seeded(&[10, 20, 30]);
    let page = Pagination { page: Some(99), per_page: Some(10) };
    let resp = repo.get_all(&page).unwrap();
    assert_eq!(resp.total, 3);
    assert_eq!(resp.total_pages, 1);
    assert!(resp.data.is_empty());
}

#[test]
fn list_defaults_to_first_page_of_ten() {
    let repo = seeded(&[1, 2, 3, 4, 5, 6, 7, 8, 9, 10, 11, 12]);
    let page = Pagination { page: None, per_page: None };
    let resp = repo.get_all(&page).unwrap();
    assert_eq!(resp.page, 1);
    assert_eq!(resp.per_page, 10);
    assert_eq!(resp.data.len(), 10);
    assert_eq!(resp.total, 12);
    assert_eq!(resp.total_pages, 2);
}

#[test]
fn list_rejects_non_positive_paging() {
    let repo = seeded(&[10]);
    let zero_page = Pagination { page: Some(0), per_page: Some(5) };
    assert!(matches!(repo.get_all(&zero_page), Err(AppError::Invalid(_))));
    let zero_per_page = Pagination { page: Some(1), per_page: Some(0) };
    assert!(matches!(repo.get_all(&zero_per_page), Err(AppError::Invalid(_))));
    let negative = Pagination { page: Some(-2), per_page: None };
    assert!(matches!(repo.get_all(&negative), Err(AppError::Invalid(_))));
}

#[test]
fn empty_table_lists_as_zero_pages() {
    let repo = ProductRepo::new();
    let page = Pagination { page: None, per_page: None };
    let resp = repo.get_all(&page).unwrap();
    assert_eq!(resp.total, 0);
    assert_eq!(resp.total_pages, 0);
    assert!(resp.data.is_empty());
}
