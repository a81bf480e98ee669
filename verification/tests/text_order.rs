use crud_core::text::{str_contains_sub, str_eq, str_lt};
use crud_core::users::pagination::{sort_column_of, SortColumn};

#[test]
fn string_equality_is_by_characters() {
    assert!(str_eq("id", "id"));
    assert!(!str_eq("id", "Id"));
    assert!(!str_eq("id", "ids"));
    assert!(str_eq("", ""));
}

#[test]
fn lexicographic_order_compares_code_points() {
    assert!(str_lt("alfa", "beta"));
    assert!(!str_lt("beta", "alfa"));
    assert!(!str_lt("alfa", "alfa"));
    assert!(str_lt("alfa", "alfazeta"));
    assert!(!str_lt("alfazeta", "alfa"));
    assert!(str_lt("Zeta", "alfa"));
}

#[test]
fn substring_search_matches_anywhere() {
    assert!(str_contains_sub("alfa_doe", "doe"));
    assert!(str_contains_sub("alfa_doe", "alfa"));
    assert!(str_contains_sub("alfa_doe", "a_d"));
    assert!(str_contains_sub("alfa_doe", ""));
    assert!(!str_contains_sub("alfa_doe", "smith"));
    assert!(!str_contains_sub("doe", "alfa_doe"));
}

#[test]
fn sort_column_allow_list_accepts_real_columns() {
    assert_eq!(sort_column_of("id"), SortColumn::Id);
    assert_eq!(sort_column_of("username"), SortColumn::Username);
    assert_eq!(sort_column_of("email"), SortColumn::Email);
    assert_eq!(sort_column_of("role"), SortColumn::Role);
    assert_eq!(sort_column_of("is_active"), SortColumn::IsActive);
    assert_eq!(sort_column_of("created_at"), SortColumn::CreatedAt);
    assert_eq!(sort_column_of("updated_at"), SortColumn::UpdatedAt);
}

#[test]
fn sort_column_fallback_never_errors() {
    assert_eq!(sort_column_of(""), SortColumn::Id);
    assert_eq!(sort_column_of("password_hash"), SortColumn::Id);
    assert_eq!(sort_column_of("id; DROP TABLE users"), SortColumn::Id);
    assert_eq!(sort_column_of("USERNAME"), SortColumn::Id);
}
