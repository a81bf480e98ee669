use vstd::arithmetic::div_mod::{lemma_basic_div, lemma_div_nonincreasing, lemma_div_plus_one};
use vstd::prelude::*;

verus! {

/// The raw page selector of a catalog listing request; unset fields take
/// service defaults (page 1, ten rows a page).
#[derive(Debug)]
pub struct Pagination {
    pub page: Option<i64>,
    pub per_page: Option<i64>,
}

/// One page of results together with the paging arithmetic the service
/// promises: `total` counts every row regardless of paging, and
/// `total_pages` is `total / per_page` rounded up.
#[derive(Debug, PartialEq)]
pub struct PaginatedResponse<T> {
    pub page: i64,
    pub per_page: i64,
    pub total: i64,
    pub total_pages: i64,
    pub data: Vec<T>,
}

/// The requested page, defaulting to the first.
pub open spec fn page_or_default(p: Option<i64>) -> i64 {
    match p {
        Some(v) => v,
        None => 1,
    }
}

/// The requested page size, defaulting to ten rows.
pub open spec fn per_page_or_default(p: Option<i64>) -> i64 {
    match p {
        Some(v) => v,
        None => 10,
    }
}

/// The number of pages needed for `total` rows at `per_page` rows a page:
/// the quotient rounded up, and 0 for an empty table.
pub open spec fn ceil_div(total: int, per_page: int) -> int
    recommends
        per_page >= 1,
{
    (total + per_page - 1) / per_page
}

/// The page count, computed without the ceiling ever dividing by zero or
/// overflowing.
pub fn total_pages_of(total: i64, per_page: i64) -> (r: i64)
    requires
        0 <= total,
        1 <= per_page,
    ensures
        r == ceil_div(total as int, per_page as int),
{
    if total == 0 {
        proof {
            lemma_basic_div(per_page - 1, per_page as int);
        }
        0
    } else {
        proof {
            lemma_div_nonincreasing(total - 1, per_page as int);
            lemma_div_plus_one(total - 1, per_page as int);
        }
        (total - 1) / per_page + 1
    }
}

/// An empty table needs no pages at all.
pub proof fn lemma_zero_rows_zero_pages(per_page: int)
    requires
        per_page >= 1,
    ensures
        ceil_div(0, per_page) == 0,
{
    lemma_basic_div(per_page - 1, per_page);
}

} // verus!
