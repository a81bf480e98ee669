use crate::text::str_eq;
use vstd::prelude::*;

verus! {

/// The raw query parameters of a directory listing request: an optional
/// username filter, one-based page, page size, and a sort column name.
#[derive(Debug)]
pub struct Pagination {
    pub username: Option<String>,
    pub page: Option<u32>,
    pub limit: Option<u32>,
    pub order_by: Option<String>,
}

/// One page of directory results; `total` counts every row regardless of
/// paging, and `order_by` echoes the requested column name.
#[derive(Debug)]
pub struct PaginatedResponse<T> {
    pub data: Vec<T>,
    pub page: u32,
    pub limit: u32,
    pub total: u64,
    pub order_by: String,
}

/// The columns a listing may be ordered by: the allow-list of real,
/// indexable columns.
#[derive(Clone, Copy, Debug, PartialEq, Eq, Structural)]
pub enum SortColumn {
    Id,
    Username,
    Email,
    Role,
    IsActive,
    CreatedAt,
    UpdatedAt,
}

/// The requested page, defaulting to the first.
pub open spec fn page_or_default(p: Option<u32>) -> u32 {
    match p {
        Some(v) => v,
        None => 1,
    }
}

/// The requested page size, defaulting to three rows.
pub open spec fn limit_or_default(p: Option<u32>) -> u32 {
    match p {
        Some(v) => v,
        None => 3,
    }
}

/// The effective username filter: an unset or empty parameter filters
/// nothing.
pub open spec fn filter_of(username: Option<Seq<char>>) -> Option<Seq<char>> {
    match username {
        None => None,
        Some(s) => if s.len() == 0 {
            None
        } else {
            Some(s)
        },
    }
}

/// The requested sort column name, defaulting to the identifier column.
pub open spec fn order_by_or_default(o: Option<Seq<char>>) -> Seq<char> {
    match o {
        Some(s) => s,
        None => "id"@,
    }
}

/// The column a raw `order_by` value selects: an allow-listed name maps to
/// its column, anything else falls back to the identifier column. The
/// fallback is a deliberate fail-safe, never an error.
pub open spec fn sort_column_spec(s: Seq<char>) -> SortColumn {
    if s == "id"@ {
        SortColumn::Id
    } else if s == "username"@ {
        SortColumn::Username
    } else if s == "email"@ {
        SortColumn::Email
    } else if s == "role"@ {
        SortColumn::Role
    } else if s == "is_active"@ {
        SortColumn::IsActive
    } else if s == "created_at"@ {
        SortColumn::CreatedAt
    } else if s == "updated_at"@ {
        SortColumn::UpdatedAt
    } else {
        SortColumn::Id
    }
}

/// Validate an untrusted sort-column name against the allow-list. Every
/// input yields a usable column; an unrecognized name silently yields the
/// default.
pub fn sort_column_of(order_by: &str) -> (r: SortColumn)
    ensures
        r == sort_column_spec(order_by@),
{
    if str_eq(order_by, "id") {
        SortColumn::Id
    } else if str_eq(order_by, "username") {
        SortColumn::Username
    } else if str_eq(order_by, "email") {
        SortColumn::Email
    } else if str_eq(order_by, "role") {
        SortColumn::Role
    } else if str_eq(order_by, "is_active") {
        SortColumn::IsActive
    } else if str_eq(order_by, "created_at") {
        SortColumn::CreatedAt
    } else if str_eq(order_by, "updated_at") {
        SortColumn::UpdatedAt
    } else {
        SortColumn::Id
    }
}

} // verus!
