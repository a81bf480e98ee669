use crate::catalog::errors::AppError;
use crate::catalog::pagination::{
    ceil_div, page_or_default, per_page_or_default, PaginatedResponse, Pagination, total_pages_of,
};
use crate::catalog::product::{
    apply_update, CreateProductDto, CreateProductView, Product, product_from_create, ProductView,
    UpdateProductDto,
};
use crate::order::{insert_sorted, lemma_insert_sorted_position, lemma_sort_by_lt_len, sort_by_lt};
use crate::table::{
    contains_key, find_by_key, idx_of_key, lemma_key_index_props, lemma_push_keeps_unique,
    lemma_push_then_find, lemma_remove_unique_key, unique_keys,
};
use crate::text::clone_opt_string;
use vstd::arithmetic::div_mod::{lemma_fundamental_div_mod, lemma_mod_bound};
use vstd::arithmetic::mul::lemma_mul_inequality;
use vstd::prelude::*;
use vstd::string::StringExecFns;

verus! {

/// The most rows the catalog table holds; row counts are reported as the
/// store's signed 64-bit counts, so this is that type's upper bound.
pub const MAX_CATALOG_ROWS: u64 = 0x7fff_ffff_ffff_ffff;

/// The key a product row is identified by.
pub open spec fn prod_key() -> spec_fn(ProductView) -> u128 {
    |p: ProductView| p.id
}

/// The mathematical values of a sequence of product rows.
pub open spec fn product_views(s: Seq<Product>) -> Seq<ProductView> {
    s.map_values(|p: Product| p@)
}

/// The catalog listing order: newest creation stamp first, insertion order
/// breaking ties.
pub open spec fn prod_lt_fn() -> spec_fn(ProductView, ProductView) -> bool {
    |a: ProductView, b: ProductView| a.created_at > b.created_at
}

/// The page of rows a listing request selects: all rows sorted newest
/// first, then the window `[(page-1)*per_page, +per_page)`, clipped to the
/// table.
pub open spec fn catalog_page(rows: Seq<ProductView>, page: int, per_page: int) -> Seq<
    ProductView,
>
    recommends
        1 <= page,
        1 <= per_page,
{
    let sorted = sort_by_lt(prod_lt_fn(), rows);
    let off = (page - 1) * per_page;
    let start = if off > sorted.len() {
        sorted.len() as int
    } else {
        off
    };
    let end = if off + per_page > sorted.len() {
        sorted.len() as int
    } else {
        off + per_page
    };
    sorted.subrange(start, end)
}

/// The repository owning the product table: every read and write of
/// catalog rows goes through it.
pub struct ProductRepo {
    rows: Vec<Product>,
}

impl View for ProductRepo {
    type V = Seq<ProductView>;

    closed spec fn view(&self) -> Seq<ProductView> {
        product_views(self.rows@)
    }
}

impl ProductRepo {
    /// Identifiers are unique, as the store's primary key enforces, and the
    /// row count stays reportable as a signed 64-bit value.
    pub open spec fn wf(&self) -> bool {
        unique_keys(self@, prod_key()) && self@.len() <= MAX_CATALOG_ROWS
    }

    /// An empty table.
    pub fn new() -> (r: ProductRepo)
        ensures
            r.wf(),
            r@ == Seq::<ProductView>::empty(),
    {
        let r = ProductRepo { rows: Vec::new() };
        proof {
            assert(r@ =~= Seq::<ProductView>::empty());
        }
        r
    }

    /// The index of the row carrying `id`, or the row count when no row
    /// does.
    fn index_of(&self, id: u128) -> (r: usize)
        ensures
            r as int == idx_of_key(self@, prod_key(), id),
            r <= self@.len(),
    {
        let n = self.rows.len();
        let mut i: usize = 0;
        while i < n
            invariant
                n == self.rows.len(),
                i <= n,
                forall|j: int| 0 <= j < i ==> #[trigger] self@[j].id != id,
            decreases n - i,
        {
            if self.rows[i].id == id {
                proof {
                    lemma_key_index_props(self@, prod_key(), id);
                    assert(self@[i as int] == self.rows@[i as int]@);
                    assert(contains_key(self@, prod_key(), id));
                    let w = idx_of_key(self@, prod_key(), id);
                    assert(self@[w].id == id);
                    assert(w >= i);
                    assert(w <= i);
                }
                return i;
            }
            i += 1;
        }
        proof {
            lemma_key_index_props(self@, prod_key(), id);
            if contains_key(self@, prod_key(), id) {
                let w = choose|j: int| 0 <= j < self@.len() && prod_key()(self@[j]) == id;
                assert(self@[w].id != id);
            }
        }
        n
    }

    /// Insert a new row built from the client's payload, under the
    /// identifier and creation instant the store assigned. The insert is
    /// refused exactly when the identifier is already taken or the table is
    /// full; the store reports either as a persistence failure.
    pub fn create(&mut self, data: &CreateProductDto, id: u128, now: i64) -> (r: Result<
        Product,
        AppError,
    >)
        requires
            old(self).wf(),
        ensures
            final(self).wf(),
            r is Ok <==> !contains_key(old(self)@, prod_key(), id) && old(self)@.len()
                < MAX_CATALOG_ROWS,
            r matches Ok(p) ==> p@ == product_from_create(data@, id, now) && final(self)@ == old(
                self,
            )@.push(p@) && contains_key(final(self)@, prod_key(), id) && find_by_key(
                final(self)@,
                prod_key(),
                id,
            ) == Some(p@),
            r is Err ==> final(self)@ == old(self)@,
            r matches Err(e) ==> e is InternalServerError,
    {
        if self.rows.len() as u64 >= MAX_CATALOG_ROWS {
            return Err(AppError::InternalServerError);
        }
        let idx = self.index_of(id);
        proof {
            lemma_key_index_props(self@, prod_key(), id);
        }
        if idx < self.rows.len() {
            return Err(AppError::InternalServerError);
        }
        let row = Product {
            id: id,
            name: data.name.clone(),
            description: clone_opt_string(&data.description),
            price_cents: data.price_cents,
            image_url: clone_opt_string(&data.image_url),
            created_at: now,
            updated_at: now,
        };
        let out = row.clone();
        proof {
            assert(product_views(self.rows@.push(row)) =~= self@.push(row@));
            lemma_push_keeps_unique(self@, prod_key(), row@);
            lemma_push_then_find(self@, prod_key(), row@);
        }
        self.rows.push(row);
        Ok(out)
    }

    /// The row carrying `id`, or the service's not-found error.
    pub fn get_by_id(&self, id: u128) -> (r: Result<Product, AppError>)
        ensures
            contains_key(self@, prod_key(), id) ==> (r matches Ok(p) && find_by_key(
                self@,
                prod_key(),
                id,
            ) == Some(p@)),
            !contains_key(self@, prod_key(), id) ==> (r matches Err(e) && e matches
                AppError::NotFound(m) && m@ == "Product not found"@),
    {
        let idx = self.index_of(id);
        proof {
            lemma_key_index_props(self@, prod_key(), id);
        }
        if idx < self.rows.len() {
            Ok(self.rows[idx].clone())
        } else {
            Err(AppError::NotFound(String::from_str("Product not found")))
        }
    }

    /// Overwrite the fields the partial payload sets, keep the rest, and
    /// refresh the update stamp; the identifier and the creation stamp
    /// never change. Fails exactly when no row carries `id`.
    pub fn update(&mut self, id: u128, data: &UpdateProductDto, now: i64) -> (r: Result<
        Product,
        AppError,
    >)
        requires
            old(self).wf(),
        ensures
            final(self).wf(),
            !contains_key(old(self)@, prod_key(), id) ==> (r matches Err(e) && e matches
                AppError::NotFound(m) && m@ == "Product not found"@ && final(self)@ == old(self)@),
            contains_key(old(self)@, prod_key(), id) ==> (r matches Ok(p) && ({
                let i = idx_of_key(old(self)@, prod_key(), id);
                p@ == apply_update(old(self)@[i], data@, now) && final(self)@ == old(
                    self,
                )@.update(i, p@)
            })),
    {
        let idx = self.index_of(id);
        proof {
            lemma_key_index_props(self@, prod_key(), id);
        }
        if idx >= self.rows.len() {
            return Err(AppError::NotFound(String::from_str("Product not found")));
        }
        let ghost old_views = self@;
        let removed = self.rows.remove(idx);
        let merged = Product {
            id: removed.id,
            name: match &data.name {
                Some(n) => n.clone(),
                None => removed.name,
            },
            description: match &data.description {
                Some(n) => Some(n.clone()),
                None => removed.description,
            },
            price_cents: match data.price_cents {
                Some(v) => v,
                None => removed.price_cents,
            },
            image_url: match &data.image_url {
                Some(n) => Some(n.clone()),
                None => removed.image_url,
            },
            created_at: removed.created_at,
            updated_at: now,
        };
        let out = merged.clone();
        proof {
            assert(merged@ == apply_update(old_views[idx as int], data@, now));
            assert(product_views(self.rows@.insert(idx as int, merged)) =~= old_views.update(
                idx as int,
                merged@,
            ));
            assert forall|a: int, b: int|
                0 <= a < b < old_views.update(idx as int, merged@).len() implies old_views.update(
                idx as int,
                merged@,
            )[a].id != old_views.update(idx as int, merged@)[b].id by {
                assert(old_views.update(idx as int, merged@)[a].id == old_views[a].id);
                assert(old_views.update(idx as int, merged@)[b].id == old_views[b].id);
            }
        }
        self.rows.insert(idx, merged);
        Ok(out)
    }

    /// Remove the row carrying `id`; afterwards the identifier is gone from
    /// the table. Fails exactly when no row carried it.
    pub fn delete(&mut self, id: u128) -> (r: Result<(), AppError>)
        requires
            old(self).wf(),
        ensures
            final(self).wf(),
            !contains_key(old(self)@, prod_key(), id) ==> (r matches Err(e) && e matches
                AppError::NotFound(m) && m@ == "Product not found"@ && final(self)@ == old(self)@),
            contains_key(old(self)@, prod_key(), id) ==> r is Ok && final(self)@ == old(
                self,
            )@.remove(idx_of_key(old(self)@, prod_key(), id)) && !contains_key(
                final(self)@,
                prod_key(),
                id,
            ),
    {
        let idx = self.index_of(id);
        proof {
            lemma_key_index_props(self@, prod_key(), id);
        }
        if idx >= self.rows.len() {
            return Err(AppError::NotFound(String::from_str("Product not found")));
        }
        proof {
            lemma_remove_unique_key(self@, prod_key(), id);
            assert(product_views(self.rows@.remove(idx as int)) =~= self@.remove(idx as int));
        }
        let _ = self.rows.remove(idx);
        Ok(())
    }

    /// One page of the catalog, sorted newest first, together with the
    /// total row count and the page arithmetic. Fails exactly when the
    /// requested page or page size is below one, or the window's offset is
    /// not representable.
    pub fn get_all(&self, pagination: &Pagination) -> (r: Result<
        PaginatedResponse<Product>,
        AppError,
    >)
        requires
            self.wf(),
        ensures
            ({
                let page = page_or_default(pagination.page);
                let per_page = per_page_or_default(pagination.per_page);
                &&& (page < 1 || per_page < 1) ==> (r matches Err(e) && e matches AppError::Invalid(
                    m,
                ) && m@ == "page and per_page must be at least 1"@)
                &&& (page >= 1 && per_page >= 1 && (page - 1) * per_page > MAX_CATALOG_ROWS) ==> (
                r matches Err(e) && e matches AppError::Invalid(m) && m@
                    == "page is out of range"@)
                &&& (page >= 1 && per_page >= 1 && (page - 1) * per_page <= MAX_CATALOG_ROWS) ==> (
                r matches Ok(resp) && resp.page == page && resp.per_page == per_page
                    && resp.total as int == self@.len() as int && resp.total_pages as int
                    == ceil_div(self@.len() as int, per_page as int) && product_views(resp.data@)
                    == catalog_page(self@, page as int, per_page as int))
            }),
    {
        let page = pagination.page.unwrap_or(1);
        let per_page = pagination.per_page.unwrap_or(10);
        if page < 1 || per_page < 1 {
            return Err(AppError::Invalid(String::from_str("page and per_page must be at least 1")));
        }
        let off = match (page - 1).checked_mul(per_page) {
            Some(o) => o,
            None => {
                return Err(AppError::Invalid(String::from_str("page is out of range")));
            },
        };
        let n = self.rows.len();

        let mut sorted: Vec<Product> = Vec::new();
        proof {
            assert(self.rows@.take(0) =~= Seq::<Product>::empty());
            assert(product_views(self.rows@.take(0)) =~= Seq::<ProductView>::empty());
        }
        let mut i: usize = 0;
        while i < n
            invariant
                n == self.rows.len(),
                i <= n,
                sorted@.len() == i,
                product_views(sorted@) == sort_by_lt(
                    prod_lt_fn(),
                    product_views(self.rows@.take(i as int)),
                ),
            decreases n - i,
        {
            let p = self.rows[i].clone();
            let mut k: usize = 0;
            while k < sorted.len() && !(p.created_at > sorted[k].created_at)
                invariant
                    n == self.rows.len(),
                    i < n,
                    k <= sorted.len(),
                    p@ == self.rows@[i as int]@,
                    forall|m: int|
                        0 <= m < k ==> !(p@.created_at > #[trigger] sorted@[m]@.created_at),
                decreases sorted.len() - k,
            {
                k += 1;
            }
            proof {
                let svs = product_views(sorted@);
                assert(forall|m: int| 0 <= m < k ==> svs[m] == sorted@[m]@);
                assert(forall|m: int| 0 <= m < k ==> !prod_lt_fn()(p@, #[trigger] svs[m]));
                if (k as int) < svs.len() {
                    assert(svs[k as int] == sorted@[k as int]@);
                    assert(prod_lt_fn()(p@, svs[k as int]));
                }
                lemma_insert_sorted_position(prod_lt_fn(), p@, svs, k as int);
                assert(product_views(sorted@.insert(k as int, p)) =~= svs.insert(k as int, p@));
                let grown = product_views(self.rows@.take(i + 1));
                assert(grown.drop_last() =~= product_views(self.rows@.take(i as int)));
                assert(grown.last() == p@);
                assert(sort_by_lt(prod_lt_fn(), grown) == insert_sorted(
                    prod_lt_fn(),
                    p@,
                    sort_by_lt(prod_lt_fn(), product_views(self.rows@.take(i as int))),
                ));
            }
            sorted.insert(k, p);
            i += 1;
        }
        proof {
            assert(self.rows@.take(n as int) =~= self.rows@);
        }

        let total = n as i64;
        let total_pages = total_pages_of(total, per_page);
        let start: usize = if off >= total {
            n
        } else {
            off as usize
        };
        let remaining = n - start;
        let take_count: usize = if per_page > remaining as i64 {
            remaining
        } else {
            per_page as usize
        };
        let mut data: Vec<Product> = Vec::new();
        proof {
            assert(product_views(data@) =~= product_views(sorted@).subrange(
                start as int,
                start as int,
            ));
        }
        let mut j: usize = 0;
        while j < take_count
            invariant
                j <= take_count,
                sorted@.len() == n,
                start + take_count <= n,
                data@.len() == j,
                product_views(data@) == product_views(sorted@).subrange(
                    start as int,
                    start as int + j,
                ),
            decreases take_count - j,
        {
            data.push(sorted[start + j].clone());
            proof {
                assert(product_views(data@) =~= product_views(sorted@).subrange(
                    start as int,
                    start as int + j + 1,
                ));
            }
            j += 1;
        }
        proof {
            let svs = product_views(sorted@);
            let off_i = (page - 1) * per_page as int;
            let spec_start = if off_i > svs.len() {
                svs.len() as int
            } else {
                off_i
            };
            let spec_end = if off_i + per_page > svs.len() {
                svs.len() as int
            } else {
                off_i + per_page
            };
            assert(spec_start == start as int);
            assert(spec_end == start as int + take_count as int);
            assert(product_views(data@) == catalog_page(self@, page as int, per_page as int));
        }
        Ok(
            PaginatedResponse {
                page,
                per_page,
                total,
                total_pages,
                data,
            },
        )
    }
}

/// A created row carries exactly the identifier the store assigned, and its
/// creation and update stamps are equal at creation.
pub proof fn lemma_created_row_stamps(d: CreateProductView, id: u128, now: i64)
    ensures
        product_from_create(d, id, now).id == id,
        product_from_create(d, id, now).created_at == product_from_create(d, id, now).updated_at,
{
}

/// The catalog round trip: looking up the identifier of a freshly created
/// row finds exactly that row, field for field.
pub proof fn lemma_create_then_get(rows: Seq<ProductView>, p: ProductView)
    requires
        !contains_key(rows, prod_key(), p.id),
    ensures
        find_by_key(rows.push(p), prod_key(), p.id) == Some(p),
{
    assert(prod_key()(p) == p.id);
    lemma_push_then_find(rows, prod_key(), p);
}

/// The promised ordering really is an ordering: within one catalog page no
/// later row has a newer creation stamp than an earlier one.
pub proof fn lemma_catalog_page_sorted(rows: Seq<ProductView>, page: int, per_page: int)
    requires
        1 <= page,
        1 <= per_page,
    ensures
        crate::order::sorted_by(prod_lt_fn(), catalog_page(rows, page, per_page)),
{
    let ltf = prod_lt_fn();
    assert forall|a: ProductView, b: ProductView, c: ProductView|
        #[trigger] ltf(a, b) && #[trigger] ltf(b, c) implies ltf(a, c) by {}
    assert forall|a: ProductView, b: ProductView| #[trigger] ltf(a, b) implies !ltf(b, a) by {}
    let sorted = sort_by_lt(ltf, rows);
    crate::order::lemma_sort_by_lt_sorted(ltf, rows);
    let off = (page - 1) * per_page;
    let start = if off > sorted.len() {
        sorted.len() as int
    } else {
        off
    };
    let end = if off + per_page > sorted.len() {
        sorted.len() as int
    } else {
        off + per_page
    };
    let paged = catalog_page(rows, page, per_page);
    assert(paged == sorted.subrange(start, end));
    assert forall|i: int, j: int| 0 <= i < j < paged.len() implies !ltf(paged[j], paged[i]) by {
        assert(sorted.subrange(start, end)[i] == sorted[start + i]);
        assert(sorted.subrange(start, end)[j] == sorted[start + j]);
    }
}

/// The listing invents nothing: every row a catalog page shows stands in
/// the table.
pub proof fn lemma_catalog_page_rows_from_table(rows: Seq<ProductView>, page: int, per_page: int)
    requires
        1 <= page,
        1 <= per_page,
    ensures
        forall|k: int|
            0 <= k < catalog_page(rows, page, per_page).len() ==> rows.contains(
                #[trigger] catalog_page(rows, page, per_page)[k],
            ),
{
    broadcast use vstd::seq_lib::group_to_multiset_ensures;

    let ltf = prod_lt_fn();
    let sorted = sort_by_lt(ltf, rows);
    crate::order::lemma_sort_by_lt_multiset(ltf, rows);
    let off = (page - 1) * per_page;
    let start = if off > sorted.len() {
        sorted.len() as int
    } else {
        off
    };
    let end = if off + per_page > sorted.len() {
        sorted.len() as int
    } else {
        off + per_page
    };
    let paged = catalog_page(rows, page, per_page);
    assert(paged == sorted.subrange(start, end));
    assert forall|k: int| 0 <= k < paged.len() implies rows.contains(#[trigger] paged[k]) by {
        assert(sorted.subrange(start, end)[k] == sorted[start + k]);
        let e = paged[k];
        assert(sorted.contains(e));
        assert(sorted.to_multiset().count(e) > 0);
        assert(rows.to_multiset().count(e) > 0);
    }
}

/// Requesting a page past the last one yields an empty data sequence, not
/// an error: the window then starts at or beyond the end of the table.
pub proof fn lemma_page_beyond_total_pages_empty(rows: Seq<ProductView>, page: int, per_page: int)
    requires
        page >= 1,
        per_page >= 1,
        page > ceil_div(rows.len() as int, per_page),
    ensures
        catalog_page(rows, page, per_page).len() == 0,
{
    lemma_sort_by_lt_len(prod_lt_fn(), rows);
    let n = rows.len() as int;
    let c = ceil_div(n, per_page);
    lemma_fundamental_div_mod(n + per_page - 1, per_page);
    lemma_mod_bound(n + per_page - 1, per_page);
    assert(per_page * c >= n);
    lemma_mul_inequality(c, page - 1, per_page);
    assert((page - 1) * per_page >= n);
}

} // verus!
