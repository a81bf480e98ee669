//! The compute part of the catalog's request handlers: repository call and
//! DTO projection. Decoding the HTTP request and building the HTTP
//! response happen outside the library.

use crate::catalog::errors::AppError;
use crate::catalog::pagination::{
    ceil_div, page_or_default, per_page_or_default, PaginatedResponse, Pagination,
};
use crate::catalog::product::{
    apply_update, CreateProductDto, product_dto_of, product_from_create, ProductDto,
    ProductDtoView, ProductView, UpdateProductDto,
};
use crate::catalog::repo::{
    catalog_page, MAX_CATALOG_ROWS, prod_key, product_views, ProductRepo,
};
use crate::table::{contains_key, find_by_key, idx_of_key};
use vstd::prelude::*;

verus! {

/// The mathematical values of a sequence of product DTOs.
pub open spec fn product_dto_views(s: Seq<ProductDto>) -> Seq<ProductDtoView> {
    s.map_values(|d: ProductDto| d@)
}

/// The wire projection of a sequence of product rows.
pub open spec fn product_dtos_of(s: Seq<ProductView>) -> Seq<
    ProductDtoView,
> {
    s.map_values(|p: ProductView| product_dto_of(p))
}

/// Create a product from the client's payload and answer with its DTO.
pub fn create_product(
    repo: &mut ProductRepo,
    create_product_dto: &CreateProductDto,
    id: u128,
    now: i64,
) -> (r: Result<ProductDto, AppError>)
    requires
        old(repo).wf(),
    ensures
        final(repo).wf(),
        r is Ok <==> !contains_key(old(repo)@, prod_key(), id) && old(repo)@.len()
            < MAX_CATALOG_ROWS,
        r matches Ok(d) ==> d@ == product_dto_of(product_from_create(create_product_dto@, id, now))
            && final(repo)@ == old(repo)@.push(product_from_create(create_product_dto@, id, now)),
        r is Err ==> final(repo)@ == old(repo)@,
        r matches Err(e) ==> e is InternalServerError,
{
    match repo.create(create_product_dto, id, now) {
        Ok(p) => Ok(p.to_dto()),
        Err(e) => Err(e),
    }
}

/// One page of the catalog as DTOs, with the paging arithmetic.
pub fn get_products(repo: &ProductRepo, pagination: &Pagination) -> (r: Result<
    PaginatedResponse<ProductDto>,
    AppError,
>)
    requires
        repo.wf(),
    ensures
        ({
            let page = page_or_default(pagination.page);
            let per_page = per_page_or_default(pagination.per_page);
            &&& (page < 1 || per_page < 1) ==> (r matches Err(e) && e matches AppError::Invalid(m)
                && m@ == "page and per_page must be at least 1"@)
            &&& (page >= 1 && per_page >= 1 && (page - 1) * per_page > MAX_CATALOG_ROWS) ==> (
            r matches Err(e) && e matches AppError::Invalid(m) && m@ == "page is out of range"@)
            &&& (page >= 1 && per_page >= 1 && (page - 1) * per_page <= MAX_CATALOG_ROWS) ==> (
            r matches Ok(resp) && resp.page == page && resp.per_page == per_page && resp.total as int
                == repo@.len() as int && resp.total_pages as int == ceil_div(
                repo@.len() as int,
                per_page as int,
            ) && product_dto_views(resp.data@) == product_dtos_of(
                catalog_page(repo@, page as int, per_page as int),
            ))
            &&& r matches Err(e) ==> e is Invalid
        }),
{
    let inner = match repo.get_all(pagination) {
        Ok(resp) => resp,
        Err(e) => {
            return Err(e);
        },
    };
    let mut data: Vec<ProductDto> = Vec::new();
    let n = inner.data.len();
    proof {
        assert(product_dto_views(data@) =~= product_dtos_of(
            product_views(inner.data@).take(0),
        ));
    }
    let mut i: usize = 0;
    while i < n
        invariant
            n == inner.data.len(),
            i <= n,
            data@.len() == i,
            product_dto_views(data@) == product_dtos_of(
                product_views(inner.data@).take(i as int),
            ),
        decreases n - i,
    {
        let d = inner.data[i].to_dto();
        let ghost pre = data@;
        data.push(d);
        proof {
            let vs = product_views(inner.data@);
            assert forall|j: int| 0 <= j < i + 1 implies product_dto_views(data@)[j]
                == product_dtos_of(vs.take(i + 1))[j] by {
                assert(vs.take(i + 1)[j] == vs[j]);
                if j < i {
                    assert(data@[j] == pre[j]);
                    assert(product_dto_views(pre)[j] == product_dtos_of(vs.take(i as int))[j]);
                    assert(vs.take(i as int)[j] == vs[j]);
                } else {
                    assert(data@[j] == d);
                    assert(d@ == product_dto_of(inner.data@[i as int]@));
                    assert(vs[i as int] == inner.data@[i as int]@);
                }
            }
            assert(product_dto_views(data@) =~= product_dtos_of(vs.take(i + 1)));
        }
        i += 1;
    }
    proof {
        assert(product_views(inner.data@).take(n as int)
            =~= product_views(inner.data@));
    }
    Ok(
        PaginatedResponse {
            page: inner.page,
            per_page: inner.per_page,
            total: inner.total,
            total_pages: inner.total_pages,
            data,
        },
    )
}

/// The DTO of the row carrying `id`, or the not-found error.
pub fn get_product(repo: &ProductRepo, id: u128) -> (r: Result<ProductDto, AppError>)
    ensures
        contains_key(repo@, prod_key(), id) ==> (r matches Ok(d) && find_by_key(
            repo@,
            prod_key(),
            id,
        ) matches Some(p) && d@ == product_dto_of(p)),
        !contains_key(repo@, prod_key(), id) ==> (r matches Err(e) && e matches AppError::NotFound(
            m,
        ) && m@ == "Product not found"@),
{
    match repo.get_by_id(id) {
        Ok(p) => Ok(p.to_dto()),
        Err(e) => Err(e),
    }
}

/// Apply a partial update and answer with the updated row's DTO.
pub fn update_product(
    repo: &mut ProductRepo,
    id: u128,
    update_product_dto: &UpdateProductDto,
    now: i64,
) -> (r: Result<ProductDto, AppError>)
    requires
        old(repo).wf(),
    ensures
        final(repo).wf(),
        !contains_key(old(repo)@, prod_key(), id) ==> (r matches Err(e) && e matches
            AppError::NotFound(m) && m@ == "Product not found"@ && final(repo)@ == old(repo)@),
        contains_key(old(repo)@, prod_key(), id) ==> (r matches Ok(d) && ({
            let i = idx_of_key(old(repo)@, prod_key(), id);
            let merged = apply_update(old(repo)@[i], update_product_dto@, now);
            d@ == product_dto_of(merged) && final(repo)@ == old(repo)@.update(i, merged)
        })),
{
    match repo.update(id, update_product_dto, now) {
        Ok(p) => Ok(p.to_dto()),
        Err(e) => Err(e),
    }
}

/// Remove the row carrying `id`.
pub fn delete_product(repo: &mut ProductRepo, id: u128) -> (r: Result<(), AppError>)
    requires
        old(repo).wf(),
    ensures
        final(repo).wf(),
        !contains_key(old(repo)@, prod_key(), id) ==> (r matches Err(e) && e matches
            AppError::NotFound(m) && m@ == "Product not found"@ && final(repo)@ == old(repo)@),
        contains_key(old(repo)@, prod_key(), id) ==> r is Ok && final(repo)@ == old(
            repo,
        )@.remove(idx_of_key(old(repo)@, prod_key(), id)) && !contains_key(
            final(repo)@,
            prod_key(),
            id,
        ),
{
    repo.delete(id)
}

} // verus!
