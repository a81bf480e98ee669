use crate::catalog::errors::AppError;
use crate::catalog::pagination::{PaginatedResponse, Pagination};
use crate::catalog::product::{CreateProductDto, Product, UpdateProductDto};
use crate::catalog::repo::ProductRepo;
use vstd::prelude::*;

verus! {

/// The uniform shape of a catalog repository: full CRUD plus a paginated
/// listing for one entity type. The store-assigned identifier and instant
/// are handed in as plain values.
pub trait Repository<T, C, U> {
    /// The repository's internal invariant.
    spec fn inv(&self) -> bool;

    fn create(&mut self, data: &C, id: u128, now: i64) -> (r: Result<T, AppError>)
        requires
            old(self).inv(),
        ensures
            final(self).inv(),
    ;

    fn get_all(&self, pagination: &Pagination) -> Result<PaginatedResponse<T>, AppError>
        requires
            self.inv(),
    ;

    fn get_by_id(&self, id: u128) -> Result<T, AppError>
        requires
            self.inv(),
    ;

    fn update(&mut self, id: u128, data: &U, now: i64) -> (r: Result<T, AppError>)
        requires
            old(self).inv(),
        ensures
            final(self).inv(),
    ;

    fn delete(&mut self, id: u128) -> (r: Result<(), AppError>)
        requires
            old(self).inv(),
        ensures
            final(self).inv(),
    ;
}

impl Repository<Product, CreateProductDto, UpdateProductDto> for ProductRepo {
    open spec fn inv(&self) -> bool {
        self.wf()
    }

    fn create(&mut self, data: &CreateProductDto, id: u128, now: i64) -> Result<Product, AppError> {
        ProductRepo::create(self, data, id, now)
    }

    fn get_all(&self, pagination: &Pagination) -> Result<PaginatedResponse<Product>, AppError> {
        ProductRepo::get_all(self, pagination)
    }

    fn get_by_id(&self, id: u128) -> Result<Product, AppError> {
        ProductRepo::get_by_id(self, id)
    }

    fn update(&mut self, id: u128, data: &UpdateProductDto, now: i64) -> Result<Product, AppError> {
        ProductRepo::update(self, id, data, now)
    }

    fn delete(&mut self, id: u128) -> Result<(), AppError> {
        ProductRepo::delete(self, id)
    }
}

} // verus!
