use crate::dto_traits::ToDto;
use crate::text::{clone_opt_string, opt_view};
use vstd::prelude::*;

verus! {

/// A catalog row. Identifiers are carried as the 128-bit value of the
/// store's UUID, prices as non-negative cents, and timestamps as
/// microseconds since the Unix epoch.
#[derive(Debug, PartialEq)]
pub struct Product {
    pub id: u128,
    pub name: String,
    pub description: Option<String>,
    pub price_cents: u64,
    pub image_url: Option<String>,
    pub created_at: i64,
    pub updated_at: i64,
}

/// The mathematical value of a product row.
pub ghost struct ProductView {
    pub id: u128,
    pub name: Seq<char>,
    pub description: Option<Seq<char>>,
    pub price_cents: u64,
    pub image_url: Option<Seq<char>>,
    pub created_at: i64,
    pub updated_at: i64,
}

impl View for Product {
    type V = ProductView;

    open spec fn view(&self) -> ProductView {
        ProductView {
            id: self.id,
            name: self.name@,
            description: opt_view(self.description),
            price_cents: self.price_cents,
            image_url: opt_view(self.image_url),
            created_at: self.created_at,
            updated_at: self.updated_at,
        }
    }
}

impl Clone for Product {
    fn clone(&self) -> (r: Self)
        ensures
            r@ == self@,
    {
        Product {
            id: self.id,
            name: self.name.clone(),
            description: clone_opt_string(&self.description),
            price_cents: self.price_cents,
            image_url: clone_opt_string(&self.image_url),
            created_at: self.created_at,
            updated_at: self.updated_at,
        }
    }
}

/// The client's creation payload: every field of a product except the
/// identifier and the timestamps, which the store assigns.
#[derive(Debug)]
pub struct CreateProductDto {
    pub name: String,
    pub description: Option<String>,
    pub price_cents: u64,
    pub image_url: Option<String>,
}

/// The mathematical value of a creation payload.
pub ghost struct CreateProductView {
    pub name: Seq<char>,
    pub description: Option<Seq<char>>,
    pub price_cents: u64,
    pub image_url: Option<Seq<char>>,
}

impl View for CreateProductDto {
    type V = CreateProductView;

    open spec fn view(&self) -> CreateProductView {
        CreateProductView {
            name: self.name@,
            description: opt_view(self.description),
            price_cents: self.price_cents,
            image_url: opt_view(self.image_url),
        }
    }
}

/// The client's partial-update payload: unset fields leave the stored row
/// unchanged.
#[derive(Debug)]
pub struct UpdateProductDto {
    pub name: Option<String>,
    pub description: Option<String>,
    pub price_cents: Option<u64>,
    pub image_url: Option<String>,
}

/// The mathematical value of a partial-update payload.
pub ghost struct UpdateProductView {
    pub name: Option<Seq<char>>,
    pub description: Option<Seq<char>>,
    pub price_cents: Option<u64>,
    pub image_url: Option<Seq<char>>,
}

impl View for UpdateProductDto {
    type V = UpdateProductView;

    open spec fn view(&self) -> UpdateProductView {
        UpdateProductView {
            name: opt_view(self.name),
            description: opt_view(self.description),
            price_cents: self.price_cents,
            image_url: opt_view(self.image_url),
        }
    }
}

/// The wire representation of a product; the catalog hides nothing, so it
/// mirrors the row field for field.
#[derive(Debug, PartialEq)]
pub struct ProductDto {
    pub id: u128,
    pub name: String,
    pub description: Option<String>,
    pub price_cents: u64,
    pub image_url: Option<String>,
    pub created_at: i64,
    pub updated_at: i64,
}

/// The mathematical value of a product DTO.
pub ghost struct ProductDtoView {
    pub id: u128,
    pub name: Seq<char>,
    pub description: Option<Seq<char>>,
    pub price_cents: u64,
    pub image_url: Option<Seq<char>>,
    pub created_at: i64,
    pub updated_at: i64,
}

impl View for ProductDto {
    type V = ProductDtoView;

    open spec fn view(&self) -> ProductDtoView {
        ProductDtoView {
            id: self.id,
            name: self.name@,
            description: opt_view(self.description),
            price_cents: self.price_cents,
            image_url: opt_view(self.image_url),
            created_at: self.created_at,
            updated_at: self.updated_at,
        }
    }
}

/// The row a creation payload becomes: the store assigns the identifier and
/// stamps both timestamps with the same creation instant.
pub open spec fn product_from_create(d: CreateProductView, id: u128, now: i64) -> ProductView {
    ProductView {
        id: id,
        name: d.name,
        description: d.description,
        price_cents: d.price_cents,
        image_url: d.image_url,
        created_at: now,
        updated_at: now,
    }
}

/// The row a partial update produces: each set field overwrites, each unset
/// field keeps the stored value, and `updated_at` is always refreshed;
/// `id` and `created_at` never change.
pub open spec fn apply_update(p: ProductView, d: UpdateProductView, now: i64) -> ProductView {
    ProductView {
        id: p.id,
        name: match d.name {
            Some(n) => n,
            None => p.name,
        },
        description: match d.description {
            Some(n) => Some(n),
            None => p.description,
        },
        price_cents: match d.price_cents {
            Some(n) => n,
            None => p.price_cents,
        },
        image_url: match d.image_url {
            Some(n) => Some(n),
            None => p.image_url,
        },
        created_at: p.created_at,
        updated_at: now,
    }
}

/// The wire projection of a product row.
pub open spec fn product_dto_of(p: ProductView) -> ProductDtoView {
    ProductDtoView {
        id: p.id,
        name: p.name,
        description: p.description,
        price_cents: p.price_cents,
        image_url: p.image_url,
        created_at: p.created_at,
        updated_at: p.updated_at,
    }
}

impl Product {
    /// The DTO of this row, field for field.
    pub fn to_dto(&self) -> (r: ProductDto)
        ensures
            r@ == product_dto_of(self@),
    {
        ProductDto {
            id: self.id,
            name: self.name.clone(),
            description: clone_opt_string(&self.description),
            price_cents: self.price_cents,
            image_url: clone_opt_string(&self.image_url),
            created_at: self.created_at,
            updated_at: self.updated_at,
        }
    }
}

impl ToDto<ProductDto> for Product {
    fn to_dto(&self) -> ProductDto {
        Product::to_dto(self)
    }
}

/// A partial update with every field omitted changes nothing in a row
/// except its `updated_at` stamp.
pub proof fn lemma_empty_patch_is_noop(p: ProductView, now: i64)
    ensures
        ({
            let d = UpdateProductView {
                name: None,
                description: None,
                price_cents: None,
                image_url: None,
            };
            let u = apply_update(p, d, now);
            u.id == p.id && u.name == p.name && u.description == p.description && u.price_cents
                == p.price_cents && u.image_url == p.image_url && u.created_at == p.created_at
                && u.updated_at == now
        }),
{
}

} // verus!
