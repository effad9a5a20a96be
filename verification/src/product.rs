//! The product entity: its stored row, its request and response shapes,
//! and the field constraints create and update requests must satisfy.
//! Timestamps are milliseconds since the Unix epoch; a row is soft-deleted
//! exactly when `deleted_at` is set.

use vstd::prelude::*;

use crate::error::AppError;
use crate::pagination::PaginatedResult;

verus! {

/// A stored product row. No two rows that are both active (not
/// soft-deleted) may share a name.
pub struct Product {
    pub id: i32,
    pub name: String,
    pub hpp_amount: i32,
    pub selling_amount: i32,
    pub created_at: Option<i64>,
    pub updated_at: Option<i64>,
    pub deleted_at: Option<i64>,
}

impl Product {
    /// The row is visible: it has not been soft-deleted.
    pub open spec fn is_active(&self) -> bool {
        self.deleted_at is None
    }
}

impl Clone for Product {
    fn clone(&self) -> (res: Self)
        ensures
            res == *self,
    {
        Product {
            id: self.id,
            name: self.name.clone(),
            hpp_amount: self.hpp_amount,
            selling_amount: self.selling_amount,
            created_at: self.created_at,
            updated_at: self.updated_at,
            deleted_at: self.deleted_at,
        }
    }
}

/// The payload for creating a product.
pub struct CreateProductRequest {
    pub name: String,
    pub hpp_amount: i32,
    pub selling_amount: i32,
}

impl CreateProductRequest {
    pub open spec fn name_ok(&self) -> bool {
        1 <= self.name@.len() <= 255
    }

    pub open spec fn hpp_ok(&self) -> bool {
        self.hpp_amount >= 0
    }

    pub open spec fn selling_ok(&self) -> bool {
        self.selling_amount >= 0
    }

    pub open spec fn spec_valid(&self) -> bool {
        self.name_ok() && self.hpp_ok() && self.selling_ok()
    }

    /// Checks the declarative field constraints: a name of 1 to 255
    /// characters and non-negative amounts.
    pub fn validate(&self) -> (r: Result<(), AppError>)
        ensures
            r is Ok <==> self.spec_valid(),
            !self.name_ok() ==> (r matches Err(AppError::ValidationError(m)) && m@
                == "Name must be between 1 and 255 characters"@),
            self.name_ok() && !self.hpp_ok() ==> (r matches Err(AppError::ValidationError(m))
                && m@ == "HPP amount must be non-negative"@),
            self.name_ok() && self.hpp_ok() && !self.selling_ok() ==> (r matches Err(
                AppError::ValidationError(m),
            ) && m@ == "Selling amount must be non-negative"@),
    {
        let len = self.name.as_str().unicode_len();
        if len < 1 || len > 255 {
            return Err(
                AppError::ValidationError("Name must be between 1 and 255 characters".to_owned()),
            );
        }
        if self.hpp_amount < 0 {
            return Err(AppError::ValidationError("HPP amount must be non-negative".to_owned()));
        }
        if self.selling_amount < 0 {
            return Err(
                AppError::ValidationError("Selling amount must be non-negative".to_owned()),
            );
        }
        Ok(())
    }
}

/// The payload for fetching one product by id.
pub struct GetProductRequest {
    pub id: i32,
}

impl GetProductRequest {
    pub open spec fn spec_valid(&self) -> bool {
        self.id >= 1
    }

    /// Checks that the id is positive.
    pub fn validate(&self) -> (r: Result<(), AppError>)
        ensures
            r is Ok <==> self.spec_valid(),
            !self.spec_valid() ==> (r matches Err(AppError::ValidationError(m)) && m@
                == "ID must be positive"@),
    {
        if self.id < 1 {
            return Err(AppError::ValidationError("ID must be positive".to_owned()));
        }
        Ok(())
    }
}

/// The string-typed query parameters of a product list request.
pub struct GetListProductQuery {
    pub limit: Option<String>,
    pub page: Option<String>,
    pub search: Option<String>,
    pub order_by: Option<String>,
    pub direction: Option<String>,
}

/// The payload for a partial product update; absent fields are left
/// untouched.
pub struct UpdateProductRequest {
    pub name: Option<String>,
    pub hpp_amount: Option<i32>,
    pub selling_amount: Option<i32>,
}

impl UpdateProductRequest {
    pub open spec fn name_ok(&self) -> bool {
        match self.name {
            Some(n) => 1 <= n@.len() <= 255,
            None => true,
        }
    }

    pub open spec fn hpp_ok(&self) -> bool {
        match self.hpp_amount {
            Some(v) => v >= 0,
            None => true,
        }
    }

    pub open spec fn selling_ok(&self) -> bool {
        match self.selling_amount {
            Some(v) => v >= 0,
            None => true,
        }
    }

    pub open spec fn spec_valid(&self) -> bool {
        self.name_ok() && self.hpp_ok() && self.selling_ok()
    }

    /// Checks the declarative field constraints on every supplied field.
    pub fn validate(&self) -> (r: Result<(), AppError>)
        ensures
            r is Ok <==> self.spec_valid(),
            !self.name_ok() ==> (r matches Err(AppError::ValidationError(m)) && m@
                == "Name must be between 1 and 255 characters"@),
            self.name_ok() && !self.hpp_ok() ==> (r matches Err(AppError::ValidationError(m))
                && m@ == "HPP amount must be non-negative"@),
            self.name_ok() && self.hpp_ok() && !self.selling_ok() ==> (r matches Err(
                AppError::ValidationError(m),
            ) && m@ == "Selling amount must be non-negative"@),
    {
        if let Some(name) = &self.name {
            let len = name.as_str().unicode_len();
            if len < 1 || len > 255 {
                return Err(
                    AppError::ValidationError(
                        "Name must be between 1 and 255 characters".to_owned(),
                    ),
                );
            }
        }
        if let Some(hpp) = &self.hpp_amount {
            if *hpp < 0 {
                return Err(
                    AppError::ValidationError("HPP amount must be non-negative".to_owned()),
                );
            }
        }
        if let Some(selling) = &self.selling_amount {
            if *selling < 0 {
                return Err(
                    AppError::ValidationError("Selling amount must be non-negative".to_owned()),
                );
            }
        }
        Ok(())
    }
}

/// The response shape of a single product.
pub struct ProductResponse {
    pub id: i32,
    pub name: String,
    pub hpp_amount: i32,
    pub selling_amount: i32,
    pub created_at: Option<i64>,
    pub updated_at: Option<i64>,
}

/// The response shape a stored product row maps to.
pub open spec fn product_response_of(m: Product) -> ProductResponse {
    ProductResponse {
        id: m.id,
        name: m.name,
        hpp_amount: m.hpp_amount,
        selling_amount: m.selling_amount,
        created_at: m.created_at,
        updated_at: m.updated_at,
    }
}

impl From<Product> for ProductResponse {
    fn from(m: Product) -> (r: Self) {
        ProductResponse {
            id: m.id,
            name: m.name,
            hpp_amount: m.hpp_amount,
            selling_amount: m.selling_amount,
            created_at: m.created_at,
            updated_at: m.updated_at,
        }
    }
}

impl vstd::std_specs::convert::FromSpecImpl<Product> for ProductResponse {
    open spec fn obeys_from_spec() -> bool {
        true
    }

    open spec fn from_spec(m: Product) -> Self {
        product_response_of(m)
    }
}

/// The response shape of a product list request.
pub struct ListProductResponse {
    pub data: Vec<ProductResponse>,
    pub total: u64,
    pub page: u64,
    pub limit: u64,
    pub total_pages: u64,
}

impl ListProductResponse {
    /// Maps every row of a page to its response shape, keeping the
    /// paging metadata.
    pub fn from_result(pr: PaginatedResult<Product>) -> (r: Self)
        ensures
            r.data@ == pr.data@.map_values(|m: Product| product_response_of(m)),
            r.total == pr.total,
            r.page == pr.page,
            r.limit == pr.limit,
            r.total_pages == pr.total_pages,
    {
        let mut rows = pr.data;
        let ghost all = rows@;
        let mut data: Vec<ProductResponse> = Vec::new();
        while rows.len() > 0
            invariant
                all.map_values(|m: Product| product_response_of(m)) == data@ + rows@.map_values(
                    |m: Product| product_response_of(m),
                ),
            decreases rows.len(),
        {
            let m = rows.remove(0);
            data.push(ProductResponse::from(m));
            proof {
                assert(all.map_values(|m: Product| product_response_of(m)) =~= data@
                    + rows@.map_values(|m: Product| product_response_of(m)));
            }
        }
        proof {
            assert(data@ =~= all.map_values(|m: Product| product_response_of(m)));
        }
        ListProductResponse {
            data,
            total: pr.total,
            page: pr.page,
            limit: pr.limit,
            total_pages: pr.total_pages,
        }
    }
}

} // verus!
