//! The transaction entity: its stored row, its request and response
//! shapes, and the field constraints. A transaction references a product
//! and carries a snapshot of that product's amounts taken at creation
//! time; the snapshot is never re-synced afterwards.

use vstd::prelude::*;

use crate::error::AppError;
use crate::pagination::PaginatedResult;

verus! {

/// A stored transaction row. `hpp_amount` and `selling_amount` are the
/// referenced product's amounts as they were when the row was created.
pub struct Transaction {
    pub id: i32,
    pub product_id: i32,
    pub hpp_amount: i32,
    pub selling_amount: i32,
    pub qty: i32,
    pub created_at: Option<i64>,
    pub updated_at: Option<i64>,
    pub deleted_at: Option<i64>,
}

impl Transaction {
    /// The row is visible: it has not been soft-deleted.
    pub open spec fn is_active(&self) -> bool {
        self.deleted_at is None
    }
}

impl Clone for Transaction {
    fn clone(&self) -> (res: Self)
        ensures
            res == *self,
    {
        Transaction {
            id: self.id,
            product_id: self.product_id,
            hpp_amount: self.hpp_amount,
            selling_amount: self.selling_amount,
            qty: self.qty,
            created_at: self.created_at,
            updated_at: self.updated_at,
            deleted_at: self.deleted_at,
        }
    }
}

/// The payload for creating a transaction: the referenced product and a
/// quantity. The amounts are not supplied; they are snapshotted from the
/// product.
pub struct CreateTransactionRequest {
    pub product_id: i32,
    pub qty: i32,
}

impl CreateTransactionRequest {
    pub open spec fn product_id_ok(&self) -> bool {
        self.product_id >= 1
    }

    pub open spec fn qty_ok(&self) -> bool {
        self.qty >= 1
    }

    pub open spec fn spec_valid(&self) -> bool {
        self.product_id_ok() && self.qty_ok()
    }

    /// Checks the declarative field constraints: positive product id and
    /// quantity.
    pub fn validate(&self) -> (r: Result<(), AppError>)
        ensures
            r is Ok <==> self.spec_valid(),
            !self.product_id_ok() ==> (r matches Err(AppError::ValidationError(m)) && m@
                == "Product ID must be positive"@),
            self.product_id_ok() && !self.qty_ok() ==> (r matches Err(AppError::ValidationError(m))
                && m@ == "Quantity must be positive"@),
    {
        if self.product_id < 1 {
            return Err(AppError::ValidationError("Product ID must be positive".to_owned()));
        }
        if self.qty < 1 {
            return Err(AppError::ValidationError("Quantity must be positive".to_owned()));
        }
        Ok(())
    }
}

/// The payload for fetching one transaction by id.
pub struct GetTransactionRequest {
    pub id: i32,
}

impl GetTransactionRequest {
    pub open spec fn spec_valid(&self) -> bool {
        self.id >= 1
    }

    /// Checks that the id is positive.
    pub fn validate(&self) -> (r: Result<(), AppError>)
        ensures
            r is Ok <==> self.spec_valid(),
            !self.spec_valid() ==> (r matches Err(AppError::ValidationError(m)) && m@
                == "ID must be positive"@),
    {
        if self.id < 1 {
            return Err(AppError::ValidationError("ID must be positive".to_owned()));
        }
        Ok(())
    }
}

/// The string-typed query parameters of a transaction list request. The
/// `product_id` filter applies when it parses as an integer and is
/// silently ignored otherwise; `search` plays no role for transactions.
pub struct GetListTransactionQuery {
    pub limit: Option<String>,
    pub page: Option<String>,
    pub search: Option<String>,
    pub order_by: Option<String>,
    pub direction: Option<String>,
    pub product_id: Option<String>,
}

/// The payload for a partial transaction update; absent fields are left
/// untouched. The amounts may be overridden freely: an update never
/// re-snapshots them from the product.
pub struct UpdateTransactionRequest {
    pub product_id: Option<i32>,
    pub hpp_amount: Option<i32>,
    pub selling_amount: Option<i32>,
    pub qty: Option<i32>,
}

impl UpdateTransactionRequest {
    pub open spec fn product_id_ok(&self) -> bool {
        match self.product_id {
            Some(v) => v >= 1,
            None => true,
        }
    }

    pub open spec fn hpp_ok(&self) -> bool {
        match self.hpp_amount {
            Some(v) => v >= 0,
            None => true,
        }
    }

    pub open spec fn selling_ok(&self) -> bool {
        match self.selling_amount {
            Some(v) => v >= 0,
            None => true,
        }
    }

    pub open spec fn qty_ok(&self) -> bool {
        match self.qty {
            Some(v) => v >= 1,
            None => true,
        }
    }

    pub open spec fn spec_valid(&self) -> bool {
        self.product_id_ok() && self.hpp_ok() && self.selling_ok() && self.qty_ok()
    }

    /// Checks the declarative field constraints on every supplied field.
    pub fn validate(&self) -> (r: Result<(), AppError>)
        ensures
            r is Ok <==> self.spec_valid(),
            !self.product_id_ok() ==> (r matches Err(AppError::ValidationError(m)) && m@
                == "Product ID must be positive"@),
            self.product_id_ok() && !self.hpp_ok() ==> (r matches Err(AppError::ValidationError(m))
                && m@ == "HPP amount must be non-negative"@),
            self.product_id_ok() && self.hpp_ok() && !self.selling_ok() ==> (r matches Err(
                AppError::ValidationError(m),
            ) && m@ == "Selling amount must be non-negative"@),
            self.product_id_ok() && self.hpp_ok() && self.selling_ok() && !self.qty_ok() ==> (
            r matches Err(AppError::ValidationError(m)) && m@ == "Quantity must be positive"@),
    {
        if let Some(v) = &self.product_id {
            if *v < 1 {
                return Err(AppError::ValidationError("Product ID must be positive".to_owned()));
            }
        }
        if let Some(v) = &self.hpp_amount {
            if *v < 0 {
                return Err(
                    AppError::ValidationError("HPP amount must be non-negative".to_owned()),
                );
            }
        }
        if let Some(v) = &self.selling_amount {
            if *v < 0 {
                return Err(
                    AppError::ValidationError("Selling amount must be non-negative".to_owned()),
                );
            }
        }
        if let Some(v) = &self.qty {
            if *v < 1 {
                return Err(AppError::ValidationError("Quantity must be positive".to_owned()));
            }
        }
        Ok(())
    }
}

/// The response shape of a single transaction.
pub struct TransactionResponse {
    pub id: i32,
    pub product_id: i32,
    pub hpp_amount: i32,
    pub selling_amount: i32,
    pub qty: i32,
    pub created_at: Option<i64>,
    pub updated_at: Option<i64>,
}

/// The response shape a stored transaction row maps to.
pub open spec fn transaction_response_of(m: Transaction) -> TransactionResponse {
    TransactionResponse {
        id: m.id,
        product_id: m.product_id,
        hpp_amount: m.hpp_amount,
        selling_amount: m.selling_amount,
        qty: m.qty,
        created_at: m.created_at,
        updated_at: m.updated_at,
    }
}

impl From<Transaction> for TransactionResponse {
    fn from(m: Transaction) -> (r: Self) {
        TransactionResponse {
            id: m.id,
            product_id: m.product_id,
            hpp_amount: m.hpp_amount,
            selling_amount: m.selling_amount,
            qty: m.qty,
            created_at: m.created_at,
            updated_at: m.updated_at,
        }
    }
}

impl vstd::std_specs::convert::FromSpecImpl<Transaction> for TransactionResponse {
    open spec fn obeys_from_spec() -> bool {
        true
    }

    open spec fn from_spec(m: Transaction) -> Self {
        transaction_response_of(m)
    }
}

/// The response shape of a transaction list request.
pub struct ListTransactionResponse {
    pub data: Vec<TransactionResponse>,
    pub total: u64,
    pub page: u64,
    pub limit: u64,
    pub total_pages: u64,
}

impl ListTransactionResponse {
    /// Maps every row of a page to its response shape, keeping the
    /// paging metadata.
    pub fn from_result(pr: PaginatedResult<Transaction>) -> (r: Self)
        ensures
            r.data@ == pr.data@.map_values(|m: Transaction| transaction_response_of(m)),
            r.total == pr.total,
            r.page == pr.page,
            r.limit == pr.limit,
            r.total_pages == pr.total_pages,
    {
        let mut rows = pr.data;
        let ghost all = rows@;
        let mut data: Vec<TransactionResponse> = Vec::new();
        while rows.len() > 0
            invariant
                all.map_values(|m: Transaction| transaction_response_of(m)) == data@
                    + rows@.map_values(|m: Transaction| transaction_response_of(m)),
            decreases rows.len(),
        {
            let m = rows.remove(0);
            data.push(TransactionResponse::from(m));
            proof {
                assert(all.map_values(|m: Transaction| transaction_response_of(m)) =~= data@
                    + rows@.map_values(|m: Transaction| transaction_response_of(m)));
            }
        }
        proof {
            assert(data@ =~= all.map_values(|m: Transaction| transaction_response_of(m)));
        }
        ListTransactionResponse {
            data,
            total: pr.total,
            page: pr.page,
            limit: pr.limit,
            total_pages: pr.total_pages,
        }
    }
}

} // verus!
