//! The transaction usecase: the business rules over the transaction
//! repository, with the product repository consulted at creation time.
//! Creation requires an existing, non-deleted product and snapshots its
//! amounts into the new row; it returns no body. Updates never
//! re-snapshot: the stored amounts change only when the caller supplies
//! them.

use vstd::prelude::*;

use crate::clock::now_millis;
use crate::error::spec_not_found_msg;
use crate::error::AppError;
use crate::pagination::spec_limit;
use crate::pagination::spec_page;
use crate::pagination::spec_total_pages;
use crate::product_repository::ProductRepository;
use crate::transaction::transaction_response_of;
use crate::transaction::CreateTransactionRequest;
use crate::transaction::GetListTransactionQuery;
use crate::transaction::GetTransactionRequest;
use crate::transaction::ListTransactionResponse;
use crate::transaction::Transaction;
use crate::transaction::TransactionResponse;
use crate::transaction::UpdateTransactionRequest;
use crate::transaction_repository::filter_transactions;
use crate::transaction_repository::idx_active;
use crate::transaction_repository::spec_apply_update;
use crate::transaction_repository::spec_find_by_id;
use crate::transaction_repository::spec_new_transaction;
use crate::transaction_repository::spec_pid_filter;
use crate::transaction_repository::spec_soft_delete;
use crate::transaction_repository::spec_transaction_page;
use crate::transaction_repository::TransactionRepository;

verus! {

/// The outcome of a successful creation at instant `now`: the new row is
/// appended under the next id, referencing the requested product and
/// carrying that product's amounts as they are right now.
pub open spec fn transaction_created(
    pre: TransactionRepository,
    post: TransactionRepository,
    products: ProductRepository,
    req: CreateTransactionRequest,
    now: i64,
) -> bool {
    let product = crate::product_repository::spec_find_by_id(products@, req.product_id)->Some_0;
    let row = spec_new_transaction(
        req.product_id,
        product.hpp_amount,
        product.selling_amount,
        req.qty,
        pre.spec_next_id() as i32,
        now,
    );
    &&& post@ == pre@.push(row)
    &&& post.spec_next_id() == pre.spec_next_id() + 1
}

/// Creates a transaction at the given instant. A missing or deleted
/// product is NotFound and nothing is inserted; otherwise the row is
/// stored with the product's current amounts and no body is returned.
pub fn create_transaction_at(
    repo: &mut TransactionRepository,
    products: &ProductRepository,
    request: &CreateTransactionRequest,
    now: i64,
) -> (r: Result<(), AppError>)
    requires
        old(repo).wf(),
    ensures
        final(repo).wf(),
        match crate::product_repository::spec_find_by_id(products@, request.product_id) {
            Some(_) => {
                &&& old(repo).spec_next_id() < i32::MAX ==> {
                    &&& r is Ok
                    &&& transaction_created(*old(repo), *final(repo), *products, *request, now)
                }
                &&& old(repo).spec_next_id() == i32::MAX ==> {
                    &&& r matches Err(AppError::DatabaseError(m))
                    &&& final(repo)@ == old(repo)@
                }
            },
            None => {
                &&& r matches Err(AppError::NotFound(m)) && m@ == spec_not_found_msg(
                    "Product with id "@,
                    request.product_id,
                )
                &&& final(repo)@ == old(repo)@
            },
        },
{
    let product = match products.find_by_id(request.product_id) {
        Some(p) => p,
        None => {
            return Err(
                AppError::NotFound(
                    crate::error::entity_not_found("Product with id ", request.product_id),
                ),
            );
        },
    };
    repo.create(request.product_id, product.hpp_amount, product.selling_amount, request.qty, now)
}

/// Creates a transaction at the current instant; the stored row
/// snapshots the product's amounts as of this call.
pub fn create_transaction(
    repo: &mut TransactionRepository,
    products: &ProductRepository,
    request: &CreateTransactionRequest,
) -> (r: Result<(), AppError>)
    requires
        old(repo).wf(),
    ensures
        final(repo).wf(),
        match crate::product_repository::spec_find_by_id(products@, request.product_id) {
            Some(_) => {
                &&& old(repo).spec_next_id() < i32::MAX ==> {
                    &&& r is Ok
                    &&& exists|now: i64|
                        #[trigger] transaction_created(
                            *old(repo),
                            *final(repo),
                            *products,
                            *request,
                            now,
                        )
                }
                &&& old(repo).spec_next_id() == i32::MAX ==> {
                    &&& r matches Err(AppError::DatabaseError(m))
                    &&& final(repo)@ == old(repo)@
                }
            },
            None => {
                &&& r matches Err(AppError::NotFound(m)) && m@ == spec_not_found_msg(
                    "Product with id "@,
                    request.product_id,
                )
                &&& final(repo)@ == old(repo)@
            },
        },
{
    let now = now_millis();
    let r = create_transaction_at(repo, products, request, now);
    proof {
        if crate::product_repository::spec_find_by_id(products@, request.product_id) is Some
            && old(repo).spec_next_id() < i32::MAX {
            assert(transaction_created(*old(repo), *repo, *products, *request, now));
        }
    }
    r
}

/// Returns the active transaction with the requested id, or NotFound.
pub fn get_transaction(repo: &TransactionRepository, request: &GetTransactionRequest) -> (r:
    Result<TransactionResponse, AppError>)
    ensures
        match spec_find_by_id(repo@, request.id) {
            Some(t) => r == Ok::<TransactionResponse, AppError>(transaction_response_of(t)),
            None => r matches Err(AppError::NotFound(m)) && m@ == spec_not_found_msg(
                "Transaction with id "@,
                request.id,
            ),
        },
{
    match repo.find_by_id(request.id) {
        Some(t) => Ok(TransactionResponse::from(t)),
        None => Err(
            AppError::NotFound(
                crate::error::entity_not_found("Transaction with id ", request.id),
            ),
        ),
    }
}

/// Lists one page of active transactions as response shapes.
pub fn list_transactions(repo: &TransactionRepository, query: GetListTransactionQuery) -> (r:
    Result<ListTransactionResponse, AppError>)
    ensures
        r matches Ok(resp) && {
            &&& resp.data@ == spec_transaction_page(repo@, query).map_values(
                |m: Transaction| transaction_response_of(m),
            )
            &&& resp.total == filter_transactions(repo@, spec_pid_filter(query.product_id)).len()
            &&& resp.page == spec_page(query.page)
            &&& resp.limit == spec_limit(query.limit)
            &&& resp.total_pages == spec_total_pages(resp.total as int, resp.limit as int)
        },
{
    match repo.find_with_pagination(&query) {
        Ok(pr) => Ok(ListTransactionResponse::from_result(pr)),
        Err(e) => Err(e),
    }
}

/// The outcome of a successful update at instant `now`.
pub open spec fn transaction_updated(
    pre: TransactionRepository,
    post: TransactionRepository,
    r: Result<TransactionResponse, AppError>,
    id: i32,
    req: UpdateTransactionRequest,
    now: i64,
) -> bool {
    let t = spec_find_by_id(pre@, id)->Some_0;
    let updated = spec_apply_update(t, req, now);
    &&& post@ == pre@.update(idx_active(pre@, id), updated)
    &&& r == Ok::<TransactionResponse, AppError>(transaction_response_of(updated))
}

/// Updates the supplied fields of an active transaction at the given
/// instant; NotFound when the row is missing or deleted. The amounts are
/// whatever the caller supplies: no re-snapshot from the product.
pub fn update_transaction_at(
    repo: &mut TransactionRepository,
    id: i32,
    request: &UpdateTransactionRequest,
    now: i64,
) -> (r: Result<TransactionResponse, AppError>)
    requires
        old(repo).wf(),
    ensures
        final(repo).wf(),
        match spec_find_by_id(old(repo)@, id) {
            Some(t) => transaction_updated(*old(repo), *final(repo), r, id, *request, now),
            None => {
                &&& r matches Err(AppError::NotFound(m)) && m@ == spec_not_found_msg(
                    "Transaction with id "@,
                    id,
                )
                &&& final(repo)@ == old(repo)@
            },
        },
{
    match repo.find_by_id(id) {
        Some(_) => {},
        None => {
            return Err(
                AppError::NotFound(crate::error::entity_not_found("Transaction with id ", id)),
            );
        },
    }
    match repo.update(id, request, now) {
        Ok(t) => Ok(TransactionResponse::from(t)),
        Err(e) => Err(e),
    }
}

/// Updates a transaction at the current instant, refreshing
/// `updated_at`.
pub fn update_transaction(
    repo: &mut TransactionRepository,
    id: i32,
    request: &UpdateTransactionRequest,
) -> (r: Result<TransactionResponse, AppError>)
    requires
        old(repo).wf(),
    ensures
        final(repo).wf(),
        match spec_find_by_id(old(repo)@, id) {
            Some(t) => exists|now: i64|
                #[trigger] transaction_updated(*old(repo), *final(repo), r, id, *request, now),
            None => {
                &&& r matches Err(AppError::NotFound(m)) && m@ == spec_not_found_msg(
                    "Transaction with id "@,
                    id,
                )
                &&& final(repo)@ == old(repo)@
            },
        },
{
    let now = now_millis();
    let r = update_transaction_at(repo, id, request, now);
    proof {
        if spec_find_by_id(old(repo)@, id) is Some {
            assert(transaction_updated(*old(repo), *repo, r, id, *request, now));
        }
    }
    r
}

/// Soft-deletes an active transaction at the given instant; NotFound
/// when the row is missing or already deleted.
pub fn delete_transaction_at(repo: &mut TransactionRepository, id: i32, now: i64) -> (r: Result<
    (),
    AppError,
>)
    requires
        old(repo).wf(),
    ensures
        final(repo).wf(),
        match spec_find_by_id(old(repo)@, id) {
            Some(t) => {
                &&& final(repo)@ == old(repo)@.update(
                    idx_active(old(repo)@, id),
                    spec_soft_delete(t, now),
                )
                &&& r is Ok
            },
            None => {
                &&& r matches Err(AppError::NotFound(m)) && m@ == spec_not_found_msg(
                    "Transaction with id "@,
                    id,
                )
                &&& final(repo)@ == old(repo)@
            },
        },
{
    match repo.find_by_id(id) {
        Some(_) => {},
        None => {
            return Err(
                AppError::NotFound(crate::error::entity_not_found("Transaction with id ", id)),
            );
        },
    }
    repo.delete(id, now)
}

/// Soft-deletes a transaction at the current instant.
pub fn delete_transaction(repo: &mut TransactionRepository, id: i32) -> (r: Result<(), AppError>)
    requires
        old(repo).wf(),
    ensures
        final(repo).wf(),
        match spec_find_by_id(old(repo)@, id) {
            Some(t) => {
                &&& r is Ok
                &&& exists|now: i64| final(repo)@ == old(repo)@.update(
                    idx_active(old(repo)@, id),
                    #[trigger] spec_soft_delete(t, now),
                )
            },
            None => {
                &&& r matches Err(AppError::NotFound(m)) && m@ == spec_not_found_msg(
                    "Transaction with id "@,
                    id,
                )
                &&& final(repo)@ == old(repo)@
            },
        },
{
    let now = now_millis();
    delete_transaction_at(repo, id, now)
}

} // verus!
