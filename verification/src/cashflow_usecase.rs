//! The cashflow usecase: the business rules over the cashflow
//! repository. There is no natural unique key, so creation returns the
//! most recent stored row as the created entity, exactly as the store
//! would answer an id-descending query of size one.

use vstd::prelude::*;

use crate::cashflow::cashflow_response_of;
use crate::cashflow::Cashflow;
use crate::cashflow::CashflowResponse;
use crate::cashflow::CreateCashflowRequest;
use crate::cashflow::GetCashflowRequest;
use crate::cashflow::GetListCashflowQuery;
use crate::cashflow::ListCashflowResponse;
use crate::cashflow::UpdateCashflowRequest;
use crate::cashflow_repository::filter_cashflows;
use crate::cashflow_repository::idx_active;
use crate::cashflow_repository::spec_apply_update;
use crate::cashflow_repository::spec_cashflow_page;
use crate::cashflow_repository::spec_find_by_id;
use crate::cashflow_repository::spec_new_cashflow;
use crate::cashflow_repository::spec_soft_delete;
use crate::cashflow_repository::CashflowRepository;
use crate::clock::now_millis;
use crate::error::spec_not_found_msg;
use crate::error::AppError;
use crate::pagination::spec_limit;
use crate::pagination::spec_page;
use crate::pagination::spec_total_pages;
use crate::text::spec_opt_trimmed;

verus! {

/// The outcome of a successful creation at instant `now`: the new row is
/// appended under the next id, both timestamps equal `now`, and that
/// row, re-read as the most recent one, is returned.
pub open spec fn cashflow_created(
    pre: CashflowRepository,
    post: CashflowRepository,
    r: Result<CashflowResponse, AppError>,
    req: CreateCashflowRequest,
    now: i64,
) -> bool {
    let row = spec_new_cashflow(req, pre.spec_next_id() as i32, now);
    &&& post@ == pre@.push(row)
    &&& post.spec_next_id() == pre.spec_next_id() + 1
    &&& r == Ok::<CashflowResponse, AppError>(cashflow_response_of(row))
}

/// Creates a cashflow record at the given instant and returns the row as
/// re-read from the store: the active row with the greatest id, which is
/// the one just stored.
pub fn create_cashflow_at(
    repo: &mut CashflowRepository,
    request: &CreateCashflowRequest,
    now: i64,
) -> (r: Result<CashflowResponse, AppError>)
    requires
        old(repo).wf(),
    ensures
        final(repo).wf(),
        old(repo).spec_next_id() < i32::MAX ==> cashflow_created(
            *old(repo),
            *final(repo),
            r,
            *request,
            now,
        ),
        old(repo).spec_next_id() == i32::MAX ==> {
            &&& r matches Err(AppError::DatabaseError(m))
            &&& final(repo)@ == old(repo)@
        },
{
    match repo.create(request, now) {
        Ok(()) => {},
        Err(e) => {
            return Err(e);
        },
    }
    let created = repo.find_latest();
    proof {
        let row = spec_new_cashflow(*request, old(repo).spec_next_id() as i32, now);
        assert(repo@.last() == row);
    }
    match created {
        Some(c) => Ok(CashflowResponse::from(c)),
        None => Err(AppError::InternalError),
    }
}

/// Creates a cashflow record at the current instant; the stored row's
/// `created_at` and `updated_at` are both that instant and the row is
/// not deleted.
pub fn create_cashflow(repo: &mut CashflowRepository, request: &CreateCashflowRequest) -> (r:
    Result<CashflowResponse, AppError>)
    requires
        old(repo).wf(),
    ensures
        final(repo).wf(),
        old(repo).spec_next_id() < i32::MAX ==> exists|now: i64|
            #[trigger] cashflow_created(*old(repo), *final(repo), r, *request, now),
        old(repo).spec_next_id() == i32::MAX ==> {
            &&& r matches Err(AppError::DatabaseError(m))
            &&& final(repo)@ == old(repo)@
        },
{
    let now = now_millis();
    let r = create_cashflow_at(repo, request, now);
    proof {
        if old(repo).spec_next_id() < i32::MAX {
            assert(cashflow_created(*old(repo), *repo, r, *request, now));
        }
    }
    r
}

/// Returns the active cashflow record with the requested id, or
/// NotFound.
pub fn get_cashflow(repo: &CashflowRepository, request: &GetCashflowRequest) -> (r: Result<
    CashflowResponse,
    AppError,
>)
    ensures
        match spec_find_by_id(repo@, request.id) {
            Some(c) => r == Ok::<CashflowResponse, AppError>(cashflow_response_of(c)),
            None => r matches Err(AppError::NotFound(m)) && m@ == spec_not_found_msg(
                "Cashflow with id "@,
                request.id,
            ),
        },
{
    match repo.find_by_id(request.id) {
        Some(c) => Ok(CashflowResponse::from(c)),
        None => Err(
            AppError::NotFound(crate::error::entity_not_found("Cashflow with id ", request.id)),
        ),
    }
}

/// Lists one page of active cashflow records as response shapes.
pub fn list_cashflows(repo: &CashflowRepository, query: GetListCashflowQuery) -> (r: Result<
    ListCashflowResponse,
    AppError,
>)
    ensures
        r matches Ok(resp) && {
            &&& resp.data@ == spec_cashflow_page(repo@, query).map_values(
                |m: Cashflow| cashflow_response_of(m),
            )
            &&& resp.total == filter_cashflows(
                repo@,
                spec_opt_trimmed(query.search),
                spec_opt_trimmed(query.cashflow_type),
                spec_opt_trimmed(query.recap_type),
            ).len()
            &&& resp.page == spec_page(query.page)
            &&& resp.limit == spec_limit(query.limit)
            &&& resp.total_pages == spec_total_pages(resp.total as int, resp.limit as int)
        },
{
    match repo.find_with_pagination(&query) {
        Ok(pr) => Ok(ListCashflowResponse::from_result(pr)),
        Err(e) => Err(e),
    }
}

/// The outcome of a successful update at instant `now`.
pub open spec fn cashflow_updated(
    pre: CashflowRepository,
    post: CashflowRepository,
    r: Result<CashflowResponse, AppError>,
    id: i32,
    req: UpdateCashflowRequest,
    now: i64,
) -> bool {
    let c = spec_find_by_id(pre@, id)->Some_0;
    let updated = spec_apply_update(c, req, now);
    &&& post@ == pre@.update(idx_active(pre@, id), updated)
    &&& r == Ok::<CashflowResponse, AppError>(cashflow_response_of(updated))
}

/// Updates the supplied fields of an active cashflow record at the given
/// instant; NotFound when the row is missing or deleted.
pub fn update_cashflow_at(
    repo: &mut CashflowRepository,
    id: i32,
    request: &UpdateCashflowRequest,
    now: i64,
) -> (r: Result<CashflowResponse, AppError>)
    requires
        old(repo).wf(),
    ensures
        final(repo).wf(),
        match spec_find_by_id(old(repo)@, id) {
            Some(c) => cashflow_updated(*old(repo), *final(repo), r, id, *request, now),
            None => {
                &&& r matches Err(AppError::NotFound(m)) && m@ == spec_not_found_msg(
                    "Cashflow with id "@,
                    id,
                )
                &&& final(repo)@ == old(repo)@
            },
        },
{
    match repo.find_by_id(id) {
        Some(_) => {},
        None => {
            return Err(
                AppError::NotFound(crate::error::entity_not_found("Cashflow with id ", id)),
            );
        },
    }
    match repo.update(id, request, now) {
        Ok(c) => Ok(CashflowResponse::from(c)),
        Err(e) => Err(e),
    }
}

/// Updates a cashflow record at the current instant, refreshing
/// `updated_at`.
pub fn update_cashflow(repo: &mut CashflowRepository, id: i32, request: &UpdateCashflowRequest) -> (
    r: Result<CashflowResponse, AppError>)
    requires
        old(repo).wf(),
    ensures
        final(repo).wf(),
        match spec_find_by_id(old(repo)@, id) {
            Some(c) => exists|now: i64|
                #[trigger] cashflow_updated(*old(repo), *final(repo), r, id, *request, now),
            None => {
                &&& r matches Err(AppError::NotFound(m)) && m@ == spec_not_found_msg(
                    "Cashflow with id "@,
                    id,
                )
                &&& final(repo)@ == old(repo)@
            },
        },
{
    let now = now_millis();
    let r = update_cashflow_at(repo, id, request, now);
    proof {
        if spec_find_by_id(old(repo)@, id) is Some {
            assert(cashflow_updated(*old(repo), *repo, r, id, *request, now));
        }
    }
    r
}

/// Soft-deletes an active cashflow record at the given instant; NotFound
/// when the row is missing or already deleted.
pub fn delete_cashflow_at(repo: &mut CashflowRepository, id: i32, now: i64) -> (r: Result<
    (),
    AppError,
>)
    requires
        old(repo).wf(),
    ensures
        final(repo).wf(),
        match spec_find_by_id(old(repo)@, id) {
            Some(c) => {
                &&& final(repo)@ == old(repo)@.update(
                    idx_active(old(repo)@, id),
                    spec_soft_delete(c, now),
                )
                &&& r is Ok
            },
            None => {
                &&& r matches Err(AppError::NotFound(m)) && m@ == spec_not_found_msg(
                    "Cashflow with id "@,
                    id,
                )
                &&& final(repo)@ == old(repo)@
            },
        },
{
    match repo.find_by_id(id) {
        Some(_) => {},
        None => {
            return Err(
                AppError::NotFound(crate::error::entity_not_found("Cashflow with id ", id)),
            );
        },
    }
    repo.delete(id, now)
}

/// Soft-deletes a cashflow record at the current instant.
pub fn delete_cashflow(repo: &mut CashflowRepository, id: i32) -> (r: Result<(), AppError>)
    requires
        old(repo).wf(),
    ensures
        final(repo).wf(),
        match spec_find_by_id(old(repo)@, id) {
            Some(c) => {
                &&& r is Ok
                &&& exists|now: i64| final(repo)@ == old(repo)@.update(
                    idx_active(old(repo)@, id),
                    #[trigger] spec_soft_delete(c, now),
                )
            },
            None => {
                &&& r matches Err(AppError::NotFound(m)) && m@ == spec_not_found_msg(
                    "Cashflow with id "@,
                    id,
                )
                &&& final(repo)@ == old(repo)@
            },
        },
{
    let now = now_millis();
    delete_cashflow_at(repo, id, now)
}

} // verus!
