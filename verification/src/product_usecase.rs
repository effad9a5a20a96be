//! The product usecase: the business rules over the product repository.
//! Creation enforces case-sensitive name uniqueness among active rows and
//! returns the stored row re-read by name; update re-checks uniqueness
//! when the name changes; get, update and delete report NotFound for a
//! missing or soft-deleted row.

use vstd::prelude::*;

use crate::clock::now_millis;
use crate::error::spec_not_found_msg;
use crate::error::AppError;
use crate::pagination::spec_limit;
use crate::pagination::spec_page;
use crate::pagination::spec_total_pages;
use crate::product::product_response_of;
use crate::product::CreateProductRequest;
use crate::product::GetListProductQuery;
use crate::product::GetProductRequest;
use crate::product::ListProductResponse;
use crate::product::Product;
use crate::product::ProductResponse;
use crate::product::UpdateProductRequest;
use crate::product_repository::filter_products;
use crate::product_repository::idx_active;
use crate::product_repository::lemma_idx_active_found;
use crate::product_repository::lemma_idx_active_name_at;
use crate::product_repository::lemma_idx_active_name_none;
use crate::product_repository::spec_apply_update;
use crate::product_repository::spec_find_by_id;
use crate::product_repository::spec_find_by_name;
use crate::product_repository::spec_new_product;
use crate::product_repository::spec_product_page;
use crate::product_repository::spec_soft_delete;
use crate::product_repository::ProductRepository;
use crate::text::spec_opt_trimmed;

verus! {

/// The outcome of a successful creation at instant `now`: the new row is
/// appended under the next id, both timestamps equal `now`, and the row
/// itself is returned.
pub open spec fn product_created(
    pre: ProductRepository,
    post: ProductRepository,
    r: Result<ProductResponse, AppError>,
    req: CreateProductRequest,
    now: i64,
) -> bool {
    let row = spec_new_product(req, pre.spec_next_id() as i32, now);
    &&& post@ == pre@.push(row)
    &&& post.spec_next_id() == pre.spec_next_id() + 1
    &&& r == Ok::<ProductResponse, AppError>(product_response_of(row))
}

/// Creates a product at the given instant. Rejects a name an active row
/// already bears; otherwise stores the row and returns it, as re-read
/// from the store by its unique name.
pub fn create_product_at(
    repo: &mut ProductRepository,
    request: &CreateProductRequest,
    now: i64,
) -> (r: Result<ProductResponse, AppError>)
    requires
        old(repo).wf(),
    ensures
        final(repo).wf(),
        spec_find_by_name(old(repo)@, request.name@) is Some ==> {
            &&& r matches Err(AppError::BadRequest(m)) && m@
                == "Product with this name already exists"@
            &&& final(repo)@ == old(repo)@
        },
        spec_find_by_name(old(repo)@, request.name@) is None && old(repo).spec_next_id()
            < i32::MAX ==> product_created(*old(repo), *final(repo), r, *request, now),
        spec_find_by_name(old(repo)@, request.name@) is None && old(repo).spec_next_id()
            == i32::MAX ==> {
            &&& r matches Err(AppError::DatabaseError(m))
            &&& final(repo)@ == old(repo)@
        },
{
    if let Some(_) = repo.find_by_name(request.name.as_str()) {
        return Err(AppError::BadRequest("Product with this name already exists".to_owned()));
    }
    proof {
        crate::product_repository::lemma_idx_active_name_range(repo@, request.name@);
        lemma_idx_active_name_none(repo@, request.name@);
    }
    match repo.create(request, now) {
        Ok(()) => {},
        Err(e) => {
            return Err(e);
        },
    }
    let created = repo.find_by_name(request.name.as_str());
    proof {
        let rows = repo@;
        let prev = old(repo)@;
        let row = spec_new_product(*request, old(repo).spec_next_id() as i32, now);
        assert(rows == prev.push(row));
        assert(rows[prev.len() as int] == row);
        assert(row.name@ == request.name@);
        assert forall|k: int|
            0 <= k < prev.len() implies !(rows[k].name@ == request.name@
            && rows[k].is_active()) by {
            assert(rows[k] == prev[k]);
        }
        lemma_idx_active_name_at(rows, request.name@, prev.len() as int);
    }
    match created {
        Some(p) => Ok(ProductResponse::from(p)),
        None => Err(AppError::InternalError),
    }
}

/// Creates a product at the current instant; the stored row's
/// `created_at` and `updated_at` are both that instant and the row is
/// not deleted.
pub fn create_product(repo: &mut ProductRepository, request: &CreateProductRequest) -> (r: Result<
    ProductResponse,
    AppError,
>)
    requires
        old(repo).wf(),
    ensures
        final(repo).wf(),
        spec_find_by_name(old(repo)@, request.name@) is Some ==> {
            &&& r matches Err(AppError::BadRequest(m)) && m@
                == "Product with this name already exists"@
            &&& final(repo)@ == old(repo)@
        },
        spec_find_by_name(old(repo)@, request.name@) is None && old(repo).spec_next_id()
            < i32::MAX ==> exists|now: i64|
            #[trigger] product_created(*old(repo), *final(repo), r, *request, now),
        spec_find_by_name(old(repo)@, request.name@) is None && old(repo).spec_next_id()
            == i32::MAX ==> {
            &&& r matches Err(AppError::DatabaseError(m))
            &&& final(repo)@ == old(repo)@
        },
{
    let now = now_millis();
    let r = create_product_at(repo, request, now);
    proof {
        if spec_find_by_name(old(repo)@, request.name@) is None && old(repo).spec_next_id()
            < i32::MAX {
            assert(product_created(*old(repo), *repo, r, *request, now));
        }
    }
    r
}

/// Returns the active product with the requested id, or NotFound.
pub fn get_product(repo: &ProductRepository, request: &GetProductRequest) -> (r: Result<
    ProductResponse,
    AppError,
>)
    ensures
        match spec_find_by_id(repo@, request.id) {
            Some(p) => r == Ok::<ProductResponse, AppError>(product_response_of(p)),
            None => r matches Err(AppError::NotFound(m)) && m@ == spec_not_found_msg(
                "Product with id "@,
                request.id,
            ),
        },
{
    match repo.find_by_id(request.id) {
        Some(p) => Ok(ProductResponse::from(p)),
        None => Err(
            AppError::NotFound(crate::error::entity_not_found("Product with id ", request.id)),
        ),
    }
}

/// Lists one page of active products as response shapes.
pub fn list_products(repo: &ProductRepository, query: GetListProductQuery) -> (r: Result<
    ListProductResponse,
    AppError,
>)
    ensures
        r matches Ok(resp) && {
            &&& resp.data@ == spec_product_page(repo@, query).map_values(
                |m: Product| product_response_of(m),
            )
            &&& resp.total == filter_products(repo@, spec_opt_trimmed(query.search)).len()
            &&& resp.page == spec_page(query.page)
            &&& resp.limit == spec_limit(query.limit)
            &&& resp.total_pages == spec_total_pages(resp.total as int, resp.limit as int)
        },
{
    match repo.find_with_pagination(&query) {
        Ok(pr) => Ok(ListProductResponse::from_result(pr)),
        Err(e) => Err(e),
    }
}

/// The outcome of a successful update at instant `now`.
pub open spec fn product_updated(
    pre: ProductRepository,
    post: ProductRepository,
    r: Result<ProductResponse, AppError>,
    id: i32,
    req: UpdateProductRequest,
    now: i64,
) -> bool {
    let p = spec_find_by_id(pre@, id)->Some_0;
    let updated = spec_apply_update(p, req, now);
    &&& post@ == pre@.update(idx_active(pre@, id), updated)
    &&& r == Ok::<ProductResponse, AppError>(product_response_of(updated))
}

/// Whether the requested new name collides with a different active row.
pub open spec fn product_name_conflict(
    rows: Seq<Product>,
    current: Product,
    req: UpdateProductRequest,
) -> bool {
    match req.name {
        Some(n) => n@ != current.name@ && spec_find_by_name(rows, n@) is Some,
        None => false,
    }
}

/// Updates the supplied fields of an active product at the given
/// instant. A missing or deleted row is NotFound; a supplied name that
/// differs from the current one and is already borne by an active row is
/// rejected; otherwise the row is updated and returned.
pub fn update_product_at(
    repo: &mut ProductRepository,
    id: i32,
    request: &UpdateProductRequest,
    now: i64,
) -> (r: Result<ProductResponse, AppError>)
    requires
        old(repo).wf(),
    ensures
        final(repo).wf(),
        match spec_find_by_id(old(repo)@, id) {
            Some(p) => {
                if product_name_conflict(old(repo)@, p, *request) {
                    &&& r matches Err(AppError::BadRequest(m)) && m@
                        == "Product with this name already exists"@
                    &&& final(repo)@ == old(repo)@
                } else {
                    product_updated(*old(repo), *final(repo), r, id, *request, now)
                }
            },
            None => {
                &&& r matches Err(AppError::NotFound(m)) && m@ == spec_not_found_msg(
                    "Product with id "@,
                    id,
                )
                &&& final(repo)@ == old(repo)@
            },
        },
{
    let existing = match repo.find_by_id(id) {
        Some(p) => p,
        None => {
            return Err(
                AppError::NotFound(crate::error::entity_not_found("Product with id ", id)),
            );
        },
    };
    if let Some(new_name) = &request.name {
        if !crate::text::str_eq(new_name.as_str(), existing.name.as_str()) {
            if let Some(_) = repo.find_by_name(new_name.as_str()) {
                return Err(
                    AppError::BadRequest("Product with this name already exists".to_owned()),
                );
            }
            proof {
                crate::product_repository::lemma_idx_active_name_range(repo@, new_name@);
                lemma_idx_active_name_none(repo@, new_name@);
            }
        }
    }
    proof {
        lemma_idx_active_found(repo@, id);
        if request.name is Some {
            let n = request.name->Some_0;
            if n@ == existing.name@ {
                let ii = idx_active(repo@, id);
                assert forall|k: int|
                    0 <= k < repo@.len() && repo@[k].is_active() && repo@[k].id != id
                    implies repo@[k].name@ != n@ by {
                    if k != ii {
                        assert(repo@[k].name@ != repo@[ii].name@);
                    }
                }
            }
        }
    }
    match repo.update(id, request, now) {
        Ok(p) => Ok(ProductResponse::from(p)),
        Err(e) => Err(e),
    }
}

/// Updates a product at the current instant, refreshing `updated_at`.
pub fn update_product(repo: &mut ProductRepository, id: i32, request: &UpdateProductRequest) -> (r:
    Result<ProductResponse, AppError>)
    requires
        old(repo).wf(),
    ensures
        final(repo).wf(),
        match spec_find_by_id(old(repo)@, id) {
            Some(p) => {
                if product_name_conflict(old(repo)@, p, *request) {
                    &&& r matches Err(AppError::BadRequest(m)) && m@
                        == "Product with this name already exists"@
                    &&& final(repo)@ == old(repo)@
                } else {
                    exists|now: i64|
                        #[trigger] product_updated(*old(repo), *final(repo), r, id, *request, now)
                }
            },
            None => {
                &&& r matches Err(AppError::NotFound(m)) && m@ == spec_not_found_msg(
                    "Product with id "@,
                    id,
                )
                &&& final(repo)@ == old(repo)@
            },
        },
{
    let now = now_millis();
    let r = update_product_at(repo, id, request, now);
    proof {
        let found = spec_find_by_id(old(repo)@, id);
        if found is Some && !product_name_conflict(old(repo)@, found->Some_0, *request) {
            assert(product_updated(*old(repo), *repo, r, id, *request, now));
        }
    }
    r
}

/// Soft-deletes an active product at the given instant; NotFound when
/// the row is missing or already deleted.
pub fn delete_product_at(repo: &mut ProductRepository, id: i32, now: i64) -> (r: Result<
    (),
    AppError,
>)
    requires
        old(repo).wf(),
    ensures
        final(repo).wf(),
        match spec_find_by_id(old(repo)@, id) {
            Some(p) => {
                &&& final(repo)@ == old(repo)@.update(
                    idx_active(old(repo)@, id),
                    spec_soft_delete(p, now),
                )
                &&& r is Ok
            },
            None => {
                &&& r matches Err(AppError::NotFound(m)) && m@ == spec_not_found_msg(
                    "Product with id "@,
                    id,
                )
                &&& final(repo)@ == old(repo)@
            },
        },
{
    match repo.find_by_id(id) {
        Some(_) => {},
        None => {
            return Err(
                AppError::NotFound(crate::error::entity_not_found("Product with id ", id)),
            );
        },
    }
    repo.delete(id, now)
}

/// Soft-deletes a product at the current instant.
pub fn delete_product(repo: &mut ProductRepository, id: i32) -> (r: Result<(), AppError>)
    requires
        old(repo).wf(),
    ensures
        final(repo).wf(),
        match spec_find_by_id(old(repo)@, id) {
            Some(p) => {
                &&& r is Ok
                &&& exists|now: i64| final(repo)@ == old(repo)@.update(
                    idx_active(old(repo)@, id),
                    #[trigger] spec_soft_delete(p, now),
                )
            },
            None => {
                &&& r matches Err(AppError::NotFound(m)) && m@ == spec_not_found_msg(
                    "Product with id "@,
                    id,
                )
                &&& final(repo)@ == old(repo)@
            },
        },
{
    let now = now_millis();
    delete_product_at(repo, id, now)
}

} // verus!
