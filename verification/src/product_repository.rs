//! The product repository: an in-memory table of product rows with
//! auto-incremented ids, soft-delete visibility, lookup by id and by
//! name, partial update, and filtered, ordered, paginated listing.

use vstd::prelude::*;

use crate::error::entity_not_found;
use crate::error::spec_not_found_msg;
use crate::error::AppError;
use crate::pagination::is_desc;
use crate::pagination::limit_param;
use crate::pagination::opt_i64_lt;
use crate::pagination::opt_lt;
use crate::pagination::page_bounds;
use crate::pagination::page_param;
use crate::pagination::spec_is_desc;
use crate::pagination::spec_limit;
use crate::pagination::spec_page;
use crate::pagination::spec_page_end;
use crate::pagination::spec_page_start;
use crate::pagination::spec_total_pages;
use crate::pagination::total_pages;
use crate::pagination::PaginatedResult;
use crate::product::CreateProductRequest;
use crate::product::GetListProductQuery;
use crate::product::Product;
use crate::product::UpdateProductRequest;
use crate::text::chars_eq_ci;
use crate::text::contains_seq;
use crate::text::contains_substr;
use crate::text::eq_ignore_case;
use crate::text::lex_lt;
use crate::text::opt_trimmed;
use crate::text::spec_opt_trimmed;
use crate::text::str_lt;

verus! {

/// The first index of an active row with the given id, or -1.
pub open spec fn idx_active(rows: Seq<Product>, id: i32) -> int
    decreases rows.len(),
{
    if rows.len() == 0 {
        -1
    } else if rows[0].id == id && rows[0].is_active() {
        0
    } else {
        let t = idx_active(rows.drop_first(), id);
        if t == -1 {
            -1
        } else {
            t + 1
        }
    }
}

/// The active row with the given id, when one exists.
pub open spec fn spec_find_by_id(rows: Seq<Product>, id: i32) -> Option<Product> {
    if idx_active(rows, id) >= 0 {
        Some(rows[idx_active(rows, id)])
    } else {
        None
    }
}

/// `idx_active` answers exactly the first match of a left-to-right scan.
pub proof fn lemma_idx_active_at(rows: Seq<Product>, id: i32, i: int)
    requires
        0 <= i <= rows.len(),
        forall|k: int| 0 <= k < i ==> !(rows[k].id == id && rows[k].is_active()),
        i < rows.len() ==> rows[i].id == id && rows[i].is_active(),
    ensures
        idx_active(rows, id) == if i == rows.len() {
            -1int
        } else {
            i
        },
    decreases rows.len(),
{
    if rows.len() == 0 {
    } else if i == 0 {
        if rows.len() > 0 && !(rows[0].id == id && rows[0].is_active()) {
            lemma_idx_active_at(rows.drop_first(), id, 0);
        }
    } else {
        lemma_idx_active_at(rows.drop_first(), id, i - 1);
    }
}

/// Whenever `idx_active` finds an index, the row there is the active row
/// with that id.
pub proof fn lemma_idx_active_found(rows: Seq<Product>, id: i32)
    requires
        idx_active(rows, id) >= 0,
    ensures
        idx_active(rows, id) < rows.len(),
        rows[idx_active(rows, id)].id == id,
        rows[idx_active(rows, id)].is_active(),
    decreases rows.len(),
{
    if rows.len() > 0 && !(rows[0].id == id && rows[0].is_active()) {
        lemma_idx_active_found(rows.drop_first(), id);
    }
}

/// The index is -1 or inside the sequence.
pub proof fn lemma_idx_active_range(rows: Seq<Product>, id: i32)
    ensures
        idx_active(rows, id) == -1 || 0 <= idx_active(rows, id) < rows.len(),
    decreases rows.len(),
{
    if rows.len() > 0 && !(rows[0].id == id && rows[0].is_active()) {
        lemma_idx_active_range(rows.drop_first(), id);
    }
}

/// A search that found nothing means no row matches.
pub proof fn lemma_idx_active_none(rows: Seq<Product>, id: i32)
    requires
        idx_active(rows, id) == -1,
    ensures
        forall|k: int| 0 <= k < rows.len() ==> !(rows[k].id == id && rows[k].is_active()),
    decreases rows.len(),
{
    if rows.len() > 0 {
        lemma_idx_active_range(rows.drop_first(), id);
        lemma_idx_active_none(rows.drop_first(), id);
        assert forall|k: int|
            0 <= k < rows.len() implies !(rows[k].id == id && rows[k].is_active()) by {
            if k > 0 {
                assert(rows.drop_first()[k - 1] == rows[k]);
            }
        }
    }
}

/// The first index of an active row with the given name, or -1.
pub open spec fn idx_active_name(rows: Seq<Product>, name: Seq<char>) -> int
    decreases rows.len(),
{
    if rows.len() == 0 {
        -1
    } else if rows[0].name@ == name && rows[0].is_active() {
        0
    } else {
        let t = idx_active_name(rows.drop_first(), name);
        if t == -1 {
            -1
        } else {
            t + 1
        }
    }
}

/// The active row with the given name, when one exists.
pub open spec fn spec_find_by_name(rows: Seq<Product>, name: Seq<char>) -> Option<Product> {
    if idx_active_name(rows, name) >= 0 {
        Some(rows[idx_active_name(rows, name)])
    } else {
        None
    }
}

/// `idx_active_name` answers exactly the first match of a scan.
pub proof fn lemma_idx_active_name_at(rows: Seq<Product>, name: Seq<char>, i: int)
    requires
        0 <= i <= rows.len(),
        forall|k: int| 0 <= k < i ==> !(rows[k].name@ == name && rows[k].is_active()),
        i < rows.len() ==> rows[i].name@ == name && rows[i].is_active(),
    ensures
        idx_active_name(rows, name) == if i == rows.len() {
            -1int
        } else {
            i
        },
    decreases rows.len(),
{
    if rows.len() == 0 {
    } else if i == 0 {
        if rows.len() > 0 && !(rows[0].name@ == name && rows[0].is_active()) {
            lemma_idx_active_name_at(rows.drop_first(), name, 0);
        }
    } else {
        lemma_idx_active_name_at(rows.drop_first(), name, i - 1);
    }
}

/// The index is -1 or inside the sequence.
pub proof fn lemma_idx_active_name_range(rows: Seq<Product>, name: Seq<char>)
    ensures
        idx_active_name(rows, name) == -1 || 0 <= idx_active_name(rows, name) < rows.len(),
    decreases rows.len(),
{
    if rows.len() > 0 && !(rows[0].name@ == name && rows[0].is_active()) {
        lemma_idx_active_name_range(rows.drop_first(), name);
    }
}

/// A name search that found nothing means no active row bears the name.
pub proof fn lemma_idx_active_name_none(rows: Seq<Product>, name: Seq<char>)
    requires
        idx_active_name(rows, name) == -1,
    ensures
        forall|k: int| 0 <= k < rows.len() ==> !(rows[k].name@ == name && rows[k].is_active()),
    decreases rows.len(),
{
    if rows.len() > 0 {
        lemma_idx_active_name_range(rows.drop_first(), name);
        lemma_idx_active_name_none(rows.drop_first(), name);
        assert forall|k: int|
            0 <= k < rows.len() implies !(rows[k].name@ == name && rows[k].is_active()) by {
            if k > 0 {
                assert(rows.drop_first()[k - 1] == rows[k]);
            }
        }
    }
}

/// The row a freshly accepted create request is stored as.
pub open spec fn spec_new_product(req: CreateProductRequest, id: i32, now: i64) -> Product {
    Product {
        id: id,
        name: req.name,
        hpp_amount: req.hpp_amount,
        selling_amount: req.selling_amount,
        created_at: Some(now),
        updated_at: Some(now),
        deleted_at: None,
    }
}

/// A row after a partial update: supplied fields replace the old ones and
/// `updated_at` is refreshed; everything else is untouched.
pub open spec fn spec_apply_update(p: Product, c: UpdateProductRequest, now: i64) -> Product {
    Product {
        id: p.id,
        name: match c.name {
            Some(n) => n,
            None => p.name,
        },
        hpp_amount: match c.hpp_amount {
            Some(v) => v,
            None => p.hpp_amount,
        },
        selling_amount: match c.selling_amount {
            Some(v) => v,
            None => p.selling_amount,
        },
        created_at: p.created_at,
        updated_at: Some(now),
        deleted_at: p.deleted_at,
    }
}

/// A row after soft deletion: both `deleted_at` and `updated_at` are set
/// to the deletion instant.
pub open spec fn spec_soft_delete(p: Product, now: i64) -> Product {
    Product {
        id: p.id,
        name: p.name,
        hpp_amount: p.hpp_amount,
        selling_amount: p.selling_amount,
        created_at: p.created_at,
        updated_at: Some(now),
        deleted_at: Some(now),
    }
}

/// The in-memory product table plus the next id the store will assign.
pub struct ProductRepository {
    rows: Vec<Product>,
    next_id: i32,
}

impl View for ProductRepository {
    type V = Seq<Product>;

    closed spec fn view(&self) -> Seq<Product> {
        self.rows@
    }
}

impl ProductRepository {
    /// The id the next accepted insert will be stored under.
    pub closed spec fn spec_next_id(&self) -> int {
        self.next_id as int
    }

    /// Well-formedness: ids are positive, strictly increasing in storage
    /// order and below the next id to assign, and no two active rows
    /// share a name.
    pub open spec fn wf(&self) -> bool {
        &&& 1 <= self.spec_next_id() <= i32::MAX
        &&& forall|i: int| 0 <= i < self@.len() ==> 1 <= #[trigger] self@[i].id < self.spec_next_id()
        &&& forall|i: int, j: int|
            0 <= i < j < self@.len() ==> #[trigger] self@[i].id < #[trigger] self@[j].id
        &&& forall|i: int, j: int|
            0 <= i < self@.len() && 0 <= j < self@.len() && i != j && self@[i].is_active()
                && self@[j].is_active() ==> #[trigger] self@[i].name@ != #[trigger] self@[j].name@
    }

    /// An empty table; ids start at 1.
    pub fn new() -> (r: Self)
        ensures
            r.wf(),
            r@ =~= Seq::<Product>::empty(),
            r.spec_next_id() == 1,
    {
        ProductRepository { rows: Vec::new(), next_id: 1 }
    }

    /// Inserts a new row built from the request, with both timestamps at
    /// `now` and no deletion mark. Fails only when the id space is
    /// exhausted, which models the store rejecting the insert.
    pub fn create(&mut self, req: &CreateProductRequest, now: i64) -> (r: Result<(), AppError>)
        requires
            old(self).wf(),
            forall|i: int|
                0 <= i < old(self)@.len() && old(self)@[i].is_active() ==> #[trigger] old(
                    self,
                )@[i].name@ != req.name@,
        ensures
            final(self).wf(),
            old(self).spec_next_id() < i32::MAX ==> {
                &&& r is Ok
                &&& final(self)@ == old(self)@.push(
                    spec_new_product(*req, old(self).spec_next_id() as i32, now),
                )
                &&& final(self).spec_next_id() == old(self).spec_next_id() + 1
            },
            old(self).spec_next_id() == i32::MAX ==> {
                &&& r matches Err(AppError::DatabaseError(m)) && m@ == "id space exhausted"@
                &&& final(self)@ == old(self)@
                &&& final(self).spec_next_id() == old(self).spec_next_id()
            },
    {
        if self.next_id == i32::MAX {
            return Err(AppError::DatabaseError("id space exhausted".to_owned()));
        }
        let row = Product {
            id: self.next_id,
            name: req.name.clone(),
            hpp_amount: req.hpp_amount,
            selling_amount: req.selling_amount,
            created_at: Some(now),
            updated_at: Some(now),
            deleted_at: None,
        };
        self.rows.push(row);
        self.next_id = self.next_id + 1;
        proof {
            assert(self@ =~= old(self)@.push(
                spec_new_product(*req, old(self).spec_next_id() as i32, now),
            ));
        }
        Ok(())
    }

    /// Looks up the active row with the given id.
    pub fn find_by_id(&self, id: i32) -> (r: Option<Product>)
        ensures
            r == spec_find_by_id(self@, id),
    {
        let n = self.rows.len();
        let mut i: usize = 0;
        while i < n
            invariant
                n == self@.len(),
                0 <= i <= n,
                forall|k: int| 0 <= k < i ==> !(self@[k].id == id && self@[k].is_active()),
            decreases n - i,
        {
            let row = &self.rows[i];
            if row.id == id && row.deleted_at.is_none() {
                proof {
                    lemma_idx_active_at(self@, id, i as int);
                }
                return Some(row.clone());
            }
            i = i + 1;
        }
        proof {
            lemma_idx_active_at(self@, id, n as int);
        }
        None
    }

    /// Looks up the active row whose name matches exactly,
    /// case-sensitively.
    pub fn find_by_name(&self, name: &str) -> (r: Option<Product>)
        ensures
            r == spec_find_by_name(self@, name@),
    {
        let n = self.rows.len();
        let mut i: usize = 0;
        while i < n
            invariant
                n == self@.len(),
                0 <= i <= n,
                forall|k: int| 0 <= k < i ==> !(self@[k].name@ == name@ && self@[k].is_active()),
            decreases n - i,
        {
            let row = &self.rows[i];
            if crate::text::str_eq(row.name.as_str(), name) && row.deleted_at.is_none() {
                proof {
                    lemma_idx_active_name_at(self@, name@, i as int);
                }
                return Some(row.clone());
            }
            i = i + 1;
        }
        proof {
            lemma_idx_active_name_at(self@, name@, n as int);
        }
        None
    }

    /// Applies the supplied fields to the active row with the given id,
    /// refreshing `updated_at`, and returns the updated row; reports
    /// NotFound when no active row has that id.
    pub fn update(&mut self, id: i32, changes: &UpdateProductRequest, now: i64) -> (r: Result<
        Product,
        AppError,
    >)
        requires
            old(self).wf(),
            changes.name matches Some(n) ==> forall|i: int|
                0 <= i < old(self)@.len() && old(self)@[i].is_active() && old(self)@[i].id != id
                    ==> #[trigger] old(self)@[i].name@ != n@,
        ensures
            final(self).wf(),
            final(self).spec_next_id() == old(self).spec_next_id(),
            match spec_find_by_id(old(self)@, id) {
                Some(p) => {
                    &&& final(self)@ == old(self)@.update(
                        idx_active(old(self)@, id),
                        spec_apply_update(p, *changes, now),
                    )
                    &&& r == Ok::<Product, AppError>(spec_apply_update(p, *changes, now))
                },
                None => {
                    &&& final(self)@ == old(self)@
                    &&& r matches Err(AppError::NotFound(m)) && m@ == spec_not_found_msg(
                        "Product with id "@,
                        id,
                    )
                },
            },
    {
        let n = self.rows.len();
        let mut i: usize = 0;
        while i < n
            invariant
                *self == *old(self),
                old(self).wf(),
                changes.name matches Some(nm) ==> forall|k: int|
                    0 <= k < old(self)@.len() && old(self)@[k].is_active() && old(self)@[k].id
                        != id ==> #[trigger] old(self)@[k].name@ != nm@,
                n == self@.len(),
                0 <= i <= n,
                forall|k: int| 0 <= k < i ==> !(self@[k].id == id && self@[k].is_active()),
            decreases n - i,
        {
            let hit = {
                let row = &self.rows[i];
                row.id == id && row.deleted_at.is_none()
            };
            if hit {
                proof {
                    lemma_idx_active_at(self@, id, i as int);
                }
                let old_row = self.rows.remove(i);
                let updated = Product {
                    id: old_row.id,
                    name: match &changes.name {
                        Some(nm) => nm.clone(),
                        None => old_row.name,
                    },
                    hpp_amount: match changes.hpp_amount {
                        Some(v) => v,
                        None => old_row.hpp_amount,
                    },
                    selling_amount: match changes.selling_amount {
                        Some(v) => v,
                        None => old_row.selling_amount,
                    },
                    created_at: old_row.created_at,
                    updated_at: Some(now),
                    deleted_at: old_row.deleted_at,
                };
                self.rows.insert(i, updated.clone());
                proof {
                    assert(self@ =~= old(self)@.update(
                        i as int,
                        spec_apply_update(old(self)@[i as int], *changes, now),
                    ));
                    assert forall|k: int| 0 <= k < self@.len() implies #[trigger] self@[k].id
                        == old(self)@[k].id by {}
                    assert forall|a: int, b: int|
                        0 <= a < self@.len() && 0 <= b < self@.len() && a != b
                            && self@[a].is_active() && self@[b].is_active() implies #[trigger] self@[a].name@
                        != #[trigger] self@[b].name@ by {
                        let ii = i as int;
                        if a == ii || b == ii {
                            let o = if a == ii { b } else { a };
                            assert(old(self)@[o].id != id) by {
                                if o < ii {
                                    assert(old(self)@[o].id < old(self)@[ii].id);
                                } else {
                                    assert(old(self)@[ii].id < old(self)@[o].id);
                                }
                            }
                            if changes.name is None {
                                assert(old(self)@[ii].name@ != old(self)@[o].name@);
                            }
                        }
                    }
                }
                return Ok(updated);
            }
            i = i + 1;
        }
        proof {
            lemma_idx_active_at(self@, id, n as int);
        }
        Err(AppError::NotFound(entity_not_found("Product with id ", id)))
    }

    /// Soft-deletes the active row with the given id, setting both
    /// `deleted_at` and `updated_at` to `now`; reports NotFound when no
    /// active row has that id.
    pub fn delete(&mut self, id: i32, now: i64) -> (r: Result<(), AppError>)
        requires
            old(self).wf(),
        ensures
            final(self).wf(),
            final(self).spec_next_id() == old(self).spec_next_id(),
            match spec_find_by_id(old(self)@, id) {
                Some(p) => {
                    &&& final(self)@ == old(self)@.update(
                        idx_active(old(self)@, id),
                        spec_soft_delete(p, now),
                    )
                    &&& r is Ok
                },
                None => {
                    &&& final(self)@ == old(self)@
                    &&& r matches Err(AppError::NotFound(m)) && m@ == spec_not_found_msg(
                        "Product with id "@,
                        id,
                    )
                },
            },
    {
        let n = self.rows.len();
        let mut i: usize = 0;
        while i < n
            invariant
                *self == *old(self),
                old(self).wf(),
                n == self@.len(),
                0 <= i <= n,
                forall|k: int| 0 <= k < i ==> !(self@[k].id == id && self@[k].is_active()),
            decreases n - i,
        {
            let hit = {
                let row = &self.rows[i];
                row.id == id && row.deleted_at.is_none()
            };
            if hit {
                proof {
                    lemma_idx_active_at(self@, id, i as int);
                }
                let old_row = self.rows.remove(i);
                let deleted = Product {
                    id: old_row.id,
                    name: old_row.name,
                    hpp_amount: old_row.hpp_amount,
                    selling_amount: old_row.selling_amount,
                    created_at: old_row.created_at,
                    updated_at: Some(now),
                    deleted_at: Some(now),
                };
                self.rows.insert(i, deleted);
                proof {
                    assert(self@ =~= old(self)@.update(
                        i as int,
                        spec_soft_delete(old(self)@[i as int], now),
                    ));
                    assert forall|k: int| 0 <= k < self@.len() implies #[trigger] self@[k].id
                        == old(self)@[k].id by {}
                    assert forall|a: int, b: int|
                        0 <= a < self@.len() && 0 <= b < self@.len() && a != b
                            && self@[a].is_active() && self@[b].is_active() implies #[trigger] self@[a].name@
                        != #[trigger] self@[b].name@ by {
                        assert(a != i as int && b != i as int);
                        assert(old(self)@[a].name@ != old(self)@[b].name@);
                    }
                }
                return Ok(());
            }
            i = i + 1;
        }
        proof {
            lemma_idx_active_at(self@, id, n as int);
        }
        Err(AppError::NotFound(entity_not_found("Product with id ", id)))
    }
}

/// The columns a product list may be ordered by. A request naming any
/// other column falls back to ordering by id ascending.
#[derive(Clone, Copy)]
pub enum ProductOrderKey {
    Id,
    Name,
    HppAmount,
    SellingAmount,
    CreatedAt,
    UpdatedAt,
}

/// The ordering a list request resolves to: the named column when it is
/// in the allow-list (matched case-insensitively), with the requested
/// direction; otherwise id ascending, whatever the direction says.
pub open spec fn spec_product_order(order_by: Option<String>, direction: Option<String>) -> (
    ProductOrderKey,
    bool,
) {
    match order_by {
        Some(s) => if chars_eq_ci(s@, "name"@) {
            (ProductOrderKey::Name, spec_is_desc(direction))
        } else if chars_eq_ci(s@, "hpp_amount"@) {
            (ProductOrderKey::HppAmount, spec_is_desc(direction))
        } else if chars_eq_ci(s@, "selling_amount"@) {
            (ProductOrderKey::SellingAmount, spec_is_desc(direction))
        } else if chars_eq_ci(s@, "created_at"@) {
            (ProductOrderKey::CreatedAt, spec_is_desc(direction))
        } else if chars_eq_ci(s@, "updated_at"@) {
            (ProductOrderKey::UpdatedAt, spec_is_desc(direction))
        } else {
            (ProductOrderKey::Id, false)
        },
        None => (ProductOrderKey::Id, false),
    }
}

/// Resolves the `order_by` and `direction` query parameters.
pub fn resolve_product_order(order_by: &Option<String>, direction: &Option<String>) -> (r: (
    ProductOrderKey,
    bool,
))
    ensures
        r == spec_product_order(*order_by, *direction),
{
    match order_by {
        Some(s) => {
            if eq_ignore_case(s.as_str(), "name") {
                (ProductOrderKey::Name, is_desc(direction))
            } else if eq_ignore_case(s.as_str(), "hpp_amount") {
                (ProductOrderKey::HppAmount, is_desc(direction))
            } else if eq_ignore_case(s.as_str(), "selling_amount") {
                (ProductOrderKey::SellingAmount, is_desc(direction))
            } else if eq_ignore_case(s.as_str(), "created_at") {
                (ProductOrderKey::CreatedAt, is_desc(direction))
            } else if eq_ignore_case(s.as_str(), "updated_at") {
                (ProductOrderKey::UpdatedAt, is_desc(direction))
            } else {
                (ProductOrderKey::Id, false)
            }
        },
        None => (ProductOrderKey::Id, false),
    }
}

/// A row is listed when it is active and, if a search term is given, its
/// name contains the term.
pub open spec fn product_matches(p: Product, search: Option<Seq<char>>) -> bool {
    p.is_active() && match search {
        Some(t) => contains_seq(p.name@, t),
        None => true,
    }
}

/// The rows a list request surfaces, in storage order.
pub open spec fn filter_products(rows: Seq<Product>, search: Option<Seq<char>>) -> Seq<Product>
    decreases rows.len(),
{
    if rows.len() == 0 {
        Seq::empty()
    } else {
        filter_products(rows.drop_last(), search) + if product_matches(rows.last(), search) {
            seq![rows.last()]
        } else {
            Seq::empty()
        }
    }
}

/// Every row of a filtered list matches the filter.
pub proof fn lemma_filter_products_matches(rows: Seq<Product>, search: Option<Seq<char>>)
    ensures
        forall|i: int|
            0 <= i < filter_products(rows, search).len() ==> product_matches(
                #[trigger] filter_products(rows, search)[i],
                search,
            ),
    decreases rows.len(),
{
    if rows.len() > 0 {
        lemma_filter_products_matches(rows.drop_last(), search);
        let f = filter_products(rows, search);
        let fd = filter_products(rows.drop_last(), search);
        assert forall|i: int| 0 <= i < f.len() implies product_matches(f[i], search) by {
            if i < fd.len() {
                assert(f[i] == fd[i]);
            } else {
                assert(f[i] == rows.last());
            }
        }
    }
}

/// Strict order on the chosen column, ascending.
pub open spec fn product_key_lt(a: Product, b: Product, key: ProductOrderKey) -> bool {
    match key {
        ProductOrderKey::Id => a.id < b.id,
        ProductOrderKey::Name => lex_lt(a.name@, b.name@),
        ProductOrderKey::HppAmount => a.hpp_amount < b.hpp_amount,
        ProductOrderKey::SellingAmount => a.selling_amount < b.selling_amount,
        ProductOrderKey::CreatedAt => opt_lt(a.created_at, b.created_at),
        ProductOrderKey::UpdatedAt => opt_lt(a.updated_at, b.updated_at),
    }
}

/// `a` is listed before `b`: by the chosen column in the chosen
/// direction, with ties broken by id ascending.
pub open spec fn product_precede(a: Product, b: Product, key: ProductOrderKey, desc: bool) -> bool {
    if desc {
        if product_key_lt(b, a, key) {
            true
        } else if product_key_lt(a, b, key) {
            false
        } else {
            a.id < b.id
        }
    } else {
        if product_key_lt(a, b, key) {
            true
        } else if product_key_lt(b, a, key) {
            false
        } else {
            a.id < b.id
        }
    }
}

/// Compares two rows under the resolved ordering.
fn product_precede_exec(a: &Product, b: &Product, key: ProductOrderKey, desc: bool) -> (r: bool)
    ensures
        r == product_precede(*a, *b, key, desc),
{
    let ab = match key {
        ProductOrderKey::Id => a.id < b.id,
        ProductOrderKey::Name => str_lt(a.name.as_str(), b.name.as_str()),
        ProductOrderKey::HppAmount => a.hpp_amount < b.hpp_amount,
        ProductOrderKey::SellingAmount => a.selling_amount < b.selling_amount,
        ProductOrderKey::CreatedAt => opt_i64_lt(&a.created_at, &b.created_at),
        ProductOrderKey::UpdatedAt => opt_i64_lt(&a.updated_at, &b.updated_at),
    };
    let ba = match key {
        ProductOrderKey::Id => b.id < a.id,
        ProductOrderKey::Name => str_lt(b.name.as_str(), a.name.as_str()),
        ProductOrderKey::HppAmount => b.hpp_amount < a.hpp_amount,
        ProductOrderKey::SellingAmount => b.selling_amount < a.selling_amount,
        ProductOrderKey::CreatedAt => opt_i64_lt(&b.created_at, &a.created_at),
        ProductOrderKey::UpdatedAt => opt_i64_lt(&b.updated_at, &a.updated_at),
    };
    if desc {
        if ba {
            true
        } else if ab {
            false
        } else {
            a.id < b.id
        }
    } else {
        if ab {
            true
        } else if ba {
            false
        } else {
            a.id < b.id
        }
    }
}

/// `x` placed before the first element it precedes.
pub open spec fn insert_sorted(
    x: Product,
    s: Seq<Product>,
    key: ProductOrderKey,
    desc: bool,
) -> Seq<Product>
    decreases s.len(),
{
    if s.len() == 0 {
        seq![x]
    } else if product_precede(x, s[0], key, desc) {
        seq![x] + s
    } else {
        seq![s[0]] + insert_sorted(x, s.drop_first(), key, desc)
    }
}

/// Insertion sort, processing rows in storage order.
pub open spec fn sort_products(s: Seq<Product>, key: ProductOrderKey, desc: bool) -> Seq<Product>
    decreases s.len(),
{
    if s.len() == 0 {
        s
    } else {
        insert_sorted(s.last(), sort_products(s.drop_last(), key, desc), key, desc)
    }
}

/// Inserting adds exactly one element.
pub proof fn lemma_insert_sorted_len(x: Product, s: Seq<Product>, key: ProductOrderKey, desc: bool)
    ensures
        insert_sorted(x, s, key, desc).len() == s.len() + 1,
    decreases s.len(),
{
    if s.len() > 0 && !product_precede(x, s[0], key, desc) {
        lemma_insert_sorted_len(x, s.drop_first(), key, desc);
    }
}

/// Sorting keeps the length.
pub proof fn lemma_sort_products_len(s: Seq<Product>, key: ProductOrderKey, desc: bool)
    ensures
        sort_products(s, key, desc).len() == s.len(),
    decreases s.len(),
{
    if s.len() > 0 {
        lemma_sort_products_len(s.drop_last(), key, desc);
        lemma_insert_sorted_len(s.last(), sort_products(s.drop_last(), key, desc), key, desc);
    }
}

/// Where `j` is the first position whose element `x` precedes, inserting
/// `x` splits the sequence there.
proof fn lemma_insert_sorted_at(
    x: Product,
    s: Seq<Product>,
    key: ProductOrderKey,
    desc: bool,
    j: int,
)
    requires
        0 <= j <= s.len(),
        forall|k: int| 0 <= k < j ==> !product_precede(x, s[k], key, desc),
        j < s.len() ==> product_precede(x, s[j], key, desc),
    ensures
        insert_sorted(x, s, key, desc) == s.subrange(0, j) + seq![x] + s.subrange(
            j,
            s.len() as int,
        ),
    decreases s.len(),
{
    if s.len() == 0 {
        assert(insert_sorted(x, s, key, desc) =~= s.subrange(0, j) + seq![x] + s.subrange(
            j,
            s.len() as int,
        ));
    } else if j == 0 {
        assert(insert_sorted(x, s, key, desc) =~= s.subrange(0, j) + seq![x] + s.subrange(
            j,
            s.len() as int,
        ));
    } else {
        lemma_insert_sorted_at(x, s.drop_first(), key, desc, j - 1);
        assert(s.drop_first().subrange(0, j - 1) =~= s.subrange(1, j));
        assert(s.drop_first().subrange(j - 1, s.drop_first().len() as int) =~= s.subrange(
            j,
            s.len() as int,
        ));
        assert(insert_sorted(x, s, key, desc) =~= s.subrange(0, j) + seq![x] + s.subrange(
            j,
            s.len() as int,
        ));
    }
}

/// The position `x` is inserted at: the first element it precedes.
fn find_insert_pos(v: &Vec<Product>, x: &Product, key: ProductOrderKey, desc: bool) -> (j: usize)
    ensures
        0 <= j <= v@.len(),
        forall|k: int| 0 <= k < j ==> !product_precede(*x, v@[k], key, desc),
        j < v@.len() ==> product_precede(*x, v@[j as int], key, desc),
{
    let n = v.len();
    let mut j: usize = 0;
    while j < n
        invariant
            n == v@.len(),
            0 <= j <= n,
            forall|k: int| 0 <= k < j ==> !product_precede(*x, v@[k], key, desc),
        decreases n - j,
    {
        if product_precede_exec(x, &v[j], key, desc) {
            return j;
        }
        j = j + 1;
    }
    n
}

/// Inserts `x` into an already sorted vector at its ordered position.
fn insert_row_sorted(v: &mut Vec<Product>, x: Product, key: ProductOrderKey, desc: bool)
    ensures
        final(v)@ == insert_sorted(x, old(v)@, key, desc),
{
    let j = find_insert_pos(v, &x, key, desc);
    proof {
        lemma_insert_sorted_at(x, v@, key, desc, j as int);
    }
    v.insert(j, x);
    proof {
        assert(v@ =~= old(v)@.subrange(0, j as int) + seq![x] + old(v)@.subrange(
            j as int,
            old(v)@.len() as int,
        ));
    }
}

/// The slice of the sorted, filtered rows the requested page shows.
pub open spec fn spec_product_page(rows: Seq<Product>, q: GetListProductQuery) -> Seq<Product> {
    let f = filter_products(rows, spec_opt_trimmed(q.search));
    let kd = spec_product_order(q.order_by, q.direction);
    let sorted = sort_products(f, kd.0, kd.1);
    sorted.subrange(
        spec_page_start(f.len() as int, spec_page(q.page) as int, spec_limit(q.limit) as int),
        spec_page_end(f.len() as int, spec_page(q.page) as int, spec_limit(q.limit) as int),
    )
}

impl ProductRepository {
    /// Lists one page of active rows: the soft-delete filter and the
    /// optional trimmed substring search on the name select the rows, the
    /// resolved ordering arranges them, and the requested page is cut out
    /// of that arrangement. The total counts every selected row,
    /// independent of the page.
    pub fn find_with_pagination(&self, query: &GetListProductQuery) -> (r: Result<
        PaginatedResult<Product>,
        AppError,
    >)
        ensures
            r matches Ok(pr) && {
                &&& pr.page == spec_page(query.page)
                &&& pr.limit == spec_limit(query.limit)
                &&& pr.total == filter_products(self@, spec_opt_trimmed(query.search)).len()
                &&& pr.total_pages == spec_total_pages(pr.total as int, pr.limit as int)
                &&& pr.data@ == spec_product_page(self@, *query)
            },
    {
        let page = page_param(&query.page);
        let limit = limit_param(&query.limit);
        let search = opt_trimmed(&query.search);
        let (key, desc) = resolve_product_order(&query.order_by, &query.direction);
        let ghost gsearch = spec_opt_trimmed(query.search);

        let n = self.rows.len();
        let mut filtered: Vec<Product> = Vec::new();
        let mut i: usize = 0;
        while i < n
            invariant
                n == self@.len(),
                0 <= i <= n,
                gsearch == spec_opt_trimmed(query.search),
                search is Some <==> gsearch is Some,
                search matches Some(t) ==> gsearch == Some(t@),
                filtered@ == filter_products(self@.subrange(0, i as int), gsearch),
            decreases n - i,
        {
            let row = &self.rows[i];
            let hit = row.deleted_at.is_none() && (match &search {
                Some(t) => contains_substr(row.name.as_str(), t.as_str()),
                None => true,
            });
            if hit {
                filtered.push(row.clone());
            }
            proof {
                assert(self@.subrange(0, i + 1).drop_last() =~= self@.subrange(0, i as int));
                assert(self@.subrange(0, i + 1).last() == self@[i as int]);
                if product_matches(self@[i as int], gsearch) {
                    assert(filtered@ =~= filter_products(self@.subrange(0, i + 1), gsearch));
                } else {
                    assert(filtered@ =~= filter_products(self@.subrange(0, i + 1), gsearch));
                }
            }
            i = i + 1;
        }
        proof {
            assert(self@.subrange(0, n as int) =~= self@);
        }

        let total_count = filtered.len();
        let mut sorted: Vec<Product> = Vec::new();
        let mut k: usize = 0;
        while k < total_count
            invariant
                total_count == filtered@.len(),
                0 <= k <= total_count,
                sorted@ == sort_products(filtered@.subrange(0, k as int), key, desc),
            decreases total_count - k,
        {
            insert_row_sorted(&mut sorted, filtered[k].clone(), key, desc);
            proof {
                assert(filtered@.subrange(0, k + 1).drop_last() =~= filtered@.subrange(
                    0,
                    k as int,
                ));
                assert(filtered@.subrange(0, k + 1).last() == filtered@[k as int]);
            }
            k = k + 1;
        }
        proof {
            assert(filtered@.subrange(0, total_count as int) =~= filtered@);
            lemma_sort_products_len(filtered@, key, desc);
        }

        let (start, end) = page_bounds(sorted.len(), page, limit);
        let mut data: Vec<Product> = Vec::new();
        let mut m: usize = start;
        while m < end
            invariant
                start <= m <= end,
                end <= sorted@.len(),
                data@ == sorted@.subrange(start as int, m as int),
            decreases end - m,
        {
            data.push(sorted[m].clone());
            proof {
                assert(data@ =~= sorted@.subrange(start as int, m + 1));
            }
            m = m + 1;
        }

        let total = total_count as u64;
        let tp = total_pages(total, limit);
        Ok(PaginatedResult { data, total, page, limit, total_pages: tp })
    }
}

} // verus!
