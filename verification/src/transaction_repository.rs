//! The transaction repository: an in-memory table of transaction rows
//! with auto-incremented ids, soft-delete visibility, lookup by id,
//! partial update, and filtered, ordered, paginated listing. The only
//! entity-specific filter is an exact match on the referenced product.

use vstd::prelude::*;

use crate::error::entity_not_found;
use crate::error::spec_not_found_msg;
use crate::error::AppError;
use crate::numeric::parse_i32;
use crate::numeric::parse_i32_spec;
use crate::pagination::is_desc;
use crate::pagination::limit_param;
use crate::pagination::opt_i64_lt;
use crate::pagination::opt_lt;
use crate::pagination::page_bounds;
use crate::pagination::page_param;
use crate::pagination::spec_is_desc;
use crate::pagination::spec_limit;
use crate::pagination::spec_page;
use crate::pagination::spec_page_end;
use crate::pagination::spec_page_start;
use crate::pagination::spec_total_pages;
use crate::pagination::total_pages;
use crate::pagination::PaginatedResult;
use crate::text::chars_eq_ci;
use crate::text::eq_ignore_case;
use crate::transaction::GetListTransactionQuery;
use crate::transaction::Transaction;
use crate::transaction::UpdateTransactionRequest;

verus! {

/// The first index of an active row with the given id, or -1.
pub open spec fn idx_active(rows: Seq<Transaction>, id: i32) -> int
    decreases rows.len(),
{
    if rows.len() == 0 {
        -1
    } else if rows[0].id == id && rows[0].is_active() {
        0
    } else {
        let t = idx_active(rows.drop_first(), id);
        if t == -1 {
            -1
        } else {
            t + 1
        }
    }
}

/// The active row with the given id, when one exists.
pub open spec fn spec_find_by_id(rows: Seq<Transaction>, id: i32) -> Option<Transaction> {
    if idx_active(rows, id) >= 0 {
        Some(rows[idx_active(rows, id)])
    } else {
        None
    }
}

/// `idx_active` answers exactly the first match of a left-to-right scan.
pub proof fn lemma_idx_active_at(rows: Seq<Transaction>, id: i32, i: int)
    requires
        0 <= i <= rows.len(),
        forall|k: int| 0 <= k < i ==> !(rows[k].id == id && rows[k].is_active()),
        i < rows.len() ==> rows[i].id == id && rows[i].is_active(),
    ensures
        idx_active(rows, id) == if i == rows.len() {
            -1int
        } else {
            i
        },
    decreases rows.len(),
{
    if rows.len() == 0 {
    } else if i == 0 {
        if rows.len() > 0 && !(rows[0].id == id && rows[0].is_active()) {
            lemma_idx_active_at(rows.drop_first(), id, 0);
        }
    } else {
        lemma_idx_active_at(rows.drop_first(), id, i - 1);
    }
}

/// Whenever `idx_active` finds an index, the row there is the active row
/// with that id.
pub proof fn lemma_idx_active_found(rows: Seq<Transaction>, id: i32)
    requires
        idx_active(rows, id) >= 0,
    ensures
        idx_active(rows, id) < rows.len(),
        rows[idx_active(rows, id)].id == id,
        rows[idx_active(rows, id)].is_active(),
    decreases rows.len(),
{
    if rows.len() > 0 && !(rows[0].id == id && rows[0].is_active()) {
        lemma_idx_active_found(rows.drop_first(), id);
    }
}

/// The row a freshly accepted create is stored as: the product reference
/// and quantity from the request, and the amounts snapshotted from the
/// referenced product at this instant.
pub open spec fn spec_new_transaction(
    product_id: i32,
    hpp_amount: i32,
    selling_amount: i32,
    qty: i32,
    id: i32,
    now: i64,
) -> Transaction {
    Transaction {
        id: id,
        product_id: product_id,
        hpp_amount: hpp_amount,
        selling_amount: selling_amount,
        qty: qty,
        created_at: Some(now),
        updated_at: Some(now),
        deleted_at: None,
    }
}

/// A row after a partial update: supplied fields replace the old ones and
/// `updated_at` is refreshed; everything else is untouched.
pub open spec fn spec_apply_update(
    p: Transaction,
    c: UpdateTransactionRequest,
    now: i64,
) -> Transaction {
    Transaction {
        id: p.id,
        product_id: match c.product_id {
            Some(v) => v,
            None => p.product_id,
        },
        hpp_amount: match c.hpp_amount {
            Some(v) => v,
            None => p.hpp_amount,
        },
        selling_amount: match c.selling_amount {
            Some(v) => v,
            None => p.selling_amount,
        },
        qty: match c.qty {
            Some(v) => v,
            None => p.qty,
        },
        created_at: p.created_at,
        updated_at: Some(now),
        deleted_at: p.deleted_at,
    }
}

/// A row after soft deletion: both `deleted_at` and `updated_at` are set
/// to the deletion instant.
pub open spec fn spec_soft_delete(p: Transaction, now: i64) -> Transaction {
    Transaction {
        id: p.id,
        product_id: p.product_id,
        hpp_amount: p.hpp_amount,
        selling_amount: p.selling_amount,
        qty: p.qty,
        created_at: p.created_at,
        updated_at: Some(now),
        deleted_at: Some(now),
    }
}

/// The in-memory transaction table plus the next id the store will
/// assign.
pub struct TransactionRepository {
    rows: Vec<Transaction>,
    next_id: i32,
}

impl View for TransactionRepository {
    type V = Seq<Transaction>;

    closed spec fn view(&self) -> Seq<Transaction> {
        self.rows@
    }
}

impl TransactionRepository {
    /// The id the next accepted insert will be stored under.
    pub closed spec fn spec_next_id(&self) -> int {
        self.next_id as int
    }

    /// Well-formedness: ids are positive, strictly increasing in storage
    /// order and below the next id to assign.
    pub open spec fn wf(&self) -> bool {
        &&& 1 <= self.spec_next_id() <= i32::MAX
        &&& forall|i: int| 0 <= i < self@.len() ==> 1 <= #[trigger] self@[i].id < self.spec_next_id()
        &&& forall|i: int, j: int|
            0 <= i < j < self@.len() ==> #[trigger] self@[i].id < #[trigger] self@[j].id
    }

    /// An empty table; ids start at 1.
    pub fn new() -> (r: Self)
        ensures
            r.wf(),
            r@ =~= Seq::<Transaction>::empty(),
            r.spec_next_id() == 1,
    {
        TransactionRepository { rows: Vec::new(), next_id: 1 }
    }

    /// Inserts a new row with the given snapshot values, both timestamps
    /// at `now` and no deletion mark. Fails only when the id space is
    /// exhausted, which models the store rejecting the insert.
    pub fn create(
        &mut self,
        product_id: i32,
        hpp_amount: i32,
        selling_amount: i32,
        qty: i32,
        now: i64,
    ) -> (r: Result<(), AppError>)
        requires
            old(self).wf(),
        ensures
            final(self).wf(),
            old(self).spec_next_id() < i32::MAX ==> {
                &&& r is Ok
                &&& final(self)@ == old(self)@.push(
                    spec_new_transaction(
                        product_id,
                        hpp_amount,
                        selling_amount,
                        qty,
                        old(self).spec_next_id() as i32,
                        now,
                    ),
                )
                &&& final(self).spec_next_id() == old(self).spec_next_id() + 1
            },
            old(self).spec_next_id() == i32::MAX ==> {
                &&& r matches Err(AppError::DatabaseError(m)) && m@ == "id space exhausted"@
                &&& final(self)@ == old(self)@
                &&& final(self).spec_next_id() == old(self).spec_next_id()
            },
    {
        if self.next_id == i32::MAX {
            return Err(AppError::DatabaseError("id space exhausted".to_owned()));
        }
        let row = Transaction {
            id: self.next_id,
            product_id: product_id,
            hpp_amount: hpp_amount,
            selling_amount: selling_amount,
            qty: qty,
            created_at: Some(now),
            updated_at: Some(now),
            deleted_at: None,
        };
        self.rows.push(row);
        self.next_id = self.next_id + 1;
        proof {
            assert(self@ =~= old(self)@.push(
                spec_new_transaction(
                    product_id,
                    hpp_amount,
                    selling_amount,
                    qty,
                    old(self).spec_next_id() as i32,
                    now,
                ),
            ));
        }
        Ok(())
    }

    /// Looks up the active row with the given id.
    pub fn find_by_id(&self, id: i32) -> (r: Option<Transaction>)
        ensures
            r == spec_find_by_id(self@, id),
    {
        let n = self.rows.len();
        let mut i: usize = 0;
        while i < n
            invariant
                n == self@.len(),
                0 <= i <= n,
                forall|k: int| 0 <= k < i ==> !(self@[k].id == id && self@[k].is_active()),
            decreases n - i,
        {
            let row = &self.rows[i];
            if row.id == id && row.deleted_at.is_none() {
                proof {
                    lemma_idx_active_at(self@, id, i as int);
                }
                return Some(row.clone());
            }
            i = i + 1;
        }
        proof {
            lemma_idx_active_at(self@, id, n as int);
        }
        None
    }

    /// Applies the supplied fields to the active row with the given id,
    /// refreshing `updated_at`, and returns the updated row; reports
    /// NotFound when no active row has that id.
    pub fn update(&mut self, id: i32, changes: &UpdateTransactionRequest, now: i64) -> (r: Result<
        Transaction,
        AppError,
    >)
        requires
            old(self).wf(),
        ensures
            final(self).wf(),
            final(self).spec_next_id() == old(self).spec_next_id(),
            match spec_find_by_id(old(self)@, id) {
                Some(p) => {
                    &&& final(self)@ == old(self)@.update(
                        idx_active(old(self)@, id),
                        spec_apply_update(p, *changes, now),
                    )
                    &&& r == Ok::<Transaction, AppError>(spec_apply_update(p, *changes, now))
                },
                None => {
                    &&& final(self)@ == old(self)@
                    &&& r matches Err(AppError::NotFound(m)) && m@ == spec_not_found_msg(
                        "Transaction with id "@,
                        id,
                    )
                },
            },
    {
        let n = self.rows.len();
        let mut i: usize = 0;
        while i < n
            invariant
                *self == *old(self),
                old(self).wf(),
                n == self@.len(),
                0 <= i <= n,
                forall|k: int| 0 <= k < i ==> !(self@[k].id == id && self@[k].is_active()),
            decreases n - i,
        {
            let hit = {
                let row = &self.rows[i];
                row.id == id && row.deleted_at.is_none()
            };
            if hit {
                proof {
                    lemma_idx_active_at(self@, id, i as int);
                }
                let old_row = self.rows.remove(i);
                let updated = Transaction {
                    id: old_row.id,
                    product_id: match changes.product_id {
                        Some(v) => v,
                        None => old_row.product_id,
                    },
                    hpp_amount: match changes.hpp_amount {
                        Some(v) => v,
                        None => old_row.hpp_amount,
                    },
                    selling_amount: match changes.selling_amount {
                        Some(v) => v,
                        None => old_row.selling_amount,
                    },
                    qty: match changes.qty {
                        Some(v) => v,
                        None => old_row.qty,
                    },
                    created_at: old_row.created_at,
                    updated_at: Some(now),
                    deleted_at: old_row.deleted_at,
                };
                self.rows.insert(i, updated.clone());
                proof {
                    assert(self@ =~= old(self)@.update(
                        i as int,
                        spec_apply_update(old(self)@[i as int], *changes, now),
                    ));
                    assert forall|k: int| 0 <= k < self@.len() implies #[trigger] self@[k].id
                        == old(self)@[k].id by {}
                }
                return Ok(updated);
            }
            i = i + 1;
        }
        proof {
            lemma_idx_active_at(self@, id, n as int);
        }
        Err(AppError::NotFound(entity_not_found("Transaction with id ", id)))
    }

    /// Soft-deletes the active row with the given id, setting both
    /// `deleted_at` and `updated_at` to `now`; reports NotFound when no
    /// active row has that id.
    pub fn delete(&mut self, id: i32, now: i64) -> (r: Result<(), AppError>)
        requires
            old(self).wf(),
        ensures
            final(self).wf(),
            final(self).spec_next_id() == old(self).spec_next_id(),
            match spec_find_by_id(old(self)@, id) {
                Some(p) => {
                    &&& final(self)@ == old(self)@.update(
                        idx_active(old(self)@, id),
                        spec_soft_delete(p, now),
                    )
                    &&& r is Ok
                },
                None => {
                    &&& final(self)@ == old(self)@
                    &&& r matches Err(AppError::NotFound(m)) && m@ == spec_not_found_msg(
                        "Transaction with id "@,
                        id,
                    )
                },
            },
    {
        let n = self.rows.len();
        let mut i: usize = 0;
        while i < n
            invariant
                *self == *old(self),
                old(self).wf(),
                n == self@.len(),
                0 <= i <= n,
                forall|k: int| 0 <= k < i ==> !(self@[k].id == id && self@[k].is_active()),
            decreases n - i,
        {
            let hit = {
                let row = &self.rows[i];
                row.id == id && row.deleted_at.is_none()
            };
            if hit {
                proof {
                    lemma_idx_active_at(self@, id, i as int);
                }
                let old_row = self.rows.remove(i);
                let deleted = Transaction {
                    id: old_row.id,
                    product_id: old_row.product_id,
                    hpp_amount: old_row.hpp_amount,
                    selling_amount: old_row.selling_amount,
                    qty: old_row.qty,
                    created_at: old_row.created_at,
                    updated_at: Some(now),
                    deleted_at: Some(now),
                };
                self.rows.insert(i, deleted);
                proof {
                    assert(self@ =~= old(self)@.update(
                        i as int,
                        spec_soft_delete(old(self)@[i as int], now),
                    ));
                    assert forall|k: int| 0 <= k < self@.len() implies #[trigger] self@[k].id
                        == old(self)@[k].id by {}
                }
                return Ok(());
            }
            i = i + 1;
        }
        proof {
            lemma_idx_active_at(self@, id, n as int);
        }
        Err(AppError::NotFound(entity_not_found("Transaction with id ", id)))
    }
}

/// The columns a transaction list may be ordered by. A request naming
/// any other column falls back to ordering by id ascending.
#[derive(Clone, Copy)]
pub enum TransactionOrderKey {
    Id,
    ProductId,
    HppAmount,
    SellingAmount,
    Qty,
    CreatedAt,
    UpdatedAt,
}

/// The ordering a list request resolves to: the named column when it is
/// in the allow-list (matched case-insensitively), with the requested
/// direction; otherwise id ascending, whatever the direction says.
pub open spec fn spec_transaction_order(order_by: Option<String>, direction: Option<String>) -> (
    TransactionOrderKey,
    bool,
) {
    match order_by {
        Some(s) => if chars_eq_ci(s@, "product_id"@) {
            (TransactionOrderKey::ProductId, spec_is_desc(direction))
        } else if chars_eq_ci(s@, "hpp_amount"@) {
            (TransactionOrderKey::HppAmount, spec_is_desc(direction))
        } else if chars_eq_ci(s@, "selling_amount"@) {
            (TransactionOrderKey::SellingAmount, spec_is_desc(direction))
        } else if chars_eq_ci(s@, "qty"@) {
            (TransactionOrderKey::Qty, spec_is_desc(direction))
        } else if chars_eq_ci(s@, "created_at"@) {
            (TransactionOrderKey::CreatedAt, spec_is_desc(direction))
        } else if chars_eq_ci(s@, "updated_at"@) {
            (TransactionOrderKey::UpdatedAt, spec_is_desc(direction))
        } else {
            (TransactionOrderKey::Id, false)
        },
        None => (TransactionOrderKey::Id, false),
    }
}

/// Resolves the `order_by` and `direction` query parameters.
pub fn resolve_transaction_order(order_by: &Option<String>, direction: &Option<String>) -> (r: (
    TransactionOrderKey,
    bool,
))
    ensures
        r == spec_transaction_order(*order_by, *direction),
{
    match order_by {
        Some(s) => {
            if eq_ignore_case(s.as_str(), "product_id") {
                (TransactionOrderKey::ProductId, is_desc(direction))
            } else if eq_ignore_case(s.as_str(), "hpp_amount") {
                (TransactionOrderKey::HppAmount, is_desc(direction))
            } else if eq_ignore_case(s.as_str(), "selling_amount") {
                (TransactionOrderKey::SellingAmount, is_desc(direction))
            } else if eq_ignore_case(s.as_str(), "qty") {
                (TransactionOrderKey::Qty, is_desc(direction))
            } else if eq_ignore_case(s.as_str(), "created_at") {
                (TransactionOrderKey::CreatedAt, is_desc(direction))
            } else if eq_ignore_case(s.as_str(), "updated_at") {
                (TransactionOrderKey::UpdatedAt, is_desc(direction))
            } else {
                (TransactionOrderKey::Id, false)
            }
        },
        None => (TransactionOrderKey::Id, false),
    }
}

/// The product filter a list request resolves to: the parsed id when
/// the parameter parses as an integer, and no filter otherwise.
pub open spec fn spec_pid_filter(product_id: Option<String>) -> Option<i32> {
    match product_id {
        Some(s) => parse_i32_spec(s@),
        None => None,
    }
}

/// A row is listed when it is active and references the filtered
/// product, when that filter applies.
pub open spec fn transaction_matches(t: Transaction, pid: Option<i32>) -> bool {
    t.is_active() && match pid {
        Some(v) => t.product_id == v,
        None => true,
    }
}

/// The rows a list request surfaces, in storage order.
pub open spec fn filter_transactions(rows: Seq<Transaction>, pid: Option<i32>) -> Seq<Transaction>
    decreases rows.len(),
{
    if rows.len() == 0 {
        Seq::empty()
    } else {
        filter_transactions(rows.drop_last(), pid) + if transaction_matches(rows.last(), pid) {
            seq![rows.last()]
        } else {
            Seq::empty()
        }
    }
}

/// Strict order on the chosen column, ascending.
pub open spec fn transaction_key_lt(a: Transaction, b: Transaction, key: TransactionOrderKey) -> bool {
    match key {
        TransactionOrderKey::Id => a.id < b.id,
        TransactionOrderKey::ProductId => a.product_id < b.product_id,
        TransactionOrderKey::HppAmount => a.hpp_amount < b.hpp_amount,
        TransactionOrderKey::SellingAmount => a.selling_amount < b.selling_amount,
        TransactionOrderKey::Qty => a.qty < b.qty,
        TransactionOrderKey::CreatedAt => opt_lt(a.created_at, b.created_at),
        TransactionOrderKey::UpdatedAt => opt_lt(a.updated_at, b.updated_at),
    }
}

/// `a` is listed before `b`: by the chosen column in the chosen
/// direction, with ties broken by id ascending.
pub open spec fn transaction_precede(
    a: Transaction,
    b: Transaction,
    key: TransactionOrderKey,
    desc: bool,
) -> bool {
    if desc {
        if transaction_key_lt(b, a, key) {
            true
        } else if transaction_key_lt(a, b, key) {
            false
        } else {
            a.id < b.id
        }
    } else {
        if transaction_key_lt(a, b, key) {
            true
        } else if transaction_key_lt(b, a, key) {
            false
        } else {
            a.id < b.id
        }
    }
}

/// Compares two rows under the resolved ordering.
fn transaction_precede_exec(
    a: &Transaction,
    b: &Transaction,
    key: TransactionOrderKey,
    desc: bool,
) -> (r: bool)
    ensures
        r == transaction_precede(*a, *b, key, desc),
{
    let ab = match key {
        TransactionOrderKey::Id => a.id < b.id,
        TransactionOrderKey::ProductId => a.product_id < b.product_id,
        TransactionOrderKey::HppAmount => a.hpp_amount < b.hpp_amount,
        TransactionOrderKey::SellingAmount => a.selling_amount < b.selling_amount,
        TransactionOrderKey::Qty => a.qty < b.qty,
        TransactionOrderKey::CreatedAt => opt_i64_lt(&a.created_at, &b.created_at),
        TransactionOrderKey::UpdatedAt => opt_i64_lt(&a.updated_at, &b.updated_at),
    };
    let ba = match key {
        TransactionOrderKey::Id => b.id < a.id,
        TransactionOrderKey::ProductId => b.product_id < a.product_id,
        TransactionOrderKey::HppAmount => b.hpp_amount < a.hpp_amount,
        TransactionOrderKey::SellingAmount => b.selling_amount < a.selling_amount,
        TransactionOrderKey::Qty => b.qty < a.qty,
        TransactionOrderKey::CreatedAt => opt_i64_lt(&b.created_at, &a.created_at),
        TransactionOrderKey::UpdatedAt => opt_i64_lt(&b.updated_at, &a.updated_at),
    };
    if desc {
        if ba {
            true
        } else if ab {
            false
        } else {
            a.id < b.id
        }
    } else {
        if ab {
            true
        } else if ba {
            false
        } else {
            a.id < b.id
        }
    }
}

/// `x` placed before the first element it precedes.
pub open spec fn insert_sorted(
    x: Transaction,
    s: Seq<Transaction>,
    key: TransactionOrderKey,
    desc: bool,
) -> Seq<Transaction>
    decreases s.len(),
{
    if s.len() == 0 {
        seq![x]
    } else if transaction_precede(x, s[0], key, desc) {
        seq![x] + s
    } else {
        seq![s[0]] + insert_sorted(x, s.drop_first(), key, desc)
    }
}

/// Insertion sort, processing rows in storage order.
pub open spec fn sort_transactions(
    s: Seq<Transaction>,
    key: TransactionOrderKey,
    desc: bool,
) -> Seq<Transaction>
    decreases s.len(),
{
    if s.len() == 0 {
        s
    } else {
        insert_sorted(s.last(), sort_transactions(s.drop_last(), key, desc), key, desc)
    }
}

/// Inserting adds exactly one element.
pub proof fn lemma_insert_sorted_len(
    x: Transaction,
    s: Seq<Transaction>,
    key: TransactionOrderKey,
    desc: bool,
)
    ensures
        insert_sorted(x, s, key, desc).len() == s.len() + 1,
    decreases s.len(),
{
    if s.len() > 0 && !transaction_precede(x, s[0], key, desc) {
        lemma_insert_sorted_len(x, s.drop_first(), key, desc);
    }
}

/// Sorting keeps the length.
pub proof fn lemma_sort_transactions_len(
    s: Seq<Transaction>,
    key: TransactionOrderKey,
    desc: bool,
)
    ensures
        sort_transactions(s, key, desc).len() == s.len(),
    decreases s.len(),
{
    if s.len() > 0 {
        lemma_sort_transactions_len(s.drop_last(), key, desc);
        lemma_insert_sorted_len(s.last(), sort_transactions(s.drop_last(), key, desc), key, desc);
    }
}

/// Where `j` is the first position whose element `x` precedes, inserting
/// `x` splits the sequence there.
proof fn lemma_insert_sorted_at(
    x: Transaction,
    s: Seq<Transaction>,
    key: TransactionOrderKey,
    desc: bool,
    j: int,
)
    requires
        0 <= j <= s.len(),
        forall|k: int| 0 <= k < j ==> !transaction_precede(x, s[k], key, desc),
        j < s.len() ==> transaction_precede(x, s[j], key, desc),
    ensures
        insert_sorted(x, s, key, desc) == s.subrange(0, j) + seq![x] + s.subrange(
            j,
            s.len() as int,
        ),
    decreases s.len(),
{
    if s.len() == 0 {
        assert(insert_sorted(x, s, key, desc) =~= s.subrange(0, j) + seq![x] + s.subrange(
            j,
            s.len() as int,
        ));
    } else if j == 0 {
        assert(insert_sorted(x, s, key, desc) =~= s.subrange(0, j) + seq![x] + s.subrange(
            j,
            s.len() as int,
        ));
    } else {
        lemma_insert_sorted_at(x, s.drop_first(), key, desc, j - 1);
        assert(s.drop_first().subrange(0, j - 1) =~= s.subrange(1, j));
        assert(s.drop_first().subrange(j - 1, s.drop_first().len() as int) =~= s.subrange(
            j,
            s.len() as int,
        ));
        assert(insert_sorted(x, s, key, desc) =~= s.subrange(0, j) + seq![x] + s.subrange(
            j,
            s.len() as int,
        ));
    }
}

/// The position `x` is inserted at: the first element it precedes.
fn find_insert_pos(v: &Vec<Transaction>, x: &Transaction, key: TransactionOrderKey, desc: bool) -> (
    j: usize)
    ensures
        0 <= j <= v@.len(),
        forall|k: int| 0 <= k < j ==> !transaction_precede(*x, v@[k], key, desc),
        j < v@.len() ==> transaction_precede(*x, v@[j as int], key, desc),
{
    let n = v.len();
    let mut j: usize = 0;
    while j < n
        invariant
            n == v@.len(),
            0 <= j <= n,
            forall|k: int| 0 <= k < j ==> !transaction_precede(*x, v@[k], key, desc),
        decreases n - j,
    {
        if transaction_precede_exec(x, &v[j], key, desc) {
            return j;
        }
        j = j + 1;
    }
    n
}

/// Inserts `x` into an already sorted vector at its ordered position.
fn insert_row_sorted(v: &mut Vec<Transaction>, x: Transaction, key: TransactionOrderKey, desc: bool)
    ensures
        final(v)@ == insert_sorted(x, old(v)@, key, desc),
{
    let j = find_insert_pos(v, &x, key, desc);
    proof {
        lemma_insert_sorted_at(x, v@, key, desc, j as int);
    }
    v.insert(j, x);
    proof {
        assert(v@ =~= old(v)@.subrange(0, j as int) + seq![x] + old(v)@.subrange(
            j as int,
            old(v)@.len() as int,
        ));
    }
}

/// The slice of the sorted, filtered rows the requested page shows.
pub open spec fn spec_transaction_page(rows: Seq<Transaction>, q: GetListTransactionQuery) -> Seq<
    Transaction,
> {
    let f = filter_transactions(rows, spec_pid_filter(q.product_id));
    let kd = spec_transaction_order(q.order_by, q.direction);
    let sorted = sort_transactions(f, kd.0, kd.1);
    sorted.subrange(
        spec_page_start(f.len() as int, spec_page(q.page) as int, spec_limit(q.limit) as int),
        spec_page_end(f.len() as int, spec_page(q.page) as int, spec_limit(q.limit) as int),
    )
}

impl TransactionRepository {
    /// Lists one page of active rows: the soft-delete filter and the
    /// optional exact product filter select the rows, the resolved
    /// ordering arranges them, and the requested page is cut out of that
    /// arrangement. An unparseable product filter is silently ignored.
    /// The total counts every selected row, independent of the page.
    pub fn find_with_pagination(&self, query: &GetListTransactionQuery) -> (r: Result<
        PaginatedResult<Transaction>,
        AppError,
    >)
        ensures
            r matches Ok(pr) && {
                &&& pr.page == spec_page(query.page)
                &&& pr.limit == spec_limit(query.limit)
                &&& pr.total == filter_transactions(self@, spec_pid_filter(query.product_id)).len()
                &&& pr.total_pages == spec_total_pages(pr.total as int, pr.limit as int)
                &&& pr.data@ == spec_transaction_page(self@, *query)
            },
    {
        let page = page_param(&query.page);
        let limit = limit_param(&query.limit);
        let pid: Option<i32> = match &query.product_id {
            Some(s) => parse_i32(s.as_str()),
            None => None,
        };
        let (key, desc) = resolve_transaction_order(&query.order_by, &query.direction);

        let n = self.rows.len();
        let mut filtered: Vec<Transaction> = Vec::new();
        let mut i: usize = 0;
        while i < n
            invariant
                n == self@.len(),
                0 <= i <= n,
                pid == spec_pid_filter(query.product_id),
                filtered@ == filter_transactions(self@.subrange(0, i as int), pid),
            decreases n - i,
        {
            let row = &self.rows[i];
            let hit = row.deleted_at.is_none() && (match &pid {
                Some(v) => row.product_id == *v,
                None => true,
            });
            if hit {
                filtered.push(row.clone());
            }
            proof {
                assert(self@.subrange(0, i + 1).drop_last() =~= self@.subrange(0, i as int));
                assert(self@.subrange(0, i + 1).last() == self@[i as int]);
                assert(filtered@ =~= filter_transactions(self@.subrange(0, i + 1), pid));
            }
            i = i + 1;
        }
        proof {
            assert(self@.subrange(0, n as int) =~= self@);
        }

        let total_count = filtered.len();
        let mut sorted: Vec<Transaction> = Vec::new();
        let mut k: usize = 0;
        while k < total_count
            invariant
                total_count == filtered@.len(),
                0 <= k <= total_count,
                sorted@ == sort_transactions(filtered@.subrange(0, k as int), key, desc),
            decreases total_count - k,
        {
            insert_row_sorted(&mut sorted, filtered[k].clone(), key, desc);
            proof {
                assert(filtered@.subrange(0, k + 1).drop_last() =~= filtered@.subrange(
                    0,
                    k as int,
                ));
                assert(filtered@.subrange(0, k + 1).last() == filtered@[k as int]);
            }
            k = k + 1;
        }
        proof {
            assert(filtered@.subrange(0, total_count as int) =~= filtered@);
            lemma_sort_transactions_len(filtered@, key, desc);
        }

        let (start, end) = page_bounds(sorted.len(), page, limit);
        let mut data: Vec<Transaction> = Vec::new();
        let mut m: usize = start;
        while m < end
            invariant
                start <= m <= end,
                end <= sorted@.len(),
                data@ == sorted@.subrange(start as int, m as int),
            decreases end - m,
        {
            data.push(sorted[m].clone());
            proof {
                assert(data@ =~= sorted@.subrange(start as int, m + 1));
            }
            m = m + 1;
        }

        let total = total_count as u64;
        let tp = total_pages(total, limit);
        Ok(PaginatedResult { data, total, page, limit, total_pages: tp })
    }
}

} // verus!
