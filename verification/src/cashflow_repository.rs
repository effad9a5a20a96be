//! The cashflow repository: an in-memory table of cashflow rows with
//! auto-incremented ids, soft-delete visibility, lookup by id, lookup of
//! the most recent row, partial update, and filtered, ordered, paginated
//! listing.

use vstd::prelude::*;

use crate::cashflow::Cashflow;
use crate::cashflow::CreateCashflowRequest;
use crate::cashflow::GetListCashflowQuery;
use crate::cashflow::UpdateCashflowRequest;
use crate::error::entity_not_found;
use crate::error::spec_not_found_msg;
use crate::error::AppError;
use crate::pagination::is_desc;
use crate::pagination::limit_param;
use crate::pagination::opt_i64_lt;
use crate::pagination::opt_lt;
use crate::pagination::page_bounds;
use crate::pagination::page_param;
use crate::pagination::spec_is_desc;
use crate::pagination::spec_limit;
use crate::pagination::spec_page;
use crate::pagination::spec_page_end;
use crate::pagination::spec_page_start;
use crate::pagination::spec_total_pages;
use crate::pagination::total_pages;
use crate::pagination::PaginatedResult;
use crate::text::chars_eq_ci;
use crate::text::contains_seq;
use crate::text::contains_substr;
use crate::text::eq_ignore_case;
use crate::text::lex_lt;
use crate::text::opt_trimmed;
use crate::text::spec_opt_trimmed;
use crate::text::str_eq;
use crate::text::str_lt;

verus! {

/// The first index of an active row with the given id, or -1.
pub open spec fn idx_active(rows: Seq<Cashflow>, id: i32) -> int
    decreases rows.len(),
{
    if rows.len() == 0 {
        -1
    } else if rows[0].id == id && rows[0].is_active() {
        0
    } else {
        let t = idx_active(rows.drop_first(), id);
        if t == -1 {
            -1
        } else {
            t + 1
        }
    }
}

/// The active row with the given id, when one exists.
pub open spec fn spec_find_by_id(rows: Seq<Cashflow>, id: i32) -> Option<Cashflow> {
    if idx_active(rows, id) >= 0 {
        Some(rows[idx_active(rows, id)])
    } else {
        None
    }
}

/// `idx_active` answers exactly the first match of a left-to-right scan.
pub proof fn lemma_idx_active_at(rows: Seq<Cashflow>, id: i32, i: int)
    requires
        0 <= i <= rows.len(),
        forall|k: int| 0 <= k < i ==> !(rows[k].id == id && rows[k].is_active()),
        i < rows.len() ==> rows[i].id == id && rows[i].is_active(),
    ensures
        idx_active(rows, id) == if i == rows.len() {
            -1int
        } else {
            i
        },
    decreases rows.len(),
{
    if rows.len() == 0 {
    } else if i == 0 {
        if rows.len() > 0 && !(rows[0].id == id && rows[0].is_active()) {
            lemma_idx_active_at(rows.drop_first(), id, 0);
        }
    } else {
        lemma_idx_active_at(rows.drop_first(), id, i - 1);
    }
}

/// Whenever `idx_active` finds an index, the row there is the active row
/// with that id.
pub proof fn lemma_idx_active_found(rows: Seq<Cashflow>, id: i32)
    requires
        idx_active(rows, id) >= 0,
    ensures
        idx_active(rows, id) < rows.len(),
        rows[idx_active(rows, id)].id == id,
        rows[idx_active(rows, id)].is_active(),
    decreases rows.len(),
{
    if rows.len() > 0 && !(rows[0].id == id && rows[0].is_active()) {
        lemma_idx_active_found(rows.drop_first(), id);
    }
}

/// The most recent visible row: the active row latest in storage order,
/// which under well-formedness is the one with the greatest id.
pub open spec fn spec_find_latest(rows: Seq<Cashflow>) -> Option<Cashflow>
    decreases rows.len(),
{
    if rows.len() == 0 {
        None
    } else if rows.last().is_active() {
        Some(rows.last())
    } else {
        spec_find_latest(rows.drop_last())
    }
}

/// Rows past `j` that are all deleted do not change the latest row.
proof fn lemma_find_latest_truncate(rows: Seq<Cashflow>, j: int)
    requires
        0 <= j <= rows.len(),
        forall|k: int| j <= k < rows.len() ==> !rows[k].is_active(),
    ensures
        spec_find_latest(rows) == spec_find_latest(rows.subrange(0, j)),
    decreases rows.len() - j,
{
    if j == rows.len() {
        assert(rows.subrange(0, j) =~= rows);
    } else {
        lemma_find_latest_truncate(rows, j + 1);
        assert(rows.subrange(0, j + 1).last() == rows[j]);
        assert(rows.subrange(0, j + 1).drop_last() =~= rows.subrange(0, j));
    }
}

/// The row a freshly accepted create request is stored as.
pub open spec fn spec_new_cashflow(req: CreateCashflowRequest, id: i32, now: i64) -> Cashflow {
    Cashflow {
        id: id,
        note: req.note,
        nominal: req.nominal,
        cashflow_type: req.cashflow_type,
        recap_type: req.recap_type,
        created_at: Some(now),
        updated_at: Some(now),
        deleted_at: None,
    }
}

/// A row after a partial update: supplied fields replace the old ones and
/// `updated_at` is refreshed; everything else is untouched.
pub open spec fn spec_apply_update(p: Cashflow, c: UpdateCashflowRequest, now: i64) -> Cashflow {
    Cashflow {
        id: p.id,
        note: match c.note {
            Some(n) => n,
            None => p.note,
        },
        nominal: match c.nominal {
            Some(v) => v,
            None => p.nominal,
        },
        cashflow_type: match c.cashflow_type {
            Some(t) => t,
            None => p.cashflow_type,
        },
        recap_type: match c.recap_type {
            Some(t) => t,
            None => p.recap_type,
        },
        created_at: p.created_at,
        updated_at: Some(now),
        deleted_at: p.deleted_at,
    }
}

/// A row after soft deletion: both `deleted_at` and `updated_at` are set
/// to the deletion instant.
pub open spec fn spec_soft_delete(p: Cashflow, now: i64) -> Cashflow {
    Cashflow {
        id: p.id,
        note: p.note,
        nominal: p.nominal,
        cashflow_type: p.cashflow_type,
        recap_type: p.recap_type,
        created_at: p.created_at,
        updated_at: Some(now),
        deleted_at: Some(now),
    }
}

/// The in-memory cashflow table plus the next id the store will assign.
pub struct CashflowRepository {
    rows: Vec<Cashflow>,
    next_id: i32,
}

impl View for CashflowRepository {
    type V = Seq<Cashflow>;

    closed spec fn view(&self) -> Seq<Cashflow> {
        self.rows@
    }
}

impl CashflowRepository {
    /// The id the next accepted insert will be stored under.
    pub closed spec fn spec_next_id(&self) -> int {
        self.next_id as int
    }

    /// Well-formedness: ids are positive, strictly increasing in storage
    /// order and below the next id to assign.
    pub open spec fn wf(&self) -> bool {
        &&& 1 <= self.spec_next_id() <= i32::MAX
        &&& forall|i: int| 0 <= i < self@.len() ==> 1 <= #[trigger] self@[i].id < self.spec_next_id()
        &&& forall|i: int, j: int|
            0 <= i < j < self@.len() ==> #[trigger] self@[i].id < #[trigger] self@[j].id
    }

    /// An empty table; ids start at 1.
    pub fn new() -> (r: Self)
        ensures
            r.wf(),
            r@ =~= Seq::<Cashflow>::empty(),
            r.spec_next_id() == 1,
    {
        CashflowRepository { rows: Vec::new(), next_id: 1 }
    }

    /// Inserts a new row built from the request, with both timestamps at
    /// `now` and no deletion mark. Fails only when the id space is
    /// exhausted, which models the store rejecting the insert.
    pub fn create(&mut self, req: &CreateCashflowRequest, now: i64) -> (r: Result<(), AppError>)
        requires
            old(self).wf(),
        ensures
            final(self).wf(),
            old(self).spec_next_id() < i32::MAX ==> {
                &&& r is Ok
                &&& final(self)@ == old(self)@.push(
                    spec_new_cashflow(*req, old(self).spec_next_id() as i32, now),
                )
                &&& final(self).spec_next_id() == old(self).spec_next_id() + 1
            },
            old(self).spec_next_id() == i32::MAX ==> {
                &&& r matches Err(AppError::DatabaseError(m)) && m@ == "id space exhausted"@
                &&& final(self)@ == old(self)@
                &&& final(self).spec_next_id() == old(self).spec_next_id()
            },
    {
        if self.next_id == i32::MAX {
            return Err(AppError::DatabaseError("id space exhausted".to_owned()));
        }
        let row = Cashflow {
            id: self.next_id,
            note: req.note.clone(),
            nominal: req.nominal,
            cashflow_type: req.cashflow_type.clone(),
            recap_type: req.recap_type.clone(),
            created_at: Some(now),
            updated_at: Some(now),
            deleted_at: None,
        };
        self.rows.push(row);
        self.next_id = self.next_id + 1;
        proof {
            assert(self@ =~= old(self)@.push(
                spec_new_cashflow(*req, old(self).spec_next_id() as i32, now),
            ));
        }
        Ok(())
    }

    /// Looks up the active row with the given id.
    pub fn find_by_id(&self, id: i32) -> (r: Option<Cashflow>)
        ensures
            r == spec_find_by_id(self@, id),
    {
        let n = self.rows.len();
        let mut i: usize = 0;
        while i < n
            invariant
                n == self@.len(),
                0 <= i <= n,
                forall|k: int| 0 <= k < i ==> !(self@[k].id == id && self@[k].is_active()),
            decreases n - i,
        {
            let row = &self.rows[i];
            if row.id == id && row.deleted_at.is_none() {
                proof {
                    lemma_idx_active_at(self@, id, i as int);
                }
                return Some(row.clone());
            }
            i = i + 1;
        }
        proof {
            lemma_idx_active_at(self@, id, n as int);
        }
        None
    }

    /// Looks up the most recent active row: the one with the greatest
    /// id, since ids grow with insertion order.
    pub fn find_latest(&self) -> (r: Option<Cashflow>)
        ensures
            r == spec_find_latest(self@),
    {
        let mut j = self.rows.len();
        while j > 0
            invariant
                j <= self@.len(),
                forall|k: int| j <= k < self@.len() ==> !self@[k].is_active(),
            decreases j,
        {
            let row = &self.rows[j - 1];
            if row.deleted_at.is_none() {
                proof {
                    lemma_find_latest_truncate(self@, j as int);
                    assert(self@.subrange(0, j as int).last() == self@[j - 1]);
                }
                return Some(row.clone());
            }
            j = j - 1;
        }
        proof {
            lemma_find_latest_truncate(self@, 0);
            assert(self@.subrange(0, 0) =~= Seq::<Cashflow>::empty());
        }
        None
    }

    /// Applies the supplied fields to the active row with the given id,
    /// refreshing `updated_at`, and returns the updated row; reports
    /// NotFound when no active row has that id.
    pub fn update(&mut self, id: i32, changes: &UpdateCashflowRequest, now: i64) -> (r: Result<
        Cashflow,
        AppError,
    >)
        requires
            old(self).wf(),
        ensures
            final(self).wf(),
            final(self).spec_next_id() == old(self).spec_next_id(),
            match spec_find_by_id(old(self)@, id) {
                Some(p) => {
                    &&& final(self)@ == old(self)@.update(
                        idx_active(old(self)@, id),
                        spec_apply_update(p, *changes, now),
                    )
                    &&& r == Ok::<Cashflow, AppError>(spec_apply_update(p, *changes, now))
                },
                None => {
                    &&& final(self)@ == old(self)@
                    &&& r matches Err(AppError::NotFound(m)) && m@ == spec_not_found_msg(
                        "Cashflow with id "@,
                        id,
                    )
                },
            },
    {
        let n = self.rows.len();
        let mut i: usize = 0;
        while i < n
            invariant
                *self == *old(self),
                old(self).wf(),
                n == self@.len(),
                0 <= i <= n,
                forall|k: int| 0 <= k < i ==> !(self@[k].id == id && self@[k].is_active()),
            decreases n - i,
        {
            let hit = {
                let row = &self.rows[i];
                row.id == id && row.deleted_at.is_none()
            };
            if hit {
                proof {
                    lemma_idx_active_at(self@, id, i as int);
                }
                let old_row = self.rows.remove(i);
                let updated = Cashflow {
                    id: old_row.id,
                    note: match &changes.note {
                        Some(nm) => nm.clone(),
                        None => old_row.note,
                    },
                    nominal: match changes.nominal {
                        Some(v) => v,
                        None => old_row.nominal,
                    },
                    cashflow_type: match &changes.cashflow_type {
                        Some(t) => t.clone(),
                        None => old_row.cashflow_type,
                    },
                    recap_type: match &changes.recap_type {
                        Some(t) => t.clone(),
                        None => old_row.recap_type,
                    },
                    created_at: old_row.created_at,
                    updated_at: Some(now),
                    deleted_at: old_row.deleted_at,
                };
                self.rows.insert(i, updated.clone());
                proof {
                    assert(self@ =~= old(self)@.update(
                        i as int,
                        spec_apply_update(old(self)@[i as int], *changes, now),
                    ));
                    assert forall|k: int| 0 <= k < self@.len() implies #[trigger] self@[k].id
                        == old(self)@[k].id by {}
                }
                return Ok(updated);
            }
            i = i + 1;
        }
        proof {
            lemma_idx_active_at(self@, id, n as int);
        }
        Err(AppError::NotFound(entity_not_found("Cashflow with id ", id)))
    }

    /// Soft-deletes the active row with the given id, setting both
    /// `deleted_at` and `updated_at` to `now`; reports NotFound when no
    /// active row has that id.
    pub fn delete(&mut self, id: i32, now: i64) -> (r: Result<(), AppError>)
        requires
            old(self).wf(),
        ensures
            final(self).wf(),
            final(self).spec_next_id() == old(self).spec_next_id(),
            match spec_find_by_id(old(self)@, id) {
                Some(p) => {
                    &&& final(self)@ == old(self)@.update(
                        idx_active(old(self)@, id),
                        spec_soft_delete(p, now),
                    )
                    &&& r is Ok
                },
                None => {
                    &&& final(self)@ == old(self)@
                    &&& r matches Err(AppError::NotFound(m)) && m@ == spec_not_found_msg(
                        "Cashflow with id "@,
                        id,
                    )
                },
            },
    {
        let n = self.rows.len();
        let mut i: usize = 0;
        while i < n
            invariant
                *self == *old(self),
                old(self).wf(),
                n == self@.len(),
                0 <= i <= n,
                forall|k: int| 0 <= k < i ==> !(self@[k].id == id && self@[k].is_active()),
            decreases n - i,
        {
            let hit = {
                let row = &self.rows[i];
                row.id == id && row.deleted_at.is_none()
            };
            if hit {
                proof {
                    lemma_idx_active_at(self@, id, i as int);
                }
                let old_row = self.rows.remove(i);
                let deleted = Cashflow {
                    id: old_row.id,
                    note: old_row.note,
                    nominal: old_row.nominal,
                    cashflow_type: old_row.cashflow_type,
                    recap_type: old_row.recap_type,
                    created_at: old_row.created_at,
                    updated_at: Some(now),
                    deleted_at: Some(now),
                };
                self.rows.insert(i, deleted);
                proof {
                    assert(self@ =~= old(self)@.update(
                        i as int,
                        spec_soft_delete(old(self)@[i as int], now),
                    ));
                    assert forall|k: int| 0 <= k < self@.len() implies #[trigger] self@[k].id
                        == old(self)@[k].id by {}
                }
                return Ok(());
            }
            i = i + 1;
        }
        proof {
            lemma_idx_active_at(self@, id, n as int);
        }
        Err(AppError::NotFound(entity_not_found("Cashflow with id ", id)))
    }
}

/// The columns a cashflow list may be ordered by. A request naming any
/// other column falls back to ordering by id ascending.
#[derive(Clone, Copy)]
pub enum CashflowOrderKey {
    Id,
    Note,
    Nominal,
    CashflowType,
    RecapType,
    CreatedAt,
    UpdatedAt,
}

/// The ordering a list request resolves to: the named column when it is
/// in the allow-list (matched case-insensitively), with the requested
/// direction; otherwise id ascending, whatever the direction says.
pub open spec fn spec_cashflow_order(order_by: Option<String>, direction: Option<String>) -> (
    CashflowOrderKey,
    bool,
) {
    match order_by {
        Some(s) => if chars_eq_ci(s@, "note"@) {
            (CashflowOrderKey::Note, spec_is_desc(direction))
        } else if chars_eq_ci(s@, "nominal"@) {
            (CashflowOrderKey::Nominal, spec_is_desc(direction))
        } else if chars_eq_ci(s@, "type"@) {
            (CashflowOrderKey::CashflowType, spec_is_desc(direction))
        } else if chars_eq_ci(s@, "recap_type"@) {
            (CashflowOrderKey::RecapType, spec_is_desc(direction))
        } else if chars_eq_ci(s@, "created_at"@) {
            (CashflowOrderKey::CreatedAt, spec_is_desc(direction))
        } else if chars_eq_ci(s@, "updated_at"@) {
            (CashflowOrderKey::UpdatedAt, spec_is_desc(direction))
        } else {
            (CashflowOrderKey::Id, false)
        },
        None => (CashflowOrderKey::Id, false),
    }
}

/// Resolves the `order_by` and `direction` query parameters.
pub fn resolve_cashflow_order(order_by: &Option<String>, direction: &Option<String>) -> (r: (
    CashflowOrderKey,
    bool,
))
    ensures
        r == spec_cashflow_order(*order_by, *direction),
{
    match order_by {
        Some(s) => {
            if eq_ignore_case(s.as_str(), "note") {
                (CashflowOrderKey::Note, is_desc(direction))
            } else if eq_ignore_case(s.as_str(), "nominal") {
                (CashflowOrderKey::Nominal, is_desc(direction))
            } else if eq_ignore_case(s.as_str(), "type") {
                (CashflowOrderKey::CashflowType, is_desc(direction))
            } else if eq_ignore_case(s.as_str(), "recap_type") {
                (CashflowOrderKey::RecapType, is_desc(direction))
            } else if eq_ignore_case(s.as_str(), "created_at") {
                (CashflowOrderKey::CreatedAt, is_desc(direction))
            } else if eq_ignore_case(s.as_str(), "updated_at") {
                (CashflowOrderKey::UpdatedAt, is_desc(direction))
            } else {
                (CashflowOrderKey::Id, false)
            }
        },
        None => (CashflowOrderKey::Id, false),
    }
}

/// A row is listed when it is active, its note contains the search term
/// when one is given, and its category fields match the trimmed filters
/// exactly when those are given.
pub open spec fn cashflow_matches(
    c: Cashflow,
    search: Option<Seq<char>>,
    ctype: Option<Seq<char>>,
    rtype: Option<Seq<char>>,
) -> bool {
    &&& c.is_active()
    &&& match search {
        Some(t) => contains_seq(c.note@, t),
        None => true,
    }
    &&& match ctype {
        Some(t) => c.cashflow_type@ == t,
        None => true,
    }
    &&& match rtype {
        Some(t) => c.recap_type@ == t,
        None => true,
    }
}

/// The rows a list request surfaces, in storage order.
pub open spec fn filter_cashflows(
    rows: Seq<Cashflow>,
    search: Option<Seq<char>>,
    ctype: Option<Seq<char>>,
    rtype: Option<Seq<char>>,
) -> Seq<Cashflow>
    decreases rows.len(),
{
    if rows.len() == 0 {
        Seq::empty()
    } else {
        filter_cashflows(rows.drop_last(), search, ctype, rtype) + if cashflow_matches(
            rows.last(),
            search,
            ctype,
            rtype,
        ) {
            seq![rows.last()]
        } else {
            Seq::empty()
        }
    }
}

/// Strict order on the chosen column, ascending.
pub open spec fn cashflow_key_lt(a: Cashflow, b: Cashflow, key: CashflowOrderKey) -> bool {
    match key {
        CashflowOrderKey::Id => a.id < b.id,
        CashflowOrderKey::Note => lex_lt(a.note@, b.note@),
        CashflowOrderKey::Nominal => a.nominal < b.nominal,
        CashflowOrderKey::CashflowType => lex_lt(a.cashflow_type@, b.cashflow_type@),
        CashflowOrderKey::RecapType => lex_lt(a.recap_type@, b.recap_type@),
        CashflowOrderKey::CreatedAt => opt_lt(a.created_at, b.created_at),
        CashflowOrderKey::UpdatedAt => opt_lt(a.updated_at, b.updated_at),
    }
}

/// `a` is listed before `b`: by the chosen column in the chosen
/// direction, with ties broken by id ascending.
pub open spec fn cashflow_precede(
    a: Cashflow,
    b: Cashflow,
    key: CashflowOrderKey,
    desc: bool,
) -> bool {
    if desc {
        if cashflow_key_lt(b, a, key) {
            true
        } else if cashflow_key_lt(a, b, key) {
            false
        } else {
            a.id < b.id
        }
    } else {
        if cashflow_key_lt(a, b, key) {
            true
        } else if cashflow_key_lt(b, a, key) {
            false
        } else {
            a.id < b.id
        }
    }
}

/// Compares two rows under the resolved ordering.
fn cashflow_precede_exec(a: &Cashflow, b: &Cashflow, key: CashflowOrderKey, desc: bool) -> (r:
    bool)
    ensures
        r == cashflow_precede(*a, *b, key, desc),
{
    let ab = match key {
        CashflowOrderKey::Id => a.id < b.id,
        CashflowOrderKey::Note => str_lt(a.note.as_str(), b.note.as_str()),
        CashflowOrderKey::Nominal => a.nominal < b.nominal,
        CashflowOrderKey::CashflowType => str_lt(a.cashflow_type.as_str(), b.cashflow_type.as_str()),
        CashflowOrderKey::RecapType => str_lt(a.recap_type.as_str(), b.recap_type.as_str()),
        CashflowOrderKey::CreatedAt => opt_i64_lt(&a.created_at, &b.created_at),
        CashflowOrderKey::UpdatedAt => opt_i64_lt(&a.updated_at, &b.updated_at),
    };
    let ba = match key {
        CashflowOrderKey::Id => b.id < a.id,
        CashflowOrderKey::Note => str_lt(b.note.as_str(), a.note.as_str()),
        CashflowOrderKey::Nominal => b.nominal < a.nominal,
        CashflowOrderKey::CashflowType => str_lt(b.cashflow_type.as_str(), a.cashflow_type.as_str()),
        CashflowOrderKey::RecapType => str_lt(b.recap_type.as_str(), a.recap_type.as_str()),
        CashflowOrderKey::CreatedAt => opt_i64_lt(&b.created_at, &a.created_at),
        CashflowOrderKey::UpdatedAt => opt_i64_lt(&b.updated_at, &a.updated_at),
    };
    if desc {
        if ba {
            true
        } else if ab {
            false
        } else {
            a.id < b.id
        }
    } else {
        if ab {
            true
        } else if ba {
            false
        } else {
            a.id < b.id
        }
    }
}

/// `x` placed before the first element it precedes.
pub open spec fn insert_sorted(
    x: Cashflow,
    s: Seq<Cashflow>,
    key: CashflowOrderKey,
    desc: bool,
) -> Seq<Cashflow>
    decreases s.len(),
{
    if s.len() == 0 {
        seq![x]
    } else if cashflow_precede(x, s[0], key, desc) {
        seq![x] + s
    } else {
        seq![s[0]] + insert_sorted(x, s.drop_first(), key, desc)
    }
}

/// Insertion sort, processing rows in storage order.
pub open spec fn sort_cashflows(s: Seq<Cashflow>, key: CashflowOrderKey, desc: bool) -> Seq<
    Cashflow,
>
    decreases s.len(),
{
    if s.len() == 0 {
        s
    } else {
        insert_sorted(s.last(), sort_cashflows(s.drop_last(), key, desc), key, desc)
    }
}

/// Inserting adds exactly one element.
pub proof fn lemma_insert_sorted_len(
    x: Cashflow,
    s: Seq<Cashflow>,
    key: CashflowOrderKey,
    desc: bool,
)
    ensures
        insert_sorted(x, s, key, desc).len() == s.len() + 1,
    decreases s.len(),
{
    if s.len() > 0 && !cashflow_precede(x, s[0], key, desc) {
        lemma_insert_sorted_len(x, s.drop_first(), key, desc);
    }
}

/// Sorting keeps the length.
pub proof fn lemma_sort_cashflows_len(s: Seq<Cashflow>, key: CashflowOrderKey, desc: bool)
    ensures
        sort_cashflows(s, key, desc).len() == s.len(),
    decreases s.len(),
{
    if s.len() > 0 {
        lemma_sort_cashflows_len(s.drop_last(), key, desc);
        lemma_insert_sorted_len(s.last(), sort_cashflows(s.drop_last(), key, desc), key, desc);
    }
}

/// Where `j` is the first position whose element `x` precedes, inserting
/// `x` splits the sequence there.
proof fn lemma_insert_sorted_at(
    x: Cashflow,
    s: Seq<Cashflow>,
    key: CashflowOrderKey,
    desc: bool,
    j: int,
)
    requires
        0 <= j <= s.len(),
        forall|k: int| 0 <= k < j ==> !cashflow_precede(x, s[k], key, desc),
        j < s.len() ==> cashflow_precede(x, s[j], key, desc),
    ensures
        insert_sorted(x, s, key, desc) == s.subrange(0, j) + seq![x] + s.subrange(
            j,
            s.len() as int,
        ),
    decreases s.len(),
{
    if s.len() == 0 {
        assert(insert_sorted(x, s, key, desc) =~= s.subrange(0, j) + seq![x] + s.subrange(
            j,
            s.len() as int,
        ));
    } else if j == 0 {
        assert(insert_sorted(x, s, key, desc) =~= s.subrange(0, j) + seq![x] + s.subrange(
            j,
            s.len() as int,
        ));
    } else {
        lemma_insert_sorted_at(x, s.drop_first(), key, desc, j - 1);
        assert(s.drop_first().subrange(0, j - 1) =~= s.subrange(1, j));
        assert(s.drop_first().subrange(j - 1, s.drop_first().len() as int) =~= s.subrange(
            j,
            s.len() as int,
        ));
        assert(insert_sorted(x, s, key, desc) =~= s.subrange(0, j) + seq![x] + s.subrange(
            j,
            s.len() as int,
        ));
    }
}

/// The position `x` is inserted at: the first element it precedes.
fn find_insert_pos(v: &Vec<Cashflow>, x: &Cashflow, key: CashflowOrderKey, desc: bool) -> (j:
    usize)
    ensures
        0 <= j <= v@.len(),
        forall|k: int| 0 <= k < j ==> !cashflow_precede(*x, v@[k], key, desc),
        j < v@.len() ==> cashflow_precede(*x, v@[j as int], key, desc),
{
    let n = v.len();
    let mut j: usize = 0;
    while j < n
        invariant
            n == v@.len(),
            0 <= j <= n,
            forall|k: int| 0 <= k < j ==> !cashflow_precede(*x, v@[k], key, desc),
        decreases n - j,
    {
        if cashflow_precede_exec(x, &v[j], key, desc) {
            return j;
        }
        j = j + 1;
    }
    n
}

/// Inserts `x` into an already sorted vector at its ordered position.
fn insert_row_sorted(v: &mut Vec<Cashflow>, x: Cashflow, key: CashflowOrderKey, desc: bool)
    ensures
        final(v)@ == insert_sorted(x, old(v)@, key, desc),
{
    let j = find_insert_pos(v, &x, key, desc);
    proof {
        lemma_insert_sorted_at(x, v@, key, desc, j as int);
    }
    v.insert(j, x);
    proof {
        assert(v@ =~= old(v)@.subrange(0, j as int) + seq![x] + old(v)@.subrange(
            j as int,
            old(v)@.len() as int,
        ));
    }
}

/// The slice of the sorted, filtered rows the requested page shows.
pub open spec fn spec_cashflow_page(rows: Seq<Cashflow>, q: GetListCashflowQuery) -> Seq<Cashflow> {
    let f = filter_cashflows(
        rows,
        spec_opt_trimmed(q.search),
        spec_opt_trimmed(q.cashflow_type),
        spec_opt_trimmed(q.recap_type),
    );
    let kd = spec_cashflow_order(q.order_by, q.direction);
    let sorted = sort_cashflows(f, kd.0, kd.1);
    sorted.subrange(
        spec_page_start(f.len() as int, spec_page(q.page) as int, spec_limit(q.limit) as int),
        spec_page_end(f.len() as int, spec_page(q.page) as int, spec_limit(q.limit) as int),
    )
}

impl CashflowRepository {
    /// Lists one page of active rows: the soft-delete filter, the
    /// optional trimmed substring search on the note and the optional
    /// exact category filters select the rows, the resolved ordering
    /// arranges them, and the requested page is cut out of that
    /// arrangement. The total counts every selected row, independent of
    /// the page.
    pub fn find_with_pagination(&self, query: &GetListCashflowQuery) -> (r: Result<
        PaginatedResult<Cashflow>,
        AppError,
    >)
        ensures
            r matches Ok(pr) && {
                &&& pr.page == spec_page(query.page)
                &&& pr.limit == spec_limit(query.limit)
                &&& pr.total == filter_cashflows(
                    self@,
                    spec_opt_trimmed(query.search),
                    spec_opt_trimmed(query.cashflow_type),
                    spec_opt_trimmed(query.recap_type),
                ).len()
                &&& pr.total_pages == spec_total_pages(pr.total as int, pr.limit as int)
                &&& pr.data@ == spec_cashflow_page(self@, *query)
            },
    {
        let page = page_param(&query.page);
        let limit = limit_param(&query.limit);
        let search = opt_trimmed(&query.search);
        let ctype = opt_trimmed(&query.cashflow_type);
        let rtype = opt_trimmed(&query.recap_type);
        let (key, desc) = resolve_cashflow_order(&query.order_by, &query.direction);
        let ghost gsearch = spec_opt_trimmed(query.search);
        let ghost gctype = spec_opt_trimmed(query.cashflow_type);
        let ghost grtype = spec_opt_trimmed(query.recap_type);

        let n = self.rows.len();
        let mut filtered: Vec<Cashflow> = Vec::new();
        let mut i: usize = 0;
        while i < n
            invariant
                n == self@.len(),
                0 <= i <= n,
                gsearch == spec_opt_trimmed(query.search),
                gctype == spec_opt_trimmed(query.cashflow_type),
                grtype == spec_opt_trimmed(query.recap_type),
                search is Some <==> gsearch is Some,
                search matches Some(t) ==> gsearch == Some(t@),
                ctype is Some <==> gctype is Some,
                ctype matches Some(t) ==> gctype == Some(t@),
                rtype is Some <==> grtype is Some,
                rtype matches Some(t) ==> grtype == Some(t@),
                filtered@ == filter_cashflows(
                    self@.subrange(0, i as int),
                    gsearch,
                    gctype,
                    grtype,
                ),
            decreases n - i,
        {
            let row = &self.rows[i];
            let hit = row.deleted_at.is_none() && (match &search {
                Some(t) => contains_substr(row.note.as_str(), t.as_str()),
                None => true,
            }) && (match &ctype {
                Some(t) => str_eq(row.cashflow_type.as_str(), t.as_str()),
                None => true,
            }) && (match &rtype {
                Some(t) => str_eq(row.recap_type.as_str(), t.as_str()),
                None => true,
            });
            if hit {
                filtered.push(row.clone());
            }
            proof {
                assert(self@.subrange(0, i + 1).drop_last() =~= self@.subrange(0, i as int));
                assert(self@.subrange(0, i + 1).last() == self@[i as int]);
                assert(filtered@ =~= filter_cashflows(
                    self@.subrange(0, i + 1),
                    gsearch,
                    gctype,
                    grtype,
                ));
            }
            i = i + 1;
        }
        proof {
            assert(self@.subrange(0, n as int) =~= self@);
        }

        let total_count = filtered.len();
        let mut sorted: Vec<Cashflow> = Vec::new();
        let mut k: usize = 0;
        while k < total_count
            invariant
                total_count == filtered@.len(),
                0 <= k <= total_count,
                sorted@ == sort_cashflows(filtered@.subrange(0, k as int), key, desc),
            decreases total_count - k,
        {
            insert_row_sorted(&mut sorted, filtered[k].clone(), key, desc);
            proof {
                assert(filtered@.subrange(0, k + 1).drop_last() =~= filtered@.subrange(
                    0,
                    k as int,
                ));
                assert(filtered@.subrange(0, k + 1).last() == filtered@[k as int]);
            }
            k = k + 1;
        }
        proof {
            assert(filtered@.subrange(0, total_count as int) =~= filtered@);
            lemma_sort_cashflows_len(filtered@, key, desc);
        }

        let (start, end) = page_bounds(sorted.len(), page, limit);
        let mut data: Vec<Cashflow> = Vec::new();
        let mut m: usize = start;
        while m < end
            invariant
                start <= m <= end,
                end <= sorted@.len(),
                data@ == sorted@.subrange(start as int, m as int),
            decreases end - m,
        {
            data.push(sorted[m].clone());
            proof {
                assert(data@ =~= sorted@.subrange(start as int, m + 1));
            }
            m = m + 1;
        }

        let total = total_count as u64;
        let tp = total_pages(total, limit);
        Ok(PaginatedResult { data, total, page, limit, total_pages: tp })
    }
}

} // verus!
