//! Laws: the properties that hold across operations, stated over the
//! specification functions the executable contracts use and proved once
//! and for all. Each law reads as a sentence about the lifecycle — what
//! a freshly created row looks like, that deletion is terminal and hides
//! a row from every read path, how page sizes come out, and that a
//! transaction's amounts are a snapshot taken at creation time.

use vstd::prelude::*;

use crate::cashflow::Cashflow;
use crate::cashflow::CashflowResponse;
use crate::cashflow::CreateCashflowRequest;
use crate::cashflow::GetListCashflowQuery;
use crate::cashflow_repository::cashflow_matches;
use crate::cashflow_repository::cashflow_precede;
use crate::cashflow_repository::filter_cashflows;
use crate::cashflow_repository::sort_cashflows;
use crate::cashflow_repository::spec_cashflow_page;
use crate::cashflow_repository::CashflowOrderKey;
use crate::cashflow_repository::CashflowRepository;
use crate::cashflow_usecase::cashflow_created;
use crate::error::AppError;
use crate::pagination::spec_page_end;
use crate::pagination::spec_page_start;
use crate::pagination::spec_total_pages;
use crate::product::CreateProductRequest;
use crate::product::GetListProductQuery;
use crate::product::Product;
use crate::product::ProductResponse;
use crate::product_repository::filter_products;
use crate::product_repository::idx_active;
use crate::product_repository::insert_sorted;
use crate::product_repository::lemma_idx_active_at;
use crate::product_repository::lemma_idx_active_found;
use crate::product_repository::product_matches;
use crate::product_repository::product_precede;
use crate::product_repository::sort_products;
use crate::product_repository::spec_find_by_id;
use crate::product_repository::spec_product_page;
use crate::product_repository::spec_soft_delete;
use crate::product_repository::ProductOrderKey;
use crate::product_repository::ProductRepository;
use crate::product_usecase::product_created;
use crate::transaction::CreateTransactionRequest;
use crate::transaction::GetListTransactionQuery;
use crate::transaction::Transaction;
use crate::transaction_repository::filter_transactions;
use crate::transaction_repository::sort_transactions;
use crate::transaction_repository::spec_new_transaction;
use crate::transaction_repository::spec_transaction_page;
use crate::transaction_repository::transaction_matches;
use crate::transaction_repository::transaction_precede;
use crate::transaction_repository::TransactionOrderKey;
use crate::transaction_repository::TransactionRepository;
use crate::transaction_usecase::transaction_created;
use crate::text::lemma_lex_lt_asym;
use crate::text::lemma_lex_lt_trans;
use crate::text::lemma_lex_trichotomy;
use crate::text::lex_lt;

verus! {

broadcast use vstd::seq_lib::group_to_multiset_ensures;

/// Every successfully created product is stored undeleted, with
/// `created_at` equal to `updated_at`, and is returned as created.
pub proof fn law_product_created_fresh(
    pre: ProductRepository,
    post: ProductRepository,
    r: Result<ProductResponse, AppError>,
    req: CreateProductRequest,
    now: i64,
)
    requires
        product_created(pre, post, r, req, now),
    ensures
        post@.len() == pre@.len() + 1,
        post@.last().deleted_at is None,
        post@.last().created_at == Some(now),
        post@.last().updated_at == post@.last().created_at,
        r matches Ok(resp) && resp.created_at == resp.updated_at,
{
}

/// Every successfully created cashflow record is stored undeleted, with
/// `created_at` equal to `updated_at`, and is returned as created.
pub proof fn law_cashflow_created_fresh(
    pre: CashflowRepository,
    post: CashflowRepository,
    r: Result<CashflowResponse, AppError>,
    req: CreateCashflowRequest,
    now: i64,
)
    requires
        cashflow_created(pre, post, r, req, now),
    ensures
        post@.len() == pre@.len() + 1,
        post@.last().deleted_at is None,
        post@.last().created_at == Some(now),
        post@.last().updated_at == post@.last().created_at,
        r matches Ok(resp) && resp.created_at == resp.updated_at,
{
}

/// Every successfully created transaction is stored undeleted, with
/// `created_at` equal to `updated_at`.
pub proof fn law_transaction_created_fresh(
    pre: TransactionRepository,
    post: TransactionRepository,
    products: ProductRepository,
    req: CreateTransactionRequest,
    now: i64,
)
    requires
        transaction_created(pre, post, products, req, now),
    ensures
        post@.len() == pre@.len() + 1,
        post@.last().deleted_at is None,
        post@.last().created_at == Some(now),
        post@.last().updated_at == post@.last().created_at,
{
}

/// Soft deletion is terminal: once the active row with an id has been
/// soft-deleted, no lookup finds that id again — so a second delete, a
/// get and an update all answer NotFound, as their contracts state for
/// an id that `spec_find_by_id` misses.
pub proof fn law_product_delete_hides(
    pre: ProductRepository,
    post: ProductRepository,
    id: i32,
    now: i64,
)
    requires
        pre.wf(),
        spec_find_by_id(pre@, id) is Some,
        post@ == pre@.update(
            idx_active(pre@, id),
            spec_soft_delete(spec_find_by_id(pre@, id)->Some_0, now),
        ),
    ensures
        spec_find_by_id(post@, id) is None,
{
    lemma_idx_active_found(pre@, id);
    let ii = idx_active(pre@, id);
    assert forall|k: int|
        0 <= k < post@.len() implies !(post@[k].id == id && post@[k].is_active()) by {
        if k != ii {
            assert(pre@[k].id != pre@[ii].id) by {
                if k < ii {
                    assert(pre@[k].id < pre@[ii].id);
                } else {
                    assert(pre@[ii].id < pre@[k].id);
                }
            }
        }
    }
    lemma_idx_active_at(post@, id, post@.len() as int);
}

/// Soft deletion is terminal for cashflow records as well.
pub proof fn law_cashflow_delete_hides(
    pre: CashflowRepository,
    post: CashflowRepository,
    id: i32,
    now: i64,
)
    requires
        pre.wf(),
        crate::cashflow_repository::spec_find_by_id(pre@, id) is Some,
        post@ == pre@.update(
            crate::cashflow_repository::idx_active(pre@, id),
            crate::cashflow_repository::spec_soft_delete(
                crate::cashflow_repository::spec_find_by_id(pre@, id)->Some_0,
                now,
            ),
        ),
    ensures
        crate::cashflow_repository::spec_find_by_id(post@, id) is None,
{
    crate::cashflow_repository::lemma_idx_active_found(pre@, id);
    let ii = crate::cashflow_repository::idx_active(pre@, id);
    assert forall|k: int|
        0 <= k < post@.len() implies !(post@[k].id == id && post@[k].is_active()) by {
        if k != ii {
            assert(pre@[k].id != pre@[ii].id) by {
                if k < ii {
                    assert(pre@[k].id < pre@[ii].id);
                } else {
                    assert(pre@[ii].id < pre@[k].id);
                }
            }
        }
    }
    crate::cashflow_repository::lemma_idx_active_at(post@, id, post@.len() as int);
}

/// Soft deletion is terminal for transactions as well.
pub proof fn law_transaction_delete_hides(
    pre: TransactionRepository,
    post: TransactionRepository,
    id: i32,
    now: i64,
)
    requires
        pre.wf(),
        crate::transaction_repository::spec_find_by_id(pre@, id) is Some,
        post@ == pre@.update(
            crate::transaction_repository::idx_active(pre@, id),
            crate::transaction_repository::spec_soft_delete(
                crate::transaction_repository::spec_find_by_id(pre@, id)->Some_0,
                now,
            ),
        ),
    ensures
        crate::transaction_repository::spec_find_by_id(post@, id) is None,
{
    crate::transaction_repository::lemma_idx_active_found(pre@, id);
    let ii = crate::transaction_repository::idx_active(pre@, id);
    assert forall|k: int|
        0 <= k < post@.len() implies !(post@[k].id == id && post@[k].is_active()) by {
        if k != ii {
            assert(pre@[k].id != pre@[ii].id) by {
                if k < ii {
                    assert(pre@[k].id < pre@[ii].id);
                } else {
                    assert(pre@[ii].id < pre@[k].id);
                }
            }
        }
    }
    crate::transaction_repository::lemma_idx_active_at(post@, id, post@.len() as int);
}

/// Every element of a filtered product list is an element of the table.
pub proof fn lemma_filter_products_subset(rows: Seq<Product>, search: Option<Seq<char>>)
    ensures
        forall|m: int|
            0 <= m < filter_products(rows, search).len() ==> rows.contains(
                #[trigger] filter_products(rows, search)[m],
            ),
    decreases rows.len(),
{
    if rows.len() > 0 {
        lemma_filter_products_subset(rows.drop_last(), search);
        let f = filter_products(rows, search);
        let fd = filter_products(rows.drop_last(), search);
        assert forall|m: int| 0 <= m < f.len() implies rows.contains(f[m]) by {
            if m < fd.len() {
                assert(f[m] == fd[m]);
                assert(rows.drop_last().contains(fd[m]));
                let w = choose|w: int| 0 <= w < rows.drop_last().len() && rows.drop_last()[w] == fd[m];
                assert(rows[w] == fd[m]);
            } else {
                assert(f[m] == rows.last());
            }
        }
    }
}

/// Inserting into the ordered arrangement adds exactly the new row.
pub proof fn lemma_insert_sorted_multiset(
    x: Product,
    s: Seq<Product>,
    key: ProductOrderKey,
    desc: bool,
)
    ensures
        insert_sorted(x, s, key, desc).to_multiset() == s.to_multiset().insert(x),
    decreases s.len(),
{
    if s.len() == 0 {
        assert(insert_sorted(x, s, key, desc) =~= s.push(x));
    } else if crate::product_repository::product_precede(x, s[0], key, desc) {
        vstd::seq_lib::lemma_multiset_commutative(seq![x], s);
        assert(seq![x] =~= Seq::<Product>::empty().push(x));
        assert(Seq::<Product>::empty().push(x).to_multiset() =~= Seq::<
            Product,
        >::empty().to_multiset().insert(x));
        assert forall|a: Product| #[trigger] Seq::<Product>::empty().to_multiset().count(a)
            == 0 by {
            assert(!Seq::<Product>::empty().contains(a));
        }
        assert(insert_sorted(x, s, key, desc).to_multiset() =~= s.to_multiset().insert(x));
    } else {
        lemma_insert_sorted_multiset(x, s.drop_first(), key, desc);
        vstd::seq_lib::lemma_multiset_commutative(
            seq![s[0]],
            insert_sorted(x, s.drop_first(), key, desc),
        );
        vstd::seq_lib::lemma_multiset_commutative(seq![s[0]], s.drop_first());
        assert(s =~= seq![s[0]] + s.drop_first());
        assert(insert_sorted(x, s, key, desc).to_multiset() =~= s.to_multiset().insert(x));
    }
}

/// The ordered arrangement is a permutation: sorting keeps exactly the
/// filtered rows, each with its multiplicity.
pub proof fn law_sort_products_permutes(s: Seq<Product>, key: ProductOrderKey, desc: bool)
    ensures
        sort_products(s, key, desc).to_multiset() == s.to_multiset(),
    decreases s.len(),
{
    if s.len() > 0 {
        law_sort_products_permutes(s.drop_last(), key, desc);
        lemma_insert_sorted_multiset(
            s.last(),
            sort_products(s.drop_last(), key, desc),
            key,
            desc,
        );
        assert(s =~= s.drop_last().push(s.last()));
        assert(s.drop_last().push(s.last()).to_multiset() =~= s.drop_last().to_multiset().insert(
            s.last(),
        ));
        assert(sort_products(s, key, desc).to_multiset() =~= s.to_multiset());
    }
}

/// The rows of `s` stand in listing order: no row precedes an earlier
/// one.
pub open spec fn products_ordered(s: Seq<Product>, key: ProductOrderKey, desc: bool) -> bool {
    forall|i: int, j: int|
        0 <= i < j < s.len() ==> !product_precede(#[trigger] s[j], #[trigger] s[i], key, desc)
}

/// The listing order is asymmetric.
proof fn lemma_product_precede_asym(a: Product, b: Product, key: ProductOrderKey, desc: bool)
    requires
        product_precede(a, b, key, desc),
    ensures
        !product_precede(b, a, key, desc),
{
    match key {
        ProductOrderKey::Name => lemma_lex_pair_asym(a.name@, b.name@),
        _ => {},
    }
}

/// The listing order is transitive.
proof fn lemma_product_precede_trans(
    a: Product,
    b: Product,
    c: Product,
    key: ProductOrderKey,
    desc: bool,
)
    requires
        product_precede(a, b, key, desc),
        product_precede(b, c, key, desc),
    ensures
        product_precede(a, c, key, desc),
{
    match key {
        ProductOrderKey::Name => lemma_lex_triple_facts(a.name@, b.name@, c.name@),
        _ => {},
    }
}

/// Inserting at the ordered position keeps the arrangement ordered.
proof fn lemma_insert_sorted_ordered(x: Product, s: Seq<Product>, key: ProductOrderKey, desc: bool)
    requires
        products_ordered(s, key, desc),
    ensures
        products_ordered(insert_sorted(x, s, key, desc), key, desc),
    decreases s.len(),
{
    let out = insert_sorted(x, s, key, desc);
    if s.len() == 0 {
        assert(products_ordered(out, key, desc));
    } else if product_precede(x, s[0], key, desc) {
        assert(out =~= seq![x] + s);
        assert forall|i: int, j: int|
            0 <= i < j < out.len() implies !product_precede(out[j], out[i], key, desc) by {
            if i == 0 {
                if j == 1 {
                    lemma_product_precede_asym(x, s[0], key, desc);
                } else {
                    if product_precede(s[j - 1], x, key, desc) {
                        lemma_product_precede_trans(s[j - 1], x, s[0], key, desc);
                    }
                }
            }
        }
    } else {
        let rest = insert_sorted(x, s.drop_first(), key, desc);
        assert(products_ordered(s.drop_first(), key, desc)) by {
            assert forall|i: int, j: int|
                0 <= i < j < s.drop_first().len() implies !product_precede(
                #[trigger] s.drop_first()[j],
                #[trigger] s.drop_first()[i],
                key,
                desc,
            ) by {
                assert(s.drop_first()[j] == s[j + 1]);
                assert(s.drop_first()[i] == s[i + 1]);
            }
        }
        lemma_insert_sorted_ordered(x, s.drop_first(), key, desc);
        lemma_insert_sorted_multiset(x, s.drop_first(), key, desc);
        assert(out =~= seq![s[0]] + rest);
        assert forall|i: int, j: int|
            0 <= i < j < out.len() implies !product_precede(out[j], out[i], key, desc) by {
            if i == 0 {
                let e = out[j];
                assert(rest.contains(e)) by {
                    assert(rest[j - 1] == e);
                }
                assert(rest.to_multiset().count(e) > 0);
                if e == x {
                    assert(!product_precede(x, s[0], key, desc));
                } else {
                    assert(s.drop_first().to_multiset().count(e) > 0);
                    assert(s.drop_first().contains(e));
                    let w = choose|w: int|
                        0 <= w < s.drop_first().len() && s.drop_first()[w] == e;
                    assert(s[w + 1] == e);
                    assert(!product_precede(e, s[0], key, desc));
                }
            } else {
                assert(rest[i - 1] == out[i] && rest[j - 1] == out[j]);
            }
        }
    }
}

/// The arrangement a list shows is ordered: by the resolved column in
/// the resolved direction, ties broken by id ascending.
pub proof fn law_sort_products_ordered(s: Seq<Product>, key: ProductOrderKey, desc: bool)
    ensures
        products_ordered(sort_products(s, key, desc), key, desc),
    decreases s.len(),
{
    if s.len() > 0 {
        law_sort_products_ordered(s.drop_last(), key, desc);
        lemma_insert_sorted_ordered(s.last(), sort_products(s.drop_last(), key, desc), key, desc);
    }
}

/// After a soft delete, no page of any list request surfaces the
/// deleted row: every row a page shows is active, and the only row
/// bearing the deleted id is not.
pub proof fn law_product_delete_unlisted(
    pre: ProductRepository,
    post: ProductRepository,
    id: i32,
    now: i64,
    q: GetListProductQuery,
)
    requires
        pre.wf(),
        spec_find_by_id(pre@, id) is Some,
        post@ == pre@.update(
            idx_active(pre@, id),
            spec_soft_delete(spec_find_by_id(pre@, id)->Some_0, now),
        ),
    ensures
        forall|i: int|
            0 <= i < spec_product_page(post@, q).len() ==> (#[trigger] spec_product_page(
                post@,
                q,
            )[i]).id != id,
{
    law_product_delete_hides(pre, post, id, now);
    lemma_idx_active_found(pre@, id);
    let search = crate::text::spec_opt_trimmed(q.search);
    let f = filter_products(post@, search);
    let kd = crate::product_repository::spec_product_order(q.order_by, q.direction);
    let sorted = sort_products(f, kd.0, kd.1);
    let page = spec_product_page(post@, q);
    let start = spec_page_start(
        f.len() as int,
        crate::pagination::spec_page(q.page) as int,
        crate::pagination::spec_limit(q.limit) as int,
    );
    let end = spec_page_end(
        f.len() as int,
        crate::pagination::spec_page(q.page) as int,
        crate::pagination::spec_limit(q.limit) as int,
    );
    crate::product_repository::lemma_filter_products_matches(post@, search);
    lemma_filter_products_subset(post@, search);
    law_sort_products_permutes(f, kd.0, kd.1);
    crate::product_repository::lemma_sort_products_len(f, kd.0, kd.1);
    crate::product_repository::lemma_idx_active_range(post@, id);
    crate::product_repository::lemma_idx_active_none(post@, id);
    let p = crate::pagination::spec_page(q.page) as int;
    let l = crate::pagination::spec_limit(q.limit) as int;
    assert(p >= 1 && l >= 1);
    assert(0 <= (p - 1) * l) by (nonlinear_arith)
        requires
            p >= 1,
            l >= 1,
    ;
    assert(0 <= start <= end <= sorted.len());
    assert(page =~= sorted.subrange(start, end));
    assert forall|i: int| 0 <= i < page.len() implies (#[trigger] page[i]).id != id by {
        let e = page[i];
        assert(e == sorted[start + i]);
        assert(sorted.contains(e));
        assert(sorted.to_multiset().count(e) > 0);
        assert(f.to_multiset().count(e) > 0);
        assert(f.contains(e));
        let m = choose|m: int| 0 <= m < f.len() && f[m] == e;
        assert(product_matches(f[m], search));
        assert(e.is_active());
        assert(post@.contains(e));
        let w = choose|w: int| 0 <= w < post@.len() && post@[w] == e;
        assert(!(post@[w].id == id && post@[w].is_active()));
    }
}

/// Page sizes come out of the paging arithmetic exactly: with N rows
/// and page size L, there are ceil(N/L) pages; every page before the
/// last holds L rows, the last holds N mod L rows (or L when L divides
/// N), and pages past the last are empty.
pub proof fn law_page_sizes(total: int, limit: int, page: int)
    requires
        1 <= limit,
        1 <= page,
        0 <= total,
    ensures
        1 <= page < spec_total_pages(total, limit) ==> spec_page_end(total, page, limit)
            - spec_page_start(total, page, limit) == limit,
        total > 0 && page == spec_total_pages(total, limit) ==> spec_page_end(total, page, limit)
            - spec_page_start(total, page, limit) == (if total % limit == 0 {
            limit as int
        } else {
            total % limit
        }),
        page > spec_total_pages(total, limit) ==> spec_page_end(total, page, limit)
            == spec_page_start(total, page, limit),
{
    let q = total / limit;
    let r = total % limit;
    let tp = spec_total_pages(total, limit);
    assert(total == q * limit + r && 0 <= r < limit) by (nonlinear_arith)
        requires
            1 <= limit,
            0 <= total,
            q == total / limit,
            r == total % limit,
    ;
    if 1 <= page < tp {
        assert((page - 1) * limit + limit <= total) by (nonlinear_arith)
            requires
                total == q * limit + r,
                0 <= r < limit,
                1 <= page,
                page < if r == 0 {
                    q
                } else {
                    q + 1
                },
        ;
    }
    if total > 0 && page == tp {
        assert((page - 1) * limit <= total && total <= (page - 1) * limit + limit && total - (page
            - 1) * limit == if r == 0 {
            limit as int
        } else {
            r
        }) by (nonlinear_arith)
            requires
                total == q * limit + r,
                0 <= r < limit,
                1 <= limit,
                total > 0,
                page == if r == 0 {
                    q
                } else {
                    q + 1
                },
        ;
    }
    if page > tp {
        assert((page - 1) * limit >= total) by (nonlinear_arith)
            requires
                total == q * limit + r,
                0 <= r < limit,
                1 <= limit,
                page > if r == 0 {
                    q
                } else {
                    q + 1
                },
        ;
    }
}

/// A transaction's amounts are the referenced product's amounts at the
/// instant of creation. The stored row carries plain copies, and the
/// transaction table is untouched by any later product change, so
/// re-reading the transaction keeps answering these values whatever
/// happens to the product afterwards.
pub proof fn law_transaction_snapshot(
    pre: TransactionRepository,
    post: TransactionRepository,
    products: ProductRepository,
    req: CreateTransactionRequest,
    now: i64,
)
    requires
        pre.wf(),
        spec_find_by_id(products@, req.product_id) is Some,
        transaction_created(pre, post, products, req, now),
    ensures
        ({
            let p = spec_find_by_id(products@, req.product_id)->Some_0;
            let new_id = pre.spec_next_id() as i32;
            crate::transaction_repository::spec_find_by_id(post@, new_id) == Some(
                spec_new_transaction(
                    req.product_id,
                    p.hpp_amount,
                    p.selling_amount,
                    req.qty,
                    new_id,
                    now,
                ),
            )
        }),
{
    let p = spec_find_by_id(products@, req.product_id)->Some_0;
    let new_id = pre.spec_next_id() as i32;
    let row = spec_new_transaction(req.product_id, p.hpp_amount, p.selling_amount, req.qty, new_id, now);
    assert(post@ == pre@.push(row));
    assert(post@[pre@.len() as int] == row);
    assert forall|k: int|
        0 <= k < pre@.len() implies !(post@[k].id == new_id && post@[k].is_active()) by {
        assert(post@[k] == pre@[k]);
        assert(pre@[k].id < pre.spec_next_id());
    }
    crate::transaction_repository::lemma_idx_active_at(post@, new_id, pre@.len() as int);
}

/// Every row of a filtered cashflow list matches the filter.
pub proof fn lemma_filter_cashflows_matches(
    rows: Seq<Cashflow>,
    search: Option<Seq<char>>,
    ctype: Option<Seq<char>>,
    rtype: Option<Seq<char>>,
)
    ensures
        forall|i: int|
            0 <= i < filter_cashflows(rows, search, ctype, rtype).len() ==> cashflow_matches(
                #[trigger] filter_cashflows(rows, search, ctype, rtype)[i],
                search,
                ctype,
                rtype,
            ),
    decreases rows.len(),
{
    if rows.len() > 0 {
        lemma_filter_cashflows_matches(rows.drop_last(), search, ctype, rtype);
        let f = filter_cashflows(rows, search, ctype, rtype);
        let fd = filter_cashflows(rows.drop_last(), search, ctype, rtype);
        assert forall|i: int|
            0 <= i < f.len() implies cashflow_matches(f[i], search, ctype, rtype) by {
            if i < fd.len() {
                assert(f[i] == fd[i]);
            } else {
                assert(f[i] == rows.last());
            }
        }
    }
}

/// Every element of a filtered cashflow list is an element of the table.
pub proof fn lemma_filter_cashflows_subset(
    rows: Seq<Cashflow>,
    search: Option<Seq<char>>,
    ctype: Option<Seq<char>>,
    rtype: Option<Seq<char>>,
)
    ensures
        forall|m: int|
            0 <= m < filter_cashflows(rows, search, ctype, rtype).len() ==> rows.contains(
                #[trigger] filter_cashflows(rows, search, ctype, rtype)[m],
            ),
    decreases rows.len(),
{
    if rows.len() > 0 {
        lemma_filter_cashflows_subset(rows.drop_last(), search, ctype, rtype);
        let f = filter_cashflows(rows, search, ctype, rtype);
        let fd = filter_cashflows(rows.drop_last(), search, ctype, rtype);
        assert forall|m: int| 0 <= m < f.len() implies rows.contains(f[m]) by {
            if m < fd.len() {
                assert(f[m] == fd[m]);
                assert(rows.drop_last().contains(fd[m]));
                let w = choose|w: int| 0 <= w < rows.drop_last().len() && rows.drop_last()[w] == fd[m];
                assert(rows[w] == fd[m]);
            } else {
                assert(f[m] == rows.last());
            }
        }
    }
}

/// Inserting into the ordered cashflow arrangement adds exactly the new
/// row.
pub proof fn lemma_insert_sorted_cashflow_multiset(
    x: Cashflow,
    s: Seq<Cashflow>,
    key: CashflowOrderKey,
    desc: bool,
)
    ensures
        crate::cashflow_repository::insert_sorted(x, s, key, desc).to_multiset()
            == s.to_multiset().insert(x),
    decreases s.len(),
{
    if s.len() == 0 {
        assert(crate::cashflow_repository::insert_sorted(x, s, key, desc) =~= s.push(x));
    } else if cashflow_precede(x, s[0], key, desc) {
        vstd::seq_lib::lemma_multiset_commutative(seq![x], s);
        assert(seq![x] =~= Seq::<Cashflow>::empty().push(x));
        assert(Seq::<Cashflow>::empty().push(x).to_multiset() =~= Seq::<
            Cashflow,
        >::empty().to_multiset().insert(x));
        assert forall|a: Cashflow| #[trigger] Seq::<Cashflow>::empty().to_multiset().count(a)
            == 0 by {
            assert(!Seq::<Cashflow>::empty().contains(a));
        }
        assert(crate::cashflow_repository::insert_sorted(x, s, key, desc).to_multiset()
            =~= s.to_multiset().insert(x));
    } else {
        lemma_insert_sorted_cashflow_multiset(x, s.drop_first(), key, desc);
        vstd::seq_lib::lemma_multiset_commutative(
            seq![s[0]],
            crate::cashflow_repository::insert_sorted(x, s.drop_first(), key, desc),
        );
        vstd::seq_lib::lemma_multiset_commutative(seq![s[0]], s.drop_first());
        assert(s =~= seq![s[0]] + s.drop_first());
        assert(crate::cashflow_repository::insert_sorted(x, s, key, desc).to_multiset()
            =~= s.to_multiset().insert(x));
    }
}

/// The ordered cashflow arrangement is a permutation of the filtered
/// rows.
pub proof fn law_sort_cashflows_permutes(s: Seq<Cashflow>, key: CashflowOrderKey, desc: bool)
    ensures
        sort_cashflows(s, key, desc).to_multiset() == s.to_multiset(),
    decreases s.len(),
{
    if s.len() > 0 {
        law_sort_cashflows_permutes(s.drop_last(), key, desc);
        lemma_insert_sorted_cashflow_multiset(
            s.last(),
            sort_cashflows(s.drop_last(), key, desc),
            key,
            desc,
        );
        assert(s =~= s.drop_last().push(s.last()));
        assert(s.drop_last().push(s.last()).to_multiset() =~= s.drop_last().to_multiset().insert(
            s.last(),
        ));
        assert(sort_cashflows(s, key, desc).to_multiset() =~= s.to_multiset());
    }
}

/// After a soft delete, no page of any cashflow list request surfaces
/// the deleted row.
pub proof fn law_cashflow_delete_unlisted(
    pre: CashflowRepository,
    post: CashflowRepository,
    id: i32,
    now: i64,
    q: GetListCashflowQuery,
)
    requires
        pre.wf(),
        crate::cashflow_repository::spec_find_by_id(pre@, id) is Some,
        post@ == pre@.update(
            crate::cashflow_repository::idx_active(pre@, id),
            crate::cashflow_repository::spec_soft_delete(
                crate::cashflow_repository::spec_find_by_id(pre@, id)->Some_0,
                now,
            ),
        ),
    ensures
        forall|i: int|
            0 <= i < spec_cashflow_page(post@, q).len() ==> (#[trigger] spec_cashflow_page(
                post@,
                q,
            )[i]).id != id,
{
    law_cashflow_delete_hides(pre, post, id, now);
    let search = crate::text::spec_opt_trimmed(q.search);
    let ctype = crate::text::spec_opt_trimmed(q.cashflow_type);
    let rtype = crate::text::spec_opt_trimmed(q.recap_type);
    let f = filter_cashflows(post@, search, ctype, rtype);
    let kd = crate::cashflow_repository::spec_cashflow_order(q.order_by, q.direction);
    let sorted = sort_cashflows(f, kd.0, kd.1);
    let page = spec_cashflow_page(post@, q);
    let start = spec_page_start(
        f.len() as int,
        crate::pagination::spec_page(q.page) as int,
        crate::pagination::spec_limit(q.limit) as int,
    );
    let end = spec_page_end(
        f.len() as int,
        crate::pagination::spec_page(q.page) as int,
        crate::pagination::spec_limit(q.limit) as int,
    );
    lemma_filter_cashflows_matches(post@, search, ctype, rtype);
    lemma_filter_cashflows_subset(post@, search, ctype, rtype);
    law_sort_cashflows_permutes(f, kd.0, kd.1);
    crate::cashflow_repository::lemma_sort_cashflows_len(f, kd.0, kd.1);
    lemma_cashflow_find_none_no_match(post@, id);
    let p = crate::pagination::spec_page(q.page) as int;
    let l = crate::pagination::spec_limit(q.limit) as int;
    assert(p >= 1 && l >= 1);
    assert(0 <= (p - 1) * l) by (nonlinear_arith)
        requires
            p >= 1,
            l >= 1,
    ;
    assert(0 <= start <= end <= sorted.len());
    assert(page =~= sorted.subrange(start, end));
    assert forall|i: int| 0 <= i < page.len() implies (#[trigger] page[i]).id != id by {
        let e = page[i];
        assert(e == sorted[start + i]);
        assert(sorted.contains(e));
        assert(sorted.to_multiset().count(e) > 0);
        assert(f.to_multiset().count(e) > 0);
        assert(f.contains(e));
        let m = choose|m: int| 0 <= m < f.len() && f[m] == e;
        assert(cashflow_matches(f[m], search, ctype, rtype));
        assert(e.is_active());
        assert(post@.contains(e));
        let w = choose|w: int| 0 <= w < post@.len() && post@[w] == e;
        assert(!(post@[w].id == id && post@[w].is_active()));
    }
}

/// No row of a cashflow table matches an id that the table misses.
proof fn lemma_cashflow_find_none_no_match(rows: Seq<Cashflow>, id: i32)
    requires
        crate::cashflow_repository::spec_find_by_id(rows, id) is None,
    ensures
        forall|k: int| 0 <= k < rows.len() ==> !(rows[k].id == id && rows[k].is_active()),
    decreases rows.len(),
{
    if rows.len() > 0 {
        if !(rows[0].id == id && rows[0].is_active()) {
            lemma_cashflow_find_none_no_match(rows.drop_first(), id);
            assert forall|k: int|
                0 <= k < rows.len() implies !(rows[k].id == id && rows[k].is_active()) by {
                if k > 0 {
                    assert(rows.drop_first()[k - 1] == rows[k]);
                }
            }
        }
    }
}

/// Every row of a filtered transaction list matches the filter.
pub proof fn lemma_filter_transactions_matches(rows: Seq<Transaction>, pid: Option<i32>)
    ensures
        forall|i: int|
            0 <= i < filter_transactions(rows, pid).len() ==> transaction_matches(
                #[trigger] filter_transactions(rows, pid)[i],
                pid,
            ),
    decreases rows.len(),
{
    if rows.len() > 0 {
        lemma_filter_transactions_matches(rows.drop_last(), pid);
        let f = filter_transactions(rows, pid);
        let fd = filter_transactions(rows.drop_last(), pid);
        assert forall|i: int| 0 <= i < f.len() implies transaction_matches(f[i], pid) by {
            if i < fd.len() {
                assert(f[i] == fd[i]);
            } else {
                assert(f[i] == rows.last());
            }
        }
    }
}

/// Every element of a filtered transaction list is an element of the
/// table.
pub proof fn lemma_filter_transactions_subset(rows: Seq<Transaction>, pid: Option<i32>)
    ensures
        forall|m: int|
            0 <= m < filter_transactions(rows, pid).len() ==> rows.contains(
                #[trigger] filter_transactions(rows, pid)[m],
            ),
    decreases rows.len(),
{
    if rows.len() > 0 {
        lemma_filter_transactions_subset(rows.drop_last(), pid);
        let f = filter_transactions(rows, pid);
        let fd = filter_transactions(rows.drop_last(), pid);
        assert forall|m: int| 0 <= m < f.len() implies rows.contains(f[m]) by {
            if m < fd.len() {
                assert(f[m] == fd[m]);
                assert(rows.drop_last().contains(fd[m]));
                let w = choose|w: int| 0 <= w < rows.drop_last().len() && rows.drop_last()[w] == fd[m];
                assert(rows[w] == fd[m]);
            } else {
                assert(f[m] == rows.last());
            }
        }
    }
}

/// Inserting into the ordered transaction arrangement adds exactly the
/// new row.
pub proof fn lemma_insert_sorted_transaction_multiset(
    x: Transaction,
    s: Seq<Transaction>,
    key: TransactionOrderKey,
    desc: bool,
)
    ensures
        crate::transaction_repository::insert_sorted(x, s, key, desc).to_multiset()
            == s.to_multiset().insert(x),
    decreases s.len(),
{
    if s.len() == 0 {
        assert(crate::transaction_repository::insert_sorted(x, s, key, desc) =~= s.push(x));
    } else if transaction_precede(x, s[0], key, desc) {
        vstd::seq_lib::lemma_multiset_commutative(seq![x], s);
        assert(seq![x] =~= Seq::<Transaction>::empty().push(x));
        assert(Seq::<Transaction>::empty().push(x).to_multiset() =~= Seq::<
            Transaction,
        >::empty().to_multiset().insert(x));
        assert forall|a: Transaction| #[trigger] Seq::<Transaction>::empty().to_multiset().count(
            a,
        ) == 0 by {
            assert(!Seq::<Transaction>::empty().contains(a));
        }
        assert(crate::transaction_repository::insert_sorted(x, s, key, desc).to_multiset()
            =~= s.to_multiset().insert(x));
    } else {
        lemma_insert_sorted_transaction_multiset(x, s.drop_first(), key, desc);
        vstd::seq_lib::lemma_multiset_commutative(
            seq![s[0]],
            crate::transaction_repository::insert_sorted(x, s.drop_first(), key, desc),
        );
        vstd::seq_lib::lemma_multiset_commutative(seq![s[0]], s.drop_first());
        assert(s =~= seq![s[0]] + s.drop_first());
        assert(crate::transaction_repository::insert_sorted(x, s, key, desc).to_multiset()
            =~= s.to_multiset().insert(x));
    }
}

/// The ordered transaction arrangement is a permutation of the filtered
/// rows.
pub proof fn law_sort_transactions_permutes(
    s: Seq<Transaction>,
    key: TransactionOrderKey,
    desc: bool,
)
    ensures
        sort_transactions(s, key, desc).to_multiset() == s.to_multiset(),
    decreases s.len(),
{
    if s.len() > 0 {
        law_sort_transactions_permutes(s.drop_last(), key, desc);
        lemma_insert_sorted_transaction_multiset(
            s.last(),
            sort_transactions(s.drop_last(), key, desc),
            key,
            desc,
        );
        assert(s =~= s.drop_last().push(s.last()));
        assert(s.drop_last().push(s.last()).to_multiset() =~= s.drop_last().to_multiset().insert(
            s.last(),
        ));
        assert(sort_transactions(s, key, desc).to_multiset() =~= s.to_multiset());
    }
}

/// No row of a transaction table matches an id that the table misses.
proof fn lemma_transaction_find_none_no_match(rows: Seq<Transaction>, id: i32)
    requires
        crate::transaction_repository::spec_find_by_id(rows, id) is None,
    ensures
        forall|k: int| 0 <= k < rows.len() ==> !(rows[k].id == id && rows[k].is_active()),
    decreases rows.len(),
{
    if rows.len() > 0 {
        if !(rows[0].id == id && rows[0].is_active()) {
            lemma_transaction_find_none_no_match(rows.drop_first(), id);
            assert forall|k: int|
                0 <= k < rows.len() implies !(rows[k].id == id && rows[k].is_active()) by {
                if k > 0 {
                    assert(rows.drop_first()[k - 1] == rows[k]);
                }
            }
        }
    }
}

/// After a soft delete, no page of any transaction list request
/// surfaces the deleted row.
pub proof fn law_transaction_delete_unlisted(
    pre: TransactionRepository,
    post: TransactionRepository,
    id: i32,
    now: i64,
    q: GetListTransactionQuery,
)
    requires
        pre.wf(),
        crate::transaction_repository::spec_find_by_id(pre@, id) is Some,
        post@ == pre@.update(
            crate::transaction_repository::idx_active(pre@, id),
            crate::transaction_repository::spec_soft_delete(
                crate::transaction_repository::spec_find_by_id(pre@, id)->Some_0,
                now,
            ),
        ),
    ensures
        forall|i: int|
            0 <= i < spec_transaction_page(post@, q).len() ==> (#[trigger] spec_transaction_page(
                post@,
                q,
            )[i]).id != id,
{
    law_transaction_delete_hides(pre, post, id, now);
    let pid = crate::transaction_repository::spec_pid_filter(q.product_id);
    let f = filter_transactions(post@, pid);
    let kd = crate::transaction_repository::spec_transaction_order(q.order_by, q.direction);
    let sorted = sort_transactions(f, kd.0, kd.1);
    let page = spec_transaction_page(post@, q);
    let start = spec_page_start(
        f.len() as int,
        crate::pagination::spec_page(q.page) as int,
        crate::pagination::spec_limit(q.limit) as int,
    );
    let end = spec_page_end(
        f.len() as int,
        crate::pagination::spec_page(q.page) as int,
        crate::pagination::spec_limit(q.limit) as int,
    );
    lemma_filter_transactions_matches(post@, pid);
    lemma_filter_transactions_subset(post@, pid);
    law_sort_transactions_permutes(f, kd.0, kd.1);
    crate::transaction_repository::lemma_sort_transactions_len(f, kd.0, kd.1);
    lemma_transaction_find_none_no_match(post@, id);
    let p = crate::pagination::spec_page(q.page) as int;
    let l = crate::pagination::spec_limit(q.limit) as int;
    assert(p >= 1 && l >= 1);
    assert(0 <= (p - 1) * l) by (nonlinear_arith)
        requires
            p >= 1,
            l >= 1,
    ;
    assert(0 <= start <= end <= sorted.len());
    assert(page =~= sorted.subrange(start, end));
    assert forall|i: int| 0 <= i < page.len() implies (#[trigger] page[i]).id != id by {
        let e = page[i];
        assert(e == sorted[start + i]);
        assert(sorted.contains(e));
        assert(sorted.to_multiset().count(e) > 0);
        assert(f.to_multiset().count(e) > 0);
        assert(f.contains(e));
        let m = choose|m: int| 0 <= m < f.len() && f[m] == e;
        assert(transaction_matches(f[m], pid));
        assert(e.is_active());
        assert(post@.contains(e));
        let w = choose|w: int| 0 <= w < post@.len() && post@[w] == e;
        assert(!(post@[w].id == id && post@[w].is_active()));
    }
}

/// The rows of `s` stand in cashflow listing order.
pub open spec fn cashflows_ordered(s: Seq<Cashflow>, key: CashflowOrderKey, desc: bool) -> bool {
    forall|i: int, j: int|
        0 <= i < j < s.len() ==> !cashflow_precede(#[trigger] s[j], #[trigger] s[i], key, desc)
}

/// The cashflow listing order is asymmetric.
proof fn lemma_cashflow_precede_asym(a: Cashflow, b: Cashflow, key: CashflowOrderKey, desc: bool)
    requires
        cashflow_precede(a, b, key, desc),
    ensures
        !cashflow_precede(b, a, key, desc),
{
    match key {
        CashflowOrderKey::Note => lemma_lex_pair_asym(a.note@, b.note@),
        CashflowOrderKey::CashflowType => lemma_lex_pair_asym(a.cashflow_type@, b.cashflow_type@),
        CashflowOrderKey::RecapType => lemma_lex_pair_asym(a.recap_type@, b.recap_type@),
        _ => {},
    }
}

/// Whichever way two sequences compare, the comparison is asymmetric.
proof fn lemma_lex_pair_asym(x: Seq<char>, y: Seq<char>)
    ensures
        lex_lt(x, y) ==> !lex_lt(y, x),
        lex_lt(y, x) ==> !lex_lt(x, y),
{
    if lex_lt(x, y) {
        lemma_lex_lt_asym(x, y);
    } else if lex_lt(y, x) {
        lemma_lex_lt_asym(y, x);
    }
}

/// The facts transitivity of the row order needs about three compared
/// sequences: transitivity in both directions, and equality when a pair
/// is incomparable.
proof fn lemma_lex_triple_facts(x: Seq<char>, y: Seq<char>, z: Seq<char>)
    ensures
        lex_lt(x, y) && lex_lt(y, z) ==> lex_lt(x, z),
        lex_lt(z, y) && lex_lt(y, x) ==> lex_lt(z, x),
        !lex_lt(x, y) && !lex_lt(y, x) ==> x == y,
        !lex_lt(y, z) && !lex_lt(z, y) ==> y == z,
{
    if lex_lt(x, y) && lex_lt(y, z) {
        lemma_lex_lt_trans(x, y, z);
    }
    if lex_lt(z, y) && lex_lt(y, x) {
        lemma_lex_lt_trans(z, y, x);
    }
    if !lex_lt(x, y) && !lex_lt(y, x) {
        lemma_lex_trichotomy(x, y);
    }
    if !lex_lt(y, z) && !lex_lt(z, y) {
        lemma_lex_trichotomy(y, z);
    }
}

/// The cashflow listing order is transitive.
proof fn lemma_cashflow_precede_trans(
    a: Cashflow,
    b: Cashflow,
    c: Cashflow,
    key: CashflowOrderKey,
    desc: bool,
)
    requires
        cashflow_precede(a, b, key, desc),
        cashflow_precede(b, c, key, desc),
    ensures
        cashflow_precede(a, c, key, desc),
{
    match key {
        CashflowOrderKey::Note => lemma_lex_triple_facts(a.note@, b.note@, c.note@),
        CashflowOrderKey::CashflowType => lemma_lex_triple_facts(
            a.cashflow_type@,
            b.cashflow_type@,
            c.cashflow_type@,
        ),
        CashflowOrderKey::RecapType => lemma_lex_triple_facts(
            a.recap_type@,
            b.recap_type@,
            c.recap_type@,
        ),
        _ => {},
    }
}

/// Inserting at the ordered position keeps the cashflow arrangement
/// ordered.
proof fn lemma_insert_sorted_cashflow_ordered(
    x: Cashflow,
    s: Seq<Cashflow>,
    key: CashflowOrderKey,
    desc: bool,
)
    requires
        cashflows_ordered(s, key, desc),
    ensures
        cashflows_ordered(crate::cashflow_repository::insert_sorted(x, s, key, desc), key, desc),
    decreases s.len(),
{
    let out = crate::cashflow_repository::insert_sorted(x, s, key, desc);
    if s.len() == 0 {
        assert(cashflows_ordered(out, key, desc));
    } else if cashflow_precede(x, s[0], key, desc) {
        assert(out =~= seq![x] + s);
        assert forall|i: int, j: int|
            0 <= i < j < out.len() implies !cashflow_precede(out[j], out[i], key, desc) by {
            if i == 0 {
                if j == 1 {
                    lemma_cashflow_precede_asym(x, s[0], key, desc);
                } else {
                    if cashflow_precede(s[j - 1], x, key, desc) {
                        lemma_cashflow_precede_trans(s[j - 1], x, s[0], key, desc);
                    }
                }
            }
        }
    } else {
        let rest = crate::cashflow_repository::insert_sorted(x, s.drop_first(), key, desc);
        assert(cashflows_ordered(s.drop_first(), key, desc)) by {
            assert forall|i: int, j: int|
                0 <= i < j < s.drop_first().len() implies !cashflow_precede(
                #[trigger] s.drop_first()[j],
                #[trigger] s.drop_first()[i],
                key,
                desc,
            ) by {
                assert(s.drop_first()[j] == s[j + 1]);
                assert(s.drop_first()[i] == s[i + 1]);
            }
        }
        lemma_insert_sorted_cashflow_ordered(x, s.drop_first(), key, desc);
        lemma_insert_sorted_cashflow_multiset(x, s.drop_first(), key, desc);
        assert(out =~= seq![s[0]] + rest);
        assert forall|i: int, j: int|
            0 <= i < j < out.len() implies !cashflow_precede(out[j], out[i], key, desc) by {
            if i == 0 {
                let e = out[j];
                assert(rest.contains(e)) by {
                    assert(rest[j - 1] == e);
                }
                assert(rest.to_multiset().count(e) > 0);
                if e == x {
                    assert(!cashflow_precede(x, s[0], key, desc));
                } else {
                    assert(s.drop_first().to_multiset().count(e) > 0);
                    assert(s.drop_first().contains(e));
                    let w = choose|w: int|
                        0 <= w < s.drop_first().len() && s.drop_first()[w] == e;
                    assert(s[w + 1] == e);
                    assert(!cashflow_precede(e, s[0], key, desc));
                }
            } else {
                assert(rest[i - 1] == out[i] && rest[j - 1] == out[j]);
            }
        }
    }
}

/// The cashflow arrangement a list shows is ordered: by the resolved
/// column in the resolved direction, ties broken by id ascending.
pub proof fn law_sort_cashflows_ordered(s: Seq<Cashflow>, key: CashflowOrderKey, desc: bool)
    ensures
        cashflows_ordered(sort_cashflows(s, key, desc), key, desc),
    decreases s.len(),
{
    if s.len() > 0 {
        law_sort_cashflows_ordered(s.drop_last(), key, desc);
        lemma_insert_sorted_cashflow_ordered(
            s.last(),
            sort_cashflows(s.drop_last(), key, desc),
            key,
            desc,
        );
    }
}

/// The rows of `s` stand in transaction listing order.
pub open spec fn transactions_ordered(
    s: Seq<Transaction>,
    key: TransactionOrderKey,
    desc: bool,
) -> bool {
    forall|i: int, j: int|
        0 <= i < j < s.len() ==> !transaction_precede(#[trigger] s[j], #[trigger] s[i], key, desc)
}

/// Inserting at the ordered position keeps the transaction arrangement
/// ordered. Every transaction column is numeric, so asymmetry and
/// transitivity of the order need no extra lemmas.
proof fn lemma_insert_sorted_transaction_ordered(
    x: Transaction,
    s: Seq<Transaction>,
    key: TransactionOrderKey,
    desc: bool,
)
    requires
        transactions_ordered(s, key, desc),
    ensures
        transactions_ordered(
            crate::transaction_repository::insert_sorted(x, s, key, desc),
            key,
            desc,
        ),
    decreases s.len(),
{
    let out = crate::transaction_repository::insert_sorted(x, s, key, desc);
    if s.len() == 0 {
        assert(transactions_ordered(out, key, desc));
    } else if transaction_precede(x, s[0], key, desc) {
        assert(out =~= seq![x] + s);
        assert forall|i: int, j: int|
            0 <= i < j < out.len() implies !transaction_precede(out[j], out[i], key, desc) by {
        }
    } else {
        let rest = crate::transaction_repository::insert_sorted(x, s.drop_first(), key, desc);
        assert(transactions_ordered(s.drop_first(), key, desc)) by {
            assert forall|i: int, j: int|
                0 <= i < j < s.drop_first().len() implies !transaction_precede(
                #[trigger] s.drop_first()[j],
                #[trigger] s.drop_first()[i],
                key,
                desc,
            ) by {
                assert(s.drop_first()[j] == s[j + 1]);
                assert(s.drop_first()[i] == s[i + 1]);
            }
        }
        lemma_insert_sorted_transaction_ordered(x, s.drop_first(), key, desc);
        lemma_insert_sorted_transaction_multiset(x, s.drop_first(), key, desc);
        assert(out =~= seq![s[0]] + rest);
        assert forall|i: int, j: int|
            0 <= i < j < out.len() implies !transaction_precede(out[j], out[i], key, desc) by {
            if i == 0 {
                let e = out[j];
                assert(rest.contains(e)) by {
                    assert(rest[j - 1] == e);
                }
                assert(rest.to_multiset().count(e) > 0);
                if e != x {
                    assert(s.drop_first().to_multiset().count(e) > 0);
                    assert(s.drop_first().contains(e));
                    let w = choose|w: int|
                        0 <= w < s.drop_first().len() && s.drop_first()[w] == e;
                    assert(s[w + 1] == e);
                    assert(!transaction_precede(e, s[0], key, desc));
                }
            } else {
                assert(rest[i - 1] == out[i] && rest[j - 1] == out[j]);
            }
        }
    }
}

/// The transaction arrangement a list shows is ordered: by the resolved
/// column in the resolved direction, ties broken by id ascending.
pub proof fn law_sort_transactions_ordered(
    s: Seq<Transaction>,
    key: TransactionOrderKey,
    desc: bool,
)
    ensures
        transactions_ordered(sort_transactions(s, key, desc), key, desc),
    decreases s.len(),
{
    if s.len() > 0 {
        law_sort_transactions_ordered(s.drop_last(), key, desc);
        lemma_insert_sorted_transaction_ordered(
            s.last(),
            sort_transactions(s.drop_last(), key, desc),
            key,
            desc,
        );
    }
}

} // verus!
