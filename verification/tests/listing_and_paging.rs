//! Listing scenarios: filter composition, ordering and its fallback,
//! parameter clamping, page arithmetic, and soft-deleted rows staying
//! out of every page.

use storeledger::cashflow::CreateCashflowRequest;
use storeledger::cashflow::GetListCashflowQuery;
use storeledger::cashflow_repository::CashflowRepository;
use storeledger::cashflow_usecase::create_cashflow_at;
use storeledger::cashflow_usecase::delete_cashflow_at;
use storeledger::cashflow_usecase::list_cashflows;
use storeledger::pagination::total_pages;
use storeledger::product::CreateProductRequest;
use storeledger::product::GetListProductQuery;
use storeledger::product_repository::ProductRepository;
use storeledger::product_usecase::create_product_at;
use storeledger::product_usecase::delete_product_at;
use storeledger::product_usecase::list_products;
use storeledger::transaction::CreateTransactionRequest;
use storeledger::transaction::GetListTransactionQuery;
use storeledger::transaction_repository::TransactionRepository;
use storeledger::transaction_usecase::create_transaction_at;
use storeledger::transaction_usecase::list_transactions;

fn product(name: &str, hpp: i32, selling: i32) -> CreateProductRequest {
    CreateProductRequest {
        name: name.to_string(),
        hpp_amount: hpp,
        selling_amount: selling,
    }
}

fn products_with(n: usize) -> ProductRepository {
    let mut repo = ProductRepository::new();
    for i in 0..n {
        let req = product(&format!("item {:03}", i + 1), i as i32, (i * 2) as i32);
        create_product_at(&mut repo, &req, (i + 1) as i64).unwrap();
    }
    repo
}

fn query(
    limit: Option<&str>,
    page: Option<&str>,
    search: Option<&str>,
    order_by: Option<&str>,
    direction: Option<&str>,
) -> GetListProductQuery {
    GetListProductQuery {
        limit: limit.map(|s| s.to_string()),
        page: page.map(|s| s.to_string()),
        search: search.map(|s| s.to_string()),
        order_by: order_by.map(|s| s.to_string()),
        direction: direction.map(|s| s.to_string()),
    }
}

#[test]
fn defaults_are_page_one_and_limit_ten() {
    let repo = products_with(25);
    let resp = list_products(&repo, query(None, None, None, None, None)).unwrap();
    assert_eq!(resp.page, 1);
    assert_eq!(resp.limit, 10);
    assert_eq!(resp.total, 25);
    assert_eq!(resp.total_pages, 3);
    assert_eq!(resp.data.len(), 10);
    assert_eq!(resp.data[0].id, 1);
    assert_eq!(resp.data[9].id, 10);
}

#[test]
fn limit_clamps_to_one_hundred_and_page_floors_to_one() {
    let repo = products_with(3);
    let resp = list_products(&repo, query(Some("500"), Some("0"), None, None, None)).unwrap();
    assert_eq!(resp.limit, 100);
    assert_eq!(resp.page, 1);

    let resp = list_products(&repo, query(Some("junk"), Some("-2"), None, None, None)).unwrap();
    assert_eq!(resp.limit, 10);
    assert_eq!(resp.page, 1);

    // Zero is not a positive integer, so it falls back to the default.
    let resp = list_products(&repo, query(Some("0"), Some("junk"), None, None, None)).unwrap();
    assert_eq!(resp.limit, 10);
    assert_eq!(resp.page, 1);
}

#[test]
fn pagination_counts_follow_ceiling_division() {
    let repo = products_with(7);
    let resp = list_products(&repo, query(Some("3"), Some("3"), None, None, None)).unwrap();
    assert_eq!(resp.total, 7);
    assert_eq!(resp.total_pages, 3);
    // The last page holds the remainder.
    assert_eq!(resp.data.len(), 1);
    assert_eq!(resp.data[0].id, 7);

    // An evenly divisible total fills the last page completely.
    let repo = products_with(6);
    let resp = list_products(&repo, query(Some("3"), Some("2"), None, None, None)).unwrap();
    assert_eq!(resp.total_pages, 2);
    assert_eq!(resp.data.len(), 3);

    // Pages past the end are empty but keep the metadata.
    let resp = list_products(&repo, query(Some("3"), Some("5"), None, None, None)).unwrap();
    assert_eq!(resp.data.len(), 0);
    assert_eq!(resp.total, 6);
}

#[test]
fn total_pages_formula_examples() {
    assert_eq!(total_pages(0, 10), 0);
    assert_eq!(total_pages(1, 10), 1);
    assert_eq!(total_pages(10, 10), 1);
    assert_eq!(total_pages(11, 10), 2);
    assert_eq!(total_pages(200, 100), 2);
    assert_eq!(total_pages(201, 100), 3);
}

#[test]
fn unknown_order_column_falls_back_to_id_ascending() {
    let mut repo = ProductRepository::new();
    create_product_at(&mut repo, &product("banana", 3, 4), 1).unwrap();
    create_product_at(&mut repo, &product("apple", 1, 2), 2).unwrap();
    // "price" is not in the allow-list: id ascending wins, even with desc.
    let resp =
        list_products(&repo, query(None, None, None, Some("price"), Some("desc"))).unwrap();
    let ids: Vec<i32> = resp.data.iter().map(|p| p.id).collect();
    assert_eq!(ids, vec![1, 2]);
    // "id" itself is not in the allow-list either.
    let resp = list_products(&repo, query(None, None, None, Some("id"), Some("desc"))).unwrap();
    let ids: Vec<i32> = resp.data.iter().map(|p| p.id).collect();
    assert_eq!(ids, vec![1, 2]);
}

#[test]
fn direction_is_descending_only_for_the_two_exact_literals() {
    let mut repo = ProductRepository::new();
    create_product_at(&mut repo, &product("banana", 3, 4), 1).unwrap();
    create_product_at(&mut repo, &product("apple", 1, 2), 2).unwrap();

    let resp = list_products(&repo, query(None, None, None, Some("name"), Some("desc"))).unwrap();
    let names: Vec<String> = resp.data.iter().map(|p| p.name.clone()).collect();
    assert_eq!(names, vec!["banana".to_string(), "apple".to_string()]);

    let resp = list_products(&repo, query(None, None, None, Some("name"), Some("DESC"))).unwrap();
    assert_eq!(resp.data[0].name, "banana");

    // Any other spelling keeps ascending order.
    let resp = list_products(&repo, query(None, None, None, Some("name"), Some("Desc"))).unwrap();
    assert_eq!(resp.data[0].name, "apple");

    let resp = list_products(&repo, query(None, None, None, Some("NAME"), None)).unwrap();
    assert_eq!(resp.data[0].name, "apple");
}

#[test]
fn ordering_by_amount_with_equal_keys_keeps_id_order() {
    let mut repo = ProductRepository::new();
    create_product_at(&mut repo, &product("a", 5, 1), 1).unwrap();
    create_product_at(&mut repo, &product("b", 5, 2), 2).unwrap();
    create_product_at(&mut repo, &product("c", 3, 3), 3).unwrap();
    let resp =
        list_products(&repo, query(None, None, None, Some("hpp_amount"), None)).unwrap();
    let ids: Vec<i32> = resp.data.iter().map(|p| p.id).collect();
    assert_eq!(ids, vec![3, 1, 2]);
    let resp =
        list_products(&repo, query(None, None, None, Some("hpp_amount"), Some("desc"))).unwrap();
    let ids: Vec<i32> = resp.data.iter().map(|p| p.id).collect();
    assert_eq!(ids, vec![1, 2, 3]);
}

#[test]
fn ordering_by_timestamp_follows_the_direction() {
    let mut repo = ProductRepository::new();
    create_product_at(&mut repo, &product("first", 1, 1), 500).unwrap();
    create_product_at(&mut repo, &product("second", 2, 2), 100).unwrap();
    let resp =
        list_products(&repo, query(None, None, None, Some("created_at"), None)).unwrap();
    let ids: Vec<i32> = resp.data.iter().map(|p| p.id).collect();
    assert_eq!(ids, vec![2, 1]);
    let resp =
        list_products(&repo, query(None, None, None, Some("created_at"), Some("desc"))).unwrap();
    let ids: Vec<i32> = resp.data.iter().map(|p| p.id).collect();
    assert_eq!(ids, vec![1, 2]);
}

#[test]
fn search_matches_substrings_after_trimming() {
    let mut repo = ProductRepository::new();
    create_product_at(&mut repo, &product("blue Widget", 1, 2), 1).unwrap();
    create_product_at(&mut repo, &product("red gadget", 1, 2), 2).unwrap();
    create_product_at(&mut repo, &product("Widget case", 1, 2), 3).unwrap();

    let resp = list_products(&repo, query(None, None, Some("  Widget "), None, None)).unwrap();
    assert_eq!(resp.total, 2);
    let ids: Vec<i32> = resp.data.iter().map(|p| p.id).collect();
    assert_eq!(ids, vec![1, 3]);

    // A blank search is no filter at all.
    let resp = list_products(&repo, query(None, None, Some("   "), None, None)).unwrap();
    assert_eq!(resp.total, 3);

    // The match is case-sensitive.
    let resp = list_products(&repo, query(None, None, Some("widget"), None, None)).unwrap();
    assert_eq!(resp.total, 0);
    assert_eq!(resp.total_pages, 0);
}

#[test]
fn deleted_rows_vanish_from_every_page() {
    let mut repo = products_with(4);
    delete_product_at(&mut repo, 2, 99).unwrap();
    let resp = list_products(&repo, query(None, None, None, None, None)).unwrap();
    assert_eq!(resp.total, 3);
    let ids: Vec<i32> = resp.data.iter().map(|p| p.id).collect();
    assert_eq!(ids, vec![1, 3, 4]);
}

#[test]
fn empty_table_lists_an_empty_page() {
    let repo = ProductRepository::new();
    let resp = list_products(&repo, query(None, None, None, None, None)).unwrap();
    assert_eq!(resp.total, 0);
    assert_eq!(resp.total_pages, 0);
    assert_eq!(resp.data.len(), 0);
}

fn cashflow(note: &str, nominal: i32, kind: &str, recap: &str) -> CreateCashflowRequest {
    CreateCashflowRequest {
        note: note.to_string(),
        nominal,
        cashflow_type: kind.to_string(),
        recap_type: recap.to_string(),
    }
}

#[test]
fn cashflow_list_combines_search_and_type_filters_page_two() {
    let mut repo = CashflowRepository::new();
    let mut t: i64 = 1;
    // Thirteen records whose note mentions rent and whose type is
    // expense, interleaved with noise that must not be counted.
    for i in 0..13 {
        let note = format!("rent payment {:02}", i + 1);
        create_cashflow_at(&mut repo, &cashflow(&note, 100 + i, "expense", "monthly"), t).unwrap();
        t += 1;
        create_cashflow_at(&mut repo, &cashflow("groceries", 30, "expense", "weekly"), t).unwrap();
        t += 1;
        create_cashflow_at(&mut repo, &cashflow("rent refund", 10, "income", "monthly"), t)
            .unwrap();
        t += 1;
    }
    let q = GetListCashflowQuery {
        limit: Some("5".to_string()),
        page: Some("2".to_string()),
        search: Some("rent".to_string()),
        order_by: None,
        direction: None,
        cashflow_type: Some("expense".to_string()),
        recap_type: None,
    };
    let resp = list_cashflows(&repo, q).unwrap();
    assert_eq!(resp.total, 13);
    assert_eq!(resp.total_pages, 3);
    assert_eq!(resp.page, 2);
    assert_eq!(resp.limit, 5);
    // Rows six to ten of the filtered set, in id order: the matching
    // rows are every third record, ids 1, 4, 7, ...
    let notes: Vec<String> = resp.data.iter().map(|c| c.note.clone()).collect();
    assert_eq!(
        notes,
        vec![
            "rent payment 06".to_string(),
            "rent payment 07".to_string(),
            "rent payment 08".to_string(),
            "rent payment 09".to_string(),
            "rent payment 10".to_string(),
        ]
    );
    let ids: Vec<i32> = resp.data.iter().map(|c| c.id).collect();
    assert_eq!(ids, vec![16, 19, 22, 25, 28]);
}

#[test]
fn cashflow_recap_type_filter_is_exact_after_trimming() {
    let mut repo = CashflowRepository::new();
    create_cashflow_at(&mut repo, &cashflow("a", 1, "income", "monthly"), 1).unwrap();
    create_cashflow_at(&mut repo, &cashflow("b", 2, "income", "month"), 2).unwrap();
    let q = GetListCashflowQuery {
        limit: None,
        page: None,
        search: None,
        order_by: None,
        direction: None,
        cashflow_type: None,
        recap_type: Some(" monthly ".to_string()),
    };
    let resp = list_cashflows(&repo, q).unwrap();
    assert_eq!(resp.total, 1);
    assert_eq!(resp.data[0].note, "a");
}

#[test]
fn deleted_cashflow_stays_out_of_listings() {
    let mut repo = CashflowRepository::new();
    create_cashflow_at(&mut repo, &cashflow("one", 1, "income", "m"), 1).unwrap();
    create_cashflow_at(&mut repo, &cashflow("two", 2, "income", "m"), 2).unwrap();
    delete_cashflow_at(&mut repo, 1, 3).unwrap();
    let q = GetListCashflowQuery {
        limit: None,
        page: None,
        search: None,
        order_by: None,
        direction: None,
        cashflow_type: None,
        recap_type: None,
    };
    let resp = list_cashflows(&repo, q).unwrap();
    assert_eq!(resp.total, 1);
    assert_eq!(resp.data[0].id, 2);
}

#[test]
fn transaction_product_filter_applies_when_parseable_and_is_ignored_otherwise() {
    let mut products = ProductRepository::new();
    let mut transactions = TransactionRepository::new();
    create_product_at(&mut products, &product("Widget", 100, 150), 1).unwrap();
    create_product_at(&mut products, &product("Gadget", 10, 20), 2).unwrap();
    for (pid, qty) in [(1, 1), (2, 2), (1, 3)] {
        let req = CreateTransactionRequest { product_id: pid, qty };
        create_transaction_at(&mut transactions, &products, &req, 5).unwrap();
    }
    let q = GetListTransactionQuery {
        limit: None,
        page: None,
        search: None,
        order_by: None,
        direction: None,
        product_id: Some("1".to_string()),
    };
    let resp = list_transactions(&transactions, q).unwrap();
    assert_eq!(resp.total, 2);
    let ids: Vec<i32> = resp.data.iter().map(|x| x.id).collect();
    assert_eq!(ids, vec![1, 3]);

    // An unparseable product filter is silently ignored, not an error.
    let q = GetListTransactionQuery {
        limit: None,
        page: None,
        search: None,
        order_by: None,
        direction: None,
        product_id: Some("one".to_string()),
    };
    let resp = list_transactions(&transactions, q).unwrap();
    assert_eq!(resp.total, 3);

    // Ordering by quantity descending.
    let q = GetListTransactionQuery {
        limit: None,
        page: None,
        search: None,
        order_by: Some("qty".to_string()),
        direction: Some("desc".to_string()),
        product_id: None,
    };
    let resp = list_transactions(&transactions, q).unwrap();
    let qtys: Vec<i32> = resp.data.iter().map(|x| x.qty).collect();
    assert_eq!(qtys, vec![3, 2, 1]);
}
