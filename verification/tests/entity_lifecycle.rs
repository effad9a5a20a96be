//! Lifecycle scenarios: creation timestamps, soft deletion being
//! terminal, name uniqueness, and transaction price snapshots.

use storeledger::cashflow::CreateCashflowRequest;
use storeledger::cashflow_repository::CashflowRepository;
use storeledger::cashflow_usecase::create_cashflow_at;
use storeledger::cashflow_usecase::delete_cashflow_at;
use storeledger::cashflow_usecase::get_cashflow;
use storeledger::cashflow::GetCashflowRequest;
use storeledger::error::AppError;
use storeledger::product::CreateProductRequest;
use storeledger::product::GetProductRequest;
use storeledger::product::UpdateProductRequest;
use storeledger::product_repository::ProductRepository;
use storeledger::product_usecase::create_product_at;
use storeledger::product_usecase::delete_product_at;
use storeledger::product_usecase::get_product;
use storeledger::product_usecase::update_product_at;
use storeledger::transaction::CreateTransactionRequest;
use storeledger::transaction::GetTransactionRequest;
use storeledger::transaction_repository::TransactionRepository;
use storeledger::transaction_usecase::create_transaction_at;
use storeledger::transaction_usecase::delete_transaction_at;
use storeledger::transaction_usecase::get_transaction;

fn widget_request() -> CreateProductRequest {
    CreateProductRequest {
        name: "Widget".to_string(),
        hpp_amount: 100,
        selling_amount: 150,
    }
}

#[test]
fn created_product_is_fresh_and_undeleted() {
    let mut repo = ProductRepository::new();
    let resp = create_product_at(&mut repo, &widget_request(), 1000).unwrap();
    assert_eq!(resp.id, 1);
    assert_eq!(resp.name, "Widget");
    assert_eq!(resp.created_at, Some(1000));
    assert_eq!(resp.updated_at, Some(1000));
    // The row is stored visibly: a fresh get finds it.
    let got = get_product(&repo, &GetProductRequest { id: 1 }).unwrap();
    assert_eq!(got.hpp_amount, 100);
    assert_eq!(got.selling_amount, 150);
}

#[test]
fn created_cashflow_is_fresh_and_returned_as_latest() {
    let mut repo = CashflowRepository::new();
    let first = CreateCashflowRequest {
        note: "office rent".to_string(),
        nominal: 900,
        cashflow_type: "expense".to_string(),
        recap_type: "monthly".to_string(),
    };
    let second = CreateCashflowRequest {
        note: "sales".to_string(),
        nominal: 1200,
        cashflow_type: "income".to_string(),
        recap_type: "monthly".to_string(),
    };
    create_cashflow_at(&mut repo, &first, 10).unwrap();
    let resp = create_cashflow_at(&mut repo, &second, 20).unwrap();
    // The created entity is re-read as the most recent row, not the first.
    assert_eq!(resp.id, 2);
    assert_eq!(resp.note, "sales");
    assert_eq!(resp.created_at, Some(20));
    assert_eq!(resp.updated_at, Some(20));
}

#[test]
fn duplicate_product_name_is_rejected_whatever_the_amounts() {
    let mut repo = ProductRepository::new();
    create_product_at(&mut repo, &widget_request(), 1).unwrap();
    let clash = CreateProductRequest {
        name: "Widget".to_string(),
        hpp_amount: 7,
        selling_amount: 9,
    };
    let r = create_product_at(&mut repo, &clash, 2);
    match r {
        Err(AppError::BadRequest(m)) => {
            assert_eq!(m, "Product with this name already exists");
        },
        _ => panic!("a duplicate name must be rejected"),
    }
    // Case differences make a different name.
    let other_case = CreateProductRequest {
        name: "widget".to_string(),
        hpp_amount: 7,
        selling_amount: 9,
    };
    assert!(create_product_at(&mut repo, &other_case, 3).is_ok());
}

#[test]
fn deleted_name_can_be_reused() {
    let mut repo = ProductRepository::new();
    create_product_at(&mut repo, &widget_request(), 1).unwrap();
    delete_product_at(&mut repo, 1, 2).unwrap();
    let again = create_product_at(&mut repo, &widget_request(), 3).unwrap();
    assert_eq!(again.id, 2);
}

#[test]
fn second_delete_returns_not_found() {
    let mut repo = ProductRepository::new();
    create_product_at(&mut repo, &widget_request(), 1).unwrap();
    assert!(delete_product_at(&mut repo, 1, 2).is_ok());
    let r = delete_product_at(&mut repo, 1, 3);
    match r {
        Err(AppError::NotFound(m)) => assert_eq!(m, "Product with id 1 not found"),
        _ => panic!("a second delete must be NotFound"),
    }
}

#[test]
fn second_cashflow_delete_returns_not_found() {
    let mut repo = CashflowRepository::new();
    let req = CreateCashflowRequest {
        note: "stationery".to_string(),
        nominal: 50,
        cashflow_type: "expense".to_string(),
        recap_type: "misc".to_string(),
    };
    create_cashflow_at(&mut repo, &req, 1).unwrap();
    assert!(delete_cashflow_at(&mut repo, 1, 2).is_ok());
    assert!(matches!(
        delete_cashflow_at(&mut repo, 1, 3),
        Err(AppError::NotFound(_))
    ));
    assert!(matches!(
        get_cashflow(&repo, &GetCashflowRequest { id: 1 }),
        Err(AppError::NotFound(_))
    ));
}

#[test]
fn deleted_product_is_gone_from_get_and_update() {
    let mut repo = ProductRepository::new();
    create_product_at(&mut repo, &widget_request(), 1).unwrap();
    delete_product_at(&mut repo, 1, 2).unwrap();
    assert!(matches!(
        get_product(&repo, &GetProductRequest { id: 1 }),
        Err(AppError::NotFound(_))
    ));
    let upd = UpdateProductRequest {
        name: None,
        hpp_amount: Some(1),
        selling_amount: None,
    };
    let r = update_product_at(&mut repo, 1, &upd, 3);
    match r {
        Err(AppError::NotFound(m)) => assert_eq!(m, "Product with id 1 not found"),
        _ => panic!("updating a deleted row must be NotFound"),
    }
}

#[test]
fn get_missing_product_names_the_id() {
    let repo = ProductRepository::new();
    let r = get_product(&repo, &GetProductRequest { id: 42 });
    match r {
        Err(AppError::NotFound(m)) => assert_eq!(m, "Product with id 42 not found"),
        _ => panic!("a missing id must be NotFound"),
    }
}

#[test]
fn update_refreshes_updated_at_and_applies_only_supplied_fields() {
    let mut repo = ProductRepository::new();
    create_product_at(&mut repo, &widget_request(), 1).unwrap();
    let upd = UpdateProductRequest {
        name: None,
        hpp_amount: None,
        selling_amount: Some(200),
    };
    let resp = update_product_at(&mut repo, 1, &upd, 9).unwrap();
    assert_eq!(resp.name, "Widget");
    assert_eq!(resp.hpp_amount, 100);
    assert_eq!(resp.selling_amount, 200);
    assert_eq!(resp.created_at, Some(1));
    assert_eq!(resp.updated_at, Some(9));
}

#[test]
fn update_to_taken_name_conflicts_but_keeping_own_name_is_fine() {
    let mut repo = ProductRepository::new();
    create_product_at(&mut repo, &widget_request(), 1).unwrap();
    let gadget = CreateProductRequest {
        name: "Gadget".to_string(),
        hpp_amount: 10,
        selling_amount: 20,
    };
    create_product_at(&mut repo, &gadget, 2).unwrap();
    let steal = UpdateProductRequest {
        name: Some("Widget".to_string()),
        hpp_amount: None,
        selling_amount: None,
    };
    assert!(matches!(
        update_product_at(&mut repo, 2, &steal, 3),
        Err(AppError::BadRequest(_))
    ));
    let keep = UpdateProductRequest {
        name: Some("Gadget".to_string()),
        hpp_amount: Some(11),
        selling_amount: None,
    };
    assert!(update_product_at(&mut repo, 2, &keep, 4).is_ok());
}

#[test]
fn transaction_snapshots_price_and_survives_product_update() {
    let mut products = ProductRepository::new();
    let mut transactions = TransactionRepository::new();
    let created = create_product_at(&mut products, &widget_request(), 1).unwrap();
    assert_eq!(created.id, 1);

    let req = CreateTransactionRequest { product_id: 1, qty: 3 };
    create_transaction_at(&mut transactions, &products, &req, 2).unwrap();

    let tx = get_transaction(&transactions, &GetTransactionRequest { id: 1 }).unwrap();
    assert_eq!(tx.product_id, 1);
    assert_eq!(tx.hpp_amount, 100);
    assert_eq!(tx.selling_amount, 150);
    assert_eq!(tx.qty, 3);

    // Raising the product's price afterwards leaves the snapshot alone.
    let upd = UpdateProductRequest {
        name: None,
        hpp_amount: None,
        selling_amount: Some(200),
    };
    update_product_at(&mut products, 1, &upd, 5).unwrap();
    let tx_again = get_transaction(&transactions, &GetTransactionRequest { id: 1 }).unwrap();
    assert_eq!(tx_again.selling_amount, 150);
    assert_eq!(tx_again.hpp_amount, 100);
}

#[test]
fn transaction_for_missing_or_deleted_product_is_not_found_and_inserts_nothing() {
    let mut products = ProductRepository::new();
    let mut transactions = TransactionRepository::new();
    let req = CreateTransactionRequest { product_id: 9, qty: 1 };
    let r = create_transaction_at(&mut transactions, &products, &req, 1);
    match r {
        Err(AppError::NotFound(m)) => assert_eq!(m, "Product with id 9 not found"),
        _ => panic!("a missing product must be NotFound"),
    }
    assert!(matches!(
        get_transaction(&transactions, &GetTransactionRequest { id: 1 }),
        Err(AppError::NotFound(_))
    ));

    create_product_at(&mut products, &widget_request(), 2).unwrap();
    delete_product_at(&mut products, 1, 3).unwrap();
    let req2 = CreateTransactionRequest { product_id: 1, qty: 1 };
    assert!(matches!(
        create_transaction_at(&mut transactions, &products, &req2, 4),
        Err(AppError::NotFound(_))
    ));
    assert!(matches!(
        get_transaction(&transactions, &GetTransactionRequest { id: 1 }),
        Err(AppError::NotFound(_))
    ));
}

#[test]
fn transaction_update_and_delete_follow_the_shared_lifecycle() {
    let mut products = ProductRepository::new();
    let mut transactions = TransactionRepository::new();
    create_product_at(&mut products, &widget_request(), 1).unwrap();
    let req = CreateTransactionRequest { product_id: 1, qty: 2 };
    create_transaction_at(&mut transactions, &products, &req, 2).unwrap();

    let upd = storeledger::transaction::UpdateTransactionRequest {
        product_id: None,
        hpp_amount: Some(111),
        selling_amount: None,
        qty: Some(5),
    };
    let resp =
        storeledger::transaction_usecase::update_transaction_at(&mut transactions, 1, &upd, 3)
            .unwrap();
    assert_eq!(resp.hpp_amount, 111);
    assert_eq!(resp.selling_amount, 150);
    assert_eq!(resp.qty, 5);
    assert_eq!(resp.updated_at, Some(3));

    assert!(delete_transaction_at(&mut transactions, 1, 4).is_ok());
    assert!(matches!(
        delete_transaction_at(&mut transactions, 1, 5),
        Err(AppError::NotFound(_))
    ));
}
