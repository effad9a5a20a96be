//! Field validation, error responses, and configuration defaulting.

use storeledger::cashflow::CreateCashflowRequest;
use storeledger::cashflow::UpdateCashflowRequest;
use storeledger::config::config_from_env;
use storeledger::error::AppError;
use storeledger::product::CreateProductRequest;
use storeledger::product::GetProductRequest;
use storeledger::product::UpdateProductRequest;
use storeledger::transaction::CreateTransactionRequest;
use storeledger::transaction::UpdateTransactionRequest;

#[test]
fn product_create_validation_checks_each_field_in_order() {
    let ok = CreateProductRequest {
        name: "x".to_string(),
        hpp_amount: 0,
        selling_amount: 0,
    };
    assert!(ok.validate().is_ok());

    let empty_name = CreateProductRequest {
        name: "".to_string(),
        hpp_amount: 1,
        selling_amount: 1,
    };
    match empty_name.validate() {
        Err(AppError::ValidationError(m)) => {
            assert_eq!(m, "Name must be between 1 and 255 characters");
        },
        _ => panic!("an empty name must be rejected"),
    }

    let long_name = CreateProductRequest {
        name: "x".repeat(256),
        hpp_amount: 1,
        selling_amount: 1,
    };
    assert!(long_name.validate().is_err());
    let max_name = CreateProductRequest {
        name: "x".repeat(255),
        hpp_amount: 1,
        selling_amount: 1,
    };
    assert!(max_name.validate().is_ok());

    let negative_hpp = CreateProductRequest {
        name: "x".to_string(),
        hpp_amount: -1,
        selling_amount: 1,
    };
    match negative_hpp.validate() {
        Err(AppError::ValidationError(m)) => assert_eq!(m, "HPP amount must be non-negative"),
        _ => panic!("a negative cost must be rejected"),
    }

    let negative_selling = CreateProductRequest {
        name: "x".to_string(),
        hpp_amount: 1,
        selling_amount: -1,
    };
    match negative_selling.validate() {
        Err(AppError::ValidationError(m)) => {
            assert_eq!(m, "Selling amount must be non-negative");
        },
        _ => panic!("a negative price must be rejected"),
    }
}

#[test]
fn partial_update_validation_only_checks_supplied_fields() {
    let nothing = UpdateProductRequest {
        name: None,
        hpp_amount: None,
        selling_amount: None,
    };
    assert!(nothing.validate().is_ok());

    let bad_name = UpdateProductRequest {
        name: Some("".to_string()),
        hpp_amount: None,
        selling_amount: None,
    };
    assert!(bad_name.validate().is_err());
}

#[test]
fn cashflow_validation_messages() {
    let ok = CreateCashflowRequest {
        note: "n".to_string(),
        nominal: 1,
        cashflow_type: "income".to_string(),
        recap_type: "m".to_string(),
    };
    assert!(ok.validate().is_ok());

    let zero_nominal = CreateCashflowRequest {
        note: "n".to_string(),
        nominal: 0,
        cashflow_type: "income".to_string(),
        recap_type: "m".to_string(),
    };
    match zero_nominal.validate() {
        Err(AppError::ValidationError(m)) => assert_eq!(m, "Nominal must be positive"),
        _ => panic!("a non-positive nominal must be rejected"),
    }

    let long_note = CreateCashflowRequest {
        note: "n".repeat(501),
        nominal: 1,
        cashflow_type: "income".to_string(),
        recap_type: "m".to_string(),
    };
    match long_note.validate() {
        Err(AppError::ValidationError(m)) => {
            assert_eq!(m, "Note must be between 1 and 500 characters");
        },
        _ => panic!("an oversized note must be rejected"),
    }

    let long_type = UpdateCashflowRequest {
        note: None,
        nominal: None,
        cashflow_type: Some("t".repeat(51)),
        recap_type: None,
    };
    match long_type.validate() {
        Err(AppError::ValidationError(m)) => {
            assert_eq!(m, "Type must be between 1 and 50 characters");
        },
        _ => panic!("an oversized type must be rejected"),
    }

    let long_recap = CreateCashflowRequest {
        note: "n".to_string(),
        nominal: 1,
        cashflow_type: "income".to_string(),
        recap_type: "r".repeat(51),
    };
    match long_recap.validate() {
        Err(AppError::ValidationError(m)) => {
            assert_eq!(m, "Recap type must be between 1 and 50 characters");
        },
        _ => panic!("an oversized recap type must be rejected"),
    }
}

#[test]
fn transaction_and_id_validation() {
    let ok = CreateTransactionRequest { product_id: 1, qty: 1 };
    assert!(ok.validate().is_ok());
    let bad_pid = CreateTransactionRequest { product_id: 0, qty: 1 };
    match bad_pid.validate() {
        Err(AppError::ValidationError(m)) => assert_eq!(m, "Product ID must be positive"),
        _ => panic!("a non-positive product id must be rejected"),
    }
    let bad_qty = CreateTransactionRequest { product_id: 1, qty: 0 };
    match bad_qty.validate() {
        Err(AppError::ValidationError(m)) => assert_eq!(m, "Quantity must be positive"),
        _ => panic!("a non-positive quantity must be rejected"),
    }
    let bad_update = UpdateTransactionRequest {
        product_id: None,
        hpp_amount: Some(-3),
        selling_amount: None,
        qty: None,
    };
    assert!(bad_update.validate().is_err());
    let bad_get = GetProductRequest { id: 0 };
    match bad_get.validate() {
        Err(AppError::ValidationError(m)) => assert_eq!(m, "ID must be positive"),
        _ => panic!("a non-positive id must be rejected"),
    }
}

#[test]
fn error_status_codes_match_the_api_contract() {
    assert_eq!(AppError::ValidationError("v".to_string()).status_code(), 400);
    assert_eq!(AppError::BadRequest("b".to_string()).status_code(), 400);
    assert_eq!(AppError::NotFound("n".to_string()).status_code(), 404);
    assert_eq!(AppError::InternalError.status_code(), 500);
    assert_eq!(AppError::DatabaseError("d".to_string()).status_code(), 500);
    assert_eq!(AppError::ConfigError("c".to_string()).status_code(), 500);
    assert_eq!(AppError::AuthenticationError("a".to_string()).status_code(), 401);
}

#[test]
fn config_applies_documented_defaults() {
    let c = config_from_env(None, None, None, None, None, None, None, None, None);
    assert_eq!(c.app.port, 3001);
    assert_eq!(c.db.host, "localhost");
    assert_eq!(c.db.name, "test_db");
    assert_eq!(c.db.user, "root");
    assert_eq!(c.db.password, "");
    assert_eq!(c.db.port, 5432);
    assert_eq!(c.db.driver, "postgres");
    assert_eq!(c.jwt.secret, "secret");
    assert_eq!(c.jwt.expiration, 3600);
}

#[test]
fn config_parses_supplied_values_and_falls_back_on_junk() {
    let c = config_from_env(
        Some("8080".to_string()),
        Some("db.internal".to_string()),
        None,
        None,
        None,
        Some("not a port".to_string()),
        Some("mysql".to_string()),
        None,
        Some("24".to_string()),
    );
    assert_eq!(c.app.port, 8080);
    assert_eq!(c.db.host, "db.internal");
    assert_eq!(c.db.port, 5432);
    assert_eq!(c.db.driver, "mysql");
    assert_eq!(c.jwt.expiration, 24);

    // A negative hour count parses as signed.
    let c2 = config_from_env(
        None,
        None,
        None,
        None,
        None,
        None,
        None,
        None,
        Some("-5".to_string()),
    );
    assert_eq!(c2.jwt.expiration, -5);

    // A value past the port range falls back too.
    let c = config_from_env(
        Some("70000".to_string()),
        None,
        None,
        None,
        None,
        None,
        None,
        None,
        None,
    );
    assert_eq!(c.app.port, 3001);
}
