use store_core::errors::{error_label, status_code, ApiError};
use store_core::request::parse_id;
use store_core::store::{
    check_ids_match, check_server_assigned_id, classify_credential_error, classify_fetch_error,
    classify_write_error, rows_affected_outcome, session_insert_step, str_starts_with,
    SessionInsertStep, StoreError,
};

#[test]
fn duplicate_entry_rejections_are_conflicts() {
    let e = StoreError::Database(String::from("Duplicate entry 'Box' for key 'items.name'"));
    assert_eq!(classify_write_error(&e, false), ApiError::Conflict);
    assert_eq!(classify_write_error(&e, true), ApiError::Conflict);
}

#[test]
fn foreign_key_rejections_are_not_found_only_where_a_key_is_declared() {
    let msg = "Cannot add or update a child row: a foreign key constraint fails (`store`.`locations`, ...)";
    let e = StoreError::Database(String::from(msg));
    assert_eq!(classify_write_error(&e, true), ApiError::NotFound);
    assert_eq!(classify_write_error(&e, false), ApiError::Internal);
}

#[test]
fn unrecognized_store_failures_are_internal_with_detail_dropped() {
    let e = StoreError::Database(String::from("Lock wait timeout exceeded"));
    assert_eq!(classify_write_error(&e, true), ApiError::Internal);
    assert_eq!(classify_write_error(&StoreError::Other, true), ApiError::Internal);
    assert_eq!(classify_write_error(&StoreError::RowNotFound, true), ApiError::Internal);
}

#[test]
fn fetch_and_credential_lookups_classify_missing_rows_differently() {
    assert_eq!(classify_fetch_error(&StoreError::RowNotFound), ApiError::NotFound);
    assert_eq!(classify_fetch_error(&StoreError::Other), ApiError::Internal);
    assert_eq!(classify_credential_error(&StoreError::RowNotFound), ApiError::Unauthorized);
    assert_eq!(
        classify_credential_error(&StoreError::Database(String::from("boom"))),
        ApiError::Internal
    );
}

#[test]
fn session_insert_retries_exactly_on_duplicates() {
    assert_eq!(session_insert_step(&Ok(())), SessionInsertStep::Committed);
    let dup = Err(StoreError::Database(String::from("Duplicate entry 'Ab3dEf01'")));
    assert_eq!(session_insert_step(&dup), SessionInsertStep::Retry);
    let other = Err(StoreError::Database(String::from("Data too long")));
    assert_eq!(session_insert_step(&other), SessionInsertStep::Fatal);
    assert_eq!(session_insert_step(&Err(StoreError::Other)), SessionInsertStep::Fatal);
}

#[test]
fn zero_rows_affected_means_not_found() {
    assert_eq!(rows_affected_outcome(0), Err(ApiError::NotFound));
    assert_eq!(rows_affected_outcome(1), Ok(()));
    assert_eq!(rows_affected_outcome(7), Ok(()));
}

#[test]
fn id_prechecks() {
    assert_eq!(check_server_assigned_id(0), Ok(()));
    assert_eq!(check_server_assigned_id(12), Err(ApiError::BadRequest));
    assert_eq!(check_ids_match(4, 4), Ok(()));
    assert_eq!(check_ids_match(4, 5), Err(ApiError::BadRequest));
}

#[test]
fn prefix_matching() {
    assert!(str_starts_with("Duplicate entry 'x'", "Duplicate entry"));
    assert!(!str_starts_with("duplicate entry", "Duplicate entry"));
    assert!(!str_starts_with("Dup", "Duplicate entry"));
    assert!(str_starts_with("anything", ""));
}

#[test]
fn status_codes_and_labels() {
    assert_eq!(status_code(&ApiError::BadRequest), 400);
    assert_eq!(status_code(&ApiError::Unauthorized), 403);
    assert_eq!(status_code(&ApiError::NotFound), 404);
    assert_eq!(status_code(&ApiError::Conflict), 409);
    assert_eq!(status_code(&ApiError::Internal), 500);
    assert_eq!(error_label(&ApiError::Conflict), "conflict");
    assert_eq!(error_label(&ApiError::Internal), "internal error");
}

#[test]
fn numeric_path_parameters_parse() {
    assert_eq!(parse_id("42"), Ok(42));
    assert_eq!(parse_id("0"), Ok(0));
    assert_eq!(parse_id("007"), Ok(7));
    assert_eq!(parse_id("18446744073709551615"), Ok(u64::MAX));
}

#[test]
fn non_numeric_path_parameters_are_bad_requests() {
    assert_eq!(parse_id(""), Err(ApiError::BadRequest));
    assert_eq!(parse_id("abc"), Err(ApiError::BadRequest));
    assert_eq!(parse_id("12x"), Err(ApiError::BadRequest));
    assert_eq!(parse_id("-3"), Err(ApiError::BadRequest));
    assert_eq!(parse_id("+3"), Err(ApiError::BadRequest));
    assert_eq!(parse_id("1 2"), Err(ApiError::BadRequest));
    assert_eq!(parse_id("18446744073709551616"), Err(ApiError::BadRequest));
}
