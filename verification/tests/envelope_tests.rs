use catalog_core::envelope::{attribute_insert_response, category_insert_response,
    diag_is_duplicate_key, health_response, list_response, product_insert_response,
    term_insert_response, ApiError};

#[test]
fn health_answer_is_fixed() {
    let (status, body) = health_response();
    assert_eq!(status, 200);
    assert_eq!(
        body,
        "{\"status\":\"success\",\"message\":\"Simple CRUD API with Rust, SQLX, Postgres,and Axum\"}"
    );
}

#[test]
fn listing_an_empty_store_is_success_with_zero_results() {
    let (status, body) = list_response("categories", 0, "[]");
    assert_eq!(status, 200);
    assert_eq!(body, "{\"status\":\"success\",\"results\":0,\"categories\":[]}");
}

#[test]
fn listing_counts_its_rows() {
    let (status, body) = list_response("notes", 3, "[{\"a\":1},{\"a\":2},{\"a\":3}]");
    assert_eq!(status, 200);
    assert_eq!(
        body,
        "{\"status\":\"success\",\"results\":3,\"notes\":[{\"a\":1},{\"a\":2},{\"a\":3}]}"
    );
}

#[test]
fn successful_product_insert_answers_created() {
    let row = "{\"id\":\"x\",\"title\":\"Lamp\"}".to_string();
    let (status, body) = product_insert_response(Ok(&row));
    assert_eq!(status, 201);
    assert_eq!(
        body,
        "{\"status\":\"success\",\"data\":{\"note\":{\"id\":\"x\",\"title\":\"Lamp\"}}}"
    );
}

#[test]
fn duplicate_product_title_answers_conflict_with_historical_message() {
    let diag = "error returned from database: duplicate key value violates unique constraint \
                \"products_title_key\""
        .to_string();
    let (status, body) = product_insert_response(Err(&diag));
    assert_eq!(status, 409);
    assert_eq!(
        body,
        "{\"status\":\"fail\",\"message\":\"Note with that title already exists\"}"
    );
}

#[test]
fn other_store_failures_answer_internal_error_with_the_raw_diagnostic() {
    let diag = "connection reset".to_string();
    let (status, body) = product_insert_response(Err(&diag));
    assert_eq!(status, 500);
    assert_eq!(body, "{\"status\":\"error\",\"message\":\"connection reset\"}");
}

#[test]
fn diagnostics_are_escaped_into_the_envelope() {
    let diag = "bad \"quote\" and\nnewline".to_string();
    let (status, body) = product_insert_response(Err(&diag));
    assert_eq!(status, 500);
    assert_eq!(
        body,
        "{\"status\":\"error\",\"message\":\"bad \\\"quote\\\" and\\nnewline\"}"
    );
}

#[test]
fn attribute_conflict_names_the_attribute() {
    let diag = "duplicate key value violates unique constraint \"product_attributes_name_key\""
        .to_string();
    let (status, body) = attribute_insert_response(Err(&diag));
    assert_eq!(status, 409);
    assert_eq!(
        body,
        "{\"status\":\"fail\",\"message\":\"Product attribute with that name already exists\"}"
    );
    let (status2, body2) = term_insert_response(Err(&diag));
    assert_eq!(status2, 409);
    assert_eq!(body2, body);
}

#[test]
fn attribute_success_reports_under_the_attribute_key() {
    let row = "{\"id\":\"y\"}".to_string();
    let (status, body) = attribute_insert_response(Ok(&row));
    assert_eq!(status, 201);
    assert_eq!(body, "{\"status\":\"success\",\"data\":{\"attribute\":{\"id\":\"y\"}}}");
}

#[test]
fn category_conflict_names_the_product() {
    let diag = "duplicate key value violates unique constraint".to_string();
    let (status, body) = category_insert_response(Err(&diag));
    assert_eq!(status, 409);
    assert_eq!(
        body,
        "{\"status\":\"fail\",\"message\":\"Product with that name already exists\"}"
    );
}

#[test]
fn duplicate_key_detection_is_a_substring_test() {
    assert!(diag_is_duplicate_key(
        "x duplicate key value violates unique constraint y"
    ));
    assert!(!diag_is_duplicate_key("duplicate key"));
    assert!(!diag_is_duplicate_key(""));
}

#[test]
fn api_error_status_codes_follow_the_taxonomy() {
    let v = ApiError::Validation { message: "m".to_string() };
    let b = ApiError::BadRequest { message: "m".to_string() };
    let c = ApiError::Conflict { message: "m".to_string() };
    let n = ApiError::NotFound { message: "m".to_string() };
    let i = ApiError::Internal { message: "m".to_string() };
    assert_eq!(v.status_code(), 400);
    assert_eq!(b.status_code(), 400);
    assert_eq!(c.status_code(), 409);
    assert_eq!(n.status_code(), 404);
    assert_eq!(i.status_code(), 500);
    assert_eq!(v.body(), "{\"status\":\"fail\",\"message\":\"m\"}");
    assert_eq!(i.body(), "{\"status\":\"error\",\"message\":\"m\"}");
}
