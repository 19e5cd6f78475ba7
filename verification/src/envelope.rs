//! The uniform response envelope: every handler answers with one of two JSON
//! shapes — `{"status":"success",...}` or `{"status":"fail"|"error","message":...}`
//! — plus an HTTP status code.

use vstd::prelude::*;
use vstd::string::StringExecFns;
use crate::text::{dec_rep, json_escape, json_escaped, seq_contains_sub, str_contains,
    usize_to_string};

verus! {

// ---------------------------------------------------------------------------
// The JSON shapes, as character sequences
// ---------------------------------------------------------------------------

/// Body of a successful create: `{"status":"success","data":{"<key>":<row>}}`,
/// with the freshly inserted row embedded verbatim as JSON.
pub open spec fn success_create_json(key: Seq<char>, row: Seq<char>) -> Seq<char> {
    "{\"status\":\"success\",\"data\":{\""@ + key + "\":"@ + row + "}}"@
}

/// Body of a plain success-with-message response.
pub open spec fn success_message_json(msg: Seq<char>) -> Seq<char> {
    "{\"status\":\"success\",\"message\":\""@ + json_escaped(msg) + "\"}"@
}

/// Body of a failure the client caused: status word `fail`.
pub open spec fn fail_json(msg: Seq<char>) -> Seq<char> {
    "{\"status\":\"fail\",\"message\":\""@ + json_escaped(msg) + "\"}"@
}

/// Body of an internal failure: status word `error`, message carrying the raw
/// diagnostic.
pub open spec fn error_json(msg: Seq<char>) -> Seq<char> {
    "{\"status\":\"error\",\"message\":\""@ + json_escaped(msg) + "\"}"@
}

/// Body of a successful list response:
/// `{"status":"success","results":<n>,"<key>":<rows>}`.
pub open spec fn list_success_json(key: Seq<char>, results: nat, rows: Seq<char>) -> Seq<char> {
    "{\"status\":\"success\",\"results\":"@ + dec_rep(results) + ",\""@ + key + "\":"@ + rows
        + "}"@
}

// ---------------------------------------------------------------------------
// Exec body builders
// ---------------------------------------------------------------------------

/// Renders the create-success body for one inserted row.
pub fn success_create_body(entity_key: &str, row_json: &str) -> (r: String)
    ensures
        r@ == success_create_json(entity_key@, row_json@),
{
    let mut r = String::from_str("{\"status\":\"success\",\"data\":{\"");
    r.append(entity_key);
    r.append("\":");
    r.append(row_json);
    r.append("}}");
    proof {
        assert(r@ =~= success_create_json(entity_key@, row_json@));
    }
    r
}

/// Renders the success-with-message body.
pub fn success_message_body(message: &str) -> (r: String)
    ensures
        r@ == success_message_json(message@),
{
    let mut r = String::from_str("{\"status\":\"success\",\"message\":\"");
    let esc = json_escape(message);
    r.append(esc.as_str());
    r.append("\"}");
    proof {
        assert(r@ =~= success_message_json(message@));
    }
    r
}

/// Renders the client-failure body.
pub fn fail_body(message: &str) -> (r: String)
    ensures
        r@ == fail_json(message@),
{
    let mut r = String::from_str("{\"status\":\"fail\",\"message\":\"");
    let esc = json_escape(message);
    r.append(esc.as_str());
    r.append("\"}");
    proof {
        assert(r@ =~= fail_json(message@));
    }
    r
}

/// Renders the internal-failure body.
pub fn error_body(message: &str) -> (r: String)
    ensures
        r@ == error_json(message@),
{
    let mut r = String::from_str("{\"status\":\"error\",\"message\":\"");
    let esc = json_escape(message);
    r.append(esc.as_str());
    r.append("\"}");
    proof {
        assert(r@ =~= error_json(message@));
    }
    r
}

// ---------------------------------------------------------------------------
// Error taxonomy
// ---------------------------------------------------------------------------

/// Every failure a handler can answer with: a missing required field, a
/// malformed multipart part, a uniqueness violation, a missing row, or any
/// other store or I/O failure.
#[derive(Debug)]
pub enum ApiError {
    Validation { message: String },
    BadRequest { message: String },
    Conflict { message: String },
    NotFound { message: String },
    Internal { message: String },
}

impl ApiError {
    /// The HTTP status code this failure is answered with.
    pub open spec fn spec_status_code(&self) -> u16 {
        match self {
            ApiError::Validation { .. } => 400,
            ApiError::BadRequest { .. } => 400,
            ApiError::Conflict { .. } => 409,
            ApiError::NotFound { .. } => 404,
            ApiError::Internal { .. } => 500,
        }
    }

    /// The user-facing message this failure carries.
    pub open spec fn spec_message(&self) -> Seq<char> {
        match self {
            ApiError::Validation { message } => message@,
            ApiError::BadRequest { message } => message@,
            ApiError::Conflict { message } => message@,
            ApiError::NotFound { message } => message@,
            ApiError::Internal { message } => message@,
        }
    }

    /// The envelope body: internal failures use the `error` status word, all
    /// client-caused failures use `fail`.
    pub open spec fn spec_body(&self) -> Seq<char> {
        if self is Internal {
            error_json(self.spec_message())
        } else {
            fail_json(self.spec_message())
        }
    }

    pub fn status_code(&self) -> (r: u16)
        ensures
            r == self.spec_status_code(),
    {
        match self {
            ApiError::Validation { .. } => 400,
            ApiError::BadRequest { .. } => 400,
            ApiError::Conflict { .. } => 409,
            ApiError::NotFound { .. } => 404,
            ApiError::Internal { .. } => 500,
        }
    }

    pub fn body(&self) -> (r: String)
        ensures
            r@ == self.spec_body(),
    {
        match self {
            ApiError::Validation { message } => fail_body(message.as_str()),
            ApiError::BadRequest { message } => fail_body(message.as_str()),
            ApiError::Conflict { message } => fail_body(message.as_str()),
            ApiError::NotFound { message } => fail_body(message.as_str()),
            ApiError::Internal { message } => error_body(message.as_str()),
        }
    }
}

// ---------------------------------------------------------------------------
// Fixed responses
// ---------------------------------------------------------------------------

/// The health-check answer: HTTP 200 and a fixed success message.
pub fn health_response() -> (r: (u16, String))
    ensures
        r.0 == 200,
        r.1@ == success_message_json("Simple CRUD API with Rust, SQLX, Postgres,and Axum"@),
{
    let body = success_message_body("Simple CRUD API with Rust, SQLX, Postgres,and Axum");
    (200, body)
}

/// The answer for any list query: HTTP 200 and a success body carrying the
/// row count and the serialized rows. A list never fails — zero rows is a
/// success with `results` 0, not an error.
pub fn list_response(entity_key: &str, results: usize, rows_json: &str) -> (r: (u16, String))
    ensures
        r.0 == 200,
        r.1@ == list_success_json(entity_key@, results as nat, rows_json@),
{
    let mut body = String::from_str("{\"status\":\"success\",\"results\":");
    let count = usize_to_string(results);
    body.append(count.as_str());
    body.append(",\"");
    body.append(entity_key);
    body.append("\":");
    body.append(rows_json);
    body.append("}");
    proof {
        assert(body@ =~= list_success_json(entity_key@, results as nat, rows_json@));
    }
    (200, body)
}

// ---------------------------------------------------------------------------
// Insert outcome classification
// ---------------------------------------------------------------------------

/// The store's conflict signal: the fragment of a diagnostic that marks a
/// uniqueness violation.
pub open spec fn dup_key_marker() -> Seq<char> {
    "duplicate key value violates unique constraint"@
}

/// The diagnostic reports a duplicate key.
pub open spec fn is_duplicate_key_diag(diag: Seq<char>) -> bool {
    seq_contains_sub(diag, dup_key_marker())
}

/// Decides whether a store diagnostic reports a uniqueness violation.
pub fn diag_is_duplicate_key(diag: &str) -> (r: bool)
    ensures
        r == is_duplicate_key_diag(diag@),
{
    str_contains(diag, "duplicate key value violates unique constraint")
}

/// A store result as character sequences: the inserted row's JSON on
/// success, the raw diagnostic on failure.
pub open spec fn str_result_view(result: Result<&String, &String>) -> Result<Seq<char>, Seq<char>> {
    match result {
        Ok(row) => Ok(row@),
        Err(diag) => Err(diag@),
    }
}

/// What an insert outcome is answered with: 201 with the row on success,
/// 409 with the fixed conflict message on a duplicate key, 500 with the raw
/// diagnostic otherwise.
pub open spec fn insert_response_spec(
    result: Result<Seq<char>, Seq<char>>,
    key: Seq<char>,
    conflict_message: Seq<char>,
) -> (u16, Seq<char>) {
    match result {
        Ok(row) => (201u16, success_create_json(key, row)),
        Err(diag) => if is_duplicate_key_diag(diag) {
            (409u16, fail_json(conflict_message))
        } else {
            (500u16, error_json(diag))
        },
    }
}

/// Answers an insert outcome: the only structural branch a handler takes on
/// a store failure is whether the diagnostic reports a duplicate key.
pub fn insert_response(
    result: Result<&String, &String>,
    entity_key: &str,
    conflict_message: &str,
) -> (r: (u16, String))
    ensures
        (r.0, r.1@) == insert_response_spec(
            str_result_view(result),
            entity_key@,
            conflict_message@,
        ),
{
    match result {
        Ok(row) => {
            let body = success_create_body(entity_key, row.as_str());
            (201, body)
        },
        Err(diag) => {
            if diag_is_duplicate_key(diag.as_str()) {
                let body = fail_body(conflict_message);
                (409, body)
            } else {
                let body = error_body(diag.as_str());
                (500, body)
            }
        },
    }
}

/// Answers a product insert. The conflict message names the wrong entity —
/// a historical quirk that clients have come to expect, kept as is.
pub fn product_insert_response(result: Result<&String, &String>) -> (r: (u16, String))
    ensures
        (r.0, r.1@) == insert_response_spec(
            str_result_view(result),
            "note"@,
            "Note with that title already exists"@,
        ),
{
    insert_response(result, "note", "Note with that title already exists")
}

/// Answers a category insert.
pub fn category_insert_response(result: Result<&String, &String>) -> (r: (u16, String))
    ensures
        (r.0, r.1@) == insert_response_spec(
            str_result_view(result),
            "note"@,
            "Product with that name already exists"@,
        ),
{
    insert_response(result, "note", "Product with that name already exists")
}

/// Answers an attribute insert.
pub fn attribute_insert_response(result: Result<&String, &String>) -> (r: (u16, String))
    ensures
        (r.0, r.1@) == insert_response_spec(
            str_result_view(result),
            "attribute"@,
            "Product attribute with that name already exists"@,
        ),
{
    insert_response(result, "attribute", "Product attribute with that name already exists")
}

/// Answers a term insert; terms report under their owning attribute's key.
pub fn term_insert_response(result: Result<&String, &String>) -> (r: (u16, String))
    ensures
        (r.0, r.1@) == insert_response_spec(
            str_result_view(result),
            "attribute"@,
            "Product attribute with that name already exists"@,
        ),
{
    insert_response(result, "attribute", "Product attribute with that name already exists")
}

} // verus!
