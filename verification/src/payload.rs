//! Unpacking of the payloads that `db` and `auth` calls carry.
use crate::wire::{self, EgressError, EgressErrorView, ErrorOwner};
use vstd::prelude::*;
use vstd::string::StringExecFns;

verus! {

/// A JSON value.
#[verifier::external_type_specification]
#[verifier::external_body]
pub struct ExValue(serde_json::Value);

/// The text that `serde_json::to_string` writes a JSON value as, if it writes it.
pub uninterp spec fn value_text(value: serde_json::Value) -> Option<Seq<char>>;

/// `serde_json::Value::is_null`: whether the value is JSON's null, the one value that is written as
/// `null` (a number in a `Value` is finite, and written in digits).
pub assume_specification[ serde_json::Value::is_null ](value: &serde_json::Value) -> (null: bool)
    ensures
        null == (value_text(*value) == Some("null"@)),
;

/// Whether a JSON text is that of an array: only an array's text opens with a bracket.
pub open spec fn is_array_text(text: Seq<char>) -> bool {
    text.len() > 0 && text[0] == '['
}

/// `serde_json::Value::is_array`: whether the value is an array, the one kind of value that is
/// written with a bracket first. An array's text is always written.
pub assume_specification[ serde_json::Value::is_array ](value: &serde_json::Value) -> (array: bool)
    ensures
        array == (value_text(*value) is Some && is_array_text(value_text(*value)->0)),
;

/// `serde_json::to_string` on a JSON value: the text that [`value_text`] names, `None` where it
/// returns an error.
#[verifier::external_body]
fn json_text(value: &serde_json::Value) -> (text: Option<String>)
    ensures
        wire::text_of(text) == value_text(*value),
{
    serde_json::to_string(value).ok()
}

/// The `db` payload: the SQL text and its bound parameters, an array (null where the payload has
/// none).
#[derive(Debug)]
pub struct DbPayload {
    /// The SQL text.
    pub sql: String,
    /// The bound parameters.
    pub params: serde_json::Value,
}

/// An unpacked `db` payload: what the backend is handed.
#[derive(Debug)]
pub struct DbArgs {
    /// The SQL text.
    pub sql: String,
    /// The array of bound parameters, as JSON text.
    pub params_json: String,
}

/// The `auth` payload.
#[derive(Debug)]
pub struct AuthPayload {
    /// The bearer token (may be empty).
    pub token: String,
}

/// The parameter text that the backend is handed, given the text of the payload's parameters: that
/// text where it is an array's, an empty array for null, and none for anything else.
pub open spec fn params_text(text: Option<Seq<char>>) -> Option<Seq<char>> {
    match text {
        Some(t) => if t == "null"@ {
            Some("[]"@)
        } else if is_array_text(t) {
            Some(t)
        } else {
            None
        },
        None => None,
    }
}

/// The error for a `db` payload that is malformed.
pub open spec fn bad_db_payload(cause: Seq<char>) -> EgressErrorView {
    wire::plain_error(
        "db"@,
        "DB_BAD_PAYLOAD"@,
        "invalid db payload: "@ + cause,
        ErrorOwner::Developer,
    )
}

/// The error for an `auth` payload that is malformed.
pub open spec fn bad_auth_payload(cause: Seq<char>) -> EgressErrorView {
    wire::plain_error(
        "auth"@,
        "AUTH_REQUEST"@,
        "invalid auth payload: "@ + cause,
        ErrorOwner::Developer,
    )
}

/// The parameter text for parameters that are null (`null`), or else an array (`array`) that was
/// written as `text` (`None` where it could not be written). Other parameters have none.
pub fn params_or_empty(null: bool, array: bool, text: Option<String>) -> (params_json: Option<
    String,
>)
    ensures
        wire::text_of(params_json) == (if null {
            Some("[]"@)
        } else if !array {
            None
        } else if text is None {
            Some("[]"@)
        } else {
            Some(text->0@)
        }),
{
    if null {
        return Some("[]".to_owned());
    }
    if !array {
        return None;
    }
    match text {
        Some(t) => Some(t),
        None => Some("[]".to_owned()),
    }
}

/// The error for a `db` payload with this cause.
fn db_payload_error(cause: &str) -> (error: EgressError)
    ensures
        error@ == bad_db_payload(cause@),
{
    EgressError::new(
        "db",
        "DB_BAD_PAYLOAD",
        "invalid db payload: ".to_owned().concat(cause),
    ).owner(ErrorOwner::Developer)
}

/// Unpacks a decoded `db` payload, with `[]` for parameters that are missing or null. Parameters
/// that are neither null nor an array make the payload malformed. `decoded` is what decoding the
/// payload's JSON text gave: the payload, or the decoder's account of why the text is none.
pub fn parse_db_payload(decoded: Result<DbPayload, String>) -> (args: Result<DbArgs, EgressError>)
    ensures
        match decoded {
            Ok(payload) => match params_text(value_text(payload.params)) {
                Some(params_json) => args matches Ok(a) && a.sql == payload.sql && a.params_json@
                    == params_json && is_array_text(a.params_json@),
                None => args matches Err(error) && error@ == bad_db_payload(
                    "params is not an array"@,
                ),
            },
            Err(cause) => args matches Err(error) && error@ == bad_db_payload(cause@),
        },
{
    match decoded {
        Ok(payload) => {
            let null = payload.params.is_null();
            let array = payload.params.is_array();
            let text = if array {
                json_text(&payload.params)
            } else {
                None
            };
            proof {
                reveal_strlit("null");
                reveal_strlit("[]");
            }
            match params_or_empty(null, array, text) {
                Some(params_json) => Ok(DbArgs { sql: payload.sql, params_json }),
                None => Err(db_payload_error("params is not an array")),
            }
        },
        Err(cause) => Err(db_payload_error(cause.as_str())),
    }
}

/// Unpacks a decoded `auth` payload into the bearer token. `decoded` is what decoding the payload's
/// JSON text gave: the payload, or the decoder's account of why the text is none.
pub fn parse_auth_token(decoded: Result<AuthPayload, String>) -> (token: Result<
    String,
    EgressError,
>)
    ensures
        match decoded {
            Ok(payload) => token == Ok::<String, EgressError>(payload.token),
            Err(cause) => token matches Err(error) && error@ == bad_auth_payload(cause@),
        },
{
    match decoded {
        Ok(payload) => Ok(payload.token),
        Err(cause) => Err(
            EgressError::new(
                "auth",
                "AUTH_REQUEST",
                "invalid auth payload: ".to_owned().concat(cause.as_str()),
            ).owner(ErrorOwner::Developer),
        ),
    }
}

} // verus!
