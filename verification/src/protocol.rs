//! The requests a client sends and the responses it gets back.
use vstd::prelude::*;

verus! {

broadcast use vstd::string::group_string_axioms;

#[verifier::external_type_specification]
#[verifier::external_body]
pub struct ExJsonValue(serde_json::Value);

/// A request, by action, with the parameters each needs.
#[derive(Debug)]
pub enum Request {
    List,
    Enable { name: String },
    Disable { name: String },
    Create { name: String, src: String, dest: String, proto: String, port: String },
    Delete { name: String },
    Status,
}

/// A response: whether the request succeeded, a message, and any data.
#[derive(Debug)]
pub struct Response {
    pub success: bool,
    pub message: String,
    pub data: Option<serde_json::Value>,
}

impl Response {
    /// A successful response without data.
    pub fn ok(message: String) -> (r: Self)
        ensures
            r.success,
            r.message@ == message@,
            r.data is None,
    {
        Response { success: true, message, data: None }
    }

    /// A successful response that carries `data`.
    pub fn ok_with_data(message: String, data: serde_json::Value) -> (r: Self)
        ensures
            r.success,
            r.message@ == message@,
            r.data == Some(data),
    {
        Response { success: true, message, data: Some(data) }
    }

    /// A failed response.
    pub fn err(message: String) -> (r: Self)
        ensures
            !r.success,
            r.message@ == message@,
            r.data is None,
    {
        Response { success: false, message, data: None }
    }
}

} // verus!
