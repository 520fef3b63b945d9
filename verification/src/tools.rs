//! The resolution and aggregation components, and the envelope in which
//! their results are handed on.

use crate::text::text_view;
use crate::tools::rdap::JsonValue;
use vstd::prelude::*;

pub mod dns;
pub mod domain;
pub mod domain_age_check;
pub mod expired;
pub mod rdap;
pub mod ssl;
pub mod whois;

verus! {

/// The envelope of the result of an operation: the data of a success, or
/// the message of a failure.
#[derive(Debug)]
pub struct ToolResponse {
    pub success: bool,
    pub data: JsonValue,
    pub error: Option<String>,
}

impl ToolResponse {
    /// The envelope of a success with its data.
    pub fn success(data: JsonValue) -> (r: Self)
        ensures
            r.success,
            r.data == data,
            r.error.is_none(),
    {
        ToolResponse { success: true, data, error: None }
    }

    /// The envelope of a failure with its message; the data is null.
    pub fn error(message: String) -> (r: Self)
        ensures
            !r.success,
            r.data == JsonValue::Null,
            text_view(r.error) == Some(message@),
    {
        ToolResponse { success: false, data: JsonValue::Null, error: Some(message) }
    }
}

} // verus!
