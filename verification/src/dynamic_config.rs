//! A config or an experiment as it is handed to the caller.

use crate::eval_details::EvalDetails;
use crate::json::JsonValue;
use vstd::prelude::*;

verus! {

pub struct DynamicConfig {
    pub name: String,
    pub value: Option<JsonValue>,
    pub rule_id: String,
    pub evaluation_details: EvalDetails,
}

} // verus!
