//! A gate as it is handed to the caller.

use crate::eval_details::EvalDetails;
use vstd::prelude::*;

verus! {

pub struct FeatureGate {
    pub name: String,
    pub value: bool,
    pub rule_id: String,
    pub evaluation_details: EvalDetails,
}

} // verus!
