//! A layer as it is handed to the caller: its parameters, and what logging
//! the exposure of one of them takes.

use crate::eval_details::EvalDetails;
use crate::eval_result::EvalResult;
use crate::json::{find_member, member_value, JsonMember, JsonValue};
use crate::statsig_user::StatsigUser;
use vstd::prelude::*;

verus! {

pub struct LayerLogData {
    pub eval_result: EvalResult,
    pub user: StatsigUser,
}

pub struct Layer {
    pub name: String,
    pub rule_id: String,
    pub evaluation_details: EvalDetails,
    pub value: Vec<JsonMember>,
    pub log_data: LayerLogData,
}

impl Layer {
    /// The value of a parameter, or `None` where the layer has no such
    /// parameter.
    pub fn get(&self, key: &str) -> (r: Option<JsonValue>)
        ensures
            crate::eval_result::opt_json_view(r) == member_value(self.value@, key@),
    {
        match find_member(&self.value, key) {
            Some(i) => Some(self.value[i].value.duplicate()),
            None => None,
        }
    }
}

} // verus!
