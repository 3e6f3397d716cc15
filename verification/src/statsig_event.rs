//! An event as a caller logs it.

use crate::json::{JsonMember, JsonValue};
use vstd::prelude::*;

verus! {

pub struct StatsigEvent {
    pub event_name: String,
    pub value: Option<JsonValue>,
    pub metadata: Option<Vec<JsonMember>>,
}

} // verus!
