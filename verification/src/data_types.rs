//! The rule set as it arrives: gates, configs and layers with their rules
//! and conditions.

use crate::json::{opt_members_view, JsonMember, JsonValue, JsonView, MemberView};
use crate::text::{opt_strings_view, opt_view};
use vstd::prelude::*;

verus! {

pub struct APISpec {
    pub name: String,
    pub _type: String,
    pub salt: String,
    pub default_value: JsonValue,
    pub enabled: bool,
    pub rules: Vec<APIRule>,
    pub id_type: String,
    pub explicit_parameters: Option<Vec<String>>,
    pub entity: String,
    pub has_shared_params: Option<bool>,
    pub is_active: Option<bool>,
}

pub struct APIRule {
    pub name: String,
    /// The share of units that pass, in percent, as a numeral.
    pub pass_percentage: String,
    pub return_value: JsonValue,
    pub id: String,
    pub salt: Option<String>,
    pub conditions: Vec<APICondition>,
    pub id_type: String,
    pub group_name: Option<String>,
    pub config_delegate: Option<String>,
    pub is_experiment_group: Option<bool>,
}

pub struct APICondition {
    pub condition_type: String,
    pub target_value: Option<JsonValue>,
    pub operator: Option<String>,
    pub field: Option<String>,
    pub additional_values: Option<Vec<JsonMember>>,
    pub id_type: String,
}

/// A rule set that differs from the one asked about.
pub struct APIDownloadedConfigsWithUpdates {
    pub feature_gates: Vec<APISpec>,
    pub dynamic_configs: Vec<APISpec>,
    pub layer_configs: Vec<APISpec>,
    pub id_lists: Option<Vec<(String, bool)>>,
    /// For each layer, the experiments that it holds.
    pub layers: Option<Vec<(String, Vec<String>)>>,
    pub has_updates: bool,
    pub time: u64,
}

/// The answer that nothing has changed.
pub struct APIDownloadedConfigsNoUpdates {
    pub has_updates: bool,
}

pub enum APIDownloadedConfigsResponse {
    WithUpdates(APIDownloadedConfigsWithUpdates),
    NoUpdates(APIDownloadedConfigsNoUpdates),
}


/// What a condition holds.
pub struct ConditionView {
    pub condition_type: Seq<char>,
    pub target_value: Option<JsonView>,
    pub operator: Option<Seq<char>>,
    pub field: Option<Seq<char>>,
    pub additional_values: Option<Seq<MemberView>>,
    pub id_type: Seq<char>,
}

/// What a rule holds.
pub struct RuleView {
    pub name: Seq<char>,
    pub pass_percentage: Seq<char>,
    pub return_value: JsonView,
    pub id: Seq<char>,
    pub salt: Option<Seq<char>>,
    pub conditions: Seq<ConditionView>,
    pub id_type: Seq<char>,
    pub group_name: Option<Seq<char>>,
    pub config_delegate: Option<Seq<char>>,
    pub is_experiment_group: Option<bool>,
}

/// What a spec holds.
pub struct SpecView {
    pub name: Seq<char>,
    pub _type: Seq<char>,
    pub salt: Seq<char>,
    pub default_value: JsonView,
    pub enabled: bool,
    pub rules: Seq<RuleView>,
    pub id_type: Seq<char>,
    pub explicit_parameters: Option<Seq<Seq<char>>>,
    pub entity: Seq<char>,
    pub has_shared_params: Option<bool>,
    pub is_active: Option<bool>,
}

impl View for APICondition {
    type V = ConditionView;

    open spec fn view(&self) -> ConditionView {
        ConditionView {
            condition_type: self.condition_type@,
            target_value: match self.target_value {
                Some(v) => Some(v@),
                None => None,
            },
            operator: opt_view(self.operator),
            field: opt_view(self.field),
            additional_values: opt_members_view(self.additional_values),
            id_type: self.id_type@,
        }
    }
}

/// What a list of conditions holds.
pub open spec fn conditions_view(conditions: Seq<APICondition>) -> Seq<ConditionView> {
    Seq::new(conditions.len(), |i: int| conditions[i]@)
}

impl View for APIRule {
    type V = RuleView;

    open spec fn view(&self) -> RuleView {
        RuleView {
            name: self.name@,
            pass_percentage: self.pass_percentage@,
            return_value: self.return_value@,
            id: self.id@,
            salt: opt_view(self.salt),
            conditions: conditions_view(self.conditions@),
            id_type: self.id_type@,
            group_name: opt_view(self.group_name),
            config_delegate: opt_view(self.config_delegate),
            is_experiment_group: self.is_experiment_group,
        }
    }
}

/// What a list of rules holds.
pub open spec fn rules_view(rules: Seq<APIRule>) -> Seq<RuleView> {
    Seq::new(rules.len(), |i: int| rules[i]@)
}

impl View for APISpec {
    type V = SpecView;

    open spec fn view(&self) -> SpecView {
        SpecView {
            name: self.name@,
            _type: self._type@,
            salt: self.salt@,
            default_value: self.default_value@,
            enabled: self.enabled,
            rules: rules_view(self.rules@),
            id_type: self.id_type@,
            explicit_parameters: opt_strings_view(self.explicit_parameters),
            entity: self.entity@,
            has_shared_params: self.has_shared_params,
            is_active: self.is_active,
        }
    }
}

/// What a list of specs holds.
pub open spec fn specs_view(specs: Seq<APISpec>) -> Seq<SpecView> {
    Seq::new(specs.len(), |i: int| specs[i]@)
}

/// What an optional reference to a spec holds.
pub open spec fn opt_spec_view(spec: Option<&APISpec>) -> Option<SpecView> {
    match spec {
        Some(s) => Some(s@),
        None => None,
    }
}


/// What a list of layers with their experiments holds.
pub open spec fn layers_view(layers: Seq<(String, Vec<String>)>) -> Seq<(Seq<char>, Seq<Seq<char>>)> {
    Seq::new(layers.len(), |i: int| (layers[i].0@, crate::text::strings_view(layers[i].1@)))
}

/// What an answer with a rule set holds of the rule set.
pub struct AnswerView {
    pub feature_gates: Seq<SpecView>,
    pub dynamic_configs: Seq<SpecView>,
    pub layer_configs: Seq<SpecView>,
    pub layers: Option<Seq<(Seq<char>, Seq<Seq<char>>)>>,
    pub time: u64,
}

impl View for APIDownloadedConfigsWithUpdates {
    type V = AnswerView;

    open spec fn view(&self) -> AnswerView {
        AnswerView {
            feature_gates: specs_view(self.feature_gates@),
            dynamic_configs: specs_view(self.dynamic_configs@),
            layer_configs: specs_view(self.layer_configs@),
            layers: match self.layers {
                Some(l) => Some(layers_view(l@)),
                None => None,
            },
            time: self.time,
        }
    }
}

} // verus!
