//! The outcome of evaluating a gate, a config or a layer for a user.

use crate::eval_details::{EvalDetails, EvaluationReason};
use crate::json::{JsonValue, JsonView};
use crate::text::{opt_strings_view, opt_view};
use vstd::prelude::*;

verus! {

/// A gate that was evaluated on the way to a result.
#[derive(Debug)]
pub struct SecondaryExposure {
    pub gate: String,
    pub gate_value: String,
    pub rule_id: String,
}

pub struct ExposureView {
    pub gate: Seq<char>,
    pub gate_value: Seq<char>,
    pub rule_id: Seq<char>,
}

impl View for SecondaryExposure {
    type V = ExposureView;

    open spec fn view(&self) -> ExposureView {
        ExposureView { gate: self.gate@, gate_value: self.gate_value@, rule_id: self.rule_id@ }
    }
}

pub open spec fn exposures_view(v: Seq<SecondaryExposure>) -> Seq<ExposureView> {
    Seq::new(v.len(), |i: int| v[i]@)
}

pub open spec fn opt_exposures_view(v: Option<Vec<SecondaryExposure>>) -> Option<
    Seq<ExposureView>,
> {
    match v {
        Some(e) => Some(exposures_view(e@)),
        None => None,
    }
}

pub open spec fn opt_json_view(v: Option<JsonValue>) -> Option<JsonView> {
    match v {
        Some(j) => Some(j@),
        None => None,
    }
}

impl SecondaryExposure {
    pub fn duplicate(&self) -> (r: SecondaryExposure)
        ensures
            r@ == self@,
    {
        SecondaryExposure {
            gate: self.gate.clone(),
            gate_value: self.gate_value.clone(),
            rule_id: self.rule_id.clone(),
        }
    }
}

impl Clone for SecondaryExposure {
    fn clone(&self) -> (r: SecondaryExposure)
        ensures
            r@ == self@,
    {
        self.duplicate()
    }
}

/// A copy of a list of exposures.
pub fn copy_exposures(v: &Vec<SecondaryExposure>) -> (r: Vec<SecondaryExposure>)
    ensures
        exposures_view(r@) == exposures_view(v@),
{
    let mut out: Vec<SecondaryExposure> = Vec::new();
    let mut i: usize = 0;
    while i < v.len()
        invariant
            i <= v.len(),
            out.len() == i,
            forall|k: int| 0 <= k < i ==> out@[k]@ == v@[k]@,
        decreases v.len() - i,
    {
        out.push(v[i].duplicate());
        i += 1;
    }
    assert(exposures_view(out@) =~= exposures_view(v@));
    out
}

/// Puts copies of the exposures of `more` behind those of `list`.
pub fn append_exposures(list: &mut Vec<SecondaryExposure>, more: &Vec<SecondaryExposure>)
    ensures
        exposures_view(final(list)@) == exposures_view(old(list)@) + exposures_view(more@),
{
    let ghost before = exposures_view(list@);
    let mut i: usize = 0;
    assert(exposures_view(more@).take(0) =~= Seq::empty());
    assert(before + Seq::empty() =~= before);
    while i < more.len()
        invariant
            i <= more.len(),
            exposures_view(list@) == before + exposures_view(more@).take(i as int),
        decreases more.len() - i,
    {
        let ghost prev = exposures_view(list@);
        list.push(more[i].duplicate());
        assert(exposures_view(list@) =~= prev.push(more@[i as int]@));
        assert(exposures_view(more@).take(i + 1) =~= exposures_view(more@).take(i as int).push(
            more@[i as int]@,
        ));
        assert(before + exposures_view(more@).take(i + 1) =~= prev.push(more@[i as int]@));
        i += 1;
    }
    assert(exposures_view(more@).take(more.len() as int) =~= exposures_view(more@));
}

pub struct EvalResult {
    pub bool_value: bool,
    pub json_value: Option<JsonValue>,
    pub rule_id: String,
    pub unsupported: bool,
    pub secondary_exposures: Option<Vec<SecondaryExposure>>,
    pub undelegated_secondary_exposures: Option<Vec<SecondaryExposure>>,
    pub explicit_parameters: Option<Vec<String>>,
    pub config_delegate: Option<String>,
    pub is_experiment_group: bool,
    pub evaluation_details: EvalDetails,
    pub group_name: Option<String>,
}

pub struct EvalResultView {
    pub bool_value: bool,
    pub json_value: Option<JsonView>,
    pub rule_id: Seq<char>,
    pub unsupported: bool,
    pub secondary_exposures: Option<Seq<ExposureView>>,
    pub undelegated_secondary_exposures: Option<Seq<ExposureView>>,
    pub explicit_parameters: Option<Seq<Seq<char>>>,
    pub config_delegate: Option<Seq<char>>,
    pub is_experiment_group: bool,
    pub evaluation_details: EvalDetails,
    pub group_name: Option<Seq<char>>,
}

impl View for EvalResult {
    type V = EvalResultView;

    open spec fn view(&self) -> EvalResultView {
        EvalResultView {
            bool_value: self.bool_value,
            json_value: opt_json_view(self.json_value),
            rule_id: self.rule_id@,
            unsupported: self.unsupported,
            secondary_exposures: opt_exposures_view(self.secondary_exposures),
            undelegated_secondary_exposures: opt_exposures_view(
                self.undelegated_secondary_exposures,
            ),
            explicit_parameters: opt_strings_view(self.explicit_parameters),
            config_delegate: opt_view(self.config_delegate),
            is_experiment_group: self.is_experiment_group,
            evaluation_details: self.evaluation_details,
            group_name: opt_view(self.group_name),
        }
    }
}

/// The details of a result that no evaluation has stamped yet.
pub open spec fn blank_details() -> EvalDetails {
    EvalDetails {
        reason: EvaluationReason::Uninitialized,
        config_sync_time: 0,
        init_time: 0,
        server_time: 0,
    }
}

/// The result that says nothing: false, with no value and an empty rule id.
pub open spec fn default_result() -> EvalResultView {
    EvalResultView {
        bool_value: false,
        json_value: None,
        rule_id: Seq::empty(),
        unsupported: false,
        secondary_exposures: None,
        undelegated_secondary_exposures: None,
        explicit_parameters: None,
        config_delegate: None,
        is_experiment_group: false,
        evaluation_details: blank_details(),
        group_name: None,
    }
}

/// The result of a condition or an operator that is not known.
pub open spec fn unsupported_result() -> EvalResultView {
    EvalResultView { unsupported: true, rule_id: "unsupported"@, ..default_result() }
}

/// The result of a condition that holds or does not.
pub open spec fn boolean_result(b: bool) -> EvalResultView {
    EvalResultView { bool_value: b, ..default_result() }
}

/// The result for a name that the rule set does not hold.
pub open spec fn unrecognized_result(details: EvalDetails) -> EvalResultView {
    EvalResultView {
        rule_id: "default"@,
        evaluation_details: EvalDetails { reason: EvaluationReason::Unrecognized, ..details },
        ..default_result()
    }
}

/// The result of a check made before any rule set has arrived.
pub open spec fn uninitialized_result(details: EvalDetails) -> EvalResultView {
    EvalResultView {
        rule_id: "default"@,
        evaluation_details: EvalDetails { reason: EvaluationReason::Uninitialized, ..details },
        ..default_result()
    }
}

impl EvalResult {
    pub fn unsupported() -> (r: Self)
        ensures
            r@ == unsupported_result(),
    {
        Self { unsupported: true, rule_id: "unsupported".to_owned(), ..Self::default() }
    }

    pub fn boolean(bool_value: bool) -> (r: Self)
        ensures
            r@ == boolean_result(bool_value),
    {
        Self { bool_value, ..Self::default() }
    }

    pub fn unrecognized(eval_details: EvalDetails) -> (r: Self)
        ensures
            r@ == unrecognized_result(eval_details),
    {
        let mut eval_details = eval_details;
        eval_details.reason = EvaluationReason::Unrecognized;
        Self { rule_id: "default".to_owned(), evaluation_details: eval_details, ..Self::default() }
    }

    pub fn uninitialized(eval_details: EvalDetails) -> (r: Self)
        ensures
            r@ == uninitialized_result(eval_details),
    {
        let mut eval_details = eval_details;
        eval_details.reason = EvaluationReason::Uninitialized;
        Self { rule_id: "default".to_owned(), evaluation_details: eval_details, ..Self::default() }
    }

    pub fn default() -> (r: Self)
        ensures
            r@ == default_result(),
    {
        Self {
            bool_value: false,
            json_value: None,
            rule_id: String::new(),
            unsupported: false,
            secondary_exposures: None,
            undelegated_secondary_exposures: None,
            explicit_parameters: None,
            config_delegate: None,
            is_experiment_group: false,
            evaluation_details: EvalDetails::default(0),
            group_name: None,
        }
    }
}

} // verus!
