//! The evaluator: what a gate, a config or a layer comes to for a user
//! under a rule set.
//!
//! The functions named `..._outcome` say what an evaluation is; the methods
//! of `StatsigEvaluator` compute it. Gates that refer to gates and rules that
//! delegate to configs are followed to a depth of `MAX_DEPTH`; beyond it the
//! evaluation is unsupported.

use crate::country_lookup::{ip_value, CountryLookup, RangeTable};
use crate::data_types::{
    opt_spec_view, specs_view, APICondition, APIRule, APISpec, ConditionView, RuleView, SpecView,
};
use crate::decimal::{
    digits_of, numeral_of, numeral_order, parse_numeral, times_hundred, u64_digits, Decimal,
    DecimalView, Numeral, NumeralView,
};
use crate::eval_details::{EvalDetails, EvaluationReason};
use crate::eval_helpers::{
    compare_numbers, compare_str_with_regex, compare_strings_in_array, compare_time,
    compare_versions, numbers_compared, regex_match, regex_result, strings_in_array, text_of,
    times_compared, value_to_string, versions_compared,
};
use crate::eval_result::{
    append_exposures, boolean_result, default_result, exposures_view, opt_json_view,
    unrecognized_result, unsupported_result, EvalResult, EvalResultView, ExposureView,
    SecondaryExposure,
};
use crate::hashing::{compute_user_hash, user_hash};
use crate::json::{find_member, named_value, same_json, JsonValue, JsonView};
use crate::specs::{find_spec, spec_named, Specs, SpecsView};
use crate::statsig_user::{environment_value, unit_id, user_value, StatsigUser, UserView};
use crate::text::{
    chars_of, copy_opt, copy_opt_strings, lowercase, string_of, text_is, to_lowercase,
};
use crate::ua_parser::{agent_value, AgentParser};
use vstd::prelude::*;
use vstd::string::StringExecFns;

verus! {

/// How deep gates may refer to gates, and rules delegate to configs.
pub const MAX_DEPTH: u32 = 16;

pub struct StatsigEvaluator {
    pub country_lookup: CountryLookup,
    pub ua_parser: AgentParser,
}

/// What an evaluator holds: its table of address ranges, and the table
/// that its parser of User-Agent headers was made from, if it has one.
pub struct EvaluatorView {
    pub table: RangeTable,
    pub agent_table: Option<Seq<u8>>,
}

impl View for StatsigEvaluator {
    type V = EvaluatorView;

    open spec fn view(&self) -> EvaluatorView {
        EvaluatorView { table: self.country_lookup@, agent_table: self.ua_parser.table() }
    }
}

/// What an evaluation depends on.
pub struct EvalContext {
    pub evaluator: EvaluatorView,
    pub specs: SpecsView,
    pub user: UserView,
    pub details: EvalDetails,
}

/// The value that a condition is held against; null where it names none.
pub open spec fn target_view(target: Option<JsonView>) -> JsonView {
    match target {
        Some(v) => v,
        None => JsonView::Null,
    }
}

/// The unit of the user under an id type, or the empty text.
pub open spec fn unit_or_empty(user: UserView, id_type: Seq<char>) -> Seq<char> {
    match unit_id(user, id_type) {
        Some(u) => u,
        None => Seq::empty(),
    }
}

/// The salt that a condition on the user's bucket names: the string under
/// `salt` among its additional values, or the empty text.
pub open spec fn bucket_salt(condition: ConditionView) -> Seq<char> {
    match condition.additional_values {
        Some(m) => match named_value(m, "salt"@) {
            Some(JsonView::String(s)) => s,
            _ => Seq::empty(),
        },
        None => Seq::empty(),
    }
}

/// The bucket of the user, out of 1000, under a condition's salt and id
/// type.
pub open spec fn user_bucket(user: UserView, condition: ConditionView) -> nat {
    user_hash(bucket_salt(condition) + "."@ + unit_or_empty(user, condition.id_type)) % 1000
}

/// The salt of a rule: its own, or its id where it has none.
pub open spec fn rule_salt(rule: RuleView) -> Seq<char> {
    match rule.salt {
        Some(s) => s,
        None => rule.id,
    }
}

/// The hash that decides whether the user passes a rule of a spec.
pub open spec fn pass_hash(user: UserView, rule: RuleView, spec_salt: Seq<char>) -> nat {
    user_hash(
        spec_salt + "."@ + rule_salt(rule) + "."@ + unit_or_empty(user, rule.id_type),
    )
}

/// Whether a hash passes a percentage: its bucket, out of 10 000, is below
/// a hundred times the percentage. A percentage that is no numeral lets
/// nothing pass.
pub open spec fn passes(hash: nat, pass_percentage: Seq<char>) -> bool {
    match numeral_of(pass_percentage) {
        Some(p) => numeral_order(
            NumeralView::Finite(
                DecimalView { negative: false, mantissa: hash % 10000, exponent: 0 },
            ),
            times_hundred(p),
        ) == Some(-1int),
        None => false,
    }
}

/// The value that a condition of a kind reads from the user; `None` for a
/// kind that is not known. The kind is given in lower case.
pub open spec fn condition_value(
    evaluator: EvaluatorView,
    user: UserView,
    details: EvalDetails,
    condition: ConditionView,
    kind: Seq<char>,
) -> Option<JsonView> {
    if kind == "ip_based"@ {
        Some(
            if user_value(user, condition.field) is Null {
                ip_value(evaluator.table, user, condition.field)
            } else {
                user_value(user, condition.field)
            },
        )
    } else if kind == "ua_based"@ {
        Some(
            if user_value(user, condition.field) is Null {
                agent_value(evaluator.agent_table, user, condition.field)
            } else {
                user_value(user, condition.field)
            },
        )
    } else if kind == "user_field"@ {
        Some(user_value(user, condition.field))
    } else if kind == "environment_field"@ {
        Some(environment_value(user, condition.field))
    } else if kind == "current_time"@ {
        Some(JsonView::String(digits_of(details.server_time as nat)))
    } else if kind == "user_bucket"@ {
        Some(JsonView::Number(digits_of(user_bucket(user, condition))))
    } else if kind == "unit_id"@ {
        Some(
            match unit_id(user, condition.id_type) {
                Some(u) => JsonView::String(u),
                None => JsonView::Null,
            },
        )
    } else {
        None
    }
}

pub open spec fn or_false(b: Option<bool>) -> bool {
    match b {
        Some(x) => x,
        None => false,
    }
}

/// What an operator makes of a value and a target; `None` for an operator
/// that is not known.
pub open spec fn operator_outcome(value: JsonView, target: JsonView, op: Seq<char>) -> Option<
    bool,
> {
    if op == "gt"@ || op == "gte"@ || op == "lt"@ || op == "lte"@ {
        Some(or_false(numbers_compared(value, target, op)))
    } else if op == "version_gt"@ || op == "version_gte"@ || op == "version_lt"@ || op
        == "version_lte"@ || op == "version_eq"@ || op == "version_neq"@ {
        Some(or_false(versions_compared(value, target, op)))
    } else if op == "any"@ || op == "none"@ || op == "str_starts_with_any"@ || op
        == "str_ends_with_any"@ || op == "str_contains_any"@ || op == "str_contains_none"@ {
        Some(strings_in_array(value, target, op, true))
    } else if op == "any_case_sensitive"@ || op == "none_case_sensitive"@ {
        Some(strings_in_array(value, target, op, false))
    } else if op == "str_matches"@ {
        Some(regex_result(regex_match(text_of(target), text_of(value))))
    } else if op == "before"@ || op == "after"@ || op == "on"@ {
        Some(or_false(times_compared(value, target, op)))
    } else if op == "eq"@ {
        Some(same_json(value, target))
    } else if op == "neq"@ {
        Some(!same_json(value, target))
    } else {
        None
    }
}

pub open spec fn bool_text(b: bool) -> Seq<char> {
    if b {
        "true"@
    } else {
        "false"@
    }
}

pub open spec fn exposures_or_empty(e: Option<Seq<ExposureView>>) -> Seq<ExposureView> {
    match e {
        Some(s) => s,
        None => Seq::empty(),
    }
}

/// What a spec comes to for the user: unrecognized where there is none,
/// its default value under the rule id `disabled` where it is switched off,
/// else what its rules come to.
pub open spec fn spec_outcome(c: EvalContext, spec: Option<SpecView>, depth: nat) -> EvalResultView
    decreases depth, 6nat, 0nat,
{
    match spec {
        None => unrecognized_result(c.details),
        Some(s) => if !s.enabled {
            EvalResultView {
                json_value: Some(s.default_value),
                rule_id: "disabled"@,
                ..default_result()
            }
        } else {
            rules_outcome(c, s, 0, Seq::empty(), depth)
        },
    }
}

/// What the rules of a spec from rule `i` on come to, where the rules
/// before it gave the exposures `exposures`. The first rule whose
/// conditions all hold decides; where none does, the default value under
/// the rule id `default`.
pub open spec fn rules_outcome(
    c: EvalContext,
    spec: SpecView,
    i: int,
    exposures: Seq<ExposureView>,
    depth: nat,
) -> EvalResultView
    decreases depth, 5nat, spec.rules.len() - i,
{
    if i < 0 || i >= spec.rules.len() {
        EvalResultView {
            json_value: Some(spec.default_value),
            rule_id: "default"@,
            secondary_exposures: Some(exposures),
            undelegated_secondary_exposures: Some(exposures),
            ..default_result()
        }
    } else {
        let rule = spec.rules[i];
        let result = rule_outcome(c, rule, depth);
        let all = exposures + exposures_or_empty(result.secondary_exposures);
        if result.unsupported {
            result
        } else if !result.bool_value {
            rules_outcome(c, spec, i + 1, all, depth)
        } else {
            match delegate_outcome(c, rule, all, depth) {
                Some(delegated) => delegated,
                None => percentage_outcome(c.user, spec, rule, result, all),
            }
        }
    }
}

/// What a rule whose conditions hold comes to by its percentage: for a
/// user who passes, the rule's value, group and id; for one who does not,
/// the default value of the spec under the rule's id.
pub open spec fn percentage_outcome(
    user: UserView,
    spec: SpecView,
    rule: RuleView,
    result: EvalResultView,
    all: Seq<ExposureView>,
) -> EvalResultView {
    let pass = passes(pass_hash(user, rule, spec.salt), rule.pass_percentage);
    EvalResultView {
        bool_value: pass,
        json_value: if pass {
            result.json_value
        } else {
            Some(spec.default_value)
        },
        rule_id: result.rule_id,
        group_name: if pass {
            rule.group_name
        } else {
            None
        },
        is_experiment_group: pass && rule.is_experiment_group == Some(true),
        secondary_exposures: Some(all),
        undelegated_secondary_exposures: Some(all),
        ..default_result()
    }
}

/// What the config that a rule delegates to comes to, with the exposures
/// gathered so far in front of its own; `None` where the rule delegates to
/// nothing or to a config that the rule set does not hold.
pub open spec fn delegate_outcome(
    c: EvalContext,
    rule: RuleView,
    exposures: Seq<ExposureView>,
    depth: nat,
) -> Option<EvalResultView>
    decreases depth, 4nat, 0nat,
{
    match rule.config_delegate {
        None => None,
        Some(delegate) => if depth == 0 {
            Some(unsupported_result())
        } else {
            let spec = spec_named(c.specs.configs, delegate);
            let result = spec_outcome(c, spec, (depth - 1) as nat);
            if result.unsupported {
                Some(result)
            } else {
                match spec {
                    None => None,
                    Some(s) => Some(
                        EvalResultView {
                            explicit_parameters: s.explicit_parameters,
                            secondary_exposures: Some(
                                exposures + exposures_or_empty(result.secondary_exposures),
                            ),
                            undelegated_secondary_exposures: Some(exposures),
                            config_delegate: Some(delegate),
                            ..result
                        },
                    ),
                }
            }
        },
    }
}

/// What a rule's conditions come to: whether all of them hold, with the
/// rule's value and id and the exposures that the conditions gave.
pub open spec fn rule_outcome(c: EvalContext, rule: RuleView, depth: nat) -> EvalResultView
    decreases depth, 3nat, 0nat,
{
    conditions_outcome(c, rule, 0, Seq::empty(), true, depth)
}

/// What a rule's conditions from condition `j` on come to, where those
/// before it gave `exposures` and held or not, as `pass` says. A condition
/// that is unsupported ends the evaluation.
pub open spec fn conditions_outcome(
    c: EvalContext,
    rule: RuleView,
    j: int,
    exposures: Seq<ExposureView>,
    pass: bool,
    depth: nat,
) -> EvalResultView
    decreases depth, 2nat, rule.conditions.len() - j,
{
    if j < 0 || j >= rule.conditions.len() {
        EvalResultView {
            bool_value: pass,
            json_value: Some(rule.return_value),
            rule_id: rule.id,
            secondary_exposures: Some(exposures),
            ..default_result()
        }
    } else {
        let result = condition_outcome(c, rule.conditions[j], depth);
        if result.unsupported {
            result
        } else {
            conditions_outcome(
                c,
                rule,
                j + 1,
                exposures + exposures_or_empty(result.secondary_exposures),
                pass && result.bool_value,
                depth,
            )
        }
    }
}

/// What one condition comes to.
pub open spec fn condition_outcome(c: EvalContext, condition: ConditionView, depth: nat) -> EvalResultView
    decreases depth, 1nat, 0nat,
{
    let kind = lowercase(condition.condition_type);
    let target = target_view(condition.target_value);
    if kind == "public"@ {
        boolean_result(true)
    } else if kind == "fail_gate"@ || kind == "pass_gate"@ {
        nested_gate_outcome(c, target, kind, depth)
    } else {
        match (condition_value(c.evaluator, c.user, c.details, condition, kind), condition.operator) {
            (Some(value), Some(op)) => match operator_outcome(value, target, op) {
                Some(b) => boolean_result(b),
                None => unsupported_result(),
            },
            _ => unsupported_result(),
        }
    }
}

/// What a condition on another gate comes to: that gate's value, negated
/// for `fail_gate`, with that gate's exposures and, behind them, its own
/// exposure.
pub open spec fn nested_gate_outcome(
    c: EvalContext,
    target: JsonView,
    kind: Seq<char>,
    depth: nat,
) -> EvalResultView
    decreases depth, 0nat, 0nat,
{
    if depth == 0 {
        unsupported_result()
    } else {
        let gate_name = text_of(target);
        let result = spec_outcome(c, spec_named(c.specs.gates, gate_name), (depth - 1) as nat);
        if result.unsupported {
            result
        } else {
            let exposure = ExposureView {
                gate: gate_name,
                gate_value: bool_text(result.bool_value),
                rule_id: result.rule_id,
            };
            EvalResultView {
                secondary_exposures: Some(
                    exposures_or_empty(result.secondary_exposures).push(exposure),
                ),
                ..boolean_result(
                    if kind == "fail_gate"@ {
                        !result.bool_value
                    } else {
                        result.bool_value
                    },
                )
            }
        }
    }
}

/// The details that a finished evaluation bears: those of the rule set,
/// with the reason `Unsupported` where the evaluation was.
pub open spec fn stamped(result: EvalResultView, details: EvalDetails) -> EvalResultView {
    EvalResultView {
        evaluation_details: if result.unsupported {
            EvalDetails { reason: EvaluationReason::Unsupported, ..details }
        } else {
            details
        },
        ..result
    }
}

/// What a named spec of a list comes to for the user.
pub open spec fn evaluation(c: EvalContext, list: Seq<SpecView>, name: Seq<char>) -> EvalResultView {
    match spec_named(list, name) {
        None => unrecognized_result(c.details),
        Some(s) => stamped(spec_outcome(c, Some(s), MAX_DEPTH as nat), c.details),
    }
}


/// What an operator makes of a value and a target.
pub fn apply_operator(value: &JsonValue, target: &JsonValue, op: &str) -> (r: Option<bool>)
    ensures
        r == operator_outcome(value@, target@, op@),
{
    if text_is(op, "gt") || text_is(op, "gte") || text_is(op, "lt") || text_is(op, "lte") {
        Some(
            match compare_numbers(value, target, op) {
                Some(b) => b,
                None => false,
            },
        )
    } else if text_is(op, "version_gt") || text_is(op, "version_gte") || text_is(
        op,
        "version_lt",
    ) || text_is(op, "version_lte") || text_is(op, "version_eq") || text_is(op, "version_neq") {
        Some(
            match compare_versions(value, target, op) {
                Some(b) => b,
                None => false,
            },
        )
    } else if text_is(op, "any") || text_is(op, "none") || text_is(op, "str_starts_with_any")
        || text_is(op, "str_ends_with_any") || text_is(op, "str_contains_any") || text_is(
        op,
        "str_contains_none",
    ) {
        Some(compare_strings_in_array(value, target, op, true))
    } else if text_is(op, "any_case_sensitive") || text_is(op, "none_case_sensitive") {
        Some(compare_strings_in_array(value, target, op, false))
    } else if text_is(op, "str_matches") {
        Some(compare_str_with_regex(value, target))
    } else if text_is(op, "before") || text_is(op, "after") || text_is(op, "on") {
        Some(
            match compare_time(value, target, op) {
                Some(b) => b,
                None => false,
            },
        )
    } else if text_is(op, "eq") {
        Some(value.equals(target))
    } else if text_is(op, "neq") {
        Some(!value.equals(target))
    } else {
        None
    }
}

/// Whether a hash passes a percentage.
pub fn hash_passes(hash: u64, pass_percentage: &str) -> (r: bool)
    ensures
        r == passes(hash as nat, pass_percentage@),
{
    let bucket = Numeral::Finite(Decimal::from_u64(hash % 10000));
    match parse_numeral(&chars_of(pass_percentage)) {
        Some(p) => {
            let limit = p.times_hundred();
            match bucket.order(&limit) {
                Some(o) => o == -1,
                None => false,
            }
        },
        None => false,
    }
}

fn unit_text(user: &StatsigUser, id_type: &String) -> (r: String)
    ensures
        r@ == unit_or_empty(user@, id_type@),
{
    match user.get_unit_id(id_type) {
        Some(u) => u,
        None => String::new(),
    }
}

fn bool_string(b: bool) -> (r: String)
    ensures
        r@ == bool_text(b),
{
    if b {
        "true".to_owned()
    } else {
        "false".to_owned()
    }
}

impl StatsigEvaluator {
    /// The table of address ranges is in order.
    pub open spec fn wf(&self) -> bool {
        self.country_lookup.wf()
    }

    /// What an evaluation by this evaluator depends on.
    pub open spec fn context(&self, specs: &Specs, user: &StatsigUser, details: EvalDetails) -> EvalContext {
        EvalContext { evaluator: self@, specs: specs@, user: user@, details }
    }

    /// An evaluator with its table of address ranges and its table of
    /// regular expressions for User-Agent headers.
    pub fn new(ip_table: &[u8], ua_table: &[u8], disable_user_agent_support: bool) -> (r:
        StatsigEvaluator)
        ensures
            r.wf(),
            r@.table == crate::country_lookup::table_of(ip_table@),
            r@.agent_table == if !disable_user_agent_support && crate::ua_parser::table_loads(
                ua_table@,
            ) {
                Some(ua_table@)
            } else {
                None
            },
    {
        StatsigEvaluator {
            country_lookup: CountryLookup::new(ip_table),
            ua_parser: AgentParser::new(disable_user_agent_support, ua_table),
        }
    }

    /// What a gate of that name comes to for the user.
    pub fn check_gate(
        &self,
        specs: &Specs,
        user: &StatsigUser,
        gate_name: &str,
        details: EvalDetails,
    ) -> (r: EvalResult)
        requires
            self.wf(),
        ensures
            r@ == evaluation(self.context(specs, user, details), specs@.gates, gate_name@),
    {
        self.eval(specs, user, &specs.gates, gate_name, details)
    }

    /// What the config of a name comes to for the user.
    pub fn get_config(
        &self,
        specs: &Specs,
        user: &StatsigUser,
        config_name: &str,
        details: EvalDetails,
    ) -> (r: EvalResult)
        requires
            self.wf(),
        ensures
            r@ == evaluation(self.context(specs, user, details), specs@.configs, config_name@),
    {
        self.eval(specs, user, &specs.configs, config_name, details)
    }

    /// What the layer of a name comes to for the user.
    pub fn get_layer(
        &self,
        specs: &Specs,
        user: &StatsigUser,
        layer_name: &str,
        details: EvalDetails,
    ) -> (r: EvalResult)
        requires
            self.wf(),
        ensures
            r@ == evaluation(self.context(specs, user, details), specs@.layers, layer_name@),
    {
        self.eval(specs, user, &specs.layers, layer_name, details)
    }

    fn eval(
        &self,
        specs: &Specs,
        user: &StatsigUser,
        list: &Vec<APISpec>,
        spec_name: &str,
        details: EvalDetails,
    ) -> (r: EvalResult)
        requires
            self.wf(),
        ensures
            r@ == evaluation(self.context(specs, user, details), specs_view(list@), spec_name@),
    {
        match find_spec(list, spec_name) {
            None => EvalResult::unrecognized(details),
            Some(spec) => {
                let mut result = self.eval_spec(specs, user, Some(spec), details, MAX_DEPTH);
                let mut stamp = details;
                if result.unsupported {
                    stamp.reason = EvaluationReason::Unsupported;
                }
                result.evaluation_details = stamp;
                result
            },
        }
    }

    /// What a spec comes to for the user, following gates and delegates to
    /// the depth `depth`.
    pub fn eval_spec(
        &self,
        specs: &Specs,
        user: &StatsigUser,
        spec: Option<&APISpec>,
        details: EvalDetails,
        depth: u32,
    ) -> (r: EvalResult)
        requires
            self.wf(),
        ensures
            r@ == spec_outcome(self.context(specs, user, details), opt_spec_view(spec), depth as nat),
        decreases depth, 6nat, 0nat,
    {
        let s = match spec {
            Some(s) => s,
            None => {
                return EvalResult::unrecognized(details);
            },
        };
        if !s.enabled {
            return EvalResult {
                json_value: Some(s.default_value.duplicate()),
                rule_id: "disabled".to_owned(),
                ..EvalResult::default()
            };
        }
        let ghost c = self.context(specs, user, details);
        let mut exposures: Vec<SecondaryExposure> = Vec::new();
        let mut i: usize = 0;
        assert(exposures_view(exposures@) =~= Seq::empty());
        while i < s.rules.len()
            invariant
                self.wf(),
                i <= s.rules.len(),
                c == self.context(specs, user, details),
                spec_outcome(c, opt_spec_view(spec), depth as nat) == rules_outcome(
                    c,
                    s@,
                    0,
                    Seq::empty(),
                    depth as nat,
                ),
                rules_outcome(c, s@, 0, Seq::empty(), depth as nat) == rules_outcome(
                    c,
                    s@,
                    i as int,
                    exposures_view(exposures@),
                    depth as nat,
                ),
            decreases s.rules.len() - i,
        {
            let rule = &s.rules[i];
            assert(s@.rules[i as int] == s.rules@[i as int]@);
            let result = self.eval_rule(specs, user, rule, details, depth);
            if result.unsupported {
                return result;
            }
            if let Some(result_exposures) = &result.secondary_exposures {
                append_exposures(&mut exposures, result_exposures);
            } else {
                assert(exposures_view(exposures@) + Seq::empty() =~= exposures_view(exposures@));
            }
            if result.bool_value {
                if let Some(delegated_result) = self.eval_delegate(
                    specs,
                    user,
                    rule,
                    &exposures,
                    details,
                    depth,
                ) {
                    return delegated_result;
                }
                return self.eval_percentage(user, s, rule, result, exposures);
            }
            i += 1;
        }
        let undelegated = crate::eval_result::copy_exposures(&exposures);
        EvalResult {
            json_value: Some(s.default_value.duplicate()),
            rule_id: "default".to_owned(),
            secondary_exposures: Some(exposures),
            undelegated_secondary_exposures: Some(undelegated),
            ..EvalResult::default()
        }
    }

    /// What a rule whose conditions hold comes to by its percentage.
    pub fn eval_percentage(
        &self,
        user: &StatsigUser,
        spec: &APISpec,
        rule: &APIRule,
        result: EvalResult,
        exposures: Vec<SecondaryExposure>,
    ) -> (r: EvalResult)
        ensures
            r@ == percentage_outcome(user@, spec@, rule@, result@, exposures_view(exposures@)),
    {
        let pass = self.eval_pass_percentage(user, rule, &spec.salt);
        let undelegated = crate::eval_result::copy_exposures(&exposures);
        EvalResult {
            bool_value: pass,
            json_value: if pass {
                result.json_value
            } else {
                Some(spec.default_value.duplicate())
            },
            rule_id: result.rule_id,
            group_name: if pass {
                copy_opt(&rule.group_name)
            } else {
                None
            },
            is_experiment_group: pass && match rule.is_experiment_group {
                Some(b) => b,
                None => false,
            },
            secondary_exposures: Some(exposures),
            undelegated_secondary_exposures: Some(undelegated),
            ..EvalResult::default()
        }
    }

    /// What a rule's conditions come to for the user.
    pub fn eval_rule(
        &self,
        specs: &Specs,
        user: &StatsigUser,
        rule: &APIRule,
        details: EvalDetails,
        depth: u32,
    ) -> (r: EvalResult)
        requires
            self.wf(),
        ensures
            r@ == rule_outcome(self.context(specs, user, details), rule@, depth as nat),
        decreases depth, 3nat, 0nat,
    {
        let ghost c = self.context(specs, user, details);
        let mut exposures: Vec<SecondaryExposure> = Vec::new();
        let mut pass = true;
        let mut j: usize = 0;
        assert(exposures_view(exposures@) =~= Seq::empty());
        while j < rule.conditions.len()
            invariant
                self.wf(),
                j <= rule.conditions.len(),
                c == self.context(specs, user, details),
                conditions_outcome(c, rule@, 0, Seq::empty(), true, depth as nat)
                    == conditions_outcome(
                    c,
                    rule@,
                    j as int,
                    exposures_view(exposures@),
                    pass,
                    depth as nat,
                ),
            decreases rule.conditions.len() - j,
        {
            assert(rule@.conditions[j as int] == rule.conditions@[j as int]@);
            let result = self.eval_condition(specs, user, &rule.conditions[j], details, depth);
            if result.unsupported {
                return result;
            }
            if let Some(result_exposures) = &result.secondary_exposures {
                append_exposures(&mut exposures, result_exposures);
            } else {
                assert(exposures_view(exposures@) + Seq::empty() =~= exposures_view(exposures@));
            }
            if !result.bool_value {
                pass = false;
            }
            j += 1;
        }
        EvalResult {
            bool_value: pass,
            json_value: Some(rule.return_value.duplicate()),
            rule_id: rule.id.clone(),
            secondary_exposures: Some(exposures),
            ..EvalResult::default()
        }
    }

    /// What the config that a rule delegates to comes to.
    pub fn eval_delegate(
        &self,
        specs: &Specs,
        user: &StatsigUser,
        rule: &APIRule,
        exposures: &Vec<SecondaryExposure>,
        details: EvalDetails,
        depth: u32,
    ) -> (r: Option<EvalResult>)
        requires
            self.wf(),
        ensures
            r is Some == delegate_outcome(
                self.context(specs, user, details),
                rule@,
                exposures_view(exposures@),
                depth as nat,
            ) is Some,
            r is Some ==> r->0@ == delegate_outcome(
                self.context(specs, user, details),
                rule@,
                exposures_view(exposures@),
                depth as nat,
            )->0,
        decreases depth, 4nat, 0nat,
    {
        let delegate = match &rule.config_delegate {
            Some(d) => d,
            None => {
                return None;
            },
        };
        if depth == 0 {
            return Some(EvalResult::unsupported());
        }
        let spec = find_spec(&specs.configs, delegate.as_str());
        let mut result = self.eval_spec(specs, user, spec, details, depth - 1);
        if result.unsupported {
            return Some(result);
        }
        let spec = match spec {
            Some(s) => s,
            None => {
                return None;
            },
        };
        let undel_sec_expo = crate::eval_result::copy_exposures(exposures);
        let mut sec_expo = crate::eval_result::copy_exposures(exposures);
        if let Some(result_exposures) = &result.secondary_exposures {
            append_exposures(&mut sec_expo, result_exposures);
        } else {
            assert(exposures_view(sec_expo@) + Seq::empty() =~= exposures_view(sec_expo@));
        }
        result.explicit_parameters = copy_opt_strings(&spec.explicit_parameters);
        result.secondary_exposures = Some(sec_expo);
        result.undelegated_secondary_exposures = Some(undel_sec_expo);
        result.config_delegate = Some(delegate.clone());
        Some(result)
    }

    /// The value that a condition of a kind reads from the user.
    pub fn get_condition_value(
        &self,
        user: &StatsigUser,
        condition: &APICondition,
        kind: &str,
        details: EvalDetails,
    ) -> (r: Option<JsonValue>)
        requires
            self.wf(),
        ensures
            opt_json_view(r) == condition_value(self@, user@, details, condition@, kind@),
    {
        if text_is(kind, "ip_based") {
            let v = user.get_user_value(&condition.field);
            Some(
                match v {
                    JsonValue::Null => self.country_lookup.get_value_from_ip(user, &condition.field),
                    v => v,
                },
            )
        } else if text_is(kind, "ua_based") {
            let v = user.get_user_value(&condition.field);
            Some(
                match v {
                    JsonValue::Null => self.ua_parser.get_value_from_user_agent(
                        user,
                        &condition.field,
                    ),
                    v => v,
                },
            )
        } else if text_is(kind, "user_field") {
            Some(user.get_user_value(&condition.field))
        } else if text_is(kind, "environment_field") {
            Some(user.get_value_from_environment(&condition.field))
        } else if text_is(kind, "current_time") {
            Some(JsonValue::String(string_of(&u64_digits(details.server_time))))
        } else if text_is(kind, "user_bucket") {
            Some(JsonValue::Number(string_of(&u64_digits(self.get_hash_for_user_bucket(user, condition)))))
        } else if text_is(kind, "unit_id") {
            Some(
                match user.get_unit_id(&condition.id_type) {
                    Some(u) => JsonValue::String(u),
                    None => JsonValue::Null,
                },
            )
        } else {
            None
        }
    }

    /// What one condition comes to for the user.
    pub fn eval_condition(
        &self,
        specs: &Specs,
        user: &StatsigUser,
        condition: &APICondition,
        details: EvalDetails,
        depth: u32,
    ) -> (r: EvalResult)
        requires
            self.wf(),
        ensures
            r@ == condition_outcome(self.context(specs, user, details), condition@, depth as nat),
        decreases depth, 1nat, 0nat,
    {
        let null = JsonValue::Null;
        let target_value: &JsonValue = match &condition.target_value {
            Some(v) => v,
            None => &null,
        };
        let condition_type = to_lowercase(condition.condition_type.as_str());
        let kind = condition_type.as_str();
        if text_is(kind, "public") {
            return EvalResult::boolean(true);
        }
        if text_is(kind, "fail_gate") || text_is(kind, "pass_gate") {
            return self.eval_nested_gate(specs, user, target_value, kind, details, depth);
        }
        let value = match self.get_condition_value(user, condition, kind, details) {
            Some(v) => v,
            None => {
                return EvalResult::unsupported();
            },
        };
        let operator = match &condition.operator {
            Some(operator) => operator,
            None => {
                return EvalResult::unsupported();
            },
        };
        match apply_operator(&value, target_value, operator.as_str()) {
            Some(b) => EvalResult::boolean(b),
            None => EvalResult::unsupported(),
        }
    }

    /// Whether the user passes the percentage of a rule of a spec.
    pub fn eval_pass_percentage(&self, user: &StatsigUser, rule: &APIRule, spec_salt: &String) -> (r:
        bool)
        ensures
            r == passes(pass_hash(user@, rule@, spec_salt@), rule.pass_percentage@),
    {
        let rule_salt: &String = match &rule.salt {
            Some(s) => s,
            None => &rule.id,
        };
        let unit = unit_text(user, &rule.id_type);
        let mut key = spec_salt.clone();
        key.append(".");
        key.append(rule_salt.as_str());
        key.append(".");
        key.append(unit.as_str());
        let hash = compute_user_hash(key.as_str()).unwrap();
        hash_passes(hash, rule.pass_percentage.as_str())
    }

    /// What a condition on another gate comes to for the user.
    pub fn eval_nested_gate(
        &self,
        specs: &Specs,
        user: &StatsigUser,
        target_value: &JsonValue,
        condition_type: &str,
        details: EvalDetails,
        depth: u32,
    ) -> (r: EvalResult)
        requires
            self.wf(),
        ensures
            r@ == nested_gate_outcome(
                self.context(specs, user, details),
                target_value@,
                condition_type@,
                depth as nat,
            ),
        decreases depth, 0nat, 0nat,
    {
        if depth == 0 {
            return EvalResult::unsupported();
        }
        let gate_name = value_to_string(target_value).unwrap();
        let spec = find_spec(&specs.gates, gate_name.as_str());
        let result = self.eval_spec(specs, user, spec, details, depth - 1);
        if result.unsupported {
            return result;
        }
        let mut gate_value = result.bool_value;
        let exposure = SecondaryExposure {
            gate: gate_name,
            gate_value: bool_string(gate_value),
            rule_id: result.rule_id,
        };
        if text_is(condition_type, "fail_gate") {
            gate_value = !gate_value;
        }
        let mut exposures = match result.secondary_exposures {
            Some(v) => v,
            None => Vec::new(),
        };
        let ghost before = exposures_view(exposures@);
        exposures.push(exposure);
        assert(exposures_view(exposures@) =~= before.push(exposure@));
        assert(exposures_view(Seq::<SecondaryExposure>::empty()) =~= Seq::empty());
        EvalResult { secondary_exposures: Some(exposures), ..EvalResult::boolean(gate_value) }
    }

    /// The bucket of the user, out of 1000, under a condition's salt and id
    /// type.
    pub fn get_hash_for_user_bucket(&self, user: &StatsigUser, condition: &APICondition) -> (r:
        u64)
        ensures
            r == user_bucket(user@, condition@),
    {
        let unit = unit_text(user, &condition.id_type);
        let mut key = String::new();
        if let Some(add_values) = &condition.additional_values {
            if let Some(i) = find_member(add_values, "salt") {
                if let JsonValue::String(s) = &add_values[i].value {
                    key = s.clone();
                }
            }
        }
        key.append(".");
        key.append(unit.as_str());
        let hash = compute_user_hash(key.as_str()).unwrap();
        hash % 1000
    }
}


/// Raising the percentage of a rule lets no one fall out: a hash that
/// passes a percentage passes every percentage that is not smaller.
pub proof fn lemma_pass_percentage_is_monotone(hash: nat, lower: Seq<char>, higher: Seq<char>)
    requires
        numeral_of(lower) is Some,
        numeral_of(higher) is Some,
        numeral_order(numeral_of(lower)->0, numeral_of(higher)->0) is Some,
        numeral_order(numeral_of(lower)->0, numeral_of(higher)->0)->0 <= 0,
        passes(hash, lower),
    ensures
        passes(hash, higher),
{
    crate::decimal::lemma_below_hundredfold(
        NumeralView::Finite(DecimalView { negative: false, mantissa: hash % 10000, exponent: 0 }),
        numeral_of(lower)->0,
        numeral_of(higher)->0,
    );
}

/// A spec that is switched off comes to its default value under the rule
/// id `disabled`, and does not pass, whatever its rules say.
pub proof fn lemma_disabled_spec(c: EvalContext, spec: SpecView, depth: nat)
    requires
        !spec.enabled,
    ensures
        spec_outcome(c, Some(spec), depth).rule_id == "disabled"@,
        !spec_outcome(c, Some(spec), depth).bool_value,
        spec_outcome(c, Some(spec), depth).json_value == Some(spec.default_value),
        stamped(spec_outcome(c, Some(spec), depth), c.details).rule_id == "disabled"@,
        !stamped(spec_outcome(c, Some(spec), depth), c.details).bool_value,
        stamped(spec_outcome(c, Some(spec), depth), c.details).json_value == Some(
            spec.default_value,
        ),
{
}


/// An evaluation depends on the rule set, the user and the evaluator only
/// through what they hold: evaluators, rule sets and users that hold the
/// same give the same result for every name, at every time.
pub proof fn lemma_evaluation_depends_on_what_is_held(
    first: StatsigEvaluator,
    second: StatsigEvaluator,
    first_specs: Specs,
    second_specs: Specs,
    first_user: StatsigUser,
    second_user: StatsigUser,
    details: EvalDetails,
    name: Seq<char>,
)
    requires
        first@ == second@,
        first_specs@ == second_specs@,
        first_user@ == second_user@,
    ensures
        evaluation(first.context(&first_specs, &first_user, details), first_specs@.gates, name)
            == evaluation(
            second.context(&second_specs, &second_user, details),
            second_specs@.gates,
            name,
        ),
        evaluation(first.context(&first_specs, &first_user, details), first_specs@.configs, name)
            == evaluation(
            second.context(&second_specs, &second_user, details),
            second_specs@.configs,
            name,
        ),
        evaluation(first.context(&first_specs, &first_user, details), first_specs@.layers, name)
            == evaluation(
            second.context(&second_specs, &second_user, details),
            second_specs@.layers,
            name,
        ),
{
}

} // verus!
