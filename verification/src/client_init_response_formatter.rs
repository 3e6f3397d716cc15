//! The bootstrap document for thin clients: every gate, config and layer of
//! the rule set, evaluated for one user, under hashed names.

use crate::data_types::{specs_view, APISpec, SpecView};
use crate::eval_details::EvalDetails;
use crate::eval_result::{
    exposures_view, opt_exposures_view, opt_json_view, EvalResult, EvalResultView, ExposureView,
    SecondaryExposure,
};
use crate::hashing::{hash_name, hashed_name};
use crate::json::{
    json_array, json_object, json_pairs, json_string, json_strings, members_view, merge_json_value,
    merged, new_members, pairs_json, set_member, strings_json, with_member, with_members_from,
    JsonMember, JsonValue, JsonView, MemberView,
};
use crate::specs::{find_spec, spec_named, Specs, SpecsView};
use crate::statsig_evaluator::{
    exposures_or_empty, spec_outcome, EvalContext, StatsigEvaluator, MAX_DEPTH,
};
use crate::statsig_event_internal::{exposures_json, exposures_to_json};
use crate::statsig_user::{StatsigUser, UserView};
use crate::text::{lowercase, opt_strings_view, pair_value, text_is, to_lowercase};
use vstd::prelude::*;

verus! {

pub struct ClientInitResponseFormatter {}

pub open spec fn empty_array() -> JsonView {
    JsonView::Array(Seq::empty())
}

pub open spec fn strings_or_none(v: Option<Seq<Seq<char>>>) -> JsonView {
    match v {
        Some(t) => strings_json(t),
        None => empty_array(),
    }
}

pub open spec fn json_or_null(v: Option<JsonView>) -> JsonView {
    match v {
        Some(j) => j,
        None => JsonView::Null,
    }
}

pub open spec fn bool_or_null(v: Option<bool>) -> JsonView {
    match v {
        Some(b) => JsonView::Bool(b),
        None => JsonView::Null,
    }
}

/// The exposures of a list from index `i` on, put behind those of `acc`
/// unless `acc` holds them already.
pub open spec fn cleaned_from(xs: Seq<ExposureView>, i: int, acc: Seq<ExposureView>) -> Seq<
    ExposureView,
>
    decreases xs.len() - i,
{
    if i < 0 || i >= xs.len() {
        acc
    } else if acc.contains(xs[i]) {
        cleaned_from(xs, i + 1, acc)
    } else {
        cleaned_from(xs, i + 1, acc.push(xs[i]))
    }
}

/// The exposures of a list, each once, in the order in which they first
/// occur.
pub open spec fn cleaned(xs: Seq<ExposureView>) -> Seq<ExposureView> {
    cleaned_from(xs, 0, Seq::empty())
}

/// No exposure occurs twice in a list.
pub open spec fn each_once(xs: Seq<ExposureView>) -> bool {
    forall|i: int, j: int| 0 <= i < j < xs.len() ==> xs[i] != xs[j]
}

proof fn lemma_cleaned_from(xs: Seq<ExposureView>, i: int, acc: Seq<ExposureView>)
    requires
        0 <= i <= xs.len(),
        each_once(acc),
        forall|j: int| 0 <= j < acc.len() ==> xs.contains(#[trigger] acc[j]),
        forall|k: int| 0 <= k < i ==> acc.contains(#[trigger] xs[k]),
    ensures
        each_once(cleaned_from(xs, i, acc)),
        forall|j: int|
            0 <= j < cleaned_from(xs, i, acc).len() ==> xs.contains(
                #[trigger] cleaned_from(xs, i, acc)[j],
            ),
        forall|k: int| 0 <= k < xs.len() ==> cleaned_from(xs, i, acc).contains(#[trigger] xs[k]),
    decreases xs.len() - i,
{
    if i < xs.len() {
        if acc.contains(xs[i]) {
            lemma_cleaned_from(xs, i + 1, acc);
        } else {
            let next = acc.push(xs[i]);
            assert forall|a: int, b: int| 0 <= a < b < next.len() implies next[a] != next[b] by {
                if b == acc.len() {
                    assert(next[a] == acc[a]);
                    if acc[a] == xs[i] {
                        assert(acc.contains(xs[i]));
                    }
                } else {
                    assert(next[a] == acc[a] && next[b] == acc[b]);
                }
            }
            assert forall|j: int| 0 <= j < next.len() implies xs.contains(#[trigger] next[j]) by {
                if j < acc.len() {
                    assert(next[j] == acc[j]);
                } else {
                    assert(xs[i] == next[j]);
                }
            }
            assert forall|k: int| 0 <= k < i + 1 implies next.contains(#[trigger] xs[k]) by {
                if k < i {
                    let w = choose|w: int| 0 <= w < acc.len() && acc[w] == xs[k];
                    assert(next[w] == xs[k]);
                } else {
                    assert(next[acc.len() as int] == xs[k]);
                }
            }
            lemma_cleaned_from(xs, i + 1, next);
        }
    }
}

/// What cleaning keeps: every exposure of the list, none that the list does
/// not hold, and none twice.
pub proof fn lemma_cleaned(xs: Seq<ExposureView>)
    ensures
        each_once(cleaned(xs)),
        forall|j: int| 0 <= j < cleaned(xs).len() ==> xs.contains(#[trigger] cleaned(xs)[j]),
        forall|k: int| 0 <= k < xs.len() ==> cleaned(xs).contains(#[trigger] xs[k]),
{
    lemma_cleaned_from(xs, 0, Seq::empty());
}

/// The cleaned exposures of an evaluation as a JSON array; the empty array
/// where the evaluation gave none.
pub open spec fn cleaned_json(e: Option<Seq<ExposureView>>) -> JsonView {
    exposures_json(Some(cleaned(exposures_or_empty(e))))
}

/// What every entry holds: the hashed name, the rule id and the secondary
/// exposures of the evaluation, cleaned.
pub open spec fn base_entry(spec: SpecView, result: EvalResultView) -> Seq<MemberView> {
    with_member(
        with_member(
            with_member(Seq::empty(), "name"@, JsonView::String(hashed_name(spec.name))),
            "rule_id"@,
            JsonView::String(result.rule_id),
        ),
        "secondary_exposures"@,
        cleaned_json(result.secondary_exposures),
    )
}

/// The entry of a gate; none for a segment or a holdout.
pub open spec fn gate_entry(spec: SpecView, result: EvalResultView) -> Option<Seq<MemberView>> {
    if spec.entity == "segment"@ || spec.entity == "holdout"@ {
        None
    } else {
        Some(
            with_member(
                with_member(base_entry(spec, result), "value"@, JsonView::Bool(result.bool_value)),
                "id_type"@,
                JsonView::String(spec.id_type),
            ),
        )
    }
}

/// What the entry of every config holds, before what its entity adds.
pub open spec fn config_base(spec: SpecView, result: EvalResultView) -> Seq<MemberView> {
    let a = with_member(base_entry(spec, result), "value"@, json_or_null(result.json_value));
    let b = with_member(a, "group"@, JsonView::String(result.rule_id));
    let c = with_member(
        b,
        "is_device_based"@,
        JsonView::Bool(lowercase(spec.id_type) == "stableid"@),
    );
    let d = match result.group_name {
        Some(g) => with_member(c, "group_name"@, JsonView::String(g)),
        None => c,
    };
    if spec.entity != "layer"@ {
        with_member(d, "id_type"@, JsonView::String(spec.id_type))
    } else {
        d
    }
}

/// What an experiment adds to its entry; where it shares its parameters
/// with a layer, its value laid over the layer's default value.
pub open spec fn experiment_fields(
    specs: SpecsView,
    spec: SpecView,
    result: EvalResultView,
    entry: Seq<MemberView>,
) -> Seq<MemberView> {
    let a = with_member(entry, "is_user_in_experiment"@, JsonView::Bool(result.is_experiment_group));
    let b = with_member(a, "is_experiment_active"@, JsonView::Bool(spec.is_active == Some(true)));
    if spec.has_shared_params != Some(true) {
        b
    } else {
        let c = with_member(b, "is_in_layer"@, JsonView::Bool(true));
        let d = with_member(c, "explicit_parameters"@, strings_or_none(spec.explicit_parameters));
        match pair_value(specs.experiment_to_layer, spec.name) {
            None => d,
            Some(layer_name) => {
                let layer_value = match spec_named(specs.layers, layer_name) {
                    Some(l) => l.default_value,
                    None => JsonView::Null,
                };
                with_member(d, "value"@, merged(layer_value, json_or_null(result.json_value)))
            },
        }
    }
}

/// What the experiment that a layer delegates to adds to the layer's entry.
pub open spec fn delegate_fields(delegate: Seq<char>, spec: SpecView, result: EvalResultView) -> Seq<
    MemberView,
> {
    with_member(
        with_member(
            with_member(
                with_member(
                    with_member(
                        Seq::empty(),
                        "allocated_experiment_name"@,
                        JsonView::String(hashed_name(delegate)),
                    ),
                    "is_user_in_experiment"@,
                    JsonView::Bool(result.is_experiment_group),
                ),
                "is_experiment_active"@,
                bool_or_null(spec.is_active),
            ),
            "explicit_parameters"@,
            strings_or_none(spec.explicit_parameters),
        ),
        "undelegated_secondary_exposures"@,
        cleaned_json(result.undelegated_secondary_exposures),
    )
}

/// What a layer adds to its entry.
pub open spec fn layer_fields(
    c: EvalContext,
    spec: SpecView,
    result: EvalResultView,
    entry: Seq<MemberView>,
) -> Seq<MemberView> {
    let a = with_member(entry, "explicit_parameters"@, strings_or_none(spec.explicit_parameters));
    let b = with_member(a, "undelegated_secondary_exposures"@, empty_array());
    match result.config_delegate {
        None => b,
        Some(delegate) => if delegate.len() == 0 {
            b
        } else {
            match spec_named(c.specs.configs, delegate) {
                None => b,
                Some(ds) => with_members_from(
                    b,
                    delegate_fields(delegate, ds, spec_outcome(c, Some(ds), MAX_DEPTH as nat)),
                    0,
                ),
            }
        },
    }
}

/// The entry of a config.
pub open spec fn config_entry(c: EvalContext, spec: SpecView, result: EvalResultView) -> Seq<
    MemberView,
> {
    let base = config_base(spec, result);
    if spec.entity == "experiment"@ {
        experiment_fields(c.specs, spec, result, base)
    } else if spec.entity == "layer"@ {
        layer_fields(c, spec, result, base)
    } else {
        base
    }
}

/// The entry of a spec; none for a segment, a holdout and a spec that is
/// neither a feature gate nor a dynamic config.
pub open spec fn spec_entry(c: EvalContext, spec: SpecView) -> Option<Seq<MemberView>> {
    let result = spec_outcome(c, Some(spec), MAX_DEPTH as nat);
    if spec._type == "feature_gate"@ {
        gate_entry(spec, result)
    } else if spec._type == "dynamic_config"@ {
        Some(config_entry(c, spec, result))
    } else {
        None
    }
}

/// The entries of the specs of a list from index `i` on, set among `acc`
/// under their hashed names.
pub open spec fn entries_from(c: EvalContext, list: Seq<SpecView>, i: int, acc: Seq<MemberView>) -> Seq<
    MemberView,
>
    decreases list.len() - i,
{
    if i < 0 || i >= list.len() {
        acc
    } else {
        match spec_entry(c, list[i]) {
            Some(e) => entries_from(
                c,
                list,
                i + 1,
                with_member(acc, hashed_name(list[i].name), JsonView::Object(e)),
            ),
            None => entries_from(c, list, i + 1, acc),
        }
    }
}

/// The ids by which the user was evaluated.
pub open spec fn evaluated_keys(user: UserView) -> Seq<MemberView> {
    let a = match user.user_id {
        Some(id) => with_member(Seq::empty(), "userID"@, JsonView::String(id)),
        None => Seq::empty(),
    };
    match user.custom_ids {
        Some(ids) => with_member(a, "customIDs"@, pairs_json(ids)),
        None => a,
    }
}

/// The bootstrap document.
pub open spec fn formatted_response(c: EvalContext) -> JsonView {
    JsonView::Object(
        with_member(
            with_member(
                with_member(
                    with_member(
                        with_member(
                            with_member(
                                with_member(
                                    with_member(
                                        Seq::empty(),
                                        "feature_gates"@,
                                        JsonView::Object(
                                            entries_from(c, c.specs.gates, 0, Seq::empty()),
                                        ),
                                    ),
                                    "dynamic_configs"@,
                                    JsonView::Object(
                                        entries_from(c, c.specs.configs, 0, Seq::empty()),
                                    ),
                                ),
                                "layer_configs"@,
                                JsonView::Object(entries_from(c, c.specs.layers, 0, Seq::empty())),
                            ),
                            "evaluated_keys"@,
                            JsonView::Object(evaluated_keys(c.user)),
                        ),
                        "sdkParams"@,
                        JsonView::Object(Seq::empty()),
                    ),
                    "generator"@,
                    JsonView::String("statsig-rust-sdk"@),
                ),
                "has_updates"@,
                JsonView::Bool(true),
            ),
            "time"@,
            JsonView::Number("0"@),
        ),
    )
}

fn holds_exposure(list: &Vec<SecondaryExposure>, e: &SecondaryExposure) -> (r: bool)
    ensures
        r == exposures_view(list@).contains(e@),
{
    let ghost v = exposures_view(list@);
    let mut i: usize = 0;
    while i < list.len()
        invariant
            i <= list.len(),
            v == exposures_view(list@),
            forall|k: int| 0 <= k < i ==> v[k] != e@,
        decreases list.len() - i,
    {
        assert(v[i as int] == list@[i as int]@);
        if list[i].gate == e.gate && list[i].gate_value == e.gate_value && list[i].rule_id
            == e.rule_id {
            assert(v[i as int] == e@);
            return true;
        }
        i += 1;
    }
    false
}

/// The exposures that an entry shows: those of the evaluation, each once,
/// in the order in which they first occur; none where the evaluation gave
/// none.
pub fn clean_exposures(exposures: &Option<Vec<SecondaryExposure>>) -> (r: Option<
    Vec<SecondaryExposure>,
>)
    ensures
        r is Some,
        exposures_view(r->0@) == cleaned(exposures_or_empty(opt_exposures_view(*exposures))),
{
    let mut out: Vec<SecondaryExposure> = Vec::new();
    assert(exposures_view(out@) =~= Seq::empty());
    if let Some(list) = exposures {
        let ghost xs = exposures_view(list@);
        let mut i: usize = 0;
        while i < list.len()
            invariant
                i <= list.len(),
                xs == exposures_view(list@),
                cleaned(xs) == cleaned_from(xs, i as int, exposures_view(out@)),
            decreases list.len() - i,
        {
            assert(xs[i as int] == list@[i as int]@);
            if !holds_exposure(&out, &list[i]) {
                let ghost before = exposures_view(out@);
                out.push(list[i].duplicate());
                assert(exposures_view(out@) =~= before.push(xs[i as int]));
            }
            i += 1;
        }
    }
    Some(out)
}

fn cleaned_to_json(exposures: &Option<Vec<SecondaryExposure>>) -> (r: JsonValue)
    ensures
        r@ == cleaned_json(opt_exposures_view(*exposures)),
{
    let cleaned = clean_exposures(exposures);
    exposures_to_json(&cleaned)
}

fn no_exposures() -> (r: JsonValue)
    ensures
        r@ == empty_array(),
{
    let items: Vec<JsonValue> = Vec::new();
    assert(crate::json::values_view(items@) =~= Seq::empty());
    json_array(items)
}

fn strings_or_empty(v: &Option<Vec<String>>) -> (r: JsonValue)
    ensures
        r@ == strings_or_none(opt_strings_view(*v)),
{
    match v {
        Some(t) => json_strings(t),
        None => {
            let items: Vec<JsonValue> = Vec::new();
            assert(crate::json::values_view(items@) =~= Seq::empty());
            json_array(items)
        },
    }
}

fn opt_json(v: &Option<JsonValue>) -> (r: JsonValue)
    ensures
        r@ == json_or_null(opt_json_view(*v)),
{
    match v {
        Some(j) => j.duplicate(),
        None => JsonValue::Null,
    }
}

fn make_base_entry(spec: &APISpec, eval_result: &EvalResult) -> (r: Vec<JsonMember>)
    ensures
        members_view(r@) == base_entry(spec@, eval_result@),
{
    let mut result = new_members();
    set_member(&mut result, "name", JsonValue::String(hash_name(spec.name.as_str())));
    set_member(&mut result, "rule_id", JsonValue::String(eval_result.rule_id.clone()));
    set_member(
        &mut result,
        "secondary_exposures",
        cleaned_to_json(&eval_result.secondary_exposures),
    );
    result
}

fn populate_experiment_fields(
    spec: &APISpec,
    eval_result: &EvalResult,
    result: &mut Vec<JsonMember>,
    specs: &Specs,
)
    ensures
        members_view(final(result)@) == experiment_fields(
            specs@,
            spec@,
            eval_result@,
            members_view(old(result)@),
        ),
{
    set_member(result, "is_user_in_experiment", JsonValue::Bool(eval_result.is_experiment_group));
    set_member(
        result,
        "is_experiment_active",
        JsonValue::Bool(
            match spec.is_active {
                Some(b) => b,
                None => false,
            },
        ),
    );
    let shared = match spec.has_shared_params {
        Some(b) => b,
        None => false,
    };
    if !shared {
        return ;
    }
    set_member(result, "is_in_layer", JsonValue::Bool(true));
    set_member(result, "explicit_parameters", strings_or_empty(&spec.explicit_parameters));
    let layer_name = match specs.get_layer_name_for_experiment(&spec.name) {
        Some(layer_name) => layer_name,
        None => {
            return ;
        },
    };
    let layer_value = match find_spec(&specs.layers, layer_name.as_str()) {
        Some(layer) => layer.default_value.duplicate(),
        None => JsonValue::Null,
    };
    let merged_value = merge_json_value(&layer_value, opt_json(&eval_result.json_value));
    set_member(result, "value", merged_value);
}

fn make_delegate_fields(delegate: &String, delegate_spec: &APISpec, delegate_result: &EvalResult) -> (r:
    Vec<JsonMember>)
    ensures
        members_view(r@) == delegate_fields(delegate@, delegate_spec@, delegate_result@),
{
    let mut local_result = new_members();
    set_member(
        &mut local_result,
        "allocated_experiment_name",
        JsonValue::String(hash_name(delegate.as_str())),
    );
    set_member(
        &mut local_result,
        "is_user_in_experiment",
        JsonValue::Bool(delegate_result.is_experiment_group),
    );
    set_member(
        &mut local_result,
        "is_experiment_active",
        match delegate_spec.is_active {
            Some(b) => JsonValue::Bool(b),
            None => JsonValue::Null,
        },
    );
    set_member(
        &mut local_result,
        "explicit_parameters",
        strings_or_empty(&delegate_spec.explicit_parameters),
    );
    set_member(
        &mut local_result,
        "undelegated_secondary_exposures",
        cleaned_to_json(&delegate_result.undelegated_secondary_exposures),
    );
    local_result
}

/// Sets each member of `right` among those of `left`.
fn merge_hash_value(left: &mut Vec<JsonMember>, right: Vec<JsonMember>)
    ensures
        members_view(final(left)@) == with_members_from(
            members_view(old(left)@),
            members_view(right@),
            0,
        ),
{
    let mut i: usize = 0;
    while i < right.len()
        invariant
            i <= right.len(),
            with_members_from(members_view(old(left)@), members_view(right@), 0)
                == with_members_from(members_view(left@), members_view(right@), i as int),
        decreases right.len() - i,
    {
        assert(members_view(right@)[i as int] == MemberView {
            name: right@[i as int].name@,
            value: right@[i as int].value@,
        });
        set_member(left, right[i].name.as_str(), right[i].value.duplicate());
        i += 1;
    }
}

fn populate_layer_fields(
    evaluator: &StatsigEvaluator,
    user: &StatsigUser,
    details: EvalDetails,
    spec: &APISpec,
    eval_result: &EvalResult,
    result: &mut Vec<JsonMember>,
    specs: &Specs,
)
    requires
        evaluator.wf(),
    ensures
        members_view(final(result)@) == layer_fields(
            evaluator.context(specs, user, details),
            spec@,
            eval_result@,
            members_view(old(result)@),
        ),
{
    set_member(result, "explicit_parameters", strings_or_empty(&spec.explicit_parameters));
    set_member(result, "undelegated_secondary_exposures", no_exposures());
    let delegate = match &eval_result.config_delegate {
        Some(d) => d,
        None => {
            return ;
        },
    };
    if delegate.as_str().unicode_len() == 0 {
        return ;
    }
    let delegate_spec = match find_spec(&specs.configs, delegate.as_str()) {
        Some(s) => s,
        None => {
            return ;
        },
    };
    let delegate_result = evaluator.eval_spec(specs, user, Some(delegate_spec), details, MAX_DEPTH);
    let local_result = make_delegate_fields(delegate, delegate_spec, &delegate_result);
    merge_hash_value(result, local_result);
}

fn get_evaluated_spec(
    evaluator: &StatsigEvaluator,
    user: &StatsigUser,
    details: EvalDetails,
    specs: &Specs,
    spec: &APISpec,
) -> (r: Option<JsonValue>)
    requires
        evaluator.wf(),
    ensures
        r is Some == spec_entry(evaluator.context(specs, user, details), spec@) is Some,
        r is Some ==> r->0@ == JsonView::Object(
            spec_entry(evaluator.context(specs, user, details), spec@)->0,
        ),
{
    let eval_result = evaluator.eval_spec(specs, user, Some(spec), details, MAX_DEPTH);
    let mut result = make_base_entry(spec, &eval_result);
    if text_is(spec._type.as_str(), "feature_gate") {
        if text_is(spec.entity.as_str(), "segment") || text_is(spec.entity.as_str(), "holdout") {
            return None;
        }
        set_member(&mut result, "value", JsonValue::Bool(eval_result.bool_value));
        set_member(&mut result, "id_type", JsonValue::String(spec.id_type.clone()));
    } else if text_is(spec._type.as_str(), "dynamic_config") {
        set_member(&mut result, "value", opt_json(&eval_result.json_value));
        set_member(&mut result, "group", JsonValue::String(eval_result.rule_id.clone()));
        let lowered = to_lowercase(spec.id_type.as_str());
        set_member(
            &mut result,
            "is_device_based",
            JsonValue::Bool(text_is(lowered.as_str(), "stableid")),
        );
        if let Some(group_name) = &eval_result.group_name {
            set_member(&mut result, "group_name", JsonValue::String(group_name.clone()));
        }
        if !text_is(spec.entity.as_str(), "layer") {
            set_member(&mut result, "id_type", JsonValue::String(spec.id_type.clone()));
        }
        if text_is(spec.entity.as_str(), "experiment") {
            populate_experiment_fields(spec, &eval_result, &mut result, specs);
        } else if text_is(spec.entity.as_str(), "layer") {
            populate_layer_fields(evaluator, user, details, spec, &eval_result, &mut result, specs);
        }
    } else {
        return None;
    }
    Some(json_object(result))
}

fn eval_all(
    evaluator: &StatsigEvaluator,
    user: &StatsigUser,
    details: EvalDetails,
    specs: &Specs,
    list: &Vec<APISpec>,
) -> (r: JsonValue)
    requires
        evaluator.wf(),
    ensures
        r@ == JsonView::Object(
            entries_from(
                evaluator.context(specs, user, details),
                specs_view(list@),
                0,
                Seq::empty(),
            ),
        ),
{
    let ghost c = evaluator.context(specs, user, details);
    let mut out = new_members();
    let mut i: usize = 0;
    while i < list.len()
        invariant
            evaluator.wf(),
            i <= list.len(),
            c == evaluator.context(specs, user, details),
            entries_from(c, specs_view(list@), 0, Seq::empty()) == entries_from(
                c,
                specs_view(list@),
                i as int,
                members_view(out@),
            ),
        decreases list.len() - i,
    {
        assert(specs_view(list@)[i as int] == list@[i as int]@);
        if let Some(entry) = get_evaluated_spec(evaluator, user, details, specs, &list[i]) {
            let name = hash_name(list[i].name.as_str());
            set_member(&mut out, name.as_str(), entry);
        }
        i += 1;
    }
    json_object(out)
}

fn make_evaluated_keys(user: &StatsigUser) -> (r: JsonValue)
    ensures
        r@ == JsonView::Object(evaluated_keys(user@)),
{
    let mut keys = new_members();
    if let Some(user_id) = &user.user_id {
        set_member(&mut keys, "userID", JsonValue::String(user_id.clone()));
    }
    if let Some(custom_ids) = &user.custom_ids {
        set_member(&mut keys, "customIDs", json_pairs(custom_ids));
    }
    json_object(keys)
}

impl ClientInitResponseFormatter {
    /// The bootstrap document of a user under a rule set.
    pub fn get_formatted_response(
        evaluator: &StatsigEvaluator,
        user: &StatsigUser,
        specs: &Specs,
        details: EvalDetails,
    ) -> (r: JsonValue)
        requires
            evaluator.wf(),
        ensures
            r@ == formatted_response(evaluator.context(specs, user, details)),
    {
        let mut doc = new_members();
        set_member(&mut doc, "feature_gates", eval_all(evaluator, user, details, specs, &specs.gates));
        set_member(
            &mut doc,
            "dynamic_configs",
            eval_all(evaluator, user, details, specs, &specs.configs),
        );
        set_member(&mut doc, "layer_configs", eval_all(evaluator, user, details, specs, &specs.layers));
        set_member(&mut doc, "evaluated_keys", make_evaluated_keys(user));
        set_member(&mut doc, "sdkParams", json_object(new_members()));
        set_member(&mut doc, "generator", json_string("statsig-rust-sdk"));
        set_member(&mut doc, "has_updates", JsonValue::Bool(true));
        set_member(&mut doc, "time", JsonValue::Number("0".to_owned()));
        json_object(doc)
    }
}

} // verus!
