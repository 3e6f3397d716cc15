//! Events as they are queued: exposures of gates, configs and layers, and
//! the events of callers, each with the user it is about and its time. No
//! queued event carries the user's private attributes.

use crate::eval_details::reason_text;
use crate::eval_result::{
    copy_exposures, exposures_view, opt_exposures_view, opt_json_view, EvalResult, EvalResultView,
    ExposureView, SecondaryExposure,
};
use crate::decimal::{digits_of, u64_digits};
use crate::json::{
    json_array, json_object, json_pairs, members_view, new_members, opt_members_view, pairs_json,
    set_member, values_view, with_member, JsonMember, JsonValue, JsonView, MemberView,
};
use crate::statsig_event::StatsigEvent;
use crate::statsig_evaluator::bool_text;
use crate::statsig_user::{copy_pairs, StatsigUser, UserView};
use crate::text::{opt_pairs_view, opt_view, string_of, text_is};
use vstd::prelude::*;

verus! {

pub struct StatsigEventInternal {
    pub event_data: StatsigEvent,
    pub user: StatsigUser,
    pub time: u64,
    pub secondary_exposures: Option<Vec<SecondaryExposure>>,
}

/// What a queued event holds.
pub struct EventView {
    pub event_name: Seq<char>,
    pub value: Option<JsonView>,
    pub metadata: Option<Seq<MemberView>>,
    pub user: UserView,
    pub time: u64,
    pub secondary_exposures: Option<Seq<ExposureView>>,
}

impl View for StatsigEventInternal {
    type V = EventView;

    open spec fn view(&self) -> EventView {
        EventView {
            event_name: self.event_data.event_name@,
            value: opt_json_view(self.event_data.value),
            metadata: opt_members_view(self.event_data.metadata),
            user: self.user@,
            time: self.time,
            secondary_exposures: opt_exposures_view(self.secondary_exposures),
        }
    }
}

/// The user as an event carries it: with the environment of the options
/// where they name one, and without private attributes.
pub open spec fn exposed_user(user: UserView, environment: Option<Seq<(Seq<char>, Seq<char>)>>) -> UserView {
    UserView {
        statsig_environment: match environment {
            Some(e) => Some(e),
            None => user.statsig_environment,
        },
        private_attributes: None,
        ..user
    }
}

/// A whole number as a JSON number.
pub open spec fn json_number(n: u64) -> JsonView {
    JsonView::Number(digits_of(n as nat))
}

/// What every exposure says of its evaluation: the name under `key`, the
/// rule id, and the details of the evaluation.
pub open spec fn exposure_metadata(key: Seq<char>, name: Seq<char>, result: EvalResultView) -> Seq<
    MemberView,
> {
    with_member(
        with_member(
            with_member(
                with_member(
                    with_member(
                        with_member(Seq::empty(), key, JsonView::String(name)),
                        "ruleID"@,
                        JsonView::String(result.rule_id),
                    ),
                    "configSyncTime"@,
                    json_number(result.evaluation_details.config_sync_time),
                ),
                "reason"@,
                JsonView::String(reason_text(result.evaluation_details.reason)),
            ),
            "initTime"@,
            json_number(result.evaluation_details.init_time),
        ),
        "serverTime"@,
        json_number(result.evaluation_details.server_time),
    )
}

pub open spec fn or_empty(e: Option<Seq<ExposureView>>) -> Seq<ExposureView> {
    match e {
        Some(s) => s,
        None => Seq::empty(),
    }
}

/// The exposure of a gate.
pub open spec fn gate_exposure(
    user: UserView,
    gate_name: Seq<char>,
    result: EvalResultView,
    environment: Option<Seq<(Seq<char>, Seq<char>)>>,
    time: u64,
) -> EventView {
    EventView {
        event_name: "statsig::gate_exposure"@,
        value: None,
        metadata: Some(
            with_member(
                exposure_metadata("gate"@, gate_name, result),
                "gateValue"@,
                JsonView::String(bool_text(result.bool_value)),
            ),
        ),
        user: exposed_user(user, environment),
        time,
        secondary_exposures: Some(or_empty(result.secondary_exposures)),
    }
}

/// The exposure of a config.
pub open spec fn config_exposure(
    user: UserView,
    config_name: Seq<char>,
    result: EvalResultView,
    environment: Option<Seq<(Seq<char>, Seq<char>)>>,
    time: u64,
) -> EventView {
    EventView {
        event_name: "statsig::config_exposure"@,
        value: None,
        metadata: Some(exposure_metadata("config"@, config_name, result)),
        user: exposed_user(user, environment),
        time,
        secondary_exposures: Some(or_empty(result.secondary_exposures)),
    }
}

/// Whether a parameter of a layer is one that the experiment it delegates
/// to sets.
pub open spec fn is_explicit(result: EvalResultView, parameter_name: Seq<char>) -> bool {
    match result.explicit_parameters {
        Some(p) => p.contains(parameter_name),
        None => false,
    }
}

/// The exposure of a parameter of a layer: for a parameter that the
/// experiment sets, with the experiment and all exposures; for any other,
/// with the exposures gathered before the delegation.
pub open spec fn layer_exposure(
    user: UserView,
    layer_name: Seq<char>,
    parameter_name: Seq<char>,
    result: EvalResultView,
    environment: Option<Seq<(Seq<char>, Seq<char>)>>,
    time: u64,
) -> EventView {
    let explicit = is_explicit(result, parameter_name);
    EventView {
        event_name: "statsig::layer_exposure"@,
        value: None,
        metadata: Some(
            with_member(
                with_member(
                    with_member(
                        exposure_metadata("config"@, layer_name, result),
                        "allocatedExperiment"@,
                        JsonView::String(
                            if explicit && result.config_delegate is Some {
                                result.config_delegate->0
                            } else {
                                Seq::empty()
                            },
                        ),
                    ),
                    "parameterName"@,
                    JsonView::String(parameter_name),
                ),
                "isExplicitParameter"@,
                JsonView::String(bool_text(explicit)),
            ),
        ),
        user: exposed_user(user, environment),
        time,
        secondary_exposures: Some(
            or_empty(
                if explicit {
                    result.secondary_exposures
                } else {
                    result.undelegated_secondary_exposures
                },
            ),
        ),
    }
}

fn number(n: u64) -> (r: JsonValue)
    ensures
        r@ == json_number(n),
{
    JsonValue::Number(string_of(&u64_digits(n)))
}

fn bool_string(b: bool) -> (r: JsonValue)
    ensures
        r@ == JsonView::String(bool_text(b)),
{
    if b {
        JsonValue::String("true".to_owned())
    } else {
        JsonValue::String("false".to_owned())
    }
}

pub fn make_metadata_for_exposure(config_key: &str, config_name: &str, eval_result: &EvalResult) -> (r:
    Vec<JsonMember>)
    ensures
        members_view(r@) == exposure_metadata(config_key@, config_name@, eval_result@),
{
    let mut m: Vec<JsonMember> = Vec::new();
    assert(members_view(m@) =~= Seq::empty());
    set_member(&mut m, config_key, JsonValue::String(config_name.to_owned()));
    set_member(&mut m, "ruleID", JsonValue::String(eval_result.rule_id.clone()));
    set_member(&mut m, "configSyncTime", number(eval_result.evaluation_details.config_sync_time));
    set_member(
        &mut m,
        "reason",
        JsonValue::String(eval_result.evaluation_details.reason_name().to_owned()),
    );
    set_member(&mut m, "initTime", number(eval_result.evaluation_details.init_time));
    set_member(&mut m, "serverTime", number(eval_result.evaluation_details.server_time));
    m
}

pub fn make_gate_exposure(
    user: &StatsigUser,
    gate_name: &str,
    eval_result: &EvalResult,
    statsig_environment: &Option<Vec<(String, String)>>,
    time: u64,
) -> (r: StatsigEventInternal)
    ensures
        r@ == gate_exposure(
            user@,
            gate_name@,
            eval_result@,
            opt_pairs_view(*statsig_environment),
            time,
        ),
{
    let mut metadata = make_metadata_for_exposure("gate", gate_name, eval_result);
    set_member(&mut metadata, "gateValue", bool_string(eval_result.bool_value));
    let event = StatsigEvent {
        event_name: "statsig::gate_exposure".to_owned(),
        value: None,
        metadata: Some(metadata),
    };
    finalize_with_cloned_or_empty_exposures(
        user,
        event,
        statsig_environment,
        &eval_result.secondary_exposures,
        time,
    )
}

pub fn make_config_exposure(
    user: &StatsigUser,
    config_name: &str,
    eval_result: &EvalResult,
    statsig_environment: &Option<Vec<(String, String)>>,
    time: u64,
) -> (r: StatsigEventInternal)
    ensures
        r@ == config_exposure(
            user@,
            config_name@,
            eval_result@,
            opt_pairs_view(*statsig_environment),
            time,
        ),
{
    let event = StatsigEvent {
        event_name: "statsig::config_exposure".to_owned(),
        value: None,
        metadata: Some(make_metadata_for_exposure("config", config_name, eval_result)),
    };
    finalize_with_cloned_or_empty_exposures(
        user,
        event,
        statsig_environment,
        &eval_result.secondary_exposures,
        time,
    )
}

fn names_parameter(explicit_parameters: &Option<Vec<String>>, parameter_name: &str) -> (r: bool)
    ensures
        r == match crate::text::opt_strings_view(*explicit_parameters) {
            Some(p) => p.contains(parameter_name@),
            None => false,
        },
{
    match explicit_parameters {
        Some(params) => {
            let ghost v = crate::text::strings_view(params@);
            let mut i: usize = 0;
            while i < params.len()
                invariant
                    i <= params.len(),
                    v == crate::text::strings_view(params@),
                    *explicit_parameters == Some(*params),
                    forall|k: int| 0 <= k < i ==> v[k] != parameter_name@,
                decreases params.len() - i,
            {
                assert(v[i as int] == params@[i as int]@);
                if text_is(params[i].as_str(), parameter_name) {
                    assert(v.contains(parameter_name@));
                    return true;
                }
                i += 1;
            }
            assert(!v.contains(parameter_name@));
            false
        },
        None => false,
    }
}

pub fn make_layer_exposure(
    user: &StatsigUser,
    layer_name: &str,
    parameter_name: &str,
    eval_result: &EvalResult,
    statsig_environment: &Option<Vec<(String, String)>>,
    time: u64,
) -> (r: StatsigEventInternal)
    ensures
        r@ == layer_exposure(
            user@,
            layer_name@,
            parameter_name@,
            eval_result@,
            opt_pairs_view(*statsig_environment),
            time,
        ),
{
    let is_explicit = names_parameter(&eval_result.explicit_parameters, parameter_name);
    let mut allocated_experiment = String::new();
    if is_explicit {
        if let Some(d) = &eval_result.config_delegate {
            allocated_experiment = d.clone();
        }
    }
    let mut metadata = make_metadata_for_exposure("config", layer_name, eval_result);
    set_member(&mut metadata, "allocatedExperiment", JsonValue::String(allocated_experiment));
    set_member(&mut metadata, "parameterName", JsonValue::String(parameter_name.to_owned()));
    set_member(&mut metadata, "isExplicitParameter", bool_string(is_explicit));
    let event = StatsigEvent {
        event_name: "statsig::layer_exposure".to_owned(),
        value: None,
        metadata: Some(metadata),
    };
    if is_explicit {
        finalize_with_cloned_or_empty_exposures(
            user,
            event,
            statsig_environment,
            &eval_result.secondary_exposures,
            time,
        )
    } else {
        finalize_with_cloned_or_empty_exposures(
            user,
            event,
            statsig_environment,
            &eval_result.undelegated_secondary_exposures,
            time,
        )
    }
}

/// The event of a caller as it is queued.
pub open spec fn finalized(
    user: UserView,
    event: StatsigEvent,
    environment: Option<Seq<(Seq<char>, Seq<char>)>>,
    secondary_exposures: Option<Seq<ExposureView>>,
    time: u64,
) -> EventView {
    EventView {
        event_name: event.event_name@,
        value: opt_json_view(event.value),
        metadata: opt_members_view(event.metadata),
        user: exposed_user(user, environment),
        time,
        secondary_exposures,
    }
}

pub fn finalize_event(
    user: &StatsigUser,
    event: StatsigEvent,
    statsig_environment: &Option<Vec<(String, String)>>,
    time: u64,
) -> (r: StatsigEventInternal)
    ensures
        r@ == finalized(user@, event, opt_pairs_view(*statsig_environment), None, time),
{
    finalize_with_optional_exposures(user, event, statsig_environment, None, time)
}

pub fn finalize_with_cloned_or_empty_exposures(
    user: &StatsigUser,
    event: StatsigEvent,
    statsig_environment: &Option<Vec<(String, String)>>,
    secondary_exposures: &Option<Vec<SecondaryExposure>>,
    time: u64,
) -> (r: StatsigEventInternal)
    ensures
        r@ == finalized(
            user@,
            event,
            opt_pairs_view(*statsig_environment),
            Some(or_empty(opt_exposures_view(*secondary_exposures))),
            time,
        ),
{
    let exposures = match secondary_exposures {
        Some(expo) => copy_exposures(expo),
        None => {
            let v: Vec<SecondaryExposure> = Vec::new();
            assert(exposures_view(v@) =~= Seq::empty());
            v
        },
    };
    finalize_with_optional_exposures(user, event, statsig_environment, Some(exposures), time)
}

pub fn finalize_with_optional_exposures(
    user: &StatsigUser,
    event: StatsigEvent,
    statsig_environment: &Option<Vec<(String, String)>>,
    secondary_exposures: Option<Vec<SecondaryExposure>>,
    time: u64,
) -> (r: StatsigEventInternal)
    ensures
        r@ == finalized(
            user@,
            event,
            opt_pairs_view(*statsig_environment),
            opt_exposures_view(secondary_exposures),
            time,
        ),
{
    let mut user_copy = user.duplicate();
    if let Some(env) = statsig_environment {
        user_copy.statsig_environment = Some(copy_pairs(env));
    }
    user_copy.private_attributes = None;
    StatsigEventInternal { event_data: event, user: user_copy, time, secondary_exposures }
}


pub open spec fn text_or_null(t: Option<Seq<char>>) -> JsonView {
    match t {
        Some(s) => JsonView::String(s),
        None => JsonView::Null,
    }
}

pub open spec fn members_or_null(m: Option<Seq<MemberView>>) -> JsonView {
    match m {
        Some(s) => JsonView::Object(s),
        None => JsonView::Null,
    }
}

pub open spec fn pairs_or_null(p: Option<Seq<(Seq<char>, Seq<char>)>>) -> JsonView {
    match p {
        Some(s) => pairs_json(s),
        None => JsonView::Null,
    }
}

/// A user as it is sent: every field but the private attributes.
pub open spec fn user_json(user: UserView) -> JsonView {
    JsonView::Object(
        with_member(
            with_member(
                with_member(
                    with_member(
                        with_member(
                            with_member(
                                with_member(
                                    with_member(
                                        with_member(
                                            with_member(
                                                Seq::empty(),
                                                "userID"@,
                                                text_or_null(user.user_id),
                                            ),
                                            "email"@,
                                            text_or_null(user.email),
                                        ),
                                        "ip"@,
                                        text_or_null(user.ip),
                                    ),
                                    "userAgent"@,
                                    text_or_null(user.user_agent),
                                ),
                                "country"@,
                                text_or_null(user.country),
                            ),
                            "locale"@,
                            text_or_null(user.locale),
                        ),
                        "appVersion"@,
                        text_or_null(user.app_version),
                    ),
                    "custom"@,
                    members_or_null(user.custom),
                ),
                "customIDs"@,
                pairs_or_null(user.custom_ids),
            ),
            "statsigEnvironment"@,
            pairs_or_null(user.statsig_environment),
        ),
    )
}

/// A secondary exposure as it is sent.
pub open spec fn exposure_json(e: ExposureView) -> JsonView {
    JsonView::Object(
        with_member(
            with_member(
                with_member(Seq::empty(), "gate"@, JsonView::String(e.gate)),
                "gateValue"@,
                JsonView::String(e.gate_value),
            ),
            "ruleID"@,
            JsonView::String(e.rule_id),
        ),
    )
}

pub open spec fn exposures_json(e: Option<Seq<ExposureView>>) -> JsonView {
    match e {
        Some(s) => JsonView::Array(Seq::new(s.len(), |i: int| exposure_json(s[i]))),
        None => JsonView::Null,
    }
}

pub open spec fn json_or_null(v: Option<JsonView>) -> JsonView {
    match v {
        Some(j) => j,
        None => JsonView::Null,
    }
}

/// An event as it is sent.
pub open spec fn event_json(e: EventView) -> JsonView {
    JsonView::Object(
        with_member(
            with_member(
                with_member(
                    with_member(
                        with_member(
                            with_member(Seq::empty(), "eventName"@, JsonView::String(e.event_name)),
                            "value"@,
                            json_or_null(e.value),
                        ),
                        "metadata"@,
                        members_or_null(e.metadata),
                    ),
                    "user"@,
                    user_json(e.user),
                ),
                "time"@,
                json_number(e.time),
            ),
            "secondaryExposures"@,
            exposures_json(e.secondary_exposures),
        ),
    )
}

/// A batch of events as it is sent.
pub open spec fn events_json(events: Seq<StatsigEventInternal>) -> JsonView {
    JsonView::Array(Seq::new(events.len(), |i: int| event_json(events[i]@)))
}

fn opt_text(t: &Option<String>) -> (r: JsonValue)
    ensures
        r@ == text_or_null(opt_view(*t)),
{
    match t {
        Some(s) => JsonValue::String(s.clone()),
        None => JsonValue::Null,
    }
}

fn opt_members(m: &Option<Vec<JsonMember>>) -> (r: JsonValue)
    ensures
        r@ == members_or_null(opt_members_view(*m)),
{
    match m {
        Some(s) => {
            let copy = crate::json::duplicate_members(s);
            json_object(copy)
        },
        None => JsonValue::Null,
    }
}

fn opt_pairs(p: &Option<Vec<(String, String)>>) -> (r: JsonValue)
    ensures
        r@ == pairs_or_null(opt_pairs_view(*p)),
{
    match p {
        Some(s) => json_pairs(s),
        None => JsonValue::Null,
    }
}

/// A user as it is sent.
pub fn user_to_json(user: &StatsigUser) -> (r: JsonValue)
    ensures
        r@ == user_json(user@),
{
    let mut m = new_members();
    set_member(&mut m, "userID", opt_text(&user.user_id));
    set_member(&mut m, "email", opt_text(&user.email));
    set_member(&mut m, "ip", opt_text(&user.ip));
    set_member(&mut m, "userAgent", opt_text(&user.user_agent));
    set_member(&mut m, "country", opt_text(&user.country));
    set_member(&mut m, "locale", opt_text(&user.locale));
    set_member(&mut m, "appVersion", opt_text(&user.app_version));
    set_member(&mut m, "custom", opt_members(&user.custom));
    set_member(&mut m, "customIDs", opt_pairs(&user.custom_ids));
    set_member(&mut m, "statsigEnvironment", opt_pairs(&user.statsig_environment));
    json_object(m)
}

fn exposure_to_json(e: &SecondaryExposure) -> (r: JsonValue)
    ensures
        r@ == exposure_json(e@),
{
    let mut m = new_members();
    set_member(&mut m, "gate", JsonValue::String(e.gate.clone()));
    set_member(&mut m, "gateValue", JsonValue::String(e.gate_value.clone()));
    set_member(&mut m, "ruleID", JsonValue::String(e.rule_id.clone()));
    json_object(m)
}

/// A list of secondary exposures as it is sent; null where there is none.
pub fn exposures_to_json(e: &Option<Vec<SecondaryExposure>>) -> (r: JsonValue)
    ensures
        r@ == exposures_json(opt_exposures_view(*e)),
{
    match e {
        Some(list) => {
            let mut out: Vec<JsonValue> = Vec::new();
            let mut i: usize = 0;
            while i < list.len()
                invariant
                    i <= list.len(),
                    out.len() == i,
                    forall|k: int| 0 <= k < i ==> out@[k]@ == exposure_json(list@[k]@),
                decreases list.len() - i,
            {
                out.push(exposure_to_json(&list[i]));
                i += 1;
            }
            let r = json_array(out);
            assert(values_view(out@) =~= exposures_json(Some(exposures_view(list@)))->Array_0);
            r
        },
        None => JsonValue::Null,
    }
}

impl StatsigEventInternal {
    /// The event as it is sent.
    pub fn to_json(&self) -> (r: JsonValue)
        ensures
            r@ == event_json(self@),
    {
        let mut m = new_members();
        set_member(&mut m, "eventName", JsonValue::String(self.event_data.event_name.clone()));
        set_member(
            &mut m,
            "value",
            match &self.event_data.value {
                Some(v) => v.duplicate(),
                None => JsonValue::Null,
            },
        );
        set_member(&mut m, "metadata", opt_members(&self.event_data.metadata));
        set_member(&mut m, "user", user_to_json(&self.user));
        set_member(&mut m, "time", number(self.time));
        set_member(&mut m, "secondaryExposures", exposures_to_json(&self.secondary_exposures));
        json_object(m)
    }
}

/// A batch of events as it is sent.
pub fn events_to_json(events: &Vec<StatsigEventInternal>) -> (r: JsonValue)
    ensures
        r@ == events_json(events@),
{
    let mut out: Vec<JsonValue> = Vec::new();
    let mut i: usize = 0;
    while i < events.len()
        invariant
            i <= events.len(),
            out.len() == i,
            forall|k: int| 0 <= k < i ==> out@[k]@ == event_json(events@[k]@),
        decreases events.len() - i,
    {
        out.push(events[i].to_json());
        i += 1;
    }
    let r = json_array(out);
    assert(values_view(out@) =~= events_json(events@)->Array_0);
    r
}

/// What is sent of a user does not depend on the user's private
/// attributes.
pub proof fn lemma_private_attributes_are_not_sent(user: UserView, other: Option<Seq<MemberView>>)
    ensures
        user_json(UserView { private_attributes: other, ..user }) == user_json(user),
{
}

/// No event made here carries private attributes, whatever the user holds.
pub proof fn lemma_events_carry_no_private_attributes(
    user: UserView,
    name: Seq<char>,
    parameter_name: Seq<char>,
    result: EvalResultView,
    event: StatsigEvent,
    environment: Option<Seq<(Seq<char>, Seq<char>)>>,
    secondary_exposures: Option<Seq<ExposureView>>,
    time: u64,
)
    ensures
        gate_exposure(user, name, result, environment, time).user.private_attributes is None,
        config_exposure(user, name, result, environment, time).user.private_attributes is None,
        layer_exposure(
            user,
            name,
            parameter_name,
            result,
            environment,
            time,
        ).user.private_attributes is None,
        finalized(user, event, environment, secondary_exposures, time).user.private_attributes
            is None,
{
}

} // verus!
