use statsig::eval_details::{EvalDetails, EvaluationReason};
use statsig::eval_result::{EvalResult, SecondaryExposure};
use statsig::json::{JsonMember, JsonValue};
use statsig::statsig_event::StatsigEvent;
use statsig::statsig_event_internal::{
    events_to_json, finalize_event, finalize_with_cloned_or_empty_exposures,
    finalize_with_optional_exposures, make_config_exposure, make_gate_exposure,
    make_layer_exposure, make_metadata_for_exposure, user_to_json,
};
use statsig::statsig_user::StatsigUser;

fn s(text: &str) -> JsonValue {
    JsonValue::String(text.to_string())
}

fn exposure(gate: &str, value: &str, rule: &str) -> SecondaryExposure {
    SecondaryExposure { gate: gate.to_string(), gate_value: value.to_string(), rule_id: rule.to_string() }
}

fn result() -> EvalResult {
    let mut r = EvalResult::boolean(true);
    r.rule_id = "rule-1".to_string();
    r.secondary_exposures = Some(vec![exposure("a", "true", "ra"), exposure("b", "false", "rb")]);
    r.undelegated_secondary_exposures = Some(vec![exposure("a", "true", "ra")]);
    r.explicit_parameters = Some(vec!["color".to_string()]);
    r.config_delegate = Some("exp".to_string());
    r.evaluation_details =
        EvalDetails { reason: EvaluationReason::DataAdapter, config_sync_time: 11, init_time: 22, server_time: 33 };
    r
}

fn user() -> StatsigUser {
    let mut u = StatsigUser::with_user_id("u".to_string());
    u.email = Some("e@x.y".to_string());
    u.custom = Some(vec![JsonMember { name: "plan".to_string(), value: s("pro") }]);
    u.private_attributes = Some(vec![JsonMember { name: "secret".to_string(), value: s("hush") }]);
    u.custom_ids = Some(vec![("stableID".to_string(), "st".to_string())]);
    u.statsig_environment = Some(vec![("tier".to_string(), "dev".to_string())]);
    u
}

fn env() -> Option<Vec<(String, String)>> {
    Some(vec![("tier".to_string(), "staging".to_string())])
}

#[test]
fn metadata_of_an_exposure() {
    let m = make_metadata_for_exposure("gate", "my_gate", &result());
    assert_eq!(
        JsonValue::Object(m).to_text(),
        "{\"gate\":\"my_gate\",\"ruleID\":\"rule-1\",\"configSyncTime\":11,\"reason\":\"DataAdapter\",\
         \"initTime\":22,\"serverTime\":33}"
    );
}

#[test]
fn gate_exposure() {
    let e = make_gate_exposure(&user(), "my_gate", &result(), &env(), 44);
    assert_eq!(e.event_data.event_name, "statsig::gate_exposure");
    assert!(e.event_data.value.is_none());
    assert_eq!(e.time, 44);
    assert_eq!(
        JsonValue::Object(e.event_data.metadata.unwrap()).to_text(),
        "{\"gate\":\"my_gate\",\"ruleID\":\"rule-1\",\"configSyncTime\":11,\"reason\":\"DataAdapter\",\
         \"initTime\":22,\"serverTime\":33,\"gateValue\":\"true\"}"
    );
    assert_eq!(e.secondary_exposures.as_ref().unwrap().len(), 2);
    assert_eq!(e.secondary_exposures.as_ref().unwrap()[1].gate, "b");
    assert!(e.user.private_attributes.is_none());
    assert_eq!(e.user.statsig_environment, env());
    assert_eq!(e.user.email, Some("e@x.y".to_string()));
}

#[test]
fn config_exposure() {
    let e = make_config_exposure(&user(), "my_config", &result(), &None, 44);
    assert_eq!(e.event_data.event_name, "statsig::config_exposure");
    assert_eq!(
        JsonValue::Object(e.event_data.metadata.unwrap()).to_text(),
        "{\"config\":\"my_config\",\"ruleID\":\"rule-1\",\"configSyncTime\":11,\"reason\":\"DataAdapter\",\
         \"initTime\":22,\"serverTime\":33}"
    );
    assert!(e.user.private_attributes.is_none());
    assert_eq!(e.user.statsig_environment, Some(vec![("tier".to_string(), "dev".to_string())]));
    let mut bare = EvalResult::default();
    bare.secondary_exposures = None;
    let e = make_config_exposure(&user(), "c", &bare, &None, 1);
    assert_eq!(e.secondary_exposures.unwrap().len(), 0);
}

#[test]
fn layer_exposure_of_an_explicit_parameter() {
    let e = make_layer_exposure(&user(), "my_layer", "color", &result(), &None, 44);
    assert_eq!(e.event_data.event_name, "statsig::layer_exposure");
    assert_eq!(
        JsonValue::Object(e.event_data.metadata.unwrap()).to_text(),
        "{\"config\":\"my_layer\",\"ruleID\":\"rule-1\",\"configSyncTime\":11,\"reason\":\"DataAdapter\",\
         \"initTime\":22,\"serverTime\":33,\"allocatedExperiment\":\"exp\",\"parameterName\":\"color\",\
         \"isExplicitParameter\":\"true\"}"
    );
    assert_eq!(e.secondary_exposures.unwrap().len(), 2);
    assert!(e.user.private_attributes.is_none());
}

#[test]
fn layer_exposure_of_another_parameter() {
    let e = make_layer_exposure(&user(), "my_layer", "size", &result(), &None, 44);
    let m = e.event_data.metadata.unwrap();
    let text = JsonValue::Object(m).to_text();
    assert!(text.contains("\"allocatedExperiment\":\"\""));
    assert!(text.contains("\"parameterName\":\"size\""));
    assert!(text.contains("\"isExplicitParameter\":\"false\""));
    assert_eq!(e.secondary_exposures.unwrap().len(), 1);
}

#[test]
fn finalize_strips_private_attributes_and_sets_the_environment() {
    let event = StatsigEvent { event_name: "custom".to_string(), value: Some(s("v")), metadata: None };
    let e = finalize_event(&user(), event, &env(), 55);
    assert_eq!(e.event_data.event_name, "custom");
    assert!(e.event_data.value.unwrap().equals(&s("v")));
    assert_eq!(e.time, 55);
    assert!(e.secondary_exposures.is_none());
    assert!(e.user.private_attributes.is_none());
    assert_eq!(e.user.statsig_environment, env());
    assert_eq!(e.user.user_id, Some("u".to_string()));
    assert_eq!(e.user.custom_ids, user().custom_ids);
    assert!(e.user.custom.is_some());
    let event = StatsigEvent { event_name: "custom".to_string(), value: None, metadata: None };
    let e = finalize_with_cloned_or_empty_exposures(&user(), event, &None, &None, 1);
    assert_eq!(e.secondary_exposures.unwrap().len(), 0);
    let event = StatsigEvent { event_name: "custom".to_string(), value: None, metadata: None };
    let e = finalize_with_optional_exposures(&user(), event, &None, Some(vec![exposure("g", "true", "r")]), 1);
    assert_eq!(e.secondary_exposures.unwrap()[0].rule_id, "r");
    assert!(e.user.private_attributes.is_none());
}

#[test]
fn the_wire_shape_of_a_user_leaves_private_attributes_out() {
    assert_eq!(
        user_to_json(&user()).to_text(),
        "{\"userID\":\"u\",\"email\":\"e@x.y\",\"ip\":null,\"userAgent\":null,\"country\":null,\"locale\":null,\
         \"appVersion\":null,\"custom\":{\"plan\":\"pro\"},\"customIDs\":{\"stableID\":\"st\"},\
         \"statsigEnvironment\":{\"tier\":\"dev\"}}"
    );
}

#[test]
fn the_wire_shape_of_a_batch() {
    let a = make_gate_exposure(&StatsigUser::with_user_id("u".to_string()), "g", &result(), &None, 7);
    let text = events_to_json(&vec![a]).to_text();
    assert!(text.starts_with("[{\"eventName\":\"statsig::gate_exposure\",\"value\":null,\"metadata\":{"));
    assert!(text.ends_with(
        "\"time\":7,\"secondaryExposures\":[{\"gate\":\"a\",\"gateValue\":\"true\",\"ruleID\":\"ra\"},\
         {\"gate\":\"b\",\"gateValue\":\"false\",\"ruleID\":\"rb\"}]}]"
    ));
    assert_eq!(events_to_json(&vec![]).to_text(), "[]");
}
