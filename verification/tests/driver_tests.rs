use statsig::data_types::{
    APICondition, APIDownloadedConfigsResponse, APIDownloadedConfigsWithUpdates, APIRule, APISpec,
};
use statsig::eval_details::EvaluationReason;
use statsig::json::{JsonMember, JsonValue};
use statsig::statsig_driver::StatsigDriver;
use statsig::statsig_event::StatsigEvent;
use statsig::statsig_options::StatsigOptions;
use statsig::statsig_user::StatsigUser;

fn s(text: &str) -> JsonValue {
    JsonValue::String(text.to_string())
}

fn n(text: &str) -> JsonValue {
    JsonValue::Number(text.to_string())
}

fn object(members: Vec<(&str, JsonValue)>) -> JsonValue {
    JsonValue::Object(
        members.into_iter().map(|(k, v)| JsonMember { name: k.to_string(), value: v }).collect(),
    )
}

fn public() -> APICondition {
    APICondition {
        condition_type: "public".to_string(),
        target_value: None,
        operator: None,
        field: None,
        additional_values: None,
        id_type: "userID".to_string(),
    }
}

fn rule(id: &str, pass_percentage: &str, conditions: Vec<APICondition>, return_value: JsonValue) -> APIRule {
    APIRule {
        name: id.to_string(),
        pass_percentage: pass_percentage.to_string(),
        return_value,
        id: id.to_string(),
        salt: None,
        conditions,
        id_type: "userID".to_string(),
        group_name: None,
        config_delegate: None,
        is_experiment_group: None,
    }
}

fn spec(name: &str, kind: &str, entity: &str, default_value: JsonValue, rules: Vec<APIRule>) -> APISpec {
    APISpec {
        name: name.to_string(),
        _type: kind.to_string(),
        salt: "s".to_string(),
        default_value,
        enabled: true,
        rules,
        id_type: "userID".to_string(),
        explicit_parameters: None,
        entity: entity.to_string(),
        has_shared_params: None,
        is_active: None,
    }
}

fn rule_set() -> APIDownloadedConfigsWithUpdates {
    let env_condition = APICondition {
        condition_type: "environment_field".to_string(),
        target_value: Some(JsonValue::Array(vec![s("staging")])),
        operator: Some("any".to_string()),
        field: Some("tier".to_string()),
        additional_values: None,
        id_type: "userID".to_string(),
    };
    let mut layer_rule = rule("layer-rule", "100", vec![public()], object(vec![("color", s("red"))]));
    layer_rule.config_delegate = Some("exp".to_string());
    let mut experiment = spec(
        "exp",
        "dynamic_config",
        "experiment",
        object(vec![]),
        vec![rule("exp-rule", "100", vec![public()], object(vec![("color", s("blue")), ("size", n("3"))]))],
    );
    experiment.explicit_parameters = Some(vec!["color".to_string()]);
    APIDownloadedConfigsWithUpdates {
        feature_gates: vec![
            spec(
                "open",
                "feature_gate",
                "feature_gate",
                JsonValue::Bool(false),
                vec![rule("open-rule", "100", vec![public()], JsonValue::Bool(true))],
            ),
            spec(
                "staging_only",
                "feature_gate",
                "feature_gate",
                JsonValue::Bool(false),
                vec![rule("staging-rule", "100", vec![env_condition], JsonValue::Bool(true))],
            ),
            spec(
                "odd",
                "feature_gate",
                "feature_gate",
                JsonValue::Bool(false),
                vec![rule(
                    "odd-rule",
                    "100",
                    vec![APICondition { condition_type: "tea_leaves".to_string(), ..public() }],
                    JsonValue::Bool(true),
                )],
            ),
        ],
        dynamic_configs: vec![
            spec(
                "cfg",
                "dynamic_config",
                "dynamic_config",
                object(vec![("a", n("0"))]),
                vec![rule("cfg-rule", "100", vec![public()], object(vec![("a", n("1"))]))],
            ),
            experiment,
        ],
        layer_configs: vec![spec(
            "layer",
            "dynamic_config",
            "layer",
            object(vec![("color", s("grey"))]),
            vec![layer_rule],
        )],
        id_lists: None,
        layers: Some(vec![("layer".to_string(), vec!["exp".to_string()])]),
        has_updates: true,
        time: 1000,
    }
}

fn driver_with(options: StatsigOptions) -> StatsigDriver {
    let mut d = StatsigDriver::new("secret key", options, &[], &[], false, false);
    d.store.fetch_and_process_configs_from_network(
        Some(APIDownloadedConfigsResponse::WithUpdates(rule_set())),
        500,
    );
    d
}

fn driver() -> StatsigDriver {
    driver_with(StatsigOptions::default())
}

fn user() -> StatsigUser {
    let mut u = StatsigUser::with_user_id("u".to_string());
    u.private_attributes = Some(vec![JsonMember { name: "secret".to_string(), value: s("x") }]);
    u
}

fn metadata(d: &StatsigDriver, index: usize, key: &str) -> String {
    let m = d.logger.events[index].event_data.metadata.as_ref().expect("metadata");
    let found = m.iter().find(|x| x.name == key).expect("key");
    match &found.value {
        JsonValue::String(t) => t.clone(),
        other => other.to_text(),
    }
}

#[test]
fn test_driver_cleanup_doesnt_panic() {
    let mut d = StatsigDriver::new("secret key", StatsigOptions::default(), &[], &[], false, false);
    let plan = d.shutdown();
    assert_eq!(plan.jobs_to_await, 0);
    assert!(plan.batch.is_none());
}

#[test]
fn check_gate_answers_and_queues_an_exposure() {
    let mut d = driver();
    assert!(d.check_gate(&user(), "open", 2000));
    assert_eq!(d.logger.events.len(), 1);
    let e = &d.logger.events[0];
    assert_eq!(e.event_data.event_name, "statsig::gate_exposure");
    assert!(e.event_data.value.is_none());
    assert_eq!(e.time, 2000);
    assert_eq!(e.user.user_id, Some("u".to_string()));
    assert!(e.user.private_attributes.is_none());
    assert_eq!(e.secondary_exposures.as_ref().unwrap().len(), 0);
    assert_eq!(metadata(&d, 0, "gate"), "open");
    assert_eq!(metadata(&d, 0, "gateValue"), "true");
    assert_eq!(metadata(&d, 0, "ruleID"), "open-rule");
    assert_eq!(metadata(&d, 0, "reason"), "Network");
    assert_eq!(metadata(&d, 0, "configSyncTime"), "1000");
    assert_eq!(metadata(&d, 0, "initTime"), "500");
    assert_eq!(metadata(&d, 0, "serverTime"), "2000");
}

#[test]
fn check_gate_on_an_unknown_gate() {
    let mut d = driver();
    assert!(!d.check_gate(&user(), "nope", 2000));
    assert_eq!(metadata(&d, 0, "gateValue"), "false");
    assert_eq!(metadata(&d, 0, "ruleID"), "default");
    assert_eq!(metadata(&d, 0, "reason"), "Unrecognized");
}

#[test]
fn an_unsupported_gate_comes_out_false_with_its_reason() {
    let mut d = driver();
    let g = d.get_feature_gate(&user(), "odd", 2000);
    assert!(!g.value);
    assert_eq!(g.rule_id, "unsupported");
    assert_eq!(g.evaluation_details.reason, EvaluationReason::Unsupported);
    assert_eq!(metadata(&d, 0, "reason"), "Unsupported");
}

#[test]
fn before_any_rule_set_the_reason_is_uninitialized() {
    let mut d = StatsigDriver::new("secret key", StatsigOptions::default(), &[], &[], false, false);
    let g = d.get_feature_gate(&user(), "open", 1);
    assert!(!g.value);
    assert_eq!(g.rule_id, "default");
    assert_eq!(g.evaluation_details.reason, EvaluationReason::Unrecognized);
    assert_eq!(d.store.eval_details(1).reason, EvaluationReason::Uninitialized);
}

#[test]
fn the_environment_of_the_options_overrides_that_of_the_user() {
    let mut options = StatsigOptions::default();
    options.environment = Some(vec![("tier".to_string(), "staging".to_string())]);
    let mut d = driver_with(options);
    let mut u = user();
    u.statsig_environment = Some(vec![("tier".to_string(), "production".to_string())]);
    assert!(d.check_gate(&u, "staging_only", 1));
    assert_eq!(
        d.logger.events[0].user.statsig_environment,
        Some(vec![("tier".to_string(), "staging".to_string())])
    );
    let mut plain = driver();
    assert!(!plain.check_gate(&u, "staging_only", 1));
    assert_eq!(
        plain.logger.events[0].user.statsig_environment,
        Some(vec![("tier".to_string(), "production".to_string())])
    );
    let n = d.get_normalized_user_copy(&u);
    assert_eq!(n.statsig_environment, Some(vec![("tier".to_string(), "staging".to_string())]));
    assert!(n.private_attributes.is_some());
}

#[test]
fn get_feature_gate_shapes_the_result() {
    let mut d = driver();
    let g = d.get_feature_gate(&user(), "open", 2000);
    assert_eq!(g.name, "open");
    assert!(g.value);
    assert_eq!(g.rule_id, "open-rule");
    assert_eq!(g.evaluation_details.reason, EvaluationReason::Network);
    assert_eq!(g.evaluation_details.server_time, 2000);
    assert_eq!(d.logger.events.len(), 1);
}

#[test]
fn get_config_and_get_experiment() {
    let mut d = driver();
    let c = d.get_config(&user(), "cfg", 2000);
    assert_eq!(c.name, "cfg");
    assert_eq!(c.rule_id, "cfg-rule");
    assert_eq!(c.value.unwrap().to_text(), "{\"a\":1}");
    assert_eq!(d.logger.events[0].event_data.event_name, "statsig::config_exposure");
    assert_eq!(metadata(&d, 0, "config"), "cfg");
    assert_eq!(metadata(&d, 0, "ruleID"), "cfg-rule");
    let e = d.get_experiment(&user(), "exp", 2001);
    assert_eq!(e.rule_id, "exp-rule");
    assert_eq!(e.value.unwrap().to_text(), "{\"color\":\"blue\",\"size\":3}");
    assert_eq!(d.logger.events.len(), 2);
    let missing = d.get_config(&user(), "nope", 2002);
    assert!(missing.value.is_none());
    assert_eq!(missing.rule_id, "default");
}

#[test]
fn get_layer_queues_nothing_until_a_parameter_is_read() {
    let mut d = driver();
    let layer = d.get_layer(&user(), "layer", 2000);
    assert_eq!(layer.name, "layer");
    assert_eq!(layer.rule_id, "exp-rule");
    assert_eq!(d.logger.events.len(), 0);
    assert_eq!(layer.get("color").unwrap().to_text(), "\"blue\"");
    assert_eq!(layer.get("size").unwrap().to_text(), "3");
    assert!(layer.get("weight").is_none());
    d.log_layer_parameter_exposure(&layer, "color", &layer.log_data, 2001);
    d.log_layer_parameter_exposure(&layer, "size", &layer.log_data, 2002);
    assert_eq!(d.logger.events.len(), 2);
    assert_eq!(d.logger.events[0].event_data.event_name, "statsig::layer_exposure");
    assert_eq!(metadata(&d, 0, "config"), "layer");
    assert_eq!(metadata(&d, 0, "parameterName"), "color");
    assert_eq!(metadata(&d, 0, "isExplicitParameter"), "true");
    assert_eq!(metadata(&d, 0, "allocatedExperiment"), "exp");
    assert_eq!(metadata(&d, 1, "parameterName"), "size");
    assert_eq!(metadata(&d, 1, "isExplicitParameter"), "false");
    assert_eq!(metadata(&d, 1, "allocatedExperiment"), "");
    assert!(d.logger.events[0].user.private_attributes.is_none());
}

#[test]
fn log_event_queues_the_event_without_private_attributes() {
    let mut d = driver();
    let event = StatsigEvent {
        event_name: "purchase".to_string(),
        value: Some(n("9.99")),
        metadata: Some(vec![JsonMember { name: "sku".to_string(), value: s("abc") }]),
    };
    d.log_event(&user(), event, 3000);
    let e = &d.logger.events[0];
    assert_eq!(e.event_data.event_name, "purchase");
    assert_eq!(e.time, 3000);
    assert!(e.secondary_exposures.is_none());
    assert!(e.user.private_attributes.is_none());
    assert_eq!(
        e.to_json().to_text(),
        "{\"eventName\":\"purchase\",\"value\":9.99,\"metadata\":{\"sku\":\"abc\"},\"user\":{\"userID\":\"u\",\
         \"email\":null,\"ip\":null,\"userAgent\":null,\"country\":null,\"locale\":null,\"appVersion\":null,\
         \"custom\":null,\"customIDs\":null,\"statsigEnvironment\":null},\"time\":3000,\
         \"secondaryExposures\":null}"
    );
}

#[test]
fn three_checks_over_a_limit_of_two_make_one_batch_of_three() {
    let mut options = StatsigOptions::default();
    options.logger_max_queue_size = 2;
    let mut d = driver_with(options);
    d.check_gate(&user(), "open", 1);
    assert!(!d.logger.flush_due);
    d.check_gate(&user(), "open", 2);
    assert!(!d.logger.flush_due);
    d.check_gate(&user(), "open", 3);
    assert!(d.logger.flush_due);
    d.logger.flush();
    let batch = d.logger.flush_impl().expect("one batch");
    assert_eq!(batch.len(), 3);
    assert!(d.logger.flush_impl().is_none());
    assert!(!d.logger.flush_due);
}

#[test]
fn shutdown_leaves_an_empty_queue() {
    let mut d = driver();
    d.check_gate(&user(), "open", 1);
    d.check_gate(&user(), "nope", 2);
    let plan = d.shutdown();
    assert_eq!(plan.batch.unwrap().len(), 2);
    assert!(d.logger.events.is_empty());
    assert!(d.logger.is_shutdown);
    assert_eq!(d.logger.running_jobs, 0);
}

#[test]
fn no_queued_event_carries_private_attributes() {
    let mut d = driver();
    let u = user();
    d.check_gate(&u, "open", 1);
    d.get_feature_gate(&u, "odd", 2);
    d.get_config(&u, "cfg", 3);
    d.get_experiment(&u, "exp", 4);
    let layer = d.get_layer(&u, "layer", 5);
    d.log_layer_parameter_exposure(&layer, "color", &layer.log_data, 6);
    d.log_event(&u, StatsigEvent { event_name: "e".to_string(), value: None, metadata: None }, 7);
    assert_eq!(d.logger.events.len(), 6);
    for e in d.logger.events.iter() {
        assert!(e.user.private_attributes.is_none());
        let text = e.to_json().to_text();
        assert!(!text.contains("secret"));
        assert!(!text.contains("privateAttributes"));
    }
}
