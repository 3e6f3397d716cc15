use sha2::Digest;
use statsig::data_types::{APICondition, APIRule, APISpec};
use statsig::eval_details::{EvalDetails, EvaluationReason};
use statsig::eval_result::EvalResult;
use statsig::json::{JsonMember, JsonValue};
use statsig::specs::Specs;
use statsig::statsig_evaluator::{apply_operator, hash_passes, StatsigEvaluator, MAX_DEPTH};
use statsig::statsig_user::StatsigUser;

fn s(text: &str) -> JsonValue {
    JsonValue::String(text.to_string())
}

fn n(text: &str) -> JsonValue {
    JsonValue::Number(text.to_string())
}

fn list(items: &[&str]) -> JsonValue {
    JsonValue::Array(items.iter().map(|i| s(i)).collect())
}

fn condition(kind: &str, operator: Option<&str>, field: Option<&str>, target: Option<JsonValue>) -> APICondition {
    APICondition {
        condition_type: kind.to_string(),
        target_value: target,
        operator: operator.map(|o| o.to_string()),
        field: field.map(|f| f.to_string()),
        additional_values: None,
        id_type: "userID".to_string(),
    }
}

fn public() -> APICondition {
    condition("public", None, None, None)
}

fn rule(id: &str, pass_percentage: &str, conditions: Vec<APICondition>, return_value: JsonValue) -> APIRule {
    APIRule {
        name: id.to_string(),
        pass_percentage: pass_percentage.to_string(),
        return_value,
        id: id.to_string(),
        salt: None,
        conditions,
        id_type: "userID".to_string(),
        group_name: None,
        config_delegate: None,
        is_experiment_group: None,
    }
}

fn gate(name: &str, enabled: bool, rules: Vec<APIRule>) -> APISpec {
    APISpec {
        name: name.to_string(),
        _type: "feature_gate".to_string(),
        salt: "s".to_string(),
        default_value: JsonValue::Bool(false),
        enabled,
        rules,
        id_type: "userID".to_string(),
        explicit_parameters: None,
        entity: "feature_gate".to_string(),
        has_shared_params: None,
        is_active: None,
    }
}

fn config(name: &str, default_value: JsonValue, rules: Vec<APIRule>) -> APISpec {
    APISpec {
        _type: "dynamic_config".to_string(),
        entity: "dynamic_config".to_string(),
        default_value,
        ..gate(name, true, rules)
    }
}

fn specs(gates: Vec<APISpec>, configs: Vec<APISpec>, layers: Vec<APISpec>) -> Specs {
    Specs { last_sync_time: 7, gates, configs, layers, experiment_to_layer: vec![] }
}

// Codes "--", "US", "*."; [0, 8.0.0.0) unknown, [8.0.0.0, 9.0.0.0) US.
fn ip_table() -> Vec<u8> {
    let mut t: Vec<u8> = Vec::new();
    t.extend_from_slice(b"--US*.");
    t.extend_from_slice(&[243, 0x00, 0x00, 0x08, 0]);
    t.extend_from_slice(&[243, 0x00, 0x00, 0x01, 1]);
    t
}

const UA_TABLE: &str = "user_agent_parsers:
  - regex: '(Firefox)/(\\d+)\\.(\\d+)'
os_parsers:
  - regex: '(Windows NT) (\\d+)\\.(\\d+)'
    os_replacement: 'Windows'
device_parsers:
  - regex: '(iPhone)'
";

fn evaluator() -> StatsigEvaluator {
    StatsigEvaluator::new(&ip_table(), UA_TABLE.as_bytes(), false)
}

fn details(now: u64) -> EvalDetails {
    EvalDetails { reason: EvaluationReason::Network, config_sync_time: 7, init_time: 3, server_time: now }
}

fn user(id: &str) -> StatsigUser {
    StatsigUser::with_user_id(id.to_string())
}

fn check(specs: &Specs, user: &StatsigUser, name: &str) -> EvalResult {
    evaluator().check_gate(specs, user, name, details(1_700_000_000_000))
}

fn one_condition_gate(c: APICondition) -> Specs {
    specs(vec![gate("g", true, vec![rule("r", "100", vec![c], JsonValue::Bool(true))])], vec![], vec![])
}

fn bucket(text: &str) -> u64 {
    let digest = sha2::Sha256::digest(text.as_bytes());
    let mut first = [0u8; 8];
    first.copy_from_slice(&digest[0..8]);
    u64::from_be_bytes(first)
}

fn exposure(r: &EvalResult, i: usize) -> (String, String, String) {
    let e = &r.secondary_exposures.as_ref().expect("exposures")[i];
    (e.gate.clone(), e.gate_value.clone(), e.rule_id.clone())
}

#[test]
fn disabled_gate_does_not_pass() {
    let sp = specs(
        vec![gate("g", false, vec![rule("r", "100", vec![public()], JsonValue::Bool(true))])],
        vec![],
        vec![],
    );
    for id in ["u", "", "someone else"] {
        let r = check(&sp, &user(id), "g");
        assert!(!r.bool_value);
        assert_eq!(r.rule_id, "disabled");
        assert!(r.json_value.as_ref().unwrap().equals(&JsonValue::Bool(false)));
        assert!(!r.unsupported);
    }
}

#[test]
fn public_with_half_rollout_follows_the_hash() {
    let mut r = rule("r", "50.0", vec![public()], JsonValue::Bool(true));
    r.salt = Some("rs".to_string());
    let sp = specs(vec![gate("g", true, vec![r])], vec![], vec![]);
    let expected = bucket("s.rs.u") % 10000 < 5000;
    let result = check(&sp, &user("u"), "g");
    assert_eq!(result.bool_value, expected);
    assert_eq!(result.rule_id, "r");
    let mut passed = 0;
    for i in 0..200 {
        let id = format!("user-{}", i);
        let expected = bucket(&format!("s.rs.{}", id)) % 10000 < 5000;
        let result = check(&sp, &user(&id), "g");
        assert_eq!(result.bool_value, expected, "user {}", id);
        if result.bool_value {
            passed += 1;
        }
    }
    assert!(passed > 50 && passed < 150);
}

#[test]
fn rule_without_salt_uses_its_id_and_missing_unit_is_empty() {
    let sp = specs(
        vec![gate("g", true, vec![rule("rule-id", "50", vec![public()], JsonValue::Bool(true))])],
        vec![],
        vec![],
    );
    let expected = bucket("s.rule-id.u") % 10000 < 5000;
    assert_eq!(check(&sp, &user("u"), "g").bool_value, expected);
    let nobody = StatsigUser::default();
    let expected_empty = bucket("s.rule-id.") % 10000 < 5000;
    assert_eq!(check(&sp, &nobody, "g").bool_value, expected_empty);
}

#[test]
fn hash_passes_compares_the_bucket_with_the_percentage() {
    assert!(hash_passes(4999, "50"));
    assert!(!hash_passes(5000, "50"));
    assert!(hash_passes(20000 + 4999, "50"));
    assert!(!hash_passes(15000 + 4999, "50"));
    assert!(!hash_passes(0, "0"));
    assert!(hash_passes(9999, "100"));
    assert!(hash_passes(3333, "33.34"));
    assert!(hash_passes(3333, "33.331"));
    assert!(!hash_passes(3333, "33.33"));
    assert!(hash_passes(6, "0.07"));
    assert!(!hash_passes(7, "0.07"));
    assert!(!hash_passes(0, "abc"));
    assert!(!hash_passes(0, ""));
    assert!(!hash_passes(0, "-5"));
    assert!(hash_passes(9999, "1e2"));
}

#[test]
fn raising_the_percentage_keeps_who_passed() {
    let percentages = ["0", "0.5", "10", "33.33", "50", "50.0", "75.25", "100"];
    for hash in [0u64, 1, 49, 50, 3332, 3333, 4999, 5000, 7524, 7525, 9999, 12345678] {
        let mut passed_before = false;
        for p in percentages {
            let passes = hash_passes(hash, p);
            assert!(passes || !passed_before, "hash {} fell out at {}", hash, p);
            passed_before = passes;
        }
    }
}

#[test]
fn missing_gate_is_unrecognized() {
    let sp = specs(vec![], vec![], vec![]);
    let r = check(&sp, &user("u"), "nope");
    assert!(!r.bool_value);
    assert_eq!(r.rule_id, "default");
    assert!(r.json_value.is_none());
    assert_eq!(r.evaluation_details.reason, EvaluationReason::Unrecognized);
    assert_eq!(r.evaluation_details.config_sync_time, 7);
    assert_eq!(r.evaluation_details.server_time, 1_700_000_000_000);
}

#[test]
fn evaluation_details_are_those_of_the_rule_set() {
    let sp = one_condition_gate(public());
    let r = check(&sp, &user("u"), "g");
    assert!(r.bool_value);
    assert_eq!(r.evaluation_details, details(1_700_000_000_000));
}

#[test]
fn no_rule_matches_gives_the_default() {
    let c = condition("user_field", Some("any"), Some("email"), Some(list(&["x@y.z"])));
    let sp = specs(
        vec![],
        vec![config("c", s("fallback"), vec![rule("r", "100", vec![c], s("chosen"))])],
        vec![],
    );
    let r = evaluator().get_config(&sp, &user("u"), "c", details(0));
    assert!(!r.bool_value);
    assert_eq!(r.rule_id, "default");
    assert!(r.json_value.as_ref().unwrap().equals(&s("fallback")));
    assert_eq!(r.secondary_exposures.as_ref().unwrap().len(), 0);
    let mut u = user("u");
    u.email = Some("X@Y.Z".to_string());
    let r = evaluator().get_config(&sp, &u, "c", details(0));
    assert!(r.bool_value);
    assert_eq!(r.rule_id, "r");
    assert!(r.json_value.as_ref().unwrap().equals(&s("chosen")));
}

#[test]
fn failing_the_percentage_gives_the_default_under_the_rule_id() {
    let sp = specs(
        vec![],
        vec![config("c", s("fallback"), vec![rule("r", "0", vec![public()], s("chosen"))])],
        vec![],
    );
    let r = evaluator().get_config(&sp, &user("u"), "c", details(0));
    assert!(!r.bool_value);
    assert_eq!(r.rule_id, "r");
    assert!(r.json_value.as_ref().unwrap().equals(&s("fallback")));
}

#[test]
fn group_name_and_experiment_group_come_from_the_passing_rule() {
    let mut r = rule("r", "100", vec![public()], s("v"));
    r.group_name = Some("Test".to_string());
    r.is_experiment_group = Some(true);
    let sp = specs(vec![], vec![config("c", s("d"), vec![r])], vec![]);
    let result = evaluator().get_config(&sp, &user("u"), "c", details(0));
    assert_eq!(result.group_name, Some("Test".to_string()));
    assert!(result.is_experiment_group);
}

#[test]
fn all_conditions_of_a_rule_must_hold() {
    let yes = condition("user_field", Some("eq"), Some("country"), Some(s("NZ")));
    let no = condition("user_field", Some("eq"), Some("locale"), Some(s("fr")));
    let mut u = user("u");
    u.country = Some("NZ".to_string());
    u.locale = Some("en".to_string());
    let both = specs(
        vec![gate("g", true, vec![rule("r", "100", vec![yes, no], JsonValue::Bool(true))])],
        vec![],
        vec![],
    );
    assert!(!check(&both, &u, "g").bool_value);
    u.locale = Some("fr".to_string());
    assert!(check(&both, &u, "g").bool_value);
}

#[test]
fn version_condition_strips_the_pre_release() {
    let c = condition("user_field", Some("version_gte"), Some("appVersion"), Some(s("1.2.3")));
    let sp = one_condition_gate(c);
    let mut u = user("u");
    u.app_version = Some("1.2.3-beta".to_string());
    assert!(check(&sp, &u, "g").bool_value);
    u.app_version = Some("1.2.2".to_string());
    assert!(!check(&sp, &u, "g").bool_value);
}

#[test]
fn nested_gate_negation_and_exposures() {
    let inner = gate("inner", true, vec![rule("inner-rule", "100", vec![public()], JsonValue::Bool(true))]);
    let fail = condition("fail_gate", None, None, Some(s("inner")));
    let outer = gate("outer", true, vec![rule("outer-rule", "100", vec![fail], JsonValue::Bool(true))]);
    let pass = condition("pass_gate", None, None, Some(s("inner")));
    let outer_pass = gate("outer_pass", true, vec![rule("op-rule", "100", vec![pass], JsonValue::Bool(true))]);
    let sp = specs(vec![inner, outer, outer_pass], vec![], vec![]);
    let r = check(&sp, &user("u"), "outer");
    assert!(!r.bool_value);
    assert_eq!(r.rule_id, "default");
    assert_eq!(r.secondary_exposures.as_ref().unwrap().len(), 1);
    assert_eq!(exposure(&r, 0), ("inner".to_string(), "true".to_string(), "inner-rule".to_string()));
    let r = check(&sp, &user("u"), "outer_pass");
    assert!(r.bool_value);
    assert_eq!(r.rule_id, "op-rule");
    assert_eq!(exposure(&r, 0), ("inner".to_string(), "true".to_string(), "inner-rule".to_string()));
}

#[test]
fn nested_gates_put_inner_exposures_first() {
    let a = gate("a", true, vec![rule("ra", "0", vec![public()], JsonValue::Bool(true))]);
    let b = gate(
        "b",
        true,
        vec![rule(
            "rb",
            "100",
            vec![condition("fail_gate", None, None, Some(s("a")))],
            JsonValue::Bool(true),
        )],
    );
    let c = gate(
        "c",
        true,
        vec![rule(
            "rc",
            "100",
            vec![condition("pass_gate", None, None, Some(s("b")))],
            JsonValue::Bool(true),
        )],
    );
    let sp = specs(vec![a, b, c], vec![], vec![]);
    let r = check(&sp, &user("u"), "c");
    assert!(r.bool_value);
    assert_eq!(r.secondary_exposures.as_ref().unwrap().len(), 2);
    assert_eq!(exposure(&r, 0), ("a".to_string(), "false".to_string(), "ra".to_string()));
    assert_eq!(exposure(&r, 1), ("b".to_string(), "true".to_string(), "rb".to_string()));
}

#[test]
fn a_gate_that_refers_to_itself_is_unsupported() {
    let g = gate(
        "loop",
        true,
        vec![rule(
            "r",
            "100",
            vec![condition("pass_gate", None, None, Some(s("loop")))],
            JsonValue::Bool(true),
        )],
    );
    let sp = specs(vec![g], vec![], vec![]);
    let r = check(&sp, &user("u"), "loop");
    assert!(r.unsupported);
    assert!(!r.bool_value);
    assert_eq!(r.rule_id, "unsupported");
    assert_eq!(r.evaluation_details.reason, EvaluationReason::Unsupported);
}

#[test]
fn gates_may_nest_to_the_depth_limit() {
    let depth = MAX_DEPTH as usize;
    let chain = |length: usize| -> Specs {
        let mut gates = vec![gate("g0", true, vec![rule("r0", "100", vec![public()], JsonValue::Bool(true))])];
        for i in 1..=length {
            let c = condition("pass_gate", None, None, Some(s(&format!("g{}", i - 1))));
            gates.push(gate(
                &format!("g{}", i),
                true,
                vec![rule(&format!("r{}", i), "100", vec![c], JsonValue::Bool(true))],
            ));
        }
        specs(gates, vec![], vec![])
    };
    let ok = chain(depth);
    let r = check(&ok, &user("u"), &format!("g{}", depth));
    assert!(r.bool_value && !r.unsupported);
    assert_eq!(r.secondary_exposures.as_ref().unwrap().len(), depth);
    let too_deep = chain(depth + 1);
    let r = check(&too_deep, &user("u"), &format!("g{}", depth + 1));
    assert!(r.unsupported);
}

#[test]
fn unknown_condition_or_operator_is_unsupported() {
    let sp = one_condition_gate(condition("moon_phase", Some("eq"), None, Some(s("full"))));
    let r = check(&sp, &user("u"), "g");
    assert!(r.unsupported);
    assert_eq!(r.rule_id, "unsupported");
    assert!(!r.bool_value);
    let sp = one_condition_gate(condition("user_field", Some("sounds_like"), Some("email"), Some(s("x"))));
    assert!(check(&sp, &user("u"), "g").unsupported);
    let sp = one_condition_gate(condition("user_field", None, Some("email"), Some(s("x"))));
    assert!(check(&sp, &user("u"), "g").unsupported);
}

#[test]
fn condition_types_are_read_in_any_case() {
    let sp = one_condition_gate(condition("PUBLIC", None, None, None));
    assert!(check(&sp, &user("u"), "g").bool_value);
    let sp = one_condition_gate(condition("User_Field", Some("eq"), Some("userID"), Some(s("u"))));
    assert!(check(&sp, &user("u"), "g").bool_value);
}

#[test]
fn ip_based_condition_looks_the_country_up() {
    let c = condition("ip_based", Some("any"), Some("country"), Some(list(&["US"])));
    let sp = one_condition_gate(c);
    let mut u = user("u");
    u.ip = Some("8.8.8.8".to_string());
    assert!(check(&sp, &u, "g").bool_value);
    u.ip = Some("1.1.1.1".to_string());
    assert!(!check(&sp, &u, "g").bool_value);
    u.country = Some("us".to_string());
    assert!(check(&sp, &u, "g").bool_value);
}

#[test]
fn ua_based_condition_parses_the_header() {
    let c = condition("ua_based", Some("any"), Some("os_name"), Some(list(&["windows"])));
    let sp = one_condition_gate(c);
    let mut u = user("u");
    u.user_agent = Some("Mozilla/5.0 (Windows NT 10.0; Win64) Firefox/115.0".to_string());
    assert!(check(&sp, &u, "g").bool_value);
    let v = condition("ua_based", Some("version_gte"), Some("browser_version"), Some(s("100.0")));
    assert!(check(&one_condition_gate(v), &u, "g").bool_value);
    u.user_agent = Some("curl/8".to_string());
    assert!(!check(&sp, &u, "g").bool_value);
}

#[test]
fn environment_field_condition() {
    let c = condition("environment_field", Some("any"), Some("tier"), Some(list(&["staging"])));
    let sp = one_condition_gate(c);
    let mut u = user("u");
    assert!(!check(&sp, &u, "g").bool_value);
    u.statsig_environment = Some(vec![("Tier".to_string(), "Staging".to_string())]);
    assert!(check(&sp, &u, "g").bool_value);
}

#[test]
fn current_time_condition_uses_the_time_of_the_evaluation() {
    let c = condition("current_time", Some("after"), None, Some(n("1000")));
    let sp = one_condition_gate(c);
    assert!(evaluator().check_gate(&sp, &user("u"), "g", details(1001)).bool_value);
    assert!(!evaluator().check_gate(&sp, &user("u"), "g", details(1000)).bool_value);
    let on = condition("current_time", Some("on"), None, Some(s("86400000")));
    let sp = one_condition_gate(on);
    assert!(evaluator().check_gate(&sp, &user("u"), "g", details(86_400_000 + 5)).bool_value);
    assert!(!evaluator().check_gate(&sp, &user("u"), "g", details(5)).bool_value);
}

#[test]
fn user_bucket_condition_hashes_salt_and_unit() {
    let b = bucket("bs.u") % 1000;
    let mut c = condition("user_bucket", Some("lt"), None, Some(n(&(b + 1).to_string())));
    c.additional_values = Some(vec![JsonMember { name: "salt".to_string(), value: s("bs") }]);
    let sp = one_condition_gate(c);
    assert!(check(&sp, &user("u"), "g").bool_value);
    let mut c = condition("user_bucket", Some("lt"), None, Some(n(&b.to_string())));
    c.additional_values = Some(vec![JsonMember { name: "salt".to_string(), value: s("bs") }]);
    assert!(!check(&one_condition_gate(c), &user("u"), "g").bool_value);
    let e = bucket(".u") % 1000;
    let c = condition("user_bucket", Some("eq"), None, Some(n(&e.to_string())));
    assert!(check(&one_condition_gate(c), &user("u"), "g").bool_value);
    assert_eq!(evaluator().get_hash_for_user_bucket(&user("u"), &condition("user_bucket", None, None, None)), e);
}

#[test]
fn unit_id_condition_reads_the_unit() {
    let c = condition("unit_id", Some("any"), None, Some(list(&["u", "v"])));
    let sp = one_condition_gate(c);
    assert!(check(&sp, &user("u"), "g").bool_value);
    assert!(!check(&sp, &user("w"), "g").bool_value);
    let mut c = condition("unit_id", Some("eq"), None, Some(s("st")));
    c.id_type = "stableID".to_string();
    let u = StatsigUser::with_custom_ids(vec![("stableID".to_string(), "st".to_string())]);
    assert!(check(&one_condition_gate(c), &u, "g").bool_value);
}

#[test]
fn apply_operator_knows_each_family() {
    assert_eq!(apply_operator(&n("2"), &n("1"), "gt"), Some(true));
    assert_eq!(apply_operator(&s("x"), &n("1"), "gt"), Some(false));
    assert_eq!(apply_operator(&s("1.2"), &s("1.1"), "version_gt"), Some(true));
    assert_eq!(apply_operator(&s("x"), &s("1.1"), "version_gt"), Some(false));
    assert_eq!(apply_operator(&s("A"), &list(&["a"]), "any"), Some(true));
    assert_eq!(apply_operator(&s("A"), &list(&["a"]), "any_case_sensitive"), Some(false));
    assert_eq!(apply_operator(&s("A"), &list(&["a"]), "none_case_sensitive"), Some(true));
    assert_eq!(apply_operator(&s("abc"), &s("^a.c$"), "str_matches"), Some(true));
    assert_eq!(apply_operator(&s("5"), &s("6"), "before"), Some(true));
    assert_eq!(apply_operator(&s("x"), &s("6"), "before"), Some(false));
    assert_eq!(apply_operator(&s("a"), &s("a"), "eq"), Some(true));
    assert_eq!(apply_operator(&s("a"), &s("b"), "eq"), Some(false));
    assert_eq!(apply_operator(&s("a"), &s("b"), "neq"), Some(true));
    assert_eq!(apply_operator(&n("1"), &s("1"), "eq"), Some(false));
    assert_eq!(apply_operator(&JsonValue::Null, &JsonValue::Null, "eq"), Some(true));
    let ab = JsonValue::Object(vec![
        JsonMember { name: "a".to_string(), value: n("1") },
        JsonMember { name: "b".to_string(), value: n("2") },
    ]);
    let ba = JsonValue::Object(vec![
        JsonMember { name: "b".to_string(), value: n("2") },
        JsonMember { name: "a".to_string(), value: n("1") },
    ]);
    assert_eq!(apply_operator(&ab, &ba, "eq"), Some(true));
    assert_eq!(apply_operator(&ab, &ba, "neq"), Some(false));
    assert_eq!(apply_operator(&s("a"), &s("a"), "EQ"), None);
    assert_eq!(apply_operator(&s("a"), &s("a"), ""), None);
}

#[test]
fn delegation_takes_the_result_of_the_delegate() {
    let mut exp_rule = rule("exp-rule", "100", vec![public()], s("from experiment"));
    exp_rule.group_name = Some("Test".to_string());
    exp_rule.is_experiment_group = Some(true);
    let mut experiment = config("exp", s("exp default"), vec![exp_rule]);
    experiment.entity = "experiment".to_string();
    experiment.explicit_parameters = Some(vec!["color".to_string()]);
    let inner = gate("inner", true, vec![rule("inner-rule", "100", vec![public()], JsonValue::Bool(true))]);
    let mut layer_rule = rule(
        "layer-rule",
        "100",
        vec![condition("pass_gate", None, None, Some(s("inner")))],
        s("from layer"),
    );
    layer_rule.config_delegate = Some("exp".to_string());
    let mut layer = config("layer", s("layer default"), vec![layer_rule]);
    layer.entity = "layer".to_string();
    let sp = specs(vec![inner], vec![experiment], vec![layer]);
    let r = evaluator().get_layer(&sp, &user("u"), "layer", details(0));
    assert!(r.bool_value);
    assert_eq!(r.rule_id, "exp-rule");
    assert!(r.json_value.as_ref().unwrap().equals(&s("from experiment")));
    assert_eq!(r.config_delegate, Some("exp".to_string()));
    assert_eq!(r.explicit_parameters, Some(vec!["color".to_string()]));
    assert_eq!(r.group_name, Some("Test".to_string()));
    assert!(r.is_experiment_group);
    assert_eq!(r.secondary_exposures.as_ref().unwrap().len(), 1);
    assert_eq!(r.undelegated_secondary_exposures.as_ref().unwrap().len(), 1);
}

#[test]
fn delegation_to_a_missing_config_falls_back_to_the_rule() {
    let mut layer_rule = rule("layer-rule", "100", vec![public()], s("from layer"));
    layer_rule.config_delegate = Some("gone".to_string());
    let mut layer = config("layer", s("layer default"), vec![layer_rule]);
    layer.entity = "layer".to_string();
    let sp = specs(vec![], vec![], vec![layer]);
    let r = evaluator().get_layer(&sp, &user("u"), "layer", details(0));
    assert!(r.bool_value);
    assert_eq!(r.rule_id, "layer-rule");
    assert!(r.json_value.as_ref().unwrap().equals(&s("from layer")));
    assert!(r.config_delegate.is_none());
}

#[test]
fn evaluation_is_the_same_on_every_call() {
    let c = condition("user_field", Some("str_contains_any"), Some("email"), Some(list(&["@example.com"])));
    let mut r = rule("r", "50", vec![c, condition("pass_gate", None, None, Some(s("inner")))], s("v"));
    r.group_name = Some("G".to_string());
    let inner = gate("inner", true, vec![rule("ir", "70", vec![public()], JsonValue::Bool(true))]);
    let sp = specs(vec![inner], vec![config("c", s("d"), vec![r])], vec![]);
    for i in 0..20 {
        let mut u = user(&format!("user-{}", i));
        u.email = Some("someone@example.com".to_string());
        let a = evaluator().get_config(&sp, &u, "c", details(5));
        let b = evaluator().get_config(&sp, &u, "c", details(5));
        assert_eq!(a.bool_value, b.bool_value);
        assert_eq!(a.rule_id, b.rule_id);
        assert_eq!(a.group_name, b.group_name);
        assert_eq!(a.unsupported, b.unsupported);
        assert_eq!(a.evaluation_details, b.evaluation_details);
        assert!(a.json_value.as_ref().unwrap().equals(b.json_value.as_ref().unwrap()));
        assert_eq!(exposure(&a, 0), exposure(&b, 0));
    }
}

#[test]
fn a_later_spec_of_the_same_name_counts() {
    let first = gate("g", true, vec![rule("first", "100", vec![public()], JsonValue::Bool(true))]);
    let second = gate("g", true, vec![rule("second", "100", vec![public()], JsonValue::Bool(true))]);
    let sp = specs(vec![first, second], vec![], vec![]);
    assert_eq!(check(&sp, &user("u"), "g").rule_id, "second");
}
