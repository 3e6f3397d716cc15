use statsig::json::{JsonMember, JsonValue};
use statsig::statsig_user::StatsigUser;

fn s(text: &str) -> JsonValue {
    JsonValue::String(text.to_string())
}

fn member(name: &str, value: JsonValue) -> JsonMember {
    JsonMember { name: name.to_string(), value }
}

fn pair(k: &str, v: &str) -> (String, String) {
    (k.to_string(), v.to_string())
}

fn field(name: &str) -> Option<String> {
    Some(name.to_string())
}

fn full_user() -> StatsigUser {
    let mut u = StatsigUser::with_user_id("user-1".to_string());
    u.email = Some("a@b.c".to_string());
    u.ip = Some("8.8.8.8".to_string());
    u.user_agent = Some("agent".to_string());
    u.country = Some("NZ".to_string());
    u.locale = Some("en_NZ".to_string());
    u.app_version = Some("1.2.3".to_string());
    u.custom = Some(vec![member("Level", JsonValue::Number("5".to_string())), member("plan", s("pro"))]);
    u.private_attributes = Some(vec![member("secret", s("x")), member("plan", s("hidden"))]);
    u.custom_ids = Some(vec![pair("stableID", "st-1"), pair("companyid", "co-1")]);
    u.statsig_environment = Some(vec![pair("Tier", "staging")]);
    u
}

#[test]
fn with_user_id_sets_only_the_user_id() {
    let u = StatsigUser::with_user_id("abc".to_string());
    assert_eq!(u.user_id, Some("abc".to_string()));
    assert!(u.email.is_none() && u.ip.is_none() && u.custom.is_none() && u.custom_ids.is_none());
    assert!(u.private_attributes.is_none() && u.statsig_environment.is_none());
}

#[test]
fn with_custom_ids_sets_only_the_custom_ids() {
    let u = StatsigUser::with_custom_ids(vec![pair("stableID", "x")]);
    assert_eq!(u.custom_ids, Some(vec![pair("stableID", "x")]));
    assert!(u.user_id.is_none());
}

#[test]
fn get_unit_id_for_user_id_in_any_case() {
    let u = full_user();
    assert_eq!(u.get_unit_id(&"userID".to_string()), Some("user-1".to_string()));
    assert_eq!(u.get_unit_id(&"userid".to_string()), Some("user-1".to_string()));
    assert_eq!(u.get_unit_id(&"USERID".to_string()), Some("user-1".to_string()));
    assert_eq!(StatsigUser::default().get_unit_id(&"userID".to_string()), None);
}

#[test]
fn get_unit_id_for_custom_ids() {
    let u = full_user();
    assert_eq!(u.get_unit_id(&"stableID".to_string()), Some("st-1".to_string()));
    assert_eq!(u.get_unit_id(&"companyID".to_string()), Some("co-1".to_string()));
    assert_eq!(u.get_unit_id(&"stableid".to_string()), None);
    assert_eq!(u.get_unit_id(&"other".to_string()), None);
    assert_eq!(StatsigUser::with_user_id("u".to_string()).get_unit_id(&"stableID".to_string()), None);
}

#[test]
fn get_user_value_reads_the_string_fields() {
    let u = full_user();
    assert!(u.get_user_value(&field("userID")).equals(&s("user-1")));
    assert!(u.get_user_value(&field("EMAIL")).equals(&s("a@b.c")));
    assert!(u.get_user_value(&field("ip")).equals(&s("8.8.8.8")));
    assert!(u.get_user_value(&field("userAgent")).equals(&s("agent")));
    assert!(u.get_user_value(&field("Country")).equals(&s("NZ")));
    assert!(u.get_user_value(&field("locale")).equals(&s("en_NZ")));
    assert!(u.get_user_value(&field("appVersion")).equals(&s("1.2.3")));
}

#[test]
fn get_user_value_knows_seven_names_only() {
    let u = full_user();
    assert!(u.get_user_value(&field("user_id")).equals(&JsonValue::Null));
    assert!(u.get_user_value(&field("user_agent")).equals(&JsonValue::Null));
    assert!(u.get_user_value(&field("app_version")).equals(&JsonValue::Null));
    let mut v = full_user();
    v.custom = Some(vec![member("user_id", s("from custom"))]);
    assert!(v.get_user_value(&field("user_id")).equals(&s("from custom")));
    assert!(v.get_user_value(&field("USER_ID")).equals(&s("from custom")));
}

#[test]
fn get_user_value_falls_back_to_custom_then_private() {
    let u = full_user();
    assert!(u.get_user_value(&field("Level")).equals(&JsonValue::Number("5".to_string())));
    assert!(u.get_user_value(&field("PLAN")).equals(&s("pro")));
    assert!(u.get_user_value(&field("plan")).equals(&s("pro")));
    assert!(u.get_user_value(&field("secret")).equals(&s("x")));
    assert!(u.get_user_value(&field("SECRET")).equals(&s("x")));
    assert!(u.get_user_value(&field("level")).equals(&JsonValue::Null));
    assert!(u.get_user_value(&field("missing")).equals(&JsonValue::Null));
    assert!(u.get_user_value(&None).equals(&JsonValue::Null));
    let mut v = StatsigUser::default();
    v.custom = Some(vec![member("email", s("custom@x"))]);
    assert!(v.get_user_value(&field("email")).equals(&s("custom@x")));
}

#[test]
fn get_value_from_environment_ignores_case() {
    let u = full_user();
    assert!(u.get_value_from_environment(&field("tier")).equals(&s("staging")));
    assert!(u.get_value_from_environment(&field("TIER")).equals(&s("staging")));
    assert!(u.get_value_from_environment(&field("other")).equals(&JsonValue::Null));
    assert!(u.get_value_from_environment(&None).equals(&JsonValue::Null));
    assert!(StatsigUser::default().get_value_from_environment(&field("tier")).equals(&JsonValue::Null));
}

#[test]
fn duplicate_copies_every_field() {
    let u = full_user();
    let d = u.duplicate();
    assert_eq!(d.user_id, u.user_id);
    assert_eq!(d.email, u.email);
    assert_eq!(d.custom_ids, u.custom_ids);
    assert_eq!(d.statsig_environment, u.statsig_environment);
    assert!(d.get_user_value(&field("plan")).equals(&s("pro")));
    assert!(d.get_user_value(&field("secret")).equals(&s("x")));
}
