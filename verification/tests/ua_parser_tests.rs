use statsig::json::JsonValue;
use statsig::statsig_user::StatsigUser;
use statsig::ua_parser::{user_agent_field, AgentParser, ParsedAgent, ParsedFamily};

const TABLE: &str = "user_agent_parsers:
  - regex: '(Firefox)/(\\d+)\\.(\\d+)'
  - regex: '(Chrome)/(\\d+)\\.(\\d+)\\.(\\d+)'
os_parsers:
  - regex: '(Windows NT) (\\d+)\\.(\\d+)'
    os_replacement: 'Windows'
  - regex: '(Mac OS X) (\\d+)[_.](\\d+)[_.](\\d+)'
device_parsers:
  - regex: '(iPhone)'
";

const FIREFOX: &str = "Mozilla/5.0 (Windows NT 10.0; Win64; x64; rv:109.0) Gecko/20100101 Firefox/115.0";
const CHROME: &str =
    "Mozilla/5.0 (Macintosh; Intel Mac OS X 10_15_7) AppleWebKit/537.36 Chrome/120.1.2 Safari/537.36";

fn s(text: &str) -> JsonValue {
    JsonValue::String(text.to_string())
}

fn user_with_agent(agent: &str) -> StatsigUser {
    let mut u = StatsigUser::with_user_id("u".to_string());
    u.user_agent = Some(agent.to_string());
    u
}

fn value(parser: &AgentParser, agent: &str, field: &str) -> JsonValue {
    parser.get_value_from_user_agent(&user_with_agent(agent), &Some(field.to_string()))
}

#[test]
fn fields_of_a_parsed_header() {
    let parser = AgentParser::new(false, TABLE.as_bytes());
    assert!(parser.parser.is_some());
    assert!(value(&parser, FIREFOX, "os_name").equals(&s("Windows")));
    assert!(value(&parser, FIREFOX, "osName").equals(&s("Windows")));
    assert!(value(&parser, FIREFOX, "os_version").equals(&s("10.0.0")));
    assert!(value(&parser, FIREFOX, "browser_name").equals(&s("Firefox")));
    assert!(value(&parser, FIREFOX, "browserName").equals(&s("Firefox")));
    assert!(value(&parser, FIREFOX, "browser_version").equals(&s("115.0.0")));
    assert!(value(&parser, CHROME, "browser_version").equals(&s("120.1.2")));
    assert!(value(&parser, CHROME, "osversion").equals(&s("10.15.7")));
    assert!(value(&parser, CHROME, "OS_NAME").equals(&s("Mac OS X")));
    assert!(value(&parser, CHROME, "device").equals(&JsonValue::Null));
}

#[test]
fn a_header_that_nothing_matches_is_other() {
    let parser = AgentParser::new(false, TABLE.as_bytes());
    assert!(value(&parser, "curl/8.0", "browser_name").equals(&s("Other")));
    assert!(value(&parser, "curl/8.0", "os_version").equals(&s("0.0.0")));
}

#[test]
fn null_without_field_header_or_parser() {
    let parser = AgentParser::new(false, TABLE.as_bytes());
    assert!(parser.get_value_from_user_agent(&user_with_agent(FIREFOX), &None).equals(&JsonValue::Null));
    let no_agent = StatsigUser::with_user_id("u".to_string());
    assert!(parser
        .get_value_from_user_agent(&no_agent, &Some("os_name".to_string()))
        .equals(&JsonValue::Null));
    let disabled = AgentParser::new(true, TABLE.as_bytes());
    assert!(disabled.parser.is_none());
    assert!(value(&disabled, FIREFOX, "os_name").equals(&JsonValue::Null));
    let broken = AgentParser::new(false, b"not a table");
    assert!(broken.parser.is_none());
    assert!(value(&broken, FIREFOX, "os_name").equals(&JsonValue::Null));
}

#[test]
fn a_header_of_more_than_a_thousand_characters_is_not_read() {
    let parser = AgentParser::new(false, TABLE.as_bytes());
    let padding = "x".repeat(1000 - FIREFOX.len());
    let exactly = format!("{}{}", FIREFOX, padding);
    assert_eq!(exactly.chars().count(), 1000);
    assert!(value(&parser, &exactly, "os_name").equals(&s("Windows")));
    let longer = format!("{}x", exactly);
    assert!(value(&parser, &longer, "os_name").equals(&JsonValue::Null));
}

#[test]
fn user_agent_field_formats_versions() {
    let parsed = ParsedAgent {
        os: ParsedFamily {
            family: "Android".to_string(),
            major: Some("13".to_string()),
            minor: None,
            patch: None,
        },
        browser: ParsedFamily {
            family: "Chrome Mobile".to_string(),
            major: Some("1".to_string()),
            minor: Some("2".to_string()),
            patch: Some("3".to_string()),
        },
    };
    assert!(user_agent_field(&parsed, "os_name").equals(&s("Android")));
    assert!(user_agent_field(&parsed, "osname").equals(&s("Android")));
    assert!(user_agent_field(&parsed, "os_version").equals(&s("13.0.0")));
    assert!(user_agent_field(&parsed, "osversion").equals(&s("13.0.0")));
    assert!(user_agent_field(&parsed, "browser_name").equals(&s("Chrome Mobile")));
    assert!(user_agent_field(&parsed, "browsername").equals(&s("Chrome Mobile")));
    assert!(user_agent_field(&parsed, "browser_version").equals(&s("1.2.3")));
    assert!(user_agent_field(&parsed, "browserversion").equals(&s("1.2.3")));
    assert!(user_agent_field(&parsed, "os_name ").equals(&JsonValue::Null));
}
