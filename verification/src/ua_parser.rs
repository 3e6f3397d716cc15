//! What a User-Agent header says of the operating system and the browser.

use crate::json::{JsonValue, JsonView};
use crate::statsig_user::{StatsigUser, UserView};
use crate::text::{lowercase, opt_view, text_is, to_lowercase};
use vstd::prelude::*;
use vstd::string::{StrSliceExecFns, StringExecFns};

verus! {

#[verifier::external_type_specification]
#[verifier::external_body]
pub struct ExUserAgentParser(uaparser::UserAgentParser);

/// A family with the three parts of its version.
pub struct ParsedFamily {
    pub family: String,
    pub major: Option<String>,
    pub minor: Option<String>,
    pub patch: Option<String>,
}

pub struct FamilyView {
    pub family: Seq<char>,
    pub major: Option<Seq<char>>,
    pub minor: Option<Seq<char>>,
    pub patch: Option<Seq<char>>,
}

impl View for ParsedFamily {
    type V = FamilyView;

    open spec fn view(&self) -> FamilyView {
        FamilyView {
            family: self.family@,
            major: opt_view(self.major),
            minor: opt_view(self.minor),
            patch: opt_view(self.patch),
        }
    }
}

/// What a parser found in a User-Agent header.
pub struct ParsedAgent {
    pub os: ParsedFamily,
    pub browser: ParsedFamily,
}

pub struct AgentView {
    pub os: FamilyView,
    pub browser: FamilyView,
}

impl View for ParsedAgent {
    type V = AgentView;

    open spec fn view(&self) -> AgentView {
        AgentView { os: self.os@, browser: self.browser@ }
    }
}

/// The bytes of the table of regular expressions that a parser was made
/// from.
pub uninterp spec fn regex_table(parser: uaparser::UserAgentParser) -> Seq<u8>;

/// What a parser made from `table` finds in a User-Agent header.
pub uninterp spec fn parsed_agent(table: Seq<u8>, user_agent: Seq<char>) -> AgentView;

/// Whether `uaparser` makes a parser from a table of regular expressions
/// in YAML: whether the table reads as one and each of its expressions
/// compiles.
pub uninterp spec fn table_loads(table: Seq<u8>) -> bool;

/// `uaparser::UserAgentParser::from_bytes`: a parser made from a table of
/// regular expressions in YAML, or `None` for a table that it does not
/// accept. Which tables it accepts is left to `uaparser`; it depends on the
/// bytes of the table alone.
#[verifier::external_body]
fn load_parser(table: &[u8]) -> (r: Option<uaparser::UserAgentParser>)
    ensures
        r is Some == table_loads(table@),
        r is Some ==> regex_table(r->0) == table@,
{
    uaparser::UserAgentParser::from_bytes(table).ok()
}

/// `uaparser::Parser::parse`: the operating system and the browser that
/// the parser's table finds in the header, each part copied into a string.
#[verifier::external_body]
fn parse_agent(parser: &uaparser::UserAgentParser, user_agent: &str) -> (r: ParsedAgent)
    ensures
        r@ == parsed_agent(regex_table(*parser), user_agent@),
{
    let c = uaparser::Parser::parse(parser, user_agent);
    let (o, b) = (c.os, c.user_agent);
    let own = |x: Option<std::borrow::Cow<str>>| x.map(|v| v.into_owned());
    let os = ParsedFamily {
        family: o.family.into_owned(),
        major: own(o.major),
        minor: own(o.minor),
        patch: own(o.patch),
    };
    let family = b.family.into_owned();
    let browser = ParsedFamily { family, major: own(b.major), minor: own(b.minor), patch: own(b.patch) };
    ParsedAgent { os, browser }
}

/// A part of a version, or `0` where it is missing.
pub open spec fn part_or_zero(part: Option<Seq<char>>) -> Seq<char> {
    match part {
        Some(p) => p,
        None => "0"@,
    }
}

/// The three parts of a version with points between them.
pub open spec fn version_text(f: FamilyView) -> Seq<char> {
    part_or_zero(f.major) + "."@ + part_or_zero(f.minor) + "."@ + part_or_zero(f.patch)
}

/// The value of a field of what was found, the field named in lower case.
pub open spec fn agent_field(agent: AgentView, lowered: Seq<char>) -> JsonView {
    if lowered == "os_name"@ || lowered == "osname"@ {
        JsonView::String(agent.os.family)
    } else if lowered == "os_version"@ || lowered == "osversion"@ {
        JsonView::String(version_text(agent.os))
    } else if lowered == "browser_name"@ || lowered == "browsername"@ {
        JsonView::String(agent.browser.family)
    } else if lowered == "browser_version"@ || lowered == "browserversion"@ {
        JsonView::String(version_text(agent.browser))
    } else {
        JsonView::Null
    }
}

pub const MAX_USER_AGENT_LENGTH: usize = 1000;

pub struct AgentParser {
    pub parser: Option<uaparser::UserAgentParser>,
}

impl AgentParser {
    /// The table that the parser was made from, if there is a parser.
    pub open spec fn table(&self) -> Option<Seq<u8>> {
        match self.parser {
            Some(p) => Some(regex_table(p)),
            None => None,
        }
    }
}

/// The value that a parser made from a table gives for a field of the
/// user's User-Agent header: null where no field is named, the user has no
/// header or one of more than 1000 characters, or there is no parser.
pub open spec fn agent_value(table: Option<Seq<u8>>, user: UserView, field: Option<Seq<char>>) -> JsonView {
    match (field, user.user_agent, table) {
        (Some(f), Some(ua), Some(t)) => if ua.len() > 1000 {
            JsonView::Null
        } else {
            agent_field(parsed_agent(t, ua), lowercase(f))
        },
        _ => JsonView::Null,
    }
}

fn part_text(part: &Option<String>) -> (r: String)
    ensures
        r@ == part_or_zero(opt_view(*part)),
{
    match part {
        Some(p) => p.clone(),
        None => "0".to_owned(),
    }
}

fn get_version_string(f: &ParsedFamily) -> (r: JsonValue)
    ensures
        r@ == JsonView::String(version_text(f@)),
{
    let mut out = part_text(&f.major);
    out.append(".");
    out.append(part_text(&f.minor).as_str());
    out.append(".");
    out.append(part_text(&f.patch).as_str());
    JsonValue::String(out)
}

/// The value of a field of what was found in a header.
pub fn user_agent_field(parsed: &ParsedAgent, field_lowered: &str) -> (r: JsonValue)
    ensures
        r@ == agent_field(parsed@, field_lowered@),
{
    let l = field_lowered;
    if text_is(l, "os_name") || text_is(l, "osname") {
        JsonValue::String(parsed.os.family.clone())
    } else if text_is(l, "os_version") || text_is(l, "osversion") {
        get_version_string(&parsed.os)
    } else if text_is(l, "browser_name") || text_is(l, "browsername") {
        JsonValue::String(parsed.browser.family.clone())
    } else if text_is(l, "browser_version") || text_is(l, "browserversion") {
        get_version_string(&parsed.browser)
    } else {
        JsonValue::Null
    }
}

impl AgentParser {
    /// A parser made from a table of regular expressions; one that finds
    /// nothing where `disabled` holds or the table cannot be read.
    pub fn new(disabled: bool, table: &[u8]) -> (r: Self)
        ensures
            r.table() == if !disabled && table_loads(table@) {
                Some(table@)
            } else {
                None
            },
    {
        if disabled {
            AgentParser { parser: None }
        } else {
            AgentParser { parser: load_parser(table) }
        }
    }

    /// The value of a field of the user's User-Agent header.
    pub fn get_value_from_user_agent(&self, user: &StatsigUser, field: &Option<String>) -> (r:
        JsonValue)
        ensures
            r@ == agent_value(self.table(), user@, opt_view(*field)),
    {
        let field_lowered = match field {
            Some(f) => to_lowercase(f.as_str()),
            None => {
                return JsonValue::Null;
            },
        };
        let user_agent = match &user.user_agent {
            Some(ua) => ua,
            None => {
                return JsonValue::Null;
            },
        };
        if user_agent.as_str().unicode_len() > MAX_USER_AGENT_LENGTH {
            return JsonValue::Null;
        }
        let parser = match &self.parser {
            Some(p) => p,
            None => {
                return JsonValue::Null;
            },
        };
        let parsed = parse_agent(parser, user_agent.as_str());
        user_agent_field(&parsed, field_lowered.as_str())
    }
}

} // verus!
