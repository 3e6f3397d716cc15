//! The requests that are made of the remote service, and what is made of
//! the status of an answer. The requests are built here; sending them is
//! left to the owner.

use crate::data_types::{
    APIDownloadedConfigsNoUpdates, APIDownloadedConfigsResponse, APIDownloadedConfigsWithUpdates,
};
use crate::decimal::{digits_of, natural_of, parse_u64, u64_digits};
use crate::json::{json_object, new_members, set_member, with_member, JsonValue, JsonView};
use crate::statsig_options::StatsigOptions;
use crate::text::{chars_of, occurs_at, string_of, text_is, text_starts_with};
use vstd::prelude::*;
use vstd::string::StringExecFns;

verus! {

/// The origin from which rule sets are fetched with GET.
pub const CDN_URL: &'static str = "https://api.statsigcdn.com/v1";

/// The header that carries the secret.
pub const API_KEY_HEADER: &'static str = "STATSIG-API-KEY";

pub struct StatsigNetwork {
    pub secret: String,
    pub base_api: String,
    pub dcs_api: String,
    pub sdk_version: String,
}

#[derive(Debug, Clone, Copy, PartialEq, Eq, Structural)]
pub enum HttpMethod {
    Get,
    Post,
}

/// A request to send: the method, the address, the secret for the header
/// `STATSIG-API-KEY`, and the body of a POST.
pub struct NetworkRequest {
    pub method: HttpMethod,
    pub url: String,
    pub api_key: String,
    pub body: Option<JsonValue>,
}

/// The address of an endpoint: under the origin for rule sets where the
/// endpoint begins with `download_config_specs`, else under the base
/// origin; with one slash between the two.
pub open spec fn api_url(network: StatsigNetwork, endpoint: Seq<char>) -> Seq<char> {
    let api = if occurs_at(endpoint, "download_config_specs"@, 0) {
        network.dcs_api@
    } else {
        network.base_api@
    };
    if api.len() > 0 && api.last() == '/' {
        api + endpoint
    } else {
        api + "/"@ + endpoint
    }
}

/// What every body says of the SDK.
pub open spec fn metadata_view(network: StatsigNetwork) -> JsonView {
    JsonView::Object(
        with_member(
            with_member(Seq::empty(), "sdkType"@, JsonView::String("rust-server"@)),
            "sdkVersion"@,
            JsonView::String(network.sdk_version@),
        ),
    )
}

/// The endpoint of the GET for rule sets.
pub open spec fn cdn_endpoint(network: StatsigNetwork, since_time: u64) -> Seq<char> {
    "download_config_specs/"@ + network.secret@ + ".json?sinceTime="@ + digits_of(
        since_time as nat,
    )
}

/// The body of the POST for rule sets.
pub open spec fn download_body(network: StatsigNetwork, since_time: u64) -> JsonView {
    JsonView::Object(
        with_member(
            with_member(
                Seq::empty(),
                "sinceTime"@,
                JsonView::Number(digits_of(since_time as nat)),
            ),
            "statsigMetadata"@,
            metadata_view(network),
        ),
    )
}

/// The body of the POST for events.
pub open spec fn events_body(network: StatsigNetwork, events: JsonView) -> JsonView {
    JsonView::Object(
        with_member(
            with_member(Seq::empty(), "events"@, events),
            "statsigMetadata"@,
            metadata_view(network),
        ),
    )
}

impl StatsigNetwork {
    pub fn new(secret_key: &str, options: &StatsigOptions, sdk_version: &str) -> (r: Self)
        ensures
            r.secret@ == secret_key@,
            r.base_api@ == options.api_override@,
            r.dcs_api@ == options.api_for_download_config_specs@,
            r.sdk_version@ == sdk_version@,
    {
        StatsigNetwork {
            secret: secret_key.to_owned(),
            base_api: options.api_override.clone(),
            dcs_api: options.api_for_download_config_specs.clone(),
            sdk_version: sdk_version.to_owned(),
        }
    }

    /// What every body says of the SDK.
    pub fn statsig_metadata(&self) -> (r: JsonValue)
        ensures
            r@ == metadata_view(*self),
    {
        let mut m = new_members();
        set_member(&mut m, "sdkType", JsonValue::String("rust-server".to_owned()));
        set_member(&mut m, "sdkVersion", JsonValue::String(self.sdk_version.clone()));
        json_object(m)
    }

    /// The address of an endpoint.
    pub fn get_api_url(&self, endpoint: &str) -> (r: String)
        ensures
            r@ == api_url(*self, endpoint@),
    {
        let for_specs = text_starts_with(&chars_of(endpoint), &chars_of("download_config_specs"));
        let mut api = if for_specs {
            self.dcs_api.clone()
        } else {
            self.base_api.clone()
        };
        let chars = chars_of(api.as_str());
        let ends_with_slash = chars.len() > 0 && chars[chars.len() - 1] == '/';
        if !ends_with_slash {
            api.append("/");
        }
        api.append(endpoint);
        api
    }

    /// The request for the rule set as it has changed since `since_time`: a
    /// GET where the origin for rule sets is the CDN, else a POST.
    pub fn download_config_specs(&self, since_time: u64) -> (r: NetworkRequest)
        ensures
            r.api_key@ == self.secret@,
            self.dcs_api@ == CDN_URL@ ==> {
                &&& r.method == HttpMethod::Get
                &&& r.url@ == api_url(*self, cdn_endpoint(*self, since_time))
                &&& r.body is None
            },
            self.dcs_api@ != CDN_URL@ ==> {
                &&& r.method == HttpMethod::Post
                &&& r.url@ == api_url(*self, "download_config_specs"@)
                &&& r.body is Some
                &&& r.body->0@ == download_body(*self, since_time)
            },
    {
        if text_is(self.dcs_api.as_str(), CDN_URL) {
            let mut endpoint = "download_config_specs/".to_owned();
            endpoint.append(self.secret.as_str());
            endpoint.append(".json?sinceTime=");
            endpoint.append(string_of(&u64_digits(since_time)).as_str());
            NetworkRequest {
                method: HttpMethod::Get,
                url: self.get_api_url(endpoint.as_str()),
                api_key: self.secret.clone(),
                body: None,
            }
        } else {
            let mut body = new_members();
            set_member(
                &mut body,
                "sinceTime",
                JsonValue::Number(string_of(&u64_digits(since_time))),
            );
            set_member(&mut body, "statsigMetadata", self.statsig_metadata());
            NetworkRequest {
                method: HttpMethod::Post,
                url: self.get_api_url("download_config_specs"),
                api_key: self.secret.clone(),
                body: Some(json_object(body)),
            }
        }
    }

    /// The request that sends a batch of events, given as a JSON array.
    pub fn send_events(&self, events: JsonValue) -> (r: NetworkRequest)
        ensures
            r.method == HttpMethod::Post,
            r.url@ == api_url(*self, "log_event"@),
            r.api_key@ == self.secret@,
            r.body is Some,
            r.body->0@ == events_body(*self, events@),
    {
        let mut body = new_members();
        set_member(&mut body, "events", events);
        set_member(&mut body, "statsigMetadata", self.statsig_metadata());
        NetworkRequest {
            method: HttpMethod::Post,
            url: self.get_api_url("log_event"),
            api_key: self.secret.clone(),
            body: Some(json_object(body)),
        }
    }

    /// Whether an answer with this status is read at all: one above 299 is
    /// not.
    pub fn accepts_status(status: u16) -> (r: bool)
        ensures
            r == (status <= 299),
    {
        status <= 299
    }
}


/// What an answer to the request for rule sets comes to: nothing where its
/// status is above 299; else the rule set where it holds one; else the
/// word that nothing has changed where it says so; else nothing.
pub open spec fn answer_read(
    status: u16,
    with_updates: Option<APIDownloadedConfigsWithUpdates>,
    has_updates: Option<bool>,
) -> Option<APIDownloadedConfigsResponse> {
    if status > 299 {
        None
    } else {
        match with_updates {
            Some(d) => Some(APIDownloadedConfigsResponse::WithUpdates(d)),
            None => if has_updates == Some(false) {
                Some(
                    APIDownloadedConfigsResponse::NoUpdates(
                        APIDownloadedConfigsNoUpdates { has_updates: false },
                    ),
                )
            } else {
                None
            },
        }
    }
}

/// Reads an answer to the request for rule sets, given its status, the rule
/// set that its body holds, if it holds one, and what the body says under
/// `has_updates`, if anything.
pub fn read_answer(
    status: u16,
    with_updates: Option<APIDownloadedConfigsWithUpdates>,
    has_updates: Option<bool>,
) -> (r: Option<APIDownloadedConfigsResponse>)
    ensures
        r == answer_read(status, with_updates, has_updates),
{
    if !StatsigNetwork::accepts_status(status) {
        return None;
    }
    match with_updates {
        Some(d) => Some(APIDownloadedConfigsResponse::WithUpdates(d)),
        None => match has_updates {
            Some(false) => Some(
                APIDownloadedConfigsResponse::NoUpdates(
                    APIDownloadedConfigsNoUpdates { has_updates: false },
                ),
            ),
            _ => None,
        },
    }
}

/// The time of a rule set, given as the text of a number or as a decimal
/// string: the milliseconds that it spells, where they fit in 64 bits.
pub fn time_from_text(text: &str) -> (r: Option<u64>)
    ensures
        r == match natural_of(text@) {
            Some(v) => if v <= u64::MAX {
                Some(v as u64)
            } else {
                None
            },
            None => None,
        },
{
    parse_u64(&chars_of(text))
}

} // verus!
