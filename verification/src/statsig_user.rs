//! The user that a check is made for, and how conditions read it.

use crate::json::{
    duplicate_members, find_member, named_value, opt_members_view, JsonMember, JsonValue, JsonView,
    MemberView,
};
use crate::text::{
    copy_opt, find_entry, lowercase, opt_pairs_view, opt_view, pair_value, pairs_view, text_is,
    to_lowercase,
};
use vstd::prelude::*;

verus! {

pub struct StatsigUser {
    pub user_id: Option<String>,
    pub email: Option<String>,
    pub ip: Option<String>,
    pub user_agent: Option<String>,
    pub country: Option<String>,
    pub locale: Option<String>,
    pub app_version: Option<String>,
    pub custom: Option<Vec<JsonMember>>,
    pub private_attributes: Option<Vec<JsonMember>>,
    pub custom_ids: Option<Vec<(String, String)>>,
    pub statsig_environment: Option<Vec<(String, String)>>,
}

/// What a user holds.
pub struct UserView {
    pub user_id: Option<Seq<char>>,
    pub email: Option<Seq<char>>,
    pub ip: Option<Seq<char>>,
    pub user_agent: Option<Seq<char>>,
    pub country: Option<Seq<char>>,
    pub locale: Option<Seq<char>>,
    pub app_version: Option<Seq<char>>,
    pub custom: Option<Seq<MemberView>>,
    pub private_attributes: Option<Seq<MemberView>>,
    pub custom_ids: Option<Seq<(Seq<char>, Seq<char>)>>,
    pub statsig_environment: Option<Seq<(Seq<char>, Seq<char>)>>,
}

impl View for StatsigUser {
    type V = UserView;

    open spec fn view(&self) -> UserView {
        UserView {
            user_id: opt_view(self.user_id),
            email: opt_view(self.email),
            ip: opt_view(self.ip),
            user_agent: opt_view(self.user_agent),
            country: opt_view(self.country),
            locale: opt_view(self.locale),
            app_version: opt_view(self.app_version),
            custom: opt_members_view(self.custom),
            private_attributes: opt_members_view(self.private_attributes),
            custom_ids: opt_pairs_view(self.custom_ids),
            statsig_environment: opt_pairs_view(self.statsig_environment),
        }
    }
}

/// The unit that a user is counted by under an id type: the user id for
/// `userID` in any case of its letters, else the custom id of that type,
/// looked up as written and then in lower case.
pub open spec fn unit_id(user: UserView, id_type: Seq<char>) -> Option<Seq<char>> {
    if lowercase(id_type) == "userid"@ {
        user.user_id
    } else {
        match user.custom_ids {
            None => None,
            Some(ids) => match pair_value(ids, id_type) {
                Some(v) => Some(v),
                None => pair_value(ids, lowercase(id_type)),
            },
        }
    }
}

/// The string field of the user that a name in lower case stands for: one
/// of `userid`, `email`, `ip`, `useragent`, `country`, `locale` and
/// `appversion`.
pub open spec fn top_level_field(user: UserView, lowered: Seq<char>) -> Option<Seq<char>> {
    if lowered == "userid"@ {
        user.user_id
    } else if lowered == "email"@ {
        user.email
    } else if lowered == "ip"@ {
        user.ip
    } else if lowered == "useragent"@ {
        user.user_agent
    } else if lowered == "country"@ {
        user.country
    } else if lowered == "locale"@ {
        user.locale
    } else if lowered == "appversion"@ {
        user.app_version
    } else {
        None
    }
}

/// The value that a list of members gives for a field: looked up as
/// written, then in lower case.
pub open spec fn attribute(members: Option<Seq<MemberView>>, field: Seq<char>) -> Option<JsonView> {
    match members {
        None => None,
        Some(m) => match named_value(m, field) {
            Some(v) => Some(v),
            None => named_value(m, lowercase(field)),
        },
    }
}

/// The value of a field of the user: a string field named in any case of
/// its letters, else a custom value, else a private attribute, else null.
pub open spec fn user_value(user: UserView, field: Option<Seq<char>>) -> JsonView {
    match field {
        None => JsonView::Null,
        Some(f) => match top_level_field(user, lowercase(f)) {
            Some(s) => JsonView::String(s),
            None => match attribute(user.custom, f) {
                Some(v) => v,
                None => match attribute(user.private_attributes, f) {
                    Some(v) => v,
                    None => JsonView::Null,
                },
            },
        },
    }
}

/// The index of the first pair whose key is `lowered` once in lower case,
/// or the length of the list.
pub open spec fn environment_index(s: Seq<(Seq<char>, Seq<char>)>, lowered: Seq<char>) -> int
    decreases s.len(),
{
    if s.len() == 0 {
        0
    } else if lowercase(s[0].0) == lowered {
        0
    } else {
        1 + environment_index(s.drop_first(), lowered)
    }
}

/// The index lies within the list or at its end; the entry at it, if any,
/// is a match, and none before it is.
pub proof fn lemma_environment_index(s: Seq<(Seq<char>, Seq<char>)>, lowered: Seq<char>)
    ensures
        0 <= environment_index(s, lowered) <= s.len(),
        environment_index(s, lowered) < s.len() ==> lowercase(s[environment_index(s, lowered)].0) == lowered,
        forall|k: int| 0 <= k < environment_index(s, lowered) ==> !(lowercase((#[trigger] s[k]).0) == lowered),
    decreases s.len(),
{
    if s.len() > 0 && !(lowercase(s[0].0) == lowered) {
        let t = s.drop_first();
        lemma_environment_index(t, lowered);
        let n = environment_index(t, lowered);
        assert forall|k: int| 0 <= k < 1 + n implies !(lowercase((#[trigger] s[k]).0) == lowered) by {
            if k > 0 {
                assert(t[k - 1] == s[k]);
            }
        }
        if n < t.len() {
            assert(t[n] == s[n + 1]);
        }
    }
}

/// An index before which no entry is a match, and at which one is or the
/// list ends, is the index of the first match.
pub proof fn lemma_environment_index_is(s: Seq<(Seq<char>, Seq<char>)>, lowered: Seq<char>, i: int)
    requires
        0 <= i <= s.len(),
        forall|k: int| 0 <= k < i ==> !(lowercase((#[trigger] s[k]).0) == lowered),
        i < s.len() ==> lowercase(s[i].0) == lowered,
    ensures
        environment_index(s, lowered) == i,
{
    lemma_environment_index(s, lowered);
}

/// The value of the environment for a field, its name taken in any case of
/// its letters; null where there is none.
pub open spec fn environment_value(user: UserView, field: Option<Seq<char>>) -> JsonView {
    match (field, user.statsig_environment) {
        (Some(f), Some(env)) => {
            let i = environment_index(env, lowercase(f));
            if i < env.len() {
                JsonView::String(env[i].1)
            } else {
                JsonView::Null
            }
        },
        _ => JsonView::Null,
    }
}

fn find_attribute<'a>(members: &'a Option<Vec<JsonMember>>, field: &str) -> (r: Option<
    &'a JsonValue,
>)
    ensures
        r is Some == attribute(opt_members_view(*members), field@) is Some,
        r is Some ==> r->0@ == attribute(opt_members_view(*members), field@)->0,
{
    match members {
        None => None,
        Some(m) => {
            match find_member(m, field) {
                Some(i) => Some(&m[i].value),
                None => {
                    let lowered = to_lowercase(field);
                    match find_member(m, lowered.as_str()) {
                        Some(i) => Some(&m[i].value),
                        None => None,
                    }
                },
            }
        },
    }
}

/// A copy of a list of pairs of strings.
pub fn copy_pairs(pairs: &Vec<(String, String)>) -> (r: Vec<(String, String)>)
    ensures
        pairs_view(r@) == pairs_view(pairs@),
{
    let mut out: Vec<(String, String)> = Vec::new();
    let mut i: usize = 0;
    while i < pairs.len()
        invariant
            i <= pairs.len(),
            out.len() == i,
            forall|k: int| 0 <= k < i ==> out@[k] == pairs@[k],
        decreases pairs.len() - i,
    {
        out.push((pairs[i].0.clone(), pairs[i].1.clone()));
        i += 1;
    }
    assert(pairs_view(out@) =~= pairs_view(pairs@));
    out
}

/// A copy of an optional list of pairs of strings.
pub fn copy_opt_pairs(pairs: &Option<Vec<(String, String)>>) -> (r: Option<Vec<(String, String)>>)
    ensures
        opt_pairs_view(r) == opt_pairs_view(*pairs),
{
    match pairs {
        Some(p) => Some(copy_pairs(p)),
        None => None,
    }
}

/// A copy of an optional list of members.
pub fn copy_opt_members(members: &Option<Vec<JsonMember>>) -> (r: Option<Vec<JsonMember>>)
    ensures
        opt_members_view(r) == opt_members_view(*members),
{
    match members {
        Some(m) => Some(duplicate_members(m)),
        None => None,
    }
}

impl Clone for StatsigUser {
    fn clone(&self) -> (r: StatsigUser)
        ensures
            r@ == self@,
    {
        self.duplicate()
    }
}

impl StatsigUser {
    pub fn with_user_id(user_id: String) -> (r: Self)
        ensures
            r == (StatsigUser { user_id: Some(user_id), ..Self::empty() }),
    {
        StatsigUser { user_id: Some(user_id), ..Self::default() }
    }

    pub fn with_custom_ids(custom_ids: Vec<(String, String)>) -> (r: Self)
        ensures
            r == (StatsigUser { custom_ids: Some(custom_ids), ..Self::empty() }),
    {
        StatsigUser { custom_ids: Some(custom_ids), ..Self::default() }
    }

    /// The user of whom nothing is known.
    pub open spec fn empty() -> StatsigUser {
        StatsigUser {
            user_id: None,
            email: None,
            ip: None,
            user_agent: None,
            country: None,
            locale: None,
            app_version: None,
            custom: None,
            private_attributes: None,
            custom_ids: None,
            statsig_environment: None,
        }
    }

    pub fn default() -> (r: Self)
        ensures
            r == Self::empty(),
    {
        StatsigUser {
            user_id: None,
            email: None,
            ip: None,
            user_agent: None,
            country: None,
            locale: None,
            app_version: None,
            custom: None,
            private_attributes: None,
            custom_ids: None,
            statsig_environment: None,
        }
    }

    /// A copy that holds the same.
    pub fn duplicate(&self) -> (r: StatsigUser)
        ensures
            r@ == self@,
    {
        StatsigUser {
            user_id: copy_opt(&self.user_id),
            email: copy_opt(&self.email),
            ip: copy_opt(&self.ip),
            user_agent: copy_opt(&self.user_agent),
            country: copy_opt(&self.country),
            locale: copy_opt(&self.locale),
            app_version: copy_opt(&self.app_version),
            custom: copy_opt_members(&self.custom),
            private_attributes: copy_opt_members(&self.private_attributes),
            custom_ids: copy_opt_pairs(&self.custom_ids),
            statsig_environment: copy_opt_pairs(&self.statsig_environment),
        }
    }

    /// The unit that the user is counted by under an id type.
    pub fn get_unit_id(&self, id_type: &String) -> (r: Option<String>)
        ensures
            opt_view(r) == unit_id(self@, id_type@),
    {
        let lowered = to_lowercase(id_type.as_str());
        if text_is(lowered.as_str(), "userid") {
            return copy_opt(&self.user_id);
        }
        let custom_ids = match &self.custom_ids {
            Some(x) => x,
            None => {
                return None;
            },
        };
        if let Some(i) = find_entry(custom_ids, id_type.as_str()) {
            return Some(custom_ids[i].1.clone());
        }
        if let Some(i) = find_entry(custom_ids, lowered.as_str()) {
            return Some(custom_ids[i].1.clone());
        }
        None
    }

    /// The value of a field of the user.
    pub fn get_user_value(&self, field: &Option<String>) -> (r: JsonValue)
        ensures
            r@ == user_value(self@, opt_view(*field)),
    {
        let field = match field {
            Some(f) => f,
            None => {
                return JsonValue::Null;
            },
        };
        let lowered = to_lowercase(field.as_str());
        let l = lowered.as_str();
        let str_value: &Option<String> = if text_is(l, "userid") {
            &self.user_id
        } else if text_is(l, "email") {
            &self.email
        } else if text_is(l, "ip") {
            &self.ip
        } else if text_is(l, "useragent") {
            &self.user_agent
        } else if text_is(l, "country") {
            &self.country
        } else if text_is(l, "locale") {
            &self.locale
        } else if text_is(l, "appversion") {
            &self.app_version
        } else {
            &None
        };
        if let Some(value) = str_value {
            return JsonValue::String(value.clone());
        }
        if let Some(custom_value) = find_attribute(&self.custom, field.as_str()) {
            return custom_value.duplicate();
        }
        if let Some(private_value) = find_attribute(&self.private_attributes, field.as_str()) {
            return private_value.duplicate();
        }
        JsonValue::Null
    }

    /// The value of the environment for a field.
    pub fn get_value_from_environment(&self, field: &Option<String>) -> (r: JsonValue)
        ensures
            r@ == environment_value(self@, opt_view(*field)),
    {
        let f = match field {
            Some(f) => f,
            None => {
                return JsonValue::Null;
            },
        };
        let field_lowered = to_lowercase(f.as_str());
        let env = match &self.statsig_environment {
            Some(e) => e,
            None => {
                return JsonValue::Null;
            },
        };
        let ghost v = pairs_view(env@);
        let mut i: usize = 0;
        while i < env.len()
            invariant
                i <= env.len(),
                v == pairs_view(env@),
                field_lowered@ == lowercase(f@),
                *field == Some(*f),
                self.statsig_environment == Some(*env),
                forall|k: int| 0 <= k < i ==> lowercase((#[trigger] v[k]).0) != lowercase(f@),
            decreases env.len() - i,
        {
            assert(v[i as int] == (env@[i as int].0@, env@[i as int].1@));
            let key = to_lowercase(env[i].0.as_str());
            if key == field_lowered {
                proof {
                    lemma_environment_index_is(v, lowercase(f@), i as int);
                }
                return JsonValue::String(env[i].1.clone());
            }
            i += 1;
        }
        proof {
            lemma_environment_index_is(v, lowercase(f@), i as int);
        }
        JsonValue::Null
    }
}

} // verus!
