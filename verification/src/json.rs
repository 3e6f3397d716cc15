//! JSON values as the rule set and the users carry them.
//!
//! A number is held as the numeral that spells it, so that integers and
//! decimal fractions of any size are kept exactly. An object is held as the
//! list of its members, in the order in which they were handed over.

use crate::text::text_is;
use vstd::prelude::*;
use vstd::string::StringExecFns;

verus! {

#[derive(Debug)]
pub enum JsonValue {
    Null,
    Bool(bool),
    Number(String),
    String(String),
    Array(Vec<JsonValue>),
    Object(Vec<JsonMember>),
}

/// A named value of an object.
#[derive(Debug)]
pub struct JsonMember {
    pub name: String,
    pub value: JsonValue,
}

/// What a JSON value holds.
pub enum JsonView {
    Null,
    Bool(bool),
    Number(Seq<char>),
    String(Seq<char>),
    Array(Seq<JsonView>),
    Object(Seq<MemberView>),
}

/// What a named value holds.
pub struct MemberView {
    pub name: Seq<char>,
    pub value: JsonView,
}

impl View for JsonValue {
    type V = JsonView;

    open spec fn view(&self) -> JsonView
        decreases self,
    {
        match self {
            JsonValue::Null => JsonView::Null,
            JsonValue::Bool(b) => JsonView::Bool(*b),
            JsonValue::Number(n) => JsonView::Number(n@),
            JsonValue::String(s) => JsonView::String(s@),
            JsonValue::Array(items) => JsonView::Array(
                Seq::new(
                    items@.len(),
                    |i: int|
                        if 0 <= i < items@.len() {
                            items@[i].view()
                        } else {
                            JsonView::Null
                        },
                ),
            ),
            JsonValue::Object(members) => JsonView::Object(
                Seq::new(
                    members@.len(),
                    |i: int|
                        if 0 <= i < members@.len() {
                            MemberView {
                                name: members@[i].name@,
                                value: members@[i].value.view(),
                            }
                        } else {
                            MemberView { name: Seq::empty(), value: JsonView::Null }
                        },
                ),
            ),
        }
    }
}

/// Whether two values are the same JSON: of one kind, and the same scalar,
/// the same items in the same order, or the same members in whatever order.
/// Two objects are the same where they have as many members, each member of
/// the first stands in the second under its name with the same value, and
/// each name of the second is a name of the first. Where a name occurs twice
/// in an object, its first member counts.
pub open spec fn same_json(a: JsonView, b: JsonView) -> bool
    decreases a,
{
    match (a, b) {
        (JsonView::Null, JsonView::Null) => true,
        (JsonView::Bool(x), JsonView::Bool(y)) => x == y,
        (JsonView::Number(x), JsonView::Number(y)) => x == y,
        (JsonView::String(x), JsonView::String(y)) => x == y,
        (JsonView::Array(x), JsonView::Array(y)) => {
            &&& x.len() == y.len()
            &&& forall|i: int| 0 <= i < x.len() ==> same_json(#[trigger] x[i], y[i])
        },
        (JsonView::Object(x), JsonView::Object(y)) => {
            &&& x.len() == y.len()
            &&& forall|i: int|
                0 <= i < x.len() ==> {
                    &&& name_index(y, (#[trigger] x[i]).name) < y.len()
                    &&& same_json(x[i].value, y[name_index(y, x[i].name)].value)
                }
            &&& forall|j: int| 0 <= j < y.len() ==> name_index(x, (#[trigger] y[j]).name) < x.len()
        },
        _ => false,
    }
}

/// Whether a member stands in a list of members under its name with the
/// same value.
pub open spec fn member_is_in(m: MemberView, y: Seq<MemberView>) -> bool {
    &&& name_index(y, m.name) < y.len()
    &&& same_json(m.value, y[name_index(y, m.name)].value)
}

/// No name occurs twice in any object of a value.
pub open spec fn names_once(v: JsonView) -> bool
    decreases v,
{
    match v {
        JsonView::Array(x) => forall|i: int| 0 <= i < x.len() ==> names_once(#[trigger] x[i]),
        JsonView::Object(x) => {
            &&& forall|i: int, j: int| 0 <= i < j < x.len() ==> x[i].name != x[j].name
            &&& forall|i: int| 0 <= i < x.len() ==> names_once((#[trigger] x[i]).value)
        },
        _ => true,
    }
}

/// A value in whose objects no name occurs twice is the same JSON as
/// itself.
pub proof fn lemma_same_json_reflexive(v: JsonView)
    requires
        names_once(v),
    ensures
        same_json(v, v),
    decreases v,
{
    match v {
        JsonView::Array(x) => {
            assert forall|i: int| 0 <= i < x.len() implies same_json(#[trigger] x[i], x[i]) by {
                lemma_same_json_reflexive(x[i]);
            }
        },
        JsonView::Object(x) => {
            assert forall|i: int| 0 <= i < x.len() implies name_index(x, (#[trigger] x[i]).name)
                == i by {
                lemma_name_index_is(x, x[i].name, i);
            }
            assert forall|i: int| 0 <= i < x.len() implies {
                &&& name_index(x, (#[trigger] x[i]).name) < x.len()
                &&& same_json(x[i].value, x[name_index(x, x[i].name)].value)
            } by {
                lemma_same_json_reflexive(x[i].value);
            }
        },
        _ => {},
    }
}

/// What a list of values holds.
pub open spec fn values_view(items: Seq<JsonValue>) -> Seq<JsonView> {
    Seq::new(items.len(), |i: int| items[i]@)
}

/// What a list of named values holds.
pub open spec fn members_view(members: Seq<JsonMember>) -> Seq<MemberView> {
    Seq::new(
        members.len(),
        |i: int| MemberView { name: members[i].name@, value: members[i].value@ },
    )
}

pub proof fn lemma_array_view(items: Vec<JsonValue>)
    ensures
        JsonValue::Array(items)@ == JsonView::Array(values_view(items@)),
{
    assert(JsonValue::Array(items)@->Array_0.len() == items@.len());
    assert(JsonValue::Array(items)@->Array_0 =~= values_view(items@));
}

pub proof fn lemma_object_view(members: Vec<JsonMember>)
    ensures
        JsonValue::Object(members)@ == JsonView::Object(members_view(members@)),
{
    let v = JsonValue::Object(members);
    match v@ {
        JsonView::Object(lhs) => {
            let rhs = members_view(members@);
            assert(lhs.len() == members@.len());
            assert forall|i: int| 0 <= i < lhs.len() implies lhs[i] == rhs[i] by {}
            assert(lhs =~= rhs);
        },
        _ => {},
    }
}

impl JsonValue {
    /// A copy that holds the same value.
    pub fn duplicate(&self) -> (r: JsonValue)
        ensures
            r@ == self@,
        decreases self,
    {
        match self {
            JsonValue::Null => JsonValue::Null,
            JsonValue::Bool(b) => JsonValue::Bool(*b),
            JsonValue::Number(n) => JsonValue::Number(n.clone()),
            JsonValue::String(s) => JsonValue::String(s.clone()),
            JsonValue::Array(items) => {
                let out = duplicate_values(items);
                proof {
                    lemma_array_view(*items);
                    lemma_array_view(out);
                }
                JsonValue::Array(out)
            },
            JsonValue::Object(members) => {
                let out = duplicate_members(members);
                proof {
                    lemma_object_view(*members);
                    lemma_object_view(out);
                }
                JsonValue::Object(out)
            },
        }
    }

    /// Whether two values are the same JSON; see `same_json`.
    pub fn equals(&self, other: &JsonValue) -> (r: bool)
        ensures
            r == same_json(self@, other@),
        decreases self,
    {
        match (self, other) {
            (JsonValue::Null, JsonValue::Null) => true,
            (JsonValue::Bool(a), JsonValue::Bool(b)) => *a == *b,
            (JsonValue::Number(a), JsonValue::Number(b)) => *a == *b,
            (JsonValue::String(a), JsonValue::String(b)) => *a == *b,
            (JsonValue::Array(a), JsonValue::Array(b)) => {
                proof {
                    lemma_array_view(*a);
                    lemma_array_view(*b);
                }
                if a.len() != b.len() {
                    assert(values_view(a@).len() != values_view(b@).len());
                    return false;
                }
                let ghost x = values_view(a@);
                let ghost y = values_view(b@);
                let mut i: usize = 0;
                while i < a.len()
                    invariant
                        i <= a.len(),
                        a.len() == b.len(),
                        *self == JsonValue::Array(*a),
                        x == values_view(a@),
                        y == values_view(b@),
                        self@ == JsonView::Array(x),
                        other@ == JsonView::Array(y),
                        forall|k: int| 0 <= k < i ==> same_json(#[trigger] x[k], y[k]),
                    decreases a.len() - i,
                {
                    assert(x[i as int] == a@[i as int]@ && y[i as int] == b@[i as int]@);
                    if !a[i].equals(&b[i]) {
                        assert(!same_json(x[i as int], y[i as int]));
                        return false;
                    }
                    i += 1;
                }
                true
            },
            (JsonValue::Object(a), JsonValue::Object(b)) => {
                proof {
                    lemma_object_view(*a);
                    lemma_object_view(*b);
                }
                if a.len() != b.len() {
                    assert(members_view(a@).len() != members_view(b@).len());
                    return false;
                }
                let ghost x = members_view(a@);
                let ghost y = members_view(b@);
                let mut i: usize = 0;
                while i < a.len()
                    invariant
                        i <= a.len(),
                        a.len() == b.len(),
                        *self == JsonValue::Object(*a),
                        x == members_view(a@),
                        y == members_view(b@),
                        self@ == JsonView::Object(x),
                        other@ == JsonView::Object(y),
                        forall|k: int| 0 <= k < i ==> member_is_in(#[trigger] x[k], y),
                    decreases a.len() - i,
                {
                    assert(x[i as int].name == a@[i as int].name@);
                    assert(x[i as int].value == a@[i as int].value@);
                    match find_member(b, a[i].name.as_str()) {
                        None => {
                            assert(!member_is_in(x[i as int], y));
                            return false;
                        },
                        Some(k) => {
                            assert(y[k as int].value == b@[k as int].value@);
                            if !a[i].value.equals(&b[k].value) {
                                assert(!member_is_in(x[i as int], y));
                                return false;
                            }
                        },
                    }
                    i += 1;
                }
                let mut j: usize = 0;
                while j < b.len()
                    invariant
                        j <= b.len(),
                        a.len() == b.len(),
                        x == members_view(a@),
                        y == members_view(b@),
                        self@ == JsonView::Object(x),
                        other@ == JsonView::Object(y),
                        forall|k: int| 0 <= k < x.len() ==> member_is_in(#[trigger] x[k], y),
                        forall|k: int| 0 <= k < j ==> name_index(x, (#[trigger] y[k]).name) < x.len(),
                    decreases b.len() - j,
                {
                    assert(y[j as int].name == b@[j as int].name@);
                    if find_member(a, b[j].name.as_str()).is_none() {
                        assert(!(name_index(x, y[j as int].name) < x.len()));
                        return false;
                    }
                    j += 1;
                }
                true
            },
            _ => false,
        }
    }
}

impl Clone for JsonValue {
    fn clone(&self) -> (r: JsonValue)
        ensures
            r@ == self@,
    {
        self.duplicate()
    }
}

/// A copy of a list of values.
pub fn duplicate_values(items: &Vec<JsonValue>) -> (r: Vec<JsonValue>)
    ensures
        values_view(r@) == values_view(items@),
    decreases items,
{
    let mut out: Vec<JsonValue> = Vec::new();
    let mut i: usize = 0;
    while i < items.len()
        invariant
            i <= items.len(),
            out.len() == i,
            forall|k: int| 0 <= k < i ==> out@[k]@ == items@[k]@,
        decreases items.len() - i,
    {
        out.push(items[i].duplicate());
        i += 1;
    }
    assert(values_view(out@) =~= values_view(items@));
    out
}

/// A copy of a list of named values.
pub fn duplicate_members(members: &Vec<JsonMember>) -> (r: Vec<JsonMember>)
    ensures
        members_view(r@) == members_view(members@),
    decreases members,
{
    let mut out: Vec<JsonMember> = Vec::new();
    let mut i: usize = 0;
    while i < members.len()
        invariant
            i <= members.len(),
            out.len() == i,
            forall|k: int|
                0 <= k < i ==> out@[k].name@ == members@[k].name@ && out@[k].value@
                    == members@[k].value@,
        decreases members.len() - i,
    {
        out.push(JsonMember { name: members[i].name.clone(), value: members[i].value.duplicate() });
        i += 1;
    }
    assert(members_view(out@) =~= members_view(members@));
    out
}


/// A text between double quotes, escaped as `serde_json` escapes a JSON
/// string.
pub uninterp spec fn quoted(s: Seq<char>) -> Seq<char>;

/// `Display` of `serde_json::Value::String`: the JSON string literal of the
/// text. How the text is escaped is left to `serde_json`.
#[verifier::external_body]
fn quote(s: &str) -> (r: String)
    ensures
        r@ == quoted(s@),
{
    serde_json::Value::String(s.to_owned()).to_string()
}

/// The compact JSON text of a value: no white space, numbers as their
/// numerals, strings quoted, items and members in their order.
pub open spec fn json_text(v: JsonView) -> Seq<char>
    decreases v, 0nat,
{
    match v {
        JsonView::Null => "null"@,
        JsonView::Bool(b) => if b {
            "true"@
        } else {
            "false"@
        },
        JsonView::Number(n) => n,
        JsonView::String(s) => quoted(s),
        JsonView::Array(items) => "["@ + items_text(items, items.len()) + "]"@,
        JsonView::Object(members) => "{"@ + members_text(members, members.len()) + "}"@,
    }
}

/// The texts of the first `n` items, with commas between them.
pub open spec fn items_text(items: Seq<JsonView>, n: nat) -> Seq<char>
    decreases items, n,
{
    if n == 0 || n > items.len() {
        Seq::empty()
    } else if n == 1 {
        json_text(items[0])
    } else {
        items_text(items, (n - 1) as nat) + ","@ + json_text(items[n - 1])
    }
}

/// The texts of the first `n` members, each a quoted name, a colon and the
/// value, with commas between them.
pub open spec fn members_text(members: Seq<MemberView>, n: nat) -> Seq<char>
    decreases members, n,
{
    if n == 0 || n > members.len() {
        Seq::empty()
    } else if n == 1 {
        quoted(members[0].name) + ":"@ + json_text(members[0].value)
    } else {
        members_text(members, (n - 1) as nat) + ","@ + quoted(members[n - 1].name) + ":"@
            + json_text(members[n - 1].value)
    }
}


impl JsonValue {
    /// The compact JSON text of the value.
    pub fn to_text(&self) -> (r: String)
        ensures
            r@ == json_text(self@),
        decreases self,
    {
        match self {
            JsonValue::Null => "null".to_owned(),
            JsonValue::Bool(b) => if *b {
                "true".to_owned()
            } else {
                "false".to_owned()
            },
            JsonValue::Number(n) => n.clone(),
            JsonValue::String(s) => quote(s.as_str()),
            JsonValue::Array(items) => {
                let inner = values_text(items);
                let mut out = "[".to_owned();
                out.append(inner.as_str());
                out.append("]");
                proof {
                    lemma_array_view(*items);
                }
                out
            },
            JsonValue::Object(members) => {
                let inner = members_to_text(members);
                let mut out = "{".to_owned();
                out.append(inner.as_str());
                out.append("}");
                proof {
                    lemma_object_view(*members);
                }
                out
            },
        }
    }
}

/// The texts of the items, with commas between them.
pub fn values_text(items: &Vec<JsonValue>) -> (r: String)
    ensures
        r@ == items_text(values_view(items@), items@.len()),
    decreases items,
{
    let mut out = String::new();
    let mut i: usize = 0;
    while i < items.len()
        invariant
            i <= items.len(),
            out@ == items_text(values_view(items@), i as nat),
        decreases items.len() - i,
    {
        if i > 0 {
            out.append(",");
        }
        let item = items[i].to_text();
        out.append(item.as_str());
        proof {
            assert(values_view(items@)[i as int] == items@[i as int]@);
            if i == 0 {
                assert(out@ =~= json_text(items@[0]@));
            }
        }
        i += 1;
    }
    out
}

/// The texts of the members, with commas between them.
pub fn members_to_text(members: &Vec<JsonMember>) -> (r: String)
    ensures
        r@ == members_text(members_view(members@), members@.len()),
    decreases members,
{
    let mut out = String::new();
    let mut i: usize = 0;
    while i < members.len()
        invariant
            i <= members.len(),
            out@ == members_text(members_view(members@), i as nat),
        decreases members.len() - i,
    {
        if i > 0 {
            out.append(",");
        }
        let name = quote(members[i].name.as_str());
        out.append(name.as_str());
        out.append(":");
        let value = members[i].value.to_text();
        out.append(value.as_str());
        proof {
            assert(members_view(members@)[i as int] == MemberView {
                name: members@[i as int].name@,
                value: members@[i as int].value@,
            });
            if i == 0 {
                assert(out@ =~= quoted(members@[0].name@) + ":"@ + json_text(members@[0].value@));
            }
        }
        i += 1;
    }
    out
}


/// The index of the first member named `key`, or the length of the list.
pub open spec fn member_index(members: Seq<JsonMember>, key: Seq<char>) -> int {
    name_index(members_view(members), key)
}

/// The value that a list of members gives for a name: that of the first
/// member so named.
pub open spec fn named_value(members: Seq<MemberView>, key: Seq<char>) -> Option<JsonView> {
    if name_index(members, key) < members.len() {
        Some(members[name_index(members, key)].value)
    } else {
        None
    }
}

/// The value that a list of members gives for a name.
pub open spec fn member_value(members: Seq<JsonMember>, key: Seq<char>) -> Option<JsonView> {
    named_value(members_view(members), key)
}

/// What an optional list of members holds.
pub open spec fn opt_members_view(members: Option<Vec<JsonMember>>) -> Option<Seq<MemberView>> {
    match members {
        Some(m) => Some(members_view(m@)),
        None => None,
    }
}

/// Looks a name up in a list of members.
pub fn find_member(members: &Vec<JsonMember>, key: &str) -> (r: Option<usize>)
    ensures
        r is Some == (member_index(members@, key@) < members@.len()),
        r is Some ==> r->0 == member_index(members@, key@),
        r is Some ==> member_value(members@, key@) == Some(members@[r->0 as int].value@),
        r is None ==> member_value(members@, key@) is None,
{
    let ghost v = members_view(members@);
    let mut i: usize = 0;
    while i < members.len()
        invariant
            i <= members.len(),
            v == members_view(members@),
            forall|k: int| 0 <= k < i ==> (#[trigger] v[k]).name != key@,
        decreases members.len() - i,
    {
        assert(v[i as int].name == members@[i as int].name@);
        if text_is(members[i].name.as_str(), key) {
            proof {
                lemma_name_index_is(v, key@, i as int);
            }
            return Some(i);
        }
        i += 1;
    }
    proof {
        lemma_name_index_is(v, key@, i as int);
    }
    None
}

/// The index of the first member named `key`, or the length of the list.
pub open spec fn name_index(s: Seq<MemberView>, key: Seq<char>) -> int
    decreases s.len(),
{
    if s.len() == 0 {
        0
    } else if s[0].name == key {
        0
    } else {
        1 + name_index(s.drop_first(), key)
    }
}

/// The index lies within the list or at its end; the entry at it, if any,
/// is a match, and none before it is.
pub proof fn lemma_name_index(s: Seq<MemberView>, key: Seq<char>)
    ensures
        0 <= name_index(s, key) <= s.len(),
        name_index(s, key) < s.len() ==> s[name_index(s, key)].name == key,
        forall|k: int| 0 <= k < name_index(s, key) ==> !((#[trigger] s[k]).name == key),
    decreases s.len(),
{
    if s.len() > 0 && !(s[0].name == key) {
        let t = s.drop_first();
        lemma_name_index(t, key);
        let n = name_index(t, key);
        assert forall|k: int| 0 <= k < 1 + n implies !((#[trigger] s[k]).name == key) by {
            if k > 0 {
                assert(t[k - 1] == s[k]);
            }
        }
        if n < t.len() {
            assert(t[n] == s[n + 1]);
        }
    }
}

/// An index before which no entry is a match, and at which one is or the
/// list ends, is the index of the first match.
pub proof fn lemma_name_index_is(s: Seq<MemberView>, key: Seq<char>, i: int)
    requires
        0 <= i <= s.len(),
        forall|k: int| 0 <= k < i ==> !((#[trigger] s[k]).name == key),
        i < s.len() ==> s[i].name == key,
    ensures
        name_index(s, key) == i,
{
    lemma_name_index(s, key);
}

/// A list of members with `value` under the name `key`: in the place of the
/// first member so named, or at the end where there is none.
pub open spec fn with_member(members: Seq<MemberView>, key: Seq<char>, value: JsonView) -> Seq<
    MemberView,
> {
    if name_index(members, key) < members.len() {
        members.update(name_index(members, key), MemberView { name: key, value })
    } else {
        members.push(MemberView { name: key, value })
    }
}

/// The members of `left` with those of `right` from index `i` on set among
/// them one by one.
pub open spec fn with_members_from(left: Seq<MemberView>, right: Seq<MemberView>, i: int) -> Seq<
    MemberView,
>
    decreases right.len() - i,
{
    if i < 0 || i >= right.len() {
        left
    } else {
        with_members_from(with_member(left, right[i].name, right[i].value), right, i + 1)
    }
}

/// Two objects merged: the members of the left one, with each member of
/// the right one set among them. A left value that is no object, or one
/// that meets a right value that is none, stays as it is.
pub open spec fn merged(left: JsonView, right: JsonView) -> JsonView {
    match (left, right) {
        (JsonView::Object(l), JsonView::Object(r)) => JsonView::Object(with_members_from(l, r, 0)),
        _ => left,
    }
}

/// Sets `value` under the name `key` in a list of members.
pub fn set_member(members: &mut Vec<JsonMember>, key: &str, value: JsonValue)
    ensures
        members_view(final(members)@) == with_member(members_view(old(members)@), key@, value@),
{
    let ghost before = members_view(members@);
    match find_member(members, key) {
        Some(i) => {
            members[i] = JsonMember { name: key.to_owned(), value };
            assert(members_view(members@) =~= before.update(
                i as int,
                MemberView { name: key@, value: value@ },
            ));
        },
        None => {
            members.push(JsonMember { name: key.to_owned(), value });
            assert(members_view(members@) =~= before.push(MemberView { name: key@, value: value@ }));
        },
    }
}

/// Merges two objects; see `merged`.
pub fn merge_json_value(left: &JsonValue, right: JsonValue) -> (r: JsonValue)
    ensures
        r@ == merged(left@, right@),
{
    match (left, right) {
        (JsonValue::Object(l), JsonValue::Object(r)) => {
            proof {
                lemma_object_view(*l);
                lemma_object_view(r);
            }
            let mut result = duplicate_members(l);
            let mut i: usize = 0;
            while i < r.len()
                invariant
                    i <= r.len(),
                    with_members_from(members_view(l@), members_view(r@), 0) == with_members_from(
                        members_view(result@),
                        members_view(r@),
                        i as int,
                    ),
                decreases r.len() - i,
            {
                assert(members_view(r@)[i as int] == MemberView {
                    name: r@[i as int].name@,
                    value: r@[i as int].value@,
                });
                set_member(&mut result, r[i].name.as_str(), r[i].value.duplicate());
                i += 1;
            }
            proof {
                lemma_object_view(result);
            }
            JsonValue::Object(result)
        },
        _ => left.duplicate(),
    }
}

/// A list of texts as a JSON array of strings.
pub open spec fn strings_json(texts: Seq<Seq<char>>) -> JsonView {
    JsonView::Array(Seq::new(texts.len(), |i: int| JsonView::String(texts[i])))
}

/// A JSON array of strings.
pub fn json_strings(texts: &Vec<String>) -> (r: JsonValue)
    ensures
        r@ == strings_json(crate::text::strings_view(texts@)),
{
    let mut out: Vec<JsonValue> = Vec::new();
    let mut i: usize = 0;
    while i < texts.len()
        invariant
            i <= texts.len(),
            out.len() == i,
            forall|k: int| 0 <= k < i ==> out@[k]@ == JsonView::String(texts@[k]@),
        decreases texts.len() - i,
    {
        out.push(JsonValue::String(texts[i].clone()));
        i += 1;
    }
    proof {
        lemma_array_view(out);
        assert(values_view(out@) =~= strings_json(crate::text::strings_view(texts@))->Array_0);
    }
    JsonValue::Array(out)
}

/// A JSON string that holds a text.
pub fn json_string(text: &str) -> (r: JsonValue)
    ensures
        r@ == JsonView::String(text@),
{
    JsonValue::String(text.to_owned())
}

/// A JSON object with the given members.
pub fn json_object(members: Vec<JsonMember>) -> (r: JsonValue)
    ensures
        r@ == JsonView::Object(members_view(members@)),
{
    proof {
        lemma_object_view(members);
    }
    JsonValue::Object(members)
}

/// A JSON array with the given items.
pub fn json_array(items: Vec<JsonValue>) -> (r: JsonValue)
    ensures
        r@ == JsonView::Array(values_view(items@)),
{
    proof {
        lemma_array_view(items);
    }
    JsonValue::Array(items)
}


/// Pairs of texts as members, from index `i` on, set among `acc`.
pub open spec fn pairs_from(pairs: Seq<(Seq<char>, Seq<char>)>, i: int, acc: Seq<MemberView>) -> Seq<
    MemberView,
>
    decreases pairs.len() - i,
{
    if i < 0 || i >= pairs.len() {
        acc
    } else {
        pairs_from(pairs, i + 1, with_member(acc, pairs[i].0, JsonView::String(pairs[i].1)))
    }
}

/// Pairs of texts as a JSON object of strings.
pub open spec fn pairs_json(pairs: Seq<(Seq<char>, Seq<char>)>) -> JsonView {
    JsonView::Object(pairs_from(pairs, 0, Seq::empty()))
}

/// A JSON object of strings.
pub fn json_pairs(pairs: &Vec<(String, String)>) -> (r: JsonValue)
    ensures
        r@ == pairs_json(crate::text::pairs_view(pairs@)),
{
    let mut out: Vec<JsonMember> = Vec::new();
    assert(members_view(out@) =~= Seq::<MemberView>::empty());
    let mut i: usize = 0;
    while i < pairs.len()
        invariant
            i <= pairs.len(),
            pairs_from(crate::text::pairs_view(pairs@), 0, Seq::empty()) == pairs_from(
                crate::text::pairs_view(pairs@),
                i as int,
                members_view(out@),
            ),
        decreases pairs.len() - i,
    {
        assert(crate::text::pairs_view(pairs@)[i as int] == (
            pairs@[i as int].0@,
            pairs@[i as int].1@,
        ));
        set_member(&mut out, pairs[i].0.as_str(), JsonValue::String(pairs[i].1.clone()));
        i += 1;
    }
    json_object(out)
}

/// A list of members with no member in it.
pub fn new_members() -> (r: Vec<JsonMember>)
    ensures
        members_view(r@) == Seq::<MemberView>::empty(),
{
    let r: Vec<JsonMember> = Vec::new();
    assert(members_view(r@) =~= Seq::<MemberView>::empty());
    r
}

} // verus!
