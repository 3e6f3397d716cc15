//! The comparisons that a condition's operator asks for: numbers, versions,
//! texts against a list, regular expressions and points in time.

use crate::decimal::{
    integer_of, numeral_of, numeral_order, parse_i64, parse_numeral, Numeral, NumeralView,
};
use crate::json::{json_text, lemma_array_view, values_view, JsonValue, JsonView};
use crate::text::{
    chars_of, find_from, first_index_of, lowercase, occurs_at, occurs_in, parts_view, slice_of,
    split, split_on, text_contains, text_ends_with, text_is, text_starts_with, to_lowercase,
};
use vstd::prelude::*;

verus! {

/// The text that stands for a value in comparisons: a string as it is, any
/// other value as its compact JSON text.
pub open spec fn text_of(v: JsonView) -> Seq<char> {
    match v {
        JsonView::String(s) => s,
        _ => json_text(v),
    }
}

/// The text that stands for a value in comparisons. Every value has one.
pub fn value_to_string(value: &JsonValue) -> (r: Option<String>)
    ensures
        r is Some,
        r->0@ == text_of(value@),
{
    match value {
        JsonValue::String(s) => Some(s.clone()),
        _ => Some(value.to_text()),
    }
}

/// The characters of the text that stands for a value.
pub fn value_chars(value: &JsonValue) -> (r: Vec<char>)
    ensures
        r@ == text_of(value@),
{
    match value {
        JsonValue::String(s) => chars_of(s.as_str()),
        _ => {
            let t = value.to_text();
            chars_of(t.as_str())
        },
    }
}

/// The integer of 64 bits that a value spells.
pub open spec fn integer_of_value(v: JsonView) -> Option<int> {
    let n = match v {
        JsonView::Number(t) => integer_of(t),
        JsonView::String(s) => integer_of(s),
        _ => None,
    };
    match n {
        Some(i) => if i64::MIN <= i <= i64::MAX {
            Some(i)
        } else {
            None
        },
        None => None,
    }
}

/// Reads a number or a string as an integer of 64 bits: `None` for a value
/// of another kind, for a text that spells no integer, and for an integer
/// that does not fit.
pub fn value_to_i64(value: &JsonValue) -> (r: Option<i64>)
    ensures
        r is Some == integer_of_value(value@) is Some,
        r is Some ==> r->0 == integer_of_value(value@)->0,
{
    match value {
        JsonValue::Number(t) => parse_i64(&chars_of(t.as_str())),
        JsonValue::String(s) => parse_i64(&chars_of(s.as_str())),
        _ => None,
    }
}

/// A version without what follows its first hyphen.
pub open spec fn version_core(s: Seq<char>) -> Seq<char> {
    s.take(first_index_of(s, '-'))
}

/// The number that one component of a version spells: an integer of 32
/// bits, or `None`.
pub open spec fn component_value(s: Seq<char>) -> Option<int> {
    match integer_of(s) {
        Some(v) => if i32::MIN <= v <= i32::MAX {
            Some(v)
        } else {
            None
        },
        None => None,
    }
}

/// How two versions compare from component `i` on: -1, 0 or 1. A missing
/// component counts as 0. `None` where a component that had to be read
/// spells no number; components behind the first difference are not read.
pub open spec fn version_order_from(l: Seq<Seq<char>>, r: Seq<Seq<char>>, i: int) -> Option<int>
    decreases l.len() + r.len() - i,
{
    if i < 0 || (i >= l.len() && i >= r.len()) {
        Some(0)
    } else {
        let lc = if i < l.len() {
            component_value(l[i])
        } else {
            Some(0)
        };
        let rc = if i < r.len() {
            component_value(r[i])
        } else {
            Some(0)
        };
        if lc is None || rc is None {
            None
        } else if lc->0 < rc->0 {
            Some(-1)
        } else if lc->0 > rc->0 {
            Some(1)
        } else {
            version_order_from(l, r, i + 1)
        }
    }
}

/// How two versions compare.
pub open spec fn version_order(left: Seq<char>, right: Seq<char>) -> Option<int> {
    version_order_from(split(version_core(left), '.'), split(version_core(right), '.'), 0)
}

/// What a version operator makes of an order.
pub open spec fn version_verdict(order: int, op: Seq<char>) -> Option<bool> {
    if op == "version_gt"@ {
        Some(order > 0)
    } else if op == "version_gte"@ {
        Some(order >= 0)
    } else if op == "version_lt"@ {
        Some(order < 0)
    } else if op == "version_lte"@ {
        Some(order <= 0)
    } else if op == "version_eq"@ {
        Some(order == 0)
    } else if op == "version_neq"@ {
        Some(order != 0)
    } else {
        None
    }
}

/// The outcome of a version comparison.
pub open spec fn versions_compared(left: JsonView, right: JsonView, op: Seq<char>) -> Option<
    bool,
> {
    match version_order(text_of(left), text_of(right)) {
        Some(order) => version_verdict(order, op),
        None => None,
    }
}

fn parse_component(s: &Vec<char>) -> (r: Option<i32>)
    ensures
        r is Some == component_value(s@) is Some,
        r is Some ==> r->0 == component_value(s@)->0,
{
    match parse_i64(s) {
        Some(v) => if -0x8000_0000 <= v && v <= 0x7fff_ffff {
            Some(v as i32)
        } else {
            None
        },
        None => None,
    }
}

fn core_parts(s: &Vec<char>) -> (r: Vec<Vec<char>>)
    ensures
        parts_view(r@) == split(version_core(s@), '.'),
{
    let cut = find_from(s, 0, '-');
    assert(s@.skip(0) =~= s@);
    let core = slice_of(s, 0, cut);
    assert(core@ =~= version_core(s@));
    split_on(&core, '.')
}

/// Compares two versions component by component, each without what follows
/// its first hyphen, and applies the operator to the outcome.
pub fn compare_versions(left: &JsonValue, right: &JsonValue, op: &str) -> (r: Option<bool>)
    ensures
        r == versions_compared(left@, right@, op@),
{
    let left_parts = core_parts(&value_chars(left));
    let right_parts = core_parts(&value_chars(right));
    let ghost l = parts_view(left_parts@);
    let ghost r = parts_view(right_parts@);
    let mut i: usize = 0;
    while i < left_parts.len() || i < right_parts.len()
        invariant
            l == parts_view(left_parts@),
            r == parts_view(right_parts@),
            l == split(version_core(text_of(left@)), '.'),
            r == split(version_core(text_of(right@)), '.'),
            version_order_from(l, r, 0) == version_order_from(l, r, i as int),
        decreases left_parts.len() + right_parts.len() - i,
    {
        let mut left_count: i32 = 0;
        let mut right_count: i32 = 0;
        if i < left_parts.len() {
            assert(l[i as int] == left_parts@[i as int]@);
            match parse_component(&left_parts[i]) {
                Some(v) => {
                    left_count = v;
                },
                None => {
                    return None;
                },
            }
        }
        if i < right_parts.len() {
            assert(r[i as int] == right_parts@[i as int]@);
            match parse_component(&right_parts[i]) {
                Some(v) => {
                    right_count = v;
                },
                None => {
                    return None;
                },
            }
        }
        if left_count < right_count {
            return apply_version_operator(-1, op);
        }
        if left_count > right_count {
            return apply_version_operator(1, op);
        }
        i += 1;
    }
    apply_version_operator(0, op)
}

fn apply_version_operator(order: i8, op: &str) -> (r: Option<bool>)
    ensures
        r == version_verdict(order as int, op@),
{
    if text_is(op, "version_gt") {
        Some(order > 0)
    } else if text_is(op, "version_gte") {
        Some(order >= 0)
    } else if text_is(op, "version_lt") {
        Some(order < 0)
    } else if text_is(op, "version_lte") {
        Some(order <= 0)
    } else if text_is(op, "version_eq") {
        Some(order == 0)
    } else if text_is(op, "version_neq") {
        Some(order != 0)
    } else {
        None
    }
}


/// The numeral that a number or a string spells.
pub open spec fn numeral_of_value(v: JsonView) -> Option<NumeralView> {
    match v {
        JsonView::Number(t) => numeral_of(t),
        JsonView::String(s) => numeral_of(s),
        _ => None,
    }
}

/// Reads a number or a string as a numeral: `None` for a value of another
/// kind and for a text that spells no numeral.
pub fn value_to_numeral(value: &JsonValue) -> (r: Option<Numeral>)
    ensures
        r is Some == numeral_of_value(value@) is Some,
        r is Some ==> r->0.wf() && r->0@ == numeral_of_value(value@)->0,
{
    match value {
        JsonValue::Number(t) => parse_numeral(&chars_of(t.as_str())),
        JsonValue::String(s) => parse_numeral(&chars_of(s.as_str())),
        _ => None,
    }
}

/// What a numeric operator makes of an order; an order of `None` stands for
/// a comparison with something that is not a number, which never holds.
pub open spec fn number_verdict(order: Option<int>, op: Seq<char>) -> Option<bool> {
    if op == "gt"@ {
        Some(order is Some && order->0 > 0)
    } else if op == "gte"@ {
        Some(order is Some && order->0 >= 0)
    } else if op == "lt"@ {
        Some(order is Some && order->0 < 0)
    } else if op == "lte"@ {
        Some(order is Some && order->0 <= 0)
    } else {
        None
    }
}

/// The outcome of a numeric comparison: `None` where a side spells no
/// numeral or the operator is not a numeric one.
pub open spec fn numbers_compared(left: JsonView, right: JsonView, op: Seq<char>) -> Option<
    bool,
> {
    match (numeral_of_value(left), numeral_of_value(right)) {
        (Some(l), Some(r)) => number_verdict(numeral_order(l, r), op),
        _ => None,
    }
}

/// Compares two values as numbers, by the exact value of their numerals.
pub fn compare_numbers(left: &JsonValue, right: &JsonValue, op: &str) -> (r: Option<bool>)
    ensures
        r == numbers_compared(left@, right@, op@),
{
    let left_num = match value_to_numeral(left) {
        Some(n) => n,
        None => {
            return None;
        },
    };
    let right_num = match value_to_numeral(right) {
        Some(n) => n,
        None => {
            return None;
        },
    };
    let order = left_num.order(&right_num);
    if text_is(op, "gt") {
        Some(order.is_some() && order.unwrap() > 0)
    } else if text_is(op, "gte") {
        Some(order.is_some() && order.unwrap() >= 0)
    } else if text_is(op, "lt") {
        Some(order.is_some() && order.unwrap() < 0)
    } else if text_is(op, "lte") {
        Some(order.is_some() && order.unwrap() <= 0)
    } else {
        None
    }
}

/// How a text is held against each item of a list.
#[derive(Clone, Copy, Debug, PartialEq, Eq, Structural)]
pub enum TextTest {
    Equals,
    StartsWith,
    EndsWith,
    Contains,
    Never,
}

/// The test that an operator asks for.
pub open spec fn text_test_of(op: Seq<char>) -> TextTest {
    if op == "any"@ || op == "none"@ || op == "any_case_sensitive"@ || op
        == "none_case_sensitive"@ {
        TextTest::Equals
    } else if op == "str_starts_with_any"@ {
        TextTest::StartsWith
    } else if op == "str_ends_with_any"@ {
        TextTest::EndsWith
    } else if op == "str_contains_any"@ || op == "str_contains_none"@ {
        TextTest::Contains
    } else {
        TextTest::Never
    }
}

/// Whether an operator asks that no item of the list match.
pub open spec fn is_negated(op: Seq<char>) -> bool {
    op == "none"@ || op == "none_case_sensitive"@ || op == "str_contains_none"@
}

/// Whether `left` meets the test against `right`.
pub open spec fn text_test_holds(test: TextTest, left: Seq<char>, right: Seq<char>) -> bool {
    match test {
        TextTest::Equals => left == right,
        TextTest::StartsWith => occurs_at(left, right, 0),
        TextTest::EndsWith => right.len() <= left.len() && occurs_at(
            left,
            right,
            left.len() - right.len(),
        ),
        TextTest::Contains => occurs_in(left, right),
        TextTest::Never => false,
    }
}

/// A text as it enters a comparison: in lower case where case is ignored.
pub open spec fn folded(s: Seq<char>, ignore_case: bool) -> Seq<char> {
    if ignore_case {
        lowercase(s)
    } else {
        s
    }
}

/// Whether the value meets the test against one item.
pub open spec fn item_matches(value: JsonView, item: JsonView, test: TextTest, ignore_case: bool) -> bool {
    text_test_holds(test, folded(text_of(value), ignore_case), folded(text_of(item), ignore_case))
}

/// Whether the value meets the operator's test against some item of the
/// list; false where `array` is no list.
pub open spec fn any_item_matches(
    value: JsonView,
    array: JsonView,
    op: Seq<char>,
    ignore_case: bool,
) -> bool {
    &&& array is Array
    &&& exists|i: int|
        0 <= i < array->Array_0.len() && item_matches(
            value,
            #[trigger] array->Array_0[i],
            text_test_of(op),
            ignore_case,
        )
}

/// The outcome of holding a value against a list: whether some item
/// matches, or, for the operators that negate, whether none does.
pub open spec fn strings_in_array(
    value: JsonView,
    array: JsonView,
    op: Seq<char>,
    ignore_case: bool,
) -> bool {
    if is_negated(op) {
        !any_item_matches(value, array, op, ignore_case)
    } else {
        any_item_matches(value, array, op, ignore_case)
    }
}

fn text_test(op: &str) -> (r: TextTest)
    ensures
        r == text_test_of(op@),
{
    if text_is(op, "any") || text_is(op, "none") || text_is(op, "any_case_sensitive") || text_is(
        op,
        "none_case_sensitive",
    ) {
        TextTest::Equals
    } else if text_is(op, "str_starts_with_any") {
        TextTest::StartsWith
    } else if text_is(op, "str_ends_with_any") {
        TextTest::EndsWith
    } else if text_is(op, "str_contains_any") || text_is(op, "str_contains_none") {
        TextTest::Contains
    } else {
        TextTest::Never
    }
}

fn negated(op: &str) -> (r: bool)
    ensures
        r == is_negated(op@),
{
    text_is(op, "none") || text_is(op, "none_case_sensitive") || text_is(op, "str_contains_none")
}

fn folded_chars(value: &JsonValue, ignore_case: bool) -> (r: Vec<char>)
    ensures
        r@ == folded(text_of(value@), ignore_case),
{
    let text = value_to_string(value).unwrap();
    if ignore_case {
        chars_of(to_lowercase(text.as_str()).as_str())
    } else {
        chars_of(text.as_str())
    }
}

fn test_holds(test: TextTest, left: &Vec<char>, right: &Vec<char>) -> (r: bool)
    ensures
        r == text_test_holds(test, left@, right@),
{
    match test {
        TextTest::Equals => crate::text::chars_equal(left, right),
        TextTest::StartsWith => text_starts_with(left, right),
        TextTest::EndsWith => text_ends_with(left, right),
        TextTest::Contains => text_contains(left, right),
        TextTest::Never => false,
    }
}

/// Holds a value against the items of a list, as the operator asks: equal
/// to, beginning with, ending with or containing an item. Where
/// `ignore_case` holds both sides are compared in lower case. The operators
/// `none`, `none_case_sensitive` and `str_contains_none` give the opposite
/// of the outcome.
pub fn compare_strings_in_array(
    value: &JsonValue,
    array: &JsonValue,
    op: &str,
    ignore_case: bool,
) -> (r: bool)
    ensures
        r == strings_in_array(value@, array@, op@, ignore_case),
{
    let test = text_test(op);
    let negate = negated(op);
    let mut found = false;
    match array {
        JsonValue::Array(items) => {
            proof {
                lemma_array_view(*items);
            }
            let left = folded_chars(value, ignore_case);
            let mut i: usize = 0;
            while i < items.len() && !found
                invariant
                    i <= items.len(),
                    left@ == folded(text_of(value@), ignore_case),
                    test == text_test_of(op@),
                    array@ == JsonView::Array(values_view(items@)),
                    found ==> any_item_matches(value@, array@, op@, ignore_case),
                    !found ==> forall|k: int|
                        0 <= k < i ==> !item_matches(
                            value@,
                            #[trigger] values_view(items@)[k],
                            test,
                            ignore_case,
                        ),
                decreases items.len() - i + if found { 0int } else { 1int },
            {
                let right = folded_chars(&items[i], ignore_case);
                assert(values_view(items@)[i as int] == items@[i as int]@);
                if test_holds(test, &left, &right) {
                    proof {
                        assert(item_matches(
                            value@,
                            array@->Array_0[i as int],
                            text_test_of(op@),
                            ignore_case,
                        ));
                    }
                    found = true;
                } else {
                    i += 1;
                }
            }
        },
        _ => {},
    }
    if negate {
        !found
    } else {
        found
    }
}


/// Whether a regular expression matches somewhere in a text, as the crate
/// `regex` decides it; `None` where the pattern is no regular expression
/// to that crate.
pub uninterp spec fn regex_match(pattern: Seq<char>, text: Seq<char>) -> Option<bool>;

/// `regex::Regex::new`, then `Regex::is_match`: compiles the pattern and
/// searches the text for a match. `None` where the pattern does not compile.
#[verifier::external_body]
fn regex_is_match(pattern: &str, text: &str) -> (r: Option<bool>)
    ensures
        r == regex_match(pattern@, text@),
{
    regex::Regex::new(pattern).ok().map(|re| re.is_match(text))
}

/// Whether the pattern, taken as a regular expression, matches somewhere
/// in the text.
pub open spec fn regex_result(found: Option<bool>) -> bool {
    found == Some(true)
}

/// Whether the text of `regex_value`, taken as a regular expression, matches
/// somewhere in the text of `value`; false where it is no regular
/// expression.
pub fn compare_str_with_regex(value: &JsonValue, regex_value: &JsonValue) -> (r: bool)
    ensures
        r == regex_result(regex_match(text_of(regex_value@), text_of(value@))),
{
    let value_str = value_to_string(value).unwrap();
    let regex_str = value_to_string(regex_value).unwrap();
    match regex_is_match(regex_str.as_str(), value_str.as_str()) {
        Some(found) => found,
        None => false,
    }
}

pub const MILLIS_PER_DAY: i64 = 86_400_000;

/// The number of whole days in a span of milliseconds, counted towards
/// zero.
pub open spec fn whole_days(ms: int) -> int {
    if ms >= 0 {
        ms / 86_400_000
    } else {
        -((-ms) / 86_400_000)
    }
}

/// `chrono::Duration::milliseconds`, then `num_days`: the whole days of a
/// span, counted towards zero. The smallest `i64` is left out, on which
/// `milliseconds` panics.
#[verifier::external_body]
fn num_days(ms: i64) -> (r: i64)
    requires
        ms > i64::MIN,
    ensures
        r == whole_days(ms as int),
{
    chrono::Duration::milliseconds(ms).num_days()
}

/// The day that a point in time falls on, in milliseconds since the epoch.
pub fn day_of(ms: i64) -> (r: i64)
    ensures
        r == whole_days(ms as int),
{
    if ms == i64::MIN {
        num_days(ms + 1)
    } else {
        num_days(ms)
    }
}

/// What a time operator makes of two points in time.
pub open spec fn time_verdict(left: int, right: int, op: Seq<char>) -> Option<bool> {
    if op == "before"@ {
        Some(left < right)
    } else if op == "after"@ {
        Some(left > right)
    } else if op == "on"@ {
        Some(whole_days(left) == whole_days(right))
    } else {
        None
    }
}

/// The outcome of a comparison of two points in time: `None` where a side
/// spells no integer of 64 bits or the operator is not one of time.
pub open spec fn times_compared(left: JsonView, right: JsonView, op: Seq<char>) -> Option<bool> {
    match (integer_of_value(left), integer_of_value(right)) {
        (Some(l), Some(r)) => time_verdict(l, r, op),
        _ => None,
    }
}

/// Compares two points in time, each given in milliseconds since the epoch:
/// earlier, later, or on the same day.
pub fn compare_time(left: &JsonValue, right: &JsonValue, op: &str) -> (r: Option<bool>)
    ensures
        r == times_compared(left@, right@, op@),
{
    let left_num = match value_to_i64(left) {
        Some(n) => n,
        None => {
            return None;
        },
    };
    let right_num = match value_to_i64(right) {
        Some(n) => n,
        None => {
            return None;
        },
    };
    if text_is(op, "before") {
        Some(left_num < right_num)
    } else if text_is(op, "after") {
        Some(left_num > right_num)
    } else if text_is(op, "on") {
        Some(day_of(left_num) == day_of(right_num))
    } else {
        None
    }
}

/// The operators `none`, `none_case_sensitive` and `str_contains_none` give
/// the opposite of `any`, `any_case_sensitive` and `str_contains_any`.
pub proof fn lemma_none_is_not_any(value: JsonView, array: JsonView, ignore_case: bool)
    ensures
        strings_in_array(value, array, "none"@, ignore_case) == !strings_in_array(
            value,
            array,
            "any"@,
            ignore_case,
        ),
        strings_in_array(value, array, "none_case_sensitive"@, ignore_case) == !strings_in_array(
            value,
            array,
            "any_case_sensitive"@,
            ignore_case,
        ),
        strings_in_array(value, array, "str_contains_none"@, ignore_case) == !strings_in_array(
            value,
            array,
            "str_contains_any"@,
            ignore_case,
        ),
{
    reveal_strlit("any");
    reveal_strlit("none");
    reveal_strlit("any_case_sensitive");
    reveal_strlit("none_case_sensitive");
    reveal_strlit("str_starts_with_any");
    reveal_strlit("str_ends_with_any");
    reveal_strlit("str_contains_any");
    reveal_strlit("str_contains_none");
    assert("any"@.len() == 3);
    assert("none"@.len() == 4);
    assert("any_case_sensitive"@.len() == 18);
    assert("none_case_sensitive"@.len() == 19);
    assert("str_contains_any"@.len() == 16);
    assert("str_contains_none"@.len() == 17);
    assert("str_ends_with_any"@.len() == 17);
    assert("str_starts_with_any"@.len() == 19);
    assert("str_contains_none"@[4] == 'c');
    assert("str_ends_with_any"@[4] == 'e');
    assert("none_case_sensitive"@[0] == 'n');
    assert("str_starts_with_any"@[0] == 's');
}

} // verus!
