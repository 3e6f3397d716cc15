//! Text as sequences of characters: conversions between `String` and
//! `Vec<char>`, case folding, substring tests, splitting, and lists of pairs
//! of strings that are looked up by key.

use vstd::prelude::*;

verus! {

/// The lower-case form of a text, as `str::to_lowercase` computes it.
pub uninterp spec fn lowercase(s: Seq<char>) -> Seq<char>;

/// `str::to_lowercase`: the result is the lower-case form of the argument.
/// Which characters change is left to the standard library.
#[verifier::external_body]
pub(crate) fn to_lowercase(s: &str) -> (r: String)
    ensures
        r@ == lowercase(s@),
{
    s.to_lowercase()
}

/// `String::from_iter` over characters: the string holds exactly the given
/// characters, in order.
#[verifier::external_body]
pub(crate) fn string_of(chars: &Vec<char>) -> (r: String)
    ensures
        r@ == chars@,
{
    String::from_iter(chars.iter())
}

/// The characters of a string slice, in order.
pub fn chars_of(s: &str) -> (r: Vec<char>)
    ensures
        r@ == s@,
{
    let mut out: Vec<char> = Vec::new();
    for c in it: s.chars()
        invariant
            out@ == it.seq().take(it.index()),
            it.seq() == s@,
    {
        out.push(c);
    }
    out
}

/// Whether a string holds exactly the characters of `lit`.
pub fn text_is(s: &str, lit: &str) -> (r: bool)
    ensures
        r == (s@ == lit@),
{
    let a = s.to_owned();
    let b = lit.to_owned();
    a == b
}

/// Whether two character vectors hold the same text.
pub fn chars_equal(a: &Vec<char>, b: &Vec<char>) -> (r: bool)
    ensures
        r == (a@ == b@),
{
    if a.len() != b.len() {
        return false;
    }
    let mut i: usize = 0;
    while i < a.len()
        invariant
            a.len() == b.len(),
            i <= a.len(),
            forall|k: int| 0 <= k < i ==> a@[k] == b@[k],
        decreases a.len() - i,
    {
        if a[i] != b[i] {
            return false;
        }
        i += 1;
    }
    assert(a@ =~= b@);
    true
}

/// `needle` occurs in `hay` at offset `at`.
pub open spec fn occurs_at(hay: Seq<char>, needle: Seq<char>, at: int) -> bool {
    &&& 0 <= at
    &&& at + needle.len() <= hay.len()
    &&& hay.subrange(at, at + needle.len()) == needle
}

/// `needle` occurs somewhere in `hay`.
pub open spec fn occurs_in(hay: Seq<char>, needle: Seq<char>) -> bool {
    exists|at: int| occurs_at(hay, needle, at)
}

/// Whether `needle` stands in `hay` at offset `at`.
pub fn matches_at(hay: &Vec<char>, needle: &Vec<char>, at: usize) -> (r: bool)
    ensures
        r == occurs_at(hay@, needle@, at as int),
{
    if at > hay.len() || needle.len() > hay.len() - at {
        return false;
    }
    let mut i: usize = 0;
    while i < needle.len()
        invariant
            at + needle.len() <= hay.len(),
            i <= needle.len(),
            forall|k: int| 0 <= k < i ==> hay@[at + k] == needle@[k],
        decreases needle.len() - i,
    {
        if hay[at + i] != needle[i] {
            assert(hay@.subrange(at as int, at + needle.len())[i as int] != needle@[i as int]);
            return false;
        }
        i += 1;
    }
    assert(hay@.subrange(at as int, at + needle.len()) =~= needle@);
    true
}

/// Whether `hay` begins with `needle`.
pub fn text_starts_with(hay: &Vec<char>, needle: &Vec<char>) -> (r: bool)
    ensures
        r == occurs_at(hay@, needle@, 0),
{
    matches_at(hay, needle, 0)
}

/// Whether `hay` ends with `needle`.
pub fn text_ends_with(hay: &Vec<char>, needle: &Vec<char>) -> (r: bool)
    ensures
        r == (needle@.len() <= hay@.len() && occurs_at(
            hay@,
            needle@,
            hay@.len() - needle@.len(),
        )),
{
    if needle.len() > hay.len() {
        return false;
    }
    matches_at(hay, needle, hay.len() - needle.len())
}

/// Whether `needle` occurs anywhere in `hay`.
pub fn text_contains(hay: &Vec<char>, needle: &Vec<char>) -> (r: bool)
    ensures
        r == occurs_in(hay@, needle@),
{
    if needle.len() > hay.len() {
        return false;
    }
    let last: usize = hay.len() - needle.len();
    let mut at: usize = 0;
    loop
        invariant
            last == hay.len() - needle.len(),
            at <= last,
            forall|k: int| 0 <= k < at ==> !occurs_at(hay@, needle@, k),
        decreases last - at,
    {
        if matches_at(hay, needle, at) {
            return true;
        }
        if at == last {
            return false;
        }
        at += 1;
    }
}

/// The offset of the first `c` in `s`, or the length of `s` when it holds none.
pub open spec fn first_index_of(s: Seq<char>, c: char) -> int
    decreases s.len(),
{
    if s.len() == 0 {
        0
    } else if s[0] == c {
        0
    } else {
        1 + first_index_of(s.drop_first(), c)
    }
}

pub proof fn lemma_first_index_of(s: Seq<char>, c: char)
    ensures
        0 <= first_index_of(s, c) <= s.len(),
        first_index_of(s, c) < s.len() ==> s[first_index_of(s, c)] == c,
        forall|k: int| 0 <= k < first_index_of(s, c) ==> s[k] != c,
    decreases s.len(),
{
    if s.len() > 0 && s[0] != c {
        lemma_first_index_of(s.drop_first(), c);
        let n = first_index_of(s.drop_first(), c);
        assert forall|k: int| 0 <= k < 1 + n implies s[k] != c by {
            if k > 0 {
                assert(s.drop_first()[k - 1] == s[k]);
            }
        }
        if n < s.drop_first().len() {
            assert(s.drop_first()[n] == s[n + 1]);
        }
    }
}

/// An offset below which `s` holds no `c`, and at which it holds one or ends,
/// is the first index of `c`.
pub proof fn lemma_first_index_of_is(s: Seq<char>, c: char, i: int)
    requires
        0 <= i <= s.len(),
        forall|k: int| 0 <= k < i ==> s[k] != c,
        i < s.len() ==> s[i] == c,
    ensures
        first_index_of(s, c) == i,
{
    lemma_first_index_of(s, c);
}

/// The offset of the first `c` at or after `from`, or the length of `s`.
pub fn find_from(s: &Vec<char>, from: usize, c: char) -> (r: usize)
    requires
        from <= s.len(),
    ensures
        r == from + first_index_of(s@.skip(from as int), c),
        from <= r <= s.len(),
{
    let mut i: usize = from;
    while i < s.len() && s[i] != c
        invariant
            from <= i <= s.len(),
            forall|k: int| from <= k < i ==> s@[k] != c,
        decreases s.len() - i,
    {
        i += 1;
    }
    proof {
        let t = s@.skip(from as int);
        assert forall|k: int| 0 <= k < i - from implies t[k] != c by {
            assert(t[k] == s@[from + k]);
        }
        lemma_first_index_of_is(t, c, i - from);
    }
    i
}


/// The pieces of a text between the occurrences of `c`: one more piece than
/// there are occurrences, each possibly empty.
pub open spec fn split(s: Seq<char>, c: char) -> Seq<Seq<char>>
    decreases s.len(),
{
    let i = first_index_of(s, c);
    if 0 <= i < s.len() {
        seq![s.take(i)] + split(s.skip(i + 1), c)
    } else {
        seq![s]
    }
}

/// The texts that a list of character vectors holds.
pub open spec fn parts_view(parts: Seq<Vec<char>>) -> Seq<Seq<char>> {
    Seq::new(parts.len(), |i: int| parts[i]@)
}

/// A copy of the characters from offset `from` up to, not including, `to`.
pub fn slice_of(s: &Vec<char>, from: usize, to: usize) -> (r: Vec<char>)
    requires
        from <= to <= s.len(),
    ensures
        r@ == s@.subrange(from as int, to as int),
{
    let mut out: Vec<char> = Vec::new();
    let mut i: usize = from;
    while i < to
        invariant
            from <= i <= to <= s.len(),
            out@ == s@.subrange(from as int, i as int),
        decreases to - i,
    {
        out.push(s[i]);
        assert(out@ =~= s@.subrange(from as int, i + 1));
        i += 1;
    }
    out
}

/// Cuts a text at every occurrence of `c`.
pub fn split_on(s: &Vec<char>, c: char) -> (r: Vec<Vec<char>>)
    ensures
        parts_view(r@) == split(s@, c),
        r.len() >= 1,
{
    let mut out: Vec<Vec<char>> = Vec::new();
    let mut from: usize = 0;
    assert(s@.skip(0) =~= s@);
    loop
        invariant
            from <= s.len(),
            split(s@, c) == parts_view(out@) + split(s@.skip(from as int), c),
        decreases s.len() - from,
    {
        let at = find_from(s, from, c);
        let ghost rest = s@.skip(from as int);
        let ghost before = parts_view(out@);
        out.push(slice_of(s, from, at));
        proof {
            assert(rest.take(at - from) =~= s@.subrange(from as int, at as int));
            assert(parts_view(out@) =~= before + seq![s@.subrange(from as int, at as int)]);
        }
        if at == s.len() {
            proof {
                assert(rest.take(rest.len() as int) =~= rest);
                assert(split(rest, c) == seq![rest]);
            }
            return out;
        }
        proof {
            assert(rest.skip(at - from + 1) =~= s@.skip(at + 1));
            assert(split(rest, c) == seq![rest.take(at - from)] + split(s@.skip(at + 1), c));
            assert(before + (seq![rest.take(at - from)] + split(s@.skip(at + 1), c)) =~= (before
                + seq![rest.take(at - from)]) + split(s@.skip(at + 1), c));
        }
        from = at + 1;
    }
}


/// The texts that a list of strings holds.
pub open spec fn strings_view(v: Seq<String>) -> Seq<Seq<char>> {
    Seq::new(v.len(), |i: int| v[i]@)
}

/// The text that an optional string holds.
pub open spec fn opt_view(s: Option<String>) -> Option<Seq<char>> {
    match s {
        Some(t) => Some(t@),
        None => None,
    }
}

/// The texts that an optional list of strings holds.
pub open spec fn opt_strings_view(v: Option<Vec<String>>) -> Option<Seq<Seq<char>>> {
    match v {
        Some(t) => Some(strings_view(t@)),
        None => None,
    }
}

/// A copy of an optional string.
pub fn copy_opt(s: &Option<String>) -> (r: Option<String>)
    ensures
        r == *s,
{
    match s {
        Some(t) => Some(t.clone()),
        None => None,
    }
}

/// A copy of a list of strings.
pub fn copy_strings(v: &Vec<String>) -> (r: Vec<String>)
    ensures
        r@ == v@,
{
    let mut out: Vec<String> = Vec::new();
    let mut i: usize = 0;
    while i < v.len()
        invariant
            i <= v.len(),
            out@ == v@.take(i as int),
        decreases v.len() - i,
    {
        out.push(v[i].clone());
        assert(out@ =~= v@.take(i + 1));
        i += 1;
    }
    assert(v@.take(v.len() as int) =~= v@);
    out
}

/// A copy of an optional list of strings.
pub fn copy_opt_strings(v: &Option<Vec<String>>) -> (r: Option<Vec<String>>)
    ensures
        opt_strings_view(r) == opt_strings_view(*v),
{
    match v {
        Some(t) => Some(copy_strings(t)),
        None => None,
    }
}

/// The texts that a list of pairs of strings holds.
pub open spec fn pairs_view(entries: Seq<(String, String)>) -> Seq<(Seq<char>, Seq<char>)> {
    Seq::new(entries.len(), |i: int| (entries[i].0@, entries[i].1@))
}

/// The texts that an optional list of pairs of strings holds.
pub open spec fn opt_pairs_view(entries: Option<Vec<(String, String)>>) -> Option<
    Seq<(Seq<char>, Seq<char>)>,
> {
    match entries {
        Some(e) => Some(pairs_view(e@)),
        None => None,
    }
}

/// The index of the first pair whose key is `key`, or the length of the
/// list.
pub open spec fn pair_index(s: Seq<(Seq<char>, Seq<char>)>, key: Seq<char>) -> int
    decreases s.len(),
{
    if s.len() == 0 {
        0
    } else if s[0].0 == key {
        0
    } else {
        1 + pair_index(s.drop_first(), key)
    }
}

/// The index lies within the list or at its end; the entry at it, if any,
/// is a match, and none before it is.
pub proof fn lemma_pair_index(s: Seq<(Seq<char>, Seq<char>)>, key: Seq<char>)
    ensures
        0 <= pair_index(s, key) <= s.len(),
        pair_index(s, key) < s.len() ==> s[pair_index(s, key)].0 == key,
        forall|k: int| 0 <= k < pair_index(s, key) ==> !((#[trigger] s[k]).0 == key),
    decreases s.len(),
{
    if s.len() > 0 && !(s[0].0 == key) {
        let t = s.drop_first();
        lemma_pair_index(t, key);
        let n = pair_index(t, key);
        assert forall|k: int| 0 <= k < 1 + n implies !((#[trigger] s[k]).0 == key) by {
            if k > 0 {
                assert(t[k - 1] == s[k]);
            }
        }
        if n < t.len() {
            assert(t[n] == s[n + 1]);
        }
    }
}

/// An index before which no entry is a match, and at which one is or the
/// list ends, is the index of the first match.
pub proof fn lemma_pair_index_is(s: Seq<(Seq<char>, Seq<char>)>, key: Seq<char>, i: int)
    requires
        0 <= i <= s.len(),
        forall|k: int| 0 <= k < i ==> !((#[trigger] s[k]).0 == key),
        i < s.len() ==> s[i].0 == key,
    ensures
        pair_index(s, key) == i,
{
    lemma_pair_index(s, key);
}

/// The value that a list of pairs gives for a key: that of the first pair
/// with the key.
pub open spec fn pair_value(pairs: Seq<(Seq<char>, Seq<char>)>, key: Seq<char>) -> Option<
    Seq<char>,
> {
    if pair_index(pairs, key) < pairs.len() {
        Some(pairs[pair_index(pairs, key)].1)
    } else {
        None
    }
}

/// The index of the first pair of strings whose key is `key`, or the length
/// of the list.
pub open spec fn entry_index(entries: Seq<(String, String)>, key: Seq<char>) -> int {
    pair_index(pairs_view(entries), key)
}

/// The value that a list of pairs of strings gives for a key.
pub open spec fn entry_value(entries: Seq<(String, String)>, key: Seq<char>) -> Option<Seq<char>> {
    pair_value(pairs_view(entries), key)
}

/// Looks a key up in a list of pairs.
pub fn find_entry(entries: &Vec<(String, String)>, key: &str) -> (r: Option<usize>)
    ensures
        r is Some == (entry_index(entries@, key@) < entries@.len()),
        r is Some ==> r->0 == entry_index(entries@, key@),
        r is Some ==> entry_value(entries@, key@) == Some(entries@[r->0 as int].1@),
        r is None ==> entry_value(entries@, key@) is None,
{
    let ghost v = pairs_view(entries@);
    let mut i: usize = 0;
    while i < entries.len()
        invariant
            i <= entries.len(),
            v == pairs_view(entries@),
            forall|k: int| 0 <= k < i ==> (#[trigger] v[k]).0 != key@,
        decreases entries.len() - i,
    {
        assert(v[i as int] == (entries@[i as int].0@, entries@[i as int].1@));
        if text_is(entries[i].0.as_str(), key) {
            proof {
                lemma_pair_index_is(v, key@, i as int);
            }
            return Some(i);
        }
        i += 1;
    }
    proof {
        lemma_pair_index_is(v, key@, i as int);
    }
    None
}


/// A list of pairs with `value` under `key`: in the place of the first pair
/// with that key, or at the end where there is none.
pub open spec fn with_pair(pairs: Seq<(Seq<char>, Seq<char>)>, key: Seq<char>, value: Seq<char>) -> Seq<
    (Seq<char>, Seq<char>),
> {
    if pair_index(pairs, key) < pairs.len() {
        pairs.update(pair_index(pairs, key), (key, value))
    } else {
        pairs.push((key, value))
    }
}

/// Sets `value` under `key` in a list of pairs of strings.
pub fn set_entry(entries: &mut Vec<(String, String)>, key: &str, value: &str)
    ensures
        pairs_view(final(entries)@) == with_pair(pairs_view(old(entries)@), key@, value@),
{
    let ghost before = pairs_view(entries@);
    match find_entry(entries, key) {
        Some(i) => {
            entries[i] = (key.to_owned(), value.to_owned());
            assert(pairs_view(entries@) =~= before.update(i as int, (key@, value@)));
        },
        None => {
            entries.push((key.to_owned(), value.to_owned()));
            assert(pairs_view(entries@) =~= before.push((key@, value@)));
        },
    }
}

} // verus!
