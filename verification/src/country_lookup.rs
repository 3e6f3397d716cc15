//! The country that an IPv4 address belongs to, looked up in a packed table
//! of address ranges.
//!
//! The table opens with the country codes, two bytes each, up to and
//! including one that begins with `*`. Then come the ranges: a count of
//! blocks of 256 addresses, then the index of the range's country code. A
//! count below 240 is one byte; the byte 242 announces a count of two bytes,
//! the byte 243 one of three, least significant byte first; any other first
//! byte counts as zero.

use crate::decimal::{integer_of, parse_i64};
use crate::json::{JsonValue, JsonView};
use crate::statsig_user::{StatsigUser, UserView};
use crate::text::{chars_of, parts_view, split, split_on, string_of, strings_view};
use vstd::prelude::*;

verus! {

/// The text of a country code: its two bytes as characters.
pub open spec fn code_text(b0: u8, b1: u8) -> Seq<char> {
    seq![b0 as char, b1 as char]
}

/// The country codes that the table opens with, read from offset `i` on
/// behind the codes `acc`, and the offset behind them.
pub open spec fn read_codes(bytes: Seq<u8>, i: int, acc: Seq<Seq<char>>) -> (Seq<Seq<char>>, int)
    decreases bytes.len() - i,
{
    if i < 0 || i + 1 >= bytes.len() {
        (acc, i)
    } else if bytes[i] == 42 {
        (acc.push(code_text(bytes[i], bytes[i + 1])), i + 2)
    } else {
        read_codes(bytes, i + 2, acc.push(code_text(bytes[i], bytes[i + 1])))
    }
}

/// The number of bytes that follow the first byte of a count.
pub open spec fn count_extra(first: u8) -> int {
    if first == 242 {
        2
    } else if first == 243 {
        3
    } else {
        0
    }
}

/// The count that begins at offset `i`.
pub open spec fn count_at(bytes: Seq<u8>, i: int) -> int {
    let first = bytes[i];
    if first < 240 {
        first as int
    } else if first == 242 {
        bytes[i + 1] + bytes[i + 2] * 256
    } else if first == 243 {
        bytes[i + 1] + bytes[i + 2] * 256 + bytes[i + 3] * 65536
    } else {
        0
    }
}

/// The ranges of a table: the first address behind each range, and the
/// country code of each.
pub struct RangeTable {
    pub ends: Seq<i64>,
    pub codes: Seq<Seq<char>>,
}

/// The ranges read from offset `i` on, behind those of `acc`, where the
/// last range ended at `last_end`. Reading stops at the end of the table
/// and at a range that is cut short, names no country code of the table or
/// would end beyond the largest `i64`.
pub open spec fn read_ranges(
    bytes: Seq<u8>,
    codes: Seq<Seq<char>>,
    i: int,
    last_end: int,
    acc: RangeTable,
) -> RangeTable
    decreases bytes.len() - i,
{
    if i < 0 || i + 1 >= bytes.len() {
        acc
    } else {
        let at = i + 1 + count_extra(bytes[i]);
        if at >= bytes.len() {
            acc
        } else {
            let end = last_end + count_at(bytes, i) * 256;
            let code = bytes[at] as int;
            if end > i64::MAX || code >= codes.len() {
                acc
            } else {
                read_ranges(
                    bytes,
                    codes,
                    at + 1,
                    end,
                    RangeTable { ends: acc.ends.push(end as i64), codes: acc.codes.push(codes[code]) },
                )
            }
        }
    }
}

/// The ranges that a packed table holds.
pub open spec fn table_of(bytes: Seq<u8>) -> RangeTable {
    let (codes, at) = read_codes(bytes, 0, Seq::empty());
    read_ranges(bytes, codes, at, 0, RangeTable { ends: Seq::empty(), codes: Seq::empty() })
}

pub open spec fn sorted(s: Seq<i64>) -> bool {
    forall|i: int, j: int| 0 <= i <= j < s.len() ==> s[i] <= s[j]
}

pub struct CountryLookup {
    pub country_codes: Vec<String>,
    pub ip_ranges: Vec<i64>,
}

impl View for CountryLookup {
    type V = RangeTable;

    open spec fn view(&self) -> RangeTable {
        RangeTable { ends: self.ip_ranges@, codes: strings_view(self.country_codes@) }
    }
}

/// The integer of 64 bits that one part of an address spells.
pub open spec fn part_value(s: Seq<char>) -> Option<int> {
    match integer_of(s) {
        Some(v) => if i64::MIN <= v <= i64::MAX {
            Some(v)
        } else {
            None
        },
        None => None,
    }
}

/// The number of an address in dotted-quad form: of four parts that each
/// spell an integer of 64 bits, the first times 2^24, the second times 2^16,
/// the third times 2^8 and the fourth, added up. `None` for any other text.
pub open spec fn ip_number(ip: Seq<char>) -> Option<int> {
    let parts = split(ip, '.');
    if parts.len() != 4 {
        None
    } else {
        match (part_value(parts[0]), part_value(parts[1]), part_value(parts[2]), part_value(parts[3])) {
            (Some(a), Some(b), Some(c), Some(d)) => Some(a * 16777216 + b * 65536 + c * 256 + d),
            _ => None,
        }
    }
}

/// The index of the range that holds `value`: the number of ranges that
/// end at or before it.
pub open spec fn range_index(ends: Seq<i64>, value: int) -> int
    decreases ends.len(),
{
    if ends.len() == 0 {
        0
    } else if ends.last() <= value {
        ends.len() as int
    } else {
        range_index(ends.drop_last(), value)
    }
}

pub proof fn lemma_range_index(ends: Seq<i64>, value: int)
    requires
        sorted(ends),
    ensures
        0 <= range_index(ends, value) <= ends.len(),
        forall|k: int| 0 <= k < range_index(ends, value) ==> ends[k] <= value,
        forall|k: int| range_index(ends, value) <= k < ends.len() ==> ends[k] > value,
    decreases ends.len(),
{
    if ends.len() > 0 && ends.last() > value {
        let t = ends.drop_last();
        assert forall|i: int, j: int| 0 <= i <= j < t.len() implies t[i] <= t[j] by {
            assert(ends[i] <= ends[j]);
        }
        lemma_range_index(t, value);
        assert forall|k: int| 0 <= k < range_index(t, value) implies ends[k] <= value by {
            assert(t[k] == ends[k]);
        }
        assert forall|k: int| range_index(t, value) <= k < ends.len() implies ends[k] > value by {
            if k < t.len() {
                assert(t[k] == ends[k]);
            }
        }
    }
}

/// The country code that a table gives for an address number: that of the
/// first range that ends behind it, unless there is none or its code is
/// `--`.
pub open spec fn country_of(table: RangeTable, ip: int) -> Option<Seq<char>> {
    let index = range_index(table.ends, ip);
    if index >= table.codes.len() || table.codes[index] == "--"@ {
        None
    } else {
        Some(table.codes[index])
    }
}

/// The country of an address in dotted-quad form.
pub open spec fn country_of_ip(table: RangeTable, ip: Seq<char>) -> Option<Seq<char>> {
    match ip_number(ip) {
        Some(n) => country_of(table, n),
        None => None,
    }
}

/// The value that the table gives for a field of the user: the country of
/// the user's address where the field is `country`, the user has an address
/// and the table knows it; else null.
pub open spec fn ip_value(table: RangeTable, user: UserView, field: Option<Seq<char>>) -> JsonView {
    match (field, user.ip) {
        (Some(f), Some(ip)) => if f == "country"@ {
            match country_of_ip(table, ip) {
                Some(cc) => JsonView::String(cc),
                None => JsonView::Null,
            }
        } else {
            JsonView::Null
        },
        _ => JsonView::Null,
    }
}

impl CountryLookup {
    /// The ranges end in ascending order, and each has its country code.
    pub open spec fn wf(&self) -> bool {
        &&& self.country_codes@.len() == self.ip_ranges@.len()
        &&& sorted(self.ip_ranges@)
        &&& forall|i: int| 0 <= i < self.ip_ranges@.len() ==> self.ip_ranges@[i] >= 0
    }

    /// Reads a packed table.
    pub fn new(bytes: &[u8]) -> (r: Self)
        ensures
            r.wf(),
            r@ == table_of(bytes@),
    {
        let n = bytes.len();
        let mut raw_code_lookup: Vec<Vec<char>> = Vec::new();
        let mut i: usize = 0;
        let mut done = false;
        assert(parts_view(raw_code_lookup@) =~= Seq::empty());
        while !done && i < n && n - i >= 2
            invariant
                n == bytes@.len(),
                i <= n,
                !done ==> read_codes(bytes@, 0, Seq::empty()) == read_codes(
                    bytes@,
                    i as int,
                    parts_view(raw_code_lookup@),
                ),
                done ==> read_codes(bytes@, 0, Seq::empty()) == (
                    parts_view(raw_code_lookup@),
                    i as int,
                ),
                forall|k: int| 0 <= k < raw_code_lookup@.len() ==> raw_code_lookup@[k]@.len() == 2,
            decreases n - i + if done { 0int } else { 1int },
        {
            let c1 = bytes[i];
            let c2 = bytes[i + 1];
            let ghost before = parts_view(raw_code_lookup@);
            let mut code: Vec<char> = Vec::new();
            code.push(c1 as char);
            code.push(c2 as char);
            assert(code@ =~= code_text(c1, c2));
            raw_code_lookup.push(code);
            assert(parts_view(raw_code_lookup@) =~= before.push(code_text(c1, c2)));
            i += 2;
            if c1 == 42 {
                done = true;
            }
        }
        let ghost codes = parts_view(raw_code_lookup@);
        let ghost start = i as int;
        assert(read_codes(bytes@, 0, Seq::empty()) == (codes, start));
        let mut country_codes: Vec<String> = Vec::new();
        let mut ip_ranges: Vec<i64> = Vec::new();
        let mut last_end_range: i64 = 0;
        let mut stop = false;
        assert(strings_view(country_codes@) =~= Seq::empty());
        while !stop && i < n && n - i >= 2
            invariant
                n == bytes@.len(),
                i <= n,
                codes == parts_view(raw_code_lookup@),
                0 <= last_end_range,
                country_codes@.len() == ip_ranges@.len(),
                sorted(ip_ranges@),
                forall|k: int|
                    0 <= k < ip_ranges@.len() ==> 0 <= #[trigger] ip_ranges@[k] && ip_ranges@[k]
                        <= last_end_range,
                !stop ==> table_of(bytes@) == read_ranges(
                    bytes@,
                    codes,
                    i as int,
                    last_end_range as int,
                    RangeTable { ends: ip_ranges@, codes: strings_view(country_codes@) },
                ),
                stop ==> table_of(bytes@) == (RangeTable {
                    ends: ip_ranges@,
                    codes: strings_view(country_codes@),
                }),
            decreases n - i + if stop { 0int } else { 1int },
        {
            let n1 = bytes[i];
            let extra: usize = if n1 == 242 {
                2
            } else if n1 == 243 {
                3
            } else {
                0
            };
            if n - i - 1 <= extra {
                stop = true;
            } else {
                let count: i64 = if n1 < 240 {
                    n1 as i64
                } else if n1 == 242 {
                    bytes[i + 1] as i64 + bytes[i + 2] as i64 * 256
                } else if n1 == 243 {
                    bytes[i + 1] as i64 + bytes[i + 2] as i64 * 256 + bytes[i + 3] as i64 * 65536
                } else {
                    0
                };
                let cc = bytes[i + 1 + extra] as usize;
                if count * 256 > i64::MAX - last_end_range || cc >= raw_code_lookup.len() {
                    stop = true;
                } else {
                    let ghost before_codes = strings_view(country_codes@);
                    let ghost before_ends = ip_ranges@;
                    last_end_range = last_end_range + count * 256;
                    ip_ranges.push(last_end_range);
                    country_codes.push(string_of(&raw_code_lookup[cc]));
                    i = i + 2 + extra;
                    proof {
                        assert(codes[cc as int] == raw_code_lookup@[cc as int]@);
                        assert(strings_view(country_codes@) =~= before_codes.push(codes[cc as int]));
                        assert forall|a: int, b: int| 0 <= a <= b < ip_ranges@.len() implies ip_ranges@[a]
                            <= ip_ranges@[b] by {
                            if b < before_ends.len() {
                                assert(before_ends[a] <= before_ends[b]);
                            }
                        }
                    }
                }
            }
        }
        CountryLookup { country_codes, ip_ranges }
    }

    /// The number of ranges that end at or before `value`.
    pub fn binary_search(&self, value: i64) -> (r: usize)
        requires
            self.wf(),
        ensures
            r == range_index(self.ip_ranges@, value as int),
            r <= self.ip_ranges@.len(),
    {
        let mut min: usize = 0;
        let mut max: usize = self.ip_ranges.len();
        proof {
            lemma_range_index(self.ip_ranges@, value as int);
        }
        while min < max
            invariant
                min <= max <= self.ip_ranges@.len(),
                sorted(self.ip_ranges@),
                forall|k: int| 0 <= k < min ==> self.ip_ranges@[k] <= value,
                forall|k: int| max <= k < self.ip_ranges@.len() ==> self.ip_ranges@[k] > value,
            decreases max - min,
        {
            let mid: usize = min + (max - min) / 2;
            if self.ip_ranges[mid] <= value {
                min = mid + 1;
            } else {
                max = mid;
            }
        }
        proof {
            lemma_range_index_is(self.ip_ranges@, value as int, min as int);
        }
        min
    }

    /// The value that the table gives for a field of the user.
    pub fn get_value_from_ip(&self, user: &StatsigUser, field: &Option<String>) -> (r: JsonValue)
        requires
            self.wf(),
        ensures
            r@ == ip_value(self@, user@, crate::text::opt_view(*field)),
    {
        let unwrapped_field = match field {
            Some(f) => f,
            None => {
                return JsonValue::Null;
            },
        };
        if !crate::text::text_is(unwrapped_field.as_str(), "country") {
            return JsonValue::Null;
        }
        let ip = match &user.ip {
            Some(ip) => ip,
            None => {
                return JsonValue::Null;
            },
        };
        match self.lookup(ip.as_str()) {
            Some(cc) => JsonValue::String(cc),
            None => JsonValue::Null,
        }
    }

    /// The country code of an address number.
    pub fn lookup_numeric(&self, ip_address: i64) -> (r: Option<String>)
        requires
            self.wf(),
        ensures
            crate::text::opt_view(r) == country_of(self@, ip_address as int),
    {
        let index = self.binary_search(ip_address);
        if index >= self.country_codes.len() {
            return None;
        }
        assert(strings_view(self.country_codes@)[index as int] == self.country_codes@[index as int]@);
        let cc = self.country_codes[index].clone();
        if crate::text::text_is(cc.as_str(), "--") {
            return None;
        }
        Some(cc)
    }

    /// The country code of an IPv4 address in dotted-quad form.
    pub fn lookup(&self, ip_address: &str) -> (r: Option<String>)
        requires
            self.wf(),
        ensures
            crate::text::opt_view(r) == country_of_ip(self@, ip_address@),
    {
        let parts = split_on(&chars_of(ip_address), '.');
        if parts.len() != 4 {
            return None;
        }
        assert(parts_view(parts@)[0] == parts@[0]@);
        assert(parts_view(parts@)[1] == parts@[1]@);
        assert(parts_view(parts@)[2] == parts@[2]@);
        assert(parts_view(parts@)[3] == parts@[3]@);
        let n0 = parse_i64(&parts[0]);
        let n1 = parse_i64(&parts[1]);
        let n2 = parse_i64(&parts[2]);
        let n3 = parse_i64(&parts[3]);
        match (n0, n1, n2, n3) {
            (Some(a), Some(b), Some(c), Some(d)) => {
                let number: i128 = a as i128 * 16777216 + b as i128 * 65536 + c as i128 * 256
                    + d as i128;
                self.lookup_number(number)
            },
            _ => None,
        }
    }

    /// The country code of an address number of any size: none for a number
    /// beyond every range.
    pub fn lookup_number(&self, number: i128) -> (r: Option<String>)
        requires
            self.wf(),
        ensures
            crate::text::opt_view(r) == country_of(self@, number as int),
    {
        let within: i64 = if number > 0x7fff_ffff_ffff_ffff {
            0x7fff_ffff_ffff_ffff
        } else if number < -0x8000_0000_0000_0000 {
            -0x8000_0000_0000_0000
        } else {
            number as i64
        };
        proof {
            lemma_range_index(self.ip_ranges@, within as int);
            lemma_range_index_is(
                self.ip_ranges@,
                number as int,
                range_index(self.ip_ranges@, within as int),
            );
        }
        self.lookup_numeric(within)
    }
}

proof fn lemma_range_index_is(ends: Seq<i64>, value: int, r: int)
    requires
        sorted(ends),
        0 <= r <= ends.len(),
        forall|k: int| 0 <= k < r ==> ends[k] <= value,
        forall|k: int| r <= k < ends.len() ==> ends[k] > value,
    ensures
        r == range_index(ends, value),
{
    lemma_range_index(ends, value);
    let x = range_index(ends, value);
    if x < r {
        assert(ends[x] <= value);
    } else if x > r {
        assert(ends[r] > value);
    }
}

} // verus!
