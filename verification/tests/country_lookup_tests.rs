use statsig::country_lookup::CountryLookup;
use statsig::json::JsonValue;
use statsig::statsig_user::StatsigUser;

// Codes: "--" (0), "US" (1), "DE" (2), "*" entry (3).
// Ranges, in blocks of 256 addresses:
//   [0, 8.0.0.0)         "--"   count 0x080000 (3 bytes)
//   [8.0.0.0, 9.0.0.0)   "US"   count 0x010000 (3 bytes)
//   [9.0.0.0, 9.0.1.0)   "DE"   count 1        (1 byte)
//   [9.0.1.0, 9.1.1.0)   "US"   count 0x0100   (2 bytes)
fn table() -> Vec<u8> {
    let mut t: Vec<u8> = Vec::new();
    t.extend_from_slice(b"--USDE*.");
    t.extend_from_slice(&[243, 0x00, 0x00, 0x08, 0]);
    t.extend_from_slice(&[243, 0x00, 0x00, 0x01, 1]);
    t.extend_from_slice(&[1, 2]);
    t.extend_from_slice(&[242, 0x00, 0x01, 1]);
    t
}

#[test]
fn new_reads_codes_and_ranges() {
    let lookup = CountryLookup::new(&table());
    assert_eq!(lookup.country_codes, vec!["--", "US", "DE", "US"]);
    assert_eq!(
        lookup.ip_ranges,
        vec![8i64 << 24, 9i64 << 24, (9i64 << 24) + 256, (9i64 << 24) + 256 + 65536]
    );
}

#[test]
fn new_stops_at_a_range_that_is_cut_short() {
    let mut t = table();
    t.extend_from_slice(&[243, 1, 2]);
    let lookup = CountryLookup::new(&t);
    assert_eq!(lookup.ip_ranges.len(), 4);
    let empty = CountryLookup::new(&[]);
    assert!(empty.ip_ranges.is_empty());
    assert!(empty.country_codes.is_empty());
    let odd = CountryLookup::new(b"US*");
    assert!(odd.ip_ranges.is_empty());
}

#[test]
fn new_stops_at_a_code_that_the_table_lacks() {
    let mut t: Vec<u8> = Vec::new();
    t.extend_from_slice(b"US*.");
    t.extend_from_slice(&[1, 0, 1, 7, 1, 0]);
    let lookup = CountryLookup::new(&t);
    assert_eq!(lookup.country_codes, vec!["US"]);
    assert_eq!(lookup.ip_ranges, vec![256]);
}

#[test]
fn a_first_byte_that_announces_nothing_counts_as_zero() {
    let mut t: Vec<u8> = Vec::new();
    t.extend_from_slice(b"US*.");
    t.extend_from_slice(&[2, 0, 240, 0, 255, 0]);
    let lookup = CountryLookup::new(&t);
    assert_eq!(lookup.ip_ranges, vec![512, 512, 512]);
}

#[test]
fn binary_search_counts_the_ranges_that_end_at_or_before() {
    let lookup = CountryLookup::new(&table());
    assert_eq!(lookup.binary_search(0), 0);
    assert_eq!(lookup.binary_search((8i64 << 24) - 1), 0);
    assert_eq!(lookup.binary_search(8i64 << 24), 1);
    assert_eq!(lookup.binary_search((9i64 << 24) - 1), 1);
    assert_eq!(lookup.binary_search(9i64 << 24), 2);
    assert_eq!(lookup.binary_search((9i64 << 24) + 256), 3);
    assert_eq!(lookup.binary_search(i64::MAX), 4);
    assert_eq!(lookup.binary_search(-5), 0);
}

#[test]
fn lookup_numeric_gives_the_code_of_the_range() {
    let lookup = CountryLookup::new(&table());
    assert_eq!(lookup.lookup_numeric(5), None);
    assert_eq!(lookup.lookup_numeric((8i64 << 24) + 0x080808), Some("US".to_string()));
    assert_eq!(lookup.lookup_numeric(9i64 << 24), Some("DE".to_string()));
    assert_eq!(lookup.lookup_numeric((9i64 << 24) + 256), Some("US".to_string()));
    assert_eq!(lookup.lookup_numeric(200i64 << 24), None);
}

#[test]
fn lookup_reads_dotted_quads() {
    let lookup = CountryLookup::new(&table());
    assert_eq!(lookup.lookup("8.8.8.8"), Some("US".to_string()));
    assert_eq!(lookup.lookup("9.0.0.255"), Some("DE".to_string()));
    assert_eq!(lookup.lookup("9.0.1.0"), Some("US".to_string()));
    assert_eq!(lookup.lookup("1.2.3.4"), None);
    assert_eq!(lookup.lookup("200.1.1.1"), None);
    assert_eq!(lookup.lookup("8.8.8"), None);
    assert_eq!(lookup.lookup("8.8.8.8.8"), None);
    assert_eq!(lookup.lookup("8.8.8.x"), None);
    assert_eq!(lookup.lookup("8.8.8.256"), Some("US".to_string()));
    assert_eq!(lookup.lookup("8.8.8.-1"), Some("US".to_string()));
    assert_eq!(lookup.lookup("8.255.255.256"), Some("DE".to_string()));
    assert_eq!(lookup.lookup("0.0.0.150994944"), Some("DE".to_string()));
    assert_eq!(lookup.lookup("-1.0.0.0"), None);
    assert_eq!(lookup.lookup("9223372036854775807.0.0.0"), None);
    assert_eq!(lookup.lookup("9223372036854775808.0.0.0"), None);
    assert_eq!(lookup.lookup("-9223372036854775808.0.0.0"), None);
    assert_eq!(lookup.lookup(""), None);
}

#[test]
fn lookup_number_takes_numbers_of_any_size() {
    let lookup = CountryLookup::new(&table());
    assert_eq!(lookup.lookup_number((8i128 << 24) + 5), Some("US".to_string()));
    assert_eq!(lookup.lookup_number(i128::MAX), None);
    assert_eq!(lookup.lookup_number(i128::MIN), None);
    let mut t: Vec<u8> = Vec::new();
    t.extend_from_slice(b"NZ*.");
    t.extend_from_slice(&[1, 0]);
    let first = CountryLookup::new(&t);
    assert_eq!(first.lookup_number(i128::MIN), Some("NZ".to_string()));
    assert_eq!(first.lookup("-5.0.0.0"), Some("NZ".to_string()));
    assert_eq!(first.lookup_number(255), Some("NZ".to_string()));
    assert_eq!(first.lookup_number(256), None);
}

#[test]
fn get_value_from_ip_answers_for_the_country_field_only() {
    let lookup = CountryLookup::new(&table());
    let mut user = StatsigUser::with_user_id("u".to_string());
    user.ip = Some("8.8.8.8".to_string());
    let country = lookup.get_value_from_ip(&user, &Some("country".to_string()));
    assert!(country.equals(&JsonValue::String("US".to_string())));
    assert!(lookup.get_value_from_ip(&user, &Some("Country".to_string())).equals(&JsonValue::Null));
    assert!(lookup.get_value_from_ip(&user, &Some("city".to_string())).equals(&JsonValue::Null));
    assert!(lookup.get_value_from_ip(&user, &None).equals(&JsonValue::Null));
    user.ip = None;
    assert!(lookup.get_value_from_ip(&user, &Some("country".to_string())).equals(&JsonValue::Null));
    user.ip = Some("1.2.3.4".to_string());
    assert!(lookup.get_value_from_ip(&user, &Some("country".to_string())).equals(&JsonValue::Null));
}
