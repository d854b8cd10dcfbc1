use std::collections::hash_map::DefaultHasher;
use std::hash::{Hash, Hasher};

use watchlist::decimal::{parse_i64, parse_u32};
use watchlist::fields::split_fields;
use watchlist::film::{parse_film, validate, Film, ValidationError, YEAR_MAX, YEAR_MIN};
use watchlist::fingerprint::{sha, to_hex, ID_LENGTH};
use watchlist::text::{chars_of, has_prefix};

fn dune() -> Film {
    Film::new("Dune", 1965, "https://example.com/dune").unwrap()
}

#[derive(Hash)]
struct Fields {
    title: String,
    year: u32,
    url: String,
}

/// The identifier as the derived `Hash` of the three fields gives it.
fn derived_id(title: &str, year: u32, url: &str) -> String {
    let fields = Fields { title: title.to_string(), year, url: url.to_string() };
    let mut hasher = DefaultHasher::new();
    fields.hash(&mut hasher);
    let bytes = hasher.finish().to_be_bytes();
    format!("{:02x}{:02x}{:02x}", bytes[0], bytes[1], bytes[2])
}

#[test]
fn film_keeps_its_fields() {
    let film = dune();
    assert_eq!(film.title(), "Dune");
    assert_eq!(film.year(), 1965);
    assert_eq!(film.url(), "https://example.com/dune");
    assert_eq!(film.clone(), film);
}

#[test]
fn year_boundaries() {
    assert_eq!(YEAR_MIN, 1800);
    assert_eq!(YEAR_MAX, 2140);
    assert_eq!(Film::new("t", 1799, "https://x"), Err(ValidationError::InvalidYear));
    assert_eq!(Film::new("t", 2141, "https://x"), Err(ValidationError::InvalidYear));
    assert!(Film::new("t", 1800, "https://x").is_ok());
    assert!(Film::new("t", 2140, "https://x").is_ok());
    assert_eq!(Film::new("t", 0, "https://x"), Err(ValidationError::InvalidYear));
    assert_eq!(Film::new("t", u32::MAX, "https://x"), Err(ValidationError::InvalidYear));
}

#[test]
fn url_must_be_secure() {
    assert_eq!(Film::new("t", 1965, "http://x"), Err(ValidationError::InsecureUrl));
    assert!(Film::new("t", 1965, "https://x").is_ok());
    assert!(Film::new("t", 1965, "https://").is_ok());
    assert_eq!(Film::new("t", 1965, "https:/"), Err(ValidationError::InsecureUrl));
    assert_eq!(Film::new("t", 1965, ""), Err(ValidationError::InsecureUrl));
    assert_eq!(Film::new("t", 1965, "HTTPS://x"), Err(ValidationError::InsecureUrl));
    assert_eq!(Film::new("t", 1965, " https://x"), Err(ValidationError::InsecureUrl));
}

#[test]
fn year_is_judged_before_url() {
    assert_eq!(Film::new("t", 1799, "http://x"), Err(ValidationError::InvalidYear));
    assert_eq!(validate("t", "1799", "http://x"), Err(ValidationError::InvalidYear));
    assert_eq!(validate("t", "year", "http://x"), Err(ValidationError::InvalidYear));
}

#[test]
fn validate_reads_the_year() {
    let film = validate("Dune", "1965", "https://example.com/dune").unwrap();
    assert_eq!(film, dune());
    assert_eq!(validate("t", "1800", "https://x").unwrap().year(), 1800);
    assert_eq!(validate("t", "2140", "https://x").unwrap().year(), 2140);
    assert_eq!(validate("t", "+1965", "https://x").unwrap().year(), 1965);
    assert_eq!(validate("t", "001965", "https://x").unwrap().year(), 1965);
    assert_eq!(validate("t", "1799", "https://x"), Err(ValidationError::InvalidYear));
    assert_eq!(validate("t", "2141", "https://x"), Err(ValidationError::InvalidYear));
    assert_eq!(validate("t", "", "https://x"), Err(ValidationError::InvalidYear));
    assert_eq!(validate("t", " 1965", "https://x"), Err(ValidationError::InvalidYear));
    assert_eq!(validate("t", "1965 ", "https://x"), Err(ValidationError::InvalidYear));
    assert_eq!(validate("t", "-1965", "https://x"), Err(ValidationError::InvalidYear));
    assert_eq!(validate("t", "19.65", "https://x"), Err(ValidationError::InvalidYear));
    assert_eq!(validate("t", "99999999999", "https://x"), Err(ValidationError::InvalidYear));
    assert_eq!(validate("t", "1965", "http://x"), Err(ValidationError::InsecureUrl));
}

#[test]
fn payload_needs_three_fields() {
    assert_eq!(parse_film("Dune,,,1965,,,https://example.com/dune"), Ok(dune()));
    assert_eq!(parse_film(""), Err(ValidationError::MalformedInput));
    assert_eq!(parse_film("Dune"), Err(ValidationError::MalformedInput));
    assert_eq!(parse_film("Dune,,,1965"), Err(ValidationError::MalformedInput));
    assert_eq!(
        parse_film("Dune,,,1965,,,https://x,,,more"),
        Err(ValidationError::MalformedInput)
    );
    assert_eq!(parse_film("Dune,1965,https://x"), Err(ValidationError::MalformedInput));
    assert_eq!(parse_film("Dune,,1965,,https://x"), Err(ValidationError::MalformedInput));
}

#[test]
fn payload_rules_are_checked_in_order() {
    assert_eq!(parse_film("a,,,b"), Err(ValidationError::MalformedInput));
    assert_eq!(parse_film("a,,,b,,,c"), Err(ValidationError::InvalidYear));
    assert_eq!(parse_film("a,,,1799,,,c"), Err(ValidationError::InvalidYear));
    assert_eq!(parse_film("a,,,1965,,,c"), Err(ValidationError::InsecureUrl));
    assert!(parse_film("a,,,1965,,,https://c").is_ok());
}

#[test]
fn payload_fields_are_taken_as_they_are() {
    let film = parse_film(",,,1965,,,https://x").unwrap();
    assert_eq!(film.title(), "");
    let film = parse_film("A, B,,,2000,,,https://x/,y").unwrap();
    assert_eq!(film.title(), "A, B");
    assert_eq!(film.url(), "https://x/,y");
    let film = parse_film("Amélie 🎬,,,2001,,,https://x").unwrap();
    assert_eq!(film.title(), "Amélie 🎬");
    // a fourth comma belongs to the field that follows
    assert_eq!(parse_film("a,,,,1965,,,https://x"), Err(ValidationError::InvalidYear));
    let film = parse_film("a,,,1965,,,,https://x");
    assert_eq!(film, Err(ValidationError::InsecureUrl));
}

#[test]
fn split_fields_examples() {
    assert_eq!(split_fields(""), vec![""]);
    assert_eq!(split_fields("abc"), vec!["abc"]);
    assert_eq!(split_fields(",,,"), vec!["", ""]);
    assert_eq!(split_fields("a,,,b"), vec!["a", "b"]);
    assert_eq!(split_fields("a,,,,b"), vec!["a", ",b"]);
    assert_eq!(split_fields("a,,,,,b"), vec!["a", ",,b"]);
    assert_eq!(split_fields("a,,,,,,b"), vec!["a", "", "b"]);
    assert_eq!(split_fields("a,,b"), vec!["a,,b"]);
    assert_eq!(split_fields(",,,a,,,"), vec!["", "a", ""]);
    assert_eq!(split_fields("é,,,ü"), vec!["é", "ü"]);
}

#[test]
fn split_fields_agrees_with_str_split() {
    let samples = [
        "", ",", ",,", ",,,", ",,,,", ",,,,,", ",,,,,,", ",,,,,,,", "a", "a,", "a,,", "a,,,",
        "a,,,b", "a,,,b,,,c", "a,,,b,,,c,,,d", ",,,a", "x,,,,y", "x,,,,,,y", "一,,,二,,,三",
        "Dune,,,1965,,,https://example.com/dune", "a,b,,c,,,d,,,,e",
    ];
    for sample in samples {
        let expected: Vec<String> = sample.split(",,,").map(|s| s.to_string()).collect();
        assert_eq!(split_fields(sample), expected, "{:?}", sample);
    }
}

#[test]
fn fields_join_to_the_text() {
    let samples = ["", ",,,", "a,,,b", "a,,,,b", ",,,,,,", "x,,y,,,z,", "Dune,,,1965,,,https://x"];
    for sample in samples {
        assert_eq!(split_fields(sample).join(",,,"), sample);
    }
}

#[test]
fn parse_u32_examples() {
    assert_eq!(parse_u32("0"), Some(0));
    assert_eq!(parse_u32("1965"), Some(1965));
    assert_eq!(parse_u32("+7"), Some(7));
    assert_eq!(parse_u32("007"), Some(7));
    assert_eq!(parse_u32("4294967295"), Some(u32::MAX));
    assert_eq!(parse_u32("4294967296"), None);
    assert_eq!(parse_u32("00000000004294967295"), Some(u32::MAX));
    assert_eq!(parse_u32("99999999999999999999999999999999999999999"), None);
    assert_eq!(parse_u32(""), None);
    assert_eq!(parse_u32("+"), None);
    assert_eq!(parse_u32("-"), None);
    assert_eq!(parse_u32("-0"), None);
    assert_eq!(parse_u32("-1"), None);
    assert_eq!(parse_u32("++1"), None);
    assert_eq!(parse_u32("1+"), None);
    assert_eq!(parse_u32("1 "), None);
    assert_eq!(parse_u32(" 1"), None);
    assert_eq!(parse_u32("1_000"), None);
    assert_eq!(parse_u32("0x10"), None);
    assert_eq!(parse_u32("１２"), None);
    assert_eq!(parse_u32("12a"), None);
}

#[test]
fn parse_i64_examples() {
    assert_eq!(parse_i64("0"), Some(0));
    assert_eq!(parse_i64("-0"), Some(0));
    assert_eq!(parse_i64("+0"), Some(0));
    assert_eq!(parse_i64("42"), Some(42));
    assert_eq!(parse_i64("-42"), Some(-42));
    assert_eq!(parse_i64("+42"), Some(42));
    assert_eq!(parse_i64("9223372036854775807"), Some(i64::MAX));
    assert_eq!(parse_i64("9223372036854775808"), None);
    assert_eq!(parse_i64("-9223372036854775808"), Some(i64::MIN));
    assert_eq!(parse_i64("-9223372036854775809"), None);
    assert_eq!(parse_i64("-009223372036854775808"), Some(i64::MIN));
    assert_eq!(parse_i64(""), None);
    assert_eq!(parse_i64("-"), None);
    assert_eq!(parse_i64("+"), None);
    assert_eq!(parse_i64("--1"), None);
    assert_eq!(parse_i64("+-1"), None);
    assert_eq!(parse_i64("-+1"), None);
    assert_eq!(parse_i64("1-"), None);
    assert_eq!(parse_i64("- 1"), None);
}

#[test]
fn parsers_agree_with_from_str() {
    let samples = [
        "", "0", "1", "+1", "-1", "+", "-", "++1", "--1", "+-1", "00", "0123", "1799", "1800",
        "2140", "2141", "4294967295", "4294967296", "9223372036854775807",
        "9223372036854775808", "-9223372036854775808", "-9223372036854775809",
        "18446744073709551615", "18446744073709551616", "340282366920938463463374607431768211456",
        " 1", "1 ", "1a", "a1", "1.0", "1e3", "١٢٣", "-", "0x1f", "1_0", "\n1",
    ];
    for sample in samples {
        assert_eq!(parse_u32(sample), sample.parse::<u32>().ok(), "{:?}", sample);
        assert_eq!(parse_i64(sample), sample.parse::<i64>().ok(), "{:?}", sample);
    }
}

#[test]
fn text_helpers() {
    assert_eq!(chars_of("aé🎬"), vec!['a', 'é', '🎬']);
    assert_eq!(chars_of(""), Vec::<char>::new());
    assert!(has_prefix("https://x", "https://"));
    assert!(has_prefix("abc", ""));
    assert!(has_prefix("", ""));
    assert!(has_prefix("abc", "abc"));
    assert!(!has_prefix("ab", "abc"));
    assert!(!has_prefix("xbc", "abc"));
    assert!(!has_prefix("", "a"));
    assert!(has_prefix("éa", "é"));
}

#[test]
fn to_hex_examples() {
    assert_eq!(to_hex(&[]), "");
    assert_eq!(to_hex(&[0x00]), "00");
    assert_eq!(to_hex(&[0x0a]), "0a");
    assert_eq!(to_hex(&[0xa0]), "a0");
    assert_eq!(to_hex(&[0x00, 0xab, 0xff]), "00abff");
    assert_eq!(to_hex(&[0x01, 0x23, 0x45, 0x67, 0x89, 0xab, 0xcd, 0xef]), "0123456789abcdef");
    for b in 0..=255u8 {
        assert_eq!(to_hex(&[b]), format!("{:02x}", b));
    }
}

#[test]
fn fingerprint_is_six_hex_digits() {
    let id = sha(&dune());
    assert_eq!(ID_LENGTH, 6);
    assert_eq!(id.len(), 6);
    assert!(id.chars().all(|c| c.is_ascii_digit() || ('a'..='f').contains(&c)));
}

#[test]
fn fingerprint_of_dune() {
    assert_eq!(sha(&dune()), "540100");
    assert_eq!(sha(&dune()), derived_id("Dune", 1965, "https://example.com/dune"));
}

#[test]
fn fingerprint_is_deterministic() {
    assert_eq!(sha(&dune()), sha(&dune()));
    let again = Film::new("Dune", 1965, "https://example.com/dune").unwrap();
    assert_eq!(sha(&dune()), sha(&again));
    assert_eq!(sha(&dune()), sha(&dune().clone()));
}

#[test]
fn fingerprint_reads_every_field() {
    let base = sha(&Film::new("Alien", 1979, "https://example.com/alien").unwrap());
    let other_title = sha(&Film::new("Aliens", 1979, "https://example.com/alien").unwrap());
    let other_year = sha(&Film::new("Alien", 1986, "https://example.com/alien").unwrap());
    let other_url = sha(&Film::new("Alien", 1979, "https://example.com/aliens").unwrap());
    assert_ne!(base, other_title);
    assert_ne!(base, other_year);
    assert_ne!(base, other_url);
    // moving a character from the title to the address changes the film
    let a = sha(&Film::new("ab", 1979, "https://c").unwrap());
    let b = sha(&Film::new("abh", 1979, "https://c").unwrap());
    assert_ne!(a, b);
}

#[test]
fn fingerprint_is_the_derived_hash() {
    let films = [
        ("Dune", 1965, "https://example.com/dune"),
        ("", 1800, "https://"),
        ("Amélie 🎬", 2001, "https://example.com/amélie"),
        ("Metropolis", 1927, "https://example.com/metropolis?x=1&y=2"),
        ("2001: A Space Odyssey", 1968, "https://example.com/2001"),
        ("Blade Runner 2049", 2140, "https://example.com/br"),
    ];
    for (title, year, url) in films {
        let film = Film::new(title, year, url).unwrap();
        assert_eq!(sha(&film), derived_id(title, year, url), "{:?}", title);
    }
}
