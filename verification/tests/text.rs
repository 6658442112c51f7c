use shadow_rs::date::{civil_from_seconds, format_utc, CivilTime, MAX_SECONDS};
use shadow_rs::metadata::keys_match;
use shadow_rs::text::{
    chars_of, check_identifier, check_literal_safe, check_one_line, escape, has_suffix,
    to_ascii_upper, to_one_line, to_upper_char, trim_end,
};
use shadow_rs::value::{ConstKind, ConstMessage};

#[test]
fn upper_casing_touches_ascii_letters_only() {
    assert_eq!(to_ascii_upper("commit_hash"), "COMMIT_HASH");
    assert_eq!(to_ascii_upper("Pkg_Version9"), "PKG_VERSION9");
    assert_eq!(to_ascii_upper(""), "");
    assert_eq!(to_ascii_upper("aéz{`ß"), "AéZ{`ß");
    assert_eq!(to_upper_char('a'), 'A');
    assert_eq!(to_upper_char('z'), 'Z');
    assert_eq!(to_upper_char('A'), 'A');
    assert_eq!(to_upper_char('`'), '`');
    assert_eq!(to_upper_char('{'), '{');
    assert_eq!(to_ascii_upper("mixed Case"), "mixed Case".to_ascii_uppercase());
}

#[test]
fn keys_are_compared_in_upper_case() {
    assert!(keys_match("branch", "BRANCH"));
    assert!(keys_match("Branch", "bRANCH"));
    assert!(!keys_match("branch", "branches"));
    assert!(!keys_match("branch", "brunch"));
    assert!(keys_match("", ""));
}

#[test]
fn identifier_keys() {
    for good in ["a", "_", "A1", "commit_hash", "_9", "Z_z_0"] {
        assert!(check_identifier(good));
    }
    for bad in ["", "1a", "a-b", "a b", "é", "a.b", "key\n", "9"] {
        assert!(!check_identifier(bad));
    }
}

#[test]
fn one_line_texts() {
    assert!(check_one_line(""));
    assert!(check_one_line("display current branch"));
    assert!(!check_one_line("two\nlines"));
    assert!(!check_one_line("carriage\rreturn"));
    assert!(!check_one_line("\n"));
    assert_eq!(to_one_line("two\nlines\r\nand more"), "two lines  and more");
    assert_eq!(to_one_line("plain"), "plain");
}

#[test]
fn escaping_values() {
    assert_eq!(escape("plain text"), "plain text");
    assert_eq!(escape(""), "");
    assert_eq!(escape("a\"b"), "a\\\"b");
    assert_eq!(escape("back\\slash"), "back\\\\slash");
    assert_eq!(escape("line\nbreak\r"), "line\\nbreak\\r");
    assert_eq!(escape("\\\""), "\\\\\\\"");
    assert_eq!(escape("tab\tstays"), "tab\tstays");
    for raw in ["", "a\"b", "\\", "\n\r\"\\", "ends with \\", "é\"ü"] {
        assert!(check_literal_safe(escape(raw).as_str()));
    }
}

#[test]
fn literal_safe_values() {
    for good in ["", "plain", "a\\\"b", "a\\\\", "\\n\\r\\t\\0\\'", "it's", "tab\there"] {
        assert!(check_literal_safe(good));
    }
    for bad in ["a\"b", "a\\", "a\nb", "a\rb", "\\q", "\\\n", "\\\\\"", "\\x41", "\""] {
        assert!(!check_literal_safe(bad));
    }
}

#[test]
fn trimming_the_line_end() {
    assert_eq!(trim_end("rustc 1.70.0\n"), "rustc 1.70.0");
    assert_eq!(trim_end("rustc 1.70.0\r\n"), "rustc 1.70.0");
    assert_eq!(trim_end("a\nb\n\n"), "a\nb");
    assert_eq!(trim_end("\n\r\n"), "");
    assert_eq!(trim_end(""), "");
    assert_eq!(trim_end("no break "), "no break ");
    assert_eq!(trim_end("é\n"), "é");
}

#[test]
fn suffixes() {
    let text = chars_of("out/shadow.rs");
    assert_eq!(text, vec!['o', 'u', 't', '/', 's', 'h', 'a', 'd', 'o', 'w', '.', 'r', 's']);
    assert!(has_suffix(&text, &chars_of("shadow.rs")));
    assert!(has_suffix(&text, &chars_of("/shadow.rs")));
    assert!(has_suffix(&text, &chars_of("")));
    assert!(has_suffix(&text, &text));
    assert!(!has_suffix(&text, &chars_of("shadow.r")));
    assert!(!has_suffix(&text, &chars_of("xout/shadow.rs")));
    assert!(!has_suffix(&chars_of(""), &chars_of("/")));
}

#[test]
fn checked_records() {
    let r = ConstMessage::new("branch", "current branch", ConstKind::Str, "main").unwrap();
    assert_eq!(r.key().as_str(), "branch");
    assert_eq!(r.description().as_str(), "current branch");
    assert_eq!(r.kind(), ConstKind::Str);
    assert_eq!(r.value().as_str(), "main");
    let copy = r.clone();
    assert_eq!(copy.key(), r.key());
    assert_eq!(copy.value(), r.value());
    assert_eq!(
        ConstMessage::new("1st", "d", ConstKind::Str, "v").unwrap_err().to_string(),
        "invalid key: 1st"
    );
    assert_eq!(
        ConstMessage::new("", "d\n", ConstKind::Str, "\"").unwrap_err().to_string(),
        "invalid key: "
    );
    assert_eq!(
        ConstMessage::new("key", "two\nlines", ConstKind::Str, "\"").unwrap_err().to_string(),
        "description of more than one line: key"
    );
    assert_eq!(
        ConstMessage::new("key", "d", ConstKind::Str, "a\"b").unwrap_err().to_string(),
        "value breaks the literal: key"
    );
    assert!(ConstMessage::new("key", "d", ConstKind::Bool, "a\\\"b").is_ok());
}

#[test]
fn raw_records_are_made_fit() {
    let r = ConstMessage::text("tag", "latest\ntag", "v\"1\"");
    assert_eq!(r.description().as_str(), "latest tag");
    assert_eq!(r.value().as_str(), "v\\\"1\\\"");
    assert_eq!(r.kind(), ConstKind::Str);
    let t = ConstMessage::flag("dirty", "is it\rdirty", true);
    assert_eq!(t.value().as_str(), "true");
    assert_eq!(t.description().as_str(), "is it dirty");
    assert_eq!(t.kind(), ConstKind::Bool);
    assert_eq!(ConstMessage::flag("dirty", "", false).value().as_str(), "false");
    assert_eq!(ConstKind::Str.to_string(), "&str");
    assert_eq!(ConstKind::Bool.to_string(), "bool");
}

#[test]
fn instants_as_text() {
    assert_eq!(format_utc(0).unwrap(), "1970-01-01T00:00:00Z");
    assert_eq!(format_utc(86399).unwrap(), "1970-01-01T23:59:59Z");
    assert_eq!(format_utc(86400).unwrap(), "1970-01-02T00:00:00Z");
    assert_eq!(format_utc(68169600).unwrap(), "1972-02-29T00:00:00Z");
    assert_eq!(format_utc(951782400).unwrap(), "2000-02-29T00:00:00Z");
    assert_eq!(format_utc(951868799).unwrap(), "2000-02-29T23:59:59Z");
    assert_eq!(format_utc(1603887296).unwrap(), "2020-10-28T12:14:56Z");
    assert_eq!(format_utc(1709251199).unwrap(), "2024-02-29T23:59:59Z");
    assert_eq!(format_utc(1709251200).unwrap(), "2024-03-01T00:00:00Z");
    assert_eq!(format_utc(4107542400).unwrap(), "2100-03-01T00:00:00Z");
    assert_eq!(format_utc(MAX_SECONDS).unwrap(), "9999-12-31T23:59:59Z");
    assert_eq!(MAX_SECONDS, 253402300799);
}

#[test]
fn instants_out_of_range() {
    assert!(format_utc(-1).is_none());
    assert!(format_utc(i64::MIN).is_none());
    assert!(format_utc(MAX_SECONDS + 1).is_none());
    assert!(format_utc(i64::MAX).is_none());
    assert!(civil_from_seconds(-1).is_none());
    assert!(civil_from_seconds(MAX_SECONDS + 1).is_none());
}

#[test]
fn civil_dates() {
    assert_eq!(
        civil_from_seconds(1603887296),
        Some(CivilTime { year: 2020, month: 10, day: 28, hour: 12, minute: 14, second: 56 })
    );
    assert_eq!(
        civil_from_seconds(0),
        Some(CivilTime { year: 1970, month: 1, day: 1, hour: 0, minute: 0, second: 0 })
    );
    let t = CivilTime { year: 1999, month: 12, day: 31, hour: 23, minute: 59, second: 59 };
    assert_eq!(t.to_string(), "1999-12-31T23:59:59Z");
    assert_eq!(civil_from_seconds(946684799), Some(t));
}

#[test]
fn every_day_of_a_leap_cycle_is_written_in_order() {
    let mut previous = format_utc(0).unwrap();
    let mut day: i64 = 1;
    while day <= 1462 {
        let text = format_utc(day * 86400).unwrap();
        assert_eq!(text.len(), 20);
        assert!(text > previous);
        assert!(text.ends_with("T00:00:00Z"));
        previous = text;
        day += 1;
    }
    assert_eq!(previous, "1974-01-02T00:00:00Z");
}
