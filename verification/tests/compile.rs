use logzen::compile::{assemble, convert_dt_spec_regex, CompileError};
use logzen::directive::{Directive, FixedKind, NumericKind, Padding};
use logzen::table::{fixed_text, grouped, numeric_text};

fn regex_of(fmt: &str) -> String {
    convert_dt_spec_regex(fmt).unwrap().regex_str().to_string()
}

fn error_of(fmt: &str) -> CompileError {
    match convert_dt_spec_regex(fmt) {
        Ok(_) => panic!("{} compiled", fmt),
        Err(e) => e,
    }
}

fn fragment_of(directive: Directive) -> String {
    assemble("", &vec![directive]).unwrap().regex
}

#[test]
fn iso_format_with_literal_z_is_naive_and_zulu() {
    let pattern = convert_dt_spec_regex("%Y-%m-%dT%H:%M:%SZ").unwrap();
    assert_eq!(pattern.regex_str(), r"[0-9]{4}\-[0-9]{2}\-[0-9]{2}T[0-9]{2}:[0-9]{2}:[0-9]{2}Z");
    assert_eq!(pattern.format(), "%Y-%m-%dT%H:%M:%SZ");
    assert!(pattern.is_naive());
    assert!(pattern.zulu());
    assert_eq!(pattern.render_format(), "%Y-%m-%dT%H:%M:%S%:z");
}

#[test]
fn iso_format_with_offset_is_aware() {
    let pattern = convert_dt_spec_regex("%Y-%m-%dT%H:%M:%S%z").unwrap();
    assert_eq!(pattern.regex_str(), r"[0-9]{4}\-[0-9]{2}\-[0-9]{2}T[0-9]{2}:[0-9]{2}:[0-9]{2}[+-][0-9]{2}[0-9]{2}");
    assert!(!pattern.is_naive());
    assert!(!pattern.zulu());
    assert_eq!(pattern.render_format(), "%Y-%m-%dT%H:%M:%S%z");
}

#[test]
fn colon_offset_is_aware() {
    let pattern = convert_dt_spec_regex("%H:%M%:z").unwrap();
    assert_eq!(pattern.regex_str(), r"[0-9]{2}:[0-9]{2}[+-][0-9]{2}:[0-9]{2}");
    assert!(!pattern.is_naive());
    assert!(!pattern.zulu());
}

#[test]
fn rfc3339_composite_has_no_offset_in_its_fragment() {
    let pattern = convert_dt_spec_regex("%+").unwrap();
    assert_eq!(
        pattern.regex_str(),
        r"[0-9]{4}-[0-9]{2}-[0-9]{2}T[0-9]{2}:[0-9]{2}:[0-9]{2}\.(?:[0-9]{9}|[0-9]{6}|[0-9]{3})"
    );
    assert!(!pattern.is_naive());
    assert!(!pattern.zulu());
}

#[test]
fn locale_date_and_time() {
    let pattern = convert_dt_spec_regex("%c").unwrap();
    assert_eq!(
        pattern.regex_str(),
        concat_all(&[
            "(?:Mon|Tue|Wed|Thu|Fri|Sat|Sun)",
            r"\s*",
            "(?:Jan|Feb|Mar|Apr|May|Jun|Jul|Aug|Sep|Oct|Nov|Dec)",
            r"\s*",
            r" {0,1}[0-9]{1,2}",
            r"\s*",
            r"[0-9]{2}:[0-9]{2}:[0-9]{2}",
            r"\s*",
            r"[0-9]{4}",
        ])
    );
    assert!(pattern.is_naive());
    assert!(!pattern.zulu());
    assert_eq!(pattern.render_format(), "%c%:z");
}

fn concat_all(parts: &[&str]) -> String {
    let mut out = String::new();
    for part in parts {
        out.push_str(part);
    }
    out
}

#[test]
fn empty_specification_matches_the_empty_string() {
    let pattern = convert_dt_spec_regex("").unwrap();
    assert_eq!(pattern.regex_str(), "");
    assert!(pattern.is_naive());
    assert!(!pattern.zulu());
    assert_eq!(pattern.find("anything"), Some(String::new()));
    assert_eq!(pattern.find(""), Some(String::new()));
}

#[test]
fn literal_text_is_escaped() {
    assert_eq!(regex_of("a.b"), r"a\.b");
    assert_eq!(regex_of("[%Y]"), r"\[[0-9]{4}\]");
    assert_eq!(regex_of("(%H|%M)"), r"\([0-9]{2}\|[0-9]{2}\)");
    assert_eq!(regex_of("x+y*z?"), r"x\+y\*z\?");
    assert_eq!(regex_of("^$#&-~{}\\"), r"\^\$\#\&\-\~\{\}\\");
    assert_eq!(regex_of("%d/%m/%Y"), r"[0-9]{2}/[0-9]{2}/[0-9]{4}");
    assert_eq!(regex_of("%%"), "%");
}

#[test]
fn escaped_literal_matches_only_itself() {
    let pattern = convert_dt_spec_regex("%Y.%m").unwrap();
    assert_eq!(pattern.find("2023x06"), None);
    assert_eq!(pattern.find("on 2023.06 or so"), Some("2023.06".to_string()));
}

#[test]
fn whitespace_matches_any_run() {
    assert_eq!(regex_of("%d %m"), r"[0-9]{2}\s*[0-9]{2}");
    assert_eq!(regex_of("%d \t %m"), r"[0-9]{2}\s*[0-9]{2}");
    assert_eq!(regex_of("%d%t%m%n"), r"[0-9]{2}\s*[0-9]{2}\s*");
    let pattern = convert_dt_spec_regex("%d %m").unwrap();
    assert_eq!(pattern.find("a 0102"), Some("0102".to_string()));
    assert_eq!(pattern.find("a 01   02"), Some("01   02".to_string()));
}

#[test]
fn numeric_widths_through_the_format() {
    assert_eq!(regex_of("%Y"), r"[0-9]{4}");
    assert_eq!(regex_of("%G"), r"[0-9]{4}");
    assert_eq!(regex_of("%C%y%g"), r"[0-9]{2}[0-9]{2}[0-9]{2}");
    assert_eq!(regex_of("%m%d%U%W%V"), r"[0-9]{2}[0-9]{2}[0-9]{2}[0-9]{2}[0-9]{2}");
    assert_eq!(regex_of("%H%I%M%S"), r"[0-9]{2}[0-9]{2}[0-9]{2}[0-9]{2}");
    assert_eq!(regex_of("%w%u"), r"[0-9]{1}[0-9]{1}");
    assert_eq!(regex_of("%j"), r"[0-9]{3}");
    assert_eq!(regex_of("%f"), r"[0-9]{9}");
    assert_eq!(regex_of("%s"), r"[0-9]{1,}");
}

#[test]
fn space_padded_numbers() {
    assert_eq!(regex_of("%e"), r" {0,1}[0-9]{1,2}");
    assert_eq!(regex_of("%k%l"), r" {0,1}[0-9]{1,2} {0,1}[0-9]{1,2}");
    assert_eq!(regex_of("%_Y"), r" {0,3}[0-9]{1,4}");
    assert_eq!(regex_of("%_j"), r" {0,2}[0-9]{1,3}");
    assert_eq!(regex_of("%_f"), r" {0,8}[0-9]{1,9}");
    assert_eq!(regex_of("%_w"), r" {0,0}[0-9]{1,1}");
}

#[test]
fn unix_timestamp_has_one_digit_or_more() {
    assert_eq!(regex_of("%s"), r"[0-9]{1,}");
    assert_eq!(regex_of("%_s"), r"[0-9]{1,}");
    assert_eq!(regex_of("%0s"), r"[0-9]{1,}");
    let pattern = convert_dt_spec_regex("%s").unwrap();
    assert!(pattern.is_naive());
    assert!(!pattern.zulu());
    assert_eq!(pattern.find("t=1685620800 ok"), Some("1685620800".to_string()));
    assert_eq!(pattern.find("t=7 ok"), Some("7".to_string()));
    assert_eq!(pattern.find("t= ok"), None);
}

#[test]
fn padding_is_made_of_spaces_only() {
    let pattern = convert_dt_spec_regex("%e").unwrap();
    assert_eq!(pattern.find("a 7"), Some(" 7".to_string()));
    assert_eq!(pattern.find("a\t7"), Some("7".to_string()));
    assert_eq!(pattern.find("a\n7"), Some("7".to_string()));
    assert_eq!(pattern.find("a17"), Some("17".to_string()));
    let whole = regex::Regex::new(&format!("^(?:{})$", pattern.regex_str())).unwrap();
    assert!(whole.is_match(" 7"));
    assert!(whole.is_match("7"));
    assert!(whole.is_match("17"));
    assert!(!whole.is_match("\t7"));
    assert!(!whole.is_match("  7"));
    assert!(!whole.is_match("117"));
    assert!(!whole.is_match(" "));
}

#[test]
fn a_digit_is_an_ascii_digit() {
    let pattern = convert_dt_spec_regex("%d").unwrap();
    assert_eq!(pattern.find("on \u{0660}\u{0665}"), None);
    assert_eq!(pattern.find("on \u{0660}\u{0665} or 05"), Some("05".to_string()));
}

#[test]
fn unpadded_and_zero_padded_numbers_are_exact() {
    assert_eq!(regex_of("%-d"), r"[0-9]{2}");
    assert_eq!(regex_of("%0e"), r"[0-9]{2}");
    assert_eq!(regex_of("%-Y"), r"[0-9]{4}");
}

#[test]
fn name_lists_are_grouped() {
    assert_eq!(regex_of("%b"), "(?:Jan|Feb|Mar|Apr|May|Jun|Jul|Aug|Sep|Oct|Nov|Dec)");
    assert_eq!(regex_of("%h"), "(?:Jan|Feb|Mar|Apr|May|Jun|Jul|Aug|Sep|Oct|Nov|Dec)");
    assert_eq!(
        regex_of("%B"),
        "(?:January|February|March|April|May|June|July|August|September|October|November|December)"
    );
    assert_eq!(regex_of("%a"), "(?:Mon|Tue|Wed|Thu|Fri|Sat|Sun)");
    assert_eq!(regex_of("%A"), "(?:Monday|Tuesday|Wednesday|Thursday|Friday|Saturday|Sunday)");
    assert_eq!(regex_of("%P"), "(?:am|pm)");
    assert_eq!(regex_of("%p"), "(?:AM|PM)");
}

#[test]
fn a_name_between_fields_matches_the_whole_timestamp() {
    let pattern = convert_dt_spec_regex("%d %b %Y").unwrap();
    assert_eq!(pattern.find("due 02 Jan 2006, late"), Some("02 Jan 2006".to_string()));
    assert_eq!(pattern.find("Jan"), None);
}

#[test]
fn fractions_of_a_second() {
    assert_eq!(regex_of("%.f"), r"\.([0-9]{3}|[0-9]{6}|[0-9]{9})");
    assert_eq!(regex_of("%.3f"), r"\.[0-9]{3}");
    assert_eq!(regex_of("%.6f"), r"\.[0-9]{6}");
    assert_eq!(regex_of("%.9f"), r"\.[0-9]{9}");
}

#[test]
fn composite_specifiers_are_spelled_out() {
    assert_eq!(regex_of("%F"), r"[0-9]{4}\-[0-9]{2}\-[0-9]{2}");
    assert_eq!(regex_of("%T"), r"[0-9]{2}:[0-9]{2}:[0-9]{2}");
    assert_eq!(regex_of("%R"), r"[0-9]{2}:[0-9]{2}");
    assert_eq!(regex_of("%D"), r"[0-9]{2}/[0-9]{2}/[0-9]{2}");
    assert_eq!(regex_of("%v"), r" {0,1}[0-9]{1,2}\-(?:Jan|Feb|Mar|Apr|May|Jun|Jul|Aug|Sep|Oct|Nov|Dec)\-[0-9]{4}");
    assert_eq!(regex_of("%r"), r"[0-9]{2}:[0-9]{2}:[0-9]{2}\s*(?:AM|PM)");
}

#[test]
fn timezone_name_is_unsupported() {
    assert_eq!(error_of("%Z"), CompileError::UnsupportedDirective);
    assert_eq!(error_of("%Y-%m-%d %Z"), CompileError::UnsupportedDirective);
}

#[test]
fn directives_without_a_fragment_are_unsupported() {
    assert_eq!(error_of("%q"), CompileError::UnsupportedDirective);
    assert_eq!(error_of("%::z"), CompileError::UnsupportedDirective);
    assert_eq!(error_of("%:::z"), CompileError::UnsupportedDirective);
    assert_eq!(error_of("%#z"), CompileError::UnsupportedDirective);
    assert_eq!(error_of("%3f"), CompileError::UnsupportedDirective);
    assert_eq!(error_of("%6f"), CompileError::UnsupportedDirective);
    assert_eq!(error_of("%9f"), CompileError::UnsupportedDirective);
}

#[test]
fn unreadable_text_is_malformed() {
    assert_eq!(error_of("%Q"), CompileError::MalformedSpecification);
    assert_eq!(error_of("%"), CompileError::MalformedSpecification);
    assert_eq!(error_of("%Y-%"), CompileError::MalformedSpecification);
    assert_eq!(error_of("%-Z"), CompileError::MalformedSpecification);
    assert_eq!(error_of("%.2f"), CompileError::MalformedSpecification);
}

#[test]
fn the_first_bad_directive_decides_the_error() {
    assert_eq!(error_of("%Q %Z"), CompileError::MalformedSpecification);
    assert_eq!(error_of("%Z %Q"), CompileError::UnsupportedDirective);
}

#[test]
fn zulu_is_seeded_by_a_plain_closing_z() {
    assert!(convert_dt_spec_regex("%H:%MZ").unwrap().zulu());
    assert!(convert_dt_spec_regex("Z").unwrap().zulu());
    assert!(convert_dt_spec_regex("%H Z").unwrap().zulu());
    assert!(!convert_dt_spec_regex("%H:%M").unwrap().zulu());
    assert!(!convert_dt_spec_regex("Z%H").unwrap().zulu());
    assert!(!convert_dt_spec_regex("%H:%Mz").unwrap().zulu());
    let percent = convert_dt_spec_regex("%H%%Z").unwrap();
    assert_eq!(percent.regex_str(), r"[0-9]{2}%Z");
    assert!(!percent.zulu());
    assert!(percent.is_naive());
    assert_eq!(percent.render_format(), "%H%%Z%:z");
}

#[test]
fn a_closing_z_behind_an_offset_keeps_the_format_for_writing() {
    let pattern = convert_dt_spec_regex("%H%zZ").unwrap();
    assert!(!pattern.is_naive());
    assert!(pattern.zulu());
    assert_eq!(pattern.render_format(), "%H%zZ");
}

#[test]
fn compiling_twice_gives_the_same_pattern() {
    for fmt in ["%Y-%m-%dT%H:%M:%SZ", "%c", "%+", "%d/%m/%Y %H:%M", ""] {
        let first = convert_dt_spec_regex(fmt).unwrap();
        let second = convert_dt_spec_regex(fmt).unwrap();
        assert_eq!(first.regex_str(), second.regex_str());
        assert_eq!(first.is_naive(), second.is_naive());
        assert_eq!(first.zulu(), second.zulu());
        assert_eq!(first.format(), second.format());
        for line in ["", "x 2023-06-01T12:00:00Z y", "Mon Jan  2 15:04:05 2006", "01/02/2023 08:30"] {
            assert_eq!(first.find(line), second.find(line));
        }
    }
}

#[test]
fn a_specification_too_large_for_the_matcher_is_rejected() {
    let fmt = "%f".repeat(400_000);
    assert_eq!(error_of(&fmt), CompileError::MatcherRejected);
}

#[test]
fn numeric_text_by_kind() {
    assert_eq!(numeric_text(NumericKind::Year, Padding::ZeroPadded), Some(r"[0-9]{4}".to_string()));
    assert_eq!(numeric_text(NumericKind::Hour, Padding::SpacePadded), Some(r" {0,1}[0-9]{1,2}".to_string()));
    assert_eq!(numeric_text(NumericKind::Internal, Padding::SpacePadded), Some(String::new()));
    assert_eq!(numeric_text(NumericKind::Quarter, Padding::ZeroPadded), None);
    assert_eq!(fixed_text(FixedKind::UpperAmPm), Some("(?:AM|PM)".to_string()));
    assert_eq!(fixed_text(FixedKind::TimezoneName), None);
    assert_eq!(grouped("a|b"), "(?:a|b)");
}

#[test]
fn widths_of_the_numeric_fields() {
    assert_eq!(NumericKind::Year.digits(), Some(4));
    assert_eq!(NumericKind::IsoYear.digits(), Some(4));
    for kind in [
        NumericKind::YearDiv100,
        NumericKind::YearMod100,
        NumericKind::IsoYearDiv100,
        NumericKind::IsoYearMod100,
        NumericKind::Month,
        NumericKind::Day,
        NumericKind::WeekFromSun,
        NumericKind::WeekFromMon,
        NumericKind::IsoWeek,
        NumericKind::Hour,
        NumericKind::Hour12,
        NumericKind::Minute,
        NumericKind::Second,
    ] {
        assert_eq!(kind.digits(), Some(2));
    }
    assert_eq!(NumericKind::NumDaysFromSun.digits(), Some(1));
    assert_eq!(NumericKind::WeekdayFromMon.digits(), Some(1));
    assert_eq!(NumericKind::Ordinal.digits(), Some(3));
    assert_eq!(NumericKind::Nanosecond.digits(), Some(9));
    assert_eq!(NumericKind::Timestamp.digits(), Some(1));
    assert!(NumericKind::Timestamp.is_unbounded());
    for kind in [NumericKind::Year, NumericKind::WeekdayFromMon, NumericKind::Nanosecond] {
        assert!(!kind.is_unbounded());
    }
    assert_eq!(NumericKind::Internal.digits(), Some(0));
    assert_eq!(NumericKind::Quarter.digits(), None);
    assert_eq!(NumericKind::Unknown.digits(), None);
}

#[test]
fn assemble_offsets_with_z() {
    let colon = assemble("", &vec![Directive::FixedString(FixedKind::TimezoneOffsetColonZ)]).unwrap();
    assert_eq!(colon.regex, r"(?:Z|[+-][0-9]{2}:[0-9]{2})");
    assert!(!colon.is_naive);
    assert!(colon.zulu);
    let compact = assemble("", &vec![Directive::FixedString(FixedKind::TimezoneOffsetZ)]).unwrap();
    assert_eq!(compact.regex, r"(?:Z|[+-][0-9]{2}[0-9]{2})");
    assert!(!compact.is_naive);
    assert!(compact.zulu);
}

#[test]
fn assemble_rfc2822() {
    let out = assemble("", &vec![Directive::FixedString(FixedKind::RFC2822)]).unwrap();
    assert_eq!(
        out.regex,
        concat_all(&[
            "(?:Mon|Tue|Wed|Thu|Fri|Sat|Sun)",
            r",\s+[0-9]{2}\s+",
            "(?:Jan|Feb|Mar|Apr|May|Jun|Jul|Aug|Sep|Oct|Nov|Dec)",
            r"\s+[0-9]{4}\s+[0-9]{2}:[0-9]{2}:[0-9]{2} [+-][0-9]{2}[0-9]{2}",
        ])
    );
    assert!(!out.is_naive);
    assert!(!out.zulu);
    let re = regex::Regex::new(&out.regex).unwrap();
    let found = re.find("Date: Mon, 02 Jan 2006 15:04:05 +0000 (UTC)").unwrap();
    assert_eq!(found.as_str(), "Mon, 02 Jan 2006 15:04:05 +0000");
}

#[test]
fn assemble_reserved_number_adds_nothing() {
    assert_eq!(fragment_of(Directive::Numeric(NumericKind::Internal, Padding::ZeroPadded)), "");
    assert_eq!(fragment_of(Directive::Numeric(NumericKind::Internal, Padding::SpacePadded)), "");
    let items = vec![
        Directive::Numeric(NumericKind::Hour, Padding::ZeroPadded),
        Directive::Numeric(NumericKind::Internal, Padding::Unpadded),
        Directive::Literal(":".to_string()),
        Directive::Numeric(NumericKind::Minute, Padding::ZeroPadded),
    ];
    assert_eq!(assemble("", &items).unwrap().regex, r"[0-9]{2}:[0-9]{2}");
}

#[test]
fn assemble_each_width_in_both_modes() {
    let cases = [
        (NumericKind::WeekdayFromMon, r"[0-9]{1}", r" {0,0}[0-9]{1,1}"),
        (NumericKind::Timestamp, r"[0-9]{1,}", r"[0-9]{1,}"),
        (NumericKind::Day, r"[0-9]{2}", r" {0,1}[0-9]{1,2}"),
        (NumericKind::Ordinal, r"[0-9]{3}", r" {0,2}[0-9]{1,3}"),
        (NumericKind::Year, r"[0-9]{4}", r" {0,3}[0-9]{1,4}"),
        (NumericKind::Nanosecond, r"[0-9]{9}", r" {0,8}[0-9]{1,9}"),
    ];
    for (kind, exact, padded) in cases {
        assert_eq!(fragment_of(Directive::Numeric(kind, Padding::ZeroPadded)), exact);
        assert_eq!(fragment_of(Directive::Numeric(kind, Padding::Unpadded)), exact);
        assert_eq!(fragment_of(Directive::Numeric(kind, Padding::SpacePadded)), padded);
    }
}

#[test]
fn assemble_rejects_what_has_no_fragment() {
    for kind in [
        FixedKind::TimezoneName,
        FixedKind::TimezoneOffsetDoubleColon,
        FixedKind::TimezoneOffsetTripleColon,
        FixedKind::Internal,
        FixedKind::Unknown,
    ] {
        let out = assemble("", &vec![Directive::FixedString(kind)]);
        assert!(matches!(out, Err(CompileError::UnsupportedDirective)));
    }
    for kind in [NumericKind::Quarter, NumericKind::Unknown] {
        let out = assemble("", &vec![Directive::Numeric(kind, Padding::ZeroPadded)]);
        assert!(matches!(out, Err(CompileError::UnsupportedDirective)));
    }
    let out = assemble("", &vec![Directive::Whitespace, Directive::Malformed]);
    assert!(matches!(out, Err(CompileError::MalformedSpecification)));
}

#[test]
fn assemble_marks() {
    let naive = assemble("%HZ", &vec![Directive::Literal("Z".to_string())]).unwrap();
    assert!(naive.is_naive);
    assert!(naive.zulu);
    let named = assemble("%Z", &vec![Directive::Whitespace]).unwrap();
    assert!(!named.zulu);
    let none = assemble("", &vec![]).unwrap();
    assert_eq!(none.regex, "");
    assert!(none.is_naive);
    assert!(!none.zulu);
    for kind in [
        FixedKind::TimezoneOffsetColon,
        FixedKind::TimezoneOffset,
        FixedKind::RFC2822,
        FixedKind::RFC3339,
    ] {
        let out = assemble("", &vec![Directive::Whitespace, Directive::FixedString(kind)]).unwrap();
        assert!(!out.is_naive);
        assert!(!out.zulu);
    }
}
