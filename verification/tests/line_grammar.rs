use sts_profile_auth::text::{classify_line, is_blank_char, ConfigLine};

fn header_of(line: &str) -> Option<String> {
    match classify_line(line) {
        ConfigLine::Header(name) => Some(name),
        _ => None,
    }
}

fn assignment_of(line: &str) -> Option<(String, String)> {
    match classify_line(line) {
        ConfigLine::Assignment(key, value) => Some((key, value)),
        _ => None,
    }
}

fn is_ignored(line: &str) -> bool {
    matches!(classify_line(line), ConfigLine::Ignored)
}

#[test]
fn header_with_profile_prefix_names_what_follows_it() {
    assert_eq!(header_of("[profile dev]"), Some("dev".to_string()));
    assert_eq!(header_of("[profile my profile]"), Some("my profile".to_string()));
}

#[test]
fn header_without_prefix_names_all_between_the_brackets() {
    assert_eq!(header_of("[default]"), Some("default".to_string()));
    assert_eq!(header_of("[x]"), Some("x".to_string()));
    assert_eq!(header_of("[Profile dev]"), Some("Profile dev".to_string()));
    assert_eq!(header_of("[profiledev]"), Some("profiledev".to_string()));
}

#[test]
fn header_prefix_alone_is_the_name() {
    assert_eq!(header_of("[profile ]"), Some("profile ".to_string()));
    assert_eq!(header_of("[profile]"), Some("profile".to_string()));
    assert_eq!(header_of("[profile  ]"), Some(" ".to_string()));
}

#[test]
fn header_is_trimmed_outside_the_brackets_only() {
    assert_eq!(header_of("   [dev]  "), Some("dev".to_string()));
    assert_eq!(header_of("[ dev ]"), Some(" dev ".to_string()));
    assert_eq!(header_of("[profile  dev]"), Some(" dev".to_string()));
}

#[test]
fn header_may_hold_any_character_but_the_closing_bracket() {
    assert_eq!(header_of("[a[b]"), Some("a[b".to_string()));
    assert_eq!(header_of("[a=b]"), Some("a=b".to_string()));
    assert_eq!(header_of("[#]"), Some("#".to_string()));
    assert_eq!(header_of("[pr\u{e9}sident]"), Some("pr\u{e9}sident".to_string()));
    assert_eq!(header_of("[a\tb]"), Some("a\tb".to_string()));
}

#[test]
fn brackets_that_do_not_enclose_a_name_are_no_header() {
    assert_eq!(header_of("[]"), None);
    assert_eq!(header_of("["), None);
    assert_eq!(header_of("]"), None);
    assert_eq!(header_of("[a]b]"), None);
    assert_eq!(header_of("[a]]"), None);
    assert_eq!(header_of("[dev] # trailing"), None);
    assert_eq!(header_of("x[dev]"), None);
    assert!(is_ignored("[]"));
    assert!(is_ignored("[a]b]"));
}

#[test]
fn bracketed_text_with_an_equals_sign_after_it_is_an_assignment() {
    assert_eq!(
        assignment_of("[dev] = x"),
        Some(("[dev]".to_string(), "x".to_string()))
    );
}

#[test]
fn assignment_is_cut_at_the_first_equals_sign() {
    assert_eq!(
        assignment_of("region = us-west-2"),
        Some(("region".to_string(), "us-west-2".to_string()))
    );
    assert_eq!(
        assignment_of("a=b=c"),
        Some(("a".to_string(), "b=c".to_string()))
    );
    assert_eq!(
        assignment_of("a = = c"),
        Some(("a".to_string(), "= c".to_string()))
    );
}

#[test]
fn assignment_sides_are_trimmed() {
    assert_eq!(
        assignment_of("   key   =    some value   "),
        Some(("key".to_string(), "some value".to_string()))
    );
    assert_eq!(
        assignment_of("k=v"),
        Some(("k".to_string(), "v".to_string()))
    );
}

#[test]
fn tabs_and_other_blank_characters_are_trimmed_like_spaces() {
    assert_eq!(
        assignment_of("\tkey\t=\tvalue\t"),
        Some(("key".to_string(), "value".to_string()))
    );
    assert_eq!(
        assignment_of("k\t=\tv"),
        Some(("k".to_string(), "v".to_string()))
    );
    assert_eq!(
        assignment_of("key = value\r"),
        Some(("key".to_string(), "value".to_string()))
    );
    assert_eq!(
        assignment_of("\u{a0}key\u{2003}=\u{3000}value\u{85}"),
        Some(("key".to_string(), "value".to_string()))
    );
    assert_eq!(header_of("\t[dev]"), Some("dev".to_string()));
    assert_eq!(header_of("[dev]\r"), Some("dev".to_string()));
    assert_eq!(header_of(" \t [profile dev] \t "), Some("dev".to_string()));
}

#[test]
fn blank_characters_inside_a_key_or_a_value_stay() {
    assert_eq!(
        assignment_of("a\tkey = some\tvalue"),
        Some(("a\tkey".to_string(), "some\tvalue".to_string()))
    );
}

#[test]
fn characters_that_only_look_blank_are_kept() {
    assert_eq!(
        assignment_of("\u{200b}key = value\u{feff}"),
        Some(("\u{200b}key".to_string(), "value\u{feff}".to_string()))
    );
}

#[test]
fn blank_characters_are_those_that_the_standard_library_calls_whitespace() {
    let mut blanks = 0;
    for n in 0..=0x10FFFFu32 {
        if let Some(c) = char::from_u32(n) {
            assert_eq!(is_blank_char(c), c.is_whitespace(), "U+{:04X}", n);
            if is_blank_char(c) {
                blanks += 1;
            }
        }
    }
    assert_eq!(blanks, 25);
    assert!(is_blank_char(' '));
    assert!(is_blank_char('\t'));
    assert!(is_blank_char('\r'));
    assert!(is_blank_char('\n'));
    assert!(!is_blank_char('#'));
    assert!(!is_blank_char('\u{200b}'));
}

#[test]
fn assignment_with_an_empty_side_is_dropped() {
    assert!(is_ignored("= value"));
    assert!(is_ignored("key ="));
    assert!(is_ignored("key =    "));
    assert!(is_ignored("key =\t"));
    assert!(is_ignored("\t= value"));
    assert!(is_ignored("="));
    assert!(is_ignored("   =   "));
}

#[test]
fn line_without_equals_sign_is_dropped() {
    assert!(is_ignored("this is not valid"));
    assert!(is_ignored("region"));
}

#[test]
fn blank_lines_are_skipped() {
    assert!(is_ignored(""));
    assert!(is_ignored(" "));
    assert!(is_ignored("        "));
    assert!(is_ignored("\t"));
    assert!(is_ignored("\r"));
    assert!(is_ignored(" \t \u{a0} "));
}

#[test]
fn comments_are_skipped() {
    assert!(is_ignored("# a comment"));
    assert!(is_ignored("   # region = us-west-2"));
    assert!(is_ignored("#[dev]"));
    assert!(is_ignored("#"));
}

#[test]
fn blank_characters_before_the_hash_sign_still_make_a_comment() {
    assert!(is_ignored("\t# note = 1"));
    assert!(is_ignored("\t# region = x"));
    assert!(is_ignored(" \t #[dev]"));
    assert!(is_ignored("\u{a0}# a = b"));
}

#[test]
fn hash_sign_inside_a_value_stays() {
    assert_eq!(
        assignment_of("key = value # not a comment"),
        Some(("key".to_string(), "value # not a comment".to_string()))
    );
}

#[test]
fn characters_outside_ascii_are_kept_whole() {
    assert_eq!(
        assignment_of("  cl\u{e9} = \u{65e5}\u{672c}\u{8a9e} \u{1f600}  "),
        Some(("cl\u{e9}".to_string(), "\u{65e5}\u{672c}\u{8a9e} \u{1f600}".to_string()))
    );
}
