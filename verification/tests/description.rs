use authorize_me::description::{
    allows, compose_description, describe_machine, get_machine_description, sanitize, truncate,
    DESCRIPTION_LIMIT, LAST_FOUR_DIGIT_SECOND, MINUTE_TEXT_LENGTH, SEGMENT_LIMIT,
};

#[test]
fn allowed_punctuation_is_kept() {
    let all = "._-:/()#,@[]+=&;{}!$*";
    assert_eq!(sanitize(all), all);
    for c in all.chars() {
        assert!(allows(c));
    }
}

#[test]
fn letters_and_digits_of_any_script_are_kept() {
    assert_eq!(sanitize("Zoë42"), "Zoë42");
    assert_eq!(sanitize("山田太郎"), "山田太郎");
    assert!(allows('é'));
    assert!(allows('٣'));
}

#[test]
fn other_characters_are_dropped() {
    assert_eq!(sanitize("a<b>c?d\"e'f\\g|h~i^j%k`l\tm\nn"), "abcdefghijklmn");
    assert_eq!(sanitize("smile 🙂 now"), "smilenow");
    assert!(!allows('?'));
    assert!(!allows(' '));
    assert!(!allows('\n'));
}

#[test]
fn a_text_of_forbidden_characters_becomes_empty() {
    assert_eq!(sanitize("?<>%\"'"), "");
    assert_eq!(sanitize(""), "");
}

#[test]
fn sanitizing_twice_changes_nothing() {
    let once = sanitize("jo?hn's <box> at 10:30 % done");
    assert_eq!(once, "johnsboxat10:30done");
    assert_eq!(sanitize(&once), once);
}

#[test]
fn truncation_counts_characters() {
    assert_eq!(truncate("abcdef", 3), "abc");
    assert_eq!(truncate("abc", 3), "abc");
    assert_eq!(truncate("ab", 3), "ab");
    assert_eq!(truncate("äöüß", 2), "äö");
    assert_eq!(truncate("abc", 0), "");
}

#[test]
fn composition_puts_user_host_and_time_together() {
    assert_eq!(
        compose_description("alice", "laptop", "2020-05-17 10:30"),
        "alice on laptop at 2020-05-17 10:30"
    );
}

#[test]
fn long_segments_are_cut_to_the_limit() {
    assert_eq!(SEGMENT_LIMIT, 80);
    let user = "u".repeat(100);
    let host = "h".repeat(81);
    let text = compose_description(&user, &host, "2020-05-17 10:30");
    let expected = format!("{} on {} at 2020-05-17 10:30", "u".repeat(80), "h".repeat(80));
    assert_eq!(text, expected);
    assert_eq!(text.chars().count(), 80 + 4 + 80 + 4 + 16);
    assert!(text.chars().count() <= DESCRIPTION_LIMIT);
}

#[test]
fn segments_at_the_limit_are_left_whole() {
    let user = "u".repeat(80);
    let text = compose_description(&user, "h", "t");
    assert_eq!(text, format!("{} on h at t", user));
}

#[test]
fn description_is_composed_then_sanitized() {
    assert_eq!(
        describe_machine("Alice O'Neil", "alice", "Alice's <laptop>", "2020-05-17 10:30"),
        "AliceONeilonAliceslaptopat2020-05-1710:30"
    );
}

#[test]
fn empty_user_falls_back_to_the_alternate() {
    assert_eq!(
        describe_machine("", "alice", "laptop", "2020-05-17 10:30"),
        "aliceonlaptopat2020-05-1710:30"
    );
    assert_eq!(describe_machine("", "", "", ""), "onat");
}

#[test]
fn truncation_comes_before_sanitization() {
    let user = format!("{}{}", "?".repeat(80), "abc");
    assert_eq!(describe_machine(&user, "x", "h", "t"), "onhatt");
}

#[test]
fn time_is_rendered_to_the_minute_in_utc() {
    assert_eq!(
        get_machine_description("alice", "al", "laptop", 1589711400),
        Some("aliceonlaptopat2020-05-1710:30".to_string())
    );
    assert_eq!(
        get_machine_description("alice", "al", "laptop", 1589711459),
        Some("aliceonlaptopat2020-05-1710:30".to_string())
    );
    assert_eq!(
        get_machine_description("", "al", "laptop", 0),
        Some("alonlaptopat1970-01-0100:00".to_string())
    );
}

#[test]
fn a_time_beyond_the_calendar_has_no_description() {
    assert_eq!(get_machine_description("alice", "al", "laptop", i64::MAX), None);
}

#[test]
fn every_second_up_to_the_year_9999_has_a_description() {
    assert_eq!(LAST_FOUR_DIGIT_SECOND, 253_402_300_799);
    assert_eq!(MINUTE_TEXT_LENGTH, "1970-01-01 00:00".chars().count());
    assert_eq!(
        get_machine_description("a", "", "b", LAST_FOUR_DIGIT_SECOND),
        Some("aonbat9999-12-3123:59".to_string())
    );
    assert_eq!(
        get_machine_description("a", "", "b", 0),
        Some("aonbat1970-01-0100:00".to_string())
    );
}

#[test]
fn the_description_stays_within_its_limit() {
    assert_eq!(DESCRIPTION_LIMIT, 255);
    let user = "u".repeat(300);
    let host = "h".repeat(300);
    for seconds in [0, 1589711400, LAST_FOUR_DIGIT_SECOND] {
        let text = get_machine_description(&user, "", &host, seconds).unwrap();
        assert_eq!(text.chars().count(), 80 + 2 + 80 + 2 + 15);
        assert!(text.chars().count() <= DESCRIPTION_LIMIT);
    }
}

#[test]
fn a_description_holds_only_letters_digits_and_the_allowed_marks() {
    let text = describe_machine("Zoë O'Neil (dev)", "", "box #1 [lab]", "2020-05-17 10:30");
    assert_eq!(text, "ZoëONeil(dev)onbox#1[lab]at2020-05-1710:30");
    assert!(text.chars().all(allows));
    assert!(text.chars().all(|c| c.is_alphanumeric() || "._-:/()#,@[]+=&;{}!$*".contains(c)));
}
