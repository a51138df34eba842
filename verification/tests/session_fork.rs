use astrcode::session_fork::{fork_point, parse_u64, system_prompt_to_copy};
use astrcode::turn_scheduler::SessionManagerError;

#[test]
fn cursor_parsing_matches_std() {
    let cases = [
        "0", "42", "+12", "007", "18446744073709551615", "18446744073709551616", "99999999999999999999", "", "+",
        "-1", " 1", "1 ", "1a", "١",
    ];
    for text in cases {
        assert_eq!(parse_u64(text), text.parse::<u64>().ok(), "{text:?}");
    }
    assert_eq!(parse_u64("18446744073709551615"), Some(u64::MAX));
    assert_eq!(parse_u64("+"), None);
}

#[test]
fn fork_from_end_uses_source_cursor() {
    match fork_point(None, "120") {
        Ok(p) => {
            assert_eq!(p.cursor, "120");
            assert_eq!(p.replay_through, None);
        },
        Err(_) => panic!("fork from the end"),
    }
}

#[test]
fn fork_at_cursor_replays_through_it() {
    match fork_point(Some("57"), "120") {
        Ok(p) => {
            assert_eq!(p.cursor, "57");
            assert_eq!(p.replay_through, Some(57));
        },
        Err(_) => panic!("fork at a cursor"),
    }
}

#[test]
fn fork_at_bad_cursor_is_refused() {
    match fork_point(Some("seq-7"), "120") {
        Err(SessionManagerError::InvalidCursor(c)) => assert_eq!(c, "seq-7"),
        _ => panic!("expected an invalid cursor"),
    }
}

#[test]
fn decimal_cursors_read_back() {
    for n in [0u64, 7, 10, 99, 1_000_000, u64::MAX] {
        let text = astrcode::text::u64_to_decimal(n);
        assert_eq!(parse_u64(&text), Some(n));
        assert!(fork_point(Some(&text), "0").is_ok());
    }
}

#[test]
fn system_prompt_is_copied_only_with_its_fingerprint() {
    let copy = system_prompt_to_copy(Some("sys".into()), Some("fp".into()), Some("extra".into())).unwrap();
    assert_eq!((copy.text.as_str(), copy.fingerprint.as_str()), ("sys", "fp"));
    assert_eq!(copy.extra_system_prompt.as_deref(), Some("extra"));
    assert!(system_prompt_to_copy(Some("sys".into()), None, None).is_none());
    assert!(system_prompt_to_copy(None, Some("fp".into()), None).is_none());
}
