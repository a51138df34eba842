use astrcode::version::negotiate_version;

#[test]
fn test_negotiate_exact_match() {
    let result = negotiate_version(1, &[1, 2]);
    assert_eq!(result, Some(1));
}

#[test]
fn test_negotiate_highest_compatible() {
    let result = negotiate_version(3, &[1, 2]);
    assert_eq!(result, Some(2));
}

#[test]
fn test_negotiate_incompatible() {
    let result = negotiate_version(1, &[2, 3]);
    assert_eq!(result, None);
}

#[test]
fn negotiate_picks_highest_not_above_request_in_any_order() {
    assert_eq!(negotiate_version(2, &[3, 1, 2, 0]), Some(2));
    assert_eq!(negotiate_version(0, &[]), None);
    assert_eq!(negotiate_version(5, &[4, 4, 1]), Some(4));
}
