use am_i_alive::presentation::{format_status_message, hours_since, pick_index, plural_suffix, replace_all};

#[test]
fn replaces_like_std() {
    for (s, p, w) in [("aaa", "aa", "b"), ("{0} and {0}", "{0}", "Max"), ("none", "x", "y"), ("", "a", "b"), ("ab", "ab", "")] {
        assert_eq!(replace_all(s, p, w), s.replace(p, w));
    }
}

#[test]
fn hours_round_and_floor_at_one() {
    assert_eq!(hours_since(100, 1), 1);
    assert_eq!(hours_since(100, 100), 1);
    assert_eq!(hours_since(u64::MAX, 0), ((u64::MAX as u128 + 1800) / 3600) as u64);
    assert_eq!(hours_since(5400, 0), 2);
    assert_eq!(hours_since(5399, 0), 1);
    assert_eq!(hours_since(25 * 3600, 0), 25);
    assert_eq!(plural_suffix(1), "");
    assert_eq!(plural_suffix(2), "s");
}

#[test]
fn status_message_fills_parameters() {
    let t = "Seen {0} {1} hour{2} ago";
    assert_eq!(format_status_message(t, "Ann", Some(1)), "Seen Ann 1 hour ago");
    assert_eq!(format_status_message(t, "Ann", Some(3)), "Seen Ann 3 hours ago");
    assert_eq!(format_status_message(t, "Ann", None), "Seen Ann {1} hour{2} ago");
    assert_eq!(pick_index(7, 3), 1);
}
