use test_fork::identity::render_identity;
use test_fork::trail::MAX_FORK_DEPTH;
use test_fork::trail::OCCURS_ENV;
use test_fork::trail::OCCURS_TERM_LENGTH;
use test_fork::OccurrenceTrail;

fn trail_with(entries: u64) -> OccurrenceTrail {
    let mut trail = OccurrenceTrail::new();
    for digest in 0..entries {
        trail = trail.entered(&render_identity(digest));
    }
    trail
}

#[test]
fn constants_are_those_of_the_protocol() {
    assert_eq!(OCCURS_ENV, "TEST_FORK_OCCURS");
    assert_eq!(OCCURS_TERM_LENGTH, 17);
    assert_eq!(MAX_FORK_DEPTH, 16);
}

#[test]
fn root_trail_is_empty() {
    let trail = OccurrenceTrail::new();
    assert_eq!(trail.as_str(), "");
    assert_eq!(trail.depth(), 0);
}

#[test]
fn unset_variable_is_the_empty_trail() {
    let trail = OccurrenceTrail::from_env(None);
    assert_eq!(trail.as_str(), "");
    assert!(!trail.contains(":0000000000000001"));
}

#[test]
fn set_variable_is_taken_as_it_is() {
    let text = String::from(":0000000000000001:00000000000000AA");
    let trail = OccurrenceTrail::from_env(Some(text.clone()));
    assert_eq!(trail.as_str(), text);
    assert_eq!(trail.depth(), 2);
}

#[test]
fn entering_appends_to_a_copy() {
    let root = OccurrenceTrail::new();
    let child = root.entered(":0000000000000001");
    let grandchild = child.entered(":0000000000000002");
    assert_eq!(root.as_str(), "");
    assert_eq!(child.as_str(), ":0000000000000001");
    assert_eq!(
        grandchild.as_str(),
        ":0000000000000001:0000000000000002"
    );
}

#[test]
fn contains_finds_every_entered_identity() {
    let trail = trail_with(5);
    for digest in 0..5 {
        assert!(trail.contains(&render_identity(digest)));
    }
    assert!(!trail.contains(&render_identity(5)));
    assert!(!trail.contains(&render_identity(0x10)));
}

#[test]
fn contains_is_a_substring_test() {
    let trail = OccurrenceTrail::from_env(Some(String::from("abcabd")));
    assert!(trail.contains(""));
    assert!(trail.contains("abd"));
    assert!(trail.contains("cab"));
    assert!(trail.contains("abcabd"));
    assert!(!trail.contains("abcabda"));
    assert!(!trail.contains("abe"));
    assert!(!trail.contains("dab"));
    assert!(OccurrenceTrail::new().contains(""));
    assert!(!OccurrenceTrail::new().contains("a"));
}

#[test]
fn contains_does_not_match_across_entries() {
    let trail = OccurrenceTrail::new()
        .entered(":00000000000000AB")
        .entered(":CD00000000000000");
    assert!(!trail.contains(":ABCD000000000000"));
    assert!(!trail.contains(":0000000000ABCD00"));
    assert!(trail.contains(":CD00000000000000"));
}

#[test]
fn contains_agrees_with_the_standard_search() {
    let hays = ["", "a", "::", "a::b::c", "\u{e9}t\u{e9}", "xyxyxz", ":00:01"];
    let needles = ["", "a", ":", "::", "b::", "xyxz", "\u{e9}", "t\u{e9}", ":01", "zz"];
    for hay in hays {
        let trail = OccurrenceTrail::from_env(Some(String::from(hay)));
        for needle in needles {
            assert_eq!(trail.contains(needle), hay.contains(needle));
        }
    }
}

#[test]
fn depth_counts_whole_entries_by_bytes() {
    assert_eq!(trail_with(0).depth(), 0);
    assert_eq!(trail_with(1).depth(), 1);
    assert_eq!(trail_with(15).depth(), 15);
    assert_eq!(trail_with(16).depth(), 16);
    let short = OccurrenceTrail::from_env(Some(String::from(":000000000000000")));
    assert_eq!(short.depth(), 0);
    let wide = OccurrenceTrail::from_env(Some("\u{e9}".repeat(17)));
    assert_eq!(wide.depth(), 2);
}
