use livetree::title::{build_terminal_title, sanitize_title, title_for, truncate_middle};

#[test]
fn truncate_middle_short_strings_unchanged() {
    assert_eq!(truncate_middle("short", 10), "short");
}

#[test]
fn build_terminal_title_shows_dir_name_only() {
    let path = "/home/testuser/projects/treewatch";
    let title = build_terminal_title(path, 80).unwrap();
    assert_eq!(title, "Live Tree of treewatch");
}

#[test]
fn truncate_middle_basic_case() {
    let s = "current_path_too_long";
    let truncated = truncate_middle(s, 16);
    assert_eq!(truncated, "current...o_long");
    assert_eq!(truncated.len(), 16);
    assert_eq!(truncated.chars().count(), 16);
}

#[test]
fn truncate_middle_gives_the_odd_character_to_the_front() {
    assert_eq!(truncate_middle("abcdefghij", 8), "abc...ij");
    assert_eq!(truncate_middle("abcdefghij", 9), "abc...hij");
    assert_eq!(truncate_middle("abcdefghij", 10), "abcdefghij");
    assert_eq!(truncate_middle("abcdefghij", 4), "a...");
}

#[test]
fn truncate_middle_narrow_bounds_give_dots() {
    assert_eq!(truncate_middle("abcdefghij", 0), "");
    assert_eq!(truncate_middle("abcdefghij", 1), ".");
    assert_eq!(truncate_middle("abcdefghij", 2), "..");
    assert_eq!(truncate_middle("abcdefghij", 3), "...");
    assert_eq!(truncate_middle("ab", 3), "ab");
    assert_eq!(truncate_middle("", 0), "");
}

#[test]
fn truncate_middle_counts_characters_not_bytes() {
    // Ten characters, thirty bytes: fits a bound of ten.
    let s = "日本語日本語日本語日";
    assert_eq!(truncate_middle(s, 10), s);
    // Cut between characters, never inside one.
    assert_eq!(truncate_middle(s, 7), "日本...語日");
    assert_eq!(truncate_middle("café-au-lait-long", 8), "caf...ng");
    assert_eq!(truncate_middle("café-au-lait-long", 9), "caf...ong");
}

#[test]
fn sanitize_title_drops_control_characters() {
    assert_eq!(sanitize_title("a\u{1b}[31mb\n\tc\u{7f}d\u{9f}"), "a[31mbcd");
    assert_eq!(sanitize_title("plain name"), "plain name");
}

#[test]
fn title_for_cleans_and_truncates() {
    assert_eq!(title_for("x", 0), None);
    assert_eq!(
        title_for("evil\u{7}name", 80),
        Some("Live Tree of evilname".to_string())
    );
    assert_eq!(
        title_for("a_very_long_directory_name", 20),
        Some("Live Tree...ory_name".to_string())
    );
}

#[test]
fn build_terminal_title_without_columns_is_none() {
    assert_eq!(build_terminal_title("/home/testuser/projects/treewatch", 0), None);
}

#[test]
fn build_terminal_title_falls_back_to_the_whole_path() {
    // The root has no last component to name it by.
    assert_eq!(
        build_terminal_title("/", 80),
        Some("Live Tree of /".to_string())
    );
    assert_eq!(
        build_terminal_title("/srv/data/", 80),
        Some("Live Tree of data".to_string())
    );
}
