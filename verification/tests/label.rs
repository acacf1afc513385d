use ui_bridge::label::{capitalize, format_label, join, tokens};

fn strings(items: &[&str]) -> Vec<String> {
    items.iter().map(|item| item.to_string()).collect()
}

#[test]
fn label_of_two_tokens() {
    assert_eq!(format_label("fast-1080p"), "Fast 1080p");
}

#[test]
fn label_of_one_token() {
    assert_eq!(format_label("archive"), "Archive");
}

#[test]
fn label_of_three_tokens() {
    assert_eq!(format_label("high-quality-4k"), "High Quality 4k");
}

#[test]
fn label_of_empty_name_is_empty() {
    assert_eq!(format_label(""), "");
}

#[test]
fn label_of_hyphens_alone_is_empty() {
    assert_eq!(format_label("-"), "");
    assert_eq!(format_label("---"), "");
}

#[test]
fn neighbouring_hyphens_leave_one_space() {
    assert_eq!(format_label("a--b"), "A B");
    assert_eq!(format_label("web---small"), "Web Small");
}

#[test]
fn hyphens_at_the_ends_leave_no_space() {
    assert_eq!(format_label("-lead"), "Lead");
    assert_eq!(format_label("trail-"), "Trail");
    assert_eq!(format_label("--both--"), "Both");
}

#[test]
fn rest_of_a_token_is_kept() {
    assert_eq!(format_label("web-HD"), "Web HD");
    assert_eq!(format_label("mIxEd-cASE"), "MIxEd CASE");
}

#[test]
fn digits_and_signs_stay() {
    assert_eq!(format_label("1080p-60fps"), "1080p 60fps");
    assert_eq!(format_label("_draft-v2.1"), "_draft V2.1");
}

#[test]
fn spaces_in_a_name_are_ordinary_characters() {
    assert_eq!(format_label("two words-x"), "Two words X");
}

#[test]
fn first_character_beyond_ascii() {
    assert_eq!(format_label("élan-vital"), "Élan Vital");
    assert_eq!(format_label("日本-語"), "日本 語");
}

#[test]
fn uppercase_of_one_character_may_be_two() {
    assert_eq!(format_label("ßeta-x"), "SSeta X");
}

#[test]
fn same_name_same_label() {
    assert_eq!(format_label("fast-1080p"), format_label("fast-1080p"));
}

#[test]
fn tokens_skip_empty_pieces() {
    assert_eq!(tokens("fast-1080p"), strings(&["fast", "1080p"]));
    assert_eq!(tokens("a--b-"), strings(&["a", "b"]));
    assert_eq!(tokens("-x"), strings(&["x"]));
    assert_eq!(tokens("plain"), strings(&["plain"]));
}

#[test]
fn tokens_of_nothing() {
    assert_eq!(tokens(""), Vec::<String>::new());
    assert_eq!(tokens("--"), Vec::<String>::new());
}

#[test]
fn capitalize_changes_the_first_character_only() {
    assert_eq!(capitalize("fast"), "Fast");
    assert_eq!(capitalize("f"), "F");
    assert_eq!(capitalize("Fast"), "Fast");
    assert_eq!(capitalize("1080p"), "1080p");
    assert_eq!(capitalize("aaa"), "Aaa");
}

#[test]
fn capitalize_of_empty_token() {
    assert_eq!(capitalize(""), "");
}

#[test]
fn join_puts_one_separator_between_neighbours() {
    assert_eq!(join(&strings(&["Fast", "1080p"]), ' '), "Fast 1080p");
    assert_eq!(join(&strings(&["a", "b", "c"]), '-'), "a-b-c");
    assert_eq!(join(&strings(&["a", "", "c"]), '-'), "a--c");
}

#[test]
fn join_of_one_and_of_none() {
    assert_eq!(join(&strings(&["only"]), ' '), "only");
    assert_eq!(join(&strings(&[]), ' '), "");
}

#[test]
fn join_undoes_cutting_at_hyphens() {
    let parts = tokens("ultra-fast-720p");
    assert_eq!(join(&parts, '-'), "ultra-fast-720p");
}
