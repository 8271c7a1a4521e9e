use fleet_state::timestamp::Timestamp;
use fleet_state::utils::{
    add_indented_aligned_key_value, add_whitespaces, align_content, append_line, checksum_of_output,
    concat_lines, filter_lines_by_substring, frame_status, get_cell_content_of_date,
    get_cell_content_of_flag, get_cell_content_of_option, get_ok_or_error, get_random_name,
    ident_and_append, join_lines, name_or_fallback, quote, remove_colors, remove_line,
    remove_lines_with_substring, replace_in_lines, sha256sum_matches, vec_to_string,
};
use string_builder::Builder;

fn lines(items: &[&str]) -> Vec<String> {
    items.iter().map(|s| s.to_string()).collect()
}

#[test]
fn quote_escapes_double_quotes() {
    assert_eq!(quote("abc"), "\"abc\"");
    assert_eq!(quote(""), "\"\"");
    assert_eq!(quote("a\"b"), "\"a\\\"b\"");
    assert_eq!(quote("a\\\"b"), "\"a\\\"b\"");
    assert_eq!(quote("\"\""), "\"\\\"\\\"\"");
}

#[test]
fn remove_colors_drops_the_three_codes() {
    assert_eq!(remove_colors("\u{1b}[0;32mok\u{1b}[0m"), "ok");
    assert_eq!(remove_colors("\u{1b}[1;32mbold\u{1b}[0m and \u{1b}[0;32mgreen\u{1b}[0m"), "bold and green");
    assert_eq!(remove_colors("plain"), "plain");
    assert_eq!(remove_colors("\u{1b}[0;31mred\u{1b}[0m"), "\u{1b}[0;31mred");
}

#[test]
fn vec_to_string_lists_the_items() {
    assert_eq!(vec_to_string(&lines(&["a", "b", "c"]), false), "[a, b, c]");
    assert_eq!(vec_to_string(&lines(&["a", "b"]), true), "[\"a\", \"b\"]");
    assert_eq!(vec_to_string(&lines(&["only"]), false), "[only]");
    assert_eq!(vec_to_string(&lines(&[]), true), "[]");
    assert_eq!(vec_to_string(&lines(&["say \"hi\"", "\u{e9}t\u{e9}"]), true), "[\"say \\\"hi\\\"\", \"\u{e9}t\u{e9}\"]");
    assert_eq!(vec_to_string(&lines(&["", ""]), false), "[, ]");
}

#[test]
fn builder_helpers_indent_and_align() {
    let mut builder = Builder::default();
    add_whitespaces(&mut builder, 3);
    ident_and_append(&mut builder, "x", 2);
    assert_eq!(builder.string().unwrap(), "     x");
    let mut builder = Builder::default();
    add_indented_aligned_key_value(&mut builder, 2, 6, "key", "value");
    add_indented_aligned_key_value(&mut builder, 0, 2, "longer", "v");
    add_indented_aligned_key_value(&mut builder, 1, 3, "\u{e9}", "");
    assert_eq!(builder.string().unwrap(), "  key    = value\nlonger = v\n \u{e9}  = \n");
}

#[test]
fn align_content_never_goes_below_zero() {
    assert_eq!(align_content(10, 4), 6);
    assert_eq!(align_content(4, 4), 0);
    assert_eq!(align_content(3, 4), 0);
    assert_eq!(align_content(0, usize::MAX), 0);
    assert_eq!(align_content(usize::MAX, 0), usize::MAX);
}

#[test]
fn generated_names_have_two_words() {
    for _ in 0..50 {
        let name = get_random_name();
        let hyphen = name.find('-').unwrap();
        assert!(hyphen > 0);
        assert!(hyphen + 1 < name.len());
    }
    assert_eq!(name_or_fallback(None), "random-name");
    assert_eq!(name_or_fallback(Some("calm-otter".to_string())), "calm-otter");
}

#[test]
fn status_marks_have_their_frames() {
    assert_eq!(frame_status(true, "OK"), "[  OK  ]");
    assert_eq!(frame_status(false, "FAILED"), "[FAILED]");
    let ok = get_ok_or_error(true);
    assert!(ok.starts_with("[  "));
    assert!(ok.ends_with("  ]"));
    assert!(ok.contains("OK"));
    let failed = get_ok_or_error(false);
    assert!(failed.starts_with('['));
    assert!(failed.ends_with(']'));
    assert!(failed.contains("FAILED"));
}

#[test]
fn cells_of_optional_values() {
    assert_eq!(get_cell_content_of_option(&Some("x".to_string())), "x");
    assert_eq!(get_cell_content_of_option(&Some(String::new())), "");
    assert_eq!(get_cell_content_of_option(&None), "\u{2014}");
    assert_eq!(get_cell_content_of_date(&None), "\u{2014}");
    assert_eq!(
        get_cell_content_of_date(&Some(Timestamp { seconds: 951_782_400, nanoseconds: 5 })),
        "2000-02-29 00:00:00"
    );
    assert_eq!(get_cell_content_of_flag(true), "yes");
    assert_eq!(get_cell_content_of_flag(false), "no");
}

#[test]
fn lines_are_filtered_by_substring() {
    let all = lines(&["alpha beta", "gamma", "beta", "", "alphabet"]);
    assert_eq!(filter_lines_by_substring(&all, "beta"), lines(&["alpha beta", "beta"]));
    assert_eq!(filter_lines_by_substring(&all, "alpha"), lines(&["alpha beta", "alphabet"]));
    assert_eq!(filter_lines_by_substring(&all, ""), all);
    assert!(filter_lines_by_substring(&all, "delta").is_empty());
    assert!(filter_lines_by_substring(&[], "x").is_empty());
    assert_eq!(remove_lines_with_substring(&all, "beta"), lines(&["gamma", "", "alphabet"]));
    assert!(remove_lines_with_substring(&all, "").is_empty());
}

#[test]
fn lines_are_removed_and_replaced() {
    let all = lines(&["a", "b", "a", "ab"]);
    assert_eq!(remove_line(&all, "a"), lines(&["b", "ab"]));
    assert_eq!(remove_line(&all, "c"), all);
    assert_eq!(replace_in_lines(&all, "a", "xy"), lines(&["xy", "b", "xy", "xyb"]));
    assert_eq!(replace_in_lines(&lines(&["aaa"]), "aa", "b"), lines(&["ba"]));
    assert_eq!(append_line(lines(&["a"]), "b".to_string()), lines(&["a", "b"]));
}

#[test]
fn lines_are_joined() {
    assert_eq!(join_lines(&lines(&["a", "b", "c"])), "a\nb\nc");
    assert_eq!(join_lines(&lines(&["a"])), "a");
    assert_eq!(join_lines(&lines(&[])), "");
    assert_eq!(join_lines(&lines(&["", ""])), "\n");
    assert_eq!(concat_lines(&lines(&["a", "b", "c"])), "abc");
    assert_eq!(concat_lines(&lines(&[])), "");
    assert_eq!(concat_lines(&lines(&["x", "", "\u{2014}"])), "x\u{2014}");
}

#[test]
fn checksums_are_read_and_compared() {
    assert_eq!(checksum_of_output("abc123  file.img\n"), "abc123");
    assert_eq!(checksum_of_output("abc123"), "abc123");
    assert_eq!(checksum_of_output(" abc"), "");
    assert_eq!(checksum_of_output(""), "");
    assert_eq!(checksum_of_output("\u{e9}\u{e9} x"), "\u{e9}\u{e9}");
    assert!(sha256sum_matches(&Some("abc".to_string()), "abc"));
    assert!(!sha256sum_matches(&Some("abc".to_string()), "abd"));
    assert!(!sha256sum_matches(&None, "abc"));
    assert!(!sha256sum_matches(&None, ""));
}
