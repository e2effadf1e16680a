use uploader::gitignore::join_with_newlines;
use uploader::gitignore::split_lines;
use uploader::gitignore::updated_gitignore;

#[test]
fn listed_entry_leaves_file_untouched() {
    assert_eq!(updated_gitignore("node_modules\n.uploader\n", ".uploader"), None);
}

#[test]
fn listed_entry_with_crlf_endings_leaves_file_untouched() {
    assert_eq!(updated_gitignore("node_modules\r\n.uploader\r\n", ".uploader"), None);
}

#[test]
fn missing_entry_is_appended_after_prior_lines() {
    assert_eq!(
        updated_gitignore("node_modules\ndist", ".uploader"),
        Some(String::from("node_modules\ndist\n.uploader"))
    );
}

#[test]
fn trailing_newline_gains_no_empty_line() {
    assert_eq!(
        updated_gitignore("node_modules\n", ".uploader"),
        Some(String::from("node_modules\n.uploader"))
    );
}

#[test]
fn empty_file_becomes_single_entry() {
    assert_eq!(updated_gitignore("", ".uploader"), Some(String::from(".uploader")));
}

#[test]
fn partial_match_is_no_listing() {
    assert_eq!(
        updated_gitignore(".uploader.bak\n", ".uploader"),
        Some(String::from(".uploader.bak\n.uploader"))
    );
}

#[test]
fn lines_split_at_newlines_and_drop_carriage_returns() {
    assert_eq!(split_lines("a\r\nb\nc"), vec!["a", "b", "c"]);
}

#[test]
fn final_empty_segment_is_no_line() {
    assert_eq!(split_lines("a\n"), vec!["a"]);
    assert_eq!(split_lines(""), Vec::<String>::new());
    assert_eq!(split_lines("a\n\n"), vec!["a", ""]);
}

#[test]
fn joining_puts_one_newline_between_lines() {
    let ls = vec![String::from("a"), String::from(""), String::from("b")];
    assert_eq!(join_with_newlines(&ls), "a\n\nb");
}
