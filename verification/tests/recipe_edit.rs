use capacitor_bot::recipe_edit::is_reply_to;
use capacitor_bot::recipe_edit::new_sessions;
use capacitor_bot::recipe_edit::prompt_message;
use capacitor_bot::recipe_edit::recipe_saved;
use capacitor_bot::recipe_edit::strip_fence;
use capacitor_bot::recipe_edit::REPLY_TIMEOUT_SECONDS;

#[test]
fn leaves_unfenced_text_untouched() {
    let input = "name: foo\ndatasets:\n  - data.txt".to_string();
    assert_eq!(strip_fence(&input), input);
}

#[test]
fn strips_a_plain_code_fence() {
    let input = "```\nname: foo\nkey: value\n```";
    assert_eq!(strip_fence(input), "name: foo\nkey: value");
}

#[test]
fn strips_a_fence_with_language_tag() {
    let input = "```capacitor\nname: foo\nkey: value\n```";
    assert_eq!(strip_fence(input), "name: foo\nkey: value");
}

#[test]
fn strips_a_fence_with_trailing_spaces_and_newlines() {
    let input = "```\nname: foo\nkey: value\n```\n\n";
    assert_eq!(strip_fence(input), "name: foo\nkey: value");
}

#[test]
fn does_not_touch_inline_fences() {
    let input = "some ``` inline ``` text";
    assert_eq!(strip_fence(input), input);
}

#[test]
fn leaves_single_line_untouched() {
    // A single line starting with backticks but with no closing line is not
    // treated as a fence pair.
    let input = "```name: foo";
    assert_eq!(strip_fence(input), input);
}

#[test]
fn strips_only_one_layer_of_fences() {
    assert_eq!(strip_fence("```\n```\na\n```\n```"), "```\na\n```");
}

#[test]
fn strips_indented_fences_and_carriage_returns() {
    assert_eq!(strip_fence("  ```x\r\na\r\nb\r\n\t``` \u{3000}"), "a\nb");
}

#[test]
fn keeps_trailing_space_of_unfenced_text() {
    assert_eq!(strip_fence("a\n\n"), "a\n\n");
    assert_eq!(strip_fence(""), "");
}

#[test]
fn two_fence_lines_leave_nothing() {
    assert_eq!(strip_fence("```\n```"), "");
}

#[test]
fn edits_of_a_tracked_reply_are_synced() {
    let mut sessions = new_sessions();
    sessions.register_session(7, "data/1/capacitorfiles/a.cap".to_string(), (3, 4));
    let plan = sessions.sync_edited_message(7, Some("```\nx\n```")).unwrap();
    assert_eq!(plan.path, "data/1/capacitorfiles/a.cap");
    assert_eq!(plan.content, "x");
    assert_eq!(plan.confirm, Some((3, 4)));
    assert_eq!(
        plan.text,
        "Saved recipe `a.cap` (1 B). Editing your reply updates the file."
    );
}

#[test]
fn other_edits_change_nothing() {
    let mut sessions = new_sessions();
    assert!(sessions.sync_edited_message(7, Some("x")).is_none());
    sessions.register_session(7, "a".to_string(), (3, 4));
    assert!(sessions.sync_edited_message(8, Some("x")).is_none());
    assert!(sessions.sync_edited_message(7, None).is_none());
}

#[test]
fn a_later_session_replaces_an_earlier_one() {
    let mut sessions = new_sessions();
    sessions.register_session(7, "a".to_string(), (3, 4));
    sessions.register_session(7, "b".to_string(), (5, 6));
    let plan = sessions.sync_edited_message(7, Some("x")).unwrap();
    assert_eq!(plan.path, "b");
    assert_eq!(plan.confirm, Some((5, 6)));
}

#[test]
fn sizes_are_counted_in_bytes() {
    assert_eq!(
        recipe_saved("x/r", "äö"),
        "Saved recipe `r` (4 B). Editing your reply updates the file."
    );
}

#[test]
fn a_path_without_a_file_name_is_shown_by_a_fallback() {
    for path in ["/", ".."] {
        assert_eq!(
            recipe_saved(path, "x"),
            "Saved recipe `capacitorfile` (1 B). Editing your reply updates the file."
        );
    }
}

#[test]
fn only_replies_to_the_prompt_count() {
    assert!(is_reply_to(Some(5), 5));
    assert!(!is_reply_to(Some(6), 5));
    assert!(!is_reply_to(None, 5));
}

#[test]
fn prompts_are_cut_to_a_message() {
    assert_eq!(prompt_message("abc"), "abc");
    let long = "a".repeat(2001);
    assert_eq!(
        prompt_message(&long),
        "a".repeat(2000) + "\n... (truncated)"
    );
}

#[test]
fn a_reply_is_awaited_for_fifteen_minutes() {
    assert_eq!(REPLY_TIMEOUT_SECONDS, 15 * 60);
}
