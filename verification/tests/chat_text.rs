//! The text of chat commands.
use miliastra::chat_text::command_identity;
use miliastra::chat_text::compact_command;
use miliastra::chat_text::is_command_boundary;
use miliastra::chat_text::parse_prefixed_command;
use miliastra::chat_text::shortcut_argument;
use miliastra::chat_text::strip_ascii_case_prefix;

#[test]
fn prefixed_command_requires_the_declared_argument_shape() {
    assert_eq!(parse_prefixed_command("音量：50】", "音量", true).as_deref(), Some("50"));
    assert_eq!(parse_prefixed_command("暂停", "暂停", false).as_deref(), Some(""));
    assert_eq!(parse_prefixed_command("暂停 现在", "暂停", false).as_deref(), None);
    assert_eq!(parse_prefixed_command("暂停/下一首", "暂停", false).as_deref(), None);
}

#[test]
fn prefixes_ignore_the_case_of_ascii_letters_only() {
    assert_eq!(strip_ascii_case_prefix("qq点歌 晴天", "QQ点歌").as_deref(), Some(" 晴天"));
    assert_eq!(strip_ascii_case_prefix("ÄB", "äb"), None);
    assert_eq!(strip_ascii_case_prefix("QQ", "QQ点歌"), None);
    assert_eq!(strip_ascii_case_prefix("点", "点歌"), None);
}

#[test]
fn shortcuts_need_something_behind_them() {
    assert_eq!(shortcut_argument("投：A ", "投").as_deref(), Some("A"));
    assert_eq!(shortcut_argument("投 ", "投"), None);
    assert_eq!(shortcut_argument("A", "投"), None);
}

#[test]
fn whitespace_is_taken_out_of_commands() {
    assert_eq!(compact_command(" 娱\u{3000}乐\t"), "娱乐");
    assert_eq!(compact_command(""), "");
}

#[test]
fn commands_end_at_whitespace_marks_and_brackets() {
    assert!(is_command_boundary(None));
    for c in [' ', '\u{3000}', '，', ',', '。', '.', '!', '！', '?', '？', ']', '】'] {
        assert!(is_command_boundary(Some(c)));
    }
    assert!(!is_command_boundary(Some('吧')));
    assert!(!is_command_boundary(Some('[')));
}

#[test]
fn texts_without_a_form_for_comparison_are_compared_by_their_words() {
    assert_eq!(command_identity(" Test-Flow ", "testflow"), "testflow");
    assert_eq!(command_identity("  ！  ？ ", ""), "！ ？");
}
