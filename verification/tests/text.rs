//! Texts, numbers and what stands in them.
use miliastra::card_games::table::player_key;
use miliastra::scan::parse_number;
use miliastra::scan::parse_signed_number;
use miliastra::scan::split_on;
use miliastra::scan::split_words;
use miliastra::text::format_i64;
use miliastra::text::format_u64;
use miliastra::text::is_ascii_punctuation;
use miliastra::text::is_whitespace;
use miliastra::text::join;
use miliastra::text::trim;
use miliastra::text::trim_end;
use miliastra::text::trim_start;

#[test]
fn whitespace_is_what_the_standard_library_takes_for_it() {
    for code in 0..=0x10ffffu32 {
        if let Some(c) = char::from_u32(code) {
            assert_eq!(is_whitespace(c), c.is_whitespace(), "{code:x}");
            assert_eq!(is_ascii_punctuation(c), c.is_ascii_punctuation(), "{code:x}");
        }
    }
}

#[test]
fn texts_are_trimmed_on_each_side() {
    let text = "\u{3000} 甲 乙\t\n";
    assert_eq!(trim(text), text.trim());
    assert_eq!(trim_start(text), text.trim_start());
    assert_eq!(trim_end(text), text.trim_end());
    assert_eq!(trim(" \t"), "");
}

#[test]
fn numbers_are_written_as_usual() {
    for n in [0, 7, 10, 99, 1_000_000, u64::MAX] {
        assert_eq!(format_u64(n), n.to_string());
    }
    for n in [0, -1, i64::MIN, i64::MAX] {
        assert_eq!(format_i64(n), n.to_string());
    }
}

#[test]
fn numbers_are_read_as_usual() {
    let chars = |text: &str| text.chars().collect::<Vec<char>>();
    for text in ["", "0", "007", "18446744073709551615", "18446744073709551616", "1a", "+1", "-1", "１"] {
        assert_eq!(parse_signed_number(&chars(text), u64::MAX), text.parse::<u64>().ok(), "{text}");
    }
    assert_eq!(parse_number(&chars("+1"), u64::MAX), None);
    assert_eq!(parse_number(&chars("256"), 255), None);
}

#[test]
fn texts_are_split_as_usual() {
    for text in ["", " ", "a", " a  b\tc\u{3000}d ", "a.b..c."] {
        assert_eq!(split_words(text), text.split_whitespace().collect::<Vec<_>>());
        assert_eq!(split_on(text, '.'), text.split('.').collect::<Vec<_>>());
    }
    assert_eq!(join(&vec!["a".to_string(), "b".to_string()], ", "), "a, b");
}

#[test]
fn names_of_players_are_compared_without_case() {
    assert_eq!(player_key("Ä İx"), player_key("ä i\u{307}X"));
    assert_ne!(player_key("甲"), player_key("乙"));
}
