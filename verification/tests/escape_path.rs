use wmt::escape_path::char::CharExt;
use wmt::escape_path::{escape_path, EscapePathExt};

#[test]
fn escape_path_url() {
    assert_eq!(
        "https:\u{2215}\u{2215}www.google.com\u{2215}&ec=GAZAAQ".to_string(),
        "https://www.google.com/&ec=GAZAAQ"
            .escape_path()
            .to_string()
    );
}

#[test]
fn escape_path_yields_the_characters_one_by_one() {
    let mut escaped = "a/\t".escape_path();
    assert_eq!(escaped.next(), Some('a'));
    assert_eq!(escaped.next(), Some('\u{2215}'));
    assert_eq!(escaped.next(), Some('\\'));
    assert_eq!(escaped.to_string(), "t");
    assert_eq!(escaped.next(), Some('t'));
    assert_eq!(escaped.next(), None);
    assert_eq!(escaped.next(), None);
}

#[test]
fn every_character_but_the_separator_takes_its_default_escape() {
    let mut code: u32 = 0;
    while code <= 0x10ffff {
        if let Some(c) = std::char::from_u32(code) {
            let expected: String = if c == '/' {
                "\u{2215}".to_string()
            } else {
                c.escape_default().collect()
            };
            assert_eq!(escape_path(c).to_string(), expected);
            assert_eq!(c.escape_path().len(), expected.chars().count());
        }
        code += 1;
    }
}

#[test]
fn the_escape_of_a_character_has_a_known_length() {
    assert_eq!(escape_path('/').len(), 1);
    assert_eq!(escape_path('a').size_hint(), (1, Some(1)));
    assert_eq!(escape_path('\n').count(), 2);
    assert_eq!(escape_path('\u{10ffff}').len(), 10);
    assert_eq!(escape_path('\u{10ffff}').to_string(), "\\u{10ffff}");
    assert_eq!(escape_path('\0').to_string(), "\\u{0}");
    assert_eq!(escape_path('\u{2215}').to_string(), "\\u{2215}");
}

#[test]
fn nth_skips_and_last_ends() {
    let mut escaped = escape_path('\u{e9}');
    assert_eq!(escaped.to_string(), "\\u{e9}");
    assert_eq!(escaped.nth(2), Some('{'));
    assert_eq!(escaped.len(), 3);
    assert_eq!(escaped.nth(1), Some('9'));
    assert_eq!(escaped.clone().last(), Some('}'));
    assert_eq!(escaped.nth(1), None);
    assert_eq!(escaped.len(), 0);
    assert_eq!(escaped.last(), None);

    let mut slash = escape_path('/');
    assert_eq!(slash.clone().last(), Some('\u{2215}'));
    assert_eq!(slash.clone().nth(0), Some('\u{2215}'));
    assert_eq!(slash.nth(1), None);
    assert_eq!(slash.next(), None);
}

#[test]
fn the_size_hint_has_an_upper_bound_once_the_text_is_used_up() {
    let mut escaped = "\n/".escape_path();
    assert_eq!(escaped.size_hint(), (0, None));
    assert_eq!(escaped.next(), Some('\\'));
    assert_eq!(escaped.size_hint(), (1, None));
    assert_eq!(escaped.next(), Some('n'));
    assert_eq!(escaped.next(), Some('\u{2215}'));
    assert_eq!(escaped.size_hint(), (0, Some(0)));
    assert_eq!(escaped.next(), None);
}

#[test]
fn strings_and_references_are_escaped_alike() {
    let owned = String::from("a/b\\c");
    assert_eq!(owned.escape_path().to_string(), "a\u{2215}b\\\\c");
    assert_eq!((&owned).escape_path().to_string(), "a\u{2215}b\\\\c");
    assert_eq!("a/b\\c".escape_path().to_string(), "a\u{2215}b\\\\c");
    assert_eq!("".escape_path().to_string(), "");
}

#[test]
fn the_escape_of_a_text_holds_no_separator() {
    let escaped = "https://a/b/c?d=/e/../f'\"\r".escape_path().to_string();
    assert!(!escaped.contains('/'));
    assert_eq!(escaped, "https:\u{2215}\u{2215}a\u{2215}b\u{2215}c?d=\u{2215}e\u{2215}..\u{2215}f\\'\\\"\\r");
}
