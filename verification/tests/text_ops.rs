use todo_tui::unicode::is_whitespace;
use todo_tui::text::{concat_all, same_text};
use todo_tui::words::{capitalize, format_string, replace_head, split_masked, trim_masked, trim_text};

#[test]
fn capitalize_first_letter() {
    assert_eq!(capitalize("hello"), "Hello");
    assert_eq!(capitalize("hello world"), "Hello world");
    assert_eq!(capitalize("Already"), "Already");
}

#[test]
fn capitalize_empty_and_non_letters() {
    assert_eq!(capitalize(""), "");
    assert_eq!(capitalize("1abc"), "1abc");
}

#[test]
fn capitalize_multi_char_mapping() {
    // German sharp s has a two-letter uppercase mapping.
    assert_eq!(capitalize("\u{df}x"), "SSx");
    assert_eq!(capitalize("\u{e9}t\u{e9}"), "\u{c9}t\u{e9}");
}

#[test]
fn format_string_file_names() {
    assert_eq!(format_string("my_list.json".to_string()), "My List");
    assert_eq!(format_string("about.rs".to_string()), "About");
    assert_eq!(format_string("shopping".to_string()), "Shopping");
}

#[test]
fn format_string_collapses_whitespace_and_stops_at_dot() {
    assert_eq!(format_string("__a__b__".to_string()), "A B");
    assert_eq!(format_string("a.b.c".to_string()), "A");
    assert_eq!(format_string(".hidden".to_string()), "");
    assert_eq!(format_string("".to_string()), "");
    assert_eq!(format_string("  x\ty\n".to_string()), "X Y");
}

#[test]
fn trim_text_removes_surrounding_whitespace() {
    assert_eq!(trim_text("  a b \n\r"), "a b");
    assert_eq!(trim_text("\t"), "");
    assert_eq!(trim_text("x"), "x");
}

#[test]
fn same_text_compares_characters() {
    assert!(same_text("Back", "Back"));
    assert!(!same_text("Back", "back"));
    assert!(!same_text("Back", "Backs"));
}

#[test]
fn concat_all_joins_without_separator() {
    let parts = vec!["a".to_string(), "bc".to_string(), "".to_string(), "d".to_string()];
    assert_eq!(concat_all(&parts), "abcd");
    assert_eq!(concat_all(&Vec::new()), "");
}

#[test]
fn trim_by_given_mask() {
    let s: Vec<char> = "-ab-".chars().collect();
    let mask = vec![true, false, true, true];
    assert_eq!(trim_masked(&s, &mask), vec!['a']);
    assert_eq!(trim_masked(&s, &vec![true; 4]), Vec::<char>::new());
    assert_eq!(trim_masked(&s, &vec![false; 4]), s);
}

#[test]
fn split_by_given_mask() {
    let s: Vec<char> = "a,b,,c".chars().collect();
    let mask: Vec<bool> = s.iter().map(|c| *c == ',').collect();
    assert_eq!(split_masked(&s, &mask), vec![vec!['a'], vec!['b'], vec!['c']]);
    assert_eq!(split_masked(&Vec::new(), &Vec::new()), Vec::<Vec<char>>::new());
}

#[test]
fn replace_head_keeps_rest() {
    let s: Vec<char> = "abc".chars().collect();
    assert_eq!(replace_head(&s, &vec!['X', 'Y']), vec!['X', 'Y', 'b', 'c']);
    assert_eq!(replace_head(&Vec::new(), &vec!['X']), Vec::<char>::new());
}

#[test]
fn trailing_whitespace_does_not_change_trim() {
    assert_eq!(trim_text("  word"), trim_text("  word \n\r\t"));
    assert_eq!(trim_text(" "), trim_text(" \n"));
}

#[test]
fn whitespace_set_matches_std() {
    for code in 0u32..=0x10FFFF {
        if let Some(c) = char::from_u32(code) {
            assert_eq!(is_whitespace(c), c.is_whitespace(), "U+{:04X}", code);
        }
    }
}

#[test]
fn capitalize_twice_is_once_for_ascii() {
    for s in ["hello", "Hello", "1x", "_a", "", "z"] {
        let once = capitalize(s);
        assert_eq!(capitalize(&once), once);
    }
}

#[test]
fn format_string_twice_is_once_for_ascii() {
    for s in ["my_list.json", "__a  b_.c", "already Shown", "x.y", "", "a\tb\nc"] {
        let once = format_string(s.to_string());
        assert_eq!(format_string(once.clone()), once);
    }
}
