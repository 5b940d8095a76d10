use rusty_toolbox::is_space;
use rusty_toolbox::str_eq;
use rusty_toolbox::to_upper;

#[test]
fn upper_casing_is_ascii_only() {
    assert_eq!(to_upper('a'), 'A');
    assert_eq!(to_upper('f'), 'F');
    assert_eq!(to_upper('z'), 'Z');
    assert_eq!(to_upper('A'), 'A');
    assert_eq!(to_upper('7'), '7');
    assert_eq!(to_upper('{'), '{');
    assert_eq!(to_upper('\u{e9}'), '\u{e9}');
}

#[test]
fn white_space_classification() {
    assert!(is_space(' '));
    assert!(is_space('\t'));
    assert!(is_space('\n'));
    assert!(is_space('\u{a0}'));
    assert!(is_space('\u{2003}'));
    assert!(!is_space('0'));
    assert!(!is_space('x'));
    assert!(!is_space('\u{200B}'));
}

#[test]
fn string_equality_is_by_characters() {
    assert!(str_eq("bin", "bin"));
    assert!(str_eq("", ""));
    assert!(!str_eq("bin", "Bin"));
    assert!(!str_eq("bin", "binary"));
    assert!(!str_eq("foo", "bar"));
}
