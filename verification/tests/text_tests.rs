use lib::ast::Type;
use lib::show::type_string;
use lib::text::{chars_equal, chars_less, chars_of, find_char, insert_sorted, push_decimal, same_text, trim_bounds, white_space};

#[test]
fn chars_of_keeps_order() {
    assert_eq!(chars_of("héllo"), vec!['h', 'é', 'l', 'l', 'o']);
}

#[test]
fn text_equality() {
    assert!(same_text("abc", "abc"));
    assert!(!same_text("abc", "abd"));
    assert!(chars_equal(&vec!['x'], &vec!['x']));
    assert!(!chars_equal(&vec!['x'], &vec!['x', 'y']));
}

#[test]
fn white_space_is_unicode_white_space() {
    assert!(white_space(' '));
    assert!(white_space('\t'));
    assert!(white_space('\u{3000}'));
    assert!(!white_space('a'));
}

#[test]
fn trim_bounds_skip_white_space() {
    let v = chars_of("  a b \n");
    assert_eq!(trim_bounds(&v, 0, v.len()), (2, 5));
    let blank = chars_of("   ");
    let (lo, hi) = trim_bounds(&blank, 0, blank.len());
    assert_eq!(lo, hi);
}

#[test]
fn find_char_finds_the_first() {
    let v = chars_of("1/2/3");
    assert_eq!(find_char(&v, 0, v.len(), '/'), Some(1));
    assert_eq!(find_char(&v, 2, v.len(), '/'), Some(3));
    assert_eq!(find_char(&v, 0, v.len(), '.'), None);
}

#[test]
fn decimal_text_of_numbers() {
    let mut s = String::from("#");
    push_decimal(&mut s, 0);
    push_decimal(&mut s, 907);
    assert_eq!(s, "#0907");
}

#[test]
fn ordering_of_texts() {
    assert!(chars_less(&chars_of("ab"), &chars_of("b")));
    assert!(chars_less(&chars_of("a"), &chars_of("ab")));
    assert!(!chars_less(&chars_of("ab"), &chars_of("ab")));
}

#[test]
fn insert_sorted_keeps_a_sorted_set() {
    let mut v: Vec<String> = Vec::new();
    insert_sorted(&mut v, "T".to_string());
    insert_sorted(&mut v, "B".to_string());
    insert_sorted(&mut v, "T".to_string());
    insert_sorted(&mut v, "C".to_string());
    assert_eq!(v, vec!["B".to_string(), "C".to_string(), "T".to_string()]);
}

#[test]
fn type_text_escapes_like_debug() {
    let names = ["plain", "a\"b", "back\\slash", "tab\there", "bell\u{7}", "esc\u{1b}", "del\u{7f}", "nul\0"];
    for n in names {
        let t = Type::TypeParam(n.to_string());
        assert_eq!(type_string(&t), format!("{:?}", t));
    }
    assert_eq!(type_string(&Type::TypeParam("x\u{1}".to_string())), "TypeParam(\"x\\u{1}\")");
}

#[test]
fn type_text_codes_invisible_characters() {
    let names = [
        "e\u{301}",
        "zero\u{200b}width",
        "c1\u{85}",
        "soft\u{ad}",
        "bom\u{feff}",
        "sep\u{2028}",
        "join\u{2060}",
        "caf\u{e9}",
    ];
    for n in names {
        let t = Type::TypeParam(n.to_string());
        assert_eq!(type_string(&t), format!("{:?}", t));
    }
    assert_eq!(type_string(&Type::TypeParam("e\u{301}".to_string())), "TypeParam(\"e\\u{301}\")");
}
