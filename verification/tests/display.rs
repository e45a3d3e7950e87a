use iku::ast::Litteral;
use iku::text::{push_decimal, push_digits, same_text};

fn num(i: i64) -> Litteral {
    Litteral::I64(i)
}

#[test]
fn display_works_for_single_tuples() {
    assert_eq!("(1,)", Litteral::Tuple(vec![Litteral::I64(1)]).to_string());
}

#[test]
fn display_works_for_the_empty_tuple() {
    assert_eq!("()", Litteral::Tuple(vec![]).to_string());
}

#[test]
fn display_works_for_pairs_and_longer_tuples() {
    assert_eq!("(1, 2)", Litteral::Tuple(vec![num(1), num(2)]).to_string());
    assert_eq!(
        "(1, 2, 3)",
        Litteral::Tuple(vec![num(1), num(2), num(3)]).to_string()
    );
}

#[test]
fn display_works_for_nested_tuples() {
    let inner = Litteral::Tuple(vec![num(1)]);
    let empty = Litteral::Tuple(vec![]);
    let outer = Litteral::Tuple(vec![inner, empty, Litteral::Bool(true)]);
    assert_eq!("((1,), (), true)", outer.to_string());
}

#[test]
fn display_shows_strings_raw() {
    assert_eq!("a\"b\\n", Litteral::Str(String::from("a\"b\\n")).to_string());
    assert_eq!("", Litteral::Str(String::new()).to_string());
    assert_eq!(
        "(x, y)",
        Litteral::Tuple(vec![
            Litteral::Str(String::from("x")),
            Litteral::Str(String::from("y"))
        ])
        .to_string()
    );
}

#[test]
fn display_shows_booleans_by_name() {
    assert_eq!("true", Litteral::Bool(true).to_string());
    assert_eq!("false", Litteral::Bool(false).to_string());
}

#[test]
fn display_shows_integers_in_decimal() {
    assert_eq!("0", num(0).to_string());
    assert_eq!("7", num(7).to_string());
    assert_eq!("10", num(10).to_string());
    assert_eq!("-2", num(-2).to_string());
    assert_eq!("1234567890", num(1234567890).to_string());
    assert_eq!("9223372036854775807", num(i64::MAX).to_string());
    assert_eq!("-9223372036854775808", num(i64::MIN).to_string());
}

#[test]
fn display_appends_to_what_is_there() {
    let mut out = String::from("x = ");
    num(42).write_to(&mut out);
    assert_eq!(out, "x = 42");
}

#[test]
fn decimal_digits_are_appended() {
    let mut out = String::from(">");
    push_digits(&mut out, 0);
    push_digits(&mut out, 907);
    push_digits(&mut out, u64::MAX);
    assert_eq!(out, ">090718446744073709551615");
    let mut signed = String::new();
    push_decimal(&mut signed, -15);
    push_decimal(&mut signed, 15);
    assert_eq!(signed, "-1515");
}

#[test]
fn texts_are_compared_by_their_characters() {
    assert!(same_text("", ""));
    assert!(same_text("print", "print"));
    assert!(same_text("a猫", "a猫"));
    assert!(!same_text("print", "prinT"));
    assert!(!same_text("print", "prin"));
    assert!(!same_text("", "x"));
}

#[test]
fn equality_of_values_is_structural() {
    let a = Litteral::Tuple(vec![num(1), num(2)]);
    let b = Litteral::Tuple(vec![num(1), num(2)]);
    let c = Litteral::Tuple(vec![num(2), num(1)]);
    assert!(a == b);
    assert!(a.same(&b));
    assert!(a != c);
    assert!(!a.same(&c));
    assert!(a != Litteral::Tuple(vec![num(1)]));
    assert!(a != Litteral::Tuple(vec![num(1), num(2), num(3)]));
    assert!(Litteral::Tuple(vec![]) == Litteral::Tuple(vec![]));
    assert!(num(1) != Litteral::Bool(true));
    assert!(num(0) != Litteral::Str(String::from("0")));
    assert!(Litteral::Str(String::from("a")) == Litteral::Str(String::from("a")));
    assert!(Litteral::Str(String::from("a")) != Litteral::Str(String::from("b")));
    let deep_a = Litteral::Tuple(vec![a.clone(), Litteral::Tuple(vec![Litteral::Bool(false)])]);
    let deep_b = Litteral::Tuple(vec![b, Litteral::Tuple(vec![Litteral::Bool(false)])]);
    let deep_c = Litteral::Tuple(vec![c, Litteral::Tuple(vec![Litteral::Bool(false)])]);
    assert!(deep_a == deep_b);
    assert!(deep_a != deep_c);
}

#[test]
fn a_copy_of_a_value_is_equal_to_it() {
    let a = Litteral::Tuple(vec![
        num(1),
        Litteral::Str(String::from("two")),
        Litteral::Tuple(vec![Litteral::Bool(true)]),
    ]);
    assert_eq!(a.clone(), a);
    assert_eq!(a.duplicate(), a);
}
