use iku::lexer::{
    parse_integer, process_string_litteral, Gap, LexError, Lexer, Location, Span, Token,
};
use iku::text::{byte_len, cut, has_newline};

fn name(value: &str) -> Token {
    Token::Name {
        value: String::from(value),
    }
}

fn string(value: &str) -> Token {
    Token::StringLitteral {
        value: String::from(value),
    }
}

fn number(value: i64) -> Token {
    Token::IntLitteral { value }
}

fn at(start: usize, token: Token, end: usize) -> Span {
    Ok((Location(start), token, Location(end)))
}

fn unrecognized(position: usize) -> Span {
    Err(LexError {
        message: format!("Unrecognized characters at position {}", position),
    })
}

fn spans(input: &str) -> Vec<Span> {
    Lexer::new(input).unwrap().collect()
}

fn tokens(input: &str) -> Vec<Token> {
    spans(input)
        .into_iter()
        .map(|span| span.unwrap().1)
        .collect()
}

#[test]
fn unicode_names_can_be_lexed() {
    let a_cat = "a猫";
    let mut lexer = Lexer::new(a_cat).unwrap();
    let token = Token::Name {
        value: String::from(a_cat),
    };
    let span = (Location(0), token, Location(a_cat.len()));
    assert_eq!(lexer.next(), Some(Ok(span)));
    // A name ends where the word ends: the quotation mark at the end of
    // this text belongs to no word.
    let input = "açŒ«";
    let mut lexer = Lexer::new(input).unwrap();
    let token = Token::Name {
        value: String::from("açŒ"),
    };
    let span = (Location(0), token, Location(5));
    assert_eq!(lexer.next(), Some(Ok(span)));
    assert_eq!(lexer.next(), Some(unrecognized(5)));
    assert_eq!(lexer.next(), None);
}

#[test]
fn spaces_are_skipped_when_lexing() {
    let input = "func main";
    let lexer = Lexer::new(input).unwrap();
    let result: Vec<Span> = lexer.collect();
    let spans = vec![
        Ok((Location(0), Token::Func, Location(4))),
        Ok((
            Location(5),
            Token::Name {
                value: String::from("main"),
            },
            Location(9),
        )),
    ];
    assert_eq!(result, spans);
}

#[test]
fn string_litterals_lex() {
    let input = r#""\n""#;
    let lexer = Lexer::new(input).unwrap();
    let result: Vec<Span> = lexer.collect();
    let spans = vec![Ok((
        Location(0),
        Token::StringLitteral {
            value: String::from("\n"),
        },
        Location(4),
    ))];
    assert_eq!(result, spans);
}

#[test]
fn an_empty_text_has_no_token() {
    assert_eq!(spans(""), vec![]);
    assert_eq!(spans("  \n\t \r\n"), vec![]);
    assert_eq!(spans("// nothing but a comment"), vec![]);
    assert_eq!(Lexer::new("").unwrap().next(), None);
}

#[test]
fn the_end_of_the_text_is_told_again_and_again() {
    let mut lexer = Lexer::new("a").unwrap();
    assert_eq!(lexer.next(), Some(at(0, name("a"), 1)));
    assert_eq!(lexer.next(), None);
    assert_eq!(lexer.next(), None);
}

#[test]
fn every_symbol_and_keyword_is_a_token() {
    assert_eq!(
        tokens("{ } ( ) ; := == != = <= < >= > , + - true false func if else"),
        vec![
            Token::OpenBrace,
            Token::CloseBrace,
            Token::OpenParens,
            Token::CloseParens,
            Token::Semicolon,
            Token::Define,
            Token::DoubleEquals,
            Token::NotEquals,
            Token::Equals,
            Token::LessEquals,
            Token::Less,
            Token::GreaterEquals,
            Token::Greater,
            Token::Comma,
            Token::Plus,
            Token::Minus,
            Token::BoolLitteral { value: true },
            Token::BoolLitteral { value: false },
            Token::Func,
            Token::If,
            Token::Else,
        ]
    );
}

#[test]
fn symbols_need_no_space_between_them() {
    assert_eq!(
        spans("x:=2"),
        vec![
            at(0, name("x"), 1),
            at(1, Token::Define, 3),
            at(3, number(2), 4)
        ]
    );
    assert_eq!(
        tokens("a<=b>=c==d=e<f>g"),
        vec![
            name("a"),
            Token::LessEquals,
            name("b"),
            Token::GreaterEquals,
            name("c"),
            Token::DoubleEquals,
            name("d"),
            Token::Equals,
            name("e"),
            Token::Less,
            name("f"),
            Token::Greater,
            name("g"),
        ]
    );
    assert_eq!(
        tokens("==="),
        vec![Token::DoubleEquals, Token::Equals]
    );
}

#[test]
fn a_keyword_is_taken_before_a_name() {
    assert_eq!(tokens("iffy"), vec![Token::If, name("fy")]);
    assert_eq!(
        tokens("truex"),
        vec![Token::BoolLitteral { value: true }, name("x")]
    );
    assert_eq!(tokens("funcmain"), vec![Token::Func, name("main")]);
    assert_eq!(tokens("elsewhere"), vec![Token::Else, name("where")]);
    assert_eq!(tokens("fun"), vec![name("fun")]);
    assert_eq!(tokens("tru"), vec![name("tru")]);
}

#[test]
fn names_start_with_a_small_letter() {
    assert_eq!(tokens("a_b1 zZ9_"), vec![name("a_b1"), name("zZ9_")]);
    assert_eq!(spans("Abc"), vec![unrecognized(0)]);
    assert_eq!(spans("_a"), vec![unrecognized(0)]);
    assert_eq!(spans("猫"), vec![unrecognized(0)]);
    assert_eq!(
        spans("a猫 b"),
        vec![at(0, name("a猫"), 4), at(5, name("b"), 6)]
    );
}

#[test]
fn integers_may_carry_a_sign() {
    assert_eq!(spans("-5"), vec![at(0, number(-5), 2)]);
    assert_eq!(
        spans("- 5"),
        vec![at(0, Token::Minus, 1), at(2, number(5), 3)]
    );
    assert_eq!(
        tokens("a - 1"),
        vec![name("a"), Token::Minus, number(1)]
    );
    assert_eq!(tokens("a -1"), vec![name("a"), number(-1)]);
    assert_eq!(tokens("a-b"), vec![name("a"), Token::Minus, name("b")]);
    assert_eq!(tokens("007"), vec![number(7)]);
    assert_eq!(tokens("0"), vec![number(0)]);
    assert_eq!(tokens("-0"), vec![number(0)]);
    assert_eq!(tokens("1 2"), vec![number(1), number(2)]);
    assert_eq!(tokens("12ab"), vec![number(12), name("ab")]);
}

#[test]
fn a_minus_sign_needs_something_after_it() {
    assert_eq!(spans("-"), vec![unrecognized(0)]);
    assert_eq!(
        spans("a -"),
        vec![at(0, name("a"), 1), unrecognized(2)]
    );
    assert_eq!(spans("--"), vec![at(0, Token::Minus, 1), unrecognized(1)]);
}

#[test]
fn integers_fill_64_bits() {
    assert_eq!(tokens("9223372036854775807"), vec![number(i64::MAX)]);
    assert_eq!(tokens("-9223372036854775808"), vec![number(i64::MIN)]);
    assert_eq!(spans("9223372036854775808"), vec![unrecognized(0)]);
    assert_eq!(spans("-9223372036854775809"), vec![unrecognized(0)]);
    assert_eq!(
        spans("x := 99999999999999999999"),
        vec![
            at(0, name("x"), 1),
            at(2, Token::Define, 4),
            unrecognized(5)
        ]
    );
}

#[test]
fn string_literals_stand_between_double_quotes() {
    assert_eq!(spans(r#""""#), vec![at(0, string(""), 2)]);
    assert_eq!(spans(r#""abc""#), vec![at(0, string("abc"), 5)]);
    assert_eq!(
        spans(r#""a" "b""#),
        vec![at(0, string("a"), 3), at(4, string("b"), 7)]
    );
    assert_eq!(spans("\"a\nb\""), vec![at(0, string("a\nb"), 5)]);
    assert_eq!(spans("\"今日は\""), vec![at(0, string("今日は"), 11)]);
    assert_eq!(
        spans(r#""\n\t\r\\今日はhello""#),
        vec![at(0, string("\n\t\r\\今日はhello"), 24)]
    );
    assert_eq!(spans(r#""\q""#), vec![at(0, string("\\q"), 4)]);
}

#[test]
fn a_string_literal_ends_at_the_next_double_quote() {
    // A backslash does not keep a double quote from ending the literal.
    assert_eq!(
        spans(r#""a\"b"#),
        vec![at(0, string("a"), 4), at(4, name("b"), 5)]
    );
    assert_eq!(spans(r#""abc"#), vec![unrecognized(0)]);
    assert_eq!(spans(r#"abc""#), vec![at(0, name("abc"), 3), unrecognized(3)]);
}

#[test]
fn comments_run_to_the_end_of_the_line() {
    assert_eq!(
        spans("{ // a comment\n}"),
        vec![at(0, Token::OpenBrace, 1), at(15, Token::CloseBrace, 16)]
    );
    assert_eq!(spans("// one\n// two\nfunc"), vec![at(14, Token::Func, 18)]);
    assert_eq!(spans("func // the end"), vec![at(0, Token::Func, 4)]);
}

#[test]
fn the_end_of_a_line_stands_for_a_semicolon_after_the_end_of_a_statement() {
    assert_eq!(
        spans("a\nb"),
        vec![
            at(0, name("a"), 1),
            at(1, Token::Semicolon, 2),
            at(2, name("b"), 3)
        ]
    );
    for (input, last) in [
        (")", Token::CloseParens),
        ("}", Token::CloseBrace),
        ("12", number(12)),
        ("\"s\"", string("s")),
        ("x", name("x")),
    ] {
        let len = input.len();
        assert_eq!(
            spans(&format!("{}\n", input)),
            vec![at(0, last, len), at(len, Token::Semicolon, len + 1)]
        );
    }
}

#[test]
fn the_end_of_a_line_stands_for_nothing_after_any_other_token() {
    for (input, token) in [
        ("{", Token::OpenBrace),
        ("(", Token::OpenParens),
        (";", Token::Semicolon),
        (":=", Token::Define),
        ("=", Token::Equals),
        ("==", Token::DoubleEquals),
        ("!=", Token::NotEquals),
        ("<=", Token::LessEquals),
        ("<", Token::Less),
        (">=", Token::GreaterEquals),
        (">", Token::Greater),
        (",", Token::Comma),
        ("+", Token::Plus),
        ("func", Token::Func),
        ("if", Token::If),
        ("else", Token::Else),
        ("true", Token::BoolLitteral { value: true }),
        ("false", Token::BoolLitteral { value: false }),
    ] {
        assert_eq!(
            spans(&format!("{}\n\n", input)),
            vec![at(0, token, input.len())]
        );
    }
    assert_eq!(spans("-\n"), vec![at(0, Token::Minus, 1)]);
    assert_eq!(spans("\n\na"), vec![at(2, name("a"), 3)]);
}

#[test]
fn several_ends_of_line_stand_for_one_semicolon() {
    assert_eq!(
        spans("a\n\n\n b"),
        vec![
            at(0, name("a"), 1),
            at(1, Token::Semicolon, 5),
            at(5, name("b"), 6)
        ]
    );
    assert_eq!(
        spans("a // note\n  // more\n\nb"),
        vec![
            at(0, name("a"), 1),
            at(1, Token::Semicolon, 21),
            at(21, name("b"), 22)
        ]
    );
    assert_eq!(
        spans("a \t\r\n"),
        vec![at(0, name("a"), 1), at(1, Token::Semicolon, 5)]
    );
}

#[test]
fn a_gap_without_an_end_of_line_stands_for_nothing() {
    assert_eq!(
        spans("a  \t b"),
        vec![at(0, name("a"), 1), at(5, name("b"), 6)]
    );
    assert_eq!(spans("a // to the end"), vec![at(0, name("a"), 1)]);
}

#[test]
fn no_semicolon_follows_a_semicolon() {
    assert_eq!(
        tokens("a\n;\nb"),
        vec![name("a"), Token::Semicolon, Token::Semicolon, name("b")]
    );
    assert_eq!(tokens("a;\nb"), vec![name("a"), Token::Semicolon, name("b")]);
}

#[test]
fn what_is_no_token_ends_the_tokens() {
    assert_eq!(
        spans("a $ b"),
        vec![at(0, name("a"), 1), unrecognized(2)]
    );
    let mut lexer = Lexer::new("a $ b").unwrap();
    assert_eq!(lexer.next(), Some(at(0, name("a"), 1)));
    assert_eq!(lexer.next(), Some(unrecognized(2)));
    assert_eq!(lexer.next(), None);
    assert_eq!(spans("?"), vec![unrecognized(0)]);
    assert_eq!(spans("!"), vec![unrecognized(0)]);
    assert_eq!(spans(":"), vec![unrecognized(0)]);
    assert_eq!(
        spans("print(16 / 2)"),
        vec![
            at(0, name("print"), 5),
            at(5, Token::OpenParens, 6),
            at(6, number(16), 8),
            unrecognized(9)
        ]
    );
}

#[test]
fn an_error_keeps_the_semicolon_that_was_due() {
    assert_eq!(
        spans("a\n$"),
        vec![
            at(0, name("a"), 1),
            at(1, Token::Semicolon, 2),
            unrecognized(2)
        ]
    );
}

#[test]
fn a_program_is_tokenized() {
    assert_eq!(
        tokens("func main() { print(2) }"),
        vec![
            Token::Func,
            name("main"),
            Token::OpenParens,
            Token::CloseParens,
            Token::OpenBrace,
            name("print"),
            Token::OpenParens,
            number(2),
            Token::CloseParens,
            Token::CloseBrace,
        ]
    );
    assert_eq!(
        tokens(
            "func foo(x, y) {\n    print(x)\n    print(y)\n}\n\nfunc main() {\n    foo(1, 2)\n}\n"
        ),
        vec![
            Token::Func,
            name("foo"),
            Token::OpenParens,
            name("x"),
            Token::Comma,
            name("y"),
            Token::CloseParens,
            Token::OpenBrace,
            name("print"),
            Token::OpenParens,
            name("x"),
            Token::CloseParens,
            Token::Semicolon,
            name("print"),
            Token::OpenParens,
            name("y"),
            Token::CloseParens,
            Token::Semicolon,
            Token::CloseBrace,
            Token::Semicolon,
            Token::Func,
            name("main"),
            Token::OpenParens,
            Token::CloseParens,
            Token::OpenBrace,
            name("foo"),
            Token::OpenParens,
            number(1),
            Token::Comma,
            number(2),
            Token::CloseParens,
            Token::Semicolon,
            Token::CloseBrace,
            Token::Semicolon,
        ]
    );
    assert_eq!(
        tokens("func main() { x := 2; print(x); x = 3; print(x) }"),
        vec![
            Token::Func,
            name("main"),
            Token::OpenParens,
            Token::CloseParens,
            Token::OpenBrace,
            name("x"),
            Token::Define,
            number(2),
            Token::Semicolon,
            name("print"),
            Token::OpenParens,
            name("x"),
            Token::CloseParens,
            Token::Semicolon,
            name("x"),
            Token::Equals,
            number(3),
            Token::Semicolon,
            name("print"),
            Token::OpenParens,
            name("x"),
            Token::CloseParens,
            Token::CloseBrace,
        ]
    );
}

#[test]
fn escapes_are_decoded() {
    assert_eq!(process_string_litteral(""), "");
    assert_eq!(process_string_litteral("plain"), "plain");
    assert_eq!(process_string_litteral(r"a\nb"), "a\nb");
    assert_eq!(process_string_litteral(r"\\"), "\\");
    assert_eq!(process_string_litteral(r"\r"), "\r");
    assert_eq!(process_string_litteral(r"\t"), "\t");
    assert_eq!(process_string_litteral(r"\n\t\r\\今日はhello"), "\n\t\r\\今日はhello");
    assert_eq!(process_string_litteral(r"\\n"), "\\n");
    assert_eq!(process_string_litteral(r"\\\n"), "\\\n");
}

#[test]
fn an_unknown_escape_is_kept_as_it_is() {
    assert_eq!(process_string_litteral(r"\q"), "\\q");
    assert_eq!(process_string_litteral(r"\0"), "\\0");
    assert_eq!(process_string_litteral(r"\猫"), "\\猫");
    assert_eq!(process_string_litteral(r"\ "), "\\ ");
    assert_eq!(process_string_litteral(r"\N"), "\\N");
}

#[test]
fn double_quotes_are_dropped() {
    assert_eq!(process_string_litteral(r#""abc""#), "abc");
    assert_eq!(process_string_litteral(r#"a""b"#), "ab");
    assert_eq!(process_string_litteral(r#"a\"b"#), "ab");
    assert_eq!(process_string_litteral(r#"a\"nb"#), "anb");
    assert_eq!(process_string_litteral(r#"""#), "");
}

#[test]
fn a_backslash_at_the_end_stands_for_nothing() {
    assert_eq!(process_string_litteral("\\"), "");
    assert_eq!(process_string_litteral("ab\\"), "ab");
    assert_eq!(process_string_litteral("ab\\\\"), "ab\\");
}

#[test]
fn integers_are_read_in_decimal() {
    assert_eq!(parse_integer("0"), Some(0));
    assert_eq!(parse_integer("42"), Some(42));
    assert_eq!(parse_integer("-42"), Some(-42));
    assert_eq!(parse_integer("000123"), Some(123));
    assert_eq!(parse_integer("-0"), Some(0));
    assert_eq!(parse_integer("9223372036854775807"), Some(i64::MAX));
    assert_eq!(parse_integer("-9223372036854775808"), Some(i64::MIN));
    assert_eq!(parse_integer("9223372036854775808"), None);
    assert_eq!(parse_integer("-9223372036854775809"), None);
    assert_eq!(parse_integer("92233720368547758070"), None);
    assert_eq!(parse_integer("18446744073709551616"), None);
    assert_eq!(parse_integer("340282366920938463463374607431768211456"), None);
    assert_eq!(parse_integer(""), None);
    assert_eq!(parse_integer("-"), None);
    assert_eq!(parse_integer("--1"), None);
    assert_eq!(parse_integer("1-"), None);
    assert_eq!(parse_integer("+1"), None);
    assert_eq!(parse_integer("1a"), None);
    assert_eq!(parse_integer("a1"), None);
    assert_eq!(parse_integer(" 1"), None);
    assert_eq!(parse_integer("１"), None);
}

#[test]
fn newlines_are_found_in_a_text() {
    assert!(has_newline("\n"));
    assert!(has_newline("a\nb"));
    assert!(has_newline("猫 \r\n"));
    assert!(!has_newline(""));
    assert!(!has_newline("a\rb\t"));
    assert!(!has_newline("\\n"));
}

#[test]
fn a_text_is_cut_at_boundaries_of_characters() {
    let data = "a猫b";
    assert_eq!(byte_len(data), 5);
    assert_eq!(cut(data, 0, 5), Some("a猫b"));
    assert_eq!(cut(data, 0, 0), Some(""));
    assert_eq!(cut(data, 5, 5), Some(""));
    assert_eq!(cut(data, 1, 4), Some("猫"));
    assert_eq!(cut(data, 4, 5), Some("b"));
    assert_eq!(cut(data, 0, 2), None);
    assert_eq!(cut(data, 2, 4), None);
    assert_eq!(cut(data, 3, 3), None);
    assert_eq!(cut(data, 4, 1), None);
    assert_eq!(cut(data, 0, 6), None);
    assert_eq!(cut(data, 6, 6), None);
    assert_eq!(cut(data, usize::MAX, usize::MAX), None);
}

#[test]
fn a_name_is_taken_where_a_search_found_it() {
    let mut lexer = Lexer::new("hello world").unwrap();
    assert_eq!(lexer.take_name(None), None);
    assert_eq!(lexer.take_name(Some((0, 50))), None);
    assert_eq!(lexer.take_name(Some((3, 3))), None);
    assert_eq!(lexer.take_name(Some((3, 2))), None);
    assert_eq!(lexer.take_name(Some((usize::MAX, usize::MAX))), None);
    assert_eq!(lexer.take_name(Some((1, usize::MAX))), None);
    assert_eq!(lexer.take_name(Some((0, 5))), Some(at(0, name("hello"), 5)));
    // The place is now behind `hello`; offsets count from there, and the
    // place moves on by the length of what was found.
    assert_eq!(lexer.take_name(Some((1, 3))), Some(at(5, name("wo"), 7)));
    assert_eq!(lexer.next(), Some(at(7, name("orld"), 11)));
}

#[test]
fn nothing_is_taken_within_a_character() {
    let mut lexer = Lexer::new("a猫").unwrap();
    assert_eq!(lexer.take_name(Some((0, 2))), None);
    assert_eq!(lexer.take_name(Some((0, 3))), None);
    assert_eq!(lexer.take_int(Some((0, 2))), None);
    assert_eq!(lexer.take_gap(Some((0, 3))), Gap::Absent);
    assert_eq!(lexer.take_string(Some(vec![Some((0, 4)), Some((2, 3))])), None);
    assert_eq!(lexer.take_string(Some(vec![Some((0, 3)), Some((0, 1))])), None);
    assert_eq!(lexer.next(), Some(at(0, name("a猫"), 4)));
}

#[test]
fn an_integer_is_taken_where_a_search_found_it() {
    let mut lexer = Lexer::new("123x").unwrap();
    assert_eq!(lexer.take_int(None), None);
    assert_eq!(lexer.take_int(Some((0, 4))), None);
    assert_eq!(lexer.take_int(Some((0, 0))), None);
    assert_eq!(lexer.take_int(Some((0, 2))), Some(at(0, number(12), 2)));
    assert_eq!(lexer.next(), Some(at(2, number(3), 3)));
}

#[test]
fn a_symbol_is_taken_where_a_search_found_it() {
    let mut lexer = Lexer::new(":= 1").unwrap();
    assert_eq!(lexer.take_simple(&vec![]), None);
    assert_eq!(lexer.take_simple(&vec![21]), None);
    assert_eq!(lexer.take_simple(&vec![usize::MAX]), None);
    assert_eq!(lexer.take_simple(&vec![17]), None);
    assert_eq!(lexer.take_simple(&vec![5, 8]), Some(at(0, Token::Define, 2)));
    assert_eq!(lexer.take_simple(&vec![4, 5]), Some(at(2, Token::Semicolon, 3)));
    assert_eq!(lexer.next(), Some(at(3, number(1), 4)));
}

#[test]
fn a_string_literal_is_taken_where_a_search_found_it() {
    let mut lexer = Lexer::new(r#""a\tb" x"#).unwrap();
    assert_eq!(lexer.take_string(None), None);
    assert_eq!(lexer.take_string(Some(vec![])), None);
    assert_eq!(lexer.take_string(Some(vec![Some((0, 6))])), None);
    assert_eq!(lexer.take_string(Some(vec![Some((0, 6)), None])), None);
    assert_eq!(lexer.take_string(Some(vec![None, Some((1, 5))])), None);
    assert_eq!(lexer.take_string(Some(vec![Some((0, 0)), Some((1, 5))])), None);
    assert_eq!(lexer.take_string(Some(vec![Some((0, 6)), Some((1, 50))])), None);
    assert_eq!(
        lexer.take_string(Some(vec![Some((0, 6)), Some((1, 5)), None])),
        Some(at(0, string("a\tb"), 6))
    );
    assert_eq!(lexer.next(), Some(at(7, name("x"), 8)));
}

#[test]
fn a_gap_is_skipped_where_a_search_found_it() {
    let mut lexer = Lexer::new("a \n b").unwrap();
    assert_eq!(lexer.take_gap(None), Gap::Absent);
    assert_eq!(lexer.take_gap(Some((0, 0))), Gap::Absent);
    assert_eq!(lexer.take_gap(Some((0, 9))), Gap::Absent);
    // No semicolon may be inserted at the start of a text.
    assert_eq!(lexer.take_gap(Some((1, 3))), Gap::Skipped);
    assert_eq!(lexer.next(), Some(at(4, name("b"), 5)));
    let mut lexer = Lexer::new("a \n b").unwrap();
    assert_eq!(lexer.next(), Some(at(0, name("a"), 1)));
    assert_eq!(lexer.take_gap(Some((0, 1))), Gap::Skipped);
    assert_eq!(lexer.take_gap(Some((0, 2))), Gap::LineEnd(Location(2), Location(4)));
    assert_eq!(lexer.next(), Some(at(4, name("b"), 5)));
}

#[test]
fn the_rest_of_the_text_is_given_up_as_one_error() {
    let mut lexer = Lexer::new("a b c").unwrap();
    assert_eq!(lexer.next(), Some(at(0, name("a"), 1)));
    assert_eq!(lexer.reject(), unrecognized(1));
    assert_eq!(lexer.next(), None);
}
