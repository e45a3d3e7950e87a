//! The tokenizer.
//!
//! It turns source text into tokens with their places, skipping white space
//! and comments, and puts a semicolon where a line ends after a token that
//! can end a statement.

use crate::matcher::{
    capture_groups, captures, compile, compile_set, find, first_match, groups_of,
    matching_patterns, pattern_compiles, patterns_compile, regex_set_sources, regex_source,
    sources_of, span_of, which_match,
};
use crate::text::{
    between, boundary, byte_len, cut, digits, has_newline, push_digits, rest, size,
};
use regex::{Regex, RegexSet};
use vstd::prelude::*;
use vstd::string::*;
use vstd::utf8::{
    encode_utf8, encode_utf8_decode_utf8, encode_utf8_valid_utf8,
    is_char_boundary_start_end_of_seq,
};

verus! {

/// What a character stands for after a backslash: a newline for `n`, a
/// backslash for a backslash, a carriage return for `r`, a tab for `t`, and
/// for any other character the backslash and the character themselves.
pub open spec fn escaped(c: char) -> Seq<char> {
    if c == 'n' {
        seq!['\n']
    } else if c == '\\' {
        seq!['\\']
    } else if c == 'r' {
        seq!['\r']
    } else if c == 't' {
        seq!['\t']
    } else {
        seq!['\\', c]
    }
}

/// The text that the inside of a string literal stands for.
///
/// Double quotes are dropped wherever they stand. A backslash and the
/// character after it stand for what [`escaped`] says; a backslash at the
/// very end stands for nothing.
pub open spec fn unescape(input: Seq<char>) -> Seq<char>
    decreases input.len(),
{
    if input.len() == 0 {
        Seq::empty()
    } else if input[0] == '"' {
        unescape(input.skip(1))
    } else if input[0] == '\\' {
        after_backslash(input.skip(1))
    } else {
        seq![input[0]] + unescape(input.skip(1))
    }
}

/// The text that the input stands for where it follows a backslash.
pub open spec fn after_backslash(input: Seq<char>) -> Seq<char>
    decreases input.len(),
{
    if input.len() == 0 {
        Seq::empty()
    } else if input[0] == '"' {
        unescape(input.skip(1))
    } else {
        escaped(input[0]) + unescape(input.skip(1))
    }
}

/// Handles the escape sequences of the inside of a string literal.
pub fn process_string_litteral(input: &str) -> (r: String)
    ensures
        r@ == unescape(input@),
{
    let mut acc = String::new();
    let mut escaping = false;
    assert(input@.skip(0) =~= input@);
    for c in it: input.chars()
        invariant
            it.seq() == input@,
            unescape(input@) == acc@ + if escaping {
                after_backslash(input@.skip(it.index()))
            } else {
                unescape(input@.skip(it.index()))
            },
    {
        assert(input@.skip(it.index()).skip(1) =~= input@.skip(it.index() + 1));
        if c == '"' {
            escaping = false;
        } else if escaping {
            if c == 'n' {
                acc.push('\n');
            } else if c == '\\' {
                acc.push('\\');
            } else if c == 'r' {
                acc.push('\r');
            } else if c == 't' {
                acc.push('\t');
            } else {
                acc.push('\\');
                acc.push(c);
            }
            escaping = false;
        } else if c == '\\' {
            escaping = true;
        } else {
            acc.push(c);
        }
    }
    acc
}

/// The number that a run of decimal digits stands for; nothing for an empty
/// run and for a run that holds anything but the digits `0` to `9`.
pub open spec fn number(text: Seq<char>) -> Option<int>
    decreases text.len(),
{
    if text.len() == 0 {
        None
    } else if !('0' <= text.last() <= '9') {
        None
    } else if text.len() == 1 {
        Some(text.last() as int - '0' as int)
    } else {
        match number(text.drop_last()) {
            Some(high) => Some(10 * high + (text.last() as int - '0' as int)),
            None => None,
        }
    }
}

/// The integer that a text stands for: decimal digits, after a minus sign
/// for a negative one, that give a number of 64 bits.
pub open spec fn integer(text: Seq<char>) -> Option<i64> {
    let exact = if text.len() > 0 && text[0] == '-' {
        match number(text.skip(1)) {
            Some(n) => Some(-n),
            None => None,
        }
    } else {
        number(text)
    };
    match exact {
        Some(v) => if i64::MIN <= v <= i64::MAX {
            Some(v as i64)
        } else {
            None
        },
        None => None,
    }
}

/// Every prefix of a run of digits is a run of digits, and stands for no
/// more than the whole.
proof fn lemma_number_grows(text: Seq<char>, k: int)
    requires
        0 < k <= text.len(),
        number(text) is Some,
    ensures
        number(text.take(k)) matches Some(head) && 0 <= head <= number(text)->0,
    decreases text.len(),
{
    if k == text.len() {
        assert(text.take(k) =~= text);
        if text.len() > 1 {
            lemma_number_grows(text.drop_last(), k - 1);
        }
    } else {
        assert(text.drop_last().take(k) =~= text.take(k));
        lemma_number_grows(text.drop_last(), k);
    }
}

/// A text of which a prefix, after the sign, is no run of digits or stands
/// for more than 64 bits can hold, stands for no integer.
proof fn lemma_integer_fails(text: Seq<char>, from: int, to: int)
    requires
        from == (if text.len() > 0 && text[0] == '-' {
            1int
        } else {
            0int
        }),
        from < to <= text.len(),
        match number(text.subrange(from, to)) {
            Some(n) => n > 0x8000_0000_0000_0000,
            None => true,
        },
    ensures
        integer(text) is None,
{
    let body = text.skip(from);
    assert(text.skip(0) =~= text);
    if number(body) is Some {
        lemma_number_grows(body, to - from);
        assert(body.take(to - from) =~= text.subrange(from, to));
    }
}

/// Reads an integer in decimal.
pub fn parse_integer(text: &str) -> (r: Option<i64>)
    ensures
        r == integer(text@),
{
    let mut first = true;
    let mut negative = false;
    let mut any_digit = false;
    let mut magnitude: u64 = 0;
    for c in it: text.chars()
        invariant
            it.seq() == text@,
            first == (it.index() == 0),
            negative == (it.index() > 0 && text@[0] == '-'),
            any_digit == (it.index() > if negative {
                1int
            } else {
                0int
            }),
            magnitude <= 0x8000_0000_0000_0000,
            !any_digit ==> magnitude == 0,
            any_digit ==> number(
                text@.subrange(
                    if negative {
                        1int
                    } else {
                        0int
                    },
                    it.index(),
                ),
            ) == Some(magnitude as int),
    {
        let ghost from = if text@[0] == '-' {
            1int
        } else {
            0int
        };
        let ghost upto = text@.subrange(from, it.index() + 1);
        if first && c == '-' {
            negative = true;
        } else if c >= '0' && c <= '9' {
            proof {
                assert(upto.drop_last() =~= text@.subrange(from, it.index()));
            }
            if magnitude > 922337203685477580 {
                proof {
                    lemma_integer_fails(text@, from, it.index() + 1);
                }
                return None;
            }
            let digit = (c as u32 - '0' as u32) as u64;
            magnitude = magnitude * 10 + digit;
            any_digit = true;
            if magnitude > 0x8000_0000_0000_0000 {
                proof {
                    lemma_integer_fails(text@, from, it.index() + 1);
                }
                return None;
            }
        } else {
            proof {
                lemma_integer_fails(text@, from, it.index() + 1);
            }
            return None;
        }
        first = false;
    }
    assert(text@.subrange(0, text@.len() as int) =~= text@);
    if !any_digit {
        return None;
    }
    if negative {
        if magnitude == 0x8000_0000_0000_0000 {
            Some(i64::MIN)
        } else {
            Some(-(magnitude as i64))
        }
    } else if magnitude == 0x8000_0000_0000_0000 {
        None
    } else {
        Some(magnitude as i64)
    }
}

/// The tokens of the language.
#[allow(inconsistent_fields)]
#[derive(Debug, PartialEq)]
pub enum Token {
    OpenBrace,
    CloseBrace,
    OpenParens,
    CloseParens,
    Semicolon,
    /// The := symbol
    Define,
    /// The = symbol
    Equals,
    /// The == symbol
    DoubleEquals,
    /// The != symbol
    NotEquals,
    /// The <= symbol
    LessEquals,
    /// The < symbol
    Less,
    /// The >= symbol
    GreaterEquals,
    /// The > symbol
    Greater,
    /// The , symbol
    Comma,
    /// The + symbol
    Plus,
    /// The - symbol
    Minus,
    /// The func keyword
    Func,
    /// The if keyword
    If,
    /// The else keyword
    Else,
    BoolLitteral { value: bool },
    StringLitteral { value: String },
    IntLitteral { value: i64 },
    Name { value: String },
}

/// The mathematical model of a token.
#[allow(inconsistent_fields)]
pub enum TokenView {
    OpenBrace,
    CloseBrace,
    OpenParens,
    CloseParens,
    Semicolon,
    Define,
    Equals,
    DoubleEquals,
    NotEquals,
    LessEquals,
    Less,
    GreaterEquals,
    Greater,
    Comma,
    Plus,
    Minus,
    Func,
    If,
    Else,
    BoolLitteral { value: bool },
    StringLitteral { value: Seq<char> },
    IntLitteral { value: i64 },
    Name { value: Seq<char> },
}

impl View for Token {
    type V = TokenView;

    open spec fn view(&self) -> TokenView {
        match self {
            Token::OpenBrace => TokenView::OpenBrace,
            Token::CloseBrace => TokenView::CloseBrace,
            Token::OpenParens => TokenView::OpenParens,
            Token::CloseParens => TokenView::CloseParens,
            Token::Semicolon => TokenView::Semicolon,
            Token::Define => TokenView::Define,
            Token::Equals => TokenView::Equals,
            Token::DoubleEquals => TokenView::DoubleEquals,
            Token::NotEquals => TokenView::NotEquals,
            Token::LessEquals => TokenView::LessEquals,
            Token::Less => TokenView::Less,
            Token::GreaterEquals => TokenView::GreaterEquals,
            Token::Greater => TokenView::Greater,
            Token::Comma => TokenView::Comma,
            Token::Plus => TokenView::Plus,
            Token::Minus => TokenView::Minus,
            Token::Func => TokenView::Func,
            Token::If => TokenView::If,
            Token::Else => TokenView::Else,
            Token::BoolLitteral { value } => TokenView::BoolLitteral { value: *value },
            Token::StringLitteral { value } => TokenView::StringLitteral { value: value@ },
            Token::IntLitteral { value } => TokenView::IntLitteral { value: *value },
            Token::Name { value } => TokenView::Name { value: value@ },
        }
    }
}

impl Clone for Token {
    fn clone(&self) -> (r: Self)
        ensures
            r@ == self@,
    {
        match self {
            Token::OpenBrace => Token::OpenBrace,
            Token::CloseBrace => Token::CloseBrace,
            Token::OpenParens => Token::OpenParens,
            Token::CloseParens => Token::CloseParens,
            Token::Semicolon => Token::Semicolon,
            Token::Define => Token::Define,
            Token::Equals => Token::Equals,
            Token::DoubleEquals => Token::DoubleEquals,
            Token::NotEquals => Token::NotEquals,
            Token::LessEquals => Token::LessEquals,
            Token::Less => Token::Less,
            Token::GreaterEquals => Token::GreaterEquals,
            Token::Greater => Token::Greater,
            Token::Comma => Token::Comma,
            Token::Plus => Token::Plus,
            Token::Minus => Token::Minus,
            Token::Func => Token::Func,
            Token::If => Token::If,
            Token::Else => Token::Else,
            Token::BoolLitteral { value } => Token::BoolLitteral { value: *value },
            Token::StringLitteral { value } => Token::StringLitteral { value: value.clone() },
            Token::IntLitteral { value } => Token::IntLitteral { value: *value },
            Token::Name { value } => Token::Name { value: value.clone() },
        }
    }
}

/// An error of the tokenizer: text that is no token.
#[derive(Debug, PartialEq)]
pub struct LexError {
    /// The error in words
    pub message: String,
}

impl Clone for LexError {
    fn clone(&self) -> (r: Self)
        ensures
            r.message@ == self.message@,
    {
        LexError { message: self.message.clone() }
    }
}

/// A place in a text: an offset in bytes from its start.
#[derive(Debug, Default, Clone, Copy, PartialEq, PartialOrd)]
pub struct Location(pub usize);

/// What the tokenizer produces: a token between the places where it starts
/// and ends, or an error.
pub type Span = Result<(Location, Token, Location), LexError>;

/// The mathematical model of what the tokenizer produces.
pub type SpanView = Result<(int, TokenView, int), Seq<char>>;

/// The model of a token between two places, or of an error.
pub open spec fn span_view(span: Span) -> SpanView {
    match span {
        Ok((start, token, end)) => Ok((start.0 as int, token@, end.0 as int)),
        Err(e) => Err(e.message@),
    }
}

/// The model of what one request to the tokenizer gives.
pub open spec fn item_view(item: Option<Span>) -> Option<SpanView> {
    match item {
        Some(span) => Some(span_view(span)),
        None => None,
    }
}

/// White space and comments that run to the end of the line.
pub const SKIP_PATTERN: &'static str = r"^((//[^\n]*)|\s)+";

/// An integer, with or without a minus sign.
pub const INT_PATTERN: &'static str = r"^-?[0-9]+";

/// A string between double quotes; the first group is what stands between
/// them.
pub const STRING_PATTERN: &'static str = r#"^"([^"]*)""#;

/// A name: a small letter, then letters, digits and underscores.
pub const NAME_PATTERN: &'static str = r"^[a-z]\w*";

/// How many symbols and keywords there are.
pub const SIMPLE_COUNT: usize = 21;

/// The patterns of the symbols and keywords, in the order in which they
/// are tried.
pub open spec fn simple_sources() -> Seq<Seq<char>> {
    seq![
        r"^\{"@,
        r"^\}"@,
        r"^\("@,
        r"^\)"@,
        r"^;"@,
        r"^:="@,
        r"^=="@,
        r"^!="@,
        r"^="@,
        r"^<="@,
        r"^<"@,
        r"^>="@,
        r"^>"@,
        r"^,"@,
        r"^\+"@,
        r"^-\D"@,
        r"^true"@,
        r"^false"@,
        r"^func"@,
        r"^if"@,
        r"^else"@,
    ]
}

/// The length in bytes of the symbol or keyword at an index of
/// [`simple_sources`].
pub open spec fn simple_length(i: int) -> int {
    if i == 5 || i == 6 || i == 7 || i == 9 || i == 11 || i == 19 {
        2
    } else if i == 16 || i == 18 || i == 20 {
        4
    } else if i == 17 {
        5
    } else {
        1
    }
}

/// The token of the symbol or keyword at an index of [`simple_sources`].
pub open spec fn simple_token(i: int) -> TokenView {
    if i == 0 {
        TokenView::OpenBrace
    } else if i == 1 {
        TokenView::CloseBrace
    } else if i == 2 {
        TokenView::OpenParens
    } else if i == 3 {
        TokenView::CloseParens
    } else if i == 4 {
        TokenView::Semicolon
    } else if i == 5 {
        TokenView::Define
    } else if i == 6 {
        TokenView::DoubleEquals
    } else if i == 7 {
        TokenView::NotEquals
    } else if i == 8 {
        TokenView::Equals
    } else if i == 9 {
        TokenView::LessEquals
    } else if i == 10 {
        TokenView::Less
    } else if i == 11 {
        TokenView::GreaterEquals
    } else if i == 12 {
        TokenView::Greater
    } else if i == 13 {
        TokenView::Comma
    } else if i == 14 {
        TokenView::Plus
    } else if i == 15 {
        TokenView::Minus
    } else if i == 16 {
        TokenView::BoolLitteral { value: true }
    } else if i == 17 {
        TokenView::BoolLitteral { value: false }
    } else if i == 18 {
        TokenView::Func
    } else if i == 19 {
        TokenView::If
    } else {
        TokenView::Else
    }
}

fn simple_patterns() -> (r: Vec<&'static str>)
    ensures
        sources_of(r@) == simple_sources(),
{
    let r = vec![
        r"^\{",
        r"^\}",
        r"^\(",
        r"^\)",
        r"^;",
        r"^:=",
        r"^==",
        r"^!=",
        r"^=",
        r"^<=",
        r"^<",
        r"^>=",
        r"^>",
        r"^,",
        r"^\+",
        r"^-\D",
        r"^true",
        r"^false",
        r"^func",
        r"^if",
        r"^else",
    ];
    r
}

fn length_of_simple(i: usize) -> (r: usize)
    ensures
        r == simple_length(i as int),
{
    if i == 5 || i == 6 || i == 7 || i == 9 || i == 11 || i == 19 {
        2
    } else if i == 16 || i == 18 || i == 20 {
        4
    } else if i == 17 {
        5
    } else {
        1
    }
}

fn token_of_simple(i: usize) -> (r: Token)
    ensures
        r@ == simple_token(i as int),
{
    match i {
        0 => Token::OpenBrace,
        1 => Token::CloseBrace,
        2 => Token::OpenParens,
        3 => Token::CloseParens,
        4 => Token::Semicolon,
        5 => Token::Define,
        6 => Token::DoubleEquals,
        7 => Token::NotEquals,
        8 => Token::Equals,
        9 => Token::LessEquals,
        10 => Token::Less,
        11 => Token::GreaterEquals,
        12 => Token::Greater,
        13 => Token::Comma,
        14 => Token::Plus,
        15 => Token::Minus,
        16 => Token::BoolLitteral { value: true },
        17 => Token::BoolLitteral { value: false },
        18 => Token::Func,
        19 => Token::If,
        _ => Token::Else,
    }
}

/// Whether a statement can end with the given token, so that the end of
/// the line after it stands for a semicolon.
pub open spec fn ends_statement(token: TokenView) -> bool {
    token is CloseParens || token is CloseBrace || token is IntLitteral
        || token is StringLitteral || token is Name
}

/// What one step of the tokenizer gives: the place where it stops, and a
/// token, an error, or nothing where the text has ended.
pub struct Step {
    pub pos: int,
    pub item: Option<SpanView>,
}

/// The step that gives a token from `pos` to `after`.
pub open spec fn token_step(pos: int, token: TokenView, after: int) -> Step {
    Step { pos: after, item: Some(Ok((pos, token, after))) }
}

/// The place after a match that was found in the rest of the text at
/// `pos`: as far behind `pos` as the match is long, provided that the match
/// is not empty and that the place is a boundary.
pub open spec fn landing(text: Seq<char>, pos: int, found: (int, int)) -> Option<int> {
    if found.0 < found.1 && boundary(text, pos + (found.1 - found.0)) {
        Some(pos + (found.1 - found.0))
    } else {
        None
    }
}

/// The text of a match that was found in the rest of the text at `pos`.
pub open spec fn matched(text: Seq<char>, pos: int, found: (int, int)) -> Option<Seq<char>> {
    between(text, pos + found.0, pos + found.1)
}

/// What follows from a search for white space and comments at `pos`:
/// where they end, and whether a semicolon is due, which is so where one
/// may be inserted and the gap holds a newline.
pub open spec fn gap_step(text: Seq<char>, pos: int, can_insert: bool, found: Option<(int, int)>)
    -> Option<(int, bool)> {
    match found {
        Some(m) => match (matched(text, pos, m), landing(text, pos, m)) {
            (Some(gap), Some(after)) => Some((after, can_insert && gap.contains('\n'))),
            _ => None,
        },
        None => None,
    }
}

/// What follows from a search for symbols and keywords at `pos`: the
/// token of the first pattern that matched.
pub open spec fn simple_step(text: Seq<char>, pos: int, hits: Seq<int>) -> Option<Step> {
    if hits.len() > 0 && 0 <= hits[0] < SIMPLE_COUNT && boundary(
        text,
        pos + simple_length(hits[0]),
    ) {
        Some(token_step(pos, simple_token(hits[0]), pos + simple_length(hits[0])))
    } else {
        None
    }
}

/// What follows from a search for a name at `pos`.
pub open spec fn name_step(text: Seq<char>, pos: int, found: Option<(int, int)>) -> Option<Step> {
    match found {
        Some(m) => match (matched(text, pos, m), landing(text, pos, m)) {
            (Some(name), Some(after)) => Some(
                token_step(pos, TokenView::Name { value: name }, after),
            ),
            _ => None,
        },
        None => None,
    }
}

/// What follows from a search for a string literal at `pos`: the token
/// holds what the first group stands for, and ends where the whole match
/// ends.
pub open spec fn string_step(
    text: Seq<char>,
    pos: int,
    groups: Option<Seq<Option<(int, int)>>>,
) -> Option<Step> {
    match groups {
        Some(g) => if g.len() >= 2 && g[0] is Some && g[1] is Some {
            match (matched(text, pos, g[1]->0), landing(text, pos, g[0]->0)) {
                (Some(inner), Some(after)) => Some(
                    token_step(pos, TokenView::StringLitteral { value: unescape(inner) }, after),
                ),
                _ => None,
            }
        } else {
            None
        },
        None => None,
    }
}

/// What follows from a search for an integer at `pos`. Digits that stand
/// for more than 64 bits can hold are no integer.
pub open spec fn int_step(text: Seq<char>, pos: int, found: Option<(int, int)>) -> Option<Step> {
    match found {
        Some(m) => match (matched(text, pos, m), landing(text, pos, m)) {
            (Some(literal), Some(after)) => match integer(literal) {
                Some(value) => Some(token_step(pos, TokenView::IntLitteral { value }, after)),
                None => None,
            },
            _ => None,
        },
        None => None,
    }
}

/// The step where nothing matches at `pos`: the rest of the text is one
/// error.
pub open spec fn error_step(text: Seq<char>, pos: int) -> Step {
    Step {
        pos: size(text),
        item: Some(Err("Unrecognized characters at position "@ + digits(pos as nat))),
    }
}

/// The step at `pos` where no white space and no comment is left to skip:
/// nothing at the end of the text, else a symbol or keyword, else a name,
/// else a string literal, else an integer, else an error.
pub open spec fn scan(text: Seq<char>, pos: int) -> Step {
    let hay = rest(text, pos);
    if pos >= size(text) {
        Step { pos, item: None }
    } else if simple_step(text, pos, matching_patterns(simple_sources(), hay)) is Some {
        simple_step(text, pos, matching_patterns(simple_sources(), hay))->0
    } else if name_step(text, pos, first_match(NAME_PATTERN@, hay)) is Some {
        name_step(text, pos, first_match(NAME_PATTERN@, hay))->0
    } else if string_step(text, pos, capture_groups(STRING_PATTERN@, hay)) is Some {
        string_step(text, pos, capture_groups(STRING_PATTERN@, hay))->0
    } else if int_step(text, pos, first_match(INT_PATTERN@, hay)) is Some {
        int_step(text, pos, first_match(INT_PATTERN@, hay))->0
    } else {
        error_step(text, pos)
    }
}

/// The step at `pos`: white space and comments are skipped, and stand for a
/// semicolon where one may be inserted and they hold a newline; then comes
/// what [`scan`] gives.
pub open spec fn advance(text: Seq<char>, pos: int, can_insert: bool) -> Step
    decreases size(text) - pos,
{
    match gap_step(text, pos, can_insert, first_match(SKIP_PATTERN@, rest(text, pos))) {
        Some((after, semicolon)) => if semicolon {
            token_step(pos, TokenView::Semicolon, after)
        } else if pos < after <= size(text) {
            advance(text, after, can_insert)
        } else {
            scan(text, pos)
        },
        None => scan(text, pos),
    }
}

/// A step moves forward: what it gives starts at or behind the place where
/// the step began and ends, behind its own start, at the place where the
/// step stops, which is a boundary of the text; an error stops at the end
/// of the text.
pub proof fn lemma_advance_moves_forward(text: Seq<char>, pos: int, can_insert: bool)
    requires
        boundary(text, pos),
    ensures
        ({
            let step = advance(text, pos, can_insert);
            &&& pos <= step.pos
            &&& boundary(text, step.pos)
            &&& match step.item {
                Some(Ok((start, _, end))) => pos <= start < end && end == step.pos,
                Some(Err(_)) => pos < step.pos && step.pos == size(text),
                None => true,
            }
        }),
    decreases size(text) - pos,
{
    let found = first_match(SKIP_PATTERN@, rest(text, pos));
    match gap_step(text, pos, can_insert, found) {
        Some((after, semicolon)) => {
            if !semicolon {
                lemma_advance_moves_forward(text, after, can_insert);
            }
        },
        None => {
            encode_utf8_valid_utf8(text);
            is_char_boundary_start_end_of_seq(encode_utf8(text));
        },
    }
}

/// Whether a semicolon may be inserted after a step that began with
/// `can_insert`.
pub open spec fn can_insert_after(can_insert: bool, step: Step) -> bool {
    match step.item {
        Some(Ok((_, token, _))) => ends_statement(token),
        _ => can_insert,
    }
}

/// All that the tokenizer gives from a place on, step by step until the
/// text has ended.
pub open spec fn tokens(text: Seq<char>, pos: int, can_insert: bool) -> Seq<SpanView>
    decreases size(text) - pos,
{
    let step = advance(text, pos, can_insert);
    match step.item {
        Some(item) => if pos < step.pos <= size(text) {
            seq![item] + tokens(text, step.pos, can_insert_after(can_insert, step))
        } else {
            seq![item]
        },
        None => Seq::empty(),
    }
}

/// At the end of the text there is nothing more to give.
pub proof fn lemma_nothing_at_the_end(text: Seq<char>, can_insert: bool)
    ensures
        advance(text, size(text), can_insert) == (Step { pos: size(text), item: None }),
{
}

/// An error ends the tokens: nothing follows it.
pub proof fn lemma_an_error_is_last(text: Seq<char>, pos: int, can_insert: bool, i: int)
    requires
        boundary(text, pos),
        0 <= i < tokens(text, pos, can_insert).len(),
        tokens(text, pos, can_insert)[i] is Err,
    ensures
        i == tokens(text, pos, can_insert).len() - 1,
    decreases size(text) - pos,
{
    let step = advance(text, pos, can_insert);
    lemma_advance_moves_forward(text, pos, can_insert);
    let later = tokens(text, step.pos, can_insert_after(can_insert, step));
    if i == 0 {
        lemma_nothing_at_the_end(text, can_insert_after(can_insert, step));
        assert(later =~= Seq::<SpanView>::empty());
    } else {
        assert(tokens(text, pos, can_insert)[i] == later[i - 1]);
        lemma_an_error_is_last(text, step.pos, can_insert_after(can_insert, step), i - 1);
    }
}

/// The models of a run of tokens and errors.
pub open spec fn spans_view(spans: Seq<Span>) -> Seq<SpanView> {
    Seq::new(spans.len(), |i: int| span_view(spans[i]))
}

/// The span of a match as integers of mathematics, if there is a match.
pub open spec fn found_view(found: Option<(usize, usize)>) -> Option<(int, int)> {
    match found {
        Some(m) => Some(span_of(m)),
        None => None,
    }
}

/// The spans of the groups of a match as integers of mathematics, if there
/// is a match.
pub open spec fn groups_view(groups: Option<Vec<Option<(usize, usize)>>>) -> Option<
    Seq<Option<(int, int)>>,
> {
    match groups {
        Some(g) => Some(groups_of(g@)),
        None => None,
    }
}

/// The indices of the patterns that matched as integers of mathematics.
pub open spec fn hits_view(hits: Seq<usize>) -> Seq<int> {
    Seq::new(hits.len(), |i: int| hits[i] as int)
}

/// What the tokenizer found of white space and comments at its place.
#[derive(Debug, Clone, Copy, PartialEq)]
pub enum Gap {
    /// There is nothing to skip
    Absent,
    /// A gap was skipped
    Skipped,
    /// A gap was skipped that stands for a semicolon between the two places
    LineEnd(Location, Location),
}

/// The tokenizer: a text, a place in it, and whether a semicolon may be
/// inserted at the next end of line.
pub struct Lexer<'d> {
    data: &'d str,
    pos: usize,
    can_insert_semi: bool,
    simple_matchers: RegexSet,
    // This allows us to skip various whitespace or comments
    skip_matcher: Regex,
    string_litteral_matcher: Regex,
    int_litteral_matcher: Regex,
    name_matcher: Regex,
}

impl<'d> Lexer<'d> {
    /// The place is a boundary of the text, and each matcher was compiled
    /// from its pattern.
    #[verifier::type_invariant]
    spec fn ready(&self) -> bool {
        &&& boundary(self.data@, self.pos as int)
        &&& regex_set_sources(self.simple_matchers) == simple_sources()
        &&& regex_source(self.skip_matcher) == SKIP_PATTERN@
        &&& regex_source(self.string_litteral_matcher) == STRING_PATTERN@
        &&& regex_source(self.int_litteral_matcher) == INT_PATTERN@
        &&& regex_source(self.name_matcher) == NAME_PATTERN@
    }

    /// The text that is tokenized.
    pub closed spec fn text(&self) -> Seq<char> {
        self.data@
    }

    /// The place in the text, in bytes from its start, up to which it was
    /// tokenized.
    pub closed spec fn position(&self) -> int {
        self.pos as int
    }

    /// Whether a semicolon may be inserted at the next end of line.
    pub closed spec fn can_insert(&self) -> bool {
        self.can_insert_semi
    }

    /// The tokenizer at the start of a text, from the matchers that were
    /// compiled for it, if none of them is missing.
    pub fn assemble(
        data: &'d str,
        simple: Result<RegexSet, regex::Error>,
        skip: Result<Regex, regex::Error>,
        quoted: Result<Regex, regex::Error>,
        numeral: Result<Regex, regex::Error>,
        name: Result<Regex, regex::Error>,
    ) -> (r: Result<Lexer<'d>, LexError>)
        requires
            simple matches Ok(set) ==> regex_set_sources(set) == simple_sources(),
            skip matches Ok(re) ==> regex_source(re) == SKIP_PATTERN@,
            quoted matches Ok(re) ==> regex_source(re) == STRING_PATTERN@,
            numeral matches Ok(re) ==> regex_source(re) == INT_PATTERN@,
            name matches Ok(re) ==> regex_source(re) == NAME_PATTERN@,
        ensures
            r is Ok <==> simple is Ok && skip is Ok && quoted is Ok && numeral is Ok
                && name is Ok,
            r matches Ok(lexer) ==> lexer.text() == data@ && lexer.position() == 0
                && !lexer.can_insert(),
            r matches Err(e) ==> e.message@ == "The patterns of the tokenizer are not valid"@,
    {
        match (simple, skip, quoted, numeral, name) {
            (
                Ok(simple_matchers),
                Ok(skip_matcher),
                Ok(string_litteral_matcher),
                Ok(int_litteral_matcher),
                Ok(name_matcher),
            ) => {
                proof {
                    encode_utf8_valid_utf8(data@);
                    is_char_boundary_start_end_of_seq(encode_utf8(data@));
                }
                Ok(
                    Lexer {
                        data,
                        pos: 0,
                        can_insert_semi: false,
                        simple_matchers,
                        skip_matcher,
                        string_litteral_matcher,
                        int_litteral_matcher,
                        name_matcher,
                    },
                )
            },
            _ => Err(
                LexError {
                    message: String::from_str("The patterns of the tokenizer are not valid"),
                },
            ),
        }
    }

    /// The tokenizer at the start of a text. It fails if and only if a
    /// pattern of the tokenizer is refused when it is compiled.
    pub fn new(data: &'d str) -> (r: Result<Lexer<'d>, LexError>)
        ensures
            r is Ok <==> patterns_compile(simple_sources()) && pattern_compiles(SKIP_PATTERN@)
                && pattern_compiles(STRING_PATTERN@) && pattern_compiles(INT_PATTERN@)
                && pattern_compiles(NAME_PATTERN@),
            r matches Ok(lexer) ==> lexer.text() == data@ && lexer.position() == 0
                && !lexer.can_insert(),
            r matches Err(e) ==> e.message@ == "The patterns of the tokenizer are not valid"@,
    {
        let patterns = simple_patterns();
        let simple = compile_set(&patterns);
        let skip = compile(SKIP_PATTERN);
        let numeral = compile(INT_PATTERN);
        let quoted = compile(STRING_PATTERN);
        let name = compile(NAME_PATTERN);
        Lexer::assemble(data, simple, skip, quoted, numeral, name)
    }

    /// The text from the place of the tokenizer to the end.
    fn remaining(&self) -> (r: &'d str)
        ensures
            r@ == rest(self.text(), self.position()),
    {
        proof {
            use_type_invariant(self);
        }
        let (_, tail) = self.data.split_at(self.pos);
        proof {
            encode_utf8_decode_utf8(tail@);
        }
        tail
    }

    /// The place after a match that was found in the remaining text.
    fn land(&self, found: (usize, usize)) -> (r: Option<usize>)
        ensures
            match r {
                Some(after) => landing(self.text(), self.position(), span_of(found)) == Some(
                    after as int,
                ),
                None => landing(self.text(), self.position(), span_of(found)) is None,
            },
    {
        if found.0 >= found.1 {
            return None;
        }
        let len = byte_len(self.data);
        match self.pos.checked_add(found.1 - found.0) {
            Some(after) => if after <= len && self.data.is_char_boundary(after) {
                Some(after)
            } else {
                None
            },
            None => None,
        }
    }

    /// The text of a match that was found in the remaining text.
    fn text_of(&self, found: (usize, usize)) -> (r: Option<&'d str>)
        ensures
            match r {
                Some(part) => matched(self.text(), self.position(), span_of(found)) == Some(
                    part@,
                ),
                None => matched(self.text(), self.position(), span_of(found)) is None,
            },
    {
        // The length of the text fits `usize`: an offset that does not fit
        // lies behind the end of the text.
        let _ = byte_len(self.data);
        match (self.pos.checked_add(found.0), self.pos.checked_add(found.1)) {
            (Some(from), Some(to)) => cut(self.data, from, to),
            _ => None,
        }
    }

    /// Skips the white space and the comments that a search found at the
    /// place of the tokenizer.
    pub fn take_gap(&mut self, found: Option<(usize, usize)>) -> (r: Gap)
        ensures
            final(self).text() == old(self).text(),
            final(self).can_insert() == old(self).can_insert(),
            match gap_step(
                old(self).text(),
                old(self).position(),
                old(self).can_insert(),
                found_view(found),
            ) {
                Some((after, semicolon)) => {
                    &&& old(self).position() < after <= size(old(self).text())
                    &&& final(self).position() == after
                    &&& r == if semicolon {
                        Gap::LineEnd(
                            Location(old(self).position() as usize),
                            Location(after as usize),
                        )
                    } else {
                        Gap::Skipped
                    }
                },
                None => final(self).position() == old(self).position() && r == Gap::Absent,
            },
    {
        proof {
            use_type_invariant(&*self);
        }
        let m = match found {
            Some(m) => m,
            None => {
                return Gap::Absent;
            },
        };
        match (self.text_of(m), self.land(m)) {
            (Some(gap), Some(after)) => {
                let start = self.pos;
                self.pos = after;
                if self.can_insert_semi && has_newline(gap) {
                    Gap::LineEnd(Location(start), Location(after))
                } else {
                    Gap::Skipped
                }
            },
            _ => Gap::Absent,
        }
    }

    /// Takes the symbol or keyword that a search found at the place of the
    /// tokenizer.
    pub fn take_simple(&mut self, hits: &Vec<usize>) -> (r: Option<Span>)
        ensures
            final(self).text() == old(self).text(),
            final(self).can_insert() == old(self).can_insert(),
            match simple_step(old(self).text(), old(self).position(), hits_view(hits@)) {
                Some(step) => {
                    &&& old(self).position() < step.pos <= size(old(self).text())
                    &&& final(self).position() == step.pos
                    &&& item_view(r) == step.item
                },
                None => final(self).position() == old(self).position() && r is None,
            },
    {
        proof {
            use_type_invariant(&*self);
        }
        if hits.len() == 0 {
            return None;
        }
        let first = hits[0];
        if first >= SIMPLE_COUNT {
            return None;
        }
        let len = byte_len(self.data);
        let length = length_of_simple(first);
        let after = match self.pos.checked_add(length) {
            Some(after) => after,
            None => {
                return None;
            },
        };
        if after > len || !self.data.is_char_boundary(after) {
            return None;
        }
        let start = self.pos;
        self.pos = after;
        Some(Ok((Location(start), token_of_simple(first), Location(after))))
    }

    /// Takes the name that a search found at the place of the tokenizer.
    pub fn take_name(&mut self, found: Option<(usize, usize)>) -> (r: Option<Span>)
        ensures
            final(self).text() == old(self).text(),
            final(self).can_insert() == old(self).can_insert(),
            match name_step(old(self).text(), old(self).position(), found_view(found)) {
                Some(step) => {
                    &&& old(self).position() < step.pos <= size(old(self).text())
                    &&& final(self).position() == step.pos
                    &&& item_view(r) == step.item
                },
                None => final(self).position() == old(self).position() && r is None,
            },
    {
        proof {
            use_type_invariant(&*self);
        }
        let m = match found {
            Some(m) => m,
            None => {
                return None;
            },
        };
        match (self.text_of(m), self.land(m)) {
            (Some(name), Some(after)) => {
                let start = self.pos;
                self.pos = after;
                let token = Token::Name { value: String::from_str(name) };
                Some(Ok((Location(start), token, Location(after))))
            },
            _ => None,
        }
    }

    /// Takes the string literal that a search found at the place of the
    /// tokenizer.
    pub fn take_string(&mut self, groups: Option<Vec<Option<(usize, usize)>>>) -> (r: Option<Span>)
        ensures
            final(self).text() == old(self).text(),
            final(self).can_insert() == old(self).can_insert(),
            match string_step(old(self).text(), old(self).position(), groups_view(groups)) {
                Some(step) => {
                    &&& old(self).position() < step.pos <= size(old(self).text())
                    &&& final(self).position() == step.pos
                    &&& item_view(r) == step.item
                },
                None => final(self).position() == old(self).position() && r is None,
            },
    {
        proof {
            use_type_invariant(&*self);
        }
        let g = match groups {
            Some(g) => g,
            None => {
                return None;
            },
        };
        if g.len() < 2 {
            return None;
        }
        let (whole, inner) = match (g[0], g[1]) {
            (Some(whole), Some(inner)) => (whole, inner),
            _ => {
                return None;
            },
        };
        match (self.text_of(inner), self.land(whole)) {
            (Some(inside), Some(after)) => {
                let start = self.pos;
                self.pos = after;
                let token = Token::StringLitteral { value: process_string_litteral(inside) };
                Some(Ok((Location(start), token, Location(after))))
            },
            _ => None,
        }
    }

    /// Takes the integer that a search found at the place of the
    /// tokenizer.
    pub fn take_int(&mut self, found: Option<(usize, usize)>) -> (r: Option<Span>)
        ensures
            final(self).text() == old(self).text(),
            final(self).can_insert() == old(self).can_insert(),
            match int_step(old(self).text(), old(self).position(), found_view(found)) {
                Some(step) => {
                    &&& old(self).position() < step.pos <= size(old(self).text())
                    &&& final(self).position() == step.pos
                    &&& item_view(r) == step.item
                },
                None => final(self).position() == old(self).position() && r is None,
            },
    {
        proof {
            use_type_invariant(&*self);
        }
        let m = match found {
            Some(m) => m,
            None => {
                return None;
            },
        };
        match (self.text_of(m), self.land(m)) {
            (Some(literal), Some(after)) => match parse_integer(literal) {
                Some(value) => {
                    let start = self.pos;
                    self.pos = after;
                    Some(Ok((Location(start), Token::IntLitteral { value }, Location(after))))
                },
                None => None,
            },
            _ => None,
        }
    }

    /// Gives up on the rest of the text.
    pub fn reject(&mut self) -> (r: Span)
        ensures
            final(self).text() == old(self).text(),
            final(self).can_insert() == old(self).can_insert(),
            final(self).position() == error_step(old(self).text(), old(self).position()).pos,
            Some(span_view(r)) == error_step(old(self).text(), old(self).position()).item,
    {
        proof {
            use_type_invariant(&*self);
        }
        let mut message = String::from_str("Unrecognized characters at position ");
        push_digits(&mut message, self.pos as u64);
        proof {
            encode_utf8_valid_utf8(self.data@);
            is_char_boundary_start_end_of_seq(encode_utf8(self.data@));
        }
        self.pos = byte_len(self.data);
        Err(LexError { message })
    }

    /// Goes one step on: skips white space and comments, and gives the
    /// semicolon that they stand for or the token that follows them.
    pub fn advance(&mut self) -> (r: Option<Span>)
        ensures
            final(self).text() == old(self).text(),
            final(self).can_insert() == old(self).can_insert(),
            final(self).position() == advance(
                old(self).text(),
                old(self).position(),
                old(self).can_insert(),
            ).pos,
            item_view(r) == advance(
                old(self).text(),
                old(self).position(),
                old(self).can_insert(),
            ).item,
            r is Some ==> old(self).position() < final(self).position(),
    {
        let len = byte_len(self.data);
        loop
            invariant
                len == size(self.text()),
                self.text() == old(self).text(),
                self.can_insert() == old(self).can_insert(),
                old(self).position() <= self.position(),
                advance(old(self).text(), old(self).position(), old(self).can_insert())
                    == advance(self.text(), self.position(), self.can_insert()),
            ensures
                len == size(self.text()),
                self.text() == old(self).text(),
                self.can_insert() == old(self).can_insert(),
                old(self).position() <= self.position(),
                advance(old(self).text(), old(self).position(), old(self).can_insert()) == scan(
                    self.text(),
                    self.position(),
                ),
            decreases size(self.text()) - self.position(),
        {
            let found = find(&self.skip_matcher, self.remaining());
            proof {
                use_type_invariant(&*self);
            }
            match self.take_gap(found) {
                Gap::Absent => {
                    break ;
                },
                Gap::Skipped => {},
                Gap::LineEnd(start, end) => {
                    return Some(Ok((start, Token::Semicolon, end)));
                },
            }
        }
        proof {
            use_type_invariant(&*self);
        }
        if self.pos >= len {
            return None;
        }
        let hay = self.remaining();
        let hits = which_match(&self.simple_matchers, hay);
        if let Some(span) = self.take_simple(&hits) {
            return Some(span);
        }
        proof {
            use_type_invariant(&*self);
        }
        let found = find(&self.name_matcher, hay);
        if let Some(span) = self.take_name(found) {
            return Some(span);
        }
        proof {
            use_type_invariant(&*self);
        }
        let groups = captures(&self.string_litteral_matcher, hay);
        if let Some(span) = self.take_string(groups) {
            return Some(span);
        }
        proof {
            use_type_invariant(&*self);
        }
        let found = find(&self.int_litteral_matcher, hay);
        if let Some(span) = self.take_int(found) {
            return Some(span);
        }
        Some(self.reject())
    }

    /// The next token with its place, the next error, or nothing where the
    /// text has ended. After a token that can end a statement, the next end
    /// of line stands for a semicolon.
    pub fn next(&mut self) -> (r: Option<Span>)
        ensures
            final(self).text() == old(self).text(),
            final(self).position() == advance(
                old(self).text(),
                old(self).position(),
                old(self).can_insert(),
            ).pos,
            item_view(r) == advance(
                old(self).text(),
                old(self).position(),
                old(self).can_insert(),
            ).item,
            final(self).can_insert() == can_insert_after(
                old(self).can_insert(),
                advance(old(self).text(), old(self).position(), old(self).can_insert()),
            ),
            r is Some ==> old(self).position() < final(self).position(),
    {
        let res = self.advance();
        proof {
            use_type_invariant(&*self);
        }
        if let Some(Ok((_, tok, _))) = &res {
            self.can_insert_semi = match tok {
                Token::CloseParens => true,
                Token::CloseBrace => true,
                Token::IntLitteral { .. } => true,
                Token::StringLitteral { .. } => true,
                Token::Name { .. } => true,
                _ => false,
            };
        }
        res
    }

    /// All that is left: the tokens and the error, if there is one, that
    /// [`Lexer::next`] gives one after the other until the text has ended.
    pub fn collect(self) -> (r: Vec<Span>)
        ensures
            spans_view(r@) == tokens(self.text(), self.position(), self.can_insert()),
    {
        let mut lexer = self;
        let mut spans: Vec<Span> = Vec::new();
        let ghost text = self.text();
        loop
            invariant_except_break
                tokens(self.text(), self.position(), self.can_insert()) == spans_view(spans@)
                    + tokens(text, lexer.position(), lexer.can_insert()),
            invariant
                lexer.text() == text,
                text == self.text(),
            ensures
                spans_view(spans@) == tokens(self.text(), self.position(), self.can_insert()),
            decreases size(text) - lexer.position(),
        {
            proof {
                use_type_invariant(&lexer);
            }
            match lexer.next() {
                Some(span) => {
                    spans.push(span);
                    proof {
                        use_type_invariant(&lexer);
                    }
                },
                None => {
                    break ;
                },
            }
        }
        spans
    }
}

} // verus!
