//! Texts: integers in decimal, comparison, and parts of a text between
//! offsets in bytes.

use vstd::prelude::*;
use vstd::string::*;
use vstd::utf8::{
    decode_utf8, encode_utf8, encode_utf8_decode_utf8, encode_utf8_valid_utf8, is_char_boundary,
    is_char_boundary_iff_not_is_continuation_byte, is_char_boundary_start_end_of_seq,
};

verus! {

/// `String::push` of the standard library: appends one character.
pub assume_specification[ String::push ](s: &mut String, ch: char)
    ensures
        final(s)@ == old(s)@.push(ch),
;

/// The character of one decimal digit.
pub open spec fn digit_char(d: int) -> char {
    if d == 0 {
        '0'
    } else if d == 1 {
        '1'
    } else if d == 2 {
        '2'
    } else if d == 3 {
        '3'
    } else if d == 4 {
        '4'
    } else if d == 5 {
        '5'
    } else if d == 6 {
        '6'
    } else if d == 7 {
        '7'
    } else if d == 8 {
        '8'
    } else {
        '9'
    }
}

/// The decimal digits of a natural number, most significant first, without
/// leading zeros.
pub open spec fn digits(n: nat) -> Seq<char>
    decreases n,
{
    if n < 10 {
        seq![digit_char(n as int)]
    } else {
        digits(n / 10).push(digit_char((n % 10) as int))
    }
}

/// The decimal form of an integer: a minus sign for a negative number, then
/// the digits of its magnitude.
pub open spec fn decimal(i: int) -> Seq<char> {
    if i < 0 {
        seq!['-'] + digits((-i) as nat)
    } else {
        digits(i as nat)
    }
}

fn digit_str(d: u64) -> (r: &'static str)
    requires
        d < 10,
    ensures
        r@ == seq![digit_char(d as int)],
{
    proof {
        reveal_strlit("0");
        reveal_strlit("1");
        reveal_strlit("2");
        reveal_strlit("3");
        reveal_strlit("4");
        reveal_strlit("5");
        reveal_strlit("6");
        reveal_strlit("7");
        reveal_strlit("8");
        reveal_strlit("9");
    }
    let r = if d == 0 {
        "0"
    } else if d == 1 {
        "1"
    } else if d == 2 {
        "2"
    } else if d == 3 {
        "3"
    } else if d == 4 {
        "4"
    } else if d == 5 {
        "5"
    } else if d == 6 {
        "6"
    } else if d == 7 {
        "7"
    } else if d == 8 {
        "8"
    } else {
        "9"
    };
    r
}

/// Appends the decimal digits of `n` to `out`.
pub fn push_digits(out: &mut String, n: u64)
    ensures
        final(out)@ == old(out)@ + digits(n as nat),
    decreases n,
{
    if n >= 10 {
        push_digits(out, n / 10);
    }
    out.append(digit_str(n % 10));
}

/// Appends the decimal form of `i` to `out`.
pub fn push_decimal(out: &mut String, i: i64)
    ensures
        final(out)@ == old(out)@ + decimal(i as int),
{
    if i < 0 {
        proof {
            reveal_strlit("-");
        }
        out.append("-");
        let magnitude: u64 = (-(i + 1)) as u64 + 1;
        push_digits(out, magnitude);
    } else {
        push_digits(out, i as u64);
    }
}

/// Whether two strings hold the same characters.
pub fn same_text(a: &str, b: &str) -> (r: bool)
    ensures
        r == (a@ == b@),
{
    let x = a.as_bytes();
    let y = b.as_bytes();
    if x.len() != y.len() {
        return false;
    }
    let mut i: usize = 0;
    while i < x.len()
        invariant
            i <= x.len(),
            x.len() == y.len(),
            x@ == a.spec_bytes(),
            y@ == b.spec_bytes(),
            forall|j: int| 0 <= j < i ==> x@[j] == y@[j],
        decreases x.len() - i,
    {
        if x[i] != y[i] {
            return false;
        }
        i += 1;
    }
    proof {
        assert(x@ =~= y@);
        encode_utf8_decode_utf8(a@);
        encode_utf8_decode_utf8(b@);
    }
    true
}

/// Whether a text holds a newline.
pub fn has_newline(text: &str) -> (r: bool)
    ensures
        r == text@.contains('\n'),
{
    let mut found = false;
    for c in it: text.chars()
        invariant
            it.seq() == text@,
            found == text@.take(it.index()).contains('\n'),
    {
        if c == '\n' {
            found = true;
            assert(text@.take(it.index() + 1)[it.index()] == '\n');
        }
    }
    assert(text@.take(text@.len() as int) =~= text@);
    found
}

/// The length of a text in bytes.
pub open spec fn size(text: Seq<char>) -> int {
    encode_utf8(text).len() as int
}

/// Whether a byte offset into a text lies within it and between two
/// characters, or at one of its ends.
pub open spec fn boundary(text: Seq<char>, at: int) -> bool {
    0 <= at <= size(text) && is_char_boundary(encode_utf8(text), at)
}

/// The part of a text between two byte offsets, where both are boundaries.
pub open spec fn between(text: Seq<char>, from: int, to: int) -> Option<Seq<char>> {
    if from <= to && boundary(text, from) && boundary(text, to) {
        Some(decode_utf8(encode_utf8(text).subrange(from, to)))
    } else {
        None
    }
}

/// The part of a text from a byte offset to its end.
pub open spec fn rest(text: Seq<char>, from: int) -> Seq<char> {
    decode_utf8(encode_utf8(text).subrange(from, size(text)))
}

/// The length of a text in bytes.
pub fn byte_len(data: &str) -> (n: usize)
    ensures
        n == size(data@),
{
    data.as_bytes().len()
}

/// The part of a text between two byte offsets, where both are boundaries
/// of characters.
pub fn cut<'d>(data: &'d str, from: usize, to: usize) -> (r: Option<&'d str>)
    ensures
        match r {
            Some(part) => between(data@, from as int, to as int) == Some(part@),
            None => between(data@, from as int, to as int) is None,
        },
{
    let len = byte_len(data);
    if from > to || to > len {
        return None;
    }
    if !data.is_char_boundary(from) {
        return None;
    }
    if !data.is_char_boundary(to) {
        return None;
    }
    let (_, tail) = data.split_at(from);
    proof {
        let bytes = data.spec_bytes();
        let late = tail.spec_bytes();
        encode_utf8_valid_utf8(data@);
        encode_utf8_valid_utf8(tail@);
        if to < len {
            is_char_boundary_iff_not_is_continuation_byte(bytes, to as int);
            is_char_boundary_iff_not_is_continuation_byte(late, to - from);
        } else {
            is_char_boundary_start_end_of_seq(late);
        }
    }
    let (part, _) = tail.split_at(to - from);
    proof {
        assert(part.spec_bytes() =~= data.spec_bytes().subrange(from as int, to as int));
        encode_utf8_decode_utf8(part@);
    }
    Some(part)
}

} // verus!
