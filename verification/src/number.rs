//! Which texts are decimal numbers.
//!
//! A coordinate is written as a floating-point number in base ten:
//!
//! ```text
//! Float    ::= Sign? ( 'inf' | 'infinity' | 'nan' | Number )
//! Number   ::= Mantissa Exponent?
//! Mantissa ::= Digit+ | Digit+ '.' Digit* | Digit* '.' Digit+
//! Exponent ::= 'e' Sign? Digit+
//! Sign     ::= '+' | '-'
//! Digit    ::= '0' ... '9'
//! ```
//!
//! Letters count in either case. This module decides whether a text is
//! written so; it does not compute the number.

use crate::text::chars_of;
use vstd::prelude::*;

verus! {

/// Whether `c` is a decimal digit.
pub open spec fn is_digit(c: char) -> bool {
    '0' <= c <= '9'
}

/// Whether `c` is a sign.
pub open spec fn is_sign(c: char) -> bool {
    c == '+' || c == '-'
}

/// Whether `text` holds digits only.
pub open spec fn is_digits(text: Seq<char>) -> bool {
    forall|i: int| 0 <= i < text.len() ==> is_digit(#[trigger] text[i])
}

/// Whether `text` is `word` but for the case of its letters, `word` being
/// given in small letters and in capitals.
pub open spec fn is_word(text: Seq<char>, small: Seq<char>, capital: Seq<char>) -> bool {
    &&& text.len() == small.len()
    &&& forall|i: int|
        0 <= i < text.len() ==> (#[trigger] text[i]) == small[i] || text[i] == capital[i]
}

/// Whether `text` names infinity or the value that is not a number.
pub open spec fn is_special(text: Seq<char>) -> bool {
    ||| is_word(text, "inf"@, "INF"@)
    ||| is_word(text, "infinity"@, "INFINITY"@)
    ||| is_word(text, "nan"@, "NAN"@)
}

/// Whether `text` is a mantissa: digits with at most one point among them,
/// and at least one digit.
pub open spec fn is_mantissa(text: Seq<char>) -> bool {
    ||| text.len() > 0 && is_digits(text)
    ||| exists|point: int|
        {
            &&& 0 <= point < text.len()
            &&& #[trigger] text[point] == '.'
            &&& text.len() > 1
            &&& is_digits(text.take(point))
            &&& is_digits(text.skip(point + 1))
        }
}

/// Whether `text` is an exponent: the letter `e`, then a sign or none, then
/// at least one digit.
pub open spec fn is_exponent(text: Seq<char>) -> bool {
    &&& text.len() > 1
    &&& (text[0] == 'e' || text[0] == 'E')
    &&& if is_sign(text[1]) {
        text.len() > 2 && is_digits(text.skip(2))
    } else {
        is_digits(text.skip(1))
    }
}

/// Whether `text` is a number without a sign: a mantissa, alone or followed
/// by an exponent.
pub open spec fn is_unsigned_number(text: Seq<char>) -> bool {
    ||| is_mantissa(text)
    ||| exists|at: int|
        0 < at < text.len() && is_mantissa(#[trigger] text.take(at)) && is_exponent(
            text.skip(at),
        )
}

/// Whether `text` is a floating-point number in base ten.
pub open spec fn is_float_text(text: Seq<char>) -> bool {
    let body = if text.len() > 0 && is_sign(text[0]) {
        text.skip(1)
    } else {
        text
    };
    is_special(body) || is_unsigned_number(body)
}

/// The end of the digits that begin at `from`.
fn digits_end(text: &Vec<char>, from: usize) -> (end: usize)
    requires
        from <= text.len(),
    ensures
        from <= end <= text.len(),
        forall|i: int| from <= i < end ==> is_digit(#[trigger] text[i]),
        end < text.len() ==> !is_digit(text[end as int]),
{
    let mut end: usize = from;
    while end < text.len() && '0' <= text[end] && text[end] <= '9'
        invariant
            from <= end <= text.len(),
            forall|i: int| from <= i < end ==> is_digit(#[trigger] text[i]),
        decreases text.len() - end,
    {
        end += 1;
    }
    end
}

/// Whether the text from `from` on is `word` but for the case of its
/// letters.
fn matches_word(text: &Vec<char>, from: usize, small: &str, capital: &str) -> (same: bool)
    requires
        from <= text.len(),
        small@.len() == capital@.len(),
    ensures
        same == is_word(text@.skip(from as int), small@, capital@),
{
    let small_chars = chars_of(small);
    let capital_chars = chars_of(capital);
    let ghost rest = text@.skip(from as int);
    if text.len() - from != small_chars.len() {
        return false;
    }
    let mut i: usize = 0;
    while i < small_chars.len()
        invariant
            i <= small_chars.len() == capital_chars.len(),
            small_chars@ == small@,
            capital_chars@ == capital@,
            rest == text@.skip(from as int),
            from + small_chars.len() == text.len(),
            forall|j: int|
                0 <= j < i ==> (#[trigger] rest[j]) == small@[j] || rest[j] == capital@[j],
        decreases small_chars.len() - i,
    {
        assert(rest[i as int] == text[from + i]);
        if text[from + i] != small_chars[i] && text[from + i] != capital_chars[i] {
            return false;
        }
        i += 1;
    }
    true
}

/// Whether the text from `from` on is an exponent.
fn is_exponent_from(text: &Vec<char>, from: usize) -> (exponent: bool)
    requires
        from <= text.len(),
    ensures
        exponent == is_exponent(text@.skip(from as int)),
{
    let ghost rest = text@.skip(from as int);
    if text.len() - from < 2 {
        return false;
    }
    if text[from] != 'e' && text[from] != 'E' {
        return false;
    }
    let signed = text[from + 1] == '+' || text[from + 1] == '-';
    let digits: usize = if signed {
        from + 2
    } else {
        from + 1
    };
    let end = digits_end(text, digits);
    if end == text.len() {
        digits < end
    } else {
        assert(rest.skip(digits - from)[end - digits] == text[end as int]);
        false
    }
}

/// Whether the text from `from` on is a number without a sign.
fn is_unsigned_number_from(text: &Vec<char>, from: usize) -> (number: bool)
    requires
        from <= text.len(),
    ensures
        number == is_unsigned_number(text@.skip(from as int)),
{
    let ghost rest = text@.skip(from as int);
    let whole_end = digits_end(text, from);
    let pointed = whole_end < text.len() && text[whole_end] == '.';
    let end = if pointed {
        digits_end(text, whole_end + 1)
    } else {
        whole_end
    };
    let digits = if pointed {
        end - from - 1
    } else {
        end - from
    };
    let ghost point = whole_end - from;
    let ghost cut = end - from;
    let ghost head = rest.take(cut);
    // The head is a mantissa exactly if it holds a digit.
    assert(is_mantissa(head) <==> digits > 0) by {
        if pointed {
            assert(head[point] == '.');
            assert(!is_digit(head[point]));
            if digits > 0 {
                assert(is_digits(head.take(point)));
                assert(is_digits(head.skip(point + 1)));
            }
            if is_mantissa(head) {
                let p = choose|p: int|
                    {
                        &&& 0 <= p < head.len()
                        &&& #[trigger] head[p] == '.'
                        &&& head.len() > 1
                        &&& is_digits(head.take(p))
                        &&& is_digits(head.skip(p + 1))
                    };
                assert(head.len() > 1);
            }
        } else {
            assert(is_digits(head));
            if is_mantissa(head) && !(head.len() > 0 && is_digits(head)) {
                let p = choose|p: int|
                    {
                        &&& 0 <= p < head.len()
                        &&& #[trigger] head[p] == '.'
                        &&& head.len() > 1
                        &&& is_digits(head.take(p))
                        &&& is_digits(head.skip(p + 1))
                    };
                assert(is_digit(head[p]));
            }
        }
    }
    // No shorter beginning is followed by an exponent, and no longer one is
    // a mantissa.
    assert forall|at: int| 0 <= at <= rest.len() && at != cut && is_mantissa(
        #[trigger] rest.take(at),
    ) implies at < rest.len() && !is_exponent(rest.skip(at)) by {
        let part = rest.take(at);
        if at > cut {
            // The character at `cut` is no digit, and is not the one point.
            assert(part[cut] == text[end as int]);
            assert(!is_digit(part[cut]));
            assert(!is_digits(part));
            let p = choose|p: int|
                {
                    &&& 0 <= p < part.len()
                    &&& #[trigger] part[p] == '.'
                    &&& part.len() > 1
                    &&& is_digits(part.take(p))
                    &&& is_digits(part.skip(p + 1))
                };
            if p < cut {
                assert(part.skip(p + 1)[cut - p - 1] == part[cut]);
            } else if p > cut {
                assert(part.take(p)[cut] == part[cut]);
            } else {
                assert(pointed);
                assert(part.take(p)[point] == part[point]);
                assert(part[point] == '.');
            }
        } else {
            assert(rest.skip(at)[0] == rest[at]);
            assert(is_digit(rest[at]) || rest[at] == '.');
        }
    }
    assert(rest.take(rest.len() as int) == rest);
    if digits == 0 {
        return false;
    }
    if end == text.len() {
        return true;
    }
    let exponent = is_exponent_from(text, end);
    assert(rest.skip(cut) == text@.skip(end as int));
    exponent
}

/// Whether `text` is a floating-point number in base ten.
pub fn is_float(text: &str) -> (float: bool)
    ensures
        float == is_float_text(text@),
{
    let chars = chars_of(text);
    let from: usize = if chars.len() > 0 && (chars[0] == '+' || chars[0] == '-') {
        1
    } else {
        0
    };
    assert(from == 0 ==> chars@.skip(0) == chars@);
    proof {
        reveal_strlit("inf");
        reveal_strlit("INF");
        reveal_strlit("infinity");
        reveal_strlit("INFINITY");
        reveal_strlit("nan");
        reveal_strlit("NAN");
    }
    matches_word(&chars, from, "inf", "INF") || matches_word(&chars, from, "infinity", "INFINITY")
        || matches_word(&chars, from, "nan", "NAN") || is_unsigned_number_from(&chars, from)
}

} // verus!
