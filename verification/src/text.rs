//! Work on lines of text: white space at the ends, and fields between commas.

use vstd::prelude::*;

verus! {

/// Whether `c` is white space: one of the characters that Unicode marks
/// as `White_Space`.
pub open spec fn is_space(c: char) -> bool {
    ||| '\u{9}' <= c <= '\u{d}'
    ||| c == ' '
    ||| c == '\u{85}'
    ||| c == '\u{a0}'
    ||| c == '\u{1680}'
    ||| '\u{2000}' <= c <= '\u{200a}'
    ||| c == '\u{2028}'
    ||| c == '\u{2029}'
    ||| c == '\u{202f}'
    ||| c == '\u{205f}'
    ||| c == '\u{3000}'
}

/// `text` without the white space it begins with.
pub open spec fn trim_start(text: Seq<char>) -> Seq<char>
    decreases text.len(),
{
    if text.len() > 0 && is_space(text.first()) {
        trim_start(text.drop_first())
    } else {
        text
    }
}

/// `text` without the white space it ends with.
pub open spec fn trim_end(text: Seq<char>) -> Seq<char>
    decreases text.len(),
{
    if text.len() > 0 && is_space(text.last()) {
        trim_end(text.drop_last())
    } else {
        text
    }
}

/// `text` without the white space at either end.
pub open spec fn trimmed(text: Seq<char>) -> Seq<char> {
    trim_end(trim_start(text))
}

/// The fields of `line`: the stretches of text that its commas separate. A
/// line with `n` commas has `n + 1` fields, some of them perhaps empty.
pub open spec fn fields(line: Seq<char>) -> Seq<Seq<char>>
    decreases line.len(),
{
    if line.len() == 0 {
        seq![Seq::empty()]
    } else {
        let before = fields(line.drop_last());
        if line.last() == ',' {
            before.push(Seq::empty())
        } else {
            before.update(before.len() - 1, before.last().push(line.last()))
        }
    }
}

/// Whether `c` is white space.
pub fn is_whitespace(c: char) -> (space: bool)
    ensures
        space == is_space(c),
{
    ('\u{9}' <= c && c <= '\u{d}') || c == ' ' || c == '\u{85}' || c == '\u{a0}' || c
        == '\u{1680}' || ('\u{2000}' <= c && c <= '\u{200a}') || c == '\u{2028}' || c
        == '\u{2029}' || c == '\u{202f}' || c == '\u{205f}' || c == '\u{3000}'
}

/// The characters of `text`, one by one.
pub fn chars_of(text: &str) -> (chars: Vec<char>)
    ensures
        chars@ == text@,
{
    let mut chars: Vec<char> = Vec::new();
    for c in it: text.chars()
        invariant
            it.seq() == text@,
            chars@ == text@.take(it.index() as int),
    {
        chars.push(c);
    }
    chars
}

/// The part of `chars` between `from` and `to` that is left when the white
/// space at either end is taken away.
pub(crate) fn trim_range(chars: &Vec<char>, from: usize, to: usize) -> (range: (usize, usize))
    requires
        from <= to <= chars.len(),
    ensures
        from <= range.0 <= range.1 <= to,
        chars@.subrange(range.0 as int, range.1 as int) == trimmed(
            chars@.subrange(from as int, to as int),
        ),
{
    let mut first: usize = from;
    while first < to && is_whitespace(chars[first])
        invariant
            from <= first <= to <= chars.len(),
            trim_start(chars@.subrange(from as int, to as int)) == trim_start(
                chars@.subrange(first as int, to as int),
            ),
        decreases to - first,
    {
        assert(chars@.subrange(first as int, to as int).drop_first() == chars@.subrange(
            first + 1,
            to as int,
        ));
        first += 1;
    }
    let mut end: usize = to;
    while first < end && is_whitespace(chars[end - 1])
        invariant
            first <= end <= to <= chars.len(),
            trim_end(chars@.subrange(first as int, to as int)) == trim_end(
                chars@.subrange(first as int, end as int),
            ),
        decreases end - first,
    {
        assert(chars@.subrange(first as int, end as int).drop_last() == chars@.subrange(
            first as int,
            end - 1,
        ));
        end -= 1;
    }
    (first, end)
}

/// `text` without the white space at either end.
pub fn trim<'a>(text: &'a str) -> (inner: &'a str)
    ensures
        inner@ == trimmed(text@),
{
    let chars = chars_of(text);
    let (first, end) = trim_range(&chars, 0, chars.len());
    assert(chars@.subrange(0, chars.len() as int) == chars@);
    text.substring_char(first, end)
}

/// Where the two fields of a line with one comma lie.
pub(crate) struct FieldPair {
    /// The end of the first field: the place of the comma.
    pub comma: usize,
    /// The end of the second field: the length of the line.
    pub end: usize,
}

/// Looks for the one comma of `line`. Gives `None` for a line with no comma
/// or with several.
pub(crate) fn split_pair(line: &Vec<char>) -> (pair: Option<FieldPair>)
    ensures
        match pair {
            Some(pair) => {
                &&& pair.comma < pair.end == line.len()
                &&& fields(line@) == seq![
                    line@.subrange(0, pair.comma as int),
                    line@.subrange(pair.comma + 1, pair.end as int),
                ]
            },
            None => fields(line@).len() != 2,
        },
{
    let mut commas: usize = 0;
    let mut comma: usize = 0;
    let mut i: usize = 0;
    while i < line.len()
        invariant
            i <= line.len(),
            commas <= i,
            fields(line@.take(i as int)).len() == commas + 1,
            commas == 0 ==> fields(line@.take(i as int))[0] == line@.take(i as int),
            commas >= 1 ==> comma < i && fields(line@.take(i as int))[0] == line@.take(
                comma as int,
            ),
            commas == 1 ==> fields(line@.take(i as int))[1] == line@.subrange(
                comma + 1,
                i as int,
            ),
        decreases line.len() - i,
    {
        assert(line@.take(i + 1).drop_last() == line@.take(i as int));
        if line[i] == ',' {
            if commas == 0 {
                comma = i;
            }
            commas += 1;
        }
        i += 1;
    }
    assert(line@.take(line.len() as int) == line@);
    if commas == 1 {
        Some(FieldPair { comma, end: line.len() })
    } else {
        None
    }
}

} // verus!
