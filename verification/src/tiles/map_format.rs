//! The text form of a map.
//!
//! A map is written one row per line. A row is a run of tile indices in
//! decimal, set apart by blanks. A line feed ends a line; the last line may
//! do without one.

use vstd::prelude::*;

verus! {

/// Whether `byte` sets two numbers of a row apart: a space, a tab, a line
/// feed, a vertical tab, a form feed or a carriage return.
pub open spec fn is_space(byte: u8) -> bool {
    byte == 0x20 || 0x09 <= byte <= 0x0d
}

/// Whether `byte` is one of `0` to `9`.
pub open spec fn is_digit(byte: u8) -> bool {
    0x30 <= byte <= 0x39
}

/// What the digit `byte` counts for; zero for any other byte.
pub open spec fn digit_value(byte: u8) -> nat {
    if is_digit(byte) {
        (byte - 0x30) as nat
    } else {
        0
    }
}

/// Whether `bytes` holds digits only.
pub open spec fn all_digits(bytes: Seq<u8>) -> bool {
    forall|i: int| 0 <= i < bytes.len() ==> is_digit(#[trigger] bytes[i])
}

/// The number that `digits` writes in decimal, leading zeros allowed.
pub open spec fn decimal(digits: Seq<u8>) -> nat
    decreases digits.len(),
{
    if digits.len() == 0 {
        0
    } else {
        decimal(digits.drop_last()) * 10 + digit_value(digits.last())
    }
}

/// The digits of a token: the token itself, less one leading `+`.
pub open spec fn token_digits(token: Seq<u8>) -> Seq<u8> {
    if token.len() > 0 && token[0] == 0x2b {
        token.skip(1)
    } else {
        token
    }
}

/// The tile index that `token` writes: at least one digit, a `+` before
/// them or not, and a value that 32 bits hold. `None` for any other token.
pub open spec fn token_value(token: Seq<u8>) -> Option<u32> {
    let digits = token_digits(token);
    if digits.len() > 0 && all_digits(digits) && decimal(digits) <= u32::MAX {
        Some(decimal(digits) as u32)
    } else {
        None
    }
}

/// Where the token that starts at `from` ends: the first place at or after
/// `from` that holds a blank, or the end of the line.
pub open spec fn token_end(line: Seq<u8>, from: int) -> int
    decreases line.len() - from,
{
    if from >= line.len() || is_space(line[from]) {
        from
    } else {
        token_end(line, from + 1)
    }
}

/// A token ends at or after the place it starts, and within the line.
pub proof fn lemma_token_end_bounds(line: Seq<u8>, from: int)
    requires
        0 <= from <= line.len(),
    ensures
        from <= token_end(line, from) <= line.len(),
        from < line.len() && !is_space(line[from]) ==> from < token_end(line, from),
    decreases line.len() - from,
{
    if from < line.len() && !is_space(line[from]) {
        lemma_token_end_bounds(line, from + 1);
    }
}

/// The tile indices written on `line` from `from` on, in order; `None`
/// where one of the tokens there writes no tile index.
pub open spec fn row_values_from(line: Seq<u8>, from: int) -> Option<Seq<u32>>
    decreases line.len() - from,
{
    if from < 0 || from >= line.len() {
        Some(Seq::empty())
    } else if is_space(line[from]) {
        row_values_from(line, from + 1)
    } else {
        let end = token_end(line, from);
        proof {
            lemma_token_end_bounds(line, from);
        }
        match token_value(line.subrange(from, end)) {
            None => None,
            Some(value) => prepend(seq![value], row_values_from(line, end)),
        }
    }
}

/// `rest` with `done` put before it; `None` stays `None`.
pub open spec fn prepend(done: Seq<u32>, rest: Option<Seq<u32>>) -> Option<Seq<u32>> {
    match rest {
        None => None,
        Some(values) => Some(done + values),
    }
}

/// The tile indices written on `line`, in order; `None` where one of its
/// tokens writes no tile index.
pub open spec fn row_values(line: Seq<u8>) -> Option<Seq<u32>> {
    row_values_from(line, 0)
}

/// Where the line that starts at `from` ends: the first place at or after
/// `from` that holds a line feed, or the end of the text.
pub open spec fn line_end(text: Seq<u8>, from: int) -> int
    decreases text.len() - from,
{
    if from >= text.len() || text[from] == 0x0a {
        from
    } else {
        line_end(text, from + 1)
    }
}

/// A line ends at or after the place it starts, and within the text.
pub proof fn lemma_line_end_bounds(text: Seq<u8>, from: int)
    requires
        0 <= from <= text.len(),
    ensures
        from <= line_end(text, from) <= text.len(),
    decreases text.len() - from,
{
    if from < text.len() && text[from] != 0x0a {
        lemma_line_end_bounds(text, from + 1);
    }
}

/// The lines of `text` from `from` on, without their line feeds. Text that
/// ends in a line feed has no empty line after it.
pub open spec fn lines_from(text: Seq<u8>, from: int) -> Seq<Seq<u8>>
    decreases text.len() - from,
{
    if from < 0 || from >= text.len() {
        Seq::empty()
    } else {
        let end = line_end(text, from);
        proof {
            lemma_line_end_bounds(text, from);
        }
        if end >= text.len() {
            seq![text.subrange(from, end)]
        } else {
            seq![text.subrange(from, end)] + lines_from(text, end + 1)
        }
    }
}

/// The lines of `text`, without their line feeds.
pub open spec fn lines(text: Seq<u8>) -> Seq<Seq<u8>> {
    lines_from(text, 0)
}

/// Whether every line of `text` is a row of tile indices.
pub open spec fn well_formed(text: Seq<u8>) -> bool {
    forall|row: int| 0 <= row < lines(text).len() ==> (#[trigger] row_values(lines(text)[row])) is Some
}

/// Whether `row` is the first line of `text` that is no row of tile
/// indices.
pub open spec fn first_malformed_row(text: Seq<u8>, row: int) -> bool {
    &&& 0 <= row < lines(text).len()
    &&& row_values(lines(text)[row]) is None
    &&& forall|above: int| 0 <= above < row ==> (#[trigger] row_values(lines(text)[above])) is Some
}

/// The tile indices that `text` writes, row by row. It says what the text
/// means only where the text is well formed.
pub open spec fn grid_of(text: Seq<u8>) -> Seq<Seq<u32>> {
    Seq::new(lines(text).len(), |row: int| row_values(lines(text)[row]).unwrap())
}

/// A longer run of digits writes no smaller number.
proof fn lemma_decimal_grows(digits: Seq<u8>, n: int)
    requires
        0 <= n <= digits.len(),
    ensures
        decimal(digits.take(n)) <= decimal(digits),
    decreases digits.len() - n,
{
    if n < digits.len() {
        lemma_decimal_grows(digits, n + 1);
        assert(digits.take(n + 1).drop_last() =~= digits.take(n));
    } else {
        assert(digits.take(n) =~= digits);
    }
}

/// Reads the token that `text` holds from `start` up to `end`.
fn parse_number(text: &[u8], start: usize, end: usize) -> (value: Option<u32>)
    requires
        start <= end <= text.len(),
    ensures
        value == token_value(text@.subrange(start as int, end as int)),
{
    let ghost token = text@.subrange(start as int, end as int);
    let mut at = start;
    if at < end && text[at] == 0x2b {
        at += 1;
    }
    let first = at;
    let ghost digits = text@.subrange(first as int, end as int);
    assert(digits =~= token_digits(token));
    if at == end {
        return None;
    }
    let mut value: u64 = 0;
    while at < end
        invariant
            start <= first <= at <= end <= text.len(),
            digits == text@.subrange(first as int, end as int),
            digits == token_digits(text@.subrange(start as int, end as int)),
            value == decimal(digits.take(at - first)),
            value <= u32::MAX,
            all_digits(digits.take(at - first)),
        decreases end - at,
    {
        let byte = text[at];
        assert(byte == digits[at - first]);
        if byte < 0x30 || byte > 0x39 {
            return None;
        }
        let next = value * 10 + (byte - 0x30) as u64;
        proof {
            let longer = digits.take(at - first + 1);
            assert(longer.drop_last() =~= digits.take(at - first));
            assert(longer.last() == byte);
            assert(next == decimal(longer));
            assert forall|i: int| 0 <= i < longer.len() implies is_digit(#[trigger] longer[i]) by {
                if i < at - first {
                    assert(longer[i] == digits.take(at - first)[i]);
                }
            }
        }
        if next > 0xffff_ffff {
            proof {
                lemma_decimal_grows(digits, at - first + 1);
            }
            return None;
        }
        value = next;
        at += 1;
    }
    assert(digits.take(digits.len() as int) =~= digits);
    Some(value as u32)
}

/// Whether `byte` sets two numbers of a row apart.
fn is_blank(byte: u8) -> (blank: bool)
    ensures
        blank == is_space(byte),
{
    byte == 0x20 || (0x09 <= byte && byte <= 0x0d)
}

/// Reads the row that `text` holds from `start` up to `end`.
fn parse_row(text: &[u8], start: usize, end: usize) -> (row: Option<Vec<u32>>)
    requires
        start <= end <= text.len(),
    ensures
        row is Some <==> row_values(text@.subrange(start as int, end as int)) is Some,
        row matches Some(values) ==> row_values(text@.subrange(start as int, end as int))
            == Some(values@),
{
    let ghost line = text@.subrange(start as int, end as int);
    let mut values: Vec<u32> = Vec::new();
    let mut at = start;
    assert(values@ + row_values_from(line, 0).unwrap() =~= row_values_from(line, 0).unwrap());
    while at < end
        invariant
            start <= at <= end <= text.len(),
            line == text@.subrange(start as int, end as int),
            row_values(line) == prepend(values@, row_values_from(line, at - start)),
        decreases end - at,
    {
        assert(line[at - start] == text[at as int]);
        if is_blank(text[at]) {
            at += 1;
        } else {
            let mut stop = at + 1;
            while stop < end && !is_blank(text[stop])
                invariant
                    start <= at < stop <= end <= text.len(),
                    line == text@.subrange(start as int, end as int),
                    token_end(line, at - start) == token_end(line, stop - start),
                decreases end - stop,
            {
                assert(line[stop - start] == text[stop as int]);
                stop += 1;
            }
            proof {
                if stop < end {
                    assert(line[stop - start] == text[stop as int]);
                }
                assert(token_end(line, at - start) == stop - start);
                assert(line.subrange(at - start, stop - start) =~= text@.subrange(
                    at as int,
                    stop as int,
                ));
            }
            match parse_number(text, at, stop) {
                None => {
                    return None;
                },
                Some(value) => {
                    proof {
                        let rest = row_values_from(line, stop - start);
                        if rest is Some {
                            assert(values@.push(value) + rest.unwrap() =~= values@ + (seq![value]
                                + rest.unwrap()));
                        }
                    }
                    values.push(value);
                    at = stop;
                },
            }
        }
    }
    assert(values@ + Seq::<u32>::empty() =~= values@);
    Some(values)
}

/// The rows of `rows`, each as a sequence.
pub open spec fn grid_view<T>(rows: Vec<Vec<T>>) -> Seq<Seq<T>> {
    Seq::new(rows@.len(), |row: int| rows@[row]@)
}

/// Reads the tile indices that `text` writes, row by row. Where a line is
/// no row of tile indices, names the first such line.
pub fn parse_grid(text: &[u8]) -> (grid: Result<Vec<Vec<u32>>, usize>)
    ensures
        match grid {
            Ok(rows) => well_formed(text@) && grid_view(rows) == grid_of(text@),
            Err(row) => first_malformed_row(text@, row as int),
        },
{
    let mut rows: Vec<Vec<u32>> = Vec::new();
    let mut at: usize = 0;
    assert(lines(text@).skip(0) =~= lines(text@));
    while at < text.len()
        invariant
            at <= text.len(),
            rows@.len() <= lines(text@).len(),
            lines(text@).skip(rows@.len() as int) == lines_from(text@, at as int),
            forall|row: int|
                0 <= row < rows@.len() ==> (#[trigger] row_values(lines(text@)[row])) == Some(
                    rows@[row]@,
                ),
        decreases text.len() - at,
    {
        let mut end = at;
        while end < text.len() && text[end] != 0x0a
            invariant
                at <= end <= text.len(),
                line_end(text@, at as int) == line_end(text@, end as int),
            decreases text.len() - end,
        {
            end += 1;
        }
        proof {
            let done = rows@.len() as int;
            let rest = lines(text@).skip(done);
            assert(line_end(text@, at as int) == end);
            assert(rest.len() >= 1);
            assert(rest.len() == lines(text@).len() - done);
            assert(rest[0] == text@.subrange(at as int, end as int));
            assert(rest[0] == lines(text@)[done]);
            assert(lines(text@).skip(done + 1) =~= rest.skip(1));
            if end < text.len() {
                assert(rest.skip(1) =~= lines_from(text@, end + 1));
            } else {
                assert(rest.skip(1) =~= Seq::<Seq<u8>>::empty());
            }
        }
        match parse_row(text, at, end) {
            None => {
                return Err(rows.len());
            },
            Some(values) => {
                rows.push(values);
                at = if end < text.len() {
                    end + 1
                } else {
                    end
                };
            },
        }
    }
    assert(grid_view(rows) =~= grid_of(text@));
    Ok(rows)
}

} // verus!
