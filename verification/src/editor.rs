//! What the editor's dialogs decide: the actions of the search bar and the
//! place that the go-to dialog names.

use crate::framing::{bounded_number, parse_number};
use vstd::prelude::*;

verus! {

/// What the search bar was asked to do.
#[derive(Clone, Copy, Debug, PartialEq, Eq)]
pub enum SearchAction {
    Search,
    Replace,
    ReplaceAll,
}

/// A place in a text buffer: a column `x` and a line `y`, both from 0.
#[derive(Clone, Copy, Debug, PartialEq, Eq)]
pub struct Point {
    pub x: isize,
    pub y: isize,
}

/// Whether a coordinate is written with a minus sign.
pub open spec fn is_negative(s: Seq<u8>) -> bool {
    s.len() > 0 && s[0] == 45
}

/// The digits of a coordinate: what follows its sign, if it has one.
pub open spec fn coord_digits(s: Seq<u8>) -> Seq<u8> {
    if s.len() > 0 && (s[0] == 43 || s[0] == 45) {
        s.skip(1)
    } else {
        s
    }
}

/// The number that a coordinate denotes: an optional sign, then at least
/// one decimal digit and nothing else, within the range of `isize`.
pub open spec fn parse_coord(s: Seq<u8>) -> Option<int> {
    if is_negative(s) {
        match bounded_number(coord_digits(s), (isize::MAX + 1) as nat) {
            Some(n) => Some(-(n as int)),
            None => None,
        }
    } else {
        match bounded_number(coord_digits(s), isize::MAX as nat) {
            Some(n) => Some(n as int),
            None => None,
        }
    }
}

/// One less than `v`, but never below the least `isize`.
pub open spec fn one_less(v: int) -> int {
    if v <= isize::MIN {
        isize::MIN as int
    } else {
        v - 1
    }
}

/// The index of the first colon at or after `from`, or the length of `s`
/// where there is none.
pub open spec fn colon_index(s: Seq<u8>, from: int) -> int
    decreases s.len() - from,
{
    if from < 0 || from >= s.len() {
        s.len() as int
    } else if s[from] == 58 {
        from
    } else {
        colon_index(s, from + 1)
    }
}

/// The place that the text of the go-to dialog names. The text is a line
/// number, or a line number, a colon and a column number, each counted from
/// 1; a text without a colon stands for column 0. The place counts from 0,
/// so each number is taken one less.
pub open spec fn goto_point(line: Seq<u8>) -> Option<Point> {
    let c = colon_index(line, 0);
    let y = if c < line.len() {
        line.subrange(0, c)
    } else {
        line
    };
    let x = if c < line.len() {
        line.subrange(c + 1, line.len() as int)
    } else {
        seq![48u8]
    };
    match (parse_coord(x), parse_coord(y)) {
        (Some(x), Some(y)) => Some(Point { x: one_less(x) as isize, y: one_less(y) as isize }),
        _ => None,
    }
}

fn parse_coordinate(s: &[u8], from: usize, to: usize) -> (r: Option<isize>)
    requires
        from <= to <= s.len(),
    ensures
        match parse_coord(s@.subrange(from as int, to as int)) {
            Some(v) => r == Some(v as isize),
            None => r is None,
        },
{
    let ghost v = s@.subrange(from as int, to as int);
    let negative: bool = from < to && s[from] == 45u8;
    let start: usize = if from < to && (s[from] == 43u8 || s[from] == 45u8) {
        from + 1
    } else {
        from
    };
    assert(s@.subrange(start as int, to as int) =~= coord_digits(v));
    let most: usize = isize::MAX as usize;
    if negative {
        match parse_number(s, start, to, most + 1) {
            Some(m) => if m > most {
                Some(isize::MIN)
            } else {
                Some(0 - (m as isize))
            },
            None => None,
        }
    } else {
        match parse_number(s, start, to, most) {
            Some(m) => Some(m as isize),
            None => None,
        }
    }
}

fn decrement(v: isize) -> (r: isize)
    ensures
        r == one_less(v as int),
{
    if v == isize::MIN {
        v
    } else {
        v - 1
    }
}

/// Reads the text of the go-to dialog.
pub fn validate_goto_point(line: &[u8]) -> (point: Option<Point>)
    ensures
        point == goto_point(line@),
{
    let n: usize = line.len();
    let mut c: usize = 0;
    while c < n && line[c] != 58u8
        invariant
            c <= n,
            n == line.len(),
            colon_index(line@, 0) == colon_index(line@, c as int),
        decreases n - c,
    {
        c += 1;
    }
    let x: Option<isize> = if c < n {
        parse_coordinate(line, c + 1, n)
    } else {
        let zero: [u8; 1] = [48u8];
        assert(zero@ =~= seq![48u8]);
        assert(zero@.subrange(0, 1) =~= seq![48u8]);
        parse_coordinate(zero.as_slice(), 0, 1)
    };
    let y: Option<isize> = if c < n {
        parse_coordinate(line, 0, c)
    } else {
        assert(line@.subrange(0, n as int) =~= line@);
        parse_coordinate(line, 0, n)
    };
    match (x, y) {
        (Some(x), Some(y)) => Some(Point { x: decrement(x), y: decrement(y) }),
        _ => None,
    }
}

} // verus!
