use vstd::prelude::*;

use crate::error::{ErrorModel, ParseError};
use crate::line::chars_view;
use crate::text::{chars_of, slice, string_of, strings_view, trim, trimmed};

verus! {

/// `s` with each `\|` replaced by `|`.
pub open spec fn unescape(s: Seq<char>) -> Seq<char>
    decreases s.len(),
{
    if s.len() == 0 {
        s
    } else if s.len() >= 2 && s[0] == '\\' && s[1] == '|' {
        seq!['|'] + unescape(s.subrange(2, s.len() as int))
    } else {
        seq![s[0]] + unescape(s.drop_first())
    }
}

/// The value of a cell whose raw text between delimiters is `s`.
pub open spec fn cell_value(s: Seq<char>) -> Seq<char> {
    unescape(trim(s))
}

/// The cell values of `s[start..]`, split at every `|` that no `\` escapes, given that
/// `s[start..i]` holds no such `|` and `esc` tells whether `s[i]` is escaped.
pub open spec fn row_pieces(s: Seq<char>, start: nat, i: nat, esc: bool) -> Seq<Seq<char>>
    decreases s.len() - i,
{
    if i >= s.len() {
        seq![cell_value(s.subrange(start as int, s.len() as int))]
    } else if esc {
        row_pieces(s, start, i + 1, false)
    } else if s[i as int] == '\\' {
        row_pieces(s, start, i + 1, true)
    } else if s[i as int] == '|' {
        seq![cell_value(s.subrange(start as int, i as int))] + row_pieces(s, i + 1, i + 1, false)
    } else {
        row_pieces(s, start, i + 1, false)
    }
}

/// The cells of a table row: the pieces between its first and its last unescaped `|`;
/// `None` where it holds fewer than two of them.
pub open spec fn decode_row(s: Seq<char>) -> Option<Seq<Seq<char>>> {
    let p = row_pieces(s, 0, 0, false);
    if p.len() < 3 {
        None
    } else {
        Some(p.subrange(1, p.len() - 1))
    }
}

/// One row of an example table.
#[derive(Debug, Clone)]
pub struct ExampleRow {
    pub entries: Vec<String>,
}

impl View for ExampleRow {
    type V = Seq<Seq<char>>;

    open spec fn view(&self) -> Seq<Seq<char>> {
        strings_view(self.entries@)
    }
}

fn unescaped(v: &Vec<char>) -> (r: Vec<char>)
    ensures
        r@ == unescape(v@),
{
    let mut r: Vec<char> = Vec::new();
    let mut i: usize = 0;
    let n = v.len();
    assert(v@.subrange(0, n as int) =~= v@);
    while i < n
        invariant
            n == v@.len(),
            i <= n,
            unescape(v@) == r@ + unescape(v@.subrange(i as int, n as int)),
        decreases n - i,
    {
        let ghost rest = v@.subrange(i as int, n as int);
        if i + 1 < n && v[i] == '\\' && v[i + 1] == '|' {
            r.push('|');
            assert(rest.subrange(2, rest.len() as int) =~= v@.subrange(i + 2, n as int));
            i = i + 2;
        } else {
            r.push(v[i]);
            assert(rest.drop_first() =~= v@.subrange(i + 1, n as int));
            i = i + 1;
        }
        assert(unescape(v@) =~= r@ + unescape(v@.subrange(i as int, n as int)));
    }
    r
}

fn cell_of(v: &Vec<char>, from: usize, to: usize) -> (r: Vec<char>)
    requires
        from <= to <= v@.len(),
    ensures
        r@ == cell_value(v@.subrange(from as int, to as int)),
{
    unescaped(&trimmed(&slice(v, from, to)))
}

/// Splits a row at its unescaped `|` and decodes each piece.
fn row_pieces_of(v: &Vec<char>) -> (r: Vec<Vec<char>>)
    ensures
        chars_view(r@) == row_pieces(v@, 0, 0, false),
{
    let mut r: Vec<Vec<char>> = Vec::new();
    let mut start: usize = 0;
    let mut i: usize = 0;
    let mut esc = false;
    let n = v.len();
    while i < n
        invariant
            n == v@.len(),
            start <= i <= n,
            row_pieces(v@, 0, 0, false) == chars_view(r@) + row_pieces(
                v@,
                start as nat,
                i as nat,
                esc,
            ),
        decreases n - i,
    {
        if esc {
            esc = false;
        } else if v[i] == '\\' {
            esc = true;
        } else if v[i] == '|' {
            let c = cell_of(v, start, i);
            let ghost old_r = r@;
            r.push(c);
            assert(chars_view(r@) =~= chars_view(old_r) + seq![c@]);
            assert(row_pieces(v@, 0, 0, false) =~= chars_view(r@) + row_pieces(
                v@,
                (i + 1) as nat,
                (i + 1) as nat,
                false,
            ));
            start = i + 1;
        }
        i = i + 1;
    }
    let c = cell_of(v, start, n);
    let ghost old_r = r@;
    r.push(c);
    assert(chars_view(r@) =~= chars_view(old_r) + seq![c@]);
    r
}

/// Decodes the cells of a table row; `None` where it holds fewer than two unescaped `|`.
pub fn decode_row_chars(v: &Vec<char>) -> (r: Option<Vec<String>>)
    ensures
        match decode_row(v@) {
            Some(c) => r matches Some(e) && strings_view(e@) == c,
            None => r is None,
        },
{
    let p = row_pieces_of(v);
    if p.len() < 3 {
        return None;
    }
    let mut e: Vec<String> = Vec::new();
    let mut k: usize = 1;
    let last = p.len() - 1;
    while k < last
        invariant
            1 <= k <= last,
            last == p@.len() - 1,
            strings_view(e@) =~= chars_view(p@).subrange(1, k as int),
        decreases last - k,
    {
        let s = string_of(&p[k]);
        let ghost old_e = e@;
        e.push(s);
        assert(strings_view(e@) =~= strings_view(old_e).push(s@));
        k = k + 1;
        assert(strings_view(e@) =~= chars_view(p@).subrange(1, k as int));
    }
    Some(e)
}

impl ExampleRow {
    /// Decodes a table row such as `| a | b\|c |` into its cells `a` and `b|c`.
    pub fn from_str(input: &str) -> (r: Result<ExampleRow, ParseError>)
        ensures
            match decode_row(input@) {
                Some(c) => r matches Ok(row) && row@ == c,
                None => r matches Err(e) && e@ == (ErrorModel::MalformedRow { row: input@ }),
            },
    {
        let v = chars_of(input);
        match decode_row_chars(&v) {
            Some(entries) => Ok(ExampleRow { entries }),
            None => Err(ParseError::MalformedRow { row: string_of(&v) }),
        }
    }
}

} // verus!
