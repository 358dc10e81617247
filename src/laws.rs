use vstd::prelude::*;

use crate::feature::{block_at, rows_from, BlockModel};
use crate::error::ErrorModel;
use crate::infer::{all_rows, arg_types, cell_class, column_type};
use crate::line::{classify, LineKind};
use crate::row::{cell_value, decode_row, row_pieces, unescape};
use crate::text::{trim_end, trim_start, white_space};
use crate::step::{decode_step, step_parts};

verus! {

/// Step text rebuilt from its segments: literal, `<`, variable, `>`, ..., literal.
pub open spec fn interleave(l: Seq<Seq<char>>, v: Seq<Seq<char>>) -> Seq<char>
    decreases v.len(),
{
    if v.len() == 0 || l.len() == 0 {
        if l.len() > 0 {
            l[0]
        } else {
            seq![]
        }
    } else {
        l[0] + seq!['<'] + v[0] + seq!['>'] + interleave(l.drop_first(), v.drop_first())
    }
}

proof fn lemma_step_parts(t: Seq<char>, start: nat, i: nat, in_var: bool)
    requires
        start <= i <= t.len(),
    ensures
        step_parts(t, start, i, in_var) matches Ok((l, v)) ==> if in_var {
            &&& v.len() == l.len()
            &&& v.len() >= 1
            &&& v[0] + seq!['>'] + interleave(l, v.drop_first()) == t.subrange(
                start as int,
                t.len() as int,
            )
        } else {
            &&& l.len() == v.len() + 1
            &&& interleave(l, v) == t.subrange(start as int, t.len() as int)
        },
    decreases t.len() - i,
{
    let rest = t.subrange(start as int, t.len() as int);
    if i >= t.len() {
    } else if !in_var && t[i as int] == '<' {
        lemma_step_parts(t, i + 1, i + 1, true);
        if let Ok((l2, v2)) = step_parts(t, i + 1, i + 1, true) {
            let lit = t.subrange(start as int, i as int);
            let l = seq![lit] + l2;
            assert(l[0] == lit);
            assert(l.drop_first() =~= l2);
            assert(interleave(l, v2) == lit + seq!['<'] + v2[0] + seq!['>'] + interleave(
                l2,
                v2.drop_first(),
            ));
            assert(rest =~= lit + seq!['<'] + t.subrange(i + 1 as int, t.len() as int));
            assert(interleave(l, v2) =~= rest);
        }
    } else if in_var && t[i as int] == '>' {
        lemma_step_parts(t, i + 1, i + 1, false);
        if let Ok((l2, v2)) = step_parts(t, i + 1, i + 1, false) {
            let var = t.subrange(start as int, i as int);
            let v = seq![var] + v2;
            assert(v[0] == var);
            assert(v.drop_first() =~= v2);
            assert(rest =~= var + seq!['>'] + t.subrange(i + 1 as int, t.len() as int));
        }
    } else {
        lemma_step_parts(t, start, i + 1, in_var);
    }
}

/// A decoded step has one more literal than variables, and interleaving them as
/// `literal <variable> literal ... literal` gives back the step text.
pub proof fn lemma_step_round_trip(t: Seq<char>)
    ensures
        decode_step(t) matches Ok((l, v)) ==> l.len() == v.len() + 1 && interleave(l, v) == t,
{
    lemma_step_parts(t, 0, 0, false);
    assert(t.subrange(0, t.len() as int) =~= t);
}

proof fn lemma_rows_match_labels(
    ls: Seq<Seq<char>>,
    p: nat,
    labels: Seq<Seq<char>>,
    outline: Seq<char>,
)
    ensures
        rows_from(ls, p, labels, outline) matches Ok((rs, _)) ==> forall|k: int|
            0 <= k < rs.len() ==> (#[trigger] rs[k]).len() == labels.len(),
    decreases ls.len() - p,
{
    if p < ls.len() {
        lemma_rows_match_labels(ls, p + 1, labels, outline);
        if let Ok((rs, _)) = rows_from(ls, p, labels, outline) {
            if let LineKind::ExampleEntry(row) = classify(ls[p as int]) {
                if let Some(cells) = decode_row(row) {
                    if let Ok((rs2, _)) = rows_from(ls, p + 1, labels, outline) {
                        assert forall|k: int| 0 <= k < rs.len() implies (#[trigger] rs[k]).len()
                            == labels.len() by {
                            if k > 0 {
                                assert(rs[k] == rs2[k - 1]);
                            }
                        }
                    }
                }
            }
        }
    }
}

/// Every example row of a block that parses has as many cells as its label row.
pub proof fn lemma_block_rows_match_labels(
    ls: Seq<Seq<char>>,
    p: nat,
    title: Seq<char>,
    outline: Seq<char>,
)
    ensures
        block_at(ls, p, title, outline) matches Ok((b, _)) ==> forall|k: int|
            0 <= k < b.examples.len() ==> (#[trigger] b.examples[k]).len() == b.labels.len(),
{
    if p < ls.len() {
        if let LineKind::ExampleEntry(row) = classify(ls[p as int]) {
            if let Some(labels) = decode_row(row) {
                lemma_rows_match_labels(ls, p + 1, labels, outline);
            }
        }
    }
}

/// An example row whose cell count differs from the label row's is rejected with an
/// error that names both counts and both rows.
pub proof fn lemma_row_count_mismatch(
    ls: Seq<Seq<char>>,
    q: nat,
    labels: Seq<Seq<char>>,
    outline: Seq<char>,
    row: Seq<char>,
    cells: Seq<Seq<char>>,
)
    requires
        q < ls.len(),
        classify(ls[q as int]) == LineKind::ExampleEntry(row),
        decode_row(row) == Some(cells),
        cells.len() != labels.len(),
    ensures
        rows_from(ls, q, labels, outline) == Err::<(Seq<Seq<Seq<char>>>, nat), ErrorModel>(
            ErrorModel::ColumnCountMismatch {
                outline,
                expected: labels.len(),
                found: cells.len(),
                labels,
                row: cells,
            },
        ),
{
}

/// The number of times `c` occurs in `s`.
pub open spec fn count_char(s: Seq<char>, c: char) -> nat
    decreases s.len(),
{
    if s.len() == 0 {
        0
    } else {
        (if s[0] == c {
            1nat
        } else {
            0nat
        }) + count_char(s.drop_first(), c)
    }
}

proof fn lemma_row_pieces_len(s: Seq<char>, start: nat, i: nat, esc: bool)
    requires
        i <= s.len(),
    ensures
        row_pieces(s, start, i, esc).len() <= 1 + count_char(
            s.subrange(i as int, s.len() as int),
            '|',
        ),
    decreases s.len() - i,
{
    if i < s.len() {
        let rest = s.subrange(i as int, s.len() as int);
        assert(rest.drop_first() =~= s.subrange(i + 1 as int, s.len() as int));
        assert(rest[0] == s[i as int]);
        if esc || s[i as int] == '\\' || s[i as int] != '|' {
            lemma_row_pieces_len(s, start, i + 1, false);
            lemma_row_pieces_len(s, start, i + 1, true);
        } else {
            lemma_row_pieces_len(s, i + 1, i + 1, false);
        }
    }
}

/// A row with fewer than two `|` does not decode.
pub proof fn lemma_few_delimiters_fail(s: Seq<char>)
    requires
        count_char(s, '|') < 2,
    ensures
        decode_row(s) is None,
{
    lemma_row_pieces_len(s, 0, 0, false);
    assert(s.subrange(0, s.len() as int) =~= s);
}

/// Two row sequences that hold the same rows, whatever their order and repetitions, give
/// every column the same type.
pub proof fn lemma_column_type_same_rows(r1: Seq<Seq<Seq<char>>>, r2: Seq<Seq<Seq<char>>>, i: int)
    requires
        forall|x: Seq<Seq<char>>| r1.contains(x) <==> r2.contains(x),
    ensures
        column_type(r1, i) == column_type(r2, i),
{
    if r1.len() == 0 {
        if r2.len() > 0 {
            assert(r2.contains(r2[0]));
        }
    } else if r2.len() == 0 {
        assert(r1.contains(r1[0]));
    } else {
        assert(r1.contains(r1[0]));
        assert(r2.contains(r2[0]));
        let j1 = choose|j: int| 0 <= j < r1.len() && r1[j] == r2[0];
        let j2 = choose|j: int| 0 <= j < r2.len() && r2[j] == r1[0];
        let all1 = forall|k: int|
            0 <= k < r1.len() ==> #[trigger] cell_class(r1[k], i) == cell_class(r1[0], i);
        let all2 = forall|k: int|
            0 <= k < r2.len() ==> #[trigger] cell_class(r2[k], i) == cell_class(r2[0], i);
        if all1 {
            assert forall|k: int| 0 <= k < r2.len() implies #[trigger] cell_class(r2[k], i)
                == cell_class(r2[0], i) by {
                assert(r2.contains(r2[k]));
                let j = choose|j: int| 0 <= j < r1.len() && r1[j] == r2[k];
                assert(cell_class(r1[j], i) == cell_class(r1[0], i));
                assert(cell_class(r1[j1], i) == cell_class(r1[0], i));
            }
        } else if all2 {
            assert forall|k: int| 0 <= k < r1.len() implies #[trigger] cell_class(r1[k], i)
                == cell_class(r1[0], i) by {
                assert(r1.contains(r1[k]));
                let j = choose|j: int| 0 <= j < r2.len() && r2[j] == r1[k];
                assert(cell_class(r2[j], i) == cell_class(r2[0], i));
                assert(cell_class(r2[j2], i) == cell_class(r2[0], i));
            }
        }
    }
}

/// Inferred argument types do not change when example rows are permuted within or across
/// blocks.
pub proof fn lemma_arg_types_permutation(b1: Seq<BlockModel>, b2: Seq<BlockModel>)
    requires
        b1.len() == b2.len(),
        b1.len() > 0 ==> b1[0].labels.len() == b2[0].labels.len(),
        all_rows(b1).to_multiset() == all_rows(b2).to_multiset(),
    ensures
        arg_types(b1) == arg_types(b2),
{
    broadcast use vstd::seq_lib::group_to_multiset_ensures;

    let r1 = all_rows(b1);
    let r2 = all_rows(b2);
    assert forall|x: Seq<Seq<char>>| r1.contains(x) <==> r2.contains(x) by {
        assert(r1.contains(x) <==> r1.to_multiset().count(x) > 0);
        assert(r2.contains(x) <==> r2.to_multiset().count(x) > 0);
    }
    assert forall|i: int| 0 <= i < arg_types(b1).len() implies arg_types(b1)[i] == arg_types(
        b2,
    )[i] by {
        lemma_column_type_same_rows(r1, r2, i);
    }
    assert(arg_types(b1) =~= arg_types(b2));
}

/// Inferring over the rows twice over gives the types inferred over them once.
pub proof fn lemma_column_type_repeated_rows(rows: Seq<Seq<Seq<char>>>, i: int)
    ensures
        column_type(rows + rows, i) == column_type(rows, i),
{
    let rr = rows + rows;
    assert forall|x: Seq<Seq<char>>| rr.contains(x) <==> rows.contains(x) by {
        if rr.contains(x) {
            let j = choose|j: int| 0 <= j < rr.len() && rr[j] == x;
            if j < rows.len() {
                assert(rows[j] == x);
            } else {
                assert(rows[j - rows.len()] == x);
            }
        }
        if rows.contains(x) {
            let j = choose|j: int| 0 <= j < rows.len() && rows[j] == x;
            assert(rr[j] == x);
        }
    }
    lemma_column_type_same_rows(rr, rows, i);
}


/// `c` with each `|` written as `\|`.
pub open spec fn escape_pipes(c: Seq<char>) -> Seq<char>
    decreases c.len(),
{
    if c.len() == 0 {
        c
    } else if c[0] == '|' {
        seq!['\\', '|'] + escape_pipes(c.drop_first())
    } else {
        seq![c[0]] + escape_pipes(c.drop_first())
    }
}

proof fn lemma_escape_last(c: Seq<char>)
    requires
        c.len() > 0,
        c.last() != '|',
    ensures
        escape_pipes(c).len() > 0,
        escape_pipes(c).last() == c.last(),
    decreases c.len(),
{
    let e = escape_pipes(c);
    let rest = escape_pipes(c.drop_first());
    if c.len() > 1 {
        assert(c.drop_first().last() == c.last());
        lemma_escape_last(c.drop_first());
        assert(e.last() == rest.last());
    } else {
        assert(c.drop_first().len() == 0);
        assert(rest.len() == 0);
        assert(e =~= seq![c[0]]);
    }
}

proof fn lemma_unescape_escape(c: Seq<char>)
    requires
        forall|k: int| 0 <= k < c.len() ==> c[k] != '\\',
    ensures
        unescape(escape_pipes(c)) == c,
    decreases c.len(),
{
    if c.len() > 0 {
        let e = escape_pipes(c);
        lemma_unescape_escape(c.drop_first());
        if c[0] == '|' {
            assert(e.subrange(2, e.len() as int) =~= escape_pipes(c.drop_first()));
        } else {
            assert(e.drop_first() =~= escape_pipes(c.drop_first()));
        }
        assert(unescape(e) =~= c);
    }
}

proof fn lemma_scan_escaped(s: Seq<char>, start: nat, i: nat, c: Seq<char>)
    requires
        forall|k: int| 0 <= k < c.len() ==> c[k] != '\\',
        start <= i,
        i + escape_pipes(c).len() <= s.len(),
        s.subrange(i as int, (i + escape_pipes(c).len()) as int) == escape_pipes(c),
    ensures
        row_pieces(s, start, i, false) == row_pieces(
            s,
            start,
            (i + escape_pipes(c).len()) as nat,
            false,
        ),
    decreases c.len(),
{
    if c.len() > 0 {
        let e = escape_pipes(c);
        let rest = escape_pipes(c.drop_first());
        let ii = i as int;
        let w = s.subrange(ii, ii + e.len());
        assert(w[0] == s[ii]);
        if c[0] == '|' {
            assert(e.len() == rest.len() + 2);
            assert(w[1] == s[ii + 1]);
            assert(s[ii] == '\\' && s[ii + 1] == '|');
            assert(row_pieces(s, start, i, false) == row_pieces(s, start, i + 1, true));
            assert(row_pieces(s, start, i + 1, true) == row_pieces(s, start, i + 2, false));
            assert(s.subrange(ii + 2, ii + 2 + rest.len()) =~= w.subrange(2, e.len() as int));
            assert(e.subrange(2, e.len() as int) =~= rest);
            lemma_scan_escaped(s, start, i + 2, c.drop_first());
        } else {
            assert(e.len() == rest.len() + 1);
            assert(s[ii] == c[0]);
            assert(row_pieces(s, start, i, false) == row_pieces(s, start, i + 1, false));
            assert(s.subrange(ii + 1, ii + 1 + rest.len()) =~= w.subrange(1, e.len() as int));
            assert(e.subrange(1, e.len() as int) =~= rest);
            lemma_scan_escaped(s, start, i + 1, c.drop_first());
        }
    }
}

/// A cell whose text holds `|` decodes back to that text when written with each `|`
/// escaped as `\|` between two delimiters: one cell, not several. The text holds no `\`,
/// and neither starts nor ends with white space or `|`.
pub proof fn lemma_escaped_cell_round_trip(c: Seq<char>)
    requires
        forall|k: int| 0 <= k < c.len() ==> c[k] != '\\',
        c.len() > 0 ==> !white_space(c[0]) && c[0] != '|' && !white_space(c.last()) && c.last()
            != '|',
    ensures
        decode_row(seq!['|'] + escape_pipes(c) + seq!['|']) == Some(seq![c]),
{
    let e = escape_pipes(c);
    let s = seq!['|'] + e + seq!['|'];
    let n = s.len();
    assert(s.subrange(1, 1 + e.len() as int) =~= e);
    lemma_scan_escaped(s, 1, 1, c);
    assert(s[n - 1] == '|');
    assert(s.subrange(1, n - 1) =~= e);
    assert(s.subrange(0, 0) =~= Seq::<char>::empty());
    assert(s.subrange(n as int, n as int) =~= Seq::<char>::empty());
    lemma_unescape_escape(c);
    if c.len() > 0 {
        assert(e[0] == c[0]);
        lemma_escape_last(c);
        assert(trim_start(e) == e);
        assert(trim_end(e) == e);
    } else {
        assert(trim_start(e) == e);
        assert(trim_end(e) == e);
    }
    assert(cell_value(e) == c);
    assert(trim_start(Seq::<char>::empty()) == Seq::<char>::empty());
    assert(trim_end(Seq::<char>::empty()) == Seq::<char>::empty());
    let p = row_pieces(s, 0, 0, false);
    let m = (n - 1) as nat;
    assert(row_pieces(s, 0, 0, false) == seq![cell_value(s.subrange(0, 0))] + row_pieces(s, 1, 1, false));
    assert(row_pieces(s, 1, m, false) == seq![cell_value(s.subrange(1, m as int))] + row_pieces(s, n, n, false));
    assert(row_pieces(s, n, n, false) == seq![cell_value(s.subrange(n as int, n as int))]);
    assert(p =~= seq![cell_value(Seq::<char>::empty()), c, cell_value(Seq::<char>::empty())]);
    assert(p.subrange(1, 2) =~= seq![c]);
}

} // verus!
