use vstd::prelude::*;

use crate::feature::{BlockModel, ExampleBlock};
use crate::text::{chars_of, eq_str, find_char, find_from, slice};

verus! {

/// The type of a test argument.
#[derive(Debug, PartialEq, Eq, Clone, Copy, Structural)]
pub enum CSType {
    Bool,
    Int64,
    Double,
    String,
}

pub open spec fn is_digit(c: char) -> bool {
    '0' <= c && c <= '9'
}

/// Every character of `s` is a decimal digit (`s` may be empty).
pub open spec fn digits_only(s: Seq<char>) -> bool {
    forall|i: int| 0 <= i < s.len() ==> is_digit(#[trigger] s[i])
}

/// The number that the decimal digits `s` write.
pub open spec fn digits_value(s: Seq<char>) -> nat
    decreases s.len(),
{
    if s.len() == 0 {
        0
    } else {
        digits_value(s.drop_last()) * 10 + ((s.last() as u32 - '0' as u32) as nat)
    }
}

pub open spec fn is_sign(c: char) -> bool {
    c == '+' || c == '-'
}

/// `s` is a 64-bit signed integer as `i64::from_str` reads one: an optional sign, then
/// decimal digits whose value fits.
pub open spec fn is_i64_text(s: Seq<char>) -> bool {
    if s.len() > 0 && is_sign(s[0]) {
        let d = s.subrange(1, s.len() as int);
        &&& d.len() > 0
        &&& digits_only(d)
        &&& digits_value(d) <= if s[0] == '-' {
            0x8000_0000_0000_0000nat
        } else {
            0x7fff_ffff_ffff_ffffnat
        }
    } else {
        &&& s.len() > 0
        &&& digits_only(s)
        &&& digits_value(s) <= 0x7fff_ffff_ffff_ffffnat
    }
}

/// `c` is `l`, or the ASCII upper case letter of lower case letter `l`.
pub open spec fn matches_lower(c: char, l: char) -> bool {
    c == l || ('A' <= c && c <= 'Z' && (c as u32) + 32 == (l as u32))
}

/// `a` matches the lower case word `b` whatever the case of its ASCII letters.
pub open spec fn eq_ignore_case(a: Seq<char>, b: Seq<char>) -> bool {
    a.len() == b.len() && forall|i: int| 0 <= i < a.len() ==> matches_lower(#[trigger] a[i], b[i])
}

/// Digits, at most one `.` among them, and at least one digit.
pub open spec fn is_mantissa(m: Seq<char>) -> bool {
    match find_from(m, '.', 0) {
        None => m.len() > 0 && digits_only(m),
        Some(d) => m.len() > 1 && digits_only(m.subrange(0, d as int)) && digits_only(
            m.subrange(d + 1 as int, m.len() as int),
        ),
    }
}

/// An optional sign, then at least one digit.
pub open spec fn is_exponent(x: Seq<char>) -> bool {
    if x.len() > 0 && is_sign(x[0]) {
        x.len() > 1 && digits_only(x.subrange(1, x.len() as int))
    } else {
        x.len() > 0 && digits_only(x)
    }
}

/// The first position at or after `i` where `s` holds `e` or `E`.
pub open spec fn find_exp(s: Seq<char>, i: nat) -> Option<nat>
    decreases s.len() - i,
{
    if i >= s.len() {
        None
    } else if s[i as int] == 'e' || s[i as int] == 'E' {
        Some(i)
    } else {
        find_exp(s, i + 1)
    }
}

/// A decimal number with an optional exponent.
pub open spec fn is_decimal(r: Seq<char>) -> bool {
    match find_exp(r, 0) {
        None => is_mantissa(r),
        Some(k) => is_mantissa(r.subrange(0, k as int)) && is_exponent(
            r.subrange(k + 1 as int, r.len() as int),
        ),
    }
}

/// `s` is a floating-point number as `f64::from_str` reads one: an optional sign, then
/// `inf`, `infinity`, `nan` (in any case) or a decimal number.
pub open spec fn is_f64_text(s: Seq<char>) -> bool {
    let r = if s.len() > 0 && is_sign(s[0]) {
        s.subrange(1, s.len() as int)
    } else {
        s
    };
    eq_ignore_case(r, "inf"@) || eq_ignore_case(r, "infinity"@) || eq_ignore_case(r, "nan"@)
        || is_decimal(r)
}

/// The type of one example cell: the first of integer, floating-point number and boolean
/// that reads it, else string.
pub open spec fn cell_type(s: Seq<char>) -> CSType {
    if is_i64_text(s) {
        CSType::Int64
    } else if is_f64_text(s) {
        CSType::Double
    } else if s == "true"@ || s == "false"@ {
        CSType::Bool
    } else {
        CSType::String
    }
}

/// The join of two types: a type stays unless contradicted, and then becomes string.
pub open spec fn join(a: CSType, b: CSType) -> CSType {
    if a == b {
        a
    } else {
        CSType::String
    }
}


fn is_digit_char(c: char) -> (r: bool)
    ensures
        r == is_digit(c),
{
    '0' <= c && c <= '9'
}

/// Whether `v[from..to]` holds decimal digits only.
fn digits_only_in(v: &Vec<char>, from: usize, to: usize) -> (r: bool)
    requires
        from <= to <= v@.len(),
    ensures
        r == digits_only(v@.subrange(from as int, to as int)),
{
    let mut i: usize = from;
    while i < to
        invariant
            from <= i <= to <= v@.len(),
            digits_only(v@.subrange(from as int, i as int)),
        decreases to - i,
    {
        if !is_digit_char(v[i]) {
            assert(!is_digit(v@.subrange(from as int, to as int)[i - from]));
            return false;
        }
        i = i + 1;
        assert forall|k: int| 0 <= k < i - from implies is_digit(
            #[trigger] v@.subrange(from as int, i as int)[k],
        ) by {
            if k < i - 1 - from {
                assert(v@.subrange(from as int, i as int)[k] == v@.subrange(
                    from as int,
                    i - 1 as int,
                )[k]);
            }
        }
    }
    true
}

/// Whether the digits `v[from..to]` write a number no larger than `bound`.
fn digits_at_most(v: &Vec<char>, from: usize, to: usize, bound: u64) -> (r: bool)
    requires
        from <= to <= v@.len(),
        digits_only(v@.subrange(from as int, to as int)),
    ensures
        r == (digits_value(v@.subrange(from as int, to as int)) <= bound),
{
    let mut value: u128 = 0;
    let mut over = false;
    let mut i: usize = from;
    assert(v@.subrange(from as int, from as int) =~= Seq::<char>::empty());
    while i < to
        invariant
            from <= i <= to <= v@.len(),
            digits_only(v@.subrange(from as int, to as int)),
            !over ==> value == digits_value(v@.subrange(from as int, i as int)) && value <= bound,
            over ==> digits_value(v@.subrange(from as int, i as int)) > bound,
        decreases to - i,
    {
        let ghost prev = v@.subrange(from as int, i as int);
        assert(v@.subrange(from as int, i + 1 as int).drop_last() =~= prev);
        assert(v@.subrange(from as int, i + 1 as int).last() == v@[i as int]);
        assert(is_digit(v@.subrange(from as int, to as int)[i - from]));
        let d = v[i] as u32 - '0' as u32;
        if !over {
            value = value * 10 + d as u128;
            if value > bound as u128 {
                over = true;
            }
        }
        i = i + 1;
    }
    !over
}

/// Whether `v` holds a 64-bit signed integer.
fn is_i64_chars(v: &Vec<char>) -> (r: bool)
    ensures
        r == is_i64_text(v@),
{
    let n = v.len();
    assert(v@.subrange(0, n as int) =~= v@);
    if n > 0 && (v[0] == '+' || v[0] == '-') {
        if n < 2 || !digits_only_in(v, 1, n) {
            return false;
        }
        let bound: u64 = if v[0] == '-' {
            0x8000_0000_0000_0000
        } else {
            0x7fff_ffff_ffff_ffff
        };
        digits_at_most(v, 1, n, bound)
    } else {
        if n == 0 || !digits_only_in(v, 0, n) {
            return false;
        }
        digits_at_most(v, 0, n, 0x7fff_ffff_ffff_ffff)
    }
}

fn matches_lower_char(c: char, l: char) -> (r: bool)
    ensures
        r == matches_lower(c, l),
{
    c == l || ('A' <= c && c <= 'Z' && (c as u32) + 32 == (l as u32))
}

/// Whether `v[from..]` matches the lower case word `b` whatever the case of its letters.
pub fn eq_ignore_case_from(v: &Vec<char>, from: usize, b: &str) -> (r: bool)
    requires
        from <= v@.len(),
    ensures
        r == eq_ignore_case(v@.subrange(from as int, v@.len() as int), b@),
{
    let ghost a = v@.subrange(from as int, v@.len() as int);
    let n = b.unicode_len();
    let vl = v.len();
    if vl - from != n {
        return false;
    }
    let mut i: usize = 0;
    while i < n
        invariant
            a == v@.subrange(from as int, v@.len() as int),
            n == a.len() == b@.len(),
            from + n == v@.len(),
            vl == v@.len(),
            i <= n,
            forall|k: int| 0 <= k < i ==> matches_lower(#[trigger] a[k], b@[k]),
        decreases n - i,
    {
        if !matches_lower_char(v[from + i], b.get_char(i)) {
            assert(!matches_lower(a[i as int], b@[i as int]));
            return false;
        }
        i = i + 1;
    }
    true
}

fn find_exp_in(v: &Vec<char>, from: usize) -> (r: Option<usize>)
    ensures
        match r {
            Some(k) => find_exp(v@, from as nat) == Some(k as nat) && from <= k < v@.len(),
            None => find_exp(v@, from as nat) is None,
        },
{
    let mut i: usize = from;
    while i < v.len()
        invariant
            from <= i || v@.len() <= from,
            find_exp(v@, from as nat) == find_exp(v@, i as nat),
        decreases v@.len() - i,
    {
        if v[i] == 'e' || v[i] == 'E' {
            return Some(i);
        }
        i = i + 1;
    }
    None
}


fn is_mantissa_chars(m: &Vec<char>) -> (r: bool)
    ensures
        r == is_mantissa(m@),
{
    let n = m.len();
    assert(m@.subrange(0, n as int) =~= m@);
    match find_char(m, '.', 0) {
        None => n > 0 && digits_only_in(m, 0, n),
        Some(d) => n > 1 && digits_only_in(m, 0, d) && digits_only_in(m, d + 1, n),
    }
}

fn is_exponent_chars(x: &Vec<char>) -> (r: bool)
    ensures
        r == is_exponent(x@),
{
    let n = x.len();
    assert(x@.subrange(0, n as int) =~= x@);
    if n > 0 && (x[0] == '+' || x[0] == '-') {
        n > 1 && digits_only_in(x, 1, n)
    } else {
        n > 0 && digits_only_in(x, 0, n)
    }
}

fn is_decimal_chars(r: &Vec<char>) -> (b: bool)
    ensures
        b == is_decimal(r@),
{
    let n = r.len();
    match find_exp_in(r, 0) {
        None => is_mantissa_chars(r),
        Some(k) => is_mantissa_chars(&slice(r, 0, k)) && is_exponent_chars(&slice(r, k + 1, n)),
    }
}

fn is_f64_chars(s: &Vec<char>) -> (b: bool)
    ensures
        b == is_f64_text(s@),
{
    let n = s.len();
    let r = if n > 0 && (s[0] == '+' || s[0] == '-') {
        slice(s, 1, n)
    } else {
        slice(s, 0, n)
    };
    assert(s@.subrange(0, n as int) =~= s@);
    assert(r@.subrange(0, r@.len() as int) =~= r@);
    eq_ignore_case_from(&r, 0, "inf") || eq_ignore_case_from(&r, 0, "infinity")
        || eq_ignore_case_from(&r, 0, "nan") || is_decimal_chars(&r)
}

/// The type of one example cell.
pub fn cell_type_of(s: &Vec<char>) -> (r: CSType)
    ensures
        r == cell_type(s@),
{
    if is_i64_chars(s) {
        CSType::Int64
    } else if is_f64_chars(s) {
        CSType::Double
    } else if eq_str(s, "true") || eq_str(s, "false") {
        CSType::Bool
    } else {
        CSType::String
    }
}

/// The name of a type in the generated test code.
pub open spec fn cs_type_name(t: CSType) -> Seq<char> {
    match t {
        CSType::Bool => "bool"@,
        CSType::Int64 => "long"@,
        CSType::Double => "double"@,
        CSType::String => "string"@,
    }
}

impl CSType {
    /// The join of two types: equal types stay, different ones give string.
    pub fn lowest_common_type(self, other: CSType) -> (r: CSType)
        ensures
            r == join(self, other),
    {
        if self == other {
            self
        } else {
            CSType::String
        }
    }

    /// The type of one example cell: integer, else floating-point number, else boolean,
    /// else string.
    pub fn from(input: &str) -> (r: CSType)
        ensures
            r == cell_type(input@),
    {
        let v = chars_of(input);
        cell_type_of(&v)
    }

    /// The name of the type in the generated test code.
    pub fn to_str(self) -> (r: &'static str)
        ensures
            r@ == cs_type_name(self),
    {
        match self {
            CSType::Bool => "bool",
            CSType::Int64 => "long",
            CSType::Double => "double",
            CSType::String => "string",
        }
    }
}

/// The example rows of all blocks, in order.
pub open spec fn all_rows(blocks: Seq<BlockModel>) -> Seq<Seq<Seq<char>>>
    decreases blocks.len(),
{
    if blocks.len() == 0 {
        seq![]
    } else {
        all_rows(blocks.drop_last()) + blocks.last().examples
    }
}

/// The type of cell `i` of a row; a row too short for it counts as string.
pub open spec fn cell_class(row: Seq<Seq<char>>, i: int) -> CSType {
    if 0 <= i < row.len() {
        cell_type(row[i])
    } else {
        CSType::String
    }
}

/// The type of column `i` over `rows`: the type that all its cells share, else string;
/// string where there is no row.
pub open spec fn column_type(rows: Seq<Seq<Seq<char>>>, i: int) -> CSType {
    if rows.len() == 0 {
        CSType::String
    } else if forall|k: int| 0 <= k < rows.len() ==> #[trigger] cell_class(rows[k], i) == cell_class(rows[0], i) {
        cell_class(rows[0], i)
    } else {
        CSType::String
    }
}

/// The argument types of an outline with example blocks `blocks`: one per label of the
/// first block.
pub open spec fn arg_types(blocks: Seq<BlockModel>) -> Seq<CSType> {
    let count = if blocks.len() > 0 {
        blocks[0].labels.len()
    } else {
        0
    };
    Seq::new(count, |i: int| column_type(all_rows(blocks), i))
}

/// The types of cell `i` over `rows`, joined from the first row on.
pub open spec fn fold_classes(rows: Seq<Seq<Seq<char>>>, i: int) -> Option<CSType>
    decreases rows.len(),
{
    if rows.len() == 0 {
        None
    } else {
        match fold_classes(rows.drop_last(), i) {
            None => Some(cell_class(rows.last(), i)),
            Some(t) => Some(join(t, cell_class(rows.last(), i))),
        }
    }
}

proof fn lemma_fold_classes(rows: Seq<Seq<Seq<char>>>, i: int)
    ensures
        rows.len() == 0 ==> fold_classes(rows, i) is None,
        rows.len() > 0 ==> fold_classes(rows, i) == Some(column_type(rows, i)),
    decreases rows.len(),
{
    if rows.len() > 1 {
        let init = rows.drop_last();
        lemma_fold_classes(init, i);
        assert(init[0] == rows[0]);
        assert(rows.last() == rows[rows.len() - 1]);
        if forall|k: int| 0 <= k < init.len() ==> #[trigger] cell_class(init[k], i) == cell_class(init[0], i) {
            if cell_class(rows.last(), i) == cell_class(rows[0], i) {
                assert forall|k: int| 0 <= k < rows.len() implies #[trigger] cell_class(rows[k], i)
                    == cell_class(rows[0], i) by {
                    if k < init.len() {
                        assert(rows[k] == init[k]);
                    }
                }
            } else {
                assert(cell_class(rows[rows.len() - 1], i) != cell_class(rows[0], i));
            }
        } else {
            let k = choose|k: int| 0 <= k < init.len() && #[trigger] cell_class(init[k], i) != cell_class(init[0], i);
            assert(rows[k] == init[k]);
        }
    } else if rows.len() == 1 {
        assert(rows.drop_last().len() == 0);
        assert(fold_classes(rows.drop_last(), i) is None);
        assert(rows.last() == rows[0]);
        assert forall|k: int| 0 <= k < rows.len() implies #[trigger] cell_class(rows[k], i)
            == cell_class(rows[0], i) by {}
    }
}

/// Infers the type of each column: one per label of the first block, each the join of the
/// types of that column's cells across all example rows of all blocks.
pub fn calculate_arg_types(example_blocks: &[ExampleBlock]) -> (r: Vec<CSType>)
    ensures
        r@ == arg_types(example_blocks@.map_values(|b: ExampleBlock| b@)),
{
    let ghost bv = example_blocks@.map_values(|b: ExampleBlock| b@);
    let ghost rows = all_rows(bv);
    let mut out: Vec<CSType> = Vec::new();
    let count = if example_blocks.len() > 0 {
        example_blocks[0].labels.entries.len()
    } else {
        0
    };
    let mut i: usize = 0;
    while i < count
        invariant
            bv == example_blocks@.map_values(|b: ExampleBlock| b@),
            rows == all_rows(bv),
            i <= count,
            count == arg_types(bv).len(),
            out@ =~= arg_types(bv).subrange(0, i as int),
        decreases count - i,
    {
        let mut acc: Option<CSType> = None;
        let mut b: usize = 0;
        assert(bv.subrange(0, 0) =~= Seq::<BlockModel>::empty());
        while b < example_blocks.len()
            invariant
                bv == example_blocks@.map_values(|b: ExampleBlock| b@),
                b <= example_blocks@.len(),
                acc == fold_classes(all_rows(bv.subrange(0, b as int)), i as int),
            decreases example_blocks@.len() - b,
        {
            let block = &example_blocks[b];
            let ghost before = all_rows(bv.subrange(0, b as int));
            let mut k: usize = 0;
            while k < block.examples.len()
                invariant
                    bv == example_blocks@.map_values(|b: ExampleBlock| b@),
                    b < example_blocks@.len(),
                    block == example_blocks@[b as int],
                    k <= block.examples@.len(),
                    acc == fold_classes(before + bv[b as int].examples.subrange(0, k as int), i as int),
                decreases block.examples@.len() - k,
            {
                let row = &block.examples[k];
                let c = if i < row.entries.len() {
                    let cell = chars_of(row.entries[i].as_str());
                    cell_type_of(&cell)
                } else {
                    CSType::String
                };
                let ghost seen = before + bv[b as int].examples.subrange(0, k as int);
                let ghost next = before + bv[b as int].examples.subrange(0, k + 1 as int);
                assert(next.drop_last() =~= seen);
                assert(next.last() == row@);
                acc = match acc {
                    None => Some(c),
                    Some(t) => Some(t.lowest_common_type(c)),
                };
                k = k + 1;
            }
            assert(bv.subrange(0, b + 1 as int).drop_last() =~= bv.subrange(0, b as int));
            assert(bv[b as int].examples.subrange(0, k as int) =~= bv[b as int].examples);
            b = b + 1;
        }
        assert(bv.subrange(0, b as int) =~= bv);
        proof {
            lemma_fold_classes(rows, i as int);
        }
        let t = match acc {
            Some(t) => t,
            None => CSType::String,
        };
        out.push(t);
        i = i + 1;
    }
    out
}

} // verus!
