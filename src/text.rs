use vstd::prelude::*;

verus! {

/// Whether `c` has the Unicode White_Space property, as `char::is_whitespace` decides it.
pub uninterp spec fn white_space(c: char) -> bool;

/// Relies on `char::is_whitespace`: the answer depends on the character alone.
#[verifier::external_body]
pub fn is_whitespace(c: char) -> (r: bool)
    ensures
        r == white_space(c),
{
    c.is_whitespace()
}

/// The characters of `s` with leading white space removed.
pub open spec fn trim_start(s: Seq<char>) -> Seq<char>
    decreases s.len(),
{
    if s.len() > 0 && white_space(s[0]) {
        trim_start(s.drop_first())
    } else {
        s
    }
}

/// The characters of `s` with trailing white space removed.
pub open spec fn trim_end(s: Seq<char>) -> Seq<char>
    decreases s.len(),
{
    if s.len() > 0 && white_space(s.last()) {
        trim_end(s.drop_last())
    } else {
        s
    }
}

/// The characters of `s` with white space removed at both ends.
pub open spec fn trim(s: Seq<char>) -> Seq<char> {
    trim_end(trim_start(s))
}

/// Copies `v[from..to]`.
pub fn slice(v: &Vec<char>, from: usize, to: usize) -> (r: Vec<char>)
    requires
        from <= to <= v@.len(),
    ensures
        r@ == v@.subrange(from as int, to as int),
{
    let mut r: Vec<char> = Vec::new();
    let mut i: usize = from;
    while i < to
        invariant
            from <= i <= to <= v@.len(),
            r@ == v@.subrange(from as int, i as int),
        decreases to - i,
    {
        r.push(v[i]);
        i = i + 1;
        assert(r@ =~= v@.subrange(from as int, i as int));
    }
    r
}

/// Copies `v` with white space removed at both ends.
pub fn trimmed(v: &Vec<char>) -> (r: Vec<char>)
    ensures
        r@ == trim(v@),
{
    let mut lo: usize = 0;
    assert(v@.subrange(0, v@.len() as int) =~= v@);
    while lo < v.len() && is_whitespace(v[lo])
        invariant
            lo <= v@.len(),
            trim_start(v@) == trim_start(v@.subrange(lo as int, v@.len() as int)),
        decreases v@.len() - lo,
    {
        assert(v@.subrange(lo as int + 1, v@.len() as int) =~= v@.subrange(lo as int, v@.len() as int).drop_first());
        lo = lo + 1;
    }
    let ghost mid = v@.subrange(lo as int, v@.len() as int);
    assert(trim_start(mid) == mid);
    let mut hi: usize = v.len();
    while hi > lo && is_whitespace(v[hi - 1])
        invariant
            lo <= hi <= v@.len(),
            trim_end(mid) == trim_end(v@.subrange(lo as int, hi as int)),
        decreases hi,
    {
        assert(v@.subrange(lo as int, hi as int - 1) =~= v@.subrange(lo as int, hi as int).drop_last());
        hi = hi - 1;
    }
    let ghost fin = v@.subrange(lo as int, hi as int);
    assert(trim_end(fin) == fin);
    slice(v, lo, hi)
}


/// The characters of `s`, in order.
pub fn chars_of(s: &str) -> (r: Vec<char>)
    ensures
        r@ == s@,
{
    broadcast use vstd::string::group_string_axioms;

    let mut r: Vec<char> = Vec::new();
    for c in it: s.chars()
        invariant
            it.seq() == s@,
            r@ == it.seq().subrange(0, it.index() as int),
    {
        r.push(c);
    }
    r
}

/// Relies on `String`'s `FromIterator<&char>`: a string holding the characters of `v`, in order.
#[verifier::external_body]
pub fn string_of(v: &Vec<char>) -> (r: String)
    ensures
        r@ == v@,
{
    v.iter().collect()
}

/// The views of a sequence of strings.
pub open spec fn strings_view(v: Seq<String>) -> Seq<Seq<char>> {
    v.map_values(|s: String| s@)
}

/// Builds one `String` per character vector.
pub fn strings_of(v: &Vec<Vec<char>>) -> (r: Vec<String>)
    ensures
        strings_view(r@) == v@.map_values(|c: Vec<char>| c@),
{
    let mut r: Vec<String> = Vec::new();
    let mut i: usize = 0;
    while i < v.len()
        invariant
            i <= v@.len(),
            strings_view(r@) =~= v@.subrange(0, i as int).map_values(|c: Vec<char>| c@),
        decreases v@.len() - i,
    {
        let s = string_of(&v[i]);
        let ghost old_r = r@;
        r.push(s);
        assert(r@ == old_r.push(s));
        assert(strings_view(r@) =~= strings_view(old_r).push(s@));
        i = i + 1;
        assert(v@.subrange(0, i as int) =~= v@.subrange(0, i - 1 as int).push(v@[i - 1]));
        assert(strings_view(r@) =~= v@.subrange(0, i as int).map_values(|c: Vec<char>| c@));
    }
    assert(v@.subrange(0, v@.len() as int) =~= v@);
    r
}

/// The first position at or after `i` where `s` holds `c`.
pub open spec fn find_from(s: Seq<char>, c: char, i: nat) -> Option<nat>
    decreases s.len() - i,
{
    if i >= s.len() {
        None
    } else if s[i as int] == c {
        Some(i)
    } else {
        find_from(s, c, i + 1)
    }
}

pub proof fn lemma_find_from_bounds(s: Seq<char>, c: char, i: nat)
    ensures
        match find_from(s, c, i) {
            Some(k) => i <= k < s.len() && s[k as int] == c,
            None => true,
        },
    decreases s.len() - i,
{
    if i < s.len() && s[i as int] != c {
        lemma_find_from_bounds(s, c, i + 1);
    }
}

/// Finds the first position at or after `from` where `v` holds `c`.
pub fn find_char(v: &Vec<char>, c: char, from: usize) -> (r: Option<usize>)
    ensures
        match r {
            Some(k) => find_from(v@, c, from as nat) == Some(k as nat) && from <= k < v@.len()
                && v@[k as int] == c,
            None => find_from(v@, c, from as nat) is None,
        },
{
    let mut i: usize = from;
    while i < v.len()
        invariant
            from <= i || v@.len() <= from,
            find_from(v@, c, from as nat) == find_from(v@, c, i as nat),
        decreases v@.len() - i,
    {
        if v[i] == c {
            return Some(i);
        }
        i = i + 1;
    }
    None
}

/// Whether `a` holds exactly the characters of `b`.
pub fn eq_str(a: &Vec<char>, b: &str) -> (r: bool)
    ensures
        r == (a@ == b@),
{
    let n = b.unicode_len();
    if a.len() != n {
        return false;
    }
    let mut i: usize = 0;
    while i < n
        invariant
            n == a@.len() == b@.len(),
            i <= n,
            forall|k: int| 0 <= k < i ==> a@[k] == b@[k],
        decreases n - i,
    {
        if a[i] != b.get_char(i) {
            return false;
        }
        i = i + 1;
    }
    assert(a@ =~= b@);
    true
}

/// The pieces of `s[start..]` between occurrences of `c`, each trimmed, given that
/// `s[start..i]` holds no `c`.
pub open spec fn trimmed_pieces(s: Seq<char>, c: char, start: nat, i: nat) -> Seq<Seq<char>>
    decreases s.len() - i,
{
    if i >= s.len() {
        seq![trim(s.subrange(start as int, s.len() as int))]
    } else if s[i as int] == c {
        seq![trim(s.subrange(start as int, i as int))] + trimmed_pieces(s, c, i + 1, i + 1)
    } else {
        trimmed_pieces(s, c, start, i + 1)
    }
}

/// Splits `v[from..]` at every `c` and trims each piece.
pub fn split_trimmed(v: &Vec<char>, c: char, from: usize) -> (r: Vec<Vec<char>>)
    requires
        from <= v@.len(),
    ensures
        r@.map_values(|p: Vec<char>| p@) == trimmed_pieces(v@, c, from as nat, from as nat),
{
    let mut r: Vec<Vec<char>> = Vec::new();
    let mut start: usize = from;
    let mut i: usize = from;
    while i < v.len()
        invariant
            from <= start <= i <= v@.len(),
            trimmed_pieces(v@, c, from as nat, from as nat) == r@.map_values(|p: Vec<char>| p@)
                + trimmed_pieces(v@, c, start as nat, i as nat),
        decreases v@.len() - i,
    {
        if v[i] == c {
            let piece = slice(v, start, i);
            let t = trimmed(&piece);
            let ghost old_r = r@;
            r.push(t);
            assert(r@.map_values(|p: Vec<char>| p@) =~= old_r.map_values(|p: Vec<char>| p@)
                + seq![t@]);
            assert(trimmed_pieces(v@, c, from as nat, from as nat) =~= r@.map_values(
                |p: Vec<char>| p@,
            ) + trimmed_pieces(v@, c, (i + 1) as nat, (i + 1) as nat));
            start = i + 1;
        }
        i = i + 1;
    }
    let piece = slice(v, start, v.len());
    let t = trimmed(&piece);
    let ghost old_r = r@;
    r.push(t);
    assert(r@.map_values(|p: Vec<char>| p@) =~= old_r.map_values(|p: Vec<char>| p@) + seq![t@]);
    r
}

} // verus!
