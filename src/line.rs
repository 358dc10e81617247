use vstd::prelude::*;

use crate::keyword::{
    group_keyword, group_keyword_of, step_keyword, step_keyword_of, GroupingKeyword, StepKeyword,
};
use crate::text::{
    chars_of, find_char, find_from, lemma_find_from_bounds, slice, split_trimmed, trim, trimmed,
    trimmed_pieces,
};

verus! {

/// The shape of one trimmed line of a feature file.
pub enum LineKind {
    Tags(Seq<Seq<char>>),
    StepLine(StepKeyword, Seq<char>),
    BeginGroup(GroupingKeyword, Seq<char>),
    FreeText(Seq<char>),
    ExampleEntry(Seq<char>),
}

/// One classified line of a feature file.
#[derive(Debug, Clone)]
pub enum GherkinLine {
    Tags(Vec<Vec<char>>),
    StepLine(StepKeyword, Vec<char>),
    BeginGroup(GroupingKeyword, Vec<char>),
    FreeText(Vec<char>),
    ExampleEntry(Vec<char>),
}

pub open spec fn chars_view(v: Seq<Vec<char>>) -> Seq<Seq<char>> {
    v.map_values(|c: Vec<char>| c@)
}

impl View for GherkinLine {
    type V = LineKind;

    open spec fn view(&self) -> LineKind {
        match self {
            GherkinLine::Tags(t) => LineKind::Tags(chars_view(t@)),
            GherkinLine::StepLine(k, t) => LineKind::StepLine(*k, t@),
            GherkinLine::BeginGroup(k, t) => LineKind::BeginGroup(*k, t@),
            GherkinLine::FreeText(t) => LineKind::FreeText(t@),
            GherkinLine::ExampleEntry(t) => LineKind::ExampleEntry(t@),
        }
    }
}

/// A group header `<keyword>: <title>`: the text before the first `:` names a group
/// keyword; the title is the trimmed text after it.
pub open spec fn group_header(line: Seq<char>) -> Option<(GroupingKeyword, Seq<char>)> {
    match find_from(line, ':', 0) {
        Some(i) => match group_keyword_of(trim(line.subrange(0, i as int))) {
            Some(g) => Some((g, trim(line.subrange(i + 1 as int, line.len() as int)))),
            None => None,
        },
        None => None,
    }
}

/// A step `<keyword> <text>`: the text before the first space names a step keyword; the
/// step's text is the trimmed text after it.
pub open spec fn step_header(line: Seq<char>) -> Option<(StepKeyword, Seq<char>)> {
    match find_from(line, ' ', 0) {
        Some(i) => match step_keyword_of(trim(line.subrange(0, i as int))) {
            Some(k) => Some((k, trim(line.subrange(i + 1 as int, line.len() as int)))),
            None => None,
        },
        None => None,
    }
}

/// The kind of a trimmed line; the first shape that fits wins.
pub open spec fn classify(line: Seq<char>) -> LineKind {
    if let Some((g, title)) = group_header(line) {
        LineKind::BeginGroup(g, title)
    } else if let Some((k, text)) = step_header(line) {
        LineKind::StepLine(k, text)
    } else if line.len() > 0 && line[0] == '@' {
        LineKind::Tags(trimmed_pieces(line, '@', 1, 1))
    } else if line.len() > 0 && line[0] == '|' {
        LineKind::ExampleEntry(line)
    } else {
        LineKind::FreeText(line)
    }
}

fn group_header_of(line: &Vec<char>) -> (r: Option<(GroupingKeyword, Vec<char>)>)
    ensures
        match r {
            Some((g, t)) => group_header(line@) == Some((g, t@)),
            None => group_header(line@) is None,
        },
{
    proof {
        lemma_find_from_bounds(line@, ':', 0);
    }
    match find_char(line, ':', 0) {
        Some(i) => {
            let n = line.len();
            let k = trimmed(&slice(line, 0, i));
            match group_keyword(&k) {
                Some(g) => Some((g, trimmed(&slice(line, i + 1, n)))),
                None => None,
            }
        },
        None => None,
    }
}

fn step_header_of(line: &Vec<char>) -> (r: Option<(StepKeyword, Vec<char>)>)
    ensures
        match r {
            Some((k, t)) => step_header(line@) == Some((k, t@)),
            None => step_header(line@) is None,
        },
{
    match find_char(line, ' ', 0) {
        Some(i) => {
            let n = line.len();
            let k = trimmed(&slice(line, 0, i));
            match step_keyword(&k) {
                Some(s) => Some((s, trimmed(&slice(line, i + 1, n)))),
                None => None,
            }
        },
        None => None,
    }
}

impl GherkinLine {
    /// Classifies one line, trimmed first.
    pub fn from_str(input: &str) -> (r: GherkinLine)
        ensures
            r@ == classify(trim(input@)),
    {
        let v = chars_of(input);
        GherkinLine::from_chars(&trimmed(&v))
    }

    /// Classifies one trimmed line.
    pub fn from_chars(line: &Vec<char>) -> (r: GherkinLine)
        ensures
            r@ == classify(line@),
    {
        if let Some((g, title)) = group_header_of(line) {
            GherkinLine::BeginGroup(g, title)
        } else if let Some((k, text)) = step_header_of(line) {
            GherkinLine::StepLine(k, text)
        } else if line.len() > 0 && line[0] == '@' {
            GherkinLine::Tags(split_trimmed(line, '@', 1))
        } else if line.len() > 0 && line[0] == '|' {
            GherkinLine::ExampleEntry(line.clone())
        } else {
            GherkinLine::FreeText(line.clone())
        }
    }
}

/// The lines that count: trimmed, neither empty nor a comment.
pub open spec fn keep(line: Seq<char>) -> Seq<Seq<char>> {
    let t = trim(line);
    if t.len() == 0 || t[0] == '#' {
        seq![]
    } else {
        seq![t]
    }
}

/// The lines that count in `s[start..]`, given that `s[start..i]` holds no line break.
pub open spec fn lines_from(s: Seq<char>, start: nat, i: nat) -> Seq<Seq<char>>
    decreases s.len() - i,
{
    if i >= s.len() {
        keep(s.subrange(start as int, s.len() as int))
    } else if s[i as int] == '\n' {
        keep(s.subrange(start as int, i as int)) + lines_from(s, i + 1, i + 1)
    } else {
        lines_from(s, start, i + 1)
    }
}

/// The trimmed lines of `s` that are neither blank nor comments, in order.
pub open spec fn source_lines(s: Seq<char>) -> Seq<Seq<char>> {
    lines_from(s, 0, 0)
}

fn push_kept(r: &mut Vec<Vec<char>>, line: Vec<char>)
    ensures
        chars_view(final(r)@) == chars_view(old(r)@) + keep(line@),
{
    let t = trimmed(&line);
    if t.len() == 0 || t[0] == '#' {
        assert(chars_view(final(r)@) =~= chars_view(old(r)@) + keep(line@));
    } else {
        r.push(t);
        assert(chars_view(final(r)@) =~= chars_view(old(r)@) + keep(line@));
    }
}

/// Splits `text` into the lines that count.
pub fn split_source_lines(text: &Vec<char>) -> (r: Vec<Vec<char>>)
    ensures
        chars_view(r@) == source_lines(text@),
{
    let mut r: Vec<Vec<char>> = Vec::new();
    let mut start: usize = 0;
    let mut i: usize = 0;
    while i < text.len()
        invariant
            start <= i <= text@.len(),
            source_lines(text@) == chars_view(r@) + lines_from(text@, start as nat, i as nat),
        decreases text@.len() - i,
    {
        if text[i] == '\n' {
            let line = slice(text, start, i);
            push_kept(&mut r, line);
            assert(source_lines(text@) =~= chars_view(r@) + lines_from(
                text@,
                (i + 1) as nat,
                (i + 1) as nat,
            ));
            start = i + 1;
        }
        i = i + 1;
    }
    let line = slice(text, start, text.len());
    push_kept(&mut r, line);
    assert(source_lines(text@) =~= chars_view(r@));
    r
}

} // verus!
