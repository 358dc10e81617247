use vstd::prelude::*;

use crate::error::{ErrorModel, ParseError};
use crate::keyword::StepKeyword;
use crate::line::chars_view;
use crate::text::{chars_of, slice, string_of, strings_of, strings_view, trim, trimmed};

verus! {

/// What a step decodes to.
pub struct StepModel {
    pub keyword: StepKeyword,
    pub literals: Seq<Seq<char>>,
    pub variables: Seq<Seq<char>>,
}

/// The literal and variable segments of `t[start..]`: a `<` opens a variable, the next
/// `>` closes it. `in_var` tells whether `t[start..i]` is inside a variable, and
/// `t[start..i]` holds no `<` (outside) or `>` (inside). `Err` holds the text after the
/// `<` that no `>` closes.
pub open spec fn step_parts(t: Seq<char>, start: nat, i: nat, in_var: bool) -> Result<
    (Seq<Seq<char>>, Seq<Seq<char>>),
    Seq<char>,
>
    decreases t.len() - i,
{
    if i >= t.len() {
        if in_var {
            Err(t.subrange(start as int, t.len() as int))
        } else {
            Ok((seq![t.subrange(start as int, t.len() as int)], seq![]))
        }
    } else if !in_var && t[i as int] == '<' {
        match step_parts(t, i + 1, i + 1, true) {
            Ok((l, v)) => Ok((seq![t.subrange(start as int, i as int)] + l, v)),
            Err(e) => Err(e),
        }
    } else if in_var && t[i as int] == '>' {
        match step_parts(t, i + 1, i + 1, false) {
            Ok((l, v)) => Ok((l, seq![t.subrange(start as int, i as int)] + v)),
            Err(e) => Err(e),
        }
    } else {
        step_parts(t, start, i + 1, in_var)
    }
}

/// The segments of step text `t`.
pub open spec fn decode_step(t: Seq<char>) -> Result<(Seq<Seq<char>>, Seq<Seq<char>>), Seq<char>> {
    step_parts(t, 0, 0, false)
}

/// One step of a scenario: its keyword and its text cut at placeholders.
#[derive(Debug, Clone)]
pub struct Step {
    pub keyword: StepKeyword,
    pub literals: Vec<String>,
    pub variables: Vec<String>,
}

impl View for Step {
    type V = StepModel;

    open spec fn view(&self) -> StepModel {
        StepModel {
            keyword: self.keyword,
            literals: strings_view(self.literals@),
            variables: strings_view(self.variables@),
        }
    }
}

pub open spec fn prepend_parts(
    l: Seq<Seq<char>>,
    v: Seq<Seq<char>>,
    r: Result<(Seq<Seq<char>>, Seq<Seq<char>>), Seq<char>>,
) -> Result<(Seq<Seq<char>>, Seq<Seq<char>>), Seq<char>> {
    match r {
        Ok((l2, v2)) => Ok((l + l2, v + v2)),
        Err(e) => Err(e),
    }
}

/// Decodes step text `t`; `Err` holds the text after an unclosed `<`.
pub fn step_from_chars(keyword: StepKeyword, t: &Vec<char>) -> (r: Result<Step, Vec<char>>)
    ensures
        match decode_step(t@) {
            Ok((l, v)) => r matches Ok(s) && s@ == (StepModel {
                keyword,
                literals: l,
                variables: v,
            }),
            Err(e) => r matches Err(x) && x@ == e,
        },
{
    let mut lits: Vec<Vec<char>> = Vec::new();
    let mut vars: Vec<Vec<char>> = Vec::new();
    let mut start: usize = 0;
    let mut i: usize = 0;
    let mut in_var = false;
    let n = t.len();
    while i < n
        invariant
            n == t@.len(),
            start <= i <= n,
            decode_step(t@) == prepend_parts(
                chars_view(lits@),
                chars_view(vars@),
                step_parts(t@, start as nat, i as nat, in_var),
            ),
        decreases n - i,
    {
        if !in_var && t[i] == '<' {
            let s = slice(t, start, i);
            let ghost old_l = lits@;
            lits.push(s);
            assert(chars_view(lits@) =~= chars_view(old_l) + seq![s@]);
            assert forall|l: Seq<Seq<char>>|
                #[trigger] (chars_view(lits@) + l) == chars_view(old_l) + (seq![s@] + l) by {
                assert(chars_view(lits@) + l =~= chars_view(old_l) + (seq![s@] + l));
            }
            start = i + 1;
            in_var = true;
        } else if in_var && t[i] == '>' {
            let s = slice(t, start, i);
            let ghost old_v = vars@;
            vars.push(s);
            assert(chars_view(vars@) =~= chars_view(old_v) + seq![s@]);
            assert forall|v: Seq<Seq<char>>|
                #[trigger] (chars_view(vars@) + v) == chars_view(old_v) + (seq![s@] + v) by {
                assert(chars_view(vars@) + v =~= chars_view(old_v) + (seq![s@] + v));
            }
            start = i + 1;
            in_var = false;
        }
        i = i + 1;
    }
    if in_var {
        return Err(slice(t, start, n));
    }
    let s = slice(t, start, n);
    let ghost old_l = lits@;
    lits.push(s);
    assert(chars_view(lits@) =~= chars_view(old_l) + seq![s@]);
    assert(chars_view(vars@) + seq![] =~= chars_view(vars@));
    let literals = strings_of(&lits);
    let variables = strings_of(&vars);
    Ok(Step { keyword, literals, variables })
}

impl Step {
    /// Decodes the trimmed `input` into literal and placeholder segments.
    pub fn new(keyword: StepKeyword, input: &str) -> (r: Result<Step, ParseError>)
        ensures
            match decode_step(trim(input@)) {
                Ok((l, v)) => r matches Ok(s) && s@ == (StepModel {
                    keyword,
                    literals: l,
                    variables: v,
                }),
                Err(e) => r matches Err(x) && x@ == (ErrorModel::UnterminatedVariable {
                    scenario: None,
                    step: input@,
                    expression: e,
                }),
            },
    {
        let v = chars_of(input);
        let t = trimmed(&v);
        match step_from_chars(keyword, &t) {
            Ok(s) => Ok(s),
            Err(e) => Err(
                ParseError::UnterminatedVariable {
                    scenario: None,
                    step: string_of(&v),
                    expression: string_of(&e),
                },
            ),
        }
    }
}

} // verus!
