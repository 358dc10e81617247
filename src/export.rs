use vstd::prelude::*;

use crate::feature::{
    BlockModel, ExampleBlock, Feature, FeatureItem, FeatureModel, ItemModel, OutlineModel,
    Scenario, ScenarioModel, ScenarioOutline,
};
use crate::infer::{arg_types, calculate_arg_types, cs_type_name, eq_ignore_case, eq_ignore_case_from, CSType};
use crate::keyword::StepKeyword;
use crate::step::{Step, StepModel};
use crate::laws::count_char;
use crate::text::{chars_of, slice, string_of};

verus! {

/// Whether `c` is alphabetic or numeric, as `char::is_alphanumeric` decides it.
pub uninterp spec fn alphanumeric(c: char) -> bool;

/// The upper case mapping of `c`, as `char::to_uppercase` gives it.
pub uninterp spec fn upper_of(c: char) -> Seq<char>;

/// Relies on `char::is_alphanumeric`: the answer depends on the character alone.
#[verifier::external_body]
fn is_alphanumeric(c: char) -> (r: bool)
    ensures
        r == alphanumeric(c),
{
    c.is_alphanumeric()
}

/// Relies on `char::to_uppercase`: the characters of its upper case mapping, which depend
/// on the character alone.
#[verifier::external_body]
fn to_uppercase(c: char) -> (r: Vec<char>)
    ensures
        r@ == upper_of(c),
{
    c.to_uppercase().collect()
}

/// `w` with its first character upper-cased.
pub open spec fn capitalize(w: Seq<char>) -> Seq<char> {
    if w.len() == 0 {
        w
    } else {
        upper_of(w[0]) + w.drop_first()
    }
}

/// The words of `s[start..]`, split at characters that are not alphanumeric, each
/// capitalized and joined, given that `s[start..i]` is one word so far.
pub open spec fn pascal_from(s: Seq<char>, start: nat, i: nat) -> Seq<char>
    decreases s.len() - i,
{
    if i >= s.len() {
        capitalize(s.subrange(start as int, s.len() as int))
    } else if !alphanumeric(s[i as int]) {
        capitalize(s.subrange(start as int, i as int)) + pascal_from(s, i + 1, i + 1)
    } else {
        pascal_from(s, start, i + 1)
    }
}

/// `s` in PascalCase: its alphanumeric words capitalized and joined.
pub open spec fn pascal_of(s: Seq<char>) -> Seq<char> {
    pascal_from(s, 0, 0)
}

/// The first position at or after `i` where `s` holds a character that is not
/// alphanumeric.
pub open spec fn find_separator(s: Seq<char>, i: nat) -> Option<nat>
    decreases s.len() - i,
{
    if i >= s.len() {
        None
    } else if !alphanumeric(s[i as int]) {
        Some(i)
    } else {
        find_separator(s, i + 1)
    }
}

/// `s` in camelCase: its first word as it stands, the others capitalized, all joined.
pub open spec fn camel_of(s: Seq<char>) -> Seq<char> {
    match find_separator(s, 0) {
        None => s,
        Some(k) => s.subrange(0, k as int) + pascal_from(s, k + 1, k + 1),
    }
}

fn capitalized(w: &Vec<char>) -> (r: Vec<char>)
    ensures
        r@ == capitalize(w@),
{
    if w.len() == 0 {
        return Vec::new();
    }
    let mut r = to_uppercase(w[0]);
    let mut rest = slice(w, 1, w.len());
    assert(rest@ =~= w@.drop_first());
    r.append(&mut rest);
    r
}

/// Appends the PascalCase form of `s[from..]` to `out`.
fn push_pascal(out: &mut Vec<char>, s: &Vec<char>, from: usize)
    requires
        from <= s@.len(),
    ensures
        final(out)@ == old(out)@ + pascal_from(s@, from as nat, from as nat),
{
    let ghost o = old(out)@;
    let mut start: usize = from;
    let mut i: usize = from;
    let n = s.len();
    while i < n
        invariant
            n == s@.len(),
            from <= start <= i <= n,
            o + pascal_from(s@, from as nat, from as nat) == out@ + pascal_from(
                s@,
                start as nat,
                i as nat,
            ),
        decreases n - i,
    {
        if !is_alphanumeric(s[i]) {
            let mut w = capitalized(&slice(s, start, i));
            let ghost before = out@;
            let ghost wv = w@;
            out.append(&mut w);
            assert(out@ + pascal_from(s@, (i + 1) as nat, (i + 1) as nat) =~= before + (wv
                + pascal_from(s@, (i + 1) as nat, (i + 1) as nat)));
            start = i + 1;
        }
        i = i + 1;
    }
    let mut w = capitalized(&slice(s, start, n));
    out.append(&mut w);
}

/// Appends the characters of `s` to `out`.
pub fn push_str(out: &mut Vec<char>, s: &str)
    ensures
        final(out)@ == old(out)@ + s@,
{
    let mut v = chars_of(s);
    out.append(&mut v);
}

/// `input` in PascalCase: split at characters that are not alphanumeric, each word's first
/// character upper-cased, the words joined.
pub fn pascal(input: &str) -> (r: String)
    ensures
        r@ == pascal_of(input@),
{
    let s = chars_of(input);
    let mut out: Vec<char> = Vec::new();
    push_pascal(&mut out, &s, 0);
    assert(out@ =~= pascal_of(input@));
    string_of(&out)
}

fn push_camel(out: &mut Vec<char>, s: &Vec<char>)
    ensures
        final(out)@ == old(out)@ + camel_of(s@),
{
    let n = s.len();
    let mut k: usize = 0;
    while k < n && is_alphanumeric(s[k])
        invariant
            n == s@.len(),
            k <= n,
            find_separator(s@, 0) == find_separator(s@, k as nat),
        decreases n - k,
    {
        k = k + 1;
    }
    if k == n {
        let mut all = slice(s, 0, n);
        assert(all@ =~= s@);
        out.append(&mut all);
    } else {
        let mut first = slice(s, 0, k);
        let ghost o = out@;
        out.append(&mut first);
        push_pascal(out, s, k + 1);
        assert(out@ =~= o + camel_of(s@));
    }
}

/// `input` in camelCase: its first word as it stands, each later word with its first
/// character upper-cased, all joined.
pub fn camel(input: &str) -> (r: String)
    ensures
        r@ == camel_of(input@),
{
    let s = chars_of(input);
    let mut out: Vec<char> = Vec::new();
    push_camel(&mut out, &s);
    assert(out@ =~= camel_of(input@));
    string_of(&out)
}


/// The NUnit test framework for C#.
#[derive(Debug, Clone, Copy)]
pub struct NUnit;

/// `s` without one leading backslash, or else without one leading slash.
pub open spec fn strip_one_slash(s: Seq<char>) -> Seq<char> {
    if s.len() > 0 && (s[0] == '\\' || s[0] == '/') {
        s.drop_first()
    } else {
        s
    }
}

/// `s` with each `"` doubled.
pub open spec fn double_quotes(s: Seq<char>) -> Seq<char>
    decreases s.len(),
{
    if s.len() == 0 {
        s
    } else {
        (if s[0] == '"' {
            seq!['"', '"']
        } else {
            seq![s[0]]
        }) + double_quotes(s.drop_first())
    }
}

/// A C# verbatim literal for `s`: one leading `\` or `/` dropped, then `@` and, where
/// `add_quotes` asks for them, quotes around the text with its own quotes doubled.
pub open spec fn escaped_literal(s: Seq<char>, add_quotes: bool) -> Seq<char> {
    let t = strip_one_slash(s);
    if add_quotes {
        seq!['@', '"'] + double_quotes(t) + seq!['"']
    } else {
        seq!['@'] + t
    }
}

/// `a` starts and ends with `"` and holds no other `"`.
pub open spec fn already_quoted(a: Seq<char>) -> bool {
    a.len() > 0 && a[0] == '"' && a.last() == '"' && count_char(a, '"') == 2
}

/// The C# text of an argument `a` of type `t`.
pub open spec fn arg_text(a: Seq<char>, t: CSType) -> Seq<char> {
    match t {
        CSType::Bool => if eq_ignore_case(a, "true"@) {
            "true"@
        } else {
            "false"@
        },
        CSType::Int64 => a,
        CSType::Double => a,
        CSType::String => escaped_literal(a, !already_quoted(a)),
    }
}

/// `parts` joined with `sep` between each two.
pub open spec fn join_with(parts: Seq<Seq<char>>, sep: Seq<char>) -> Seq<char>
    decreases parts.len(),
{
    if parts.len() == 0 {
        seq![]
    } else if parts.len() == 1 {
        parts[0]
    } else {
        join_with(parts.drop_last(), sep) + sep + parts.last()
    }
}

/// The C# texts of the arguments `args` with types `types`, as far as both reach.
pub open spec fn arg_texts(types: Seq<CSType>, args: Seq<Seq<char>>) -> Seq<Seq<char>> {
    let n = if types.len() < args.len() {
        types.len()
    } else {
        args.len()
    };
    Seq::new(n, |i: int| arg_text(args[i], types[i]))
}

/// The NUnit `[TestCase(...)]` line for one example row.
pub open spec fn test_case_text(types: Seq<CSType>, args: Seq<Seq<char>>, category: Seq<char>) -> Seq<char> {
    "    [TestCase("@ + join_with(arg_texts(types, args), ", "@) + (if category.len() > 0 {
        ", Category=\""@ + category + "\""@
    } else {
        seq![]
    }) + ")]\n"@
}

fn count_quotes(a: &Vec<char>) -> (r: usize)
    ensures
        r == count_char(a@, '"'),
{
    let n = a.len();
    let mut i: usize = n;
    let mut c: usize = 0;
    assert(a@.subrange(n as int, n as int) =~= Seq::<char>::empty());
    while i > 0
        invariant
            n == a@.len(),
            i <= n,
            c == count_char(a@.subrange(i as int, n as int), '"'),
            c <= n - i,
        decreases i,
    {
        i = i - 1;
        assert(a@.subrange(i as int, n as int).drop_first() =~= a@.subrange(i + 1 as int, n as int));
        if a[i] == '"' {
            c = c + 1;
        }
    }
    assert(a@.subrange(0, n as int) =~= a@);
    c
}

fn push_doubled(out: &mut Vec<char>, s: &Vec<char>, from: usize)
    requires
        from <= s@.len(),
    ensures
        final(out)@ == old(out)@ + double_quotes(s@.subrange(from as int, s@.len() as int)),
{
    let ghost o = old(out)@;
    let n = s.len();
    let mut i: usize = from;
    while i < n
        invariant
            n == s@.len(),
            from <= i <= n,
            o + double_quotes(s@.subrange(from as int, n as int)) == out@ + double_quotes(
                s@.subrange(i as int, n as int),
            ),
        decreases n - i,
    {
        let ghost rest = s@.subrange(i as int, n as int);
        assert(rest.drop_first() =~= s@.subrange(i + 1 as int, n as int));
        let ghost before = out@;
        if s[i] == '"' {
            out.push('"');
            out.push('"');
            assert(out@ + double_quotes(rest.drop_first()) =~= before + double_quotes(rest));
        } else {
            out.push(s[i]);
            assert(out@ + double_quotes(rest.drop_first()) =~= before + double_quotes(rest));
        }
        i = i + 1;
    }
    assert(s@.subrange(n as int, n as int) =~= Seq::<char>::empty());
    assert(out@ + double_quotes(Seq::<char>::empty()) =~= out@);
}

fn push_escaped(out: &mut Vec<char>, s: &Vec<char>, add_quotes: bool)
    ensures
        final(out)@ == old(out)@ + escaped_literal(s@, add_quotes),
{
    let ghost o = old(out)@;
    let from: usize = if s.len() > 0 && (s[0] == '\\' || s[0] == '/') {
        1
    } else {
        0
    };
    assert(s@.subrange(from as int, s@.len() as int) =~= strip_one_slash(s@));
    if add_quotes {
        out.push('@');
        out.push('"');
        push_doubled(out, s, from);
        out.push('"');
        assert(out@ =~= o + escaped_literal(s@, add_quotes));
    } else {
        out.push('@');
        let mut t = slice(s, from, s.len());
        out.append(&mut t);
        assert(out@ =~= o + escaped_literal(s@, add_quotes));
    }
}

fn push_arg(out: &mut Vec<char>, a: &Vec<char>, t: CSType)
    ensures
        final(out)@ == old(out)@ + arg_text(a@, t),
{
    match t {
        CSType::Bool => {
            assert(a@.subrange(0, a@.len() as int) =~= a@);
            if eq_ignore_case_from(a, 0, "true") {
                push_str(out, "true");
            } else {
                push_str(out, "false");
            }
        },
        CSType::Int64 => {
            let mut v = slice(a, 0, a.len());
            assert(v@ =~= a@);
            out.append(&mut v);
        },
        CSType::Double => {
            let mut v = slice(a, 0, a.len());
            assert(v@ =~= a@);
            out.append(&mut v);
        },
        CSType::String => {
            let n = a.len();
            let quoted = n > 0 && a[0] == '"' && a[n - 1] == '"' && count_quotes(a) == 2;
            push_escaped(out, a, !quoted);
        },
    }
}

impl NUnit {
    /// A C# verbatim literal for `literal`: at most one leading `\` (else `/`) dropped,
    /// then `@`, and where `add_quotes` asks, quotes around it with inner quotes doubled.
    pub fn escape_literal(&self, literal: &str, add_quotes: bool) -> (r: String)
        ensures
            r@ == escaped_literal(literal@, add_quotes),
    {
        let s = chars_of(literal);
        let mut out: Vec<char> = Vec::new();
        push_escaped(&mut out, &s, add_quotes);
        assert(out@ =~= escaped_literal(literal@, add_quotes));
        string_of(&out)
    }

    /// The C# text of argument `arg` of type `cs_type`.
    pub fn interpret_arg(&self, arg: &str, cs_type: CSType) -> (r: String)
        ensures
            r@ == arg_text(arg@, cs_type),
    {
        let s = chars_of(arg);
        let mut out: Vec<char> = Vec::new();
        push_arg(&mut out, &s, cs_type);
        assert(out@ =~= arg_text(arg@, cs_type));
        string_of(&out)
    }

    /// The `[TestCase(...)]` line for one example row, with its category where one is given.
    pub fn write_test_case(&self, arg_types: &[CSType], arg_strings: &Vec<String>, category: &str) -> (r: String)
        ensures
            r@ == test_case_text(arg_types@, arg_strings@.map_values(|s: String| s@), category@),
    {
        let mut out: Vec<char> = Vec::new();
        push_test_case(&mut out, arg_types, arg_strings, category);
        assert(out@ =~= test_case_text(arg_types@, arg_strings@.map_values(|s: String| s@), category@));
        string_of(&out)
    }
}

fn push_test_case(out: &mut Vec<char>, arg_types: &[CSType], arg_strings: &Vec<String>, category: &str)
    ensures
        final(out)@ == old(out)@ + test_case_text(arg_types@, arg_strings@.map_values(|s: String| s@), category@),
{
    let ghost o = old(out)@;
    let ghost args = arg_strings@.map_values(|s: String| s@);
    let ghost texts = arg_texts(arg_types@, args);
    push_str(out, "    [TestCase(");
    let ghost head = out@;
    let n = if arg_types.len() < arg_strings.len() {
        arg_types.len()
    } else {
        arg_strings.len()
    };
    let mut i: usize = 0;
    assert(texts.subrange(0, 0) =~= Seq::<Seq<char>>::empty());
    while i < n
        invariant
            n == texts.len(),
            n <= arg_types@.len(),
            n <= arg_strings@.len(),
            args == arg_strings@.map_values(|s: String| s@),
            texts == arg_texts(arg_types@, args),
            i <= n,
            out@ == head + join_with(texts.subrange(0, i as int), ", "@),
        decreases n - i,
    {
        if i > 0 {
            push_str(out, ", ");
        }
        let a = chars_of(arg_strings[i].as_str());
        push_arg(out, &a, arg_types[i]);
        assert(texts.subrange(0, i + 1 as int).drop_last() =~= texts.subrange(0, i as int));
        assert(texts[i as int] == arg_text(args[i as int], arg_types@[i as int]));
        i = i + 1;
        assert(out@ =~= head + join_with(texts.subrange(0, i as int), ", "@));
    }
    assert(texts.subrange(0, n as int) =~= texts);
    let ghost mid = out@;
    let cat = chars_of(category);
    if cat.len() > 0 {
        push_str(out, ", Category=\"");
        push_str(out, category);
        push_str(out, "\"");
    }
    push_str(out, ")]\n");
    assert(out@ =~= o + test_case_text(arg_types@, args, category@));
}


/// Rendering of a document node into the source text of test framework `T`.
pub trait Export<T> {
    spec fn rendered(&self, export_format: T) -> Seq<char>;

    fn export(&self, export_format: T) -> (r: String)
        ensures
            r@ == self.rendered(export_format),
    ;
}

/// A target language of the generated tests.
pub trait Language {
    type ArgTypes;
}

/// A test framework of some target language.
pub trait TestFramework {
    type Lang: Language;
}

proof fn lemma_join_step(parts: Seq<Seq<char>>, sep: Seq<char>, k: int)
    requires
        0 <= k < parts.len(),
    ensures
        join_with(parts.subrange(0, k + 1), sep) == if k == 0 {
            parts[0]
        } else {
            join_with(parts.subrange(0, k), sep) + sep + parts[k]
        },
{
    let p = parts.subrange(0, k + 1);
    assert(p.drop_last() =~= parts.subrange(0, k));
    assert(p.last() == parts[k]);
}

/// The name of a step keyword as the generated comments spell it.
pub open spec fn keyword_name(k: StepKeyword) -> Seq<char> {
    match k {
        StepKeyword::Given => "Given"@,
        StepKeyword::When => "When"@,
        StepKeyword::Then => "Then"@,
        StepKeyword::And => "And"@,
        StepKeyword::But => "But"@,
        StepKeyword::Bullet => "Bullet"@,
    }
}

fn keyword_str(k: StepKeyword) -> (r: &'static str)
    ensures
        r@ == keyword_name(k),
{
    match k {
        StepKeyword::Given => "Given",
        StepKeyword::When => "When",
        StepKeyword::Then => "Then",
        StepKeyword::And => "And",
        StepKeyword::But => "But",
        StepKeyword::Bullet => "Bullet",
    }
}

/// The NUnit test method of a plain scenario.
pub open spec fn scenario_text(s: ScenarioModel) -> Seq<char> {
    "    [Test]\n"@ + "    public void "@ + pascal_of(s.name) + "()\n"@ + "    {\n"@ + "\n"@
        + "    }\n"@
}

/// The literals of a step in PascalCase, joined with `___`.
pub open spec fn step_title(lits: Seq<Seq<char>>) -> Seq<char> {
    if lits.len() == 0 {
        "[Emtpy step text?]"@
    } else {
        join_with(lits.map_values(|l: Seq<char>| pascal_of(l)), "___"@)
    }
}

/// The comment line that stands for one step in a test method.
pub open spec fn step_line(st: StepModel) -> Seq<char> {
    "        // "@ + keyword_name(st.keyword) + "("@ + step_title(st.literals) + "("@ + join_with(
        st.variables.map_values(|v: Seq<char>| camel_of(v)),
        ", "@,
    ) + "));\n"@
}

/// The declaration of parameter `i` of an outline's test method.
pub open spec fn param_text(labels: Seq<Seq<char>>, types: Seq<CSType>, i: int) -> Seq<char> {
    cs_type_name(
        if i < types.len() {
            types[i]
        } else {
            CSType::String
        },
    ) + " "@ + camel_of(labels[i])
}

/// The parameter list of an outline's test method.
pub open spec fn params_text(labels: Seq<Seq<char>>, types: Seq<CSType>) -> Seq<char> {
    join_with(Seq::new(labels.len(), |i: int| param_text(labels, types, i)), ", "@)
}

/// The test case lines of one example block, its tags joined with `,` as category.
pub open spec fn block_cases(b: BlockModel, types: Seq<CSType>) -> Seq<char> {
    join_with(
        b.examples.map_values(|r: Seq<Seq<char>>| test_case_text(types, r, join_with(b.tags, ","@))),
        seq![],
    )
}

/// The NUnit test method of a scenario outline, with one test case per example row.
pub open spec fn outline_text(o: OutlineModel) -> Seq<char> {
    let types = arg_types(o.example_blocks);
    let labels = if o.example_blocks.len() > 0 {
        o.example_blocks[0].labels
    } else {
        seq![]
    };
    join_with(o.example_blocks.map_values(|b: BlockModel| block_cases(b, types)), seq![])
        + "    public void "@ + pascal_of(o.name) + "("@ + params_text(labels, types) + ")\n"@
        + "    {\n"@ + join_with(o.steps.map_values(|st: StepModel| step_line(st)), seq![])
        + "\n"@ + "    }\n"@
}

/// The NUnit text of a feature item.
pub open spec fn item_text(i: ItemModel) -> Seq<char> {
    match i {
        ItemModel::Bare(s) => scenario_text(s),
        ItemModel::Outline(o) => outline_text(o),
    }
}

/// The NUnit test fixture of a feature.
pub open spec fn feature_text(f: FeatureModel) -> Seq<char> {
    "[TestFixture]\n"@ + "public class "@ + pascal_of(f.name) + "\n"@ + "{\n"@ + join_with(
        f.items.map_values(|i: ItemModel| item_text(i)),
        seq![],
    ) + "\n}"@
}

fn push_scenario(out: &mut Vec<char>, s: &Scenario)
    ensures
        final(out)@ == old(out)@ + scenario_text(s@),
{
    let ghost o = old(out)@;
    push_str(out, "    [Test]\n");
    push_str(out, "    public void ");
    let name = chars_of(s.name.as_str());
    push_pascal(out, &name, 0);
    push_str(out, "()\n");
    push_str(out, "    {\n");
    push_str(out, "\n");
    push_str(out, "    }\n");
    assert(out@ =~= o + scenario_text(s@));
}

fn push_step(out: &mut Vec<char>, st: &Step)
    ensures
        final(out)@ == old(out)@ + step_line(st@),
{
    let ghost o = old(out)@;
    let ghost lits = st@.literals;
    let ghost vars = st@.variables;
    push_str(out, "        // ");
    push_str(out, keyword_str(st.keyword));
    push_str(out, "(");
    let ghost head = out@;
    if st.literals.len() == 0 {
        push_str(out, "[Emtpy step text?]");
    } else {
        let ghost parts = lits.map_values(|l: Seq<char>| pascal_of(l));
        let mut k: usize = 0;
        assert(parts.subrange(0, 0) =~= Seq::<Seq<char>>::empty());
        while k < st.literals.len()
            invariant
                lits == st@.literals,
                parts == lits.map_values(|l: Seq<char>| pascal_of(l)),
                k <= st.literals@.len(),
                out@ == head + join_with(parts.subrange(0, k as int), "___"@),
            decreases st.literals@.len() - k,
        {
            if k > 0 {
                push_str(out, "___");
            }
            let l = chars_of(st.literals[k].as_str());
            push_pascal(out, &l, 0);
            proof {
                lemma_join_step(parts, "___"@, k as int);
            }
            k = k + 1;
            assert(out@ =~= head + join_with(parts.subrange(0, k as int), "___"@));
        }
        assert(parts.subrange(0, k as int) =~= parts);
    }
    push_str(out, "(");
    let ghost head2 = out@;
    let ghost vparts = vars.map_values(|v: Seq<char>| camel_of(v));
    let mut k: usize = 0;
    assert(vparts.subrange(0, 0) =~= Seq::<Seq<char>>::empty());
    while k < st.variables.len()
        invariant
            vars == st@.variables,
            vparts == vars.map_values(|v: Seq<char>| camel_of(v)),
            k <= st.variables@.len(),
            out@ == head2 + join_with(vparts.subrange(0, k as int), ", "@),
        decreases st.variables@.len() - k,
    {
        if k > 0 {
            push_str(out, ", ");
        }
        let v = chars_of(st.variables[k].as_str());
        push_camel(out, &v);
        proof {
            lemma_join_step(vparts, ", "@, k as int);
        }
        k = k + 1;
        assert(out@ =~= head2 + join_with(vparts.subrange(0, k as int), ", "@));
    }
    assert(vparts.subrange(0, k as int) =~= vparts);
    push_str(out, "));\n");
    assert(out@ =~= o + step_line(st@));
}

fn join_tags(tags: &Vec<String>) -> (r: String)
    ensures
        r@ == join_with(tags@.map_values(|s: String| s@), ","@),
{
    let ghost parts = tags@.map_values(|s: String| s@);
    let mut out: Vec<char> = Vec::new();
    let mut k: usize = 0;
    assert(parts.subrange(0, 0) =~= Seq::<Seq<char>>::empty());
    while k < tags.len()
        invariant
            parts == tags@.map_values(|s: String| s@),
            k <= tags@.len(),
            out@ == join_with(parts.subrange(0, k as int), ","@),
        decreases tags@.len() - k,
    {
        let ghost before = out@;
        if k > 0 {
            push_str(&mut out, ",");
        }
        push_str(&mut out, tags[k].as_str());
        proof {
            lemma_join_step(parts, ","@, k as int);
        }
        k = k + 1;
        assert(out@ =~= join_with(parts.subrange(0, k as int), ","@));
    }
    assert(parts.subrange(0, k as int) =~= parts);
    string_of(&out)
}

fn push_block_cases(out: &mut Vec<char>, nunit: NUnit, b: &ExampleBlock, types: &Vec<CSType>)
    ensures
        final(out)@ == old(out)@ + block_cases(b@, types@),
{
    let ghost o = old(out)@;
    let category = join_tags(&b.tags);
    let ghost bv = b@;
    let ghost parts = bv.examples.map_values(
        |r: Seq<Seq<char>>| test_case_text(types@, r, join_with(bv.tags, ","@)),
    );
    let mut k: usize = 0;
    assert(parts.subrange(0, 0) =~= Seq::<Seq<char>>::empty());
    while k < b.examples.len()
        invariant
            bv == b@,
            category@ == join_with(bv.tags, ","@),
            parts == bv.examples.map_values(
                |r: Seq<Seq<char>>| test_case_text(types@, r, join_with(bv.tags, ","@)),
            ),
            k <= b.examples@.len(),
            out@ == o + join_with(parts.subrange(0, k as int), seq![]),
        decreases b.examples@.len() - k,
    {
        push_test_case(out, types.as_slice(), &b.examples[k].entries, category.as_str());
        proof {
            lemma_join_step(parts, seq![], k as int);
        }
        k = k + 1;
        assert(out@ =~= o + join_with(parts.subrange(0, k as int), seq![]));
    }
    assert(parts.subrange(0, k as int) =~= parts);
}

fn push_outline(out: &mut Vec<char>, o: &ScenarioOutline)
    ensures
        final(out)@ == old(out)@ + outline_text(o@),
{
    let ghost start = old(out)@;
    let ghost ov = o@;
    let blocks = o.example_blocks.as_slice();
    let types = calculate_arg_types(blocks);
    assert(blocks@.map_values(|b: ExampleBlock| b@) =~= ov.example_blocks);
    let ghost bparts = ov.example_blocks.map_values(|b: BlockModel| block_cases(b, types@));
    let mut j: usize = 0;
    assert(bparts.subrange(0, 0) =~= Seq::<Seq<char>>::empty());
    while j < o.example_blocks.len()
        invariant
            ov == o@,
            types@ == arg_types(ov.example_blocks),
            bparts == ov.example_blocks.map_values(|b: BlockModel| block_cases(b, types@)),
            j <= o.example_blocks@.len(),
            out@ == start + join_with(bparts.subrange(0, j as int), seq![]),
        decreases o.example_blocks@.len() - j,
    {
        push_block_cases(out, NUnit, &o.example_blocks[j], &types);
        proof {
            lemma_join_step(bparts, seq![], j as int);
        }
        j = j + 1;
        assert(out@ =~= start + join_with(bparts.subrange(0, j as int), seq![]));
    }
    assert(bparts.subrange(0, j as int) =~= bparts);
    push_str(out, "    public void ");
    let name = chars_of(o.name.as_str());
    push_pascal(out, &name, 0);
    push_str(out, "(");
    let ghost head = out@;
    let ghost labels = if ov.example_blocks.len() > 0 {
        ov.example_blocks[0].labels
    } else {
        seq![]
    };
    let ghost pparts = Seq::new(labels.len(), |i: int| param_text(labels, types@, i));
    if o.example_blocks.len() > 0 {
        let entries = &o.example_blocks[0].labels.entries;
        let mut i: usize = 0;
        assert(pparts.subrange(0, 0) =~= Seq::<Seq<char>>::empty());
        while i < entries.len()
            invariant
                labels == entries@.map_values(|s: String| s@),
                pparts == Seq::new(labels.len(), |i: int| param_text(labels, types@, i)),
                i <= entries@.len(),
                out@ == head + join_with(pparts.subrange(0, i as int), ", "@),
            decreases entries@.len() - i,
        {
            if i > 0 {
                push_str(out, ", ");
            }
            let t = if i < types.len() {
                types[i]
            } else {
                CSType::String
            };
            push_str(out, t.to_str());
            push_str(out, " ");
            let l = chars_of(entries[i].as_str());
            push_camel(out, &l);
            proof {
                lemma_join_step(pparts, ", "@, i as int);
            }
            i = i + 1;
            assert(out@ =~= head + join_with(pparts.subrange(0, i as int), ", "@));
        }
        assert(pparts.subrange(0, i as int) =~= pparts);
    } else {
        assert(pparts =~= Seq::<Seq<char>>::empty());
    }
    push_str(out, ")\n");
    push_str(out, "    {\n");
    let ghost head3 = out@;
    let ghost sparts = ov.steps.map_values(|st: StepModel| step_line(st));
    let mut k: usize = 0;
    assert(sparts.subrange(0, 0) =~= Seq::<Seq<char>>::empty());
    while k < o.steps.len()
        invariant
            ov == o@,
            sparts == ov.steps.map_values(|st: StepModel| step_line(st)),
            k <= o.steps@.len(),
            out@ == head3 + join_with(sparts.subrange(0, k as int), seq![]),
        decreases o.steps@.len() - k,
    {
        push_step(out, &o.steps[k]);
        proof {
            lemma_join_step(sparts, seq![], k as int);
        }
        k = k + 1;
        assert(out@ =~= head3 + join_with(sparts.subrange(0, k as int), seq![]));
    }
    assert(sparts.subrange(0, k as int) =~= sparts);
    push_str(out, "\n");
    push_str(out, "    }\n");
    assert(out@ =~= start + outline_text(o@));
}

fn push_item(out: &mut Vec<char>, item: &FeatureItem)
    ensures
        final(out)@ == old(out)@ + item_text(item@),
{
    match item {
        FeatureItem::Bare(s) => push_scenario(out, s),
        FeatureItem::Outline(o) => push_outline(out, o),
    }
}

impl Export<NUnit> for Scenario {
    open spec fn rendered(&self, export_format: NUnit) -> Seq<char> {
        scenario_text(self@)
    }

    fn export(&self, export_format: NUnit) -> (r: String) {
        let mut out: Vec<char> = Vec::new();
        push_scenario(&mut out, self);
        assert(out@ =~= scenario_text(self@));
        string_of(&out)
    }
}

impl Export<NUnit> for ScenarioOutline {
    open spec fn rendered(&self, export_format: NUnit) -> Seq<char> {
        outline_text(self@)
    }

    fn export(&self, export_format: NUnit) -> (r: String) {
        let mut out: Vec<char> = Vec::new();
        push_outline(&mut out, self);
        assert(out@ =~= outline_text(self@));
        string_of(&out)
    }
}

impl Export<NUnit> for FeatureItem {
    open spec fn rendered(&self, export_format: NUnit) -> Seq<char> {
        item_text(self@)
    }

    fn export(&self, export_format: NUnit) -> (r: String) {
        let mut out: Vec<char> = Vec::new();
        push_item(&mut out, self);
        assert(out@ =~= item_text(self@));
        string_of(&out)
    }
}

impl Export<NUnit> for Feature {
    open spec fn rendered(&self, export_format: NUnit) -> Seq<char> {
        feature_text(self@)
    }

    fn export(&self, export_format: NUnit) -> (r: String) {
        let ghost fv = self@;
        let mut out: Vec<char> = Vec::new();
        push_str(&mut out, "[TestFixture]\n");
        push_str(&mut out, "public class ");
        let name = chars_of(self.name.as_str());
        push_pascal(&mut out, &name, 0);
        push_str(&mut out, "\n");
        push_str(&mut out, "{\n");
        let ghost head = out@;
        let ghost parts = fv.items.map_values(|i: ItemModel| item_text(i));
        let mut k: usize = 0;
        assert(parts.subrange(0, 0) =~= Seq::<Seq<char>>::empty());
        while k < self.items.len()
            invariant
                fv == self@,
                parts == fv.items.map_values(|i: ItemModel| item_text(i)),
                k <= self.items@.len(),
                out@ == head + join_with(parts.subrange(0, k as int), seq![]),
            decreases self.items@.len() - k,
        {
            push_item(&mut out, &self.items[k]);
            proof {
                lemma_join_step(parts, seq![], k as int);
            }
            k = k + 1;
            assert(out@ =~= head + join_with(parts.subrange(0, k as int), seq![]));
        }
        assert(parts.subrange(0, k as int) =~= parts);
        push_str(&mut out, "\n}");
        assert(out@ =~= feature_text(self@));
        string_of(&out)
    }
}

} // verus!
