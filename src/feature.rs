use vstd::prelude::*;

use crate::error::{opt_view, ErrorModel, ParseError};
use crate::keyword::GroupingKeyword;
use crate::line::{chars_view, classify, source_lines, split_source_lines, GherkinLine, LineKind};
use crate::row::{decode_row, decode_row_chars, ExampleRow};
use crate::step::{decode_step, step_from_chars, Step, StepModel};
use crate::text::{chars_of, string_of, strings_of, strings_view};

verus! {

/// A scenario, or a feature's background.
pub struct ScenarioModel {
    pub name: Seq<char>,
    pub steps: Seq<StepModel>,
    pub tags: Seq<Seq<char>>,
}

/// A labelled table of examples.
pub struct BlockModel {
    pub examples: Seq<Seq<Seq<char>>>,
    pub labels: Seq<Seq<char>>,
    pub tags: Seq<Seq<char>>,
}

/// A scenario outline.
pub struct OutlineModel {
    pub name: Seq<char>,
    pub steps: Seq<StepModel>,
    pub example_blocks: Seq<BlockModel>,
    pub tags: Seq<Seq<char>>,
}

/// An item of a feature.
pub enum ItemModel {
    Bare(ScenarioModel),
    Outline(OutlineModel),
}

/// A whole feature.
pub struct FeatureModel {
    pub name: Seq<char>,
    pub free_text: Seq<Seq<char>>,
    pub items: Seq<ItemModel>,
    pub background: Option<ScenarioModel>,
    pub tags: Seq<Seq<char>>,
}

/// The last tag of `tags`, if any.
pub open spec fn last_of(tags: Seq<Seq<char>>) -> Option<Seq<char>> {
    if tags.len() > 0 {
        Some(tags.last())
    } else {
        None
    }
}

/// The steps from line `p` on, up to the first line that is no step, whose position
/// comes back with them.
pub open spec fn steps_from(ls: Seq<Seq<char>>, p: nat, scenario: Seq<char>) -> Result<
    (Seq<StepModel>, nat),
    ErrorModel,
>
    decreases ls.len() - p,
{
    if p < ls.len() {
        if let LineKind::StepLine(kw, text) = classify(ls[p as int]) {
            match decode_step(text) {
                Err(e) => Err(
                    ErrorModel::UnterminatedVariable {
                        scenario: Some(scenario),
                        step: text,
                        expression: e,
                    },
                ),
                Ok((l, v)) => match steps_from(ls, p + 1, scenario) {
                    Ok((rest, end)) => Ok(
                        (seq![StepModel { keyword: kw, literals: l, variables: v }] + rest, end),
                    ),
                    Err(e) => Err(e),
                },
            }
        } else {
            Ok((seq![], p))
        }
    } else {
        Ok((seq![], p))
    }
}

/// The example rows from line `p` on, each checked against the label count, up to the
/// first group header or tag line, or the end.
pub open spec fn rows_from(
    ls: Seq<Seq<char>>,
    p: nat,
    labels: Seq<Seq<char>>,
    outline: Seq<char>,
) -> Result<(Seq<Seq<Seq<char>>>, nat), ErrorModel>
    decreases ls.len() - p,
{
    if p >= ls.len() {
        Ok((seq![], p))
    } else {
        match classify(ls[p as int]) {
            LineKind::BeginGroup(_, _) => Ok((seq![], p)),
            LineKind::Tags(_) => Ok((seq![], p)),
            LineKind::ExampleEntry(row) => match decode_row(row) {
                None => Err(ErrorModel::MalformedRow { row }),
                Some(cells) => if cells.len() != labels.len() {
                    Err(
                        ErrorModel::ColumnCountMismatch {
                            outline,
                            expected: labels.len(),
                            found: cells.len(),
                            labels,
                            row: cells,
                        },
                    )
                } else {
                    match rows_from(ls, p + 1, labels, outline) {
                        Ok((rs, t)) => Ok((seq![cells] + rs, t)),
                        Err(e) => Err(e),
                    }
                },
            },
            _ => Err(ErrorModel::UnexpectedTableLine { outline, line: ls[p as int] }),
        }
    }
}

/// The example block whose header has title `title` and whose label row is line `p`.
pub open spec fn block_at(ls: Seq<Seq<char>>, p: nat, title: Seq<char>, outline: Seq<char>) -> Result<
    (BlockModel, nat),
    ErrorModel,
> {
    if title.len() > 0 {
        Err(ErrorModel::TitledExamples { outline, title })
    } else if p >= ls.len() {
        Err(ErrorModel::MissingLabels { outline })
    } else if let LineKind::ExampleEntry(row) = classify(ls[p as int]) {
        match decode_row(row) {
            None => Err(ErrorModel::MalformedRow { row }),
            Some(labels) => match rows_from(ls, p + 1, labels, outline) {
                Ok((rs, t)) => Ok((BlockModel { examples: rs, labels, tags: seq![] }, t)),
                Err(e) => Err(e),
            },
        }
    } else {
        Err(ErrorModel::LabelsExpected { outline, line: ls[p as int] })
    }
}

/// The example blocks from line `p` on, with the tags before each, while tags and
/// `Examples:` headers follow; returns where they stop and the tags read but not used.
pub open spec fn blocks_from(
    ls: Seq<Seq<char>>,
    p: nat,
    outline: Seq<char>,
    pending: Seq<Seq<char>>,
) -> Result<(Seq<BlockModel>, nat, Seq<Seq<char>>), ErrorModel>
    decreases ls.len() - p,
{
    if p >= ls.len() {
        Ok((seq![], p, pending))
    } else {
        match classify(ls[p as int]) {
            LineKind::Tags(ts) => if p + 1 < ls.len() {
                blocks_from(ls, p + 1, outline, pending + ts)
            } else {
                Err(ErrorModel::EofAfterTag { context: outline, tag: last_of(pending + ts) })
            },
            LineKind::BeginGroup(GroupingKeyword::Examples, title) => match block_at(
                ls,
                p + 1,
                title,
                outline,
            ) {
                Err(e) => Err(e),
                Ok((b, t)) => {
                    let b2 = BlockModel { examples: b.examples, labels: b.labels, tags: pending };
                    if t <= p || t > ls.len() {
                        Ok((seq![b2], t, seq![]))
                    } else {
                        match blocks_from(ls, t, outline, seq![]) {
                            Ok((bs, e, left)) => Ok((seq![b2] + bs, e, left)),
                            Err(e) => Err(e),
                        }
                    }
                },
            },
            _ => Ok((seq![], p, pending)),
        }
    }
}

/// The scenario outline named `name` whose first step would be line `p`; returns where it
/// stops and the tags read after it but not used.
pub open spec fn outline_at(ls: Seq<Seq<char>>, p: nat, name: Seq<char>) -> Result<
    (OutlineModel, nat, Seq<Seq<char>>),
    ErrorModel,
> {
    match steps_from(ls, p, name) {
        Err(e) => Err(e),
        Ok((steps, q)) => if q >= ls.len() {
            Err(ErrorModel::UnexpectedOutlineLine { outline: name, line: None })
        } else {
            match classify(ls[q as int]) {
                LineKind::Tags(_) => match blocks_from(ls, q, name, seq![]) {
                    Ok((bs, t, left)) => Ok(
                        (OutlineModel { name, steps, example_blocks: bs, tags: seq![] }, t, left),
                    ),
                    Err(e) => Err(e),
                },
                LineKind::BeginGroup(_, _) => match blocks_from(ls, q, name, seq![]) {
                    Ok((bs, t, left)) => Ok(
                        (OutlineModel { name, steps, example_blocks: bs, tags: seq![] }, t, left),
                    ),
                    Err(e) => Err(e),
                },
                _ => Err(
                    ErrorModel::UnexpectedOutlineLine { outline: name, line: Some(ls[q as int]) },
                ),
            }
        },
    }
}

pub open spec fn prepend_item(
    x: ItemModel,
    r: Result<(Seq<ItemModel>, Option<ScenarioModel>), ErrorModel>,
) -> Result<(Seq<ItemModel>, Option<ScenarioModel>), ErrorModel> {
    match r {
        Ok((items, bg)) => Ok((seq![x] + items, bg)),
        Err(e) => Err(e),
    }
}

/// The items of feature `feature` from the group header at line `p` on; `pending` holds
/// the tags for that group and `bg` the background read so far.
pub open spec fn items_from(
    ls: Seq<Seq<char>>,
    p: nat,
    feature: Seq<char>,
    pending: Seq<Seq<char>>,
    bg: Option<ScenarioModel>,
) -> Result<(Seq<ItemModel>, Option<ScenarioModel>), ErrorModel>
    decreases ls.len() - p, 0nat,
{
    if p >= ls.len() {
        Ok((seq![], bg))
    } else if let LineKind::BeginGroup(kw, title) = classify(ls[p as int]) {
        match kw {
            GroupingKeyword::Scenario => match steps_from(ls, p + 1, title) {
                Err(e) => Err(e),
                Ok((steps, t)) => if p < t <= ls.len() {
                    prepend_item(
                        ItemModel::Bare(ScenarioModel { name: title, steps, tags: pending }),
                        after_item(ls, t, feature, seq![], bg),
                    )
                } else {
                    Ok((seq![], bg))
                },
            },
            GroupingKeyword::Background => match steps_from(ls, p + 1, title) {
                Err(e) => Err(e),
                Ok((steps, t)) => match bg {
                    Some(ex) => Err(
                        ErrorModel::DuplicateBackground {
                            feature,
                            background: title,
                            existing: ex.name,
                        },
                    ),
                    None => if p < t <= ls.len() {
                        after_item(
                            ls,
                            t,
                            feature,
                            seq![],
                            Some(ScenarioModel { name: title, steps, tags: pending }),
                        )
                    } else {
                        Ok((seq![], bg))
                    },
                },
            },
            GroupingKeyword::ScenarioOutline => match outline_at(ls, p + 1, title) {
                Err(e) => Err(e),
                Ok((o, t, left)) => if p < t <= ls.len() {
                    prepend_item(
                        ItemModel::Outline(
                            OutlineModel {
                                name: o.name,
                                steps: o.steps,
                                example_blocks: o.example_blocks,
                                tags: pending,
                            },
                        ),
                        after_item(ls, t, feature, left, bg),
                    )
                } else {
                    Ok((seq![], bg))
                },
            },
            _ => Err(ErrorModel::UnexpectedTopLevelGroup { feature, keyword: kw, title }),
        }
    } else {
        Ok((seq![], bg))
    }
}

/// The rest of feature `feature` after an item that stopped at line `t`: tag lines
/// gather into `pending`, which must be followed by a group header.
pub open spec fn after_item(
    ls: Seq<Seq<char>>,
    t: nat,
    feature: Seq<char>,
    pending: Seq<Seq<char>>,
    bg: Option<ScenarioModel>,
) -> Result<(Seq<ItemModel>, Option<ScenarioModel>), ErrorModel>
    decreases ls.len() - t, 1nat,
{
    if t >= ls.len() {
        Ok((seq![], bg))
    } else {
        match classify(ls[t as int]) {
            LineKind::Tags(ts) => if t + 1 < ls.len() {
                after_item(ls, t + 1, feature, pending + ts, bg)
            } else {
                Err(ErrorModel::EofAfterTag { context: feature, tag: last_of(pending + ts) })
            },
            LineKind::BeginGroup(_, _) => items_from(ls, t, feature, pending, bg),
            _ => Err(ErrorModel::UnexpectedItemLine { feature, line: ls[t as int] }),
        }
    }
}

/// The description of feature `feature` from line `p` on: its free text, its tags, and
/// the position of the first group header.
pub open spec fn description_from(ls: Seq<Seq<char>>, p: nat, feature: Seq<char>) -> Result<
    (Seq<Seq<char>>, Seq<Seq<char>>, nat),
    ErrorModel,
>
    decreases ls.len() - p,
{
    if p >= ls.len() {
        Err(ErrorModel::NoScenarios { feature })
    } else {
        match classify(ls[p as int]) {
            LineKind::FreeText(t) => match description_from(ls, p + 1, feature) {
                Ok((f, tg, q)) => Ok((seq![t] + f, tg, q)),
                Err(e) => Err(e),
            },
            LineKind::Tags(ts) => match description_from(ls, p + 1, feature) {
                Ok((f, tg, q)) => Ok((f, ts + tg, q)),
                Err(e) => Err(e),
            },
            LineKind::BeginGroup(_, _) => Ok((seq![], seq![], p)),
            _ => Err(ErrorModel::UnexpectedInDescription { feature, line: ls[p as int] }),
        }
    }
}

/// The feature named `name` whose body starts at line `p`.
pub open spec fn feature_body(ls: Seq<Seq<char>>, p: nat, name: Seq<char>) -> Result<
    FeatureModel,
    ErrorModel,
> {
    match description_from(ls, p, name) {
        Err(e) => Err(e),
        Ok((free, tags, q)) => match items_from(ls, q, name, seq![], None) {
            Err(e) => Err(e),
            Ok((items, bg)) => Ok(
                FeatureModel { name, free_text: free, items, background: bg, tags },
            ),
        },
    }
}

/// The feature from line `p` on, where `tags` were read before it.
pub open spec fn header_from(ls: Seq<Seq<char>>, p: nat, tags: Seq<Seq<char>>) -> Result<
    FeatureModel,
    ErrorModel,
>
    decreases ls.len() - p,
{
    if p >= ls.len() {
        Err(ErrorModel::EofInFeatureTags)
    } else {
        match classify(ls[p as int]) {
            LineKind::Tags(ts) => header_from(ls, p + 1, tags + ts),
            LineKind::BeginGroup(GroupingKeyword::Feature, title) => match feature_body(
                ls,
                p + 1,
                title,
            ) {
                Ok(f) => Ok(
                    FeatureModel {
                        name: f.name,
                        free_text: f.free_text,
                        items: f.items,
                        background: f.background,
                        tags: tags + f.tags,
                    },
                ),
                Err(e) => Err(e),
            },
            _ => Err(ErrorModel::UnexpectedBeforeFeature { line: ls[p as int] }),
        }
    }
}

/// The feature that the lines `ls` describe.
pub open spec fn parse_lines(ls: Seq<Seq<char>>) -> Result<FeatureModel, ErrorModel> {
    if ls.len() == 0 {
        Err(ErrorModel::EmptyFile)
    } else {
        header_from(ls, 0, seq![])
    }
}


/// A scenario, or a feature's background.
#[derive(Debug, Clone)]
pub struct Scenario {
    pub name: String,
    pub steps: Vec<Step>,
    pub tags: Vec<String>,
}

pub open spec fn steps_view(v: Seq<Step>) -> Seq<StepModel> {
    v.map_values(|s: Step| s@)
}

impl View for Scenario {
    type V = ScenarioModel;

    open spec fn view(&self) -> ScenarioModel {
        ScenarioModel { name: self.name@, steps: steps_view(self.steps@), tags: strings_view(self.tags@) }
    }
}

/// A labelled table of examples for a scenario outline.
#[derive(Debug, Clone)]
pub struct ExampleBlock {
    pub examples: Vec<ExampleRow>,
    pub labels: ExampleRow,
    pub tags: Vec<String>,
}

pub open spec fn rows_view(v: Seq<ExampleRow>) -> Seq<Seq<Seq<char>>> {
    v.map_values(|r: ExampleRow| r@)
}

impl View for ExampleBlock {
    type V = BlockModel;

    open spec fn view(&self) -> BlockModel {
        BlockModel {
            examples: rows_view(self.examples@),
            labels: self.labels@,
            tags: strings_view(self.tags@),
        }
    }
}

/// A scenario whose steps hold placeholders, with the tables that fill them.
#[derive(Debug, Clone)]
pub struct ScenarioOutline {
    pub name: String,
    pub steps: Vec<Step>,
    pub example_blocks: Vec<ExampleBlock>,
    pub tags: Vec<String>,
}

pub open spec fn blocks_view(v: Seq<ExampleBlock>) -> Seq<BlockModel> {
    v.map_values(|b: ExampleBlock| b@)
}

impl View for ScenarioOutline {
    type V = OutlineModel;

    open spec fn view(&self) -> OutlineModel {
        OutlineModel {
            name: self.name@,
            steps: steps_view(self.steps@),
            example_blocks: blocks_view(self.example_blocks@),
            tags: strings_view(self.tags@),
        }
    }
}

/// An item of a feature.
#[derive(Debug, Clone)]
pub enum FeatureItem {
    Bare(Scenario),
    Outline(ScenarioOutline),
}

impl View for FeatureItem {
    type V = ItemModel;

    open spec fn view(&self) -> ItemModel {
        match self {
            FeatureItem::Bare(s) => ItemModel::Bare(s@),
            FeatureItem::Outline(o) => ItemModel::Outline(o@),
        }
    }
}

pub open spec fn items_view(v: Seq<FeatureItem>) -> Seq<ItemModel> {
    v.map_values(|i: FeatureItem| i@)
}

pub open spec fn background_view(b: Option<Scenario>) -> Option<ScenarioModel> {
    match b {
        Some(s) => Some(s@),
        None => None,
    }
}

/// A parsed feature file.
#[derive(Debug, Clone)]
pub struct Feature {
    pub name: String,
    pub free_text: Vec<String>,
    pub items: Vec<FeatureItem>,
    pub background: Option<Scenario>,
    pub tags: Vec<String>,
}

impl View for Feature {
    type V = FeatureModel;

    open spec fn view(&self) -> FeatureModel {
        FeatureModel {
            name: self.name@,
            free_text: strings_view(self.free_text@),
            items: items_view(self.items@),
            background: background_view(self.background),
            tags: strings_view(self.tags@),
        }
    }
}

pub open spec fn prepend_steps(a: Seq<StepModel>, r: Result<(Seq<StepModel>, nat), ErrorModel>) -> Result<
    (Seq<StepModel>, nat),
    ErrorModel,
> {
    match r {
        Ok((s, e)) => Ok((a + s, e)),
        Err(e) => Err(e),
    }
}

/// Reads the steps from line `p` on.
fn parse_steps(ls: &Vec<Vec<char>>, p: usize, scenario: &Vec<char>) -> (r: Result<
    (Vec<Step>, usize),
    ParseError,
>)
    requires
        p <= ls@.len(),
    ensures
        match steps_from(chars_view(ls@), p as nat, scenario@) {
            Ok((s, e)) => r matches Ok((v, q)) && steps_view(v@) == s && q as nat == e && p <= q
                <= ls@.len(),
            Err(e) => r matches Err(x) && x@ == e,
        },
{
    let ghost lv = chars_view(ls@);
    let mut steps: Vec<Step> = Vec::new();
    let mut i: usize = p;
    while i < ls.len()
        invariant
            lv == chars_view(ls@),
            p <= i <= ls@.len(),
            steps_from(lv, p as nat, scenario@) == prepend_steps(
                steps_view(steps@),
                steps_from(lv, i as nat, scenario@),
            ),
        decreases ls@.len() - i,
    {
        let line = GherkinLine::from_chars(&ls[i]);
        match line {
            GherkinLine::StepLine(kw, text) => match step_from_chars(kw, &text) {
                Ok(st) => {
                    let ghost old_s = steps@;
                    steps.push(st);
                    assert(steps_view(steps@) =~= steps_view(old_s) + seq![st@]);
                    assert forall|x: Seq<StepModel>|
                        #[trigger] (steps_view(steps@) + x) == steps_view(old_s) + (seq![st@]
                            + x) by {
                        assert(steps_view(steps@) + x =~= steps_view(old_s) + (seq![st@] + x));
                    }
                    i = i + 1;
                },
                Err(e) => {
                    return Err(
                        ParseError::UnterminatedVariable {
                            scenario: Some(string_of(scenario)),
                            step: string_of(&text),
                            expression: string_of(&e),
                        },
                    );
                },
            },
            _ => {
                assert(steps_view(steps@) + seq![] =~= steps_view(steps@));
                return Ok((steps, i));
            },
        }
    }
    assert(steps_view(steps@) + seq![] =~= steps_view(steps@));
    Ok((steps, i))
}

fn clone_strings(v: &Vec<String>) -> (r: Vec<String>)
    ensures
        strings_view(r@) == strings_view(v@),
{
    let mut r: Vec<String> = Vec::new();
    let mut i: usize = 0;
    while i < v.len()
        invariant
            i <= v@.len(),
            strings_view(r@) =~= strings_view(v@).subrange(0, i as int),
        decreases v@.len() - i,
    {
        let s = v[i].clone();
        let ghost old_r = r@;
        r.push(s);
        assert(strings_view(r@) =~= strings_view(old_r).push(s@));
        i = i + 1;
        assert(strings_view(r@) =~= strings_view(v@).subrange(0, i as int));
    }
    assert(strings_view(v@).subrange(0, i as int) =~= strings_view(v@));
    r
}

pub open spec fn prepend_rows(
    a: Seq<Seq<Seq<char>>>,
    r: Result<(Seq<Seq<Seq<char>>>, nat), ErrorModel>,
) -> Result<(Seq<Seq<Seq<char>>>, nat), ErrorModel> {
    match r {
        Ok((s, e)) => Ok((a + s, e)),
        Err(e) => Err(e),
    }
}

/// Reads the example rows from line `p` on, checking each against `labels`.
fn parse_rows(ls: &Vec<Vec<char>>, p: usize, labels: &Vec<String>, outline: &Vec<char>) -> (r:
    Result<(Vec<ExampleRow>, usize), ParseError>)
    requires
        p <= ls@.len(),
    ensures
        match rows_from(chars_view(ls@), p as nat, strings_view(labels@), outline@) {
            Ok((s, e)) => r matches Ok((v, q)) && rows_view(v@) == s && q as nat == e && p <= q
                <= ls@.len(),
            Err(e) => r matches Err(x) && x@ == e,
        },
{
    let ghost lv = chars_view(ls@);
    let ghost lab = strings_view(labels@);
    let mut rows: Vec<ExampleRow> = Vec::new();
    let mut i: usize = p;
    while i < ls.len()
        invariant
            lv == chars_view(ls@),
            lab == strings_view(labels@),
            p <= i <= ls@.len(),
            rows_from(lv, p as nat, lab, outline@) == prepend_rows(
                rows_view(rows@),
                rows_from(lv, i as nat, lab, outline@),
            ),
        decreases ls@.len() - i,
    {
        let line = GherkinLine::from_chars(&ls[i]);
        match line {
            GherkinLine::ExampleEntry(text) => match decode_row_chars(&text) {
                Some(cells) => {
                    if cells.len() != labels.len() {
                        return Err(
                            ParseError::ColumnCountMismatch {
                                outline: string_of(outline),
                                expected: labels.len(),
                                found: cells.len(),
                                labels: clone_strings(labels),
                                row: cells,
                            },
                        );
                    }
                    let row = ExampleRow { entries: cells };
                    let ghost old_r = rows@;
                    rows.push(row);
                    assert(rows_view(rows@) =~= rows_view(old_r) + seq![row@]);
                    assert forall|x: Seq<Seq<Seq<char>>>|
                        #[trigger] (rows_view(rows@) + x) == rows_view(old_r) + (seq![row@]
                            + x) by {
                        assert(rows_view(rows@) + x =~= rows_view(old_r) + (seq![row@] + x));
                    }
                    i = i + 1;
                },
                None => {
                    return Err(ParseError::MalformedRow { row: string_of(&text) });
                },
            },
            GherkinLine::BeginGroup(_, _) => {
                assert(rows_view(rows@) + seq![] =~= rows_view(rows@));
                return Ok((rows, i));
            },
            GherkinLine::Tags(_) => {
                assert(rows_view(rows@) + seq![] =~= rows_view(rows@));
                return Ok((rows, i));
            },
            _ => {
                return Err(
                    ParseError::UnexpectedTableLine {
                        outline: string_of(outline),
                        line: string_of(&ls[i]),
                    },
                );
            },
        }
    }
    assert(rows_view(rows@) + seq![] =~= rows_view(rows@));
    Ok((rows, i))
}

/// Reads the example block whose header has title `title` and whose label row is line `p`.
fn parse_block(ls: &Vec<Vec<char>>, p: usize, title: &Vec<char>, outline: &Vec<char>) -> (r:
    Result<(ExampleBlock, usize), ParseError>)
    requires
        p <= ls@.len(),
    ensures
        match block_at(chars_view(ls@), p as nat, title@, outline@) {
            Ok((b, e)) => r matches Ok((v, q)) && v@ == b && q as nat == e && p < q <= ls@.len(),
            Err(e) => r matches Err(x) && x@ == e,
        },
{
    if title.len() > 0 {
        return Err(
            ParseError::TitledExamples { outline: string_of(outline), title: string_of(title) },
        );
    }
    if p >= ls.len() {
        return Err(ParseError::MissingLabels { outline: string_of(outline) });
    }
    let line = GherkinLine::from_chars(&ls[p]);
    match line {
        GherkinLine::ExampleEntry(text) => match decode_row_chars(&text) {
            Some(labels) => {
                match parse_rows(ls, p + 1, &labels, outline) {
                    Ok((examples, q)) => {
                        let tags: Vec<String> = Vec::new();
                        assert(strings_view(tags@) =~= seq![]);
                        let b = ExampleBlock { examples, labels: ExampleRow { entries: labels }, tags };
                        Ok((b, q))
                    },
                    Err(e) => Err(e),
                }
            },
            None => Err(ParseError::MalformedRow { row: string_of(&text) }),
        },
        _ => Err(
            ParseError::LabelsExpected { outline: string_of(outline), line: string_of(&ls[p]) },
        ),
    }
}


fn last_string(v: &Vec<Vec<char>>) -> (r: Option<String>)
    ensures
        opt_view(r) == last_of(chars_view(v@)),
{
    if v.len() > 0 {
        Some(string_of(&v[v.len() - 1]))
    } else {
        None
    }
}

pub open spec fn prepend_blocks(
    a: Seq<BlockModel>,
    r: Result<(Seq<BlockModel>, nat, Seq<Seq<char>>), ErrorModel>,
) -> Result<(Seq<BlockModel>, nat, Seq<Seq<char>>), ErrorModel> {
    match r {
        Ok((bs, e, left)) => Ok((a + bs, e, left)),
        Err(e) => Err(e),
    }
}

/// Appends the lines of `src` to `dst`.
fn append_lines(dst: &mut Vec<Vec<char>>, src: Vec<Vec<char>>)
    ensures
        chars_view(final(dst)@) == chars_view(old(dst)@) + chars_view(src@),
{
    let mut src = src;
    let ghost s0 = src@;
    dst.append(&mut src);
    assert(chars_view(final(dst)@) =~= chars_view(old(dst)@) + chars_view(s0));
}

/// Reads the example blocks, with their tags, from line `p` on.
fn parse_blocks(ls: &Vec<Vec<char>>, p: usize, outline: &Vec<char>) -> (r: Result<
    (Vec<ExampleBlock>, usize, Vec<Vec<char>>),
    ParseError,
>)
    requires
        p <= ls@.len(),
    ensures
        match blocks_from(chars_view(ls@), p as nat, outline@, seq![]) {
            Ok((bs, e, left)) => r matches Ok((v, q, l)) && blocks_view(v@) == bs && q as nat == e
                && chars_view(l@) == left && p <= q <= ls@.len(),
            Err(e) => r matches Err(x) && x@ == e,
        },
{
    let ghost lv = chars_view(ls@);
    let mut blocks: Vec<ExampleBlock> = Vec::new();
    let mut pending: Vec<Vec<char>> = Vec::new();
    let mut i: usize = p;
    assert(chars_view(pending@) =~= seq![]);
    assert(blocks_view(blocks@) =~= seq![]);
    while i < ls.len()
        invariant
            lv == chars_view(ls@),
            p <= i <= ls@.len(),
            blocks_from(lv, p as nat, outline@, seq![]) == prepend_blocks(
                blocks_view(blocks@),
                blocks_from(lv, i as nat, outline@, chars_view(pending@)),
            ),
        decreases ls@.len() - i,
    {
        let line = GherkinLine::from_chars(&ls[i]);
        match line {
            GherkinLine::Tags(ts) => {
                append_lines(&mut pending, ts);
                if i + 1 < ls.len() {
                    i = i + 1;
                } else {
                    return Err(
                        ParseError::EofAfterTag {
                            context: string_of(outline),
                            tag: last_string(&pending),
                        },
                    );
                }
            },
            GherkinLine::BeginGroup(kw, title) => {
                if kw == GroupingKeyword::Examples {
                    match parse_block(ls, i + 1, &title, outline) {
                        Ok((b, t)) => {
                            let tags = strings_of(&pending);
                            let b2 = ExampleBlock { examples: b.examples, labels: b.labels, tags };
                            let ghost old_b = blocks@;
                            blocks.push(b2);
                            assert(blocks_view(blocks@) =~= blocks_view(old_b) + seq![b2@]);
                            assert forall|x: Seq<BlockModel>|
                                #[trigger] (blocks_view(blocks@) + x) == blocks_view(old_b) + (
                                seq![b2@] + x) by {
                                assert(blocks_view(blocks@) + x =~= blocks_view(old_b) + (seq![b2@]
                                    + x));
                            }
                            pending = Vec::new();
                            assert(chars_view(pending@) =~= seq![]);
                            i = t;
                        },
                        Err(e) => {
                            return Err(e);
                        },
                    }
                } else {
                    assert(blocks_view(blocks@) + seq![] =~= blocks_view(blocks@));
                    return Ok((blocks, i, pending));
                }
            },
            _ => {
                assert(blocks_view(blocks@) + seq![] =~= blocks_view(blocks@));
                return Ok((blocks, i, pending));
            },
        }
    }
    assert(blocks_view(blocks@) + seq![] =~= blocks_view(blocks@));
    Ok((blocks, i, pending))
}

/// Reads the scenario outline named `name` whose first step would be line `p`.
fn parse_outline(ls: &Vec<Vec<char>>, p: usize, name: &Vec<char>) -> (r: Result<
    (ScenarioOutline, usize, Vec<Vec<char>>),
    ParseError,
>)
    requires
        p <= ls@.len(),
    ensures
        match outline_at(chars_view(ls@), p as nat, name@) {
            Ok((o, e, left)) => r matches Ok((v, q, l)) && v@ == o && q as nat == e && chars_view(
                l@,
            ) == left && p <= q <= ls@.len(),
            Err(e) => r matches Err(x) && x@ == e,
        },
{
    match parse_steps(ls, p, name) {
        Err(e) => Err(e),
        Ok((steps, q)) => {
            if q >= ls.len() {
                return Err(ParseError::UnexpectedOutlineLine { outline: string_of(name), line: None });
            }
            let line = GherkinLine::from_chars(&ls[q]);
            if matches!(line, GherkinLine::Tags(_)) || matches!(line, GherkinLine::BeginGroup(_, _)) {
                match parse_blocks(ls, q, name) {
                    Ok((example_blocks, t, left)) => {
                        let tags: Vec<String> = Vec::new();
                        assert(strings_view(tags@) =~= seq![]);
                        Ok((ScenarioOutline { name: string_of(name), steps, example_blocks, tags }, t, left))
                    },
                    Err(e) => Err(e),
                }
            } else {
                Err(
                    ParseError::UnexpectedOutlineLine {
                        outline: string_of(name),
                        line: Some(string_of(&ls[q])),
                    },
                )
            }
        },
    }
}


fn is_tag_line(l: &Vec<char>) -> (r: bool)
    ensures
        r == classify(l@) is Tags,
{
    let line = GherkinLine::from_chars(l);
    matches!(line, GherkinLine::Tags(_))
}

pub open spec fn prepend_items(
    a: Seq<ItemModel>,
    r: Result<(Seq<ItemModel>, Option<ScenarioModel>), ErrorModel>,
) -> Result<(Seq<ItemModel>, Option<ScenarioModel>), ErrorModel> {
    match r {
        Ok((items, bg)) => Ok((a + items, bg)),
        Err(e) => Err(e),
    }
}

/// Reads the items of feature `feature` from the group header at line `p` on.
fn parse_items(ls: &Vec<Vec<char>>, p: usize, feature: &Vec<char>) -> (r: Result<
    (Vec<FeatureItem>, Option<Scenario>),
    ParseError,
>)
    requires
        p < ls@.len(),
    ensures
        match items_from(chars_view(ls@), p as nat, feature@, seq![], None) {
            Ok((items, bg)) => r matches Ok((v, b)) && items_view(v@) == items && background_view(
                b,
            ) == bg,
            Err(e) => r matches Err(x) && x@ == e,
        },
{
    let ghost lv = chars_view(ls@);
    let mut items: Vec<FeatureItem> = Vec::new();
    let mut pending: Vec<Vec<char>> = Vec::new();
    let mut bg: Option<Scenario> = None;
    let mut i: usize = p;
    let n = ls.len();
    assert(chars_view(pending@) =~= seq![]);
    assert(items_view(items@) =~= seq![]);
    loop
        invariant
            lv == chars_view(ls@),
            n == ls@.len(),
            i < ls@.len(),
            items_from(lv, p as nat, feature@, seq![], None) == prepend_items(
                items_view(items@),
                items_from(lv, i as nat, feature@, chars_view(pending@), background_view(bg)),
            ),
        decreases ls@.len() - i,
    {
        let ghost old_pending = chars_view(pending@);
        let ghost old_bg = background_view(bg);
        let line = GherkinLine::from_chars(&ls[i]);
        let (kw, title) = match line {
            GherkinLine::BeginGroup(k, t) => (k, t),
            _ => {
                assert(items_view(items@) + seq![] =~= items_view(items@));
                return Ok((items, bg));
            },
        };
        let mut t: usize;
        match kw {
            GroupingKeyword::Scenario => match parse_steps(ls, i + 1, &title) {
                Err(e) => {
                    return Err(e);
                },
                Ok((steps, q)) => {
                    let sc = Scenario { name: string_of(&title), steps, tags: strings_of(&pending) };
                    let item = FeatureItem::Bare(sc);
                    let ghost old_i = items@;
                    items.push(item);
                    assert(items_view(items@) =~= items_view(old_i) + seq![item@]);
                    assert forall|x: Seq<ItemModel>|
                        #[trigger] (items_view(items@) + x) == items_view(old_i) + (seq![item@]
                            + x) by {
                        assert(items_view(items@) + x =~= items_view(old_i) + (seq![item@] + x));
                    }
                    pending = Vec::new();
                    assert(chars_view(pending@) =~= seq![]);
                    assert(items_from(lv, i as nat, feature@, old_pending, old_bg) == prepend_item(
                        item@,
                        after_item(lv, q as nat, feature@, seq![], old_bg),
                    ));
                    t = q;
                },
            },
            GroupingKeyword::Background => match parse_steps(ls, i + 1, &title) {
                Err(e) => {
                    return Err(e);
                },
                Ok((steps, q)) => {
                    match bg {
                        Some(ex) => {
                            return Err(
                                ParseError::DuplicateBackground {
                                    feature: string_of(feature),
                                    background: string_of(&title),
                                    existing: ex.name,
                                },
                            );
                        },
                        None => {},
                    }
                    let sc = Scenario { name: string_of(&title), steps, tags: strings_of(&pending) };
                    bg = Some(sc);
                    pending = Vec::new();
                    assert(chars_view(pending@) =~= seq![]);
                    assert(items_from(lv, i as nat, feature@, old_pending, old_bg) == after_item(
                        lv,
                        q as nat,
                        feature@,
                        seq![],
                        background_view(bg),
                    ));
                    t = q;
                },
            },
            GroupingKeyword::ScenarioOutline => match parse_outline(ls, i + 1, &title) {
                Err(e) => {
                    return Err(e);
                },
                Ok((o, q, left)) => {
                    let o2 = ScenarioOutline {
                        name: o.name,
                        steps: o.steps,
                        example_blocks: o.example_blocks,
                        tags: strings_of(&pending),
                    };
                    let item = FeatureItem::Outline(o2);
                    let ghost old_i = items@;
                    items.push(item);
                    assert(items_view(items@) =~= items_view(old_i) + seq![item@]);
                    assert forall|x: Seq<ItemModel>|
                        #[trigger] (items_view(items@) + x) == items_view(old_i) + (seq![item@]
                            + x) by {
                        assert(items_view(items@) + x =~= items_view(old_i) + (seq![item@] + x));
                    }
                    pending = left;
                    assert(items_from(lv, i as nat, feature@, old_pending, old_bg) == prepend_item(
                        item@,
                        after_item(lv, q as nat, feature@, chars_view(pending@), old_bg),
                    ));
                    t = q;
                },
            },
            _ => {
                return Err(
                    ParseError::UnexpectedTopLevelGroup {
                        feature: string_of(feature),
                        keyword: kw,
                        title: string_of(&title),
                    },
                );
            },
        }
        while t < ls.len() && is_tag_line(&ls[t])
            invariant
                lv == chars_view(ls@),
                i < t <= ls@.len(),
                items_from(lv, p as nat, feature@, seq![], None) == prepend_items(
                    items_view(items@),
                    after_item(lv, t as nat, feature@, chars_view(pending@), background_view(bg)),
                ),
            decreases ls@.len() - t,
        {
            let tl = GherkinLine::from_chars(&ls[t]);
            if let GherkinLine::Tags(ts) = tl {
                append_lines(&mut pending, ts);
            }
            if t + 1 < ls.len() {
                t = t + 1;
            } else {
                return Err(
                    ParseError::EofAfterTag {
                        context: string_of(feature),
                        tag: last_string(&pending),
                    },
                );
            }
        }
        if t >= ls.len() {
            assert(items_view(items@) + seq![] =~= items_view(items@));
            return Ok((items, bg));
        }
        let next = GherkinLine::from_chars(&ls[t]);
        if !matches!(next, GherkinLine::BeginGroup(_, _)) {
            return Err(
                ParseError::UnexpectedItemLine { feature: string_of(feature), line: string_of(&ls[t]) },
            );
        }
        i = t;
    }
}

pub open spec fn prepend_description(
    f: Seq<Seq<char>>,
    t: Seq<Seq<char>>,
    r: Result<(Seq<Seq<char>>, Seq<Seq<char>>, nat), ErrorModel>,
) -> Result<(Seq<Seq<char>>, Seq<Seq<char>>, nat), ErrorModel> {
    match r {
        Ok((f2, t2, q)) => Ok((f + f2, t + t2, q)),
        Err(e) => Err(e),
    }
}

/// Reads the description of feature `feature` from line `p` on.
fn parse_description(ls: &Vec<Vec<char>>, p: usize, feature: &Vec<char>) -> (r: Result<
    (Vec<String>, Vec<Vec<char>>, usize),
    ParseError,
>)
    requires
        p <= ls@.len(),
    ensures
        match description_from(chars_view(ls@), p as nat, feature@) {
            Ok((free, tags, q)) => r matches Ok((fv, tv, qq)) && strings_view(fv@) == free
                && chars_view(tv@) == tags && qq as nat == q && qq < ls@.len() && classify(
                ls@[qq as int]@,
            ) is BeginGroup,
            Err(e) => r matches Err(x) && x@ == e,
        },
{
    let ghost lv = chars_view(ls@);
    let mut free: Vec<String> = Vec::new();
    let mut tags: Vec<Vec<char>> = Vec::new();
    let mut i: usize = p;
    assert(strings_view(free@) =~= seq![]);
    assert(chars_view(tags@) =~= seq![]);
    while i < ls.len()
        invariant
            lv == chars_view(ls@),
            p <= i <= ls@.len(),
            description_from(lv, p as nat, feature@) == prepend_description(
                strings_view(free@),
                chars_view(tags@),
                description_from(lv, i as nat, feature@),
            ),
        decreases ls@.len() - i,
    {
        let line = GherkinLine::from_chars(&ls[i]);
        match line {
            GherkinLine::FreeText(t) => {
                let s = string_of(&t);
                let ghost old_f = free@;
                free.push(s);
                assert(strings_view(free@) =~= strings_view(old_f) + seq![s@]);
                assert forall|x: Seq<Seq<char>>|
                    #[trigger] (strings_view(free@) + x) == strings_view(old_f) + (seq![s@] + x) by {
                    assert(strings_view(free@) + x =~= strings_view(old_f) + (seq![s@] + x));
                }
                i = i + 1;
            },
            GherkinLine::Tags(ts) => {
                let ghost old_t = chars_view(tags@);
                let ghost tv = chars_view(ts@);
                append_lines(&mut tags, ts);
                assert forall|x: Seq<Seq<char>>|
                    #[trigger] (chars_view(tags@) + x) == old_t + (tv + x) by {
                    assert(chars_view(tags@) + x =~= old_t + (tv + x));
                }
                i = i + 1;
            },
            GherkinLine::BeginGroup(_, _) => {
                assert(strings_view(free@) + seq![] =~= strings_view(free@));
                assert(chars_view(tags@) + seq![] =~= chars_view(tags@));
                return Ok((free, tags, i));
            },
            _ => {
                return Err(
                    ParseError::UnexpectedInDescription {
                        feature: string_of(feature),
                        line: string_of(&ls[i]),
                    },
                );
            },
        }
    }
    Err(ParseError::NoScenarios { feature: string_of(feature) })
}

/// The feature that text `s` describes.
pub open spec fn parse_feature(s: Seq<char>) -> Result<FeatureModel, ErrorModel> {
    parse_lines(source_lines(s))
}

impl Feature {
    /// Parses a whole feature file.
    pub fn from_str(input: &str) -> (r: Result<Feature, ParseError>)
        ensures
            match parse_feature(input@) {
                Ok(f) => r matches Ok(v) && v@ == f,
                Err(e) => r matches Err(x) && x@ == e,
            },
    {
        let text = chars_of(input);
        let ls = split_source_lines(&text);
        let ghost lv = chars_view(ls@);
        if ls.len() == 0 {
            return Err(ParseError::EmptyFile);
        }
        let mut tags: Vec<Vec<char>> = Vec::new();
        let mut i: usize = 0;
        assert(chars_view(tags@) =~= seq![]);
        while i < ls.len()
            invariant
                lv == chars_view(ls@),
                lv == source_lines(text@),
                text@ == input@,
                ls@.len() > 0,
                i <= ls@.len(),
                parse_feature(input@) == header_from(lv, i as nat, chars_view(tags@)),
            decreases ls@.len() - i,
        {
            let line = GherkinLine::from_chars(&ls[i]);
            match line {
                GherkinLine::Tags(ts) => {
                    append_lines(&mut tags, ts);
                    i = i + 1;
                },
                GherkinLine::BeginGroup(GroupingKeyword::Feature, title) => {
                    let (free_text, more_tags, q) = match parse_description(&ls, i + 1, &title) {
                        Ok(d) => d,
                        Err(e) => {
                            return Err(e);
                        },
                    };
                    let (items, background) = match parse_items(&ls, q, &title) {
                        Ok(x) => x,
                        Err(e) => {
                            return Err(e);
                        },
                    };
                    append_lines(&mut tags, more_tags);
                    let name = string_of(&title);
                    let tags = strings_of(&tags);
                    return Ok(Feature { name, free_text, items, background, tags });
                },
                _ => {
                    return Err(ParseError::UnexpectedBeforeFeature { line: string_of(&ls[i]) });
                },
            }
        }
        Err(ParseError::EofInFeatureTags)
    }
}

} // verus!
