use vstd::prelude::*;

use crate::keyword::GroupingKeyword;
use crate::text::strings_view;

verus! {

/// Why a feature file, or a piece of one, was rejected.
#[derive(Debug, Clone)]
pub enum ParseError {
    /// The file holds no line but blank lines and comments.
    EmptyFile,
    /// The file ends among the tags that precede `Feature:`.
    EofInFeatureTags,
    /// A line before `Feature:` is neither tags nor the feature header.
    UnexpectedBeforeFeature { line: String },
    /// The feature ends before any scenario, outline or background begins.
    NoScenarios { feature: String },
    /// A step or table row stands in the feature's description.
    UnexpectedInDescription { feature: String, line: String },
    /// `Examples:` or a second `Feature:` stands at the top level of a feature.
    UnexpectedTopLevelGroup { feature: String, keyword: GroupingKeyword, title: String },
    /// A feature declares a second background.
    DuplicateBackground { feature: String, background: String, existing: String },
    /// A line between the feature's items is neither tags nor a group header.
    UnexpectedItemLine { feature: String, line: String },
    /// A step (of the named scenario, if any) opens a placeholder with `<` that no `>` closes.
    UnterminatedVariable { scenario: Option<String>, step: String, expression: String },
    /// A scenario outline's steps are followed by something other than tags or a group
    /// header (`None`: by the end of the file).
    UnexpectedOutlineLine { outline: String, line: Option<String> },
    /// Tags are the last lines of the file and annotate nothing.
    EofAfterTag { context: String, tag: Option<String> },
    /// An `Examples:` header carries a title.
    TitledExamples { outline: String, title: String },
    /// The file ends right after an `Examples:` header.
    MissingLabels { outline: String },
    /// The line after an `Examples:` header is not a table row.
    LabelsExpected { outline: String, line: String },
    /// A table row holds fewer than two unescaped `|`.
    MalformedRow { row: String },
    /// An example row's cell count differs from its label row's.
    ColumnCountMismatch {
        outline: String,
        expected: usize,
        found: usize,
        labels: Vec<String>,
        row: Vec<String>,
    },
    /// A line inside an example table is neither a row, tags nor a group header.
    UnexpectedTableLine { outline: String, line: String },
    /// A word is not one of the keywords asked for.
    UnrecognizedKeyword { input: String },
}

/// What a `ParseError` holds, with its strings as character sequences.
pub enum ErrorModel {
    EmptyFile,
    EofInFeatureTags,
    UnexpectedBeforeFeature { line: Seq<char> },
    NoScenarios { feature: Seq<char> },
    UnexpectedInDescription { feature: Seq<char>, line: Seq<char> },
    UnexpectedTopLevelGroup { feature: Seq<char>, keyword: GroupingKeyword, title: Seq<char> },
    DuplicateBackground { feature: Seq<char>, background: Seq<char>, existing: Seq<char> },
    UnexpectedItemLine { feature: Seq<char>, line: Seq<char> },
    UnterminatedVariable { scenario: Option<Seq<char>>, step: Seq<char>, expression: Seq<char> },
    UnexpectedOutlineLine { outline: Seq<char>, line: Option<Seq<char>> },
    EofAfterTag { context: Seq<char>, tag: Option<Seq<char>> },
    TitledExamples { outline: Seq<char>, title: Seq<char> },
    MissingLabels { outline: Seq<char> },
    LabelsExpected { outline: Seq<char>, line: Seq<char> },
    MalformedRow { row: Seq<char> },
    ColumnCountMismatch {
        outline: Seq<char>,
        expected: nat,
        found: nat,
        labels: Seq<Seq<char>>,
        row: Seq<Seq<char>>,
    },
    UnexpectedTableLine { outline: Seq<char>, line: Seq<char> },
    UnrecognizedKeyword { input: Seq<char> },
}

pub open spec fn opt_view(o: Option<String>) -> Option<Seq<char>> {
    match o {
        Some(s) => Some(s@),
        None => None,
    }
}

impl View for ParseError {
    type V = ErrorModel;

    open spec fn view(&self) -> ErrorModel {
        match self {
            ParseError::EmptyFile => ErrorModel::EmptyFile,
            ParseError::EofInFeatureTags => ErrorModel::EofInFeatureTags,
            ParseError::UnexpectedBeforeFeature { line } => ErrorModel::UnexpectedBeforeFeature {
                line: line@,
            },
            ParseError::NoScenarios { feature } => ErrorModel::NoScenarios { feature: feature@ },
            ParseError::UnexpectedInDescription { feature, line } =>
                ErrorModel::UnexpectedInDescription { feature: feature@, line: line@ },
            ParseError::UnexpectedTopLevelGroup { feature, keyword, title } =>
                ErrorModel::UnexpectedTopLevelGroup {
                feature: feature@,
                keyword: *keyword,
                title: title@,
            },
            ParseError::DuplicateBackground { feature, background, existing } =>
                ErrorModel::DuplicateBackground {
                feature: feature@,
                background: background@,
                existing: existing@,
            },
            ParseError::UnexpectedItemLine { feature, line } => ErrorModel::UnexpectedItemLine {
                feature: feature@,
                line: line@,
            },
            ParseError::UnterminatedVariable { scenario, step, expression } =>
                ErrorModel::UnterminatedVariable {
                scenario: opt_view(*scenario),
                step: step@,
                expression: expression@,
            },
            ParseError::UnexpectedOutlineLine { outline, line } =>
                ErrorModel::UnexpectedOutlineLine { outline: outline@, line: opt_view(*line) },
            ParseError::EofAfterTag { context, tag } => ErrorModel::EofAfterTag {
                context: context@,
                tag: opt_view(*tag),
            },
            ParseError::TitledExamples { outline, title } => ErrorModel::TitledExamples {
                outline: outline@,
                title: title@,
            },
            ParseError::MissingLabels { outline } => ErrorModel::MissingLabels {
                outline: outline@,
            },
            ParseError::LabelsExpected { outline, line } => ErrorModel::LabelsExpected {
                outline: outline@,
                line: line@,
            },
            ParseError::MalformedRow { row } => ErrorModel::MalformedRow { row: row@ },
            ParseError::ColumnCountMismatch { outline, expected, found, labels, row } =>
                ErrorModel::ColumnCountMismatch {
                outline: outline@,
                expected: *expected as nat,
                found: *found as nat,
                labels: strings_view(labels@),
                row: strings_view(row@),
            },
            ParseError::UnexpectedTableLine { outline, line } => ErrorModel::UnexpectedTableLine {
                outline: outline@,
                line: line@,
            },
            ParseError::UnrecognizedKeyword { input } => ErrorModel::UnrecognizedKeyword {
                input: input@,
            },
        }
    }
}

} // verus!
