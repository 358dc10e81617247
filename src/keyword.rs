use vstd::prelude::*;

use crate::error::{ErrorModel, ParseError};
use crate::text::{chars_of, eq_str, string_of};

verus! {

/// The keywords that open a group of lines.
#[derive(Debug, Clone, Copy, PartialEq, Eq, Structural)]
pub enum GroupingKeyword {
    ScenarioOutline,
    Scenario,
    Background,
    Examples,
    Feature,
}

/// The keywords that open a step.
#[derive(Debug, Clone, Copy, PartialEq, Eq, Structural)]
pub enum StepKeyword {
    Given,
    When,
    Then,
    And,
    But,
    Bullet,
}

/// The keywords that open an item of a feature.
#[derive(Debug, Clone, Copy, PartialEq, Eq, Structural)]
pub enum FeatureItemKeyword {
    Scenario,
    ScenarioOutline,
    Background,
}

/// Any keyword of the language.
#[derive(Debug, Clone, Copy, PartialEq, Eq, Structural)]
pub enum Keyword {
    Feature,
    FeatureItem(FeatureItemKeyword),
    Examples,
    Step(StepKeyword),
}

/// The group keyword that `k` names, synonyms mapped to one keyword.
pub open spec fn group_keyword_of(k: Seq<char>) -> Option<GroupingKeyword> {
    if k == "Scenario"@ || k == "Example"@ {
        Some(GroupingKeyword::Scenario)
    } else if k == "Examples"@ || k == "Scenarios"@ {
        Some(GroupingKeyword::Examples)
    } else if k == "Scenario Outline"@ || k == "Scenario Template"@ {
        Some(GroupingKeyword::ScenarioOutline)
    } else if k == "Feature"@ {
        Some(GroupingKeyword::Feature)
    } else if k == "Background"@ {
        Some(GroupingKeyword::Background)
    } else {
        None
    }
}

/// The step keyword that `k` names.
pub open spec fn step_keyword_of(k: Seq<char>) -> Option<StepKeyword> {
    if k == "Given"@ {
        Some(StepKeyword::Given)
    } else if k == "When"@ {
        Some(StepKeyword::When)
    } else if k == "Then"@ {
        Some(StepKeyword::Then)
    } else if k == "And"@ {
        Some(StepKeyword::And)
    } else if k == "But"@ {
        Some(StepKeyword::But)
    } else if k == "*"@ {
        Some(StepKeyword::Bullet)
    } else {
        None
    }
}

/// The feature item keyword that `k` names.
pub open spec fn feature_item_keyword_of(k: Seq<char>) -> Option<FeatureItemKeyword> {
    if k == "Background"@ {
        Some(FeatureItemKeyword::Background)
    } else if k == "Scenario"@ || k == "Example"@ {
        Some(FeatureItemKeyword::Scenario)
    } else if k == "Scenario Outline"@ || k == "Scenario Template"@ {
        Some(FeatureItemKeyword::ScenarioOutline)
    } else {
        None
    }
}

/// The keyword that `k` names.
pub open spec fn keyword_of(k: Seq<char>) -> Option<Keyword> {
    if let Some(f) = feature_item_keyword_of(k) {
        Some(Keyword::FeatureItem(f))
    } else if let Some(s) = step_keyword_of(k) {
        Some(Keyword::Step(s))
    } else if k == "Feature"@ {
        Some(Keyword::Feature)
    } else if k == "Examples"@ || k == "Scenarios"@ {
        Some(Keyword::Examples)
    } else {
        None
    }
}

/// Looks up the group keyword that `k` names.
pub fn group_keyword(k: &Vec<char>) -> (r: Option<GroupingKeyword>)
    ensures
        r == group_keyword_of(k@),
{
    if eq_str(k, "Scenario") || eq_str(k, "Example") {
        Some(GroupingKeyword::Scenario)
    } else if eq_str(k, "Examples") || eq_str(k, "Scenarios") {
        Some(GroupingKeyword::Examples)
    } else if eq_str(k, "Scenario Outline") || eq_str(k, "Scenario Template") {
        Some(GroupingKeyword::ScenarioOutline)
    } else if eq_str(k, "Feature") {
        Some(GroupingKeyword::Feature)
    } else if eq_str(k, "Background") {
        Some(GroupingKeyword::Background)
    } else {
        None
    }
}

/// Looks up the step keyword that `k` names.
pub fn step_keyword(k: &Vec<char>) -> (r: Option<StepKeyword>)
    ensures
        r == step_keyword_of(k@),
{
    if eq_str(k, "Given") {
        Some(StepKeyword::Given)
    } else if eq_str(k, "When") {
        Some(StepKeyword::When)
    } else if eq_str(k, "Then") {
        Some(StepKeyword::Then)
    } else if eq_str(k, "And") {
        Some(StepKeyword::And)
    } else if eq_str(k, "But") {
        Some(StepKeyword::But)
    } else if eq_str(k, "*") {
        Some(StepKeyword::Bullet)
    } else {
        None
    }
}

fn feature_item_keyword(k: &Vec<char>) -> (r: Option<FeatureItemKeyword>)
    ensures
        r == feature_item_keyword_of(k@),
{
    if eq_str(k, "Background") {
        Some(FeatureItemKeyword::Background)
    } else if eq_str(k, "Scenario") || eq_str(k, "Example") {
        Some(FeatureItemKeyword::Scenario)
    } else if eq_str(k, "Scenario Outline") || eq_str(k, "Scenario Template") {
        Some(FeatureItemKeyword::ScenarioOutline)
    } else {
        None
    }
}

fn unrecognized(input: &str) -> (e: ParseError)
    ensures
        e@ == (ErrorModel::UnrecognizedKeyword { input: input@ }),
{
    let v = chars_of(input);
    ParseError::UnrecognizedKeyword { input: string_of(&v) }
}

impl StepKeyword {
    /// Reads a step keyword: `Given`, `When`, `Then`, `And`, `But` or `*`.
    pub fn from_str(input: &str) -> (r: Result<StepKeyword, ParseError>)
        ensures
            match step_keyword_of(input@) {
                Some(k) => r == Ok::<StepKeyword, ParseError>(k),
                None => r matches Err(e) && e@ == (ErrorModel::UnrecognizedKeyword {
                    input: input@,
                }),
            },
    {
        let v = chars_of(input);
        match step_keyword(&v) {
            Some(k) => Ok(k),
            None => Err(unrecognized(input)),
        }
    }
}

/// A value read from a whole string, as `parse_spec` says.
pub trait ParseStr: Sized {
    spec fn parse_spec(input: Seq<char>) -> Option<Self>;

    fn from_str(input: &str) -> (r: Result<Self, ParseError>)
        ensures
            match Self::parse_spec(input@) {
                Some(k) => r == Ok::<Self, ParseError>(k),
                None => r matches Err(e) && e@ == (ErrorModel::UnrecognizedKeyword {
                    input: input@,
                }),
            },
    ;
}

impl ParseStr for FeatureItemKeyword {
    open spec fn parse_spec(input: Seq<char>) -> Option<FeatureItemKeyword> {
        feature_item_keyword_of(input)
    }

    fn from_str(input: &str) -> (r: Result<FeatureItemKeyword, ParseError>) {
        let v = chars_of(input);
        match feature_item_keyword(&v) {
            Some(k) => Ok(k),
            None => Err(unrecognized(input)),
        }
    }
}

impl ParseStr for Keyword {
    open spec fn parse_spec(input: Seq<char>) -> Option<Keyword> {
        keyword_of(input)
    }

    fn from_str(input: &str) -> (r: Result<Keyword, ParseError>) {
        let v = chars_of(input);
        if let Some(f) = feature_item_keyword(&v) {
            Ok(Keyword::FeatureItem(f))
        } else if let Some(s) = step_keyword(&v) {
            Ok(Keyword::Step(s))
        } else if eq_str(&v, "Feature") {
            Ok(Keyword::Feature)
        } else if eq_str(&v, "Examples") || eq_str(&v, "Scenarios") {
            Ok(Keyword::Examples)
        } else {
            Err(unrecognized(input))
        }
    }
}

} // verus!
