use gherkin_reader::error::ParseError;
use gherkin_reader::feature::{Feature, FeatureItem};
use gherkin_reader::infer::{calculate_arg_types, CSType};
use gherkin_reader::keyword::{FeatureItemKeyword, GroupingKeyword, Keyword, ParseStr, StepKeyword};
use gherkin_reader::row::ExampleRow;
use gherkin_reader::step::Step;

fn strings(v: &[&str]) -> Vec<String> {
    v.iter().map(|s| s.to_string()).collect()
}

const FARM: &str = "Feature: Farm activities
Scenario Outline: Shave an animal
  Given I am Old McDonald
  And On that farm there is a <animal>
  Then I hear a <noise>
Examples:
  | animal | noise |
  | cow    | moo   |
  | horse  | neigh |
";

#[test]
fn farm_outline_parses_to_one_outline() {
    let f = Feature::from_str(FARM).unwrap();
    assert_eq!(f.name, "Farm activities");
    assert_eq!(f.items.len(), 1);
    match &f.items[0] {
        FeatureItem::Outline(o) => {
            assert_eq!(o.name, "Shave an animal");
            assert_eq!(o.steps.len(), 3);
            assert_eq!(o.example_blocks.len(), 1);
            let b = &o.example_blocks[0];
            assert_eq!(b.labels.entries, strings(&["animal", "noise"]));
            assert_eq!(b.examples.len(), 2);
            assert_eq!(b.examples[0].entries, strings(&["cow", "moo"]));
            assert_eq!(b.examples[1].entries, strings(&["horse", "neigh"]));
            let types = calculate_arg_types(&o.example_blocks);
            assert_eq!(types, vec![CSType::String, CSType::String]);
        }
        FeatureItem::Bare(_) => panic!("expected an outline"),
    }
}

#[test]
fn titled_examples_block_fails() {
    let input = "Feature: F
Scenario Outline: O
  Given a <x>
Examples: extra text
  | x |
  | 1 |
";
    match Feature::from_str(input) {
        Err(ParseError::TitledExamples { outline, title }) => {
            assert_eq!(outline, "O");
            assert_eq!(title, "extra text");
        }
        other => panic!("unexpected {:?}", other),
    }
}

#[test]
fn second_background_fails_naming_both() {
    let input = "Feature: F
Background: first
  Given a
Scenario: S
  Given b
Background: second
  Given c
";
    match Feature::from_str(input) {
        Err(ParseError::DuplicateBackground { feature, background, existing }) => {
            assert_eq!(feature, "F");
            assert_eq!(background, "second");
            assert_eq!(existing, "first");
        }
        other => panic!("unexpected {:?}", other),
    }
}

#[test]
fn tags_attach_to_the_following_examples_block() {
    let input = "Feature: F
Scenario Outline: O
  Given a <animal>
@Mammal
Examples:
  | animal |
  | cow    |
@Bird
Examples:
  | animal |
  | duck   |
Examples:
  | animal |
  | fish   |
";
    let f = Feature::from_str(input).unwrap();
    match &f.items[0] {
        FeatureItem::Outline(o) => {
            assert!(o.tags.is_empty());
            assert_eq!(o.example_blocks.len(), 3);
            assert_eq!(o.example_blocks[0].tags, strings(&["Mammal"]));
            assert_eq!(o.example_blocks[1].tags, strings(&["Bird"]));
            assert!(o.example_blocks[2].tags.is_empty());
        }
        FeatureItem::Bare(_) => panic!("expected an outline"),
    }
}

#[test]
fn feature_tags_description_and_item_tags() {
    let input = "# comment
@smoke @fast
Feature: Tagged
  Some description
  @extra
  @slow
Scenario: One
  Given x
@wip
Scenario: Two
  When y
";
    let f = Feature::from_str(input).unwrap();
    assert_eq!(f.tags, strings(&["smoke", "fast", "extra", "slow"]));
    assert_eq!(f.free_text, strings(&["Some description"]));
    assert_eq!(f.items.len(), 2);
    match (&f.items[0], &f.items[1]) {
        (FeatureItem::Bare(a), FeatureItem::Bare(b)) => {
            assert!(a.tags.is_empty());
            assert_eq!(a.name, "One");
            assert_eq!(b.tags, strings(&["wip"]));
            assert_eq!(b.steps[0].keyword, StepKeyword::When);
        }
        _ => panic!("expected two scenarios"),
    }
}

#[test]
fn background_is_recorded() {
    let input = "Feature: F
Background:
  Given setup
Example: S
  * thing
";
    let f = Feature::from_str(input).unwrap();
    let bg = f.background.unwrap();
    assert_eq!(bg.name, "");
    assert_eq!(bg.steps.len(), 1);
    assert_eq!(f.items.len(), 1);
    match &f.items[0] {
        FeatureItem::Bare(s) => assert_eq!(s.steps[0].keyword, StepKeyword::Bullet),
        _ => panic!("expected a scenario"),
    }
}

#[test]
fn column_count_mismatch_names_both_counts() {
    let input = "Feature: F
Scenario Outline: O
  Given a <x>
Examples:
  | x | y |
  | 1 |
";
    match Feature::from_str(input) {
        Err(ParseError::ColumnCountMismatch { outline, expected, found, labels, row }) => {
            assert_eq!(outline, "O");
            assert_eq!(expected, 2);
            assert_eq!(found, 1);
            assert_eq!(labels, strings(&["x", "y"]));
            assert_eq!(row, strings(&["1"]));
        }
        other => panic!("unexpected {:?}", other),
    }
}

#[test]
fn structural_errors() {
    assert!(matches!(Feature::from_str("  \n# only\n"), Err(ParseError::EmptyFile)));
    assert!(matches!(Feature::from_str("@a\n"), Err(ParseError::EofInFeatureTags)));
    assert!(matches!(
        Feature::from_str("hello\nFeature: F\n"),
        Err(ParseError::UnexpectedBeforeFeature { .. })
    ));
    assert!(matches!(
        Feature::from_str("Feature: F\ntext\n"),
        Err(ParseError::NoScenarios { .. })
    ));
    assert!(matches!(
        Feature::from_str("Feature: F\nGiven a\n"),
        Err(ParseError::UnexpectedInDescription { .. })
    ));
    assert!(matches!(
        Feature::from_str("Feature: F\nExamples:\n"),
        Err(ParseError::UnexpectedTopLevelGroup { keyword: GroupingKeyword::Examples, .. })
    ));
    assert!(matches!(
        Feature::from_str("Feature: F\nScenario: S\n  Given a\nfree\n"),
        Err(ParseError::UnexpectedItemLine { .. })
    ));
    assert!(matches!(
        Feature::from_str("Feature: F\nScenario: S\n  Given a <b\n"),
        Err(ParseError::UnterminatedVariable { .. })
    ));
    assert!(matches!(
        Feature::from_str("Feature: F\nScenario Outline: O\n  Given a\n"),
        Err(ParseError::UnexpectedOutlineLine { line: None, .. })
    ));
    assert!(matches!(
        Feature::from_str("Feature: F\nScenario Outline: O\n  Given a\n| x |\n"),
        Err(ParseError::UnexpectedOutlineLine { line: Some(_), .. })
    ));
    assert!(matches!(
        Feature::from_str("Feature: F\nScenario Outline: O\n  Given a\n@t\n"),
        Err(ParseError::EofAfterTag { .. })
    ));
    assert!(matches!(
        Feature::from_str("Feature: F\nScenario: S\n  Given a\n@t\n"),
        Err(ParseError::EofAfterTag { .. })
    ));
    assert!(matches!(
        Feature::from_str("Feature: F\nScenario Outline: O\n  Given a\nExamples:\n"),
        Err(ParseError::MissingLabels { .. })
    ));
    assert!(matches!(
        Feature::from_str("Feature: F\nScenario Outline: O\n  Given a\nExamples:\nfree\n"),
        Err(ParseError::LabelsExpected { .. })
    ));
    assert!(matches!(
        Feature::from_str("Feature: F\nScenario Outline: O\n  Given a\nExamples:\n|x\n"),
        Err(ParseError::MalformedRow { .. })
    ));
    assert!(matches!(
        Feature::from_str("Feature: F\nScenario Outline: O\n  Given a\nExamples:\n| x |\nfree\n"),
        Err(ParseError::UnexpectedTableLine { .. })
    ));
}

#[test]
fn escaped_delimiter_stays_in_one_cell() {
    let row = ExampleRow::from_str("| a\\|b |").unwrap();
    assert_eq!(row.entries, strings(&["a|b"]));
    let row = ExampleRow::from_str("| x | a\\|b | y |").unwrap();
    assert_eq!(row.entries, strings(&["x", "a|b", "y"]));
}

#[test]
fn rows_with_few_delimiters_fail() {
    assert!(matches!(ExampleRow::from_str("abc"), Err(ParseError::MalformedRow { .. })));
    assert!(matches!(ExampleRow::from_str("|abc"), Err(ParseError::MalformedRow { .. })));
    assert!(matches!(ExampleRow::from_str("| a \\|"), Err(ParseError::MalformedRow { .. })));
    assert_eq!(ExampleRow::from_str("||").unwrap().entries, strings(&[""]));
}

#[test]
fn step_segments_interleave_back() {
    let s = Step::new(StepKeyword::Then, "  I hear a <noise> from <animal>  ").unwrap();
    assert_eq!(s.literals, strings(&["I hear a ", " from ", ""]));
    assert_eq!(s.variables, strings(&["noise", "animal"]));
    let mut text = s.literals[0].clone();
    for (v, l) in s.variables.iter().zip(s.literals.iter().skip(1)) {
        text = format!("{}<{}>{}", text, v, l);
    }
    assert_eq!(text, "I hear a <noise> from <animal>");
    let plain = Step::new(StepKeyword::Given, "no placeholders").unwrap();
    assert_eq!(plain.literals, strings(&["no placeholders"]));
    assert!(plain.variables.is_empty());
}

#[test]
fn unterminated_placeholder_fails() {
    match Step::new(StepKeyword::Given, "a <b c") {
        Err(ParseError::UnterminatedVariable { scenario, expression, .. }) => {
            assert_eq!(scenario, None);
            assert_eq!(expression, "b c");
        }
        other => panic!("unexpected {:?}", other),
    }
}

#[test]
fn keywords_parse() {
    assert_eq!(StepKeyword::from_str("*").unwrap(), StepKeyword::Bullet);
    assert_eq!(StepKeyword::from_str("But").unwrap(), StepKeyword::But);
    assert!(matches!(
        StepKeyword::from_str("Maybe"),
        Err(ParseError::UnrecognizedKeyword { .. })
    ));
    assert_eq!(
        FeatureItemKeyword::from_str("Scenario Template").unwrap(),
        FeatureItemKeyword::ScenarioOutline
    );
    assert_eq!(Keyword::from_str("Scenarios").unwrap(), Keyword::Examples);
    assert_eq!(Keyword::from_str("When").unwrap(), Keyword::Step(StepKeyword::When));
    assert_eq!(
        Keyword::from_str("Example").unwrap(),
        Keyword::FeatureItem(FeatureItemKeyword::Scenario)
    );
    assert!(Keyword::from_str("Rule").is_err());
}
