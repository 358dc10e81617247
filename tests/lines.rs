use gherkin_reader::keyword::{GroupingKeyword, StepKeyword};
use gherkin_reader::line::GherkinLine;

fn chars(s: &str) -> Vec<char> {
    s.chars().collect()
}

#[test]
fn classifies_group_headers() {
    match GherkinLine::from_str("  Scenario Outline:  Shave an animal ") {
        GherkinLine::BeginGroup(GroupingKeyword::ScenarioOutline, t) => assert_eq!(t, chars("Shave an animal")),
        other => panic!("unexpected {:?}", other),
    }
    match GherkinLine::from_str("Example: e") {
        GherkinLine::BeginGroup(GroupingKeyword::Scenario, t) => assert_eq!(t, chars("e")),
        other => panic!("unexpected {:?}", other),
    }
    match GherkinLine::from_str("Scenarios:") {
        GherkinLine::BeginGroup(GroupingKeyword::Examples, t) => assert!(t.is_empty()),
        other => panic!("unexpected {:?}", other),
    }
}

#[test]
fn classifies_steps_tags_rows_and_text() {
    match GherkinLine::from_str("Given a: b") {
        GherkinLine::StepLine(StepKeyword::Given, t) => assert_eq!(t, chars("a: b")),
        other => panic!("unexpected {:?}", other),
    }
    match GherkinLine::from_str("* bullet") {
        GherkinLine::StepLine(StepKeyword::Bullet, t) => assert_eq!(t, chars("bullet")),
        other => panic!("unexpected {:?}", other),
    }
    match GherkinLine::from_str("@a @b@@c") {
        GherkinLine::Tags(t) => assert_eq!(t, vec![chars("a"), chars("b"), chars(""), chars("c")]),
        other => panic!("unexpected {:?}", other),
    }
    assert!(matches!(GherkinLine::from_str("| x | y |"), GherkinLine::ExampleEntry(_)));
    assert!(matches!(GherkinLine::from_str("Given"), GherkinLine::FreeText(_)));
    assert!(matches!(GherkinLine::from_str("Rule: r"), GherkinLine::FreeText(_)));
}
