use gherkin_reader::feature::{ExampleBlock, Feature, FeatureItem};
use gherkin_reader::infer::{calculate_arg_types, CSType};
use gherkin_reader::row::ExampleRow;

fn row(cells: &[&str]) -> ExampleRow {
    ExampleRow { entries: cells.iter().map(|s| s.to_string()).collect() }
}

fn block(labels: &[&str], rows: &[&[&str]]) -> ExampleBlock {
    ExampleBlock { examples: rows.iter().map(|r| row(r)).collect(), labels: row(labels), tags: vec![] }
}

#[test]
fn cell_types() {
    assert!(CSType::from("42") == CSType::Int64);
    assert!(CSType::from("-9223372036854775808") == CSType::Int64);
    assert!(CSType::from("9223372036854775808") == CSType::Double);
    assert!(CSType::from("+7") == CSType::Int64);
    assert!(CSType::from("1.5") == CSType::Double);
    assert!(CSType::from(".5") == CSType::Double);
    assert!(CSType::from("1e10") == CSType::Double);
    assert!(CSType::from("2.E-3") == CSType::Double);
    assert!(CSType::from("inf") == CSType::Double);
    assert!(CSType::from("-Infinity") == CSType::Double);
    assert!(CSType::from("NaN") == CSType::Double);
    assert!(CSType::from("true") == CSType::Bool);
    assert!(CSType::from("false") == CSType::Bool);
    assert!(CSType::from("True") == CSType::String);
    assert!(CSType::from("") == CSType::String);
    assert!(CSType::from("-") == CSType::String);
    assert!(CSType::from(".") == CSType::String);
    assert!(CSType::from("1e") == CSType::String);
    assert!(CSType::from("1.2.3") == CSType::String);
    assert!(CSType::from("cow") == CSType::String);
}

#[test]
fn join_and_names() {
    assert!(CSType::Int64.lowest_common_type(CSType::Int64) == CSType::Int64);
    assert!(CSType::Int64.lowest_common_type(CSType::Double) == CSType::String);
    assert!(CSType::Bool.lowest_common_type(CSType::String) == CSType::String);
    assert_eq!(CSType::Bool.to_str(), "bool");
    assert_eq!(CSType::Int64.to_str(), "long");
    assert_eq!(CSType::Double.to_str(), "double");
    assert_eq!(CSType::String.to_str(), "string");
}

#[test]
fn column_types_across_blocks() {
    let blocks = vec![
        block(&["n", "x", "b"], &[&["1", "1.5", "true"], &["2", "abc", "false"]]),
        block(&["n", "x", "b"], &[&["3", "2.5", "true"]]),
    ];
    let types = calculate_arg_types(&blocks);
    assert!(types == vec![CSType::Int64, CSType::String, CSType::Bool]);
}

#[test]
fn column_types_ignore_row_order() {
    let a = vec![
        block(&["n", "x"], &[&["1", "1.5"], &["2", "2"]]),
        block(&["n", "x"], &[&["true", "3.5"]]),
    ];
    let b = vec![
        block(&["n", "x"], &[&["true", "3.5"], &["2", "2"]]),
        block(&["n", "x"], &[&["1", "1.5"]]),
    ];
    assert!(calculate_arg_types(&a) == calculate_arg_types(&b));
    assert!(calculate_arg_types(&a) == vec![CSType::String, CSType::String]);
}

#[test]
fn column_types_without_rows_are_strings() {
    assert!(calculate_arg_types(&[]).is_empty());
    let blocks = vec![block(&["a", "b"], &[])];
    assert!(calculate_arg_types(&blocks) == vec![CSType::String, CSType::String]);
}

#[test]
fn short_rows_count_as_strings() {
    let blocks = vec![block(&["a", "b"], &[&["1", "2"]]), block(&["a"], &[&["3"]])];
    assert!(calculate_arg_types(&blocks) == vec![CSType::Int64, CSType::String]);
}

#[test]
fn numeric_outline_columns() {
    let input = "Feature: F
Scenario Outline: O
  Given <a> and <b>
Examples:
  | a | b    |
  | 1 | 2.0  |
  | 5 | 3    |
";
    let f = Feature::from_str(input).unwrap();
    match &f.items[0] {
        FeatureItem::Outline(o) => {
            let types = calculate_arg_types(&o.example_blocks);
            assert!(types == vec![CSType::Int64, CSType::String]);
        }
        FeatureItem::Bare(_) => panic!("expected an outline"),
    }
}
