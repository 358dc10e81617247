use gherkin_reader::export::{camel, pascal, Export, NUnit};
use gherkin_reader::feature::Feature;
use gherkin_reader::infer::CSType;

#[test]
fn casing() {
    assert_eq!(pascal("shave a yak"), "ShaveAYak");
    assert_eq!(pascal("élan vital"), "ÉlanVital");
    assert_eq!(pascal("  x--y "), "XY");
    assert_eq!(camel("my var name"), "myVarName");
    assert_eq!(camel("hair"), "hair");
    assert_eq!(camel(" lead"), "Lead");
    assert_eq!(camel("straße ß"), "straßeSS");
    assert_eq!(camel(""), "");
}

#[test]
fn literal_escaping() {
    let n = NUnit;
    assert_eq!(n.escape_literal("say \"hi\"", true), "@\"say \"\"hi\"\"\"");
    assert_eq!(n.escape_literal("\\path", true), "@\"path\"");
    assert_eq!(n.escape_literal("/path", false), "@path");
    assert_eq!(n.escape_literal("\\/x", false), "@/x");
}

#[test]
fn argument_rendering() {
    let n = NUnit;
    assert_eq!(n.interpret_arg("TRUE", CSType::Bool), "true");
    assert_eq!(n.interpret_arg("yes", CSType::Bool), "false");
    assert_eq!(n.interpret_arg("42", CSType::Int64), "42");
    assert_eq!(n.interpret_arg("1.5", CSType::Double), "1.5");
    assert_eq!(n.interpret_arg("cow", CSType::String), "@\"cow\"");
    assert_eq!(n.interpret_arg("\"moo\"", CSType::String), "@\"moo\"");
    assert_eq!(n.interpret_arg("a\"b", CSType::String), "@\"a\"\"b\"");
}

#[test]
fn test_case_lines() {
    let n = NUnit;
    let args = vec!["cow".to_string(), "3".to_string()];
    assert_eq!(
        n.write_test_case(&[CSType::String, CSType::Int64], &args, "Mammal,Big"),
        "    [TestCase(@\"cow\", 3, Category=\"Mammal,Big\")]\n"
    );
    assert_eq!(n.write_test_case(&[CSType::String], &args, ""), "    [TestCase(@\"cow\")]\n");
}

#[test]
fn feature_rendering() {
    let input = "Feature: farm life
Scenario: shave a yak
  Given I have a yak
Scenario Outline: hear an animal
  Given a <animal name>
  Then I hear <noise>
@Mammal
Examples:
  | animal name | noise |
  | cow         | 3     |
";
    let f = Feature::from_str(input).unwrap();
    let expected = "[TestFixture]\npublic class FarmLife\n{\n    [Test]\n    public void ShaveAYak()\n    {\n\n    }\n    [TestCase(@\"cow\", 3, Category=\"Mammal\")]\n    public void HearAnAnimal(string animalName, long noise)\n    {\n        // Given(A___(animalName));\n        // Then(IHear___(noise));\n\n    }\n\n}";
    let out = f.export(NUnit);
    assert_eq!(out, expected);
}
