use jsontoyaml::convert::json_to_yaml::{parse_json, run, to_yaml};
use jsontoyaml::convert::yaml_to_json::parse_yaml;
use jsontoyaml::error::{ConvertError, Outcome};
use jsontoyaml::yaml::YamlValue;

fn text(s: &str) -> YamlValue {
    YamlValue::String(s.to_string())
}

#[test]
fn test_to_yaml() {
    let input = r#"{"field1":"val1","arr":["val1", "val2"]}"#;
    let o = match to_yaml(input) {
        Ok(s) => s,
        Err(_) => panic!(),
    };
    let expected = vec![
        (text("field1"), text("val1")),
        (text("arr"), YamlValue::Sequence(vec![text("val1"), text("val2")])),
    ];
    assert_eq!(parse_yaml(&o), Ok(expected));
    assert_eq!(o, "---\nfield1: val1\narr:\n  - val1\n  - val2\n");
}

#[test]
fn to_yaml_keeps_booleans_null_and_numbers() {
    let input = r#"{"a":{"b":[true,null,1.5,-2,18446744073709551615]}}"#;
    assert_eq!(
        to_yaml(input),
        Ok("---\na:\n  b:\n    - true\n    - ~\n    - 1.5\n    - -2\n    - 18446744073709551615\n".to_string())
    );
}

#[test]
fn to_yaml_takes_any_root() {
    assert_eq!(to_yaml("\"x\""), Ok("---\nx\n".to_string()));
    assert_eq!(to_yaml("[1, 2]"), Ok("---\n- 1\n- 2\n".to_string()));
    assert_eq!(to_yaml("null"), Ok("---\n~\n".to_string()));
}

#[test]
fn printed_yaml_reads_back_as_the_same_tree() {
    let input = r#"{"name":"x","list":[1,-2,"three",{"deep":{"deeper":[true,null]}}],"n":2.25}"#;
    let printed = to_yaml(input).unwrap();
    let first = parse_yaml(input).unwrap();
    let second = parse_yaml(&printed).unwrap();
    assert_eq!(first, second);
    assert_eq!(to_yaml(&printed), Ok(printed));
}

#[test]
fn parse_json_accepts_json() {
    assert_eq!(parse_json(r#"{"field1":"val1","arr":["val1", "val2"]}"#), Ok(()));
    assert_eq!(parse_json("[]"), Ok(()));
    assert_eq!(parse_json("3"), Ok(()));
}

#[test]
fn parse_json_rejects_what_is_no_json() {
    let expected = serde_json::from_str::<serde_json::Value>("[1,2").unwrap_err().to_string();
    assert_eq!(expected, "EOF while parsing a list at line 1 column 4");
    assert_eq!(parse_json("[1,2"), Err(ConvertError::Parse(expected)));
    assert_eq!(
        parse_json(""),
        Err(ConvertError::Parse("EOF while parsing a value at line 1 column 0".to_string()))
    );
    assert!(matches!(parse_json("a: b"), Err(ConvertError::Parse(_))));
}

#[test]
fn to_yaml_reports_what_the_yaml_reader_refuses() {
    let input = r#"{"a":"\/"}"#;
    let expected = serde_yaml::from_str::<serde_yaml::Value>(input).unwrap_err().to_string();
    assert_eq!(
        expected,
        "while parsing a quoted scalar, found unknown escape character at line 1 column 6"
    );
    assert_eq!(to_yaml(input), Err(ConvertError::Parse(expected)));
}

#[test]
fn run_prints_the_yaml_document() {
    assert_eq!(
        run(r#"{"field1":"val1","arr":["val1", "val2"]}"#),
        Outcome::Print("---\nfield1: val1\narr:\n  - val1\n  - val2\n".to_string())
    );
}

#[test]
fn run_stops_on_malformed_json() {
    assert_eq!(
        run("[1,2"),
        Outcome::Abort(ConvertError::Parse("EOF while parsing a list at line 1 column 4".to_string()))
    );
    assert_eq!(
        run("field1: val1"),
        Outcome::Abort(ConvertError::Parse("expected ident at line 1 column 2".to_string()))
    );
}

#[test]
fn run_prints_the_message_of_a_later_failure() {
    assert_eq!(
        run(r#"{"a":"\/"}"#),
        Outcome::Print(
            "while parsing a quoted scalar, found unknown escape character at line 1 column 6"
                .to_string()
        )
    );
}
