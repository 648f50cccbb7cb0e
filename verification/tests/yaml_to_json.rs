use jsontoyaml::convert::yaml_to_json::{
    create_json_value, number_from_float, parse_yaml, run, to_json, to_json_object,
};
use jsontoyaml::error::{ConvertError, Outcome};
use jsontoyaml::json::JsonValue;
use jsontoyaml::yaml::YamlValue;

fn text(s: &str) -> YamlValue {
    YamlValue::String(s.to_string())
}

fn json_text(s: &str) -> JsonValue {
    JsonValue::String(s.to_string())
}

fn float(x: f64) -> YamlValue {
    YamlValue::Float(serde_yaml::Number::from(x))
}

fn json_float(x: f64) -> JsonValue {
    JsonValue::Float(serde_json::Number::from_f64(x).unwrap())
}

#[test]
fn boolean_becomes_string() {
    let mapping = vec![(text("k"), YamlValue::Bool(true)), (text("l"), YamlValue::Bool(false))];
    let expected = JsonValue::Object(vec![
        ("k".to_string(), json_text("true")),
        ("l".to_string(), json_text("false")),
    ]);
    assert_eq!(to_json_object(&mapping), Ok(expected));
    assert_eq!(to_json(&mapping), Ok(r#"{"k":"true","l":"false"}"#.to_string()));
    assert_eq!(create_json_value(&YamlValue::Bool(true)), Ok(json_text("true")));
    assert_eq!(create_json_value(&YamlValue::Bool(false)), Ok(json_text("false")));
}

#[test]
fn null_becomes_string() {
    let mapping = vec![(text("k"), YamlValue::Null)];
    let expected = JsonValue::Object(vec![("k".to_string(), json_text("null"))]);
    assert_eq!(to_json_object(&mapping), Ok(expected));
    assert_eq!(to_json(&mapping), Ok(r#"{"k":"null"}"#.to_string()));
    assert_eq!(create_json_value(&YamlValue::Null), Ok(json_text("null")));
}

#[test]
fn string_keeps_its_value() {
    assert_eq!(create_json_value(&text("")), Ok(json_text("")));
    assert_eq!(create_json_value(&text("true")), Ok(json_text("true")));
    assert_eq!(create_json_value(&text("a\nb \u{e9}")), Ok(json_text("a\nb \u{e9}")));
}

#[test]
fn integers_keep_their_value() {
    assert_eq!(create_json_value(&YamlValue::Int(i64::MIN)), Ok(JsonValue::Int(i64::MIN)));
    assert_eq!(create_json_value(&YamlValue::Int(-1)), Ok(JsonValue::Int(-1)));
    assert_eq!(create_json_value(&YamlValue::Int(0)), Ok(JsonValue::Int(0)));
    assert_eq!(create_json_value(&YamlValue::Int(i64::MAX)), Ok(JsonValue::Int(i64::MAX)));
    assert_eq!(create_json_value(&YamlValue::UInt(u64::MAX)), Ok(JsonValue::UInt(u64::MAX)));
    let mapping = vec![
        (text("a"), YamlValue::Int(i64::MIN)),
        (text("b"), YamlValue::UInt(u64::MAX)),
        (text("c"), YamlValue::UInt(5)),
        (text("d"), YamlValue::Int(5)),
    ];
    assert_eq!(
        to_json(&mapping),
        Ok(r#"{"a":-9223372036854775808,"b":18446744073709551615,"c":5,"d":5}"#.to_string())
    );
}

#[test]
fn float_keeps_its_value() {
    assert_eq!(create_json_value(&float(1.5)), Ok(json_float(1.5)));
    assert_eq!(create_json_value(&float(-0.125)), Ok(json_float(-0.125)));
    assert_eq!(create_json_value(&float(1e300)), Ok(json_float(1e300)));
    assert_ne!(create_json_value(&float(1.5)), Ok(json_float(2.5)));
    let mapping = vec![(text("x"), float(1.5)), (text("y"), float(1e300))];
    assert_eq!(to_json(&mapping), Ok(r#"{"x":1.5,"y":1e+300}"#.to_string()));
}

#[test]
fn float_without_a_json_value_is_out_of_range() {
    assert_eq!(create_json_value(&float(f64::NAN)), Err(ConvertError::NumericRange));
    assert_eq!(create_json_value(&float(f64::INFINITY)), Err(ConvertError::NumericRange));
    assert_eq!(create_json_value(&float(f64::NEG_INFINITY)), Err(ConvertError::NumericRange));
    let mapping = vec![(text("x"), float(f64::NAN))];
    assert_eq!(to_json_object(&mapping), Err(ConvertError::NumericRange));
    assert_eq!(to_json(&mapping), Err(ConvertError::NumericRange));
    assert_eq!(run("a: .nan\n"), Outcome::Abort(ConvertError::NumericRange));
    assert_eq!(run("a: [1, {b: -.inf}]\n"), Outcome::Abort(ConvertError::NumericRange));
}

#[test]
fn number_from_float_takes_what_the_number_library_gave() {
    let n = serde_json::Number::from_f64(2.5).unwrap();
    assert_eq!(number_from_float(Some(n.clone())), Ok(JsonValue::Float(n)));
    assert_eq!(number_from_float(None), Err(ConvertError::NumericRange));
}

#[test]
fn sequence_of_scalars_keeps_order() {
    let items = vec![
        text("a"),
        YamlValue::Bool(false),
        YamlValue::Null,
        YamlValue::Int(-7),
        YamlValue::UInt(7),
        float(0.5),
    ];
    let mapping = vec![(text("arr"), YamlValue::Sequence(items))];
    let expected = JsonValue::Object(vec![(
        "arr".to_string(),
        JsonValue::Array(vec![
            json_text("a"),
            json_text("false"),
            json_text("null"),
            JsonValue::Int(-7),
            JsonValue::UInt(7),
            json_float(0.5),
        ]),
    )]);
    assert_eq!(to_json_object(&mapping), Ok(expected));
    assert_eq!(to_json(&mapping), Ok(r#"{"arr":["a","false","null",-7,7,0.5]}"#.to_string()));
}

#[test]
fn every_mapping_in_a_sequence_appears() {
    let items = vec![
        YamlValue::Mapping(vec![(text("a"), YamlValue::Int(1))]),
        text("between"),
        YamlValue::Mapping(vec![(text("b"), YamlValue::Bool(true))]),
        YamlValue::Mapping(vec![]),
        YamlValue::Mapping(vec![(text("c"), YamlValue::Null), (text("d"), text("e"))]),
    ];
    let mapping = vec![(text("k"), YamlValue::Sequence(items))];
    let expected = JsonValue::Object(vec![(
        "k".to_string(),
        JsonValue::Array(vec![
            JsonValue::Object(vec![("a".to_string(), JsonValue::Int(1))]),
            json_text("between"),
            JsonValue::Object(vec![("b".to_string(), json_text("true"))]),
            JsonValue::Object(vec![]),
            JsonValue::Object(vec![
                ("c".to_string(), json_text("null")),
                ("d".to_string(), json_text("e")),
            ]),
        ]),
    )]);
    assert_eq!(to_json_object(&mapping), Ok(expected));
    assert_eq!(
        to_json(&mapping),
        Ok(r#"{"k":[{"a":1},"between",{"b":"true"},{},{"c":"null","d":"e"}]}"#.to_string())
    );
}

#[test]
fn nested_mappings_keep_their_depth() {
    let innermost = YamlValue::Mapping(vec![(text("d"), YamlValue::Bool(true))]);
    let inner = YamlValue::Mapping(vec![(text("c"), innermost), (text("c2"), YamlValue::Int(3))]);
    let outer = YamlValue::Mapping(vec![(text("b"), inner)]);
    let mapping = vec![(text("a"), outer), (text("z"), text("end"))];
    let expected = JsonValue::Object(vec![
        (
            "a".to_string(),
            JsonValue::Object(vec![(
                "b".to_string(),
                JsonValue::Object(vec![
                    ("c".to_string(), JsonValue::Object(vec![("d".to_string(), json_text("true"))])),
                    ("c2".to_string(), JsonValue::Int(3)),
                ]),
            )]),
        ),
        ("z".to_string(), json_text("end")),
    ]);
    assert_eq!(to_json_object(&mapping), Ok(expected));
    assert_eq!(
        to_json(&mapping),
        Ok(r#"{"a":{"b":{"c":{"d":"true"},"c2":3}},"z":"end"}"#.to_string())
    );
}

#[test]
fn sequence_in_a_sequence_becomes_array_in_an_array() {
    let inner = YamlValue::Sequence(vec![YamlValue::Int(2), YamlValue::Sequence(vec![])]);
    let mapping = vec![(text("a"), YamlValue::Sequence(vec![YamlValue::Int(1), inner]))];
    assert_eq!(to_json(&mapping), Ok(r#"{"a":[1,[2,[]]]}"#.to_string()));
    assert_eq!(run("a: [1, [2, 3]]\n"), Outcome::Print(r#"{"a":[1,[2,3]]}"#.to_string()));
}

#[test]
fn empty_mapping_and_empty_sequence() {
    assert_eq!(to_json_object(&vec![]), Ok(JsonValue::Object(vec![])));
    assert_eq!(to_json(&vec![]), Ok("{}".to_string()));
    let mapping = vec![(text("a"), YamlValue::Sequence(vec![]))];
    assert_eq!(to_json(&mapping), Ok(r#"{"a":[]}"#.to_string()));
    assert_eq!(run("{}"), Outcome::Print("{}".to_string()));
}

#[test]
fn key_must_be_a_string() {
    for key in [
        YamlValue::Int(1),
        YamlValue::UInt(1),
        YamlValue::Bool(true),
        YamlValue::Null,
        float(1.5),
        YamlValue::Sequence(vec![text("a")]),
        YamlValue::Mapping(vec![]),
    ] {
        let mapping = vec![(text("first"), YamlValue::Int(0)), (key, text("x"))];
        assert_eq!(to_json_object(&mapping), Err(ConvertError::KeyType));
        assert_eq!(to_json(&mapping), Err(ConvertError::KeyType));
    }
    let nested = vec![(
        text("a"),
        YamlValue::Sequence(vec![YamlValue::Mapping(vec![(YamlValue::Int(1), text("x"))])]),
    )];
    assert_eq!(to_json_object(&nested), Err(ConvertError::KeyType));
    assert_eq!(run("1: x\ntrue: y\n"), Outcome::Abort(ConvertError::KeyType));
    assert_eq!(run("? [1, 2]\n: x\n"), Outcome::Abort(ConvertError::KeyType));
}

#[test]
fn first_failure_decides() {
    let key_first = vec![(YamlValue::Int(1), text("x")), (text("k"), float(f64::NAN))];
    assert_eq!(to_json_object(&key_first), Err(ConvertError::KeyType));
    let number_first = vec![(text("k"), float(f64::NAN)), (YamlValue::Int(1), text("x"))];
    assert_eq!(to_json_object(&number_first), Err(ConvertError::NumericRange));
    let key_before_value = vec![(YamlValue::Int(1), float(f64::NAN))];
    assert_eq!(to_json_object(&key_before_value), Err(ConvertError::KeyType));
    let deep_first = vec![
        (text("a"), YamlValue::Sequence(vec![text("ok"), float(f64::INFINITY)])),
        (YamlValue::Null, text("x")),
    ];
    assert_eq!(to_json_object(&deep_first), Err(ConvertError::NumericRange));
}

#[test]
fn later_key_replaces_earlier() {
    let mapping = vec![
        (text("a"), YamlValue::Int(1)),
        (text("b"), YamlValue::Int(2)),
        (text("a"), YamlValue::Int(3)),
    ];
    assert_eq!(to_json(&mapping), Ok(r#"{"a":3,"b":2}"#.to_string()));
}

#[test]
fn keys_are_printed_in_order_of_key() {
    let mapping = vec![
        (text("b"), YamlValue::Int(1)),
        (text("a"), YamlValue::Int(2)),
        (text("c"), YamlValue::Int(3)),
    ];
    assert_eq!(to_json(&mapping), Ok(r#"{"a":2,"b":1,"c":3}"#.to_string()));
}

#[test]
fn test_to_json() {
    let raw_input = r#"---
json:
  - rigid
  - better for data interchange
yaml:
  - slim and flexible
  - better for configuration
object:
  key: value
  array:
    - null_value:
    - array:
      - test
      - test123: hey
    - boolean: true
    - integer: 1
paragraph: >
   Blank lines denote

   paragraph breaks
content: |-
   Or we
   can auto
   convert line breaks
   to save space"#;
    let input = parse_yaml(raw_input).unwrap();
    let expected = r#"{"content":"Or we\ncan auto\nconvert line breaks\nto save space","json":["rigid","better for data interchange"],"object":{"array":[{"null_value":"null"},{"array":["test",{"test123":"hey"}]},{"boolean":"true"},{"integer":1}],"key":"value"},"paragraph":"Blank lines denote\nparagraph breaks\n","yaml":["slim and flexible","better for configuration"]}"#;

    let o = match to_json(&input) {
        Ok(s) => s,
        Err(_) => panic!(),
    };

    assert_eq!(o, expected);
}

#[test]
fn parse_yaml_reads_the_tree() {
    let input = "a: 1\nb: -1\nc: 18446744073709551615\nd: 1.5\ne: true\nf: ~\ng: text\nh: [x, {y: z}]\n";
    let expected = vec![
        (text("a"), YamlValue::Int(1)),
        (text("b"), YamlValue::Int(-1)),
        (text("c"), YamlValue::UInt(u64::MAX)),
        (text("d"), float(1.5)),
        (text("e"), YamlValue::Bool(true)),
        (text("f"), YamlValue::Null),
        (text("g"), text("text")),
        (
            text("h"),
            YamlValue::Sequence(vec![text("x"), YamlValue::Mapping(vec![(text("y"), text("z"))])]),
        ),
    ];
    assert_eq!(parse_yaml(input), Ok(expected));
}

#[test]
fn parse_yaml_keeps_keys_that_are_no_strings() {
    let expected = vec![(YamlValue::Int(1), text("x")), (YamlValue::Bool(true), text("y"))];
    assert_eq!(parse_yaml("1: x\ntrue: y\n"), Ok(expected));
}

#[test]
fn malformed_yaml_is_a_parse_failure() {
    let input = "a: : :";
    let expected = serde_yaml::from_str::<serde_yaml::Value>(input).unwrap_err().to_string();
    assert_eq!(expected, "mapping values are not allowed in this context at line 1 column 4");
    assert_eq!(parse_yaml(input), Err(ConvertError::Parse(expected.clone())));
    assert_eq!(run(input), Outcome::Abort(ConvertError::Parse(expected)));
    assert_eq!(
        parse_yaml(""),
        Err(ConvertError::Parse("EOF while parsing a value".to_string()))
    );
    assert!(matches!(run("a: [1, 2"), Outcome::Abort(ConvertError::Parse(_))));
}

#[test]
fn root_must_be_a_mapping() {
    for input in ["x", "3", "true", "~", "- a\n- b\n", "[]", "\"a: b\""] {
        assert_eq!(parse_yaml(input), Err(ConvertError::NonMappingTopLevel));
        assert_eq!(run(input), Outcome::Abort(ConvertError::NonMappingTopLevel));
    }
}

#[test]
fn run_prints_the_json_document() {
    assert_eq!(
        run("a: 1.5\nb: [x, -2]\nc: {d: false, e: ~}\n"),
        Outcome::Print(r#"{"a":1.5,"b":["x",-2],"c":{"d":"false","e":"null"}}"#.to_string())
    );
}

#[test]
fn each_failure_has_its_text() {
    assert_eq!(ConvertError::Parse("p".to_string()).message(), "p");
    assert_eq!(ConvertError::Serialize("s".to_string()).message(), "s");
    assert_eq!(ConvertError::NonMappingTopLevel.message(), "the document is not a mapping");
    assert_eq!(ConvertError::KeyType.message(), "could not parse yaml key");
    assert_eq!(ConvertError::NumericRange.message(), "could not parse serde_json::Number");
}
