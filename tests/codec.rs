use relconf::codec::{parse, serialize, ParseError, SerializeError};
use relconf::format::DetectedFormat;
use relconf::value::Node;

fn text(s: &str) -> Node {
    Node::Text(s.to_string())
}

fn num(s: &str) -> Node {
    Node::Number(s.to_string())
}

fn sample() -> Node {
    Node::Mapping(vec![
        (text("a"), num("2")),
        (text("flag"), Node::Bool(true)),
        (text("list"), Node::Sequence(vec![num("1"), num("2"), num("3"), num("4")])),
        (text("name"), text("x y")),
        (text("z"), Node::Mapping(vec![(text("f"), num("1.5"))])),
    ])
}

#[test]
fn parses_each_format() {
    let expected_copy = || {
        Node::Mapping(vec![(text("a"), num("1")), (text("list"), Node::Sequence(vec![num("1"), num("2")]))])
    };
    let expected = expected_copy();
    assert_eq!(parse("a: 1\nlist: [1, 2]\n", DetectedFormat::Yaml), Ok(expected_copy()));
    assert_eq!(parse("{\"a\": 1, \"list\": [1, 2]}", DetectedFormat::Json), Ok(expected_copy()));
    assert_eq!(parse("a = 1\nlist = [1, 2]\n", DetectedFormat::Toml), Ok(expected));
}

#[test]
fn yaml_tags_and_nulls_are_kept() {
    let v = parse("k: !t [1]\nn: ~\n", DetectedFormat::Yaml).unwrap();
    assert_eq!(
        v,
        Node::Mapping(vec![
            (text("k"), Node::Tagged("!t".to_string(), Box::new(Node::Sequence(vec![num("1")])))),
            (text("n"), Node::Null),
        ])
    );
}

#[test]
fn malformed_text_is_a_parse_error_of_its_format() {
    let e: ParseError = parse("a = [1", DetectedFormat::Toml).unwrap_err();
    assert_eq!(e.format, DetectedFormat::Toml);
    assert!(e.message().starts_with("Error parsing TOML: "));
    assert_eq!(parse("{", DetectedFormat::Json).unwrap_err().format, DetectedFormat::Json);
    assert_eq!(parse("a: [1", DetectedFormat::Yaml).unwrap_err().format, DetectedFormat::Yaml);
}

#[test]
fn round_trip_in_each_format() {
    for f in [DetectedFormat::Yaml, DetectedFormat::Json, DetectedFormat::Toml] {
        let written = serialize(&sample(), f).unwrap();
        assert_eq!(parse(&written, f), Ok(sample()), "format {:?}: {}", f, written);
    }
}

#[test]
fn json_output_is_pretty() {
    let v = Node::Mapping(vec![(text("a"), num("1"))]);
    assert_eq!(serialize(&v, DetectedFormat::Json), Ok("{\n  \"a\": 1\n}".to_string()));
    assert_eq!(serialize(&v, DetectedFormat::Yaml), Ok("a: 1\n".to_string()));
    assert_eq!(serialize(&v, DetectedFormat::Toml), Ok("a = 1\n".to_string()));
}

#[test]
fn toml_cannot_hold_a_top_level_scalar_or_sequence() {
    let tagged = |v: Node| Node::Tagged("!t".to_string(), Box::new(v));
    for v in [
        num("1"),
        text("s"),
        Node::Bool(false),
        Node::Sequence(vec![num("1")]),
        Node::Null,
        tagged(num("1")),
        tagged(Node::Sequence(vec![])),
        tagged(Node::Null),
    ] {
        let e: SerializeError = serialize(&v, DetectedFormat::Toml).unwrap_err();
        assert_eq!(e.format, DetectedFormat::Toml);
    }
    assert!(serialize(&num("1"), DetectedFormat::Json).is_ok());
    assert!(serialize(&Node::Sequence(vec![num("1")]), DetectedFormat::Yaml).is_ok());
}

#[test]
fn invalid_number_text_cannot_be_written() {
    let e = serialize(&Node::Mapping(vec![(text("a"), num("not a number"))]), DetectedFormat::Yaml).unwrap_err();
    assert_eq!(e.format, DetectedFormat::Yaml);
    assert!(e.message().starts_with("Error serializing YAML: "));
}

#[test]
fn json_and_toml_write_keys_in_sorted_order() {
    let v = Node::Mapping(vec![(text("b"), num("1")), (text("a"), num("2"))]);
    let sorted = || Node::Mapping(vec![(text("a"), num("2")), (text("b"), num("1"))]);
    for f in [DetectedFormat::Json, DetectedFormat::Toml] {
        assert_eq!(parse(&serialize(&v, f).unwrap(), f), Ok(sorted()));
    }
    let yaml = serialize(&v, DetectedFormat::Yaml).unwrap();
    assert_eq!(parse(&yaml, DetectedFormat::Yaml), Ok(v));
}

#[test]
fn tagged_mapping_is_a_toml_table() {
    let v = Node::Tagged("!t".to_string(), Box::new(Node::Mapping(vec![(text("a"), num("1"))])));
    assert_eq!(serialize(&v, DetectedFormat::Toml), Ok("a = 1\n".to_string()));
}

#[test]
fn empty_tag_cannot_be_written() {
    let bad = || Node::Mapping(vec![(text("k"), Node::Tagged(String::new(), Box::new(Node::Null)))]);
    for f in [DetectedFormat::Yaml, DetectedFormat::Json, DetectedFormat::Toml] {
        let e = serialize(&bad(), f).unwrap_err();
        assert_eq!(e.format, f);
        assert_eq!(e.cause, "a tag is empty");
    }
    let ok = Node::Tagged("!t".to_string(), Box::new(Node::Null));
    assert!(serialize(&ok, DetectedFormat::Yaml).is_ok());
}
