use aleph_syntax_tree::codec::{decode, encode, DecodeError};
use aleph_syntax_tree::json::{parse_json, render_json, Json, JsonTextError};
use aleph_syntax_tree::names::{kind_named, Field, NodeKind};
use aleph_syntax_tree::syntax::{boxed, json_parse, to_json, AlephTree, ParseError, ValueError};

fn int_node(text: &str) -> AlephTree {
    AlephTree::Int { value: text.to_string() }
}

fn text(s: &str) -> Json {
    Json::Text(s.to_string())
}

fn record(entries: Vec<(&str, Json)>) -> Json {
    Json::Record(entries.into_iter().map(|(k, v)| (k.to_string(), v)).collect())
}

#[test]
fn literals_give_their_text() {
    assert_eq!(int_node("0042").to_string_value(), "0042");
    assert_eq!(AlephTree::Float { value: "1.50".to_string() }.to_string_value(), "1.50");
    assert_eq!(AlephTree::Bool { value: "true".to_string() }.to_string_value(), "true");
    assert_eq!(AlephTree::String { value: "a b".to_string() }.to_string_value(), "a b");
    assert_eq!(AlephTree::Ident { value: "x_1".to_string() }.to_string_value(), "x_1");
    assert_eq!(int_node("").to_string_value(), "");
}

#[test]
fn bytes_give_the_text_they_encode() {
    let hello = AlephTree::Bytes { elems: vec![104, 195, 169, 33] };
    assert_eq!(hello.to_string_value(), "h\u{e9}!");
    assert_eq!(hello.text_value(), Ok("h\u{e9}!".to_string()));
    assert_eq!(AlephTree::Bytes { elems: vec![] }.text_value(), Ok(String::new()));
}

#[test]
fn bytes_that_are_not_utf8_have_no_text() {
    assert_eq!(AlephTree::Bytes { elems: vec![104, 255] }.text_value(), Err(ValueError::InvalidUtf8));
    assert_eq!(AlephTree::Bytes { elems: vec![195] }.text_value(), Err(ValueError::InvalidUtf8));
}

#[test]
fn structural_nodes_have_no_text() {
    let sum = AlephTree::Add { number_expr1: Box::new(int_node("1")), number_expr2: Box::new(int_node("2")) };
    assert_eq!(sum.text_value(), Err(ValueError::NotALiteral));
    assert_eq!(AlephTree::Unit.text_value(), Err(ValueError::NotALiteral));
    let complex = AlephTree::Complex { real: "1".to_string(), imag: "2".to_string() };
    assert_eq!(complex.text_value(), Err(ValueError::NotALiteral));
}

#[test]
fn default_node_is_unit() {
    assert_eq!(AlephTree::default(), AlephTree::Unit);
}

#[test]
fn kind_of_a_node() {
    assert_eq!(int_node("1").kind(), NodeKind::Int);
    assert_eq!(AlephTree::Unit.kind(), NodeKind::Unit);
    assert_eq!(AlephTree::Return { value: Box::new(AlephTree::Unit) }.kind(), NodeKind::Return);
}

#[test]
fn copies_are_equal() {
    let tree = AlephTree::Clss {
        name: "C".to_string(),
        attribute_list: vec!["a".to_string(), "b".to_string()],
        body: Box::new(AlephTree::Array { elems: vec![Box::new(int_node("1")), Box::new(AlephTree::Bytes { elems: vec![1, 2] })] }),
    };
    assert_eq!(tree.clone(), tree);
    assert_eq!(tree.copy(), tree);
}

#[test]
fn boxed_keeps_the_order() {
    assert_eq!(boxed(vec![int_node("1"), AlephTree::Unit, int_node("3")]), vec![Box::new(int_node("1")), Box::new(AlephTree::Unit), Box::new(int_node("3"))]);
    assert_eq!(boxed(vec![]), Vec::<Box<AlephTree>>::new());
}

#[test]
fn written_text_of_a_sum() {
    let sum = AlephTree::Add { number_expr1: Box::new(int_node("1")), number_expr2: Box::new(int_node("2")) };
    let expected = "{\n  \"type\": \"Add\",\n  \"number_expr1\": {\n    \"type\": \"Int\",\n    \"value\": \"1\"\n  },\n  \"number_expr2\": {\n    \"type\": \"Int\",\n    \"value\": \"2\"\n  }\n}";
    assert_eq!(to_json(sum), expected);
}

#[test]
fn written_text_of_atoms_and_lists() {
    assert_eq!(to_json(AlephTree::Unit), "{\n  \"type\": \"Unit\"\n}");
    assert_eq!(
        to_json(AlephTree::Bytes { elems: vec![104, 105] }),
        "{\n  \"type\": \"Bytes\",\n  \"elems\": [\n    104,\n    105\n  ]\n}"
    );
    assert_eq!(to_json(AlephTree::Tuple { elems: vec![] }), "{\n  \"type\": \"Tuple\",\n  \"elems\": []\n}");
    assert_eq!(
        to_json(AlephTree::Iprt { name: "a\"b".to_string() }),
        "{\n  \"type\": \"Iprt\",\n  \"name\": \"a\\\"b\"\n}"
    );
}

#[test]
fn written_names_are_the_current_ones() {
    let tree = AlephTree::If {
        condition: Box::new(AlephTree::Not { bool_expr: Box::new(AlephTree::Bool { value: "true".to_string() }) }),
        then: Box::new(int_node("1")),
        els: Box::new(AlephTree::Clss { name: "C".to_string(), attribute_list: vec![], body: Box::new(AlephTree::Unit) }),
    };
    let text = to_json(tree);
    for name in ["\"If\"", "\"condition\"", "\"then\"", "\"els\"", "\"Not\"", "\"bool_expr\"", "\"Clss\"", "\"attribute_list\"", "\"Int\""] {
        assert!(text.contains(name), "{}", name);
    }
    for name in ["\"else\"", "boolExpr", "\"Class\"", "attributList", "\"Integer\""] {
        assert!(!text.contains(name), "{}", name);
    }
}

#[test]
fn encode_gives_the_tag_and_the_fields_in_order() {
    let node = AlephTree::Remove { array_name: "a".to_string(), elem: Box::new(int_node("0")), is_value: "false".to_string() };
    assert_eq!(
        encode(&node),
        record(vec![
            ("type", text("Remove")),
            ("array_name", text("a")),
            ("elem", record(vec![("type", text("Int")), ("value", text("0"))])),
            ("is_value", text("false")),
        ])
    );
    assert_eq!(
        encode(&AlephTree::Bytes { elems: vec![0, 255] }),
        record(vec![("type", text("Bytes")), ("elems", Json::List(vec![Json::UInt(0), Json::UInt(255)]))])
    );
}

#[test]
fn older_tags_are_read_as_the_current_ones() {
    assert_eq!(json_parse("{\"type\": \"Integer\", \"value\": \"7\"}".to_string()), Ok(int_node("7")));
    assert_eq!(json_parse("{\"type\": \"Int\", \"value\": \"7\"}".to_string()), Ok(int_node("7")));
    assert_eq!(
        json_parse("{\"type\": \"Import\", \"name\": \"m\"}".to_string()),
        Ok(AlephTree::Iprt { name: "m".to_string() })
    );
    assert_eq!(
        json_parse("{\"type\": \"Class\", \"name\": \"C\", \"attributList\": [\"x\"], \"body\": {\"type\": \"Unit\"}}".to_string()),
        Ok(AlephTree::Clss { name: "C".to_string(), attribute_list: vec!["x".to_string()], body: Box::new(AlephTree::Unit) })
    );
}

#[test]
fn older_keys_are_read_as_the_current_ones() {
    let older = "{\"type\":\"While\",\"initExpr\":{\"type\":\"Unit\"},\"condition\":{\"type\":\"Bool\",\"value\":\"true\"},\"loopExpr\":{\"type\":\"Break\"},\"postExpr\":{\"type\":\"Continue\"}}";
    let current = "{\"type\":\"While\",\"init_expr\":{\"type\":\"Unit\"},\"condition\":{\"type\":\"Bool\",\"value\":\"true\"},\"loop_expr\":{\"type\":\"Break\"},\"post_expr\":{\"type\":\"Continue\"}}";
    let expected = AlephTree::While {
        init_expr: Box::new(AlephTree::Unit),
        condition: Box::new(AlephTree::Bool { value: "true".to_string() }),
        loop_expr: Box::new(AlephTree::Break),
        post_expr: Box::new(AlephTree::Continue),
    };
    assert_eq!(json_parse(older.to_string()), Ok(expected.clone()));
    assert_eq!(json_parse(current.to_string()), Ok(expected));
    let cases = [
        ("Not", "bool_expr", "boolExpr"),
        ("Neg", "expr", "expr"),
    ];
    for (tag, key, legacy) in cases {
        let a = format!("{{\"type\":\"{}\",\"{}\":{{\"type\":\"Unit\"}}}}", tag, key);
        let b = format!("{{\"type\":\"{}\",\"{}\":{{\"type\":\"Unit\"}}}}", tag, legacy);
        assert_eq!(json_parse(a), json_parse(b));
    }
    assert_eq!(
        json_parse("{\"type\":\"If\",\"condition\":{\"type\":\"Unit\"},\"then\":{\"type\":\"Unit\"},\"else\":{\"type\":\"Break\"}}".to_string()),
        Ok(AlephTree::If { condition: Box::new(AlephTree::Unit), then: Box::new(AlephTree::Unit), els: Box::new(AlephTree::Break) })
    );
    assert_eq!(
        json_parse("{\"type\":\"App\",\"objectName\":\"o\",\"fun\":{\"type\":\"Unit\"},\"paramList\":[]}".to_string()),
        Ok(AlephTree::App { object_name: "o".to_string(), fun: Box::new(AlephTree::Unit), param_list: vec![] })
    );
    assert_eq!(
        json_parse("{\"type\":\"Var\",\"var\":\"v\",\"isPointer\":\"true\"}".to_string()),
        Ok(AlephTree::Var { var: "v".to_string(), is_pointer: "true".to_string() })
    );
}

#[test]
fn fields_may_come_in_any_order_and_others_are_passed_over() {
    assert_eq!(
        json_parse("{\"value\": \"7\", \"comment\": [1.5, null, {\"type\": 3}], \"type\": \"Int\"}".to_string()),
        Ok(int_node("7"))
    );
    assert_eq!(json_parse("{\"type\": \"Unit\", \"value\": 3}".to_string()), Ok(AlephTree::Unit));
}

#[test]
fn text_that_is_not_json() {
    assert_eq!(
        json_parse("{\"type\": \"Unit\"".to_string()),
        Err(ParseError::Syntax(JsonTextError { line: 1, column: 15 }))
    );
    assert!(matches!(json_parse("".to_string()), Err(ParseError::Syntax(_))));
    assert!(matches!(json_parse("{\"type\": \"Unit\"} x".to_string()), Err(ParseError::Syntax(_))));
    assert_eq!(parse_json("[1,\n 2,\n x]"), Err(JsonTextError { line: 3, column: 2 }));
}

#[test]
fn documents_that_are_no_nodes() {
    let structure = |text: &str| match json_parse(text.to_string()) {
        Err(ParseError::Structure(e)) => e,
        other => panic!("{:?}", other),
    };
    assert_eq!(structure("[]"), DecodeError::NotARecord);
    assert_eq!(structure("\"Unit\""), DecodeError::NotARecord);
    assert_eq!(structure("null"), DecodeError::NotARecord);
    assert_eq!(structure("{}"), DecodeError::Missing(Field::Type));
    assert_eq!(structure("{\"type\": 3}"), DecodeError::Mistyped(Field::Type));
    assert_eq!(structure("{\"type\": \"Foo\"}"), DecodeError::UnknownKind("Foo".to_string()));
    assert_eq!(structure("{\"type\": \"int\", \"value\": \"1\"}"), DecodeError::UnknownKind("int".to_string()));
    assert_eq!(structure("{\"type\": \"Int\"}"), DecodeError::Missing(Field::Value));
    assert_eq!(structure("{\"type\": \"Int\", \"value\": 1}"), DecodeError::Mistyped(Field::Value));
    assert_eq!(structure("{\"type\": \"Neg\", \"expr\": \"x\"}"), DecodeError::NotARecord);
    assert_eq!(structure("{\"type\": \"Neg\", \"expr\": {\"type\": \"Int\"}}"), DecodeError::Missing(Field::Value));
    assert_eq!(structure("{\"type\": \"Tuple\", \"elems\": {}}"), DecodeError::Mistyped(Field::Elems));
    assert_eq!(structure("{\"type\": \"Tuple\", \"elems\": [{\"type\": \"Unit\"}, 3]}"), DecodeError::NotARecord);
    assert_eq!(structure("{\"type\": \"Add\", \"number_expr2\": {\"type\": \"Unit\"}}"), DecodeError::Missing(Field::NumberExpr1));
    assert_eq!(structure("{\"type\": \"Add\", \"number_expr1\": {\"type\": \"Unit\"}}"), DecodeError::Missing(Field::NumberExpr2));
    assert_eq!(
        structure("{\"type\": \"Clss\", \"name\": \"C\", \"attribute_list\": [\"a\", 1], \"body\": {\"type\": \"Unit\"}}"),
        DecodeError::Mistyped(Field::AttributeList)
    );
}

#[test]
fn bytes_must_be_numbers_from_0_to_255() {
    let bytes = |list: &str| json_parse(format!("{{\"type\": \"Bytes\", \"elems\": {}}}", list));
    assert_eq!(bytes("[0, 255]"), Ok(AlephTree::Bytes { elems: vec![0, 255] }));
    assert_eq!(bytes("[]"), Ok(AlephTree::Bytes { elems: vec![] }));
    for list in ["[256]", "[-1]", "[1.0]", "[\"1\"]", "[1, null]", "\"ab\"", "[18446744073709551615]"] {
        assert_eq!(bytes(list), Err(ParseError::Structure(DecodeError::Mistyped(Field::Elems))), "{}", list);
    }
}

#[test]
fn a_field_given_twice_is_refused() {
    let doc = record(vec![
        ("type", text("Not")),
        ("bool_expr", record(vec![("type", text("Unit"))])),
        ("boolExpr", record(vec![("type", text("Break"))])),
    ]);
    assert_eq!(decode(&doc), Err(DecodeError::Repeated(Field::BoolExpr)));
    let doc = record(vec![("type", text("Unit")), ("type", text("Unit"))]);
    assert_eq!(decode(&doc), Err(DecodeError::Repeated(Field::Type)));
    let doc = record(vec![("type", text("Int")), ("value", text("1")), ("value", text("2"))]);
    assert_eq!(decode(&doc), Err(DecodeError::Repeated(Field::Value)));
    assert_eq!(
        json_parse("{\"type\":\"Not\",\"bool_expr\":{\"type\":\"Unit\"},\"boolExpr\":{\"type\":\"Unit\"}}".to_string()),
        Err(ParseError::Structure(DecodeError::Repeated(Field::BoolExpr)))
    );
}

#[test]
fn tags_and_keys_by_name() {
    assert_eq!(kind_named("Int"), Some(NodeKind::Int));
    assert_eq!(kind_named("Integer"), Some(NodeKind::Int));
    assert_eq!(kind_named("Import"), Some(NodeKind::Iprt));
    assert_eq!(kind_named("Class"), Some(NodeKind::Clss));
    assert_eq!(kind_named("CommentMulti"), Some(NodeKind::CommentMulti));
    assert_eq!(kind_named("Comment "), None);
    assert_eq!(kind_named(""), None);
    assert_eq!(NodeKind::LE.name(), "LE");
    assert_eq!(NodeKind::Int.legacy_name(), Some("Integer"));
    assert_eq!(NodeKind::Add.legacy_name(), None);
    assert_eq!(Field::Els.name(), "els");
    assert_eq!(Field::Els.legacy_name(), Some("else"));
    assert_eq!(Field::Then.legacy_name(), None);
    assert!(Field::AttributeList.is_named("attributList"));
    assert!(Field::AttributeList.is_named("attribute_list"));
    assert!(!Field::AttributeList.is_named("attributeList"));
}

#[test]
fn json_text_is_read_as_plain_data() {
    let j = parse_json("{\"b\": 1, \"a\": [true, null, -2, 1.5, \"x\", 18446744073709551615]}").unwrap();
    assert_eq!(
        j,
        record(vec![
            ("b", Json::UInt(1)),
            (
                "a",
                Json::List(vec![
                    Json::Bool(true),
                    Json::Null,
                    Json::NInt(-2),
                    Json::Real("1.5".to_string()),
                    text("x"),
                    Json::UInt(18446744073709551615),
                ])
            ),
        ])
    );
}

#[test]
fn plain_data_is_written_as_json_text() {
    let doc = record(vec![
        ("b", Json::UInt(1)),
        ("a", Json::List(vec![Json::Bool(false), Json::Null, Json::NInt(-2), Json::Real("1.5".to_string()), text("x\n")])),
    ]);
    assert_eq!(
        render_json(&doc),
        Some("{\n  \"b\": 1,\n  \"a\": [\n    false,\n    null,\n    -2,\n    1.5,\n    \"x\\n\"\n  ]\n}".to_string())
    );
    assert_eq!(render_json(&Json::Real("not a number".to_string())), None);
    assert_eq!(render_json(&Json::List(vec![Json::Real("".to_string())])), None);
}
