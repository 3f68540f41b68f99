use aleph_syntax_tree::codec::{decode, encode};
use aleph_syntax_tree::syntax::{json_parse, to_json, AlephTree};

fn leaf(text: &str) -> Box<AlephTree> {
    Box::new(AlephTree::Ident { value: text.to_string() })
}

fn read_back(tree: AlephTree) {
    let doc = encode(&tree);
    assert_eq!(decode(&doc), Ok(tree.clone()));
    let text = to_json(tree.clone());
    let again = json_parse(text.clone()).unwrap();
    assert_eq!(again, tree);
    assert_eq!(to_json(again), text);
}

#[test]
fn unit_is_read_back() {
    read_back(AlephTree::Unit);
}

#[test]
fn break_is_read_back() {
    read_back(AlephTree::Break);
}

#[test]
fn continue_is_read_back() {
    read_back(AlephTree::Continue);
}

#[test]
fn ellipsis_is_read_back() {
    read_back(AlephTree::Ellipsis);
}

#[test]
fn int_is_read_back() {
    read_back(AlephTree::Int {
        value: "value 0 \"q\" \u{e9}".to_string(),
    });
}

#[test]
fn float_is_read_back() {
    read_back(AlephTree::Float {
        value: "value 0 \"q\" \u{e9}".to_string(),
    });
}

#[test]
fn bool_is_read_back() {
    read_back(AlephTree::Bool {
        value: "value 0 \"q\" \u{e9}".to_string(),
    });
}

#[test]
fn string_is_read_back() {
    read_back(AlephTree::String {
        value: "value 0 \"q\" \u{e9}".to_string(),
    });
}

#[test]
fn ident_is_read_back() {
    read_back(AlephTree::Ident {
        value: "value 0 \"q\" \u{e9}".to_string(),
    });
}

#[test]
fn bytes_is_read_back() {
    read_back(AlephTree::Bytes {
        elems: vec![0, 1, 127, 128, 255],
    });
}

#[test]
fn complex_is_read_back() {
    read_back(AlephTree::Complex {
        real: "real 0 \"q\" \u{e9}".to_string(),
        imag: "imag 1 \"q\" \u{e9}".to_string(),
    });
}

#[test]
fn tuple_is_read_back() {
    read_back(AlephTree::Tuple {
        elems: vec![leaf("a"), Box::new(AlephTree::Unit), leaf("b")],
    });
}

#[test]
fn array_is_read_back() {
    read_back(AlephTree::Array {
        elems: vec![leaf("a"), Box::new(AlephTree::Unit), leaf("b")],
    });
}

#[test]
fn neg_is_read_back() {
    read_back(AlephTree::Neg {
        expr: leaf("expr"),
    });
}

#[test]
fn not_is_read_back() {
    read_back(AlephTree::Not {
        bool_expr: leaf("bool_expr"),
    });
}

#[test]
fn and_is_read_back() {
    read_back(AlephTree::And {
        bool_expr1: leaf("bool_expr1"),
        bool_expr2: leaf("bool_expr2"),
    });
}

#[test]
fn or_is_read_back() {
    read_back(AlephTree::Or {
        bool_expr1: leaf("bool_expr1"),
        bool_expr2: leaf("bool_expr2"),
    });
}

#[test]
fn add_is_read_back() {
    read_back(AlephTree::Add {
        number_expr1: leaf("number_expr1"),
        number_expr2: leaf("number_expr2"),
    });
}

#[test]
fn sub_is_read_back() {
    read_back(AlephTree::Sub {
        number_expr1: leaf("number_expr1"),
        number_expr2: leaf("number_expr2"),
    });
}

#[test]
fn mul_is_read_back() {
    read_back(AlephTree::Mul {
        number_expr1: leaf("number_expr1"),
        number_expr2: leaf("number_expr2"),
    });
}

#[test]
fn div_is_read_back() {
    read_back(AlephTree::Div {
        number_expr1: leaf("number_expr1"),
        number_expr2: leaf("number_expr2"),
    });
}

#[test]
fn eq_is_read_back() {
    read_back(AlephTree::Eq {
        expr1: leaf("expr1"),
        expr2: leaf("expr2"),
    });
}

#[test]
fn le_is_read_back() {
    read_back(AlephTree::LE {
        expr1: leaf("expr1"),
        expr2: leaf("expr2"),
    });
}

#[test]
fn in_is_read_back() {
    read_back(AlephTree::In {
        expr1: leaf("expr1"),
        expr2: leaf("expr2"),
    });
}

#[test]
fn if_is_read_back() {
    read_back(AlephTree::If {
        condition: leaf("condition"),
        then: leaf("then"),
        els: leaf("els"),
    });
}

#[test]
fn while_is_read_back() {
    read_back(AlephTree::While {
        init_expr: leaf("init_expr"),
        condition: leaf("condition"),
        loop_expr: leaf("loop_expr"),
        post_expr: leaf("post_expr"),
    });
}

#[test]
fn let_is_read_back() {
    read_back(AlephTree::Let {
        var: "var 0 \"q\" \u{e9}".to_string(),
        is_pointer: "is_pointer 1 \"q\" \u{e9}".to_string(),
        value: leaf("value"),
        expr: leaf("expr"),
    });
}

#[test]
fn let_rec_is_read_back() {
    read_back(AlephTree::LetRec {
        name: "name 0 \"q\" \u{e9}".to_string(),
        args: vec![leaf("a"), Box::new(AlephTree::Unit), leaf("b")],
        body: leaf("body"),
    });
}

#[test]
fn get_is_read_back() {
    read_back(AlephTree::Get {
        array_name: "array_name 0 \"q\" \u{e9}".to_string(),
        elem: leaf("elem"),
    });
}

#[test]
fn put_is_read_back() {
    read_back(AlephTree::Put {
        array_name: "array_name 0 \"q\" \u{e9}".to_string(),
        elem: leaf("elem"),
        value: leaf("value"),
        insert: "insert 3 \"q\" \u{e9}".to_string(),
    });
}

#[test]
fn remove_is_read_back() {
    read_back(AlephTree::Remove {
        array_name: "array_name 0 \"q\" \u{e9}".to_string(),
        elem: leaf("elem"),
        is_value: "is_value 2 \"q\" \u{e9}".to_string(),
    });
}

#[test]
fn length_is_read_back() {
    read_back(AlephTree::Length {
        var: "var 0 \"q\" \u{e9}".to_string(),
    });
}

#[test]
fn match_is_read_back() {
    read_back(AlephTree::Match {
        expr: leaf("expr"),
        case_list: vec![leaf("a"), Box::new(AlephTree::Unit), leaf("b")],
    });
}

#[test]
fn match_line_is_read_back() {
    read_back(AlephTree::MatchLine {
        condition: leaf("condition"),
        case_expr: leaf("case_expr"),
    });
}

#[test]
fn var_is_read_back() {
    read_back(AlephTree::Var {
        var: "var 0 \"q\" \u{e9}".to_string(),
        is_pointer: "is_pointer 1 \"q\" \u{e9}".to_string(),
    });
}

#[test]
fn app_is_read_back() {
    read_back(AlephTree::App {
        object_name: "object_name 0 \"q\" \u{e9}".to_string(),
        fun: leaf("fun"),
        param_list: vec![leaf("a"), Box::new(AlephTree::Unit), leaf("b")],
    });
}

#[test]
fn stmts_is_read_back() {
    read_back(AlephTree::Stmts {
        expr1: leaf("expr1"),
        expr2: leaf("expr2"),
    });
}

#[test]
fn iprt_is_read_back() {
    read_back(AlephTree::Iprt {
        name: "name 0 \"q\" \u{e9}".to_string(),
    });
}

#[test]
fn clss_is_read_back() {
    read_back(AlephTree::Clss {
        name: "name 0 \"q\" \u{e9}".to_string(),
        attribute_list: vec!["x".to_string(), "".to_string(), "y z".to_string()],
        body: leaf("body"),
    });
}

#[test]
fn return_is_read_back() {
    read_back(AlephTree::Return {
        value: leaf("value"),
    });
}

#[test]
fn comment_is_read_back() {
    read_back(AlephTree::Comment {
        value: "value 0 \"q\" \u{e9}".to_string(),
    });
}

#[test]
fn comment_multi_is_read_back() {
    read_back(AlephTree::CommentMulti {
        value: "value 0 \"q\" \u{e9}".to_string(),
    });
}

#[test]
fn assert_is_read_back() {
    read_back(AlephTree::Assert {
        condition: leaf("condition"),
        message: leaf("message"),
    });
}

#[test]
fn nested_tree_is_read_back() {
    read_back(AlephTree::Let {
        var: "x".to_string(),
        is_pointer: "false".to_string(),
        value: Box::new(AlephTree::Add {
            number_expr1: Box::new(AlephTree::Int { value: "1".to_string() }),
            number_expr2: Box::new(AlephTree::Mul {
                number_expr1: Box::new(AlephTree::Float { value: "2.50".to_string() }),
                number_expr2: Box::new(AlephTree::Var {
                    var: "y".to_string(),
                    is_pointer: "true".to_string(),
                }),
            }),
        }),
        expr: Box::new(AlephTree::Match {
            expr: leaf("x"),
            case_list: vec![
                Box::new(AlephTree::MatchLine {
                    condition: Box::new(AlephTree::Int { value: "0".to_string() }),
                    case_expr: Box::new(AlephTree::Tuple { elems: vec![] }),
                }),
                Box::new(AlephTree::MatchLine {
                    condition: leaf("_"),
                    case_expr: Box::new(AlephTree::Bytes { elems: vec![] }),
                }),
            ],
        }),
    });
}
