use aleph_syntax_tree::syntax::AlephTree;
use aleph_syntax_tree::{comp_indent, comp_indent_sep, gen_list_expr, gen_list_expr_sep};

fn show(node: AlephTree, depth: i64) -> String {
    match node {
        AlephTree::Int { value } => format!("{}@{}", value, depth),
        AlephTree::Unit => String::new(),
        _ => "?".to_string(),
    }
}

fn int_node(text: &str) -> Box<AlephTree> {
    Box::new(AlephTree::Int { value: text.to_string() })
}

#[test]
fn indentation_is_four_spaces_a_level() {
    assert_eq!(comp_indent(0), "");
    assert_eq!(comp_indent(1), "    ");
    assert_eq!(comp_indent(3), "            ");
    assert_eq!(comp_indent(-2), "");
}

#[test]
fn indentation_with_a_unit_of_choice() {
    assert_eq!(comp_indent_sep(3, "ab".to_string()), "ababab");
    assert_eq!(comp_indent_sep(2, "\t".to_string()), "\t\t");
    assert_eq!(comp_indent_sep(5, String::new()), "");
    assert_eq!(comp_indent_sep(0, "x".to_string()), "");
    assert_eq!(comp_indent_sep(-1, "x".to_string()), "");
}

#[test]
fn list_is_rendered_and_joined() {
    assert_eq!(gen_list_expr_sep(vec![int_node("1"), int_node("2"), int_node("3")], show, ", "), "1@0, 2@0, 3@0");
    assert_eq!(gen_list_expr_sep(vec![int_node("1")], show, ", "), "1@0");
    assert_eq!(gen_list_expr_sep(vec![], show, ", "), "");
    assert_eq!(gen_list_expr_sep(vec![Box::new(AlephTree::Unit), int_node("2"), Box::new(AlephTree::Unit)], show, "-"), "-2@0-");
    assert_eq!(gen_list_expr_sep(vec![int_node("1"), int_node("2")], show, ""), "1@02@0");
}

#[test]
fn list_is_joined_with_a_space_by_default() {
    assert_eq!(gen_list_expr(vec![int_node("1"), Box::new(AlephTree::Break), int_node("3")], show), "1@0 ? 3@0");
    assert_eq!(gen_list_expr(vec![], show), "");
}
