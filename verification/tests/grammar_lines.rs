use aleph_syntax_tree::grammar::{rule_line, token_header, RuleRepr};

fn rule(expression: &str, node: &str, arguments: &str) -> RuleRepr {
    RuleRepr {
        expression: expression.to_string(),
        node: node.to_string(),
        arguments: arguments.to_string(),
    }
}

#[test]
fn header_of_a_plain_token() {
    assert_eq!(token_header("expr:"), Some("expr".to_string()));
}

#[test]
fn header_of_blank_line_is_none() {
    assert_eq!(token_header("      "), None);
    assert_eq!(token_header(""), None);
}

#[test]
fn header_keeps_trailing_asterisks() {
    assert_eq!(token_header("stmt**:  \t"), Some("stmt**".to_string()));
    assert_eq!(token_header("a_1*:\r"), Some("a_1*".to_string()));
}

#[test]
fn header_must_span_the_whole_line() {
    assert_eq!(token_header(" expr:"), None);
    assert_eq!(token_header("expr"), None);
    assert_eq!(token_header("expr: x"), None);
    assert_eq!(token_header("ex pr:"), None);
    assert_eq!(token_header(":"), None);
    assert_eq!(token_header("*:"), None);
    assert_eq!(token_header("expr*x:"), None);
    assert_eq!(token_header("expr::"), None);
}

#[test]
fn header_is_no_rule_line() {
    assert_eq!(token_header("    | integer -> Integer($1)"), None);
    assert_eq!(rule_line("expr:"), None);
}

#[test]
fn rule_with_constructor() {
    assert_eq!(
        rule_line("    | integer -> Integer($1)"),
        Some(rule("integer", "Integer", "($1)"))
    );
}

#[test]
fn rule_with_quoted_terminal() {
    assert_eq!(
        rule_line("    | expr \"-\" expr -> Sub($1, $2)"),
        Some(rule("expr \"-\" expr", "Sub", "($1, $2)"))
    );
}

#[test]
fn rule_with_positional_reference() {
    assert_eq!(
        rule_line("    | r\"-{0,1}[0-9]+\" -> $1"),
        Some(rule("r\"-{0,1}[0-9]+\"", "", "$1"))
    );
}

#[test]
fn rule_with_leading_asterisks() {
    assert_eq!(rule_line("** | a b -> Pair($1, $2)  "), Some(rule("a b", "Pair", "($1, $2)")));
    assert_eq!(rule_line("|x->$12"), Some(rule("x", "", "$12")));
}

#[test]
fn rule_takes_the_last_arrow_that_splits() {
    assert_eq!(
        rule_line("| a \"->\" b -> Arrow($1, $2)"),
        Some(rule("a \"->\" b", "Arrow", "($1, $2)"))
    );
    assert_eq!(rule_line("| a -> F(x -> y)"), Some(rule("a", "F", "(x -> y)")));
    assert_eq!(rule_line("| a -> B(1) -> C(2)"), Some(rule("a -> B(1)", "C", "(2)")));
}

#[test]
fn lines_that_are_no_rules() {
    assert_eq!(rule_line(""), None);
    assert_eq!(rule_line("   "), None);
    assert_eq!(rule_line("integer -> Integer($1)"), None);
    assert_eq!(rule_line("| -> Integer($1)"), None);
    assert_eq!(rule_line("| integer -> integer($1)"), None);
    assert_eq!(rule_line("| integer -> Integer"), None);
    assert_eq!(rule_line("| integer -> Integer ($1)"), None);
    assert_eq!(rule_line("| integer -> Integer($1"), None);
    assert_eq!(rule_line("| integer -> $"), None);
    assert_eq!(rule_line("| integer -> $x"), None);
    assert_eq!(rule_line("| integer -> $1 $2"), None);
    assert_eq!(rule_line("| integer Integer($1)"), None);
    assert_eq!(rule_line("x | integer -> Integer($1)"), None);
}
