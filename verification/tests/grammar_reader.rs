use aleph_syntax_tree::grammar::RuleRepr;
use aleph_syntax_tree::reader::{read_all, read_rules, GrammarReader, ReaderState};

fn rule(expression: &str, node: &str, arguments: &str) -> RuleRepr {
    RuleRepr {
        expression: expression.to_string(),
        node: node.to_string(),
        arguments: arguments.to_string(),
    }
}

#[test]
fn one_block_closed_by_a_blank_line() {
    let table = read_rules("expr:\n    | integer -> $1\n    | expr \"+\" expr -> Add($1, $2)\n\n");
    assert_eq!(table.len(), 1);
    assert_eq!(table.entries()[0].name, "expr");
    assert_eq!(
        table.get("expr"),
        Some(&vec![rule("integer", "", "$1"), rule("expr \"+\" expr", "Add", "($1, $2)")])
    );
}

#[test]
fn one_block_left_open_by_the_end_of_the_text() {
    let table = read_rules("expr:\n    | integer -> $1\n    | expr \"+\" expr -> Add($1, $2)");
    assert_eq!(table.len(), 1);
    assert_eq!(
        table.get("expr"),
        Some(&vec![rule("integer", "", "$1"), rule("expr \"+\" expr", "Add", "($1, $2)")])
    );
}

#[test]
fn empty_text_gives_an_empty_table() {
    let table = read_rules("");
    assert!(table.is_empty());
    assert_eq!(table.len(), 0);
    assert_eq!(table.get("expr"), None);
}

#[test]
fn blocks_in_the_order_of_their_declaration() {
    let text = "free text before\n\nexpr:\n | term -> $1\n\nsome commentary\nterm*:\r\n | integer -> Integer($1)\r\n | ident -> Ident($1)\r\n\r\n";
    let table = read_rules(text);
    assert_eq!(table.len(), 2);
    assert_eq!(table.entries()[0].name, "expr");
    assert_eq!(table.entries()[1].name, "term*");
    assert_eq!(table.get("expr"), Some(&vec![rule("term", "", "$1")]));
    assert_eq!(
        table.get("term*"),
        Some(&vec![rule("integer", "Integer", "($1)"), rule("ident", "Ident", "($1)")])
    );
    assert_eq!(table.get("term"), None);
}

#[test]
fn lines_inside_a_block_that_are_no_rules_are_passed_over() {
    let reader = read_all("expr:\n | a -> $1\nthis explains the next rule\nterm:\n | b -> $2\n\n");
    assert_eq!(
        reader.skipped_lines(),
        &vec!["this explains the next rule".to_string(), "term:".to_string()]
    );
    let table = reader.finish();
    assert_eq!(table.len(), 1);
    assert_eq!(table.get("expr"), Some(&vec![rule("a", "", "$1"), rule("b", "", "$2")]));
}

#[test]
fn a_token_declared_again_starts_with_no_rules() {
    let table = read_rules("expr:\n | a -> $1\n\nterm:\n | b -> $1\n\nexpr:\n | c -> $1\n");
    assert_eq!(table.len(), 2);
    assert_eq!(table.entries()[0].name, "expr");
    assert_eq!(table.entries()[1].name, "term");
    assert_eq!(table.get("expr"), Some(&vec![rule("c", "", "$1")]));
    assert_eq!(table.get("term"), Some(&vec![rule("b", "", "$1")]));
}

#[test]
fn the_machine_moves_between_its_two_states() {
    let reader = GrammarReader::new();
    assert_eq!(reader.state(), ReaderState::AwaitingToken);
    let reader = reader.feed_line("| a -> $1");
    assert_eq!(reader.state(), ReaderState::AwaitingToken);
    let reader = reader.feed_line("expr:");
    assert_eq!(reader.state(), ReaderState::AccumulatingRules);
    let reader = reader.feed_line("| a -> $1");
    assert_eq!(reader.state(), ReaderState::AccumulatingRules);
    let reader = reader.feed_line("not a rule");
    assert_eq!(reader.state(), ReaderState::AccumulatingRules);
    let reader = reader.feed_line("   ");
    assert_eq!(reader.state(), ReaderState::AwaitingToken);
    assert_eq!(reader.skipped_lines(), &vec!["not a rule".to_string()]);
    let table = reader.finish();
    assert_eq!(table.get("expr"), Some(&vec![rule("a", "", "$1")]));
}

#[test]
fn a_header_with_no_rules_gives_an_empty_entry() {
    let table = read_rules("expr:\n\n");
    assert_eq!(table.len(), 1);
    assert_eq!(table.get("expr"), Some(&vec![]));
}
