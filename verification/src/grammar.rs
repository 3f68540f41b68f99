//! The two line shapes of a grammar description: the header that opens a
//! token's block, and the production rule.

use crate::text::{
    chars_of, is_blank, is_digit, is_space, is_upper, is_word, lemma_run_end,
    lemma_run_end_unique, lemma_run_start, run_end, run_start, scan_run, scan_run_back,
    text_of, CharClass,
};
use vstd::prelude::*;

verus! {

/// One production alternative of a token.
#[derive(Debug, PartialEq, Eq)]
pub struct RuleRepr {
    /// The right-hand side: the symbols as they were written.
    pub expression: String,
    /// The constructor that the production builds, or nothing where the
    /// production passes one of its symbols through.
    pub node: String,
    /// The constructor's argument list in its parentheses, or the positional
    /// reference that is passed through.
    pub arguments: String,
}

/// The mathematical value of a [`RuleRepr`].
pub struct RuleView {
    pub expression: Seq<char>,
    pub node: Seq<char>,
    pub arguments: Seq<char>,
}

impl View for RuleRepr {
    type V = RuleView;

    open spec fn view(&self) -> RuleView {
        RuleView { expression: self.expression@, node: self.node@, arguments: self.arguments@ }
    }
}

impl Clone for RuleRepr {
    fn clone(&self) -> (r: RuleRepr)
        ensures
            r@ == self@,
    {
        RuleRepr {
            expression: self.expression.clone(),
            node: self.node.clone(),
            arguments: self.arguments.clone(),
        }
    }
}

impl RuleView {
    /// A rule's parts agree with each other: the expression is not empty and
    /// has no blank space at either end; a constructor is a word that starts
    /// with an upper-case letter and comes with a parenthesized argument
    /// list; where there is no constructor, the arguments are one positional
    /// reference, a dollar sign and digits.
    pub open spec fn well_formed(self) -> bool {
        &&& self.expression.len() > 0
        &&& !is_space(self.expression.first())
        &&& !is_space(self.expression.last())
        &&& self.arguments.len() >= 2
        &&& if self.node.len() > 0 {
            &&& is_upper(self.node[0])
            &&& forall|i: int| 0 <= i < self.node.len() ==> is_word(#[trigger] self.node[i])
            &&& self.arguments.first() == '('
            &&& self.arguments.last() == ')'
        } else {
            &&& self.arguments[0] == '$'
            &&& forall|i: int|
                1 <= i < self.arguments.len() ==> is_digit(#[trigger] self.arguments[i])
        }
    }
}

/// The shape of a token header: `w` word characters, asterisks up to index
/// `n`, a colon at `n`, and nothing but blank space after it.
pub open spec fn header_shape(line: Seq<char>, w: int, n: int) -> bool {
    &&& 0 < w <= n < line.len()
    &&& forall|i: int| 0 <= i < w ==> is_word(#[trigger] line[i])
    &&& forall|i: int| w <= i < n ==> #[trigger] line[i] == '*'
    &&& line[n] == ':'
    &&& forall|i: int| n < i < line.len() ==> is_space(#[trigger] line[i])
}

/// Where the name of a token header ends: after the leading word and the
/// asterisks that follow it.
pub open spec fn header_name_end(line: Seq<char>) -> int {
    run_end(line, run_end(line, 0, CharClass::Word), CharClass::Star)
}

/// The token that a header line names: the leading word with its asterisks,
/// where the line is such a word, a colon and blank space, and nothing else.
pub open spec fn token_header_spec(line: Seq<char>) -> Option<Seq<char>> {
    let n = header_name_end(line);
    if run_end(line, 0, CharClass::Word) > 0 && n < line.len() && line[n] == ':' && run_end(
        line,
        n + 1,
        CharClass::Space,
    ) == line.len() {
        Some(line.take(n))
    } else {
        None
    }
}

/// A line is a token header exactly if it has the header shape, and the
/// token is then the text before the colon.
pub proof fn lemma_token_header(line: Seq<char>)
    ensures
        token_header_spec(line) is Some <==> exists|w: int, n: int| header_shape(line, w, n),
        forall|w: int, n: int| #[trigger]
            header_shape(line, w, n) ==> token_header_spec(line) == Some(line.take(n)),
{
    let w0 = run_end(line, 0, CharClass::Word);
    lemma_run_end(line, 0, CharClass::Word);
    let n0 = run_end(line, w0, CharClass::Star);
    lemma_run_end(line, w0, CharClass::Star);
    if token_header_spec(line) is Some {
        lemma_run_end(line, n0 + 1, CharClass::Space);
        assert(header_shape(line, w0, n0));
    }
    assert forall|w: int, n: int| #[trigger] header_shape(line, w, n) implies token_header_spec(
        line,
    ) == Some(line.take(n)) by {
        lemma_run_end_unique(line, 0, w, CharClass::Word);
        lemma_run_end_unique(line, w, n, CharClass::Star);
        lemma_run_end_unique(line, n + 1, line.len() as int, CharClass::Space);
    }
}

/// Tests whether a line, given by its characters, is a token header, and
/// gives the token it names.
pub fn token_header_of(line: &Vec<char>) -> (r: Option<String>)
    ensures
        match r {
            Some(name) => token_header_spec(line@) == Some(name@),
            None => token_header_spec(line@) is None,
        },
{
    let w = scan_run(line, 0, CharClass::Word);
    if w == 0 {
        return None;
    }
    let n = scan_run(line, w, CharClass::Star);
    if n >= line.len() || line[n] != ':' {
        return None;
    }
    let rest = scan_run(line, n + 1, CharClass::Space);
    if rest != line.len() {
        return None;
    }
    Some(text_of(line, 0, n))
}

/// Tests whether a line is a token header, and gives the token it names.
pub fn token_header(line: &str) -> (r: Option<String>)
    ensures
        match r {
            Some(name) => token_header_spec(line@) == Some(name@),
            None => token_header_spec(line@) is None,
        },
{
    token_header_of(&chars_of(line))
}

/// Where the bar of a rule line must stand: after blank space, asterisks
/// and blank space again.
pub open spec fn bar_index(line: Seq<char>) -> int {
    run_end(
        line,
        run_end(line, run_end(line, 0, CharClass::Space), CharClass::Star),
        CharClass::Space,
    )
}

/// Where the expression of a rule line starts: at the first character after
/// the bar that is not blank space.
pub open spec fn expression_start(line: Seq<char>) -> int {
    run_end(line, bar_index(line) + 1, CharClass::Space)
}

/// Where a line's text ends: after its last character that is not blank
/// space.
pub open spec fn text_end(line: Seq<char>) -> int {
    run_start(line, line.len() as int, CharClass::Space)
}

/// Whether an arrow, a hyphen and a greater-than sign, stands at index `p`.
pub open spec fn arrow_at(line: Seq<char>, p: int) -> bool {
    0 <= p && p + 1 < line.len() && line[p] == '-' && line[p + 1] == '>'
}

/// The constructor and the arguments that follow an arrow at index `p`, if
/// the rest of the line is a constructor with its parenthesized arguments, or
/// a positional reference.
pub open spec fn result_after(line: Seq<char>, p: int) -> Option<(Seq<char>, Seq<char>)> {
    let from = run_end(line, p + 2, CharClass::Space);
    let to = text_end(line);
    if !(0 <= from < to) {
        None
    } else if is_upper(line[from]) {
        let open = run_end(line, from, CharClass::Word);
        if open < to && line[open] == '(' && line[to - 1] == ')' {
            Some((line.subrange(from, open), line.subrange(open, to)))
        } else {
            None
        }
    } else if line[from] == '$' {
        if from + 1 < to && run_end(line, from + 1, CharClass::Digit) == to {
            Some((Seq::empty(), line.subrange(from, to)))
        } else {
            None
        }
    } else {
        None
    }
}

/// The rule that a line states if its arrow is the one at index `p`: there
/// is a bar in its place, an expression between the bar and the arrow, and a
/// result after the arrow.
pub open spec fn rule_split_at(line: Seq<char>, p: int) -> Option<RuleView> {
    let bar = bar_index(line);
    let start = expression_start(line);
    if bar < line.len() && line[bar] == '|' && start < p && arrow_at(line, p) {
        match result_after(line, p) {
            Some((node, arguments)) => Some(
                RuleView {
                    expression: line.subrange(start, run_start(line, p, CharClass::Space)),
                    node,
                    arguments,
                },
            ),
            None => None,
        }
    } else {
        None
    }
}

/// The rule that a line states with its arrow at the last index up to `p`
/// at which it states one.
pub open spec fn rule_split_upto(line: Seq<char>, p: int) -> Option<RuleView>
    decreases p + 1,
{
    if p < 0 {
        None
    } else if rule_split_at(line, p) is Some {
        rule_split_at(line, p)
    } else {
        rule_split_upto(line, p - 1)
    }
}

/// The rule that a line states. Of several arrows that each split the line
/// into an expression and a result, the last one counts: the expression is
/// as long as it can be.
pub open spec fn rule_line_spec(line: Seq<char>) -> Option<RuleView> {
    rule_split_upto(line, line.len() - 2)
}

/// A line states a rule exactly if some arrow splits it into one, and the
/// rule is then the one at the last such arrow.
pub proof fn lemma_rule_line(line: Seq<char>)
    ensures
        rule_line_spec(line) is Some <==> exists|p: int| rule_split_at(line, p) is Some,
        rule_line_spec(line) is Some ==> exists|p: int|
            {
                &&& rule_split_at(line, p) == rule_line_spec(line)
                &&& forall|q: int| q > p ==> #[trigger] rule_split_at(line, q) is None
            },
{
    lemma_rule_split_upto(line, line.len() - 2);
    let p = choose|p: int|
        p <= line.len() - 2 && rule_split_at(line, p) == rule_split_upto(line, line.len() - 2)
            && forall|q: int| p < q <= line.len() - 2 ==> #[trigger] rule_split_at(line, q) is None;
    if rule_line_spec(line) is Some {
        assert(forall|q: int| q > p ==> #[trigger] rule_split_at(line, q) is None);
    }
}

proof fn lemma_rule_split_upto(line: Seq<char>, p: int)
    ensures
        rule_split_upto(line, p) is None ==> forall|q: int|
            q <= p ==> #[trigger] rule_split_at(line, q) is None,
        rule_split_upto(line, p) is Some ==> exists|k: int|
            {
                &&& k <= p
                &&& rule_split_at(line, k) == rule_split_upto(line, p)
                &&& forall|q: int| k < q <= p ==> #[trigger] rule_split_at(line, q) is None
            },
    decreases p + 1,
{
    if p < 0 {
    } else if rule_split_at(line, p) is Some {
        assert(rule_split_at(line, p) == rule_split_upto(line, p));
    } else {
        lemma_rule_split_upto(line, p - 1);
        if rule_split_upto(line, p - 1) is Some {
            let k = choose|k: int|
                {
                    &&& k <= p - 1
                    &&& rule_split_at(line, k) == rule_split_upto(line, p - 1)
                    &&& forall|q: int|
                        k < q <= p - 1 ==> #[trigger] rule_split_at(line, q) is None
                };
            assert(rule_split_at(line, k) == rule_split_upto(line, p));
        }
    }
}

/// Every rule that a line states is well formed.
pub proof fn lemma_rule_split_well_formed(line: Seq<char>, p: int)
    requires
        rule_split_at(line, p) is Some,
    ensures
        rule_split_at(line, p)->0.well_formed(),
{
    let rule = rule_split_at(line, p)->0;
    let bar = bar_index(line);
    let start = expression_start(line);
    let a = run_end(line, 0, CharClass::Space);
    lemma_run_end(line, 0, CharClass::Space);
    let b = run_end(line, a, CharClass::Star);
    lemma_run_end(line, a, CharClass::Star);
    lemma_run_end(line, b, CharClass::Space);
    lemma_run_end(line, bar + 1, CharClass::Space);
    lemma_run_start(line, p, CharClass::Space);
    let stop = run_start(line, p, CharClass::Space);
    assert(stop > start) by {
        if stop <= start {
            assert(is_space(line[start]));
        }
    }
    let from = run_end(line, p + 2, CharClass::Space);
    lemma_run_end(line, p + 2, CharClass::Space);
    let to = text_end(line);
    lemma_run_start(line, line.len() as int, CharClass::Space);
    if is_upper(line[from]) {
        let open = run_end(line, from, CharClass::Word);
        lemma_run_end(line, from, CharClass::Word);
        assert(open > from);
    } else {
        lemma_run_end(line, from + 1, CharClass::Digit);
    }
}

/// Every rule that a line states is well formed.
pub proof fn lemma_rule_line_well_formed(line: Seq<char>)
    requires
        rule_line_spec(line) is Some,
    ensures
        rule_line_spec(line)->0.well_formed(),
{
    lemma_rule_line(line);
    let p = choose|p: int| rule_split_at(line, p) == rule_line_spec(line);
    lemma_rule_split_well_formed(line, p);
}

/// A line that states a rule is not blank, and is no token header.
pub proof fn lemma_rule_line_is_no_other(line: Seq<char>)
    requires
        rule_line_spec(line) is Some,
    ensures
        !is_blank(line),
        token_header_spec(line) is None,
{
    lemma_rule_line(line);
    let p = choose|p: int| rule_split_at(line, p) == rule_line_spec(line);
    let bar = bar_index(line);
    let a = run_end(line, 0, CharClass::Space);
    lemma_run_end(line, 0, CharClass::Space);
    let b = run_end(line, a, CharClass::Star);
    lemma_run_end(line, a, CharClass::Star);
    lemma_run_end(line, b, CharClass::Space);
    lemma_run_end(line, 0, CharClass::Word);
    assert(!is_word(line[0]));
}

/// The rule that a line with a bar in its place states with its arrow at
/// index `p`.
fn rule_at(s: &Vec<char>, p: usize) -> (r: Option<RuleRepr>)
    requires
        bar_index(s@) < s.len(),
        s@[bar_index(s@)] == '|',
    ensures
        match r {
            Some(rule) => rule_split_at(s@, p as int) == Some(rule@),
            None => rule_split_at(s@, p as int) is None,
        },
{
    let n = s.len();
    if p >= n - 1 || s[p] != '-' || s[p + 1] != '>' {
        return None;
    }
    proof {
        lemma_run_end(s@, 0, CharClass::Space);
        lemma_run_end(s@, run_end(s@, 0, CharClass::Space), CharClass::Star);
    }
    let a = scan_run(s, 0, CharClass::Space);
    let b = scan_run(s, a, CharClass::Star);
    let bar = scan_run(s, b, CharClass::Space);
    let start = scan_run(s, bar + 1, CharClass::Space);
    if start >= p {
        return None;
    }
    let stop = scan_run_back(s, p, CharClass::Space);
    let from = scan_run(s, p + 2, CharClass::Space);
    let to = scan_run_back(s, n, CharClass::Space);
    if from >= to {
        return None;
    }
    proof {
        lemma_run_start(s@, p as int, CharClass::Space);
        lemma_run_end(s@, bar as int + 1, CharClass::Space);
        if stop <= start {
            assert(is_space(s@[start as int]));
        }
    }
    let first = s[from];
    if 'A' <= first && first <= 'Z' {
        let open = scan_run(s, from, CharClass::Word);
        if open < to && s[open] == '(' && s[to - 1] == ')' {
            Some(
                RuleRepr {
                    expression: text_of(s, start, stop),
                    node: text_of(s, from, open),
                    arguments: text_of(s, open, to),
                },
            )
        } else {
            None
        }
    } else if first == '$' {
        if from + 1 < to && scan_run(s, from + 1, CharClass::Digit) == to {
            Some(
                RuleRepr {
                    expression: text_of(s, start, stop),
                    node: String::new(),
                    arguments: text_of(s, from, to),
                },
            )
        } else {
            None
        }
    } else {
        None
    }
}

/// Tests whether a line, given by its characters, is a production rule, and
/// gives its three parts.
pub fn rule_line_of(s: &Vec<char>) -> (r: Option<RuleRepr>)
    ensures
        match r {
            Some(rule) => rule_line_spec(s@) == Some(rule@) && rule@.well_formed(),
            None => rule_line_spec(s@) is None,
        },
{
    let n = s.len();
    proof {
        lemma_run_end(s@, 0, CharClass::Space);
        lemma_run_end(s@, run_end(s@, 0, CharClass::Space), CharClass::Star);
    }
    let a = scan_run(s, 0, CharClass::Space);
    let b = scan_run(s, a, CharClass::Star);
    let bar = scan_run(s, b, CharClass::Space);
    if bar >= n || s[bar] != '|' {
        proof {
            lemma_rule_line(s@);
        }
        return None;
    }
    let mut p: usize = n;
    if n >= 1 {
        p = n - 1;
    }
    while p > 0
        invariant
            n == s.len(),
            p <= n,
            bar_index(s@) < s.len(),
            s@[bar_index(s@)] == '|',
            rule_line_spec(s@) == rule_split_upto(s@, p as int - 1),
        decreases p,
    {
        p = p - 1;
        match rule_at(s, p) {
            Some(rule) => {
                proof {
                    lemma_rule_line_well_formed(s@);
                }
                return Some(rule);
            },
            None => {},
        }
    }
    None
}

/// Tests whether a line is a production rule, and gives its three parts.
pub fn rule_line(line: &str) -> (r: Option<RuleRepr>)
    ensures
        match r {
            Some(rule) => rule_line_spec(line@) == Some(rule@) && rule@.well_formed(),
            None => rule_line_spec(line@) is None,
        },
{
    rule_line_of(&chars_of(line))
}

/// Whether a line, given by its characters, holds nothing but blank space.
pub fn blank_line_of(line: &Vec<char>) -> (r: bool)
    ensures
        r == is_blank(line@),
{
    scan_run(line, 0, CharClass::Space) == line.len()
}

} // verus!
