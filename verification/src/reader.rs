//! Reading a grammar description: a machine of two states that walks the
//! lines and gathers each token's production rules.

use crate::grammar::{
    blank_line_of, lemma_rule_line_is_no_other, lemma_rule_line_well_formed, rule_line_of,
    rule_line_spec, token_header_of, token_header_spec, RuleRepr, RuleView,
};
use crate::text::{
    chars_of, is_blank, lemma_run_end, run_end, same_str, scan_run, text_of, CharClass,
};
use vstd::prelude::*;

verus! {

/// A token with the production rules of its block, in the order of the lines.
#[derive(Debug, PartialEq, Eq)]
pub struct TokenRules {
    pub name: String,
    pub rules: Vec<RuleRepr>,
}

/// The mathematical value of a [`TokenRules`].
pub struct TokenRulesView {
    pub name: Seq<char>,
    pub rules: Seq<RuleView>,
}

impl View for TokenRules {
    type V = TokenRulesView;

    open spec fn view(&self) -> TokenRulesView {
        TokenRulesView { name: self.name@, rules: self.rules@.map_values(|r: RuleRepr| r@) }
    }
}

/// The state of the reading machine.
#[derive(Clone, Copy, Debug, PartialEq, Eq)]
pub enum ReaderState {
    /// Between blocks: the next token header opens a block.
    AwaitingToken,
    /// Inside a token's block: rule lines are gathered until a blank line.
    AccumulatingRules,
}

/// The mathematical value of a [`GrammarReader`]: the table so far, in the
/// order in which the tokens were first declared, the index of the token
/// whose block is open, and the lines that were passed over inside blocks.
pub struct ReaderView {
    pub table: Seq<TokenRulesView>,
    pub current: Option<int>,
    pub skipped: Seq<Seq<char>>,
}

/// Whether no two entries of a table have the same name.
pub open spec fn distinct_names(table: Seq<TokenRulesView>) -> bool {
    forall|i: int, j: int|
        0 <= i < j < table.len() ==> (#[trigger] table[i]).name != (#[trigger] table[j]).name
}

/// What holds of every table that reading gives: no two entries have the
/// same name, no name is empty, and every rule is well formed.
pub open spec fn table_well_formed(table: Seq<TokenRulesView>) -> bool {
    &&& distinct_names(table)
    &&& forall|i: int| 0 <= i < table.len() ==> (#[trigger] table[i]).name.len() > 0
    &&& forall|i: int, j: int|
        0 <= i < table.len() && 0 <= j < table[i].rules.len() ==> (
        #[trigger] table[i].rules[j]).well_formed()
}

/// The index of the first entry of a table with the given name.
pub open spec fn position_of(table: Seq<TokenRulesView>, name: Seq<char>) -> Option<int>
    decreases table.len(),
{
    if table.len() == 0 {
        None
    } else {
        match position_of(table.drop_last(), name) {
            Some(i) => Some(i),
            None => if table.last().name == name {
                Some(table.len() - 1)
            } else {
                None
            },
        }
    }
}

/// What `position_of` is: the index of the first entry with the name, or
/// nothing where no entry has it.
pub proof fn lemma_position_of(table: Seq<TokenRulesView>, name: Seq<char>)
    ensures
        match position_of(table, name) {
            Some(i) => 0 <= i < table.len() && table[i].name == name && forall|j: int|
                0 <= j < i ==> (#[trigger] table[j]).name != name,
            None => forall|j: int| 0 <= j < table.len() ==> (#[trigger] table[j]).name != name,
        },
    decreases table.len(),
{
    if table.len() > 0 {
        let front = table.drop_last();
        lemma_position_of(front, name);
        assert(forall|j: int| 0 <= j < front.len() ==> front[j] == table[j]);
    }
}

/// The rules that a table holds for a name.
pub open spec fn rules_of(table: Seq<TokenRulesView>, name: Seq<char>) -> Option<Seq<RuleView>> {
    match position_of(table, name) {
        Some(i) => Some(table[i].rules),
        None => None,
    }
}

impl ReaderView {
    /// The machine before the first line: an empty table and no open block.
    pub open spec fn initial() -> ReaderView {
        ReaderView { table: Seq::empty(), current: None, skipped: Seq::empty() }
    }

    /// The state that the machine is in.
    pub open spec fn state(self) -> ReaderState {
        match self.current {
            None => ReaderState::AwaitingToken,
            Some(_) => ReaderState::AccumulatingRules,
        }
    }

    /// Well-formedness: the table is well formed, and an open block is in
    /// the table.
    pub open spec fn well_formed(self) -> bool {
        &&& table_well_formed(self.table)
        &&& self.current matches Some(i) ==> 0 <= i < self.table.len()
    }

    /// Opens the block of a token. A token that the table holds already
    /// keeps its place and starts again with no rules.
    pub open spec fn open_block(self, name: Seq<char>) -> ReaderView {
        let fresh = TokenRulesView { name, rules: Seq::empty() };
        match position_of(self.table, name) {
            Some(i) => ReaderView { table: self.table.update(i, fresh), current: Some(i), ..self },
            None => ReaderView {
                table: self.table.push(fresh),
                current: Some(self.table.len() as int),
                ..self
            },
        }
    }

    /// The machine after one more line.
    ///
    /// Between blocks, a token header opens a block and any other line is
    /// passed over. Inside a block, a blank line closes it, a rule line adds
    /// its rule to the token, and any other line is passed over and noted.
    pub open spec fn step(self, line: Seq<char>) -> ReaderView {
        match self.current {
            None => match token_header_spec(line) {
                Some(name) => self.open_block(name),
                None => self,
            },
            Some(i) => if is_blank(line) {
                ReaderView { current: None, ..self }
            } else {
                match rule_line_spec(line) {
                    Some(rule) => ReaderView {
                        table: self.table.update(
                            i,
                            TokenRulesView {
                                name: self.table[i].name,
                                rules: self.table[i].rules.push(rule),
                            },
                        ),
                        ..self
                    },
                    None => ReaderView { skipped: self.skipped.push(line), ..self },
                }
            },
        }
    }

    /// The machine after a sequence of lines.
    pub open spec fn run(self, lines: Seq<Seq<char>>) -> ReaderView
        decreases lines.len(),
    {
        if lines.len() == 0 {
            self
        } else {
            self.run(lines.drop_last()).step(lines.last())
        }
    }
}

/// A step keeps the machine well formed.
pub proof fn lemma_step_well_formed(r: ReaderView, line: Seq<char>)
    requires
        r.well_formed(),
    ensures
        r.step(line).well_formed(),
{
    let next = r.step(line);
    match r.current {
        None => match token_header_spec(line) {
            Some(name) => {
                lemma_position_of(r.table, name);
                lemma_run_end(line, 0, CharClass::Word);
                lemma_run_end(line, run_end(line, 0, CharClass::Word), CharClass::Star);
                assert(name.len() > 0);
                assert forall|i: int, j: int|
                    0 <= i < next.table.len() && 0 <= j < next.table[i].rules.len() implies (
                #[trigger] next.table[i].rules[j]).well_formed() by {
                    if i < r.table.len() && next.table[i] == r.table[i] {
                        assert(r.table[i].rules[j].well_formed());
                    }
                }
            },
            None => {},
        },
        Some(k) => {
            if !is_blank(line) && rule_line_spec(line) is Some {
                lemma_rule_line_well_formed(line);
                assert forall|i: int, j: int|
                    0 <= i < next.table.len() && 0 <= j < next.table[i].rules.len() implies (
                #[trigger] next.table[i].rules[j]).well_formed() by {
                    if i != k {
                        assert(next.table[i] == r.table[i]);
                        assert(r.table[i].rules[j].well_formed());
                    } else if j < r.table[k].rules.len() {
                        assert(next.table[k].rules[j] == r.table[k].rules[j]);
                        assert(r.table[k].rules[j].well_formed());
                    }
                }
            }
        },
    }
}

/// A run keeps the machine well formed.
pub proof fn lemma_run_well_formed(r: ReaderView, lines: Seq<Seq<char>>)
    requires
        r.well_formed(),
    ensures
        r.run(lines).well_formed(),
    decreases lines.len(),
{
    if lines.len() > 0 {
        lemma_run_well_formed(r, lines.drop_last());
        lemma_step_well_formed(r.run(lines.drop_last()), lines.last());
    }
}

/// The rules that a sequence of rule lines states, line by line.
pub open spec fn rules_stated(lines: Seq<Seq<char>>) -> Seq<RuleView> {
    Seq::new(lines.len(), |i: int| rule_line_spec(lines[i])->0)
}

/// The machine after a token header and rule lines: one token, with the
/// rules of the lines in their order, and its block open.
pub proof fn lemma_block_read(header: Seq<char>, rule_lines: Seq<Seq<char>>)
    requires
        token_header_spec(header) is Some,
        forall|i: int| 0 <= i < rule_lines.len() ==> rule_line_spec(#[trigger] rule_lines[i]) is Some,
    ensures
        ReaderView::initial().run(seq![header] + rule_lines) == (ReaderView {
            table: seq![
                TokenRulesView {
                    name: token_header_spec(header)->0,
                    rules: rules_stated(rule_lines),
                },
            ],
            current: Some(0),
            skipped: Seq::empty(),
        }),
    decreases rule_lines.len(),
{
    let start = ReaderView::initial();
    let name = token_header_spec(header)->0;
    let lines = seq![header] + rule_lines;
    if rule_lines.len() == 0 {
        assert(lines.drop_last() =~= Seq::empty());
        assert(lines.last() == header);
        assert(start.run(lines.drop_last()) == start);
        assert(rules_stated(rule_lines) =~= Seq::empty());
        assert(start.step(header).table =~= seq![
            TokenRulesView { name, rules: Seq::empty() },
        ]);
    } else {
        let front = rule_lines.drop_last();
        let last = rule_lines.last();
        lemma_block_read(header, front);
        assert(lines.drop_last() =~= seq![header] + front);
        assert(lines.last() == last);
        lemma_rule_line_is_no_other(last);
        let mid = start.run(seq![header] + front);
        assert(rules_stated(front).push(rule_line_spec(last)->0) =~= rules_stated(rule_lines));
        assert(mid.step(last).table =~= seq![
            TokenRulesView { name, rules: rules_stated(rule_lines) },
        ]);
    }
}

/// Reading one token header and then rule lines gives a table of one token
/// with the rules of those lines in their order, whether or not a blank line
/// follows them.
pub proof fn lemma_single_block(header: Seq<char>, rule_lines: Seq<Seq<char>>, blank: Seq<char>)
    requires
        token_header_spec(header) is Some,
        forall|i: int| 0 <= i < rule_lines.len() ==> rule_line_spec(#[trigger] rule_lines[i]) is Some,
        is_blank(blank),
    ensures
        ReaderView::initial().run(seq![header] + rule_lines).table == seq![
            TokenRulesView {
                name: token_header_spec(header)->0,
                rules: rules_stated(rule_lines),
            },
        ],
        ReaderView::initial().run(seq![header] + rule_lines + seq![blank]).table == seq![
            TokenRulesView {
                name: token_header_spec(header)->0,
                rules: rules_stated(rule_lines),
            },
        ],
        rules_stated(rule_lines).len() == rule_lines.len(),
{
    lemma_block_read(header, rule_lines);
    let lines = seq![header] + rule_lines + seq![blank];
    assert(lines.drop_last() =~= seq![header] + rule_lines);
    assert(lines.last() == blank);
}

/// The lines of a text from index `from` on: each ends before a line feed
/// or at the end of the text, and a line feed at the very end opens no
/// further line.
pub open spec fn lines_from(text: Seq<char>, from: int) -> Seq<Seq<char>>
    decreases text.len() - from,
{
    if 0 <= from < text.len() {
        let end = run_end(text, from, CharClass::Inline);
        if from <= end < text.len() {
            seq![text.subrange(from, end)] + lines_from(text, end + 1)
        } else {
            seq![text.subrange(from, text.len() as int)]
        }
    } else {
        Seq::empty()
    }
}

/// The lines of a text.
pub open spec fn lines_of(text: Seq<char>) -> Seq<Seq<char>> {
    lines_from(text, 0)
}

/// The table that reading a text gives.
pub open spec fn read_rules_spec(text: Seq<char>) -> Seq<TokenRulesView> {
    ReaderView::initial().run(lines_of(text)).table
}

/// The table that reading a grammar description gives: each token with its
/// production rules. Tokens stand in the order in which they were first
/// declared, and no name occurs twice.
#[derive(Debug, PartialEq, Eq)]
pub struct RuleTable {
    entries: Vec<TokenRules>,
}

impl View for RuleTable {
    type V = Seq<TokenRulesView>;

    closed spec fn view(&self) -> Seq<TokenRulesView> {
        self.entries@.map_values(|e: TokenRules| e@)
    }
}

impl RuleTable {
    #[verifier::type_invariant]
    spec fn well_formed(&self) -> bool {
        table_well_formed(self@)
    }

    /// The number of tokens. The table is well formed.
    pub fn len(&self) -> (n: usize)
        ensures
            n == self@.len(),
            table_well_formed(self@),
    {
        proof {
            use_type_invariant(self);
        }
        self.entries.len()
    }

    /// Whether the table holds no token.
    pub fn is_empty(&self) -> (r: bool)
        ensures
            r == (self@.len() == 0),
    {
        self.entries.len() == 0
    }

    /// The tokens with their rules, in the order of their first declaration.
    pub fn entries(&self) -> (r: &Vec<TokenRules>)
        ensures
            r@.map_values(|e: TokenRules| e@) == self@,
    {
        &self.entries
    }

    /// The rules of a token, or nothing where the table does not hold it.
    pub fn get(&self, name: &str) -> (r: Option<&Vec<RuleRepr>>)
        ensures
            match r {
                Some(rules) => rules_of(self@, name@) == Some(
                    rules@.map_values(|r: RuleRepr| r@),
                ),
                None => rules_of(self@, name@) is None,
            },
    {
        let mut i: usize = 0;
        while i < self.entries.len()
            invariant
                i <= self.entries.len(),
                forall|j: int| 0 <= j < i ==> (#[trigger] self@[j]).name != name@,
            decreases self.entries.len() - i,
        {
            let found = same_str(self.entries[i].name.as_str(), name);
            if found {
                proof {
                    lemma_position_of(self@, name@);
                    assert(self@[i as int] == self.entries@[i as int]@);
                    let k = position_of(self@, name@)->0;
                    assert(self@[k].name == name@);
                    assert(k == i);
                }
                return Some(&self.entries[i].rules);
            }
            i = i + 1;
        }
        proof {
            lemma_position_of(self@, name@);
        }
        None
    }
}

/// The reading machine: it is fed the lines of a grammar description one by
/// one and gives the table at the end.
#[derive(Debug)]
pub struct GrammarReader {
    entries: Vec<TokenRules>,
    current: Option<usize>,
    skipped: Vec<String>,
}

impl View for GrammarReader {
    type V = ReaderView;

    closed spec fn view(&self) -> ReaderView {
        ReaderView {
            table: self.entries@.map_values(|e: TokenRules| e@),
            current: match self.current {
                Some(i) => Some(i as int),
                None => None,
            },
            skipped: self.skipped@.map_values(|l: String| l@),
        }
    }
}

impl GrammarReader {
    #[verifier::type_invariant]
    spec fn well_formed(&self) -> bool {
        self@.well_formed()
    }

    /// A machine that has read nothing.
    pub fn new() -> (r: GrammarReader)
        ensures
            r@ == ReaderView::initial(),
    {
        let r = GrammarReader { entries: Vec::new(), current: None, skipped: Vec::new() };
        assert(r@.table =~= Seq::empty());
        assert(r@.skipped =~= Seq::empty());
        r
    }

    /// The state that the machine is in.
    pub fn state(&self) -> (s: ReaderState)
        ensures
            s == self@.state(),
    {
        match self.current {
            None => ReaderState::AwaitingToken,
            Some(_) => ReaderState::AccumulatingRules,
        }
    }

    /// The lines inside blocks that were neither blank nor rules, in the
    /// order in which they were passed over.
    pub fn skipped_lines(&self) -> (r: &Vec<String>)
        ensures
            r@.map_values(|l: String| l@) == self@.skipped,
    {
        &self.skipped
    }

    /// Feeds the machine one line and gives the machine after it.
    pub fn feed_line(self, line: &str) -> (next: GrammarReader)
        ensures
            next@ == self@.step(line@),
    {
        let chars = chars_of(line);
        self.feed(&chars)
    }

    /// Feeds the machine one line, given by its characters, and gives the
    /// machine after it.
    pub fn feed(self, line: &Vec<char>) -> (next: GrammarReader)
        ensures
            next@ == self@.step(line@),
    {
        proof {
            use_type_invariant(&self);
            lemma_step_well_formed(self@, line@);
        }
        let ghost before = self@;
        let GrammarReader { entries, current, skipped } = self;
        let mut entries = entries;
        let mut current = current;
        let mut skipped = skipped;
        let ghost old_entries = entries@;
        let ghost old_skipped = skipped@;
        assert(before.table == old_entries.map_values(|e: TokenRules| e@));
        assert(before.skipped == old_skipped.map_values(|l: String| l@));
        match current {
            None => match token_header_of(line) {
                Some(name) => {
                    let at = find_entry(&entries, &name);
                    proof {
                        lemma_position_of(before.table, name@);
                    }
                    match at {
                        Some(i) => {
                            entries[i].rules = Vec::new();
                            current = Some(i);
                            assert(entries@[i as int]@ == TokenRulesView {
                                name: name@,
                                rules: Seq::empty(),
                            }) by {
                                assert(before.table[i as int] == old_entries[i as int]@);
                                assert(entries@[i as int]@.rules =~= Seq::empty());
                            }
                            assert(entries@.map_values(|e: TokenRules| e@) =~= before.step(
                                line@,
                            ).table) by {
                                assert forall|j: int| 0 <= j < entries@.len() && j != i implies entries@[j]
                                    == old_entries[j] by {}
                            }
                        },
                        None => {
                            let i = entries.len();
                            entries.push(TokenRules { name, rules: Vec::new() });
                            current = Some(i);
                            assert(entries@[i as int]@ == TokenRulesView {
                                name: name@,
                                rules: Seq::empty(),
                            }) by {
                                assert(entries@[i as int]@.rules =~= Seq::empty());
                            }
                            assert(entries@.map_values(|e: TokenRules| e@) =~= before.step(
                                line@,
                            ).table);
                        },
                    }
                },
                None => {},
            },
            Some(i) => {
                if blank_line_of(line) {
                    current = None;
                } else {
                    match rule_line_of(line) {
                        Some(rule) => {
                            let ghost pushed = rule@;
                            entries[i].rules.push(rule);
                            assert(entries@[i as int]@ == TokenRulesView {
                                name: before.table[i as int].name,
                                rules: before.table[i as int].rules.push(pushed),
                            }) by {
                                assert(before.table[i as int] == old_entries[i as int]@);
                                assert(entries@[i as int]@.rules =~= before.table[i as int].rules.push(
                                    pushed,
                                ));
                            }
                            assert(entries@.map_values(|e: TokenRules| e@) =~= before.step(
                                line@,
                            ).table) by {
                                assert forall|j: int| 0 <= j < entries@.len() && j != i implies entries@[j]
                                    == old_entries[j] by {}
                            }
                        },
                        None => {
                            skipped.push(text_of(line, 0, line.len()));
                            assert(line@.subrange(0, line@.len() as int) =~= line@);
                            assert(skipped@.map_values(|l: String| l@) =~= before.step(
                                line@,
                            ).skipped);
                        },
                    }
                }
            },
        }
        assert(entries@.map_values(|e: TokenRules| e@) == before.step(line@).table);
        assert(skipped@.map_values(|l: String| l@) == before.step(line@).skipped);
        GrammarReader { entries, current, skipped }
    }

    /// Ends the reading and gives the table. A block that is still open
    /// keeps the rules that were read for it.
    pub fn finish(self) -> (t: RuleTable)
        ensures
            t@ == self@.table,
    {
        proof {
            use_type_invariant(&self);
        }
        RuleTable { entries: self.entries }
    }
}

/// The index of the first entry with the given name.
fn find_entry(entries: &Vec<TokenRules>, name: &String) -> (r: Option<usize>)
    ensures
        match r {
            Some(i) => position_of(entries@.map_values(|e: TokenRules| e@), name@) == Some(
                i as int,
            ) && i < entries.len(),
            None => position_of(entries@.map_values(|e: TokenRules| e@), name@) is None,
        },
{
    let ghost table = entries@.map_values(|e: TokenRules| e@);
    let mut i: usize = 0;
    while i < entries.len()
        invariant
            i <= entries.len(),
            table == entries@.map_values(|e: TokenRules| e@),
            forall|j: int| 0 <= j < i ==> (#[trigger] table[j]).name != name@,
        decreases entries.len() - i,
    {
        if entries[i].name == *name {
            proof {
                lemma_position_of(table, name@);
                assert(table[i as int] == entries@[i as int]@);
                let k = position_of(table, name@)->0;
                assert(table[k].name == name@);
                assert(k == i);
            }
            return Some(i);
        }
        assert(table[i as int] == entries@[i as int]@);
        i = i + 1;
    }
    proof {
        lemma_position_of(table, name@);
    }
    None
}

/// Reads a grammar description and gives its table: each token with the
/// rules of its block. A block that the end of the text leaves open keeps
/// its rules.
pub fn read_rules(text: &str) -> (t: RuleTable)
    ensures
        t@ == read_rules_spec(text@),
        table_well_formed(t@),
{
    let reader = read_all(text);
    proof {
        lemma_run_well_formed(ReaderView::initial(), lines_of(text@));
    }
    reader.finish()
}

/// Feeds a machine that has read nothing the lines of a text, and gives the
/// machine after the last of them.
pub fn read_all(text: &str) -> (r: GrammarReader)
    ensures
        r@ == ReaderView::initial().run(lines_of(text@)),
{
    let chars = chars_of(text);
    let n = chars.len();
    let mut reader = GrammarReader::new();
    let mut from: usize = 0;
    let ghost mut done: Seq<Seq<char>> = Seq::empty();
    assert(done + lines_from(chars@, 0) =~= lines_of(text@));
    while from < n
        invariant
            n == chars.len(),
            chars@ == text@,
            from <= n,
            reader@ == ReaderView::initial().run(done),
            lines_of(text@) == done + lines_from(chars@, from as int),
        decreases n - from,
    {
        let end = scan_run(&chars, from, CharClass::Inline);
        let line = sub_chars(&chars, from, end);
        let ghost before = done;
        reader = reader.feed(&line);
        proof {
            done = done.push(line@);
            assert(done.drop_last() =~= before);
            assert(done.last() == line@);
        }
        if end < n {
            assert(done + lines_from(chars@, end as int + 1) =~= before + lines_from(
                chars@,
                from as int,
            ));
            from = end + 1;
        } else {
            assert(done + lines_from(chars@, n as int) =~= before + lines_from(
                chars@,
                from as int,
            ));
            from = n;
        }
    }
    assert(done + lines_from(chars@, from as int) =~= done);
    reader
}

/// The characters of `s` from index `from` up to index `to`.
fn sub_chars(s: &Vec<char>, from: usize, to: usize) -> (r: Vec<char>)
    requires
        from <= to <= s.len(),
    ensures
        r@ == s@.subrange(from as int, to as int),
{
    let mut r: Vec<char> = Vec::new();
    let mut i: usize = from;
    while i < to
        invariant
            from <= i <= to <= s.len(),
            r@ == s@.subrange(from as int, i as int),
        decreases to - i,
    {
        r.push(s[i]);
        i = i + 1;
        assert(r@ == s@.subrange(from as int, i as int));
    }
    r
}

} // verus!
