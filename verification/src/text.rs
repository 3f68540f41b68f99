//! Characters and character sequences: the classes that the grammar format
//! distinguishes, and the few text operations the rest of the crate needs.

use vstd::prelude::*;
use vstd::std_specs::iter::IteratorSpec;

verus! {

/// A class of characters that a scan can run over.
#[derive(Clone, Copy, Debug, PartialEq, Eq)]
pub enum CharClass {
    /// Blank space: space, tab, line feed, vertical tab, form feed, carriage return.
    Space,
    /// The asterisk.
    Star,
    /// A letter of `a`–`z` or `A`–`Z`, a digit, or the underscore.
    Word,
    /// A digit of `0`–`9`.
    Digit,
    /// Any character but the line feed.
    Inline,
}

/// Whether `c` is an upper-case letter of `A`–`Z`.
pub open spec fn is_upper(c: char) -> bool {
    'A' <= c <= 'Z'
}

/// Whether `c` is a digit of `0`–`9`.
pub open spec fn is_digit(c: char) -> bool {
    '0' <= c <= '9'
}

/// Whether `c` is a word character: a letter of `a`–`z` or `A`–`Z`, a digit,
/// or the underscore.
pub open spec fn is_word(c: char) -> bool {
    'a' <= c <= 'z' || is_upper(c) || is_digit(c) || c == '_'
}

/// Whether `c` is blank space: space, tab, line feed, vertical tab, form feed
/// or carriage return.
pub open spec fn is_space(c: char) -> bool {
    c == ' ' || ('\t' <= c <= '\r')
}

impl CharClass {
    /// Whether `c` belongs to the class.
    pub open spec fn holds(self, c: char) -> bool {
        match self {
            CharClass::Space => is_space(c),
            CharClass::Star => c == '*',
            CharClass::Word => is_word(c),
            CharClass::Digit => is_digit(c),
            CharClass::Inline => c != '\n',
        }
    }

    /// Whether `c` belongs to the class.
    pub fn has(self, c: char) -> (r: bool)
        ensures
            r == self.holds(c),
    {
        match self {
            CharClass::Space => c == ' ' || ('\t' <= c && c <= '\r'),
            CharClass::Star => c == '*',
            CharClass::Word => ('a' <= c && c <= 'z') || ('A' <= c && c <= 'Z') || ('0' <= c
                && c <= '9') || c == '_',
            CharClass::Digit => '0' <= c && c <= '9',
            CharClass::Inline => c != '\n',
        }
    }
}

/// Where the run of `class` characters that starts at `from` ends: the first
/// index at or after `from` that holds no character of the class.
pub open spec fn run_end(s: Seq<char>, from: int, class: CharClass) -> int
    decreases s.len() - from,
{
    if 0 <= from < s.len() && class.holds(s[from]) {
        run_end(s, from + 1, class)
    } else {
        from
    }
}

/// Where the run of `class` characters that ends before `to` starts: the
/// least index such that every character from it up to `to` is of the class.
pub open spec fn run_start(s: Seq<char>, to: int, class: CharClass) -> int
    decreases to,
{
    if 0 < to <= s.len() && class.holds(s[to - 1]) {
        run_start(s, to - 1, class)
    } else {
        to
    }
}

/// What `run_end` is: everything from `from` up to it is of the class, and
/// the character at it, if any, is not.
pub proof fn lemma_run_end(s: Seq<char>, from: int, class: CharClass)
    requires
        0 <= from <= s.len(),
    ensures
        from <= run_end(s, from, class) <= s.len(),
        forall|i: int| from <= i < run_end(s, from, class) ==> class.holds(#[trigger] s[i]),
        run_end(s, from, class) < s.len() ==> !class.holds(s[run_end(s, from, class)]),
    decreases s.len() - from,
{
    if from < s.len() && class.holds(s[from]) {
        lemma_run_end(s, from + 1, class);
    }
}

/// What `run_start` is: everything from it up to `to` is of the class, and
/// the character before it, if any, is not.
pub proof fn lemma_run_start(s: Seq<char>, to: int, class: CharClass)
    requires
        0 <= to <= s.len(),
    ensures
        0 <= run_start(s, to, class) <= to,
        forall|i: int| run_start(s, to, class) <= i < to ==> class.holds(#[trigger] s[i]),
        run_start(s, to, class) > 0 ==> !class.holds(s[run_start(s, to, class) - 1]),
    decreases to,
{
    if 0 < to && class.holds(s[to - 1]) {
        lemma_run_start(s, to - 1, class);
    }
}

/// A run is fixed by its two ends: if everything in `from..end` is of the
/// class and the character at `end`, if any, is not, the run ends at `end`.
pub proof fn lemma_run_end_unique(s: Seq<char>, from: int, end: int, class: CharClass)
    requires
        0 <= from <= end <= s.len(),
        forall|i: int| from <= i < end ==> class.holds(#[trigger] s[i]),
        end < s.len() ==> !class.holds(s[end]),
    ensures
        run_end(s, from, class) == end,
    decreases end - from,
{
    if from < end {
        lemma_run_end_unique(s, from + 1, end, class);
    }
}

/// The characters of `s`, in order.
pub fn chars_of(s: &str) -> (v: Vec<char>)
    ensures
        v@ == s@,
{
    let mut v: Vec<char> = Vec::new();
    for c in it: s.chars()
        invariant
            v@ == it.seq().take(it.index() as int),
    {
        v.push(c);
    }
    v
}

/// Scans forward over a run of `class` characters.
pub fn scan_run(s: &Vec<char>, from: usize, class: CharClass) -> (end: usize)
    requires
        from <= s.len(),
    ensures
        end == run_end(s@, from as int, class),
        from <= end <= s.len(),
{
    let mut i: usize = from;
    while i < s.len() && class.has(s[i])
        invariant
            from <= i <= s.len(),
            run_end(s@, from as int, class) == run_end(s@, i as int, class),
        decreases s.len() - i,
    {
        i = i + 1;
    }
    i
}

/// Scans backward over a run of `class` characters.
pub fn scan_run_back(s: &Vec<char>, to: usize, class: CharClass) -> (start: usize)
    requires
        to <= s.len(),
    ensures
        start == run_start(s@, to as int, class),
        start <= to,
{
    let mut i: usize = to;
    while i > 0 && class.has(s[i - 1])
        invariant
            i <= to <= s.len(),
            run_start(s@, to as int, class) == run_start(s@, i as int, class),
        decreases i,
    {
        i = i - 1;
    }
    i
}

/// `String::push` of std: appends one character to a string.
#[verifier::external_body]
fn push_char(s: &mut String, c: char)
    ensures
        final(s)@ == old(s)@.push(c),
{
    s.push(c)
}

/// The characters of `s` from index `from` up to index `to`, as a string.
pub fn text_of(s: &Vec<char>, from: usize, to: usize) -> (r: String)
    requires
        from <= to <= s.len(),
    ensures
        r@ == s@.subrange(from as int, to as int),
{
    let mut r = String::new();
    let mut i: usize = from;
    while i < to
        invariant
            from <= i <= to <= s.len(),
            r@ == s@.subrange(from as int, i as int),
        decreases to - i,
    {
        push_char(&mut r, s[i]);
        i = i + 1;
        assert(r@ == s@.subrange(from as int, i as int));
    }
    r
}

/// Whether two strings hold the same characters.
pub fn same_str(a: &str, b: &str) -> (r: bool)
    ensures
        r == (a@ == b@),
{
    let x = chars_of(a);
    let y = chars_of(b);
    if x.len() != y.len() {
        return false;
    }
    let mut i: usize = 0;
    while i < x.len()
        invariant
            x@ == a@,
            y@ == b@,
            x.len() == y.len(),
            i <= x.len(),
            forall|j: int| 0 <= j < i ==> x@[j] == y@[j],
        decreases x.len() - i,
    {
        if x[i] != y[i] {
            return false;
        }
        i = i + 1;
    }
    assert(x@ =~= y@);
    true
}

/// Whether a line holds nothing but blank space.
pub open spec fn is_blank(line: Seq<char>) -> bool {
    run_end(line, 0, CharClass::Space) == line.len()
}

} // verus!
