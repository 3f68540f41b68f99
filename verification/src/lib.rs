//! The front end of the Aleph tool chain: reading a grammar description
//! into a table of rules, and the syntax tree with its structural format.
//!
//! - [`grammar`] tells the two line shapes of a grammar description apart,
//!   and [`reader`] walks its lines and gathers each token's rules.
//! - [`syntax`] holds the syntax tree; [`codec`] writes a tree as a JSON
//!   document and reads it back, [`names`] lists the tags and keys of that
//!   format, and [`json`] is the document with its textual form.
//! - [`roundtrip`] and [`spelling`] prove what holds of the format.
//! - [`parser`] names what the stages around the tree offer.
//!
//! The functions of this module help generators: they join rendered lists
//! and compute indentation.

use crate::syntax::AlephTree;
use vstd::prelude::*;
use vstd::string::*;

pub mod codec;
pub mod grammar;
pub mod json;
pub mod names;
pub mod parser;
pub mod reader;
pub mod roundtrip;
pub mod spelling;
pub mod syntax;
pub mod text;

verus! {

/// A text written `n` times over; nothing where `n` is not positive.
pub open spec fn repeated(unit: Seq<char>, n: int) -> Seq<char>
    decreases n,
{
    if n <= 0 {
        Seq::empty()
    } else {
        repeated(unit, n - 1) + unit
    }
}

/// Texts put one after the other, with a separator between each two.
pub open spec fn joined(parts: Seq<Seq<char>>, sep: Seq<char>) -> Seq<char>
    decreases parts.len(),
{
    if parts.len() == 0 {
        Seq::empty()
    } else if parts.len() == 1 {
        parts[0]
    } else {
        joined(parts.drop_last(), sep) + sep + parts.last()
    }
}

/// The values of a sequence of strings.
pub open spec fn views_of(parts: Seq<String>) -> Seq<Seq<char>> {
    Seq::new(parts.len(), |i: int| parts[i]@)
}

/// The same items in the opposite order.
fn reversed<T>(v: Vec<T>) -> (r: Vec<T>)
    ensures
        r@.len() == v@.len(),
        forall|i: int| 0 <= i < v@.len() ==> r@[i] == v@[v@.len() - 1 - i],
{
    let mut v = v;
    let ghost all = v@;
    let mut r: Vec<T> = Vec::new();
    while v.len() > 0
        invariant
            v@.len() + r@.len() == all.len(),
            v@ == all.take(v@.len() as int),
            forall|i: int| 0 <= i < r@.len() ==> r@[i] == all[all.len() - 1 - i],
        decreases v.len(),
    {
        let item = v.pop().unwrap();
        r.push(item);
    }
    r
}

/// Renders each node of a list with `f`, at depth 0, and joins the texts
/// with `sep` between each two.
pub fn gen_list_expr_sep<F: Fn(AlephTree, i64) -> String>(
    ast_list: Vec<Box<AlephTree>>,
    f: F,
    sep: &str,
) -> (r: String)
    requires
        forall|i: int| 0 <= i < ast_list@.len() ==> call_requires(f, (*ast_list@[i], 0i64)),
    ensures
        exists|parts: Seq<String>|
            {
                &&& parts.len() == ast_list@.len()
                &&& forall|i: int|
                    0 <= i < parts.len() ==> call_ensures(
                        f,
                        (*ast_list@[i], 0i64),
                        #[trigger] parts[i],
                    )
                &&& r@ == joined(views_of(parts), sep@)
            },
{
    let ghost all = ast_list@;
    let n = ast_list.len();
    let mut rest = reversed(ast_list);
    let mut res = String::new();
    let ghost mut parts: Seq<String> = Seq::empty();
    assert(views_of(parts) =~= Seq::empty());
    while rest.len() > 0
        invariant
            all.len() == n,
            rest@.len() + parts.len() == n,
            forall|i: int| 0 <= i < rest@.len() ==> rest@[i] == all[n - 1 - i],
            forall|i: int| 0 <= i < n ==> call_requires(f, (*all[i], 0i64)),
            forall|i: int|
                0 <= i < parts.len() ==> call_ensures(f, (*all[i], 0i64), #[trigger] parts[i]),
            res@ == joined(views_of(parts), sep@),
        decreases rest.len(),
    {
        let node = rest.pop().unwrap();
        let ghost k = parts.len() as int;
        assert(node == all[k]);
        let part = f(*node, 0);
        if n - rest.len() > 1 {
            res.append(sep);
        }
        res.append(part.as_str());
        proof {
            let before = parts;
            parts = parts.push(part);
            assert(views_of(parts).drop_last() =~= views_of(before));
            assert(views_of(parts).last() == part@);
            if k == 0 {
                assert(res@ =~= part@);
            }
        }
    }
    res
}

/// Renders each node of a list with `f`, at depth 0, and joins the texts
/// with one space between each two.
pub fn gen_list_expr<F: Fn(AlephTree, i64) -> String>(ast_list: Vec<Box<AlephTree>>, f: F) -> (r:
    String)
    requires
        forall|i: int| 0 <= i < ast_list@.len() ==> call_requires(f, (*ast_list@[i], 0i64)),
    ensures
        exists|parts: Seq<String>|
            {
                &&& parts.len() == ast_list@.len()
                &&& forall|i: int|
                    0 <= i < parts.len() ==> call_ensures(
                        f,
                        (*ast_list@[i], 0i64),
                        #[trigger] parts[i],
                    )
                &&& r@ == joined(views_of(parts), seq![' '])
            },
{
    proof {
        reveal_strlit(" ");
        assert(" "@ =~= seq![' ']);
    }
    gen_list_expr_sep(ast_list, f, " ")
}

/// The indentation of a nesting depth: `sep` once for each level, and
/// nothing for a depth that is not positive.
pub fn comp_indent_sep(indent: i64, sep: String) -> (r: String)
    ensures
        r@ == repeated(sep@, indent as int),
{
    let mut res = String::new();
    let mut i: i64 = 0;
    while i < indent
        invariant
            0 <= i,
            i == 0 || i <= indent,
            res@ == repeated(sep@, i as int),
        decreases indent - i,
    {
        res.append(sep.as_str());
        i = i + 1;
    }
    res
}

/// The indentation of a nesting depth, four spaces for each level.
pub fn comp_indent(indent: i64) -> (r: String)
    ensures
        r@ == repeated(seq![' ', ' ', ' ', ' '], indent as int),
{
    let unit = String::from_str("    ");
    proof {
        reveal_strlit("    ");
        assert(unit@ =~= seq![' ', ' ', ' ', ' ']);
    }
    comp_indent_sep(indent, unit)
}

} // verus!
