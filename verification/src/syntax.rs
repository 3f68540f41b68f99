//! The syntax tree: one node for each construct of the language.

use crate::codec::{decode, decode_spec, encode, encode_spec, DecodeError, DecodeErrorView};
use crate::json::{json_document, json_rendering, parse_json, render_json, JsonTextError};
use crate::names::NodeKind;
use vstd::prelude::*;
use vstd::utf8::{decode_utf8, valid_utf8};

verus! {

/// A node of the syntax tree.
///
/// Literals keep the text in which they were written. A flag such as
/// `is_pointer` is kept as text too.
#[derive(Debug, PartialEq)]
#[allow(inconsistent_fields)]
pub enum AlephTree {
    Unit,
    Break,
    Continue,
    Ellipsis,
    Int { value: String },
    Float { value: String },
    Bool { value: String },
    String { value: String },
    Ident { value: String },
    Bytes { elems: Vec<u8> },
    Complex { real: String, imag: String },
    Tuple { elems: Vec<Box<AlephTree>> },
    Array { elems: Vec<Box<AlephTree>> },
    Neg { expr: Box<AlephTree> },
    Not { bool_expr: Box<AlephTree> },
    And { bool_expr1: Box<AlephTree>, bool_expr2: Box<AlephTree> },
    Or { bool_expr1: Box<AlephTree>, bool_expr2: Box<AlephTree> },
    Add { number_expr1: Box<AlephTree>, number_expr2: Box<AlephTree> },
    Sub { number_expr1: Box<AlephTree>, number_expr2: Box<AlephTree> },
    Mul { number_expr1: Box<AlephTree>, number_expr2: Box<AlephTree> },
    Div { number_expr1: Box<AlephTree>, number_expr2: Box<AlephTree> },
    Eq { expr1: Box<AlephTree>, expr2: Box<AlephTree> },
    LE { expr1: Box<AlephTree>, expr2: Box<AlephTree> },
    In { expr1: Box<AlephTree>, expr2: Box<AlephTree> },
    If { condition: Box<AlephTree>, then: Box<AlephTree>, els: Box<AlephTree> },
    While { init_expr: Box<AlephTree>, condition: Box<AlephTree>, loop_expr: Box<AlephTree>, post_expr: Box<AlephTree> },
    Let { var: String, is_pointer: String, value: Box<AlephTree>, expr: Box<AlephTree> },
    LetRec { name: String, args: Vec<Box<AlephTree>>, body: Box<AlephTree> },
    Get { array_name: String, elem: Box<AlephTree> },
    Put { array_name: String, elem: Box<AlephTree>, value: Box<AlephTree>, insert: String },
    Remove { array_name: String, elem: Box<AlephTree>, is_value: String },
    Length { var: String },
    Match { expr: Box<AlephTree>, case_list: Vec<Box<AlephTree>> },
    MatchLine { condition: Box<AlephTree>, case_expr: Box<AlephTree> },
    Var { var: String, is_pointer: String },
    App { object_name: String, fun: Box<AlephTree>, param_list: Vec<Box<AlephTree>> },
    Stmts { expr1: Box<AlephTree>, expr2: Box<AlephTree> },
    Iprt { name: String },
    Clss { name: String, attribute_list: Vec<String>, body: Box<AlephTree> },
    Return { value: Box<AlephTree> },
    Comment { value: String },
    CommentMulti { value: String },
    Assert { condition: Box<AlephTree>, message: Box<AlephTree> },
}

/// The mathematical value of an [`AlephTree`].
#[allow(inconsistent_fields)]
pub enum TreeView {
    Unit,
    Break,
    Continue,
    Ellipsis,
    Int { value: Seq<char> },
    Float { value: Seq<char> },
    Bool { value: Seq<char> },
    String { value: Seq<char> },
    Ident { value: Seq<char> },
    Bytes { elems: Seq<u8> },
    Complex { real: Seq<char>, imag: Seq<char> },
    Tuple { elems: Seq<TreeView> },
    Array { elems: Seq<TreeView> },
    Neg { expr: Box<TreeView> },
    Not { bool_expr: Box<TreeView> },
    And { bool_expr1: Box<TreeView>, bool_expr2: Box<TreeView> },
    Or { bool_expr1: Box<TreeView>, bool_expr2: Box<TreeView> },
    Add { number_expr1: Box<TreeView>, number_expr2: Box<TreeView> },
    Sub { number_expr1: Box<TreeView>, number_expr2: Box<TreeView> },
    Mul { number_expr1: Box<TreeView>, number_expr2: Box<TreeView> },
    Div { number_expr1: Box<TreeView>, number_expr2: Box<TreeView> },
    Eq { expr1: Box<TreeView>, expr2: Box<TreeView> },
    LE { expr1: Box<TreeView>, expr2: Box<TreeView> },
    In { expr1: Box<TreeView>, expr2: Box<TreeView> },
    If { condition: Box<TreeView>, then: Box<TreeView>, els: Box<TreeView> },
    While { init_expr: Box<TreeView>, condition: Box<TreeView>, loop_expr: Box<TreeView>, post_expr: Box<TreeView> },
    Let { var: Seq<char>, is_pointer: Seq<char>, value: Box<TreeView>, expr: Box<TreeView> },
    LetRec { name: Seq<char>, args: Seq<TreeView>, body: Box<TreeView> },
    Get { array_name: Seq<char>, elem: Box<TreeView> },
    Put { array_name: Seq<char>, elem: Box<TreeView>, value: Box<TreeView>, insert: Seq<char> },
    Remove { array_name: Seq<char>, elem: Box<TreeView>, is_value: Seq<char> },
    Length { var: Seq<char> },
    Match { expr: Box<TreeView>, case_list: Seq<TreeView> },
    MatchLine { condition: Box<TreeView>, case_expr: Box<TreeView> },
    Var { var: Seq<char>, is_pointer: Seq<char> },
    App { object_name: Seq<char>, fun: Box<TreeView>, param_list: Seq<TreeView> },
    Stmts { expr1: Box<TreeView>, expr2: Box<TreeView> },
    Iprt { name: Seq<char> },
    Clss { name: Seq<char>, attribute_list: Seq<Seq<char>>, body: Box<TreeView> },
    Return { value: Box<TreeView> },
    Comment { value: Seq<char> },
    CommentMulti { value: Seq<char> },
    Assert { condition: Box<TreeView>, message: Box<TreeView> },
}

/// The values of a sequence of nodes.
pub open spec fn nodes_view(nodes: Seq<Box<AlephTree>>) -> Seq<TreeView>
    decreases nodes,
{
    Seq::new(
        nodes.len(),
        |i: int|
            if 0 <= i < nodes.len() {
                (*nodes[i]).view()
            } else {
                TreeView::Unit
            },
    )
}

/// The values of a sequence of strings.
pub open spec fn texts_view(texts: Seq<String>) -> Seq<Seq<char>> {
    Seq::new(texts.len(), |i: int| texts[i]@)
}

impl View for AlephTree {
    type V = TreeView;

    open spec fn view(&self) -> TreeView
        decreases self,
    {
        match self {
            AlephTree::Unit => TreeView::Unit,
            AlephTree::Break => TreeView::Break,
            AlephTree::Continue => TreeView::Continue,
            AlephTree::Ellipsis => TreeView::Ellipsis,
            AlephTree::Int { value } => TreeView::Int {
                value: value@,
            },
            AlephTree::Float { value } => TreeView::Float {
                value: value@,
            },
            AlephTree::Bool { value } => TreeView::Bool {
                value: value@,
            },
            AlephTree::String { value } => TreeView::String {
                value: value@,
            },
            AlephTree::Ident { value } => TreeView::Ident {
                value: value@,
            },
            AlephTree::Bytes { elems } => TreeView::Bytes {
                elems: elems@,
            },
            AlephTree::Complex { real: re, imag } => TreeView::Complex {
                real: re@,
                imag: imag@,
            },
            AlephTree::Tuple { elems } => TreeView::Tuple {
                elems: nodes_view(elems@),
            },
            AlephTree::Array { elems } => TreeView::Array {
                elems: nodes_view(elems@),
            },
            AlephTree::Neg { expr } => TreeView::Neg {
                expr: Box::new((**expr).view()),
            },
            AlephTree::Not { bool_expr } => TreeView::Not {
                bool_expr: Box::new((**bool_expr).view()),
            },
            AlephTree::And { bool_expr1, bool_expr2 } => TreeView::And {
                bool_expr1: Box::new((**bool_expr1).view()),
                bool_expr2: Box::new((**bool_expr2).view()),
            },
            AlephTree::Or { bool_expr1, bool_expr2 } => TreeView::Or {
                bool_expr1: Box::new((**bool_expr1).view()),
                bool_expr2: Box::new((**bool_expr2).view()),
            },
            AlephTree::Add { number_expr1, number_expr2 } => TreeView::Add {
                number_expr1: Box::new((**number_expr1).view()),
                number_expr2: Box::new((**number_expr2).view()),
            },
            AlephTree::Sub { number_expr1, number_expr2 } => TreeView::Sub {
                number_expr1: Box::new((**number_expr1).view()),
                number_expr2: Box::new((**number_expr2).view()),
            },
            AlephTree::Mul { number_expr1, number_expr2 } => TreeView::Mul {
                number_expr1: Box::new((**number_expr1).view()),
                number_expr2: Box::new((**number_expr2).view()),
            },
            AlephTree::Div { number_expr1, number_expr2 } => TreeView::Div {
                number_expr1: Box::new((**number_expr1).view()),
                number_expr2: Box::new((**number_expr2).view()),
            },
            AlephTree::Eq { expr1, expr2 } => TreeView::Eq {
                expr1: Box::new((**expr1).view()),
                expr2: Box::new((**expr2).view()),
            },
            AlephTree::LE { expr1, expr2 } => TreeView::LE {
                expr1: Box::new((**expr1).view()),
                expr2: Box::new((**expr2).view()),
            },
            AlephTree::In { expr1, expr2 } => TreeView::In {
                expr1: Box::new((**expr1).view()),
                expr2: Box::new((**expr2).view()),
            },
            AlephTree::If { condition, then, els } => TreeView::If {
                condition: Box::new((**condition).view()),
                then: Box::new((**then).view()),
                els: Box::new((**els).view()),
            },
            AlephTree::While { init_expr, condition, loop_expr, post_expr } => TreeView::While {
                init_expr: Box::new((**init_expr).view()),
                condition: Box::new((**condition).view()),
                loop_expr: Box::new((**loop_expr).view()),
                post_expr: Box::new((**post_expr).view()),
            },
            AlephTree::Let { var, is_pointer, value, expr } => TreeView::Let {
                var: var@,
                is_pointer: is_pointer@,
                value: Box::new((**value).view()),
                expr: Box::new((**expr).view()),
            },
            AlephTree::LetRec { name, args, body } => TreeView::LetRec {
                name: name@,
                args: nodes_view(args@),
                body: Box::new((**body).view()),
            },
            AlephTree::Get { array_name, elem } => TreeView::Get {
                array_name: array_name@,
                elem: Box::new((**elem).view()),
            },
            AlephTree::Put { array_name, elem, value, insert } => TreeView::Put {
                array_name: array_name@,
                elem: Box::new((**elem).view()),
                value: Box::new((**value).view()),
                insert: insert@,
            },
            AlephTree::Remove { array_name, elem, is_value } => TreeView::Remove {
                array_name: array_name@,
                elem: Box::new((**elem).view()),
                is_value: is_value@,
            },
            AlephTree::Length { var } => TreeView::Length {
                var: var@,
            },
            AlephTree::Match { expr, case_list } => TreeView::Match {
                expr: Box::new((**expr).view()),
                case_list: nodes_view(case_list@),
            },
            AlephTree::MatchLine { condition, case_expr } => TreeView::MatchLine {
                condition: Box::new((**condition).view()),
                case_expr: Box::new((**case_expr).view()),
            },
            AlephTree::Var { var, is_pointer } => TreeView::Var {
                var: var@,
                is_pointer: is_pointer@,
            },
            AlephTree::App { object_name, fun, param_list } => TreeView::App {
                object_name: object_name@,
                fun: Box::new((**fun).view()),
                param_list: nodes_view(param_list@),
            },
            AlephTree::Stmts { expr1, expr2 } => TreeView::Stmts {
                expr1: Box::new((**expr1).view()),
                expr2: Box::new((**expr2).view()),
            },
            AlephTree::Iprt { name } => TreeView::Iprt {
                name: name@,
            },
            AlephTree::Clss { name, attribute_list, body } => TreeView::Clss {
                name: name@,
                attribute_list: texts_view(attribute_list@),
                body: Box::new((**body).view()),
            },
            AlephTree::Return { value } => TreeView::Return {
                value: Box::new((**value).view()),
            },
            AlephTree::Comment { value } => TreeView::Comment {
                value: value@,
            },
            AlephTree::CommentMulti { value } => TreeView::CommentMulti {
                value: value@,
            },
            AlephTree::Assert { condition, message } => TreeView::Assert {
                condition: Box::new((**condition).view()),
                message: Box::new((**message).view()),
            },
        }
    }
}

impl TreeView {
    /// The kind of the node.
    pub open spec fn kind(self) -> NodeKind {
        match self {
            TreeView::Unit => NodeKind::Unit,
            TreeView::Break => NodeKind::Break,
            TreeView::Continue => NodeKind::Continue,
            TreeView::Ellipsis => NodeKind::Ellipsis,
            TreeView::Int { .. } => NodeKind::Int,
            TreeView::Float { .. } => NodeKind::Float,
            TreeView::Bool { .. } => NodeKind::Bool,
            TreeView::String { .. } => NodeKind::String,
            TreeView::Ident { .. } => NodeKind::Ident,
            TreeView::Bytes { .. } => NodeKind::Bytes,
            TreeView::Complex { .. } => NodeKind::Complex,
            TreeView::Tuple { .. } => NodeKind::Tuple,
            TreeView::Array { .. } => NodeKind::Array,
            TreeView::Neg { .. } => NodeKind::Neg,
            TreeView::Not { .. } => NodeKind::Not,
            TreeView::And { .. } => NodeKind::And,
            TreeView::Or { .. } => NodeKind::Or,
            TreeView::Add { .. } => NodeKind::Add,
            TreeView::Sub { .. } => NodeKind::Sub,
            TreeView::Mul { .. } => NodeKind::Mul,
            TreeView::Div { .. } => NodeKind::Div,
            TreeView::Eq { .. } => NodeKind::Eq,
            TreeView::LE { .. } => NodeKind::LE,
            TreeView::In { .. } => NodeKind::In,
            TreeView::If { .. } => NodeKind::If,
            TreeView::While { .. } => NodeKind::While,
            TreeView::Let { .. } => NodeKind::Let,
            TreeView::LetRec { .. } => NodeKind::LetRec,
            TreeView::Get { .. } => NodeKind::Get,
            TreeView::Put { .. } => NodeKind::Put,
            TreeView::Remove { .. } => NodeKind::Remove,
            TreeView::Length { .. } => NodeKind::Length,
            TreeView::Match { .. } => NodeKind::Match,
            TreeView::MatchLine { .. } => NodeKind::MatchLine,
            TreeView::Var { .. } => NodeKind::Var,
            TreeView::App { .. } => NodeKind::App,
            TreeView::Stmts { .. } => NodeKind::Stmts,
            TreeView::Iprt { .. } => NodeKind::Iprt,
            TreeView::Clss { .. } => NodeKind::Clss,
            TreeView::Return { .. } => NodeKind::Return,
            TreeView::Comment { .. } => NodeKind::Comment,
            TreeView::CommentMulti { .. } => NodeKind::CommentMulti,
            TreeView::Assert { .. } => NodeKind::Assert,
        }
    }

    /// The text that a literal or an identifier stands for: the text as it
    /// was written, and for bytes the text that they encode in UTF-8.
    /// Other nodes, and bytes that are not UTF-8, have none.
    pub open spec fn text_value(self) -> Option<Seq<char>> {
        match self {
            TreeView::Bool { value } => Some(value),
            TreeView::Int { value } => Some(value),
            TreeView::Float { value } => Some(value),
            TreeView::String { value } => Some(value),
            TreeView::Ident { value } => Some(value),
            TreeView::Bytes { elems } => if valid_utf8(elems) {
                Some(decode_utf8(elems))
            } else {
                None
            },
            _ => None,
        }
    }
}

/// Why a node has no text value.
#[derive(Clone, Copy, Debug, PartialEq, Eq, Structural)]
pub enum ValueError {
    /// The node is neither a literal nor an identifier.
    NotALiteral,
    /// The bytes are not UTF-8.
    InvalidUtf8,
}

/// `String::from_utf8` of std: the text that bytes encode, where they are
/// valid UTF-8, and nothing where they are not.
#[verifier::external_body]
fn text_of_utf8(bytes: Vec<u8>) -> (r: Option<String>)
    ensures
        r is Some <==> valid_utf8(bytes@),
        r matches Some(text) ==> text@ == decode_utf8(bytes@),
{
    String::from_utf8(bytes).ok()
}

/// A copy of a sequence of bytes.
fn copy_bytes(bytes: &Vec<u8>) -> (r: Vec<u8>)
    ensures
        r@ == bytes@,
{
    let mut r: Vec<u8> = Vec::new();
    let mut i: usize = 0;
    while i < bytes.len()
        invariant
            i <= bytes.len(),
            r@ == bytes@.take(i as int),
        decreases bytes.len() - i,
    {
        r.push(bytes[i]);
        i = i + 1;
    }
    r
}

/// A copy of a sequence of strings.
fn copy_texts(texts: &Vec<String>) -> (r: Vec<String>)
    ensures
        texts_view(r@) == texts_view(texts@),
{
    let mut r: Vec<String> = Vec::new();
    let mut i: usize = 0;
    while i < texts.len()
        invariant
            i <= texts.len(),
            r.len() == i,
            forall|j: int| 0 <= j < i ==> r@[j]@ == texts@[j]@,
        decreases texts.len() - i,
    {
        r.push(texts[i].clone());
        i = i + 1;
    }
    assert(texts_view(r@) =~= texts_view(texts@));
    r
}

/// A copy of a sequence of nodes.
fn copy_nodes(nodes: &Vec<Box<AlephTree>>) -> (r: Vec<Box<AlephTree>>)
    ensures
        nodes_view(r@) == nodes_view(nodes@),
    decreases nodes,
{
    let mut r: Vec<Box<AlephTree>> = Vec::new();
    let mut i: usize = 0;
    while i < nodes.len()
        invariant
            i <= nodes.len(),
            r.len() == i,
            forall|j: int| 0 <= j < i ==> r@[j]@ == nodes@[j]@,
        decreases nodes.len() - i,
    {
        r.push(Box::new(nodes[i].copy()));
        i = i + 1;
    }
    assert(nodes_view(r@) =~= nodes_view(nodes@));
    r
}

/// Puts each node of a sequence in a box of its own.
pub fn boxed(nodes: Vec<AlephTree>) -> (r: Vec<Box<AlephTree>>)
    ensures
        r@.len() == nodes@.len(),
        forall|i: int| 0 <= i < nodes@.len() ==> *r@[i] == nodes@[i],
{
    let mut nodes = nodes;
    let ghost all = nodes@;
    let mut back: Vec<Box<AlephTree>> = Vec::new();
    while nodes.len() > 0
        invariant
            nodes@.len() + back@.len() == all.len(),
            nodes@ == all.take(nodes@.len() as int),
            forall|j: int| 0 <= j < back@.len() ==> *back@[j] == all[all.len() - 1 - j],
        decreases nodes.len(),
    {
        let node = nodes.pop().unwrap();
        back.push(Box::new(node));
    }
    let mut r: Vec<Box<AlephTree>> = Vec::new();
    while back.len() > 0
        invariant
            r@.len() + back@.len() == all.len(),
            forall|j: int| 0 <= j < back@.len() ==> *back@[j] == all[all.len() - 1 - j],
            forall|j: int| 0 <= j < r@.len() ==> *r@[j] == all[j],
        decreases back.len(),
    {
        let node = back.pop().unwrap();
        r.push(node);
    }
    r
}

impl AlephTree {
    /// The kind of the node.
    pub fn kind(&self) -> (k: NodeKind)
        ensures
            k == self@.kind(),
    {
        match self {
            AlephTree::Unit => NodeKind::Unit,
            AlephTree::Break => NodeKind::Break,
            AlephTree::Continue => NodeKind::Continue,
            AlephTree::Ellipsis => NodeKind::Ellipsis,
            AlephTree::Int { .. } => NodeKind::Int,
            AlephTree::Float { .. } => NodeKind::Float,
            AlephTree::Bool { .. } => NodeKind::Bool,
            AlephTree::String { .. } => NodeKind::String,
            AlephTree::Ident { .. } => NodeKind::Ident,
            AlephTree::Bytes { .. } => NodeKind::Bytes,
            AlephTree::Complex { .. } => NodeKind::Complex,
            AlephTree::Tuple { .. } => NodeKind::Tuple,
            AlephTree::Array { .. } => NodeKind::Array,
            AlephTree::Neg { .. } => NodeKind::Neg,
            AlephTree::Not { .. } => NodeKind::Not,
            AlephTree::And { .. } => NodeKind::And,
            AlephTree::Or { .. } => NodeKind::Or,
            AlephTree::Add { .. } => NodeKind::Add,
            AlephTree::Sub { .. } => NodeKind::Sub,
            AlephTree::Mul { .. } => NodeKind::Mul,
            AlephTree::Div { .. } => NodeKind::Div,
            AlephTree::Eq { .. } => NodeKind::Eq,
            AlephTree::LE { .. } => NodeKind::LE,
            AlephTree::In { .. } => NodeKind::In,
            AlephTree::If { .. } => NodeKind::If,
            AlephTree::While { .. } => NodeKind::While,
            AlephTree::Let { .. } => NodeKind::Let,
            AlephTree::LetRec { .. } => NodeKind::LetRec,
            AlephTree::Get { .. } => NodeKind::Get,
            AlephTree::Put { .. } => NodeKind::Put,
            AlephTree::Remove { .. } => NodeKind::Remove,
            AlephTree::Length { .. } => NodeKind::Length,
            AlephTree::Match { .. } => NodeKind::Match,
            AlephTree::MatchLine { .. } => NodeKind::MatchLine,
            AlephTree::Var { .. } => NodeKind::Var,
            AlephTree::App { .. } => NodeKind::App,
            AlephTree::Stmts { .. } => NodeKind::Stmts,
            AlephTree::Iprt { .. } => NodeKind::Iprt,
            AlephTree::Clss { .. } => NodeKind::Clss,
            AlephTree::Return { .. } => NodeKind::Return,
            AlephTree::Comment { .. } => NodeKind::Comment,
            AlephTree::CommentMulti { .. } => NodeKind::CommentMulti,
            AlephTree::Assert { .. } => NodeKind::Assert,
        }
    }

    /// A copy of the node with everything below it.
    pub fn copy(&self) -> (r: AlephTree)
        ensures
            r@ == self@,
        decreases self,
    {
        match self {
            AlephTree::Unit => AlephTree::Unit,
            AlephTree::Break => AlephTree::Break,
            AlephTree::Continue => AlephTree::Continue,
            AlephTree::Ellipsis => AlephTree::Ellipsis,
            AlephTree::Int { value } => AlephTree::Int {
                value: value.clone(),
            },
            AlephTree::Float { value } => AlephTree::Float {
                value: value.clone(),
            },
            AlephTree::Bool { value } => AlephTree::Bool {
                value: value.clone(),
            },
            AlephTree::String { value } => AlephTree::String {
                value: value.clone(),
            },
            AlephTree::Ident { value } => AlephTree::Ident {
                value: value.clone(),
            },
            AlephTree::Bytes { elems } => AlephTree::Bytes {
                elems: copy_bytes(elems),
            },
            AlephTree::Complex { real: re, imag } => AlephTree::Complex {
                real: re.clone(),
                imag: imag.clone(),
            },
            AlephTree::Tuple { elems } => AlephTree::Tuple {
                elems: copy_nodes(elems),
            },
            AlephTree::Array { elems } => AlephTree::Array {
                elems: copy_nodes(elems),
            },
            AlephTree::Neg { expr } => AlephTree::Neg {
                expr: Box::new(expr.copy()),
            },
            AlephTree::Not { bool_expr } => AlephTree::Not {
                bool_expr: Box::new(bool_expr.copy()),
            },
            AlephTree::And { bool_expr1, bool_expr2 } => AlephTree::And {
                bool_expr1: Box::new(bool_expr1.copy()),
                bool_expr2: Box::new(bool_expr2.copy()),
            },
            AlephTree::Or { bool_expr1, bool_expr2 } => AlephTree::Or {
                bool_expr1: Box::new(bool_expr1.copy()),
                bool_expr2: Box::new(bool_expr2.copy()),
            },
            AlephTree::Add { number_expr1, number_expr2 } => AlephTree::Add {
                number_expr1: Box::new(number_expr1.copy()),
                number_expr2: Box::new(number_expr2.copy()),
            },
            AlephTree::Sub { number_expr1, number_expr2 } => AlephTree::Sub {
                number_expr1: Box::new(number_expr1.copy()),
                number_expr2: Box::new(number_expr2.copy()),
            },
            AlephTree::Mul { number_expr1, number_expr2 } => AlephTree::Mul {
                number_expr1: Box::new(number_expr1.copy()),
                number_expr2: Box::new(number_expr2.copy()),
            },
            AlephTree::Div { number_expr1, number_expr2 } => AlephTree::Div {
                number_expr1: Box::new(number_expr1.copy()),
                number_expr2: Box::new(number_expr2.copy()),
            },
            AlephTree::Eq { expr1, expr2 } => AlephTree::Eq {
                expr1: Box::new(expr1.copy()),
                expr2: Box::new(expr2.copy()),
            },
            AlephTree::LE { expr1, expr2 } => AlephTree::LE {
                expr1: Box::new(expr1.copy()),
                expr2: Box::new(expr2.copy()),
            },
            AlephTree::In { expr1, expr2 } => AlephTree::In {
                expr1: Box::new(expr1.copy()),
                expr2: Box::new(expr2.copy()),
            },
            AlephTree::If { condition, then, els } => AlephTree::If {
                condition: Box::new(condition.copy()),
                then: Box::new(then.copy()),
                els: Box::new(els.copy()),
            },
            AlephTree::While { init_expr, condition, loop_expr, post_expr } => AlephTree::While {
                init_expr: Box::new(init_expr.copy()),
                condition: Box::new(condition.copy()),
                loop_expr: Box::new(loop_expr.copy()),
                post_expr: Box::new(post_expr.copy()),
            },
            AlephTree::Let { var, is_pointer, value, expr } => AlephTree::Let {
                var: var.clone(),
                is_pointer: is_pointer.clone(),
                value: Box::new(value.copy()),
                expr: Box::new(expr.copy()),
            },
            AlephTree::LetRec { name, args, body } => AlephTree::LetRec {
                name: name.clone(),
                args: copy_nodes(args),
                body: Box::new(body.copy()),
            },
            AlephTree::Get { array_name, elem } => AlephTree::Get {
                array_name: array_name.clone(),
                elem: Box::new(elem.copy()),
            },
            AlephTree::Put { array_name, elem, value, insert } => AlephTree::Put {
                array_name: array_name.clone(),
                elem: Box::new(elem.copy()),
                value: Box::new(value.copy()),
                insert: insert.clone(),
            },
            AlephTree::Remove { array_name, elem, is_value } => AlephTree::Remove {
                array_name: array_name.clone(),
                elem: Box::new(elem.copy()),
                is_value: is_value.clone(),
            },
            AlephTree::Length { var } => AlephTree::Length {
                var: var.clone(),
            },
            AlephTree::Match { expr, case_list } => AlephTree::Match {
                expr: Box::new(expr.copy()),
                case_list: copy_nodes(case_list),
            },
            AlephTree::MatchLine { condition, case_expr } => AlephTree::MatchLine {
                condition: Box::new(condition.copy()),
                case_expr: Box::new(case_expr.copy()),
            },
            AlephTree::Var { var, is_pointer } => AlephTree::Var {
                var: var.clone(),
                is_pointer: is_pointer.clone(),
            },
            AlephTree::App { object_name, fun, param_list } => AlephTree::App {
                object_name: object_name.clone(),
                fun: Box::new(fun.copy()),
                param_list: copy_nodes(param_list),
            },
            AlephTree::Stmts { expr1, expr2 } => AlephTree::Stmts {
                expr1: Box::new(expr1.copy()),
                expr2: Box::new(expr2.copy()),
            },
            AlephTree::Iprt { name } => AlephTree::Iprt {
                name: name.clone(),
            },
            AlephTree::Clss { name, attribute_list, body } => AlephTree::Clss {
                name: name.clone(),
                attribute_list: copy_texts(attribute_list),
                body: Box::new(body.copy()),
            },
            AlephTree::Return { value } => AlephTree::Return {
                value: Box::new(value.copy()),
            },
            AlephTree::Comment { value } => AlephTree::Comment {
                value: value.clone(),
            },
            AlephTree::CommentMulti { value } => AlephTree::CommentMulti {
                value: value.clone(),
            },
            AlephTree::Assert { condition, message } => AlephTree::Assert {
                condition: Box::new(condition.copy()),
                message: Box::new(message.copy()),
            },
        }
    }

    /// The text that a literal or an identifier stands for, or why the node
    /// has none.
    pub fn text_value(&self) -> (r: Result<String, ValueError>)
        ensures
            match r {
                Ok(text) => self@.text_value() == Some(text@),
                Err(ValueError::InvalidUtf8) => self@ is Bytes && self@.text_value() is None,
                Err(ValueError::NotALiteral) => !(self@ is Bytes) && self@.text_value() is None,
            },
    {
        match self {
            AlephTree::Bool { value } => Ok(value.clone()),
            AlephTree::Int { value } => Ok(value.clone()),
            AlephTree::Float { value } => Ok(value.clone()),
            AlephTree::String { value } => Ok(value.clone()),
            AlephTree::Ident { value } => Ok(value.clone()),
            AlephTree::Bytes { elems } => match text_of_utf8(copy_bytes(elems)) {
                Some(text) => Ok(text),
                None => Err(ValueError::InvalidUtf8),
            },
            _ => Err(ValueError::NotALiteral),
        }
    }

    /// The text that a literal or an identifier stands for. The node must
    /// have one: it is a literal or an identifier, and bytes are UTF-8.
    pub fn to_string_value(&self) -> (r: String)
        requires
            self@.text_value() is Some,
        ensures
            Some(r@) == self@.text_value(),
    {
        match self.text_value() {
            Ok(text) => text,
            Err(_) => vstd::pervasive::unreached(),
        }
    }
}

/// Why a text is not the structural form of a syntax tree.
#[derive(Debug, PartialEq, Eq)]
pub enum ParseError {
    /// The text is not JSON: where its reading failed.
    Syntax(JsonTextError),
    /// The text is JSON, but the document is no syntax tree.
    Structure(DecodeError),
}

/// Reads a syntax tree from its structural form, a JSON text.
///
/// The text must be JSON, and the document that it holds a node: then the
/// node is returned. Older names of kinds and fields are read as the
/// current ones.
pub fn json_parse(source: String) -> (r: Result<AlephTree, ParseError>)
    ensures
        match r {
            Ok(t) => json_document(source@) matches Some(doc) && decode_spec(doc) == Ok::<
                TreeView,
                DecodeErrorView,
            >(t@),
            Err(ParseError::Syntax(_)) => json_document(source@) is None,
            Err(ParseError::Structure(e)) => json_document(source@) matches Some(doc)
                && decode_spec(doc) == Err::<TreeView, DecodeErrorView>(e@),
        },
{
    match parse_json(source.as_str()) {
        Err(e) => Err(ParseError::Syntax(e)),
        Ok(doc) => match decode(&doc) {
            Ok(t) => Ok(t),
            Err(e) => Err(ParseError::Structure(e)),
        },
    }
}

/// Writes a syntax tree in its structural form: the JSON text, indented,
/// of the document that stands for the node, under the current names.
pub fn to_json(ast: AlephTree) -> (r: String)
    ensures
        json_rendering(encode_spec(ast@)) == Some(r@),
{
    let doc = encode(&ast);
    match render_json(&doc) {
        Some(text) => text,
        None => vstd::pervasive::unreached(),
    }
}

impl Clone for AlephTree {
    fn clone(&self) -> (r: AlephTree)
        ensures
            r@ == self@,
    {
        self.copy()
    }
}

impl Default for AlephTree {
    fn default() -> (r: AlephTree)
        ensures
            r == AlephTree::Unit,
    {
        AlephTree::Unit
    }
}

} // verus!
