//! The structural format of the syntax tree: each node is a record with a
//! `type` tag and the fields of its kind. Writing uses the current names
//! only; reading also accepts the older ones.

use crate::json::{list_view, record_view, Json, JsonView};
use crate::names::{kind_named, kind_of_tag, Field, NodeKind};
use crate::syntax::{nodes_view, texts_view, AlephTree, TreeView};
use vstd::prelude::*;

verus! {

/// Why a document is not a syntax tree.
#[derive(Debug, PartialEq, Eq)]
pub enum DecodeError {
    /// A node is not written as a record.
    NotARecord,
    /// A record lacks a field of its kind, or its tag.
    Missing(Field),
    /// A record gives a field more than once, in either spelling.
    Repeated(Field),
    /// A field holds a value of the wrong form.
    Mistyped(Field),
    /// The tag names no kind of node.
    UnknownKind(String),
}

/// The mathematical value of a [`DecodeError`].
pub enum DecodeErrorView {
    NotARecord,
    Missing(Field),
    Repeated(Field),
    Mistyped(Field),
    UnknownKind(Seq<char>),
}

impl View for DecodeError {
    type V = DecodeErrorView;

    open spec fn view(&self) -> DecodeErrorView {
        match self {
            DecodeError::NotARecord => DecodeErrorView::NotARecord,
            DecodeError::Missing(f) => DecodeErrorView::Missing(*f),
            DecodeError::Repeated(f) => DecodeErrorView::Repeated(*f),
            DecodeError::Mistyped(f) => DecodeErrorView::Mistyped(*f),
            DecodeError::UnknownKind(tag) => DecodeErrorView::UnknownKind(tag@),
        }
    }
}

/// The list that stands for a sequence of bytes: one number for each.
pub open spec fn bytes_json(bytes: Seq<u8>) -> Seq<JsonView> {
    Seq::new(bytes.len(), |i: int| JsonView::UInt(bytes[i] as u64))
}

/// The list that stands for a sequence of texts.
pub open spec fn texts_json(texts: Seq<Seq<char>>) -> Seq<JsonView> {
    Seq::new(texts.len(), |i: int| JsonView::Text(texts[i]))
}

/// The entry that carries the tag of a kind.
pub open spec fn tag_entry(kind: NodeKind) -> (Seq<char>, JsonView) {
    (Field::Type.key(), JsonView::Text(kind.tag()))
}

/// The documents that stand for a sequence of nodes, in their order.
pub open spec fn encode_all(nodes: Seq<TreeView>) -> Seq<JsonView>
    decreases nodes,
{
    if nodes.len() == 0 {
        Seq::empty()
    } else {
        encode_all(nodes.drop_last()).push(encode_spec(nodes.last()))
    }
}

/// The document that stands for a node: a record of the tag of its kind
/// and then its fields, in the order of their declaration, each under its
/// current key.
pub open spec fn encode_spec(t: TreeView) -> JsonView
    decreases t,
{
    match t {
        TreeView::Unit => JsonView::Record(seq![tag_entry(NodeKind::Unit)]),
        TreeView::Break => JsonView::Record(seq![tag_entry(NodeKind::Break)]),
        TreeView::Continue => JsonView::Record(seq![tag_entry(NodeKind::Continue)]),
        TreeView::Ellipsis => JsonView::Record(seq![tag_entry(NodeKind::Ellipsis)]),
        TreeView::Int { value } => JsonView::Record(
            seq![
                tag_entry(NodeKind::Int),
                (Field::Value.key(), JsonView::Text(value)),
            ],
        ),
        TreeView::Float { value } => JsonView::Record(
            seq![
                tag_entry(NodeKind::Float),
                (Field::Value.key(), JsonView::Text(value)),
            ],
        ),
        TreeView::Bool { value } => JsonView::Record(
            seq![
                tag_entry(NodeKind::Bool),
                (Field::Value.key(), JsonView::Text(value)),
            ],
        ),
        TreeView::String { value } => JsonView::Record(
            seq![
                tag_entry(NodeKind::String),
                (Field::Value.key(), JsonView::Text(value)),
            ],
        ),
        TreeView::Ident { value } => JsonView::Record(
            seq![
                tag_entry(NodeKind::Ident),
                (Field::Value.key(), JsonView::Text(value)),
            ],
        ),
        TreeView::Bytes { elems } => JsonView::Record(
            seq![
                tag_entry(NodeKind::Bytes),
                (Field::Elems.key(), JsonView::List(bytes_json(elems))),
            ],
        ),
        TreeView::Complex { real: re, imag } => JsonView::Record(
            seq![
                tag_entry(NodeKind::Complex),
                (Field::Real.key(), JsonView::Text(re)),
                (Field::Imag.key(), JsonView::Text(imag)),
            ],
        ),
        TreeView::Tuple { elems } => JsonView::Record(
            seq![
                tag_entry(NodeKind::Tuple),
                (Field::Elems.key(), JsonView::List(encode_all(elems))),
            ],
        ),
        TreeView::Array { elems } => JsonView::Record(
            seq![
                tag_entry(NodeKind::Array),
                (Field::Elems.key(), JsonView::List(encode_all(elems))),
            ],
        ),
        TreeView::Neg { expr } => JsonView::Record(
            seq![
                tag_entry(NodeKind::Neg),
                (Field::Expr.key(), encode_spec(*expr)),
            ],
        ),
        TreeView::Not { bool_expr } => JsonView::Record(
            seq![
                tag_entry(NodeKind::Not),
                (Field::BoolExpr.key(), encode_spec(*bool_expr)),
            ],
        ),
        TreeView::And { bool_expr1, bool_expr2 } => JsonView::Record(
            seq![
                tag_entry(NodeKind::And),
                (Field::BoolExpr1.key(), encode_spec(*bool_expr1)),
                (Field::BoolExpr2.key(), encode_spec(*bool_expr2)),
            ],
        ),
        TreeView::Or { bool_expr1, bool_expr2 } => JsonView::Record(
            seq![
                tag_entry(NodeKind::Or),
                (Field::BoolExpr1.key(), encode_spec(*bool_expr1)),
                (Field::BoolExpr2.key(), encode_spec(*bool_expr2)),
            ],
        ),
        TreeView::Add { number_expr1, number_expr2 } => JsonView::Record(
            seq![
                tag_entry(NodeKind::Add),
                (Field::NumberExpr1.key(), encode_spec(*number_expr1)),
                (Field::NumberExpr2.key(), encode_spec(*number_expr2)),
            ],
        ),
        TreeView::Sub { number_expr1, number_expr2 } => JsonView::Record(
            seq![
                tag_entry(NodeKind::Sub),
                (Field::NumberExpr1.key(), encode_spec(*number_expr1)),
                (Field::NumberExpr2.key(), encode_spec(*number_expr2)),
            ],
        ),
        TreeView::Mul { number_expr1, number_expr2 } => JsonView::Record(
            seq![
                tag_entry(NodeKind::Mul),
                (Field::NumberExpr1.key(), encode_spec(*number_expr1)),
                (Field::NumberExpr2.key(), encode_spec(*number_expr2)),
            ],
        ),
        TreeView::Div { number_expr1, number_expr2 } => JsonView::Record(
            seq![
                tag_entry(NodeKind::Div),
                (Field::NumberExpr1.key(), encode_spec(*number_expr1)),
                (Field::NumberExpr2.key(), encode_spec(*number_expr2)),
            ],
        ),
        TreeView::Eq { expr1, expr2 } => JsonView::Record(
            seq![
                tag_entry(NodeKind::Eq),
                (Field::Expr1.key(), encode_spec(*expr1)),
                (Field::Expr2.key(), encode_spec(*expr2)),
            ],
        ),
        TreeView::LE { expr1, expr2 } => JsonView::Record(
            seq![
                tag_entry(NodeKind::LE),
                (Field::Expr1.key(), encode_spec(*expr1)),
                (Field::Expr2.key(), encode_spec(*expr2)),
            ],
        ),
        TreeView::In { expr1, expr2 } => JsonView::Record(
            seq![
                tag_entry(NodeKind::In),
                (Field::Expr1.key(), encode_spec(*expr1)),
                (Field::Expr2.key(), encode_spec(*expr2)),
            ],
        ),
        TreeView::If { condition, then, els } => JsonView::Record(
            seq![
                tag_entry(NodeKind::If),
                (Field::Condition.key(), encode_spec(*condition)),
                (Field::Then.key(), encode_spec(*then)),
                (Field::Els.key(), encode_spec(*els)),
            ],
        ),
        TreeView::While { init_expr, condition, loop_expr, post_expr } => JsonView::Record(
            seq![
                tag_entry(NodeKind::While),
                (Field::InitExpr.key(), encode_spec(*init_expr)),
                (Field::Condition.key(), encode_spec(*condition)),
                (Field::LoopExpr.key(), encode_spec(*loop_expr)),
                (Field::PostExpr.key(), encode_spec(*post_expr)),
            ],
        ),
        TreeView::Let { var, is_pointer, value, expr } => JsonView::Record(
            seq![
                tag_entry(NodeKind::Let),
                (Field::Var.key(), JsonView::Text(var)),
                (Field::IsPointer.key(), JsonView::Text(is_pointer)),
                (Field::Value.key(), encode_spec(*value)),
                (Field::Expr.key(), encode_spec(*expr)),
            ],
        ),
        TreeView::LetRec { name, args, body } => JsonView::Record(
            seq![
                tag_entry(NodeKind::LetRec),
                (Field::Name.key(), JsonView::Text(name)),
                (Field::Args.key(), JsonView::List(encode_all(args))),
                (Field::Body.key(), encode_spec(*body)),
            ],
        ),
        TreeView::Get { array_name, elem } => JsonView::Record(
            seq![
                tag_entry(NodeKind::Get),
                (Field::ArrayName.key(), JsonView::Text(array_name)),
                (Field::Elem.key(), encode_spec(*elem)),
            ],
        ),
        TreeView::Put { array_name, elem, value, insert } => JsonView::Record(
            seq![
                tag_entry(NodeKind::Put),
                (Field::ArrayName.key(), JsonView::Text(array_name)),
                (Field::Elem.key(), encode_spec(*elem)),
                (Field::Value.key(), encode_spec(*value)),
                (Field::Insert.key(), JsonView::Text(insert)),
            ],
        ),
        TreeView::Remove { array_name, elem, is_value } => JsonView::Record(
            seq![
                tag_entry(NodeKind::Remove),
                (Field::ArrayName.key(), JsonView::Text(array_name)),
                (Field::Elem.key(), encode_spec(*elem)),
                (Field::IsValue.key(), JsonView::Text(is_value)),
            ],
        ),
        TreeView::Length { var } => JsonView::Record(
            seq![
                tag_entry(NodeKind::Length),
                (Field::Var.key(), JsonView::Text(var)),
            ],
        ),
        TreeView::Match { expr, case_list } => JsonView::Record(
            seq![
                tag_entry(NodeKind::Match),
                (Field::Expr.key(), encode_spec(*expr)),
                (Field::CaseList.key(), JsonView::List(encode_all(case_list))),
            ],
        ),
        TreeView::MatchLine { condition, case_expr } => JsonView::Record(
            seq![
                tag_entry(NodeKind::MatchLine),
                (Field::Condition.key(), encode_spec(*condition)),
                (Field::CaseExpr.key(), encode_spec(*case_expr)),
            ],
        ),
        TreeView::Var { var, is_pointer } => JsonView::Record(
            seq![
                tag_entry(NodeKind::Var),
                (Field::Var.key(), JsonView::Text(var)),
                (Field::IsPointer.key(), JsonView::Text(is_pointer)),
            ],
        ),
        TreeView::App { object_name, fun, param_list } => JsonView::Record(
            seq![
                tag_entry(NodeKind::App),
                (Field::ObjectName.key(), JsonView::Text(object_name)),
                (Field::Fun.key(), encode_spec(*fun)),
                (Field::ParamList.key(), JsonView::List(encode_all(param_list))),
            ],
        ),
        TreeView::Stmts { expr1, expr2 } => JsonView::Record(
            seq![
                tag_entry(NodeKind::Stmts),
                (Field::Expr1.key(), encode_spec(*expr1)),
                (Field::Expr2.key(), encode_spec(*expr2)),
            ],
        ),
        TreeView::Iprt { name } => JsonView::Record(
            seq![
                tag_entry(NodeKind::Iprt),
                (Field::Name.key(), JsonView::Text(name)),
            ],
        ),
        TreeView::Clss { name, attribute_list, body } => JsonView::Record(
            seq![
                tag_entry(NodeKind::Clss),
                (Field::Name.key(), JsonView::Text(name)),
                (Field::AttributeList.key(), JsonView::List(texts_json(attribute_list))),
                (Field::Body.key(), encode_spec(*body)),
            ],
        ),
        TreeView::Return { value } => JsonView::Record(
            seq![
                tag_entry(NodeKind::Return),
                (Field::Value.key(), encode_spec(*value)),
            ],
        ),
        TreeView::Comment { value } => JsonView::Record(
            seq![
                tag_entry(NodeKind::Comment),
                (Field::Value.key(), JsonView::Text(value)),
            ],
        ),
        TreeView::CommentMulti { value } => JsonView::Record(
            seq![
                tag_entry(NodeKind::CommentMulti),
                (Field::Value.key(), JsonView::Text(value)),
            ],
        ),
        TreeView::Assert { condition, message } => JsonView::Record(
            seq![
                tag_entry(NodeKind::Assert),
                (Field::Condition.key(), encode_spec(*condition)),
                (Field::Message.key(), encode_spec(*message)),
            ],
        ),
    }
}

/// What a search for a field in a record finds.
pub enum Lookup {
    /// No entry names the field.
    Missing,
    /// One entry names the field: the one at this index.
    Found(int),
    /// More than one entry names the field.
    Repeated,
}

/// Searches the entries of a record for a field, under either of its keys.
pub open spec fn lookup(fields: Seq<(Seq<char>, JsonView)>, f: Field) -> Lookup
    decreases fields.len(),
{
    if fields.len() == 0 {
        Lookup::Missing
    } else {
        let front = lookup(fields.drop_last(), f);
        if f.names(fields.last().0) {
            match front {
                Lookup::Missing => Lookup::Found(fields.len() - 1),
                _ => Lookup::Repeated,
            }
        } else {
            front
        }
    }
}

/// An entry that is found is one of the record's.
pub proof fn lemma_lookup_within(fields: Seq<(Seq<char>, JsonView)>, f: Field)
    ensures
        lookup(fields, f) matches Lookup::Found(i) ==> 0 <= i < fields.len() && f.names(
            fields[i].0,
        ),
    decreases fields.len(),
{
    if fields.len() > 0 {
        lemma_lookup_within(fields.drop_last(), f);
    }
}

/// The value of a field of a record, which must give it exactly once.
pub open spec fn field_value(fields: Seq<(Seq<char>, JsonView)>, f: Field) -> Result<
    JsonView,
    DecodeErrorView,
> {
    match lookup(fields, f) {
        Lookup::Missing => Err(DecodeErrorView::Missing(f)),
        Lookup::Found(i) => Ok(fields[i].1),
        Lookup::Repeated => Err(DecodeErrorView::Repeated(f)),
    }
}

/// The text that a value holds as the field `f`.
pub open spec fn text_in(v: JsonView, f: Field) -> Result<Seq<char>, DecodeErrorView> {
    match v {
        JsonView::Text(t) => Ok(t),
        _ => Err(DecodeErrorView::Mistyped(f)),
    }
}

/// Whether a value is a number that a byte can hold.
pub open spec fn is_byte(v: JsonView) -> bool {
    v matches JsonView::UInt(n) && n <= 255
}

/// The bytes that a value holds as the field `f`: a list of numbers from 0
/// to 255.
pub open spec fn bytes_in(v: JsonView, f: Field) -> Result<Seq<u8>, DecodeErrorView> {
    match v {
        JsonView::List(items) => if forall|i: int| 0 <= i < items.len() ==> is_byte(#[trigger] items[i]) {
            Ok(Seq::new(items.len(), |i: int| items[i]->UInt_0 as u8))
        } else {
            Err(DecodeErrorView::Mistyped(f))
        },
        _ => Err(DecodeErrorView::Mistyped(f)),
    }
}

/// The texts that a value holds as the field `f`: a list of texts.
pub open spec fn texts_in(v: JsonView, f: Field) -> Result<Seq<Seq<char>>, DecodeErrorView> {
    match v {
        JsonView::List(items) => if forall|i: int| 0 <= i < items.len() ==> (#[trigger] items[i]) is Text {
            Ok(Seq::new(items.len(), |i: int| items[i]->Text_0))
        } else {
            Err(DecodeErrorView::Mistyped(f))
        },
        _ => Err(DecodeErrorView::Mistyped(f)),
    }
}

/// The text field `f` of a record.
pub open spec fn text_field(fields: Seq<(Seq<char>, JsonView)>, f: Field) -> Result<
    Seq<char>,
    DecodeErrorView,
> {
    match field_value(fields, f) {
        Ok(v) => text_in(v, f),
        Err(e) => Err(e),
    }
}

/// The bytes field `f` of a record.
pub open spec fn bytes_field(fields: Seq<(Seq<char>, JsonView)>, f: Field) -> Result<
    Seq<u8>,
    DecodeErrorView,
> {
    match field_value(fields, f) {
        Ok(v) => bytes_in(v, f),
        Err(e) => Err(e),
    }
}

/// The field `f` of a record that holds a list of texts.
pub open spec fn texts_field(fields: Seq<(Seq<char>, JsonView)>, f: Field) -> Result<
    Seq<Seq<char>>,
    DecodeErrorView,
> {
    match field_value(fields, f) {
        Ok(v) => texts_in(v, f),
        Err(e) => Err(e),
    }
}

/// The nodes that a sequence of documents stands for, or the error of the
/// first of them that stands for none.
pub open spec fn decode_all(items: Seq<JsonView>) -> Result<Seq<TreeView>, DecodeErrorView>
    decreases items, 0nat,
{
    if items.len() == 0 {
        Ok(Seq::empty())
    } else {
        match decode_all(items.drop_last()) {
            Err(e) => Err(e),
            Ok(front) => match decode_spec(items.last()) {
                Ok(t) => Ok(front.push(t)),
                Err(e) => Err(e),
            },
        }
    }
}

/// The field `f` of a record that holds a node.
pub open spec fn node_field(fields: Seq<(Seq<char>, JsonView)>, f: Field) -> Result<
    TreeView,
    DecodeErrorView,
>
    decreases fields, 1nat,
{
    match lookup(fields, f) {
        Lookup::Missing => Err(DecodeErrorView::Missing(f)),
        Lookup::Found(i) => {
            proof {
                lemma_lookup_within(fields, f);
                assert(decreases_to!(fields => fields[i].1));
            }
            decode_spec(fields[i].1)
        },
        Lookup::Repeated => Err(DecodeErrorView::Repeated(f)),
    }
}

/// The field `f` of a record that holds a list of nodes.
pub open spec fn nodes_field(fields: Seq<(Seq<char>, JsonView)>, f: Field) -> Result<
    Seq<TreeView>,
    DecodeErrorView,
>
    decreases fields, 1nat,
{
    match lookup(fields, f) {
        Lookup::Missing => Err(DecodeErrorView::Missing(f)),
        Lookup::Found(i) => {
            proof {
                lemma_lookup_within(fields, f);
                assert(decreases_to!(fields => fields[i].1));
            }
            match fields[i].1 {
                JsonView::List(items) => decode_all(items),
                _ => Err(DecodeErrorView::Mistyped(f)),
            }
        },
        Lookup::Repeated => Err(DecodeErrorView::Repeated(f)),
    }
}

/// The node of a kind that the fields of a record stand for. The fields
/// are read in the order of their declaration, and the first that fails
/// gives the error. Entries that name no field of the kind are passed over.
pub open spec fn decode_fields(kind: NodeKind, fields: Seq<(Seq<char>, JsonView)>) -> Result<
    TreeView,
    DecodeErrorView,
>
    decreases fields, 2nat,
{
    match kind {
        NodeKind::Unit => Ok(TreeView::Unit),
        NodeKind::Break => Ok(TreeView::Break),
        NodeKind::Continue => Ok(TreeView::Continue),
        NodeKind::Ellipsis => Ok(TreeView::Ellipsis),
        NodeKind::Int => match text_field(fields, Field::Value) {
            Err(e) => Err(e),
            Ok(value) => Ok(TreeView::Int { value }),
        },
        NodeKind::Float => match text_field(fields, Field::Value) {
            Err(e) => Err(e),
            Ok(value) => Ok(TreeView::Float { value }),
        },
        NodeKind::Bool => match text_field(fields, Field::Value) {
            Err(e) => Err(e),
            Ok(value) => Ok(TreeView::Bool { value }),
        },
        NodeKind::String => match text_field(fields, Field::Value) {
            Err(e) => Err(e),
            Ok(value) => Ok(TreeView::String { value }),
        },
        NodeKind::Ident => match text_field(fields, Field::Value) {
            Err(e) => Err(e),
            Ok(value) => Ok(TreeView::Ident { value }),
        },
        NodeKind::Bytes => match bytes_field(fields, Field::Elems) {
            Err(e) => Err(e),
            Ok(elems) => Ok(TreeView::Bytes { elems }),
        },
        NodeKind::Complex => match text_field(fields, Field::Real) {
            Err(e) => Err(e),
            Ok(re) => match text_field(fields, Field::Imag) {
                Err(e) => Err(e),
                Ok(imag) => Ok(TreeView::Complex { real: re, imag }),
            },
        },
        NodeKind::Tuple => match nodes_field(fields, Field::Elems) {
            Err(e) => Err(e),
            Ok(elems) => Ok(TreeView::Tuple { elems }),
        },
        NodeKind::Array => match nodes_field(fields, Field::Elems) {
            Err(e) => Err(e),
            Ok(elems) => Ok(TreeView::Array { elems }),
        },
        NodeKind::Neg => match node_field(fields, Field::Expr) {
            Err(e) => Err(e),
            Ok(expr) => Ok(TreeView::Neg { expr: Box::new(expr) }),
        },
        NodeKind::Not => match node_field(fields, Field::BoolExpr) {
            Err(e) => Err(e),
            Ok(bool_expr) => Ok(TreeView::Not { bool_expr: Box::new(bool_expr) }),
        },
        NodeKind::And => match node_field(fields, Field::BoolExpr1) {
            Err(e) => Err(e),
            Ok(bool_expr1) => match node_field(fields, Field::BoolExpr2) {
                Err(e) => Err(e),
                Ok(bool_expr2) => Ok(TreeView::And { bool_expr1: Box::new(bool_expr1), bool_expr2: Box::new(bool_expr2) }),
            },
        },
        NodeKind::Or => match node_field(fields, Field::BoolExpr1) {
            Err(e) => Err(e),
            Ok(bool_expr1) => match node_field(fields, Field::BoolExpr2) {
                Err(e) => Err(e),
                Ok(bool_expr2) => Ok(TreeView::Or { bool_expr1: Box::new(bool_expr1), bool_expr2: Box::new(bool_expr2) }),
            },
        },
        NodeKind::Add => match node_field(fields, Field::NumberExpr1) {
            Err(e) => Err(e),
            Ok(number_expr1) => match node_field(fields, Field::NumberExpr2) {
                Err(e) => Err(e),
                Ok(number_expr2) => Ok(TreeView::Add { number_expr1: Box::new(number_expr1), number_expr2: Box::new(number_expr2) }),
            },
        },
        NodeKind::Sub => match node_field(fields, Field::NumberExpr1) {
            Err(e) => Err(e),
            Ok(number_expr1) => match node_field(fields, Field::NumberExpr2) {
                Err(e) => Err(e),
                Ok(number_expr2) => Ok(TreeView::Sub { number_expr1: Box::new(number_expr1), number_expr2: Box::new(number_expr2) }),
            },
        },
        NodeKind::Mul => match node_field(fields, Field::NumberExpr1) {
            Err(e) => Err(e),
            Ok(number_expr1) => match node_field(fields, Field::NumberExpr2) {
                Err(e) => Err(e),
                Ok(number_expr2) => Ok(TreeView::Mul { number_expr1: Box::new(number_expr1), number_expr2: Box::new(number_expr2) }),
            },
        },
        NodeKind::Div => match node_field(fields, Field::NumberExpr1) {
            Err(e) => Err(e),
            Ok(number_expr1) => match node_field(fields, Field::NumberExpr2) {
                Err(e) => Err(e),
                Ok(number_expr2) => Ok(TreeView::Div { number_expr1: Box::new(number_expr1), number_expr2: Box::new(number_expr2) }),
            },
        },
        NodeKind::Eq => match node_field(fields, Field::Expr1) {
            Err(e) => Err(e),
            Ok(expr1) => match node_field(fields, Field::Expr2) {
                Err(e) => Err(e),
                Ok(expr2) => Ok(TreeView::Eq { expr1: Box::new(expr1), expr2: Box::new(expr2) }),
            },
        },
        NodeKind::LE => match node_field(fields, Field::Expr1) {
            Err(e) => Err(e),
            Ok(expr1) => match node_field(fields, Field::Expr2) {
                Err(e) => Err(e),
                Ok(expr2) => Ok(TreeView::LE { expr1: Box::new(expr1), expr2: Box::new(expr2) }),
            },
        },
        NodeKind::In => match node_field(fields, Field::Expr1) {
            Err(e) => Err(e),
            Ok(expr1) => match node_field(fields, Field::Expr2) {
                Err(e) => Err(e),
                Ok(expr2) => Ok(TreeView::In { expr1: Box::new(expr1), expr2: Box::new(expr2) }),
            },
        },
        NodeKind::If => match node_field(fields, Field::Condition) {
            Err(e) => Err(e),
            Ok(condition) => match node_field(fields, Field::Then) {
                Err(e) => Err(e),
                Ok(then) => match node_field(fields, Field::Els) {
                    Err(e) => Err(e),
                    Ok(els) => Ok(TreeView::If { condition: Box::new(condition), then: Box::new(then), els: Box::new(els) }),
                },
            },
        },
        NodeKind::While => match node_field(fields, Field::InitExpr) {
            Err(e) => Err(e),
            Ok(init_expr) => match node_field(fields, Field::Condition) {
                Err(e) => Err(e),
                Ok(condition) => match node_field(fields, Field::LoopExpr) {
                    Err(e) => Err(e),
                    Ok(loop_expr) => match node_field(fields, Field::PostExpr) {
                        Err(e) => Err(e),
                        Ok(post_expr) => Ok(TreeView::While { init_expr: Box::new(init_expr), condition: Box::new(condition), loop_expr: Box::new(loop_expr), post_expr: Box::new(post_expr) }),
                    },
                },
            },
        },
        NodeKind::Let => match text_field(fields, Field::Var) {
            Err(e) => Err(e),
            Ok(var) => match text_field(fields, Field::IsPointer) {
                Err(e) => Err(e),
                Ok(is_pointer) => match node_field(fields, Field::Value) {
                    Err(e) => Err(e),
                    Ok(value) => match node_field(fields, Field::Expr) {
                        Err(e) => Err(e),
                        Ok(expr) => Ok(TreeView::Let { var, is_pointer, value: Box::new(value), expr: Box::new(expr) }),
                    },
                },
            },
        },
        NodeKind::LetRec => match text_field(fields, Field::Name) {
            Err(e) => Err(e),
            Ok(name) => match nodes_field(fields, Field::Args) {
                Err(e) => Err(e),
                Ok(args) => match node_field(fields, Field::Body) {
                    Err(e) => Err(e),
                    Ok(body) => Ok(TreeView::LetRec { name, args, body: Box::new(body) }),
                },
            },
        },
        NodeKind::Get => match text_field(fields, Field::ArrayName) {
            Err(e) => Err(e),
            Ok(array_name) => match node_field(fields, Field::Elem) {
                Err(e) => Err(e),
                Ok(elem) => Ok(TreeView::Get { array_name, elem: Box::new(elem) }),
            },
        },
        NodeKind::Put => match text_field(fields, Field::ArrayName) {
            Err(e) => Err(e),
            Ok(array_name) => match node_field(fields, Field::Elem) {
                Err(e) => Err(e),
                Ok(elem) => match node_field(fields, Field::Value) {
                    Err(e) => Err(e),
                    Ok(value) => match text_field(fields, Field::Insert) {
                        Err(e) => Err(e),
                        Ok(insert) => Ok(TreeView::Put { array_name, elem: Box::new(elem), value: Box::new(value), insert }),
                    },
                },
            },
        },
        NodeKind::Remove => match text_field(fields, Field::ArrayName) {
            Err(e) => Err(e),
            Ok(array_name) => match node_field(fields, Field::Elem) {
                Err(e) => Err(e),
                Ok(elem) => match text_field(fields, Field::IsValue) {
                    Err(e) => Err(e),
                    Ok(is_value) => Ok(TreeView::Remove { array_name, elem: Box::new(elem), is_value }),
                },
            },
        },
        NodeKind::Length => match text_field(fields, Field::Var) {
            Err(e) => Err(e),
            Ok(var) => Ok(TreeView::Length { var }),
        },
        NodeKind::Match => match node_field(fields, Field::Expr) {
            Err(e) => Err(e),
            Ok(expr) => match nodes_field(fields, Field::CaseList) {
                Err(e) => Err(e),
                Ok(case_list) => Ok(TreeView::Match { expr: Box::new(expr), case_list }),
            },
        },
        NodeKind::MatchLine => match node_field(fields, Field::Condition) {
            Err(e) => Err(e),
            Ok(condition) => match node_field(fields, Field::CaseExpr) {
                Err(e) => Err(e),
                Ok(case_expr) => Ok(TreeView::MatchLine { condition: Box::new(condition), case_expr: Box::new(case_expr) }),
            },
        },
        NodeKind::Var => match text_field(fields, Field::Var) {
            Err(e) => Err(e),
            Ok(var) => match text_field(fields, Field::IsPointer) {
                Err(e) => Err(e),
                Ok(is_pointer) => Ok(TreeView::Var { var, is_pointer }),
            },
        },
        NodeKind::App => match text_field(fields, Field::ObjectName) {
            Err(e) => Err(e),
            Ok(object_name) => match node_field(fields, Field::Fun) {
                Err(e) => Err(e),
                Ok(fun) => match nodes_field(fields, Field::ParamList) {
                    Err(e) => Err(e),
                    Ok(param_list) => Ok(TreeView::App { object_name, fun: Box::new(fun), param_list }),
                },
            },
        },
        NodeKind::Stmts => match node_field(fields, Field::Expr1) {
            Err(e) => Err(e),
            Ok(expr1) => match node_field(fields, Field::Expr2) {
                Err(e) => Err(e),
                Ok(expr2) => Ok(TreeView::Stmts { expr1: Box::new(expr1), expr2: Box::new(expr2) }),
            },
        },
        NodeKind::Iprt => match text_field(fields, Field::Name) {
            Err(e) => Err(e),
            Ok(name) => Ok(TreeView::Iprt { name }),
        },
        NodeKind::Clss => match text_field(fields, Field::Name) {
            Err(e) => Err(e),
            Ok(name) => match texts_field(fields, Field::AttributeList) {
                Err(e) => Err(e),
                Ok(attribute_list) => match node_field(fields, Field::Body) {
                    Err(e) => Err(e),
                    Ok(body) => Ok(TreeView::Clss { name, attribute_list, body: Box::new(body) }),
                },
            },
        },
        NodeKind::Return => match node_field(fields, Field::Value) {
            Err(e) => Err(e),
            Ok(value) => Ok(TreeView::Return { value: Box::new(value) }),
        },
        NodeKind::Comment => match text_field(fields, Field::Value) {
            Err(e) => Err(e),
            Ok(value) => Ok(TreeView::Comment { value }),
        },
        NodeKind::CommentMulti => match text_field(fields, Field::Value) {
            Err(e) => Err(e),
            Ok(value) => Ok(TreeView::CommentMulti { value }),
        },
        NodeKind::Assert => match node_field(fields, Field::Condition) {
            Err(e) => Err(e),
            Ok(condition) => match node_field(fields, Field::Message) {
                Err(e) => Err(e),
                Ok(message) => Ok(TreeView::Assert { condition: Box::new(condition), message: Box::new(message) }),
            },
        },
    }
}

/// The node that a document stands for, or why it stands for none.
///
/// The document must be a record. Its `type` field must be a text that
/// names a kind, in the current spelling or the older one, and the record
/// must hold the fields of that kind.
pub open spec fn decode_spec(doc: JsonView) -> Result<TreeView, DecodeErrorView>
    decreases doc, 0nat,
{
    match doc {
        JsonView::Record(fields) => match text_field(fields, Field::Type) {
            Err(e) => Err(e),
            Ok(tag) => match kind_of_tag(tag) {
                None => Err(DecodeErrorView::UnknownKind(tag)),
                Some(kind) => decode_fields(kind, fields),
            },
        },
        _ => Err(DecodeErrorView::NotARecord),
    }
}

/// Once a field is found twice among the first entries of a record, it
/// stays so for the whole record.
proof fn lemma_lookup_repeated(fields: Seq<(Seq<char>, JsonView)>, f: Field, n: int)
    requires
        0 <= n <= fields.len(),
        lookup(fields.take(n), f) == Lookup::Repeated,
    ensures
        lookup(fields, f) == Lookup::Repeated,
    decreases fields.len() - n,
{
    if n < fields.len() {
        assert(fields.take(n + 1).drop_last() =~= fields.take(n));
        lemma_lookup_repeated(fields, f, n + 1);
    } else {
        assert(fields.take(n) =~= fields);
    }
}

/// What the result of reading a node stands for.
pub open spec fn node_result(r: Result<AlephTree, DecodeError>) -> Result<
    TreeView,
    DecodeErrorView,
> {
    match r {
        Ok(t) => Ok(t@),
        Err(e) => Err(e@),
    }
}

/// Searches the entries of a record for a field.
fn find_field(fields: &Vec<(String, Json)>, f: Field) -> (r: Result<usize, DecodeError>)
    ensures
        match r {
            Ok(i) => i < fields.len() && lookup(record_view(fields@), f) == Lookup::Found(
                i as int,
            ),
            Err(e) => (lookup(record_view(fields@), f) == Lookup::Missing && e
                == DecodeError::Missing(f)) || (lookup(record_view(fields@), f)
                == Lookup::Repeated && e == DecodeError::Repeated(f)),
        },
{
    let ghost all = record_view(fields@);
    let mut found: Option<usize> = None;
    let mut i: usize = 0;
    while i < fields.len()
        invariant
            i <= fields.len(),
            all == record_view(fields@),
            match found {
                None => lookup(all.take(i as int), f) == Lookup::Missing,
                Some(k) => k < i && lookup(all.take(i as int), f) == Lookup::Found(k as int),
            },
        decreases fields.len() - i,
    {
        assert(all.take(i as int + 1).drop_last() =~= all.take(i as int));
        assert(all.take(i as int + 1).last() == all[i as int]);
        assert(all[i as int].0 == fields@[i as int].0@);
        if f.is_named(fields[i].0.as_str()) {
            if found.is_some() {
                proof {
                    lemma_lookup_repeated(all, f, i as int + 1);
                }
                return Err(DecodeError::Repeated(f));
            }
            found = Some(i);
        }
        i = i + 1;
    }
    assert(all.take(i as int) =~= all);
    match found {
        Some(k) => Ok(k),
        None => Err(DecodeError::Missing(f)),
    }
}

/// Reads the text field `f` of a record.
fn read_text(fields: &Vec<(String, Json)>, f: Field) -> (r: Result<String, DecodeError>)
    ensures
        match r {
            Ok(t) => text_field(record_view(fields@), f) == Ok::<Seq<char>, DecodeErrorView>(t@),
            Err(e) => text_field(record_view(fields@), f) == Err::<Seq<char>, DecodeErrorView>(
                e@,
            ),
        },
{
    match find_field(fields, f) {
        Err(e) => Err(e),
        Ok(i) => {
            assert(record_view(fields@)[i as int].1 == fields@[i as int].1@);
            match &fields[i].1 {
                Json::Text(t) => Ok(t.clone()),
                _ => Err(DecodeError::Mistyped(f)),
            }
        },
    }
}

/// Reads a list as bytes for the field `f`.
fn bytes_of_list(items: &Vec<Json>, f: Field) -> (r: Result<Vec<u8>, DecodeError>)
    ensures
        match r {
            Ok(b) => bytes_in(JsonView::List(list_view(items@)), f) == Ok::<
                Seq<u8>,
                DecodeErrorView,
            >(b@),
            Err(e) => bytes_in(JsonView::List(list_view(items@)), f) == Err::<
                Seq<u8>,
                DecodeErrorView,
            >(e@),
        },
{
    let ghost all = list_view(items@);
    let mut bytes: Vec<u8> = Vec::new();
    let mut k: usize = 0;
    while k < items.len()
        invariant
            k <= items.len(),
            all == list_view(items@),
            bytes.len() == k,
            forall|j: int| 0 <= j < k ==> is_byte(#[trigger] all[j]),
            forall|j: int| 0 <= j < k ==> bytes@[j] == all[j]->UInt_0 as u8,
        decreases items.len() - k,
    {
        assert(all[k as int] == items@[k as int]@);
        match &items[k] {
            Json::UInt(n) => {
                if *n > 255 {
                    assert(!is_byte(all[k as int]));
                    return Err(DecodeError::Mistyped(f));
                }
                bytes.push(*n as u8);
            },
            _ => {
                assert(!is_byte(all[k as int]));
                return Err(DecodeError::Mistyped(f));
            },
        }
        k = k + 1;
    }
    assert(bytes@ =~= Seq::new(all.len(), |i: int| all[i]->UInt_0 as u8));
    Ok(bytes)
}

/// Reads the bytes field `f` of a record.
fn read_bytes(fields: &Vec<(String, Json)>, f: Field) -> (r: Result<Vec<u8>, DecodeError>)
    ensures
        match r {
            Ok(b) => bytes_field(record_view(fields@), f) == Ok::<Seq<u8>, DecodeErrorView>(b@),
            Err(e) => bytes_field(record_view(fields@), f) == Err::<Seq<u8>, DecodeErrorView>(
                e@,
            ),
        },
{
    match find_field(fields, f) {
        Err(e) => Err(e),
        Ok(i) => {
            assert(record_view(fields@)[i as int].1 == fields@[i as int].1@);
            match &fields[i].1 {
                Json::List(items) => bytes_of_list(items, f),
                _ => Err(DecodeError::Mistyped(f)),
            }
        },
    }
}

/// Reads a list as texts for the field `f`.
fn texts_of_list(items: &Vec<Json>, f: Field) -> (r: Result<Vec<String>, DecodeError>)
    ensures
        match r {
            Ok(t) => texts_in(JsonView::List(list_view(items@)), f) == Ok::<
                Seq<Seq<char>>,
                DecodeErrorView,
            >(texts_view(t@)),
            Err(e) => texts_in(JsonView::List(list_view(items@)), f) == Err::<
                Seq<Seq<char>>,
                DecodeErrorView,
            >(e@),
        },
{
    let ghost all = list_view(items@);
    let mut texts: Vec<String> = Vec::new();
    let mut k: usize = 0;
    while k < items.len()
        invariant
            k <= items.len(),
            all == list_view(items@),
            texts.len() == k,
            forall|j: int| 0 <= j < k ==> (#[trigger] all[j]) is Text,
            forall|j: int| 0 <= j < k ==> texts@[j]@ == all[j]->Text_0,
        decreases items.len() - k,
    {
        assert(all[k as int] == items@[k as int]@);
        match &items[k] {
            Json::Text(t) => {
                texts.push(t.clone());
            },
            _ => {
                assert(!(all[k as int] is Text));
                return Err(DecodeError::Mistyped(f));
            },
        }
        k = k + 1;
    }
    assert(texts_view(texts@) =~= Seq::new(all.len(), |i: int| all[i]->Text_0));
    Ok(texts)
}

/// Reads the field `f` of a record that holds a list of texts.
fn read_texts(fields: &Vec<(String, Json)>, f: Field) -> (r: Result<Vec<String>, DecodeError>)
    ensures
        match r {
            Ok(t) => texts_field(record_view(fields@), f) == Ok::<
                Seq<Seq<char>>,
                DecodeErrorView,
            >(texts_view(t@)),
            Err(e) => texts_field(record_view(fields@), f) == Err::<
                Seq<Seq<char>>,
                DecodeErrorView,
            >(e@),
        },
{
    match find_field(fields, f) {
        Err(e) => Err(e),
        Ok(i) => {
            assert(record_view(fields@)[i as int].1 == fields@[i as int].1@);
            match &fields[i].1 {
                Json::List(items) => texts_of_list(items, f),
                _ => Err(DecodeError::Mistyped(f)),
            }
        },
    }
}

/// Reads the field `f` of a record that holds a node.
fn read_node(fields: &Vec<(String, Json)>, f: Field) -> (r: Result<Box<AlephTree>, DecodeError>)
    ensures
        match r {
            Ok(t) => node_field(record_view(fields@), f) == Ok::<TreeView, DecodeErrorView>(t@),
            Err(e) => node_field(record_view(fields@), f) == Err::<TreeView, DecodeErrorView>(e@),
        },
    decreases fields, 1nat,
{
    match find_field(fields, f) {
        Err(e) => Err(e),
        Ok(i) => {
            assert(record_view(fields@)[i as int].1 == fields@[i as int].1@);
            assert(decreases_to!(fields => fields@[i as int].1));
            match decode(&fields[i].1) {
                Ok(t) => Ok(Box::new(t)),
                Err(e) => Err(e),
            }
        },
    }
}

/// Reads each document of a list as a node.
pub fn decode_list(items: &Vec<Json>) -> (r: Result<Vec<Box<AlephTree>>, DecodeError>)
    ensures
        match r {
            Ok(t) => decode_all(list_view(items@)) == Ok::<Seq<TreeView>, DecodeErrorView>(
                nodes_view(t@),
            ),
            Err(e) => decode_all(list_view(items@)) == Err::<Seq<TreeView>, DecodeErrorView>(e@),
        },
    decreases items, 0nat,
{
    let ghost all = list_view(items@);
    let mut nodes: Vec<Box<AlephTree>> = Vec::new();
    let mut k: usize = 0;
    assert(all.take(0) =~= Seq::empty());
    assert(nodes_view(nodes@) =~= Seq::empty());
    while k < items.len()
        invariant
            k <= items.len(),
            all == list_view(items@),
            decode_all(all.take(k as int)) == Ok::<Seq<TreeView>, DecodeErrorView>(
                nodes_view(nodes@),
            ),
        decreases items.len() - k,
    {
        assert(all[k as int] == items@[k as int]@);
        assert(all.take(k as int + 1).drop_last() =~= all.take(k as int));
        assert(all.take(k as int + 1).last() == all[k as int]);
        assert(decreases_to!(items => items@[k as int]));
        let ghost before = nodes_view(nodes@);
        match decode(&items[k]) {
            Ok(t) => {
                let ghost tv = t@;
                nodes.push(Box::new(t));
                assert(nodes_view(nodes@) =~= before.push(tv));
            },
            Err(e) => {
                proof {
                    lemma_decode_all_fails(all, k as int + 1);
                }
                return Err(e);
            },
        }
        k = k + 1;
    }
    assert(all.take(k as int) =~= all);
    Ok(nodes)
}

/// Reads the field `f` of a record that holds a list of nodes.
fn read_nodes(fields: &Vec<(String, Json)>, f: Field) -> (r: Result<
    Vec<Box<AlephTree>>,
    DecodeError,
>)
    ensures
        match r {
            Ok(t) => nodes_field(record_view(fields@), f) == Ok::<Seq<TreeView>, DecodeErrorView>(
                nodes_view(t@),
            ),
            Err(e) => nodes_field(record_view(fields@), f) == Err::<
                Seq<TreeView>,
                DecodeErrorView,
            >(e@),
        },
    decreases fields, 1nat,
{
    match find_field(fields, f) {
        Err(e) => Err(e),
        Ok(i) => {
            assert(record_view(fields@)[i as int].1 == fields@[i as int].1@);
            match &fields[i].1 {
                Json::List(items) => {
                    assert(decreases_to!(fields => fields@[i as int].1));
                    assert(decreases_to!(fields@[i as int].1 => items));
                    decode_list(items)
                },
                _ => Err(DecodeError::Mistyped(f)),
            }
        },
    }
}

/// Where the first documents of a sequence fail to be read, the whole
/// sequence fails with the same error.
proof fn lemma_decode_all_fails(items: Seq<JsonView>, n: int)
    requires
        0 <= n <= items.len(),
        decode_all(items.take(n)) is Err,
    ensures
        decode_all(items) == decode_all(items.take(n)),
    decreases items.len() - n,
{
    if n < items.len() {
        assert(items.take(n + 1).drop_last() =~= items.take(n));
        lemma_decode_all_fails(items, n + 1);
    } else {
        assert(items.take(n) =~= items);
    }
}

/// Reads the fields of a `Int` node from a record.
fn build_int(fields: &Vec<(String, Json)>) -> (r: Result<AlephTree, DecodeError>)
    ensures
        node_result(r) == decode_fields(NodeKind::Int, record_view(fields@)),
{
    match read_text(fields, Field::Value) {
        Err(e) => Err(e),
        Ok(value) => Ok(AlephTree::Int { value }),
    }
}

/// Reads the fields of a `Float` node from a record.
fn build_float(fields: &Vec<(String, Json)>) -> (r: Result<AlephTree, DecodeError>)
    ensures
        node_result(r) == decode_fields(NodeKind::Float, record_view(fields@)),
{
    match read_text(fields, Field::Value) {
        Err(e) => Err(e),
        Ok(value) => Ok(AlephTree::Float { value }),
    }
}

/// Reads the fields of a `Bool` node from a record.
fn build_bool(fields: &Vec<(String, Json)>) -> (r: Result<AlephTree, DecodeError>)
    ensures
        node_result(r) == decode_fields(NodeKind::Bool, record_view(fields@)),
{
    match read_text(fields, Field::Value) {
        Err(e) => Err(e),
        Ok(value) => Ok(AlephTree::Bool { value }),
    }
}

/// Reads the fields of a `String` node from a record.
fn build_string(fields: &Vec<(String, Json)>) -> (r: Result<AlephTree, DecodeError>)
    ensures
        node_result(r) == decode_fields(NodeKind::String, record_view(fields@)),
{
    match read_text(fields, Field::Value) {
        Err(e) => Err(e),
        Ok(value) => Ok(AlephTree::String { value }),
    }
}

/// Reads the fields of a `Ident` node from a record.
fn build_ident(fields: &Vec<(String, Json)>) -> (r: Result<AlephTree, DecodeError>)
    ensures
        node_result(r) == decode_fields(NodeKind::Ident, record_view(fields@)),
{
    match read_text(fields, Field::Value) {
        Err(e) => Err(e),
        Ok(value) => Ok(AlephTree::Ident { value }),
    }
}

/// Reads the fields of a `Bytes` node from a record.
fn build_bytes(fields: &Vec<(String, Json)>) -> (r: Result<AlephTree, DecodeError>)
    ensures
        node_result(r) == decode_fields(NodeKind::Bytes, record_view(fields@)),
{
    match read_bytes(fields, Field::Elems) {
        Err(e) => Err(e),
        Ok(elems) => Ok(AlephTree::Bytes { elems }),
    }
}

/// Reads the fields of a `Complex` node from a record.
fn build_complex(fields: &Vec<(String, Json)>) -> (r: Result<AlephTree, DecodeError>)
    ensures
        node_result(r) == decode_fields(NodeKind::Complex, record_view(fields@)),
{
    match read_text(fields, Field::Real) {
        Err(e) => Err(e),
        Ok(re) => match read_text(fields, Field::Imag) {
            Err(e) => Err(e),
            Ok(imag) => Ok(AlephTree::Complex { real: re, imag }),
        },
    }
}

/// Reads the fields of a `Tuple` node from a record.
fn build_tuple(fields: &Vec<(String, Json)>) -> (r: Result<AlephTree, DecodeError>)
    ensures
        node_result(r) == decode_fields(NodeKind::Tuple, record_view(fields@)),
    decreases fields, 2nat,
{
    match read_nodes(fields, Field::Elems) {
        Err(e) => Err(e),
        Ok(elems) => Ok(AlephTree::Tuple { elems }),
    }
}

/// Reads the fields of a `Array` node from a record.
fn build_array(fields: &Vec<(String, Json)>) -> (r: Result<AlephTree, DecodeError>)
    ensures
        node_result(r) == decode_fields(NodeKind::Array, record_view(fields@)),
    decreases fields, 2nat,
{
    match read_nodes(fields, Field::Elems) {
        Err(e) => Err(e),
        Ok(elems) => Ok(AlephTree::Array { elems }),
    }
}

/// Reads the fields of a `Neg` node from a record.
fn build_neg(fields: &Vec<(String, Json)>) -> (r: Result<AlephTree, DecodeError>)
    ensures
        node_result(r) == decode_fields(NodeKind::Neg, record_view(fields@)),
    decreases fields, 2nat,
{
    match read_node(fields, Field::Expr) {
        Err(e) => Err(e),
        Ok(expr) => Ok(AlephTree::Neg { expr }),
    }
}

/// Reads the fields of a `Not` node from a record.
fn build_not(fields: &Vec<(String, Json)>) -> (r: Result<AlephTree, DecodeError>)
    ensures
        node_result(r) == decode_fields(NodeKind::Not, record_view(fields@)),
    decreases fields, 2nat,
{
    match read_node(fields, Field::BoolExpr) {
        Err(e) => Err(e),
        Ok(bool_expr) => Ok(AlephTree::Not { bool_expr }),
    }
}

/// Reads the fields of a `And` node from a record.
fn build_and(fields: &Vec<(String, Json)>) -> (r: Result<AlephTree, DecodeError>)
    ensures
        node_result(r) == decode_fields(NodeKind::And, record_view(fields@)),
    decreases fields, 2nat,
{
    match read_node(fields, Field::BoolExpr1) {
        Err(e) => Err(e),
        Ok(bool_expr1) => match read_node(fields, Field::BoolExpr2) {
            Err(e) => Err(e),
            Ok(bool_expr2) => Ok(AlephTree::And { bool_expr1, bool_expr2 }),
        },
    }
}

/// Reads the fields of a `Or` node from a record.
fn build_or(fields: &Vec<(String, Json)>) -> (r: Result<AlephTree, DecodeError>)
    ensures
        node_result(r) == decode_fields(NodeKind::Or, record_view(fields@)),
    decreases fields, 2nat,
{
    match read_node(fields, Field::BoolExpr1) {
        Err(e) => Err(e),
        Ok(bool_expr1) => match read_node(fields, Field::BoolExpr2) {
            Err(e) => Err(e),
            Ok(bool_expr2) => Ok(AlephTree::Or { bool_expr1, bool_expr2 }),
        },
    }
}

/// Reads the fields of a `Add` node from a record.
fn build_add(fields: &Vec<(String, Json)>) -> (r: Result<AlephTree, DecodeError>)
    ensures
        node_result(r) == decode_fields(NodeKind::Add, record_view(fields@)),
    decreases fields, 2nat,
{
    match read_node(fields, Field::NumberExpr1) {
        Err(e) => Err(e),
        Ok(number_expr1) => match read_node(fields, Field::NumberExpr2) {
            Err(e) => Err(e),
            Ok(number_expr2) => Ok(AlephTree::Add { number_expr1, number_expr2 }),
        },
    }
}

/// Reads the fields of a `Sub` node from a record.
fn build_sub(fields: &Vec<(String, Json)>) -> (r: Result<AlephTree, DecodeError>)
    ensures
        node_result(r) == decode_fields(NodeKind::Sub, record_view(fields@)),
    decreases fields, 2nat,
{
    match read_node(fields, Field::NumberExpr1) {
        Err(e) => Err(e),
        Ok(number_expr1) => match read_node(fields, Field::NumberExpr2) {
            Err(e) => Err(e),
            Ok(number_expr2) => Ok(AlephTree::Sub { number_expr1, number_expr2 }),
        },
    }
}

/// Reads the fields of a `Mul` node from a record.
fn build_mul(fields: &Vec<(String, Json)>) -> (r: Result<AlephTree, DecodeError>)
    ensures
        node_result(r) == decode_fields(NodeKind::Mul, record_view(fields@)),
    decreases fields, 2nat,
{
    match read_node(fields, Field::NumberExpr1) {
        Err(e) => Err(e),
        Ok(number_expr1) => match read_node(fields, Field::NumberExpr2) {
            Err(e) => Err(e),
            Ok(number_expr2) => Ok(AlephTree::Mul { number_expr1, number_expr2 }),
        },
    }
}

/// Reads the fields of a `Div` node from a record.
fn build_div(fields: &Vec<(String, Json)>) -> (r: Result<AlephTree, DecodeError>)
    ensures
        node_result(r) == decode_fields(NodeKind::Div, record_view(fields@)),
    decreases fields, 2nat,
{
    match read_node(fields, Field::NumberExpr1) {
        Err(e) => Err(e),
        Ok(number_expr1) => match read_node(fields, Field::NumberExpr2) {
            Err(e) => Err(e),
            Ok(number_expr2) => Ok(AlephTree::Div { number_expr1, number_expr2 }),
        },
    }
}

/// Reads the fields of a `Eq` node from a record.
fn build_eq(fields: &Vec<(String, Json)>) -> (r: Result<AlephTree, DecodeError>)
    ensures
        node_result(r) == decode_fields(NodeKind::Eq, record_view(fields@)),
    decreases fields, 2nat,
{
    match read_node(fields, Field::Expr1) {
        Err(e) => Err(e),
        Ok(expr1) => match read_node(fields, Field::Expr2) {
            Err(e) => Err(e),
            Ok(expr2) => Ok(AlephTree::Eq { expr1, expr2 }),
        },
    }
}

/// Reads the fields of a `LE` node from a record.
fn build_le(fields: &Vec<(String, Json)>) -> (r: Result<AlephTree, DecodeError>)
    ensures
        node_result(r) == decode_fields(NodeKind::LE, record_view(fields@)),
    decreases fields, 2nat,
{
    match read_node(fields, Field::Expr1) {
        Err(e) => Err(e),
        Ok(expr1) => match read_node(fields, Field::Expr2) {
            Err(e) => Err(e),
            Ok(expr2) => Ok(AlephTree::LE { expr1, expr2 }),
        },
    }
}

/// Reads the fields of a `In` node from a record.
fn build_in(fields: &Vec<(String, Json)>) -> (r: Result<AlephTree, DecodeError>)
    ensures
        node_result(r) == decode_fields(NodeKind::In, record_view(fields@)),
    decreases fields, 2nat,
{
    match read_node(fields, Field::Expr1) {
        Err(e) => Err(e),
        Ok(expr1) => match read_node(fields, Field::Expr2) {
            Err(e) => Err(e),
            Ok(expr2) => Ok(AlephTree::In { expr1, expr2 }),
        },
    }
}

/// Reads the fields of a `If` node from a record.
fn build_if(fields: &Vec<(String, Json)>) -> (r: Result<AlephTree, DecodeError>)
    ensures
        node_result(r) == decode_fields(NodeKind::If, record_view(fields@)),
    decreases fields, 2nat,
{
    match read_node(fields, Field::Condition) {
        Err(e) => Err(e),
        Ok(condition) => match read_node(fields, Field::Then) {
            Err(e) => Err(e),
            Ok(then) => match read_node(fields, Field::Els) {
                Err(e) => Err(e),
                Ok(els) => Ok(AlephTree::If { condition, then, els }),
            },
        },
    }
}

/// Reads the fields of a `While` node from a record.
fn build_while(fields: &Vec<(String, Json)>) -> (r: Result<AlephTree, DecodeError>)
    ensures
        node_result(r) == decode_fields(NodeKind::While, record_view(fields@)),
    decreases fields, 2nat,
{
    match read_node(fields, Field::InitExpr) {
        Err(e) => Err(e),
        Ok(init_expr) => match read_node(fields, Field::Condition) {
            Err(e) => Err(e),
            Ok(condition) => match read_node(fields, Field::LoopExpr) {
                Err(e) => Err(e),
                Ok(loop_expr) => match read_node(fields, Field::PostExpr) {
                    Err(e) => Err(e),
                    Ok(post_expr) => Ok(AlephTree::While { init_expr, condition, loop_expr, post_expr }),
                },
            },
        },
    }
}

/// Reads the fields of a `Let` node from a record.
fn build_let(fields: &Vec<(String, Json)>) -> (r: Result<AlephTree, DecodeError>)
    ensures
        node_result(r) == decode_fields(NodeKind::Let, record_view(fields@)),
    decreases fields, 2nat,
{
    match read_text(fields, Field::Var) {
        Err(e) => Err(e),
        Ok(var) => match read_text(fields, Field::IsPointer) {
            Err(e) => Err(e),
            Ok(is_pointer) => match read_node(fields, Field::Value) {
                Err(e) => Err(e),
                Ok(value) => match read_node(fields, Field::Expr) {
                    Err(e) => Err(e),
                    Ok(expr) => Ok(AlephTree::Let { var, is_pointer, value, expr }),
                },
            },
        },
    }
}

/// Reads the fields of a `LetRec` node from a record.
fn build_let_rec(fields: &Vec<(String, Json)>) -> (r: Result<AlephTree, DecodeError>)
    ensures
        node_result(r) == decode_fields(NodeKind::LetRec, record_view(fields@)),
    decreases fields, 2nat,
{
    match read_text(fields, Field::Name) {
        Err(e) => Err(e),
        Ok(name) => match read_nodes(fields, Field::Args) {
            Err(e) => Err(e),
            Ok(args) => match read_node(fields, Field::Body) {
                Err(e) => Err(e),
                Ok(body) => Ok(AlephTree::LetRec { name, args, body }),
            },
        },
    }
}

/// Reads the fields of a `Get` node from a record.
fn build_get(fields: &Vec<(String, Json)>) -> (r: Result<AlephTree, DecodeError>)
    ensures
        node_result(r) == decode_fields(NodeKind::Get, record_view(fields@)),
    decreases fields, 2nat,
{
    match read_text(fields, Field::ArrayName) {
        Err(e) => Err(e),
        Ok(array_name) => match read_node(fields, Field::Elem) {
            Err(e) => Err(e),
            Ok(elem) => Ok(AlephTree::Get { array_name, elem }),
        },
    }
}

/// Reads the fields of a `Put` node from a record.
fn build_put(fields: &Vec<(String, Json)>) -> (r: Result<AlephTree, DecodeError>)
    ensures
        node_result(r) == decode_fields(NodeKind::Put, record_view(fields@)),
    decreases fields, 2nat,
{
    match read_text(fields, Field::ArrayName) {
        Err(e) => Err(e),
        Ok(array_name) => match read_node(fields, Field::Elem) {
            Err(e) => Err(e),
            Ok(elem) => match read_node(fields, Field::Value) {
                Err(e) => Err(e),
                Ok(value) => match read_text(fields, Field::Insert) {
                    Err(e) => Err(e),
                    Ok(insert) => Ok(AlephTree::Put { array_name, elem, value, insert }),
                },
            },
        },
    }
}

/// Reads the fields of a `Remove` node from a record.
fn build_remove(fields: &Vec<(String, Json)>) -> (r: Result<AlephTree, DecodeError>)
    ensures
        node_result(r) == decode_fields(NodeKind::Remove, record_view(fields@)),
    decreases fields, 2nat,
{
    match read_text(fields, Field::ArrayName) {
        Err(e) => Err(e),
        Ok(array_name) => match read_node(fields, Field::Elem) {
            Err(e) => Err(e),
            Ok(elem) => match read_text(fields, Field::IsValue) {
                Err(e) => Err(e),
                Ok(is_value) => Ok(AlephTree::Remove { array_name, elem, is_value }),
            },
        },
    }
}

/// Reads the fields of a `Length` node from a record.
fn build_length(fields: &Vec<(String, Json)>) -> (r: Result<AlephTree, DecodeError>)
    ensures
        node_result(r) == decode_fields(NodeKind::Length, record_view(fields@)),
{
    match read_text(fields, Field::Var) {
        Err(e) => Err(e),
        Ok(var) => Ok(AlephTree::Length { var }),
    }
}

/// Reads the fields of a `Match` node from a record.
fn build_match(fields: &Vec<(String, Json)>) -> (r: Result<AlephTree, DecodeError>)
    ensures
        node_result(r) == decode_fields(NodeKind::Match, record_view(fields@)),
    decreases fields, 2nat,
{
    match read_node(fields, Field::Expr) {
        Err(e) => Err(e),
        Ok(expr) => match read_nodes(fields, Field::CaseList) {
            Err(e) => Err(e),
            Ok(case_list) => Ok(AlephTree::Match { expr, case_list }),
        },
    }
}

/// Reads the fields of a `MatchLine` node from a record.
fn build_match_line(fields: &Vec<(String, Json)>) -> (r: Result<AlephTree, DecodeError>)
    ensures
        node_result(r) == decode_fields(NodeKind::MatchLine, record_view(fields@)),
    decreases fields, 2nat,
{
    match read_node(fields, Field::Condition) {
        Err(e) => Err(e),
        Ok(condition) => match read_node(fields, Field::CaseExpr) {
            Err(e) => Err(e),
            Ok(case_expr) => Ok(AlephTree::MatchLine { condition, case_expr }),
        },
    }
}

/// Reads the fields of a `Var` node from a record.
fn build_var(fields: &Vec<(String, Json)>) -> (r: Result<AlephTree, DecodeError>)
    ensures
        node_result(r) == decode_fields(NodeKind::Var, record_view(fields@)),
{
    match read_text(fields, Field::Var) {
        Err(e) => Err(e),
        Ok(var) => match read_text(fields, Field::IsPointer) {
            Err(e) => Err(e),
            Ok(is_pointer) => Ok(AlephTree::Var { var, is_pointer }),
        },
    }
}

/// Reads the fields of a `App` node from a record.
fn build_app(fields: &Vec<(String, Json)>) -> (r: Result<AlephTree, DecodeError>)
    ensures
        node_result(r) == decode_fields(NodeKind::App, record_view(fields@)),
    decreases fields, 2nat,
{
    match read_text(fields, Field::ObjectName) {
        Err(e) => Err(e),
        Ok(object_name) => match read_node(fields, Field::Fun) {
            Err(e) => Err(e),
            Ok(fun) => match read_nodes(fields, Field::ParamList) {
                Err(e) => Err(e),
                Ok(param_list) => Ok(AlephTree::App { object_name, fun, param_list }),
            },
        },
    }
}

/// Reads the fields of a `Stmts` node from a record.
fn build_stmts(fields: &Vec<(String, Json)>) -> (r: Result<AlephTree, DecodeError>)
    ensures
        node_result(r) == decode_fields(NodeKind::Stmts, record_view(fields@)),
    decreases fields, 2nat,
{
    match read_node(fields, Field::Expr1) {
        Err(e) => Err(e),
        Ok(expr1) => match read_node(fields, Field::Expr2) {
            Err(e) => Err(e),
            Ok(expr2) => Ok(AlephTree::Stmts { expr1, expr2 }),
        },
    }
}

/// Reads the fields of a `Iprt` node from a record.
fn build_iprt(fields: &Vec<(String, Json)>) -> (r: Result<AlephTree, DecodeError>)
    ensures
        node_result(r) == decode_fields(NodeKind::Iprt, record_view(fields@)),
{
    match read_text(fields, Field::Name) {
        Err(e) => Err(e),
        Ok(name) => Ok(AlephTree::Iprt { name }),
    }
}

/// Reads the fields of a `Clss` node from a record.
fn build_clss(fields: &Vec<(String, Json)>) -> (r: Result<AlephTree, DecodeError>)
    ensures
        node_result(r) == decode_fields(NodeKind::Clss, record_view(fields@)),
    decreases fields, 2nat,
{
    match read_text(fields, Field::Name) {
        Err(e) => Err(e),
        Ok(name) => match read_texts(fields, Field::AttributeList) {
            Err(e) => Err(e),
            Ok(attribute_list) => match read_node(fields, Field::Body) {
                Err(e) => Err(e),
                Ok(body) => Ok(AlephTree::Clss { name, attribute_list, body }),
            },
        },
    }
}

/// Reads the fields of a `Return` node from a record.
fn build_return(fields: &Vec<(String, Json)>) -> (r: Result<AlephTree, DecodeError>)
    ensures
        node_result(r) == decode_fields(NodeKind::Return, record_view(fields@)),
    decreases fields, 2nat,
{
    match read_node(fields, Field::Value) {
        Err(e) => Err(e),
        Ok(value) => Ok(AlephTree::Return { value }),
    }
}

/// Reads the fields of a `Comment` node from a record.
fn build_comment(fields: &Vec<(String, Json)>) -> (r: Result<AlephTree, DecodeError>)
    ensures
        node_result(r) == decode_fields(NodeKind::Comment, record_view(fields@)),
{
    match read_text(fields, Field::Value) {
        Err(e) => Err(e),
        Ok(value) => Ok(AlephTree::Comment { value }),
    }
}

/// Reads the fields of a `CommentMulti` node from a record.
fn build_comment_multi(fields: &Vec<(String, Json)>) -> (r: Result<AlephTree, DecodeError>)
    ensures
        node_result(r) == decode_fields(NodeKind::CommentMulti, record_view(fields@)),
{
    match read_text(fields, Field::Value) {
        Err(e) => Err(e),
        Ok(value) => Ok(AlephTree::CommentMulti { value }),
    }
}

/// Reads the fields of a `Assert` node from a record.
fn build_assert(fields: &Vec<(String, Json)>) -> (r: Result<AlephTree, DecodeError>)
    ensures
        node_result(r) == decode_fields(NodeKind::Assert, record_view(fields@)),
    decreases fields, 2nat,
{
    match read_node(fields, Field::Condition) {
        Err(e) => Err(e),
        Ok(condition) => match read_node(fields, Field::Message) {
            Err(e) => Err(e),
            Ok(message) => Ok(AlephTree::Assert { condition, message }),
        },
    }
}

/// Reads the fields of a node of the given kind from a record.
fn read_fields(kind: NodeKind, fields: &Vec<(String, Json)>) -> (r: Result<AlephTree, DecodeError>)
    ensures
        node_result(r) == decode_fields(kind, record_view(fields@)),
    decreases fields, 3nat,
{
    match kind {
        NodeKind::Unit => Ok(AlephTree::Unit),
        NodeKind::Break => Ok(AlephTree::Break),
        NodeKind::Continue => Ok(AlephTree::Continue),
        NodeKind::Ellipsis => Ok(AlephTree::Ellipsis),
        NodeKind::Int => build_int(fields),
        NodeKind::Float => build_float(fields),
        NodeKind::Bool => build_bool(fields),
        NodeKind::String => build_string(fields),
        NodeKind::Ident => build_ident(fields),
        NodeKind::Bytes => build_bytes(fields),
        NodeKind::Complex => build_complex(fields),
        NodeKind::Tuple => build_tuple(fields),
        NodeKind::Array => build_array(fields),
        NodeKind::Neg => build_neg(fields),
        NodeKind::Not => build_not(fields),
        NodeKind::And => build_and(fields),
        NodeKind::Or => build_or(fields),
        NodeKind::Add => build_add(fields),
        NodeKind::Sub => build_sub(fields),
        NodeKind::Mul => build_mul(fields),
        NodeKind::Div => build_div(fields),
        NodeKind::Eq => build_eq(fields),
        NodeKind::LE => build_le(fields),
        NodeKind::In => build_in(fields),
        NodeKind::If => build_if(fields),
        NodeKind::While => build_while(fields),
        NodeKind::Let => build_let(fields),
        NodeKind::LetRec => build_let_rec(fields),
        NodeKind::Get => build_get(fields),
        NodeKind::Put => build_put(fields),
        NodeKind::Remove => build_remove(fields),
        NodeKind::Length => build_length(fields),
        NodeKind::Match => build_match(fields),
        NodeKind::MatchLine => build_match_line(fields),
        NodeKind::Var => build_var(fields),
        NodeKind::App => build_app(fields),
        NodeKind::Stmts => build_stmts(fields),
        NodeKind::Iprt => build_iprt(fields),
        NodeKind::Clss => build_clss(fields),
        NodeKind::Return => build_return(fields),
        NodeKind::Comment => build_comment(fields),
        NodeKind::CommentMulti => build_comment_multi(fields),
        NodeKind::Assert => build_assert(fields),
    }
}

/// Reads a document as a node of the syntax tree, or says why it is none.
pub fn decode(doc: &Json) -> (r: Result<AlephTree, DecodeError>)
    ensures
        match r {
            Ok(t) => decode_spec(doc@) == Ok::<TreeView, DecodeErrorView>(t@),
            Err(e) => decode_spec(doc@) == Err::<TreeView, DecodeErrorView>(e@),
        },
    decreases doc, 0nat,
{
    match doc {
        Json::Record(fields) => match read_text(fields, Field::Type) {
            Err(e) => Err(e),
            Ok(tag) => match kind_named(tag.as_str()) {
                None => Err(DecodeError::UnknownKind(tag)),
                Some(kind) => read_fields(kind, fields),
            },
        },
        _ => Err(DecodeError::NotARecord),
    }
}

/// An entry of a record: a field under its current key.
fn entry(f: Field, value: Json) -> (r: (String, Json))
    ensures
        r.0@ == f.key(),
        r.1 == value,
{
    (f.name().to_owned(), value)
}

/// The entry that carries the tag of a kind.
fn tag_of(kind: NodeKind) -> (r: (String, Json))
    ensures
        (r.0@, r.1@) == tag_entry(kind),
{
    (Field::Type.name().to_owned(), Json::Text(kind.name().to_owned()))
}

/// The record of a node with no field.
fn record0(kind: NodeKind) -> (doc: Json)
    ensures
        doc@ == JsonView::Record(seq![tag_entry(kind)]),
        doc@.is_plain(),
{
    let mut fields: Vec<(String, Json)> = Vec::new();
    fields.push(tag_of(kind));
    let ghost all = seq![tag_entry(kind)];
    assert(record_view(fields@) =~= all);
    assert forall|i: int| 0 <= i < all.len() implies (#[trigger] all[i]).1.is_plain() by {
        if i == 0 {
            assert(all[0] == tag_entry(kind));
        }
    }
    Json::Record(fields)
}

/// The record of a node with one field.
fn record1(kind: NodeKind, f1: Field, v1: Json) -> (doc: Json)
    requires
        v1@.is_plain(),
    ensures
        doc@ == JsonView::Record(seq![tag_entry(kind), (f1.key(), v1@)]),
        doc@.is_plain(),
{
    let mut fields: Vec<(String, Json)> = Vec::new();
    fields.push(tag_of(kind));
    fields.push(entry(f1, v1));
    let ghost all = seq![tag_entry(kind), (f1.key(), v1@)];
    assert(record_view(fields@) =~= all);
    assert forall|i: int| 0 <= i < all.len() implies (#[trigger] all[i]).1.is_plain() by {
        if i == 0 {
            assert(all[0] == tag_entry(kind));
        }
        if i == 1 {
            assert(all[1] == (f1.key(), v1@));
        }
    }
    Json::Record(fields)
}

/// The record of a node with two fields.
fn record2(kind: NodeKind, f1: Field, v1: Json, f2: Field, v2: Json) -> (doc: Json)
    requires
        v1@.is_plain(),
        v2@.is_plain(),
    ensures
        doc@ == JsonView::Record(seq![tag_entry(kind), (f1.key(), v1@), (f2.key(), v2@)]),
        doc@.is_plain(),
{
    let mut fields: Vec<(String, Json)> = Vec::new();
    fields.push(tag_of(kind));
    fields.push(entry(f1, v1));
    fields.push(entry(f2, v2));
    let ghost all = seq![tag_entry(kind), (f1.key(), v1@), (f2.key(), v2@)];
    assert(record_view(fields@) =~= all);
    assert forall|i: int| 0 <= i < all.len() implies (#[trigger] all[i]).1.is_plain() by {
        if i == 0 {
            assert(all[0] == tag_entry(kind));
        }
        if i == 1 {
            assert(all[1] == (f1.key(), v1@));
        }
        if i == 2 {
            assert(all[2] == (f2.key(), v2@));
        }
    }
    Json::Record(fields)
}

/// The record of a node with three fields.
fn record3(kind: NodeKind, f1: Field, v1: Json, f2: Field, v2: Json, f3: Field, v3: Json) -> (doc: Json)
    requires
        v1@.is_plain(),
        v2@.is_plain(),
        v3@.is_plain(),
    ensures
        doc@ == JsonView::Record(seq![tag_entry(kind), (f1.key(), v1@), (f2.key(), v2@), (f3.key(), v3@)]),
        doc@.is_plain(),
{
    let mut fields: Vec<(String, Json)> = Vec::new();
    fields.push(tag_of(kind));
    fields.push(entry(f1, v1));
    fields.push(entry(f2, v2));
    fields.push(entry(f3, v3));
    let ghost all = seq![tag_entry(kind), (f1.key(), v1@), (f2.key(), v2@), (f3.key(), v3@)];
    assert(record_view(fields@) =~= all);
    assert forall|i: int| 0 <= i < all.len() implies (#[trigger] all[i]).1.is_plain() by {
        if i == 0 {
            assert(all[0] == tag_entry(kind));
        }
        if i == 1 {
            assert(all[1] == (f1.key(), v1@));
        }
        if i == 2 {
            assert(all[2] == (f2.key(), v2@));
        }
        if i == 3 {
            assert(all[3] == (f3.key(), v3@));
        }
    }
    Json::Record(fields)
}

/// The record of a node with four fields.
fn record4(kind: NodeKind, f1: Field, v1: Json, f2: Field, v2: Json, f3: Field, v3: Json, f4: Field, v4: Json) -> (doc: Json)
    requires
        v1@.is_plain(),
        v2@.is_plain(),
        v3@.is_plain(),
        v4@.is_plain(),
    ensures
        doc@ == JsonView::Record(seq![tag_entry(kind), (f1.key(), v1@), (f2.key(), v2@), (f3.key(), v3@), (f4.key(), v4@)]),
        doc@.is_plain(),
{
    let mut fields: Vec<(String, Json)> = Vec::new();
    fields.push(tag_of(kind));
    fields.push(entry(f1, v1));
    fields.push(entry(f2, v2));
    fields.push(entry(f3, v3));
    fields.push(entry(f4, v4));
    let ghost all = seq![tag_entry(kind), (f1.key(), v1@), (f2.key(), v2@), (f3.key(), v3@), (f4.key(), v4@)];
    assert(record_view(fields@) =~= all);
    assert forall|i: int| 0 <= i < all.len() implies (#[trigger] all[i]).1.is_plain() by {
        if i == 0 {
            assert(all[0] == tag_entry(kind));
        }
        if i == 1 {
            assert(all[1] == (f1.key(), v1@));
        }
        if i == 2 {
            assert(all[2] == (f2.key(), v2@));
        }
        if i == 3 {
            assert(all[3] == (f3.key(), v3@));
        }
        if i == 4 {
            assert(all[4] == (f4.key(), v4@));
        }
    }
    Json::Record(fields)
}

/// Writes bytes as a list of numbers.
fn bytes_list(bytes: &Vec<u8>) -> (doc: Json)
    ensures
        doc@ == JsonView::List(bytes_json(bytes@)),
        doc@.is_plain(),
{
    let mut items: Vec<Json> = Vec::new();
    let mut i: usize = 0;
    while i < bytes.len()
        invariant
            i <= bytes.len(),
            items.len() == i,
            forall|j: int| 0 <= j < i ==> (#[trigger] items@[j])@ == JsonView::UInt(bytes@[j] as u64),
        decreases bytes.len() - i,
    {
        items.push(Json::UInt(bytes[i] as u64));
        i = i + 1;
    }
    assert(list_view(items@) =~= bytes_json(bytes@));
    assert forall|j: int| 0 <= j < bytes_json(bytes@).len() implies (#[trigger] bytes_json(
        bytes@,
    )[j]).is_plain() by {}
    Json::List(items)
}

/// Writes texts as a list.
fn texts_list(texts: &Vec<String>) -> (doc: Json)
    ensures
        doc@ == JsonView::List(texts_json(texts_view(texts@))),
        doc@.is_plain(),
{
    let mut items: Vec<Json> = Vec::new();
    let mut i: usize = 0;
    while i < texts.len()
        invariant
            i <= texts.len(),
            items.len() == i,
            forall|j: int| 0 <= j < i ==> (#[trigger] items@[j])@ == JsonView::Text(texts@[j]@),
        decreases texts.len() - i,
    {
        items.push(Json::Text(texts[i].clone()));
        i = i + 1;
    }
    assert(list_view(items@) =~= texts_json(texts_view(texts@)));
    assert forall|j: int| 0 <= j < texts_json(texts_view(texts@)).len() implies (
    #[trigger] texts_json(texts_view(texts@))[j]).is_plain() by {}
    Json::List(items)
}

/// Writes each node of a sequence, in their order, as a list.
pub fn encode_list(nodes: &Vec<Box<AlephTree>>) -> (doc: Json)
    ensures
        doc@ == JsonView::List(encode_all(nodes_view(nodes@))),
        doc@.is_plain(),
    decreases nodes,
{
    let ghost all = nodes_view(nodes@);
    let mut items: Vec<Json> = Vec::new();
    let mut i: usize = 0;
    assert(all.take(0) =~= Seq::empty());
    assert(list_view(items@) =~= Seq::empty());
    while i < nodes.len()
        invariant
            i <= nodes.len(),
            all == nodes_view(nodes@),
            list_view(items@) == encode_all(all.take(i as int)),
            forall|j: int| 0 <= j < items@.len() ==> (#[trigger] items@[j])@.is_plain(),
        decreases nodes.len() - i,
    {
        assert(all.take(i as int + 1).drop_last() =~= all.take(i as int));
        assert(all.take(i as int + 1).last() == all[i as int]);
        assert(all[i as int] == (*nodes@[i as int])@);
        assert(decreases_to!(nodes => nodes@[i as int]));
        let ghost before = list_view(items@);
        let item = encode(&*nodes[i]);
        let ghost iv = item@;
        items.push(item);
        assert(list_view(items@) =~= before.push(iv));
        i = i + 1;
    }
    assert(all.take(i as int) =~= all);
    assert forall|j: int| 0 <= j < list_view(items@).len() implies (#[trigger] list_view(
        items@,
    )[j]).is_plain() by {
        assert(list_view(items@)[j] == items@[j]@);
    }
    Json::List(items)
}

/// Writes a node of the syntax tree as a document: a record of its tag
/// and its fields, under the current names. Every number in it is an
/// integer.
pub fn encode(t: &AlephTree) -> (doc: Json)
    ensures
        doc@ == encode_spec(t@),
        doc@.is_plain(),
    decreases t,
{
    match t {
        AlephTree::Unit => record0(NodeKind::Unit),
        AlephTree::Break => record0(NodeKind::Break),
        AlephTree::Continue => record0(NodeKind::Continue),
        AlephTree::Ellipsis => record0(NodeKind::Ellipsis),
        AlephTree::Int { value } => record1(
            NodeKind::Int,
            Field::Value,
            Json::Text(value.clone()),
        ),
        AlephTree::Float { value } => record1(
            NodeKind::Float,
            Field::Value,
            Json::Text(value.clone()),
        ),
        AlephTree::Bool { value } => record1(
            NodeKind::Bool,
            Field::Value,
            Json::Text(value.clone()),
        ),
        AlephTree::String { value } => record1(
            NodeKind::String,
            Field::Value,
            Json::Text(value.clone()),
        ),
        AlephTree::Ident { value } => record1(
            NodeKind::Ident,
            Field::Value,
            Json::Text(value.clone()),
        ),
        AlephTree::Bytes { elems } => record1(
            NodeKind::Bytes,
            Field::Elems,
            bytes_list(elems),
        ),
        AlephTree::Complex { real: re, imag } => record2(
            NodeKind::Complex,
            Field::Real,
            Json::Text(re.clone()),
            Field::Imag,
            Json::Text(imag.clone()),
        ),
        AlephTree::Tuple { elems } => record1(
            NodeKind::Tuple,
            Field::Elems,
            encode_list(elems),
        ),
        AlephTree::Array { elems } => record1(
            NodeKind::Array,
            Field::Elems,
            encode_list(elems),
        ),
        AlephTree::Neg { expr } => record1(
            NodeKind::Neg,
            Field::Expr,
            encode(&**expr),
        ),
        AlephTree::Not { bool_expr } => record1(
            NodeKind::Not,
            Field::BoolExpr,
            encode(&**bool_expr),
        ),
        AlephTree::And { bool_expr1, bool_expr2 } => record2(
            NodeKind::And,
            Field::BoolExpr1,
            encode(&**bool_expr1),
            Field::BoolExpr2,
            encode(&**bool_expr2),
        ),
        AlephTree::Or { bool_expr1, bool_expr2 } => record2(
            NodeKind::Or,
            Field::BoolExpr1,
            encode(&**bool_expr1),
            Field::BoolExpr2,
            encode(&**bool_expr2),
        ),
        AlephTree::Add { number_expr1, number_expr2 } => record2(
            NodeKind::Add,
            Field::NumberExpr1,
            encode(&**number_expr1),
            Field::NumberExpr2,
            encode(&**number_expr2),
        ),
        AlephTree::Sub { number_expr1, number_expr2 } => record2(
            NodeKind::Sub,
            Field::NumberExpr1,
            encode(&**number_expr1),
            Field::NumberExpr2,
            encode(&**number_expr2),
        ),
        AlephTree::Mul { number_expr1, number_expr2 } => record2(
            NodeKind::Mul,
            Field::NumberExpr1,
            encode(&**number_expr1),
            Field::NumberExpr2,
            encode(&**number_expr2),
        ),
        AlephTree::Div { number_expr1, number_expr2 } => record2(
            NodeKind::Div,
            Field::NumberExpr1,
            encode(&**number_expr1),
            Field::NumberExpr2,
            encode(&**number_expr2),
        ),
        AlephTree::Eq { expr1, expr2 } => record2(
            NodeKind::Eq,
            Field::Expr1,
            encode(&**expr1),
            Field::Expr2,
            encode(&**expr2),
        ),
        AlephTree::LE { expr1, expr2 } => record2(
            NodeKind::LE,
            Field::Expr1,
            encode(&**expr1),
            Field::Expr2,
            encode(&**expr2),
        ),
        AlephTree::In { expr1, expr2 } => record2(
            NodeKind::In,
            Field::Expr1,
            encode(&**expr1),
            Field::Expr2,
            encode(&**expr2),
        ),
        AlephTree::If { condition, then, els } => record3(
            NodeKind::If,
            Field::Condition,
            encode(&**condition),
            Field::Then,
            encode(&**then),
            Field::Els,
            encode(&**els),
        ),
        AlephTree::While { init_expr, condition, loop_expr, post_expr } => record4(
            NodeKind::While,
            Field::InitExpr,
            encode(&**init_expr),
            Field::Condition,
            encode(&**condition),
            Field::LoopExpr,
            encode(&**loop_expr),
            Field::PostExpr,
            encode(&**post_expr),
        ),
        AlephTree::Let { var, is_pointer, value, expr } => record4(
            NodeKind::Let,
            Field::Var,
            Json::Text(var.clone()),
            Field::IsPointer,
            Json::Text(is_pointer.clone()),
            Field::Value,
            encode(&**value),
            Field::Expr,
            encode(&**expr),
        ),
        AlephTree::LetRec { name, args, body } => record3(
            NodeKind::LetRec,
            Field::Name,
            Json::Text(name.clone()),
            Field::Args,
            encode_list(args),
            Field::Body,
            encode(&**body),
        ),
        AlephTree::Get { array_name, elem } => record2(
            NodeKind::Get,
            Field::ArrayName,
            Json::Text(array_name.clone()),
            Field::Elem,
            encode(&**elem),
        ),
        AlephTree::Put { array_name, elem, value, insert } => record4(
            NodeKind::Put,
            Field::ArrayName,
            Json::Text(array_name.clone()),
            Field::Elem,
            encode(&**elem),
            Field::Value,
            encode(&**value),
            Field::Insert,
            Json::Text(insert.clone()),
        ),
        AlephTree::Remove { array_name, elem, is_value } => record3(
            NodeKind::Remove,
            Field::ArrayName,
            Json::Text(array_name.clone()),
            Field::Elem,
            encode(&**elem),
            Field::IsValue,
            Json::Text(is_value.clone()),
        ),
        AlephTree::Length { var } => record1(
            NodeKind::Length,
            Field::Var,
            Json::Text(var.clone()),
        ),
        AlephTree::Match { expr, case_list } => record2(
            NodeKind::Match,
            Field::Expr,
            encode(&**expr),
            Field::CaseList,
            encode_list(case_list),
        ),
        AlephTree::MatchLine { condition, case_expr } => record2(
            NodeKind::MatchLine,
            Field::Condition,
            encode(&**condition),
            Field::CaseExpr,
            encode(&**case_expr),
        ),
        AlephTree::Var { var, is_pointer } => record2(
            NodeKind::Var,
            Field::Var,
            Json::Text(var.clone()),
            Field::IsPointer,
            Json::Text(is_pointer.clone()),
        ),
        AlephTree::App { object_name, fun, param_list } => record3(
            NodeKind::App,
            Field::ObjectName,
            Json::Text(object_name.clone()),
            Field::Fun,
            encode(&**fun),
            Field::ParamList,
            encode_list(param_list),
        ),
        AlephTree::Stmts { expr1, expr2 } => record2(
            NodeKind::Stmts,
            Field::Expr1,
            encode(&**expr1),
            Field::Expr2,
            encode(&**expr2),
        ),
        AlephTree::Iprt { name } => record1(
            NodeKind::Iprt,
            Field::Name,
            Json::Text(name.clone()),
        ),
        AlephTree::Clss { name, attribute_list, body } => record3(
            NodeKind::Clss,
            Field::Name,
            Json::Text(name.clone()),
            Field::AttributeList,
            texts_list(attribute_list),
            Field::Body,
            encode(&**body),
        ),
        AlephTree::Return { value } => record1(
            NodeKind::Return,
            Field::Value,
            encode(&**value),
        ),
        AlephTree::Comment { value } => record1(
            NodeKind::Comment,
            Field::Value,
            Json::Text(value.clone()),
        ),
        AlephTree::CommentMulti { value } => record1(
            NodeKind::CommentMulti,
            Field::Value,
            Json::Text(value.clone()),
        ),
        AlephTree::Assert { condition, message } => record2(
            NodeKind::Assert,
            Field::Condition,
            encode(&**condition),
            Field::Message,
            encode(&**message),
        ),
    }
}

} // verus!
