//! What holds of writing and reading the structural format: what is
//! written is read back as it was.

use crate::codec::{
    bytes_in, bytes_json, decode_all, decode_spec, encode_all, encode_spec, lookup, texts_in,
    texts_json, DecodeErrorView, Lookup,
};
use crate::json::JsonView;
use crate::names::{lemma_key_names_one_field, lemma_kind_of_own_tag, Field, NodeKind};
use crate::syntax::TreeView;
use vstd::prelude::*;

verus! {

proof fn lemma_lookup_prefix(
    fs: Seq<Field>,
    fields: Seq<(Seq<char>, JsonView)>,
    k: int,
    n: int,
)
    requires
        fs.len() == fields.len(),
        forall|i: int| 0 <= i < fs.len() ==> (#[trigger] fields[i]).0 == fs[i].key(),
        forall|i: int, j: int| 0 <= i < j < fs.len() ==> fs[i] != fs[j],
        0 <= k < fs.len(),
        0 <= n <= fs.len(),
    ensures
        lookup(fields.take(n), fs[k]) == (if n <= k {
            Lookup::Missing
        } else {
            Lookup::Found(k)
        }),
    decreases n,
{
    if n > 0 {
        lemma_lookup_prefix(fs, fields, k, n - 1);
        assert(fields.take(n).drop_last() =~= fields.take(n - 1));
        assert(fields.take(n).last() == fields[n - 1]);
        lemma_key_names_one_field(fs[n - 1], fs[k]);
    }
}

/// In a record whose entries are written under the current keys of
/// distinct fields, each field is found once, at its place.
pub proof fn lemma_lookup_written(fs: Seq<Field>, fields: Seq<(Seq<char>, JsonView)>)
    requires
        fs.len() == fields.len(),
        forall|i: int| 0 <= i < fs.len() ==> (#[trigger] fields[i]).0 == fs[i].key(),
        forall|i: int, j: int| 0 <= i < j < fs.len() ==> fs[i] != fs[j],
    ensures
        forall|k: int| 0 <= k < fs.len() ==> lookup(fields, #[trigger] fs[k]) == Lookup::Found(k),
{
    assert forall|k: int| 0 <= k < fs.len() implies lookup(fields, #[trigger] fs[k])
        == Lookup::Found(k) by {
        lemma_lookup_prefix(fs, fields, k, fs.len() as int);
        assert(fields.take(fs.len() as int) =~= fields);
    }
}

/// The list written for bytes is read back as those bytes.
pub proof fn lemma_bytes_read_back(bytes: Seq<u8>, f: Field)
    ensures
        bytes_in(JsonView::List(bytes_json(bytes)), f) == Ok::<Seq<u8>, DecodeErrorView>(bytes),
{
    let items = bytes_json(bytes);
    assert(Seq::new(items.len(), |i: int| items[i]->UInt_0 as u8) =~= bytes);
}

/// The list written for texts is read back as those texts.
pub proof fn lemma_texts_read_back(texts: Seq<Seq<char>>, f: Field)
    ensures
        texts_in(JsonView::List(texts_json(texts)), f) == Ok::<Seq<Seq<char>>, DecodeErrorView>(
            texts,
        ),
{
    let items = texts_json(texts);
    assert(Seq::new(items.len(), |i: int| items[i]->Text_0) =~= texts);
}

/// The documents written for nodes are read back as those nodes, if each
/// of them is.
pub proof fn lemma_all_read_back(nodes: Seq<TreeView>)
    requires
        forall|i: int|
            0 <= i < nodes.len() ==> decode_spec(encode_spec(#[trigger] nodes[i])) == Ok::<
                TreeView,
                DecodeErrorView,
            >(nodes[i]),
    ensures
        decode_all(encode_all(nodes)) == Ok::<Seq<TreeView>, DecodeErrorView>(nodes),
    decreases nodes.len(),
{
    if nodes.len() == 0 {
        assert(nodes =~= Seq::empty());
    } else {
        let front = nodes.drop_last();
        assert forall|i: int| 0 <= i < front.len() implies decode_spec(
            encode_spec(#[trigger] front[i]),
        ) == Ok::<TreeView, DecodeErrorView>(front[i]) by {
            assert(front[i] == nodes[i]);
        }
        lemma_all_read_back(front);
        let written = encode_all(nodes);
        assert(written.drop_last() =~= encode_all(front));
        assert(written.last() == encode_spec(nodes.last()));
        assert(front.push(nodes.last()) =~= nodes);
    }
}

proof fn lemma_read_back_unit()
    ensures
        decode_spec(encode_spec(TreeView::Unit)) == Ok::<TreeView, DecodeErrorView>(
            TreeView::Unit,
        ),
{
    let t = TreeView::Unit;
    let fields = encode_spec(t)->Record_0;
    lemma_kind_of_own_tag(NodeKind::Unit);
    let fs = seq![Field::Type];
    lemma_lookup_written(fs, fields);
    assert(fs[0] == Field::Type);
}

proof fn lemma_read_back_break()
    ensures
        decode_spec(encode_spec(TreeView::Break)) == Ok::<TreeView, DecodeErrorView>(
            TreeView::Break,
        ),
{
    let t = TreeView::Break;
    let fields = encode_spec(t)->Record_0;
    lemma_kind_of_own_tag(NodeKind::Break);
    let fs = seq![Field::Type];
    lemma_lookup_written(fs, fields);
    assert(fs[0] == Field::Type);
}

proof fn lemma_read_back_continue()
    ensures
        decode_spec(encode_spec(TreeView::Continue)) == Ok::<TreeView, DecodeErrorView>(
            TreeView::Continue,
        ),
{
    let t = TreeView::Continue;
    let fields = encode_spec(t)->Record_0;
    lemma_kind_of_own_tag(NodeKind::Continue);
    let fs = seq![Field::Type];
    lemma_lookup_written(fs, fields);
    assert(fs[0] == Field::Type);
}

proof fn lemma_read_back_ellipsis()
    ensures
        decode_spec(encode_spec(TreeView::Ellipsis)) == Ok::<TreeView, DecodeErrorView>(
            TreeView::Ellipsis,
        ),
{
    let t = TreeView::Ellipsis;
    let fields = encode_spec(t)->Record_0;
    lemma_kind_of_own_tag(NodeKind::Ellipsis);
    let fs = seq![Field::Type];
    lemma_lookup_written(fs, fields);
    assert(fs[0] == Field::Type);
}

proof fn lemma_read_back_int(value: Seq<char>)
    ensures
        decode_spec(encode_spec(TreeView::Int { value })) == Ok::<TreeView, DecodeErrorView>(
            TreeView::Int { value },
        ),
{
    let t = TreeView::Int { value };
    let fields = encode_spec(t)->Record_0;
    lemma_kind_of_own_tag(NodeKind::Int);
    let fs = seq![Field::Type, Field::Value];
    lemma_lookup_written(fs, fields);
    assert(fs[0] == Field::Type);
    assert(fs[1] == Field::Value);
}

proof fn lemma_read_back_float(value: Seq<char>)
    ensures
        decode_spec(encode_spec(TreeView::Float { value })) == Ok::<TreeView, DecodeErrorView>(
            TreeView::Float { value },
        ),
{
    let t = TreeView::Float { value };
    let fields = encode_spec(t)->Record_0;
    lemma_kind_of_own_tag(NodeKind::Float);
    let fs = seq![Field::Type, Field::Value];
    lemma_lookup_written(fs, fields);
    assert(fs[0] == Field::Type);
    assert(fs[1] == Field::Value);
}

proof fn lemma_read_back_bool(value: Seq<char>)
    ensures
        decode_spec(encode_spec(TreeView::Bool { value })) == Ok::<TreeView, DecodeErrorView>(
            TreeView::Bool { value },
        ),
{
    let t = TreeView::Bool { value };
    let fields = encode_spec(t)->Record_0;
    lemma_kind_of_own_tag(NodeKind::Bool);
    let fs = seq![Field::Type, Field::Value];
    lemma_lookup_written(fs, fields);
    assert(fs[0] == Field::Type);
    assert(fs[1] == Field::Value);
}

proof fn lemma_read_back_string(value: Seq<char>)
    ensures
        decode_spec(encode_spec(TreeView::String { value })) == Ok::<TreeView, DecodeErrorView>(
            TreeView::String { value },
        ),
{
    let t = TreeView::String { value };
    let fields = encode_spec(t)->Record_0;
    lemma_kind_of_own_tag(NodeKind::String);
    let fs = seq![Field::Type, Field::Value];
    lemma_lookup_written(fs, fields);
    assert(fs[0] == Field::Type);
    assert(fs[1] == Field::Value);
}

proof fn lemma_read_back_ident(value: Seq<char>)
    ensures
        decode_spec(encode_spec(TreeView::Ident { value })) == Ok::<TreeView, DecodeErrorView>(
            TreeView::Ident { value },
        ),
{
    let t = TreeView::Ident { value };
    let fields = encode_spec(t)->Record_0;
    lemma_kind_of_own_tag(NodeKind::Ident);
    let fs = seq![Field::Type, Field::Value];
    lemma_lookup_written(fs, fields);
    assert(fs[0] == Field::Type);
    assert(fs[1] == Field::Value);
}

proof fn lemma_read_back_bytes(elems: Seq<u8>)
    ensures
        decode_spec(encode_spec(TreeView::Bytes { elems })) == Ok::<TreeView, DecodeErrorView>(
            TreeView::Bytes { elems },
        ),
{
    let t = TreeView::Bytes { elems };
    let fields = encode_spec(t)->Record_0;
    lemma_kind_of_own_tag(NodeKind::Bytes);
    let fs = seq![Field::Type, Field::Elems];
    lemma_lookup_written(fs, fields);
    assert(fs[0] == Field::Type);
    assert(fs[1] == Field::Elems);
    lemma_bytes_read_back(elems, Field::Elems);
}

proof fn lemma_read_back_complex(re: Seq<char>, imag: Seq<char>)
    ensures
        decode_spec(encode_spec(TreeView::Complex { real: re, imag })) == Ok::<TreeView, DecodeErrorView>(
            TreeView::Complex { real: re, imag },
        ),
{
    let t = TreeView::Complex { real: re, imag };
    let fields = encode_spec(t)->Record_0;
    lemma_kind_of_own_tag(NodeKind::Complex);
    let fs = seq![Field::Type, Field::Real, Field::Imag];
    lemma_lookup_written(fs, fields);
    assert(fs[0] == Field::Type);
    assert(fs[1] == Field::Real);
    assert(fs[2] == Field::Imag);
}

proof fn lemma_read_back_tuple(elems: Seq<TreeView>)
    requires
        forall|i: int|
            0 <= i < elems.len() ==> decode_spec(encode_spec(#[trigger] elems[i])) == Ok::<TreeView, DecodeErrorView>(
                elems[i],
            ),
    ensures
        decode_spec(encode_spec(TreeView::Tuple { elems })) == Ok::<TreeView, DecodeErrorView>(
            TreeView::Tuple { elems },
        ),
{
    let t = TreeView::Tuple { elems };
    let fields = encode_spec(t)->Record_0;
    lemma_kind_of_own_tag(NodeKind::Tuple);
    let fs = seq![Field::Type, Field::Elems];
    lemma_lookup_written(fs, fields);
    assert(fs[0] == Field::Type);
    assert(fs[1] == Field::Elems);
    lemma_all_read_back(elems);
}

proof fn lemma_read_back_array(elems: Seq<TreeView>)
    requires
        forall|i: int|
            0 <= i < elems.len() ==> decode_spec(encode_spec(#[trigger] elems[i])) == Ok::<TreeView, DecodeErrorView>(
                elems[i],
            ),
    ensures
        decode_spec(encode_spec(TreeView::Array { elems })) == Ok::<TreeView, DecodeErrorView>(
            TreeView::Array { elems },
        ),
{
    let t = TreeView::Array { elems };
    let fields = encode_spec(t)->Record_0;
    lemma_kind_of_own_tag(NodeKind::Array);
    let fs = seq![Field::Type, Field::Elems];
    lemma_lookup_written(fs, fields);
    assert(fs[0] == Field::Type);
    assert(fs[1] == Field::Elems);
    lemma_all_read_back(elems);
}

proof fn lemma_read_back_neg(expr: Box<TreeView>)
    requires
        decode_spec(encode_spec(*expr)) == Ok::<TreeView, DecodeErrorView>(*expr),
    ensures
        decode_spec(encode_spec(TreeView::Neg { expr })) == Ok::<TreeView, DecodeErrorView>(
            TreeView::Neg { expr },
        ),
{
    let t = TreeView::Neg { expr };
    let fields = encode_spec(t)->Record_0;
    lemma_kind_of_own_tag(NodeKind::Neg);
    let fs = seq![Field::Type, Field::Expr];
    lemma_lookup_written(fs, fields);
    assert(fs[0] == Field::Type);
    assert(fs[1] == Field::Expr);
}

proof fn lemma_read_back_not(bool_expr: Box<TreeView>)
    requires
        decode_spec(encode_spec(*bool_expr)) == Ok::<TreeView, DecodeErrorView>(*bool_expr),
    ensures
        decode_spec(encode_spec(TreeView::Not { bool_expr })) == Ok::<TreeView, DecodeErrorView>(
            TreeView::Not { bool_expr },
        ),
{
    let t = TreeView::Not { bool_expr };
    let fields = encode_spec(t)->Record_0;
    lemma_kind_of_own_tag(NodeKind::Not);
    let fs = seq![Field::Type, Field::BoolExpr];
    lemma_lookup_written(fs, fields);
    assert(fs[0] == Field::Type);
    assert(fs[1] == Field::BoolExpr);
}

proof fn lemma_read_back_and(bool_expr1: Box<TreeView>, bool_expr2: Box<TreeView>)
    requires
        decode_spec(encode_spec(*bool_expr1)) == Ok::<TreeView, DecodeErrorView>(*bool_expr1),
        decode_spec(encode_spec(*bool_expr2)) == Ok::<TreeView, DecodeErrorView>(*bool_expr2),
    ensures
        decode_spec(encode_spec(TreeView::And { bool_expr1, bool_expr2 })) == Ok::<TreeView, DecodeErrorView>(
            TreeView::And { bool_expr1, bool_expr2 },
        ),
{
    let t = TreeView::And { bool_expr1, bool_expr2 };
    let fields = encode_spec(t)->Record_0;
    lemma_kind_of_own_tag(NodeKind::And);
    let fs = seq![Field::Type, Field::BoolExpr1, Field::BoolExpr2];
    lemma_lookup_written(fs, fields);
    assert(fs[0] == Field::Type);
    assert(fs[1] == Field::BoolExpr1);
    assert(fs[2] == Field::BoolExpr2);
}

proof fn lemma_read_back_or(bool_expr1: Box<TreeView>, bool_expr2: Box<TreeView>)
    requires
        decode_spec(encode_spec(*bool_expr1)) == Ok::<TreeView, DecodeErrorView>(*bool_expr1),
        decode_spec(encode_spec(*bool_expr2)) == Ok::<TreeView, DecodeErrorView>(*bool_expr2),
    ensures
        decode_spec(encode_spec(TreeView::Or { bool_expr1, bool_expr2 })) == Ok::<TreeView, DecodeErrorView>(
            TreeView::Or { bool_expr1, bool_expr2 },
        ),
{
    let t = TreeView::Or { bool_expr1, bool_expr2 };
    let fields = encode_spec(t)->Record_0;
    lemma_kind_of_own_tag(NodeKind::Or);
    let fs = seq![Field::Type, Field::BoolExpr1, Field::BoolExpr2];
    lemma_lookup_written(fs, fields);
    assert(fs[0] == Field::Type);
    assert(fs[1] == Field::BoolExpr1);
    assert(fs[2] == Field::BoolExpr2);
}

proof fn lemma_read_back_add(number_expr1: Box<TreeView>, number_expr2: Box<TreeView>)
    requires
        decode_spec(encode_spec(*number_expr1)) == Ok::<TreeView, DecodeErrorView>(*number_expr1),
        decode_spec(encode_spec(*number_expr2)) == Ok::<TreeView, DecodeErrorView>(*number_expr2),
    ensures
        decode_spec(encode_spec(TreeView::Add { number_expr1, number_expr2 })) == Ok::<TreeView, DecodeErrorView>(
            TreeView::Add { number_expr1, number_expr2 },
        ),
{
    let t = TreeView::Add { number_expr1, number_expr2 };
    let fields = encode_spec(t)->Record_0;
    lemma_kind_of_own_tag(NodeKind::Add);
    let fs = seq![Field::Type, Field::NumberExpr1, Field::NumberExpr2];
    lemma_lookup_written(fs, fields);
    assert(fs[0] == Field::Type);
    assert(fs[1] == Field::NumberExpr1);
    assert(fs[2] == Field::NumberExpr2);
}

proof fn lemma_read_back_sub(number_expr1: Box<TreeView>, number_expr2: Box<TreeView>)
    requires
        decode_spec(encode_spec(*number_expr1)) == Ok::<TreeView, DecodeErrorView>(*number_expr1),
        decode_spec(encode_spec(*number_expr2)) == Ok::<TreeView, DecodeErrorView>(*number_expr2),
    ensures
        decode_spec(encode_spec(TreeView::Sub { number_expr1, number_expr2 })) == Ok::<TreeView, DecodeErrorView>(
            TreeView::Sub { number_expr1, number_expr2 },
        ),
{
    let t = TreeView::Sub { number_expr1, number_expr2 };
    let fields = encode_spec(t)->Record_0;
    lemma_kind_of_own_tag(NodeKind::Sub);
    let fs = seq![Field::Type, Field::NumberExpr1, Field::NumberExpr2];
    lemma_lookup_written(fs, fields);
    assert(fs[0] == Field::Type);
    assert(fs[1] == Field::NumberExpr1);
    assert(fs[2] == Field::NumberExpr2);
}

proof fn lemma_read_back_mul(number_expr1: Box<TreeView>, number_expr2: Box<TreeView>)
    requires
        decode_spec(encode_spec(*number_expr1)) == Ok::<TreeView, DecodeErrorView>(*number_expr1),
        decode_spec(encode_spec(*number_expr2)) == Ok::<TreeView, DecodeErrorView>(*number_expr2),
    ensures
        decode_spec(encode_spec(TreeView::Mul { number_expr1, number_expr2 })) == Ok::<TreeView, DecodeErrorView>(
            TreeView::Mul { number_expr1, number_expr2 },
        ),
{
    let t = TreeView::Mul { number_expr1, number_expr2 };
    let fields = encode_spec(t)->Record_0;
    lemma_kind_of_own_tag(NodeKind::Mul);
    let fs = seq![Field::Type, Field::NumberExpr1, Field::NumberExpr2];
    lemma_lookup_written(fs, fields);
    assert(fs[0] == Field::Type);
    assert(fs[1] == Field::NumberExpr1);
    assert(fs[2] == Field::NumberExpr2);
}

proof fn lemma_read_back_div(number_expr1: Box<TreeView>, number_expr2: Box<TreeView>)
    requires
        decode_spec(encode_spec(*number_expr1)) == Ok::<TreeView, DecodeErrorView>(*number_expr1),
        decode_spec(encode_spec(*number_expr2)) == Ok::<TreeView, DecodeErrorView>(*number_expr2),
    ensures
        decode_spec(encode_spec(TreeView::Div { number_expr1, number_expr2 })) == Ok::<TreeView, DecodeErrorView>(
            TreeView::Div { number_expr1, number_expr2 },
        ),
{
    let t = TreeView::Div { number_expr1, number_expr2 };
    let fields = encode_spec(t)->Record_0;
    lemma_kind_of_own_tag(NodeKind::Div);
    let fs = seq![Field::Type, Field::NumberExpr1, Field::NumberExpr2];
    lemma_lookup_written(fs, fields);
    assert(fs[0] == Field::Type);
    assert(fs[1] == Field::NumberExpr1);
    assert(fs[2] == Field::NumberExpr2);
}

proof fn lemma_read_back_eq(expr1: Box<TreeView>, expr2: Box<TreeView>)
    requires
        decode_spec(encode_spec(*expr1)) == Ok::<TreeView, DecodeErrorView>(*expr1),
        decode_spec(encode_spec(*expr2)) == Ok::<TreeView, DecodeErrorView>(*expr2),
    ensures
        decode_spec(encode_spec(TreeView::Eq { expr1, expr2 })) == Ok::<TreeView, DecodeErrorView>(
            TreeView::Eq { expr1, expr2 },
        ),
{
    let t = TreeView::Eq { expr1, expr2 };
    let fields = encode_spec(t)->Record_0;
    lemma_kind_of_own_tag(NodeKind::Eq);
    let fs = seq![Field::Type, Field::Expr1, Field::Expr2];
    lemma_lookup_written(fs, fields);
    assert(fs[0] == Field::Type);
    assert(fs[1] == Field::Expr1);
    assert(fs[2] == Field::Expr2);
}

proof fn lemma_read_back_le(expr1: Box<TreeView>, expr2: Box<TreeView>)
    requires
        decode_spec(encode_spec(*expr1)) == Ok::<TreeView, DecodeErrorView>(*expr1),
        decode_spec(encode_spec(*expr2)) == Ok::<TreeView, DecodeErrorView>(*expr2),
    ensures
        decode_spec(encode_spec(TreeView::LE { expr1, expr2 })) == Ok::<TreeView, DecodeErrorView>(
            TreeView::LE { expr1, expr2 },
        ),
{
    let t = TreeView::LE { expr1, expr2 };
    let fields = encode_spec(t)->Record_0;
    lemma_kind_of_own_tag(NodeKind::LE);
    let fs = seq![Field::Type, Field::Expr1, Field::Expr2];
    lemma_lookup_written(fs, fields);
    assert(fs[0] == Field::Type);
    assert(fs[1] == Field::Expr1);
    assert(fs[2] == Field::Expr2);
}

proof fn lemma_read_back_in(expr1: Box<TreeView>, expr2: Box<TreeView>)
    requires
        decode_spec(encode_spec(*expr1)) == Ok::<TreeView, DecodeErrorView>(*expr1),
        decode_spec(encode_spec(*expr2)) == Ok::<TreeView, DecodeErrorView>(*expr2),
    ensures
        decode_spec(encode_spec(TreeView::In { expr1, expr2 })) == Ok::<TreeView, DecodeErrorView>(
            TreeView::In { expr1, expr2 },
        ),
{
    let t = TreeView::In { expr1, expr2 };
    let fields = encode_spec(t)->Record_0;
    lemma_kind_of_own_tag(NodeKind::In);
    let fs = seq![Field::Type, Field::Expr1, Field::Expr2];
    lemma_lookup_written(fs, fields);
    assert(fs[0] == Field::Type);
    assert(fs[1] == Field::Expr1);
    assert(fs[2] == Field::Expr2);
}

proof fn lemma_read_back_if(condition: Box<TreeView>, then: Box<TreeView>, els: Box<TreeView>)
    requires
        decode_spec(encode_spec(*condition)) == Ok::<TreeView, DecodeErrorView>(*condition),
        decode_spec(encode_spec(*then)) == Ok::<TreeView, DecodeErrorView>(*then),
        decode_spec(encode_spec(*els)) == Ok::<TreeView, DecodeErrorView>(*els),
    ensures
        decode_spec(encode_spec(TreeView::If { condition, then, els })) == Ok::<TreeView, DecodeErrorView>(
            TreeView::If { condition, then, els },
        ),
{
    let t = TreeView::If { condition, then, els };
    let fields = encode_spec(t)->Record_0;
    lemma_kind_of_own_tag(NodeKind::If);
    let fs = seq![Field::Type, Field::Condition, Field::Then, Field::Els];
    lemma_lookup_written(fs, fields);
    assert(fs[0] == Field::Type);
    assert(fs[1] == Field::Condition);
    assert(fs[2] == Field::Then);
    assert(fs[3] == Field::Els);
}

proof fn lemma_read_back_while(init_expr: Box<TreeView>, condition: Box<TreeView>, loop_expr: Box<TreeView>, post_expr: Box<TreeView>)
    requires
        decode_spec(encode_spec(*init_expr)) == Ok::<TreeView, DecodeErrorView>(*init_expr),
        decode_spec(encode_spec(*condition)) == Ok::<TreeView, DecodeErrorView>(*condition),
        decode_spec(encode_spec(*loop_expr)) == Ok::<TreeView, DecodeErrorView>(*loop_expr),
        decode_spec(encode_spec(*post_expr)) == Ok::<TreeView, DecodeErrorView>(*post_expr),
    ensures
        decode_spec(encode_spec(TreeView::While { init_expr, condition, loop_expr, post_expr })) == Ok::<TreeView, DecodeErrorView>(
            TreeView::While { init_expr, condition, loop_expr, post_expr },
        ),
{
    let t = TreeView::While { init_expr, condition, loop_expr, post_expr };
    let fields = encode_spec(t)->Record_0;
    lemma_kind_of_own_tag(NodeKind::While);
    let fs = seq![Field::Type, Field::InitExpr, Field::Condition, Field::LoopExpr, Field::PostExpr];
    lemma_lookup_written(fs, fields);
    assert(fs[0] == Field::Type);
    assert(fs[1] == Field::InitExpr);
    assert(fs[2] == Field::Condition);
    assert(fs[3] == Field::LoopExpr);
    assert(fs[4] == Field::PostExpr);
}

proof fn lemma_read_back_let(var: Seq<char>, is_pointer: Seq<char>, value: Box<TreeView>, expr: Box<TreeView>)
    requires
        decode_spec(encode_spec(*value)) == Ok::<TreeView, DecodeErrorView>(*value),
        decode_spec(encode_spec(*expr)) == Ok::<TreeView, DecodeErrorView>(*expr),
    ensures
        decode_spec(encode_spec(TreeView::Let { var, is_pointer, value, expr })) == Ok::<TreeView, DecodeErrorView>(
            TreeView::Let { var, is_pointer, value, expr },
        ),
{
    let t = TreeView::Let { var, is_pointer, value, expr };
    let fields = encode_spec(t)->Record_0;
    lemma_kind_of_own_tag(NodeKind::Let);
    let fs = seq![Field::Type, Field::Var, Field::IsPointer, Field::Value, Field::Expr];
    lemma_lookup_written(fs, fields);
    assert(fs[0] == Field::Type);
    assert(fs[1] == Field::Var);
    assert(fs[2] == Field::IsPointer);
    assert(fs[3] == Field::Value);
    assert(fs[4] == Field::Expr);
}

proof fn lemma_read_back_let_rec(name: Seq<char>, args: Seq<TreeView>, body: Box<TreeView>)
    requires
        forall|i: int|
            0 <= i < args.len() ==> decode_spec(encode_spec(#[trigger] args[i])) == Ok::<TreeView, DecodeErrorView>(
                args[i],
            ),
        decode_spec(encode_spec(*body)) == Ok::<TreeView, DecodeErrorView>(*body),
    ensures
        decode_spec(encode_spec(TreeView::LetRec { name, args, body })) == Ok::<TreeView, DecodeErrorView>(
            TreeView::LetRec { name, args, body },
        ),
{
    let t = TreeView::LetRec { name, args, body };
    let fields = encode_spec(t)->Record_0;
    lemma_kind_of_own_tag(NodeKind::LetRec);
    let fs = seq![Field::Type, Field::Name, Field::Args, Field::Body];
    lemma_lookup_written(fs, fields);
    assert(fs[0] == Field::Type);
    assert(fs[1] == Field::Name);
    assert(fs[2] == Field::Args);
    assert(fs[3] == Field::Body);
    lemma_all_read_back(args);
}

proof fn lemma_read_back_get(array_name: Seq<char>, elem: Box<TreeView>)
    requires
        decode_spec(encode_spec(*elem)) == Ok::<TreeView, DecodeErrorView>(*elem),
    ensures
        decode_spec(encode_spec(TreeView::Get { array_name, elem })) == Ok::<TreeView, DecodeErrorView>(
            TreeView::Get { array_name, elem },
        ),
{
    let t = TreeView::Get { array_name, elem };
    let fields = encode_spec(t)->Record_0;
    lemma_kind_of_own_tag(NodeKind::Get);
    let fs = seq![Field::Type, Field::ArrayName, Field::Elem];
    lemma_lookup_written(fs, fields);
    assert(fs[0] == Field::Type);
    assert(fs[1] == Field::ArrayName);
    assert(fs[2] == Field::Elem);
}

proof fn lemma_read_back_put(array_name: Seq<char>, elem: Box<TreeView>, value: Box<TreeView>, insert: Seq<char>)
    requires
        decode_spec(encode_spec(*elem)) == Ok::<TreeView, DecodeErrorView>(*elem),
        decode_spec(encode_spec(*value)) == Ok::<TreeView, DecodeErrorView>(*value),
    ensures
        decode_spec(encode_spec(TreeView::Put { array_name, elem, value, insert })) == Ok::<TreeView, DecodeErrorView>(
            TreeView::Put { array_name, elem, value, insert },
        ),
{
    let t = TreeView::Put { array_name, elem, value, insert };
    let fields = encode_spec(t)->Record_0;
    lemma_kind_of_own_tag(NodeKind::Put);
    let fs = seq![Field::Type, Field::ArrayName, Field::Elem, Field::Value, Field::Insert];
    lemma_lookup_written(fs, fields);
    assert(fs[0] == Field::Type);
    assert(fs[1] == Field::ArrayName);
    assert(fs[2] == Field::Elem);
    assert(fs[3] == Field::Value);
    assert(fs[4] == Field::Insert);
}

proof fn lemma_read_back_remove(array_name: Seq<char>, elem: Box<TreeView>, is_value: Seq<char>)
    requires
        decode_spec(encode_spec(*elem)) == Ok::<TreeView, DecodeErrorView>(*elem),
    ensures
        decode_spec(encode_spec(TreeView::Remove { array_name, elem, is_value })) == Ok::<TreeView, DecodeErrorView>(
            TreeView::Remove { array_name, elem, is_value },
        ),
{
    let t = TreeView::Remove { array_name, elem, is_value };
    let fields = encode_spec(t)->Record_0;
    lemma_kind_of_own_tag(NodeKind::Remove);
    let fs = seq![Field::Type, Field::ArrayName, Field::Elem, Field::IsValue];
    lemma_lookup_written(fs, fields);
    assert(fs[0] == Field::Type);
    assert(fs[1] == Field::ArrayName);
    assert(fs[2] == Field::Elem);
    assert(fs[3] == Field::IsValue);
}

proof fn lemma_read_back_length(var: Seq<char>)
    ensures
        decode_spec(encode_spec(TreeView::Length { var })) == Ok::<TreeView, DecodeErrorView>(
            TreeView::Length { var },
        ),
{
    let t = TreeView::Length { var };
    let fields = encode_spec(t)->Record_0;
    lemma_kind_of_own_tag(NodeKind::Length);
    let fs = seq![Field::Type, Field::Var];
    lemma_lookup_written(fs, fields);
    assert(fs[0] == Field::Type);
    assert(fs[1] == Field::Var);
}

proof fn lemma_read_back_match(expr: Box<TreeView>, case_list: Seq<TreeView>)
    requires
        decode_spec(encode_spec(*expr)) == Ok::<TreeView, DecodeErrorView>(*expr),
        forall|i: int|
            0 <= i < case_list.len() ==> decode_spec(encode_spec(#[trigger] case_list[i])) == Ok::<TreeView, DecodeErrorView>(
                case_list[i],
            ),
    ensures
        decode_spec(encode_spec(TreeView::Match { expr, case_list })) == Ok::<TreeView, DecodeErrorView>(
            TreeView::Match { expr, case_list },
        ),
{
    let t = TreeView::Match { expr, case_list };
    let fields = encode_spec(t)->Record_0;
    lemma_kind_of_own_tag(NodeKind::Match);
    let fs = seq![Field::Type, Field::Expr, Field::CaseList];
    lemma_lookup_written(fs, fields);
    assert(fs[0] == Field::Type);
    assert(fs[1] == Field::Expr);
    assert(fs[2] == Field::CaseList);
    lemma_all_read_back(case_list);
}

proof fn lemma_read_back_match_line(condition: Box<TreeView>, case_expr: Box<TreeView>)
    requires
        decode_spec(encode_spec(*condition)) == Ok::<TreeView, DecodeErrorView>(*condition),
        decode_spec(encode_spec(*case_expr)) == Ok::<TreeView, DecodeErrorView>(*case_expr),
    ensures
        decode_spec(encode_spec(TreeView::MatchLine { condition, case_expr })) == Ok::<TreeView, DecodeErrorView>(
            TreeView::MatchLine { condition, case_expr },
        ),
{
    let t = TreeView::MatchLine { condition, case_expr };
    let fields = encode_spec(t)->Record_0;
    lemma_kind_of_own_tag(NodeKind::MatchLine);
    let fs = seq![Field::Type, Field::Condition, Field::CaseExpr];
    lemma_lookup_written(fs, fields);
    assert(fs[0] == Field::Type);
    assert(fs[1] == Field::Condition);
    assert(fs[2] == Field::CaseExpr);
}

proof fn lemma_read_back_var(var: Seq<char>, is_pointer: Seq<char>)
    ensures
        decode_spec(encode_spec(TreeView::Var { var, is_pointer })) == Ok::<TreeView, DecodeErrorView>(
            TreeView::Var { var, is_pointer },
        ),
{
    let t = TreeView::Var { var, is_pointer };
    let fields = encode_spec(t)->Record_0;
    lemma_kind_of_own_tag(NodeKind::Var);
    let fs = seq![Field::Type, Field::Var, Field::IsPointer];
    lemma_lookup_written(fs, fields);
    assert(fs[0] == Field::Type);
    assert(fs[1] == Field::Var);
    assert(fs[2] == Field::IsPointer);
}

proof fn lemma_read_back_app(object_name: Seq<char>, fun: Box<TreeView>, param_list: Seq<TreeView>)
    requires
        decode_spec(encode_spec(*fun)) == Ok::<TreeView, DecodeErrorView>(*fun),
        forall|i: int|
            0 <= i < param_list.len() ==> decode_spec(encode_spec(#[trigger] param_list[i])) == Ok::<TreeView, DecodeErrorView>(
                param_list[i],
            ),
    ensures
        decode_spec(encode_spec(TreeView::App { object_name, fun, param_list })) == Ok::<TreeView, DecodeErrorView>(
            TreeView::App { object_name, fun, param_list },
        ),
{
    let t = TreeView::App { object_name, fun, param_list };
    let fields = encode_spec(t)->Record_0;
    lemma_kind_of_own_tag(NodeKind::App);
    let fs = seq![Field::Type, Field::ObjectName, Field::Fun, Field::ParamList];
    lemma_lookup_written(fs, fields);
    assert(fs[0] == Field::Type);
    assert(fs[1] == Field::ObjectName);
    assert(fs[2] == Field::Fun);
    assert(fs[3] == Field::ParamList);
    lemma_all_read_back(param_list);
}

proof fn lemma_read_back_stmts(expr1: Box<TreeView>, expr2: Box<TreeView>)
    requires
        decode_spec(encode_spec(*expr1)) == Ok::<TreeView, DecodeErrorView>(*expr1),
        decode_spec(encode_spec(*expr2)) == Ok::<TreeView, DecodeErrorView>(*expr2),
    ensures
        decode_spec(encode_spec(TreeView::Stmts { expr1, expr2 })) == Ok::<TreeView, DecodeErrorView>(
            TreeView::Stmts { expr1, expr2 },
        ),
{
    let t = TreeView::Stmts { expr1, expr2 };
    let fields = encode_spec(t)->Record_0;
    lemma_kind_of_own_tag(NodeKind::Stmts);
    let fs = seq![Field::Type, Field::Expr1, Field::Expr2];
    lemma_lookup_written(fs, fields);
    assert(fs[0] == Field::Type);
    assert(fs[1] == Field::Expr1);
    assert(fs[2] == Field::Expr2);
}

proof fn lemma_read_back_iprt(name: Seq<char>)
    ensures
        decode_spec(encode_spec(TreeView::Iprt { name })) == Ok::<TreeView, DecodeErrorView>(
            TreeView::Iprt { name },
        ),
{
    let t = TreeView::Iprt { name };
    let fields = encode_spec(t)->Record_0;
    lemma_kind_of_own_tag(NodeKind::Iprt);
    let fs = seq![Field::Type, Field::Name];
    lemma_lookup_written(fs, fields);
    assert(fs[0] == Field::Type);
    assert(fs[1] == Field::Name);
}

proof fn lemma_read_back_clss(name: Seq<char>, attribute_list: Seq<Seq<char>>, body: Box<TreeView>)
    requires
        decode_spec(encode_spec(*body)) == Ok::<TreeView, DecodeErrorView>(*body),
    ensures
        decode_spec(encode_spec(TreeView::Clss { name, attribute_list, body })) == Ok::<TreeView, DecodeErrorView>(
            TreeView::Clss { name, attribute_list, body },
        ),
{
    let t = TreeView::Clss { name, attribute_list, body };
    let fields = encode_spec(t)->Record_0;
    lemma_kind_of_own_tag(NodeKind::Clss);
    let fs = seq![Field::Type, Field::Name, Field::AttributeList, Field::Body];
    lemma_lookup_written(fs, fields);
    assert(fs[0] == Field::Type);
    assert(fs[1] == Field::Name);
    assert(fs[2] == Field::AttributeList);
    assert(fs[3] == Field::Body);
    lemma_texts_read_back(attribute_list, Field::AttributeList);
}

proof fn lemma_read_back_return(value: Box<TreeView>)
    requires
        decode_spec(encode_spec(*value)) == Ok::<TreeView, DecodeErrorView>(*value),
    ensures
        decode_spec(encode_spec(TreeView::Return { value })) == Ok::<TreeView, DecodeErrorView>(
            TreeView::Return { value },
        ),
{
    let t = TreeView::Return { value };
    let fields = encode_spec(t)->Record_0;
    lemma_kind_of_own_tag(NodeKind::Return);
    let fs = seq![Field::Type, Field::Value];
    lemma_lookup_written(fs, fields);
    assert(fs[0] == Field::Type);
    assert(fs[1] == Field::Value);
}

proof fn lemma_read_back_comment(value: Seq<char>)
    ensures
        decode_spec(encode_spec(TreeView::Comment { value })) == Ok::<TreeView, DecodeErrorView>(
            TreeView::Comment { value },
        ),
{
    let t = TreeView::Comment { value };
    let fields = encode_spec(t)->Record_0;
    lemma_kind_of_own_tag(NodeKind::Comment);
    let fs = seq![Field::Type, Field::Value];
    lemma_lookup_written(fs, fields);
    assert(fs[0] == Field::Type);
    assert(fs[1] == Field::Value);
}

proof fn lemma_read_back_comment_multi(value: Seq<char>)
    ensures
        decode_spec(encode_spec(TreeView::CommentMulti { value })) == Ok::<TreeView, DecodeErrorView>(
            TreeView::CommentMulti { value },
        ),
{
    let t = TreeView::CommentMulti { value };
    let fields = encode_spec(t)->Record_0;
    lemma_kind_of_own_tag(NodeKind::CommentMulti);
    let fs = seq![Field::Type, Field::Value];
    lemma_lookup_written(fs, fields);
    assert(fs[0] == Field::Type);
    assert(fs[1] == Field::Value);
}

proof fn lemma_read_back_assert(condition: Box<TreeView>, message: Box<TreeView>)
    requires
        decode_spec(encode_spec(*condition)) == Ok::<TreeView, DecodeErrorView>(*condition),
        decode_spec(encode_spec(*message)) == Ok::<TreeView, DecodeErrorView>(*message),
    ensures
        decode_spec(encode_spec(TreeView::Assert { condition, message })) == Ok::<TreeView, DecodeErrorView>(
            TreeView::Assert { condition, message },
        ),
{
    let t = TreeView::Assert { condition, message };
    let fields = encode_spec(t)->Record_0;
    lemma_kind_of_own_tag(NodeKind::Assert);
    let fs = seq![Field::Type, Field::Condition, Field::Message];
    lemma_lookup_written(fs, fields);
    assert(fs[0] == Field::Type);
    assert(fs[1] == Field::Condition);
    assert(fs[2] == Field::Message);
}

/// Writing a node and reading the document back gives the node again.
pub proof fn lemma_decode_encode(t: TreeView)
    ensures
        decode_spec(encode_spec(t)) == Ok::<TreeView, DecodeErrorView>(t),
    decreases t,
{
    match t {
        TreeView::Unit => {
            lemma_read_back_unit();
        },
        TreeView::Break => {
            lemma_read_back_break();
        },
        TreeView::Continue => {
            lemma_read_back_continue();
        },
        TreeView::Ellipsis => {
            lemma_read_back_ellipsis();
        },
        TreeView::Int { value } => {
            lemma_read_back_int(value);
        },
        TreeView::Float { value } => {
            lemma_read_back_float(value);
        },
        TreeView::Bool { value } => {
            lemma_read_back_bool(value);
        },
        TreeView::String { value } => {
            lemma_read_back_string(value);
        },
        TreeView::Ident { value } => {
            lemma_read_back_ident(value);
        },
        TreeView::Bytes { elems } => {
            lemma_read_back_bytes(elems);
        },
        TreeView::Complex { real: re, imag } => {
            lemma_read_back_complex(re, imag);
        },
        TreeView::Tuple { elems } => {
            assert forall|i: int| 0 <= i < elems.len() implies decode_spec(
                encode_spec(#[trigger] elems[i]),
            ) == Ok::<TreeView, DecodeErrorView>(elems[i]) by {
                lemma_decode_encode(elems[i]);
            }
            lemma_read_back_tuple(elems);
        },
        TreeView::Array { elems } => {
            assert forall|i: int| 0 <= i < elems.len() implies decode_spec(
                encode_spec(#[trigger] elems[i]),
            ) == Ok::<TreeView, DecodeErrorView>(elems[i]) by {
                lemma_decode_encode(elems[i]);
            }
            lemma_read_back_array(elems);
        },
        TreeView::Neg { expr } => {
            lemma_decode_encode(*expr);
            lemma_read_back_neg(expr);
        },
        TreeView::Not { bool_expr } => {
            lemma_decode_encode(*bool_expr);
            lemma_read_back_not(bool_expr);
        },
        TreeView::And { bool_expr1, bool_expr2 } => {
            lemma_decode_encode(*bool_expr1);
            lemma_decode_encode(*bool_expr2);
            lemma_read_back_and(bool_expr1, bool_expr2);
        },
        TreeView::Or { bool_expr1, bool_expr2 } => {
            lemma_decode_encode(*bool_expr1);
            lemma_decode_encode(*bool_expr2);
            lemma_read_back_or(bool_expr1, bool_expr2);
        },
        TreeView::Add { number_expr1, number_expr2 } => {
            lemma_decode_encode(*number_expr1);
            lemma_decode_encode(*number_expr2);
            lemma_read_back_add(number_expr1, number_expr2);
        },
        TreeView::Sub { number_expr1, number_expr2 } => {
            lemma_decode_encode(*number_expr1);
            lemma_decode_encode(*number_expr2);
            lemma_read_back_sub(number_expr1, number_expr2);
        },
        TreeView::Mul { number_expr1, number_expr2 } => {
            lemma_decode_encode(*number_expr1);
            lemma_decode_encode(*number_expr2);
            lemma_read_back_mul(number_expr1, number_expr2);
        },
        TreeView::Div { number_expr1, number_expr2 } => {
            lemma_decode_encode(*number_expr1);
            lemma_decode_encode(*number_expr2);
            lemma_read_back_div(number_expr1, number_expr2);
        },
        TreeView::Eq { expr1, expr2 } => {
            lemma_decode_encode(*expr1);
            lemma_decode_encode(*expr2);
            lemma_read_back_eq(expr1, expr2);
        },
        TreeView::LE { expr1, expr2 } => {
            lemma_decode_encode(*expr1);
            lemma_decode_encode(*expr2);
            lemma_read_back_le(expr1, expr2);
        },
        TreeView::In { expr1, expr2 } => {
            lemma_decode_encode(*expr1);
            lemma_decode_encode(*expr2);
            lemma_read_back_in(expr1, expr2);
        },
        TreeView::If { condition, then, els } => {
            lemma_decode_encode(*condition);
            lemma_decode_encode(*then);
            lemma_decode_encode(*els);
            lemma_read_back_if(condition, then, els);
        },
        TreeView::While { init_expr, condition, loop_expr, post_expr } => {
            lemma_decode_encode(*init_expr);
            lemma_decode_encode(*condition);
            lemma_decode_encode(*loop_expr);
            lemma_decode_encode(*post_expr);
            lemma_read_back_while(init_expr, condition, loop_expr, post_expr);
        },
        TreeView::Let { var, is_pointer, value, expr } => {
            lemma_decode_encode(*value);
            lemma_decode_encode(*expr);
            lemma_read_back_let(var, is_pointer, value, expr);
        },
        TreeView::LetRec { name, args, body } => {
            assert forall|i: int| 0 <= i < args.len() implies decode_spec(
                encode_spec(#[trigger] args[i]),
            ) == Ok::<TreeView, DecodeErrorView>(args[i]) by {
                lemma_decode_encode(args[i]);
            }
            lemma_decode_encode(*body);
            lemma_read_back_let_rec(name, args, body);
        },
        TreeView::Get { array_name, elem } => {
            lemma_decode_encode(*elem);
            lemma_read_back_get(array_name, elem);
        },
        TreeView::Put { array_name, elem, value, insert } => {
            lemma_decode_encode(*elem);
            lemma_decode_encode(*value);
            lemma_read_back_put(array_name, elem, value, insert);
        },
        TreeView::Remove { array_name, elem, is_value } => {
            lemma_decode_encode(*elem);
            lemma_read_back_remove(array_name, elem, is_value);
        },
        TreeView::Length { var } => {
            lemma_read_back_length(var);
        },
        TreeView::Match { expr, case_list } => {
            lemma_decode_encode(*expr);
            assert forall|i: int| 0 <= i < case_list.len() implies decode_spec(
                encode_spec(#[trigger] case_list[i]),
            ) == Ok::<TreeView, DecodeErrorView>(case_list[i]) by {
                lemma_decode_encode(case_list[i]);
            }
            lemma_read_back_match(expr, case_list);
        },
        TreeView::MatchLine { condition, case_expr } => {
            lemma_decode_encode(*condition);
            lemma_decode_encode(*case_expr);
            lemma_read_back_match_line(condition, case_expr);
        },
        TreeView::Var { var, is_pointer } => {
            lemma_read_back_var(var, is_pointer);
        },
        TreeView::App { object_name, fun, param_list } => {
            lemma_decode_encode(*fun);
            assert forall|i: int| 0 <= i < param_list.len() implies decode_spec(
                encode_spec(#[trigger] param_list[i]),
            ) == Ok::<TreeView, DecodeErrorView>(param_list[i]) by {
                lemma_decode_encode(param_list[i]);
            }
            lemma_read_back_app(object_name, fun, param_list);
        },
        TreeView::Stmts { expr1, expr2 } => {
            lemma_decode_encode(*expr1);
            lemma_decode_encode(*expr2);
            lemma_read_back_stmts(expr1, expr2);
        },
        TreeView::Iprt { name } => {
            lemma_read_back_iprt(name);
        },
        TreeView::Clss { name, attribute_list, body } => {
            lemma_decode_encode(*body);
            lemma_read_back_clss(name, attribute_list, body);
        },
        TreeView::Return { value } => {
            lemma_decode_encode(*value);
            lemma_read_back_return(value);
        },
        TreeView::Comment { value } => {
            lemma_read_back_comment(value);
        },
        TreeView::CommentMulti { value } => {
            lemma_read_back_comment_multi(value);
        },
        TreeView::Assert { condition, message } => {
            lemma_decode_encode(*condition);
            lemma_decode_encode(*message);
            lemma_read_back_assert(condition, message);
        },
    }
}

} // verus!
