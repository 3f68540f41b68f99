//! What holds of reading the structural format under older names: a
//! document in the older spelling is read as the same document in the
//! current one.

use crate::codec::{
    bytes_field, bytes_in, decode_all, decode_fields, decode_spec, is_byte, lemma_lookup_within,
    lookup, node_field, nodes_field, text_field, text_in, texts_field, texts_in, Lookup,
};
use crate::json::JsonView;
use crate::names::{kind_of_tag, lemma_key_names_once, lemma_kind_of_own_tag, Field, NodeKind};
use vstd::prelude::*;

verus! {

/// Whether two keys name the same fields.
pub open spec fn same_field(k1: Seq<char>, k2: Seq<char>) -> bool {
    forall|f: Field| #[trigger] f.names(k1) == f.names(k2)
}

/// Whether two tags are the same, or name the same kind.
pub open spec fn same_tag(t1: Seq<char>, t2: Seq<char>) -> bool {
    t1 == t2 || (kind_of_tag(t1) is Some && kind_of_tag(t1) == kind_of_tag(t2))
}

/// Whether two documents differ in the spelling of names only: each key of
/// a record names the same fields in both, each tag the same kind, and
/// everything else is the same.
pub open spec fn alike(a: JsonView, b: JsonView) -> bool
    decreases a,
{
    match a {
        JsonView::List(xs) => b matches JsonView::List(ys) && xs.len() == ys.len() && forall|
            i: int,
        |
            0 <= i < xs.len() ==> alike(#[trigger] xs[i], ys[i]),
        JsonView::Record(fa) => b matches JsonView::Record(fb) && fa.len() == fb.len()
            && forall|i: int|
            0 <= i < fa.len() ==> {
                &&& same_field((#[trigger] fa[i]).0, fb[i].0)
                &&& alike(fa[i].1, fb[i].1) || {
                    &&& Field::Type.names(fa[i].0)
                    &&& fa[i].1 matches JsonView::Text(t1)
                    &&& fb[i].1 matches JsonView::Text(t2)
                    &&& same_tag(t1, t2)
                }
            },
        _ => a == b,
    }
}

proof fn lemma_lookup_alike(
    fa: Seq<(Seq<char>, JsonView)>,
    fb: Seq<(Seq<char>, JsonView)>,
    f: Field,
)
    requires
        fa.len() == fb.len(),
        forall|i: int| 0 <= i < fa.len() ==> same_field((#[trigger] fa[i]).0, fb[i].0),
    ensures
        lookup(fa, f) == lookup(fb, f),
    decreases fa.len(),
{
    if fa.len() > 0 {
        let xa = fa.drop_last();
        let xb = fb.drop_last();
        assert forall|i: int| 0 <= i < xa.len() implies same_field((#[trigger] xa[i]).0, xb[i].0) by {
            assert(xa[i] == fa[i]);
            assert(xb[i] == fb[i]);
        }
        lemma_lookup_alike(xa, xb, f);
        assert(same_field(fa[fa.len() - 1].0, fb[fa.len() - 1].0));
        assert(f.names(fa.last().0) == f.names(fb.last().0));
    }
}

proof fn lemma_alike_values(a: JsonView, b: JsonView, f: Field)
    requires
        alike(a, b),
    ensures
        text_in(a, f) == text_in(b, f),
        bytes_in(a, f) == bytes_in(b, f),
        texts_in(a, f) == texts_in(b, f),
{
    match a {
        JsonView::List(xs) => {
            let ys = b->List_0;
            assert forall|i: int| 0 <= i < xs.len() implies (is_byte(xs[i]) == is_byte(ys[i]) && (
            xs[i] is Text) == (ys[i] is Text) && (is_byte(xs[i]) ==> xs[i] == ys[i]) && (xs[i] is Text
                ==> xs[i] == ys[i])) by {
                assert(alike(xs[i], ys[i]));
            }
            if forall|i: int| 0 <= i < xs.len() ==> is_byte(#[trigger] xs[i]) {
                assert forall|i: int| 0 <= i < ys.len() implies is_byte(#[trigger] ys[i]) by {
                    assert(is_byte(xs[i]));
                }
                assert(Seq::new(xs.len(), |i: int| xs[i]->UInt_0 as u8) =~= Seq::new(
                    ys.len(),
                    |i: int| ys[i]->UInt_0 as u8,
                )) by {
                    assert forall|i: int| 0 <= i < xs.len() implies xs[i] == ys[i] by {
                        assert(is_byte(xs[i]));
                    }
                }
            } else {
                let k = choose|k: int| 0 <= k < xs.len() && !is_byte(xs[k]);
                assert(!is_byte(ys[k]));
            }
            if forall|i: int| 0 <= i < xs.len() ==> (#[trigger] xs[i]) is Text {
                assert forall|i: int| 0 <= i < ys.len() implies (#[trigger] ys[i]) is Text by {
                    assert(xs[i] is Text);
                }
                assert(Seq::new(xs.len(), |i: int| xs[i]->Text_0) =~= Seq::new(
                    ys.len(),
                    |i: int| ys[i]->Text_0,
                )) by {
                    assert forall|i: int| 0 <= i < xs.len() implies xs[i] == ys[i] by {
                        assert(xs[i] is Text);
                    }
                }
            } else {
                let k = choose|k: int| 0 <= k < xs.len() && !(xs[k] is Text);
                assert(!(ys[k] is Text));
            }
        },
        _ => {},
    }
}

proof fn lemma_decode_fields_alike(
    kind: NodeKind,
    fa: Seq<(Seq<char>, JsonView)>,
    fb: Seq<(Seq<char>, JsonView)>,
)
    requires
        forall|f: Field| f != Field::Type ==> #[trigger] text_field(fa, f) == text_field(fb, f),
        forall|f: Field| f != Field::Type ==> #[trigger] bytes_field(fa, f) == bytes_field(fb, f),
        forall|f: Field| f != Field::Type ==> #[trigger] texts_field(fa, f) == texts_field(fb, f),
        forall|f: Field| f != Field::Type ==> #[trigger] node_field(fa, f) == node_field(fb, f),
        forall|f: Field| f != Field::Type ==> #[trigger] nodes_field(fa, f) == nodes_field(fb, f),
    ensures
        decode_fields(kind, fa) == decode_fields(kind, fb),
{
    match kind {
        NodeKind::Tuple => {
            assert(nodes_field(fa, Field::Elems) == nodes_field(fb, Field::Elems));
        },
        NodeKind::Array => {
            assert(nodes_field(fa, Field::Elems) == nodes_field(fb, Field::Elems));
        },
        NodeKind::Neg => {
            assert(node_field(fa, Field::Expr) == node_field(fb, Field::Expr));
        },
        NodeKind::Not => {
            assert(node_field(fa, Field::BoolExpr) == node_field(fb, Field::BoolExpr));
        },
        NodeKind::And => {
            assert(node_field(fa, Field::BoolExpr1) == node_field(fb, Field::BoolExpr1));
            assert(node_field(fa, Field::BoolExpr2) == node_field(fb, Field::BoolExpr2));
        },
        NodeKind::Or => {
            assert(node_field(fa, Field::BoolExpr1) == node_field(fb, Field::BoolExpr1));
            assert(node_field(fa, Field::BoolExpr2) == node_field(fb, Field::BoolExpr2));
        },
        NodeKind::Add => {
            assert(node_field(fa, Field::NumberExpr1) == node_field(fb, Field::NumberExpr1));
            assert(node_field(fa, Field::NumberExpr2) == node_field(fb, Field::NumberExpr2));
        },
        NodeKind::Sub => {
            assert(node_field(fa, Field::NumberExpr1) == node_field(fb, Field::NumberExpr1));
            assert(node_field(fa, Field::NumberExpr2) == node_field(fb, Field::NumberExpr2));
        },
        NodeKind::Mul => {
            assert(node_field(fa, Field::NumberExpr1) == node_field(fb, Field::NumberExpr1));
            assert(node_field(fa, Field::NumberExpr2) == node_field(fb, Field::NumberExpr2));
        },
        NodeKind::Div => {
            assert(node_field(fa, Field::NumberExpr1) == node_field(fb, Field::NumberExpr1));
            assert(node_field(fa, Field::NumberExpr2) == node_field(fb, Field::NumberExpr2));
        },
        NodeKind::Eq => {
            assert(node_field(fa, Field::Expr1) == node_field(fb, Field::Expr1));
            assert(node_field(fa, Field::Expr2) == node_field(fb, Field::Expr2));
        },
        NodeKind::LE => {
            assert(node_field(fa, Field::Expr1) == node_field(fb, Field::Expr1));
            assert(node_field(fa, Field::Expr2) == node_field(fb, Field::Expr2));
        },
        NodeKind::In => {
            assert(node_field(fa, Field::Expr1) == node_field(fb, Field::Expr1));
            assert(node_field(fa, Field::Expr2) == node_field(fb, Field::Expr2));
        },
        NodeKind::If => {
            assert(node_field(fa, Field::Condition) == node_field(fb, Field::Condition));
            assert(node_field(fa, Field::Then) == node_field(fb, Field::Then));
            assert(node_field(fa, Field::Els) == node_field(fb, Field::Els));
        },
        NodeKind::While => {
            assert(node_field(fa, Field::InitExpr) == node_field(fb, Field::InitExpr));
            assert(node_field(fa, Field::Condition) == node_field(fb, Field::Condition));
            assert(node_field(fa, Field::LoopExpr) == node_field(fb, Field::LoopExpr));
            assert(node_field(fa, Field::PostExpr) == node_field(fb, Field::PostExpr));
        },
        NodeKind::Let => {
            assert(node_field(fa, Field::Value) == node_field(fb, Field::Value));
            assert(node_field(fa, Field::Expr) == node_field(fb, Field::Expr));
        },
        NodeKind::LetRec => {
            assert(nodes_field(fa, Field::Args) == nodes_field(fb, Field::Args));
            assert(node_field(fa, Field::Body) == node_field(fb, Field::Body));
        },
        NodeKind::Get => {
            assert(node_field(fa, Field::Elem) == node_field(fb, Field::Elem));
        },
        NodeKind::Put => {
            assert(node_field(fa, Field::Elem) == node_field(fb, Field::Elem));
            assert(node_field(fa, Field::Value) == node_field(fb, Field::Value));
        },
        NodeKind::Remove => {
            assert(node_field(fa, Field::Elem) == node_field(fb, Field::Elem));
        },
        NodeKind::Match => {
            assert(node_field(fa, Field::Expr) == node_field(fb, Field::Expr));
            assert(nodes_field(fa, Field::CaseList) == nodes_field(fb, Field::CaseList));
        },
        NodeKind::MatchLine => {
            assert(node_field(fa, Field::Condition) == node_field(fb, Field::Condition));
            assert(node_field(fa, Field::CaseExpr) == node_field(fb, Field::CaseExpr));
        },
        NodeKind::App => {
            assert(node_field(fa, Field::Fun) == node_field(fb, Field::Fun));
            assert(nodes_field(fa, Field::ParamList) == nodes_field(fb, Field::ParamList));
        },
        NodeKind::Stmts => {
            assert(node_field(fa, Field::Expr1) == node_field(fb, Field::Expr1));
            assert(node_field(fa, Field::Expr2) == node_field(fb, Field::Expr2));
        },
        NodeKind::Clss => {
            assert(node_field(fa, Field::Body) == node_field(fb, Field::Body));
        },
        NodeKind::Return => {
            assert(node_field(fa, Field::Value) == node_field(fb, Field::Value));
        },
        NodeKind::Assert => {
            assert(node_field(fa, Field::Condition) == node_field(fb, Field::Condition));
            assert(node_field(fa, Field::Message) == node_field(fb, Field::Message));
        },
        _ => {},
    }
}

proof fn lemma_decode_all_alike(xs: Seq<JsonView>, ys: Seq<JsonView>)
    requires
        xs.len() == ys.len(),
        forall|i: int| 0 <= i < xs.len() ==> decode_spec(#[trigger] xs[i]) == decode_spec(ys[i]),
    ensures
        decode_all(xs) == decode_all(ys),
    decreases xs.len(),
{
    if xs.len() > 0 {
        let xa = xs.drop_last();
        let ya = ys.drop_last();
        assert forall|i: int| 0 <= i < xa.len() implies decode_spec(#[trigger] xa[i]) == decode_spec(
            ya[i],
        ) by {
            assert(xa[i] == xs[i]);
            assert(ya[i] == ys[i]);
        }
        lemma_decode_all_alike(xa, ya);
        assert(decode_spec(xs[xs.len() - 1]) == decode_spec(ys[xs.len() - 1]));
    }
}

/// Documents that differ in the spelling of names only are read alike: an
/// older key or tag gives the node, or the error, that the current one
/// gives in its place.
pub proof fn lemma_spelling_read_alike(a: JsonView, b: JsonView)
    requires
        alike(a, b),
    ensures
        decode_spec(a) == decode_spec(b),
    decreases a,
{
    match a {
        JsonView::Record(fa) => {
            let fb = b->Record_0;
            assert forall|f: Field| #[trigger] lookup(fa, f) == lookup(fb, f) by {
                lemma_lookup_alike(fa, fb, f);
            }
            assert forall|f: Field| f != Field::Type implies (#[trigger] text_field(fa, f)
                == text_field(fb, f) && bytes_field(fa, f) == bytes_field(fb, f) && texts_field(
                fa,
                f,
            ) == texts_field(fb, f) && node_field(fa, f) == node_field(fb, f) && nodes_field(fa, f)
                == nodes_field(fb, f)) by {
                assert(lookup(fa, f) == lookup(fb, f));
                lemma_lookup_within(fa, f);
                match lookup(fa, f) {
                    Lookup::Found(i) => {
                        assert(same_field(fa[i].0, fb[i].0));
                        if Field::Type.names(fa[i].0) {
                            lemma_key_names_once(fa[i].0, f, Field::Type);
                        }
                        assert(alike(fa[i].1, fb[i].1));
                        lemma_alike_values(fa[i].1, fb[i].1, f);
                        lemma_spelling_read_alike(fa[i].1, fb[i].1);
                        match fa[i].1 {
                            JsonView::List(xs) => {
                                let ys = fb[i].1->List_0;
                                assert forall|k: int| 0 <= k < xs.len() implies decode_spec(
                                    #[trigger] xs[k],
                                ) == decode_spec(ys[k]) by {
                                    assert(alike(xs[k], ys[k]));
                                    lemma_spelling_read_alike(xs[k], ys[k]);
                                }
                                lemma_decode_all_alike(xs, ys);
                            },
                            _ => {},
                        }
                    },
                    _ => {},
                }
            }
            assert(lookup(fa, Field::Type) == lookup(fb, Field::Type));
            lemma_lookup_within(fa, Field::Type);
            match lookup(fa, Field::Type) {
                Lookup::Found(i) => {
                    assert(same_field(fa[i].0, fb[i].0));
                    if alike(fa[i].1, fb[i].1) {
                        lemma_alike_values(fa[i].1, fb[i].1, Field::Type);
                    }
                    match text_field(fa, Field::Type) {
                        Ok(t1) => {
                            let t2 = text_field(fb, Field::Type)->Ok_0;
                            assert(same_tag(t1, t2));
                            match kind_of_tag(t1) {
                                Some(kind) => {
                                    lemma_decode_fields_alike(kind, fa, fb);
                                },
                                None => {},
                            }
                        },
                        Err(_) => {},
                    }
                },
                _ => {},
            }
        },
        _ => {},
    }
}

/// A field that has an older key is read under it as under the current
/// one: a record with one key in the older spelling stands for what the
/// record with the current key stands for.
pub proof fn lemma_legacy_key_read_alike(fields: Seq<(Seq<char>, JsonView)>, i: int, f: Field)
    requires
        0 <= i < fields.len(),
        fields[i].0 == f.key(),
        f.legacy_key() is Some,
    ensures
        decode_spec(JsonView::Record(fields.update(i, (f.legacy_key()->0, fields[i].1))))
            == decode_spec(JsonView::Record(fields)),
{
    let a = JsonView::Record(fields);
    let older = fields.update(i, (f.legacy_key()->0, fields[i].1));
    let b = JsonView::Record(older);
    lemma_alike_same(a);
    assert forall|g: Field| #[trigger] g.names(f.key()) == g.names(f.legacy_key()->0) by {
        if g.names(f.key()) {
            lemma_key_names_once(f.key(), f, g);
        }
        if g.names(f.legacy_key()->0) {
            lemma_key_names_once(f.legacy_key()->0, f, g);
        }
    }
    assert forall|k: int| 0 <= k < fields.len() implies {
        &&& same_field((#[trigger] fields[k]).0, older[k].0)
        &&& alike(fields[k].1, older[k].1)
    } by {
        lemma_alike_same(fields[k].1);
    }
    lemma_spelling_read_alike(a, b);
}

/// A kind that has an older tag is read under it as under the current one.
pub proof fn lemma_legacy_tag_read_alike(fields: Seq<(Seq<char>, JsonView)>, i: int, k: NodeKind)
    requires
        0 <= i < fields.len(),
        fields[i] == (Field::Type.key(), JsonView::Text(k.tag())),
        k.legacy_tag() is Some,
    ensures
        decode_spec(
            JsonView::Record(
                fields.update(i, (Field::Type.key(), JsonView::Text(k.legacy_tag()->0))),
            ),
        ) == decode_spec(JsonView::Record(fields)),
{
    let a = JsonView::Record(fields);
    let older = fields.update(i, (Field::Type.key(), JsonView::Text(k.legacy_tag()->0)));
    let b = JsonView::Record(older);
    lemma_kind_of_own_tag(k);
    assert(same_tag(k.tag(), k.legacy_tag()->0));
    assert forall|j: int| 0 <= j < fields.len() implies {
        &&& same_field((#[trigger] fields[j]).0, older[j].0)
        &&& alike(fields[j].1, older[j].1) || {
            &&& Field::Type.names(fields[j].0)
            &&& fields[j].1 matches JsonView::Text(t1)
            &&& older[j].1 matches JsonView::Text(t2)
            &&& same_tag(t1, t2)
        }
    } by {
        lemma_alike_same(fields[j].1);
    }
    lemma_spelling_read_alike(a, b);
}

/// A document is like itself.
pub proof fn lemma_alike_same(a: JsonView)
    ensures
        alike(a, a),
    decreases a,
{
    match a {
        JsonView::List(xs) => {
            assert forall|i: int| 0 <= i < xs.len() implies alike(#[trigger] xs[i], xs[i]) by {
                lemma_alike_same(xs[i]);
            }
        },
        JsonView::Record(fa) => {
            assert forall|i: int| 0 <= i < fa.len() implies alike((#[trigger] fa[i]).1, fa[i].1) by {
                lemma_alike_same(fa[i].1);
            }
        },
        _ => {},
    }
}

} // verus!
