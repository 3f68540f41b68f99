//! The names of the structural format: the tag of each kind of node and the
//! key of each field, each with the older spelling that reading still accepts.

use crate::text::same_str;
use vstd::prelude::*;

verus! {

/// The key of a field in the structural format.
#[derive(Clone, Copy, Debug, PartialEq, Eq, Structural)]
pub enum Field {
    /// The discriminator, which names the kind of node.
    Type,
    Value,
    Elems,
    Real,
    Imag,
    Expr,
    BoolExpr,
    BoolExpr1,
    BoolExpr2,
    NumberExpr1,
    NumberExpr2,
    Expr1,
    Expr2,
    Condition,
    Then,
    Els,
    InitExpr,
    LoopExpr,
    PostExpr,
    Var,
    IsPointer,
    Name,
    Args,
    Body,
    ArrayName,
    Elem,
    Insert,
    IsValue,
    CaseList,
    CaseExpr,
    ObjectName,
    Fun,
    ParamList,
    AttributeList,
    Message,
}

impl Field {
    /// The key under which the field is written.
    pub open spec fn key(self) -> Seq<char> {
        match self {
            Field::Type => "type"@,
            Field::Value => "value"@,
            Field::Elems => "elems"@,
            Field::Real => "real"@,
            Field::Imag => "imag"@,
            Field::Expr => "expr"@,
            Field::BoolExpr => "bool_expr"@,
            Field::BoolExpr1 => "bool_expr1"@,
            Field::BoolExpr2 => "bool_expr2"@,
            Field::NumberExpr1 => "number_expr1"@,
            Field::NumberExpr2 => "number_expr2"@,
            Field::Expr1 => "expr1"@,
            Field::Expr2 => "expr2"@,
            Field::Condition => "condition"@,
            Field::Then => "then"@,
            Field::Els => "els"@,
            Field::InitExpr => "init_expr"@,
            Field::LoopExpr => "loop_expr"@,
            Field::PostExpr => "post_expr"@,
            Field::Var => "var"@,
            Field::IsPointer => "is_pointer"@,
            Field::Name => "name"@,
            Field::Args => "args"@,
            Field::Body => "body"@,
            Field::ArrayName => "array_name"@,
            Field::Elem => "elem"@,
            Field::Insert => "insert"@,
            Field::IsValue => "is_value"@,
            Field::CaseList => "case_list"@,
            Field::CaseExpr => "case_expr"@,
            Field::ObjectName => "object_name"@,
            Field::Fun => "fun"@,
            Field::ParamList => "param_list"@,
            Field::AttributeList => "attribute_list"@,
            Field::Message => "message"@,
        }
    }

    /// The older key under which the field is also read, if it has one.
    pub open spec fn legacy_key(self) -> Option<Seq<char>> {
        match self {
            Field::BoolExpr => Some("boolExpr"@),
            Field::BoolExpr1 => Some("boolExpr1"@),
            Field::BoolExpr2 => Some("boolExpr2"@),
            Field::NumberExpr1 => Some("numberExpr1"@),
            Field::NumberExpr2 => Some("numberExpr2"@),
            Field::Els => Some("else"@),
            Field::InitExpr => Some("initExpr"@),
            Field::LoopExpr => Some("loopExpr"@),
            Field::PostExpr => Some("postExpr"@),
            Field::IsPointer => Some("isPointer"@),
            Field::ArrayName => Some("arrayName"@),
            Field::IsValue => Some("isValue"@),
            Field::CaseList => Some("caseList"@),
            Field::CaseExpr => Some("caseExpr"@),
            Field::ObjectName => Some("objectName"@),
            Field::ParamList => Some("paramList"@),
            Field::AttributeList => Some("attributList"@),
            _ => None,
        }
    }

    /// Whether a key of a record names the field, in either spelling.
    pub open spec fn names(self, key: Seq<char>) -> bool {
        key == self.key() || self.legacy_key() == Some(key)
    }

    /// The key under which the field is written.
    pub fn name(self) -> (r: &'static str)
        ensures
            r@ == self.key(),
    {
        match self {
            Field::Type => "type",
            Field::Value => "value",
            Field::Elems => "elems",
            Field::Real => "real",
            Field::Imag => "imag",
            Field::Expr => "expr",
            Field::BoolExpr => "bool_expr",
            Field::BoolExpr1 => "bool_expr1",
            Field::BoolExpr2 => "bool_expr2",
            Field::NumberExpr1 => "number_expr1",
            Field::NumberExpr2 => "number_expr2",
            Field::Expr1 => "expr1",
            Field::Expr2 => "expr2",
            Field::Condition => "condition",
            Field::Then => "then",
            Field::Els => "els",
            Field::InitExpr => "init_expr",
            Field::LoopExpr => "loop_expr",
            Field::PostExpr => "post_expr",
            Field::Var => "var",
            Field::IsPointer => "is_pointer",
            Field::Name => "name",
            Field::Args => "args",
            Field::Body => "body",
            Field::ArrayName => "array_name",
            Field::Elem => "elem",
            Field::Insert => "insert",
            Field::IsValue => "is_value",
            Field::CaseList => "case_list",
            Field::CaseExpr => "case_expr",
            Field::ObjectName => "object_name",
            Field::Fun => "fun",
            Field::ParamList => "param_list",
            Field::AttributeList => "attribute_list",
            Field::Message => "message",
        }
    }

    /// The older key under which the field is also read, if it has one.
    pub fn legacy_name(self) -> (r: Option<&'static str>)
        ensures
            match r {
                Some(k) => self.legacy_key() == Some(k@),
                None => self.legacy_key() is None,
            },
    {
        match self {
            Field::BoolExpr => Some("boolExpr"),
            Field::BoolExpr1 => Some("boolExpr1"),
            Field::BoolExpr2 => Some("boolExpr2"),
            Field::NumberExpr1 => Some("numberExpr1"),
            Field::NumberExpr2 => Some("numberExpr2"),
            Field::Els => Some("else"),
            Field::InitExpr => Some("initExpr"),
            Field::LoopExpr => Some("loopExpr"),
            Field::PostExpr => Some("postExpr"),
            Field::IsPointer => Some("isPointer"),
            Field::ArrayName => Some("arrayName"),
            Field::IsValue => Some("isValue"),
            Field::CaseList => Some("caseList"),
            Field::CaseExpr => Some("caseExpr"),
            Field::ObjectName => Some("objectName"),
            Field::ParamList => Some("paramList"),
            Field::AttributeList => Some("attributList"),
            _ => None,
        }
    }

    /// Whether a key of a record names the field, in either spelling.
    pub fn is_named(self, key: &str) -> (r: bool)
        ensures
            r == self.names(key@),
    {
        if same_str(key, self.name()) {
            true
        } else {
            match self.legacy_name() {
                Some(k) => same_str(key, k),
                None => false,
            }
        }
    }
}

/// What tells one name of the format from another: its length, its first
/// two characters and its last one.
pub open spec fn mark(s: Seq<char>) -> (nat, char, char, char) {
    (s.len(), s[0], s[1], s.last())
}

/// A key names at most one field, in either spelling.
pub proof fn lemma_key_names_once(key: Seq<char>, f: Field, g: Field)
    requires
        f.names(key),
        g.names(key),
    ensures
        f == g,
{
    reveal_strlit("type");
    assert(mark("type"@) == (4nat, 't', 'y', 'e'));
    reveal_strlit("value");
    assert(mark("value"@) == (5nat, 'v', 'a', 'e'));
    reveal_strlit("elems");
    assert(mark("elems"@) == (5nat, 'e', 'l', 's'));
    reveal_strlit("real");
    assert(mark("real"@) == (4nat, 'r', 'e', 'l'));
    reveal_strlit("imag");
    assert(mark("imag"@) == (4nat, 'i', 'm', 'g'));
    reveal_strlit("expr");
    assert(mark("expr"@) == (4nat, 'e', 'x', 'r'));
    reveal_strlit("bool_expr");
    assert(mark("bool_expr"@) == (9nat, 'b', 'o', 'r'));
    reveal_strlit("bool_expr1");
    assert(mark("bool_expr1"@) == (10nat, 'b', 'o', '1'));
    reveal_strlit("bool_expr2");
    assert(mark("bool_expr2"@) == (10nat, 'b', 'o', '2'));
    reveal_strlit("number_expr1");
    assert(mark("number_expr1"@) == (12nat, 'n', 'u', '1'));
    reveal_strlit("number_expr2");
    assert(mark("number_expr2"@) == (12nat, 'n', 'u', '2'));
    reveal_strlit("expr1");
    assert(mark("expr1"@) == (5nat, 'e', 'x', '1'));
    reveal_strlit("expr2");
    assert(mark("expr2"@) == (5nat, 'e', 'x', '2'));
    reveal_strlit("condition");
    assert(mark("condition"@) == (9nat, 'c', 'o', 'n'));
    reveal_strlit("then");
    assert(mark("then"@) == (4nat, 't', 'h', 'n'));
    reveal_strlit("els");
    assert(mark("els"@) == (3nat, 'e', 'l', 's'));
    reveal_strlit("init_expr");
    assert(mark("init_expr"@) == (9nat, 'i', 'n', 'r'));
    reveal_strlit("loop_expr");
    assert(mark("loop_expr"@) == (9nat, 'l', 'o', 'r'));
    reveal_strlit("post_expr");
    assert(mark("post_expr"@) == (9nat, 'p', 'o', 'r'));
    reveal_strlit("var");
    assert(mark("var"@) == (3nat, 'v', 'a', 'r'));
    reveal_strlit("is_pointer");
    assert(mark("is_pointer"@) == (10nat, 'i', 's', 'r'));
    reveal_strlit("name");
    assert(mark("name"@) == (4nat, 'n', 'a', 'e'));
    reveal_strlit("args");
    assert(mark("args"@) == (4nat, 'a', 'r', 's'));
    reveal_strlit("body");
    assert(mark("body"@) == (4nat, 'b', 'o', 'y'));
    reveal_strlit("array_name");
    assert(mark("array_name"@) == (10nat, 'a', 'r', 'e'));
    reveal_strlit("elem");
    assert(mark("elem"@) == (4nat, 'e', 'l', 'm'));
    reveal_strlit("insert");
    assert(mark("insert"@) == (6nat, 'i', 'n', 't'));
    reveal_strlit("is_value");
    assert(mark("is_value"@) == (8nat, 'i', 's', 'e'));
    reveal_strlit("case_list");
    assert(mark("case_list"@) == (9nat, 'c', 'a', 't'));
    reveal_strlit("case_expr");
    assert(mark("case_expr"@) == (9nat, 'c', 'a', 'r'));
    reveal_strlit("object_name");
    assert(mark("object_name"@) == (11nat, 'o', 'b', 'e'));
    reveal_strlit("fun");
    assert(mark("fun"@) == (3nat, 'f', 'u', 'n'));
    reveal_strlit("param_list");
    assert(mark("param_list"@) == (10nat, 'p', 'a', 't'));
    reveal_strlit("attribute_list");
    assert(mark("attribute_list"@) == (14nat, 'a', 't', 't'));
    reveal_strlit("message");
    assert(mark("message"@) == (7nat, 'm', 'e', 'e'));
    reveal_strlit("boolExpr");
    assert(mark("boolExpr"@) == (8nat, 'b', 'o', 'r'));
    reveal_strlit("boolExpr1");
    assert(mark("boolExpr1"@) == (9nat, 'b', 'o', '1'));
    reveal_strlit("boolExpr2");
    assert(mark("boolExpr2"@) == (9nat, 'b', 'o', '2'));
    reveal_strlit("numberExpr1");
    assert(mark("numberExpr1"@) == (11nat, 'n', 'u', '1'));
    reveal_strlit("numberExpr2");
    assert(mark("numberExpr2"@) == (11nat, 'n', 'u', '2'));
    reveal_strlit("else");
    assert(mark("else"@) == (4nat, 'e', 'l', 'e'));
    reveal_strlit("initExpr");
    assert(mark("initExpr"@) == (8nat, 'i', 'n', 'r'));
    reveal_strlit("loopExpr");
    assert(mark("loopExpr"@) == (8nat, 'l', 'o', 'r'));
    reveal_strlit("postExpr");
    assert(mark("postExpr"@) == (8nat, 'p', 'o', 'r'));
    reveal_strlit("isPointer");
    assert(mark("isPointer"@) == (9nat, 'i', 's', 'r'));
    reveal_strlit("arrayName");
    assert(mark("arrayName"@) == (9nat, 'a', 'r', 'e'));
    reveal_strlit("isValue");
    assert(mark("isValue"@) == (7nat, 'i', 's', 'e'));
    reveal_strlit("caseList");
    assert(mark("caseList"@) == (8nat, 'c', 'a', 't'));
    reveal_strlit("caseExpr");
    assert(mark("caseExpr"@) == (8nat, 'c', 'a', 'r'));
    reveal_strlit("objectName");
    assert(mark("objectName"@) == (10nat, 'o', 'b', 'e'));
    reveal_strlit("paramList");
    assert(mark("paramList"@) == (9nat, 'p', 'a', 't'));
    reveal_strlit("attributList");
    assert(mark("attributList"@) == (12nat, 'a', 't', 't'));
    assert(mark(f.key()) == mark(key) || mark(f.legacy_key()->0) == mark(key));
    assert(mark(g.key()) == mark(key) || mark(g.legacy_key()->0) == mark(key));
}

/// The written key of a field names that field and no other.
pub proof fn lemma_key_names_one_field(f: Field, g: Field)
    ensures
        g.names(f.key()) <==> f == g,
{
    if g.names(f.key()) {
        lemma_key_names_once(f.key(), f, g);
    }
}

/// The kind of a node of the syntax tree.
#[derive(Clone, Copy, Debug, PartialEq, Eq, Structural)]
pub enum NodeKind {
    Unit,
    Break,
    Continue,
    Ellipsis,
    Int,
    Float,
    Bool,
    String,
    Ident,
    Bytes,
    Complex,
    Tuple,
    Array,
    Neg,
    Not,
    And,
    Or,
    Add,
    Sub,
    Mul,
    Div,
    Eq,
    LE,
    In,
    If,
    While,
    Let,
    LetRec,
    Get,
    Put,
    Remove,
    Length,
    Match,
    MatchLine,
    Var,
    App,
    Stmts,
    Iprt,
    Clss,
    Return,
    Comment,
    CommentMulti,
    Assert,
}

impl NodeKind {
    /// The tag under which the kind is written.
    pub open spec fn tag(self) -> Seq<char> {
        match self {
            NodeKind::Unit => "Unit"@,
            NodeKind::Break => "Break"@,
            NodeKind::Continue => "Continue"@,
            NodeKind::Ellipsis => "Ellipsis"@,
            NodeKind::Int => "Int"@,
            NodeKind::Float => "Float"@,
            NodeKind::Bool => "Bool"@,
            NodeKind::String => "String"@,
            NodeKind::Ident => "Ident"@,
            NodeKind::Bytes => "Bytes"@,
            NodeKind::Complex => "Complex"@,
            NodeKind::Tuple => "Tuple"@,
            NodeKind::Array => "Array"@,
            NodeKind::Neg => "Neg"@,
            NodeKind::Not => "Not"@,
            NodeKind::And => "And"@,
            NodeKind::Or => "Or"@,
            NodeKind::Add => "Add"@,
            NodeKind::Sub => "Sub"@,
            NodeKind::Mul => "Mul"@,
            NodeKind::Div => "Div"@,
            NodeKind::Eq => "Eq"@,
            NodeKind::LE => "LE"@,
            NodeKind::In => "In"@,
            NodeKind::If => "If"@,
            NodeKind::While => "While"@,
            NodeKind::Let => "Let"@,
            NodeKind::LetRec => "LetRec"@,
            NodeKind::Get => "Get"@,
            NodeKind::Put => "Put"@,
            NodeKind::Remove => "Remove"@,
            NodeKind::Length => "Length"@,
            NodeKind::Match => "Match"@,
            NodeKind::MatchLine => "MatchLine"@,
            NodeKind::Var => "Var"@,
            NodeKind::App => "App"@,
            NodeKind::Stmts => "Stmts"@,
            NodeKind::Iprt => "Iprt"@,
            NodeKind::Clss => "Clss"@,
            NodeKind::Return => "Return"@,
            NodeKind::Comment => "Comment"@,
            NodeKind::CommentMulti => "CommentMulti"@,
            NodeKind::Assert => "Assert"@,
        }
    }

    /// The older tag under which the kind is also read, if it has one.
    pub open spec fn legacy_tag(self) -> Option<Seq<char>> {
        match self {
            NodeKind::Int => Some("Integer"@),
            NodeKind::Iprt => Some("Import"@),
            NodeKind::Clss => Some("Class"@),
            _ => None,
        }
    }

    /// Whether a tag names the kind, in either spelling.
    pub open spec fn is_tagged(self, tag: Seq<char>) -> bool {
        tag == self.tag() || self.legacy_tag() == Some(tag)
    }

    /// The tag under which the kind is written.
    pub fn name(self) -> (r: &'static str)
        ensures
            r@ == self.tag(),
    {
        match self {
            NodeKind::Unit => "Unit",
            NodeKind::Break => "Break",
            NodeKind::Continue => "Continue",
            NodeKind::Ellipsis => "Ellipsis",
            NodeKind::Int => "Int",
            NodeKind::Float => "Float",
            NodeKind::Bool => "Bool",
            NodeKind::String => "String",
            NodeKind::Ident => "Ident",
            NodeKind::Bytes => "Bytes",
            NodeKind::Complex => "Complex",
            NodeKind::Tuple => "Tuple",
            NodeKind::Array => "Array",
            NodeKind::Neg => "Neg",
            NodeKind::Not => "Not",
            NodeKind::And => "And",
            NodeKind::Or => "Or",
            NodeKind::Add => "Add",
            NodeKind::Sub => "Sub",
            NodeKind::Mul => "Mul",
            NodeKind::Div => "Div",
            NodeKind::Eq => "Eq",
            NodeKind::LE => "LE",
            NodeKind::In => "In",
            NodeKind::If => "If",
            NodeKind::While => "While",
            NodeKind::Let => "Let",
            NodeKind::LetRec => "LetRec",
            NodeKind::Get => "Get",
            NodeKind::Put => "Put",
            NodeKind::Remove => "Remove",
            NodeKind::Length => "Length",
            NodeKind::Match => "Match",
            NodeKind::MatchLine => "MatchLine",
            NodeKind::Var => "Var",
            NodeKind::App => "App",
            NodeKind::Stmts => "Stmts",
            NodeKind::Iprt => "Iprt",
            NodeKind::Clss => "Clss",
            NodeKind::Return => "Return",
            NodeKind::Comment => "Comment",
            NodeKind::CommentMulti => "CommentMulti",
            NodeKind::Assert => "Assert",
        }
    }

    /// The older tag under which the kind is also read, if it has one.
    pub fn legacy_name(self) -> (r: Option<&'static str>)
        ensures
            match r {
                Some(t) => self.legacy_tag() == Some(t@),
                None => self.legacy_tag() is None,
            },
    {
        match self {
            NodeKind::Int => Some("Integer"),
            NodeKind::Iprt => Some("Import"),
            NodeKind::Clss => Some("Class"),
            _ => None,
        }
    }
}

/// The kind that a tag names, in either spelling.
pub open spec fn kind_of_tag(tag: Seq<char>) -> Option<NodeKind> {
    if exists|k: NodeKind| k.is_tagged(tag) {
        Some(choose|k: NodeKind| k.is_tagged(tag))
    } else {
        None
    }
}

/// A tag names at most one kind.
pub proof fn lemma_tag_names_one_kind(tag: Seq<char>, k: NodeKind, g: NodeKind)
    requires
        k.is_tagged(tag),
        g.is_tagged(tag),
    ensures
        k == g,
        kind_of_tag(tag) == Some(k),
{
    reveal_strlit("Unit");
    assert(mark("Unit"@) == (4nat, 'U', 'n', 't'));
    reveal_strlit("Break");
    assert(mark("Break"@) == (5nat, 'B', 'r', 'k'));
    reveal_strlit("Continue");
    assert(mark("Continue"@) == (8nat, 'C', 'o', 'e'));
    reveal_strlit("Ellipsis");
    assert(mark("Ellipsis"@) == (8nat, 'E', 'l', 's'));
    reveal_strlit("Int");
    assert(mark("Int"@) == (3nat, 'I', 'n', 't'));
    reveal_strlit("Float");
    assert(mark("Float"@) == (5nat, 'F', 'l', 't'));
    reveal_strlit("Bool");
    assert(mark("Bool"@) == (4nat, 'B', 'o', 'l'));
    reveal_strlit("String");
    assert(mark("String"@) == (6nat, 'S', 't', 'g'));
    reveal_strlit("Ident");
    assert(mark("Ident"@) == (5nat, 'I', 'd', 't'));
    reveal_strlit("Bytes");
    assert(mark("Bytes"@) == (5nat, 'B', 'y', 's'));
    reveal_strlit("Complex");
    assert(mark("Complex"@) == (7nat, 'C', 'o', 'x'));
    reveal_strlit("Tuple");
    assert(mark("Tuple"@) == (5nat, 'T', 'u', 'e'));
    reveal_strlit("Array");
    assert(mark("Array"@) == (5nat, 'A', 'r', 'y'));
    reveal_strlit("Neg");
    assert(mark("Neg"@) == (3nat, 'N', 'e', 'g'));
    reveal_strlit("Not");
    assert(mark("Not"@) == (3nat, 'N', 'o', 't'));
    reveal_strlit("And");
    assert(mark("And"@) == (3nat, 'A', 'n', 'd'));
    reveal_strlit("Or");
    assert(mark("Or"@) == (2nat, 'O', 'r', 'r'));
    reveal_strlit("Add");
    assert(mark("Add"@) == (3nat, 'A', 'd', 'd'));
    reveal_strlit("Sub");
    assert(mark("Sub"@) == (3nat, 'S', 'u', 'b'));
    reveal_strlit("Mul");
    assert(mark("Mul"@) == (3nat, 'M', 'u', 'l'));
    reveal_strlit("Div");
    assert(mark("Div"@) == (3nat, 'D', 'i', 'v'));
    reveal_strlit("Eq");
    assert(mark("Eq"@) == (2nat, 'E', 'q', 'q'));
    reveal_strlit("LE");
    assert(mark("LE"@) == (2nat, 'L', 'E', 'E'));
    reveal_strlit("In");
    assert(mark("In"@) == (2nat, 'I', 'n', 'n'));
    reveal_strlit("If");
    assert(mark("If"@) == (2nat, 'I', 'f', 'f'));
    reveal_strlit("While");
    assert(mark("While"@) == (5nat, 'W', 'h', 'e'));
    reveal_strlit("Let");
    assert(mark("Let"@) == (3nat, 'L', 'e', 't'));
    reveal_strlit("LetRec");
    assert(mark("LetRec"@) == (6nat, 'L', 'e', 'c'));
    reveal_strlit("Get");
    assert(mark("Get"@) == (3nat, 'G', 'e', 't'));
    reveal_strlit("Put");
    assert(mark("Put"@) == (3nat, 'P', 'u', 't'));
    reveal_strlit("Remove");
    assert(mark("Remove"@) == (6nat, 'R', 'e', 'e'));
    reveal_strlit("Length");
    assert(mark("Length"@) == (6nat, 'L', 'e', 'h'));
    reveal_strlit("Match");
    assert(mark("Match"@) == (5nat, 'M', 'a', 'h'));
    reveal_strlit("MatchLine");
    assert(mark("MatchLine"@) == (9nat, 'M', 'a', 'e'));
    reveal_strlit("Var");
    assert(mark("Var"@) == (3nat, 'V', 'a', 'r'));
    reveal_strlit("App");
    assert(mark("App"@) == (3nat, 'A', 'p', 'p'));
    reveal_strlit("Stmts");
    assert(mark("Stmts"@) == (5nat, 'S', 't', 's'));
    reveal_strlit("Iprt");
    assert(mark("Iprt"@) == (4nat, 'I', 'p', 't'));
    reveal_strlit("Clss");
    assert(mark("Clss"@) == (4nat, 'C', 'l', 's'));
    reveal_strlit("Return");
    assert(mark("Return"@) == (6nat, 'R', 'e', 'n'));
    reveal_strlit("Comment");
    assert(mark("Comment"@) == (7nat, 'C', 'o', 't'));
    reveal_strlit("CommentMulti");
    assert(mark("CommentMulti"@) == (12nat, 'C', 'o', 'i'));
    reveal_strlit("Assert");
    assert(mark("Assert"@) == (6nat, 'A', 's', 't'));
    reveal_strlit("Integer");
    assert(mark("Integer"@) == (7nat, 'I', 'n', 'r'));
    reveal_strlit("Import");
    assert(mark("Import"@) == (6nat, 'I', 'm', 't'));
    reveal_strlit("Class");
    assert(mark("Class"@) == (5nat, 'C', 'l', 's'));
    assert(mark(k.tag()) == mark(tag) || mark(k.legacy_tag()->0) == mark(tag));
    assert(mark(g.tag()) == mark(tag) || mark(g.legacy_tag()->0) == mark(tag));
}

/// The written tag of a kind names that kind, and so does its older tag.
pub proof fn lemma_kind_of_own_tag(k: NodeKind)
    ensures
        kind_of_tag(k.tag()) == Some(k),
        k.legacy_tag() matches Some(t) ==> kind_of_tag(t) == Some(k),
{
    lemma_tag_names_one_kind(k.tag(), k, k);
    if k.legacy_tag() is Some {
        lemma_tag_names_one_kind(k.legacy_tag()->0, k, k);
    }
}

/// The kind that a tag names, in either spelling.
pub fn kind_named(tag: &str) -> (r: Option<NodeKind>)
    ensures
        r == kind_of_tag(tag@),
{
    if same_str(tag, "Unit") {
        proof {
            lemma_tag_names_one_kind(tag@, NodeKind::Unit, NodeKind::Unit);
        }
        return Some(NodeKind::Unit);
    }
    if same_str(tag, "Break") {
        proof {
            lemma_tag_names_one_kind(tag@, NodeKind::Break, NodeKind::Break);
        }
        return Some(NodeKind::Break);
    }
    if same_str(tag, "Continue") {
        proof {
            lemma_tag_names_one_kind(tag@, NodeKind::Continue, NodeKind::Continue);
        }
        return Some(NodeKind::Continue);
    }
    if same_str(tag, "Ellipsis") {
        proof {
            lemma_tag_names_one_kind(tag@, NodeKind::Ellipsis, NodeKind::Ellipsis);
        }
        return Some(NodeKind::Ellipsis);
    }
    if same_str(tag, "Int") || same_str(tag, "Integer") {
        proof {
            lemma_tag_names_one_kind(tag@, NodeKind::Int, NodeKind::Int);
        }
        return Some(NodeKind::Int);
    }
    if same_str(tag, "Float") {
        proof {
            lemma_tag_names_one_kind(tag@, NodeKind::Float, NodeKind::Float);
        }
        return Some(NodeKind::Float);
    }
    if same_str(tag, "Bool") {
        proof {
            lemma_tag_names_one_kind(tag@, NodeKind::Bool, NodeKind::Bool);
        }
        return Some(NodeKind::Bool);
    }
    if same_str(tag, "String") {
        proof {
            lemma_tag_names_one_kind(tag@, NodeKind::String, NodeKind::String);
        }
        return Some(NodeKind::String);
    }
    if same_str(tag, "Ident") {
        proof {
            lemma_tag_names_one_kind(tag@, NodeKind::Ident, NodeKind::Ident);
        }
        return Some(NodeKind::Ident);
    }
    if same_str(tag, "Bytes") {
        proof {
            lemma_tag_names_one_kind(tag@, NodeKind::Bytes, NodeKind::Bytes);
        }
        return Some(NodeKind::Bytes);
    }
    if same_str(tag, "Complex") {
        proof {
            lemma_tag_names_one_kind(tag@, NodeKind::Complex, NodeKind::Complex);
        }
        return Some(NodeKind::Complex);
    }
    if same_str(tag, "Tuple") {
        proof {
            lemma_tag_names_one_kind(tag@, NodeKind::Tuple, NodeKind::Tuple);
        }
        return Some(NodeKind::Tuple);
    }
    if same_str(tag, "Array") {
        proof {
            lemma_tag_names_one_kind(tag@, NodeKind::Array, NodeKind::Array);
        }
        return Some(NodeKind::Array);
    }
    if same_str(tag, "Neg") {
        proof {
            lemma_tag_names_one_kind(tag@, NodeKind::Neg, NodeKind::Neg);
        }
        return Some(NodeKind::Neg);
    }
    if same_str(tag, "Not") {
        proof {
            lemma_tag_names_one_kind(tag@, NodeKind::Not, NodeKind::Not);
        }
        return Some(NodeKind::Not);
    }
    if same_str(tag, "And") {
        proof {
            lemma_tag_names_one_kind(tag@, NodeKind::And, NodeKind::And);
        }
        return Some(NodeKind::And);
    }
    if same_str(tag, "Or") {
        proof {
            lemma_tag_names_one_kind(tag@, NodeKind::Or, NodeKind::Or);
        }
        return Some(NodeKind::Or);
    }
    if same_str(tag, "Add") {
        proof {
            lemma_tag_names_one_kind(tag@, NodeKind::Add, NodeKind::Add);
        }
        return Some(NodeKind::Add);
    }
    if same_str(tag, "Sub") {
        proof {
            lemma_tag_names_one_kind(tag@, NodeKind::Sub, NodeKind::Sub);
        }
        return Some(NodeKind::Sub);
    }
    if same_str(tag, "Mul") {
        proof {
            lemma_tag_names_one_kind(tag@, NodeKind::Mul, NodeKind::Mul);
        }
        return Some(NodeKind::Mul);
    }
    if same_str(tag, "Div") {
        proof {
            lemma_tag_names_one_kind(tag@, NodeKind::Div, NodeKind::Div);
        }
        return Some(NodeKind::Div);
    }
    if same_str(tag, "Eq") {
        proof {
            lemma_tag_names_one_kind(tag@, NodeKind::Eq, NodeKind::Eq);
        }
        return Some(NodeKind::Eq);
    }
    if same_str(tag, "LE") {
        proof {
            lemma_tag_names_one_kind(tag@, NodeKind::LE, NodeKind::LE);
        }
        return Some(NodeKind::LE);
    }
    if same_str(tag, "In") {
        proof {
            lemma_tag_names_one_kind(tag@, NodeKind::In, NodeKind::In);
        }
        return Some(NodeKind::In);
    }
    if same_str(tag, "If") {
        proof {
            lemma_tag_names_one_kind(tag@, NodeKind::If, NodeKind::If);
        }
        return Some(NodeKind::If);
    }
    if same_str(tag, "While") {
        proof {
            lemma_tag_names_one_kind(tag@, NodeKind::While, NodeKind::While);
        }
        return Some(NodeKind::While);
    }
    if same_str(tag, "Let") {
        proof {
            lemma_tag_names_one_kind(tag@, NodeKind::Let, NodeKind::Let);
        }
        return Some(NodeKind::Let);
    }
    if same_str(tag, "LetRec") {
        proof {
            lemma_tag_names_one_kind(tag@, NodeKind::LetRec, NodeKind::LetRec);
        }
        return Some(NodeKind::LetRec);
    }
    if same_str(tag, "Get") {
        proof {
            lemma_tag_names_one_kind(tag@, NodeKind::Get, NodeKind::Get);
        }
        return Some(NodeKind::Get);
    }
    if same_str(tag, "Put") {
        proof {
            lemma_tag_names_one_kind(tag@, NodeKind::Put, NodeKind::Put);
        }
        return Some(NodeKind::Put);
    }
    if same_str(tag, "Remove") {
        proof {
            lemma_tag_names_one_kind(tag@, NodeKind::Remove, NodeKind::Remove);
        }
        return Some(NodeKind::Remove);
    }
    if same_str(tag, "Length") {
        proof {
            lemma_tag_names_one_kind(tag@, NodeKind::Length, NodeKind::Length);
        }
        return Some(NodeKind::Length);
    }
    if same_str(tag, "Match") {
        proof {
            lemma_tag_names_one_kind(tag@, NodeKind::Match, NodeKind::Match);
        }
        return Some(NodeKind::Match);
    }
    if same_str(tag, "MatchLine") {
        proof {
            lemma_tag_names_one_kind(tag@, NodeKind::MatchLine, NodeKind::MatchLine);
        }
        return Some(NodeKind::MatchLine);
    }
    if same_str(tag, "Var") {
        proof {
            lemma_tag_names_one_kind(tag@, NodeKind::Var, NodeKind::Var);
        }
        return Some(NodeKind::Var);
    }
    if same_str(tag, "App") {
        proof {
            lemma_tag_names_one_kind(tag@, NodeKind::App, NodeKind::App);
        }
        return Some(NodeKind::App);
    }
    if same_str(tag, "Stmts") {
        proof {
            lemma_tag_names_one_kind(tag@, NodeKind::Stmts, NodeKind::Stmts);
        }
        return Some(NodeKind::Stmts);
    }
    if same_str(tag, "Iprt") || same_str(tag, "Import") {
        proof {
            lemma_tag_names_one_kind(tag@, NodeKind::Iprt, NodeKind::Iprt);
        }
        return Some(NodeKind::Iprt);
    }
    if same_str(tag, "Clss") || same_str(tag, "Class") {
        proof {
            lemma_tag_names_one_kind(tag@, NodeKind::Clss, NodeKind::Clss);
        }
        return Some(NodeKind::Clss);
    }
    if same_str(tag, "Return") {
        proof {
            lemma_tag_names_one_kind(tag@, NodeKind::Return, NodeKind::Return);
        }
        return Some(NodeKind::Return);
    }
    if same_str(tag, "Comment") {
        proof {
            lemma_tag_names_one_kind(tag@, NodeKind::Comment, NodeKind::Comment);
        }
        return Some(NodeKind::Comment);
    }
    if same_str(tag, "CommentMulti") {
        proof {
            lemma_tag_names_one_kind(tag@, NodeKind::CommentMulti, NodeKind::CommentMulti);
        }
        return Some(NodeKind::CommentMulti);
    }
    if same_str(tag, "Assert") {
        proof {
            lemma_tag_names_one_kind(tag@, NodeKind::Assert, NodeKind::Assert);
        }
        return Some(NodeKind::Assert);
    }
    assert(forall|k: NodeKind| !k.is_tagged(tag@));
    None
}

} // verus!
