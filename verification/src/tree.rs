use vstd::prelude::*;

verus! {

// ------------------------------------------------------------------
// The markup tree. A closed set of variants covers every shape the
// rewrite distinguishes; whatever else a real source file may hold is
// carried as an opaque leaf that the rewrite leaves untouched.
// ------------------------------------------------------------------

/// How a markup element is named: a plain identifier, the final property
/// of a member access (`Ctx.Provider` keeps only `Provider`), or a shape
/// the rewrite does not recognise and therefore never rewrites.
#[derive(Debug, PartialEq, Eq)]
pub enum ElemName {
    Ident(String),
    Member(String),
    Unsupported,
}

/// The value of one attribute: a plain string literal, an embedded
/// expression, or nothing (a bare boolean-style attribute).
#[derive(Debug, PartialEq, Eq)]
pub enum AttrValue {
    Lit(String),
    Container(JsxExpr),
    Empty,
}

/// One name/value pair on a markup element.
#[derive(Debug, PartialEq, Eq)]
pub struct JsxAttr {
    pub name: String,
    pub value: AttrValue,
}

/// An expression as far as the rewrite can see into it: a markup element,
/// a fragment, an inline function with an expression body or a block
/// body, or anything else, which is opaque. A parenthesised group stands
/// for its inner expression and is not represented separately.
#[derive(Debug, PartialEq, Eq)]
pub enum JsxExpr {
    Elem(JsxElement),
    Frag(Vec<JsxChild>),
    ArrowExpr(Box<JsxExpr>),
    ArrowBlock(Vec<JsxStmt>),
    Opaque,
}

/// A statement of an inline function's block body: a `return`, possibly
/// with a value, or any other statement, which is opaque.
#[derive(Debug, PartialEq, Eq)]
pub enum JsxStmt {
    Ret(Option<JsxExpr>),
    Other,
}

/// One child of an element or fragment: a nested element, a nested
/// fragment, literal text, or an embedded expression.
#[derive(Debug, PartialEq, Eq)]
pub enum JsxChild {
    Element(JsxElement),
    Fragment(Vec<JsxChild>),
    Text(String),
    ExprChild(JsxExpr),
}

/// A markup element: its name, its ordered attribute list, its children.
#[derive(Debug, PartialEq, Eq)]
pub struct JsxElement {
    pub name: ElemName,
    pub attrs: Vec<JsxAttr>,
    pub children: Vec<JsxChild>,
}

// ------------------------------------------------------------------
// The mathematical model of the tree: the same shape over Seq, with
// every string a sequence of characters. An inline function's
// expression body is carried as a one-element sequence.
// ------------------------------------------------------------------

pub enum SpecName {
    Ident(Seq<char>),
    Member(Seq<char>),
    Unsupported,
}

pub enum SpecValue {
    Lit(Seq<char>),
    Container(SpecExpr),
    Empty,
}

pub struct SpecAttr {
    pub name: Seq<char>,
    pub value: SpecValue,
}

pub enum SpecExpr {
    Elem(SpecElement),
    Frag(Seq<SpecChild>),
    ArrowExpr(Seq<SpecExpr>),
    ArrowBlock(Seq<SpecStmt>),
    Opaque,
}

pub enum SpecStmt {
    Ret(Option<SpecExpr>),
    Other,
}

pub enum SpecChild {
    Element(SpecElement),
    Fragment(Seq<SpecChild>),
    Text(Seq<char>),
    ExprChild(SpecExpr),
}

pub struct SpecElement {
    pub name: SpecName,
    pub attrs: Seq<SpecAttr>,
    pub children: Seq<SpecChild>,
}

// ------------------------------------------------------------------
// Views: the model each tree value denotes.
// ------------------------------------------------------------------

pub open spec fn view_name(n: ElemName) -> SpecName {
    match n {
        ElemName::Ident(s) => SpecName::Ident(s@),
        ElemName::Member(s) => SpecName::Member(s@),
        ElemName::Unsupported => SpecName::Unsupported,
    }
}

pub open spec fn view_value(v: AttrValue) -> SpecValue
    decreases v,
{
    match v {
        AttrValue::Lit(s) => SpecValue::Lit(s@),
        AttrValue::Container(x) => SpecValue::Container(view_expr(x)),
        AttrValue::Empty => SpecValue::Empty,
    }
}

pub open spec fn view_attr(a: JsxAttr) -> SpecAttr
    decreases a,
{
    SpecAttr { name: a.name@, value: view_value(a.value) }
}

pub open spec fn view_attrs(s: Seq<JsxAttr>) -> Seq<SpecAttr>
    decreases s,
{
    if s.len() == 0 {
        Seq::empty()
    } else {
        seq![view_attr(s[0])] + view_attrs(s.subrange(1, s.len() as int))
    }
}

pub open spec fn view_expr(x: JsxExpr) -> SpecExpr
    decreases x,
{
    match x {
        JsxExpr::Elem(e) => SpecExpr::Elem(view_elem(e)),
        JsxExpr::Frag(cs) => SpecExpr::Frag(view_children(cs@)),
        JsxExpr::ArrowExpr(b) => SpecExpr::ArrowExpr(seq![view_expr(*b)]),
        JsxExpr::ArrowBlock(ss) => SpecExpr::ArrowBlock(view_stmts(ss@)),
        JsxExpr::Opaque => SpecExpr::Opaque,
    }
}

pub open spec fn view_stmt(s: JsxStmt) -> SpecStmt
    decreases s,
{
    match s {
        JsxStmt::Ret(Some(x)) => SpecStmt::Ret(Some(view_expr(x))),
        JsxStmt::Ret(None) => SpecStmt::Ret(None),
        JsxStmt::Other => SpecStmt::Other,
    }
}

pub open spec fn view_stmts(s: Seq<JsxStmt>) -> Seq<SpecStmt>
    decreases s,
{
    if s.len() == 0 {
        Seq::empty()
    } else {
        seq![view_stmt(s[0])] + view_stmts(s.subrange(1, s.len() as int))
    }
}

pub open spec fn view_child(c: JsxChild) -> SpecChild
    decreases c,
{
    match c {
        JsxChild::Element(e) => SpecChild::Element(view_elem(e)),
        JsxChild::Fragment(cs) => SpecChild::Fragment(view_children(cs@)),
        JsxChild::Text(t) => SpecChild::Text(t@),
        JsxChild::ExprChild(x) => SpecChild::ExprChild(view_expr(x)),
    }
}

pub open spec fn view_children(s: Seq<JsxChild>) -> Seq<SpecChild>
    decreases s,
{
    if s.len() == 0 {
        Seq::empty()
    } else {
        seq![view_child(s[0])] + view_children(s.subrange(1, s.len() as int))
    }
}

pub open spec fn view_elem(e: JsxElement) -> SpecElement
    decreases e,
{
    SpecElement {
        name: view_name(e.name),
        attrs: view_attrs(e.attrs@),
        children: view_children(e.children@),
    }
}

// ------------------------------------------------------------------
// The sequence views, element by element.
// ------------------------------------------------------------------

pub proof fn lemma_view_attrs_index(s: Seq<JsxAttr>)
    ensures
        view_attrs(s).len() == s.len(),
        forall|i: int| 0 <= i < s.len() ==> view_attrs(s)[i] == view_attr(s[i]),
    decreases s,
{
    if s.len() > 0 {
        lemma_view_attrs_index(s.subrange(1, s.len() as int));
    }
}

pub proof fn lemma_view_stmts_index(s: Seq<JsxStmt>)
    ensures
        view_stmts(s).len() == s.len(),
        forall|i: int| 0 <= i < s.len() ==> view_stmts(s)[i] == view_stmt(s[i]),
    decreases s,
{
    if s.len() > 0 {
        lemma_view_stmts_index(s.subrange(1, s.len() as int));
    }
}

pub proof fn lemma_view_children_index(s: Seq<JsxChild>)
    ensures
        view_children(s).len() == s.len(),
        forall|i: int| 0 <= i < s.len() ==> view_children(s)[i] == view_child(s[i]),
    decreases s,
{
    if s.len() > 0 {
        lemma_view_children_index(s.subrange(1, s.len() as int));
    }
}

} // verus!
