use vstd::prelude::*;
use crate::hyphen::class_name_of;
use crate::tree::{SpecAttr, SpecChild, SpecElement, SpecExpr, SpecName, SpecStmt, SpecValue};

verus! {

/// The name of the attribute this pass owns.
pub open spec fn class_attr() -> Seq<char> {
    "className"@
}

/// The fragment marker: an element named exactly so is a grouping
/// wrapper and is never given a class of its own. Only the exact name
/// matches; a name that merely contains it is rewritten like any other.
pub open spec fn fragment_marker() -> Seq<char> {
    "Fragment"@
}

/// The displayed name of an element, when the rewrite recognises one:
/// a plain identifier as it stands, a member access by its final
/// property. Any other shape yields nothing and is left unrewritten.
pub open spec fn resolved_name(n: SpecName) -> Option<Seq<char>> {
    match n {
        SpecName::Ident(s) => Some(s),
        SpecName::Member(s) => Some(s),
        SpecName::Unsupported => None,
    }
}

/// Whether an attribute list already carries the class attribute.
pub open spec fn has_class_attr(attrs: Seq<SpecAttr>) -> bool {
    exists|i: int| 0 <= i < attrs.len() && attrs[i].name == class_attr()
}

/// An element name is eligible for a class exactly when it resolves and
/// is not the fragment marker.
pub open spec fn takes_class(n: SpecName) -> bool {
    match resolved_name(n) {
        Some(s) => s != fragment_marker(),
        None => false,
    }
}

/// One attribute after the rewrite of its element. An attribute named
/// `className` is the element's class slot: a string-literal value gets
/// the computed class appended after one space, any other value is left
/// untouched, and the rewrite never descends into the slot's value. Every
/// other attribute keeps its name and has its embedded expression, if it
/// holds one, rewritten in turn.
pub open spec fn rw_attr(a: SpecAttr, stem: Seq<char>, cls: Seq<char>) -> SpecAttr
    decreases a,
{
    if a.name == class_attr() {
        match a.value {
            SpecValue::Lit(v) => SpecAttr {
                name: a.name,
                value: SpecValue::Lit(v + seq![' '] + cls),
            },
            _ => a,
        }
    } else {
        match a.value {
            SpecValue::Container(x) => SpecAttr {
                name: a.name,
                value: SpecValue::Container(rw_expr(x, stem)),
            },
            _ => a,
        }
    }
}

pub open spec fn rw_attrs(s: Seq<SpecAttr>, stem: Seq<char>, cls: Seq<char>) -> Seq<SpecAttr>
    decreases s,
{
    if s.len() == 0 {
        Seq::empty()
    } else {
        seq![rw_attr(s[0], stem, cls)] + rw_attrs(s.subrange(1, s.len() as int), stem, cls)
    }
}

/// An expression after the rewrite: elements are rewritten, fragments
/// have their children rewritten, an inline function has its expression
/// body or the value of each of its `return` statements rewritten, and
/// an opaque expression is left as it stands.
pub open spec fn rw_expr(x: SpecExpr, stem: Seq<char>) -> SpecExpr
    decreases x,
{
    match x {
        SpecExpr::Elem(e) => SpecExpr::Elem(rw_elem(e, stem)),
        SpecExpr::Frag(cs) => SpecExpr::Frag(rw_children(cs, stem)),
        SpecExpr::ArrowExpr(es) => SpecExpr::ArrowExpr(rw_exprs(es, stem)),
        SpecExpr::ArrowBlock(ss) => SpecExpr::ArrowBlock(rw_stmts(ss, stem)),
        SpecExpr::Opaque => SpecExpr::Opaque,
    }
}

pub open spec fn rw_exprs(s: Seq<SpecExpr>, stem: Seq<char>) -> Seq<SpecExpr>
    decreases s,
{
    if s.len() == 0 {
        Seq::empty()
    } else {
        seq![rw_expr(s[0], stem)] + rw_exprs(s.subrange(1, s.len() as int), stem)
    }
}

pub open spec fn rw_stmt(s: SpecStmt, stem: Seq<char>) -> SpecStmt
    decreases s,
{
    match s {
        SpecStmt::Ret(Some(x)) => SpecStmt::Ret(Some(rw_expr(x, stem))),
        SpecStmt::Ret(None) => SpecStmt::Ret(None),
        SpecStmt::Other => SpecStmt::Other,
    }
}

pub open spec fn rw_stmts(s: Seq<SpecStmt>, stem: Seq<char>) -> Seq<SpecStmt>
    decreases s,
{
    if s.len() == 0 {
        Seq::empty()
    } else {
        seq![rw_stmt(s[0], stem)] + rw_stmts(s.subrange(1, s.len() as int), stem)
    }
}

pub open spec fn rw_child(c: SpecChild, stem: Seq<char>) -> SpecChild
    decreases c,
{
    match c {
        SpecChild::Element(e) => SpecChild::Element(rw_elem(e, stem)),
        SpecChild::Fragment(cs) => SpecChild::Fragment(rw_children(cs, stem)),
        SpecChild::Text(t) => SpecChild::Text(t),
        SpecChild::ExprChild(x) => SpecChild::ExprChild(rw_expr(x, stem)),
    }
}

pub open spec fn rw_children(s: Seq<SpecChild>, stem: Seq<char>) -> Seq<SpecChild>
    decreases s,
{
    if s.len() == 0 {
        Seq::empty()
    } else {
        seq![rw_child(s[0], stem)] + rw_children(s.subrange(1, s.len() as int), stem)
    }
}

/// An element after the rewrite. An eligible element has every attribute
/// rewritten in place and, when no class attribute was present, one new
/// class attribute appended at the very end, a string literal holding
/// the computed class name. An element whose name does not resolve, and
/// one named exactly like the fragment marker, keeps its attribute list
/// untouched. Children are rewritten in every case.
pub open spec fn rw_elem(e: SpecElement, stem: Seq<char>) -> SpecElement
    decreases e,
{
    if takes_class(e.name) {
        let cls = class_name_of(stem, resolved_name(e.name).unwrap());
        SpecElement {
            name: e.name,
            attrs: rw_attrs(e.attrs, stem, cls) + if has_class_attr(e.attrs) {
                Seq::<SpecAttr>::empty()
            } else {
                seq![SpecAttr { name: class_attr(), value: SpecValue::Lit(cls) }]
            },
            children: rw_children(e.children, stem),
        }
    } else {
        SpecElement { name: e.name, attrs: e.attrs, children: rw_children(e.children, stem) }
    }
}

// ------------------------------------------------------------------
// The sequence rewrites, element by element.
// ------------------------------------------------------------------

pub proof fn lemma_rw_attrs_index(s: Seq<SpecAttr>, stem: Seq<char>, cls: Seq<char>)
    ensures
        rw_attrs(s, stem, cls).len() == s.len(),
        forall|i: int| 0 <= i < s.len() ==> rw_attrs(s, stem, cls)[i] == rw_attr(s[i], stem, cls),
    decreases s,
{
    if s.len() > 0 {
        lemma_rw_attrs_index(s.subrange(1, s.len() as int), stem, cls);
    }
}

pub proof fn lemma_rw_exprs_index(s: Seq<SpecExpr>, stem: Seq<char>)
    ensures
        rw_exprs(s, stem).len() == s.len(),
        forall|i: int| 0 <= i < s.len() ==> rw_exprs(s, stem)[i] == rw_expr(s[i], stem),
    decreases s,
{
    if s.len() > 0 {
        lemma_rw_exprs_index(s.subrange(1, s.len() as int), stem);
    }
}

pub proof fn lemma_rw_stmts_index(s: Seq<SpecStmt>, stem: Seq<char>)
    ensures
        rw_stmts(s, stem).len() == s.len(),
        forall|i: int| 0 <= i < s.len() ==> rw_stmts(s, stem)[i] == rw_stmt(s[i], stem),
    decreases s,
{
    if s.len() > 0 {
        lemma_rw_stmts_index(s.subrange(1, s.len() as int), stem);
    }
}

pub proof fn lemma_rw_children_index(s: Seq<SpecChild>, stem: Seq<char>)
    ensures
        rw_children(s, stem).len() == s.len(),
        forall|i: int| 0 <= i < s.len() ==> rw_children(s, stem)[i] == rw_child(s[i], stem),
    decreases s,
{
    if s.len() > 0 {
        lemma_rw_children_index(s.subrange(1, s.len() as int), stem);
    }
}

} // verus!
