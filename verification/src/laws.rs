use vstd::prelude::*;
use crate::hyphen::class_name_of;
use crate::rewrite::{
    class_attr, fragment_marker, has_class_attr, lemma_rw_attrs_index, lemma_rw_stmts_index,
    resolved_name, rw_attr, rw_children, rw_elem, rw_expr, rw_exprs, rw_stmts, takes_class,
};
use crate::tree::{SpecAttr, SpecElement, SpecExpr, SpecStmt, SpecValue};

verus! {

/// An element that takes a class and carried no class attribute has,
/// after the rewrite, exactly one: a new attribute at the very end of
/// the list, a string literal holding exactly the computed class name,
/// while no earlier attribute acquires that name.
pub proof fn lemma_fresh_class_attr(e: SpecElement, stem: Seq<char>)
    requires
        takes_class(e.name),
        !has_class_attr(e.attrs),
    ensures
        rw_elem(e, stem).attrs.len() == e.attrs.len() + 1,
        rw_elem(e, stem).attrs.last() == (SpecAttr {
            name: class_attr(),
            value: SpecValue::Lit(class_name_of(stem, resolved_name(e.name).unwrap())),
        }),
        forall|j: int| 0 <= j < e.attrs.len() ==> rw_elem(e, stem).attrs[j].name != class_attr(),
{
    let cls = class_name_of(stem, resolved_name(e.name).unwrap());
    lemma_rw_attrs_index(e.attrs, stem, cls);
    assert forall|j: int| 0 <= j < e.attrs.len() implies rw_elem(e, stem).attrs[j].name
        != class_attr() by {
        assert(rw_elem(e, stem).attrs[j] == rw_attr(e.attrs[j], stem, cls));
        assert(e.attrs[j].name != class_attr());
    }
}

/// An element that takes a class and already carried one as a string
/// literal keeps its attribute count, keeps every attribute's name and
/// position, and has the computed class name appended to the literal
/// after a single space; in particular no second class attribute
/// appears.
pub proof fn lemma_merged_class_attr(e: SpecElement, stem: Seq<char>, i: int, v: Seq<char>)
    requires
        takes_class(e.name),
        0 <= i < e.attrs.len(),
        e.attrs[i].name == class_attr(),
        e.attrs[i].value == SpecValue::Lit(v),
    ensures
        rw_elem(e, stem).attrs.len() == e.attrs.len(),
        rw_elem(e, stem).attrs[i] == (SpecAttr {
            name: class_attr(),
            value: SpecValue::Lit(
                v + seq![' '] + class_name_of(stem, resolved_name(e.name).unwrap()),
            ),
        }),
        forall|j: int| 0 <= j < e.attrs.len() ==> rw_elem(e, stem).attrs[j].name
            == e.attrs[j].name,
{
    let cls = class_name_of(stem, resolved_name(e.name).unwrap());
    assert(has_class_attr(e.attrs));
    lemma_rw_attrs_index(e.attrs, stem, cls);
    assert(rw_elem(e, stem).attrs =~= crate::rewrite::rw_attrs(e.attrs, stem, cls));
    assert forall|j: int| 0 <= j < e.attrs.len() implies rw_elem(e, stem).attrs[j].name
        == e.attrs[j].name by {
        assert(rw_elem(e, stem).attrs[j] == rw_attr(e.attrs[j], stem, cls));
    }
}

/// An element named exactly like the fragment marker is never given a
/// class attribute and none of its attributes is modified, yet its
/// children are still rewritten like any others.
pub proof fn lemma_fragment_untouched(e: SpecElement, stem: Seq<char>)
    requires
        resolved_name(e.name) == Some(fragment_marker()),
    ensures
        rw_elem(e, stem).name == e.name,
        rw_elem(e, stem).attrs == e.attrs,
        rw_elem(e, stem).children == rw_children(e.children, stem),
{
}

/// A render-prop attribute whose inline function has an element as its
/// expression body carries, after the rewrite, that element rewritten
/// by the very same rule: the recursion re-enters `rw_elem`, so chains
/// of such attributes are rewritten at every depth.
pub proof fn lemma_render_prop_expr_body(
    e: SpecElement,
    stem: Seq<char>,
    i: int,
    inner: SpecElement,
)
    requires
        takes_class(e.name),
        0 <= i < e.attrs.len(),
        e.attrs[i].name != class_attr(),
        e.attrs[i].value == SpecValue::Container(
            SpecExpr::ArrowExpr(seq![SpecExpr::Elem(inner)]),
        ),
    ensures
        rw_elem(e, stem).attrs[i].value == SpecValue::Container(
            SpecExpr::ArrowExpr(seq![SpecExpr::Elem(rw_elem(inner, stem))]),
        ),
{
    let cls = class_name_of(stem, resolved_name(e.name).unwrap());
    lemma_rw_attrs_index(e.attrs, stem, cls);
    assert(rw_elem(e, stem).attrs[i] == rw_attr(e.attrs[i], stem, cls));
    let body = seq![SpecExpr::Elem(inner)];
    assert(body.subrange(1, 1) =~= Seq::<SpecExpr>::empty());
    assert(rw_exprs(Seq::<SpecExpr>::empty(), stem) =~= Seq::<SpecExpr>::empty());
    assert(rw_exprs(body, stem) =~= seq![rw_expr(SpecExpr::Elem(inner), stem)]);
}

/// The same, for an inline function with a block body: the value of
/// each `return` statement that is an element is rewritten by the same
/// rule, at its own position in the block.
pub proof fn lemma_render_prop_return(
    e: SpecElement,
    stem: Seq<char>,
    i: int,
    stmts: Seq<SpecStmt>,
    j: int,
    inner: SpecElement,
)
    requires
        takes_class(e.name),
        0 <= i < e.attrs.len(),
        e.attrs[i].name != class_attr(),
        e.attrs[i].value == SpecValue::Container(SpecExpr::ArrowBlock(stmts)),
        0 <= j < stmts.len(),
        stmts[j] == SpecStmt::Ret(Some(SpecExpr::Elem(inner))),
    ensures
        rw_elem(e, stem).attrs[i].value == SpecValue::Container(
            SpecExpr::ArrowBlock(rw_stmts(stmts, stem)),
        ),
        rw_stmts(stmts, stem)[j] == SpecStmt::Ret(Some(SpecExpr::Elem(rw_elem(inner, stem)))),
{
    let cls = class_name_of(stem, resolved_name(e.name).unwrap());
    lemma_rw_attrs_index(e.attrs, stem, cls);
    assert(rw_elem(e, stem).attrs[i] == rw_attr(e.attrs[i], stem, cls));
    lemma_rw_stmts_index(stmts, stem);
}

} // verus!
