use vstd::prelude::*;
use vstd::string::StringExecFns;
use core::mem::swap;
use crate::add_classname::AddClassnameVisitor;
use crate::rewrite::{
    class_attr, has_class_attr, lemma_rw_attrs_index, lemma_rw_children_index,
    lemma_rw_stmts_index, resolved_name, rw_attr, rw_attrs, rw_child, rw_children, rw_elem,
    rw_expr, rw_exprs, rw_stmt, rw_stmts, takes_class,
};
use crate::tree::{
    lemma_view_attrs_index, lemma_view_children_index, lemma_view_stmts_index, view_attr,
    view_attrs, view_child, view_children, view_elem, view_expr, view_name, view_stmt, view_stmts,
    AttrValue, ElemName, JsxAttr, JsxChild, JsxElement, JsxExpr, JsxStmt,
};

verus! {

impl AddClassnameVisitor {
    /// One attribute of an element that takes a class: the class slot is
    /// merged or left alone, every other attribute has its embedded
    /// expression rewritten. Also reports whether this was the slot.
    fn visit_attr(&self, a: JsxAttr, cls: &str) -> (r: (JsxAttr, bool))
        ensures
            view_attr(r.0) == rw_attr(view_attr(a), self.stem(), cls@),
            r.1 == (view_attr(a).name == class_attr()),
        decreases a,
    {
        let JsxAttr { name, value } = a;
        let cn = String::from_str("className");
        if name == cn {
            match value {
                AttrValue::Lit(v) => {
                    let mut nv = v;
                    nv.append(" ");
                    nv.append(cls);
                    proof {
                        reveal_strlit(" ");
                        assert(" "@ =~= seq![' ']);
                    }
                    (JsxAttr { name, value: AttrValue::Lit(nv) }, true)
                },
                other => (JsxAttr { name, value: other }, true),
            }
        } else {
            match value {
                AttrValue::Container(x) => {
                    proof {
                        assert(decreases_to!(a => a.value));
                    }
                    let x2 = self.rewrite_expr(x);
                    (JsxAttr { name, value: AttrValue::Container(x2) }, false)
                },
                other => (JsxAttr { name, value: other }, false),
            }
        }
    }

    /// The attribute pass of one element: every attribute rewritten in
    /// place, order and count kept; reports whether a class slot was met.
    #[verifier::loop_isolation(false)]
    fn rewrite_attr_list(&self, v: Vec<JsxAttr>, cls: &str) -> (r: (Vec<JsxAttr>, bool))
        ensures
            view_attrs(r.0@) == rw_attrs(view_attrs(v@), self.stem(), cls@),
            r.1 == has_class_attr(view_attrs(v@)),
        decreases v@,
    {
        let ghost orig = v@;
        let mut v = v;
        let mut found = false;
        let mut i: usize = 0;
        while i < v.len()
            invariant
                v@.len() == orig.len(),
                0 <= i <= orig.len(),
                forall|k: int| i <= k < orig.len() ==> v@[k] == orig[k],
                forall|k: int|
                    0 <= k < i ==> view_attr(v@[k]) == rw_attr(
                        view_attr(orig[k]),
                        self.stem(),
                        cls@,
                    ),
                found == exists|k: int| 0 <= k < i && view_attr(orig[k]).name == class_attr(),
            decreases orig.len() - i,
        {
            let a = v.remove(i);
            proof {
                assert(a == orig[i as int]);
                assert(decreases_to!(orig => orig[i as int]));
            }
            let (a2, is_cls) = self.visit_attr(a, cls);
            v.insert(i, a2);
            proof {
                if is_cls {
                    assert(view_attr(orig[i as int]).name == class_attr());
                }
            }
            if is_cls {
                found = true;
            }
            i = i + 1;
        }
        proof {
            lemma_view_attrs_index(orig);
            lemma_view_attrs_index(v@);
            lemma_rw_attrs_index(view_attrs(orig), self.stem(), cls@);
            assert(view_attrs(v@) =~= rw_attrs(view_attrs(orig), self.stem(), cls@));
            if has_class_attr(view_attrs(orig)) {
                let k = choose|k: int|
                    0 <= k < view_attrs(orig).len() && view_attrs(orig)[k].name == class_attr();
                assert(view_attr(orig[k]).name == class_attr());
            }
            if exists|k: int| 0 <= k < orig.len() && view_attr(orig[k]).name == class_attr() {
                let k = choose|k: int|
                    0 <= k < orig.len() && view_attr(orig[k]).name == class_attr();
                assert(view_attrs(orig)[k].name == class_attr());
            }
        }
        (v, found)
    }

    /// The child pass: every child rewritten in place, order kept.
    #[verifier::loop_isolation(false)]
    fn rewrite_child_list(&self, v: Vec<JsxChild>) -> (r: Vec<JsxChild>)
        ensures
            view_children(r@) == rw_children(view_children(v@), self.stem()),
        decreases v@,
    {
        let ghost orig = v@;
        let mut v = v;
        let mut i: usize = 0;
        while i < v.len()
            invariant
                v@.len() == orig.len(),
                0 <= i <= orig.len(),
                forall|k: int| i <= k < orig.len() ==> v@[k] == orig[k],
                forall|k: int|
                    0 <= k < i ==> view_child(v@[k]) == rw_child(view_child(orig[k]), self.stem()),
            decreases orig.len() - i,
        {
            let c = v.remove(i);
            proof {
                assert(c == orig[i as int]);
                assert(decreases_to!(orig => orig[i as int]));
            }
            let c2 = self.rewrite_child(c);
            v.insert(i, c2);
            i = i + 1;
        }
        proof {
            lemma_view_children_index(orig);
            lemma_view_children_index(v@);
            lemma_rw_children_index(view_children(orig), self.stem());
            assert(view_children(v@) =~= rw_children(view_children(orig), self.stem()));
        }
        v
    }

    /// The statement pass of an inline function's block body.
    #[verifier::loop_isolation(false)]
    fn rewrite_stmt_list(&self, v: Vec<JsxStmt>) -> (r: Vec<JsxStmt>)
        ensures
            view_stmts(r@) == rw_stmts(view_stmts(v@), self.stem()),
        decreases v@,
    {
        let ghost orig = v@;
        let mut v = v;
        let mut i: usize = 0;
        while i < v.len()
            invariant
                v@.len() == orig.len(),
                0 <= i <= orig.len(),
                forall|k: int| i <= k < orig.len() ==> v@[k] == orig[k],
                forall|k: int|
                    0 <= k < i ==> view_stmt(v@[k]) == rw_stmt(view_stmt(orig[k]), self.stem()),
            decreases orig.len() - i,
        {
            let s = v.remove(i);
            proof {
                assert(s == orig[i as int]);
                assert(decreases_to!(orig => orig[i as int]));
            }
            let s2 = self.rewrite_stmt(s);
            v.insert(i, s2);
            i = i + 1;
        }
        proof {
            lemma_view_stmts_index(orig);
            lemma_view_stmts_index(v@);
            lemma_rw_stmts_index(view_stmts(orig), self.stem());
            assert(view_stmts(v@) =~= rw_stmts(view_stmts(orig), self.stem()));
        }
        v
    }

    /// One statement: the value of a `return` is rewritten, anything
    /// else is left as it stands.
    fn rewrite_stmt(&self, s: JsxStmt) -> (r: JsxStmt)
        ensures
            view_stmt(r) == rw_stmt(view_stmt(s), self.stem()),
        decreases s,
    {
        match s {
            JsxStmt::Ret(Some(x)) => JsxStmt::Ret(Some(self.rewrite_expr(x))),
            JsxStmt::Ret(None) => JsxStmt::Ret(None),
            JsxStmt::Other => JsxStmt::Other,
        }
    }

    /// One child of an element or fragment, rewritten.
    pub fn rewrite_child(&self, c: JsxChild) -> (r: JsxChild)
        ensures
            view_child(r) == rw_child(view_child(c), self.stem()),
        decreases c,
    {
        match c {
            JsxChild::Element(e) => JsxChild::Element(self.rewrite_element(e)),
            JsxChild::Fragment(cs) => JsxChild::Fragment(self.rewrite_child_list(cs)),
            JsxChild::Text(t) => JsxChild::Text(t),
            JsxChild::ExprChild(x) => JsxChild::ExprChild(self.rewrite_expr(x)),
        }
    }

    /// One expression, rewritten: elements and fragments directly, an
    /// inline function through its expression body or the values of its
    /// `return` statements, anything else untouched.
    pub fn rewrite_expr(&self, x: JsxExpr) -> (r: JsxExpr)
        ensures
            view_expr(r) == rw_expr(view_expr(x), self.stem()),
        decreases x,
    {
        match x {
            JsxExpr::Elem(e) => JsxExpr::Elem(self.rewrite_element(e)),
            JsxExpr::Frag(cs) => JsxExpr::Frag(self.rewrite_child_list(cs)),
            JsxExpr::ArrowExpr(b) => {
                let ghost bodyv = view_expr(*b);
                let inner2 = self.rewrite_expr(*b);
                proof {
                    assert(seq![bodyv].subrange(1, 1) =~= Seq::<crate::tree::SpecExpr>::empty());
                    assert(rw_exprs(Seq::<crate::tree::SpecExpr>::empty(), self.stem())
                        =~= Seq::<crate::tree::SpecExpr>::empty());
                    assert(rw_exprs(seq![bodyv], self.stem()) =~= seq![
                        rw_expr(bodyv, self.stem()),
                    ]);
                }
                JsxExpr::ArrowExpr(Box::new(inner2))
            },
            JsxExpr::ArrowBlock(ss) => JsxExpr::ArrowBlock(self.rewrite_stmt_list(ss)),
            JsxExpr::Opaque => JsxExpr::Opaque,
        }
    }

    /// One element, rewritten: its class name is computed from the file
    /// stem and its resolved name, its attribute list is rewritten, a
    /// class attribute is appended when none was present, and all of its
    /// children are rewritten. An element whose name does not resolve,
    /// and one named exactly like the fragment marker, keeps its
    /// attributes and only has its children rewritten.
    pub fn rewrite_element(&self, e: JsxElement) -> (r: JsxElement)
        ensures
            view_elem(r) == rw_elem(view_elem(e), self.stem()),
        decreases e,
    {
        let JsxElement { name, attrs, children } = e;
        let cls_opt: Option<String> = match &name {
            ElemName::Ident(s) => {
                let frag = String::from_str("Fragment");
                if *s == frag {
                    None
                } else {
                    Some(self.class_name(s.as_str()))
                }
            },
            ElemName::Member(s) => {
                let frag = String::from_str("Fragment");
                if *s == frag {
                    None
                } else {
                    Some(self.class_name(s.as_str()))
                }
            },
            ElemName::Unsupported => None,
        };
        proof {
            assert(takes_class(view_name(name)) == (cls_opt is Some));
        }
        match cls_opt {
            Some(cls) => {
                proof {
                    assert(cls@ == crate::hyphen::class_name_of(
                        self.stem(),
                        resolved_name(view_name(name)).unwrap(),
                    ));
                }
                let (mut new_attrs, found) = self.rewrite_attr_list(attrs, cls.as_str());
                let ghost merged = view_attrs(new_attrs@);
                let ghost before = new_attrs@;
                if !found {
                    new_attrs.push(JsxAttr { name: String::from_str("className"), value: AttrValue::Lit(cls) });
                    proof {
                        lemma_view_attrs_index(new_attrs@);
                        lemma_view_attrs_index(before);
                        assert(forall|k: int| 0 <= k < before.len() ==> new_attrs@[k] == before[k]);
                        assert(view_attrs(new_attrs@) =~= merged + seq![
                            view_attr(new_attrs@.last()),
                        ]);
                    }
                }
                let new_children = self.rewrite_child_list(children);
                let r = JsxElement { name, attrs: new_attrs, children: new_children };
                proof {
                    assert(view_elem(r).attrs =~= rw_elem(view_elem(e), self.stem()).attrs);
                }
                r
            },
            None => {
                let new_children = self.rewrite_child_list(children);
                JsxElement { name, attrs, children: new_children }
            },
        }
    }

    /// Rewrites an element in place.
    pub fn visit_element(&self, e: &mut JsxElement)
        ensures
            view_elem(*final(e)) == rw_elem(view_elem(*old(e)), self.stem()),
    {
        let mut tmp = JsxElement {
            name: ElemName::Unsupported,
            attrs: Vec::new(),
            children: Vec::new(),
        };
        swap(e, &mut tmp);
        let mut tmp2 = self.rewrite_element(tmp);
        swap(e, &mut tmp2);
    }

    /// Rewrites an expression in place.
    pub fn visit_expr(&self, x: &mut JsxExpr)
        ensures
            view_expr(*final(x)) == rw_expr(view_expr(*old(x)), self.stem()),
    {
        let mut tmp = JsxExpr::Opaque;
        swap(x, &mut tmp);
        let mut tmp2 = self.rewrite_expr(tmp);
        swap(x, &mut tmp2);
    }
}

} // verus!
