use add_classname::add_classname::AddClassnameVisitor;
use add_classname::tree::{AttrValue, ElemName, JsxAttr, JsxChild, JsxElement, JsxExpr, JsxStmt};

fn elem(name: &str, attrs: Vec<JsxAttr>, children: Vec<JsxChild>) -> JsxElement {
    JsxElement { name: ElemName::Ident(name.to_string()), attrs, children }
}

fn lit_attr(name: &str, value: &str) -> JsxAttr {
    JsxAttr { name: name.to_string(), value: AttrValue::Lit(value.to_string()) }
}

#[test]
fn fresh_class_attr_appended() {
    let v = AddClassnameVisitor::new("lib/File_Name.tsx");
    let e = elem("Widget", vec![], vec![]);
    let r = v.rewrite_element(e);
    assert_eq!(r.attrs.len(), 1);
    assert_eq!(r.attrs[0], lit_attr("className", "file-name-widget"));
}

#[test]
fn existing_literal_class_merged_in_place() {
    let v = AddClassnameVisitor::new("lib/File_Name.tsx");
    let e = elem(
        "TextField",
        vec![
            lit_attr("className", "no-print"),
            JsxAttr { name: "id".to_string(), value: AttrValue::Container(JsxExpr::Opaque) },
        ],
        vec![],
    );
    let r = v.rewrite_element(e);
    assert_eq!(r.attrs.len(), 2);
    assert_eq!(r.attrs[0], lit_attr("className", "no-print file-name-text-field"));
    assert_eq!(r.attrs[1].name, "id");
}

#[test]
fn dynamic_class_value_left_untouched() {
    let v = AddClassnameVisitor::new("Card.tsx");
    let e = elem(
        "Row",
        vec![JsxAttr {
            name: "className".to_string(),
            value: AttrValue::Container(JsxExpr::Opaque),
        }],
        vec![],
    );
    let r = v.rewrite_element(e);
    assert_eq!(r.attrs.len(), 1);
    assert_eq!(
        r.attrs[0],
        JsxAttr { name: "className".to_string(), value: AttrValue::Container(JsxExpr::Opaque) }
    );
}

#[test]
fn markup_inside_class_value_not_descended() {
    let v = AddClassnameVisitor::new("Card.tsx");
    let nested = elem("Inner", vec![], vec![]);
    let e = elem(
        "Row",
        vec![JsxAttr {
            name: "className".to_string(),
            value: AttrValue::Container(JsxExpr::Elem(nested)),
        }],
        vec![],
    );
    let r = v.rewrite_element(e);
    assert_eq!(r.attrs.len(), 1);
    assert_eq!(
        r.attrs[0],
        JsxAttr {
            name: "className".to_string(),
            value: AttrValue::Container(JsxExpr::Elem(elem("Inner", vec![], vec![]))),
        }
    );
}

#[test]
fn skipped_element_attr_values_not_descended() {
    let v = AddClassnameVisitor::new("Card.tsx");
    let render_prop = JsxExpr::ArrowExpr(Box::new(JsxExpr::Elem(elem("Inner", vec![], vec![]))));
    let e = JsxElement {
        name: ElemName::Unsupported,
        attrs: vec![JsxAttr {
            name: "Opener".to_string(),
            value: AttrValue::Container(render_prop),
        }],
        children: vec![],
    };
    let r = v.rewrite_element(e);
    assert_eq!(
        r.attrs[0],
        JsxAttr {
            name: "Opener".to_string(),
            value: AttrValue::Container(JsxExpr::ArrowExpr(Box::new(JsxExpr::Elem(elem(
                "Inner",
                vec![],
                vec![],
            ))))),
        }
    );
}

#[test]
fn fragment_named_element_skipped_children_visited() {
    let v = AddClassnameVisitor::new("Card.tsx");
    let e = JsxElement {
        name: ElemName::Ident("Fragment".to_string()),
        attrs: vec![lit_attr("key", "k")],
        children: vec![JsxChild::Element(elem("Inner", vec![], vec![]))],
    };
    let r = v.rewrite_element(e);
    assert_eq!(r.attrs, vec![lit_attr("key", "k")]);
    match &r.children[0] {
        JsxChild::Element(inner) => {
            assert_eq!(inner.attrs, vec![lit_attr("className", "card-inner")]);
        }
        other => panic!("unexpected child {:?}", other),
    }
}

#[test]
fn name_containing_fragment_still_rewritten() {
    let v = AddClassnameVisitor::new("Card.tsx");
    let e = elem("MyFragment", vec![], vec![]);
    let r = v.rewrite_element(e);
    assert_eq!(r.attrs, vec![lit_attr("className", "card-my-fragment")]);
}

#[test]
fn member_name_uses_final_property() {
    let v = AddClassnameVisitor::new("lib/File_Name.tsx");
    let e = JsxElement {
        name: ElemName::Member("Provider".to_string()),
        attrs: vec![],
        children: vec![],
    };
    let r = v.rewrite_element(e);
    assert_eq!(r.attrs, vec![lit_attr("className", "file-name-provider")]);
}

#[test]
fn member_fragment_skipped() {
    let v = AddClassnameVisitor::new("Card.tsx");
    let e = JsxElement {
        name: ElemName::Member("Fragment".to_string()),
        attrs: vec![],
        children: vec![],
    };
    let r = v.rewrite_element(e);
    assert!(r.attrs.is_empty());
}

#[test]
fn unsupported_name_not_rewritten() {
    let v = AddClassnameVisitor::new("Card.tsx");
    let e = JsxElement {
        name: ElemName::Unsupported,
        attrs: vec![lit_attr("role", "presentation")],
        children: vec![JsxChild::Element(elem("Inner", vec![], vec![]))],
    };
    let r = v.rewrite_element(e);
    assert_eq!(r.attrs, vec![lit_attr("role", "presentation")]);
    match &r.children[0] {
        JsxChild::Element(inner) => {
            assert_eq!(inner.attrs, vec![lit_attr("className", "card-inner")]);
        }
        other => panic!("unexpected child {:?}", other),
    }
}

#[test]
fn render_prop_expression_body_rewritten() {
    let v = AddClassnameVisitor::new("lib/File_Name.tsx");
    let opener = JsxAttr {
        name: "Opener".to_string(),
        value: AttrValue::Container(JsxExpr::ArrowExpr(Box::new(JsxExpr::Elem(elem(
            "PrimaryButton",
            vec![],
            vec![],
        ))))),
    };
    let e = elem("ModalOpener", vec![opener], vec![]);
    let r = v.rewrite_element(e);
    assert_eq!(r.attrs.len(), 2);
    match &r.attrs[0].value {
        AttrValue::Container(JsxExpr::ArrowExpr(body)) => match body.as_ref() {
            JsxExpr::Elem(inner) => {
                assert_eq!(inner.attrs, vec![lit_attr("className", "file-name-primary-button")]);
            }
            other => panic!("unexpected body {:?}", other),
        },
        other => panic!("unexpected value {:?}", other),
    }
    assert_eq!(r.attrs[1], lit_attr("className", "file-name-modal-opener"));
}

#[test]
fn render_prop_block_return_rewritten() {
    let v = AddClassnameVisitor::new("lib/File_Name.tsx");
    let modal = JsxAttr {
        name: "Modal".to_string(),
        value: AttrValue::Container(JsxExpr::ArrowBlock(vec![
            JsxStmt::Other,
            JsxStmt::Ret(Some(JsxExpr::Elem(elem("ConfirmationDialog", vec![], vec![])))),
        ])),
    };
    let e = elem("ModalOpener", vec![modal], vec![]);
    let r = v.rewrite_element(e);
    match &r.attrs[0].value {
        AttrValue::Container(JsxExpr::ArrowBlock(stmts)) => {
            assert_eq!(stmts[0], JsxStmt::Other);
            match &stmts[1] {
                JsxStmt::Ret(Some(JsxExpr::Elem(inner))) => {
                    assert_eq!(
                        inner.attrs,
                        vec![lit_attr("className", "file-name-confirmation-dialog")]
                    );
                }
                other => panic!("unexpected statement {:?}", other),
            }
        }
        other => panic!("unexpected value {:?}", other),
    }
}

#[test]
fn render_props_nested_two_levels() {
    let v = AddClassnameVisitor::new("lib/File_Name.tsx");
    let deep = JsxExpr::ArrowExpr(Box::new(JsxExpr::Elem(elem(
        "AlertBubble",
        vec![],
        vec![],
    ))));
    let mid = elem(
        "Route",
        vec![JsxAttr { name: "children".to_string(), value: AttrValue::Container(deep) }],
        vec![],
    );
    let outer = JsxExpr::ArrowExpr(Box::new(JsxExpr::Elem(mid)));
    let e = elem(
        "Link",
        vec![JsxAttr { name: "Inner".to_string(), value: AttrValue::Container(outer) }],
        vec![],
    );
    let r = v.rewrite_element(e);
    match &r.attrs[0].value {
        AttrValue::Container(JsxExpr::ArrowExpr(b1)) => match b1.as_ref() {
            JsxExpr::Elem(route) => {
                assert_eq!(route.attrs[1], lit_attr("className", "file-name-route"));
                match &route.attrs[0].value {
                    AttrValue::Container(JsxExpr::ArrowExpr(b2)) => match b2.as_ref() {
                        JsxExpr::Elem(bubble) => {
                            assert_eq!(
                                bubble.attrs,
                                vec![lit_attr("className", "file-name-alert-bubble")]
                            );
                        }
                        other => panic!("unexpected inner body {:?}", other),
                    },
                    other => panic!("unexpected inner value {:?}", other),
                }
            }
            other => panic!("unexpected body {:?}", other),
        },
        other => panic!("unexpected value {:?}", other),
    }
}

#[test]
fn whole_module_expression_rewritten() {
    // const C = () => <Widget />; in lib/File_Name.tsx
    let v = AddClassnameVisitor::new("lib/File_Name.tsx");
    let module_expr = JsxExpr::ArrowExpr(Box::new(JsxExpr::Elem(elem("Widget", vec![], vec![]))));
    let r = v.rewrite_expr(module_expr);
    match r {
        JsxExpr::ArrowExpr(body) => match *body {
            JsxExpr::Elem(w) => {
                assert_eq!(w.attrs, vec![lit_attr("className", "file-name-widget")]);
            }
            other => panic!("unexpected body {:?}", other),
        },
        other => panic!("unexpected expression {:?}", other),
    }
}

#[test]
fn nested_children_rewritten_in_card() {
    // <Row><Inner className="x" /></Row> in Card.tsx
    let v = AddClassnameVisitor::new("Card.tsx");
    let inner = elem("Inner", vec![lit_attr("className", "x")], vec![]);
    let row = elem("Row", vec![], vec![JsxChild::Element(inner)]);
    let r = v.rewrite_element(row);
    assert_eq!(r.attrs, vec![lit_attr("className", "card-row")]);
    match &r.children[0] {
        JsxChild::Element(i) => {
            assert_eq!(i.attrs, vec![lit_attr("className", "x card-inner")]);
        }
        other => panic!("unexpected child {:?}", other),
    }
}

#[test]
fn fragment_children_and_text_kept() {
    let v = AddClassnameVisitor::new("Card.tsx");
    let frag = JsxChild::Fragment(vec![
        JsxChild::Text("Some text".to_string()),
        JsxChild::Element(elem("Inner", vec![], vec![])),
        JsxChild::ExprChild(JsxExpr::Opaque),
    ]);
    let r = v.rewrite_child(frag);
    match r {
        JsxChild::Fragment(kids) => {
            assert_eq!(kids[0], JsxChild::Text("Some text".to_string()));
            match &kids[1] {
                JsxChild::Element(i) => {
                    assert_eq!(i.attrs, vec![lit_attr("className", "card-inner")]);
                }
                other => panic!("unexpected child {:?}", other),
            }
            assert_eq!(kids[2], JsxChild::ExprChild(JsxExpr::Opaque));
        }
        other => panic!("unexpected child {:?}", other),
    }
}

#[test]
fn in_place_visit_element() {
    let v = AddClassnameVisitor::new("Card.tsx");
    let mut e = elem("Row", vec![], vec![]);
    v.visit_element(&mut e);
    assert_eq!(e.attrs, vec![lit_attr("className", "card-row")]);
}

#[test]
fn in_place_visit_expr_opaque_unchanged() {
    let v = AddClassnameVisitor::new("Card.tsx");
    let mut x = JsxExpr::Opaque;
    v.visit_expr(&mut x);
    assert_eq!(x, JsxExpr::Opaque);
}
