use add_classname::add_classname::AddClassnameVisitor;

#[test]
fn class_name_underscored_stem() {
    let v = AddClassnameVisitor::new("File_Name");
    assert_eq!(v.class_name("Component"), "file-name-component");
}

#[test]
fn class_name_camel_element() {
    let v = AddClassnameVisitor::new("File_Name");
    assert_eq!(v.class_name("TextField"), "file-name-text-field");
}

#[test]
fn class_name_uses_stem_of_path() {
    let v = AddClassnameVisitor::new("lib/File_Name.tsx");
    assert_eq!(v.class_name("Widget"), "file-name-widget");
}

#[test]
fn class_name_empty_path_is_degenerate() {
    let v = AddClassnameVisitor::new("");
    assert_eq!(v.class_name("Widget"), "-widget");
}

#[test]
fn stem_keeps_inner_dots() {
    let v = AddClassnameVisitor::new("a/b/c.tar.gz");
    assert_eq!(v.class_name("X"), "c.tar-x");
}

#[test]
fn stem_keeps_leading_dot_file() {
    let v = AddClassnameVisitor::new("lib/.gitignore");
    assert_eq!(v.class_name("X"), ".gitignore-x");
}

#[test]
fn stem_ignores_trailing_slash() {
    let v = AddClassnameVisitor::new("lib/");
    assert_eq!(v.class_name("Widget"), "lib-widget");
}

#[test]
fn stem_of_separators_alone_is_empty() {
    let v = AddClassnameVisitor::new("/");
    assert_eq!(v.class_name("Widget"), "-widget");
}

#[test]
fn hyphenate_camel_case() {
    let v = AddClassnameVisitor::new("x");
    assert_eq!(v.camel_to_hyphen_case("AgGridReact"), "ag-grid-react");
}

#[test]
fn hyphenate_acronym_run_not_split() {
    let v = AddClassnameVisitor::new("x");
    assert_eq!(v.camel_to_hyphen_case("XMLHttpRequest"), "xmlhttp-request");
}

#[test]
fn hyphenate_underscores() {
    let v = AddClassnameVisitor::new("x");
    assert_eq!(v.camel_to_hyphen_case("File_Name"), "file-name");
}

#[test]
fn hyphenate_lower_input_unchanged() {
    let v = AddClassnameVisitor::new("x");
    assert_eq!(v.camel_to_hyphen_case("already-lower9"), "already-lower9");
}

#[test]
fn hyphenate_folds_beyond_ascii() {
    let v = AddClassnameVisitor::new("x");
    assert_eq!(v.camel_to_hyphen_case("\u{c4}b"), "\u{e4}b");
    assert_eq!(v.camel_to_hyphen_case("a\u{c0}b"), "a-\u{e0}b");
}

#[test]
fn hyphenate_empty_is_empty() {
    let v = AddClassnameVisitor::new("x");
    assert_eq!(v.camel_to_hyphen_case(""), "");
}

#[test]
fn hyphenate_idempotent_samples() {
    let v = AddClassnameVisitor::new("x");
    for s in ["File_Name", "AgGridReact", "XMLHttpRequest", "a_B_c", "Provider"] {
        let once = v.camel_to_hyphen_case(s);
        let twice = v.camel_to_hyphen_case(&once);
        assert_eq!(twice, once);
    }
}
