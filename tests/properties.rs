use codegen::{Attr, Block, Formatter, Scope};

fn strip_indentation(s: &str) -> Vec<String> {
    s.split('\n').map(|l| l.trim_start_matches(' ').to_string()).collect()
}

fn sample_scope() -> Scope {
    let mut scope = Scope::new();
    scope.import("std::fmt", "Debug");
    {
        let m = scope.new_module("shapes");
        m.new_struct("Point").derive("Debug").field("x", "i32").field("y", "i32");
        let f = m.new_fn("origin");
        f.ret("Point").line("Point {\n    x: 0,\n    y: 0,\n}");
    }
    scope
}

#[test]
fn struct_attributes_in_fixed_order() {
    let mut scope = Scope::new();
    scope.new_struct("Foo").repr("C").derive("Debug").allow("dead_code").field("one", "u8");
    assert_eq!(
        scope.to_string(),
        "#[allow(dead_code)]\n#[derive(Debug)]\n#[repr(C)]\nstruct Foo {\n    one: u8,\n}"
    );
}

#[test]
fn import_same_pair_twice() {
    let mut scope = Scope::new();
    scope.import("bar", "Bar");
    scope.import("bar", "Bar");
    scope.new_struct("Foo");
    assert_eq!(scope.to_string(), "use bar::Bar;\n\nstruct Foo;");
}

#[test]
fn import_twice_keeps_first_visibility() {
    let mut scope = Scope::new();
    scope.import("bar", "Bar").vis("pub");
    let again = scope.import("bar", "Bar");
    assert_eq!(again.vis.as_deref(), Some("pub"));
    assert_eq!(scope.to_string(), "pub use bar::Bar;\n");
}

#[test]
fn imports_grouped_by_visibility_then_path() {
    let mut scope = Scope::new();
    scope.import("a", "X").vis("pub");
    scope.import("b", "Y");
    scope.import("a", "Z");
    scope.import("b", "W").vis("pub");
    scope.new_struct("S");
    assert_eq!(
        scope.to_string(),
        "pub use a::X;\npub use b::W;\nuse a::Z;\nuse b::Y;\n\nstruct S;"
    );
}

#[test]
fn import_takes_first_segment() {
    let mut scope = Scope::new();
    scope.import("x", "y::z::W");
    scope.new_struct("S");
    assert_eq!(scope.to_string(), "use x::y;\n\nstruct S;");
}

#[test]
fn render_twice_identical() {
    let scope = sample_scope();
    let first = scope.to_string();
    let second = scope.to_string();
    assert_eq!(first, second);
    assert!(first.contains("mod shapes {"));
}

#[test]
fn indent_unit_changes_only_indentation() {
    let scope = sample_scope();
    let mut two = Formatter::new();
    two.set_indent(2);
    scope.fmt(&mut two);
    let two = two.into_string();
    let mut eight = Formatter::new();
    eight.set_indent(8);
    scope.fmt(&mut eight);
    let eight = eight.into_string();
    assert_ne!(two, eight);
    assert_eq!(strip_indentation(&two), strip_indentation(&eight));
    assert!(two.contains("\n  struct Point {\n    x: i32,"));
    assert!(eight.contains("\n        struct Point {\n                x: i32,"));
}

#[test]
fn scope_docs_attributes_and_imports() {
    let mut scope = Scope::new();
    scope.doc("Generated.");
    let mut attr = Attr::new("allow");
    attr.arg_delimited("unused");
    scope.push_attr(attr);
    scope.import("std::fmt", "Debug");
    scope.new_struct("S");
    assert_eq!(
        scope.to_string(),
        "//! Generated.\n\n#![allow(unused)]\n\nuse std::fmt::Debug;\n\nstruct S;"
    );
}

#[test]
fn attribute_forms() {
    let plain = Attr::new("inline");
    let mut expr = Attr::new("path");
    expr.arg_expr("\"x.rs\"");
    let mut fmt = Formatter::new();
    plain.fmt(&mut fmt, false);
    expr.fmt(&mut fmt, true);
    assert_eq!(fmt.into_string(), "#[inline]\n#![path = \"x.rs\"]\n");
}

#[test]
fn const_with_visibility() {
    let mut scope = Scope::new();
    scope.new_const("X", "u8").value("1").vis("pub");
    assert_eq!(scope.to_string(), "pub const X: u8 = 1;");
}

#[test]
fn impl_of_trait_with_generics_and_associated_type() {
    let mut scope = Scope::new();
    let imp = scope.new_impl("Foo");
    imp.generic("T");
    imp.target_generic("T");
    imp.impl_trait("Iterator");
    imp.associate_type("Item", "T");
    imp.bound("T", "Clone");
    imp.new_fn("next").arg_mut_self().ret("Option<T>").line("None");
    assert_eq!(
        scope.to_string(),
        "impl<T> Iterator for Foo<T>\nwhere T: Clone,\n{\n    type Item = T;\n\n    fn next(&mut self) -> Option<T> {\n        None\n    }\n}"
    );
}

#[test]
fn trait_with_parents_and_associated_type() {
    let mut scope = Scope::new();
    let t = scope.new_trait("Shape");
    t.vis("pub");
    t.parent("Debug");
    t.parent("Clone");
    t.associated_type("Unit").bound("Copy");
    t.new_fn("area").arg_ref_self().ret("f64");
    assert_eq!(
        scope.to_string(),
        "pub trait Shape: Debug + Clone {\n    type Unit: Copy;\n\n    fn area(&self) -> f64;\n}"
    );
}

#[test]
fn function_with_full_signature() {
    let mut scope = Scope::new();
    let f = scope.new_fn("run");
    f.doc("Runs it.");
    f.allow("unused");
    f.attr("inline");
    f.vis("pub");
    f.extern_abi("C");
    f.generic("T");
    f.arg("x", "T");
    f.arg("y", "u8");
    f.bound("T", "Copy");
    f.line("x");
    assert_eq!(
        scope.to_string(),
        "/// Runs it.\n#[allow(unused)]\n#[inline]\npub extern \"C\" fn run<T>(x: T, y: u8)\nwhere T: Copy,\n{\n    x\n}"
    );
}

#[test]
fn nested_blocks_with_before_and_after() {
    let mut scope = Scope::new();
    let mut outer = Block::new("if x");
    outer.line("y();");
    let mut inner = Block::new("loop");
    inner.line("break;");
    outer.push_block(inner);
    outer.after(";");
    scope.new_fn("f").push_block(outer);
    assert_eq!(
        scope.to_string(),
        "fn f() {\n    if x {\n        y();\n        loop {\n            break;\n        }\n    };\n}"
    );
}

#[test]
fn enum_with_tuple_and_unit_variants() {
    let mut scope = Scope::new();
    let e = scope.new_enum("Shape");
    e.new_variant("Circle").tuple("f64");
    e.new_variant("Empty");
    assert_eq!(scope.to_string(), "enum Shape {\n    Circle(f64),\n    Empty,\n}");
}

#[test]
fn discriminant_enum_without_values() {
    let mut scope = Scope::new();
    let e = scope.new_discriminant_enum("E");
    e.new_variant("A");
    e.new_variant("B");
    assert_eq!(scope.to_string(), "enum E {\n    A,\n    B,\n}");
}

#[test]
fn doc_lines_keep_empty_lines() {
    let mut scope = Scope::new();
    scope.new_struct("S").doc("a\n\nb\n");
    assert_eq!(scope.to_string(), "/// a\n/// \n/// b\nstruct S;");
}

#[test]
fn missing_module_is_none() {
    let mut scope = Scope::new();
    scope.new_module("a");
    assert!(scope.get_module_mut("b").is_none());
    assert!(scope.get_module("a").is_some());
}

#[test]
fn raw_item_verbatim() {
    let mut scope = Scope::new();
    scope.raw("// hi");
    scope.new_struct("S");
    assert_eq!(scope.to_string(), "// hi\n\nstruct S;");
}

#[test]
fn nested_modules_indent() {
    let mut scope = Scope::new();
    scope.new_module("a").vis("pub").new_module("b").new_struct("S");
    assert_eq!(scope.to_string(), "pub mod a {\n    mod b {\n        struct S;\n    }\n}");
}

#[test]
fn module_with_only_imports() {
    let mut scope = Scope::new();
    scope.new_module("m").import("a", "B");
    assert_eq!(scope.to_string(), "mod m {\n    use a::B;\n\n}");
}

#[test]
fn block_attaches_brace_and_restores_depth() {
    let mut fmt = Formatter::new();
    fmt.write("fn f()");
    fmt.block(|f: &mut Formatter| {
        f.write("x\n");
        f.block(|g: &mut Formatter| g.write("y\n"));
    });
    fmt.write("z\n");
    assert_eq!(fmt.into_string(), "fn f() {\n    x\n    {\n        y\n    }\n}\nz\n");
}

#[test]
fn multiline_write_indents_every_line() {
    let mut fmt = Formatter::new();
    fmt.indent(|f: &mut Formatter| f.write("a\nb\n\nc"));
    fmt.write("\nd\n");
    assert_eq!(fmt.into_string(), "    a\n    b\n\n    c\nd\n");
}

#[test]
fn doc_lines_drop_carriage_returns() {
    let mut scope = Scope::new();
    scope.new_struct("S").doc("a\r\nb\r\n");
    assert_eq!(scope.to_string(), "/// a\n/// b\nstruct S;");
}

#[test]
fn new_fn_in_trait_is_a_bare_declaration() {
    let mut scope = Scope::new();
    scope.new_trait("T").new_fn("f");
    assert_eq!(scope.to_string(), "trait T {\n    fn f();\n}");
}
