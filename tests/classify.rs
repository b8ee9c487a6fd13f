use bach::doc::{Definition, Variable};

fn derive(s: &str) -> Option<Definition> {
    Definition::derive(s.to_string())
}

#[test]
fn class_line_is_a_class() {
    match derive("public class Foo {") {
        Some(Definition::Class(c)) => {
            assert_eq!(c.get_name(), "Foo");
            assert_eq!(c.modifiers, "public ");
            assert_eq!(c.raw(), "public class Foo ");
            assert!(c.fields.is_empty());
        }
        other => panic!("expected a class, got {:?}", other),
    }
}

#[test]
fn field_line_is_a_field() {
    match derive("private int count;") {
        Some(Definition::Field(f)) => {
            assert_eq!(f.name, "count");
            assert_eq!(f.modifiers, "private ");
            assert_eq!(f.raw, "private int count;");
        }
        other => panic!("expected a field, got {:?}", other),
    }
}

#[test]
fn method_with_empty_parens() {
    match derive("public void run() {") {
        Some(Definition::Method(m)) => {
            assert_eq!(m.name, "run");
            assert_eq!(m.modifiers, "public ");
            assert_eq!(m.raw, "public void run() ");
            assert_eq!(m.args.map(|a| a.len()), Some(0));
        }
        other => panic!("expected a method, got {:?}", other),
    }
}

#[test]
fn method_with_two_parameters() {
    match derive("public void add(int x, String y) {") {
        Some(Definition::Method(m)) => {
            assert_eq!(m.name, "add");
            let args = m.args.expect("a parameter list");
            assert_eq!(args.len(), 2);
            assert_eq!((args[0].ty.as_str(), args[0].name.as_str()), ("int", "x"));
            assert_eq!((args[1].ty.as_str(), args[1].name.as_str()), ("String", "y"));
        }
        other => panic!("expected a method, got {:?}", other),
    }
}

#[test]
fn closing_brace_is_not_recognized() {
    assert!(derive("}").is_none());
}

#[test]
fn blank_line_is_not_recognized() {
    assert!(derive("   ").is_none());
    assert!(derive("").is_none());
}

#[test]
fn single_token_and_annotation_are_not_recognized() {
    assert!(derive("return;").is_none());
    assert!(derive("@Override").is_none());
    assert!(derive("@Override public void f()").is_none());
    assert!(derive("// int x;").is_none());
}

#[test]
fn modifiers_are_case_insensitive_and_kept_verbatim() {
    match derive("  PUBLIC   Static final int MAX = 3;") {
        Some(Definition::Field(f)) => {
            assert_eq!(f.name, "MAX");
            assert_eq!(f.modifiers, "PUBLIC   Static final ");
            assert_eq!(f.raw, "  PUBLIC   Static final int MAX = 3;");
        }
        other => panic!("expected a field, got {:?}", other),
    }
}

#[test]
fn class_needs_the_exact_lowercase_word() {
    match derive("public Class Foo") {
        Some(Definition::Field(f)) => assert_eq!(f.name, "Foo"),
        other => panic!("expected a field, got {:?}", other),
    }
}

#[test]
fn malformed_parameter_makes_a_field() {
    match derive("void f(final int x) {") {
        Some(Definition::Field(f)) => {
            assert_eq!(f.name, "f");
            assert_eq!(f.raw, "void f(final int x) {");
        }
        other => panic!("expected a field, got {:?}", other),
    }
}

#[test]
fn unclosed_parameter_list_makes_a_field() {
    match derive("int g(int a,") {
        Some(Definition::Field(f)) => assert_eq!(f.name, "g"),
        other => panic!("expected a field, got {:?}", other),
    }
}

#[test]
fn blank_parameter_list_is_empty() {
    match derive("void h(  ) {{") {
        Some(Definition::Method(m)) => {
            assert_eq!(m.args.map(|a| a.len()), Some(0));
            assert_eq!(m.raw, "void h(  ) ");
        }
        other => panic!("expected a method, got {:?}", other),
    }
}

#[test]
fn modifier_prefix_of_a_longer_word_is_a_type() {
    match derive("publicity int x;") {
        Some(Definition::Field(f)) => {
            assert_eq!(f.name, "int");
            assert_eq!(f.modifiers, "");
        }
        other => panic!("expected a field, got {:?}", other),
    }
}

#[test]
fn variable_from_two_tokens() {
    let v = Variable::from_str("  int   x ").expect("two tokens");
    assert_eq!(v.ty, "int");
    assert_eq!(v.name, "x");
    assert!(Variable::from_str("x").is_none());
    assert!(Variable::from_str("final int x").is_none());
    assert!(Variable::from_str("").is_none());
}

#[test]
fn variable_new_keeps_fields() {
    let v = Variable::new("n".to_string(), "long".to_string());
    assert_eq!(v.name, "n");
    assert_eq!(v.ty, "long");
}

#[test]
fn unicode_whitespace_separates_parameter_tokens() {
    let v = Variable::from_str("int\u{a0}x").expect("two tokens");
    assert_eq!(v.ty, "int");
    assert_eq!(v.name, "x");
    let w = Variable::from_str("\u{3000}long\u{2003}count\u{85}").expect("two tokens");
    assert_eq!((w.ty.as_str(), w.name.as_str()), ("long", "count"));
}

#[test]
fn unicode_whitespace_separates_declaration_tokens() {
    match derive("\u{a0}public\u{2002}class\u{a0}Wide {") {
        Some(Definition::Class(c)) => {
            assert_eq!(c.get_name(), "Wide");
            assert_eq!(c.modifiers, "public\u{2002}");
        }
        other => panic!("expected a class, got {:?}", other),
    }
}
