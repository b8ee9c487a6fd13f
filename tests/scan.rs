use bach::doc::{ClassDef, Definition, Doc, FieldDef, MethodDef};
use bach::scan::{scan_all, Scanner};

fn file(lines: &[&str]) -> Vec<String> {
    lines.iter().map(|s| s.to_string()).collect()
}

fn kind(d: &Definition) -> &'static str {
    match d {
        Definition::Class(_) => "class",
        Definition::Field(_) => "field",
        Definition::Method(_) => "method",
        Definition::Undefined => "undefined",
    }
}

fn shape(docs: &[Doc]) -> Vec<(String, String, Vec<String>, usize)> {
    docs.iter()
        .map(|d| {
            let n = match &d.def {
                Definition::Class(c) => c.fields.len(),
                _ => 0,
            };
            (kind(&d.def).to_string(), d.name().to_string(), d.tag.clone(), n)
        })
        .collect()
}

const SAMPLE: &[&str] = &[
    "package com.example.shapes;",
    "",
    "/// A shape on the plane.",
    "/// It has an area.",
    "public class Shape {",
    "    /// The number of sides.",
    "    private int sides;",
    "",
    "    /// Scales the shape.",
    "    public void scale(int factor, double by) {",
    "    }",
    "}",
];

#[test]
fn comment_run_becomes_one_node_with_all_lines() {
    let docs = scan_all(vec![file(&[
        "/// one",
        "/// two",
        "/// three",
        "public class Foo {",
    ])]);
    assert_eq!(docs.len(), 1);
    assert_eq!(docs[0].tag, vec!["/// one", "/// two", "/// three"]);
    assert!(docs[0].is_class());
    assert_eq!(docs[0].name(), "Foo");
}

#[test]
fn unrecognized_lines_between_comment_and_declaration_are_skipped() {
    let docs = scan_all(vec![file(&[
        "/// kept",
        "   /// also kept",
        "",
        "@Deprecated",
        "}",
        "public class Gap {",
    ])]);
    assert_eq!(docs.len(), 1);
    assert_eq!(docs[0].tag, vec!["/// kept", "   /// also kept"]);
    assert_eq!(docs[0].name(), "Gap");
}

#[test]
fn fields_and_methods_nest_under_their_class() {
    let docs = scan_all(vec![file(SAMPLE)]);
    assert_eq!(docs.len(), 1);
    assert_eq!(docs[0].pkg, "com.example.shapes");
    match &docs[0].def {
        Definition::Class(c) => {
            assert_eq!(c.fields.len(), 2);
            match &c.fields[0].def {
                Definition::Field(f) => assert_eq!(f.name, "sides"),
                other => panic!("expected a field, got {:?}", other),
            }
            assert_eq!(c.fields[0].tag, vec!["    /// The number of sides."]);
            match &c.fields[1].def {
                Definition::Method(m) => {
                    assert_eq!(m.name, "scale");
                    let args = m.args.as_ref().expect("parameters");
                    assert_eq!(args.len(), 2);
                    assert_eq!(args[1].ty, "double");
                    assert_eq!(args[1].name, "by");
                }
                other => panic!("expected a method, got {:?}", other),
            }
            for f in c.fields.iter() {
                assert!(!f.is_class());
                assert_eq!(f.pkg, "com.example.shapes");
            }
        }
        other => panic!("expected a class, got {:?}", other),
    }
}

#[test]
fn nested_classes_stay_at_the_top_level() {
    let docs = scan_all(vec![file(&[
        "/// Outer.",
        "class Outer {",
        "    /// Inner.",
        "    static class Inner {",
        "        /// A field of Inner.",
        "        int x;",
        "    }",
        "}",
    ])]);
    assert_eq!(docs.len(), 2);
    assert_eq!(docs[0].name(), "Outer");
    assert_eq!(docs[1].name(), "Inner");
    match (&docs[0].def, &docs[1].def) {
        (Definition::Class(a), Definition::Class(b)) => {
            assert_eq!(a.fields.len(), 0);
            assert_eq!(b.fields.len(), 1);
            assert_eq!(kind(&b.fields[0].def), "field");
        }
        _ => panic!("expected two classes"),
    }
}

#[test]
fn file_without_package_gets_the_placeholder() {
    let docs = scan_all(vec![file(&["/// Doc.", "public class NoPkg {", "/// f", "int f;"])]);
    assert_eq!(docs.len(), 1);
    assert_eq!(docs[0].pkg, "unknown");
    match &docs[0].def {
        Definition::Class(c) => assert_eq!(c.fields[0].pkg, "unknown"),
        other => panic!("expected a class, got {:?}", other),
    }
}

#[test]
fn package_does_not_carry_into_the_next_file() {
    let docs = scan_all(vec![
        file(&["package a.b;", "/// A.", "class A {"]),
        file(&["/// B.", "class B {"]),
    ]);
    assert_eq!(docs[0].pkg, "a.b");
    assert_eq!(docs[1].pkg, "unknown");
}

#[test]
fn package_line_with_spaces_before_semicolon() {
    let docs = scan_all(vec![file(&["package  org.x ;", "/// C.", "class C {"])]);
    assert_eq!(docs[0].pkg, "org.x");
}

#[test]
fn nodes_of_subdirectories_are_flat() {
    // The walk hands out the files of a subdirectory in place, between the others.
    let top = file(&["/// Top.", "class Top {"]);
    let nested = file(&["/// Deep.", "class Deep {", "/// d", "int d;"]);
    let last = file(&["/// Last.", "class Last {"]);
    let docs = scan_all(vec![top, nested, last]);
    let names: Vec<&str> = docs.iter().map(|d| d.name()).collect();
    assert_eq!(names, vec!["Top", "Deep", "Last"]);
    match &docs[1].def {
        Definition::Class(c) => assert_eq!(c.fields.len(), 1),
        other => panic!("expected a class, got {:?}", other),
    }
}

#[test]
fn scanning_twice_gives_the_same_collection() {
    let files = vec![file(SAMPLE), file(&["/// X.", "class X {", "/// y", "void y() {"])];
    let a = scan_all(files.clone());
    let b = scan_all(files);
    assert_eq!(shape(&a), shape(&b));
    assert_eq!(format!("{:?}", a), format!("{:?}", b));
}

#[test]
fn field_before_any_class_stays_at_the_top_level() {
    let docs = scan_all(vec![file(&["/// Lonely.", "int lonely;", "/// K.", "class K {"])]);
    assert_eq!(docs.len(), 2);
    assert_eq!(kind(&docs[0].def), "field");
    assert_eq!(docs[1].name(), "K");
    match &docs[1].def {
        Definition::Class(c) => assert!(c.fields.is_empty()),
        other => panic!("expected a class, got {:?}", other),
    }
}

#[test]
fn member_does_not_attach_to_a_class_of_another_file() {
    let docs = scan_all(vec![
        file(&["/// A.", "class A {"]),
        file(&["/// orphan", "int orphan;"]),
    ]);
    assert_eq!(docs.len(), 2);
    match &docs[0].def {
        Definition::Class(c) => assert!(c.fields.is_empty()),
        other => panic!("expected a class, got {:?}", other),
    }
    assert_eq!(kind(&docs[1].def), "field");
}

#[test]
fn comment_run_left_open_at_end_of_file_is_kept_undefined() {
    let docs = scan_all(vec![file(&["/// dangling", "}"]), file(&["/// next", "class N {"])]);
    assert_eq!(docs.len(), 2);
    assert_eq!(kind(&docs[0].def), "undefined");
    assert_eq!(docs[0].tag, vec!["/// dangling"]);
    assert_eq!(docs[1].tag, vec!["/// next"]);
}

#[test]
fn lines_without_a_comment_are_ignored() {
    let docs = scan_all(vec![file(&["class Plain {", "int x;", "// not a doc comment", "int y;"])]);
    assert!(docs.is_empty());
}

#[test]
fn scanner_by_lines() {
    let mut sc = Scanner::new();
    sc.begin_file();
    sc.scan_line("/// T.".to_string());
    sc.scan_line("class T {".to_string());
    sc.scan_line("/// m".to_string());
    sc.scan_line("void m() {".to_string());
    assert_eq!(sc.docs().len(), 1);
    sc.scan_file(file(&["/// U.", "class U {"]));
    let docs = sc.into_docs();
    assert_eq!(docs.len(), 2);
    assert_eq!(docs[1].name(), "U");
}

#[test]
fn doc_node_api() {
    let mut d = Doc::new("p".to_string());
    assert!(!d.is_class());
    assert_eq!(d.name(), "");
    d.push("/// a".to_string());
    d.set_def(Definition::Class(ClassDef::new(
        "C".to_string(),
        "public ".to_string(),
        "public class C ".to_string(),
        Vec::new(),
    )));
    assert!(d.is_class());
    assert_eq!(d.name(), "C");
    let mut f = Doc::new("p".to_string());
    f.set_def(Definition::Field(FieldDef::new("x".to_string(), String::new(), "int x;".to_string())));
    d.push_field(f);
    let mut m = Doc::new("p".to_string());
    m.set_def(Definition::Method(MethodDef::new(
        "run".to_string(),
        String::new(),
        None,
        "void run()".to_string(),
    )));
    d.push_field(m);
    match &d.def {
        Definition::Class(c) => {
            assert_eq!(c.fields.len(), 2);
            assert_eq!(c.get_name(), "C");
            assert_eq!(c.raw(), "public class C ");
        }
        other => panic!("expected a class, got {:?}", other),
    }
    assert_eq!(d.tag, vec!["/// a"]);
}

#[test]
fn marker_after_unicode_whitespace_is_a_comment() {
    let docs = scan_all(vec![file(&["\u{a0}/// a", "class A {"])]);
    assert_eq!(docs.len(), 1);
    assert_eq!(docs[0].tag, vec!["\u{a0}/// a"]);
    assert_eq!(docs[0].name(), "A");
}

#[test]
fn walks_of_two_directories_join() {
    let first = vec![file(&["/// A.", "class A {", "/// a", "int a;"])];
    let second = vec![file(&["/// b", "int b;"]), file(&["/// B.", "class B {"])];
    let a = scan_all(first.clone());
    let b = scan_all(second.clone());
    let mut joined = first;
    joined.extend(second);
    let all = scan_all(joined);
    assert_eq!(all.len(), a.len() + b.len());
    let mut parts = format!("{:?}", a);
    parts.pop();
    let expect = format!("{}, {}", parts, &format!("{:?}", b)[1..]);
    assert_eq!(format!("{:?}", all), expect);
}
