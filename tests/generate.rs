use bach::gen::{find_classes, Generator, Theme, DEFAULT_THEME_CSS};
use bach::scan::scan_all;

fn sample() -> Vec<bach::doc::Doc> {
    let lines = [
        "package demo;",
        "/// A counter.",
        "/// Counts things.",
        "public final class Counter {",
        "  /// The count.",
        "  private int count;",
        "  /// Adds one.",
        "  public void inc(int by) {",
        "}",
        "/// Loose.",
        "int loose;",
    ];
    scan_all(vec![lines.iter().map(|s| s.to_string()).collect()])
}

#[test]
fn theme_default() {
    assert_eq!(Theme::Default.name(), "default");
    assert_eq!(Theme::Default.get(), DEFAULT_THEME_CSS);
}

#[test]
fn find_classes_keeps_only_classes() {
    let mut docs = sample();
    docs.extend(scan_all(vec![vec!["/// f".to_string(), "int f;".to_string()]]));
    let classes = find_classes(&docs);
    assert_eq!(docs.len(), 2);
    assert_eq!(classes.len(), 1);
    assert_eq!(classes[0].name(), "Counter");
}

#[test]
fn generated_page() {
    let docs = sample();
    let classes = find_classes(&docs);
    let mut g = Generator::new(docs[0].pkg.clone(), classes, Theme::Default);
    assert!(g.contains_classes());
    let page = g.generate();
    assert!(page.starts_with("<!DOCTYPE html>"));
    assert!(page.contains("<title>Package demo</title>"));
    assert!(page.contains("<h1>Package demo</h1>"));
    assert!(page.contains(DEFAULT_THEME_CSS));
    assert!(page.contains("<li class=\"sidebar-item\"><a href=\"#class-Counter\">Counter</a></li>"));
    assert!(page.contains("id=\"class-Counter\"><b><code>Counter</code></b>"));
    assert!(page.contains("<p> A counter.<br> Counts things.<p>"));
    assert!(page.contains("<li><code>public</code></li>\n<li><code>final</code></li>"));
    assert!(page.contains("<td><code> The count.</code></td>"));
    assert!(page.contains("<tr><td><code>count</code></td><td><code>  private int count;</code></td></tr>"));
    assert!(page.contains("<tr><td><code>inc</code></td><td><code>public void inc(int by)</code></td></tr>"));
    assert!(page.contains("<p><code>public final class Counter </code></p>"));
    assert!(page.contains("with the default theme"));
}

#[test]
fn page_without_classes_has_no_sidebar() {
    let mut g = Generator::new("empty".to_string(), Vec::new(), Theme::Default);
    assert!(!g.contains_classes());
    g.set_theme(Theme::Default);
    let page = g.generate();
    assert!(!page.contains("<h4 class=\"sidebar-head\">"));
    assert!(page.contains("<title>Package empty</title>"));
}

#[test]
fn generating_twice_repeats_the_class_blocks() {
    let docs = sample();
    let mut g = Generator::new("demo".to_string(), find_classes(&docs), Theme::Default);
    let first = g.generate();
    let second = g.generate();
    assert_eq!(first.matches("<div class=\"block\">").count(), 1);
    assert_eq!(second.matches("<div class=\"block\">").count(), 2);
}

#[test]
fn markers_are_stripped_from_comment_lines() {
    let docs = scan_all(vec![vec!["   //////  deep".to_string(), "class Q {".to_string()]]);
    let mut g = Generator::new("q".to_string(), find_classes(&docs), Theme::Default);
    let page = g.generate();
    assert!(page.contains("<p>  deep<p>"));
}

fn page_of(lines: &[&str]) -> String {
    let docs = scan_all(vec![lines.iter().map(|s| s.to_string()).collect()]);
    let mut g = Generator::new("p".to_string(), find_classes(&docs), Theme::Default);
    g.generate()
}

#[test]
fn tag_lines_are_trimmed_of_unicode_whitespace() {
    let page = page_of(&["/// a\u{a0}", "/// b", "class T {"]);
    assert!(page.contains("<p> a<br> b<p>"));
}

#[test]
fn method_row_drops_brace_before_unicode_whitespace() {
    let page = page_of(&["/// T.", "class T {", "/// m", "void m() {\u{a0}"]);
    assert!(page.contains("<tr><td><code>m</code></td><td><code>void m() </code></td></tr>"));
}

#[test]
fn modifiers_split_at_single_spaces() {
    let tab = page_of(&["/// T.", "public\tstatic class T {"]);
    assert!(tab.contains("<ul><li><code>public\tstatic</code></li></ul>"));
    let two = page_of(&["/// U.", "public  static class U {"]);
    assert!(two.contains(
        "<ul><li><code>public</code></li>\n<li><code></code></li>\n<li><code>static</code></li></ul>"
    ));
}

#[test]
fn footer_links_to_the_project() {
    let page = page_of(&["/// T.", "class T {"]);
    assert!(page.contains(
        "Generated with <a href=\"https://github.com/SalineSingularityFRC/bach\" target=\"_blank\">Bach</a> with the default theme"
    ));
}
