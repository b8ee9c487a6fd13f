use vstd::prelude::*;
use vstd::string::StringExecFns;

use crate::doc::{DefModel, Definition, Doc, DocModel, MemberModel, lines_view};
use crate::scan::docs_view;
use crate::text::{
    CharClass, chars_of, lemma_run_end, run_end, scan_brace_trim, scan_run, scan_ws_back,
    slice_string, trim, trim_braces,
};

mod theme;

pub use theme::{DEFAULT_THEME_CSS, Theme};

verus! {

/// The end of the run of `///` markers that starts at `i`.
pub open spec fn marker_end(s: Seq<char>, i: int) -> int
    decreases s.len() - i,
{
    if 0 <= i && i + 3 <= s.len() && s[i] == '/' && s[i + 1] == '/' && s[i + 2] == '/' {
        marker_end(s, i + 3)
    } else {
        i
    }
}

/// A comment line as a page shows it: trimmed, and without its leading markers.
pub open spec fn tag_text(line: Seq<char>) -> Seq<char> {
    let t = trim(line);
    t.subrange(marker_end(t, 0), t.len() as int)
}

/// The comment lines as a page shows them, with `sep` between each two.
pub open spec fn join_tag(tag: Seq<Seq<char>>, sep: Seq<char>) -> Seq<char>
    decreases tag.len(),
{
    if tag.len() == 0 {
        Seq::empty()
    } else if tag.len() == 1 {
        tag_text(tag[0])
    } else {
        join_tag(tag.drop_last(), sep) + sep + tag_text(tag.last())
    }
}

/// One list item for each piece of `t` from `i` on, split at every space, with a newline
/// between each two.
pub open spec fn mod_items(t: Seq<char>, i: int) -> Seq<char>
    decreases t.len() - i,
    via mod_items_decreases
{
    if 0 <= i <= t.len() {
        let k = run_end(t, i, CharClass::NoSpace);
        let item = "<li><code>"@ + t.subrange(i, k) + "</code></li>"@;
        if k >= t.len() {
            item
        } else {
            item + "\n"@ + mod_items(t, k + 1)
        }
    } else {
        Seq::empty()
    }
}

#[via_fn]
proof fn mod_items_decreases(t: Seq<char>, i: int) {
    if 0 <= i <= t.len() {
        lemma_run_end(t, i, CharClass::NoSpace);
    }
}

/// The modifiers section of a class: the trimmed modifiers, one item per space-separated
/// piece.
pub open spec fn modifiers_html(m: Seq<char>) -> Seq<char> {
    if m.len() != 0 {
        "<h5>Modifiers</h5>\n<ul>"@ + mod_items(trim(m), 0) + "</ul>"@
    } else {
        Seq::empty()
    }
}

/// The row that names a field or a method and shows its declaration.
pub open spec fn def_row(def: DefModel) -> Seq<char> {
    match def {
        DefModel::Field { name, raw, .. } => "<tr><td><code>"@ + name + "</code></td><td><code>"@
            + raw + "</code></td></tr>"@,
        DefModel::Method { name, raw, .. } => "<tr><td><code>"@ + name
            + "</code></td><td><code>"@ + trim_braces(trim(raw)) + "</code></td></tr>"@,
        _ => Seq::empty(),
    }
}

/// The table for one member of a class.
pub open spec fn member_html(m: MemberModel) -> Seq<char> {
    "<table><tr><th>Description</th></tr><td><code>"@ + join_tag(m.tag, "<br/>"@)
        + "</code></td><tr><th>Name</th><th>Definition</th></tr>"@ + def_row(m.def)
        + "</table><br/>"@
}

pub open spec fn members_html(ms: Seq<MemberModel>) -> Seq<char>
    decreases ms.len(),
{
    if ms.len() == 0 {
        Seq::empty()
    } else {
        members_html(ms.drop_last()) + member_html(ms.last())
    }
}

/// The fields section of a class.
pub open spec fn fields_html(ms: Seq<MemberModel>) -> Seq<char> {
    if ms.len() > 0 {
        "<h5>Fields</h5>\n"@ + members_html(ms)
    } else {
        Seq::empty()
    }
}

/// The block of a class.
pub open spec fn class_html(d: DocModel) -> Seq<char> {
    match d.def {
        DefModel::Class { name, modifiers, raw } => "\n<hr/>\n<div class=\"block\">\n<h3>Class <span class=\"sub\" id=\"class-"@
            + name + "\"><b><code>"@ + name + "</code></b></span></h3>\n<p>"@ + join_tag(
            d.tag,
            "<br>"@,
        ) + "<p>\n"@ + modifiers_html(modifiers) + "\n"@ + fields_html(d.children)
            + "\n<h5>Definition</h5>\n<p><code>"@ + raw + "</code></p>\n</div>\n"@,
        _ => Seq::empty(),
    }
}

pub open spec fn classes_html(ds: Seq<DocModel>) -> Seq<char>
    decreases ds.len(),
{
    if ds.len() == 0 {
        Seq::empty()
    } else {
        classes_html(ds.drop_last()) + class_html(ds.last())
    }
}

/// The link to a class in the sidebar.
pub open spec fn sidebar_item(d: DocModel) -> Seq<char> {
    match d.def {
        DefModel::Class { name, .. } => "<li class=\"sidebar-item\"><a href=\"#class-"@ + name
            + "\">"@ + name + "</a></li>"@,
        _ => Seq::empty(),
    }
}

pub open spec fn sidebar_items(ds: Seq<DocModel>) -> Seq<char>
    decreases ds.len(),
{
    if ds.len() == 0 {
        Seq::empty()
    } else {
        sidebar_items(ds.drop_last()) + sidebar_item(ds.last())
    }
}

/// The sidebar: a list of links to the classes, if there are any.
pub open spec fn sidebar_html(ds: Seq<DocModel>) -> Seq<char> {
    if ds.len() != 0 {
        "<h4 class=\"sidebar-head\"><a href=\"#classes\">Classes</a></h4>\n"@ + "<ul>\n"@
            + sidebar_items(ds) + "</ul>\n"@
    } else {
        Seq::empty()
    }
}

pub open spec fn header_html(title: Seq<char>) -> Seq<char> {
    "<h1>Package "@ + title + "</h1>"@
}

pub open spec fn section_head() -> Seq<char> {
    "<h1 id=\"classes\"><a href=\"#classes\" class=\"section-head\">Classes</a></h1>\n"@
}

/// The whole page.
pub open spec fn page_html(
    title: Seq<char>,
    css: Seq<char>,
    header: Seq<char>,
    content: Seq<char>,
    bar: Seq<char>,
    theme: Seq<char>,
) -> Seq<char> {
    "<!DOCTYPE html>\n<html>\n<head>\n<meta charset=\"utf-8\"/>\n<title>Package "@ + title
        + "</title>\n<style>\n"@ + css + "\n</style>\n</head>\n<body>\n<div class=\"sidebar\">\n"@
        + bar + "\n</div>\n<div class=\"main\">\n"@ + header + "\n"@ + content
        + "\n<br/>\n<h6>Generated with <a href=\"https://github.com/SalineSingularityFRC/bach\" target=\"_blank\">Bach</a> with the "@ + theme
        + " theme</h6>\n</div>\n</body>\n</html>"@
}

fn tag_text_exec(line: &String) -> (r: String)
    ensures
        r@ == tag_text(line@),
{
    let cs = chars_of(line.as_str());
    let a = scan_run(&cs, 0, CharClass::Space);
    let b = scan_ws_back(&cs, a, cs.len());
    let t = slice_string(line.as_str(), a, b);
    let ts = chars_of(t.as_str());
    let mut i: usize = 0;
    while i < ts.len() && ts.len() - i >= 3 && ts[i] == '/' && ts[i + 1] == '/' && ts[i + 2]
        == '/'
        invariant
            i <= ts.len(),
            marker_end(ts@, 0) == marker_end(ts@, i as int),
        decreases ts.len() - i,
    {
        i = i + 3;
    }
    slice_string(t.as_str(), i, ts.len())
}

fn join_tag_exec(tag: &Vec<String>, sep: &str) -> (r: String)
    ensures
        r@ == join_tag(lines_view(tag@), sep@),
{
    let ghost lv = lines_view(tag@);
    let mut out = String::new();
    let mut i: usize = 0;
    while i < tag.len()
        invariant
            i <= tag.len(),
            lv == lines_view(tag@),
            out@ == join_tag(lv.take(i as int), sep@),
        decreases tag.len() - i,
    {
        let t = tag_text_exec(&tag[i]);
        assert(lv.take(i + 1).drop_last() =~= lv.take(i as int));
        if i > 0 {
            out.append(sep);
            out.append(t.as_str());
        } else {
            out = t;
        }
        i = i + 1;
    }
    assert(lv.take(lv.len() as int) =~= lv);
    out
}

fn mod_items_exec(t: &str, s: &Vec<char>, i: usize) -> (r: String)
    requires
        s@ == t@,
        i <= s.len(),
    ensures
        r@ == mod_items(s@, i as int),
    decreases s.len() - i,
{
    let k = scan_run(s, i, CharClass::NoSpace);
    let mut item = String::from_str("<li><code>");
    item.append(slice_string(t, i, k).as_str());
    item.append("</code></li>");
    if k >= s.len() {
        item
    } else {
        item.append("\n");
        let rest = mod_items_exec(t, s, k + 1);
        item.append(rest.as_str());
        item
    }
}

fn modifiers_html_exec(m: &String) -> (r: String)
    ensures
        r@ == modifiers_html(m@),
{
    let cs = chars_of(m.as_str());
    if cs.len() != 0 {
        let a = scan_run(&cs, 0, CharClass::Space);
        let b = scan_ws_back(&cs, a, cs.len());
        let t = slice_string(m.as_str(), a, b);
        let ts = chars_of(t.as_str());
        let mut out = String::from_str("<h5>Modifiers</h5>\n<ul>");
        out.append(mod_items_exec(t.as_str(), &ts, 0).as_str());
        out.append("</ul>");
        out
    } else {
        proof {
            reveal_strlit("");
        }
        String::from_str("")
    }
}

fn def_row_exec(def: &Definition) -> (r: String)
    ensures
        r@ == def_row(def@),
{
    match def {
        Definition::Field(f) => {
            let mut out = String::from_str("<tr><td><code>");
            out.append(f.name.as_str());
            out.append("</code></td><td><code>");
            out.append(f.raw.as_str());
            out.append("</code></td></tr>");
            out
        },
        Definition::Method(m) => {
            let cs = chars_of(m.raw.as_str());
            let a = scan_run(&cs, 0, CharClass::Space);
            let b = scan_ws_back(&cs, a, cs.len());
            let t = slice_string(m.raw.as_str(), a, b);
            let ts = chars_of(t.as_str());
            let k = scan_brace_trim(&ts);
            let mut out = String::from_str("<tr><td><code>");
            out.append(m.name.as_str());
            out.append("</code></td><td><code>");
            out.append(slice_string(t.as_str(), 0, k).as_str());
            out.append("</code></td></tr>");
            out
        },
        _ => {
            proof {
                reveal_strlit("");
            }
            String::from_str("")
        },
    }
}

fn member_html_exec(d: &Doc) -> (r: String)
    ensures
        r@ == member_html(d.member()),
{
    let mut out = String::from_str("<table><tr><th>Description</th></tr><td><code>");
    out.append(join_tag_exec(&d.tag, "<br/>").as_str());
    out.append("</code></td><tr><th>Name</th><th>Definition</th></tr>");
    out.append(def_row_exec(&d.def).as_str());
    out.append("</table><br/>");
    out
}

fn fields_html_exec(fields: &Vec<Doc>) -> (r: String)
    ensures
        r@ == fields_html(fields@.map_values(|d: Doc| d.member())),
{
    let ghost ms = fields@.map_values(|d: Doc| d.member());
    if fields.len() == 0 {
        proof {
            reveal_strlit("");
        }
        return String::from_str("");
    }
    let mut out = String::from_str("<h5>Fields</h5>\n");
    let ghost head = out@;
    let mut i: usize = 0;
    while i < fields.len()
        invariant
            i <= fields.len(),
            ms == fields@.map_values(|d: Doc| d.member()),
            out@ == head + members_html(ms.take(i as int)),
        decreases fields.len() - i,
    {
        let h = member_html_exec(&fields[i]);
        assert(ms.take(i + 1).drop_last() =~= ms.take(i as int));
        assert(ms.take(i + 1).last() == fields@[i as int].member());
        out.append(h.as_str());
        assert(out@ =~= head + members_html(ms.take(i + 1)));
        i = i + 1;
    }
    assert(ms.take(ms.len() as int) =~= ms);
    out
}

fn class_html_exec(d: &Doc) -> (r: String)
    ensures
        r@ == class_html(d@),
{
    match &d.def {
        Definition::Class(c) => {
            let mut out = String::from_str(
                "\n<hr/>\n<div class=\"block\">\n<h3>Class <span class=\"sub\" id=\"class-",
            );
            out.append(c.name.as_str());
            out.append("\"><b><code>");
            out.append(c.name.as_str());
            out.append("</code></b></span></h3>\n<p>");
            out.append(join_tag_exec(&d.tag, "<br>").as_str());
            out.append("<p>\n");
            out.append(modifiers_html_exec(&c.modifiers).as_str());
            out.append("\n");
            out.append(fields_html_exec(&c.fields).as_str());
            out.append("\n<h5>Definition</h5>\n<p><code>");
            out.append(c.raw.as_str());
            out.append("</code></p>\n</div>\n");
            out
        },
        _ => {
            proof {
                reveal_strlit("");
            }
            String::from_str("")
        },
    }
}

fn sidebar_item_exec(d: &Doc) -> (r: String)
    ensures
        r@ == sidebar_item(d@),
{
    match &d.def {
        Definition::Class(c) => {
            let mut out = String::from_str("<li class=\"sidebar-item\"><a href=\"#class-");
            out.append(c.name.as_str());
            out.append("\">");
            out.append(c.name.as_str());
            out.append("</a></li>");
            out
        },
        _ => {
            proof {
                reveal_strlit("");
            }
            String::from_str("")
        },
    }
}

/// What a generator holds: the class nodes, the theme, the title, and the parts of the
/// page built so far.
pub struct GenModel {
    pub classes: Seq<DocModel>,
    pub theme: Theme,
    pub title: Seq<char>,
    pub css: Seq<char>,
    pub content: Seq<char>,
    pub header: Seq<char>,
}

/// Builds the HTML page that documents a package's classes.
pub struct Generator<'a> {
    classes: Vec<&'a Doc>,
    theme: Theme,
    title: String,
    css: String,
    content: String,
    header: String,
}

impl<'a> Generator<'a> {
    pub closed spec fn view(&self) -> GenModel {
        GenModel {
            classes: self.classes@.map_values(|d: &Doc| d@),
            theme: self.theme,
            title: self.title@,
            css: self.css@,
            content: self.content@,
            header: self.header@,
        }
    }

    pub fn new(title: String, classes: Vec<&'a Doc>, theme: Theme) -> (r: Generator<'a>)
        ensures
            r@ == (GenModel {
                classes: classes@.map_values(|d: &Doc| d@),
                theme,
                title: title@,
                css: Seq::empty(),
                content: Seq::empty(),
                header: Seq::empty(),
            }),
    {
        Generator {
            classes,
            theme,
            title,
            css: String::new(),
            content: String::new(),
            header: String::new(),
        }
    }

    pub fn set_theme(&mut self, theme: Theme)
        ensures
            final(self)@ == (GenModel { theme, ..old(self)@ }),
    {
        self.theme = theme;
    }

    pub fn contains_classes(&self) -> (r: bool)
        ensures
            r == (self@.classes.len() != 0),
    {
        self.classes.len() != 0
    }

    fn sidebar(&self) -> (r: String)
        ensures
            r@ == sidebar_html(self@.classes),
    {
        let ghost ds = self@.classes;
        if !self.contains_classes() {
            proof {
                reveal_strlit("");
            }
            return String::from_str("");
        }
        let mut out = String::from_str(
            "<h4 class=\"sidebar-head\"><a href=\"#classes\">Classes</a></h4>\n",
        );
        out.append("<ul>\n");
        let ghost head = out@;
        let mut i: usize = 0;
        while i < self.classes.len()
            invariant
                i <= self.classes.len(),
                ds == self@.classes,
                ds.len() == self.classes.len(),
                out@ == head + sidebar_items(ds.take(i as int)),
            decreases self.classes.len() - i,
        {
            let item = sidebar_item_exec(self.classes[i]);
            assert(ds.take(i + 1).drop_last() =~= ds.take(i as int));
            assert(ds.take(i + 1).last() == ds[i as int]);
            out.append(item.as_str());
            assert(out@ =~= head + sidebar_items(ds.take(i + 1)));
            i = i + 1;
        }
        assert(ds.take(ds.len() as int) =~= ds);
        out.append("</ul>\n");
        out
    }

    /// Renders the page: the theme's stylesheet, a header with the title, a sidebar that
    /// links to each class, and one block for each class with its comment, modifiers,
    /// members and declaration. The class blocks are added to the content built so far.
    pub fn generate(&mut self) -> (r: String)
        requires
            forall|i: int|
                0 <= i < old(self)@.classes.len() ==> (#[trigger] old(self)@.classes[i]).def is Class,
        ensures
            final(self)@.classes == old(self)@.classes,
            final(self)@.theme == old(self)@.theme,
            final(self)@.title == old(self)@.title,
            final(self)@.css == old(self)@.theme.css(),
            final(self)@.header == header_html(old(self)@.title),
            final(self)@.content == old(self)@.content + section_head() + classes_html(
                old(self)@.classes,
            ),
            r@ == page_html(
                final(self)@.title,
                final(self)@.css,
                final(self)@.header,
                final(self)@.content,
                sidebar_html(old(self)@.classes),
                old(self)@.theme.spec_name(),
            ),
    {
        let ghost ds = self@.classes;
        self.css = self.theme.get();
        let mut header = String::from_str("<h1>Package ");
        header.append(self.title.as_str());
        header.append("</h1>");
        self.header = header;
        self.content.append(
            "<h1 id=\"classes\"><a href=\"#classes\" class=\"section-head\">Classes</a></h1>\n",
        );
        let ghost head = self.content@;
        let ghost mid = self@;
        let mut i: usize = 0;
        while i < self.classes.len()
            invariant
                i <= self.classes.len(),
                ds == self@.classes,
                self@ == (GenModel { content: self@.content, ..mid }),
                ds.len() == self.classes.len(),
                self.content@ == head + classes_html(ds.take(i as int)),
            decreases self.classes.len() - i,
        {
            let block = class_html_exec(self.classes[i]);
            assert(ds.take(i + 1).drop_last() =~= ds.take(i as int));
            assert(ds.take(i + 1).last() == ds[i as int]);
            self.content.append(block.as_str());
            assert(self.content@ =~= head + classes_html(ds.take(i + 1)));
            i = i + 1;
        }
        assert(ds.take(ds.len() as int) =~= ds);
        let bar = self.sidebar();
        let mut out = String::from_str(
            "<!DOCTYPE html>\n<html>\n<head>\n<meta charset=\"utf-8\"/>\n<title>Package ",
        );
        out.append(self.title.as_str());
        out.append("</title>\n<style>\n");
        out.append(self.css.as_str());
        out.append("\n</style>\n</head>\n<body>\n<div class=\"sidebar\">\n");
        out.append(bar.as_str());
        out.append("\n</div>\n<div class=\"main\">\n");
        out.append(self.header.as_str());
        out.append("\n");
        out.append(self.content.as_str());
        out.append(
            "\n<br/>\n<h6>Generated with <a href=\"https://github.com/SalineSingularityFRC/bach\" target=\"_blank\">Bach</a> with the ",
        );
        out.append(self.theme.name());
        out.append(" theme</h6>\n</div>\n</body>\n</html>");
        out
    }
}

impl<'a> Default for Generator<'a> {
    fn default() -> (r: Generator<'a>)
        ensures
            r@ == (GenModel {
                classes: Seq::empty(),
                theme: Theme::Default,
                title: Seq::empty(),
                css: Seq::empty(),
                content: Seq::empty(),
                header: Seq::empty(),
            }),
    {
        let r = Generator {
            classes: Vec::new(),
            theme: Theme::Default,
            title: String::new(),
            css: String::new(),
            content: String::new(),
            header: String::new(),
        };
        assert(r.classes@.map_values(|d: &Doc| d@) =~= Seq::empty());
        r
    }
}

/// The class nodes among `ds`, in order.
pub open spec fn classes_of(ds: Seq<DocModel>) -> Seq<DocModel>
    decreases ds.len(),
{
    if ds.len() == 0 {
        Seq::empty()
    } else if ds.last().def is Class {
        classes_of(ds.drop_last()).push(ds.last())
    } else {
        classes_of(ds.drop_last())
    }
}

/// The class nodes of a collection, in order: what a page documents at the top level.
pub fn find_classes<'a>(docs: &'a Vec<Doc>) -> (r: Vec<&'a Doc>)
    ensures
        r@.map_values(|d: &Doc| d@) == classes_of(docs_view(docs@)),
{
    let ghost ds = docs_view(docs@);
    let mut out: Vec<&'a Doc> = Vec::new();
    let mut i: usize = 0;
    while i < docs.len()
        invariant
            i <= docs.len(),
            ds == docs_view(docs@),
            out@.map_values(|d: &Doc| d@) == classes_of(ds.take(i as int)),
        decreases docs.len() - i,
    {
        let ghost before = out@;
        assert(ds.take(i + 1).drop_last() =~= ds.take(i as int));
        assert(ds.take(i + 1).last() == docs@[i as int]@);
        if docs[i].is_class() {
            out.push(&docs[i]);
            assert(out@.map_values(|d: &Doc| d@) =~= before.map_values(|d: &Doc| d@).push(
                docs@[i as int]@,
            ));
        }
        i = i + 1;
    }
    assert(ds.take(ds.len() as int) =~= ds);
    out
}

} // verus!
