use vstd::prelude::*;

use crate::decl::{classify, lead};
use crate::doc::{DefModel, Definition, Doc, DocModel, MemberModel, lines_view};
use crate::text::{
    CharClass, chars_eq, chars_of, is_ws, is_ws_exec, run_end, scan_run, scan_ws_back, slice_string,
    ws_back,
};

verus! {

/// The state of a scan: the collection so far, whether a comment run is open, the package
/// of the current file, and where the current file's nodes begin in the collection.
pub struct ScanModel {
    pub docs: Seq<DocModel>,
    pub open: bool,
    pub pkg: Seq<char>,
    pub base: int,
}

/// The package recorded for nodes of a file that declares none.
pub open spec fn unknown_pkg() -> Seq<char> {
    "unknown"@
}

/// A documentation comment: `///` after optional leading whitespace.
pub open spec fn is_doc_line(s: Seq<char>) -> bool {
    let i = lead(s);
    &&& i + 3 <= s.len()
    &&& s[i] == '/'
    &&& s[i + 1] == '/'
    &&& s[i + 2] == '/'
}

/// The name that a `package <name>;` line declares: the line opens with the word and a
/// blank, ends (trailing blanks aside) with `;`, and the name is what stands between, trimmed.
pub open spec fn package_of(s: Seq<char>) -> Option<Seq<char>> {
    let e = ws_back(s, 7, s.len() as int);
    let a = run_end(s, 7, CharClass::Space);
    let b = ws_back(s, a, e - 1);
    if s.len() > 7 && s.subrange(0, 7) == "package"@ && is_ws(s[7]) && a < e && s[e - 1] == ';'
        && a < b {
        Some(s.subrange(a, b))
    } else {
        None
    }
}

/// The last class node at or above `lo` and below `n`.
pub open spec fn last_class(docs: Seq<DocModel>, lo: int, n: int) -> Option<int>
    decreases n - lo,
{
    if n <= lo {
        None
    } else if docs[n - 1].def is Class {
        Some(n - 1)
    } else {
        last_class(docs, lo, n - 1)
    }
}

/// The node as a member of a class.
pub open spec fn as_member(node: DocModel) -> MemberModel {
    MemberModel { tag: node.tag, def: node.def, pkg: node.pkg }
}

/// Places a finished node: a class goes to the top level; a field or method is nested
/// under the last class of the current file (from `base` on), or stays at the top level
/// when the file has none yet.
pub open spec fn attach(docs: Seq<DocModel>, base: int, node: DocModel) -> Seq<DocModel> {
    if node.def is Class {
        docs.push(node)
    } else {
        match last_class(docs, base, docs.len() as int) {
            Some(j) => docs.update(
                j,
                DocModel { children: docs[j].children.push(as_member(node)), ..docs[j] },
            ),
            None => docs.push(node),
        }
    }
}

/// One line of the scan.
pub open spec fn step(st: ScanModel, line: Seq<char>) -> ScanModel {
    let pkg = match package_of(line) {
        Some(p) => p,
        None => st.pkg,
    };
    let n = st.docs.len() - 1;
    if is_doc_line(line) {
        if st.open && st.docs.len() > 0 {
            ScanModel {
                docs: st.docs.update(n, DocModel { tag: st.docs[n].tag.push(line), ..st.docs[n] }),
                pkg,
                ..st
            }
        } else {
            let node = DocModel {
                tag: seq![line],
                def: DefModel::Undefined,
                pkg,
                children: Seq::empty(),
            };
            ScanModel { docs: st.docs.push(node), open: true, pkg, ..st }
        }
    } else if st.open && st.docs.len() > 0 {
        match classify(line) {
            Some(d) => ScanModel {
                docs: attach(st.docs.drop_last(), st.base, DocModel { def: d, ..st.docs[n] }),
                open: false,
                pkg,
                ..st
            },
            None => ScanModel { pkg, ..st },
        }
    } else {
        ScanModel { pkg, ..st }
    }
}

/// The scan of `lines`, one after another, from `st`.
pub open spec fn scan_lines(st: ScanModel, lines: Seq<Seq<char>>) -> ScanModel
    decreases lines.len(),
{
    if lines.len() == 0 {
        st
    } else {
        step(scan_lines(st, lines.drop_last()), lines.last())
    }
}

/// The state at the start of a file: no comment run open, no package seen.
pub open spec fn file_start(docs: Seq<DocModel>) -> ScanModel {
    ScanModel { docs, open: false, pkg: unknown_pkg(), base: docs.len() as int }
}

/// The collection after one more file.
pub open spec fn scan_file(docs: Seq<DocModel>, lines: Seq<Seq<char>>) -> Seq<DocModel> {
    scan_lines(file_start(docs), lines).docs
}

/// The collection after each file in turn.
pub open spec fn scan_files(docs: Seq<DocModel>, files: Seq<Seq<Seq<char>>>) -> Seq<DocModel>
    decreases files.len(),
{
    if files.len() == 0 {
        docs
    } else {
        scan_file(scan_files(docs, files.drop_last()), files.last())
    }
}

/// The collection that a walk over `files`, in the order given, produces.
pub open spec fn walk_model(files: Seq<Seq<Seq<char>>>) -> Seq<DocModel> {
    scan_files(Seq::empty(), files)
}

/// The text of each file's lines.
pub open spec fn files_view(files: Seq<Vec<String>>) -> Seq<Seq<Seq<char>>> {
    files.map_values(|f: Vec<String>| lines_view(f@))
}

/// The model of each node.
pub open spec fn docs_view(docs: Seq<Doc>) -> Seq<DocModel> {
    docs.map_values(|d: Doc| d@)
}

/// Whether `s` is a documentation comment line.
pub fn is_doc_line_exec(s: &Vec<char>) -> (r: bool)
    ensures
        r == is_doc_line(s@),
{
    let i = scan_run(s, 0, CharClass::Space);
    i < s.len() && s.len() - i >= 3 && s[i] == '/' && s[i + 1] == '/' && s[i + 2] == '/'
}

/// The package that a `package <name>;` line declares.
pub fn package_name(line: &str, s: &Vec<char>) -> (r: Option<String>)
    requires
        s@ == line@,
    ensures
        match r {
            Some(p) => package_of(s@) == Some(p@),
            None => package_of(s@) is None,
        },
{
    let n = s.len();
    if n <= 7 || !chars_eq(s, 0, 7, "package") || !is_ws_exec(s[7]) {
        return None;
    }
    let e = scan_ws_back(s, 7, n);
    let a = scan_run(s, 7, CharClass::Space);
    if a >= e || s[e - 1] != ';' {
        return None;
    }
    let b = scan_ws_back(s, a, e - 1);
    if a >= b {
        return None;
    }
    Some(slice_string(line, a, b))
}

/// Walks the lines of source files, collecting documented classes with their members.
pub struct Scanner {
    docs: Vec<Doc>,
    open: bool,
    pkg: String,
    base: usize,
}

impl Scanner {
    pub closed spec fn view(&self) -> ScanModel {
        ScanModel {
            docs: docs_view(self.docs@),
            open: self.open,
            pkg: self.pkg@,
            base: self.base as int,
        }
    }

    /// The open node, if any, is the last one, belongs to the current file, and has no
    /// definition yet.
    pub closed spec fn wf(&self) -> bool {
        &&& self.base <= self.docs.len()
        &&& self.open ==> self.docs.len() > self.base && self.docs@.last().def is Undefined
    }

    pub fn new() -> (r: Scanner)
        ensures
            r.wf(),
            r@ == file_start(Seq::empty()),
    {
        let pkg = String::from_str("unknown");
        let r = Scanner { docs: Vec::new(), open: false, pkg, base: 0 };
        assert(docs_view(r.docs@) =~= Seq::empty());
        r
    }

    /// Starts a new file: closes any open comment run and forgets the package.
    pub fn begin_file(&mut self)
        ensures
            final(self).wf(),
            final(self)@ == file_start(old(self)@.docs),
    {
        self.open = false;
        self.pkg = String::from_str("unknown");
        self.base = self.docs.len();
    }

    /// The index of the last class of the current file.
    fn last_class_index(&self) -> (r: Option<usize>)
        requires
            self.base <= self.docs.len(),
        ensures
            match r {
                Some(j) => last_class(self@.docs, self@.base, self@.docs.len() as int) == Some(
                    j as int,
                ) && j < self.docs.len() && self.docs@[j as int].def is Class,
                None => last_class(self@.docs, self@.base, self@.docs.len() as int) is None,
            },
    {
        let ghost d = self@.docs;
        let mut n = self.docs.len();
        while n > self.base
            invariant
                self.base <= n <= self.docs.len(),
                d == self@.docs,
                d.len() == self.docs.len(),
                last_class(d, self.base as int, d.len() as int) == last_class(
                    d,
                    self.base as int,
                    n as int,
                ),
            decreases n,
        {
            if self.docs[n - 1].is_class() {
                return Some(n - 1);
            }
            n = n - 1;
        }
        None
    }

    /// Scans one line.
    pub fn scan_line(&mut self, line: String)
        requires
            old(self).wf(),
        ensures
            final(self).wf(),
            final(self)@ == step(old(self)@, line@),
    {
        let cs = chars_of(line.as_str());
        match package_name(line.as_str(), &cs) {
            Some(p) => {
                self.pkg = p;
            },
            None => {},
        }
        if is_doc_line_exec(&cs) {
            if self.open && self.docs.len() > 0 {
                let n = self.docs.len() - 1;
                let ghost before = self.docs@;
                self.docs[n].push(line);
                assert(docs_view(self.docs@) =~= docs_view(before).update(
                    n as int,
                    DocModel { tag: before[n as int]@.tag.push(line@), ..before[n as int]@ },
                ));
            } else {
                let mut d = Doc::new(self.pkg.clone());
                d.push(line);
                let ghost before = self.docs@;
                self.docs.push(d);
                self.open = true;
                assert(docs_view(self.docs@) =~= docs_view(before).push(d@));
                assert(d@.tag =~= seq![line@]);
            }
        } else if self.open && self.docs.len() > 0 {
            match Definition::derive(line) {
                Some(def) => {
                    self.place(def);
                },
                None => {},
            }
        }
    }

    /// Gives the open node its definition and places it.
    fn place(&mut self, def: Definition)
        requires
            old(self).wf(),
            old(self).open,
            def.children().len() == 0,
        ensures
            final(self).wf(),
            !final(self).open,
            final(self).pkg == old(self).pkg,
            final(self).base == old(self).base,
            final(self)@.docs == attach(
                old(self)@.docs.drop_last(),
                old(self)@.base,
                DocModel { def: def@, ..old(self)@.docs.last() },
            ),
    {
        let ghost st = self@;
        let ghost dv = def@;
        assert(def.children() =~= Seq::<MemberModel>::empty());
        self.open = false;
        let mut node = self.docs.pop().unwrap();
        assert(docs_view(self.docs@) =~= st.docs.drop_last());
        assert(node@ == st.docs.last());
        let ghost nv = DocModel { def: dv, ..node@ };
        let cls = match &def {
            Definition::Class(_) => true,
            _ => false,
        };
        node.set_def(def);
        assert(node@ =~= nv);
        if cls {
            let ghost before = self.docs@;
            self.docs.push(node);
            assert(docs_view(self.docs@) =~= docs_view(before).push(nv));
        } else {
            match self.last_class_index() {
                Some(j) => {
                    let ghost before = self.docs@;
                    self.docs[j].push_field(node);
                    assert(docs_view(self.docs@) =~= docs_view(before).update(
                        j as int,
                        DocModel {
                            children: before[j as int]@.children.push(as_member(nv)),
                            ..before[j as int]@
                        },
                    ));
                },
                None => {
                    let ghost before = self.docs@;
                    self.docs.push(node);
                    assert(docs_view(self.docs@) =~= docs_view(before).push(nv));
                },
            }
        }
    }

    /// Scans the lines of one file, in order.
    pub fn scan_file(&mut self, lines: Vec<String>)
        ensures
            final(self).wf(),
            final(self)@ == scan_lines(file_start(old(self)@.docs), lines_view(lines@)),
            final(self)@.docs == scan_file(old(self)@.docs, lines_view(lines@)),
    {
        self.begin_file();
        let ghost st0 = self@;
        let ghost lv = lines_view(lines@);
        for line in it: lines
            invariant
                self.wf(),
                lv == lines_view(it.seq()),
                self@ == scan_lines(st0, lv.take(it.index() as int)),
        {
            let ghost i = it.index() as int;
            assert(lv.take(i + 1).drop_last() =~= lv.take(i));
            self.scan_line(line);
        }
        assert(lv.take(lv.len() as int) =~= lv);
    }

    /// The collection so far.
    pub fn docs(&self) -> (r: &Vec<Doc>)
        ensures
            docs_view(r@) == self@.docs,
    {
        &self.docs
    }

    /// Ends the walk and hands out the collection.
    pub fn into_docs(self) -> (r: Vec<Doc>)
        ensures
            docs_view(r@) == self@.docs,
    {
        self.docs
    }
}

/// Scans each file in turn, as a walk over a directory tree hands them out, and returns
/// the collection: classes at the top level with their fields and methods nested in them.
pub fn scan_all(files: Vec<Vec<String>>) -> (r: Vec<Doc>)
    ensures
        docs_view(r@) == walk_model(files_view(files@)),
{
    let mut sc = Scanner::new();
    let ghost fv = files_view(files@);
    for f in it: files
        invariant
            sc.wf(),
            fv == files_view(it.seq()),
            sc@.docs == scan_files(Seq::empty(), fv.take(it.index() as int)),
    {
        let ghost i = it.index() as int;
        assert(fv.take(i + 1).drop_last() =~= fv.take(i));
        sc.scan_file(f);
    }
    assert(fv.take(fv.len() as int) =~= fv);
    sc.into_docs()
}

} // verus!
