use vstd::prelude::*;

use crate::decl::{classify, lead};
use crate::doc::{DefModel, DocModel};
use crate::scan::{
    ScanModel, as_member, attach, file_start, is_doc_line, last_class, package_of, scan_file, scan_files,
    scan_lines, step, unknown_pkg, walk_model,
};

verus! {

/// The open node, if any, is the last one, belongs to the current file, and is still bare.
pub open spec fn model_wf(st: ScanModel) -> bool {
    &&& 0 <= st.base <= st.docs.len()
    &&& st.open ==> {
        &&& st.docs.len() > st.base
        &&& st.docs.last().def is Undefined
        &&& st.docs.last().children.len() == 0
    }
}

/// Every member of a class is a field or a method, and only classes have members.
pub open spec fn nesting_ok(docs: Seq<DocModel>) -> bool {
    forall|i: int|
        0 <= i < docs.len() ==> {
            &&& forall|j: int|
                0 <= j < docs[i].children.len() ==> {
                    ||| (#[trigger] docs[i].children[j]).def is Field
                    ||| docs[i].children[j].def is Method
                }
            &&& !(docs[i].def is Class) ==> docs[i].children.len() == 0
        }
}

proof fn lemma_last_class(docs: Seq<DocModel>, lo: int, n: int)
    requires
        0 <= lo,
        n <= docs.len(),
    ensures
        match last_class(docs, lo, n) {
            Some(j) => lo <= j < n && docs[j].def is Class,
            None => true,
        },
    decreases n - lo,
{
    if n > lo && !(docs[n - 1].def is Class) {
        lemma_last_class(docs, lo, n - 1);
    }
}

/// A comment line never declares a package.
pub proof fn lemma_doc_not_package(s: Seq<char>)
    requires
        is_doc_line(s),
    ensures
        package_of(s) is None,
{
    if package_of(s) is Some {
        reveal_strlit("package");
        assert(s[0] == s.subrange(0, 7)[0]);
        assert(s[0] == 'p');
        assert(lead(s) == 0);
    }
}

proof fn lemma_step_wf(st: ScanModel, line: Seq<char>)
    requires
        model_wf(st),
        nesting_ok(st.docs),
    ensures
        model_wf(step(st, line)),
        nesting_ok(step(st, line).docs),
        step(st, line).base == st.base,
        step(st, line).docs.len() >= st.base,
        step(st, line).docs.subrange(0, st.base) == st.docs.subrange(0, st.base),
{
    let r = step(st, line);
    let n = st.docs.len() - 1;
    if !is_doc_line(line) && st.open && st.docs.len() > 0 && classify(line) is Some {
        let d = classify(line)->Some_0;
        let rest = st.docs.drop_last();
        let node = DocModel { def: d, ..st.docs[n] };
        lemma_last_class(rest, st.base, rest.len() as int);
        assert(r.docs == attach(rest, st.base, node));
        assert(nesting_ok(r.docs));
        assert(r.docs.subrange(0, st.base) =~= st.docs.subrange(0, st.base));
    } else if is_doc_line(line) {
        assert(nesting_ok(r.docs));
        assert(r.docs.subrange(0, st.base) =~= st.docs.subrange(0, st.base));
    }
}

proof fn lemma_scan_lines_wf(st: ScanModel, lines: Seq<Seq<char>>)
    requires
        model_wf(st),
        nesting_ok(st.docs),
    ensures
        model_wf(scan_lines(st, lines)),
        nesting_ok(scan_lines(st, lines).docs),
        scan_lines(st, lines).base == st.base,
        scan_lines(st, lines).docs.len() >= st.base,
        scan_lines(st, lines).docs.subrange(0, st.base) == st.docs.subrange(0, st.base),
    decreases lines.len(),
{
    if lines.len() > 0 {
        let mid = scan_lines(st, lines.drop_last());
        lemma_scan_lines_wf(st, lines.drop_last());
        lemma_step_wf(mid, lines.last());
        assert(mid.docs.subrange(0, st.base).subrange(0, st.base) =~= mid.docs.subrange(
            0,
            st.base,
        ));
    }
}

proof fn lemma_scan_file(docs: Seq<DocModel>, lines: Seq<Seq<char>>)
    requires
        nesting_ok(docs),
    ensures
        nesting_ok(scan_file(docs, lines)),
        scan_file(docs, lines).len() >= docs.len(),
        scan_file(docs, lines).subrange(0, docs.len() as int) == docs,
{
    lemma_scan_lines_wf(file_start(docs), lines);
    assert(docs.subrange(0, docs.len() as int) =~= docs);
}

proof fn lemma_scan_files(docs: Seq<DocModel>, files: Seq<Seq<Seq<char>>>)
    requires
        nesting_ok(docs),
    ensures
        nesting_ok(scan_files(docs, files)),
        scan_files(docs, files).len() >= docs.len(),
        scan_files(docs, files).subrange(0, docs.len() as int) == docs,
    decreases files.len(),
{
    if files.len() > 0 {
        let mid = scan_files(docs, files.drop_last());
        lemma_scan_files(docs, files.drop_last());
        lemma_scan_file(mid, files.last());
        let r = scan_file(mid, files.last());
        assert(r.subrange(0, docs.len() as int) =~= r.subrange(0, mid.len() as int).subrange(
            0,
            docs.len() as int,
        ));
    }
}

/// In every collection that a walk produces, each member nested under a class is a
/// field or a method, never a class, and only class nodes have members.
pub proof fn lemma_nesting(files: Seq<Seq<Seq<char>>>)
    ensures
        nesting_ok(walk_model(files)),
{
    lemma_scan_files(Seq::empty(), files);
}

/// Scanning two runs of lines one after the other is scanning them joined.
pub proof fn lemma_scan_lines_append(st: ScanModel, a: Seq<Seq<char>>, b: Seq<Seq<char>>)
    ensures
        scan_lines(st, a + b) == scan_lines(scan_lines(st, a), b),
    decreases b.len(),
{
    if b.len() == 0 {
        assert(a + b =~= a);
    } else {
        lemma_scan_lines_append(st, a, b.drop_last());
        assert((a + b).drop_last() =~= a + b.drop_last());
        assert((a + b).last() == b.last());
    }
}

/// Scanning two runs of files one after the other is scanning them joined.
pub proof fn lemma_scan_files_append(
    docs: Seq<DocModel>,
    a: Seq<Seq<Seq<char>>>,
    b: Seq<Seq<Seq<char>>>,
)
    ensures
        scan_files(docs, a + b) == scan_files(scan_files(docs, a), b),
    decreases b.len(),
{
    if b.len() == 0 {
        assert(a + b =~= a);
    } else {
        lemma_scan_files_append(docs, a, b.drop_last());
        assert((a + b).drop_last() =~= a + b.drop_last());
        assert((a + b).last() == b.last());
    }
}

/// The nodes of a file, wherever it lies in the tree, stand at the top level of the final
/// collection: the walk goes on over later files (those of subdirectories included) in one
/// flat collection, and never moves or nests what an earlier file produced.
pub proof fn lemma_directory_flat(
    a: Seq<Seq<Seq<char>>>,
    f: Seq<Seq<char>>,
    b: Seq<Seq<Seq<char>>>,
)
    ensures
        scan_file(walk_model(a), f).len() >= walk_model(a).len(),
        scan_file(walk_model(a), f).subrange(0, walk_model(a).len() as int) == walk_model(a),
        walk_model(a + seq![f] + b).subrange(0, scan_file(walk_model(a), f).len() as int)
            == scan_file(walk_model(a), f),
{
    let e = Seq::<DocModel>::empty();
    lemma_nesting(a);
    lemma_scan_file(walk_model(a), f);
    lemma_scan_files_append(e, a, seq![f]);
    assert((a + seq![f]).drop_last() =~= a);
    assert(walk_model(a + seq![f]) == scan_file(walk_model(a), f));
    lemma_scan_files_append(e, a + seq![f], b);
    lemma_nesting(a + seq![f]);
    lemma_scan_files(walk_model(a + seq![f]), b);
}

/// Walking the same files twice gives the same collection: as many nodes, each with the
/// same definition, comment lines, package and members.
pub proof fn lemma_walk_deterministic(a: Seq<Seq<Seq<char>>>, b: Seq<Seq<Seq<char>>>)
    requires
        a == b,
    ensures
        walk_model(a) == walk_model(b),
        walk_model(a).len() == walk_model(b).len(),
        forall|i: int| 0 <= i < walk_model(a).len() ==> walk_model(a)[i].def == walk_model(b)[i].def,
{
}

/// The node that a run of comment lines opens, before its definition comes.
pub open spec fn pending(tag: Seq<Seq<char>>, pkg: Seq<char>) -> DocModel {
    DocModel { tag, def: DefModel::Undefined, pkg, children: Seq::empty() }
}

proof fn lemma_comment_run(st: ScanModel, comments: Seq<Seq<char>>)
    requires
        model_wf(st),
        !st.open,
        comments.len() > 0,
        forall|i: int| 0 <= i < comments.len() ==> is_doc_line(#[trigger] comments[i]),
    ensures
        scan_lines(st, comments) == (ScanModel {
            docs: st.docs.push(pending(comments, st.pkg)),
            open: true,
            ..st
        }),
    decreases comments.len(),
{
    let last = comments.last();
    lemma_doc_not_package(last);
    if comments.len() == 1 {
        assert(comments.drop_last() =~= Seq::<Seq<char>>::empty());
        assert(scan_lines(st, comments.drop_last()) == st);
        assert(seq![last] =~= comments);
        assert(st.docs.push(pending(seq![last], st.pkg)) =~= st.docs.push(
            pending(comments, st.pkg),
        ));
    } else {
        let init = comments.drop_last();
        assert forall|i: int| 0 <= i < init.len() implies is_doc_line(#[trigger] init[i]) by {
            assert(init[i] == comments[i]);
        }
        lemma_comment_run(st, init);
        let mid = scan_lines(st, init);
        let n = mid.docs.len() - 1;
        assert(init.push(last) =~= comments);
        assert(mid.docs.update(n, DocModel { tag: mid.docs[n].tag.push(last), ..mid.docs[n] })
            =~= st.docs.push(pending(comments, st.pkg)));
    }
}

proof fn lemma_gap_run(st: ScanModel, gaps: Seq<Seq<char>>)
    requires
        st.open,
        st.docs.len() > 0,
        forall|i: int|
            0 <= i < gaps.len() ==> !is_doc_line(#[trigger] gaps[i]) && classify(gaps[i]) is None,
    ensures
        scan_lines(st, gaps).docs == st.docs,
        scan_lines(st, gaps).open,
        scan_lines(st, gaps).base == st.base,
    decreases gaps.len(),
{
    if gaps.len() > 0 {
        let init = gaps.drop_last();
        assert forall|i: int| 0 <= i < init.len() implies !is_doc_line(#[trigger] init[i])
            && classify(init[i]) is None by {
            assert(init[i] == gaps[i]);
        }
        lemma_gap_run(st, init);
        let _ = gaps.last();
        assert(!is_doc_line(gaps[gaps.len() - 1]));
    }
}

/// A run of comment lines, then lines that read as no declaration, then a declaration:
/// the whole run becomes the tag of one node, which holds the declaration's definition
/// and is placed as a class at the top level, or as a member of the file's last class.
pub proof fn lemma_gap_tolerance(
    st: ScanModel,
    comments: Seq<Seq<char>>,
    gaps: Seq<Seq<char>>,
    decl: Seq<char>,
)
    requires
        model_wf(st),
        !st.open,
        comments.len() > 0,
        forall|i: int| 0 <= i < comments.len() ==> is_doc_line(#[trigger] comments[i]),
        forall|i: int|
            0 <= i < gaps.len() ==> !is_doc_line(#[trigger] gaps[i]) && classify(gaps[i]) is None,
        !is_doc_line(decl),
        classify(decl) is Some,
    ensures
        !scan_lines(st, comments + gaps + seq![decl]).open,
        scan_lines(st, comments + gaps + seq![decl]).docs == attach(
            st.docs,
            st.base,
            DocModel {
                tag: comments,
                def: classify(decl)->Some_0,
                pkg: st.pkg,
                children: Seq::empty(),
            },
        ),
{
    lemma_comment_run(st, comments);
    let s1 = scan_lines(st, comments);
    lemma_gap_run(s1, gaps);
    let s2 = scan_lines(s1, gaps);
    lemma_scan_lines_append(st, comments, gaps);
    lemma_scan_lines_append(st, comments + gaps, seq![decl]);
    assert(seq![decl].drop_last() =~= Seq::<Seq<char>>::empty());
    assert(scan_lines(s2, seq![decl].drop_last()) == s2);
    assert(seq![decl].last() == decl);
    assert(s2.docs.drop_last() =~= st.docs);
    assert(s2.docs.last() == pending(comments, st.pkg));
}

/// A run of comment lines followed at once by a declaration becomes exactly one node,
/// whose tag is that run, in order.
pub proof fn lemma_comment_accumulation(st: ScanModel, comments: Seq<Seq<char>>, decl: Seq<char>)
    requires
        model_wf(st),
        !st.open,
        comments.len() > 0,
        forall|i: int| 0 <= i < comments.len() ==> is_doc_line(#[trigger] comments[i]),
        !is_doc_line(decl),
        classify(decl) is Some,
    ensures
        !scan_lines(st, comments.push(decl)).open,
        scan_lines(st, comments.push(decl)).docs == attach(
            st.docs,
            st.base,
            DocModel {
                tag: comments,
                def: classify(decl)->Some_0,
                pkg: st.pkg,
                children: Seq::empty(),
            },
        ),
{
    let e = Seq::<Seq<char>>::empty();
    lemma_gap_tolerance(st, comments, e, decl);
    assert(comments + e + seq![decl] =~= comments.push(decl));
}

/// The current package is the placeholder, and so is the package of every node of the
/// current file and of each of their members.
pub open spec fn pkg_fallback_ok(st: ScanModel) -> bool {
    &&& st.pkg == unknown_pkg()
    &&& forall|i: int| st.base <= i < st.docs.len() ==> (#[trigger] st.docs[i]).pkg == unknown_pkg()
    &&& forall|i: int, j: int|
        st.base <= i < st.docs.len() && 0 <= j < st.docs[i].children.len() ==> (
        #[trigger] st.docs[i].children[j]).pkg == unknown_pkg()
}

proof fn lemma_step_pkg(st: ScanModel, line: Seq<char>)
    requires
        model_wf(st),
        pkg_fallback_ok(st),
        package_of(line) is None,
    ensures
        pkg_fallback_ok(step(st, line)),
{
    let n = st.docs.len() - 1;
    if !is_doc_line(line) && st.open && st.docs.len() > 0 && classify(line) is Some {
        let rest = st.docs.drop_last();
        lemma_last_class(rest, st.base, rest.len() as int);
    }
}

proof fn lemma_scan_lines_pkg(st: ScanModel, lines: Seq<Seq<char>>)
    requires
        model_wf(st),
        nesting_ok(st.docs),
        pkg_fallback_ok(st),
        forall|i: int| 0 <= i < lines.len() ==> package_of(#[trigger] lines[i]) is None,
    ensures
        pkg_fallback_ok(scan_lines(st, lines)),
    decreases lines.len(),
{
    if lines.len() > 0 {
        let init = lines.drop_last();
        assert forall|i: int| 0 <= i < init.len() implies package_of(#[trigger] init[i]) is None by {
            assert(init[i] == lines[i]);
        }
        lemma_scan_lines_pkg(st, init);
        lemma_scan_lines_wf(st, init);
        assert(package_of(lines[lines.len() - 1]) is None);
        lemma_step_pkg(scan_lines(st, init), lines.last());
    }
}

/// A file with no `package` line gives every node it adds, and every member it nests,
/// the placeholder package.
pub proof fn lemma_package_fallback(a: Seq<Seq<Seq<char>>>, f: Seq<Seq<char>>)
    requires
        forall|i: int| 0 <= i < f.len() ==> package_of(#[trigger] f[i]) is None,
    ensures
        forall|i: int|
            walk_model(a).len() <= i < walk_model(a.push(f)).len() ==> (#[trigger] walk_model(
                a.push(f),
            )[i]).pkg == unknown_pkg(),
        forall|i: int, j: int|
            walk_model(a).len() <= i < walk_model(a.push(f)).len() && 0 <= j < walk_model(
                a.push(f),
            )[i].children.len() ==> (#[trigger] walk_model(a.push(f))[i].children[j]).pkg
                == unknown_pkg(),
{
    lemma_nesting(a);
    assert(a.push(f).drop_last() =~= a);
    assert(a.push(f).last() == f);
    let st = file_start(walk_model(a));
    lemma_scan_lines_pkg(st, f);
    lemma_scan_lines_wf(st, f);
    assert(scan_lines(st, f).base == walk_model(a).len());
    assert(walk_model(a.push(f)) == scan_lines(st, f).docs);
}

/// The state `st` with the nodes `d` standing before its collection.
pub open spec fn shifted(d: Seq<DocModel>, st: ScanModel) -> ScanModel {
    ScanModel { docs: d + st.docs, base: st.base + d.len(), ..st }
}

proof fn lemma_step_keeps_wf(st: ScanModel, line: Seq<char>)
    requires
        model_wf(st),
    ensures
        model_wf(step(st, line)),
{
    if !is_doc_line(line) && st.open && st.docs.len() > 0 && classify(line) is Some {
        let x = st.docs.drop_last();
        let node = DocModel { def: classify(line)->Some_0, ..st.docs[st.docs.len() - 1] };
        lemma_last_class(x, st.base, x.len() as int);
        assert(attach(x, st.base, node).len() >= x.len());
    } else if is_doc_line(line) && st.open && st.docs.len() > 0 {
        let n = st.docs.len() - 1;
        assert(step(st, line).docs.last() == DocModel {
            tag: st.docs[n].tag.push(line),
            ..st.docs[n]
        });
    }
}

proof fn lemma_last_class_shift(d: Seq<DocModel>, x: Seq<DocModel>, lo: int, n: int)
    requires
        0 <= lo,
        n <= x.len(),
    ensures
        last_class(d + x, lo + d.len(), n + d.len()) == match last_class(x, lo, n) {
            Some(j) => Some(j + d.len()),
            None => None,
        },
    decreases n - lo,
{
    if n > lo {
        assert((d + x)[n - 1 + d.len()] == x[n - 1]);
        lemma_last_class_shift(d, x, lo, n - 1);
    }
}

proof fn lemma_step_shift(d: Seq<DocModel>, st: ScanModel, line: Seq<char>)
    requires
        model_wf(st),
    ensures
        step(shifted(d, st), line) == shifted(d, step(st, line)),
{
    let sd = d + st.docs;
    let n = st.docs.len() - 1;
    let m = sd.len() - 1;
    if st.docs.len() > 0 {
        assert(sd[m] == st.docs[n]);
    }
    if is_doc_line(line) {
        if st.open {
            let node = DocModel { tag: st.docs[n].tag.push(line), ..st.docs[n] };
            assert(sd.update(m, node) =~= d + st.docs.update(n, node));
        } else {
            let pkg = match package_of(line) {
                Some(p) => p,
                None => st.pkg,
            };
            let node = DocModel {
                tag: seq![line],
                def: DefModel::Undefined,
                pkg,
                children: Seq::empty(),
            };
            assert(sd.push(node) =~= d + st.docs.push(node));
        }
    } else if st.open && classify(line) is Some {
        let x = st.docs.drop_last();
        let node = DocModel { def: classify(line)->Some_0, ..st.docs[n] };
        assert(sd.drop_last() =~= d + x);
        lemma_last_class_shift(d, x, st.base, x.len() as int);
        lemma_last_class(x, st.base, x.len() as int);
        if node.def is Class {
            assert((d + x).push(node) =~= d + x.push(node));
        } else {
            match last_class(x, st.base, x.len() as int) {
                Some(j) => {
                    let c = DocModel { children: x[j].children.push(as_member(node)), ..x[j] };
                    assert((d + x)[j + d.len()] == x[j]);
                    assert((d + x).update(j + d.len(), c) =~= d + x.update(j, c));
                },
                None => {
                    assert((d + x).push(node) =~= d + x.push(node));
                },
            }
        }
    }
}

proof fn lemma_scan_lines_shift(d: Seq<DocModel>, st: ScanModel, lines: Seq<Seq<char>>)
    requires
        model_wf(st),
    ensures
        model_wf(scan_lines(st, lines)),
        scan_lines(shifted(d, st), lines) == shifted(d, scan_lines(st, lines)),
    decreases lines.len(),
{
    if lines.len() > 0 {
        lemma_scan_lines_shift(d, st, lines.drop_last());
        let mid = scan_lines(st, lines.drop_last());
        lemma_step_shift(d, mid, lines.last());
        lemma_step_keeps_wf(mid, lines.last());
    }
}

/// Scanning a file after the nodes `d` gives `d` followed by what the file gives alone.
proof fn lemma_scan_file_shift(d: Seq<DocModel>, x: Seq<DocModel>, f: Seq<Seq<char>>)
    ensures
        scan_file(d + x, f) == d + scan_file(x, f),
{
    assert(file_start(d + x) == shifted(d, file_start(x)));
    lemma_scan_lines_shift(d, file_start(x), f);
}

proof fn lemma_scan_files_shift(d: Seq<DocModel>, files: Seq<Seq<Seq<char>>>)
    ensures
        scan_files(d, files) == d + walk_model(files),
    decreases files.len(),
{
    if files.len() == 0 {
        assert(d + Seq::<DocModel>::empty() =~= d);
    } else {
        lemma_scan_files_shift(d, files.drop_last());
        lemma_scan_file_shift(d, walk_model(files.drop_last()), files.last());
    }
}

/// Walking the files of one part of the tree and then those of another gives the first
/// collection followed by the second: no node stands for a directory, and nothing that one
/// part gives is moved into the other.
pub proof fn lemma_walk_joined(a: Seq<Seq<Seq<char>>>, b: Seq<Seq<Seq<char>>>)
    ensures
        walk_model(a + b) == walk_model(a) + walk_model(b),
{
    lemma_scan_files_append(Seq::empty(), a, b);
    lemma_scan_files_shift(walk_model(a), b);
}

/// The files of each directory in turn, in order.
pub open spec fn files_of(dirs: Seq<Seq<Seq<Seq<char>>>>) -> Seq<Seq<Seq<char>>>
    decreases dirs.len(),
{
    if dirs.len() == 0 {
        Seq::empty()
    } else {
        files_of(dirs.drop_last()) + dirs.last()
    }
}

/// The collection of each directory in turn, one after another.
pub open spec fn walks_of(dirs: Seq<Seq<Seq<Seq<char>>>>) -> Seq<DocModel>
    decreases dirs.len(),
{
    if dirs.len() == 0 {
        Seq::empty()
    } else {
        walks_of(dirs.drop_last()) + walk_model(dirs.last())
    }
}

/// A walk over subdirectories, one after another, gives the collections of the
/// subdirectories joined in that order: the result is flat.
pub proof fn lemma_directory_recursion(dirs: Seq<Seq<Seq<Seq<char>>>>)
    ensures
        walk_model(files_of(dirs)) == walks_of(dirs),
    decreases dirs.len(),
{
    if dirs.len() > 0 {
        lemma_directory_recursion(dirs.drop_last());
        lemma_walk_joined(files_of(dirs.drop_last()), dirs.last());
    }
}

} // verus!
