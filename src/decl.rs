use vstd::prelude::*;

use crate::doc::{DefModel, Definition, ClassDef, FieldDef, MethodDef, Variable, vars_view};
use crate::text::{
    CharClass, chars_eq, chars_of, is_ident_start, is_ident_start_exec, lemma_run_end,
    run_end, scan_brace_trim, scan_run, slice_string, trim_braces,
};

verus! {

/// `c` read without regard to ASCII case equals the lower-case letter `l`.
pub open spec fn ci_eq(c: char, l: char) -> bool {
    c == l || ('A' <= c && c <= 'Z' && c as u32 + 32 == l as u32)
}

/// The characters `i..e` of `s` spell `w` without regard to ASCII case.
pub open spec fn ci_word(s: Seq<char>, i: int, e: int, w: Seq<char>) -> bool {
    e - i == w.len() && forall|j: int| 0 <= j < w.len() ==> ci_eq(#[trigger] s[i + j], w[j])
}

/// The characters `i..e` of `s` are one of the modifier keywords.
pub open spec fn is_modifier(s: Seq<char>, i: int, e: int) -> bool {
    ||| ci_word(s, i, e, "public"@)
    ||| ci_word(s, i, e, "private"@)
    ||| ci_word(s, i, e, "final"@)
    ||| ci_word(s, i, e, "default"@)
    ||| ci_word(s, i, e, "protected"@)
    ||| ci_word(s, i, e, "abstract"@)
    ||| ci_word(s, i, e, "static"@)
    ||| ci_word(s, i, e, "transient"@)
    ||| ci_word(s, i, e, "synchronized"@)
    ||| ci_word(s, i, e, "volatile"@)
}

/// Where the modifiers that start at `i` end: each is a keyword followed by whitespace.
pub open spec fn mods_end(s: Seq<char>, i: int) -> int
    decreases s.len() - i,
    via mods_end_decreases
{
    let e = run_end(s, i, CharClass::Token);
    if 0 <= i < e < s.len() && is_modifier(s, i, e) {
        mods_end(s, run_end(s, e, CharClass::Space))
    } else {
        i
    }
}

#[via_fn]
proof fn mods_end_decreases(s: Seq<char>, i: int) {
    let e = run_end(s, i, CharClass::Token);
    if 0 <= i < e < s.len() {
        lemma_run_end(s, i, CharClass::Token);
        lemma_run_end(s, e, CharClass::Space);
    }
}

/// Where the text of the line starts.
pub open spec fn lead(s: Seq<char>) -> int {
    run_end(s, 0, CharClass::Space)
}

/// Where the type token starts, after the modifiers.
pub open spec fn type_start(s: Seq<char>) -> int {
    mods_end(s, lead(s))
}

pub open spec fn type_end(s: Seq<char>) -> int {
    run_end(s, type_start(s), CharClass::Token)
}

pub open spec fn name_start(s: Seq<char>) -> int {
    run_end(s, type_end(s), CharClass::Space)
}

pub open spec fn name_end(s: Seq<char>) -> int {
    run_end(s, name_start(s), CharClass::AlphaNum)
}

/// The line reads `modifiers* type name`: a type token that opens like an identifier,
/// whitespace, and an alphanumeric name.
pub open spec fn has_shape(s: Seq<char>) -> bool {
    &&& type_start(s) < s.len()
    &&& is_ident_start(s[type_start(s)])
    &&& type_end(s) < s.len()
    &&& name_start(s) < name_end(s)
}

/// Where the parameter list that follows the name closes, if it does.
pub open spec fn close_paren(s: Seq<char>) -> int {
    run_end(s, name_end(s) + 1, CharClass::NoParen)
}

/// A parenthesised list with no inner parenthesis follows the name at once.
pub open spec fn has_params(s: Seq<char>) -> bool {
    &&& name_end(s) < s.len()
    &&& s[name_end(s)] == '('
    &&& close_paren(s) < s.len()
    &&& s[close_paren(s)] == ')'
}

/// The text between the parentheses.
pub open spec fn params_text(s: Seq<char>) -> Seq<char> {
    s.subrange(name_end(s) + 1, close_paren(s))
}

/// A parameter is exactly two tokens, its type and its name, between optional whitespace.
pub open spec fn var_of(p: Seq<char>) -> Option<(Seq<char>, Seq<char>)> {
    let a = run_end(p, 0, CharClass::Space);
    let b = run_end(p, a, CharClass::Token);
    let c = run_end(p, b, CharClass::Space);
    let d = run_end(p, c, CharClass::Token);
    if a < b && c < d && run_end(p, d, CharClass::Space) == p.len() {
        Some((p.subrange(a, b), p.subrange(c, d)))
    } else {
        None
    }
}

/// The parameters from `i` on, split at each comma; none if one is malformed.
pub open spec fn params_from(p: Seq<char>, i: int) -> Option<Seq<(Seq<char>, Seq<char>)>>
    decreases p.len() - i,
    via params_from_decreases
{
    if 0 <= i <= p.len() {
        let k = run_end(p, i, CharClass::NoComma);
        match var_of(p.subrange(i, k)) {
            None => None,
            Some(v) => if k >= p.len() {
                Some(seq![v])
            } else {
                match params_from(p, k + 1) {
                    Some(rest) => Some(seq![v] + rest),
                    None => None,
                }
            },
        }
    } else {
        None
    }
}

#[via_fn]
proof fn params_from_decreases(p: Seq<char>, i: int) {
    if 0 <= i <= p.len() {
        lemma_run_end(p, i, CharClass::NoComma);
    }
}

/// The parameter list: empty when only whitespace stands between the parentheses.
pub open spec fn parse_params(p: Seq<char>) -> Option<Seq<(Seq<char>, Seq<char>)>> {
    if run_end(p, 0, CharClass::Space) == p.len() {
        Some(Seq::empty())
    } else {
        params_from(p, 0)
    }
}

/// What a declaration line defines, if it reads as one.
///
/// A `class` type token makes a class; a well-formed parameter list after the name makes
/// a method; anything else of the right shape is a field.
pub open spec fn classify(s: Seq<char>) -> Option<DefModel> {
    if !has_shape(s) {
        None
    } else {
        let name = s.subrange(name_start(s), name_end(s));
        let modifiers = s.subrange(lead(s), type_start(s));
        if s.subrange(type_start(s), type_end(s)) == "class"@ {
            Some(DefModel::Class { name, modifiers, raw: trim_braces(s) })
        } else if has_params(s) && parse_params(params_text(s)) is Some {
            Some(DefModel::Method {
                name,
                modifiers,
                args: parse_params(params_text(s)),
                raw: trim_braces(s),
            })
        } else {
            Some(DefModel::Field { name, modifiers, raw: s })
        }
    }
}

/// Compares the characters `i..e` of `s` with the lower-case word `w`, ignoring ASCII case.
fn ci_word_exec(s: &Vec<char>, i: usize, e: usize, w: &str) -> (r: bool)
    requires
        i <= e <= s.len(),
    ensures
        r == ci_word(s@, i as int, e as int, w@),
{
    let n = w.unicode_len();
    if e - i != n {
        return false;
    }
    let mut j: usize = 0;
    while j < n
        invariant
            n == w@.len(),
            e - i == n,
            i <= e <= s.len(),
            j <= n,
            forall|m: int| 0 <= m < j ==> ci_eq(#[trigger] s@[i + m], w@[m]),
        decreases n - j,
    {
        let c = s[i + j];
        let l = w.get_char(j);
        if !(c == l || ('A' <= c && c <= 'Z' && (c as u32) + 32 == l as u32)) {
            assert(!ci_eq(s@[i + j], w@[j as int]));
            return false;
        }
        j = j + 1;
    }
    true
}

fn is_modifier_exec(s: &Vec<char>, i: usize, e: usize) -> (r: bool)
    requires
        i <= e <= s.len(),
    ensures
        r == is_modifier(s@, i as int, e as int),
{
    ci_word_exec(s, i, e, "public") || ci_word_exec(s, i, e, "private") || ci_word_exec(
        s,
        i,
        e,
        "final",
    ) || ci_word_exec(s, i, e, "default") || ci_word_exec(s, i, e, "protected") || ci_word_exec(
        s,
        i,
        e,
        "abstract",
    ) || ci_word_exec(s, i, e, "static") || ci_word_exec(s, i, e, "transient") || ci_word_exec(
        s,
        i,
        e,
        "synchronized",
    ) || ci_word_exec(s, i, e, "volatile")
}

fn scan_mods(s: &Vec<char>, i: usize) -> (r: usize)
    requires
        i <= s.len(),
    ensures
        r == mods_end(s@, i as int),
        i <= r <= s.len(),
    decreases s.len() - i,
{
    let e = scan_run(s, i, CharClass::Token);
    if i < e && e < s.len() && is_modifier_exec(s, i, e) {
        let n = scan_run(s, e, CharClass::Space);
        scan_mods(s, n)
    } else {
        i
    }
}

/// Parses the parameters of `p` from `i` on, as `params_from` reads them.
fn scan_params(p: &str, cs: &Vec<char>, i: usize) -> (r: Option<Vec<Variable>>)
    requires
        cs@ == p@,
        i <= cs.len(),
    ensures
        match r {
            Some(v) => params_from(p@, i as int) == Some(vars_view(v@)),
            None => params_from(p@, i as int) is None,
        },
    decreases cs.len() - i,
{
    let k = scan_run(cs, i, CharClass::NoComma);
    let piece = p.substring_char(i, k);
    match Variable::from_str(piece) {
        None => None,
        Some(v) => {
            if k >= cs.len() {
                let mut out: Vec<Variable> = Vec::new();
                out.push(v);
                assert(vars_view(out@) =~= seq![v@]);
                Some(out)
            } else {
                match scan_params(p, cs, k + 1) {
                    Some(rest) => {
                        let mut out: Vec<Variable> = Vec::new();
                        out.push(v);
                        let mut rest = rest;
                        let ghost rv = rest@;
                        out.append(&mut rest);
                        assert(vars_view(out@) =~= seq![v@] + vars_view(rv));
                        Some(out)
                    },
                    None => None,
                }
            }
        },
    }
}

impl Variable {
    /// Reads a parameter written as its type and its name; `None` unless the text is
    /// exactly those two tokens.
    pub fn from_str(s: &str) -> (r: Option<Variable>)
        ensures
            match r {
                Some(v) => var_of(s@) == Some(v@),
                None => var_of(s@) is None,
            },
    {
        let cs = chars_of(s);
        let a = scan_run(&cs, 0, CharClass::Space);
        let b = scan_run(&cs, a, CharClass::Token);
        let c = scan_run(&cs, b, CharClass::Space);
        let d = scan_run(&cs, c, CharClass::Token);
        let e = scan_run(&cs, d, CharClass::Space);
        if a < b && c < d && e == cs.len() {
            let ty = slice_string(s, a, b);
            let name = slice_string(s, c, d);
            Some(Variable::new(name, ty))
        } else {
            None
        }
    }
}

impl Definition {
    /// Classifies a declaration line; `None` when it does not read as one.
    pub fn derive(s: String) -> (r: Option<Definition>)
        ensures
            match r {
                Some(d) => classify(s@) == Some(d@) && d.children().len() == 0,
                None => classify(s@) is None,
            },
    {
        let line = s.as_str();
        let cs = chars_of(line);
        let n = cs.len();
        let lead = scan_run(&cs, 0, CharClass::Space);
        let ts = scan_mods(&cs, lead);
        if ts >= n || !is_ident_start_exec(cs[ts]) {
            return None;
        }
        let te = scan_run(&cs, ts, CharClass::Token);
        if te >= n {
            return None;
        }
        let ns = scan_run(&cs, te, CharClass::Space);
        let ne = scan_run(&cs, ns, CharClass::AlphaNum);
        if ns >= ne {
            return None;
        }
        let name = slice_string(line, ns, ne);
        let modifiers = slice_string(line, lead, ts);
        if chars_eq(&cs, ts, te, "class") {
            let k = scan_brace_trim(&cs);
            let raw = slice_string(line, 0, k);
            let c = ClassDef::new(name, modifiers, raw, Vec::new());
            assert(Definition::Class(c).children() =~= Seq::empty());
            return Some(Definition::Class(c));
        }
        if ne < n && cs[ne] == '(' {
            let close = scan_run(&cs, ne + 1, CharClass::NoParen);
            if close < n && cs[close] == ')' {
                let text = slice_string(line, ne + 1, close);
                let tcs = chars_of(text.as_str());
                let blank = scan_run(&tcs, 0, CharClass::Space);
                let args = if blank == tcs.len() {
                    let v: Vec<Variable> = Vec::new();
                    assert(vars_view(v@) =~= Seq::empty());
                    Some(v)
                } else {
                    scan_params(text.as_str(), &tcs, 0)
                };
                if args.is_some() {
                    let k = scan_brace_trim(&cs);
                    let raw = slice_string(line, 0, k);
                    return Some(Definition::Method(MethodDef::new(name, modifiers, args, raw)));
                }
            }
        }
        Some(Definition::Field(FieldDef::new(name, modifiers, s)))
    }
}

} // verus!
