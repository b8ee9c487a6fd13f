use vstd::prelude::*;

verus! {

/// Whitespace: the characters of Unicode's White_Space property.
pub open spec fn is_ws(c: char) -> bool {
    ||| ('\u{9}' <= c && c <= '\u{d}')
    ||| c == ' '
    ||| c == '\u{85}'
    ||| c == '\u{a0}'
    ||| c == '\u{1680}'
    ||| ('\u{2000}' <= c && c <= '\u{200a}')
    ||| c == '\u{2028}'
    ||| c == '\u{2029}'
    ||| c == '\u{202f}'
    ||| c == '\u{205f}'
    ||| c == '\u{3000}'
}

/// ASCII letters and digits.
pub open spec fn is_alnum(c: char) -> bool {
    ('a' <= c && c <= 'z') || ('A' <= c && c <= 'Z') || ('0' <= c && c <= '9')
}

/// A character that may open a type token.
pub open spec fn is_ident_start(c: char) -> bool {
    ('a' <= c && c <= 'z') || ('A' <= c && c <= 'Z') || c == '_'
}

/// The classes of characters over which the scanners run.
#[derive(Clone, Copy)]
pub enum CharClass {
    Space,
    Token,
    AlphaNum,
    NoComma,
    NoParen,
    NoSpace,
}

pub open spec fn in_class(c: char, k: CharClass) -> bool {
    match k {
        CharClass::Space => is_ws(c),
        CharClass::Token => !is_ws(c),
        CharClass::AlphaNum => is_alnum(c),
        CharClass::NoComma => c != ',',
        CharClass::NoParen => c != '(' && c != ')',
        CharClass::NoSpace => c != ' ',
    }
}

/// The end of the longest run of characters of class `k` that starts at `i`.
pub open spec fn run_end(s: Seq<char>, i: int, k: CharClass) -> int
    decreases s.len() - i,
{
    if 0 <= i < s.len() && in_class(s[i], k) {
        run_end(s, i + 1, k)
    } else {
        i
    }
}

/// The start of the longest run of whitespace that ends at `k`, not going below `lo`.
pub open spec fn ws_back(s: Seq<char>, lo: int, k: int) -> int
    decreases k - lo,
{
    if lo < k <= s.len() && is_ws(s[k - 1]) {
        ws_back(s, lo, k - 1)
    } else {
        k
    }
}

/// The end of `s` once every trailing `{` is taken off.
pub open spec fn brace_trim_end(s: Seq<char>, k: int) -> int
    decreases k,
{
    if 0 < k <= s.len() && s[k - 1] == '{' {
        brace_trim_end(s, k - 1)
    } else {
        k
    }
}

/// `s` with every trailing `{` taken off.
pub open spec fn trim_braces(s: Seq<char>) -> Seq<char> {
    s.subrange(0, brace_trim_end(s, s.len() as int))
}

/// `s` without its leading and trailing whitespace.
pub open spec fn trim(s: Seq<char>) -> Seq<char> {
    let a = run_end(s, 0, CharClass::Space);
    s.subrange(a, ws_back(s, a, s.len() as int))
}

pub proof fn lemma_run_end(s: Seq<char>, i: int, k: CharClass)
    requires
        0 <= i <= s.len(),
    ensures
        i <= run_end(s, i, k) <= s.len(),
        forall|j: int| i <= j < run_end(s, i, k) ==> in_class(#[trigger] s[j], k),
        run_end(s, i, k) < s.len() ==> !in_class(s[run_end(s, i, k)], k),
    decreases s.len() - i,
{
    if i < s.len() && in_class(s[i], k) {
        lemma_run_end(s, i + 1, k);
    }
}

pub fn is_ws_exec(c: char) -> (r: bool)
    ensures
        r == is_ws(c),
{
    ('\u{9}' <= c && c <= '\u{d}') || c == ' ' || c == '\u{85}' || c == '\u{a0}' || c
        == '\u{1680}' || ('\u{2000}' <= c && c <= '\u{200a}') || c == '\u{2028}' || c
        == '\u{2029}' || c == '\u{202f}' || c == '\u{205f}' || c == '\u{3000}'
}

pub fn is_ident_start_exec(c: char) -> (r: bool)
    ensures
        r == is_ident_start(c),
{
    ('a' <= c && c <= 'z') || ('A' <= c && c <= 'Z') || c == '_'
}

pub fn in_class_exec(c: char, k: CharClass) -> (r: bool)
    ensures
        r == in_class(c, k),
{
    match k {
        CharClass::Space => is_ws_exec(c),
        CharClass::Token => !is_ws_exec(c),
        CharClass::AlphaNum => ('a' <= c && c <= 'z') || ('A' <= c && c <= 'Z') || ('0' <= c
            && c <= '9'),
        CharClass::NoComma => c != ',',
        CharClass::NoParen => c != '(' && c != ')',
        CharClass::NoSpace => c != ' ',
    }
}

/// Runs over the characters of class `k` from `i`.
pub fn scan_run(s: &Vec<char>, i: usize, k: CharClass) -> (r: usize)
    requires
        i <= s.len(),
    ensures
        r == run_end(s@, i as int, k),
        i <= r <= s.len(),
{
    let mut j: usize = i;
    while j < s.len() && in_class_exec(s[j], k)
        invariant
            i <= j <= s.len(),
            run_end(s@, i as int, k) == run_end(s@, j as int, k),
        decreases s.len() - j,
    {
        j = j + 1;
    }
    j
}

/// Steps back over the whitespace that ends at `k`, not going below `lo`.
pub fn scan_ws_back(s: &Vec<char>, lo: usize, k: usize) -> (r: usize)
    requires
        lo <= k <= s.len(),
    ensures
        r == ws_back(s@, lo as int, k as int),
        lo <= r <= k,
{
    let mut j: usize = k;
    while j > lo && is_ws_exec(s[j - 1])
        invariant
            lo <= j <= k <= s.len(),
            ws_back(s@, lo as int, k as int) == ws_back(s@, lo as int, j as int),
        decreases j,
    {
        j = j - 1;
    }
    j
}

/// Steps back over the `{` that end `s`.
pub fn scan_brace_trim(s: &Vec<char>) -> (r: usize)
    ensures
        r == brace_trim_end(s@, s@.len() as int),
        r <= s.len(),
{
    let mut j: usize = s.len();
    while j > 0 && s[j - 1] == '{'
        invariant
            j <= s.len(),
            brace_trim_end(s@, s@.len() as int) == brace_trim_end(s@, j as int),
        decreases j,
    {
        j = j - 1;
    }
    j
}

/// The characters of `s`, in order.
pub fn chars_of(s: &str) -> (r: Vec<char>)
    ensures
        r@ == s@,
{
    let mut v: Vec<char> = Vec::new();
    for c in it: s.chars()
        invariant
            v@ == it.seq().take(it.index() as int),
    {
        v.push(c);
    }
    v
}

/// The characters `from..to` of `s` as a new string.
pub fn slice_string(s: &str, from: usize, to: usize) -> (r: String)
    requires
        from <= to <= s@.len(),
    ensures
        r@ == s@.subrange(from as int, to as int),
{
    s.substring_char(from, to).to_owned()
}

/// Whether `w` spells out `t`.
pub fn chars_eq(w: &Vec<char>, from: usize, to: usize, t: &str) -> (r: bool)
    requires
        from <= to <= w.len(),
    ensures
        r == (w@.subrange(from as int, to as int) == t@),
{
    let n = t.unicode_len();
    if to - from != n {
        return false;
    }
    let mut i: usize = 0;
    while i < n
        invariant
            n == t@.len(),
            to - from == n,
            from <= to <= w.len(),
            i <= n,
            forall|j: int| 0 <= j < i ==> w@[from + j] == t@[j],
        decreases n - i,
    {
        if w[from + i] != t.get_char(i) {
            assert(w@.subrange(from as int, to as int)[i as int] != t@[i as int]);
            return false;
        }
        i = i + 1;
    }
    assert(w@.subrange(from as int, to as int) =~= t@);
    true
}

} // verus!
