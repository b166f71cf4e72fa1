//! Classification of the text that names where a contract's interface lives.
use vstd::prelude::*;

verus! {

/// Where the interface description of a contract is to be found.
#[derive(Debug, Clone, PartialEq, Eq)]
pub enum Source {
    /// A JSON array or object given inline.
    InlineJson(String),
    /// A list of human-readable declarations given inline, such as `[function f() view]`.
    InlineSchema(String),
    /// A path on the local file system, read when the bindings are generated.
    FilePath(String),
    /// A remote reference (`http`, `https`, `etherscan` or `npm` scheme), fetched when needed.
    RemoteRef(String),
}

/// Why a source text could not be classified.
#[derive(Debug, Clone, PartialEq, Eq)]
pub enum SourceError {
    /// The text is none of the recognised forms.
    Unrecognized(String),
    /// A path's content could not be read.
    IoFailure(String),
    /// A remote reference could not be fetched.
    FetchFailure(String),
}

/// The four kinds of source, without their text.
#[derive(Debug, Clone, Copy, PartialEq, Eq)]
pub enum SourceKind {
    InlineJson,
    InlineSchema,
    FilePath,
    RemoteRef,
}

pub open spec fn is_space(c: char) -> bool {
    c == ' ' || c == '\t' || c == '\n' || c == '\r'
}

pub open spec fn is_ascii_letter(c: char) -> bool {
    ('a' <= c && c <= 'z') || ('A' <= c && c <= 'Z')
}

/// The first index at or after `i` that holds no white space (the length if none).
pub open spec fn skip_space(s: Seq<char>, i: int) -> int
    decreases s.len() - i,
{
    if i < 0 || i >= s.len() {
        s.len() as int
    } else if is_space(s[i]) {
        skip_space(s, i + 1)
    } else {
        i
    }
}

/// Where a URL-like scheme ends: the index of the first `:`, when two or more
/// ASCII letters come before it and nothing else does.
pub open spec fn scheme_end(s: Seq<char>, i: int) -> Option<int>
    decreases s.len() - i,
{
    if i < 0 || i >= s.len() {
        None
    } else if s[i] == ':' {
        if i >= 2 { Some(i) } else { None }
    } else if is_ascii_letter(s[i]) {
        scheme_end(s, i + 1)
    } else {
        None
    }
}

pub open spec fn is_remote_scheme(sc: Seq<char>) -> bool {
    sc == seq!['h', 't', 't', 'p'] || sc == seq!['h', 't', 't', 'p', 's']
        || sc == seq!['e', 't', 'h', 'e', 'r', 's', 'c', 'a', 'n'] || sc == seq!['n', 'p', 'm']
}

pub open spec fn is_file_scheme(sc: Seq<char>) -> bool {
    sc == seq!['f', 'i', 'l', 'e']
}

/// The kind of source that a text describes, first match winning: a bracket
/// followed by a declaration is an inline schema; a bracket or a brace is inline
/// JSON; a known scheme is a remote reference (or a path, for `file:`); any other
/// scheme is refused; a single line is a path; anything else is refused.
pub open spec fn classify(s: Seq<char>) -> Option<SourceKind> {
    let t = skip_space(s, 0);
    if t >= s.len() {
        None
    } else if s[t] == '[' && skip_space(s, t + 1) < s.len() && s[skip_space(s, t + 1)] != '{'
        && s[skip_space(s, t + 1)] != ']' {
        Some(SourceKind::InlineSchema)
    } else if s[t] == '[' || s[t] == '{' {
        Some(SourceKind::InlineJson)
    } else if scheme_end(s, 0) is Some {
        let sc = s.subrange(0, scheme_end(s, 0)->0);
        if is_remote_scheme(sc) {
            Some(SourceKind::RemoteRef)
        } else if is_file_scheme(sc) {
            Some(SourceKind::FilePath)
        } else {
            None
        }
    } else if !s.contains('\n') {
        Some(SourceKind::FilePath)
    } else {
        None
    }
}

impl Source {
    pub open spec fn kind(&self) -> SourceKind {
        match self {
            Source::InlineJson(_) => SourceKind::InlineJson,
            Source::InlineSchema(_) => SourceKind::InlineSchema,
            Source::FilePath(_) => SourceKind::FilePath,
            Source::RemoteRef(_) => SourceKind::RemoteRef,
        }
    }

    pub open spec fn text(&self) -> Seq<char> {
        match self {
            Source::InlineJson(t) => t@,
            Source::InlineSchema(t) => t@,
            Source::FilePath(t) => t@,
            Source::RemoteRef(t) => t@,
        }
    }

    /// Classifies `raw`; the source keeps the text as given.
    pub fn parse(raw: &str) -> (r: Result<Source, SourceError>)
        ensures
            classify(raw@) is None <==> r is Err,
            r is Err ==> r->Err_0 == SourceError::Unrecognized(r->Err_0->Unrecognized_0)
                && r->Err_0->Unrecognized_0@ == raw@,
            r is Ok ==> Some(r->Ok_0.kind()) == classify(raw@) && r->Ok_0.text() == raw@,
    {
        let owned = raw.to_owned();
        match classify_str(raw) {
            Some(SourceKind::InlineJson) => Ok(Source::InlineJson(owned)),
            Some(SourceKind::InlineSchema) => Ok(Source::InlineSchema(owned)),
            Some(SourceKind::FilePath) => Ok(Source::FilePath(owned)),
            Some(SourceKind::RemoteRef) => Ok(Source::RemoteRef(owned)),
            None => Err(SourceError::Unrecognized(owned)),
        }
    }

    /// The text of an inline source; `None` for a path or a remote reference,
    /// whose content must be read or fetched first.
    pub fn inline_text(&self) -> (r: Option<&String>)
        ensures
            r is Some <==> (self.kind() == SourceKind::InlineJson || self.kind()
                == SourceKind::InlineSchema),
            r is Some ==> r->Some_0@ == self.text(),
    {
        match self {
            Source::InlineJson(t) => Some(t),
            Source::InlineSchema(t) => Some(t),
            _ => None,
        }
    }

    /// The text that the source was made from.
    pub fn as_text(&self) -> (r: &String)
        ensures
            r@ == self.text(),
    {
        match self {
            Source::InlineJson(t) => t,
            Source::InlineSchema(t) => t,
            Source::FilePath(t) => t,
            Source::RemoteRef(t) => t,
        }
    }
}

fn skip_space_exec(s: &str, i: usize, n: usize) -> (r: usize)
    requires
        n == s@.len(),
        i <= n,
    ensures
        r as int == skip_space(s@, i as int),
{
    let mut j = i;
    while j < n
        invariant
            n == s@.len(),
            i <= j <= n,
            skip_space(s@, i as int) == skip_space(s@, j as int),
        decreases n - j,
    {
        let c = s.get_char(j);
        if !(c == ' ' || c == '\t' || c == '\n' || c == '\r') {
            return j;
        }
        j = j + 1;
    }
    j
}

fn scheme_end_exec(s: &str, n: usize) -> (r: Option<usize>)
    requires
        n == s@.len(),
    ensures
        r is Some <==> scheme_end(s@, 0) is Some,
        r is Some ==> scheme_end(s@, 0) == Some(r->Some_0 as int),
        r is Some ==> r->Some_0 < n,
{
    let mut j: usize = 0;
    while j < n
        invariant
            n == s@.len(),
            j <= n,
            scheme_end(s@, 0) == scheme_end(s@, j as int),
        decreases n - j,
    {
        let c = s.get_char(j);
        if c == ':' {
            if j >= 2 {
                return Some(j);
            } else {
                return None;
            }
        } else if !(('a' <= c && c <= 'z') || ('A' <= c && c <= 'Z')) {
            return None;
        }
        j = j + 1;
    }
    None
}

/// Whether the first `k` characters of `s` are exactly `word`.
fn prefix_is(s: &str, k: usize, w: &[char]) -> (r: bool)
    requires
        k <= s@.len(),
    ensures
        r == (s@.subrange(0, k as int) == w@),
{
    if w.len() != k {
        return false;
    }
    let mut j: usize = 0;
    while j < k
        invariant
            k <= s@.len(),
            w@.len() == k,
            j <= k,
            forall|m: int| 0 <= m < j ==> s@[m] == w@[m],
        decreases k - j,
    {
        if s.get_char(j) != w[j] {
            return false;
        }
        j = j + 1;
    }
    assert(s@.subrange(0, k as int) =~= w@);
    true
}

fn has_newline(s: &str, n: usize) -> (r: bool)
    requires
        n == s@.len(),
    ensures
        r == s@.contains('\n'),
{
    let mut j: usize = 0;
    while j < n
        invariant
            n == s@.len(),
            j <= n,
            forall|m: int| 0 <= m < j ==> s@[m] != '\n',
        decreases n - j,
    {
        if s.get_char(j) == '\n' {
            return true;
        }
        j = j + 1;
    }
    false
}

/// Computes `classify` on a string.
pub fn classify_str(s: &str) -> (r: Option<SourceKind>)
    ensures
        r == classify(s@),
{
    let n = s.unicode_len();
    let t = skip_space_exec(s, 0, n);
    if t >= n {
        return None;
    }
    let c = s.get_char(t);
    if c == '[' {
        let u = skip_space_exec(s, t + 1, n);
        if u < n {
            let d = s.get_char(u);
            if d != '{' && d != ']' {
                return Some(SourceKind::InlineSchema);
            }
        }
        return Some(SourceKind::InlineJson);
    }
    if c == '{' {
        return Some(SourceKind::InlineJson);
    }
    match scheme_end_exec(s, n) {
        Some(k) => {
            let http = ['h', 't', 't', 'p'];
            let https = ['h', 't', 't', 'p', 's'];
            let ethscan = ['e', 't', 'h', 'e', 'r', 's', 'c', 'a', 'n'];
            let npm = ['n', 'p', 'm'];
            let file = ['f', 'i', 'l', 'e'];
            assert(http@ == seq!['h', 't', 't', 'p']);
            assert(https@ == seq!['h', 't', 't', 'p', 's']);
            assert(ethscan@ == seq!['e', 't', 'h', 'e', 'r', 's', 'c', 'a', 'n']);
            assert(npm@ == seq!['n', 'p', 'm']);
            assert(file@ == seq!['f', 'i', 'l', 'e']);
            if prefix_is(s, k, &http)
                || prefix_is(s, k, &https)
                || prefix_is(s, k, &ethscan)
                || prefix_is(s, k, &npm) {
                Some(SourceKind::RemoteRef)
            } else if prefix_is(s, k, &file) {
                Some(SourceKind::FilePath)
            } else {
                None
            }
        },
        None => {
            if has_newline(s, n) {
                None
            } else {
                Some(SourceKind::FilePath)
            }
        },
    }
}

} // verus!
