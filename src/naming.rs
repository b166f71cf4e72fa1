//! Module names derived from contract names.
use vstd::prelude::*;

verus! {

/// What `inflector`'s snake-case conversion gives for a text.
pub uninterp spec fn snake_case_of(s: Seq<char>) -> Seq<char>;

/// Relies on `inflector::cases::snakecase::to_snake_case`: the result depends on
/// the characters alone, and an empty text stays empty.
#[verifier::external_body]
pub(crate) fn snake_case(s: &str) -> (r: String)
    ensures
        r@ == snake_case_of(s@),
        s@.len() == 0 ==> r@.len() == 0,
{
    inflector::cases::snakecase::to_snake_case(s)
}

pub open spec fn is_ident_start(c: char) -> bool {
    ('a' <= c && c <= 'z') || ('A' <= c && c <= 'Z') || c == '_'
}

pub open spec fn is_ident_char(c: char) -> bool {
    is_ident_start(c) || ('0' <= c && c <= '9')
}

/// A name that can stand as a module name: a letter or `_` first, then letters,
/// digits and `_`, and not `_` alone.
pub open spec fn is_identifier(s: Seq<char>) -> bool {
    &&& s.len() > 0
    &&& is_ident_start(s[0])
    &&& forall|i: int| 0 <= i < s.len() ==> is_ident_char(#[trigger] s[i])
    &&& s != seq!['_']
}

/// Whether `s` can stand as a module name.
pub fn check_identifier(s: &str) -> (r: bool)
    ensures
        r == is_identifier(s@),
{
    let n = s.unicode_len();
    if n == 0 {
        return false;
    }
    let c0 = s.get_char(0);
    if !(('a' <= c0 && c0 <= 'z') || ('A' <= c0 && c0 <= 'Z') || c0 == '_') {
        return false;
    }
    if n == 1 && c0 == '_' {
        assert(s@ =~= seq!['_']);
        return false;
    }
    let mut i: usize = 0;
    while i < n
        invariant
            n == s@.len(),
            i <= n,
            forall|j: int| 0 <= j < i ==> is_ident_char(#[trigger] s@[j]),
        decreases n - i,
    {
        let c = s.get_char(i);
        if !(('a' <= c && c <= 'z') || ('A' <= c && c <= 'Z') || c == '_' || ('0' <= c && c
            <= '9')) {
            return false;
        }
        i = i + 1;
    }
    assert(s@ != seq!['_']) by {
        if s@ == seq!['_'] {
            assert(n == 1);
        }
    }
    true
}

/// The module name of a contract: its name in snake case.
pub fn module_name(contract_name: &str) -> (r: String)
    ensures
        r@ == snake_case_of(contract_name@),
{
    snake_case(contract_name)
}

} // verus!
