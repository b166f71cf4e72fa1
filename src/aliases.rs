//! Maps from a signature to the identifier that replaces its generated name.
use vstd::prelude::*;

verus! {

/// The map that a list of (signature, name) writes describes: a later write of
/// a signature replaces an earlier one.
pub open spec fn map_of(s: Seq<(String, String)>) -> Map<Seq<char>, Seq<char>>
    decreases s.len(),
{
    if s.len() == 0 {
        Map::empty()
    } else {
        map_of(s.drop_last()).insert(s.last().0@, s.last().1@)
    }
}

/// Signature-to-name aliases; writing a signature again overrides it.
#[derive(Debug, Clone)]
pub struct AliasMap {
    writes: Vec<(String, String)>,
}

impl View for AliasMap {
    type V = Map<Seq<char>, Seq<char>>;

    closed spec fn view(&self) -> Map<Seq<char>, Seq<char>> {
        map_of(self.writes@)
    }
}

proof fn lemma_map_of_suffix_free(s: Seq<(String, String)>, i: int, k: Seq<char>)
    requires
        0 <= i <= s.len(),
        forall|j: int| i <= j < s.len() ==> (#[trigger] s[j]).0@ != k,
    ensures
        map_of(s).contains_key(k) == map_of(s.subrange(0, i)).contains_key(k),
        map_of(s).contains_key(k) ==> map_of(s)[k] == map_of(s.subrange(0, i))[k],
    decreases s.len() - i,
{
    if i < s.len() {
        let t = s.drop_last();
        assert(s.last() == s[s.len() - 1]);
        lemma_map_of_suffix_free(t, i, k);
        assert(t.subrange(0, i) =~= s.subrange(0, i));
    } else {
        assert(s.subrange(0, i) =~= s);
    }
}

impl AliasMap {
    /// An empty map.
    pub fn new() -> (r: AliasMap)
        ensures
            r@ == Map::<Seq<char>, Seq<char>>::empty(),
    {
        AliasMap { writes: Vec::new() }
    }

    /// Maps `signature` to `name`, replacing what it was mapped to.
    pub fn insert(&mut self, signature: String, name: String)
        ensures
            final(self)@ == old(self)@.insert(signature@, name@),
    {
        let ghost before = self.writes@;
        self.writes.push((signature, name));
        assert(self.writes@.drop_last() =~= before);
    }

    /// The name that `signature` is mapped to, if any.
    pub fn get(&self, signature: &str) -> (r: Option<&String>)
        ensures
            r is Some <==> self@.contains_key(signature@),
            r is Some ==> r->Some_0@ == self@[signature@],
    {
        let mut i = self.writes.len();
        while i > 0
            invariant
                i <= self.writes@.len(),
                forall|j: int| i <= j < self.writes@.len() ==> (#[trigger] self.writes@[j]).0@
                    != signature@,
            decreases i,
        {
            let e = &self.writes[i - 1];
            if str_eq(e.0.as_str(), signature) {
                proof {
                    let s = self.writes@;
                    lemma_map_of_suffix_free(s, i as int, signature@);
                    let p = s.subrange(0, i as int);
                    assert(p.drop_last() =~= s.subrange(0, i - 1));
                    assert(p.last() == s[i - 1]);
                }
                return Some(&e.1);
            }
            i = i - 1;
        }
        proof {
            lemma_map_of_suffix_free(self.writes@, 0, signature@);
            assert(self.writes@.subrange(0, 0) =~= Seq::<(String, String)>::empty());
        }
        None
    }
}

/// Whether two texts are equal, character by character.
pub fn str_eq(a: &str, b: &str) -> (r: bool)
    ensures
        r == (a@ == b@),
{
    let n = a.unicode_len();
    if n != b.unicode_len() {
        return false;
    }
    let mut i: usize = 0;
    while i < n
        invariant
            n == a@.len(),
            n == b@.len(),
            i <= n,
            forall|j: int| 0 <= j < i ==> a@[j] == b@[j],
        decreases n - i,
    {
        if a.get_char(i) != b.get_char(i) {
            return false;
        }
        i = i + 1;
    }
    assert(a@ =~= b@);
    true
}

} // verus!
