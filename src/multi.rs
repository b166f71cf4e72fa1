//! Generation of many contracts into one module directory.
use vstd::prelude::*;
use crate::abigen::{Abigen, AbigenView, ContractBindings, Expand, ExpandError};
use crate::aliases::str_eq;
use crate::naming::{check_identifier, is_identifier, module_name, snake_case_of};
use crate::order::{lemma_sorted_unique, sort_strings, sorted};
use crate::source::{SourceError, classify};

verus! {

/// Why a batch could not be generated.
#[derive(Debug, Clone, PartialEq, Eq)]
pub enum AbigenError {
    /// A contract's expansion failed.
    Expand(ExpandError),
    /// A contract's module name is no identifier.
    InvalidModuleName(String),
    /// Two contracts have the same module name.
    DuplicateModule(String),
}

/// Bindings generator for a series of contracts, written into one module.
#[derive(Debug)]
pub struct MultiAbigen {
    /// Whether all contracts go into the module file instead of a file each.
    pub single_file: bool,
    /// The contracts, in generation order.
    pub abigens: Vec<Abigen>,
}

/// The module name of a unit.
pub open spec fn unit_module(u: Abigen) -> Seq<char> {
    snake_case_of(u.contract_name@)
}

/// Every unit's module name is an identifier, no two are equal, and every
/// expansion succeeds.
pub open spec fn batch_ok<E: Expand>(e: &E, units: Seq<Abigen>) -> bool {
    &&& forall|i: int| 0 <= i < units.len() ==> is_identifier(unit_module(#[trigger] units[i]))
    &&& forall|i: int, j: int|
        0 <= i < j < units.len() ==> unit_module(#[trigger] units[i]) != unit_module(#[trigger] units[j])
    &&& forall|i: int| 0 <= i < units.len() ==> (e.expansion((#[trigger] units[i])@) is Ok)
}

/// The name of the module file.
pub open spec fn mod_file() -> Seq<char> {
    seq!['m', 'o', 'd', '.', 'r', 's']
}

pub open spec fn rs_suffix() -> Seq<char> {
    seq!['.', 'r', 's']
}

/// The comment that opens the module file.
pub open spec fn header() -> Seq<char> {
    "/// This module contains all the autogenerated abigen! contract bindings\n"@
}

pub open spec fn export_line(name: Seq<char>) -> Seq<char> {
    seq!['p', 'u', 'b', ' ', 'm', 'o', 'd', ' '] + name + seq![';']
}

/// The export lines of `names`, in order, joined by newlines.
pub open spec fn exports(names: Seq<Seq<char>>) -> Seq<char>
    decreases names.len(),
{
    if names.len() == 0 {
        Seq::empty()
    } else if names.len() == 1 {
        export_line(names[0])
    } else {
        exports(names.drop_last()) + seq!['\n'] + export_line(names.last())
    }
}

/// The texts of `parts`, one after the other.
pub open spec fn concat(parts: Seq<Seq<char>>) -> Seq<char>
    decreases parts.len(),
{
    if parts.len() == 0 {
        Seq::empty()
    } else {
        concat(parts.drop_last()) + parts.last()
    }
}

pub open spec fn views(s: Seq<String>) -> Seq<Seq<char>> {
    s.map_values(|x: String| x@)
}

/// `text` is the module file of modules `names`: the header, then their
/// export lines sorted by name.
pub open spec fn is_manifest(names: Seq<Seq<char>>, text: Seq<char>) -> bool {
    exists|s: Seq<Seq<char>>|
        s.to_multiset() == names.to_multiset() && sorted(s) && text == header() + exports(s)
}

/// The module file does not depend on the order of the modules.
pub proof fn lemma_manifest_order_independent(
    a: Seq<Seq<char>>,
    b: Seq<Seq<char>>,
    ta: Seq<char>,
    tb: Seq<char>,
)
    requires
        a.to_multiset() == b.to_multiset(),
        is_manifest(a, ta),
        is_manifest(b, tb),
    ensures
        ta == tb,
{
    let sa = choose|s: Seq<Seq<char>>|
        s.to_multiset() == a.to_multiset() && sorted(s) && ta == header() + exports(s);
    let sb = choose|s: Seq<Seq<char>>|
        s.to_multiset() == b.to_multiset() && sorted(s) && tb == header() + exports(s);
    lemma_sorted_unique(sa, sb);
}

/// The generated bindings of a batch, with the module name of each, in order.
#[derive(Debug)]
pub struct ModulePlan {
    pub single_file: bool,
    pub modules: Vec<(String, ContractBindings)>,
}

impl ModulePlan {
    pub open spec fn names(&self) -> Seq<Seq<char>> {
        self.modules@.map_values(|m: (String, ContractBindings)| m.0@)
    }
}

impl MultiAbigen {
    /// A batch of `abis`, each with formatting switched on.
    pub fn from_abigen(abis: Vec<Abigen>) -> (r: MultiAbigen)
        ensures
            !r.single_file,
            r.abigens@.len() == abis@.len(),
            forall|i: int|
                0 <= i < abis@.len() ==> (#[trigger] r.abigens@[i])@ == (AbigenView {
                    rustfmt: true,
                    ..abis@[i]@
                }),
    {
        let mut rest = abis;
        let ghost orig = rest@;
        let mut out: Vec<Abigen> = Vec::new();
        while rest.len() > 0
            invariant
                out@.len() + rest@.len() == orig.len(),
                rest@ == orig.subrange(out@.len() as int, orig.len() as int),
                forall|i: int|
                    0 <= i < out@.len() ==> (#[trigger] out@[i])@ == (AbigenView {
                        rustfmt: true,
                        ..orig[i]@
                    }),
            decreases rest@.len(),
        {
            let ghost k = out@.len();
            let a = rest.remove(0);
            assert(a == orig[k as int]);
            out.push(a.rustfmt(true));
            assert(rest@ =~= orig.subrange(out@.len() as int, orig.len() as int));
        }
        MultiAbigen { single_file: false, abigens: out }
    }

    /// A batch with one unit per (contract name, source) pair; the first source
    /// that cannot be classified fails the whole batch.
    pub fn new(abis: &Vec<(String, String)>) -> (r: Result<MultiAbigen, SourceError>)
        ensures
            r is Err <==> exists|i: int| 0 <= i < abis@.len() && classify((#[trigger] abis@[i]).1@) is None,
            r is Err ==> exists|i: int|
                0 <= i < abis@.len() && classify((#[trigger] abis@[i]).1@) is None && (forall|j: int|
                    0 <= j < i ==> classify((#[trigger] abis@[j]).1@) is Some)
                    && r->Err_0->Unrecognized_0@ == abis@[i].1@,
            r is Ok ==> {
                let b = r->Ok_0;
                &&& !b.single_file
                &&& b.abigens@.len() == abis@.len()
                &&& forall|i: int| 0 <= i < abis@.len() ==> {
                    let u = (#[trigger] b.abigens@[i])@;
                    &&& u.contract_name == abis@[i].0@
                    &&& u.abi_source.text() == abis@[i].1@
                    &&& Some(u.abi_source.kind()) == classify(abis@[i].1@)
                    &&& u.method_aliases == Map::<Seq<char>, Seq<char>>::empty()
                    &&& u.event_aliases == Map::<Seq<char>, Seq<char>>::empty()
                    &&& u.event_derives.len() == 0
                    &&& u.rustfmt
                }
            },
    {
        let mut units: Vec<Abigen> = Vec::new();
        let mut i: usize = 0;
        while i < abis.len()
            invariant
                i <= abis@.len(),
                units@.len() == i,
                forall|j: int| 0 <= j < i ==> classify((#[trigger] abis@[j]).1@) is Some,
                forall|j: int| 0 <= j < i ==> {
                    let u = (#[trigger] units@[j])@;
                    &&& u.contract_name == abis@[j].0@
                    &&& u.abi_source.text() == abis@[j].1@
                    &&& Some(u.abi_source.kind()) == classify(abis@[j].1@)
                    &&& u.method_aliases == Map::<Seq<char>, Seq<char>>::empty()
                    &&& u.event_aliases == Map::<Seq<char>, Seq<char>>::empty()
                    &&& u.event_derives.len() == 0
                    &&& u.rustfmt
                },
            decreases abis@.len() - i,
        {
            match Abigen::new(abis[i].0.as_str(), abis[i].1.as_str()) {
                Ok(u) => units.push(u),
                Err(e) => {
                    return Err(e);
                },
            }
            i = i + 1;
        }
        Ok(MultiAbigen { single_file: false, abigens: units })
    }

    /// The same batch, written into the module file alone.
    pub fn single_file(self) -> (r: MultiAbigen)
        ensures
            r.single_file,
            r.abigens@ == self.abigens@,
    {
        MultiAbigen { single_file: true, abigens: self.abigens }
    }

    /// Generates every unit in order, stopping at the first whose module name is
    /// no identifier or repeats an earlier one, or whose expansion fails.
    pub fn generate_all<E: Expand>(self, expander: &E) -> (r: Result<ModulePlan, AbigenError>)
        ensures
            r is Ok <==> batch_ok(expander, self.abigens@),
            r is Ok ==> {
                let p = r->Ok_0;
                &&& p.single_file == self.single_file
                &&& p.modules@.len() == self.abigens@.len()
                &&& forall|i: int| 0 <= i < p.modules@.len() ==> {
                    let m = #[trigger] p.modules@[i];
                    &&& m.0@ == unit_module(self.abigens@[i])
                    &&& expander.expansion(self.abigens@[i]@) == Ok::<Seq<char>, ExpandError>(m.1.tokens@)
                    &&& m.1.rustfmt == self.abigens@[i].rustfmt
                }
            },
            r matches Err(AbigenError::Expand(e)) ==> exists|i: int|
                0 <= i < self.abigens@.len() && expander.expansion((#[trigger] self.abigens@[i])@)
                    == Err::<Seq<char>, ExpandError>(e),
            r matches Err(AbigenError::InvalidModuleName(n)) ==> exists|i: int|
                0 <= i < self.abigens@.len() && unit_module(#[trigger] self.abigens@[i]) == n@
                    && !is_identifier(n@),
            r matches Err(AbigenError::DuplicateModule(n)) ==> exists|i: int, j: int|
                0 <= i < j < self.abigens@.len() && unit_module(#[trigger] self.abigens@[i]) == n@
                    && unit_module(#[trigger] self.abigens@[j]) == n@,
    {
        let ghost orig = self.abigens@;
        let single_file = self.single_file;
        let mut rest = self.abigens;
        let mut modules: Vec<(String, ContractBindings)> = Vec::new();
        while rest.len() > 0
            invariant
                orig == self.abigens@,
                single_file == self.single_file,
                modules@.len() + rest@.len() == orig.len(),
                rest@ == orig.subrange(modules@.len() as int, orig.len() as int),
                batch_ok(expander, orig.subrange(0, modules@.len() as int)),
                forall|i: int| 0 <= i < modules@.len() ==> {
                    let m = #[trigger] modules@[i];
                    &&& m.0@ == unit_module(orig[i])
                    &&& expander.expansion(orig[i]@) == Ok::<Seq<char>, ExpandError>(m.1.tokens@)
                    &&& m.1.rustfmt == orig[i].rustfmt
                },
            decreases rest@.len(),
        {
            let ghost k = modules@.len() as int;
            let unit = rest.remove(0);
            assert(unit == orig[k]);
            assert(orig.subrange(0, k + 1).drop_last() =~= orig.subrange(0, k));
            let name = module_name(unit.contract_name.as_str());
            if !check_identifier(name.as_str()) {
                proof {
                    assert(!batch_ok(expander, orig)) by {
                        assert(!is_identifier(unit_module(orig[k])));
                    }
                }
                return Err(AbigenError::InvalidModuleName(name));
            }
            let mut j: usize = 0;
            while j < modules.len()
                invariant
                    orig == self.abigens@,
                    j <= modules@.len(),
                    modules@.len() == k,
                    k < orig.len(),
                    name@ == unit_module(orig[k]),
                    forall|i: int| 0 <= i < modules@.len() ==> (#[trigger] modules@[i]).0@ == unit_module(orig[i]),
                    forall|q: int| 0 <= q < j ==> (#[trigger] modules@[q]).0@ != name@,
                decreases modules@.len() - j,
            {
                if str_eq(modules[j].0.as_str(), name.as_str()) {
                    proof {
                        assert(!batch_ok(expander, orig)) by {
                            assert(unit_module(orig[j as int]) == unit_module(orig[k]));
                        }
                    }
                    return Err(AbigenError::DuplicateModule(name));
                }
                j = j + 1;
            }
            let rustfmt = unit.rustfmt;
            match unit.generate(expander) {
                Ok(b) => {
                    modules.push((name, b));
                },
                Err(e) => {
                    proof {
                        assert(!batch_ok(expander, orig)) by {
                            assert(expander.expansion(orig[k]@) is Err);
                        }
                    }
                    return Err(AbigenError::Expand(e));
                },
            }
            proof {
                let s = orig.subrange(0, modules@.len() as int);
                assert forall|a: int, b: int| 0 <= a < b < s.len() implies unit_module(
                    #[trigger] s[a],
                ) != unit_module(#[trigger] s[b]) by {
                    if b == k {
                        assert(modules@[a].0@ == unit_module(orig[a]));
                    } else {
                        assert(orig.subrange(0, k)[a] == s[a] && orig.subrange(0, k)[b] == s[b]);
                    }
                }
                assert forall|a: int| 0 <= a < s.len() implies is_identifier(unit_module(#[trigger] s[a]))
                    && (expander.expansion(s[a]@) is Ok) by {
                    if a < k {
                        assert(orig.subrange(0, k)[a] == s[a]);
                    }
                }
            }
            assert(rest@ =~= orig.subrange(modules@.len() as int, orig.len() as int));
        }
        assert(orig.subrange(0, orig.len() as int) =~= orig);
        Ok(ModulePlan { single_file, modules })
    }
}


/// The export lines of `names`, in order.
fn export_text(names: &Vec<String>) -> (r: String)
    ensures
        r@ == exports(views(names@)),
{
    let mut out = String::new();
    let mut k: usize = 0;
    proof {
        reveal_strlit("pub mod ");
        reveal_strlit(";");
        reveal_strlit("\n");
        assert(views(names@).take(0) =~= Seq::<Seq<char>>::empty());
    }
    while k < names.len()
        invariant
            k <= names@.len(),
            out@ == exports(views(names@).take(k as int)),
        decreases names@.len() - k,
    {
        let ghost before = out@;
        if k > 0 {
            out.append("\n");
        }
        out.append("pub mod ");
        out.append(names[k].as_str());
        out.append(";");
        proof {
            reveal_strlit("pub mod ");
            reveal_strlit(";");
            reveal_strlit("\n");
            let t = views(names@).take(k + 1);
            assert(t.drop_last() =~= views(names@).take(k as int));
            assert(t.last() == names@[k as int]@);
            if k == 0 {
                assert(out@ =~= export_line(t[0]));
            } else {
                assert(out@ =~= before + seq!['\n'] + export_line(t.last()));
            }
        }
        k = k + 1;
    }
    assert(views(names@).take(names@.len() as int) =~= views(names@));
    out
}

/// The texts of `parts`, one after the other.
fn concat_text(parts: &Vec<String>) -> (r: String)
    ensures
        r@ == concat(views(parts@)),
{
    let mut out = String::new();
    let mut k: usize = 0;
    assert(views(parts@).take(0) =~= Seq::<Seq<char>>::empty());
    while k < parts.len()
        invariant
            k <= parts@.len(),
            out@ == concat(views(parts@).take(k as int)),
        decreases parts@.len() - k,
    {
        out.append(parts[k].as_str());
        proof {
            let t = views(parts@).take(k + 1);
            assert(t.drop_last() =~= views(parts@).take(k as int));
            assert(t.last() == parts@[k as int]@);
        }
        k = k + 1;
    }
    assert(views(parts@).take(parts@.len() as int) =~= views(parts@));
    out
}

impl ModulePlan {
    /// The module names, in generation order.
    pub fn module_names(&self) -> (r: Vec<String>)
        ensures
            views(r@) == self.names(),
    {
        let mut r: Vec<String> = Vec::new();
        let mut k: usize = 0;
        while k < self.modules.len()
            invariant
                k <= self.modules@.len(),
                r@.len() == k,
                forall|i: int| 0 <= i < k ==> (#[trigger] r@[i])@ == self.modules@[i].0@,
            decreases self.modules@.len() - k,
        {
            r.push(self.modules[k].0.clone());
            k = k + 1;
        }
        assert(views(r@) =~= self.names());
        r
    }

    /// The files of the module directory, as (file name, content), given the
    /// text that each module's bindings were rendered to. With a file per
    /// contract: `<module>.rs` for each, in order, then `mod.rs` with the header
    /// and the modules' export lines sorted by name. In a single file: `mod.rs`
    /// alone, with the header and the texts one after the other.
    pub fn files(&self, rendered: &Vec<String>) -> (r: Vec<(String, String)>)
        requires
            rendered@.len() == self.modules@.len(),
        ensures
            self.single_file ==> r@.len() == 1 && r@[0].0@ == mod_file() && r@[0].1@ == header()
                + concat(views(rendered@)),
            !self.single_file ==> {
                let n = self.modules@.len() as int;
                &&& r@.len() == n + 1
                &&& forall|i: int|
                    0 <= i < n ==> (#[trigger] r@[i]).0@ == self.names()[i] + rs_suffix() && r@[i].1@
                        == rendered@[i]@
                &&& r@[n].0@ == mod_file()
                &&& is_manifest(self.names(), r@[n].1@)
            },
    {
        let mut out: Vec<(String, String)> = Vec::new();
        let mut text = "/// This module contains all the autogenerated abigen! contract bindings\n".to_owned();
        let mod_name = "mod.rs".to_owned();
        proof {
            reveal_strlit("mod.rs");
            reveal_strlit(".rs");
            assert(mod_name@ =~= mod_file());
        }
        if self.single_file {
            let body = concat_text(rendered);
            text.append(body.as_str());
            out.push((mod_name, text));
            return out;
        }
        let mut k: usize = 0;
        while k < self.modules.len()
            invariant
                !self.single_file,
                rendered@.len() == self.modules@.len(),
                k <= self.modules@.len(),
                out@.len() == k,
                forall|i: int|
                    0 <= i < k ==> (#[trigger] out@[i]).0@ == self.names()[i] + rs_suffix() && out@[i].1@
                        == rendered@[i]@,
            decreases self.modules@.len() - k,
        {
            let mut file = self.modules[k].0.clone();
            file.append(".rs");
            proof {
                reveal_strlit(".rs");
            }
            out.push((file, rendered[k].clone()));
            k = k + 1;
        }
        let names = self.module_names();
        let order = sort_strings(&names);
        let exported = export_text(&order);
        assert(views(names@) == self.names());
        text.append(exported.as_str());
        out.push((mod_name, text));
        out
    }
}

/// Whether every freshly generated file has a counterpart with the same content:
/// `existing[i]` is the content of the file of the same name as `fresh[i]`, or
/// `None` where there is none.
pub open spec fn consistent(fresh: Seq<(String, String)>, existing: Seq<Option<String>>) -> bool {
    forall|i: int|
        0 <= i < fresh.len() ==> (#[trigger] existing[i]) is Some && existing[i]->Some_0@
            == fresh[i].1@
}

/// Compares fresh files with the existing ones of the same names.
pub fn is_consistent(fresh: &Vec<(String, String)>, existing: &Vec<Option<String>>) -> (r: bool)
    requires
        fresh@.len() == existing@.len(),
    ensures
        r == consistent(fresh@, existing@),
{
    let mut i: usize = 0;
    while i < fresh.len()
        invariant
            fresh@.len() == existing@.len(),
            i <= fresh@.len(),
            forall|j: int|
                0 <= j < i ==> (#[trigger] existing@[j]) is Some && existing@[j]->Some_0@
                    == fresh@[j].1@,
        decreases fresh@.len() - i,
    {
        match &existing[i] {
            None => return false,
            Some(t) => {
                if !str_eq(t.as_str(), fresh[i].1.as_str()) {
                    return false;
                }
            },
        }
        i = i + 1;
    }
    true
}

/// Files read back just as they were written are consistent with themselves.
pub proof fn lemma_consistent_after_write(fresh: Seq<(String, String)>, existing: Seq<Option<String>>)
    requires
        existing.len() == fresh.len(),
        forall|i: int|
            0 <= i < fresh.len() ==> (#[trigger] existing[i]) == Some(fresh[i].1),
    ensures
        consistent(fresh, existing),
{
}

/// A fresh file whose content differs from what is on disk, or that is not on
/// disk, makes the check fail.
pub proof fn lemma_drift_detected(fresh: Seq<(String, String)>, existing: Seq<Option<String>>, i: int)
    requires
        0 <= i < fresh.len(),
        existing.len() == fresh.len(),
        existing[i] is None || existing[i]->Some_0@ != fresh[i].1@,
    ensures
        !consistent(fresh, existing),
{
}

} // verus!
