//! One contract's generation settings, and the bindings generated from them.
use vstd::prelude::*;
use crate::aliases::AliasMap;
use crate::naming::{snake_case, snake_case_of};
use crate::source::{Source, SourceError, classify};

verus! {

/// Builder of the type-safe bindings of one contract.
#[derive(Debug, Clone)]
pub struct Abigen {
    /// Where the contract's interface description is found.
    pub abi_source: Source,
    /// The name of the generated contract type.
    pub contract_name: String,
    /// Method signature to the name the generated method gets.
    pub method_aliases: AliasMap,
    /// Derives added to the generated event types, in order.
    pub event_derives: Vec<String>,
    /// Whether written bindings are passed through the formatter.
    pub rustfmt: bool,
    /// Event signature to the name the generated event gets.
    pub event_aliases: AliasMap,
}

/// Everything that the generated text may depend on.
pub struct AbigenView {
    pub abi_source: Source,
    pub contract_name: Seq<char>,
    pub method_aliases: Map<Seq<char>, Seq<char>>,
    pub event_derives: Seq<Seq<char>>,
    pub rustfmt: bool,
    pub event_aliases: Map<Seq<char>, Seq<char>>,
}

impl View for Abigen {
    type V = AbigenView;

    open spec fn view(&self) -> AbigenView {
        AbigenView {
            abi_source: self.abi_source,
            contract_name: self.contract_name@,
            method_aliases: self.method_aliases@,
            event_derives: self.event_derives@.map_values(|d: String| d@),
            rustfmt: self.rustfmt,
            event_aliases: self.event_aliases@,
        }
    }
}

/// Why the expansion of a contract's interface failed.
#[derive(Debug, Clone, PartialEq, Eq)]
pub enum ExpandError {
    /// An entry of the interface is malformed or lacks a required field.
    AbiParse(String),
    /// An alias names an absent signature, or two entries would get one name.
    Codegen(String),
    /// The interface could not be read or fetched.
    Load(String),
}

/// What an expansion gives: the generated text, or why there is none.
pub type Expansion = Result<Seq<char>, ExpandError>;

/// The expansion of a contract's interface into source text. An implementation
/// materialises the unit's source and turns it into bindings; it must give the
/// same result for the same unit, which `expansion` names.
pub trait Expand {
    spec fn expansion(&self, unit: AbigenView) -> Expansion;

    fn expand(&self, unit: &Abigen) -> (r: Result<String, ExpandError>)
        ensures
            match r {
                Ok(t) => self.expansion(unit@) == Ok::<Seq<char>, ExpandError>(t@),
                Err(e) => self.expansion(unit@) == Err::<Seq<char>, ExpandError>(e),
            },
    ;
}

/// The name a method gets: its alias where one is set, else its name in snake case.
pub open spec fn method_ident(aliases: Map<Seq<char>, Seq<char>>, signature: Seq<char>, name: Seq<char>) -> Seq<char> {
    if aliases.contains_key(signature) {
        aliases[signature]
    } else {
        snake_case_of(name)
    }
}

impl Abigen {
    /// A builder for `contract_name` whose interface is described by `abi_source`,
    /// with no aliases or derives, formatting on.
    pub fn new(contract_name: &str, abi_source: &str) -> (r: Result<Abigen, SourceError>)
        ensures
            r is Err <==> classify(abi_source@) is None,
            r is Err ==> r->Err_0 == SourceError::Unrecognized(r->Err_0->Unrecognized_0)
                && r->Err_0->Unrecognized_0@ == abi_source@,
            r is Ok ==> {
                let u = r->Ok_0@;
                &&& u.contract_name == contract_name@
                &&& u.abi_source.text() == abi_source@
                &&& Some(u.abi_source.kind()) == classify(abi_source@)
                &&& u.method_aliases == Map::<Seq<char>, Seq<char>>::empty()
                &&& u.event_aliases == Map::<Seq<char>, Seq<char>>::empty()
                &&& u.event_derives.len() == 0
                &&& u.rustfmt
            },
    {
        let abi_source = match Source::parse(abi_source) {
            Ok(s) => s,
            Err(e) => return Err(e),
        };
        let r = Abigen {
            abi_source,
            contract_name: contract_name.to_owned(),
            method_aliases: AliasMap::new(),
            event_derives: Vec::new(),
            rustfmt: true,
            event_aliases: AliasMap::new(),
        };
        assert(r@.event_derives.len() == 0);
        Ok(r)
    }

    /// Sets the name that the event with `signature` gets.
    pub fn add_event_alias(self, signature: String, alias: String) -> (r: Abigen)
        ensures
            r@ == (AbigenView { event_aliases: self@.event_aliases.insert(signature@, alias@), ..self@ }),
    {
        let mut s = self;
        s.event_aliases.insert(signature, alias);
        s
    }

    /// Sets the name that the method with `signature` gets.
    pub fn add_method_alias(self, signature: String, alias: String) -> (r: Abigen)
        ensures
            r@ == (AbigenView { method_aliases: self@.method_aliases.insert(signature@, alias@), ..self@ }),
    {
        let mut s = self;
        s.method_aliases.insert(signature, alias);
        s
    }

    /// Sets whether written bindings are formatted.
    pub fn rustfmt(self, rustfmt: bool) -> (r: Abigen)
        ensures
            r@ == (AbigenView { rustfmt, ..self@ }),
    {
        let mut s = self;
        s.rustfmt = rustfmt;
        s
    }

    /// Appends a derive for the generated event types.
    pub fn add_event_derive(self, derive: String) -> (r: Abigen)
        ensures
            r@ == (AbigenView { event_derives: self@.event_derives.push(derive@), ..self@ }),
    {
        let mut s = self;
        let ghost d = derive;
        s.event_derives.push(derive);
        assert(s@.event_derives =~= self@.event_derives.push(d@));
        s
    }

    /// The name that the method `name` with `signature` gets in the bindings.
    pub fn method_name(&self, signature: &str, name: &str) -> (r: String)
        ensures
            r@ == method_ident(self@.method_aliases, signature@, name@),
    {
        match self.method_aliases.get(signature) {
            Some(a) => a.clone(),
            None => snake_case(name),
        }
    }

    /// Generates the bindings; the expansion's failure is the result's.
    pub fn generate<E: Expand>(self, expander: &E) -> (r: Result<ContractBindings, ExpandError>)
        ensures
            match expander.expansion(self@) {
                Ok(t) => r is Ok && r->Ok_0.tokens@ == t && r->Ok_0.rustfmt == self.rustfmt,
                Err(e) => r == Err::<ContractBindings, ExpandError>(e),
            },
    {
        match expander.expand(&self) {
            Ok(tokens) => Ok(ContractBindings { tokens, rustfmt: self.rustfmt }),
            Err(e) => Err(e),
        }
    }
}

/// Generating a unit twice, or two units with the same settings, gives the same
/// text.
pub proof fn lemma_generate_deterministic<E: Expand>(
    expander: &E,
    a: Abigen,
    b: Abigen,
    ra: Result<ContractBindings, ExpandError>,
    rb: Result<ContractBindings, ExpandError>,
)
    requires
        a@ == b@,
        match expander.expansion(a@) {
            Ok(t) => ra is Ok && ra->Ok_0.tokens@ == t && ra->Ok_0.rustfmt == a.rustfmt,
            Err(e) => ra == Err::<ContractBindings, ExpandError>(e),
        },
        match expander.expansion(b@) {
            Ok(t) => rb is Ok && rb->Ok_0.tokens@ == t && rb->Ok_0.rustfmt == b.rustfmt,
            Err(e) => rb == Err::<ContractBindings, ExpandError>(e),
        },
    ensures
        ra is Ok <==> rb is Ok,
        ra is Ok ==> ra->Ok_0@ == rb->Ok_0@,
        ra is Err ==> ra == rb,
{
}

/// Adding a method alias changes the name of that signature's method only.
pub proof fn lemma_alias_locality(
    before: AbigenView,
    after: AbigenView,
    signature: Seq<char>,
    alias: Seq<char>,
    other: Seq<char>,
    name: Seq<char>,
)
    requires
        after == (AbigenView { method_aliases: before.method_aliases.insert(signature, alias), ..before }),
    ensures
        other != signature ==> method_ident(after.method_aliases, other, name) == method_ident(
            before.method_aliases,
            other,
            name,
        ),
        method_ident(after.method_aliases, signature, name) == alias,
        after.event_aliases == before.event_aliases,
        after.event_derives == before.event_derives,
        after.contract_name == before.contract_name,
        after.abi_source == before.abi_source,
        after.rustfmt == before.rustfmt,
{
}

/// Generated bindings: unformatted source text and whether to format it.
#[derive(Debug, Clone)]
pub struct ContractBindings {
    /// The generated source text, unformatted.
    pub tokens: String,
    /// Whether the text is formatted when written.
    pub rustfmt: bool,
}

impl View for ContractBindings {
    type V = (Seq<char>, bool);

    open spec fn view(&self) -> (Seq<char>, bool) {
        (self.tokens@, self.rustfmt)
    }
}

impl ContractBindings {
    /// The text to write, given what the formatter made of the raw text
    /// (`None` where it failed): the formatted text where formatting is on and
    /// succeeded, the raw text otherwise.
    pub fn source_text(&self, formatted: Option<String>) -> (r: String)
        ensures
            r@ == (if self.rustfmt && formatted is Some { formatted->Some_0@ } else { self.tokens@ }),
    {
        if self.rustfmt {
            match formatted {
                Some(f) => f,
                None => self.tokens.clone(),
            }
        } else {
            self.tokens.clone()
        }
    }

    /// The unformatted source text.
    pub fn into_tokens(self) -> (r: String)
        ensures
            r@ == self.tokens@,
    {
        self.tokens
    }
}

} // verus!
