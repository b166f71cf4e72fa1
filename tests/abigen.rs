use abigen::abigen::{Abigen, AbigenView, ContractBindings, Expand, ExpandError, Expansion};
use abigen::multi::{is_consistent, AbigenError, MultiAbigen};
use abigen::source::{Source, SourceError, SourceKind};

/// An expander that writes a small, deterministic text for each unit.
struct Canned;

impl Expand for Canned {
    fn expansion(&self, _unit: AbigenView) -> Expansion {
        Err(ExpandError::Load(String::new()))
    }

    fn expand(&self, unit: &Abigen) -> Result<String, ExpandError> {
        let text = unit.abi_source.as_text();
        if text.contains("broken") {
            return Err(ExpandError::AbiParse("missing stateMutability".to_string()));
        }
        Ok(format!(
            "pub struct {} {{}}\nfn {}() {{}}\n// derives: {}\n",
            unit.contract_name,
            unit.method_name("getValue()", "getValue"),
            unit.event_derives.join(",")
        ))
    }
}

fn kind(raw: &str) -> Option<SourceKind> {
    match Source::parse(raw) {
        Ok(Source::InlineJson(_)) => Some(SourceKind::InlineJson),
        Ok(Source::InlineSchema(_)) => Some(SourceKind::InlineSchema),
        Ok(Source::FilePath(_)) => Some(SourceKind::FilePath),
        Ok(Source::RemoteRef(_)) => Some(SourceKind::RemoteRef),
        Err(_) => None,
    }
}

#[test]
fn sources_are_classified() {
    assert_eq!(kind(r#"[{"type":"function","name":"f"}]"#), Some(SourceKind::InlineJson));
    assert_eq!(kind("{\"abi\": []}"), Some(SourceKind::InlineJson));
    assert_eq!(kind("[]"), Some(SourceKind::InlineJson));
    assert_eq!(kind("  [\n  function getValue() view returns (uint256)\n]"), Some(SourceKind::InlineSchema));
    assert_eq!(kind("./abi/ERC20.json"), Some(SourceKind::FilePath));
    assert_eq!(kind("/tmp/x.json"), Some(SourceKind::FilePath));
    assert_eq!(kind("C:/abi.json"), Some(SourceKind::FilePath));
    assert_eq!(kind("file:///tmp/x.json"), Some(SourceKind::FilePath));
    assert_eq!(kind("https://example.com/abi.json"), Some(SourceKind::RemoteRef));
    assert_eq!(kind("http://example.com/abi.json"), Some(SourceKind::RemoteRef));
    assert_eq!(kind("etherscan:0x0001"), Some(SourceKind::RemoteRef));
    assert_eq!(kind("npm:@openzeppelin/contracts/build/ERC20.json"), Some(SourceKind::RemoteRef));
}

#[test]
fn unrecognized_sources_are_refused() {
    assert_eq!(Source::parse(""), Err(SourceError::Unrecognized(String::new())));
    assert_eq!(Source::parse("   \n"), Err(SourceError::Unrecognized("   \n".to_string())));
    assert_eq!(Source::parse("ftp://host/abi.json"), Err(SourceError::Unrecognized("ftp://host/abi.json".to_string())));
    assert_eq!(Source::parse("a\nb"), Err(SourceError::Unrecognized("a\nb".to_string())));
}

#[test]
fn source_keeps_text_and_inline_content() {
    let s = Source::parse("[ function f() ]").unwrap();
    assert_eq!(s.as_text(), "[ function f() ]");
    assert_eq!(s.inline_text().map(|t| t.as_str()), Some("[ function f() ]"));
    assert_eq!(Source::parse("./a.json").unwrap().inline_text(), None);
}

#[test]
fn new_unit_has_defaults() {
    let u = Abigen::new("Token", "./abi.json").unwrap();
    assert_eq!(u.contract_name, "Token");
    assert!(u.rustfmt);
    assert!(u.event_derives.is_empty());
    assert!(u.method_aliases.get("f()").is_none());
    assert_eq!(Abigen::new("Token", "").unwrap_err(), SourceError::Unrecognized(String::new()));
}

#[test]
fn aliases_last_write_wins() {
    let u = Abigen::new("Token", "./abi.json")
        .unwrap()
        .add_method_alias("f()".to_string(), "first".to_string())
        .add_method_alias("f()".to_string(), "second".to_string())
        .add_event_alias("E()".to_string(), "Ev".to_string());
    assert_eq!(u.method_aliases.get("f()").unwrap(), "second");
    assert_eq!(u.event_aliases.get("E()").unwrap(), "Ev");
    assert!(u.event_aliases.get("f()").is_none());
}

#[test]
fn derives_keep_order_and_duplicates() {
    let u = Abigen::new("Token", "./abi.json")
        .unwrap()
        .add_event_derive("serde::Serialize".to_string())
        .add_event_derive("Hash".to_string())
        .add_event_derive("Hash".to_string());
    assert_eq!(u.event_derives, vec!["serde::Serialize", "Hash", "Hash"]);
    assert!(!u.rustfmt(false).rustfmt);
}

#[test]
fn method_name_is_snake_case_unless_aliased() {
    let u = Abigen::new("C", "[ function getValue() view returns (uint256) ]").unwrap();
    assert_eq!(u.method_name("getValue()", "getValue"), "get_value");
    let u = u.add_method_alias("getValue()".to_string(), "value_of".to_string());
    assert_eq!(u.method_name("getValue()", "getValue"), "value_of");
    assert_eq!(u.method_name("getOther()", "getOther"), "get_other");
}

#[test]
fn alias_changes_only_its_method() {
    let a = Abigen::new("C", "[ function f() ]").unwrap();
    let before_other = a.method_name("setValue(uint256)", "setValue");
    let b = a.add_method_alias("getValue()".to_string(), "read".to_string());
    assert_eq!(b.method_name("setValue(uint256)", "setValue"), before_other);
    assert_eq!(b.method_name("getValue()", "getValue"), "read");
}

#[test]
fn generate_is_deterministic() {
    let make = || {
        Abigen::new("Store", "[ function getValue() view returns (uint256) ]")
            .unwrap()
            .add_event_derive("Hash".to_string())
    };
    let a = make().generate(&Canned).unwrap();
    let b = make().generate(&Canned).unwrap();
    assert_eq!(a.tokens, b.tokens);
    assert!(a.rustfmt);
    assert_eq!(a.into_tokens(), "pub struct Store {}\nfn get_value() {}\n// derives: Hash\n");
}

#[test]
fn generate_reports_expansion_error() {
    let r = Abigen::new("Bad", "[ broken ]").unwrap().generate(&Canned);
    assert_eq!(r.unwrap_err(), ExpandError::AbiParse("missing stateMutability".to_string()));
}

#[test]
fn formatted_text_is_used_only_when_formatting() {
    let b = ContractBindings { tokens: "raw".to_string(), rustfmt: true };
    assert_eq!(b.source_text(Some("pretty".to_string())), "pretty");
    assert_eq!(b.source_text(None), "raw");
    let c = ContractBindings { tokens: "raw".to_string(), rustfmt: false };
    assert_eq!(c.source_text(Some("pretty".to_string())), "raw");
}

#[test]
fn batch_fails_fast_on_bad_source() {
    let pairs = vec![
        ("A".to_string(), "[]".to_string()),
        ("B".to_string(), "ftp://nowhere".to_string()),
        ("C".to_string(), "".to_string()),
    ];
    let r = MultiAbigen::new(&pairs);
    assert_eq!(r.unwrap_err(), SourceError::Unrecognized("ftp://nowhere".to_string()));
}

#[test]
fn batch_forces_formatting() {
    let u = Abigen::new("A", "[]").unwrap().rustfmt(false);
    let m = MultiAbigen::from_abigen(vec![u]);
    assert!(!m.single_file);
    assert!(m.abigens[0].rustfmt);
    assert!(m.single_file().single_file);
    let pairs = vec![("A".to_string(), "[]".to_string()), ("B".to_string(), "./b.json".to_string())];
    let m = MultiAbigen::new(&pairs).unwrap();
    assert_eq!(m.abigens.len(), 2);
    assert_eq!(m.abigens[1].contract_name, "B");
}

fn render(plan: &abigen::multi::ModulePlan) -> Vec<String> {
    plan.modules.iter().map(|(_, b)| b.source_text(None)).collect()
}

#[test]
fn manifest_exports_are_sorted() {
    let units = vec![
        Abigen::new("Zeta", "[]").unwrap(),
        Abigen::new("SimpleStorage", "[]").unwrap(),
        Abigen::new("Alpha", "[]").unwrap(),
    ];
    let plan = MultiAbigen::from_abigen(units).generate_all(&Canned).unwrap();
    let files = plan.files(&render(&plan));
    let names: Vec<&str> = files.iter().map(|(n, _)| n.as_str()).collect();
    assert_eq!(names, vec!["zeta.rs", "simple_storage.rs", "alpha.rs", "mod.rs"]);
    assert_eq!(
        files[3].1,
        "/// This module contains all the autogenerated abigen! contract bindings\npub mod alpha;\npub mod simple_storage;\npub mod zeta;"
    );
    assert_eq!(files[2].1, "pub struct Alpha {}\nfn get_value() {}\n// derives: \n");
}

#[test]
fn single_file_holds_everything() {
    let units = vec![Abigen::new("B", "[]").unwrap(), Abigen::new("A", "[]").unwrap()];
    let plan = MultiAbigen::from_abigen(units).single_file().generate_all(&Canned).unwrap();
    let files = plan.files(&render(&plan));
    assert_eq!(files.len(), 1);
    assert_eq!(files[0].0, "mod.rs");
    assert_eq!(
        files[0].1,
        "/// This module contains all the autogenerated abigen! contract bindings\npub struct B {}\nfn get_value() {}\n// derives: \npub struct A {}\nfn get_value() {}\n// derives: \n"
    );
}

#[test]
fn file_count_matches_units() {
    let units: Vec<Abigen> = ["One", "Two", "Three", "Four"].iter().map(|n| Abigen::new(n, "[]").unwrap()).collect();
    let plan = MultiAbigen::from_abigen(units).generate_all(&Canned).unwrap();
    assert_eq!(plan.files(&render(&plan)).len(), 5);
    let empty = MultiAbigen::from_abigen(Vec::new()).generate_all(&Canned).unwrap();
    let files = empty.files(&Vec::new());
    assert_eq!(files.len(), 1);
    assert_eq!(files[0].1, "/// This module contains all the autogenerated abigen! contract bindings\n");
}

#[test]
fn batch_errors() {
    let dup = vec![Abigen::new("Foo", "[]").unwrap(), Abigen::new("foo", "[]").unwrap()];
    assert_eq!(
        MultiAbigen::from_abigen(dup).generate_all(&Canned).unwrap_err(),
        AbigenError::DuplicateModule("foo".to_string())
    );
    let bad = vec![Abigen::new("1st", "[]").unwrap()];
    assert!(matches!(
        MultiAbigen::from_abigen(bad).generate_all(&Canned).unwrap_err(),
        AbigenError::InvalidModuleName(_)
    ));
    let broken = vec![Abigen::new("Ok", "[]").unwrap(), Abigen::new("Bad", "[ broken ]").unwrap()];
    assert_eq!(
        MultiAbigen::from_abigen(broken).generate_all(&Canned).unwrap_err(),
        AbigenError::Expand(ExpandError::AbiParse("missing stateMutability".to_string()))
    );
}

fn written(units: Vec<Abigen>) -> Vec<(String, String)> {
    let plan = MultiAbigen::from_abigen(units).generate_all(&Canned).unwrap();
    plan.files(&render(&plan))
}

#[test]
fn fresh_output_is_consistent_until_changed() {
    let make = || vec![Abigen::new("Store", "[ function getValue() view returns (uint256) ]").unwrap()];
    let on_disk = written(make());
    let existing: Vec<Option<String>> = on_disk.iter().map(|(_, c)| Some(c.clone())).collect();
    assert!(is_consistent(&written(make()), &existing));

    let changed = vec![make().remove(0).add_method_alias("getValue()".to_string(), "read".to_string())];
    assert!(!is_consistent(&written(changed), &existing));

    let missing: Vec<Option<String>> = vec![None, existing[1].clone()];
    assert!(!is_consistent(&written(make()), &missing));
}

#[test]
fn view_function_scenario() {
    let unit = Abigen::new("Store", "[\n  function getValue() view returns (uint256)\n]").unwrap();
    assert!(matches!(unit.abi_source, Source::InlineSchema(_)));
    assert_eq!(unit.method_name("getValue()", "getValue"), "get_value");
    let on_disk = written(vec![unit]);
    let existing: Vec<Option<String>> = on_disk.iter().map(|(_, c)| Some(c.clone())).collect();
    let again = written(vec![Abigen::new("Store", "[\n  function getValue() view returns (uint256)\n]").unwrap()]);
    assert!(is_consistent(&again, &existing));
}

fn existing_for(fresh: &[(String, String)], disk: &[(String, String)]) -> Vec<Option<String>> {
    fresh
        .iter()
        .map(|(n, _)| disk.iter().find(|(m, _)| m == n).map(|(_, c)| c.clone()))
        .collect()
}

const HR_SOURCE: &str = r#"[
        struct Foo { uint256 x; }
        function foo(Foo memory x)
        function bar(uint256 x, uint256 y, address addr)
        yeet(uint256,uint256,address)
    ]"#;

#[test]
fn can_generate_multi_abi() {
    let console = Abigen::new("Console", "../tests/solidity-contracts/console.json").unwrap();
    let simple_storage =
        Abigen::new("SimpleStorage", "../tests/solidity-contracts/simplestorage_abi.json").unwrap();
    let human_readable = Abigen::new("HrContract", HR_SOURCE).unwrap();
    let make = || {
        vec![
            Abigen::new("Console", "../tests/solidity-contracts/console.json").unwrap(),
            Abigen::new("SimpleStorage", "../tests/solidity-contracts/simplestorage_abi.json").unwrap(),
            Abigen::new("HrContract", HR_SOURCE).unwrap(),
        ]
    };
    assert!(matches!(human_readable.abi_source, Source::InlineSchema(_)));

    let disk = written(vec![console, simple_storage, human_readable]);
    let fresh = written(make());
    assert!(is_consistent(&fresh, &existing_for(&fresh, &disk)));

    let mut more = make();
    more.push(
        Abigen::new(
            "AdditionalContract",
            r#"[
        getValue() (uint256)
        getValue(uint256 otherValue) (uint256)
        getValue(uint256 otherValue, address addr) (uint256)
    ]"#,
        )
        .unwrap(),
    );
    let fresh = written(more);
    assert!(!is_consistent(&fresh, &existing_for(&fresh, &disk)));

    let disk = fresh.clone();
    assert!(is_consistent(&fresh, &existing_for(&fresh, &disk)));
    assert_eq!(fresh.len(), 5);
}
