use move_compiler_wasm::assoc::StringMap;
use move_compiler_wasm::package::{
    step_after_parsing, BuildOutcome, BuildResponse, BuildStep, CheckBuildResponse, CompiledUnit,
    Compiler, Module,
};

fn s(v: &str) -> String {
    v.to_string()
}

fn lookup<'a>(map: &'a StringMap, key: &str) -> Option<&'a str> {
    map.get(&key.to_string()).map(|v| v.as_str())
}

fn single_module_request(name: &str, source: &str) -> Module {
    Module {
        package_name: s(name),
        target_symbols: vec![s("source.move")],
        target_source: vec![s(source)],
        target_named_address_symbol: vec![s("test_module")],
        target_named_address: vec![s("0xcafe")],
        deps_symbols: vec![],
        deps_source: vec![],
    }
}

fn std_dep_bytes() -> Vec<u8> {
    let mut v = vec![0u8; 31];
    v.push(1);
    v.push(10);
    v.extend_from_slice(b"MoveStdlib");
    v
}

#[test]
fn lib_it_works() {
    let source = "module test_module::test_module { fun test() { let i = 1; i = b\"3\"; } }";
    let compiler = single_module_request("test", source).to_indexed_package();
    let files = compiler.source_files();
    assert_eq!(files.len(), 1);
    assert_eq!(files[0].name, "source.move");
    assert_eq!(files[0].content, source);
    assert_eq!(files[0].named_address_map, 0);
    assert!(!files[0].is_dependency);
    assert_eq!(lookup(&compiler.maps[0], "test_module"), Some("0xcafe"));
    let report = s("error[E04005]: incompatible types");
    let checked = compiler.check_build(&BuildOutcome::CompileFailed { report: report.clone() });
    assert_eq!(checked, Ok(report));
}

#[test]
fn lib_build() {
    let source = "module test_module::test_module { fun test() { let i = 1; } }";
    let compiler = single_module_request("test", source).to_indexed_package();
    let (metadata, units) = compiler
        .build(BuildOutcome::Compiled { units: vec![], report: String::new() })
        .unwrap();
    let mut expected = vec![4, b't', b'e', b's', b't', 1, 0, 0, 0, 0, 0, 0, 0, 0, 0, 0, 0, 1];
    expected.extend(std_dep_bytes());
    expected.push(0);
    assert_eq!(metadata, expected);
    assert!(units.is_empty());
}

#[test]
fn build_lists_compiled_modules_in_order() {
    let compiler = single_module_request("pkg", "module a::b {}").to_indexed_package();
    let units = vec![
        CompiledUnit { name: s("b"), bytes: vec![0xa1, 0x1c] },
        CompiledUnit { name: s("c"), bytes: vec![7] },
    ];
    let (metadata, code) =
        compiler.build(BuildOutcome::Compiled { units, report: s("warning") }).unwrap();
    let mut expected = vec![3, b'p', b'k', b'g', 1, 0, 0, 0, 0, 0, 0, 0, 0, 0, 0];
    expected.extend([2, 1, b'b', 0, 0, 0, 1, b'c', 0, 0, 0, 1]);
    expected.extend(std_dep_bytes());
    expected.push(0);
    assert_eq!(metadata, expected);
    assert_eq!(code, vec![vec![0xa1, 0x1c], vec![7]]);
}

#[test]
fn build_failures_carry_the_diagnostics() {
    let compiler = single_module_request("pkg", "module a::b {").to_indexed_package();
    assert_eq!(
        compiler.build(BuildOutcome::ParseFailed { report: s("unexpected end") }),
        Err(s("unexpected end"))
    );
    assert_eq!(
        compiler.build(BuildOutcome::CompileFailed { report: s("unbound") }),
        Err(s("unbound"))
    );
    assert_eq!(
        compiler.check_build(&BuildOutcome::ParseFailed { report: s("unexpected end") }),
        Ok(s("unexpected end"))
    );
}

#[test]
fn package_metadata_for_names() {
    let compiler = single_module_request("pkg", "").to_indexed_package();
    let m = compiler.package_metadata(&vec![s("x"), s("y")]);
    assert_eq!(m.name, "pkg");
    assert_eq!(m.upgrade_policy.policy, 1);
    assert_eq!(m.upgrade_number, 0);
    assert_eq!(m.source_digest, "");
    assert!(m.manifest.is_empty() && m.extension.is_empty());
    assert_eq!(m.modules.len(), 2);
    assert_eq!(m.modules[1].name, "y");
    assert_eq!(m.deps.len(), 1);
    assert_eq!(m.deps[0].account[31], 1);
    assert!(m.deps[0].account[..31].iter().all(|b| *b == 0));
    assert_eq!(m.deps[0].package_name, "MoveStdlib");
}

#[test]
fn zipping_truncates_and_later_names_win() {
    let request = Module {
        package_name: s("p"),
        target_symbols: vec![s("a.move"), s("b.move"), s("a.move"), s("c.move")],
        target_source: vec![s("A1"), s("B"), s("A2")],
        target_named_address_symbol: vec![s("std"), s("me"), s("std")],
        target_named_address: vec![s("0x1"), s("0x2"), s("0x3"), s("0x4")],
        deps_symbols: vec![vec![s("d.move")], vec![s("e.move")], vec![s("f.move")]],
        deps_source: vec![vec![s("D")], vec![s("E1"), s("E2")]],
    };
    let c = request.to_indexed_package();
    assert_eq!(c.package_name, "p");
    assert_eq!(c.maps.len(), 1);
    assert_eq!(c.maps[0].len(), 2);
    assert_eq!(lookup(&c.maps[0], "std"), Some("0x3"));
    assert_eq!(lookup(&c.maps[0], "me"), Some("0x2"));
    assert_eq!(c.targets.source.len(), 2);
    assert_eq!(lookup(&c.targets.source, "a.move"), Some("A2"));
    assert_eq!(lookup(&c.targets.source, "b.move"), Some("B"));
    assert_eq!(lookup(&c.targets.source, "c.move"), None);
    assert_eq!(c.targets.named_address_map, 0);
    assert_eq!(c.deps.len(), 2);
    assert_eq!(lookup(&c.deps[0].source, "d.move"), Some("D"));
    assert_eq!(lookup(&c.deps[1].source, "e.move"), Some("E1"));
    assert!(c.deps.iter().all(|d| d.named_address_map == 0));
}

#[test]
fn files_are_listed_targets_first() {
    let request = Module {
        package_name: s("p"),
        target_symbols: vec![s("a.move")],
        target_source: vec![s("A")],
        target_named_address_symbol: vec![],
        target_named_address: vec![],
        deps_symbols: vec![vec![s("d.move"), s("e.move")]],
        deps_source: vec![vec![s("D"), s("A")]],
    };
    let c = request.to_indexed_package();
    let files = c.source_files();
    assert_eq!(files.len(), 3);
    assert_eq!((files[0].name.as_str(), files[0].is_dependency), ("a.move", false));
    assert_eq!((files[1].name.as_str(), files[1].is_dependency), ("d.move", true));
    assert_eq!((files[2].name.as_str(), files[2].is_dependency), ("e.move", true));
    let table = c.files_table();
    assert_eq!(table.len(), 2);
    assert_eq!(lookup(&table, "A"), Some("e.move"));
    assert_eq!(lookup(&table, "D"), Some("d.move"));
}

#[test]
fn responses() {
    let ok = BuildResponse::from_build(Ok((vec![1, 2], vec![vec![3]])));
    assert_eq!(ok.metadata, vec![1, 2]);
    assert_eq!(ok.units, vec![vec![3]]);
    assert_eq!(ok.response, "");
    let failed = BuildResponse::from_build(Err(s("boom")));
    assert!(failed.metadata.is_empty() && failed.units.is_empty());
    assert_eq!(failed.response, "boom");
    assert_eq!(CheckBuildResponse::from_check(Ok(s("fine"))).response, "fine");
}

#[test]
fn compiler_fields_are_plain_values() {
    let c: Compiler = single_module_request("x", "y").to_indexed_package();
    assert_eq!(c.targets.source.pairs(), &vec![(s("source.move"), s("y"))]);
}

#[test]
fn string_map_insert_replaces() {
    let mut m = StringMap::new();
    assert_eq!(m.len(), 0);
    m.insert(s("k"), s("1"));
    m.insert(s("j"), s("2"));
    m.insert(s("k"), s("3"));
    assert_eq!(m.len(), 2);
    assert_eq!(lookup(&m, "k"), Some("3"));
    assert_eq!(lookup(&m, "j"), Some("2"));
    assert_eq!(lookup(&m, "x"), None);
    assert_eq!(m.pairs(), &vec![(s("k"), s("3")), (s("j"), s("2"))]);
}

#[test]
fn parsing_failures_stop_the_build() {
    assert!(matches!(step_after_parsing(0), BuildStep::Compile));
    assert!(matches!(step_after_parsing(2), BuildStep::ReportParseFailure));
}

#[test]
fn metadata_limits_are_checked() {
    let compiler = single_module_request("pkg", "").to_indexed_package();
    let units = vec![CompiledUnit { name: s("m"), bytes: vec![1] }];
    assert!(compiler.can_encode_metadata(&units));
    assert!(compiler.can_encode_metadata(&vec![]));
}

#[test]
fn building_twice_agrees() {
    let compiler = single_module_request("pkg", "module a::b {}").to_indexed_package();
    let outcome = || BuildOutcome::Compiled {
        units: vec![CompiledUnit { name: s("b"), bytes: vec![9, 9] }],
        report: String::new(),
    };
    assert_eq!(compiler.build(outcome()), compiler.build(outcome()));
    let failed = || BuildOutcome::CompileFailed { report: s("unbound") };
    assert_eq!(compiler.build(failed()), compiler.build(failed()));
}

#[test]
fn reply_tells_success_from_failure() {
    let compiler = single_module_request("pkg", "module a::b {}").to_indexed_package();
    let ok = BuildResponse::from_build(
        compiler.build(BuildOutcome::Compiled { units: vec![], report: s("warning") }),
    );
    assert_eq!(ok.response, "");
    assert!(!ok.metadata.is_empty());
    let failed = BuildResponse::from_build(
        compiler.build(BuildOutcome::ParseFailed { report: s("unexpected token") }),
    );
    assert_ne!(failed.response, "");
    assert!(failed.metadata.is_empty() && failed.units.is_empty());
}
