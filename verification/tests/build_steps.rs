use mantle_core::build_plugin::{
    after_rpcs, choose_service, crate_version, split_definitions, CollectedAdt, ParsedStep,
    ServiceChoice,
};
use mantle_core::syntax_pass::{RpcError, Service, Span, SynMethod};

fn span(lo: u32, hi: u32) -> Span {
    Span { lo, hi }
}

fn method(output_lo: u32) -> SynMethod {
    SynMethod {
        is_async: false,
        async_span: span(0, 0),
        is_unsafe: false,
        abi_is_rust: true,
        inputs: vec![],
        ret: None,
        output_span: span(output_lo, output_lo + 1),
    }
}

fn service(name: &str, lo: u32) -> Service {
    Service { span: span(lo, lo + 10), name: name.to_string() }
}

fn pkgs(entries: &[(&str, &str)]) -> Vec<(String, String)> {
    entries.iter().map(|(n, v)| (n.to_string(), v.to_string())).collect()
}

#[test]
fn one_service_invocation_is_built() {
    assert!(matches!(choose_service(&vec![]), ServiceChoice::NoService));
    match choose_service(&vec![service("Ballot", 5)]) {
        ServiceChoice::Main(name) => assert_eq!(name, "Ballot"),
        _ => panic!("expected the service"),
    }
    let twice = choose_service(&vec![service("A", 5), service("B", 40)]);
    match &twice {
        ServiceChoice::MultipleServices { second } => assert_eq!(*second, span(40, 50)),
        _ => panic!("expected a report"),
    }
    assert_eq!(
        twice.message().unwrap(),
        "Multiple invocations of `mantle::service!`. Second occurrence here:"
    );
    assert!(choose_service(&vec![]).message().is_none());
}

#[test]
fn new_is_the_constructor_and_the_rest_are_dispatched_in_order() {
    let rpcs = vec![
        ("vote".to_string(), method(1)),
        ("new".to_string(), method(2)),
        ("tally".to_string(), method(3)),
    ];
    match after_rpcs("Ballot", span(0, 9), Ok(rpcs)) {
        ParsedStep::Generate { ctor, rpcs } => {
            assert_eq!(ctor.output_span, span(2, 3));
            let names: Vec<&str> = rpcs.iter().map(|(n, _)| n.as_str()).collect();
            assert_eq!(names, vec!["vote", "tally"]);
            assert_eq!(rpcs[1].1.output_span, span(3, 4));
        }
        _ => panic!("expected the dispatcher to be generated"),
    }
}

#[test]
fn a_missing_constructor_is_reported_at_the_struct() {
    match after_rpcs("Ballot", span(7, 9), Ok(vec![("vote".to_string(), method(1))])) {
        ParsedStep::MissingConstructor { struct_span, message } => {
            assert_eq!(struct_span, span(7, 9));
            assert_eq!(message, "Missing definition of `Ballot::new`.");
        }
        _ => panic!("expected a report"),
    }
}

#[test]
fn a_second_constructor_is_left_to_the_compiler() {
    let rpcs = vec![("new".to_string(), method(1)), ("new".to_string(), method(2))];
    assert!(matches!(after_rpcs("Ballot", span(0, 1), Ok(rpcs)), ParsedStep::Continue));
}

#[test]
fn malformed_methods_are_reported() {
    match after_rpcs("Ballot", span(0, 1), Err(vec![RpcError::HasAsync(span(3, 8))])) {
        ParsedStep::Report(errs) => {
            assert_eq!(errs.len(), 1);
            assert_eq!(errs[0].span(), span(3, 8));
        }
        _ => panic!("expected a report"),
    }
}

#[test]
fn crate_versions_come_from_the_lockfile() {
    let lock = pkgs(&[("serde-json", "1.0.0"), ("oasis-std", "0.2.0"), ("serde-json", "1.0.9")]);
    assert_eq!(crate_version(&lock, "serde_json"), "1.0.9");
    assert_eq!(crate_version(&lock, "oasis_std"), "0.2.0");
    assert_eq!(crate_version(&lock, "oasis-std"), "*");
    assert_eq!(crate_version(&lock, "tokio"), "*");
    assert_eq!(crate_version(&vec![], "serde_json"), "*");
}

#[test]
fn reached_definitions_split_into_local_ones_and_imports() {
    let adt = |id: u64, is_local: bool, krate: &str, is_event: bool| CollectedAdt {
        id,
        is_local,
        crate_name: krate.to_string(),
        is_event,
    };
    let defs = vec![
        adt(1, true, "ballot", false),
        adt(2, false, "oasis_std", false),
        adt(1, true, "ballot", false),
        adt(3, true, "ballot", true),
        adt(4, false, "oasis_std", false),
        adt(5, false, "time", false),
    ];
    let split = split_definitions(&defs, &pkgs(&[("oasis-std", "0.2.0")]));
    assert_eq!(split.local, vec![(1, false), (3, true)]);
    let imports = split.imports.clone();
    assert_eq!(
        imports,
        vec![("oasis_std".to_string(), "0.2.0".to_string()), ("time".to_string(), "*".to_string())]
    );
}

#[test]
fn the_split_is_in_order_whatever_order_the_definitions_come_in() {
    let adt = |id: u64, is_local: bool, krate: &str, is_event: bool| CollectedAdt {
        id,
        is_local,
        crate_name: krate.to_string(),
        is_event,
    };
    let defs = vec![
        adt(9, true, "ballot", true),
        adt(5, false, "zeta", false),
        adt(2, true, "ballot", false),
        adt(9, true, "ballot", false),
        adt(7, false, "alpha", false),
        adt(8, false, "alpha_b", false),
    ];
    let lock = pkgs(&[("alpha", "1.0.0"), ("zeta", "0.1.0")]);
    let split = split_definitions(&defs, &lock);
    assert_eq!(split.local, vec![(2, false), (9, false), (9, true)]);
    assert_eq!(
        split.imports,
        vec![
            ("alpha".to_string(), "1.0.0".to_string()),
            ("alpha_b".to_string(), "*".to_string()),
            ("zeta".to_string(), "0.1.0".to_string()),
        ]
    );
}
