use test_fork::declaration::has_attribute_kind;
use test_fork::declaration::is_attribute_kind;
use test_fork::declaration::parse_bench_sig;
use test_fork::declaration::try_bench;
use test_fork::declaration::try_fork;
use test_fork::declaration::try_test;
use test_fork::declaration::Attribute;
use test_fork::declaration::AttributePath;
use test_fork::declaration::Kind;
use test_fork::declaration::Parameter;
use test_fork::declaration::PathSegment;
use test_fork::declaration::Refusal;

fn path(leading_colon: bool, idents: &[&str]) -> Attribute {
    Attribute::Path(AttributePath {
        leading_colon,
        segments: idents
            .iter()
            .map(|ident| PathSegment { ident: ident.to_string(), has_arguments: false })
            .collect(),
    })
}

fn with_arguments(attribute: Attribute, index: usize) -> Attribute {
    match attribute {
        Attribute::Path(mut path) => {
            path.segments[index].has_arguments = true;
            Attribute::Path(path)
        }
        Attribute::Other => Attribute::Other,
    }
}

#[test]
fn fork_attr() {
    let attributes = vec![path(false, &["test"])];
    assert_eq!(try_fork(false, &attributes), Ok(()));
}

#[test]
fn kinds_have_the_names_of_their_attributes() {
    assert_eq!(Kind::Test.as_str(), "test");
    assert_eq!(Kind::Bench.as_str(), "bench");
}

#[test]
fn bare_name_is_the_attribute() {
    assert!(is_attribute_kind(Kind::Test, &path(false, &["test"])));
    assert!(is_attribute_kind(Kind::Bench, &path(false, &["bench"])));
    assert!(!is_attribute_kind(Kind::Test, &path(false, &["bench"])));
    assert!(!is_attribute_kind(Kind::Bench, &path(false, &["test"])));
    assert!(!is_attribute_kind(Kind::Test, &path(false, &["tests"])));
}

#[test]
fn bare_name_with_leading_colon_or_arguments_is_not() {
    assert!(!is_attribute_kind(Kind::Test, &path(true, &["test"])));
    assert!(!is_attribute_kind(
        Kind::Test,
        &with_arguments(path(false, &["test"]), 0)
    ));
}

#[test]
fn prelude_paths_are_the_attribute() {
    for root in ["core", "std"] {
        for edition in ["v1", "rust_2021", "rust_2024"] {
            for leading_colon in [false, true] {
                let attribute = path(leading_colon, &[root, "prelude", edition, "test"]);
                assert!(is_attribute_kind(Kind::Test, &attribute));
                assert!(!is_attribute_kind(Kind::Bench, &attribute));
            }
        }
    }
    assert!(is_attribute_kind(
        Kind::Bench,
        &path(true, &["core", "prelude", "v1", "bench"])
    ));
}

#[test]
fn other_paths_are_not_the_attribute() {
    assert!(!is_attribute_kind(Kind::Test, &path(false, &["tokio", "test"])));
    assert!(!is_attribute_kind(Kind::Test, &path(false, &["alloc", "prelude", "v1", "test"])));
    assert!(!is_attribute_kind(Kind::Test, &path(false, &["core", "preludes", "v1", "test"])));
    assert!(!is_attribute_kind(Kind::Test, &path(false, &["core", "prelude", "v1", "tests"])));
    assert!(!is_attribute_kind(
        Kind::Test,
        &path(false, &["a", "core", "prelude", "v1", "test"])
    ));
    assert!(!is_attribute_kind(Kind::Test, &path(false, &["core", "prelude", "test"])));
    assert!(!is_attribute_kind(Kind::Test, &path(false, &[])));
    assert!(!is_attribute_kind(Kind::Test, &Attribute::Other));
}

#[test]
fn prelude_path_with_arguments_is_not_the_attribute() {
    for index in 0..4 {
        let attribute = with_arguments(path(false, &["std", "prelude", "v1", "test"]), index);
        assert!(!is_attribute_kind(Kind::Test, &attribute));
    }
}

#[test]
fn function_has_a_kind_if_any_attribute_names_it() {
    let attributes = vec![
        Attribute::Other,
        path(false, &["should_panic"]),
        path(true, &["core", "prelude", "v1", "test"]),
    ];
    assert!(has_attribute_kind(Kind::Test, &attributes));
    assert!(!has_attribute_kind(Kind::Bench, &attributes));
    assert!(!has_attribute_kind(Kind::Test, &Vec::new()));
    assert!(!has_attribute_kind(Kind::Test, &vec![path(false, &["tokio", "test"])]));
}

#[test]
fn test_adds_the_harness_attribute_unless_present() {
    assert_eq!(try_test(false, &Vec::new()), Ok(true));
    assert_eq!(try_test(false, &vec![path(false, &["should_panic"])]), Ok(true));
    assert_eq!(try_test(false, &vec![path(false, &["test"])]), Ok(false));
}

#[test]
fn test_accepts_no_arguments() {
    assert_eq!(try_test(true, &Vec::new()), Err(Refusal::Arguments));
    assert_eq!(try_test(true, &vec![path(false, &["test"])]), Err(Refusal::Arguments));
}

#[test]
fn fork_requires_an_inner_test() {
    assert_eq!(try_fork(false, &Vec::new()), Err(Refusal::NoInnerTest));
    assert_eq!(try_fork(true, &Vec::new()), Err(Refusal::NoInnerTest));
    assert_eq!(
        try_fork(false, &vec![path(false, &["bench"])]),
        Err(Refusal::NoInnerTest)
    );
    assert_eq!(try_fork(true, &vec![path(false, &["test"])]), Err(Refusal::Arguments));
}

#[test]
fn bench_takes_a_single_reference() {
    assert!(parse_bench_sig(&vec![Parameter::Typed { by_reference: true }]));
    assert!(!parse_bench_sig(&vec![Parameter::Typed { by_reference: false }]));
    assert!(!parse_bench_sig(&vec![Parameter::Receiver]));
    assert!(!parse_bench_sig(&Vec::new()));
    assert!(!parse_bench_sig(&vec![
        Parameter::Typed { by_reference: true },
        Parameter::Typed { by_reference: true }
    ]));
}

#[test]
fn bench_checks_arguments_then_signature() {
    let bencher = vec![Parameter::Typed { by_reference: true }];
    assert_eq!(try_bench(false, &Vec::new(), &bencher), Ok(true));
    assert_eq!(try_bench(false, &vec![path(false, &["bench"])], &bencher), Ok(false));
    assert_eq!(try_bench(true, &Vec::new(), &bencher), Err(Refusal::Arguments));
    assert_eq!(try_bench(true, &Vec::new(), &Vec::new()), Err(Refusal::Arguments));
    assert_eq!(
        try_bench(false, &Vec::new(), &Vec::new()),
        Err(Refusal::BenchSignature)
    );
}

#[test]
fn refusals_have_their_messages() {
    assert_eq!(
        Refusal::Arguments.message(),
        "the attribute does not currently accept arguments"
    );
    assert_eq!(
        Refusal::NoInnerTest.message(),
        "test_fork::fork requires an inner #[test] attribute"
    );
    assert_eq!(
        Refusal::BenchSignature.message(),
        "benchmark function has unexpected signature (expected single `&mut Bencher` argument)"
    );
}

/// Make sure that certain wrong attribute usages are caught.
#[test]
fn failures() {
    // An attribute with arguments.
    assert_eq!(try_test(true, &Vec::new()), Err(Refusal::Arguments));
    // `fork` on a function that is no test.
    assert_eq!(try_fork(false, &Vec::new()), Err(Refusal::NoInnerTest));
    // `bench` on a function that takes no `&mut Bencher`.
    assert_eq!(
        try_bench(false, &Vec::new(), &vec![Parameter::Typed { by_reference: false }]),
        Err(Refusal::BenchSignature)
    );
}

#[test]
fn async_test() {
    // The attribute of the runtime has put the harness attribute on the
    // function, so there is none to add.
    let attributes = vec![path(true, &["core", "prelude", "v1", "test"])];
    assert_eq!(try_test(false, &attributes), Ok(false));
}

#[test]
fn async_test_fork_attr() {
    let attributes = vec![path(true, &["core", "prelude", "v1", "test"])];
    assert_eq!(try_fork(false, &attributes), Ok(()));
}
