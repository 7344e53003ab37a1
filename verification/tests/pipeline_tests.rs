use cargo_verify::errors::CvError;
use cargo_verify::opt::Backend;
use cargo_verify::pipeline::{
    add_pre_ext, build_command_args, build_plan, compile_rustflags, filter_candidates,
    list_command_args, parse_default_host, pick_bitcode, sanitize_package_name, StepKind,
};

fn lines(v: &[&str]) -> Vec<String> {
    v.iter().map(|s| s.to_string()).collect()
}

#[test]
fn ambiguous_bitcode_is_an_error() {
    // Two candidates with an entry symbol: the pipeline must fail with an
    // ambiguity error, never pick one arbitrarily.
    let cands = lines(&["pkg-1111.bc", "pkg-2222.bc"]);
    match pick_bitcode(cands, false, "pkg") {
        Err(CvError::AmbiguousBitcode { package }) => assert_eq!(package, "pkg"),
        other => panic!("expected an ambiguity error, got {:?}", other),
    }
}

#[test]
fn missing_bitcode_errors_depend_on_tests_flag() {
    match pick_bitcode(vec![], true, "pkg") {
        Err(CvError::UseTestsWithLibrary) => {},
        other => panic!("expected the tests guidance, got {:?}", other),
    }
    match pick_bitcode(vec![], false, "pkg") {
        Err(CvError::CompilationError { package }) => {
            assert_eq!(package, "pkg");
        },
        other => panic!("expected a compilation error, got {:?}", other),
    }
    assert_eq!(
        CvError::CompilationError { package: "pkg".to_string() }.message(),
        "  FAILED: Test pkg compilation error"
    );
    assert_eq!(
        CvError::UseTestsWithLibrary.message(),
        "  FAILED: Use --tests with library crates"
    );
}

#[test]
fn unique_bitcode_is_kept() {
    let cands = lines(&["pkg-1111.bc"]);
    assert_eq!(pick_bitcode(cands, false, "pkg"), Ok("pkg-1111.bc".to_string()));
}

#[test]
fn candidate_filter_checks_prefix_and_extension() {
    let names = lines(&[
        "pkg-1111.bc",
        "other-2222.bc",
        "pkg-3333.o",
        "pkg-4444.bc.tmp",
        "pkg.bc",
    ]);
    assert_eq!(filter_candidates(&names, "pkg"), lines(&["pkg-1111.bc", "pkg.bc"]));
}

#[test]
fn rustflags_differ_for_the_model_checker() {
    let klee_flags = compile_rustflags(Backend::Klee);
    let sea_flags = compile_rustflags(Backend::Seahorn);
    assert!(klee_flags.starts_with("-Clto -Cembed-bitcode=yes --emit=llvm-bc --cfg=verify"));
    assert!(klee_flags.ends_with(" -Copt-level=1"));
    assert!(!sea_flags.ends_with(" -Copt-level=1"));
    assert!(sea_flags.contains("-Coverflow-checks=yes"));
    assert!(sea_flags.contains("-Cpanic=abort"));
}

#[test]
fn pre_extension_inserts_before_the_old_one() {
    assert_eq!(add_pre_ext("foo.bar", "baz"), "foo.baz.bar");
    assert_eq!(add_pre_ext("foo", "baz"), "foo.baz");
    assert_eq!(add_pre_ext("dir.x/foo", "baz"), "dir.x/foo.baz");
    assert_eq!(add_pre_ext("dir/.hidden", "baz"), "dir/.hidden.baz");
}

#[test]
fn build_plan_chains_link_and_patches() {
    let (steps, last) = build_plan("app.bc", Backend::Seahorn, true, true);
    assert_eq!(steps.len(), 3);
    assert_eq!(steps[0].kind, StepKind::LinkNatives);
    assert_eq!(steps[0].input, "app.bc");
    assert_eq!(steps[0].output, "app.link.bc");
    assert_eq!(steps[1].kind, StepKind::PatchBackend);
    assert_eq!(steps[1].input, "app.link.bc");
    assert_eq!(steps[1].output, "app.link.patch.bc");
    assert_eq!(steps[2].kind, StepKind::PatchInitializers);
    assert_eq!(steps[2].input, "app.link.patch.bc");
    assert_eq!(steps[2].output, "app.link.patch.init.bc");
    assert_eq!(last, "app.link.patch.init.bc");

    let (steps2, last2) = build_plan("app.bc", Backend::Klee, false, false);
    assert_eq!(steps2.len(), 0);
    assert_eq!(last2, "app.bc");
}

#[test]
fn default_host_comes_from_the_report() {
    let report = lines(&[
        "installed toolchains",
        "Default host: x86_64-unknown-linux-gnu ",
        "Default host: ignored-second-line",
    ]);
    assert_eq!(parse_default_host(&report), Ok("x86_64-unknown-linux-gnu".to_string()));
    match parse_default_host(&lines(&["nothing here"])) {
        Err(CvError::NoDefaultHost) => {},
        other => panic!("expected no default host, got {:?}", other),
    }
    assert_eq!(CvError::NoDefaultHost.message(), "Unable to determine default host");
}

#[test]
fn sanitizer_replaces_odd_characters() {
    assert_eq!(sanitize_package_name("my-crate.v2"), "my_crate_v2");
    assert_eq!(sanitize_package_name("plain_name09"), "plain_name09");
    assert_eq!(sanitize_package_name("Weird Näme"), "Weird_N_me");
}

#[test]
fn build_command_shape() {
    assert_eq!(
        build_command_args(&lines(&["verifier-klee", "extra"]), true, "x86_64-linux", 2),
        lines(&[
            "build",
            "--features",
            "verifier-klee,extra",
            "--tests",
            "--target==x86_64-linux",
            "-v",
            "-v",
        ])
    );
    assert_eq!(
        build_command_args(&vec![], false, "t", 0),
        lines(&["build", "--target==t"])
    );
    assert_eq!(
        list_command_args(&lines(&["verifier-klee"])),
        lines(&["test", "--features", "verifier-klee", "--", "--list"])
    );
}
