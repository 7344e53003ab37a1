use cargo_verify::errors::CvError;
use cargo_verify::opt::{resolve_options, Backend, RawOptions};
use cargo_verify::resolve::{
    list_test_names, qualify_tests, select_single_main, select_tests, strip_package_prefix,
};
use cargo_verify::schedule::{aggregate, settle_outcome};
use cargo_verify::status::Status;
use cargo_verify::symbols::{count_symbols, mangle_functions};
use cargo_verify::text::{dec_string, join_strs};
use cargo_verify::utils::{from_latin1, info_lines, Append};

fn lines(v: &[&str]) -> Vec<String> {
    v.iter().map(|s| s.to_string()).collect()
}

fn raw() -> RawOptions {
    RawOptions {
        crate_dir: ".".to_string(),
        args: vec![],
        backend_arg: None,
        backend_flags: None,
        features: vec![],
        clean: false,
        tests: false,
        test: vec![],
        jobs_arg: None,
        replay: 0,
        verbosity: 0,
    }
}

#[test]
fn test_listing_parses_announcements() {
    let listing = lines(&[
        "running 3 tests",
        "tests::works: test",
        "tests::other:  test  ",
        "tests::bench: benchmark",
        "not a listing line",
        ": test",
    ]);
    assert_eq!(list_test_names(&listing), lines(&["tests::works", "tests::other"]));
}

#[test]
fn selection_filters_by_substring() {
    let tests = lines(&["alpha", "beta", "alphabet"]);
    assert_eq!(
        select_tests(tests.clone(), &lines(&["alpha"])),
        Ok(lines(&["alpha", "alphabet"]))
    );
    assert_eq!(select_tests(tests.clone(), &vec![]), Ok(tests.clone()));
    match select_tests(tests, &lines(&["zeta"])) {
        Err(CvError::NoTestsFound) => {},
        other => panic!("expected no tests found, got {:?}", other),
    }
    assert_eq!(CvError::NoTestsFound.message(), "  No tests found");
}

#[test]
fn qualification_and_stripping_round_trip() {
    let qualified = qualify_tests("pkg", &lines(&["a", "mod::b"]));
    assert_eq!(qualified, lines(&["pkg::a", "pkg::mod::b"]));
    let entries = vec![
        ("pkg::a".to_string(), "_ZN1aE".to_string()),
        ("other::c".to_string(), "_ZN1cE".to_string()),
    ];
    let stripped = strip_package_prefix("pkg", entries);
    assert_eq!(stripped[0], ("a".to_string(), "_ZN1aE".to_string()));
    assert_eq!(stripped[1], ("other::c".to_string(), "_ZN1cE".to_string()));
}

#[test]
fn single_main_is_required() {
    let one = vec![("main".to_string(), "m".to_string())];
    assert_eq!(select_single_main(one.clone()), Ok(one[0].clone()));
    match select_single_main(vec![]) {
        Err(CvError::MainNotFound) => {},
        other => panic!("expected a missing main, got {:?}", other),
    }
    let two = vec![one[0].clone(), one[0].clone()];
    match select_single_main(two) {
        Err(CvError::MultipleMains) => {},
        other => panic!("expected multiple mains, got {:?}", other),
    }
    assert_eq!(CvError::MainNotFound.message(), "  FAILED: can't find the 'main' function");
    assert_eq!(
        CvError::MultipleMains.message(),
        "  FAILED: found more than one 'main' function"
    );
}

#[test]
fn symbol_counting_needs_exact_fields() {
    let listing = lines(&[
        "0000000000000000 T main",
        "0000000000000010 T _main",
        "0000000000000020 t main",
        "0000000000000030 T other",
        "garbage",
    ]);
    let names = lines(&["main", "_main"]);
    assert_eq!(count_symbols(&listing, &names), 2);
}

#[test]
fn mangled_entries_resolve_through_demangling() {
    // The mangled symbol demangles to the requested name; handing the
    // symbol back unchanged would find nothing.
    let listing = lines(&[
        "0000000000000000 T _ZN3pkg4main17h0123456789abcdefE",
        "0000000000000010 T __ZN3pkg5extra17h0123456789abcdefE",
        "0000000000000020 T plain_symbol",
    ]);
    let names = lines(&["pkg::main", "pkg::extra"]);
    let found = mangle_functions(&listing, &names).unwrap();
    assert_eq!(
        found,
        vec![
            (
                "pkg::main".to_string(),
                "_ZN3pkg4main17h0123456789abcdefE".to_string()
            ),
            (
                "pkg::extra".to_string(),
                "_ZN3pkg5extra17h0123456789abcdefE".to_string()
            ),
        ]
    );
}

#[test]
fn missing_entries_are_counted() {
    let listing = lines(&["0000000000000000 T _ZN3pkg4main17h0123456789abcdefE"]);
    let names = lines(&["pkg::main", "pkg::gone", "pkg::also_gone"]);
    match mangle_functions(&listing, &names) {
        Err(e @ CvError::MissingEntries { count: 2 }) => {
            assert_eq!(e.message(), "Unable to find 2 tests in bytecode file");
        },
        other => panic!("expected two missing entries, got {:?}", other),
    }
}

#[test]
fn aggregate_counts_passes_and_failures() {
    // Five entries, two failing: three passes, two failures, and a
    // non-verified representative.
    let results = vec![
        Status::Verified,
        Status::Error,
        Status::Verified,
        Status::Timeout,
        Status::Verified,
    ];
    let (passes, fails, rep) = aggregate(&results);
    assert_eq!(passes, 3);
    assert_eq!(fails, 2);
    assert_ne!(rep, Status::Verified);
    assert_eq!(rep, Status::Error);

    let all_good = vec![Status::Verified, Status::Verified];
    assert_eq!(aggregate(&all_good), (2, 0, Status::Verified));
    assert_eq!(aggregate(&vec![]), (0, 0, Status::Verified));

    assert_eq!(settle_outcome(Some(Status::Timeout)), Status::Timeout);
    assert_eq!(settle_outcome(None), Status::Unknown);
}

#[test]
fn backend_resolution_prefers_installed_engines() {
    let opt = resolve_options(raw(), true, true, 8).unwrap();
    assert_eq!(opt.backend, Backend::Klee);
    assert_eq!(opt.features, lines(&["verifier-klee"]));
    assert_eq!(opt.jobs, 8);

    let opt2 = resolve_options(raw(), false, true, 4).unwrap();
    assert_eq!(opt2.backend, Backend::Seahorn);
    assert_eq!(opt2.features, lines(&["verifier-seahorn"]));

    let opt3 = resolve_options(raw(), false, false, 4).unwrap();
    assert_eq!(opt3.backend, Backend::Proptest);
    assert_eq!(opt3.features, Vec::<String>::new());
    assert_eq!(opt3.backend.name(), "Proptest");

    let mut jobs = raw();
    jobs.jobs_arg = Some(2);
    assert_eq!(resolve_options(jobs, true, true, 8).unwrap().jobs, 2);
}

#[test]
fn backend_resolution_rejects_missing_engines() {
    let mut want_klee = raw();
    want_klee.backend_arg = Some(Backend::Klee);
    match resolve_options(want_klee, false, true, 1) {
        Err(e @ CvError::KleeNotInstalled) => {
            assert_eq!(e.message(), "Klee is not installed");
        },
        other => panic!("expected the install error, got {:?}", other),
    }
    let mut want_sea = raw();
    want_sea.backend_arg = Some(Backend::Seahorn);
    match resolve_options(want_sea, true, false, 1) {
        Err(e @ CvError::SeahornNotInstalled) => {
            assert_eq!(e.message(), "Seahorn is not installed");
        },
        other => panic!("expected the install error, got {:?}", other),
    }
}

#[test]
fn backend_resolution_rejects_unsupported_options() {
    let mut replay_args = raw();
    replay_args.replay = 1;
    replay_args.args = lines(&["x"]);
    match resolve_options(replay_args, false, false, 1) {
        Err(e @ CvError::ReplayWithArgs) => {
            assert_eq!(
                e.message(),
                "The Proptest backend does not support '--replay' and passing arguments together."
            );
        },
        other => panic!("expected the replay rejection, got {:?}", other),
    }
    let mut sea_args = raw();
    sea_args.backend_arg = Some(Backend::Seahorn);
    sea_args.args = lines(&["x"]);
    match resolve_options(sea_args, true, true, 1) {
        Err(e @ CvError::SeahornArgs) => {
            assert_eq!(
                e.message(),
                "The Seahorn backend does not support passing arguments yet."
            );
        },
        other => panic!("expected the argument rejection, got {:?}", other),
    }
    let mut sea_replay = raw();
    sea_replay.backend_arg = Some(Backend::Seahorn);
    sea_replay.replay = 1;
    match resolve_options(sea_replay, true, true, 1) {
        Err(e @ CvError::SeahornReplay) => {
            assert_eq!(e.message(), "The Seahorn backend does not support '--replay' yet.");
        },
        other => panic!("expected the replay rejection, got {:?}", other),
    }
}

#[test]
fn helper_texts() {
    assert_eq!(String::from("foo").append("bar"), "foobar");
    assert_eq!(from_latin1(&[0x41, 0xE9, 0x20]), "A\u{e9} ");
    assert_eq!(
        info_lines("STDOUT: ", &lines(&["a", "b"])),
        lines(&["STDOUT: a", "STDOUT: b"])
    );
    assert_eq!(join_strs(&lines(&["a", "b", "c"]), ", "), "a, b, c");
    assert_eq!(join_strs(&vec![], ","), "");
    assert_eq!(dec_string(0), "0");
    assert_eq!(dec_string(90210), "90210");
    assert_eq!(CvError::CompileFailed.message(), "FAILED: Couldn't compile");
    assert_eq!(CvError::LinkFailed.message(), "FAILED: Couldn't link");
    assert_eq!(CvError::PatchFailed.message(), "FAILED: Couldn't run rvt-patch-llvm");
    assert_eq!(CvError::RustupFailed.message(), "`rustup show` terminated unsuccessfully");
    assert_eq!(CvError::NoRootPackage.message(), "no root package");
    assert_eq!(CvError::ReplayFailed.message(), "FAILED: Couldn't replay");
    assert_eq!(Status::Verified.describe(true), "ok");
    assert_eq!(Status::Verified.describe(false), "Verified");
    assert_eq!(Status::Overflow.describe(true), "Overflow");
    assert!(Status::Verified.is_verified());
    assert!(!Status::Unknown.is_verified());
}
