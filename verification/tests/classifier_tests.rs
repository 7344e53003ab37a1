use cargo_verify::klee;
use cargo_verify::marker::scan_expectation;
use cargo_verify::proptest;
use cargo_verify::seahorn;
use cargo_verify::status::Status;
use cargo_verify::text::{chars_of, split_lines};

fn lines(v: &[&str]) -> Vec<String> {
    v.iter().map(|s| s.to_string()).collect()
}

#[test]
fn generic_expectation_verifies_any_panic() {
    // The bare marker expects any panic; the panic line also shows the
    // generic "assertion failed" pattern, yet the run verifies.
    let log = lines(&[
        "VERIFIER_EXPECT: should_panic",
        "thread 'main' panicked at 'assertion failed: 1 == 2', src/main.rs:1:1",
        "note: run with `RUST_BACKTRACE=1` environment variable to display a backtrace",
    ]);
    let expect = scan_expectation(&log);
    assert_eq!(expect, Some(String::new()));
    assert_eq!(klee::classify(&log, &expect), Status::Verified);
    assert_eq!(seahorn::classify(&log, &expect), Status::Verified);
}

#[test]
fn substring_expectation_needs_matching_message() {
    let log = lines(&[
        "VERIFIER_EXPECT: should_panic(expected = \"index out of range\")",
        "thread 'main' panicked at 'index out of range: 7', src/main.rs:3:9",
    ]);
    let expect = scan_expectation(&log);
    assert_eq!(expect, Some("index out of range".to_string()));
    assert_eq!(klee::classify(&log, &expect), Status::Verified);
    assert_eq!(seahorn::classify(&log, &expect), Status::Verified);
}

#[test]
fn substring_expectation_rejects_other_panic() {
    // A panic with a different message under the same expectation is an
    // error, not a verification.
    let log = lines(&[
        "VERIFIER_EXPECT: should_panic(expected = \"index out of range\")",
        "thread 'main' panicked at 'assertion failed: 1 == 2', src/main.rs:1:1",
    ]);
    let expect = scan_expectation(&log);
    assert_eq!(expect, Some("index out of range".to_string()));
    assert_eq!(klee::classify(&log, &expect), Status::Error);
}

#[test]
fn exhaustive_exploration_without_expectation_verifies() {
    let log = lines(&["KLEE: done: completed paths = 1"]);
    assert_eq!(klee::classify(&log, &None), Status::Verified);
    let sea = lines(&["unsat"]);
    assert_eq!(seahorn::classify(&sea, &None), Status::Verified);
}

#[test]
fn exhaustive_exploration_with_expectation_errors() {
    let log = lines(&[
        "VERIFIER_EXPECT: should_panic",
        "KLEE: done: completed paths = 1",
    ]);
    let expect = scan_expectation(&log);
    assert_eq!(klee::classify(&log, &expect), Status::Error);
    let sea = lines(&["VERIFIER_EXPECT: should_panic", "unsat"]);
    let sea_expect = scan_expectation(&sea);
    assert_eq!(seahorn::classify(&sea, &sea_expect), Status::Error);
}

#[test]
fn later_marker_wins() {
    let log = lines(&[
        "VERIFIER_EXPECT: should_panic(expected = \"first\")",
        "VERIFIER_EXPECT: should_panic(expected = \"second\")",
    ]);
    assert_eq!(scan_expectation(&log), Some("second".to_string()));
    // A marker with a broken closing is no marker.
    let broken = lines(&["VERIFIER_EXPECT: should_panic(expected = \"oops"]);
    assert_eq!(scan_expectation(&broken), None);
}

#[test]
fn klee_error_patterns_take_precedence() {
    assert_eq!(
        klee::classify(&lines(&["KLEE: ERROR: Could not link against foo"]), &None),
        Status::Unknown
    );
    assert_eq!(
        klee::classify(&lines(&["KLEE: ERROR: Unable to load symbol bar"]), &None),
        Status::Unknown
    );
    assert_eq!(
        klee::classify(&lines(&["KLEE: ERROR: (location) reached \"unreachable\" code"]), &None),
        Status::Reachable
    );
    assert_eq!(
        klee::classify(&lines(&["KLEE: ERROR: overflow on addition"]), &None),
        Status::Overflow
    );
    assert_eq!(
        klee::classify(&lines(&["KLEE: ERROR: something else"]), &None),
        Status::Error
    );
    assert_eq!(
        klee::classify(&lines(&["KLEE: HaltTimer invoked"]), &None),
        Status::Timeout
    );
    assert_eq!(
        klee::classify(&lines(&["attempt to add with overflow"]), &None),
        Status::Overflow
    );
    assert_eq!(klee::classify(&lines(&["nothing recognisable"]), &None), Status::Unknown);
    assert_eq!(klee::classify(&lines(&[]), &None), Status::Unknown);
}

#[test]
fn seahorn_sat_is_error() {
    assert_eq!(seahorn::classify(&lines(&["sat"]), &None), Status::Error);
    assert_eq!(seahorn::classify(&lines(&["satisfied"]), &None), Status::Unknown);
}

#[test]
fn statistics_parse_trailer_lines() {
    // The documented trailer form parses with and without the tool prefix.
    let log = lines(&["done: completed paths = 42"]);
    let stats = klee::statistics(&log);
    assert_eq!(stats, vec![("completed paths".to_string(), 42isize)]);

    let log2 = lines(&[
        "KLEE: done: total instructions = 6",
        "KLEE: done: completed paths = 2",
        "KLEE: done: partially completed paths = 0",
    ]);
    let stats2 = klee::statistics(&log2);
    assert_eq!(stats2.len(), 3);
    assert_eq!(klee::stat_value(&stats2, "completed paths"), Some(2));
    assert_eq!(klee::stat_value(&stats2, "total instructions"), Some(6));
    assert_eq!(klee::stat_value(&stats2, "missing"), None);
}

#[test]
fn statistics_drop_malformed_counts() {
    let log = lines(&[
        "KLEE: done: completed paths = many",
        "KLEE: done: generated tests = 99999999999999999999999999",
        "KLEE: done",
        "done:nothing = 1",
    ]);
    assert_eq!(klee::statistics(&log), vec![]);
}

#[test]
fn importance_ranks_lines() {
    let none: Option<String> = None;
    assert_eq!(klee::importance(&chars_of("VERIFIER_EXPECT: should_panic"), &none), 4);
    assert_eq!(klee::importance(&chars_of("some assertion failed here"), &none), 1);
    assert_eq!(klee::importance(&chars_of("KLEE: ERROR: Could not link"), &none), -1);
    assert_eq!(klee::importance(&chars_of("KLEE: ERROR: other"), &none), 2);
    assert_eq!(klee::importance(&chars_of("KLEE: WARNING: thing"), &none), 4);
    assert_eq!(klee::importance(&chars_of("KLEE: done: paths = 1"), &none), 5);
    assert_eq!(klee::importance(&chars_of("KLEE: uncategorised"), &none), 0);
    assert_eq!(klee::importance(&chars_of("application output"), &none), 3);
    assert_eq!(seahorn::importance(&chars_of("sat"), &none), 1);
    assert_eq!(seahorn::importance(&chars_of("Warning: odd"), &none), 0);
    assert_eq!(seahorn::importance(&chars_of("unsat"), &none), 5);
    assert_eq!(
        seahorn::importance(&chars_of("Warning: Externalizing function: foo"), &none),
        4
    );
}

#[test]
fn visible_lines_respect_verbosity() {
    let log = lines(&[
        "KLEE: ERROR: Could not link",
        "some assertion failed here",
        "application output",
        "KLEE: done: paths = 1",
    ]);
    let none: Option<String> = None;
    // At verbosity zero only always-shown driver errors pass.
    assert_eq!(klee::visible_lines(&log, &none, 0), lines(&["KLEE: ERROR: Could not link"]));
    // At verbosity two, rank-one error summaries pass as well.
    assert_eq!(
        klee::visible_lines(&log, &none, 2),
        lines(&["KLEE: ERROR: Could not link", "some assertion failed here"])
    );
    // A high verbosity shows everything.
    assert_eq!(klee::visible_lines(&log, &none, 9), log);
}

#[test]
fn proptest_run_classification() {
    assert_eq!(proptest::classify(true, &lines(&["anything"])), Status::Verified);
    assert_eq!(
        proptest::classify(false, &lines(&["attempt to multiply with overflow"])),
        Status::Overflow
    );
    assert_eq!(proptest::classify(false, &lines(&["test failed"])), Status::Error);
    assert!(proptest::check_install());
}

#[test]
fn split_lines_handles_endings() {
    assert_eq!(split_lines("a\nb"), lines(&["a", "b"]));
    assert_eq!(split_lines("a\r\nb\r\n"), lines(&["a", "b"]));
    assert_eq!(split_lines(""), lines(&[]));
    assert_eq!(split_lines("\n"), lines(&[""]));
    assert_eq!(split_lines("a\r"), lines(&["a\r"]));
}

#[test]
fn klee_command_line_shape() {
    let args = klee::command_args(
        "mangled_entry",
        "kleeout-t",
        &Some("--max-time=60,--watchdog".to_string()),
        "app.bc",
        &vec!["arg1".to_string()],
    );
    assert_eq!(
        args,
        lines(&[
            "--exit-on-error",
            "--entry-point",
            "mangled_entry",
            "--libc=klee",
            "--silent-klee-assume",
            "--disable-verify",
            "--output-dir",
            "kleeout-t",
            "--max-time=60",
            "--watchdog",
            "app.bc",
            "arg1",
        ])
    );
}

#[test]
fn seahorn_command_line_shape() {
    let args = seahorn::command_args("entry_sym", "seaout-t", &None, "app.bc");
    assert_eq!(args[0], "bpf");
    assert_eq!(args[args.len() - 3], "--temp-dir=seaout-t");
    assert_eq!(args[args.len() - 2], "--entry=entry_sym");
    assert_eq!(args[args.len() - 1], "app.bc");
    assert_eq!(args.len(), 28);
}

#[test]
fn replay_command_line_shape() {
    let feats = vec!["verifier-klee".to_string()];
    assert_eq!(
        klee::replay_command_args(true, &feats, "my_test", &vec![]),
        lines(&["test", "--features", "verifier-klee", "my_test", "--", "--nocapture"])
    );
    assert_eq!(
        klee::replay_command_args(false, &feats, "main", &vec!["7".to_string()]),
        lines(&["run", "--features", "verifier-klee", "--", "7"])
    );
    assert_eq!(klee::replay_command_args(false, &vec![], "main", &vec![]), lines(&["run"]));
}

#[test]
fn counterexample_file_names() {
    assert!(klee::err_name_matches("test000001.abort.err"));
    assert!(klee::err_name_matches("test02.ptr.err"));
    assert!(!klee::err_name_matches("test000001.ktest"));
    assert!(!klee::err_name_matches("other.err"));
    assert!(klee::input_name_matches("test000001.ktest"));
    assert!(!klee::input_name_matches("test000001.err"));
    assert_eq!(
        klee::replay_input_for("kleeout-t/test000001.abort.err"),
        "kleeout-t/test000001.ktest"
    );
    assert_eq!(klee::replay_input_for("test02.ptr.err"), "test02.ktest");
}
