//! Adapter for the property-testing backend: it runs the crate's own test
//! harness, so a run's status is decided by the harness's exit and, on
//! failure, by whether its diagnostics show an arithmetic overflow.

use vstd::prelude::*;

use crate::status::Status;
use crate::text::{chars_of, has_sub, join_by, join_strs, lit_has};

verus! {

/// This backend needs only the ordinary build tool, which is assumed
/// present; its installation check always succeeds.
pub fn check_install() -> (r: bool)
    ensures
        r == true,
{
    true
}

/// Whether any line shows an arithmetic overflow.
pub open spec fn any_overflow(lines: Seq<Seq<char>>) -> bool {
    exists|j: int| 0 <= j < lines.len() && has_sub(lines[j], "with overflow"@)
}

/// The status of one harness run: success verifies; a failure whose
/// diagnostics show an overflow is `Overflow`, any other failure `Error`.
pub open spec fn run_status(success: bool, stderr_lines: Seq<Seq<char>>) -> Status {
    if success {
        Status::Verified
    } else if any_overflow(stderr_lines) {
        Status::Overflow
    } else {
        Status::Error
    }
}

/// Classifies one harness run from its exit and its diagnostics.
pub fn classify(success: bool, stderr_lines: &Vec<String>) -> (r: Status)
    ensures
        r == run_status(success, stderr_lines.deep_view()),
{
    if success {
        return Status::Verified;
    }
    let ghost all = stderr_lines.deep_view();
    let mut j: usize = 0;
    while j < stderr_lines.len()
        invariant
            !success,
            j <= stderr_lines@.len(),
            all == stderr_lines.deep_view(),
            all.len() == stderr_lines@.len(),
            forall|q: int| 0 <= q < j ==> !has_sub(all[q], "with overflow"@),
        decreases stderr_lines@.len() - j,
    {
        let buf = chars_of(stderr_lines[j].as_str());
        assert(buf@ == all[j as int]);
        if lit_has(&buf, "with overflow") {
            proof {
                assert(0 <= (j as int) < all.len() && has_sub(all[j as int], "with overflow"@));
                assert(any_overflow(all));
            }
            return Status::Overflow;
        }
        j = j + 1;
    }
    Status::Error
}

/// `n` copies of `x`.
pub open spec fn repeated(x: Seq<char>, n: int) -> Seq<Seq<char>>
    decreases n,
{
    if n <= 0 {
        Seq::<Seq<char>>::empty()
    } else {
        repeated(x, n - 1).push(x)
    }
}

/// One `--test <filter>` pair per filter, in order.
pub open spec fn filter_args(ts: Seq<Seq<char>>) -> Seq<Seq<char>>
    decreases ts.len(),
{
    if ts.len() == 0 {
        Seq::<Seq<char>>::empty()
    } else {
        filter_args(ts.drop_last()) + seq!["--test"@, ts.last()]
    }
}

/// The build-tool arguments for one harness run: the test subcommand
/// against the given manifest, one `-v` per verbosity step, the features
/// joined by commas, the whole-suite switch, the test filters, and the
/// replay or passthrough arguments. With replay requested the harness
/// shows its output unabridged; the two are never combined.
pub open spec fn command_of(
    manifest_path: Seq<char>,
    verbosity: int,
    features: Seq<Seq<char>>,
    tests: bool,
    test_filters: Seq<Seq<char>>,
    replay: int,
    prog_args: Seq<Seq<char>>,
) -> Seq<Seq<char>> {
    let head = seq!["test"@, "--manifest-path"@, manifest_path] + repeated("-v"@, verbosity) + (
    if features.len() > 0 {
        seq!["--features"@, join_by(features, ","@)]
    } else {
        Seq::<Seq<char>>::empty()
    }) + (if tests {
        seq!["--tests"@]
    } else {
        Seq::<Seq<char>>::empty()
    }) + filter_args(test_filters);
    if replay > 0 {
        head + seq!["--"@, "--nocapture"@]
    } else if prog_args.len() > 0 {
        head + seq!["--"@] + prog_args
    } else {
        head
    }
}

/// Assembles the build-tool arguments for one harness run.
///
/// A positive replay level requires that no passthrough arguments were
/// given; the option resolver rejects that combination up front.
pub fn command_args(
    manifest_path: &str,
    verbosity: usize,
    features: &Vec<String>,
    tests: bool,
    test_filters: &Vec<String>,
    replay: usize,
    prog_args: &Vec<String>,
) -> (r: Vec<String>)
    requires
        replay > 0 ==> prog_args@.len() == 0,
    ensures
        r.deep_view() == command_of(
            manifest_path@,
            verbosity as int,
            features.deep_view(),
            tests,
            test_filters.deep_view(),
            replay as int,
            prog_args.deep_view(),
        ),
{
    let mut r: Vec<String> = Vec::new();
    r.push("test".to_owned());
    r.push("--manifest-path".to_owned());
    r.push(manifest_path.to_owned());
    let ghost base0 = seq!["test"@, "--manifest-path"@, manifest_path@];
    assert(r.deep_view() =~~= base0);
    let mut i: usize = 0;
    while i < verbosity
        invariant
            i <= verbosity,
            base0 == seq!["test"@, "--manifest-path"@, manifest_path@],
            r.deep_view() == base0 + repeated("-v"@, i as int),
        decreases verbosity - i,
    {
        let ghost old_r = r.deep_view();
        r.push("-v".to_owned());
        proof {
            assert(r.deep_view() =~~= old_r.push("-v"@));
            assert(old_r.push("-v"@) =~= base0 + repeated("-v"@, i + 1));
        }
        i = i + 1;
    }
    let ghost base1 = base0 + repeated("-v"@, verbosity as int);
    if features.len() > 0 {
        let ghost old_r = r.deep_view();
        let joined = join_strs(features, ",");
        r.push("--features".to_owned());
        r.push(joined);
        assert(r.deep_view() =~~= old_r + seq![
            "--features"@,
            join_by(features.deep_view(), ","@),
        ]);
    } else {
        assert(r.deep_view() =~= base1 + Seq::<Seq<char>>::empty());
    }
    let ghost base2 = base1 + (if features.deep_view().len() > 0 {
        seq!["--features"@, join_by(features.deep_view(), ","@)]
    } else {
        Seq::<Seq<char>>::empty()
    });
    assert(r.deep_view() =~= base2);
    if tests {
        let ghost old_r = r.deep_view();
        r.push("--tests".to_owned());
        assert(r.deep_view() =~~= old_r.push("--tests"@));
    }
    let ghost base3 = base2 + (if tests {
        seq!["--tests"@]
    } else {
        Seq::<Seq<char>>::empty()
    });
    assert(r.deep_view() =~= base3);
    let ghost fs = test_filters.deep_view();
    let mut i: usize = 0;
    proof {
        assert(fs.take(0) =~= Seq::<Seq<char>>::empty());
        assert(r.deep_view() =~= base3 + filter_args(fs.take(0)));
    }
    while i < test_filters.len()
        invariant
            i <= test_filters@.len(),
            fs == test_filters.deep_view(),
            fs.len() == test_filters@.len(),
            r.deep_view() == base3 + filter_args(fs.take(i as int)),
        decreases test_filters@.len() - i,
    {
        proof {
            assert(fs.take(i + 1).drop_last() =~= fs.take(i as int));
            assert(fs.take(i + 1).last() == fs[i as int]);
        }
        let ghost old_r = r.deep_view();
        r.push("--test".to_owned());
        r.push(test_filters[i].clone());
        proof {
            assert(r.deep_view() =~~= old_r + seq!["--test"@, fs[i as int]]);
            assert(old_r + seq!["--test"@, fs[i as int]] =~= base3 + filter_args(fs.take(i + 1)));
        }
        i = i + 1;
    }
    proof {
        assert(fs.take(i as int) =~= fs);
    }
    let ghost head = base3 + filter_args(fs);
    if replay > 0 {
        let ghost old_r = r.deep_view();
        r.push("--".to_owned());
        r.push("--nocapture".to_owned());
        assert(r.deep_view() =~~= old_r + seq!["--"@, "--nocapture"@]);
    } else if prog_args.len() > 0 {
        let ghost old_r = r.deep_view();
        r.push("--".to_owned());
        assert(r.deep_view() =~~= old_r.push("--"@));
        let ghost pa = prog_args.deep_view();
        let ghost mid = head + seq!["--"@];
        assert(r.deep_view() =~= mid);
        let mut i: usize = 0;
        proof {
            assert(pa.take(0) =~= Seq::<Seq<char>>::empty());
            assert(r.deep_view() =~= mid + pa.take(0));
        }
        while i < prog_args.len()
            invariant
                i <= prog_args@.len(),
                pa == prog_args.deep_view(),
                pa.len() == prog_args@.len(),
                r.deep_view() == mid + pa.take(i as int),
            decreases prog_args@.len() - i,
        {
            let ghost old_r = r.deep_view();
            r.push(prog_args[i].clone());
            proof {
                assert(r.deep_view() =~~= old_r.push(pa[i as int]));
                assert(old_r.push(pa[i as int]) =~= mid + pa.take(i + 1));
            }
            i = i + 1;
        }
        proof {
            assert(pa.take(i as int) =~= pa);
        }
    }
    assert(r.deep_view() =~= command_of(
        manifest_path@,
        verbosity as int,
        features.deep_view(),
        tests,
        test_filters.deep_view(),
        replay as int,
        prog_args.deep_view(),
    ));
    r
}

} // verus!
