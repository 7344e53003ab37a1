//! Adapter for the symbolic-execution backend: classification of its raw
//! output into a [`Status`], extraction of its run statistics, ranking of
//! its output lines by importance, and assembly of its command line.

use vstd::prelude::*;

use crate::marker::{is_expected_panic, is_expected_panic_spec, panic_message_at};
use crate::status::Status;
use crate::text::{
    all_digits, chars_of, digits_val, eq_chars, find_last, has_prefix, has_sub, has_suffix,
    is_digit, is_digit_char, is_space, is_space_char, join_by, join_strs, last_pos, lit_has,
    lit_prefix, lit_suffix, matches_at, parse_usize_digits, split_by, split_chars, string_of,
    sub_chars, trim_chars, trimmed,
};

verus! {

/// The verdict one output line yields on its own: `None` when the line
/// decides nothing. The order of the tests is significant: tool-reported
/// errors come before the generic failure patterns, an expected panic
/// beats the generic failure patterns on the same line, and the
/// exhaustive-exploration marker counts as success only when no
/// expectation is outstanding.
pub open spec fn line_verdict(l: Seq<char>, expect: Option<Seq<char>>) -> Option<Status> {
    if has_prefix(l, "KLEE: HaltTimer invoked"@) {
        Some(Status::Timeout)
    } else if has_prefix(l, "KLEE: halting execution, dumping remaining states"@) {
        Some(Status::Timeout)
    } else if has_prefix(l, "KLEE: ERROR: Could not link"@) {
        Some(Status::Unknown)
    } else if has_prefix(l, "KLEE: ERROR: Unable to load symbol"@) {
        Some(Status::Unknown)
    } else if has_prefix(l, "KLEE: ERROR:"@) && has_sub(l, "unreachable"@) {
        Some(Status::Reachable)
    } else if has_prefix(l, "KLEE: ERROR:"@) && has_sub(l, "overflow"@) {
        Some(Status::Overflow)
    } else if has_prefix(l, "KLEE: ERROR:"@) {
        Some(Status::Error)
    } else if has_prefix(l, "VERIFIER_EXPECT:"@) {
        None
    } else if is_expected_panic_spec(l, expect) {
        Some(Status::Verified)
    } else if has_sub(l, "assertion failed"@) {
        Some(Status::Error)
    } else if has_sub(l, "verification failed"@) {
        Some(Status::Error)
    } else if has_sub(l, "with overflow"@) {
        Some(Status::Overflow)
    } else if has_sub(l, "note: run with `RUST_BACKTRACE=1`"@) {
        Some(Status::Error)
    } else if has_sub(l, "KLEE: done:"@) {
        if expect is None {
            Some(Status::Verified)
        } else {
            Some(Status::Error)
        }
    } else {
        None
    }
}

/// The status of a whole run: the verdict of the first deciding line,
/// or `Unknown` when no line decides.
pub open spec fn status_of(lines: Seq<Seq<char>>, expect: Option<Seq<char>>) -> Status
    decreases lines.len(),
{
    if lines.len() == 0 {
        Status::Unknown
    } else {
        match line_verdict(lines.first(), expect) {
            Some(s) => s,
            None => status_of(lines.drop_first(), expect),
        }
    }
}

/// The verdict of one line.
pub fn verdict(l: &Vec<char>, expect: &Option<String>) -> (r: Option<Status>)
    ensures
        r == line_verdict(l@, expect.deep_view()),
{
    if lit_prefix(l, "KLEE: HaltTimer invoked") {
        Some(Status::Timeout)
    } else if lit_prefix(l, "KLEE: halting execution, dumping remaining states") {
        Some(Status::Timeout)
    } else if lit_prefix(l, "KLEE: ERROR: Could not link") {
        Some(Status::Unknown)
    } else if lit_prefix(l, "KLEE: ERROR: Unable to load symbol") {
        Some(Status::Unknown)
    } else if lit_prefix(l, "KLEE: ERROR:") && lit_has(l, "unreachable") {
        Some(Status::Reachable)
    } else if lit_prefix(l, "KLEE: ERROR:") && lit_has(l, "overflow") {
        Some(Status::Overflow)
    } else if lit_prefix(l, "KLEE: ERROR:") {
        Some(Status::Error)
    } else if lit_prefix(l, "VERIFIER_EXPECT:") {
        None
    } else if is_expected_panic(l, expect) {
        Some(Status::Verified)
    } else if lit_has(l, "assertion failed") {
        Some(Status::Error)
    } else if lit_has(l, "verification failed") {
        Some(Status::Error)
    } else if lit_has(l, "with overflow") {
        Some(Status::Overflow)
    } else if lit_has(l, "note: run with `RUST_BACKTRACE=1`") {
        Some(Status::Error)
    } else if lit_has(l, "KLEE: done:") {
        if expect.is_none() {
            Some(Status::Verified)
        } else {
            Some(Status::Error)
        }
    } else {
        None
    }
}

/// Classifies a whole run from its output lines and the expectation
/// registered by them.
pub fn classify(lines: &Vec<String>, expect: &Option<String>) -> (r: Status)
    ensures
        r == status_of(lines.deep_view(), expect.deep_view()),
{
    let ghost all = lines.deep_view();
    let mut j: usize = 0;
    proof {
        assert(all.skip(0) =~= all);
    }
    while j < lines.len()
        invariant
            j <= lines@.len(),
            all == lines.deep_view(),
            all.len() == lines@.len(),
            status_of(all, expect.deep_view()) == status_of(
                all.skip(j as int),
                expect.deep_view(),
            ),
        decreases lines@.len() - j,
    {
        proof {
            assert(all.skip(j as int).first() == all[j as int]);
            assert(all.skip(j as int).drop_first() =~= all.skip(j + 1));
        }
        let buf = chars_of(lines[j].as_str());
        assert(buf@ == all[j as int]);
        match verdict(&buf, expect) {
            Some(s) => {
                return s;
            },
            None => {},
        }
        j = j + 1;
    }
    proof {
        assert(all.skip(j as int) =~= Seq::<Seq<char>>::empty());
    }
    Status::Unknown
}

/// The importance rank of one output line: lower is more important.
/// `-1` marks a driver-level error that is always shown; `1` and `2`
/// describe an error; `3` is unrecognised (application) output; `4`
/// is a warning; `5` is routine tool chatter.
pub open spec fn importance_of(l: Seq<char>, expect: Option<Seq<char>>) -> int {
    if has_prefix(l, "VERIFIER_EXPECT:"@) {
        4
    } else if is_expected_panic_spec(l, expect) {
        5
    } else if has_sub(l, "assertion failed"@) {
        1
    } else if has_sub(l, "verification failed"@) {
        1
    } else if has_sub(l, "with overflow"@) {
        1
    } else if has_prefix(l, "KLEE: ERROR: Could not link"@) {
        -1
    } else if has_prefix(l, "KLEE: ERROR: Unable to load symbol"@) {
        -1
    } else if has_prefix(l, "KLEE: ERROR:"@) {
        2
    } else if has_prefix(l, "warning: Linking two modules of different data layouts"@) {
        4
    } else if has_sub(l, "KLEE: WARNING:"@) {
        4
    } else if has_sub(l, "KLEE: WARNING ONCE:"@) {
        4
    } else if has_prefix(l, "KLEE: output directory"@) {
        5
    } else if has_prefix(l, "KLEE: Using"@) {
        5
    } else if has_prefix(l, "KLEE: NOTE: Using POSIX model"@) {
        5
    } else if has_prefix(l, "KLEE: done:"@) {
        5
    } else if has_prefix(l, "KLEE: HaltTimer invoked"@) {
        5
    } else if has_prefix(l, "KLEE: halting execution, dumping remaining states"@) {
        5
    } else if has_prefix(l, "KLEE: NOTE: now ignoring this error at this location"@) {
        5
    } else if has_prefix(l, "KLEE:"@) {
        0
    } else {
        3
    }
}

/// The importance rank of one output line.
pub fn importance(l: &Vec<char>, expect: &Option<String>) -> (r: i8)
    ensures
        r as int == importance_of(l@, expect.deep_view()),
{
    if lit_prefix(l, "VERIFIER_EXPECT:") {
        4
    } else if is_expected_panic(l, expect) {
        5
    } else if lit_has(l, "assertion failed") {
        1
    } else if lit_has(l, "verification failed") {
        1
    } else if lit_has(l, "with overflow") {
        1
    } else if lit_prefix(l, "KLEE: ERROR: Could not link") {
        -1
    } else if lit_prefix(l, "KLEE: ERROR: Unable to load symbol") {
        -1
    } else if lit_prefix(l, "KLEE: ERROR:") {
        2
    } else if lit_prefix(l, "warning: Linking two modules of different data layouts") {
        4
    } else if lit_has(l, "KLEE: WARNING:") {
        4
    } else if lit_has(l, "KLEE: WARNING ONCE:") {
        4
    } else if lit_prefix(l, "KLEE: output directory") {
        5
    } else if lit_prefix(l, "KLEE: Using") {
        5
    } else if lit_prefix(l, "KLEE: NOTE: Using POSIX model") {
        5
    } else if lit_prefix(l, "KLEE: done:") {
        5
    } else if lit_prefix(l, "KLEE: HaltTimer invoked") {
        5
    } else if lit_prefix(l, "KLEE: halting execution, dumping remaining states") {
        5
    } else if lit_prefix(l, "KLEE: NOTE: now ignoring this error at this location") {
        5
    } else if lit_prefix(l, "KLEE:") {
        0
    } else {
        3
    }
}

/// The lines whose importance rank lies below the verbosity threshold,
/// in their original order.
pub open spec fn visible_of(lines: Seq<Seq<char>>, expect: Option<Seq<char>>, verbosity: int)
    -> Seq<Seq<char>>
    decreases lines.len(),
{
    if lines.len() == 0 {
        Seq::<Seq<char>>::empty()
    } else {
        let rest = visible_of(lines.drop_last(), expect, verbosity);
        if importance_of(lines.last(), expect) < verbosity {
            rest.push(lines.last())
        } else {
            rest
        }
    }
}

/// Filters the output lines to those the chosen verbosity lets through.
pub fn visible_lines(lines: &Vec<String>, expect: &Option<String>, verbosity: usize) -> (r: Vec<
    String,
>)
    ensures
        r.deep_view() == visible_of(lines.deep_view(), expect.deep_view(), verbosity as int),
{
    let ghost all = lines.deep_view();
    let mut r: Vec<String> = Vec::new();
    let mut j: usize = 0;
    proof {
        assert(all.take(0) =~= Seq::<Seq<char>>::empty());
        assert(r.deep_view() =~= visible_of(all.take(0), expect.deep_view(), verbosity as int));
    }
    while j < lines.len()
        invariant
            j <= lines@.len(),
            all == lines.deep_view(),
            all.len() == lines@.len(),
            r.deep_view() == visible_of(all.take(j as int), expect.deep_view(), verbosity as int),
        decreases lines@.len() - j,
    {
        proof {
            assert(all.take(j + 1).drop_last() =~= all.take(j as int));
            assert(all.take(j + 1).last() == all[j as int]);
        }
        let buf = chars_of(lines[j].as_str());
        assert(buf@ == all[j as int]);
        let imp = importance(&buf, expect);
        let pass = if imp < 0 {
            true
        } else {
            (imp as usize) < verbosity
        };
        if pass {
            let ghost old_r = r.deep_view();
            r.push(lines[j].clone());
            assert(r.deep_view() =~~= old_r.push(all[j as int]));
        }
        j = j + 1;
    }
    proof {
        assert(all.take(j as int) =~= all);
    }
    r
}

/// The position of the last `= ` in `s` that a digit follows, or `-1`.
pub open spec fn last_count_pos(s: Seq<char>) -> int
    decreases s.len(),
{
    if s.len() < 3 {
        -1
    } else if s[s.len() - 3] == '=' && s[s.len() - 2] == ' ' && is_digit(s[s.len() - 1]) {
        s.len() - 3
    } else {
        last_count_pos(s.drop_last())
    }
}

/// The end of the run of digits that starts at `i`.
pub open spec fn digit_run_end(s: Seq<char>, i: int) -> int
    decreases s.len() - i,
{
    if i < s.len() && is_digit(s[i]) {
        digit_run_end(s, i + 1)
    } else {
        i
    }
}

/// What one trailer line contributes to the run statistics: a line of the
/// form `done: <label> = <number>`, with or without the tool's `KLEE: `
/// prefix, yields the trimmed label and the number; a line whose count
/// does not read as an in-range integer contributes nothing.
pub open spec fn stat_of_line(l: Seq<char>) -> Option<(Seq<char>, int)> {
    let body = if has_prefix(l, "KLEE: "@) {
        l.subrange("KLEE: "@.len() as int, l.len() as int)
    } else {
        l
    };
    if !has_prefix(body, "done:"@) {
        None
    } else {
        let rest = body.subrange("done:"@.len() as int, body.len() as int);
        if rest.len() == 0 || !is_space(rest[0]) {
            None
        } else {
            let k = last_count_pos(rest);
            if k < 0 {
                None
            } else {
                let label = trimmed(rest.subrange(0, k));
                let e = digit_run_end(rest, k + 2);
                let value = digits_val(rest.subrange(k + 2, e));
                if value > isize::MAX {
                    None
                } else {
                    Some((label, value))
                }
            }
        }
    }
}

/// The statistics of a whole run, one entry per parsable trailer line,
/// in line order.
pub open spec fn stats_of(lines: Seq<Seq<char>>) -> Seq<(Seq<char>, int)>
    decreases lines.len(),
{
    if lines.len() == 0 {
        Seq::<(Seq<char>, int)>::empty()
    } else {
        let rest = stats_of(lines.drop_last());
        match stat_of_line(lines.last()) {
            Some(p) => rest.push(p),
            None => rest,
        }
    }
}

proof fn lemma_last_count_pos(s: Seq<char>)
    ensures
        last_count_pos(s) == -1 || (0 <= last_count_pos(s) <= s.len() - 3),
        last_count_pos(s) >= 0 ==> {
            let k = last_count_pos(s);
            s[k] == '=' && s[k + 1] == ' ' && is_digit(s[k + 2])
        },
    decreases s.len(),
{
    if s.len() >= 3 && !(s[s.len() - 3] == '=' && s[s.len() - 2] == ' ' && is_digit(
        s[s.len() - 1],
    )) {
        lemma_last_count_pos(s.drop_last());
        assert(forall|q: int| 0 <= q < s.len() - 1 ==> s.drop_last()[q] == s[q]);
    }
}

/// Reads one line as a `done: <label> = <number>` trailer.
pub fn parse_stat_line(l: &Vec<char>) -> (r: Option<(String, isize)>)
    ensures
        match r {
            Some(p) => stat_of_line(l@) == Some((p.0@, p.1 as int)),
            None => stat_of_line(l@) is None,
        },
{
    let body = if lit_prefix(l, "KLEE: ") {
        let pfx = chars_of("KLEE: ");
        sub_chars(l, pfx.len(), l.len())
    } else {
        sub_chars(l, 0, l.len())
    };
    assert(l@.subrange(0, l@.len() as int) =~= l@);
    if !lit_prefix(&body, "done:") {
        return None;
    }
    let dpfx = chars_of("done:");
    let rest = sub_chars(&body, dpfx.len(), body.len());
    if rest.len() == 0 || !is_space_char(rest[0]) {
        return None;
    }
    // Find the last `= ` that a digit follows.
    let mut m: usize = rest.len();
    let mut found: Option<usize> = None;
    proof {
        assert(rest@.take(rest@.len() as int) =~= rest@);
    }
    while m >= 3
        invariant_except_break
            m <= rest@.len(),
            found is None,
            last_count_pos(rest@) == last_count_pos(rest@.take(m as int)),
        ensures
            match found {
                Some(k) => k as int == last_count_pos(rest@),
                None => last_count_pos(rest@) == -1,
            },
        decreases m,
    {
        proof {
            let cur = rest@.take(m as int);
            assert(cur.drop_last() =~= rest@.take(m - 1));
            assert(cur[m - 3] == rest@[m - 3] && cur[m - 2] == rest@[m - 2] && cur.last()
                == rest@[m - 1]);
        }
        if rest[m - 3] == '=' && rest[m - 2] == ' ' && is_digit_char(rest[m - 1]) {
            found = Some(m - 3);
            assert(last_count_pos(rest@.take(m as int)) == m - 3);
            break;
        }
        m = m - 1;
    }
    let k = match found {
        Some(k) => k,
        None => {
            return None;
        },
    };
    assert(k as int == last_count_pos(rest@));
    proof {
        lemma_last_count_pos(rest@);
    }
    assert(is_digit(rest@[k + 2]));
    // The run of digits after `= `.
    let mut e: usize = k + 2;
    while e < rest.len() && is_digit_char(rest[e])
        invariant
            k + 2 <= e <= rest@.len(),
            digit_run_end(rest@, k + 2) == digit_run_end(rest@, e as int),
            forall|q: int| k + 2 <= q < e ==> is_digit(rest@[q]),
        decreases rest@.len() - e,
    {
        e = e + 1;
    }
    assert(e > k + 2) by {
        assert(digit_run_end(rest@, k + 2) == digit_run_end(rest@, k + 3));
    }
    assert(e == digit_run_end(rest@, k + 2));
    let value = match parse_usize_digits(&rest, k + 2, e) {
        Some(v) => v,
        None => {
            proof {
                assert(all_digits(rest@.subrange(k + 2, e as int))) by {
                    assert(is_digit(rest@[k + 2]));
                    assert(forall|q: int| k + 2 <= q < e ==> is_digit(rest@[q]));
                    assert(forall|q: int|
                        0 <= q < e - (k + 2) ==> #[trigger] rest@.subrange(k + 2, e as int)[q]
                            == rest@[q + k + 2]);
                }
                assert(digits_val(rest@.subrange(k + 2, e as int)) > usize::MAX);
            }
            return None;
        },
    };
    if value > (isize::MAX as usize) {
        return None;
    }
    let label = string_of(&trim_chars(&sub_chars(&rest, 0, k)));
    Some((label, value as isize))
}

/// Extracts the run statistics from the output lines.
pub fn statistics(lines: &Vec<String>) -> (r: Vec<(String, isize)>)
    ensures
        r@.len() == stats_of(lines.deep_view()).len(),
        forall|j: int|
            0 <= j < r@.len() ==> r@[j].0@ == stats_of(lines.deep_view())[j].0 && r@[j].1 as int
                == stats_of(lines.deep_view())[j].1,
{
    let ghost all = lines.deep_view();
    let mut r: Vec<(String, isize)> = Vec::new();
    let mut j: usize = 0;
    proof {
        assert(all.take(0) =~= Seq::<Seq<char>>::empty());
    }
    while j < lines.len()
        invariant
            j <= lines@.len(),
            all == lines.deep_view(),
            all.len() == lines@.len(),
            r@.len() == stats_of(all.take(j as int)).len(),
            forall|q: int|
                0 <= q < r@.len() ==> r@[q].0@ == stats_of(all.take(j as int))[q].0 && r@[q].1
                    as int == stats_of(all.take(j as int))[q].1,
        decreases lines@.len() - j,
    {
        proof {
            assert(all.take(j + 1).drop_last() =~= all.take(j as int));
            assert(all.take(j + 1).last() == all[j as int]);
        }
        let buf = chars_of(lines[j].as_str());
        assert(buf@ == all[j as int]);
        match parse_stat_line(&buf) {
            Some(p) => {
                r.push(p);
            },
            None => {},
        }
        j = j + 1;
    }
    proof {
        assert(all.take(j as int) =~= all);
    }
    r
}

/// The value of the last statistics entry whose label is `key`, if any.
pub open spec fn lookup_stat(stats: Seq<(String, isize)>, key: Seq<char>) -> Option<isize>
    decreases stats.len(),
{
    if stats.len() == 0 {
        None
    } else if stats.last().0@ == key {
        Some(stats.last().1)
    } else {
        lookup_stat(stats.drop_last(), key)
    }
}

/// Looks a label up in the extracted statistics; the last entry wins.
pub fn stat_value(stats: &Vec<(String, isize)>, key: &str) -> (r: Option<isize>)
    ensures
        r == lookup_stat(stats@, key@),
{
    let kc = chars_of(key);
    let mut m: usize = stats.len();
    proof {
        assert(stats@.take(stats@.len() as int) =~= stats@);
    }
    while m > 0
        invariant
            m <= stats@.len(),
            kc@ == key@,
            lookup_stat(stats@, key@) == lookup_stat(stats@.take(m as int), key@),
        decreases m,
    {
        proof {
            assert(stats@.take(m as int).drop_last() =~= stats@.take(m - 1));
            assert(stats@.take(m as int).last() == stats@[m - 1]);
        }
        let entry = &stats[m - 1];
        assert(*entry == stats@[m - 1]);
        let lc = chars_of(entry.0.as_str());
        assert(lc@ == stats@[m - 1].0@);
        let ghost lastpair: (String, isize) = stats@.take(m as int).last();
        assert(lastpair == stats@[m - 1]);
        assert(lastpair.0@ == lc@);
        if eq_chars(&lc, &kc) {
            assert(lastpair.0@ == key@);
            assert(lookup_stat(stats@.take(m as int), key@) == Some(lastpair.1));
            return Some(entry.1);
        }
        assert(lastpair.0@ != key@);
        assert(lookup_stat(stats@.take(m as int), key@) == lookup_stat(
            stats@.take(m - 1),
            key@,
        ));
        m = m - 1;
    }
    None
}

/// The flag pieces of a comma-separated extra-flags option.
pub open spec fn flag_pieces(backend_flags: Option<Seq<char>>) -> Seq<Seq<char>> {
    match backend_flags {
        Some(f) => split_by(f, ','),
        None => Seq::<Seq<char>>::empty(),
    }
}

/// The command line of one run: the fixed flags, the entry point, the
/// output directory, the user's extra flags split at commas, the bitcode
/// artifact, and the arguments for the program under test.
pub open spec fn command_of(
    entry: Seq<char>,
    out_dir: Seq<char>,
    backend_flags: Option<Seq<char>>,
    bcfile: Seq<char>,
    prog_args: Seq<Seq<char>>,
) -> Seq<Seq<char>> {
    seq![
        "--exit-on-error"@,
        "--entry-point"@,
        entry,
        "--libc=klee"@,
        "--silent-klee-assume"@,
        "--disable-verify"@,
        "--output-dir"@,
        out_dir,
    ] + flag_pieces(backend_flags) + seq![bcfile] + prog_args
}

/// Assembles the subprocess arguments for one verification run.
pub fn command_args(
    entry: &str,
    out_dir: &str,
    backend_flags: &Option<String>,
    bcfile: &str,
    prog_args: &Vec<String>,
) -> (r: Vec<String>)
    ensures
        r.deep_view() == command_of(
            entry@,
            out_dir@,
            backend_flags.deep_view(),
            bcfile@,
            prog_args.deep_view(),
        ),
{
    let ghost goal = command_of(
        entry@,
        out_dir@,
        backend_flags.deep_view(),
        bcfile@,
        prog_args.deep_view(),
    );
    let mut r: Vec<String> = Vec::new();
    r.push("--exit-on-error".to_owned());
    r.push("--entry-point".to_owned());
    r.push(entry.to_owned());
    r.push("--libc=klee".to_owned());
    r.push("--silent-klee-assume".to_owned());
    r.push("--disable-verify".to_owned());
    r.push("--output-dir".to_owned());
    r.push(out_dir.to_owned());
    let ghost base = seq![
        "--exit-on-error"@,
        "--entry-point"@,
        entry@,
        "--libc=klee"@,
        "--silent-klee-assume"@,
        "--disable-verify"@,
        "--output-dir"@,
        out_dir@,
    ];
    assert(r.deep_view() =~~= base);
    match backend_flags {
        Some(f) => {
            let fc = chars_of(f.as_str());
            let pieces = split_chars(&fc, ',');
            let ghost fp = flag_pieces(backend_flags.deep_view());
            assert(pieces.deep_view() == fp);
            let mut i: usize = 0;
            proof {
                assert(fp.take(0) =~= Seq::<Seq<char>>::empty());
                assert(r.deep_view() =~= base + fp.take(0));
            }
            while i < pieces.len()
                invariant
                    i <= pieces@.len(),
                    pieces.deep_view() == fp,
                    fp.len() == pieces@.len(),
                    r.deep_view() == base + fp.take(i as int),
                decreases pieces@.len() - i,
            {
                let ghost old_r = r.deep_view();
                let piece = string_of(&pieces[i]);
                assert(piece@ == fp[i as int]);
                r.push(piece);
                proof {
                    assert(r.deep_view() =~~= old_r.push(fp[i as int]));
                    assert(old_r.push(fp[i as int]) =~= base + fp.take(i + 1));
                }
                i = i + 1;
            }
            proof {
                assert(fp.take(i as int) =~= fp);
            }
        },
        None => {
            proof {
                assert(r.deep_view() =~= base + flag_pieces(backend_flags.deep_view()));
            }
        },
    }
    let ghost mid = base + flag_pieces(backend_flags.deep_view());
    let ghost old_r = r.deep_view();
    r.push(bcfile.to_owned());
    proof {
        assert(r.deep_view() =~~= old_r.push(bcfile@));
        assert(old_r.push(bcfile@) =~= mid + seq![bcfile@]);
    }
    let ghost mid2 = mid + seq![bcfile@];
    let ghost pa = prog_args.deep_view();
    let mut i: usize = 0;
    proof {
        assert(pa.take(0) =~= Seq::<Seq<char>>::empty());
        assert(r.deep_view() =~= mid2 + pa.take(0));
    }
    while i < prog_args.len()
        invariant
            i <= prog_args@.len(),
            pa == prog_args.deep_view(),
            pa.len() == prog_args@.len(),
            r.deep_view() == mid2 + pa.take(i as int),
        decreases prog_args@.len() - i,
    {
        let ghost old_r = r.deep_view();
        r.push(prog_args[i].clone());
        proof {
            assert(r.deep_view() =~~= old_r.push(pa[i as int]));
            assert(old_r.push(pa[i as int]) =~= mid2 + pa.take(i + 1));
        }
        i = i + 1;
    }
    proof {
        assert(pa.take(i as int) =~= pa);
        assert(r.deep_view() =~= goal);
    }
    r
}

/// A counterexample error report: its name holds `test` and ends `.err`.
pub open spec fn is_err_name(s: Seq<char>) -> bool {
    has_suffix(s, ".err"@) && has_sub(s.subrange(0, s.len() - ".err"@.len()), "test"@)
}

/// A recorded concrete input: its name holds `test` and ends `.ktest`.
pub open spec fn is_input_name(s: Seq<char>) -> bool {
    has_suffix(s, ".ktest"@) && has_sub(s.subrange(0, s.len() - ".ktest"@.len()), "test"@)
}

/// Whether a file name is a counterexample error report.
pub fn err_name_matches(name: &str) -> (r: bool)
    ensures
        r == is_err_name(name@),
{
    let buf = chars_of(name);
    if !lit_suffix(&buf, ".err") {
        return false;
    }
    proof {
        reveal_strlit(".err");
    }
    let stem = sub_chars(&buf, 0, buf.len() - 4);
    lit_has(&stem, "test")
}

/// Whether a file name is a recorded concrete input.
pub fn input_name_matches(name: &str) -> (r: bool)
    ensures
        r == is_input_name(name@),
{
    let buf = chars_of(name);
    if !lit_suffix(&buf, ".ktest") {
        return false;
    }
    proof {
        reveal_strlit(".ktest");
    }
    let stem = sub_chars(&buf, 0, buf.len() - 6);
    lit_has(&stem, "test")
}

/// `s` without its extension: everything before the last dot of the last
/// path component, unless that dot starts the component.
pub open spec fn drop_ext(s: Seq<char>) -> Seq<char> {
    let slash = last_pos(s, '/');
    let dot = last_pos(s, '.');
    if dot > slash + 1 {
        s.subrange(0, dot)
    } else {
        s
    }
}

/// The recorded input that belongs to a counterexample error report:
/// the report's name without its two final extensions, with `.ktest`.
pub open spec fn replay_input_of(err: Seq<char>) -> Seq<char> {
    drop_ext(drop_ext(err)) + ".ktest"@
}

fn drop_ext_chars(v: &Vec<char>) -> (r: Vec<char>)
    ensures
        r@ == drop_ext(v@),
{
    let slash = find_last(v, '/');
    let dot = find_last(v, '.');
    match dot {
        Some(d) => {
            let cut = match slash {
                Some(sl) => d > sl && d - sl > 1,
                None => d > 0,
            };
            if cut {
                sub_chars(v, 0, d)
            } else {
                sub_chars(v, 0, v.len())
            }
        },
        None => sub_chars(v, 0, v.len()),
    }
}

/// Derives the recorded-input path from a counterexample report path.
pub fn replay_input_for(err: &str) -> (r: String)
    ensures
        r@ == replay_input_of(err@),
{
    let buf = chars_of(err);
    let d1 = drop_ext_chars(&buf);
    let mut d2 = drop_ext_chars(&d1);
    let mut ext = chars_of(".ktest");
    d2.append(&mut ext);
    let r = string_of(&d2);
    assert(r@ =~= replay_input_of(err@));
    r
}

/// The build-tool arguments that replay one recorded input: in test mode
/// the named test is run without capturing its output; otherwise the
/// program is run with its passthrough arguments. The recorded input
/// itself is handed over in the environment, not on the command line.
pub open spec fn replay_command_of(
    tests_mode: bool,
    features: Seq<Seq<char>>,
    name: Seq<char>,
    prog_args: Seq<Seq<char>>,
) -> Seq<Seq<char>> {
    let feat = if features.len() > 0 {
        seq!["--features"@, join_by(features, ","@)]
    } else {
        Seq::<Seq<char>>::empty()
    };
    if tests_mode {
        seq!["test"@] + feat + seq![name, "--"@, "--nocapture"@]
    } else {
        seq!["run"@] + feat + (if prog_args.len() > 0 {
            seq!["--"@] + prog_args
        } else {
            Seq::<Seq<char>>::empty()
        })
    }
}

/// Assembles the build-tool arguments that replay one recorded input.
pub fn replay_command_args(
    tests_mode: bool,
    features: &Vec<String>,
    name: &str,
    prog_args: &Vec<String>,
) -> (r: Vec<String>)
    ensures
        r.deep_view() == replay_command_of(
            tests_mode,
            features.deep_view(),
            name@,
            prog_args.deep_view(),
        ),
{
    let ghost goal = replay_command_of(
        tests_mode,
        features.deep_view(),
        name@,
        prog_args.deep_view(),
    );
    let mut r: Vec<String> = Vec::new();
    if tests_mode {
        r.push("test".to_owned());
    } else {
        r.push("run".to_owned());
    }
    if features.len() > 0 {
        let joined = join_strs(features, ",");
        r.push("--features".to_owned());
        r.push(joined);
    }
    if tests_mode {
        r.push(name.to_owned());
        r.push("--".to_owned());
        r.push("--nocapture".to_owned());
        assert(r.deep_view() =~~= goal);
    } else {
        if prog_args.len() > 0 {
            r.push("--".to_owned());
            let ghost head = r.deep_view();
            let ghost pa = prog_args.deep_view();
            let mut i: usize = 0;
            proof {
                assert(pa.take(0) =~= Seq::<Seq<char>>::empty());
                assert(r.deep_view() =~= head + pa.take(0));
            }
            while i < prog_args.len()
                invariant
                    i <= prog_args@.len(),
                    pa == prog_args.deep_view(),
                    pa.len() == prog_args@.len(),
                    r.deep_view() == head + pa.take(i as int),
                decreases prog_args@.len() - i,
            {
                let ghost old_r = r.deep_view();
                r.push(prog_args[i].clone());
                proof {
                    assert(r.deep_view() =~~= old_r.push(pa[i as int]));
                    assert(old_r.push(pa[i as int]) =~= head + pa.take(i + 1));
                }
                i = i + 1;
            }
            proof {
                assert(pa.take(i as int) =~= pa);
            }
            assert(r.deep_view() =~~= goal);
        } else {
            assert(r.deep_view() =~~= goal);
        }
    }
    r
}

proof fn lemma_not_klee_prefixed(l: Seq<char>)
    requires
        !has_prefix(l, "KLEE:"@),
    ensures
        !has_prefix(l, "KLEE: HaltTimer invoked"@),
        !has_prefix(l, "KLEE: halting execution, dumping remaining states"@),
        !has_prefix(l, "KLEE: ERROR: Could not link"@),
        !has_prefix(l, "KLEE: ERROR: Unable to load symbol"@),
        !has_prefix(l, "KLEE: ERROR:"@),
{
    reveal_strlit("KLEE:");
    reveal_strlit("KLEE: HaltTimer invoked");
    reveal_strlit("KLEE: halting execution, dumping remaining states");
    reveal_strlit("KLEE: ERROR: Could not link");
    reveal_strlit("KLEE: ERROR: Unable to load symbol");
    reveal_strlit("KLEE: ERROR:");
    if has_prefix(l, "KLEE: HaltTimer invoked"@) {
        assert(l.subrange(0, 5) =~= "KLEE:"@);
    }
    if has_prefix(l, "KLEE: halting execution, dumping remaining states"@) {
        assert(l.subrange(0, 5) =~= "KLEE:"@);
    }
    if has_prefix(l, "KLEE: ERROR: Could not link"@) {
        assert(l.subrange(0, 5) =~= "KLEE:"@);
    }
    if has_prefix(l, "KLEE: ERROR: Unable to load symbol"@) {
        assert(l.subrange(0, 5) =~= "KLEE:"@);
    }
    if has_prefix(l, "KLEE: ERROR:"@) {
        assert(l.subrange(0, 5) =~= "KLEE:"@);
    }
}

/// Law: under the bare expectation, a line that reports any panic is an
/// expected panic, and the classifier's verdict for it is `Verified`,
/// even when a generic failure pattern (an assertion failure, a failed
/// verification, an overflow, a backtrace note) also matches that line.
/// Tool-prefixed lines are exempt: a panic report is program output and
/// carries no tool prefix.
pub proof fn lemma_bare_expectation_verifies_any_panic(l: Seq<char>, i: int, j: int)
    requires
        panic_message_at(l, i, j),
        !has_prefix(l, "KLEE:"@),
        !has_prefix(l, "VERIFIER_EXPECT:"@),
    ensures
        is_expected_panic_spec(l, Some(Seq::<char>::empty())),
        line_verdict(l, Some(Seq::<char>::empty())) == Some(Status::Verified),
{
    assert(matches_at(l.subrange(i, j), 0, Seq::<char>::empty())) by {
        assert(l.subrange(i, j).subrange(0, 0) =~= Seq::<char>::empty());
    }
    assert(has_sub(l.subrange(i, j), Seq::<char>::empty()));
    lemma_not_klee_prefixed(l);
}

/// Law: under an expectation with a required substring, a panic line
/// satisfies the expectation exactly when one of its panic messages
/// contains that substring; and a panic line that does not satisfy it,
/// but shows a generic failure, yields `Error`, not `Verified`.
pub proof fn lemma_substring_expectation_decides(l: Seq<char>, e: Seq<char>)
    requires
        !is_expected_panic_spec(l, Some(e)),
        has_sub(l, "assertion failed"@) || has_sub(l, "verification failed"@) || has_sub(
            l,
            "note: run with `RUST_BACKTRACE=1`"@,
        ),
        !has_sub(l, "with overflow"@),
        !has_prefix(l, "KLEE:"@),
        !has_prefix(l, "VERIFIER_EXPECT:"@),
    ensures
        line_verdict(l, Some(e)) == Some(Status::Error),
        line_verdict(l, Some(e)) != Some(Status::Verified),
{
    lemma_not_klee_prefixed(l);
}

/// Law: the classifier calls a line `Verified` only when it is a panic
/// that satisfies the registered expectation, or when it is the
/// exhaustive-exploration marker and no expectation is outstanding.
pub proof fn lemma_verified_only_as_expected(l: Seq<char>, expect: Option<Seq<char>>)
    requires
        line_verdict(l, expect) == Some(Status::Verified),
    ensures
        is_expected_panic_spec(l, expect) || (expect is None && has_sub(l, "KLEE: done:"@)),
{
}

} // verus!
