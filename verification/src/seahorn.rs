//! Adapter for the bounded-model-checking backend: classification of its
//! output into a [`Status`], ranking of its output lines by importance,
//! and assembly of its command line. This backend reports a violation
//! with a bare `sat` line and a completed exploration with `unsat`.

use vstd::prelude::*;

use crate::marker::{is_expected_panic, is_expected_panic_spec, panic_message_at};
use crate::status::Status;
use crate::text::{
    chars_of, has_prefix, has_sub, lit_eq, lit_prefix, matches_at, split_by, split_chars,
    string_of,
};

verus! {

/// The verdict one output line yields on its own. An expected panic beats
/// the violation marker; the completed-exploration marker counts as
/// success only when no expectation is outstanding.
pub open spec fn line_verdict(l: Seq<char>, expect: Option<Seq<char>>) -> Option<Status> {
    if has_prefix(l, "VERIFIER_EXPECT:"@) {
        None
    } else if is_expected_panic_spec(l, expect) {
        Some(Status::Verified)
    } else if l == "sat"@ {
        Some(Status::Error)
    } else if l == "unsat"@ {
        if expect is None {
            Some(Status::Verified)
        } else {
            Some(Status::Error)
        }
    } else {
        None
    }
}

/// The status of a whole run: the verdict of the first deciding line,
/// or `Unknown` when no line decides.
pub open spec fn status_of(lines: Seq<Seq<char>>, expect: Option<Seq<char>>) -> Status
    decreases lines.len(),
{
    if lines.len() == 0 {
        Status::Unknown
    } else {
        match line_verdict(lines.first(), expect) {
            Some(s) => s,
            None => status_of(lines.drop_first(), expect),
        }
    }
}

/// The verdict of one line.
pub fn verdict(l: &Vec<char>, expect: &Option<String>) -> (r: Option<Status>)
    ensures
        r == line_verdict(l@, expect.deep_view()),
{
    if lit_prefix(l, "VERIFIER_EXPECT:") {
        None
    } else if is_expected_panic(l, expect) {
        Some(Status::Verified)
    } else if lit_eq(l, "sat") {
        Some(Status::Error)
    } else if lit_eq(l, "unsat") {
        if expect.is_none() {
            Some(Status::Verified)
        } else {
            Some(Status::Error)
        }
    } else {
        None
    }
}

/// Classifies a whole run from its output lines, standard error first,
/// then standard output, and the expectation registered by them.
pub fn classify(lines: &Vec<String>, expect: &Option<String>) -> (r: Status)
    ensures
        r == status_of(lines.deep_view(), expect.deep_view()),
{
    let ghost all = lines.deep_view();
    let mut j: usize = 0;
    proof {
        assert(all.skip(0) =~= all);
    }
    while j < lines.len()
        invariant
            j <= lines@.len(),
            all == lines.deep_view(),
            all.len() == lines@.len(),
            status_of(all, expect.deep_view()) == status_of(
                all.skip(j as int),
                expect.deep_view(),
            ),
        decreases lines@.len() - j,
    {
        proof {
            assert(all.skip(j as int).first() == all[j as int]);
            assert(all.skip(j as int).drop_first() =~= all.skip(j + 1));
        }
        let buf = chars_of(lines[j].as_str());
        assert(buf@ == all[j as int]);
        match verdict(&buf, expect) {
            Some(s) => {
                return s;
            },
            None => {},
        }
        j = j + 1;
    }
    proof {
        assert(all.skip(j as int) =~= Seq::<Seq<char>>::empty());
    }
    Status::Unknown
}

/// The importance rank of one output line: lower is more important.
pub open spec fn importance_of(l: Seq<char>, expect: Option<Seq<char>>) -> int {
    if has_prefix(l, "VERIFIER_EXPECT:"@) {
        4
    } else if l == "sat"@ {
        1
    } else if has_prefix(l, "Warning: Externalizing function:"@) || has_prefix(
        l,
        "Warning: not lowering an initializer for a global struct:"@,
    ) {
        4
    } else if is_expected_panic_spec(l, expect) || l == "unsat"@ {
        5
    } else if has_prefix(l, "Warning:"@) {
        0
    } else {
        3
    }
}

/// The importance rank of one output line.
pub fn importance(l: &Vec<char>, expect: &Option<String>) -> (r: i8)
    ensures
        r as int == importance_of(l@, expect.deep_view()),
{
    if lit_prefix(l, "VERIFIER_EXPECT:") {
        4
    } else if lit_eq(l, "sat") {
        1
    } else if lit_prefix(l, "Warning: Externalizing function:") || lit_prefix(
        l,
        "Warning: not lowering an initializer for a global struct:",
    ) {
        4
    } else if is_expected_panic(l, expect) || lit_eq(l, "unsat") {
        5
    } else if lit_prefix(l, "Warning:") {
        0
    } else {
        3
    }
}

/// The lines whose importance rank lies below the verbosity threshold,
/// in their original order.
pub open spec fn visible_of(lines: Seq<Seq<char>>, expect: Option<Seq<char>>, verbosity: int)
    -> Seq<Seq<char>>
    decreases lines.len(),
{
    if lines.len() == 0 {
        Seq::<Seq<char>>::empty()
    } else {
        let rest = visible_of(lines.drop_last(), expect, verbosity);
        if importance_of(lines.last(), expect) < verbosity {
            rest.push(lines.last())
        } else {
            rest
        }
    }
}

/// Filters the output lines to those the chosen verbosity lets through.
pub fn visible_lines(lines: &Vec<String>, expect: &Option<String>, verbosity: usize) -> (r: Vec<
    String,
>)
    ensures
        r.deep_view() == visible_of(lines.deep_view(), expect.deep_view(), verbosity as int),
{
    let ghost all = lines.deep_view();
    let mut r: Vec<String> = Vec::new();
    let mut j: usize = 0;
    proof {
        assert(all.take(0) =~= Seq::<Seq<char>>::empty());
        assert(r.deep_view() =~= visible_of(all.take(0), expect.deep_view(), verbosity as int));
    }
    while j < lines.len()
        invariant
            j <= lines@.len(),
            all == lines.deep_view(),
            all.len() == lines@.len(),
            r.deep_view() == visible_of(all.take(j as int), expect.deep_view(), verbosity as int),
        decreases lines@.len() - j,
    {
        proof {
            assert(all.take(j + 1).drop_last() =~= all.take(j as int));
            assert(all.take(j + 1).last() == all[j as int]);
        }
        let buf = chars_of(lines[j].as_str());
        assert(buf@ == all[j as int]);
        let imp = importance(&buf, expect);
        let pass = if imp < 0 {
            true
        } else {
            (imp as usize) < verbosity
        };
        if pass {
            let ghost old_r = r.deep_view();
            r.push(lines[j].clone());
            assert(r.deep_view() =~~= old_r.push(all[j as int]));
        }
        j = j + 1;
    }
    proof {
        assert(all.take(j as int) =~= all);
    }
    r
}

/// The fixed flags this backend is always invoked with.
pub open spec fn fixed_flags() -> Seq<Seq<char>> {
    seq![
        "bpf"@,
        "-O3"@,
        "--inline"@,
        "--enable-loop-idiom"@,
        "--enable-indvar"@,
        "--no-lower-gv-init-struct"@,
        "--externalize-addr-taken-functions"@,
        "--no-kill-vaarg"@,
        "--with-arith-overflow=true"@,
        "--horn-unify-assumes=true"@,
        "--horn-gsa"@,
        "--no-fat-fns=bcmp,memcpy,assert_bytes_match,ensure_linked_list_is_allocated,sea_aws_linked_list_is_valid"@,
        "--dsa=sea-cs-t"@,
        "--devirt-functions=types"@,
        "--bmc=opsem"@,
        "--horn-vcgen-use-ite"@,
        "--horn-vcgen-only-dataflow=true"@,
        "--horn-bmc-coi=true"@,
        "--sea-opsem-allocator=static"@,
        "--horn-explicit-sp0=false"@,
        "--horn-bv2-lambdas"@,
        "--horn-bv2-simplify=true"@,
        "--horn-bv2-extra-widemem"@,
        "--horn-stats=true"@,
        "--keep-temps"@,
    ]
}

/// The command line of one run: the fixed flags, the scratch directory,
/// the entry point, the user's extra flags split at commas, and the
/// bitcode artifact.
pub open spec fn command_of(
    entry: Seq<char>,
    out_dir: Seq<char>,
    backend_flags: Option<Seq<char>>,
    bcfile: Seq<char>,
) -> Seq<Seq<char>> {
    fixed_flags() + seq!["--temp-dir="@ + out_dir, "--entry="@ + entry] + (match backend_flags {
        Some(f) => split_by(f, ','),
        None => Seq::<Seq<char>>::empty(),
    }) + seq![bcfile]
}

fn concat_str(a: &str, b: &str) -> (r: String)
    ensures
        r@ == a@ + b@,
{
    let mut v = chars_of(a);
    let mut w = chars_of(b);
    v.append(&mut w);
    let r = string_of(&v);
    assert(r@ =~= a@ + b@);
    r
}

/// Assembles the subprocess arguments for one verification run.
pub fn command_args(
    entry: &str,
    out_dir: &str,
    backend_flags: &Option<String>,
    bcfile: &str,
) -> (r: Vec<String>)
    ensures
        r.deep_view() == command_of(entry@, out_dir@, backend_flags.deep_view(), bcfile@),
{
    let mut r: Vec<String> = Vec::new();
    r.push("bpf".to_owned());
    r.push("-O3".to_owned());
    r.push("--inline".to_owned());
    r.push("--enable-loop-idiom".to_owned());
    r.push("--enable-indvar".to_owned());
    r.push("--no-lower-gv-init-struct".to_owned());
    r.push("--externalize-addr-taken-functions".to_owned());
    r.push("--no-kill-vaarg".to_owned());
    r.push("--with-arith-overflow=true".to_owned());
    r.push("--horn-unify-assumes=true".to_owned());
    r.push("--horn-gsa".to_owned());
    r.push(
        "--no-fat-fns=bcmp,memcpy,assert_bytes_match,ensure_linked_list_is_allocated,sea_aws_linked_list_is_valid".to_owned(),
    );
    r.push("--dsa=sea-cs-t".to_owned());
    r.push("--devirt-functions=types".to_owned());
    r.push("--bmc=opsem".to_owned());
    r.push("--horn-vcgen-use-ite".to_owned());
    r.push("--horn-vcgen-only-dataflow=true".to_owned());
    r.push("--horn-bmc-coi=true".to_owned());
    r.push("--sea-opsem-allocator=static".to_owned());
    r.push("--horn-explicit-sp0=false".to_owned());
    r.push("--horn-bv2-lambdas".to_owned());
    r.push("--horn-bv2-simplify=true".to_owned());
    r.push("--horn-bv2-extra-widemem".to_owned());
    r.push("--horn-stats=true".to_owned());
    r.push("--keep-temps".to_owned());
    r.push(concat_str("--temp-dir=", out_dir));
    r.push(concat_str("--entry=", entry));
    let ghost base = fixed_flags() + seq!["--temp-dir="@ + out_dir@, "--entry="@ + entry@];
    assert(r.deep_view() =~~= base);
    match backend_flags {
        Some(f) => {
            let fc = chars_of(f.as_str());
            let pieces = split_chars(&fc, ',');
            let ghost fp = split_by(f@, ',');
            assert(pieces.deep_view() == fp);
            let mut i: usize = 0;
            proof {
                assert(fp.take(0) =~= Seq::<Seq<char>>::empty());
                assert(r.deep_view() =~= base + fp.take(0));
            }
            while i < pieces.len()
                invariant
                    i <= pieces@.len(),
                    pieces.deep_view() == fp,
                    fp.len() == pieces@.len(),
                    r.deep_view() == base + fp.take(i as int),
                decreases pieces@.len() - i,
            {
                let ghost old_r = r.deep_view();
                let piece = string_of(&pieces[i]);
                assert(piece@ == fp[i as int]);
                r.push(piece);
                proof {
                    assert(r.deep_view() =~~= old_r.push(fp[i as int]));
                    assert(old_r.push(fp[i as int]) =~= base + fp.take(i + 1));
                }
                i = i + 1;
            }
            proof {
                assert(fp.take(i as int) =~= fp);
            }
        },
        None => {},
    }
    let ghost old_r = r.deep_view();
    r.push(bcfile.to_owned());
    proof {
        assert(r.deep_view() =~~= old_r.push(bcfile@));
        assert(r.deep_view() =~= command_of(
            entry@,
            out_dir@,
            backend_flags.deep_view(),
            bcfile@,
        ));
    }
    r
}

/// Law: under the bare expectation, a line that reports any panic is an
/// expected panic, and this backend's verdict for it is `Verified`; the
/// violation marker cannot override it, because an expected panic is
/// tested first.
pub proof fn lemma_bare_expectation_verifies_any_panic(l: Seq<char>, i: int, j: int)
    requires
        panic_message_at(l, i, j),
        !has_prefix(l, "VERIFIER_EXPECT:"@),
    ensures
        is_expected_panic_spec(l, Some(Seq::<char>::empty())),
        line_verdict(l, Some(Seq::<char>::empty())) == Some(Status::Verified),
{
    assert(matches_at(l.subrange(i, j), 0, Seq::<char>::empty())) by {
        assert(l.subrange(i, j).subrange(0, 0) =~= Seq::<char>::empty());
    }
    assert(has_sub(l.subrange(i, j), Seq::<char>::empty()));
}

/// Law: this backend's verdict for a line is `Verified` only when the
/// line is a panic that satisfies the registered expectation, or when it
/// is the completed-exploration marker and no expectation is outstanding.
pub proof fn lemma_verified_only_as_expected(l: Seq<char>, expect: Option<Seq<char>>)
    requires
        line_verdict(l, expect) == Some(Status::Verified),
    ensures
        is_expected_panic_spec(l, expect) || (expect is None && l == "unsat"@),
{
}

} // verus!
