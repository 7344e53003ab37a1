//! The build pipeline's decisions: the compiler flags of a verification
//! build, the sanitised package name, the default-host parse, the choice
//! of the one bitcode candidate, and the chain of link and patch steps
//! that turns the compiled artifact into the one handed to a backend.

use vstd::prelude::*;

use crate::errors::CvError;
use crate::opt::Backend;
use crate::text::{
    chars_of, has_prefix, has_suffix, join_by, join_strs, last_pos, lit_prefix, lit_suffix,
    string_of, sub_chars, trim_chars, trimmed,
};

verus! {

/// A package-name character survives as itself; anything but a letter, a
/// digit, or an underscore becomes an underscore.
pub open spec fn sanitize_char(c: char) -> char {
    if (97 <= c as u32 && c as u32 <= 122) || (65 <= c as u32 && c as u32 <= 90) || (48 <= c as u32
        && c as u32 <= 57) || c == '_' {
        c
    } else {
        '_'
    }
}

/// The package name with every other character replaced by an underscore.
pub open spec fn sanitized(s: Seq<char>) -> Seq<char> {
    s.map_values(|c: char| sanitize_char(c))
}

/// Sanitises a package name for use in symbol and file names.
pub fn sanitize_package_name(name: &str) -> (r: String)
    ensures
        r@ == sanitized(name@),
{
    let buf = chars_of(name);
    let mut out: Vec<char> = Vec::new();
    let mut i: usize = 0;
    while i < buf.len()
        invariant
            i <= buf@.len(),
            buf@ == name@,
            out@.len() == i,
            forall|q: int| 0 <= q < i ==> out@[q] == sanitize_char(buf@[q]),
        decreases buf@.len() - i,
    {
        let c = buf[i];
        let u = c as u32;
        let keep = (97 <= u && u <= 122) || (65 <= u && u <= 90) || (48 <= u && u <= 57) || c
            == '_';
        if keep {
            out.push(c);
            assert(out@.last() == sanitize_char(buf@[i as int]));
        } else {
            out.push('_');
            assert(out@.last() == sanitize_char(buf@[i as int]));
        }
        i = i + 1;
    }
    assert(out@ =~= sanitized(name@));
    string_of(&out)
}

/// The default host named by the toolchain's report: the trimmed tail of
/// the first line that opens with `Default host:`.
pub open spec fn default_host_of(lines: Seq<Seq<char>>) -> Option<Seq<char>>
    decreases lines.len(),
{
    if lines.len() == 0 {
        None
    } else if has_prefix(lines.first(), "Default host:"@) {
        Some(
            trimmed(
                lines.first().subrange("Default host:"@.len() as int, lines.first().len() as int),
            ),
        )
    } else {
        default_host_of(lines.drop_first())
    }
}

/// Reads the default host out of the toolchain's report lines; a report
/// that names none is a fatal error.
pub fn parse_default_host(lines: &Vec<String>) -> (r: Result<String, CvError>)
    ensures
        match r {
            Ok(h) => default_host_of(lines.deep_view()) == Some(h@),
            Err(e) => e is NoDefaultHost && default_host_of(lines.deep_view()) is None,
        },
{
    let ghost all = lines.deep_view();
    let mut j: usize = 0;
    proof {
        assert(all.skip(0) =~= all);
    }
    while j < lines.len()
        invariant
            j <= lines@.len(),
            all == lines.deep_view(),
            all.len() == lines@.len(),
            default_host_of(all) == default_host_of(all.skip(j as int)),
        decreases lines@.len() - j,
    {
        proof {
            assert(all.skip(j as int).first() == all[j as int]);
            assert(all.skip(j as int).drop_first() =~= all.skip(j + 1));
        }
        let buf = chars_of(lines[j].as_str());
        assert(buf@ == all[j as int]);
        if lit_prefix(&buf, "Default host:") {
            let pfx = chars_of("Default host:");
            let tail = sub_chars(&buf, pfx.len(), buf.len());
            let host = string_of(&trim_chars(&tail));
            return Ok(host);
        }
        j = j + 1;
    }
    proof {
        assert(all.skip(j as int) =~= Seq::<Seq<char>>::empty());
    }
    Err(CvError::NoDefaultHost)
}

/// A bitcode candidate: a file whose name opens with the package name and
/// carries the bitcode extension.
pub open spec fn is_candidate(name: Seq<char>, package: Seq<char>) -> bool {
    has_prefix(name, package) && has_suffix(name, ".bc"@) && name.len() >= 4
}

/// The file names that are bitcode candidates for this package.
pub open spec fn candidates_of(names: Seq<Seq<char>>, package: Seq<char>) -> Seq<Seq<char>>
    decreases names.len(),
{
    if names.len() == 0 {
        Seq::<Seq<char>>::empty()
    } else {
        let rest = candidates_of(names.drop_last(), package);
        if is_candidate(names.last(), package) {
            rest.push(names.last())
        } else {
            rest
        }
    }
}

/// Filters a directory listing to the bitcode candidates of the package.
pub fn filter_candidates(names: &Vec<String>, package: &str) -> (r: Vec<String>)
    ensures
        r.deep_view() == candidates_of(names.deep_view(), package@),
{
    let ghost all = names.deep_view();
    let mut r: Vec<String> = Vec::new();
    let mut j: usize = 0;
    proof {
        assert(all.take(0) =~= Seq::<Seq<char>>::empty());
        assert(r.deep_view() =~= candidates_of(all.take(0), package@));
    }
    while j < names.len()
        invariant
            j <= names@.len(),
            all == names.deep_view(),
            all.len() == names@.len(),
            r.deep_view() == candidates_of(all.take(j as int), package@),
        decreases names@.len() - j,
    {
        proof {
            assert(all.take(j + 1).drop_last() =~= all.take(j as int));
            assert(all.take(j + 1).last() == all[j as int]);
        }
        let buf = chars_of(names[j].as_str());
        assert(buf@ == all[j as int]);
        let pc = chars_of(package);
        if crate::text::starts_with(&buf, &pc) && lit_suffix(&buf, ".bc") && buf.len() >= 4 {
            let ghost old_r = r.deep_view();
            r.push(names[j].clone());
            assert(r.deep_view() =~~= old_r.push(all[j as int]));
        }
        j = j + 1;
    }
    proof {
        assert(all.take(j as int) =~= all);
    }
    r
}

/// Whether `e` reports a failed compilation of this package.
pub open spec fn is_compilation_error_for(e: CvError, package: Seq<char>) -> bool {
    match e {
        CvError::CompilationError { package: p } => p@ == package,
        _ => false,
    }
}

/// Whether `e` reports ambiguous bitcode candidates for this package.
pub open spec fn is_ambiguity_for(e: CvError, package: Seq<char>) -> bool {
    match e {
        CvError::AmbiguousBitcode { package: p } => p@ == package,
        _ => false,
    }
}

/// Keeps the unique bitcode candidate that holds an entry symbol. No
/// candidate is a distinct error depending on whether a test run was
/// requested, and more than one candidate is an ambiguity error: neither
/// is ever silently resolved.
pub fn pick_bitcode(mut candidates: Vec<String>, tests_requested: bool, package: &str) -> (r:
    Result<String, CvError>)
    ensures
        match r {
            Ok(f) => candidates@.len() == 1 && f == candidates@[0],
            Err(e) => (candidates@.len() == 0 && tests_requested && e is UseTestsWithLibrary) || (
            candidates@.len() == 0 && !tests_requested && is_compilation_error_for(e, package@))
                || (candidates@.len() > 1 && is_ambiguity_for(e, package@)),
        },
{
    if candidates.len() == 0 {
        if tests_requested {
            Err(CvError::UseTestsWithLibrary)
        } else {
            Err(CvError::CompilationError { package: package.to_owned() })
        }
    } else if candidates.len() > 1 {
        Err(CvError::AmbiguousBitcode { package: package.to_owned() })
    } else {
        let f = candidates.remove(0);
        Ok(f)
    }
}

/// The compiler flags every verification build is made with: whole-program
/// bitcode with link-time optimisation, overflow checking, abort-on-panic
/// semantics, and no vector instructions.
pub open spec fn base_rustflags() -> Seq<Seq<char>> {
    seq![
        "-Clto"@,
        "-Cembed-bitcode=yes"@,
        "--emit=llvm-bc"@,
        "--cfg=verify"@,
        "-Zpanic_abort_tests"@,
        "-Cpanic=abort"@,
        "-Warithmetic-overflow"@,
        "-Coverflow-checks=yes"@,
        "-Cno-vectorize-loops"@,
        "-Cno-vectorize-slp"@,
        "-Ctarget-feature=-mmx,-sse,-sse2,-sse3,-ssse3,-sse4.1,-sse4.2,-3dnow,-3dnowa,-avx,-avx2"@,
        "-Clinker-plugin-lto"@,
        "-Clinker=clang-10"@,
        "-Clink-arg=-fuse-ld=lld"@,
    ]
}

/// The compiler-flag string of a verification build: the base flags joined
/// by blanks, with a mild optimisation level added for every backend but
/// the model checker, which must not see vector instructions.
pub open spec fn rustflags_of(backend: Backend) -> Seq<char> {
    join_by(base_rustflags(), " "@) + (if backend != Backend::Seahorn {
        " -Copt-level=1"@
    } else {
        Seq::<char>::empty()
    })
}

/// Renders the compiler-flag string of a verification build.
pub fn compile_rustflags(backend: Backend) -> (r: String)
    ensures
        r@ == rustflags_of(backend),
{
    let mut flags: Vec<String> = Vec::new();
    flags.push("-Clto".to_owned());
    flags.push("-Cembed-bitcode=yes".to_owned());
    flags.push("--emit=llvm-bc".to_owned());
    flags.push("--cfg=verify".to_owned());
    flags.push("-Zpanic_abort_tests".to_owned());
    flags.push("-Cpanic=abort".to_owned());
    flags.push("-Warithmetic-overflow".to_owned());
    flags.push("-Coverflow-checks=yes".to_owned());
    flags.push("-Cno-vectorize-loops".to_owned());
    flags.push("-Cno-vectorize-slp".to_owned());
    flags.push(
        "-Ctarget-feature=-mmx,-sse,-sse2,-sse3,-ssse3,-sse4.1,-sse4.2,-3dnow,-3dnowa,-avx,-avx2".to_owned(),
    );
    flags.push("-Clinker-plugin-lto".to_owned());
    flags.push("-Clinker=clang-10".to_owned());
    flags.push("-Clink-arg=-fuse-ld=lld".to_owned());
    assert(flags.deep_view() =~~= base_rustflags());
    let joined = join_strs(&flags, " ");
    if !matches!(backend, Backend::Seahorn) {
        let mut v = chars_of(joined.as_str());
        let mut tail = chars_of(" -Copt-level=1");
        v.append(&mut tail);
        let r = string_of(&v);
        assert(r@ =~= rustflags_of(backend));
        r
    } else {
        assert(joined@ =~= rustflags_of(backend));
        joined
    }
}

/// The build-tool arguments of a verification build: the build
/// subcommand, the features joined by commas, the whole-suite switch when
/// tests are verified, the pinned target, and one `-v` per verbosity step.
pub open spec fn build_command_of(
    features: Seq<Seq<char>>,
    tests_requested: bool,
    target: Seq<char>,
    verbosity: int,
) -> Seq<Seq<char>> {
    seq!["build"@] + (if features.len() > 0 {
        seq!["--features"@, join_by(features, ","@)]
    } else {
        Seq::<Seq<char>>::empty()
    }) + (if tests_requested {
        seq!["--tests"@]
    } else {
        Seq::<Seq<char>>::empty()
    }) + seq!["--target=="@ + target] + verbose_flags(verbosity)
}

/// `n` verbosity switches.
pub open spec fn verbose_flags(n: int) -> Seq<Seq<char>>
    decreases n,
{
    if n <= 0 {
        Seq::<Seq<char>>::empty()
    } else {
        verbose_flags(n - 1).push("-v"@)
    }
}

/// Assembles the build-tool arguments of a verification build.
pub fn build_command_args(
    features: &Vec<String>,
    tests_requested: bool,
    target: &str,
    verbosity: usize,
) -> (r: Vec<String>)
    ensures
        r.deep_view() == build_command_of(
            features.deep_view(),
            tests_requested,
            target@,
            verbosity as int,
        ),
{
    let mut r: Vec<String> = Vec::new();
    r.push("build".to_owned());
    if features.len() > 0 {
        let joined = join_strs(features, ",");
        r.push("--features".to_owned());
        r.push(joined);
    }
    if tests_requested {
        r.push("--tests".to_owned());
    }
    let mut tv = chars_of("--target==");
    let mut tc = chars_of(target);
    tv.append(&mut tc);
    r.push(string_of(&tv));
    let ghost head = seq!["build"@] + (if features.deep_view().len() > 0 {
        seq!["--features"@, join_by(features.deep_view(), ","@)]
    } else {
        Seq::<Seq<char>>::empty()
    }) + (if tests_requested {
        seq!["--tests"@]
    } else {
        Seq::<Seq<char>>::empty()
    }) + seq!["--target=="@ + target@];
    assert(r.deep_view() =~~= head);
    let mut i: usize = 0;
    proof {
        assert(r.deep_view() =~= head + verbose_flags(0));
    }
    while i < verbosity
        invariant
            i <= verbosity,
            r.deep_view() == head + verbose_flags(i as int),
        decreases verbosity - i,
    {
        let ghost old_r = r.deep_view();
        r.push("-v".to_owned());
        proof {
            assert(r.deep_view() =~~= old_r.push("-v"@));
            assert(old_r.push("-v"@) =~= head + verbose_flags(i + 1));
        }
        i = i + 1;
    }
    r
}

/// The build-tool arguments that list the crate's tests: the test
/// subcommand, the features joined by commas, and the listing request
/// handed to the harness.
pub open spec fn list_command_of(features: Seq<Seq<char>>) -> Seq<Seq<char>> {
    seq!["test"@] + (if features.len() > 0 {
        seq!["--features"@, join_by(features, ","@)]
    } else {
        Seq::<Seq<char>>::empty()
    }) + seq!["--"@, "--list"@]
}

/// Assembles the build-tool arguments that list the crate's tests.
pub fn list_command_args(features: &Vec<String>) -> (r: Vec<String>)
    ensures
        r.deep_view() == list_command_of(features.deep_view()),
{
    let mut r: Vec<String> = Vec::new();
    r.push("test".to_owned());
    if features.len() > 0 {
        let joined = join_strs(features, ",");
        r.push("--features".to_owned());
        r.push(joined);
    }
    r.push("--".to_owned());
    r.push("--list".to_owned());
    assert(r.deep_view() =~~= list_command_of(features.deep_view()));
    r
}

/// `s` with the new extension inserted before its old one: `foo.bar`
/// becomes `foo.<ext>.bar`, and a name without an extension gains one.
pub open spec fn pre_ext(s: Seq<char>, ext: Seq<char>) -> Seq<char> {
    let slash = last_pos(s, '/');
    let dot = last_pos(s, '.');
    if dot > slash + 1 {
        s.subrange(0, dot) + "."@ + ext + s.subrange(dot, s.len() as int)
    } else {
        s + "."@ + ext
    }
}

/// Inserts `ext` before the file's old extension.
pub fn add_pre_ext(file: &str, ext: &str) -> (r: String)
    ensures
        r@ == pre_ext(file@, ext@),
{
    let buf = chars_of(file);
    let slash = crate::text::find_last(&buf, '/');
    let dot = crate::text::find_last(&buf, '.');
    let mut out: Vec<char>;
    let mut dotv = chars_of(".");
    let mut extv = chars_of(ext);
    match dot {
        Some(d) => {
            let cut = match slash {
                Some(sl) => d > sl && d - sl > 1,
                None => d > 0,
            };
            if cut {
                out = sub_chars(&buf, 0, d);
                out.append(&mut dotv);
                out.append(&mut extv);
                let mut tail = sub_chars(&buf, d, buf.len());
                out.append(&mut tail);
            } else {
                out = sub_chars(&buf, 0, buf.len());
                out.append(&mut dotv);
                out.append(&mut extv);
            }
        },
        None => {
            out = sub_chars(&buf, 0, buf.len());
            out.append(&mut dotv);
            out.append(&mut extv);
        },
    }
    let r = string_of(&out);
    assert(buf@.subrange(0, buf@.len() as int) =~= file@);
    assert(r@ =~= pre_ext(file@, ext@));
    r
}

/// One transformation of the bitcode artifact.
#[derive(Debug, PartialEq, Eq, Structural, Copy, Clone)]
pub enum StepKind {
    /// Link the compiled bitcode with the build's native objects.
    LinkNatives,
    /// Patch the bitcode for the model-checking backend.
    PatchBackend,
    /// Patch the bitcode so that initializers run before the entry point.
    PatchInitializers,
}

/// One planned transformation: its kind, its input artifact, and the new
/// artifact it produces. A step never mutates its input in place, so an
/// earlier stage's output stays available for diagnostics.
pub struct BuildStep {
    /// What the step does.
    pub kind: StepKind,
    /// The artifact the step reads.
    pub input: String,
    /// The artifact the step writes.
    pub output: String,
}

/// The planned chain for one build, in its fixed order: link the native
/// objects if there are any, patch for the model checker if it is the
/// backend, and patch the initializers if the program under test receives
/// arguments.
pub open spec fn plan_of(bc: Seq<char>, backend: Backend, has_natives: bool, has_args: bool)
    -> Seq<(StepKind, Seq<char>, Seq<char>)> {
    let s0 = if has_natives {
        seq![(StepKind::LinkNatives, bc, pre_ext(bc, "link"@))]
    } else {
        Seq::<(StepKind, Seq<char>, Seq<char>)>::empty()
    };
    let bc1 = if has_natives {
        pre_ext(bc, "link"@)
    } else {
        bc
    };
    let s1 = if backend == Backend::Seahorn {
        s0 + seq![(StepKind::PatchBackend, bc1, pre_ext(bc1, "patch"@))]
    } else {
        s0
    };
    let bc2 = if backend == Backend::Seahorn {
        pre_ext(bc1, "patch"@)
    } else {
        bc1
    };
    if has_args {
        s1 + seq![(StepKind::PatchInitializers, bc2, pre_ext(bc2, "init"@))]
    } else {
        s1
    }
}

/// The artifact the planned chain ends with.
pub open spec fn final_artifact_of(
    bc: Seq<char>,
    backend: Backend,
    has_natives: bool,
    has_args: bool,
) -> Seq<char> {
    let bc1 = if has_natives {
        pre_ext(bc, "link"@)
    } else {
        bc
    };
    let bc2 = if backend == Backend::Seahorn {
        pre_ext(bc1, "patch"@)
    } else {
        bc1
    };
    if has_args {
        pre_ext(bc2, "init"@)
    } else {
        bc2
    }
}

/// Plans the transformation chain for one build and names its final
/// artifact.
pub fn build_plan(bc_file: &str, backend: Backend, has_natives: bool, has_args: bool) -> (r: (
    Vec<BuildStep>,
    String,
))
    ensures
        ({
            let plan = plan_of(bc_file@, backend, has_natives, has_args);
            &&& r.0@.len() == plan.len()
            &&& forall|j: int|
                0 <= j < plan.len() ==> r.0@[j].kind == plan[j].0 && r.0@[j].input@ == plan[j].1
                    && r.0@[j].output@ == plan[j].2
            &&& r.1@ == final_artifact_of(bc_file@, backend, has_natives, has_args)
        }),
{
    let mut steps: Vec<BuildStep> = Vec::new();
    let mut cur: String = bc_file.to_owned();
    if has_natives {
        let next = add_pre_ext(cur.as_str(), "link");
        steps.push(BuildStep { kind: StepKind::LinkNatives, input: cur, output: next.clone() });
        cur = next;
    }
    if matches!(backend, Backend::Seahorn) {
        let next = add_pre_ext(cur.as_str(), "patch");
        steps.push(BuildStep { kind: StepKind::PatchBackend, input: cur, output: next.clone() });
        cur = next;
    }
    if has_args {
        let next = add_pre_ext(cur.as_str(), "init");
        steps.push(
            BuildStep { kind: StepKind::PatchInitializers, input: cur, output: next.clone() },
        );
        cur = next;
    }
    (steps, cur)
}

} // verus!
