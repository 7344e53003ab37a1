//! The driver's configuration: the backend selection and the run options,
//! resolved once from the raw command-line values and read-only afterward.

use vstd::prelude::*;

use crate::errors::CvError;

verus! {

/// A verification backend.
#[derive(Debug, PartialEq, Eq, Structural, Copy, Clone)]
pub enum Backend {
    /// The property-testing backend: runs the crate's own test harness.
    Proptest,
    /// The symbolic-execution backend.
    Klee,
    /// The bounded-model-checking backend.
    Seahorn,
}

impl Default for Backend {
    /// The fallback backend, used when none is installed.
    fn default() -> (r: Self)
        ensures
            r == Backend::Proptest,
    {
        Backend::Proptest
    }
}

impl Backend {
    /// The backend's name, as printed in reports.
    pub fn name(&self) -> (r: String)
        ensures
            *self == Backend::Proptest ==> r@ == "Proptest"@,
            *self == Backend::Klee ==> r@ == "Klee"@,
            *self == Backend::Seahorn ==> r@ == "Seahorn"@,
    {
        match self {
            Backend::Proptest => "Proptest".to_owned(),
            Backend::Klee => "Klee".to_owned(),
            Backend::Seahorn => "Seahorn".to_owned(),
        }
    }
}

/// The raw command-line values, before resolution.
pub struct RawOptions {
    /// Path of the crate to verify.
    pub crate_dir: String,
    /// Arguments for the program under test.
    pub args: Vec<String>,
    /// The backend named on the command line, if any.
    pub backend_arg: Option<Backend>,
    /// Extra flags for the backend, comma separated.
    pub backend_flags: Option<String>,
    /// Features to activate.
    pub features: Vec<String>,
    /// Whether to clean the build directory first.
    pub clean: bool,
    /// Whether to verify every test instead of the entry function.
    pub tests: bool,
    /// Verify only tests whose name holds one of these.
    pub test: Vec<String>,
    /// The job count named on the command line, if any.
    pub jobs_arg: Option<usize>,
    /// The replay level: how many recorded inputs to re-execute.
    pub replay: usize,
    /// The verbosity level.
    pub verbosity: usize,
}

/// The resolved configuration: parsed once at startup, read-only afterward.
#[derive(Debug)]
pub struct Opt {
    /// Path of the crate to verify.
    pub crate_dir: String,
    /// Arguments for the program under test.
    pub args: Vec<String>,
    /// The backend to run.
    pub backend: Backend,
    /// Extra flags for the backend, comma separated.
    pub backend_flags: Option<String>,
    /// Features to activate, with the backend's own feature added.
    pub features: Vec<String>,
    /// Whether to clean the build directory first.
    pub clean: bool,
    /// Whether to verify every test instead of the entry function.
    pub tests: bool,
    /// Verify only tests whose name holds one of these.
    pub test: Vec<String>,
    /// The number of parallel jobs.
    pub jobs: usize,
    /// The replay level: how many recorded inputs to re-execute.
    pub replay: usize,
    /// The verbosity level.
    pub verbosity: usize,
}

/// The backend a raw selection resolves to: the named one, else the first
/// installed one, else the property-testing fallback.
pub open spec fn chosen_backend(
    backend_arg: Option<Backend>,
    klee_installed: bool,
    seahorn_installed: bool,
) -> Backend {
    match backend_arg {
        Some(b) => b,
        None => if klee_installed {
            Backend::Klee
        } else if seahorn_installed {
            Backend::Seahorn
        } else {
            Backend::Proptest
        },
    }
}

/// Whether a raw configuration is rejected, and with which error: a named
/// backend that is not installed, or an option the chosen backend does
/// not support.
pub open spec fn rejection(
    raw: RawOptions,
    klee_installed: bool,
    seahorn_installed: bool,
) -> Option<CvError> {
    let b = chosen_backend(raw.backend_arg, klee_installed, seahorn_installed);
    if raw.backend_arg == Some(Backend::Klee) && !klee_installed {
        Some(CvError::KleeNotInstalled)
    } else if raw.backend_arg == Some(Backend::Seahorn) && !seahorn_installed {
        Some(CvError::SeahornNotInstalled)
    } else if b == Backend::Proptest && raw.replay > 0 && raw.args.len() > 0 {
        Some(CvError::ReplayWithArgs)
    } else if b == Backend::Seahorn && raw.args.len() > 0 {
        Some(CvError::SeahornArgs)
    } else if b == Backend::Seahorn && raw.replay != 0 {
        Some(CvError::SeahornReplay)
    } else {
        None
    }
}

/// The feature the chosen backend requires of the program under test.
pub open spec fn backend_feature(b: Backend) -> Seq<Seq<char>> {
    match b {
        Backend::Seahorn => seq!["verifier-seahorn"@],
        Backend::Klee => seq!["verifier-klee"@],
        Backend::Proptest => Seq::<Seq<char>>::empty(),
    }
}

/// Resolves the raw command-line values: picks the backend, rejects
/// option combinations the backend does not support, adds the backend's
/// feature, and defaults the job count to the machine's processor count.
pub fn resolve_options(
    raw: RawOptions,
    klee_installed: bool,
    seahorn_installed: bool,
    cpus: usize,
) -> (r: Result<Opt, CvError>)
    ensures
        match r {
            Ok(o) => {
                &&& rejection(raw, klee_installed, seahorn_installed) is None
                &&& o.backend == chosen_backend(raw.backend_arg, klee_installed, seahorn_installed)
                &&& o.crate_dir == raw.crate_dir
                &&& o.args == raw.args
                &&& o.backend_flags == raw.backend_flags
                &&& o.features.deep_view() == raw.features.deep_view() + backend_feature(o.backend)
                &&& o.clean == raw.clean
                &&& o.tests == raw.tests
                &&& o.test == raw.test
                &&& o.jobs == (match raw.jobs_arg {
                    Some(j) => j,
                    None => cpus,
                })
                &&& o.replay == raw.replay
                &&& o.verbosity == raw.verbosity
            },
            Err(e) => Some(e) == rejection(raw, klee_installed, seahorn_installed),
        },
{
    let backend = match raw.backend_arg {
        Some(Backend::Klee) => {
            if !klee_installed {
                return Err(CvError::KleeNotInstalled);
            }
            Backend::Klee
        },
        Some(Backend::Seahorn) => {
            if !seahorn_installed {
                return Err(CvError::SeahornNotInstalled);
            }
            Backend::Seahorn
        },
        Some(Backend::Proptest) => Backend::Proptest,
        None => {
            if klee_installed {
                Backend::Klee
            } else if seahorn_installed {
                Backend::Seahorn
            } else {
                Backend::Proptest
            }
        },
    };
    let mut features = raw.features;
    let ghost raw_features = features.deep_view();
    match backend {
        Backend::Proptest => {
            if raw.replay > 0 && raw.args.len() > 0 {
                return Err(CvError::ReplayWithArgs);
            }
            assert(features.deep_view() =~= raw_features + backend_feature(backend));
        },
        Backend::Seahorn => {
            if raw.args.len() > 0 {
                return Err(CvError::SeahornArgs);
            }
            if raw.replay != 0 {
                return Err(CvError::SeahornReplay);
            }
            let ghost before = features.deep_view();
            features.push("verifier-seahorn".to_owned());
            assert(features.deep_view() =~~= before.push("verifier-seahorn"@));
            assert(features.deep_view() =~= raw_features + backend_feature(backend));
        },
        Backend::Klee => {
            let ghost before = features.deep_view();
            features.push("verifier-klee".to_owned());
            assert(features.deep_view() =~~= before.push("verifier-klee"@));
            assert(features.deep_view() =~= raw_features + backend_feature(backend));
        },
    }
    let jobs = match raw.jobs_arg {
        Some(j) => j,
        None => cpus,
    };
    Ok(
        Opt {
            crate_dir: raw.crate_dir,
            args: raw.args,
            backend,
            backend_flags: raw.backend_flags,
            features,
            clean: raw.clean,
            tests: raw.tests,
            test: raw.test,
            jobs,
            replay: raw.replay,
            verbosity: raw.verbosity,
        },
    )
}

} // verus!
