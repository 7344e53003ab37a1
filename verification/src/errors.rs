//! The driver's error taxonomy: configuration errors, build and patch
//! errors, and resolution errors. Every variant renders the exact message
//! the driver reports before exiting.

use vstd::prelude::*;

use crate::text::{chars_of, dec_of, dec_rep, string_of};

verus! {

/// A fatal error of the driver. Per-entry verification failures are not
/// errors: they become that entry's [`crate::status::Status`].
#[derive(Debug, Clone, PartialEq, Eq)]
pub enum CvError {
    /// The selected symbolic-execution backend is not installed.
    KleeNotInstalled,
    /// The selected model-checking backend is not installed.
    SeahornNotInstalled,
    /// The property-testing backend cannot replay and pass arguments at once.
    ReplayWithArgs,
    /// The model-checking backend cannot pass arguments through yet.
    SeahornArgs,
    /// The model-checking backend cannot replay yet.
    SeahornReplay,
    /// No test remained after filtering.
    NoTestsFound,
    /// No entry function was found in the bitcode artifact.
    MainNotFound,
    /// More than one entry function was found in the bitcode artifact.
    MultipleMains,
    /// The compilation of the crate under test failed.
    CompileFailed,
    /// No bitcode candidate remained and a test run was requested.
    UseTestsWithLibrary,
    /// No bitcode candidate remained for this package.
    CompilationError { package: String },
    /// More than one bitcode candidate held an entry symbol.
    AmbiguousBitcode { package: String },
    /// Linking the bitcode with the native objects failed.
    LinkFailed,
    /// Patching the bitcode artifact failed.
    PatchFailed,
    /// The toolchain query for the default host failed.
    RustupFailed,
    /// The toolchain's report did not name a default host.
    NoDefaultHost,
    /// The crate's metadata names no root package.
    NoRootPackage,
    /// Some requested entries were not found in the bitcode artifact.
    MissingEntries { count: usize },
    /// Replaying a recorded input failed.
    ReplayFailed,
}

impl CvError {
    /// The message this error is reported with.
    pub fn message(&self) -> (r: String)
        ensures
            *self is KleeNotInstalled ==> r@ == "Klee is not installed"@,
            *self is SeahornNotInstalled ==> r@ == "Seahorn is not installed"@,
            *self is ReplayWithArgs ==> r@
                == "The Proptest backend does not support '--replay' and passing arguments together."@,
            *self is SeahornArgs ==> r@
                == "The Seahorn backend does not support passing arguments yet."@,
            *self is SeahornReplay ==> r@
                == "The Seahorn backend does not support '--replay' yet."@,
            *self is NoTestsFound ==> r@ == "  No tests found"@,
            *self is MainNotFound ==> r@ == "  FAILED: can't find the 'main' function"@,
            *self is MultipleMains ==> r@ == "  FAILED: found more than one 'main' function"@,
            *self is CompileFailed ==> r@ == "FAILED: Couldn't compile"@,
            *self is UseTestsWithLibrary ==> r@ == "  FAILED: Use --tests with library crates"@,
            forall|p: String|
                *self == (CvError::CompilationError { package: p }) ==> r@ == "  FAILED: Test "@
                    + p@ + " compilation error"@,
            forall|p: String|
                *self == (CvError::AmbiguousBitcode { package: p }) ==> r@ == "  FAILED: Test "@
                    + p@ + " compilation error"@,
            *self is LinkFailed ==> r@ == "FAILED: Couldn't link"@,
            *self is PatchFailed ==> r@ == "FAILED: Couldn't run rvt-patch-llvm"@,
            *self is RustupFailed ==> r@ == "`rustup show` terminated unsuccessfully"@,
            *self is NoDefaultHost ==> r@ == "Unable to determine default host"@,
            *self is NoRootPackage ==> r@ == "no root package"@,
            forall|n: usize|
                *self == (CvError::MissingEntries { count: n }) ==> r@ == "Unable to find "@
                    + dec_rep(n as nat) + " tests in bytecode file"@,
            *self is ReplayFailed ==> r@ == "FAILED: Couldn't replay"@,
    {
        match self {
            CvError::KleeNotInstalled => "Klee is not installed".to_owned(),
            CvError::SeahornNotInstalled => "Seahorn is not installed".to_owned(),
            CvError::ReplayWithArgs =>
                "The Proptest backend does not support '--replay' and passing arguments together.".to_owned(),
            CvError::SeahornArgs =>
                "The Seahorn backend does not support passing arguments yet.".to_owned(),
            CvError::SeahornReplay =>
                "The Seahorn backend does not support '--replay' yet.".to_owned(),
            CvError::NoTestsFound => "  No tests found".to_owned(),
            CvError::MainNotFound => "  FAILED: can't find the 'main' function".to_owned(),
            CvError::MultipleMains =>
                "  FAILED: found more than one 'main' function".to_owned(),
            CvError::CompileFailed => "FAILED: Couldn't compile".to_owned(),
            CvError::UseTestsWithLibrary =>
                "  FAILED: Use --tests with library crates".to_owned(),
            CvError::CompilationError { package } => {
                let mut v = chars_of("  FAILED: Test ");
                let mut p = chars_of(package.as_str());
                let mut tail = chars_of(" compilation error");
                v.append(&mut p);
                v.append(&mut tail);
                string_of(&v)
            },
            CvError::AmbiguousBitcode { package } => {
                let mut v = chars_of("  FAILED: Test ");
                let mut p = chars_of(package.as_str());
                let mut tail = chars_of(" compilation error");
                v.append(&mut p);
                v.append(&mut tail);
                string_of(&v)
            },
            CvError::LinkFailed => "FAILED: Couldn't link".to_owned(),
            CvError::PatchFailed => "FAILED: Couldn't run rvt-patch-llvm".to_owned(),
            CvError::RustupFailed => "`rustup show` terminated unsuccessfully".to_owned(),
            CvError::NoDefaultHost => "Unable to determine default host".to_owned(),
            CvError::NoRootPackage => "no root package".to_owned(),
            CvError::MissingEntries { count } => {
                let mut v = chars_of("Unable to find ");
                let mut n = dec_of(*count);
                let mut tail = chars_of(" tests in bytecode file");
                v.append(&mut n);
                v.append(&mut tail);
                string_of(&v)
            },
            CvError::ReplayFailed => "FAILED: Couldn't replay".to_owned(),
        }
    }
}

} // verus!
