//! Failures and the distinct process exit codes they lead to.

use vstd::prelude::*;

use crate::replicate::Replicate;

verus! {

/// A process exit code, one per failure class.
#[derive(Debug, Clone, Copy, PartialEq, Eq, Structural)]
pub enum ExitCode {
    /// The command was emitted and (unless on a dry run) the artifacts verified.
    Success,
    /// Unknown or unsupported `--platform` token.
    BadPlatform,
    /// No `mainClass` to launch.
    BadMainClass,
    /// Unsatisfied `requires`/`conflicts`.
    UnsatisfiedDeps,
    /// A no-url (`MMC-hint: local`) library missing from `libraries/`.
    MissingLocalLib,
    /// A download failed or a SHA-1 mismatch survived retries.
    DownloadFailed,
    /// Any IO/parse failure, and everything that has no code of its own.
    IoError,
    /// A component without a patch file, and no meta server to ask.
    MissingComponent,
    /// The meta server did not provide a usable version file.
    MetaResolveFailed,
}

impl ExitCode {
    /// The numeric code of a failure class.
    pub open spec fn number(self) -> int {
        match self {
            ExitCode::Success => 0,
            ExitCode::BadPlatform => 2,
            ExitCode::BadMainClass => 3,
            ExitCode::UnsatisfiedDeps => 4,
            ExitCode::MissingLocalLib => 5,
            ExitCode::DownloadFailed => 6,
            ExitCode::IoError => 7,
            ExitCode::MissingComponent => 8,
            ExitCode::MetaResolveFailed => 9,
        }
    }

    /// The numeric code to exit the process with.
    pub fn code(self) -> (code: i32)
        ensures
            code == self.number(),
    {
        match self {
            ExitCode::Success => 0,
            ExitCode::BadPlatform => 2,
            ExitCode::BadMainClass => 3,
            ExitCode::UnsatisfiedDeps => 4,
            ExitCode::MissingLocalLib => 5,
            ExitCode::DownloadFailed => 6,
            ExitCode::IoError => 7,
            ExitCode::MissingComponent => 8,
            ExitCode::MetaResolveFailed => 9,
        }
    }
}

/// Each failure class has a code of its own, and only success is zero.
pub proof fn exit_codes_are_distinct(a: ExitCode, b: ExitCode)
    ensures
        a.number() == b.number() ==> a == b,
        a.number() == 0 <==> a == ExitCode::Success,
{
}

/// A failure that has an exit code of its own.
#[allow(inconsistent_fields)]
#[derive(Debug)]
pub enum FatalError {
    /// No component set a main class.
    NoMainClass,
    /// A `requires` or `conflicts` constraint does not hold.
    UnsatisfiedDeps { reason: String },
    /// A library that is assumed to be local is not there.
    MissingLocalLib { coordinate: String, path: String },
    /// An artifact could not be downloaded or verified.
    DownloadFailed { coordinate: String, reason: String },
    /// A component has no patch file and cannot be looked up.
    MissingComponent { uid: String, version: Option<String>, patch_path: String },
    /// The version file of a component could not be fetched or parsed.
    MetaResolveFailed { uid: String, version: String, reason: String },
}

/// What a [`FatalError`] holds.
#[allow(inconsistent_fields)]
#[verifier::ext_equal]
pub enum FatalErrorView {
    NoMainClass,
    UnsatisfiedDeps { reason: Seq<char> },
    MissingLocalLib { coordinate: Seq<char>, path: Seq<char> },
    DownloadFailed { coordinate: Seq<char>, reason: Seq<char> },
    MissingComponent { uid: Seq<char>, version: Option<Seq<char>>, patch_path: Seq<char> },
    MetaResolveFailed { uid: Seq<char>, version: Seq<char>, reason: Seq<char> },
}

impl DeepView for FatalError {
    type V = FatalErrorView;

    open spec fn deep_view(&self) -> FatalErrorView {
        match self {
            FatalError::NoMainClass => FatalErrorView::NoMainClass,
            FatalError::UnsatisfiedDeps { reason } => FatalErrorView::UnsatisfiedDeps {
                reason: reason.deep_view(),
            },
            FatalError::MissingLocalLib { coordinate, path } => FatalErrorView::MissingLocalLib {
                coordinate: coordinate.deep_view(),
                path: path.deep_view(),
            },
            FatalError::DownloadFailed { coordinate, reason } => FatalErrorView::DownloadFailed {
                coordinate: coordinate.deep_view(),
                reason: reason.deep_view(),
            },
            FatalError::MissingComponent { uid, version, patch_path } => FatalErrorView::MissingComponent {
                uid: uid.deep_view(),
                version: version.deep_view(),
                patch_path: patch_path.deep_view(),
            },
            FatalError::MetaResolveFailed { uid, version, reason } => FatalErrorView::MetaResolveFailed {
                uid: uid.deep_view(),
                version: version.deep_view(),
                reason: reason.deep_view(),
            },
        }
    }
}

impl Replicate for FatalError {
    fn replicate(&self) -> (copy: Self) {
        match self {
            FatalError::NoMainClass => FatalError::NoMainClass,
            FatalError::UnsatisfiedDeps { reason } => FatalError::UnsatisfiedDeps {
                reason: reason.replicate(),
            },
            FatalError::MissingLocalLib { coordinate, path } => FatalError::MissingLocalLib {
                coordinate: coordinate.replicate(),
                path: path.replicate(),
            },
            FatalError::DownloadFailed { coordinate, reason } => FatalError::DownloadFailed {
                coordinate: coordinate.replicate(),
                reason: reason.replicate(),
            },
            FatalError::MissingComponent { uid, version, patch_path } => FatalError::MissingComponent {
                uid: uid.replicate(),
                version: version.replicate(),
                patch_path: patch_path.replicate(),
            },
            FatalError::MetaResolveFailed { uid, version, reason } => FatalError::MetaResolveFailed {
                uid: uid.replicate(),
                version: version.replicate(),
                reason: reason.replicate(),
            },
        }
    }
}

/// What went wrong first.
#[derive(Debug)]
pub enum Cause {
    /// A failure with its own exit code.
    Fatal { error: FatalError },
    /// Not `group:artifact:version[:classifier][@extension]`.
    InvalidCoordinate { name: String },
    /// A legacy native names a classifier that has no download.
    NoNativeDownload { classifier: String },
    /// Any other failure, in words.
    Other { message: String },
}

/// What a [`Cause`] holds.
#[verifier::ext_equal]
pub enum CauseView {
    Fatal { error: FatalErrorView },
    InvalidCoordinate { name: Seq<char> },
    NoNativeDownload { classifier: Seq<char> },
    Other { message: Seq<char> },
}

impl DeepView for Cause {
    type V = CauseView;

    open spec fn deep_view(&self) -> CauseView {
        match self {
            Cause::Fatal { error } => CauseView::Fatal {
                error: error.deep_view(),
            },
            Cause::InvalidCoordinate { name } => CauseView::InvalidCoordinate {
                name: name.deep_view(),
            },
            Cause::NoNativeDownload { classifier } => CauseView::NoNativeDownload {
                classifier: classifier.deep_view(),
            },
            Cause::Other { message } => CauseView::Other {
                message: message.deep_view(),
            },
        }
    }
}

impl Replicate for Cause {
    fn replicate(&self) -> (copy: Self) {
        match self {
            Cause::Fatal { error } => Cause::Fatal {
                error: error.replicate(),
            },
            Cause::InvalidCoordinate { name } => Cause::InvalidCoordinate {
                name: name.replicate(),
            },
            Cause::NoNativeDownload { classifier } => Cause::NoNativeDownload {
                classifier: classifier.replicate(),
            },
            Cause::Other { message } => Cause::Other {
                message: message.replicate(),
            },
        }
    }
}

/// A failure: its cause, and what was being done when it occurred.
#[derive(Debug)]
pub struct Error {
    /// What went wrong first.
    pub cause: Cause,
    /// What was being done, innermost first.
    pub contexts: Vec<String>,
}

/// What an [`Error`] holds.
#[verifier::ext_equal]
pub struct ErrorView {
    pub cause: CauseView,
    pub contexts: Seq<Seq<char>>,
}

impl DeepView for Error {
    type V = ErrorView;

    open spec fn deep_view(&self) -> ErrorView {
        ErrorView {
            cause: self.cause.deep_view(),
            contexts: self.contexts.deep_view(),
        }
    }
}

impl Replicate for Error {
    fn replicate(&self) -> (copy: Self) {
        Error {
            cause: self.cause.replicate(),
            contexts: self.contexts.replicate(),
        }
    }
}

impl Clone for Error {
    fn clone(&self) -> (copy: Self)
        ensures
            copy.deep_view() == self.deep_view(),
    {
        self.replicate()
    }
}

/// The failure `cause`, before anything is said of what was being done.
pub open spec fn plain_error(cause: CauseView) -> ErrorView {
    ErrorView { cause, contexts: Seq::empty() }
}

impl ErrorView {
    /// The same failure, told from one level further out.
    pub open spec fn within(self, context: Seq<char>) -> ErrorView {
        ErrorView { contexts: self.contexts.push(context), ..self }
    }
}

impl Error {
    /// The failure `cause`.
    pub fn new(cause: Cause) -> (error: Error)
        ensures
            error.deep_view() == plain_error(cause.deep_view()),
    {
        let error = Error { cause, contexts: Vec::new() };
        proof {
            assert(error.deep_view().contexts =~= Seq::<Seq<char>>::empty());
        }
        error
    }

    /// The failure `error`, which has its own exit code.
    pub fn fatal(error: FatalError) -> (wrapped: Error)
        ensures
            wrapped.deep_view() == plain_error(CauseView::Fatal { error: error.deep_view() }),
    {
        Error::new(Cause::Fatal { error })
    }

    /// The same failure, told from one level further out.
    pub fn within(self, context: String) -> (error: Error)
        ensures
            error.deep_view() == self.deep_view().within(context@),
    {
        let mut contexts = self.contexts;
        let ghost before = contexts.deep_view();
        contexts.push(context);
        proof {
            assert(contexts.deep_view() =~= before.push(context@));
        }
        Error { cause: self.cause, contexts }
    }
}

/// What the outcome of a fallible step holds.
pub open spec fn outcome<T: DeepView>(result: Result<T, Error>) -> Result<T::V, ErrorView> {
    match result {
        Ok(value) => Ok(value.deep_view()),
        Err(error) => Err(error.deep_view()),
    }
}

/// The failure class of a cause.
pub open spec fn exit_class(cause: CauseView) -> ExitCode {
    match cause {
        CauseView::Fatal { error } => match error {
            FatalErrorView::NoMainClass => ExitCode::BadMainClass,
            FatalErrorView::UnsatisfiedDeps { reason } => ExitCode::UnsatisfiedDeps,
            FatalErrorView::MissingLocalLib { coordinate, path } => ExitCode::MissingLocalLib,
            FatalErrorView::DownloadFailed { coordinate, reason } => ExitCode::DownloadFailed,
            FatalErrorView::MissingComponent { uid, version, patch_path } => {
                ExitCode::MissingComponent
            },
            FatalErrorView::MetaResolveFailed { uid, version, reason } => {
                ExitCode::MetaResolveFailed
            },
        },
        _ => ExitCode::IoError,
    }
}

/// Map a top-level failure to an exit code. What was being done does not matter,
/// only the cause.
#[must_use]
pub fn exit_code_for(error: &Error) -> (code: ExitCode)
    ensures
        code == exit_class(error.deep_view().cause),
{
    match &error.cause {
        Cause::Fatal { error } => match error {
            FatalError::NoMainClass => ExitCode::BadMainClass,
            FatalError::UnsatisfiedDeps { .. } => ExitCode::UnsatisfiedDeps,
            FatalError::MissingLocalLib { .. } => ExitCode::MissingLocalLib,
            FatalError::DownloadFailed { .. } => ExitCode::DownloadFailed,
            FatalError::MissingComponent { .. } => ExitCode::MissingComponent,
            FatalError::MetaResolveFailed { .. } => ExitCode::MetaResolveFailed,
        },
        _ => ExitCode::IoError,
    }
}

/// Telling a failure from further out keeps its exit code, and a failure never
/// exits as a success.
pub proof fn context_keeps_exit_code(error: ErrorView, context: Seq<char>)
    ensures
        exit_class(error.within(context).cause) == exit_class(error.cause),
        exit_class(error.cause) != ExitCode::Success,
{
}

/// Each failure with a code of its own exits with that code, and every other failure
/// with the general one.
pub proof fn failures_exit_as_documented(error: ErrorView)
    ensures
        exit_class(error.cause).number() == match error.cause {
            CauseView::Fatal { error: FatalErrorView::NoMainClass } => 3int,
            CauseView::Fatal { error: FatalErrorView::UnsatisfiedDeps { .. } } => 4,
            CauseView::Fatal { error: FatalErrorView::MissingLocalLib { .. } } => 5,
            CauseView::Fatal { error: FatalErrorView::DownloadFailed { .. } } => 6,
            CauseView::Fatal { error: FatalErrorView::MissingComponent { .. } } => 8,
            CauseView::Fatal { error: FatalErrorView::MetaResolveFailed { .. } } => 9,
            _ => 7,
        },
        ExitCode::BadPlatform.number() == 2,
{
}

/// Telling a failure from further out keeps what was told before, in its order, and adds
/// the new context last.
pub proof fn contexts_accumulate(error: ErrorView, context: Seq<char>)
    ensures
        error.within(context).cause == error.cause,
        error.within(context).contexts.len() == error.contexts.len() + 1,
        error.within(context).contexts.last() == context,
        error.contexts.is_prefix_of(error.within(context).contexts),
        forall|cause: CauseView| (#[trigger] plain_error(cause)).contexts.len() == 0,
        forall|cause: CauseView| (#[trigger] plain_error(cause)).cause == cause,
{
    assert(error.within(context).contexts.take(error.contexts.len() as int) =~= error.contexts);
}

} // verus!
