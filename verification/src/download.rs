//! The one generic download path: what is done for an artifact, attempt by
//! attempt, and when its bytes are accepted.
//!
//! Libraries, maven files, the main jar, native jars, and assets all flow through
//! the same decisions - there are no per-type ones. No-url entries are
//! asserted-local-or-fatal and never fetched; empty-hash artifacts download but
//! skip the hash check; writes go through `*.part` and a rename so an interrupted
//! run never leaves a half-file a later step would trust. The transfers and file
//! accesses themselves are made by the caller, who reports what came of them.

use vstd::prelude::*;
use vstd::string::*;

use crate::digest::{hex_of, sha1_hex, sha1_of};
use crate::exit::{
    outcome, plain_error, Cause, CauseView, Error, ErrorView, FatalError, FatalErrorView,
};
use crate::model::artifact::{ArtifactRecord, ArtifactRecordView, Role};
use crate::number::{decimal, decimal_text};
use crate::text::{chars_of, concat3};

verus! {

/// Total attempts per artifact before a download is declared fatal.
pub const MAX_ATTEMPTS: u32 = 4;

/// Knobs controlling a download run (from the command line).
#[derive(Debug, Clone, Copy)]
pub struct DownloadOptions {
    /// Max concurrent downloads (`--jobs`).
    pub jobs: usize,
    /// Verify size + sha1 (false under `--no-verify`).
    pub verify: bool,
    /// Resolve + assert only, no network (`--dry-run`).
    pub dry_run: bool,
}

impl DownloadOptions {
    /// How many downloads may run at a time: at least one.
    pub fn job_limit(&self) -> (limit: usize)
        ensures
            limit == if self.jobs == 0 {
                1
            } else {
                self.jobs
            },
    {
        if self.jobs == 0 {
            1
        } else {
            self.jobs
        }
    }
}

// ---------------------------------------------------------------------------
// Verification
// ---------------------------------------------------------------------------

/// The code of a character, with the upper-case ASCII letters taken as lower case.
pub open spec fn folded(c: char) -> int {
    if 'A' <= c <= 'Z' {
        c as int + 32
    } else {
        c as int
    }
}

/// Whether two texts are the same up to the case of ASCII letters.
pub open spec fn same_ignoring_case(a: Seq<char>, b: Seq<char>) -> bool {
    &&& a.len() == b.len()
    &&& forall|i: int| 0 <= i < a.len() ==> folded(#[trigger] a[i]) == folded(b[i])
}

/// Why bytes are not those of an artifact.
#[derive(Debug)]
pub enum VerifyError {
    /// There are more or fewer bytes than declared.
    SizeMismatch { expected: u64, actual: u64 },
    /// The hash is another than the declared one.
    Sha1Mismatch { wanted: String, found: String },
}

/// What a [`VerifyError`] holds.
#[verifier::ext_equal]
pub enum VerifyErrorView {
    SizeMismatch { expected: u64, actual: u64 },
    Sha1Mismatch { wanted: Seq<char>, found: Seq<char> },
}

impl DeepView for VerifyError {
    type V = VerifyErrorView;

    open spec fn deep_view(&self) -> VerifyErrorView {
        match self {
            VerifyError::SizeMismatch { expected, actual } => VerifyErrorView::SizeMismatch {
                expected: *expected,
                actual: *actual,
            },
            VerifyError::Sha1Mismatch { wanted, found } => VerifyErrorView::Sha1Mismatch {
                wanted: wanted@,
                found: found@,
            },
        }
    }
}

impl VerifyErrorView {
    /// The mismatch in words.
    pub open spec fn words(self) -> Seq<char> {
        match self {
            VerifyErrorView::SizeMismatch { expected, actual } => "size mismatch: expected "@
                + decimal(expected as nat) + " bytes, got "@ + decimal(actual as nat),
            VerifyErrorView::Sha1Mismatch { wanted, found } => "sha1 mismatch: expected "@ + wanted
                + ", got "@ + found,
        }
    }
}

impl VerifyError {
    /// The mismatch in words.
    pub fn message(&self) -> (text: String)
        ensures
            text@ == self.deep_view().words(),
    {
        match self {
            VerifyError::SizeMismatch { expected, actual } => {
                let wanted = decimal_text(*expected);
                let found = decimal_text(*actual);
                let head = concat3("size mismatch: expected ", wanted.as_str(), " bytes, got ");
                head.concat(found.as_str())
            },
            VerifyError::Sha1Mismatch { wanted, found } => {
                let head = concat3("sha1 mismatch: expected ", wanted.as_str(), ", got ");
                head.concat(found.as_str())
            },
        }
    }
}

/// Whether the bytes of an artifact are checked against a hash: an absent or empty
/// one is not checked.
pub open spec fn checks_hash(record: ArtifactRecordView, verify: bool) -> bool {
    verify && (record.sha1 matches Some(hash) && hash.len() > 0)
}

/// What verification says of bytes of the length `len` with the hash `found`.
pub open spec fn verification(
    record: ArtifactRecordView,
    verify: bool,
    len: u64,
    found: Seq<char>,
) -> Result<(), VerifyErrorView> {
    if verify && (record.size matches Some(expected) && expected > 0 && expected != len) {
        Err(VerifyErrorView::SizeMismatch { expected: record.size->0, actual: len })
    } else if checks_hash(record, verify) && !same_ignoring_case(found, record.sha1->0) {
        Err(VerifyErrorView::Sha1Mismatch { wanted: record.sha1->0, found })
    } else {
        Ok(())
    }
}

/// What verification says of `bytes`.
pub open spec fn bytes_verification(
    record: ArtifactRecordView,
    verify: bool,
    bytes: Seq<u8>,
) -> Result<(), VerifyErrorView> {
    verification(record, verify, bytes.len() as u64, hex_of(sha1_of(bytes)))
}

/// Whether two texts are the same up to the case of ASCII letters.
fn equal_ignoring_case(a: &str, b: &str) -> (same: bool)
    ensures
        same == same_ignoring_case(a@, b@),
{
    let left = chars_of(a);
    let right = chars_of(b);
    if left.len() != right.len() {
        return false;
    }
    for i in 0..left.len()
        invariant
            left@ == a@,
            right@ == b@,
            left.len() == right.len(),
            forall|j: int| 0 <= j < i ==> folded(#[trigger] a@[j]) == folded(b@[j]),
    {
        if fold(left[i]) != fold(right[i]) {
            proof {
                assert(folded(a@[i as int]) != folded(b@[i as int]));
            }
            return false;
        }
    }
    true
}

/// The code of a character, with the upper-case ASCII letters taken as lower case.
fn fold(c: char) -> (code: u32)
    ensures
        code == folded(c),
{
    if 'A' <= c && c <= 'Z' {
        c as u32 + 32
    } else {
        c as u32
    }
}

/// Check the length and the hash of downloaded bytes against what was declared.
///
/// # Errors
/// Returns the mismatch.
pub fn verify_against(len: u64, found: &str, record: &ArtifactRecord, verify: bool) -> (result:
    Result<(), VerifyError>)
    ensures
        match result {
            Ok(()) => verification(record.deep_view(), verify, len, found@) == Ok::<
                (),
                VerifyErrorView,
            >(()),
            Err(error) => verification(record.deep_view(), verify, len, found@) == Err::<
                (),
                VerifyErrorView,
            >(error.deep_view()),
        },
{
    if !verify {
        return Ok(());
    }
    if let Some(expected) = record.size {
        if expected > 0 && expected != len {
            return Err(VerifyError::SizeMismatch { expected, actual: len });
        }
    }
    if let Some(wanted) = &record.sha1 {
        if !wanted.as_str().is_empty() && !equal_ignoring_case(found, wanted.as_str()) {
            return Err(
                VerifyError::Sha1Mismatch { wanted: wanted.clone(), found: found.to_owned() },
            );
        }
    }
    Ok(())
}

/// Verify size + sha1 unless verification is off or the hash is absent/empty.
///
/// # Errors
/// Returns the mismatch.
pub fn verify_bytes(bytes: &[u8], record: &ArtifactRecord, verify: bool) -> (result: Result<
    (),
    VerifyError,
>)
    ensures
        match result {
            Ok(()) => bytes_verification(record.deep_view(), verify, bytes@) == Ok::<
                (),
                VerifyErrorView,
            >(()),
            Err(error) => bytes_verification(record.deep_view(), verify, bytes@) == Err::<
                (),
                VerifyErrorView,
            >(error.deep_view()),
        },
{
    let wants_hash = match &record.sha1 {
        Some(hash) => verify && !hash.as_str().is_empty(),
        None => false,
    };
    let len: u64 = bytes.len() as u64;
    if wants_hash {
        let found = sha1_hex(bytes);
        verify_against(len, found.as_str(), record, verify)
    } else {
        verify_against(len, "", record, verify)
    }
}

// ---------------------------------------------------------------------------
// One attempt
// ---------------------------------------------------------------------------

/// A single-attempt error plus whether it's worth retrying.
#[derive(Debug)]
pub struct AttemptError {
    pub retryable: bool,
    pub message: String,
}

/// What an [`AttemptError`] holds.
#[verifier::ext_equal]
pub struct AttemptErrorView {
    pub retryable: bool,
    pub message: Seq<char>,
}

impl DeepView for AttemptError {
    type V = AttemptErrorView;

    open spec fn deep_view(&self) -> AttemptErrorView {
        AttemptErrorView { retryable: self.retryable, message: self.message@ }
    }
}

/// What came of an attempt.
pub open spec fn attempt_view(result: Result<Vec<u8>, AttemptError>) -> Result<
    Seq<u8>,
    AttemptErrorView,
> {
    match result {
        Ok(bytes) => Ok(bytes@),
        Err(error) => Err(error.deep_view()),
    }
}

impl AttemptError {
    /// A failure that is worth another attempt.
    pub fn retryable(message: String) -> (error: AttemptError)
        ensures
            error.deep_view() == (AttemptErrorView { retryable: true, message: message@ }),
    {
        AttemptError { retryable: true, message }
    }

    /// The request could not be made.
    pub fn of_request(cause: &str) -> (error: AttemptError)
        ensures
            error.deep_view() == (AttemptErrorView {
                retryable: true,
                message: "request error: "@ + cause@,
            }),
    {
        AttemptError::retryable("request error: ".to_owned().concat(cause))
    }

    /// The response could not be read to its end.
    pub fn of_read(cause: &str) -> (error: AttemptError)
        ensures
            error.deep_view() == (AttemptErrorView {
                retryable: true,
                message: "read error: "@ + cause@,
            }),
    {
        AttemptError::retryable("read error: ".to_owned().concat(cause))
    }
}

/// Whether an HTTP status is a success.
pub open spec fn is_success(status: u16) -> bool {
    200 <= status < 300
}

/// Whether a failed request is worth another attempt: server errors, timeouts and
/// rate limits are, other client errors are not.
pub open spec fn is_transient(status: u16) -> bool {
    500 <= status < 600 || status == 408 || status == 429
}

/// What an HTTP status means for an attempt: `None` on success. `text` is the
/// status as it is shown, e.g. `404 Not Found`.
pub fn status_failure(status: u16, text: &str) -> (failure: Option<AttemptError>)
    ensures
        failure.deep_view() == if is_success(status) {
            None
        } else {
            Some(AttemptErrorView { retryable: is_transient(status), message: "HTTP "@ + text@ })
        },
{
    if 200 <= status && status < 300 {
        return None;
    }
    let retryable = (500 <= status && status < 600) || status == 408 || status == 429;
    Some(AttemptError { retryable, message: "HTTP ".to_owned().concat(text) })
}

/// What becomes of a body that was read: the bytes if they verify. A bad body can
/// be a transient or partial fetch, so it is worth another attempt.
pub open spec fn body_outcome(
    bytes: Seq<u8>,
    verified: Result<(), VerifyErrorView>,
) -> Result<Seq<u8>, AttemptErrorView> {
    match verified {
        Ok(()) => Ok(bytes),
        Err(error) => Err(AttemptErrorView { retryable: true, message: error.words() }),
    }
}

/// Accept a body that was read, if it verifies.
///
/// # Errors
/// Returns the mismatch, as a failure that is worth another attempt.
pub fn accept_body(bytes: Vec<u8>, record: &ArtifactRecord, verify: bool) -> (result: Result<
    Vec<u8>,
    AttemptError,
>)
    ensures
        attempt_view(result) == body_outcome(
            bytes@,
            bytes_verification(record.deep_view(), verify, bytes@),
        ),
{
    let verified = verify_bytes(bytes.as_slice(), record, verify);
    match verified {
        Ok(()) => Ok(bytes),
        Err(error) => Err(AttemptError::retryable(error.message())),
    }
}

// ---------------------------------------------------------------------------
// Retrying
// ---------------------------------------------------------------------------

/// The pause after a failed attempt, in milliseconds: 250 after the first one, and
/// twice as long after each further one.
pub open spec fn backoff_ms(attempt: nat) -> nat
    decreases attempt,
{
    if attempt <= 1 {
        250
    } else {
        2 * backoff_ms((attempt - 1) as nat)
    }
}

/// The pauses do not get shorter.
proof fn backoff_grows(a: nat, b: nat)
    requires
        a <= b,
    ensures
        backoff_ms(a) <= backoff_ms(b),
    decreases b,
{
    if a < b {
        backoff_grows(a, (b - 1) as nat);
    }
}

/// Exponential backoff: 250ms, 500ms, 1s, ... (in milliseconds).
pub fn backoff(attempt: u32) -> (ms: u64)
    requires
        1 <= attempt <= 32,
    ensures
        ms == backoff_ms(attempt as nat),
{
    let mut ms: u64 = 250;
    for i in 1..attempt
        invariant
            1 <= attempt <= 32,
            1 <= i <= attempt,
            ms == backoff_ms(i as nat),
    {
        proof {
            backoff_grows(i as nat, 32);
            assert(backoff_ms(32) == 536870912000) by {
                reveal_with_fuel(backoff_ms, 33);
            }
        }
        ms = ms * 2;
    }
    ms
}

/// What to do after an attempt.
#[derive(Debug)]
pub enum FetchStep {
    /// The bytes are here.
    Done { bytes: Vec<u8> },
    /// Pause, then make the attempt with this number.
    Retry { attempt: u32, wait_ms: u64 },
    /// No further attempt.
    GiveUp { message: String },
}

/// What a [`FetchStep`] holds.
#[verifier::ext_equal]
pub enum FetchStepView {
    Done { bytes: Seq<u8> },
    Retry { attempt: u32, wait_ms: u64 },
    GiveUp { message: Seq<char> },
}

impl DeepView for FetchStep {
    type V = FetchStepView;

    open spec fn deep_view(&self) -> FetchStepView {
        match self {
            FetchStep::Done { bytes } => FetchStepView::Done { bytes: bytes@ },
            FetchStep::Retry { attempt, wait_ms } => FetchStepView::Retry {
                attempt: *attempt,
                wait_ms: *wait_ms,
            },
            FetchStep::GiveUp { message } => FetchStepView::GiveUp { message: message@ },
        }
    }
}

/// What to do after the attempt with the number `attempt`: a failure that is worth
/// retrying is retried until the attempts are used up.
pub open spec fn next_step(attempt: u32, result: Result<Seq<u8>, AttemptErrorView>) -> FetchStepView {
    match result {
        Ok(bytes) => FetchStepView::Done { bytes },
        Err(error) => if error.retryable && attempt < MAX_ATTEMPTS {
            FetchStepView::Retry {
                attempt: (attempt + 1) as u32,
                wait_ms: backoff_ms(attempt as nat) as u64,
            }
        } else {
            FetchStepView::GiveUp { message: error.message }
        },
    }
}

/// Decide what to do after an attempt.
pub fn after_attempt(attempt: u32, result: Result<Vec<u8>, AttemptError>) -> (step: FetchStep)
    requires
        1 <= attempt <= MAX_ATTEMPTS,
    ensures
        step.deep_view() == next_step(attempt, attempt_view(result)),
{
    match result {
        Ok(bytes) => FetchStep::Done { bytes },
        Err(error) => {
            if error.retryable && attempt < MAX_ATTEMPTS {
                FetchStep::Retry { attempt: attempt + 1, wait_ms: backoff(attempt) }
            } else {
                FetchStep::GiveUp { message: error.message }
            }
        },
    }
}

// ---------------------------------------------------------------------------
// One artifact
// ---------------------------------------------------------------------------

/// What to do for an artifact.
#[derive(Debug)]
pub enum DownloadAction {
    /// Nothing: it is there, or it is not needed.
    Nothing,
    /// Read the file that is there and see whether it verifies.
    CheckFile,
    /// Fetch it.
    Fetch { url: String },
}

/// What a [`DownloadAction`] holds.
#[verifier::ext_equal]
pub enum DownloadActionView {
    Nothing,
    CheckFile,
    Fetch { url: Seq<char> },
}

impl DeepView for DownloadAction {
    type V = DownloadActionView;

    open spec fn deep_view(&self) -> DownloadActionView {
        match self {
            DownloadAction::Nothing => DownloadActionView::Nothing,
            DownloadAction::CheckFile => DownloadActionView::CheckFile,
            DownloadAction::Fetch { url } => DownloadActionView::Fetch { url: url@ },
        }
    }
}

/// The failure to find an assume-local artifact.
pub open spec fn missing_local(record: ArtifactRecordView) -> ErrorView {
    plain_error(
        CauseView::Fatal {
            error: FatalErrorView::MissingLocalLib {
                coordinate: record.coordinate,
                path: record.local_path,
            },
        },
    )
}

/// What an assume-local artifact leads to: it has to be there, but on a dry run.
pub open spec fn local_outcome(record: ArtifactRecordView, dry_run: bool, present: bool) -> Result<
    (),
    ErrorView,
> {
    if present || dry_run {
        Ok(())
    } else {
        Err(missing_local(record))
    }
}

/// What to do for an artifact first. `present` is whether its file is there.
pub open spec fn first_action(
    record: ArtifactRecordView,
    options: DownloadOptions,
    present: bool,
) -> Result<DownloadActionView, ErrorView> {
    match record.url {
        None => match local_outcome(record, options.dry_run, present) {
            Ok(()) => Ok(DownloadActionView::Nothing),
            Err(error) => Err(error),
        },
        Some(url) => if options.dry_run || (present && !options.verify) {
            Ok(DownloadActionView::Nothing)
        } else if present {
            Ok(DownloadActionView::CheckFile)
        } else {
            Ok(DownloadActionView::Fetch { url })
        },
    }
}

/// What to do for an artifact whose file was read.
pub open spec fn checked_action(record: ArtifactRecordView, valid: bool) -> DownloadActionView {
    match record.url {
        Some(url) => if valid {
            DownloadActionView::Nothing
        } else {
            DownloadActionView::Fetch { url }
        },
        None => DownloadActionView::Nothing,
    }
}

/// Assert an assume-local (url-less) artifact is present. On a real run a missing
/// file is fatal; on a dry run it is not, so a command preview can still be emitted
/// before the caller stages the file.
///
/// # Errors
/// Returns [`FatalError::MissingLocalLib`] if it is missing on a real run.
pub fn assert_local(record: &ArtifactRecord, dry_run: bool, present: bool) -> (result: Result<
    (),
    Error,
>)
    ensures
        outcome(result) == local_outcome(record.deep_view(), dry_run, present),
{
    if present || dry_run {
        return Ok(());
    }
    Err(
        Error::fatal(
            FatalError::MissingLocalLib {
                coordinate: record.coordinate.clone(),
                path: record.local_path.clone(),
            },
        ),
    )
}

/// Decide what to do for an artifact first. `present` is whether its file is there.
///
/// No url -> assume-local: must already be on disk; never fetched. This is
/// orthogonal to the role (a classpath library can be assume-local). A present file
/// is trustworthy under `--no-verify` thanks to the atomic write.
///
/// # Errors
/// Returns [`FatalError::MissingLocalLib`] if an assume-local artifact is missing.
pub fn plan_download(record: &ArtifactRecord, options: &DownloadOptions, present: bool) -> (result:
    Result<DownloadAction, Error>)
    ensures
        outcome(result) == first_action(record.deep_view(), *options, present),
{
    let url = match &record.url {
        Some(url) => url,
        None => {
            return match assert_local(record, options.dry_run, present) {
                Ok(()) => Ok(DownloadAction::Nothing),
                Err(error) => Err(error),
            };
        },
    };
    if options.dry_run || (present && !options.verify) {
        return Ok(DownloadAction::Nothing);
    }
    if present {
        return Ok(DownloadAction::CheckFile);
    }
    Ok(DownloadAction::Fetch { url: url.clone() })
}

/// Whether the content of the target, if it could be read, passes verification.
pub fn content_is_valid(record: &ArtifactRecord, content: Option<&[u8]>) -> (valid: bool)
    ensures
        valid == (content matches Some(bytes) && bytes_verification(
            record.deep_view(),
            true,
            bytes@,
        ) is Ok),
{
    match content {
        Some(bytes) => verify_bytes(bytes, record, true).is_ok(),
        None => false,
    }
}

/// Decide what to do for an artifact whose file was read: an invalid one is fetched
/// again.
pub fn after_check(record: &ArtifactRecord, valid: bool) -> (action: DownloadAction)
    ensures
        action.deep_view() == checked_action(record.deep_view(), valid),
{
    match &record.url {
        Some(url) => if valid {
            DownloadAction::Nothing
        } else {
            DownloadAction::Fetch { url: url.clone() }
        },
        None => DownloadAction::Nothing,
    }
}

/// The reason of a failed download. A fallback url (the Mojang default for a
/// library that named none) reports everything that was tried.
pub open spec fn failure_reason(record: ArtifactRecordView, reason: Seq<char>) -> Seq<char> {
    if record.url_is_fallback {
        "has no specified download url, is not present locally at "@ + record.local_path
            + ", and was not found at Mojang's library server: "@ + reason
    } else {
        reason
    }
}

/// The failure `reason` for a fetch. A fallback url (the Mojang default for a
/// library that named none) reports the full chain that was tried; an explicit url
/// keeps its own message.
pub fn download_failure_reason(record: &ArtifactRecord, reason: String) -> (text: String)
    ensures
        text@ == failure_reason(record.deep_view(), reason@),
{
    if record.url_is_fallback {
        let head = concat3(
            "has no specified download url, is not present locally at ",
            record.local_path.as_str(),
            ", and was not found at Mojang's library server: ",
        );
        head.concat(reason.as_str())
    } else {
        reason
    }
}

/// The failure of a download that was given up.
pub open spec fn download_failed(record: ArtifactRecordView, reason: Seq<char>) -> ErrorView {
    plain_error(
        CauseView::Fatal {
            error: FatalErrorView::DownloadFailed {
                coordinate: record.coordinate,
                reason: failure_reason(record, reason),
            },
        },
    )
}

/// The failure of a download that was given up, after its last message.
pub fn give_up(record: &ArtifactRecord, message: String) -> (error: Error)
    ensures
        error.deep_view() == download_failed(record.deep_view(), message@),
{
    let reason = download_failure_reason(record, message);
    Error::fatal(
        FatalError::DownloadFailed { coordinate: record.coordinate.clone(), reason },
    )
}

/// Where the bytes of `path` are written before they are renamed onto it.
pub fn part_path(path: &str) -> (part: String)
    ensures
        part@ == path@ + ".part"@,
{
    path.to_owned().concat(".part")
}

/// A request for bytes that are read in memory: without hash and size, so any body
/// verifies, and without a place on disk.
pub fn plain_request(url: &str, label: &str) -> (record: ArtifactRecord)
    ensures
        record.deep_view() == (ArtifactRecordView {
            coordinate: label@,
            url: Some(url@),
            url_is_fallback: false,
            sha1: None,
            size: None,
            local_path: Seq::empty(),
            role: Role::Classpath,
            extract_exclude: Seq::empty(),
        }),
{
    let record = ArtifactRecord {
        coordinate: label.to_owned(),
        url: Some(url.to_owned()),
        url_is_fallback: false,
        sha1: None,
        size: None,
        local_path: String::new(),
        role: Role::Classpath,
        extract_exclude: Vec::new(),
    };
    proof {
        assert(record.deep_view().extract_exclude =~= Seq::<Seq<char>>::empty());
        assert(record.deep_view().local_path =~= Seq::<char>::empty());
    }
    record
}

// ---------------------------------------------------------------------------
// A batch
// ---------------------------------------------------------------------------

/// How one of the downloads of a batch ended.
#[derive(Debug)]
pub enum Joined {
    /// It came to its end.
    Finished { result: Result<(), Error> },
    /// It was aborted, after another one had failed.
    Cancelled,
    /// It panicked.
    Panicked { message: String },
}

/// What a [`Joined`] means for the batch: its failure, if it has one.
pub open spec fn joined_failure(joined: Joined) -> Option<ErrorView> {
    match joined {
        Joined::Finished { result } => match result {
            Ok(()) => None,
            Err(error) => Some(error.deep_view()),
        },
        Joined::Cancelled => None,
        Joined::Panicked { message } => Some(
            plain_error(CauseView::Other { message: message@ }).within("download task panicked"@),
        ),
    }
}

/// The failure of a batch so far: the first one.
pub open spec fn batch_failure(first: Option<ErrorView>, joined: Joined) -> Option<ErrorView> {
    match first {
        Some(error) => Some(error),
        None => joined_failure(joined),
    }
}

/// Take note of the end of one download. Returns the first failure so far, and
/// whether it is new: then the remaining downloads are to be aborted.
pub fn note_joined(first: Option<Error>, joined: Joined) -> (state: (Option<Error>, bool))
    ensures
        state.0.deep_view() == batch_failure(first.deep_view(), joined),
        state.1 == (first is None && joined_failure(joined) is Some),
{
    if let Some(error) = first {
        return (Some(error), false);
    }
    match joined {
        Joined::Finished { result } => match result {
            Ok(()) => (None, false),
            Err(error) => (Some(error), true),
        },
        Joined::Cancelled => (None, false),
        Joined::Panicked { message } => {
            let error = Error::new(Cause::Other { message });
            (Some(error.within("download task panicked".to_owned())), true)
        },
    }
}

// ---------------------------------------------------------------------------
// Laws
// ---------------------------------------------------------------------------

/// With verification off every body is accepted, and so is one whose artifact
/// declares neither a hash nor a size.
pub proof fn nothing_declared_accepts_everything(
    record: ArtifactRecordView,
    verify: bool,
    bytes: Seq<u8>,
)
    requires
        !verify || ((record.sha1 matches Some(hash) ==> hash.len() == 0) && (
        record.size matches Some(size) ==> size == 0)),
    ensures
        bytes_verification(record, verify, bytes) is Ok,
{
}

/// Verified bytes have the declared size and the declared hash.
pub proof fn accepted_bytes_are_declared(record: ArtifactRecordView, bytes: Seq<u8>)
    requires
        bytes.len() <= u64::MAX,
        bytes_verification(record, true, bytes) is Ok,
    ensures
        record.size matches Some(size) ==> size == 0 || size == bytes.len(),
        record.sha1 matches Some(hash) ==> hash.len() == 0 || same_ignoring_case(
            hex_of(sha1_of(bytes)),
            hash,
        ),
{
}

/// Case does not matter in a declared hash.
pub proof fn hash_case_is_ignored(
    record: ArtifactRecordView,
    other: Seq<char>,
    verify: bool,
    bytes: Seq<u8>,
)
    requires
        record.sha1 matches Some(hash) && same_ignoring_case(hash, other),
    ensures
        bytes_verification(record, verify, bytes) is Ok <==> bytes_verification(
            ArtifactRecordView { sha1: Some(other), ..record },
            verify,
            bytes,
        ) is Ok,
{
    let hash = record.sha1->0;
    let found = hex_of(sha1_of(bytes));
    if same_ignoring_case(found, hash) {
        assert forall|i: int| 0 <= i < found.len() implies folded(#[trigger] found[i]) == folded(
            other[i],
        ) by {
            assert(folded(hash[i]) == folded(other[i]));
        }
    }
    if same_ignoring_case(found, other) {
        assert forall|i: int| 0 <= i < found.len() implies folded(#[trigger] found[i]) == folded(
            hash[i],
        ) by {
            assert(folded(hash[i]) == folded(other[i]));
        }
    }
}

/// The pause doubles from attempt to attempt.
pub proof fn backoff_doubles(attempt: nat)
    requires
        1 <= attempt,
    ensures
        backoff_ms(1) == 250,
        backoff_ms(attempt + 1) == 2 * backoff_ms(attempt),
{
}

/// What the attempts `results` lead to, from the attempt with the number `attempt`
/// on: the bytes, or the last message.
pub open spec fn fetched(
    results: Seq<Result<Seq<u8>, AttemptErrorView>>,
    attempt: u32,
) -> Result<Seq<u8>, Seq<char>>
    decreases MAX_ATTEMPTS - attempt,
{
    match next_step(attempt, results[attempt - 1]) {
        FetchStepView::Done { bytes } => Ok(bytes),
        FetchStepView::GiveUp { message } => Err(message),
        FetchStepView::Retry { attempt: next, wait_ms } => if attempt < next <= MAX_ATTEMPTS {
            fetched(results, next)
        } else {
            Err(Seq::empty())
        },
    }
}

/// Whether an attempt failed in a way that is worth another one.
pub open spec fn worth_retrying(result: Result<Seq<u8>, AttemptErrorView>) -> bool {
    result matches Err(error) && error.retryable
}

/// The first attempt that succeeds, or that fails for good, or that is the last one
/// there is, decides; no attempt is made after it.
pub proof fn deciding_attempt(
    results: Seq<Result<Seq<u8>, AttemptErrorView>>,
    attempt: u32,
    last: u32,
)
    requires
        1 <= attempt <= last <= MAX_ATTEMPTS,
        results.len() >= last,
        forall|i: int| attempt - 1 <= i < last - 1 ==> worth_retrying(#[trigger] results[i]),
        last == MAX_ATTEMPTS || !worth_retrying(results[last - 1]),
    ensures
        fetched(results, attempt) == match results[last - 1] {
            Ok(bytes) => Ok::<Seq<u8>, Seq<char>>(bytes),
            Err(error) => Err(error.message),
        },
    decreases last - attempt,
{
    if attempt < last {
        assert(worth_retrying(results[attempt - 1]));
        deciding_attempt(results, (attempt + 1) as u32, last);
    }
}

/// There are never more attempts than allowed.
pub proof fn attempts_are_bounded(attempt: u32, result: Result<Seq<u8>, AttemptErrorView>)
    requires
        1 <= attempt <= MAX_ATTEMPTS,
    ensures
        next_step(attempt, result) matches FetchStepView::Retry { attempt: next, wait_ms } ==> next
            == attempt + 1 && next <= MAX_ATTEMPTS && wait_ms == backoff_ms(attempt as nat),
{
    backoff_grows(attempt as nat, 4);
    assert(backoff_ms(4) == 2000) by {
        reveal_with_fuel(backoff_ms, 5);
    }
}

/// An artifact without a url is never fetched, and on a dry run none is.
pub proof fn what_is_never_fetched(
    record: ArtifactRecordView,
    options: DownloadOptions,
    present: bool,
    valid: bool,
)
    requires
        record.url is None || options.dry_run,
    ensures
        first_action(record, options, present) matches Ok(action) ==> action
            == DownloadActionView::Nothing,
        record.url is None ==> checked_action(record, valid) == DownloadActionView::Nothing,
        options.dry_run ==> first_action(record, options, present) is Ok,
{
}

/// On a real run, an artifact for which nothing is done is there, and under
/// verification it was checked.
pub proof fn nothing_means_present(
    record: ArtifactRecordView,
    options: DownloadOptions,
    present: bool,
)
    requires
        !options.dry_run,
        first_action(record, options, present) == Ok::<DownloadActionView, ErrorView>(
            DownloadActionView::Nothing,
        ),
    ensures
        present,
        record.url is Some ==> !options.verify,
{
}

/// The bytes of a target are never written to the target itself, nor to the place
/// of another target's bytes.
pub proof fn part_paths_are_apart(a: Seq<char>, b: Seq<char>)
    ensures
        a + ".part"@ != a,
        a + ".part"@ == b + ".part"@ ==> a == b,
{
    reveal_strlit(".part");
    assert((a + ".part"@).len() != a.len());
    if a + ".part"@ == b + ".part"@ {
        assert(a =~= (a + ".part"@).take(a.len() as int));
        assert(b =~= (b + ".part"@).take(b.len() as int));
    }
}

/// The failure of a batch after its downloads ended in some order.
pub open spec fn batch_outcome(ends: Seq<Joined>) -> Option<ErrorView>
    decreases ends.len(),
{
    if ends.len() == 0 {
        None
    } else {
        batch_failure(batch_outcome(ends.drop_last()), ends.last())
    }
}

/// A batch fails exactly if one of its downloads does, and then with a failure of
/// one of them.
pub proof fn batch_succeeds_exactly_if(ends: Seq<Joined>)
    ensures
        batch_outcome(ends) is None <==> (forall|i: int|
            0 <= i < ends.len() ==> joined_failure(#[trigger] ends[i]) is None),
        batch_outcome(ends) is Some ==> exists|i: int|
            0 <= i < ends.len() && joined_failure(#[trigger] ends[i]) == batch_outcome(ends),
    decreases ends.len(),
{
    if ends.len() > 0 {
        let before = ends.drop_last();
        batch_succeeds_exactly_if(before);
        assert(forall|i: int| 0 <= i < before.len() ==> before[i] == #[trigger] ends[i]);
        if batch_outcome(before) is Some {
            let i = choose|i: int|
                0 <= i < before.len() && joined_failure(#[trigger] before[i]) == batch_outcome(
                    before,
                );
            assert(joined_failure(ends[i]) == batch_outcome(ends));
        } else {
            assert forall|i: int| 0 <= i < before.len() implies joined_failure(
                #[trigger] ends[i],
            ) is None by {
                assert(joined_failure(before[i]) is None);
            }
            assert(ends[ends.len() - 1] == ends.last());
        }
    }
}

/// Bytes are accepted exactly if verification is off, or if they have the size that is
/// declared and their hash is the one that is declared, as far as either is.
pub proof fn bytes_verify_exactly_if(record: ArtifactRecordView, verify: bool, bytes: Seq<u8>)
    requires
        bytes.len() <= u64::MAX,
    ensures
        bytes_verification(record, verify, bytes) is Ok <==> !verify || {
            &&& record.size matches Some(size) ==> size == 0 || size == bytes.len()
            &&& record.sha1 matches Some(hash) ==> hash.len() == 0 || same_ignoring_case(
                hash,
                hex_of(sha1_of(bytes)),
            )
        },
        verify ==> (record.size matches Some(size) ==> (size != 0 && size != bytes.len()
            ==> bytes_verification(record, verify, bytes) == Err::<(), VerifyErrorView>(
            VerifyErrorView::SizeMismatch { expected: size, actual: bytes.len() as u64 },
        ))),
        verify && (record.size matches Some(size) ==> size == 0 || size == bytes.len()) ==> (
        record.sha1 matches Some(hash) ==> (hash.len() > 0 && !same_ignoring_case(
            hash,
            hex_of(sha1_of(bytes)),
        ) ==> bytes_verification(record, verify, bytes) == Err::<(), VerifyErrorView>(
            VerifyErrorView::Sha1Mismatch { wanted: hash, found: hex_of(sha1_of(bytes)) },
        ))),
{
    let found = hex_of(sha1_of(bytes));
    if let Some(hash) = record.sha1 {
        if same_ignoring_case(hash, found) {
            assert forall|i: int| 0 <= i < found.len() implies folded(#[trigger] found[i])
                == folded(hash[i]) by {
                assert(folded(hash[i]) == folded(found[i]));
            }
        }
        if same_ignoring_case(found, hash) {
            assert forall|i: int| 0 <= i < hash.len() implies folded(#[trigger] hash[i]) == folded(
                found[i],
            ) by {
                assert(folded(found[i]) == folded(hash[i]));
            }
        }
    }
}

/// Two texts of one character are the same up to case exactly if the characters are equal
/// or the upper and the lower case of one ASCII letter; texts of different lengths never
/// are, and neither are texts that differ at some place.
pub proof fn only_the_case_of_letters_is_ignored(c: char, d: char, a: Seq<char>, b: Seq<char>)
    ensures
        same_ignoring_case(seq![c], seq![d]) <==> c == d || ('A' <= c <= 'Z' && d as int == c as int
            + 32) || ('A' <= d <= 'Z' && c as int == d as int + 32),
        same_ignoring_case(a.push(c), b.push(d)) <==> same_ignoring_case(a, b)
            && same_ignoring_case(seq![c], seq![d]),
        a.len() != b.len() ==> !same_ignoring_case(a, b),
{
    let x = a.push(c);
    let y = b.push(d);
    let c_text = seq![c];
    let d_text = seq![d];
    assert(c_text[0] == c && d_text[0] == d);
    if same_ignoring_case(x, y) {
        assert(folded(x[a.len() as int]) == folded(y[a.len() as int]));
        assert forall|i: int| 0 <= i < a.len() implies folded(#[trigger] a[i]) == folded(b[i]) by {
            assert(folded(x[i]) == folded(y[i]));
        }
    }
}

/// A status is a success in the two hundreds only. Worth another attempt are the five
/// hundreds, the timeout and the rate limit, and nothing else.
pub proof fn statuses_are_judged_by_their_class(status: u16)
    ensures
        is_success(status) <==> status / 100 == 2,
        is_transient(status) <==> status / 100 == 5 || status == 408 || status == 429,
        !(is_success(status) && is_transient(status)),
{
}

/// A body is handed on as it is if it verifies, and else is worth another attempt.
pub proof fn only_verified_bodies_are_accepted(
    record: ArtifactRecordView,
    verify: bool,
    bytes: Seq<u8>,
)
    ensures
        bytes_verification(record, verify, bytes) is Ok ==> body_outcome(
            bytes,
            bytes_verification(record, verify, bytes),
        ) == Ok::<Seq<u8>, AttemptErrorView>(bytes),
        bytes_verification(record, verify, bytes) is Err ==> worth_retrying(
            body_outcome(bytes, bytes_verification(record, verify, bytes)),
        ),
{
}

/// What is told of a mismatch holds what was declared and what was found.
pub proof fn mismatches_tell_both_sides(
    expected: u64,
    actual: u64,
    wanted: Seq<char>,
    found: Seq<char>,
)
    ensures
        (VerifyErrorView::SizeMismatch { expected, actual }).words() == "size mismatch: expected "@
            + decimal(expected as nat) + " bytes, got "@ + decimal(actual as nat),
        (VerifyErrorView::Sha1Mismatch { wanted, found }).words() == "sha1 mismatch: expected "@
            + wanted + ", got "@ + found,
{
}

/// Bytes end the attempts. A failure that is not worth another attempt ends them with its
/// message, and so does the fourth one; after the first three the pause is a quarter of a
/// second, half a second and a second.
pub proof fn four_attempts_are_made(bytes: Seq<u8>, error: AttemptErrorView, attempt: u32)
    ensures
        next_step(attempt, Ok(bytes)) == (FetchStepView::Done { bytes }),
        !error.retryable ==> next_step(attempt, Err(error)) == (FetchStepView::GiveUp {
            message: error.message,
        }),
        next_step(4, Err(error)) == (FetchStepView::GiveUp { message: error.message }),
        error.retryable ==> {
            &&& next_step(1, Err(error)) == (FetchStepView::Retry { attempt: 2, wait_ms: 250 })
            &&& next_step(2, Err(error)) == (FetchStepView::Retry { attempt: 3, wait_ms: 500 })
            &&& next_step(3, Err(error)) == (FetchStepView::Retry { attempt: 4, wait_ms: 1000 })
        },
{
    reveal_with_fuel(backoff_ms, 4);
}

/// On a real run an artifact that is not there is fetched from its own url, and without
/// one it is a failure that names it and its place. One that is there is read and checked
/// if it can be fetched and verification is on.
pub proof fn missing_artifacts_are_fetched(
    record: ArtifactRecordView,
    options: DownloadOptions,
    url: Seq<char>,
)
    requires
        !options.dry_run,
    ensures
        record.url == Some(url) ==> first_action(record, options, false) == Ok::<
            DownloadActionView,
            ErrorView,
        >(DownloadActionView::Fetch { url }),
        record.url == Some(url) && options.verify ==> first_action(record, options, true) == Ok::<
            DownloadActionView,
            ErrorView,
        >(DownloadActionView::CheckFile),
        record.url == Some(url) && !options.verify ==> first_action(record, options, true) == Ok::<
            DownloadActionView,
            ErrorView,
        >(DownloadActionView::Nothing),
        record.url is None ==> first_action(record, options, true) == Ok::<
            DownloadActionView,
            ErrorView,
        >(DownloadActionView::Nothing),
        record.url is None ==> (first_action(record, options, false) matches Err(error)
            && error.cause == (CauseView::Fatal {
            error: FatalErrorView::MissingLocalLib {
                coordinate: record.coordinate,
                path: record.local_path,
            },
        })),
        record.url == Some(url) ==> checked_action(record, false) == (DownloadActionView::Fetch {
            url,
        }),
        checked_action(record, true) == DownloadActionView::Nothing,
{
}

/// A local artifact has to be there on a real run, and only then.
pub proof fn local_artifacts_have_to_be_there(
    record: ArtifactRecordView,
    dry_run: bool,
    present: bool,
)
    ensures
        local_outcome(record, dry_run, present) is Ok <==> present || dry_run,
        local_outcome(record, dry_run, present) matches Err(error) ==> error.cause == (
        CauseView::Fatal {
            error: FatalErrorView::MissingLocalLib {
                coordinate: record.coordinate,
                path: record.local_path,
            },
        }),
{
}

/// A download that is given up names its artifact. Its reason is the last message; behind a
/// fallback url it also tells that there was no url, and where the file was looked for.
pub proof fn failed_downloads_tell_why(record: ArtifactRecordView, message: Seq<char>)
    ensures
        !record.url_is_fallback ==> download_failed(record, message).cause == (CauseView::Fatal {
            error: FatalErrorView::DownloadFailed {
                coordinate: record.coordinate,
                reason: message,
            },
        }),
        record.url_is_fallback ==> download_failed(record, message).cause == (CauseView::Fatal {
            error: FatalErrorView::DownloadFailed {
                coordinate: record.coordinate,
                reason: "has no specified download url, is not present locally at "@
                    + record.local_path + ", and was not found at Mojang's library server: "@
                    + message,
            },
        }),
{
}

/// The first download of a batch to fail is the failure of the batch, whatever ends after
/// it.
pub proof fn first_failure_of_a_batch_stays(ends: Seq<Joined>, i: int)
    requires
        0 <= i < ends.len(),
        joined_failure(ends[i]) is Some,
        forall|j: int| 0 <= j < i ==> joined_failure(#[trigger] ends[j]) is None,
    ensures
        batch_outcome(ends) == joined_failure(ends[i]),
    decreases ends.len(),
{
    let before = ends.drop_last();
    if i < before.len() {
        assert(before[i] == ends[i]);
        assert forall|j: int| 0 <= j < i implies joined_failure(#[trigger] before[j]) is None by {
            assert(before[j] == ends[j]);
        }
        first_failure_of_a_batch_stays(before, i);
    } else {
        batch_succeeds_exactly_if(before);
        assert forall|j: int| 0 <= j < before.len() implies joined_failure(
            #[trigger] before[j],
        ) is None by {
            assert(before[j] == ends[j]);
        }
    }
}

/// A download that ends well or is aborted is no failure; one that ends in an error has that
/// error, and one that panics has the message of the panic.
pub proof fn ends_mean_what_they_say(error: Error, message: String)
    ensures
        joined_failure(Joined::Finished { result: Ok(()) }) is None,
        joined_failure(Joined::Cancelled) is None,
        joined_failure(Joined::Finished { result: Err(error) }) == Some(error.deep_view()),
        joined_failure(Joined::Panicked { message }) matches Some(failure) && failure.cause == (
        CauseView::Other { message: message@ }),
{
}

/// A panic is told as one.
pub proof fn panics_are_told(message: String)
    ensures
        joined_failure(Joined::Panicked { message }) matches Some(failure) && failure.contexts
            == seq!["download task panicked"@],
{
    assert(Seq::<Seq<char>>::empty().push("download task panicked"@) =~= seq![
        "download task panicked"@,
    ]);
}

} // verus!
