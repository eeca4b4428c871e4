use vstd::prelude::*;
use vstd::string::StringSliceAdditionalSpecFns;

use crate::executor::ExecuteError;
use crate::executor::ExecutionFailure;
use crate::keys::utf8;
use crate::observation::TransactionFileSystemError;
use crate::planner::PlanError;
use crate::recovery::RecoveryAttempt;
use crate::recovery::RecoveryFailure;

verus! {

/// Marker appended to a message that was cut to fit its byte budget.
pub const TRUNCATION_MARKER: &'static str = "...[truncated]";

/// Byte budget of a recovery failure message.
pub const RECOVERY_FAILURE_MESSAGE_BYTES: usize = 1024;

/// The largest character boundary at or below `i`.
pub open spec fn last_boundary(bytes: Seq<u8>, i: int) -> int
    decreases i,
{
    if i <= 0 {
        0
    } else if vstd::utf8::is_char_boundary(bytes, i) {
        i
    } else {
        last_boundary(bytes, i - 1)
    }
}

/// A message cut to `max` bytes: kept whole when it fits, else its longest prefix of whole
/// characters that leaves room for the marker, followed by the marker.
pub open spec fn bounded_with(message: Seq<u8>, max: int, marker: Seq<u8>) -> Seq<u8> {
    if message.len() <= max {
        message
    } else {
        message.subrange(0, last_boundary(message, max - marker.len())) + marker
    }
}

/// A message cut to `max` bytes behind the truncation marker.
pub open spec fn bounded_bytes(message: Seq<u8>, max: int) -> Seq<u8> {
    bounded_with(message, max, utf8(TRUNCATION_MARKER@))
}

/// Marker appended to a planning error message that was cut to fit.
pub const PLAN_TRUNCATION_MARKER: &'static str = "...";

proof fn lemma_last_boundary(bytes: Seq<u8>, i: int)
    requires
        vstd::utf8::valid_utf8(bytes),
        0 <= i <= bytes.len(),
    ensures
        0 <= last_boundary(bytes, i) <= i,
        vstd::utf8::is_char_boundary(bytes, last_boundary(bytes, i)),
    decreases i,
{
    if i > 0 && !vstd::utf8::is_char_boundary(bytes, i) {
        lemma_last_boundary(bytes, i - 1);
    }
}

fn cut_message(message: String, max_bytes: usize, marker: &str) -> (r: String)
    requires
        utf8(message@).len() <= max_bytes || max_bytes >= utf8(marker@).len(),
    ensures
        utf8(r@) == bounded_with(utf8(message@), max_bytes as int, utf8(marker@)),
        utf8(r@).len() <= max_bytes,
{
    proof {
        vstd::utf8::encode_utf8_valid_utf8(message@);
    }
    let length = message.as_str().as_bytes().len();
    if length <= max_bytes {
        return message;
    }
    let marker_length = marker.as_bytes().len();
    let mut end = max_bytes - marker_length;
    assert(end <= length);
    while !message.as_str().is_char_boundary(end)
        invariant
            end <= length,
            length == utf8(message@).len(),
            vstd::utf8::valid_utf8(utf8(message@)),
            last_boundary(utf8(message@), (max_bytes - marker_length) as int) == last_boundary(utf8(message@), end as int),
        decreases end,
    {
        proof {
            if end == 0 {
                assert(vstd::utf8::is_char_boundary(utf8(message@), 0));
            }
        }
        end = end - 1;
    }
    proof {
        lemma_last_boundary(utf8(message@), (max_bytes - marker_length) as int);
    }
    let (head, _) = message.as_str().split_at(end);
    let mut bounded = crate::text::text(head);
    bounded.append(marker);
    proof {
        vstd::utf8::encode_utf8_decode_utf8(head@);
        assert(utf8(bounded@) == utf8(head@) + utf8(marker@)) by {
            lemma_utf8_concat(head@, marker@);
        }
    }
    bounded
}

/// Cuts a message to at most `max_bytes` bytes without splitting a character; a cut message
/// ends with the truncation marker.
pub fn bounded_message_to(message: String, max_bytes: usize) -> (r: String)
    requires
        utf8(message@).len() <= max_bytes || max_bytes >= utf8(TRUNCATION_MARKER@).len(),
    ensures
        utf8(r@) == bounded_bytes(utf8(message@), max_bytes as int),
        utf8(r@).len() <= max_bytes,
{
    cut_message(message, max_bytes, TRUNCATION_MARKER)
}

/// Cuts a planning error message to at most `max_bytes` bytes without splitting a character;
/// a cut message ends with `...`.
pub fn bounded_error_message_to(message: String, max_bytes: usize) -> (r: String)
    requires
        utf8(message@).len() <= max_bytes || max_bytes >= utf8(PLAN_TRUNCATION_MARKER@).len(),
    ensures
        utf8(r@) == bounded_with(utf8(message@), max_bytes as int, utf8(PLAN_TRUNCATION_MARKER@)),
        utf8(r@).len() <= max_bytes,
{
    cut_message(message, max_bytes, PLAN_TRUNCATION_MARKER)
}

proof fn lemma_utf8_concat(a: Seq<char>, b: Seq<char>)
    ensures
        utf8(a + b) == utf8(a) + utf8(b),
    decreases a.len(),
{
    if a.len() == 0 {
        assert(a + b =~= b);
        assert(utf8(a) =~= Seq::<u8>::empty());
        assert(Seq::<u8>::empty() + utf8(b) =~= utf8(b));
    } else {
        lemma_utf8_concat(a.drop_first(), b);
        assert((a + b).drop_first() =~= a.drop_first() + b);
        assert((a + b)[0] == a[0]);
        assert(utf8(a + b) =~= utf8(a) + utf8(b));
    }
}

/// Which part of the transaction machinery a reported failure came from.
#[derive(Clone, Copy, Debug, PartialEq, Eq, Structural)]
pub enum FailureKind {
    FileSystem,
    Journal,
    Recovery,
}

/// How a failure is reported to the caller.
#[derive(Clone, Copy, Debug, PartialEq, Eq, Structural)]
pub enum ErrorClass {
    Unsupported,
    InvalidRequest,
    Conflict,
    Executor,
    RecoveryRequired,
}

/// The kind of an execution failure.
pub fn execution_failure_kind(failure: &ExecutionFailure) -> (r: FailureKind)
    ensures
        *failure is FileSystem ==> r == FailureKind::FileSystem,
        *failure is Journal ==> r == FailureKind::Journal,
{
    match failure {
        ExecutionFailure::FileSystem(_) => FailureKind::FileSystem,
        ExecutionFailure::Journal(_) => FailureKind::Journal,
    }
}

/// The kind of a recovery failure: filesystem and journal failures keep their kind, every
/// other failure is a recovery failure.
pub fn recovery_failure_kind(failure: &RecoveryFailure) -> (r: FailureKind)
    ensures
        *failure is FileSystem ==> r == FailureKind::FileSystem,
        *failure is Journal ==> r == FailureKind::Journal,
        !(*failure is FileSystem) && !(*failure is Journal) ==> r == FailureKind::Recovery,
{
    match failure {
        RecoveryFailure::FileSystem(_) => FailureKind::FileSystem,
        RecoveryFailure::Journal(_) => FailureKind::Journal,
        _ => FailureKind::Recovery,
    }
}

/// How a filesystem error is reported: an unavailable capability, an invalid request, a
/// conflict with a concurrent change, or an executor failure.
pub open spec fn error_class_of(error: TransactionFileSystemError) -> ErrorClass {
    match error {
        TransactionFileSystemError::Unsupported { .. } => ErrorClass::Unsupported,
        TransactionFileSystemError::InvalidRoot { .. } => ErrorClass::InvalidRequest,
        TransactionFileSystemError::InvalidModelPath { .. } => ErrorClass::InvalidRequest,
        TransactionFileSystemError::SymbolicLink { .. } => ErrorClass::InvalidRequest,
        TransactionFileSystemError::ChangedSincePlanning { .. } => ErrorClass::Conflict,
        TransactionFileSystemError::Platform { .. } => ErrorClass::Executor,
    }
}

/// Classifies a filesystem error for its caller.
pub fn file_system_error_class(error: &TransactionFileSystemError) -> (r: ErrorClass)
    ensures
        r == error_class_of(*error),
{
    match error {
        TransactionFileSystemError::Unsupported { .. } => ErrorClass::Unsupported,
        TransactionFileSystemError::InvalidRoot { .. } => ErrorClass::InvalidRequest,
        TransactionFileSystemError::InvalidModelPath { .. } => ErrorClass::InvalidRequest,
        TransactionFileSystemError::SymbolicLink { .. } => ErrorClass::InvalidRequest,
        TransactionFileSystemError::ChangedSincePlanning { .. } => ErrorClass::Conflict,
        TransactionFileSystemError::Platform { .. } => ErrorClass::Executor,
    }
}

/// How an execution failure is reported: a filesystem error by its class, a journal failure
/// as an executor failure.
pub fn execution_failure_class(failure: &ExecutionFailure) -> (r: ErrorClass)
    ensures
        r == match *failure {
            ExecutionFailure::FileSystem(e) => error_class_of(e),
            ExecutionFailure::Journal(_) => ErrorClass::Executor,
        },
{
    match failure {
        ExecutionFailure::FileSystem(error) => file_system_error_class(error),
        ExecutionFailure::Journal(_) => ErrorClass::Executor,
    }
}

/// How a failed recovery scan is reported: a filesystem error by its class, anything else as
/// an executor failure.
pub fn recovery_scan_class(failure: &RecoveryFailure) -> (r: ErrorClass)
    ensures
        r == match *failure {
            RecoveryFailure::FileSystem(e) => error_class_of(e),
            _ => ErrorClass::Executor,
        },
{
    match failure {
        RecoveryFailure::FileSystem(error) => file_system_error_class(error),
        _ => ErrorClass::Executor,
    }
}

/// How a planning failure is reported: a filesystem error by its class; a file that is not
/// as the request expected, or a plan whose digest moved, as a conflict; a preview that could
/// not be encoded as an executor failure; every other refusal as an invalid request.
pub open spec fn plan_class_of(error: PlanError) -> ErrorClass {
    match error {
        PlanError::FileSystem(e) => error_class_of(e),
        PlanError::ExpectedAbsent { .. } => ErrorClass::Conflict,
        PlanError::ExpectedExistingFile { .. } => ErrorClass::Conflict,
        PlanError::Stale { .. } => ErrorClass::Conflict,
        PlanError::PlanDigestMismatch { .. } => ErrorClass::Conflict,
        PlanError::PreviewSerialization { .. } => ErrorClass::Executor,
        _ => ErrorClass::InvalidRequest,
    }
}

/// Classifies a planning failure for its caller.
pub fn plan_error_class(error: &PlanError) -> (r: ErrorClass)
    ensures
        r == plan_class_of(*error),
{
    match error {
        PlanError::FileSystem(e) => file_system_error_class(e),
        PlanError::ExpectedAbsent { .. } => ErrorClass::Conflict,
        PlanError::ExpectedExistingFile { .. } => ErrorClass::Conflict,
        PlanError::Stale { .. } => ErrorClass::Conflict,
        PlanError::PlanDigestMismatch { .. } => ErrorClass::Conflict,
        PlanError::PreviewSerialization { .. } => ErrorClass::Executor,
        PlanError::Empty => ErrorClass::InvalidRequest,
        PlanError::Limit { .. } => ErrorClass::InvalidRequest,
        PlanError::PathConflict { .. } => ErrorClass::InvalidRequest,
        PlanError::UnsupportedKind { .. } => ErrorClass::InvalidRequest,
        PlanError::HardLink { .. } => ErrorClass::InvalidRequest,
        PlanError::InvalidEdits { .. } => ErrorClass::InvalidRequest,
        PlanError::InvalidUtf8 { .. } => ErrorClass::InvalidRequest,
        PlanError::InvalidAnchor { .. } => ErrorClass::InvalidRequest,
        PlanError::InvalidEditText { .. } => ErrorClass::InvalidRequest,
    }
}

/// How a failed execution is reported: a preview plan as an invalid request, a failure before
/// commit by its own class, and a transaction left for recovery as needing recovery.
pub fn execute_error_class(error: &ExecuteError) -> (r: ErrorClass)
    ensures
        r == match *error {
            ExecuteError::PreviewPlan => ErrorClass::InvalidRequest,
            ExecuteError::BeforeCommit { failure } => match failure {
                ExecutionFailure::FileSystem(e) => error_class_of(e),
                ExecutionFailure::Journal(_) => ErrorClass::Executor,
            },
            ExecuteError::RecoveryRequired { .. } => ErrorClass::RecoveryRequired,
        },
{
    match error {
        ExecuteError::PreviewPlan => ErrorClass::InvalidRequest,
        ExecuteError::BeforeCommit { failure } => execution_failure_class(failure),
        ExecuteError::RecoveryRequired { .. } => ErrorClass::RecoveryRequired,
    }
}

/// Whether a recovery pass left a transaction unfinished, which blocks new work until it is
/// recovered.
pub fn recovery_blocks(attempts: &Vec<RecoveryAttempt>) -> (r: bool)
    ensures
        r == exists|i: int| 0 <= i < attempts@.len() && (#[trigger] attempts@[i]).result is Err,
{
    let mut i: usize = 0;
    while i < attempts.len()
        invariant
            i <= attempts@.len(),
            forall|j: int| 0 <= j < i ==> (#[trigger] attempts@[j]).result is Ok,
        decreases attempts@.len() - i,
    {
        if attempts[i].result.is_err() {
            return true;
        }
        i += 1;
    }
    false
}

} // verus!
