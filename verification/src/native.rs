use vstd::prelude::*;

use crate::observation::TransactionFileSystemError;

verus! {

/// Executor-native, read-only filesystem capability for transaction planning.
#[derive(Clone, Copy, Debug, Default, PartialEq, Eq, Structural)]
pub struct NativePlanningFileSystem;

/// Executor-native transaction capability bound to one environment and root.
#[derive(Clone, Debug, PartialEq, Eq)]
pub struct NativeTransactionFileSystem {
    environment_id: String,
    /// The configured root's path URI, in its string form.
    root: String,
}

impl NativeTransactionFileSystem {
    pub closed spec fn environment_view(&self) -> Seq<char> {
        self.environment_id@
    }

    pub closed spec fn root_view(&self) -> Seq<char> {
        self.root@
    }

    /// A capability for one stable environment identifier and root URI.
    pub fn new(environment_id: String, root: String) -> (r: Self)
        ensures
            r.environment_view() == environment_id@,
            r.root_view() == root@,
    {
        NativeTransactionFileSystem { environment_id, root }
    }

    /// The environment identifier that future recovery journals must match.
    pub fn environment_id(&self) -> (r: &str)
        ensures
            r@ == self.environment_view(),
    {
        self.environment_id.as_str()
    }

    /// Only the configured root may be opened.
    pub fn ensure_configured_root(&self, root: &str) -> (r: Result<(), TransactionFileSystemError>)
        ensures
            root@ == self.root_view() ==> r is Ok,
            root@ != self.root_view() ==> (r matches Err(TransactionFileSystemError::InvalidRoot { root: rt, reason })
                && rt@ == root@ && reason@ == "transaction filesystem is configured for root `"@
                + self.root_view() + "`"@),
    {
        if crate::text::text_equals(root, self.root.as_str()) {
            return Ok(());
        }
        let mut reason = crate::text::text("transaction filesystem is configured for root `");
        reason.append(self.root.as_str());
        reason.append("`");
        Err(TransactionFileSystemError::InvalidRoot { root: crate::text::text(root), reason })
    }
}

/// The error every capability method gives on a platform without native no-follow handles.
pub fn unsupported() -> (e: TransactionFileSystemError)
    ensures
        e matches TransactionFileSystemError::Unsupported { capability, reason } && capability
            == "hashline transaction planning" && reason@
            == "native no-follow path handles are not implemented on this executor platform"@,
{
    TransactionFileSystemError::Unsupported {
        capability: "hashline transaction planning",
        reason: crate::text::text("native no-follow path handles are not implemented on this executor platform"),
    }
}

} // verus!
