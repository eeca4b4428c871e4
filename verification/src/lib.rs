use vstd::prelude::*;

pub mod digest;
pub mod edits;
pub mod edit_laws;
pub mod framing;
pub mod keys;
pub mod observation;
pub mod request;
pub mod text;
pub mod journal;
pub mod journal_decode;
pub mod journal_laws;
pub mod limits;
pub mod ordering;
pub mod planner;
pub mod capability;
pub mod prepared;
pub mod executor;
pub mod recovery;
pub mod recovery_checks;
pub mod guarded_steps;
pub mod guarded_laws;
pub mod sidecar_scan;
pub mod native_locks;
pub mod fs_semantics;
pub mod durable_keys;
pub mod messages;
pub mod native;
pub mod metadata_codec;
pub mod plan_digest;
pub mod plan_laws;
pub mod preview;
pub mod model_paths;
pub mod recovery_laws;
pub mod native_status;
pub mod commit_machine;
pub mod recovery_machine;

verus! {

} // verus!
