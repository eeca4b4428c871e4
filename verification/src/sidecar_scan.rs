//! The names found in the transaction sidecar directory during a recovery scan.
use vstd::prelude::*;

use crate::keys::bytes_order;
use crate::keys::lemma_bytes_order_basics;
use crate::keys::lemma_bytes_order_transitive;
use crate::durable_keys::journal_needs_recovery;
use crate::durable_keys::needs_recovery;
use crate::journal::JournalRecord;
use crate::keys::DurableTransactionKey;
use crate::keys::ExecutorRootIdentity;
use crate::keys::RecoveryScanLimit;
use crate::observation::TransactionFileSystemError;

verus! {

/// The most directory entries a recovery scan reads from the sidecar.
pub const MAX_RECOVERY_SCAN_ENTRIES: u64 = 4096;

/// The byte strings of a list of names.
pub open spec fn names_view(names: Seq<Vec<u8>>) -> Seq<Seq<u8>> {
    names.map_values(|n: Vec<u8>| n@)
}

/// The directory's own entries, `.` and `..`.
pub open spec fn is_dot_entry(name: Seq<u8>) -> bool {
    name == seq![46u8] || name == seq![46u8, 46u8]
}

/// The names of a directory listing without `.` and `..`, in listing order.
pub open spec fn kept_names(listing: Seq<Seq<u8>>) -> Seq<Seq<u8>>
    decreases listing.len(),
{
    if listing.len() == 0 {
        listing
    } else if is_dot_entry(listing.last()) {
        kept_names(listing.drop_last())
    } else {
        kept_names(listing.drop_last()).push(listing.last())
    }
}

/// Names in ascending byte order.
pub open spec fn names_sorted(names: Seq<Seq<u8>>) -> bool {
    forall|i: int, j: int| 0 <= i < j < names.len() ==> bytes_order(#[trigger] names[i], #[trigger] names[j]) <= 0
}

fn is_dot(name: &Vec<u8>) -> (r: bool)
    ensures
        r == is_dot_entry(name@),
{
    let one = name.len() == 1 && name[0] == 46u8;
    let two = name.len() == 2 && name[0] == 46u8 && name[1] == 46u8;
    proof {
        if one {
            assert(name@ =~= seq![46u8]);
        }
        if two {
            assert(name@ =~= seq![46u8, 46u8]);
        }
    }
    one || two
}

/// Inserts a name at its place in a sorted list.
fn insert_sorted(out: &mut Vec<Vec<u8>>, name: Vec<u8>)
    requires
        names_sorted(names_view(old(out)@)),
    ensures
        names_sorted(names_view(final(out)@)),
        names_view(final(out)@).to_multiset() == names_view(old(out)@).to_multiset().insert(name@),
{
    let ghost before = names_view(out@);
    let mut p: usize = 0;
    while p < out.len() && crate::keys::compare_bytes(out[p].as_slice(), name.as_slice()) <= 0
        invariant
            p <= out@.len(),
            names_view(out@) == before,
            forall|i: int| 0 <= i < p ==> bytes_order(#[trigger] before[i], name@) <= 0,
        decreases out@.len() - p,
    {
        p += 1;
    }
    let ghost value = name@;
    out.insert(p, name);
    proof {
        let after = names_view(out@);
        assert(after =~= before.insert(p as int, value));
        broadcast use vstd::seq_lib::group_to_multiset_ensures;

        assert forall|i: int, j: int| 0 <= i < j < after.len() implies bytes_order(
            #[trigger] after[i],
            #[trigger] after[j],
        ) <= 0 by {
            if p < before.len() {
                lemma_bytes_order_basics(before[p as int], value);
            }
            if i < p && j == p {
            } else if i < p && j > p {
                lemma_bytes_order_transitive(before[i], value, before[p as int]);
                if j - 1 > p {
                    lemma_bytes_order_transitive(before[i], before[p as int], before[j - 1]);
                }
            } else if i == p {
                if j - 1 > p {
                    lemma_bytes_order_transitive(value, before[p as int], before[j - 1]);
                }
            } else {
            }
        }
    }
}

/// Sorts names into ascending byte order.
pub fn sort_names(names: Vec<Vec<u8>>) -> (r: Vec<Vec<u8>>)
    ensures
        names_sorted(names_view(r@)),
        names_view(r@).to_multiset() == names_view(names@).to_multiset(),
{
    let ghost original = names_view(names@);
    let mut rest = names;
    let mut out: Vec<Vec<u8>> = Vec::new();
    proof {
        broadcast use vstd::seq_lib::group_to_multiset_ensures;

        assert(names_view(out@) =~= Seq::<Seq<u8>>::empty());
        assert(names_view(out@).to_multiset() =~= vstd::multiset::Multiset::empty());
    }
    while rest.len() > 0
        invariant
            names_sorted(names_view(out@)),
            names_view(out@).to_multiset().add(names_view(rest@).to_multiset()) == original.to_multiset(),
        decreases rest@.len(),
    {
        let ghost before_rest = names_view(rest@);
        let ghost before_out = names_view(out@);
        let name = rest.pop().unwrap();
        let ghost value = name@;
        proof {
            broadcast use vstd::seq_lib::group_to_multiset_ensures;

            assert(before_rest =~= names_view(rest@).push(value));
        }
        insert_sorted(&mut out, name);
        proof {
            broadcast use vstd::seq_lib::group_to_multiset_ensures;
            broadcast use vstd::multiset::group_multiset_axioms;

            assert(names_view(out@).to_multiset().add(names_view(rest@).to_multiset()) =~= before_out.to_multiset().add(
                before_rest.to_multiset(),
            ));
        }
    }
    proof {
        broadcast use vstd::seq_lib::group_to_multiset_ensures;
        broadcast use vstd::multiset::group_multiset_axioms;

        assert(names_view(rest@) =~= Seq::<Seq<u8>>::empty());
        assert(names_view(out@).to_multiset() =~= original.to_multiset());
    }
    out
}

/// The error for a sidecar with more entries than a scan reads.
pub open spec fn is_overfull(e: TransactionFileSystemError) -> bool {
    e matches TransactionFileSystemError::Platform { operation, reason } && operation
        == "enumerate transaction recovery storage" && reason@
        == "transaction recovery sidecar exceeds the hard entry limit"@
}

/// The names of a sidecar listing, in byte order and without `.` and `..`; a listing with
/// more than `max_entries` such names is refused.
pub fn scan_names(listing: Vec<Vec<u8>>, max_entries: u64) -> (r: Result<Vec<Vec<u8>>, TransactionFileSystemError>)
    ensures
        kept_names(names_view(listing@)).len() > max_entries ==> (r matches Err(e) && is_overfull(e)),
        kept_names(names_view(listing@)).len() <= max_entries ==> (r matches Ok(names) && names_sorted(
            names_view(names@),
        ) && names_view(names@).to_multiset() == kept_names(names_view(listing@)).to_multiset()),
{
    let ghost all = names_view(listing@);
    let mut kept: Vec<Vec<u8>> = Vec::new();
    let mut i: usize = 0;
    while i < listing.len()
        invariant
            i <= listing@.len(),
            all == names_view(listing@),
            names_view(kept@) == kept_names(all.take(i as int)),
        decreases listing@.len() - i,
    {
        proof {
            assert(all.take(i + 1).drop_last() =~= all.take(i as int));
            assert(all.take(i + 1).last() == listing@[i as int]@);
        }
        if !is_dot(&listing[i]) {
            let name = listing[i].clone();
            kept.push(name);
            proof {
                assert(names_view(kept@) =~= kept_names(all.take(i as int)).push(listing@[i as int]@));
            }
        }
        i += 1;
    }
    proof {
        assert(all.take(listing@.len() as int) =~= all);
    }
    if kept.len() as u64 > max_entries {
        return Err(
            TransactionFileSystemError::Platform {
                operation: "enumerate transaction recovery storage",
                reason: crate::text::text("transaction recovery sidecar exceeds the hard entry limit"),
            },
        );
    }
    Ok(sort_names(kept))
}

/// What the recovery scan found in one transaction directory of the sidecar.
pub enum JournalProbe {
    /// The directory holds no journal: its transaction never began.
    NoJournal,
    /// The directory or its journal could not be opened, read or decoded.
    Unreadable,
    /// The journal it holds.
    Loaded(JournalRecord),
}

/// Whether the transaction of a probed sidecar directory needs recovery: not when it has no
/// journal, always when its journal cannot be read, and otherwise as its journal says.
pub open spec fn probe_needs_recovery(
    probe: JournalProbe,
    environment_id: Seq<char>,
    root_identity: (Seq<char>, Seq<u8>),
    key: (Seq<char>, Seq<u8>),
    name: Seq<u8>,
) -> bool {
    match probe {
        JournalProbe::NoJournal => false,
        JournalProbe::Unreadable => true,
        JournalProbe::Loaded(record) => needs_recovery(record, environment_id, root_identity, key, name),
    }
}

/// Decides whether a probed sidecar directory needs recovery.
pub fn probe_verdict(
    probe: &JournalProbe,
    environment_id: &str,
    root_identity: &ExecutorRootIdentity,
    key: &DurableTransactionKey,
    name: &[u8],
) -> (r: bool)
    ensures
        r == probe_needs_recovery(*probe, environment_id@, root_identity@, key@, name@),
{
    match probe {
        JournalProbe::NoJournal => false,
        JournalProbe::Unreadable => true,
        JournalProbe::Loaded(record) => journal_needs_recovery(record, environment_id, root_identity, key, name),
    }
}

/// The keys a recovery scan reports, collected in scan order. The scan stops as soon as it
/// holds more keys than its limit allows, so that the excess is reported without probing
/// every directory.
pub struct PendingKeys {
    keys: Vec<DurableTransactionKey>,
    limit: u64,
}

impl PendingKeys {
    pub closed spec fn keys(self) -> Seq<DurableTransactionKey> {
        self.keys@
    }

    pub closed spec fn limit(self) -> u64 {
        self.limit
    }

    /// An empty collection for a scan under `limit`.
    pub fn new(limit: RecoveryScanLimit) -> (r: Self)
        ensures
            r.keys() == Seq::<DurableTransactionKey>::empty(),
            r.limit() == limit.max_transactions,
    {
        PendingKeys { keys: Vec::new(), limit: limit.max_transactions }
    }

    /// Records a probed transaction, keeping its key when it needs recovery; the result says
    /// whether the scan goes on.
    pub fn record(&mut self, key: DurableTransactionKey, needs_recovery: bool) -> (go_on: bool)
        ensures
            final(self).limit() == old(self).limit(),
            needs_recovery ==> final(self).keys() == old(self).keys().push(key),
            !needs_recovery ==> final(self).keys() == old(self).keys(),
            go_on == (final(self).keys().len() <= final(self).limit()),
    {
        if needs_recovery {
            self.keys.push(key);
        }
        self.keys.len() as u64 <= self.limit
    }

    /// The collected keys.
    pub fn into_keys(self) -> (r: Vec<DurableTransactionKey>)
        ensures
            r@ == self.keys(),
    {
        self.keys
    }
}

} // verus!
