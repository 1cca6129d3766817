use vstd::prelude::*;
use anchor_lang::solana_program::clock::UnixTimestamp;
use crate::error::MyError;

verus! {

/// Aggregate staked supply of a pool as recorded at one moment.
#[derive(Clone, Copy, Debug, PartialEq, Eq, Structural)]
pub struct Snapshot {
    pub epoch: UnixTimestamp,
    pub total: u64,
}

/// Snapshots are ordered by strictly increasing timestamp.
pub open spec fn strictly_increasing(snaps: Seq<Snapshot>) -> bool {
    forall|i: int, j: int| 0 <= i < j < snaps.len() ==> snaps[i].epoch < snaps[j].epoch
}

/// The supply in effect at `ts`: the total of the latest snapshot in `snaps`
/// that is not later than `ts`, if there is one.
pub open spec fn supply_at(snaps: Seq<Snapshot>, ts: int) -> Option<u64>
    decreases snaps.len(),
{
    if snaps.len() == 0 {
        None
    } else if snaps.last().epoch <= ts {
        Some(snaps.last().total)
    } else {
        supply_at(snaps.drop_last(), ts)
    }
}

/// Whether a snapshot `(epoch, total)` is accepted after `snaps`.
pub open spec fn record_outcome(snaps: Seq<Snapshot>, epoch: i64, total: u64) -> Result<(), MyError> {
    if snaps.len() == 0 || snaps.last().epoch < epoch {
        Ok(())
    } else if snaps.last().epoch > epoch {
        Err(MyError::NonMonotonicTimestamp)
    } else if snaps.last().total == total {
        Ok(())
    } else {
        Err(MyError::ConflictingSnapshot)
    }
}

/// The ledger after `(epoch, total)` was offered to `snaps`: one snapshot
/// longer when the timestamp is new, unchanged otherwise.
pub open spec fn after_record(snaps: Seq<Snapshot>, epoch: i64, total: u64) -> Seq<Snapshot> {
    if snaps.len() == 0 || snaps.last().epoch < epoch {
        snaps.push(Snapshot { epoch, total })
    } else {
        snaps
    }
}

/// In an ordered ledger split at `k`, where everything before `k` is at or
/// before `ts` and everything from `k` on is later, the supply at `ts` is
/// that of snapshot `k - 1`, and there is none when `k` is 0.
pub proof fn lemma_supply_at_split(snaps: Seq<Snapshot>, ts: int, k: int)
    requires
        0 <= k <= snaps.len(),
        forall|i: int| 0 <= i < k ==> snaps[i].epoch <= ts,
        forall|i: int| k <= i < snaps.len() ==> snaps[i].epoch > ts,
    ensures
        supply_at(snaps, ts) == (if k == 0 { None } else { Some(snaps[k - 1].total) }),
    decreases snaps.len(),
{
    if snaps.len() > 0 && k < snaps.len() {
        lemma_supply_at_split(snaps.drop_last(), ts, k);
    }
}

/// A query before the earliest snapshot of an ordered ledger finds nothing,
/// and every other query on a ledger that is not empty finds a total.
pub proof fn lemma_supply_at_defined(snaps: Seq<Snapshot>, ts: int)
    requires
        strictly_increasing(snaps),
    ensures
        supply_at(snaps, ts) is None <==> (snaps.len() == 0 || ts < snaps[0].epoch),
    decreases snaps.len(),
{
    if snaps.len() > 0 {
        lemma_supply_at_defined(snaps.drop_last(), ts);
    }
}

/// Recording keeps an ordered ledger ordered, whatever is offered.
pub proof fn lemma_record_keeps_order(snaps: Seq<Snapshot>, epoch: i64, total: u64)
    requires
        strictly_increasing(snaps),
    ensures
        strictly_increasing(after_record(snaps, epoch, total)),
{
}

/// After a snapshot was accepted, every query at or after its timestamp
/// finds its total, and every earlier query finds what it found before.
pub proof fn lemma_record_then_query(snaps: Seq<Snapshot>, epoch: i64, total: u64, ts: int)
    requires
        record_outcome(snaps, epoch, total) is Ok,
    ensures
        ts >= epoch ==> supply_at(after_record(snaps, epoch, total), ts) == Some(total),
        ts < epoch ==> supply_at(after_record(snaps, epoch, total), ts) == supply_at(snaps, ts),
{
    let after = after_record(snaps, epoch, total);
    if after.len() == snaps.len() + 1 {
        assert(after.drop_last() =~= snaps);
    }
}

/// Append-only ledger of a pool's aggregate staked supply, ordered by
/// strictly increasing timestamp.
pub struct History {
    snapshots: Vec<Snapshot>,
}

impl View for History {
    type V = Seq<Snapshot>;

    closed spec fn view(&self) -> Seq<Snapshot> {
        self.snapshots@
    }
}

impl History {
    /// The snapshots are in strictly increasing order of timestamp. Every
    /// ledger made by `new` and filled by `record_snapshot` is so.
    pub open spec fn wf(&self) -> bool {
        strictly_increasing(self@)
    }

    /// A ledger with no snapshot.
    pub fn new() -> (h: History)
        ensures
            h.wf(),
            h@ == Seq::<Snapshot>::empty(),
    {
        History { snapshots: Vec::new() }
    }

    /// Number of snapshots held.
    pub fn len(&self) -> (n: usize)
        ensures
            n == self@.len(),
    {
        self.snapshots.len()
    }

    /// Offers the snapshot `(epoch, total)`. A timestamp later than the latest
    /// one is appended; the latest timestamp again with the same total changes
    /// nothing; with another total, or an earlier timestamp, it is refused and
    /// the ledger stays as it was.
    pub fn record_snapshot(&mut self, epoch: UnixTimestamp, total: u64) -> (r: Result<(), MyError>)
        requires
            old(self).wf(),
        ensures
            final(self).wf(),
            r == record_outcome(old(self)@, epoch, total),
            r is Ok ==> final(self)@ == after_record(old(self)@, epoch, total),
            r is Err ==> final(self)@ == old(self)@,
    {
        let n: usize = self.snapshots.len();
        if n == 0 {
            self.snapshots.push(Snapshot { epoch, total });
            return Ok(());
        }
        let last: Snapshot = self.snapshots[n - 1];
        if last.epoch < epoch {
            self.snapshots.push(Snapshot { epoch, total });
            Ok(())
        } else if last.epoch > epoch {
            Err(MyError::NonMonotonicTimestamp)
        } else if last.total == total {
            Ok(())
        } else {
            Err(MyError::ConflictingSnapshot)
        }
    }

    /// The supply in effect at `ts`, found by binary search: the total of the
    /// latest snapshot that is not later than `ts`. Fails with `NoHistory`
    /// exactly when there is no such snapshot.
    pub fn at_epoch(&self, ts: UnixTimestamp) -> (r: Result<u64, MyError>)
        requires
            self.wf(),
        ensures
            r == (match supply_at(self@, ts as int) {
                Some(v) => Ok::<u64, MyError>(v),
                None => Err(MyError::NoHistory),
            }),
            r is Err <==> (self@.len() == 0 || ts < self@[0].epoch),
    {
        proof {
            lemma_supply_at_defined(self@, ts as int);
        }
        let mut lo: usize = 0;
        let mut hi: usize = self.snapshots.len();
        while lo < hi
            invariant
                0 <= lo <= hi <= self.snapshots@.len(),
                strictly_increasing(self.snapshots@),
                forall|i: int| 0 <= i < lo ==> self.snapshots@[i].epoch <= ts,
                forall|i: int| hi <= i < self.snapshots@.len() ==> self.snapshots@[i].epoch > ts,
            decreases hi - lo,
        {
            let mid: usize = lo + (hi - lo) / 2;
            if self.snapshots[mid].epoch <= ts {
                lo = mid + 1;
            } else {
                hi = mid;
            }
        }
        proof {
            lemma_supply_at_split(self.snapshots@, ts as int, lo as int);
        }
        if lo == 0 {
            Err(MyError::NoHistory)
        } else {
            Ok(self.snapshots[lo - 1].total)
        }
    }
}

} // verus!
