//! The archival controller's decisions and the queries that resolve log
//! indices into local blocks and archive ranges.
use vstd::prelude::*;
use crate::account::{bytes_eq, copy_bytes};
use crate::certify::{certified_tip_witness, tip_witness};
use crate::encode::{be_bytes, index_be_bytes};
use crate::account::opt_bytes_view;
use crate::txlog::{adjacent, archives_partition, blocks_view, ArchiveEntry, Block, BlockView, TxLog};

verus! {

/// What the archival controller asks its runner to do next.
#[derive(Debug)]
pub enum ArchivalStep {
    /// Nothing to do: a run is under way, or the local log is small enough.
    Idle,
    /// A new archive instance is needed but the budget does not cover it;
    /// nothing was changed and a later trigger retries.
    Defer,
    /// Provision an archive instance whose first index is given, then report
    /// it with `archive_created`.
    CreateArchive { first_index: u128 },
    /// Send the `count` oldest local blocks to the archive, then report with
    /// `complete_migration`; `again` asks for another run after this one.
    Migrate { archive_id: Vec<u8>, count: u128, again: bool },
}

/// How many entries the local log may lose in one run.
pub open spec fn excess(local: nat, settle: u128) -> nat {
    if local > settle {
        (local - settle) as nat
    } else {
        0
    }
}

pub open spec fn min3(a: nat, b: nat, c: nat) -> nat {
    if a <= b && a <= c {
        a
    } else if b <= c {
        b
    } else {
        c
    }
}

/// Whether the newest archive cannot take more entries.
pub open spec fn needs_new_archive(archives: Seq<ArchiveEntry>, max_in_archive: u128) -> bool {
    archives.len() == 0 || archives.last().length >= max_in_archive
}

impl TxLog {
    /// Whether an archival run has work: no run is under way and the local
    /// log is at or above both thresholds.
    pub open spec fn archival_due(&self) -> bool {
        &&& !self.is_cleaning
        &&& self.blocks@.len() >= self.setting.max_active_records
        &&& self.blocks@.len() >= self.setting.settle_to_records
    }

    /// The number of entries to move to the newest archive, which must have
    /// room.
    pub open spec fn migration_size(&self) -> nat {
        min3(
            excess(self.blocks@.len(), self.setting.settle_to_records),
            (self.setting.max_records_in_archive_instance - self.archives@.last().length) as nat,
            self.setting.max_records_to_archive as nat,
        )
    }

    fn plan_migration(&self) -> (r: ArchivalStep)
        requires
            self.wf(),
            self.archives@.len() > 0,
            self.archives@.last().length < self.setting.max_records_in_archive_instance,
        ensures
            r matches ArchivalStep::Migrate { archive_id, count, again } && archive_id@
                == self.archives@.last().archive_id@ && count == self.migration_size() && again
                == (count < excess(self.blocks@.len(), self.setting.settle_to_records)),
    {
        let local = self.blocks.len() as u128;
        let settle = self.setting.settle_to_records;
        let wanted: u128 = if local > settle { local - settle } else { 0 };
        let last = &self.archives[self.archives.len() - 1];
        let capacity = self.setting.max_records_in_archive_instance - last.length;
        let mut count = wanted;
        if capacity < count {
            count = capacity;
        }
        if self.setting.max_records_to_archive < count {
            count = self.setting.max_records_to_archive;
        }
        ArchivalStep::Migrate { archive_id: copy_bytes(&last.archive_id), count, again: count < wanted }
    }

    /// Starts an archival run: decides whether to wait, provision an archive
    /// instance or migrate entries, and sets the guard when work begins.
    pub fn begin_archival(&mut self, available_budget: u128) -> (r: ArchivalStep)
        requires
            old(self).wf(),
        ensures
            final(self).wf(),
            final(self).blocks@ == old(self).blocks@,
            final(self).archives@ == old(self).archives@,
            final(self).txn_count == old(self).txn_count,
            final(self).first_index == old(self).first_index,
            final(self).setting == old(self).setting,
            final(self).latest_hash == old(self).latest_hash,
            final(self).certified_root == old(self).certified_root,
            !old(self).archival_due() ==> r is Idle && final(self).is_cleaning == old(self).is_cleaning,
            old(self).archival_due() && needs_new_archive(
                old(self).archives@,
                old(self).setting.max_records_in_archive_instance,
            ) ==> if available_budget > 2 * old(self).setting.archive_cycles {
                r == (ArchivalStep::CreateArchive { first_index: old(self).first_index })
                    && final(self).is_cleaning
            } else {
                r is Defer && !final(self).is_cleaning
            },
            old(self).archival_due() && !needs_new_archive(
                old(self).archives@,
                old(self).setting.max_records_in_archive_instance,
            ) ==> (final(self).is_cleaning && (r matches ArchivalStep::Migrate { archive_id, count, again }
                && archive_id@ == old(self).archives@.last().archive_id@ && count == old(
                self,
            ).migration_size() && again == (count < excess(
                old(self).blocks@.len(),
                old(self).setting.settle_to_records,
            )))),
    {
        let local = self.blocks.len() as u128;
        if self.is_cleaning || local < self.setting.max_active_records || local
            < self.setting.settle_to_records {
            return ArchivalStep::Idle;
        }
        let n = self.archives.len();
        if n == 0 || self.archives[n - 1].length >= self.setting.max_records_in_archive_instance {
            let cost = self.setting.archive_cycles;
            if cost <= u128::MAX / 2 && available_budget > cost * 2 {
                self.is_cleaning = true;
                return ArchivalStep::CreateArchive { first_index: self.first_index };
            }
            return ArchivalStep::Defer;
        }
        self.is_cleaning = true;
        self.plan_migration()
    }

    /// Appends an empty archive range for a new instance, starting at the
    /// first local index.
    pub fn push_archive(&mut self, archive_id: Vec<u8>)
        requires
            old(self).wf(),
        ensures
            final(self).wf(),
            final(self).blocks@ == old(self).blocks@,
            final(self).txn_count == old(self).txn_count,
            final(self).first_index == old(self).first_index,
            final(self).setting == old(self).setting,
            final(self).is_cleaning == old(self).is_cleaning,
            final(self).latest_hash == old(self).latest_hash,
            final(self).archives@.len() == old(self).archives@.len() + 1,
            final(self).archives@.drop_last() == old(self).archives@,
            final(self).archives@.last().archive_id@ == archive_id@,
            final(self).archives@.last().start == old(self).first_index,
            final(self).archives@.last().length == 0,
    {
        let entry = ArchiveEntry { archive_id, start: self.first_index, length: 0 };
        let ghost old_archives = self.archives@;
        self.archives.push(entry);
        proof {
            let a = self.archives@;
            assert(a.drop_last() =~= old_archives);
            assert forall|k: int| 0 <= k < a.len() implies #[trigger] adjacent(a, k) by {
                if k < a.len() - 1 {
                    assert(adjacent(old_archives, k));
                    assert(a[k] == old_archives[k]);
                    if k > 0 {
                        assert(a[k - 1] == old_archives[k - 1]);
                    }
                } else if k > 0 {
                    assert(a[k - 1] == old_archives.last());
                }
            }
            assert forall|k: int| 0 <= k < a.len() implies #[trigger] a[k].start + a[k].length
                <= u128::MAX by {
                if k < a.len() - 1 {
                    assert(a[k] == old_archives[k]);
                }
            }
        }
    }

    /// Records a newly provisioned archive instance, which starts empty at
    /// the first local index, and plans the migration into it.
    pub fn archive_created(&mut self, archive_id: Vec<u8>) -> (r: ArchivalStep)
        requires
            old(self).wf(),
        ensures
            final(self).wf(),
            final(self).blocks@ == old(self).blocks@,
            final(self).txn_count == old(self).txn_count,
            final(self).first_index == old(self).first_index,
            final(self).setting == old(self).setting,
            old(self).setting.max_records_in_archive_instance > 0 ==> final(self).is_cleaning
                == old(self).is_cleaning,
            final(self).archives@.len() == old(self).archives@.len() + 1,
            final(self).archives@.drop_last() == old(self).archives@,
            final(self).archives@.last().archive_id@ == archive_id@,
            final(self).archives@.last().start == old(self).first_index,
            final(self).archives@.last().length == 0,
            old(self).setting.max_records_in_archive_instance > 0 ==> (r matches ArchivalStep::Migrate {
                archive_id: id,
                count,
                again,
            } && id@ == archive_id@ && count == final(self).migration_size() && again == (count
                < excess(old(self).blocks@.len(), old(self).setting.settle_to_records))),
            old(self).setting.max_records_in_archive_instance == 0 ==> r is Idle
                && !final(self).is_cleaning,
    {
        self.push_archive(archive_id);
        if self.setting.max_records_in_archive_instance == 0 {
            self.is_cleaning = false;
            return ArchivalStep::Idle;
        }
        self.plan_migration()
    }

    /// Ends a run without changing any range: provisioning or the transfer
    /// to the archive failed, and a later trigger retries.
    pub fn archival_failed(&mut self)
        requires
            old(self).wf(),
        ensures
            final(self).wf(),
            final(self).blocks@ == old(self).blocks@,
            final(self).archives@ == old(self).archives@,
            final(self).txn_count == old(self).txn_count,
            final(self).first_index == old(self).first_index,
            final(self).setting == old(self).setting,
            !final(self).is_cleaning,
    {
        self.is_cleaning = false;
    }

    /// Copies of the `count` oldest local blocks, to be sent to an archive.
    pub fn blocks_to_archive(&self, count: u128) -> (r: Vec<Block>)
        ensures
            blocks_view(r@) == blocks_view(self.blocks@).take(
                if count <= self.blocks@.len() { count as int } else { self.blocks@.len() as int },
            ),
    {
        let n: usize = if count <= self.blocks.len() as u128 { count as usize } else { self.blocks.len() };
        let mut out: Vec<Block> = Vec::new();
        let mut i: usize = 0;
        while i < n
            invariant
                n <= self.blocks@.len(),
                i <= n,
                blocks_view(out@) =~= blocks_view(self.blocks@).take(i as int),
            decreases n - i,
        {
            let ghost prev = out@;
            let b = self.blocks[i].duplicate();
            out.push(b);
            assert(out@ =~= prev.push(b));
            assert(blocks_view(self.blocks@).take(i as int + 1) =~= blocks_view(self.blocks@).take(
                i as int,
            ).push(self.blocks@[i as int]@));
            assert(blocks_view(out@) =~= blocks_view(prev).push(b@));
            i = i + 1;
        }
        out
    }
}

impl TxLog {
    /// Ends a run whose blocks the archive acknowledged: drops them from the
    /// local log and extends the archive's range by as many. Refuses, changing
    /// only the guard, unless the archive is the newest one and the count is
    /// at most the local size.
    pub fn complete_migration(&mut self, archive_id: &Vec<u8>, count: u128) -> (applied: bool)
        requires
            old(self).wf(),
        ensures
            final(self).wf(),
            !final(self).is_cleaning,
            final(self).txn_count == old(self).txn_count,
            final(self).setting == old(self).setting,
            final(self).latest_hash == old(self).latest_hash,
            applied == (old(self).archives@.len() > 0 && old(self).archives@.last().archive_id@
                == archive_id@ && count <= old(self).blocks@.len()),
            applied ==> {
                &&& final(self).blocks@ == old(self).blocks@.subrange(
                    count as int,
                    old(self).blocks@.len() as int,
                )
                &&& final(self).first_index == old(self).first_index + count
                &&& final(self).archives@.len() == old(self).archives@.len()
                &&& final(self).archives@.drop_last() == old(self).archives@.drop_last()
                &&& final(self).archives@.last().archive_id@ == archive_id@
                &&& final(self).archives@.last().start == old(self).archives@.last().start
                &&& final(self).archives@.last().length == old(self).archives@.last().length
                    + count
            },
            !applied ==> final(self).blocks@ == old(self).blocks@ && final(self).archives@ == old(
                self,
            ).archives@ && final(self).first_index == old(self).first_index,
    {
        self.is_cleaning = false;
        let n = self.archives.len();
        if n == 0 || count > self.blocks.len() as u128 || !bytes_eq(
            &self.archives[n - 1].archive_id,
            archive_id,
        ) {
            return false;
        }
        let ghost old_blocks = self.blocks@;
        let ghost old_archives = self.archives@;
        let rest = self.blocks.split_off(count as usize);
        self.blocks = rest;
        self.first_index = self.first_index + count;
        let mut last = self.archives.pop().unwrap();
        last.length = last.length + count;
        self.archives.push(last);
        proof {
            let a = self.archives@;
            assert(a.drop_last() =~= old_archives.drop_last());
            assert forall|k: int| 0 <= k < a.len() implies #[trigger] adjacent(a, k) by {
                assert(adjacent(old_archives, k));
                if k < a.len() - 1 {
                    assert(a[k] == old_archives[k]);
                }
                if 0 < k < a.len() - 1 {
                    assert(a[k - 1] == old_archives[k - 1]);
                }
                if k == a.len() - 1 && k > 0 {
                    assert(a[k - 1] == old_archives[k - 1]);
                    assert(old_archives[k] == old_archives.last());
                }
            }
            assert forall|k: int| 0 <= k < a.len() implies #[trigger] a[k].start + a[k].length
                <= u128::MAX by {
                if k < a.len() - 1 {
                    assert(a[k] == old_archives[k]);
                }
            }
            let bv = blocks_view(self.blocks@);
            let obv = blocks_view(old_blocks);
            assert forall|i: int| 0 < i < bv.len() implies #[trigger] bv[i].parent_hash == Some(
                crate::certify::block_hash(bv[i - 1]),
            ) by {
                assert(bv[i] == obv[i + count]);
                assert(bv[i - 1] == obv[i - 1 + count]);
            }
            assert forall|i: int| 0 <= i < self.blocks@.len() implies #[trigger] self.blocks@[i].tx.id
                == self.first_index + i by {
                assert(self.blocks@[i] == old_blocks[i + count]);
            }
            if self.blocks@.len() > 0 {
                assert(self.blocks@.last() == old_blocks.last());
            }
            if self.first_index == 0 && self.blocks@.len() > 0 {
                assert(self.blocks@[0] == old_blocks[0]);
            }
        }
        true
    }
}

/// Archives that come earlier hold lower indices: each ends at or before
/// the start of every later one, and all of them end at or before the
/// first local index.
pub proof fn lemma_archives_ordered(archives: Seq<ArchiveEntry>, first_index: u128, k: int, j: int)
    requires
        archives_partition(archives, first_index),
        0 <= k < j < archives.len(),
    ensures
        archives[k].start + archives[k].length <= archives[j].start,
    decreases j - k,
{
    if j == k + 1 {
        assert(adjacent(archives, j));
    } else {
        lemma_archives_ordered(archives, first_index, k, j - 1);
        assert(adjacent(archives, j));
    }
}

pub proof fn lemma_archive_below_local(archives: Seq<ArchiveEntry>, first_index: u128, k: int)
    requires
        archives_partition(archives, first_index),
        0 <= k < archives.len(),
    ensures
        archives[k].start + archives[k].length <= first_index,
{
    if k < archives.len() - 1 {
        lemma_archives_ordered(archives, first_index, k, archives.len() - 1);
    }
}

/// Some archive holds each index below the first local one.
pub proof fn lemma_archive_holding(archives: Seq<ArchiveEntry>, first_index: u128, idx: nat) -> (k: int)
    requires
        archives_partition(archives, first_index),
        idx < first_index,
    ensures
        0 <= k < archives.len(),
        archives[k].start <= idx < archives[k].start + archives[k].length,
    decreases archives.len(),
{
    let n = archives.len() as int;
    if idx >= archives[n - 1].start {
        n - 1
    } else {
        let front = archives.drop_last();
        let end = archives[n - 1].start;
        assert(archives_partition(front, end)) by {
            assert forall|k: int| 0 <= k < front.len() implies #[trigger] adjacent(front, k) by {
                assert(adjacent(archives, k));
                assert(front[k] == archives[k]);
                if k > 0 {
                    assert(front[k - 1] == archives[k - 1]);
                }
            }
            assert forall|k: int| 0 <= k < front.len() implies #[trigger] front[k].start
                + front[k].length <= u128::MAX by {
                assert(front[k] == archives[k]);
            }
            if front.len() > 0 {
                assert(front.last() == archives[n - 2]);
                assert(adjacent(archives, n - 1));
            }
        }
        let k = lemma_archive_holding(front, end, idx);
        assert(front[k] == archives[k]);
        k
    }
}

/// The index space is partitioned: every index below the counter is held
/// either locally or by exactly one archive, never both.
pub proof fn lemma_index_partition(log: TxLog, idx: nat)
    requires
        log.wf(),
        idx < log.txn_count,
    ensures
        idx >= log.first_index ==> forall|k: int| 0 <= k < log.archives@.len() ==> !(
        #[trigger] log.archives@[k].start <= idx < log.archives@[k].start + log.archives@[k].length),
        idx < log.first_index ==> exists|k: int| 0 <= k < log.archives@.len() && #[trigger] log.archives@[k].start <= idx < log.archives@[k].start
            + log.archives@[k].length,
        forall|k: int, j: int|
            0 <= k < log.archives@.len() && 0 <= j < log.archives@.len() && #[trigger] log.archives@[k].start <= idx
                < log.archives@[k].start + log.archives@[k].length && #[trigger] log.archives@[j].start
                <= idx < log.archives@[j].start + log.archives@[j].length ==> k == j,
{
    let a = log.archives@;
    if idx >= log.first_index {
        assert forall|k: int| 0 <= k < a.len() implies !(#[trigger] a[k].start <= idx < a[k].start
            + a[k].length) by {
            lemma_archive_below_local(a, log.first_index, k);
        }
    } else {
        let k = lemma_archive_holding(a, log.first_index, idx);
        assert(a[k].start <= idx < a[k].start + a[k].length);
    }
    assert forall|k: int, j: int|
        0 <= k < a.len() && 0 <= j < a.len() && #[trigger] a[k].start <= idx < a[k].start
            + a[k].length && #[trigger] a[j].start <= idx < a[j].start + a[j].length implies k
        == j by {
        if k < j {
            lemma_archives_ordered(a, log.first_index, k, j);
        } else if j < k {
            lemma_archives_ordered(a, log.first_index, j, k);
        }
    }
}

/// A span of log indices: `length` indices from `start`.
#[derive(Clone, Copy, Debug, PartialEq, Eq, Structural)]
pub struct TransactionRange {
    pub start: u128,
    pub length: u128,
}

/// A local block with its sequence id.
#[derive(Clone, Debug)]
pub struct QueryBlock {
    pub id: u128,
    pub block: Block,
}

/// Where to ask for blocks that an archive holds: the archive and the
/// requested parts of its range.
#[derive(Clone, Debug)]
pub struct ArchivedBlocks {
    pub archive_id: Vec<u8>,
    pub ranges: Vec<TransactionRange>,
}

/// The answer to a block range query.
#[derive(Clone, Debug)]
pub struct GetBlocksResult {
    /// The number of blocks ever logged.
    pub log_length: u128,
    /// The requested blocks that are held locally, request by request.
    pub blocks: Vec<QueryBlock>,
    /// One redirect per archive that holds requested blocks, in archive order.
    pub archived_blocks: Vec<ArchivedBlocks>,
}

/// One holder of log entries and the indices it holds, `end` exclusive.
#[derive(Clone, Debug)]
pub struct ArchiveInfo {
    pub archive_id: Vec<u8>,
    pub start: u128,
    pub end: u128,
}

pub open spec fn max_nat(a: nat, b: nat) -> nat {
    if a >= b { a } else { b }
}

pub open spec fn min_nat(a: nat, b: nat) -> nat {
    if a <= b { a } else { b }
}

/// The locally held blocks that a request covers, with their ids.
pub open spec fn local_part(
    blocks: Seq<BlockView>,
    first: u128,
    count: u128,
    r: TransactionRange,
) -> Seq<(u128, BlockView)> {
    let lo = max_nat(r.start as nat, first as nat);
    let hi = min_nat((r.start + r.length) as nat, count as nat);
    if lo < hi {
        Seq::new((hi - lo) as nat, |j: int| ((lo + j) as u128, blocks[lo + j - first]))
    } else {
        seq![]
    }
}

pub open spec fn local_parts(
    blocks: Seq<BlockView>,
    first: u128,
    count: u128,
    reqs: Seq<TransactionRange>,
) -> Seq<(u128, BlockView)>
    decreases reqs.len(),
{
    if reqs.len() == 0 {
        seq![]
    } else {
        local_parts(blocks, first, count, reqs.drop_last()) + local_part(
            blocks,
            first,
            count,
            reqs.last(),
        )
    }
}

/// The part of an archive's range that a request covers, if any.
pub open spec fn archive_part(e: ArchiveEntry, r: TransactionRange) -> Option<(u128, u128)> {
    let lo = max_nat(r.start as nat, e.start as nat);
    let hi = min_nat((r.start + r.length) as nat, (e.start + e.length) as nat);
    if lo < hi {
        Some((lo as u128, (hi - lo) as u128))
    } else {
        None
    }
}

pub open spec fn archive_parts(e: ArchiveEntry, reqs: Seq<TransactionRange>) -> Seq<(u128, u128)>
    decreases reqs.len(),
{
    if reqs.len() == 0 {
        seq![]
    } else {
        let prev = archive_parts(e, reqs.drop_last());
        match archive_part(e, reqs.last()) {
            Some(p) => prev.push(p),
            None => prev,
        }
    }
}

/// One redirect per archive that a request touches, in archive order.
pub open spec fn redirects(archives: Seq<ArchiveEntry>, reqs: Seq<TransactionRange>) -> Seq<
    (Seq<u8>, Seq<(u128, u128)>),
>
    decreases archives.len(),
{
    if archives.len() == 0 {
        seq![]
    } else {
        let prev = redirects(archives.drop_last(), reqs);
        let parts = archive_parts(archives.last(), reqs);
        if parts.len() > 0 {
            prev.push((archives.last().archive_id@, parts))
        } else {
            prev
        }
    }
}

pub open spec fn query_blocks_view(q: Seq<QueryBlock>) -> Seq<(u128, BlockView)> {
    q.map_values(|b: QueryBlock| (b.id, b.block@))
}

pub open spec fn ranges_view(r: Seq<TransactionRange>) -> Seq<(u128, u128)> {
    r.map_values(|t: TransactionRange| (t.start, t.length))
}

pub open spec fn redirects_view(a: Seq<ArchivedBlocks>) -> Seq<(Seq<u8>, Seq<(u128, u128)>)> {
    a.map_values(|x: ArchivedBlocks| (x.archive_id@, ranges_view(x.ranges@)))
}

/// The end of a request's span, saturated at the largest index.
fn span_end(r: TransactionRange) -> (e: u128)
    ensures
        e == min_nat((r.start + r.length) as nat, u128::MAX as nat),
{
    if r.length > u128::MAX - r.start {
        u128::MAX
    } else {
        r.start + r.length
    }
}

impl TxLog {
    fn push_local_part(&self, r: TransactionRange, out: &mut Vec<QueryBlock>)
        requires
            self.wf(),
        ensures
            query_blocks_view(final(out)@) == query_blocks_view(old(out)@) + local_part(
                blocks_view(self.blocks@),
                self.first_index,
                self.txn_count,
                r,
            ),
    {
        let ghost bv = blocks_view(self.blocks@);
        let end = span_end(r);
        let lo = if r.start >= self.first_index { r.start } else { self.first_index };
        let hi = if end <= self.txn_count { end } else { self.txn_count };
        let ghost part = local_part(bv, self.first_index, self.txn_count, r);
        if lo >= hi {
            assert(query_blocks_view(out@) =~= query_blocks_view(old(out)@) + part);
            return;
        }
        let mut id = lo;
        let len = self.blocks.len();
        while id < hi
            invariant
                self.wf(),
                len == self.blocks@.len(),
                bv == blocks_view(self.blocks@),
                lo <= id <= hi,
                hi <= self.txn_count,
                lo >= self.first_index,
                part == local_part(bv, self.first_index, self.txn_count, r),
                part.len() == hi - lo,
                forall|j: int| 0 <= j < part.len() ==> #[trigger] part[j] == ((lo + j) as u128, bv[lo + j - self.first_index]),
                query_blocks_view(out@) =~= query_blocks_view(old(out)@) + part.take(id - lo),
            decreases hi - id,
        {
            assert(id - self.first_index < len);
            let pos = (id - self.first_index) as usize;
            let b = self.blocks[pos].duplicate();
            let ghost prev = out@;
            out.push(QueryBlock { id, block: b });
            proof {
                assert(out@ =~= prev.push(QueryBlock { id, block: b }));
                assert(part.take(id + 1 - lo) =~= part.take(id - lo).push(part[id - lo]));
                assert(bv[pos as int] == self.blocks@[pos as int]@);
                let ghost j: int = id - lo;
                assert(part[j] == ((lo + j) as u128, bv[lo + j - self.first_index]));
                assert(lo + j - self.first_index == pos);
                assert(part[j] == (id, b@));
                assert(query_blocks_view(out@) =~= query_blocks_view(prev).push((id, b@)));
            }
            id = id + 1;
        }
        assert(part.take(hi - lo) =~= part);
    }

    fn archive_parts_of(&self, k: usize, reqs: &Vec<TransactionRange>) -> (r: Vec<TransactionRange>)
        requires
            k < self.archives@.len(),
            self.wf(),
        ensures
            ranges_view(r@) == archive_parts(self.archives@[k as int], reqs@),
    {
        let e = &self.archives[k];
        let e_end = e.start + e.length;
        let mut out: Vec<TransactionRange> = Vec::new();
        let mut i: usize = 0;
        while i < reqs.len()
            invariant
                i <= reqs@.len(),
                e == self.archives@[k as int],
                e_end == e.start + e.length,
                ranges_view(out@) =~= archive_parts(*e, reqs@.take(i as int)),
            decreases reqs@.len() - i,
        {
            let r = reqs[i];
            let end = span_end(r);
            let lo = if r.start >= e.start { r.start } else { e.start };
            let hi = if end <= e_end { end } else { e_end };
            assert(reqs@.take(i as int + 1).drop_last() =~= reqs@.take(i as int));
            let ghost prev = out@;
            if lo < hi {
                let len = hi - lo;
                out.push(TransactionRange { start: lo, length: len });
                assert(out@ =~= prev.push(TransactionRange { start: lo, length: len }));
                assert(ranges_view(out@) =~= ranges_view(prev).push((lo, len)));
            }
            i = i + 1;
        }
        assert(reqs@.take(reqs@.len() as int) =~= reqs@);
        out
    }

    /// Resolves requested spans of the log into the blocks held locally and
    /// one redirect per archive that holds the rest.
    pub fn get_blocks(&self, reqs: &Vec<TransactionRange>) -> (r: GetBlocksResult)
        requires
            self.wf(),
        ensures
            r.log_length == self.txn_count,
            query_blocks_view(r.blocks@) == local_parts(
                blocks_view(self.blocks@),
                self.first_index,
                self.txn_count,
                reqs@,
            ),
            redirects_view(r.archived_blocks@) == redirects(self.archives@, reqs@),
    {
        let ghost bv = blocks_view(self.blocks@);
        let mut blocks: Vec<QueryBlock> = Vec::new();
        let mut i: usize = 0;
        while i < reqs.len()
            invariant
                self.wf(),
                bv == blocks_view(self.blocks@),
                i <= reqs@.len(),
                query_blocks_view(blocks@) == local_parts(bv, self.first_index, self.txn_count, reqs@.take(i as int)),
            decreases reqs@.len() - i,
        {
            self.push_local_part(reqs[i], &mut blocks);
            assert(reqs@.take(i as int + 1).drop_last() =~= reqs@.take(i as int));
            i = i + 1;
        }
        assert(reqs@.take(reqs@.len() as int) =~= reqs@);
        let mut archived: Vec<ArchivedBlocks> = Vec::new();
        let mut k: usize = 0;
        while k < self.archives.len()
            invariant
                self.wf(),
                k <= self.archives@.len(),
                redirects_view(archived@) =~= redirects(self.archives@.take(k as int), reqs@),
            decreases self.archives@.len() - k,
        {
            let parts = self.archive_parts_of(k, reqs);
            let ghost prev = archived@;
            let ghost ak = self.archives@.take(k as int + 1);
            assert(ak.drop_last() =~= self.archives@.take(k as int));
            assert(ak.last() == self.archives@[k as int]);
            if parts.len() > 0 {
                let item = ArchivedBlocks { archive_id: copy_bytes(&self.archives[k].archive_id), ranges: parts };
                archived.push(item);
                assert(archived@ =~= prev.push(item));
                assert(redirects_view(archived@) =~= redirects_view(prev).push((item.archive_id@, ranges_view(item.ranges@))));
            }
            k = k + 1;
        }
        assert(self.archives@.take(self.archives@.len() as int) =~= self.archives@);
        GetBlocksResult { log_length: self.txn_count, blocks, archived_blocks: archived }
    }
}

/// The listed form of the archives that hold entries: identity, first
/// index and end index.
pub open spec fn archive_items(archives: Seq<ArchiveEntry>) -> Seq<(Seq<u8>, u128, u128)>
    decreases archives.len(),
{
    if archives.len() == 0 {
        seq![]
    } else {
        let prev = archive_items(archives.drop_last());
        let e = archives.last();
        if e.length > 0 {
            prev.push((e.archive_id@, e.start, (e.start + e.length) as u128))
        } else {
            prev
        }
    }
}

/// The position of the first archive with this identity.
pub open spec fn is_first_with_id(archives: Seq<ArchiveEntry>, id: Seq<u8>, k: int) -> bool {
    &&& 0 <= k < archives.len()
    &&& archives[k].archive_id@ == id
    &&& forall|j: int| 0 <= j < k ==> #[trigger] archives[j].archive_id@ != id
}

/// The archives listed after the one with identity `id`; none if no
/// archive has it.
pub open spec fn archives_after(archives: Seq<ArchiveEntry>, id: Seq<u8>) -> Seq<ArchiveEntry> {
    if exists|k: int| is_first_with_id(archives, id, k) {
        let k = choose|k: int| is_first_with_id(archives, id, k);
        archives.subrange(k + 1, archives.len() as int)
    } else {
        seq![]
    }
}

pub open spec fn archive_info_view(a: Seq<ArchiveInfo>) -> Seq<(Seq<u8>, u128, u128)> {
    a.map_values(|x: ArchiveInfo| (x.archive_id@, x.start, x.end))
}

/// The latest block's hash and index with the witness that certifies them.
#[derive(Clone, Debug)]
pub struct Tip {
    pub last_block_hash: Vec<u8>,
    /// The big-endian bytes of the index.
    pub last_block_index: Vec<u8>,
    pub hash_tree: Vec<u8>,
}

impl TxLog {
    fn push_archive_items(&self, from: usize, out: &mut Vec<ArchiveInfo>)
        requires
            self.wf(),
            from <= self.archives@.len(),
        ensures
            archive_info_view(final(out)@) == archive_info_view(old(out)@) + archive_items(
                self.archives@.subrange(from as int, self.archives@.len() as int),
            ),
    {
        let mut k = from;
        while k < self.archives.len()
            invariant
                self.wf(),
                from <= k <= self.archives@.len(),
                archive_info_view(out@) == archive_info_view(old(out)@) + archive_items(
                    self.archives@.subrange(from as int, k as int),
                ),
            decreases self.archives@.len() - k,
        {
            let e = &self.archives[k];
            let ghost sub = self.archives@.subrange(from as int, k as int + 1);
            assert(sub.drop_last() =~= self.archives@.subrange(from as int, k as int));
            assert(sub.last() == *e);
            if e.length > 0 {
                let ghost prev = out@;
                let item = ArchiveInfo {
                    archive_id: copy_bytes(&e.archive_id),
                    start: e.start,
                    end: e.start + e.length,
                };
                out.push(item);
                assert(out@ =~= prev.push(item));
                assert(archive_info_view(out@) =~= archive_info_view(prev).push(
                    (item.archive_id@, item.start, item.end),
                ));
                assert(archive_info_view(out@) =~= archive_info_view(old(out)@) + archive_items(sub));
            }
            k = k + 1;
        }
    }

    /// Lists the holders of log entries: this ledger (identity `self_id`,
    /// indices from the first local one up to the counter) and then each
    /// archive that holds entries. With `from` the listing starts after the
    /// holder of that identity.
    pub fn get_archives(&self, self_id: &Vec<u8>, from: &Option<Vec<u8>>) -> (r: Vec<ArchiveInfo>)
        requires
            self.wf(),
        ensures
            archive_info_view(r@) == match opt_bytes_view(*from) {
                None => seq![(self_id@, self.first_index, self.txn_count)] + archive_items(self.archives@),
                Some(x) => if x == self_id@ {
                    archive_items(self.archives@)
                } else {
                    archive_items(archives_after(self.archives@, x))
                },
            },
    {
        let mut out: Vec<ArchiveInfo> = Vec::new();
        assert(self.archives@.subrange(0, self.archives@.len() as int) =~= self.archives@);
        match from {
            None => {
                let me = ArchiveInfo {
                    archive_id: copy_bytes(self_id),
                    start: self.first_index,
                    end: self.txn_count,
                };
                out.push(me);
                assert(archive_info_view(out@) =~= seq![(self_id@, self.first_index, self.txn_count)]);
                self.push_archive_items(0, &mut out);
            },
            Some(x) => {
                if bytes_eq(x, self_id) {
                    self.push_archive_items(0, &mut out);
                    assert(archive_info_view(out@) =~= archive_items(self.archives@));
                } else {
                    let mut k: usize = 0;
                    let mut found = false;
                    while k < self.archives.len() && !found
                        invariant
                            k <= self.archives@.len(),
                            found ==> k < self.archives@.len() && self.archives@[k as int].archive_id@
                                == x@,
                            forall|j: int| 0 <= j < k ==> #[trigger] self.archives@[j].archive_id@ != x@,
                        decreases self.archives@.len() - k + (if found { 0int } else { 1int }),
                    {
                        if bytes_eq(&self.archives[k].archive_id, x) {
                            found = true;
                        } else {
                            k = k + 1;
                        }
                    }
                    if found {
                        proof {
                            assert(is_first_with_id(self.archives@, x@, k as int));
                            let c = choose|c: int| is_first_with_id(self.archives@, x@, c);
                            if c < k {
                                assert(self.archives@[c].archive_id@ != x@);
                            }
                            if k < c {
                                assert(self.archives@[k as int].archive_id@ != x@);
                            }
                            assert(c == k);
                        }
                        self.push_archive_items(k + 1, &mut out);
                        assert(archive_info_view(out@) =~= archive_items(
                            archives_after(self.archives@, x@),
                        ));
                    } else {
                        proof {
                            if exists|c: int| is_first_with_id(self.archives@, x@, c) {
                                let c = choose|c: int| is_first_with_id(self.archives@, x@, c);
                                assert(self.archives@[c].archive_id@ != x@);
                            }
                        }
                        assert(archive_info_view(out@) =~= archive_items(
                            archives_after(self.archives@, x@),
                        ));
                    }
                }
            },
        }
        out
    }

    /// The latest block's hash and index with their witness; none before the
    /// first block.
    pub fn get_tip(&self) -> (r: Option<Tip>)
        requires
            self.wf(),
        ensures
            r is Some <==> self.txn_count > 0,
            r matches Some(t) ==> {
                &&& opt_bytes_view(self.latest_hash) == Some(t.last_block_hash@)
                &&& t.last_block_index@ == be_bytes((self.txn_count - 1) as nat, 16)
                &&& t.hash_tree@ == tip_witness((self.txn_count - 1) as u128, t.last_block_hash@)
            },
    {
        match &self.latest_hash {
            None => None,
            Some(h) => {
                let index = self.txn_count - 1;
                Some(Tip {
                    last_block_hash: copy_bytes(h),
                    last_block_index: index_be_bytes(index),
                    hash_tree: certified_tip_witness(index, h),
                })
            },
        }
    }
}

/// One migration moves at most the per-run cap and the target's free room,
/// never takes the local log below the settle floor, and moves something
/// whenever the log is above the floor and the cap and room allow any.
pub proof fn lemma_migration_bounds(log: TxLog)
    requires
        log.archives@.len() > 0,
        log.archives@.last().length < log.setting.max_records_in_archive_instance,
    ensures
        log.migration_size() <= log.setting.max_records_to_archive,
        log.migration_size() <= log.setting.max_records_in_archive_instance - log.archives@.last().length,
        log.migration_size() <= excess(log.blocks@.len(), log.setting.settle_to_records),
        log.blocks@.len() >= log.setting.settle_to_records ==> log.blocks@.len() - log.migration_size()
            >= log.setting.settle_to_records,
        (log.blocks@.len() > log.setting.settle_to_records && log.setting.max_records_to_archive > 0)
            ==> log.migration_size() > 0,
{
}

/// The sum of the lengths of a list of ranges.
pub open spec fn total_length(parts: Seq<(u128, u128)>) -> nat
    decreases parts.len(),
{
    if parts.len() == 0 {
        0
    } else {
        total_length(parts.drop_last()) + parts.last().1 as nat
    }
}

/// The sum of the lengths of all redirects' ranges.
pub open spec fn redirected_length(rs: Seq<(Seq<u8>, Seq<(u128, u128)>)>) -> nat
    decreases rs.len(),
{
    if rs.len() == 0 {
        0
    } else {
        redirected_length(rs.drop_last()) + total_length(rs.last().1)
    }
}

/// How many indices of `[lo, hi)` lie in `[a, b)`.
pub open spec fn overlap(lo: nat, hi: nat, a: nat, b: nat) -> nat {
    let x = max_nat(lo, a);
    let y = min_nat(hi, b);
    if x < y {
        (y - x) as nat
    } else {
        0
    }
}

proof fn lemma_single_request_parts(e: ArchiveEntry, r: TransactionRange)
    requires
        e.start + e.length <= u128::MAX,
    ensures
        total_length(archive_parts(e, seq![r])) == overlap(
            r.start as nat,
            (r.start + r.length) as nat,
            e.start as nat,
            (e.start + e.length) as nat,
        ),
{
    let reqs = seq![r];
    assert(reqs.drop_last() =~= Seq::<TransactionRange>::empty());
    assert(reqs.last() == r);
    let prev = archive_parts(e, reqs.drop_last());
    assert(prev.len() == 0);
    match archive_part(e, r) {
        Some(p) => {
            assert(archive_parts(e, reqs) == prev.push(p));
            assert(prev.push(p).drop_last() =~= prev);
            assert(prev.push(p).last() == p);
            assert(total_length(prev) == 0);
            assert(total_length(prev.push(p)) == total_length(prev) + p.1 as nat);
        },
        None => {
            assert(archive_parts(e, reqs) == prev);
            assert(total_length(prev) == 0);
        },
    }
}

proof fn lemma_redirects_sum(archives: Seq<ArchiveEntry>, first_index: u128, r: TransactionRange)
    requires
        archives_partition(archives, first_index),
    ensures
        redirected_length(redirects(archives, seq![r])) == overlap(
            r.start as nat,
            (r.start + r.length) as nat,
            0,
            first_index as nat,
        ),
    decreases archives.len(),
{
    let lo = r.start as nat;
    let hi = (r.start + r.length) as nat;
    if archives.len() == 0 {
    } else {
        let n = archives.len() as int;
        let front = archives.drop_last();
        let e = archives.last();
        assert(adjacent(archives, n - 1));
        assert(archives_partition(front, e.start)) by {
            assert forall|k: int| 0 <= k < front.len() implies #[trigger] adjacent(front, k) by {
                assert(adjacent(archives, k));
                assert(front[k] == archives[k]);
                if k > 0 {
                    assert(front[k - 1] == archives[k - 1]);
                }
            }
            assert forall|k: int| 0 <= k < front.len() implies #[trigger] front[k].start
                + front[k].length <= u128::MAX by {
                assert(front[k] == archives[k]);
            }
            if front.len() > 0 {
                assert(front.last() == archives[n - 2]);
            }
        }
        lemma_redirects_sum(front, e.start, r);
        assert(archives[n - 1].start + archives[n - 1].length <= u128::MAX);
        lemma_single_request_parts(e, r);
        let parts = archive_parts(e, seq![r]);
        if parts.len() > 0 {
            let rs = redirects(archives, seq![r]);
            assert(rs == redirects(front, seq![r]).push((e.archive_id@, parts)));
            assert(rs.drop_last() =~= redirects(front, seq![r]));
        } else {
            assert(total_length(parts) == 0);
        }
        assert(overlap(lo, hi, 0, e.start as nat) + overlap(lo, hi, e.start as nat, (e.start + e.length) as nat)
            == overlap(lo, hi, 0, first_index as nat));
    }
}

/// Redirects cover exactly the archived part of a request: over all
/// redirects the ranges add up to the number of requested indices below
/// the first local one.
pub proof fn lemma_redirects_cover_archived_part(log: TxLog, r: TransactionRange)
    requires
        log.wf(),
    ensures
        redirected_length(redirects(log.archives@, seq![r])) == overlap(
            r.start as nat,
            (r.start + r.length) as nat,
            0,
            log.first_index as nat,
        ),
{
    lemma_redirects_sum(log.archives@, log.first_index, r);
}

} // verus!
