use vstd::prelude::*;
use crate::account::{bytes_eq, copy_opt_account, copy_opt_bytes, opt_account_view, opt_bytes_view, Account};
use crate::types::{copy_metadata, meta_view, MetaView, Metadata};
use crate::certify::{block_hash, certified_tip_root, hash_block, tip_root};

verus! {

/// The operation that a transaction records, with the fields of that kind.
#[derive(Clone, Debug)]
pub enum TxOp {
    Mint { tid: u128, from: Account, to: Account, meta: Metadata },
    Transfer { tid: u128, from: Account, to: Account },
    TransferFrom { tid: u128, from: Account, to: Account, spender: Account },
    Burn { tid: u128, from: Account, to: Account },
    Approve { tid: u128, from: Account, spender: Account, expires_at: Option<u64> },
    ApproveCollection { from: Account, spender: Account, expires_at: Option<u64> },
    Revoke { tid: u128, from: Account, spender: Option<Account> },
    RevokeCollection { from: Account, spender: Option<Account> },
}

pub enum OpView {
    Mint { tid: u128, from: (Seq<u8>, Seq<u8>), to: (Seq<u8>, Seq<u8>), meta: Seq<(Seq<char>, MetaView)> },
    Transfer { tid: u128, from: (Seq<u8>, Seq<u8>), to: (Seq<u8>, Seq<u8>) },
    TransferFrom {
        tid: u128,
        from: (Seq<u8>, Seq<u8>),
        to: (Seq<u8>, Seq<u8>),
        spender: (Seq<u8>, Seq<u8>),
    },
    Burn { tid: u128, from: (Seq<u8>, Seq<u8>), to: (Seq<u8>, Seq<u8>) },
    Approve {
        tid: u128,
        from: (Seq<u8>, Seq<u8>),
        spender: (Seq<u8>, Seq<u8>),
        expires_at: Option<u64>,
    },
    ApproveCollection { from: (Seq<u8>, Seq<u8>), spender: (Seq<u8>, Seq<u8>), expires_at: Option<u64> },
    Revoke { tid: u128, from: (Seq<u8>, Seq<u8>), spender: Option<(Seq<u8>, Seq<u8>)> },
    RevokeCollection { from: (Seq<u8>, Seq<u8>), spender: Option<(Seq<u8>, Seq<u8>)> },
}

impl View for TxOp {
    type V = OpView;

    open spec fn view(&self) -> OpView {
        match self {
            TxOp::Mint { tid, from, to, meta } => OpView::Mint {
                tid: *tid,
                from: from@,
                to: to@,
                meta: meta_view(meta@),
            },
            TxOp::Transfer { tid, from, to } => OpView::Transfer { tid: *tid, from: from@, to: to@ },
            TxOp::TransferFrom { tid, from, to, spender } => OpView::TransferFrom {
                tid: *tid,
                from: from@,
                to: to@,
                spender: spender@,
            },
            TxOp::Burn { tid, from, to } => OpView::Burn { tid: *tid, from: from@, to: to@ },
            TxOp::Approve { tid, from, spender, expires_at } => OpView::Approve {
                tid: *tid,
                from: from@,
                spender: spender@,
                expires_at: *expires_at,
            },
            TxOp::ApproveCollection { from, spender, expires_at } => OpView::ApproveCollection {
                from: from@,
                spender: spender@,
                expires_at: *expires_at,
            },
            TxOp::Revoke { tid, from, spender } => OpView::Revoke {
                tid: *tid,
                from: from@,
                spender: opt_account_view(*spender),
            },
            TxOp::RevokeCollection { from, spender } => OpView::RevokeCollection {
                from: from@,
                spender: opt_account_view(*spender),
            },
        }
    }
}

impl TxOp {
    pub fn duplicate(&self) -> (r: TxOp)
        ensures
            r@ == self@,
    {
        match self {
            TxOp::Mint { tid, from, to, meta } => TxOp::Mint {
                tid: *tid,
                from: from.duplicate(),
                to: to.duplicate(),
                meta: copy_metadata(meta),
            },
            TxOp::Transfer { tid, from, to } => TxOp::Transfer {
                tid: *tid,
                from: from.duplicate(),
                to: to.duplicate(),
            },
            TxOp::TransferFrom { tid, from, to, spender } => TxOp::TransferFrom {
                tid: *tid,
                from: from.duplicate(),
                to: to.duplicate(),
                spender: spender.duplicate(),
            },
            TxOp::Burn { tid, from, to } => TxOp::Burn {
                tid: *tid,
                from: from.duplicate(),
                to: to.duplicate(),
            },
            TxOp::Approve { tid, from, spender, expires_at } => TxOp::Approve {
                tid: *tid,
                from: from.duplicate(),
                spender: spender.duplicate(),
                expires_at: *expires_at,
            },
            TxOp::ApproveCollection { from, spender, expires_at } => TxOp::ApproveCollection {
                from: from.duplicate(),
                spender: spender.duplicate(),
                expires_at: *expires_at,
            },
            TxOp::Revoke { tid, from, spender } => TxOp::Revoke {
                tid: *tid,
                from: from.duplicate(),
                spender: copy_opt_account(spender),
            },
            TxOp::RevokeCollection { from, spender } => TxOp::RevokeCollection {
                from: from.duplicate(),
                spender: copy_opt_account(spender),
            },
        }
    }
}

/// Whether the operation moves a token between accounts; only those take
/// part in duplicate detection.
pub open spec fn is_transfer_class(op: OpView) -> bool {
    match op {
        OpView::Transfer { .. } | OpView::TransferFrom { .. } => true,
        _ => false,
    }
}

/// An immutable record of one committed operation.
#[derive(Clone, Debug)]
pub struct Transaction {
    pub id: u128,
    pub op: TxOp,
    pub ts: u64,
    pub memo: Option<Vec<u8>>,
}

pub struct TxView {
    pub id: u128,
    pub op: OpView,
    pub ts: u64,
    pub memo: Option<Seq<u8>>,
}

impl View for Transaction {
    type V = TxView;

    open spec fn view(&self) -> TxView {
        TxView { id: self.id, op: self.op@, ts: self.ts, memo: opt_bytes_view(self.memo) }
    }
}

impl Transaction {
    pub fn duplicate(&self) -> (r: Transaction)
        ensures
            r@ == self@,
    {
        Transaction {
            id: self.id,
            op: self.op.duplicate(),
            ts: self.ts,
            memo: copy_opt_bytes(&self.memo),
        }
    }
}

/// A transaction chained to the hash of the block before it.
#[derive(Clone, Debug)]
pub struct Block {
    pub parent_hash: Option<Vec<u8>>,
    pub tx: Transaction,
}

pub struct BlockView {
    pub parent_hash: Option<Seq<u8>>,
    pub tx: TxView,
}

impl View for Block {
    type V = BlockView;

    open spec fn view(&self) -> BlockView {
        BlockView { parent_hash: opt_bytes_view(self.parent_hash), tx: self.tx@ }
    }
}

impl Block {
    pub fn duplicate(&self) -> (r: Block)
        ensures
            r@ == self@,
    {
        Block { parent_hash: copy_opt_bytes(&self.parent_hash), tx: self.tx.duplicate() }
    }
}

/// The contiguous range of log indices that one archive instance holds.
#[derive(Clone, Debug)]
pub struct ArchiveEntry {
    pub archive_id: Vec<u8>,
    pub start: u128,
    pub length: u128,
}

/// The archival policy.
#[derive(Clone, Copy, Debug)]
pub struct ArchiveSetting {
    /// Above this many local entries an archival run is scheduled.
    pub max_active_records: u128,
    /// A run moves entries out only down to this many.
    pub settle_to_records: u128,
    /// The most entries that one archive instance holds.
    pub max_records_in_archive_instance: u128,
    /// The most entries that one run moves.
    pub max_records_to_archive: u128,
    /// The resource cost of provisioning one archive instance.
    pub archive_cycles: u128,
    /// Passed on to a new archive instance.
    pub max_archive_pages: u128,
}

/// The hash-chained transaction log: the entries still held locally, the
/// archive instances that hold the older ones, and the certified tip.
pub struct TxLog {
    /// Local blocks, by ascending sequence id from `first_index`.
    pub blocks: Vec<Block>,
    /// The next sequence id to assign: every id below it was assigned once.
    pub txn_count: u128,
    /// The sequence id of the oldest block held locally.
    pub first_index: u128,
    /// The hash of the most recent block, once there is one.
    pub latest_hash: Option<Vec<u8>>,
    /// Archive instances in the order in which they were provisioned.
    pub archives: Vec<ArchiveEntry>,
    /// Whether an archival run is under way.
    pub is_cleaning: bool,
    pub setting: ArchiveSetting,
    /// The root hash that certifies the tip, to be published.
    pub certified_root: Option<Vec<u8>>,
}

/// The index one past the last one that the archives hold.
pub open spec fn archived_end(archives: Seq<ArchiveEntry>) -> nat {
    if archives.len() == 0 {
        0
    } else {
        (archives.last().start + archives.last().length) as nat
    }
}

/// Archive `k` starts where the one before it ends, the first at 0.
pub open spec fn adjacent(archives: Seq<ArchiveEntry>, k: int) -> bool {
    archives[k].start == (if k == 0 { 0 } else { archives[k - 1].start + archives[k - 1].length })
}

/// The archives hold adjacent ranges from index 0, in order, and the last
/// of them ends where the local blocks begin.
pub open spec fn archives_partition(archives: Seq<ArchiveEntry>, first_index: u128) -> bool {
    &&& forall|k: int| 0 <= k < archives.len() ==> #[trigger] adjacent(archives, k)
    &&& forall|k: int| 0 <= k < archives.len() ==> #[trigger] archives[k].start + archives[k].length <= u128::MAX
    &&& archived_end(archives) == first_index
}

/// Each block's parent hash is the hash of the block before it.
pub open spec fn chained(blocks: Seq<BlockView>) -> bool {
    forall|i: int| 0 < i < blocks.len() ==> #[trigger] blocks[i].parent_hash == Some(
        block_hash(blocks[i - 1]),
    )
}

pub open spec fn blocks_view(blocks: Seq<Block>) -> Seq<BlockView> {
    blocks.map_values(|b: Block| b@)
}

impl TxLog {
    pub open spec fn local_len(&self) -> nat {
        self.blocks@.len()
    }

    /// The log's invariant.
    pub open spec fn wf(&self) -> bool {
        &&& self.first_index + self.blocks@.len() == self.txn_count
        &&& forall|i: int| 0 <= i < self.blocks@.len() ==> #[trigger] self.blocks@[i].tx.id == self.first_index + i
        &&& chained(blocks_view(self.blocks@))
        &&& (self.first_index == 0 && self.blocks@.len() > 0) ==> self.blocks@[0]@.parent_hash is None
        &&& (self.txn_count == 0 <==> self.latest_hash is None)
        &&& self.blocks@.len() > 0 ==> opt_bytes_view(self.latest_hash) == Some(
            block_hash(self.blocks@.last()@),
        )
        &&& (self.latest_hash matches Some(h) ==> h@.len() == 32)
        &&& archives_partition(self.archives@, self.first_index)
    }

    /// An empty log with the given archival policy.
    pub fn new(setting: ArchiveSetting) -> (r: TxLog)
        ensures
            r.wf(),
            r.txn_count == 0,
            r.blocks@.len() == 0,
            r.archives@.len() == 0,
            !r.is_cleaning,
            r.setting == setting,
    {
        TxLog {
            blocks: Vec::new(),
            txn_count: 0,
            first_index: 0,
            latest_hash: None,
            archives: Vec::new(),
            is_cleaning: false,
            setting,
            certified_root: None,
        }
    }

    /// Appends a transaction under the next sequence id, chained to the
    /// previous tip, and certifies the new tip.
    pub fn append(&mut self, op: TxOp, ts: u64, memo: Option<Vec<u8>>) -> (id: u128)
        requires
            old(self).wf(),
            old(self).txn_count < u128::MAX,
        ensures
            final(self).wf(),
            id == old(self).txn_count,
            final(self).txn_count == old(self).txn_count + 1,
            final(self).blocks@.len() == old(self).blocks@.len() + 1,
            final(self).blocks@.drop_last() == old(self).blocks@,
            final(self).blocks@.last()@ == (BlockView {
                parent_hash: opt_bytes_view(old(self).latest_hash),
                tx: TxView { id, op: op@, ts, memo: opt_bytes_view(memo) },
            }),
            final(self).first_index == old(self).first_index,
            final(self).archives@ == old(self).archives@,
            final(self).is_cleaning == old(self).is_cleaning,
            final(self).setting == old(self).setting,
            opt_bytes_view(final(self).certified_root) == Some(
                tip_root(id, block_hash(final(self).blocks@.last()@)),
            ),
    {
        let id = self.txn_count;
        let parent = copy_opt_bytes(&self.latest_hash);
        let block = Block { parent_hash: parent, tx: Transaction { id, op, ts, memo } };
        let h = hash_block(&block);
        let root = certified_tip_root(id, &h);
        let ghost old_blocks = self.blocks@;
        self.blocks.push(block);
        self.txn_count = id + 1;
        self.latest_hash = Some(h);
        self.certified_root = Some(root);
        proof {
            let bv = blocks_view(self.blocks@);
            let obv = blocks_view(old_blocks);
            assert(bv.drop_last() =~= obv);
            assert forall|i: int| 0 < i < bv.len() implies #[trigger] bv[i].parent_hash == Some(
                block_hash(bv[i - 1]),
            ) by {
                if i < bv.len() - 1 {
                    assert(bv[i] == obv[i]);
                    assert(bv[i - 1] == obv[i - 1]);
                } else if i > 0 {
                    assert(old_blocks.len() > 0);
                    assert(bv[i - 1] == old_blocks.last()@);
                }
            }
            assert(self.blocks@.drop_last() =~= old_blocks);
        }
        id
    }

    /// Whether the local log has outgrown its bound and no archival run is
    /// under way, so that one should be scheduled.
    pub fn needs_archiving(&self) -> (r: bool)
        ensures
            r == (self.blocks@.len() > self.setting.max_active_records && !self.is_cleaning),
    {
        self.blocks.len() as u128 > self.setting.max_active_records && !self.is_cleaning
    }
}

/// Whether a logged transaction is a transfer of `tid` from `from` to `to`
/// with this memo, created at `ts`.
pub open spec fn same_transfer(
    tx: TxView,
    tid: u128,
    from: (Seq<u8>, Seq<u8>),
    to: (Seq<u8>, Seq<u8>),
    memo: Option<Seq<u8>>,
    ts: u64,
) -> bool {
    &&& tx.ts == ts
    &&& tx.memo == memo
    &&& match tx.op {
        OpView::Transfer { tid: t, from: f, to: r } => t == tid && f == from && r == to,
        OpView::TransferFrom { tid: t, from: f, to: r, .. } => t == tid && f == from && r == to,
        _ => false,
    }
}

/// The sequence id of the most recent matching transfer, scanning back from
/// the newest block and stopping at the first one older than `floor`.
pub open spec fn scan_duplicate(
    blocks: Seq<BlockView>,
    floor: u64,
    tid: u128,
    from: (Seq<u8>, Seq<u8>),
    to: (Seq<u8>, Seq<u8>),
    memo: Option<Seq<u8>>,
    ts: u64,
) -> Option<u128>
    decreases blocks.len(),
{
    if blocks.len() == 0 {
        None
    } else if blocks.last().tx.ts < floor {
        None
    } else if same_transfer(blocks.last().tx, tid, from, to, memo, ts) {
        Some(blocks.last().tx.id)
    } else {
        scan_duplicate(blocks.drop_last(), floor, tid, from, to, memo, ts)
    }
}

/// Compares two optional byte strings.
pub fn opt_bytes_eq(a: &Option<Vec<u8>>, b: &Option<Vec<u8>>) -> (r: bool)
    ensures
        r == (opt_bytes_view(*a) == opt_bytes_view(*b)),
{
    match (a, b) {
        (None, None) => true,
        (Some(x), Some(y)) => bytes_eq(x, y),
        _ => false,
    }
}

fn is_same_transfer(
    tx: &Transaction,
    tid: u128,
    from: &Account,
    to: &Account,
    memo: &Option<Vec<u8>>,
    ts: u64,
) -> (r: bool)
    ensures
        r == same_transfer(tx@, tid, from@, to@, opt_bytes_view(*memo), ts),
{
    if tx.ts != ts || !opt_bytes_eq(&tx.memo, memo) {
        return false;
    }
    match &tx.op {
        TxOp::Transfer { tid: t, from: f, to: r } => *t == tid && f.same(from) && r.same(to),
        TxOp::TransferFrom { tid: t, from: f, to: r, .. } => *t == tid && f.same(from) && r.same(
            to,
        ),
        _ => false,
    }
}

impl TxLog {
    /// Looks for an earlier identical transfer inside the replay window.
    pub fn find_duplicate(
        &self,
        floor: u64,
        tid: u128,
        from: &Account,
        to: &Account,
        memo: &Option<Vec<u8>>,
        ts: u64,
    ) -> (r: Option<u128>)
        ensures
            r == scan_duplicate(
                blocks_view(self.blocks@),
                floor,
                tid,
                from@,
                to@,
                opt_bytes_view(*memo),
                ts,
            ),
    {
        let ghost bv = blocks_view(self.blocks@);
        let mut i: usize = self.blocks.len();
        assert(bv.take(i as int) =~= bv);
        while i > 0
            invariant
                i <= self.blocks@.len(),
                bv == blocks_view(self.blocks@),
                scan_duplicate(bv, floor, tid, from@, to@, opt_bytes_view(*memo), ts)
                    == scan_duplicate(bv.take(i as int), floor, tid, from@, to@, opt_bytes_view(*memo), ts),
            decreases i,
        {
            let b = &self.blocks[i - 1];
            let ghost pre = bv.take(i as int);
            assert(pre.last() == b@);
            assert(pre.drop_last() =~= bv.take(i - 1));
            if b.tx.ts < floor {
                return None;
            }
            if is_same_transfer(&b.tx, tid, from, to, memo, ts) {
                return Some(b.tx.id);
            }
            i = i - 1;
        }
        None
    }
}

/// Chain integrity: in a well-formed log every local block names the hash
/// of the block before it as its parent, and the first block of all has no
/// parent.
pub proof fn lemma_chain_integrity(log: TxLog)
    requires
        log.wf(),
    ensures
        forall|i: int| 0 < i < log.blocks@.len() ==> #[trigger] log.blocks@[i]@.parent_hash == Some(
            block_hash(log.blocks@[i - 1]@),
        ),
        log.first_index == 0 && log.blocks@.len() > 0 ==> log.blocks@[0]@.parent_hash is None,
        log.blocks@.len() > 0 ==> opt_bytes_view(log.latest_hash) == Some(
            block_hash(log.blocks@.last()@),
        ),
{
    assert forall|i: int| 0 < i < log.blocks@.len() implies #[trigger] log.blocks@[i]@.parent_hash
        == Some(block_hash(log.blocks@[i - 1]@)) by {
        assert(blocks_view(log.blocks@)[i] == log.blocks@[i]@);
    }
}

/// Sequence ids: the local blocks carry consecutive ids that end just below
/// the counter, so they rise strictly with no gap, and the next id handed
/// out is above all of them.
pub proof fn lemma_sequence_ids(log: TxLog)
    requires
        log.wf(),
    ensures
        forall|i: int, j: int| 0 <= i < j < log.blocks@.len() ==> #[trigger] log.blocks@[i].tx.id < #[trigger] log.blocks@[j].tx.id,
        forall|i: int| 0 < i < log.blocks@.len() ==> #[trigger] log.blocks@[i].tx.id == log.blocks@[i - 1].tx.id + 1,
        forall|i: int| 0 <= i < log.blocks@.len() ==> #[trigger] log.blocks@[i].tx.id < log.txn_count,
        log.blocks@.len() > 0 ==> log.blocks@[0].tx.id == log.first_index,
{
    assert forall|i: int, j: int| 0 <= i < j < log.blocks@.len() implies #[trigger] log.blocks@[i].tx.id < #[trigger] log.blocks@[j].tx.id by {
        assert(log.blocks@[i].tx.id == log.first_index + i);
    }
}

/// Appending keeps the ids consecutive: the new block's id is the old
/// counter, one above the previous newest block's.
pub proof fn lemma_append_continues_ids(before: TxLog, after: TxLog, id: u128)
    requires
        before.wf(),
        after.wf(),
        after.blocks@.drop_last() == before.blocks@,
        after.blocks@.len() == before.blocks@.len() + 1,
        after.first_index == before.first_index,
        id == before.txn_count,
    ensures
        after.blocks@.last().tx.id == id,
        before.blocks@.len() > 0 ==> id == before.blocks@.last().tx.id + 1,
        after.txn_count == id + 1,
{
    assert(after.blocks@[after.blocks@.len() - 1].tx.id == after.first_index + before.blocks@.len());
    if before.blocks@.len() > 0 {
        assert(before.blocks@.last() == after.blocks@[before.blocks@.len() - 1]);
    }
}

} // verus!
