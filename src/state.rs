//! The ledger's state: configuration, the ownership store, the approval
//! records and the transaction log.
use std::collections::HashMap;
use vstd::prelude::*;
use vstd::string::StringExecFns;
use crate::account::{copy_opt_bytes, opt_account_view, Account};
use crate::txlog::{blocks_view, BlockView, TxLog, TxView};
use crate::types::{
    copy_metadata, copy_opt_text, meta_view, opt_text_view, ApprovalInfo, ApprovalView, MetaValue,
    MetaView, Metadata,
};

verus! {

broadcast use vstd::std_specs::hash::group_hash_axioms;

pub const DEFAULT_MAX_QUERY_BATCH_SIZE: u16 = 32;

pub const DEFAULT_MAX_UPDATE_BATCH_SIZE: u16 = 32;

pub const DEFAULT_TAKE_VALUE: u128 = 32;

pub const DEFAULT_MAX_TAKE_VALUE: u128 = 32;

pub const DEFAULT_MAX_MEMO_SIZE: u32 = 32;

/// One day, in nanoseconds.
pub const DEFAULT_TX_WINDOW: u64 = 86_400_000_000_000;

/// Two minutes, in nanoseconds.
pub const DEFAULT_PERMITTED_DRIFT: u64 = 120_000_000_000;

pub type AccountView = (Seq<u8>, Seq<u8>);

/// An attribute list with `key` set to `v`: any earlier entry of the key
/// goes, and the new one comes last.
pub open spec fn meta_set(m: Seq<(Seq<char>, MetaView)>, key: Seq<char>, v: MetaView) -> Seq<
    (Seq<char>, MetaView),
> {
    m.filter(other_key(key)).push((key, v))
}

/// Holds of the entries whose key is not `key`.
pub open spec fn other_key(key: Seq<char>) -> spec_fn((Seq<char>, MetaView)) -> bool {
    |e: (Seq<char>, MetaView)| e.0 != key
}

/// Sets `key` to `v` in an attribute list.
pub fn set_meta(m: Metadata, key: String, v: MetaValue) -> (r: Metadata)
    ensures
        meta_view(r@) == meta_set(meta_view(m@), key@, v@),
{
    let ghost orig = m@;
    let ghost p = other_key(key@);
    let mut rest = m;
    let mut out: Metadata = Vec::new();
    while rest.len() > 0
        invariant
            p == other_key(key@),
            meta_view(orig) == meta_view(orig.take(orig.len() - rest@.len())) + meta_view(rest@),
            rest@ == orig.skip(orig.len() - rest@.len()),
            rest@.len() <= orig.len(),
            meta_view(out@) == meta_view(orig.take(orig.len() - rest@.len())).filter(p),
        decreases rest@.len(),
    {
        let ghost i = orig.len() - rest@.len();
        let e = rest.remove(0);
        let ghost ev = (e.0@, e.1@);
        assert(orig[i] == e);
        proof {
            assert(orig.take(i + 1) =~= orig.take(i).push(e));
            assert(meta_view(orig.take(i + 1)) =~= meta_view(orig.take(i)).push(ev));
            meta_view(orig.take(i)).lemma_filter_push(ev, p);
            assert(rest@ =~= orig.skip(i + 1));
        }
        let keep = !(e.0 == key);
        if keep {
            let ghost prev = out@;
            out.push(e);
            assert(meta_view(out@) =~= meta_view(prev).push(ev));
        }
        assert(p(ev) == keep);
    }
    assert(orig.take(orig.len() as int) =~= orig);
    let ghost prev = out@;
    let kv = (key, v);
    out.push(kv);
    assert(meta_view(out@) =~= meta_view(prev).push((kv.0@, kv.1@)));
    out
}

/// A token: its id, display name, optional description and logo, owner
/// and open-ended attributes.
#[derive(Clone, Debug)]
pub struct Icrc7Token {
    pub token_id: u128,
    pub token_name: String,
    pub token_description: Option<String>,
    pub token_logo: Option<String>,
    pub token_owner: Account,
    pub extra_data: Metadata,
}

/// What a token's metadata holds: its attributes, then its name under
/// "Name" and "Symbol", and its description and logo where it has them.
pub open spec fn token_metadata_view(t: Icrc7Token) -> Seq<(Seq<char>, MetaView)> {
    let m0 = meta_view(t.extra_data@);
    let m1 = meta_set(m0, "Name"@, MetaView::Text(t.token_name@));
    let m2 = meta_set(m1, "Symbol"@, MetaView::Text(t.token_name@));
    let m3 = match t.token_description {
        Some(d) => meta_set(m2, "Description"@, MetaView::Text(d@)),
        None => m2,
    };
    match t.token_logo {
        Some(l) => meta_set(m3, "Logo"@, MetaView::Text(l@)),
        None => m3,
    }
}

impl Icrc7Token {
    pub fn new(
        token_id: u128,
        token_name: String,
        token_description: Option<String>,
        token_logo: Option<String>,
        token_owner: Account,
        extra_data: Metadata,
    ) -> (r: Icrc7Token)
        ensures
            r == (Icrc7Token {
                token_id,
                token_name,
                token_description,
                token_logo,
                token_owner,
                extra_data,
            }),
    {
        Icrc7Token { token_id, token_name, token_description, token_logo, token_owner, extra_data }
    }

    /// Hands the token to a new owner.
    pub fn transfer(&mut self, to: Account)
        ensures
            *final(self) == (Icrc7Token { token_owner: to, ..*old(self) }),
    {
        self.token_owner = to;
    }

    /// Hands the token to the burn account.
    pub fn burn(&mut self, burn_address: Account)
        ensures
            *final(self) == (Icrc7Token { token_owner: burn_address, ..*old(self) }),
    {
        self.token_owner = burn_address;
    }

    /// The token's metadata.
    pub fn token_metadata(&self) -> (r: Metadata)
        ensures
            meta_view(r@) == token_metadata_view(*self),
    {
        let m = copy_metadata(&self.extra_data);
        let m = set_meta(m, String::from_str("Name"), MetaValue::Text(self.token_name.clone()));
        let m = set_meta(m, String::from_str("Symbol"), MetaValue::Text(self.token_name.clone()));
        let m = match &self.token_description {
            Some(d) => set_meta(m, String::from_str("Description"), MetaValue::Text(d.clone())),
            None => m,
        };
        match &self.token_logo {
            Some(l) => set_meta(m, String::from_str("Logo"), MetaValue::Text(l.clone())),
            None => m,
        }
    }
}

/// An approval as the ledger stores it: who granted it, and its details.
#[derive(Clone, Debug)]
pub struct ApprovalRecord {
    pub owner: Account,
    pub info: ApprovalInfo,
}

pub type RecordView = (AccountView, ApprovalView);

impl View for ApprovalRecord {
    type V = RecordView;

    open spec fn view(&self) -> RecordView {
        (self.owner@, self.info@)
    }
}

pub open spec fn records_view(v: Seq<ApprovalRecord>) -> Seq<RecordView> {
    v.map_values(|r: ApprovalRecord| r@)
}

/// Limits advertised for approvals.
#[derive(Clone, Copy, Debug)]
pub struct LedgerInfo {
    pub max_approvals_per_token_or_collection: u128,
    pub max_revoke_approvals: u128,
}

/// The ledger's state.
pub struct State {
    pub minting_authority: Option<Account>,
    pub icrc7_symbol: String,
    pub icrc7_name: String,
    pub icrc7_description: Option<String>,
    pub icrc7_logo: Option<String>,
    pub icrc7_total_supply: u128,
    pub icrc7_supply_cap: Option<u128>,
    pub icrc7_max_query_batch_size: Option<u16>,
    pub icrc7_max_update_batch_size: Option<u16>,
    pub icrc7_max_take_value: Option<u128>,
    pub icrc7_default_take_value: Option<u128>,
    pub icrc7_max_memo_size: Option<u32>,
    pub icrc7_atomic_batch_transfers: Option<bool>,
    pub tx_window: Option<u64>,
    pub permitted_drift: Option<u64>,
    /// The account that burned tokens are handed to.
    pub burn_address: Account,
    /// Tokens by id.
    pub tokens: HashMap<u128, Icrc7Token>,
    /// The ids of all tokens, ascending.
    pub token_ids: Vec<u128>,
    /// The least id that the next mint may use.
    pub next_token_id: u128,
    pub approval_ledger_info: LedgerInfo,
    /// Token-level approvals by token id.
    pub token_approvals: HashMap<u128, Vec<ApprovalRecord>>,
    /// Collection-level approvals.
    pub collection_approvals: Vec<ApprovalRecord>,
    pub txn_log: TxLog,
    pub archive_log_canister: Option<Vec<u8>>,
    pub sync_pending_txn_ids: Option<Vec<u128>>,
}

/// The state as the operations see it: who owns each token, the approvals,
/// the locally held transactions and the counter.
pub struct LedgerModel {
    pub owners: Map<u128, AccountView>,
    pub token_approvals: Map<u128, Seq<RecordView>>,
    pub collection_approvals: Seq<RecordView>,
    pub txs: Seq<TxView>,
    pub txn_count: u128,
}

pub open spec fn txs_view(blocks: Seq<BlockView>) -> Seq<TxView> {
    blocks.map_values(|b: BlockView| b.tx)
}

/// The default subaccount: 32 zero bytes.
pub open spec fn default_subaccount() -> Seq<u8> {
    Seq::new(32, |i: int| 0u8)
}

/// The account of a principal with an optional subaccount.
pub open spec fn account_of(principal: Seq<u8>, sub: Option<Seq<u8>>) -> AccountView {
    (principal, match sub {
        Some(s) => s,
        None => default_subaccount(),
    })
}

/// The account of a caller with an optional subaccount.
pub fn caller_account(principal: &Vec<u8>, sub: &Option<Vec<u8>>) -> (r: Account)
    ensures
        r@ == account_of(principal@, crate::account::opt_bytes_view(*sub)),
{
    let subaccount = match sub {
        Some(s) => crate::account::copy_bytes(s),
        None => {
            let v: Vec<u8> = vec![0u8; 32];
            assert(v@ =~= default_subaccount());
            v
        },
    };
    Account { owner: crate::account::copy_bytes(principal), subaccount }
}

/// The number of the listed ids whose token `account` owns.
pub open spec fn owned_count(ids: Seq<u128>, owners: Map<u128, AccountView>, account: AccountView) -> nat
    decreases ids.len(),
{
    if ids.len() == 0 {
        0
    } else {
        owned_count(ids.drop_last(), owners, account) + if owners.contains_key(ids.last())
            && owners[ids.last()] == account {
            1nat
        } else {
            0nat
        }
    }
}

/// Whether an unexpired approval of `owner` for `spender` is among `records`.
pub open spec fn approved_in(
    records: Seq<RecordView>,
    owner: AccountView,
    spender: AccountView,
    now: u64,
) -> bool {
    exists|i: int|
        0 <= i < records.len() && #[trigger] records[i].0 == owner && records[i].1.spender == spender
            && crate::types::unexpired(records[i].1.expires_at, now)
}

impl LedgerModel {
    /// Whether `spender` may move token `tid` of `owner` under a token-level
    /// approval.
    pub open spec fn approved_by_token(self, tid: u128, owner: AccountView, spender: AccountView, now: u64) -> bool {
        self.token_approvals.contains_key(tid) && approved_in(
            self.token_approvals[tid],
            owner,
            spender,
            now,
        )
    }

    /// Whether `spender` may move any token of `owner` under a
    /// collection-level approval.
    pub open spec fn approved_by_collection(self, owner: AccountView, spender: AccountView, now: u64) -> bool {
        approved_in(self.collection_approvals, owner, spender, now)
    }
}

impl State {
    /// The ledger's invariant.
    pub open spec fn wf(&self) -> bool {
        &&& self.txn_log.wf()
        &&& forall|i: int, j: int| 0 <= i < j < self.token_ids@.len() ==> #[trigger] self.token_ids@[i] < #[trigger] self.token_ids@[j]
        &&& forall|i: int| 0 <= i < self.token_ids@.len() ==> self.tokens@.contains_key(#[trigger] self.token_ids@[i])
        &&& forall|id: u128| #[trigger] self.tokens@.contains_key(id) ==> self.token_ids@.contains(id)
        &&& forall|id: u128| #[trigger] self.tokens@.contains_key(id) ==> self.tokens@[id].token_id == id && id < self.next_token_id
        &&& self.icrc7_total_supply == self.token_ids@.len()
    }

    pub open spec fn model(&self) -> LedgerModel {
        LedgerModel {
            owners: self.tokens@.map_values(|t: Icrc7Token| t.token_owner@),
            token_approvals: self.token_approvals@.map_values(|v: Vec<ApprovalRecord>| records_view(v@)),
            collection_approvals: records_view(self.collection_approvals@),
            txs: txs_view(blocks_view(self.txn_log.blocks@)),
            txn_count: self.txn_log.txn_count,
        }
    }

    pub open spec fn max_memo(&self) -> nat {
        match self.icrc7_max_memo_size {
            Some(m) => m as nat,
            None => DEFAULT_MAX_MEMO_SIZE as nat,
        }
    }

    pub open spec fn max_update_batch(&self) -> nat {
        match self.icrc7_max_update_batch_size {
            Some(m) => m as nat,
            None => DEFAULT_MAX_UPDATE_BATCH_SIZE as nat,
        }
    }

    pub open spec fn max_query_batch(&self) -> nat {
        match self.icrc7_max_query_batch_size {
            Some(m) => m as nat,
            None => DEFAULT_MAX_QUERY_BATCH_SIZE as nat,
        }
    }

    /// A ledger with no tokens, approvals or history, the given archival
    /// policy and burn account, and default settings otherwise.
    pub fn new(setting: crate::txlog::ArchiveSetting, burn_address: Account) -> (r: State)
        ensures
            r.wf(),
            r.model().owners == Map::<u128, AccountView>::empty(),
            r.model().token_approvals == Map::<u128, Seq<RecordView>>::empty(),
            r.model().collection_approvals == Seq::<RecordView>::empty(),
            r.model().txs == Seq::<TxView>::empty(),
            r.model().txn_count == 0,
            r.txn_log.setting == setting,
            r.burn_address == burn_address,
            r.minting_authority is None,
    {
        let r = State {
            minting_authority: None,
            icrc7_symbol: String::from_str("ICRC7"),
            icrc7_name: String::from_str("ICRC7 Collection"),
            icrc7_description: None,
            icrc7_logo: None,
            icrc7_total_supply: 0,
            icrc7_supply_cap: None,
            icrc7_max_query_batch_size: None,
            icrc7_max_update_batch_size: None,
            icrc7_max_take_value: None,
            icrc7_default_take_value: None,
            icrc7_max_memo_size: None,
            icrc7_atomic_batch_transfers: None,
            tx_window: None,
            permitted_drift: None,
            burn_address,
            tokens: HashMap::new(),
            token_ids: Vec::new(),
            next_token_id: 0,
            approval_ledger_info: LedgerInfo {
                max_approvals_per_token_or_collection: 0,
                max_revoke_approvals: 0,
            },
            token_approvals: HashMap::new(),
            collection_approvals: Vec::new(),
            txn_log: TxLog::new(setting),
            archive_log_canister: None,
            sync_pending_txn_ids: None,
        };
        assert(r.model().owners =~= Map::<u128, AccountView>::empty());
        assert(r.model().token_approvals =~= Map::<u128, Seq<RecordView>>::empty());
        assert(r.model().collection_approvals =~= Seq::<RecordView>::empty());
        assert(r.model().txs =~= Seq::<TxView>::empty());
        r
    }
}

impl State {
    pub fn icrc7_symbol(&self) -> (r: String)
        ensures
            r@ == self.icrc7_symbol@,
    {
        self.icrc7_symbol.clone()
    }

    pub fn icrc7_name(&self) -> (r: String)
        ensures
            r@ == self.icrc7_name@,
    {
        self.icrc7_name.clone()
    }

    pub fn icrc7_description(&self) -> (r: Option<String>)
        ensures
            opt_text_view(r) == opt_text_view(self.icrc7_description),
    {
        copy_opt_text(&self.icrc7_description)
    }

    pub fn icrc7_total_supply(&self) -> (r: u128)
        ensures
            r == self.icrc7_total_supply,
    {
        self.icrc7_total_supply
    }

    pub fn icrc7_supply_cap(&self) -> (r: Option<u128>)
        ensures
            r == self.icrc7_supply_cap,
    {
        self.icrc7_supply_cap
    }

    pub fn icrc7_logo(&self) -> (r: Option<String>)
        ensures
            opt_text_view(r) == opt_text_view(self.icrc7_logo),
    {
        copy_opt_text(&self.icrc7_logo)
    }

    pub fn icrc7_minting_authority(&self) -> (r: Option<Account>)
        ensures
            opt_account_view(r) == opt_account_view(self.minting_authority),
    {
        crate::account::copy_opt_account(&self.minting_authority)
    }

    pub fn icrc7_max_query_batch_size(&self) -> (r: Option<u16>)
        ensures
            r == self.icrc7_max_query_batch_size,
    {
        self.icrc7_max_query_batch_size
    }

    pub fn icrc7_max_update_batch_size(&self) -> (r: Option<u16>)
        ensures
            r == self.icrc7_max_update_batch_size,
    {
        self.icrc7_max_update_batch_size
    }

    pub fn icrc7_default_take_value(&self) -> (r: Option<u128>)
        ensures
            r == self.icrc7_default_take_value,
    {
        self.icrc7_default_take_value
    }

    pub fn icrc7_max_take_value(&self) -> (r: Option<u128>)
        ensures
            r == self.icrc7_max_take_value,
    {
        self.icrc7_max_take_value
    }

    pub fn icrc7_max_memo_size(&self) -> (r: Option<u32>)
        ensures
            r == self.icrc7_max_memo_size,
    {
        self.icrc7_max_memo_size
    }

    pub fn icrc7_atomic_batch_transfers(&self) -> (r: Option<bool>)
        ensures
            r == self.icrc7_atomic_batch_transfers,
    {
        self.icrc7_atomic_batch_transfers
    }

    pub fn get_archive_log_canister(&self) -> (r: Option<Vec<u8>>)
        ensures
            crate::account::opt_bytes_view(r) == crate::account::opt_bytes_view(self.archive_log_canister),
    {
        copy_opt_bytes(&self.archive_log_canister)
    }

    pub fn get_sync_pending_txn_ids(&self) -> (r: Option<Vec<u128>>)
        ensures
            match (r, self.sync_pending_txn_ids) {
                (Some(a), Some(b)) => a@ == b@,
                (None, None) => true,
                _ => false,
            },
    {
        match &self.sync_pending_txn_ids {
            Some(v) => {
                let c = vstd::slice::slice_to_vec(v.as_slice());
                Some(c)
            },
            None => None,
        }
    }

    pub fn set_sync_pending_txn_ids(&mut self, txn_ids: Option<Vec<u128>>) -> (r: bool)
        ensures
            r,
            final(self).sync_pending_txn_ids == txn_ids,
    {
        self.sync_pending_txn_ids = txn_ids;
        true
    }
}

impl State {
    /// Records an archive instance whose range is empty and starts at the
    /// first local index, the only range that keeps the index space
    /// partitioned; refuses any other.
    pub fn add_archive(&mut self, canister_id: Vec<u8>, range: crate::archive::TransactionRange) -> (r: bool)
        requires
            old(self).wf(),
        ensures
            final(self).wf(),
            r == (range.start == old(self).txn_log.first_index && range.length == 0),
            r ==> final(self).txn_log.archives@.len() == old(self).txn_log.archives@.len() + 1
                && final(self).txn_log.archives@.drop_last() == old(self).txn_log.archives@
                && final(self).txn_log.archives@.last().archive_id@ == canister_id@,
            !r ==> final(self).txn_log.archives@ == old(self).txn_log.archives@,
            final(self).txn_log.blocks@ == old(self).txn_log.blocks@,
            final(self).txn_log.txn_count == old(self).txn_log.txn_count,
            final(self).model() == old(self).model(),
    {
        if range.start != self.txn_log.first_index || range.length != 0 {
            return false;
        }
        self.txn_log.push_archive(canister_id);
        true
    }

    /// Copies of the `size` oldest blocks held locally.
    pub fn get_archive_txn_ledger(&self, size: usize) -> (r: Vec<crate::txlog::Block>)
        ensures
            blocks_view(r@) == blocks_view(self.txn_log.blocks@).take(
                if size <= self.txn_log.blocks@.len() { size as int } else { self.txn_log.blocks@.len() as int },
            ),
    {
        self.txn_log.blocks_to_archive(size as u128)
    }
}

} // verus!
