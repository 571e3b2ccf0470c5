//! Validation and commit of update requests, one by one and in batches.
use vstd::prelude::*;
use crate::account::{copy_opt_account, copy_opt_bytes, is_anonymous_principal, opt_account_view, opt_bytes_view, Account};
use crate::state::{account_of, caller_account, records_view, txs_view, AccountView, ApprovalRecord, Icrc7Token, LedgerModel, RecordView, State, DEFAULT_MAX_MEMO_SIZE, DEFAULT_PERMITTED_DRIFT, DEFAULT_TX_WINDOW};
use crate::txlog::{blocks_view, scan_duplicate, OpView, TxOp, TxView};
use crate::types::{
    BatchResult,     ApproveCollectionArg, ApproveTokenArg, BurnArg, LedgerError, RevokeCollectionApprovalArg,
    RevokeTokenApprovalArg, TransferArg, TransferFromArg,
};

verus! {

broadcast use vstd::std_specs::hash::group_hash_axioms;

/// One update request of a batch.
#[derive(Clone, Debug)]
pub enum Request {
    Transfer(TransferArg),
    Burn(BurnArg),
    ApproveToken(ApproveTokenArg),
    ApproveCollection(ApproveCollectionArg),
    RevokeToken(RevokeTokenApprovalArg),
    RevokeCollection(RevokeCollectionApprovalArg),
    TransferFrom(TransferFromArg),
}

/// The account on whose behalf a request acts.
pub open spec fn request_account(caller: Seq<u8>, req: Request) -> AccountView {
    match req {
        Request::Transfer(a) => account_of(caller, opt_bytes_view(a.from_subaccount)),
        Request::Burn(a) => account_of(caller, opt_bytes_view(a.from_subaccount)),
        Request::ApproveToken(a) => account_of(caller, opt_bytes_view(a.approval_info.from_subaccount)),
        Request::ApproveCollection(a) => account_of(
            caller,
            opt_bytes_view(a.approval_info.from_subaccount),
        ),
        Request::RevokeToken(a) => account_of(caller, opt_bytes_view(a.from_subaccount)),
        Request::RevokeCollection(a) => account_of(caller, opt_bytes_view(a.from_subaccount)),
        Request::TransferFrom(a) => account_of(caller, opt_bytes_view(a.spender_subaccount)),
    }
}

impl State {
    pub open spec fn window(&self) -> nat {
        match self.tx_window {
            Some(w) => w as nat,
            None => DEFAULT_TX_WINDOW as nat,
        }
    }

    pub open spec fn drift(&self) -> nat {
        match self.permitted_drift {
            Some(d) => d as nat,
            None => DEFAULT_PERMITTED_DRIFT as nat,
        }
    }

    /// The oldest creation time accepted at `now`.
    pub open spec fn window_floor(&self, now: u64) -> nat {
        if now >= self.window() + self.drift() {
            (now - self.window() - self.drift()) as nat
        } else {
            0
        }
    }

    pub open spec fn memo_ok(&self, memo: Option<Vec<u8>>) -> bool {
        match memo {
            None => true,
            Some(m) => m@.len() <= self.max_memo(),
        }
    }

    pub open spec fn owns(&self, tid: u128, account: AccountView) -> bool {
        self.tokens@.contains_key(tid) && self.tokens@[tid].token_owner@ == account
    }

    /// The replay checks of a transfer-class request created at `created`:
    /// too old, from the future, or a repeat of a logged transfer.
    pub open spec fn replay_check(
        &self,
        now: u64,
        created: Option<u64>,
        tid: u128,
        from: AccountView,
        to: AccountView,
        memo: Option<Seq<u8>>,
    ) -> Result<(), LedgerError> {
        match created {
            None => Ok(()),
            Some(t) => if t < self.window_floor(now) {
                Err(LedgerError::TooOld)
            } else if t > now + self.drift() {
                Err(LedgerError::CreatedInFuture { ledger_time: now })
            } else {
                match scan_duplicate(
                    blocks_view(self.txn_log.blocks@),
                    self.window_floor(now) as u64,
                    tid,
                    from,
                    to,
                    memo,
                    t,
                ) {
                    Some(d) => Err(LedgerError::Duplicate { duplicate_of: d }),
                    None => Ok(()),
                }
            },
        }
    }

    /// Whether a request would be accepted against the current state, and if
    /// not, why.
    pub open spec fn check(&self, caller: Seq<u8>, req: Request, now: u64) -> Result<(), LedgerError> {
        let c = request_account(caller, req);
        match req {
            Request::Transfer(a) => {
                let r = self.replay_check(now, a.created_at_time, a.token_id, c, a.to@, opt_bytes_view(a.memo));
                if r is Err {
                    r
                } else if !self.tokens@.contains_key(a.token_id) {
                    Err(LedgerError::NonExistingTokenId)
                } else if !self.memo_ok(a.memo) {
                    Err(LedgerError::MemoTooLarge)
                } else if a.to@ == c {
                    Err(LedgerError::InvalidRecipient)
                } else if !self.owns(a.token_id, c) {
                    Err(LedgerError::Unauthorized)
                } else {
                    Ok(())
                }
            },
            Request::Burn(a) => {
                if !self.memo_ok(a.memo) {
                    Err(LedgerError::MemoTooLarge)
                } else if !self.tokens@.contains_key(a.token_id) {
                    Err(LedgerError::NonExistingTokenId)
                } else if !self.owns(a.token_id, c) {
                    Err(LedgerError::Unauthorized)
                } else {
                    Ok(())
                }
            },
            Request::ApproveToken(a) => {
                if a.approval_info.spender@ == c {
                    Err(LedgerError::InvalidSpender)
                } else if !self.memo_ok(a.approval_info.memo) {
                    Err(LedgerError::MemoTooLarge)
                } else if !self.tokens@.contains_key(a.token_id) {
                    Err(LedgerError::NonExistingTokenId)
                } else if !self.owns(a.token_id, c) {
                    Err(LedgerError::Unauthorized)
                } else {
                    Ok(())
                }
            },
            Request::ApproveCollection(a) => {
                if a.approval_info.spender@ == c {
                    Err(LedgerError::InvalidSpender)
                } else if a.approval_info.expires_at matches Some(e) && e < now {
                    Err(LedgerError::TooOld)
                } else if !self.memo_ok(a.approval_info.memo) {
                    Err(LedgerError::MemoTooLarge)
                } else {
                    Ok(())
                }
            },
            Request::RevokeToken(a) => {
                if opt_account_view(a.spender) == Some(c) {
                    Err(LedgerError::InvalidSpender)
                } else if !self.memo_ok(a.memo) {
                    Err(LedgerError::MemoTooLarge)
                } else if !self.tokens@.contains_key(a.token_id) {
                    Err(LedgerError::NonExistingTokenId)
                } else if !self.owns(a.token_id, c) {
                    Err(LedgerError::Unauthorized)
                } else {
                    Ok(())
                }
            },
            Request::RevokeCollection(a) => {
                if opt_account_view(a.spender) == Some(c) {
                    Err(LedgerError::InvalidSpender)
                } else if a.created_at_time matches Some(t) && t < self.window_floor(now) {
                    Err(LedgerError::TooOld)
                } else if a.created_at_time matches Some(t) && t > now + self.drift() {
                    Err(LedgerError::CreatedInFuture { ledger_time: now })
                } else if !self.memo_ok(a.memo) {
                    Err(LedgerError::MemoTooLarge)
                } else {
                    Ok(())
                }
            },
            Request::TransferFrom(a) => {
                let r = self.replay_check(now, a.created_at_time, a.token_id, a.from@, a.to@, opt_bytes_view(a.memo));
                if a.to@ == c {
                    Err(LedgerError::InvalidRecipient)
                } else if r is Err {
                    r
                } else if !self.tokens@.contains_key(a.token_id) {
                    Err(LedgerError::NonExistingTokenId)
                } else if !self.owns(a.token_id, a.from@) {
                    Err(LedgerError::Unauthorized)
                } else if !(self.model().approved_by_collection(a.from@, c, now)
                    || self.model().approved_by_token(a.token_id, a.from@, c, now)) {
                    Err(LedgerError::Unauthorized)
                } else if !self.memo_ok(a.memo) {
                    Err(LedgerError::MemoTooLarge)
                } else {
                    Ok(())
                }
            },
        }
    }
}

/// Whether an unexpired approval of `owner` for `spender` is among `records`.
fn find_approval(records: &Vec<crate::state::ApprovalRecord>, owner: &Account, spender: &Account, now: u64) -> (r: bool)
    ensures
        r == crate::state::approved_in(crate::state::records_view(records@), owner@, spender@, now),
{
    let ghost rv = crate::state::records_view(records@);
    let mut i: usize = 0;
    while i < records.len()
        invariant
            i <= records@.len(),
            rv == crate::state::records_view(records@),
            forall|j: int| 0 <= j < i ==> !(#[trigger] rv[j].0 == owner@ && rv[j].1.spender == spender@
                && crate::types::unexpired(rv[j].1.expires_at, now)),
        decreases records@.len() - i,
    {
        let rec = &records[i];
        assert(rv[i as int] == rec@);
        let live = match rec.info.expires_at {
            None => true,
            Some(t) => t > now,
        };
        if live && rec.owner.same(owner) && rec.info.spender.same(spender) {
            assert(rv[i as int].0 == owner@ && rv[i as int].1.spender == spender@
                && crate::types::unexpired(rv[i as int].1.expires_at, now));
            return true;
        }
        i = i + 1;
    }
    false
}

impl State {
    fn memo_fits(&self, memo: &Option<Vec<u8>>) -> (r: bool)
        ensures
            r == self.memo_ok(*memo),
    {
        match memo {
            None => true,
            Some(m) => {
                let max: u32 = match self.icrc7_max_memo_size {
                    Some(x) => x,
                    None => DEFAULT_MAX_MEMO_SIZE,
                };
                m.len() as u128 <= max as u128
            },
        }
    }

    fn floor_at(&self, now: u64) -> (r: u64)
        ensures
            r == self.window_floor(now),
    {
        let w: u64 = match self.tx_window {
            Some(x) => x,
            None => DEFAULT_TX_WINDOW,
        };
        let d: u64 = match self.permitted_drift {
            Some(x) => x,
            None => DEFAULT_PERMITTED_DRIFT,
        };
        if now as u128 >= w as u128 + d as u128 {
            now - w - d
        } else {
            0
        }
    }

    fn drift_at(&self) -> (r: u64)
        ensures
            r == self.drift(),
    {
        match self.permitted_drift {
            Some(x) => x,
            None => DEFAULT_PERMITTED_DRIFT,
        }
    }

    fn owned_by(&self, tid: u128, account: &Account) -> (r: bool)
        ensures
            r == self.owns(tid, account@),
    {
        match self.tokens.get(&tid) {
            Some(t) => t.token_owner.same(account),
            None => false,
        }
    }

    fn has_token(&self, tid: u128) -> (r: bool)
        ensures
            r == self.tokens@.contains_key(tid),
    {
        self.tokens.contains_key(&tid)
    }

    /// Whether `spender` holds an unexpired token-level approval of `owner`
    /// for token `tid`.
    pub fn is_approved_by_token(&self, tid: u128, owner: &Account, spender: &Account, now: u64) -> (r: bool)
        ensures
            r == self.model().approved_by_token(tid, owner@, spender@, now),
    {
        match self.token_approvals.get(&tid) {
            Some(records) => find_approval(records, owner, spender, now),
            None => false,
        }
    }

    /// Whether `spender` holds an unexpired collection-level approval of
    /// `owner`.
    pub fn is_approved_by_collection(&self, owner: &Account, spender: &Account, now: u64) -> (r: bool)
        ensures
            r == self.model().approved_by_collection(owner@, spender@, now),
    {
        find_approval(&self.collection_approvals, owner, spender, now)
    }

    fn replay(
        &self,
        now: u64,
        created: Option<u64>,
        tid: u128,
        from: &Account,
        to: &Account,
        memo: &Option<Vec<u8>>,
    ) -> (r: Result<(), LedgerError>)
        ensures
            r == self.replay_check(now, created, tid, from@, to@, opt_bytes_view(*memo)),
    {
        match created {
            None => Ok(()),
            Some(t) => {
                let floor = self.floor_at(now);
                if t < floor {
                    return Err(LedgerError::TooOld);
                }
                if t as u128 > now as u128 + self.drift_at() as u128 {
                    return Err(LedgerError::CreatedInFuture { ledger_time: now });
                }
                match self.txn_log.find_duplicate(floor, tid, from, to, memo, t) {
                    Some(d) => Err(LedgerError::Duplicate { duplicate_of: d }),
                    None => Ok(()),
                }
            },
        }
    }

    /// Validates one request against the current state.
    pub fn check_request(&self, caller: &Vec<u8>, req: &Request, now: u64) -> (r: Result<(), LedgerError>)
        ensures
            r == self.check(caller@, *req, now),
    {
        match req {
            Request::Transfer(a) => {
                let c = caller_account(caller, &a.from_subaccount);
                let r = self.replay(now, a.created_at_time, a.token_id, &c, &a.to, &a.memo);
                if r.is_err() {
                    r
                } else if !self.has_token(a.token_id) {
                    Err(LedgerError::NonExistingTokenId)
                } else if !self.memo_fits(&a.memo) {
                    Err(LedgerError::MemoTooLarge)
                } else if a.to.same(&c) {
                    Err(LedgerError::InvalidRecipient)
                } else if !self.owned_by(a.token_id, &c) {
                    Err(LedgerError::Unauthorized)
                } else {
                    Ok(())
                }
            },
            Request::Burn(a) => {
                let c = caller_account(caller, &a.from_subaccount);
                if !self.memo_fits(&a.memo) {
                    Err(LedgerError::MemoTooLarge)
                } else if !self.has_token(a.token_id) {
                    Err(LedgerError::NonExistingTokenId)
                } else if !self.owned_by(a.token_id, &c) {
                    Err(LedgerError::Unauthorized)
                } else {
                    Ok(())
                }
            },
            Request::ApproveToken(a) => {
                let c = caller_account(caller, &a.approval_info.from_subaccount);
                if a.approval_info.spender.same(&c) {
                    Err(LedgerError::InvalidSpender)
                } else if !self.memo_fits(&a.approval_info.memo) {
                    Err(LedgerError::MemoTooLarge)
                } else if !self.has_token(a.token_id) {
                    Err(LedgerError::NonExistingTokenId)
                } else if !self.owned_by(a.token_id, &c) {
                    Err(LedgerError::Unauthorized)
                } else {
                    Ok(())
                }
            },
            Request::ApproveCollection(a) => {
                let c = caller_account(caller, &a.approval_info.from_subaccount);
                let expired = match a.approval_info.expires_at {
                    Some(e) => e < now,
                    None => false,
                };
                if a.approval_info.spender.same(&c) {
                    Err(LedgerError::InvalidSpender)
                } else if expired {
                    Err(LedgerError::TooOld)
                } else if !self.memo_fits(&a.approval_info.memo) {
                    Err(LedgerError::MemoTooLarge)
                } else {
                    Ok(())
                }
            },
            Request::RevokeToken(a) => {
                let c = caller_account(caller, &a.from_subaccount);
                let self_spender = match &a.spender {
                    Some(s) => s.same(&c),
                    None => false,
                };
                if self_spender {
                    Err(LedgerError::InvalidSpender)
                } else if !self.memo_fits(&a.memo) {
                    Err(LedgerError::MemoTooLarge)
                } else if !self.has_token(a.token_id) {
                    Err(LedgerError::NonExistingTokenId)
                } else if !self.owned_by(a.token_id, &c) {
                    Err(LedgerError::Unauthorized)
                } else {
                    Ok(())
                }
            },
            Request::RevokeCollection(a) => {
                let c = caller_account(caller, &a.from_subaccount);
                let self_spender = match &a.spender {
                    Some(s) => s.same(&c),
                    None => false,
                };
                let floor = self.floor_at(now);
                let (too_old, future) = match a.created_at_time {
                    Some(t) => (t < floor, t as u128 > now as u128 + self.drift_at() as u128),
                    None => (false, false),
                };
                if self_spender {
                    Err(LedgerError::InvalidSpender)
                } else if too_old {
                    Err(LedgerError::TooOld)
                } else if future {
                    Err(LedgerError::CreatedInFuture { ledger_time: now })
                } else if !self.memo_fits(&a.memo) {
                    Err(LedgerError::MemoTooLarge)
                } else {
                    Ok(())
                }
            },
            Request::TransferFrom(a) => {
                let c = caller_account(caller, &a.spender_subaccount);
                if a.to.same(&c) {
                    return Err(LedgerError::InvalidRecipient);
                }
                let r = self.replay(now, a.created_at_time, a.token_id, &a.from, &a.to, &a.memo);
                if r.is_err() {
                    r
                } else if !self.has_token(a.token_id) {
                    Err(LedgerError::NonExistingTokenId)
                } else if !self.owned_by(a.token_id, &a.from) {
                    Err(LedgerError::Unauthorized)
                } else if !(self.is_approved_by_collection(&a.from, &c, now)
                    || self.is_approved_by_token(a.token_id, &a.from, &c, now)) {
                    Err(LedgerError::Unauthorized)
                } else if !self.memo_fits(&a.memo) {
                    Err(LedgerError::MemoTooLarge)
                } else {
                    Ok(())
                }
            },
        }
    }
}

/// Holds of the records that a revocation by `owner` of `spender` (of all
/// spenders where none is named) leaves in place.
pub open spec fn keeps(owner: AccountView, spender: Option<AccountView>) -> spec_fn(RecordView) -> bool {
    |r: RecordView| !(r.0 == owner && match spender {
        None => true,
        Some(s) => r.1.spender == s,
    })
}

pub open spec fn without(records: Seq<RecordView>, owner: AccountView, spender: Option<AccountView>) -> Seq<RecordView> {
    records.filter(keeps(owner, spender))
}

/// The model with one more transaction logged under the next id.
pub open spec fn logged(m: LedgerModel, op: OpView, ts: u64, memo: Option<Seq<u8>>) -> LedgerModel {
    LedgerModel {
        txs: m.txs.push(TxView { id: m.txn_count, op, ts, memo }),
        txn_count: (m.txn_count + 1) as u128,
        ..m
    }
}

/// The time a transfer is logged at: its creation time where it gives one.
pub open spec fn logged_time(created: Option<u64>, now: u64) -> u64 {
    match created {
        Some(t) => t,
        None => now,
    }
}

/// The token-level approvals recorded for `tid`, none where there are none.
pub open spec fn approvals_of(m: LedgerModel, tid: u128) -> Seq<RecordView> {
    if m.token_approvals.contains_key(tid) {
        m.token_approvals[tid]
    } else {
        seq![]
    }
}

/// The effect of committing one request.
pub open spec fn apply(m: LedgerModel, burn: AccountView, caller: Seq<u8>, req: Request, now: u64) -> LedgerModel {
    let c = request_account(caller, req);
    match req {
        Request::Transfer(a) => logged(
            LedgerModel {
                owners: m.owners.insert(a.token_id, a.to@),
                token_approvals: m.token_approvals.remove(a.token_id),
                ..m
            },
            OpView::Transfer { tid: a.token_id, from: c, to: a.to@ },
            logged_time(a.created_at_time, now),
            opt_bytes_view(a.memo),
        ),
        Request::Burn(a) => logged(
            LedgerModel {
                owners: m.owners.insert(a.token_id, burn),
                token_approvals: m.token_approvals.remove(a.token_id),
                ..m
            },
            OpView::Burn { tid: a.token_id, from: c, to: burn },
            now,
            opt_bytes_view(a.memo),
        ),
        Request::ApproveToken(a) => logged(
            LedgerModel {
                token_approvals: m.token_approvals.insert(
                    a.token_id,
                    without(approvals_of(m, a.token_id), c, Some(a.approval_info.spender@)).push(
                        (c, a.approval_info@),
                    ),
                ),
                ..m
            },
            OpView::Approve {
                tid: a.token_id,
                from: c,
                spender: a.approval_info.spender@,
                expires_at: a.approval_info.expires_at,
            },
            now,
            opt_bytes_view(a.approval_info.memo),
        ),
        Request::ApproveCollection(a) => logged(
            LedgerModel {
                collection_approvals: without(
                    m.collection_approvals,
                    c,
                    Some(a.approval_info.spender@),
                ).push((c, a.approval_info@)),
                ..m
            },
            OpView::ApproveCollection {
                from: c,
                spender: a.approval_info.spender@,
                expires_at: a.approval_info.expires_at,
            },
            now,
            opt_bytes_view(a.approval_info.memo),
        ),
        Request::RevokeToken(a) => logged(
            LedgerModel {
                token_approvals: if m.token_approvals.contains_key(a.token_id) {
                    m.token_approvals.insert(
                        a.token_id,
                        without(m.token_approvals[a.token_id], c, opt_account_view(a.spender)),
                    )
                } else {
                    m.token_approvals
                },
                ..m
            },
            OpView::Revoke { tid: a.token_id, from: c, spender: opt_account_view(a.spender) },
            now,
            opt_bytes_view(a.memo),
        ),
        Request::RevokeCollection(a) => logged(
            LedgerModel {
                collection_approvals: without(
                    m.collection_approvals,
                    c,
                    opt_account_view(a.spender),
                ),
                ..m
            },
            OpView::RevokeCollection { from: c, spender: opt_account_view(a.spender) },
            now,
            opt_bytes_view(a.memo),
        ),
        Request::TransferFrom(a) => logged(
            LedgerModel {
                owners: m.owners.insert(a.token_id, a.to@),
                token_approvals: m.token_approvals.remove(a.token_id),
                ..m
            },
            OpView::TransferFrom { tid: a.token_id, from: a.from@, to: a.to@, spender: c },
            logged_time(a.created_at_time, now),
            opt_bytes_view(a.memo),
        ),
    }
}

/// The token a request moves or needs, if any.
pub open spec fn request_token(req: Request) -> Option<u128> {
    match req {
        Request::Transfer(a) => Some(a.token_id),
        Request::Burn(a) => Some(a.token_id),
        Request::TransferFrom(a) => Some(a.token_id),
        _ => None,
    }
}

/// Everything but owners, approvals and the log's blocks and counter is
/// the same in both states.
pub open spec fn same_frame(a: State, b: State) -> bool {
    &&& b.minting_authority == a.minting_authority
    &&& b.icrc7_symbol == a.icrc7_symbol
    &&& b.icrc7_name == a.icrc7_name
    &&& b.icrc7_description == a.icrc7_description
    &&& b.icrc7_logo == a.icrc7_logo
    &&& b.icrc7_supply_cap == a.icrc7_supply_cap
    &&& b.icrc7_max_query_batch_size == a.icrc7_max_query_batch_size
    &&& b.icrc7_max_update_batch_size == a.icrc7_max_update_batch_size
    &&& b.icrc7_max_take_value == a.icrc7_max_take_value
    &&& b.icrc7_default_take_value == a.icrc7_default_take_value
    &&& b.icrc7_max_memo_size == a.icrc7_max_memo_size
    &&& b.icrc7_atomic_batch_transfers == a.icrc7_atomic_batch_transfers
    &&& b.tx_window == a.tx_window
    &&& b.permitted_drift == a.permitted_drift
    &&& b.burn_address == a.burn_address
    &&& b.approval_ledger_info == a.approval_ledger_info
    &&& b.archive_log_canister == a.archive_log_canister
    &&& b.sync_pending_txn_ids == a.sync_pending_txn_ids
    &&& b.icrc7_total_supply == a.icrc7_total_supply
    &&& b.token_ids == a.token_ids
    &&& b.next_token_id == a.next_token_id
    &&& b.tokens@.dom() == a.tokens@.dom()
    &&& forall|id: u128| #[trigger] b.tokens@.contains_key(id) ==> b.tokens@[id] == (Icrc7Token {
        token_owner: b.tokens@[id].token_owner,
        ..a.tokens@[id]
    })
    &&& b.txn_log.first_index == a.txn_log.first_index
    &&& b.txn_log.archives@ == a.txn_log.archives@
    &&& b.txn_log.setting == a.txn_log.setting
    &&& b.txn_log.is_cleaning == a.txn_log.is_cleaning
}

/// Removes the records of `owner` for `spender` (for any spender where none
/// is named).
fn retain_others(v: Vec<ApprovalRecord>, owner: &Account, spender: &Option<Account>) -> (r: Vec<ApprovalRecord>)
    ensures
        records_view(r@) == without(records_view(v@), owner@, opt_account_view(*spender)),
{
    let ghost orig = v@;
    let ghost p = keeps(owner@, opt_account_view(*spender));
    let mut rest = v;
    let mut out: Vec<ApprovalRecord> = Vec::new();
    while rest.len() > 0
        invariant
            p == keeps(owner@, opt_account_view(*spender)),
            rest@ == orig.skip(orig.len() - rest@.len()),
            rest@.len() <= orig.len(),
            records_view(out@) == records_view(orig.take(orig.len() - rest@.len())).filter(p),
        decreases rest@.len(),
    {
        let ghost i = orig.len() - rest@.len();
        let e = rest.remove(0);
        let ghost ev = e@;
        proof {
            assert(orig[i] == e);
            assert(orig.take(i + 1) =~= orig.take(i).push(e));
            assert(records_view(orig.take(i + 1)) =~= records_view(orig.take(i)).push(ev));
            records_view(orig.take(i)).lemma_filter_push(ev, p);
            assert(rest@ =~= orig.skip(i + 1));
        }
        let matches_spender = match spender {
            None => true,
            Some(s) => e.info.spender.same(s),
        };
        let keep = !(e.owner.same(owner) && matches_spender);
        assert(p(ev) == keep);
        if keep {
            let ghost prev = out@;
            out.push(e);
            assert(records_view(out@) =~= records_view(prev).push(ev));
        }
    }
    assert(orig.take(orig.len() as int) =~= orig);
    out
}

proof fn lemma_txs_push(before: Seq<crate::txlog::Block>, after: Seq<crate::txlog::Block>)
    requires
        after.len() == before.len() + 1,
        after.drop_last() == before,
    ensures
        txs_view(blocks_view(after)) == txs_view(blocks_view(before)).push(after.last()@.tx),
{
    assert(txs_view(blocks_view(after)) =~= txs_view(blocks_view(before)).push(after.last()@.tx)) by {
        assert forall|i: int| 0 <= i < before.len() implies after[i] == before[i] by {
            assert(after.drop_last()[i] == after[i]);
        }
    }
}

impl State {
    fn log_op(&mut self, op: TxOp, ts: u64, memo: Option<Vec<u8>>) -> (id: u128)
        requires
            old(self).txn_log.wf(),
            old(self).txn_log.txn_count < u128::MAX,
        ensures
            final(self).txn_log.wf(),
            id == old(self).txn_log.txn_count,
            txs_view(blocks_view(final(self).txn_log.blocks@)) == txs_view(blocks_view(old(self).txn_log.blocks@)).push(
                TxView { id, op: op@, ts, memo: opt_bytes_view(memo) },
            ),
            final(self).txn_log.txn_count == id + 1,
            same_frame(*old(self), *final(self)),
            final(self).tokens == old(self).tokens,
            final(self).token_approvals == old(self).token_approvals,
            final(self).collection_approvals == old(self).collection_approvals,
            final(self).txn_log.first_index == old(self).txn_log.first_index,
            final(self).txn_log.archives@ == old(self).txn_log.archives@,
            final(self).txn_log.setting == old(self).txn_log.setting,
            final(self).txn_log.is_cleaning == old(self).txn_log.is_cleaning,
    {
        let ghost before = self.txn_log.blocks@;
        let id = self.txn_log.append(op, ts, memo);
        proof {
            lemma_txs_push(before, self.txn_log.blocks@);
        }
        id
    }
}

impl State {
    fn set_owner(&mut self, tid: u128, to: Account)
        requires
            old(self).wf(),
            old(self).tokens@.contains_key(tid),
        ensures
            final(self).wf(),
            final(self).tokens@ == old(self).tokens@.insert(
                tid,
                Icrc7Token { token_owner: to, ..old(self).tokens@[tid] },
            ),
            final(self).model().owners == old(self).model().owners.insert(tid, to@),
            final(self).token_approvals == old(self).token_approvals,
            final(self).collection_approvals == old(self).collection_approvals,
            final(self).txn_log == old(self).txn_log,
            same_frame(*old(self), *final(self)),
    {
        let mut t = self.tokens.remove(&tid).unwrap();
        t.transfer(to);
        self.tokens.insert(tid, t);
        proof {
            assert(self.tokens@.dom() =~= old(self).tokens@.dom());
            assert(self.model().owners =~= old(self).model().owners.insert(tid, to@));
            assert forall|id: u128| #[trigger] self.tokens@.contains_key(id) implies self.token_ids@.contains(id) by {
                assert(old(self).tokens@.contains_key(id));
            }
            assert forall|id: u128| #[trigger] self.tokens@.contains_key(id) implies self.tokens@[id].token_id == id && id < self.next_token_id by {
                assert(old(self).tokens@.contains_key(id));
            }
        }
    }

    /// Commits one request: updates owners and approvals as it says and
    /// logs it under the next sequence id.
    pub fn commit_request(&mut self, caller: &Vec<u8>, req: Request, now: u64) -> (id: u128)
        requires
            old(self).wf(),
            old(self).txn_log.txn_count < u128::MAX,
            request_token(req) matches Some(t) ==> old(self).tokens@.contains_key(t),
        ensures
            final(self).wf(),
            id == old(self).txn_log.txn_count,
            final(self).model() == apply(old(self).model(), old(self).burn_address@, caller@, req, now),
            same_frame(*old(self), *final(self)),
    {
        let ghost m = self.model();
        let ghost req0 = req;
        match req {
            Request::Transfer(a) => {
                let c = caller_account(caller, &a.from_subaccount);
                let to_copy = a.to.duplicate();
                self.set_owner(a.token_id, a.to);
                self.token_approvals.remove(&a.token_id);
                let ts = match a.created_at_time {
                    Some(t) => t,
                    None => now,
                };
                let id = self.log_op(TxOp::Transfer { tid: a.token_id, from: c, to: to_copy }, ts, a.memo);
                assert(self.model().token_approvals =~= m.token_approvals.remove(a.token_id));
                id
            },
            Request::Burn(a) => {
                let c = caller_account(caller, &a.from_subaccount);
                let burn = self.burn_address.duplicate();
                let burn_copy = self.burn_address.duplicate();
                self.set_owner(a.token_id, burn);
                self.token_approvals.remove(&a.token_id);
                let id = self.log_op(TxOp::Burn { tid: a.token_id, from: c, to: burn_copy }, now, a.memo);
                assert(self.model().token_approvals =~= m.token_approvals.remove(a.token_id));
                id
            },
            Request::TransferFrom(a) => {
                let c = caller_account(caller, &a.spender_subaccount);
                let to_copy = a.to.duplicate();
                self.set_owner(a.token_id, a.to);
                self.token_approvals.remove(&a.token_id);
                let ts = match a.created_at_time {
                    Some(t) => t,
                    None => now,
                };
                let id = self.log_op(
                    TxOp::TransferFrom { tid: a.token_id, from: a.from, to: to_copy, spender: c },
                    ts,
                    a.memo,
                );
                assert(self.model().token_approvals =~= m.token_approvals.remove(a.token_id));
                id
            },
            Request::ApproveToken(a) => {
                let c = caller_account(caller, &a.approval_info.from_subaccount);
                let spender_copy = a.approval_info.spender.duplicate();
                let spender_opt = Some(a.approval_info.spender.duplicate());
                let expires_at = a.approval_info.expires_at;
                let memo = copy_opt_bytes(&a.approval_info.memo);
                let cur = match self.token_approvals.remove(&a.token_id) {
                    Some(v) => v,
                    None => Vec::new(),
                };
                assert(records_view(cur@) == approvals_of(m, a.token_id));
                let mut kept = retain_others(cur, &c, &spender_opt);
                let ghost kept0 = kept@;
                let rec = ApprovalRecord { owner: c.duplicate(), info: a.approval_info };
                kept.push(rec);
                assert(records_view(kept@) =~= records_view(kept0).push(rec@));
                self.token_approvals.insert(a.token_id, kept);
                let id = self.log_op(
                    TxOp::Approve { tid: a.token_id, from: c, spender: spender_copy, expires_at },
                    now,
                    memo,
                );
                assert(self.model().token_approvals =~= m.token_approvals.insert(
                    a.token_id,
                    without(approvals_of(m, a.token_id), request_account(caller@, req0), Some(a.approval_info.spender@)).push(
                        (request_account(caller@, req0), a.approval_info@),
                    ),
                ));
                id
            },
            Request::ApproveCollection(a) => {
                let c = caller_account(caller, &a.approval_info.from_subaccount);
                let spender_copy = a.approval_info.spender.duplicate();
                let spender_opt = Some(a.approval_info.spender.duplicate());
                let expires_at = a.approval_info.expires_at;
                let memo = copy_opt_bytes(&a.approval_info.memo);
                let cur = self.collection_approvals.split_off(0);
                assert(cur@ =~= old(self).collection_approvals@);
                let mut kept = retain_others(cur, &c, &spender_opt);
                let ghost kept0 = kept@;
                let rec = ApprovalRecord { owner: c.duplicate(), info: a.approval_info };
                kept.push(rec);
                assert(records_view(kept@) =~= records_view(kept0).push(rec@));
                self.collection_approvals = kept;
                let id = self.log_op(
                    TxOp::ApproveCollection { from: c, spender: spender_copy, expires_at },
                    now,
                    memo,
                );
                id
            },
            Request::RevokeToken(a) => {
                let c = caller_account(caller, &a.from_subaccount);
                let spender_copy = copy_opt_account(&a.spender);
                match self.token_approvals.remove(&a.token_id) {
                    Some(v) => {
                        let kept = retain_others(v, &c, &a.spender);
                        self.token_approvals.insert(a.token_id, kept);
                        assert(self.model().token_approvals =~= m.token_approvals.insert(
                            a.token_id,
                            without(m.token_approvals[a.token_id], request_account(caller@, req0), opt_account_view(a.spender)),
                        ));
                    },
                    None => {
                        assert(self.token_approvals@ =~= old(self).token_approvals@);
                    },
                }
                let id = self.log_op(
                    TxOp::Revoke { tid: a.token_id, from: c, spender: spender_copy },
                    now,
                    a.memo,
                );
                id
            },
            Request::RevokeCollection(a) => {
                let c = caller_account(caller, &a.from_subaccount);
                let spender_copy = copy_opt_account(&a.spender);
                let cur = self.collection_approvals.split_off(0);
                assert(cur@ =~= old(self).collection_approvals@);
                let kept = retain_others(cur, &c, &a.spender);
                self.collection_approvals = kept;
                let id = self.log_op(
                    TxOp::RevokeCollection { from: c, spender: spender_copy },
                    now,
                    a.memo,
                );
                id
            },
        }
    }
}

/// The verdict of each request of a batch against the state before it.
pub open spec fn checks_of(s: State, caller: Seq<u8>, reqs: Seq<Request>, now: u64) -> Seq<Result<(), LedgerError>> {
    reqs.map_values(|q: Request| s.check(caller, q, now))
}

/// How many of the first `i` verdicts accept their request.
pub open spec fn passed_before(checks: Seq<Result<(), LedgerError>>, i: int) -> nat
    decreases i,
{
    if i <= 0 {
        0
    } else {
        passed_before(checks, i - 1) + if checks[i - 1] is Ok {
            1nat
        } else {
            0nat
        }
    }
}

/// The error that refuses a whole batch of `n` requests, if any.
pub open spec fn batch_error(s: State, caller: Seq<u8>, n: nat) -> Option<LedgerError> {
    if n == 0 {
        Some(LedgerError::NoArguments)
    } else if n > s.max_update_batch() {
        Some(LedgerError::BatchTooLarge)
    } else if caller == crate::account::anonymous_principal() {
        Some(LedgerError::AnonymousCaller)
    } else {
        None
    }
}

/// Whether an atomic batch is dropped because some request failed.
pub open spec fn aborts(s: State, checks: Seq<Result<(), LedgerError>>) -> bool {
    s.icrc7_atomic_batch_transfers == Some(true) && exists|i: int| 0 <= i < checks.len() && #[trigger] checks[i] is Err
}

/// The outcome of each slot of a batch: its refusal, its sequence id, or
/// nothing where an atomic batch was dropped.
pub open spec fn batch_results(s: State, caller: Seq<u8>, reqs: Seq<Request>, now: u64) -> Seq<Option<Result<u128, LedgerError>>> {
    let checks = checks_of(s, caller, reqs, now);
    match batch_error(s, caller, reqs.len()) {
        Some(e) => if reqs.len() == 0 {
            seq![Some(Err(e))]
        } else {
            Seq::new(reqs.len(), |i: int| Some(Err(e)))
        },
        None => Seq::new(
            reqs.len(),
            |i: int|
                match checks[i] {
                    Err(e) => Some(Err(e)),
                    Ok(_) => if aborts(s, checks) {
                        None
                    } else {
                        Some(Ok((s.txn_log.txn_count + passed_before(checks, i)) as u128))
                    },
                },
        ),
    }
}

/// The model after the first `i` requests, each committed where its
/// verdict accepts it.
pub open spec fn apply_all(
    m: LedgerModel,
    burn: AccountView,
    caller: Seq<u8>,
    reqs: Seq<Request>,
    checks: Seq<Result<(), LedgerError>>,
    now: u64,
    i: int,
) -> LedgerModel
    decreases i,
{
    if i <= 0 {
        m
    } else {
        let prev = apply_all(m, burn, caller, reqs, checks, now, i - 1);
        if checks[i - 1] is Ok {
            apply(prev, burn, caller, reqs[i - 1], now)
        } else {
            prev
        }
    }
}

/// The model after a batch.
pub open spec fn batch_model(s: State, caller: Seq<u8>, reqs: Seq<Request>, now: u64) -> LedgerModel {
    let checks = checks_of(s, caller, reqs, now);
    if batch_error(s, caller, reqs.len()) is Some || aborts(s, checks) {
        s.model()
    } else {
        apply_all(s.model(), s.burn_address@, caller, reqs, checks, now, reqs.len() as int)
    }
}

proof fn lemma_passed_before_bound(checks: Seq<Result<(), LedgerError>>, i: int)
    requires
        0 <= i,
    ensures
        passed_before(checks, i) <= i,
    decreases i,
{
    if i > 0 {
        lemma_passed_before_bound(checks, i - 1);
    }
}

proof fn lemma_check_needs_token(s: State, caller: Seq<u8>, req: Request, now: u64)
    requires
        s.check(caller, req, now) is Ok,
    ensures
        request_token(req) matches Some(t) ==> s.tokens@.contains_key(t),
{
}

fn fill(n: usize, e: LedgerError) -> (r: BatchResult)
    ensures
        r@ == Seq::new(n as nat, |i: int| Some(Err::<u128, LedgerError>(e))),
{
    let mut r: BatchResult = Vec::new();
    let mut i: usize = 0;
    while i < n
        invariant
            i <= n,
            r@ =~= Seq::new(i as nat, |j: int| Some(Err::<u128, LedgerError>(e))),
        decreases n - i,
    {
        r.push(Some(Err(e)));
        i = i + 1;
    }
    r
}

impl State {
    /// Runs a batch: refuses it whole on a batch-level error; otherwise
    /// validates every request against the state before the batch, drops an
    /// atomic batch in which one fails, and else commits the accepted
    /// requests in order.
    pub fn run_batch(&mut self, caller: &Vec<u8>, reqs: Vec<Request>, now: u64) -> (r: BatchResult)
        requires
            old(self).wf(),
            old(self).txn_log.txn_count + reqs@.len() < u128::MAX,
        ensures
            final(self).wf(),
            r@ == batch_results(*old(self), caller@, reqs@, now),
            final(self).model() == batch_model(*old(self), caller@, reqs@, now),
            same_frame(*old(self), *final(self)),
            (batch_error(*old(self), caller@, reqs@.len()) is Some || aborts(
                *old(self),
                checks_of(*old(self), caller@, reqs@, now),
            )) ==> *final(self) == *old(self),
    {
        let ghost s0 = *self;
        let ghost orig = reqs@;
        let n = reqs.len();
        if n == 0 {
            let mut r: BatchResult = Vec::new();
            r.push(Some(Err(LedgerError::NoArguments)));
            assert(r@ =~= seq![Some(Err(LedgerError::NoArguments))]);
            return r;
        }
        let max: u16 = match self.icrc7_max_update_batch_size {
            Some(m) => m,
            None => crate::state::DEFAULT_MAX_UPDATE_BATCH_SIZE,
        };
        if n > max as usize {
            return fill(n, LedgerError::BatchTooLarge);
        }
        if is_anonymous_principal(caller) {
            return fill(n, LedgerError::AnonymousCaller);
        }
        let ghost checks_spec = checks_of(s0, caller@, orig, now);
        let mut checks: Vec<Result<(), LedgerError>> = Vec::new();
        let mut any_err = false;
        let mut i: usize = 0;
        while i < n
            invariant
                *self == s0,
                reqs@ == orig,
                n == orig.len(),
                i <= n,
                checks_spec == checks_of(s0, caller@, orig, now),
                checks@ =~= checks_spec.take(i as int),
                any_err == exists|j: int| 0 <= j < i && #[trigger] checks_spec[j] is Err,
            decreases n - i,
        {
            let c = self.check_request(caller, &reqs[i], now);
            assert(checks_spec[i as int] == c);
            if c.is_err() {
                any_err = true;
            }
            checks.push(c);
            i = i + 1;
        }
        assert(checks@ =~= checks_spec);
        let atomic = match self.icrc7_atomic_batch_transfers {
            Some(true) => true,
            _ => false,
        };
        let mut results: BatchResult = Vec::new();
        if atomic && any_err {
            let mut k: usize = 0;
            while k < n
                invariant
                    k <= n,
                    n == orig.len(),
                    checks@ == checks_spec,
                    checks_spec == checks_of(s0, caller@, orig, now),
                    aborts(s0, checks_spec),
                    batch_error(s0, caller@, orig.len()) is None,
                    results@ =~= batch_results(s0, caller@, orig, now).take(k as int),
                decreases n - k,
            {
                let slot = match checks[k] {
                    Err(e) => Some(Err(e)),
                    Ok(_) => None,
                };
                results.push(slot);
                k = k + 1;
            }
            assert(results@ =~= batch_results(s0, caller@, orig, now));
            return results;
        }
        let ghost burn = s0.burn_address@;
        let mut rest = reqs;
        let mut k: usize = 0;
        while k < n
            invariant
                k <= n,
                n == orig.len(),
                s0.txn_log.txn_count + orig.len() < u128::MAX,
                checks@ == checks_spec,
                checks_spec == checks_of(s0, caller@, orig, now),
                !aborts(s0, checks_spec),
                batch_error(s0, caller@, orig.len()) is None,
                burn == s0.burn_address@,
                rest@ == orig.skip(k as int),
                self.wf(),
                same_frame(s0, *self),
                self.model() == apply_all(s0.model(), burn, caller@, orig, checks_spec, now, k as int),
                self.txn_log.txn_count == s0.txn_log.txn_count + passed_before(checks_spec, k as int),
                results@ =~= batch_results(s0, caller@, orig, now).take(k as int),
            decreases n - k,
        {
            let req = rest.remove(0);
            proof {
                assert(req == orig[k as int]);
                assert(rest@ =~= orig.skip(k as int + 1));
                lemma_passed_before_bound(checks_spec, k as int);
            }
            match checks[k] {
                Ok(_) => {
                    proof {
                        lemma_check_needs_token(s0, caller@, req, now);
                    }
                    let id = self.commit_request(caller, req, now);
                    results.push(Some(Ok(id)));
                },
                Err(e) => {
                    results.push(Some(Err(e)));
                },
            }
            k = k + 1;
        }
        assert(results@ =~= batch_results(s0, caller@, orig, now));
        results
    }
}

pub open spec fn transfer_requests(args: Seq<TransferArg>) -> Seq<Request> {
    args.map_values(|a: TransferArg| Request::Transfer(a))
}

fn into_transfer_requests(args: Vec<TransferArg>) -> (r: Vec<Request>)
    ensures
        r@ == transfer_requests(args@),
{
    let ghost orig = args@;
    let mut rest = args;
    let mut out: Vec<Request> = Vec::new();
    while rest.len() > 0
        invariant
            rest@.len() <= orig.len(),
            rest@ == orig.skip(orig.len() - rest@.len()),
            out@ =~= transfer_requests(orig.take(orig.len() - rest@.len())),
        decreases rest@.len(),
    {
        let ghost i = orig.len() - rest@.len();
        let a = rest.remove(0);
        assert(orig[i] == a);
        assert(rest@ =~= orig.skip(i + 1));
        assert(orig.take(i + 1) =~= orig.take(i).push(a));
        out.push(Request::Transfer(a));
    }
    assert(orig.take(orig.len() as int) =~= orig);
    out
}

impl State {
    /// Transfers tokens from the caller's account, as a batch.
    pub fn icrc7_transfer(&mut self, caller: &Vec<u8>, args: Vec<TransferArg>, now: u64) -> (r: BatchResult)
        requires
            old(self).wf(),
            old(self).txn_log.txn_count + args@.len() < u128::MAX,
        ensures
            final(self).wf(),
            r@ == batch_results(*old(self), caller@, transfer_requests(args@), now),
            final(self).model() == batch_model(*old(self), caller@, transfer_requests(args@), now),
            same_frame(*old(self), *final(self)),
    {
        let reqs = into_transfer_requests(args);
        self.run_batch(caller, reqs, now)
    }
}

pub open spec fn burn_requests(args: Seq<BurnArg>) -> Seq<Request> {
    args.map_values(|a: BurnArg| Request::Burn(a))
}

fn into_burn_requests(args: Vec<BurnArg>) -> (r: Vec<Request>)
    ensures
        r@ == burn_requests(args@),
{
    let ghost orig = args@;
    let mut rest = args;
    let mut out: Vec<Request> = Vec::new();
    while rest.len() > 0
        invariant
            rest@.len() <= orig.len(),
            rest@ == orig.skip(orig.len() - rest@.len()),
            out@ =~= burn_requests(orig.take(orig.len() - rest@.len())),
        decreases rest@.len(),
    {
        let ghost i = orig.len() - rest@.len();
        let a = rest.remove(0);
        assert(orig[i] == a);
        assert(rest@ =~= orig.skip(i + 1));
        assert(orig.take(i + 1) =~= orig.take(i).push(a));
        out.push(Request::Burn(a));
    }
    assert(orig.take(orig.len() as int) =~= orig);
    out
}

impl State {
    /// Burns tokens of the caller's account, as a batch: each goes to the burn account.
    pub fn burn(&mut self, caller: &Vec<u8>, args: Vec<BurnArg>, now: u64) -> (r: BatchResult)
        requires
            old(self).wf(),
            old(self).txn_log.txn_count + args@.len() < u128::MAX,
        ensures
            final(self).wf(),
            r@ == batch_results(*old(self), caller@, burn_requests(args@), now),
            final(self).model() == batch_model(*old(self), caller@, burn_requests(args@), now),
            same_frame(*old(self), *final(self)),
    {
        let reqs = into_burn_requests(args);
        self.run_batch(caller, reqs, now)
    }
}

pub open spec fn approve_token_requests(args: Seq<ApproveTokenArg>) -> Seq<Request> {
    args.map_values(|a: ApproveTokenArg| Request::ApproveToken(a))
}

fn into_approve_token_requests(args: Vec<ApproveTokenArg>) -> (r: Vec<Request>)
    ensures
        r@ == approve_token_requests(args@),
{
    let ghost orig = args@;
    let mut rest = args;
    let mut out: Vec<Request> = Vec::new();
    while rest.len() > 0
        invariant
            rest@.len() <= orig.len(),
            rest@ == orig.skip(orig.len() - rest@.len()),
            out@ =~= approve_token_requests(orig.take(orig.len() - rest@.len())),
        decreases rest@.len(),
    {
        let ghost i = orig.len() - rest@.len();
        let a = rest.remove(0);
        assert(orig[i] == a);
        assert(rest@ =~= orig.skip(i + 1));
        assert(orig.take(i + 1) =~= orig.take(i).push(a));
        out.push(Request::ApproveToken(a));
    }
    assert(orig.take(orig.len() as int) =~= orig);
    out
}

impl State {
    /// Grants token-level approvals, as a batch.
    pub fn approve(&mut self, caller: &Vec<u8>, args: Vec<ApproveTokenArg>, now: u64) -> (r: BatchResult)
        requires
            old(self).wf(),
            old(self).txn_log.txn_count + args@.len() < u128::MAX,
        ensures
            final(self).wf(),
            r@ == batch_results(*old(self), caller@, approve_token_requests(args@), now),
            final(self).model() == batch_model(*old(self), caller@, approve_token_requests(args@), now),
            same_frame(*old(self), *final(self)),
    {
        let reqs = into_approve_token_requests(args);
        self.run_batch(caller, reqs, now)
    }
}

pub open spec fn approve_collection_requests(args: Seq<ApproveCollectionArg>) -> Seq<Request> {
    args.map_values(|a: ApproveCollectionArg| Request::ApproveCollection(a))
}

fn into_approve_collection_requests(args: Vec<ApproveCollectionArg>) -> (r: Vec<Request>)
    ensures
        r@ == approve_collection_requests(args@),
{
    let ghost orig = args@;
    let mut rest = args;
    let mut out: Vec<Request> = Vec::new();
    while rest.len() > 0
        invariant
            rest@.len() <= orig.len(),
            rest@ == orig.skip(orig.len() - rest@.len()),
            out@ =~= approve_collection_requests(orig.take(orig.len() - rest@.len())),
        decreases rest@.len(),
    {
        let ghost i = orig.len() - rest@.len();
        let a = rest.remove(0);
        assert(orig[i] == a);
        assert(rest@ =~= orig.skip(i + 1));
        assert(orig.take(i + 1) =~= orig.take(i).push(a));
        out.push(Request::ApproveCollection(a));
    }
    assert(orig.take(orig.len() as int) =~= orig);
    out
}

impl State {
    /// Grants collection-level approvals, as a batch.
    pub fn collection_approve(&mut self, caller: &Vec<u8>, args: Vec<ApproveCollectionArg>, now: u64) -> (r: BatchResult)
        requires
            old(self).wf(),
            old(self).txn_log.txn_count + args@.len() < u128::MAX,
        ensures
            final(self).wf(),
            r@ == batch_results(*old(self), caller@, approve_collection_requests(args@), now),
            final(self).model() == batch_model(*old(self), caller@, approve_collection_requests(args@), now),
            same_frame(*old(self), *final(self)),
    {
        let reqs = into_approve_collection_requests(args);
        self.run_batch(caller, reqs, now)
    }
}

pub open spec fn revoke_token_requests(args: Seq<RevokeTokenApprovalArg>) -> Seq<Request> {
    args.map_values(|a: RevokeTokenApprovalArg| Request::RevokeToken(a))
}

fn into_revoke_token_requests(args: Vec<RevokeTokenApprovalArg>) -> (r: Vec<Request>)
    ensures
        r@ == revoke_token_requests(args@),
{
    let ghost orig = args@;
    let mut rest = args;
    let mut out: Vec<Request> = Vec::new();
    while rest.len() > 0
        invariant
            rest@.len() <= orig.len(),
            rest@ == orig.skip(orig.len() - rest@.len()),
            out@ =~= revoke_token_requests(orig.take(orig.len() - rest@.len())),
        decreases rest@.len(),
    {
        let ghost i = orig.len() - rest@.len();
        let a = rest.remove(0);
        assert(orig[i] == a);
        assert(rest@ =~= orig.skip(i + 1));
        assert(orig.take(i + 1) =~= orig.take(i).push(a));
        out.push(Request::RevokeToken(a));
    }
    assert(orig.take(orig.len() as int) =~= orig);
    out
}

impl State {
    /// Revokes token-level approvals, as a batch.
    pub fn revoke_approve(&mut self, caller: &Vec<u8>, args: Vec<RevokeTokenApprovalArg>, now: u64) -> (r: BatchResult)
        requires
            old(self).wf(),
            old(self).txn_log.txn_count + args@.len() < u128::MAX,
        ensures
            final(self).wf(),
            r@ == batch_results(*old(self), caller@, revoke_token_requests(args@), now),
            final(self).model() == batch_model(*old(self), caller@, revoke_token_requests(args@), now),
            same_frame(*old(self), *final(self)),
    {
        let reqs = into_revoke_token_requests(args);
        self.run_batch(caller, reqs, now)
    }
}

pub open spec fn revoke_collection_requests(args: Seq<RevokeCollectionApprovalArg>) -> Seq<Request> {
    args.map_values(|a: RevokeCollectionApprovalArg| Request::RevokeCollection(a))
}

fn into_revoke_collection_requests(args: Vec<RevokeCollectionApprovalArg>) -> (r: Vec<Request>)
    ensures
        r@ == revoke_collection_requests(args@),
{
    let ghost orig = args@;
    let mut rest = args;
    let mut out: Vec<Request> = Vec::new();
    while rest.len() > 0
        invariant
            rest@.len() <= orig.len(),
            rest@ == orig.skip(orig.len() - rest@.len()),
            out@ =~= revoke_collection_requests(orig.take(orig.len() - rest@.len())),
        decreases rest@.len(),
    {
        let ghost i = orig.len() - rest@.len();
        let a = rest.remove(0);
        assert(orig[i] == a);
        assert(rest@ =~= orig.skip(i + 1));
        assert(orig.take(i + 1) =~= orig.take(i).push(a));
        out.push(Request::RevokeCollection(a));
    }
    assert(orig.take(orig.len() as int) =~= orig);
    out
}

impl State {
    /// Revokes collection-level approvals, as a batch.
    pub fn revoke_collection_approve(&mut self, caller: &Vec<u8>, args: Vec<RevokeCollectionApprovalArg>, now: u64) -> (r: BatchResult)
        requires
            old(self).wf(),
            old(self).txn_log.txn_count + args@.len() < u128::MAX,
        ensures
            final(self).wf(),
            r@ == batch_results(*old(self), caller@, revoke_collection_requests(args@), now),
            final(self).model() == batch_model(*old(self), caller@, revoke_collection_requests(args@), now),
            same_frame(*old(self), *final(self)),
    {
        let reqs = into_revoke_collection_requests(args);
        self.run_batch(caller, reqs, now)
    }
}

pub open spec fn transfer_from_requests(args: Seq<TransferFromArg>) -> Seq<Request> {
    args.map_values(|a: TransferFromArg| Request::TransferFrom(a))
}

fn into_transfer_from_requests(args: Vec<TransferFromArg>) -> (r: Vec<Request>)
    ensures
        r@ == transfer_from_requests(args@),
{
    let ghost orig = args@;
    let mut rest = args;
    let mut out: Vec<Request> = Vec::new();
    while rest.len() > 0
        invariant
            rest@.len() <= orig.len(),
            rest@ == orig.skip(orig.len() - rest@.len()),
            out@ =~= transfer_from_requests(orig.take(orig.len() - rest@.len())),
        decreases rest@.len(),
    {
        let ghost i = orig.len() - rest@.len();
        let a = rest.remove(0);
        assert(orig[i] == a);
        assert(rest@ =~= orig.skip(i + 1));
        assert(orig.take(i + 1) =~= orig.take(i).push(a));
        out.push(Request::TransferFrom(a));
    }
    assert(orig.take(orig.len() as int) =~= orig);
    out
}

impl State {
    /// Moves tokens on their owners' behalf under approvals, as a batch.
    pub fn transfer_from(&mut self, caller: &Vec<u8>, args: Vec<TransferFromArg>, now: u64) -> (r: BatchResult)
        requires
            old(self).wf(),
            old(self).txn_log.txn_count + args@.len() < u128::MAX,
        ensures
            final(self).wf(),
            r@ == batch_results(*old(self), caller@, transfer_from_requests(args@), now),
            final(self).model() == batch_model(*old(self), caller@, transfer_from_requests(args@), now),
            same_frame(*old(self), *final(self)),
    {
        let reqs = into_transfer_from_requests(args);
        self.run_batch(caller, reqs, now)
    }
}

} // verus!
