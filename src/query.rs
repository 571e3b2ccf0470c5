//! Read-only queries over the ownership store, the approvals and the log.
use vstd::prelude::*;
use vstd::string::StringExecFns;
use crate::account::{opt_account_view, Account};
use crate::txlog::{blocks_view, Transaction, TxView};
use crate::archive::{ArchiveInfo, GetBlocksResult, Tip, TransactionRange};
use crate::state::{
    account_of, caller_account, records_view, token_metadata_view, owned_count, AccountView,
    ApprovalRecord, State, DEFAULT_MAX_QUERY_BATCH_SIZE, DEFAULT_MAX_TAKE_VALUE, DEFAULT_TAKE_VALUE,
};
use crate::types::{meta_view, ApprovalInfo, ApprovalView, IsApprovedArg, MetaValue, MetaView, Metadata};

verus! {

broadcast use vstd::std_specs::hash::group_hash_axioms;

/// At most the first `n` elements of `s`.
pub open spec fn first_n<A>(s: Seq<A>, n: nat) -> Seq<A> {
    if s.len() <= n {
        s
    } else {
        s.take(n as int)
    }
}

/// Holds of the ids after the cursor; every id where there is none.
pub open spec fn after(prev: Option<u128>) -> spec_fn(u128) -> bool {
    |id: u128| match prev {
        None => true,
        Some(p) => id > p,
    }
}

/// Holds of the ids after the cursor whose token `account` owns.
pub open spec fn owned_after(s: State, account: AccountView, prev: Option<u128>) -> spec_fn(u128) -> bool {
    |id: u128| after(prev)(id) && s.model().owners.contains_key(id) && s.model().owners[id] == account
}

impl State {
    /// The page size a listing uses: the requested one or the default, at
    /// most the configured ceiling.
    pub open spec fn page_size(&self, take: Option<u128>) -> nat {
        let max = match self.icrc7_max_take_value {
            Some(m) => m,
            None => DEFAULT_MAX_TAKE_VALUE,
        };
        let t = match take {
            Some(t) => t,
            None => match self.icrc7_default_take_value {
                Some(d) => d,
                None => DEFAULT_TAKE_VALUE,
            },
        };
        if t <= max {
            t as nat
        } else {
            max as nat
        }
    }

    pub fn get_current_take(&self, take: Option<u128>) -> (r: u128)
        ensures
            r == self.page_size(take),
    {
        let max = match self.icrc7_max_take_value {
            Some(m) => m,
            None => DEFAULT_MAX_TAKE_VALUE,
        };
        let t = match take {
            Some(t) => t,
            None => match self.icrc7_default_take_value {
                Some(d) => d,
                None => DEFAULT_TAKE_VALUE,
            },
        };
        if t <= max {
            t
        } else {
            max
        }
    }

    /// The owner of each listed token, none for an unknown id.
    pub fn icrc7_owner_of(&self, ids: &Vec<u128>) -> (r: Vec<Option<Account>>)
        ensures
            r@.len() == ids@.len(),
            forall|i: int| 0 <= i < ids@.len() ==> opt_account_view(#[trigger] r@[i]) == if self.model().owners.contains_key(ids@[i]) {
                Some(self.model().owners[ids@[i]])
            } else {
                None
            },
    {
        let mut r: Vec<Option<Account>> = Vec::new();
        let mut i: usize = 0;
        while i < ids.len()
            invariant
                i <= ids@.len(),
                r@.len() == i,
                forall|j: int| 0 <= j < i ==> opt_account_view(#[trigger] r@[j]) == if self.model().owners.contains_key(ids@[j]) {
                    Some(self.model().owners[ids@[j]])
                } else {
                    None
                },
            decreases ids@.len() - i,
        {
            let o = match self.tokens.get(&ids[i]) {
                Some(t) => Some(t.token_owner.duplicate()),
                None => None,
            };
            r.push(o);
            i = i + 1;
        }
        r
    }

    fn count_owned(&self, account: &Account) -> (r: u128)
        requires
            self.wf(),
        ensures
            r == owned_count(self.token_ids@, self.model().owners, account@),
    {
        let mut n: u128 = 0;
        let mut i: usize = 0;
        while i < self.token_ids.len()
            invariant
                i <= self.token_ids@.len(),
                n == owned_count(self.token_ids@.take(i as int), self.model().owners, account@),
                n <= i,
            decreases self.token_ids@.len() - i,
        {
            let id = self.token_ids[i];
            assert(self.token_ids@.take(i as int + 1).drop_last() =~= self.token_ids@.take(i as int));
            let owns = match self.tokens.get(&id) {
                Some(t) => t.token_owner.same(account),
                None => false,
            };
            if owns {
                n = n + 1;
            }
            i = i + 1;
        }
        assert(self.token_ids@.take(self.token_ids@.len() as int) =~= self.token_ids@);
        n
    }

    /// How many tokens each listed account owns.
    pub fn icrc7_balance_of(&self, accounts: &Vec<Account>) -> (r: Vec<u128>)
        requires
            self.wf(),
        ensures
            r@.len() == accounts@.len(),
            forall|i: int| 0 <= i < accounts@.len() ==> #[trigger] r@[i] == owned_count(self.token_ids@, self.model().owners, accounts@[i]@),
    {
        let mut r: Vec<u128> = Vec::new();
        let mut i: usize = 0;
        while i < accounts.len()
            invariant
                self.wf(),
                i <= accounts@.len(),
                r@.len() == i,
                forall|j: int| 0 <= j < i ==> #[trigger] r@[j] == owned_count(self.token_ids@, self.model().owners, accounts@[j]@),
            decreases accounts@.len() - i,
        {
            let c = self.count_owned(&accounts[i]);
            r.push(c);
            i = i + 1;
        }
        r
    }

    fn page_of_ids(&self, account: Option<&Account>, prev: Option<u128>, take: u128) -> (r: Vec<u128>)
        requires
            self.wf(),
        ensures
            r@ == first_n(
                self.token_ids@.filter(
                    match account {
                        Some(a) => owned_after(*self, a@, prev),
                        None => after(prev),
                    },
                ),
                take as nat,
            ),
    {
        let ghost p = match account {
            Some(a) => owned_after(*self, a@, prev),
            None => after(prev),
        };
        let ghost ids = self.token_ids@;
        let mut r: Vec<u128> = Vec::new();
        let mut i: usize = 0;
        while i < self.token_ids.len()
            invariant
                ids == self.token_ids@,
                p == (match account {
                    Some(a) => owned_after(*self, a@, prev),
                    None => after(prev),
                }),
                i <= ids.len(),
                r@ == first_n(ids.take(i as int).filter(p), take as nat),
            decreases ids.len() - i,
        {
            let id = self.token_ids[i];
            let later = match prev {
                Some(q) => id > q,
                None => true,
            };
            let wanted = match account {
                None => later,
                Some(a) => later && match self.tokens.get(&id) {
                    Some(t) => t.token_owner.same(a),
                    None => false,
                },
            };
            proof {
                assert(ids.take(i as int + 1) =~= ids.take(i as int).push(id));
                ids.take(i as int).lemma_filter_push(id, p);
                assert(p(id) == wanted);
            }
            if wanted && (r.len() as u128) < take {
                r.push(id);
            }
            i = i + 1;
        }
        assert(ids.take(ids.len() as int) =~= ids);
        r
    }

    /// The ids of all tokens after the cursor, ascending, one page.
    pub fn icrc7_tokens(&self, prev: Option<u128>, take: Option<u128>) -> (r: Vec<u128>)
        requires
            self.wf(),
        ensures
            r@ == first_n(self.token_ids@.filter(after(prev)), self.page_size(take)),
    {
        let n = self.get_current_take(take);
        self.page_of_ids(None, prev, n)
    }

    /// The ids of the tokens of `account` after the cursor, ascending, one
    /// page.
    pub fn icrc7_tokens_of(&self, account: &Account, prev: Option<u128>, take: Option<u128>) -> (r: Vec<u128>)
        requires
            self.wf(),
        ensures
            r@ == first_n(self.token_ids@.filter(owned_after(*self, account@, prev)), self.page_size(take)),
    {
        let n = self.get_current_take(take);
        self.page_of_ids(Some(account), prev, n)
    }

    /// The metadata of each listed token, none for an unknown id.
    pub fn icrc7_token_metadata(&self, ids: &Vec<u128>) -> (r: Vec<Option<Metadata>>)
        requires
            ids@.len() <= self.max_query_batch(),
        ensures
            r@.len() == ids@.len(),
            forall|i: int| 0 <= i < ids@.len() ==> (#[trigger] r@[i] is Some <==> self.tokens@.contains_key(ids@[i])),
            forall|i: int| 0 <= i < ids@.len() ==> (#[trigger] r@[i] matches Some(m) ==> meta_view(m@) == token_metadata_view(self.tokens@[ids@[i]])),
    {
        let mut r: Vec<Option<Metadata>> = Vec::new();
        let mut i: usize = 0;
        while i < ids.len()
            invariant
                i <= ids@.len(),
                r@.len() == i,
                forall|j: int| 0 <= j < i ==> (#[trigger] r@[j] is Some <==> self.tokens@.contains_key(ids@[j])),
                forall|j: int| 0 <= j < i ==> (#[trigger] r@[j] matches Some(m) ==> meta_view(m@) == token_metadata_view(self.tokens@[ids@[j]])),
            decreases ids@.len() - i,
        {
            let m = match self.tokens.get(&ids[i]) {
                Some(t) => Some(t.token_metadata()),
                None => None,
            };
            r.push(m);
            i = i + 1;
        }
        r
    }
}

/// Whether `a` sorts before `b`, comparing from position `i` on: the first
/// differing byte decides, and a proper prefix sorts first.
pub open spec fn bytes_lt_from(a: Seq<u8>, b: Seq<u8>, i: int) -> bool
    decreases a.len() - i,
{
    if i < 0 || i >= a.len() {
        i >= 0 && i < b.len()
    } else if i >= b.len() {
        false
    } else if a[i] != b[i] {
        a[i] < b[i]
    } else {
        bytes_lt_from(a, b, i + 1)
    }
}

/// The lexicographic order of byte strings.
pub open spec fn bytes_lt(a: Seq<u8>, b: Seq<u8>) -> bool {
    bytes_lt_from(a, b, 0)
}

/// The order of accounts: by principal, then by subaccount.
pub open spec fn account_lt(a: AccountView, b: AccountView) -> bool {
    bytes_lt(a.0, b.0) || (a.0 == b.0 && bytes_lt(a.1, b.1))
}

fn bytes_less(a: &Vec<u8>, b: &Vec<u8>) -> (r: bool)
    ensures
        r == bytes_lt(a@, b@),
{
    let mut i: usize = 0;
    while i < a.len() && i < b.len() && a[i] == b[i]
        invariant
            i <= a@.len(),
            i <= b@.len(),
            bytes_lt(a@, b@) == bytes_lt_from(a@, b@, i as int),
        decreases a@.len() - i,
    {
        i = i + 1;
    }
    if i >= a.len() {
        i < b.len()
    } else if i >= b.len() {
        false
    } else {
        a[i] < b[i]
    }
}

/// Whether account `a` sorts before account `b`.
pub fn account_less(a: &Account, b: &Account) -> (r: bool)
    ensures
        r == account_lt(a@, b@),
{
    bytes_less(&a.owner, &b.owner) || (crate::account::bytes_eq(&a.owner, &b.owner) && bytes_less(
        &a.subaccount,
        &b.subaccount,
    ))
}

/// Whether a spender lies after the cursor.
pub open spec fn past_cursor(spender: AccountView, cursor: Option<AccountView>) -> bool {
    match cursor {
        None => true,
        Some(c) => account_lt(c, spender),
    }
}

/// The record of `owner` with the least spender after the cursor; of equal
/// spenders, the earliest.
pub open spec fn least_after(
    rs: Seq<crate::state::RecordView>,
    owner: AccountView,
    cursor: Option<AccountView>,
) -> Option<crate::state::RecordView>
    decreases rs.len(),
{
    if rs.len() == 0 {
        None
    } else {
        let m = least_after(rs.drop_last(), owner, cursor);
        let x = rs.last();
        if x.0 == owner && past_cursor(x.1.spender, cursor) {
            match m {
                None => Some(x),
                Some(y) => if account_lt(x.1.spender, y.1.spender) {
                    Some(x)
                } else {
                    Some(y)
                },
            }
        } else {
            m
        }
    }
}

/// Up to `n` approvals that `owner` granted among `rs`, by ascending
/// spender, starting after the cursor.
pub open spec fn approval_page(
    rs: Seq<crate::state::RecordView>,
    owner: AccountView,
    cursor: Option<AccountView>,
    n: nat,
) -> Seq<ApprovalView>
    decreases n,
{
    if n == 0 {
        seq![]
    } else {
        match least_after(rs, owner, cursor) {
            None => seq![],
            Some(x) => seq![x.1] + approval_page(rs, owner, Some(x.1.spender), (n - 1) as nat),
        }
    }
}

pub open spec fn infos_view(v: Seq<ApprovalInfo>) -> Seq<ApprovalView> {
    v.map_values(|a: ApprovalInfo| a@)
}

fn find_least_after(records: &Vec<ApprovalRecord>, owner: &Account, cursor: &Option<Account>) -> (r: Option<usize>)
    ensures
        match r {
            None => least_after(records_view(records@), owner@, opt_account_view(*cursor)) is None,
            Some(k) => k < records@.len() && least_after(records_view(records@), owner@, opt_account_view(*cursor))
                == Some(records@[k as int]@),
        },
{
    let ghost rv = records_view(records@);
    let mut best: Option<usize> = None;
    let mut i: usize = 0;
    while i < records.len()
        invariant
            rv == records_view(records@),
            i <= records@.len(),
            match best {
                None => least_after(rv.take(i as int), owner@, opt_account_view(*cursor)) is None,
                Some(k) => k < i && least_after(rv.take(i as int), owner@, opt_account_view(*cursor))
                    == Some(records@[k as int]@),
            },
        decreases records@.len() - i,
    {
        let rec = &records[i];
        proof {
            let t = rv.take(i as int + 1);
            assert(t.drop_last() =~= rv.take(i as int));
            assert(t.last() == rec@);
        }
        let past = match cursor {
            None => true,
            Some(c) => account_less(c, &rec.info.spender),
        };
        if rec.owner.same(owner) && past {
            match best {
                None => {
                    best = Some(i);
                },
                Some(k) => {
                    if account_less(&rec.info.spender, &records[k].info.spender) {
                        best = Some(i);
                    }
                },
            }
        }
        i = i + 1;
    }
    assert(rv.take(rv.len() as int) =~= rv);
    best
}

fn list_approvals(records: &Vec<ApprovalRecord>, owner: &Account, prev: &Option<Account>, take: u128) -> (r: Vec<ApprovalInfo>)
    ensures
        infos_view(r@) == approval_page(records_view(records@), owner@, opt_account_view(*prev), take as nat),
{
    let ghost rv = records_view(records@);
    let mut out: Vec<ApprovalInfo> = Vec::new();
    let mut cursor: Option<Account> = crate::account::copy_opt_account(prev);
    let mut k: u128 = 0;
    while k < take
        invariant
            rv == records_view(records@),
            k <= take,
            infos_view(out@) + approval_page(rv, owner@, opt_account_view(cursor), (take - k) as nat)
                == approval_page(rv, owner@, opt_account_view(*prev), take as nat),
        decreases take - k,
    {
        match find_least_after(records, owner, &cursor) {
            None => {
                assert(infos_view(out@) =~= infos_view(out@) + approval_page(rv, owner@, opt_account_view(cursor), (take - k) as nat));
                return out;
            },
            Some(j) => {
                let info = records[j].info.duplicate();
                let next = records[j].info.spender.duplicate();
                let ghost prevo = out@;
                let ghost x = records@[j as int]@;
                out.push(info);
                assert(infos_view(out@) =~= infos_view(prevo).push(x.1));
                assert(approval_page(rv, owner@, opt_account_view(cursor), (take - k) as nat)
                    == seq![x.1] + approval_page(rv, owner@, Some(x.1.spender), (take - k - 1) as nat));
                assert(infos_view(prevo) + (seq![x.1] + approval_page(rv, owner@, Some(x.1.spender), (take - k - 1) as nat))
                    =~= infos_view(prevo).push(x.1) + approval_page(rv, owner@, Some(x.1.spender), (take - k - 1) as nat));
                cursor = Some(next);
            },
        }
        k = k + 1;
    }
    assert(infos_view(out@) =~= infos_view(out@) + approval_page(rv, owner@, opt_account_view(cursor), 0));
    out
}

impl State {
    /// One page of the token-level approvals that the token's current owner
    /// granted, after the cursor's spender; none for an unknown token.
    pub fn icrc37_get_token_approvals(&self, token_id: u128, prev: &Option<Account>, take: Option<u128>) -> (r: Vec<ApprovalInfo>)
        ensures
            infos_view(r@) == if self.tokens@.contains_key(token_id) && self.token_approvals@.contains_key(token_id) {
                approval_page(
                    records_view(self.token_approvals@[token_id]@),
                    self.tokens@[token_id].token_owner@,
                    opt_account_view(*prev),
                    self.page_size(take),
                )
            } else {
                Seq::<ApprovalView>::empty()
            },
    {
        let n = self.get_current_take(take);
        match self.tokens.get(&token_id) {
            None => {
                let r: Vec<ApprovalInfo> = Vec::new();
                assert(infos_view(r@) =~= Seq::<ApprovalView>::empty());
                r
            },
            Some(t) => match self.token_approvals.get(&token_id) {
                None => {
                    let r: Vec<ApprovalInfo> = Vec::new();
                    assert(infos_view(r@) =~= Seq::<ApprovalView>::empty());
                    r
                },
                Some(records) => list_approvals(records, &t.token_owner, prev, n),
            },
        }
    }

    /// One page of the collection-level approvals that `owner` granted,
    /// after the cursor's spender.
    pub fn icrc37_get_collection_approvals(&self, owner: &Account, prev: &Option<Account>, take: Option<u128>) -> (r: Vec<ApprovalInfo>)
        ensures
            infos_view(r@) == approval_page(
                records_view(self.collection_approvals@),
                owner@,
                opt_account_view(*prev),
                self.page_size(take),
            ),
    {
        let n = self.get_current_take(take);
        list_approvals(&self.collection_approvals, owner, prev, n)
    }
}

pub open spec fn txs_of(v: Seq<Transaction>) -> Seq<TxView> {
    v.map_values(|t: Transaction| t@)
}

impl State {
    /// For each request, whether its spender may move the token of the
    /// caller's account, under a token-level or collection-level approval
    /// in force at `now`. An empty or oversized request list gets no
    /// answers; the anonymous caller gets `false` throughout.
    pub fn icrc37_is_approved(&self, caller: &Vec<u8>, args: &Vec<IsApprovedArg>, now: u64) -> (r: Vec<bool>)
        ensures
            (args@.len() == 0 || args@.len() > self.max_query_batch()) ==> r@.len() == 0,
            !(args@.len() == 0 || args@.len() > self.max_query_batch()) ==> {
                &&& r@.len() == args@.len()
                &&& forall|i: int| 0 <= i < args@.len() ==> #[trigger] r@[i] == (caller@ != crate::account::anonymous_principal() && {
                    let owner = account_of(caller@, crate::account::opt_bytes_view(args@[i].from_subaccount));
                    self.model().approved_by_collection(owner, args@[i].spender@, now)
                        || self.model().approved_by_token(args@[i].token_id, owner, args@[i].spender@, now)
                })
            },
    {
        let max: u16 = match self.icrc7_max_query_batch_size {
            Some(m) => m,
            None => DEFAULT_MAX_QUERY_BATCH_SIZE,
        };
        let mut r: Vec<bool> = Vec::new();
        if args.len() == 0 || args.len() > max as usize {
            return r;
        }
        let anonymous = crate::account::is_anonymous_principal(caller);
        let mut i: usize = 0;
        while i < args.len()
            invariant
                i <= args@.len(),
                r@.len() == i,
                anonymous == (caller@ == crate::account::anonymous_principal()),
                forall|j: int| 0 <= j < i ==> #[trigger] r@[j] == (caller@ != crate::account::anonymous_principal() && {
                    let owner = account_of(caller@, crate::account::opt_bytes_view(args@[j].from_subaccount));
                    self.model().approved_by_collection(owner, args@[j].spender@, now)
                        || self.model().approved_by_token(args@[j].token_id, owner, args@[j].spender@, now)
                }),
            decreases args@.len() - i,
        {
            let a = &args[i];
            let ok = if anonymous {
                false
            } else {
                let owner = caller_account(caller, &a.from_subaccount);
                self.is_approved_by_collection(&owner, &a.spender, now) || self.is_approved_by_token(
                    a.token_id,
                    &owner,
                    &a.spender,
                    now,
                )
            };
            r.push(ok);
            i = i + 1;
        }
        r
    }

    /// The advertised approval limits, each listed only where it is set.
    pub fn icrc37_metadata(&self) -> (r: Metadata)
        ensures
            meta_view(r@) == (if self.approval_ledger_info.max_approvals_per_token_or_collection > 0 {
                seq![("icrc37:max_approvals_per_token_or_collection"@, MetaView::Nat(self.approval_ledger_info.max_approvals_per_token_or_collection))]
            } else {
                seq![]
            }) + (if self.approval_ledger_info.max_revoke_approvals > 0 {
                seq![("icrc37:max_revoke_approvals"@, MetaView::Nat(self.approval_ledger_info.max_revoke_approvals))]
            } else {
                seq![]
            }),
    {
        let mut r: Metadata = Vec::new();
        let a = self.approval_ledger_info.max_approvals_per_token_or_collection;
        let b = self.approval_ledger_info.max_revoke_approvals;
        if a > 0 {
            r.push((String::from_str("icrc37:max_approvals_per_token_or_collection"), MetaValue::Nat(a)));
        }
        let ghost first = r@;
        if b > 0 {
            r.push((String::from_str("icrc37:max_revoke_approvals"), MetaValue::Nat(b)));
        }
        assert(meta_view(r@) =~= (if a > 0 {
            seq![("icrc37:max_approvals_per_token_or_collection"@, MetaView::Nat(a))]
        } else {
            seq![]
        }) + (if b > 0 {
            seq![("icrc37:max_revoke_approvals"@, MetaView::Nat(b))]
        } else {
            seq![]
        }));
        r
    }

    /// Copies of up to `size` transactions held locally, from position
    /// `offset` of the local log.
    fn local_txs(&self, offset: u128, size: u128) -> (r: Vec<Transaction>)
        ensures
            txs_of(r@) == first_n(
                crate::state::txs_view(blocks_view(self.txn_log.blocks@)).skip(
                    if offset <= self.txn_log.blocks@.len() { offset as int } else { self.txn_log.blocks@.len() as int },
                ),
                size as nat,
            ),
    {
        let ghost all = crate::state::txs_view(blocks_view(self.txn_log.blocks@));
        let len = self.txn_log.blocks.len();
        let start: usize = if offset <= len as u128 { offset as usize } else { len };
        let ghost rest = all.skip(start as int);
        let mut r: Vec<Transaction> = Vec::new();
        let mut i: usize = start;
        while i < len && (r.len() as u128) < size
            invariant
                all == crate::state::txs_view(blocks_view(self.txn_log.blocks@)),
                len == self.txn_log.blocks@.len(),
                start <= i <= len,
                rest == all.skip(start as int),
                r@.len() == i - start,
                r@.len() <= size,
                txs_of(r@) =~= rest.take(i - start),
            decreases len - i,
        {
            let t = self.txn_log.blocks[i].tx.duplicate();
            let ghost prev = r@;
            r.push(t);
            assert(txs_of(r@) =~= txs_of(prev).push(t@));
            assert(rest.take(i + 1 - start) =~= rest.take(i - start).push(rest[i - start]));
            i = i + 1;
        }
        assert(first_n(rest, size as nat) =~= rest.take(r@.len() as int));
        r
    }

    /// One page of the locally held transactions: page `page_number`
    /// (counted from 1) of `page_size` entries.
    pub fn icrc7_txn_logs(&self, page_number: u32, page_size: u32) -> (r: Vec<Transaction>)
        requires
            page_number >= 1,
        ensures
            txs_of(r@) == first_n(
                crate::state::txs_view(blocks_view(self.txn_log.blocks@)).skip(
                    if (page_number - 1) * page_size <= self.txn_log.blocks@.len() {
                        (page_number - 1) * page_size
                    } else {
                        self.txn_log.blocks@.len() as int
                    },
                ),
                page_size as nat,
            ),
    {
        let pages = page_number as u64 - 1;
        assert(pages * (page_size as u64) <= 0xffff_ffffu64 * 0xffff_ffffu64) by (nonlinear_arith)
            requires
                pages <= 0xffff_ffffu64,
                page_size <= 0xffff_ffffu32,
        ;
        let offset64 = pages * page_size as u64;
        assert(offset64 == (page_number - 1) * page_size) by (nonlinear_arith)
            requires
                pages == page_number - 1,
                offset64 == pages * page_size,
        ;
        let offset = offset64 as u128;
        self.local_txs(offset, page_size as u128)
    }

    /// Copies of the `size` oldest transactions held locally.
    pub fn get_txn_logs(&self, size: usize) -> (r: Vec<Transaction>)
        ensures
            txs_of(r@) == first_n(crate::state::txs_view(blocks_view(self.txn_log.blocks@)), size as nat),
    {
        let r = self.local_txs(0, size as u128);
        assert(crate::state::txs_view(blocks_view(self.txn_log.blocks@)).skip(0) =~= crate::state::txs_view(blocks_view(self.txn_log.blocks@)));
        r
    }

    /// Resolves requested spans of the log; see `TxLog::get_blocks`.
    pub fn icrc3_get_blocks(&self, args: &Vec<TransactionRange>) -> (r: GetBlocksResult)
        requires
            self.wf(),
        ensures
            r.log_length == self.txn_log.txn_count,
            crate::archive::query_blocks_view(r.blocks@) == crate::archive::local_parts(
                blocks_view(self.txn_log.blocks@),
                self.txn_log.first_index,
                self.txn_log.txn_count,
                args@,
            ),
            crate::archive::redirects_view(r.archived_blocks@) == crate::archive::redirects(self.txn_log.archives@, args@),
    {
        self.txn_log.get_blocks(args)
    }

    /// Lists the holders of log entries; see `TxLog::get_archives`.
    pub fn icrc3_get_archives(&self, self_id: &Vec<u8>, from: &Option<Vec<u8>>) -> (r: Vec<ArchiveInfo>)
        requires
            self.wf(),
        ensures
            crate::archive::archive_info_view(r@) == match crate::account::opt_bytes_view(*from) {
                None => seq![(self_id@, self.txn_log.first_index, self.txn_log.txn_count)] + crate::archive::archive_items(self.txn_log.archives@),
                Some(x) => if x == self_id@ {
                    crate::archive::archive_items(self.txn_log.archives@)
                } else {
                    crate::archive::archive_items(crate::archive::archives_after(self.txn_log.archives@, x))
                },
            },
    {
        self.txn_log.get_archives(self_id, from)
    }

    /// The tip with its witness; see `TxLog::get_tip`.
    pub fn icrc3_get_tip(&self) -> (r: Option<Tip>)
        requires
            self.wf(),
        ensures
            r is Some <==> self.txn_log.txn_count > 0,
            r matches Some(t) ==> {
                &&& crate::account::opt_bytes_view(self.txn_log.latest_hash) == Some(t.last_block_hash@)
                &&& t.last_block_index@ == crate::encode::be_bytes((self.txn_log.txn_count - 1) as nat, 16)
                &&& t.hash_tree@ == crate::certify::tip_witness((self.txn_log.txn_count - 1) as u128, t.last_block_hash@)
            },
    {
        self.txn_log.get_tip()
    }

    /// The witness that goes with the platform's certificate of the tip;
    /// none before the first block.
    pub fn icrc3_get_tip_certificate(&self) -> (r: Option<Vec<u8>>)
        requires
            self.wf(),
        ensures
            r is Some <==> self.txn_log.txn_count > 0,
            r matches Some(w) ==> self.txn_log.latest_hash matches Some(h) && w@ == crate::certify::tip_witness(
                (self.txn_log.txn_count - 1) as u128,
                h@,
            ),
    {
        match self.txn_log.get_tip() {
            Some(t) => Some(t.hash_tree),
            None => None,
        }
    }
}

} // verus!
