use vstd::prelude::*;
use crate::account::{copy_bytes, copy_opt_bytes, opt_bytes_view, Account};

verus! {

/// A value in a token's open-ended attribute list.
#[derive(Debug)]
pub enum MetaValue {
    Nat(u128),
    Text(String),
    Blob(Vec<u8>),
    Array(Vec<MetaValue>),
}

pub enum MetaView {
    Nat(u128),
    Text(Seq<char>),
    Blob(Seq<u8>),
    Array(Seq<MetaView>),
}

pub open spec fn value_view(v: MetaValue) -> MetaView
    decreases v,
{
    match v {
        MetaValue::Nat(n) => MetaView::Nat(n),
        MetaValue::Text(s) => MetaView::Text(s@),
        MetaValue::Blob(b) => MetaView::Blob(b@),
        MetaValue::Array(items) => MetaView::Array(values_view(items@)),
    }
}

pub open spec fn values_view(s: Seq<MetaValue>) -> Seq<MetaView>
    decreases s,
{
    if s.len() == 0 {
        seq![]
    } else {
        values_view(s.drop_last()).push(value_view(s.last()))
    }
}

impl View for MetaValue {
    type V = MetaView;

    open spec fn view(&self) -> MetaView {
        value_view(*self)
    }
}

impl Clone for MetaValue {
    fn clone(&self) -> Self {
        self.duplicate()
    }
}

impl MetaValue {
    pub fn duplicate(&self) -> (r: MetaValue)
        ensures
            r@ == self@,
        decreases self,
    {
        match self {
            MetaValue::Nat(n) => MetaValue::Nat(*n),
            MetaValue::Text(s) => MetaValue::Text(s.clone()),
            MetaValue::Blob(b) => MetaValue::Blob(copy_bytes(b)),
            MetaValue::Array(items) => {
                let mut out: Vec<MetaValue> = Vec::new();
                let mut i: usize = 0;
                while i < items.len()
                    invariant
                        *self == MetaValue::Array(*items),
                        i <= items@.len(),
                        values_view(out@) == values_view(items@.take(i as int)),
                    decreases items@.len() - i,
                {
                    proof {
                    assert(decreases_to!(*self => (*self)->Array_0));
                    assert((*self)->Array_0 == *items);
                    assert(decreases_to!(*items => items[i as int]));
                    assert(decreases_to!(*self => items[i as int]));
                }
                    let x = items[i].duplicate();
                    let ghost prev = out@;
                    out.push(x);
                    assert(out@.drop_last() =~= prev);
                    assert(items@.take(i as int + 1).drop_last() =~= items@.take(i as int));
                    i = i + 1;
                }
                assert(items@.take(items@.len() as int) =~= items@);
                MetaValue::Array(out)
            },
        }
    }
}

/// An attribute list: key and value pairs.
pub type Metadata = Vec<(String, MetaValue)>;

pub open spec fn meta_view(m: Seq<(String, MetaValue)>) -> Seq<(Seq<char>, MetaView)> {
    m.map_values(|e: (String, MetaValue)| (e.0@, e.1@))
}

/// A copy of an attribute list with the same keys and values.
pub fn copy_metadata(m: &Metadata) -> (r: Metadata)
    ensures
        meta_view(r@) == meta_view(m@),
{
    let mut out: Metadata = Vec::new();
    let mut i: usize = 0;
    while i < m.len()
        invariant
            i <= m@.len(),
            meta_view(out@) =~= meta_view(m@.take(i as int)),
        decreases m@.len() - i,
    {
        let k = m[i].0.clone();
        let v = m[i].1.duplicate();
        let ghost prev = out@;
        out.push((k, v));
        assert(m@.take(i as int + 1) =~= m@.take(i as int).push(m@[i as int]));
        assert(out@ =~= prev.push((k, v)));
        assert(meta_view(out@) =~= meta_view(prev).push((k@, v@)));
        i = i + 1;
    }
    assert(m@.take(m@.len() as int) =~= m@);
    out
}

pub open spec fn opt_text_view(o: Option<String>) -> Option<Seq<char>> {
    match o {
        Some(s) => Some(s@),
        None => None,
    }
}

pub fn copy_opt_text(o: &Option<String>) -> (r: Option<String>)
    ensures
        opt_text_view(r) == opt_text_view(*o),
{
    match o {
        Some(s) => Some(s.clone()),
        None => None,
    }
}

/// A delegated spending right: who may spend, until when, and why.
#[derive(Clone, Debug)]
pub struct ApprovalInfo {
    pub spender: Account,
    pub from_subaccount: Option<Vec<u8>>,
    pub expires_at: Option<u64>,
    pub memo: Option<Vec<u8>>,
    pub created_at_time: Option<u64>,
}

pub struct ApprovalView {
    pub spender: (Seq<u8>, Seq<u8>),
    pub from_subaccount: Option<Seq<u8>>,
    pub expires_at: Option<u64>,
    pub memo: Option<Seq<u8>>,
    pub created_at_time: Option<u64>,
}

impl View for ApprovalInfo {
    type V = ApprovalView;

    open spec fn view(&self) -> ApprovalView {
        ApprovalView {
            spender: self.spender@,
            from_subaccount: opt_bytes_view(self.from_subaccount),
            expires_at: self.expires_at,
            memo: opt_bytes_view(self.memo),
            created_at_time: self.created_at_time,
        }
    }
}

impl ApprovalInfo {
    pub fn duplicate(&self) -> (r: ApprovalInfo)
        ensures
            r@ == self@,
    {
        ApprovalInfo {
            spender: self.spender.duplicate(),
            from_subaccount: copy_opt_bytes(&self.from_subaccount),
            expires_at: self.expires_at,
            memo: copy_opt_bytes(&self.memo),
            created_at_time: self.created_at_time,
        }
    }
}

/// Whether an approval with this expiry is still in force at `now`.
pub open spec fn unexpired(expires_at: Option<u64>, now: u64) -> bool {
    match expires_at {
        None => true,
        Some(t) => t > now,
    }
}

/// One transfer of a batch.
#[derive(Clone, Debug)]
pub struct TransferArg {
    pub from_subaccount: Option<Vec<u8>>,
    pub to: Account,
    pub token_id: u128,
    pub memo: Option<Vec<u8>>,
    pub created_at_time: Option<u64>,
}

/// A mint request.
#[derive(Clone, Debug)]
pub struct MintArg {
    pub from_subaccount: Option<Vec<u8>>,
    pub to: Account,
    pub token_id: u128,
    pub memo: Option<Vec<u8>>,
    pub token_name: Option<String>,
    pub token_description: Option<String>,
    pub token_logo: Option<String>,
    pub extra_data: Option<Metadata>,
}

/// One burn of a batch.
#[derive(Clone, Debug)]
pub struct BurnArg {
    pub from_subaccount: Option<Vec<u8>>,
    pub token_id: u128,
    pub memo: Option<Vec<u8>>,
}

/// One token-level approval of a batch.
#[derive(Clone, Debug)]
pub struct ApproveTokenArg {
    pub token_id: u128,
    pub approval_info: ApprovalInfo,
}

/// One collection-level approval of a batch.
#[derive(Clone, Debug)]
pub struct ApproveCollectionArg {
    pub approval_info: ApprovalInfo,
}

/// One revocation of token-level approvals; no spender means all of them.
#[derive(Clone, Debug)]
pub struct RevokeTokenApprovalArg {
    pub spender: Option<Account>,
    pub from_subaccount: Option<Vec<u8>>,
    pub token_id: u128,
    pub memo: Option<Vec<u8>>,
    pub created_at_time: Option<u64>,
}

/// One revocation of collection-level approvals; no spender means all of them.
#[derive(Clone, Debug)]
pub struct RevokeCollectionApprovalArg {
    pub spender: Option<Account>,
    pub from_subaccount: Option<Vec<u8>>,
    pub memo: Option<Vec<u8>>,
    pub created_at_time: Option<u64>,
}

/// One spend on behalf of a token's owner.
#[derive(Clone, Debug)]
pub struct TransferFromArg {
    pub spender_subaccount: Option<Vec<u8>>,
    pub from: Account,
    pub to: Account,
    pub token_id: u128,
    pub memo: Option<Vec<u8>>,
    pub created_at_time: Option<u64>,
}

/// One request of a token approval check.
#[derive(Clone, Debug)]
pub struct IsApprovedArg {
    pub spender: Account,
    pub from_subaccount: Option<Vec<u8>>,
    pub token_id: u128,
}

/// Why a request, or a whole batch, was refused.
#[derive(Clone, Copy, Debug, PartialEq, Eq, Structural)]
pub enum LedgerError {
    NoArguments,
    BatchTooLarge,
    AnonymousCaller,
    NonExistingTokenId,
    Unauthorized,
    InvalidRecipient,
    InvalidSpender,
    MemoTooLarge,
    TooOld,
    CreatedInFuture { ledger_time: u64 },
    Duplicate { duplicate_of: u128 },
    SupplyCapReached,
    MintingAuthorityNotSet,
    TokenIdMinimumLimit,
    TokenIdAlreadyExist,
}

impl LedgerError {
    /// Whether the error concerns the whole batch rather than one item.
    pub open spec fn is_batch_error(self) -> bool {
        match self {
            LedgerError::NoArguments | LedgerError::BatchTooLarge | LedgerError::AnonymousCaller => true,
            _ => false,
        }
    }
}

/// The outcome of one item of a batch: the sequence id it was logged
/// under, or why it was refused; `None` where it was not attempted.
pub type BatchResult = Vec<Option<Result<u128, LedgerError>>>;

} // verus!
