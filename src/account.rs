use vstd::prelude::*;

verus! {

/// The principal that stands for an unauthenticated caller.
pub open spec fn anonymous_principal() -> Seq<u8> {
    seq![4u8]
}

/// An account: a principal's bytes and its effective subaccount.
///
/// An absent subaccount is written as its default value before it reaches
/// the ledger, so two accounts are the same exactly when both byte strings
/// are equal.
#[derive(Clone, Debug)]
pub struct Account {
    pub owner: Vec<u8>,
    pub subaccount: Vec<u8>,
}

impl View for Account {
    type V = (Seq<u8>, Seq<u8>);

    open spec fn view(&self) -> (Seq<u8>, Seq<u8>) {
        (self.owner@, self.subaccount@)
    }
}

/// Compares two byte strings.
pub fn bytes_eq(a: &Vec<u8>, b: &Vec<u8>) -> (r: bool)
    ensures
        r == (a@ == b@),
{
    if a.len() != b.len() {
        return false;
    }
    let mut i: usize = 0;
    while i < a.len()
        invariant
            a@.len() == b@.len(),
            i <= a@.len(),
            forall|j: int| 0 <= j < i ==> a@[j] == b@[j],
        decreases a@.len() - i,
    {
        if a[i] != b[i] {
            return false;
        }
        i = i + 1;
    }
    assert(a@ =~= b@);
    true
}

/// Copies a byte string.
pub fn copy_bytes(a: &Vec<u8>) -> (r: Vec<u8>)
    ensures
        r@ == a@,
{
    vstd::slice::slice_to_vec(a.as_slice())
}

/// Copies an optional byte string.
pub fn copy_opt_bytes(a: &Option<Vec<u8>>) -> (r: Option<Vec<u8>>)
    ensures
        opt_bytes_view(r) == opt_bytes_view(*a),
{
    match a {
        Some(b) => Some(copy_bytes(b)),
        None => None,
    }
}

pub open spec fn opt_bytes_view(a: Option<Vec<u8>>) -> Option<Seq<u8>> {
    match a {
        Some(b) => Some(b@),
        None => None,
    }
}

pub open spec fn opt_account_view(a: Option<Account>) -> Option<(Seq<u8>, Seq<u8>)> {
    match a {
        Some(b) => Some(b@),
        None => None,
    }
}

impl Account {
    pub fn new(owner: Vec<u8>, subaccount: Vec<u8>) -> (r: Account)
        ensures
            r.owner@ == owner@,
            r.subaccount@ == subaccount@,
    {
        Account { owner, subaccount }
    }

    /// Whether two accounts are the same.
    pub fn same(&self, other: &Account) -> (r: bool)
        ensures
            r == (self@ == other@),
    {
        bytes_eq(&self.owner, &other.owner) && bytes_eq(&self.subaccount, &other.subaccount)
    }

    /// A copy with the same bytes.
    pub fn duplicate(&self) -> (r: Account)
        ensures
            r@ == self@,
    {
        Account { owner: copy_bytes(&self.owner), subaccount: copy_bytes(&self.subaccount) }
    }

    /// Whether the account belongs to the anonymous principal.
    pub fn is_anonymous(&self) -> (r: bool)
        ensures
            r == (self.owner@ == anonymous_principal()),
    {
        is_anonymous_principal(&self.owner)
    }
}

/// Copies an optional account.
pub fn copy_opt_account(a: &Option<Account>) -> (r: Option<Account>)
    ensures
        opt_account_view(r) == opt_account_view(*a),
{
    match a {
        Some(b) => Some(b.duplicate()),
        None => None,
    }
}

/// Whether a principal's bytes are those of the anonymous principal.
pub fn is_anonymous_principal(p: &Vec<u8>) -> (r: bool)
    ensures
        r == (p@ == anonymous_principal()),
{
    let anon = anonymous_principal_bytes();
    bytes_eq(p, &anon)
}

/// Relies on candid::Principal::anonymous: the anonymous principal is the
/// single tag byte 4.
#[verifier::external_body]
fn anonymous_principal_bytes() -> (r: Vec<u8>)
    ensures
        r@ == anonymous_principal(),
{
    candid::Principal::anonymous().as_slice().to_vec()
}

} // verus!
