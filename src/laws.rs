//! Properties that relate several operations, proved over their contracts.
use vstd::prelude::*;
use crate::account::opt_bytes_view;
use crate::batch::{aborts, apply, batch_error, batch_model, batch_results, checks_of, Request};
use crate::state::{account_of, AccountView, LedgerModel, State};
use crate::txlog::{blocks_view, OpView, TxView};
use crate::types::{LedgerError, TransferArg};

verus! {

/// An atomic batch in which some request fails validation commits nothing:
/// the model is unchanged and no slot reports a sequence id. Since the
/// state itself is then unchanged (see `State::run_batch`), submitting the
/// same batch again gives the same slots.
pub proof fn lemma_atomic_batch_commits_nothing(s: State, caller: Seq<u8>, reqs: Seq<Request>, now: u64)
    requires
        s.icrc7_atomic_batch_transfers == Some(true),
        batch_error(s, caller, reqs.len()) is None,
        exists|i: int| 0 <= i < reqs.len() && #[trigger] checks_of(s, caller, reqs, now)[i] is Err,
    ensures
        batch_model(s, caller, reqs, now) == s.model(),
        forall|i: int| 0 <= i < reqs.len() ==> !(#[trigger] batch_results(s, caller, reqs, now)[i] matches Some(Ok(_))),
        forall|i: int| 0 <= i < reqs.len() ==> (#[trigger] batch_results(s, caller, reqs, now)[i] is None
            <==> checks_of(s, caller, reqs, now)[i] is Ok),
{
    let checks = checks_of(s, caller, reqs, now);
    let i = choose|i: int| 0 <= i < reqs.len() && #[trigger] checks_of(s, caller, reqs, now)[i] is Err;
    assert(checks[i] is Err);
    assert(aborts(s, checks));
}

/// Replay protection: when the newest logged block is a transfer created at
/// `t`, the same transfer submitted again while `t` is still inside the
/// window is refused as a duplicate of that block's sequence id.
pub proof fn lemma_repeated_transfer_is_duplicate(s: State, caller: Seq<u8>, a: TransferArg, now: u64)
    requires
        s.wf(),
        s.model().txs.len() > 0,
        a.created_at_time matches Some(t) && t >= s.window_floor(now) && t <= now + s.drift()
            && s.model().txs.last() == (TxView {
            id: s.model().txs.last().id,
            op: OpView::Transfer {
                tid: a.token_id,
                from: account_of(caller, opt_bytes_view(a.from_subaccount)),
                to: a.to@,
            },
            ts: t,
            memo: opt_bytes_view(a.memo),
        }),
    ensures
        s.check(caller, Request::Transfer(a), now) == Err::<(), LedgerError>(
            LedgerError::Duplicate { duplicate_of: s.model().txs.last().id },
        ),
{
    let bv = blocks_view(s.txn_log.blocks@);
    assert(bv.last().tx == s.model().txs.last());
}

/// A committed transfer, spend on behalf or burn leaves no token-level
/// approval of that token in force, for any owner, spender and time.
pub proof fn lemma_moving_a_token_voids_its_approvals(
    m: LedgerModel,
    burn: AccountView,
    caller: Seq<u8>,
    req: Request,
    now: u64,
    owner: AccountView,
    spender: AccountView,
    at: u64,
)
    requires
        req is Transfer || req is TransferFrom || req is Burn,
    ensures
        !apply(m, burn, caller, req, now).approved_by_token(
            crate::batch::request_token(req).unwrap(),
            owner,
            spender,
            at,
        ),
{
}

/// Revoking every approval of a token and then transferring it leaves no
/// token-level approval of it in force.
pub proof fn lemma_revoke_then_transfer(
    m: LedgerModel,
    burn: AccountView,
    caller: Seq<u8>,
    revoke: Request,
    transfer: Request,
    now: u64,
    owner: AccountView,
    spender: AccountView,
    at: u64,
)
    requires
        revoke is RevokeToken,
        transfer is Transfer,
        revoke->RevokeToken_0.token_id == transfer->Transfer_0.token_id,
    ensures
        !apply(apply(m, burn, caller, revoke, now), burn, caller, transfer, now).approved_by_token(
            transfer->Transfer_0.token_id,
            owner,
            spender,
            at,
        ),
{
    lemma_moving_a_token_voids_its_approvals(
        apply(m, burn, caller, revoke, now),
        burn,
        caller,
        transfer,
        now,
        owner,
        spender,
        at,
    );
}

} // verus!
