//! Minting new tokens.
use vstd::prelude::*;
use vstd::string::StringExecFns;
use crate::account::opt_bytes_view;
use crate::batch::logged;
use crate::state::{account_of, caller_account, token_metadata_view, Icrc7Token, LedgerModel, State};
use crate::txlog::OpView;
use crate::types::{meta_view, opt_text_view, LedgerError, Metadata, MintArg};

verus! {

broadcast use vstd::std_specs::hash::group_hash_axioms;

impl State {
    /// Whether a mint would be accepted, and if not, why.
    pub open spec fn mint_check(&self, caller: Seq<u8>, arg: MintArg) -> Result<(), LedgerError> {
        let c = account_of(caller, opt_bytes_view(arg.from_subaccount));
        if self.icrc7_supply_cap matches Some(cap) && self.icrc7_total_supply >= cap {
            Err(LedgerError::SupplyCapReached)
        } else if self.minting_authority is None {
            Err(LedgerError::MintingAuthorityNotSet)
        } else if self.minting_authority.unwrap()@ != c {
            Err(LedgerError::Unauthorized)
        } else if !self.memo_ok(arg.memo) {
            Err(LedgerError::MemoTooLarge)
        } else if arg.token_id < self.next_token_id {
            Err(LedgerError::TokenIdMinimumLimit)
        } else if self.tokens@.contains_key(arg.token_id) {
            Err(LedgerError::TokenIdAlreadyExist)
        } else {
            Ok(())
        }
    }

    fn mint_check_exec(&self, caller: &Vec<u8>, arg: &MintArg) -> (r: Result<(), LedgerError>)
        ensures
            r == self.mint_check(caller@, *arg),
    {
        let c = caller_account(caller, &arg.from_subaccount);
        let cap_reached = match self.icrc7_supply_cap {
            Some(cap) => self.icrc7_total_supply >= cap,
            None => false,
        };
        if cap_reached {
            return Err(LedgerError::SupplyCapReached);
        }
        match &self.minting_authority {
            None => Err(LedgerError::MintingAuthorityNotSet),
            Some(auth) => {
                let memo_ok = match &arg.memo {
                    None => true,
                    Some(m) => {
                        let max: u32 = match self.icrc7_max_memo_size {
                            Some(x) => x,
                            None => crate::state::DEFAULT_MAX_MEMO_SIZE,
                        };
                        m.len() as u128 <= max as u128
                    },
                };
                if !auth.same(&c) {
                    Err(LedgerError::Unauthorized)
                } else if !memo_ok {
                    Err(LedgerError::MemoTooLarge)
                } else if arg.token_id < self.next_token_id {
                    Err(LedgerError::TokenIdMinimumLimit)
                } else if self.tokens.contains_key(&arg.token_id) {
                    Err(LedgerError::TokenIdAlreadyExist)
                } else {
                    Ok(())
                }
            },
        }
    }

    /// The name a token gets where the mint gives none: the collection's
    /// symbol, a space and the token id in decimal.
    fn default_token_name(&self, id: u128) -> (r: String)
        ensures
            exists|s: String|
                vstd::string::to_string_from_display_ensures::<u128>(&id, s) && r@ == self.icrc7_symbol@
                    + seq![' '] + s@,
    {
        let digits = id.to_string();
        let name = self.icrc7_symbol.clone().concat(" ");
        proof {
            reveal_strlit(" ");
        }
        let r = name.concat(digits.as_str());
        assert(r@ == self.icrc7_symbol@ + seq![' '] + digits@);
        r
    }

    /// Mints a token to `arg.to` on behalf of the minting authority and logs
    /// it.
    pub fn mint(&mut self, caller: &Vec<u8>, arg: MintArg, now: u64) -> (r: Result<u128, LedgerError>)
        requires
            old(self).wf(),
            old(self).txn_log.txn_count < u128::MAX,
            arg.token_id < u128::MAX,
        ensures
            final(self).wf(),
            r is Err ==> *final(self) == *old(self),
            r matches Err(e) ==> old(self).mint_check(caller@, arg) == Err::<(), LedgerError>(e),
            r is Ok <==> old(self).mint_check(caller@, arg) is Ok,
            r matches Ok(id) ==> {
                let t = final(self).tokens@[arg.token_id];
                &&& id == old(self).txn_log.txn_count
                &&& final(self).tokens@ == old(self).tokens@.insert(arg.token_id, t)
                &&& t.token_id == arg.token_id
                &&& t.token_owner@ == arg.to@
                &&& opt_text_view(t.token_description) == opt_text_view(arg.token_description)
                &&& opt_text_view(t.token_logo) == opt_text_view(arg.token_logo)
                &&& meta_view(t.extra_data@) == match arg.extra_data {
                    Some(m) => meta_view(m@),
                    None => seq![],
                }
                &&& match arg.token_name {
                    Some(n) => t.token_name@ == n@,
                    None => exists|s: String|
                        vstd::string::to_string_from_display_ensures::<u128>(&arg.token_id, s)
                            && t.token_name@ == old(self).icrc7_symbol@ + seq![' '] + s@,
                }
                &&& final(self).token_ids@ == old(self).token_ids@.push(arg.token_id)
                &&& final(self).next_token_id == arg.token_id + 1
                &&& final(self).icrc7_total_supply == old(self).icrc7_total_supply + 1
                &&& final(self).model() == logged(
                    LedgerModel {
                        owners: old(self).model().owners.insert(arg.token_id, arg.to@),
                        ..old(self).model()
                    },
                    OpView::Mint {
                        tid: arg.token_id,
                        from: account_of(caller@, opt_bytes_view(arg.from_subaccount)),
                        to: arg.to@,
                        meta: token_metadata_view(t),
                    },
                    now,
                    opt_bytes_view(arg.memo),
                )
            },
    {
        match self.mint_check_exec(caller, &arg) {
            Err(e) => {
                return Err(e);
            },
            Ok(()) => {},
        }
        let c = caller_account(caller, &arg.from_subaccount);
        let tid = arg.token_id;
        let name = match arg.token_name {
            Some(n) => n,
            None => self.default_token_name(tid),
        };
        let extra: Metadata = match arg.extra_data {
            Some(m) => m,
            None => Vec::new(),
        };
        let to_copy = arg.to.duplicate();
        let token = Icrc7Token::new(tid, name, arg.token_description, arg.token_logo, arg.to, extra);
        let meta = token.token_metadata();
        let ghost t = token;
        let ghost m0 = self.model();
        self.tokens.insert(tid, token);
        self.token_ids.push(tid);
        self.icrc7_total_supply = self.token_ids.len() as u128;
        self.next_token_id = tid + 1;
        let ghost before = self.txn_log.blocks@;
        let id = self.txn_log.append(crate::txlog::TxOp::Mint { tid, from: c, to: to_copy, meta }, now, arg.memo);
        proof {
            assert(self.txn_log.blocks@.drop_last() == before);
            assert(crate::state::txs_view(crate::txlog::blocks_view(self.txn_log.blocks@))
                =~= crate::state::txs_view(crate::txlog::blocks_view(before)).push(self.txn_log.blocks@.last()@.tx)) by {
                assert forall|i: int| 0 <= i < before.len() implies self.txn_log.blocks@[i] == before[i] by {
                    assert(self.txn_log.blocks@.drop_last()[i] == self.txn_log.blocks@[i]);
                }
            }
            assert(self.model().owners =~= m0.owners.insert(tid, arg.to@));
            assert forall|i: int, j: int| 0 <= i < j < self.token_ids@.len() implies #[trigger] self.token_ids@[i] < #[trigger] self.token_ids@[j] by {
                if j == self.token_ids@.len() - 1 {
                    assert(old(self).tokens@.contains_key(self.token_ids@[i]));
                }
            }
            assert forall|i: int| 0 <= i < self.token_ids@.len() implies self.tokens@.contains_key(#[trigger] self.token_ids@[i]) by {
                if i < self.token_ids@.len() - 1 {
                    assert(old(self).tokens@.contains_key(old(self).token_ids@[i]));
                }
            }
            assert forall|id2: u128| #[trigger] self.tokens@.contains_key(id2) implies self.token_ids@.contains(id2) by {
                if id2 == tid {
                    assert(self.token_ids@[self.token_ids@.len() - 1] == tid);
                } else {
                    assert(old(self).tokens@.contains_key(id2));
                    let k = choose|k: int| 0 <= k < old(self).token_ids@.len() && old(self).token_ids@[k] == id2;
                    assert(self.token_ids@[k] == id2);
                }
            }
            assert forall|id2: u128| #[trigger] self.tokens@.contains_key(id2) implies self.tokens@[id2].token_id == id2 && id2 < self.next_token_id by {
                if id2 != tid {
                    assert(old(self).tokens@.contains_key(id2));
                }
            }
        }
        Ok(id)
    }
}

} // verus!
