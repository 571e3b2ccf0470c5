use icrc7::account::{is_anonymous_principal, Account};
use icrc7::archive::{ArchivalStep, TransactionRange};
use icrc7::batch::Request;
use icrc7::certify::{certified_tip_root, hash_block};
use icrc7::encode::index_be_bytes;
use icrc7::state::State;
use icrc7::txlog::{ArchiveSetting, TxOp};
use icrc7::types::{
    ApprovalInfo, ApproveCollectionArg, ApproveTokenArg, BurnArg, IsApprovedArg, LedgerError,
    MetaValue, MintArg, RevokeCollectionApprovalArg, RevokeTokenApprovalArg, TransferArg,
    TransferFromArg,
};

const NOW: u64 = 1_000_000_000_000_000;

fn acc(b: u8) -> Account {
    Account::new(vec![b], vec![0u8; 32])
}

fn setting() -> ArchiveSetting {
    ArchiveSetting {
        max_active_records: 100,
        settle_to_records: 50,
        max_records_in_archive_instance: 1000,
        max_records_to_archive: 30,
        archive_cycles: 1,
        max_archive_pages: 10,
    }
}

fn ledger() -> State {
    let mut s = State::new(setting(), acc(0));
    s.minting_authority = Some(acc(1));
    s
}

fn mint_arg(id: u128, to: Account) -> MintArg {
    MintArg {
        from_subaccount: None,
        to,
        token_id: id,
        memo: None,
        token_name: None,
        token_description: None,
        token_logo: None,
        extra_data: None,
    }
}

fn transfer(id: u128, to: Account) -> TransferArg {
    TransferArg { from_subaccount: None, to, token_id: id, memo: None, created_at_time: None }
}

fn info(spender: Account, expires_at: Option<u64>) -> ApprovalInfo {
    ApprovalInfo { spender, from_subaccount: None, expires_at, memo: None, created_at_time: None }
}

fn owner_bytes(s: &State, id: u128) -> Option<Vec<u8>> {
    s.icrc7_owner_of(&vec![id])[0].as_ref().map(|a| a.owner.clone())
}

#[test]
fn mint_transfer_then_stale_transfer_fails_then_burn() {
    let mut s = ledger();
    assert_eq!(s.mint(&vec![1], mint_arg(1, acc(1)), NOW), Ok(0));
    assert_eq!(s.icrc7_transfer(&vec![1], vec![transfer(1, acc(2))], NOW), vec![Some(Ok(1))]);
    assert_eq!(owner_bytes(&s, 1), Some(vec![2]));
    assert_eq!(
        s.icrc7_transfer(&vec![1], vec![transfer(1, acc(3))], NOW),
        vec![Some(Err(LedgerError::Unauthorized))]
    );
    let burn = BurnArg { from_subaccount: None, token_id: 1, memo: None };
    assert_eq!(s.burn(&vec![2], vec![burn], NOW), vec![Some(Ok(2))]);
    assert_eq!(owner_bytes(&s, 1), Some(vec![0]));
    assert_eq!(s.icrc7_balance_of(&vec![acc(2), acc(0)]), vec![0, 1]);
    assert_eq!(s.icrc7_total_supply(), 1);
}

#[test]
fn atomic_batch_commits_nothing_and_repeats_identically() {
    let mut s = ledger();
    s.icrc7_atomic_batch_transfers = Some(true);
    s.mint(&vec![1], mint_arg(1, acc(1)), NOW).unwrap();
    s.mint(&vec![1], mint_arg(2, acc(2)), NOW).unwrap();
    let batch = || vec![transfer(1, acc(3)), transfer(2, acc(3))];
    let first = s.icrc7_transfer(&vec![1], batch(), NOW);
    assert_eq!(first, vec![None, Some(Err(LedgerError::Unauthorized))]);
    assert_eq!(owner_bytes(&s, 1), Some(vec![1]));
    assert_eq!(s.txn_log.txn_count, 2);
    let second = s.icrc7_transfer(&vec![1], batch(), NOW);
    assert_eq!(first, second);
    assert_eq!(s.txn_log.txn_count, 2);
}

#[test]
fn best_effort_batch_commits_the_valid_items_in_order() {
    let mut s = ledger();
    s.mint(&vec![1], mint_arg(1, acc(1)), NOW).unwrap();
    s.mint(&vec![1], mint_arg(2, acc(2)), NOW).unwrap();
    s.mint(&vec![1], mint_arg(3, acc(1)), NOW).unwrap();
    let r = s.icrc7_transfer(
        &vec![1],
        vec![transfer(1, acc(3)), transfer(2, acc(3)), transfer(3, acc(4))],
        NOW,
    );
    assert_eq!(r, vec![Some(Ok(3)), Some(Err(LedgerError::Unauthorized)), Some(Ok(4))]);
    assert_eq!(owner_bytes(&s, 3), Some(vec![4]));
}

#[test]
fn repeated_transfer_in_window_is_a_duplicate() {
    let mut s = ledger();
    s.mint(&vec![1], mint_arg(1, acc(1)), NOW).unwrap();
    let mut t = transfer(1, acc(2));
    t.created_at_time = Some(NOW - 5);
    t.memo = Some(vec![7, 7]);
    assert_eq!(s.icrc7_transfer(&vec![1], vec![t.clone()], NOW), vec![Some(Ok(1))]);
    assert_eq!(
        s.icrc7_transfer(&vec![1], vec![t], NOW + 10),
        vec![Some(Err(LedgerError::Duplicate { duplicate_of: 1 }))]
    );
}

#[test]
fn transfer_outside_window_is_refused() {
    let mut s = ledger();
    s.mint(&vec![1], mint_arg(1, acc(1)), NOW).unwrap();
    let mut old = transfer(1, acc(2));
    old.created_at_time = Some(NOW - 86_400_000_000_000 - 120_000_000_000 - 1);
    let mut future = transfer(1, acc(2));
    future.created_at_time = Some(NOW + 120_000_000_001);
    assert_eq!(
        s.icrc7_transfer(&vec![1], vec![old, future], NOW),
        vec![Some(Err(LedgerError::TooOld)), Some(Err(LedgerError::CreatedInFuture { ledger_time: NOW }))]
    );
}

#[test]
fn revoke_then_transfer_leaves_no_approvals() {
    let mut s = ledger();
    s.mint(&vec![1], mint_arg(1, acc(1)), NOW).unwrap();
    let approve = ApproveTokenArg { token_id: 1, approval_info: info(acc(5), None) };
    assert_eq!(s.approve(&vec![1], vec![approve], NOW), vec![Some(Ok(1))]);
    let ask = IsApprovedArg { spender: acc(5), from_subaccount: None, token_id: 1 };
    assert_eq!(s.icrc37_is_approved(&vec![1], &vec![ask.clone()], NOW), vec![true]);
    assert_eq!(s.icrc37_get_token_approvals(1, &None, None).len(), 1);
    let revoke = RevokeTokenApprovalArg {
        spender: None,
        from_subaccount: None,
        token_id: 1,
        memo: None,
        created_at_time: None,
    };
    assert_eq!(s.revoke_approve(&vec![1], vec![revoke], NOW), vec![Some(Ok(2))]);
    assert_eq!(s.icrc37_is_approved(&vec![1], &vec![ask.clone()], NOW), vec![false]);
    let approve = ApproveTokenArg { token_id: 1, approval_info: info(acc(6), None) };
    s.approve(&vec![1], vec![approve], NOW);
    assert_eq!(s.icrc7_transfer(&vec![1], vec![transfer(1, acc(2))], NOW), vec![Some(Ok(4))]);
    assert_eq!(s.icrc37_get_token_approvals(1, &None, None).len(), 0);
    let ask6 = IsApprovedArg { spender: acc(6), from_subaccount: None, token_id: 1 };
    assert_eq!(s.icrc37_is_approved(&vec![1], &vec![ask6], NOW), vec![false]);
}

#[test]
fn spender_moves_token_under_approval() {
    let mut s = ledger();
    s.mint(&vec![1], mint_arg(1, acc(1)), NOW).unwrap();
    let spend = TransferFromArg {
        spender_subaccount: None,
        from: acc(1),
        to: acc(7),
        token_id: 1,
        memo: None,
        created_at_time: None,
    };
    assert_eq!(
        s.transfer_from(&vec![5], vec![spend.clone()], NOW),
        vec![Some(Err(LedgerError::Unauthorized))]
    );
    let approve = ApproveCollectionArg { approval_info: info(acc(5), Some(NOW + 100)) };
    assert_eq!(s.collection_approve(&vec![1], vec![approve], NOW), vec![Some(Ok(1))]);
    assert_eq!(s.icrc37_get_collection_approvals(&acc(1), &None, None).len(), 1);
    assert_eq!(s.transfer_from(&vec![5], vec![spend], NOW), vec![Some(Ok(2))]);
    assert_eq!(owner_bytes(&s, 1), Some(vec![7]));
    let revoke = RevokeCollectionApprovalArg {
        spender: Some(acc(5)),
        from_subaccount: None,
        memo: None,
        created_at_time: None,
    };
    assert_eq!(s.revoke_collection_approve(&vec![1], vec![revoke], NOW), vec![Some(Ok(3))]);
    assert_eq!(s.icrc37_get_collection_approvals(&acc(1), &None, None).len(), 0);
}

#[test]
fn expired_approval_is_not_in_force() {
    let mut s = ledger();
    s.mint(&vec![1], mint_arg(1, acc(1)), NOW).unwrap();
    let approve = ApproveTokenArg { token_id: 1, approval_info: info(acc(5), Some(NOW + 10)) };
    s.approve(&vec![1], vec![approve], NOW);
    let ask = IsApprovedArg { spender: acc(5), from_subaccount: None, token_id: 1 };
    assert_eq!(s.icrc37_is_approved(&vec![1], &vec![ask.clone()], NOW + 9), vec![true]);
    assert_eq!(s.icrc37_is_approved(&vec![1], &vec![ask], NOW + 10), vec![false]);
}

#[test]
fn batch_level_errors() {
    let mut s = ledger();
    s.mint(&vec![1], mint_arg(1, acc(1)), NOW).unwrap();
    assert_eq!(s.icrc7_transfer(&vec![1], vec![], NOW), vec![Some(Err(LedgerError::NoArguments))]);
    assert_eq!(
        s.icrc7_transfer(&vec![4], vec![transfer(1, acc(2)), transfer(1, acc(3))], NOW),
        vec![Some(Err(LedgerError::AnonymousCaller)), Some(Err(LedgerError::AnonymousCaller))]
    );
    s.icrc7_max_update_batch_size = Some(1);
    assert_eq!(
        s.icrc7_transfer(&vec![1], vec![transfer(1, acc(2)), transfer(1, acc(3))], NOW),
        vec![Some(Err(LedgerError::BatchTooLarge)), Some(Err(LedgerError::BatchTooLarge))]
    );
    assert_eq!(s.txn_log.txn_count, 1);
}

#[test]
fn item_level_errors() {
    let mut s = ledger();
    s.icrc7_max_memo_size = Some(2);
    s.mint(&vec![1], mint_arg(1, acc(1)), NOW).unwrap();
    let mut long_memo = transfer(1, acc(2));
    long_memo.memo = Some(vec![1, 2, 3]);
    let r = s.icrc7_transfer(
        &vec![1],
        vec![transfer(9, acc(2)), long_memo, transfer(1, acc(1))],
        NOW,
    );
    assert_eq!(
        r,
        vec![
            Some(Err(LedgerError::NonExistingTokenId)),
            Some(Err(LedgerError::MemoTooLarge)),
            Some(Err(LedgerError::InvalidRecipient)),
        ]
    );
    let self_approve = ApproveTokenArg { token_id: 1, approval_info: info(acc(1), None) };
    assert_eq!(
        s.approve(&vec![1], vec![self_approve], NOW),
        vec![Some(Err(LedgerError::InvalidSpender))]
    );
    let stale = ApproveCollectionArg { approval_info: info(acc(5), Some(NOW - 1)) };
    assert_eq!(s.collection_approve(&vec![1], vec![stale], NOW), vec![Some(Err(LedgerError::TooOld))]);
}

#[test]
fn mint_errors() {
    let mut s = State::new(setting(), acc(0));
    assert_eq!(s.mint(&vec![1], mint_arg(1, acc(1)), NOW), Err(LedgerError::MintingAuthorityNotSet));
    s.minting_authority = Some(acc(1));
    assert_eq!(s.mint(&vec![2], mint_arg(1, acc(1)), NOW), Err(LedgerError::Unauthorized));
    assert_eq!(s.mint(&vec![1], mint_arg(5, acc(1)), NOW), Ok(0));
    assert_eq!(s.mint(&vec![1], mint_arg(5, acc(1)), NOW), Err(LedgerError::TokenIdMinimumLimit));
    assert_eq!(s.mint(&vec![1], mint_arg(3, acc(1)), NOW), Err(LedgerError::TokenIdMinimumLimit));
    s.icrc7_supply_cap = Some(1);
    assert_eq!(s.mint(&vec![1], mint_arg(6, acc(1)), NOW), Err(LedgerError::SupplyCapReached));
    s.icrc7_supply_cap = None;
    let mut big = mint_arg(6, acc(1));
    big.memo = Some(vec![0u8; 33]);
    assert_eq!(s.mint(&vec![1], big, NOW), Err(LedgerError::MemoTooLarge));
}

#[test]
fn token_metadata_and_default_name() {
    let mut s = ledger();
    let mut a = mint_arg(5, acc(1));
    a.token_description = Some("a cat".to_string());
    a.extra_data = Some(vec![("Name".to_string(), MetaValue::Nat(1)), ("Age".to_string(), MetaValue::Nat(3))]);
    s.mint(&vec![1], a, NOW).unwrap();
    let meta = s.icrc7_token_metadata(&vec![5, 6]);
    assert!(meta[1].is_none());
    let m = meta[0].clone().unwrap();
    let get = |k: &str| m.iter().find(|e| e.0 == k).map(|e| e.1.clone());
    assert!(matches!(get("Name"), Some(MetaValue::Text(t)) if t == "ICRC7 5"));
    assert!(matches!(get("Symbol"), Some(MetaValue::Text(t)) if t == "ICRC7 5"));
    assert!(matches!(get("Description"), Some(MetaValue::Text(t)) if t == "a cat"));
    assert!(matches!(get("Age"), Some(MetaValue::Nat(3))));
    assert!(get("Logo").is_none());
    assert_eq!(m.iter().filter(|e| e.0 == "Name").count(), 1);
}

#[test]
fn token_listing_is_exclusive_of_the_cursor() {
    let mut s = ledger();
    for id in [1u128, 2, 4, 8] {
        let owner = if id == 4 { acc(2) } else { acc(1) };
        s.mint(&vec![1], mint_arg(id, owner), NOW).unwrap();
    }
    assert_eq!(s.icrc7_tokens(None, None), vec![1, 2, 4, 8]);
    assert_eq!(s.icrc7_tokens(Some(1), Some(2)), vec![2, 4]);
    assert_eq!(s.icrc7_tokens(Some(8), None), Vec::<u128>::new());
    assert_eq!(s.icrc7_tokens_of(&acc(1), Some(1), None), vec![2, 8]);
    s.icrc7_max_take_value = Some(1);
    assert_eq!(s.icrc7_tokens(None, Some(3)), vec![1]);
}

fn filled(n: u128) -> State {
    let mut s = ledger();
    for id in 0..n {
        s.mint(&vec![1], mint_arg(id, acc(1)), NOW).unwrap();
    }
    s
}

#[test]
fn one_archival_run_moves_thirty_entries() {
    let mut s = filled(100);
    assert!(!s.txn_log.needs_archiving());
    s.mint(&vec![1], mint_arg(100, acc(1)), NOW).unwrap();
    assert!(s.txn_log.needs_archiving());
    let mut s = filled(100);
    assert!(matches!(s.txn_log.begin_archival(1), ArchivalStep::Defer));
    assert!(!s.txn_log.is_cleaning);
    let step = s.txn_log.begin_archival(10);
    assert!(matches!(step, ArchivalStep::CreateArchive { first_index: 0 }));
    assert!(matches!(s.txn_log.begin_archival(10), ArchivalStep::Idle));
    let step = s.txn_log.archive_created(vec![9, 9]);
    let (id, count, again) = match step {
        ArchivalStep::Migrate { archive_id, count, again } => (archive_id, count, again),
        _ => panic!("expected a migration"),
    };
    assert_eq!((id.clone(), count, again), (vec![9, 9], 30, true));
    let blocks = s.txn_log.blocks_to_archive(count);
    assert_eq!(blocks.len(), 30);
    assert_eq!(blocks[0].tx.id, 0);
    assert!(s.txn_log.complete_migration(&id, count));
    assert_eq!(s.txn_log.blocks.len(), 70);
    assert!(s.txn_log.blocks.len() >= 50 && s.txn_log.blocks.len() < 100);
    assert_eq!(s.txn_log.first_index, 30);
    assert_eq!(s.txn_log.archives[0].length, 30);
    assert!(!s.txn_log.is_cleaning);
    assert!(matches!(s.txn_log.begin_archival(10), ArchivalStep::Idle));
}

#[test]
fn failed_migration_changes_no_range() {
    let mut s = filled(100);
    s.txn_log.begin_archival(10);
    s.txn_log.archive_created(vec![9]);
    s.txn_log.archival_failed();
    assert_eq!(s.txn_log.blocks.len(), 100);
    assert_eq!(s.txn_log.first_index, 0);
    assert_eq!(s.txn_log.archives[0].length, 0);
    assert!(!s.txn_log.complete_migration(&vec![8], 10));
    assert_eq!(s.txn_log.blocks.len(), 100);
}

fn migrated() -> State {
    let mut s = filled(100);
    s.txn_log.begin_archival(10);
    s.txn_log.archive_created(vec![9]);
    assert!(s.txn_log.complete_migration(&vec![9], 30));
    s
}

#[test]
fn ids_and_ranges_partition_the_log_after_migration() {
    let mut s = migrated();
    assert_eq!(s.icrc7_transfer(&vec![1], vec![transfer(0, acc(2))], NOW), vec![Some(Ok(100))]);
    let a = &s.txn_log.archives[0];
    assert_eq!((a.start, a.length), (0, 30));
    assert_eq!(s.txn_log.first_index, a.start + a.length);
    for (i, b) in s.txn_log.blocks.iter().enumerate() {
        assert_eq!(b.tx.id, 30 + i as u128);
    }
    assert_eq!(s.txn_log.first_index + s.txn_log.blocks.len() as u128, s.txn_log.txn_count);
}

#[test]
fn blocks_are_hash_chained() {
    let s = filled(5);
    let blocks = &s.txn_log.blocks;
    assert!(blocks[0].parent_hash.is_none());
    for i in 1..blocks.len() {
        assert_eq!(blocks[i].parent_hash, Some(hash_block(&blocks[i - 1])));
    }
    assert_eq!(s.txn_log.latest_hash, Some(hash_block(&blocks[4])));
    assert_ne!(hash_block(&blocks[0]), hash_block(&blocks[1]));
    assert_eq!(hash_block(&blocks[0]).len(), 32);
}

#[test]
fn range_query_spanning_archive_and_local_log() {
    let s = migrated();
    let r = s.icrc3_get_blocks(&vec![TransactionRange { start: 20, length: 20 }]);
    assert_eq!(r.log_length, 100);
    let ids: Vec<u128> = r.blocks.iter().map(|b| b.id).collect();
    assert_eq!(ids, (30..40).collect::<Vec<u128>>());
    assert_eq!(r.archived_blocks.len(), 1);
    assert_eq!(r.archived_blocks[0].archive_id, vec![9]);
    assert_eq!(r.archived_blocks[0].ranges, vec![TransactionRange { start: 20, length: 10 }]);
    let r = s.icrc3_get_blocks(&vec![
        TransactionRange { start: 0, length: 5 },
        TransactionRange { start: 25, length: 10 },
    ]);
    assert_eq!(r.archived_blocks.len(), 1);
    assert_eq!(
        r.archived_blocks[0].ranges,
        vec![TransactionRange { start: 0, length: 5 }, TransactionRange { start: 25, length: 5 }]
    );
    assert_eq!(r.blocks.len(), 5);
}

#[test]
fn archive_listing() {
    let s = migrated();
    let all = s.icrc3_get_archives(&vec![7], &None);
    assert_eq!(all.len(), 2);
    assert_eq!((all[0].archive_id.clone(), all[0].start, all[0].end), (vec![7], 30, 100));
    assert_eq!((all[1].archive_id.clone(), all[1].start, all[1].end), (vec![9], 0, 30));
    assert_eq!(s.icrc3_get_archives(&vec![7], &Some(vec![7])).len(), 1);
    assert_eq!(s.icrc3_get_archives(&vec![7], &Some(vec![9])).len(), 0);
}

#[test]
fn tip_and_certificate() {
    let s = ledger();
    assert!(s.icrc3_get_tip().is_none());
    assert!(s.icrc3_get_tip_certificate().is_none());
    let s = filled(3);
    let tip = s.icrc3_get_tip().unwrap();
    assert_eq!(Some(tip.last_block_hash.clone()), s.txn_log.latest_hash);
    assert_eq!(tip.last_block_index, index_be_bytes(2));
    assert_eq!(s.icrc3_get_tip_certificate(), Some(tip.hash_tree.clone()));
    assert_eq!(&tip.hash_tree[..3], &[0xd9, 0xd9, 0xf7]);
    let root = certified_tip_root(2, &tip.last_block_hash);
    assert_eq!(s.txn_log.certified_root, Some(root.clone()));
    assert_eq!(root.len(), 32);
    assert_ne!(root, certified_tip_root(1, &tip.last_block_hash));
}

#[test]
fn index_bytes_are_big_endian() {
    let mut expected = vec![0u8; 16];
    expected[14] = 1;
    expected[15] = 2;
    assert_eq!(index_be_bytes(258), expected);
}

#[test]
fn anonymous_principal_is_recognised() {
    assert!(is_anonymous_principal(&vec![4]));
    assert!(!is_anonymous_principal(&vec![4, 0]));
}

#[test]
fn requests_validate_individually() {
    let mut s = ledger();
    s.mint(&vec![1], mint_arg(1, acc(1)), NOW).unwrap();
    let req = Request::Transfer(transfer(1, acc(2)));
    assert_eq!(s.check_request(&vec![1], &req, NOW), Ok(()));
    assert_eq!(s.check_request(&vec![3], &req, NOW), Err(LedgerError::Unauthorized));
    let id = s.commit_request(&vec![1], req, NOW);
    assert_eq!(id, 1);
    assert!(matches!(&s.txn_log.blocks[1].tx.op, TxOp::Transfer { tid: 1, .. }));
}

#[test]
fn transaction_pages() {
    let s = filled(5);
    let page = s.icrc7_txn_logs(2, 2);
    assert_eq!(page.iter().map(|t| t.id).collect::<Vec<_>>(), vec![2, 3]);
    assert_eq!(s.icrc7_txn_logs(4, 2).len(), 0);
    assert_eq!(s.get_txn_logs(3).len(), 3);
}

#[test]
fn approval_listing_pages_after_the_cursor() {
    let mut s = ledger();
    s.mint(&vec![1], mint_arg(1, acc(1)), NOW).unwrap();
    let grants = vec![
        ApproveTokenArg { token_id: 1, approval_info: info(acc(7), None) },
        ApproveTokenArg { token_id: 1, approval_info: info(acc(5), None) },
        ApproveTokenArg { token_id: 1, approval_info: info(acc(6), None) },
    ];
    assert_eq!(s.approve(&vec![1], grants, NOW), vec![Some(Ok(1)), Some(Ok(2)), Some(Ok(3))]);
    let page = s.icrc37_get_token_approvals(1, &Some(acc(5)), Some(1));
    assert_eq!(page.len(), 1);
    assert_eq!(page[0].spender.owner, vec![6]);
    let rest = s.icrc37_get_token_approvals(1, &Some(acc(6)), None);
    assert_eq!(rest.iter().map(|a| a.spender.owner[0]).collect::<Vec<_>>(), vec![7]);
    assert_eq!(s.icrc37_get_token_approvals(1, &Some(acc(9)), None).len(), 0);
    let from_start = s.icrc37_get_token_approvals(1, &None, None);
    assert_eq!(from_start.iter().map(|a| a.spender.owner[0]).collect::<Vec<_>>(), vec![5, 6, 7]);
    assert_eq!(s.icrc37_get_token_approvals(1, &Some(acc(4)), Some(2)).len(), 2);
    let again = vec![ApproveTokenArg { token_id: 1, approval_info: info(acc(5), Some(NOW + 1)) }];
    s.approve(&vec![1], again, NOW);
    let all = s.icrc37_get_token_approvals(1, &None, None);
    assert_eq!(all.len(), 3);
    assert_eq!(all[0].expires_at, Some(NOW + 1));
}

#[test]
fn approval_limits_are_advertised_only_when_set() {
    let mut s = ledger();
    assert_eq!(s.icrc37_metadata().len(), 0);
    s.approval_ledger_info.max_revoke_approvals = 4;
    let m = s.icrc37_metadata();
    assert_eq!(m.len(), 1);
    assert_eq!(m[0].0, "icrc37:max_revoke_approvals");
    assert!(matches!(m[0].1, MetaValue::Nat(4)));
}

#[test]
fn is_approved_answers_nothing_for_empty_or_oversized_requests() {
    let mut s = ledger();
    s.icrc7_max_query_batch_size = Some(1);
    let ask = IsApprovedArg { spender: acc(5), from_subaccount: None, token_id: 1 };
    assert_eq!(s.icrc37_is_approved(&vec![1], &vec![], NOW), Vec::<bool>::new());
    assert_eq!(s.icrc37_is_approved(&vec![1], &vec![ask.clone(), ask.clone()], NOW), Vec::<bool>::new());
    assert_eq!(s.icrc37_is_approved(&vec![4], &vec![ask], NOW), vec![false]);
}

#[test]
fn nested_list_attributes_are_kept_and_hashed() {
    let mut s = ledger();
    let nested = MetaValue::Array(vec![MetaValue::Nat(1), MetaValue::Array(vec![MetaValue::Text("x".to_string())])]);
    let mut a = mint_arg(1, acc(1));
    a.extra_data = Some(vec![("tags".to_string(), nested)]);
    s.mint(&vec![1], a, NOW).unwrap();
    let m = s.icrc7_token_metadata(&vec![1])[0].clone().unwrap();
    let tags = m.iter().find(|e| e.0 == "tags").map(|e| e.1.clone());
    match tags {
        Some(MetaValue::Array(items)) => {
            assert_eq!(items.len(), 2);
            assert!(matches!(&items[1], MetaValue::Array(inner) if inner.len() == 1));
        }
        _ => panic!("expected a list"),
    }
    let mut b = mint_arg(2, acc(1));
    b.extra_data = Some(vec![("tags".to_string(), MetaValue::Array(vec![MetaValue::Nat(2)]))]);
    s.mint(&vec![1], b, NOW).unwrap();
    assert_ne!(hash_block(&s.txn_log.blocks[0]), hash_block(&s.txn_log.blocks[1]));
}
