//! The canonical byte form of a block, over which its hash is taken.
use vstd::prelude::*;
use vstd::utf8::encode_utf8;
use crate::account::{opt_account_view, opt_bytes_view, Account};
use crate::txlog::{Block, BlockView, OpView, TxOp, TxView};
use crate::types::{meta_view, values_view, MetaValue, MetaView, Metadata};

verus! {

/// The `n` low bytes of `x`, most significant first.
pub open spec fn be_bytes(x: nat, n: nat) -> Seq<u8>
    decreases n,
{
    if n == 0 {
        seq![]
    } else {
        be_bytes(x / 256, (n - 1) as nat).push((x % 256) as u8)
    }
}

pub open spec fn enc_bytes(b: Seq<u8>) -> Seq<u8> {
    be_bytes(b.len(), 8) + b
}

pub open spec fn enc_text(s: Seq<char>) -> Seq<u8> {
    enc_bytes(encode_utf8(s))
}

pub open spec fn enc_opt_bytes(o: Option<Seq<u8>>) -> Seq<u8> {
    match o {
        None => seq![0u8],
        Some(b) => seq![1u8] + enc_bytes(b),
    }
}

pub open spec fn enc_opt_u64(o: Option<u64>) -> Seq<u8> {
    match o {
        None => seq![0u8],
        Some(t) => seq![1u8] + be_bytes(t as nat, 8),
    }
}

pub open spec fn enc_account(a: (Seq<u8>, Seq<u8>)) -> Seq<u8> {
    enc_bytes(a.0) + enc_bytes(a.1)
}

pub open spec fn enc_opt_account(o: Option<(Seq<u8>, Seq<u8>)>) -> Seq<u8> {
    match o {
        None => seq![0u8],
        Some(a) => seq![1u8] + enc_account(a),
    }
}

pub open spec fn enc_meta_value(v: MetaView) -> Seq<u8>
    decreases v,
{
    match v {
        MetaView::Nat(n) => seq![0u8] + be_bytes(n as nat, 16),
        MetaView::Text(s) => seq![1u8] + enc_text(s),
        MetaView::Blob(b) => seq![2u8] + enc_bytes(b),
        MetaView::Array(items) => seq![3u8] + be_bytes(items.len(), 8) + enc_values(items),
    }
}

pub open spec fn enc_values(s: Seq<MetaView>) -> Seq<u8>
    decreases s,
{
    if s.len() == 0 {
        seq![]
    } else {
        enc_values(s.drop_last()) + enc_meta_value(s.last())
    }
}

pub open spec fn enc_entries(m: Seq<(Seq<char>, MetaView)>) -> Seq<u8>
    decreases m.len(),
{
    if m.len() == 0 {
        seq![]
    } else {
        enc_entries(m.drop_last()) + enc_text(m.last().0) + enc_meta_value(m.last().1)
    }
}

pub open spec fn enc_meta(m: Seq<(Seq<char>, MetaView)>) -> Seq<u8> {
    be_bytes(m.len(), 8) + enc_entries(m)
}

pub open spec fn enc_tid(tid: u128) -> Seq<u8> {
    be_bytes(tid as nat, 16)
}

pub open spec fn enc_op(op: OpView) -> Seq<u8> {
    match op {
        OpView::Mint { tid, from, to, meta } => seq![0u8] + enc_tid(tid) + enc_account(from)
            + enc_account(to) + enc_meta(meta),
        OpView::Transfer { tid, from, to } => seq![1u8] + enc_tid(tid) + enc_account(from)
            + enc_account(to),
        OpView::TransferFrom { tid, from, to, spender } => seq![2u8] + enc_tid(tid) + enc_account(
            from,
        ) + enc_account(to) + enc_account(spender),
        OpView::Burn { tid, from, to } => seq![3u8] + enc_tid(tid) + enc_account(from)
            + enc_account(to),
        OpView::Approve { tid, from, spender, expires_at } => seq![4u8] + enc_tid(tid)
            + enc_account(from) + enc_account(spender) + enc_opt_u64(expires_at),
        OpView::ApproveCollection { from, spender, expires_at } => seq![5u8] + enc_account(from)
            + enc_account(spender) + enc_opt_u64(expires_at),
        OpView::Revoke { tid, from, spender } => seq![6u8] + enc_tid(tid) + enc_account(from)
            + enc_opt_account(spender),
        OpView::RevokeCollection { from, spender } => seq![7u8] + enc_account(from)
            + enc_opt_account(spender),
    }
}

pub open spec fn enc_tx(t: TxView) -> Seq<u8> {
    be_bytes(t.id as nat, 16) + enc_op(t.op) + be_bytes(t.ts as nat, 8) + enc_opt_bytes(t.memo)
}

/// The bytes that a block's hash is taken over: its parent hash, then its
/// transaction.
pub open spec fn enc_block(b: BlockView) -> Seq<u8> {
    enc_opt_bytes(b.parent_hash) + enc_tx(b.tx)
}

fn put_be(out: &mut Vec<u8>, x: u128, n: usize)
    requires
        n <= 16,
    ensures
        final(out)@ == old(out)@ + be_bytes(x as nat, n as nat),
    decreases n,
{
    if n == 0 {
        assert(old(out)@ + be_bytes(x as nat, 0) =~= old(out)@);
    } else {
        put_be(out, x / 256, n - 1);
        out.push((x % 256) as u8);
        assert(final(out)@ =~= old(out)@ + be_bytes(x as nat, n as nat));
    }
}

fn put_byte(out: &mut Vec<u8>, b: u8)
    ensures
        final(out)@ == old(out)@ + seq![b],
{
    out.push(b);
    assert(final(out)@ =~= old(out)@ + seq![b]);
}

fn put_raw(out: &mut Vec<u8>, b: &[u8])
    ensures
        final(out)@ == old(out)@ + b@,
{
    let mut i: usize = 0;
    while i < b.len()
        invariant
            i <= b@.len(),
            out@ == old(out)@ + b@.take(i as int),
        decreases b@.len() - i,
    {
        out.push(b[i]);
        assert(b@.take(i as int + 1) =~= b@.take(i as int).push(b@[i as int]));
        i = i + 1;
    }
    assert(b@.take(b@.len() as int) =~= b@);
}

fn put_bytes(out: &mut Vec<u8>, b: &[u8])
    ensures
        final(out)@ == old(out)@ + enc_bytes(b@),
{
    put_be(out, b.len() as u128, 8);
    put_raw(out, b);
    assert(final(out)@ =~= old(out)@ + enc_bytes(b@));
}

fn put_text(out: &mut Vec<u8>, s: &String)
    ensures
        final(out)@ == old(out)@ + enc_text(s@),
{
    put_bytes(out, s.as_str().as_bytes());
}

fn put_opt_bytes(out: &mut Vec<u8>, o: &Option<Vec<u8>>)
    ensures
        final(out)@ == old(out)@ + enc_opt_bytes(opt_bytes_view(*o)),
{
    match o {
        None => put_byte(out, 0),
        Some(b) => {
            put_byte(out, 1);
            put_bytes(out, b.as_slice());
            assert(final(out)@ =~= old(out)@ + enc_opt_bytes(opt_bytes_view(*o)));
        },
    }
}

fn put_opt_u64(out: &mut Vec<u8>, o: Option<u64>)
    ensures
        final(out)@ == old(out)@ + enc_opt_u64(o),
{
    match o {
        None => put_byte(out, 0),
        Some(t) => {
            put_byte(out, 1);
            put_be(out, t as u128, 8);
            assert(final(out)@ =~= old(out)@ + enc_opt_u64(o));
        },
    }
}

fn put_account(out: &mut Vec<u8>, a: &Account)
    ensures
        final(out)@ == old(out)@ + enc_account(a@),
{
    put_bytes(out, a.owner.as_slice());
    put_bytes(out, a.subaccount.as_slice());
    assert(final(out)@ =~= old(out)@ + enc_account(a@));
}

fn put_opt_account(out: &mut Vec<u8>, o: &Option<Account>)
    ensures
        final(out)@ == old(out)@ + enc_opt_account(opt_account_view(*o)),
{
    match o {
        None => put_byte(out, 0),
        Some(a) => {
            put_byte(out, 1);
            put_account(out, a);
            assert(final(out)@ =~= old(out)@ + enc_opt_account(opt_account_view(*o)));
        },
    }
}

proof fn lemma_values_view_len(s: Seq<MetaValue>)
    ensures
        values_view(s).len() == s.len(),
    decreases s.len(),
{
    if s.len() > 0 {
        lemma_values_view_len(s.drop_last());
    }
}

fn put_meta_value(out: &mut Vec<u8>, v: &MetaValue)
    ensures
        final(out)@ == old(out)@ + enc_meta_value(v@),
    decreases v,
{
    match v {
        MetaValue::Nat(n) => {
            put_byte(out, 0);
            put_be(out, *n, 16);
        },
        MetaValue::Text(s) => {
            put_byte(out, 1);
            put_text(out, s);
        },
        MetaValue::Blob(b) => {
            put_byte(out, 2);
            put_bytes(out, b.as_slice());
        },
        MetaValue::Array(items) => {
            put_byte(out, 3);
            proof {
                lemma_values_view_len(items@);
            }
            put_be(out, items.len() as u128, 8);
            let ghost start = out@;
            let mut i: usize = 0;
            while i < items.len()
                invariant
                    *v == MetaValue::Array(*items),
                    i <= items@.len(),
                    out@ == start + enc_values(values_view(items@.take(i as int))),
                decreases items@.len() - i,
            {
                proof {
                    assert(decreases_to!(*v => (*v)->Array_0));
                    assert((*v)->Array_0 == *items);
                    assert(decreases_to!(*items => items[i as int]));
                    assert(decreases_to!(*v => items[i as int]));
                }
                put_meta_value(out, &items[i]);
                proof {
                    let t = items@.take(i as int + 1);
                    assert(t.drop_last() =~= items@.take(i as int));
                    assert(t.last() == items@[i as int]);
                    let tv = values_view(t);
                    assert(tv == values_view(items@.take(i as int)).push(items@[i as int]@));
                    assert(tv.drop_last() =~= values_view(items@.take(i as int)));
                    assert(out@ =~= start + enc_values(tv));
                }
                i = i + 1;
            }
            assert(items@.take(items@.len() as int) =~= items@);
        },
    }
    assert(final(out)@ =~= old(out)@ + enc_meta_value(v@));
}

fn put_meta(out: &mut Vec<u8>, m: &Metadata)
    ensures
        final(out)@ == old(out)@ + enc_meta(meta_view(m@)),
{
    put_be(out, m.len() as u128, 8);
    let ghost start = out@;
    let mut i: usize = 0;
    while i < m.len()
        invariant
            i <= m@.len(),
            out@ == start + enc_entries(meta_view(m@.take(i as int))),
        decreases m@.len() - i,
    {
        put_text(out, &m[i].0);
        put_meta_value(out, &m[i].1);
        let ghost mv = meta_view(m@.take(i as int + 1));
        assert(mv.drop_last() =~= meta_view(m@.take(i as int)));
        assert(mv.last() == (m@[i as int].0@, m@[i as int].1@));
        assert(out@ =~= start + enc_entries(mv));
        i = i + 1;
    }
    assert(m@.take(m@.len() as int) =~= m@);
    assert(meta_view(m@).len() == m@.len());
    assert(final(out)@ =~= old(out)@ + enc_meta(meta_view(m@)));
}

fn put_op(out: &mut Vec<u8>, op: &TxOp)
    ensures
        final(out)@ == old(out)@ + enc_op(op@),
{
    match op {
        TxOp::Mint { tid, from, to, meta } => {
            put_byte(out, 0);
            put_be(out, *tid, 16);
            put_account(out, from);
            put_account(out, to);
            put_meta(out, meta);
        },
        TxOp::Transfer { tid, from, to } => {
            put_byte(out, 1);
            put_be(out, *tid, 16);
            put_account(out, from);
            put_account(out, to);
        },
        TxOp::TransferFrom { tid, from, to, spender } => {
            put_byte(out, 2);
            put_be(out, *tid, 16);
            put_account(out, from);
            put_account(out, to);
            put_account(out, spender);
        },
        TxOp::Burn { tid, from, to } => {
            put_byte(out, 3);
            put_be(out, *tid, 16);
            put_account(out, from);
            put_account(out, to);
        },
        TxOp::Approve { tid, from, spender, expires_at } => {
            put_byte(out, 4);
            put_be(out, *tid, 16);
            put_account(out, from);
            put_account(out, spender);
            put_opt_u64(out, *expires_at);
        },
        TxOp::ApproveCollection { from, spender, expires_at } => {
            put_byte(out, 5);
            put_account(out, from);
            put_account(out, spender);
            put_opt_u64(out, *expires_at);
        },
        TxOp::Revoke { tid, from, spender } => {
            put_byte(out, 6);
            put_be(out, *tid, 16);
            put_account(out, from);
            put_opt_account(out, spender);
        },
        TxOp::RevokeCollection { from, spender } => {
            put_byte(out, 7);
            put_account(out, from);
            put_opt_account(out, spender);
        },
    }
    assert(final(out)@ =~= old(out)@ + enc_op(op@));
}

/// The canonical bytes of a block.
pub fn encode_block(b: &Block) -> (r: Vec<u8>)
    ensures
        r@ == enc_block(b@),
{
    let mut out: Vec<u8> = Vec::new();
    put_opt_bytes(&mut out, &b.parent_hash);
    put_be(&mut out, b.tx.id, 16);
    put_op(&mut out, &b.tx.op);
    put_be(&mut out, b.tx.ts as u128, 8);
    put_opt_bytes(&mut out, &b.tx.memo);
    assert(out@ =~= enc_block(b@));
    out
}

/// The big-endian bytes of a log index, as the certification tree holds it.
pub fn index_be_bytes(x: u128) -> (r: Vec<u8>)
    ensures
        r@ == be_bytes(x as nat, 16),
{
    let mut out: Vec<u8> = Vec::new();
    put_be(&mut out, x, 16);
    assert(out@ =~= be_bytes(x as nat, 16));
    out
}

} // verus!
