//! The block hash and the certification tree over the log's tip.
use vstd::prelude::*;
use crate::encode::{enc_block, encode_block};
use crate::txlog::{Block, BlockView};
use ic_certified_map::AsHashTree;
use serde::Serialize;

verus! {

/// The domain-separated SHA-256 leaf hash of `data`.
pub uninterp spec fn leaf_hash_of(data: Seq<u8>) -> Seq<u8>;

/// The root hash of a certification tree that holds exactly the two
/// labelled leaf hashes given.
pub uninterp spec fn tree_root_of(
    label_a: Seq<char>,
    leaf_a: Seq<u8>,
    label_b: Seq<char>,
    leaf_b: Seq<u8>,
) -> Seq<u8>;

/// The self-describing CBOR bytes of the witnesses of both leaves of a
/// certification tree that holds exactly the two labelled leaf hashes given.
pub uninterp spec fn tree_witness_of(
    label_a: Seq<char>,
    leaf_a: Seq<u8>,
    label_b: Seq<char>,
    leaf_b: Seq<u8>,
) -> Seq<u8>;

/// The label of the leaf that holds the index of the last block.
pub const LAST_BLOCK_INDEX_LABEL: &'static str = "last_block_index";

/// The label of the leaf that holds the hash of the last block.
pub const LAST_BLOCK_HASH_LABEL: &'static str = "last_block_hash";

/// The hash of a block: the leaf hash of its canonical bytes.
pub open spec fn block_hash(b: BlockView) -> Seq<u8> {
    leaf_hash_of(enc_block(b))
}

/// Relies on ic_certified_map::leaf_hash: a 32-byte digest that depends on
/// the data alone.
#[verifier::external_body]
pub(crate) fn leaf_hash(data: &[u8]) -> (r: Vec<u8>)
    ensures
        r@ == leaf_hash_of(data@),
        r@.len() == 32,
{
    ic_certified_map::leaf_hash(data).to_vec()
}

/// Relies on ic_certified_map::RbTree (insert, root_hash): the root hash of
/// a tree with the two labelled leaves, 32 bytes, a function of its leaves.
#[verifier::external_body]
pub(crate) fn tree_root(label_a: &'static str, leaf_a: &Vec<u8>, label_b: &'static str, leaf_b: &Vec<u8>) -> (r: Vec<u8>)
    requires
        leaf_a@.len() == 32,
        leaf_b@.len() == 32,
    ensures
        r@ == tree_root_of(label_a@, leaf_a@, label_b@, leaf_b@),
        r@.len() == 32,
{
    let mut tree: ic_certified_map::RbTree<&'static str, ic_certified_map::Hash> = ic_certified_map::RbTree::new();
    tree.insert(label_a, leaf_a.as_slice().try_into().unwrap());
    tree.insert(label_b, leaf_b.as_slice().try_into().unwrap());
    tree.root_hash().to_vec()
}

/// Relies on ic_certified_map::RbTree::witness and serde_cbor's
/// self-describing Serializer: the witnesses of both leaves, in order, as
/// CBOR bytes that depend on the leaves alone.
#[verifier::external_body]
pub(crate) fn tree_witness(label_a: &'static str, leaf_a: &Vec<u8>, label_b: &'static str, leaf_b: &Vec<u8>) -> (r: Vec<u8>)
    requires
        leaf_a@.len() == 32,
        leaf_b@.len() == 32,
    ensures
        r@ == tree_witness_of(label_a@, leaf_a@, label_b@, leaf_b@),
{
    let mut tree: ic_certified_map::RbTree<&'static str, ic_certified_map::Hash> = ic_certified_map::RbTree::new();
    tree.insert(label_a, leaf_a.as_slice().try_into().unwrap());
    tree.insert(label_b, leaf_b.as_slice().try_into().unwrap());
    let mut out: Vec<u8> = Vec::new();
    let mut ser = serde_cbor::Serializer::new(&mut out);
    let _ = ser.self_describe();
    tree.witness(label_a.as_bytes()).serialize(&mut ser).unwrap();
    tree.witness(label_b.as_bytes()).serialize(&mut ser).unwrap();
    out
}

/// Hashes a block.
pub fn hash_block(b: &Block) -> (r: Vec<u8>)
    ensures
        r@ == block_hash(b@),
        r@.len() == 32,
{
    let bytes = encode_block(b);
    leaf_hash(bytes.as_slice())
}

/// The leaf hashes that the certification tree holds for a tip.
pub open spec fn tip_leaves(last_index: u128, last_hash: Seq<u8>) -> (Seq<u8>, Seq<u8>) {
    (leaf_hash_of(crate::encode::be_bytes(last_index as nat, 16)), leaf_hash_of(last_hash))
}

/// The certified root hash of a tip.
pub open spec fn tip_root(last_index: u128, last_hash: Seq<u8>) -> Seq<u8> {
    tree_root_of(
        LAST_BLOCK_INDEX_LABEL@,
        tip_leaves(last_index, last_hash).0,
        LAST_BLOCK_HASH_LABEL@,
        tip_leaves(last_index, last_hash).1,
    )
}

/// The witness bytes of a tip.
pub open spec fn tip_witness(last_index: u128, last_hash: Seq<u8>) -> Seq<u8> {
    tree_witness_of(
        LAST_BLOCK_INDEX_LABEL@,
        tip_leaves(last_index, last_hash).0,
        LAST_BLOCK_HASH_LABEL@,
        tip_leaves(last_index, last_hash).1,
    )
}

/// Computes the root hash that certifies the tip.
pub fn certified_tip_root(last_index: u128, last_hash: &Vec<u8>) -> (r: Vec<u8>)
    ensures
        r@ == tip_root(last_index, last_hash@),
        r@.len() == 32,
{
    let index_leaf = leaf_hash(crate::encode::index_be_bytes(last_index).as_slice());
    let hash_leaf = leaf_hash(last_hash.as_slice());
    tree_root(LAST_BLOCK_INDEX_LABEL, &index_leaf, LAST_BLOCK_HASH_LABEL, &hash_leaf)
}

/// Computes the witness that proves both leaves of the tip under its root.
pub fn certified_tip_witness(last_index: u128, last_hash: &Vec<u8>) -> (r: Vec<u8>)
    ensures
        r@ == tip_witness(last_index, last_hash@),
{
    let index_leaf = leaf_hash(crate::encode::index_be_bytes(last_index).as_slice());
    let hash_leaf = leaf_hash(last_hash.as_slice());
    tree_witness(LAST_BLOCK_INDEX_LABEL, &index_leaf, LAST_BLOCK_HASH_LABEL, &hash_leaf)
}

} // verus!
