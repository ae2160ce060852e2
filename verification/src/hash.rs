//! Content-addressed identity generation.
//!
//! Node ids are MD5 digests of paths (and, for symbols, of `path::name`),
//! printed as 32 lowercase hex characters. The digest itself is computed by
//! the `md-5` crate; everything layered on it is verified against the name
//! [`md5_hex`], so equal inputs give equal ids on every run.

use vstd::prelude::*;
use md5::Digest;
use md5::Md5;
use crate::text::lit;

verus! {

/// The 32 lowercase hex characters of the MD5 digest of a byte sequence.
/// The digest is a function of the input bytes alone.
pub uninterp spec fn md5_hex(bytes: Seq<u8>) -> Seq<u8>;

/// Relies on the `md-5` crate's `Md5` hasher (RustCrypto `Digest`
/// interface): the digest depends only on the bytes fed to `update`, and its
/// 16 bytes format as 32 lowercase hex characters.
#[verifier::external_body]
fn md5_hex_x(bytes: &Vec<u8>) -> (r: Vec<u8>)
    ensures
        r@ == md5_hex(bytes@),
        r@.len() == 32,
{
    let mut hasher = Md5::new();
    hasher.update(bytes.as_slice());
    format!("{:x}", hasher.finalize()).into_bytes()
}

/// MD5 digest of arbitrary content, in lowercase hex.
pub fn md5_hash(content: &Vec<u8>) -> (r: Vec<u8>)
    ensures
        r@ == md5_hex(content@),
        r@.len() == 32,
{
    md5_hex_x(content)
}

/// The id every node derives from a path (or `path::name` string).
pub open spec fn id_of(path: Seq<u8>) -> Seq<u8> {
    md5_hex(path)
}

/// Generate the deterministic id for a path.
pub fn generate_id(path: &Vec<u8>) -> (r: Vec<u8>)
    ensures
        r@ == id_of(path@),
        r@.len() == 32,
{
    md5_hash(path)
}

/// The hashed edge id derived from source id, target id and edge type tag.
pub open spec fn edge_id_of(source: Seq<u8>, target: Seq<u8>, edge_type: Seq<u8>) -> Seq<u8> {
    md5_hex(source + lit("->") + target + lit(":") + edge_type)
}

/// Generate the deterministic hashed id for an edge.
pub fn generate_edge_id(source: &Vec<u8>, target: &Vec<u8>, edge_type: &Vec<u8>) -> (r: Vec<u8>)
    ensures
        r@ == edge_id_of(source@, target@, edge_type@),
{
    let arrow = crate::text::litv("->");
    let colon = crate::text::litv(":");
    let a = crate::text::concat(source, &arrow);
    let b = crate::text::concat(&a, target);
    let c = crate::text::concat(&b, &colon);
    let d = crate::text::concat(&c, edge_type);
    md5_hash(&d)
}

/// Identity is stable: ids are a function of the hashed string alone, so
/// repeated runs over unchanged input produce the same ids. (Distinctness of
/// ids for distinct inputs rests on the hash function's collision behaviour
/// and is not claimed here.)
pub proof fn lemma_id_deterministic(p1: Seq<u8>, p2: Seq<u8>)
    requires
        p1 == p2,
    ensures
        id_of(p1) == id_of(p2),
{
}

} // verus!
