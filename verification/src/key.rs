//! The key under which a pool is kept.
//!
//! The key of a pool is made of the names of its two assets, the one whose
//! bytes come first in the order of byte strings standing first. It does
//! not depend on the order in which the two assets are given.

use vstd::prelude::*;
use vstd::string::StringExecFns;
use vstd::utf8::encode_utf8;
use vstd::utf8::encode_utf8_decode_utf8;
use crate::asset::Asset;
use crate::asset::AssetInfo;

verus! {

/// The order of byte strings: the first byte that differs decides, and a
/// string comes before those that it begins.
pub open spec fn lex_le(a: Seq<u8>, b: Seq<u8>) -> bool
    decreases a.len(),
{
    if a.len() == 0 {
        true
    } else if b.len() == 0 {
        false
    } else if a[0] != b[0] {
        a[0] < b[0]
    } else {
        lex_le(a.skip(1), b.skip(1))
    }
}

/// Two byte strings that agree on their first `n` bytes compare as their
/// rests do.
pub proof fn lemma_lex_skip(a: Seq<u8>, b: Seq<u8>, n: int)
    requires
        0 <= n <= a.len(),
        n <= b.len(),
        forall|k: int| 0 <= k < n ==> a[k] == b[k],
    ensures
        lex_le(a, b) == lex_le(a.skip(n), b.skip(n)),
    decreases n,
{
    if n == 0 {
        assert(a.skip(0) =~= a);
        assert(b.skip(0) =~= b);
    } else {
        assert forall|k: int| 0 <= k < n - 1 implies a.skip(1)[k] == b.skip(1)[k] by {
            assert(a.skip(1)[k] == a[k + 1]);
            assert(b.skip(1)[k] == b[k + 1]);
        }
        lemma_lex_skip(a.skip(1), b.skip(1), n - 1);
        assert(a.skip(1).skip(n - 1) =~= a.skip(n));
        assert(b.skip(1).skip(n - 1) =~= b.skip(n));
    }
}

/// Of two byte strings one comes before the other.
pub proof fn lemma_lex_total(a: Seq<u8>, b: Seq<u8>)
    ensures
        lex_le(a, b) || lex_le(b, a),
    decreases a.len(),
{
    if a.len() > 0 && b.len() > 0 && a[0] == b[0] {
        lemma_lex_total(a.skip(1), b.skip(1));
    }
}

/// Two byte strings that come before each other are the same.
pub proof fn lemma_lex_antisymmetric(a: Seq<u8>, b: Seq<u8>)
    requires
        lex_le(a, b),
        lex_le(b, a),
    ensures
        a == b,
    decreases a.len(),
{
    if a.len() == 0 || b.len() == 0 {
        assert(a =~= b);
    } else {
        lemma_lex_antisymmetric(a.skip(1), b.skip(1));
        assert(a =~= seq![a[0]] + a.skip(1));
        assert(b =~= seq![b[0]] + b.skip(1));
    }
}

/// Whether the one byte string comes before the other.
pub fn bytes_le(a: &[u8], b: &[u8]) -> (r: bool)
    ensures
        r == lex_le(a@, b@),
{
    let mut i: usize = 0;
    while i < a.len() && i < b.len()
        invariant
            i <= a.len(),
            i <= b.len(),
            forall|k: int| 0 <= k < i ==> a@[k] == b@[k],
        decreases a.len() - i,
    {
        if a[i] != b[i] {
            proof {
                lemma_lex_skip(a@, b@, i as int);
            }
            return a[i] < b[i];
        }
        i += 1;
    }
    proof {
        lemma_lex_skip(a@, b@, i as int);
    }
    i == a.len()
}

/// The bytes of the key of two assets with the given bytes.
pub open spec fn key_bytes(a: Seq<u8>, b: Seq<u8>) -> Seq<u8> {
    if lex_le(a, b) {
        a + b
    } else {
        b + a
    }
}

/// The key of two assets with the given names.
pub open spec fn key_name(a: Seq<char>, b: Seq<char>) -> Seq<char> {
    if lex_le(encode_utf8(a), encode_utf8(b)) {
        a + b
    } else {
        b + a
    }
}

/// The key of two assets does not depend on their order.
pub proof fn lemma_key_symmetric(a: Seq<char>, b: Seq<char>)
    ensures
        key_name(a, b) == key_name(b, a),
        key_bytes(encode_utf8(a), encode_utf8(b)) == key_bytes(encode_utf8(b), encode_utf8(a)),
{
    let x = encode_utf8(a);
    let y = encode_utf8(b);
    lemma_lex_total(x, y);
    if lex_le(x, y) && lex_le(y, x) {
        lemma_lex_antisymmetric(x, y);
        encode_utf8_decode_utf8(a);
        encode_utf8_decode_utf8(b);
    }
}

/// Appends the bytes of `part` to `key`.
fn push_bytes(key: &mut Vec<u8>, part: &[u8])
    ensures
        final(key)@ == old(key)@ + part@,
{
    let mut i: usize = 0;
    while i < part.len()
        invariant
            i <= part.len(),
            key@ == old(key)@ + part@.take(i as int),
        decreases part.len() - i,
    {
        key.push(part[i]);
        proof {
            assert(part@.take(i + 1) =~= part@.take(i as int).push(part@[i as int]));
            assert(key@ =~= old(key)@ + part@.take(i + 1));
        }
        i += 1;
    }
    proof {
        assert(part@.take(part@.len() as int) =~= part@);
    }
}

/// The bytes of the key of a pool with the two given assets.
pub fn pair_key(asset_infos: &Vec<AssetInfo>) -> (r: Vec<u8>)
    requires
        asset_infos.len() == 2,
    ensures
        r@ == key_bytes(asset_infos[0].bytes(), asset_infos[1].bytes()),
{
    let a = asset_infos[0].as_bytes();
    let b = asset_infos[1].as_bytes();
    let mut key: Vec<u8> = Vec::new();
    if bytes_le(a, b) {
        push_bytes(&mut key, a);
        push_bytes(&mut key, b);
    } else {
        push_bytes(&mut key, b);
        push_bytes(&mut key, a);
    }
    proof {
        assert(Seq::<u8>::empty() + a@ =~= a@);
        assert(Seq::<u8>::empty() + b@ =~= b@);
    }
    key
}

/// The key of a pool with the two given assets.
pub fn key_of(first: &AssetInfo, second: &AssetInfo) -> (r: String)
    ensures
        r@ == key_name(first.name(), second.name()),
{
    if bytes_le(first.as_bytes(), second.as_bytes()) {
        first.to_string().concat(second.to_string().as_str())
    } else {
        second.to_string().concat(first.to_string().as_str())
    }
}

/// The key of the pool that holds the first two of the given assets.
pub fn generate_key_from_asset_info(assets: &Vec<AssetInfo>) -> (r: String)
    requires
        assets.len() >= 2,
    ensures
        r@ == key_name(assets[0].name(), assets[1].name()),
{
    key_of(&assets[0], &assets[1])
}

/// The key of the pool that holds the assets of the first two of the given
/// amounts.
pub fn generate_key_from_assets(assets: &Vec<Asset>) -> (r: String)
    requires
        assets.len() >= 2,
    ensures
        r@ == key_name(assets[0].info.name(), assets[1].info.name()),
{
    key_of(&assets[0].info, &assets[1].info)
}

} // verus!
