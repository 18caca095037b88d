//! The asset index: content-addressed objects by virtual path.

use vstd::prelude::*;
use crate::json::{Json, ParseError, parse_json, json_of};
use crate::decode::{decode_all, lemma_decode_all_step, lemma_decode_all_prefix, lemma_full_prefix};

verus! {

/// One object of the asset index.
pub struct Asset {
    /// The virtual path the game knows the object by.
    pub name: String,
    /// The content hash; the object's remote and local paths derive from it.
    pub hash: String,
    pub size: u64,
}

/// An entry of `objects`: an object with a `hash` string of at least two
/// characters and a `size` that is an unsigned integer.
pub open spec fn asset_of(entry: (String, Json)) -> Option<Asset> {
    match (entry.1.str_field("hash"@), entry.1.field("size"@)) {
        (Some(h), Some(Json::Int(n))) => if h@.len() >= 2 {
            Some(Asset { name: entry.0, hash: h, size: n })
        } else {
            None
        },
        _ => None,
    }
}

/// Every hash is long enough to derive a path from.
pub open spec fn hashes_valid(assets: Seq<Asset>) -> bool {
    forall|i: int| 0 <= i < assets.len() ==> (#[trigger] assets[i]).hash@.len() >= 2
}

pub open spec fn asset_decoder() -> spec_fn((String, Json)) -> Option<Asset> {
    |e: (String, Json)| asset_of(e)
}

/// The objects of an asset index document, in the order of its `objects` map.
pub open spec fn asset_index_of(j: Json) -> Option<Seq<Asset>> {
    match j.field("objects"@) {
        Some(Json::Object(entries)) => decode_all(entries@, asset_decoder()),
        _ => None,
    }
}

fn decode_asset(name: &String, j: &Json) -> (r: Result<Asset, ParseError>)
    ensures
        match r {
            Ok(a) => asset_of((*name, *j)) == Some(a),
            Err(e) => asset_of((*name, *j)) is None && e == ParseError::Schema,
        },
{
    match (j.get_str("hash"), j.get("size")) {
        (Some(h), Some(Json::Int(n))) => {
            if h.as_str().unicode_len() >= 2 {
                Ok(Asset { name: name.clone(), hash: h.clone(), size: *n })
            } else {
                Err(ParseError::Schema)
            }
        },
        _ => Err(ParseError::Schema),
    }
}

/// Decodes an asset index document.
pub fn decode_asset_index(j: &Json) -> (r: Result<Vec<Asset>, ParseError>)
    ensures
        match r {
            Ok(v) => asset_index_of(*j) == Some(v@) && hashes_valid(v@),
            Err(e) => asset_index_of(*j) is None && e == ParseError::Schema,
        },
{
    let entries = match j.get("objects") {
        Some(Json::Object(entries)) => entries,
        _ => return Err(ParseError::Schema),
    };
    let ghost f = asset_decoder();
    let mut out: Vec<Asset> = Vec::new();
    let mut i: usize = 0;
    while i < entries.len()
        invariant
            i <= entries@.len(),
            f == asset_decoder(),
            decode_all(entries@.subrange(0, i as int), f) == Some(out@),
            hashes_valid(out@),
            asset_index_of(*j) == decode_all(entries@, f),
        decreases entries.len() - i,
    {
        proof {
            lemma_decode_all_step(entries@, f, i as int);
        }
        match decode_asset(&entries[i].0, &entries[i].1) {
            Ok(a) => out.push(a),
            Err(e) => {
                proof {
                    lemma_decode_all_prefix(entries@, f, i + 1);
                }
                return Err(e);
            },
        }
        i += 1;
    }
    proof {
        lemma_full_prefix(entries@);
    }
    Ok(out)
}

/// Larger objects come first.
pub open spec fn largest_first(s: Seq<Asset>) -> bool {
    forall|i: int, j: int| 0 <= i < j < s.len() ==> (#[trigger] s[i]).size >= (#[trigger] s[j]).size
}

proof fn lemma_insert_multiset(s: Seq<Asset>, i: int, x: Asset)
    requires
        0 <= i <= s.len(),
    ensures
        s.insert(i, x).to_multiset() == s.to_multiset().insert(x),
{
    broadcast use vstd::seq_lib::group_to_multiset_ensures;

    let t = s.insert(i, x);
    s.insert_ensures(i, x);
    assert(t.remove(i) =~= s);
    assert(t.to_multiset().remove(x) == s.to_multiset());
    assert(t.contains(x)) by {
        assert(t[i] == x);
    }
    assert(t.to_multiset() =~= s.to_multiset().insert(x));
}

/// The first position from `i` on whose asset is no larger than `size`
/// (the length where there is none).
pub open spec fn first_not_larger(s: Seq<Asset>, size: u64, i: int) -> int
    decreases s.len() - i,
{
    if i < 0 || i >= s.len() {
        s.len() as int
    } else if s[i].size <= size {
        i
    } else {
        first_not_larger(s, size, i + 1)
    }
}

/// `a` placed in a largest-first list before every asset that is no larger,
/// so that it comes ahead of those of equal size.
pub open spec fn insert_largest_first(s: Seq<Asset>, a: Asset) -> Seq<Asset> {
    s.insert(first_not_larger(s, a.size, 0), a)
}

/// The assets largest first, with those of equal size in their given order:
/// the first asset goes ahead of every other no larger than itself.
pub open spec fn sorted_largest_first(s: Seq<Asset>) -> Seq<Asset>
    decreases s.len(),
{
    if s.len() == 0 {
        s
    } else {
        insert_largest_first(sorted_largest_first(s.drop_first()), s[0])
    }
}

proof fn lemma_first_not_larger_bounds(s: Seq<Asset>, size: u64, i: int)
    requires
        0 <= i <= s.len(),
    ensures
        i <= first_not_larger(s, size, i) <= s.len(),
    decreases s.len() - i,
{
    if i < s.len() && s[i].size > size {
        lemma_first_not_larger_bounds(s, size, i + 1);
    }
}

/// Orders assets by size, largest first, so that the longest transfers start
/// early. Assets of equal size keep their relative order.
pub fn sort_largest_first(assets: Vec<Asset>) -> (r: Vec<Asset>)
    ensures
        r@ == sorted_largest_first(assets@),
        largest_first(r@),
        r@.to_multiset() == assets@.to_multiset(),
        hashes_valid(assets@) ==> hashes_valid(r@),
{
    broadcast use vstd::seq_lib::group_to_multiset_ensures;

    let ghost given = assets@;
    let mut rest = assets;
    let mut out: Vec<Asset> = Vec::new();
    proof {
        assert(rest@ =~= given.subrange(0, rest@.len() as int));
        assert(out@ =~= given.subrange(given.len() as int, given.len() as int));
    }
    while rest.len() > 0
        invariant
            largest_first(out@),
            rest@.len() <= given.len(),
            rest@ == given.subrange(0, rest@.len() as int),
            out@ == sorted_largest_first(given.subrange(rest@.len() as int, given.len() as int)),
            out@.to_multiset().add(rest@.to_multiset()) == given.to_multiset(),
            hashes_valid(given) ==> hashes_valid(out@) && hashes_valid(rest@),
        decreases rest.len(),
    {
        let ghost before = rest@;
        let a = rest.pop().unwrap();
        proof {
            assert(rest@.push(a) =~= before);
        }
        let mut k: usize = 0;
        while k < out.len() && out[k].size > a.size
            invariant
                k <= out@.len(),
                forall|m: int| 0 <= m < k ==> (#[trigger] out@[m]).size > a.size,
                first_not_larger(out@, a.size, 0) == first_not_larger(out@, a.size, k as int),
            decreases out.len() - k,
        {
            k += 1;
        }
        let ghost prev = out@;
        proof {
            let m = rest@.len() as int;
            assert(given.subrange(m, given.len() as int).drop_first() =~= given.subrange(m + 1, given.len() as int));
            assert(before == given.subrange(0, m + 1));
            assert(before[m] == a);
            assert(given[m] == a);
            assert(given.subrange(m, given.len() as int)[0] == a);
            assert(rest@ =~= given.subrange(0, m));
            lemma_insert_multiset(prev, k as int, a);
            prev.insert_ensures(k as int, a);
        }
        out.insert(k, a);
        proof {
            assert forall|i: int, j: int| 0 <= i < j < out@.len() implies (#[trigger] out@[i]).size >= (#[trigger] out@[j]).size by {
                if j < k {
                } else if j == k {
                } else if i < k {
                    assert(out@[j] == prev[j - 1]);
                } else if i == k {
                    assert(out@[j] == prev[j - 1]);
                    assert(prev[k as int].size <= a.size);
                    if j - 1 > k {
                        assert(prev[k as int].size >= prev[j - 1].size);
                    }
                } else {
                    assert(out@[i] == prev[i - 1]);
                    assert(out@[j] == prev[j - 1]);
                }
            }
            assert(rest@.push(a) == before);
            rest@.to_multiset_ensures();
            assert(rest@.push(a).to_multiset() == rest@.to_multiset().insert(a));
            assert(before.to_multiset() == rest@.to_multiset().insert(a));
            assert(out@.to_multiset() == prev.to_multiset().insert(a));
            assert(out@.to_multiset().add(rest@.to_multiset()) =~= prev.to_multiset().add(before.to_multiset()));
            if hashes_valid(given) {
                assert(before[before.len() - 1] == a);
                assert forall|i: int| 0 <= i < out@.len() implies (#[trigger] out@[i]).hash@.len() >= 2 by {
                    if i < k {
                    } else if i > k {
                        assert(out@[i] == prev[i - 1]);
                    }
                }
                assert forall|i: int| 0 <= i < rest@.len() implies (#[trigger] rest@[i]).hash@.len() >= 2 by {
                    assert(rest@[i] == before[i]);
                }
            }
        }
    }
    proof {
        assert(rest@ =~= Seq::<Asset>::empty());
        assert(given.subrange(0, given.len() as int) =~= given);
        assert(out@.to_multiset() =~= given.to_multiset());
    }
    out
}

/// What an asset index text decodes to: `Syntax` where it is not JSON,
/// `Schema` where an object is malformed.
pub open spec fn assets_from_text(text: Seq<u8>) -> Result<Seq<Asset>, ParseError> {
    match json_of(text) {
        None => Err(ParseError::Syntax),
        Some(j) => match asset_index_of(j) {
            Some(a) => Ok(a),
            None => Err(ParseError::Schema),
        },
    }
}

/// Parses and decodes an asset index text.
pub fn parse_asset_index(text: &[u8]) -> (r: Result<Vec<Asset>, ParseError>)
    ensures
        match assets_from_text(text@) {
            Ok(a) => r matches Ok(x) && x@ == a && hashes_valid(a),
            Err(e) => r matches Err(x) && x == e,
        },
{
    match parse_json(text) {
        Ok(j) => decode_asset_index(&j),
        Err(e) => Err(e),
    }
}

} // verus!
