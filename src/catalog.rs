//! The version catalog: the list of versions that can be installed.

use vstd::prelude::*;
use crate::json::{Json, ParseError, parse_json, json_of};
use crate::decode::{decode_all, lemma_decode_all_step, lemma_decode_all_prefix, lemma_full_prefix};

verus! {

/// One version of the catalog.
pub struct VersionSource {
    pub version_id: String,
    /// Where the version's descriptor is fetched from.
    pub version_url: String,
    /// `release`, `snapshot`, `old_beta` or `old_alpha`.
    pub version_type: String,
    pub release_time: String,
}

/// Which kinds of version a catalog listing keeps.
#[derive(PartialEq, Eq, Structural, Clone, Copy, Debug)]
pub struct VersionFilter {
    pub snapshot: bool,
    pub release: bool,
    pub old_beta: bool,
    pub old_alpha: bool,
}

/// A version of type `t` is kept under `f`.
pub open spec fn kind_wanted(t: Seq<char>, f: VersionFilter) -> bool {
    (t == "snapshot"@ && f.snapshot) || (t == "release"@ && f.release) || (t == "old_beta"@
        && f.old_beta) || (t == "old_alpha"@ && f.old_alpha)
}

pub open spec fn wanted_by(f: VersionFilter) -> spec_fn(VersionSource) -> bool {
    |v: VersionSource| kind_wanted(v.version_type@, f)
}

/// A catalog entry: `id`, `url`, `type` and `releaseTime`, all strings.
pub open spec fn entry_of(j: Json) -> Option<VersionSource> {
    match (j.str_field("id"@), j.str_field("url"@), j.str_field("type"@), j.str_field("releaseTime"@)) {
        (Some(id), Some(url), Some(t), Some(time)) => Some(
            VersionSource { version_id: id, version_url: url, version_type: t, release_time: time },
        ),
        _ => None,
    }
}

pub open spec fn entry_decoder() -> spec_fn(Json) -> Option<VersionSource> {
    |j: Json| entry_of(j)
}

/// The entries of the `versions` array, in catalog order, that `f` keeps;
/// `None` where the array is missing or an entry is malformed.
pub open spec fn catalog_of(j: Json, f: VersionFilter) -> Option<Seq<VersionSource>> {
    match j.field("versions"@) {
        Some(Json::Array(items)) => match decode_all(items@, entry_decoder()) {
            Some(all) => Some(all.filter(wanted_by(f))),
            None => None,
        },
        _ => None,
    }
}

/// Every version listed is of a kind that `f` keeps.
pub open spec fn all_wanted(versions: Seq<VersionSource>, f: VersionFilter) -> bool {
    forall|i: int| 0 <= i < versions.len() ==> kind_wanted((#[trigger] versions[i]).version_type@, f)
}

/// Whether a version type is kept under `f`.
pub fn is_wanted(version_type: &String, f: VersionFilter) -> (r: bool)
    ensures
        r == kind_wanted(version_type@, f),
{
    (*version_type == "snapshot".to_string() && f.snapshot)
        || (*version_type == "release".to_string() && f.release)
        || (*version_type == "old_beta".to_string() && f.old_beta)
        || (*version_type == "old_alpha".to_string() && f.old_alpha)
}

fn decode_entry(j: &Json) -> (r: Result<VersionSource, ParseError>)
    ensures
        match r {
            Ok(v) => entry_of(*j) == Some(v),
            Err(e) => entry_of(*j) is None && e == ParseError::Schema,
        },
{
    match (j.get_str("id"), j.get_str("url"), j.get_str("type"), j.get_str("releaseTime")) {
        (Some(id), Some(url), Some(t), Some(time)) => Ok(
            VersionSource {
                version_id: id.clone(),
                version_url: url.clone(),
                version_type: t.clone(),
                release_time: time.clone(),
            },
        ),
        _ => Err(ParseError::Schema),
    }
}

/// The versions of a catalog document that `f` keeps, in catalog order.
pub fn decode_catalog(j: &Json, f: VersionFilter) -> (r: Result<Vec<VersionSource>, ParseError>)
    ensures
        match r {
            Ok(v) => catalog_of(*j, f) == Some(v@) && all_wanted(v@, f),
            Err(e) => catalog_of(*j, f) is None && e == ParseError::Schema,
        },
{
    let items = match j.get("versions") {
        Some(Json::Array(items)) => items,
        _ => return Err(ParseError::Schema),
    };
    let ghost dec = entry_decoder();
    let ghost keep = wanted_by(f);
    let ghost mut all: Seq<VersionSource> = Seq::empty();
    let mut out: Vec<VersionSource> = Vec::new();
    let mut i: usize = 0;
    proof {
        reveal(Seq::filter);
    }
    while i < items.len()
        invariant
            i <= items@.len(),
            dec == entry_decoder(),
            keep == wanted_by(f),
            decode_all(items@.subrange(0, i as int), dec) == Some(all),
            out@ == all.filter(keep),
            all_wanted(out@, f),
            catalog_of(*j, f) == match decode_all(items@, dec) {
                Some(all) => Some(all.filter(keep)),
                None => None,
            },
        decreases items.len() - i,
    {
        proof {
            lemma_decode_all_step(items@, dec, i as int);
        }
        match decode_entry(&items[i]) {
            Ok(v) => {
                proof {
                    reveal(Seq::filter);
                    assert(all.push(v).drop_last() =~= all);
                    all = all.push(v);
                }
                if is_wanted(&v.version_type, f) {
                    out.push(v);
                }
            },
            Err(e) => {
                proof {
                    lemma_decode_all_prefix(items@, dec, i + 1);
                }
                return Err(e);
            },
        }
        i += 1;
    }
    proof {
        lemma_full_prefix(items@);
    }
    Ok(out)
}

/// What a catalog text lists under `f`: `Syntax` where it is not JSON,
/// `Schema` where the `versions` array is missing or an entry lacks a field.
pub open spec fn catalog_from_text(text: Seq<u8>, f: VersionFilter) -> Result<Seq<VersionSource>, ParseError> {
    match json_of(text) {
        None => Err(ParseError::Syntax),
        Some(j) => match catalog_of(j, f) {
            Some(v) => Ok(v),
            None => Err(ParseError::Schema),
        },
    }
}

/// Parses a version catalog text and lists the versions of the kinds asked
/// for, in catalog order.
pub fn get_version_sources(
    manifest: &[u8],
    snapshot: bool,
    release: bool,
    old_beta: bool,
    old_alpha: bool,
) -> (r: Result<Vec<VersionSource>, ParseError>)
    ensures
        match catalog_from_text(manifest@, VersionFilter { snapshot, release, old_beta, old_alpha }) {
            Ok(v) => r matches Ok(x) && x@ == v,
            Err(e) => r matches Err(x) && x == e,
        },
        r matches Ok(v) ==> all_wanted(v@, VersionFilter { snapshot, release, old_beta, old_alpha }),
{
    match parse_json(manifest) {
        Ok(j) => decode_catalog(&j, VersionFilter { snapshot, release, old_beta, old_alpha }),
        Err(e) => Err(e),
    }
}

} // verus!
