//! The on-disk layout of an installation, as paths relative to its root,
//! and the remote location of asset objects.

use vstd::prelude::*;

verus! {

pub open spec fn version_dir(id: Seq<char>) -> Seq<char> {
    "versions/"@ + id
}

/// `versions/<id>/<id>.json`
pub open spec fn descriptor_path_of(id: Seq<char>) -> Seq<char> {
    version_dir(id) + "/"@ + id + ".json"@
}

/// `versions/<id>/<id>.jar`
pub open spec fn client_jar_path_of(id: Seq<char>) -> Seq<char> {
    version_dir(id) + "/"@ + id + ".jar"@
}

/// `versions/<id>/natives`
pub open spec fn natives_dir_of(id: Seq<char>) -> Seq<char> {
    version_dir(id) + "/natives"@
}

/// `libraries/<path>`
pub open spec fn library_path_of(path: Seq<char>) -> Seq<char> {
    "libraries/"@ + path
}

/// `assets/indexes/<id>.json`
pub open spec fn asset_index_path_of(id: Seq<char>) -> Seq<char> {
    "assets/indexes/"@ + id + ".json"@
}

/// `assets/objects/<first two characters of hash>/<hash>`
pub open spec fn object_path_of(hash: Seq<char>) -> Seq<char> {
    "assets/objects/"@ + hash.subrange(0, 2) + "/"@ + hash
}

/// `<base>/<first two characters of hash>/<hash>`
pub open spec fn object_url_of(base: Seq<char>, hash: Seq<char>) -> Seq<char> {
    base + "/"@ + hash.subrange(0, 2) + "/"@ + hash
}

/// Where the version descriptor is kept.
pub fn descriptor_path(id: &str) -> (r: String)
    ensures
        r@ == descriptor_path_of(id@),
{
    "versions/".to_string().concat(id).concat("/").concat(id).concat(".json")
}

/// Where the client jar is kept.
pub fn client_jar_path(id: &str) -> (r: String)
    ensures
        r@ == client_jar_path_of(id@),
{
    "versions/".to_string().concat(id).concat("/").concat(id).concat(".jar")
}

/// Where native libraries are unpacked.
pub fn natives_dir(id: &str) -> (r: String)
    ensures
        r@ == natives_dir_of(id@),
{
    "versions/".to_string().concat(id).concat("/natives")
}

/// Where a library file with manifest path `path` is kept.
pub fn library_path(path: &str) -> (r: String)
    ensures
        r@ == library_path_of(path@),
{
    "libraries/".to_string().concat(path)
}

/// Where the asset index named `id` is kept.
pub fn asset_index_path(id: &str) -> (r: String)
    ensures
        r@ == asset_index_path_of(id@),
{
    "assets/indexes/".to_string().concat(id).concat(".json")
}

/// Where the asset object with `hash` is kept.
pub fn object_path(hash: &str) -> (r: String)
    requires
        hash@.len() >= 2,
    ensures
        r@ == object_path_of(hash@),
{
    let prefix = hash.substring_char(0, 2);
    "assets/objects/".to_string().concat(prefix).concat("/").concat(hash)
}

/// Where the asset object with `hash` is fetched from, below `base`.
pub fn object_url(base: &str, hash: &str) -> (r: String)
    requires
        hash@.len() >= 2,
    ensures
        r@ == object_url_of(base@, hash@),
{
    let prefix = hash.substring_char(0, 2);
    base.to_string().concat("/").concat(prefix).concat("/").concat(hash)
}

} // verus!
