//! The version descriptor: the per-version manifest that lists the client
//! download, the libraries and the asset index.

use vstd::prelude::*;
use crate::json::{Json, ParseError, parse_json, json_of};
use crate::rules::{Rule, RuleAction, OsCondition, Platform, RuleMode, rules_allow, evaluate};
use crate::decode::{decode_all, lemma_decode_all_step, lemma_decode_all_prefix, lemma_full_prefix};

verus! {

/// A file to fetch: its path below the libraries directory and its URL.
pub struct Download {
    pub path: String,
    pub url: String,
}

/// The native bundle that a library names for one operating system.
pub struct NativeEntry {
    /// Operating-system name as manifests write it.
    pub os: String,
    /// The classifier download; `None` where the manifest has none or `null`.
    pub classifier: Option<Download>,
}

/// A library of the descriptor.
pub struct Library {
    /// The main artifact, where the library has one.
    pub artifact: Option<Download>,
    /// Native bundles by operating system, in manifest order.
    pub natives: Vec<NativeEntry>,
    /// The rules that decide whether the library applies; `None` where absent.
    pub rules: Option<Vec<Rule>>,
}

/// Where the asset index is found.
pub struct AssetIndexRef {
    pub id: String,
    pub url: String,
}

/// The parts of a version descriptor that installation reads.
pub struct VersionDescriptor {
    /// URL of the client jar.
    pub client_url: String,
    pub libraries: Vec<Library>,
    pub asset_index: AssetIndexRef,
}

/// A library with its lists as sequences.
pub struct LibraryView {
    pub artifact: Option<Download>,
    pub natives: Seq<NativeEntry>,
    pub rules: Option<Seq<Rule>>,
}

/// A descriptor with its lists as sequences.
pub struct DescriptorView {
    pub client_url: String,
    pub libraries: Seq<LibraryView>,
    pub asset_index: AssetIndexRef,
}

impl View for Library {
    type V = LibraryView;

    open spec fn view(&self) -> LibraryView {
        LibraryView {
            artifact: self.artifact,
            natives: self.natives@,
            rules: match self.rules {
                Some(r) => Some(r@),
                None => None,
            },
        }
    }
}

impl View for VersionDescriptor {
    type V = DescriptorView;

    open spec fn view(&self) -> DescriptorView {
        DescriptorView {
            client_url: self.client_url,
            libraries: self.libraries@.map_values(|l: Library| l@),
            asset_index: self.asset_index,
        }
    }
}

/// An optional string field: `Some(None)` where absent, `None` where present
/// but not a string.
pub open spec fn optional_str(j: Json, key: Seq<char>) -> Option<Option<String>> {
    match j.field(key) {
        None => Some(None),
        Some(Json::Str(s)) => Some(Some(s)),
        Some(_) => None,
    }
}

/// A download object: `path` and `url`, both strings.
pub open spec fn download_of(j: Json) -> Option<Download> {
    match (j.str_field("path"@), j.str_field("url"@)) {
        (Some(p), Some(u)) => Some(Download { path: p, url: u }),
        _ => None,
    }
}

/// The OS clause of a rule: `name` and `arch`, each an optional string.
pub open spec fn os_condition_of(j: Json) -> Option<OsCondition> {
    match (optional_str(j, "name"@), optional_str(j, "arch"@)) {
        (Some(n), Some(a)) => Some(OsCondition { name: n, arch: a }),
        _ => None,
    }
}

/// A rule: a string `action` (`allow` allows, any other word disallows) and
/// an optional `os` clause.
pub open spec fn rule_of(j: Json) -> Option<Rule> {
    match j.str_field("action"@) {
        None => None,
        Some(a) => {
            let action = if a@ == "allow"@ {
                RuleAction::Allow
            } else {
                RuleAction::Disallow
            };
            match j.field("os"@) {
                None => Some(Rule { action, os: None }),
                Some(o) => match os_condition_of(o) {
                    Some(c) => Some(Rule { action, os: Some(c) }),
                    None => None,
                },
            }
        },
    }
}

pub open spec fn rule_decoder() -> spec_fn(Json) -> Option<Rule> {
    |j: Json| rule_of(j)
}

/// A rule list: an array of rules.
pub open spec fn rules_of(j: Json) -> Option<Seq<Rule>> {
    match j {
        Json::Array(items) => decode_all(items@, rule_decoder()),
        _ => None,
    }
}

/// One entry of `natives` (OS name to classifier name), with the classifier
/// looked up in `classifiers`; a missing or `null` classifier gives `None`.
pub open spec fn native_of(entry: (String, Json), classifiers: Option<Json>) -> Option<NativeEntry> {
    match entry.1 {
        Json::Str(name) => {
            let found = match classifiers {
                Some(c) => c.field(name@),
                None => None,
            };
            match found {
                None => Some(NativeEntry { os: entry.0, classifier: None }),
                Some(Json::Null) => Some(NativeEntry { os: entry.0, classifier: None }),
                Some(d) => match download_of(d) {
                    Some(dl) => Some(NativeEntry { os: entry.0, classifier: Some(dl) }),
                    None => None,
                },
            }
        },
        _ => None,
    }
}

pub open spec fn native_decoder(classifiers: Option<Json>) -> spec_fn((String, Json)) -> Option<NativeEntry> {
    |e: (String, Json)| native_of(e, classifiers)
}

/// The `downloads` object of a library, or `null` where absent.
pub open spec fn downloads_of(j: Json) -> Json {
    match j.field("downloads"@) {
        Some(d) => d,
        None => Json::Null,
    }
}

/// A library: an optional `downloads.artifact`, an optional `natives` object
/// resolved against `downloads.classifiers`, and optional `rules`.
pub open spec fn library_of(j: Json) -> Option<LibraryView> {
    let downloads = downloads_of(j);
    let artifact = match downloads.field("artifact"@) {
        None => Some(None),
        Some(a) => match download_of(a) {
            Some(d) => Some(Some(d)),
            None => None,
        },
    };
    let natives = match j.field("natives"@) {
        None => Some(Seq::empty()),
        Some(Json::Object(entries)) => decode_all(
            entries@,
            native_decoder(downloads.field("classifiers"@)),
        ),
        Some(_) => None,
    };
    let rules = match j.field("rules"@) {
        None => Some(None),
        Some(r) => match rules_of(r) {
            Some(s) => Some(Some(s)),
            None => None,
        },
    };
    match (artifact, natives, rules) {
        (Some(a), Some(n), Some(r)) => Some(LibraryView { artifact: a, natives: n, rules: r }),
        _ => None,
    }
}

pub open spec fn library_decoder() -> spec_fn(Json) -> Option<LibraryView> {
    |j: Json| library_of(j)
}

/// A descriptor: `downloads.client.url`, the `libraries` array and the
/// `assetIndex` object with `id` and `url`.
pub open spec fn descriptor_of(j: Json) -> Option<DescriptorView> {
    let client = match downloads_of(j).field("client"@) {
        Some(c) => c.str_field("url"@),
        None => None,
    };
    let libraries = match j.field("libraries"@) {
        Some(Json::Array(items)) => decode_all(items@, library_decoder()),
        _ => None,
    };
    let index = match j.field("assetIndex"@) {
        Some(a) => match (a.str_field("id"@), a.str_field("url"@)) {
            (Some(id), Some(url)) => Some(AssetIndexRef { id, url }),
            _ => None,
        },
        None => None,
    };
    match (client, libraries, index) {
        (Some(c), Some(l), Some(i)) => Some(DescriptorView { client_url: c, libraries: l, asset_index: i }),
        _ => None,
    }
}

/// The `downloads` object of `j`, when there is one.
fn downloads(j: &Json) -> (r: Option<&Json>)
    ensures
        match r {
            Some(d) => downloads_of(*j) == *d,
            None => downloads_of(*j) == Json::Null,
        },
{
    j.get("downloads")
}

fn optional_string(j: &Json, key: &str) -> (r: Result<Option<String>, ParseError>)
    ensures
        match r {
            Ok(v) => optional_str(*j, key@) == Some(v),
            Err(e) => optional_str(*j, key@) is None && e == ParseError::Schema,
        },
{
    match j.get(key) {
        None => Ok(None),
        Some(Json::Str(s)) => Ok(Some(s.clone())),
        Some(_) => Err(ParseError::Schema),
    }
}

/// Decodes a download object.
pub fn decode_download(j: &Json) -> (r: Result<Download, ParseError>)
    ensures
        match r {
            Ok(d) => download_of(*j) == Some(d),
            Err(e) => download_of(*j) is None && e == ParseError::Schema,
        },
{
    match (j.get_str("path"), j.get_str("url")) {
        (Some(p), Some(u)) => Ok(Download { path: p.clone(), url: u.clone() }),
        _ => Err(ParseError::Schema),
    }
}

/// Decodes a rule.
pub fn decode_rule(j: &Json) -> (r: Result<Rule, ParseError>)
    ensures
        match r {
            Ok(rule) => rule_of(*j) == Some(rule),
            Err(e) => rule_of(*j) is None && e == ParseError::Schema,
        },
{
    let a = match j.get_str("action") {
        Some(a) => a,
        None => return Err(ParseError::Schema),
    };
    let action = if *a == "allow".to_string() {
        RuleAction::Allow
    } else {
        RuleAction::Disallow
    };
    match j.get("os") {
        None => Ok(Rule { action, os: None }),
        Some(o) => {
            let name = optional_string(o, "name");
            let arch = optional_string(o, "arch");
            match (name, arch) {
                (Ok(n), Ok(ar)) => Ok(Rule { action, os: Some(OsCondition { name: n, arch: ar }) }),
                _ => Err(ParseError::Schema),
            }
        },
    }
}

/// Decodes a rule list.
pub fn decode_rules(j: &Json) -> (r: Result<Vec<Rule>, ParseError>)
    ensures
        match r {
            Ok(v) => rules_of(*j) == Some(v@),
            Err(e) => rules_of(*j) is None && e == ParseError::Schema,
        },
{
    let items = match j {
        Json::Array(items) => items,
        _ => return Err(ParseError::Schema),
    };
    let mut out: Vec<Rule> = Vec::new();
    let mut i: usize = 0;
    while i < items.len()
        invariant
            i <= items@.len(),
            decode_all(items@.subrange(0, i as int), rule_decoder()) == Some(out@),
            rules_of(*j) == decode_all(items@, rule_decoder()),
        decreases items.len() - i,
    {
        proof {
            lemma_decode_all_step(items@, rule_decoder(), i as int);
        }
        match decode_rule(&items[i]) {
            Ok(rule) => out.push(rule),
            Err(e) => {
                proof {
                    lemma_decode_all_prefix(items@, rule_decoder(), i + 1);
                }
                return Err(e);
            },
        }
        i += 1;
    }
    proof {
        lemma_full_prefix(items@);
    }
    Ok(out)
}

/// The value behind an optional reference.
pub open spec fn deref_json(o: Option<&Json>) -> Option<Json> {
    match o {
        Some(c) => Some(*c),
        None => None,
    }
}

/// Decodes one `natives` entry, looking its classifier up in `classifiers`.
fn decode_native(os: &String, name: &Json, classifiers: Option<&Json>) -> (r: Result<NativeEntry, ParseError>)
    ensures
        match r {
            Ok(n) => native_of((*os, *name), deref_json(classifiers)) == Some(n),
            Err(e) => native_of((*os, *name), deref_json(classifiers)) is None
                && e == ParseError::Schema,
        },
{
    let cname = match name {
        Json::Str(cname) => cname,
        _ => return Err(ParseError::Schema),
    };
    let found = match classifiers {
        Some(c) => c.get(cname.as_str()),
        None => None,
    };
    match found {
        None => Ok(NativeEntry { os: os.clone(), classifier: None }),
        Some(Json::Null) => Ok(NativeEntry { os: os.clone(), classifier: None }),
        Some(d) => match decode_download(d) {
            Ok(dl) => Ok(NativeEntry { os: os.clone(), classifier: Some(dl) }),
            Err(e) => Err(e),
        },
    }
}

/// Decodes the entries of a `natives` object.
fn decode_natives(entries: &Vec<(String, Json)>, classifiers: Option<&Json>) -> (r: Result<Vec<NativeEntry>, ParseError>)
    ensures
        match r {
            Ok(v) => decode_all(entries@, native_decoder(deref_json(classifiers))) == Some(v@),
            Err(e) => decode_all(entries@, native_decoder(deref_json(classifiers))) is None
                && e == ParseError::Schema,
        },
{
    let ghost f = native_decoder(deref_json(classifiers));
    let mut out: Vec<NativeEntry> = Vec::new();
    let mut i: usize = 0;
    while i < entries.len()
        invariant
            i <= entries@.len(),
            f == native_decoder(deref_json(classifiers)),
            decode_all(entries@.subrange(0, i as int), f) == Some(out@),
        decreases entries.len() - i,
    {
        proof {
            lemma_decode_all_step(entries@, f, i as int);
        }
        match decode_native(&entries[i].0, &entries[i].1, classifiers) {
            Ok(n) => out.push(n),
            Err(e) => {
                proof {
                    lemma_decode_all_prefix(entries@, f, i + 1);
                }
                return Err(e);
            },
        }
        i += 1;
    }
    proof {
        lemma_full_prefix(entries@);
    }
    Ok(out)
}

/// Decodes a library.
pub fn decode_library(j: &Json) -> (r: Result<Library, ParseError>)
    ensures
        match r {
            Ok(l) => library_of(*j) == Some(l@),
            Err(e) => library_of(*j) is None && e == ParseError::Schema,
        },
{
    let dl = downloads(j);
    let artifact = match dl {
        Some(d) => match d.get("artifact") {
            None => None,
            Some(a) => match decode_download(a) {
                Ok(x) => Some(x),
                Err(e) => return Err(e),
            },
        },
        None => None,
    };
    let classifiers = match dl {
        Some(d) => d.get("classifiers"),
        None => None,
    };
    let natives = match j.get("natives") {
        None => Vec::new(),
        Some(Json::Object(entries)) => match decode_natives(entries, classifiers) {
            Ok(n) => n,
            Err(e) => return Err(e),
        },
        Some(_) => return Err(ParseError::Schema),
    };
    let rules = match j.get("rules") {
        None => None,
        Some(r) => match decode_rules(r) {
            Ok(v) => Some(v),
            Err(e) => return Err(e),
        },
    };
    let lib = Library { artifact, natives, rules };
    assert(lib@.natives =~= natives@);
    Ok(lib)
}

/// Decodes a version descriptor document.
pub fn decode_descriptor(j: &Json) -> (r: Result<VersionDescriptor, ParseError>)
    ensures
        match r {
            Ok(d) => descriptor_of(*j) == Some(d@),
            Err(e) => descriptor_of(*j) is None && e == ParseError::Schema,
        },
{
    let client_url = match downloads(j) {
        Some(d) => match d.get("client") {
            Some(c) => match c.get_str("url") {
                Some(u) => u.clone(),
                None => return Err(ParseError::Schema),
            },
            None => return Err(ParseError::Schema),
        },
        None => return Err(ParseError::Schema),
    };
    let items = match j.get("libraries") {
        Some(Json::Array(items)) => items,
        _ => return Err(ParseError::Schema),
    };
    let asset_index = match j.get("assetIndex") {
        Some(a) => match (a.get_str("id"), a.get_str("url")) {
            (Some(id), Some(url)) => AssetIndexRef { id: id.clone(), url: url.clone() },
            _ => return Err(ParseError::Schema),
        },
        None => return Err(ParseError::Schema),
    };
    let ghost f = library_decoder();
    let mut libraries: Vec<Library> = Vec::new();
    let mut i: usize = 0;
    while i < items.len()
        invariant
            i <= items@.len(),
            decode_all(items@.subrange(0, i as int), f) == Some(libraries@.map_values(|l: Library| l@)),
            f == library_decoder(),
            descriptor_of(*j) == match (
                Some(client_url),
                decode_all(items@, f),
                Some(asset_index),
            ) {
                (Some(c), Some(l), Some(i)) => Some(DescriptorView { client_url: c, libraries: l, asset_index: i }),
                _ => None,
            },
        decreases items.len() - i,
    {
        proof {
            lemma_decode_all_step(items@, f, i as int);
        }
        match decode_library(&items[i]) {
            Ok(l) => {
                let ghost before = libraries@;
                libraries.push(l);
                assert(libraries@.map_values(|l: Library| l@) =~= before.map_values(|l: Library| l@).push(l@));
            },
            Err(e) => {
                proof {
                    lemma_decode_all_prefix(items@, f, i + 1);
                }
                return Err(e);
            },
        }
        i += 1;
    }
    proof {
        lemma_full_prefix(items@);
    }
    Ok(VersionDescriptor { client_url, libraries, asset_index })
}

/// What a descriptor text decodes to: `Syntax` where it is not JSON,
/// `Schema` where the document lacks what a descriptor needs.
pub open spec fn descriptor_from_text(text: Seq<u8>) -> Result<DescriptorView, ParseError> {
    match json_of(text) {
        None => Err(ParseError::Syntax),
        Some(j) => match descriptor_of(j) {
            Some(d) => Ok(d),
            None => Err(ParseError::Schema),
        },
    }
}

/// Parses and decodes a version descriptor text.
pub fn parse_descriptor(text: &[u8]) -> (r: Result<VersionDescriptor, ParseError>)
    ensures
        match descriptor_from_text(text@) {
            Ok(d) => r matches Ok(x) && x@ == d,
            Err(e) => r matches Err(x) && x == e,
        },
{
    match parse_json(text) {
        Ok(j) => decode_descriptor(&j),
        Err(e) => Err(e),
    }
}

/// Whether a library applies on `platform`: always where it has no rules,
/// else as its rules decide.
pub open spec fn library_included(lib: LibraryView, p: Platform, mode: RuleMode) -> bool {
    match lib.rules {
        None => true,
        Some(r) => rules_allow(r, p, mode),
    }
}

impl Library {
    /// Whether this library applies on `platform`.
    pub fn is_included(&self, platform: &Platform, mode: RuleMode) -> (r: bool)
        ensures
            r == library_included(self@, *platform, mode),
    {
        match &self.rules {
            None => true,
            Some(rules) => evaluate(rules, platform, mode),
        }
    }
}

/// A library without rules applies on every platform, in either mode.
pub proof fn lemma_no_rules_included(lib: LibraryView, p: Platform, mode: RuleMode)
    requires
        lib.rules is None,
    ensures
        library_included(lib, p, mode),
{
}

} // verus!
