//! The installation of one version, as a sequence of decisions. The caller
//! performs each action (fetch, save, download) and reports back what
//! happened; the installer decides what comes next.

use vstd::prelude::*;
use crate::assets::{assets_from_text, parse_asset_index, sort_largest_first, sorted_largest_first};
use crate::catalog::VersionSource;
use crate::descriptor::{VersionDescriptor, descriptor_from_text, parse_descriptor};
use crate::json::ParseError;
use crate::layout::{descriptor_path, descriptor_path_of, asset_index_path, asset_index_path_of};
use crate::plan::{DownloadTask, plan_install, install_tasks_of, task_views};
use crate::rules::{Platform, RuleMode};
use crate::scheduler::Report;

verus! {

/// Why an installation stopped before its downloads.
#[derive(PartialEq, Eq, Structural, Clone, Copy, Debug)]
pub enum InstallError {
    /// The descriptor or the asset index could not be fetched.
    Network,
    /// The descriptor or the asset index could not be saved.
    Io,
    /// The descriptor or the asset index is not what it should be.
    Parse(ParseError),
    /// An event came that does not answer the last action.
    OutOfOrder,
}

/// What the caller is asked to do next.
pub enum Action {
    /// Fetch the text at this URL; answer with `Fetched` or `FetchFailed`.
    Fetch(String),
    /// Write `contents` to `path` (relative to the installation root,
    /// creating its parents); answer with `Saved` or `SaveFailed`.
    Save { path: String, contents: Vec<u8> },
    /// Run every download, at most the pool size at once; answer with `Downloaded`.
    Download(Vec<DownloadTask>),
    /// The installation is over; the report says which downloads failed.
    Finished(Report),
    /// The installation stopped before its downloads.
    Failed(InstallError),
}

/// What happened to the last action.
pub enum Event {
    /// The body fetched, byte for byte.
    Fetched(Vec<u8>),
    FetchFailed,
    Saved,
    SaveFailed,
    Downloaded(Report),
}

/// Where an installation stands.
pub enum Phase {
    Start,
    FetchingDescriptor,
    /// The descriptor text is being saved; it is decoded once saved.
    SavingDescriptor(Vec<u8>),
    FetchingIndex(VersionDescriptor),
    /// The asset index text is being saved; it is decoded once saved.
    SavingIndex(VersionDescriptor, Vec<u8>),
    Downloading,
    Done,
}

/// The installation of one version.
pub struct Installer {
    version_id: String,
    version_url: String,
    platform: Platform,
    mode: RuleMode,
    asset_base: String,
    phase: Phase,
}

pub open spec fn fetches(a: Action, url: Seq<char>) -> bool {
    match a {
        Action::Fetch(u) => u@ == url,
        _ => false,
    }
}

pub open spec fn saves(a: Action, path: Seq<char>, contents: Seq<u8>) -> bool {
    match a {
        Action::Save { path: p, contents: c } => p@ == path && c@ == contents,
        _ => false,
    }
}

pub open spec fn fails(a: Action, e: InstallError) -> bool {
    match a {
        Action::Failed(x) => x == e,
        _ => false,
    }
}

impl Installer {
    pub closed spec fn phase(&self) -> Phase {
        self.phase
    }

    pub closed spec fn id(&self) -> Seq<char> {
        self.version_id@
    }

    pub closed spec fn url(&self) -> Seq<char> {
        self.version_url@
    }

    pub closed spec fn platform(&self) -> Platform {
        self.platform
    }

    pub closed spec fn mode(&self) -> RuleMode {
        self.mode
    }

    pub closed spec fn base(&self) -> Seq<char> {
        self.asset_base@
    }

    /// An installer for `source`, on `platform`, fetching asset objects
    /// from below `asset_base`.
    pub fn new(source: &VersionSource, platform: Platform, mode: RuleMode, asset_base: String) -> (r: Installer)
        ensures
            r.phase() is Start,
            r.id() == source.version_id@,
            r.url() == source.version_url@,
            r.platform() == platform,
            r.mode() == mode,
            r.base() == asset_base@,
    {
        Installer {
            version_id: source.version_id.clone(),
            version_url: source.version_url.clone(),
            platform,
            mode,
            asset_base,
            phase: Phase::Start,
        }
    }

    /// The first action: fetch the version descriptor.
    pub fn start(&mut self) -> (a: Action)
        requires
            old(self).phase() is Start,
        ensures
            fetches(a, old(self).url()),
            final(self).phase() is FetchingDescriptor,
            final(self).id() == old(self).id(),
            final(self).url() == old(self).url(),
            final(self).platform() == old(self).platform(),
            final(self).mode() == old(self).mode(),
            final(self).base() == old(self).base(),
    {
        self.phase = Phase::FetchingDescriptor;
        Action::Fetch(self.version_url.clone())
    }

    /// The next action, given what happened to the last one. A fetched
    /// descriptor or index is saved byte for byte as received and then
    /// decoded from those same bytes; once both are in, every download is asked for at
    /// once, asset objects largest first; their report ends the installation. A failure before the
    /// downloads, or an event that does not answer the last action, ends it
    /// with the matching error.
    pub fn step(&mut self, event: Event) -> (a: Action)
        requires
            !(old(self).phase() is Start),
        ensures
            final(self).id() == old(self).id(),
            final(self).url() == old(self).url(),
            final(self).platform() == old(self).platform(),
            final(self).mode() == old(self).mode(),
            final(self).base() == old(self).base(),
            match (old(self).phase(), event) {
                (Phase::FetchingDescriptor, Event::Fetched(body)) => saves(a, descriptor_path_of(old(self).id()), body@)
                    && final(self).phase() == Phase::SavingDescriptor(body),
                (Phase::FetchingDescriptor, Event::FetchFailed) => fails(a, InstallError::Network)
                    && final(self).phase() is Done,
                (Phase::SavingDescriptor(body), Event::Saved) => match descriptor_from_text(body@) {
                    Ok(d) => fetches(a, d.asset_index.url@) && match final(self).phase() {
                        Phase::FetchingIndex(x) => x@ == d,
                        _ => false,
                    },
                    Err(e) => fails(a, InstallError::Parse(e)) && final(self).phase() is Done,
                },
                (Phase::SavingDescriptor(_), Event::SaveFailed) => fails(a, InstallError::Io)
                    && final(self).phase() is Done,
                (Phase::FetchingIndex(d), Event::Fetched(body)) => saves(a, asset_index_path_of(d.asset_index.id@), body@)
                    && final(self).phase() == Phase::SavingIndex(d, body),
                (Phase::FetchingIndex(_), Event::FetchFailed) => fails(a, InstallError::Network)
                    && final(self).phase() is Done,
                (Phase::SavingIndex(d, body), Event::Saved) => match assets_from_text(body@) {
                    Ok(assets) => final(self).phase() is Downloading && match a {
                        Action::Download(tasks) => task_views(tasks@) == install_tasks_of(
                            old(self).id(),
                            d@,
                            sorted_largest_first(assets),
                            old(self).platform(),
                            old(self).mode(),
                            old(self).base(),
                        ),
                        _ => false,
                    },
                    Err(e) => fails(a, InstallError::Parse(e)) && final(self).phase() is Done,
                },
                (Phase::SavingIndex(_, _), Event::SaveFailed) => fails(a, InstallError::Io)
                    && final(self).phase() is Done,
                (Phase::Downloading, Event::Downloaded(report)) => a == Action::Finished(report)
                    && final(self).phase() is Done,
                _ => fails(a, InstallError::OutOfOrder) && final(self).phase() is Done,
            },
    {
        let mut phase = Phase::Done;
        core::mem::swap(&mut phase, &mut self.phase);
        match (phase, event) {
            (Phase::FetchingDescriptor, Event::Fetched(body)) => {
                let path = descriptor_path(self.version_id.as_str());
                let contents = body.clone();
                self.phase = Phase::SavingDescriptor(body);
                Action::Save { path, contents }
            },
            (Phase::FetchingDescriptor, Event::FetchFailed) => Action::Failed(InstallError::Network),
            (Phase::SavingDescriptor(body), Event::Saved) => match parse_descriptor(body.as_slice()) {
                Ok(d) => {
                    let url = d.asset_index.url.clone();
                    self.phase = Phase::FetchingIndex(d);
                    Action::Fetch(url)
                },
                Err(e) => Action::Failed(InstallError::Parse(e)),
            },
            (Phase::SavingDescriptor(_), Event::SaveFailed) => Action::Failed(InstallError::Io),
            (Phase::FetchingIndex(d), Event::Fetched(body)) => {
                let path = asset_index_path(d.asset_index.id.as_str());
                let contents = body.clone();
                self.phase = Phase::SavingIndex(d, body);
                Action::Save { path, contents }
            },
            (Phase::FetchingIndex(_), Event::FetchFailed) => Action::Failed(InstallError::Network),
            (Phase::SavingIndex(d, body), Event::Saved) => match parse_asset_index(body.as_slice()) {
                Ok(parsed) => {
                    let assets = sort_largest_first(parsed);
                    let tasks = plan_install(
                        self.version_id.as_str(),
                        &d,
                        &assets,
                        &self.platform,
                        self.mode,
                        self.asset_base.as_str(),
                    );
                    self.phase = Phase::Downloading;
                    Action::Download(tasks)
                },
                Err(e) => Action::Failed(InstallError::Parse(e)),
            },
            (Phase::SavingIndex(_, _), Event::SaveFailed) => Action::Failed(InstallError::Io),
            (Phase::Downloading, Event::Downloaded(report)) => Action::Finished(report),
            _ => Action::Failed(InstallError::OutOfOrder),
        }
    }
}

} // verus!
