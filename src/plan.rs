//! Download planning: which files an installation fetches, from where, and
//! where each is kept.

use vstd::prelude::*;
use crate::assets::{Asset, hashes_valid};
use crate::descriptor::{Download, Library, LibraryView, NativeEntry, DescriptorView, VersionDescriptor, library_included};
use crate::layout::{library_path, library_path_of, natives_dir, natives_dir_of, client_jar_path, client_jar_path_of, object_path, object_path_of, object_url, object_url_of};
use crate::rules::{Platform, RuleMode, manifest_os, manifest_os_name};

verus! {

/// What a download is for.
#[derive(PartialEq, Eq, Structural, Clone, Copy, Debug)]
pub enum TaskKind {
    Client,
    Library,
    /// A native-library archive, unpacked once fetched.
    Native,
    Asset,
}

/// One file to fetch.
pub struct DownloadTask {
    pub url: String,
    /// Destination, relative to the installation root.
    pub path: String,
    pub kind: TaskKind,
    /// For a native archive: the directory, relative to the installation
    /// root, that it is unpacked into.
    pub extract_to: Option<String>,
}

pub struct TaskView {
    pub url: Seq<char>,
    pub path: Seq<char>,
    pub kind: TaskKind,
    pub extract_to: Option<Seq<char>>,
}

impl View for DownloadTask {
    type V = TaskView;

    open spec fn view(&self) -> TaskView {
        TaskView {
            url: self.url@,
            path: self.path@,
            kind: self.kind,
            extract_to: match self.extract_to {
                Some(e) => Some(e@),
                None => None,
            },
        }
    }
}

pub open spec fn task_views(s: Seq<DownloadTask>) -> Seq<TaskView> {
    s.map_values(|t: DownloadTask| t@)
}

/// The first native entry from position `i` on whose OS is `os`.
pub open spec fn native_from(natives: Seq<NativeEntry>, os: Seq<char>, i: int) -> Option<NativeEntry>
    decreases natives.len() - i,
{
    if i < 0 || i >= natives.len() {
        None
    } else if natives[i].os@ == os {
        Some(natives[i])
    } else {
        native_from(natives, os, i + 1)
    }
}

/// The library file for a download.
pub open spec fn library_task_of(d: Download, kind: TaskKind, extract_to: Option<Seq<char>>) -> TaskView {
    TaskView { url: d.url@, path: library_path_of(d.path@), kind, extract_to }
}

/// The downloads of one library: none where its rules exclude it; else its
/// artifact where it has one, then the classifier that its natives name for
/// the platform's OS, where there is one, unpacked into the natives directory.
pub open spec fn library_tasks_of(lib: LibraryView, p: Platform, mode: RuleMode, id: Seq<char>) -> Seq<TaskView> {
    if !library_included(lib, p, mode) {
        Seq::empty()
    } else {
        artifact_tasks_of(lib) + native_tasks_of(lib, p, id)
    }
}

/// The artifact download of a library, where it has one.
pub open spec fn artifact_tasks_of(lib: LibraryView) -> Seq<TaskView> {
    match lib.artifact {
        Some(d) => seq![library_task_of(d, TaskKind::Library, None)],
        None => Seq::empty(),
    }
}

/// The native download of a library for the platform's OS, where there is one.
pub open spec fn native_tasks_of(lib: LibraryView, p: Platform, id: Seq<char>) -> Seq<TaskView> {
    match native_from(lib.natives, manifest_os(p.os@), 0) {
        Some(n) => match n.classifier {
            Some(d) => seq![library_task_of(d, TaskKind::Native, Some(natives_dir_of(id)))],
            None => Seq::empty(),
        },
        None => Seq::empty(),
    }
}

/// The downloads of a list of libraries, library by library.
pub open spec fn libraries_tasks_of(libs: Seq<LibraryView>, p: Platform, mode: RuleMode, id: Seq<char>) -> Seq<TaskView>
    decreases libs.len(),
{
    if libs.len() == 0 {
        Seq::empty()
    } else {
        libraries_tasks_of(libs.drop_last(), p, mode, id) + library_tasks_of(libs.last(), p, mode, id)
    }
}

/// The download of one asset object.
pub open spec fn asset_task_of(a: Asset, base: Seq<char>) -> TaskView {
    TaskView { url: object_url_of(base, a.hash@), path: object_path_of(a.hash@), kind: TaskKind::Asset, extract_to: None }
}

/// The downloads of the asset objects, in the given order.
pub open spec fn asset_tasks_of(assets: Seq<Asset>, base: Seq<char>) -> Seq<TaskView> {
    assets.map_values(|a: Asset| asset_task_of(a, base))
}

/// The download of the client jar.
pub open spec fn client_task_of(id: Seq<char>, d: DescriptorView) -> TaskView {
    TaskView { url: d.client_url@, path: client_jar_path_of(id), kind: TaskKind::Client, extract_to: None }
}

/// All downloads of an installation: the client jar, the libraries' files
/// and the asset objects, in that order.
pub open spec fn install_tasks_of(
    id: Seq<char>,
    d: DescriptorView,
    assets: Seq<Asset>,
    p: Platform,
    mode: RuleMode,
    base: Seq<char>,
) -> Seq<TaskView> {
    seq![client_task_of(id, d)] + libraries_tasks_of(d.libraries, p, mode, id) + asset_tasks_of(assets, base)
}

fn library_task(d: &Download, kind: TaskKind, extract_to: Option<String>) -> (r: DownloadTask)
    ensures
        r@ == library_task_of(*d, kind, match extract_to { Some(e) => Some(e@), None => None }),
{
    DownloadTask { url: d.url.clone(), path: library_path(d.path.as_str()), kind, extract_to }
}

/// The first native entry whose OS is `os`.
fn find_native<'a>(natives: &'a Vec<NativeEntry>, os: &String) -> (r: Option<&'a NativeEntry>)
    ensures
        match r {
            Some(n) => native_from(natives@, os@, 0) == Some(*n),
            None => native_from(natives@, os@, 0) is None,
        },
{
    let mut i: usize = 0;
    while i < natives.len()
        invariant
            i <= natives@.len(),
            native_from(natives@, os@, 0) == native_from(natives@, os@, i as int),
        decreases natives.len() - i,
    {
        if natives[i].os == *os {
            return Some(&natives[i]);
        }
        i += 1;
    }
    None
}

/// Appends the downloads of one library to `out`.
pub fn plan_library(
    lib: &Library,
    platform: &Platform,
    mode: RuleMode,
    id: &str,
    out: &mut Vec<DownloadTask>,
)
    ensures
        task_views(final(out)@) == task_views(old(out)@) + library_tasks_of(lib@, *platform, mode, id@),
{
    let ghost start = old(out)@;
    if !lib.is_included(platform, mode) {
        assert(task_views(out@) =~= task_views(start) + library_tasks_of(lib@, *platform, mode, id@));
        return;
    }
    let ghost artifact = artifact_tasks_of(lib@);
    if let Some(d) = &lib.artifact {
        out.push(library_task(d, TaskKind::Library, None));
    }
    assert(task_views(out@) =~= task_views(start) + artifact);
    let os_key = manifest_os_name(platform.os.as_str());
    match find_native(&lib.natives, &os_key) {
        Some(n) => match &n.classifier {
            Some(d) => {
                let ghost before = out@;
                let dir = natives_dir(id);
                out.push(library_task(d, TaskKind::Native, Some(dir)));
                assert(task_views(out@) =~= task_views(before).push(out@.last()@));
            },
            None => {},
        },
        None => {},
    }
    assert(task_views(out@) =~= task_views(start) + library_tasks_of(lib@, *platform, mode, id@));
}

/// The downloads of the libraries of a descriptor, library by library.
pub fn plan_libraries(libs: &Vec<Library>, platform: &Platform, mode: RuleMode, id: &str) -> (r: Vec<DownloadTask>)
    ensures
        task_views(r@) == libraries_tasks_of(libs@.map_values(|l: Library| l@), *platform, mode, id@),
{
    let ghost views = libs@.map_values(|l: Library| l@);
    let mut out: Vec<DownloadTask> = Vec::new();
    let mut i: usize = 0;
    while i < libs.len()
        invariant
            i <= libs@.len(),
            views == libs@.map_values(|l: Library| l@),
            task_views(out@) == libraries_tasks_of(views.subrange(0, i as int), *platform, mode, id@),
        decreases libs.len() - i,
    {
        plan_library(&libs[i], platform, mode, id, &mut out);
        assert(views.subrange(0, i + 1).drop_last() =~= views.subrange(0, i as int));
        i += 1;
    }
    assert(views.subrange(0, i as int) =~= views);
    out
}

/// The downloads of the asset objects, in the given order, fetched from below `base`.
pub fn plan_assets(assets: &Vec<Asset>, base: &str) -> (r: Vec<DownloadTask>)
    requires
        hashes_valid(assets@),
    ensures
        task_views(r@) == asset_tasks_of(assets@, base@),
{
    let mut out: Vec<DownloadTask> = Vec::new();
    let mut i: usize = 0;
    while i < assets.len()
        invariant
            i <= assets@.len(),
            hashes_valid(assets@),
            task_views(out@) == asset_tasks_of(assets@.subrange(0, i as int), base@),
        decreases assets.len() - i,
    {
        let h = assets[i].hash.as_str();
        assert(assets@[i as int].hash@.len() >= 2);
        let t = DownloadTask { url: object_url(base, h), path: object_path(h), kind: TaskKind::Asset, extract_to: None };
        let ghost before = out@;
        out.push(t);
        assert(task_views(out@) =~= task_views(before).push(t@));
        assert(assets@.subrange(0, i + 1) =~= assets@.subrange(0, i as int).push(assets@[i as int]));
        assert(asset_tasks_of(assets@.subrange(0, i + 1), base@) =~= asset_tasks_of(assets@.subrange(0, i as int), base@).push(asset_task_of(assets@[i as int], base@)));
        i += 1;
    }
    assert(assets@.subrange(0, i as int) =~= assets@);
    out
}

/// Every download of an installation of version `id`: the client jar, the
/// files of the libraries that apply on `platform`, and the asset objects.
pub fn plan_install(
    id: &str,
    descriptor: &VersionDescriptor,
    assets: &Vec<Asset>,
    platform: &Platform,
    mode: RuleMode,
    base: &str,
) -> (r: Vec<DownloadTask>)
    requires
        hashes_valid(assets@),
    ensures
        task_views(r@) == install_tasks_of(id@, descriptor@, assets@, *platform, mode, base@),
{
    let mut out: Vec<DownloadTask> = Vec::new();
    out.push(DownloadTask {
        url: descriptor.client_url.clone(),
        path: client_jar_path(id),
        kind: TaskKind::Client,
        extract_to: None,
    });
    let ghost first = out@;
    let mut libs = plan_libraries(&descriptor.libraries, platform, mode, id);
    let ghost lib_views = libs@;
    out.append(&mut libs);
    let ghost mid = out@;
    assert(task_views(mid) =~= task_views(first) + task_views(lib_views));
    let mut objs = plan_assets(assets, base);
    let ghost obj_views = objs@;
    out.append(&mut objs);
    assert(task_views(out@) =~= task_views(mid) + task_views(obj_views));
    assert(task_views(first) =~= seq![client_task_of(id@, descriptor@)]);
    out
}

} // verus!
