use akiraka::catalog::get_version_sources;
use akiraka::install::{Action, Event, InstallError, Installer};
use akiraka::json::ParseError;
use akiraka::plan::{DownloadTask, TaskKind};
use akiraka::rules::{Platform, RuleMode};
use akiraka::scheduler::{FailureKind, Scheduler};

const CATALOG: &str = r#"{"versions":[{"id":"1.20.1","type":"release","url":"https://meta.example/v/1.20.1.json","releaseTime":"2023-06-12T00:00:00+00:00"}]}"#;
const DESCRIPTOR: &str = r#"{"downloads":{"client":{"url":"https://cdn.example/client.jar"}},
 "assetIndex":{"id":"5","url":"https://cdn.example/indexes/5.json"},
 "libraries":[{"downloads":{"artifact":{"path":"org/x/y/1/y-1.jar","url":"https://libs.example/y-1.jar"}}}]}"#;
const INDEX: &str = r#"{"objects":{"minecraft/lang/en_us.json":{"hash":"0a1b2c3d4e5f60718293","size":5}}}"#;
const TWO_OBJECTS: &str = r#"{"objects":{"a.txt":{"hash":"aa11","size":1},"b.ogg":{"hash":"bb22","size":900}}}"#;

fn installer() -> Installer {
    let versions = get_version_sources(CATALOG.as_bytes(), false, true, false, false).unwrap();
    assert_eq!(versions.len(), 1);
    let p = Platform { os: "linux".to_string(), arch: "x86_64".to_string() };
    Installer::new(&versions[0], p, RuleMode::ResetOnMismatch, "https://res.example".to_string())
}

fn expect_fetch(a: Action) -> String {
    match a {
        Action::Fetch(u) => u,
        _ => panic!("fetch expected"),
    }
}

fn expect_save(a: Action) -> (String, Vec<u8>) {
    match a {
        Action::Save { path, contents } => (path, contents),
        _ => panic!("save expected"),
    }
}

fn run_to_downloads(inst: &mut Installer) -> (Vec<(String, Vec<u8>)>, Vec<DownloadTask>) {
    let mut saved = Vec::new();
    assert_eq!(expect_fetch(inst.start()), "https://meta.example/v/1.20.1.json");
    saved.push(expect_save(inst.step(Event::Fetched(DESCRIPTOR.as_bytes().to_vec()))));
    assert_eq!(expect_fetch(inst.step(Event::Saved)), "https://cdn.example/indexes/5.json");
    saved.push(expect_save(inst.step(Event::Fetched(INDEX.as_bytes().to_vec()))));
    match inst.step(Event::Saved) {
        Action::Download(tasks) => (saved, tasks),
        _ => panic!("downloads expected"),
    }
}

#[test]
fn end_to_end_install() {
    let mut inst = installer();
    let (saved, tasks) = run_to_downloads(&mut inst);
    assert_eq!(saved[0], ("versions/1.20.1/1.20.1.json".to_string(), DESCRIPTOR.as_bytes().to_vec()));
    assert_eq!(saved[1], ("assets/indexes/5.json".to_string(), INDEX.as_bytes().to_vec()));
    let got: Vec<(&str, &str, TaskKind)> = tasks.iter().map(|t| (t.url.as_str(), t.path.as_str(), t.kind)).collect();
    assert_eq!(
        got,
        vec![
            ("https://cdn.example/client.jar", "versions/1.20.1/1.20.1.jar", TaskKind::Client),
            ("https://libs.example/y-1.jar", "libraries/org/x/y/1/y-1.jar", TaskKind::Library),
            (
                "https://res.example/0a/0a1b2c3d4e5f60718293",
                "assets/objects/0a/0a1b2c3d4e5f60718293",
                TaskKind::Asset
            ),
        ]
    );
    let mut s = Scheduler::new(tasks.len(), 2, 1);
    while !s.is_drained() {
        let mut started = Vec::new();
        while let Some(i) = s.next_task() {
            started.push(i);
        }
        for i in started {
            s.finish(i, Ok(()));
        }
    }
    match inst.step(Event::Downloaded(s.report())) {
        Action::Finished(r) => {
            assert_eq!(r.succeeded, vec![0, 1, 2]);
            assert!(r.failed.is_empty());
        }
        _ => panic!("finish expected"),
    }
}

#[test]
fn descriptor_saved_verbatim() {
    let mut inst = installer();
    inst.start();
    let body = b"{ \"odd\" :\n  spacing \xff}".to_vec();
    let (path, contents) = expect_save(inst.step(Event::Fetched(body.clone())));
    assert_eq!(path, "versions/1.20.1/1.20.1.json");
    assert_eq!(contents, body);
    assert!(matches!(inst.step(Event::Saved), Action::Failed(InstallError::Parse(ParseError::Syntax))));
}

#[test]
fn failures_before_downloads() {
    let mut inst = installer();
    inst.start();
    assert!(matches!(inst.step(Event::FetchFailed), Action::Failed(InstallError::Network)));

    let mut inst = installer();
    inst.start();
    inst.step(Event::Fetched(DESCRIPTOR.as_bytes().to_vec()));
    assert!(matches!(inst.step(Event::SaveFailed), Action::Failed(InstallError::Io)));

    let mut inst = installer();
    inst.start();
    inst.step(Event::Fetched(b"{}".to_vec()));
    assert!(matches!(inst.step(Event::Saved), Action::Failed(InstallError::Parse(ParseError::Schema))));

    let mut inst = installer();
    inst.start();
    assert!(matches!(inst.step(Event::Saved), Action::Failed(InstallError::OutOfOrder)));
}

#[test]
fn failed_download_reported() {
    let mut inst = installer();
    let (_, tasks) = run_to_downloads(&mut inst);
    let mut s = Scheduler::new(tasks.len(), 1, 1);
    while let Some(i) = s.next_task() {
        s.finish(i, if tasks[i].kind == TaskKind::Library { Err(FailureKind::Network) } else { Ok(()) });
    }
    assert!(s.is_drained());
    match inst.step(Event::Downloaded(s.report())) {
        Action::Finished(r) => {
            assert_eq!(r.succeeded, vec![0, 2]);
            assert_eq!(r.failed, vec![(1, FailureKind::Network)]);
        }
        _ => panic!("finish expected"),
    }
}

#[test]
fn asset_downloads_largest_first() {
    let mut inst = installer();
    inst.start();
    inst.step(Event::Fetched(DESCRIPTOR.as_bytes().to_vec()));
    inst.step(Event::Saved);
    inst.step(Event::Fetched(TWO_OBJECTS.as_bytes().to_vec()));
    match inst.step(Event::Saved) {
        Action::Download(tasks) => {
            let assets: Vec<&str> = tasks.iter().filter(|t| t.kind == TaskKind::Asset).map(|t| t.path.as_str()).collect();
            assert_eq!(assets, vec!["assets/objects/bb/bb22", "assets/objects/aa/aa11"]);
        }
        _ => panic!("downloads expected"),
    }
}
