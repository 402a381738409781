use paradise_installer::{
    check_status, compute_sha256, plan_extraction, digests_match, entry_destination, is_safe_entry_name, join,
    verify_sha256, Advisory, AtomicInstaller, CommitAction, CommitEvent, CommitPhase,
    CommitState, FileEntry, InstallError, InstallMode, Installer, Manifest, Prerequisites, Run,
    RunAction, RunEvent, Stage, ValidationError, VcRedist,
};
use std::collections::BTreeMap;
use std::io::Write;

const ABC_SHA256: &str = "ba7816bf8f01cfea414140de5dae2223b00361a396177a9cb410ff61f20015ad";
const EMPTY_SHA256: &str = "e3b0c44298fc1c149afbf4c8996fb92427ae41e4649b934ca495991b7852b855";

fn manifest(version: &str, url: &str, sha: &str, files: &[&str]) -> Manifest {
    Manifest {
        version: version.to_string(),
        release_zip_url: url.to_string(),
        sha256: sha.to_string(),
        files: files.iter().map(|n| FileEntry { name: n.to_string() }).collect(),
        prerequisites: Prerequisites::default(),
        license_check_url: None,
    }
}

fn good_manifest() -> Manifest {
    manifest("1.0.0", "https://example.com/r.zip", ABC_SHA256, &["app.exe"])
}

/// Directory trees by path, each a map from relative file name to content.
type Disk = BTreeMap<String, BTreeMap<String, String>>;

/// Performs a commit on an in-memory disk, following the installer's steps.
fn commit(disk: &mut Disk, target: &str, source: &str) -> Result<(), InstallError> {
    let inst = AtomicInstaller::new(target, disk.contains_key(target));
    let stale = inst.backup_dir().map(|b| disk.contains_key(&b)).unwrap_or(false);
    let (mut state, mut action) =
        inst.step(source, CommitState::Begin, CommitEvent::Start { backup_exists: stale });
    loop {
        let ok = match action {
            CommitAction::Finish { result } => return result,
            CommitAction::RemoveDirAll { path } => disk.remove(&path).is_some(),
            CommitAction::Rename { from, to } => {
                if disk.contains_key(&from) && !disk.contains_key(&to) {
                    let moved = disk.remove(&from).unwrap();
                    disk.insert(to, moved);
                    true
                } else {
                    false
                }
            }
            CommitAction::CreateParentDir { .. } => true,
            CommitAction::CopyTree { from, to } => match disk.get(&from).cloned() {
                Some(copied) => {
                    disk.insert(to, copied);
                    true
                }
                None => false,
            },
        };
        let e = if ok { CommitEvent::Succeeded } else { CommitEvent::Failed };
        let (s, a) = inst.step(source, state, e);
        state = s;
        action = a;
    }
}

fn tree(files: &[(&str, &str)]) -> BTreeMap<String, String> {
    files.iter().map(|(n, c)| (n.to_string(), c.to_string())).collect()
}

#[test]
fn digest_of_known_content() {
    assert_eq!(compute_sha256(b"abc"), ABC_SHA256);
    assert_eq!(compute_sha256(b""), EMPTY_SHA256);
}

#[test]
fn digest_is_deterministic() {
    let data = b"release archive bytes".to_vec();
    assert_eq!(compute_sha256(&data), compute_sha256(&data.clone()));
    let mut other = data.clone();
    other[0] ^= 1;
    assert_ne!(compute_sha256(&data), compute_sha256(&other));
}

#[test]
fn digest_verification_ignores_case() {
    assert!(verify_sha256(b"abc", ABC_SHA256));
    assert!(verify_sha256(b"abc", &ABC_SHA256.to_uppercase()));
    assert!(!verify_sha256(b"abd", ABC_SHA256));
    assert!(!verify_sha256(b"ab", ABC_SHA256));
    assert!(!verify_sha256(b"abc", &ABC_SHA256[1..]));
    assert!(!verify_sha256(b"abc", ""));
}

#[test]
fn digests_match_compares_letters_without_case() {
    assert!(digests_match("00ff", "00FF"));
    assert!(digests_match("", ""));
    assert!(!digests_match("00ff", "00fe"));
    assert!(!digests_match("00ff", "00ff0"));
    assert!(!digests_match("g", "h"));
}

#[test]
fn validation_accepts_complete_manifest() {
    assert_eq!(good_manifest().validate(), Ok(()));
}

#[test]
fn validation_rejects_each_missing_field() {
    let m = manifest("", "u", "d", &["a"]);
    assert_eq!(m.validate(), Err(ValidationError::EmptyVersion));
    let m = manifest("1", "", "d", &["a"]);
    assert_eq!(m.validate(), Err(ValidationError::EmptyReleaseUrl));
    let m = manifest("1", "u", "", &["a"]);
    assert_eq!(m.validate(), Err(ValidationError::EmptyDigest));
    let m = manifest("1", "u", "d", &[]);
    assert_eq!(m.validate(), Err(ValidationError::NoFiles));
    let m = manifest("1", "u", "d", &["a", "", ""]);
    assert_eq!(m.validate(), Err(ValidationError::EmptyFileName { index: 1 }));
}

#[test]
fn prerequisites_are_advisory() {
    let mut m = good_manifest();
    assert!(m.check_prerequisites().is_empty());
    m.prerequisites = Prerequisites {
        windows_version_min: Some("10.0".to_string()),
        vc_redist: Some(VcRedist { required: true, url: "https://vc".to_string() }),
    };
    let found = m.check_prerequisites();
    assert_eq!(found.len(), 2);
    assert!(matches!(&found[0], Advisory::MinimumOsVersion { minimum } if minimum == "10.0"));
    assert!(matches!(&found[1], Advisory::Redistributable { url } if url == "https://vc"));
    m.prerequisites.vc_redist = Some(VcRedist { required: false, url: "x".to_string() });
    assert_eq!(m.check_prerequisites().len(), 1);
}

#[test]
fn entry_names_that_escape_are_refused() {
    assert!(is_safe_entry_name("app.exe"));
    assert!(is_safe_entry_name("data/assets.bin"));
    assert!(is_safe_entry_name("a..b/c.."));
    assert!(is_safe_entry_name("dir/"));
    assert!(!is_safe_entry_name(""));
    assert!(!is_safe_entry_name(".."));
    assert!(!is_safe_entry_name("../evil.txt"));
    assert!(!is_safe_entry_name("a/../../b"));
    assert!(!is_safe_entry_name("a\\..\\b"));
    assert!(!is_safe_entry_name("dir/.."));
    assert!(!is_safe_entry_name("/etc/passwd"));
    assert!(!is_safe_entry_name("\\windows"));
    assert!(!is_safe_entry_name("C:/windows"));
}

#[test]
fn entry_destination_joins_or_refuses() {
    assert_eq!(entry_destination("/tmp/x", "data/a.bin").unwrap(), "/tmp/x/data/a.bin");
    match entry_destination("/tmp/x", "../a") {
        Err(InstallError::UnsafeEntry { name }) => assert_eq!(name, "../a"),
        _ => panic!("expected a refusal"),
    }
    assert_eq!(join("a", "b"), "a/b");
}

#[test]
fn fetch_status_must_be_success() {
    assert!(check_status(200).is_ok());
    assert!(check_status(204).is_ok());
    assert!(matches!(check_status(404), Err(InstallError::Fetch { status: 404 })));
    assert!(matches!(check_status(199), Err(InstallError::Fetch { status: 199 })));
    assert!(matches!(check_status(300), Err(InstallError::Fetch { status: 300 })));
}

#[test]
fn specific_mode_needs_a_directory() {
    let r = Installer::new("u".to_string(), InstallMode::Specific, None, false, false);
    assert!(matches!(r, Err(InstallError::Config)));
    let r = Installer::new("u".to_string(), InstallMode::Standard, None, false, false);
    assert!(r.is_ok());
}

#[test]
fn install_directory_by_mode() {
    let std_mode = Installer::new("u".to_string(), InstallMode::Standard, None, false, false).unwrap();
    assert_eq!(std_mode.get_install_directory("/home/u/.local/share").unwrap(), "/home/u/.local/share/paradise/appfolder");
    let specific = Installer::new("u".to_string(), InstallMode::Specific, Some("/opt/app".to_string()), false, false).unwrap();
    assert_eq!(specific.get_install_directory("/ignored").unwrap(), "/opt/app");
}

#[test]
fn missing_required_file_is_named() {
    let inst = Installer::new("u".to_string(), InstallMode::Standard, None, false, false).unwrap();
    let m = manifest("1", "u", "d", &["a", "b", "c"]);
    assert!(inst.verify_extracted_files(&m, &vec![true, true, true]).is_ok());
    match inst.verify_extracted_files(&m, &vec![true, false, false]) {
        Err(InstallError::MissingFile { name }) => assert_eq!(name, "b"),
        _ => panic!("expected a missing file"),
    }
    match inst.verify_extracted_files(&m, &vec![true, true]) {
        Err(InstallError::MissingFile { name }) => assert_eq!(name, "c"),
        _ => panic!("expected a missing file"),
    }
    assert_eq!(inst.required_file_paths("/x", &m), vec!["/x/a", "/x/b", "/x/c"]);
}

#[test]
fn missing_file_stops_the_run_before_commit() {
    let inst = Installer::new("u".to_string(), InstallMode::Standard, None, false, false).unwrap();
    let mut run = Run::new();
    assert!(matches!(inst.step(&mut run, RunEvent::Begin), RunAction::FetchManifest { .. }));
    let m = manifest("1", "u", ABC_SHA256, &["app.exe", "data/assets.bin"]);
    assert!(matches!(inst.step(&mut run, RunEvent::ManifestFetched { manifest: m }), RunAction::Download { .. }));
    assert!(matches!(inst.step(&mut run, RunEvent::ArchiveFetched { bytes: b"abc".to_vec() }), RunAction::Extract));
    assert!(matches!(inst.step(&mut run, RunEvent::Extracted), RunAction::ProbeFiles));
    match inst.step(&mut run, RunEvent::FilesProbed { present: vec![true, false] }) {
        RunAction::Finish { result: Err(InstallError::MissingFile { name }) } => assert_eq!(name, "data/assets.bin"),
        _ => panic!("expected the run to stop"),
    }
    assert_eq!(run.stage, Stage::Aborted);
    let next = inst.step(&mut run, RunEvent::Committed { result: Ok(()) });
    assert!(matches!(next, RunAction::Finish { result: Err(_) }));
    assert_eq!(run.stage, Stage::Aborted);
}

#[test]
fn digest_mismatch_stops_the_run() {
    let inst = Installer::new("u".to_string(), InstallMode::Standard, None, false, true).unwrap();
    let mut run = Run::new();
    inst.step(&mut run, RunEvent::Begin);
    inst.step(&mut run, RunEvent::ManifestFetched { manifest: good_manifest() });
    let a = inst.step(&mut run, RunEvent::ArchiveFetched { bytes: b"abd".to_vec() });
    assert!(matches!(a, RunAction::Finish { result: Err(InstallError::Integrity) }));
    assert_eq!(run.stage, Stage::Aborted);
}

#[test]
fn invalid_manifest_stops_the_run() {
    let inst = Installer::new("u".to_string(), InstallMode::Standard, None, false, true).unwrap();
    let mut run = Run::new();
    inst.step(&mut run, RunEvent::Begin);
    let a = inst.step(&mut run, RunEvent::ManifestFetched { manifest: manifest("1", "u", "d", &[]) });
    assert!(matches!(a, RunAction::Finish { result: Err(InstallError::Validation(ValidationError::NoFiles)) }));
}

#[test]
fn dry_run_stops_after_the_manifest() {
    let inst = Installer::new("https://m".to_string(), InstallMode::Standard, None, true, false).unwrap();
    let mut run = Run::new();
    match inst.step(&mut run, RunEvent::Begin) {
        RunAction::FetchManifest { url } => assert_eq!(url, "https://m"),
        _ => panic!("expected a manifest fetch"),
    }
    match inst.step(&mut run, RunEvent::ManifestFetched { manifest: good_manifest() }) {
        RunAction::ReportDryRun { url } => assert_eq!(url, "https://example.com/r.zip"),
        _ => panic!("expected a dry run report"),
    }
    assert_eq!(run.stage, Stage::Finished);
    let a = inst.step(&mut run, RunEvent::ArchiveFetched { bytes: vec![] });
    assert!(matches!(a, RunAction::Finish { result: Err(InstallError::OutOfOrder) }));
    assert_eq!(run.stage, Stage::Finished);
}

#[test]
fn commit_state_machine_restores_backup_on_failure() {
    let inst = AtomicInstaller::new("/t", true);
    let (s, a) = inst.step("/s", CommitState::Begin, CommitEvent::Start { backup_exists: false });
    assert_eq!(s, CommitState::BackingUp);
    assert!(matches!(a, CommitAction::Rename { ref from, ref to } if from == "/t" && to == "/t.backup"));
    let (s, _) = inst.step("/s", s, CommitEvent::Succeeded);
    assert_eq!(s, CommitState::CreatingParent);
    let (s, _) = inst.step("/s", s, CommitEvent::Succeeded);
    assert_eq!(s, CommitState::Moving);
    let (s, a) = inst.step("/s", s, CommitEvent::Failed);
    assert_eq!(s, CommitState::Staging);
    assert!(matches!(a, CommitAction::CopyTree { ref from, ref to } if from == "/s" && to == "/t.staging"));
    let (s, a) = inst.step("/s", s, CommitEvent::Failed);
    assert_eq!(s, CommitState::Restoring { phase: CommitPhase::Stage });
    assert!(matches!(a, CommitAction::Rename { ref from, ref to } if from == "/t.backup" && to == "/t"));
    let (s, a) = inst.step("/s", s, CommitEvent::Succeeded);
    assert_eq!(s, CommitState::Failed { phase: CommitPhase::Stage, intact: true });
    assert!(matches!(a, CommitAction::Finish { result: Err(InstallError::Commit { phase: CommitPhase::Stage, restored: true }) }));
}

#[test]
fn commit_without_prior_install() {
    let mut disk = Disk::new();
    disk.insert("/tmp/scratch".to_string(), tree(&[("app.exe", "new")]));
    commit(&mut disk, "/opt/app", "/tmp/scratch").unwrap();
    assert_eq!(disk.get("/opt/app"), Some(&tree(&[("app.exe", "new")])));
    assert!(!disk.contains_key("/opt/app.backup"));
    assert!(!disk.contains_key("/tmp/scratch"));
}

#[test]
fn commit_over_prior_install_keeps_one_backup() {
    let mut disk = Disk::new();
    disk.insert("/opt/app".to_string(), tree(&[("v.txt", "v0")]));
    disk.insert("/s1".to_string(), tree(&[("v.txt", "v1")]));
    disk.insert("/s2".to_string(), tree(&[("v.txt", "v2")]));
    commit(&mut disk, "/opt/app", "/s1").unwrap();
    assert_eq!(disk.get("/opt/app"), Some(&tree(&[("v.txt", "v1")])));
    assert_eq!(disk.get("/opt/app.backup"), Some(&tree(&[("v.txt", "v0")])));
    commit(&mut disk, "/opt/app", "/s2").unwrap();
    assert_eq!(disk.get("/opt/app"), Some(&tree(&[("v.txt", "v2")])));
    assert_eq!(disk.get("/opt/app.backup"), Some(&tree(&[("v.txt", "v1")])));
}

#[test]
fn commit_with_missing_source_restores_previous_install() {
    let mut disk = Disk::new();
    disk.insert("/opt/app".to_string(), tree(&[("v.txt", "v0")]));
    let r = commit(&mut disk, "/opt/app", "/nowhere");
    assert!(matches!(r, Err(InstallError::Commit { phase: CommitPhase::Stage, restored: true })));
    assert_eq!(disk.get("/opt/app"), Some(&tree(&[("v.txt", "v0")])));
}

fn build_archive(entries: &[(&str, &str)]) -> Vec<u8> {
    let mut w = zip::ZipWriter::new(std::io::Cursor::new(Vec::new()));
    for (name, content) in entries {
        w.start_file(*name, zip::write::SimpleFileOptions::default()).unwrap();
        w.write_all(content.as_bytes()).unwrap();
    }
    w.finish().unwrap().into_inner()
}

/// Extracts an archive into the tree at `dir`, file paths relative to it.
fn extract(bytes: &[u8], dir: &str) -> Result<BTreeMap<String, String>, InstallError> {
    let mut out = BTreeMap::new();
    for entry in plan_extraction(bytes, dir)? {
        assert!(entry.path.starts_with(&format!("{}/", dir)));
        if !entry.is_dir {
            let rel = entry.path[dir.len() + 1..].to_string();
            out.insert(rel, String::from_utf8(entry.data).unwrap());
        }
    }
    Ok(out)
}

#[test]
fn archive_entry_outside_destination_is_not_written() {
    let bytes = build_archive(&[("ok.txt", "fine"), ("../escape.txt", "bad")]);
    let r = extract(&bytes, "/tmp/out");
    assert!(matches!(r, Err(InstallError::UnsafeEntry { ref name }) if name == "../escape.txt"));
    let bytes = build_archive(&[("/abs.txt", "bad")]);
    assert!(extract(&bytes, "/tmp/out").is_err());
    let bytes = build_archive(&[("ok.txt", "fine")]);
    assert_eq!(extract(&bytes, "/tmp/out").unwrap(), tree(&[("ok.txt", "fine")]));
}

#[test]
fn full_install_into_fresh_target() {
    let bytes = build_archive(&[("app.exe", "binary"), ("data/assets.bin", "assets")]);
    let digest = compute_sha256(&bytes);
    let inst = Installer::new(
        "https://m".to_string(),
        InstallMode::Specific,
        Some("/opt/target".to_string()),
        false,
        true,
    )
    .unwrap();
    let install_dir = inst.get_install_directory("/unused").unwrap();
    let extract_dir = "/tmp/scratch/extracted";
    let mut disk = Disk::new();
    let mut run = Run::new();
    let mut event = RunEvent::Begin;
    let result = loop {
        let action = inst.step(&mut run, event);
        event = match action {
            RunAction::FetchManifest { .. } => RunEvent::ManifestFetched {
                manifest: manifest(
                    "2.0.0",
                    "https://a/r.zip",
                    &digest.to_uppercase(),
                    &["app.exe", "data/assets.bin"],
                ),
            },
            RunAction::ReportDryRun { .. } => panic!("not a dry run"),
            RunAction::Download { .. } => RunEvent::ArchiveFetched { bytes: bytes.clone() },
            RunAction::Extract => {
                disk.insert(extract_dir.to_string(), extract(&bytes, extract_dir).unwrap());
                RunEvent::Extracted
            }
            RunAction::ProbeFiles => {
                let m = run.manifest.as_ref().unwrap();
                let files = &disk[extract_dir];
                let present = m.files.iter().map(|f| files.contains_key(&f.name)).collect();
                RunEvent::FilesProbed { present }
            }
            RunAction::Commit => {
                RunEvent::Committed { result: commit(&mut disk, &install_dir, extract_dir) }
            }
            RunAction::CreateShortcut => RunEvent::ShortcutDone,
            RunAction::Finish { result } => break result,
        };
    };
    assert!(result.is_ok());
    assert_eq!(run.stage, Stage::Finished);
    assert_eq!(
        disk.get("/opt/target"),
        Some(&tree(&[("app.exe", "binary"), ("data/assets.bin", "assets")]))
    );
}

#[test]
fn trailing_separators_do_not_move_the_backup_inside() {
    let inst = AtomicInstaller::new("/opt/app//", true);
    assert_eq!(inst.target_dir(), "/opt/app");
    assert_eq!(inst.backup_dir(), Some("/opt/app.backup".to_string()));
    assert_eq!(AtomicInstaller::new("C:\\apps\\paradise\\", false).target_dir(), "C:\\apps\\paradise");
    assert_eq!(AtomicInstaller::new("/", false).target_dir(), "/");
    assert_eq!(AtomicInstaller::new("/opt/app", false).backup_dir(), None);
}

#[test]
fn commit_refuses_events_before_start() {
    let inst = AtomicInstaller::new("/t", false);
    let (s, a) = inst.step("/s", CommitState::Begin, CommitEvent::Succeeded);
    assert_eq!(s, CommitState::Begin);
    assert!(matches!(a, CommitAction::Finish { result: Err(InstallError::OutOfOrder) }));
    let (s, a) = inst.step("/s", CommitState::Begin, CommitEvent::Start { backup_exists: true });
    assert_eq!(s, CommitState::CreatingParent);
    assert!(matches!(a, CommitAction::CreateParentDir { ref of } if of == "/t"));
}

#[test]
fn extraction_plan_keeps_stored_order_and_directories() {
    let mut w = zip::ZipWriter::new(std::io::Cursor::new(Vec::new()));
    let opts = zip::write::SimpleFileOptions::default();
    w.add_directory("data/", opts).unwrap();
    w.start_file("data/assets.bin", opts).unwrap();
    w.write_all(b"assets").unwrap();
    w.start_file("app.exe", opts).unwrap();
    w.write_all(b"binary").unwrap();
    let bytes = w.finish().unwrap().into_inner();
    let plan = plan_extraction(&bytes, "/x").unwrap();
    assert_eq!(plan.len(), 3);
    assert_eq!(plan[0].path, "/x/data/");
    assert!(plan[0].is_dir);
    assert_eq!(plan[1].path, "/x/data/assets.bin");
    assert!(!plan[1].is_dir);
    assert_eq!(plan[1].data, b"assets".to_vec());
    assert_eq!(plan[2].path, "/x/app.exe");
    assert_eq!(plan[2].data, b"binary".to_vec());
}

#[test]
fn unreadable_archive_is_an_archive_error() {
    assert!(matches!(plan_extraction(b"not a zip", "/x"), Err(InstallError::Archive)));
    assert!(matches!(plan_extraction(&[], "/x"), Err(InstallError::Archive)));
}

#[test]
fn shortcut_paths_by_mode() {
    let std_mode = Installer::new("u".to_string(), InstallMode::Standard, None, false, false).unwrap();
    assert_eq!(std_mode.shortcut_target("/opt/app"), "/opt/app/paradise.exe");
    assert_eq!(std_mode.shortcut_path("/opt/app", "/home/u/Desktop"), "/home/u/Desktop/paradise.lnk");
    let specific = Installer::new("u".to_string(), InstallMode::Specific, Some("/opt/app".to_string()), false, false).unwrap();
    assert_eq!(specific.shortcut_path("/opt/app", "/home/u/Desktop"), "/opt/app/paradise.lnk");
}

#[test]
fn every_readable_safe_archive_is_planned() {
    let bytes = build_archive(&[("a.txt", "1"), ("b/c.txt", "2"), ("b/d/e.txt", "3")]);
    let plan = plan_extraction(&bytes, "/x").unwrap();
    let paths: Vec<&str> = plan.iter().map(|e| e.path.as_str()).collect();
    assert_eq!(paths, vec!["/x/a.txt", "/x/b/c.txt", "/x/b/d/e.txt"]);
    assert_eq!(plan[2].data, b"3".to_vec());
}
