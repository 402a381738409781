use vstd::prelude::*;

use crate::archive::{join, join_path};
use crate::digest::{digest_hex, eq_ignore_case, verify_sha256};
use crate::error::InstallError;
use crate::manifest::Manifest;

verus! {

/// Where to install: the per-user application data directory, or a path the caller gives.
#[derive(Debug, Clone, Copy, PartialEq, Eq, Structural)]
pub enum InstallMode {
    Standard,
    Specific,
}

/// The stages of an install run.
#[derive(Debug, Clone, Copy, PartialEq, Eq, Structural)]
pub enum Stage {
    Start,
    Resolving,
    Downloading,
    Extracting,
    Checking,
    Committing,
    Linking,
    Finished,
    Aborted,
}

/// The outcome of the work that the last action asked for.
#[derive(Debug)]
pub enum RunEvent {
    Begin,
    ManifestFetched { manifest: Manifest },
    ArchiveFetched { bytes: Vec<u8> },
    Extracted,
    /// For each required file, in manifest order, whether it was found.
    FilesProbed { present: Vec<bool> },
    Committed { result: Result<(), InstallError> },
    /// Shortcut creation ended; its failures are only warnings.
    ShortcutDone,
}

/// The work a run asks its driver to do next.
#[derive(Debug)]
pub enum RunAction {
    FetchManifest { url: String },
    /// A dry run ends here: the archive at `url` would be downloaded.
    ReportDryRun { url: String },
    Download { url: String },
    Extract,
    ProbeFiles,
    Commit,
    CreateShortcut,
    Finish { result: Result<(), InstallError> },
}

/// The state of one install run: its stage and, once fetched, the manifest.
pub struct Run {
    pub stage: Stage,
    pub manifest: Option<Manifest>,
}

impl Run {
    pub fn new() -> (r: Run)
        ensures
            r.stage == Stage::Start,
            r.manifest is None,
    {
        Run { stage: Stage::Start, manifest: None }
    }
}

/// `i` is the first required file not found; `present` has a flag per file, and a missing flag counts as not found.
pub open spec fn first_missing(m: Manifest, present: Seq<bool>, i: int) -> bool {
    &&& 0 <= i < m.files@.len()
    &&& i <= present.len()
    &&& (i == present.len() || !present[i])
    &&& forall|j: int| 0 <= j < i ==> #[trigger] present[j]
}

pub open spec fn all_present(m: Manifest, present: Seq<bool>) -> bool {
    forall|j: int| #![trigger present[j]] 0 <= j < m.files@.len() ==> j < present.len() && present[j]
}

/// Accepts a fetch whose status is in the success range.
pub fn check_status(status: u16) -> (r: Result<(), InstallError>)
    ensures
        r is Ok <==> 200 <= status < 300,
        r matches Err(e) ==> (e matches InstallError::Fetch { status: s } && s == status),
{
    if 200 <= status && status < 300 {
        Ok(())
    } else {
        Err(InstallError::Fetch { status })
    }
}

/// Drives one install: fetch, check, extract, verify and commit.
pub struct Installer {
    manifest_url: String,
    mode: InstallMode,
    build_dir: Option<String>,
    dry_run: bool,
    no_shortcut: bool,
}

impl Installer {
    pub closed spec fn url(&self) -> Seq<char> {
        self.manifest_url@
    }

    pub closed spec fn spec_mode(&self) -> InstallMode {
        self.mode
    }

    pub closed spec fn spec_build_dir(&self) -> Option<Seq<char>> {
        match self.build_dir {
            Some(d) => Some(d@),
            None => None,
        }
    }

    pub closed spec fn is_dry_run(&self) -> bool {
        self.dry_run
    }

    pub closed spec fn skips_shortcut(&self) -> bool {
        self.no_shortcut
    }

    /// A run's configuration. Specific mode needs a target directory.
    pub fn new(
        manifest_url: String,
        mode: InstallMode,
        build_dir: Option<String>,
        dry_run: bool,
        no_shortcut: bool,
    ) -> (r: Result<Installer, InstallError>)
        ensures
            r is Err <==> (mode == InstallMode::Specific && build_dir is None),
            r matches Err(e) ==> e is Config,
            r matches Ok(i) ==> {
                &&& i.url() == manifest_url@
                &&& i.spec_mode() == mode
                &&& i.spec_build_dir() == (match build_dir {
                    Some(d) => Some(d@),
                    None => None::<Seq<char>>,
                })
                &&& i.is_dry_run() == dry_run
                &&& i.skips_shortcut() == no_shortcut
            },
    {
        if mode == InstallMode::Specific && build_dir.is_none() {
            return Err(InstallError::Config);
        }
        Ok(Installer { manifest_url, mode, build_dir, dry_run, no_shortcut })
    }

    /// The install directory in standard mode, below the per-user data directory.
    pub open spec fn standard_dir(base: Seq<char>) -> Seq<char> {
        join_path(join_path(base, "paradise"@), "appfolder"@)
    }

    /// The directory to install into; `data_local_dir` is the per-user data
    /// directory, used in standard mode.
    pub fn get_install_directory(&self, data_local_dir: &str) -> (r: Result<String, InstallError>)
        ensures
            self.spec_mode() == InstallMode::Standard ==> (r matches Ok(d) && d@ == Self::standard_dir(
                data_local_dir@,
            )),
            self.spec_mode() == InstallMode::Specific ==> match self.spec_build_dir() {
                Some(b) => (r matches Ok(d) && d@ == b),
                None => (r matches Err(e) && e is Config),
            },
    {
        match self.mode {
            InstallMode::Standard => {
                let a = "paradise";
                let b = "appfolder";
                proof {
                    reveal_strlit("paradise");
                    reveal_strlit("appfolder");
                }
                let base = join(data_local_dir, a);
                Ok(join(base.as_str(), b))
            },
            InstallMode::Specific => match &self.build_dir {
                Some(d) => Ok(d.clone()),
                None => Err(InstallError::Config),
            },
        }
    }

    /// The program that shortcuts point at, inside the install directory.
    pub fn shortcut_target(&self, install_dir: &str) -> (r: String)
        ensures
            r@ == join_path(install_dir@, "paradise.exe"@),
    {
        let exe = "paradise.exe";
        join(install_dir, exe)
    }

    /// Where the shortcut goes: on the desktop in standard mode, beside the
    /// installation in specific mode.
    pub fn shortcut_path(&self, install_dir: &str, desktop_dir: &str) -> (r: String)
        ensures
            self.spec_mode() == InstallMode::Standard ==> r@ == join_path(desktop_dir@, "paradise.lnk"@),
            self.spec_mode() == InstallMode::Specific ==> r@ == join_path(install_dir@, "paradise.lnk"@),
    {
        let link = "paradise.lnk";
        match self.mode {
            InstallMode::Standard => join(desktop_dir, link),
            InstallMode::Specific => join(install_dir, link),
        }
    }

    /// Checks that every file the manifest requires was found; `present[i]`
    /// tells whether the `i`-th was. Reports the first one missing.
    pub fn verify_extracted_files(&self, manifest: &Manifest, present: &Vec<bool>) -> (r: Result<(), InstallError>)
        ensures
            r is Ok <==> all_present(*manifest, present@),
            r matches Err(e) ==> exists|i: int|
                first_missing(*manifest, present@, i) && (e matches InstallError::MissingFile { name }
                    && name == manifest.files@[i].name),
    {
        let mut i: usize = 0;
        while i < manifest.files.len()
            invariant
                i <= manifest.files@.len(),
                i <= present@.len(),
                forall|j: int| 0 <= j < i ==> #[trigger] present@[j],
            decreases manifest.files@.len() - i,
        {
            if i >= present.len() || !present[i] {
                let name = manifest.files[i].name.clone();
                assert(first_missing(*manifest, present@, i as int));
                proof {
                    lemma_first_missing_not_all(*manifest, present@, i as int);
                }
                return Err(InstallError::MissingFile { name });
            }
            i += 1;
        }
        assert forall|j: int| 0 <= j < manifest.files@.len() implies j < present@.len() && #[trigger] present@[j] by {
            assert(j < i);
        }
        Ok(())
    }

    /// The path of each required file below the extraction directory, in manifest order.
    pub fn required_file_paths(&self, extract_dir: &str, manifest: &Manifest) -> (r: Vec<String>)
        ensures
            r@.len() == manifest.files@.len(),
            forall|i: int| 0 <= i < r@.len() ==> #[trigger] r@[i]@ == join_path(
                extract_dir@,
                manifest.files@[i].name@,
            ),
    {
        let mut r: Vec<String> = Vec::new();
        let mut i: usize = 0;
        while i < manifest.files.len()
            invariant
                i <= manifest.files@.len(),
                r@.len() == i,
                forall|j: int| 0 <= j < i ==> #[trigger] r@[j]@ == join_path(
                    extract_dir@,
                    manifest.files@[j].name@,
                ),
            decreases manifest.files@.len() - i,
        {
            r.push(join(extract_dir, manifest.files[i].name.as_str()));
            i += 1;
        }
        r
    }

    /// The stage that follows `s` when `e` arrives, the run holding manifest `m`.
    pub open spec fn next_stage(&self, s: Stage, m: Option<Manifest>, e: RunEvent) -> Stage {
        match (s, e) {
            (Stage::Start, RunEvent::Begin) => Stage::Resolving,
            (Stage::Resolving, RunEvent::ManifestFetched { manifest }) => if !manifest.is_valid() {
                Stage::Aborted
            } else if self.is_dry_run() {
                Stage::Finished
            } else {
                Stage::Downloading
            },
            (Stage::Downloading, RunEvent::ArchiveFetched { bytes }) => match m {
                Some(m) => if eq_ignore_case(digest_hex(bytes@), m.sha256@) {
                    Stage::Extracting
                } else {
                    Stage::Aborted
                },
                None => Stage::Aborted,
            },
            (Stage::Extracting, RunEvent::Extracted) => Stage::Checking,
            (Stage::Checking, RunEvent::FilesProbed { present }) => match m {
                Some(m) => if all_present(m, present@) {
                    Stage::Committing
                } else {
                    Stage::Aborted
                },
                None => Stage::Aborted,
            },
            (Stage::Committing, RunEvent::Committed { result }) => if result is Err {
                Stage::Aborted
            } else if self.skips_shortcut() {
                Stage::Finished
            } else {
                Stage::Linking
            },
            (Stage::Linking, RunEvent::ShortcutDone) => Stage::Finished,
            (Stage::Finished, _) => Stage::Finished,
            _ => Stage::Aborted,
        }
    }

    /// The manifest a run holds after `e`: the fetched one, once it validates.
    pub open spec fn next_manifest(&self, s: Stage, m: Option<Manifest>, e: RunEvent) -> Option<Manifest> {
        match (s, e) {
            (Stage::Resolving, RunEvent::ManifestFetched { manifest }) => if manifest.is_valid() {
                Some(manifest)
            } else {
                m
            },
            _ => m,
        }
    }

    /// `a` is the action that the step from `s` with `e` asks for.
    pub open spec fn action_ok(&self, s: Stage, m: Option<Manifest>, e: RunEvent, a: RunAction) -> bool {
        let n = self.next_stage(s, m, e);
        let m2 = self.next_manifest(s, m, e);
        match n {
            Stage::Resolving => a matches RunAction::FetchManifest { url } && url@ == self.url(),
            Stage::Downloading => a matches RunAction::Download { url } && m2 matches Some(mm)
                && url@ == mm.release_zip_url@,
            Stage::Extracting => a is Extract,
            Stage::Checking => a is ProbeFiles,
            Stage::Committing => a is Commit,
            Stage::Linking => a is CreateShortcut,
            Stage::Finished => if s is Resolving {
                a matches RunAction::ReportDryRun { url } && m2 matches Some(mm) && url@
                    == mm.release_zip_url@
            } else if s is Finished {
                a matches RunAction::Finish { result } && result matches Err(err) && err is OutOfOrder
            } else {
                a matches RunAction::Finish { result } && result is Ok
            },
            Stage::Aborted => a matches RunAction::Finish { result } && result matches Err(err)
                && match (s, e) {
                (Stage::Resolving, RunEvent::ManifestFetched { manifest }) => err
                    matches InstallError::Validation(v) && Err::<(), _>(v) == manifest.validation(),
                (Stage::Downloading, RunEvent::ArchiveFetched { .. }) => if m is Some {
                    err is Integrity
                } else {
                    err is OutOfOrder
                },
                (Stage::Checking, RunEvent::FilesProbed { present }) => match m {
                    Some(mm) => exists|i: int|
                        first_missing(mm, present@, i) && (err matches InstallError::MissingFile {
                            name,
                        } && name == mm.files@[i].name),
                    None => err is OutOfOrder,
                },
                (Stage::Committing, RunEvent::Committed { result }) => result == Err::<(), InstallError>(err),
                _ => err is OutOfOrder,
            },
            Stage::Start => false,
        }
    }

    /// Advances a run by one event. The caller performs the returned action
    /// and reports its outcome as the next event.
    pub fn step(&self, run: &mut Run, e: RunEvent) -> (a: RunAction)
        ensures
            final(run).stage == self.next_stage(old(run).stage, old(run).manifest, e),
            final(run).manifest == self.next_manifest(old(run).stage, old(run).manifest, e),
            self.action_ok(old(run).stage, old(run).manifest, e, a),
    {
        match (run.stage, e) {
            (Stage::Start, RunEvent::Begin) => {
                run.stage = Stage::Resolving;
                RunAction::FetchManifest { url: self.manifest_url.clone() }
            },
            (Stage::Resolving, RunEvent::ManifestFetched { manifest }) => {
                match manifest.validate() {
                    Err(v) => {
                        run.stage = Stage::Aborted;
                        RunAction::Finish { result: Err(InstallError::Validation(v)) }
                    },
                    Ok(()) => {
                        let url = manifest.release_zip_url.clone();
                        run.manifest = Some(manifest);
                        if self.dry_run {
                            run.stage = Stage::Finished;
                            RunAction::ReportDryRun { url }
                        } else {
                            run.stage = Stage::Downloading;
                            RunAction::Download { url }
                        }
                    },
                }
            },
            (Stage::Downloading, RunEvent::ArchiveFetched { bytes }) => {
                match &run.manifest {
                    Some(m) => {
                        if verify_sha256(bytes.as_slice(), m.sha256.as_str()) {
                            run.stage = Stage::Extracting;
                            RunAction::Extract
                        } else {
                            run.stage = Stage::Aborted;
                            RunAction::Finish { result: Err(InstallError::Integrity) }
                        }
                    },
                    None => {
                        run.stage = Stage::Aborted;
                        RunAction::Finish { result: Err(InstallError::OutOfOrder) }
                    },
                }
            },
            (Stage::Extracting, RunEvent::Extracted) => {
                run.stage = Stage::Checking;
                RunAction::ProbeFiles
            },
            (Stage::Checking, RunEvent::FilesProbed { present }) => {
                match &run.manifest {
                    Some(m) => match self.verify_extracted_files(m, &present) {
                        Ok(()) => {
                            run.stage = Stage::Committing;
                            RunAction::Commit
                        },
                        Err(err) => {
                            run.stage = Stage::Aborted;
                            RunAction::Finish { result: Err(err) }
                        },
                    },
                    None => {
                        run.stage = Stage::Aborted;
                        RunAction::Finish { result: Err(InstallError::OutOfOrder) }
                    },
                }
            },
            (Stage::Committing, RunEvent::Committed { result }) => {
                match result {
                    Err(err) => {
                        run.stage = Stage::Aborted;
                        RunAction::Finish { result: Err(err) }
                    },
                    Ok(()) => {
                        if self.no_shortcut {
                            run.stage = Stage::Finished;
                            RunAction::Finish { result: Ok(()) }
                        } else {
                            run.stage = Stage::Linking;
                            RunAction::CreateShortcut
                        }
                    },
                }
            },
            (Stage::Linking, RunEvent::ShortcutDone) => {
                run.stage = Stage::Finished;
                RunAction::Finish { result: Ok(()) }
            },
            (Stage::Finished, _) => RunAction::Finish { result: Err(InstallError::OutOfOrder) },
            _ => {
                run.stage = Stage::Aborted;
                RunAction::Finish { result: Err(InstallError::OutOfOrder) }
            },
        }
    }
}

/// A run that has stopped stays stopped, and asks for nothing but to finish:
/// no download, extraction, commit or shortcut follows.
pub proof fn lemma_stopped_runs_stay_stopped(inst: Installer, s: Stage, m: Option<Manifest>, e: RunEvent, a: RunAction)
    requires
        s == Stage::Aborted || s == Stage::Finished,
        inst.action_ok(s, m, e, a),
    ensures
        inst.next_stage(s, m, e) == s,
        a is Finish,
{
}

/// When a required file is missing after extraction, the run fails naming
/// that file, and no commit is attempted.
pub proof fn lemma_missing_file_aborts(inst: Installer, m: Manifest, present: Vec<bool>, i: int, a: RunAction)
    requires
        first_missing(m, present@, i),
        inst.action_ok(Stage::Checking, Some(m), RunEvent::FilesProbed { present }, a),
    ensures
        inst.next_stage(Stage::Checking, Some(m), RunEvent::FilesProbed { present }) == Stage::Aborted,
        a matches RunAction::Finish { result } && result matches Err(err)
            && err matches InstallError::MissingFile { name } && name == m.files@[i].name,
{
    lemma_first_missing_not_all(m, present@, i);
    let k = choose|k: int|
        first_missing(m, present@, k) && (
            a matches RunAction::Finish { result } && result matches Err(err)
            && err matches InstallError::MissingFile { name } && name == m.files@[k].name);
    assert(k == i) by {
        if k < i {
            lemma_before_first_missing(m, present@, i, k);
        } else if i < k {
            lemma_before_first_missing(m, present@, k, i);
        }
    }
}

/// A dry run fetches and checks the manifest, then finishes after reporting
/// the archive it would download: it downloads nothing and changes no file.
pub proof fn lemma_dry_run_downloads_nothing(inst: Installer, m: Manifest, a: RunAction)
    requires
        inst.is_dry_run(),
        m.is_valid(),
        inst.action_ok(Stage::Resolving, None, RunEvent::ManifestFetched { manifest: m }, a),
    ensures
        inst.next_stage(Stage::Resolving, None, RunEvent::ManifestFetched { manifest: m }) == Stage::Finished,
        a matches RunAction::ReportDryRun { url } && url@ == m.release_zip_url@,
{
}

proof fn lemma_present_at(m: Manifest, present: Seq<bool>, i: int)
    requires
        all_present(m, present),
        0 <= i < m.files@.len(),
    ensures
        present[i],
{
}

proof fn lemma_first_missing_not_all(m: Manifest, present: Seq<bool>, i: int)
    requires
        first_missing(m, present, i),
    ensures
        !all_present(m, present),
{
    if all_present(m, present) {
        lemma_present_at(m, present, i);
    }
}

proof fn lemma_before_first_missing(m: Manifest, present: Seq<bool>, i: int, k: int)
    requires
        first_missing(m, present, i),
        0 <= k < i,
    ensures
        k < present.len() && present[k],
{
}

/// The working stages of a run hold a manifest that validated.
pub open spec fn run_wf(s: Stage, m: Option<Manifest>) -> bool {
    (s is Downloading || s is Extracting || s is Checking || s is Committing || s is Linking) ==> (
    m matches Some(mm) && mm.is_valid())
}

/// Every step keeps a run well formed: no stage past the manifest is
/// reached without a complete manifest.
pub proof fn lemma_run_wf_preserved(inst: Installer, s: Stage, m: Option<Manifest>, e: RunEvent)
    requires
        run_wf(s, m),
    ensures
        run_wf(inst.next_stage(s, m, e), inst.next_manifest(s, m, e)),
{
}

/// Extraction is asked for only right after the downloaded bytes matched the
/// manifest's digest, and a commit only right after every required file was
/// found: an unverified archive never reaches the install location.
pub proof fn lemma_checks_precede_commit(inst: Installer, s: Stage, m: Option<Manifest>, e: RunEvent, a: RunAction)
    requires
        run_wf(s, m),
        inst.action_ok(s, m, e, a),
    ensures
        a is Extract ==> s is Downloading && (m matches Some(mm) && e matches RunEvent::ArchiveFetched {
            bytes,
        } && eq_ignore_case(digest_hex(bytes@), mm.sha256@)),
        a is Commit ==> s is Checking && (m matches Some(mm) && e matches RunEvent::FilesProbed {
            present,
        } && all_present(mm, present@)),
{
}

} // verus!
