use vstd::prelude::*;

use crate::archive::is_sep;
use crate::error::{CommitPhase, InstallError};

verus! {

/// Where a commit stands. Each non-terminal state names the filesystem step
/// whose outcome is awaited.
#[derive(Debug, Clone, Copy, PartialEq, Eq, Structural)]
pub enum CommitState {
    Begin,
    RemovingStaleBackup,
    BackingUp,
    CreatingParent,
    Moving,
    Staging,
    Swapping,
    Restoring { phase: CommitPhase },
    Committed,
    Failed { phase: CommitPhase, intact: bool },
}

/// What the caller reports after performing the last requested step.
#[derive(Debug, Clone, Copy, PartialEq, Eq, Structural)]
pub enum CommitEvent {
    /// The commit starts; tells whether a backup from an earlier run is on disk.
    Start { backup_exists: bool },
    Succeeded,
    Failed,
}

/// The filesystem step the caller performs next.
#[derive(Debug)]
pub enum CommitAction {
    /// Remove a directory tree.
    RemoveDirAll { path: String },
    /// Rename a directory; atomic within one volume.
    Rename { from: String, to: String },
    /// Create the parent directory of `of`, with its ancestors.
    CreateParentDir { of: String },
    /// Replace any leftover at `to`, then copy the tree at `from` into it.
    CopyTree { from: String, to: String },
    /// The commit is over.
    Finish { result: Result<(), InstallError> },
}

/// A path without trailing separators, keeping a lone root separator.
pub open spec fn trim_end_seps(s: Seq<char>) -> Seq<char>
    decreases s.len(),
{
    if s.len() > 1 && is_sep(s.last()) {
        trim_end_seps(s.drop_last())
    } else {
        s
    }
}

fn trim_end(s: &str) -> (r: String)
    ensures
        r@ == trim_end_seps(s@),
{
    let n = s.unicode_len();
    let mut k: usize = n;
    assert(s@.subrange(0, n as int) =~= s@);
    while k > 1 && (s.get_char(k - 1) == '/' || s.get_char(k - 1) == '\\')
        invariant
            n == s@.len(),
            k <= n,
            trim_end_seps(s@.subrange(0, k as int)) == trim_end_seps(s@),
        decreases k,
    {
        assert(s@.subrange(0, k as int).drop_last() =~= s@.subrange(0, k - 1));
        k -= 1;
    }
    String::from_str(s.substring_char(0, k))
}

/// The sibling path that holds the previous installation.
pub open spec fn backup_path(target: Seq<char>) -> Seq<char> {
    target + ".backup"@
}

/// The sibling path that a copied tree is staged at before it is renamed into place.
pub open spec fn staging_path(target: Seq<char>) -> Seq<char> {
    target + ".staging"@
}

/// A filesystem seen as top-level directory trees, each with the identity of its content.
pub type Fs = Map<Seq<char>, nat>;

pub open spec fn rename_in(fs: Fs, from: Seq<char>, to: Seq<char>) -> Option<Fs> {
    if fs.contains_key(from) && !fs.contains_key(to) && from != to {
        Some(fs.remove(from).insert(to, fs[from]))
    } else {
        None
    }
}

pub open spec fn copy_in(fs: Fs, from: Seq<char>, to: Seq<char>) -> Option<Fs> {
    if fs.contains_key(from) && from != to {
        Some(fs.insert(to, fs[from]))
    } else {
        None
    }
}

/// Moves an extracted tree into the install location, keeping one backup of
/// what was there before.
pub struct AtomicInstaller {
    target_dir: String,
    backup_dir: Option<String>,
}

impl AtomicInstaller {
    pub closed spec fn target(&self) -> Seq<char> {
        self.target_dir@
    }

    /// The backup path, when the target existed at construction.
    pub closed spec fn backup(&self) -> Option<Seq<char>> {
        match self.backup_dir {
            Some(b) => Some(b@),
            None => None,
        }
    }

    pub open spec fn has_backup(&self) -> bool {
        self.backup() is Some
    }

    pub open spec fn wf(&self) -> bool {
        self.backup() is Some ==> self.backup() == Some(backup_path(self.target()))
    }

    /// A commit into `target_dir`, trailing separators dropped; `target_exists`
    /// tells whether an installation is already there and must be backed up.
    pub fn new(target_dir: &str, target_exists: bool) -> (r: AtomicInstaller)
        ensures
            r.wf(),
            r.target() == trim_end_seps(target_dir@),
            r.has_backup() == target_exists,
    {
        let target = trim_end(target_dir);
        let backup_dir = if target_exists {
            Some(backup_of(&target))
        } else {
            None
        };
        AtomicInstaller { target_dir: target, backup_dir }
    }

    /// The install location.
    pub fn target_dir(&self) -> (r: String)
        ensures
            r@ == self.target(),
    {
        self.target_dir.clone()
    }

    /// Where the previous installation is moved, if there is one.
    pub fn backup_dir(&self) -> (r: Option<String>)
        requires
            self.wf(),
        ensures
            r is Some == self.has_backup(),
            r matches Some(b) ==> b@ == backup_path(self.target()),
    {
        match &self.backup_dir {
            Some(b) => Some(b.clone()),
            None => None,
        }
    }

    /// The state after a failure in `phase`: restore the backup if one was made.
    pub open spec fn fail_from(&self, phase: CommitPhase, backed_up: bool) -> CommitState {
        if backed_up {
            CommitState::Restoring { phase }
        } else {
            CommitState::Failed { phase, intact: true }
        }
    }

    /// The transition table of a commit.
    pub open spec fn next_state(&self, s: CommitState, e: CommitEvent) -> CommitState {
        let ok = e is Succeeded;
        match s {
            CommitState::Begin => match e {
                CommitEvent::Start { backup_exists } => if self.has_backup() {
                    if backup_exists {
                        CommitState::RemovingStaleBackup
                    } else {
                        CommitState::BackingUp
                    }
                } else {
                    CommitState::CreatingParent
                },
                _ => s,
            },
            CommitState::RemovingStaleBackup => if ok {
                CommitState::BackingUp
            } else {
                CommitState::Failed { phase: CommitPhase::RemoveStaleBackup, intact: true }
            },
            CommitState::BackingUp => if ok {
                CommitState::CreatingParent
            } else {
                CommitState::Failed { phase: CommitPhase::Backup, intact: true }
            },
            CommitState::CreatingParent => if ok {
                CommitState::Moving
            } else {
                self.fail_from(CommitPhase::CreateParent, self.has_backup())
            },
            CommitState::Moving => if ok {
                CommitState::Committed
            } else {
                CommitState::Staging
            },
            CommitState::Staging => if ok {
                CommitState::Swapping
            } else {
                self.fail_from(CommitPhase::Stage, self.has_backup())
            },
            CommitState::Swapping => if ok {
                CommitState::Committed
            } else {
                self.fail_from(CommitPhase::Swap, self.has_backup())
            },
            CommitState::Restoring { phase } => CommitState::Failed { phase, intact: ok },
            _ => s,
        }
    }

    /// `a` is the step that state `s` asks for, when committing from `source`.
    pub open spec fn action_matches(&self, source: Seq<char>, s: CommitState, a: CommitAction) -> bool {
        let t = self.target();
        match s {
            CommitState::RemovingStaleBackup => a matches CommitAction::RemoveDirAll { path }
                && path@ == backup_path(t),
            CommitState::BackingUp => a matches CommitAction::Rename { from, to } && from@ == t
                && to@ == backup_path(t),
            CommitState::CreatingParent => a matches CommitAction::CreateParentDir { of } && of@ == t,
            CommitState::Moving => a matches CommitAction::Rename { from, to } && from@ == source
                && to@ == t,
            CommitState::Staging => a matches CommitAction::CopyTree { from, to } && from@ == source
                && to@ == staging_path(t),
            CommitState::Swapping => a matches CommitAction::Rename { from, to } && from@
                == staging_path(t) && to@ == t,
            CommitState::Restoring { .. } => a matches CommitAction::Rename { from, to } && from@
                == backup_path(t) && to@ == t,
            CommitState::Committed => a matches CommitAction::Finish { result } && result is Ok,
            CommitState::Failed { phase, intact } => a matches CommitAction::Finish { result }
                && result matches Err(InstallError::Commit { phase: p, restored: r }) && p == phase
                && r == intact,
            CommitState::Begin => a matches CommitAction::Finish { result } && result matches Err(
                err,
            ) && err is OutOfOrder,
        }
    }

    /// Advances a commit: from the current state and the outcome of the last
    /// step, the next state and the step to perform.
    pub fn step(&self, source_dir: &str, s: CommitState, e: CommitEvent) -> (r: (CommitState, CommitAction))
        requires
            self.wf(),
        ensures
            r.0 == self.next_state(s, e),
            self.action_matches(source_dir@, r.0, r.1),
    {
        let ok = e == CommitEvent::Succeeded;
        let backed = self.backup_dir.is_some();
        let n = match s {
            CommitState::Begin => match e {
                CommitEvent::Start { backup_exists } => if backed {
                    if backup_exists {
                        CommitState::RemovingStaleBackup
                    } else {
                        CommitState::BackingUp
                    }
                } else {
                    CommitState::CreatingParent
                },
                _ => s,
            },
            CommitState::RemovingStaleBackup => if ok {
                CommitState::BackingUp
            } else {
                CommitState::Failed { phase: CommitPhase::RemoveStaleBackup, intact: true }
            },
            CommitState::BackingUp => if ok {
                CommitState::CreatingParent
            } else {
                CommitState::Failed { phase: CommitPhase::Backup, intact: true }
            },
            CommitState::CreatingParent => if ok {
                CommitState::Moving
            } else {
                fail_exec(CommitPhase::CreateParent, backed)
            },
            CommitState::Moving => if ok {
                CommitState::Committed
            } else {
                CommitState::Staging
            },
            CommitState::Staging => if ok {
                CommitState::Swapping
            } else {
                fail_exec(CommitPhase::Stage, backed)
            },
            CommitState::Swapping => if ok {
                CommitState::Committed
            } else {
                fail_exec(CommitPhase::Swap, backed)
            },
            CommitState::Restoring { phase } => CommitState::Failed { phase, intact: ok },
            _ => s,
        };
        let a = self.action_for(source_dir, n);
        (n, a)
    }

    fn action_for(&self, source_dir: &str, s: CommitState) -> (a: CommitAction)
        requires
            self.wf(),
        ensures
            self.action_matches(source_dir@, s, a),
    {
        let t = &self.target_dir;
        match s {
            CommitState::RemovingStaleBackup => CommitAction::RemoveDirAll { path: backup_of(t) },
            CommitState::BackingUp => CommitAction::Rename { from: t.clone(), to: backup_of(t) },
            CommitState::CreatingParent => CommitAction::CreateParentDir { of: t.clone() },
            CommitState::Moving => CommitAction::Rename {
                from: String::from_str(source_dir),
                to: t.clone(),
            },
            CommitState::Staging => CommitAction::CopyTree {
                from: String::from_str(source_dir),
                to: staging_of(t),
            },
            CommitState::Swapping => CommitAction::Rename { from: staging_of(t), to: t.clone() },
            CommitState::Restoring { .. } => CommitAction::Rename {
                from: backup_of(t),
                to: t.clone(),
            },
            CommitState::Failed { phase, intact } => CommitAction::Finish {
                result: Err(InstallError::Commit { phase, restored: intact }),
            },
            CommitState::Committed => CommitAction::Finish { result: Ok(()) },
            CommitState::Begin => CommitAction::Finish { result: Err(InstallError::OutOfOrder) },
        }
    }

    /// What the step asked for in state `s` does to the filesystem model, or
    /// `None` where it fails.
    pub open spec fn effect(&self, source: Seq<char>, s: CommitState, fs: Fs) -> Option<Fs> {
        let t = self.target();
        match s {
            CommitState::RemovingStaleBackup => Some(fs.remove(backup_path(t))),
            CommitState::BackingUp => rename_in(fs, t, backup_path(t)),
            CommitState::Moving => rename_in(fs, source, t),
            CommitState::Staging => copy_in(fs, source, staging_path(t)),
            CommitState::Swapping => rename_in(fs, staging_path(t), t),
            CommitState::Restoring { .. } => rename_in(fs, backup_path(t), t),
            _ => Some(fs),
        }
    }

    pub open spec fn is_final(s: CommitState) -> bool {
        s is Committed || s is Failed
    }

    /// Runs a commit for at most `n` steps against the filesystem model,
    /// reporting each step's outcome as the model decides it.
    pub open spec fn drive(&self, source: Seq<char>, fs: Fs, s: CommitState, n: nat) -> (Fs, CommitState)
        decreases n,
    {
        if n == 0 || Self::is_final(s) {
            (fs, s)
        } else if s is Begin {
            let e = CommitEvent::Start { backup_exists: fs.contains_key(backup_path(self.target())) };
            self.drive(source, fs, self.next_state(s, e), (n - 1) as nat)
        } else {
            match self.effect(source, s, fs) {
                Some(f) => self.drive(source, f, self.next_state(s, CommitEvent::Succeeded), (n - 1) as nat),
                None => self.drive(source, fs, self.next_state(s, CommitEvent::Failed), (n - 1) as nat),
            }
        }
    }

    /// Runs a commit against the filesystem model while the environment may
    /// make any step fail: `faults[k]` fails the `k`-th step, whatever it is.
    pub open spec fn drive_faults(&self, source: Seq<char>, fs: Fs, s: CommitState, faults: Seq<bool>) -> (Fs, CommitState)
        decreases faults.len(),
    {
        if faults.len() == 0 || Self::is_final(s) {
            (fs, s)
        } else if s is Begin {
            let e = CommitEvent::Start { backup_exists: fs.contains_key(backup_path(self.target())) };
            self.drive_faults(source, fs, self.next_state(s, e), faults.drop_first())
        } else {
            let eff = if faults[0] {
                None
            } else {
                self.effect(source, s, fs)
            };
            match eff {
                Some(f) => self.drive_faults(source, f, self.next_state(s, CommitEvent::Succeeded), faults.drop_first()),
                None => self.drive_faults(source, fs, self.next_state(s, CommitEvent::Failed), faults.drop_first()),
            }
        }
    }

    /// What holds of the model in each state of a commit that started on `fs0`.
    pub open spec fn tracks(&self, source: Seq<char>, fs0: Fs, fs: Fs, s: CommitState) -> bool {
        let t = self.target();
        let b = backup_path(t);
        let g = staging_path(t);
        let had = fs0.contains_key(t);
        let untouched = fs.contains_key(t) == had && (had ==> fs[t] == fs0[t]);
        let parked = had && fs.contains_key(b) && fs[b] == fs0[t] && !fs.contains_key(t);
        let kept = if had { parked } else { untouched };
        let src = fs.contains_key(source) && fs[source] == fs0[source];
        match s {
            CommitState::Begin => untouched && src,
            CommitState::RemovingStaleBackup => untouched && src,
            CommitState::BackingUp => untouched && src && !fs.contains_key(b),
            CommitState::CreatingParent => kept && src,
            CommitState::Moving => kept && src,
            CommitState::Staging => kept && src,
            CommitState::Swapping => kept && fs.contains_key(g) && fs[g] == fs0[source],
            CommitState::Restoring { .. } => parked,
            CommitState::Committed => fs.contains_key(t) && fs[t] == fs0[source],
            CommitState::Failed { intact, .. } => if intact {
                untouched
            } else {
                parked
            },
        }
    }
}

fn fail_exec(phase: CommitPhase, backed_up: bool) -> (r: CommitState)
    ensures
        backed_up ==> r == (CommitState::Restoring { phase }),
        !backed_up ==> r == (CommitState::Failed { phase, intact: true }),
{
    if backed_up {
        CommitState::Restoring { phase }
    } else {
        CommitState::Failed { phase, intact: true }
    }
}

fn backup_of(t: &String) -> (r: String)
    ensures
        r@ == backup_path(t@),
{
    let suffix = ".backup";
    proof {
        reveal_strlit(".backup");
    }
    let mut b = t.clone();
    b.append(suffix);
    b
}

fn staging_of(t: &String) -> (r: String)
    ensures
        r@ == staging_path(t@),
{
    let suffix = ".staging";
    proof {
        reveal_strlit(".staging");
    }
    let mut b = t.clone();
    b.append(suffix);
    b
}

/// Committing into a target that does not exist leaves the target holding
/// exactly what the source held, and makes no backup.
pub proof fn lemma_commit_fresh(inst: AtomicInstaller, source: Seq<char>, fs: Fs)
    requires
        inst.wf(),
        !inst.has_backup(),
        fs.contains_key(source),
        !fs.contains_key(inst.target()),
        !fs.contains_key(backup_path(inst.target())),
        source != inst.target(),
    ensures
        ({
            let (fs2, s2) = inst.drive(source, fs, CommitState::Begin, 3);
            &&& s2 == CommitState::Committed
            &&& fs2.contains_key(inst.target())
            &&& fs2[inst.target()] == fs[source]
            &&& !fs2.contains_key(backup_path(inst.target()))
        }),
{
    let t = inst.target();
    let fs1 = fs.remove(source).insert(t, fs[source]);
    assert(inst.drive(source, fs1, CommitState::Committed, 0) == (fs1, CommitState::Committed));
    assert(inst.drive(source, fs, CommitState::Moving, 1) == (fs1, CommitState::Committed));
    assert(inst.drive(source, fs, CommitState::CreatingParent, 2) == (fs1, CommitState::Committed));
    assert(t != backup_path(t)) by {
        reveal_strlit(".backup");
        assert(backup_path(t).len() != t.len());
    }
}

/// The model of a commit over an existing installation, step by step: a
/// stale backup is removed, the target is parked at the backup path, and
/// the source is renamed into place.
pub open spec fn replaced(inst: AtomicInstaller, source: Seq<char>, fs: Fs) -> Fs {
    let t = inst.target();
    let b = backup_path(t);
    let fs0 = fs.remove(b);
    let fs1 = fs0.remove(t).insert(b, fs0[t]);
    fs1.remove(source).insert(t, fs1[source])
}

proof fn lemma_replacing_run(inst: AtomicInstaller, source: Seq<char>, fs: Fs)
    requires
        inst.wf(),
        inst.has_backup(),
        fs.contains_key(source),
        fs.contains_key(inst.target()),
        source != inst.target(),
        source != backup_path(inst.target()),
    ensures
        inst.drive(source, fs, CommitState::Begin, 5) == (replaced(inst, source, fs), CommitState::Committed),
{
    let t = inst.target();
    let b = backup_path(t);
    assert(t != b) by {
        reveal_strlit(".backup");
        assert(b.len() != t.len());
    }
    let fs0 = fs.remove(b);
    let fs1 = fs0.remove(t).insert(b, fs0[t]);
    let fs2 = fs1.remove(source).insert(t, fs1[source]);
    assert(inst.drive(source, fs2, CommitState::Committed, 0) == (fs2, CommitState::Committed));
    assert(inst.drive(source, fs1, CommitState::Moving, 1) == (fs2, CommitState::Committed));
    assert(inst.drive(source, fs1, CommitState::CreatingParent, 2) == (fs2, CommitState::Committed));
    assert(inst.drive(source, fs0, CommitState::BackingUp, 3) == (fs2, CommitState::Committed));
    if fs.contains_key(b) {
        assert(inst.drive(source, fs, CommitState::RemovingStaleBackup, 4) == (fs2, CommitState::Committed));
    } else {
        assert(fs0 == fs);
        assert(inst.drive(source, fs2, CommitState::Committed, 1) == (fs2, CommitState::Committed));
        assert(inst.drive(source, fs1, CommitState::Moving, 2) == (fs2, CommitState::Committed));
        assert(inst.drive(source, fs1, CommitState::CreatingParent, 3) == (fs2, CommitState::Committed));
        assert(inst.drive(source, fs, CommitState::BackingUp, 4) == (fs2, CommitState::Committed));
    }
}

/// Committing over an existing installation leaves the target holding what
/// the source held, and the backup path holding the previous installation;
/// a backup left by an earlier run is replaced. Every other path is left alone.
pub proof fn lemma_commit_replacing(inst: AtomicInstaller, source: Seq<char>, fs: Fs)
    requires
        inst.wf(),
        inst.has_backup(),
        fs.contains_key(source),
        fs.contains_key(inst.target()),
        source != inst.target(),
        source != backup_path(inst.target()),
    ensures
        ({
            let (fs2, s2) = inst.drive(source, fs, CommitState::Begin, 5);
            &&& s2 == CommitState::Committed
            &&& fs2.contains_key(inst.target())
            &&& fs2[inst.target()] == fs[source]
            &&& fs2.contains_key(backup_path(inst.target()))
            &&& fs2[backup_path(inst.target())] == fs[inst.target()]
            &&& forall|p: Seq<char>|
                p != source && p != inst.target() && p != backup_path(inst.target()) && fs.contains_key(p)
                    ==> #[trigger] fs2.contains_key(p) && fs2[p] == fs[p]
        }),
{
    lemma_replacing_run(inst, source, fs);
    let t = inst.target();
    assert(t != backup_path(t)) by {
        reveal_strlit(".backup");
        assert(backup_path(t).len() != t.len());
    }
}

/// Only one backup generation is kept: after two commits into the same
/// target, the backup holds what the first commit installed, not the
/// installation before it.
pub proof fn lemma_commit_twice(
    first: AtomicInstaller,
    second: AtomicInstaller,
    s1: Seq<char>,
    s2: Seq<char>,
    fs: Fs,
)
    requires
        first.wf(),
        second.wf(),
        first.has_backup(),
        second.has_backup(),
        second.target() == first.target(),
        fs.contains_key(s1),
        fs.contains_key(s2),
        fs.contains_key(first.target()),
        s1 != s2,
        s1 != first.target(),
        s2 != first.target(),
        s1 != backup_path(first.target()),
        s2 != backup_path(first.target()),
    ensures
        ({
            let (fs1, _) = first.drive(s1, fs, CommitState::Begin, 5);
            let (fs2, st) = second.drive(s2, fs1, CommitState::Begin, 5);
            &&& st == CommitState::Committed
            &&& fs2[first.target()] == fs[s2]
            &&& fs2[backup_path(first.target())] == fs[s1]
        }),
{
    lemma_commit_replacing(first, s1, fs);
    let (fs1, _) = first.drive(s1, fs, CommitState::Begin, 5);
    assert(fs1.contains_key(s2));
    lemma_commit_replacing(second, s2, fs1);
}

proof fn lemma_step_tracks(
    inst: AtomicInstaller,
    source: Seq<char>,
    fs0: Fs,
    fs: Fs,
    s: CommitState,
    faults: Seq<bool>,
)
    requires
        inst.wf(),
        inst.has_backup() == fs0.contains_key(inst.target()),
        source != inst.target(),
        source != backup_path(inst.target()),
        source != staging_path(inst.target()),
        inst.tracks(source, fs0, fs, s),
    ensures
        ({
            let (fs2, s2) = inst.drive_faults(source, fs, s, faults);
            inst.tracks(source, fs0, fs2, s2)
        }),
    decreases faults.len(),
{
    let t = inst.target();
    let b = backup_path(t);
    let g = staging_path(t);
    assert(t != b && t != g && b != g) by {
        reveal_strlit(".backup");
        reveal_strlit(".staging");
        assert(b.len() == t.len() + 7);
        assert(g.len() == t.len() + 8);
    }
    if faults.len() == 0 || AtomicInstaller::is_final(s) {
    } else if s is Begin {
        let e = CommitEvent::Start { backup_exists: fs.contains_key(b) };
        lemma_step_tracks(inst, source, fs0, fs, inst.next_state(s, e), faults.drop_first());
    } else {
        let eff = if faults[0] {
            None
        } else {
            inst.effect(source, s, fs)
        };
        match eff {
            Some(f) => {
                lemma_step_tracks(inst, source, fs0, f, inst.next_state(s, CommitEvent::Succeeded), faults.drop_first());
            },
            None => {
                lemma_step_tracks(inst, source, fs0, fs, inst.next_state(s, CommitEvent::Failed), faults.drop_first());
            },
        }
    }
}

/// All or nothing, whatever steps fail: a commit that ends committed leaves
/// the target holding the new content; one that ends failed and intact
/// leaves the target exactly as it was (present with its old content, or
/// absent); one whose restore also failed keeps the previous installation
/// whole at the backup path.
pub proof fn lemma_commit_all_or_nothing(inst: AtomicInstaller, source: Seq<char>, fs0: Fs, faults: Seq<bool>)
    requires
        inst.wf(),
        inst.has_backup() == fs0.contains_key(inst.target()),
        fs0.contains_key(source),
        source != inst.target(),
        source != backup_path(inst.target()),
        source != staging_path(inst.target()),
    ensures
        ({
            let t = inst.target();
            let (fs, s) = inst.drive_faults(source, fs0, CommitState::Begin, faults);
            &&& s is Committed ==> fs.contains_key(t) && fs[t] == fs0[source]
            &&& (s matches CommitState::Failed { intact, .. } && intact) ==> fs.contains_key(t)
                == fs0.contains_key(t) && (fs0.contains_key(t) ==> fs[t] == fs0[t])
            &&& (s matches CommitState::Failed { intact, .. } && !intact) ==> fs.contains_key(
                backup_path(t),
            ) && fs[backup_path(t)] == fs0[t]
        }),
{
    lemma_step_tracks(inst, source, fs0, fs0, CommitState::Begin, faults);
}

/// How many more steps a commit in state `s` can take at most.
pub open spec fn steps_left(s: CommitState) -> nat {
    match s {
        CommitState::Begin => 8,
        CommitState::RemovingStaleBackup => 7,
        CommitState::BackingUp => 6,
        CommitState::CreatingParent => 5,
        CommitState::Moving => 4,
        CommitState::Staging => 3,
        CommitState::Swapping => 2,
        CommitState::Restoring { .. } => 1,
        _ => 0,
    }
}

proof fn lemma_finishes_within(inst: AtomicInstaller, source: Seq<char>, fs: Fs, s: CommitState, faults: Seq<bool>)
    requires
        faults.len() >= steps_left(s),
    ensures
        AtomicInstaller::is_final(inst.drive_faults(source, fs, s, faults).1),
    decreases faults.len(),
{
    if faults.len() == 0 || AtomicInstaller::is_final(s) {
    } else if s is Begin {
        let e = CommitEvent::Start { backup_exists: fs.contains_key(backup_path(inst.target())) };
        lemma_finishes_within(inst, source, fs, inst.next_state(s, e), faults.drop_first());
    } else {
        let eff = if faults[0] {
            None
        } else {
            inst.effect(source, s, fs)
        };
        match eff {
            Some(f) => {
                lemma_finishes_within(inst, source, f, inst.next_state(s, CommitEvent::Succeeded), faults.drop_first());
            },
            None => {
                lemma_finishes_within(inst, source, fs, inst.next_state(s, CommitEvent::Failed), faults.drop_first());
            },
        }
    }
}

/// A commit never loops: whichever steps fail, it is committed or failed
/// after at most eight steps.
pub proof fn lemma_commit_finishes(inst: AtomicInstaller, source: Seq<char>, fs: Fs, faults: Seq<bool>)
    requires
        faults.len() >= 8,
    ensures
        ({
            let s = inst.drive_faults(source, fs, CommitState::Begin, faults).1;
            s is Committed || s is Failed
        }),
{
    lemma_finishes_within(inst, source, fs, CommitState::Begin, faults);
}

} // verus!
