//! Saving a change, and the course of a commit and a push: which step comes next, given how
//! the last one went.
use vstd::prelude::*;

verus! {

/// One thing to be done with the repository or its remote.
#[derive(Clone, Copy, Debug, PartialEq, Eq, Structural)]
pub enum SyncStep {
    OpenRepository,
    InitRepository,
    OpenIndex,
    AddFile,
    WriteIndex,
    WriteTree,
    FindTree,
    ReadHead,
    ReadHeadTarget,
    FindHeadCommit,
    /// Makes the signature; `has_parent` says whether there is a commit to build on.
    Sign { has_parent: bool },
    Commit { has_parent: bool },
    FindRemote,
    MakeRemote,
    Connect,
    Push,
}

/// What comes after a step.
#[derive(Clone, Copy, Debug, PartialEq, Eq, Structural)]
pub enum SyncNext {
    Do(SyncStep),
    Finished,
    /// The step failed and nothing stands in for it.
    Failed(SyncStep),
}

/// A step that has something to stand in for it when it fails: a repository that cannot be
/// opened is made, a head that cannot be read means a first commit, and a remote that is
/// not configured is taken by its name.
pub open spec fn fallback(step: SyncStep) -> Option<SyncStep> {
    match step {
        SyncStep::OpenRepository => Some(SyncStep::InitRepository),
        SyncStep::ReadHead => Some(SyncStep::Sign { has_parent: false }),
        SyncStep::FindRemote => Some(SyncStep::MakeRemote),
        _ => None,
    }
}

/// The step after one that went well; none after the push.
pub open spec fn successor(step: SyncStep) -> Option<SyncStep> {
    match step {
        SyncStep::OpenRepository => Some(SyncStep::OpenIndex),
        SyncStep::InitRepository => Some(SyncStep::OpenIndex),
        SyncStep::OpenIndex => Some(SyncStep::AddFile),
        SyncStep::AddFile => Some(SyncStep::WriteIndex),
        SyncStep::WriteIndex => Some(SyncStep::WriteTree),
        SyncStep::WriteTree => Some(SyncStep::FindTree),
        SyncStep::FindTree => Some(SyncStep::ReadHead),
        SyncStep::ReadHead => Some(SyncStep::ReadHeadTarget),
        SyncStep::ReadHeadTarget => Some(SyncStep::FindHeadCommit),
        SyncStep::FindHeadCommit => Some(SyncStep::Sign { has_parent: true }),
        SyncStep::Sign { has_parent } => Some(SyncStep::Commit { has_parent }),
        SyncStep::Commit { has_parent } => Some(SyncStep::FindRemote),
        SyncStep::FindRemote => Some(SyncStep::Connect),
        SyncStep::MakeRemote => Some(SyncStep::Connect),
        SyncStep::Connect => Some(SyncStep::Push),
        SyncStep::Push => None,
    }
}

/// What comes after a step that went well or did not; where nothing is to be pushed the
/// commit is the last step.
pub open spec fn sync_next(step: SyncStep, ok: bool, push: bool) -> SyncNext {
    if ok && step is Commit && !push {
        SyncNext::Finished
    } else if ok {
        match successor(step) {
            Some(next) => SyncNext::Do(next),
            None => SyncNext::Finished,
        }
    } else {
        match fallback(step) {
            Some(next) => SyncNext::Do(next),
            None => SyncNext::Failed(step),
        }
    }
}

/// How far a step is along the course.
pub open spec fn stage(step: SyncStep) -> nat {
    match step {
        SyncStep::OpenRepository => 0,
        SyncStep::InitRepository => 1,
        SyncStep::OpenIndex => 2,
        SyncStep::AddFile => 3,
        SyncStep::WriteIndex => 4,
        SyncStep::WriteTree => 5,
        SyncStep::FindTree => 6,
        SyncStep::ReadHead => 7,
        SyncStep::ReadHeadTarget => 8,
        SyncStep::FindHeadCommit => 9,
        SyncStep::Sign { .. } => 10,
        SyncStep::Commit { .. } => 11,
        SyncStep::FindRemote => 12,
        SyncStep::MakeRemote => 13,
        SyncStep::Connect => 14,
        SyncStep::Push => 15,
    }
}

/// The first step, whether or not the commit is to be pushed.
pub fn start_sync() -> (res: SyncNext)
    ensures
        res == SyncNext::Do(SyncStep::OpenRepository),
{
    SyncNext::Do(SyncStep::OpenRepository)
}

/// Tells what comes after a step, where `push` says whether the commit is to be pushed.
pub fn next_step(step: SyncStep, ok: bool, push: bool) -> (res: SyncNext)
    ensures
        res == sync_next(step, ok, push),
        res matches SyncNext::Do(next) ==> stage(next) > stage(step),
{
    match (step, ok) {
        (SyncStep::OpenRepository, true) => SyncNext::Do(SyncStep::OpenIndex),
        (SyncStep::OpenRepository, false) => SyncNext::Do(SyncStep::InitRepository),
        (SyncStep::InitRepository, true) => SyncNext::Do(SyncStep::OpenIndex),
        (SyncStep::OpenIndex, true) => SyncNext::Do(SyncStep::AddFile),
        (SyncStep::AddFile, true) => SyncNext::Do(SyncStep::WriteIndex),
        (SyncStep::WriteIndex, true) => SyncNext::Do(SyncStep::WriteTree),
        (SyncStep::WriteTree, true) => SyncNext::Do(SyncStep::FindTree),
        (SyncStep::FindTree, true) => SyncNext::Do(SyncStep::ReadHead),
        (SyncStep::ReadHead, true) => SyncNext::Do(SyncStep::ReadHeadTarget),
        (SyncStep::ReadHead, false) => SyncNext::Do(SyncStep::Sign { has_parent: false }),
        (SyncStep::ReadHeadTarget, true) => SyncNext::Do(SyncStep::FindHeadCommit),
        (SyncStep::FindHeadCommit, true) => SyncNext::Do(SyncStep::Sign { has_parent: true }),
        (SyncStep::Sign { has_parent }, true) => SyncNext::Do(SyncStep::Commit { has_parent }),
        (SyncStep::Commit { has_parent: _ }, true) => if push {
            SyncNext::Do(SyncStep::FindRemote)
        } else {
            SyncNext::Finished
        },
        (SyncStep::FindRemote, true) => SyncNext::Do(SyncStep::Connect),
        (SyncStep::FindRemote, false) => SyncNext::Do(SyncStep::MakeRemote),
        (SyncStep::MakeRemote, true) => SyncNext::Do(SyncStep::Connect),
        (SyncStep::Connect, true) => SyncNext::Do(SyncStep::Push),
        (SyncStep::Push, true) => SyncNext::Finished,
        (_, _) => SyncNext::Failed(step),
    }
}

/// One part of saving a change.
#[derive(Clone, Copy, Debug, PartialEq, Eq, Structural)]
pub enum SaveStep {
    /// Writes the data file.
    Persist,
    /// Commits the data file, and pushes it where that is wanted.
    Commit,
}

/// What comes after a part of saving.
#[derive(Clone, Copy, Debug, PartialEq, Eq, Structural)]
pub enum SaveNext {
    Do(SaveStep),
    /// The change is not on disk: the failure is the caller's to deal with.
    Stop,
    /// The change is on disk.
    Settled,
}

/// A change is written first and committed then. What cannot be written stops the saving;
/// whether the commit went well makes no difference to the notebook.
pub open spec fn saving_next(step: SaveStep, ok: bool) -> SaveNext {
    match step {
        SaveStep::Persist => if ok {
            SaveNext::Do(SaveStep::Commit)
        } else {
            SaveNext::Stop
        },
        SaveStep::Commit => SaveNext::Settled,
    }
}

/// The first part of saving.
pub fn start_save() -> (res: SaveNext)
    ensures
        res == SaveNext::Do(SaveStep::Persist),
{
    SaveNext::Do(SaveStep::Persist)
}

/// Tells what comes after a part of saving.
pub fn save_next(step: SaveStep, ok: bool) -> (res: SaveNext)
    ensures
        res == saving_next(step, ok),
{
    match (step, ok) {
        (SaveStep::Persist, true) => SaveNext::Do(SaveStep::Commit),
        (SaveStep::Persist, false) => SaveNext::Stop,
        (SaveStep::Commit, _) => SaveNext::Settled,
    }
}

} // verus!
