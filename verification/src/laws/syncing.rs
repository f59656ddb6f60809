//! The course of a commit and a push from end to end.
use crate::sync::{saving_next, stage, sync_next, SaveNext, SaveStep, SyncNext, SyncStep};
use vstd::prelude::*;

verus! {

/// Where the course stands after steps that went as `outcomes` says.
pub open spec fn standing(step: SyncStep, outcomes: Seq<bool>, push: bool) -> SyncNext
    decreases outcomes.len(),
{
    if outcomes.len() == 0 {
        SyncNext::Do(step)
    } else {
        match sync_next(step, outcomes[0], push) {
            SyncNext::Do(next) => standing(next, outcomes.drop_first(), push),
            end => end,
        }
    }
}

/// Among the steps taken is a commit that went well.
pub open spec fn has_committed(step: SyncStep, outcomes: Seq<bool>, push: bool) -> bool
    decreases outcomes.len(),
{
    if outcomes.len() == 0 {
        false
    } else if step is Commit && outcomes[0] {
        true
    } else {
        match sync_next(step, outcomes[0], push) {
            SyncNext::Do(next) => has_committed(next, outcomes.drop_first(), push),
            _ => false,
        }
    }
}

/// However the steps go, the course is over after as many as there are stages.
pub proof fn law_sync_ends(step: SyncStep, outcomes: Seq<bool>, push: bool)
    requires
        outcomes.len() + stage(step) >= 16,
    ensures
        !(standing(step, outcomes, push) is Do),
    decreases outcomes.len(),
{
    if outcomes.len() > 0 {
        match sync_next(step, outcomes[0], push) {
            SyncNext::Do(next) => {
                law_sync_ends(next, outcomes.drop_first(), push);
            },
            _ => {},
        }
    }
}

proof fn finish_needs_commit(step: SyncStep, outcomes: Seq<bool>, push: bool)
    requires
        stage(step) <= 11,
        standing(step, outcomes, push) == SyncNext::Finished,
    ensures
        has_committed(step, outcomes, push),
    decreases outcomes.len(),
{
    if outcomes.len() > 0 && !(step is Commit && outcomes[0]) {
        match sync_next(step, outcomes[0], push) {
            SyncNext::Do(next) => {
                finish_needs_commit(next, outcomes.drop_first(), push);
            },
            _ => {},
        }
    }
}

/// What is finished has been committed, whether or not it was to be pushed.
pub proof fn law_finished_is_committed(outcomes: Seq<bool>, push: bool)
    requires
        standing(SyncStep::OpenRepository, outcomes, push) == SyncNext::Finished,
    ensures
        has_committed(SyncStep::OpenRepository, outcomes, push),
{
    finish_needs_commit(SyncStep::OpenRepository, outcomes, push);
}

/// Where every step goes well the course is finished.
pub proof fn law_success_finishes(step: SyncStep, outcomes: Seq<bool>, push: bool)
    requires
        outcomes.len() + stage(step) >= 16,
        forall|i: int| 0 <= i < outcomes.len() ==> outcomes[i],
    ensures
        standing(step, outcomes, push) == SyncNext::Finished,
    decreases outcomes.len(),
{
    if outcomes.len() > 0 {
        match sync_next(step, outcomes[0], push) {
            SyncNext::Do(next) => {
                law_success_finishes(next, outcomes.drop_first(), push);
            },
            _ => {},
        }
    }
}

/// Where nothing is to be pushed, no step goes beyond the commit: the remote is not touched.
pub proof fn law_nothing_is_pushed_unasked(step: SyncStep, outcomes: Seq<bool>)
    requires
        stage(step) <= stage(SyncStep::Commit { has_parent: true }),
    ensures
        standing(step, outcomes, false) matches SyncNext::Do(next) ==> stage(next) <= stage(
            SyncStep::Commit { has_parent: true },
        ),
        standing(step, outcomes, false) matches SyncNext::Failed(last) ==> stage(last) <= stage(
            SyncStep::Commit { has_parent: true },
        ),
    decreases outcomes.len(),
{
    if outcomes.len() > 0 {
        match sync_next(step, outcomes[0], false) {
            SyncNext::Do(next) => {
                law_nothing_is_pushed_unasked(next, outcomes.drop_first());
            },
            _ => {},
        }
    }
}

/// A failed commit or push is no failure of saving: once the data is written the saving
/// settles, and only where it is not written does the saving stop.
pub proof fn law_only_writing_can_stop(written: bool, committed: bool)
    ensures
        written ==> saving_next(SaveStep::Persist, written) == SaveNext::Do(SaveStep::Commit)
            && saving_next(SaveStep::Commit, committed) == SaveNext::Settled,
        !written ==> saving_next(SaveStep::Persist, written) == SaveNext::Stop,
{
}

/// The steps that were taken and went well, in their order.
pub open spec fn done_steps(step: SyncStep, outcomes: Seq<bool>, push: bool) -> Seq<SyncStep>
    decreases outcomes.len(),
{
    if outcomes.len() == 0 {
        Seq::empty()
    } else {
        let rest = match sync_next(step, outcomes[0], push) {
            SyncNext::Do(next) => done_steps(next, outcomes.drop_first(), push),
            _ => Seq::empty(),
        };
        if outcomes[0] {
            seq![step] + rest
        } else {
            rest
        }
    }
}

/// What has to go well from the index to the search for the head.
pub open spec fn staging() -> Seq<SyncStep> {
    seq![
        SyncStep::OpenIndex,
        SyncStep::AddFile,
        SyncStep::WriteIndex,
        SyncStep::WriteTree,
        SyncStep::FindTree,
    ]
}

/// What has to go well from the head to the signature.
pub open spec fn signing(has_parent: bool) -> Seq<SyncStep> {
    if has_parent {
        seq![
            SyncStep::ReadHead,
            SyncStep::ReadHeadTarget,
            SyncStep::FindHeadCommit,
            SyncStep::Sign { has_parent },
        ]
    } else {
        seq![SyncStep::Sign { has_parent }]
    }
}

proof fn one_step(step: SyncStep, outcomes: Seq<bool>, push: bool)
    requires
        outcomes.len() > 0,
    ensures
        ({
            let next = sync_next(step, outcomes[0], push);
            let rest = outcomes.drop_first();
            &&& next matches SyncNext::Do(then) ==> standing(step, outcomes, push) == standing(
                then,
                rest,
                push,
            ) && done_steps(step, outcomes, push) == (if outcomes[0] {
                seq![step]
            } else {
                Seq::empty()
            }) + done_steps(then, rest, push)
            &&& !(next is Do) ==> standing(step, outcomes, push) == next && done_steps(
                step,
                outcomes,
                push,
            ) == (if outcomes[0] {
                seq![step]
            } else {
                Seq::<SyncStep>::empty()
            })
        }),
{
    let next = sync_next(step, outcomes[0], push);
    if let SyncNext::Do(then) = next {
        let rest = done_steps(then, outcomes.drop_first(), push);
        assert(Seq::<SyncStep>::empty() + rest =~= rest);
    } else {
        assert(seq![step] + Seq::<SyncStep>::empty() =~= seq![step]);
    }
}

/// What has to go well from a step on until the commit is due.
spec fn needed(step: SyncStep, has_parent: bool) -> Seq<SyncStep> {
    match step {
        SyncStep::OpenRepository => staging() + signing(has_parent),
        SyncStep::InitRepository => staging() + signing(has_parent),
        SyncStep::OpenIndex => staging() + signing(has_parent),
        SyncStep::AddFile => staging().skip(1) + signing(has_parent),
        SyncStep::WriteIndex => staging().skip(2) + signing(has_parent),
        SyncStep::WriteTree => staging().skip(3) + signing(has_parent),
        SyncStep::FindTree => staging().skip(4) + signing(has_parent),
        SyncStep::ReadHead => signing(has_parent),
        SyncStep::ReadHeadTarget => signing(true).skip(1),
        SyncStep::FindHeadCommit => signing(true).skip(2),
        SyncStep::Sign { has_parent } => seq![SyncStep::Sign { has_parent }],
        _ => Seq::empty(),
    }
}

#[verifier::rlimit(30)]
proof fn commit_needs(step: SyncStep, outcomes: Seq<bool>, push: bool, has_parent: bool)
    requires
        standing(step, outcomes, push) == SyncNext::Do(SyncStep::Commit { has_parent }),
    ensures
        stage(step) <= 11,
        8 <= stage(step) <= 9 ==> has_parent,
        step matches SyncStep::Sign { has_parent: p } ==> p == has_parent,
        stage(step) <= 1 ==> (done_steps(step, outcomes, push) == seq![SyncStep::OpenRepository]
            + needed(step, has_parent) && stage(step) == 0) || done_steps(step, outcomes, push)
            == seq![SyncStep::InitRepository] + needed(step, has_parent),
        2 <= stage(step) <= 11 ==> done_steps(step, outcomes, push) == needed(step, has_parent),
    decreases outcomes.len(),
{
    let none = Seq::<SyncStep>::empty();
    if outcomes.len() > 0 {
        one_step(step, outcomes, push);
        if let SyncNext::Do(next) = sync_next(step, outcomes[0], push) {
            commit_needs(next, outcomes.drop_first(), push, has_parent);
            let front = if outcomes[0] {
                seq![step]
            } else {
                none
            };
            assert(none + done_steps(next, outcomes.drop_first(), push) =~= done_steps(
                next,
                outcomes.drop_first(),
                push,
            ));
            if stage(step) >= 2 {
                assert(front + needed(next, has_parent) =~= needed(step, has_parent));
            }
        }
    }
}

/// No commit without the data file in it: when the commit is due, a repository was opened or
/// made, and then the index was opened, the file added, the index and the tree written and the
/// tree found, in this order and all of them well; then the commit to build on was found, or
/// there is none, and the signature made.
pub proof fn law_commit_has_the_file(outcomes: Seq<bool>, push: bool, has_parent: bool)
    requires
        standing(SyncStep::OpenRepository, outcomes, push) == SyncNext::Do(
            SyncStep::Commit { has_parent },
        ),
    ensures
        ({
            let done = done_steps(SyncStep::OpenRepository, outcomes, push);
            let tail = seq![
                SyncStep::OpenIndex,
                SyncStep::AddFile,
                SyncStep::WriteIndex,
                SyncStep::WriteTree,
                SyncStep::FindTree,
            ] + if has_parent {
                seq![
                    SyncStep::ReadHead,
                    SyncStep::ReadHeadTarget,
                    SyncStep::FindHeadCommit,
                    SyncStep::Sign { has_parent },
                ]
            } else {
                seq![SyncStep::Sign { has_parent }]
            };
            ||| done == seq![SyncStep::OpenRepository] + tail
            ||| done == seq![SyncStep::InitRepository] + tail
        }),
{
    commit_needs(SyncStep::OpenRepository, outcomes, push, has_parent);
}

/// A commit that went well is pushed where that is wanted: the remote is found or made, then
/// connected to, then pushed to. Where it is not wanted, nothing more is done.
#[verifier::rlimit(30)]
pub proof fn law_push_follows_the_commit(has_parent: bool, found: bool)
    ensures
        ({
            let commit = SyncStep::Commit { has_parent };
            let course = if found {
                seq![true, true, true, true]
            } else {
                seq![true, false, true, true, true]
            };
            let remote = if found {
                SyncStep::FindRemote
            } else {
                SyncStep::MakeRemote
            };
            &&& standing(commit, course, true) == SyncNext::Finished
            &&& done_steps(commit, course, true) == seq![
                commit,
                remote,
                SyncStep::Connect,
                SyncStep::Push,
            ]
            &&& standing(commit, seq![true], false) == SyncNext::Finished
            &&& done_steps(commit, seq![true], false) == seq![commit]
        }),
{
    reveal_with_fuel(standing, 7);
    reveal_with_fuel(done_steps, 7);
    let commit = SyncStep::Commit { has_parent };
    let a = seq![true, true, true, true];
    let b = seq![true, false, true, true, true];
    assert(a.drop_first() =~= seq![true, true, true]);
    assert(seq![true, true, true].drop_first() =~= seq![true, true]);
    assert(seq![true, true].drop_first() =~= seq![true]);
    assert(b.drop_first() =~= seq![false, true, true, true]);
    assert(seq![false, true, true, true].drop_first() =~= seq![true, true, true]);
    assert(done_steps(commit, a, true) =~= seq![
        commit,
        SyncStep::FindRemote,
        SyncStep::Connect,
        SyncStep::Push,
    ]);
    assert(done_steps(commit, b, true) =~= seq![
        commit,
        SyncStep::MakeRemote,
        SyncStep::Connect,
        SyncStep::Push,
    ]);
    assert(done_steps(commit, seq![true], false) =~= seq![commit]);
}

/// A step that fails ends the course, but for three: a repository that cannot be opened, a head
/// that cannot be read, and a remote that is not configured.
pub proof fn law_failures_end_the_course(step: SyncStep, push: bool)
    ensures
        ({
            let next = sync_next(step, false, push);
            if step == SyncStep::OpenRepository {
                next == SyncNext::Do(SyncStep::InitRepository)
            } else if step == SyncStep::ReadHead {
                next == SyncNext::Do(SyncStep::Sign { has_parent: false })
            } else if step == SyncStep::FindRemote {
                next == SyncNext::Do(SyncStep::MakeRemote)
            } else {
                next == SyncNext::Failed(step)
            }
        }),
{
}

} // verus!
