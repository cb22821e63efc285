//! The order of the steps of a pack once its plan is settled: the resume
//! state is saved before the archive is written, completion is recorded, the
//! archive is verified before the source is deleted, and the resume state is
//! removed last. A dry run only shows its preview.

use vstd::prelude::*;

verus! {

/// Where a pack stands.
#[derive(Debug, Clone, Copy, PartialEq, Eq, Structural)]
pub enum PackStage {
    Planned,
    SavingState,
    Packing,
    SavingCompletion,
    Verifying,
    Deleting,
    Cleaning,
    Finished,
}

/// A pack's stage and what was asked of it.
#[derive(Debug, Clone, Copy, PartialEq, Eq, Structural)]
pub struct PackState {
    pub stage: PackStage,
    pub delete_requested: bool,
    pub secure_delete: bool,
}

/// What happened since the last step.
#[derive(Debug, Clone, Copy, PartialEq, Eq, Structural)]
pub enum PackEvent {
    /// The plan is settled; a dry run only previews.
    Begin { dry_run: bool },
    /// The last action completed.
    Done,
    /// The written archive passed verification.
    VerifyPassed,
}

/// What to do next.
#[derive(Debug, Clone, Copy, PartialEq, Eq, Structural)]
pub enum PackAction {
    ShowPreview,
    SaveResumeState,
    Pack,
    SaveCompletion,
    VerifyArchive,
    DeleteSource { secure: bool },
    RemoveResumeState,
    Finish,
    /// The event does not fit the stage; nothing more is done.
    Stop,
}

/// The next stage and action of a pack.
pub open spec fn pack_step(state: PackState, event: PackEvent) -> (PackState, PackAction) {
    let at = |stage: PackStage| PackState { stage, ..state };
    match (state.stage, event) {
        (PackStage::Planned, PackEvent::Begin { dry_run }) => if dry_run {
            (at(PackStage::Finished), PackAction::ShowPreview)
        } else {
            (at(PackStage::SavingState), PackAction::SaveResumeState)
        },
        (PackStage::SavingState, PackEvent::Done) => (at(PackStage::Packing), PackAction::Pack),
        (PackStage::Packing, PackEvent::Done) => (at(PackStage::SavingCompletion), PackAction::SaveCompletion),
        (PackStage::SavingCompletion, PackEvent::Done) => if state.delete_requested {
            (at(PackStage::Verifying), PackAction::VerifyArchive)
        } else {
            (at(PackStage::Cleaning), PackAction::RemoveResumeState)
        },
        (PackStage::Verifying, PackEvent::VerifyPassed) => if state.delete_requested {
            (at(PackStage::Deleting), PackAction::DeleteSource { secure: state.secure_delete })
        } else {
            (state, PackAction::Stop)
        },
        (PackStage::Deleting, PackEvent::Done) => (at(PackStage::Cleaning), PackAction::RemoveResumeState),
        (PackStage::Cleaning, PackEvent::Done) => (at(PackStage::Finished), PackAction::Finish),
        _ => (state, PackAction::Stop),
    }
}

impl PackState {
    /// A pack about to begin.
    pub fn new(delete_requested: bool, secure_delete: bool) -> (s: PackState)
        ensures
            s == (PackState { stage: PackStage::Planned, delete_requested, secure_delete }),
    {
        PackState { stage: PackStage::Planned, delete_requested, secure_delete }
    }
}

/// Takes one step of a pack.
pub fn next_pack_step(state: &PackState, event: PackEvent) -> (r: (PackState, PackAction))
    ensures
        r == pack_step(*state, event),
        r.1 is DeleteSource ==> state.stage == PackStage::Verifying && event == PackEvent::VerifyPassed
            && state.delete_requested,
        r.1 is Pack ==> state.stage == PackStage::SavingState,
        r.1 is VerifyArchive ==> state.stage == PackStage::SavingCompletion && state.delete_requested,
{
    let s = *state;
    let at = |stage: PackStage| -> (n: PackState)
        ensures
            n == (PackState { stage, ..s }),
        { PackState { stage, delete_requested: s.delete_requested, secure_delete: s.secure_delete } };
    match (s.stage, event) {
        (PackStage::Planned, PackEvent::Begin { dry_run }) => if dry_run {
            (at(PackStage::Finished), PackAction::ShowPreview)
        } else {
            (at(PackStage::SavingState), PackAction::SaveResumeState)
        },
        (PackStage::SavingState, PackEvent::Done) => (at(PackStage::Packing), PackAction::Pack),
        (PackStage::Packing, PackEvent::Done) => (at(PackStage::SavingCompletion), PackAction::SaveCompletion),
        (PackStage::SavingCompletion, PackEvent::Done) => if s.delete_requested {
            (at(PackStage::Verifying), PackAction::VerifyArchive)
        } else {
            (at(PackStage::Cleaning), PackAction::RemoveResumeState)
        },
        (PackStage::Verifying, PackEvent::VerifyPassed) => if s.delete_requested {
            (at(PackStage::Deleting), PackAction::DeleteSource { secure: s.secure_delete })
        } else {
            (s, PackAction::Stop)
        },
        (PackStage::Deleting, PackEvent::Done) => (at(PackStage::Cleaning), PackAction::RemoveResumeState),
        (PackStage::Cleaning, PackEvent::Done) => (at(PackStage::Finished), PackAction::Finish),
        _ => (s, PackAction::Stop),
    }
}

/// The sequence of actions a pack takes from `state` when every action
/// completes and every verification passes.
pub open spec fn run_actions(state: PackState, event: PackEvent, fuel: nat) -> Seq<PackAction>
    decreases fuel,
{
    if fuel == 0 {
        Seq::empty()
    } else {
        let (next, action) = pack_step(state, event);
        let next_event = if action is VerifyArchive {
            PackEvent::VerifyPassed
        } else {
            PackEvent::Done
        };
        if action is Stop || action is Finish || action is ShowPreview {
            seq![action]
        } else {
            seq![action] + run_actions(next, next_event, (fuel - 1) as nat)
        }
    }
}

/// The source is deleted only after the archive passed verification, and
/// only when deletion was asked for; the archive is written only after the
/// resume state was saved.
pub proof fn law_delete_only_after_verification(state: PackState, event: PackEvent)
    ensures
        pack_step(state, event).1 is DeleteSource ==> state.stage == PackStage::Verifying && event
            == PackEvent::VerifyPassed && state.delete_requested,
        pack_step(state, event).1 is Pack ==> state.stage == PackStage::SavingState,
        pack_step(state, event).1 is SaveResumeState ==> state.stage == PackStage::Planned && event
            == (PackEvent::Begin { dry_run: false }),
{
}

/// A pack that runs to its end takes exactly these steps: with deletion
/// asked for, save the resume state, pack, record completion, verify, delete,
/// remove the resume state, finish; without it, the same with no verify and
/// no delete; a dry run only shows its preview.
pub proof fn law_pack_sequence(delete_requested: bool, secure_delete: bool, dry_run: bool)
    ensures
        ({
            let s = PackState { stage: PackStage::Planned, delete_requested, secure_delete };
            run_actions(s, PackEvent::Begin { dry_run }, 10) == if dry_run {
                seq![PackAction::ShowPreview]
            } else if delete_requested {
                seq![
                    PackAction::SaveResumeState,
                    PackAction::Pack,
                    PackAction::SaveCompletion,
                    PackAction::VerifyArchive,
                    PackAction::DeleteSource { secure: secure_delete },
                    PackAction::RemoveResumeState,
                    PackAction::Finish,
                ]
            } else {
                seq![
                    PackAction::SaveResumeState,
                    PackAction::Pack,
                    PackAction::SaveCompletion,
                    PackAction::RemoveResumeState,
                    PackAction::Finish,
                ]
            }
        }),
{
    reveal_with_fuel(run_actions, 11);
    let s = PackState { stage: PackStage::Planned, delete_requested, secure_delete };
    let r = run_actions(s, PackEvent::Begin { dry_run }, 10);
    if dry_run {
        assert(r =~= seq![PackAction::ShowPreview]);
    } else if delete_requested {
        assert(r =~= seq![
            PackAction::SaveResumeState,
            PackAction::Pack,
            PackAction::SaveCompletion,
            PackAction::VerifyArchive,
            PackAction::DeleteSource { secure: secure_delete },
            PackAction::RemoveResumeState,
            PackAction::Finish,
        ]);
    } else {
        assert(r =~= seq![
            PackAction::SaveResumeState,
            PackAction::Pack,
            PackAction::SaveCompletion,
            PackAction::RemoveResumeState,
            PackAction::Finish,
        ]);
    }
}

} // verus!
