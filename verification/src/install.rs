//! The order in which the plugin is set up: nothing of the user's is touched before the proposed
//! sidebar is checked and what is to be edited is noted, and an edit that fails takes back those
//! before it.
use vstd::prelude::*;

verus! {

/// How far the plugin is set up.
#[derive(Clone, Copy, Debug, PartialEq, Eq, Structural)]
pub enum Phase {
    /// The proposed sidebar is being checked.
    Checking,
    /// The program is being installed, and what is to be edited is being noted.
    Noting,
    /// The file of this number is being replaced.
    Replacing(usize),
    /// The file of this number is being restored, since one after it could not be replaced.
    Restoring(usize),
    /// The plugin is being marked as configured.
    Marking,
    /// All is done.
    Done,
    /// It has failed, and there is nothing more to do.
    Failed,
}

/// The plugin being set up, with so many files to be edited.
#[derive(Clone, Copy, Debug, PartialEq, Eq, Structural)]
pub struct Installation {
    pub files: usize,
    pub phase: Phase,
}

/// What follows a phase, where `success` tells whether its work was done.
pub open spec fn following(files: usize, phase: Phase, success: bool) -> Phase {
    match phase {
        Phase::Checking => if success {
            Phase::Noting
        } else {
            Phase::Failed
        },
        Phase::Noting => if !success {
            Phase::Failed
        } else if files == 0 {
            Phase::Marking
        } else {
            Phase::Replacing(0)
        },
        Phase::Replacing(i) => if success {
            if i + 1 < files {
                Phase::Replacing((i + 1) as usize)
            } else {
                Phase::Marking
            }
        } else if i == 0 {
            Phase::Failed
        } else {
            Phase::Restoring((i - 1) as usize)
        },
        Phase::Restoring(i) => if success && i > 0 {
            Phase::Restoring((i - 1) as usize)
        } else {
            Phase::Failed
        },
        Phase::Marking => if success {
            Phase::Done
        } else {
            Phase::Failed
        },
        Phase::Done => Phase::Done,
        Phase::Failed => Phase::Failed,
    }
}

impl Installation {
    /// Whether the file that is worked on is one of those to be edited.
    pub open spec fn valid(self) -> bool {
        match self.phase {
            Phase::Replacing(i) => i < self.files,
            Phase::Restoring(i) => i < self.files,
            _ => true,
        }
    }

    /// The plugin before anything is done.
    pub fn new(files: usize) -> (r: Installation)
        ensures
            r == (Installation { files, phase: Phase::Checking }),
            r.valid(),
    {
        Installation { files, phase: Phase::Checking }
    }

    /// Goes on to the phase that follows, where `success` tells whether the work of this one was done.
    pub fn advance(&mut self, success: bool)
        requires
            old(self).valid(),
        ensures
            final(self).valid(),
            final(self).files == old(self).files,
            final(self).phase == following(old(self).files, old(self).phase, success),
    {
        let files: usize = self.files;
        self.phase =
        match self.phase {
            Phase::Checking => if success {
                Phase::Noting
            } else {
                Phase::Failed
            },
            Phase::Noting => if !success {
                Phase::Failed
            } else if files == 0 {
                Phase::Marking
            } else {
                Phase::Replacing(0)
            },
            Phase::Replacing(i) => if success {
                if i + 1 < files {
                    Phase::Replacing(i + 1)
                } else {
                    Phase::Marking
                }
            } else if i == 0 {
                Phase::Failed
            } else {
                Phase::Restoring(i - 1)
            },
            Phase::Restoring(i) => if success && i > 0 {
                Phase::Restoring(i - 1)
            } else {
                Phase::Failed
            },
            Phase::Marking => if success {
                Phase::Done
            } else {
                Phase::Failed
            },
            Phase::Done => Phase::Done,
            Phase::Failed => Phase::Failed,
        };
    }
}

// ---------------------------------------------------------------------------
// What holds of every installation
// ---------------------------------------------------------------------------

/// The phase that an installation of `files` files is in after the work of each phase before it ended
/// as `outcomes` tells.
pub open spec fn phase_after(files: usize, outcomes: Seq<bool>) -> Phase
    decreases outcomes.len(),
{
    if outcomes.len() == 0 {
        Phase::Checking
    } else {
        following(files, phase_after(files, outcomes.drop_last()), outcomes.last())
    }
}

/// A file is touched, and the plugin marked as configured, only after the proposed sidebar was found
/// good and what is to be edited was noted.
pub proof fn law_nothing_is_touched_before_it_is_noted(files: usize, outcomes: Seq<bool>)
    requires
        ({
            let phase = phase_after(files, outcomes);
            phase is Replacing || phase is Restoring || phase is Marking || phase is Done
        }),
    ensures
        outcomes.len() >= 2,
        outcomes[0],
        outcomes[1],
    decreases outcomes.len(),
{
    lemma_early(files, outcomes);
    lemma_early(files, outcomes.drop_last());
    let before = phase_after(files, outcomes.drop_last());
    if before is Noting {
        assert(outcomes.drop_last().len() == 1);
        assert(outcomes.drop_last()[0] == outcomes[0]);
    } else {
        law_nothing_is_touched_before_it_is_noted(files, outcomes.drop_last());
    }
}

/// The first two phases are passed at the start.
proof fn lemma_early(files: usize, outcomes: Seq<bool>)
    ensures
        phase_after(files, outcomes) is Checking <==> outcomes.len() == 0,
        phase_after(files, outcomes) is Noting <==> outcomes.len() == 1 && outcomes[0],
    decreases outcomes.len(),
{
    if outcomes.len() > 0 {
        lemma_early(files, outcomes.drop_last());
        if outcomes.len() == 2 {
            assert(outcomes.drop_last()[0] == outcomes[0]);
        }
    }
}

/// An installation never works on a file that is not to be edited.
pub proof fn law_installation_stays_valid(files: usize, outcomes: Seq<bool>)
    ensures
        (Installation { files, phase: phase_after(files, outcomes) }).valid(),
    decreases outcomes.len(),
{
    if outcomes.len() > 0 {
        law_installation_stays_valid(files, outcomes.drop_last());
    }
}

/// Where a file cannot be replaced, each of those that were is restored in turn, from the last to the
/// first, as long as that succeeds; the installation then has failed.
pub proof fn law_failed_edit_is_taken_back(files: usize, i: usize, restored: nat)
    requires
        restored <= i < files,
    ensures
        ({
            let after = restoring(files, following(files, Phase::Replacing(i), false), restored);
            if restored < i {
                after == Phase::Restoring((i - 1 - restored) as usize)
            } else {
                after == Phase::Failed
            }
        }),
    decreases restored,
{
    if restored > 0 {
        law_failed_edit_is_taken_back(files, i, (restored - 1) as nat);
    }
}

/// The phase after so many successes more.
pub open spec fn restoring(files: usize, phase: Phase, successes: nat) -> Phase
    decreases successes,
{
    if successes == 0 {
        phase
    } else {
        following(files, restoring(files, phase, (successes - 1) as nat), true)
    }
}

/// How much is left to do at most.
pub open spec fn work_left(files: usize, phase: Phase) -> int {
    match phase {
        Phase::Checking => 2 * files + 4,
        Phase::Noting => 2 * files + 3,
        Phase::Replacing(i) => 2 * files + 2 - i,
        Phase::Restoring(i) => i + 1,
        Phase::Marking => 1,
        Phase::Done => 0,
        Phase::Failed => 0,
    }
}

/// Every installation comes to an end: each step leaves less to do until it is done or has failed.
pub proof fn law_installation_ends(files: usize, phase: Phase, success: bool)
    requires
        (Installation { files, phase }).valid(),
        !(phase is Done),
        !(phase is Failed),
    ensures
        0 <= work_left(files, following(files, phase, success)) < work_left(files, phase),
{
}

/// An installation in which everything succeeds checks, notes, replaces each file once, in order, marks
/// the plugin as configured, and is done.
pub proof fn law_successful_installation(files: usize, steps: nat)
    ensures
        ({
            let phase = restoring(files, Phase::Checking, steps);
            &&& steps == 0 ==> phase == Phase::Checking
            &&& steps == 1 ==> phase == Phase::Noting
            &&& 2 <= steps < files + 2 ==> phase == Phase::Replacing((steps - 2) as usize)
            &&& steps == files + 2 ==> phase == Phase::Marking
            &&& steps >= files + 3 ==> phase == Phase::Done
        }),
    decreases steps,
{
    if steps > 0 {
        law_successful_installation(files, (steps - 1) as nat);
    }
}

/// A failure ends an installation as failed at once where no file was replaced yet, and once the files are
/// marked or being restored; an installation that has failed or is done stays so.
pub proof fn law_failure_is_final(files: usize, i: usize, success: bool)
    ensures
        following(files, Phase::Checking, false) == Phase::Failed,
        following(files, Phase::Noting, false) == Phase::Failed,
        following(files, Phase::Replacing(0), false) == Phase::Failed,
        following(files, Phase::Restoring(i), false) == Phase::Failed,
        following(files, Phase::Marking, false) == Phase::Failed,
        following(files, Phase::Failed, success) == Phase::Failed,
        following(files, Phase::Done, success) == Phase::Done,
{
}

} // verus!
