use vstd::prelude::*;
use crate::random::{
    basename_is_ascii, is_randomized_name, lemma_randomized_name_basename, lemma_randomized_name_transitive,
    sdel_random_filename, RandomUnavailable,
};

verus! {

/// How many existing candidate names the search for a free name tolerates.
pub const MAX_NAME_TRIES: u32 = 100;

/// A warning that removing a name gives on its way.
#[derive(Clone, Copy, PartialEq, Eq, Structural, Debug)]
pub enum UnlinkWarning {
    /// No free random name was found: the original name is removed.
    NoFreeName,
    /// Renaming to the random name failed: the original name is removed.
    RenameFailed,
    /// Removing failed: the name is put back.
    RemoveFailed,
}

/// One step of removing a name, for the caller to perform.
#[derive(Clone, Copy, PartialEq, Eq, Structural, Debug)]
pub enum UnlinkStep {
    /// Open the original name for writing with truncation; the outcome does
    /// not matter.
    Truncate,
    /// Replace the candidate name by a fresh random one and report whether
    /// a file of that name exists.
    Probe,
    /// Rename the original name to the candidate and report success.
    Rename,
    /// Remove (the directory or the file) under the candidate name, or under
    /// the original one, and report success.
    Remove { candidate: bool },
    /// Rename the candidate, or the original, back to the original name; the
    /// outcome does not matter.
    Restore { candidate: bool },
    /// Tell the user.
    Warn(UnlinkWarning),
    /// The removal is over; `removed` tells whether the name is gone.
    Finish { removed: bool },
}

/// Where a removal stands.
#[derive(Clone, Copy, PartialEq, Eq, Structural, Debug)]
pub enum UnlinkPhase {
    Start,
    Truncated,
    Probing { turn: u32 },
    Renaming,
    PendingRemove { candidate: bool },
    Removing { candidate: bool },
    PendingRestore { candidate: bool },
    Restored,
    Done { removed: bool },
}

/// The next phase and step of a removal in `phase`, given the outcome `ok`
/// of the step before: a truncation comes first for a file when asked; the
/// name search probes random candidates until one is free, giving up after
/// the 101st taken one; a failed rename falls back to the original name; a
/// failed removal puts the name back and ends unsuccessful.
pub open spec fn unlink_transition(phase: UnlinkPhase, directory: bool, truncate: bool, ok: bool) -> (
    UnlinkPhase,
    UnlinkStep,
) {
    match phase {
        UnlinkPhase::Start => if !directory && truncate {
            (UnlinkPhase::Truncated, UnlinkStep::Truncate)
        } else {
            (UnlinkPhase::Probing { turn: 0 }, UnlinkStep::Probe)
        },
        UnlinkPhase::Truncated => (UnlinkPhase::Probing { turn: 0 }, UnlinkStep::Probe),
        UnlinkPhase::Probing { turn } => if !ok {
            (UnlinkPhase::Renaming, UnlinkStep::Rename)
        } else if turn + 1 > MAX_NAME_TRIES {
            (
                UnlinkPhase::PendingRemove { candidate: false },
                UnlinkStep::Warn(UnlinkWarning::NoFreeName),
            )
        } else {
            (UnlinkPhase::Probing { turn: (turn + 1) as u32 }, UnlinkStep::Probe)
        },
        UnlinkPhase::Renaming => if ok {
            (UnlinkPhase::Removing { candidate: true }, UnlinkStep::Remove { candidate: true })
        } else {
            (
                UnlinkPhase::PendingRemove { candidate: false },
                UnlinkStep::Warn(UnlinkWarning::RenameFailed),
            )
        },
        UnlinkPhase::PendingRemove { candidate } => (
            UnlinkPhase::Removing { candidate },
            UnlinkStep::Remove { candidate },
        ),
        UnlinkPhase::Removing { candidate } => if ok {
            (UnlinkPhase::Done { removed: true }, UnlinkStep::Finish { removed: true })
        } else {
            (
                UnlinkPhase::PendingRestore { candidate },
                UnlinkStep::Warn(UnlinkWarning::RemoveFailed),
            )
        },
        UnlinkPhase::PendingRestore { candidate } => (
            UnlinkPhase::Restored,
            UnlinkStep::Restore { candidate },
        ),
        UnlinkPhase::Restored => (UnlinkPhase::Done { removed: false }, UnlinkStep::Finish { removed: false }),
        UnlinkPhase::Done { removed } => (phase, UnlinkStep::Finish { removed }),
    }
}

/// The phases a removal can be in: the name search never counts past its
/// limit.
pub open spec fn phase_wf(phase: UnlinkPhase) -> bool {
    match phase {
        UnlinkPhase::Probing { turn } => turn <= MAX_NAME_TRIES,
        _ => true,
    }
}

/// The removal of one name (a directory or a file) by renaming it to a free
/// random name first: `original` is the name to remove, `candidate` the
/// random name last probed (the original until the first probe).
pub struct Unlinker {
    pub directory: bool,
    pub truncate: bool,
    pub phase: UnlinkPhase,
    pub original: Vec<u8>,
    pub candidate: Vec<u8>,
}

impl Unlinker {
    /// The candidate is the original name or a randomization of it.
    pub open spec fn names_wf(&self) -> bool {
        self.candidate@ == self.original@ || is_randomized_name(self.original@, self.candidate@)
    }

    /// A removal of the name `name`, a directory (`directory`) or a file,
    /// truncated first when `truncate` is set.
    pub fn new(directory: bool, truncate: bool, name: Vec<u8>) -> (u: Unlinker)
        ensures
            u.directory == directory,
            u.truncate == truncate,
            u.phase == UnlinkPhase::Start,
            u.original@ == name@,
            u.candidate@ == name@,
            u.names_wf(),
    {
        let candidate = name.clone();
        Unlinker { directory, truncate, phase: UnlinkPhase::Start, original: name, candidate }
    }

    /// Draws the next candidate name, as a `Probe` step asks: the candidate
    /// is randomized again, so it stays a randomization of the original
    /// name (same directory part and dots, lower-case letters elsewhere).
    /// When the random source fails, nothing changes and the error comes
    /// back.
    pub fn next_candidate(&mut self) -> (r: Result<(), RandomUnavailable>)
        requires
            basename_is_ascii(old(self).original@),
            old(self).names_wf(),
        ensures
            final(self).directory == old(self).directory,
            final(self).truncate == old(self).truncate,
            final(self).phase == old(self).phase,
            final(self).original@ == old(self).original@,
            r is Ok ==> is_randomized_name(final(self).original@, final(self).candidate@),
            r is Err ==> final(self).candidate@ == old(self).candidate@,
            final(self).names_wf(),
    {
        let ghost before = self.candidate@;
        proof {
            if before != self.original@ {
                lemma_randomized_name_basename(self.original@, before);
            }
        }
        let r = sdel_random_filename(self.candidate.as_mut_slice());
        proof {
            if r is Ok && before != self.original@ {
                lemma_randomized_name_transitive(self.original@, before, self.candidate@);
            }
        }
        r
    }

    /// The next step of the removal, `ok` being the outcome of the step
    /// before (for a probe: that the candidate name is taken).
    pub fn step(&mut self, ok: bool) -> (step: UnlinkStep)
        requires
            phase_wf(old(self).phase),
        ensures
            final(self).directory == old(self).directory,
            final(self).truncate == old(self).truncate,
            final(self).original == old(self).original,
            final(self).candidate == old(self).candidate,
            (final(self).phase, step) == unlink_transition(
                old(self).phase,
                old(self).directory,
                old(self).truncate,
                ok,
            ),
            phase_wf(final(self).phase),
    {
        let (phase, step) = match self.phase {
            UnlinkPhase::Start => if !self.directory && self.truncate {
                (UnlinkPhase::Truncated, UnlinkStep::Truncate)
            } else {
                (UnlinkPhase::Probing { turn: 0 }, UnlinkStep::Probe)
            },
            UnlinkPhase::Truncated => (UnlinkPhase::Probing { turn: 0 }, UnlinkStep::Probe),
            UnlinkPhase::Probing { turn } => if !ok {
                (UnlinkPhase::Renaming, UnlinkStep::Rename)
            } else if turn + 1 > MAX_NAME_TRIES {
                (
                    UnlinkPhase::PendingRemove { candidate: false },
                    UnlinkStep::Warn(UnlinkWarning::NoFreeName),
                )
            } else {
                (UnlinkPhase::Probing { turn: turn + 1 }, UnlinkStep::Probe)
            },
            UnlinkPhase::Renaming => if ok {
                (UnlinkPhase::Removing { candidate: true }, UnlinkStep::Remove { candidate: true })
            } else {
                (
                    UnlinkPhase::PendingRemove { candidate: false },
                    UnlinkStep::Warn(UnlinkWarning::RenameFailed),
                )
            },
            UnlinkPhase::PendingRemove { candidate } => (
                UnlinkPhase::Removing { candidate },
                UnlinkStep::Remove { candidate },
            ),
            UnlinkPhase::Removing { candidate } => if ok {
                (UnlinkPhase::Done { removed: true }, UnlinkStep::Finish { removed: true })
            } else {
                (
                    UnlinkPhase::PendingRestore { candidate },
                    UnlinkStep::Warn(UnlinkWarning::RemoveFailed),
                )
            },
            UnlinkPhase::PendingRestore { candidate } => (
                UnlinkPhase::Restored,
                UnlinkStep::Restore { candidate },
            ),
            UnlinkPhase::Restored => (
                UnlinkPhase::Done { removed: false },
                UnlinkStep::Finish { removed: false },
            ),
            UnlinkPhase::Done { removed } => (UnlinkPhase::Done { removed }, UnlinkStep::Finish { removed }),
        };
        self.phase = phase;
        step
    }
}

/// The steps a removal in `phase` takes when the steps it asks for come out
/// as `outcomes` says, one outcome per step.
pub open spec fn run_steps(phase: UnlinkPhase, directory: bool, truncate: bool, outcomes: Seq<bool>) -> Seq<
    UnlinkStep,
>
    decreases outcomes.len(),
{
    if outcomes.len() == 0 {
        Seq::empty()
    } else {
        let (next, step) = unlink_transition(phase, directory, truncate, outcomes[0]);
        seq![step] + run_steps(next, directory, truncate, outcomes.drop_first())
    }
}

/// How many probes a step list holds.
pub open spec fn probe_count(steps: Seq<UnlinkStep>) -> nat
    decreases steps.len(),
{
    if steps.len() == 0 {
        0
    } else {
        (if steps[0] == UnlinkStep::Probe {
            1nat
        } else {
            0nat
        }) + probe_count(steps.drop_first())
    }
}

/// How many more probes a removal in `phase` can make.
pub open spec fn probes_left(phase: UnlinkPhase) -> nat {
    match phase {
        UnlinkPhase::Start | UnlinkPhase::Truncated => (MAX_NAME_TRIES + 1) as nat,
        UnlinkPhase::Probing { turn } => (MAX_NAME_TRIES - turn) as nat,
        _ => 0,
    }
}

proof fn lemma_probes_left(phase: UnlinkPhase, directory: bool, truncate: bool, outcomes: Seq<bool>)
    requires
        phase_wf(phase),
    ensures
        probe_count(run_steps(phase, directory, truncate, outcomes)) <= probes_left(phase),
    decreases outcomes.len(),
{
    if outcomes.len() > 0 {
        let (next, step) = unlink_transition(phase, directory, truncate, outcomes[0]);
        lemma_probes_left(next, directory, truncate, outcomes.drop_first());
        let steps = run_steps(phase, directory, truncate, outcomes);
        assert(steps[0] == step);
        assert(steps.drop_first() =~= run_steps(next, directory, truncate, outcomes.drop_first()));
    }
}

/// Whatever the file system answers, a removal probes at most 101 random
/// names before it settles on one or gives up.
pub proof fn lemma_name_search_bounded(directory: bool, truncate: bool, outcomes: Seq<bool>)
    ensures
        probe_count(run_steps(UnlinkPhase::Start, directory, truncate, outcomes)) <= MAX_NAME_TRIES + 1,
{
    lemma_probes_left(UnlinkPhase::Start, directory, truncate, outcomes);
}

/// A removal ends reporting success only right after a removal step that
/// succeeded, and a failed removal step is followed by a warning and by
/// putting the name back.
pub proof fn lemma_removal_outcome(phase: UnlinkPhase, directory: bool, truncate: bool, ok: bool)
    ensures
        ({
            let (next, step) = unlink_transition(phase, directory, truncate, ok);
            &&& step == (UnlinkStep::Finish { removed: true }) ==> (phase == (UnlinkPhase::Removing {
                candidate: true,
            }) || phase == (UnlinkPhase::Removing { candidate: false }) || phase == (UnlinkPhase::Done {
                removed: true,
            })) && (phase is Removing ==> ok)
            &&& phase is Removing && !ok ==> step == UnlinkStep::Warn(UnlinkWarning::RemoveFailed)
                && unlink_transition(next, directory, truncate, ok).1 == (UnlinkStep::Restore {
                candidate: phase->Removing_candidate,
            })
        }),
{
}

} // verus!
