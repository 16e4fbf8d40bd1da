use vstd::prelude::*;

verus! {

/// The buffer size the library is built with; a multiple of three, so that
/// pattern fills cover the whole buffer.
pub const BLOCKSIZE: usize = 32769;

/// The largest buffer size a file system's block size can raise it to.
pub const MAX_BUFSIZE: usize = 65535;

/// The built-in buffer size is a multiple of three and at least 16 KiB.
pub proof fn lemma_blocksize_sound()
    ensures
        BLOCKSIZE % 3 == 0,
        BLOCKSIZE >= 16384,
{
}

/// The buffer size after seeing a file whose file system uses blocks of
/// `blksize` bytes: raised past a larger block size to the next multiple of
/// three, but to at most 65535.
pub open spec fn enlarged_bufsize_spec(current: usize, blksize: u64) -> usize {
    if blksize > current {
        if blksize > 65532 {
            MAX_BUFSIZE
        } else {
            ((blksize / 3 + 1) * 3) as usize
        }
    } else {
        current
    }
}

/// The buffer size to use from now on, given the one in use and the block
/// size of the file system of the next target.
pub fn enlarged_bufsize(current: usize, blksize: u64) -> (size: usize)
    ensures
        size == enlarged_bufsize_spec(current, blksize),
{
    if blksize > current as u64 {
        if blksize > 65532 {
            MAX_BUFSIZE
        } else {
            ((blksize / 3 + 1) * 3) as usize
        }
    } else {
        current
    }
}

/// A buffer size of at most 65535 never shrinks; raised, it is a multiple of three above
/// the block size (or 65535), so a multiple of three stays one; and one that
/// starts at most 65535 stays at most 65535.
pub proof fn lemma_enlarged_bufsize(current: usize, blksize: u64)
    ensures
        current <= MAX_BUFSIZE ==> enlarged_bufsize_spec(current, blksize) >= current,
        current % 3 == 0 ==> enlarged_bufsize_spec(current, blksize) % 3 == 0,
        current <= MAX_BUFSIZE ==> enlarged_bufsize_spec(current, blksize) <= MAX_BUFSIZE,
        blksize <= 65532 ==> enlarged_bufsize_spec(current, blksize) >= blksize,
{
    let b = blksize as int;
    assert((b / 3 + 1) * 3 > b && ((b / 3 + 1) * 3) % 3 == 0) by (nonlinear_arith)
        requires
            b >= 0,
    ;
    assert(b <= 65532 ==> (b / 3 + 1) * 3 <= 65535) by (nonlinear_arith)
        requires
            b >= 0,
    ;
}

/// What to do with a target, by what its status says.
#[derive(Clone, Copy, PartialEq, Eq, Structural, Debug)]
pub enum TargetKind {
    /// A regular file with other hard links: refused, naming how many.
    Hardlinked { extra_links: u64 },
    /// A directory in recursive mode: wipe its entries, then remove it.
    Recurse,
    /// A regular file: overwrite it, then remove it.
    Overwrite,
    /// A directory without recursive mode: refused.
    RefuseDirectory,
    /// Anything else: rename and remove it only.
    UnlinkOnly,
}

/// Classifies a target by its status: its type, its number of hard links,
/// and whether recursion is on.
pub fn classify_target(is_file: bool, is_dir: bool, nlink: u64, recursive: bool) -> (kind: TargetKind)
    ensures
        is_file && nlink > 1 ==> kind == (TargetKind::Hardlinked { extra_links: (nlink - 1) as u64 }),
        !(is_file && nlink > 1) && recursive && is_dir ==> kind == TargetKind::Recurse,
        !(is_file && nlink > 1) && !(recursive && is_dir) && is_file ==> kind == TargetKind::Overwrite,
        !is_file && !(recursive && is_dir) && is_dir ==> kind == TargetKind::RefuseDirectory,
        !is_file && !is_dir ==> kind == TargetKind::UnlinkOnly,
{
    if is_file && nlink > 1 {
        TargetKind::Hardlinked { extra_links: nlink - 1 }
    } else if recursive && is_dir {
        TargetKind::Recurse
    } else if is_file {
        TargetKind::Overwrite
    } else if is_dir {
        TargetKind::RefuseDirectory
    } else {
        TargetKind::UnlinkOnly
    }
}

/// The buffer size after inspecting a target of kind `kind` on a file
/// system with blocks of `blksize` bytes: a refused hard-linked file leaves
/// it alone; any other target may enlarge it.
pub fn bufsize_after_target(kind: TargetKind, current: usize, blksize: u64) -> (size: usize)
    ensures
        kind is Hardlinked ==> size == current,
        !(kind is Hardlinked) ==> size == enlarged_bufsize_spec(current, blksize),
{
    match kind {
        TargetKind::Hardlinked { .. } => current,
        _ => enlarged_bufsize(current, blksize),
    }
}

/// The device and inode numbers that tell one file from another.
#[derive(Clone, Copy, PartialEq, Eq, Structural, Debug)]
pub struct FileId {
    pub dev: u64,
    pub ino: u64,
}

/// Whether what was opened (or entered) is no longer what was inspected by
/// name: a different device or inode, or, when a regular file is expected,
/// not a regular file.
pub fn raced(inspected: FileId, opened: FileId, opened_is_file: bool, expect_file: bool) -> (r: bool)
    ensures
        r == (inspected.dev != opened.dev || inspected.ino != opened.ino || (expect_file
            && !opened_is_file)),
{
    inspected.dev != opened.dev || inspected.ino != opened.ino || (expect_file && !opened_is_file)
}

/// The name is one of the two dot entries, `.` or `..`.
pub open spec fn is_dot_name_spec(name: Seq<u8>) -> bool {
    name == seq![0x2Eu8] || name == seq![0x2Eu8, 0x2Eu8]
}

/// Whether `name` is `.` or `..`.
pub fn is_dot_name(name: &[u8]) -> (r: bool)
    ensures
        r == is_dot_name_spec(name@),
{
    if name.len() == 1 {
        let r = name[0] == 0x2E;
        assert(r ==> name@ =~= seq![0x2Eu8]);
        r
    } else if name.len() == 2 {
        let r = name[0] == 0x2E && name[1] == 0x2E;
        assert(r ==> name@ =~= seq![0x2Eu8, 0x2Eu8]);
        r
    } else {
        false
    }
}

/// Why wiping a name failed.
#[derive(Clone, Copy, PartialEq, Eq, Structural, Debug)]
pub enum SmashFailure {
    /// A regular file with `extra_links` other hard links.
    Hardlinked { extra_links: u64 },
    /// A directory, and recursion is off.
    IsDirectory,
    /// The directory could not be entered, even after making it accessible.
    ChdirFailed,
    /// The directory entered is not the one inspected.
    DirRaced,
    /// The directory could not be listed, even after making it accessible.
    OpenDirFailed,
    /// The previous working directory could not be entered again.
    ChdirBackFailed,
    /// The file could not be opened, even after making it writable.
    OpenFailed,
    /// The file's status could not be read again.
    StatFailed,
    /// The file opened is not the one inspected.
    FileRaced,
    /// Overwriting failed.
    OverwriteFailed,
    /// Renaming and removing failed.
    UnlinkFailed,
}

/// One step of wiping a name, for the caller to perform.
#[derive(Clone, Copy, PartialEq, Eq, Structural, Debug)]
pub enum SmashStep {
    /// Enter the directory (after noting the working directory); report success.
    EnterDir,
    /// Make the directory accessible to its owner; the outcome does not matter.
    ChmodDir,
    /// Check that the directory entered is the one inspected; report that it is.
    CheckDirRace,
    /// List the current directory; report success.
    OpenDir,
    /// Make the current directory accessible; the outcome does not matter.
    ChmodDot,
    /// Wipe every entry but `.` and `..`; failures are reported, not fatal.
    WipeEntries,
    /// Go back to the noted working directory; report success.
    LeaveDir,
    /// Open the file for reading and writing; report success.
    OpenFile,
    /// Make the file readable and writable by its owner; the outcome does not matter.
    ChmodFile,
    /// Read the file's status again by name; report success.
    Restat,
    /// Check that the file opened is the regular file inspected; report that it is.
    CheckFileRace,
    /// Overwrite the file; report success.
    Overwrite,
    /// Warn that the name is not a regular file and will only be removed.
    WarnNotRegular,
    /// Rename and remove the name; report success.
    Unlink { directory: bool, truncate: bool },
    /// The wipe failed.
    Fail(SmashFailure),
    /// The wipe succeeded.
    Succeed,
}

/// Where wiping a name stands.
#[derive(Clone, Copy, PartialEq, Eq, Structural, Debug)]
pub enum SmashPhase {
    Begin(TargetKind),
    Entering { retried: bool },
    ChmodingDir,
    CheckingDir,
    Listing { retried: bool },
    ChmodingDot,
    Wiping,
    Leaving,
    Opening { retried: bool },
    ChmodingFile,
    Restating,
    CheckingFile,
    Overwriting,
    Warned,
    Unlinking,
    Done,
}

/// The next phase and step of wiping a name in `phase`, given the outcome
/// `ok` of the step before: a directory (in recursive mode) is entered,
/// checked, listed and wiped entry by entry, left, then removed; a regular
/// file is opened, checked, overwritten, then removed with truncation; a
/// directory is entered, and a file or directory opened, a second time
/// after a change of permissions when the first try fails; anything else is
/// removed only; every failure ends the wipe.
pub open spec fn smash_transition(phase: SmashPhase, ok: bool) -> (SmashPhase, SmashStep) {
    match phase {
        SmashPhase::Begin(kind) => match kind {
            TargetKind::Hardlinked { extra_links } => (
                SmashPhase::Done,
                SmashStep::Fail(SmashFailure::Hardlinked { extra_links }),
            ),
            TargetKind::Recurse => (SmashPhase::Entering { retried: false }, SmashStep::EnterDir),
            TargetKind::Overwrite => (SmashPhase::Opening { retried: false }, SmashStep::OpenFile),
            TargetKind::RefuseDirectory => (SmashPhase::Done, SmashStep::Fail(SmashFailure::IsDirectory)),
            TargetKind::UnlinkOnly => (SmashPhase::Warned, SmashStep::WarnNotRegular),
        },
        SmashPhase::Entering { retried } => if ok {
            (SmashPhase::CheckingDir, SmashStep::CheckDirRace)
        } else if !retried {
            (SmashPhase::ChmodingDir, SmashStep::ChmodDir)
        } else {
            (SmashPhase::Done, SmashStep::Fail(SmashFailure::ChdirFailed))
        },
        SmashPhase::ChmodingDir => (SmashPhase::Entering { retried: true }, SmashStep::EnterDir),
        SmashPhase::CheckingDir => if ok {
            (SmashPhase::Listing { retried: false }, SmashStep::OpenDir)
        } else {
            (SmashPhase::Done, SmashStep::Fail(SmashFailure::DirRaced))
        },
        SmashPhase::Listing { retried } => if ok {
            (SmashPhase::Wiping, SmashStep::WipeEntries)
        } else if !retried {
            (SmashPhase::ChmodingDot, SmashStep::ChmodDot)
        } else {
            (SmashPhase::Done, SmashStep::Fail(SmashFailure::OpenDirFailed))
        },
        SmashPhase::ChmodingDot => (SmashPhase::Listing { retried: true }, SmashStep::OpenDir),
        SmashPhase::Wiping => (SmashPhase::Leaving, SmashStep::LeaveDir),
        SmashPhase::Leaving => if ok {
            (SmashPhase::Unlinking, SmashStep::Unlink { directory: true, truncate: false })
        } else {
            (SmashPhase::Done, SmashStep::Fail(SmashFailure::ChdirBackFailed))
        },
        SmashPhase::Opening { retried } => if ok {
            (SmashPhase::Restating, SmashStep::Restat)
        } else if !retried {
            (SmashPhase::ChmodingFile, SmashStep::ChmodFile)
        } else {
            (SmashPhase::Done, SmashStep::Fail(SmashFailure::OpenFailed))
        },
        SmashPhase::ChmodingFile => (SmashPhase::Opening { retried: true }, SmashStep::OpenFile),
        SmashPhase::Restating => if ok {
            (SmashPhase::CheckingFile, SmashStep::CheckFileRace)
        } else {
            (SmashPhase::Done, SmashStep::Fail(SmashFailure::StatFailed))
        },
        SmashPhase::CheckingFile => if ok {
            (SmashPhase::Overwriting, SmashStep::Overwrite)
        } else {
            (SmashPhase::Done, SmashStep::Fail(SmashFailure::FileRaced))
        },
        SmashPhase::Overwriting => if ok {
            (SmashPhase::Unlinking, SmashStep::Unlink { directory: false, truncate: true })
        } else {
            (SmashPhase::Done, SmashStep::Fail(SmashFailure::OverwriteFailed))
        },
        SmashPhase::Warned => (SmashPhase::Unlinking, SmashStep::Unlink { directory: false, truncate: false }),
        SmashPhase::Unlinking => if ok {
            (SmashPhase::Done, SmashStep::Succeed)
        } else {
            (SmashPhase::Done, SmashStep::Fail(SmashFailure::UnlinkFailed))
        },
        SmashPhase::Done => (SmashPhase::Done, SmashStep::Succeed),
    }
}

/// The wipe of one name.
pub struct Smasher {
    pub phase: SmashPhase,
}

impl Smasher {
    /// The wipe of a name of the given kind.
    pub fn new(kind: TargetKind) -> (s: Smasher)
        ensures
            s.phase == SmashPhase::Begin(kind),
    {
        Smasher { phase: SmashPhase::Begin(kind) }
    }

    /// The next step of the wipe, `ok` being the outcome of the step before.
    pub fn step(&mut self, ok: bool) -> (step: SmashStep)
        requires
            old(self).phase != SmashPhase::Done,
        ensures
            (final(self).phase, step) == smash_transition(old(self).phase, ok),
    {
        let (phase, step) = match self.phase {
            SmashPhase::Begin(kind) => match kind {
                TargetKind::Hardlinked { extra_links } => (
                    SmashPhase::Done,
                    SmashStep::Fail(SmashFailure::Hardlinked { extra_links }),
                ),
                TargetKind::Recurse => (SmashPhase::Entering { retried: false }, SmashStep::EnterDir),
                TargetKind::Overwrite => (SmashPhase::Opening { retried: false }, SmashStep::OpenFile),
                TargetKind::RefuseDirectory => (
                    SmashPhase::Done,
                    SmashStep::Fail(SmashFailure::IsDirectory),
                ),
                TargetKind::UnlinkOnly => (SmashPhase::Warned, SmashStep::WarnNotRegular),
            },
            SmashPhase::Entering { retried } => if ok {
                (SmashPhase::CheckingDir, SmashStep::CheckDirRace)
            } else if !retried {
                (SmashPhase::ChmodingDir, SmashStep::ChmodDir)
            } else {
                (SmashPhase::Done, SmashStep::Fail(SmashFailure::ChdirFailed))
            },
            SmashPhase::ChmodingDir => (SmashPhase::Entering { retried: true }, SmashStep::EnterDir),
            SmashPhase::CheckingDir => if ok {
                (SmashPhase::Listing { retried: false }, SmashStep::OpenDir)
            } else {
                (SmashPhase::Done, SmashStep::Fail(SmashFailure::DirRaced))
            },
            SmashPhase::Listing { retried } => if ok {
                (SmashPhase::Wiping, SmashStep::WipeEntries)
            } else if !retried {
                (SmashPhase::ChmodingDot, SmashStep::ChmodDot)
            } else {
                (SmashPhase::Done, SmashStep::Fail(SmashFailure::OpenDirFailed))
            },
            SmashPhase::ChmodingDot => (SmashPhase::Listing { retried: true }, SmashStep::OpenDir),
            SmashPhase::Wiping => (SmashPhase::Leaving, SmashStep::LeaveDir),
            SmashPhase::Leaving => if ok {
                (SmashPhase::Unlinking, SmashStep::Unlink { directory: true, truncate: false })
            } else {
                (SmashPhase::Done, SmashStep::Fail(SmashFailure::ChdirBackFailed))
            },
            SmashPhase::Opening { retried } => if ok {
                (SmashPhase::Restating, SmashStep::Restat)
            } else if !retried {
                (SmashPhase::ChmodingFile, SmashStep::ChmodFile)
            } else {
                (SmashPhase::Done, SmashStep::Fail(SmashFailure::OpenFailed))
            },
            SmashPhase::ChmodingFile => (SmashPhase::Opening { retried: true }, SmashStep::OpenFile),
            SmashPhase::Restating => if ok {
                (SmashPhase::CheckingFile, SmashStep::CheckFileRace)
            } else {
                (SmashPhase::Done, SmashStep::Fail(SmashFailure::StatFailed))
            },
            SmashPhase::CheckingFile => if ok {
                (SmashPhase::Overwriting, SmashStep::Overwrite)
            } else {
                (SmashPhase::Done, SmashStep::Fail(SmashFailure::FileRaced))
            },
            SmashPhase::Overwriting => if ok {
                (SmashPhase::Unlinking, SmashStep::Unlink { directory: false, truncate: true })
            } else {
                (SmashPhase::Done, SmashStep::Fail(SmashFailure::OverwriteFailed))
            },
            SmashPhase::Warned => (
                SmashPhase::Unlinking,
                SmashStep::Unlink { directory: false, truncate: false },
            ),
            SmashPhase::Unlinking => if ok {
                (SmashPhase::Done, SmashStep::Succeed)
            } else {
                (SmashPhase::Done, SmashStep::Fail(SmashFailure::UnlinkFailed))
            },
            SmashPhase::Done => (SmashPhase::Done, SmashStep::Succeed),
        };
        self.phase = phase;
        step
    }
}

/// The arguments of the overwrite that an `Overwrite` step asks for.
#[derive(Clone, Copy, PartialEq, Eq, Structural, Debug)]
pub struct OverwriteRequest {
    /// The overwrite mode of the run.
    pub mode: i32,
    /// Where the overwrite starts: the beginning of the file.
    pub start: u64,
    /// The buffer size in use.
    pub bufsize: usize,
    /// How many bytes to cover: the length the file's status gave when read
    /// again after opening.
    pub length: u64,
    /// Whether the last pass writes zeros.
    pub zero: bool,
}

/// The overwrite an `Overwrite` step asks for: the whole file from its
/// beginning, over the length read again after opening, with the run's mode,
/// the buffer size in use and the run's `zero` setting.
pub fn overwrite_request(mode: i32, bufsize: usize, restat_length: u64, zero: bool) -> (r: OverwriteRequest)
    ensures
        r == (OverwriteRequest { mode, start: 0, bufsize, length: restat_length, zero }),
{
    OverwriteRequest { mode, start: 0, bufsize, length: restat_length, zero }
}

/// How many more steps a wipe in `phase` can take at most.
pub open spec fn smash_rank(phase: SmashPhase) -> nat {
    match phase {
        SmashPhase::Begin(_) => 12,
        SmashPhase::Entering { retried } => if retried { 9 } else { 11 },
        SmashPhase::ChmodingDir => 10,
        SmashPhase::CheckingDir => 8,
        SmashPhase::Listing { retried } => if retried { 5 } else { 7 },
        SmashPhase::ChmodingDot => 6,
        SmashPhase::Wiping => 4,
        SmashPhase::Leaving => 3,
        SmashPhase::Opening { retried } => if retried { 8 } else { 10 },
        SmashPhase::ChmodingFile => 9,
        SmashPhase::Restating => 7,
        SmashPhase::CheckingFile => 6,
        SmashPhase::Overwriting => 5,
        SmashPhase::Warned => 3,
        SmashPhase::Unlinking => 2,
        SmashPhase::Done => 0,
    }
}

/// Every step brings a wipe closer to its end, so a wipe of one name takes
/// at most 12 steps, each retry happening at most once; and only a step
/// that ends the wipe (`Fail` or `Succeed`) reaches `Done`.
pub proof fn lemma_smash_terminates(phase: SmashPhase, ok: bool)
    requires
        phase != SmashPhase::Done,
    ensures
        smash_rank(smash_transition(phase, ok).0) < smash_rank(phase),
        smash_rank(phase) <= 12,
        smash_transition(phase, ok).0 == SmashPhase::Done <==> (smash_transition(phase, ok).1 is Fail
            || smash_transition(phase, ok).1 == SmashStep::Succeed),
{
}

/// A file is overwritten only once the file opened has been checked to be
/// the one inspected; a file is removed with truncation only after it was
/// overwritten; a directory is removed only after the working directory was
/// restored; and the wipe succeeds only when the removal does.
pub proof fn lemma_smash_order(phase: SmashPhase, ok: bool)
    ensures
        smash_transition(phase, ok).1 == SmashStep::Overwrite ==> phase == SmashPhase::CheckingFile && ok,
        smash_transition(phase, ok).1 == (SmashStep::Unlink { directory: false, truncate: true })
            ==> phase == SmashPhase::Overwriting && ok,
        smash_transition(phase, ok).1 == (SmashStep::Unlink { directory: true, truncate: false })
            ==> phase == SmashPhase::Leaving && ok,
        smash_transition(phase, ok).1 == SmashStep::Succeed && phase != SmashPhase::Done ==> phase
            == SmashPhase::Unlinking && ok,
{
}

/// A directory that was listed is always wiped entry by entry before it is
/// left: a successful listing, first try or second, is followed by wiping
/// the entries; the entries are wiped only after a successful listing; the
/// directory is left only after its entries were wiped; and the phase of
/// wiping is reached only by the step that wipes the entries.
pub proof fn lemma_listing_then_wiping(phase: SmashPhase, ok: bool)
    ensures
        phase is Listing && ok ==> smash_transition(phase, ok) == (SmashPhase::Wiping, SmashStep::WipeEntries),
        smash_transition(phase, ok).1 == SmashStep::WipeEntries ==> phase is Listing && ok,
        smash_transition(phase, ok).1 == SmashStep::LeaveDir ==> phase == SmashPhase::Wiping,
        smash_transition(phase, ok).0 == SmashPhase::Wiping ==> smash_transition(phase, ok).1
            == SmashStep::WipeEntries,
        smash_transition(phase, ok).0 == SmashPhase::Leaving ==> phase == SmashPhase::Wiping,
{
}

/// The steps of a wipe that starts in `phase` and is told the outcomes
/// `outcomes`, one per step, until it is done or the outcomes run out.
pub open spec fn smash_steps(phase: SmashPhase, outcomes: Seq<bool>) -> Seq<SmashStep>
    decreases outcomes.len(),
{
    if outcomes.len() == 0 || phase == SmashPhase::Done {
        Seq::empty()
    } else {
        let (next, step) = smash_transition(phase, outcomes[0]);
        seq![step] + smash_steps(next, outcomes.drop_first())
    }
}

/// Whatever the outcomes, a wipe that has not yet wiped a directory's
/// entries removes that directory only after a step that wipes its entries:
/// every directory removal in the steps comes after a `WipeEntries` step.
pub proof fn lemma_directory_emptied_before_removal(phase: SmashPhase, outcomes: Seq<bool>)
    requires
        phase != SmashPhase::Wiping,
        phase != SmashPhase::Leaving,
    ensures
        forall|i: int|
            0 <= i < smash_steps(phase, outcomes).len() && #[trigger] smash_steps(phase, outcomes)[i]
                == (SmashStep::Unlink { directory: true, truncate: false }) ==> exists|j: int|
                0 <= j < i && #[trigger] smash_steps(phase, outcomes)[j] == SmashStep::WipeEntries,
    decreases outcomes.len(),
{
    let steps = smash_steps(phase, outcomes);
    if outcomes.len() > 0 && phase != SmashPhase::Done {
        let (next, step) = smash_transition(phase, outcomes[0]);
        let rest = smash_steps(next, outcomes.drop_first());
        assert(steps == seq![step] + rest);
        lemma_smash_order(phase, outcomes[0]);
        lemma_listing_then_wiping(phase, outcomes[0]);
        if next != SmashPhase::Wiping && next != SmashPhase::Leaving {
            lemma_directory_emptied_before_removal(next, outcomes.drop_first());
        }
        assert forall|i: int|
            0 <= i < steps.len() && #[trigger] steps[i] == (SmashStep::Unlink {
                directory: true,
                truncate: false,
            }) implies exists|j: int| 0 <= j < i && #[trigger] steps[j] == SmashStep::WipeEntries by {
            assert(i > 0);
            assert(steps[i] == rest[i - 1]);
            if next == SmashPhase::Wiping {
                assert(steps[0] == SmashStep::WipeEntries);
            } else {
                let j = choose|j: int| 0 <= j < i - 1 && #[trigger] rest[j] == SmashStep::WipeEntries;
                assert(steps[j + 1] == rest[j]);
            }
        }
    }
}

/// A recursive wipe of a directory, whatever the file system answers,
/// removes the directory only after it wiped the directory's entries.
pub proof fn lemma_recursive_wipe_empties_first(outcomes: Seq<bool>)
    ensures
        forall|i: int|
            0 <= i < smash_steps(SmashPhase::Begin(TargetKind::Recurse), outcomes).len()
                && #[trigger] smash_steps(SmashPhase::Begin(TargetKind::Recurse), outcomes)[i]
                == (SmashStep::Unlink { directory: true, truncate: false }) ==> exists|j: int|
                0 <= j < i && #[trigger] smash_steps(SmashPhase::Begin(TargetKind::Recurse), outcomes)[j]
                    == SmashStep::WipeEntries,
{
    lemma_directory_emptied_before_removal(SmashPhase::Begin(TargetKind::Recurse), outcomes);
}

/// Each step leaves the wipe waiting for that step's outcome: the phase a
/// step enters names the step that was just asked for, so no phase is
/// entered without its step.
pub proof fn lemma_step_enters_its_phase(phase: SmashPhase, ok: bool)
    ensures
        ({
            let (next, step) = smash_transition(phase, ok);
            &&& next is Entering ==> step == SmashStep::EnterDir
            &&& next == SmashPhase::ChmodingDir ==> step == SmashStep::ChmodDir
            &&& next == SmashPhase::CheckingDir ==> step == SmashStep::CheckDirRace
            &&& next is Listing ==> step == SmashStep::OpenDir
            &&& next == SmashPhase::ChmodingDot ==> step == SmashStep::ChmodDot
            &&& next == SmashPhase::Wiping ==> step == SmashStep::WipeEntries
            &&& next == SmashPhase::Leaving ==> step == SmashStep::LeaveDir
            &&& next is Opening ==> step == SmashStep::OpenFile
            &&& next == SmashPhase::ChmodingFile ==> step == SmashStep::ChmodFile
            &&& next == SmashPhase::Restating ==> step == SmashStep::Restat
            &&& next == SmashPhase::CheckingFile ==> step == SmashStep::CheckFileRace
            &&& next == SmashPhase::Overwriting ==> step == SmashStep::Overwrite
            &&& next == SmashPhase::Warned ==> step == SmashStep::WarnNotRegular
            &&& next == SmashPhase::Unlinking ==> step is Unlink
            &&& !(next is Begin)
        }),
{
}

proof fn lemma_step_preceded(
    phase: SmashPhase,
    outcomes: Seq<bool>,
    target: SmashStep,
    waiting: SmashPhase,
    before: SmashStep,
)
    requires
        phase != waiting,
        forall|p: SmashPhase, ok: bool| #[trigger] smash_transition(p, ok).1 == target ==> p == waiting,
        forall|p: SmashPhase, ok: bool| #[trigger] smash_transition(p, ok).0 == waiting ==> smash_transition(
            p,
            ok,
        ).1 == before,
    ensures
        forall|i: int|
            0 <= i < smash_steps(phase, outcomes).len() && #[trigger] smash_steps(phase, outcomes)[i]
                == target ==> exists|j: int| 0 <= j < i && #[trigger] smash_steps(phase, outcomes)[j] == before,
    decreases outcomes.len(),
{
    let steps = smash_steps(phase, outcomes);
    if outcomes.len() > 0 && phase != SmashPhase::Done {
        let (next, step) = smash_transition(phase, outcomes[0]);
        let rest = smash_steps(next, outcomes.drop_first());
        assert(steps == seq![step] + rest);
        if next != waiting {
            lemma_step_preceded(next, outcomes.drop_first(), target, waiting, before);
        }
        assert forall|i: int| 0 <= i < steps.len() && #[trigger] steps[i] == target implies exists|j: int|
            0 <= j < i && #[trigger] steps[j] == before by {
            if i == 0 {
                assert(smash_transition(phase, outcomes[0]).1 == target);
            }
            assert(steps[i] == rest[i - 1]);
            if next == waiting {
                assert(smash_transition(phase, outcomes[0]).0 == waiting);
                assert(steps[0] == before);
            } else {
                let j = choose|j: int| 0 <= j < i - 1 && #[trigger] rest[j] == before;
                assert(steps[j + 1] == rest[j]);
            }
        }
    }
}

/// Whatever the file system answers, a wipe removes a file with truncation
/// only after a step that overwrote it, and overwrites a file only after the
/// step that checked it is the file inspected.
pub proof fn lemma_file_overwritten_before_removal(kind: TargetKind, outcomes: Seq<bool>)
    ensures
        forall|i: int|
            0 <= i < smash_steps(SmashPhase::Begin(kind), outcomes).len() && #[trigger] smash_steps(
                SmashPhase::Begin(kind),
                outcomes,
            )[i] == (SmashStep::Unlink { directory: false, truncate: true }) ==> exists|j: int|
                0 <= j < i && #[trigger] smash_steps(SmashPhase::Begin(kind), outcomes)[j] == SmashStep::Overwrite,
        forall|i: int|
            0 <= i < smash_steps(SmashPhase::Begin(kind), outcomes).len() && #[trigger] smash_steps(
                SmashPhase::Begin(kind),
                outcomes,
            )[i] == SmashStep::Overwrite ==> exists|j: int|
                0 <= j < i && #[trigger] smash_steps(SmashPhase::Begin(kind), outcomes)[j]
                    == SmashStep::CheckFileRace,
{
    assert forall|p: SmashPhase, ok: bool| #[trigger] smash_transition(p, ok).1 == (SmashStep::Unlink {
        directory: false,
        truncate: true,
    }) implies p == SmashPhase::Overwriting by {
        lemma_smash_order(p, ok);
    }
    assert forall|p: SmashPhase, ok: bool| #[trigger] smash_transition(p, ok).0 == SmashPhase::Overwriting implies smash_transition(
        p,
        ok,
    ).1 == SmashStep::Overwrite by {
        lemma_step_enters_its_phase(p, ok);
    }
    lemma_step_preceded(
        SmashPhase::Begin(kind),
        outcomes,
        SmashStep::Unlink { directory: false, truncate: true },
        SmashPhase::Overwriting,
        SmashStep::Overwrite,
    );
    assert forall|p: SmashPhase, ok: bool| #[trigger] smash_transition(p, ok).1 == SmashStep::Overwrite implies p
        == SmashPhase::CheckingFile by {
        lemma_smash_order(p, ok);
    }
    assert forall|p: SmashPhase, ok: bool| #[trigger] smash_transition(p, ok).0 == SmashPhase::CheckingFile implies smash_transition(
        p,
        ok,
    ).1 == SmashStep::CheckFileRace by {
        lemma_step_enters_its_phase(p, ok);
    }
    lemma_step_preceded(
        SmashPhase::Begin(kind),
        outcomes,
        SmashStep::Overwrite,
        SmashPhase::CheckingFile,
        SmashStep::CheckFileRace,
    );
}

} // verus!
