use secure_delete::smash::{SmashFailure, SmashStep, Smasher, TargetKind};

fn run(kind: TargetKind, outcomes: &[bool]) -> Vec<SmashStep> {
    let mut s = Smasher::new(kind);
    let mut steps = Vec::new();
    let mut ok = true;
    let mut i = 0;
    loop {
        let step = s.step(ok);
        steps.push(step);
        if matches!(step, SmashStep::Fail(_) | SmashStep::Succeed) {
            return steps;
        }
        ok = outcomes[i];
        i += 1;
    }
}

#[test]
fn smash_regular_file() {
    let steps = run(TargetKind::Overwrite, &[true, true, true, true, true]);
    assert_eq!(
        steps,
        vec![
            SmashStep::OpenFile,
            SmashStep::Restat,
            SmashStep::CheckFileRace,
            SmashStep::Overwrite,
            SmashStep::Unlink { directory: false, truncate: true },
            SmashStep::Succeed
        ]
    );
}

#[test]
fn smash_file_open_retry() {
    let steps = run(TargetKind::Overwrite, &[false, true, false, false]);
    assert_eq!(
        steps,
        vec![
            SmashStep::OpenFile,
            SmashStep::ChmodFile,
            SmashStep::OpenFile,
            SmashStep::Fail(SmashFailure::OpenFailed)
        ]
    );
}

#[test]
fn smash_file_raced() {
    let steps = run(TargetKind::Overwrite, &[true, true, false]);
    assert_eq!(*steps.last().unwrap(), SmashStep::Fail(SmashFailure::FileRaced));
    assert!(!steps.contains(&SmashStep::Overwrite));
}

#[test]
fn smash_directory_recursive() {
    let steps = run(TargetKind::Recurse, &[false, true, true, true, false, true, true, true, true, true]);
    assert_eq!(
        steps,
        vec![
            SmashStep::EnterDir,
            SmashStep::ChmodDir,
            SmashStep::EnterDir,
            SmashStep::CheckDirRace,
            SmashStep::OpenDir,
            SmashStep::ChmodDot,
            SmashStep::OpenDir,
            SmashStep::WipeEntries,
            SmashStep::LeaveDir,
            SmashStep::Unlink { directory: true, truncate: false },
            SmashStep::Succeed
        ]
    );
}

#[test]
fn smash_refusals() {
    assert_eq!(
        run(TargetKind::Hardlinked { extra_links: 2 }, &[]),
        vec![SmashStep::Fail(SmashFailure::Hardlinked { extra_links: 2 })]
    );
    assert_eq!(run(TargetKind::RefuseDirectory, &[]), vec![SmashStep::Fail(SmashFailure::IsDirectory)]);
}

#[test]
fn smash_special_file_unlink_only() {
    let steps = run(TargetKind::UnlinkOnly, &[true, false]);
    assert_eq!(
        steps,
        vec![
            SmashStep::WarnNotRegular,
            SmashStep::Unlink { directory: false, truncate: false },
            SmashStep::Fail(SmashFailure::UnlinkFailed)
        ]
    );
}
