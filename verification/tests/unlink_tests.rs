use secure_delete::random::{basename_start, has_ascii_basename, letter_of, randomize_with, sdel_random_filename};
use secure_delete::unlink::{UnlinkStep, UnlinkWarning, Unlinker};
use secure_delete::wipe::{inode_template, InodeWipe};

fn is_lower(b: u8) -> bool {
    (b'a'..=b'z').contains(&b)
}

#[test]
fn random_filename_keeps_directory_and_dots() {
    let mut name = b"some.dir/sub/file.tar.gz".to_vec();
    sdel_random_filename(&mut name).unwrap();
    assert_eq!(name.len(), 24);
    assert_eq!(&name[..13], b"some.dir/sub/");
    for (i, b) in name.iter().enumerate().skip(13) {
        if b"some.dir/sub/file.tar.gz"[i] == b'.' {
            assert_eq!(*b, b'.');
        } else {
            assert!(is_lower(*b));
        }
    }
}

#[test]
fn random_filename_without_separator() {
    let mut name = b"ABC.D".to_vec();
    sdel_random_filename(&mut name).unwrap();
    assert_eq!(name[3], b'.');
    assert!(is_lower(name[0]) && is_lower(name[1]) && is_lower(name[2]) && is_lower(name[4]));
}

#[test]
fn random_filename_of_dots_is_unchanged() {
    let mut name = b"dir/..".to_vec();
    sdel_random_filename(&mut name).unwrap();
    assert_eq!(name, b"dir/..".to_vec());
}

#[test]
fn random_filename_trailing_separator() {
    let mut name = b"dir/".to_vec();
    sdel_random_filename(&mut name).unwrap();
    assert_eq!(name, b"dir/".to_vec());
}

#[test]
fn basename_helpers() {
    assert_eq!(basename_start(b"a/b/cd"), 4);
    assert_eq!(basename_start(b"cd"), 0);
    assert!(has_ascii_basename("é/abc".as_bytes()));
    assert!(!has_ascii_basename("abc/é".as_bytes()));
}

fn run(unlinker: &mut Unlinker, outcomes: &[bool]) -> Vec<UnlinkStep> {
    let mut steps = Vec::new();
    let mut last = true;
    let mut i = 0;
    loop {
        let step = unlinker.step(last);
        steps.push(step);
        if let UnlinkStep::Finish { .. } = step {
            return steps;
        }
        last = outcomes[i];
        i += 1;
    }
}

#[test]
fn unlink_file_all_succeeds() {
    let mut u = Unlinker::new(false, true, b"dir/name.txt".to_vec());
    // truncate, probe (free), rename ok, remove ok
    let steps = run(&mut u, &[true, false, true, true]);
    assert_eq!(
        steps,
        vec![
            UnlinkStep::Truncate,
            UnlinkStep::Probe,
            UnlinkStep::Rename,
            UnlinkStep::Remove { candidate: true },
            UnlinkStep::Finish { removed: true }
        ]
    );
}

#[test]
fn unlink_directory_never_truncates() {
    let mut u = Unlinker::new(true, true, b"dir/name.txt".to_vec());
    let steps = run(&mut u, &[false, true, true]);
    assert_eq!(steps[0], UnlinkStep::Probe);
    assert_eq!(*steps.last().unwrap(), UnlinkStep::Finish { removed: true });
}

#[test]
fn unlink_gives_up_after_101_taken_names() {
    let mut u = Unlinker::new(false, false, b"dir/name.txt".to_vec());
    let mut outcomes = vec![true; 101];
    outcomes.push(true); // after the warning
    outcomes.push(true); // removal of the original name succeeds
    let steps = run(&mut u, &outcomes);
    let probes = steps.iter().filter(|s| **s == UnlinkStep::Probe).count();
    assert_eq!(probes, 101);
    assert_eq!(steps[101], UnlinkStep::Warn(UnlinkWarning::NoFreeName));
    assert_eq!(steps[102], UnlinkStep::Remove { candidate: false });
    assert_eq!(steps[103], UnlinkStep::Finish { removed: true });
}

#[test]
fn unlink_rename_failure_removes_original() {
    let mut u = Unlinker::new(false, false, b"dir/name.txt".to_vec());
    let steps = run(&mut u, &[false, false, true, true]);
    assert_eq!(
        steps,
        vec![
            UnlinkStep::Probe,
            UnlinkStep::Rename,
            UnlinkStep::Warn(UnlinkWarning::RenameFailed),
            UnlinkStep::Remove { candidate: false },
            UnlinkStep::Finish { removed: true }
        ]
    );
}

#[test]
fn unlink_remove_failure_restores_name() {
    let mut u = Unlinker::new(false, false, b"dir/name.txt".to_vec());
    let steps = run(&mut u, &[false, true, false, true, true]);
    assert_eq!(
        steps,
        vec![
            UnlinkStep::Probe,
            UnlinkStep::Rename,
            UnlinkStep::Remove { candidate: true },
            UnlinkStep::Warn(UnlinkWarning::RemoveFailed),
            UnlinkStep::Restore { candidate: true },
            UnlinkStep::Finish { removed: false }
        ]
    );
}

#[test]
fn inode_template_values() {
    assert_eq!(inode_template(b"/tmp"), b"/tmp/xxxxxxxx.xxx".to_vec());
    assert_eq!(inode_template(b"/tmp/"), b"/tmp/xxxxxxxx.xxx".to_vec());
    assert_eq!(inode_template(b""), b"/xxxxxxxx.xxx".to_vec());
}

#[test]
fn inode_wipe_stops_after_five_failures() {
    let mut w = InodeWipe::new();
    let mut attempts = 0;
    while w.keep_going() {
        w.record(attempts % 2 == 0 && attempts < 6);
        attempts += 1;
    }
    assert_eq!(w.created, 3);
    assert_eq!(w.failed, 5);
    assert!(!w.warns_incomplete());
}

#[test]
fn random_filename_twice_keeps_directory() {
    let original = b"a.b/c/d.e".to_vec();
    let mut name = original.clone();
    sdel_random_filename(&mut name).unwrap();
    assert!(has_ascii_basename(&name));
    sdel_random_filename(&mut name).unwrap();
    assert_eq!(&name[..6], b"a.b/c/");
    assert_eq!(name[7], b'.');
    assert!(is_lower(name[6]) && is_lower(name[8]));
}

#[test]
fn letters_of_drawn_bytes() {
    assert_eq!(letter_of(0), b'a');
    assert_eq!(letter_of(25), b'z');
    assert_eq!(letter_of(26), b'a');
    assert_eq!(letter_of(255), b'a' + (255 % 26));
}

#[test]
fn randomize_with_uses_the_drawn_bytes() {
    let mut name = b"d/ab.c".to_vec();
    randomize_with(&mut name, &[0, 0, 1, 2, 3, 4]);
    assert_eq!(name, b"d/bc.e".to_vec());
}

#[test]
fn unlinker_candidates_are_randomized_original() {
    let mut u = Unlinker::new(false, false, b"dir/x.y".to_vec());
    assert_eq!(u.candidate, b"dir/x.y".to_vec());
    u.next_candidate().unwrap();
    u.next_candidate().unwrap();
    assert_eq!(u.original, b"dir/x.y".to_vec());
    assert_eq!(&u.candidate[..4], b"dir/");
    assert_eq!(u.candidate[5], b'.');
    assert!(is_lower(u.candidate[4]) && is_lower(u.candidate[6]));
}
