use secure_delete::cli::{
    exit_status, file_action, leading_option_count, mode_name, option_of, parse_command_line, CliOption, CommandLine,
    FileAction, ModeName, Settings,
};
use secure_delete::session::Session;
use secure_delete::smash::{
    bufsize_after_target, classify_target, overwrite_request, OverwriteRequest, enlarged_bufsize, is_dot_name, raced, FileId, TargetKind, BLOCKSIZE,
};

fn args(list: &[&str]) -> Vec<Vec<u8>> {
    list.iter().map(|s| s.as_bytes().to_vec()).collect()
}

#[test]
fn help_without_arguments() {
    assert_eq!(parse_command_line(&args(&["srm"])), CommandLine::Help);
    assert_eq!(parse_command_line(&args(&["srm", "-h"])), CommandLine::Help);
    assert_eq!(parse_command_line(&args(&["srm", "--help", "x"])), CommandLine::Help);
    assert_eq!(parse_command_line(&args(&["srm", "-v", "-z"])), CommandLine::Help);
}

#[test]
fn default_settings_are_secure() {
    let c = parse_command_line(&args(&["srm", "file"]));
    assert_eq!(
        c,
        CommandLine::Run {
            settings: Settings { dot: false, slow: true, recursive: false, secure: 2, verbose: 0, zero: false },
            first_file: 1
        }
    );
}

#[test]
fn options_until_first_name() {
    let c = parse_command_line(&args(&["srm", "-D", "-f", "-R", "-v", "-V", "-z", "a", "-l", "b"]));
    assert_eq!(
        c,
        CommandLine::Run {
            settings: Settings { dot: true, slow: false, recursive: true, secure: 2, verbose: 2, zero: true },
            first_file: 7
        }
    );
}

#[test]
fn lessening_stops_at_zero() {
    let c = parse_command_line(&args(&["srm", "-l", "-l", "-L", "f"]));
    match c {
        CommandLine::Run { settings, first_file } => {
            assert_eq!(settings.secure, 0);
            assert_eq!(first_file, 4);
        }
        CommandLine::Help => panic!("expected a run"),
    }
    let c = parse_command_line(&args(&["srm", "-l", "f"]));
    match c {
        CommandLine::Run { settings, .. } => assert_eq!(settings.secure, 1),
        CommandLine::Help => panic!("expected a run"),
    }
    let c = parse_command_line(&args(&["srm", "-s", "f"]));
    match c {
        CommandLine::Run { settings, .. } => assert_eq!(settings.secure, 3),
        CommandLine::Help => panic!("expected a run"),
    }
}

#[test]
fn option_names() {
    assert_eq!(option_of(b"-d"), Some(CliOption::Dot));
    assert_eq!(option_of(b"-Z"), Some(CliOption::Zero));
    assert_eq!(option_of(b"-x"), None);
    assert_eq!(option_of(b"-dd"), None);
    assert_eq!(option_of(b"d"), None);
}

#[test]
fn root_is_refused_and_dots_skipped() {
    assert_eq!(file_action(false, b"/"), FileAction::RefuseRoot);
    assert_eq!(file_action(true, b"/"), FileAction::RefuseRoot);
    assert_eq!(file_action(true, b"."), FileAction::Skip);
    assert_eq!(file_action(true, b".."), FileAction::Skip);
    assert_eq!(file_action(false, b".."), FileAction::Wipe);
    assert_eq!(file_action(true, b"..."), FileAction::Wipe);
    assert_eq!(file_action(true, b"/tmp"), FileAction::Wipe);
}

#[test]
fn mode_names_and_exit_status() {
    assert_eq!(mode_name(0), ModeName::OnePass);
    assert_eq!(mode_name(1), ModeName::TwoPasses);
    assert_eq!(mode_name(2), ModeName::Secure);
    assert_eq!(mode_name(5), ModeName::Secure);
    assert_eq!(exit_status(0), 0);
    assert_eq!(exit_status(3), 1);
}

#[test]
fn bufsize_enlargement() {
    assert_eq!(BLOCKSIZE % 3, 0);
    assert_eq!(enlarged_bufsize(BLOCKSIZE, 4096), BLOCKSIZE);
    assert_eq!(enlarged_bufsize(BLOCKSIZE, 40000), 40002);
    assert_eq!(enlarged_bufsize(BLOCKSIZE, 65532), 65535);
    assert_eq!(enlarged_bufsize(BLOCKSIZE, 65533), 65535);
    assert_eq!(enlarged_bufsize(BLOCKSIZE, 1 << 20), 65535);
}

#[test]
fn target_classification() {
    assert_eq!(classify_target(true, false, 3, false), TargetKind::Hardlinked { extra_links: 2 });
    assert_eq!(classify_target(true, false, 1, true), TargetKind::Overwrite);
    assert_eq!(classify_target(false, true, 2, true), TargetKind::Recurse);
    assert_eq!(classify_target(false, true, 2, false), TargetKind::RefuseDirectory);
    assert_eq!(classify_target(false, false, 1, true), TargetKind::UnlinkOnly);
}

#[test]
fn race_detection() {
    let a = FileId { dev: 1, ino: 10 };
    let b = FileId { dev: 1, ino: 11 };
    assert!(!raced(a, a, true, true));
    assert!(raced(a, b, true, true));
    assert!(raced(a, a, false, true));
    assert!(!raced(a, a, false, false));
}

#[test]
fn dot_names() {
    assert!(is_dot_name(b"."));
    assert!(is_dot_name(b".."));
    assert!(!is_dot_name(b".a"));
    assert!(!is_dot_name(b""));
}

#[test]
fn session_init_and_finish() {
    let mut s = Session::new();
    assert!(s.overwrite_unprepared());
    assert!(s.init(true));
    s.device_opened(true);
    assert!(s.device);
    assert!(!s.overwrite_unprepared());
    assert!(s.finish());
    assert!(!s.finish());
}

#[test]
fn bufsize_untouched_by_hardlinked_files() {
    assert_eq!(bufsize_after_target(TargetKind::Hardlinked { extra_links: 1 }, BLOCKSIZE, 65536), BLOCKSIZE);
    assert_eq!(bufsize_after_target(TargetKind::Overwrite, BLOCKSIZE, 65536), 65535);
}

#[test]
fn leading_options_counted_before_judging() {
    assert_eq!(leading_option_count(&args(&["srm", "-f", "-v"])), 2);
    assert_eq!(leading_option_count(&args(&["srm", "-f", "x", "-v"])), 1);
    assert_eq!(leading_option_count(&args(&["srm"])), 0);
    assert_eq!(leading_option_count(&args(&[])), 0);
    assert_eq!(leading_option_count(&args(&["srm", "-h"])), 0);
}

#[test]
fn overwrite_request_covers_whole_file() {
    assert_eq!(
        overwrite_request(2, 32769, 1000, true),
        OverwriteRequest { mode: 2, start: 0, bufsize: 32769, length: 1000, zero: true }
    );
}
