use vstd::prelude::*;
use crate::smash::{is_dot_name, is_dot_name_spec};

verus! {

/// An option of the command line.
#[derive(Clone, Copy, PartialEq, Eq, Structural, Debug)]
pub enum CliOption {
    /// `-d`: skip the names `.` and `..`.
    Dot,
    /// `-f`: fast mode, no synchronous writes.
    Fast,
    /// `-l`: one step less secure.
    Less,
    /// `-r`: recurse into directories.
    Recursive,
    /// `-s`: one step more secure.
    More,
    /// `-v`: more talkative.
    Verbose,
    /// `-z`: the last pass writes zeros.
    Zero,
}

/// The option an argument names: a dash and one of the letters d, f, l, r,
/// s, v, z in either case.
pub open spec fn option_of_spec(arg: Seq<u8>) -> Option<CliOption> {
    if arg.len() == 2 && arg[0] == 0x2D {
        let c = arg[1];
        if c == 0x64 || c == 0x44 {
            Some(CliOption::Dot)
        } else if c == 0x66 || c == 0x46 {
            Some(CliOption::Fast)
        } else if c == 0x6C || c == 0x4C {
            Some(CliOption::Less)
        } else if c == 0x72 || c == 0x52 {
            Some(CliOption::Recursive)
        } else if c == 0x73 || c == 0x53 {
            Some(CliOption::More)
        } else if c == 0x76 || c == 0x56 {
            Some(CliOption::Verbose)
        } else if c == 0x7A || c == 0x5A {
            Some(CliOption::Zero)
        } else {
            None
        }
    } else {
        None
    }
}

/// The option `arg` names, if any.
pub fn option_of(arg: &[u8]) -> (o: Option<CliOption>)
    ensures
        o == option_of_spec(arg@),
{
    if arg.len() == 2 && arg[0] == 0x2D {
        let c = arg[1];
        if c == 0x64 || c == 0x44 {
            Some(CliOption::Dot)
        } else if c == 0x66 || c == 0x46 {
            Some(CliOption::Fast)
        } else if c == 0x6C || c == 0x4C {
            Some(CliOption::Less)
        } else if c == 0x72 || c == 0x52 {
            Some(CliOption::Recursive)
        } else if c == 0x73 || c == 0x53 {
            Some(CliOption::More)
        } else if c == 0x76 || c == 0x56 {
            Some(CliOption::Verbose)
        } else if c == 0x7A || c == 0x5A {
            Some(CliOption::Zero)
        } else {
            None
        }
    } else {
        None
    }
}

/// The settings a run works with.
#[derive(Clone, Copy, PartialEq, Eq, Structural, Debug)]
pub struct Settings {
    /// Skip `.` and `..`.
    pub dot: bool,
    /// Write synchronously and read random data from the system's device.
    pub slow: bool,
    /// Recurse into directories.
    pub recursive: bool,
    /// The overwrite mode: 0 one pass, 1 two passes, 2 and above 38 passes.
    pub secure: i32,
    /// How talkative the run is.
    pub verbose: i32,
    /// The last pass writes zeros.
    pub zero: bool,
}

/// The settings before any option: secure mode, synchronous writes.
pub open spec fn default_settings() -> Settings {
    Settings { dot: false, slow: true, recursive: false, secure: 2, verbose: 0, zero: false }
}

/// The settings after one more option: `-l` lowers the mode but not below
/// 0, `-s` raises it, `-v` counts up.
pub open spec fn apply_option(s: Settings, o: CliOption) -> Settings {
    match o {
        CliOption::Dot => Settings { dot: true, ..s },
        CliOption::Fast => Settings { slow: false, ..s },
        CliOption::Less => if s.secure > 0 {
            Settings { secure: (s.secure - 1) as i32, ..s }
        } else {
            s
        },
        CliOption::Recursive => Settings { recursive: true, ..s },
        CliOption::More => Settings { secure: (s.secure + 1) as i32, ..s },
        CliOption::Verbose => Settings { verbose: (s.verbose + 1) as i32, ..s },
        CliOption::Zero => Settings { zero: true, ..s },
    }
}

/// How many arguments from index `from` on are options, one after another.
pub open spec fn leading_options(args: Seq<Seq<u8>>, from: int) -> nat
    decreases args.len() - from,
{
    if from < 0 || from >= args.len() || option_of_spec(args[from]) is None {
        0
    } else {
        1 + leading_options(args, from + 1)
    }
}

/// The settings after the options `args[1]` to `args[n]`.
pub open spec fn settings_after(args: Seq<Seq<u8>>, n: nat) -> Settings
    decreases n,
{
    if n == 0 {
        default_settings()
    } else {
        apply_option(settings_after(args, (n - 1) as nat), option_of_spec(args[n as int]).unwrap())
    }
}

/// The argument asks for help: it begins with `-h` or `--h`.
pub open spec fn asks_help(arg: Seq<u8>) -> bool {
    ||| arg.len() >= 2 && arg[0] == 0x2D && arg[1] == 0x68
    ||| arg.len() >= 3 && arg[0] == 0x2D && arg[1] == 0x2D && arg[2] == 0x68
}

/// What the command line asks for.
#[derive(Clone, Copy, PartialEq, Eq, Structural, Debug)]
pub enum CommandLine {
    /// Print the usage and exit with status 1.
    Help,
    /// Wipe the arguments from `first_file` on with these settings.
    Run { settings: Settings, first_file: usize },
}

/// The meaning of the command line `args` (the program's name first): help
/// when there is no argument, when the first asks for it, or when only
/// options are given; else the options up to the first non-option argument
/// and the names from there on.
pub open spec fn command_line_spec(args: Seq<Seq<u8>>) -> CommandLine {
    if args.len() < 2 || asks_help(args[1]) {
        CommandLine::Help
    } else {
        let n = leading_options(args, 1);
        if 1 + n == args.len() {
            CommandLine::Help
        } else {
            CommandLine::Run { settings: settings_after(args, n), first_file: (1 + n) as usize }
        }
    }
}

/// Reads the command line `args`.
pub fn parse_command_line(args: &Vec<Vec<u8>>) -> (c: CommandLine)
    requires
        args.len() < 0x7fff_0000,
    ensures
        c == command_line_spec(args.deep_view()),
{
    let ghost a = args.deep_view();
    assert(a.len() == args.len());
    assert(forall|k: int| 0 <= k < args.len() ==> #[trigger] a[k] == args[k]@);
    if args.len() < 2 {
        return CommandLine::Help;
    }
    let first = args[1].as_slice();
    let help = (first.len() >= 2 && first[0] == 0x2D && first[1] == 0x68) || (first.len() >= 3 && first[0]
        == 0x2D && first[1] == 0x2D && first[2] == 0x68);
    if help {
        return CommandLine::Help;
    }
    let mut settings = Settings {
        dot: false,
        slow: true,
        recursive: false,
        secure: 2,
        verbose: 0,
        zero: false,
    };
    let mut i: usize = 1;
    let mut stop = false;
    while !stop && i < args.len()
        invariant
            a == args.deep_view(),
            a.len() == args.len(),
            args.len() < 0x7fff_0000,
            1 <= i <= args.len(),
            leading_options(a, 1) == (i - 1) + leading_options(a, i as int),
            settings == settings_after(a, (i - 1) as nat),
            0 <= settings.secure <= i + 1,
            0 <= settings.verbose <= i - 1,
            stop ==> leading_options(a, i as int) == 0,
        decreases (args.len() - i) * 2 + (if stop { 0int } else { 1int }),
    {
        assert(a[i as int] == args[i as int]@);
        match option_of(args[i].as_slice()) {
            Some(o) => {
                settings = match o {
                    CliOption::Dot => Settings { dot: true, ..settings },
                    CliOption::Fast => Settings { slow: false, ..settings },
                    CliOption::Less => if settings.secure > 0 {
                        Settings { secure: settings.secure - 1, ..settings }
                    } else {
                        settings
                    },
                    CliOption::Recursive => Settings { recursive: true, ..settings },
                    CliOption::More => Settings { secure: settings.secure + 1, ..settings },
                    CliOption::Verbose => Settings { verbose: settings.verbose + 1, ..settings },
                    CliOption::Zero => Settings { zero: true, ..settings },
                };
                i = i + 1;
            },
            None => {
                stop = true;
            },
        }
    }
    proof {
        if !stop {
            assert(leading_options(a, i as int) == 0);
        }
    }
    if i == args.len() {
        CommandLine::Help
    } else {
        CommandLine::Run { settings, first_file: i }
    }
}

/// How many arguments after the program's name are options, one after
/// another: the options read before the command line is judged.
pub fn leading_option_count(args: &Vec<Vec<u8>>) -> (n: usize)
    ensures
        n == leading_options(args.deep_view(), 1),
        args.len() >= 1 ==> 1 + n <= args.len(),
{
    let ghost a = args.deep_view();
    assert(forall|k: int| 0 <= k < args.len() ==> #[trigger] a[k] == args[k]@);
    if args.len() < 1 {
        return 0;
    }
    let mut i: usize = 1;
    let mut stop = false;
    while !stop && i < args.len()
        invariant
            a == args.deep_view(),
            a.len() == args.len(),
            forall|k: int| 0 <= k < args.len() ==> #[trigger] a[k] == args[k]@,
            1 <= i <= args.len(),
            leading_options(a, 1) == (i - 1) + leading_options(a, i as int),
            stop ==> leading_options(a, i as int) == 0,
        decreases (args.len() - i) * 2 + (if stop { 0int } else { 1int }),
    {
        match option_of(args[i].as_slice()) {
            Some(_) => {
                i = i + 1;
            },
            None => {
                stop = true;
            },
        }
    }
    proof {
        if !stop {
            assert(leading_options(a, i as int) == 0);
        }
    }
    i - 1
}

/// What to do with one name of the command line.
#[derive(Clone, Copy, PartialEq, Eq, Structural, Debug)]
pub enum FileAction {
    /// The root directory: refuse it and stop the run with an error.
    RefuseRoot,
    /// A dot entry under `-d`: pass over it.
    Skip,
    /// Wipe it.
    Wipe,
}

/// Decides on a name of the command line: `/` is never wiped; with `dot`
/// set, `.` and `..` are passed over.
pub fn file_action(dot: bool, name: &[u8]) -> (action: FileAction)
    ensures
        name@ == seq![0x2Fu8] ==> action == FileAction::RefuseRoot,
        name@ != seq![0x2Fu8] && dot && is_dot_name_spec(name@) ==> action == FileAction::Skip,
        name@ != seq![0x2Fu8] && !(dot && is_dot_name_spec(name@)) ==> action == FileAction::Wipe,
{
    if name.len() == 1 && name[0] == 0x2F {
        assert(name@ =~= seq![0x2Fu8]);
        FileAction::RefuseRoot
    } else if dot && is_dot_name(name) {
        FileAction::Skip
    } else {
        FileAction::Wipe
    }
}

/// How the verbose mode names the overwrite mode.
#[derive(Clone, Copy, PartialEq, Eq, Structural, Debug)]
pub enum ModeName {
    /// Mode 0: one pass.
    OnePass,
    /// Mode 1: two passes, 0xFF then random data or zeros.
    TwoPasses,
    /// Any other mode: the 38 special passes.
    Secure,
}

/// The name of the overwrite mode `secure`.
pub fn mode_name(secure: i32) -> (m: ModeName)
    ensures
        secure == 0 ==> m == ModeName::OnePass,
        secure == 1 ==> m == ModeName::TwoPasses,
        secure != 0 && secure != 1 ==> m == ModeName::Secure,
{
    if secure == 0 {
        ModeName::OnePass
    } else if secure == 1 {
        ModeName::TwoPasses
    } else {
        ModeName::Secure
    }
}

/// The exit status of a run with `errors` failed names: 1 if any failed,
/// else 0.
pub fn exit_status(errors: u64) -> (status: i32)
    ensures
        status == (if errors > 0 { 1i32 } else { 0i32 }),
{
    if errors > 0 {
        1
    } else {
        0
    }
}

proof fn lemma_settings_bounds(args: Seq<Seq<u8>>, n: nat)
    requires
        n < 0x7fff_0000,
    ensures
        0 <= settings_after(args, n).secure <= 2 + n,
        0 <= settings_after(args, n).verbose <= n,
    decreases n,
{
    if n > 0 {
        lemma_settings_bounds(args, (n - 1) as nat);
    }
}

proof fn lemma_leading_options_bound(args: Seq<Seq<u8>>, from: int)
    requires
        0 <= from <= args.len(),
    ensures
        from + leading_options(args, from) <= args.len(),
    decreases args.len() - from,
{
    if from < args.len() && option_of_spec(args[from]) is Some {
        lemma_leading_options_bound(args, from + 1);
    }
}

/// Lowering the mode with `-l` stops at 0: whatever the options, a run's
/// mode is at least 0, and at most 2 plus the number of options; the first
/// name to wipe comes after the options, within the arguments.
pub proof fn lemma_run_settings(args: Seq<Seq<u8>>)
    requires
        args.len() < 0x7fff_0000,
    ensures
        command_line_spec(args) matches CommandLine::Run { settings, first_file } ==> {
            &&& 0 <= settings.secure <= 1 + first_file
            &&& 0 <= settings.verbose
            &&& 1 <= first_file < args.len()
        },
{
    if args.len() >= 2 {
        lemma_leading_options_bound(args, 1);
        lemma_settings_bounds(args, leading_options(args, 1));
    }
}

/// Without a name to wipe the command line asks for help: with no
/// argument, with options only, or with a first argument that begins with
/// `-h` or `--h`.
pub proof fn lemma_help_without_names(args: Seq<Seq<u8>>)
    ensures
        args.len() < 2 ==> command_line_spec(args) == CommandLine::Help,
        args.len() >= 2 && asks_help(args[1]) ==> command_line_spec(args) == CommandLine::Help,
        args.len() >= 2 && leading_options(args, 1) == args.len() - 1 ==> command_line_spec(args)
            == CommandLine::Help,
{
}

/// The lower-case letter that names an option after the dash.
pub open spec fn option_letter(o: CliOption) -> u8 {
    match o {
        CliOption::Dot => 0x64,
        CliOption::Fast => 0x66,
        CliOption::Less => 0x6C,
        CliOption::Recursive => 0x72,
        CliOption::More => 0x73,
        CliOption::Verbose => 0x76,
        CliOption::Zero => 0x7A,
    }
}

/// Each option is named by a dash and its letter, in lower or in upper
/// case, and by nothing else: `-d`/`-D` is `Dot`, `-f`/`-F` is `Fast`,
/// `-l`/`-L` is `Less`, `-r`/`-R` is `Recursive`, `-s`/`-S` is `More`,
/// `-v`/`-V` is `Verbose`, `-z`/`-Z` is `Zero`.
pub proof fn lemma_option_names(o: CliOption, arg: Seq<u8>)
    ensures
        option_of_spec(seq![0x2Du8, option_letter(o)]) == Some(o),
        option_of_spec(seq![0x2Du8, (option_letter(o) - 0x20) as u8]) == Some(o),
        option_of_spec(arg) == Some(o) <==> (arg == seq![0x2Du8, option_letter(o)] || arg == seq![
            0x2Du8,
            (option_letter(o) - 0x20) as u8,
        ]),
{
    if option_of_spec(arg) == Some(o) {
        if arg[1] == option_letter(o) {
            assert(arg =~= seq![0x2Du8, option_letter(o)]);
        } else {
            assert(arg =~= seq![0x2Du8, (option_letter(o) - 0x20) as u8]);
        }
    }
}

/// Each option changes its own setting and no other: `-d` sets `dot`, `-f`
/// clears `slow`, `-r` sets `recursive`, `-z` sets `zero`, `-v` adds one to
/// `verbose`, `-s` adds one to the mode and `-l` takes one from it unless
/// it is 0; every other setting keeps its value.
pub proof fn lemma_option_effects(s: Settings, o: CliOption)
    requires
        s.secure < i32::MAX,
        s.verbose < i32::MAX,
    ensures
        apply_option(s, o).dot == (s.dot || o == CliOption::Dot),
        apply_option(s, o).slow == (s.slow && o != CliOption::Fast),
        apply_option(s, o).recursive == (s.recursive || o == CliOption::Recursive),
        apply_option(s, o).zero == (s.zero || o == CliOption::Zero),
        apply_option(s, o).verbose == (if o == CliOption::Verbose {
            s.verbose + 1
        } else {
            s.verbose as int
        }),
        apply_option(s, o).secure == (if o == CliOption::More {
            s.secure + 1
        } else if o == CliOption::Less && s.secure > 0 {
            s.secure - 1
        } else {
            s.secure as int
        }),
{
}

/// How many of the arguments `args[1]` to `args[n]` name the option `o`.
pub open spec fn option_count(args: Seq<Seq<u8>>, n: int, o: CliOption) -> nat
    decreases n,
{
    if n < 1 {
        0
    } else {
        option_count(args, n - 1, o) + (if option_of_spec(args[n]) == Some(o) {
            1nat
        } else {
            0nat
        })
    }
}

/// Some argument from `args[1]` to `args[n]` names the option `o`.
pub open spec fn names_option(args: Seq<Seq<u8>>, n: int, o: CliOption) -> bool {
    exists|i: int| 1 <= i <= n && #[trigger] option_of_spec(args[i]) == Some(o)
}

proof fn lemma_flags_after(args: Seq<Seq<u8>>, n: nat)
    requires
        n < 0x7fff_0000,
        forall|i: int| 1 <= i <= n ==> #[trigger] option_of_spec(args[i]) is Some,
    ensures
        settings_after(args, n).slow == !names_option(args, n as int, CliOption::Fast),
        settings_after(args, n).dot == names_option(args, n as int, CliOption::Dot),
        settings_after(args, n).recursive == names_option(args, n as int, CliOption::Recursive),
        settings_after(args, n).zero == names_option(args, n as int, CliOption::Zero),
        settings_after(args, n).verbose == option_count(args, n as int, CliOption::Verbose),
    decreases n,
{
    if n > 0 {
        let m = (n - 1) as nat;
        lemma_flags_after(args, m);
        lemma_settings_bounds(args, m);
        let o = option_of_spec(args[n as int]).unwrap();
        assert(option_of_spec(args[n as int]) is Some);
        lemma_option_effects(settings_after(args, m), o);
        assert forall|p: CliOption| #[trigger] names_option(args, n as int, p) == (names_option(args, m as int, p)
            || o == p) by {
            if names_option(args, n as int, p) {
                let i = choose|i: int| 1 <= i <= n && #[trigger] option_of_spec(args[i]) == Some(p);
                if i < n {
                    assert(names_option(args, m as int, p));
                }
            }
            if names_option(args, m as int, p) {
                let i = choose|i: int| 1 <= i <= m && #[trigger] option_of_spec(args[i]) == Some(p);
                assert(1 <= i <= n && option_of_spec(args[i]) == Some(p));
            }
            if o == p {
                assert(option_of_spec(args[n as int]) == Some(p));
            }
        }
        assert(names_option(args, n as int, CliOption::Fast) == (names_option(args, m as int, CliOption::Fast)
            || o == CliOption::Fast));
        assert(names_option(args, n as int, CliOption::Dot) == (names_option(args, m as int, CliOption::Dot)
            || o == CliOption::Dot));
        assert(names_option(args, n as int, CliOption::Recursive) == (names_option(
            args,
            m as int,
            CliOption::Recursive,
        ) || o == CliOption::Recursive));
        assert(names_option(args, n as int, CliOption::Zero) == (names_option(args, m as int, CliOption::Zero)
            || o == CliOption::Zero));
    }
}

proof fn lemma_leading_are_options(args: Seq<Seq<u8>>, from: int)
    requires
        0 <= from,
    ensures
        forall|i: int| from <= i < from + leading_options(args, from) ==> #[trigger] option_of_spec(args[i]) is Some,
    decreases args.len() - from,
{
    if from < args.len() && option_of_spec(args[from]) is Some {
        lemma_leading_are_options(args, from + 1);
    }
}

/// The switches of a run are those the options before the first name ask
/// for: synchronous writes unless some option is `-f`, skipping `.` and
/// `..` exactly when some option is `-d`, recursion exactly when some
/// option is `-r`, and a final zero pass exactly when some option is `-z`;
/// `-l`, `-s` and `-v` change none of them. The run is as talkative as
/// the number of `-v` options.
pub proof fn lemma_run_switches(args: Seq<Seq<u8>>)
    requires
        args.len() < 0x7fff_0000,
    ensures
        command_line_spec(args) matches CommandLine::Run { settings, first_file } ==> {
            &&& settings.slow == !names_option(args, first_file - 1, CliOption::Fast)
            &&& settings.dot == names_option(args, first_file - 1, CliOption::Dot)
            &&& settings.recursive == names_option(args, first_file - 1, CliOption::Recursive)
            &&& settings.zero == names_option(args, first_file - 1, CliOption::Zero)
            &&& settings.verbose == option_count(args, first_file - 1, CliOption::Verbose)
        },
{
    if args.len() >= 2 && !asks_help(args[1]) {
        let n = leading_options(args, 1);
        lemma_leading_options_bound(args, 1);
        lemma_leading_are_options(args, 1);
        lemma_flags_after(args, n);
    }
}

/// A run wipes from the first argument that is not an option: every
/// argument before it is an option, it is not one, and the first argument
/// does not ask for help.
pub proof fn lemma_run_first_name(args: Seq<Seq<u8>>)
    requires
        args.len() < 0x7fff_0000,
    ensures
        command_line_spec(args) matches CommandLine::Run { settings, first_file } ==> {
            &&& forall|i: int| 1 <= i < first_file ==> #[trigger] option_of_spec(args[i]) is Some
            &&& option_of_spec(args[first_file as int]) is None
            &&& !asks_help(args[1])
        },
{
    if args.len() >= 2 && !asks_help(args[1]) {
        lemma_leading_options_bound(args, 1);
        lemma_leading_are_options(args, 1);
        lemma_leading_stop(args, 1);
    }
}

proof fn lemma_leading_stop(args: Seq<Seq<u8>>, from: int)
    requires
        0 <= from <= args.len(),
    ensures
        from + leading_options(args, from) < args.len() ==> option_of_spec(
            args[from + leading_options(args, from)],
        ) is None,
    decreases args.len() - from,
{
    if from < args.len() && option_of_spec(args[from]) is Some {
        lemma_leading_stop(args, from + 1);
    }
}

} // verus!
