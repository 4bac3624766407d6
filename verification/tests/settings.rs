use eventwatch::args::{run, set_or_error, Args, Interval, LevelFilter, LogSetup, RunMode, Shell, Task};
use eventwatch::error::Error;
use eventwatch::event::EventType;

#[test]
fn test_args() {
    let args = Args::default();
    assert_eq!(args.events, EventType::iter());
    assert_eq!(args.paths, vec![b".".to_vec()]);
}

#[test]
fn other_defaults() {
    let args = Args::default();
    assert_eq!(args.generator, None);
    assert_eq!(args.verbose, 1);
    assert_eq!(args.poll_interval, Interval { secs: 1, nanos: 0 });
    assert!(!args.recurive && !args.tty && !args.send_stdin);
    assert_eq!(args.run_mode, RunMode::Single);
    assert_eq!(args.run_mode.as_str(), "single");
    assert_eq!(args.command, None);
    assert_eq!(args.excludes, None);
    assert_eq!(args.includes, None);
}

#[test]
fn log_level_follows_verbose() {
    let levels = [
        LevelFilter::Off,
        LevelFilter::Error,
        LevelFilter::Warn,
        LevelFilter::Info,
        LevelFilter::Debug,
        LevelFilter::Trace,
    ];
    for (verbose, own) in levels.into_iter().enumerate() {
        let args = Args { verbose: verbose as u8, ..Args::default() };
        assert_eq!(args.init_log(), Ok(LogSetup { own, others: LevelFilter::Error }));
    }
}

#[test]
fn log_level_out_of_range() {
    for verbose in [6u8, 10, 255] {
        let args = Args { verbose, ..Args::default() };
        let e = args.init_log().unwrap_err();
        assert_eq!(e, Error::InvalidLogLevel(verbose));
        assert_eq!(e.message(), format!("invalid log level {} number of verbose", verbose));
    }
}

#[test]
fn messages_of_errors() {
    assert_eq!(Error::Glob("g".to_string()).message(), "g");
    assert_eq!(Error::GlobSet("s".to_string()).message(), "s");
    assert_eq!(Error::Outside("o".to_string()).message(), "o");
    assert_eq!(
        Error::UnparsableCommand("a 'b".to_string()).message(),
        "Unable to parse the command: a 'b"
    );
    assert_eq!(Error::HangUp.message(), "events hang up");
}

#[test]
fn run_refuses_bad_level_before_completions() {
    let args = Args { verbose: 6, generator: Some(Shell::Bash), ..Args::default() };
    assert!(matches!(run(&args), Err(Error::InvalidLogLevel(6))));
}

#[test]
fn run_prefers_completions() {
    let args = Args {
        generator: Some(Shell::Zsh),
        command: Some("ls".to_string()),
        ..Args::default()
    };
    assert!(matches!(run(&args).unwrap().task, Task::Complete(Shell::Zsh)));
}

#[test]
fn run_without_command_reports() {
    let plan = run(&Args { verbose: 3, ..Args::default() }).unwrap();
    assert_eq!(plan.log, LogSetup { own: LevelFilter::Info, others: LevelFilter::Error });
    assert!(matches!(plan.task, Task::Report));
}

#[test]
fn run_with_command_runs_it() {
    let args = Args {
        command: Some("ls -l".to_string()),
        tty: true,
        send_stdin: true,
        ..Args::default()
    };
    match run(&args).unwrap().task {
        Task::RunSingle(process) => {
            assert_eq!(process.command, "ls -l");
            assert!(process.tty && process.send_stdin);
        }
        other => panic!("{:?}", other),
    }
}

#[test]
fn outcome_of_a_whole_set() {
    let set = globset::GlobSetBuilder::new().build().unwrap();
    assert!(matches!(set_or_error(Ok(set)), Ok(Some(set)) if set.is_empty()));
    assert_eq!(
        set_or_error(Err("too big".to_string())).unwrap_err(),
        Error::GlobSet("too big".to_string())
    );
}
