//! The settings of a run and what follows from them.
use crate::error::Error;
use crate::event::{all_event_types, law_list_of_event_types, EventType};
use crate::globs::{
    add_glob, any_rule_matches, builder_rules, compile_glob, compile_set, empty_builder, glob_error,
    glob_matches, glob_rule, rule_of, set_rules, set_was_refused, GlobRule,
};
use crate::process::ProcessArgs;
use crate::text::texts;
use globset::{Glob, GlobSet, GlobSetBuilder};
use vstd::prelude::*;

verus! {

/// The shells for which completions can be generated.
#[derive(Debug, Copy, Clone, PartialEq, Eq, Structural)]
pub enum Shell {
    Bash,
    Elvish,
    Fish,
    PowerShell,
    Zsh,
}

/// How the command is run.
#[derive(Debug, Copy, Clone, PartialEq, Eq, PartialOrd, Ord, Structural)]
pub enum RunMode {
    Single,
}

impl RunMode {
    /// The name by which the mode is chosen and printed, in kebab case.
    pub open spec fn name(self) -> Seq<char> {
        match self {
            RunMode::Single => "single"@,
        }
    }

    /// Gives the name of the mode in kebab case.
    pub fn as_str(self) -> (name: &'static str)
        ensures
            name@ == self.name(),
    {
        match self {
            RunMode::Single => "single",
        }
    }
}

/// The log levels, from silence to everything.
#[derive(Debug, Copy, Clone, PartialEq, Eq, Structural)]
pub enum LevelFilter {
    Off,
    Error,
    Warn,
    Info,
    Debug,
    Trace,
}

/// What is logged: the program's own messages up to one level, all others up to another.
#[derive(Debug, Copy, Clone, PartialEq, Eq, Structural)]
pub struct LogSetup {
    pub own: LevelFilter,
    pub others: LevelFilter,
}

/// A length of time: whole seconds, and nanoseconds on top of them.
#[derive(Debug, Copy, Clone, PartialEq, Eq, Structural)]
pub struct Interval {
    pub secs: u64,
    pub nanos: u32,
}

/// The settings of a run. Paths are the bytes of their names.
#[derive(Debug)]
pub struct Args {
    /// The shell to generate completions for, instead of watching.
    pub generator: Option<Shell>,
    /// The number of the log level.
    pub verbose: u8,
    /// Whether paths are watched with everything below them.
    pub recurive: bool,
    /// How long to wait for the next event.
    pub poll_interval: Interval,
    /// Whether the command is run in a shell on a pretended terminal.
    pub tty: bool,
    /// Whether events are sent to the standard input of the process.
    pub send_stdin: bool,
    /// How the command is run.
    pub run_mode: RunMode,
    /// The command to run on events.
    pub command: Option<String>,
    /// The types of event to listen for.
    pub events: Vec<EventType>,
    /// Globs of paths whose events are ignored, whatever the included globs say.
    pub excludes: Option<Vec<String>>,
    /// Globs of paths whose events are wanted.
    pub includes: Option<Vec<String>>,
    /// The paths to watch.
    pub paths: Vec<Vec<u8>>,
}

/// The patterns of a list of globs, if there is one.
pub open spec fn patterns(list: Option<Vec<String>>) -> Option<Seq<Seq<char>>> {
    match list {
        Some(list) => Some(texts(list@)),
        None => None,
    }
}

/// How a pattern of a path glob is read: case matters, and wildcards stop at separators.
pub open spec fn path_rule(pattern: Seq<char>) -> GlobRule {
    rule_of(pattern, false, true)
}

/// Whether the pattern at index `i` is the first that is no glob.
pub open spec fn first_bad(patterns: Seq<Seq<char>>, i: int) -> bool {
    &&& 0 <= i < patterns.len()
    &&& glob_error(path_rule(patterns[i])) is Some
    &&& forall|j: int| 0 <= j < i ==> glob_error(path_rule(#[trigger] patterns[j])) is None
}

/// Whether every pattern is a glob.
pub open spec fn all_globs(patterns: Seq<Seq<char>>) -> bool {
    forall|j: int| 0 <= j < patterns.len() ==> glob_error(path_rule(#[trigger] patterns[j])) is None
}

/// What becomes of a list of patterns. Without a list there is no set. The first pattern
/// that is no glob is an error, with its text. Otherwise the set holds the globs of all
/// patterns in order, unless the compiler refuses a non-empty set as a whole: its text is then
/// the error's.
pub open spec fn is_glob_set_of(
    patterns: Option<Seq<Seq<char>>>,
    res: Result<Option<GlobSet>, Error>,
) -> bool {
    match patterns {
        None => res == Ok::<Option<GlobSet>, Error>(None),
        Some(patterns) => match res {
            Ok(Some(set)) => {
                &&& all_globs(patterns)
                &&& set_rules(set) == patterns.map_values(|p: Seq<char>| path_rule(p))
            },
            Ok(None) => false,
            Err(Error::Glob(text)) => exists|i: int| #[trigger]
                first_bad(patterns, i) && glob_error(path_rule(patterns[i])) == Some(text@),
            Err(Error::GlobSet(text)) => {
                &&& all_globs(patterns)
                &&& patterns.len() > 0
                &&& set_was_refused(patterns.map_values(|p: Seq<char>| path_rule(p)), text)
            },
            Err(_) => false,
        },
    }
}

/// The log level with the given number.
pub open spec fn level_of(verbose: u8) -> Option<LevelFilter> {
    match verbose {
        0 => Some(LevelFilter::Off),
        1 => Some(LevelFilter::Error),
        2 => Some(LevelFilter::Warn),
        3 => Some(LevelFilter::Info),
        4 => Some(LevelFilter::Debug),
        5 => Some(LevelFilter::Trace),
        _ => None,
    }
}

impl Default for Args {
    /// The settings of a run without any argument: report every type of event in the
    /// current directory.
    fn default() -> (args: Args)
        ensures
            args.generator is None,
            args.verbose == 1,
            !args.recurive,
            args.poll_interval == (Interval { secs: 1, nanos: 0 }),
            !args.tty,
            !args.send_stdin,
            args.run_mode == RunMode::Single,
            args.command is None,
            args.events@ == all_event_types(),
            args.excludes is None,
            args.includes is None,
            args.paths@.len() == 1,
            args.paths@[0]@ == seq![46u8],
    {
        Args {
            generator: None,
            verbose: 1,
            recurive: false,
            poll_interval: Interval { secs: 1, nanos: 0 },
            tty: false,
            send_stdin: false,
            run_mode: RunMode::Single,
            command: None,
            events: EventType::iter(),
            excludes: None,
            includes: None,
            paths: vec![vec![46u8]],
        }
    }
}

/// Compiles the patterns of a list one by one and gathers the globs in order, for a set to
/// be made of them. The first pattern that is no glob is an error, with its text.
pub fn glob_builder(args: &Args, items: &Vec<String>) -> (res: Result<GlobSetBuilder, Error>)
    ensures
        match res {
            Ok(builder) => {
                &&& all_globs(texts(items@))
                &&& builder_rules(builder) == texts(items@).map_values(|p: Seq<char>| path_rule(p))
            },
            Err(Error::Glob(text)) => exists|i: int| #[trigger]
                first_bad(texts(items@), i) && glob_error(path_rule(texts(items@)[i])) == Some(
                    text@,
                ),
            Err(_) => false,
        },
{
    let ghost wanted = texts(items@);
    let ghost rule = |p: Seq<char>| path_rule(p);
    let mut builder = empty_builder();
    let mut i: usize = 0;
    assert(builder_rules(builder) =~= wanted.take(0).map_values(rule));
    while i < items.len()
        invariant
            0 <= i <= items.len(),
            wanted == texts(items@),
            rule == |p: Seq<char>| path_rule(p),
            builder_rules(builder) == wanted.take(i as int).map_values(rule),
            forall|j: int| 0 <= j < i ==> glob_error(path_rule(#[trigger] wanted[j])) is None,
        decreases items.len() - i,
    {
        assert(wanted[i as int] == items@[i as int]@);
        match args.build_glob(items[i].as_str()) {
            Ok(glob) => {
                add_glob(&mut builder, glob);
                assert(wanted.take(i + 1).map_values(rule) =~= wanted.take(i as int).map_values(
                    rule,
                ).push(path_rule(wanted[i as int])));
            },
            Err(e) => {
                assert(first_bad(wanted, i as int));
                return Err(e);
            },
        }
        i = i + 1;
    }
    assert(wanted.take(i as int) =~= wanted);
    Ok(builder)
}

/// Compiles a list of patterns into a set: the set of what `glob_builder` gathers.
fn build_globs(args: &Args, list: &Option<Vec<String>>) -> (res: Result<Option<GlobSet>, Error>)
    ensures
        is_glob_set_of(patterns(*list), res),
{
    match list {
        None => Ok(None),
        Some(items) => match glob_builder(args, items) {
            Ok(builder) => set_or_error(compile_set(&builder)),
            Err(e) => Err(e),
        },
    }
}

/// Takes what the glob compiler made of a whole set.
pub fn set_or_error(built: Result<GlobSet, String>) -> (res: Result<Option<GlobSet>, Error>)
    ensures
        match built {
            Ok(set) => res == Ok::<Option<GlobSet>, Error>(Some(set)),
            Err(text) => res == Err::<Option<GlobSet>, Error>(Error::GlobSet(text)),
        },
{
    match built {
        Ok(set) => Ok(Some(set)),
        Err(text) => Err(Error::GlobSet(text)),
    }
}

impl Args {
    /// Chooses the log levels.
    pub fn init_log(&self) -> (res: Result<LogSetup, Error>)
        ensures
            match level_of(self.verbose) {
                Some(level) => res == Ok::<LogSetup, Error>(
                    LogSetup { own: level, others: LevelFilter::Error },
                ),
                None => res == Err::<LogSetup, Error>(Error::InvalidLogLevel(self.verbose)),
            },
            res is Ok <==> self.verbose <= 5,
            res matches Ok(setup) ==> setup.others == LevelFilter::Error,
    {
        let own = match self.verbose {
            0 => LevelFilter::Off,
            1 => LevelFilter::Error,
            2 => LevelFilter::Warn,
            3 => LevelFilter::Info,
            4 => LevelFilter::Debug,
            5 => LevelFilter::Trace,
            verbose => {
                return Err(Error::InvalidLogLevel(verbose));
            },
        };
        Ok(LogSetup { own, others: LevelFilter::Error })
    }

    /// Compiles the glob of a path.
    pub fn build_glob(&self, s: &str) -> (res: Result<Glob, Error>)
        ensures
            match glob_error(path_rule(s@)) {
                None => res matches Ok(glob) && glob_rule(glob) == path_rule(s@),
                Some(text) => res matches Err(Error::Glob(t)) && t@ == text,
            },
            res matches Ok(glob) ==> {
                &&& glob_rule(glob).pattern == s@
                &&& !glob_rule(glob).case_insensitive
                &&& glob_rule(glob).literal_separator
            },
    {
        match compile_glob(s, false, true) {
            Ok(glob) => Ok(glob),
            Err(text) => Err(Error::Glob(text)),
        }
    }

    /// Compiles the globs of the paths whose events are wanted.
    pub fn build_include_globs(&self) -> (res: Result<Option<GlobSet>, Error>)
        ensures
            is_glob_set_of(patterns(self.includes), res),
            match (self.includes, res) {
                (Some(list), Ok(found)) => {
                    &&& found matches Some(set)
                    &&& set_rules(set).len() == list@.len()
                    &&& forall|i: int|
                        0 <= i < list@.len() ==> {
                            &&& (#[trigger] set_rules(set)[i]).pattern == list@[i]@
                            &&& !set_rules(set)[i].case_insensitive
                            &&& set_rules(set)[i].literal_separator
                        }
                },
                (Some(_), Err(_)) => true,
                (None, _) => res == Ok::<Option<GlobSet>, Error>(None),
            },
    {
        build_globs(self, &self.includes)
    }

    /// Compiles the globs of the paths whose events are ignored.
    pub fn build_exclude_globs(&self) -> (res: Result<Option<GlobSet>, Error>)
        ensures
            is_glob_set_of(patterns(self.excludes), res),
            match (self.excludes, res) {
                (Some(list), Ok(found)) => {
                    &&& found matches Some(set)
                    &&& set_rules(set).len() == list@.len()
                    &&& forall|i: int|
                        0 <= i < list@.len() ==> {
                            &&& (#[trigger] set_rules(set)[i]).pattern == list@[i]@
                            &&& !set_rules(set)[i].case_insensitive
                            &&& set_rules(set)[i].literal_separator
                        }
                },
                (Some(_), Err(_)) => true,
                (None, _) => res == Ok::<Option<GlobSet>, Error>(None),
            },
    {
        build_globs(self, &self.excludes)
    }
}

/// A set that was made of patterns holds one glob for each, and matches a path exactly when
/// one of the patterns does.
pub proof fn law_set_matches_by_patterns(patterns: Seq<Seq<char>>, set: GlobSet, path: Seq<u8>)
    requires
        is_glob_set_of(Some(patterns), Ok(Some(set))),
    ensures
        set_rules(set).len() == patterns.len(),
        any_rule_matches(set_rules(set), path) <==> exists|p: int|
            0 <= p < patterns.len() && glob_matches(path_rule(#[trigger] patterns[p]), path),
{
    let rules = set_rules(set);
    if any_rule_matches(rules, path) {
        let i = choose|i: int| 0 <= i < rules.len() && glob_matches(#[trigger] rules[i], path);
        assert(glob_matches(path_rule(patterns[i]), path));
    }
    if exists|p: int|
        0 <= p < patterns.len() && glob_matches(path_rule(#[trigger] patterns[p]), path) {
        let p = choose|p: int|
            0 <= p < patterns.len() && glob_matches(path_rule(#[trigger] patterns[p]), path);
        assert(glob_matches(rules[p], path));
    }
}

/// Excluding and including lists of the same patterns come to the same, whatever the other
/// settings are. Without a list there is no set on either side. Where one side reports a
/// pattern, so does the other, with the same text. Where both sets are made, they hold equal
/// globs in the same order and match the same paths. Nothing is said of a side on which the
/// compiler refuses the whole set.
pub proof fn law_excludes_and_includes_are_alike(
    a: Args,
    b: Args,
    excluded: Result<Option<GlobSet>, Error>,
    included: Result<Option<GlobSet>, Error>,
    path: Seq<u8>,
)
    requires
        patterns(a.excludes) == patterns(b.includes),
        is_glob_set_of(patterns(a.excludes), excluded),
        is_glob_set_of(patterns(b.includes), included),
    ensures
        a.excludes is None <==> excluded == Ok::<Option<GlobSet>, Error>(None),
        b.includes is None <==> included == Ok::<Option<GlobSet>, Error>(None),
        a.excludes is None <==> b.includes is None,
        excluded matches Err(Error::Glob(text)) ==> {
            &&& included matches Err(Error::Glob(other))
            &&& other@ == text@
        },
        included matches Err(Error::Glob(_)) ==> excluded matches Err(Error::Glob(_)),
        match (excluded, included) {
            (Ok(Some(x)), Ok(Some(y))) => {
                &&& set_rules(x) == set_rules(y)
                &&& any_rule_matches(set_rules(x), path) == any_rule_matches(set_rules(y), path)
            },
            _ => true,
        },
{
    match (patterns(a.excludes), excluded, included) {
        (Some(list), Err(Error::Glob(text)), Err(Error::Glob(other))) => {
            let i = choose|i: int| #[trigger]
                first_bad(list, i) && glob_error(path_rule(list[i])) == Some(text@);
            let j = choose|j: int| #[trigger]
                first_bad(list, j) && glob_error(path_rule(list[j])) == Some(other@);
            assert(i == j) by {
                if i < j {
                    assert(glob_error(path_rule(list[i])) is None);
                }
                if j < i {
                    assert(glob_error(path_rule(list[j])) is None);
                }
            }
        },
        _ => {},
    }
}

/// What a run does.
#[derive(Debug)]
pub enum Task {
    /// Write completions for a shell.
    Complete(Shell),
    /// Watch, and report events.
    Report,
    /// Watch, and run one process of a command.
    RunSingle(ProcessArgs),
}

/// A run: how it logs and what it does.
#[derive(Debug)]
pub struct Plan {
    pub log: LogSetup,
    pub task: Task,
}

/// What the settings ask for, once logging is set up.
pub open spec fn task_of(args: Args) -> Task {
    match (args.generator, args.command) {
        (Some(shell), _) => Task::Complete(shell),
        (None, Some(command)) => match args.run_mode {
            RunMode::Single => Task::RunSingle(
                ProcessArgs { tty: args.tty, send_stdin: args.send_stdin, command },
            ),
        },
        (None, None) => Task::Report,
    }
}

/// Plans a run. A bad log level is refused before anything else is looked at.
pub fn run(args: &Args) -> (res: Result<Plan, Error>)
    ensures
        match level_of(args.verbose) {
            Some(level) => res == Ok::<Plan, Error>(
                Plan {
                    log: LogSetup { own: level, others: LevelFilter::Error },
                    task: task_of(*args),
                },
            ),
            None => res == Err::<Plan, Error>(Error::InvalidLogLevel(args.verbose)),
        },
        res is Ok <==> args.verbose <= 5,
        res matches Ok(plan) ==> match (args.generator, args.command) {
            (Some(shell), _) => plan.task == Task::Complete(shell),
            (None, Some(command)) => {
                &&& plan.task matches Task::RunSingle(process)
                &&& process.tty == args.tty
                &&& process.send_stdin == args.send_stdin
                &&& process.command@ == command@
            },
            (None, None) => plan.task == Task::Report,
        },
{
    let log = match args.init_log() {
        Ok(log) => log,
        Err(e) => {
            return Err(e);
        },
    };
    let task = match args.generator {
        Some(shell) => Task::Complete(shell),
        None => match &args.command {
            Some(command) => match args.run_mode {
                RunMode::Single => Task::RunSingle(
                    ProcessArgs {
                        tty: args.tty,
                        send_stdin: args.send_stdin,
                        command: command.clone(),
                    },
                ),
            },
            None => Task::Report,
        },
    };
    Ok(Plan { log, task })
}

/// Every glob of a path, whatever its pattern is: it is read from exactly that pattern, minds
/// case, and its wildcards stop at separators.
pub proof fn law_path_globs_mind_case_and_separators(pattern: Seq<char>)
    ensures
        path_rule(pattern).pattern == pattern,
        path_rule(pattern).case_insensitive == false,
        path_rule(pattern).literal_separator == true,
        path_rule(pattern).backslash_escape == true,
        path_rule(pattern).empty_alternates == false,
        path_rule(pattern).allow_unclosed_class == false,
{
}

/// A set that was made of patterns holds the globs of all of them in order, each with exactly
/// its pattern, minding case, and with wildcards that stop at separators.
pub proof fn law_sets_mind_case_and_separators(patterns: Seq<Seq<char>>, set: GlobSet)
    requires
        is_glob_set_of(Some(patterns), Ok(Some(set))),
    ensures
        set_rules(set).len() == patterns.len(),
        forall|i: int|
            0 <= i < patterns.len() ==> {
                &&& (#[trigger] set_rules(set)[i]).pattern == patterns[i]
                &&& set_rules(set)[i].case_insensitive == false
                &&& set_rules(set)[i].literal_separator == true
                &&& set_rules(set)[i].backslash_escape == true
                &&& set_rules(set)[i].empty_alternates == false
                &&& set_rules(set)[i].allow_unclosed_class == false
            },
{
}

/// Whether a list of patterns is refused depends on its patterns in order. Where the pattern at
/// index `i` is the first that the compiler rejects, the list is refused with the text of that
/// pattern's error. Where none is rejected, the list is not refused on account of a pattern, and
/// an empty one is not refused at all.
pub proof fn law_first_bad_pattern_is_reported(
    patterns: Seq<Seq<char>>,
    res: Result<Option<GlobSet>, Error>,
    i: int,
)
    requires
        is_glob_set_of(Some(patterns), res),
        0 <= i <= patterns.len(),
        forall|j: int|
            0 <= j < i ==> glob_error(
                (GlobRule {
                    pattern: #[trigger] patterns[j],
                    case_insensitive: false,
                    literal_separator: true,
                    backslash_escape: true,
                    empty_alternates: false,
                    allow_unclosed_class: false,
                }),
            ) is None,
    ensures
        i < patterns.len() ==> (glob_error(
            (GlobRule {
                pattern: patterns[i],
                case_insensitive: false,
                literal_separator: true,
                backslash_escape: true,
                empty_alternates: false,
                allow_unclosed_class: false,
            }),
        ) matches Some(text) ==> (res matches Err(Error::Glob(t)) && t@ == text)),
        i == patterns.len() ==> (res matches Ok(Some(_)) || res matches Err(Error::GlobSet(_))),
        patterns.len() == 0 ==> res is Ok,
{
    if i < patterns.len() {
        match res {
            Err(Error::Glob(text)) => {
                let k = choose|k: int| #[trigger]
                    first_bad(patterns, k) && glob_error(path_rule(patterns[k])) == Some(text@);
                if k < i {
                    assert(glob_error(path_rule(patterns[k])) is None);
                }
                if i < k {
                    assert(glob_error(path_rule(patterns[i])) is None);
                }
            },
            _ => {
                assert(glob_error(path_rule(patterns[i])) is None);
            },
        }
    } else {
        assert forall|j: int| 0 <= j < patterns.len() implies glob_error(
            path_rule(#[trigger] patterns[j]),
        ) is None by {}
    }
}

/// Without a list of patterns there is no set and no error.
pub proof fn law_no_patterns_no_set(res: Result<Option<GlobSet>, Error>)
    ensures
        patterns(None) is None,
        is_glob_set_of(None, res) <==> res == Ok::<Option<GlobSet>, Error>(None),
{
}

/// The patterns of a list are the texts of its items, in order.
pub proof fn law_patterns_one_by_one(list: Vec<String>)
    ensures
        patterns(Some(list)) matches Some(found) && {
            &&& found.len() == list@.len()
            &&& forall|i: int| 0 <= i < list@.len() ==> #[trigger] found[i] == list@[i]@
        },
{
}

/// The numbers of the log levels, from silence to everything. Higher numbers have none.
pub proof fn law_log_level_numbers(verbose: u8)
    ensures
        level_of(verbose) == Some(LevelFilter::Off) <==> verbose == 0,
        level_of(verbose) == Some(LevelFilter::Error) <==> verbose == 1,
        level_of(verbose) == Some(LevelFilter::Warn) <==> verbose == 2,
        level_of(verbose) == Some(LevelFilter::Info) <==> verbose == 3,
        level_of(verbose) == Some(LevelFilter::Debug) <==> verbose == 4,
        level_of(verbose) == Some(LevelFilter::Trace) <==> verbose == 5,
        level_of(verbose) is None <==> verbose > 5,
{
}

/// What settings ask for. Completions go before everything else. A command is run with the
/// settings of the same name: on a terminal exactly if that is set, with events sent exactly if
/// that is set, and as it was given. Without a command events are reported.
pub proof fn law_command_is_run_as_set(args: Args)
    ensures
        args.generator matches Some(shell) ==> task_of(args) == Task::Complete(shell),
        args.generator is None ==> (args.command matches Some(command) ==> {
            &&& task_of(args) matches Task::RunSingle(process)
            &&& process.tty == args.tty
            &&& process.send_stdin == args.send_stdin
            &&& process.command@ == command@
        }),
        args.generator is None && args.command is None ==> task_of(args) == Task::Report,
{
}

/// Settings that differ in one of the settings of a process plan processes that differ in that
/// setting alone, whatever the other settings are: those that decide on what is watched have no
/// part in it.
pub proof fn law_each_setting_changes_its_own_field(a: Args, b: Args)
    requires
        a.generator is None,
        b.generator is None,
        a.command is Some,
        b.command is Some,
    ensures
        match (task_of(a), task_of(b)) {
            (Task::RunSingle(p), Task::RunSingle(q)) => {
                &&& p.tty == q.tty <==> a.tty == b.tty
                &&& p.send_stdin == q.send_stdin <==> a.send_stdin == b.send_stdin
                &&& p.command == q.command <==> a.command == b.command
            },
            _ => false,
        },
{
}

/// The only mode in which a command is run.
pub proof fn law_run_mode_name(mode: RunMode)
    ensures
        mode.name() == "single"@,
{
}

/// What a planned run does, for all settings. A number beyond the log levels is given back as an
/// error, and nothing else is refused. Only errors of others are logged, and the level of the
/// run's own messages is the one with the number. Completions go before a command, and a command
/// before reporting. The process of a command has each field from the setting of the same name.
pub proof fn law_run_does_what_is_set(args: Args, res: Result<Plan, Error>)
    requires
        call_ensures(run, (&args,), res),
    ensures
        args.verbose > 5 ==> res == Err::<Plan, Error>(Error::InvalidLogLevel(args.verbose)),
        args.verbose <= 5 ==> res is Ok,
        res matches Ok(plan) ==> {
            &&& plan.log.others == LevelFilter::Error
            &&& plan.log.own == LevelFilter::Off <==> args.verbose == 0
            &&& plan.log.own == LevelFilter::Error <==> args.verbose == 1
            &&& plan.log.own == LevelFilter::Warn <==> args.verbose == 2
            &&& plan.log.own == LevelFilter::Info <==> args.verbose == 3
            &&& plan.log.own == LevelFilter::Debug <==> args.verbose == 4
            &&& plan.log.own == LevelFilter::Trace <==> args.verbose == 5
            &&& args.generator matches Some(shell) ==> plan.task == Task::Complete(shell)
            &&& plan.task is Report <==> args.generator is None && args.command is None
            &&& plan.task is RunSingle <==> args.generator is None && args.command is Some
            &&& plan.task matches Task::RunSingle(process) ==> {
                &&& process.tty == args.tty
                &&& process.send_stdin == args.send_stdin
                &&& args.command matches Some(command) && process.command@ == command@
            }
        },
{
}

/// Two runs differ in what their processes are told only as their settings differ: in the
/// terminal only if that setting differs, in whether events are sent only if that one does, and
/// in the command only if that does.
pub proof fn law_runs_differ_as_their_settings(
    a: Args,
    b: Args,
    p: ProcessArgs,
    q: ProcessArgs,
    log: LogSetup,
    other: LogSetup,
)
    requires
        call_ensures(run, (&a,), Ok(Plan { log, task: Task::RunSingle(p) })),
        call_ensures(run, (&b,), Ok(Plan { log: other, task: Task::RunSingle(q) })),
    ensures
        p.tty == q.tty <==> a.tty == b.tty,
        p.send_stdin == q.send_stdin <==> a.send_stdin == b.send_stdin,
        a.command == b.command ==> p.command@ == q.command@,
{
}

/// Logging is set up as a run plans it.
pub proof fn law_log_is_set_up_as_set(args: Args, res: Result<LogSetup, Error>)
    requires
        call_ensures(Args::init_log, (&args,), res),
    ensures
        args.verbose > 5 ==> res == Err::<LogSetup, Error>(Error::InvalidLogLevel(args.verbose)),
        args.verbose <= 5 ==> res is Ok,
        res matches Ok(log) ==> {
            &&& log.others == LevelFilter::Error
            &&& log.own == LevelFilter::Off <==> args.verbose == 0
            &&& log.own == LevelFilter::Error <==> args.verbose == 1
            &&& log.own == LevelFilter::Warn <==> args.verbose == 2
            &&& log.own == LevelFilter::Info <==> args.verbose == 3
            &&& log.own == LevelFilter::Debug <==> args.verbose == 4
            &&& log.own == LevelFilter::Trace <==> args.verbose == 5
        },
{
}

/// The glob that is built from a pattern, for every pattern and whatever the settings are: it is
/// read from exactly that pattern, minds case, and its wildcards stop at separators. It is
/// refused exactly if the compiler rejects the pattern when read so, with the compiler's text.
pub proof fn law_built_glob_is_that_of_its_pattern(
    args: Args,
    pattern: &str,
    res: Result<Glob, Error>,
)
    requires
        call_ensures(Args::build_glob, (&args, pattern), res),
    ensures
        match res {
            Ok(glob) => {
                &&& glob_rule(glob).pattern == pattern@
                &&& glob_rule(glob).case_insensitive == false
                &&& glob_rule(glob).literal_separator == true
                &&& glob_rule(glob).backslash_escape == true
                &&& glob_rule(glob).empty_alternates == false
                &&& glob_rule(glob).allow_unclosed_class == false
                &&& glob_error(glob_rule(glob)) is None
            },
            Err(Error::Glob(text)) => glob_error(
                (GlobRule {
                    pattern: pattern@,
                    case_insensitive: false,
                    literal_separator: true,
                    backslash_escape: true,
                    empty_alternates: false,
                    allow_unclosed_class: false,
                }),
            ) == Some(text@),
            Err(_) => false,
        },
{
}

/// The globs that are gathered from a list, for every list: one for each pattern, in order, each
/// of exactly its pattern, minding case, and with wildcards that stop at separators.
pub proof fn law_gathered_globs_are_those_of_the_list(
    args: Args,
    list: Vec<String>,
    builder: GlobSetBuilder,
)
    requires
        call_ensures(glob_builder, (&args, &list), Ok(builder)),
    ensures
        builder_rules(builder).len() == list@.len(),
        forall|i: int|
            0 <= i < list@.len() ==> {
                &&& (#[trigger] builder_rules(builder)[i]).pattern == list@[i]@
                &&& builder_rules(builder)[i].case_insensitive == false
                &&& builder_rules(builder)[i].literal_separator == true
            },
{
}

/// The two sets that are built from settings, whatever the settings are: a set is built exactly
/// where there is a list, from that list and not the other, and holds a glob for each of its
/// patterns in order, each of exactly that pattern, minding case, and with wildcards that stop at
/// separators.
pub proof fn law_built_sets_are_those_of_their_lists(
    args: Args,
    included: Option<GlobSet>,
    excluded: Option<GlobSet>,
)
    requires
        call_ensures(Args::build_include_globs, (&args,), Ok(included)),
        call_ensures(Args::build_exclude_globs, (&args,), Ok(excluded)),
    ensures
        included is Some <==> args.includes is Some,
        excluded is Some <==> args.excludes is Some,
        match (args.includes, included) {
            (Some(list), Some(set)) => {
                &&& set_rules(set).len() == list@.len()
                &&& forall|i: int|
                    0 <= i < list@.len() ==> {
                        &&& (#[trigger] set_rules(set)[i]).pattern == list@[i]@
                        &&& set_rules(set)[i].case_insensitive == false
                        &&& set_rules(set)[i].literal_separator == true
                    }
            },
            _ => true,
        },
        match (args.excludes, excluded) {
            (Some(list), Some(set)) => {
                &&& set_rules(set).len() == list@.len()
                &&& forall|i: int|
                    0 <= i < list@.len() ==> {
                        &&& (#[trigger] set_rules(set)[i]).pattern == list@[i]@
                        &&& set_rules(set)[i].case_insensitive == false
                        &&& set_rules(set)[i].literal_separator == true
                    }
            },
            _ => true,
        },
{
}

/// What the compiler makes of a whole set is passed on unchanged.
pub proof fn law_compiled_set_is_passed_on(
    built: Result<GlobSet, String>,
    res: Result<Option<GlobSet>, Error>,
)
    requires
        call_ensures(set_or_error, (built,), res),
    ensures
        built matches Ok(set) ==> res == Ok::<Option<GlobSet>, Error>(Some(set)),
        built matches Err(text) ==> res == Err::<Option<GlobSet>, Error>(Error::GlobSet(text)),
{
}

/// A run with the default settings reports, with the errors of its own logged and every type of
/// event listened for, in the current directory but not below it, waiting for a second.
pub proof fn law_default_run_reports(args: Args, res: Result<Plan, Error>, event: EventType)
    requires
        call_ensures(Args::default, (), args),
        call_ensures(run, (&args,), res),
    ensures
        res == Ok::<Plan, Error>(
            Plan {
                log: LogSetup { own: LevelFilter::Error, others: LevelFilter::Error },
                task: Task::Report,
            },
        ),
        args.events@.contains(event),
        args.events@.len() == 5,
        args.excludes is None,
        args.includes is None,
        !args.recurive,
        args.poll_interval.secs == 1,
        args.poll_interval.nanos == 0,
        args.paths@.len() == 1,
        args.paths@[0]@ == seq![46u8],
{
    law_list_of_event_types(event);
}

/// A list of patterns is refused as a whole only if it has patterns, each of them is a glob, and
/// the compiler refused the set of exactly their globs, in order, with the text that is reported.
pub proof fn law_sets_are_refused_by_compiler_only(
    patterns: Seq<Seq<char>>,
    text: String,
    rules: Seq<GlobRule>,
)
    requires
        is_glob_set_of(Some(patterns), Err(Error::GlobSet(text))),
        rules.len() == patterns.len(),
        forall|i: int|
            0 <= i < rules.len() ==> #[trigger] rules[i] == (GlobRule {
                pattern: patterns[i],
                case_insensitive: false,
                literal_separator: true,
                backslash_escape: true,
                empty_alternates: false,
                allow_unclosed_class: false,
            }),
    ensures
        patterns.len() > 0,
        forall|i: int| 0 <= i < rules.len() ==> glob_error(#[trigger] rules[i]) is None,
        set_was_refused(rules, text),
{
    assert(rules =~= patterns.map_values(|p: Seq<char>| path_rule(p)));
    assert forall|i: int| 0 <= i < rules.len() implies glob_error(#[trigger] rules[i]) is None by {
        assert(glob_error(path_rule(patterns[i])) is None);
    }
}

} // verus!
