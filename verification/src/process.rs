//! Running a command when events settle.
use crate::error::Error;
use crate::event::EventInfo;
use crate::handler::{idle_step, state_after, step_at, Handler, Observed, Step};
use crate::text::texts;
use vstd::prelude::*;

verus! {

/// The command to run and how to run it.
#[derive(Debug)]
pub struct ProcessArgs {
    pub tty: bool,
    pub send_stdin: bool,
    pub command: String,
}

/// Where the standard input of a process comes from.
#[derive(Debug, Copy, Clone, PartialEq, Eq, Structural)]
pub enum StdinMode {
    Piped,
    Inherited,
}

/// What to execute.
#[derive(Debug, PartialEq, Eq)]
pub enum Launch {
    /// The command, run by a shell that is made to believe in a terminal.
    Script { command: String, shell: String },
    /// A program with its arguments.
    Direct { program: String, arguments: Vec<String> },
}

/// Everything needed to start a process.
#[derive(Debug, PartialEq, Eq)]
pub struct SpawnPlan {
    pub stdin: StdinMode,
    pub launch: Launch,
}

/// The words into which a POSIX shell would split a command, or `None` where its quoting
/// is broken: what `shlex::split` returns.
pub uninterp spec fn shell_words(command: Seq<char>) -> Option<Seq<Seq<char>>>;

/// `shlex::split` splits a string into words by the syntax of the POSIX shell. The
/// contract only gives its result a name: it depends on nothing but the string.
pub assume_specification[ shlex::split ](in_str: &str) -> (res: Option<Vec<String>>)
    ensures
        match res {
            Some(words) => shell_words(in_str@) == Some(texts(words@)),
            None => shell_words(in_str@) is None,
        },
;

/// The standard input of a process: piped when events are to be sent to it.
pub open spec fn stdin_mode(args: ProcessArgs) -> StdinMode {
    if args.send_stdin {
        StdinMode::Piped
    } else {
        StdinMode::Inherited
    }
}

impl ProcessArgs {
    /// Whether there is something to execute: a terminal shell takes any command, but
    /// one that is split into words needs a first word, which names the program.
    pub open spec fn names_program(self) -> bool {
        self.tty || match shell_words(self.command@) {
            Some(words) => words.len() > 0,
            None => true,
        }
    }
}

/// The launch of a command that was split into words: the first word is the program,
/// the others are its arguments. A command that could not be split is an error.
pub open spec fn is_direct_launch(
    command: String,
    words: Option<Seq<Seq<char>>>,
    res: Result<Launch, Error>,
) -> bool {
    match words {
        Some(words) => {
            &&& res matches Ok(Launch::Direct { program, arguments })
            &&& program@ == words[0]
            &&& texts(arguments@) == words.skip(1)
        },
        None => res == Err::<Launch, Error>(Error::UnparsableCommand(command)),
    }
}

/// Takes the words of a command apart into program and arguments.
pub fn direct_launch(command: &String, words: Option<Vec<String>>) -> (res: Result<Launch, Error>)
    requires
        words matches Some(w) ==> w@.len() > 0,
    ensures
        is_direct_launch(
            *command,
            match words {
                Some(w) => Some(texts(w@)),
                None => None,
            },
            res,
        ),
{
    match words {
        Some(words) => {
            let mut arguments = words;
            let program = arguments.remove(0);
            assert(texts(arguments@) =~= texts(words@).skip(1));
            Ok(Launch::Direct { program, arguments })
        },
        None => Err(Error::UnparsableCommand(command.clone())),
    }
}

/// How the process of a command is started: on a terminal through `sh`, or else
/// directly, always with the standard input that the arguments ask for.
pub open spec fn is_spawn_result(args: ProcessArgs, res: Result<SpawnPlan, Error>) -> bool {
    &&& res matches Ok(plan) ==> plan.stdin == stdin_mode(args)
    &&& if args.tty {
        &&& res matches Ok(plan)
        &&& plan.launch matches Launch::Script { command, shell }
        &&& command == args.command
        &&& shell@ == "sh"@
    } else {
        is_direct_launch(
            args.command,
            shell_words(args.command@),
            match res {
                Ok(plan) => Ok(plan.launch),
                Err(e) => Err(e),
            },
        )
    }
}

/// A handler that reports events to a process.
pub trait ProcessHandler: Handler {
    /// The command that the handler runs.
    spec fn args(&self) -> ProcessArgs;

    /// Makes a handler for a command.
    fn new(args: ProcessArgs) -> (handler: Self)
        ensures
            handler.args() == args,
    ;

    /// Gives the command that the handler runs.
    fn process_args(&self) -> (args: &ProcessArgs)
        ensures
            *args == self.args(),
    ;

    /// Says how to start the process: through `sh` on a terminal, or else the program
    /// that the first word of the command names.
    fn spawn(&self) -> (res: Result<SpawnPlan, Error>)
        requires
            self.args().names_program(),
        ensures
            is_spawn_result(self.args(), res),
    {
        let args = self.process_args();
        let stdin = if args.send_stdin {
            StdinMode::Piped
        } else {
            StdinMode::Inherited
        };
        if args.tty {
            let launch = Launch::Script { command: args.command.clone(), shell: "sh".to_owned() };
            Ok(SpawnPlan { stdin, launch })
        } else {
            match direct_launch(&args.command, shlex::split(args.command.as_str())) {
                Ok(launch) => Ok(SpawnPlan { stdin, launch }),
                Err(e) => Err(e),
            }
        }
    }
}

/// Says how to start the process of a handler, or `None` if its command has no word that
/// could name a program.
pub fn try_spawn<H: ProcessHandler>(handler: &H) -> (res: Option<Result<SpawnPlan, Error>>)
    ensures
        res is Some <==> handler.args().names_program(),
        res matches Some(spawned) ==> is_spawn_result(handler.args(), spawned),
{
    let args = handler.process_args();
    if !args.tty {
        match shlex::split(args.command.as_str()) {
            Some(words) => {
                if words.len() == 0 {
                    return None;
                }
            },
            None => {},
        }
    }
    Some(handler.spawn())
}

/// Runs one process at a time. Events that come in one after the other while no process
/// runs start one only when they pause; later events may go to its standard input. Once
/// it has exited, the next events start it anew.
#[derive(Debug)]
pub struct SingleProcessHandler {
    pub args: ProcessArgs,
}

/// What the single-process handler remembers.
#[derive(Debug)]
pub struct SingleState {
    /// A process was started and has not been seen to exit.
    pub running: bool,
    /// The event for which a process is to be started when events pause.
    pub last_info: Option<EventInfo>,
}

impl SingleProcessHandler {
    /// What is written for an event: its line, if events are sent to the process.
    pub open spec fn report(self, info: EventInfo) -> Option<Seq<char>> {
        if self.args.send_stdin {
            Some(info.line())
        } else {
            None
        }
    }
}

impl Handler for SingleProcessHandler {
    type State = SingleState;

    open spec fn initial(&self) -> SingleState {
        SingleState { running: false, last_info: None }
    }

    open spec fn next_state(
        &self,
        state: SingleState,
        item: Option<EventInfo>,
        alive: bool,
    ) -> SingleState {
        let live = state.running && alive;
        match item {
            Some(info) => SingleState {
                running: live,
                last_info: if live {
                    None
                } else {
                    Some(info)
                },
            },
            None => SingleState { running: live || state.last_info is Some, last_info: None },
        }
    }

    open spec fn next_step(
        &self,
        state: SingleState,
        item: Option<EventInfo>,
        alive: bool,
    ) -> Step<Seq<char>> {
        let live = state.running && alive;
        match (item, state.last_info) {
            (Some(info), _) if live => Step { spawn: false, output: self.report(info) },
            (None, Some(info)) => Step { spawn: !live, output: self.report(info) },
            _ => idle_step(),
        }
    }

    open spec fn has_process(&self, state: SingleState) -> bool {
        state.running
    }

    open spec fn end(&self) -> Result<(), Error> {
        Err(Error::HangUp)
    }

    fn start(&self) -> (state: SingleState) {
        SingleState { running: false, last_info: None }
    }

    fn polls(&self, state: &SingleState) -> (res: bool) {
        state.running
    }

    fn handle(&self, state: &mut SingleState, item: Option<EventInfo>, alive: bool) -> (step: Step<
        String,
    >)
        ensures
            step.output is Some ==> self.args.send_stdin,
            match (item, old(state).last_info) {
                (Some(info), _) if old(state).running && alive && self.args.send_stdin => {
                    &&& step.output matches Some(text)
                    &&& text@ == info.line()
                },
                (None, Some(info)) if self.args.send_stdin => {
                    &&& step.output matches Some(text)
                    &&& text@ == info.line()
                },
                _ => step.output is None,
            },
            step.spawn <==> {
                &&& item is None
                &&& old(state).last_info is Some
                &&& !(old(state).running && alive)
            },
    {
        let live = state.running && alive;
        state.running = live;
        match item {
            Some(info) => {
                if live {
                    let output = if self.args.send_stdin {
                        Some(self.format(&info))
                    } else {
                        None
                    };
                    state.last_info = None;
                    Step { spawn: false, output }
                } else {
                    state.last_info = Some(info);
                    Step::idle()
                }
            },
            None => {
                match state.last_info.take() {
                    Some(info) => {
                        state.running = true;
                        let output = if self.args.send_stdin {
                            Some(self.format(&info))
                        } else {
                            None
                        };
                        Step { spawn: !live, output }
                    },
                    None => Step::idle(),
                }
            },
        }
    }

    fn finish(&self) -> (res: Result<(), Error>) {
        Err(Error::HangUp)
    }
}

impl ProcessHandler for SingleProcessHandler {
    open spec fn args(&self) -> ProcessArgs {
        self.args
    }

    fn new(args: ProcessArgs) -> (handler: SingleProcessHandler) {
        SingleProcessHandler { args }
    }

    fn process_args(&self) -> (args: &ProcessArgs) {
        &self.args
    }
}

/// A process is started exactly when events pause with an event pending and no process
/// alive; afterwards one is running. So there is never more than one.
pub proof fn law_process_starts_when_events_pause(
    handler: SingleProcessHandler,
    state: SingleState,
    item: Option<EventInfo>,
    alive: bool,
)
    ensures
        handler.next_step(state, item, alive).spawn <==> {
            &&& item is None
            &&& state.last_info is Some
            &&& !(state.running && alive)
        },
        handler.next_step(state, item, alive).spawn ==> handler.next_state(
            state,
            item,
            alive,
        ).running,
{
}

/// An event is pending only if it was the last item of the run, and no process was alive
/// when it came in. In particular a pending event and a running process exclude each
/// other.
pub proof fn law_pending_event_is_last_item(handler: SingleProcessHandler, items: Seq<Observed>)
    ensures
        ({
            let state = state_after(handler, handler.initial(), items);
            &&& state.last_info matches Some(info) ==> {
                &&& items.len() > 0
                &&& items.last().0 == Some(info)
                &&& !(state_after(handler, handler.initial(), items.drop_last()).running
                    && items.last().1)
            }
            &&& !(state.running && state.last_info is Some)
        }),
    decreases items.len(),
{
    if items.len() > 0 {
        law_pending_event_is_last_item(handler, items.drop_last());
    }
}

/// A process is started only on a timeout right after an event, and what it is sent is
/// the report of that event: earlier events of the same burst are passed over.
pub proof fn law_started_process_gets_latest_event(
    handler: SingleProcessHandler,
    items: Seq<Observed>,
    i: int,
)
    requires
        0 <= i < items.len(),
        step_at(handler, items, i).spawn,
    ensures
        i > 0,
        items[i].0 is None,
        items[i - 1].0 matches Some(info) && step_at(handler, items, i).output == (if handler.args.send_stdin {
            Some(info.line())
        } else {
            None
        }),
{
    law_pending_event_is_last_item(handler, items.take(i));
}

/// The process that a run leaves running is the one started by some item of the run and
/// found alive at every item after it; without such an item none is running.
pub proof fn law_running_process_was_started_and_stayed_alive(
    handler: SingleProcessHandler,
    items: Seq<Observed>,
)
    ensures
        state_after(handler, handler.initial(), items).running <==> exists|i: int|
            {
                &&& 0 <= i < items.len()
                &&& #[trigger] step_at(handler, items, i).spawn
                &&& forall|j: int| i < j < items.len() ==> (#[trigger] items[j]).1
            },
    decreases items.len(),
{
    if items.len() > 0 {
        let n = items.len() - 1;
        let past = items.drop_last();
        assert(items.take(n) =~= past);
        assert forall|i: int| 0 <= i < n implies #[trigger] step_at(handler, items, i) == step_at(
            handler,
            past,
            i,
        ) by {
            assert(items.take(i) =~= past.take(i));
        }
        law_running_process_was_started_and_stayed_alive(handler, past);
        law_pending_event_is_last_item(handler, past);
        let before = state_after(handler, handler.initial(), past);
        let after = state_after(handler, handler.initial(), items);
        let spawned = step_at(handler, items, n).spawn;
        assert(after.running <==> spawned || (before.running && items[n].1));
        if before.running && items[n].1 {
            let i = choose|i: int|
                {
                    &&& 0 <= i < past.len()
                    &&& #[trigger] step_at(handler, past, i).spawn
                    &&& forall|j: int| i < j < past.len() ==> (#[trigger] past[j]).1
                };
            assert(step_at(handler, items, i).spawn);
            assert forall|j: int| i < j < items.len() implies (#[trigger] items[j]).1 by {
                if j < n {
                    assert(past[j].1);
                }
            }
        }
        if exists|i: int|
            {
                &&& 0 <= i < items.len()
                &&& #[trigger] step_at(handler, items, i).spawn
                &&& forall|j: int| i < j < items.len() ==> (#[trigger] items[j]).1
            } {
            let i = choose|i: int|
                {
                    &&& 0 <= i < items.len()
                    &&& #[trigger] step_at(handler, items, i).spawn
                    &&& forall|j: int| i < j < items.len() ==> (#[trigger] items[j]).1
                };
            if i < n {
                assert(step_at(handler, past, i).spawn);
                assert forall|j: int| i < j < past.len() implies (#[trigger] past[j]).1 by {
                    assert(items[j].1);
                }
                assert(items[n].1);
            }
        }
    }
}

/// A burst of events while no process is alive asks for nothing until it pauses. The pause
/// then starts one process, and reports to it the last event of the burst.
pub proof fn law_burst_starts_one_process(
    handler: SingleProcessHandler,
    state: SingleState,
    burst: Seq<(EventInfo, bool)>,
    alive: bool,
)
    requires
        burst.len() > 0,
        !(state.running && burst[0].1),
    ensures
        ({
            let items = burst.map_values(|e: (EventInfo, bool)| (Some(e.0), e.1));
            let end = state_after(handler, state, items);
            &&& forall|i: int|
                0 <= i < items.len() ==> handler.next_step(
                    state_after(handler, state, items.take(i)),
                    (#[trigger] items[i]).0,
                    items[i].1,
                ) == (Step { spawn: false, output: None::<Seq<char>> })
            &&& handler.next_step(end, None, alive) == Step {
                spawn: true,
                output: if handler.args.send_stdin {
                    Some(burst.last().0.line())
                } else {
                    None
                },
            }
            &&& handler.next_state(end, None, alive) == SingleState {
                running: true,
                last_info: None,
            }
        }),
{
    let items = burst.map_values(|e: (EventInfo, bool)| (Some(e.0), e.1));
    lemma_burst(handler, state, burst);
    assert(burst.take(burst.len() as int) =~= burst);
    assert forall|i: int| 0 <= i < items.len() implies handler.next_step(
        state_after(handler, state, items.take(i)),
        (#[trigger] items[i]).0,
        items[i].1,
    ) == idle_step() by {
        let seen = burst.take(i);
        assert(items.take(i) =~= seen.map_values(|e: (EventInfo, bool)| (Some(e.0), e.1)));
        if i > 0 {
            lemma_burst(handler, state, seen);
        }
    }
}

/// After a burst that finds no live process, none is running and its last event is pending.
proof fn lemma_burst(
    handler: SingleProcessHandler,
    state: SingleState,
    burst: Seq<(EventInfo, bool)>,
)
    requires
        burst.len() > 0,
        !(state.running && burst[0].1),
    ensures
        state_after(
            handler,
            state,
            burst.map_values(|e: (EventInfo, bool)| (Some(e.0), e.1)),
        ) == (SingleState { running: false, last_info: Some(burst.last().0) }),
    decreases burst.len(),
{
    let items = burst.map_values(|e: (EventInfo, bool)| (Some(e.0), e.1));
    let earlier = burst.drop_last();
    assert(items.drop_last() =~= earlier.map_values(|e: (EventInfo, bool)| (Some(e.0), e.1)));
    if earlier.len() > 0 {
        lemma_burst(handler, state, earlier);
    } else {
        assert(state_after(handler, state, items.drop_last()) == state);
    }
}

/// An event that finds the process alive is reported to it at once, if events are sent to
/// it at all, and is then done with: the process goes on and nothing is pending.
pub proof fn law_live_process_gets_event(
    handler: SingleProcessHandler,
    state: SingleState,
    info: EventInfo,
)
    requires
        state.running,
    ensures
        handler.next_step(state, Some(info), true) == (Step {
            spawn: false,
            output: if handler.args.send_stdin {
                    Some(info.line())
                } else {
                    None
                },
        }),
        handler.next_state(state, Some(info), true) == (SingleState {
            running: true,
            last_info: None,
        }),
{
}

/// Once the process has exited, the next event starts it again when events pause.
pub proof fn law_exited_process_is_restarted(
    handler: SingleProcessHandler,
    state: SingleState,
    info: EventInfo,
    alive: bool,
)
    requires
        state.running,
    ensures
        ({
            let pending = handler.next_state(state, Some(info), false);
            &&& handler.next_step(state, Some(info), false) == (Step {
                spawn: false,
                output: None::<Seq<char>>,
            })
            &&& handler.next_step(pending, None, alive) == Step {
                spawn: true,
                output: if handler.args.send_stdin {
                    Some(info.line())
                } else {
                    None
                },
            }
        }),
{
}

/// A pause with nothing pending asks for nothing.
pub proof fn law_quiet_pause_asks_for_nothing(
    handler: SingleProcessHandler,
    state: SingleState,
    alive: bool,
)
    requires
        state.last_info is None,
    ensures
        handler.next_step(state, None, alive) == (Step { spawn: false, output: None::<Seq<char>> }),
        handler.next_state(state, None, alive) == (SingleState {
            running: state.running && alive,
            last_info: None,
        }),
{
}

/// Without a process nothing depends on what is found out about one.
pub proof fn law_poll_matters_only_with_process(
    handler: SingleProcessHandler,
    state: SingleState,
    item: Option<EventInfo>,
    alive: bool,
)
    requires
        !handler.has_process(state),
    ensures
        handler.next_step(state, item, alive) == handler.next_step(state, item, false),
        handler.next_state(state, item, alive) == handler.next_state(state, item, false),
{
}

/// Whatever is written goes to a process that runs and that was given a piped standard
/// input: reports are only written if events are sent, and then every start is piped.
pub proof fn law_reports_go_to_piped_process(
    handler: SingleProcessHandler,
    state: SingleState,
    item: Option<EventInfo>,
    alive: bool,
    plan: SpawnPlan,
)
    requires
        handler.next_step(state, item, alive).output is Some,
        is_spawn_result(handler.args(), Ok(plan)),
    ensures
        handler.next_state(state, item, alive).running,
        plan.stdin == StdinMode::Piped,
{
}

/// The single-process handler runs until there are no more events, which is an error: it
/// says that the events hang up.
pub proof fn law_single_process_ends_with_hang_up(handler: SingleProcessHandler)
    ensures
        handler.end() matches Err(e) && e.text() == "events hang up"@,
{
}

/// Events of every type are sent or not as the settings say. An event that finds the process
/// alive, and the event that is pending when events pause, are written on their line if events
/// are sent, and not at all if they are not. Nothing else is ever written.
pub proof fn law_lines_are_written_if_events_are_sent(
    handler: SingleProcessHandler,
    state: SingleState,
    info: EventInfo,
    alive: bool,
)
    ensures
        state.running && alive ==> handler.next_step(state, Some(info), alive).output == (
        if handler.args.send_stdin {
            Some(info.line())
        } else {
            None
        }),
        !(state.running && alive) ==> handler.next_step(state, Some(info), alive).output is None,
        state.last_info == Some(info) ==> handler.next_step(state, None, alive).output == (
        if handler.args.send_stdin {
            Some(info.line())
        } else {
            None
        }),
        state.last_info is None ==> handler.next_step(state, None, alive).output is None,
        !handler.args.send_stdin ==> forall|item: Option<EventInfo>|
            (#[trigger] handler.next_step(state, item, alive)).output is None,
{
}

/// Whether events are sent, and everything else about the command, decides on nothing but what
/// is written: any two handlers start processes at the same items and remember the same.
pub proof fn law_settings_change_only_what_is_written(
    a: SingleProcessHandler,
    b: SingleProcessHandler,
    state: SingleState,
    item: Option<EventInfo>,
    alive: bool,
)
    ensures
        a.initial() == b.initial(),
        a.next_state(state, item, alive) == b.next_state(state, item, alive),
        a.next_step(state, item, alive).spawn == b.next_step(state, item, alive).spawn,
        a.args.send_stdin == b.args.send_stdin ==> a.next_step(state, item, alive) == b.next_step(
            state,
            item,
            alive,
        ),
{
}

/// What the handler remembers. At first no process runs and no event is pending. Later one
/// runs if it did and is alive, or if it is started now. The last item is pending if it is an
/// event that found no process alive.
pub proof fn law_what_single_process_handler_remembers(
    handler: SingleProcessHandler,
    state: SingleState,
    item: Option<EventInfo>,
    alive: bool,
)
    ensures
        !handler.initial().running,
        handler.initial().last_info is None,
        handler.next_state(state, item, alive).running <==> {
            ||| state.running && alive
            ||| item is None && state.last_info is Some
        },
        handler.next_state(state, item, alive).last_info == (if state.running && alive {
            None
        } else {
            item
        }),
        handler.has_process(state) <==> state.running,
        handler.args() == handler.args,
{
}

/// How a process is started. Its standard input is piped exactly if events are sent. On a
/// terminal the whole command goes to `sh`, and never fails. Otherwise the words of the
/// command, with none lost or moved, are the program and its arguments, and a command that has
/// no words for its broken quoting is given back as an error.
pub proof fn law_how_process_is_started(args: ProcessArgs, res: Result<SpawnPlan, Error>)
    requires
        args.names_program(),
        is_spawn_result(args, res),
    ensures
        res matches Ok(plan) ==> (plan.stdin == StdinMode::Piped <==> args.send_stdin),
        res is Ok <==> args.tty || shell_words(args.command@) is Some,
        res matches Err(e) ==> e == Error::UnparsableCommand(args.command),
        args.tty ==> {
            &&& res matches Ok(plan)
            &&& plan.launch matches Launch::Script { command, shell }
            &&& command@ == args.command@
            &&& shell@ == "sh"@
        },
        !args.tty ==> (shell_words(args.command@) matches Some(words) ==> {
            &&& res matches Ok(plan)
            &&& plan.launch matches Launch::Direct { program, arguments }
            &&& words.len() == arguments@.len() + 1
            &&& program@ == words[0]
            &&& forall|i: int|
                0 <= i < arguments@.len() ==> (#[trigger] arguments@[i])@ == words[i + 1]
        }),
{
    if !args.tty {
        match (shell_words(args.command@), res) {
            (Some(words), Ok(plan)) => match plan.launch {
                Launch::Direct { program, arguments } => {
                    assert(texts(arguments@).len() == arguments@.len());
                    assert forall|i: int| 0 <= i < arguments@.len() implies (
                    #[trigger] arguments@[i])@ == words[i + 1] by {
                        assert(texts(arguments@)[i] == words.skip(1)[i]);
                    }
                },
                _ => {},
            },
            _ => {},
        }
    }
}

/// There is nothing to execute exactly if the command is to be split and has no word at all.
pub proof fn law_commands_without_program(args: ProcessArgs)
    ensures
        !args.names_program() <==> !args.tty && shell_words(args.command@) == Some(
            Seq::<Seq<char>>::empty(),
        ),
{
    match shell_words(args.command@) {
        Some(words) => {
            if words.len() == 0 {
                assert(words =~= Seq::empty());
            }
        },
        None => {},
    }
}

/// Words that were split before are taken apart in the same way, and none is lost or moved.
pub proof fn law_words_are_program_and_arguments(
    command: String,
    words: Option<Seq<Seq<char>>>,
    res: Result<Launch, Error>,
)
    requires
        words matches Some(w) ==> w.len() > 0,
        is_direct_launch(command, words, res),
    ensures
        match (words, res) {
            (Some(w), Ok(Launch::Direct { program, arguments })) => w == seq![program@] + texts(
                arguments@,
            ),
            (None, Err(Error::UnparsableCommand(text))) => text == command,
            _ => false,
        },
{
    match (words, res) {
        (Some(w), Ok(Launch::Direct { program, arguments })) => {
            assert(w =~= seq![w[0]] + w.skip(1));
        },
        _ => {},
    }
}

/// What the handler does with an event that finds the process alive, for events of every type: if
/// events are sent, it writes exactly the line that it formats for the event, and if they are
/// not, nothing. It starts no process, and nothing stays pending.
pub proof fn law_event_goes_to_live_process(
    handler: SingleProcessHandler,
    state: &mut SingleState,
    info: EventInfo,
    line: String,
    step: Step<String>,
)
    requires
        old(state).running,
        call_ensures(SingleProcessHandler::format, (&handler, &info), line),
        call_ensures(SingleProcessHandler::handle, (&handler, state, Some(info), true), step),
    ensures
        !step.spawn,
        handler.args.send_stdin ==> (step.output matches Some(text) && text@ == line@ && text@
            == info.line()),
        !handler.args.send_stdin ==> step.output is None,
        final(state).running,
        final(state).last_info is None,
{
}

/// What the handler does with an event that finds no live process, of whatever type: nothing but
/// to remember it, in place of the one before it.
pub proof fn law_event_without_live_process_is_kept(
    handler: SingleProcessHandler,
    state: &mut SingleState,
    info: EventInfo,
    alive: bool,
    step: Step<String>,
)
    requires
        !(old(state).running && alive),
        call_ensures(SingleProcessHandler::handle, (&handler, state, Some(info), alive), step),
    ensures
        !step.spawn,
        step.output is None,
        !final(state).running,
        final(state).last_info == Some(info),
{
}

/// What the handler does when events pause with one pending, of whatever type: it starts a
/// process unless one is alive, and writes exactly the line of that event if events are sent,
/// and nothing if they are not.
pub proof fn law_pause_starts_process_with_pending_event(
    handler: SingleProcessHandler,
    state: &mut SingleState,
    info: EventInfo,
    alive: bool,
    step: Step<String>,
)
    requires
        old(state).last_info == Some(info),
        call_ensures(SingleProcessHandler::handle, (&handler, state, None, alive), step),
    ensures
        step.spawn <==> !(old(state).running && alive),
        handler.args.send_stdin ==> (step.output matches Some(text) && text@ == info.line()),
        !handler.args.send_stdin ==> step.output is None,
        final(state).running,
        final(state).last_info is None,
{
}

/// A handler is made with the arguments that it is given, and starts with no process and nothing
/// pending.
pub proof fn law_made_handler_keeps_arguments(
    args: ProcessArgs,
    handler: SingleProcessHandler,
    state: SingleState,
    polled: bool,
    res: Result<(), Error>,
)
    requires
        call_ensures(SingleProcessHandler::new, (args,), handler),
        call_ensures(SingleProcessHandler::start, (&handler,), state),
        call_ensures(SingleProcessHandler::polls, (&handler, &state), polled),
        call_ensures(SingleProcessHandler::finish, (&handler,), res),
    ensures
        handler.args.tty == args.tty,
        handler.args.send_stdin == args.send_stdin,
        handler.args.command == args.command,
        !state.running,
        state.last_info is None,
        !polled,
        res == Err::<(), Error>(Error::HangUp),
{
}

/// How a handler says to start its process, for every command. There is nothing to start exactly
/// if the command is to be split and has no word. Otherwise the standard input is piped exactly
/// if events are sent; on a terminal `sh` runs the whole command; and without one the first word
/// is run with the others as its arguments.
pub proof fn law_process_is_started_as_set<H: ProcessHandler>(
    handler: H,
    res: Option<Result<SpawnPlan, Error>>,
)
    requires
        call_ensures(try_spawn::<H>, (&handler,), res),
    ensures
        res is None <==> !handler.args().tty && shell_words(handler.args().command@) == Some(
            Seq::<Seq<char>>::empty(),
        ),
        res matches Some(Ok(plan)) ==> {
            &&& plan.stdin == StdinMode::Piped <==> handler.args().send_stdin
            &&& plan.launch is Script <==> handler.args().tty
            &&& plan.launch matches Launch::Script { command, shell } ==> command@
                == handler.args().command@ && shell@ == "sh"@
            &&& plan.launch matches Launch::Direct { program, arguments } ==> shell_words(
                handler.args().command@,
            ) == Some(seq![program@] + texts(arguments@))
        },
        res matches Some(Err(e)) ==> {
            &&& e == Error::UnparsableCommand(handler.args().command)
            &&& !handler.args().tty
            &&& shell_words(handler.args().command@) is None
        },
{
    let args = handler.args();
    law_commands_without_program(args);
    match res {
        Some(spawned) => {
            law_how_process_is_started(args, spawned);
            match (shell_words(args.command@), spawned) {
                (Some(words), Ok(plan)) => {
                    if !args.tty {
                        law_words_are_program_and_arguments(
                            args.command,
                            Some(words),
                            Ok(plan.launch),
                        );
                    }
                },
                _ => {},
            }
        },
        None => {},
    }
}

} // verus!
