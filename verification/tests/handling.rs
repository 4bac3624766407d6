use eventwatch::error::Error;
use eventwatch::event::{EventInfo, EventType};
use eventwatch::handler::{Handler, SimpleHandler, Step};
use eventwatch::process::{
    direct_launch, try_spawn, Launch, ProcessArgs, ProcessHandler, SingleProcessHandler,
    StdinMode,
};
use eventwatch::session::{Action, Reply, Session};

fn created(path: &str) -> EventInfo {
    EventInfo { event: EventType::Create, paths: vec![path.as_bytes().to_vec()] }
}

fn single(command: &str, send_stdin: bool, tty: bool) -> SingleProcessHandler {
    SingleProcessHandler::new(ProcessArgs { command: command.to_string(), send_stdin, tty })
}

/// Runs a handler on items. Every process lives for the given number of polls.
fn drive<H: Handler>(
    handler: H,
    items: Vec<Option<EventInfo>>,
    life: usize,
) -> (Vec<String>, Result<(), Error>) {
    let mut session = Session::begin(handler);
    let mut items = items.into_iter();
    let mut log: Vec<String> = Vec::new();
    let mut polls: usize = 0;
    let mut action = Action::NextItem;
    loop {
        let reply = match action {
            Action::NextItem => match items.next() {
                Some(item) => Reply::Item(item),
                None => Reply::HangUp,
            },
            Action::Poll => {
                polls += 1;
                Reply::Polled(polls <= life)
            }
            Action::Spawn => {
                polls = 0;
                log.push("spawn".to_string());
                Reply::Started
            }
            Action::Write(text) => {
                log.push(text);
                Reply::Written
            }
            Action::Finish(res) => return (log, res),
        };
        assert!(session.accepts(&reply));
        action = session.advance(reply);
    }
}

#[test]
fn test_single_handler() {
    let events = vec![
        // no event for timeout
        None,
        // new event
        Some(created("a.txt")),
        Some(created("b.txt")),
        // timeout
        None,
        None,
        // new event
        Some(created("c.txt")),
        None,
        Some(created("d.txt")),
        None,
    ];
    // the process ends right after its start
    let (log, res) = drive(single("false", true, false), events, 0);
    assert_eq!(
        log,
        [
            "spawn",
            "create b.txt\n",
            "spawn",
            "create c.txt\n",
            "spawn",
            "create d.txt\n",
        ]
    );
    assert!(res.is_err());
    assert!(res.unwrap_err().message().contains("events hang up"));
}

#[test]
fn live_process_gets_events() {
    let items = vec![
        Some(created("a")),
        None,
        Some(created("b")),
        Some(created("c")),
        None,
        None,
    ];
    let (log, res) = drive(single("cat", true, false), items, 100);
    assert_eq!(log, ["spawn", "create a\n", "create b\n", "create c\n"]);
    assert_eq!(res, Err(Error::HangUp));
}

#[test]
fn nothing_is_written_unless_events_are_sent() {
    let items = vec![Some(created("a")), None, Some(created("b")), None, Some(created("c")), None];
    let (log, _) = drive(single("cat", false, false), items, 100);
    assert_eq!(log, ["spawn"]);
}

#[test]
fn burst_without_pause_starts_nothing() {
    let items = vec![Some(created("a")), Some(created("b")), Some(created("c"))];
    let (log, res) = drive(single("cat", true, false), items, 0);
    assert!(log.is_empty());
    assert_eq!(res, Err(Error::HangUp));
}

#[test]
fn exited_process_is_started_again() {
    let items = vec![
        Some(created("a")),
        None,
        Some(created("b")),
        Some(created("c")),
        Some(created("d")),
        None,
    ];
    // alive for one poll: "b" still reaches it, "c" and "d" do not
    let (log, _) = drive(single("cat", true, false), items, 1);
    assert_eq!(log, ["spawn", "create a\n", "create b\n", "spawn", "create d\n"]);
}

#[test]
fn steps_of_single_items() {
    let handler = single("cat", true, false);
    let mut state = handler.start();
    assert!(!handler.polls(&state));
    assert_eq!(handler.handle(&mut state, None, true), Step { spawn: false, output: None });
    assert_eq!(
        handler.handle(&mut state, Some(created("a")), true),
        Step { spawn: false, output: None }
    );
    assert_eq!(state.last_info, Some(created("a")));
    assert_eq!(
        handler.handle(&mut state, None, false),
        Step { spawn: true, output: Some("create a\n".to_string()) }
    );
    assert!(state.running && handler.polls(&state));
    assert_eq!(state.last_info, None);
    assert_eq!(handler.handle(&mut state, None, false), Step { spawn: false, output: None });
    assert!(!state.running);
}

#[test]
fn failures_end_the_session() {
    let broken = || Error::Outside("broken".to_string());
    let mut session = Session::begin(single("cat", true, false));
    assert_eq!(session.advance(Reply::Item(Some(created("a")))), Action::NextItem);
    assert_eq!(session.advance(Reply::Item(None)), Action::Spawn);
    assert!(!session.accepts(&Reply::Written));
    assert_eq!(session.advance(Reply::Failed(broken())), Action::Finish(Err(broken())));
    assert!(!session.accepts(&Reply::Item(None)));
    assert!(!session.accepts(&Reply::Failed(broken())));

    let mut session = Session::begin(single("cat", true, false));
    session.advance(Reply::Item(Some(created("a"))));
    session.advance(Reply::Item(None));
    assert_eq!(session.advance(Reply::Started), Action::Write("create a\n".to_string()));
    assert_eq!(session.advance(Reply::Written), Action::NextItem);
    assert_eq!(session.advance(Reply::Item(None)), Action::Poll);
    assert_eq!(session.advance(Reply::Failed(broken())), Action::Finish(Err(broken())));
}

#[test]
fn simple_handler_prints_events() {
    let items = vec![None, Some(created("a")), None, Some(created("b"))];
    let (log, res) = drive(SimpleHandler, items, 0);
    assert_eq!(log, ["create a\n", "create b\n"]);
    assert_eq!(res, Ok(()));
}

#[test]
fn lines_of_events() {
    let format = |event: EventType, paths: Vec<Vec<u8>>| {
        SimpleHandler.format(&EventInfo { event, paths })
    };
    assert_eq!(format(EventType::Move, vec![]), "move \n");
    assert_eq!(format(EventType::Delete, vec![b"a".to_vec(), b"b c".to_vec()]), "delete a,b c\n");
    assert_eq!(
        format(
            EventType::Modify,
            vec![b"\xff".to_vec(), "é".as_bytes().to_vec(), b"\xc3".to_vec(), b"z".to_vec()]
        ),
        "modify é,z\n"
    );
}

#[test]
fn spawn_splits_the_command() {
    let plan = single("grep -e 'a b' \"c\"", true, false).spawn().unwrap();
    assert_eq!(plan.stdin, StdinMode::Piped);
    assert_eq!(
        plan.launch,
        Launch::Direct {
            program: "grep".to_string(),
            arguments: vec!["-e".to_string(), "a b".to_string(), "c".to_string()],
        }
    );
}

#[test]
fn spawn_on_a_terminal_keeps_the_command() {
    let plan = single("echo 'unclosed", false, true).spawn().unwrap();
    assert_eq!(plan.stdin, StdinMode::Inherited);
    assert_eq!(
        plan.launch,
        Launch::Script { command: "echo 'unclosed".to_string(), shell: "sh".to_string() }
    );
}

#[test]
fn spawn_refuses_broken_quoting() {
    let e = single("echo 'unclosed", false, false).spawn().unwrap_err();
    assert_eq!(e, Error::UnparsableCommand("echo 'unclosed".to_string()));
    assert_eq!(e.message(), "Unable to parse the command: echo 'unclosed");
}

#[test]
fn command_without_words_names_no_program() {
    assert!(try_spawn(&single("", false, false)).is_none());
    assert!(try_spawn(&single("  # comment", false, false)).is_none());
    assert!(try_spawn(&single("", false, true)).unwrap().is_ok());
    assert!(try_spawn(&single("'", false, false)).unwrap().is_err());
    assert!(try_spawn(&single("ls", false, false)).unwrap().is_ok());
}

#[test]
fn words_on_given_values() {
    let command = "x".to_string();
    let words = vec!["a".to_string(), "b".to_string(), "c".to_string()];
    assert_eq!(
        direct_launch(&command, Some(words)),
        Ok(Launch::Direct {
            program: "a".to_string(),
            arguments: vec!["b".to_string(), "c".to_string()],
        })
    );
    assert_eq!(direct_launch(&command, None), Err(Error::UnparsableCommand("x".to_string())));
    let handler = single("x", true, false);
    assert_eq!(handler.process_args().command, "x");
}
