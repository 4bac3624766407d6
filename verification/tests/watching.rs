use eventwatch::args::{Args, Interval};
use eventwatch::error::Error;
use eventwatch::event::{EventInfo, EventType};
use eventwatch::filter::EventFilter;
use eventwatch::watcher::{
    delivery, Delivery, EventWatcher, Received, RecursiveMode, SendOutcome, Wait, CHANNEL_SIZE,
};

fn info(event: EventType, path: &str) -> EventInfo {
    EventInfo { event, paths: vec![path.as_bytes().to_vec()] }
}

#[test]
fn watcher_takes_over_the_settings() {
    let args = Args {
        recurive: true,
        poll_interval: Interval { secs: 2, nanos: 500 },
        paths: vec![b"a".to_vec(), b"b".to_vec()],
        ..Args::default()
    };
    let watcher = EventWatcher::new(&args).unwrap();
    assert_eq!(watcher.timeout, Interval { secs: 2, nanos: 500 });
    assert_eq!(watcher.paths, args.paths);
    assert!(watcher.recurive);
    assert_eq!(watcher.recursive_mode(), RecursiveMode::Recursive);
    let watcher = EventWatcher::new(&Args::default()).unwrap();
    assert_eq!(watcher.recursive_mode(), RecursiveMode::NonRecursive);
    assert_eq!(CHANNEL_SIZE, 1000);
}

#[test]
fn watcher_refuses_bad_globs() {
    let args = Args { excludes: Some(vec!["a}".to_string()]), ..Args::default() };
    assert!(matches!(EventWatcher::new(&args), Err(Error::Glob(_))));
}

#[test]
fn message_at_the_start() {
    let watcher = EventWatcher::new(&Args::default()).unwrap();
    assert_eq!(
        watcher.start_message("[\".\"]"),
        "waiting [Access, Modify, Move, Create, Delete] events in interval 1s for 1 paths: [\".\"]"
    );
    let args = Args {
        recurive: true,
        poll_interval: Interval { secs: 1200, nanos: 0 },
        events: vec![EventType::Move],
        paths: vec![b"x".to_vec(); 12],
        ..Args::default()
    };
    assert_eq!(
        EventWatcher::new(&args).unwrap().start_message("P"),
        "waiting [Move] events in interval 1200s for recurive 12 paths: P"
    );
    let args = Args { events: vec![], paths: vec![], ..Args::default() };
    assert_eq!(
        EventWatcher::new(&args).unwrap().start_message("[]"),
        "waiting [] events in interval 1s for 0 paths: []"
    );
}

#[test]
fn stream_of_accepted_events() {
    let args = Args {
        events: vec![EventType::Create],
        excludes: Some(vec!["*.tmp".to_string()]),
        ..Args::default()
    };
    let watcher = EventWatcher::new(&args).unwrap();
    let received = vec![
        Received::Event(info(EventType::Create, "a")),
        Received::Event(info(EventType::Modify, "a")),
        Received::Timeout,
        Received::Event(info(EventType::Create, "b.tmp")),
        Received::Event(info(EventType::Create, "c")),
        Received::Disconnected,
        Received::Event(info(EventType::Create, "d")),
    ];
    let mut stream: Vec<Option<EventInfo>> = Vec::new();
    let mut ended = false;
    for r in received {
        match watcher.wait_next(r) {
            Wait::Again => {}
            Wait::Item(item) => stream.push(item),
            Wait::End => {
                ended = true;
                break;
            }
        }
    }
    assert!(ended);
    assert_eq!(
        stream,
        [
            Some(info(EventType::Create, "a")),
            None,
            Some(info(EventType::Create, "c")),
        ]
    );
}

#[test]
fn full_channel_is_waited_for() {
    let e = info(EventType::Access, "a");
    assert!(matches!(delivery(SendOutcome::Sent), Delivery::Done));
    match delivery(SendOutcome::Full(e.clone())) {
        Delivery::Wait(again) => assert_eq!(again, e),
        other => panic!("{:?}", other),
    }
    match delivery(SendOutcome::Disconnected(e.clone())) {
        Delivery::Lost(lost) => assert_eq!(lost, e),
        other => panic!("{:?}", other),
    }
}

#[test]
fn watcher_with_given_filter() {
    let args = Args {
        recurive: true,
        poll_interval: Interval { secs: 3, nanos: 4 },
        paths: vec![b"p".to_vec()],
        // not looked at: the filter is given
        includes: Some(vec!["{".to_string()]),
        ..Args::default()
    };
    let refused = EventWatcher::with_filter(&args, Err(Error::GlobSet("big".to_string())));
    assert!(matches!(refused, Err(Error::GlobSet(text)) if text == "big"));
    let filter = EventFilter::of_sets(vec![EventType::Move], Ok(None), Ok(None));
    let watcher = EventWatcher::with_filter(&args, filter).unwrap();
    assert_eq!(watcher.event_filter.events, [EventType::Move]);
    assert_eq!(watcher.timeout, Interval { secs: 3, nanos: 4 });
    assert_eq!(watcher.paths, [b"p".to_vec()]);
    assert!(watcher.recurive);
}
