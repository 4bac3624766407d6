use eventwatch::args::{glob_builder, Args};
use eventwatch::error::Error;
use eventwatch::event::{EventInfo, EventKind, EventType};
use eventwatch::filter::{wanted, EventFilter};

fn created(paths: &[&str]) -> EventInfo {
    EventInfo {
        event: EventType::Create,
        paths: paths.iter().map(|p| p.as_bytes().to_vec()).collect(),
    }
}

fn text(path: &[u8]) -> &str {
    std::str::from_utf8(path).unwrap()
}

fn list(patterns: &[&str]) -> Option<Vec<String>> {
    Some(patterns.iter().map(|p| p.to_string()).collect())
}

#[test]
fn test_interested_mock() {
    let pat = "**/etc/*";
    let args = Args {
        includes: Some(vec![pat.to_string()]),
        paths: vec![b"dot_xxx".to_vec()],
        ..Args::default()
    };
    let info = created(&[
        "/home/xxx/.local/share/chezmoi/dot_xxx/etc/systemd/exact_system/a.service.tmpl",
    ]);
    let info2 = created(&["/home/xxx/.local/share/chezmoi/dot_xxx/etc/wsl.conf.tmpl"]);

    let ef = EventFilter::new(&args).unwrap();
    let globs = ef.include_globs.as_ref().unwrap();
    assert!(!globs.is_match(text(&info.paths[0])));
    assert!(globs.is_match(text(&info2.paths[0])));

    assert!(!ef.filter(&info));
    assert!(ef.filter(&info2));
}

#[test]
fn test_interested_excludes() {
    let pat = "**/avs/failed/**";
    let args = Args {
        excludes: Some(vec![pat.to_string()]),
        paths: vec![b"dot_xxx".to_vec()],
        ..Args::default()
    };
    let info = created(&[
        "/home/xxx/.local/share/chezmoi/dot_xxx/avs/JAV_output/etc/systemd/exact_system/a.service.tmpl",
    ]);
    let info2 = created(&[
        "/home/xxx/.local/share/chezmoi/dot_xxx/avs/failed/etc/wsl.conf.tmpl",
    ]);

    let ef = EventFilter::new(&args).unwrap();
    let globs = ef.exclude_globs.as_ref().unwrap();
    assert!(!globs.is_match(text(&info.paths[0])));
    assert!(globs.is_match(text(&info2.paths[0])));

    assert!(ef.filter(&info));
    assert!(!ef.filter(&info2));

    let pat = "**/avs/failed/**";
    let args = Args {
        excludes: Some(vec![pat.to_string()]),
        paths: vec![b"dot_xxx".to_vec()],
        ..Args::default()
    };
    let info = created(&["/home/xxx/.local/share/chezmoi/dot_xxx/avs/failed"]);
    let ef = EventFilter::new(&args).unwrap();
    let globs = ef.exclude_globs.as_ref().unwrap();
    assert!(!globs.is_match(text(&info.paths[0])));
    assert!(ef.filter(&info));
}

#[test]
fn everything_is_wanted_by_default() {
    let ef = EventFilter::new(&Args::default()).unwrap();
    for event in EventType::iter() {
        assert!(ef.filter(&EventInfo { event, paths: vec![b"a".to_vec()] }));
        assert!(ef.filter(&EventInfo { event, paths: vec![] }));
    }
}

#[test]
fn only_listed_types_are_wanted() {
    let args = Args { events: vec![EventType::Delete, EventType::Modify], ..Args::default() };
    let ef = EventFilter::new(&args).unwrap();
    for event in EventType::iter() {
        let expected = event == EventType::Delete || event == EventType::Modify;
        assert_eq!(ef.filter(&EventInfo { event, paths: vec![] }), expected);
    }
}

#[test]
fn exclude_beats_include() {
    let args = Args { excludes: list(&["**/*.log"]), includes: list(&["**/*"]), ..Args::default() };
    let ef = EventFilter::new(&args).unwrap();
    assert!(ef.filter(&created(&["a/b.txt"])));
    assert!(!ef.filter(&created(&["a/b.log"])));
    assert!(!ef.filter(&created(&["a/b.txt", "a/b.log"])));
}

#[test]
fn one_included_path_is_enough() {
    let args = Args { includes: list(&["*.rs", "*.toml"]), ..Args::default() };
    let ef = EventFilter::new(&args).unwrap();
    assert!(ef.filter(&created(&["x.txt", "Cargo.toml"])));
    assert!(!ef.filter(&created(&["x.txt", "y.txt"])));
    assert!(!ef.filter(&created(&[])));
}

#[test]
fn events_without_paths_are_never_excluded() {
    let args = Args { excludes: list(&["**"]), ..Args::default() };
    let ef = EventFilter::new(&args).unwrap();
    assert!(ef.filter(&created(&[])));
    assert!(!ef.filter(&created(&["a"])));
}

#[test]
fn empty_lists_of_globs() {
    let args = Args { excludes: list(&[]), ..Args::default() };
    assert!(EventFilter::new(&args).unwrap().filter(&created(&["a"])));
    let args = Args { includes: list(&[]), ..Args::default() };
    assert!(!EventFilter::new(&args).unwrap().filter(&created(&["a"])));
}

#[test]
fn globs_mind_case_and_separators() {
    let args = Args { includes: list(&["src/*.rs"]), ..Args::default() };
    let ef = EventFilter::new(&args).unwrap();
    assert!(ef.filter(&created(&["src/lib.rs"])));
    assert!(!ef.filter(&created(&["SRC/lib.rs"])));
    assert!(!ef.filter(&created(&["src/a/lib.rs"])));
}

#[test]
fn globs_escape_with_backslash() {
    let args = Args { includes: list(&["a\\*"]), ..Args::default() };
    let ef = EventFilter::new(&args).unwrap();
    assert!(ef.filter(&created(&["a*"])));
    assert!(!ef.filter(&created(&["ab"])));
}

#[test]
fn paths_need_not_be_text() {
    let args = Args { includes: list(&["*.bin"]), ..Args::default() };
    let ef = EventFilter::new(&args).unwrap();
    let info = EventInfo { event: EventType::Access, paths: vec![b"\xff\xfe.bin".to_vec()] };
    assert!(ef.filter(&info));
}

#[test]
fn a_glob_keeps_its_pattern() {
    let glob = Args::default().build_glob("a/**/b").unwrap();
    assert_eq!(glob.glob(), "a/**/b");
}

#[test]
fn first_bad_pattern_is_reported() {
    let args = Args { includes: list(&["ok", "{a", "[b"]), ..Args::default() };
    let e = args.build_include_globs().unwrap_err();
    let text = "error parsing glob '{a': unclosed alternate group; missing '}' \
                (maybe escape '{' with '[{]'?)";
    assert_eq!(e, Error::Glob(text.to_string()));
    assert_eq!(e.message(), text);
}

#[test]
fn bad_excludes_are_reported_before_bad_includes() {
    let args = Args { excludes: list(&["[x"]), includes: list(&["{y"]), ..Args::default() };
    match EventFilter::new(&args) {
        Err(e) => assert_eq!(
            e.message(),
            "error parsing glob '[x': unclosed character class; missing ']'"
        ),
        Ok(_) => panic!("accepted"),
    }
    let args = Args { excludes: list(&["x"]), includes: list(&["{y"]), ..Args::default() };
    match EventFilter::new(&args) {
        Err(Error::Glob(text)) => assert!(text.starts_with("error parsing glob '{y'")),
        _ => panic!("accepted"),
    }
}

#[test]
fn a_set_can_be_too_big() {
    let args = Args { includes: Some(vec!["?".repeat(600_000)]), ..Args::default() };
    assert!(args.build_glob(&"?".repeat(600_000)).is_ok());
    assert!(matches!(args.build_include_globs(), Err(Error::GlobSet(_))));
}

#[test]
fn decision_on_given_matches() {
    for excluded in [None, Some(false), Some(true)] {
        for included in [None, Some(false), Some(true)] {
            assert!(!wanted(false, excluded, included));
            let expected = excluded != Some(true) && included != Some(false);
            assert_eq!(wanted(true, excluded, included), expected);
        }
    }
}

#[test]
fn reports_become_events() {
    let paths = vec![b"p".to_vec()];
    let cases = [
        (EventKind::Access, Some(EventType::Access)),
        (EventKind::Create, Some(EventType::Create)),
        (EventKind::Modify, Some(EventType::Modify)),
        (EventKind::Remove, Some(EventType::Delete)),
        (EventKind::Any, None),
        (EventKind::Other, None),
    ];
    for (kind, event) in cases {
        assert_eq!(EventType::from_kind(kind), event);
        assert_eq!(
            EventInfo::from_report(kind, paths.clone()),
            event.map(|event| EventInfo { event, paths: paths.clone() })
        );
    }
}

#[test]
fn names_of_event_types() {
    let names: Vec<&str> = EventType::iter().into_iter().map(|e| e.as_str()).collect();
    assert_eq!(names, ["access", "modify", "move", "create", "delete"]);
    for event in EventType::iter() {
        assert_eq!(event.debug_str(), format!("{:?}", event));
    }
}

#[test]
fn globs_are_gathered_in_order() {
    let items = list(&["*.rs", "src/**"]).unwrap();
    let set = glob_builder(&Args::default(), &items).unwrap().build().unwrap();
    assert_eq!(set.len(), 2);
    assert_eq!(set.matches("a.rs"), [0]);
    assert_eq!(set.matches("src/b"), [1]);
    assert!(set.matches("b").is_empty());
    let none = glob_builder(&Args::default(), &vec![]).unwrap().build().unwrap();
    assert!(none.is_empty());
    let bad = list(&["a", "[", "{"]).unwrap();
    match glob_builder(&Args::default(), &bad) {
        Err(Error::Glob(text)) => assert!(text.starts_with("error parsing glob '[':")),
        _ => panic!("accepted"),
    }
}

#[test]
fn excludes_and_includes_are_compiled_alike() {
    let a = Args { excludes: list(&["*.a", "b/**"]), includes: list(&["{"]), ..Args::default() };
    let b = Args { includes: list(&["*.a", "b/**"]), ..Args::default() };
    let excluded = a.build_exclude_globs().unwrap().unwrap();
    let included = b.build_include_globs().unwrap().unwrap();
    assert_eq!(excluded.len(), included.len());
    for path in ["x.a", "b/c", "b", "y/x.a"] {
        assert_eq!(excluded.matches(path), included.matches(path));
    }
    let a = Args { excludes: list(&["ok", "[z-a]"]), ..Args::default() };
    let b = Args { includes: list(&["ok", "[z-a]"]), ..Args::default() };
    assert_eq!(a.build_exclude_globs().unwrap_err(), b.build_include_globs().unwrap_err());
    assert!(Args::default().build_exclude_globs().unwrap().is_none());
    assert!(Args::default().build_include_globs().unwrap().is_none());
}

#[test]
fn filter_of_given_sets() {
    let error = |text: &str| Error::GlobSet(text.to_string());
    let events = || vec![EventType::Move, EventType::Access];
    let set = || {
        let args = Args { includes: list(&["*.x"]), ..Args::default() };
        args.build_include_globs().unwrap()
    };
    let refused = EventFilter::of_sets(events(), Err(error("e")), Err(error("i")));
    assert!(matches!(refused, Err(Error::GlobSet(text)) if text == "e"));
    let refused = EventFilter::of_sets(events(), Err(error("e")), Ok(set()));
    assert!(matches!(refused, Err(Error::GlobSet(text)) if text == "e"));
    let refused = EventFilter::of_sets(events(), Ok(set()), Err(error("i")));
    assert!(matches!(refused, Err(Error::GlobSet(text)) if text == "i"));
    let filter = EventFilter::of_sets(events(), Ok(set()), Ok(None)).unwrap();
    assert_eq!(filter.events, events());
    assert!(filter.exclude_globs.unwrap().is_match("a.x"));
    assert!(filter.include_globs.is_none());
}
