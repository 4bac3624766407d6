//! Which events are of interest.
use crate::args::{
    all_globs, is_glob_set_of, law_first_bad_pattern_is_reported, law_set_matches_by_patterns,
    path_rule, patterns, Args,
};
use crate::error::Error;
use crate::event::{all_event_types, EventInfo, EventType};
use crate::globs::{
    any_rule_matches, glob_error, glob_matches, set_matches, set_rules, GlobRule,
};
use crate::text::texts;
use globset::GlobSet;
use vstd::prelude::*;

verus! {

/// Selects events by type and by the globs that their paths match.
pub struct EventFilter {
    pub events: Vec<EventType>,
    pub exclude_globs: Option<GlobSet>,
    pub include_globs: Option<GlobSet>,
}

/// Whether a set of globs matches one of the paths of an event.
pub open spec fn touches(set: GlobSet, info: EventInfo) -> bool {
    exists|i: int|
        0 <= i < info.paths@.len() && any_rule_matches(set_rules(set), (#[trigger] info.paths@[i])@)
}

/// Looks for a path that a set of globs matches.
fn any_match(set: &GlobSet, info: &EventInfo) -> (res: bool)
    ensures
        res == touches(*set, *info),
{
    let mut i: usize = 0;
    while i < info.paths.len()
        invariant
            0 <= i <= info.paths.len(),
            forall|j: int|
                0 <= j < i ==> !any_rule_matches(set_rules(*set), (#[trigger] info.paths@[j])@),
        decreases info.paths.len() - i,
    {
        if set_matches(set, info.paths[i].as_slice()) {
            assert(any_rule_matches(set_rules(*set), info.paths@[i as int]@));
            return true;
        }
        i = i + 1;
    }
    false
}

/// Decides on an event: its type must be listened for, no path may match the globs that
/// exclude, if there are any, and one must match the globs that include, if there are any.
pub fn wanted(listed: bool, excluded: Option<bool>, included: Option<bool>) -> (res: bool)
    ensures
        res == (listed && excluded != Some(true) && included != Some(false)),
{
    listed && !excluded.unwrap_or(false) && included.unwrap_or(true)
}

/// The filter that the settings ask for: it listens for their types of event, and its sets
/// are those of their patterns. What is wrong with the excluding patterns is reported
/// before anything that is wrong with the including ones.
pub open spec fn is_filter_of(args: Args, res: Result<EventFilter, Error>) -> bool {
    match res {
        Ok(filter) => {
            &&& filter.events@ == args.events@
            &&& is_glob_set_of(patterns(args.excludes), Ok(filter.exclude_globs))
            &&& is_glob_set_of(patterns(args.includes), Ok(filter.include_globs))
        },
        Err(e) => {
            ||| is_glob_set_of(patterns(args.excludes), Err(e))
            ||| {
                &&& is_glob_set_of(patterns(args.includes), Err(e))
                &&& patterns(args.excludes) matches Some(excludes) ==> all_globs(excludes)
            }
        },
    }
}

impl EventFilter {
    /// Whether an event is of interest.
    pub open spec fn accepts(self, info: EventInfo) -> bool {
        &&& self.events@.contains(info.event)
        &&& self.exclude_globs matches Some(set) ==> !touches(set, info)
        &&& self.include_globs matches Some(set) ==> touches(set, info)
    }

    /// Makes the filter that the settings ask for.
    pub fn new(args: &Args) -> (res: Result<EventFilter, Error>)
        ensures
            is_filter_of(*args, res),
    {
        let events = args.events.clone();
        assert(events@ =~= args.events@);
        EventFilter::of_sets(events, args.build_exclude_globs(), args.build_include_globs())
    }

    /// Makes the filter of two sets, as far as both were made. What is wrong with the
    /// excluding set is reported before what is wrong with the including one.
    pub fn of_sets(
        events: Vec<EventType>,
        excludes: Result<Option<GlobSet>, Error>,
        includes: Result<Option<GlobSet>, Error>,
    ) -> (res: Result<EventFilter, Error>)
        ensures
            res == (match (excludes, includes) {
                (Err(e), _) => Err::<EventFilter, Error>(e),
                (Ok(_), Err(e)) => Err(e),
                (Ok(exclude_globs), Ok(include_globs)) => Ok(
                    EventFilter { events, exclude_globs, include_globs },
                ),
            }),
    {
        match (excludes, includes) {
            (Err(e), _) => Err(e),
            (Ok(_), Err(e)) => Err(e),
            (Ok(exclude_globs), Ok(include_globs)) => Ok(
                EventFilter { events, exclude_globs, include_globs },
            ),
        }
    }

    /// Tells whether an event is of interest.
    pub fn filter(&self, info: &EventInfo) -> (res: bool)
        ensures
            res == self.accepts(*info),
    {
        let mut listed = false;
        let mut i: usize = 0;
        while i < self.events.len()
            invariant
                0 <= i <= self.events.len(),
                listed <==> exists|j: int| 0 <= j < i && self.events@[j] == info.event,
            decreases self.events.len() - i,
        {
            if self.events[i] == info.event {
                listed = true;
            }
            i = i + 1;
        }
        let excluded = match &self.exclude_globs {
            Some(set) => Some(any_match(set, info)),
            None => None,
        };
        let included = match &self.include_globs {
            Some(set) => Some(any_match(set, info)),
            None => None,
        };
        wanted(listed, excluded, included)
    }
}

/// Whether one of the patterns matches one of the paths of an event.
pub open spec fn patterns_touch(patterns: Seq<Seq<char>>, info: EventInfo) -> bool {
    exists|p: int, i: int|
        {
            &&& 0 <= p < patterns.len()
            &&& 0 <= i < info.paths@.len()
            &&& #[trigger] glob_matches(path_rule(patterns[p]), info.paths@[i]@)
        }
}

/// A path that the excluding globs match rules an event out, whatever the including globs
/// say: excluding has the higher priority.
pub proof fn law_exclude_has_priority(filter: EventFilter, info: EventInfo)
    requires
        filter.exclude_globs matches Some(set) && touches(set, info),
    ensures
        !filter.accepts(info),
{
}

/// A filter made from settings accepts exactly the events whose type is listened for, none
/// of whose paths matches an excluding pattern, and one of whose paths matches an including
/// pattern, where there are such patterns.
pub proof fn law_filter_follows_patterns(args: Args, filter: EventFilter, info: EventInfo)
    requires
        is_filter_of(args, Ok(filter)),
    ensures
        filter.accepts(info) <==> {
            &&& args.events@.contains(info.event)
            &&& patterns(args.excludes) matches Some(excludes) ==> !patterns_touch(excludes, info)
            &&& patterns(args.includes) matches Some(includes) ==> patterns_touch(includes, info)
        },
{
    match (patterns(args.excludes), filter.exclude_globs) {
        (Some(excludes), Some(set)) => lemma_set_follows_patterns(excludes, set, info),
        _ => {},
    }
    match (patterns(args.includes), filter.include_globs) {
        (Some(includes), Some(set)) => lemma_set_follows_patterns(includes, set, info),
        _ => {},
    }
}

/// A set touches an event exactly when the patterns it was compiled from do.
proof fn lemma_set_follows_patterns(patterns: Seq<Seq<char>>, set: GlobSet, info: EventInfo)
    requires
        is_glob_set_of(Some(patterns), Ok(Some(set))),
    ensures
        touches(set, info) <==> patterns_touch(patterns, info),
{
    if touches(set, info) {
        let i = choose|i: int|
            0 <= i < info.paths@.len() && any_rule_matches(
                set_rules(set),
                (#[trigger] info.paths@[i])@,
            );
        law_set_matches_by_patterns(patterns, set, info.paths@[i]@);
    }
    if patterns_touch(patterns, info) {
        let (p, i) = choose|p: int, i: int|
            {
                &&& 0 <= p < patterns.len()
                &&& 0 <= i < info.paths@.len()
                &&& #[trigger] glob_matches(path_rule(patterns[p]), info.paths@[i]@)
            };
        law_set_matches_by_patterns(patterns, set, info.paths@[i]@);
    }
}

/// Settings that list every type of event and no glob, as the default ones do, accept every
/// event.
pub proof fn law_filter_accepts_everything_by_default(
    args: Args,
    filter: EventFilter,
    info: EventInfo,
)
    requires
        args.events@ == all_event_types(),
        args.excludes is None,
        args.includes is None,
        is_filter_of(args, Ok(filter)),
    ensures
        filter.accepts(info),
{
    let types = all_event_types();
    match info.event {
        EventType::Access => assert(types[0] == info.event),
        EventType::Modify => assert(types[1] == info.event),
        EventType::Move => assert(types[2] == info.event),
        EventType::Create => assert(types[3] == info.event),
        EventType::Delete => assert(types[4] == info.event),
    }
}

/// An event without paths passes any globs that exclude, and none that include.
pub proof fn law_event_without_paths(filter: EventFilter, info: EventInfo)
    requires
        info.paths@.len() == 0,
    ensures
        filter.accepts(info) <==> filter.events@.contains(info.event)
            && filter.include_globs is None,
{
}

/// A set of globs touches an event exactly when one of its globs matches one of the paths, at
/// whatever place the two stand.
pub proof fn law_set_touches_by_any_path(set: GlobSet, info: EventInfo)
    ensures
        touches(set, info) <==> exists|k: int, i: int|
            {
                &&& 0 <= k < set_rules(set).len()
                &&& 0 <= i < info.paths@.len()
                &&& #[trigger] glob_matches(set_rules(set)[k], info.paths@[i]@)
            },
{
    let rules = set_rules(set);
    if touches(set, info) {
        let i = choose|i: int|
            0 <= i < info.paths@.len() && any_rule_matches(rules, (#[trigger] info.paths@[i])@);
        let k = choose|k: int|
            0 <= k < rules.len() && glob_matches(#[trigger] rules[k], info.paths@[i]@);
        assert(glob_matches(set_rules(set)[k], info.paths@[i]@));
    }
    if exists|k: int, i: int|
        {
            &&& 0 <= k < rules.len()
            &&& 0 <= i < info.paths@.len()
            &&& #[trigger] glob_matches(rules[k], info.paths@[i]@)
        } {
        let (k, i) = choose|k: int, i: int|
            {
                &&& 0 <= k < rules.len()
                &&& 0 <= i < info.paths@.len()
                &&& #[trigger] glob_matches(rules[k], info.paths@[i]@)
            };
        assert(any_rule_matches(rules, info.paths@[i]@));
    }
}

/// An event is of interest exactly if its type is one of those listened for, no path of it
/// matches a glob that excludes, and, where there are globs that include, one of its paths
/// matches one of them.
pub proof fn law_filter_accepts_by_type_and_globs(filter: EventFilter, info: EventInfo)
    ensures
        filter.accepts(info) <==> {
            &&& exists|t: int| 0 <= t < filter.events@.len() && filter.events@[t] == info.event
            &&& filter.exclude_globs matches Some(set) ==> forall|k: int, i: int|
                0 <= k < set_rules(set).len() && 0 <= i < info.paths@.len()
                    ==> !#[trigger] glob_matches(set_rules(set)[k], info.paths@[i]@)
            &&& filter.include_globs matches Some(set) ==> exists|k: int, i: int|
                {
                    &&& 0 <= k < set_rules(set).len()
                    &&& 0 <= i < info.paths@.len()
                    &&& #[trigger] glob_matches(set_rules(set)[k], info.paths@[i]@)
                }
        },
{
    match filter.exclude_globs {
        Some(set) => law_set_touches_by_any_path(set, info),
        None => {},
    }
    match filter.include_globs {
        Some(set) => law_set_touches_by_any_path(set, info),
        None => {},
    }
}

/// A filter that was made from settings listens for their types of event, and decides by their
/// own patterns: each is read with case minded and wildcards that stop at separators, and an
/// excluding pattern is never taken for an including one.
pub proof fn law_filter_decides_by_settings(args: Args, filter: EventFilter, info: EventInfo)
    requires
        is_filter_of(args, Ok(filter)),
    ensures
        filter.accepts(info) <==> {
            &&& args.events@.contains(info.event)
            &&& args.excludes matches Some(list) ==> forall|p: int, i: int|
                0 <= p < list@.len() && 0 <= i < info.paths@.len() ==> !glob_matches(
                    (GlobRule {
                        pattern: (#[trigger] list@[p])@,
                        case_insensitive: false,
                        literal_separator: true,
                        backslash_escape: true,
                        empty_alternates: false,
                        allow_unclosed_class: false,
                    }),
                    (#[trigger] info.paths@[i])@,
                )
            &&& args.includes matches Some(list) ==> exists|p: int, i: int|
                0 <= p < list@.len() && 0 <= i < info.paths@.len() && glob_matches(
                    (GlobRule {
                        pattern: (#[trigger] list@[p])@,
                        case_insensitive: false,
                        literal_separator: true,
                        backslash_escape: true,
                        empty_alternates: false,
                        allow_unclosed_class: false,
                    }),
                    (#[trigger] info.paths@[i])@,
                )
        },
{
    law_filter_follows_patterns(args, filter, info);
    match args.excludes {
        Some(list) => lemma_patterns_touch_by_list(list, info),
        None => {},
    }
    match args.includes {
        Some(list) => lemma_patterns_touch_by_list(list, info),
        None => {},
    }
}

proof fn lemma_patterns_touch_by_list(list: Vec<String>, info: EventInfo)
    ensures
        patterns_touch(texts(list@), info) <==> exists|p: int, i: int|
            0 <= p < list@.len() && 0 <= i < info.paths@.len() && glob_matches(
                (GlobRule {
                    pattern: (#[trigger] list@[p])@,
                    case_insensitive: false,
                    literal_separator: true,
                    backslash_escape: true,
                    empty_alternates: false,
                    allow_unclosed_class: false,
                }),
                (#[trigger] info.paths@[i])@,
            ),
{
    let found = texts(list@);
    assert forall|p: int| 0 <= p < found.len() implies #[trigger] path_rule(found[p]) == (GlobRule {
        pattern: list@[p]@,
        case_insensitive: false,
        literal_separator: true,
        backslash_escape: true,
        empty_alternates: false,
        allow_unclosed_class: false,
    }) by {}
    if patterns_touch(found, info) {
        let (p, i) = choose|p: int, i: int|
            {
                &&& 0 <= p < found.len()
                &&& 0 <= i < info.paths@.len()
                &&& #[trigger] glob_matches(path_rule(found[p]), info.paths@[i]@)
            };
        assert(list@[p]@ == found[p]);
    }
    if exists|p: int, i: int|
        0 <= p < list@.len() && 0 <= i < info.paths@.len() && glob_matches(
            path_rule((#[trigger] list@[p])@),
            (#[trigger] info.paths@[i])@,
        ) {
        let (p, i) = choose|p: int, i: int|
            0 <= p < list@.len() && 0 <= i < info.paths@.len() && glob_matches(
                path_rule((#[trigger] list@[p])@),
                (#[trigger] info.paths@[i])@,
            );
        assert(glob_matches(path_rule(found[p]), info.paths@[i]@));
    }
}

/// A filter is refused for a pattern or for a set of patterns, and for nothing else: settings
/// without patterns always make one. One that is made has the types of event of the settings,
/// and globs of each kind exactly where they list some.
pub proof fn law_filter_is_refused_for_patterns(args: Args, res: Result<EventFilter, Error>)
    requires
        is_filter_of(args, res),
    ensures
        args.excludes is None && args.includes is None ==> res is Ok,
        res matches Err(e) ==> e is Glob || e is GlobSet,
        res matches Ok(filter) ==> {
            &&& filter.events@ == args.events@
            &&& filter.exclude_globs is Some <==> args.excludes is Some
            &&& filter.include_globs is Some <==> args.includes is Some
        },
{
}

/// Where the excluding pattern at index `i` is the first that the compiler rejects, the filter
/// is refused with the text of that pattern's error, whatever the including ones are.
pub proof fn law_first_bad_exclude_is_reported(
    args: Args,
    list: Vec<String>,
    res: Result<EventFilter, Error>,
    i: int,
    text: Seq<char>,
)
    requires
        is_filter_of(args, res),
        args.excludes == Some(list),
        0 <= i < list@.len(),
        forall|j: int|
            0 <= j < i ==> glob_error(
                (GlobRule {
                    pattern: (#[trigger] list@[j])@,
                    case_insensitive: false,
                    literal_separator: true,
                    backslash_escape: true,
                    empty_alternates: false,
                    allow_unclosed_class: false,
                }),
            ) is None,
        glob_error(
            (GlobRule {
                pattern: (list@[i])@,
                case_insensitive: false,
                literal_separator: true,
                backslash_escape: true,
                empty_alternates: false,
                allow_unclosed_class: false,
            }),
        ) == Some(text),
    ensures
        res matches Err(Error::Glob(t)) && t@ == text,
{
    let found = texts(list@);
    assert(glob_error(path_rule(found[i])) is Some);
    match res {
        Err(e) => {
            assert(is_glob_set_of(Some(found), Err(e)));
            assert forall|j: int| 0 <= j < i implies glob_error(
                path_rule(#[trigger] found[j]),
            ) is None by {
                assert(found[j] == list@[j]@);
            }
            law_first_bad_pattern_is_reported(found, Err(e), i);
        },
        Ok(_) => {},
    }
}

/// Where the including pattern at index `i` is the first that the compiler rejects, and it
/// rejects no excluding one, the filter is refused with the text of that pattern's error, unless
/// the excluding patterns are refused as a whole.
pub proof fn law_first_bad_include_is_reported(
    args: Args,
    list: Vec<String>,
    res: Result<EventFilter, Error>,
    i: int,
    text: Seq<char>,
)
    requires
        is_filter_of(args, res),
        args.includes == Some(list),
        args.excludes matches Some(others) ==> forall|j: int|
            0 <= j < others@.len() ==> glob_error(
                (GlobRule {
                    pattern: (#[trigger] others@[j])@,
                    case_insensitive: false,
                    literal_separator: true,
                    backslash_escape: true,
                    empty_alternates: false,
                    allow_unclosed_class: false,
                }),
            ) is None,
        0 <= i < list@.len(),
        forall|j: int|
            0 <= j < i ==> glob_error(
                (GlobRule {
                    pattern: (#[trigger] list@[j])@,
                    case_insensitive: false,
                    literal_separator: true,
                    backslash_escape: true,
                    empty_alternates: false,
                    allow_unclosed_class: false,
                }),
            ) is None,
        glob_error(
            (GlobRule {
                pattern: (list@[i])@,
                case_insensitive: false,
                literal_separator: true,
                backslash_escape: true,
                empty_alternates: false,
                allow_unclosed_class: false,
            }),
        ) == Some(text),
    ensures
        match res {
            Err(Error::Glob(t)) => t@ == text,
            Err(Error::GlobSet(_)) => args.excludes matches Some(others) && others@.len() > 0,
            _ => false,
        },
{
    let found = texts(list@);
    assert(glob_error(path_rule(found[i])) is Some);
    assert forall|j: int| 0 <= j < i implies glob_error(path_rule(#[trigger] found[j])) is None by {
        assert(found[j] == list@[j]@);
    }
    match args.excludes {
        Some(others) => {
            let excluded = texts(others@);
            assert forall|j: int| 0 <= j < excluded.len() implies glob_error(
                path_rule(#[trigger] excluded[j]),
            ) is None by {
                assert(excluded[j] == others@[j]@);
            }
        },
        None => {},
    }
    match res {
        Err(e) => {
            if is_glob_set_of(Some(found), Err(e)) {
                law_first_bad_pattern_is_reported(found, Err(e), i);
            }
        },
        Ok(_) => {},
    }
}

/// An event is wanted exactly if its type is listened for, it is not excluded, and it is included
/// where there is something to include.
pub proof fn law_wanted_events(listed: bool, excluded: bool, included: bool, res: bool)
    ensures
        call_ensures(wanted, (listed, None, None), res) ==> res == listed,
        call_ensures(wanted, (listed, Some(excluded), None), res) ==> res == (listed && !excluded),
        call_ensures(wanted, (listed, None, Some(included)), res) ==> res == (listed && included),
        call_ensures(wanted, (listed, Some(excluded), Some(included)), res) ==> res == (listed
            && !excluded && included),
{
}

/// A filter of two sets has the types and the sets that it was given, each in its place, and an
/// error of the excluding set goes before one of the including set.
pub proof fn law_filter_of_sets(
    events: Vec<EventType>,
    excludes: Result<Option<GlobSet>, Error>,
    includes: Result<Option<GlobSet>, Error>,
    res: Result<EventFilter, Error>,
)
    requires
        call_ensures(EventFilter::of_sets, (events, excludes, includes), res),
    ensures
        excludes matches Err(e) ==> res == Err::<EventFilter, Error>(e),
        excludes is Ok ==> (includes matches Err(e) ==> res == Err::<EventFilter, Error>(e)),
        match (excludes, includes) {
            (Ok(x), Ok(y)) => {
                &&& res matches Ok(filter)
                &&& filter.events == events
                &&& filter.exclude_globs == x
                &&& filter.include_globs == y
            },
            _ => true,
        },
{
}

/// What a filter made from settings lets through, for every event: exactly the events whose type
/// the settings list, none of whose paths an excluding pattern matches, and one of whose paths an
/// including pattern matches where there are any, with the patterns read as those of paths are.
pub proof fn law_made_filter_decides_by_settings(
    args: Args,
    filter: EventFilter,
    info: EventInfo,
    passes: bool,
)
    requires
        call_ensures(EventFilter::new, (&args,), Ok(filter)),
        call_ensures(EventFilter::filter, (&filter, &info), passes),
    ensures
        passes <==> {
            &&& args.events@.contains(info.event)
            &&& args.excludes matches Some(list) ==> forall|p: int, i: int|
                0 <= p < list@.len() && 0 <= i < info.paths@.len() ==> !glob_matches(
                    (GlobRule {
                        pattern: (#[trigger] list@[p])@,
                        case_insensitive: false,
                        literal_separator: true,
                        backslash_escape: true,
                        empty_alternates: false,
                        allow_unclosed_class: false,
                    }),
                    (#[trigger] info.paths@[i])@,
                )
            &&& args.includes matches Some(list) ==> exists|p: int, i: int|
                0 <= p < list@.len() && 0 <= i < info.paths@.len() && glob_matches(
                    (GlobRule {
                        pattern: (#[trigger] list@[p])@,
                        case_insensitive: false,
                        literal_separator: true,
                        backslash_escape: true,
                        empty_alternates: false,
                        allow_unclosed_class: false,
                    }),
                    (#[trigger] info.paths@[i])@,
                )
        },
{
    law_filter_decides_by_settings(args, filter, info);
}

} // verus!
