//! Waiting for events of interest.
use crate::args::{Args, Interval};
use crate::error::Error;
use crate::event::{EventInfo, EventType};
use crate::filter::{is_filter_of, EventFilter};
use crate::text::{decimal, decimal_string, join, joined, law_joined_part_by_part, texts};
use vstd::prelude::*;

verus! {

/// The number of events that may wait to be received before reporting blocks.
pub const CHANNEL_SIZE: usize = 1000;

/// How far below a path it is watched.
#[derive(Debug, Copy, Clone, PartialEq, Eq, Structural)]
pub enum RecursiveMode {
    Recursive,
    NonRecursive,
}

/// What is watched, how long to wait, and which events are of interest.
pub struct EventWatcher {
    pub event_filter: EventFilter,
    pub timeout: Interval,
    pub recurive: bool,
    pub paths: Vec<Vec<u8>>,
}

/// What came of trying to hand an event to the receiver at once.
#[derive(Debug)]
pub enum SendOutcome {
    Sent,
    /// The channel is full; the event comes back.
    Full(EventInfo),
    /// Nobody receives any more; the event comes back.
    Disconnected(EventInfo),
}

/// What remains to be done with an event after trying to hand it over.
#[derive(Debug)]
pub enum Delivery {
    Done,
    /// Send it again, waiting for room.
    Wait(EventInfo),
    /// It cannot be delivered.
    Lost(EventInfo),
}

/// What came of waiting on the channel.
#[derive(Debug)]
pub enum Received {
    Event(EventInfo),
    /// Nothing came in for the time of the poll interval.
    Timeout,
    /// Nobody sends any more.
    Disconnected,
}

/// What to do after waiting on the channel.
#[derive(Debug)]
pub enum Wait {
    /// Wait again.
    Again,
    /// Hand out an item of the event stream.
    Item(Option<EventInfo>),
    /// End the event stream.
    End,
}

/// Decides what to do after trying to hand over an event: a full channel is waited for, a
/// closed one is not.
pub fn delivery(outcome: SendOutcome) -> (next: Delivery)
    ensures
        next == (match outcome {
            SendOutcome::Sent => Delivery::Done,
            SendOutcome::Full(info) => Delivery::Wait(info),
            SendOutcome::Disconnected(info) => Delivery::Lost(info),
        }),
{
    match outcome {
        SendOutcome::Sent => Delivery::Done,
        SendOutcome::Full(info) => Delivery::Wait(info),
        SendOutcome::Disconnected(info) => Delivery::Lost(info),
    }
}

/// A list of event types as debug output shows it.
pub open spec fn event_list(events: Seq<EventType>) -> Seq<char> {
    "["@ + joined(events.map_values(|e: EventType| e.identifier()), ", "@) + "]"@
}

/// Writes a list of event types as debug output shows it.
fn event_list_string(events: &Vec<EventType>) -> (text: String)
    ensures
        text@ == event_list(events@),
{
    let ghost identify = |e: EventType| e.identifier();
    let mut names: Vec<String> = Vec::new();
    let mut i: usize = 0;
    assert(texts(names@) =~= events@.take(0).map_values(identify));
    while i < events.len()
        invariant
            0 <= i <= events.len(),
            identify == |e: EventType| e.identifier(),
            texts(names@) == events@.take(i as int).map_values(identify),
        decreases events.len() - i,
    {
        let ghost before = names@;
        names.push(events[i].debug_str().to_owned());
        assert(texts(names@) =~= events@.take(i + 1).map_values(identify)) by {
            assert(texts(names@) =~= texts(before).push(events@[i as int].identifier()));
        }
        i = i + 1;
    }
    assert(events@.take(i as int) =~= events@);
    let mut text = "[".to_owned();
    text.append(join(&names, ", ").as_str());
    text.append("]");
    text
}

impl EventWatcher {
    /// The mode in which every path is watched.
    pub open spec fn mode(self) -> RecursiveMode {
        if self.recurive {
            RecursiveMode::Recursive
        } else {
            RecursiveMode::NonRecursive
        }
    }

    /// What is shown when watching starts, given how the list of paths is shown.
    pub open spec fn banner(self, paths: Seq<char>) -> Seq<char> {
        "waiting "@ + event_list(self.event_filter.events@) + " events in interval "@ + decimal(
            self.timeout.secs as nat,
        ) + "s for "@ + (if self.recurive {
            "recurive "@
        } else {
            Seq::empty()
        }) + decimal(self.paths@.len()) + " paths: "@ + paths
    }

    /// What to do after waiting on the channel: events of interest and timeouts are handed
    /// out, other events are passed over, and a closed channel ends the stream.
    pub open spec fn after(self, received: Received) -> Wait {
        match received {
            Received::Event(info) => if self.event_filter.accepts(info) {
                Wait::Item(Some(info))
            } else {
                Wait::Again
            },
            Received::Timeout => Wait::Item(None),
            Received::Disconnected => Wait::End,
        }
    }

    /// The event stream that a sequence of receptions makes.
    pub open spec fn stream(self, received: Seq<Received>) -> Seq<Option<EventInfo>>
        decreases received.len(),
    {
        if received.len() == 0 {
            Seq::empty()
        } else {
            match self.after(received[0]) {
                Wait::Again => self.stream(received.skip(1)),
                Wait::Item(item) => seq![item] + self.stream(received.skip(1)),
                Wait::End => Seq::empty(),
            }
        }
    }

    /// Whether the interval, the flag and the paths are those of the settings.
    pub open spec fn follows(self, args: Args) -> bool {
        &&& self.timeout == args.poll_interval
        &&& self.recurive == args.recurive
        &&& self.paths@.map_values(|p: Vec<u8>| p@) == args.paths@.map_values(|p: Vec<u8>| p@)
    }

    /// Makes the watcher that the settings ask for.
    pub fn new(args: &Args) -> (res: Result<EventWatcher, Error>)
        ensures
            match res {
                Ok(watcher) => {
                    &&& is_filter_of(*args, Ok(watcher.event_filter))
                    &&& watcher.follows(*args)
                    &&& watcher.timeout == args.poll_interval
                    &&& watcher.recurive == args.recurive
                    &&& watcher.paths@.len() == args.paths@.len()
                    &&& forall|i: int|
                        0 <= i < args.paths@.len() ==> (#[trigger] watcher.paths@[i])@
                            == args.paths@[i]@
                },
                Err(e) => is_filter_of(*args, Err(e)),
            },
    {
        EventWatcher::with_filter(args, EventFilter::new(args))
    }

    /// Makes the watcher of a filter, if that was made. Nothing else can go wrong.
    pub fn with_filter(args: &Args, filter: Result<EventFilter, Error>) -> (res: Result<
        EventWatcher,
        Error,
    >)
        ensures
            match filter {
                Ok(filter) => {
                    &&& res matches Ok(watcher)
                    &&& watcher.event_filter == filter
                    &&& watcher.follows(*args)
                    &&& watcher.timeout == args.poll_interval
                    &&& watcher.recurive == args.recurive
                    &&& watcher.paths@.len() == args.paths@.len()
                    &&& forall|i: int|
                        0 <= i < args.paths@.len() ==> (#[trigger] watcher.paths@[i])@
                            == args.paths@[i]@
                },
                Err(e) => res == Err::<EventWatcher, Error>(e),
            },
    {
        let event_filter = match filter {
            Ok(filter) => filter,
            Err(e) => {
                return Err(e);
            },
        };
        let paths = args.paths.clone();
        assert(paths@.map_values(|p: Vec<u8>| p@) =~= args.paths@.map_values(|p: Vec<u8>| p@));
        Ok(
            EventWatcher {
                event_filter,
                timeout: args.poll_interval,
                recurive: args.recurive,
                paths,
            },
        )
    }

    /// Gives the mode in which every path is watched.
    pub fn recursive_mode(&self) -> (mode: RecursiveMode)
        ensures
            mode == self.mode(),
            mode == RecursiveMode::Recursive <==> self.recurive,
    {
        if self.recurive {
            RecursiveMode::Recursive
        } else {
            RecursiveMode::NonRecursive
        }
    }

    /// Writes what is shown when watching starts, given how the list of paths is shown.
    pub fn start_message(&self, paths: &str) -> (text: String)
        ensures
            text@ == self.banner(paths@),
    {
        let mut text = "waiting ".to_owned();
        text.append(event_list_string(&self.event_filter.events).as_str());
        text.append(" events in interval ");
        text.append(decimal_string(self.timeout.secs).as_str());
        text.append("s for ");
        if self.recurive {
            text.append("recurive ");
        }
        text.append(decimal_string(self.paths.len() as u64).as_str());
        text.append(" paths: ");
        text.append(paths);
        assert(text@ =~= self.banner(paths@));
        text
    }

    /// Decides what to do after waiting on the channel.
    pub fn wait_next(&self, received: Received) -> (next: Wait)
        ensures
            next == self.after(received),
    {
        match received {
            Received::Event(info) => {
                if self.event_filter.filter(&info) {
                    Wait::Item(Some(info))
                } else {
                    Wait::Again
                }
            },
            Received::Timeout => Wait::Item(None),
            Received::Disconnected => Wait::End,
        }
    }
}

/// What a reception adds to the event stream.
pub open spec fn item_of(filter: EventFilter, received: Received) -> Option<Option<EventInfo>> {
    match received {
        Received::Event(info) if filter.accepts(info) => Some(Some(info)),
        Received::Timeout => Some(None),
        _ => None,
    }
}

/// The event stream is what was received before the channel closed, in order, without the
/// events that the filter does not accept: none of the others is lost or repeated. The
/// channel closes at index `open`, or is still open where that is past the end.
pub proof fn law_stream_is_filtered_reception(
    watcher: EventWatcher,
    received: Seq<Received>,
    open: int,
)
    requires
        0 <= open <= received.len(),
        forall|i: int| 0 <= i < open ==> #[trigger] received[i] !is Disconnected,
        open < received.len() ==> received[open] is Disconnected,
    ensures
        watcher.stream(received) == received.take(open).filter_map(
            |r: Received| item_of(watcher.event_filter, r),
        ),
    decreases received.len(),
{
    let item = |r: Received| item_of(watcher.event_filter, r);
    let taken = received.take(open);
    if open > 0 {
        let rest = received.skip(1);
        assert forall|i: int| 0 <= i < open - 1 implies #[trigger] rest[i] !is Disconnected by {
            assert(rest[i] == received[i + 1]);
        }
        law_stream_is_filtered_reception(watcher, rest, open - 1);
        lemma_filter_map_first(taken, item);
        assert(taken.skip(1) =~= rest.take(open - 1));
        assert(taken[0] == received[0]);
    }
}

/// A sequence may be mapped and filtered from its first element on.
proof fn lemma_filter_map_first<A, B>(s: Seq<A>, f: spec_fn(A) -> Option<B>)
    requires
        s.len() > 0,
    ensures
        s.filter_map(f) == (match f(s[0]) {
            Some(b) => seq![b],
            None => Seq::empty(),
        }) + s.skip(1).filter_map(f),
    decreases s.len(),
{
    let front = s.drop_last();
    if front.len() > 0 {
        lemma_filter_map_first(front, f);
        assert(front.skip(1) =~= s.skip(1).drop_last());
    } else {
        assert(front =~= Seq::empty());
        assert(s.skip(1) =~= Seq::empty());
    }
}

/// Every event of the stream is of interest.
pub proof fn law_stream_holds_accepted_events(
    watcher: EventWatcher,
    received: Seq<Received>,
    i: int,
)
    requires
        0 <= i < watcher.stream(received).len(),
    ensures
        watcher.stream(received)[i] matches Some(info) ==> watcher.event_filter.accepts(info),
    decreases received.len(),
{
    match watcher.after(received[0]) {
        Wait::Again => law_stream_holds_accepted_events(watcher, received.skip(1), i),
        Wait::Item(_) => {
            if i > 0 {
                law_stream_holds_accepted_events(watcher, received.skip(1), i - 1);
            }
        },
        Wait::End => {},
    }
}

/// A watcher that was made from settings, whatever else they say: it looks below the paths
/// exactly if the settings ask for it, waits for their interval, and watches all of their paths
/// in order.
pub proof fn law_watcher_follows_settings(watcher: EventWatcher, args: Args)
    requires
        watcher.follows(args),
    ensures
        watcher.mode() == RecursiveMode::Recursive <==> args.recurive,
        watcher.mode() == RecursiveMode::NonRecursive <==> !args.recurive,
        watcher.timeout == args.poll_interval,
        watcher.recurive == args.recurive,
        watcher.paths@.len() == args.paths@.len(),
        forall|i: int|
            0 <= i < args.paths@.len() ==> (#[trigger] watcher.paths@[i])@ == args.paths@[i]@,
{
    let found = watcher.paths@.map_values(|p: Vec<u8>| p@);
    let listed = args.paths@.map_values(|p: Vec<u8>| p@);
    assert(found.len() == listed.len());
    assert forall|i: int| 0 <= i < args.paths@.len() implies (#[trigger] watcher.paths@[i])@
        == args.paths@[i]@ by {
        assert(found[i] == listed[i]);
    }
}

/// Settings that agree on what is watched, how deep and for how long make watchers that agree
/// on it too: no other setting, the command included, has a part in it.
pub proof fn law_watchers_of_like_settings_are_alike(
    x: EventWatcher,
    y: EventWatcher,
    a: Args,
    b: Args,
)
    requires
        x.follows(a),
        y.follows(b),
    ensures
        a.recurive == b.recurive <==> x.mode() == y.mode(),
        a.poll_interval == b.poll_interval <==> x.timeout == y.timeout,
        a.paths@ == b.paths@ ==> {
            &&& x.paths@.len() == y.paths@.len()
            &&& forall|i: int| 0 <= i < x.paths@.len() ==> (#[trigger] x.paths@[i])@ == y.paths@[i]@
        },
{
    law_watcher_follows_settings(x, a);
    law_watcher_follows_settings(y, b);
}

/// A watcher that has the interval, the flag and the paths of settings is one that they make.
pub proof fn law_what_follows_settings(watcher: EventWatcher, args: Args)
    requires
        watcher.timeout == args.poll_interval,
        watcher.recurive == args.recurive,
        watcher.paths@ == args.paths@,
    ensures
        watcher.follows(args),
{
}

/// What is done with a reception. An event is handed out as it is if the filter accepts it, and
/// else passed over; a timeout is handed out as such; and the stream ends exactly when nobody
/// sends any more.
pub proof fn law_what_is_done_with_receptions(watcher: EventWatcher, received: Received)
    ensures
        received matches Received::Event(info) ==> watcher.after(received) == (
        if watcher.event_filter.accepts(info) {
            Wait::Item(Some(info))
        } else {
            Wait::Again
        }),
        watcher.after(received) == Wait::Item(None) <==> received is Timeout,
        watcher.after(received) is End <==> received is Disconnected,
{
}

/// The stream grows reception by reception, from the first on.
pub proof fn law_stream_reception_by_reception(
    watcher: EventWatcher,
    info: EventInfo,
    rest: Seq<Received>,
)
    ensures
        watcher.stream(Seq::empty()) == Seq::<Option<EventInfo>>::empty(),
        watcher.stream(seq![Received::Event(info)] + rest) == (if watcher.event_filter.accepts(
            info,
        ) {
            seq![Some(info)] + watcher.stream(rest)
        } else {
            watcher.stream(rest)
        }),
        watcher.stream(seq![Received::Timeout] + rest) == seq![None::<EventInfo>] + watcher.stream(
            rest,
        ),
        watcher.stream(seq![Received::Disconnected] + rest) == Seq::<Option<EventInfo>>::empty(),
        item_of(watcher.event_filter, Received::Event(info)) == (if watcher.event_filter.accepts(
            info,
        ) {
            Some(Some(info))
        } else {
            None
        }),
        item_of(watcher.event_filter, Received::Timeout) == Some(None::<EventInfo>),
        item_of(watcher.event_filter, Received::Disconnected) is None,
{
    assert((seq![Received::Event(info)] + rest).skip(1) =~= rest);
    assert((seq![Received::Timeout] + rest).skip(1) =~= rest);
}

/// A list of event types is shown in brackets, with the identifiers in order and a comma and a
/// space between them.
pub proof fn law_how_event_types_are_shown(events: Seq<EventType>, event: EventType)
    ensures
        event_list(Seq::empty()) == "["@ + "]"@,
        event_list(seq![event]) == "["@ + event.identifier() + "]"@,
        event_list(events) == "["@ + joined(
            Seq::new(events.len(), |i: int| events[i].identifier()),
            ", "@,
        ) + "]"@,
{
    let identify = |e: EventType| e.identifier();
    assert(events.map_values(identify) =~= Seq::new(
        events.len(),
        |i: int| events[i].identifier(),
    ));
    assert(seq![event].map_values(identify) =~= seq![event.identifier()]);
    assert(Seq::<EventType>::empty().map_values(identify) =~= Seq::empty());
    law_joined_part_by_part(Seq::empty(), event.identifier(), ", "@);
    assert(event_list(Seq::empty()) =~= "["@ + "]"@);
}

/// What is shown when watching starts names the types of event, the seconds of the interval and
/// the number of paths, and says exactly then that everything below the paths is watched when it
/// is.
pub proof fn law_what_is_shown_at_the_start(watcher: EventWatcher, paths: Seq<char>)
    ensures
        watcher.recurive ==> watcher.banner(paths) == "waiting "@ + event_list(
            watcher.event_filter.events@,
        ) + " events in interval "@ + decimal(watcher.timeout.secs as nat) + "s for "@
            + "recurive "@ + decimal(watcher.paths@.len()) + " paths: "@ + paths,
        !watcher.recurive ==> watcher.banner(paths) == "waiting "@ + event_list(
            watcher.event_filter.events@,
        ) + " events in interval "@ + decimal(watcher.timeout.secs as nat) + "s for "@ + decimal(
            watcher.paths@.len(),
        ) + " paths: "@ + paths,
{
    if !watcher.recurive {
        assert(watcher.banner(paths) =~= "waiting "@ + event_list(watcher.event_filter.events@)
            + " events in interval "@ + decimal(watcher.timeout.secs as nat) + "s for "@ + decimal(
            watcher.paths@.len(),
        ) + " paths: "@ + paths);
    }
}

/// The watcher that is made with a filter, for all settings and whatever the command: it has that
/// filter, watches everything below the paths exactly if the settings ask for it, waits for their
/// interval, and watches all of their paths in order. Only the filter's own error is passed on.
pub proof fn law_made_watcher_is_that_of_its_settings(
    args: Args,
    filter: Result<EventFilter, Error>,
    res: Result<EventWatcher, Error>,
    mode: RecursiveMode,
)
    requires
        call_ensures(EventWatcher::with_filter, (&args, filter), res),
        res matches Ok(watcher) ==> call_ensures(EventWatcher::recursive_mode, (&watcher,), mode),
    ensures
        filter matches Err(e) ==> res == Err::<EventWatcher, Error>(e),
        filter matches Ok(filter) ==> {
            &&& res matches Ok(watcher)
            &&& watcher.event_filter == filter
            &&& watcher.recurive == args.recurive
            &&& mode == RecursiveMode::Recursive <==> args.recurive
            &&& watcher.timeout == args.poll_interval
            &&& watcher.paths@.len() == args.paths@.len()
            &&& forall|i: int|
                0 <= i < args.paths@.len() ==> (#[trigger] watcher.paths@[i])@ == args.paths@[i]@
        },
{
}

/// Two watchers made from settings agree on what is watched, how deep and for how long as the
/// settings do, whatever the settings say of anything else.
pub proof fn law_made_watchers_differ_as_their_settings(
    a: Args,
    b: Args,
    x: EventWatcher,
    y: EventWatcher,
)
    requires
        call_ensures(EventWatcher::new, (&a,), Ok(x)),
        call_ensures(EventWatcher::new, (&b,), Ok(y)),
    ensures
        x.recurive == y.recurive <==> a.recurive == b.recurive,
        x.timeout == y.timeout <==> a.poll_interval == b.poll_interval,
        a.paths@ == b.paths@ ==> {
            &&& x.paths@.len() == y.paths@.len()
            &&& forall|i: int| 0 <= i < x.paths@.len() ==> (#[trigger] x.paths@[i])@ == y.paths@[i]@
        },
        a.events@ == b.events@ ==> x.event_filter.events@ == y.event_filter.events@,
{
}

/// What is done after waiting: an event that the watcher's own filter lets through comes out
/// unchanged, one that it does not is passed over, and timeouts and the end are told apart.
pub proof fn law_wait_goes_by_filter(
    watcher: EventWatcher,
    info: EventInfo,
    passes: bool,
    event: Wait,
    timeout: Wait,
    end: Wait,
)
    requires
        call_ensures(EventFilter::filter, (&watcher.event_filter, &info), passes),
        call_ensures(EventWatcher::wait_next, (&watcher, Received::Event(info)), event),
        call_ensures(EventWatcher::wait_next, (&watcher, Received::Timeout), timeout),
        call_ensures(EventWatcher::wait_next, (&watcher, Received::Disconnected), end),
    ensures
        passes ==> event == Wait::Item(Some(info)),
        !passes ==> event is Again,
        timeout == Wait::Item(None),
        end is End,
{
}

/// An event that could not be handed over at once is never changed: it waits for room while
/// somebody receives, and is lost only if nobody does.
pub proof fn law_event_is_kept_until_delivered(
    info: EventInfo,
    sent: Delivery,
    full: Delivery,
    closed: Delivery,
)
    requires
        call_ensures(delivery, (SendOutcome::Sent,), sent),
        call_ensures(delivery, (SendOutcome::Full(info),), full),
        call_ensures(delivery, (SendOutcome::Disconnected(info),), closed),
    ensures
        sent is Done,
        full == Delivery::Wait(info),
        closed == Delivery::Lost(info),
{
}

} // verus!
