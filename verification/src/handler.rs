//! What is done with the events that come in.
use crate::error::Error;
use crate::event::{
    law_line_leaves_out_unreadable_paths, law_line_shows_every_readable_path, EventInfo,
};
use crate::text::{join, joined, texts, utf8_str, utf8_text};
use vstd::prelude::*;
use vstd::utf8::{decode_utf8, valid_utf8};

verus! {

/// What one item of the event stream asks for. `T` is the type of text.
#[derive(Debug, PartialEq, Eq)]
pub struct Step<T> {
    /// Start a process, before anything is written.
    pub spawn: bool,
    /// Text to write to where the handler reports events.
    pub output: Option<T>,
}

impl View for Step<String> {
    type V = Step<Seq<char>>;

    open spec fn view(&self) -> Step<Seq<char>> {
        Step {
            spawn: self.spawn,
            output: match self.output {
                Some(text) => Some(text@),
                None => None,
            },
        }
    }
}

impl Step<String> {
    /// The step that asks for nothing.
    pub fn idle() -> (step: Step<String>)
        ensures
            step@ == idle_step(),
    {
        Step { spawn: false, output: None }
    }
}

/// The step that asks for nothing.
pub open spec fn idle_step() -> Step<Seq<char>> {
    Step { spawn: false, output: None }
}

/// A consumer of the event stream. An item of the stream is an event, or `None` when
/// no event came in for the time of the poll interval.
pub trait Handler: Sized {
    /// What is remembered from one item to the next.
    type State;

    /// The state before the first item.
    spec fn initial(&self) -> Self::State;

    /// The state after an item. `alive` tells whether the process that the state
    /// takes to be running is still alive; without such a process it means nothing.
    spec fn next_state(&self, state: Self::State, item: Option<EventInfo>, alive: bool) -> Self::State;

    /// What an item asks for.
    spec fn next_step(&self, state: Self::State, item: Option<EventInfo>, alive: bool) -> Step<
        Seq<char>,
    >;

    /// Whether a process is taken to be running, so that it has to be polled.
    spec fn has_process(&self, state: Self::State) -> bool;

    /// The result when the stream ends.
    spec fn end(&self) -> Result<(), Error>;

    /// Gives the state before the first item.
    fn start(&self) -> (state: Self::State)
        ensures
            state == self.initial(),
    ;

    /// Tells whether a process is taken to be running.
    fn polls(&self, state: &Self::State) -> (res: bool)
        ensures
            res == self.has_process(*state),
    ;

    /// Takes one item of the stream and says what has to be done for it.
    fn handle(&self, state: &mut Self::State, item: Option<EventInfo>, alive: bool) -> (step: Step<
        String,
    >)
        ensures
            *final(state) == self.next_state(*old(state), item, alive),
            step@ == self.next_step(*old(state), item, alive),
    ;

    /// Gives the result when the stream ends.
    fn finish(&self) -> (res: Result<(), Error>)
        ensures
            res == self.end(),
    ;

    /// Writes the line that reports an event.
    fn format(&self, e: &EventInfo) -> (line: String)
        ensures
            line@ == e.line(),
    {
        let ghost read = |path: Seq<u8>| utf8_text(path);
        let ghost paths = e.path_bytes();
        let mut parts: Vec<String> = Vec::new();
        let mut i: usize = 0;
        proof {
            assert(paths.take(0) =~= Seq::empty());
            assert(texts(parts@) =~= paths.take(0).filter_map(read));
        }
        while i < e.paths.len()
            invariant
                0 <= i <= e.paths.len(),
                paths == e.path_bytes(),
                read == |path: Seq<u8>| utf8_text(path),
                texts(parts@) == paths.take(i as int).filter_map(read),
            decreases e.paths.len() - i,
        {
            let ghost before = parts@;
            proof {
                paths.lemma_filter_map_take_succ(read, i as int);
            }
            match utf8_str(e.paths[i].as_slice()) {
                Some(text) => {
                    parts.push(text.to_owned());
                    assert(texts(parts@) =~= texts(before).push(text@));
                },
                None => {},
            }
            i = i + 1;
        }
        assert(paths.take(i as int) =~= paths);
        let mut line: String = e.event.as_str().to_owned();
        line.append(" ");
        line.append(join(&parts, ",").as_str());
        line.append("\n");
        line
    }
}

/// An item of the event stream, with what was found out about the running process
/// when the item came in.
pub type Observed = (Option<EventInfo>, bool);

/// The state after a run of items, from a given state on.
pub open spec fn state_after<H: Handler>(
    handler: H,
    state: H::State,
    items: Seq<Observed>,
) -> H::State
    decreases items.len(),
{
    if items.len() == 0 {
        state
    } else {
        handler.next_state(
            state_after(handler, state, items.drop_last()),
            items.last().0,
            items.last().1,
        )
    }
}

/// What the item at index `i` of a run from the start asks for.
pub open spec fn step_at<H: Handler>(handler: H, items: Seq<Observed>, i: int) -> Step<Seq<char>> {
    handler.next_step(
        state_after(handler, handler.initial(), items.take(i)),
        items[i].0,
        items[i].1,
    )
}

/// Reports every event on a line of its own.
#[derive(Debug, Copy, Clone, PartialEq, Eq, Structural)]
pub struct SimpleHandler;

impl Handler for SimpleHandler {
    type State = ();

    open spec fn initial(&self) -> () {
        ()
    }

    open spec fn next_state(&self, state: (), item: Option<EventInfo>, alive: bool) -> () {
        ()
    }

    open spec fn next_step(&self, state: (), item: Option<EventInfo>, alive: bool) -> Step<
        Seq<char>,
    > {
        match item {
            Some(info) => Step { spawn: false, output: Some(info.line()) },
            None => idle_step(),
        }
    }

    open spec fn has_process(&self, state: ()) -> bool {
        false
    }

    open spec fn end(&self) -> Result<(), Error> {
        Ok(())
    }

    fn start(&self) -> (state: ()) {
        ()
    }

    fn polls(&self, state: &()) -> (res: bool) {
        false
    }

    fn handle(&self, state: &mut (), item: Option<EventInfo>, alive: bool) -> (step: Step<String>) {
        match item {
            Some(info) => Step { spawn: false, output: Some(self.format(&info)) },
            None => Step::idle(),
        }
    }

    fn finish(&self) -> (res: Result<(), Error>) {
        Ok(())
    }
}

/// The simple handler reports each event when it comes in, on the event's line, stays
/// silent on timeouts, and never starts a process.
pub proof fn law_simple_handler_reports_each_event(
    handler: SimpleHandler,
    items: Seq<Observed>,
    i: int,
)
    requires
        0 <= i < items.len(),
    ensures
        !step_at(handler, items, i).spawn,
        match items[i].0 {
            Some(info) => step_at(handler, items, i).output == Some(info.line()),
            None => step_at(handler, items, i).output is None,
        },
{
}

/// The view of a step changes nothing but the type of its text. An idle step neither starts a
/// process nor writes.
pub proof fn law_step_views(step: Step<String>)
    ensures
        step@.spawn == step.spawn,
        step@.output is Some <==> step.output is Some,
        step.output matches Some(text) ==> step@.output == Some(text@),
        !idle_step().spawn,
        idle_step().output is None,
{
}

/// A run of no items leaves the state as it is, and one more item at its end takes it to the
/// next state. What an item asks for depends on the items before it alone.
pub proof fn law_items_are_taken_one_by_one<H: Handler>(
    handler: H,
    state: H::State,
    items: Seq<Observed>,
    item: Observed,
    later: Seq<Observed>,
)
    ensures
        state_after(handler, state, Seq::empty()) == state,
        state_after(handler, state, items.push(item)) == handler.next_state(
            state_after(handler, state, items),
            item.0,
            item.1,
        ),
        step_at(handler, items.push(item) + later, items.len() as int) == handler.next_step(
            state_after(handler, handler.initial(), items),
            item.0,
            item.1,
        ),
{
    assert(items.push(item).drop_last() =~= items);
    assert((items.push(item) + later).take(items.len() as int) =~= items);
}

/// The simple handler has no process, so it never asks about one. Every event makes a step
/// whose text is the event's line, a timeout makes one without text, and the end of the events
/// is no error.
pub proof fn law_simple_handler_only_writes_lines(
    handler: SimpleHandler,
    state: (),
    info: EventInfo,
    alive: bool,
)
    ensures
        !handler.has_process(state),
        handler.next_step(state, Some(info), alive) == (Step {
            spawn: false,
            output: Some(info.line()),
        }),
        handler.next_step(state, None, alive) == (Step { spawn: false, output: None::<Seq<char>> }),
        handler.end() is Ok,
{
}

/// The line that a handler writes for an event all of whose paths are readable, whichever handler
/// it is: the name of the type, a space, the decoded texts of all paths in order with commas
/// between them, and a line feed. For one path, wherever it lies, that is the text of the path
/// between the space and the line feed.
pub proof fn law_written_line_shows_every_readable_path<H: Handler>(
    handler: H,
    info: EventInfo,
    line: String,
)
    requires
        call_ensures(H::format, (&handler, &info), line),
        forall|i: int| 0 <= i < info.paths@.len() ==> valid_utf8(#[trigger] info.paths@[i]@),
    ensures
        line@ == info.event.name() + " "@ + joined(
            Seq::new(info.paths@.len(), |i: int| decode_utf8(info.paths@[i]@)),
            ","@,
        ) + "\n"@,
        info.paths@.len() == 1 ==> line@ == info.event.name() + " "@ + decode_utf8(
            info.paths@[0]@,
        ) + "\n"@,
{
    law_line_shows_every_readable_path(info);
}

/// An unreadable path makes no difference to the line that is written: without the path at index
/// `i` the line is the same, if that path is not valid UTF-8.
pub proof fn law_written_line_leaves_out_unreadable_paths<H: Handler>(
    handler: H,
    info: EventInfo,
    less: EventInfo,
    i: int,
    line: String,
    shorter: String,
)
    requires
        call_ensures(H::format, (&handler, &info), line),
        call_ensures(H::format, (&handler, &less), shorter),
        0 <= i < info.paths@.len(),
        less.event == info.event,
        less.paths@ == info.paths@.remove(i),
        !valid_utf8(info.paths@[i]@),
    ensures
        line@ == shorter@,
{
    law_line_leaves_out_unreadable_paths(info, less, i);
}

/// What the simple handler does with an item, whatever it is told of a process: it writes the
/// line of an event, and does nothing on a timeout.
pub proof fn law_simple_handler_writes_what_it_formats(
    handler: SimpleHandler,
    state: &mut (),
    info: EventInfo,
    alive: bool,
    line: String,
    step: Step<String>,
)
    requires
        call_ensures(SimpleHandler::format, (&handler, &info), line),
        call_ensures(SimpleHandler::handle, (&handler, state, Some(info), alive), step),
    ensures
        !step.spawn,
        step.output matches Some(text) && text@ == line@,
{
}

} // verus!
