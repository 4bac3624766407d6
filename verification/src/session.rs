//! The exchange between a handler and the system that does its work.
use crate::error::Error;
use crate::event::EventInfo;
use crate::handler::{state_after, Handler, Observed};
use vstd::prelude::*;

verus! {

/// What a session asks the system for. `T` is the type of text.
#[derive(Debug, PartialEq, Eq)]
pub enum Action<T> {
    /// The next item of the event stream.
    NextItem,
    /// Whether the running process is still alive.
    Poll,
    /// To start a process.
    Spawn,
    /// To write a text to where the handler reports events.
    Write(T),
    /// Nothing more: this is the result.
    Finish(Result<(), Error>),
}

/// What the system answers.
#[derive(Debug)]
pub enum Reply {
    /// An item of the event stream.
    Item(Option<EventInfo>),
    /// The event stream has ended.
    HangUp,
    /// Whether the running process is still alive.
    Polled(bool),
    /// The process was started.
    Started,
    /// The text was written.
    Written,
    /// What was asked for failed.
    Failed(Error),
}

/// What a session is waiting for. `T` is the type of text.
#[derive(Debug)]
pub enum Phase<T> {
    /// The next item of the event stream.
    Idle,
    /// News of the process, to take this item.
    Polling(Option<EventInfo>),
    /// The start of a process, to write this text after it.
    Spawning(Option<T>),
    /// The end of writing.
    Writing,
    /// Nothing: the session has ended.
    Over,
}

impl View for Phase<String> {
    type V = Phase<Seq<char>>;

    open spec fn view(&self) -> Phase<Seq<char>> {
        match *self {
            Phase::Idle => Phase::Idle,
            Phase::Polling(item) => Phase::Polling(item),
            Phase::Spawning(Some(text)) => Phase::Spawning(Some(text@)),
            Phase::Spawning(None) => Phase::Spawning(None),
            Phase::Writing => Phase::Writing,
            Phase::Over => Phase::Over,
        }
    }
}

impl View for Action<String> {
    type V = Action<Seq<char>>;

    open spec fn view(&self) -> Action<Seq<char>> {
        match *self {
            Action::NextItem => Action::NextItem,
            Action::Poll => Action::Poll,
            Action::Spawn => Action::Spawn,
            Action::Write(text) => Action::Write(text@),
            Action::Finish(res) => Action::Finish(res),
        }
    }
}

/// The state of a handler, and what is being waited for.
pub struct Progress<S> {
    pub state: S,
    pub phase: Phase<Seq<char>>,
}

/// Whether a reply answers what is being waited for. A failure answers everything but the
/// wait for an item.
pub open spec fn answers(phase: Phase<Seq<char>>, reply: Reply) -> bool {
    match (phase, reply) {
        (Phase::Idle, Reply::Item(_)) => true,
        (Phase::Idle, Reply::HangUp) => true,
        (Phase::Polling(_), Reply::Polled(_)) => true,
        (Phase::Polling(_), Reply::Failed(_)) => true,
        (Phase::Spawning(_), Reply::Started) => true,
        (Phase::Spawning(_), Reply::Failed(_)) => true,
        (Phase::Writing, Reply::Written) => true,
        (Phase::Writing, Reply::Failed(_)) => true,
        _ => false,
    }
}

/// Writes a text, if there is one, and goes on to the next item.
pub open spec fn writing<S>(state: S, output: Option<Seq<char>>) -> (Progress<S>, Action<Seq<char>>) {
    match output {
        Some(text) => (Progress { state, phase: Phase::Writing }, Action::Write(text)),
        None => (Progress { state, phase: Phase::Idle }, Action::NextItem),
    }
}

/// Takes an item: starts a process if one is asked for, before anything is written.
pub open spec fn taking<H: Handler>(
    handler: H,
    state: H::State,
    item: Option<EventInfo>,
    alive: bool,
) -> (Progress<H::State>, Action<Seq<char>>) {
    let next = handler.next_state(state, item, alive);
    let step = handler.next_step(state, item, alive);
    if step.spawn {
        (Progress { state: next, phase: Phase::Spawning(step.output) }, Action::Spawn)
    } else {
        writing(next, step.output)
    }
}

/// How a session goes on when a reply comes in. A running process is polled before an item
/// is taken. The end of the stream ends the session with the handler's result, and a failure
/// ends it with that failure.
pub open spec fn proceed<H: Handler>(
    handler: H,
    progress: Progress<H::State>,
    reply: Reply,
) -> (Progress<H::State>, Action<Seq<char>>) {
    let over = Progress { state: progress.state, phase: Phase::Over };
    match (progress.phase, reply) {
        (_, Reply::Failed(e)) => (over, Action::Finish(Err(e))),
        (_, Reply::HangUp) => (over, Action::Finish(handler.end())),
        (_, Reply::Item(item)) => if handler.has_process(progress.state) {
            (Progress { state: progress.state, phase: Phase::Polling(item) }, Action::Poll)
        } else {
            taking(handler, progress.state, item, false)
        },
        (Phase::Polling(item), Reply::Polled(alive)) => taking(handler, progress.state, item, alive),
        (Phase::Spawning(output), Reply::Started) => writing(progress.state, output),
        _ => (Progress { state: progress.state, phase: Phase::Idle }, Action::NextItem),
    }
}

/// A handler at work on an event stream.
pub struct Session<H: Handler> {
    handler: H,
    state: H::State,
    phase: Phase<String>,
}

impl<H: Handler> Session<H> {
    /// The handler at work.
    pub closed spec fn handler(self) -> H {
        self.handler
    }

    /// How far the session has come.
    pub closed spec fn progress(self) -> Progress<H::State> {
        Progress { state: self.state, phase: self.phase@ }
    }

    /// Begins with a handler. The first thing to ask for is an item of the stream.
    pub fn begin(handler: H) -> (session: Session<H>)
        ensures
            session.handler() == handler,
            session.progress() == (Progress { state: handler.initial(), phase: Phase::Idle }),
    {
        let state = handler.start();
        Session { handler, state, phase: Phase::Idle }
    }

    /// Tells whether a reply answers what is being waited for.
    pub fn accepts(&self, reply: &Reply) -> (res: bool)
        ensures
            res == answers(self.progress().phase, *reply),
    {
        match (&self.phase, reply) {
            (Phase::Idle, Reply::Item(_)) => true,
            (Phase::Idle, Reply::HangUp) => true,
            (Phase::Polling(_), Reply::Polled(_)) => true,
            (Phase::Polling(_), Reply::Failed(_)) => true,
            (Phase::Spawning(_), Reply::Started) => true,
            (Phase::Spawning(_), Reply::Failed(_)) => true,
            (Phase::Writing, Reply::Written) => true,
            (Phase::Writing, Reply::Failed(_)) => true,
            _ => false,
        }
    }

    fn write_then_go_on(&mut self, output: Option<String>) -> (action: Action<String>)
        ensures
            final(self).handler() == old(self).handler(),
            (final(self).progress(), action@) == writing(
                old(self).progress().state,
                match output {
                    Some(text) => Some(text@),
                    None => None,
                },
            ),
    {
        match output {
            Some(text) => {
                self.phase = Phase::Writing;
                Action::Write(text)
            },
            None => {
                self.phase = Phase::Idle;
                Action::NextItem
            },
        }
    }

    fn take_item(&mut self, item: Option<EventInfo>, alive: bool) -> (action: Action<String>)
        ensures
            final(self).handler() == old(self).handler(),
            (final(self).progress(), action@) == taking(
                old(self).handler(),
                old(self).progress().state,
                item,
                alive,
            ),
    {
        let step = self.handler.handle(&mut self.state, item, alive);
        if step.spawn {
            self.phase = Phase::Spawning(step.output);
            Action::Spawn
        } else {
            self.write_then_go_on(step.output)
        }
    }

    /// Takes a reply and says what to ask for next.
    pub fn advance(&mut self, reply: Reply) -> (action: Action<String>)
        requires
            answers(old(self).progress().phase, reply),
        ensures
            final(self).handler() == old(self).handler(),
            (final(self).progress(), action@) == proceed(
                old(self).handler(),
                old(self).progress(),
                reply,
            ),
    {
        let mut phase = Phase::Over;
        std::mem::swap(&mut self.phase, &mut phase);
        match (phase, reply) {
            (_, Reply::Failed(e)) => Action::Finish(Err(e)),
            (_, Reply::HangUp) => Action::Finish(self.handler.finish()),
            (_, Reply::Item(item)) => {
                if self.handler.polls(&self.state) {
                    self.phase = Phase::Polling(item);
                    Action::Poll
                } else {
                    self.take_item(item, false)
                }
            },
            (Phase::Polling(item), Reply::Polled(alive)) => self.take_item(item, alive),
            (Phase::Spawning(output), Reply::Started) => self.write_then_go_on(output),
            _ => {
                self.phase = Phase::Idle;
                Action::NextItem
            },
        }
    }
}

/// What a session asks for as the replies come in, and how far it then has come.
pub open spec fn play<H: Handler>(
    handler: H,
    progress: Progress<H::State>,
    replies: Seq<Reply>,
) -> (Progress<H::State>, Seq<Action<Seq<char>>>)
    decreases replies.len(),
{
    if replies.len() == 0 {
        (progress, Seq::empty())
    } else {
        let (next, action) = proceed(handler, progress, replies[0]);
        let (end, actions) = play(handler, next, replies.skip(1));
        (end, seq![action] + actions)
    }
}

/// A sequence of one element if there is one.
pub open spec fn one_if<A>(cond: bool, a: A) -> Seq<A> {
    if cond {
        seq![a]
    } else {
        Seq::empty()
    }
}

/// The replies to an item of the stream when nothing fails.
pub open spec fn smooth_replies<H: Handler>(
    handler: H,
    state: H::State,
    item: Option<EventInfo>,
    alive: bool,
) -> Seq<Reply> {
    let step = handler.next_step(state, item, alive);
    seq![Reply::Item(item)] + one_if(handler.has_process(state), Reply::Polled(alive)) + one_if(
        step.spawn,
        Reply::Started,
    ) + one_if(step.output is Some, Reply::Written)
}

/// What is asked for on account of an item of the stream when nothing fails.
pub open spec fn smooth_actions<H: Handler>(
    handler: H,
    state: H::State,
    item: Option<EventInfo>,
    alive: bool,
) -> Seq<Action<Seq<char>>> {
    let step = handler.next_step(state, item, alive);
    one_if(handler.has_process(state), Action::Poll) + one_if(step.spawn, Action::Spawn) + one_if(
        step.output is Some,
        Action::Write(step.output->0),
    ) + seq![Action::NextItem]
}

/// When nothing fails, an item of the stream is dealt with in this order: poll a running
/// process, start one if asked for, write if asked for, and go on to the next item with the
/// handler's next state.
pub proof fn law_item_is_dealt_with_in_order<H: Handler>(
    handler: H,
    state: H::State,
    item: Option<EventInfo>,
    alive: bool,
)
    requires
        !handler.has_process(state) ==> !alive,
    ensures
        play(
            handler,
            Progress { state, phase: Phase::Idle },
            smooth_replies(handler, state, item, alive),
        ) == (
            Progress { state: handler.next_state(state, item, alive), phase: Phase::Idle },
            smooth_actions(handler, state, item, alive),
        ),
{
    let step = handler.next_step(state, item, alive);
    let written = one_if(step.output is Some, Reply::Written);
    let started = one_if(step.spawn, Reply::Started) + written;
    let polled = one_if(handler.has_process(state), Reply::Polled(alive)) + started;
    let replies = seq![Reply::Item(item)] + polled;
    assert(smooth_replies(handler, state, item, alive) =~= replies);
    assert(replies.skip(1) =~= polled);
    if handler.has_process(state) {
        assert(polled.skip(1) =~= started);
    } else {
        assert(polled =~= started);
    }
    if step.spawn {
        assert(started.skip(1) =~= written);
    } else {
        assert(started =~= written);
    }
    if step.output is Some {
        assert(written.skip(1) =~= Seq::empty());
    }
    reveal_with_fuel(play, 5);
    assert(play(handler, Progress { state, phase: Phase::Idle }, replies).1
        =~= smooth_actions(handler, state, item, alive));
}

/// The replies to a run of items when nothing fails.
pub open spec fn smooth_run_replies<H: Handler>(
    handler: H,
    state: H::State,
    items: Seq<Observed>,
) -> Seq<Reply>
    decreases items.len(),
{
    if items.len() == 0 {
        Seq::empty()
    } else {
        smooth_run_replies(handler, state, items.drop_last()) + smooth_replies(
            handler,
            state_after(handler, state, items.drop_last()),
            items.last().0,
            items.last().1,
        )
    }
}

/// What is asked for on account of a run of items when nothing fails.
pub open spec fn smooth_run_actions<H: Handler>(
    handler: H,
    state: H::State,
    items: Seq<Observed>,
) -> Seq<Action<Seq<char>>>
    decreases items.len(),
{
    if items.len() == 0 {
        Seq::empty()
    } else {
        smooth_run_actions(handler, state, items.drop_last()) + smooth_actions(
            handler,
            state_after(handler, state, items.drop_last()),
            items.last().0,
            items.last().1,
        )
    }
}

/// When nothing fails, a session deals with a run of items one after the other, each in
/// order, and comes to the state that the handler has after that run.
pub proof fn law_run_is_dealt_with_in_order<H: Handler>(
    handler: H,
    state: H::State,
    items: Seq<Observed>,
)
    requires
        forall|i: int|
            0 <= i < items.len() && !handler.has_process(
                state_after(handler, state, items.take(i)),
            ) ==> !(#[trigger] items[i]).1,
    ensures
        play(
            handler,
            Progress { state, phase: Phase::Idle },
            smooth_run_replies(handler, state, items),
        ) == (
            Progress { state: state_after(handler, state, items), phase: Phase::Idle },
            smooth_run_actions(handler, state, items),
        ),
    decreases items.len(),
{
    if items.len() > 0 {
        let n = items.len() - 1;
        let past = items.drop_last();
        let before = state_after(handler, state, past);
        assert forall|i: int|
            0 <= i < past.len() && !handler.has_process(
                state_after(handler, state, past.take(i)),
            ) implies !(#[trigger] past[i]).1 by {
            assert(past.take(i) =~= items.take(i));
            assert(past[i] == items[i]);
        }
        law_run_is_dealt_with_in_order(handler, state, past);
        assert(items.take(n) =~= past);
        assert(items[n] == items.last());
        law_item_is_dealt_with_in_order(handler, before, items.last().0, items.last().1);
        lemma_play_append(
            handler,
            Progress { state, phase: Phase::Idle },
            smooth_run_replies(handler, state, past),
            smooth_replies(handler, before, items.last().0, items.last().1),
        );
    }
}

/// Replies may be played in two parts.
proof fn lemma_play_append<H: Handler>(
    handler: H,
    progress: Progress<H::State>,
    first: Seq<Reply>,
    second: Seq<Reply>,
)
    ensures
        ({
            let (middle, begun) = play(handler, progress, first);
            let (end, ended) = play(handler, middle, second);
            play(handler, progress, first + second) == (end, begun + ended)
        }),
    decreases first.len(),
{
    let (middle, begun) = play(handler, progress, first);
    let (end, ended) = play(handler, middle, second);
    if first.len() == 0 {
        assert(first + second =~= second);
        assert(begun + ended =~= ended);
    } else {
        let (next, action) = proceed(handler, progress, first[0]);
        let rest = play(handler, next, first.skip(1)).1;
        lemma_play_append(handler, next, first.skip(1), second);
        assert((first + second).skip(1) =~= first.skip(1) + second);
        assert(seq![action] + rest + ended =~= seq![action] + (rest + ended));
    }
}

/// The first failure ends the session with it, the end of the stream ends it with the
/// handler's result, and a session that has ended waits for nothing more.
pub proof fn law_failure_or_hang_up_ends_session<H: Handler>(
    handler: H,
    progress: Progress<H::State>,
    e: Error,
    late: Reply,
)
    ensures
        proceed(handler, progress, Reply::Failed(e)).0.phase == Phase::<Seq<char>>::Over,
        proceed(handler, progress, Reply::Failed(e)).1 == Action::<Seq<char>>::Finish(Err(e)),
        proceed(handler, progress, Reply::HangUp).0.phase == Phase::<Seq<char>>::Over,
        proceed(handler, progress, Reply::HangUp).1 == Action::<Seq<char>>::Finish(handler.end()),
        !answers(Phase::Over, late),
{
}

/// The views of what is waited for and of what is asked for change nothing but the type of
/// their text.
pub proof fn law_session_views(phase: Phase<String>, action: Action<String>)
    ensures
        phase@ is Idle <==> phase is Idle,
        phase@ is Writing <==> phase is Writing,
        phase@ is Over <==> phase is Over,
        phase matches Phase::Polling(item) ==> phase@ == Phase::<Seq<char>>::Polling(item),
        phase matches Phase::Spawning(output) ==> match output {
            Some(text) => phase@ == Phase::Spawning(Some(text@)),
            None => phase@ == Phase::<Seq<char>>::Spawning(None),
        },
        action@ is NextItem <==> action is NextItem,
        action@ is Poll <==> action is Poll,
        action@ is Spawn <==> action is Spawn,
        action matches Action::Write(text) ==> action@ == Action::Write(text@),
        action matches Action::Finish(res) ==> action@ == Action::<Seq<char>>::Finish(res),
{
}

/// Each reply answers what it is a reply to: items and the end of the stream the wait for an
/// item, news of the process a poll, and so on. A failure answers everything that was asked of
/// the system but an item. Nothing answers a session that is over.
pub proof fn law_which_replies_answer(phase: Phase<Seq<char>>, reply: Reply)
    ensures
        reply is Item || reply is HangUp ==> (answers(phase, reply) <==> phase is Idle),
        reply is Polled ==> (answers(phase, reply) <==> phase is Polling),
        reply is Started ==> (answers(phase, reply) <==> phase is Spawning),
        reply is Written ==> (answers(phase, reply) <==> phase is Writing),
        reply is Failed ==> (answers(phase, reply) <==> phase !is Idle && phase !is Over),
{
}

/// An item is taken at once where no process runs, and only after the process was asked for
/// where one does; it is then the same item that is taken, with the answer.
pub proof fn law_process_is_polled_before_item<H: Handler>(
    handler: H,
    state: H::State,
    item: Option<EventInfo>,
)
    ensures
        handler.has_process(state) ==> proceed(
            handler,
            (Progress { state, phase: Phase::Idle }),
            Reply::Item(item),
        ) == ((Progress { state, phase: Phase::Polling(item) }), Action::<Seq<char>>::Poll),
        !handler.has_process(state) ==> proceed(
            handler,
            (Progress { state, phase: Phase::Idle }),
            Reply::Item(item),
        ) == proceed(
            handler,
            (Progress { state, phase: Phase::Polling(item) }),
            Reply::Polled(false),
        ),
{
}

/// What is asked for once an item is taken, in this order and nothing else: a process, if the
/// step asks for one; the text of the step, if it has one, after the start; the next item. The
/// handler's state is the next one from the moment the item is taken.
pub proof fn law_step_is_carried_out<H: Handler>(
    handler: H,
    state: H::State,
    item: Option<EventInfo>,
    alive: bool,
    output: Option<Seq<char>>,
)
    ensures
        ({
            let next = handler.next_state(state, item, alive);
            let step = handler.next_step(state, item, alive);
            let (progress, action) = proceed(
                handler,
                Progress { state, phase: Phase::Polling(item) },
                Reply::Polled(alive),
            );
            &&& progress.state == next
            &&& match (step.spawn, step.output) {
                (true, text) => progress.phase == Phase::Spawning(text) && action is Spawn,
                (false, Some(text)) => progress.phase is Writing && action == Action::Write(text),
                (false, None) => progress.phase is Idle && action is NextItem,
            }
        }),
        ({
            let (progress, action) = proceed(
                handler,
                Progress { state, phase: Phase::Spawning(output) },
                Reply::Started,
            );
            &&& progress.state == state
            &&& match output {
                Some(text) => progress.phase is Writing && action == Action::Write(text),
                None => progress.phase is Idle && action is NextItem,
            }
        }),
        ({
            let (progress, action) = proceed(
                handler,
                Progress { state, phase: Phase::Writing },
                Reply::Written,
            );
            progress.state == state && progress.phase is Idle && action is NextItem
        }),
{
}

/// A session ends exactly on a failure, with that failure, and on the end of the stream, with
/// the handler's result. Afterwards nothing answers it.
pub proof fn law_how_sessions_end<H: Handler>(
    handler: H,
    progress: Progress<H::State>,
    reply: Reply,
)
    requires
        answers(progress.phase, reply),
    ensures
        proceed(handler, progress, reply).0.phase is Over <==> reply is Failed || reply is HangUp,
        reply matches Reply::Failed(e) ==> proceed(handler, progress, reply).1 == Action::<
            Seq<char>,
        >::Finish(Err(e)),
        reply is HangUp ==> proceed(handler, progress, reply).1 == Action::<Seq<char>>::Finish(
            handler.end(),
        ),
        proceed(handler, progress, reply).1 is Finish <==> reply is Failed || reply is HangUp,
{
}

/// What a session asks for grows reply by reply.
pub proof fn law_play_reply_by_reply<H: Handler>(
    handler: H,
    progress: Progress<H::State>,
    reply: Reply,
    rest: Seq<Reply>,
)
    ensures
        play(handler, progress, Seq::empty()).0 == progress,
        play(handler, progress, Seq::empty()).1 == Seq::<Action<Seq<char>>>::empty(),
        ({
            let (next, action) = proceed(handler, progress, reply);
            let (end, actions) = play(handler, next, rest);
            &&& play(handler, progress, seq![reply] + rest).0 == end
            &&& play(handler, progress, seq![reply] + rest).1 == seq![action] + actions
        }),
{
    assert((seq![reply] + rest).skip(1) =~= rest);
}

/// What a session says is what its handler's steps ask for: whatever it has come to, a failure
/// makes it finish with that failure, the end of the stream with the handler's result, and an
/// item that finds no process running makes it ask for exactly what the handler's step for that
/// item does, a process first.
pub proof fn law_session_says_what_steps_ask_for<H: Handler>(
    session: &mut Session<H>,
    reply: Reply,
    action: Action<String>,
)
    requires
        answers(old(session).progress().phase, reply),
        call_ensures(Session::<H>::advance, (session, reply), action),
    ensures
        reply matches Reply::Failed(e) ==> action == Action::<String>::Finish(Err(e)),
        reply is HangUp ==> action == Action::<String>::Finish(old(session).handler().end()),
        reply matches Reply::Item(item) ==> ({
            let handler = old(session).handler();
            let state = old(session).progress().state;
            let step = handler.next_step(state, item, false);
            if handler.has_process(state) {
                action is Poll
            } else if step.spawn {
                action is Spawn
            } else {
                match step.output {
                    Some(text) => action matches Action::Write(written) && written@ == text,
                    None => action is NextItem,
                }
            }
        }),
        reply is Written ==> action is NextItem,
        final(session).handler() == old(session).handler(),
{
}

} // verus!
