//! Decisions of the broker loop.
//!
//! The broker waits, at the same time, for a stop signal and for the next
//! item. An item is handed to `op`; what `op` returns goes to
//! `handle_result`. Either of them may stop the loop, and so may the stop
//! signal. Once the loop has stopped, the broker closes the writer, waits
//! for the writer task, and then, if the reader can still be reached,
//! signals the reader to stop and waits for it when the signal went out.
//!
//! [`BrokerState::step`] takes what happened and gives the next thing to do.

use vstd::prelude::*;
use crate::running::{default_handled, Running};

verus! {

/// Where the broker loop stands.
#[derive(PartialEq, Eq, Structural, Clone, Copy, Debug)]
pub enum BrokerState {
    /// Waiting for either the stop signal or the next item.
    Racing,
    /// `op` runs on an item.
    Operating,
    /// `handle_result` runs on what `op` returned.
    Handling,
    /// The loop has stopped; the writer is being closed and awaited.
    ClosingWriter,
    /// Looking whether the stop channel to the reader is still connected.
    CheckingReader,
    /// Sending the stop signal to the reader.
    SignallingReader,
    /// Waiting for the reader task to end.
    JoiningReader,
    /// The broker loop has ended.
    Done,
}

/// What happened since the last action.
pub enum BrokerEvent<I, R> {
    /// The stop signal arrived first.
    StopSignal,
    /// The item stream yielded first: `Some` item, or `None` when it had none.
    Received(Option<I>),
    /// `op` returned.
    Operated(Running<R>),
    /// `handle_result` returned.
    Handled(Running<()>),
    /// The writer sink was dropped and the writer task has ended.
    WriterClosed,
    /// Whether the stop channel to the reader is disconnected.
    ReaderLink(bool),
    /// Whether the stop signal reached the reader's channel.
    ReaderSignalled(bool),
    /// The reader task has ended.
    ReaderJoined,
}

/// What the broker is to do next.
pub enum BrokerAction<I, R> {
    /// Wait for the stop signal and the next item at once.
    Race,
    /// Run `op` on this item.
    Operate(I),
    /// Run `handle_result` on this result of `op`.
    Handle(R),
    /// Drop the writer sink and wait for the writer task.
    CloseWriter,
    /// Look whether the stop channel to the reader is disconnected.
    CheckReader,
    /// Send the stop signal to the reader.
    SignalReader,
    /// Wait for the reader task.
    JoinReader,
    /// Leave the broker loop.
    Exit,
}

impl BrokerState {
    /// The events that can follow the action that led into this state.
    pub open spec fn accepts<I, R>(self, event: BrokerEvent<I, R>) -> bool {
        match self {
            BrokerState::Racing => event is StopSignal || event is Received,
            BrokerState::Operating => event is Operated,
            BrokerState::Handling => event is Handled,
            BrokerState::ClosingWriter => event is WriterClosed,
            BrokerState::CheckingReader => event is ReaderLink,
            BrokerState::SignallingReader => event is ReaderSignalled,
            BrokerState::JoiningReader => event is ReaderJoined,
            BrokerState::Done => false,
        }
    }

    /// The transition table of the broker loop: next state and action.
    pub open spec fn next<I, R>(self, event: BrokerEvent<I, R>) -> (BrokerState, BrokerAction<I, R>)
        recommends
            self.accepts(event),
    {
        match event {
            BrokerEvent::StopSignal => (BrokerState::ClosingWriter, BrokerAction::CloseWriter),
            BrokerEvent::Received(Some(item)) => (BrokerState::Operating, BrokerAction::Operate(item)),
            BrokerEvent::Received(None) => (BrokerState::Racing, BrokerAction::Race),
            BrokerEvent::Operated(Running::Continue(res)) => (BrokerState::Handling, BrokerAction::Handle(res)),
            BrokerEvent::Operated(Running::Stop(_)) => (BrokerState::ClosingWriter, BrokerAction::CloseWriter),
            BrokerEvent::Handled(Running::Continue(_)) => (BrokerState::Racing, BrokerAction::Race),
            BrokerEvent::Handled(Running::Stop(_)) => (BrokerState::ClosingWriter, BrokerAction::CloseWriter),
            BrokerEvent::WriterClosed => (BrokerState::CheckingReader, BrokerAction::CheckReader),
            BrokerEvent::ReaderLink(disconnected) => if disconnected {
                (BrokerState::Done, BrokerAction::Exit)
            } else {
                (BrokerState::SignallingReader, BrokerAction::SignalReader)
            },
            BrokerEvent::ReaderSignalled(ok) => if ok {
                (BrokerState::JoiningReader, BrokerAction::JoinReader)
            } else {
                (BrokerState::Done, BrokerAction::Exit)
            },
            BrokerEvent::ReaderJoined => (BrokerState::Done, BrokerAction::Exit),
        }
    }

    /// Whether `events`, one after the other, each fit the state they meet.
    pub open spec fn accepts_all<I, R>(self, events: Seq<BrokerEvent<I, R>>) -> bool
        decreases events.len(),
    {
        if events.len() == 0 {
            true
        } else {
            self.accepts(events[0]) && self.next(events[0]).0.accepts_all(events.drop_first())
        }
    }

    /// The state reached after `events`, and the actions taken on the way.
    pub open spec fn run<I, R>(self, events: Seq<BrokerEvent<I, R>>) -> (BrokerState, Seq<BrokerAction<I, R>>)
        decreases events.len(),
    {
        if events.len() == 0 {
            (self, Seq::empty())
        } else {
            let (s1, a) = self.next(events[0]);
            let (s2, rest) = s1.run(events.drop_first());
            (s2, seq![a] + rest)
        }
    }

    /// The broker before its first event; its first action is [`BrokerAction::Race`].
    pub fn new() -> (s: BrokerState)
        ensures
            s == BrokerState::Racing,
    {
        BrokerState::Racing
    }

    /// Whether `event` can follow the action that led into this state.
    pub fn accepts_event<I, R>(&self, event: &BrokerEvent<I, R>) -> (b: bool)
        ensures
            b == self.accepts(*event),
    {
        match self {
            BrokerState::Racing => match event {
                BrokerEvent::StopSignal => true,
                BrokerEvent::Received(_) => true,
                _ => false,
            },
            BrokerState::Operating => match event {
                BrokerEvent::Operated(_) => true,
                _ => false,
            },
            BrokerState::Handling => match event {
                BrokerEvent::Handled(_) => true,
                _ => false,
            },
            BrokerState::ClosingWriter => match event {
                BrokerEvent::WriterClosed => true,
                _ => false,
            },
            BrokerState::CheckingReader => match event {
                BrokerEvent::ReaderLink(_) => true,
                _ => false,
            },
            BrokerState::SignallingReader => match event {
                BrokerEvent::ReaderSignalled(_) => true,
                _ => false,
            },
            BrokerState::JoiningReader => match event {
                BrokerEvent::ReaderJoined => true,
                _ => false,
            },
            BrokerState::Done => false,
        }
    }

    /// Takes what happened, moves to the next state and says what to do.
    pub fn step<I, R>(&mut self, event: BrokerEvent<I, R>) -> (action: BrokerAction<I, R>)
        requires
            old(self).accepts(event),
        ensures
            (*final(self), action) == old(self).next(event),
    {
        let (s, a) = match event {
            BrokerEvent::StopSignal => (BrokerState::ClosingWriter, BrokerAction::CloseWriter),
            BrokerEvent::Received(Some(item)) => (BrokerState::Operating, BrokerAction::Operate(item)),
            BrokerEvent::Received(None) => (BrokerState::Racing, BrokerAction::Race),
            BrokerEvent::Operated(Running::Continue(res)) => (BrokerState::Handling, BrokerAction::Handle(res)),
            BrokerEvent::Operated(Running::Stop(_)) => (BrokerState::ClosingWriter, BrokerAction::CloseWriter),
            BrokerEvent::Handled(Running::Continue(_)) => (BrokerState::Racing, BrokerAction::Race),
            BrokerEvent::Handled(Running::Stop(_)) => (BrokerState::ClosingWriter, BrokerAction::CloseWriter),
            BrokerEvent::WriterClosed => (BrokerState::CheckingReader, BrokerAction::CheckReader),
            BrokerEvent::ReaderLink(disconnected) => if disconnected {
                (BrokerState::Done, BrokerAction::Exit)
            } else {
                (BrokerState::SignallingReader, BrokerAction::SignalReader)
            },
            BrokerEvent::ReaderSignalled(ok) => if ok {
                (BrokerState::JoiningReader, BrokerAction::JoinReader)
            } else {
                (BrokerState::Done, BrokerAction::Exit)
            },
            BrokerEvent::ReaderJoined => (BrokerState::Done, BrokerAction::Exit),
        };
        *self = s;
        a
    }
}

impl BrokerState {
    /// Whether the loop itself runs (it has not begun to shut down).
    pub open spec fn in_loop(self) -> bool {
        self == BrokerState::Racing || self == BrokerState::Operating || self == BrokerState::Handling
    }

    /// How far the shutdown has got: 0 in the loop, 5 when done.
    pub open spec fn shutdown_rank(self) -> nat {
        match self {
            BrokerState::Racing | BrokerState::Operating | BrokerState::Handling => 0,
            BrokerState::ClosingWriter => 1,
            BrokerState::CheckingReader => 2,
            BrokerState::SignallingReader => 3,
            BrokerState::JoiningReader => 4,
            BrokerState::Done => 5,
        }
    }
}

/// The events that end the loop: the stop signal, or `Stop` from `op` or
/// from `handle_result`.
pub open spec fn stops_loop<I, R>(event: BrokerEvent<I, R>) -> bool {
    ||| event is StopSignal
    ||| (event matches BrokerEvent::Operated(r) && r is Stop)
    ||| (event matches BrokerEvent::Handled(r) && r is Stop)
}

/// The actions of the loop itself: waiting for an item, `op`, `handle_result`.
pub open spec fn loop_action<I, R>(action: BrokerAction<I, R>) -> bool {
    action is Race || action is Operate || action is Handle
}

/// The broker loop goes on unless the stop signal arrives or `op` or
/// `handle_result` answers `Stop`; when it ends, the first thing done is to
/// close the writer.
pub proof fn lemma_loop_stops_exactly_on_stop<I, R>(s: BrokerState, e: BrokerEvent<I, R>)
    requires
        s.in_loop(),
        s.accepts(e),
    ensures
        s.next(e).0.in_loop() <==> !stops_loop(e),
        stops_loop(e) ==> s.next(e) == (BrokerState::ClosingWriter, BrokerAction::<I, R>::CloseWriter),
{
}

/// Once the loop has ended, every step moves the shutdown strictly forward
/// and never asks for an item, nor runs `op` or `handle_result` again; the
/// finished broker takes no more events.
pub proof fn lemma_shutdown_moves_forward<I, R>(s: BrokerState, e: BrokerEvent<I, R>)
    requires
        !s.in_loop(),
        s.accepts(e),
    ensures
        s.next(e).0.shutdown_rank() > s.shutdown_rank(),
        !s.next(e).0.in_loop(),
        !loop_action(s.next(e).1),
        !BrokerState::Done.accepts(e),
{
}

/// The broker leaves its loop exactly when it reaches `Done`; the reader is
/// signalled only when its channel is still connected, and waited for only
/// after the signal went out.
pub proof fn lemma_exit_and_reader_order<I, R>(s: BrokerState, e: BrokerEvent<I, R>)
    requires
        s.accepts(e),
    ensures
        s.next(e).1 is Exit <==> s.next(e).0 == BrokerState::Done,
        s.next(e).1 is SignalReader <==> (s == BrokerState::CheckingReader && e == BrokerEvent::<I, R>::ReaderLink(false)),
        s.next(e).1 is JoinReader <==> (s == BrokerState::SignallingReader && e == BrokerEvent::<I, R>::ReaderSignalled(true)),
        s.next(e).1 is CheckReader <==> s == BrokerState::ClosingWriter,
{
}

/// Running after `e1` and then `e2` is running after `e1 + e2`.
pub proof fn lemma_run_append<I, R>(s: BrokerState, e1: Seq<BrokerEvent<I, R>>, e2: Seq<BrokerEvent<I, R>>)
    ensures
        s.run(e1 + e2) == ({
            let (s1, a1) = s.run(e1);
            let (s2, a2) = s1.run(e2);
            (s2, a1 + a2)
        }),
        s.accepts_all(e1 + e2) == (s.accepts_all(e1) && s.run(e1).0.accepts_all(e2)),
    decreases e1.len(),
{
    if e1.len() == 0 {
        assert(e1 + e2 =~= e2);
        assert(s.run(e1).1 + s.run(e2).1 =~= s.run(e2).1);
    } else {
        assert((e1 + e2)[0] == e1[0]);
        assert((e1 + e2).drop_first() =~= e1.drop_first() + e2);
        let s1 = s.next(e1[0]).0;
        lemma_run_append(s1, e1.drop_first(), e2);
        let a = s.next(e1[0]).1;
        let r1 = s1.run(e1.drop_first());
        let r2 = r1.0.run(e2);
        assert(seq![a] + (r1.1 + r2.1) =~= (seq![a] + r1.1) + r2.1);
    }
}

/// The events of a run in which every item is received, `op` answers
/// `Continue` with the matching result and `handle_result` answers `Continue`.
pub open spec fn item_events<I, R>(items: Seq<I>, results: Seq<R>) -> Seq<BrokerEvent<I, R>>
    decreases items.len(),
{
    if items.len() == 0 || results.len() == 0 {
        Seq::empty()
    } else {
        seq![
            BrokerEvent::Received(Some(items[0])),
            BrokerEvent::Operated(Running::Continue(results[0])),
            BrokerEvent::Handled(Running::Continue(())),
        ] + item_events(items.drop_first(), results.drop_first())
    }
}

/// The actions of such a run: `op` on each item in order, `handle_result` on
/// each result, and a wait for the next item.
pub open spec fn item_actions<I, R>(items: Seq<I>, results: Seq<R>) -> Seq<BrokerAction<I, R>>
    decreases items.len(),
{
    if items.len() == 0 || results.len() == 0 {
        Seq::empty()
    } else {
        seq![
            BrokerAction::Operate(items[0]),
            BrokerAction::Handle(results[0]),
            BrokerAction::Race,
        ] + item_actions(items.drop_first(), results.drop_first())
    }
}

/// Running after a single event is one step.
pub proof fn lemma_run_one<I, R>(s: BrokerState, e: BrokerEvent<I, R>)
    ensures
        s.run(seq![e]) == (s.next(e).0, seq![s.next(e).1]),
        s.accepts_all(seq![e]) == s.accepts(e),
{
    let es = seq![e];
    assert(es.drop_first() =~= Seq::<BrokerEvent<I, R>>::empty());
    assert(es[0] == e);
    let s1 = s.next(e).0;
    assert(s1.run(es.drop_first()) == (s1, Seq::<BrokerAction<I, R>>::empty()));
    assert(s1.accepts_all(es.drop_first()));
    assert(seq![s.next(e).1] + Seq::<BrokerAction<I, R>>::empty() =~= seq![s.next(e).1]);
}

/// While `op` and `handle_result` answer `Continue`, the broker runs `op` on
/// every item it receives, in order, hands each result to `handle_result`,
/// and waits for the next item; the stop signal then ends the loop and
/// starts the shutdown with closing the writer.
pub proof fn lemma_items_then_stop<I, R>(items: Seq<I>, results: Seq<R>)
    requires
        items.len() == results.len(),
    ensures
        BrokerState::Racing.accepts_all(item_events(items, results).push(BrokerEvent::StopSignal)),
        BrokerState::Racing.run(item_events(items, results).push(BrokerEvent::StopSignal))
            == (BrokerState::ClosingWriter, item_actions(items, results).push(BrokerAction::CloseWriter)),
{
    let evs = item_events(items, results);
    let stop = seq![BrokerEvent::<I, R>::StopSignal];
    assert(evs.push(BrokerEvent::StopSignal) =~= evs + stop);
    assert(item_actions(items, results).push(BrokerAction::CloseWriter)
        =~= item_actions(items, results) + seq![BrokerAction::<I, R>::CloseWriter]);
    lemma_items_run(items, results);
    lemma_run_append(BrokerState::Racing, evs, stop);
    lemma_run_one(BrokerState::Racing, BrokerEvent::<I, R>::StopSignal);
}

/// A run of received items that all continue comes back to waiting for items.
pub proof fn lemma_items_run<I, R>(items: Seq<I>, results: Seq<R>)
    requires
        items.len() == results.len(),
    ensures
        BrokerState::Racing.accepts_all(item_events(items, results)),
        BrokerState::Racing.run(item_events(items, results)) == (BrokerState::Racing, item_actions(items, results)),
    decreases items.len(),
{
    if items.len() > 0 {
        let e0 = BrokerEvent::<I, R>::Received(Some(items[0]));
        let e1 = BrokerEvent::<I, R>::Operated(Running::Continue(results[0]));
        let e2 = BrokerEvent::<I, R>::Handled(Running::Continue(()));
        let tail = item_events(items.drop_first(), results.drop_first());
        lemma_items_run(items.drop_first(), results.drop_first());
        lemma_run_one(BrokerState::Racing, e0);
        lemma_run_one(BrokerState::Operating, e1);
        lemma_run_one(BrokerState::Handling, e2);
        lemma_run_append(BrokerState::Handling, seq![e2], tail);
        lemma_run_append(BrokerState::Operating, seq![e1], seq![e2] + tail);
        lemma_run_append(BrokerState::Racing, seq![e0], seq![e1] + (seq![e2] + tail));
        assert(item_events(items, results) =~= seq![e0] + (seq![e1] + (seq![e2] + tail)));
        assert(item_actions(items, results) =~= seq![BrokerAction::Operate(items[0])]
            + (seq![BrokerAction::Handle(results[0])] + (seq![BrokerAction::<I, R>::Race]
            + item_actions(items.drop_first(), results.drop_first()))));
    } else {
        assert(item_events(items, results) =~= Seq::<BrokerEvent<I, R>>::empty());
        assert(item_actions(items, results) =~= Seq::<BrokerAction<I, R>>::empty());
    }
}

/// With the default `handle_result`, the broker goes back to waiting for
/// the next item after every result of `op`: only the stop signal or `op`
/// can end its loop.
pub proof fn lemma_default_handler_keeps_looping<I, R>()
    ensures
        BrokerState::Handling.next(BrokerEvent::<I, R>::Handled(default_handled()))
            == (BrokerState::Racing, BrokerAction::<I, R>::Race),
        !stops_loop(BrokerEvent::<I, R>::Handled(default_handled())),
{
}

/// Each state takes exactly the answer to the action that led into it:
/// after a wait, the stop signal or an item; while `op` runs, only its
/// result (no further item, no stop signal); while `handle_result` runs,
/// only its answer; in the shutdown, only the outcome of the step under way;
/// and nothing once done.
pub proof fn lemma_accepts_only_answers<I, R>(s: BrokerState, e: BrokerEvent<I, R>)
    ensures
        s == BrokerState::Racing ==> (s.accepts(e) <==> (e is StopSignal || e is Received)),
        s == BrokerState::Operating ==> (s.accepts(e) <==> e is Operated),
        s == BrokerState::Handling ==> (s.accepts(e) <==> e is Handled),
        s == BrokerState::ClosingWriter ==> (s.accepts(e) <==> e is WriterClosed),
        s == BrokerState::CheckingReader ==> (s.accepts(e) <==> e is ReaderLink),
        s == BrokerState::SignallingReader ==> (s.accepts(e) <==> e is ReaderSignalled),
        s == BrokerState::JoiningReader ==> (s.accepts(e) <==> e is ReaderJoined),
        !BrokerState::Done.accepts(e),
{
}

/// After a step, the only events the broker takes next are the answers to
/// the action that step gave: after `Operate` only the result of `op`, after
/// `Handle` only the answer of `handle_result`, and so on; after `Exit`,
/// none.
pub proof fn lemma_next_event_answers_action<I, R>(s: BrokerState, e: BrokerEvent<I, R>, e2: BrokerEvent<I, R>)
    requires
        s.accepts(e),
        s.next(e).0.accepts(e2),
    ensures
        s.next(e).1 is Race ==> (e2 is StopSignal || e2 is Received),
        s.next(e).1 is Operate ==> e2 is Operated,
        s.next(e).1 is Handle ==> e2 is Handled,
        s.next(e).1 is CloseWriter ==> e2 is WriterClosed,
        s.next(e).1 is CheckReader ==> e2 is ReaderLink,
        s.next(e).1 is SignalReader ==> e2 is ReaderSignalled,
        s.next(e).1 is JoinReader ==> e2 is ReaderJoined,
        !(s.next(e).1 is Exit),
{
}

} // verus!
