//! Decisions of the reader loop.
//!
//! The reader runs `op` over and over, and waits for the stop signal at the
//! same time. What `op` returns goes to `handle_result`. When `op` or
//! `handle_result` answers `Stop`, the reader returns at once: `Ok(())` for
//! `Stop(None)`, the error for `Stop(Some(err))`. When the stop signal comes
//! first, the reader, if the broker's stop channel is still connected,
//! sends the broker the stop signal, and returns `Ok(())`.
//!
//! [`ReaderState::step`] takes what happened and gives the next thing to do.

use vstd::prelude::*;
use crate::running::{default_handled, Running};

verus! {

/// Where the reader loop stands.
#[derive(PartialEq, Eq, Structural, Clone, Copy, Debug)]
pub enum ReaderState {
    /// `op` runs while the reader waits for the stop signal.
    Racing,
    /// `handle_result` runs on what `op` returned.
    Handling,
    /// Looking whether the stop channel to the broker is still connected.
    CheckingBroker,
    /// Sending the stop signal to the broker.
    SignallingBroker,
    /// The reader loop has returned.
    Finished,
}

/// What happened since the last action.
pub enum ReaderEvent<R, E> {
    /// The stop signal arrived first.
    StopSignal,
    /// `op` returned first.
    Operated(Running<R, Option<E>>),
    /// `handle_result` returned.
    Handled(Running<(), Option<E>>),
    /// Whether the stop channel to the broker is disconnected.
    BrokerLink(bool),
    /// The stop signal to the broker was sent (whatever came of it).
    BrokerSignalled,
}

/// What the reader is to do next.
pub enum ReaderAction<R, E> {
    /// Run `op` and wait for the stop signal at once.
    Race,
    /// Run `handle_result` on this result of `op`.
    Handle(R),
    /// Look whether the stop channel to the broker is disconnected.
    CheckBroker,
    /// Send the stop signal to the broker.
    SignalBroker,
    /// Return this from the reader loop.
    Return(Result<(), E>),
}

/// What the reader loop returns when it is told to stop with `e`.
pub open spec fn stop_outcome<E>(e: Option<E>) -> Result<(), E> {
    match e {
        None => Ok(()),
        Some(err) => Err(err),
    }
}

/// What the reader loop returns when it is told to stop with `e`:
/// `Ok(())` without an error, the error otherwise.
pub fn outcome_of_stop<E>(e: Option<E>) -> (res: Result<(), E>)
    ensures
        res == stop_outcome(e),
{
    match e {
        None => Ok(()),
        Some(err) => Err(err),
    }
}

impl ReaderState {
    /// The events that can follow the action that led into this state.
    pub open spec fn accepts<R, E>(self, event: ReaderEvent<R, E>) -> bool {
        match self {
            ReaderState::Racing => event is StopSignal || event is Operated,
            ReaderState::Handling => event is Handled,
            ReaderState::CheckingBroker => event is BrokerLink,
            ReaderState::SignallingBroker => event is BrokerSignalled,
            ReaderState::Finished => false,
        }
    }

    /// The transition table of the reader loop: next state and action.
    pub open spec fn next<R, E>(self, event: ReaderEvent<R, E>) -> (ReaderState, ReaderAction<R, E>)
        recommends
            self.accepts(event),
    {
        match event {
            ReaderEvent::StopSignal => (ReaderState::CheckingBroker, ReaderAction::CheckBroker),
            ReaderEvent::Operated(Running::Continue(res)) => (ReaderState::Handling, ReaderAction::Handle(res)),
            ReaderEvent::Operated(Running::Stop(e)) => (ReaderState::Finished, ReaderAction::Return(stop_outcome(e))),
            ReaderEvent::Handled(Running::Continue(_)) => (ReaderState::Racing, ReaderAction::Race),
            ReaderEvent::Handled(Running::Stop(e)) => (ReaderState::Finished, ReaderAction::Return(stop_outcome(e))),
            ReaderEvent::BrokerLink(disconnected) => if disconnected {
                (ReaderState::Finished, ReaderAction::Return(Ok(())))
            } else {
                (ReaderState::SignallingBroker, ReaderAction::SignalBroker)
            },
            ReaderEvent::BrokerSignalled => (ReaderState::Finished, ReaderAction::Return(Ok(()))),
        }
    }

    /// Whether `events`, one after the other, each fit the state they meet.
    pub open spec fn accepts_all<R, E>(self, events: Seq<ReaderEvent<R, E>>) -> bool
        decreases events.len(),
    {
        if events.len() == 0 {
            true
        } else {
            self.accepts(events[0]) && self.next(events[0]).0.accepts_all(events.drop_first())
        }
    }

    /// The state reached after `events`, and the actions taken on the way.
    pub open spec fn run<R, E>(self, events: Seq<ReaderEvent<R, E>>) -> (ReaderState, Seq<ReaderAction<R, E>>)
        decreases events.len(),
    {
        if events.len() == 0 {
            (self, Seq::empty())
        } else {
            let (s1, a) = self.next(events[0]);
            let (s2, rest) = s1.run(events.drop_first());
            (s2, seq![a] + rest)
        }
    }

    /// The reader before its first event; its first action is [`ReaderAction::Race`].
    pub fn new() -> (s: ReaderState)
        ensures
            s == ReaderState::Racing,
    {
        ReaderState::Racing
    }

    /// Whether `event` can follow the action that led into this state.
    pub fn accepts_event<R, E>(&self, event: &ReaderEvent<R, E>) -> (b: bool)
        ensures
            b == self.accepts(*event),
    {
        match self {
            ReaderState::Racing => match event {
                ReaderEvent::StopSignal => true,
                ReaderEvent::Operated(_) => true,
                _ => false,
            },
            ReaderState::Handling => match event {
                ReaderEvent::Handled(_) => true,
                _ => false,
            },
            ReaderState::CheckingBroker => match event {
                ReaderEvent::BrokerLink(_) => true,
                _ => false,
            },
            ReaderState::SignallingBroker => match event {
                ReaderEvent::BrokerSignalled => true,
                _ => false,
            },
            ReaderState::Finished => false,
        }
    }

    /// Takes what happened, moves to the next state and says what to do.
    pub fn step<R, E>(&mut self, event: ReaderEvent<R, E>) -> (action: ReaderAction<R, E>)
        requires
            old(self).accepts(event),
        ensures
            (*final(self), action) == old(self).next(event),
    {
        let (s, a) = match event {
            ReaderEvent::StopSignal => (ReaderState::CheckingBroker, ReaderAction::CheckBroker),
            ReaderEvent::Operated(Running::Continue(res)) => (ReaderState::Handling, ReaderAction::Handle(res)),
            ReaderEvent::Operated(Running::Stop(e)) => (ReaderState::Finished, ReaderAction::Return(outcome_of_stop(e))),
            ReaderEvent::Handled(Running::Continue(_)) => (ReaderState::Racing, ReaderAction::Race),
            ReaderEvent::Handled(Running::Stop(e)) => (ReaderState::Finished, ReaderAction::Return(outcome_of_stop(e))),
            ReaderEvent::BrokerLink(disconnected) => if disconnected {
                (ReaderState::Finished, ReaderAction::Return(Ok(())))
            } else {
                (ReaderState::SignallingBroker, ReaderAction::SignalBroker)
            },
            ReaderEvent::BrokerSignalled => (ReaderState::Finished, ReaderAction::Return(Ok(()))),
        };
        *self = s;
        a
    }
}

/// The reader loop returns exactly when it reaches `Finished`. It returns an
/// error exactly when `op` or `handle_result` answers `Stop(Some(err))`, and
/// then that error; every other way out returns `Ok(())`.
pub proof fn lemma_reader_outcome<R, E>(s: ReaderState, e: ReaderEvent<R, E>)
    requires
        s.accepts(e),
    ensures
        s.next(e).1 is Return <==> s.next(e).0 == ReaderState::Finished,
        forall|err: E| s.next(e).1 == ReaderAction::<R, E>::Return(Err(err)) <==>
            (e == ReaderEvent::<R, E>::Operated(Running::Stop(Some(err)))
                || e == ReaderEvent::<R, E>::Handled(Running::Stop(Some(err)))),
        s.next(e).1 == ReaderAction::<R, E>::Return(Ok(())) <==>
            (e == ReaderEvent::<R, E>::Operated(Running::Stop(None))
                || e == ReaderEvent::<R, E>::Handled(Running::Stop(None))
                || e == ReaderEvent::<R, E>::BrokerLink(true)
                || e == ReaderEvent::<R, E>::BrokerSignalled),
{
}

/// Only the stop signal makes the reader turn to the broker; it signals the
/// broker only when the broker's stop channel is still connected. A reader
/// stopped by `op` or `handle_result` returns without signalling.
pub proof fn lemma_reader_signals_broker<R, E>(s: ReaderState, e: ReaderEvent<R, E>)
    requires
        s.accepts(e),
    ensures
        s.next(e).1 is CheckBroker <==> e is StopSignal,
        s.next(e).1 is SignalBroker <==> (s == ReaderState::CheckingBroker && e == ReaderEvent::<R, E>::BrokerLink(false)),
        (e is Operated || e is Handled) ==> !(s.next(e).0 == ReaderState::CheckingBroker
            || s.next(e).0 == ReaderState::SignallingBroker),
{
}

/// Running after `e1` and then `e2` is running after `e1 + e2`.
pub proof fn lemma_run_append<R, E>(s: ReaderState, e1: Seq<ReaderEvent<R, E>>, e2: Seq<ReaderEvent<R, E>>)
    ensures
        s.run(e1 + e2) == ({
            let (s1, a1) = s.run(e1);
            let (s2, a2) = s1.run(e2);
            (s2, a1 + a2)
        }),
        s.accepts_all(e1 + e2) == (s.accepts_all(e1) && s.run(e1).0.accepts_all(e2)),
    decreases e1.len(),
{
    if e1.len() == 0 {
        assert(e1 + e2 =~= e2);
        assert(s.run(e1).1 + s.run(e2).1 =~= s.run(e2).1);
    } else {
        assert((e1 + e2)[0] == e1[0]);
        assert((e1 + e2).drop_first() =~= e1.drop_first() + e2);
        let s1 = s.next(e1[0]).0;
        lemma_run_append(s1, e1.drop_first(), e2);
        let a = s.next(e1[0]).1;
        let r1 = s1.run(e1.drop_first());
        let r2 = r1.0.run(e2);
        assert(seq![a] + (r1.1 + r2.1) =~= (seq![a] + r1.1) + r2.1);
    }
}

/// Running after a single event is one step.
pub proof fn lemma_run_one<R, E>(s: ReaderState, e: ReaderEvent<R, E>)
    ensures
        s.run(seq![e]) == (s.next(e).0, seq![s.next(e).1]),
        s.accepts_all(seq![e]) == s.accepts(e),
{
    let es = seq![e];
    assert(es.drop_first() =~= Seq::<ReaderEvent<R, E>>::empty());
    assert(es[0] == e);
    let s1 = s.next(e).0;
    assert(s1.run(es.drop_first()) == (s1, Seq::<ReaderAction<R, E>>::empty()));
    assert(s1.accepts_all(es.drop_first()));
    assert(seq![s.next(e).1] + Seq::<ReaderAction<R, E>>::empty() =~= seq![s.next(e).1]);
}

/// The events of a run in which `op` answers `Continue` with each result in
/// turn and `handle_result` answers `Continue`.
pub open spec fn op_events<R, E>(results: Seq<R>) -> Seq<ReaderEvent<R, E>>
    decreases results.len(),
{
    if results.len() == 0 {
        Seq::empty()
    } else {
        seq![
            ReaderEvent::Operated(Running::Continue(results[0])),
            ReaderEvent::Handled(Running::Continue(())),
        ] + op_events(results.drop_first())
    }
}

/// The actions of such a run: `handle_result` on each result, in order, and
/// `op` again.
pub open spec fn op_actions<R, E>(results: Seq<R>) -> Seq<ReaderAction<R, E>>
    decreases results.len(),
{
    if results.len() == 0 {
        Seq::empty()
    } else {
        seq![ReaderAction::Handle(results[0]), ReaderAction::Race] + op_actions(results.drop_first())
    }
}

/// While `op` and `handle_result` answer `Continue`, the reader hands every
/// result of `op`, in order, to `handle_result` and runs `op` again.
pub proof fn lemma_ops_run<R, E>(results: Seq<R>)
    ensures
        ReaderState::Racing.accepts_all(op_events::<R, E>(results)),
        ReaderState::Racing.run(op_events::<R, E>(results)) == (ReaderState::Racing, op_actions::<R, E>(results)),
    decreases results.len(),
{
    if results.len() > 0 {
        let e0 = ReaderEvent::<R, E>::Operated(Running::Continue(results[0]));
        let e1 = ReaderEvent::<R, E>::Handled(Running::Continue(()));
        let tail = op_events::<R, E>(results.drop_first());
        lemma_ops_run::<R, E>(results.drop_first());
        lemma_run_one(ReaderState::Racing, e0);
        lemma_run_one(ReaderState::Handling, e1);
        lemma_run_append(ReaderState::Handling, seq![e1], tail);
        lemma_run_append(ReaderState::Racing, seq![e0], seq![e1] + tail);
        assert(op_events::<R, E>(results) =~= seq![e0] + (seq![e1] + tail));
        assert(op_actions::<R, E>(results) =~= seq![ReaderAction::Handle(results[0])]
            + (seq![ReaderAction::<R, E>::Race] + op_actions::<R, E>(results.drop_first())));
    } else {
        assert(op_events::<R, E>(results) =~= Seq::<ReaderEvent<R, E>>::empty());
        assert(op_actions::<R, E>(results) =~= Seq::<ReaderAction<R, E>>::empty());
    }
}

/// A reader whose `op` keeps going until the stop signal arrives, with the
/// broker still reachable, signals the broker and returns `Ok(())`.
pub proof fn lemma_ops_then_stop_signal<R, E>(results: Seq<R>)
    ensures
        ({
            let evs = op_events::<R, E>(results) + seq![
                ReaderEvent::StopSignal,
                ReaderEvent::BrokerLink(false),
                ReaderEvent::BrokerSignalled,
            ];
            &&& ReaderState::Racing.accepts_all(evs)
            &&& ReaderState::Racing.run(evs) == (ReaderState::Finished, op_actions::<R, E>(results) + seq![
                ReaderAction::CheckBroker,
                ReaderAction::SignalBroker,
                ReaderAction::Return(Ok(())),
            ])
        }),
{
    let e0 = ReaderEvent::<R, E>::StopSignal;
    let e1 = ReaderEvent::<R, E>::BrokerLink(false);
    let e2 = ReaderEvent::<R, E>::BrokerSignalled;
    lemma_ops_run::<R, E>(results);
    lemma_run_one(ReaderState::Racing, e0);
    lemma_run_one(ReaderState::CheckingBroker, e1);
    lemma_run_one(ReaderState::SignallingBroker, e2);
    lemma_run_append(ReaderState::CheckingBroker, seq![e1], seq![e2]);
    lemma_run_append(ReaderState::Racing, seq![e0], seq![e1] + seq![e2]);
    lemma_run_append(ReaderState::Racing, op_events::<R, E>(results), seq![e0] + (seq![e1] + seq![e2]));
    assert(seq![e0, e1, e2] =~= seq![e0] + (seq![e1] + seq![e2]));
    assert(seq![ReaderAction::<R, E>::CheckBroker, ReaderAction::SignalBroker, ReaderAction::Return(Ok(()))]
        =~= seq![ReaderAction::<R, E>::CheckBroker] + (seq![ReaderAction::<R, E>::SignalBroker]
        + seq![ReaderAction::<R, E>::Return(Ok(()))]));
}

/// A reader whose `op` keeps going and then answers `Stop(e)` returns what
/// `e` says, without signalling the broker.
pub proof fn lemma_ops_then_stop<R, E>(results: Seq<R>, e: Option<E>)
    ensures
        ({
            let evs = op_events::<R, E>(results).push(ReaderEvent::Operated(Running::Stop(e)));
            &&& ReaderState::Racing.accepts_all(evs)
            &&& ReaderState::Racing.run(evs) == (ReaderState::Finished,
                op_actions::<R, E>(results).push(ReaderAction::Return(stop_outcome(e))))
        }),
{
    let last = ReaderEvent::<R, E>::Operated(Running::Stop(e));
    lemma_ops_run::<R, E>(results);
    lemma_run_one(ReaderState::Racing, last);
    lemma_run_append(ReaderState::Racing, op_events::<R, E>(results), seq![last]);
    assert(op_events::<R, E>(results).push(last) =~= op_events::<R, E>(results) + seq![last]);
    assert(op_actions::<R, E>(results).push(ReaderAction::Return(stop_outcome(e)))
        =~= op_actions::<R, E>(results) + seq![ReaderAction::<R, E>::Return(stop_outcome(e))]);
}

/// With the default `handle_result`, the reader runs `op` again after every
/// result of `op`: only the stop signal or `op` can end its loop.
pub proof fn lemma_default_handler_keeps_looping<R, E>()
    ensures
        ReaderState::Handling.next(ReaderEvent::<R, E>::Handled(default_handled()))
            == (ReaderState::Racing, ReaderAction::<R, E>::Race),
{
}

/// Each state takes exactly the answer to the action that led into it:
/// while `op` runs, its result or the stop signal; while `handle_result`
/// runs, only its answer (not the stop signal); in the turn to the broker,
/// only the outcome of the step under way; and nothing once returned.
pub proof fn lemma_accepts_only_answers<R, E>(s: ReaderState, e: ReaderEvent<R, E>)
    ensures
        s == ReaderState::Racing ==> (s.accepts(e) <==> (e is StopSignal || e is Operated)),
        s == ReaderState::Handling ==> (s.accepts(e) <==> e is Handled),
        s == ReaderState::CheckingBroker ==> (s.accepts(e) <==> e is BrokerLink),
        s == ReaderState::SignallingBroker ==> (s.accepts(e) <==> e is BrokerSignalled),
        !ReaderState::Finished.accepts(e),
{
}

/// After a step, the only events the reader takes next are the answers to
/// the action that step gave; after `Return`, none.
pub proof fn lemma_next_event_answers_action<R, E>(s: ReaderState, e: ReaderEvent<R, E>, e2: ReaderEvent<R, E>)
    requires
        s.accepts(e),
        s.next(e).0.accepts(e2),
    ensures
        s.next(e).1 is Race ==> (e2 is StopSignal || e2 is Operated),
        s.next(e).1 is Handle ==> e2 is Handled,
        s.next(e).1 is CheckBroker ==> e2 is BrokerLink,
        s.next(e).1 is SignalBroker ==> e2 is BrokerSignalled,
        !(s.next(e).1 is Return),
{
}

} // verus!
