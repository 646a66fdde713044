//! Decisions of the writer loop.
//!
//! The writer takes items one at a time until the stream of items ends. Each
//! item goes to `op`; what `op` returns goes to `handle_result`. When `op`
//! or `handle_result` answers `Stop`, or the stream ends, the writer loop
//! ends.
//!
//! [`WriterState::step`] takes what happened and gives the next thing to do.

use vstd::prelude::*;
use crate::running::{default_handled, Running};

verus! {

/// Where the writer loop stands.
#[derive(PartialEq, Eq, Structural, Clone, Copy, Debug)]
pub enum WriterState {
    /// Waiting for the next item.
    Receiving,
    /// `op` runs on an item.
    Operating,
    /// `handle_result` runs on what `op` returned.
    Handling,
    /// The writer loop has ended.
    Exited,
}

/// What happened since the last action.
pub enum WriterEvent<I, R> {
    /// The stream yielded an item, or `None` when it has ended.
    Received(Option<I>),
    /// `op` returned.
    Operated(Running<R, ()>),
    /// `handle_result` returned.
    Handled(Running<(), ()>),
}

/// What the writer is to do next.
pub enum WriterAction<I, R> {
    /// Wait for the next item.
    NextItem,
    /// Run `op` on this item.
    Operate(I),
    /// Run `handle_result` on this result of `op`.
    Handle(R),
    /// Leave the writer loop.
    Exit,
}

impl WriterState {
    /// The events that can follow the action that led into this state.
    pub open spec fn accepts<I, R>(self, event: WriterEvent<I, R>) -> bool {
        match self {
            WriterState::Receiving => event is Received,
            WriterState::Operating => event is Operated,
            WriterState::Handling => event is Handled,
            WriterState::Exited => false,
        }
    }

    /// The transition table of the writer loop: next state and action.
    pub open spec fn next<I, R>(self, event: WriterEvent<I, R>) -> (WriterState, WriterAction<I, R>)
        recommends
            self.accepts(event),
    {
        match event {
            WriterEvent::Received(Some(item)) => (WriterState::Operating, WriterAction::Operate(item)),
            WriterEvent::Received(None) => (WriterState::Exited, WriterAction::Exit),
            WriterEvent::Operated(Running::Continue(res)) => (WriterState::Handling, WriterAction::Handle(res)),
            WriterEvent::Operated(Running::Stop(_)) => (WriterState::Exited, WriterAction::Exit),
            WriterEvent::Handled(Running::Continue(_)) => (WriterState::Receiving, WriterAction::NextItem),
            WriterEvent::Handled(Running::Stop(_)) => (WriterState::Exited, WriterAction::Exit),
        }
    }

    /// Whether `events`, one after the other, each fit the state they meet.
    pub open spec fn accepts_all<I, R>(self, events: Seq<WriterEvent<I, R>>) -> bool
        decreases events.len(),
    {
        if events.len() == 0 {
            true
        } else {
            self.accepts(events[0]) && self.next(events[0]).0.accepts_all(events.drop_first())
        }
    }

    /// The state reached after `events`, and the actions taken on the way.
    pub open spec fn run<I, R>(self, events: Seq<WriterEvent<I, R>>) -> (WriterState, Seq<WriterAction<I, R>>)
        decreases events.len(),
    {
        if events.len() == 0 {
            (self, Seq::empty())
        } else {
            let (s1, a) = self.next(events[0]);
            let (s2, rest) = s1.run(events.drop_first());
            (s2, seq![a] + rest)
        }
    }

    /// The writer before its first event; its first action is [`WriterAction::NextItem`].
    pub fn new() -> (s: WriterState)
        ensures
            s == WriterState::Receiving,
    {
        WriterState::Receiving
    }

    /// Whether `event` can follow the action that led into this state.
    pub fn accepts_event<I, R>(&self, event: &WriterEvent<I, R>) -> (b: bool)
        ensures
            b == self.accepts(*event),
    {
        match self {
            WriterState::Receiving => match event {
                WriterEvent::Received(_) => true,
                _ => false,
            },
            WriterState::Operating => match event {
                WriterEvent::Operated(_) => true,
                _ => false,
            },
            WriterState::Handling => match event {
                WriterEvent::Handled(_) => true,
                _ => false,
            },
            WriterState::Exited => false,
        }
    }

    /// Takes what happened, moves to the next state and says what to do.
    pub fn step<I, R>(&mut self, event: WriterEvent<I, R>) -> (action: WriterAction<I, R>)
        requires
            old(self).accepts(event),
        ensures
            (*final(self), action) == old(self).next(event),
    {
        let (s, a) = match event {
            WriterEvent::Received(Some(item)) => (WriterState::Operating, WriterAction::Operate(item)),
            WriterEvent::Received(None) => (WriterState::Exited, WriterAction::Exit),
            WriterEvent::Operated(Running::Continue(res)) => (WriterState::Handling, WriterAction::Handle(res)),
            WriterEvent::Operated(Running::Stop(_)) => (WriterState::Exited, WriterAction::Exit),
            WriterEvent::Handled(Running::Continue(_)) => (WriterState::Receiving, WriterAction::NextItem),
            WriterEvent::Handled(Running::Stop(_)) => (WriterState::Exited, WriterAction::Exit),
        };
        *self = s;
        a
    }
}

/// The writer loop goes on exactly while items come and `op` and
/// `handle_result` answer `Continue`; otherwise it ends, and an ended writer
/// takes no more events.
pub proof fn lemma_writer_stops_exactly<I, R>(s: WriterState, e: WriterEvent<I, R>)
    requires
        s.accepts(e),
    ensures
        s.next(e).1 is Exit <==> s.next(e).0 == WriterState::Exited,
        s.next(e).0 == WriterState::Exited <==> (e == WriterEvent::<I, R>::Received(None)
            || (e matches WriterEvent::Operated(r) && r is Stop)
            || (e matches WriterEvent::Handled(r) && r is Stop)),
        !WriterState::Exited.accepts(e),
{
}

/// Running after `e1` and then `e2` is running after `e1 + e2`.
pub proof fn lemma_run_append<I, R>(s: WriterState, e1: Seq<WriterEvent<I, R>>, e2: Seq<WriterEvent<I, R>>)
    ensures
        s.run(e1 + e2) == ({
            let (s1, a1) = s.run(e1);
            let (s2, a2) = s1.run(e2);
            (s2, a1 + a2)
        }),
        s.accepts_all(e1 + e2) == (s.accepts_all(e1) && s.run(e1).0.accepts_all(e2)),
    decreases e1.len(),
{
    if e1.len() == 0 {
        assert(e1 + e2 =~= e2);
        assert(s.run(e1).1 + s.run(e2).1 =~= s.run(e2).1);
    } else {
        assert((e1 + e2)[0] == e1[0]);
        assert((e1 + e2).drop_first() =~= e1.drop_first() + e2);
        let s1 = s.next(e1[0]).0;
        lemma_run_append(s1, e1.drop_first(), e2);
        let a = s.next(e1[0]).1;
        let r1 = s1.run(e1.drop_first());
        let r2 = r1.0.run(e2);
        assert(seq![a] + (r1.1 + r2.1) =~= (seq![a] + r1.1) + r2.1);
    }
}

/// Running after a single event is one step.
pub proof fn lemma_run_one<I, R>(s: WriterState, e: WriterEvent<I, R>)
    ensures
        s.run(seq![e]) == (s.next(e).0, seq![s.next(e).1]),
        s.accepts_all(seq![e]) == s.accepts(e),
{
    let es = seq![e];
    assert(es.drop_first() =~= Seq::<WriterEvent<I, R>>::empty());
    assert(es[0] == e);
    let s1 = s.next(e).0;
    assert(s1.run(es.drop_first()) == (s1, Seq::<WriterAction<I, R>>::empty()));
    assert(s1.accepts_all(es.drop_first()));
    assert(seq![s.next(e).1] + Seq::<WriterAction<I, R>>::empty() =~= seq![s.next(e).1]);
}

/// The events of a run in which every item comes, `op` answers `Continue`
/// with the matching result and `handle_result` answers `Continue`.
pub open spec fn item_events<I, R>(items: Seq<I>, results: Seq<R>) -> Seq<WriterEvent<I, R>>
    decreases items.len(),
{
    if items.len() == 0 || results.len() == 0 {
        Seq::empty()
    } else {
        seq![
            WriterEvent::Received(Some(items[0])),
            WriterEvent::Operated(Running::Continue(results[0])),
            WriterEvent::Handled(Running::Continue(())),
        ] + item_events(items.drop_first(), results.drop_first())
    }
}

/// The actions of such a run: `op` on each item in order, `handle_result` on
/// each result, and a wait for the next item.
pub open spec fn item_actions<I, R>(items: Seq<I>, results: Seq<R>) -> Seq<WriterAction<I, R>>
    decreases items.len(),
{
    if items.len() == 0 || results.len() == 0 {
        Seq::empty()
    } else {
        seq![
            WriterAction::Operate(items[0]),
            WriterAction::Handle(results[0]),
            WriterAction::NextItem,
        ] + item_actions(items.drop_first(), results.drop_first())
    }
}

/// A run of items that all continue comes back to waiting for items.
pub proof fn lemma_items_run<I, R>(items: Seq<I>, results: Seq<R>)
    requires
        items.len() == results.len(),
    ensures
        WriterState::Receiving.accepts_all(item_events(items, results)),
        WriterState::Receiving.run(item_events(items, results)) == (WriterState::Receiving, item_actions(items, results)),
    decreases items.len(),
{
    if items.len() > 0 {
        let e0 = WriterEvent::<I, R>::Received(Some(items[0]));
        let e1 = WriterEvent::<I, R>::Operated(Running::Continue(results[0]));
        let e2 = WriterEvent::<I, R>::Handled(Running::Continue(()));
        let tail = item_events(items.drop_first(), results.drop_first());
        lemma_items_run(items.drop_first(), results.drop_first());
        lemma_run_one(WriterState::Receiving, e0);
        lemma_run_one(WriterState::Operating, e1);
        lemma_run_one(WriterState::Handling, e2);
        lemma_run_append(WriterState::Handling, seq![e2], tail);
        lemma_run_append(WriterState::Operating, seq![e1], seq![e2] + tail);
        lemma_run_append(WriterState::Receiving, seq![e0], seq![e1] + (seq![e2] + tail));
        assert(item_events(items, results) =~= seq![e0] + (seq![e1] + (seq![e2] + tail)));
        assert(item_actions(items, results) =~= seq![WriterAction::Operate(items[0])]
            + (seq![WriterAction::Handle(results[0])] + (seq![WriterAction::<I, R>::NextItem]
            + item_actions(items.drop_first(), results.drop_first()))));
    } else {
        assert(item_events(items, results) =~= Seq::<WriterEvent<I, R>>::empty());
        assert(item_actions(items, results) =~= Seq::<WriterAction<I, R>>::empty());
    }
}

/// While `op` and `handle_result` answer `Continue`, the writer runs `op` on
/// every item of the stream, in order, hands each result to
/// `handle_result`, and ends when the stream ends.
pub proof fn lemma_items_then_end<I, R>(items: Seq<I>, results: Seq<R>)
    requires
        items.len() == results.len(),
    ensures
        WriterState::Receiving.accepts_all(item_events(items, results).push(WriterEvent::Received(None))),
        WriterState::Receiving.run(item_events(items, results).push(WriterEvent::Received(None)))
            == (WriterState::Exited, item_actions(items, results).push(WriterAction::Exit)),
{
    let last = WriterEvent::<I, R>::Received(None);
    lemma_items_run(items, results);
    lemma_run_one(WriterState::Receiving, last);
    lemma_run_append(WriterState::Receiving, item_events(items, results), seq![last]);
    assert(item_events(items, results).push(last) =~= item_events(items, results) + seq![last]);
    assert(item_actions(items, results).push(WriterAction::Exit)
        =~= item_actions(items, results) + seq![WriterAction::<I, R>::Exit]);
}

/// With the default `handle_result`, the writer waits for the next item
/// after every result of `op`: only the end of the stream or `op` can end
/// its loop.
pub proof fn lemma_default_handler_keeps_looping<I, R>()
    ensures
        WriterState::Handling.next(WriterEvent::<I, R>::Handled(default_handled()))
            == (WriterState::Receiving, WriterAction::<I, R>::NextItem),
{
}

/// Each state takes exactly the answer to the action that led into it:
/// while waiting, the next item or the end of the stream; while `op` runs,
/// only its result (no further item); while `handle_result` runs, only its
/// answer; and nothing once ended.
pub proof fn lemma_accepts_only_answers<I, R>(s: WriterState, e: WriterEvent<I, R>)
    ensures
        s == WriterState::Receiving ==> (s.accepts(e) <==> e is Received),
        s == WriterState::Operating ==> (s.accepts(e) <==> e is Operated),
        s == WriterState::Handling ==> (s.accepts(e) <==> e is Handled),
        !WriterState::Exited.accepts(e),
{
}

/// After a step, the only events the writer takes next are the answers to
/// the action that step gave; after `Exit`, none.
pub proof fn lemma_next_event_answers_action<I, R>(s: WriterState, e: WriterEvent<I, R>, e2: WriterEvent<I, R>)
    requires
        s.accepts(e),
        s.next(e).0.accepts(e2),
    ensures
        s.next(e).1 is NextItem ==> e2 is Received,
        s.next(e).1 is Operate ==> e2 is Operated,
        s.next(e).1 is Handle ==> e2 is Handled,
        !(s.next(e).1 is Exit),
{
}

} // verus!
