//! Builder for broker-reader-writer

use vstd::prelude::*;

verus! {

/// Builder for Broker-Reader-Writer pattern
pub struct Builder<B, R, W> {
    broker: Option<B>,
    reader: Option<R>,
    writer: Option<W>,
}

impl<B, R, W> View for Builder<B, R, W> {
    type V = (Option<B>, Option<R>, Option<W>);

    /// The broker, reader and writer set so far.
    closed spec fn view(&self) -> (Option<B>, Option<R>, Option<W>) {
        (self.broker, self.reader, self.writer)
    }
}

/// The three parts when all of them are set.
pub open spec fn complete_parts<B, R, W>(v: (Option<B>, Option<R>, Option<W>)) -> Option<(B, R, W)> {
    match v {
        (Some(b), Some(r), Some(w)) => Some((b, r, w)),
        _ => None,
    }
}

/// The parts after setting the broker.
pub open spec fn with_broker<B, R, W, BB>(v: (Option<B>, Option<R>, Option<W>), broker: BB) -> (Option<BB>, Option<R>, Option<W>) {
    (Some(broker), v.1, v.2)
}

/// The parts after setting the reader.
pub open spec fn with_reader<B, R, W, RR>(v: (Option<B>, Option<R>, Option<W>), reader: RR) -> (Option<B>, Option<RR>, Option<W>) {
    (v.0, Some(reader), v.2)
}

/// The parts after setting the writer.
pub open spec fn with_writer<B, R, W, WW>(v: (Option<B>, Option<R>, Option<W>), writer: WW) -> (Option<B>, Option<R>, Option<WW>) {
    (v.0, v.1, Some(writer))
}

/// A builder yields its parts exactly when the broker, the reader and the
/// writer have all been set; they are the last ones set, in whichever order
/// the setters were called.
pub proof fn lemma_parts_after_setters<B, R, W>(b: B, b2: B, r: R, w: W)
    ensures
        complete_parts(with_writer(with_reader(with_broker((None::<B>, None::<R>, None::<W>), b), r), w)) == Some((b, r, w)),
        complete_parts(with_broker(with_reader(with_writer((None::<B>, None::<R>, None::<W>), w), r), b)) == Some((b, r, w)),
        complete_parts(with_broker(with_writer(with_reader(with_broker((None::<B>, None::<R>, None::<W>), b2), r), w), b)) == Some((b, r, w)),
        complete_parts(with_reader(with_broker((None::<B>, None::<R>, None::<W>), b), r)) == None::<(B, R, W)>,
        complete_parts(with_writer(with_broker((None::<B>, None::<R>, None::<W>), b), w)) == None::<(B, R, W)>,
        complete_parts(with_writer(with_reader((None::<B>, None::<R>, None::<W>), r), w)) == None::<(B, R, W)>,
{
}

impl<B, R, W> Builder<B, R, W> {
    /// Creates a new but empty builder
    pub fn new() -> (builder: Self)
        ensures
            builder@ == (None::<B>, None::<R>, None::<W>),
    {
        Builder::<B, R, W> { broker: None, reader: None, writer: None }
    }

    /// Sets the broker
    pub fn set_broker<BB>(self, broker: BB) -> (builder: Builder<BB, R, W>)
        ensures
            builder@ == with_broker(self@, broker),
    {
        Builder::<BB, R, W> { broker: Some(broker), reader: self.reader, writer: self.writer }
    }

    /// Sets the reader
    pub fn set_reader<RR>(self, reader: RR) -> (builder: Builder<B, RR, W>)
        ensures
            builder@ == with_reader(self@, reader),
    {
        Builder::<B, RR, W> { broker: self.broker, reader: Some(reader), writer: self.writer }
    }

    /// Sets the writer
    pub fn set_writer<WW>(self, writer: WW) -> (builder: Builder<B, R, WW>)
        ensures
            builder@ == with_writer(self@, writer),
    {
        Builder::<B, R, WW> { broker: self.broker, reader: self.reader, writer: Some(writer) }
    }

    /// The broker, reader and writer to spawn: `None` unless all three are set.
    pub fn into_parts(self) -> (parts: Option<(B, R, W)>)
        ensures
            parts == complete_parts(self@),
    {
        match (self.broker, self.reader, self.writer) {
            (Some(b), Some(r), Some(w)) => Some((b, r, w)),
            _ => None,
        }
    }
}

} // verus!
