//! Passing a body on while it arrives. A body is a finite run of chunks that
//! can be read once. The relay reads it chunk by chunk from its source and
//! hands each chunk to a sink; it decides here what to do at each turn, and
//! whoever drives the relay does the reading and the writing.

use vstd::prelude::*;

verus! {

/// Whether a body is still being passed on.
#[derive(Clone, Copy, Debug, PartialEq, Eq, Structural)]
pub enum Flow {
    /// Chunks are read from the source and handed to the sink.
    Open,
    /// Nothing more is read and nothing more is handed on.
    Closed,
}

/// What the driver saw happen.
#[derive(Clone, Debug, PartialEq, Eq)]
pub enum BodyEvent {
    /// The source produced a chunk.
    Chunk(Vec<u8>),
    /// The source is exhausted.
    End,
    /// Reading from the source failed.
    ReadFailed,
    /// The sink can take no more: the receiving side is gone.
    SinkGone,
}

/// The mathematical content of a [`BodyEvent`].
pub enum BodyEventView {
    Chunk(Seq<u8>),
    End,
    ReadFailed,
    SinkGone,
}

impl View for BodyEvent {
    type V = BodyEventView;

    open spec fn view(&self) -> BodyEventView {
        match self {
            BodyEvent::Chunk(chunk) => BodyEventView::Chunk(chunk@),
            BodyEvent::End => BodyEventView::End,
            BodyEvent::ReadFailed => BodyEventView::ReadFailed,
            BodyEvent::SinkGone => BodyEventView::SinkGone,
        }
    }
}

/// What the driver is to do next.
#[derive(Clone, Debug, PartialEq, Eq)]
pub enum BodyAction {
    /// Hand the chunk to the sink, then read on.
    Forward(Vec<u8>),
    /// Close the sink: the body is complete.
    Finish,
    /// Close the sink with an error: the body was cut short.
    Abort,
    /// Let go of the source and read no more; there is nothing to write.
    Release,
}

/// The mathematical content of a [`BodyAction`].
pub enum BodyActionView {
    Forward(Seq<u8>),
    Finish,
    Abort,
    Release,
}

impl View for BodyAction {
    type V = BodyActionView;

    open spec fn view(&self) -> BodyActionView {
        match self {
            BodyAction::Forward(chunk) => BodyActionView::Forward(chunk@),
            BodyAction::Finish => BodyActionView::Finish,
            BodyAction::Abort => BodyActionView::Abort,
            BodyAction::Release => BodyActionView::Release,
        }
    }
}

/// One turn of the relay. While the flow is open, a chunk is forwarded as it
/// is, and the end of the source, a failure to read and the loss of the sink
/// each close the flow. Once the flow is closed nothing is forwarded again.
pub open spec fn step(flow: Flow, event: BodyEventView) -> (Flow, BodyActionView) {
    match (flow, event) {
        (Flow::Open, BodyEventView::Chunk(chunk)) => (Flow::Open, BodyActionView::Forward(chunk)),
        (Flow::Open, BodyEventView::End) => (Flow::Closed, BodyActionView::Finish),
        (Flow::Open, BodyEventView::ReadFailed) => (Flow::Closed, BodyActionView::Abort),
        (Flow::Open, BodyEventView::SinkGone) => (Flow::Closed, BodyActionView::Release),
        (Flow::Closed, _) => (Flow::Closed, BodyActionView::Release),
    }
}

/// The flow after a run of events, and the actions taken on the way.
pub open spec fn run(flow: Flow, events: Seq<BodyEventView>) -> (Flow, Seq<BodyActionView>)
    decreases events.len(),
{
    if events.len() == 0 {
        (flow, Seq::empty())
    } else {
        let (reached, taken) = run(flow, events.drop_last());
        let (next, action) = step(reached, events.last());
        (next, taken.push(action))
    }
}

/// The octets that a run of actions hands to the sink, in the order in which
/// the sink gets them.
pub open spec fn delivered(actions: Seq<BodyActionView>) -> Seq<u8>
    decreases actions.len(),
{
    if actions.len() == 0 {
        Seq::empty()
    } else {
        delivered(actions.drop_last()) + match actions.last() {
            BodyActionView::Forward(chunk) => chunk,
            _ => Seq::empty(),
        }
    }
}

/// The events that a driver sees when the source yields `chunks` and then
/// ends.
pub open spec fn whole_body(chunks: Seq<Seq<u8>>) -> Seq<BodyEventView> {
    chunks.map_values(|chunk: Seq<u8>| BodyEventView::Chunk(chunk)).push(BodyEventView::End)
}

/// The relay of one body.
#[derive(Debug)]
pub struct BodyRelay {
    flow: Flow,
}

impl View for BodyRelay {
    type V = Flow;

    closed spec fn view(&self) -> Flow {
        self.flow
    }
}

impl BodyRelay {
    /// A relay with its flow open.
    pub fn new() -> (relay: BodyRelay)
        ensures
            relay@ == Flow::Open,
    {
        BodyRelay { flow: Flow::Open }
    }

    /// Whether the flow is closed.
    pub fn is_closed(&self) -> (closed: bool)
        ensures
            closed == (self@ == Flow::Closed),
    {
        match self.flow {
            Flow::Open => false,
            Flow::Closed => true,
        }
    }

    /// Takes one turn: tells the driver what to do about `event`, and moves
    /// the flow on.
    pub fn step(&mut self, event: BodyEvent) -> (action: BodyAction)
        ensures
            (final(self)@, action@) == step(old(self)@, event@),
    {
        match self.flow {
            Flow::Closed => BodyAction::Release,
            Flow::Open => match event {
                BodyEvent::Chunk(chunk) => BodyAction::Forward(chunk),
                BodyEvent::End => {
                    self.flow = Flow::Closed;
                    BodyAction::Finish
                },
                BodyEvent::ReadFailed => {
                    self.flow = Flow::Closed;
                    BodyAction::Abort
                },
                BodyEvent::SinkGone => {
                    self.flow = Flow::Closed;
                    BodyAction::Release
                },
            },
        }
    }
}

/// While only chunks arrive, each is forwarded and the flow stays open.
pub proof fn lemma_chunks_are_forwarded(chunks: Seq<Seq<u8>>)
    ensures
        run(Flow::Open, chunks.map_values(|chunk: Seq<u8>| BodyEventView::Chunk(chunk))) == (
            Flow::Open,
            chunks.map_values(|chunk: Seq<u8>| BodyActionView::Forward(chunk)),
        ),
        delivered(chunks.map_values(|chunk: Seq<u8>| BodyActionView::Forward(chunk)))
            == chunks.flatten(),
    decreases chunks.len(),
{
    let events = chunks.map_values(|chunk: Seq<u8>| BodyEventView::Chunk(chunk));
    let actions = chunks.map_values(|chunk: Seq<u8>| BodyActionView::Forward(chunk));
    if chunks.len() == 0 {
        assert(run(Flow::Open, events).1 =~= actions);
    } else {
        let front = chunks.drop_last();
        lemma_chunks_are_forwarded(front);
        assert(events.drop_last() =~= front.map_values(
            |chunk: Seq<u8>| BodyEventView::Chunk(chunk),
        ));
        assert(actions.drop_last() =~= front.map_values(
            |chunk: Seq<u8>| BodyActionView::Forward(chunk),
        ));
        assert(run(Flow::Open, events).1 =~= actions);
        front.lemma_flatten_push(chunks.last());
        assert(front.push(chunks.last()) =~= chunks);
    }
}

/// A body reaches the sink as it left the source: whatever chunks the source
/// yields before it ends, be they none, one or many, the sink is handed the
/// same octets in the same order, and is then closed.
pub proof fn law_body_arrives_unchanged(chunks: Seq<Seq<u8>>)
    ensures
        run(Flow::Open, whole_body(chunks)).0 == Flow::Closed,
        run(Flow::Open, whole_body(chunks)).1 == chunks.map_values(
            |chunk: Seq<u8>| BodyActionView::Forward(chunk),
        ).push(BodyActionView::Finish),
        delivered(run(Flow::Open, whole_body(chunks)).1) == chunks.flatten(),
{
    let events = whole_body(chunks);
    let forwards = chunks.map_values(|chunk: Seq<u8>| BodyActionView::Forward(chunk));
    lemma_chunks_are_forwarded(chunks);
    assert(events.drop_last() =~= chunks.map_values(
        |chunk: Seq<u8>| BodyEventView::Chunk(chunk),
    ));
    assert(forwards.push(BodyActionView::Finish).drop_last() =~= forwards);
    assert(delivered(forwards.push(BodyActionView::Finish)) =~= delivered(forwards));
}

/// When the source ends or fails, the flow is closed, and if it was open
/// until then, the sink is closed in that same turn: whoever reads from the
/// sink is not left waiting.
pub proof fn law_source_end_closes_sink(flow: Flow, events: Seq<BodyEventView>, last: BodyEventView)
    requires
        last is End || last is ReadFailed,
    ensures
        run(flow, events.push(last)).0 == Flow::Closed,
        run(flow, events).0 == Flow::Open ==> {
            let action = run(flow, events.push(last)).1.last();
            action is Finish || action is Abort
        },
{
    assert(events.push(last).drop_last() =~= events);
}

/// Once the flow is closed it stays closed, and nothing is handed to the
/// sink again: a body is passed on at most once.
pub proof fn law_closed_flow_delivers_nothing(events: Seq<BodyEventView>)
    ensures
        run(Flow::Closed, events).0 == Flow::Closed,
        run(Flow::Closed, events).1.len() == events.len(),
        forall|i: int|
            0 <= i < events.len() ==> (#[trigger] run(Flow::Closed, events).1[i]) is Release,
        delivered(run(Flow::Closed, events).1) == Seq::<u8>::empty(),
    decreases events.len(),
{
    if events.len() > 0 {
        law_closed_flow_delivers_nothing(events.drop_last());
        let taken = run(Flow::Closed, events).1;
        assert(taken.drop_last() =~= run(Flow::Closed, events.drop_last()).1);
        assert(delivered(taken) =~= delivered(taken.drop_last()));
    }
}

} // verus!
