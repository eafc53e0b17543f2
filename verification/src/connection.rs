//! What the two tasks behind a connection do: one hands on what arrives, the other sends out
//! what is queued. `M` is the type of a message.

use std::collections::VecDeque;
use vstd::prelude::*;

use crate::queue::queue_of;

verus! {

/// What the reading task does next.
#[derive(Debug, PartialEq, Eq)]
pub enum ReaderStep<M> {
    /// Hand this message on, as one from this sender.
    Forward(u64, M),
    /// Wait for what arrives next.
    NextChunk,
    /// End.
    End,
}

/// What the reading task does where a message cannot be handed on.
#[derive(Debug, Clone, Copy, PartialEq, Eq, Structural)]
pub enum ForwardFailure {
    /// Drop the rest of what arrived with it and go on.
    Skip,
    /// End.
    End,
}

/// The mathematical model of a [`Reader`].
#[verifier::ext_equal]
pub struct ReaderState<M> {
    /// Whom the messages are from.
    pub from: u64,
    /// What arrived and was not looked at yet; `None` stands for what could not be read.
    pub pending: Seq<Option<M>>,
    pub on_failure: ForwardFailure,
    /// Whether the task has ended.
    pub ended: bool,
}

impl<M> ReaderState<M> {
    /// The step from this state and the state after it: what could not be read is passed over.
    pub open spec fn next(self) -> (Self, ReaderStep<M>)
        decreases self.pending.len(),
    {
        if self.ended {
            (self, ReaderStep::End)
        } else if self.pending.len() == 0 {
            (self, ReaderStep::NextChunk)
        } else {
            let rest = ReaderState { pending: self.pending.drop_first(), ..self };
            match self.pending[0] {
                Some(msg) => (rest, ReaderStep::Forward(self.from, msg)),
                None => rest.next(),
            }
        }
    }

    /// The state once a message could not be handed on.
    pub open spec fn forward_failed(self) -> Self {
        ReaderState {
            pending: seq![],
            ended: self.ended || self.on_failure == ForwardFailure::End,
            ..self
        }
    }

    /// All messages that are handed on until the reader waits again, where none fails to be.
    pub open spec fn forwards(self) -> Seq<(u64, M)>
        decreases self.pending.len(),
        via Self::forwards_decreases
    {
        match self.next() {
            (after, ReaderStep::Forward(from, msg)) => seq![(from, msg)] + after.forwards(),
            _ => seq![],
        }
    }

    #[via_fn]
    proof fn forwards_decreases(self) {
        self.lemma_next_shrinks();
    }

    proof fn lemma_next_shrinks(self)
        ensures
            self.next().1 is Forward ==> self.next().0.pending.len() < self.pending.len(),
            self.next().0.pending.len() <= self.pending.len(),
            self.next().0.from == self.from,
            self.next().0.ended == self.ended,
        decreases self.pending.len(),
    {
        if self.pending.len() > 0 && self.pending[0] is None {
            let rest = ReaderState { pending: self.pending.drop_first(), ..self };
            if !self.ended {
                rest.lemma_next_shrinks();
            }
        }
    }
}

/// What could be read, in the order in which it arrived.
pub open spec fn readable<M>(from: u64, pending: Seq<Option<M>>) -> Seq<(u64, M)>
    decreases pending.len(),
{
    if pending.len() == 0 {
        seq![]
    } else {
        match pending[0] {
            Some(msg) => seq![(from, msg)] + readable(from, pending.drop_first()),
            None => readable(from, pending.drop_first()),
        }
    }
}

/// Where nothing fails, a reader hands on everything that could be read, in the order in
/// which it arrived, each once and as from the one sender.
pub proof fn law_reader_hands_on_everything<M>(state: ReaderState<M>)
    requires
        !state.ended,
    ensures
        state.forwards() == readable(state.from, state.pending),
    decreases state.pending.len(),
{
    if state.pending.len() > 0 {
        let rest = ReaderState { pending: state.pending.drop_first(), ..state };
        law_reader_hands_on_everything(rest);
        rest.lemma_next_shrinks();
    }
}

/// A message that cannot be handed on ends what arrived with it: the reader of a peer then waits
/// for what arrives next, and the reader of a client ends, and stays so.
pub proof fn law_reader_failure<M>(state: ReaderState<M>)
    requires
        !state.ended,
    ensures
        state.forward_failed().next() == (
            state.forward_failed(),
            match state.on_failure {
                ForwardFailure::Skip => ReaderStep::<M>::NextChunk,
                ForwardFailure::End => ReaderStep::<M>::End,
            },
        ),
{
}

/// Reads from one connection.
pub struct Reader<M> {
    from: u64,
    pending: VecDeque<Option<M>>,
    on_failure: ForwardFailure,
    ended: bool,
}

impl<M> View for Reader<M> {
    type V = ReaderState<M>;

    closed spec fn view(&self) -> ReaderState<M> {
        ReaderState {
            from: self.from,
            pending: self.pending@,
            on_failure: self.on_failure,
            ended: self.ended,
        }
    }
}

impl<M> Reader<M> {
    /// A reader of what this sender sends, with nothing to look at yet.
    pub fn new(from: u64, on_failure: ForwardFailure) -> (r: Self)
        ensures
            r@ == (ReaderState::<M> { from, pending: seq![], on_failure, ended: false }),
    {
        Reader { from, pending: VecDeque::new(), on_failure, ended: false }
    }

    /// A reader of what a peer sends, which goes on after a message that cannot be handed on.
    pub fn of_peer(from: u64) -> (r: Self)
        ensures
            r@ == (ReaderState::<M> {
                from,
                pending: seq![],
                on_failure: ForwardFailure::Skip,
                ended: false,
            }),
    {
        Reader::new(from, ForwardFailure::Skip)
    }

    /// A reader of what a client sends, which ends with the first message that cannot be handed
    /// on.
    pub fn of_client(from: u64) -> (r: Self)
        ensures
            r@ == (ReaderState::<M> {
                from,
                pending: seq![],
                on_failure: ForwardFailure::End,
                ended: false,
            }),
    {
        Reader::new(from, ForwardFailure::End)
    }

    /// Takes up what arrived, after what was handed on; `None` stands for what could not be
    /// read.
    pub fn arrived(&mut self, chunk: Vec<Option<M>>)
        requires
            old(self)@.pending.len() == 0,
        ensures
            final(self)@ == (ReaderState { pending: chunk@, ..old(self)@ }),
    {
        self.pending = queue_of(chunk);
    }

    /// What to do next.
    pub fn next(&mut self) -> (r: ReaderStep<M>)
        ensures
            (final(self)@, r) == old(self)@.next(),
    {
        if self.ended {
            return ReaderStep::End;
        }
        let ghost start = self@;
        while self.pending.len() > 0
            invariant
                start == old(self)@,
                !self.ended,
                self@.next() == start.next(),
            decreases self.pending.len(),
        {
            let ghost before = self@;
            if let Some(item) = self.pending.pop_front() {
                assert(self@.pending =~= before.pending.drop_first());
                if let Some(msg) = item {
                    return ReaderStep::Forward(self.from, msg);
                }
            }
        }
        ReaderStep::NextChunk
    }

    /// A message could not be handed on: the rest of what arrived with it is dropped, and the
    /// reader of a client ends.
    pub fn forward_failed(&mut self)
        ensures
            final(self)@ == old(self)@.forward_failed(),
    {
        self.pending = VecDeque::new();
        if let ForwardFailure::End = self.on_failure {
            self.ended = true;
        }
    }
}

/// What the writing task does where a message cannot be written.
#[derive(Debug, Clone, Copy, PartialEq, Eq, Structural)]
pub enum FeedFailure {
    /// Drop the rest of the batch, send out what was written and go on.
    Flush,
    /// Close the connection.
    Close,
}

/// Where the writing task stands.
#[derive(Debug, Clone, Copy, PartialEq, Eq, Structural)]
pub enum WriterPhase {
    /// It waits for messages.
    Receiving,
    /// It writes a batch.
    Feeding,
    /// It has ended.
    Closed,
}

/// What the writing task does next.
#[derive(Debug, PartialEq, Eq)]
pub enum WriterStep<M> {
    /// Wait for messages.
    Receive,
    /// Write this message.
    Feed(M),
    /// Send out what was written.
    Flush,
    /// End.
    Close,
}

/// The mathematical model of a [`Writer`].
#[verifier::ext_equal]
pub struct WriterState<M> {
    pub phase: WriterPhase,
    /// What is left of the batch.
    pub batch: Seq<M>,
    pub on_failure: FeedFailure,
}

impl<M> WriterState<M> {
    /// The step from this state and the state after it.
    pub open spec fn next(self) -> (Self, WriterStep<M>) {
        match self.phase {
            WriterPhase::Receiving => (self, WriterStep::Receive),
            WriterPhase::Closed => (self, WriterStep::Close),
            WriterPhase::Feeding => if self.batch.len() > 0 {
                (
                    WriterState { batch: self.batch.drop_first(), ..self },
                    WriterStep::Feed(self.batch[0]),
                )
            } else {
                (self, WriterStep::Flush)
            },
        }
    }

    /// The state once messages were received; none mean that no more will come.
    pub open spec fn received(self, batch: Seq<M>) -> Self {
        WriterState {
            phase: if batch.len() == 0 {
                WriterPhase::Closed
            } else {
                WriterPhase::Feeding
            },
            batch,
            ..self
        }
    }

    /// The state once a message could not be written.
    pub open spec fn feed_failed(self) -> Self {
        WriterState {
            phase: match self.on_failure {
                FeedFailure::Flush => WriterPhase::Feeding,
                FeedFailure::Close => WriterPhase::Closed,
            },
            batch: seq![],
            ..self
        }
    }

    /// The state once what was written was sent out, or could not be.
    pub open spec fn flushed(self, ok: bool) -> Self {
        WriterState {
            phase: if ok {
                WriterPhase::Receiving
            } else {
                WriterPhase::Closed
            },
            batch: seq![],
            ..self
        }
    }

    /// The messages that are written until the next step that is no write, where no write
    /// fails, and the state that this leaves.
    pub open spec fn feeds(self) -> (Self, Seq<M>)
        decreases self.batch.len(),
    {
        match self.next() {
            (after, WriterStep::Feed(msg)) => if after.batch.len() < self.batch.len() {
                (after.feeds().0, seq![msg] + after.feeds().1)
            } else {
                (self, seq![])
            },
            _ => (self, seq![]),
        }
    }
}

proof fn lemma_feeds<M>(state: WriterState<M>)
    requires
        state.phase == WriterPhase::Feeding,
    ensures
        state.feeds().1 == state.batch,
        state.feeds().0 == (WriterState { batch: seq![], ..state }),
    decreases state.batch.len(),
{
    if state.batch.len() > 0 {
        lemma_feeds(state.next().0);
        assert(seq![state.batch[0]] + state.batch.drop_first() =~= state.batch);
    } else {
        assert(state.batch =~= seq![]);
    }
}

/// Where nothing fails, a writer writes every message of a batch in order, each once, then
/// sends them out, and then waits for the next batch.
pub proof fn law_writer_sends_the_batch<M>(state: WriterState<M>, batch: Seq<M>)
    requires
        batch.len() > 0,
    ensures
        ({
            let (after, written) = state.received(batch).feeds();
            &&& written == batch
            &&& after.next().1 == WriterStep::<M>::Flush
            &&& after.flushed(true).next().1 == WriterStep::<M>::Receive
        }),
{
    lemma_feeds(state.received(batch));
}

/// A message that cannot be written ends the batch: the writer either sends out what it has
/// written, or closes. What cannot be sent out closes it, and once closed it stays so.
pub proof fn law_writer_failure<M>(state: WriterState<M>)
    ensures
        state.feed_failed().next().1 == match state.on_failure {
            FeedFailure::Flush => WriterStep::<M>::Flush,
            FeedFailure::Close => WriterStep::<M>::Close,
        },
        state.flushed(false).next().1 == WriterStep::<M>::Close,
        state.phase == WriterPhase::Closed ==> state.next() == (state, WriterStep::<M>::Close),
{
}

/// Writes to one connection.
pub struct Writer<M> {
    phase: WriterPhase,
    batch: VecDeque<M>,
    on_failure: FeedFailure,
}

impl<M> View for Writer<M> {
    type V = WriterState<M>;

    closed spec fn view(&self) -> WriterState<M> {
        WriterState { phase: self.phase, batch: self.batch@, on_failure: self.on_failure }
    }
}

impl<M> Writer<M> {
    /// A writer that waits for messages.
    pub fn new(on_failure: FeedFailure) -> (r: Self)
        ensures
            r@ == (WriterState::<M> { phase: WriterPhase::Receiving, batch: seq![], on_failure }),
    {
        Writer { phase: WriterPhase::Receiving, batch: VecDeque::new(), on_failure }
    }

    /// A writer to a peer, which goes on after a message that cannot be written.
    pub fn to_peer() -> (r: Self)
        ensures
            r@ == (WriterState::<M> {
                phase: WriterPhase::Receiving,
                batch: seq![],
                on_failure: FeedFailure::Flush,
            }),
    {
        Writer::new(FeedFailure::Flush)
    }

    /// A writer to a client or, on a client's side, to a server, which ends with the first
    /// message that cannot be written.
    pub fn to_client() -> (r: Self)
        ensures
            r@ == (WriterState::<M> {
                phase: WriterPhase::Receiving,
                batch: seq![],
                on_failure: FeedFailure::Close,
            }),
    {
        Writer::new(FeedFailure::Close)
    }

    /// What to do next.
    pub fn next(&mut self) -> (r: WriterStep<M>)
        ensures
            (final(self)@, r) == old(self)@.next(),
    {
        match self.phase {
            WriterPhase::Receiving => WriterStep::Receive,
            WriterPhase::Closed => WriterStep::Close,
            WriterPhase::Feeding => match self.batch.pop_front() {
                Some(msg) => {
                    assert(self.batch@ =~= old(self)@.batch.drop_first());
                    WriterStep::Feed(msg)
                },
                None => WriterStep::Flush,
            },
        }
    }

    /// Takes up the messages that were received; none mean that no more will come.
    pub fn received(&mut self, batch: Vec<M>)
        ensures
            final(self)@ == old(self)@.received(batch@),
    {
        self.phase = if batch.len() == 0 {
            WriterPhase::Closed
        } else {
            WriterPhase::Feeding
        };
        self.batch = queue_of(batch);
    }

    /// A message could not be written.
    pub fn feed_failed(&mut self)
        ensures
            final(self)@ == old(self)@.feed_failed(),
    {
        self.phase = match self.on_failure {
            FeedFailure::Flush => WriterPhase::Feeding,
            FeedFailure::Close => WriterPhase::Closed,
        };
        self.batch = VecDeque::new();
    }

    /// What was written was sent out, or could not be.
    pub fn flushed(&mut self, ok: bool)
        ensures
            final(self)@ == old(self)@.flushed(ok),
    {
        self.phase = if ok {
            WriterPhase::Receiving
        } else {
            WriterPhase::Closed
        };
        self.batch = VecDeque::new();
    }
}

/// A reader hands on the first message that could be read, as one from its sender, and has then
/// looked at everything up to it; where nothing could be read, it has looked at everything and
/// waits.
pub proof fn law_reader_hands_on_the_first_message<M>(state: ReaderState<M>, i: int, msg: M)
    requires
        !state.ended,
        0 <= i <= state.pending.len(),
        forall|j: int| 0 <= j < i ==> (#[trigger] state.pending[j]) is None,
    ensures
        i < state.pending.len() && state.pending[i] == Some(msg) ==> state.next() == (
            ReaderState { pending: state.pending.skip(i + 1), ..state },
            ReaderStep::Forward(state.from, msg),
        ),
        i == state.pending.len() ==> state.next() == (
            ReaderState { pending: seq![], ..state },
            ReaderStep::<M>::NextChunk,
        ),
    decreases i,
{
    if i == 0 {
        assert(state.pending.skip(1) =~= state.pending.drop_first());
        if state.pending.len() == 0 {
            assert(state.pending =~= seq![]);
        }
    } else {
        let rest = ReaderState { pending: state.pending.drop_first(), ..state };
        assert(state.pending[0] is None);
        assert forall|j: int| 0 <= j < i - 1 implies (#[trigger] rest.pending[j]) is None by {
            assert(rest.pending[j] == state.pending[j + 1]);
        }
        law_reader_hands_on_the_first_message(rest, i - 1, msg);
        if i < state.pending.len() {
            assert(rest.pending[i - 1] == state.pending[i]);
            assert(rest.pending.skip(i) =~= state.pending.skip(i + 1));
        }
    }
}

/// One more message that could be read is one more, behind all others; what could not be read
/// adds nothing.
pub proof fn law_readable_messages_keep_their_order<M>(
    from: u64,
    pending: Seq<Option<M>>,
    msg: M,
)
    ensures
        readable(from, Seq::<Option<M>>::empty()) == Seq::<(u64, M)>::empty(),
        readable(from, pending.push(Some(msg))) == readable(from, pending).push((from, msg)),
        readable(from, pending.push(None)) == readable(from, pending),
    decreases pending.len(),
{
    if pending.len() == 0 {
        assert(pending.push(Some(msg)).drop_first() =~= pending);
        assert(pending.push(None).drop_first() =~= pending);
        assert(readable(from, pending) =~= seq![]);
        assert(readable(from, pending.push(Some(msg))) =~= readable(from, pending).push((from, msg)));
    } else {
        law_readable_messages_keep_their_order(from, pending.drop_first(), msg);
        assert(pending.push(Some(msg)).drop_first() =~= pending.drop_first().push(Some(msg)));
        assert(pending.push(None).drop_first() =~= pending.drop_first().push(None));
        assert(readable(from, pending.push(Some(msg))) =~= readable(from, pending).push((from, msg)));
    }
}

/// A reader that ended stays so and hands nothing on; one that goes on after a failure has nothing
/// left to look at, and is otherwise as it was.
pub proof fn law_reader_after_a_failure<M>(state: ReaderState<M>)
    ensures
        state.ended ==> state.next() == (state, ReaderStep::<M>::End),
        state.forward_failed().pending.len() == 0,
        state.forward_failed().from == state.from,
        state.forward_failed().on_failure == state.on_failure,
        state.forward_failed().ended == (state.ended || state.on_failure == ForwardFailure::End),
{
}

/// Messages that are received make the batch, and a batch of none ends the writer. While it
/// writes, a writer writes the first message that is left and is left with the others, and sends
/// out once none is left. What it does about failures never changes.
pub proof fn law_writer_works_through_its_batch<M>(state: WriterState<M>, batch: Seq<M>)
    ensures
        state.received(batch) == (WriterState {
            phase: if batch.len() == 0 {
                WriterPhase::Closed
            } else {
                WriterPhase::Feeding
            },
            batch,
            on_failure: state.on_failure,
        }),
        state.phase == WriterPhase::Feeding && state.batch.len() > 0 ==> {
            &&& state.next().1 == WriterStep::Feed(state.batch[0])
            &&& state.next().0.batch == state.batch.skip(1)
            &&& state.next().0.phase == WriterPhase::Feeding
        },
        state.phase == WriterPhase::Feeding && state.batch.len() == 0 ==> state.next() == (
            state,
            WriterStep::<M>::Flush,
        ),
        state.phase == WriterPhase::Receiving ==> state.next() == (state, WriterStep::<M>::Receive),
        state.next().0.on_failure == state.on_failure,
        state.feed_failed().on_failure == state.on_failure,
        state.feed_failed().batch.len() == 0,
        state.flushed(true).phase == WriterPhase::Receiving,
        state.flushed(false).phase == WriterPhase::Closed,
        state.flushed(true).on_failure == state.on_failure,
        state.flushed(true).batch.len() == 0,
        state.flushed(false).on_failure == state.on_failure,
        state.flushed(false).batch.len() == 0,
        state.on_failure == FeedFailure::Flush ==> state.feed_failed().phase
            == WriterPhase::Feeding,
        state.on_failure == FeedFailure::Close ==> state.feed_failed().phase
            == WriterPhase::Closed,
{
    if state.batch.len() > 0 {
        assert(state.batch.skip(1) =~= state.batch.drop_first());
    }
}

} // verus!
