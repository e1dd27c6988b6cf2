//! A writer that queues records and flushes them to a sink in order,
//! removing each record from the queue as soon as the sink has taken it,
//! so that no record the sink took is offered to it again, and a record it
//! refused stays first for the next flush.
use vstd::prelude::*;
use std::collections::VecDeque;

verus! {

/// Where records go. A sink keeps, in order, the records it took; a write
/// it refuses takes nothing.
pub trait Sink {
    type Error;

    /// The records the sink took, oldest first.
    spec fn written(&self) -> Seq<Seq<u8>>;

    /// Whether the sink, as it stands, refuses `record`.
    spec fn refuses(&self, record: Seq<u8>) -> bool;

    fn write(&mut self, record: &[u8]) -> (r: Result<(), Self::Error>)
        ensures
            r is Err <==> old(self).refuses(record@),
            r is Ok ==> final(self).written() == old(self).written().push(record@),
            r is Err ==> final(self).written() == old(self).written(),
    ;
}

/// Records waiting for a sink.
pub struct BatchWriter<S> {
    sink: S,
    queued: VecDeque<Vec<u8>>,
}

/// The bytes of each record.
pub open spec fn records(q: Seq<Vec<u8>>) -> Seq<Seq<u8>> {
    q.map_values(|r: Vec<u8>| r@)
}

/// `states` are the sink before each of the first `taken` records of `q`
/// was offered, and after: each of them was taken.
pub open spec fn offered<S: Sink>(states: Seq<S>, q: Seq<Seq<u8>>, taken: int) -> bool {
    &&& 0 <= taken <= q.len()
    &&& states.len() == taken + 1
    &&& forall|i: int|
        0 <= i < taken ==> !(#[trigger] states[i]).refuses(q[i]) && states[i + 1].written()
            == states[i].written().push(q[i])
}

impl<S: Sink> BatchWriter<S> {
    /// The records waiting, oldest first.
    pub closed spec fn queue(self) -> Seq<Seq<u8>> {
        records(self.queued@)
    }

    /// The sink the records go to.
    pub closed spec fn sink_of(self) -> S {
        self.sink
    }

    pub fn new(sink: S) -> (r: Self)
        ensures
            r.queue() == Seq::<Seq<u8>>::empty(),
            r.sink_of() == sink,
    {
        let r = BatchWriter { sink, queued: VecDeque::new() };
        assert(r.queue() =~= Seq::<Seq<u8>>::empty());
        r
    }

    /// Queues `record` behind the others.
    pub fn submit(&mut self, record: Vec<u8>)
        ensures
            final(self).queue() == old(self).queue().push(record@),
            final(self).sink_of() == old(self).sink_of(),
    {
        self.queued.push_back(record);
        assert(self.queue() =~= old(self).queue().push(record@));
    }

    /// How many records wait.
    pub fn pending(&self) -> (r: usize)
        ensures
            r == self.queue().len(),
    {
        self.queued.len()
    }

    pub fn sink(&self) -> (r: &S)
        ensures
            *r == self.sink_of(),
    {
        &self.sink
    }

    /// Hands the records to the sink, oldest first, dropping each from the
    /// queue once the sink took it. At the first refusal the flush stops
    /// with the sink's error, and the refused record is still the first
    /// one waiting: `states` are the sink before each record it was
    /// offered, each record before the `taken`-th was taken, and the flush
    /// fails exactly when the sink refused that one.
    pub fn flush(&mut self) -> (r: Result<(), S::Error>)
        ensures
            exists|taken: int, states: Seq<S>|
                #[trigger] offered(states, old(self).queue(), taken) && states[0] == old(self).sink_of()
                    && final(self).sink_of().written() == old(self).sink_of().written() + old(self).queue().subrange(
                    0,
                    taken,
                ) && final(self).queue() == old(self).queue().subrange(taken, old(self).queue().len() as int)
                    && (r is Ok <==> taken == old(self).queue().len()) && (r is Err ==> states[taken].refuses(
                    old(self).queue()[taken],
                )),
    {
        let ghost start = self.queue();
        let ghost took = self.sink.written();
        let ghost mut states: Seq<S> = seq![self.sink];
        while self.queued.len() > 0
            invariant
                start == old(self).queue(),
                took == old(self).sink_of().written(),
                self.queue().len() <= start.len(),
                self.queue() == start.subrange(start.len() - self.queue().len(), start.len() as int),
                self.sink.written() == took + start.subrange(0, start.len() - self.queue().len()),
                offered(states, start, start.len() - self.queue().len()),
                states[0] == old(self).sink_of(),
                states.last() == self.sink,
            decreases self.queued@.len(),
        {
            let ghost taken = start.len() - self.queue().len();
            assert(self.queue()[0] == self.queued@[0]@);
            assert(self.queue()[0] == start[taken]);
            let ghost before_sink = self.sink;
            let written = self.sink.write(self.queued[0].as_slice());
            match written {
                Ok(()) => {
                    let ghost before = self.queue();
                    let _ = self.queued.pop_front();
                    proof {
                        states = states.push(self.sink);
                    }
                    assert(self.queue() =~= before.subrange(1, before.len() as int));
                    assert(self.queue() =~= start.subrange(start.len() - self.queue().len(), start.len() as int));
                    assert(start.subrange(0, taken + 1) =~= start.subrange(0, taken).push(start[taken]));
                    assert(self.sink.written() =~= took + start.subrange(0, start.len() - self.queue().len()));
                    assert(states[taken] == before_sink);
                },
                Err(error) => {
                    assert(self.queue() == start.subrange(taken, start.len() as int));
                    assert(0 <= taken < start.len());
                    assert(self.sink.written() == took + start.subrange(0, taken));
                    assert(states[taken] == before_sink);
                    assert(states[taken].refuses(start[taken]));
                    assert(offered(states, start, taken));
                    return Err(error);
                },
            }
        }
        assert(self.queue() =~= Seq::<Seq<u8>>::empty());
        assert(start.subrange(0, start.len() as int) =~= start);
        assert(offered(states, start, start.len() as int));
        Ok(())
    }
}

/// Why a sink refused a record.
#[derive(Debug, PartialEq, Eq, Structural)]
pub enum SinkError {
    Rejected,
}

/// A sink that keeps the records it takes in memory; it can be told to
/// refuse the next write.
pub struct MemorySink {
    committed: Vec<Vec<u8>>,
    reject_next: bool,
}

impl MemorySink {
    /// A sink that took nothing yet, refusing its first write when
    /// `reject_next`.
    pub fn new(reject_next: bool) -> (r: Self)
        ensures
            r.written() == Seq::<Seq<u8>>::empty(),
            r.rejects_next() == reject_next,
    {
        let r = MemorySink { committed: Vec::new(), reject_next };
        assert(records(r.committed@) =~= Seq::<Seq<u8>>::empty());
        r
    }

    pub closed spec fn rejects_next(&self) -> bool {
        self.reject_next
    }

    /// The records taken, oldest first.
    pub fn committed(&self) -> (r: &Vec<Vec<u8>>)
        ensures
            records(r@) == self.written(),
    {
        &self.committed
    }
}

/// The bytes of `record`, copied.
fn copy_record(record: &[u8]) -> (r: Vec<u8>)
    ensures
        r@ == record@,
{
    let mut r: Vec<u8> = Vec::new();
    let mut i: usize = 0;
    while i < record.len()
        invariant
            i <= record.len(),
            r@ == record@.subrange(0, i as int),
        decreases record.len() - i,
    {
        r.push(record[i]);
        i += 1;
        assert(r@ =~= record@.subrange(0, i as int));
    }
    r
}

impl Sink for MemorySink {
    type Error = SinkError;

    closed spec fn written(&self) -> Seq<Seq<u8>> {
        records(self.committed@)
    }

    /// It refuses whatever comes while it is told to refuse the next write.
    open spec fn refuses(&self, record: Seq<u8>) -> bool {
        self.rejects_next()
    }

    /// Refuses the record when told to, once; takes it otherwise.
    fn write(&mut self, record: &[u8]) -> (r: Result<(), SinkError>)
        ensures
            r is Err <==> old(self).rejects_next(),
            !final(self).rejects_next(),
    {
        if self.reject_next {
            self.reject_next = false;
            return Err(SinkError::Rejected);
        }
        let copy = copy_record(record);
        let ghost before = self.written();
        self.committed.push(copy);
        assert(self.written() =~= before.push(record@));
        Ok(())
    }
}

} // verus!
