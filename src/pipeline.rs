use vstd::prelude::*;
use crate::error::Error;

verus! {

/// Size of the contiguous chunks that a population of `count` walkers is
/// split into for `workers` workers: the count divided by the workers,
/// rounded up, and never less than one.
pub fn chunk_size(count: usize, workers: usize) -> (r: usize)
    requires
        workers > 0,
    ensures
        r == if count == 0 {
            1
        } else {
            (count - 1) as int / workers as int + 1
        },
        r >= 1,
        r * workers >= count,
        count > 0 ==> (r - 1) * workers < count,
{
    if count == 0 {
        1
    } else {
        let r = (count - 1) / workers + 1;
        proof {
            let q = (count - 1) / workers as int;
            vstd::arithmetic::div_mod::lemma_fundamental_div_mod(count - 1, workers as int);
            assert(r * workers >= count && (r - 1) * workers < count) by (nonlinear_arith)
                requires
                    count - 1 == workers * q + (count - 1) % (workers as int),
                    0 <= (count - 1) % (workers as int) < workers,
                    r == q + 1,
            ;
        }
        r
    }
}

/// Collects one worker's samples into batches of a fixed size, in the
/// order they were generated.
pub struct Batcher<T> {
    items: Vec<T>,
    capacity: usize,
}

impl<T> View for Batcher<T> {
    type V = Seq<T>;

    closed spec fn view(&self) -> Seq<T> {
        self.items@
    }
}

impl<T> Batcher<T> {
    pub closed spec fn capacity_spec(&self) -> usize {
        self.capacity
    }

    /// Fewer items wait than make a batch.
    pub open spec fn wf(&self) -> bool {
        self@.len() < self.capacity_spec()
    }

    pub fn new(capacity: usize) -> (r: Batcher<T>)
        requires
            capacity > 0,
        ensures
            r.wf(),
            r@ == Seq::<T>::empty(),
            r.capacity_spec() == capacity,
    {
        Batcher { items: Vec::new(), capacity }
    }

    /// Adds a sample. When it completes a batch, the batch is handed back and
    /// the batcher starts empty; no sample is lost or reordered.
    pub fn push(&mut self, item: T) -> (r: Option<Vec<T>>)
        requires
            old(self).wf(),
        ensures
            final(self).wf(),
            final(self).capacity_spec() == old(self).capacity_spec(),
            old(self)@.len() + 1 == old(self).capacity_spec() ==> r is Some && r.unwrap()@
                == old(self)@.push(item) && final(self)@ == Seq::<T>::empty(),
            old(self)@.len() + 1 < old(self).capacity_spec() ==> r is None && final(self)@ == old(self)@.push(item),
    {
        self.items.push(item);
        if self.items.len() == self.capacity {
            let mut batch: Vec<T> = Vec::new();
            std::mem::swap(&mut batch, &mut self.items);
            Some(batch)
        } else {
            None
        }
    }

    /// The samples still waiting, as a last, possibly short, batch.
    pub fn finish(self) -> (r: Vec<T>)
        ensures
            r@ == self@,
    {
        self.items
    }
}

/// The writer's count of workers that have signalled completion.
pub struct Completion {
    workers: usize,
    finished: usize,
}

impl Completion {
    pub closed spec fn workers_spec(&self) -> usize {
        self.workers
    }

    pub closed spec fn finished_spec(&self) -> usize {
        self.finished
    }

    pub fn new(workers: usize) -> (r: Completion)
        ensures
            r.workers_spec() == workers,
            r.finished_spec() == 0,
    {
        Completion { workers, finished: 0 }
    }

    /// Records one worker's terminal marker. A marker beyond the number of
    /// workers breaks the pipeline's invariant and is an error.
    pub fn worker_finished(&mut self) -> (r: Result<(), Error>)
        ensures
            final(self).workers_spec() == old(self).workers_spec(),
            old(self).finished_spec() < old(self).workers_spec() ==> r is Ok && final(self).finished_spec() == old(self).finished_spec() + 1,
            old(self).finished_spec() >= old(self).workers_spec() ==> r == Err::<(), Error>(
                Error { description: "More completion signals than workers" },
            ) && final(self).finished_spec() == old(self).finished_spec(),
    {
        if self.finished < self.workers {
            self.finished = self.finished + 1;
            Ok(())
        } else {
            Err(Error::new("More completion signals than workers"))
        }
    }

    /// Whether every worker has finished.
    pub fn is_done(&self) -> (r: bool)
        ensures
            r == (self.finished_spec() >= self.workers_spec()),
    {
        self.finished >= self.workers
    }

    /// The verdict when the queue closes: complete only if every worker
    /// signalled completion first; otherwise a worker was lost, which is fatal.
    pub fn on_closed(&self) -> (r: Result<(), Error>)
        ensures
            self.finished_spec() >= self.workers_spec() ==> r is Ok,
            self.finished_spec() < self.workers_spec() ==> r == Err::<(), Error>(
                Error { description: "A worker stopped before finishing" },
            ),
    {
        if self.finished >= self.workers {
            Ok(())
        } else {
            Err(Error::new("A worker stopped before finishing"))
        }
    }
}

} // verus!
