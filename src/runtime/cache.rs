//! An ordered cache with reader/writer access, as the state a read/write lock guards.
use crate::runtime::registry::LockPoisoned;
use vstd::prelude::*;

verus! {

/// Whether `a` is a prefix of `b`.
pub open spec fn is_prefix<T>(a: Seq<T>, b: Seq<T>) -> bool {
    a.len() <= b.len() && b.subrange(0, a.len() as int) == a
}

/// The state that a read/write lock guards: an ordered sequence of values,
/// with the count of readers inside and whether a writer is inside.
/// Readers only ever see a state that a writer committed by leaving.
pub struct ReadWriteCache<T> {
    data: Vec<T>,
    readers: u64,
    writing: bool,
    poisoned: bool,
    committed: Ghost<Seq<Seq<T>>>,
}

impl<T> ReadWriteCache<T> {
    /// Every state that a writer has committed, the initial one first.
    pub closed spec fn history(&self) -> Seq<Seq<T>> {
        self.committed@
    }

    /// The values as they stand, possibly in the middle of a write.
    pub closed spec fn contents(&self) -> Seq<T> {
        self.data@
    }

    /// The number of readers holding read access.
    pub closed spec fn reader_count(&self) -> nat {
        self.readers as nat
    }

    /// Whether a writer holds write access.
    pub closed spec fn writer_inside(&self) -> bool {
        self.writing
    }

    pub closed spec fn poisoned(&self) -> bool {
        self.poisoned
    }

    /// Readers and a writer never hold access together, nobody is inside a
    /// poisoned cache, and while no writer is inside a healthy cache the
    /// values are the last committed state. Writers only append, so each
    /// committed state extends the one before it.
    pub closed spec fn wf(&self) -> bool {
        &&& self.committed@.len() > 0
        &&& self.readers > 0 ==> !self.writing && !self.poisoned
        &&& self.writing ==> !self.poisoned
        &&& !self.writing && !self.poisoned ==> self.data@ == self.committed@.last()
        &&& !self.poisoned ==> is_prefix(self.committed@.last(), self.data@)
        &&& forall|i: int|
            0 <= i < self.committed@.len() - 1 ==> is_prefix(
                #[trigger] self.committed@[i],
                self.committed@[i + 1],
            )
    }

    /// A cache holding `initial`, with nobody inside.
    pub fn new(initial: Vec<T>) -> (r: ReadWriteCache<T>)
        ensures
            r.wf(),
            r.history() == seq![initial@],
            r.contents() == initial@,
            r.reader_count() == 0,
            !r.writer_inside(),
            !r.poisoned(),
    {
        let committed: Ghost<Seq<Seq<T>>> = Ghost(Seq::<Seq<T>>::empty().push(initial@));
        assert(initial@.subrange(0, initial@.len() as int) =~= initial@);
        ReadWriteCache {
            data: initial,
            readers: 0,
            writing: false,
            poisoned: false,
            committed,
        }
    }

    /// Asks for shared access. It is granted (`Ok(true)`) exactly when no
    /// writer is inside (and the reader count has room); `Ok(false)` tells the
    /// caller to wait.
    pub fn try_read(&mut self) -> (r: Result<bool, LockPoisoned>)
        requires
            old(self).wf(),
        ensures
            final(self).wf(),
            r is Err <==> old(self).poisoned(),
            r == Ok::<bool, LockPoisoned>(true) <==> !old(self).poisoned() && !old(self).writer_inside()
                && old(self).reader_count() < u64::MAX,
            r == Ok::<bool, LockPoisoned>(true) ==> final(self).reader_count() == old(self).reader_count() + 1,
            r != Ok::<bool, LockPoisoned>(true) ==> final(self).reader_count() == old(self).reader_count(),
            final(self).writer_inside() == old(self).writer_inside(),
            final(self).history() == old(self).history(),
            final(self).contents() == old(self).contents(),
            final(self).poisoned() == old(self).poisoned(),
    {
        if self.poisoned {
            return Err(LockPoisoned);
        }
        if self.writing || self.readers == u64::MAX {
            return Ok(false);
        }
        self.readers = self.readers + 1;
        Ok(true)
    }

    /// Gives shared access back.
    pub fn end_read(&mut self)
        requires
            old(self).wf(),
            old(self).reader_count() > 0,
        ensures
            final(self).wf(),
            final(self).reader_count() == old(self).reader_count() - 1,
            final(self).writer_inside() == old(self).writer_inside(),
            final(self).history() == old(self).history(),
            final(self).contents() == old(self).contents(),
            final(self).poisoned() == old(self).poisoned(),
    {
        self.readers = self.readers - 1;
    }

    /// The values a reader sees: always a state that a writer committed,
    /// namely the latest one.
    pub fn read(&self) -> (r: &Vec<T>)
        requires
            self.wf(),
            self.reader_count() > 0,
        ensures
            r@ == self.history().last(),
    {
        &self.data
    }

    /// Asks for exclusive access. It is granted (`Ok(true)`) exactly when
    /// nobody is inside; `Ok(false)` tells the caller to wait.
    pub fn try_write(&mut self) -> (r: Result<bool, LockPoisoned>)
        requires
            old(self).wf(),
        ensures
            final(self).wf(),
            r is Err <==> old(self).poisoned(),
            r == Ok::<bool, LockPoisoned>(true) <==> !old(self).poisoned() && !old(self).writer_inside()
                && old(self).reader_count() == 0,
            final(self).writer_inside() == (old(self).writer_inside() || r == Ok::<bool, LockPoisoned>(true)),
            final(self).reader_count() == old(self).reader_count(),
            final(self).history() == old(self).history(),
            final(self).contents() == old(self).contents(),
            final(self).poisoned() == old(self).poisoned(),
    {
        if self.poisoned {
            return Err(LockPoisoned);
        }
        if self.writing || self.readers > 0 {
            return Ok(false);
        }
        self.writing = true;
        Ok(true)
    }

    /// Appends `value`; only the writer inside may do so.
    pub fn push(&mut self, value: T)
        requires
            old(self).wf(),
            old(self).writer_inside(),
        ensures
            final(self).wf(),
            final(self).contents() == old(self).contents().push(value),
            final(self).writer_inside(),
            final(self).reader_count() == old(self).reader_count(),
            final(self).history() == old(self).history(),
            final(self).poisoned() == old(self).poisoned(),
    {
        self.data.push(value);
        proof {
            let last = self.committed@.last();
            assert(self.data@.subrange(0, last.len() as int) =~= old(self).data@.subrange(
                0,
                last.len() as int,
            ));
        }
    }

    /// The writer leaves: what it wrote becomes the latest committed state.
    pub fn end_write(&mut self)
        requires
            old(self).wf(),
            old(self).writer_inside(),
        ensures
            final(self).wf(),
            !final(self).writer_inside(),
            final(self).history() == old(self).history().push(old(self).contents()),
            final(self).contents() == old(self).contents(),
            final(self).reader_count() == old(self).reader_count(),
            final(self).poisoned() == old(self).poisoned(),
    {
        self.writing = false;
        let committed: Ghost<Seq<Seq<T>>> = Ghost(self.committed@.push(self.data@));
        self.committed = committed;
        proof {
            assert(self.data@.subrange(0, self.data@.len() as int) =~= self.data@);
            assert forall|i: int| 0 <= i < self.committed@.len() - 1 implies is_prefix(
                #[trigger] self.committed@[i],
                self.committed@[i + 1],
            ) by {
                if i < old(self).committed@.len() - 1 {
                    assert(self.committed@[i] == old(self).committed@[i]);
                    assert(self.committed@[i + 1] == old(self).committed@[i + 1]);
                }
            }
        }
    }

    /// The writer failed while inside: its partial work is never committed,
    /// and the cache reports `LockPoisoned` from now on.
    pub fn abandon_write(&mut self)
        requires
            old(self).wf(),
            old(self).writer_inside(),
        ensures
            final(self).wf(),
            final(self).poisoned(),
            !final(self).writer_inside(),
            final(self).history() == old(self).history(),
            final(self).reader_count() == old(self).reader_count(),
    {
        self.writing = false;
        self.poisoned = true;
    }
}

/// A reader never sees a write in progress: while a reader is inside, the
/// values are the latest committed state, and the committed states only
/// grow, each one extending every earlier one.
pub proof fn lemma_reads_are_committed<T>(c: ReadWriteCache<T>, i: int, j: int)
    requires
        c.wf(),
        0 <= i <= j < c.history().len(),
    ensures
        c.reader_count() > 0 ==> !c.writer_inside() && c.contents() == c.history().last(),
        is_prefix(c.history()[i], c.history()[j]),
        c.history()[i].len() <= c.history()[j].len(),
    decreases j - i,
{
    if i < j {
        lemma_reads_are_committed(c, i, j - 1);
        let a = c.history()[i];
        let b = c.history()[j - 1];
        let d = c.history()[j];
        assert(is_prefix(b, d));
        assert(d.subrange(0, a.len() as int) =~= d.subrange(0, b.len() as int).subrange(
            0,
            a.len() as int,
        ));
    } else {
        assert(c.history()[i].subrange(0, c.history()[i].len() as int) =~= c.history()[i]);
    }
}

} // verus!
