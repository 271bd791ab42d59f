//! The log hub: a bounded broadcast buffer with drop-oldest semantics.
//!
//! Producers publish tagged lines into one ordered buffer; subscribers each
//! hold a cursor and read at their own pace.  A subscriber attached late
//! sees only lines published after it attached, and one that fell behind
//! the buffer's capacity is told how many lines it missed instead of
//! silently skipping them.  The asynchronous plumbing (waking subscribers,
//! the keep-alive interval of the push stream) lives with the caller.

use vstd::prelude::*;

verus! {

/// The ordered broadcast buffer.  The ghost `history` holds every line ever
/// published; the buffer keeps the most recent `capacity` of them.
pub struct LogHub {
    capacity: usize,
    entries: Vec<String>,
    next_seq: u64,
    history: Ghost<Seq<Seq<char>>>,
}

/// One subscriber's read position.
pub struct LogCursor {
    next_seq: u64,
}

/// What a subscriber gets for one read.
#[derive(Debug)]
pub enum LogRecv {
    /// The next line.
    Line(String),
    /// The subscriber fell behind and this many lines were dropped for it;
    /// its cursor now points at the oldest retained line.
    Lagged(u64),
    /// Nothing new has been published yet.
    Pending,
}

impl LogCursor {
    /// The sequence number of the next line this cursor reads.
    pub closed spec fn spec_pos(self) -> u64 {
        self.next_seq
    }
}

impl LogHub {
    /// Every line ever published, in publication order.
    pub closed spec fn spec_history(self) -> Seq<Seq<char>> {
        self.history@
    }

    /// The bound on retained lines.
    pub closed spec fn spec_capacity(self) -> usize {
        self.capacity
    }

    /// The sequence number of the next line to publish.
    pub closed spec fn spec_next_seq(self) -> u64 {
        self.next_seq
    }

    /// Internal invariant: the buffer holds the most recent published lines,
    /// at most `capacity` of them, and sequence numbers line up with the
    /// history.
    pub closed spec fn wf(self) -> bool {
        &&& self.capacity >= 1
        &&& self.next_seq == self.history@.len()
        &&& self.entries@.len() <= self.capacity
        &&& self.entries@.len() <= self.next_seq
        &&& forall|i: int|
            0 <= i < self.entries@.len() ==> (#[trigger] self.entries@[i]@) == self.history@[
                self.next_seq - self.entries@.len() + i
            ]
    }

    /// An empty hub with the given bound.
    pub fn new(capacity: usize) -> (r: LogHub)
        requires
            capacity >= 1,
        ensures
            r.wf(),
            r.spec_capacity() == capacity,
            r.spec_history() == Seq::<Seq<char>>::empty(),
            r.spec_next_seq() == 0,
    {
        LogHub { capacity, entries: Vec::new(), next_seq: 0, history: Ghost(Seq::empty()) }
    }

    /// Publish one line: it is appended to the history, and the oldest
    /// retained line is dropped if the buffer is full.
    pub fn publish(&mut self, line: String)
        requires
            old(self).wf(),
            old(self).spec_next_seq() < u64::MAX,
        ensures
            final(self).wf(),
            final(self).spec_capacity() == old(self).spec_capacity(),
            final(self).spec_history() == old(self).spec_history().push(line@),
            final(self).spec_next_seq() == old(self).spec_next_seq() + 1,
            final(self).spec_retained() == if old(self).spec_retained() < old(
                self,
            ).spec_capacity() as int {
                old(self).spec_retained() + 1
            } else {
                old(self).spec_capacity() as int
            },
    {
        if self.entries.len() == self.capacity {
            self.entries.remove(0);
        }
        let ghost line_view = line@;
        self.entries.push(line);
        self.next_seq = self.next_seq + 1;
        proof {
            self.history@ = self.history@.push(line_view);
        }
    }

    /// The sequence number of the next line to publish.
    pub fn next_sequence(&self) -> (r: u64)
        ensures
            r == self.spec_next_seq(),
    {
        self.next_seq
    }

    /// Attach a new subscriber: it will see only lines published from now
    /// on, never a backlog.
    pub fn subscribe(&self) -> (c: LogCursor)
        ensures
            c.spec_pos() == self.spec_next_seq(),
    {
        LogCursor { next_seq: self.next_seq }
    }

    /// One read for a subscriber.  In order: nothing new yet; or the
    /// subscriber lagged out of the buffer and is told how many lines it
    /// missed; or the next line, in publication order.
    pub fn recv(&self, cursor: &mut LogCursor) -> (r: LogRecv)
        requires
            self.wf(),
        ensures
            ({
                let oldest = self.spec_next_seq() - self.spec_retained();
                if old(cursor).spec_pos() >= self.spec_next_seq() {
                    r is Pending && final(cursor).spec_pos() == old(cursor).spec_pos()
                } else if (old(cursor).spec_pos() as int) < oldest {
                    (r matches LogRecv::Lagged(n) && n == oldest - old(cursor).spec_pos())
                        && final(cursor).spec_pos() as int == oldest
                } else {
                    (r matches LogRecv::Line(l) && l@ == self.spec_history()[
                        old(cursor).spec_pos() as int
                    ]) && final(cursor).spec_pos() == old(cursor).spec_pos() + 1
                }
            }),
    {
        let retained = self.entries.len() as u64;
        let oldest = self.next_seq - retained;
        if cursor.next_seq >= self.next_seq {
            LogRecv::Pending
        } else if cursor.next_seq < oldest {
            let missed = oldest - cursor.next_seq;
            cursor.next_seq = oldest;
            LogRecv::Lagged(missed)
        } else {
            let idx = (cursor.next_seq - oldest) as usize;
            let line = self.entries[idx].clone();
            cursor.next_seq = cursor.next_seq + 1;
            LogRecv::Line(line)
        }
    }

    /// How many lines the buffer currently retains.
    pub closed spec fn spec_retained(self) -> int {
        self.entries@.len() as int
    }
}

} // verus!
