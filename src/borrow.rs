use vstd::prelude::*;

verus! {

/// The dynamic borrow state of a shared mutable cell: any number of readers,
/// or a single writer.
#[derive(Clone, Copy, Debug, PartialEq, Eq, Structural)]
pub struct BorrowFlag {
    pub readers: u64,
    pub writing: bool,
}

impl BorrowFlag {
    /// A writer excludes every reader.
    pub open spec fn wf(self) -> bool {
        self.writing ==> self.readers == 0
    }

    /// A read borrow may be taken: no writer, and the reader count has room.
    pub open spec fn readable(self) -> bool {
        !self.writing && self.readers < u64::MAX
    }

    /// A write borrow may be taken: nobody holds any borrow.
    pub open spec fn writable(self) -> bool {
        !self.writing && self.readers == 0
    }

    /// The state after a borrow of the given kind was granted.
    pub open spec fn acquired(self, write: bool) -> BorrowFlag {
        if write {
            BorrowFlag { readers: self.readers, writing: true }
        } else {
            BorrowFlag { readers: (self.readers + 1) as u64, writing: self.writing }
        }
    }

    /// The state after a borrow of the given kind was given back.
    pub open spec fn released(self, write: bool) -> BorrowFlag {
        if write {
            BorrowFlag { readers: self.readers, writing: false }
        } else if self.readers > 0 {
            BorrowFlag { readers: (self.readers - 1) as u64, writing: self.writing }
        } else {
            self
        }
    }

    /// A cell that nobody borrows.
    pub fn new() -> (r: BorrowFlag)
        ensures
            r.readers == 0,
            !r.writing,
    {
        BorrowFlag { readers: 0, writing: false }
    }

    pub fn can_read(&self) -> (r: bool)
        ensures
            r == self.readable(),
    {
        !self.writing && self.readers < u64::MAX
    }

    pub fn can_write(&self) -> (r: bool)
        ensures
            r == self.writable(),
    {
        !self.writing && self.readers == 0
    }

    /// Records a granted borrow; the caller has checked that it may be taken.
    pub fn acquire(&mut self, write: bool)
        requires
            if write { old(self).writable() } else { old(self).readable() },
        ensures
            *final(self) == old(self).acquired(write),
    {
        if write {
            self.writing = true;
        } else {
            self.readers = self.readers + 1;
        }
    }

    /// Gives back a borrow of the given kind.
    pub fn release(&mut self, write: bool)
        ensures
            *final(self) == old(self).released(write),
    {
        if write {
            self.writing = false;
        } else if self.readers > 0 {
            self.readers = self.readers - 1;
        }
    }
}

} // verus!
