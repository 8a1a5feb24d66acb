use vstd::prelude::*;

verus! {

/// The shared counter that hands out tile indices `0, 1, …, total − 1`,
/// each one once, in raster order.
#[derive(Debug)]
pub struct TileCursor {
    next: u64,
    total: u64,
}

impl TileCursor {
    /// The index the next claim hands out, or `total` once all are out.
    pub closed spec fn next_spec(self) -> u64 {
        self.next
    }

    pub closed spec fn total_spec(self) -> u64 {
        self.total
    }

    pub open spec fn wf(self) -> bool {
        self.next_spec() <= self.total_spec()
    }

    /// A cursor over `total` tiles, none claimed yet.
    pub fn new(total: u64) -> (r: TileCursor)
        ensures
            r.wf(),
            r.next_spec() == 0,
            r.total_spec() == total,
    {
        TileCursor { next: 0, total }
    }

    /// Claims the next unclaimed tile: `Some(i)` with `i` one more than the
    /// last index handed out, or `None` once every tile has been claimed.
    pub fn claim(&mut self) -> (r: Option<u64>)
        requires
            old(self).wf(),
        ensures
            final(self).wf(),
            final(self).total_spec() == old(self).total_spec(),
            old(self).next_spec() < old(self).total_spec() ==> r == Some(old(self).next_spec())
                && final(self).next_spec() == old(self).next_spec() + 1,
            old(self).next_spec() == old(self).total_spec() ==> r is None && final(self).next_spec()
                == old(self).next_spec(),
    {
        if self.next < self.total {
            let i = self.next;
            self.next = i + 1;
            Some(i)
        } else {
            None
        }
    }

    /// Number of tiles claimed so far.
    pub fn claimed(&self) -> (r: u64)
        ensures
            r == self.next_spec(),
    {
        self.next
    }

    pub fn total(&self) -> (r: u64)
        ensures
            r == self.total_spec(),
    {
        self.total
    }
}

} // verus!
