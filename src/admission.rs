use vstd::prelude::*;

verus! {

/// What the submission loop does next.
#[derive(Clone, Copy, Debug, PartialEq, Eq, Structural)]
pub enum Admit {
    /// Start a worker on this tile.
    Spawn(u64),
    /// Too many workers are running: wait for one to finish.
    Wait,
    /// Every tile has been handed out.
    Done,
}

/// Bounded admission of tile workers: tiles are handed out in order, and no
/// more than `thread_limit` of them are outstanding at any time.
#[derive(Debug)]
pub struct Admission {
    thread_limit: u32,
    tile_count: u64,
    next_tile: u64,
    outstanding: u32,
}

impl Admission {
    pub closed spec fn limit(&self) -> int {
        self.thread_limit as int
    }

    pub closed spec fn total(&self) -> int {
        self.tile_count as int
    }

    /// Tiles handed out so far; they are `0 .. submitted()`.
    pub closed spec fn submitted(&self) -> int {
        self.next_tile as int
    }

    /// Workers started and not yet finished.
    pub closed spec fn running(&self) -> int {
        self.outstanding as int
    }

    pub open spec fn wf(&self) -> bool {
        &&& 0 <= self.running() <= self.limit()
        &&& 0 <= self.submitted() <= self.total()
        &&& self.running() <= self.submitted()
    }

    pub fn new(thread_limit: u32, tile_count: u64) -> (r: Admission)
        ensures
            r.wf(),
            r.limit() == thread_limit,
            r.total() == tile_count,
            r.submitted() == 0,
            r.running() == 0,
    {
        Admission { thread_limit, tile_count, next_tile: 0, outstanding: 0 }
    }

    pub fn outstanding(&self) -> (r: u32)
        ensures
            r == self.running(),
    {
        self.outstanding
    }

    /// Decides the next move of the submission loop. A tile is handed out,
    /// and counted as outstanding before its worker starts, exactly when one
    /// is left and fewer than `thread_limit` workers are running.
    pub fn next(&mut self) -> (a: Admit)
        requires
            old(self).wf(),
        ensures
            final(self).wf(),
            final(self).limit() == old(self).limit(),
            final(self).total() == old(self).total(),
            old(self).submitted() == old(self).total() ==> a == Admit::Done && *final(self) == *old(self),
            old(self).submitted() < old(self).total() && old(self).running() >= old(self).limit()
                ==> a == Admit::Wait && *final(self) == *old(self),
            old(self).submitted() < old(self).total() && old(self).running() < old(self).limit() ==> {
                &&& a == Admit::Spawn(old(self).submitted() as u64)
                &&& final(self).submitted() == old(self).submitted() + 1
                &&& final(self).running() == old(self).running() + 1
            },
    {
        if self.next_tile == self.tile_count {
            Admit::Done
        } else if self.outstanding >= self.thread_limit {
            Admit::Wait
        } else {
            let t = self.next_tile;
            self.next_tile = self.next_tile + 1;
            self.outstanding = self.outstanding + 1;
            Admit::Spawn(t)
        }
    }

    /// Records that a worker has finished its tile.
    pub fn finish(&mut self)
        requires
            old(self).wf(),
            old(self).running() > 0,
        ensures
            final(self).wf(),
            final(self).limit() == old(self).limit(),
            final(self).total() == old(self).total(),
            final(self).submitted() == old(self).submitted(),
            final(self).running() == old(self).running() - 1,
    {
        self.outstanding = self.outstanding - 1;
    }
}

} // verus!
