//! What the scheduler keeps of an address space: the token that activates
//! it and the regions that are mapped in it.

use vstd::prelude::*;

verus! {

/// Mapped pages may be read.
pub const MAP_R: u8 = 1 << 1;

/// Mapped pages may be written.
pub const MAP_W: u8 = 1 << 2;

/// Mapped pages may be executed.
pub const MAP_X: u8 = 1 << 3;

/// Mapped pages are accessible in user mode.
pub const MAP_U: u8 = 1 << 4;

/// A mapped region, from `start` up to `end`, with its permissions.
#[derive(Clone, Copy, Debug, PartialEq, Eq, Structural)]
pub struct MapArea {
    pub start: usize,
    pub end: usize,
    pub perm: u8,
}

/// An address space.
#[derive(Debug)]
pub struct MemorySet {
    /// The value that activates this address space.
    pub token: usize,
    /// The mapped regions, in the order in which they were mapped.
    pub areas: Vec<MapArea>,
}

/// The position of the first region of `areas` that begins at `start`, or
/// the length of `areas` if there is none.
pub open spec fn first_starting_at(areas: Seq<MapArea>, start: usize) -> int
    decreases areas.len(),
{
    if areas.len() == 0 {
        0
    } else if areas[0].start == start {
        0
    } else {
        1 + first_starting_at(areas.subrange(1, areas.len() as int), start)
    }
}

/// `areas` without the first region that begins at `start`.
pub open spec fn without_area(areas: Seq<MapArea>, start: usize) -> Seq<MapArea> {
    let at = first_starting_at(areas, start);
    if at < areas.len() {
        areas.remove(at)
    } else {
        areas
    }
}

/// Where the first region that begins at `start` lies: before it no region
/// begins at `start`.
pub proof fn lemma_first_starting_at(areas: Seq<MapArea>, start: usize)
    ensures
        0 <= first_starting_at(areas, start) <= areas.len(),
        first_starting_at(areas, start) < areas.len() ==> areas[first_starting_at(
            areas,
            start,
        )].start == start,
        forall|i: int| 0 <= i < first_starting_at(areas, start) ==> (#[trigger] areas[i]).start != start,
    decreases areas.len(),
{
    if areas.len() > 0 && areas[0].start != start {
        let rest = areas.subrange(1, areas.len() as int);
        lemma_first_starting_at(rest, start);
        assert forall|i: int| 0 <= i < first_starting_at(areas, start) implies (#[trigger] areas[i]).start
            != start by {
            if i > 0 {
                assert(rest[i - 1] == areas[i]);
            }
        }
    }
}

/// A position with a region that begins at `start`, before which none
/// does, is the first such position.
pub proof fn lemma_first_starting_at_is(areas: Seq<MapArea>, start: usize, at: int)
    requires
        0 <= at <= areas.len(),
        at < areas.len() ==> areas[at].start == start,
        forall|i: int| 0 <= i < at ==> (#[trigger] areas[i]).start != start,
    ensures
        first_starting_at(areas, start) == at,
{
    lemma_first_starting_at(areas, start);
    let first = first_starting_at(areas, start);
    if first < at {
        assert(areas[first].start != start);
    }
}

impl MemorySet {
    /// An address space in which nothing is mapped.
    pub fn new_bare(token: usize) -> (space: MemorySet)
        ensures
            space.token == token,
            space.areas@ == Seq::<MapArea>::empty(),
    {
        MemorySet { token, areas: Vec::new() }
    }

    /// The value that activates this address space.
    pub fn token(&self) -> (token: usize)
        ensures
            token == self.token,
    {
        self.token
    }

    /// Maps the region from `start` up to `end` with permissions `perm`.
    pub fn insert_framed_area(&mut self, start: usize, end: usize, perm: u8)
        ensures
            final(self).token == old(self).token,
            final(self).areas@ == old(self).areas@.push(MapArea { start, end, perm }),
    {
        self.areas.push(MapArea { start, end, perm });
    }

    /// Unmaps the first region that begins at `start`, if there is one.
    pub fn remove_area_with_start_vpn(&mut self, start: usize)
        ensures
            final(self).token == old(self).token,
            final(self).areas@ == without_area(old(self).areas@, start),
    {
        let mut i: usize = 0;
        while i < self.areas.len()
            invariant
                i <= self.areas.len(),
                self.areas@ == old(self).areas@,
                self.token == old(self).token,
                forall|j: int| 0 <= j < i ==> (#[trigger] self.areas@[j]).start != start,
            decreases self.areas.len() - i,
        {
            if self.areas[i].start == start {
                proof {
                    lemma_first_starting_at_is(self.areas@, start, i as int);
                }
                self.areas.remove(i);
                return;
            }
            i += 1;
        }
        proof {
            lemma_first_starting_at_is(self.areas@, start, i as int);
        }
    }

    /// Unmaps every region, so that the pages behind them can be reused.
    pub fn recycle_data_pages(&mut self)
        ensures
            final(self).token == old(self).token,
            final(self).areas@ == Seq::<MapArea>::empty(),
    {
        self.areas.clear();
    }

    /// A new address space, activated by `token`, with the regions of
    /// `other`.
    pub fn from_existing_user(other: &MemorySet, token: usize) -> (space: MemorySet)
        ensures
            space.token == token,
            space.areas@ == other.areas@,
    {
        let mut areas: Vec<MapArea> = Vec::new();
        let mut i: usize = 0;
        while i < other.areas.len()
            invariant
                i <= other.areas.len(),
                areas@ == other.areas@.subrange(0, i as int),
            decreases other.areas.len() - i,
        {
            areas.push(other.areas[i]);
            proof {
                assert(areas@ =~= other.areas@.subrange(0, i + 1));
            }
            i += 1;
        }
        proof {
            assert(areas@ =~= other.areas@);
        }
        MemorySet { token, areas }
    }
}

/// A program as it has been laid out in a new address space.
#[derive(Debug)]
pub struct LoadedImage {
    /// The address space with the program in it.
    pub memory_set: MemorySet,
    /// The initial user stack pointer.
    pub user_sp: usize,
    /// The address of the first instruction.
    pub entry: usize,
}

} // verus!
