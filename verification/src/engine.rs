use vstd::prelude::*;

use crate::region::{MemRegion, PROT_WRITE};

verus! {

/// The capability this crate consumes from a CPU-emulation engine: the
/// raw primitives that map a byte range and write bytes at an address.
///
/// The engine alone decides whether a request succeeds, so nothing here
/// says which requests succeed. What the trait does demand of every
/// implementation is an honest account of the engine's side: the table
/// of ranges it holds mapped, a log of the requests it was handed, and
/// that each request is answered as a function of the engine's own
/// state (`map_result`, `write_result`). These model functions are
/// ghost: they erase at compile time, and an implementation outside the
/// verifier's reach only supplies the two executable methods.
pub trait Engine {
    /// The engine's own error code, surfaced verbatim to callers.
    type Err;

    /// The table of ranges the engine holds mapped.
    spec fn mapped(&self) -> Seq<MemRegion>;

    /// The mapping requests handed to the engine so far, oldest first:
    /// start address, byte length and permission mask of each.
    spec fn map_log(&self) -> Seq<(u64, u64, u32)>;

    /// The write requests handed to the engine so far, oldest first:
    /// address and bytes of each.
    spec fn write_log(&self) -> Seq<(u64, Seq<u8>)>;

    /// The engine's answer to a mapping request, as a function of its
    /// state.
    spec fn map_result(&self, begin: u64, size: u64, perms: u32) -> Result<(), Self::Err>;

    /// The engine's answer to a write request, as a function of its
    /// state.
    spec fn write_result(&self, address: u64, bytes: Seq<u8>) -> Result<(), Self::Err>;

    /// Maps `size` bytes starting at `begin` under the permission mask
    /// `perms`: the request is logged and answered by the engine, and
    /// the mapped table grows by exactly the requested range on
    /// success, or stays as it was on failure.
    fn mem_map(&mut self, begin: u64, size: u64, perms: u32) -> (r: Result<(), Self::Err>)
        ensures
            r == old(self).map_result(begin, size, perms),
            final(self).map_log() == old(self).map_log().push((begin, size, perms)),
            final(self).write_log() == old(self).write_log(),
            (r is Ok) ==> final(self).mapped() == old(self).mapped().push(
                (MemRegion { begin, end: (begin + size) as u64, perms }),
            ),
            (r is Err) ==> final(self).mapped() == old(self).mapped(),
    ;

    /// Writes `bytes` at `address`: the request is logged and answered
    /// by the engine, and the mapped table is never touched.
    fn mem_write(&mut self, address: u64, bytes: &[u8]) -> (r: Result<(), Self::Err>)
        ensures
            r == old(self).write_result(address, bytes@),
            final(self).write_log() == old(self).write_log().push((address, bytes@)),
            final(self).map_log() == old(self).map_log(),
            final(self).mapped() == old(self).mapped(),
    ;
}

/// The half-open range `[begin, end)` meets `r`'s range.
pub open spec fn range_overlaps(r: MemRegion, begin: int, end: int) -> bool {
    r.begin < end && begin < r.end
}

/// A mapping request the in-crate engine accepts: non-empty, lying
/// whole inside the address width, and meeting no range mapped before.
pub open spec fn can_map(s: Seq<MemRegion>, begin: u64, size: u64) -> bool {
    0 < size && begin + size <= u64::MAX && forall|i: int|
        0 <= i < s.len() ==> !range_overlaps(#[trigger] s[i], begin as int, begin + size)
}

/// One mapped range holds the whole write `[address, address + len)`.
pub open spec fn covers(r: MemRegion, address: u64, len: nat) -> bool {
    r.begin <= address && address + len <= r.end
}

/// Some mapped range holds the whole write.
pub open spec fn covered_at(s: Seq<MemRegion>, address: u64, len: nat) -> bool {
    exists|i: int| 0 <= i < s.len() && covers(#[trigger] s[i], address, len)
}

/// Some mapped range holds the whole write and has the write bit set.
pub open spec fn writable_at(s: Seq<MemRegion>, address: u64, len: nat) -> bool {
    exists|i: int|
        0 <= i < s.len() && covers(#[trigger] s[i], address, len) && s[i].perms & PROT_WRITE != 0
}

/// Error codes of the in-crate engine.
#[derive(Clone, Copy, Debug, PartialEq, Eq, Structural)]
pub enum SimError {
    /// The mapping request was empty, ran past the top of the address
    /// space, or met an already mapped range.
    MapFailed,
    /// The write touched bytes that no mapped range holds.
    WriteUnmapped,
    /// The write lay whole in mapped ranges, none of which allows
    /// writing.
    WriteProt,
}

/// An engine of this crate's own: it keeps the table of mapped ranges
/// and validates each request against that table, without emulating
/// anything. It stands in wherever a real emulation engine is not
/// wanted, as in tests of the mapping façade.
pub struct SimEngine {
    regions: Vec<MemRegion>,
    map_calls: Ghost<Seq<(u64, u64, u32)>>,
    write_calls: Ghost<Seq<(u64, Seq<u8>)>>,
}

impl SimEngine {
    /// An engine with nothing mapped and nothing asked of it yet.
    pub fn new() -> (r: SimEngine)
        ensures
            r.mapped() == Seq::<MemRegion>::empty(),
            r.map_log() == Seq::<(u64, u64, u32)>::empty(),
            r.write_log() == Seq::<(u64, Seq<u8>)>::empty(),
    {
        let r = SimEngine {
            regions: Vec::new(),
            map_calls: Ghost(Seq::empty()),
            write_calls: Ghost(Seq::empty()),
        };
        proof {
            assert(r.mapped() =~= Seq::<MemRegion>::empty());
        }
        r
    }
}

impl Engine for SimEngine {
    type Err = SimError;

    closed spec fn mapped(&self) -> Seq<MemRegion> {
        self.regions@
    }

    closed spec fn map_log(&self) -> Seq<(u64, u64, u32)> {
        self.map_calls@
    }

    closed spec fn write_log(&self) -> Seq<(u64, Seq<u8>)> {
        self.write_calls@
    }

    /// This engine accepts exactly the requests `can_map` admits.
    open spec fn map_result(&self, begin: u64, size: u64, perms: u32) -> Result<(), SimError> {
        if can_map(self.mapped(), begin, size) {
            Ok(())
        } else {
            Err(SimError::MapFailed)
        }
    }

    /// This engine accepts exactly the writes that some mapped range
    /// holds whole with the write bit set; a write nothing holds fails
    /// as unmapped, one held only by ranges that forbid writing as
    /// protected.
    open spec fn write_result(&self, address: u64, bytes: Seq<u8>) -> Result<(), SimError> {
        if writable_at(self.mapped(), address, bytes.len()) {
            Ok(())
        } else if covered_at(self.mapped(), address, bytes.len()) {
            Err(SimError::WriteProt)
        } else {
            Err(SimError::WriteUnmapped)
        }
    }

    #[verifier::loop_isolation(false)]
    fn mem_map(&mut self, begin: u64, size: u64, perms: u32) -> (r: Result<(), SimError>) {
        self.map_calls = Ghost(self.map_calls@.push((begin, size, perms)));
        if size == 0 {
            return Err(SimError::MapFailed);
        }
        if size > u64::MAX - begin {
            return Err(SimError::MapFailed);
        }
        let end = begin + size;
        let mut i: usize = 0;
        while i < self.regions.len()
            invariant
                i <= self.regions.len(),
                forall|k: int|
                    0 <= k < i ==> !range_overlaps(
                        #[trigger] self.regions@[k],
                        begin as int,
                        begin + size,
                    ),
            decreases self.regions.len() - i,
        {
            let reg = self.regions[i];
            if reg.begin < end && begin < reg.end {
                return Err(SimError::MapFailed);
            }
            i = i + 1;
        }
        self.regions.push(MemRegion { begin, end, perms });
        Ok(())
    }

    #[verifier::loop_isolation(false)]
    fn mem_write(&mut self, address: u64, bytes: &[u8]) -> (r: Result<(), SimError>) {
        self.write_calls = Ghost(self.write_calls@.push((address, bytes@)));
        let len = bytes.len();
        let mut covered = false;
        let mut i: usize = 0;
        while i < self.regions.len()
            invariant
                i <= self.regions.len(),
                forall|k: int|
                    0 <= k < i ==> !(covers(#[trigger] self.regions@[k], address, bytes@.len())
                        && self.regions@[k].perms & PROT_WRITE != 0),
                covered <==> exists|k: int|
                    0 <= k < i && covers(#[trigger] self.regions@[k], address, bytes@.len()),
            decreases self.regions.len() - i,
        {
            let reg = self.regions[i];
            let c = reg.begin <= address && address <= reg.end && (len as u64) <= reg.end
                - address;
            proof {
                assert(c == covers(self.regions@[i as int], address, bytes@.len()));
            }
            if c {
                if reg.perms & PROT_WRITE != 0 {
                    return Ok(());
                }
                covered = true;
            }
            i = i + 1;
        }
        if covered {
            Err(SimError::WriteProt)
        } else {
            Err(SimError::WriteUnmapped)
        }
    }
}

} // verus!
