use vstd::prelude::*;
use vstd::string::StringExecFns;

use crate::engine::Engine;
use crate::region::MemRegion;
use crate::registry::{insert_by_begin, sorted_by_begin, MemoryManager, RecordV};

verus! {

/// The label a record gets when the caller supplies none.
pub open spec fn default_label() -> Seq<char> {
    "[mapped]"@
}

/// The label's characters: the caller's, or the default sentinel.
pub open spec fn spec_label(info: Option<String>) -> Seq<char> {
    match info {
        Option::Some(s) => s@,
        Option::None => default_label(),
    }
}

/// The record a successful mapping of `region` leaves in the registry.
pub open spec fn record_of(region: MemRegion, label: Seq<char>) -> RecordV {
    RecordV { begin: region.begin, end: region.end, perms: region.perms, label }
}

/// The capability surface over an emulation session: mapping a region
/// and writing bytes. Observable are the registry of mapped-region
/// records and the engine's side of the session — its mapped table,
/// its request logs, and its answers (see `Engine`) — so the contracts
/// can say not only what the registry does, but that every request
/// reaches the engine exactly once and that the engine's answer comes
/// back verbatim.
pub trait Memory {
    /// The engine's error type, passed through verbatim.
    type Err;

    /// The contents of the session's registry.
    spec fn records(&self) -> Seq<RecordV>;

    /// The table of ranges the session's engine holds mapped.
    spec fn engine_mapped(&self) -> Seq<MemRegion>;

    /// The mapping requests handed to the session's engine so far.
    spec fn engine_map_log(&self) -> Seq<(u64, u64, u32)>;

    /// The write requests handed to the session's engine so far.
    spec fn engine_write_log(&self) -> Seq<(u64, Seq<u8>)>;

    /// The engine's answer to a mapping request, as a function of the
    /// engine's state.
    spec fn engine_map_result(&self, begin: u64, size: u64, perms: u32) -> Result<(), Self::Err>;

    /// The engine's answer to a write request, as a function of the
    /// engine's state.
    spec fn engine_write_result(&self, address: u64, bytes: Seq<u8>) -> Result<(), Self::Err>;

    /// Hands the engine exactly one mapping request — `region.begin`,
    /// the byte length `region.end - region.begin` and the mask — and
    /// returns the engine's answer verbatim. On success, and only then,
    /// the region is both live in the engine and recorded in the
    /// registry, under `info`'s label or under the default sentinel
    /// label when `info` is `None`; on failure neither side changes. A
    /// malformed region — one that is empty or ends before it begins,
    /// or one whose permission mask sets a bit outside the legal mask —
    /// is rejected locally, by precondition: it can never produce a
    /// corrupt record, and it never reaches the engine. The registry's
    /// order by `begin` is kept either way.
    fn mem_map(&mut self, region: MemRegion, info: Option<String>) -> (r: Result<(), Self::Err>)
        requires
            region.wf(),
        ensures
            r == old(self).engine_map_result(
                region.begin,
                (region.end - region.begin) as u64,
                region.perms,
            ),
            final(self).engine_map_log() == old(self).engine_map_log().push(
                ((region.begin, (region.end - region.begin) as u64, region.perms)),
            ),
            final(self).engine_write_log() == old(self).engine_write_log(),
            (r is Ok) ==> final(self).engine_mapped() == old(self).engine_mapped().push(region),
            (r is Err) ==> final(self).engine_mapped() == old(self).engine_mapped(),
            (r is Ok) ==> final(self).records() == insert_by_begin(
                old(self).records(),
                record_of(region, spec_label(info)),
            ),
            (r is Err) ==> final(self).records() == old(self).records(),
            sorted_by_begin(old(self).records()) ==> sorted_by_begin(final(self).records()),
    ;

    /// Hands the engine exactly one write request and returns the
    /// engine's answer verbatim. The registry is neither consulted nor
    /// touched, and the engine's mapped table does not change: no
    /// record blocks or admits a write, only the engine's own answer
    /// decides.
    fn write(&mut self, address: u64, bytes: &[u8]) -> (r: Result<(), Self::Err>)
        ensures
            r == old(self).engine_write_result(address, bytes@),
            final(self).engine_write_log() == old(self).engine_write_log().push(
                ((address, bytes@)),
            ),
            final(self).engine_map_log() == old(self).engine_map_log(),
            final(self).engine_mapped() == old(self).engine_mapped(),
            final(self).records() == old(self).records(),
    ;
}

/// One emulation session: an engine together with the registry that
/// book-keeps its mappings.
pub struct Session<E> {
    /// The underlying emulation engine.
    pub engine: E,
    /// The registry of mapped-region records.
    pub memories: MemoryManager,
}

impl<E: Engine> Session<E> {
    /// Wraps an engine with an empty registry.
    pub fn new(engine: E) -> (r: Session<E>)
        ensures
            r.memories@ == Seq::<RecordV>::empty(),
            r.engine == engine,
    {
        Session { engine, memories: MemoryManager::new() }
    }
}

impl<E: Engine> Memory for Session<E> {
    type Err = E::Err;

    open spec fn records(&self) -> Seq<RecordV> {
        self.memories@
    }

    open spec fn engine_mapped(&self) -> Seq<MemRegion> {
        self.engine.mapped()
    }

    open spec fn engine_map_log(&self) -> Seq<(u64, u64, u32)> {
        self.engine.map_log()
    }

    open spec fn engine_write_log(&self) -> Seq<(u64, Seq<u8>)> {
        self.engine.write_log()
    }

    open spec fn engine_map_result(&self, begin: u64, size: u64, perms: u32) -> Result<
        (),
        E::Err,
    > {
        self.engine.map_result(begin, size, perms)
    }

    open spec fn engine_write_result(&self, address: u64, bytes: Seq<u8>) -> Result<(), E::Err> {
        self.engine.write_result(address, bytes)
    }

    fn mem_map(&mut self, region: MemRegion, info: Option<String>) -> (r: Result<(), E::Err>) {
        let r0 = self.engine.mem_map(region.begin, region.end - region.begin, region.perms);
        if r0.is_ok() {
            proof {
                assert(region.begin + ((region.end - region.begin) as u64) == region.end);
            }
            let label = match info {
                Option::Some(s) => s,
                Option::None => String::from_str("[mapped]"),
            };
            self.memories.add_mapinfo(region, label);
        }
        r0
    }

    fn write(&mut self, address: u64, bytes: &[u8]) -> (r: Result<(), E::Err>) {
        self.engine.mem_write(address, bytes)
    }
}

} // verus!
