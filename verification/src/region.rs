use vstd::prelude::*;

verus! {

/// Read permission bit.
pub const PROT_READ: u32 = 1;
/// Write permission bit.
pub const PROT_WRITE: u32 = 2;
/// Execute permission bit.
pub const PROT_EXEC: u32 = 4;
/// The full legal permission mask: read, write and execute together.
pub const PROT_ALL: u32 = 7;
/// No access at all.
pub const PROT_NONE: u32 = 0;

/// True when `perms` sets no bit outside the legal mask. The legal
/// mask fills the lowest three bits, so a mask is legal exactly when it
/// is at most `PROT_ALL`.
pub open spec fn spec_legal_perms(perms: u32) -> bool {
    perms <= PROT_ALL
}

/// Checks that a permission mask uses only the read, write and execute
/// bits.
pub fn legal_perms(perms: u32) -> (r: bool)
    ensures
        r == spec_legal_perms(perms),
{
    let r = (perms & !PROT_ALL) == 0;
    proof {
        assert((perms & !7u32 == 0) == (perms <= 7u32)) by (bit_vector);
    }
    r
}

/// A contiguous half-open range `[begin, end)` of the emulated address
/// space together with its access permission bitmask.
#[derive(Clone, Copy, Debug, PartialEq, Eq, Structural)]
pub struct MemRegion {
    /// Inclusive start address.
    pub begin: u64,
    /// Exclusive end address.
    pub end: u64,
    /// Permission bitmask over {read, write, execute}.
    pub perms: u32,
}

impl MemRegion {
    /// A well-formed region is non-empty and uses only legal permission bits.
    pub open spec fn wf(self) -> bool {
        self.begin < self.end && spec_legal_perms(self.perms)
    }
}

} // verus!
