use mips_memory::engine::{Engine, SimEngine, SimError};
use mips_memory::memory::{Memory, Session};
use mips_memory::region::{legal_perms, MemRegion, PROT_ALL, PROT_READ, PROT_WRITE};
use mips_memory::registry::MemoryManager;

fn rwx_session() -> Session<SimEngine> {
    Session::new(SimEngine::new())
}

#[test]
fn map_success_records_region_and_label() {
    let mut s = rwx_session();
    let region = MemRegion { begin: 0x1000, end: 0x2000, perms: PROT_ALL };
    let r = s.mem_map(region, Some("stack".to_string()));
    assert!(r.is_ok());
    assert_eq!(s.memories.len(), 1);
    let rec = s.memories.get(0);
    assert_eq!(rec.info, region);
    assert_eq!(rec.label, "stack");
}

#[test]
fn map_without_label_uses_default_sentinel() {
    let mut s = rwx_session();
    let region = MemRegion { begin: 0x1000, end: 0x2000, perms: PROT_ALL };
    assert!(s.mem_map(region, None).is_ok());
    assert_eq!(s.memories.len(), 1);
    assert_eq!(s.memories.get(0).label, "[mapped]");
}

#[test]
fn registry_sorted_regardless_of_call_order() {
    let low = MemRegion { begin: 0x500, end: 0x600, perms: PROT_READ | PROT_WRITE };
    let high = MemRegion { begin: 0x1000, end: 0x2000, perms: PROT_ALL };

    let mut s = rwx_session();
    assert!(s.mem_map(low, None).is_ok());
    assert!(s.mem_map(high, Some("stack".to_string())).is_ok());
    assert_eq!(s.memories.len(), 2);
    assert_eq!(s.memories.get(0).info, low);
    assert_eq!(s.memories.get(1).info, high);

    let mut t = rwx_session();
    assert!(t.mem_map(high, Some("stack".to_string())).is_ok());
    assert!(t.mem_map(low, None).is_ok());
    assert_eq!(t.memories.len(), 2);
    assert_eq!(t.memories.get(0).info, low);
    assert_eq!(t.memories.get(1).info, high);
}

#[test]
fn registry_keeps_sorted_order_over_many_insertions() {
    let mut m = MemoryManager::new();
    let begins: [u64; 5] = [0x4000, 0x1000, 0x3000, 0x5000, 0x2000];
    for b in begins {
        let region = MemRegion { begin: b, end: b + 0x1000, perms: PROT_READ };
        m.add_mapinfo(region, format!("r{b:#x}"));
    }
    assert_eq!(m.len(), 5);
    for i in 0..5 {
        let expect: u64 = 0x1000 * (i as u64 + 1);
        assert_eq!(m.get(i).info.begin, expect);
    }
}

#[test]
fn records_with_equal_begin_keep_insertion_order() {
    let mut m = MemoryManager::new();
    let region = MemRegion { begin: 0x1000, end: 0x2000, perms: PROT_READ };
    m.add_mapinfo(region, "first".to_string());
    m.add_mapinfo(region, "second".to_string());
    assert_eq!(m.len(), 2);
    assert_eq!(m.get(0).label, "first");
    assert_eq!(m.get(1).label, "second");
}

#[test]
fn registry_tolerates_overlapping_records() {
    let mut m = MemoryManager::new();
    m.add_mapinfo(MemRegion { begin: 0x1000, end: 0x2000, perms: PROT_ALL }, "a".to_string());
    m.add_mapinfo(MemRegion { begin: 0x1800, end: 0x2800, perms: PROT_ALL }, "b".to_string());
    assert_eq!(m.len(), 2);
    assert_eq!(m.get(0).info.begin, 0x1000);
    assert_eq!(m.get(0).info.end, 0x2000);
    assert_eq!(m.get(1).info.begin, 0x1800);
    assert_eq!(m.get(1).info.end, 0x2800);
}

#[test]
fn rejected_mapping_leaves_registry_unchanged() {
    let mut s = rwx_session();
    assert!(s.mem_map(MemRegion { begin: 0x1000, end: 0x2000, perms: PROT_ALL }, None).is_ok());
    assert_eq!(s.memories.len(), 1);
    // The engine refuses the overlap; no orphan record may appear.
    let r = s.mem_map(MemRegion { begin: 0x1800, end: 0x2800, perms: PROT_ALL }, None);
    assert_eq!(r, Err(SimError::MapFailed));
    assert_eq!(s.memories.len(), 1);
    assert_eq!(s.memories.get(0).info.begin, 0x1000);
}

#[test]
fn write_to_unmapped_address_fails_without_registry_involvement() {
    let mut s = rwx_session();
    let r = s.write(0x1500, &[0xAA; 4]);
    assert_eq!(r, Err(SimError::WriteUnmapped));
    assert_eq!(s.memories.len(), 0);
}

#[test]
fn write_into_read_only_region_fails_with_protection_error() {
    let mut s = rwx_session();
    assert!(s.mem_map(MemRegion { begin: 0x1000, end: 0x2000, perms: PROT_READ }, None).is_ok());
    let r = s.write(0x1500, &[0xAA; 4]);
    assert_eq!(r, Err(SimError::WriteProt));
    assert_eq!(s.memories.len(), 1);
}

#[test]
fn write_into_writable_region_succeeds() {
    let mut s = rwx_session();
    let region = MemRegion { begin: 0x1000, end: 0x2000, perms: PROT_READ | PROT_WRITE };
    assert!(s.mem_map(region, None).is_ok());
    assert!(s.write(0x1000, &[1, 2, 3, 4]).is_ok());
    assert!(s.write(0x1FFC, &[5, 6, 7, 8]).is_ok());
    // Runs past the mapped range's end.
    assert_eq!(s.write(0x1FFD, &[5, 6, 7, 8]), Err(SimError::WriteUnmapped));
    assert_eq!(s.memories.len(), 1);
}

#[test]
fn engine_rejects_empty_and_overflowing_mappings() {
    let mut e = SimEngine::new();
    assert_eq!(e.mem_map(0x1000, 0, PROT_ALL), Err(SimError::MapFailed));
    assert_eq!(e.mem_map(u64::MAX - 0xFFF, 0x2000, PROT_ALL), Err(SimError::MapFailed));
    assert!(e.mem_map(0x1000, 0x1000, PROT_ALL).is_ok());
}

#[test]
fn legal_perms_accepts_exactly_the_three_bits() {
    assert!(legal_perms(0));
    assert!(legal_perms(PROT_READ));
    assert!(legal_perms(PROT_READ | PROT_WRITE));
    assert!(legal_perms(PROT_ALL));
    assert!(!legal_perms(8));
    assert!(!legal_perms(PROT_ALL | 16));
}

#[test]
fn default_registry_is_empty() {
    let m = MemoryManager::default();
    assert_eq!(m.len(), 0);
}
