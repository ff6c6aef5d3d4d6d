use vstd::multiset::Multiset;
use vstd::prelude::*;

use crate::region::MemRegion;

verus! {

/// The mathematical content of one mapped-region record: the region's
/// bounds and permission bits together with the label's characters.
pub ghost struct RecordV {
    pub begin: u64,
    pub end: u64,
    pub perms: u32,
    pub label: Seq<char>,
}

/// A mapped region together with its descriptive label.
#[derive(Debug)]
pub struct MapInfo {
    /// The mapped region.
    pub info: MemRegion,
    /// Free-form description of what the region holds.
    pub label: String,
}

impl View for MapInfo {
    type V = RecordV;

    open spec fn view(&self) -> RecordV {
        RecordV {
            begin: self.info.begin,
            end: self.info.end,
            perms: self.info.perms,
            label: self.label@,
        }
    }
}

/// The records are non-decreasing by `begin`.
pub open spec fn sorted_by_begin(s: Seq<RecordV>) -> bool {
    forall|i: int, j: int|
        0 <= i < j < s.len() ==> (#[trigger] s[i]).begin <= (#[trigger] s[j]).begin
}

/// Where a stable re-sort by `begin` places a newly appended record:
/// after every record whose `begin` is at most `r.begin`, in front of the
/// first record whose `begin` exceeds it.
pub open spec fn insert_by_begin(s: Seq<RecordV>, r: RecordV) -> Seq<RecordV>
    decreases s.len(),
{
    if s.len() == 0 {
        seq![r]
    } else if s[0].begin <= r.begin {
        seq![s[0]] + insert_by_begin(s.drop_first(), r)
    } else {
        seq![r] + s
    }
}

/// When `i` is the first position whose record's `begin` exceeds
/// `r.begin`, inserting by `begin` is exactly inserting at `i`.
proof fn lemma_insert_by_begin_at(s: Seq<RecordV>, r: RecordV, i: int)
    requires
        0 <= i <= s.len(),
        forall|k: int| 0 <= k < i ==> (#[trigger] s[k]).begin <= r.begin,
        i < s.len() ==> s[i].begin > r.begin,
    ensures
        insert_by_begin(s, r) == s.insert(i, r),
    decreases s.len(),
{
    if i == 0 {
        assert(insert_by_begin(s, r) =~= s.insert(0, r));
    } else {
        assert(s[0].begin <= r.begin);
        assert forall|k: int| 0 <= k < i - 1 implies (#[trigger] s.drop_first()[k]).begin
            <= r.begin by {
            assert(s.drop_first()[k] == s[k + 1]);
        }
        assert(i - 1 < s.drop_first().len() ==> s.drop_first()[i - 1].begin > r.begin);
        lemma_insert_by_begin_at(s.drop_first(), r, i - 1);
        assert(insert_by_begin(s, r) =~= s.insert(i, r));
    }
}

/// Every record of the insertion result respects a lower bound that both
/// the original records and the new record respect.
proof fn lemma_insert_by_begin_bound(s: Seq<RecordV>, r: RecordV, b: u64)
    requires
        forall|k: int| 0 <= k < s.len() ==> b <= (#[trigger] s[k]).begin,
        b <= r.begin,
    ensures
        forall|k: int|
            0 <= k < insert_by_begin(s, r).len() ==> b <= (#[trigger] insert_by_begin(s, r)[k]).begin,
    decreases s.len(),
{
    if s.len() == 0 {
    } else if s[0].begin <= r.begin {
        assert forall|k: int| 0 <= k < s.drop_first().len() implies b <= (#[trigger] s.drop_first()[k]).begin by {
            assert(s.drop_first()[k] == s[k + 1]);
        }
        lemma_insert_by_begin_bound(s.drop_first(), r, b);
        assert forall|k: int|
            0 <= k < insert_by_begin(s, r).len() implies b <= (#[trigger] insert_by_begin(s, r)[k]).begin by {
            if k > 0 {
                assert(insert_by_begin(s, r)[k] == insert_by_begin(s.drop_first(), r)[k - 1]);
            }
        }
    } else {
    }
}

/// Sortedness is preserved: inserting by `begin` into a sequence that is
/// non-decreasing by `begin` yields a sequence that is again
/// non-decreasing by `begin`.
pub proof fn lemma_insert_by_begin_sorted(s: Seq<RecordV>, r: RecordV)
    requires
        sorted_by_begin(s),
    ensures
        sorted_by_begin(insert_by_begin(s, r)),
    decreases s.len(),
{
    if s.len() == 0 {
    } else if s[0].begin <= r.begin {
        assert forall|i: int, j: int|
            0 <= i < j < s.drop_first().len() implies (#[trigger] s.drop_first()[i]).begin
            <= (#[trigger] s.drop_first()[j]).begin by {
            assert(s.drop_first()[i] == s[i + 1]);
            assert(s.drop_first()[j] == s[j + 1]);
        }
        lemma_insert_by_begin_sorted(s.drop_first(), r);
        assert forall|k: int| 0 <= k < s.drop_first().len() implies s[0].begin
            <= (#[trigger] s.drop_first()[k]).begin by {
            assert(s.drop_first()[k] == s[k + 1]);
        }
        lemma_insert_by_begin_bound(s.drop_first(), r, s[0].begin);
        let t = insert_by_begin(s, r);
        assert forall|i: int, j: int| 0 <= i < j < t.len() implies (#[trigger] t[i]).begin
            <= (#[trigger] t[j]).begin by {
            assert(t[j] == insert_by_begin(s.drop_first(), r)[j - 1]);
            if i > 0 {
                assert(t[i] == insert_by_begin(s.drop_first(), r)[i - 1]);
            }
        }
    } else {
        let t = insert_by_begin(s, r);
        assert forall|i: int, j: int| 0 <= i < j < t.len() implies (#[trigger] t[i]).begin
            <= (#[trigger] t[j]).begin by {
            assert(t[j] == s[j - 1]);
            if i > 0 {
                assert(t[i] == s[i - 1]);
            }
        }
    }
}

/// No record is lost, merged or invented: inserting by `begin` adds
/// exactly the new record to the collection's contents, and grows the
/// count by one.
pub proof fn lemma_insert_by_begin_multiset(s: Seq<RecordV>, r: RecordV)
    ensures
        insert_by_begin(s, r).to_multiset() == s.to_multiset().insert(r),
        insert_by_begin(s, r).len() == s.len() + 1,
    decreases s.len(),
{
    broadcast use vstd::seq_lib::group_to_multiset_ensures;
    broadcast use vstd::multiset::group_multiset_axioms;

    if s.len() == 0 {
        assert(seq![r] =~= Seq::<RecordV>::empty().push(r));
        assert(s.to_multiset() =~= Multiset::<RecordV>::empty());
        assert(insert_by_begin(s, r).to_multiset() =~= s.to_multiset().insert(r));
    } else if s[0].begin <= r.begin {
        lemma_insert_by_begin_multiset(s.drop_first(), r);
        let t = insert_by_begin(s.drop_first(), r);
        assert(seq![s[0]] + t =~= t.insert(0, s[0]));
        vstd::seq_lib::to_multiset_insert(t, 0, s[0]);
        assert(s =~= s.drop_first().insert(0, s[0]));
        vstd::seq_lib::to_multiset_insert(s.drop_first(), 0, s[0]);
        assert(s.drop_first().to_multiset().insert(r).insert(s[0])
            =~= s.drop_first().to_multiset().insert(s[0]).insert(r));
        assert(insert_by_begin(s, r).to_multiset() =~= s.to_multiset().insert(r));
    } else {
        assert(seq![r] + s =~= s.insert(0, r));
        vstd::seq_lib::to_multiset_insert(s, 0, r);
    }
}

/// The registry of mapped-region records. Its view is the sequence of
/// record contents, and its invariant keeps that sequence sorted by
/// `begin` ascending.
#[derive(Debug)]
pub struct MemoryManager {
    map_info: Vec<MapInfo>,
}

impl View for MemoryManager {
    type V = Seq<RecordV>;

    closed spec fn view(&self) -> Seq<RecordV> {
        self.map_info@.map_values(|m: MapInfo| m@)
    }
}

impl MemoryManager {
    /// The registry invariant: records sorted by `begin` ascending.
    pub open spec fn wf(self) -> bool {
        sorted_by_begin(self@)
    }

    /// Creates an empty registry.
    pub fn new() -> (r: MemoryManager)
        ensures
            r@ == Seq::<RecordV>::empty(),
            r.wf(),
    {
        let r = MemoryManager { map_info: Vec::new() };
        proof {
            assert(r@ =~= Seq::<RecordV>::empty());
        }
        r
    }

    /// Number of records in the registry.
    pub fn len(&self) -> (n: usize)
        ensures
            n == self@.len(),
    {
        self.map_info.len()
    }

    /// Read-only access to the record at position `i`, for diagnostics
    /// such as address symbolization.
    pub fn get(&self, i: usize) -> (r: &MapInfo)
        requires
            i < self@.len(),
        ensures
            r@ == self@[i as int],
    {
        &self.map_info[i]
    }

    /// Appends a new mapped-region record and places it by `begin`
    /// ascending: after every record whose `begin` is at most its own,
    /// in front of the rest — on a sorted registry exactly where a
    /// stable re-sort of the appended collection would put it. Never
    /// fails: no deduplication and no overlap check is made.
    #[verifier::loop_isolation(false)]
    pub fn add_mapinfo(&mut self, mem_info: MemRegion, label: String)
        ensures
            final(self)@ == insert_by_begin(
                old(self)@,
                (RecordV {
                    begin: mem_info.begin,
                    end: mem_info.end,
                    perms: mem_info.perms,
                    label: label@,
                }),
            ),
            old(self).wf() ==> final(self).wf(),
    {
        let ghost rec = RecordV {
            begin: mem_info.begin,
            end: mem_info.end,
            perms: mem_info.perms,
            label: label@,
        };
        let mut i: usize = 0;
        while i < self.map_info.len() && self.map_info[i].info.begin <= mem_info.begin
            invariant
                i <= self.map_info.len(),
                forall|k: int| 0 <= k < i ==> (#[trigger] self@[k]).begin <= mem_info.begin,
            decreases self.map_info.len() - i,
        {
            i = i + 1;
        }
        self.map_info.insert(i, MapInfo { info: mem_info, label });
        proof {
            let s0 = old(self)@;
            assert(self@ =~= s0.insert(i as int, rec));
            assert(i < s0.len() ==> s0[i as int].begin > rec.begin);
            lemma_insert_by_begin_at(s0, rec, i as int);
            if old(self).wf() {
                lemma_insert_by_begin_sorted(s0, rec);
            }
        }
    }
}

impl Default for MemoryManager {
    /// An empty registry.
    fn default() -> (r: MemoryManager)
        ensures
            r@ == Seq::<RecordV>::empty(),
            r.wf(),
    {
        MemoryManager::new()
    }
}

} // verus!
