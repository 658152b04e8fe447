use vstd::prelude::*;

verus! {

/// The size and modification time recorded for one path.
#[derive(Clone, Copy, Debug, PartialEq, Eq, Structural)]
pub struct FileCacheEntry {
    pub size: u64,
    pub modified: u64,
}

/// What the filesystem looked like as of `last_snapshot`: for each path, its
/// size and modification time. Records are kept in the order they were made;
/// where a path was recorded twice, the later record stands.
pub struct VeghCache {
    last_snapshot: i64,
    // A list rather than a hash map: lookups by `String` key in std's maps
    // carry no specification that a proof could use.
    files: Vec<(String, FileCacheEntry)>,
}

/// The record that stands for `path` in a sequence of records.
pub open spec fn record_for(records: Seq<(String, FileCacheEntry)>, path: Seq<char>) -> Option<
    FileCacheEntry,
>
    decreases records.len(),
{
    if records.len() == 0 {
        None
    } else if records.last().0@ == path {
        Some(records.last().1)
    } else {
        record_for(records.drop_last(), path)
    }
}

impl View for VeghCache {
    type V = Map<Seq<char>, FileCacheEntry>;

    closed spec fn view(&self) -> Map<Seq<char>, FileCacheEntry> {
        Map::new(
            |p: Seq<char>| record_for(self.files@, p) is Some,
            |p: Seq<char>| record_for(self.files@, p)->Some_0,
        )
    }
}

/// A cache with no records and a zero reference time.
pub fn create_empty_cache() -> (r: VeghCache)
    ensures
        r@ == Map::<Seq<char>, FileCacheEntry>::empty(),
        r.reference_time() == 0,
{
    let r = VeghCache { last_snapshot: 0, files: Vec::new() };
    assert(r@ =~= Map::<Seq<char>, FileCacheEntry>::empty());
    r
}

impl VeghCache {
    /// The time as of which the records hold.
    pub closed spec fn reference_time(&self) -> i64 {
        self.last_snapshot
    }

    pub fn last_snapshot(&self) -> (r: i64)
        ensures
            r == self.reference_time(),
    {
        self.last_snapshot
    }

    pub fn set_last_snapshot(&mut self, t: i64)
        ensures
            final(self).reference_time() == t,
            final(self)@ == old(self)@,
    {
        self.last_snapshot = t;
    }

    /// Records `entry` for `path`, in place of any earlier record of it.
    pub fn insert(&mut self, path: String, entry: FileCacheEntry)
        ensures
            final(self)@ == old(self)@.insert(path@, entry),
            final(self).reference_time() == old(self).reference_time(),
    {
        let ghost p = path@;
        let ghost before = self.files@;
        self.files.push((path, entry));
        proof {
            assert(self.files@.drop_last() =~= before);
            assert forall|q: Seq<char>| q != p implies record_for(self.files@, q) == record_for(
                before,
                q,
            ) by {}
            assert(self@ =~= old(self)@.insert(p, entry));
        }
    }

    /// The records in the order they were made.
    pub fn records(&self) -> (r: &Vec<(String, FileCacheEntry)>)
        ensures
            forall|p: Seq<char>| #[trigger]
                record_for(r@, p) == (if self@.contains_key(p) {
                    Some(self@[p])
                } else {
                    None
                }),
    {
        &self.files
    }
}

/// Whether `path` is recorded with exactly this size and modification time.
/// No record of another path ever counts.
pub fn check_cache_hit(cache: &VeghCache, path: &str, current_size: u64, current_modified: u64) -> (r:
    bool)
    ensures
        r == (cache@.contains_key(path@) && cache@[path@] == (FileCacheEntry {
            size: current_size,
            modified: current_modified,
        })),
{
    let files = &cache.files;
    let target = path.to_owned();
    let mut i: usize = files.len();
    assert(files@.take(i as int) =~= files@);
    while i > 0
        invariant
            i <= files@.len(),
            files == &cache.files,
            target@ == path@,
            record_for(files@, path@) == record_for(files@.take(i as int), path@),
        decreases i,
    {
        let ghost prefix = files@.take(i as int);
        proof {
            assert(prefix.drop_last() =~= files@.take(i - 1));
        }
        let (p, e) = &files[i - 1];
        if *p == target {
            return e.size == current_size && e.modified == current_modified;
        }
        i = i - 1;
    }
    false
}

} // verus!
