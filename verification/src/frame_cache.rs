//! A bounded LRU cache of rendered frames keyed by (decode file path,
//! source timestamp), with two caps: an entry count and an aggregate byte
//! count. The most recently used entry sits at the back; eviction takes
//! from the front.

use vstd::prelude::*;
use crate::frame::{RenderedFrame, RenderedFrameView};

verus! {

/// One cached frame under its key.
pub struct CacheEntry {
    pub file_path: String,
    pub source_time_ms: i64,
    pub frame: RenderedFrame,
}

/// Ghost mirror of a `CacheEntry`.
pub ghost struct CacheEntryView {
    pub file_path: Seq<char>,
    pub source_time_ms: i64,
    pub frame: RenderedFrameView,
}

impl View for CacheEntry {
    type V = CacheEntryView;

    open spec fn view(&self) -> CacheEntryView {
        CacheEntryView {
            file_path: self.file_path@,
            source_time_ms: self.source_time_ms,
            frame: self.frame@,
        }
    }
}

/// Whether an entry carries the given key.
pub open spec fn entry_matches(e: CacheEntryView, path: Seq<char>, time_ms: i64) -> bool {
    e.file_path == path && e.source_time_ms == time_ms
}

/// Index of the first entry at or after `from` carrying the key; -1 when
/// there is none.
pub open spec fn first_key_from(
    s: Seq<CacheEntryView>,
    path: Seq<char>,
    time_ms: i64,
    from: int,
) -> int
    decreases s.len() - from,
{
    if from < 0 || from >= s.len() {
        -1
    } else if entry_matches(s[from], path, time_ms) {
        from
    } else {
        first_key_from(s, path, time_ms, from + 1)
    }
}

/// Scanning over entries that do not carry the key does not change where
/// it is first found.
pub proof fn lemma_first_key_skip(
    s: Seq<CacheEntryView>,
    path: Seq<char>,
    time_ms: i64,
    from: int,
    upto: int,
)
    requires
        0 <= from <= upto <= s.len(),
        forall|j: int| from <= j < upto ==> !entry_matches(#[trigger] s[j], path, time_ms),
    ensures
        first_key_from(s, path, time_ms, from) == first_key_from(s, path, time_ms, upto),
    decreases upto - from,
{
    if from < upto {
        lemma_first_key_skip(s, path, time_ms, from + 1, upto);
    }
}

/// The cache contents after dropping the entry under the given key, if any.
pub open spec fn drop_key_model(s: Seq<CacheEntryView>, path: Seq<char>, time_ms: i64) -> Seq<
    CacheEntryView,
> {
    if first_key_from(s, path, time_ms, 0) >= 0 {
        s.remove(first_key_from(s, path, time_ms, 0))
    } else {
        s
    }
}

/// The cache contents after `put`: the keyed entry (if cached) dropped,
/// the oldest entries evicted until both caps admit the new frame, and the
/// new entry appended as most recent.
pub open spec fn put_model(
    s: Seq<CacheEntryView>,
    max_e: int,
    max_b: int,
    fresh: CacheEntryView,
) -> Seq<CacheEntryView> {
    evict_model(
        drop_key_model(s, fresh.file_path, fresh.source_time_ms),
        max_e,
        max_b,
        fresh.frame.data.len() as int,
    ).push(fresh)
}

/// Sum of the cached frames' byte lengths.
pub open spec fn total_bytes(s: Seq<CacheEntryView>) -> int
    decreases s.len(),
{
    if s.len() == 0 {
        0
    } else {
        total_bytes(s.drop_last()) + s.last().frame.data.len()
    }
}

/// Every key occurs at most once.
pub open spec fn unique_keys(s: Seq<CacheEntryView>) -> bool {
    forall|i: int, j: int|
        0 <= i < j < s.len() ==> !entry_matches(
            #[trigger] s[j],
            (#[trigger] s[i]).file_path,
            s[i].source_time_ms,
        )
}

/// The cache contents after evicting from the oldest end until both caps
/// admit one more frame of `fb` bytes (or nothing is left).
pub open spec fn evict_model(s: Seq<CacheEntryView>, max_e: int, max_b: int, fb: int) -> Seq<
    CacheEntryView,
>
    decreases s.len(),
{
    if s.len() == 0 {
        s
    } else if s.len() >= max_e || total_bytes(s) + fb > max_b {
        evict_model(s.drop_first(), max_e, max_b, fb)
    } else {
        s
    }
}

proof fn lemma_total_bytes_nonneg(s: Seq<CacheEntryView>)
    ensures
        total_bytes(s) >= 0,
    decreases s.len(),
{
    if s.len() > 0 {
        lemma_total_bytes_nonneg(s.drop_last());
    }
}

proof fn lemma_total_bytes_remove(s: Seq<CacheEntryView>, i: int)
    requires
        0 <= i < s.len(),
    ensures
        total_bytes(s.remove(i)) == total_bytes(s) - s[i].frame.data.len(),
    decreases s.len(),
{
    if i == s.len() - 1 {
        assert(s.remove(i) =~= s.drop_last());
    } else {
        assert(s.remove(i).drop_last() =~= s.drop_last().remove(i));
        assert(s.remove(i).last() == s.last());
        lemma_total_bytes_remove(s.drop_last(), i);
    }
}

proof fn lemma_total_bytes_drop_first(s: Seq<CacheEntryView>)
    requires
        s.len() > 0,
    ensures
        total_bytes(s.drop_first()) == total_bytes(s) - s[0].frame.data.len(),
{
    assert(s.drop_first() =~= s.remove(0));
    lemma_total_bytes_remove(s, 0);
}

proof fn lemma_total_bytes_push(s: Seq<CacheEntryView>, e: CacheEntryView)
    ensures
        total_bytes(s.push(e)) == total_bytes(s) + e.frame.data.len(),
{
    assert(s.push(e).drop_last() =~= s);
}

/// A bounded LRU frame cache; most recently used last.
pub struct FrameCache {
    pub entries: Vec<CacheEntry>,
    pub max_entries: usize,
    pub max_bytes: usize,
    pub current_bytes: usize,
    pub hit_count: u64,
    pub miss_count: u64,
}

impl View for FrameCache {
    type V = Seq<CacheEntryView>;

    open spec fn view(&self) -> Seq<CacheEntryView> {
        self.entries@.map_values(|e: CacheEntry| e@)
    }
}

impl FrameCache {
    /// Well-formedness: the byte counter is the sum over the entries, and
    /// no key is cached twice.
    pub open spec fn valid(self) -> bool {
        &&& self.current_bytes == total_bytes(self@)
        &&& unique_keys(self@)
        &&& self.max_entries >= 1
    }

    pub fn new(max_entries: usize, max_bytes: usize) -> (c: FrameCache)
        requires
            max_entries >= 1,
        ensures
            c.valid(),
            c@.len() == 0,
            c.max_entries == max_entries,
            c.max_bytes == max_bytes,
            c.current_bytes == 0,
            c.hit_count == 0,
            c.miss_count == 0,
    {
        FrameCache {
            entries: Vec::new(),
            max_entries,
            max_bytes,
            current_bytes: 0,
            hit_count: 0,
            miss_count: 0,
        }
    }

    /// Look up a frame; on a hit the entry becomes the most recently used
    /// and a copy of the frame is returned.
    pub fn get(&mut self, file_path: &str, source_time_ms: i64) -> (r: Option<RenderedFrame>)
        requires
            old(self).valid(),
        ensures
            final(self).valid(),
            final(self).max_entries == old(self).max_entries,
            final(self).max_bytes == old(self).max_bytes,
            final(self).current_bytes == old(self).current_bytes,
            final(self)@.len() == old(self)@.len(),
            match r {
                Some(f) => {
                    &&& exists|i: int|
                        {
                            &&& 0 <= i < old(self)@.len()
                            &&& entry_matches(#[trigger] old(self)@[i], file_path@, source_time_ms)
                            &&& f@ == old(self)@[i].frame
                            &&& final(self)@ == old(self)@.remove(i).push(old(self)@[i])
                        }
                    &&& final(self).hit_count == (if old(self).hit_count < u64::MAX {
                        old(self).hit_count + 1
                    } else {
                        old(self).hit_count as int
                    })
                    &&& final(self).miss_count == old(self).miss_count
                },
                None => {
                    &&& forall|i: int|
                        0 <= i < old(self)@.len() ==> !entry_matches(
                            #[trigger] old(self)@[i],
                            file_path@,
                            source_time_ms,
                        )
                    &&& final(self)@ == old(self)@
                    &&& final(self).miss_count == (if old(self).miss_count < u64::MAX {
                        old(self).miss_count + 1
                    } else {
                        old(self).miss_count as int
                    })
                    &&& final(self).hit_count == old(self).hit_count
                },
            },
    {
        let key: String = file_path.to_owned();
        let n = self.entries.len();
        let mut i: usize = 0;
        while i < n
            invariant
                self == old(self),
                self.valid(),
                key@ == file_path@,
                n == self@.len(),
                i <= n,
                forall|j: int|
                    0 <= j < i ==> !entry_matches(
                        #[trigger] self@[j],
                        file_path@,
                        source_time_ms,
                    ),
            decreases n - i,
        {
            if self.entries[i].file_path == key && self.entries[i].source_time_ms
                == source_time_ms {
                let ghost s0 = self@;
                let entry = self.entries.remove(i);
                let found = entry.frame.duplicate();
                self.entries.push(entry);
                if self.hit_count < u64::MAX {
                    self.hit_count = self.hit_count + 1;
                }
                proof {
                    assert(self@ =~= s0.remove(i as int).push(s0[i as int]));
                    lemma_total_bytes_remove(s0, i as int);
                    lemma_total_bytes_push(s0.remove(i as int), s0[i as int]);
                    assert forall|a: int, b: int| 0 <= a < b < self@.len() implies !entry_matches(
                        #[trigger] self@[b],
                        (#[trigger] self@[a]).file_path,
                        self@[a].source_time_ms,
                    ) by {
                        if b == self@.len() - 1 {
                            if a < i {
                                assert(self@[a] == s0[a]);
                            } else {
                                assert(self@[a] == s0[a + 1]);
                            }
                            assert(self@[b] == s0[i as int]);
                        } else {
                            if a < i {
                                assert(self@[a] == s0[a]);
                            } else {
                                assert(self@[a] == s0[a + 1]);
                            }
                            if b < i {
                                assert(self@[b] == s0[b]);
                            } else {
                                assert(self@[b] == s0[b + 1]);
                            }
                        }
                    }
                }
                return Some(found);
            }
            i = i + 1;
        }
        if self.miss_count < u64::MAX {
            self.miss_count = self.miss_count + 1;
        }
        None
    }

    /// Insert a frame under its key. An entry already under that key is
    /// replaced; otherwise the oldest entries are evicted until both caps
    /// admit the new one (a frame larger than the byte cap still enters an
    /// emptied cache).
    pub fn put(&mut self, file_path: String, source_time_ms: i64, frame: RenderedFrame)
        requires
            old(self).valid(),
        ensures
            final(self).valid(),
            final(self).max_entries == old(self).max_entries,
            final(self).max_bytes == old(self).max_bytes,
            final(self).hit_count == old(self).hit_count,
            final(self).miss_count == old(self).miss_count,
            final(self).current_bytes == total_bytes(final(self)@),
            final(self)@ == put_model(
                old(self)@,
                old(self).max_entries as int,
                old(self).max_bytes as int,
                CacheEntryView { file_path: file_path@, source_time_ms, frame: frame@ },
            ),
    {
        let frame_bytes = frame.data.len();
        let ghost me = self.max_entries as int;
        let ghost mb = self.max_bytes as int;
        let ghost fb = frame@.data.len() as int;

        // Replace in place: drop an entry already under this key.
        let n = self.entries.len();
        let mut i: usize = 0;
        let mut removed_existing: bool = false;
        while i < n && !removed_existing
            invariant
                i <= n,
                self.valid(),
                !removed_existing ==> {
                    &&& self == old(self)
                    &&& n == self@.len()
                    &&& forall|j: int|
                        0 <= j < i ==> !entry_matches(
                            #[trigger] self@[j],
                            file_path@,
                            source_time_ms,
                        )
                },
                removed_existing ==> exists|k: int|
                    {
                        &&& 0 <= k < old(self)@.len()
                        &&& entry_matches(#[trigger] old(self)@[k], file_path@, source_time_ms)
                        &&& self@ == old(self)@.remove(k)
                    },
                self.max_entries == old(self).max_entries,
                self.max_bytes == old(self).max_bytes,
                self.hit_count == old(self).hit_count,
                self.miss_count == old(self).miss_count,
            ensures
                removed_existing ==> exists|k: int|
                    {
                        &&& 0 <= k < old(self)@.len()
                        &&& entry_matches(#[trigger] old(self)@[k], file_path@, source_time_ms)
                        &&& self@ == old(self)@.remove(k)
                    },
                !removed_existing ==> self == old(self) && forall|j: int|
                    0 <= j < old(self)@.len() ==> !entry_matches(
                        #[trigger] old(self)@[j],
                        file_path@,
                        source_time_ms,
                    ),
                self.max_entries == old(self).max_entries,
                self.max_bytes == old(self).max_bytes,
                self.hit_count == old(self).hit_count,
                self.miss_count == old(self).miss_count,
                self.valid(),
            decreases n - i,
        {
            if self.entries[i].file_path == file_path && self.entries[i].source_time_ms
                == source_time_ms {
                let ghost s0 = self@;
                let old_entry = self.entries.remove(i);
                proof {
                    assert(self@ =~= s0.remove(i as int));
                    assert(old_entry@ == s0[i as int]);
                    lemma_total_bytes_remove(s0, i as int);
                    lemma_total_bytes_nonneg(self@);
                }
                self.current_bytes = self.current_bytes - old_entry.frame.data.len();
                proof {
                    assert forall|a: int, b: int| 0 <= a < b < self@.len() implies !entry_matches(
                        #[trigger] self@[b],
                        (#[trigger] self@[a]).file_path,
                        self@[a].source_time_ms,
                    ) by {
                        assert(self@[a] == if a < i {
                            s0[a]
                        } else {
                            s0[a + 1]
                        });
                        assert(self@[b] == if b < i {
                            s0[b]
                        } else {
                            s0[b + 1]
                        });
                    }
                }
                removed_existing = true;
                break;
            }
            i = i + 1;
        }
        let ghost dropped = self@;
        proof {
            if removed_existing {
                let k = choose|k: int|
                    {
                        &&& 0 <= k < old(self)@.len()
                        &&& entry_matches(#[trigger] old(self)@[k], file_path@, source_time_ms)
                        &&& self@ == old(self)@.remove(k)
                    };
                assert(forall|j: int|
                    0 <= j < k ==> !entry_matches(#[trigger] old(self)@[j], file_path@,
                    source_time_ms)) by {
                    assert forall|j: int| 0 <= j < k implies !entry_matches(
                        #[trigger] old(self)@[j],
                        file_path@,
                        source_time_ms,
                    ) by {
                        assert(!entry_matches(
                            old(self)@[k],
                            old(self)@[j].file_path,
                            old(self)@[j].source_time_ms,
                        ));
                    }
                }
                lemma_first_key_skip(old(self)@, file_path@, source_time_ms, 0, k);
                assert(first_key_from(old(self)@, file_path@, source_time_ms, 0) == k);
                assert(dropped == drop_key_model(old(self)@, file_path@, source_time_ms));
                assert forall|j: int| 0 <= j < dropped.len() implies !entry_matches(
                    #[trigger] dropped[j],
                    file_path@,
                    source_time_ms,
                ) by {
                    if j < k {
                        assert(dropped[j] == old(self)@[j]);
                    } else {
                        assert(dropped[j] == old(self)@[j + 1]);
                        assert(!entry_matches(
                            old(self)@[j + 1],
                            old(self)@[k].file_path,
                            old(self)@[k].source_time_ms,
                        ));
                    }
                }
            } else {
                lemma_first_key_skip(
                    old(self)@,
                    file_path@,
                    source_time_ms,
                    0,
                    old(self)@.len() as int,
                );
                assert(dropped == drop_key_model(old(self)@, file_path@, source_time_ms));
            }
        }

        // Evict from the oldest end until both caps admit the new frame.
        loop
            invariant
                self.valid(),
                self.max_entries == old(self).max_entries,
                self.max_bytes == old(self).max_bytes,
                self.hit_count == old(self).hit_count,
                self.miss_count == old(self).miss_count,
                evict_model(self@, me, mb, fb) == evict_model(dropped, me, mb, fb),
                forall|j: int|
                    0 <= j < dropped.len() ==> !entry_matches(
                        #[trigger] dropped[j],
                        file_path@,
                        source_time_ms,
                    ),
                me == self.max_entries as int,
                mb == self.max_bytes as int,
                fb == frame@.data.len() as int,
                frame_bytes == frame@.data.len(),
            ensures
                self.valid(),
                self.max_entries == old(self).max_entries,
                self.max_bytes == old(self).max_bytes,
                self.hit_count == old(self).hit_count,
                self.miss_count == old(self).miss_count,
                evict_model(self@, me, mb, fb) == evict_model(dropped, me, mb, fb),
                forall|j: int|
                    0 <= j < dropped.len() ==> !entry_matches(
                        #[trigger] dropped[j],
                        file_path@,
                        source_time_ms,
                    ),
                self@.len() == 0 || (self@.len() < me && total_bytes(self@) + fb <= mb),
            decreases self@.len(),
        {
            if self.entries.len() == 0 {
                break;
            }
            let over_bytes = if frame_bytes > self.max_bytes {
                proof {
                    lemma_total_bytes_nonneg(self@);
                }
                true
            } else {
                self.current_bytes > self.max_bytes - frame_bytes
            };
            if !(self.entries.len() >= self.max_entries || over_bytes) {
                break;
            }
            proof {
                assert(self@.len() >= me || total_bytes(self@) + fb > mb);
            }
            let ghost s0 = self@;
            let evicted = self.entries.remove(0);
            proof {
                assert(self@ =~= s0.drop_first());
                assert(evicted@ == s0[0]);
                lemma_total_bytes_drop_first(s0);
                lemma_total_bytes_nonneg(self@);
            }
            self.current_bytes = self.current_bytes - evicted.frame.data.len();
            proof {
                assert(evict_model(s0, me, mb, fb) == evict_model(s0.drop_first(), me, mb, fb));
                assert forall|a: int, b: int| 0 <= a < b < self@.len() implies !entry_matches(
                    #[trigger] self@[b],
                    (#[trigger] self@[a]).file_path,
                    self@[a].source_time_ms,
                ) by {
                    assert(self@[a] == s0[a + 1]);
                    assert(self@[b] == s0[b + 1]);
                }
            }
        }
        // Both caps admit the new entry (or the cache is empty); insert it
        // as the most recent.
        proof {
            assert(evict_model(self@, me, mb, fb) == self@);
            lemma_total_bytes_nonneg(self@);
        }
        let ghost before_push = self@;
        self.current_bytes = self.current_bytes + frame_bytes;
        self.entries.push(CacheEntry { file_path, source_time_ms, frame });
        proof {
            assert(self@ =~= before_push.push(
                CacheEntryView { file_path: file_path@, source_time_ms, frame: frame@ },
            ));
            lemma_total_bytes_push(
                before_push,
                CacheEntryView { file_path: file_path@, source_time_ms, frame: frame@ },
            );
            assert(unique_keys(self@)) by {
                assert forall|a: int, b: int| 0 <= a < b < self@.len() implies !entry_matches(
                    #[trigger] self@[b],
                    (#[trigger] self@[a]).file_path,
                    self@[a].source_time_ms,
                ) by {
                    if b == self@.len() - 1 {
                        lemma_evict_model_no_key(dropped, me, mb, fb, file_path@, source_time_ms);
                    }
                }
            }
        }
    }

    /// Drop every entry.
    pub fn clear(&mut self)
        requires
            old(self).valid(),
        ensures
            final(self).valid(),
            final(self)@.len() == 0,
            final(self).current_bytes == 0,
            final(self).max_entries == old(self).max_entries,
            final(self).max_bytes == old(self).max_bytes,
            final(self).hit_count == old(self).hit_count,
            final(self).miss_count == old(self).miss_count,
    {
        self.entries.clear();
        self.current_bytes = 0;
    }

    /// (entry count, aggregate bytes).
    pub fn stats(&self) -> (r: (u32, usize))
        requires
            self.valid(),
            self@.len() <= u32::MAX,
        ensures
            r.0 == self@.len(),
            r.1 == total_bytes(self@),
    {
        (self.entries.len() as u32, self.current_bytes)
    }
}

/// Eviction never introduces a key: a key absent from `s` is absent from
/// what is left of `s` after eviction.
proof fn lemma_evict_model_no_key(
    s: Seq<CacheEntryView>,
    max_e: int,
    max_b: int,
    fb: int,
    path: Seq<char>,
    time_ms: i64,
)
    requires
        forall|i: int| 0 <= i < s.len() ==> !entry_matches(#[trigger] s[i], path, time_ms),
    ensures
        forall|i: int|
            0 <= i < evict_model(s, max_e, max_b, fb).len() ==> !entry_matches(
                #[trigger] evict_model(s, max_e, max_b, fb)[i],
                path,
                time_ms,
            ),
    decreases s.len(),
{
    if s.len() != 0 && (s.len() >= max_e || total_bytes(s) + fb > max_b) {
        assert(forall|i: int|
            0 <= i < s.drop_first().len() ==> !entry_matches(
                #[trigger] s.drop_first()[i],
                path,
                time_ms,
            ));
        lemma_evict_model_no_key(s.drop_first(), max_e, max_b, fb, path, time_ms);
        assert(evict_model(s, max_e, max_b, fb) == evict_model(s.drop_first(), max_e, max_b, fb));
    } else {
        assert(evict_model(s, max_e, max_b, fb) == s);
    }
}

/// The LRU law, first half: a fresh key put into a full cache (whose
/// remaining entries fit the byte cap) evicts exactly the oldest entry:
/// every other entry survives, the new entry is the most recent, and no
/// entry under the oldest entry's key is left.
pub proof fn lemma_cache_lru_eviction(
    s: Seq<CacheEntryView>,
    max_e: int,
    max_b: int,
    fresh: CacheEntryView,
)
    requires
        s.len() == max_e >= 1,
        unique_keys(s),
        forall|i: int|
            0 <= i < s.len() ==> !entry_matches(
                #[trigger] s[i],
                fresh.file_path,
                fresh.source_time_ms,
            ),
        total_bytes(s.drop_first()) + fresh.frame.data.len() <= max_b,
    ensures
        put_model(s, max_e, max_b, fresh) == s.drop_first().push(fresh),
        forall|i: int|
            1 <= i < s.len() ==> #[trigger] put_model(s, max_e, max_b, fresh).contains(s[i]),
        forall|k: int|
            0 <= k < put_model(s, max_e, max_b, fresh).len() ==> !entry_matches(
                #[trigger] put_model(s, max_e, max_b, fresh)[k],
                s[0].file_path,
                s[0].source_time_ms,
            ),
{
    let fb = fresh.frame.data.len() as int;
    let d = s.drop_first();
    lemma_first_key_skip(s, fresh.file_path, fresh.source_time_ms, 0, s.len() as int);
    assert(drop_key_model(s, fresh.file_path, fresh.source_time_ms) == s);
    if d.len() != 0 {
        assert(d.len() < max_e);
        assert(evict_model(d, max_e, max_b, fb) == d);
    } else {
        assert(evict_model(d, max_e, max_b, fb) == d);
    }
    assert(s.len() >= max_e);
    assert(evict_model(s, max_e, max_b, fb) == evict_model(d, max_e, max_b, fb));
    let result = put_model(s, max_e, max_b, fresh);
    assert(result == d.push(fresh));
    assert forall|i: int| 1 <= i < s.len() implies #[trigger] result.contains(s[i]) by {
        assert(result[i - 1] == s[i]);
    }
    assert forall|k: int| 0 <= k < result.len() implies !entry_matches(
        #[trigger] result[k],
        s[0].file_path,
        s[0].source_time_ms,
    ) by {
        if k < result.len() - 1 {
            assert(result[k] == s[k + 1]);
            assert(!entry_matches(s[k + 1], s[0].file_path, s[0].source_time_ms));
        } else {
            assert(result[k] == fresh);
            assert(!entry_matches(s[0], fresh.file_path, fresh.source_time_ms));
        }
    }
}

/// The LRU law, second half: an entry just moved to the most-recent end by
/// a hit survives the eviction caused by putting one fresh entry into the
/// full cache.
pub proof fn lemma_cache_hit_survives(
    s: Seq<CacheEntryView>,
    i: int,
    max_e: int,
    max_b: int,
    fresh: CacheEntryView,
)
    requires
        s.len() == max_e >= 2,
        0 <= i < s.len(),
        unique_keys(s),
        forall|j: int|
            0 <= j < s.len() ==> !entry_matches(
                #[trigger] s[j],
                fresh.file_path,
                fresh.source_time_ms,
            ),
        total_bytes(s.remove(i).push(s[i]).drop_first()) + fresh.frame.data.len() <= max_b,
    ensures
        put_model(s.remove(i).push(s[i]), max_e, max_b, fresh).contains(s[i]),
{
    let after_hit = s.remove(i).push(s[i]);
    assert(after_hit.len() == max_e);
    assert forall|k: int| 0 <= k < after_hit.len() implies !entry_matches(
        #[trigger] after_hit[k],
        fresh.file_path,
        fresh.source_time_ms,
    ) by {
        if k == after_hit.len() - 1 {
            assert(after_hit[k] == s[i]);
        } else if k < i {
            assert(after_hit[k] == s[k]);
        } else {
            assert(after_hit[k] == s[k + 1]);
        }
    }
    assert(unique_keys(after_hit)) by {
        assert forall|a: int, b: int| 0 <= a < b < after_hit.len() implies !entry_matches(
            #[trigger] after_hit[b],
            (#[trigger] after_hit[a]).file_path,
            after_hit[a].source_time_ms,
        ) by {
            let sa = if a == after_hit.len() - 1 {
                i
            } else if a < i {
                a
            } else {
                a + 1
            };
            let sb = if b == after_hit.len() - 1 {
                i
            } else if b < i {
                b
            } else {
                b + 1
            };
            assert(after_hit[a] == s[sa]);
            assert(after_hit[b] == s[sb]);
            if sa < sb {
                assert(!entry_matches(s[sb], s[sa].file_path, s[sa].source_time_ms));
            } else {
                assert(!entry_matches(s[sa], s[sb].file_path, s[sb].source_time_ms));
            }
        }
    }
    lemma_cache_lru_eviction(after_hit, max_e, max_b, fresh);
    let result = put_model(after_hit, max_e, max_b, fresh);
    assert(after_hit.last() == s[i]);
    assert(result == after_hit.drop_first().push(fresh));
    assert(result[result.len() - 2] == s[i]);
}

} // verus!
