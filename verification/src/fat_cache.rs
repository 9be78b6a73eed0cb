//! Fixed-capacity LRU cache of cluster-sized disk regions, keyed by byte
//! offset. Replacement follows ranks: every entry carries a rank, the ranks
//! always form a permutation of `0..len`, and a higher rank means longer
//! since last use. A lookup hit re-ranks the hit to 0 and increments all
//! strictly-younger-ranked entries; an insertion evicts the entry of highest
//! rank and enters at rank 0.

use vstd::prelude::*;

verus! {

/// Key marking an unoccupied cache slot.
pub const CACHE_EMPTY: usize = usize::MAX;

/// The cluster cache: parallel columns of keys (byte offset of the cached
/// region), ranks (age since last use) and cached bytes.
pub struct FATFilesystemCache {
    keys: Vec<usize>,
    ranks: Vec<u8>,
    datas: Vec<Vec<u8>>,
}

impl FATFilesystemCache {
    /// Number of slots.
    pub closed spec fn len(self) -> int {
        self.keys@.len() as int
    }

    /// Key of slot `i`.
    pub closed spec fn key_at(self, i: int) -> usize {
        self.keys@[i]
    }

    /// Rank of slot `i`: 0 is most recently used.
    pub closed spec fn rank_at(self, i: int) -> int {
        self.ranks@[i] as int
    }

    /// Cached bytes of slot `i`.
    pub closed spec fn data_at(self, i: int) -> Seq<u8> {
        self.datas@[i]@
    }

    /// Whether some slot carries rank `r`.
    pub closed spec fn has_rank(self, r: int) -> bool {
        exists|i: int| 0 <= i < self.len() && #[trigger] self.rank_at(i) == r
    }

    /// Structural invariant: the ranks are a permutation of `0..len`.
    pub closed spec fn wf(self) -> bool {
        &&& 1 <= self.len() <= 256
        &&& self.ranks@.len() == self.len()
        &&& self.datas@.len() == self.len()
        &&& forall|i: int| 0 <= i < self.len() ==> 0 <= #[trigger] self.rank_at(i) < self.len()
        &&& forall|i: int, j: int|
            0 <= i < j < self.len() ==> #[trigger] self.rank_at(i) != #[trigger] self.rank_at(j)
        &&& forall|r: int| 0 <= r < self.len() ==> #[trigger] self.has_rank(r)
    }

    /// Whether some slot holds `key`.
    pub open spec fn contains_key(self, key: usize) -> bool {
        exists|i: int| 0 <= i < self.len() && self.key_at(i) == key
    }

    /// Create a cache with `count` empty slots.
    pub fn new(count: usize) -> (r: FATFilesystemCache)
        requires
            1 <= count <= 256,
        ensures
            r.wf(),
            r.len() == count,
            forall|i: int| 0 <= i < count ==> #[trigger] r.key_at(i) == CACHE_EMPTY,
    {
        let mut keys: Vec<usize> = Vec::new();
        let mut ranks: Vec<u8> = Vec::new();
        let mut datas: Vec<Vec<u8>> = Vec::new();
        let mut i: usize = 0;
        while i < count
            invariant
                i <= count,
                count <= 256,
                keys@.len() == i,
                ranks@.len() == i,
                datas@.len() == i,
                forall|j: int| 0 <= j < i ==> keys@[j] == CACHE_EMPTY,
                forall|j: int| 0 <= j < i ==> ranks@[j] == j,
            decreases count - i,
        {
            keys.push(CACHE_EMPTY);
            ranks.push(i as u8);
            datas.push(Vec::new());
            i = i + 1;
        }
        let r = FATFilesystemCache { keys, ranks, datas };
        proof {
            assert forall|rk: int| 0 <= rk < r.len() implies #[trigger] r.has_rank(rk) by {
                assert(r.rank_at(rk) == rk);
            }
        }
        r
    }

    /// Re-rank slot `index` as most recently used: it moves to rank 0 and
    /// every entry whose rank was strictly lower moves one rank up. Keys and
    /// cached bytes do not change.
    fn touch(&mut self, index: usize)
        requires
            old(self).wf(),
            index < old(self).len(),
        ensures
            final(self).wf(),
            final(self).len() == old(self).len(),
            forall|i: int|
                0 <= i < old(self).len() ==> #[trigger] final(self).key_at(i) == old(
                    self,
                ).key_at(i),
            forall|i: int|
                0 <= i < old(self).len() ==> #[trigger] final(self).data_at(i) == old(
                    self,
                ).data_at(i),
            final(self).rank_at(index as int) == 0,
            forall|i: int|
                0 <= i < old(self).len() && i != index ==> #[trigger] final(self).rank_at(i)
                    == (if old(self).rank_at(i) < old(self).rank_at(index as int) {
                    old(self).rank_at(i) + 1
                } else {
                    old(self).rank_at(i)
                }),
    {
        let ghost pre = *self;
        let ghost r0 = pre.rank_at(index as int);
        let old_rank = self.ranks[index];
        let n = self.ranks.len();
        let mut j: usize = 0;
        while j < n
            invariant
                n == pre.len(),
                index < n,
                j <= n,
                old_rank == pre.rank_at(index as int),
                r0 == pre.rank_at(index as int),
                self.keys == pre.keys,
                self.datas == pre.datas,
                self.ranks@.len() == n,
                forall|i: int|
                    0 <= i < n ==> #[trigger] self.rank_at(i) == (if i < j && i != index
                        && pre.rank_at(i) < r0 {
                        pre.rank_at(i) + 1
                    } else {
                        pre.rank_at(i)
                    }),
                pre.wf(),
            decreases n - j,
        {
            proof {
                assert(self.rank_at(j as int) == pre.rank_at(j as int));
            }
            if j != index {
                let rj = self.ranks[j];
                if rj < old_rank {
                    let ghost mid = *self;
                    self.ranks.set(j, rj + 1);
                    proof {
                        assert(self.rank_at(j as int) == pre.rank_at(j as int) + 1);
                        assert forall|i: int| 0 <= i < n && i != j implies #[trigger] self.rank_at(
                            i,
                        ) == mid.rank_at(i) by {}
                    }
                }
            }
            j = j + 1;
        }
        let ghost mid = *self;
        self.ranks.set(index, 0);
        proof {
            assert(self.rank_at(index as int) == 0);
            assert forall|i: int| 0 <= i < n && i != index implies #[trigger] self.rank_at(i)
                == mid.rank_at(i) by {}
            let post = *self;
            assert forall|rk: int| 0 <= rk < post.len() implies #[trigger] post.has_rank(rk) by {
                if rk == 0 {
                    assert(post.rank_at(index as int) == 0);
                } else if rk <= r0 {
                    assert(pre.has_rank(rk - 1));
                    let w = choose|i: int|
                        0 <= i < pre.len() && #[trigger] pre.rank_at(i) == rk - 1;
                    assert(w != index);
                    assert(mid.rank_at(w) == rk);
                    assert(post.rank_at(w) == rk);
                } else {
                    assert(pre.has_rank(rk));
                    let w = choose|i: int| 0 <= i < pre.len() && #[trigger] pre.rank_at(i) == rk;
                    assert(w != index);
                    assert(mid.rank_at(w) == rk);
                    assert(post.rank_at(w) == rk);
                }
            }
        }
    }

    /// Look `key` up. On a hit the cached bytes are returned and the hit
    /// slot is re-ranked to 0, ageing every strictly younger-ranked entry by
    /// one; keys and cached bytes never change. On a miss nothing changes.
    pub fn find(&mut self, key: usize) -> (r: Option<Vec<u8>>)
        requires
            old(self).wf(),
            key != CACHE_EMPTY,
        ensures
            final(self).wf(),
            final(self).len() == old(self).len(),
            forall|i: int|
                0 <= i < old(self).len() ==> #[trigger] final(self).key_at(i) == old(
                    self,
                ).key_at(i),
            forall|i: int|
                0 <= i < old(self).len() ==> #[trigger] final(self).data_at(i) == old(
                    self,
                ).data_at(i),
            r is Some <==> old(self).contains_key(key),
            r is None ==> *final(self) == *old(self),
            r matches Some(v) ==> exists|i: int|
                {
                    &&& 0 <= i < old(self).len()
                    &&& #[trigger] old(self).key_at(i) == key
                    &&& v@ == old(self).data_at(i)
                    &&& final(self).rank_at(i) == 0
                    &&& forall|j: int|
                        0 <= j < old(self).len() && j != i ==> #[trigger] final(self).rank_at(j)
                            == (if old(self).rank_at(j) < old(self).rank_at(i) {
                            old(self).rank_at(j) + 1
                        } else {
                            old(self).rank_at(j)
                        })
                },
    {
        let n = self.keys.len();
        let mut idx: usize = 0;
        while idx < n
            invariant
                *self == *old(self),
                self.wf(),
                key != CACHE_EMPTY,
                n == self.len(),
                idx <= n,
                forall|i: int| 0 <= i < idx ==> #[trigger] self.key_at(i) != key,
            decreases n - idx,
        {
            if self.keys[idx] == key {
                let item = &self.datas[idx];
                let m = item.len();
                let mut out: Vec<u8> = Vec::new();
                let mut k: usize = 0;
                while k < m
                    invariant
                        *self == *old(self),
                        idx < self.len(),
                        m == self.data_at(idx as int).len(),
                        k <= m,
                        out@ =~= self.data_at(idx as int).take(k as int),
                        self.wf(),
                    decreases m - k,
                {
                    out.push(self.datas[idx][k]);
                    k = k + 1;
                }
                proof {
                    assert(out@ =~= self.data_at(idx as int));
                    assert(old(self).key_at(idx as int) == key);
                    assert(old(self).contains_key(key));
                }
                self.touch(idx);
                return Some(out);
            }
            idx = idx + 1;
        }
        None
    }

    /// How `add` changes the cache: some slot `e` that carried the maximal
    /// rank (the least recently used entry) is replaced by the new entry at
    /// rank 0, and every other entry survives unchanged, aged by one rank.
    pub open spec fn add_transition(pre: Self, post: Self, key: usize, data: Seq<u8>) -> bool {
        &&& post.len() == pre.len()
        &&& exists|e: int|
            {
                &&& 0 <= e < pre.len()
                &&& pre.rank_at(e) == pre.len() - 1
                &&& #[trigger] post.key_at(e) == key
                &&& post.data_at(e) == data
                &&& post.rank_at(e) == 0
                &&& forall|i: int|
                    0 <= i < pre.len() && i != e ==> #[trigger] post.key_at(i) == pre.key_at(i)
                        && post.data_at(i) == pre.data_at(i) && post.rank_at(i) == pre.rank_at(i)
                        + 1
            }
    }

    /// Insert `data` under `key`: the slot of highest rank (the least
    /// recently used) is evicted and the new entry enters at rank 0, aging
    /// every other entry by one. The key must not already be cached, so
    /// that no key ever occupies two slots; callers insert only after a
    /// failed `find`.
    pub fn add(&mut self, key: usize, data: Vec<u8>)
        requires
            old(self).wf(),
            key != CACHE_EMPTY,
            !old(self).contains_key(key),
        ensures
            final(self).wf(),
            final(self).len() == old(self).len(),
            Self::add_transition(*old(self), *final(self), key, data@),
    {
        let n = self.keys.len();
        /* Find the highest-ranked (oldest) entry */
        let mut entry: usize = 0;
        let mut idx: usize = 1;
        while idx < n
            invariant
                *self == *old(self),
                self.wf(),
                n == self.len(),
                entry < n,
                1 <= idx <= n,
                forall|i: int| 0 <= i < idx ==> #[trigger] self.rank_at(i) <= self.rank_at(
                    entry as int,
                ),
            decreases n - idx,
        {
            proof {
                assert(self.rank_at(idx as int) == self.ranks@[idx as int]);
            }
            if self.ranks[idx] > self.ranks[entry] {
                entry = idx;
            }
            idx = idx + 1;
        }
        proof {
            /* The maximal rank is len - 1, since the ranks are a
             * permutation of 0..len. */
            assert(self.has_rank(self.len() - 1));
            let w = choose|i: int|
                0 <= i < self.len() && #[trigger] self.rank_at(i) == self.len() - 1;
            assert(self.rank_at(w) <= self.rank_at(entry as int));
            assert(self.rank_at(entry as int) == self.len() - 1);
        }
        self.keys.set(entry, key);
        self.datas.set(entry, data);
        let ghost mid = *self;
        proof {
            assert forall|i: int| 0 <= i < mid.len() implies #[trigger] mid.rank_at(i) == old(
                self,
            ).rank_at(i) by {}
            assert forall|r: int| 0 <= r < mid.len() implies #[trigger] mid.has_rank(r) by {
                assert(old(self).has_rank(r));
                let w = choose|i: int|
                    0 <= i < old(self).len() && #[trigger] old(self).rank_at(i) == r;
                assert(mid.rank_at(w) == r);
            }
            assert(mid.wf());
        }
        self.touch(entry);
        proof {
            assert(self.key_at(entry as int) == key);
            assert(self.data_at(entry as int) == data@);
            assert forall|i: int| 0 <= i < n && i != entry implies #[trigger] self.key_at(i)
                == old(self).key_at(i) && self.data_at(i) == old(self).data_at(i)
                && self.rank_at(i) == old(self).rank_at(i) + 1 by {
                assert(mid.key_at(i) == old(self).key_at(i));
                assert(mid.data_at(i) == old(self).data_at(i));
                assert(old(self).rank_at(i) != old(self).rank_at(entry as int));
                assert(mid.rank_at(i) < mid.rank_at(entry as int));
            }
        }
    }
}

/// LRU eviction law: inserting a fresh key into a cache holding distinct
/// keys evicts exactly one of them — the least-recently-touched one, whose
/// slot carries the maximal rank — while the new key and every other old key
/// are present afterwards. `pre` and `post` are the cache before and after
/// the insertion, related by `add`'s contract.
pub proof fn lemma_lru_eviction(
    pre: FATFilesystemCache,
    post: FATFilesystemCache,
    key: usize,
    data: Seq<u8>,
)
    requires
        pre.wf(),
        FATFilesystemCache::add_transition(pre, post, key, data),
        forall|i: int, j: int|
            0 <= i < j < pre.len() ==> #[trigger] pre.key_at(i) != #[trigger] pre.key_at(j),
        !pre.contains_key(key),
    ensures
        post.contains_key(key),
        exists|e: int|
            {
                &&& 0 <= e < pre.len()
                &&& #[trigger] pre.rank_at(e) == pre.len() - 1
                &&& !post.contains_key(pre.key_at(e))
                &&& forall|j: int|
                    0 <= j < pre.len() && j != e ==> post.contains_key(#[trigger] pre.key_at(j))
            },
{
    let e = choose|e: int|
        {
            &&& 0 <= e < pre.len()
            &&& pre.rank_at(e) == pre.len() - 1
            &&& #[trigger] post.key_at(e) == key
            &&& post.data_at(e) == data
            &&& post.rank_at(e) == 0
            &&& forall|i: int|
                0 <= i < pre.len() && i != e ==> #[trigger] post.key_at(i) == pre.key_at(i)
                    && post.data_at(i) == pre.data_at(i) && post.rank_at(i) == pre.rank_at(i) + 1
        };
    assert(post.key_at(e) == key);
    assert(post.contains_key(key));
    let victim = pre.key_at(e);
    assert(victim != key);
    assert(!post.contains_key(victim)) by {
        assert forall|i: int| 0 <= i < post.len() implies post.key_at(i) != victim by {
            if i == e {
            } else {
                assert(post.key_at(i) == pre.key_at(i));
                assert(pre.key_at(i) != pre.key_at(e));
            }
        }
    }
    assert forall|j: int| 0 <= j < pre.len() && j != e implies post.contains_key(
        #[trigger] pre.key_at(j),
    ) by {
        assert(post.key_at(j) == pre.key_at(j));
    }
}

} // verus!
