//! The sector-map format: a sequence of 512-byte chunks, each holding 127
//! `{sector, count}` run entries, a next-chunk field and a reserved pad.
//! The map is produced offline by a host utility and consumed by the first
//! stage; the runtime core does not read it. Here is the format's compute
//! core: compressing a file's cluster list into runs of consecutive
//! sectors and packing the runs into chunks. The host utility wraps file
//! I/O around it.

use vstd::prelude::*;

verus! {

/// Number of run entries in one 512-byte chunk: `(512 - 4) / 4`.
pub const SECTOR_MAP_ENTRIES: usize = 127;

/// One run of consecutive sectors: the first sector and how many clusters
/// long the run is.
#[derive(Clone, Copy, Debug, PartialEq, Eq, Structural)]
pub struct SectorMapEntry {
    pub sector: u16,
    pub count: u16,
}

/// One 512-byte chunk of the map: exactly 127 entries (zero-padded past
/// the last run), the next-chunk field the second stage patches on disk,
/// and a reserved pad.
pub struct SectorMapChunk {
    pub entries: Vec<SectorMapEntry>,
    pub next_chunk: u16,
    pub reserved: u16,
}

/// The first sector of the cluster at byte offset `c`.
pub open spec fn spec_sector_of(c: u32, cluster_size: u32, spc: u16) -> int {
    (c / cluster_size) * spc
}

/// The run-length compression of a cluster list: consecutive byte offsets
/// (each the previous plus one cluster) extend the current run, anything
/// else starts a new one.
pub open spec fn spec_runs(clusters: Seq<u32>, cluster_size: u32, spc: u16) -> Seq<
    SectorMapEntry,
>
    decreases clusters.len(),
{
    if clusters.len() == 0 {
        Seq::empty()
    } else if clusters.len() == 1 {
        seq![
            SectorMapEntry {
                sector: spec_sector_of(clusters[0], cluster_size, spc) as u16,
                count: 1,
            },
        ]
    } else {
        let prev = spec_runs(clusters.drop_last(), cluster_size, spc);
        if clusters.last() == clusters[clusters.len() - 2] + cluster_size {
            prev.update(
                prev.len() - 1,
                SectorMapEntry {
                    sector: prev.last().sector,
                    count: (prev.last().count + 1) as u16,
                },
            )
        } else {
            prev.push(
                SectorMapEntry {
                    sector: spec_sector_of(clusters.last(), cluster_size, spc) as u16,
                    count: 1,
                },
            )
        }
    }
}

/// A nonempty cluster list compresses to at least one and at most
/// `clusters.len()` runs, and no run is longer than the cluster list.
proof fn lemma_runs_counts_bounded(clusters: Seq<u32>, cluster_size: u32, spc: u16)
    requires
        clusters.len() <= 0xFFFF,
    ensures
        spec_runs(clusters, cluster_size, spc).len() <= clusters.len(),
        clusters.len() >= 1 ==> spec_runs(clusters, cluster_size, spc).len() >= 1,
        forall|i: int|
            0 <= i < spec_runs(clusters, cluster_size, spc).len() ==> 1 <= (#[trigger] spec_runs(
                clusters,
                cluster_size,
                spc,
            )[i]).count <= clusters.len(),
    decreases clusters.len(),
{
    if clusters.len() <= 1 {
    } else {
        let prev_c = clusters.drop_last();
        lemma_runs_counts_bounded(prev_c, cluster_size, spc);
        let prev = spec_runs(prev_c, cluster_size, spc);
        let cur = spec_runs(clusters, cluster_size, spc);
        assert(prev.len() >= 1);
        assert forall|i: int| 0 <= i < cur.len() implies 1 <= (#[trigger] cur[i]).count
            <= clusters.len() by {
            if clusters.last() == clusters[clusters.len() - 2] + cluster_size {
                if i == prev.len() - 1 {
                    assert(prev[i].count <= prev_c.len());
                } else {
                    assert(cur[i] == prev[i]);
                }
            } else {
                if i < prev.len() {
                    assert(cur[i] == prev[i]);
                }
            }
        }
    }
}

/// Whether every cluster offset maps to a sector number that fits the
/// 16-bit entry field.
pub open spec fn spec_sectors_fit(clusters: Seq<u32>, cluster_size: u32, spc: u16) -> bool {
    forall|i: int|
        0 <= i < clusters.len() ==> spec_sector_of(#[trigger] clusters[i], cluster_size, spc)
            <= 0xFFFF
}

/// Compress a file's cluster list into sector runs.
fn build_runs(clusters: &Vec<u32>, cluster_size: u32, spc: u16) -> (r: Vec<SectorMapEntry>)
    requires
        1 <= cluster_size,
        clusters@.len() <= 0xFFFF,
        spec_sectors_fit(clusters@, cluster_size, spc),
    ensures
        r@ == spec_runs(clusters@, cluster_size, spc),
{
    let n = clusters.len();
    let mut runs: Vec<SectorMapEntry> = Vec::new();
    let mut i: usize = 0;
    while i < n
        invariant
            1 <= cluster_size,
            n == clusters@.len() <= 0xFFFF,
            spec_sectors_fit(clusters@, cluster_size, spc),
            i <= n,
            runs@ == spec_runs(clusters@.take(i as int), cluster_size, spc),
        decreases n - i,
    {
        proof {
            assert(clusters@.take(i + 1).drop_last() =~= clusters@.take(i as int));
            assert(clusters@.take(i + 1).last() == clusters@[i as int]);
            lemma_runs_counts_bounded(clusters@.take(i as int), cluster_size, spc);
        }
        if i == 0 {
            let sector: u16 = ((clusters[0] / cluster_size) as u32 * spc as u32) as u16;
            proof {
                assert(spec_sector_of(clusters@[0], cluster_size, spc) <= 0xFFFF);
            }
            runs.push(SectorMapEntry { sector, count: 1 });
            proof {
                assert(runs@ =~= spec_runs(clusters@.take(1), cluster_size, spc));
            }
        } else {
            let prev = clusters[i - 1];
            let cur = clusters[i];
            if prev as u64 + cluster_size as u64 == cur as u64 {
                let last_idx = runs.len() - 1;
                let last = runs[last_idx];
                runs.set(
                    last_idx,
                    SectorMapEntry { sector: last.sector, count: last.count + 1 },
                );
                proof {
                    assert(runs@ =~= spec_runs(clusters@.take(i + 1), cluster_size, spc));
                }
            } else {
                proof {
                    assert(spec_sector_of(clusters@[i as int], cluster_size, spc) <= 0xFFFF);
                }
                let sector: u16 = ((cur / cluster_size) as u32 * spc as u32) as u16;
                runs.push(SectorMapEntry { sector, count: 1 });
                proof {
                    assert(runs@ =~= spec_runs(clusters@.take(i + 1), cluster_size, spc));
                }
            }
        }
        i = i + 1;
    }
    proof {
        assert(clusters@.take(n as int) =~= clusters@);
    }
    runs
}

/// Pack a file's cluster list into sector-map chunks: the runs in order,
/// 127 per chunk, the last chunk zero-padded; every chunk's next-chunk
/// field starts at zero, to be patched on disk by the second stage.
pub fn build_sector_map(clusters: &Vec<u32>, cluster_size: u32, spc: u16) -> (r: Vec<
    SectorMapChunk,
>)
    requires
        1 <= cluster_size,
        1 <= clusters@.len() <= 0xFFFF,
        spec_sectors_fit(clusters@, cluster_size, spc),
    ensures
        ({
            let runs = spec_runs(clusters@, cluster_size, spc);
            &&& r@.len() == (runs.len() + 126) / 127
            &&& forall|c: int|
                0 <= c < r@.len() ==> (#[trigger] r@[c]).entries@.len() == 127 && r@[c].next_chunk
                    == 0 && r@[c].reserved == 0
            &&& forall|k: int|
                0 <= k < runs.len() ==> #[trigger] r@[k / 127].entries@[k % 127] == runs[k]
            &&& forall|k: int|
                runs.len() <= k < r@.len() * 127 ==> #[trigger] r@[k / 127].entries@[k % 127]
                    == (SectorMapEntry { sector: 0, count: 0 })
        }),
{
    let runs = build_runs(clusters, cluster_size, spc);
    let nruns = runs.len();
    proof {
        lemma_runs_counts_bounded(clusters@, cluster_size, spc);
    }
    proof {
        assert(1 <= (nruns + 126) / 127) by (nonlinear_arith)
            requires
                nruns >= 1,
        ;
    }
    let nchunks = (nruns + 126) / 127;
    let mut r: Vec<SectorMapChunk> = Vec::new();
    let mut c: usize = 0;
    while c < nchunks
        invariant
            nruns == spec_runs(clusters@, cluster_size, spc).len(),
            runs@ == spec_runs(clusters@, cluster_size, spc),
            nruns <= 0xFFFF,
            1 <= nchunks == (nruns + 126) / 127,
            c <= nchunks,
            r@.len() == c,
            forall|q: int|
                0 <= q < c ==> (#[trigger] r@[q]).entries@.len() == 127 && r@[q].next_chunk == 0
                    && r@[q].reserved == 0,
            forall|k: int|
                0 <= k < c * 127 && k < nruns ==> #[trigger] r@[k / 127].entries@[k % 127]
                    == runs@[k],
            forall|k: int|
                nruns <= k < c * 127 ==> #[trigger] r@[k / 127].entries@[k % 127]
                    == (SectorMapEntry { sector: 0, count: 0 }),
        decreases nchunks - c,
    {
        let mut entries: Vec<SectorMapEntry> = Vec::new();
        let mut j: usize = 0;
        while j < SECTOR_MAP_ENTRIES
            invariant
                nruns == runs@.len(),
                c * 127 <= 0x1_0000 + 127,
                j <= 127,
                entries@.len() == j,
                forall|q: int|
                    0 <= q < j && c * 127 + q < nruns ==> #[trigger] entries@[q] == runs@[c * 127
                        + q],
                forall|q: int|
                    0 <= q < j && c * 127 + q >= nruns ==> #[trigger] entries@[q]
                        == (SectorMapEntry { sector: 0, count: 0 }),
            decreases 127 - j,
        {
            let k = c * 127 + j;
            if k < nruns {
                entries.push(runs[k]);
            } else {
                entries.push(SectorMapEntry { sector: 0, count: 0 });
            }
            j = j + 1;
        }
        r.push(SectorMapChunk { entries, next_chunk: 0, reserved: 0 });
        proof {
            assert forall|k: int| 0 <= k < (c + 1) * 127 && k < nruns implies #[trigger] r@[k
                / 127].entries@[k % 127] == runs@[k] by {
                if k >= c * 127 {
                    assert(k / 127 == c && k % 127 == k - c * 127) by (nonlinear_arith)
                        requires
                            c * 127 <= k < (c + 1) * 127,
                    ;
                }
            }
            assert forall|k: int| nruns <= k < (c + 1) * 127 implies #[trigger] r@[k
                / 127].entries@[k % 127] == (SectorMapEntry { sector: 0, count: 0 }) by {
                if k >= c * 127 {
                    assert(k / 127 == c && k % 127 == k - c * 127) by (nonlinear_arith)
                        requires
                            c * 127 <= k < (c + 1) * 127,
                    ;
                }
            }
        }
        c = c + 1;
    }
    r
}

} // verus!
