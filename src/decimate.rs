//! Box-filter decimation of the synthesized signal into a fixed snapshot grid
//! for the visualizer.
use vstd::prelude::*;

use crate::sample::div_floor;

verus! {

/// Snapshots are refreshed at this rate.
pub const VISUAL_FPS: u32 = 60;

/// Rows of the snapshot grid.
pub const SNAPSHOT_ROWS: usize = 256;

/// Values per row of the snapshot grid.
pub const SNAPSHOT_COLS: usize = 16;

/// Cells of the snapshot grid, row by row.
pub const SNAPSHOT_CELLS: usize = 4096;

/// At most this many decimated values go into one snapshot.
pub const MAX_DECIMATED: usize = 256;

/// The sum of a sequence of samples.
pub open spec fn seq_sum(s: Seq<i32>) -> int
    decreases s.len(),
{
    if s.len() == 0 {
        0
    } else {
        seq_sum(s.drop_last()) + s.last() as int
    }
}

/// Chunk `c` of `acc` for chunks of `k` samples: the last one may be shorter.
pub open spec fn chunk(acc: Seq<i32>, k: int, c: int) -> Seq<i32> {
    let end = if (c + 1) * k < acc.len() {
        (c + 1) * k
    } else {
        acc.len() as int
    };
    acc.subrange(c * k, end)
}

/// The number of chunks of `k` samples that `acc` splits into.
pub open spec fn chunk_count(len: int, k: int) -> int {
    (len + k - 1) / k
}

/// The average of chunk `c`, rounded down.
pub open spec fn chunk_average(acc: Seq<i32>, k: int, c: int) -> int {
    seq_sum(chunk(acc, k, c)) / chunk(acc, k, c).len() as int
}

/// Cell `i` of the snapshot of `acc`: the first decimated values, at most
/// `MAX_DECIMATED` of them, row by row, and zero after them.
pub open spec fn snapshot_cell(acc: Seq<i32>, k: int, i: int) -> int {
    if i < chunk_count(acc.len() as int, k) && i < MAX_DECIMATED {
        chunk_average(acc, k, i)
    } else {
        0
    }
}

/// The number of samples averaged into each decimated value at a sample rate.
pub open spec fn downsample_factor_for(sample_rate: int) -> int {
    sample_rate / VISUAL_FPS as int
}

/// A 256 x 16 grid of decimated values, stored row by row.
#[derive(Debug)]
pub struct DownsampledAudioData {
    samples: Vec<i32>,
}

impl DownsampledAudioData {
    pub closed spec fn wf(&self) -> bool {
        self.samples@.len() == SNAPSHOT_CELLS
    }

    /// The cells, row by row.
    pub closed spec fn cells(&self) -> Seq<i32> {
        self.samples@
    }

    /// An all-zero grid.
    pub fn new() -> (r: Self)
        ensures
            r.wf(),
            forall|i: int| 0 <= i < SNAPSHOT_CELLS ==> #[trigger] r.cells()[i] == 0,
    {
        DownsampledAudioData { samples: vec![0; SNAPSHOT_CELLS] }
    }

    /// The value at a row and column.
    pub fn get(&self, row: usize, col: usize) -> (r: i32)
        requires
            self.wf(),
            row < SNAPSHOT_ROWS,
            col < SNAPSHOT_COLS,
        ensures
            r == self.cells()[row * SNAPSHOT_COLS + col],
    {
        self.samples[row * SNAPSHOT_COLS + col]
    }

    /// The cells, row by row.
    pub fn as_slice(&self) -> (r: &[i32])
        ensures
            r@ == self.cells(),
    {
        self.samples.as_slice()
    }
}

/// The number of samples averaged into each decimated value: the sample rate
/// over the snapshot rate.
pub fn downsample_factor(sample_rate: u32) -> (r: u32)
    ensures
        r == downsample_factor_for(sample_rate as int),
{
    sample_rate / VISUAL_FPS
}

/// Collects samples across blocks and turns them into a snapshot once a full
/// chunk is there.
#[derive(Debug)]
pub struct Decimator {
    downsample_factor: u32,
    accumulated: Vec<i32>,
}

impl Decimator {
    pub closed spec fn wf(&self) -> bool {
        &&& self.downsample_factor > 0
        &&& self.accumulated@.len() < self.downsample_factor
    }

    pub closed spec fn factor(&self) -> int {
        self.downsample_factor as int
    }

    /// Samples collected since the last snapshot.
    pub closed spec fn pending(&self) -> Seq<i32> {
        self.accumulated@
    }

    /// A decimator that averages chunks of `downsample_factor` samples.
    pub fn new(downsample_factor: u32) -> (r: Self)
        requires
            downsample_factor > 0,
        ensures
            r.wf(),
            r.factor() == downsample_factor,
            r.pending().len() == 0,
    {
        Decimator { downsample_factor, accumulated: Vec::new() }
    }

    /// Average of `acc[start..end]`, rounded down.
    fn average(acc: &Vec<i32>, start: usize, end: usize) -> (r: i32)
        requires
            start < end <= acc@.len(),
            end - start <= u32::MAX,
        ensures
            r == seq_sum(acc@.subrange(start as int, end as int)) / (end - start) as int,
    {
        let mut sum: i64 = 0;
        let mut i: usize = start;
        while i < end
            invariant
                start <= i <= end,
                end <= acc@.len(),
                end - start <= u32::MAX,
                sum == seq_sum(acc@.subrange(start as int, i as int)),
                (i - start) * i32::MIN <= sum <= (i - start) * i32::MAX,
            decreases end - i,
        {
            proof {
                assert(acc@.subrange(start as int, i + 1).drop_last() =~= acc@.subrange(
                    start as int,
                    i as int,
                ));
                assert((i + 1 - start) * i32::MAX <= 4294967296 * 2147483648) by (nonlinear_arith)
                    requires
                        i + 1 - start <= 4294967295,
                ;
            }
            sum = sum + acc[i] as i64;
            i = i + 1;
        }
        let len: i64 = (end - start) as i64;
        proof {
            let q = sum as int / len as int;
            assert(i32::MIN <= q <= i32::MAX) by (nonlinear_arith)
                requires
                    len * i32::MIN <= sum <= len * i32::MAX,
                    len > 0,
                    q == sum as int / len as int,
            ;
        }
        div_floor(sum, len) as i32
    }

    /// Adds a block of samples. Once at least one full chunk is collected,
    /// the collected samples are split into chunks, each chunk is averaged,
    /// the snapshot is overwritten with the first averages, and collection
    /// starts over; the result tells whether that happened.
    pub fn push(&mut self, samples: &Vec<i32>, snapshot: &mut DownsampledAudioData) -> (r: bool)
        requires
            old(self).wf(),
            old(snapshot).wf(),
        ensures
            final(self).wf(),
            final(snapshot).wf(),
            final(self).factor() == old(self).factor(),
            r == (old(self).pending().len() + samples@.len() >= old(self).factor()),
            r ==> final(self).pending().len() == 0 && forall|i: int|
                0 <= i < SNAPSHOT_CELLS ==> #[trigger] final(snapshot).cells()[i] == snapshot_cell(
                    old(self).pending() + samples@,
                    old(self).factor(),
                    i,
                ),
            !r ==> final(self).pending() == old(self).pending() + samples@ && *final(snapshot)
                == *old(snapshot),
    {
        let ghost acc0 = self.accumulated@ + samples@;
        let mut i: usize = 0;
        while i < samples.len()
            invariant
                i <= samples@.len(),
                self.accumulated@ == old(self).accumulated@ + samples@.subrange(0, i as int),
                self.downsample_factor == old(self).downsample_factor,
            decreases samples@.len() - i,
        {
            self.accumulated.push(samples[i]);
            proof {
                assert(samples@.subrange(0, i + 1) =~= samples@.subrange(0, i as int).push(samples@[i as int]));
            }
            i = i + 1;
        }
        assert(samples@.subrange(0, samples@.len() as int) =~= samples@);
        let k = self.downsample_factor as usize;
        let total = self.accumulated.len();
        if total < k {
            return false;
        }
        let acc = &self.accumulated;
        let mut cells: Vec<i32> = Vec::new();
        let mut c: usize = 0;
        while c < SNAPSHOT_CELLS
            invariant
                c <= SNAPSHOT_CELLS,
                k > 0,
                k <= u32::MAX,
                total == acc@.len(),
                acc@ == acc0,
                cells@.len() == c,
                forall|i: int| 0 <= i < c ==> #[trigger] cells@[i] == snapshot_cell(acc0, k as int, i),
            decreases SNAPSHOT_CELLS - c,
        {
            let start: usize = if c <= total / k {
                proof {
                    assert(c * k <= total) by (nonlinear_arith)
                        requires
                            c <= total as int / (k as int),
                            k > 0,
                    {
                        vstd::arithmetic::div_mod::lemma_fundamental_div_mod(total as int, k as int);
                    }
                }
                c * k
            } else {
                total
            };
            proof {
                vstd::arithmetic::div_mod::lemma_fundamental_div_mod(total as int, k as int);
                vstd::arithmetic::div_mod::lemma_fundamental_div_mod((total + k - 1) as int, k as int);
            }
            if c < MAX_DECIMATED && start < total {
                let end: usize = if k < total - start { start + k } else { total };
                proof {
                    assert((c + 1) * k == c * k + k) by (nonlinear_arith);
                    assert(chunk(acc0, k as int, c as int) == acc@.subrange(start as int, end as int));
                }
                proof {
                    assert(c < chunk_count(total as int, k as int)) by (nonlinear_arith)
                        requires
                            start == c * k,
                            start < total,
                            k > 0,
                    {
                        vstd::arithmetic::div_mod::lemma_fundamental_div_mod((total + k - 1) as int, k as int);
                    }
                }
                cells.push(Self::average(acc, start, end));
            } else {
                proof {
                    if c < MAX_DECIMATED && c < chunk_count(total as int, k as int) {
                        assert(c * k < total) by (nonlinear_arith)
                            requires
                                c < (total + k - 1) as int / (k as int),
                                k > 0,
                        {
                            vstd::arithmetic::div_mod::lemma_fundamental_div_mod((total + k - 1) as int, k as int);
                        }
                        assert(c <= total / k) by (nonlinear_arith)
                            requires
                                c * k < total,
                                k > 0,
                        {
                            vstd::arithmetic::div_mod::lemma_fundamental_div_mod(total as int, k as int);
                        }
                    }
                }
                cells.push(0);
            }
            c = c + 1;
        }
        snapshot.samples = cells;
        self.accumulated = Vec::new();
        true
    }
}

/// A block of `k` samples, all equal to `c`.
pub open spec fn constant_block(c: i32, k: int) -> Seq<i32> {
    Seq::new(k as nat, |i: int| c)
}

/// Exactly `k` samples equal to `c`, decimated by `k`, give one value, `c`:
/// the snapshot holds `c` in its first cell and zero in all others.
pub proof fn lemma_constant_chunk(c: i32, k: int)
    requires
        k > 0,
    ensures
        chunk_count(k, k) == 1,
        snapshot_cell(constant_block(c, k), k, 0) == c,
        forall|i: int| 1 <= i < SNAPSHOT_CELLS ==> #[trigger] snapshot_cell(constant_block(c, k), k, i) == 0,
{
    let s = constant_block(c, k);
    assert(chunk(s, k, 0) =~= s);
    lemma_constant_sum(c, k as nat);
    assert((k + k - 1) / k == 1) by (nonlinear_arith)
        requires
            k > 0,
    {
        vstd::arithmetic::div_mod::lemma_fundamental_div_mod(k + k - 1, k);
    }
    assert(k * c / k == c) by (nonlinear_arith)
        requires
            k > 0,
    ;
}

/// `n` copies of `c` sum to `n * c`.
proof fn lemma_constant_sum(c: i32, n: nat)
    ensures
        seq_sum(Seq::new(n, |i: int| c)) == n * c,
    decreases n,
{
    if n > 0 {
        let s = Seq::new(n, |i: int| c);
        let t = Seq::new((n - 1) as nat, |i: int| c);
        assert(s.drop_last() =~= t);
        assert(s.last() == c);
        lemma_constant_sum(c, (n - 1) as nat);
        assert(seq_sum(t) == (n - 1) * c);
        assert(seq_sum(s) == seq_sum(t) + c);
        assert(n * c == (n - 1) * c + c) by (nonlinear_arith);
        assert(seq_sum(s) == n * c);
    } else {
        assert(Seq::new(n, |i: int| c).len() == 0);
        assert(n * c == 0);
    }
}

} // verus!
