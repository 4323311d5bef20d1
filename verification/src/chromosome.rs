//! Chromosomes: an ordered gene sequence mapped onto the row-major pixel
//! grid, with a cached fitness score, and the fitness evaluator that scores a
//! chromosome against the target image.

use vstd::prelude::*;

use crate::gene::mutate3_ok;
use crate::gene::GeneType;
use crate::target::TargetImage;

verus! {

/// Largest error one pixel can contribute: three channels of at most 255.
pub const MAX_PIXEL_ERROR: i64 = 765;

/// The absolute difference of two channel values.
pub open spec fn abs_diff(a: u8, b: u8) -> int {
    if a >= b {
        a - b
    } else {
        b - a
    }
}

/// One pixel's error: the per-channel absolute differences, summed.
pub open spec fn gene_error(g: GeneType, t: GeneType) -> int {
    abs_diff(g.r, t.r) + abs_diff(g.g, t.g) + abs_diff(g.b, t.b)
}

/// The summed pixel error over target indices in [lo, hi).
pub open spec fn error_range(genes: Seq<GeneType>, target: Seq<GeneType>, lo: int, hi: int) -> int
    decreases hi - lo,
{
    if lo >= hi {
        0
    } else {
        error_range(genes, target, lo, hi - 1) + gene_error(genes[hi - 1], target[hi - 1])
    }
}

/// The total error of a chromosome against the whole target. The target's
/// own pixel count is the iteration bound: genes beyond it contribute
/// nothing.
pub open spec fn total_error(genes: Seq<GeneType>, target: Seq<GeneType>) -> int {
    error_range(genes, target, 0, target.len() as int)
}

/// Every gene's relation to its pre-mutation value: same count, and each
/// gene moved only as one three-channel mutation call allows.
pub open spec fn mutated_genes(pre: Seq<GeneType>, post: Seq<GeneType>) -> bool {
    &&& post.len() == pre.len()
    &&& forall|i: int| 0 <= i < pre.len() ==> mutate3_ok(pre[i], #[trigger] post[i])
}

/// Partitioning law: the error over [lo, hi) is the error over [lo, mid)
/// plus the error over [mid, hi), so partial sums over any chunking of the
/// pixel index range add up to exactly the total error.
pub proof fn lemma_error_range_split(
    genes: Seq<GeneType>,
    target: Seq<GeneType>,
    lo: int,
    mid: int,
    hi: int,
)
    requires
        lo <= mid <= hi,
    ensures
        error_range(genes, target, lo, hi) == error_range(genes, target, lo, mid) + error_range(
            genes,
            target,
            mid,
            hi,
        ),
    decreases hi - mid,
{
    if mid < hi {
        lemma_error_range_split(genes, target, lo, mid, hi - 1);
    }
}

/// Each pixel contributes between 0 and MAX_PIXEL_ERROR to the error.
pub proof fn lemma_error_range_bounds(genes: Seq<GeneType>, target: Seq<GeneType>, lo: int, hi: int)
    requires
        lo <= hi,
    ensures
        0 <= error_range(genes, target, lo, hi),
        error_range(genes, target, lo, hi) <= (hi - lo) * (MAX_PIXEL_ERROR as int),
    decreases hi - lo,
{
    if lo < hi {
        lemma_error_range_bounds(genes, target, lo, hi - 1);
    }
}

proof fn lemma_zero_error_range(genes: Seq<GeneType>, target: Seq<GeneType>, n: int)
    requires
        0 <= n <= target.len() <= genes.len(),
    ensures
        error_range(genes, target, 0, n) == 0 <==> (forall|i: int|
            0 <= i < n ==> genes[i] == target[i]),
    decreases n,
{
    if n > 0 {
        lemma_zero_error_range(genes, target, n - 1);
        lemma_error_range_bounds(genes, target, 0, n - 1);
        if error_range(genes, target, 0, n) == 0 {
            assert(gene_error(genes[n - 1], target[n - 1]) == 0);
            assert(genes[n - 1] == target[n - 1]);
        }
    }
}

/// Fitness law: the total error is never negative — so fitness, its
/// negation, is never positive — and it is zero exactly when every target
/// pixel is matched channel-for-channel by its gene.
pub proof fn lemma_zero_error_iff_match(genes: Seq<GeneType>, target: Seq<GeneType>)
    requires
        target.len() <= genes.len(),
    ensures
        total_error(genes, target) >= 0,
        total_error(genes, target) == 0 <==> (forall|i: int|
            0 <= i < target.len() ==> genes[i] == target[i]),
{
    lemma_error_range_bounds(genes, target, 0, target.len() as int);
    lemma_zero_error_range(genes, target, target.len() as int);
}

proof fn lemma_error_range_congruent(
    g1: Seq<GeneType>,
    g2: Seq<GeneType>,
    target: Seq<GeneType>,
    lo: int,
    hi: int,
)
    requires
        lo <= hi,
        forall|i: int|
            lo <= i < hi ==> gene_error(g1[i], target[i]) == gene_error(g2[i], target[i]),
    ensures
        error_range(g1, target, lo, hi) == error_range(g2, target, lo, hi),
    decreases hi - lo,
{
    if lo < hi {
        lemma_error_range_congruent(g1, g2, target, lo, hi - 1);
    }
}

/// Fitness law: increasing the absolute difference of one channel of one
/// gene against its target pixel, holding every other channel and gene
/// fixed, strictly increases the total error — so it strictly decreases the
/// fitness.
pub proof fn lemma_fitness_strictly_monotone(
    g1: Seq<GeneType>,
    g2: Seq<GeneType>,
    target: Seq<GeneType>,
    j: int,
    c: int,
)
    requires
        g1.len() == g2.len(),
        target.len() <= g1.len(),
        0 <= j < target.len(),
        0 <= c < 3,
        forall|i: int| 0 <= i < g1.len() && i != j ==> g1[i] == g2[i],
        forall|cc: int|
            0 <= cc < 3 && cc != c ==> crate::gene::channel3(g2[j], cc) == crate::gene::channel3(
                g1[j],
                cc,
            ),
        abs_diff(crate::gene::channel3(g2[j], c), crate::gene::channel3(target[j], c)) > abs_diff(
            crate::gene::channel3(g1[j], c),
            crate::gene::channel3(target[j], c),
        ),
    ensures
        -total_error(g2, target) < -total_error(g1, target),
{
    let a1 = g1[j];
    let a2 = g2[j];
    let tt = target[j];
    assert(crate::gene::channel3(a1, 0) == a1.r && crate::gene::channel3(a1, 1) == a1.g
        && crate::gene::channel3(a1, 2) == a1.b);
    assert(crate::gene::channel3(a2, 0) == a2.r && crate::gene::channel3(a2, 1) == a2.g
        && crate::gene::channel3(a2, 2) == a2.b);
    assert(crate::gene::channel3(tt, 0) == tt.r && crate::gene::channel3(tt, 1) == tt.g
        && crate::gene::channel3(tt, 2) == tt.b);
    assert(gene_error(g2[j], target[j]) > gene_error(g1[j], target[j]));
    let n = target.len() as int;
    assert(error_range(g1, target, j, j) == 0);
    assert(error_range(g2, target, j, j) == 0);
    lemma_error_range_split(g1, target, 0, j, n);
    lemma_error_range_split(g2, target, 0, j, n);
    lemma_error_range_split(g1, target, j, j + 1, n);
    lemma_error_range_split(g2, target, j, j + 1, n);
    lemma_error_range_congruent(g1, g2, target, 0, j);
    lemma_error_range_congruent(g1, g2, target, j + 1, n);
    assert(error_range(g1, target, j, j + 1) == gene_error(g1[j], target[j]));
    assert(error_range(g2, target, j, j + 1) == gene_error(g2[j], target[j]));
}

fn abs_diff_exec(a: u8, b: u8) -> (r: u8)
    ensures
        r as int == abs_diff(a, b),
{
    if a >= b {
        a - b
    } else {
        b - a
    }
}

fn gene_error_exec(g: &GeneType, t: &GeneType) -> (r: i64)
    ensures
        r == gene_error(*g, *t),
        0 <= r <= MAX_PIXEL_ERROR,
{
    let dr = abs_diff_exec(g.r, t.r);
    let dg = abs_diff_exec(g.g, t.g);
    let db = abs_diff_exec(g.b, t.b);
    dr as i64 + dg as i64 + db as i64
}

/// The error that the pixel index chunk [lo, hi) contributes: one partial
/// sum of the partitioned fitness evaluation.
fn chunk_error(genes: &Vec<GeneType>, target: &Vec<GeneType>, lo: usize, hi: usize) -> (r: i64)
    requires
        lo <= hi,
        hi <= target@.len(),
        target@.len() <= genes@.len(),
        (hi - lo) * (MAX_PIXEL_ERROR as int) <= i64::MAX,
    ensures
        r == error_range(genes@, target@, lo as int, hi as int),
        0 <= r <= (hi - lo) * (MAX_PIXEL_ERROR as int),
{
    proof {
        lemma_error_range_bounds(genes@, target@, lo as int, hi as int);
    }
    let mut sum: i64 = 0;
    let mut i: usize = lo;
    while i < hi
        invariant
            lo <= i <= hi <= target@.len() <= genes@.len(),
            (hi - lo) * (MAX_PIXEL_ERROR as int) <= i64::MAX,
            sum == error_range(genes@, target@, lo as int, i as int),
            0 <= sum <= (i - lo) * (MAX_PIXEL_ERROR as int),
        decreases hi - i,
    {
        let ge = gene_error_exec(&genes[i], &target[i]);
        proof {
            assert((i + 1 - lo) * (MAX_PIXEL_ERROR as int) == (i - lo) * (MAX_PIXEL_ERROR as int)
                + MAX_PIXEL_ERROR as int) by (nonlinear_arith);
            assert((i + 1 - lo) * (MAX_PIXEL_ERROR as int) <= (hi - lo) * (MAX_PIXEL_ERROR as int))
                by (nonlinear_arith)
                requires
                    i < hi,
                    lo <= i,
            ;
        }
        sum = sum + ge;
        i = i + 1;
    }
    sum
}

/// A full candidate image genome: an ordered gene sequence over the
/// row-major pixel grid, plus its cached fitness score. Fitness is the
/// negated total error, so it is never positive and 0 means a pixel-exact
/// match.
#[derive(Debug)]
pub struct Chromosome {
    pub genes: Vec<GeneType>,
    pub fitness: i64,
}

impl Clone for Chromosome {
    /// A clone carries the same genes and the same fitness.
    fn clone(&self) -> (r: Self)
        ensures
            r.genes@ == self.genes@,
            r.fitness == self.fitness,
    {
        let mut genes: Vec<GeneType> = Vec::new();
        let mut i: usize = 0;
        while i < self.genes.len()
            invariant
                i <= self.genes@.len(),
                genes@.len() == i,
                forall|j: int| 0 <= j < i ==> genes@[j] == self.genes@[j],
            decreases self.genes@.len() - i,
        {
            genes.push(self.genes[i]);
            i = i + 1;
        }
        proof {
            assert(genes@ =~= self.genes@);
        }
        Chromosome { genes, fitness: self.fitness }
    }
}

impl Chromosome {
    /// A fresh random chromosome: `gene_count` independently generated
    /// genes, fitness starting at zero.
    pub fn new(gene_count: usize) -> (r: Chromosome)
        ensures
            r.genes@.len() == gene_count,
            r.fitness == 0,
    {
        let mut genes: Vec<GeneType> = Vec::new();
        let mut i: usize = 0;
        while i < gene_count
            invariant
                i <= gene_count,
                genes@.len() == i,
            decreases gene_count - i,
        {
            genes.push(GeneType::generate());
            i = i + 1;
        }
        Chromosome { genes, fitness: 0 }
    }

    /// Ordered read access to the genes.
    pub fn genes(&self) -> (r: &Vec<GeneType>)
        ensures
            r@ == self.genes@,
    {
        &self.genes
    }

    /// Ordered in-place access to the genes.
    pub fn genes_mut(&mut self) -> (r: &mut Vec<GeneType>)
        ensures
            r@ == old(self).genes@,
            final(self).genes@ == final(r)@,
            final(self).fitness == old(self).fitness,
    {
        &mut self.genes
    }

    /// The cached fitness score.
    pub fn fitness(&self) -> (r: i64)
        ensures
            r == self.fitness,
    {
        self.fitness
    }

    /// In-place access to the cached fitness score.
    pub fn fitness_mut(&mut self) -> (r: &mut i64)
        ensures
            *r == old(self).fitness,
            final(self).fitness == *final(r),
            final(self).genes@ == old(self).genes@,
    {
        &mut self.fitness
    }

    /// Applies the three-channel mutation to every gene independently. The
    /// gene count never changes, only channel values; with a zero mutation
    /// probability no gene moves at all.
    pub fn mutate_genes(&mut self, mutation_ppm: u32)
        ensures
            mutated_genes(old(self).genes@, final(self).genes@),
            final(self).fitness == old(self).fitness,
            mutation_ppm == 0 ==> final(self).genes@ == old(self).genes@,
    {
        let n = self.genes.len();
        let mut i: usize = 0;
        while i < n
            invariant
                i <= n,
                n == old(self).genes@.len(),
                self.genes@.len() == n,
                self.fitness == old(self).fitness,
                forall|j: int|
                    0 <= j < i ==> mutate3_ok(old(self).genes@[j], #[trigger] self.genes@[j]),
                forall|j: int| i <= j < n ==> self.genes@[j] == old(self).genes@[j],
                mutation_ppm == 0 ==> forall|j: int|
                    0 <= j < i ==> self.genes@[j] == old(self).genes@[j],
            decreases n - i,
        {
            let mut g = self.genes[i];
            g.mutate(mutation_ppm);
            self.genes[i] = g;
            i = i + 1;
        }
        proof {
            if mutation_ppm == 0 {
                assert(self.genes@ =~= old(self).genes@);
            }
        }
    }

    /// Scores this chromosome against the target image: fitness becomes the
    /// negated sum, over every target pixel and channel, of the absolute
    /// difference between the gene and the target pixel. Genes beyond the
    /// target's pixel count contribute zero; a genome shorter than the
    /// target is not tolerated.
    pub fn calculate_fitness(&mut self, target: &TargetImage)
        requires
            target.pixels@.len() <= old(self).genes@.len(),
            target.pixels@.len() * (MAX_PIXEL_ERROR as int) <= i64::MAX,
        ensures
            final(self).genes@ == old(self).genes@,
            final(self).fitness == -total_error(old(self).genes@, target.pixels@),
            final(self).fitness <= 0,
    {
        let e = chunk_error(&self.genes, &target.pixels, 0, target.pixels.len());
        self.fitness = -e;
    }

    /// Scores this chromosome exactly like `calculate_fitness`, but sums the
    /// error chunk by chunk over a partition of the pixel index range into
    /// chunks of `chunk_size`. The chunking never changes the result: the
    /// fitness is identical for every chunk size.
    pub fn calculate_fitness_chunked(&mut self, target: &TargetImage, chunk_size: usize)
        requires
            chunk_size > 0,
            target.pixels@.len() <= old(self).genes@.len(),
            target.pixels@.len() * (MAX_PIXEL_ERROR as int) <= i64::MAX,
        ensures
            final(self).genes@ == old(self).genes@,
            final(self).fitness == -total_error(old(self).genes@, target.pixels@),
            final(self).fitness <= 0,
    {
        let n = target.pixels.len();
        let mut total: i64 = 0;
        let mut lo: usize = 0;
        while lo < n
            invariant
                lo <= n,
                chunk_size > 0,
                n == target.pixels@.len(),
                n <= self.genes@.len(),
                *self == *old(self),
                n * (MAX_PIXEL_ERROR as int) <= i64::MAX,
                total == error_range(self.genes@, target.pixels@, 0, lo as int),
                0 <= total <= lo * (MAX_PIXEL_ERROR as int),
            decreases n - lo,
        {
            let hi = if n - lo < chunk_size {
                n
            } else {
                lo + chunk_size
            };
            proof {
                assert((hi - lo) * (MAX_PIXEL_ERROR as int) <= n * (MAX_PIXEL_ERROR as int))
                    by (nonlinear_arith)
                    requires
                        0 <= lo <= hi <= n,
                ;
            }
            let part = chunk_error(&self.genes, &target.pixels, lo, hi);
            proof {
                lemma_error_range_split(self.genes@, target.pixels@, 0, lo as int, hi as int);
                assert(lo * (MAX_PIXEL_ERROR as int) + (hi - lo) * (MAX_PIXEL_ERROR as int) == hi
                    * (MAX_PIXEL_ERROR as int)) by (nonlinear_arith);
                assert(hi * (MAX_PIXEL_ERROR as int) <= n * (MAX_PIXEL_ERROR as int))
                    by (nonlinear_arith)
                    requires
                        0 <= hi <= n,
                ;
            }
            total = total + part;
            lo = hi;
        }
        self.fitness = -total;
    }
}

} // verus!
