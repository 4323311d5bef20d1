//! The generational driver's verified parts: population construction,
//! scoring, descending fitness sort, the assembly of one generation from the
//! crossover's two children, and reconstruction of the output raster.
//!
//! The crossover itself is the external genetic-algorithm collaborator: the
//! surrounding program produces the two children and hands them in.

use vstd::prelude::*;

use crate::chromosome::mutated_genes;
use crate::chromosome::total_error;
use crate::chromosome::Chromosome;
use crate::chromosome::MAX_PIXEL_ERROR;
use crate::gene::GeneType;
use crate::target::TargetImage;

verus! {

/// The genomes of a population: each chromosome's gene sequence, in order.
pub open spec fn genomes(s: Seq<Chromosome>) -> Seq<Seq<GeneType>> {
    s.map_values(|c: Chromosome| c.genes@)
}

/// Ordered descending by fitness: best-matching individuals first.
pub open spec fn sorted_descending(s: Seq<Chromosome>) -> bool {
    forall|i: int, j: int| 0 <= i <= j < s.len() ==> s[i].fitness >= s[j].fitness
}

/// Every chromosome holds `gene_count` genes and carries the fitness of its
/// own genes against the target.
pub open spec fn scored_population(s: Seq<Chromosome>, target: TargetImage, gene_count: int) -> bool {
    forall|i: int|
        0 <= i < s.len() ==> {
            &&& (#[trigger] s[i]).genes@.len() == gene_count
            &&& s[i].fitness == -total_error(s[i].genes@, target.pixels@)
        }
}

/// A new population of `count` random chromosomes of `gene_count` genes
/// each, all with fitness zero.
pub fn generate_population(count: usize, gene_count: usize) -> (r: Vec<Chromosome>)
    ensures
        r@.len() == count,
        forall|i: int| 0 <= i < count ==> (#[trigger] r@[i]).genes@.len() == gene_count,
        forall|i: int| 0 <= i < count ==> (#[trigger] r@[i]).fitness == 0,
{
    let mut population: Vec<Chromosome> = Vec::new();
    let mut i: usize = 0;
    while i < count
        invariant
            i <= count,
            population@.len() == i,
            forall|j: int| 0 <= j < i ==> (#[trigger] population@[j]).genes@.len() == gene_count,
            forall|j: int| 0 <= j < i ==> (#[trigger] population@[j]).fitness == 0,
        decreases count - i,
    {
        population.push(Chromosome::new(gene_count));
        i = i + 1;
    }
    population
}

/// Scores every individual in the population against the target; the
/// individuals are mutually independent, so any evaluation order gives the
/// same population.
pub fn score_population(population: &mut Vec<Chromosome>, target: &TargetImage)
    requires
        forall|i: int|
            0 <= i < old(population)@.len() ==> target.pixels@.len() <= (#[trigger] old(
                population,
            )@[i]).genes@.len(),
        target.pixels@.len() * (MAX_PIXEL_ERROR as int) <= i64::MAX,
    ensures
        final(population)@.len() == old(population)@.len(),
        forall|i: int|
            0 <= i < old(population)@.len() ==> (#[trigger] final(population)@[i]).genes@ == old(
                population,
            )@[i].genes@,
        forall|i: int|
            0 <= i < old(population)@.len() ==> (#[trigger] final(population)@[i]).fitness
                == -total_error(old(population)@[i].genes@, target.pixels@),
{
    let len = population.len();
    let mut i: usize = 0;
    while i < len
        invariant
            i <= len,
            population@.len() == len == old(population)@.len(),
            target.pixels@.len() * (MAX_PIXEL_ERROR as int) <= i64::MAX,
            forall|j: int|
                0 <= j < len ==> target.pixels@.len() <= (#[trigger] old(
                    population,
                )@[j]).genes@.len(),
            forall|j: int|
                0 <= j < len ==> (#[trigger] population@[j]).genes@ == old(population)@[j].genes@,
            forall|j: int|
                0 <= j < i ==> (#[trigger] population@[j]).fitness == -total_error(
                    old(population)@[j].genes@,
                    target.pixels@,
                ),
        decreases len - i,
    {
        population[i].calculate_fitness(target);
        i = i + 1;
    }
}

/// The individuals of `s` whose fitness is exactly `v`, in their order of
/// appearance: the subsequence a stable sort must keep intact.
pub open spec fn with_fitness(s: Seq<Chromosome>, v: i64) -> Seq<Chromosome>
    decreases s.len(),
{
    if s.len() == 0 {
        Seq::empty()
    } else if s.last().fitness == v {
        with_fitness(s.drop_last(), v).push(s.last())
    } else {
        with_fitness(s.drop_last(), v)
    }
}

proof fn lemma_with_fitness_add(a: Seq<Chromosome>, b: Seq<Chromosome>, v: i64)
    ensures
        with_fitness(a + b, v) == with_fitness(a, v) + with_fitness(b, v),
    decreases b.len(),
{
    if b.len() == 0 {
        assert(a + b =~= a);
        assert(with_fitness(b, v) =~= Seq::<Chromosome>::empty());
        assert(with_fitness(a, v) + with_fitness(b, v) =~= with_fitness(a, v));
    } else {
        lemma_with_fitness_add(a, b.drop_last(), v);
        assert((a + b).drop_last() =~= a + b.drop_last());
        assert((a + b).last() == b.last());
        if b.last().fitness == v {
            assert(with_fitness(a + b, v) == with_fitness(a + b.drop_last(), v).push(b.last()));
            assert(with_fitness(b, v) == with_fitness(b.drop_last(), v).push(b.last()));
            assert((with_fitness(a, v) + with_fitness(b.drop_last(), v)).push(b.last())
                =~= with_fitness(a, v) + with_fitness(b.drop_last(), v).push(b.last()));
        } else {
            assert(with_fitness(a + b, v) == with_fitness(a + b.drop_last(), v));
            assert(with_fitness(b, v) == with_fitness(b.drop_last(), v));
        }
    }
}

proof fn lemma_with_fitness_none(s: Seq<Chromosome>, v: i64)
    requires
        forall|i: int| 0 <= i < s.len() ==> (#[trigger] s[i]).fitness != v,
    ensures
        with_fitness(s, v) == Seq::<Chromosome>::empty(),
    decreases s.len(),
{
    if s.len() != 0 {
        assert(s.last() == s[s.len() - 1]);
        assert(forall|i: int| 0 <= i < s.len() - 1 ==> s.drop_last()[i] == s[i]);
        lemma_with_fitness_none(s.drop_last(), v);
    }
}

proof fn lemma_insert_to_multiset<A>(s: Seq<A>, p: int, x: A)
    requires
        0 <= p <= s.len(),
    ensures
        s.insert(p, x).to_multiset() == s.to_multiset().insert(x),
{
    broadcast use vstd::seq_lib::group_to_multiset_ensures;
    broadcast use vstd::multiset::group_multiset_axioms;

    let a = s.subrange(0, p);
    let b = s.subrange(p, s.len() as int);
    vstd::seq_lib::lemma_multiset_commutative(a.push(x), b);
    vstd::seq_lib::lemma_multiset_commutative(a, b);
    assert(a + b =~= s);
    assert(a.push(x).to_multiset() =~= a.to_multiset().insert(x));
    assert(s.insert(p, x).to_multiset() =~= s.to_multiset().insert(x));
}

/// Sorts the population descending by fitness, so that best-matching
/// individuals come first; the result is a permutation of the input. The
/// insertion strategy is stable: an individual never moves past an equal
/// fitness.
pub fn sort_population_descending(population: &mut Vec<Chromosome>)
    ensures
        final(population)@.len() == old(population)@.len(),
        sorted_descending(final(population)@),
        final(population)@.to_multiset() == old(population)@.to_multiset(),
        forall|v: i64| #[trigger] with_fitness(final(population)@, v) == with_fitness(
            old(population)@,
            v,
        ),
{
    let len = population.len();
    if len <= 1 {
        return ;
    }
    let mut i: usize = 1;
    while i < len
        invariant
            1 <= i <= len,
            population@.len() == len == old(population)@.len(),
            population@.to_multiset() == old(population)@.to_multiset(),
            forall|v: i64| #[trigger] with_fitness(population@, v) == with_fitness(
                old(population)@,
                v,
            ),
            forall|q1: int, q2: int|
                0 <= q1 <= q2 < i ==> (#[trigger] population@[q1]).fitness >= (
                #[trigger] population@[q2]).fitness,
        decreases len - i,
    {
        let x_fit = population[i].fitness;
        let mut p: usize = 0;
        while p < i && population[p].fitness >= x_fit
            invariant
                p <= i < len == population@.len(),
                forall|q: int| 0 <= q < p ==> (#[trigger] population@[q]).fitness >= x_fit,
            decreases i - p,
        {
            p = p + 1;
        }
        let ghost before = population@;
        let x = population.remove(i);
        population.insert(p, x);
        proof {
            broadcast use vstd::seq_lib::group_to_multiset_ensures;
            broadcast use vstd::multiset::group_multiset_axioms;

            let bi = i as int;
            let bp = p as int;
            let nv = before.remove(bi).insert(bp, x);
            assert(population@ == nv);
            before.remove_ensures(bi);
            before.remove(bi).insert_ensures(bp, x);
            lemma_insert_to_multiset(before.remove(bi), bp, x);
            assert(before.remove(bi).to_multiset() =~= before.to_multiset().remove(x));
            assert(nv.to_multiset() =~= before.to_multiset().remove(x).insert(x));
            assert(before.contains(x)) by {
                assert(before[bi] == x);
            }
            assert(before.to_multiset().count(x) > 0);
            assert(nv.to_multiset() =~= before.to_multiset());
            assert forall|q: int| 0 <= q <= bi implies #[trigger] nv[q] == (if q < bp {
                before[q]
            } else if q == bp {
                x
            } else {
                before[q - 1]
            }) by {
                if q < bp {
                    assert(nv[q] == before.remove(bi)[q]);
                    assert(before.remove(bi)[q] == before[q]);
                } else if q == bp {
                    assert(nv[bp] == x);
                } else {
                    assert(nv[q] == before.remove(bi)[q - 1]);
                    assert(before.remove(bi)[q - 1] == before[q - 1]);
                }
            }
            assert(x.fitness == x_fit);
            assert forall|q1: int, q2: int| 0 <= q1 <= q2 <= bi implies (
            #[trigger] nv[q1]).fitness >= (#[trigger] nv[q2]).fitness by {
                if q2 < bp {
                    assert(nv[q1] == before[q1] && nv[q2] == before[q2]);
                } else if q2 == bp {
                    if q1 < bp {
                        assert(nv[q1] == before[q1] && before[q1].fitness >= x_fit);
                    }
                } else {
                    // q2 > bp, so the inner scan stopped strictly inside the
                    // prefix: the element at bp was strictly less fit.
                    assert(nv[q2] == before[q2 - 1]);
                    assert(bp < bi);
                    assert(before[bp].fitness < x_fit);
                    assert(bp <= q2 - 1 < bi);
                    assert(before[bp].fitness >= before[q2 - 1].fitness);
                    if q1 < bp {
                        assert(nv[q1] == before[q1] && before[q1].fitness >= x_fit);
                    } else if q1 == bp {
                        assert(nv[q1] == x);
                    } else {
                        assert(nv[q1] == before[q1 - 1]);
                        assert(before[q1 - 1].fitness >= before[q2 - 1].fitness);
                    }
                }
            }
            // Stability: the move passes only over strictly less fit
            // individuals, so the subsequence at every fitness level is
            // unchanged.
            let a = before.subrange(0, bp);
            let m = before.subrange(bp, bi);
            let sx = before.subrange(bi, bi + 1);
            let r = before.subrange(bi + 1, before.len() as int);
            assert(sx =~= seq![x]);
            assert forall|q: int| bi < q < before.len() implies nv[q] == before[q] by {
                assert(nv[q] == before.remove(bi)[q - 1]);
                assert(before.remove(bi)[q - 1] == before[q]);
            }
            assert(before =~= ((a + m) + sx) + r);
            assert(nv =~= ((a + sx) + m) + r);
            assert forall|q: int| bp <= q < bi implies (#[trigger] before[q]).fitness
                < x_fit by {
                assert(before[bp].fitness < x_fit);
                assert(before[bp].fitness >= before[q].fitness);
            }
            assert forall|v: i64| #[trigger] with_fitness(nv, v) == with_fitness(before, v) by {
                lemma_with_fitness_add(a, m, v);
                lemma_with_fitness_add(a + m, sx, v);
                lemma_with_fitness_add((a + m) + sx, r, v);
                lemma_with_fitness_add(a, sx, v);
                lemma_with_fitness_add(a + sx, m, v);
                lemma_with_fitness_add((a + sx) + m, r, v);
                let wa = with_fitness(a, v);
                let wm = with_fitness(m, v);
                let wx = with_fitness(sx, v);
                let wr = with_fitness(r, v);
                assert(with_fitness(before, v) == ((wa + wm) + wx) + wr);
                assert(with_fitness(nv, v) == ((wa + wx) + wm) + wr);
                if v == x.fitness {
                    assert(forall|q: int| 0 <= q < m.len() ==> (#[trigger] m[q]).fitness != v);
                    lemma_with_fitness_none(m, v);
                    assert((wa + wm) + wx =~= wa + wx);
                    assert((wa + wx) + wm =~= wa + wx);
                } else {
                    assert(forall|q: int| 0 <= q < sx.len() ==> (#[trigger] sx[q]).fitness != v);
                    lemma_with_fitness_none(sx, v);
                    assert((wa + wm) + wx =~= wa + wm);
                    assert((wa + wx) + wm =~= wa + wm);
                }
            }
            assert forall|v: i64| #[trigger] with_fitness(population@, v) == with_fitness(
                old(population)@,
                v,
            ) by {
                assert(with_fitness(nv, v) == with_fitness(before, v));
                assert(with_fitness(before, v) == with_fitness(old(population)@, v));
            }
        }
        i = i + 1;
    }
}

/// Two populations with the same chromosomes hold the same genomes.
proof fn lemma_genomes_multiset(s1: Seq<Chromosome>, s2: Seq<Chromosome>)
    requires
        s1.to_multiset() == s2.to_multiset(),
    ensures
        genomes(s1).to_multiset() == genomes(s2).to_multiset(),
    decreases s1.len(),
{
    broadcast use vstd::seq_lib::group_to_multiset_ensures;
    broadcast use vstd::multiset::group_multiset_axioms;

    if s1.len() == 0 {
        s1.to_multiset_ensures();
        s2.to_multiset_ensures();
        assert(s2.len() == 0);
        assert(genomes(s1) =~= genomes(s2));
    } else {
        let i1 = s1.len() - 1;
        let x = s1[i1];
        assert(s1.contains(x));
        assert(s1.to_multiset().count(x) > 0);
        assert(s2.contains(x));
        let i2 = choose|i: int| 0 <= i < s2.len() && s2[i] == x;
        assert(s1.remove(i1).to_multiset() == s1.to_multiset().remove(x));
        assert(s2.remove(i2).to_multiset() == s2.to_multiset().remove(x));
        lemma_genomes_multiset(s1.remove(i1), s2.remove(i2));
        s1.remove_ensures(i1);
        s2.remove_ensures(i2);
        assert(genomes(s1.remove(i1)) =~= genomes(s1).remove(i1));
        assert(genomes(s2.remove(i2)) =~= genomes(s2).remove(i2));
        let g = x.genes@;
        assert(genomes(s1)[i1] == g);
        assert(genomes(s2)[i2] == g);
        assert(genomes(s1).remove(i1).to_multiset() == genomes(s1).to_multiset().remove(g));
        assert(genomes(s2).remove(i2).to_multiset() == genomes(s2).to_multiset().remove(g));
        let m1 = genomes(s1).to_multiset();
        let m2 = genomes(s2).to_multiset();
        assert(m1.remove(g) == m2.remove(g));
        assert(genomes(s1).contains(g));
        assert(genomes(s2).contains(g));
        assert(m1.count(g) > 0);
        assert(m2.count(g) > 0);
        assert forall|y: Seq<GeneType>| true implies m1.count(y) == m2.count(y) by {
            assert(m1.remove(g).count(y) == m2.remove(g).count(y));
        }
        assert(m1 =~= m2);
    }
}

/// Being fully scored is a property of each individual, so any permutation
/// of a scored population is scored.
proof fn lemma_scored_permutation(
    s1: Seq<Chromosome>,
    s2: Seq<Chromosome>,
    target: TargetImage,
    gene_count: int,
)
    requires
        s1.to_multiset() == s2.to_multiset(),
        scored_population(s1, target, gene_count),
    ensures
        scored_population(s2, target, gene_count),
{
    broadcast use vstd::seq_lib::group_to_multiset_ensures;

    assert forall|i: int| 0 <= i < s2.len() implies ((#[trigger] s2[i]).genes@.len() == gene_count
        && s2[i].fitness == -total_error(s2[i].genes@, target.pixels@)) by {
        let y = s2[i];
        assert(s2.contains(y));
        assert(s2.to_multiset().count(y) > 0);
        assert(s1.contains(y));
        let j = choose|j: int| 0 <= j < s1.len() && s1[j] == y;
        assert(s1[j].genes@.len() == gene_count);
    }
}

/// One generation step, after the external crossover collaborator has
/// produced two children from the two best parents: mutates both children,
/// refills with fresh random chromosomes up to `population_count`, keeps
/// both parents unchanged, scores every individual against the target, and
/// sorts descending by fitness. The result is, up to fitness order, exactly
/// the two mutated children, the two parents, and the fresh refill.
pub fn next_generation(
    parent1: &Chromosome,
    parent2: &Chromosome,
    child1: Chromosome,
    child2: Chromosome,
    population_count: i32,
    mutation_ppm: u32,
    target: &TargetImage,
) -> (r: Vec<Chromosome>)
    requires
        population_count >= 4,
        parent2.genes@.len() == parent1.genes@.len(),
        child1.genes@.len() == parent1.genes@.len(),
        child2.genes@.len() == parent1.genes@.len(),
        target.pixels@.len() <= parent1.genes@.len(),
        target.pixels@.len() * (MAX_PIXEL_ERROR as int) <= i64::MAX,
    ensures
        r@.len() == population_count as int,
        sorted_descending(r@),
        scored_population(r@, *target, parent1.genes@.len() as int),
        exists|freshg: Seq<Seq<GeneType>>, m1: Seq<GeneType>, m2: Seq<GeneType>|
            #![trigger freshg.push(m1).push(m2).push(parent1.genes@).push(parent2.genes@)]
            {
                &&& freshg.len() == population_count - 4
                &&& mutated_genes(child1.genes@, m1)
                &&& mutated_genes(child2.genes@, m2)
                &&& (mutation_ppm == 0 ==> m1 == child1.genes@ && m2 == child2.genes@)
                &&& genomes(r@).to_multiset() == freshg.push(m1).push(m2).push(
                    parent1.genes@,
                ).push(parent2.genes@).to_multiset()
            },
{
    let gene_count = parent1.genes.len();
    let n_fresh = (population_count - 4) as usize;
    let mut population = generate_population(n_fresh, gene_count);
    let ghost fresh_part = population@;
    let mut c1 = child1;
    let mut c2 = child2;
    c1.mutate_genes(mutation_ppm);
    c2.mutate_genes(mutation_ppm);
    let ghost mg1 = c1.genes@;
    let ghost mg2 = c2.genes@;
    population.push(c1);
    population.push(c2);
    population.push(parent1.clone());
    population.push(parent2.clone());
    let ghost assembled = population@;
    proof {
        assert(genomes(assembled) =~= genomes(fresh_part).push(mg1).push(mg2).push(
            parent1.genes@,
        ).push(parent2.genes@));
        assert(forall|i: int|
            0 <= i < assembled.len() ==> (#[trigger] assembled[i]).genes@.len() == gene_count);
    }
    score_population(&mut population, target);
    let ghost scored = population@;
    proof {
        assert(genomes(scored) =~= genomes(assembled));
        assert(scored_population(scored, *target, gene_count as int));
    }
    sort_population_descending(&mut population);
    proof {
        lemma_scored_permutation(scored, population@, *target, gene_count as int);
        lemma_genomes_multiset(population@, scored);
        assert(genomes(population@).to_multiset() == genomes(fresh_part).push(mg1).push(mg2).push(
            parent1.genes@,
        ).push(parent2.genes@).to_multiset());
        assert(genomes(fresh_part).len() == population_count - 4);
        assert(mutated_genes(child1.genes@, mg1));
        assert(mutated_genes(child2.genes@, mg2));
    }
    population
}

/// The gene whose channels pixel index `i` of the output raster shows:
/// gene `i` itself, or black past the end of the genome.
pub open spec fn output_pixel(genes: Seq<GeneType>, i: int) -> GeneType {
    if i < genes.len() {
        genes[i]
    } else {
        GeneType { r: 0, g: 0, b: 0 }
    }
}

/// Pixel `i` of the row-major byte buffer holds the three channels of
/// `output_pixel(genes, i)`.
pub open spec fn pixel_bytes_ok(bytes: Seq<u8>, genes: Seq<GeneType>, i: int) -> bool {
    &&& bytes[3 * i] == output_pixel(genes, i).r
    &&& bytes[3 * i + 1] == output_pixel(genes, i).g
    &&& bytes[3 * i + 2] == output_pixel(genes, i).b
}

/// Reconstructs the output raster from a chromosome: a row-major RGB byte
/// buffer in which the pixel at raster coordinate (x, y) — pixel index
/// `y * width + x` — takes its channels from gene `y * width + x`, the same
/// correspondence the fitness evaluator uses. Pixels beyond the gene count
/// stay black.
pub fn construct_image(chromosome: &Chromosome, width: u32, height: u32) -> (r: Vec<u8>)
    requires
        (width as int) * (height as int) * 3 <= usize::MAX as int,
    ensures
        r@.len() == (width as int) * (height as int) * 3,
        forall|i: int|
            0 <= i < (width as int) * (height as int) ==> #[trigger] pixel_bytes_ok(
                r@,
                chromosome.genes@,
                i,
            ),
{
    let n = (width as usize) * (height as usize);
    let mut bytes: Vec<u8> = Vec::new();
    let mut i: usize = 0;
    while i < n
        invariant
            i <= n,
            n == (width as int) * (height as int),
            n * 3 <= usize::MAX as int,
            bytes@.len() == 3 * i,
            forall|j: int| 0 <= j < i ==> #[trigger] pixel_bytes_ok(bytes@, chromosome.genes@, j),
        decreases n - i,
    {
        let gene = if i < chromosome.genes.len() {
            chromosome.genes[i]
        } else {
            GeneType { r: 0, g: 0, b: 0 }
        };
        let ghost prev = bytes@;
        bytes.push(gene.r);
        bytes.push(gene.g);
        bytes.push(gene.b);
        proof {
            assert(gene == output_pixel(chromosome.genes@, i as int));
            assert(pixel_bytes_ok(bytes@, chromosome.genes@, i as int));
            assert forall|j: int| 0 <= j < i implies #[trigger] pixel_bytes_ok(
                bytes@,
                chromosome.genes@,
                j,
            ) by {
                assert(pixel_bytes_ok(prev, chromosome.genes@, j));
                assert(bytes@[3 * j] == prev[3 * j]);
                assert(bytes@[3 * j + 1] == prev[3 * j + 1]);
                assert(bytes@[3 * j + 2] == prev[3 * j + 2]);
            }
        }
        i = i + 1;
    }
    bytes
}

} // verus!
