use evo_image::gene::GeneType;
use evo_image::gene::PPM_SCALE;
use evo_image::Chromosome;
use evo_image::TargetImage;

fn gene(r: u8, g: u8, b: u8) -> GeneType {
    GeneType { r, g, b }
}

fn two_by_two_target() -> TargetImage {
    TargetImage {
        pixels: vec![
            gene(0, 0, 0),
            gene(255, 255, 255),
            gene(10, 20, 30),
            gene(200, 150, 100),
        ],
        width: 2,
        height: 2,
    }
}

#[test]
fn exact_match_scores_zero() {
    let target = two_by_two_target();
    let mut c = Chromosome { genes: target.pixels.clone(), fitness: 77 };
    c.calculate_fitness(&target);
    assert_eq!(c.fitness, 0);
}

#[test]
fn all_black_genome_scores_summed_error() {
    let target = two_by_two_target();
    let mut c = Chromosome { genes: vec![gene(0, 0, 0); 4], fitness: 0 };
    c.calculate_fitness(&target);
    assert_eq!(c.fitness, -(765 + 0 + 60 + 450));
    assert_eq!(c.fitness, -1275);
}

#[test]
fn fitness_is_never_positive() {
    let target = two_by_two_target();
    for _ in 0..50 {
        let mut c = Chromosome::new(4);
        c.calculate_fitness(&target);
        assert!(c.fitness <= 0);
    }
}

#[test]
fn longer_genome_is_tolerated_and_extra_genes_score_zero() {
    let target = two_by_two_target();
    let mut genes = target.pixels.clone();
    genes.push(gene(9, 9, 9));
    genes.push(gene(200, 1, 2));
    let mut c = Chromosome { genes, fitness: -5 };
    c.calculate_fitness(&target);
    assert_eq!(c.fitness, 0);
}

#[test]
fn worsening_one_channel_strictly_decreases_fitness() {
    let target = two_by_two_target();
    let mut base = Chromosome { genes: vec![gene(5, 5, 5); 4], fitness: 0 };
    base.calculate_fitness(&target);
    let mut worse_genes = base.genes.clone();
    // Target pixel 2 is (10, 20, 30); moving the green channel from 5 to 3
    // grows that channel's absolute difference from 15 to 17.
    worse_genes[2] = gene(5, 3, 5);
    let mut worse = Chromosome { genes: worse_genes, fitness: 0 };
    worse.calculate_fitness(&target);
    assert!(worse.fitness < base.fitness);
    assert_eq!(worse.fitness, base.fitness - 2);
}

#[test]
fn chunked_evaluation_matches_unchunked_for_every_chunk_size() {
    let target = TargetImage {
        pixels: (0..30u8).map(|i| gene(i, 2 * i, 255 - i)).collect(),
        width: 5,
        height: 6,
    };
    let c0 = Chromosome::new(30);
    let mut reference = c0.clone();
    reference.calculate_fitness(&target);
    for chunk_size in [1usize, 2, 3, 7, 29, 30, 1000] {
        let mut c = c0.clone();
        c.calculate_fitness_chunked(&target, chunk_size);
        assert_eq!(c.fitness, reference.fitness);
    }
}

#[test]
fn mutate_genes_keeps_gene_count() {
    let mut c = Chromosome::new(50);
    let before: Vec<GeneType> = c.genes.clone();
    c.mutate_genes(PPM_SCALE);
    assert_eq!(c.genes.len(), 50);
    c.mutate_genes(0);
    assert_eq!(c.genes.len(), 50);
    // Each gene moved in at most one channel.
    let mut c2 = Chromosome { genes: before.clone(), fitness: 0 };
    c2.mutate_genes(PPM_SCALE);
    for (old, new) in before.iter().zip(c2.genes.iter()) {
        let mut moved = 0;
        if old.r != new.r {
            moved += 1;
        }
        if old.g != new.g {
            moved += 1;
        }
        if old.b != new.b {
            moved += 1;
        }
        assert!(moved <= 1);
    }
}

#[test]
fn zero_probability_leaves_genome_unchanged() {
    let mut c = Chromosome::new(20);
    let before = c.genes.clone();
    c.mutate_genes(0);
    assert_eq!(before, c.genes);
}

#[test]
fn accessors_expose_genes_and_fitness() {
    let mut c = Chromosome { genes: vec![gene(1, 2, 3)], fitness: -9 };
    assert_eq!(c.fitness(), -9);
    assert_eq!(c.genes().len(), 1);
    *c.fitness_mut() = -4;
    assert_eq!(c.fitness(), -4);
    c.genes_mut().push(gene(4, 5, 6));
    assert_eq!(c.genes().len(), 2);
}
