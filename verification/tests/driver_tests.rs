use evo_image::construct_image;
use evo_image::gene::GeneType;
use evo_image::generate_population;
use evo_image::next_generation;
use evo_image::score_population;
use evo_image::sort_population_descending;
use evo_image::Chromosome;
use evo_image::Config;
use evo_image::ConfigError;
use evo_image::ImageDimensions;
use evo_image::TargetImage;

fn gene(r: u8, g: u8, b: u8) -> GeneType {
    GeneType { r, g, b }
}

fn two_by_two_target() -> TargetImage {
    TargetImage {
        pixels: vec![
            gene(0, 0, 0),
            gene(255, 255, 255),
            gene(10, 20, 30),
            gene(200, 150, 100),
        ],
        width: 2,
        height: 2,
    }
}

fn genome_of(c: &Chromosome) -> Vec<(u8, u8, u8)> {
    c.genes.iter().map(|g| (g.r, g.g, g.b)).collect()
}

#[test]
fn generated_population_has_requested_shape() {
    let population = generate_population(6, 9);
    assert_eq!(population.len(), 6);
    for c in &population {
        assert_eq!(c.genes.len(), 9);
        assert_eq!(c.fitness, 0);
    }
}

#[test]
fn scoring_scores_every_individual() {
    let target = two_by_two_target();
    let mut population = vec![
        Chromosome { genes: target.pixels.clone(), fitness: 1 },
        Chromosome { genes: vec![gene(0, 0, 0); 4], fitness: 1 },
    ];
    score_population(&mut population, &target);
    assert_eq!(population[0].fitness, 0);
    assert_eq!(population[1].fitness, -1275);
}

#[test]
fn sort_orders_descending_by_fitness() {
    let mk = |fit: i64, tag: u8| Chromosome { genes: vec![gene(tag, 0, 0)], fitness: fit };
    let mut population = vec![mk(-5, 1), mk(0, 2), mk(-1275, 3), mk(-1, 4)];
    sort_population_descending(&mut population);
    let fits: Vec<i64> = population.iter().map(|c| c.fitness).collect();
    assert_eq!(fits, vec![0, -1, -5, -1275]);
}

#[test]
fn sort_is_stable_for_equal_fitness() {
    let mk = |fit: i64, tag: u8| Chromosome { genes: vec![gene(tag, 0, 0)], fitness: fit };
    let mut population = vec![mk(-2, 1), mk(-1, 2), mk(-2, 3), mk(-1, 4), mk(-2, 5)];
    sort_population_descending(&mut population);
    let tags: Vec<u8> = population.iter().map(|c| c.genes[0].r).collect();
    assert_eq!(tags, vec![2, 4, 1, 3, 5]);
}

#[test]
fn generation_without_crossover_or_mutation_permutes_the_population() {
    // With four individuals, crossover probability zero handled by the
    // caller (children equal to parents), and mutation probability zero,
    // one generation must return the same four genomes in fitness order.
    let target = two_by_two_target();
    let mut population = vec![
        Chromosome { genes: vec![gene(0, 0, 0); 4], fitness: 0 },
        Chromosome { genes: target.pixels.clone(), fitness: 0 },
        Chromosome { genes: vec![gene(9, 9, 9); 4], fitness: 0 },
        Chromosome { genes: vec![gene(200, 150, 100); 4], fitness: 0 },
    ];
    let initial: Vec<Vec<(u8, u8, u8)>> = population.iter().map(genome_of).collect();
    score_population(&mut population, &target);
    sort_population_descending(&mut population);
    let parent1 = population[0].clone();
    let parent2 = population[1].clone();
    let next = next_generation(
        &parent1,
        &parent2,
        parent1.clone(),
        parent2.clone(),
        4,
        0,
        &target,
    );
    assert_eq!(next.len(), 4);
    for w in next.windows(2) {
        assert!(w[0].fitness >= w[1].fitness);
    }
    // The step's four genomes are the two children and the two parents;
    // with the children equal to the parents, the result is exactly those
    // four genomes in fitness order, every one of them already present at
    // generation 0.
    let mut got: Vec<Vec<(u8, u8, u8)>> = next.iter().map(genome_of).collect();
    let mut expected = vec![
        genome_of(&parent1),
        genome_of(&parent1),
        genome_of(&parent2),
        genome_of(&parent2),
    ];
    got.sort();
    expected.sort();
    assert_eq!(got, expected);
    for g in &got {
        assert!(initial.contains(g));
    }
}

#[test]
fn generation_keeps_both_parents() {
    let target = two_by_two_target();
    let parent1 = Chromosome { genes: target.pixels.clone(), fitness: 0 };
    let parent2 = Chromosome { genes: vec![gene(1, 2, 3); 4], fitness: 0 };
    let next = next_generation(
        &parent1,
        &parent2,
        parent1.clone(),
        parent2.clone(),
        8,
        1_000_000,
        &target,
    );
    assert_eq!(next.len(), 8);
    let genomes: Vec<Vec<(u8, u8, u8)>> = next.iter().map(genome_of).collect();
    assert!(genomes.contains(&genome_of(&parent1)));
    assert!(genomes.contains(&genome_of(&parent2)));
    for c in &next {
        assert_eq!(c.genes.len(), 4);
        assert!(c.fitness <= 0);
    }
}

#[test]
fn undersized_population_is_rejected_before_the_loop() {
    let config = Config {
        generations: 1,
        elite_count: 0,
        resize_dimensions: ImageDimensions { x: 2, y: 2 },
        population_count: 2,
        crossover_probability: 0,
        mutation_probability: 0,
    };
    assert_eq!(config.validate(), Err(ConfigError::PopulationTooSmall));
}

#[test]
fn config_validation_reports_each_failure() {
    let good = Config {
        generations: 10,
        elite_count: 2,
        resize_dimensions: ImageDimensions { x: 64, y: 64 },
        population_count: 10,
        crossover_probability: 500_000,
        mutation_probability: 10_000,
    };
    assert_eq!(good.validate(), Ok(()));
    let mut c = good;
    c.crossover_probability = 1_000_001;
    assert_eq!(c.validate(), Err(ConfigError::InvalidCrossoverProbability));
    let mut c = good;
    c.mutation_probability = 2_000_000;
    assert_eq!(c.validate(), Err(ConfigError::InvalidMutationProbability));
    let mut c = good;
    c.resize_dimensions.x = -1;
    assert_eq!(c.validate(), Err(ConfigError::InvalidDimensions));
    let mut c = good;
    c.resize_dimensions = ImageDimensions { x: 1 << 20, y: 1 << 20 };
    assert_eq!(c.validate(), Err(ConfigError::InvalidDimensions));
}

#[test]
fn total_pixels_multiplies_dimensions() {
    let dims = ImageDimensions { x: 4, y: 3 };
    assert_eq!(dims.total_pixels(), 12);
    let dims = ImageDimensions { x: 0, y: 7 };
    assert_eq!(dims.total_pixels(), 0);
}

#[test]
fn constructed_image_follows_row_major_correspondence() {
    let c = Chromosome {
        genes: vec![
            gene(0, 0, 0),
            gene(255, 255, 255),
            gene(10, 20, 30),
            gene(200, 150, 100),
        ],
        fitness: 0,
    };
    let bytes = construct_image(&c, 2, 2);
    assert_eq!(bytes.len(), 12);
    assert_eq!(&bytes[0..3], &[0, 0, 0]);
    assert_eq!(&bytes[3..6], &[255, 255, 255]);
    // Pixel (0, 1) is index 2 row-major.
    assert_eq!(&bytes[6..9], &[10, 20, 30]);
    assert_eq!(&bytes[9..12], &[200, 150, 100]);
}

#[test]
fn constructed_image_pads_missing_genes_with_black() {
    let c = Chromosome { genes: vec![gene(7, 8, 9)], fitness: 0 };
    let bytes = construct_image(&c, 2, 1);
    assert_eq!(bytes, vec![7, 8, 9, 0, 0, 0]);
}
