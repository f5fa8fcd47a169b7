use genetic_algorithm::genetic::chromosome::GENE_MAX;
use genetic_algorithm::genetic::enums::CrossoverType;
use genetic_algorithm::genetic::Genetic;

#[test]
fn length() {
    let mut genetic = Genetic::new(8, 2, 100_000, 10, CrossoverType::TwoPoint, 12);
    assert_eq!(genetic.random_chromosome().gens.len(), 8);
}

#[test]
fn valid_range_for_gens() {
    let mut genetic = Genetic::new(8, 2, 100_000, 10, CrossoverType::TwoPoint, 12);
    for gen in &genetic.random_chromosome().gens {
        if *gen > GENE_MAX {
            assert!(false);
        }
    }
    assert!(true);
}

#[test]
fn unique_gens() {
    let mut genetic = Genetic::new(8, 2, 100_000, 10, CrossoverType::TwoPoint, 12);
    let mut conflicts = 0;
    for gen in &genetic.random_chromosome().gens {
        let mut count: u8 = 0;
        for gen_2 in &genetic.random_chromosome().gens {
            if gen == gen_2 {
                count += 1;
            }
        }
        if count > 1 {
            conflicts += 1;
        }
    }
    assert!(conflicts > 0);
}

#[test]
fn random_genes_stay_in_the_domain_over_many_draws() {
    let mut genetic = Genetic::new(50, 1, 0, 0, CrossoverType::OnePoint, 2024);
    let mut seen_high = false;
    for _ in 0..200 {
        let chromosome = genetic.random_chromosome();
        assert_eq!(chromosome.genes().len(), 50);
        for gene in chromosome.genes() {
            assert!(*gene <= 25);
            if *gene > 12 {
                seen_high = true;
            }
        }
    }
    assert!(seen_high);
    assert_eq!(genetic.population.len(), 1);
}

#[test]
fn random_chromosome_is_scored() {
    let mut genetic = Genetic::new(8, 2, 100_000, 10, CrossoverType::TwoPoint, 5);
    let chromosome = genetic.random_chromosome();
    assert_eq!(chromosome.fitness() + chromosome.conflicts(), 28);
}
