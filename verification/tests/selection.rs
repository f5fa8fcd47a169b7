use genetic_algorithm::genetic::chromosome::{Chromosome, Ratio};
use genetic_algorithm::genetic::enums::CrossoverType;
use genetic_algorithm::genetic::Genetic;

fn seeded_engine(rows: &Vec<Vec<usize>>, population_size: u32) -> Genetic {
    let mut genetic =
        Genetic::new(rows[0].len(), rows.len() as u32, 100_000, 10, CrossoverType::TwoPoint, 12);
    genetic.init_population(rows);
    genetic.population_size = population_size;
    genetic
}

fn three_rows() -> Vec<Vec<usize>> {
    vec![vec![1, 2, 3, 4], vec![1, 1, 1, 1], vec![1, 1, 2, 3]]
}

#[test]
fn summation_adds_the_fitness_and_records_the_shares() {
    let mut genetic = seeded_engine(&three_rows(), 3);
    assert_eq!(genetic.fitness_summation(), 11);
    assert_eq!(genetic.population[0].ratio, Ratio { num: 6, den: 11 });
    assert_eq!(genetic.population[1].ratio, Ratio { num: 0, den: 11 });
    assert_eq!(genetic.population[2].ratio, Ratio { num: 5, den: 11 });
    assert_eq!(genetic.population[0].genes(), &vec![1, 2, 3, 4]);
}

#[test]
fn summation_without_fitness_shares_equally() {
    let rows = vec![vec![3, 3, 3], vec![4, 4, 4], vec![5, 5, 5], vec![0, 0, 0]];
    let mut genetic = seeded_engine(&rows, 4);
    assert_eq!(genetic.fitness_summation(), 0);
    for chromosome in &genetic.population {
        assert_eq!(chromosome.ratio, Ratio { num: 1, den: 4 });
    }
}

#[test]
fn ranges_accumulate_in_population_order() {
    let mut genetic = seeded_engine(&three_rows(), 3);
    genetic.fitness_summation();
    genetic.init_probability_range();
    assert_eq!((genetic.population[0].low, genetic.population[0].high), (0, 6));
    assert_eq!((genetic.population[1].low, genetic.population[1].high), (6, 6));
    assert_eq!((genetic.population[2].low, genetic.population[2].high), (6, 11));
}

#[test]
fn ranges_divide_the_wheel() {
    let mut genetic = Genetic::new(10, 10, 0, 1, CrossoverType::OnePoint, 8);
    genetic.init_population(&genetic_algorithm::genetic::dataset::sample_dataset());
    let parents = genetic.parent_selection();
    assert_eq!(parents.len(), 10);
    let total: u64 = genetic.population.iter().map(|c| c.fitness()).sum();
    let mut edge = 0;
    let mut widths = 0;
    for chromosome in &genetic.population {
        assert_eq!(chromosome.low, edge);
        assert_eq!(chromosome.high - chromosome.low, chromosome.fitness());
        assert_eq!(chromosome.ratio, Ratio { num: chromosome.fitness(), den: total });
        widths += chromosome.high - chromosome.low;
        edge = chromosome.high;
    }
    assert_eq!(edge, total);
    assert_eq!(widths, total);
}

#[test]
fn ticket_selects_the_first_interval_that_holds_it() {
    let mut genetic = seeded_engine(&three_rows(), 3);
    genetic.fitness_summation();
    genetic.init_probability_range();
    assert_eq!(genetic.chosen_index(0), 0);
    assert_eq!(genetic.chosen_index(5), 0);
    assert_eq!(genetic.chosen_index(6), 2);
    assert_eq!(genetic.chosen_index(10), 2);
}

#[test]
fn ticket_past_the_wheel_selects_the_last_member() {
    let mut genetic = seeded_engine(&three_rows(), 3);
    genetic.fitness_summation();
    genetic.init_probability_range();
    assert_eq!(genetic.chosen_index(11), 2);
    assert_eq!(genetic.chosen_index(u64::MAX), 2);
}

#[test]
fn ticket_on_overlapping_intervals_selects_the_first() {
    let mut genetic = seeded_engine(&three_rows(), 3);
    genetic.population[0].set_probability_range([4, 9]);
    genetic.population[1].set_probability_range([0, 9]);
    genetic.population[2].set_probability_range([0, 9]);
    assert_eq!(genetic.chosen_index(5), 0);
    assert_eq!(genetic.chosen_index(2), 1);
}

#[test]
fn selection_gives_population_size_parents() {
    let mut genetic = seeded_engine(&three_rows(), 7);
    let parents = genetic.parent_selection();
    assert_eq!(parents.len(), 7);
    assert_eq!(genetic.population.len(), 3);
}

#[test]
fn selection_never_takes_a_member_without_fitness() {
    let mut genetic = seeded_engine(&three_rows(), 200);
    let parents = genetic.parent_selection();
    assert_eq!(parents.len(), 200);
    let mut first = 0;
    let mut third = 0;
    for parent in &parents {
        if parent.genes() == &vec![1, 2, 3, 4] {
            first += 1;
        } else {
            assert_eq!(parent.genes(), &vec![1, 1, 2, 3]);
            third += 1;
        }
    }
    assert!(first > 0);
    assert!(third > 0);
}

#[test]
fn selection_leaves_genes_and_scores_alone() {
    let mut genetic = seeded_engine(&three_rows(), 3);
    genetic.parent_selection();
    assert_eq!(genetic.population[0].genes(), &vec![1, 2, 3, 4]);
    assert_eq!(genetic.population[1].genes(), &vec![1, 1, 1, 1]);
    assert_eq!(genetic.population[2].genes(), &vec![1, 1, 2, 3]);
    assert_eq!(genetic.population[0].fitness(), 6);
    assert_eq!(genetic.population[1].fitness(), 0);
    assert_eq!(genetic.population[2].fitness(), 5);
}

#[test]
fn selection_without_fitness_falls_back_to_equal_chances() {
    let rows = vec![vec![3, 3, 3], vec![4, 4, 4]];
    let mut genetic = seeded_engine(&rows, 100);
    let parents = genetic.parent_selection();
    assert_eq!(parents.len(), 100);
    assert_eq!((genetic.population[0].low, genetic.population[0].high), (0, 1));
    assert_eq!((genetic.population[1].low, genetic.population[1].high), (1, 2));
    let threes = parents.iter().filter(|p| p.genes() == &vec![3, 3, 3]).count();
    let fours = parents.iter().filter(|p| p.genes() == &vec![4, 4, 4]).count();
    assert_eq!(threes + fours, 100);
    assert!(threes > 0);
    assert!(fours > 0);
}

#[test]
fn maximum_fitness_is_the_first_of_the_fittest() {
    let genetic = Genetic::new(4, 2, 0, 1, CrossoverType::OnePoint, 1);
    let population = vec![
        Chromosome::new(vec![1, 1, 2, 3]),
        Chromosome::new(vec![1, 2, 3, 4]),
        Chromosome::new(vec![1, 1, 1, 1]),
        Chromosome::new(vec![5, 6, 7, 8]),
    ];
    assert_eq!(genetic.maximum_fitness(&population), (1, 6));
}

#[test]
fn maximum_fitness_of_one_member() {
    let genetic = Genetic::new(4, 2, 0, 1, CrossoverType::OnePoint, 1);
    let population = vec![Chromosome::new(vec![2, 2, 2, 2])];
    assert_eq!(genetic.maximum_fitness(&population), (0, 0));
}

#[test]
fn maximum_fitness_when_all_are_equal() {
    let genetic = Genetic::new(3, 2, 0, 1, CrossoverType::OnePoint, 1);
    let population = vec![
        Chromosome::new(vec![1, 2, 3]),
        Chromosome::new(vec![4, 5, 6]),
        Chromosome::new(vec![7, 8, 9]),
    ];
    assert_eq!(genetic.maximum_fitness(&population), (0, 3));
}
