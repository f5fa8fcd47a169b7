use genetic_algorithm::genetic::chromosome::{Chromosome, Ratio, GENE_MAX};
use genetic_algorithm::genetic::fitness::{count_conflicts, evaluate, MAX_CHROMOSOME_LENGTH};

#[test]
fn constants() {
    assert_eq!(GENE_MAX, 25);
    assert_eq!(MAX_CHROMOSOME_LENGTH, 65_536);
}

#[test]
fn fitness_counts_pairs_without_conflict() {
    assert_eq!(evaluate(&vec![]), 0);
    assert_eq!(evaluate(&vec![7]), 0);
    assert_eq!(evaluate(&vec![1, 2]), 1);
    assert_eq!(evaluate(&vec![2, 2]), 0);
    assert_eq!(evaluate(&vec![1, 2, 3]), 3);
    assert_eq!(evaluate(&vec![1, 2, 1]), 2);
    assert_eq!(evaluate(&vec![4, 4, 4, 4]), 0);
    assert_eq!(evaluate(&vec![1, 2, 3, 4, 5, 6, 7, 8]), 28);
    assert_eq!(evaluate(&vec![5, 5, 15, 15, 2, 2, 7, 7, 17, 17]), 40);
}

#[test]
fn conflicts_count_equal_pairs() {
    assert_eq!(count_conflicts(&vec![]), 0);
    assert_eq!(count_conflicts(&vec![1, 2, 3]), 0);
    assert_eq!(count_conflicts(&vec![1, 2, 1]), 1);
    assert_eq!(count_conflicts(&vec![4, 4, 4, 4]), 6);
    assert_eq!(count_conflicts(&vec![1, 15, 15, 25, 25, 25, 12, 17, 22, 3]), 4);
}

#[test]
fn longest_chromosome_is_scored() {
    let genes: Vec<usize> = (0..MAX_CHROMOSOME_LENGTH).map(|k| k % 2).collect();
    // 32768 zeros and 32768 ones: each value conflicts with itself 32768 * 32767 / 2 times
    assert_eq!(count_conflicts(&genes), 1_073_709_056);
    assert_eq!(evaluate(&genes), 2_147_450_880 - 1_073_709_056);
}

#[test]
fn new_chromosome_has_no_standing() {
    let chromosome = Chromosome::new(vec![3, 1, 4, 1, 5]);
    assert_eq!(chromosome.genes(), &vec![3, 1, 4, 1, 5]);
    assert_eq!(chromosome.fitness(), 9);
    assert_eq!(chromosome.conflicts(), 1);
    assert_eq!(chromosome.ratio, Ratio { num: 0, den: 1 });
    assert_eq!(chromosome.low, 0);
    assert_eq!(chromosome.high, 0);
    assert!(!chromosome.is_chosen(0));
}

#[test]
fn fitness_is_the_same_on_every_call() {
    let chromosome = Chromosome::new(vec![9, 9, 8]);
    assert_eq!(chromosome.fitness(), 2);
    assert_eq!(chromosome.fitness(), 2);
}

#[test]
fn fitness_ratio_is_recorded() {
    let mut chromosome = Chromosome::new(vec![3, 1, 4, 1, 5]);
    assert_eq!(chromosome.fitness_ratio(36), Ratio { num: 9, den: 36 });
    assert_eq!(chromosome.ratio, Ratio { num: 9, den: 36 });
    assert_eq!(chromosome.genes(), &vec![3, 1, 4, 1, 5]);
    assert_eq!(chromosome.fitness(), 9);
}

#[test]
fn equal_ratio_is_one_part() {
    let mut chromosome = Chromosome::new(vec![2, 2, 2]);
    assert_eq!(chromosome.fitness(), 0);
    assert_eq!(chromosome.equal_ratio(4), Ratio { num: 1, den: 4 });
    assert_eq!(chromosome.ratio, Ratio { num: 1, den: 4 });
}

#[test]
fn is_chosen_is_half_open() {
    let mut chromosome = Chromosome::new(vec![1, 2, 3]);
    chromosome.set_probability_range([10, 13]);
    assert_eq!(chromosome.low, 10);
    assert_eq!(chromosome.high, 13);
    assert!(!chromosome.is_chosen(9));
    assert!(chromosome.is_chosen(10));
    assert!(chromosome.is_chosen(12));
    assert!(!chromosome.is_chosen(13));
    assert!(!chromosome.is_chosen(u64::MAX));
}

#[test]
fn empty_range_chooses_nothing() {
    let mut chromosome = Chromosome::new(vec![1, 2, 3]);
    chromosome.set_probability_range([5, 5]);
    assert!(!chromosome.is_chosen(4));
    assert!(!chromosome.is_chosen(5));
    assert!(!chromosome.is_chosen(6));
}

#[test]
fn duplicate_copies_everything() {
    let mut chromosome = Chromosome::new(vec![3, 1, 4, 1, 5]);
    chromosome.fitness_ratio(20);
    chromosome.set_probability_range([2, 11]);
    let copy = chromosome.duplicate();
    assert_eq!(copy, chromosome);
    assert_eq!(copy.genes(), &vec![3, 1, 4, 1, 5]);
    assert_eq!(copy.ratio, Ratio { num: 9, den: 20 });
    assert_eq!(copy.low, 2);
    assert_eq!(copy.high, 11);
}
