pub mod chromosome;
pub mod dataset;
pub mod enums;
pub mod fitness;
pub mod generation;
pub mod operators;
pub mod random;
pub mod selection;

use crate::genetic::chromosome::{genes_in_domain, Chromosome, GENE_MAX};
use crate::genetic::enums::CrossoverType;
use crate::genetic::fitness::{fitness_of, lemma_fitness_bounded, MAX_CHROMOSOME_LENGTH};
use crate::genetic::generation::{
    can_be_drawn, champion, descends, end_of, is_drawn_from, is_fittest, is_run, is_successor,
    is_top_fitness, is_trace, lemma_champion_step, lemma_drawn_can_be_drawn, lemma_trace_extends,
    lemma_trace_starts, pair_recombined,
};
use crate::genetic::operators::{
    is_crossover, is_mutation, is_one_point, is_two_point, is_uniform, mixed, one_point_children,
    swap_genes, swapped, two_point_children, uniform_children, windowed,
};
use crate::genetic::random::{draw_below, flip, seeded};
use crate::genetic::selection::{
    is_selected, is_wheel, lemma_accumulated_is_wheel, lemma_assigned_shares_total,
    lemma_total_fitness_bounded, lemma_total_fitness_same_members, lemma_total_share_prefix,
    lemma_total_share_same_ratios, lemma_wheel_covers, ranges_accumulated, same_members, share_of,
    shares_assigned, total_fitness, total_share, wheel_size,
};
use rand::rngs::StdRng;
use vstd::prelude::*;

verus! {

/// The denominator of the mutation rate: a rate is given in millionths.
pub const RATE_SCALE: u32 = 1_000_000;

/// Every member can be scored, has `length` genes, and all of them lie in the
/// gene domain.
pub open spec fn valid_population(population: Seq<Chromosome>, length: usize) -> bool {
    forall|i: int|
        0 <= i < population.len() ==> (#[trigger] population[i]).wf() && population[i]@.len()
            == length && genes_in_domain(population[i]@)
}

/// The engine of one run: its configuration, the current population, and the
/// random generator that every draw comes from.
#[derive(Debug)]
pub struct Genetic {
    pub chromosome_length: usize,
    pub population_size: u32,
    /// The mutation rate in millionths, at most `RATE_SCALE`.
    pub per_mutation: u32,
    pub population: Vec<Chromosome>,
    pub maxiter: u32,
    pub crossover_type: CrossoverType,
    /// The source of every random draw of the run.
    pub rng: StdRng,
}

impl Genetic {
    /// The configuration is one that construction accepts, and the population
    /// fits it.
    pub open spec fn wf(&self) -> bool {
        &&& 0 < self.chromosome_length <= MAX_CHROMOSOME_LENGTH
        &&& 0 < self.population_size
        &&& self.per_mutation <= RATE_SCALE
        &&& self.population@.len() <= u32::MAX
        &&& valid_population(self.population@, self.chromosome_length)
    }

    /// `other` has the same configuration.
    pub open spec fn same_config(&self, other: &Genetic) -> bool {
        &&& self.chromosome_length == other.chromosome_length
        &&& self.population_size == other.population_size
        &&& self.per_mutation == other.per_mutation
        &&& self.maxiter == other.maxiter
        &&& self.crossover_type == other.crossover_type
    }

    /// Only the random generator differs from `other`.
    pub open spec fn same_but_rng(&self, other: &Genetic) -> bool {
        &&& self.same_config(other)
        &&& self.population@ == other.population@
    }

    /// An engine with a population of `population_size` random chromosomes,
    /// whose draws all come from a generator seeded with `seed`. The mutation
    /// rate `per_mutation` is given in millionths.
    pub fn new(
        chromosome_length: usize,
        population_size: u32,
        per_mutation: u32,
        maxiter: u32,
        crossover_type: CrossoverType,
        seed: u64,
    ) -> (genetic: Genetic)
        requires
            0 < chromosome_length <= MAX_CHROMOSOME_LENGTH,
            0 < population_size,
            per_mutation <= RATE_SCALE,
        ensures
            genetic.wf(),
            genetic.chromosome_length == chromosome_length,
            genetic.population_size == population_size,
            genetic.per_mutation == per_mutation,
            genetic.maxiter == maxiter,
            genetic.crossover_type == crossover_type,
            genetic.population@.len() == population_size,
    {
        let mut genetic = Genetic {
            chromosome_length,
            population_size,
            per_mutation,
            population: Vec::new(),
            maxiter,
            crossover_type,
            rng: seeded(seed),
        };
        let mut k: u32 = 0;
        while k < population_size
            invariant
                k <= population_size,
                genetic.wf(),
                genetic.chromosome_length == chromosome_length,
                genetic.population_size == population_size,
                genetic.per_mutation == per_mutation,
                genetic.maxiter == maxiter,
                genetic.crossover_type == crossover_type,
                genetic.population@.len() == k,
            decreases population_size - k,
        {
            let chromosome = genetic.random_chromosome();
            genetic.population.push(chromosome);
            k = k + 1;
        }
        genetic
    }

    /// Replaces the population by the rows of `dataset`, in their order.
    pub fn init_population(&mut self, dataset: &Vec<Vec<usize>>)
        requires
            old(self).wf(),
            dataset@.len() == old(self).population_size,
            forall|i: int|
                0 <= i < dataset@.len() ==> (#[trigger] dataset@[i])@.len() == old(self).chromosome_length
                    && genes_in_domain(dataset@[i]@),
        ensures
            final(self).wf(),
            final(self).same_config(old(self)),
            final(self).population@.len() == dataset@.len(),
            forall|i: int|
                0 <= i < dataset@.len() ==> (#[trigger] final(self).population@[i])@
                    == dataset@[i]@,
    {
        let mut population: Vec<Chromosome> = Vec::new();
        let mut k: usize = 0;
        while k < dataset.len()
            invariant
                k <= dataset@.len(),
                dataset@.len() <= u32::MAX,
                self.chromosome_length <= MAX_CHROMOSOME_LENGTH,
                forall|i: int|
                    0 <= i < dataset@.len() ==> (#[trigger] dataset@[i])@.len()
                        == self.chromosome_length && genes_in_domain(dataset@[i]@),
                population@.len() == k,
                valid_population(population@, self.chromosome_length),
                forall|i: int| 0 <= i < k ==> (#[trigger] population@[i])@ == dataset@[i]@,
            decreases dataset@.len() - k,
        {
            let item: &Vec<usize> = &dataset[k];
            let mut gens: Vec<usize> = Vec::with_capacity(item.len());
            let mut g: usize = 0;
            while g < item.len()
                invariant
                    g <= item@.len(),
                    gens@ == item@.subrange(0, g as int),
                decreases item@.len() - g,
            {
                gens.push(item[g]);
                g = g + 1;
            }
            population.push(Chromosome::new(gens));
            k = k + 1;
        }
        self.population = population;
    }

    /// A chromosome of `chromosome_length` genes, each drawn from the gene
    /// domain `0..=GENE_MAX`.
    pub fn random_chromosome(&mut self) -> (chromosome: Chromosome)
        requires
            old(self).wf(),
        ensures
            chromosome.wf(),
            chromosome@.len() == old(self).chromosome_length,
            genes_in_domain(chromosome@),
            final(self).same_but_rng(old(self)),
    {
        let mut rand_vec: Vec<usize> = Vec::new();
        let mut k: usize = 0;
        while k < self.chromosome_length
            invariant
                k <= self.chromosome_length,
                self.same_but_rng(old(self)),
                rand_vec@.len() == k,
                genes_in_domain(rand_vec@),
            decreases self.chromosome_length - k,
        {
            let rn: usize = draw_below(&mut self.rng, GENE_MAX as u64 + 1) as usize;
            rand_vec.push(rn);
            k = k + 1;
        }
        Chromosome::new(rand_vec)
    }

    /// Sums the fitness of the population and records on every member its
    /// share of that sum. Where the sum is zero the shares would be undefined:
    /// every member then gets the same share, one over the number of members.
    pub fn fitness_summation(&mut self) -> (sum: u64)
        requires
            old(self).wf(),
        ensures
            sum == total_fitness(old(self).population@),
            final(self).wf(),
            final(self).same_config(old(self)),
            same_members(final(self).population@, old(self).population@),
            shares_assigned(final(self).population@),
            forall|i: int|
                0 <= i < old(self).population@.len() ==> (#[trigger] final(self).population@[i]).low
                    == old(self).population@[i].low && final(self).population@[i].high
                    == old(self).population@[i].high,
    {
        let n: usize = self.population.len();
        let mut sum: u64 = 0;
        let mut k: usize = 0;
        while k < n
            invariant
                n == self.population@.len(),
                n <= u32::MAX,
                k <= n,
                self.wf(),
                self.same_config(old(self)),
                self.population@ == old(self).population@,
                sum == total_fitness(self.population@.subrange(0, k as int)),
                sum <= k * 0x7fff_ffff,
            decreases n - k,
        {
            proof {
                let prefix = self.population@.subrange(0, k + 1);
                assert(prefix.drop_last() == self.population@.subrange(0, k as int));
                lemma_fitness_bounded(self.population@[k as int]@);
            }
            sum = sum + self.population[k].fitness();
            k = k + 1;
        }
        assert(self.population@.subrange(0, n as int) == self.population@);
        let ghost before = self.population@;
        let mut k: usize = 0;
        while k < n
            invariant
                n == self.population@.len(),
                n == before.len(),
                n <= u32::MAX,
                k <= n,
                sum == total_fitness(before),
                before == old(self).population@,
                self.same_config(old(self)),
                self.wf(),
                valid_population(before, self.chromosome_length),
                same_members(self.population@, before),
                forall|i: int|
                    0 <= i < n ==> (#[trigger] self.population@[i]).low == before[i].low
                        && self.population@[i].high == before[i].high,
                forall|i: int|
                    0 <= i < k ==> (#[trigger] self.population@[i]).ratio == share_of(
                        before,
                        before[i]@,
                    ),
            decreases n - k,
        {
            if sum > 0 {
                self.population[k].fitness_ratio(sum);
            } else {
                self.population[k].equal_ratio(n as u64);
            }
            k = k + 1;
        }
        proof {
            lemma_total_fitness_same_members(self.population@, before);
        }
        sum
    }

    /// Gives every member its interval on the roulette wheel, in population
    /// order: each starts where the one before it ends, the first at zero, and
    /// each is as wide as the share recorded on its member.
    pub fn init_probability_range(&mut self)
        requires
            old(self).wf(),
            total_share(old(self).population@) <= u64::MAX,
        ensures
            final(self).wf(),
            final(self).same_config(old(self)),
            same_members(final(self).population@, old(self).population@),
            forall|i: int|
                0 <= i < old(self).population@.len() ==> (#[trigger] final(self).population@[i]).ratio
                    == old(self).population@[i].ratio,
            ranges_accumulated(final(self).population@),
    {
        let n: usize = self.population.len();
        let ghost before = self.population@;
        let mut temp: u64 = 0;
        let mut k: usize = 0;
        while k < n
            invariant
                n == self.population@.len(),
                n == before.len(),
                k <= n,
                before == old(self).population@,
                total_share(before) <= u64::MAX,
                self.same_config(old(self)),
                self.wf(),
                same_members(self.population@, before),
                forall|i: int|
                    0 <= i < n ==> (#[trigger] self.population@[i]).ratio == before[i].ratio,
                temp == total_share(before.subrange(0, k as int)),
                forall|i: int|
                    0 <= i < k ==> (#[trigger] self.population@[i]).low == total_share(
                        before.subrange(0, i),
                    ) && self.population@[i].high == total_share(before.subrange(0, i + 1)),
            decreases n - k,
        {
            proof {
                lemma_total_share_prefix(before, k + 1);
                assert(before.subrange(0, k + 1).drop_last() == before.subrange(0, k as int));
            }
            let temp_: u64 = temp + self.population[k].ratio.num;
            self.population[k].set_probability_range([temp, temp_]);
            temp = temp_;
            k = k + 1;
        }
        proof {
            assert forall|i: int| 0 <= i < n implies (#[trigger] self.population@[i]).low
                == total_share(self.population@.subrange(0, i)) && self.population@[i].high
                == total_share(self.population@.subrange(0, i + 1)) by {
                lemma_total_share_same_ratios(self.population@, before, i);
                lemma_total_share_same_ratios(self.population@, before, i + 1);
            }
        }
    }

    /// The member that `ticket` selects: the first, in population order, whose
    /// interval holds the ticket. Where no interval holds it, the last member
    /// is selected.
    pub fn chosen_index(&self, ticket: u64) -> (index: usize)
        requires
            self.population@.len() > 0,
        ensures
            is_selected(self.population@, ticket, index as int),
    {
        let last: usize = self.population.len() - 1;
        let mut i: usize = 0;
        while i < last
            invariant
                last == self.population@.len() - 1,
                i <= last,
                forall|k: int| 0 <= k < i ==> !(#[trigger] self.population@[k]).holds(ticket),
            decreases last - i,
        {
            if self.population[i].is_chosen(ticket) {
                return i;
            }
            i = i + 1;
        }
        last
    }

    /// Selects `population_size` parents in proportion to their fitness, with
    /// repetition. The members get their shares and their intervals on the
    /// roulette wheel; then a ticket is drawn for each parent, and a copy of the
    /// member that the ticket selects joins the parents. The genes and scores
    /// of the population stay as they are.
    pub fn parent_selection(&mut self) -> (new_parents: Vec<Chromosome>)
        requires
            old(self).wf(),
            old(self).population@.len() > 0,
        ensures
            final(self).wf(),
            final(self).same_config(old(self)),
            same_members(final(self).population@, old(self).population@),
            shares_assigned(final(self).population@),
            wheel_size(final(self).population@) <= u64::MAX,
            is_wheel(final(self).population@, wheel_size(final(self).population@) as u64),
            new_parents@.len() == old(self).population_size,
            valid_population(new_parents@, old(self).chromosome_length),
            forall|k: int|
                0 <= k < new_parents@.len() ==> is_drawn_from(
                    #[trigger] new_parents@[k],
                    final(self).population@,
                ),
    {
        let sum: u64 = self.fitness_summation();
        proof {
            lemma_total_fitness_same_members(self.population@, old(self).population@);
            lemma_total_fitness_bounded(self.population@);
            lemma_assigned_shares_total(self.population@);
        }
        let ghost summed = self.population@;
        self.init_probability_range();
        proof {
            lemma_total_fitness_same_members(self.population@, summed);
            lemma_accumulated_is_wheel(self.population@);
        }
        let tickets: u64 = if sum > 0 {
            sum
        } else {
            self.population.len() as u64
        };
        let mut new_parents: Vec<Chromosome> = Vec::new();
        while new_parents.len() < self.population_size as usize
            invariant
                self.wf(),
                self.same_config(old(self)),
                same_members(self.population@, old(self).population@),
                shares_assigned(self.population@),
                tickets == wheel_size(self.population@),
                is_wheel(self.population@, tickets),
                new_parents@.len() <= self.population_size,
                valid_population(new_parents@, self.chromosome_length),
                forall|k: int|
                    0 <= k < new_parents@.len() ==> is_drawn_from(
                        #[trigger] new_parents@[k],
                        self.population@,
                    ),
            decreases self.population_size - new_parents@.len(),
        {
            let ticket: u64 = draw_below(&mut self.rng, tickets);
            let index: usize = self.chosen_index(ticket);
            proof {
                lemma_wheel_covers(self.population@, tickets, ticket, index as int);
            }
            let parent: Chromosome = self.population[index].duplicate();
            new_parents.push(parent);
        }
        new_parents
    }

    /// Recombines two parents at one cut, drawn from the positions of the
    /// chromosome.
    pub fn one_point_crossover(&mut self, parent_1: &Chromosome, parent_2: &Chromosome) -> (children:
        (Chromosome, Chromosome))
        requires
            old(self).wf(),
            parent_1.wf(),
            parent_2.wf(),
            parent_1@.len() == old(self).chromosome_length,
            parent_2@.len() == old(self).chromosome_length,
        ensures
            final(self).same_but_rng(old(self)),
            children.0.wf(),
            children.1.wf(),
            is_one_point(parent_1@, parent_2@, children.0@, children.1@),
            children.0@.len() == parent_1@.len(),
            children.1@.len() == parent_1@.len(),
            genes_in_domain(parent_1@) && genes_in_domain(parent_2@) ==> genes_in_domain(
                children.0@,
            ) && genes_in_domain(children.1@),
    {
        let crossover_point: usize = draw_below(
            &mut self.rng,
            self.chromosome_length as u64,
        ) as usize;
        one_point_children(parent_1, parent_2, crossover_point)
    }

    /// Recombines two parents over a window between two positions, each drawn
    /// from the positions of the chromosome.
    pub fn two_point_crossover(&mut self, parent_1: &Chromosome, parent_2: &Chromosome) -> (children:
        (Chromosome, Chromosome))
        requires
            old(self).wf(),
            parent_1.wf(),
            parent_2.wf(),
            parent_1@.len() == old(self).chromosome_length,
            parent_2@.len() == old(self).chromosome_length,
        ensures
            final(self).same_but_rng(old(self)),
            children.0.wf(),
            children.1.wf(),
            is_two_point(parent_1@, parent_2@, children.0@, children.1@),
            children.0@.len() == parent_1@.len(),
            children.1@.len() == parent_1@.len(),
            genes_in_domain(parent_1@) && genes_in_domain(parent_2@) ==> genes_in_domain(
                children.0@,
            ) && genes_in_domain(children.1@),
    {
        let ind_1: usize = draw_below(&mut self.rng, self.chromosome_length as u64) as usize;
        let ind_2: usize = draw_below(&mut self.rng, self.chromosome_length as u64) as usize;
        two_point_children(parent_1, parent_2, ind_1, ind_2)
    }

    /// Recombines two parents gene by gene, on one flip of a coin for every
    /// position.
    pub fn uniform_crossover(&mut self, parent_1: &Chromosome, parent_2: &Chromosome) -> (children:
        (Chromosome, Chromosome))
        requires
            old(self).wf(),
            parent_1.wf(),
            parent_2.wf(),
            parent_1@.len() == old(self).chromosome_length,
            parent_2@.len() == old(self).chromosome_length,
        ensures
            final(self).same_but_rng(old(self)),
            children.0.wf(),
            children.1.wf(),
            is_uniform(parent_1@, parent_2@, children.0@, children.1@),
            children.0@.len() == parent_1@.len(),
            children.1@.len() == parent_1@.len(),
            forall|k: int|
                0 <= k < parent_1@.len() ==> (#[trigger] children.0@[k] == parent_1@[k]
                    && children.1@[k] == parent_2@[k]) || (children.0@[k] == parent_2@[k]
                    && children.1@[k] == parent_1@[k]),
            genes_in_domain(parent_1@) && genes_in_domain(parent_2@) ==> genes_in_domain(
                children.0@,
            ) && genes_in_domain(children.1@),
    {
        let length: usize = parent_1.genes().len();
        let mut coins: Vec<bool> = Vec::with_capacity(length);
        let mut i: usize = 0;
        while i < length
            invariant
                i <= length,
                coins@.len() == i,
                self.same_but_rng(old(self)),
            decreases length - i,
        {
            let rand_bit: bool = flip(&mut self.rng);
            coins.push(rand_bit);
            i = i + 1;
        }
        uniform_children(parent_1, parent_2, &coins)
    }

    /// Recombines two parents by the configured kind of crossover.
    pub fn crossover(&mut self, parent_1: &Chromosome, parent_2: &Chromosome) -> (children: (
        Chromosome,
        Chromosome,
    ))
        requires
            old(self).wf(),
            parent_1.wf(),
            parent_2.wf(),
            parent_1@.len() == old(self).chromosome_length,
            parent_2@.len() == old(self).chromosome_length,
        ensures
            final(self).same_but_rng(old(self)),
            children.0.wf(),
            children.1.wf(),
            is_crossover(
                old(self).crossover_type,
                parent_1@,
                parent_2@,
                children.0@,
                children.1@,
            ),
            children.0@.len() == old(self).chromosome_length,
            children.1@.len() == old(self).chromosome_length,
            genes_in_domain(parent_1@) && genes_in_domain(parent_2@) ==> genes_in_domain(
                children.0@,
            ) && genes_in_domain(children.1@),
    {
        match self.crossover_type {
            CrossoverType::OnePoint => self.one_point_crossover(parent_1, parent_2),
            CrossoverType::TwoPoint => self.two_point_crossover(parent_1, parent_2),
            CrossoverType::Uniform => self.uniform_crossover(parent_1, parent_2),
        }
    }

    /// Recombines the parents in adjacent pairs, in their order: the first with
    /// the second, the third with the fourth, and so on. Each pair gives two
    /// offspring, which take the pair's places. A last parent without a partner
    /// is dropped.
    pub fn recombination(&mut self, parents: &Vec<Chromosome>) -> (offsprings: Vec<Chromosome>)
        requires
            old(self).wf(),
            valid_population(parents@, old(self).chromosome_length),
        ensures
            final(self).same_but_rng(old(self)),
            offsprings@.len() == (parents@.len() / 2) * 2,
            valid_population(offsprings@, old(self).chromosome_length),
            forall|pair: int|
                0 <= pair < parents@.len() / 2 ==> #[trigger] pair_recombined(
                    old(self).crossover_type,
                    parents@,
                    offsprings@,
                    pair,
                ),
    {
        let mut offsprings: Vec<Chromosome> = Vec::new();
        let mut i: usize = 0;
        while parents.len() - i >= 2
            invariant
                i <= parents@.len(),
                i % 2 == 0,
                self.same_but_rng(old(self)),
                self.wf(),
                valid_population(parents@, self.chromosome_length),
                offsprings@.len() == i,
                valid_population(offsprings@, self.chromosome_length),
                forall|pair: int|
                    0 <= pair < i / 2 ==> #[trigger] pair_recombined(
                        self.crossover_type,
                        parents@,
                        offsprings@,
                        pair,
                    ),
            decreases parents@.len() - i,
        {
            let (child1, child2) = self.crossover(&parents[i], &parents[i + 1]);
            let ghost born = offsprings@;
            offsprings.push(child1);
            offsprings.push(child2);
            proof {
                assert forall|pair: int| 0 <= pair < (i + 2) / 2 implies #[trigger] pair_recombined(
                    self.crossover_type,
                    parents@,
                    offsprings@,
                    pair,
                ) by {
                    if pair < i / 2 {
                        assert(pair_recombined(self.crossover_type, parents@, born, pair));
                    }
                }
            }
            i = i + 2;
        }
        offsprings
    }

    /// Whether a die that shows `die` of `RATE_SCALE` faces calls for a
    /// mutation: it does when it shows no more than the mutation rate.
    pub fn mutates(&self, die: u32) -> (mutate: bool)
        ensures
            mutate == (die <= self.per_mutation),
    {
        die <= self.per_mutation
    }

    /// A new chromosome from `chromosome`: a die is cast, and where it calls
    /// for a mutation the genes at two positions, each drawn from the positions
    /// of the chromosome, are exchanged. Otherwise the genes are copied.
    pub fn swap_mutation(&mut self, chromosome: &Chromosome) -> (mutant: Chromosome)
        requires
            old(self).wf(),
            chromosome.wf(),
            chromosome@.len() > 0,
        ensures
            final(self).same_but_rng(old(self)),
            mutant.wf(),
            is_mutation(chromosome@, mutant@),
            mutant@.len() == chromosome@.len(),
            mutant@.to_multiset() == chromosome@.to_multiset(),
            genes_in_domain(chromosome@) ==> genes_in_domain(mutant@),
    {
        let die: u32 = draw_below(&mut self.rng, RATE_SCALE as u64) as u32;
        if self.mutates(die) {
            let n: u64 = chromosome.genes().len() as u64;
            let i: usize = draw_below(&mut self.rng, n) as usize;
            let j: usize = draw_below(&mut self.rng, n) as usize;
            swap_genes(chromosome, i, j)
        } else {
            let mutant = Chromosome::new(chromosome.duplicate().gens);
            proof {
                assert(mutant@ == swapped(chromosome@, 0, 0));
            }
            mutant
        }
    }

    /// Replaces every offspring by its mutant.
    pub fn mutation(&mut self, offsprings: Vec<Chromosome>) -> (mutants: Vec<Chromosome>)
        requires
            old(self).wf(),
            valid_population(offsprings@, old(self).chromosome_length),
        ensures
            final(self).same_but_rng(old(self)),
            mutants@.len() == offsprings@.len(),
            valid_population(mutants@, old(self).chromosome_length),
            forall|i: int|
                0 <= i < offsprings@.len() ==> is_mutation(
                    offsprings@[i]@,
                    (#[trigger] mutants@[i])@,
                ) && mutants@[i]@.to_multiset() == offsprings@[i]@.to_multiset(),
    {
        let ghost before = offsprings@;
        let mut offsprings = offsprings;
        let mut i: usize = 0;
        while i < offsprings.len()
            invariant
                i <= offsprings@.len(),
                offsprings@.len() == before.len(),
                self.same_but_rng(old(self)),
                self.wf(),
                valid_population(before, self.chromosome_length),
                valid_population(offsprings@, self.chromosome_length),
                forall|k: int| i <= k < before.len() ==> #[trigger] offsprings@[k] == before[k],
                forall|k: int|
                    0 <= k < i ==> is_mutation(before[k]@, (#[trigger] offsprings@[k])@)
                        && offsprings@[k]@.to_multiset() == before[k]@.to_multiset(),
            decreases offsprings@.len() - i,
        {
            let mutant: Chromosome = self.swap_mutation(&offsprings[i]);
            offsprings[i] = mutant;
            i = i + 1;
        }
        offsprings
    }

    /// The first member of the highest fitness in `population`, and that fitness.
    pub fn maximum_fitness(&self, population: &Vec<Chromosome>) -> (best: (usize, u64))
        requires
            population@.len() > 0,
            forall|i: int| 0 <= i < population@.len() ==> (#[trigger] population@[i]).wf(),
        ensures
            is_fittest(population@, best.0 as int),
            best.1 == fitness_of(population@[best.0 as int]@),
    {
        let mut max_i: usize = 0;
        let mut max_fit: u64 = population[0].fitness();
        let mut i: usize = 0;
        while i < population.len()
            invariant
                i <= population@.len(),
                forall|k: int| 0 <= k < population@.len() ==> (#[trigger] population@[k]).wf(),
                max_i < population@.len(),
                max_i <= i,
                max_fit == fitness_of(population@[max_i as int]@),
                forall|k: int|
                    0 <= k < i ==> fitness_of((#[trigger] population@[k])@) <= max_fit,
                forall|k: int|
                    0 <= k < max_i ==> fitness_of((#[trigger] population@[k])@) < max_fit,
            decreases population@.len() - i,
        {
            if population[i].fitness() > max_fit {
                max_fit = population[i].fitness();
                max_i = i;
            }
            i = i + 1;
        }
        (max_i, max_fit)
    }

    /// One generation: parents are selected, recombined and mutated, and the
    /// offspring replace the population. Returns the first of the fittest of
    /// the new population, and its fitness.
    ///
    /// Offspring come in pairs, so the new population has `population_size`
    /// members rounded down to an even number. A population of one would leave
    /// no offspring at all, which is why at least two are asked for.
    pub fn next_generation(&mut self) -> (best: (usize, u64))
        requires
            old(self).wf(),
            old(self).population@.len() > 0,
            old(self).population_size >= 2,
        ensures
            final(self).wf(),
            final(self).same_config(old(self)),
            final(self).population@.len() == (old(self).population_size / 2) * 2,
            is_successor(
                old(self).crossover_type,
                old(self).population_size,
                old(self).population@,
                final(self).population@,
            ),
            is_fittest(final(self).population@, best.0 as int),
            best.1 == fitness_of(final(self).population@[best.0 as int]@),
    {
        let parents: Vec<Chromosome> = self.parent_selection();
        let ghost selected = self.population@;
        let offsprings: Vec<Chromosome> = self.recombination(&parents);
        let ghost born = offsprings@;
        let mutants: Vec<Chromosome> = self.mutation(offsprings);
        self.population = mutants;
        proof {
            assert forall|k: int| 0 <= k < parents@.len() implies can_be_drawn(
                old(self).population@,
                (#[trigger] parents@[k])@,
            ) by {
                lemma_drawn_can_be_drawn(parents@[k], selected, old(self).population@);
            }
            assert(descends(
                self.crossover_type,
                self.population_size,
                old(self).population@,
                parents@,
                born,
                self.population@,
            ));
        }
        self.maximum_fitness(&self.population)
    }

    /// Runs `maxiter` generations, each made of the one before it, the first
    /// of the population as it stands. The highest fitness of each generation
    /// joins the history. The fittest chromosome seen is kept throughout,
    /// starting from one random chromosome: a generation's fittest takes its
    /// place only with a higher fitness.
    pub fn start_loop(&mut self) -> (outcome: (Chromosome, Vec<u64>))
        requires
            old(self).wf(),
            old(self).maxiter > 0 ==> old(self).population@.len() > 0 && old(self).population_size
                >= 2,
        ensures
            final(self).wf(),
            final(self).same_config(old(self)),
            outcome.1@.len() == old(self).maxiter,
            outcome.0.wf(),
            outcome.0@.len() == old(self).chromosome_length,
            genes_in_domain(outcome.0@),
            forall|g: int|
                0 <= g < outcome.1@.len() ==> #[trigger] outcome.1@[g] <= fitness_of(outcome.0@),
            old(self).maxiter == 0 ==> final(self).population@ == old(self).population@,
            old(self).maxiter > 0 ==> final(self).population@.len() == (old(self).population_size
                / 2) * 2 && is_top_fitness(final(self).population@, outcome.1@.last()),
            exists|initial: Seq<usize>, trace: Seq<Seq<Chromosome>>|
                initial.len() == old(self).chromosome_length && genes_in_domain(initial)
                    && final(self).population@ == end_of(old(self).population@, trace)
                    && #[trigger] is_run(
                    old(self).crossover_type,
                    old(self).population_size,
                    old(self).population@,
                    initial,
                    trace,
                    outcome.0@,
                    outcome.1@,
                ),
    {
        let mut best_fitnesses: Vec<u64> = Vec::new();
        let mut best: Chromosome = self.random_chromosome();
        let ghost initial = best@;
        let ghost mut trace: Seq<Seq<Chromosome>> = Seq::empty();
        proof {
            lemma_trace_starts(
                self.crossover_type,
                self.population_size,
                old(self).population@,
            );
        }
        let mut generation: u32 = 0;
        while generation < self.maxiter
            invariant
                generation <= self.maxiter,
                self.wf(),
                self.same_config(old(self)),
                self.maxiter > 0 ==> self.population@.len() > 0 && self.population_size >= 2,
                best_fitnesses@.len() == generation,
                best.wf(),
                best@.len() == self.chromosome_length,
                genes_in_domain(best@),
                forall|g: int|
                    0 <= g < best_fitnesses@.len() ==> #[trigger] best_fitnesses@[g] <= fitness_of(
                        best@,
                    ),
                is_trace(
                    self.crossover_type,
                    self.population_size,
                    old(self).population@,
                    trace,
                    best_fitnesses@,
                ),
                self.population@ == end_of(old(self).population@, trace),
                initial.len() == self.chromosome_length,
                genes_in_domain(initial),
                best@ == champion(initial, trace),
                generation == 0 ==> self.population@ == old(self).population@,
                generation > 0 ==> self.population@.len() == (self.population_size / 2) * 2
                    && is_top_fitness(self.population@, best_fitnesses@.last()),
            decreases self.maxiter - generation,
        {
            let ghost recorded = best_fitnesses@;
            let (best_index, best_fitness) = self.next_generation();
            best_fitnesses.push(best_fitness);
            if best.fitness() < self.population[best_index].fitness() {
                best = self.population[best_index].duplicate();
            }
            proof {
                lemma_trace_extends(
                    self.crossover_type,
                    self.population_size,
                    old(self).population@,
                    trace,
                    recorded,
                    self.population@,
                    best_fitness,
                );
                lemma_champion_step(
                    initial,
                    trace,
                    self.population@,
                    best_index as int,
                );
                trace = trace.push(self.population@);
            }
            generation = generation + 1;
        }
        let outcome = (best, best_fitnesses);
        assert(is_run(
            old(self).crossover_type,
            old(self).population_size,
            old(self).population@,
            initial,
            trace,
            outcome.0@,
            outcome.1@,
        ));
        outcome
    }
}

} // verus!
