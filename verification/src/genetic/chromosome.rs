use crate::genetic::fitness::{
    conflicts_of, count_conflicts, evaluate, fitness_of, MAX_CHROMOSOME_LENGTH,
};
use vstd::prelude::*;

verus! {

/// The largest value a gene takes; the gene domain is `0..=GENE_MAX`.
pub const GENE_MAX: usize = 25;

/// Whether every gene of `genes` lies in the gene domain.
pub open spec fn genes_in_domain(genes: Seq<usize>) -> bool {
    forall|k: int| 0 <= k < genes.len() ==> #[trigger] genes[k] <= GENE_MAX
}

/// An exact fraction `num / den`. It is a proper share when `den > 0`.
#[derive(Clone, Copy, Debug, PartialEq, Eq, Structural)]
pub struct Ratio {
    pub num: u64,
    pub den: u64,
}

/// A candidate solution: a sequence of genes with its fitness, and its standing
/// in the current generation. The view of a chromosome is its gene sequence.
///
/// The standing is the chromosome's share of the population's fitness and the
/// half-open interval `[low, high)` it occupies on the roulette wheel, both
/// counted in units of one over the share's denominator.
#[derive(Clone, Debug, PartialEq, Eq)]
pub struct Chromosome {
    pub gens: Vec<usize>,
    pub score: u64,
    pub ratio: Ratio,
    pub low: u64,
    pub high: u64,
}

impl View for Chromosome {
    type V = Seq<usize>;

    open spec fn view(&self) -> Seq<usize> {
        self.gens@
    }
}

impl Chromosome {
    /// The genes can be scored and the cached score is their fitness.
    pub open spec fn wf(&self) -> bool {
        &&& self@.len() <= MAX_CHROMOSOME_LENGTH
        &&& self.score == fitness_of(self@)
    }

    /// Whether `ticket` falls into this chromosome's interval on the wheel.
    pub open spec fn holds(&self, ticket: u64) -> bool {
        self.low <= ticket < self.high
    }

    /// Whether `other` has the same genes, score and standing.
    pub open spec fn agrees(&self, other: &Chromosome) -> bool {
        &&& self@ == other@
        &&& self.score == other.score
        &&& self.ratio == other.ratio
        &&& self.low == other.low
        &&& self.high == other.high
    }

    /// A chromosome of the given genes, scored at once. It has no standing yet:
    /// its share is zero and its interval is empty.
    pub fn new(gens: Vec<usize>) -> (chromosome: Chromosome)
        requires
            gens@.len() <= MAX_CHROMOSOME_LENGTH,
        ensures
            chromosome.wf(),
            chromosome@ == gens@,
            chromosome.ratio == (Ratio { num: 0, den: 1 }),
            chromosome.low == 0,
            chromosome.high == 0,
    {
        let score: u64 = evaluate(&gens);
        Chromosome { gens, score, ratio: Ratio { num: 0, den: 1 }, low: 0, high: 0 }
    }

    /// The gene sequence.
    pub fn genes(&self) -> (genes: &Vec<usize>)
        ensures
            genes@ == self@,
    {
        &self.gens
    }

    /// The fitness of the genes, as cached at construction.
    pub fn fitness(&self) -> (fitness: u64)
        requires
            self.wf(),
        ensures
            fitness == fitness_of(self@),
    {
        self.score
    }

    /// The number of conflicting pairs of genes, counted afresh.
    pub fn conflicts(&self) -> (conflicts: u64)
        requires
            self.wf(),
        ensures
            conflicts == conflicts_of(self@),
    {
        count_conflicts(&self.gens)
    }

    /// Records and returns this chromosome's share `fitness / total` of a
    /// population whose fitness sums to `total`.
    pub fn fitness_ratio(&mut self, total: u64) -> (ratio: Ratio)
        requires
            old(self).wf(),
        ensures
            ratio == (Ratio { num: fitness_of(old(self)@) as u64, den: total }),
            final(self).ratio == ratio,
            final(self)@ == old(self)@,
            final(self).score == old(self).score,
            final(self).low == old(self).low,
            final(self).high == old(self).high,
    {
        let ratio = Ratio { num: self.score, den: total };
        self.ratio = ratio;
        ratio
    }

    /// Records and returns the share `1 / size` that every member has in a
    /// population of `size` chromosomes none of which has any fitness.
    pub fn equal_ratio(&mut self, size: u64) -> (ratio: Ratio)
        ensures
            ratio == (Ratio { num: 1, den: size }),
            final(self).ratio == ratio,
            final(self)@ == old(self)@,
            final(self).score == old(self).score,
            final(self).low == old(self).low,
            final(self).high == old(self).high,
    {
        let ratio = Ratio { num: 1, den: size };
        self.ratio = ratio;
        ratio
    }

    /// Assigns the interval `[range[0], range[1])` on the roulette wheel.
    pub fn set_probability_range(&mut self, range: [u64; 2])
        ensures
            final(self).low == range@[0],
            final(self).high == range@[1],
            final(self)@ == old(self)@,
            final(self).score == old(self).score,
            final(self).ratio == old(self).ratio,
    {
        self.low = range[0];
        self.high = range[1];
    }

    /// Whether the ticket `r` falls into this chromosome's interval.
    pub fn is_chosen(&self, r: u64) -> (chosen: bool)
        ensures
            chosen == self.holds(r),
    {
        self.low <= r && r < self.high
    }

    /// A separate chromosome with the same genes, score and standing.
    pub fn duplicate(&self) -> (copy: Chromosome)
        ensures
            copy.agrees(self),
    {
        let n: usize = self.gens.len();
        let mut gens: Vec<usize> = Vec::with_capacity(n);
        let mut k: usize = 0;
        while k < n
            invariant
                n == self@.len(),
                k <= n,
                gens@ == self@.subrange(0, k as int),
            decreases n - k,
        {
            gens.push(self.gens[k]);
            k = k + 1;
        }
        assert(gens@ == self@);
        Chromosome { gens, score: self.score, ratio: self.ratio, low: self.low, high: self.high }
    }
}

} // verus!
