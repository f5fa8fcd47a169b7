use vstd::prelude::*;

verus! {

/// Longest gene sequence that can be scored. It keeps every score below 2^31,
/// so that the scores of a whole population can be summed in a `u64`.
pub const MAX_CHROMOSOME_LENGTH: usize = 65_536;

/// How often `gene` occurs in `genes`.
pub open spec fn occurrences(genes: Seq<usize>, gene: usize) -> nat
    decreases genes.len(),
{
    if genes.len() == 0 {
        0
    } else {
        occurrences(genes.drop_last(), gene) + if genes.last() == gene {
            1nat
        } else {
            0nat
        }
    }
}

/// The number of conflicts in `genes`: pairs of positions that hold the same gene.
pub open spec fn conflicts_of(genes: Seq<usize>) -> nat
    decreases genes.len(),
{
    if genes.len() == 0 {
        0
    } else {
        conflicts_of(genes.drop_last()) + occurrences(genes.drop_last(), genes.last())
    }
}

/// The number of pairs of positions in a sequence of length `n`.
pub open spec fn pair_count(n: nat) -> nat {
    (n * (n - 1) / 2) as nat
}

/// The fitness of `genes`: the number of pairs of positions that do not conflict.
/// It is highest, `pair_count(len)`, when all genes differ, and zero when all are equal.
pub open spec fn fitness_of(genes: Seq<usize>) -> nat {
    (pair_count(genes.len()) - conflicts_of(genes)) as nat
}

/// A gene occurs at most once per position.
pub proof fn lemma_occurrences_bounded(genes: Seq<usize>, gene: usize)
    ensures
        occurrences(genes, gene) <= genes.len(),
    decreases genes.len(),
{
    if genes.len() > 0 {
        lemma_occurrences_bounded(genes.drop_last(), gene);
    }
}

/// One more position adds as many pairs as there were positions.
pub proof fn lemma_pair_count_step(n: nat)
    ensures
        pair_count(n + 1) == pair_count(n) + n,
{
    assert((n + 1) * n == n * (n - 1) + 2 * n) by (nonlinear_arith);
}

/// More positions never mean fewer pairs.
pub proof fn lemma_pair_count_monotonic(m: nat, n: nat)
    requires
        m <= n,
    ensures
        pair_count(m) <= pair_count(n),
    decreases n - m,
{
    if m < n {
        lemma_pair_count_step(m);
        lemma_pair_count_monotonic(m + 1, n);
    }
}

/// There are never more conflicts than pairs, so the fitness is the exact
/// difference of the two.
pub proof fn lemma_conflicts_bounded(genes: Seq<usize>)
    ensures
        conflicts_of(genes) <= pair_count(genes.len()),
        fitness_of(genes) + conflicts_of(genes) == pair_count(genes.len()),
    decreases genes.len(),
{
    if genes.len() > 0 {
        let front = genes.drop_last();
        lemma_conflicts_bounded(front);
        lemma_occurrences_bounded(front, genes.last());
        lemma_pair_count_step(front.len());
    }
}

/// Every fitness of a sequence that can be scored is below 2^31.
pub proof fn lemma_fitness_bounded(genes: Seq<usize>)
    requires
        genes.len() <= MAX_CHROMOSOME_LENGTH,
    ensures
        fitness_of(genes) <= pair_count(genes.len()) <= 0x7fff_ffff,
{
    lemma_conflicts_bounded(genes);
    lemma_pair_count_monotonic(genes.len(), MAX_CHROMOSOME_LENGTH as nat);
}

/// Counts the conflicts in `genes`.
pub fn count_conflicts(genes: &Vec<usize>) -> (conflicts: u64)
    requires
        genes@.len() <= MAX_CHROMOSOME_LENGTH,
    ensures
        conflicts == conflicts_of(genes@),
{
    let n: usize = genes.len();
    let mut conflicts: u64 = 0;
    let mut j: usize = 0;
    while j < n
        invariant
            n == genes@.len(),
            n <= MAX_CHROMOSOME_LENGTH,
            j <= n,
            conflicts == conflicts_of(genes@.subrange(0, j as int)),
        decreases n - j,
    {
        let ghost front = genes@.subrange(0, j as int);
        let mut seen: u64 = 0;
        let mut i: usize = 0;
        while i < j
            invariant
                n == genes@.len(),
                j < n,
                i <= j,
                front == genes@.subrange(0, j as int),
                seen == occurrences(front.subrange(0, i as int), genes@[j as int]),
                seen <= i,
            decreases j - i,
        {
            proof {
                assert(front.subrange(0, i + 1).drop_last() == front.subrange(0, i as int));
            }
            if genes[i] == genes[j] {
                seen = seen + 1;
            }
            i = i + 1;
        }
        proof {
            assert(front.subrange(0, j as int) == front);
            assert(genes@.subrange(0, j + 1).drop_last() == front);
            lemma_conflicts_bounded(genes@.subrange(0, j + 1));
            lemma_pair_count_monotonic((j + 1) as nat, MAX_CHROMOSOME_LENGTH as nat);
        }
        conflicts = conflicts + seen;
        j = j + 1;
    }
    proof {
        assert(genes@.subrange(0, n as int) == genes@);
    }
    conflicts
}

/// Scores `genes`: the pairs of positions that do not conflict.
pub fn evaluate(genes: &Vec<usize>) -> (fitness: u64)
    requires
        genes@.len() <= MAX_CHROMOSOME_LENGTH,
    ensures
        fitness == fitness_of(genes@),
        fitness <= 0x7fff_ffff,
{
    let n: u64 = genes.len() as u64;
    let conflicts: u64 = count_conflicts(genes);
    if n == 0 {
        0
    } else {
        assert(n * (n - 1) <= 65_536 * 65_536) by (nonlinear_arith)
            requires
                0 < n <= 65_536,
        ;
        let pairs: u64 = n * (n - 1) / 2;
        proof {
            lemma_conflicts_bounded(genes@);
            lemma_fitness_bounded(genes@);
        }
        pairs - conflicts
    }
}

} // verus!
