use crate::genetic::chromosome::{genes_in_domain, Chromosome};
use crate::genetic::enums::CrossoverType;
use vstd::prelude::*;

verus! {

/// The child of a one-point crossover: `head`'s genes before the cut, then
/// `tail`'s genes from the cut on.
pub open spec fn spliced(head: Seq<usize>, tail: Seq<usize>, cut: int) -> Seq<usize> {
    head.subrange(0, cut) + tail.subrange(cut, tail.len() as int)
}

/// The child of a two-point crossover: the parent's genes at the positions
/// `lo..=hi`, and zero at every other position.
pub open spec fn windowed(parent: Seq<usize>, lo: int, hi: int) -> Seq<usize> {
    Seq::new(
        parent.len(),
        |k: int|
            if lo <= k <= hi {
                parent[k]
            } else {
                0usize
            },
    )
}

/// The child of a uniform crossover: `heads`' gene where the coin shows true,
/// `tails`' gene where it shows false.
pub open spec fn mixed(heads: Seq<usize>, tails: Seq<usize>, coins: Seq<bool>) -> Seq<usize> {
    Seq::new(
        heads.len(),
        |k: int|
            if coins[k] {
                heads[k]
            } else {
                tails[k]
            },
    )
}

/// `genes` with the genes at positions `i` and `j` exchanged.
pub open spec fn swapped(genes: Seq<usize>, i: int, j: int) -> Seq<usize> {
    genes.update(i, genes[j]).update(j, genes[i])
}

/// The children are those of a one-point crossover of the parents at some cut
/// inside the chromosome.
pub open spec fn is_one_point(
    parent_1: Seq<usize>,
    parent_2: Seq<usize>,
    child_1: Seq<usize>,
    child_2: Seq<usize>,
) -> bool {
    exists|cut: int|
        0 <= cut < parent_1.len() && child_1 == #[trigger] spliced(parent_1, parent_2, cut)
            && child_2 == spliced(parent_2, parent_1, cut)
}

/// The children are those of a two-point crossover of the parents over some
/// window inside the chromosome.
pub open spec fn is_two_point(
    parent_1: Seq<usize>,
    parent_2: Seq<usize>,
    child_1: Seq<usize>,
    child_2: Seq<usize>,
) -> bool {
    exists|lo: int, hi: int|
        0 <= lo <= hi < parent_1.len() && child_1 == #[trigger] windowed(parent_1, lo, hi)
            && child_2 == windowed(parent_2, lo, hi)
}

/// The children are those of a uniform crossover of the parents under some
/// sequence of coins.
pub open spec fn is_uniform(
    parent_1: Seq<usize>,
    parent_2: Seq<usize>,
    child_1: Seq<usize>,
    child_2: Seq<usize>,
) -> bool {
    exists|coins: Seq<bool>|
        coins.len() == parent_1.len() && child_1 == #[trigger] mixed(parent_1, parent_2, coins)
            && child_2 == mixed(parent_2, parent_1, coins)
}

/// The children are those of a crossover of the given kind.
pub open spec fn is_crossover(
    kind: CrossoverType,
    parent_1: Seq<usize>,
    parent_2: Seq<usize>,
    child_1: Seq<usize>,
    child_2: Seq<usize>,
) -> bool {
    match kind {
        CrossoverType::OnePoint => is_one_point(parent_1, parent_2, child_1, child_2),
        CrossoverType::TwoPoint => is_two_point(parent_1, parent_2, child_1, child_2),
        CrossoverType::Uniform => is_uniform(parent_1, parent_2, child_1, child_2),
    }
}

/// `after` is `before` with the genes at some two positions exchanged. The two
/// positions may be the same one, so `before` itself is among them.
pub open spec fn is_mutation(before: Seq<usize>, after: Seq<usize>) -> bool {
    exists|i: int, j: int|
        0 <= i < before.len() && 0 <= j < before.len() && after == #[trigger] swapped(
            before,
            i,
            j,
        )
}

/// Recombines two parents at one cut. The first child has the first parent's
/// genes before the cut and the second parent's from the cut on; the second
/// child has them the other way round. A cut at zero exchanges the parents, a
/// cut at the full length copies them.
pub fn one_point_children(parent_1: &Chromosome, parent_2: &Chromosome, cut: usize) -> (children: (
    Chromosome,
    Chromosome,
))
    requires
        parent_1.wf(),
        parent_2.wf(),
        parent_1@.len() == parent_2@.len(),
        cut <= parent_1@.len(),
    ensures
        children.0.wf(),
        children.1.wf(),
        children.0@.len() == parent_1@.len(),
        children.1@.len() == parent_1@.len(),
        children.0@ == spliced(parent_1@, parent_2@, cut as int),
        children.1@ == spliced(parent_2@, parent_1@, cut as int),
        children.0@.subrange(0, cut as int) == parent_1@.subrange(0, cut as int),
        children.0@.subrange(cut as int, parent_1@.len() as int) == parent_2@.subrange(
            cut as int,
            parent_1@.len() as int,
        ),
        children.1@.subrange(0, cut as int) == parent_2@.subrange(0, cut as int),
        children.1@.subrange(cut as int, parent_1@.len() as int) == parent_1@.subrange(
            cut as int,
            parent_1@.len() as int,
        ),
        genes_in_domain(parent_1@) && genes_in_domain(parent_2@) ==> genes_in_domain(children.0@)
            && genes_in_domain(children.1@),
{
    let n: usize = parent_1.gens.len();
    let mut genes_1: Vec<usize> = Vec::with_capacity(n);
    let mut genes_2: Vec<usize> = Vec::with_capacity(n);
    let mut k: usize = 0;
    while k < n
        invariant
            n == parent_1@.len(),
            n == parent_2@.len(),
            cut <= n,
            k <= n,
            genes_1@.len() == k,
            genes_2@.len() == k,
            forall|m: int|
                0 <= m < k ==> genes_1@[m] == (if m < cut {
                    parent_1@[m]
                } else {
                    parent_2@[m]
                }),
            forall|m: int|
                0 <= m < k ==> genes_2@[m] == (if m < cut {
                    parent_2@[m]
                } else {
                    parent_1@[m]
                }),
        decreases n - k,
    {
        if k < cut {
            genes_1.push(parent_1.gens[k]);
            genes_2.push(parent_2.gens[k]);
        } else {
            genes_1.push(parent_2.gens[k]);
            genes_2.push(parent_1.gens[k]);
        }
        k = k + 1;
    }
    (Chromosome::new(genes_1), Chromosome::new(genes_2))
}

/// Recombines two parents over a window. The two positions drawn are put in
/// order, `lo <= hi`; each child keeps its own parent's genes at `lo..=hi` and
/// holds zero everywhere else. Nothing is taken from the other parent.
pub fn two_point_children(
    parent_1: &Chromosome,
    parent_2: &Chromosome,
    first: usize,
    second: usize,
) -> (children: (Chromosome, Chromosome))
    requires
        parent_1.wf(),
        parent_2.wf(),
        parent_1@.len() == parent_2@.len(),
        first < parent_1@.len(),
        second < parent_1@.len(),
    ensures
        children.0.wf(),
        children.1.wf(),
        children.0@.len() == parent_1@.len(),
        children.1@.len() == parent_1@.len(),
        first <= second ==> children.0@ == windowed(parent_1@, first as int, second as int)
            && children.1@ == windowed(parent_2@, first as int, second as int),
        second <= first ==> children.0@ == windowed(parent_1@, second as int, first as int)
            && children.1@ == windowed(parent_2@, second as int, first as int),
        genes_in_domain(parent_1@) && genes_in_domain(parent_2@) ==> genes_in_domain(children.0@)
            && genes_in_domain(children.1@),
{
    let n: usize = parent_1.gens.len();
    let mut ind_1: usize = first;
    let mut ind_2: usize = second;
    if ind_2 < ind_1 {
        let t: usize = ind_2;
        ind_2 = ind_1;
        ind_1 = t;
    }
    let mut genes_1: Vec<usize> = Vec::with_capacity(n);
    let mut genes_2: Vec<usize> = Vec::with_capacity(n);
    let mut k: usize = 0;
    while k < n
        invariant
            k <= n,
            genes_1@ == Seq::new(k as nat, |m: int| 0usize),
            genes_2@ == Seq::new(k as nat, |m: int| 0usize),
        decreases n - k,
    {
        genes_1.push(0);
        genes_2.push(0);
        k = k + 1;
    }
    let mut i: usize = ind_1;
    while i <= ind_2
        invariant
            n == parent_1@.len(),
            n == parent_2@.len(),
            ind_1 <= i <= ind_2 + 1,
            ind_2 < n,
            genes_1@.len() == n,
            genes_2@.len() == n,
            forall|m: int|
                0 <= m < n ==> genes_1@[m] == (if ind_1 <= m < i {
                    parent_1@[m]
                } else {
                    0usize
                }),
            forall|m: int|
                0 <= m < n ==> genes_2@[m] == (if ind_1 <= m < i {
                    parent_2@[m]
                } else {
                    0usize
                }),
        decreases ind_2 + 1 - i,
    {
        genes_1[i] = parent_1.gens[i];
        genes_2[i] = parent_2.gens[i];
        i = i + 1;
    }
    (Chromosome::new(genes_1), Chromosome::new(genes_2))
}

/// Recombines two parents gene by gene. Where the coin of a position shows
/// true the first child takes the first parent's gene and the second child the
/// second parent's; where it shows false they take them crosswise. So at every
/// position the two children hold the two parents' genes, in one order or the
/// other.
pub fn uniform_children(parent_1: &Chromosome, parent_2: &Chromosome, coins: &Vec<bool>) -> (children:
    (Chromosome, Chromosome))
    requires
        parent_1.wf(),
        parent_2.wf(),
        parent_1@.len() == parent_2@.len(),
        coins@.len() == parent_1@.len(),
    ensures
        children.0.wf(),
        children.1.wf(),
        children.0@.len() == parent_1@.len(),
        children.1@.len() == parent_1@.len(),
        children.0@ == mixed(parent_1@, parent_2@, coins@),
        children.1@ == mixed(parent_2@, parent_1@, coins@),
        forall|k: int|
            0 <= k < parent_1@.len() ==> (#[trigger] children.0@[k] == parent_1@[k]
                && children.1@[k] == parent_2@[k]) || (children.0@[k] == parent_2@[k]
                && children.1@[k] == parent_1@[k]),
        genes_in_domain(parent_1@) && genes_in_domain(parent_2@) ==> genes_in_domain(children.0@)
            && genes_in_domain(children.1@),
{
    let length: usize = parent_1.gens.len();
    let mut child1: Vec<usize> = Vec::with_capacity(length);
    let mut child2: Vec<usize> = Vec::with_capacity(length);
    let mut i: usize = 0;
    while i < length
        invariant
            length == parent_1@.len(),
            length == parent_2@.len(),
            length == coins@.len(),
            i <= length,
            child1@ == mixed(parent_1@, parent_2@, coins@).subrange(0, i as int),
            child2@ == mixed(parent_2@, parent_1@, coins@).subrange(0, i as int),
        decreases length - i,
    {
        if coins[i] {
            child1.push(parent_1.gens[i]);
            child2.push(parent_2.gens[i]);
        } else {
            child1.push(parent_2.gens[i]);
            child2.push(parent_1.gens[i]);
        }
        i = i + 1;
    }
    (Chromosome::new(child1), Chromosome::new(child2))
}

/// A copy of `chromosome` with the genes at positions `i` and `j` exchanged.
/// No other position changes, the genes stay the same multiset, and with
/// `i == j` the copy has the very genes of `chromosome`.
pub fn swap_genes(chromosome: &Chromosome, i: usize, j: usize) -> (mutant: Chromosome)
    requires
        chromosome.wf(),
        i < chromosome@.len(),
        j < chromosome@.len(),
    ensures
        mutant.wf(),
        mutant@ == swapped(chromosome@, i as int, j as int),
        mutant@.len() == chromosome@.len(),
        mutant@.to_multiset() == chromosome@.to_multiset(),
        forall|k: int|
            0 <= k < chromosome@.len() && k != i && k != j ==> mutant@[k] == chromosome@[k],
        i == j ==> mutant@ == chromosome@,
        genes_in_domain(chromosome@) ==> genes_in_domain(mutant@),
{
    let mut new_gens: Vec<usize> = chromosome.duplicate().gens;
    let t: usize = new_gens[i];
    new_gens[i] = new_gens[j];
    new_gens[j] = t;
    proof {
        lemma_swapped_is_permutation(chromosome@, i as int, j as int);
    }
    Chromosome::new(new_gens)
}

/// Exchanging two genes permutes the sequence: every gene occurs as often as before.
pub proof fn lemma_swapped_is_permutation(genes: Seq<usize>, i: int, j: int)
    requires
        0 <= i < genes.len(),
        0 <= j < genes.len(),
    ensures
        swapped(genes, i, j).to_multiset() == genes.to_multiset(),
{
    broadcast use vstd::seq_lib::to_multiset_update;
    broadcast use vstd::multiset::group_multiset_axioms;

    let all = genes.to_multiset();
    assert(all.count(genes[i]) > 0 && all.count(genes[j]) > 0) by {
        genes.to_multiset_ensures();
    }
    assert(swapped(genes, i, j).to_multiset() =~= all);
}

} // verus!
