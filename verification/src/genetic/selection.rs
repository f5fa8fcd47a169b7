use crate::genetic::chromosome::{Chromosome, Ratio};
use crate::genetic::fitness::{fitness_of, lemma_fitness_bounded};
use vstd::prelude::*;

verus! {

/// The fitness of a population: the sum of the fitness of its members.
pub open spec fn total_fitness(population: Seq<Chromosome>) -> nat
    decreases population.len(),
{
    if population.len() == 0 {
        0
    } else {
        total_fitness(population.drop_last()) + fitness_of(population.last()@)
    }
}

/// The sum of the numerators of the shares recorded on the members.
pub open spec fn total_share(population: Seq<Chromosome>) -> nat
    decreases population.len(),
{
    if population.len() == 0 {
        0
    } else {
        total_share(population.drop_last()) + population.last().ratio.num as nat
    }
}

/// The number of tickets on the roulette wheel of a population: its fitness,
/// or, where no member has any fitness, the number of its members.
pub open spec fn wheel_size(population: Seq<Chromosome>) -> nat {
    if total_fitness(population) > 0 {
        total_fitness(population)
    } else {
        population.len()
    }
}

/// The share that selection gives to a member with the given genes: its part
/// of the population's fitness, or, where no member has any fitness, the same
/// part as every other member.
pub open spec fn share_of(population: Seq<Chromosome>, genes: Seq<usize>) -> Ratio {
    if total_fitness(population) > 0 {
        Ratio { num: fitness_of(genes) as u64, den: total_fitness(population) as u64 }
    } else {
        Ratio { num: 1, den: population.len() as u64 }
    }
}

/// Every member carries the share that selection gives it.
pub open spec fn shares_assigned(population: Seq<Chromosome>) -> bool {
    forall|i: int|
        0 <= i < population.len() ==> (#[trigger] population[i]).ratio == share_of(
            population,
            population[i]@,
        )
}

/// Every member's interval starts where the shares of the members before it
/// end, and is as wide as its own share.
pub open spec fn ranges_accumulated(population: Seq<Chromosome>) -> bool {
    forall|i: int|
        0 <= i < population.len() ==> (#[trigger] population[i]).low == total_share(
            population.subrange(0, i),
        ) && population[i].high == total_share(population.subrange(0, i + 1))
}

/// The intervals of the members divide `[0, den)` in population order: the
/// first starts at zero, each starts where the one before it ends, the last
/// ends at `den`, and each is as wide as its member's share of `den`.
pub open spec fn is_wheel(population: Seq<Chromosome>, den: u64) -> bool {
    &&& population.len() > 0
    &&& population[0].low == 0
    &&& population.last().high == den
    &&& forall|i: int|
        0 <= i < population.len() ==> (#[trigger] population[i]).ratio.den == den
            && population[i].low + population[i].ratio.num == population[i].high
    &&& forall|i: int|
        0 <= i < population.len() - 1 ==> (#[trigger] population[i]).high == population[i
            + 1].low
}

/// Two populations hold the same genes with the same scores, member by member.
pub open spec fn same_members(a: Seq<Chromosome>, b: Seq<Chromosome>) -> bool {
    &&& a.len() == b.len()
    &&& forall|i: int| 0 <= i < a.len() ==> (#[trigger] a[i])@ == b[i]@ && a[i].score == b[i].score
}

/// `index` is the member that a ticket selects: the first whose interval holds
/// the ticket, or the last member where no interval holds it.
pub open spec fn is_selected(population: Seq<Chromosome>, ticket: u64, index: int) -> bool {
    &&& 0 <= index < population.len()
    &&& forall|i: int| 0 <= i < index ==> !(#[trigger] population[i]).holds(ticket)
    &&& population[index].holds(ticket) || index == population.len() - 1
}

/// The fitness of a population of scorable members is below `2^31` per member.
pub proof fn lemma_total_fitness_bounded(population: Seq<Chromosome>)
    requires
        forall|i: int| 0 <= i < population.len() ==> (#[trigger] population[i]).wf(),
    ensures
        total_fitness(population) <= population.len() * 0x7fff_ffff,
    decreases population.len(),
{
    if population.len() > 0 {
        lemma_total_fitness_bounded(population.drop_last());
        lemma_fitness_bounded(population.last()@);
    }
}

/// The fitness of a population depends on the genes of its members alone.
pub proof fn lemma_total_fitness_same_members(a: Seq<Chromosome>, b: Seq<Chromosome>)
    requires
        same_members(a, b),
    ensures
        total_fitness(a) == total_fitness(b),
    decreases a.len(),
{
    if a.len() > 0 {
        lemma_total_fitness_same_members(a.drop_last(), b.drop_last());
    }
}

/// Where every member carries the share that selection gives it, the shares of
/// the first `k` members sum to their fitness, or to `k` where the population
/// has no fitness.
pub proof fn lemma_assigned_shares_prefix(population: Seq<Chromosome>, k: int)
    requires
        shares_assigned(population),
        forall|i: int| 0 <= i < population.len() ==> (#[trigger] population[i]).wf(),
        0 <= k <= population.len(),
    ensures
        total_share(population.subrange(0, k)) == if total_fitness(population) > 0 {
            total_fitness(population.subrange(0, k))
        } else {
            k as nat
        },
    decreases k,
{
    if k > 0 {
        lemma_assigned_shares_prefix(population, k - 1);
        assert(population.subrange(0, k).drop_last() == population.subrange(0, k - 1));
        lemma_fitness_bounded(population[k - 1]@);
    }
}

/// Where every member carries the share that selection gives it, all the
/// shares together make up the whole wheel.
pub proof fn lemma_assigned_shares_total(population: Seq<Chromosome>)
    requires
        shares_assigned(population),
        forall|i: int| 0 <= i < population.len() ==> (#[trigger] population[i]).wf(),
    ensures
        total_share(population) == wheel_size(population),
{
    lemma_assigned_shares_prefix(population, population.len() as int);
    assert(population.subrange(0, population.len() as int) == population);
}

/// The sum of the shares of the first `k` members depends on the shares alone.
pub proof fn lemma_total_share_same_ratios(a: Seq<Chromosome>, b: Seq<Chromosome>, k: int)
    requires
        a.len() == b.len(),
        forall|i: int| 0 <= i < a.len() ==> (#[trigger] a[i]).ratio == b[i].ratio,
        0 <= k <= a.len(),
    ensures
        total_share(a.subrange(0, k)) == total_share(b.subrange(0, k)),
    decreases k,
{
    if k > 0 {
        lemma_total_share_same_ratios(a, b, k - 1);
        assert(a.subrange(0, k).drop_last() == a.subrange(0, k - 1));
        assert(b.subrange(0, k).drop_last() == b.subrange(0, k - 1));
    }
}

/// The shares of the first members never sum to more than the shares of all.
pub proof fn lemma_total_share_prefix(population: Seq<Chromosome>, k: int)
    requires
        0 <= k <= population.len(),
    ensures
        total_share(population.subrange(0, k)) <= total_share(population),
    decreases population.len() - k,
{
    if k < population.len() {
        lemma_total_share_prefix(population, k + 1);
        assert(population.subrange(0, k + 1).drop_last() == population.subrange(0, k));
    } else {
        assert(population.subrange(0, k) == population);
    }
}

/// Accumulated intervals of assigned shares divide the whole wheel.
pub proof fn lemma_accumulated_is_wheel(population: Seq<Chromosome>)
    requires
        population.len() > 0,
        population.len() <= u32::MAX,
        forall|i: int| 0 <= i < population.len() ==> (#[trigger] population[i]).wf(),
        shares_assigned(population),
        ranges_accumulated(population),
    ensures
        wheel_size(population) <= u64::MAX,
        is_wheel(population, wheel_size(population) as u64),
{
    let n = population.len() as int;
    lemma_total_fitness_bounded(population);
    lemma_assigned_shares_total(population);
    assert forall|i: int| 0 <= i < n implies (#[trigger] population[i]).low
        + population[i].ratio.num == population[i].high by {
        assert(population.subrange(0, i + 1).drop_last() == population.subrange(0, i));
    }
}

/// On a wheel, the widths of the intervals of the first `k` members sum to the
/// point where the next interval starts.
pub proof fn lemma_wheel_prefix(population: Seq<Chromosome>, den: u64, k: int)
    requires
        is_wheel(population, den),
        0 <= k <= population.len(),
    ensures
        total_share(population.subrange(0, k)) == if k == population.len() {
            den as int
        } else {
            population[k].low as int
        },
    decreases k,
{
    if k > 0 {
        lemma_wheel_prefix(population, den, k - 1);
        assert(population.subrange(0, k).drop_last() == population.subrange(0, k - 1));
    }
}

/// The widths of the intervals of a wheel sum to the whole: the shares of the
/// members add up to exactly one.
pub proof fn lemma_wheel_widths_sum(population: Seq<Chromosome>, den: u64)
    requires
        is_wheel(population, den),
    ensures
        total_share(population) == den,
        forall|i: int|
            0 <= i < population.len() ==> (#[trigger] population[i]).high - population[i].low
                == population[i].ratio.num,
{
    lemma_wheel_prefix(population, den, population.len() as int);
    assert(population.subrange(0, population.len() as int) == population);
}

/// The intervals of a wheel lie in population order and do not overlap: an
/// earlier member's interval ends before a later member's starts, and none
/// reaches beyond `den`.
pub proof fn lemma_wheel_ordered(population: Seq<Chromosome>, den: u64, i: int, j: int)
    requires
        is_wheel(population, den),
        0 <= i < j < population.len(),
    ensures
        population[i].low <= population[i].high <= population[j].low <= population[j].high <= den,
    decreases population.len() - i,
{
    if i + 1 < j {
        lemma_wheel_ordered(population, den, i + 1, j);
    } else if j + 1 < population.len() {
        lemma_wheel_ordered(population, den, j, j + 1);
    }
}

/// No ticket lies in the intervals of two members of a wheel.
pub proof fn lemma_wheel_disjoint(
    population: Seq<Chromosome>,
    den: u64,
    ticket: u64,
    i: int,
    j: int,
)
    requires
        is_wheel(population, den),
        0 <= i < population.len(),
        0 <= j < population.len(),
        population[i].holds(ticket),
        population[j].holds(ticket),
    ensures
        i == j,
{
    if i < j {
        lemma_wheel_ordered(population, den, i, j);
    } else if j < i {
        lemma_wheel_ordered(population, den, j, i);
    }
}

/// Every ticket below `den` lies in the interval of a member of the wheel, at
/// or after any position whose interval starts at or before the ticket.
proof fn lemma_wheel_covers_from(population: Seq<Chromosome>, den: u64, ticket: u64, from: int)
    requires
        is_wheel(population, den),
        ticket < den,
        0 <= from < population.len(),
        population[from].low <= ticket,
    ensures
        exists|i: int| from <= i < population.len() && (#[trigger] population[i]).holds(ticket),
    decreases population.len() - from,
{
    if population[from].high <= ticket && from + 1 < population.len() {
        lemma_wheel_covers_from(population, den, ticket, from + 1);
    }
}

/// Every ticket below `den` lies in the interval of some member of the wheel,
/// and the member that the ticket selects is that one: the fallback to the
/// last member is never needed, and a member without any share is never
/// selected.
pub proof fn lemma_wheel_covers(population: Seq<Chromosome>, den: u64, ticket: u64, index: int)
    requires
        is_wheel(population, den),
        ticket < den,
        is_selected(population, ticket, index),
    ensures
        population[index].holds(ticket),
        population[index].ratio.num > 0,
{
    lemma_wheel_covers_from(population, den, ticket, 0);
}

} // verus!
