use crate::genetic::chromosome::Chromosome;
use crate::genetic::enums::CrossoverType;
use crate::genetic::fitness::{fitness_of, lemma_fitness_bounded};
use crate::genetic::operators::{is_crossover, is_mutation};
use crate::genetic::selection::{
    lemma_total_fitness_same_members, same_members, shares_assigned, total_fitness,
};
use vstd::prelude::*;

verus! {

/// `index` is the first member of the highest fitness in `population`.
pub open spec fn is_fittest(population: Seq<Chromosome>, index: int) -> bool {
    &&& 0 <= index < population.len()
    &&& forall|i: int|
        0 <= i < population.len() ==> fitness_of((#[trigger] population[i])@) <= fitness_of(
            population[index]@,
        )
    &&& forall|i: int|
        0 <= i < index ==> fitness_of((#[trigger] population[i])@) < fitness_of(
            population[index]@,
        )
}

/// `fitness` is the highest fitness in `population`.
pub open spec fn is_top_fitness(population: Seq<Chromosome>, fitness: u64) -> bool {
    exists|index: int|
        is_fittest(population, index) && fitness == fitness_of((#[trigger] population[index])@)
}

/// `parent` is a copy of a member of `population` that has a share of the wheel.
pub open spec fn is_drawn_from(parent: Chromosome, population: Seq<Chromosome>) -> bool {
    exists|i: int|
        0 <= i < population.len() && (#[trigger] population[i]).ratio.num > 0 && parent.agrees(
            &population[i],
        )
}

/// Selection can draw `genes` from `population`: they are the genes of a
/// member with some fitness, or of any member where the population has none.
pub open spec fn can_be_drawn(population: Seq<Chromosome>, genes: Seq<usize>) -> bool {
    exists|i: int|
        0 <= i < population.len() && (#[trigger] population[i])@ == genes && (fitness_of(genes)
            > 0 || total_fitness(population) == 0)
}

/// The pair of offspring number `pair` is a crossover of the pair of parents
/// of the same number.
pub open spec fn pair_recombined(
    kind: CrossoverType,
    parents: Seq<Chromosome>,
    offsprings: Seq<Chromosome>,
    pair: int,
) -> bool {
    is_crossover(
        kind,
        parents[2 * pair]@,
        parents[2 * pair + 1]@,
        offsprings[2 * pair]@,
        offsprings[2 * pair + 1]@,
    )
}

/// `next` comes from `current` by way of `parents` and `offsprings`: `size`
/// parents that selection can draw from `current`, their offspring pair by
/// pair, and a mutant of every offspring.
pub open spec fn descends(
    kind: CrossoverType,
    size: u32,
    current: Seq<Chromosome>,
    parents: Seq<Chromosome>,
    offsprings: Seq<Chromosome>,
    next: Seq<Chromosome>,
) -> bool {
    &&& parents.len() == size
    &&& forall|k: int| 0 <= k < parents.len() ==> can_be_drawn(current, (#[trigger] parents[k])@)
    &&& offsprings.len() == (size / 2) * 2
    &&& forall|pair: int|
        0 <= pair < size / 2 ==> #[trigger] pair_recombined(kind, parents, offsprings, pair)
    &&& next.len() == offsprings.len()
    &&& forall|i: int|
        0 <= i < next.len() ==> is_mutation(offsprings[i]@, (#[trigger] next[i])@)
}

/// `next` is a population that one generation can make of `current`, whatever
/// is drawn.
pub open spec fn is_successor(
    kind: CrossoverType,
    size: u32,
    current: Seq<Chromosome>,
    next: Seq<Chromosome>,
) -> bool {
    exists|parents: Seq<Chromosome>, offsprings: Seq<Chromosome>|
        descends(kind, size, current, parents, offsprings, next)
}

/// `trace` holds the populations of a run from `start`, generation by
/// generation, and `history` the highest fitness of each.
#[verifier::opaque]
pub open spec fn is_trace(
    kind: CrossoverType,
    size: u32,
    start: Seq<Chromosome>,
    trace: Seq<Seq<Chromosome>>,
    history: Seq<u64>,
) -> bool {
    &&& trace.len() == history.len()
    &&& forall|g: int|
        0 <= g < trace.len() ==> is_successor(
            kind,
            size,
            if g == 0 {
                start
            } else {
                trace[g - 1]
            },
            #[trigger] trace[g],
        )
    &&& forall|g: int| 0 <= g < trace.len() ==> is_top_fitness(#[trigger] trace[g], history[g])
}

/// The first member of the highest fitness in a population that has members.
pub open spec fn fittest_index(population: Seq<Chromosome>) -> int {
    choose|index: int| is_fittest(population, index)
}

/// The genes of the fittest chromosome of a run: those of `initial`, until a
/// generation's fittest has a higher fitness and takes its place, and so on
/// through the trace. On equal fitness the earlier one stays.
pub open spec fn champion(initial: Seq<usize>, trace: Seq<Seq<Chromosome>>) -> Seq<usize>
    decreases trace.len(),
{
    if trace.len() == 0 {
        initial
    } else {
        let before = champion(initial, trace.drop_last());
        let top = trace.last()[fittest_index(trace.last())]@;
        if fitness_of(before) < fitness_of(top) {
            top
        } else {
            before
        }
    }
}

/// A run from `start` with the given trace, whose fittest chromosome was
/// `initial` before the first generation, ends with `best` as its fittest
/// chromosome and with `history`.
pub open spec fn is_run(
    kind: CrossoverType,
    size: u32,
    start: Seq<Chromosome>,
    initial: Seq<usize>,
    trace: Seq<Seq<Chromosome>>,
    best: Seq<usize>,
    history: Seq<u64>,
) -> bool {
    &&& is_trace(kind, size, start, trace, history)
    &&& best == champion(initial, trace)
}

/// The population in which a run with the given trace ends: the last of the
/// trace, or the one it started from where there was no generation.
pub open spec fn end_of(start: Seq<Chromosome>, trace: Seq<Seq<Chromosome>>) -> Seq<Chromosome> {
    if trace.len() == 0 {
        start
    } else {
        trace.last()
    }
}

/// A parent that selection drew from a population with its shares assigned
/// can be drawn from any population of the same members.
pub proof fn lemma_drawn_can_be_drawn(
    parent: Chromosome,
    selected: Seq<Chromosome>,
    current: Seq<Chromosome>,
)
    requires
        is_drawn_from(parent, selected),
        shares_assigned(selected),
        same_members(selected, current),
        forall|i: int| 0 <= i < selected.len() ==> (#[trigger] selected[i]).wf(),
    ensures
        can_be_drawn(current, parent@),
{
    let i = choose|i: int|
        0 <= i < selected.len() && (#[trigger] selected[i]).ratio.num > 0 && parent.agrees(
            &selected[i],
        );
    lemma_total_fitness_same_members(selected, current);
    lemma_fitness_bounded(selected[i]@);
}

/// A population has one first member of the highest fitness at most.
pub proof fn lemma_fittest_unique(population: Seq<Chromosome>, i: int, j: int)
    requires
        is_fittest(population, i),
        is_fittest(population, j),
    ensures
        i == j,
{
    if i < j {
        assert(fitness_of(population[i]@) < fitness_of(population[j]@));
    } else if j < i {
        assert(fitness_of(population[j]@) < fitness_of(population[i]@));
    }
}

/// The fittest chromosome of a run after one more generation: the fittest of
/// that generation where its fitness is higher, else the one before.
pub proof fn lemma_champion_step(
    initial: Seq<usize>,
    trace: Seq<Seq<Chromosome>>,
    next: Seq<Chromosome>,
    index: int,
)
    requires
        is_fittest(next, index),
    ensures
        champion(initial, trace.push(next)) == if fitness_of(champion(initial, trace))
            < fitness_of(next[index]@) {
            next[index]@
        } else {
            champion(initial, trace)
        },
{
    assert(trace.push(next).drop_last() == trace);
    lemma_fittest_unique(next, index, fittest_index(next));
}

/// A run without generations has an empty trace.
pub proof fn lemma_trace_starts(kind: CrossoverType, size: u32, start: Seq<Chromosome>)
    ensures
        is_trace(kind, size, start, Seq::empty(), Seq::empty()),
{
    reveal(is_trace);
}

/// A trace of a run stays one when the next generation and its highest
/// fitness join it.
pub proof fn lemma_trace_extends(
    kind: CrossoverType,
    size: u32,
    start: Seq<Chromosome>,
    trace: Seq<Seq<Chromosome>>,
    history: Seq<u64>,
    next: Seq<Chromosome>,
    fitness: u64,
)
    requires
        is_trace(kind, size, start, trace, history),
        is_successor(kind, size, end_of(start, trace), next),
        is_top_fitness(next, fitness),
    ensures
        is_trace(kind, size, start, trace.push(next), history.push(fitness)),
{
    reveal(is_trace);
}

} // verus!
