use crate::genetic::chromosome::genes_in_domain;
use vstd::prelude::*;

verus! {

/// The gene sequences of the sample population: ten rows of ten genes.
pub open spec fn sample_rows() -> Seq<Seq<usize>> {
    seq![
        seq![5, 5, 15, 15, 2, 2, 7, 7, 17, 17],
        seq![1, 15, 15, 25, 25, 25, 12, 17, 22, 3],
        seq![10, 10, 10, 20, 20, 7, 2, 12, 12, 3],
        seq![1, 10, 15, 15, 2, 2, 7, 7, 12, 22],
        seq![5, 5, 20, 25, 20, 25, 12, 12, 17, 3],
        seq![10, 10, 20, 15, 25, 25, 2, 7, 22, 22],
        seq![5, 5, 15, 20, 20, 7, 7, 7, 12, 22],
        seq![10, 15, 15, 25, 20, 2, 2, 12, 17, 17],
        seq![10, 10, 20, 25, 25, 2, 7, 12, 12, 17],
        seq![5, 15, 20, 20, 2, 2, 2, 22, 22, 17],
    ]
}

/// A fixed population for demonstrations and reproducible runs: ten gene
/// sequences of length ten, all within the gene domain.
pub fn sample_dataset() -> (dataset: Vec<Vec<usize>>)
    ensures
        dataset@.len() == 10,
        forall|i: int| 0 <= i < 10 ==> (#[trigger] dataset@[i])@ == sample_rows()[i],
        forall|i: int|
            0 <= i < 10 ==> (#[trigger] dataset@[i])@.len() == 10 && genes_in_domain(dataset@[i]@),
{
    let dataset: Vec<Vec<usize>> = vec![
        vec![5, 5, 15, 15, 2, 2, 7, 7, 17, 17],
        vec![1, 15, 15, 25, 25, 25, 12, 17, 22, 3],
        vec![10, 10, 10, 20, 20, 7, 2, 12, 12, 3],
        vec![1, 10, 15, 15, 2, 2, 7, 7, 12, 22],
        vec![5, 5, 20, 25, 20, 25, 12, 12, 17, 3],
        vec![10, 10, 20, 15, 25, 25, 2, 7, 22, 22],
        vec![5, 5, 15, 20, 20, 7, 7, 7, 12, 22],
        vec![10, 15, 15, 25, 20, 2, 2, 12, 17, 17],
        vec![10, 10, 20, 25, 25, 2, 7, 12, 12, 17],
        vec![5, 15, 20, 20, 2, 2, 2, 22, 22, 17],
    ];
    dataset
}

} // verus!
