//! Confusion-matrix scoring of outcome vectors against a reference vector.
use vstd::prelude::*;

verus! {

/// The number of positions `i` below `n` where `a[i] == x` and `b[i] == y`.
pub open spec fn count_pairs(a: Seq<u8>, b: Seq<u8>, x: u8, y: u8, n: nat) -> nat
    decreases n,
{
    if n == 0 {
        0
    } else {
        count_pairs(a, b, x, y, (n - 1) as nat) + if a[n - 1] == x && b[n - 1] == y {
            1nat
        } else {
            0nat
        }
    }
}

/// The number of documents where `a` has outcome `x` and the reference `b`
/// has outcome `y`.
pub open spec fn tally(a: Seq<u8>, b: Seq<u8>, x: u8, y: u8) -> nat {
    count_pairs(a, b, x, y, a.len())
}

/// Every outcome is 0 or 1.
pub open spec fn is_outcome_vector(a: Seq<u8>) -> bool {
    forall|i: int| 0 <= i < a.len() ==> #[trigger] a[i] == 0 || a[i] == 1
}

proof fn lemma_count_bound(a: Seq<u8>, b: Seq<u8>, x: u8, y: u8, n: nat)
    ensures
        count_pairs(a, b, x, y, n) <= n,
    decreases n,
{
    if n > 0 {
        lemma_count_bound(a, b, x, y, (n - 1) as nat);
    }
}

/// Scored against a vector of outcomes of the same length, the four counts of
/// a vector of outcomes add up to that length.
pub proof fn lemma_counts_sum(a: Seq<u8>, b: Seq<u8>)
    requires
        a.len() == b.len(),
        is_outcome_vector(a),
        is_outcome_vector(b),
    ensures
        tally(a, b, 1, 1) + tally(a, b, 1, 0) + tally(a, b, 0, 0) + tally(a, b, 0, 1) == a.len(),
{
    lemma_counts_sum_upto(a, b, a.len());
}

proof fn lemma_counts_sum_upto(a: Seq<u8>, b: Seq<u8>, n: nat)
    requires
        n <= a.len(),
        a.len() == b.len(),
        is_outcome_vector(a),
        is_outcome_vector(b),
    ensures
        count_pairs(a, b, 1, 1, n) + count_pairs(a, b, 1, 0, n) + count_pairs(a, b, 0, 0, n)
            + count_pairs(a, b, 0, 1, n) == n,
    decreases n,
{
    if n > 0 {
        lemma_counts_sum_upto(a, b, (n - 1) as nat);
        assert(a[n - 1] == 0 || a[n - 1] == 1);
        assert(b[n - 1] == 0 || b[n - 1] == 1);
    }
}

/// Scored against itself, a vector of outcomes has no false positives or
/// false negatives, and its true positives and true negatives add up to its
/// length.
pub proof fn lemma_self_score(a: Seq<u8>)
    requires
        is_outcome_vector(a),
    ensures
        tally(a, a, 1, 1) + tally(a, a, 0, 0) == a.len(),
        tally(a, a, 1, 0) == 0,
        tally(a, a, 0, 1) == 0,
{
    lemma_self_score_upto(a, a.len());
    lemma_counts_sum(a, a);
}

proof fn lemma_self_score_upto(a: Seq<u8>, n: nat)
    requires
        n <= a.len(),
    ensures
        count_pairs(a, a, 1, 0, n) == 0,
        count_pairs(a, a, 0, 1, n) == 0,
    decreases n,
{
    if n > 0 {
        lemma_self_score_upto(a, (n - 1) as nat);
    }
}

/// The number of positions where `res` has `x` and `reference` has `y`.
pub fn count_matching(res: &Vec<u8>, reference: &Vec<u8>, x: u8, y: u8) -> (c: u64)
    requires
        res@.len() == reference@.len(),
    ensures
        c == tally(res@, reference@, x, y),
{
    let mut count: u64 = 0;
    let mut i: usize = 0;
    while i < res.len()
        invariant
            res@.len() == reference@.len(),
            i <= res@.len(),
            count == count_pairs(res@, reference@, x, y, i as nat),
        decreases res@.len() - i,
    {
        proof {
            lemma_count_bound(res@, reference@, x, y, i as nat);
        }
        if res[i] == x && reference[i] == y {
            count = count + 1;
        }
        i = i + 1;
    }
    count
}

/// Per variant, the confusion counts of its outcomes against those of the
/// reference variant, and the time its evaluation took.
pub struct Results {
    pub true_positives: Vec<u64>,
    pub false_positives: Vec<u64>,
    pub true_negatives: Vec<u64>,
    pub false_negatives: Vec<u64>,
    pub elapsed: Vec<u64>,
}

/// All outcome vectors have the length of the reference one.
pub open spec fn aligned(results: Seq<Vec<u8>>, relative_index: int) -> bool {
    &&& 0 <= relative_index < results.len()
    &&& forall|i: int|
        0 <= i < results.len() ==> (#[trigger] results[i])@.len() == results[relative_index]@.len()
}

impl Results {
    /// The counts of variant `i`, whose outcomes are `res`, against the
    /// reference outcomes `reference`.
    pub open spec fn scores(&self, i: int, res: Seq<u8>, reference: Seq<u8>) -> bool {
        &&& self.true_positives@[i] == tally(res, reference, 1, 1)
        &&& self.false_positives@[i] == tally(res, reference, 1, 0)
        &&& self.true_negatives@[i] == tally(res, reference, 0, 0)
        &&& self.false_negatives@[i] == tally(res, reference, 0, 1)
    }

    /// Scores each outcome vector of `results` against the one at
    /// `relative_index`; `elapsed` is kept as it is.
    pub fn new(results: Vec<Vec<u8>>, elapsed: Vec<u64>, relative_index: usize) -> (r: Results)
        requires
            aligned(results@, relative_index as int),
        ensures
            r.true_positives@.len() == results@.len(),
            r.false_positives@.len() == results@.len(),
            r.true_negatives@.len() == results@.len(),
            r.false_negatives@.len() == results@.len(),
            r.elapsed@ == elapsed@,
            forall|i: int|
                0 <= i < results@.len() ==> r.scores(
                    i,
                    #[trigger] results@[i]@,
                    results@[relative_index as int]@,
                ),
    {
        let reference = &results[relative_index];
        let mut true_positives: Vec<u64> = Vec::new();
        let mut false_positives: Vec<u64> = Vec::new();
        let mut true_negatives: Vec<u64> = Vec::new();
        let mut false_negatives: Vec<u64> = Vec::new();
        let mut i: usize = 0;
        while i < results.len()
            invariant
                aligned(results@, relative_index as int),
                reference@ == results@[relative_index as int]@,
                i <= results@.len(),
                true_positives@.len() == i,
                false_positives@.len() == i,
                true_negatives@.len() == i,
                false_negatives@.len() == i,
                forall|j: int|
                    0 <= j < i ==> {
                        &&& true_positives@[j] == tally(results@[j]@, reference@, 1, 1)
                        &&& false_positives@[j] == tally(results@[j]@, reference@, 1, 0)
                        &&& true_negatives@[j] == tally(results@[j]@, reference@, 0, 0)
                        &&& false_negatives@[j] == tally(results@[j]@, reference@, 0, 1)
                    },
            decreases results@.len() - i,
        {
            let res = &results[i];
            true_positives.push(count_matching(res, reference, 1, 1));
            false_positives.push(count_matching(res, reference, 1, 0));
            true_negatives.push(count_matching(res, reference, 0, 0));
            false_negatives.push(count_matching(res, reference, 0, 1));
            i = i + 1;
        }
        Results { true_positives, false_positives, true_negatives, false_negatives, elapsed }
    }
}

/// For every variant of a scored experiment whose outcomes are all 0 or 1,
/// its four counts add up to the number of documents; the reference variant
/// has no false positives or false negatives.
pub proof fn lemma_results_counts(
    r: Results,
    results: Seq<Vec<u8>>,
    relative_index: int,
    i: int,
)
    requires
        aligned(results, relative_index),
        0 <= i < results.len(),
        r.scores(i, results[i]@, results[relative_index]@),
        is_outcome_vector(results[i]@),
        is_outcome_vector(results[relative_index]@),
    ensures
        r.true_positives@[i] + r.false_positives@[i] + r.true_negatives@[i]
            + r.false_negatives@[i] == results[relative_index]@.len(),
        i == relative_index ==> r.false_positives@[i] == 0 && r.false_negatives@[i] == 0
            && r.true_positives@[i] + r.true_negatives@[i] == results[i]@.len(),
{
    lemma_counts_sum(results[i]@, results[relative_index]@);
    if i == relative_index {
        lemma_self_score(results[i]@);
    }
}

} // verus!
