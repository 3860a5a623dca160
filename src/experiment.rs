//! Experiments: rows of query variants, evaluated over a corpus, and the
//! layout of their scored results.
use vstd::prelude::*;
use crate::filter::{
    bool_int, malformed_indices, query_matches, unresolved_indices, DocumentSetEvaluation, Filter,
};
use crate::normalize::normalized;
use crate::scoring::Results;
use crate::text::{chars_of, replaced, single, string_of, substitute2};

verus! {

/// One experiment: the raw query variants, in the order of the labels.
pub struct Experiment {
    pub query_set: Vec<String>,
}

/// A query of the query source as an experiment reads it: each double space
/// replaced by a single one.
pub open spec fn query_of(cell: Seq<char>) -> Seq<char> {
    replaced(cell, seq![' ', ' '], seq![' '])
}

impl Experiment {
    /// The experiment of the first `number_of_queries` cells of a row of the
    /// query source, or `None` where the row has fewer cells.
    pub fn from_row(row: &Vec<String>, number_of_queries: usize) -> (r: Option<Experiment>)
        ensures
            r is None <==> row@.len() < number_of_queries,
            r matches Option::Some(e) ==> {
                &&& e.query_set@.len() == number_of_queries
                &&& forall|i: int|
                    0 <= i < number_of_queries ==> (#[trigger] e.query_set@[i])@ == query_of(
                        row@[i]@,
                    )
            },
    {
        if row.len() < number_of_queries {
            return None;
        }
        let mut query_set: Vec<String> = Vec::new();
        let space = single(' ');
        let mut i: usize = 0;
        while i < number_of_queries
            invariant
                number_of_queries <= row@.len(),
                i <= number_of_queries,
                space@ == seq![' '],
                query_set@.len() == i,
                forall|j: int| 0 <= j < i ==> (#[trigger] query_set@[j])@ == query_of(row@[j]@),
            decreases number_of_queries - i,
        {
            let cell = chars_of(row[i].as_str());
            query_set.push(string_of(&substitute2(&cell, ' ', ' ', &space)));
            i = i + 1;
        }
        Some(Experiment { query_set })
    }
}

/// The evaluation of the raw query `query` on each raw document text of
/// `texts`, in order.
pub fn evaluate_variant(query: &str, texts: &Vec<String>) -> (r: DocumentSetEvaluation)
    ensures
        r.outcomes@.len() == texts@.len(),
        forall|i: int|
            0 <= i < texts@.len() ==> #[trigger] r.outcomes@[i] == bool_int(
                query_matches(query@, normalized(texts@[i]@)),
            ),
        r.malformed@ == malformed_indices(query@, texts@, texts@.len()),
        r.unresolved@ == unresolved_indices(query@, texts@, texts@.len()),
{
    Filter::new(query).eval_document_set(texts)
}

/// The column suffix of the `j`-th count of a label.
pub open spec fn column_suffix(j: int) -> Seq<char> {
    if j == 0 {
        " True Positives"@
    } else if j == 1 {
        " False Positives"@
    } else if j == 2 {
        " True Negatives"@
    } else if j == 3 {
        " False Negatives"@
    } else {
        " Elapsed"@
    }
}

/// The number of result columns for each label.
pub const COLUMNS_PER_LABEL: usize = 5;

/// The header of the result table: for each label, in order, its five
/// columns.
pub fn result_header(query_labels: &Vec<String>) -> (header: Vec<String>)
    requires
        query_labels@.len() * 5 <= usize::MAX,
    ensures
        header@.len() == query_labels@.len() * 5,
        forall|k: int, j: int|
            0 <= k < query_labels@.len() && 0 <= j < 5 ==> (#[trigger] header@[k * 5 + j])@ == (
            #[trigger] query_labels@[k])@ + column_suffix(j),
{
    let mut header: Vec<String> = Vec::new();
    let mut k: usize = 0;
    while k < query_labels.len()
        invariant
            k <= query_labels@.len(),
            header@.len() == k * 5,
            forall|m: int, j: int|
                0 <= m < k && 0 <= j < 5 ==> (#[trigger] header@[m * 5 + j])@ == (
                #[trigger] query_labels@[m])@ + column_suffix(j),
        decreases query_labels@.len() - k,
    {
        let label = query_labels[k].as_str();
        let ghost before = header@;
        header.push(string_of(&chars_of(label)).concat(" True Positives"));
        header.push(string_of(&chars_of(label)).concat(" False Positives"));
        header.push(string_of(&chars_of(label)).concat(" True Negatives"));
        header.push(string_of(&chars_of(label)).concat(" False Negatives"));
        header.push(string_of(&chars_of(label)).concat(" Elapsed"));
        proof {
            assert forall|m: int, j: int|
                0 <= m < k + 1 && 0 <= j < 5 implies (#[trigger] header@[m * 5 + j])@ == (
            #[trigger] query_labels@[m])@ + column_suffix(j) by {
                if m < k {
                    assert(m * 5 + j < k * 5) by (nonlinear_arith)
                        requires
                            m < k,
                            0 <= j < 5,
                    ;
                    assert(header@[m * 5 + j] == before[m * 5 + j]);
                } else {
                    assert(m * 5 + j == k * 5 + j);
                }
            }
        }
        k = k + 1;
    }
    header
}

impl Results {
    /// The number of variants that every field covers.
    pub open spec fn covers(&self, n: int) -> bool {
        &&& n <= self.true_positives@.len()
        &&& n <= self.false_positives@.len()
        &&& n <= self.true_negatives@.len()
        &&& n <= self.false_negatives@.len()
        &&& n == self.elapsed@.len()
    }

    /// The values of the first `n` variants in a row of the result table:
    /// for each, in order, its true positives, false positives, true
    /// negatives, false negatives and elapsed seconds.
    pub open spec fn row_prefix(&self, n: nat) -> Seq<u64>
        decreases n,
    {
        if n == 0 {
            Seq::empty()
        } else {
            let i = n - 1;
            self.row_prefix(i as nat) + seq![
                self.true_positives@[i],
                self.false_positives@[i],
                self.true_negatives@[i],
                self.false_negatives@[i],
                self.elapsed@[i],
            ]
        }
    }

    /// The values of one row of the result table, all variants in order.
    pub fn row_values(&self) -> (row: Vec<u64>)
        requires
            self.covers(self.elapsed@.len() as int),
        ensures
            row@ == self.row_prefix(self.elapsed@.len()),
    {
        let mut row: Vec<u64> = Vec::new();
        let mut i: usize = 0;
        while i < self.elapsed.len()
            invariant
                self.covers(self.elapsed@.len() as int),
                i <= self.elapsed@.len(),
                row@ == self.row_prefix(i as nat),
            decreases self.elapsed@.len() - i,
        {
            row.push(self.true_positives[i]);
            row.push(self.false_positives[i]);
            row.push(self.true_negatives[i]);
            row.push(self.false_negatives[i]);
            row.push(self.elapsed[i]);
            proof {
                assert(row@ =~= self.row_prefix((i + 1) as nat));
            }
            i = i + 1;
        }
        row
    }
}

} // verus!
