use query_bench::experiment::{evaluate_variant, result_header, Experiment};
use query_bench::filter::{evaluate_bool_to_int, Filter};
use query_bench::normalize::{normalize, Document};
use query_bench::reducer::{eval_str, reduce, Reduction};
use query_bench::scoring::Results;

fn corpus() -> Vec<String> {
    vec![
        "a cat and a dog".to_string(),
        "only a cat".to_string(),
        "neither".to_string(),
    ]
}

fn chars(s: &str) -> Vec<char> {
    s.chars().collect()
}

#[test]
fn normalize_removes_punctuation_and_keeps_case() {
    assert_eq!(normalize("Hello, World! It's 42."), "Hello World Its 42");
    assert_eq!(normalize("tab\there"), "tabhere");
    assert_eq!(normalize(""), "");
    assert_eq!(normalize("caf\u{e9} na\u{ef}ve"), "caf nave");
}

#[test]
fn normalize_output_is_restricted_and_idempotent() {
    for raw in ["Hello, World!", "a-b_c d", "\u{2019}quoted\u{2019} (x)", "42 + 7 = 49?"] {
        let once = normalize(raw);
        assert!(once.chars().all(|c| c.is_ascii_alphanumeric() || c == ' '));
        assert_eq!(normalize(&once), once);
    }
}

#[test]
fn document_new_normalizes_content() {
    let doc = Document::new("don't stop!".to_string());
    assert_eq!(doc.content, "dont stop");
}

#[test]
fn truth_tables() {
    assert_eq!(eval_str("1|0".to_string()), Some(true));
    assert_eq!(eval_str("1&1".to_string()), Some(true));
    assert_eq!(eval_str("0~1".to_string()), Some(false));
    assert_eq!(eval_str("1~0".to_string()), Some(true));
    assert_eq!(eval_str("0&0".to_string()), Some(false));
    assert_eq!(eval_str("0|0".to_string()), Some(false));
    assert_eq!(eval_str("1~1".to_string()), Some(false));
    assert_eq!(eval_str("0~0".to_string()), Some(false));
}

#[test]
fn reduction_of_nested_and_noisy_expressions() {
    assert_eq!(reduce(chars("(1|0)&(0|0)")), Reduction::False);
    assert_eq!(reduce(chars("((1))")), Reduction::True);
    assert_eq!(reduce(chars("\"1\"|?0")), Reduction::True);
    assert_eq!(reduce(chars("1|1|1|1")), Reduction::True);
    assert_eq!(reduce(chars("+1.-")), Reduction::True);
}

#[test]
fn reduction_failures() {
    assert_eq!(reduce(chars("x")), Reduction::Malformed('x'));
    assert_eq!(reduce(chars("")), Reduction::Unresolved);
    assert_eq!(reduce(chars("1~")), Reduction::Unresolved);
    assert_eq!(eval_str("x".to_string()), Some(false));
    assert_eq!(eval_str("".to_string()), None);
    assert_eq!(eval_str("~1".to_string()), None);
}

#[test]
fn cleanup_resolves_structural_leftovers() {
    // "1(" never changes under the core rules; the cleanup drops the parenthesis.
    assert_eq!(reduce(chars("1(")), Reduction::True);
    assert_eq!(reduce(chars("0)|")), Reduction::False);
}

#[test]
fn dependencies_in_order_with_repeats() {
    let f = Filter::new("'cat' AND 'dog' OR 'cat'");
    assert_eq!(f.raw_string, "'cat' AND 'dog' OR 'cat'");
    assert_eq!(f.dependencies, vec!["cat".to_string(), "dog".to_string(), "cat".to_string()]);
}

#[test]
fn dependencies_read_right_quotes_as_apostrophes() {
    let f = Filter::new("'rock\u{2019}n' OR 'x' 'unterminated");
    assert_eq!(f.dependencies, vec!["rock'n".to_string(), "x".to_string()]);
    assert!(Filter::new("no quotes here").dependencies.is_empty());
}

#[test]
fn evaluation_is_case_sensitive() {
    let f = Filter::new("'Cat'");
    assert_eq!(f.eval_document(Document::new("a cat".to_string())), Reduction::False);
    assert_eq!(f.eval_document(Document::new("a Cat".to_string())), Reduction::True);
}

#[test]
fn evaluation_is_deterministic() {
    let f = Filter::new("('cat' OR 'bird') AND NOT 'dog'");
    let first = f.eval_document(Document::new("a cat".to_string()));
    for _ in 0..5 {
        assert_eq!(f.eval_document(Document::new("a cat".to_string())), first);
    }
}

#[test]
fn scenario_and_query() {
    let evaluation = evaluate_variant("'cat' AND 'dog'", &corpus());
    let outcomes = evaluation.outcomes;
    assert_eq!(outcomes, vec![1, 0, 0]);
    assert!(evaluation.malformed.is_empty());
    assert!(evaluation.unresolved.is_empty());
    let r = Results::new(vec![outcomes], vec![0], 0);
    assert_eq!(r.true_positives, vec![1]);
    assert_eq!(r.false_positives, vec![0]);
    assert_eq!(r.true_negatives, vec![2]);
    assert_eq!(r.false_negatives, vec![0]);
}

#[test]
fn scenario_or_query() {
    let f = Filter::new("'cat' OR 'dog'");
    assert_eq!(f.eval_document_set(&corpus()).outcomes, vec![1, 1, 0]);
}

#[test]
fn scenario_confusion_counts() {
    let r = Results::new(vec![vec![1, 0, 1], vec![1, 1, 0]], vec![3, 4], 0);
    assert_eq!(r.true_positives, vec![2, 1]);
    assert_eq!(r.false_positives, vec![0, 1]);
    assert_eq!(r.true_negatives, vec![1, 0]);
    assert_eq!(r.false_negatives, vec![0, 1]);
    assert_eq!(r.elapsed, vec![3, 4]);
}

#[test]
fn scenario_keyword_inside_term() {
    // The right quotes become apostrophes in the term, so the quoted term is
    // never found in the raw query; its "AND" then turns into "&" and the
    // string cannot reduce, even though 'cat' is present.
    let f = Filter::new("'ROCK\u{2019}AND\u{2019}ROLL' OR 'cat'");
    assert_eq!(f.dependencies, vec!["ROCK'AND'ROLL".to_string(), "cat".to_string()]);
    assert_eq!(f.eval_document(Document::new("a cat".to_string())), Reduction::Unresolved);
    let evaluation = f.eval_document_set(&vec!["a cat".to_string()]);
    assert_eq!(evaluation.outcomes, vec![0]);
    assert_eq!(evaluation.unresolved, vec![0]);
    assert!(evaluation.malformed.is_empty());
}

#[test]
fn counts_sum_to_corpus_size() {
    let results = vec![vec![1, 0, 1, 1, 0], vec![0, 0, 1, 0, 1], vec![1, 1, 1, 1, 1]];
    let r = Results::new(results, vec![0, 0, 0], 1);
    for i in 0..3 {
        let sum = r.true_positives[i] + r.false_positives[i] + r.true_negatives[i]
            + r.false_negatives[i];
        assert_eq!(sum, 5);
    }
    assert_eq!(r.false_positives[1], 0);
    assert_eq!(r.false_negatives[1], 0);
    assert_eq!(r.true_positives[1] + r.true_negatives[1], 5);
}

#[test]
fn empty_corpus_scores_zero() {
    let r = Results::new(vec![vec![], vec![]], vec![1, 2], 1);
    assert_eq!(r.true_positives, vec![0, 0]);
    assert_eq!(r.false_negatives, vec![0, 0]);
}

#[test]
fn bool_to_int() {
    assert_eq!(evaluate_bool_to_int(true), 1);
    assert_eq!(evaluate_bool_to_int(false), 0);
}

#[test]
fn experiment_from_row_collapses_double_spaces() {
    let row = vec!["'a'  OR 'b'".to_string(), "'c'".to_string(), "extra".to_string()];
    let e = Experiment::from_row(&row, 2).unwrap();
    assert_eq!(e.query_set, vec!["'a' OR 'b'".to_string(), "'c'".to_string()]);
    assert!(Experiment::from_row(&row, 4).is_none());
}

#[test]
fn header_and_row_layout() {
    let header = result_header(&vec!["Base".to_string(), "Xu".to_string()]);
    assert_eq!(header.len(), 10);
    assert_eq!(header[0], "Base True Positives");
    assert_eq!(header[4], "Base Elapsed");
    assert_eq!(header[8], "Xu False Negatives");
    let r = Results::new(vec![vec![1, 0], vec![1, 1]], vec![7, 9], 0);
    assert_eq!(r.row_values(), vec![1, 0, 1, 0, 7, 1, 1, 0, 0, 9]);
}

#[test]
fn malformed_and_unresolved_documents_are_reported() {
    let texts = vec!["a cat".to_string(), "a dog".to_string()];
    let malformed = evaluate_variant("NOT", &texts);
    assert_eq!(malformed.outcomes, vec![0, 0]);
    assert_eq!(malformed.malformed, vec![0, 1]);
    assert!(malformed.unresolved.is_empty());
    // A unary NOT leaves "~1" or "~0", which no rule reduces.
    let unary = evaluate_variant("NOT 'cat'", &texts);
    assert_eq!(unary.outcomes, vec![0, 0]);
    assert_eq!(unary.unresolved, vec![0, 1]);
    assert!(unary.malformed.is_empty());
}

#[test]
fn all_unicode_whitespace_is_removed_from_queries() {
    let f = Filter::new("'cat'\u{a0}AND\u{3000}'dog'\t");
    assert_eq!(f.eval_document(Document::new("a cat and a dog".to_string())), Reduction::True);
    assert_eq!(f.eval_document(Document::new("only a cat".to_string())), Reduction::False);
}
