//! Filters: a raw query, the quoted terms it depends on, and its evaluation
//! against a document.
use vstd::prelude::*;
use crate::normalize::{normalize, normalized, Document};
use crate::reducer::{digit, reduce, reduction, truth, Reduction};
use crate::text::{
    chars_of, contains, contains_seq, replace_all, replaced, same_chars, single, string_of,
    substitute1, substitute2, substitute3,
};

verus! {

/// The straight apostrophe that delimits a term.
pub const QUOTE: char = '\'';

/// The typographic right single quotation mark, read as an apostrophe inside
/// a term.
pub const RIGHT_QUOTE: char = '\u{2019}';

/// The quoted spans of `s` read from the left, quotes included, when the scan
/// is outside a span (`open` is `None`) or inside one that began with `open`.
pub open spec fn spans_from(s: Seq<char>, open: Option<Seq<char>>) -> Seq<Seq<char>>
    decreases s.len(),
{
    if s.len() == 0 {
        Seq::empty()
    } else {
        let c = s[0];
        let rest = s.drop_first();
        match open {
            Option::None => if c == QUOTE {
                spans_from(rest, Option::Some(seq![c]))
            } else {
                spans_from(rest, Option::None)
            },
            Option::Some(cur) => if c == QUOTE {
                seq![cur.push(c)] + spans_from(rest, Option::None)
            } else {
                spans_from(rest, Option::Some(cur.push(c)))
            },
        }
    }
}

/// Every substring of `s` that starts and ends with a straight quote and
/// holds none between, left to right, without overlap.
pub open spec fn quoted_spans(s: Seq<char>) -> Seq<Seq<char>> {
    spans_from(s, Option::None)
}

/// The term of a quoted span: quotes removed, right single quotation marks
/// read as apostrophes.
pub open spec fn term_of(span: Seq<char>) -> Seq<char> {
    replaced(replaced(span, seq![QUOTE], Seq::empty()), seq![RIGHT_QUOTE], seq![QUOTE])
}

/// The terms that a raw query depends on, in order of appearance, repeats kept.
pub open spec fn dependencies_of(raw: Seq<char>) -> Seq<Seq<char>> {
    quoted_spans(raw).map_values(|span: Seq<char>| term_of(span))
}

/// `t` between straight quotes, as it stands in a query.
pub open spec fn quoted(t: Seq<char>) -> Seq<char> {
    seq![QUOTE] + t + seq![QUOTE]
}

/// `s` with each quoted term of `deps` replaced by the literal of its presence
/// in `content`; the terms are taken in order, a repeated one once.
pub open spec fn substituted(s: Seq<char>, deps: Seq<Seq<char>>, content: Seq<char>) -> Seq<char>
    decreases deps.len(),
{
    if deps.len() == 0 {
        s
    } else {
        let before = substituted(s, deps.drop_last(), content);
        let t = deps.last();
        if deps.drop_last().contains(t) {
            before
        } else {
            replaced(before, quoted(t), seq![digit(contains_seq(content, t))])
        }
    }
}

/// Whether `c` is whitespace (the characters of Unicode's White_Space
/// property), which the symbolic form drops.
pub open spec fn is_blank(c: char) -> bool {
    ('\u{9}' <= c && c <= '\u{d}') || c == ' ' || c == '\u{85}' || c == '\u{a0}' || c
        == '\u{1680}' || ('\u{2000}' <= c && c <= '\u{200a}') || c == '\u{2028}' || c
        == '\u{2029}' || c == '\u{202f}' || c == '\u{205f}' || c == '\u{3000}'
}

/// Whether `c` is whitespace.
pub fn is_blank_char(c: char) -> (r: bool)
    ensures
        r == is_blank(c),
{
    ('\u{9}' <= c && c <= '\u{d}') || c == ' ' || c == '\u{85}' || c == '\u{a0}' || c
        == '\u{1680}' || ('\u{2000}' <= c && c <= '\u{200a}') || c == '\u{2028}' || c
        == '\u{2029}' || c == '\u{202f}' || c == '\u{205f}' || c == '\u{3000}'
}

/// `s` without whitespace.
pub open spec fn unblanked(s: Seq<char>) -> Seq<char>
    decreases s.len(),
{
    if s.len() == 0 {
        s
    } else if is_blank(s.last()) {
        unblanked(s.drop_last())
    } else {
        unblanked(s.drop_last()).push(s.last())
    }
}

/// The operator keywords replaced by their symbols, as plain substrings.
pub open spec fn keywords_replaced(s: Seq<char>) -> Seq<char> {
    let s = replaced(s, seq!['O', 'R'], seq!['|']);
    let s = replaced(s, seq!['A', 'N', 'D'], seq!['&']);
    replaced(s, seq!['N', 'O', 'T'], seq!['~'])
}

/// The symbolic string of the raw query `raw` against the document text
/// `content`.
pub open spec fn symbolic(raw: Seq<char>, content: Seq<char>) -> Seq<char> {
    let s = substituted(raw, dependencies_of(raw), content);
    keywords_replaced(unblanked(s))
}

/// How the symbolic string of the raw query `raw` against the document text
/// `content` reduces.
pub open spec fn query_reduction(raw: Seq<char>, content: Seq<char>) -> Reduction {
    reduction(symbolic(raw, content))
}

/// Whether the raw query `raw` matches the document text `content`: its
/// symbolic string reduces to `1`.
pub open spec fn query_matches(raw: Seq<char>, content: Seq<char>) -> bool {
    truth(symbolic(raw, content))
}

/// The positions below `n` of the raw document texts `texts` on which the
/// reduction of `raw` ends in a malformed character, in order.
pub open spec fn malformed_indices(raw: Seq<char>, texts: Seq<String>, n: nat) -> Seq<usize>
    decreases n,
{
    if n == 0 {
        Seq::empty()
    } else {
        let before = malformed_indices(raw, texts, (n - 1) as nat);
        if query_reduction(raw, normalized(texts[n - 1]@)) is Malformed {
            before.push((n - 1) as usize)
        } else {
            before
        }
    }
}

/// The positions below `n` of the raw document texts `texts` on which the
/// reduction of `raw` stays unresolved, in order.
pub open spec fn unresolved_indices(raw: Seq<char>, texts: Seq<String>, n: nat) -> Seq<usize>
    decreases n,
{
    if n == 0 {
        Seq::empty()
    } else {
        let before = unresolved_indices(raw, texts, (n - 1) as nat);
        if query_reduction(raw, normalized(texts[n - 1]@)) is Unresolved {
            before.push((n - 1) as usize)
        } else {
            before
        }
    }
}

/// The evaluation of a query over a corpus: one outcome per document, 1
/// where the query reduced to `1` and 0 otherwise, with the positions of the
/// documents on which the reduction was malformed or unresolved.
pub struct DocumentSetEvaluation {
    pub outcomes: Vec<u8>,
    pub malformed: Vec<usize>,
    pub unresolved: Vec<usize>,
}

/// The integer that stands for a truth value: 1 for true, 0 for false.
pub open spec fn bool_int(b: bool) -> u8 {
    if b {
        1
    } else {
        0
    }
}

/// 1 for true, 0 for false.
pub fn evaluate_bool_to_int(val: bool) -> (r: u8)
    ensures
        r == bool_int(val),
{
    if val {
        1
    } else {
        0
    }
}

fn remove_blanks(s: &Vec<char>) -> (out: Vec<char>)
    ensures
        out@ == unblanked(s@),
{
    let mut out: Vec<char> = Vec::new();
    let mut i: usize = 0;
    while i < s.len()
        invariant
            i <= s@.len(),
            out@ == unblanked(s@.take(i as int)),
        decreases s@.len() - i,
    {
        proof {
            assert(s@.take(i + 1).drop_last() =~= s@.take(i as int));
        }
        let c = s[i];
        if !is_blank_char(c) {
            out.push(c);
        }
        i = i + 1;
    }
    proof {
        assert(s@.take(i as int) =~= s@);
    }
    out
}

fn replace_keywords(s: &Vec<char>) -> (out: Vec<char>)
    ensures
        out@ == keywords_replaced(s@),
{
    let s = substitute2(s, 'O', 'R', &single('|'));
    let s = substitute3(&s, 'A', 'N', 'D', &single('&'));
    substitute3(&s, 'N', 'O', 'T', &single('~'))
}

/// Relies on regex's `Regex::new` and `Regex::find_iter` with `'[^']*'`:
/// the leftmost-first, non-overlapping matches, each a straight quote, the
/// characters up to the next straight quote, and that quote.
#[verifier::external_body]
fn find_quoted_spans(raw: &str) -> (r: Vec<Vec<char>>)
    ensures
        r@.len() == quoted_spans(raw@).len(),
        forall|i: int| 0 <= i < r@.len() ==> (#[trigger] r@[i])@ == quoted_spans(raw@)[i],
{
    let re = regex::Regex::new(r"'[^']*'").unwrap();
    re.find_iter(raw).map(|m| m.as_str().chars().collect()).collect()
}

/// A query: its raw text and the terms it depends on.
pub struct Filter {
    pub raw_string: String,
    pub dependencies: Vec<String>,
}

impl Filter {
    /// The dependencies are the terms of the raw query.
    pub open spec fn wf(&self) -> bool {
        &&& self.dependencies@.len() == dependencies_of(self.raw_string@).len()
        &&& forall|i: int|
            0 <= i < self.dependencies@.len() ==> (#[trigger] self.dependencies@[i])@
                == dependencies_of(self.raw_string@)[i]
    }

    /// The filter of the raw query `filter`.
    pub fn new(filter: &str) -> (f: Filter)
        ensures
            f.raw_string@ == filter@,
            f.wf(),
    {
        let spans = find_quoted_spans(filter);
        let ghost terms = dependencies_of(filter@);
        let mut dependencies: Vec<String> = Vec::new();
        let none: Vec<char> = Vec::new();
        let apostrophe = single(QUOTE);
        let mut i: usize = 0;
        while i < spans.len()
            invariant
                i <= spans@.len(),
                spans@.len() == terms.len(),
                terms == dependencies_of(filter@),
                none@ == Seq::<char>::empty(),
                apostrophe@ == seq![QUOTE],
                forall|j: int| 0 <= j < spans@.len() ==> (#[trigger] spans@[j])@ == quoted_spans(filter@)[j],
                dependencies@.len() == i,
                forall|j: int| 0 <= j < i ==> (#[trigger] dependencies@[j])@ == terms[j],
            decreases spans@.len() - i,
        {
            let unquoted = substitute1(&spans[i], QUOTE, &none);
            let term = substitute1(&unquoted, RIGHT_QUOTE, &apostrophe);
            dependencies.push(string_of(&term));
            i = i + 1;
        }
        Filter { raw_string: string_of(&chars_of(filter)), dependencies }
    }

    /// How this query reduces on `document`: it matches exactly where the
    /// result is `Reduction::True`.
    pub fn eval_document(&self, document: Document) -> (r: Reduction)
        requires
            self.wf(),
        ensures
            r == query_reduction(self.raw_string@, document.content@),
    {
        let ghost raw = self.raw_string@;
        let ghost terms = dependencies_of(raw);
        let content = chars_of(document.content.as_str());
        let mut deps: Vec<Vec<char>> = Vec::new();
        let mut k: usize = 0;
        while k < self.dependencies.len()
            invariant
                self.wf(),
                terms == dependencies_of(raw),
                raw == self.raw_string@,
                k <= self.dependencies@.len(),
                deps@.len() == k,
                forall|j: int| 0 <= j < k ==> (#[trigger] deps@[j])@ == terms[j],
            decreases self.dependencies@.len() - k,
        {
            deps.push(chars_of(self.dependencies[k].as_str()));
            k = k + 1;
        }
        let mut s = chars_of(self.raw_string.as_str());
        let mut i: usize = 0;
        proof {
            assert(terms.take(0) =~= Seq::<Seq<char>>::empty());
        }
        while i < deps.len()
            invariant
                deps@.len() == terms.len(),
                i <= deps@.len(),
                forall|j: int| 0 <= j < deps@.len() ==> (#[trigger] deps@[j])@ == terms[j],
                s@ == substituted(raw, terms.take(i as int), content@),
            decreases deps@.len() - i,
        {
            let mut seen = false;
            let mut j: usize = 0;
            while j < i
                invariant
                    j <= i < deps@.len(),
                    deps@.len() == terms.len(),
                    forall|m: int| 0 <= m < deps@.len() ==> (#[trigger] deps@[m])@ == terms[m],
                    seen == exists|m: int| 0 <= m < j && terms[m] == terms[i as int],
                decreases i - j,
            {
                if same_chars(&deps[j], &deps[i]) {
                    seen = true;
                }
                j = j + 1;
            }
            proof {
                let before = terms.take(i + 1).drop_last();
                assert(before =~= terms.take(i as int));
                assert(terms.take(i + 1).last() == terms[i as int]);
                if seen {
                    let m = choose|m: int| 0 <= m < i && terms[m] == terms[i as int];
                    assert(before[m] == terms[i as int]);
                } else {
                    assert(!before.contains(terms[i as int]));
                }
            }
            if !seen {
                let present = contains(&content, &deps[i]);
                let mut pattern: Vec<char> = single(QUOTE);
                let mut k: usize = 0;
                while k < deps[i].len()
                    invariant
                        i < deps@.len(),
                        k <= deps@[i as int]@.len(),
                        pattern@ == seq![QUOTE] + deps@[i as int]@.take(k as int),
                    decreases deps@[i as int]@.len() - k,
                {
                    pattern.push(deps[i][k]);
                    k = k + 1;
                    proof {
                        assert(deps@[i as int]@.take(k as int) =~= deps@[i as int]@.take(k - 1).push(
                            deps@[i as int]@[k - 1],
                        ));
                    }
                }
                pattern.push(QUOTE);
                proof {
                    assert(deps@[i as int]@.take(k as int) =~= deps@[i as int]@);
                    assert(pattern@ =~= quoted(terms[i as int]));
                }
                let lit = if present {
                    single('1')
                } else {
                    single('0')
                };
                s = replace_all(&s, &pattern, &lit);
            }
            i = i + 1;
        }
        proof {
            assert(terms.take(i as int) =~= terms);
        }
        let s = replace_keywords(&remove_blanks(&s));
        reduce(s)
    }

    /// The evaluation of this query on each of the raw document texts
    /// `texts`, in order.
    pub fn eval_document_set(&self, texts: &Vec<String>) -> (r: DocumentSetEvaluation)
        requires
            self.wf(),
        ensures
            r.outcomes@.len() == texts@.len(),
            forall|i: int|
                0 <= i < texts@.len() ==> #[trigger] r.outcomes@[i] == bool_int(
                    query_matches(self.raw_string@, normalized(texts@[i]@)),
                ),
            r.malformed@ == malformed_indices(self.raw_string@, texts@, texts@.len()),
            r.unresolved@ == unresolved_indices(self.raw_string@, texts@, texts@.len()),
    {
        let ghost raw = self.raw_string@;
        let mut outcomes: Vec<u8> = Vec::new();
        let mut malformed: Vec<usize> = Vec::new();
        let mut unresolved: Vec<usize> = Vec::new();
        let mut i: usize = 0;
        while i < texts.len()
            invariant
                self.wf(),
                raw == self.raw_string@,
                i <= texts@.len(),
                outcomes@.len() == i,
                forall|j: int|
                    0 <= j < i ==> #[trigger] outcomes@[j] == bool_int(
                        query_matches(raw, normalized(texts@[j]@)),
                    ),
                malformed@ == malformed_indices(raw, texts@, i as nat),
                unresolved@ == unresolved_indices(raw, texts@, i as nat),
            decreases texts@.len() - i,
        {
            let doc = Document { content: normalize(texts[i].as_str()) };
            let r = self.eval_document(doc);
            match r {
                Reduction::Malformed(_) => malformed.push(i),
                Reduction::Unresolved => unresolved.push(i),
                _ => {},
            }
            outcomes.push(evaluate_bool_to_int(matches!(r, Reduction::True)));
            i = i + 1;
        }
        DocumentSetEvaluation { outcomes, malformed, unresolved }
    }
}

/// Evaluation depends on the raw query and the document text alone: two
/// well-formed filters with the same raw query reduce the same way on two
/// documents with the same text.
pub proof fn lemma_evaluation_deterministic(f: Filter, g: Filter, d: Document, e: Document)
    requires
        f.wf(),
        g.wf(),
        f.raw_string@ == g.raw_string@,
        d.content@ == e.content@,
    ensures
        query_reduction(f.raw_string@, d.content@) == query_reduction(g.raw_string@, e.content@),
{
}

} // verus!
