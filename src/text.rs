//! Character-sequence helpers: literal replacement and substring search.
use vstd::prelude::*;

verus! {

/// Whether `p` occurs in `s` starting at position `i`.
pub open spec fn occurs_at(s: Seq<char>, p: Seq<char>, i: int) -> bool {
    0 <= i && i + p.len() <= s.len() && s.subrange(i, i + p.len()) == p
}

/// Whether `p` occurs anywhere in `s`.
pub open spec fn contains_seq(s: Seq<char>, p: Seq<char>) -> bool {
    exists|i: int| occurs_at(s, p, i)
}

/// Every non-overlapping occurrence of `p`, found from left to right,
/// replaced by `r`.
pub open spec fn replaced(s: Seq<char>, p: Seq<char>, r: Seq<char>) -> Seq<char>
    decreases s.len(),
{
    if p.len() == 0 || s.len() < p.len() {
        s
    } else if s.subrange(0, p.len() as int) == p {
        r + replaced(s.subrange(p.len() as int, s.len() as int), p, r)
    } else {
        seq![s[0]] + replaced(s.drop_first(), p, r)
    }
}

/// `s` without the characters equal to `c`.
pub open spec fn without(s: Seq<char>, c: char) -> Seq<char> {
    s.filter(|x: char| x != c)
}

/// Whether `p` occurs in `s` at position `i`.
pub fn matches_at(s: &Vec<char>, p: &Vec<char>, i: usize) -> (b: bool)
    requires
        i <= s@.len(),
    ensures
        b == occurs_at(s@, p@, i as int),
{
    if p.len() > s.len() - i {
        return false;
    }
    let mut k: usize = 0;
    while k < p.len()
        invariant
            i + p@.len() <= s@.len(),
            s@.len() <= usize::MAX,
            k <= p@.len(),
            forall|j: int| 0 <= j < k ==> s@[i + j] == p@[j],
        decreases p@.len() - k,
    {
        if s[i + k] != p[k] {
            assert(s@.subrange(i as int, i + p@.len())[k as int] != p@[k as int]);
            return false;
        }
        k = k + 1;
    }
    assert(s@.subrange(i as int, i + p@.len()) =~= p@);
    true
}

/// Whether `p` occurs anywhere in `s`.
pub fn contains(s: &Vec<char>, p: &Vec<char>) -> (b: bool)
    ensures
        b == contains_seq(s@, p@),
{
    if p.len() > s.len() {
        assert forall|i: int| !occurs_at(s@, p@, i) by {}
        return false;
    }
    if p.len() == 0 {
        assert(s@.subrange(0, 0) =~= p@);
        assert(occurs_at(s@, p@, 0));
        return true;
    }
    let last: usize = s.len() - p.len();
    let mut i: usize = 0;
    while i <= last
        invariant
            last + p@.len() == s@.len(),
            p@.len() > 0,
            s@.len() <= usize::MAX,
            forall|j: int| 0 <= j < i ==> !occurs_at(s@, p@, j),
        decreases last + 1 - i,
    {
        if matches_at(s, p, i) {
            return true;
        }
        i = i + 1;
    }
    assert forall|j: int| !occurs_at(s@, p@, j) by {
        if 0 <= j && j < i {
        }
    }
    false
}

proof fn lemma_replaced_step(s: Seq<char>, p: Seq<char>, r: Seq<char>, i: int)
    requires
        p.len() > 0,
        0 <= i < s.len(),
    ensures
        occurs_at(s, p, i) ==> replaced(s.subrange(i, s.len() as int), p, r) == r + replaced(
            s.subrange(i + p.len(), s.len() as int),
            p,
            r,
        ),
        !occurs_at(s, p, i) ==> replaced(s.subrange(i, s.len() as int), p, r) == seq![s[i]]
            + replaced(s.subrange(i + 1, s.len() as int), p, r),
{
    let t = s.subrange(i, s.len() as int);
    if occurs_at(s, p, i) {
        assert(t.subrange(0, p.len() as int) =~= s.subrange(i, i + p.len()));
        assert(t.subrange(p.len() as int, t.len() as int) =~= s.subrange(i + p.len(), s.len() as int));
    } else {
        if t.len() >= p.len() {
            assert(t.subrange(0, p.len() as int) =~= s.subrange(i, i + p.len()));
        }
        assert(t.drop_first() =~= s.subrange(i + 1, s.len() as int));
        if t.len() < p.len() {
            lemma_replaced_short(t, p, r);
            lemma_replaced_short(s.subrange(i + 1, s.len() as int), p, r);
            assert(t =~= seq![s[i]] + s.subrange(i + 1, s.len() as int));
        }
    }
}

proof fn lemma_replaced_short(s: Seq<char>, p: Seq<char>, r: Seq<char>)
    requires
        s.len() < p.len(),
    ensures
        replaced(s, p, r) == s,
{
}

/// `s` with every non-overlapping occurrence of the non-empty `p`, found
/// from left to right, replaced by `r`.
pub fn replace_all(s: &Vec<char>, p: &Vec<char>, r: &Vec<char>) -> (out: Vec<char>)
    requires
        p@.len() > 0,
    ensures
        out@ == replaced(s@, p@, r@),
{
    let mut out: Vec<char> = Vec::new();
    let mut i: usize = 0;
    let n = s.len();
    proof {
        assert(s@.subrange(0, n as int) =~= s@);
    }
    while i < n
        invariant
            n == s@.len(),
            i <= n,
            p@.len() > 0,
            out@ + replaced(s@.subrange(i as int, n as int), p@, r@) == replaced(s@, p@, r@),
        decreases n - i,
    {
        proof {
            lemma_replaced_step(s@, p@, r@, i as int);
        }
        if matches_at(s, p, i) {
            let mut k: usize = 0;
            let ghost before = out@;
            while k < r.len()
                invariant
                    k <= r@.len(),
                    out@ == before + r@.subrange(0, k as int),
                decreases r@.len() - k,
            {
                out.push(r[k]);
                k = k + 1;
                proof {
                    assert(r@.subrange(0, k as int) =~= r@.subrange(0, k - 1) + seq![r@[k - 1]]);
                }
            }
            proof {
                assert(r@.subrange(0, r@.len() as int) =~= r@);
                assert(out@ + replaced(s@.subrange(i + p@.len(), n as int), p@, r@) =~= before + (
                r@ + replaced(s@.subrange(i + p@.len(), n as int), p@, r@)));
            }
            i = i + p.len();
        } else {
            let ghost before = out@;
            out.push(s[i]);
            proof {
                assert(out@ + replaced(s@.subrange(i + 1, n as int), p@, r@) =~= before + (seq![
                    s@[i as int],
                ] + replaced(s@.subrange(i + 1, n as int), p@, r@)));
            }
            i = i + 1;
        }
    }
    proof {
        assert(s@.subrange(n as int, n as int) =~= Seq::<char>::empty());
        assert(out@ + Seq::<char>::empty() =~= out@);
    }
    out
}

/// Relies on `str::chars`: the characters of `s`, in order.
#[verifier::external_body]
pub(crate) fn chars_of(s: &str) -> (v: Vec<char>)
    ensures
        v@ == s@,
{
    s.chars().collect()
}

/// Relies on `String`'s `FromIterator<&char>`: a string of the characters of
/// `v`, in order.
#[verifier::external_body]
pub(crate) fn string_of(v: &Vec<char>) -> (s: String)
    ensures
        s@ == v@,
{
    v.iter().collect()
}

/// `s` with every `p` replaced by `r`, for a pattern of one character.
pub fn substitute1(s: &Vec<char>, a: char, r: &Vec<char>) -> (out: Vec<char>)
    ensures
        out@ == replaced(s@, seq![a], r@),
{
    let mut p: Vec<char> = Vec::new();
    p.push(a);
    replace_all(s, &p, r)
}

/// `s` with every two-character pattern `ab` replaced by `r`.
pub fn substitute2(s: &Vec<char>, a: char, b: char, r: &Vec<char>) -> (out: Vec<char>)
    ensures
        out@ == replaced(s@, seq![a, b], r@),
{
    let mut p: Vec<char> = Vec::new();
    p.push(a);
    p.push(b);
    proof {
        assert(p@ =~= seq![a, b]);
    }
    replace_all(s, &p, r)
}

/// `s` with every three-character pattern `abc` replaced by `r`.
pub fn substitute3(s: &Vec<char>, a: char, b: char, c: char, r: &Vec<char>) -> (out: Vec<char>)
    ensures
        out@ == replaced(s@, seq![a, b, c], r@),
{
    let mut p: Vec<char> = Vec::new();
    p.push(a);
    p.push(b);
    p.push(c);
    proof {
        assert(p@ =~= seq![a, b, c]);
    }
    replace_all(s, &p, r)
}

/// A sequence of one character.
pub fn single(c: char) -> (v: Vec<char>)
    ensures
        v@ == seq![c],
{
    let mut v: Vec<char> = Vec::new();
    v.push(c);
    proof {
        assert(v@ =~= seq![c]);
    }
    v
}

/// The characters of `s` for which `keep` holds, in order.
pub open spec fn retain(s: Seq<char>, keep: spec_fn(char) -> bool) -> Seq<char>
    decreases s.len(),
{
    if s.len() == 0 {
        s
    } else {
        let rest = retain(s.drop_last(), keep);
        if keep(s.last()) {
            rest.push(s.last())
        } else {
            rest
        }
    }
}

/// Every character kept by `retain` satisfies `keep`, and retaining twice
/// changes nothing.
pub proof fn lemma_retain(s: Seq<char>, keep: spec_fn(char) -> bool)
    ensures
        forall|i: int| 0 <= i < retain(s, keep).len() ==> keep(#[trigger] retain(s, keep)[i]),
        retain(retain(s, keep), keep) == retain(s, keep),
    decreases s.len(),
{
    if s.len() > 0 {
        lemma_retain(s.drop_last(), keep);
        let rest = retain(s.drop_last(), keep);
        if keep(s.last()) {
            assert(rest.push(s.last()).drop_last() =~= rest);
        }
    }
}

/// Whether `a` and `b` hold the same characters.
pub fn same_chars(a: &Vec<char>, b: &Vec<char>) -> (r: bool)
    ensures
        r == (a@ == b@),
{
    if a.len() != b.len() {
        return false;
    }
    let r = matches_at(a, b, 0);
    proof {
        assert(a@.subrange(0, b@.len() as int) =~= a@);
    }
    r
}

/// Where `p` does not occur, replacing it changes nothing.
pub proof fn lemma_replaced_absent(s: Seq<char>, p: Seq<char>, r: Seq<char>)
    requires
        !contains_seq(s, p),
    ensures
        replaced(s, p, r) == s,
    decreases s.len(),
{
    if p.len() > 0 && s.len() >= p.len() {
        assert(!occurs_at(s, p, 0));
        let t = s.drop_first();
        assert forall|i: int| !occurs_at(t, p, i) by {
            if occurs_at(t, p, i) {
                assert(s.subrange(i + 1, i + 1 + p.len()) =~= t.subrange(i, i + p.len()));
                assert(occurs_at(s, p, i + 1));
            }
        }
        lemma_replaced_absent(t, p, r);
        assert(seq![s[0]] + t =~= s);
    }
}

/// A sequence that is the pattern itself is replaced whole.
pub proof fn lemma_replaced_whole(s: Seq<char>, r: Seq<char>)
    requires
        s.len() > 0,
    ensures
        replaced(s, s, r) == r,
{
    assert(s.subrange(0, s.len() as int) =~= s);
    let rest = s.subrange(s.len() as int, s.len() as int);
    assert(rest =~= Seq::<char>::empty());
    assert(replaced(rest, s, r) == rest);
    assert(replaced(s, s, r) == r + replaced(rest, s, r));
    assert(r + rest =~= r);
}

/// A character that `s` does not hold does not occur in it.
pub proof fn lemma_absent_char(s: Seq<char>, c: char)
    requires
        !s.contains(c),
    ensures
        !contains_seq(s, seq![c]),
{
    assert forall|i: int| !occurs_at(s, seq![c], i) by {
        if occurs_at(s, seq![c], i) {
            assert(s.subrange(i, i + 1)[0] == s[i]);
        }
    }
}

/// A pattern as long as `s` but different from it does not occur in it.
pub proof fn lemma_absent_same_length(s: Seq<char>, p: Seq<char>)
    requires
        s.len() == p.len(),
        s != p,
    ensures
        !contains_seq(s, p),
{
    assert forall|i: int| !occurs_at(s, p, i) by {
        if occurs_at(s, p, i) {
            assert(s.subrange(0, s.len() as int) =~= s);
        }
    }
}

/// On a sequence no longer than the pattern, replacement either swaps the
/// whole sequence, where it is the pattern, or changes nothing.
pub proof fn lemma_replaced_short_input(s: Seq<char>, p: Seq<char>, r: Seq<char>)
    requires
        p.len() > 0,
        s.len() <= p.len(),
    ensures
        replaced(s, p, r) == if s == p {
            r
        } else {
            s
        },
{
    if s == p {
        lemma_replaced_whole(s, r);
    } else if s.len() == p.len() {
        lemma_absent_same_length(s, p);
        lemma_replaced_absent(s, p, r);
    }
}

} // verus!
