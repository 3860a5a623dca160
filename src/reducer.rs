//! The expression reducer: a symbolic string over `0`, `1`, operators and
//! structural noise, rewritten round after round until one character is left.
use vstd::prelude::*;
use crate::text::{
    lemma_absent_char, lemma_replaced_absent, lemma_replaced_short_input, replaced, single,
    substitute1, substitute2, substitute3,
};

verus! {

/// The number of rounds after which the cleanup rules join the core rules.
pub const CLEANUP_AFTER: u64 = 20;

/// The number of rounds after which the reducer gives up: a string that is
/// still longer than one character then counts as unresolved, where an
/// unbounded loop would never return.
pub const ROUND_LIMIT: u64 = 1000;

/// How a reduction ended.
#[derive(Debug, Clone, Copy, PartialEq, Eq, Structural)]
pub enum Reduction {
    /// The string reduced to `1`.
    True,
    /// The string reduced to `0`.
    False,
    /// The string reduced to this single character, which is no truth value.
    Malformed(char),
    /// The string still had another length than one after the round limit.
    Unresolved,
}

/// Collapses of parenthesised literals and removal of `?`.
pub open spec fn structural_pass(s: Seq<char>) -> Seq<char> {
    let s = replaced(s, seq!['(', '1', ')'], seq!['1']);
    let s = replaced(s, seq!['(', '0', ')'], seq!['0']);
    replaced(s, seq!['?'], Seq::<char>::empty())
}

/// Removal of quote marks and signs, then the truth tables of `|`, `&` and `~`.
pub open spec fn operator_pass(s: Seq<char>) -> Seq<char> {
    let s = replaced(s, seq!['"'], Seq::<char>::empty());
    let s = replaced(s, seq!['.'], Seq::<char>::empty());
    let s = replaced(s, seq!['+'], Seq::<char>::empty());
    let s = replaced(s, seq!['-'], Seq::<char>::empty());
    let s = replaced(s, seq!['0', '|', '0'], seq!['0']);
    let s = replaced(s, seq!['0', '|', '1'], seq!['1']);
    let s = replaced(s, seq!['1', '|', '0'], seq!['1']);
    let s = replaced(s, seq!['1', '|', '1'], seq!['1']);
    let s = replaced(s, seq!['0', '&', '0'], seq!['0']);
    let s = replaced(s, seq!['0', '&', '1'], seq!['0']);
    let s = replaced(s, seq!['1', '&', '0'], seq!['0']);
    let s = replaced(s, seq!['1', '&', '1'], seq!['1']);
    let s = replaced(s, seq!['0', '~', '0'], seq!['0']);
    let s = replaced(s, seq!['0', '~', '1'], seq!['0']);
    let s = replaced(s, seq!['1', '~', '0'], seq!['1']);
    let s = replaced(s, seq!['1', '~', '1'], seq!['0']);
    s
}

/// The extended cleanup of structural leftovers, applied after `CLEANUP_AFTER` rounds.
pub open spec fn cleanup_pass(s: Seq<char>) -> Seq<char> {
    let s = replaced(s, seq!['&', '('], seq!['&']);
    let s = replaced(s, seq![')', '|'], seq!['&']);
    let s = replaced(s, seq!['0', '1'], seq!['1']);
    let s = replaced(s, seq!['1', '0'], seq!['1']);
    let s = replaced(s, seq!['1', '1'], seq!['1']);
    let s = replaced(s, seq!['0', '0'], seq!['0']);
    let s = replaced(s, seq!['"'], Seq::<char>::empty());
    let s = replaced(s, seq!['.'], Seq::<char>::empty());
    let s = replaced(s, seq!['+'], Seq::<char>::empty());
    let s = replaced(s, seq!['-'], Seq::<char>::empty());
    let s = replaced(s, seq!['('], Seq::<char>::empty());
    let s = replaced(s, seq![')'], Seq::<char>::empty());
    let s = replaced(s, seq!['|', '&'], seq!['&']);
    let s = replaced(s, seq!['*'], Seq::<char>::empty());
    let s = replaced(s, seq!['|', '|'], seq!['|']);
    let s = replaced(s, seq!['0', '|'], seq!['0']);
    let s = replaced(s, seq!['1', '|'], seq!['1']);
    let s = replaced(s, seq!['&', '1'], seq!['1']);
    let s = replaced(s, seq!['1', '&'], seq!['1']);
    let s = replaced(s, seq!['&', '0'], seq!['0']);
    let s = replaced(s, seq!['0', '&'], seq!['0']);
    let s = replaced(s, seq!['/'], Seq::<char>::empty());
    let s = replaced(s, seq!['|', '1'], seq!['1']);
    let s = replaced(s, seq!['|', '0'], seq!['0']);
    let s = replaced(s, seq![':'], Seq::<char>::empty());
    s
}

/// One round of rewriting, the `n`-th (counted from one).
pub open spec fn round(s: Seq<char>, n: nat) -> Seq<char> {
    let t = operator_pass(structural_pass(s));
    if n > CLEANUP_AFTER {
        cleanup_pass(t)
    } else {
        t
    }
}

/// How the reduction of `s` ends when `count` rounds have already been made.
pub open spec fn reduce_from(s: Seq<char>, count: nat) -> Reduction
    decreases ROUND_LIMIT - count,
{
    if s.len() == 1 {
        if s[0] == '1' {
            Reduction::True
        } else if s[0] == '0' {
            Reduction::False
        } else {
            Reduction::Malformed(s[0])
        }
    } else if count >= ROUND_LIMIT {
        Reduction::Unresolved
    } else {
        reduce_from(round(s, count + 1), count + 1)
    }
}

/// How the reduction of `s` ends.
pub open spec fn reduction(s: Seq<char>) -> Reduction {
    reduce_from(s, 0)
}

/// Whether `s` reduces to `1`.
pub open spec fn truth(s: Seq<char>) -> bool {
    reduction(s) == Reduction::True
}

/// Relies on regex's `escape`, `Regex::new` and `Regex::replace_all`: an
/// escaped literal matches exactly that text, and `replace_all` replaces every
/// non-overlapping match, leftmost first, with the replacement taken as it
/// stands (`NoExpand`).
#[verifier::external_body]
fn regex_replace_literal(lit: &str, s: &Vec<char>, rep: &str) -> (out: Vec<char>)
    requires
        0 < lit@.len() <= 8,
    ensures
        out@ == replaced(s@, lit@, rep@),
{
    let text: String = s.iter().collect();
    let re = regex::Regex::new(&regex::escape(lit)).unwrap();
    re.replace_all(&text, regex::NoExpand(rep)).chars().collect()
}

fn structural(s: Vec<char>) -> (out: Vec<char>)
    ensures
        out@ == structural_pass(s@),
{
    proof {
        reveal_strlit("(1)");
        reveal_strlit("(0)");
        reveal_strlit("?");
        reveal_strlit("1");
        reveal_strlit("0");
        reveal_strlit("");
        assert("(1)"@ =~= seq!['(', '1', ')']);
        assert("(0)"@ =~= seq!['(', '0', ')']);
        assert("?"@ =~= seq!['?']);
        assert("1"@ =~= seq!['1']);
        assert("0"@ =~= seq!['0']);
        assert(""@ =~= Seq::<char>::empty());
    }
    let s = regex_replace_literal("(1)", &s, "1");
    let s = regex_replace_literal("(0)", &s, "0");
    regex_replace_literal("?", &s, "")
}

/// Applies `operator_pass`.
fn operators(s: Vec<char>) -> (out: Vec<char>)
    ensures
        out@ == operator_pass(s@),
{
    let zero = single('0');
    let one = single('1');
    let none: Vec<char> = Vec::new();
    let s = substitute1(&s, '"', &none);
    let s = substitute1(&s, '.', &none);
    let s = substitute1(&s, '+', &none);
    let s = substitute1(&s, '-', &none);
    let s = substitute3(&s, '0', '|', '0', &zero);
    let s = substitute3(&s, '0', '|', '1', &one);
    let s = substitute3(&s, '1', '|', '0', &one);
    let s = substitute3(&s, '1', '|', '1', &one);
    let s = substitute3(&s, '0', '&', '0', &zero);
    let s = substitute3(&s, '0', '&', '1', &zero);
    let s = substitute3(&s, '1', '&', '0', &zero);
    let s = substitute3(&s, '1', '&', '1', &one);
    let s = substitute3(&s, '0', '~', '0', &zero);
    let s = substitute3(&s, '0', '~', '1', &zero);
    let s = substitute3(&s, '1', '~', '0', &one);
    let s = substitute3(&s, '1', '~', '1', &zero);
    s
}

/// Applies `cleanup_pass`.
fn cleanup(s: Vec<char>) -> (out: Vec<char>)
    ensures
        out@ == cleanup_pass(s@),
{
    let zero = single('0');
    let one = single('1');
    let none: Vec<char> = Vec::new();
    let and = single('&');
    let or = single('|');
    let s = substitute2(&s, '&', '(', &and);
    let s = substitute2(&s, ')', '|', &and);
    let s = substitute2(&s, '0', '1', &one);
    let s = substitute2(&s, '1', '0', &one);
    let s = substitute2(&s, '1', '1', &one);
    let s = substitute2(&s, '0', '0', &zero);
    let s = substitute1(&s, '"', &none);
    let s = substitute1(&s, '.', &none);
    let s = substitute1(&s, '+', &none);
    let s = substitute1(&s, '-', &none);
    let s = substitute1(&s, '(', &none);
    let s = substitute1(&s, ')', &none);
    let s = substitute2(&s, '|', '&', &and);
    let s = substitute1(&s, '*', &none);
    let s = substitute2(&s, '|', '|', &or);
    let s = substitute2(&s, '0', '|', &zero);
    let s = substitute2(&s, '1', '|', &one);
    let s = substitute2(&s, '&', '1', &one);
    let s = substitute2(&s, '1', '&', &one);
    let s = substitute2(&s, '&', '0', &zero);
    let s = substitute2(&s, '0', '&', &zero);
    let s = substitute1(&s, '/', &none);
    let s = substitute2(&s, '|', '1', &one);
    let s = substitute2(&s, '|', '0', &zero);
    let s = substitute1(&s, ':', &none);
    s
}

/// Reduces `expr` round by round until one character is left, or gives up
/// after `ROUND_LIMIT` rounds.
pub fn reduce(expr: Vec<char>) -> (r: Reduction)
    ensures
        r == reduction(expr@),
{
    let mut s = expr;
    let mut count: u64 = 0;
    loop
        invariant
            count <= ROUND_LIMIT,
            reduce_from(s@, count as nat) == reduction(expr@),
        decreases ROUND_LIMIT - count,
    {
        if s.len() == 1 {
            if s[0] == '1' {
                return Reduction::True;
            } else if s[0] == '0' {
                return Reduction::False;
            } else {
                return Reduction::Malformed(s[0]);
            }
        }
        if count >= ROUND_LIMIT {
            return Reduction::Unresolved;
        }
        count = count + 1;
        let t = operators(structural(s));
        s = if count > CLEANUP_AFTER {
            cleanup(t)
        } else {
            t
        };
    }
}

/// The truth value that a reduction yields: `1` is true; a malformed single
/// character counts as false; an unresolved reduction yields none.
pub open spec fn truth_value(r: Reduction) -> Option<bool> {
    match r {
        Reduction::True => Option::Some(true),
        Reduction::False => Option::Some(false),
        Reduction::Malformed(_) => Option::Some(false),
        Reduction::Unresolved => Option::None,
    }
}

/// The truth value of a reduction.
pub fn value_of(r: Reduction) -> (v: Option<bool>)
    ensures
        v == truth_value(r),
{
    match r {
        Reduction::True => Some(true),
        Reduction::False => Some(false),
        Reduction::Malformed(_) => Some(false),
        Reduction::Unresolved => None,
    }
}

/// Reduces the symbolic string `string`: `Some(true)` where it reduces to
/// `1`, `Some(false)` where it reduces to `0` or to a malformed character, and
/// `None` where it does not reduce within `ROUND_LIMIT` rounds. `reduce` tells
/// a malformed string from `0`.
pub fn eval_str(string: String) -> (r: Option<bool>)
    ensures
        r == truth_value(reduction(string@)),
{
    let s = crate::text::chars_of(string.as_str());
    value_of(reduce(s))
}

/// The literal that stands for a truth value.
pub open spec fn digit(b: bool) -> char {
    if b {
        '1'
    } else {
        '0'
    }
}

/// The truth table of the operator `op`: `|` is or, `&` is and, and `~` holds
/// exactly when its left operand holds and its right one does not.
pub open spec fn table(op: char, a: bool, b: bool) -> bool {
    if op == '|' {
        a || b
    } else if op == '&' {
        a && b
    } else {
        a && !b
    }
}

/// Two literals joined by `|`, `&` or `~` reduce to the entry of that
/// operator's truth table.
pub proof fn lemma_truth_tables(a: bool, op: char, b: bool)
    requires
        op == '|' || op == '&' || op == '~',
    ensures
        truth(seq![digit(a), op, digit(b)]) == table(op, a, b),
{
    let x = seq![digit(a), op, digit(b)];
    lemma_replaced_short_input(x, seq!['(', '1', ')'], seq!['1']);
    lemma_replaced_short_input(x, seq!['(', '0', ')'], seq!['0']);
    assert(x != seq!['(', '1', ')'] && x != seq!['(', '0', ')']) by {
        assert(x[0] != '(');
    }
    assert forall|c: char| c == '?' || c == '"' || c == '.' || c == '+' || c == '-' implies !x.contains(c) by {
        if x.contains(c) {
            let i = choose|i: int| 0 <= i < x.len() && x[i] == c;
            assert(i == 0 || i == 1 || i == 2);
        }
    }
    lemma_no_noise(x, '?');
    lemma_no_noise(x, '"');
    lemma_no_noise(x, '.');
    lemma_no_noise(x, '+');
    lemma_no_noise(x, '-');
    assert(structural_pass(x) == x);
    let s1 = replaced(x, seq!['0', '|', '0'], seq!['0']);
    lemma_replaced_short_input(x, seq!['0', '|', '0'], seq!['0']);
    let s2 = replaced(s1, seq!['0', '|', '1'], seq!['1']);
    lemma_replaced_short_input(s1, seq!['0', '|', '1'], seq!['1']);
    let s3 = replaced(s2, seq!['1', '|', '0'], seq!['1']);
    lemma_replaced_short_input(s2, seq!['1', '|', '0'], seq!['1']);
    let s4 = replaced(s3, seq!['1', '|', '1'], seq!['1']);
    lemma_replaced_short_input(s3, seq!['1', '|', '1'], seq!['1']);
    let s5 = replaced(s4, seq!['0', '&', '0'], seq!['0']);
    lemma_replaced_short_input(s4, seq!['0', '&', '0'], seq!['0']);
    let s6 = replaced(s5, seq!['0', '&', '1'], seq!['0']);
    lemma_replaced_short_input(s5, seq!['0', '&', '1'], seq!['0']);
    let s7 = replaced(s6, seq!['1', '&', '0'], seq!['0']);
    lemma_replaced_short_input(s6, seq!['1', '&', '0'], seq!['0']);
    let s8 = replaced(s7, seq!['1', '&', '1'], seq!['1']);
    lemma_replaced_short_input(s7, seq!['1', '&', '1'], seq!['1']);
    let s9 = replaced(s8, seq!['0', '~', '0'], seq!['0']);
    lemma_replaced_short_input(s8, seq!['0', '~', '0'], seq!['0']);
    let s10 = replaced(s9, seq!['0', '~', '1'], seq!['0']);
    lemma_replaced_short_input(s9, seq!['0', '~', '1'], seq!['0']);
    let s11 = replaced(s10, seq!['1', '~', '0'], seq!['1']);
    lemma_replaced_short_input(s10, seq!['1', '~', '0'], seq!['1']);
    let s12 = replaced(s11, seq!['1', '~', '1'], seq!['0']);
    lemma_replaced_short_input(s11, seq!['1', '~', '1'], seq!['0']);
    assert(operator_pass(x) == s12);
    let v = digit(table(op, a, b));
    assert(s12 == seq![v]);
    assert(round(x, 1) == seq![v]);
    assert(reduce_from(seq![v], 1) == if table(op, a, b) {
        Reduction::True
    } else {
        Reduction::False
    });
}

proof fn lemma_no_noise(x: Seq<char>, c: char)
    requires
        !x.contains(c),
    ensures
        replaced(x, seq![c], Seq::<char>::empty()) == x,
{
    lemma_absent_char(x, c);
    lemma_replaced_absent(x, seq![c], Seq::<char>::empty());
}

} // verus!
