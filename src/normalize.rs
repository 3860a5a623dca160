//! Document text normalisation: everything but ASCII letters, digits and
//! space is removed; case is kept.
use vstd::prelude::*;
use crate::text::{lemma_retain, retain};

verus! {

/// Whether normalisation keeps `c`: an ASCII letter, an ASCII digit or a space.
pub open spec fn is_kept(c: char) -> bool {
    ('0' <= c && c <= '9') || ('a' <= c && c <= 'z') || ('A' <= c && c <= 'Z') || c == ' '
}

/// `raw` with every character that is not kept removed.
pub open spec fn normalized(raw: Seq<char>) -> Seq<char> {
    retain(raw, |c: char| is_kept(c))
}

/// Normalised text holds kept characters only, and normalising it again
/// leaves it as it is.
pub proof fn lemma_normalize(raw: Seq<char>)
    ensures
        forall|i: int| 0 <= i < normalized(raw).len() ==> is_kept(#[trigger] normalized(raw)[i]),
        normalized(normalized(raw)) == normalized(raw),
{
    lemma_retain(raw, |c: char| is_kept(c));
}

/// Relies on regex's `Regex::new` and `Regex::replace_all` with the class
/// `[^0-9a-zA-Z ]+`: every maximal run of characters outside ASCII letters,
/// digits and space is replaced by nothing.
#[verifier::external_body]
fn remove_unkept(raw: &str) -> (r: String)
    ensures
        r@ == normalized(raw@),
{
    regex::Regex::new(r"[^0-9a-zA-Z ]+").unwrap().replace_all(raw, "").into_owned()
}

/// The normalised form of `raw`.
pub fn normalize(raw: &str) -> (r: String)
    ensures
        r@ == normalized(raw@),
{
    remove_unkept(raw)
}

/// A document of the corpus: its normalised text.
pub struct Document {
    pub content: String,
}

impl Document {
    /// The document whose text is `content`, normalised.
    pub fn new(content: String) -> (d: Document)
        ensures
            d.content@ == normalized(content@),
    {
        Document { content: normalize(content.as_str()) }
    }
}

} // verus!
