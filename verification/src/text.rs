//! Shared text facts: what this crate assumes about string building.

use vstd::prelude::*;

verus! {

/// Relies on `String::push`: appends the given character to the end of the
/// string.
pub assume_specification[ String::push ](s: &mut String, ch: char)
    ensures
        final(s)@ == old(s)@.push(ch),
;

/// The extended grapheme clusters of a string, in order. Named, not stated:
/// only the trusted items below say anything about it.
pub uninterp spec fn graphemes_of(s: Seq<char>) -> Seq<Seq<char>>;

/// Relies on unicode_segmentation's `UnicodeSegmentation::graphemes` over
/// extended grapheme clusters: the split depends on the characters alone.
#[verifier::external_body]
pub fn split_graphemes(s: &str) -> (r: Vec<String>)
    ensures
        r.deep_view() == graphemes_of(s@),
{
    unicode_segmentation::UnicodeSegmentation::graphemes(s, true)
        .map(|g| g.to_string())
        .collect()
}

/// The lowercase form of a string. Named, not stated: only the trusted item
/// below says anything about it.
pub uninterp spec fn lower_of(s: Seq<char>) -> Seq<char>;

/// Relies on `str::to_lowercase`: the result depends on the characters alone.
#[verifier::external_body]
pub fn lowercase(s: &str) -> (r: String)
    ensures
        r@ == lower_of(s@),
{
    s.to_lowercase()
}

/// Concatenation of a sequence of character sequences, in order.
pub open spec fn concat_all(ss: Seq<Seq<char>>) -> Seq<char>
    decreases ss.len(),
{
    if ss.len() == 0 {
        Seq::empty()
    } else {
        concat_all(ss.drop_last()) + ss.last()
    }
}

/// Concatenating one more piece extends the concatenation of the prefix.
pub proof fn lemma_concat_all_take_step(ss: Seq<Seq<char>>, i: int)
    requires
        0 <= i < ss.len(),
    ensures
        concat_all(ss.take(i + 1)) == concat_all(ss.take(i)) + ss[i],
{
    assert(ss.take(i + 1).drop_last() =~= ss.take(i));
    assert(ss.take(i + 1).last() == ss[i]);
}

/// Element-wise equality of two lists of strings.
pub fn vec_string_eq(a: &Vec<String>, b: &Vec<String>) -> (r: bool)
    ensures
        r == (a.deep_view() == b.deep_view()),
{
    if a.len() != b.len() {
        proof {
            assert(a.deep_view().len() != b.deep_view().len());
        }
        return false;
    }
    let n = a.len();
    let mut i: usize = 0;
    while i < n
        invariant
            n == a@.len() == b@.len(),
            i <= n,
            forall|j: int| 0 <= j < i ==> a@[j]@ == b@[j]@,
        decreases n - i,
    {
        if !string_eq(&a[i], &b[i]) {
            proof {
                assert(a.deep_view()[i as int] != b.deep_view()[i as int]);
            }
            return false;
        }
        i = i + 1;
    }
    proof {
        assert(a.deep_view() =~= b.deep_view());
    }
    true
}

/// Equality of two strings, by their characters.
pub fn string_eq(a: &String, b: &String) -> (r: bool)
    ensures
        r == (a@ == b@),
{
    let r = *a == *b;
    r
}

/// A copy of a list of strings, equal element by element.
pub fn clone_strings(v: &Vec<String>) -> (r: Vec<String>)
    ensures
        r@ == v@,
{
    let mut r: Vec<String> = Vec::new();
    let n = v.len();
    let mut i: usize = 0;
    while i < n
        invariant
            n == v@.len(),
            i <= n,
            r@ =~= v@.take(i as int),
        decreases n - i,
    {
        r.push(v[i].clone());
        i = i + 1;
    }
    proof {
        assert(r@ =~= v@);
    }
    r
}

} // verus!
