//! Comparing texts: equality, and the order in which names are kept.

use vstd::prelude::*;
use vstd::string::*;

verus! {

/// Whether `first` comes before `second` in the order of the dictionary,
/// character by character; this is the order of `str` in Rust.
pub open spec fn text_before(first: Seq<char>, second: Seq<char>) -> bool
    decreases first.len(),
{
    if second.len() == 0 {
        false
    } else if first.len() == 0 {
        true
    } else if first[0] != second[0] {
        first[0] < second[0]
    } else {
        text_before(first.drop_first(), second.drop_first())
    }
}

/// No text comes before itself.
pub proof fn lemma_text_before_irreflexive(text: Seq<char>)
    ensures
        !text_before(text, text),
    decreases text.len(),
{
    if text.len() > 0 {
        lemma_text_before_irreflexive(text.drop_first());
    }
}

/// Of two different texts one comes before the other.
pub proof fn lemma_text_before_total(first: Seq<char>, second: Seq<char>)
    ensures
        text_before(first, second) || text_before(second, first) || first == second,
    decreases first.len(),
{
    if first.len() == 0 || second.len() == 0 {
        if first.len() == 0 && second.len() == 0 {
            assert(first =~= second);
        }
    } else if first[0] == second[0] {
        lemma_text_before_total(first.drop_first(), second.drop_first());
        if first.drop_first() == second.drop_first() {
            assert(first =~= seq![first[0]] + first.drop_first());
            assert(second =~= seq![second[0]] + second.drop_first());
        }
    }
}

/// The order has no cycle of length two.
pub proof fn lemma_text_before_asymmetric(first: Seq<char>, second: Seq<char>)
    requires
        text_before(first, second),
    ensures
        !text_before(second, first),
    decreases first.len(),
{
    if first.len() > 0 && second.len() > 0 && first[0] == second[0] {
        lemma_text_before_asymmetric(first.drop_first(), second.drop_first());
    }
}

/// What comes before a text comes before everything after that text.
pub proof fn lemma_text_before_transitive(first: Seq<char>, second: Seq<char>, third: Seq<char>)
    requires
        text_before(first, second),
        text_before(second, third),
    ensures
        text_before(first, third),
    decreases first.len(),
{
    if first.len() > 0 && first[0] == second[0] && second[0] == third[0] {
        lemma_text_before_transitive(
            first.drop_first(),
            second.drop_first(),
            third.drop_first(),
        );
    }
}

/// Whether two texts are the same.
pub fn same_text(first: &str, second: &str) -> (same: bool)
    ensures
        same == (first@ == second@),
{
    first.to_owned() == second.to_owned()
}

/// Whether `first` comes before `second`: see [`text_before`].
pub fn comes_before(first: &str, second: &str) -> (before: bool)
    ensures
        before == text_before(first@, second@),
{
    let first_len = first.unicode_len();
    let second_len = second.unicode_len();
    let mut i: usize = 0;
    proof {
        assert(first@.skip(0) =~= first@);
        assert(second@.skip(0) =~= second@);
    }
    while i < first_len && i < second_len
        invariant
            i <= first_len,
            i <= second_len,
            first_len == first@.len(),
            second_len == second@.len(),
            text_before(first@, second@) == text_before(
                first@.skip(i as int),
                second@.skip(i as int),
            ),
        decreases first_len - i,
    {
        let a = first.get_char(i);
        let b = second.get_char(i);
        proof {
            let rest_a = first@.skip(i as int);
            let rest_b = second@.skip(i as int);
            assert(rest_a[0] == a && rest_b[0] == b);
            assert(rest_a.drop_first() =~= first@.skip(i + 1));
            assert(rest_b.drop_first() =~= second@.skip(i + 1));
        }
        if a != b {
            return a < b;
        }
        i += 1;
    }
    proof {
        let rest_a = first@.skip(i as int);
        let rest_b = second@.skip(i as int);
        assert(rest_a.len() == first_len - i);
        assert(rest_b.len() == second_len - i);
    }
    i < second_len
}

} // verus!
