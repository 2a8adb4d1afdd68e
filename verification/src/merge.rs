//! The wired-OR bus: every populated chip drives the shared line, and the
//! line carries the bitwise OR of all of them.

use vstd::prelude::*;

verus! {

/// The value on a shared line that the chips of `words` drive together: the
/// bitwise OR of every chip's output, zero for an empty line.
pub open spec fn or_fold(words: Seq<u16>) -> u16
    decreases words.len(),
{
    if words.len() == 0 {
        0u16
    } else {
        or_fold(words.drop_last()) | words.last()
    }
}

/// ORing one more chip onto the line extends the fold by that chip.
pub proof fn lemma_or_fold_push(words: Seq<u16>, word: u16)
    ensures
        or_fold(words.push(word)) == or_fold(words) | word,
{
    assert(words.push(word).drop_last() =~= words);
}

/// A line on which every chip stays silent carries zero.
pub proof fn lemma_or_fold_silent(words: Seq<u16>)
    requires
        forall|i: int| 0 <= i < words.len() ==> words[i] == 0,
    ensures
        or_fold(words) == 0,
    decreases words.len(),
{
    if words.len() > 0 {
        lemma_or_fold_silent(words.drop_last());
        assert(words.last() == 0);
        assert(0u16 | 0u16 == 0u16) by (bit_vector);
    }
}

/// Open-collector law: when every chip but the one at `selected` emits zero,
/// the merged line carries exactly the selected chip's word, however many
/// chips are populated.
pub proof fn lemma_single_driver(words: Seq<u16>, selected: int)
    requires
        0 <= selected < words.len(),
        forall|i: int| 0 <= i < words.len() && i != selected ==> words[i] == 0,
    ensures
        or_fold(words) == words[selected],
    decreases words.len(),
{
    let front = words.drop_last();
    let last = words.last();
    if selected == words.len() - 1 {
        lemma_or_fold_silent(front);
        assert(0u16 | last == last) by (bit_vector);
    } else {
        lemma_single_driver(front, selected);
        let w = front[selected];
        assert(last == 0);
        assert(w | 0u16 == w) by (bit_vector);
    }
}

/// The merged line never carries a bit that no chip drives: if every word
/// stays within `mask`, so does the merge. In particular a line of ten-bit
/// chips carries a ten-bit word.
pub proof fn lemma_or_fold_within(words: Seq<u16>, mask: u16)
    requires
        forall|i: int| 0 <= i < words.len() ==> #[trigger] words[i] & mask == words[i],
    ensures
        or_fold(words) & mask == or_fold(words),
    decreases words.len(),
{
    if words.len() == 0 {
        assert(0u16 & mask == 0u16) by (bit_vector);
    } else {
        let front = words.drop_last();
        assert forall|i: int| 0 <= i < front.len() implies #[trigger] front[i] & mask
            == front[i] by {
            assert(front[i] == words[i]);
        }
        lemma_or_fold_within(front, mask);
        let a = or_fold(front);
        let b = words.last();
        assert(b & mask == b);
        assert((a | b) & mask == (a | b)) by (bit_vector)
            requires
                a & mask == a,
                b & mask == b,
        ;
    }
}

/// Merging two groups of chips separately and ORing the two lines gives the
/// same word as merging all of them at once.
pub proof fn lemma_or_fold_concat(left: Seq<u16>, right: Seq<u16>)
    ensures
        or_fold(left + right) == or_fold(left) | or_fold(right),
    decreases right.len(),
{
    let a = or_fold(left);
    if right.len() == 0 {
        assert(left + right =~= left);
        assert(a | 0u16 == a) by (bit_vector);
    } else {
        let front = right.drop_last();
        let last = right.last();
        assert((left + right).drop_last() =~= left + front);
        lemma_or_fold_concat(left, front);
        let b = or_fold(front);
        assert((a | b) | last == a | (b | last)) by (bit_vector);
    }
}

/// Merges the outputs of all populated chips onto the shared line. Every
/// chip is folded in; none is looked up or skipped.
pub fn merge_words(words: &Vec<u16>) -> (line: u16)
    ensures
        line == or_fold(words@),
{
    let mut line: u16 = 0;
    let mut i: usize = 0;
    while i < words.len()
        invariant
            i <= words.len(),
            line == or_fold(words@.subrange(0, i as int)),
        decreases words.len() - i,
    {
        proof {
            lemma_or_fold_push(words@.subrange(0, i as int), words@[i as int]);
            assert(words@.subrange(0, i as int).push(words@[i as int]) =~= words@.subrange(
                0,
                i + 1,
            ));
        }
        line = line | words[i];
        i += 1;
    }
    proof {
        assert(words@.subrange(0, i as int) =~= words@);
    }
    line
}

} // verus!
