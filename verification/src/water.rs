//! Tooltip text for counts of water entities.
use crate::chars::{decimal, push_decimal, push_str};
use vstd::prelude::*;

verus! {

/// A kind of water.
#[derive(Debug, Clone, Copy, PartialEq, Eq, Structural)]
pub enum Water {
    Fresh,
    Gray,
    Ballast,
}

/// What a tooltip counts: all water, or one kind of it.
#[derive(Debug, Clone, Copy, PartialEq, Eq, Structural)]
pub enum Label {
    Total,
    Water(Water),
}

/// How many entries of `water` equal `w`.
pub open spec fn count_kind(water: Seq<Water>, w: Water) -> nat
    decreases water.len(),
{
    if water.len() == 0 {
        0
    } else {
        count_kind(water.drop_last(), w) + if water.last() == w { 1nat } else { 0nat }
    }
}

/// The amount a label shows.
pub open spec fn label_amount(water: Seq<Water>, label: Label) -> nat {
    match label {
        Label::Total => water.len(),
        Label::Water(w) => count_kind(water, w),
    }
}

/// The tooltip text for an amount: the number, a space and `L`.
pub open spec fn amount_text(n: nat) -> Seq<char> {
    decimal(n) + seq![' ', 'L']
}

/// One more entity of kind `w`, wherever it stands, adds one to the count of
/// `w` and leaves the count of every other kind alone.
pub proof fn lemma_count_one_more(a: Seq<Water>, k: int, w: Water, v: Water)
    requires
        0 <= k <= a.len(),
    ensures
        count_kind(a.insert(k, w), v) == count_kind(a, v) + if v == w { 1nat } else { 0nat },
    decreases a.len(),
{
    if k == a.len() {
        assert(a.insert(k, w).drop_last() =~= a);
    } else {
        assert(a.insert(k, w).drop_last() =~= a.drop_last().insert(k, w));
        assert(a.insert(k, w).last() == a.last());
        lemma_count_one_more(a.drop_last(), k, w, v);
    }
}

/// A world with one more entity of kind `w` shows one more in the total and
/// in every tooltip of `w`, and the same text in every tooltip of another
/// kind.
pub proof fn lemma_one_more_water(a: Seq<Water>, k: int, w: Water, label: Label)
    requires
        0 <= k <= a.len(),
    ensures
        (label == Label::Total || label == Label::Water(w)) ==> label_amount(a.insert(k, w), label)
            == label_amount(a, label) + 1,
        !(label == Label::Total || label == Label::Water(w)) ==> amount_text(
            label_amount(a.insert(k, w), label),
        ) == amount_text(label_amount(a, label)),
{
    if let Label::Water(v) = label {
        lemma_count_one_more(a, k, w, v);
    }
}

fn count_water(water: &[Water], w: Water) -> (n: usize)
    ensures
        n == count_kind(water@, w),
{
    let mut n: usize = 0;
    let mut i: usize = 0;
    while i < water.len()
        invariant
            i <= water@.len(),
            n == count_kind(water@.subrange(0, i as int), w),
            n <= i,
        decreases water@.len() - i,
    {
        assert(water@.subrange(0, (i + 1) as int).drop_last() =~= water@.subrange(0, i as int));
        if water[i] == w {
            n = n + 1;
        }
        i = i + 1;
    }
    assert(water@.subrange(0, water@.len() as int) =~= water@);
    n
}

/// Sets each tooltip's text to the amount of water its label counts, written
/// as `"{amount} L"`; the labels stay as they are.
pub fn update_water_tooltip(water_query: &[Water], text_query: &mut Vec<(String, Label)>)
    ensures
        final(text_query)@.len() == old(text_query)@.len(),
        forall|i: int|
            0 <= i < final(text_query)@.len() ==> {
                &&& (#[trigger] final(text_query)@[i]).1 == old(text_query)@[i].1
                &&& final(text_query)@[i].0@ == amount_text(
                    label_amount(water_query@, old(text_query)@[i].1),
                )
            },
{
    let mut i: usize = 0;
    while i < text_query.len()
        invariant
            i <= text_query@.len(),
            text_query@.len() == old(text_query)@.len(),
            forall|j: int| 0 <= j < text_query@.len() ==> (#[trigger] text_query@[j]).1 == old(text_query)@[j].1,
            forall|j: int|
                0 <= j < i ==> (#[trigger] text_query@[j]).0@ == amount_text(
                    label_amount(water_query@, old(text_query)@[j].1),
                ),
        decreases text_query@.len() - i,
    {
        let label = text_query[i].1;
        let amount = match label {
            Label::Total => water_query.len(),
            Label::Water(w) => count_water(water_query, w),
        };
        let mut text = String::new();
        push_decimal(&mut text, amount as u64);
        push_str(&mut text, " L");
        proof {
            reveal_strlit(" L");
            assert(text@ =~= amount_text(label_amount(water_query@, label)));
        }
        text_query.set(i, (text, label));
        i = i + 1;
    }
}

} // verus!
