//! The order in which the combinations of the benchmarks' parameters are tried.

use vstd::prelude::*;

use crate::sequences::lemma_drop_last;

verus! {

/// The rows of a table.
pub open spec fn rows(table: Seq<Vec<usize>>) -> Seq<Seq<usize>> {
    table.map_values(|row: Vec<usize>| row@)
}

/// Each of `prefixes` followed by each of `choices`; the choices vary fastest.
pub open spec fn extended(prefixes: Seq<Seq<usize>>, choices: Seq<usize>) -> Seq<Seq<usize>> {
    Seq::new(
        prefixes.len() * choices.len(),
        |i: int| prefixes[i / choices.len() as int].push(choices[i % choices.len() as int]),
    )
}

/// All ways to pick one value for each parameter, in the order in which nested loops over
/// `values` visit them: the loop over the last parameter is the innermost one.
pub open spec fn combinations_of(values: Seq<Seq<usize>>) -> Seq<Seq<usize>>
    decreases values.len(),
{
    if values.len() == 0 {
        seq![Seq::empty()]
    } else {
        extended(combinations_of(values.drop_last()), values.last())
    }
}

/// All ways to pick one value for each parameter, where `values` holds the values of each.
pub fn combinations(values: &Vec<Vec<usize>>) -> (combinations: Vec<Vec<usize>>)
    ensures
        rows(combinations@) == combinations_of(rows(values@)),
{
    let mut table: Vec<Vec<usize>> = Vec::new();
    table.push(Vec::new());
    let mut done: usize = 0;
    let ghost all = rows(values@);
    assert(rows(table@) =~= combinations_of(all.take(0)));
    while done < values.len()
        invariant
            done <= values.len(),
            all == rows(values@),
            rows(table@) == combinations_of(all.take(done as int)),
        decreases values.len() - done,
    {
        table = extend(&table, &values[done]);
        proof {
            assert(all.take(done + 1).drop_last() =~= all.take(done as int));
            assert(all.take(done + 1).last() == values@[done as int]@);
        }
        done = done + 1;
    }
    assert(all.take(done as int) =~= all);
    table
}

/// For each parameter, whether `values` holds a single value for it, so that it does not vary.
pub fn single(values: &Vec<Vec<usize>>) -> (single: Vec<bool>)
    ensures
        single@ == rows(values@).map_values(|choices: Seq<usize>| choices.len() == 1),
        single@.len() == values@.len(),
        forall|d: int| 0 <= d < values@.len() ==> (#[trigger] single@[d] <==> values@[d]@.len() == 1),
{
    let mut single: Vec<bool> = Vec::new();
    let ghost target = rows(values@).map_values(|choices: Seq<usize>| choices.len() == 1);
    while single.len() < values.len()
        invariant
            single.len() <= values.len(),
            target == rows(values@).map_values(|choices: Seq<usize>| choices.len() == 1),
            single@ == target.take(single@.len() as int),
        decreases values.len() - single.len(),
    {
        let ghost before = single@;
        single.push(values[single.len()].len() == 1);
        assert(single@ =~= target.take(before.len() as int + 1));
    }
    assert(target.take(single@.len() as int) =~= target);
    single
}

/// Each of `prefixes` followed by each of `choices`.
fn extend(prefixes: &Vec<Vec<usize>>, choices: &Vec<usize>) -> (table: Vec<Vec<usize>>)
    ensures
        rows(table@) == extended(rows(prefixes@), choices@),
{
    let mut table: Vec<Vec<usize>> = Vec::new();
    let ghost target = extended(rows(prefixes@), choices@);
    let mut i: usize = 0;
    while i < prefixes.len()
        invariant
            i <= prefixes.len(),
            target == extended(rows(prefixes@), choices@),
            table@.len() == i * choices.len(),
            i * choices.len() <= target.len(),
            rows(table@) == target.take(i * choices.len()),
        decreases prefixes.len() - i,
    {
        proof {
            lemma_row_fits(i as int, prefixes.len() as int, choices.len() as int);
        }
        let mut j: usize = 0;
        while j < choices.len()
            invariant
                i < prefixes.len(),
                j <= choices.len(),
                target == extended(rows(prefixes@), choices@),
                table@.len() == i * choices.len() + j,
                i * choices.len() + choices.len() <= target.len(),
                rows(table@) == target.take(i * choices.len() + j),
            decreases choices.len() - j,
        {
            let mut row = prefixes[i].clone();
            row.push(choices[j]);
            proof {
                lemma_position(i as int, j as int, choices.len() as int);
                let at = i * choices.len() + j;
                assert(target[at] =~= row@);
                assert(rows(table@.push(row)) =~= rows(table@).push(row@));
                assert(target.take(at + 1) =~= target.take(at).push(target[at]));
            }
            table.push(row);
            j = j + 1;
        }
        proof {
            assert((i + 1) * choices.len() == i * choices.len() + choices.len())
                by (nonlinear_arith);
        }
        i = i + 1;
    }
    assert(target.take(prefixes.len() * choices.len()) =~= target);
    table
}

proof fn lemma_row_fits(row: int, height: int, width: int)
    requires
        0 <= row < height,
        0 <= width,
    ensures
        0 <= row * width,
        row * width + width <= height * width,
{
    assert(0 <= row * width && row * width + width <= height * width) by (nonlinear_arith)
        requires
            0 <= row < height,
            0 <= width,
    ;
}

proof fn lemma_position(row: int, column: int, width: int)
    requires
        0 <= row,
        0 <= column < width,
    ensures
        (row * width + column) / width == row,
        (row * width + column) % width == column,
{
    vstd::arithmetic::div_mod::lemma_fundamental_div_mod_converse(
        row * width + column,
        width,
        row,
        column,
    );
}

/// The rows of a table are what its vectors hold, all of them and in their order.
pub proof fn law_rows_are_what_the_vectors_hold(table: Seq<Vec<usize>>)
    ensures
        rows(table).len() == table.len(),
        forall|i: int| 0 <= i < table.len() ==> #[trigger] rows(table)[i] == table[i]@,
{
}

/// There are as many combinations as the numbers of values multiply up to; where a parameter has
/// no value there is none, and each parameter multiplies the number of those without it.
pub proof fn law_numbers_of_values_multiply(values: Seq<Seq<usize>>, choices: Seq<usize>)
    ensures
        combinations_of(Seq::<Seq<usize>>::empty()).len() == 1,
        combinations_of(values.push(choices)).len() == combinations_of(values).len()
            * choices.len(),
{
    assert(values.push(choices).drop_last() =~= values);
}

/// The combinations come in the order of nested loops: of two ways to pick that agree up to some
/// parameter, the one that takes an earlier value of it comes first.
pub proof fn law_earlier_values_come_first(
    values: Seq<Seq<usize>>,
    a: Seq<int>,
    b: Seq<int>,
    differ: int,
)
    requires
        picks_from(values, a),
        picks_from(values, b),
        0 <= differ < values.len(),
        forall|d: int| 0 <= d < differ ==> #[trigger] a[d] == b[d],
        a[differ] < b[differ],
    ensures
        place_of(values, a) < place_of(values, b),
    decreases values.len(),
{
    let rest = values.drop_last();
    let width = values.last().len() as int;
    lemma_drop_last(values);
    lemma_drop_last(a);
    lemma_drop_last(b);
    assert(a[values.len() - 1] == a.last() && b[values.len() - 1] == b.last());
    if differ < rest.len() {
        assert(picks_from(rest, a.drop_last()));
        assert(picks_from(rest, b.drop_last()));
        law_earlier_values_come_first(rest, a.drop_last(), b.drop_last(), differ);
        let (i, j) = (place_of(rest, a.drop_last()), place_of(rest, b.drop_last()));
        assert(i * width + width <= j * width) by (nonlinear_arith)
            requires
                i < j,
                0 <= width,
        ;
    } else {
        assert(a.drop_last() =~= b.drop_last());
    }
}

/// Whether `picks` names a value of each parameter by its position.
pub open spec fn picks_from(values: Seq<Seq<usize>>, picks: Seq<int>) -> bool {
    &&& picks.len() == values.len()
    &&& forall|d: int| 0 <= d < values.len() ==> 0 <= #[trigger] picks[d] < values[d].len()
}

/// Where the combination that `picks` names stands: the positions are the digits of its place,
/// the one for the last parameter being the least significant.
pub open spec fn place_of(values: Seq<Seq<usize>>, picks: Seq<int>) -> int
    decreases values.len(),
{
    if values.len() == 0 {
        0
    } else {
        place_of(values.drop_last(), picks.drop_last()) * values.last().len() + picks.last()
    }
}

/// The combination that `picks` names.
pub open spec fn picked(values: Seq<Seq<usize>>, picks: Seq<int>) -> Seq<usize> {
    Seq::new(values.len(), |d: int| values[d][picks[d]])
}

/// Every combination is tried, at its own place in the order.
pub proof fn law_every_combination_is_tried(values: Seq<Seq<usize>>, picks: Seq<int>)
    requires
        picks_from(values, picks),
    ensures
        0 <= place_of(values, picks) < combinations_of(values).len(),
        combinations_of(values)[place_of(values, picks)] == picked(values, picks),
    decreases values.len(),
{
    if values.len() == 0 {
        assert(combinations_of(values)[0] =~= picked(values, picks));
    } else {
        let rest = values.drop_last();
        let rest_picks = picks.drop_last();
        let last = picks.last();
        let width = values.last().len() as int;
        lemma_drop_last(values);
        assert forall|d: int| 0 <= d < rest.len() implies 0 <= #[trigger] rest_picks[d]
            < rest[d].len() by {
            assert(picks[d] == rest_picks[d]);
        }
        assert(picks[values.len() - 1] == last);
        law_every_combination_is_tried(rest, rest_picks);
        let place = place_of(rest, rest_picks);
        lemma_row_fits(place, combinations_of(rest).len() as int, width);
        lemma_position(place, last, width);
        assert(combinations_of(values)[place_of(values, picks)] =~= picked(values, picks));
    }
}

/// Nothing but combinations is tried, and none is tried twice: each place in the order belongs
/// to just one way to pick.
pub proof fn law_each_place_holds_one_combination(values: Seq<Seq<usize>>, place: int) -> (picks:
    Seq<int>)
    requires
        0 <= place < combinations_of(values).len(),
    ensures
        picks_from(values, picks),
        place_of(values, picks) == place,
        forall|other: Seq<int>|
            #![trigger place_of(values, other)]
            picks_from(values, other) && place_of(values, other) == place ==> other == picks,
    decreases values.len(),
{
    if values.len() == 0 {
        assert(forall|other: Seq<int>|
            picks_from(values, other) ==> other =~= Seq::<int>::empty());
        Seq::empty()
    } else {
        let rest = values.drop_last();
        let width = values.last().len() as int;
        let height = combinations_of(rest).len() as int;
        assert(width > 0) by {
            assert(width == 0 ==> height * width == 0) by (nonlinear_arith);
        }
        let row = place / width;
        let column = place % width;
        vstd::arithmetic::div_mod::lemma_fundamental_div_mod(place, width);
        assert(place == row * width + column) by (nonlinear_arith)
            requires
                place == width * row + column,
        ;
        assert(0 <= row < height) by (nonlinear_arith)
            requires
                place == row * width + column,
                0 <= column < width,
                0 <= place < height * width,
        ;
        let rest_picks = law_each_place_holds_one_combination(rest, row);
        let picks = rest_picks.push(column);
        assert(picks.drop_last() =~= rest_picks);
        lemma_drop_last(values);
        assert forall|d: int| 0 <= d < values.len() implies 0 <= #[trigger] picks[d]
            < values[d].len() by {
            if d < rest.len() {
                assert(picks[d] == rest_picks[d]);
            }
        }
        assert forall|other: Seq<int>|
            #![trigger place_of(values, other)]
            picks_from(values, other) && place_of(values, other) == place implies other
            == picks by {
            let other_rest = other.drop_last();
            let other_last = other.last();
            assert(other[values.len() - 1] == other_last);
            assert forall|d: int| 0 <= d < rest.len() implies 0 <= #[trigger] other_rest[d]
                < rest[d].len() by {
                assert(other[d] == other_rest[d]);
            }
            law_every_combination_is_tried(rest, other_rest);
            lemma_position(place_of(rest, other_rest), other_last, width);
            assert(other_rest == rest_picks);
            assert(other =~= picks);
        }
        picks
    }
}

} // verus!
