//! The lines of a heading that both benchmarks share.

use vstd::prelude::*;
use vstd::string::StringExecFns;

use crate::bench::text::{
    append_decimal, decimal, law_decimal_reads_back, lemma_decimal_injective, lemma_digits_end,
    lemma_same_front, texts,
};
use crate::sequences::lemma_drop_last;

verus! {

/// The line that says how much work is done inside of the lock and outside of it.
pub open spec fn work_line(inside: usize, outside: usize) -> Seq<char> {
    "- "@ + decimal(inside as nat) + " iterations inside lock, "@ + decimal(outside as nat)
        + " iterations outside lock"@
}

/// The line that says how long a test takes.
pub open spec fn seconds_line(seconds: usize) -> Seq<char> {
    "- "@ + decimal(seconds as nat) + " seconds per test"@
}

/// `line`, or nothing where it is not wanted.
pub open spec fn line_if(wanted: bool, line: Seq<char>) -> Seq<Seq<char>> {
    if wanted {
        seq![line]
    } else {
        Seq::empty()
    }
}

/// Whether nothing was done yet for any combination of parameters, after one more was considered:
/// something is done for a combination that has tasks.
pub open spec fn first_after(first: bool, has_tasks: bool) -> bool {
    first && !has_tasks
}

/// Whether nothing was done yet for any combination of parameters, after those were considered of
/// which `tried` says whether they have tasks.
pub open spec fn still_first(tried: Seq<bool>) -> bool
    decreases tried.len(),
{
    if tried.len() == 0 {
        true
    } else {
        first_after(still_first(tried.drop_last()), tried.last())
    }
}

/// A heading is printed in full, whatever varies, just for the first combination of parameters
/// that has tasks.
pub proof fn law_first_combination_with_tasks_is_announced_in_full(tried: Seq<bool>)
    ensures
        still_first(tried) <==> forall|i: int| 0 <= i < tried.len() ==> !#[trigger] tried[i],
    decreases tried.len(),
{
    if tried.len() > 0 {
        lemma_drop_last(tried);
        law_first_combination_with_tasks_is_announced_in_full(tried.drop_last());
    }
}

/// Adds the line that says how much work is done inside of the lock and outside of it.
pub fn push_work_line(lines: &mut Vec<String>, inside: usize, outside: usize)
    ensures
        texts(final(lines)@) == texts(old(lines)@).push(work_line(inside, outside)),
{
    let mut line = String::new();
    line.append("- ");
    append_decimal(&mut line, inside);
    line.append(" iterations inside lock, ");
    append_decimal(&mut line, outside);
    line.append(" iterations outside lock");
    assert(line@ =~= work_line(inside, outside));
    push_line(lines, line);
}

/// Adds the line that says how long a test takes.
pub fn push_seconds_line(lines: &mut Vec<String>, seconds: usize)
    ensures
        texts(final(lines)@) == texts(old(lines)@).push(seconds_line(seconds)),
{
    let mut line = String::new();
    line.append("- ");
    append_decimal(&mut line, seconds);
    line.append(" seconds per test");
    assert(line@ =~= seconds_line(seconds));
    push_line(lines, line);
}

/// Adds `line`.
pub fn push_line(lines: &mut Vec<String>, line: String)
    ensures
        texts(final(lines)@) == texts(old(lines)@).push(line@),
{
    lines.push(line);
    assert(texts(lines@) =~= texts(old(lines)@).push(line@));
}

/// The line on the work says how much of it is done inside of the lock, in front, and how much
/// outside of it, at the end; so no two amounts of work are announced alike.
pub proof fn law_work_line_tells_the_work(
    inside: usize,
    outside: usize,
    other_inside: usize,
    other_outside: usize,
)
    ensures
        ("- "@ + decimal(inside as nat) + " iterations inside lock, "@).is_prefix_of(
            work_line(inside, outside),
        ),
        (decimal(outside as nat) + " iterations outside lock"@).is_suffix_of(
            work_line(inside, outside),
        ),
        work_line(inside, outside).len() == decimal(inside as nat).len() + decimal(
            outside as nat,
        ).len() + 51,
        work_line(inside, outside).last() == 'k',
        work_line(inside, outside) == work_line(other_inside, other_outside) <==> inside
            == other_inside && outside == other_outside,
{
    reveal_strlit("- ");
    reveal_strlit(" iterations inside lock, ");
    reveal_strlit(" iterations outside lock");
    law_decimal_reads_back(inside as nat);
    law_decimal_reads_back(outside as nat);
    law_decimal_reads_back(other_inside as nat);
    law_decimal_reads_back(other_outside as nat);
    let middle = " iterations inside lock, "@;
    let end = " iterations outside lock"@;
    let tail = decimal(outside as nat) + end;
    let other_tail = decimal(other_outside as nat) + end;
    assert(work_line(inside, outside) =~= "- "@ + (decimal(inside as nat) + (middle + tail)));
    assert(work_line(other_inside, other_outside) =~= "- "@ + (decimal(other_inside as nat) + (
    middle + other_tail)));
    if work_line(inside, outside) == work_line(other_inside, other_outside) {
        lemma_same_front(
            "- "@,
            decimal(inside as nat) + (middle + tail),
            "- "@,
            decimal(other_inside as nat) + (middle + other_tail),
        );
        lemma_digits_end(
            decimal(inside as nat),
            middle + tail,
            decimal(other_inside as nat),
            middle + other_tail,
        );
        lemma_same_front(middle, tail, middle, other_tail);
        lemma_digits_end(decimal(outside as nat), end, decimal(other_outside as nat), end);
        lemma_decimal_injective(inside as nat, other_inside as nat);
        lemma_decimal_injective(outside as nat, other_outside as nat);
    }
}

/// The line on the time says how many seconds a test takes, and nothing else varies in it; so no
/// two times are announced alike.
pub proof fn law_seconds_line_tells_the_seconds(seconds: usize, other: usize)
    ensures
        ("- "@ + decimal(seconds as nat)).is_prefix_of(seconds_line(seconds)),
        " seconds per test"@.is_suffix_of(seconds_line(seconds)),
        seconds_line(seconds).len() == decimal(seconds as nat).len() + 19,
        seconds_line(seconds).last() == 't',
        seconds_line(seconds) == seconds_line(other) <==> seconds == other,
{
    reveal_strlit("- ");
    reveal_strlit(" seconds per test");
    law_decimal_reads_back(seconds as nat);
    law_decimal_reads_back(other as nat);
    let end = " seconds per test"@;
    assert(seconds_line(seconds) =~= "- "@ + (decimal(seconds as nat) + end));
    assert(seconds_line(other) =~= "- "@ + (decimal(other as nat) + end));
    if seconds_line(seconds) == seconds_line(other) {
        lemma_same_front(
            "- "@,
            decimal(seconds as nat) + end,
            "- "@,
            decimal(other as nat) + end,
        );
        lemma_digits_end(decimal(seconds as nat), end, decimal(other as nat), end);
        lemma_decimal_injective(seconds as nat, other as nat);
    }
}

/// A line that is wanted is there, once, and one that is not wanted is not there.
pub proof fn law_line_is_there_iff_wanted(wanted: bool, line: Seq<char>)
    ensures
        line_if(wanted, line).contains(line) <==> wanted,
        line_if(wanted, line).len() == if wanted {
            1nat
        } else {
            0nat
        },
{
    if wanted {
        assert(line_if(wanted, line)[0] == line);
    }
}

} // verus!
