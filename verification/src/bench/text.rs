//! The pieces from which the benchmarks' headings are made.

use vstd::prelude::*;
use vstd::string::{StrSliceExecFns, StringExecFns};

use crate::sequences::lemma_drop_last;

verus! {

/// The digits of `number` in the decimal system, the most significant one first.
pub open spec fn decimal(number: nat) -> Seq<char>
    decreases number,
{
    if number < 10 {
        seq![digit(number)]
    } else {
        decimal(number / 10).push(digit(number % 10))
    }
}

/// The character for a number below ten.
pub open spec fn digit(number: nat) -> char {
    (('0' as nat) + number) as char
}

/// `text` with spaces around it so that it takes up at least `width` characters: half of them in
/// front of it, and the odd one behind it.
pub open spec fn centered(text: Seq<char>, width: nat) -> Seq<char> {
    let missing = if text.len() < width { (width - text.len()) as nat } else { 0 };
    spaces(missing / 2) + text + spaces((missing - missing / 2) as nat)
}

pub open spec fn spaces(count: nat) -> Seq<char> {
    Seq::new(count, |i: int| ' ')
}

/// What the lines of a heading say.
pub open spec fn texts(lines: Seq<String>) -> Seq<Seq<char>> {
    lines.map_values(|line: String| line@)
}

/// Appends `number` to `line`, in the decimal system.
pub fn append_decimal(line: &mut String, number: usize)
    ensures
        final(line)@ == old(line)@ + decimal(number as nat),
    decreases number,
{
    if number >= 10 {
        append_decimal(line, number / 10);
    }
    line.append(digit_text(number % 10));
}

fn digit_text(number: usize) -> (text: &'static str)
    requires
        number < 10,
    ensures
        text@ == seq![digit(number as nat)],
{
    proof {
        reveal_strlit("0");
        reveal_strlit("1");
        reveal_strlit("2");
        reveal_strlit("3");
        reveal_strlit("4");
        reveal_strlit("5");
        reveal_strlit("6");
        reveal_strlit("7");
        reveal_strlit("8");
        reveal_strlit("9");
    }
    match number {
        0 => "0",
        1 => "1",
        2 => "2",
        3 => "3",
        4 => "4",
        5 => "5",
        6 => "6",
        7 => "7",
        8 => "8",
        _ => "9",
    }
}

/// Appends `count` spaces to `line`.
pub fn append_spaces(line: &mut String, count: usize)
    ensures
        final(line)@ == old(line)@ + spaces(count as nat),
{
    proof {
        reveal_strlit(" ");
    }
    let mut done: usize = 0;
    while done < count
        invariant
            done <= count,
            line@ == old(line)@ + spaces(done as nat),
            " "@ == seq![' '],
        decreases count - done,
    {
        line.append(" ");
        done = done + 1;
    }
}

/// Appends `text` to `line`, centered in `width` characters.
pub fn append_centered(line: &mut String, text: &str, width: usize)
    ensures
        final(line)@ == old(line)@ + centered(text@, width as nat),
{
    let length: usize = text.unicode_len();
    let missing: usize = if length < width {
        width - length
    } else {
        0
    };
    append_spaces(line, missing / 2);
    line.append(text);
    append_spaces(line, missing - missing / 2);
}

/// The number that a row of decimal digits denotes.
pub open spec fn number_read(digits: Seq<char>) -> int
    decreases digits.len(),
{
    if digits.len() == 0 {
        0
    } else {
        10 * number_read(digits.drop_last()) + (digits.last() as int - '0' as int)
    }
}

/// Whether `text` is made of decimal digits only.
pub open spec fn all_digits(text: Seq<char>) -> bool {
    forall|i: int| 0 <= i < text.len() ==> '0' as int <= #[trigger] text[i] as int <= '9' as int
}

/// A number is written with decimal digits that read back as that number, and with no zero in
/// front, unless it is zero itself.
pub proof fn law_decimal_reads_back(number: nat)
    ensures
        decimal(number).len() > 0,
        all_digits(decimal(number)),
        number_read(decimal(number)) == number,
        decimal(number)[0] == '0' <==> number == 0,
        decimal(number).len() > 1 ==> decimal(number)[0] != '0',
    decreases number,
{
    if number < 10 {
        assert(decimal(number).drop_last() =~= Seq::<char>::empty());
        assert(number_read(Seq::<char>::empty()) == 0);
    } else {
        law_decimal_reads_back(number / 10);
        assert(decimal(number).drop_last() =~= decimal(number / 10));
        lemma_drop_last(decimal(number));
    }
}

/// Centered text takes up the width, or its own length where that is greater; it stands there
/// whole, with nothing but spaces around it, and with as many in front as behind or one fewer.
pub proof fn law_centered_text_is_in_the_middle(text: Seq<char>, width: nat)
    ensures
        centered(text, width).len() == if text.len() < width {
            width
        } else {
            text.len()
        },
        ({
            let front = (centered(text, width).len() - text.len()) as int / 2;
            let behind = centered(text, width).len() - text.len() - front;
            &&& 0 <= front <= behind <= front + 1
            &&& centered(text, width).subrange(front, front + text.len()) == text
            &&& forall|i: int|
                0 <= i < centered(text, width).len() && !(front <= i < front + text.len())
                    ==> #[trigger] centered(text, width)[i] == ' '
        }),
{
    let front = (centered(text, width).len() - text.len()) as int / 2;
    assert(centered(text, width).subrange(front, front + text.len()) =~= text);
}

/// What lines say is what the strings hold, all of them and in their order.
pub proof fn law_texts_are_what_the_strings_hold(lines: Seq<String>)
    ensures
        texts(lines).len() == lines.len(),
        forall|i: int| 0 <= i < lines.len() ==> #[trigger] texts(lines)[i] == lines[i]@,
{
}

/// Where digits are followed by something else, what stands there tells where they end.
pub(crate) proof fn lemma_digits_end(
    a: Seq<char>,
    after_a: Seq<char>,
    b: Seq<char>,
    after_b: Seq<char>,
)
    requires
        all_digits(a),
        all_digits(b),
        after_a.len() > 0,
        after_b.len() > 0,
        !('0' as int <= after_a[0] as int <= '9' as int),
        !('0' as int <= after_b[0] as int <= '9' as int),
        a + after_a == b + after_b,
    ensures
        a == b,
        after_a == after_b,
{
    let whole = a + after_a;
    assert(whole[a.len() as int] == after_a[0]);
    assert((b + after_b)[b.len() as int] == after_b[0]);
    if a.len() < b.len() {
        assert((b + after_b)[a.len() as int] == b[a.len() as int]);
    } else if b.len() < a.len() {
        assert(whole[b.len() as int] == a[b.len() as int]);
    }
    lemma_same_front(a, after_a, b, after_b);
}

/// Two texts that are equal, and whose fronts are of one length, have the same front and the same
/// rest.
pub(crate) proof fn lemma_same_front(
    a: Seq<char>,
    after_a: Seq<char>,
    b: Seq<char>,
    after_b: Seq<char>,
)
    requires
        a.len() == b.len(),
        a + after_a == b + after_b,
    ensures
        a == b,
        after_a == after_b,
{
    assert(a =~= (a + after_a).take(a.len() as int));
    assert(b =~= (b + after_b).take(b.len() as int));
    assert(after_a =~= (a + after_a).skip(a.len() as int));
    assert(after_b =~= (b + after_b).skip(b.len() as int));
}

/// Numbers that are written alike are equal.
pub(crate) proof fn lemma_decimal_injective(a: nat, b: nat)
    requires
        decimal(a) == decimal(b),
    ensures
        a == b,
{
    law_decimal_reads_back(a);
    law_decimal_reads_back(b);
}

} // verus!
