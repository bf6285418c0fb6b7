//! What holds of every numeral, every column and every two names.

use vstd::prelude::*;

verus! {

use crate::text::{
    decimal,
    left_aligned,
    right_aligned,
    text_before,
    texts,
    three_digits,
    two_digits,
};

/// Whether a text is made of decimal digits.
pub open spec fn all_digits(text: Seq<char>) -> bool {
    forall|i: int| 0 <= i < text.len() ==> '0' <= #[trigger] text[i] <= '9'
}

/// The number that decimal digits stand for, the first digit counting most.
pub open spec fn digits_value(text: Seq<char>) -> int
    decreases text.len(),
{
    if text.len() == 0 {
        0
    } else {
        10 * digits_value(text.drop_last()) + (text.last() as int - '0' as int)
    }
}

/// A numeral is made of digits that stand for its number, and begins with a zero only if the number
/// is zero.
pub proof fn law_decimal(n: nat)
    ensures
        all_digits(decimal(n)),
        digits_value(decimal(n)) == n,
        decimal(n).len() > 0,
        decimal(n).len() > 1 ==> decimal(n)[0] != '0',
        n > 0 ==> decimal(n)[0] != '0',
    decreases n,
{
    reveal_with_fuel(digits_value, 2);
    if n < 10 {
        assert(decimal(n).drop_last() =~= Seq::<char>::empty());
    } else {
        law_decimal(n / 10);
        assert(decimal(n).drop_last() =~= decimal(n / 10));
    }
}

proof fn lemma_leading_zero(text: Seq<char>)
    requires
        all_digits(text),
    ensures
        all_digits(seq!['0'] + text),
        digits_value(seq!['0'] + text) == digits_value(text),
    decreases text.len(),
{
    let longer = seq!['0'] + text;
    if text.len() == 0 {
        reveal_with_fuel(digits_value, 2);
        assert(longer.drop_last() =~= text);
    } else {
        lemma_leading_zero(text.drop_last());
        assert(longer.drop_last() =~= seq!['0'] + text.drop_last());
    }
}

proof fn lemma_length(n: nat)
    ensures
        n < 10 <==> decimal(n).len() == 1,
        10 <= n < 100 <==> decimal(n).len() == 2,
        100 <= n < 1000 <==> decimal(n).len() == 3,
        n >= 1000 ==> decimal(n).len() > 3,
    decreases n,
{
    if n >= 10 {
        lemma_length(n / 10);
    }
}

/// A padded numeral stands for the same number and has as many digits as asked for, or more only
/// where the number needs them.
pub proof fn law_padded_numerals(n: nat)
    ensures
        all_digits(two_digits(n)),
        digits_value(two_digits(n)) == n,
        n < 100 ==> two_digits(n).len() == 2,
        n >= 10 ==> two_digits(n) == decimal(n),
        all_digits(three_digits(n)),
        digits_value(three_digits(n)) == n,
        n < 1000 ==> three_digits(n).len() == 3,
        n >= 100 ==> three_digits(n) == decimal(n),
{
    reveal_strlit("0");
    reveal_strlit("00");
    law_decimal(n);
    lemma_length(n);
    lemma_leading_zero(decimal(n));
    lemma_leading_zero(seq!['0'] + decimal(n));
    assert("0"@ =~= seq!['0']);
    assert("00"@ + decimal(n) =~= seq!['0'] + (seq!['0'] + decimal(n)));
}

/// A text put to the left of a column stands at its beginning, and one put to the right at its end;
/// the rest of the column is spaces, and a text that is too long for it is shown whole.
pub proof fn law_columns(text: Seq<char>, width: nat)
    ensures
        left_aligned(text, width).len() == if text.len() > width {
            text.len()
        } else {
            width
        },
        left_aligned(text, width).take(text.len() as int) == text,
        forall|i: int|
            text.len() <= i < left_aligned(text, width).len() ==> #[trigger] left_aligned(
                text,
                width,
            )[i] == ' ',
        right_aligned(text, width).len() == left_aligned(text, width).len(),
        right_aligned(text, width).skip(right_aligned(text, width).len() - text.len()) == text,
        forall|i: int|
            0 <= i < right_aligned(text, width).len() - text.len() ==> #[trigger] right_aligned(
                text,
                width,
            )[i] == ' ',
{
    assert(left_aligned(text, width).take(text.len() as int) =~= text);
    assert(right_aligned(text, width).skip(right_aligned(text, width).len() - text.len()) =~= text);
}

/// Two names are ordered by the first characters in which they differ; where one is the beginning
/// of the other, the shorter comes first.
pub proof fn law_text_before(a: Seq<char>, b: Seq<char>, k: int)
    requires
        0 <= k <= a.len(),
        k <= b.len(),
        a.take(k) == b.take(k),
        k == a.len() || k == b.len() || a[k] != b[k],
    ensures
        text_before(a, b) <==> k < b.len() && (k == a.len() || a[k] < b[k]),
    decreases k,
{
    if k > 0 {
        assert(a[0] == a.take(k)[0]);
        assert(b[0] == b.take(k)[0]);
        let x = a.drop_first();
        let y = b.drop_first();
        assert(x.take(k - 1) =~= a.take(k).drop_first());
        assert(y.take(k - 1) =~= b.take(k).drop_first());
        law_text_before(x, y, k - 1);
    }
}

/// The texts of a list are those of its strings, one by one.
pub proof fn law_texts(list: Seq<String>)
    ensures
        texts(list).len() == list.len(),
        forall|i: int| 0 <= i < list.len() ==> #[trigger] texts(list)[i] == list[i]@,
{
}

} // verus!
