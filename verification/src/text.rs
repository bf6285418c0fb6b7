//! Plain text: decimal numbers, padding, and the order of names.

use vstd::prelude::*;
use vstd::string::*;

verus! {

/// The character of one decimal digit.
pub open spec fn digit_char(d: nat) -> char {
    (48 + d) as char
}

/// The decimal numeral of `n`, without leading zeros.
pub open spec fn decimal(n: nat) -> Seq<char>
    decreases n,
{
    if n < 10 {
        seq![digit_char(n)]
    } else {
        decimal(n / 10).push(digit_char(n % 10))
    }
}

/// The texts of a list of strings.
pub open spec fn texts(list: Seq<String>) -> Seq<Seq<char>> {
    list.map_values(|s: String| s@)
}

/// The content of a text that may be missing.
pub open spec fn optional_text(text: Option<String>) -> Option<Seq<char>> {
    match text {
        Some(t) => Some(t@),
        None => None,
    }
}

/// `n` spaces.
pub open spec fn spaces(n: nat) -> Seq<char> {
    Seq::new(n, |i: int| ' ')
}

/// `text` followed by spaces up to `width` characters.
pub open spec fn left_aligned(text: Seq<char>, width: nat) -> Seq<char> {
    if text.len() < width {
        text + spaces((width - text.len()) as nat)
    } else {
        text
    }
}

/// `text` preceded by spaces up to `width` characters.
pub open spec fn right_aligned(text: Seq<char>, width: nat) -> Seq<char> {
    if text.len() < width {
        spaces((width - text.len()) as nat) + text
    } else {
        text
    }
}

/// The two-digit numeral of `n`, with a leading zero; a larger number keeps all its digits.
pub open spec fn two_digits(n: nat) -> Seq<char> {
    if n < 10 {
        "0"@ + decimal(n)
    } else {
        decimal(n)
    }
}

/// The three-digit numeral of `n`, with leading zeros; a larger number keeps all its digits.
pub open spec fn three_digits(n: nat) -> Seq<char> {
    if n < 10 {
        "00"@ + decimal(n)
    } else if n < 100 {
        "0"@ + decimal(n)
    } else {
        decimal(n)
    }
}

/// Names are ordered character by character, and a prefix comes before what extends it.
pub open spec fn text_before(a: Seq<char>, b: Seq<char>) -> bool
    decreases a.len(),
{
    if b.len() == 0 {
        false
    } else if a.len() == 0 {
        true
    } else if a[0] != b[0] {
        (a[0] as int) < (b[0] as int)
    } else {
        text_before(a.drop_first(), b.drop_first())
    }
}

fn digit_text(d: u64) -> (text: &'static str)
    requires
        d < 10,
    ensures
        text@ == seq![digit_char(d as nat)],
{
    proof {
        reveal_strlit("0");
        reveal_strlit("1");
        reveal_strlit("2");
        reveal_strlit("3");
        reveal_strlit("4");
        reveal_strlit("5");
        reveal_strlit("6");
        reveal_strlit("7");
        reveal_strlit("8");
        reveal_strlit("9");
    }
    if d == 0 {
        "0"
    } else if d == 1 {
        "1"
    } else if d == 2 {
        "2"
    } else if d == 3 {
        "3"
    } else if d == 4 {
        "4"
    } else if d == 5 {
        "5"
    } else if d == 6 {
        "6"
    } else if d == 7 {
        "7"
    } else if d == 8 {
        "8"
    } else {
        "9"
    }
}

/// The decimal numeral of a number.
pub fn decimal_text(n: u64) -> (text: String)
    ensures
        text@ == decimal(n as nat),
    decreases n,
{
    if n < 10 {
        String::from_str(digit_text(n))
    } else {
        let mut text = decimal_text(n / 10);
        text.append(digit_text(n % 10));
        text
    }
}

/// The numeral of a number in at least two digits.
pub fn two_digit_text(n: u64) -> (text: String)
    ensures
        text@ == two_digits(n as nat),
{
    let numeral = decimal_text(n);
    if n < 10 {
        text2("0", numeral.as_str())
    } else {
        numeral
    }
}

/// The numeral of a number in at least three digits.
pub fn three_digit_text(n: u64) -> (text: String)
    ensures
        text@ == three_digits(n as nat),
{
    let numeral = decimal_text(n);
    if n < 10 {
        text2("00", numeral.as_str())
    } else if n < 100 {
        text2("0", numeral.as_str())
    } else {
        numeral
    }
}

/// Puts two pieces of text together.
pub fn text2(a: &str, b: &str) -> (text: String)
    ensures
        text@ == a@ + b@,
{
    let mut text = String::from_str(a);
    text.append(b);
    text
}

/// Copies a list of strings.
pub fn copy_texts(list: &Vec<String>) -> (copy: Vec<String>)
    ensures
        texts(copy@) == texts(list@),
{
    let mut copy: Vec<String> = Vec::new();
    let mut i: usize = 0;
    while i < list.len()
        invariant
            i <= list.len(),
            copy.len() == i,
            forall|j: int| 0 <= j < i ==> (#[trigger] copy@[j])@ == list@[j]@,
        decreases list.len() - i,
    {
        copy.push(list[i].clone());
        i += 1;
    }
    assert(texts(copy@) =~= texts(list@));
    copy
}

fn space_text(n: usize) -> (text: String)
    ensures
        text@ == spaces(n as nat),
{
    let mut text = String::new();
    let mut i: usize = 0;
    proof {
        reveal_strlit(" ");
    }
    while i < n
        invariant
            i <= n,
            text@ == spaces(i as nat),
            " "@ == seq![' '],
        decreases n - i,
    {
        text.append(" ");
        i += 1;
        assert(text@ =~= spaces(i as nat));
    }
    text
}

/// Pads `text` on the right.
pub fn align_left(text: &str, width: usize) -> (r: String)
    ensures
        r@ == left_aligned(text@, width as nat),
{
    let len: usize = text.unicode_len();
    if len < width {
        text2(text, space_text(width - len).as_str())
    } else {
        String::from_str(text)
    }
}

/// Pads `text` on the left.
pub fn align_right(text: &str, width: usize) -> (r: String)
    ensures
        r@ == right_aligned(text@, width as nat),
{
    let len: usize = text.unicode_len();
    if len < width {
        text2(space_text(width - len).as_str(), text)
    } else {
        String::from_str(text)
    }
}

/// Whether two texts are the same.
pub fn same_text(a: &str, b: &str) -> (r: bool)
    ensures
        r == (a@ == b@),
{
    let mut left = a.chars();
    let mut right = b.chars();
    proof {
        assert(Seq::<char>::empty() + a@ =~= a@);
        assert(Seq::<char>::empty() + b@ =~= b@);
    }
    let ghost mut read: Seq<char> = Seq::empty();
    loop
        invariant
            a@ == read + vstd::std_specs::iter::IteratorSpec::remaining(&left),
            b@ == read + vstd::std_specs::iter::IteratorSpec::remaining(&right),
            vstd::std_specs::iter::IteratorSpec::decrease(&left) is Some,
        decreases vstd::std_specs::iter::IteratorSpec::decrease(&left)->0,
    {
        let ghost l = vstd::std_specs::iter::IteratorSpec::remaining(&left);
        let ghost r = vstd::std_specs::iter::IteratorSpec::remaining(&right);
        match (left.next(), right.next()) {
            (None, None) => {
                return true;
            },
            (Some(x), Some(y)) => {
                proof {
                    assert(a@[read.len() as int] == x);
                    assert(b@[read.len() as int] == y);
                    assert(read.push(x) + l.drop_first() =~= read + l);
                    assert(read.push(y) + r.drop_first() =~= read + r);
                }
                if x != y {
                    return false;
                }
                proof {
                    read = read.push(x);
                }
            },
            (None, Some(y)) => {
                assert(a@.len() < b@.len());
                return false;
            },
            (Some(x), None) => {
                assert(a@.len() > b@.len());
                return false;
            },
        }
    }
}

/// Whether the name `a` comes before the name `b`.
pub fn name_before(a: &str, b: &str) -> (r: bool)
    ensures
        r == text_before(a@, b@),
{
    let mut left = a.chars();
    let mut right = b.chars();
    loop
        invariant
            text_before(a@, b@) == text_before(
                vstd::std_specs::iter::IteratorSpec::remaining(&left),
                vstd::std_specs::iter::IteratorSpec::remaining(&right),
            ),
            vstd::std_specs::iter::IteratorSpec::decrease(&left) is Some,
        decreases vstd::std_specs::iter::IteratorSpec::decrease(&left)->0,
    {
        match right.next() {
            None => {
                return false;
            },
            Some(y) => match left.next() {
                None => {
                    return true;
                },
                Some(x) => {
                    if x != y {
                        return x < y;
                    }
                },
            },
        }
    }
}

} // verus!
