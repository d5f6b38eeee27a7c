//! Building lines of text.

use vstd::prelude::*;

verus! {

/// The character of a decimal digit.
pub open spec fn digit_char(digit: nat) -> char {
    if digit == 0 {
        '0'
    } else if digit == 1 {
        '1'
    } else if digit == 2 {
        '2'
    } else if digit == 3 {
        '3'
    } else if digit == 4 {
        '4'
    } else if digit == 5 {
        '5'
    } else if digit == 6 {
        '6'
    } else if digit == 7 {
        '7'
    } else if digit == 8 {
        '8'
    } else {
        '9'
    }
}

/// A number in decimal, without leading zeros.
pub open spec fn decimal(n: nat) -> Seq<char>
    decreases n,
{
    if n < 10 {
        seq![digit_char(n)]
    } else {
        decimal(n / 10).push(digit_char(n % 10))
    }
}

/// `count` times the same character.
pub open spec fn repeated(c: char, count: nat) -> Seq<char> {
    Seq::new(count, |i: int| c)
}

/// How many characters a text lacks to fill `width`.
pub open spec fn missing(text: Seq<char>, width: nat) -> nat {
    if text.len() < width {
        (width - text.len()) as nat
    } else {
        0
    }
}

/// A text moved to the right of a column of at least `width` characters.
pub open spec fn right_aligned(text: Seq<char>, width: nat) -> Seq<char> {
    repeated(' ', missing(text, width)) + text
}

/// A text at the left of a column of at least `width` characters.
pub open spec fn left_aligned(text: Seq<char>, width: nat) -> Seq<char> {
    text + repeated(' ', missing(text, width))
}

/// Whether `part` stands somewhere in `text`.
pub open spec fn holds(text: Seq<char>, part: Seq<char>) -> bool {
    exists|i: int| holds_at(text, part, i)
}

/// Whether `part` stands in `text` at `i`.
pub open spec fn holds_at(text: Seq<char>, part: Seq<char>, i: int) -> bool {
    0 <= i && i + part.len() <= text.len() && text.subrange(i, i + part.len()) == part
}

fn digit_text(digit: u64) -> (r: &'static str)
    requires
        digit < 10,
    ensures
        r@ == seq![digit_char(digit as nat)],
{
    proof {
        reveal_strlit("0");
        reveal_strlit("1");
        reveal_strlit("2");
        reveal_strlit("3");
        reveal_strlit("4");
        reveal_strlit("5");
        reveal_strlit("6");
        reveal_strlit("7");
        reveal_strlit("8");
        reveal_strlit("9");
    }
    if digit == 0 {
        "0"
    } else if digit == 1 {
        "1"
    } else if digit == 2 {
        "2"
    } else if digit == 3 {
        "3"
    } else if digit == 4 {
        "4"
    } else if digit == 5 {
        "5"
    } else if digit == 6 {
        "6"
    } else if digit == 7 {
        "7"
    } else if digit == 8 {
        "8"
    } else {
        "9"
    }
}

/// A number in decimal.
pub fn decimal_text(n: u64) -> (r: String)
    ensures
        r@ == decimal(n as nat),
    decreases n,
{
    if n < 10 {
        digit_text(n).to_owned()
    } else {
        let mut r = decimal_text(n / 10);
        r.append(digit_text(n % 10));
        assert(r@ =~= decimal(n as nat));
        r
    }
}

/// `count` times the single character of `text`.
pub fn repeat_text(text: &str, count: usize) -> (r: String)
    requires
        text@.len() == 1,
    ensures
        r@ == repeated(text@[0], count as nat),
{
    let mut r = String::new();
    let mut i: usize = 0;
    while i < count
        invariant
            text@.len() == 1,
            i <= count,
            r@ == repeated(text@[0], i as nat),
        decreases count - i,
    {
        r.append(text);
        i = i + 1;
        assert(r@ =~= repeated(text@[0], i as nat));
    }
    r
}

fn padding(text: &str, width: usize) -> (r: String)
    ensures
        r@ == repeated(' ', missing(text@, width as nat)),
{
    let len: usize = text.unicode_len();
    let count: usize = if len < width {
        width - len
    } else {
        0
    };
    proof {
        reveal_strlit(" ");
    }
    repeat_text(" ", count)
}

/// Moves a text to the right of a column of at least `width` characters.
pub fn align_right(text: &str, width: usize) -> (r: String)
    ensures
        r@ == right_aligned(text@, width as nat),
{
    let mut r = padding(text, width);
    r.append(text);
    r
}

/// Puts a text at the left of a column of at least `width` characters.
pub fn align_left(text: &str, width: usize) -> (r: String)
    ensures
        r@ == left_aligned(text@, width as nat),
{
    let mut r = text.to_owned();
    r.append(padding(text, width).as_str());
    r
}

/// Whether `part` stands somewhere in `text`.
pub fn contains_text(text: &str, part: &str) -> (r: bool)
    ensures
        r == holds(text@, part@),
{
    let len: usize = text.unicode_len();
    let part_len: usize = part.unicode_len();
    if part_len > len {
        assert(forall|i: int| !holds_at(text@, part@, i));
        return false;
    }
    let last: usize = len - part_len;
    let mut start: usize = 0;
    loop
        invariant
            len == text@.len(),
            part_len == part@.len(),
            part_len <= len,
            last == len - part_len,
            start <= last,
            forall|i: int| 0 <= i < start ==> !holds_at(text@, part@, i),
        decreases last - start,
    {
        let mut same: usize = 0;
        while same < part_len && text.get_char(start + same) == part.get_char(same)
            invariant
                len == text@.len(),
                part_len == part@.len(),
                start + part_len <= len,
                same <= part_len,
                forall|k: int| 0 <= k < same ==> text@[start + k] == part@[k],
            ensures
                same <= part_len,
                forall|k: int| 0 <= k < same ==> text@[start + k] == part@[k],
                same < part_len ==> text@[start + same] != part@[same as int],
            decreases part_len - same,
        {
            same = same + 1;
        }
        if same == part_len {
            assert(text@.subrange(start as int, start + part_len) =~= part@);
            assert(holds_at(text@, part@, start as int));
            return true;
        }
        assert(!holds_at(text@, part@, start as int)) by {
            if holds_at(text@, part@, start as int) {
                assert(text@.subrange(start as int, start + part_len)[same as int]
                    == part@[same as int]);
            }
        }
        if start == last {
            return false;
        }
        start = start + 1;
    }
}

/// The number that a text of decimal digits stands for.
pub open spec fn decimal_value(text: Seq<char>) -> int
    decreases text.len(),
{
    if text.len() == 0 {
        0
    } else {
        decimal_value(text.drop_last()) * 10 + (text.last() as int - '0' as int)
    }
}

/// A number in decimal reads back as that number. It is made of digits only, and has no leading
/// zero unless it is a single digit.
pub proof fn law_decimal_reads_back(n: nat)
    ensures
        decimal_value(decimal(n)) == n,
        decimal(n).len() > 0,
        decimal(n)[0] == '0' ==> decimal(n).len() == 1,
        forall|i: int|
            0 <= i < decimal(n).len() ==> '0' as int <= #[trigger] decimal(n)[i] as int <= '9' as int,
    decreases n,
{
    reveal_with_fuel(decimal_value, 2);
    if n >= 10 {
        law_decimal_reads_back(n / 10);
        let front = decimal(n / 10);
        assert(decimal(n).drop_last() =~= front);
        assert(decimal(n)[0] == front[0]);
        if front[0] == '0' {
            assert(front.drop_last() =~= Seq::<char>::empty());
            assert(decimal_value(front) == 0);
        }
    } else {
        assert(decimal(n).drop_last() =~= Seq::<char>::empty());
    }
}

/// A text at the right of a column stands there as it is, behind nothing but spaces, and the column
/// is no wider than it has to be.
pub proof fn law_right_aligned_text_ends_the_column(text: Seq<char>, width: nat)
    ensures
        right_aligned(text, width).len() == if text.len() < width {
            width
        } else {
            text.len()
        },
        right_aligned(text, width).skip(right_aligned(text, width).len() - text.len()) == text,
        forall|i: int|
            0 <= i < right_aligned(text, width).len() - text.len() ==> #[trigger] right_aligned(
                text,
                width,
            )[i] == ' ',
{
    assert(right_aligned(text, width).skip(right_aligned(text, width).len() - text.len()) =~= text);
}

/// A text at the left of a column stands there as it is, before nothing but spaces, and the column
/// is no wider than it has to be.
pub proof fn law_left_aligned_text_begins_the_column(text: Seq<char>, width: nat)
    ensures
        left_aligned(text, width).len() == if text.len() < width {
            width
        } else {
            text.len()
        },
        left_aligned(text, width).take(text.len() as int) == text,
        forall|i: int|
            text.len() <= i < left_aligned(text, width).len() ==> #[trigger] left_aligned(
                text,
                width,
            )[i] == ' ',
{
    assert(left_aligned(text, width).take(text.len() as int) =~= text);
}

/// A text holds whatever stands between two other texts in it, wherever that is.
pub proof fn law_text_holds_its_parts(front: Seq<char>, part: Seq<char>, back: Seq<char>)
    ensures
        holds(front + part + back, part),
{
    let text = front + part + back;
    let i = front.len() as int;
    assert(text.subrange(i, i + part.len()) =~= part);
    assert(holds_at(text, part, i));
}

/// What a text holds stands between two other texts in it.
pub proof fn law_what_a_text_holds_is_part_of_it(text: Seq<char>, part: Seq<char>)
    requires
        holds(text, part),
    ensures
        exists|front: Seq<char>, back: Seq<char>| text == #[trigger] (front + part + back),
{
    let i = choose|i: int| holds_at(text, part, i);
    let front = text.take(i);
    let back = text.skip(i + part.len());
    assert(part =~= text.subrange(i, i + part.len()));
    assert(text =~= front + part + back);
}

/// As many times a character as asked for is that many of it and nothing else.
pub proof fn law_repeated_is_one_character(c: char, count: nat)
    ensures
        repeated(c, count).len() == count,
        forall|i: int| 0 <= i < count ==> #[trigger] repeated(c, count)[i] == c,
        repeated(c, count + 1) == repeated(c, count).push(c),
{
    assert(repeated(c, count + 1) =~= repeated(c, count).push(c));
}

} // verus!
