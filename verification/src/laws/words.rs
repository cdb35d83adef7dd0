//! Laws of padding, numbers, search and the order of names.

use crate::text::{decimal, digit, has_substring, padded, stands_at, text_before};
use vstd::prelude::*;

verus! {

/// A padded text begins with the text, is as long as the field or the text,
/// whichever is longer, and holds only blanks behind the text.
pub proof fn padding_only_adds_blanks(text: Seq<char>, width: nat)
    ensures
        padded(text, width).len() == if text.len() >= width {
            text.len()
        } else {
            width
        },
        text.is_prefix_of(padded(text, width)),
        forall|i: int|
            text.len() <= i < padded(text, width).len() ==> #[trigger] padded(text, width)[i] == ' ',
{
    assert(text =~= padded(text, width).subrange(0, text.len() as int));
}

/// The number that a row of decimal digits stands for.
pub open spec fn value_of(digits: Seq<char>) -> int
    decreases digits.len(),
{
    if digits.len() == 0 {
        0
    } else {
        10 * value_of(digits.drop_last()) + (digits.last() as int - '0' as int)
    }
}

/// A digit is one character between `0` and `9` and has its value.
proof fn digits_have_values(d: nat)
    requires
        d < 10,
    ensures
        digit(d).len() == 1,
        digit(d)[0] as int == '0' as int + d,
{
    reveal_strlit("0");
    reveal_strlit("1");
    reveal_strlit("2");
    reveal_strlit("3");
    reveal_strlit("4");
    reveal_strlit("5");
    reveal_strlit("6");
    reveal_strlit("7");
    reveal_strlit("8");
    reveal_strlit("9");
}

/// A number is written in decimal digits that stand for it, without a leading
/// zero.
pub proof fn numbers_are_written_in_decimal(n: nat)
    ensures
        value_of(decimal(n)) == n,
        decimal(n).len() > 0,
        forall|i: int|
            0 <= i < decimal(n).len() ==> '0' as int <= #[trigger] decimal(n)[i] as int <= '9' as int,
        n > 0 ==> decimal(n)[0] != '0',
        n == 0 ==> decimal(n) == seq!['0'],
    decreases n,
{
    if n < 10 {
        digits_have_values(n);
        let s = decimal(n);
        assert(s.drop_last() =~= Seq::<char>::empty());
        assert(value_of(s.drop_last()) == 0);
        if n == 0 {
            assert(s =~= seq!['0']);
        }
    } else {
        numbers_are_written_in_decimal(n / 10);
        digits_have_values(n % 10);
        let s = decimal(n);
        assert(s.drop_last() =~= decimal(n / 10));
        assert(s.last() == digit(n % 10)[0]);
    }
}

/// A text holds another exactly if it can be cut into what stands before it,
/// the other, and what stands behind.
pub proof fn a_substring_stands_between_two_parts(hay: Seq<char>, needle: Seq<char>)
    ensures
        has_substring(hay, needle) <==> exists|front: Seq<char>, back: Seq<char>|
            hay == #[trigger] (front + needle + back),
{
    if has_substring(hay, needle) {
        let at = choose|at: int| stands_at(hay, needle, at);
        let front = hay.subrange(0, at);
        let back = hay.subrange(at + needle.len(), hay.len() as int);
        assert(hay =~= front + needle + back);
    }
    if exists|front: Seq<char>, back: Seq<char>| hay == #[trigger] (front + needle + back) {
        let (front, back) = choose|front: Seq<char>, back: Seq<char>|
            hay == #[trigger] (front + needle + back);
        assert(hay.subrange(front.len() as int, (front.len() + needle.len()) as int) =~= needle);
        assert(stands_at(hay, needle, front.len() as int));
    }
}

/// The first character in which two names differ decides their order; a name
/// comes before every longer one that begins with it.
pub proof fn the_first_difference_decides(
    common: Seq<char>,
    a: char,
    b: char,
    x: Seq<char>,
    y: Seq<char>,
)
    requires
        a != b,
    ensures
        text_before(common + seq![a] + x, common + seq![b] + y) <==> (a as int) < (b as int),
        text_before(common, common + seq![b] + y),
        !text_before(common + seq![b] + y, common),
        !text_before(common, common),
    decreases common.len(),
{
    let p = common + seq![a] + x;
    let q = common + seq![b] + y;
    if common.len() > 0 {
        let rest = common.drop_first();
        the_first_difference_decides(rest, a, b, x, y);
        assert(p.drop_first() =~= rest + seq![a] + x);
        assert(q.drop_first() =~= rest + seq![b] + y);
        assert(p[0] == common[0] && q[0] == common[0]);
    } else {
        assert(p[0] == a && q[0] == b);
    }
}

} // verus!
