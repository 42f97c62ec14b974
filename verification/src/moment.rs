//! Calendar moments and the time stamp that a backup's name carries.

use crate::text::{
    agree_before, chars_of, code, lemma_parts_below_in_context, parts_below,
};
use crate::layout::{lemma_plain_add, plain, separator};
use vstd::prelude::*;

verus! {

/// A moment as the calendar and the clock name it.
pub ghost struct Moment {
    pub year: nat,
    pub month: nat,
    pub day: nat,
    pub hour: nat,
    pub minute: nat,
    pub second: nat,
}

/// The character of the decimal digit `n`.
pub open spec fn digit(n: nat) -> char {
    if n == 0 {
        '0'
    } else if n == 1 {
        '1'
    } else if n == 2 {
        '2'
    } else if n == 3 {
        '3'
    } else if n == 4 {
        '4'
    } else if n == 5 {
        '5'
    } else if n == 6 {
        '6'
    } else if n == 7 {
        '7'
    } else if n == 8 {
        '8'
    } else {
        '9'
    }
}

/// Ten to the power `width`.
pub open spec fn pow10(width: nat) -> nat
    decreases width,
{
    if width == 0 {
        1
    } else {
        10 * pow10((width - 1) as nat)
    }
}

/// The last `width` decimal digits of `n`, with leading zeros.
pub open spec fn decimal(n: nat, width: nat) -> Seq<char>
    decreases width,
{
    if width == 0 {
        Seq::empty()
    } else {
        decimal(n / 10, (width - 1) as nat).push(digit(n % 10))
    }
}

impl Moment {
    /// Every field lies in the range that the calendar and the clock give
    /// it, and the year has at most four digits.
    pub open spec fn well_formed(self) -> bool {
        &&& self.year <= 9999
        &&& 1 <= self.month <= 12
        &&& 1 <= self.day <= 31
        &&& self.hour <= 23
        &&& self.minute <= 59
        &&& self.second <= 59
    }

    /// `self` lies before `other`.
    pub open spec fn earlier_than(self, other: Moment) -> bool {
        ||| self.year < other.year
        ||| self.year == other.year && self.month < other.month
        ||| self.year == other.year && self.month == other.month && self.day < other.day
        ||| self.year == other.year && self.month == other.month && self.day == other.day
            && self.hour < other.hour
        ||| self.year == other.year && self.month == other.month && self.day == other.day
            && self.hour == other.hour && self.minute < other.minute
        ||| self.year == other.year && self.month == other.month && self.day == other.day
            && self.hour == other.hour && self.minute == other.minute && self.second
            < other.second
    }

    /// The date part of the stamp: year, month, day.
    pub open spec fn date_digits(self) -> Seq<char> {
        decimal(self.year, 4) + decimal(self.month, 2) + decimal(self.day, 2)
    }

    /// The time part of the stamp: hour, minute, second.
    pub open spec fn time_digits(self) -> Seq<char> {
        decimal(self.hour, 2) + decimal(self.minute, 2) + decimal(self.second, 2)
    }

    /// The time stamp of this moment: four digits of year, two each of month
    /// and day, an underscore, two digits each of hour, minute and second.
    pub open spec fn stamp(self) -> Seq<char> {
        self.date_digits() + seq!['_'] + self.time_digits()
    }
}

/// A number written with `width` digits has `width` characters.
pub proof fn lemma_decimal_len(n: nat, width: nat)
    ensures
        decimal(n, width).len() == width,
    decreases width,
{
    if width > 0 {
        lemma_decimal_len(n / 10, (width - 1) as nat);
    }
}

/// Of two numbers written with the same number of digits, the smaller one
/// comes first, by a character.
pub proof fn lemma_decimal_order(n: nat, m: nat, width: nat)
    requires
        n < m < pow10(width),
    ensures
        parts_below(decimal(n, width), decimal(m, width)),
    decreases width,
{
    if width > 0 {
        let rest = (width - 1) as nat;
        let a = decimal(n / 10, rest);
        let b = decimal(m / 10, rest);
        let x = decimal(n, width);
        let y = decimal(m, width);
        lemma_decimal_len(n / 10, rest);
        lemma_decimal_len(m / 10, rest);
        if n / 10 < m / 10 {
            lemma_decimal_order(n / 10, m / 10, rest);
            let k = choose|k: int|
                agree_before(a, b, k) && k < a.len() && k < b.len() && code(#[trigger] a[k])
                    < code(b[k]);
            assert forall|i: int| 0 <= i < k implies x[i] == y[i] by {
                assert(x[i] == a[i]);
                assert(y[i] == b[i]);
            }
            assert(x[k] == a[k]);
            assert(y[k] == b[k]);
            assert(agree_before(x, y, k));
        } else {
            assert(n / 10 == m / 10);
            assert(n % 10 < m % 10);
            let k = rest as int;
            assert(x[k] == digit(n % 10));
            assert(y[k] == digit(m % 10));
            assert(code(x[k]) < code(y[k]));
            assert(agree_before(x, y, k));
        }
    }
}

/// Three numbers written one after the other, each with its own number of
/// digits, come in the order of the numbers taken from the left.
proof fn lemma_triple_order(width: (nat, nat, nat), a: (nat, nat, nat), b: (nat, nat, nat))
    requires
        a.0 < pow10(width.0) && b.0 < pow10(width.0),
        a.1 < pow10(width.1) && b.1 < pow10(width.1),
        a.2 < pow10(width.2) && b.2 < pow10(width.2),
        a.0 < b.0 || (a.0 == b.0 && a.1 < b.1) || (a.0 == b.0 && a.1 == b.1 && a.2 < b.2),
    ensures
        parts_below(
            decimal(a.0, width.0) + decimal(a.1, width.1) + decimal(a.2, width.2),
            decimal(b.0, width.0) + decimal(b.1, width.1) + decimal(b.2, width.2),
        ),
{
    let none = Seq::<char>::empty();
    let (a0, a1, a2) = (decimal(a.0, width.0), decimal(a.1, width.1), decimal(a.2, width.2));
    let (b0, b1, b2) = (decimal(b.0, width.0), decimal(b.1, width.1), decimal(b.2, width.2));
    if a.0 < b.0 {
        lemma_decimal_order(a.0, b.0, width.0);
        lemma_parts_below_in_context(none, a0, b0, a1 + a2, b1 + b2);
        assert(a0 + a1 + a2 =~= none + a0 + (a1 + a2));
        assert(b0 + b1 + b2 =~= none + b0 + (b1 + b2));
    } else if a.1 < b.1 {
        lemma_decimal_order(a.1, b.1, width.1);
        lemma_parts_below_in_context(a0, a1, b1, a2, b2);
    } else {
        lemma_decimal_order(a.2, b.2, width.2);
        lemma_parts_below_in_context(a0 + a1, a2, b2, none, none);
        assert(a0 + a1 + a2 =~= a0 + a1 + a2 + none);
        assert(b0 + b1 + b2 =~= a0 + a1 + b2 + none);
    }
}

/// The two powers of ten that bound the fields of a stamp.
proof fn lemma_field_bounds()
    ensures
        pow10(2) == 100,
        pow10(4) == 10000,
{
    reveal_with_fuel(pow10, 5);
}

/// The stamp of the earlier of two moments comes first, by a character.
pub proof fn lemma_stamp_order(a: Moment, b: Moment)
    requires
        a.well_formed(),
        b.well_formed(),
        a.earlier_than(b),
    ensures
        parts_below(a.stamp(), b.stamp()),
{
    lemma_field_bounds();
    let none = Seq::<char>::empty();
    let bar = seq!['_'];
    if a.year < b.year || (a.year == b.year && a.month < b.month) || (a.year == b.year && a.month
        == b.month && a.day < b.day) {
        lemma_triple_order((4, 2, 2), (a.year, a.month, a.day), (b.year, b.month, b.day));
        lemma_parts_below_in_context(
            none,
            a.date_digits(),
            b.date_digits(),
            bar + a.time_digits(),
            bar + b.time_digits(),
        );
        assert(a.stamp() =~= none + a.date_digits() + (bar + a.time_digits()));
        assert(b.stamp() =~= none + b.date_digits() + (bar + b.time_digits()));
    } else {
        lemma_triple_order((2, 2, 2), (a.hour, a.minute, a.second), (b.hour, b.minute, b.second));
        lemma_parts_below_in_context(
            a.date_digits() + bar,
            a.time_digits(),
            b.time_digits(),
            none,
            none,
        );
        assert(a.stamp() =~= a.date_digits() + bar + a.time_digits() + none);
        assert(b.stamp() =~= a.date_digits() + bar + b.time_digits() + none);
    }
}

/// A stamp has fifteen characters and ends in a digit.
pub proof fn lemma_stamp_shape(at: Moment)
    ensures
        at.stamp().len() == 15,
        at.stamp()[14] == digit(at.second % 10),
{
    lemma_decimal_len(at.year, 4);
    lemma_decimal_len(at.month, 2);
    lemma_decimal_len(at.day, 2);
    lemma_decimal_len(at.hour, 2);
    lemma_decimal_len(at.minute, 2);
    lemma_decimal_len(at.second, 2);
    lemma_decimal_len(at.second / 10, 1);
}

/// Two numbers that are written alike with `width` digits are the same
/// number.
pub proof fn lemma_decimal_injective(n: nat, m: nat, width: nat)
    requires
        n < pow10(width),
        m < pow10(width),
        decimal(n, width) == decimal(m, width),
    ensures
        n == m,
{
    if n < m {
        lemma_decimal_order(n, m, width);
    } else if m < n {
        lemma_decimal_order(m, n, width);
    }
}

/// Every character of a number written in decimal is a digit.
pub proof fn lemma_decimal_digits(n: nat, width: nat, i: int)
    requires
        0 <= i < width,
    ensures
        exists|d: nat| d < 10 && decimal(n, width)[i] == #[trigger] digit(d),
    decreases width,
{
    lemma_decimal_len(n / 10, (width - 1) as nat);
    if i == width - 1 {
        assert(decimal(n, width)[i] == digit(n % 10));
    } else {
        lemma_decimal_digits(n / 10, (width - 1) as nat, i);
        assert(decimal(n, width)[i] == decimal(n / 10, (width - 1) as nat)[i]);
    }
}

/// Where each field stands in a stamp.
proof fn lemma_stamp_parts(at: Moment)
    ensures
        at.stamp().len() == 15,
        at.stamp()[8] == '_',
        at.stamp().subrange(0, 4) == decimal(at.year, 4),
        at.stamp().subrange(4, 6) == decimal(at.month, 2),
        at.stamp().subrange(6, 8) == decimal(at.day, 2),
        at.stamp().subrange(9, 11) == decimal(at.hour, 2),
        at.stamp().subrange(11, 13) == decimal(at.minute, 2),
        at.stamp().subrange(13, 15) == decimal(at.second, 2),
{
    lemma_decimal_len(at.year, 4);
    lemma_decimal_len(at.month, 2);
    lemma_decimal_len(at.day, 2);
    lemma_decimal_len(at.hour, 2);
    lemma_decimal_len(at.minute, 2);
    lemma_decimal_len(at.second, 2);
    let stamp = at.stamp();
    assert(stamp.subrange(0, 4) =~= decimal(at.year, 4));
    assert(stamp.subrange(4, 6) =~= decimal(at.month, 2));
    assert(stamp.subrange(6, 8) =~= decimal(at.day, 2));
    assert(stamp.subrange(9, 11) =~= decimal(at.hour, 2));
    assert(stamp.subrange(11, 13) =~= decimal(at.minute, 2));
    assert(stamp.subrange(13, 15) =~= decimal(at.second, 2));
}

/// A number written in decimal holds no separator.
pub proof fn lemma_decimal_plain(n: nat, width: nat)
    ensures
        plain(decimal(n, width)),
{
    lemma_decimal_len(n, width);
    assert forall|i: int| 0 <= i < decimal(n, width).len() implies decimal(n, width)[i]
        != separator() by {
        lemma_decimal_digits(n, width, i);
    }
}

/// A time stamp holds no separator.
pub proof fn lemma_stamp_plain(at: Moment)
    ensures
        plain(at.stamp()),
{
    lemma_decimal_plain(at.year, 4);
    lemma_decimal_plain(at.month, 2);
    lemma_decimal_plain(at.day, 2);
    lemma_decimal_plain(at.hour, 2);
    lemma_decimal_plain(at.minute, 2);
    lemma_decimal_plain(at.second, 2);
    lemma_plain_add(decimal(at.year, 4), decimal(at.month, 2));
    lemma_plain_add(decimal(at.year, 4) + decimal(at.month, 2), decimal(at.day, 2));
    lemma_plain_add(decimal(at.hour, 2), decimal(at.minute, 2));
    lemma_plain_add(decimal(at.hour, 2) + decimal(at.minute, 2), decimal(at.second, 2));
    lemma_plain_add(at.date_digits(), seq!['_']);
    lemma_plain_add(at.date_digits() + seq!['_'], at.time_digits());
}

/// `text` is the time stamp of a well-formed moment.
pub open spec fn is_stamp_text(text: Seq<char>) -> bool {
    exists|at: Moment| at.well_formed() && text == #[trigger] at.stamp()
}

/// The digit that `c` is, if it is one.
fn digit_of(c: char) -> (r: Option<u32>)
    ensures
        r matches Some(d) ==> d < 10 && c == digit(d as nat),
        r is None ==> forall|d: nat| c != #[trigger] digit(d),
{
    let x: u32 = c as u32;
    if 48 <= x && x <= 57 {
        let d: u32 = x - 48;
        proof {
            crate::text::lemma_code_injective(c, digit(d as nat));
        }
        Some(d)
    } else {
        None
    }
}

/// The number that the `width` characters of `chars` from `start` on write
/// in decimal, if they are digits.
fn field(chars: &Vec<char>, start: usize, width: usize) -> (r: Option<u32>)
    requires
        start + width <= chars.len(),
        width <= 4,
    ensures
        r matches Some(n) ==> n < pow10(width as nat) && chars@.subrange(
            start as int,
            start + width,
        ) == decimal(n as nat, width as nat),
        r is None ==> forall|n: nat|
            chars@.subrange(start as int, start + width) != #[trigger] decimal(n, width as nat),
{
    let ghost part = chars@.subrange(start as int, start + width);
    let mut n: u32 = 0;
    let mut i: usize = 0;
    assert(part.take(0) =~= decimal(0, 0));
    while i < width
        invariant
            i <= width <= 4,
            start + width <= chars.len(),
            part == chars@.subrange(start as int, start + width),
            n < pow10(i as nat),
            pow10(i as nat) <= 1000 || i == width,
            part.take(i as int) == decimal(n as nat, i as nat),
        decreases width - i,
    {
        proof {
            reveal_with_fuel(pow10, 5);
        }
        match digit_of(chars[start + i]) {
            Some(d) => {
                assert(part.take(i + 1) =~= part.take(i as int).push(digit(d as nat)));
                n = n * 10 + d;
            },
            None => {
                assert forall|m: nat| part != #[trigger] decimal(m, width as nat) by {
                    lemma_decimal_digits(m, width as nat, i as int);
                    assert(part[i as int] == chars[start + i]);
                }
                return None;
            },
        }
        i = i + 1;
    }
    assert(part.take(width as int) =~= part);
    Some(n)
}

/// Whether `text` is the time stamp of a well-formed moment: four digits of
/// year, two each of month and day, an underscore, two digits each of hour,
/// minute and second, each number in its range.
pub fn is_stamp(text: &str) -> (r: bool)
    ensures
        r == is_stamp_text(text@),
{
    let chars = chars_of(text);
    proof {
        lemma_field_bounds();
        assert forall|at: Moment| at.well_formed() && text@ == #[trigger] at.stamp() implies {
            &&& chars@.len() == 15
            &&& chars@[8] == '_'
            &&& chars@.subrange(0, 4) == decimal(at.year, 4)
            &&& chars@.subrange(4, 6) == decimal(at.month, 2)
            &&& chars@.subrange(6, 8) == decimal(at.day, 2)
            &&& chars@.subrange(9, 11) == decimal(at.hour, 2)
            &&& chars@.subrange(11, 13) == decimal(at.minute, 2)
            &&& chars@.subrange(13, 15) == decimal(at.second, 2)
        } by {
            lemma_stamp_parts(at);
        }
    }
    if chars.len() != 15 {
        return false;
    }
    if chars[8] != '_' {
        return false;
    }
    let year = field(&chars, 0, 4);
    let month = field(&chars, 4, 2);
    let day = field(&chars, 6, 2);
    let hour = field(&chars, 9, 2);
    let minute = field(&chars, 11, 2);
    let second = field(&chars, 13, 2);
    match (year, month, day, hour, minute, second) {
        (Some(year), Some(month), Some(day), Some(hour), Some(minute), Some(second)) => {
            let ghost found = Moment {
                year: year as nat,
                month: month as nat,
                day: day as nat,
                hour: hour as nat,
                minute: minute as nat,
                second: second as nat,
            };
            proof {
                lemma_stamp_parts(found);
                assert(text@ =~= found.stamp());
                assert forall|at: Moment|
                    at.well_formed() && text@ == #[trigger] at.stamp() implies at == found by {
                    lemma_decimal_injective(at.year, found.year, 4);
                    lemma_decimal_injective(at.month, found.month, 2);
                    lemma_decimal_injective(at.day, found.day, 2);
                    lemma_decimal_injective(at.hour, found.hour, 2);
                    lemma_decimal_injective(at.minute, found.minute, 2);
                    lemma_decimal_injective(at.second, found.second, 2);
                }
            }
            1 <= month && month <= 12 && 1 <= day && day <= 31 && hour <= 23 && minute <= 59
                && second <= 59
        },
        _ => false,
    }
}

} // verus!
