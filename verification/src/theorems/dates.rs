//! The decade label of a date written `yyyy`, `yyyy-mm` or `yyyy-mm-dd`.

use vstd::prelude::*;
use crate::files::{date_range_label, date_range_of, decade_of, parse_year, year_segment};
use crate::text::{
    all_decimal_digits, decimal_digits, decimal_value, first_index_of, is_decimal_digit,
    lemma_decimal_round_trip, lemma_first_index_of,
};

verus! {

/// Whether a date is written `yyyy`, `yyyy-mm` or `yyyy-mm-dd`: decimal
/// digits, with a hyphen after the fourth and after the sixth of them.
pub open spec fn is_partial_date(date: Seq<char>) -> bool {
    &&& date.len() == 4 || date.len() == 7 || date.len() == 10
    &&& forall|i: int|
        #![trigger date[i]]
        0 <= i < date.len() ==> if i == 4 || i == 7 {
            date[i] == '-'
        } else {
            is_decimal_digit(date[i])
        }
}

/// The two numbers that a decade label holds in brackets, as they are
/// written: what stands between the opening bracket and the hyphen, and
/// between the hyphen and the closing bracket.
pub open spec fn bracketed_bounds(label: Seq<char>) -> (Seq<char>, Seq<char>) {
    let inner = label.subrange(first_index_of(label, '(') + 1, label.len() - 1);
    let hyphen = first_index_of(inner, '-');
    (inner.take(hyphen), inner.skip(hyphen + 1))
}

/// The decade of a year is a multiple of ten, is not after the year and is
/// less than ten years before it.
pub proof fn lemma_decade_of(year: nat)
    ensures
        decade_of(year) % 10 == 0,
        decade_of(year) <= year <= decade_of(year) + 9,
{
}

/// The numbers in the brackets of a decade label are the first and the last
/// year of the decade.
pub proof fn lemma_date_range_label_bounds(decade: nat)
    ensures
        bracketed_bounds(date_range_label(decade)) == (
            decimal_digits(decade),
            decimal_digits(decade + 9),
        ),
        decimal_value(bracketed_bounds(date_range_label(decade)).0) == decade,
        decimal_value(bracketed_bounds(date_range_label(decade)).1) == decade + 9,
{
    let first = decimal_digits(decade);
    let last = decimal_digits(decade + 9);
    let label = date_range_label(decade);
    lemma_decimal_round_trip(decade);
    lemma_decimal_round_trip(decade + 9);
    let n = first.len() as int;
    assert(label.len() == n + 3 + n + 1 + last.len() + 1);
    assert forall|j: int| 0 <= j < n + 2 implies label[j] != '(' by {
        if j < n {
            assert(label[j] == first[j]);
            assert(is_decimal_digit(first[j]));
        }
    }
    assert(label[n + 2] == '(');
    lemma_first_index_of(label, '(', n + 2);
    let inner = label.subrange(n + 3, label.len() - 1);
    assert(inner =~= first + seq!['-'] + last);
    assert forall|j: int| 0 <= j < n implies inner[j] != '-' by {
        assert(inner[j] == first[j]);
        assert(is_decimal_digit(first[j]));
    }
    assert(inner[n] == '-');
    lemma_first_index_of(inner, '-', n);
    assert(inner.take(n) =~= first);
    assert(inner.skip(n + 1) =~= last);
}

/// The number that four decimal digits write is their value in base ten,
/// and it is less than ten thousand.
proof fn lemma_four_digits(s: Seq<char>)
    requires
        s.len() == 4,
        all_decimal_digits(s),
    ensures
        decimal_value(s) < 10000,
{
    let s3 = s.drop_last();
    let s2 = s3.drop_last();
    let s1 = s2.drop_last();
    let s0 = s1.drop_last();
    assert(is_decimal_digit(s[3]) && is_decimal_digit(s[2]) && is_decimal_digit(s[1])
        && is_decimal_digit(s[0]));
    assert(s3.last() == s[2] && s2.last() == s[1] && s1.last() == s[0]);
    assert(decimal_value(s0) == 0);
    assert(decimal_value(s1) <= 9);
    assert(decimal_value(s2) <= 99);
    assert(decimal_value(s3) <= 999);
}

/// Every date written `yyyy`, `yyyy-mm` or `yyyy-mm-dd` has a decade label:
/// that of the decade of the year which its first four digits write. The
/// decade is a multiple of ten, at most nine years before the year, and the
/// label holds the decade and the year nine after it in its brackets.
pub proof fn lemma_date_range_of_partial_date(date: Seq<char>)
    requires
        is_partial_date(date),
    ensures
        ({
            let year = decimal_value(date.take(4));
            let decade = decade_of(year);
            &&& parse_year(year_segment(date)) == Some(year)
            &&& date_range_of(date) == Some(date_range_label(decade))
            &&& decade % 10 == 0
            &&& decade <= year <= decade + 9
            &&& decimal_value(bracketed_bounds(date_range_label(decade)).0) == decade
            &&& decimal_value(bracketed_bounds(date_range_label(decade)).1) == decade + 9
        }),
{
    let year_digits = date.take(4);
    assert forall|j: int| 0 <= j < 4 implies date[j] != '-' by {
        assert(is_decimal_digit(date[j]));
    }
    if date.len() > 4 {
        assert(date[4] == '-');
    }
    lemma_first_index_of(date, '-', 4);
    assert(year_segment(date) == year_digits);
    assert forall|j: int| 0 <= j < year_digits.len() implies is_decimal_digit(
        #[trigger] year_digits[j],
    ) by {
        assert(year_digits[j] == date[j]);
    }
    assert(year_digits[0] != '+') by {
        assert(is_decimal_digit(year_digits[0]));
    }
    lemma_four_digits(year_digits);
    lemma_date_range_label_bounds(decade_of(decimal_value(year_digits)));
}

} // verus!
