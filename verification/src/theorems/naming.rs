//! The name that the spreadsheet is saved under when the name wanted is
//! taken: it is never a name that is taken, it has the least number that
//! makes it so, and for a name with an extension there always is one.

use vstd::prelude::*;
use crate::save::{
    first_free_attempt, free_file_name, is_free_attempt, numbered, numbered_file_name,
};
use crate::text::{decimal_digits, last_index_of, lemma_decimal_round_trip};

verus! {

/// What the first free attempt is: its name is free, and no attempt before
/// it, from `from` on, has a free name. Where there is none, none of the
/// attempts tried has a free name.
pub proof fn lemma_first_free_attempt(
    file_name: Seq<char>,
    taken: Seq<Seq<char>>,
    from: nat,
    tries: nat,
)
    ensures
        match first_free_attempt(file_name, taken, from, tries) {
            Some(attempt) => {
                &&& from <= attempt < from + tries
                &&& is_free_attempt(file_name, taken, attempt)
                &&& forall|earlier: nat|
                    from <= earlier < attempt ==> !#[trigger] is_free_attempt(
                        file_name,
                        taken,
                        earlier,
                    )
            },
            None => forall|attempt: nat|
                from <= attempt < from + tries ==> !#[trigger] is_free_attempt(
                    file_name,
                    taken,
                    attempt,
                ),
        },
    decreases tries,
{
    if tries > 0 && !is_free_attempt(file_name, taken, from) {
        lemma_first_free_attempt(file_name, taken, from + 1, (tries - 1) as nat);
    }
}

/// Two numbers give two names.
pub proof fn lemma_numbered_injective(
    stem: Seq<char>,
    extension: Seq<char>,
    first: nat,
    second: nat,
)
    requires
        numbered(stem, first, extension) == numbered(stem, second, extension),
    ensures
        first == second,
{
    let a = decimal_digits(first);
    let b = decimal_digits(second);
    let one = numbered(stem, first, extension);
    let two = numbered(stem, second, extension);
    lemma_decimal_round_trip(first);
    lemma_decimal_round_trip(second);
    assert(one.len() == stem.len() + 2 + a.len() + 2 + extension.len());
    assert(two.len() == stem.len() + 2 + b.len() + 2 + extension.len());
    let start = stem.len() as int + 2;
    assert(a =~= one.subrange(start, start + a.len()));
    assert(b =~= two.subrange(start, start + b.len()));
}

/// A list that holds the names of the numbers from 1 to `count` holds at
/// least `count` names.
proof fn lemma_names_fit(
    stem: Seq<char>,
    extension: Seq<char>,
    taken: Seq<Seq<char>>,
    count: nat,
)
    requires
        forall|number: nat|
            1 <= number <= count ==> taken.contains(#[trigger] numbered(stem, number, extension)),
    ensures
        count <= taken.len(),
    decreases count,
{
    if count > 0 {
        let last = numbered(stem, count, extension);
        assert(taken.contains(last));
        let at = choose|i: int| 0 <= i < taken.len() && taken[i] == last;
        let rest = taken.remove(at);
        assert forall|number: nat| 1 <= number <= count - 1 implies rest.contains(
            #[trigger] numbered(stem, number, extension),
        ) by {
            let name = numbered(stem, number, extension);
            assert(taken.contains(name));
            let i = choose|i: int| 0 <= i < taken.len() && taken[i] == name;
            if i == at {
                lemma_numbered_injective(stem, extension, number, count);
            } else if i < at {
                assert(rest[i] == name);
            } else {
                assert(rest[i - 1] == name);
            }
        }
        lemma_names_fit(stem, extension, rest, (count - 1) as nat);
    }
}

/// For a file name with an extension there always is a free name: the name
/// with the least number from 1 on that is not taken. It has that number in
/// brackets before the extension, it is not among the names taken, and the
/// name of every smaller number is.
pub proof fn lemma_free_file_name(file_name: Seq<char>, taken: Seq<Seq<char>>)
    requires
        last_index_of(file_name, '.') >= 0,
    ensures
        free_file_name(file_name, taken) is Some,
        !taken.contains(free_file_name(file_name, taken)->Some_0),
        exists|attempt: nat|
            {
                &&& 1 <= attempt <= taken.len() + 1
                &&& #[trigger] numbered_file_name(file_name, attempt) == free_file_name(
                    file_name,
                    taken,
                )
                &&& forall|earlier: nat|
                    1 <= earlier < attempt ==> taken.contains(
                        (#[trigger] numbered_file_name(file_name, earlier))->Some_0,
                    )
            },
{
    let dot = last_index_of(file_name, '.');
    let stem = file_name.take(dot);
    let extension = file_name.skip(dot + 1);
    let tries = taken.len() + 1;
    lemma_first_free_attempt(file_name, taken, 1, tries);
    if first_free_attempt(file_name, taken, 1, tries) is None {
        assert forall|number: nat| 1 <= number <= tries implies taken.contains(
            #[trigger] numbered(stem, number, extension),
        ) by {
            assert(!is_free_attempt(file_name, taken, number));
        }
        lemma_names_fit(stem, extension, taken, tries);
    }
    let attempt = first_free_attempt(file_name, taken, 1, tries)->Some_0;
    assert(is_free_attempt(file_name, taken, attempt));
    assert forall|earlier: nat| 1 <= earlier < attempt implies taken.contains(
        (#[trigger] numbered_file_name(file_name, earlier))->Some_0,
    ) by {
        assert(!is_free_attempt(file_name, taken, earlier));
    }
    assert(numbered_file_name(file_name, attempt) == free_file_name(file_name, taken));
}

} // verus!
