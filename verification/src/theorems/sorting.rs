//! Sorting issues by date: the result is in order, holds the same issues,
//! and keeps issues of one date in the order they had.

use vstd::prelude::*;
use crate::files::{insert_by_date, sort_by_date, IssueFileDataView};
use crate::text::lex_less;
use crate::theorems::order::{
    lemma_lex_less_asymmetric, lemma_lex_less_irreflexive, lemma_lex_less_splits,
};

verus! {

/// Whether no issue of the list has a date that comes before the date of an
/// issue earlier in the list.
pub open spec fn is_sorted_by_date(issues: Seq<IssueFileDataView>) -> bool {
    forall|i: int, j: int|
        #![trigger issues[i], issues[j]]
        0 <= i < j < issues.len() ==> !lex_less(issues[j].date_original, issues[i].date_original)
}

/// The issues of the list that have the date `date`, in their order.
pub open spec fn issues_of_date(issues: Seq<IssueFileDataView>, date: Seq<char>) -> Seq<
    IssueFileDataView,
>
    decreases issues.len(),
{
    if issues.len() == 0 {
        Seq::empty()
    } else if issues.last().date_original == date {
        issues_of_date(issues.drop_last(), date).push(issues.last())
    } else {
        issues_of_date(issues.drop_last(), date)
    }
}

/// Where `insert_by_date` puts an issue: before the issues at the end of
/// the list that are later than it.
pub open spec fn insert_position(sorted: Seq<IssueFileDataView>, issue: IssueFileDataView) -> int
    decreases sorted.len(),
{
    if sorted.len() > 0 && lex_less(issue.date_original, sorted.last().date_original) {
        insert_position(sorted.drop_last(), issue)
    } else {
        sorted.len() as int
    }
}

/// `insert_by_date` puts the issue in at `insert_position` and leaves the
/// others where they are: every issue after that place is later than the
/// new one, and the issue before that place is not.
pub proof fn lemma_insert_by_date_position(sorted: Seq<IssueFileDataView>, issue: IssueFileDataView)
    ensures
        ({
            let at = insert_position(sorted, issue);
            &&& 0 <= at <= sorted.len()
            &&& insert_by_date(sorted, issue) == sorted.insert(at, issue)
            &&& forall|j: int|
                at <= j < sorted.len() ==> lex_less(
                    issue.date_original,
                    (#[trigger] sorted[j]).date_original,
                )
            &&& at > 0 ==> !lex_less(issue.date_original, sorted[at - 1].date_original)
        }),
    decreases sorted.len(),
{
    if sorted.len() > 0 && lex_less(issue.date_original, sorted.last().date_original) {
        let init = sorted.drop_last();
        lemma_insert_by_date_position(init, issue);
        let at = insert_position(init, issue);
        assert(init.insert(at, issue).push(sorted.last()) =~= sorted.insert(at, issue));
        assert forall|j: int| at <= j < sorted.len() implies lex_less(
            issue.date_original,
            (#[trigger] sorted[j]).date_original,
        ) by {
            if j < init.len() {
                assert(sorted[j] == init[j]);
            }
        }
    } else {
        assert(sorted.push(issue) =~= sorted.insert(sorted.len() as int, issue));
    }
}

/// Putting an issue into a sorted list by date leaves the list sorted.
pub proof fn lemma_insert_by_date_sorted(sorted: Seq<IssueFileDataView>, issue: IssueFileDataView)
    requires
        is_sorted_by_date(sorted),
    ensures
        is_sorted_by_date(insert_by_date(sorted, issue)),
{
    lemma_insert_by_date_position(sorted, issue);
    let at = insert_position(sorted, issue);
    let result = insert_by_date(sorted, issue);
    assert forall|i: int, j: int|
        #![trigger result[i], result[j]]
        0 <= i < j < result.len() implies !lex_less(
        result[j].date_original,
        result[i].date_original,
    ) by {
        if j < at {
            assert(result[i] == sorted[i] && result[j] == sorted[j]);
        } else if j == at {
            // every issue before the new one is not later than it
            assert(result[i] == sorted[i]);
            assert(!lex_less(sorted[at - 1].date_original, sorted[i].date_original)) by {
                if i < at - 1 {
                    assert(sorted[i] == sorted[i] && sorted[at - 1] == sorted[at - 1]);
                } else {
                    lemma_lex_less_irreflexive(sorted[i].date_original);
                }
            }
            if lex_less(issue.date_original, sorted[i].date_original) {
                lemma_lex_less_splits(
                    issue.date_original,
                    sorted[at - 1].date_original,
                    sorted[i].date_original,
                );
            }
        } else if i == at {
            assert(result[j] == sorted[j - 1]);
            lemma_lex_less_asymmetric(issue.date_original, sorted[j - 1].date_original);
        } else if i < at {
            assert(result[i] == sorted[i] && result[j] == sorted[j - 1]);
        } else {
            assert(result[i] == sorted[i - 1] && result[j] == sorted[j - 1]);
        }
    }
}

/// Sorting by date gives a list in which no issue is dated before an
/// earlier one.
pub proof fn lemma_sort_by_date_sorted(issues: Seq<IssueFileDataView>)
    ensures
        is_sorted_by_date(sort_by_date(issues)),
        sort_by_date(issues).len() == issues.len(),
    decreases issues.len(),
{
    if issues.len() > 0 {
        lemma_sort_by_date_sorted(issues.drop_last());
        lemma_insert_by_date_sorted(sort_by_date(issues.drop_last()), issues.last());
        lemma_insert_by_date_position(sort_by_date(issues.drop_last()), issues.last());
    }
}

/// Taking the issues of one date out of a list with an issue put in at
/// some place gives them in the order of the list, the new issue among them
/// as far as it has that date and no issue of that date stands after it.
proof fn lemma_issues_of_date_insert(
    issues: Seq<IssueFileDataView>,
    at: int,
    issue: IssueFileDataView,
    date: Seq<char>,
)
    requires
        0 <= at <= issues.len(),
        forall|j: int| at <= j < issues.len() ==> (#[trigger] issues[j]).date_original != date
            || issue.date_original != date,
    ensures
        issues_of_date(issues.insert(at, issue), date) == issues_of_date(issues.push(issue), date),
    decreases issues.len(),
{
    if at == issues.len() {
        assert(issues.insert(at, issue) =~= issues.push(issue));
    } else {
        let init = issues.drop_last();
        let last = issues.last();
        assert forall|j: int| at <= j < init.len() implies (#[trigger] init[j]).date_original
            != date || issue.date_original != date by {
            assert(init[j] == issues[j]);
        }
        lemma_issues_of_date_insert(init, at, issue, date);
        let put = issues.insert(at, issue);
        assert(put.drop_last() =~= init.insert(at, issue));
        assert(put.last() == last);
        assert(issues.push(issue).drop_last() =~= issues);
        assert(issues.push(issue).last() == issue);
        assert(init.push(issue).drop_last() =~= init);
        assert(init.push(issue).last() == issue);
        assert(issues[issues.len() - 1] == last);
        assert(last.date_original != date || issue.date_original != date);
        let kept = issues_of_date(init, date);
        assert(issues_of_date(issues, date) == if last.date_original == date {
            kept.push(last)
        } else {
            kept
        });
        assert(issues_of_date(init.push(issue), date) == if issue.date_original == date {
            kept.push(issue)
        } else {
            kept
        });
        assert(issues_of_date(issues.push(issue), date) == if issue.date_original == date {
            issues_of_date(issues, date).push(issue)
        } else {
            issues_of_date(issues, date)
        });
        assert(issues_of_date(put, date) == if last.date_original == date {
            issues_of_date(init.insert(at, issue), date).push(last)
        } else {
            issues_of_date(init.insert(at, issue), date)
        });
    }
}

/// Sorting by date keeps the issues of each date, and keeps them in the
/// order they had: the sorted list is a rearrangement of the list that
/// moves no issue past another of the same date.
pub proof fn lemma_sort_by_date_stable(issues: Seq<IssueFileDataView>, date: Seq<char>)
    ensures
        issues_of_date(sort_by_date(issues), date) == issues_of_date(issues, date),
    decreases issues.len(),
{
    if issues.len() > 0 {
        let init = issues.drop_last();
        let last = issues.last();
        lemma_sort_by_date_stable(init, date);
        let sorted = sort_by_date(init);
        lemma_insert_by_date_position(sorted, last);
        let at = insert_position(sorted, last);
        assert forall|j: int| at <= j < sorted.len() implies (#[trigger] sorted[j]).date_original
            != date || last.date_original != date by {
            lemma_lex_less_irreflexive(date);
        }
        lemma_issues_of_date_insert(sorted, at, last, date);
        assert(sorted.push(last).drop_last() =~= sorted);
    }
}

} // verus!
