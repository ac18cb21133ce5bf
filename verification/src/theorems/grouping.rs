//! Grouping issues by title: one group for each title, in the order in
//! which the titles first occur.

use vstd::prelude::*;
use crate::files::{
    group_by_title, holds_title, lemma_group_of_title, parse_file_names, periodicals_of,
    sort_by_date, FileEntryView, IssueFileDataView,
};
use crate::theorems::sorting::{is_sorted_by_date, lemma_sort_by_date_sorted};

verus! {

/// The titles of the issues, each once, in the order in which they first
/// occur.
pub open spec fn titles_in_order(issues: Seq<IssueFileDataView>) -> Seq<Seq<char>>
    decreases issues.len(),
{
    if issues.len() == 0 {
        Seq::empty()
    } else {
        let before = titles_in_order(issues.drop_last());
        if before.contains(issues.last().node_title) {
            before
        } else {
            before.push(issues.last().node_title)
        }
    }
}

/// The issues of the list that have the title `title`, in their order.
pub open spec fn issues_of_title(issues: Seq<IssueFileDataView>, title: Seq<char>) -> Seq<
    IssueFileDataView,
>
    decreases issues.len(),
{
    if issues.len() == 0 {
        Seq::empty()
    } else if issues.last().node_title == title {
        issues_of_title(issues.drop_last(), title).push(issues.last())
    } else {
        issues_of_title(issues.drop_last(), title)
    }
}

/// Whether the title `first` occurs in the list before the title `second`
/// does: some issue has the title `first`, and neither it nor any issue
/// before it has the title `second`.
pub open spec fn first_seen_before(
    issues: Seq<IssueFileDataView>,
    first: Seq<char>,
    second: Seq<char>,
) -> bool {
    exists|i: int|
        0 <= i < issues.len() && (#[trigger] issues[i]).node_title == first && title_not_before(
            issues,
            second,
            i,
        )
}

/// Whether no issue up to and including index `i` has the title `title`.
pub open spec fn title_not_before(issues: Seq<IssueFileDataView>, title: Seq<char>, i: int) -> bool {
    forall|j: int| 0 <= j <= i && j < issues.len() ==> (#[trigger] issues[j]).node_title != title
}

/// The issues taken out of a list by their title all have that title.
proof fn lemma_issues_of_title_members(issues: Seq<IssueFileDataView>, title: Seq<char>)
    ensures
        forall|j: int|
            0 <= j < issues_of_title(issues, title).len() ==> (#[trigger] issues_of_title(
                issues,
                title,
            )[j]).node_title == title,
    decreases issues.len(),
{
    if issues.len() > 0 {
        lemma_issues_of_title_members(issues.drop_last(), title);
    }
}

/// A list in which no issue has the title holds no issues of that title.
proof fn lemma_issues_of_title_none(issues: Seq<IssueFileDataView>, title: Seq<char>)
    requires
        forall|j: int| 0 <= j < issues.len() ==> (#[trigger] issues[j]).node_title != title,
    ensures
        issues_of_title(issues, title) == Seq::<IssueFileDataView>::empty(),
    decreases issues.len(),
{
    if issues.len() > 0 {
        let init = issues.drop_last();
        assert forall|j: int| 0 <= j < init.len() implies (#[trigger] init[j]).node_title
            != title by {
            assert(init[j] == issues[j]);
        }
        lemma_issues_of_title_none(init, title);
        assert(issues[issues.len() - 1].node_title != title);
    }
}

/// What the titles in order are: every title of the list once, each the
/// title of some issue, and a title that occurs first stands first.
pub proof fn lemma_titles_in_order(issues: Seq<IssueFileDataView>)
    ensures
        ({
            let titles = titles_in_order(issues);
            &&& forall|j: int|
                0 <= j < issues.len() ==> titles.contains((#[trigger] issues[j]).node_title)
            &&& forall|k: int, l: int|
                0 <= k < l < titles.len() ==> #[trigger] titles[k] != #[trigger] titles[l]
            &&& forall|k: int, l: int|
                0 <= k < l < titles.len() ==> first_seen_before(
                    issues,
                    #[trigger] titles[k],
                    #[trigger] titles[l],
                )
        }),
    decreases issues.len(),
{
    if issues.len() > 0 {
        let init = issues.drop_last();
        let last = issues.last();
        let before = titles_in_order(init);
        let titles = titles_in_order(issues);
        lemma_titles_in_order(init);
        lemma_titles_of_issues(init);
        assert forall|j: int| 0 <= j < issues.len() implies titles.contains(
            (#[trigger] issues[j]).node_title,
        ) by {
            if j < init.len() {
                assert(issues[j] == init[j]);
                let k = choose|k: int| 0 <= k < before.len() && before[k] == init[j].node_title;
                assert(titles[k] == init[j].node_title);
            } else if before.contains(last.node_title) {
            } else {
                assert(titles[before.len() as int] == last.node_title);
            }
        }
        assert forall|k: int, l: int| 0 <= k < l < titles.len() implies first_seen_before(
            issues,
            #[trigger] titles[k],
            #[trigger] titles[l],
        ) by {
            if l < before.len() {
                assert(first_seen_before(init, before[k], before[l]));
                let i = choose|i: int|
                    0 <= i < init.len() && (#[trigger] init[i]).node_title == before[k]
                        && title_not_before(init, before[l], i);
                assert(issues[i] == init[i]);
                assert forall|j: int| 0 <= j <= i && j < issues.len() implies (
                #[trigger] issues[j]).node_title != titles[l] by {
                    assert(issues[j] == init[j]);
                }
                assert(title_not_before(issues, titles[l], i));
            } else {
                // the last title is new: no issue before the last one has it
                let i = choose|i: int|
                    0 <= i < init.len() && (#[trigger] init[i]).node_title == before[k];
                assert(issues[i] == init[i]);
                assert forall|j: int| 0 <= j <= i && j < issues.len() implies (
                #[trigger] issues[j]).node_title != titles[l] by {
                    assert(issues[j] == init[j]);
                    assert(before.contains(init[j].node_title));
                }
                assert(title_not_before(issues, titles[l], i));
            }
        }
    }
}

/// Every title in order is the title of some issue of the list.
proof fn lemma_titles_of_issues(issues: Seq<IssueFileDataView>)
    ensures
        forall|k: int|
            0 <= k < titles_in_order(issues).len() ==> exists|i: int|
                0 <= i < issues.len() && (#[trigger] issues[i]).node_title == (
                #[trigger] titles_in_order(issues)[k]),
    decreases issues.len(),
{
    if issues.len() > 0 {
        let init = issues.drop_last();
        let before = titles_in_order(init);
        let titles = titles_in_order(issues);
        lemma_titles_of_issues(init);
        assert forall|k: int| 0 <= k < titles.len() implies exists|i: int|
            0 <= i < issues.len() && (#[trigger] issues[i]).node_title == (#[trigger] titles[k]) by {
            if k < before.len() {
                let i = choose|i: int|
                    0 <= i < init.len() && (#[trigger] init[i]).node_title == before[k];
                assert(issues[i] == init[i]);
            } else {
                assert(issues[issues.len() - 1].node_title == titles[k]);
            }
        }
    }
}

/// What grouping by title gives: one group for each title, the groups in
/// the order in which their titles first occur, and in each group all the
/// issues of its title, in the order of the list. No group is empty.
pub proof fn lemma_group_by_title(issues: Seq<IssueFileDataView>)
    ensures
        ({
            let groups = group_by_title(issues);
            let titles = titles_in_order(issues);
            &&& groups.len() == titles.len()
            &&& forall|k: int|
                0 <= k < groups.len() ==> #[trigger] groups[k] == issues_of_title(issues, titles[k])
            &&& forall|k: int| 0 <= k < groups.len() ==> (#[trigger] groups[k]).len() > 0
        }),
    decreases issues.len(),
{
    if issues.len() > 0 {
        let init = issues.drop_last();
        let last = issues.last();
        let title = last.node_title;
        let before = group_by_title(init);
        let titles_before = titles_in_order(init);
        let groups = group_by_title(issues);
        let titles = titles_in_order(issues);
        lemma_group_by_title(init);
        lemma_titles_in_order(init);
        assert forall|k: int| 0 <= k < before.len() implies (holds_title(
            #[trigger] before[k],
            title,
        ) <==> titles_before[k] == title) by {
            lemma_issues_of_title_members(init, titles_before[k]);
            if titles_before[k] == title {
                assert(before[k][0].node_title == title);
            }
        }
        if titles_before.contains(title) {
            let at = choose|k: int| 0 <= k < titles_before.len() && titles_before[k] == title;
            lemma_group_of_title(before, title, at);
            assert(groups == before.update(at, before[at].push(last)));
            assert forall|k: int| 0 <= k < groups.len() implies #[trigger] groups[k]
                == issues_of_title(issues, titles[k]) by {
                if k != at {
                    assert(groups[k] == before[k]);
                }
            }
        } else {
            lemma_group_of_title(before, title, before.len() as int);
            assert(groups == before.push(seq![last]));
            assert forall|j: int| 0 <= j < init.len() implies (#[trigger] init[j]).node_title
                != title by {
                assert(titles_before.contains(init[j].node_title));
            }
            lemma_issues_of_title_none(init, title);
            assert forall|k: int| 0 <= k < groups.len() implies #[trigger] groups[k]
                == issues_of_title(issues, titles[k]) by {
                if k < before.len() {
                    assert(groups[k] == before[k]);
                } else {
                    assert(seq![last] =~= Seq::<IssueFileDataView>::empty().push(last));
                }
            }
        }
    }
}

/// The periodicals that a list of files holds stand in the order in which
/// their titles first occur among the files; each holds all the issues of
/// its title and no others, is not empty, and has no issue dated before an
/// earlier one.
pub proof fn lemma_periodicals_of(files: Seq<FileEntryView>)
    requires
        parse_file_names(files) is Ok,
    ensures
        periodicals_of(files) is Ok,
        ({
            let issues = parse_file_names(files)->Ok_0;
            let titles = titles_in_order(issues);
            let periodicals = periodicals_of(files)->Ok_0;
            &&& periodicals.len() == titles.len()
            &&& forall|k: int|
                0 <= k < periodicals.len() ==> #[trigger] periodicals[k] == sort_by_date(
                    issues_of_title(issues, titles[k]),
                )
            &&& forall|k: int|
                0 <= k < periodicals.len() ==> is_sorted_by_date(#[trigger] periodicals[k])
            &&& forall|k: int| 0 <= k < periodicals.len() ==> (#[trigger] periodicals[k]).len() > 0
            &&& forall|k: int, l: int|
                0 <= k < l < titles.len() ==> first_seen_before(
                    issues,
                    #[trigger] titles[k],
                    #[trigger] titles[l],
                )
        }),
{
    let issues = parse_file_names(files)->Ok_0;
    let groups = group_by_title(issues);
    let periodicals = periodicals_of(files)->Ok_0;
    lemma_group_by_title(issues);
    lemma_titles_in_order(issues);
    assert forall|k: int| 0 <= k < periodicals.len() implies is_sorted_by_date(
        #[trigger] periodicals[k],
    ) && periodicals[k].len() > 0 by {
        assert(periodicals[k] == sort_by_date(groups[k]));
        lemma_sort_by_date_sorted(groups[k]);
    }
}

} // verus!
