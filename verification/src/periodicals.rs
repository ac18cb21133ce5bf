//! From the issues of a periodical and what the operator said of it to the
//! periodical as it goes into the spreadsheet: each issue with its title,
//! its neighbours and the data that all issues of the periodical share.

use vstd::prelude::*;
use crate::ArchiveError;
use crate::data::{
    ContributingInstitution, DigitizingInstitution, Issue, IssueFormatType, IssueType, IssueView,
    MarcData, MarcDataView, Periodical, PeriodicalCollection, PeriodicalView, RightsStatement,
};
use crate::files::{IssueFileData, IssueFileDataView};

verus! {

/// The issues of one periodical, sorted by date, with what the catalog and
/// the operator say of the periodical.
#[derive(Debug, PartialEq, Eq)]
pub struct PeriodicalInput {
    /// The issues, as they were read from the file names.
    pub issues: Vec<IssueFileData>,
    /// What the catalog record says of the periodical.
    pub marc: MarcData,
    /// The operator's summary of the periodical.
    pub description: String,
    /// The topics that the operator chose.
    pub topics: Vec<String>,
}

/// The mathematical value of a [`PeriodicalInput`].
pub struct PeriodicalInputView {
    pub issues: Seq<IssueFileDataView>,
    pub marc: MarcDataView,
    pub description: Seq<char>,
    pub topics: Seq<Seq<char>>,
}

impl View for PeriodicalInput {
    type V = PeriodicalInputView;

    open spec fn view(&self) -> PeriodicalInputView {
        PeriodicalInputView {
            issues: self.issues.deep_view(),
            marc: self.marc@,
            description: self.description@,
            topics: self.topics.deep_view(),
        }
    }
}

impl DeepView for PeriodicalInput {
    type V = PeriodicalInputView;

    open spec fn deep_view(&self) -> PeriodicalInputView {
        self@
    }
}

/// What all issues of a run share.
pub struct SharedView {
    pub languages: Seq<Seq<char>>,
    pub digitizing_institution: Seq<char>,
    pub rights_statement: Seq<char>,
    pub collection: Seq<char>,
    pub contributing_institution: Seq<char>,
}

/// The title of the issue at index `i` of a periodical, where there is one.
pub open spec fn neighbour_title(issues: Seq<IssueFileDataView>, i: int) -> Option<Seq<char>> {
    if 0 <= i < issues.len() {
        Some(issues[i].node_title_with_date())
    } else {
        None
    }
}

/// The issue at index `i` of a periodical as it goes into the spreadsheet:
/// titled by periodical and date, linked to the issue before and the issue
/// after it, with one date and one decade, no contributors, volume or
/// number, and with what the catalog says of the periodical.
pub open spec fn issue_at(
    issues: Seq<IssueFileDataView>,
    i: int,
    marc: MarcDataView,
    shared: SharedView,
) -> IssueView {
    IssueView {
        node_title: issues[i].node_title_with_date(),
        previous_issue: neighbour_title(issues, i - 1),
        next_issue: neighbour_title(issues, i + 1),
        contributors: Seq::empty(),
        volume_no: None,
        issue_no: None,
        data_original: seq![issues[i].date_original],
        date_range: seq![issues[i].date_range],
        item_type: IssueType::Text@,
        format_type: IssueFormatType::Periodical@,
        languages: shared.languages,
        parent_collection: issues[i].node_title,
        marc,
        rights_statement: shared.rights_statement,
        digital_format: issues[i].format,
        digitizing_institution: shared.digitizing_institution,
    }
}

/// The periodical that its issues and the operator's answers make.
pub open spec fn periodical_of(input: PeriodicalInputView, shared: SharedView) -> PeriodicalView {
    PeriodicalView {
        description: input.description,
        collection: shared.collection,
        contributing_institution: shared.contributing_institution,
        issues: Seq::new(
            input.issues.len(),
            |i: int| issue_at(input.issues, i, input.marc, shared),
        ),
        topics: input.topics,
    }
}

/// A copy of a list of strings.
fn copy_strings(strings: &Vec<String>) -> (copy: Vec<String>)
    ensures
        copy.deep_view() == strings.deep_view(),
{
    let copy = strings.clone();
    assert(copy.deep_view() =~= strings.deep_view());
    copy
}

/// A list that holds one string.
fn one_string(string: String) -> (list: Vec<String>)
    ensures
        list.deep_view() == seq![string@],
{
    let mut list: Vec<String> = Vec::new();
    list.push(string);
    assert(list.deep_view() =~= seq![string@]);
    list
}

/// Makes the periodical out of its issues and the operator's answers.
pub fn assemble_periodical(
    input: PeriodicalInput,
    languages: &Vec<String>,
    digitizing_institution: &DigitizingInstitution,
    rights_statement: &RightsStatement,
    collection: &PeriodicalCollection,
    contributing_institution: &ContributingInstitution,
) -> (periodical: Periodical)
    ensures
        periodical@ == periodical_of(
            input@,
            SharedView {
                languages: languages.deep_view(),
                digitizing_institution: digitizing_institution@,
                rights_statement: rights_statement@,
                collection: collection@,
                contributing_institution: contributing_institution@,
            },
        ),
{
    let ghost shared = SharedView {
        languages: languages.deep_view(),
        digitizing_institution: digitizing_institution@,
        rights_statement: rights_statement@,
        collection: collection@,
        contributing_institution: contributing_institution@,
    };
    let ghost files = input.issues.deep_view();
    let mut issues: Vec<Issue> = Vec::new();
    let mut i: usize = 0;
    while i < input.issues.len()
        invariant
            i <= input.issues.len(),
            files == input.issues.deep_view(),
            issues.len() == i,
            shared == (SharedView {
                languages: languages.deep_view(),
                digitizing_institution: digitizing_institution@,
                rights_statement: rights_statement@,
                collection: collection@,
                contributing_institution: contributing_institution@,
            }),
            forall|j: int|
                0 <= j < i ==> #[trigger] issues.deep_view()[j] == issue_at(
                    files,
                    j,
                    input.marc@,
                    shared,
                ),
        decreases input.issues.len() - i,
    {
        let issue_data = &input.issues[i];
        let previous_issue = if i == 0 {
            None
        } else {
            Some(input.issues[i - 1].node_title_with_date())
        };
        let next_issue = if i + 1 < input.issues.len() {
            Some(input.issues[i + 1].node_title_with_date())
        } else {
            None
        };
        let contributors: Vec<String> = Vec::new();
        assert(contributors.deep_view() =~= Seq::<Seq<char>>::empty());
        let issue = Issue {
            marc: input.marc.clone(),
            node_title: issue_data.node_title_with_date(),
            data_original: one_string(issue_data.date_original.clone()),
            date_range: one_string(issue_data.date_range.clone()),
            digital_format: issue_data.format.clone(),
            parent_collection: issue_data.node_title.clone(),
            next_issue,
            previous_issue,
            contributors,
            languages: copy_strings(languages),
            issue_no: None,
            volume_no: None,
            item_type: IssueType::Text,
            format_type: IssueFormatType::Periodical,
            digitizing_institution: digitizing_institution.clone(),
            rights_statement: rights_statement.clone(),
        };
        assert(files[i as int] == issue_data@);
        assert(issue@ == issue_at(files, i as int, input.marc@, shared));
        let ghost done = issues.deep_view();
        issues.push(issue);
        assert(issues.deep_view() =~= done.push(issue@));
        i += 1;
    }
    assert(issues.deep_view() =~= Seq::new(
        files.len(),
        |i: int| issue_at(files, i, input.marc@, shared),
    ));
    Periodical {
        description: input.description,
        collection: collection.clone(),
        contributing_institution: contributing_institution.clone(),
        issues,
        topics: input.topics,
    }
}

/// The periodicals that a run makes, in the order of their inputs.
pub open spec fn periodicals_from(inputs: Seq<PeriodicalInputView>, shared: SharedView) -> Seq<
    PeriodicalView,
> {
    Seq::new(inputs.len(), |i: int| periodical_of(inputs[i], shared))
}

/// Makes the periodicals of a run, one out of each input, in their order.
/// All of them share the languages, the institutions, the collection and
/// the rights statement given.
pub fn process_periodicals(
    data: Vec<PeriodicalInput>,
    languages: Vec<String>,
    digitizing_instituion: DigitizingInstitution,
    rights_statement: RightsStatement,
    collection: PeriodicalCollection,
    contributing_institution: ContributingInstitution,
) -> (r: Result<Vec<Periodical>, ArchiveError>)
    ensures
        r is Ok,
        r->Ok_0.deep_view() == periodicals_from(
            data.deep_view(),
            SharedView {
                languages: languages.deep_view(),
                digitizing_institution: digitizing_instituion@,
                rights_statement: rights_statement@,
                collection: collection@,
                contributing_institution: contributing_institution@,
            },
        ),
{
    let ghost shared = SharedView {
        languages: languages.deep_view(),
        digitizing_institution: digitizing_instituion@,
        rights_statement: rights_statement@,
        collection: collection@,
        contributing_institution: contributing_institution@,
    };
    let ghost inputs = data.deep_view();
    let mut data = data;
    let mut periodicals: Vec<Periodical> = Vec::new();
    while data.len() > 0
        invariant
            periodicals.len() + data.len() == inputs.len(),
            forall|j: int|
                0 <= j < data.len() ==> #[trigger] data.deep_view()[j] == inputs[periodicals.len()
                    + j],
            shared == (SharedView {
                languages: languages.deep_view(),
                digitizing_institution: digitizing_instituion@,
                rights_statement: rights_statement@,
                collection: collection@,
                contributing_institution: contributing_institution@,
            }),
            forall|j: int|
                0 <= j < periodicals.len() ==> #[trigger] periodicals.deep_view()[j]
                    == periodical_of(inputs[j], shared),
        decreases data.len(),
    {
        let ghost left = data.deep_view();
        let input = data.remove(0);
        assert(input@ == left[0]);
        assert forall|j: int| 0 <= j < data.len() implies #[trigger] data.deep_view()[j]
            == inputs[periodicals.len() + 1 + j] by {
            assert(data.deep_view()[j] == left[j + 1]);
        }
        let periodical = assemble_periodical(
            input,
            &languages,
            &digitizing_instituion,
            &rights_statement,
            &collection,
            &contributing_institution,
        );
        let ghost done = periodicals.deep_view();
        periodicals.push(periodical);
        assert(periodicals.deep_view() =~= done.push(periodical@));
    }
    assert(periodicals.deep_view() =~= periodicals_from(inputs, shared));
    Ok(periodicals)
}

} // verus!
