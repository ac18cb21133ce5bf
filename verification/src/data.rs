//! The records that make up a periodical and its issues, each with the
//! mathematical value that the contracts of this library speak of.

use vstd::prelude::*;
use vstd::std_specs::convert::FromSpecImpl;
use vstd::string::StringExecFns;
use crate::text::to_chars;

verus! {

pub const FAMILY_SEARCH_DIGITIZING_INSTITUION: &'static str = "FamilySearch International";

pub const AZ_CONTRIBUTING_INSTITUION: &'static str =
    "State of Arizona Research Library- Arizona State Library, Archives and Public Records";

pub const AZ_PERIDICAL_COLLECTION: &'static str =
    "Arizona Collection|Arizona Periodicals and Magazines";

pub const AZ_RIGHTS_STATEMENT: &'static str =
    "NO COPYRIGHT - UNITED STATES. The organization that has made the Item available believes that the Item is in the Public Domain under the laws of the United States, but a determination was not made as to its copyright status under the copyright laws of other countries. The Item may not be in the Public Domain under the laws of other countries. Please refer to the organization that has made the Item available for more information. http://rightsstatements.org/vocab/NoC-US/1.0/";

/// The institution that digitized the item.
///
/// Defaults to [`FAMILY_SEARCH_DIGITIZING_INSTITUION`].
#[derive(Debug, PartialEq, Eq)]
pub struct DigitizingInstitution(pub String);

impl View for DigitizingInstitution {
    type V = Seq<char>;

    open spec fn view(&self) -> Seq<char> {
        self.0@
    }
}

impl Default for DigitizingInstitution {
    fn default() -> (r: Self)
        ensures
            r@ == FAMILY_SEARCH_DIGITIZING_INSTITUION@,
    {
        Self(String::from_str(FAMILY_SEARCH_DIGITIZING_INSTITUION))
    }
}

impl Clone for DigitizingInstitution {
    fn clone(&self) -> (r: Self)
        ensures
            r == *self,
    {
        Self(self.0.clone())
    }
}

impl From<String> for DigitizingInstitution {
    fn from(name: String) -> (r: Self) {
        Self(name)
    }
}

impl FromSpecImpl<String> for DigitizingInstitution {
    open spec fn obeys_from_spec() -> bool {
        true
    }

    open spec fn from_spec(name: String) -> Self {
        Self(name)
    }
}

impl DigitizingInstitution {
    /// The name as it is written into a spreadsheet cell.
    pub fn to_text(&self) -> (text: String)
        ensures
            text@ == self@,
    {
        self.0.clone()
    }
}

/// The institution that holds the item.
///
/// Defaults to [`AZ_CONTRIBUTING_INSTITUION`].
#[derive(Debug, PartialEq, Eq)]
pub struct ContributingInstitution(pub String);

impl View for ContributingInstitution {
    type V = Seq<char>;

    open spec fn view(&self) -> Seq<char> {
        self.0@
    }
}

impl Default for ContributingInstitution {
    fn default() -> (r: Self)
        ensures
            r@ == AZ_CONTRIBUTING_INSTITUION@,
    {
        Self(String::from_str(AZ_CONTRIBUTING_INSTITUION))
    }
}

impl Clone for ContributingInstitution {
    fn clone(&self) -> (r: Self)
        ensures
            r == *self,
    {
        Self(self.0.clone())
    }
}

impl From<String> for ContributingInstitution {
    fn from(name: String) -> (r: Self) {
        Self(name)
    }
}

impl FromSpecImpl<String> for ContributingInstitution {
    open spec fn obeys_from_spec() -> bool {
        true
    }

    open spec fn from_spec(name: String) -> Self {
        Self(name)
    }
}

impl ContributingInstitution {
    /// The name as it is written into a spreadsheet cell.
    pub fn to_text(&self) -> (text: String)
        ensures
            text@ == self@,
    {
        self.0.clone()
    }
}

/// The collection that a periodical is part of.
///
/// Defaults to [`AZ_PERIDICAL_COLLECTION`].
#[derive(Debug, PartialEq, Eq)]
pub struct PeriodicalCollection(pub String);

impl View for PeriodicalCollection {
    type V = Seq<char>;

    open spec fn view(&self) -> Seq<char> {
        self.0@
    }
}

impl Default for PeriodicalCollection {
    fn default() -> (r: Self)
        ensures
            r@ == AZ_PERIDICAL_COLLECTION@,
    {
        Self(String::from_str(AZ_PERIDICAL_COLLECTION))
    }
}

impl Clone for PeriodicalCollection {
    fn clone(&self) -> (r: Self)
        ensures
            r == *self,
    {
        Self(self.0.clone())
    }
}

impl From<String> for PeriodicalCollection {
    fn from(name: String) -> (r: Self) {
        Self(name)
    }
}

impl FromSpecImpl<String> for PeriodicalCollection {
    open spec fn obeys_from_spec() -> bool {
        true
    }

    open spec fn from_spec(name: String) -> Self {
        Self(name)
    }
}

impl PeriodicalCollection {
    /// The name as it is written into a spreadsheet cell.
    pub fn to_text(&self) -> (text: String)
        ensures
            text@ == self@,
    {
        self.0.clone()
    }
}

/// The copyright statement of an issue.
///
/// Defaults to [`AZ_RIGHTS_STATEMENT`].
#[derive(Debug, PartialEq, Eq)]
pub struct RightsStatement(pub String);

impl View for RightsStatement {
    type V = Seq<char>;

    open spec fn view(&self) -> Seq<char> {
        self.0@
    }
}

impl Default for RightsStatement {
    fn default() -> (r: Self)
        ensures
            r@ == AZ_RIGHTS_STATEMENT@,
    {
        Self(String::from_str(AZ_RIGHTS_STATEMENT))
    }
}

impl Clone for RightsStatement {
    fn clone(&self) -> (r: Self)
        ensures
            r == *self,
    {
        Self(self.0.clone())
    }
}

impl From<String> for RightsStatement {
    fn from(name: String) -> (r: Self) {
        Self(name)
    }
}

impl FromSpecImpl<String> for RightsStatement {
    open spec fn obeys_from_spec() -> bool {
        true
    }

    open spec fn from_spec(name: String) -> Self {
        Self(name)
    }
}

impl RightsStatement {
    /// The name as it is written into a spreadsheet cell.
    pub fn to_text(&self) -> (text: String)
        ensures
            text@ == self@,
    {
        self.0.clone()
    }
}

/// The number of an issue within its volume, or the season it appeared in.
#[derive(Debug, PartialEq, Eq)]
pub enum IssueNo {
    Number(String),
    Season(String),
}

/// The mathematical value of an [`IssueNo`].
pub enum IssueNoView {
    Number(Seq<char>),
    Season(Seq<char>),
}

impl IssueNoView {
    /// The number or season as it is written into a spreadsheet cell.
    pub open spec fn text(self) -> Seq<char> {
        match self {
            IssueNoView::Number(text) => text,
            IssueNoView::Season(text) => text,
        }
    }
}

impl View for IssueNo {
    type V = IssueNoView;

    open spec fn view(&self) -> IssueNoView {
        match self {
            IssueNo::Number(text) => IssueNoView::Number(text@),
            IssueNo::Season(text) => IssueNoView::Season(text@),
        }
    }
}

impl Clone for IssueNo {
    fn clone(&self) -> (r: Self)
        ensures
            r == *self,
    {
        match self {
            IssueNo::Number(text) => IssueNo::Number(text.clone()),
            IssueNo::Season(text) => IssueNo::Season(text.clone()),
        }
    }
}

impl IssueNo {
    /// The number or season as it is written into a spreadsheet cell.
    pub fn to_text(&self) -> (text: String)
        ensures
            text@ == self@.text(),
    {
        match self {
            IssueNo::Number(text) => text.clone(),
            IssueNo::Season(text) => text.clone(),
        }
    }
}

/// The type of an item.
#[derive(Debug, PartialEq, Eq)]
pub enum IssueType {
    Text,
}

impl View for IssueType {
    type V = Seq<char>;

    open spec fn view(&self) -> Seq<char> {
        "Text"@
    }
}

impl Clone for IssueType {
    fn clone(&self) -> (r: Self)
        ensures
            r == *self,
    {
        IssueType::Text
    }
}

impl IssueType {
    /// The type as it is written into a spreadsheet cell.
    pub fn to_text(&self) -> (text: String)
        ensures
            text@ == self@,
    {
        String::from_str("Text")
    }
}

/// The format an item was first published in.
#[derive(Debug, PartialEq, Eq)]
pub enum IssueFormatType {
    Periodical,
}

impl View for IssueFormatType {
    type V = Seq<char>;

    open spec fn view(&self) -> Seq<char> {
        "Periodical"@
    }
}

impl Clone for IssueFormatType {
    fn clone(&self) -> (r: Self)
        ensures
            r == *self,
    {
        IssueFormatType::Periodical
    }
}

impl IssueFormatType {
    /// The format as it is written into a spreadsheet cell.
    pub fn to_text(&self) -> (text: String)
        ensures
            text@ == self@,
    {
        String::from_str("Periodical")
    }
}

/// The call number of the item. Obtained from the catalog.
#[derive(Debug, PartialEq, Eq)]
pub enum CallNumber {
    /// E.g. `PERIODICAL`.
    Periodical,
    /// E.g. `AZ CATTLELOG 1945-1976`.
    Shelf(String),
}

/// The mathematical value of a [`CallNumber`].
pub enum CallNumberView {
    Periodical,
    Shelf(Seq<char>),
}

impl CallNumberView {
    /// The call number as it is written into a spreadsheet cell.
    pub open spec fn text(self) -> Seq<char> {
        match self {
            CallNumberView::Periodical => "PERIODICAL"@,
            CallNumberView::Shelf(shelf) => shelf,
        }
    }
}

impl View for CallNumber {
    type V = CallNumberView;

    open spec fn view(&self) -> CallNumberView {
        match self {
            CallNumber::Periodical => CallNumberView::Periodical,
            CallNumber::Shelf(shelf) => CallNumberView::Shelf(shelf@),
        }
    }
}

impl Clone for CallNumber {
    fn clone(&self) -> (r: Self)
        ensures
            r == *self,
    {
        match self {
            CallNumber::Periodical => CallNumber::Periodical,
            CallNumber::Shelf(shelf) => CallNumber::Shelf(shelf.clone()),
        }
    }
}

impl CallNumber {
    /// The call number as it is written into a spreadsheet cell.
    pub fn to_text(&self) -> (text: String)
        ensures
            text@ == self@.text(),
    {
        match self {
            CallNumber::Periodical => String::from_str("PERIODICAL"),
            CallNumber::Shelf(shelf) => shelf.clone(),
        }
    }
}

/// Whether a file extension names the PDF format, whatever the case of its
/// letters.
pub open spec fn is_pdf_extension(ext: Seq<char>) -> bool {
    &&& ext.len() == 3
    &&& (ext[0] == 'p' || ext[0] == 'P')
    &&& (ext[1] == 'd' || ext[1] == 'D')
    &&& (ext[2] == 'f' || ext[2] == 'F')
}

/// The format of the digital file.
#[derive(Debug, PartialEq, Eq)]
pub enum DigitalFormat {
    PDF,
    /// Any other format, under the file extension as it was found.
    Other(String),
}

/// The mathematical value of a [`DigitalFormat`].
pub enum DigitalFormatView {
    PDF,
    Other(Seq<char>),
}

impl DigitalFormatView {
    /// The format that a file extension stands for.
    pub open spec fn of_extension(ext: Seq<char>) -> DigitalFormatView {
        if is_pdf_extension(ext) {
            DigitalFormatView::PDF
        } else {
            DigitalFormatView::Other(ext)
        }
    }

    /// The format as it is written into a spreadsheet cell.
    pub open spec fn text(self) -> Seq<char> {
        match self {
            DigitalFormatView::PDF => "PDF"@,
            DigitalFormatView::Other(ext) => ext,
        }
    }
}

impl View for DigitalFormat {
    type V = DigitalFormatView;

    open spec fn view(&self) -> DigitalFormatView {
        match self {
            DigitalFormat::PDF => DigitalFormatView::PDF,
            DigitalFormat::Other(ext) => DigitalFormatView::Other(ext@),
        }
    }
}

/// Whether the characters spell `pdf` in any mix of upper and lower case.
fn spells_pdf(ext: &Vec<char>) -> (b: bool)
    ensures
        b == is_pdf_extension(ext@),
{
    ext.len() == 3 && (ext[0] == 'p' || ext[0] == 'P') && (ext[1] == 'd' || ext[1] == 'D') && (
    ext[2] == 'f' || ext[2] == 'F')
}

impl Clone for DigitalFormat {
    fn clone(&self) -> (r: Self)
        ensures
            r == *self,
    {
        match self {
            DigitalFormat::PDF => DigitalFormat::PDF,
            DigitalFormat::Other(ext) => DigitalFormat::Other(ext.clone()),
        }
    }
}

impl From<&str> for DigitalFormat {
    fn from(ext: &str) -> (r: Self)
        ensures
            r@ == DigitalFormatView::of_extension(ext@),
    {
        let chars = to_chars(ext);
        if spells_pdf(&chars) {
            DigitalFormat::PDF
        } else {
            DigitalFormat::Other(String::from_str(ext))
        }
    }
}

impl FromSpecImpl<&str> for DigitalFormat {
    /// A borrowed extension has to be copied, and no specification names
    /// the copy: the contract of `from` states its value instead.
    open spec fn obeys_from_spec() -> bool {
        false
    }

    open spec fn from_spec(ext: &str) -> Self {
        DigitalFormat::PDF
    }
}

impl From<String> for DigitalFormat {
    fn from(ext: String) -> (r: Self)
        ensures
            r@ == DigitalFormatView::of_extension(ext@),
    {
        let chars = to_chars(ext.as_str());
        if spells_pdf(&chars) {
            DigitalFormat::PDF
        } else {
            DigitalFormat::Other(ext)
        }
    }
}

impl FromSpecImpl<String> for DigitalFormat {
    open spec fn obeys_from_spec() -> bool {
        true
    }

    open spec fn from_spec(ext: String) -> Self {
        if is_pdf_extension(ext@) {
            DigitalFormat::PDF
        } else {
            DigitalFormat::Other(ext)
        }
    }
}

impl DigitalFormat {
    /// The format as it is written into a spreadsheet cell.
    pub fn to_text(&self) -> (text: String)
        ensures
            text@ == self@.text(),
    {
        match self {
            DigitalFormat::PDF => String::from_str("PDF"),
            DigitalFormat::Other(ext) => ext.clone(),
        }
    }
}

/// What the catalog record says of a periodical.
#[derive(Debug, PartialEq, Eq)]
pub struct MarcData {
    /// The creators of the item, from the fields 100, 110, 700 and 710.
    pub creators: Vec<String>,
    /// The publisher, from subfield b of the fields 260 and 264.
    pub publisher: String,
    /// The subject headings, from the fields 610 and 650.
    pub subject_headings: Vec<String>,
    /// The call number that the operator gave.
    pub call_number: CallNumber,
    /// The control number from field 001 or 003, nine characters or more,
    /// padded on the left with zeros.
    pub oclc_number: String,
}

/// The mathematical value of a [`MarcData`].
pub struct MarcDataView {
    pub creators: Seq<Seq<char>>,
    pub publisher: Seq<char>,
    pub subject_headings: Seq<Seq<char>>,
    pub call_number: CallNumberView,
    pub oclc_number: Seq<char>,
}

impl View for MarcData {
    type V = MarcDataView;

    open spec fn view(&self) -> MarcDataView {
        MarcDataView {
            creators: self.creators.deep_view(),
            publisher: self.publisher@,
            subject_headings: self.subject_headings.deep_view(),
            call_number: self.call_number@,
            oclc_number: self.oclc_number@,
        }
    }
}

impl Clone for MarcData {
    fn clone(&self) -> (r: Self)
        ensures
            r@ == self@,
    {
        let creators = self.creators.clone();
        let subject_headings = self.subject_headings.clone();
        assert(creators.deep_view() =~= self.creators.deep_view());
        assert(subject_headings.deep_view() =~= self.subject_headings.deep_view());
        MarcData {
            creators,
            publisher: self.publisher.clone(),
            subject_headings,
            call_number: self.call_number.clone(),
            oclc_number: self.oclc_number.clone(),
        }
    }
}

/// The view of an optional string.
pub open spec fn option_view(text: Option<String>) -> Option<Seq<char>> {
    match text {
        Some(text) => Some(text@),
        None => None,
    }
}

/// One dated issue of a periodical, as it goes into the spreadsheet.
#[derive(Debug, PartialEq, Eq)]
pub struct Issue {
    /// The title of the item: `Title, yyyy-mm-dd`, `Title, yyyy-mm` or
    /// `Title, yyyy`.
    pub node_title: String,
    /// The title of the previous issue, if there is one.
    pub previous_issue: Option<String>,
    /// The title of the next issue, if there is one.
    pub next_issue: Option<String>,
    /// Editors, staff members and authors named in the issue.
    pub contributors: Vec<String>,
    /// The volume number, if the periodical has volumes.
    pub volume_no: Option<String>,
    /// The issue number, if the periodical numbers its issues.
    pub issue_no: Option<IssueNo>,
    /// The dates of the issue: `yyyy`, `yyyy-mm` or `yyyy-mm-dd`.
    pub data_original: Vec<String>,
    /// The decade of each date, e.g. `1840s (1840-1849)`.
    pub date_range: Vec<String>,
    /// The type of the item.
    pub item_type: IssueType,
    /// The format the item was first published in.
    pub format_type: IssueFormatType,
    /// The languages of the item.
    pub languages: Vec<String>,
    /// The name of the periodical that the issue is a part of.
    pub parent_collection: String,
    /// What the catalog says of the periodical.
    pub marc: MarcData,
    /// The copyright statement.
    pub rights_statement: RightsStatement,
    /// The format of the digital file.
    pub digital_format: DigitalFormat,
    /// The institution that digitized the item.
    pub digitizing_institution: DigitizingInstitution,
}

/// The mathematical value of an [`Issue`].
pub struct IssueView {
    pub node_title: Seq<char>,
    pub previous_issue: Option<Seq<char>>,
    pub next_issue: Option<Seq<char>>,
    pub contributors: Seq<Seq<char>>,
    pub volume_no: Option<Seq<char>>,
    pub issue_no: Option<IssueNoView>,
    pub data_original: Seq<Seq<char>>,
    pub date_range: Seq<Seq<char>>,
    pub item_type: Seq<char>,
    pub format_type: Seq<char>,
    pub languages: Seq<Seq<char>>,
    pub parent_collection: Seq<char>,
    pub marc: MarcDataView,
    pub rights_statement: Seq<char>,
    pub digital_format: DigitalFormatView,
    pub digitizing_institution: Seq<char>,
}

impl View for Issue {
    type V = IssueView;

    open spec fn view(&self) -> IssueView {
        IssueView {
            node_title: self.node_title@,
            previous_issue: option_view(self.previous_issue),
            next_issue: option_view(self.next_issue),
            contributors: self.contributors.deep_view(),
            volume_no: option_view(self.volume_no),
            issue_no: match self.issue_no {
                Some(number) => Some(number@),
                None => None,
            },
            data_original: self.data_original.deep_view(),
            date_range: self.date_range.deep_view(),
            item_type: self.item_type@,
            format_type: self.format_type@,
            languages: self.languages.deep_view(),
            parent_collection: self.parent_collection@,
            marc: self.marc@,
            rights_statement: self.rights_statement@,
            digital_format: self.digital_format@,
            digitizing_institution: self.digitizing_institution@,
        }
    }
}

impl DeepView for Issue {
    type V = IssueView;

    open spec fn deep_view(&self) -> IssueView {
        self@
    }
}

/// A periodical: its issues in order, and what the operator said of it.
#[derive(Debug, PartialEq, Eq)]
pub struct Periodical {
    /// An overall summary of the periodical and its issues.
    pub description: String,
    /// The collection that the periodical is a part of.
    pub collection: PeriodicalCollection,
    /// The institution that holds the item.
    pub contributing_institution: ContributingInstitution,
    /// The issues that make up the periodical.
    pub issues: Vec<Issue>,
    /// The topics that the operator chose.
    pub topics: Vec<String>,
}

/// The mathematical value of a [`Periodical`].
pub struct PeriodicalView {
    pub description: Seq<char>,
    pub collection: Seq<char>,
    pub contributing_institution: Seq<char>,
    pub issues: Seq<IssueView>,
    pub topics: Seq<Seq<char>>,
}

impl View for Periodical {
    type V = PeriodicalView;

    open spec fn view(&self) -> PeriodicalView {
        PeriodicalView {
            description: self.description@,
            collection: self.collection@,
            contributing_institution: self.contributing_institution@,
            issues: self.issues.deep_view(),
            topics: self.topics.deep_view(),
        }
    }
}

impl DeepView for Periodical {
    type V = PeriodicalView;

    open spec fn deep_view(&self) -> PeriodicalView {
        self@
    }
}

} // verus!
