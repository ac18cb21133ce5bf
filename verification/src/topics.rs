//! The vocabulary of topics and the operator's choice from it.

use vstd::prelude::*;
use vstd::string::StringExecFns;
use crate::text::{
    copy_range, decimal_digits, from_chars, push_decimal, split_chars, split_on, to_chars, views,
};

verus! {

/// How many topics the operator has to choose for a periodical.
pub const REQUIRED_TOPICS: usize = 3;

/// Why a choice of topics is not accepted.
#[derive(Debug, PartialEq, Eq)]
pub enum TopicError {
    /// Fewer topics than required were chosen: this many.
    NotEnough(usize),
    /// More topics than required were chosen: this many.
    TooMany(usize),
    /// The vocabulary has no topic at this index.
    NoSuchTopic(usize),
}

/// A line without the carriage return that ends it, if one does.
pub open spec fn without_carriage_return(line: Seq<char>) -> Seq<char> {
    if line.len() > 0 && line.last() == '\r' {
        line.drop_last()
    } else {
        line
    }
}

/// The lines of a text. A line ends with a line feed, or with a carriage
/// return and a line feed; neither belongs to the line. What follows the
/// last line feed is a line too, unless it is empty.
pub open spec fn lines_of(text: Seq<char>) -> Seq<Seq<char>> {
    let parts = split_on(text, '\n');
    let ended = Seq::new((parts.len() - 1) as nat, |i: int| without_carriage_return(parts[i]));
    if parts.last().len() == 0 {
        ended
    } else {
        ended.push(parts.last())
    }
}

/// Reads the vocabulary of topics: one topic on each line of the text.
pub fn load_topics(text: &str) -> (topics: Vec<String>)
    ensures
        topics.deep_view() == lines_of(text@),
{
    let chars = to_chars(text);
    let parts = split_chars(&chars, '\n');
    let ghost pieces = views(parts@);
    assert(parts.len() >= 1);
    let mut topics: Vec<String> = Vec::new();
    let mut i: usize = 0;
    while i + 1 < parts.len()
        invariant
            i + 1 <= parts.len(),
            pieces == views(parts@),
            topics.len() == i,
            forall|j: int|
                0 <= j < i ==> #[trigger] topics.deep_view()[j] == without_carriage_return(
                    pieces[j],
                ),
        decreases parts.len() - i,
    {
        let part = &parts[i];
        let line = if part.len() > 0 && part[part.len() - 1] == '\r' {
            let line = copy_range(part, 0, part.len() - 1);
            assert(line@ =~= part@.drop_last());
            line
        } else {
            copy_range(part, 0, part.len())
        };
        assert(line@ =~= without_carriage_return(pieces[i as int]));
        let ghost done = topics.deep_view();
        topics.push(from_chars(&line));
        assert(topics.deep_view() =~= done.push(line@));
        i += 1;
    }
    let last = &parts[i];
    assert(last@ == pieces.last());
    let ghost ended = topics.deep_view();
    assert(ended =~= Seq::new(
        (pieces.len() - 1) as nat,
        |i: int| without_carriage_return(pieces[i]),
    ));
    if last.len() > 0 {
        topics.push(from_chars(last));
        assert(topics.deep_view() =~= ended.push(last@));
    }
    topics
}

/// What a choice of topics gives: the topics at the chosen indices, in the
/// order in which they were chosen, where exactly three were chosen and the
/// vocabulary has each of them. The number chosen is tested first; of the
/// indices without a topic the first is reported.
pub open spec fn chosen_topics(topics: Seq<Seq<char>>, selections: Seq<usize>) -> Result<
    Seq<Seq<char>>,
    TopicError,
> {
    if selections.len() < REQUIRED_TOPICS {
        Err(TopicError::NotEnough(selections.len() as usize))
    } else if selections.len() > REQUIRED_TOPICS {
        Err(TopicError::TooMany(selections.len() as usize))
    } else if selections[0] >= topics.len() {
        Err(TopicError::NoSuchTopic(selections[0]))
    } else if selections[1] >= topics.len() {
        Err(TopicError::NoSuchTopic(selections[1]))
    } else if selections[2] >= topics.len() {
        Err(TopicError::NoSuchTopic(selections[2]))
    } else {
        Ok(seq![topics[selections[0] as int], topics[selections[1] as int], topics[selections[2] as int]])
    }
}

/// Tests the operator's choice of topics and takes the chosen topics out
/// of the vocabulary.
pub fn select_topics(topics: &Vec<String>, selections: &Vec<usize>) -> (r: Result<
    Vec<String>,
    TopicError,
>)
    ensures
        match r {
            Ok(chosen) => chosen_topics(topics.deep_view(), selections@) == Ok::<
                Seq<Seq<char>>,
                TopicError,
            >(chosen.deep_view()),
            Err(e) => chosen_topics(topics.deep_view(), selections@) == Err::<
                Seq<Seq<char>>,
                TopicError,
            >(e),
        },
{
    let selected_len = selections.len();
    if selected_len < REQUIRED_TOPICS {
        return Err(TopicError::NotEnough(selected_len));
    } else if selected_len > REQUIRED_TOPICS {
        return Err(TopicError::TooMany(selected_len));
    }
    let mut chosen: Vec<String> = Vec::new();
    let mut i: usize = 0;
    while i < selected_len
        invariant
            i <= selected_len == selections.len(),
            selected_len == REQUIRED_TOPICS,
            chosen.len() == i,
            forall|j: int| 0 <= j < i ==> selections[j] < topics.len(),
            forall|j: int|
                0 <= j < i ==> #[trigger] chosen.deep_view()[j] == topics.deep_view()[selections[j] as int],
        decreases selected_len - i,
    {
        let at = selections[i];
        if at >= topics.len() {
            return Err(TopicError::NoSuchTopic(at));
        }
        let ghost done = chosen.deep_view();
        let topic = topics[at].clone();
        chosen.push(topic);
        assert(chosen.deep_view() =~= done.push(topic@));
        i += 1;
    }
    assert(chosen.deep_view() =~= seq![
        topics.deep_view()[selections[0] as int],
        topics.deep_view()[selections[1] as int],
        topics.deep_view()[selections[2] as int],
    ]);
    Ok(chosen)
}

impl TopicError {
    /// What the operator is told of a choice that is not accepted.
    pub open spec fn message_of(self) -> Seq<char> {
        match self {
            TopicError::NotEnough(chosen) => "You need to select at least 3 topics. You selected "@
                + decimal_digits(chosen as nat) + " Press [ENTER] to retry."@,
            TopicError::TooMany(chosen) => "You may select at most 3 topics. You selected "@
                + decimal_digits(chosen as nat) + ". Press [ENTER] to retry."@,
            TopicError::NoSuchTopic(index) => "There is no topic number "@ + decimal_digits(
                index as nat,
            ) + ". Press [ENTER] to retry."@,
        }
    }

    /// What the operator is told of a choice that is not accepted.
    pub fn message(&self) -> (text: String)
        ensures
            text@ == self.message_of(),
    {
        let (before, number, after) = match self {
            TopicError::NotEnough(chosen) => (
                "You need to select at least 3 topics. You selected ",
                *chosen,
                " Press [ENTER] to retry.",
            ),
            TopicError::TooMany(chosen) => (
                "You may select at most 3 topics. You selected ",
                *chosen,
                ". Press [ENTER] to retry.",
            ),
            TopicError::NoSuchTopic(index) => (
                "There is no topic number ",
                *index,
                ". Press [ENTER] to retry.",
            ),
        };
        let mut digits: Vec<char> = Vec::new();
        push_decimal(&mut digits, number as u128);
        assert(digits@ =~= decimal_digits(number as nat));
        let mut text = String::from_str(before);
        text.append(from_chars(&digits).as_str());
        text.append(after);
        text
    }
}

} // verus!
