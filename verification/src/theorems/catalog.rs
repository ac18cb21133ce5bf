//! What a catalog record gives: no data without a control number, the
//! first control number as identifier, the last publisher, and no value that
//! ends in punctuation.

use vstd::prelude::*;
use crate::ArchiveErrorView;
use crate::data::{CallNumberView, MarcDataView};
use crate::marc::{
    catalog_data, creator_names, field_kind, fields_of_records, first_name_first,
    grammatical_punctuation, holds_control_number, identifier_of, publisher_names, publisher_of,
    subject_text, trim_punctuation, FieldKind, RecordView, SubfieldView,
};
use crate::text::join_with;

verus! {

/// A catalog record in which no field has the tag 001 or 003 gives no
/// identifier, whatever else it holds.
pub proof fn lemma_fields_without_control_number(records: Seq<RecordView>)
    requires
        forall|i: int|
            0 <= i < records.len() ==> field_kind((#[trigger] records[i]).tag)
                != FieldKind::ControlNumber,
    ensures
        fields_of_records(records).identifier is None,
    decreases records.len(),
{
    if records.len() > 0 {
        let init = records.drop_last();
        assert forall|i: int| 0 <= i < init.len() implies field_kind((#[trigger] init[i]).tag)
            != FieldKind::ControlNumber by {
            assert(init[i] == records[i]);
        }
        lemma_fields_without_control_number(init);
        assert(field_kind(records[records.len() - 1].tag) != FieldKind::ControlNumber);
    }
}

/// A catalog record in which no field has the tag 001 or 003 is refused
/// for its missing identifier, under any call number.
pub proof fn lemma_catalog_data_without_control_number(
    call_number: CallNumberView,
    records: Seq<RecordView>,
)
    requires
        forall|i: int|
            0 <= i < records.len() ==> field_kind((#[trigger] records[i]).tag)
                != FieldKind::ControlNumber,
    ensures
        catalog_data(call_number, records) == Err::<MarcDataView, ArchiveErrorView>(
            ArchiveErrorView::MissingIdentifier,
        ),
{
    lemma_fields_without_control_number(records);
}

/// The first field of a record that can give the identifier: one with the
/// tag 001 or 003 whose first subfield stands for the whole field. Where no
/// field can, the number of fields.
pub open spec fn first_control_number(records: Seq<RecordView>) -> int
    decreases records.len(),
{
    if records.len() == 0 {
        0
    } else {
        let before = first_control_number(records.drop_last());
        if before < records.len() - 1 {
            before
        } else if gives_identifier(records.last()) {
            records.len() - 1
        } else {
            records.len() as int
        }
    }
}

/// Whether a field can give the identifier.
pub open spec fn gives_identifier(record: RecordView) -> bool {
    field_kind(record.tag) == FieldKind::ControlNumber && holds_control_number(record.subfields)
}

/// The identifier of a catalog record is that of the first field that can
/// give one, and fields after it do not change it. It has nine characters
/// or more. Where no field can give one, there is none.
pub proof fn lemma_first_control_number_wins(records: Seq<RecordView>)
    ensures
        ({
            let at = first_control_number(records);
            &&& 0 <= at <= records.len()
            &&& forall|i: int| 0 <= i < at ==> !gives_identifier(#[trigger] records[i])
            &&& at < records.len() ==> gives_identifier(records[at])
            &&& fields_of_records(records).identifier == if at < records.len() {
                Some(identifier_of(records[at].subfields[0].value))
            } else {
                None
            }
            &&& fields_of_records(records).identifier matches Some(identifier)
                ==> identifier.len() >= 9
        }),
    decreases records.len(),
{
    if records.len() > 0 {
        let init = records.drop_last();
        lemma_first_control_number_wins(init);
        let before = first_control_number(init);
        assert forall|i: int| 0 <= i < before implies !gives_identifier(#[trigger] records[i]) by {
            assert(records[i] == init[i]);
        }
        if before < init.len() {
            assert(records[before] == init[before]);
        }
    }
}

/// The publisher of a catalog record is that of its last publication
/// statement: fields after it that are no publication statement leave it
/// as it is.
pub proof fn lemma_last_publisher_wins(records: Seq<RecordView>, record: RecordView)
    ensures
        fields_of_records(records.push(record)).publisher == if field_kind(record.tag)
            == FieldKind::Publisher {
            publisher_of(record.subfields)
        } else {
            fields_of_records(records).publisher
        },
{
    assert(records.push(record).drop_last() =~= records);
}

/// Nothing that a catalog record gives ends in grammatical punctuation: no
/// creator, no subject heading, and not the publisher.
pub proof fn lemma_fields_are_trimmed(records: Seq<RecordView>)
    ensures
        ({
            let fields = fields_of_records(records);
            &&& forall|i: int|
                0 <= i < fields.creators.len() ==> is_trimmed(#[trigger] fields.creators[i])
            &&& forall|i: int|
                0 <= i < fields.subject_headings.len() ==> is_trimmed(
                    #[trigger] fields.subject_headings[i],
                )
            &&& is_trimmed(fields.publisher)
        }),
    decreases records.len(),
{
    if records.len() > 0 {
        let init = records.drop_last();
        let last = records.last();
        lemma_fields_are_trimmed(init);
        let before = fields_of_records(init);
        let fields = fields_of_records(records);
        lemma_creator_names_trimmed(last.subfields, true);
        lemma_creator_names_trimmed(last.subfields, false);
        lemma_trim_punctuation(subject_text(last.subfields));
        lemma_trim_punctuation(join_with(publisher_names(last.subfields), seq![' ']));
        assert forall|i: int| 0 <= i < fields.creators.len() implies is_trimmed(
            #[trigger] fields.creators[i],
        ) by {
            if i < before.creators.len() {
                assert(fields.creators[i] == before.creators[i]);
            }
        }
        assert forall|i: int| 0 <= i < fields.subject_headings.len() implies is_trimmed(
            #[trigger] fields.subject_headings[i],
        ) by {
            if i < before.subject_headings.len() {
                assert(fields.subject_headings[i] == before.subject_headings[i]);
            }
        }
    }
}

/// Whether a string does not end in grammatical punctuation.
pub open spec fn is_trimmed(s: Seq<char>) -> bool {
    s.len() > 0 ==> !grammatical_punctuation(s.last())
}

/// Trimming gives the longest beginning of a string that does not end in
/// grammatical punctuation: what it takes off is punctuation only.
pub proof fn lemma_trim_punctuation(s: Seq<char>)
    ensures
        is_trimmed(trim_punctuation(s)),
        trim_punctuation(s).len() <= s.len(),
        trim_punctuation(s) == s.take(trim_punctuation(s).len() as int),
        forall|i: int|
            trim_punctuation(s).len() <= i < s.len() ==> grammatical_punctuation(#[trigger] s[i]),
    decreases s.len(),
{
    if s.len() > 0 && grammatical_punctuation(s.last()) {
        let init = s.drop_last();
        lemma_trim_punctuation(init);
        let kept = trim_punctuation(init).len() as int;
        assert(init.take(kept) =~= s.take(kept));
        assert forall|i: int| kept <= i < s.len() implies grammatical_punctuation(
            #[trigger] s[i],
        ) by {
            if i < init.len() {
                assert(s[i] == init[i]);
            }
        }
    } else {
        assert(s.take(s.len() as int) =~= s);
    }
}

/// The names that a field gives do not end in grammatical punctuation.
proof fn lemma_creator_names_trimmed(subfields: Seq<SubfieldView>, invert: bool)
    ensures
        forall|i: int|
            0 <= i < creator_names(subfields, invert).len() ==> is_trimmed(
                #[trigger] creator_names(subfields, invert)[i],
            ),
    decreases subfields.len(),
{
    if subfields.len() > 0 {
        let before = creator_names(subfields.drop_last(), invert);
        let names = creator_names(subfields, invert);
        lemma_creator_names_trimmed(subfields.drop_last(), invert);
        let value = subfields.last().value;
        lemma_trim_punctuation(value);
        lemma_trim_punctuation(first_name_first(value));
        assert forall|i: int| 0 <= i < names.len() implies is_trimmed(#[trigger] names[i]) by {
            if i < before.len() {
                assert(names[i] == before[i]);
            }
        }
    }
}

} // verus!
