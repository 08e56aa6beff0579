//! The record projector: turns one named-field record into an ordered output
//! row per the schema's output field list, applying each output field's own
//! pipeline on top of whatever the mapper already applied, and derives the
//! header row from the declarations alone.

use vstd::prelude::*;
use crate::mapper::{lemma_mapped_keys, spec_mapped};
use crate::record::BankRecord;
use crate::schema::{sources_resolve, Config, Field, OutputField};
use crate::transform::{apply, spec_apply};

verus! {

/// An output field's `source` names no field of the record being projected:
/// either the schema declares no such input column (a schema inconsistency),
/// or the record was built against a different schema.
#[derive(Debug)]
pub struct MissingSourceFieldError {
    pub source: String,
}

/// The header cell an output field contributes: its new name where one is
/// declared, its source name otherwise.
pub open spec fn spec_header_cell(output: OutputField) -> Seq<char> {
    match output.renamed {
        Some(renamed) => renamed@,
        None => output.source@,
    }
}

/// Every output field's source is a key of the record.
pub open spec fn record_covers(rec: Map<Seq<char>, Seq<char>>, outputs: Seq<OutputField>) -> bool {
    forall|i: int| 0 <= i < outputs.len() ==> rec.dom().contains(#[trigger] outputs[i].source@)
}

/// Projects one record into an ordered output row: for each output field in
/// declaration order, the record's value under `source` run through the
/// output field's pipeline. Succeeds exactly when every source resolves;
/// otherwise the first output field whose source the record lacks is named.
pub fn project_record(record: &BankRecord, schema: &Config) -> (r: Result<
    Vec<String>,
    MissingSourceFieldError,
>)
    ensures
        match r {
            Ok(row) => {
                &&& record_covers(record@, schema.output.fields@)
                &&& row@.len() == schema.output.fields@.len()
                &&& forall|i: int|
                    0 <= i < row@.len() ==> (#[trigger] row@[i])@ == spec_apply(
                        schema.output.fields@[i].pipeline@,
                        record@[schema.output.fields@[i].source@],
                    )
            },
            Err(e) => exists|i: int|
                {
                    &&& 0 <= i < schema.output.fields@.len()
                    &&& !record@.dom().contains(#[trigger] schema.output.fields@[i].source@)
                    &&& e.source@ == schema.output.fields@[i].source@
                    &&& forall|j: int|
                        0 <= j < i ==> record@.dom().contains(
                            #[trigger] schema.output.fields@[j].source@,
                        )
                },
        },
{
    let outputs = &schema.output.fields;
    let mut row: Vec<String> = Vec::new();
    let mut i: usize = 0;
    while i < outputs.len()
        invariant
            outputs@ == schema.output.fields@,
            i <= outputs@.len(),
            row@.len() == i,
            forall|j: int|
                0 <= j < i ==> record@.dom().contains(#[trigger] outputs@[j].source@),
            forall|j: int|
                0 <= j < i ==> (#[trigger] row@[j])@ == spec_apply(
                    outputs@[j].pipeline@,
                    record@[outputs@[j].source@],
                ),
        decreases outputs@.len() - i,
    {
        let output = &outputs[i];
        match record.get(&output.source) {
            Some(f) => {
                let value = apply(&output.pipeline, f.value.as_str());
                row.push(value);
            },
            None => {
                let err = MissingSourceFieldError { source: output.source.clone() };
                proof {
                    let k = i as int;
                    assert((0 <= k < schema.output.fields@.len()
                        && !record@.dom().contains(#[trigger] schema.output.fields@[k].source@)
                        && err.source@ == schema.output.fields@[k].source@
                        && forall|j: int|
                        0 <= j < k ==> record@.dom().contains(
                            #[trigger] schema.output.fields@[j].source@,
                        )));
                }
                return Err(err);
            },
        }
        i = i + 1;
    }
    Ok(row)
}

/// Derives the header row from the schema alone: one cell per output field,
/// in declaration order, each the field's `renamed` if present, else its
/// `source`.
pub fn header_row(schema: &Config) -> (r: Vec<String>)
    ensures
        r@.len() == schema.output.fields@.len(),
        forall|i: int|
            0 <= i < r@.len() ==> (#[trigger] r@[i])@ == spec_header_cell(
                schema.output.fields@[i],
            ),
{
    let outputs = &schema.output.fields;
    let mut r: Vec<String> = Vec::new();
    let mut i: usize = 0;
    while i < outputs.len()
        invariant
            i <= outputs@.len(),
            r@.len() == i,
            forall|j: int| 0 <= j < i ==> (#[trigger] r@[j])@ == spec_header_cell(outputs@[j]),
        decreases outputs@.len() - i,
    {
        let cell = match &outputs[i].renamed {
            Some(renamed) => renamed.clone(),
            None => outputs[i].source.clone(),
        };
        r.push(cell);
        i = i + 1;
    }
    r
}

/// A consistent schema never loses a projection: when every output field's
/// source names a declared input column, a record mapped from a row under
/// that schema has a key for every output field's source, so projecting it
/// cannot fail with a missing source field.
pub proof fn lemma_consistent_schema_covers(
    row: Seq<Seq<char>>,
    fields: Seq<Field>,
    outputs: Seq<OutputField>,
)
    requires
        sources_resolve(outputs, fields),
    ensures
        record_covers(spec_mapped(row, fields), outputs),
{
    lemma_mapped_keys(row, fields);
    assert forall|i: int|
        0 <= i < outputs.len() implies spec_mapped(row, fields).dom().contains(
        #[trigger] outputs[i].source@,
    ) by {
        let j = choose|j: int|
            0 <= j < fields.len() && #[trigger] fields[j].name@ == outputs[i].source@;
        assert(spec_mapped(row, fields).dom().contains(fields[j].name@));
    }
}

} // verus!
