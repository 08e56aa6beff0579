//! The record mapper: turns one tokenized source row into a named-field
//! record, running each cell through its declaration's transform pipeline.

use vstd::prelude::*;
use crate::record::{BankField, BankRecord};
use crate::schema::{declares_name, unique_field_names, ColumnType, Config, Field, Transform};
use crate::transform::{apply, spec_apply};

verus! {

/// A tokenized row has fewer cells than the schema declares input columns;
/// `index` is the first column index the row has no cell for. A short row is
/// never mapped to empty or default values.
#[derive(Debug)]
pub struct RowArityError {
    pub index: usize,
}

/// The record a row maps to: for the declaration at position `i`, the
/// declared name keys cell `i` of the row run through the declaration's own
/// pipeline. Meaningful when the row has a cell for every declaration.
pub open spec fn spec_mapped(row: Seq<Seq<char>>, fields: Seq<Field>) -> Map<Seq<char>, Seq<char>>
    decreases fields.len(),
{
    if fields.len() == 0 {
        Map::empty()
    } else {
        spec_mapped(row, fields.drop_last()).insert(
            fields.last().name@,
            spec_apply(fields.last().pipeline@, row[fields.len() - 1]),
        )
    }
}

/// The declarations such a record carries: for the declaration at position
/// `i`, its own view, keyed by its name.
pub open spec fn spec_mapped_decls(fields: Seq<Field>) -> Map<
    Seq<char>,
    (Seq<char>, ColumnType, Seq<Transform>),
>
    decreases fields.len(),
{
    if fields.len() == 0 {
        Map::empty()
    } else {
        spec_mapped_decls(fields.drop_last()).insert(fields.last().name@, fields.last()@)
    }
}

/// Maps one tokenized row into a named-field record under the schema's input
/// declarations: each field holds its cell's transformed value together with
/// the schema's declaration of that field. Succeeds exactly when the row has
/// at least as many cells as there are declarations; a shorter row is
/// reported with the first missing column index.
pub fn map_record(row: &Vec<String>, schema: &Config) -> (r: Result<BankRecord, RowArityError>)
    ensures
        row@.len() >= schema.input.fields@.len() ==> (r matches Ok(rec)
            && rec@ == spec_mapped(row.deep_view(), schema.input.fields@)
            && rec.declarations() == spec_mapped_decls(schema.input.fields@)),
        row@.len() < schema.input.fields@.len() ==> (r matches Err(e)
            && e.index == row@.len()),
{
    let fields = &schema.input.fields;
    if row.len() < fields.len() {
        return Err(RowArityError { index: row.len() });
    }
    let mut rec = BankRecord::new();
    let mut i: usize = 0;
    while i < fields.len()
        invariant
            row@.len() >= fields@.len(),
            i <= fields@.len(),
            rec@ == spec_mapped(row.deep_view(), fields@.take(i as int)),
            rec.declarations() == spec_mapped_decls(fields@.take(i as int)),
        decreases fields@.len() - i,
    {
        let f = &fields[i];
        let value = apply(&f.pipeline, row[i].as_str());
        rec.add_field(BankField { name: f.name.clone(), field: f.clone(), value });
        proof {
            assert(fields@.take(i as int + 1).drop_last() =~= fields@.take(i as int));
            assert(fields@.take(i as int + 1).last() == fields@[i as int]);
            assert(row.deep_view()[i as int] == row@[i as int]@);
        }
        i = i + 1;
    }
    proof {
        assert(fields@.take(fields@.len() as int) =~= fields@);
    }
    Ok(rec)
}

/// A mapped record holds a key for every declared input field name, and no
/// other key; with unique input field names it holds exactly one key per
/// declaration.
pub proof fn lemma_mapped_keys(row: Seq<Seq<char>>, fields: Seq<Field>)
    ensures
        spec_mapped(row, fields).dom().finite(),
        forall|i: int|
            0 <= i < fields.len() ==> spec_mapped(row, fields).dom().contains(
                #[trigger] fields[i].name@,
            ),
        forall|n: Seq<char>|
            #[trigger] spec_mapped(row, fields).dom().contains(n) ==> declares_name(fields, n),
        unique_field_names(fields) ==> spec_mapped(row, fields).dom().len() == fields.len(),
    decreases fields.len(),
{
    if fields.len() > 0 {
        let prefix = fields.drop_last();
        lemma_mapped_keys(row, prefix);
        assert(forall|i: int| 0 <= i < prefix.len() ==> prefix[i] == #[trigger] fields[i]);
        assert forall|n: Seq<char>| #[trigger] spec_mapped(row, fields).dom().contains(n)
            implies declares_name(fields, n) by {
            if n == fields.last().name@ {
                assert(fields[fields.len() - 1].name@ == n);
            } else {
                let j = choose|j: int| 0 <= j < prefix.len() && #[trigger] prefix[j].name@ == n;
                assert(fields[j].name@ == n);
            }
        }
        if unique_field_names(fields) {
            assert(unique_field_names(prefix));
            let last_name = fields.last().name@;
            assert(!spec_mapped(row, prefix).dom().contains(last_name)) by {
                if spec_mapped(row, prefix).dom().contains(last_name) {
                    let j = choose|j: int|
                        0 <= j < prefix.len() && #[trigger] prefix[j].name@ == last_name;
                    assert(fields[j].name@ == fields[fields.len() - 1].name@);
                }
            }
            assert(spec_mapped(row, fields).dom() =~= spec_mapped(row, prefix).dom().insert(
                last_name,
            ));
            assert(spec_mapped(row, prefix).dom().insert(last_name).len() == spec_mapped(
                row,
                prefix,
            ).dom().len() + 1);
        }
    }
}

} // verus!
