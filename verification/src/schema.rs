//! The schema model: a read-only description of the input column list and
//! the output field list, together with the delimiters and the header flag.
//! The schema is constructed once by the caller (from configuration) and is
//! treated as immutable afterwards; no component here mutates it.

use vstd::prelude::*;

verus! {

/// Semantic tag of an input column. Purely descriptive at this stage: it
/// does not alter parsing, but is carried forward so that future transforms
/// or validators can dispatch on it.
#[derive(Clone, Copy, Debug, PartialEq, Eq, Structural)]
pub enum ColumnType {
    Identifier,
    Date,
    MonetaryValue,
    Merchant,
    Category,
    Description,
}

/// A named, parameterless, pure string-to-string operation. A field declares
/// an ordered sequence of these; they are applied left to right.
#[derive(Clone, Copy, Debug, PartialEq, Eq, Structural)]
pub enum Transform {
    /// Toggles a leading `-` on a value that reads as a signed decimal;
    /// passes any other value through unchanged.
    InvertSign,
    /// Replaces every `,` with `.`.
    CommaToDot,
}

/// One positional column of the source file: its unique name, its semantic
/// type, and the transforms applied to its raw cell during mapping. The
/// position in the schema's field list is the column's index in a source row.
#[derive(Debug)]
pub struct Field {
    pub name: String,
    pub column_type: ColumnType,
    pub pipeline: Vec<Transform>,
}

impl View for Field {
    type V = (Seq<char>, ColumnType, Seq<Transform>);

    /// What a declaration says: its name, its semantic type, its pipeline.
    open spec fn view(&self) -> (Seq<char>, ColumnType, Seq<Transform>) {
        (self.name@, self.column_type, self.pipeline@)
    }
}

impl Clone for Field {
    /// The clone declares the same column: same name, type and pipeline.
    fn clone(&self) -> (r: Self)
        ensures
            r@ == self@,
    {
        let pipeline = self.pipeline.clone();
        proof {
            assert(pipeline@ =~= self.pipeline@);
        }
        Field { name: self.name.clone(), column_type: self.column_type, pipeline }
    }
}

/// One positional column of the output file: the name of the input field it
/// draws from, an optional new name for the header, and the transforms
/// applied on top of the input field's own pipeline.
#[derive(Clone, Debug)]
pub struct OutputField {
    pub source: String,
    pub renamed: Option<String>,
    pub pipeline: Vec<Transform>,
}

/// The input side of the schema: the cell delimiter of the source file and
/// the ordered input column declarations.
#[derive(Clone, Debug)]
pub struct Input {
    pub delimiter: char,
    pub fields: Vec<Field>,
}

/// The output side of the schema: the cell delimiter of the target file,
/// whether a header row is emitted, and the ordered output columns.
#[derive(Clone, Debug)]
pub struct Output {
    pub delimiter: char,
    pub with_header: bool,
    pub fields: Vec<OutputField>,
}

/// The whole schema. No validation happens here: the caller guarantees that
/// input field names are unique and that every output `source` names a
/// declared input field; the mapper and projector report the violations they
/// can observe per row.
#[derive(Clone, Debug)]
pub struct Config {
    pub input: Input,
    pub output: Output,
}

/// No two input columns declare the same name.
pub open spec fn unique_field_names(fields: Seq<Field>) -> bool {
    forall|i: int, j: int|
        0 <= i < j < fields.len() ==> fields[i].name@ != fields[j].name@
}

/// Some input column declares this name.
pub open spec fn declares_name(fields: Seq<Field>, name: Seq<char>) -> bool {
    exists|j: int| 0 <= j < fields.len() && #[trigger] fields[j].name@ == name
}

/// Every output field draws from a declared input column.
pub open spec fn sources_resolve(outputs: Seq<OutputField>, fields: Seq<Field>) -> bool {
    forall|i: int|
        0 <= i < outputs.len() ==> declares_name(fields, #[trigger] outputs[i].source@)
}

} // verus!
