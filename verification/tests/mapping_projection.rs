use bank_parser::mapper::map_record;
use bank_parser::projector::{header_row, project_record};
use bank_parser::record::{BankField, BankRecord};
use bank_parser::schema::{ColumnType, Config, Field, Input, Output, OutputField, Transform};

fn amount_only_schema() -> Config {
    Config {
        input: Input {
            delimiter: ',',
            fields: vec![
                Field {
                    name: "amt".to_string(),
                    column_type: ColumnType::MonetaryValue,
                    pipeline: vec![Transform::CommaToDot],
                },
            ],
        },
        output: Output {
            delimiter: ';',
            with_header: true,
            fields: vec![
                OutputField {
                    source: "amt".to_string(),
                    renamed: Some("amount".to_string()),
                    pipeline: vec![Transform::InvertSign],
                },
            ],
        },
    }
}

fn id_and_amount_schema() -> Config {
    Config {
        input: Input {
            delimiter: ',',
            fields: vec![
                Field {
                    name: "id".to_string(),
                    column_type: ColumnType::Identifier,
                    pipeline: vec![],
                },
                Field {
                    name: "amt".to_string(),
                    column_type: ColumnType::MonetaryValue,
                    pipeline: vec![Transform::CommaToDot],
                },
            ],
        },
        output: Output {
            delimiter: ',',
            with_header: false,
            fields: vec![
                OutputField {
                    source: "amt".to_string(),
                    renamed: None,
                    pipeline: vec![],
                },
                OutputField {
                    source: "id".to_string(),
                    renamed: None,
                    pipeline: vec![],
                },
            ],
        },
    }
}

#[test]
fn map_yields_one_field_per_declaration() {
    let schema = id_and_amount_schema();
    let row = vec!["7".to_string(), "3,00".to_string()];
    let record = map_record(&row, &schema).unwrap();
    let id = record.get(&"id".to_string()).unwrap();
    assert_eq!(id.name, "id");
    assert_eq!(id.value, "7");
    let amt = record.get(&"amt".to_string()).unwrap();
    assert_eq!(amt.name, "amt");
    assert_eq!(amt.value, "3.00");
    assert!(record.get(&"other".to_string()).is_none());
    // each field carries the schema's declaration of its column
    assert_eq!(id.field.name, "id");
    assert_eq!(id.field.column_type, ColumnType::Identifier);
    assert_eq!(id.field.pipeline, vec![]);
    assert_eq!(amt.field.name, "amt");
    assert_eq!(amt.field.column_type, ColumnType::MonetaryValue);
    assert_eq!(amt.field.pipeline, vec![Transform::CommaToDot]);
}

#[test]
fn map_tolerates_extra_cells() {
    let schema = id_and_amount_schema();
    let row = vec!["7".to_string(), "3,00".to_string(), "spare".to_string()];
    let record = map_record(&row, &schema).unwrap();
    assert_eq!(record.get(&"id".to_string()).unwrap().value, "7");
}

#[test]
fn map_rejects_a_short_row() {
    let schema = id_and_amount_schema();
    let row = vec!["7".to_string()];
    let err = map_record(&row, &schema).unwrap_err();
    assert_eq!(err.index, 1);
    let empty: Vec<String> = vec![];
    let err = map_record(&empty, &schema).unwrap_err();
    assert_eq!(err.index, 0);
}

#[test]
fn later_field_shadows_earlier_one() {
    let declaration = Field {
        name: "x".to_string(),
        column_type: ColumnType::Description,
        pipeline: vec![],
    };
    let mut record = BankRecord::new();
    record.add_field(BankField {
        name: "x".to_string(),
        field: declaration.clone(),
        value: "first".to_string(),
    });
    record.add_field(BankField {
        name: "x".to_string(),
        field: declaration,
        value: "second".to_string(),
    });
    assert_eq!(record.get(&"x".to_string()).unwrap().value, "second");
}

#[test]
fn project_applies_output_pipelines_in_declared_order() {
    let schema = amount_only_schema();
    let row = vec!["12,50".to_string()];
    let record = map_record(&row, &schema).unwrap();
    assert_eq!(record.get(&"amt".to_string()).unwrap().value, "12.50");
    let out = project_record(&record, &schema).unwrap();
    assert_eq!(out, vec!["-12.50".to_string()]);
    assert_eq!(header_row(&schema), vec!["amount".to_string()]);
}

#[test]
fn project_reorders_columns() {
    let schema = id_and_amount_schema();
    let row = vec!["7".to_string(), "3,00".to_string()];
    let record = map_record(&row, &schema).unwrap();
    let out = project_record(&record, &schema).unwrap();
    assert_eq!(out, vec!["3.00".to_string(), "7".to_string()]);
}

#[test]
fn project_fails_for_every_row_on_an_undeclared_source() {
    let mut schema = amount_only_schema();
    schema.output.fields.push(OutputField {
        source: "missing".to_string(),
        renamed: None,
        pipeline: vec![],
    });
    for raw in ["12,50", "1,00"] {
        let row = vec![raw.to_string()];
        let record = map_record(&row, &schema).unwrap();
        let err = project_record(&record, &schema).unwrap_err();
        assert_eq!(err.source, "missing");
    }
}

#[test]
fn header_uses_renamed_where_present_else_source() {
    let mut schema = id_and_amount_schema();
    schema.output.fields[0].renamed = Some("amount".to_string());
    let header = header_row(&schema);
    assert_eq!(header, vec!["amount".to_string(), "id".to_string()]);
}

#[test]
fn header_length_matches_output_declarations() {
    let schema = id_and_amount_schema();
    assert_eq!(header_row(&schema).len(), schema.output.fields.len());
    let no_outputs = Config {
        input: schema.input,
        output: Output { delimiter: ',', with_header: true, fields: vec![] },
    };
    assert_eq!(header_row(&no_outputs).len(), 0);
}
