use bank_parser::schema::Transform;
use bank_parser::transform::{apply, apply_transform};

#[test]
fn comma_to_dot_replaces_every_comma() {
    assert_eq!(apply_transform(Transform::CommaToDot, "1,2,3"), "1.2.3");
    assert_eq!(apply_transform(Transform::CommaToDot, "12,50"), "12.50");
    assert_eq!(apply_transform(Transform::CommaToDot, "no commas"), "no commas");
}

#[test]
fn comma_to_dot_on_empty_value() {
    assert_eq!(apply_transform(Transform::CommaToDot, ""), "");
}

#[test]
fn invert_sign_makes_unsigned_value_negative() {
    assert_eq!(apply_transform(Transform::InvertSign, "12.50"), "-12.50");
    assert_eq!(apply_transform(Transform::InvertSign, "0"), "-0");
    assert_eq!(apply_transform(Transform::InvertSign, "3,00"), "-3,00");
}

#[test]
fn invert_sign_removes_a_leading_minus() {
    assert_eq!(apply_transform(Transform::InvertSign, "-3"), "3");
    assert_eq!(apply_transform(Transform::InvertSign, "-12.50"), "12.50");
}

#[test]
fn invert_sign_passes_malformed_values_through() {
    for value in ["", "-", "abc", "N/A", "-abc", "--5", "1.2.3", "12.", ".5", "1 2"] {
        assert_eq!(apply_transform(Transform::InvertSign, value), value);
    }
}

#[test]
fn empty_pipeline_is_the_identity() {
    let pipeline: Vec<Transform> = vec![];
    assert_eq!(apply(&pipeline, "12,50"), "12,50");
    assert_eq!(apply(&pipeline, ""), "");
}

#[test]
fn comma_to_dot_twice_equals_comma_to_dot_once() {
    let twice = vec![Transform::CommaToDot, Transform::CommaToDot];
    let once = vec![Transform::CommaToDot];
    for value in ["1,5", "1.5", "", "a,b,c", "-,-"] {
        assert_eq!(apply(&twice, value), apply(&once, value));
    }
}

#[test]
fn invert_sign_twice_gives_the_value_back() {
    let twice = vec![Transform::InvertSign, Transform::InvertSign];
    for value in ["12.50", "-3", "", "-", "abc", "3,00", "N/A", "--5", "1.2.3"] {
        assert_eq!(apply(&twice, value), value);
    }
}

#[test]
fn pipeline_chains_transforms() {
    let pipeline = vec![Transform::CommaToDot, Transform::InvertSign];
    assert_eq!(apply(&pipeline, "12,50"), "-12.50");
    assert_eq!(apply(&pipeline, "-12,50"), "12.50");
}
