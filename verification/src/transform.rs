//! The transform engine: pure, total string-to-string operations, applied in
//! the order a field's pipeline declares them. Every transform accepts every
//! string and cannot fail: a malformed numeric value passes through
//! `InvertSign` unchanged, and `CommaToDot` touches nothing but commas.

use vstd::prelude::*;
use vstd::string::*;
use crate::schema::Transform;

verus! {

/// Every `,` becomes `.`; all other characters are kept in place.
pub open spec fn spec_comma_to_dot(value: Seq<char>) -> Seq<char> {
    Seq::new(value.len(), |i: int| if value[i] == ',' { '.' } else { value[i] })
}

/// A decimal digit.
pub open spec fn is_digit(c: char) -> bool {
    '0' as u32 <= c as u32 && c as u32 <= '9' as u32
}

/// A decimal separator: the point, or the comma of an export that
/// `CommaToDot` has not run on yet.
pub open spec fn is_separator(c: char) -> bool {
    c == '.' || c == ','
}

/// A well-formed unsigned decimal: digits and at most one separator, which
/// stands neither first nor last. This is the shape `InvertSign` recognizes;
/// every other value counts as malformed.
pub open spec fn is_unsigned_decimal(s: Seq<char>) -> bool {
    &&& s.len() > 0
    &&& forall|i: int| 0 <= i < s.len() ==> is_digit(#[trigger] s[i]) || is_separator(s[i])
    &&& is_digit(s[0])
    &&& is_digit(s[s.len() - 1])
    &&& forall|i: int, j: int|
        #![trigger s[i], s[j]]
        0 <= i < j < s.len() ==> !(is_separator(s[i]) && is_separator(s[j]))
}

/// Toggles the sign of a value that reads as a signed decimal: a leading `-`
/// before a well-formed unsigned decimal is removed, and a bare well-formed
/// unsigned decimal (implicitly positive) gains one. A value with no
/// recognizable sign or number shape passes through unchanged.
pub open spec fn spec_invert_sign(value: Seq<char>) -> Seq<char> {
    if value.len() > 0 && value[0] == '-' && is_unsigned_decimal(value.skip(1)) {
        value.skip(1)
    } else if is_unsigned_decimal(value) {
        seq!['-'] + value
    } else {
        value
    }
}

/// What one transform does to one value.
pub open spec fn spec_transform(t: Transform, value: Seq<char>) -> Seq<char> {
    match t {
        Transform::InvertSign => spec_invert_sign(value),
        Transform::CommaToDot => spec_comma_to_dot(value),
    }
}

/// A pipeline applied left to right, each transform consuming the previous
/// one's output.
pub open spec fn spec_apply(pipeline: Seq<Transform>, value: Seq<char>) -> Seq<char>
    decreases pipeline.len(),
{
    if pipeline.len() == 0 {
        value
    } else {
        spec_apply(pipeline.skip(1), spec_transform(pipeline[0], value))
    }
}

/// Replaces every decimal comma with a decimal point.
fn comma_to_dot(value: &str) -> (r: String)
    ensures
        r@ == spec_comma_to_dot(value@),
{
    let n = value.unicode_len();
    let mut r = String::new();
    let mut i: usize = 0;
    while i < n
        invariant
            n == value@.len(),
            i <= n,
            r@ =~= spec_comma_to_dot(value@.take(i as int)),
        decreases n - i,
    {
        if value.get_char(i) == ',' {
            proof {
                reveal_strlit(".");
            }
            r.append(".");
        } else {
            let c = value.substring_char(i, i + 1);
            r.append(c);
        }
        i = i + 1;
        assert(r@ =~= spec_comma_to_dot(value@.take(i as int)));
    }
    assert(value@.take(n as int) =~= value@);
    r
}

fn is_digit_char(c: char) -> (r: bool)
    ensures
        r == is_digit(c),
{
    let u = c as u32;
    '0' as u32 <= u && u <= '9' as u32
}

fn is_separator_char(c: char) -> (r: bool)
    ensures
        r == is_separator(c),
{
    c == '.' || c == ','
}

/// Decides whether a value is a well-formed unsigned decimal.
fn is_unsigned_decimal_str(value: &str) -> (r: bool)
    ensures
        r == is_unsigned_decimal(value@),
{
    let n = value.unicode_len();
    if n == 0 {
        return false;
    }
    if !is_digit_char(value.get_char(0)) {
        return false;
    }
    if !is_digit_char(value.get_char(n - 1)) {
        return false;
    }
    let mut seen_separator = false;
    let mut i: usize = 0;
    while i < n
        invariant
            n == value@.len(),
            0 < n,
            i <= n,
            is_digit(value@[0]),
            is_digit(value@[n - 1]),
            forall|j: int| 0 <= j < i ==> is_digit(#[trigger] value@[j]) || is_separator(value@[j]),
            seen_separator <==> exists|j: int| 0 <= j < i && is_separator(#[trigger] value@[j]),
            forall|j: int, k: int|
                #![trigger value@[j], value@[k]]
                0 <= j < k < i ==> !(is_separator(value@[j]) && is_separator(value@[k])),
        decreases n - i,
    {
        let c = value.get_char(i);
        if is_separator_char(c) {
            if seen_separator {
                proof {
                    let j = choose|j: int| 0 <= j < i && is_separator(value@[j]);
                    assert(is_separator(value@[j]) && is_separator(value@[i as int]));
                }
                return false;
            }
            seen_separator = true;
        } else if !is_digit_char(c) {
            return false;
        }
        i = i + 1;
    }
    true
}

/// Toggles a leading `-` on a value that reads as a signed decimal; passes a
/// malformed value through unchanged.
fn invert_sign(value: &str) -> (r: String)
    ensures
        r@ == spec_invert_sign(value@),
{
    let n = value.unicode_len();
    if n > 0 && value.get_char(0) == '-' {
        let rest = value.substring_char(1, n);
        assert(rest@ =~= value@.skip(1));
        if is_unsigned_decimal_str(rest) {
            return rest.to_owned();
        }
        // a `-` before something malformed is no unsigned decimal either
        assert(!is_digit(value@[0]));
        return value.to_owned();
    }
    if is_unsigned_decimal_str(value) {
        proof {
            reveal_strlit("-");
        }
        let mut r = String::from_str("-");
        r.append(value);
        assert(r@ =~= seq!['-'] + value@);
        r
    } else {
        value.to_owned()
    }
}

/// Runs one transform on one value.
pub fn apply_transform(t: Transform, value: &str) -> (r: String)
    ensures
        r@ == spec_transform(t, value@),
{
    match t {
        Transform::InvertSign => invert_sign(value),
        Transform::CommaToDot => comma_to_dot(value),
    }
}

/// Applies a whole pipeline, left to right. Total: any string is accepted
/// and some string comes back; there is no failure mode.
pub fn apply(pipeline: &Vec<Transform>, value: &str) -> (r: String)
    ensures
        r@ == spec_apply(pipeline@, value@),
{
    let mut result = value.to_owned();
    let mut i: usize = 0;
    assert(pipeline@.skip(0) =~= pipeline@);
    while i < pipeline.len()
        invariant
            i <= pipeline@.len(),
            spec_apply(pipeline@.skip(i as int), result@) == spec_apply(pipeline@, value@),
        decreases pipeline@.len() - i,
    {
        let stepped = apply_transform(pipeline[i], result.as_str());
        proof {
            assert(pipeline@.skip(i as int)[0] == pipeline@[i as int]);
            assert(pipeline@.skip(i as int).skip(1) =~= pipeline@.skip(i as int + 1));
        }
        result = stepped;
        i = i + 1;
    }
    assert(pipeline@.skip(pipeline@.len() as int) =~= Seq::<Transform>::empty());
    result
}

/// A pipeline of one transform does exactly what that transform does.
pub proof fn lemma_apply_one(t: Transform, value: Seq<char>)
    ensures
        spec_apply(seq![t], value) == spec_transform(t, value),
{
    let p = seq![t];
    assert(p[0] == t);
    assert(p.skip(1) =~= Seq::<Transform>::empty());
    assert(spec_apply(p, value) == spec_apply(p.skip(1), spec_transform(t, value)));
}

/// A pipeline of two transforms composes them left to right.
pub proof fn lemma_apply_two(t1: Transform, t2: Transform, value: Seq<char>)
    ensures
        spec_apply(seq![t1, t2], value) == spec_transform(t2, spec_transform(t1, value)),
{
    let p = seq![t1, t2];
    assert(p[0] == t1);
    assert(p.skip(1) =~= seq![t2]);
    assert(spec_apply(p, value) == spec_apply(seq![t2], spec_transform(t1, value)));
    lemma_apply_one(t2, spec_transform(t1, value));
}

/// Pipelines compose: running one pipeline and then another, as the mapper
/// and the projector do in turn, is running their concatenation.
pub proof fn lemma_apply_append(p1: Seq<Transform>, p2: Seq<Transform>, value: Seq<char>)
    ensures
        spec_apply(p1 + p2, value) == spec_apply(p2, spec_apply(p1, value)),
    decreases p1.len(),
{
    if p1.len() == 0 {
        assert(p1 + p2 =~= p2);
    } else {
        assert((p1 + p2)[0] == p1[0]);
        assert((p1 + p2).skip(1) =~= p1.skip(1) + p2);
        lemma_apply_append(p1.skip(1), p2, spec_transform(p1[0], value));
    }
}

/// Replacing commas is idempotent: running `CommaToDot` twice leaves exactly
/// what one run leaves, for every value.
pub proof fn lemma_comma_to_dot_idempotent(value: Seq<char>)
    ensures
        spec_apply(seq![Transform::CommaToDot, Transform::CommaToDot], value)
            == spec_apply(seq![Transform::CommaToDot], value),
{
    lemma_apply_two(Transform::CommaToDot, Transform::CommaToDot, value);
    lemma_apply_one(Transform::CommaToDot, value);
    assert(spec_comma_to_dot(spec_comma_to_dot(value)) =~= spec_comma_to_dot(value));
}

/// Toggling the sign is an involution: running `InvertSign` twice gives
/// every value back, whether or not it reads as a decimal.
pub proof fn lemma_invert_sign_involution(value: Seq<char>)
    ensures
        spec_apply(seq![Transform::InvertSign, Transform::InvertSign], value) == value,
{
    lemma_apply_two(Transform::InvertSign, Transform::InvertSign, value);
    let flipped = spec_invert_sign(value);
    if value.len() > 0 && value[0] == '-' && is_unsigned_decimal(value.skip(1)) {
        // the remainder starts with a digit, so no `-` is stripped again
        assert(is_digit(flipped[0]));
        assert(seq!['-'] + flipped =~= value);
    } else if is_unsigned_decimal(value) {
        // the gained `-` is stripped again from the unchanged remainder
        assert(flipped.skip(1) =~= value);
    }
    // a malformed value passes through twice
}

} // verus!
