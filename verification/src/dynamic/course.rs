//! The course of a check.
//!
//! A check visits values and types in a fixed order. Before each visit it looks
//! at the two limits, the nesting first, and it ends with the first error that it
//! meets, a limit's or another. Whether two schemas are one object it has to ask;
//! so its course is a function of what is checked and of the answers, in the order
//! of the questions.

use crate::dynamic::error::ErrorView;
use crate::dynamic::schema::{FieldView, MessageView, SchemaView, TypeView, ValueView};
use crate::dynamic::validate::{
    element_path, fields_equal, fields_work, joined, length_violation, nesting_error,
    schemas_equal, schemas_work, type_label_text, types_equal, types_work, values_error, violation,
    MAX_DYNAMIC_DEPTH,
};
use vstd::prelude::*;

verus! {

/// A question whether two schemas are one object, with its answer.
#[verifier::ext_equal]
pub struct Question {
    pub expected: SchemaView,
    pub actual: SchemaView,
    pub same: bool,
}

/// Where a check stands: what came of it, how many values may still be visited,
/// and the questions that it has not put. Whether the questions were those that it
/// had to put.
#[verifier::ext_equal]
pub struct Course<R> {
    pub result: R,
    pub left: nat,
    pub rest: Seq<Question>,
    pub fits: bool,
}

/// A check that ended and put all questions.
pub open spec fn ended<R>(result: R, left: nat) -> Course<R> {
    Course { result, left, rest: Seq::empty(), fits: true }
}

/// What a visit at `depth` with `left` values left fails with, if it does.
pub open spec fn limit_hit(depth: nat, left: nat) -> Option<ErrorView> {
    if depth > MAX_DYNAMIC_DEPTH {
        Some(nesting_error())
    } else if left == 0 {
        Some(values_error())
    } else {
        None
    }
}

/// The course of comparing two types.
pub open spec fn compare_types(
    e: TypeView,
    a: TypeView,
    depth: nat,
    left: nat,
    asked: Seq<Question>,
) -> Course<Result<bool, ErrorView>>
    decreases e, 0int,
{
    if limit_hit(depth, left) is Some {
        Course { result: Err(limit_hit(depth, left).unwrap()), left, rest: asked, fits: true }
    } else {
        let left = (left - 1) as nat;
        match (e, a) {
            (TypeView::Message(es), TypeView::Message(a_s)) => compare_schemas(
                *es,
                *a_s,
                depth + 1,
                left,
                asked,
            ),
            (TypeView::Array(et, n), TypeView::Array(at, m)) if n == m => compare_types(
                *et,
                *at,
                depth + 1,
                left,
                asked,
            ),
            (TypeView::Sequence(et), TypeView::Sequence(at)) => compare_types(
                *et,
                *at,
                depth + 1,
                left,
                asked,
            ),
            (TypeView::BoundedSequence(et, n), TypeView::BoundedSequence(at, m)) if n == m => {
                compare_types(*et, *at, depth + 1, left, asked)
            },
            _ => Course { result: Ok(types_equal(e, a)), left, rest: asked, fits: true },
        }
    }
}

/// The course of comparing two schemas: one object equals itself, and otherwise
/// names and fields are compared up to the first difference.
pub open spec fn compare_schemas(
    e: SchemaView,
    a: SchemaView,
    depth: nat,
    left: nat,
    asked: Seq<Question>,
) -> Course<Result<bool, ErrorView>>
    decreases e, 0int,
{
    if limit_hit(depth, left) is Some {
        Course { result: Err(limit_hit(depth, left).unwrap()), left, rest: asked, fits: true }
    } else {
        let left = (left - 1) as nat;
        let rest = asked.skip(1);
        if asked.len() == 0 || asked[0].expected != e || asked[0].actual != a {
            Course { result: Ok(false), left, rest: asked, fits: false }
        } else if asked[0].same {
            Course { result: Ok(true), left, rest, fits: true }
        } else if e.full_name != a.full_name || e.fields.len() != a.fields.len() {
            Course { result: Ok(false), left, rest, fits: true }
        } else {
            compare_fields(e.fields, a.fields, 0, depth + 1, left, rest)
        }
    }
}

/// The course of comparing two lists of fields from index `i` on.
pub open spec fn compare_fields(
    es: Seq<FieldView>,
    a_s: Seq<FieldView>,
    i: nat,
    depth: nat,
    left: nat,
    asked: Seq<Question>,
) -> Course<Result<bool, ErrorView>>
    decreases es, es.len() - i,
{
    if i >= es.len() {
        Course { result: Ok(true), left, rest: asked, fits: true }
    } else if es[i as int].name != a_s[i as int].name {
        Course { result: Ok(false), left, rest: asked, fits: true }
    } else {
        let first = compare_types(
            es[i as int].field_type,
            a_s[i as int].field_type,
            depth,
            left,
            asked,
        );
        if first.fits && first.result == Ok::<bool, ErrorView>(true) {
            compare_fields(es, a_s, i + 1, depth, first.left, first.rest)
        } else {
            first
        }
    }
}

/// Whether the elements of `vs` are looked at where they are to be a `t`: there
/// are as many as there may be.
pub open spec fn elements_matter(t: TypeView, len: nat, path: Seq<char>) -> bool {
    match t {
        TypeView::Array(_, n) => len == n,
        TypeView::Sequence(_) => length_violation(len, path) is None,
        TypeView::BoundedSequence(_, max) => length_violation(len, path) is None && len <= max,
        _ => false,
    }
}

/// The type of the elements of an array or a sequence.
pub open spec fn element_type(t: TypeView) -> TypeView {
    match t {
        TypeView::Array(e, _) => *e,
        TypeView::Sequence(e) => *e,
        TypeView::BoundedSequence(e, _) => *e,
        _ => t,
    }
}

/// The course of checking value `v` at `path`, which is to be a `t`.
pub open spec fn check_value(
    t: TypeView,
    v: ValueView,
    path: Seq<char>,
    depth: nat,
    left: nat,
    asked: Seq<Question>,
) -> Course<Option<ErrorView>>
    decreases v, 0int,
{
    if limit_hit(depth, left) is Some {
        Course { result: limit_hit(depth, left), left, rest: asked, fits: true }
    } else {
        let left = (left - 1) as nat;
        match (t, v) {
            (_, ValueView::Array(vs)) if elements_matter(t, vs.len(), path) => check_elements(
                element_type(t),
                vs,
                path,
                0,
                depth + 1,
                left,
                asked,
            ),
            (TypeView::Message(s), ValueView::Message(m)) => {
                let compared = compare_schemas(*s, m.schema, depth + 1, left, asked);
                match compared.result {
                    Ok(true) if compared.fits => check_message(
                        *s,
                        *m,
                        path,
                        depth + 1,
                        compared.left,
                        compared.rest,
                    ),
                    Ok(_) => Course {
                        result: Some(
                            ErrorView::TypeMismatch { path, expected: type_label_text(t) },
                        ),
                        left: compared.left,
                        rest: compared.rest,
                        fits: compared.fits,
                    },
                    Err(e) => Course {
                        result: Some(e),
                        left: compared.left,
                        rest: compared.rest,
                        fits: compared.fits,
                    },
                }
            },
            _ => Course { result: violation(t, v, path), left, rest: asked, fits: true },
        }
    }
}

/// The course of checking the elements of `vs` from index `i` on.
pub open spec fn check_elements(
    t: TypeView,
    vs: Seq<ValueView>,
    path: Seq<char>,
    i: nat,
    depth: nat,
    left: nat,
    asked: Seq<Question>,
) -> Course<Option<ErrorView>>
    decreases vs, vs.len() - i,
{
    if i >= vs.len() {
        Course { result: None, left, rest: asked, fits: true }
    } else {
        let first = check_value(t, vs[i as int], element_path(path, i), depth, left, asked);
        if first.fits && first.result is None {
            check_elements(t, vs, path, i + 1, depth, first.left, first.rest)
        } else {
            first
        }
    }
}

/// The course of checking message `m` at `path` against schema `s`.
pub open spec fn check_message(
    s: SchemaView,
    m: MessageView,
    path: Seq<char>,
    depth: nat,
    left: nat,
    asked: Seq<Question>,
) -> Course<Option<ErrorView>>
    decreases m, 0int,
{
    if depth > MAX_DYNAMIC_DEPTH {
        Course { result: Some(nesting_error()), left, rest: asked, fits: true }
    } else if s.fields.len() != m.values.len() {
        Course {
            result: Some(
                ErrorView::WrongArrayLength {
                    path,
                    expected: s.fields.len(),
                    actual: m.values.len(),
                },
            ),
            left,
            rest: asked,
            fits: true,
        }
    } else {
        check_fields(s.fields, m.values, path, 0, depth, left, asked)
    }
}

/// The course of checking the fields from index `i` on.
pub open spec fn check_fields(
    fields: Seq<FieldView>,
    vs: Seq<ValueView>,
    path: Seq<char>,
    i: nat,
    depth: nat,
    left: nat,
    asked: Seq<Question>,
) -> Course<Option<ErrorView>>
    decreases vs, vs.len() - i,
{
    if i >= vs.len() {
        Course { result: None, left, rest: asked, fits: true }
    } else {
        let first = check_value(
            fields[i as int].field_type,
            vs[i as int],
            joined(path, fields[i as int].name),
            depth,
            left,
            asked,
        );
        if first.fits && first.result is None {
            check_fields(fields, vs, path, i + 1, depth, first.left, first.rest)
        } else {
            first
        }
    }
}

/// A course `c` with `more` questions that it does not come to.
pub open spec fn followed<R>(c: Course<R>, more: Seq<Question>) -> Course<R> {
    Course { rest: c.rest + more, ..c }
}

/// What comparing types asks does not depend on what is asked after.
pub proof fn compare_types_followed(
    e: TypeView,
    a: TypeView,
    depth: nat,
    left: nat,
    asked: Seq<Question>,
    more: Seq<Question>,
)
    requires
        compare_types(e, a, depth, left, asked).fits,
    ensures
        compare_types(e, a, depth, left, asked + more) == followed(
            compare_types(e, a, depth, left, asked),
            more,
        ),
    decreases e, 0int,
{
    if limit_hit(depth, left) is None {
        let left = (left - 1) as nat;
        match (e, a) {
            (TypeView::Message(es), TypeView::Message(a_s)) => {
                compare_schemas_followed(*es, *a_s, depth + 1, left, asked, more);
            },
            (TypeView::Array(et, n), TypeView::Array(at, m)) => {
                if n == m {
                    compare_types_followed(*et, *at, depth + 1, left, asked, more);
                }
            },
            (TypeView::Sequence(et), TypeView::Sequence(at)) => {
                compare_types_followed(*et, *at, depth + 1, left, asked, more);
            },
            (TypeView::BoundedSequence(et, n), TypeView::BoundedSequence(at, m)) => {
                if n == m {
                    compare_types_followed(*et, *at, depth + 1, left, asked, more);
                }
            },
            _ => {},
        }
    }
}

/// What comparing schemas asks does not depend on what is asked after.
pub proof fn compare_schemas_followed(
    e: SchemaView,
    a: SchemaView,
    depth: nat,
    left: nat,
    asked: Seq<Question>,
    more: Seq<Question>,
)
    requires
        compare_schemas(e, a, depth, left, asked).fits,
    ensures
        compare_schemas(e, a, depth, left, asked + more) == followed(
            compare_schemas(e, a, depth, left, asked),
            more,
        ),
    decreases e, 0int,
{
    if limit_hit(depth, left) is None {
        assert((asked + more).skip(1) =~= asked.skip(1) + more);
        if !asked[0].same && e.full_name == a.full_name && e.fields.len() == a.fields.len() {
            compare_fields_followed(
                e.fields,
                a.fields,
                0,
                depth + 1,
                (left - 1) as nat,
                asked.skip(1),
                more,
            );
        }
    }
}

proof fn compare_fields_followed(
    es: Seq<FieldView>,
    a_s: Seq<FieldView>,
    i: nat,
    depth: nat,
    left: nat,
    asked: Seq<Question>,
    more: Seq<Question>,
)
    requires
        compare_fields(es, a_s, i, depth, left, asked).fits,
    ensures
        compare_fields(es, a_s, i, depth, left, asked + more) == followed(
            compare_fields(es, a_s, i, depth, left, asked),
            more,
        ),
    decreases es, es.len() - i,
{
    if i < es.len() && es[i as int].name == a_s[i as int].name {
        let (e, a) = (es[i as int].field_type, a_s[i as int].field_type);
        let first = compare_types(e, a, depth, left, asked);
        compare_types_followed(e, a, depth, left, asked, more);
        if first.result == Ok::<bool, ErrorView>(true) {
            compare_fields_followed(es, a_s, i + 1, depth, first.left, first.rest, more);
        }
    }
}

/// What checking a value asks does not depend on what is asked after.
pub proof fn check_value_followed(
    t: TypeView,
    v: ValueView,
    path: Seq<char>,
    depth: nat,
    left: nat,
    asked: Seq<Question>,
    more: Seq<Question>,
)
    requires
        check_value(t, v, path, depth, left, asked).fits,
    ensures
        check_value(t, v, path, depth, left, asked + more) == followed(
            check_value(t, v, path, depth, left, asked),
            more,
        ),
    decreases v, 0int,
{
    if limit_hit(depth, left) is None {
        let left = (left - 1) as nat;
        match (t, v) {
            (TypeView::Message(s), ValueView::Message(m)) => {
                let compared = compare_schemas(*s, m.schema, depth + 1, left, asked);
                compare_schemas_followed(*s, m.schema, depth + 1, left, asked, more);
                if compared.result == Ok::<bool, ErrorView>(true) {
                    check_message_followed(
                        *s,
                        *m,
                        path,
                        depth + 1,
                        compared.left,
                        compared.rest,
                        more,
                    );
                }
            },
            (_, ValueView::Array(vs)) => {
                if elements_matter(t, vs.len(), path) {
                    check_elements_followed(
                        element_type(t),
                        vs,
                        path,
                        0,
                        depth + 1,
                        left,
                        asked,
                        more,
                    );
                }
            },
            _ => {},
        }
    }
}

proof fn check_elements_followed(
    t: TypeView,
    vs: Seq<ValueView>,
    path: Seq<char>,
    i: nat,
    depth: nat,
    left: nat,
    asked: Seq<Question>,
    more: Seq<Question>,
)
    requires
        check_elements(t, vs, path, i, depth, left, asked).fits,
    ensures
        check_elements(t, vs, path, i, depth, left, asked + more) == followed(
            check_elements(t, vs, path, i, depth, left, asked),
            more,
        ),
    decreases vs, vs.len() - i,
{
    if i < vs.len() {
        let here = element_path(path, i);
        let first = check_value(t, vs[i as int], here, depth, left, asked);
        check_value_followed(t, vs[i as int], here, depth, left, asked, more);
        if first.result is None {
            check_elements_followed(t, vs, path, i + 1, depth, first.left, first.rest, more);
        }
    }
}

proof fn check_message_followed(
    s: SchemaView,
    m: MessageView,
    path: Seq<char>,
    depth: nat,
    left: nat,
    asked: Seq<Question>,
    more: Seq<Question>,
)
    requires
        check_message(s, m, path, depth, left, asked).fits,
    ensures
        check_message(s, m, path, depth, left, asked + more) == followed(
            check_message(s, m, path, depth, left, asked),
            more,
        ),
    decreases m, 0int,
{
    if depth <= MAX_DYNAMIC_DEPTH && s.fields.len() == m.values.len() {
        check_fields_followed(s.fields, m.values, path, 0, depth, left, asked, more);
    }
}

proof fn check_fields_followed(
    fields: Seq<FieldView>,
    vs: Seq<ValueView>,
    path: Seq<char>,
    i: nat,
    depth: nat,
    left: nat,
    asked: Seq<Question>,
    more: Seq<Question>,
)
    requires
        check_fields(fields, vs, path, i, depth, left, asked).fits,
    ensures
        check_fields(fields, vs, path, i, depth, left, asked + more) == followed(
            check_fields(fields, vs, path, i, depth, left, asked),
            more,
        ),
    decreases vs, vs.len() - i,
{
    if i < vs.len() {
        let t = fields[i as int].field_type;
        let here = joined(path, fields[i as int].name);
        let first = check_value(t, vs[i as int], here, depth, left, asked);
        check_value_followed(t, vs[i as int], here, depth, left, asked, more);
        if first.result is None {
            check_fields_followed(fields, vs, path, i + 1, depth, first.left, first.rest, more);
        }
    }
}

/// Whether every question was answered with no.
pub open spec fn all_apart(asked: Seq<Question>) -> bool {
    forall|i: int| 0 <= i < asked.len() ==> !(#[trigger] asked[i]).same
}

/// Two schemas are accepted without comparing all of both only where two of those
/// compared are one object: otherwise a comparison that ends has done all its work,
/// within the limits.
pub proof fn schemas_apart_are_compared_in_full(
    e: SchemaView,
    a: SchemaView,
    depth: nat,
    left: nat,
    asked: Seq<Question>,
)
    requires
        all_apart(asked),
        compare_schemas(e, a, depth, left, asked).fits,
        compare_schemas(e, a, depth, left, asked).result is Ok,
    ensures
        ({
            let c = compare_schemas(e, a, depth, left, asked);
            let work = schemas_work(false, e, a);
            &&& c.result == Ok::<bool, ErrorView>(schemas_equal(e, a))
            &&& left == c.left + work.values
            &&& depth + work.levels <= MAX_DYNAMIC_DEPTH
            &&& all_apart(c.rest)
        }),
    decreases e, 0int,
{
    let rest = asked.skip(1);
    assert forall|i: int| 0 <= i < rest.len() implies !(#[trigger] rest[i]).same by {
        assert(rest[i] == asked[i + 1]);
    }
    if e.full_name == a.full_name && e.fields.len() == a.fields.len() {
        fields_apart_are_compared_in_full(
            e.fields,
            a.fields,
            0,
            depth + 1,
            (left - 1) as nat,
            rest,
        );
    }
}

proof fn types_apart_are_compared_in_full(
    e: TypeView,
    a: TypeView,
    depth: nat,
    left: nat,
    asked: Seq<Question>,
)
    requires
        all_apart(asked),
        compare_types(e, a, depth, left, asked).fits,
        compare_types(e, a, depth, left, asked).result is Ok,
    ensures
        ({
            let c = compare_types(e, a, depth, left, asked);
            let work = types_work(false, e, a);
            &&& c.result == Ok::<bool, ErrorView>(types_equal(e, a))
            &&& left == c.left + work.values
            &&& depth + work.levels <= MAX_DYNAMIC_DEPTH
            &&& all_apart(c.rest)
        }),
    decreases e, 0int,
{
    let left = (left - 1) as nat;
    match (e, a) {
        (TypeView::Message(es), TypeView::Message(a_s)) => {
            schemas_apart_are_compared_in_full(*es, *a_s, depth + 1, left, asked);
        },
        (TypeView::Array(et, n), TypeView::Array(at, m)) => {
            if n == m {
                types_apart_are_compared_in_full(*et, *at, depth + 1, left, asked);
            }
        },
        (TypeView::Sequence(et), TypeView::Sequence(at)) => {
            types_apart_are_compared_in_full(*et, *at, depth + 1, left, asked);
        },
        (TypeView::BoundedSequence(et, n), TypeView::BoundedSequence(at, m)) => {
            if n == m {
                types_apart_are_compared_in_full(*et, *at, depth + 1, left, asked);
            }
        },
        _ => {},
    }
}

proof fn fields_apart_are_compared_in_full(
    es: Seq<FieldView>,
    a_s: Seq<FieldView>,
    i: nat,
    depth: nat,
    left: nat,
    asked: Seq<Question>,
)
    requires
        0 < depth <= MAX_DYNAMIC_DEPTH + 1,
        all_apart(asked),
        compare_fields(es, a_s, i, depth, left, asked).fits,
        compare_fields(es, a_s, i, depth, left, asked).result is Ok,
    ensures
        ({
            let c = compare_fields(es, a_s, i, depth, left, asked);
            let work = fields_work(false, es, a_s, i);
            &&& c.result == Ok::<bool, ErrorView>(fields_equal(es, a_s, i))
            &&& left == c.left + work.values
            &&& depth - 1 + work.levels <= MAX_DYNAMIC_DEPTH
            &&& all_apart(c.rest)
        }),
    decreases es, es.len() - i,
{
    if i < es.len() && es[i as int].name == a_s[i as int].name {
        let (e, a) = (es[i as int].field_type, a_s[i as int].field_type);
        let first = compare_types(e, a, depth, left, asked);
        types_apart_are_compared_in_full(e, a, depth, left, asked);
        if first.result == Ok::<bool, ErrorView>(true) {
            fields_apart_are_compared_in_full(es, a_s, i + 1, depth, first.left, first.rest);
        }
    }
}

} // verus!
