//! The library's laws: what validation accepts and rejects, and how
//! extraction behaves, stated over the same spec functions that the
//! public functions' contracts use.

use vstd::prelude::*;

use crate::extract::{
    error_of, field_value, plan_succeeds, plan_value, spec_extract, ExtractOutcome, ParseErrorV,
};
use crate::schema::{
    loc_conflicting, loc_missing_line, loc_missing_start, plans_overlap, ExtractionPlan,
    FieldDeclV, SchemaError,
};
use crate::validate::{decl_keys_ok, decls_overlap, schema_error_describes, schema_valid};

verus! {

/// Whether 1-based column `c` belongs to the range a plan reads.
pub open spec fn column_in_plan(c: int, p: ExtractionPlan) -> bool {
    &&& p.start_col() <= c
    &&& (p.eff_end() matches Some(e) ==> c <= e)
}

/// Two plans for one line overlap exactly when some column belongs to
/// both of their ranges.
pub proof fn lemma_overlap_is_common_column(a: ExtractionPlan, b: ExtractionPlan)
    requires
        a.wf(),
        b.wf(),
        a.line_no() == b.line_no(),
    ensures
        plans_overlap(a, b) <==> exists|c: int|
            #[trigger] column_in_plan(c, a) && column_in_plan(c, b),
{
    if plans_overlap(a, b) {
        let c = if a.start_col() >= b.start_col() {
            a.start_col() as int
        } else {
            b.start_col() as int
        };
        assert(column_in_plan(c, a) && column_in_plan(c, b));
    }
}

/// Two fields of one schema whose ranges overlap make the whole schema
/// invalid, so `validate_and_compile` must reject it.
pub proof fn lemma_overlapping_fields_rejected(s: Seq<FieldDeclV>, i: int, j: int)
    requires
        0 <= i < j < s.len(),
        decls_overlap(s[i], s[j]),
    ensures
        !schema_valid(s),
{
}

/// When every field's keys are sound, the only flaw a validation error
/// can describe is an overlap, and it names two overlapping fields of
/// the schema.
pub proof fn lemma_error_names_overlap(s: Seq<FieldDeclV>, e: SchemaError)
    requires
        schema_error_describes(e, s),
        forall|i: int| 0 <= i < s.len() ==> decl_keys_ok(#[trigger] s[i]),
    ensures
        e matches SchemaError::OverlappingFields { field_a, field_b, line } && exists|i: int, j: int|
            0 <= i < j < s.len() && (#[trigger] s[i]).name == field_a@ && (#[trigger] s[j]).name
                == field_b@ && decls_overlap(s[i], s[j]),
{
    match e {
        SchemaError::MissingRequiredKey { field, key } => {
            let i = choose|i: int|
                0 <= i < s.len() && (#[trigger] s[i]).name == field@ && (s[i].loc matches Some(l)
                    && (key == crate::schema::LocationKey::Line ==> loc_missing_line(l)) && (key
                    == crate::schema::LocationKey::Start ==> loc_missing_start(l)));
            assert(decl_keys_ok(s[i]));
            assert(false);
        },
        SchemaError::ConflictingLocationKeys { field, .. } => {
            let i = choose|i: int|
                0 <= i < s.len() && (#[trigger] s[i]).name == field@ && (s[i].loc matches Some(l)
                    && loc_conflicting(l));
            assert(decl_keys_ok(s[i]));
            assert(false);
        },
        SchemaError::OverlappingFields { .. } => {},
    }
}

/// A schema whose located fields have sound keys and pairwise disjoint
/// ranges is valid, so `validate_and_compile` must accept it.  In
/// particular an open-ended field placed after all fixed ranges of its
/// line keeps the schema valid.
pub proof fn lemma_disjoint_schema_accepted(s: Seq<FieldDeclV>)
    requires
        forall|i: int| 0 <= i < s.len() ==> decl_keys_ok(#[trigger] s[i]),
        forall|i: int, j: int|
            0 <= i < j < s.len() ==> !decls_overlap(#[trigger] s[i], #[trigger] s[j]),
    ensures
        schema_valid(s),
{
}

/// A field declaring both `end` and `max` makes the whole schema
/// invalid, so `validate_and_compile` must reject it.
pub proof fn lemma_conflicting_keys_rejected(s: Seq<FieldDeclV>, i: int)
    requires
        0 <= i < s.len(),
        s[i].loc matches Some(l) && loc_conflicting(l),
    ensures
        !schema_valid(s),
{
    assert(!decl_keys_ok(s[i]));
}

/// When no required key is missing and no two fields overlap, the only
/// flaw a validation error can describe is a field declaring both `end`
/// and `max`, and it names such a field.
pub proof fn lemma_error_is_conflict(s: Seq<FieldDeclV>, e: SchemaError)
    requires
        schema_error_describes(e, s),
        forall|i: int|
            0 <= i < s.len() ==> ((#[trigger] s[i]).loc matches Some(l) ==> !loc_missing_line(l)
                && !loc_missing_start(l)),
        forall|i: int, j: int|
            0 <= i < j < s.len() ==> !decls_overlap(#[trigger] s[i], #[trigger] s[j]),
    ensures
        e matches SchemaError::ConflictingLocationKeys { field, .. } && exists|i: int|
            0 <= i < s.len() && (#[trigger] s[i]).name == field@ && (s[i].loc matches Some(l)
                && loc_conflicting(l)),
{
    match e {
        SchemaError::MissingRequiredKey { field, key } => {
            let i = choose|i: int|
                0 <= i < s.len() && (#[trigger] s[i]).name == field@ && (s[i].loc matches Some(l)
                    && (key == crate::schema::LocationKey::Line ==> loc_missing_line(l)) && (key
                    == crate::schema::LocationKey::Start ==> loc_missing_start(l)));
            assert(false);
        },
        SchemaError::OverlappingFields { .. } => {
            assert(false);
        },
        SchemaError::ConflictingLocationKeys { .. } => {},
    }
}

/// Extraction is deterministic: its outcome is a function of the
/// compiled schema and the text alone, so two calls on identical input
/// yield identical output.
pub proof fn lemma_extract_deterministic(
    fields: Seq<crate::validate::CompiledFieldV>,
    text: Seq<char>,
    r1: ExtractOutcome,
    r2: ExtractOutcome,
)
    requires
        r1 == spec_extract(fields, text),
        r2 == spec_extract(fields, text),
    ensures
        r1 == r2,
{
}

/// A fixed range reads exactly the declared window `[start, end]`: on a
/// line long enough, the slice is that window's content — of length
/// `end - start + 1` — whatever follows column `end`.
pub proof fn lemma_fixed_range_window(p: ExtractionPlan, lines: Seq<Seq<char>>)
    requires
        p is FixedRange,
        p.wf(),
        plan_succeeds(p, lines),
    ensures
        plan_value(p, lines) == lines[p.line_no() - 1].subrange(
            p.start_col() - 1,
            p.eff_end().unwrap() as int,
        ),
        plan_value(p, lines).len() == p.eff_end().unwrap() - p.start_col() + 1,
{
}

/// The boundary of a fixed range: a line exactly `end` characters long
/// succeeds, and a line one character shorter fails.
pub proof fn lemma_fixed_range_boundary(p: ExtractionPlan, lines: Seq<Seq<char>>)
    requires
        p is FixedRange,
        p.wf(),
        1 <= p.line_no() <= lines.len(),
    ensures
        lines[p.line_no() - 1].len() == p.eff_end().unwrap() ==> plan_succeeds(p, lines),
        lines[p.line_no() - 1].len() == p.eff_end().unwrap() - 1 ==> !plan_succeeds(p, lines),
{
}

/// A field whose line exists but falls short of the required column is
/// reported as a short source, echoing that line's actual content.
pub proof fn lemma_present_line_failure_is_too_short(
    cf: crate::validate::CompiledFieldV,
    lines: Seq<Seq<char>>,
    text: Seq<char>,
)
    requires
        cf.plan matches Some(p) && 1 <= p.line_no() <= lines.len(),
        !crate::extract::field_succeeds(cf, lines),
    ensures
        error_of(cf, lines, text) matches ParseErrorV::SourceTooShort {
            field,
            line,
            line_content,
            ..
        } && field == cf.name && line == cf.plan.unwrap().line_no() && line_content == lines[
            cf.plan.unwrap().line_no() - 1
        ],
{
}

/// A field without a plan binds to the empty string, whatever the text.
pub proof fn lemma_unlocated_field_empty(
    cf: crate::validate::CompiledFieldV,
    lines: Seq<Seq<char>>,
)
    requires
        cf.plan is None,
    ensures
        field_value(cf, lines) == Seq::<char>::empty(),
{
}

} // verus!
