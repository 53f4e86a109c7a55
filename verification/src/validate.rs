//! Schema validation and compilation: every field's location is checked
//! for its keys, compiled into a slicing rule, and checked against the
//! other fields of its line for overlapping column ranges.  The whole
//! schema is accepted or rejected atomically.

use vstd::prelude::*;

use crate::registry::{ParsingStructure, PlannedField, PlannedFieldV};
use crate::schema::{
    compile, loc_conflicting, loc_in_range, loc_missing_line, loc_missing_start, loc_ok,
    plan_of_loc, plans_overlap, ExtractionPlan, FieldDeclV, LocationKey, Schema, SchemaError,
};

verus! {

/// One compiled field: its name and, if the field is positional, its
/// slicing rule.  A field without a rule binds to the empty string.
#[derive(Debug)]
pub struct CompiledField {
    pub name: String,
    pub plan: Option<ExtractionPlan>,
}

/// The mathematical value of a [`CompiledField`].
pub struct CompiledFieldV {
    pub name: Seq<char>,
    pub plan: Option<ExtractionPlan>,
}

impl View for CompiledField {
    type V = CompiledFieldV;

    open spec fn view(&self) -> CompiledFieldV {
        CompiledFieldV { name: self.name@, plan: self.plan }
    }
}

/// A validated schema compiled for repeated extraction: one rule per
/// field, in schema order.  Immutable once built; extraction never
/// mutates it.
#[derive(Debug)]
pub struct CompiledSchema {
    pub fields: Vec<CompiledField>,
}

impl View for CompiledSchema {
    type V = Seq<CompiledFieldV>;

    open spec fn view(&self) -> Seq<CompiledFieldV> {
        self.fields@.map_values(|f: CompiledField| f@)
    }
}

impl CompiledSchema {
    /// Every plan in the compiled schema is well formed.
    pub open spec fn wf(&self) -> bool {
        forall|i: int|
            0 <= i < self@.len() ==> ((#[trigger] self@[i]).plan matches Some(p) ==> p.wf())
    }
}

/// The declared location of every located field uses 1-based positive
/// numbers and a non-empty range.
pub open spec fn schema_in_range(s: Seq<FieldDeclV>) -> bool {
    forall|i: int|
        0 <= i < s.len() ==> ((#[trigger] s[i]).loc matches Some(l) ==> loc_in_range(l))
}

/// A located field declares all required keys and no conflicting ones.
pub open spec fn decl_keys_ok(d: FieldDeclV) -> bool {
    d.loc matches Some(l) ==> loc_ok(l)
}

/// The rule a declaration compiles to: none for a field without a
/// location.
pub open spec fn decl_plan(d: FieldDeclV) -> Option<ExtractionPlan>
    recommends
        decl_keys_ok(d),
{
    match d.loc {
        Some(l) => Some(plan_of_loc(l)),
        None => None,
    }
}

/// Two located fields on the same line whose column ranges intersect.
pub open spec fn decls_overlap(a: FieldDeclV, b: FieldDeclV) -> bool {
    &&& a.loc matches Some(la)
    &&& b.loc matches Some(lb)
    &&& plans_overlap(plan_of_loc(la), plan_of_loc(lb))
}

/// A valid schema: every located field has sound keys and no two of its
/// fields overlap.
pub open spec fn schema_valid(s: Seq<FieldDeclV>) -> bool {
    &&& forall|i: int| 0 <= i < s.len() ==> decl_keys_ok(#[trigger] s[i])
    &&& forall|i: int, j: int|
        0 <= i < j < s.len() ==> !decls_overlap(#[trigger] s[i], #[trigger] s[j])
}

/// The error names an actual flaw of the schema: a field missing a
/// required key, a field with both `end` and `max`, or two fields, in
/// schema order, whose ranges overlap on the named line.
pub open spec fn schema_error_describes(e: SchemaError, s: Seq<FieldDeclV>) -> bool {
    match e {
        SchemaError::MissingRequiredKey { field, key } => exists|i: int|
            0 <= i < s.len() && (#[trigger] s[i]).name == field@ && (s[i].loc matches Some(l)
                && (key == LocationKey::Line ==> loc_missing_line(l)) && (key
                == LocationKey::Start ==> loc_missing_start(l))),
        SchemaError::ConflictingLocationKeys { field, reason } => reason@
            == "max and end both specified"@ && exists|i: int|
            0 <= i < s.len() && (#[trigger] s[i]).name == field@ && (s[i].loc matches Some(l)
                && loc_conflicting(l)),
        SchemaError::OverlappingFields { field_a, field_b, line } => exists|i: int, j: int|
            0 <= i < j < s.len() && (#[trigger] s[i]).name == field_a@ && (#[trigger] s[j]).name
                == field_b@ && decls_overlap(s[i], s[j]) && (s[i].loc matches Some(l)
                && plan_of_loc(l).line_no() == line),
    }
}

/// Validates a schema and compiles it for extraction.  Succeeds exactly
/// when every located field declares sound keys and no two fields of a
/// line have intersecting column ranges; the compiled schema then holds
/// one rule per field, in schema order.  Fields are examined in schema
/// order and validation stops at the first flaw found; the error names
/// an actual flaw of the schema as authored.
#[verifier::loop_isolation(false)]
pub fn validate_and_compile(schema: &Schema) -> (r: Result<CompiledSchema, SchemaError>)
    requires
        schema_in_range(schema@),
    ensures
        r is Ok <==> schema_valid(schema@),
        r matches Ok(c) ==> {
            &&& c@.len() == schema@.len()
            &&& forall|i: int|
                0 <= i < schema@.len() ==> (#[trigger] c@[i]).name == schema@[i].name
                    && c@[i].plan == decl_plan(schema@[i])
            &&& c.wf()
        },
        r matches Err(e) ==> schema_error_describes(e, schema@),
{
    let mut registry = ParsingStructure::new();
    let mut out: Vec<CompiledField> = Vec::new();
    let n = schema.fields.len();
    let mut idx: usize = 0;
    while idx < n
        invariant
            idx <= n,
            registry.wf(),
            out@.len() == idx,
            forall|i: int|
                0 <= i < idx ==> (#[trigger] out@[i]).name@ == schema@[i].name && out@[i].plan
                    == decl_plan(schema@[i]),
            forall|i: int| 0 <= i < idx ==> decl_keys_ok(#[trigger] schema@[i]),
            forall|i: int, j: int|
                0 <= i < j < idx ==> !decls_overlap(#[trigger] schema@[i], #[trigger] schema@[j]),
            forall|i: int|
                0 <= i < idx && (#[trigger] schema@[i]).loc is Some ==> registry.on_line(
                    plan_of_loc(schema@[i].loc.unwrap()).line_no(),
                ).contains(
                    PlannedFieldV {
                        name: schema@[i].name,
                        plan: plan_of_loc(schema@[i].loc.unwrap()),
                    },
                ),
            forall|l: usize, x: PlannedFieldV|
                #[trigger] registry.on_line(l).contains(x) ==> exists|i: int|
                    0 <= i < idx && (#[trigger] schema@[i]).loc is Some && x.name
                        == schema@[i].name && x.plan == plan_of_loc(schema@[i].loc.unwrap())
                        && x.plan.line_no() == l,
        decreases n - idx,
    {
        let fd = &schema.fields[idx];
        proof {
            assert(schema@[idx as int] == schema.fields@[idx as int]@);
        }
        match fd.loc {
            None => {
                out.push(CompiledField { name: fd.name.clone(), plan: None });
            },
            Some(loc) => {
                let plan = match compile(&fd.name, &loc) {
                    Ok(p) => p,
                    Err(e) => {
                        proof {
                            assert(!decl_keys_ok(schema@[idx as int]));
                            assert(!schema_valid(schema@));
                            assert(schema_error_describes(e, schema@)) by {
                                assert(schema@[idx as int].name == fd.name@);
                            }
                        }
                        return Err(e);
                    },
                };
                let pf = PlannedField { name: fd.name.clone(), plan };
                let ghost pfv = pf@;
                let ghost reg0 = registry;
                match registry.insert(pf) {
                    Ok(()) => {
                        out.push(CompiledField { name: fd.name.clone(), plan: Some(plan) });
                        proof {
                            let l = plan.line_no();
                            assert(registry.on_line(l).contains(pfv));
                            // No earlier field overlaps the one just accepted.
                            assert forall|i: int| 0 <= i < idx implies !decls_overlap(
                                #[trigger] schema@[i],
                                schema@[idx as int],
                            ) by {
                                if schema@[i].loc is Some {
                                    let pi = plan_of_loc(schema@[i].loc.unwrap());
                                    let xi = PlannedFieldV { name: schema@[i].name, plan: pi };
                                    if pi.line_no() == l {
                                        assert(reg0.on_line(l).contains(xi));
                                        let k = choose|k: int|
                                            0 <= k < reg0.on_line(l).len() && reg0.on_line(l)[k]
                                                == xi;
                                        assert(reg0.on_line(l)[k] == xi);
                                        assert(!plans_overlap(pi, plan));
                                    } else {
                                        assert(!plans_overlap(pi, plan));
                                    }
                                }
                            }
                            // Earlier fields are still registered on their lines.
                            assert forall|i: int|
                                0 <= i < idx && (#[trigger] schema@[i]).loc is Some implies
                                registry.on_line(
                                    plan_of_loc(schema@[i].loc.unwrap()).line_no(),
                                ).contains(
                                    PlannedFieldV {
                                        name: schema@[i].name,
                                        plan: plan_of_loc(schema@[i].loc.unwrap()),
                                    },
                                ) by {
                                let pi = plan_of_loc(schema@[i].loc.unwrap());
                                let xi = PlannedFieldV { name: schema@[i].name, plan: pi };
                                assert(reg0.on_line(pi.line_no()).contains(xi));
                            }
                            // Everything registered came from some field seen so far.
                            assert forall|l2: usize, x: PlannedFieldV| #[trigger] registry.on_line(
                                l2,
                            ).contains(x) implies exists|i: int|
                                0 <= i < idx + 1 && (#[trigger] schema@[i]).loc is Some && x.name
                                    == schema@[i].name && x.plan == plan_of_loc(
                                    schema@[i].loc.unwrap(),
                                ) && x.plan.line_no() == l2 by {
                                if l2 == l && x == pfv {
                                    assert(schema@[idx as int].loc is Some
                                        && pfv.name == schema@[idx as int].name && pfv.plan
                                        == plan_of_loc(schema@[idx as int].loc.unwrap())
                                        && pfv.plan.line_no() == l2);
                                } else {
                                    assert(reg0.on_line(l2).contains(x));
                                }
                            }
                        }
                    },
                    Err(e) => {
                        proof {
                            let l = plan.line_no();
                            if let SchemaError::OverlappingFields { field_a, field_b, line } = &e {
                                let k = choose|k: int|
                                    0 <= k < reg0.on_line(l).len() && (#[trigger] reg0.on_line(
                                        l,
                                    )[k]).name == field_a@ && plans_overlap(
                                        reg0.on_line(l)[k].plan,
                                        plan,
                                    );
                                let x = reg0.on_line(l)[k];
                                assert(reg0.on_line(l).contains(x));
                                let i = choose|i: int|
                                    0 <= i < idx && (#[trigger] schema@[i]).loc is Some && x.name
                                        == schema@[i].name && x.plan == plan_of_loc(
                                        schema@[i].loc.unwrap(),
                                    ) && x.plan.line_no() == l;
                                assert(decls_overlap(schema@[i], schema@[idx as int]));
                                assert(!schema_valid(schema@));
                                assert(schema_error_describes(e, schema@)) by {
                                    assert(0 <= i < idx as int + 1 <= schema@.len());
                                    assert(schema@[i].name == field_a@);
                                    assert(schema@[idx as int].name == field_b@);
                                    assert(schema@[i].loc matches Some(li) && plan_of_loc(
                                        li,
                                    ).line_no() == line);
                                }
                            }
                        }
                        return Err(e);
                    },
                }
            },
        }
        idx += 1;
    }
    let c = CompiledSchema { fields: out };
    proof {
        assert forall|i: int| 0 <= i < schema@.len() implies (#[trigger] c@[i]).name
            == schema@[i].name && c@[i].plan == decl_plan(schema@[i]) by {
            assert(c@[i] == c.fields@[i]@);
        }
        assert(c.wf()) by {
            assert forall|i: int|
                0 <= i < c@.len() implies ((#[trigger] c@[i]).plan matches Some(p) ==> p.wf()) by {
                if c@[i].plan is Some {
                    assert(schema@[i].loc matches Some(l) && loc_ok(l) && loc_in_range(l));
                }
            }
        }
    }
    Ok(c)
}

} // verus!
