//! The schema model: field location declarations, the compiled extraction
//! plan for one field, and the schema-authoring error taxonomy.

use vstd::prelude::*;

verus! {

/// The declared location of one field: which 1-based line it lives on and
/// which 1-based inclusive column range to slice.  `line` and `start` are
/// required keys; `end` and `max` are optional and mutually exclusive.
/// `end` demands that the line reach that column, while `max` is silently
/// capped to the actual line length.  Both absent means "extract to the
/// end of the line".
#[derive(Clone, Copy, Debug)]
pub struct LocDecl {
    pub line: Option<usize>,
    pub start: Option<usize>,
    pub end: Option<usize>,
    pub max: Option<usize>,
}

/// One named field of a record: its name and, optionally, its declared
/// location.  A field without a location is not positional; extraction
/// binds it to the empty string unconditionally.
#[derive(Debug)]
pub struct FieldDecl {
    pub name: String,
    pub loc: Option<LocDecl>,
}

/// The mathematical value of a [`FieldDecl`].
pub struct FieldDeclV {
    pub name: Seq<char>,
    pub loc: Option<LocDecl>,
}

impl View for FieldDecl {
    type V = FieldDeclV;

    open spec fn view(&self) -> FieldDeclV {
        FieldDeclV { name: self.name@, loc: self.loc }
    }
}

/// An ordered sequence of field declarations for one record type.
/// Ordering is insertion order; it is preserved in the output record but
/// irrelevant to validation.
#[derive(Debug)]
pub struct Schema {
    pub fields: Vec<FieldDecl>,
}

impl View for Schema {
    type V = Seq<FieldDeclV>;

    open spec fn view(&self) -> Seq<FieldDeclV> {
        self.fields@.map_values(|f: FieldDecl| f@)
    }
}

/// The location keys that every located field must declare.
#[derive(Clone, Copy, Debug, PartialEq, Eq, Structural)]
pub enum LocationKey {
    Line,
    Start,
}

/// A schema-authoring error.  These are raised while a schema is validated
/// and compiled, before any text is touched; the schema author must fix
/// the declaration.
#[derive(Debug)]
pub enum SchemaError {
    /// Two fields on the same line whose column ranges overlap.
    OverlappingFields { field_a: String, field_b: String, line: usize },
    /// A field declared both `end` and `max`.
    ConflictingLocationKeys { field: String, reason: String },
    /// A located field is missing `line` or `start`.
    MissingRequiredKey { field: String, key: LocationKey },
}

/// The compiled slicing rule for one located field, over 1-based inclusive
/// columns.  Immutable once built and safely shared across extraction calls.
#[derive(Clone, Copy, Debug, PartialEq, Eq, Structural)]
pub enum ExtractionPlan {
    /// Slice from `start` to the end of the line.
    OpenEnded { line: usize, start: usize },
    /// Slice exactly `[start, end]`; the line must reach column `end`.
    FixedRange { line: usize, start: usize, end: usize },
    /// Slice `[start, min(max, line length)]`; the line must reach `start`.
    CappedRange { line: usize, start: usize, max: usize },
}

impl ExtractionPlan {
    /// The 1-based line the plan reads.
    pub open spec fn line_no(&self) -> usize {
        match *self {
            ExtractionPlan::OpenEnded { line, .. } => line,
            ExtractionPlan::FixedRange { line, .. } => line,
            ExtractionPlan::CappedRange { line, .. } => line,
        }
    }

    /// The 1-based first column the plan reads.
    pub open spec fn start_col(&self) -> usize {
        match *self {
            ExtractionPlan::OpenEnded { start, .. } => start,
            ExtractionPlan::FixedRange { start, .. } => start,
            ExtractionPlan::CappedRange { start, .. } => start,
        }
    }

    /// The effective end of the plan's column range: its `end`, or its
    /// `max`, or `None` when the plan is open-ended (no declared end).
    pub open spec fn eff_end(&self) -> Option<usize> {
        match *self {
            ExtractionPlan::OpenEnded { .. } => None,
            ExtractionPlan::FixedRange { end, .. } => Some(end),
            ExtractionPlan::CappedRange { max, .. } => Some(max),
        }
    }

    /// Well-formedness: columns and lines are 1-based positive, and the
    /// declared range is non-empty.
    pub open spec fn wf(&self) -> bool {
        &&& self.line_no() >= 1
        &&& self.start_col() >= 1
        &&& (self.eff_end() matches Some(e) ==> self.start_col() <= e)
    }

    /// The 1-based line the plan reads.
    pub fn line_number(&self) -> (r: usize)
        ensures
            r == self.line_no(),
    {
        match *self {
            ExtractionPlan::OpenEnded { line, .. } => line,
            ExtractionPlan::FixedRange { line, .. } => line,
            ExtractionPlan::CappedRange { line, .. } => line,
        }
    }

    /// The 1-based first column the plan reads.
    pub fn start_column(&self) -> (r: usize)
        ensures
            r == self.start_col(),
    {
        match *self {
            ExtractionPlan::OpenEnded { start, .. } => start,
            ExtractionPlan::FixedRange { start, .. } => start,
            ExtractionPlan::CappedRange { start, .. } => start,
        }
    }

    /// The effective end of the plan's column range, or `None` when the
    /// plan is open-ended.
    pub fn effective_end(&self) -> (r: Option<usize>)
        ensures
            r == self.eff_end(),
    {
        match *self {
            ExtractionPlan::OpenEnded { .. } => None,
            ExtractionPlan::FixedRange { end, .. } => Some(end),
            ExtractionPlan::CappedRange { max, .. } => Some(max),
        }
    }
}

/// Decides whether two plans read the same line with intersecting column
/// ranges.
pub fn plans_conflict(a: &ExtractionPlan, b: &ExtractionPlan) -> (r: bool)
    ensures
        r == plans_overlap(*a, *b),
{
    if a.line_number() != b.line_number() {
        return false;
    }
    let b_after_a = match a.effective_end() {
        Some(e) => b.start_column() > e,
        None => false,
    };
    let a_after_b = match b.effective_end() {
        Some(e) => a.start_column() > e,
        None => false,
    };
    !(b_after_a || a_after_b)
}

/// Whether column `start` lies strictly after the whole range of `p`.
/// An open-ended plan has no declared end, so no column lies after it.
pub open spec fn starts_after(start: usize, p: ExtractionPlan) -> bool {
    match p.eff_end() {
        Some(e) => start > e,
        None => false,
    }
}

/// Whether the column ranges of two plans are disjoint: one of them
/// begins strictly after the other ends.
pub open spec fn plans_disjoint(a: ExtractionPlan, b: ExtractionPlan) -> bool {
    starts_after(b.start_col(), a) || starts_after(a.start_col(), b)
}

/// Whether two plans conflict: they read the same line and their column
/// ranges intersect.
pub open spec fn plans_overlap(a: ExtractionPlan, b: ExtractionPlan) -> bool {
    a.line_no() == b.line_no() && !plans_disjoint(a, b)
}

/// A located field is missing its required `line` key.
pub open spec fn loc_missing_line(l: LocDecl) -> bool {
    l.line is None
}

/// A located field is missing its required `start` key.
pub open spec fn loc_missing_start(l: LocDecl) -> bool {
    l.start is None
}

/// A located field declared both `end` and `max`.
pub open spec fn loc_conflicting(l: LocDecl) -> bool {
    l.end is Some && l.max is Some
}

/// The location declares all required keys and no conflicting ones.
pub open spec fn loc_ok(l: LocDecl) -> bool {
    &&& !loc_missing_line(l)
    &&& !loc_missing_start(l)
    &&& !loc_conflicting(l)
}

/// Every declared value is a 1-based positive column or line number, and
/// the declared range is non-empty.  Declarations outside this range are
/// not part of the schema language.
pub open spec fn loc_in_range(l: LocDecl) -> bool {
    &&& (l.line matches Some(n) ==> n >= 1)
    &&& (l.start matches Some(s) ==> s >= 1)
    &&& (l.end matches Some(e) ==> e >= 1)
    &&& (l.max matches Some(m) ==> m >= 1)
    &&& (l.start matches Some(s) && l.end matches Some(e) ==> s <= e)
    &&& (l.start matches Some(s) && l.max matches Some(m) ==> s <= m)
}

/// The slicing rule that a well-keyed location compiles to.
pub open spec fn plan_of_loc(l: LocDecl) -> ExtractionPlan
    recommends
        loc_ok(l),
{
    let line = l.line.unwrap();
    let start = l.start.unwrap();
    match l.end {
        Some(end) => ExtractionPlan::FixedRange { line, start, end },
        None => match l.max {
            Some(max) => ExtractionPlan::CappedRange { line, start, max },
            None => ExtractionPlan::OpenEnded { line, start },
        },
    }
}

/// Compiles one located field into its slicing rule.  Pure data
/// transformation: no text is touched.  Succeeds exactly when the
/// location declares `line` and `start` and not both `end` and `max`;
/// a missing `line` is reported before a missing `start`.
pub fn compile(name: &String, loc: &LocDecl) -> (r: Result<ExtractionPlan, SchemaError>)
    requires
        loc_in_range(*loc),
    ensures
        r is Ok <==> loc_ok(*loc),
        r matches Ok(p) ==> p == plan_of_loc(*loc) && p.wf(),
        r matches Err(e) ==> match e {
            SchemaError::MissingRequiredKey { field, key } => {
                &&& field@ == name@
                &&& (key == LocationKey::Line ==> loc_missing_line(*loc))
                &&& (key == LocationKey::Start ==> !loc_missing_line(*loc) && loc_missing_start(
                    *loc,
                ))
            },
            SchemaError::ConflictingLocationKeys { field, reason } => {
                &&& field@ == name@
                &&& reason@ == "max and end both specified"@
                &&& !loc_missing_line(*loc)
                &&& !loc_missing_start(*loc)
                &&& loc_conflicting(*loc)
            },
            SchemaError::OverlappingFields { .. } => false,
        },
{
    let line = match loc.line {
        Some(n) => n,
        None => {
            return Err(
                SchemaError::MissingRequiredKey { field: name.clone(), key: LocationKey::Line },
            );
        },
    };
    let start = match loc.start {
        Some(s) => s,
        None => {
            return Err(
                SchemaError::MissingRequiredKey { field: name.clone(), key: LocationKey::Start },
            );
        },
    };
    match (loc.end, loc.max) {
        (Some(_), Some(_)) => Err(
            SchemaError::ConflictingLocationKeys {
                field: name.clone(),
                reason: String::from_str("max and end both specified"),
            },
        ),
        (Some(end), None) => Ok(ExtractionPlan::FixedRange { line, start, end }),
        (None, Some(max)) => Ok(ExtractionPlan::CappedRange { line, start, max }),
        (None, None) => Ok(ExtractionPlan::OpenEnded { line, start }),
    }
}

} // verus!
