//! The record extractor: applies a compiled schema to raw text and
//! produces either a fully populated record or the first extraction
//! failure, in schema order.  Extraction performs no I/O and never
//! mutates the compiled schema; its result is a pure function of the
//! schema and the text.

use vstd::prelude::*;
use vstd::string::*;

use crate::lines::{spec_lines, split_lines};
use crate::schema::ExtractionPlan;
use crate::validate::{CompiledFieldV, CompiledSchema};

verus! {

/// A per-input extraction failure.  Recoverable at the call site: the
/// caller may retry with corrected input.  Malformed schemas are rejected
/// earlier, at compile time, so extraction is total over well-formed
/// plans and arbitrary text.
#[derive(Debug)]
pub enum ParseError {
    /// The field's line exists but does not reach the required column.
    SourceTooShort {
        field: String,
        line: usize,
        start: usize,
        end_or_max: Option<usize>,
        line_content: String,
        source: String,
    },
    /// The field's line number exceeds the number of lines in the text.
    MissingLine { field: String, line: usize, total_lines: usize, source: String },
}

/// The mathematical value of a [`ParseError`].
pub enum ParseErrorV {
    SourceTooShort {
        field: Seq<char>,
        line: usize,
        start: usize,
        end_or_max: Option<usize>,
        line_content: Seq<char>,
        source: Seq<char>,
    },
    MissingLine { field: Seq<char>, line: usize, total_lines: usize, source: Seq<char> },
}

impl View for ParseError {
    type V = ParseErrorV;

    open spec fn view(&self) -> ParseErrorV {
        match self {
            ParseError::SourceTooShort {
                field,
                line,
                start,
                end_or_max,
                line_content,
                source,
            } => ParseErrorV::SourceTooShort {
                field: field@,
                line: *line,
                start: *start,
                end_or_max: *end_or_max,
                line_content: line_content@,
                source: source@,
            },
            ParseError::MissingLine { field, line, total_lines, source } => {
                ParseErrorV::MissingLine {
                    field: field@,
                    line: *line,
                    total_lines: *total_lines,
                    source: source@,
                }
            },
        }
    }
}

/// One extracted field: its name and the substring sliced for it.
#[derive(Debug)]
pub struct RecordEntry {
    pub name: String,
    pub value: String,
}

/// The mathematical value of a [`RecordEntry`].
pub struct RecordEntryV {
    pub name: Seq<char>,
    pub value: Seq<char>,
}

impl View for RecordEntry {
    type V = RecordEntryV;

    open spec fn view(&self) -> RecordEntryV {
        RecordEntryV { name: self.name@, value: self.value@ }
    }
}

/// The output of one extraction call: a name-to-substring mapping in
/// schema order, owned solely by the caller.
#[derive(Debug)]
pub struct Record {
    pub entries: Vec<RecordEntry>,
}

impl View for Record {
    type V = Seq<RecordEntryV>;

    open spec fn view(&self) -> Seq<RecordEntryV> {
        self.entries@.map_values(|e: RecordEntry| e@)
    }
}

/// Whether a plan can be applied to the given lines: its line must exist,
/// and the line must reach the plan's required column (`start` for an
/// open-ended or capped plan, `end` for a fixed range).
pub open spec fn plan_succeeds(p: ExtractionPlan, lines: Seq<Seq<char>>) -> bool {
    &&& 1 <= p.line_no() <= lines.len()
    &&& (match p {
        ExtractionPlan::OpenEnded { start, .. } => lines[p.line_no() - 1].len() >= start,
        ExtractionPlan::FixedRange { end, .. } => lines[p.line_no() - 1].len() >= end,
        ExtractionPlan::CappedRange { start, .. } => lines[p.line_no() - 1].len() >= start,
    })
}

/// The exclusive character offset where a plan's window stops, on a line
/// of length `ll`: the line end, the fixed `end`, or `max` capped to the
/// line length.
pub open spec fn plan_window_end(p: ExtractionPlan, ll: int) -> int {
    match p {
        ExtractionPlan::OpenEnded { .. } => ll,
        ExtractionPlan::FixedRange { end, .. } => end as int,
        ExtractionPlan::CappedRange { max, .. } => if max <= ll {
            max as int
        } else {
            ll
        },
    }
}

/// The substring a plan slices from its line: the window
/// `[start, window end]` over 1-based inclusive columns.
pub open spec fn plan_value(p: ExtractionPlan, lines: Seq<Seq<char>>) -> Seq<char>
    recommends
        plan_succeeds(p, lines),
{
    let line = lines[p.line_no() - 1];
    line.subrange(p.start_col() - 1, plan_window_end(p, line.len() as int))
}

/// A field without a plan always succeeds.
pub open spec fn field_succeeds(cf: CompiledFieldV, lines: Seq<Seq<char>>) -> bool {
    cf.plan matches Some(p) ==> plan_succeeds(p, lines)
}

/// The value a field binds to: its plan's slice, or the empty string for
/// a field without a location.
pub open spec fn field_value(cf: CompiledFieldV, lines: Seq<Seq<char>>) -> Seq<char> {
    match cf.plan {
        Some(p) => plan_value(p, lines),
        None => Seq::empty(),
    }
}

/// The failure reported for a field whose plan cannot be applied.
pub open spec fn error_of(cf: CompiledFieldV, lines: Seq<Seq<char>>, text: Seq<char>) -> ParseErrorV
    recommends
        cf.plan is Some,
        !field_succeeds(cf, lines),
{
    let p = cf.plan.unwrap();
    if p.line_no() > lines.len() {
        ParseErrorV::MissingLine {
            field: cf.name,
            line: p.line_no(),
            total_lines: lines.len() as usize,
            source: text,
        }
    } else {
        ParseErrorV::SourceTooShort {
            field: cf.name,
            line: p.line_no(),
            start: p.start_col(),
            end_or_max: p.eff_end(),
            line_content: lines[p.line_no() - 1],
            source: text,
        }
    }
}

/// The index of the first field that cannot be extracted, or the number
/// of fields when all succeed.
pub open spec fn first_failure(fields: Seq<CompiledFieldV>, lines: Seq<Seq<char>>) -> int
    decreases fields.len(),
{
    if fields.len() == 0 {
        0
    } else if !field_succeeds(fields[0], lines) {
        0
    } else {
        1 + first_failure(fields.drop_first(), lines)
    }
}

/// A failing field preceded only by succeeding ones is the first failure;
/// with no failing field at all, the first failure is the field count.
pub proof fn lemma_first_failure_at(fields: Seq<CompiledFieldV>, lines: Seq<Seq<char>>, k: int)
    requires
        0 <= k <= fields.len(),
        forall|i: int| 0 <= i < k ==> field_succeeds(#[trigger] fields[i], lines),
        k < fields.len() ==> !field_succeeds(fields[k], lines),
    ensures
        first_failure(fields, lines) == k,
    decreases fields.len(),
{
    if fields.len() > 0 && k > 0 {
        assert(field_succeeds(fields[0], lines));
        assert forall|i: int| 0 <= i < k - 1 implies field_succeeds(
            #[trigger] fields.drop_first()[i],
            lines,
        ) by {
            assert(fields.drop_first()[i] == fields[i + 1]);
        }
        if k - 1 < fields.drop_first().len() {
            assert(fields.drop_first()[k - 1] == fields[k]);
        }
        lemma_first_failure_at(fields.drop_first(), lines, k - 1);
    }
}

/// What one extraction call produces, as a mathematical value.
pub enum ExtractOutcome {
    Success(Seq<RecordEntryV>),
    Failure(ParseErrorV),
}

/// The extraction function: a record with every field's slice when every
/// field succeeds, otherwise the failure of the first field that does
/// not.
pub open spec fn spec_extract(fields: Seq<CompiledFieldV>, text: Seq<char>) -> ExtractOutcome {
    let lines = spec_lines(text);
    let k = first_failure(fields, lines);
    if k == fields.len() {
        ExtractOutcome::Success(
            Seq::new(
                fields.len(),
                |i: int| RecordEntryV { name: fields[i].name, value: field_value(fields[i], lines) },
            ),
        )
    } else {
        ExtractOutcome::Failure(error_of(fields[k], lines, text))
    }
}

/// Applies a compiled schema to a text and produces either a record with
/// one entry per field, in schema order, or the first field's failure.
/// The result is exactly `spec_extract` of the schema and the text, so
/// extraction is deterministic.
#[verifier::loop_isolation(false)]
pub fn extract(plan: &CompiledSchema, text: &str) -> (r: Result<Record, ParseError>)
    requires
        plan.wf(),
    ensures
        (match r {
            Ok(rec) => ExtractOutcome::Success(rec@),
            Err(e) => ExtractOutcome::Failure(e@),
        }) == spec_extract(plan@, text@),
        r is Ok <==> (forall|i: int|
            0 <= i < plan@.len() ==> field_succeeds(#[trigger] plan@[i], spec_lines(text@))),
        r matches Ok(rec) ==> {
            &&& rec@.len() == plan@.len()
            &&& forall|i: int|
                0 <= i < plan@.len() ==> (#[trigger] rec@[i]).name == plan@[i].name
                    && rec@[i].value == field_value(plan@[i], spec_lines(text@))
        },
{
    let lines = split_lines(text);
    let ghost lv = spec_lines(text@);
    let nl = lines.len();
    let n = plan.fields.len();
    let mut entries: Vec<RecordEntry> = Vec::new();
    let mut idx: usize = 0;
    while idx < n
        invariant
            idx <= n,
            entries@.len() == idx,
            forall|i: int| 0 <= i < idx ==> field_succeeds(#[trigger] plan@[i], lv),
            forall|i: int|
                0 <= i < idx ==> (#[trigger] entries@[i]).name@ == plan@[i].name
                    && entries@[i].value@ == field_value(plan@[i], lv),
        decreases n - idx,
    {
        let cf = &plan.fields[idx];
        proof {
            assert(plan@[idx as int] == plan.fields@[idx as int]@);
        }
        match cf.plan {
            None => {
                entries.push(RecordEntry { name: cf.name.clone(), value: String::new() });
            },
            Some(p) => {
                let ln = p.line_number();
                if ln > nl {
                    let e = ParseError::MissingLine {
                        field: cf.name.clone(),
                        line: ln,
                        total_lines: nl,
                        source: String::from_str(text),
                    };
                    proof {
                        assert(!plan_succeeds(p, lv));
                        lemma_first_failure_at(plan@, lv, idx as int);
                        assert(e@ == error_of(plan@[idx as int], lv, text@));
                    }
                    return Err(e);
                }
                let line = &lines[ln - 1];
                let ll = line.as_str().unicode_len();
                proof {
                    assert(line@ == lv[ln - 1]);
                }
                match p {
                    ExtractionPlan::OpenEnded { start, .. } => {
                        if ll < start {
                            let e = ParseError::SourceTooShort {
                                field: cf.name.clone(),
                                line: ln,
                                start,
                                end_or_max: None,
                                line_content: line.clone(),
                                source: String::from_str(text),
                            };
                            proof {
                                assert(!plan_succeeds(p, lv));
                                lemma_first_failure_at(plan@, lv, idx as int);
                                assert(e@ == error_of(plan@[idx as int], lv, text@));
                            }
                            return Err(e);
                        }
                        let piece = line.as_str().substring_char(start - 1, ll);
                        entries.push(
                            RecordEntry { name: cf.name.clone(), value: String::from_str(piece) },
                        );
                    },
                    ExtractionPlan::FixedRange { start, end, .. } => {
                        if ll < end {
                            let e = ParseError::SourceTooShort {
                                field: cf.name.clone(),
                                line: ln,
                                start,
                                end_or_max: Some(end),
                                line_content: line.clone(),
                                source: String::from_str(text),
                            };
                            proof {
                                assert(!plan_succeeds(p, lv));
                                lemma_first_failure_at(plan@, lv, idx as int);
                                assert(e@ == error_of(plan@[idx as int], lv, text@));
                            }
                            return Err(e);
                        }
                        let piece = line.as_str().substring_char(start - 1, end);
                        entries.push(
                            RecordEntry { name: cf.name.clone(), value: String::from_str(piece) },
                        );
                    },
                    ExtractionPlan::CappedRange { start, max, .. } => {
                        if ll < start {
                            let e = ParseError::SourceTooShort {
                                field: cf.name.clone(),
                                line: ln,
                                start,
                                end_or_max: Some(max),
                                line_content: line.clone(),
                                source: String::from_str(text),
                            };
                            proof {
                                assert(!plan_succeeds(p, lv));
                                lemma_first_failure_at(plan@, lv, idx as int);
                                assert(e@ == error_of(plan@[idx as int], lv, text@));
                            }
                            return Err(e);
                        }
                        let stop = if max > ll {
                            ll
                        } else {
                            max
                        };
                        let piece = line.as_str().substring_char(start - 1, stop);
                        entries.push(
                            RecordEntry { name: cf.name.clone(), value: String::from_str(piece) },
                        );
                    },
                }
            },
        }
        idx += 1;
    }
    let rec = Record { entries };
    proof {
        lemma_first_failure_at(plan@, lv, n as int);
        assert(rec@ =~= Seq::new(
            plan@.len(),
            |i: int| RecordEntryV { name: plan@[i].name, value: field_value(plan@[i], lv) },
        ));
    }
    Ok(rec)
}

impl ParseError {
    /// The words of the failure message for a field that could not be
    /// sliced from its source.
    pub open spec fn spec_message(&self) -> Seq<char> {
        match self {
            ParseError::SourceTooShort { field, source, .. } => "Field '"@ + field@
                + "' could not be parsed from '"@ + source@
                + "' because the source was too short"@,
            ParseError::MissingLine { field, source, .. } => "Field '"@ + field@
                + "' could not be parsed from '"@ + source@
                + "' because the source did not contain the line"@,
        }
    }

    /// Renders the failure as a human-readable message naming the field
    /// and echoing the source it could not be parsed from.
    pub fn message(&self) -> (r: String)
        ensures
            r@ == self.spec_message(),
    {
        match self {
            ParseError::SourceTooShort { field, source, .. } => {
                let mut m = String::from_str("Field '");
                m.append(field.as_str());
                m.append("' could not be parsed from '");
                m.append(source.as_str());
                m.append("' because the source was too short");
                m
            },
            ParseError::MissingLine { field, source, .. } => {
                let mut m = String::from_str("Field '");
                m.append(field.as_str());
                m.append("' could not be parsed from '");
                m.append(source.as_str());
                m.append("' because the source did not contain the line");
                m
            },
        }
    }
}

impl Record {
    /// Looks a field up by name and returns its extracted value: the
    /// first entry with that name, or nothing when no entry has it.
    pub fn get(&self, name: &str) -> (r: Option<&String>)
        ensures
            r matches Some(v) ==> exists|i: int|
                0 <= i < self@.len() && (#[trigger] self@[i]).name == name@ && self@[i].value == v@
                    && (forall|j: int| 0 <= j < i ==> (#[trigger] self@[j]).name != name@),
            r is None ==> forall|i: int| 0 <= i < self@.len() ==> (#[trigger] self@[i]).name != name@,
    {
        let key = String::from_str(name);
        let n = self.entries.len();
        let mut i: usize = 0;
        while i < n
            invariant
                n == self.entries@.len(),
                i <= n,
                key@ == name@,
                forall|j: int| 0 <= j < i ==> (#[trigger] self@[j]).name != name@,
            decreases n - i,
        {
            if self.entries[i].name == key {
                proof {
                    assert(self@[i as int].name == name@);
                }
                return Some(&self.entries[i].value);
            }
            proof {
                assert(self@[i as int] == self.entries@[i as int]@);
            }
            i += 1;
        }
        None
    }
}

} // verus!
