//! The Line Registry: the schema validator's working state.  It maps each
//! line number to the plans already accepted on that line, kept sorted by
//! starting column, and rejects any newly inserted plan whose column range
//! intersects one already present.  It is built once per schema and
//! discarded after validation; it is not part of the extraction path.

use vstd::prelude::*;

use crate::schema::{plans_conflict, plans_disjoint, plans_overlap, ExtractionPlan, SchemaError};

verus! {

/// One field together with its compiled slicing rule, as the validator
/// tracks it.
#[derive(Debug)]
pub struct PlannedField {
    pub name: String,
    pub plan: ExtractionPlan,
}

/// The mathematical value of a [`PlannedField`].
pub struct PlannedFieldV {
    pub name: Seq<char>,
    pub plan: ExtractionPlan,
}

impl View for PlannedField {
    type V = PlannedFieldV;

    open spec fn view(&self) -> PlannedFieldV {
        PlannedFieldV { name: self.name@, plan: self.plan }
    }
}

/// The fields accepted so far on one line, sorted by starting column.
#[derive(Debug)]
pub struct LineGroup {
    pub line: usize,
    pub fields: Vec<PlannedField>,
}

/// The fields a group holds, as mathematical values, in order.
pub open spec fn group_fields(g: LineGroup) -> Seq<PlannedFieldV> {
    g.fields@.map_values(|f: PlannedField| f@)
}

/// What a group contributes to the registry's view of line `l`.
pub open spec fn group_contrib(g: LineGroup, l: usize) -> Seq<PlannedFieldV> {
    if g.line == l {
        group_fields(g)
    } else {
        Seq::empty()
    }
}

/// The fields that a sequence of groups holds on line `l`, in group order.
pub open spec fn seq_on_line(gs: Seq<LineGroup>, l: usize) -> Seq<PlannedFieldV>
    decreases gs.len(),
{
    if gs.len() == 0 {
        Seq::empty()
    } else {
        group_contrib(gs[0], l) + seq_on_line(gs.drop_first(), l)
    }
}

/// Splitting a sequence of groups splits what they hold on every line.
pub proof fn lemma_on_line_concat(a: Seq<LineGroup>, b: Seq<LineGroup>, l: usize)
    ensures
        seq_on_line(a + b, l) == seq_on_line(a, l) + seq_on_line(b, l),
    decreases a.len(),
{
    if a.len() == 0 {
        assert(a + b =~= b);
        assert(Seq::<PlannedFieldV>::empty() + seq_on_line(b, l) =~= seq_on_line(b, l));
    } else {
        lemma_on_line_concat(a.drop_first(), b, l);
        assert((a + b).drop_first() =~= a.drop_first() + b);
        assert((a + b)[0] == a[0]);
        assert(group_contrib(a[0], l) + (seq_on_line(a.drop_first(), l) + seq_on_line(b, l))
            =~= (group_contrib(a[0], l) + seq_on_line(a.drop_first(), l)) + seq_on_line(b, l));
    }
}

/// A single group holds exactly its own contribution.
pub proof fn lemma_on_line_singleton(g: LineGroup, l: usize)
    ensures
        seq_on_line(seq![g], l) == group_contrib(g, l),
{
    let s = seq![g];
    assert(s.len() == 1);
    assert(s[0] == g);
    assert(s.drop_first().len() == 0);
    assert(seq_on_line(s.drop_first(), l) == Seq::<PlannedFieldV>::empty());
    assert(group_contrib(g, l) + Seq::<PlannedFieldV>::empty() =~= group_contrib(g, l));
}

/// Groups for other lines hold nothing on line `l`.
pub proof fn lemma_on_line_no_match(gs: Seq<LineGroup>, l: usize)
    requires
        forall|i: int| 0 <= i < gs.len() ==> (#[trigger] gs[i]).line != l,
    ensures
        seq_on_line(gs, l) == Seq::<PlannedFieldV>::empty(),
    decreases gs.len(),
{
    if gs.len() > 0 {
        lemma_on_line_no_match(gs.drop_first(), l);
        assert(Seq::<PlannedFieldV>::empty() + Seq::<PlannedFieldV>::empty()
            =~= Seq::<PlannedFieldV>::empty());
    }
}

/// When exactly one group is for line `l`, it alone decides what the
/// registry holds there.
pub proof fn lemma_on_line_single(gs: Seq<LineGroup>, k: int, l: usize)
    requires
        0 <= k < gs.len(),
        gs[k].line == l,
        forall|i: int| 0 <= i < gs.len() && i != k ==> (#[trigger] gs[i]).line != l,
    ensures
        seq_on_line(gs, l) == group_fields(gs[k]),
{
    let pre = gs.subrange(0, k);
    let mid = seq![gs[k]];
    let post = gs.subrange(k + 1, gs.len() as int);
    assert(gs =~= (pre + mid) + post);
    lemma_on_line_concat(pre + mid, post, l);
    lemma_on_line_concat(pre, mid, l);
    lemma_on_line_no_match(pre, l);
    lemma_on_line_no_match(post, l);
    lemma_on_line_singleton(gs[k], l);
    assert(seq_on_line(gs, l) =~= group_fields(gs[k]));
}

/// A well-formed group: every field is on the group's line with a
/// well-formed plan, fields are sorted by starting column, and the
/// column ranges are pairwise disjoint.
pub open spec fn group_wf(g: LineGroup) -> bool {
    &&& forall|i: int|
        0 <= i < group_fields(g).len() ==> {
            &&& (#[trigger] group_fields(g)[i]).plan.line_no() == g.line
            &&& group_fields(g)[i].plan.wf()
        }
    &&& forall|i: int, j: int|
        0 <= i < j < group_fields(g).len() ==> {
            &&& plans_disjoint(
                (#[trigger] group_fields(g)[i]).plan,
                (#[trigger] group_fields(g)[j]).plan,
            )
            &&& group_fields(g)[i].plan.start_col() < group_fields(g)[j].plan.start_col()
        }
}

/// The validator's working state: one group per line that has fields.
#[derive(Debug)]
pub struct ParsingStructure {
    pub lines: Vec<LineGroup>,
}

impl ParsingStructure {
    /// The fields held on line `l`, sorted by starting column.
    pub open spec fn on_line(&self, l: usize) -> Seq<PlannedFieldV> {
        seq_on_line(self.lines@, l)
    }

    /// Well-formedness: groups are for distinct lines and each is itself
    /// well-formed.
    pub open spec fn wf(&self) -> bool {
        &&& forall|i: int| 0 <= i < self.lines@.len() ==> group_wf(#[trigger] self.lines@[i])
        &&& forall|i: int, j: int|
            0 <= i < j < self.lines@.len() ==> (#[trigger] self.lines@[i]).line != (
            #[trigger] self.lines@[j]).line
    }

    /// An empty registry.
    pub fn new() -> (r: ParsingStructure)
        ensures
            r.wf(),
            forall|l: usize| r.on_line(l) == Seq::<PlannedFieldV>::empty(),
    {
        ParsingStructure { lines: Vec::new() }
    }

    /// Accepts `field` onto its line if its column range is disjoint from
    /// every range already accepted there, keeping the line's fields
    /// sorted by starting column; otherwise reports the overlap, naming
    /// the field already present first and leaving the registry unchanged.
    pub fn insert(&mut self, field: PlannedField) -> (r: Result<(), SchemaError>)
        requires
            old(self).wf(),
            field.plan.wf(),
        ensures
            final(self).wf(),
            r is Ok <==> (forall|k: int|
                0 <= k < old(self).on_line(field.plan.line_no()).len() ==> !plans_overlap(
                    (#[trigger] old(self).on_line(field.plan.line_no())[k]).plan,
                    field.plan,
                )),
            r is Ok ==> {
                let l = field.plan.line_no();
                &&& forall|l2: usize|
                    l2 != l ==> #[trigger] final(self).on_line(l2) == old(self).on_line(l2)
                &&& final(self).on_line(l).len() == old(self).on_line(l).len() + 1
                &&& forall|x: PlannedFieldV|
                    #[trigger] final(self).on_line(l).contains(x) <==> old(self).on_line(
                        l,
                    ).contains(x) || x == field@
            },
            r matches Err(e) ==> {
                let l = field.plan.line_no();
                &&& *final(self) == *old(self)
                &&& e matches SchemaError::OverlappingFields { field_a, field_b, line } && {
                    &&& line == l
                    &&& field_b@ == field.name@
                    &&& exists|k: int|
                        0 <= k < old(self).on_line(l).len() && (#[trigger] old(self).on_line(
                            l,
                        )[k]).name == field_a@ && plans_overlap(
                            old(self).on_line(l)[k].plan,
                            field.plan,
                        )
                }
            },
    {
        let l = field.plan.line_number();
        let n = self.lines.len();
        let mut gi: usize = 0;
        while gi < n && self.lines[gi].line != l
            invariant
                n == self.lines@.len(),
                gi <= n,
                forall|i: int| 0 <= i < gi ==> (#[trigger] self.lines@[i]).line != l,
            decreases n - gi,
        {
            gi += 1;
        }
        if gi == n {
            // No field yet on this line: nothing can overlap.
            proof {
                lemma_on_line_no_match(self.lines@, l);
            }
            let mut fv: Vec<PlannedField> = Vec::new();
            fv.push(field);
            let g = LineGroup { line: l, fields: fv };
            proof {
                assert(group_fields(g) =~= seq![field@]);
            }
            self.lines.push(g);
            proof {
                let gs0 = old(self).lines@;
                assert(self.lines@ =~= gs0 + seq![g]);
                assert forall|l2: usize| true implies #[trigger] seq_on_line(gs0 + seq![g], l2)
                    == seq_on_line(gs0, l2) + group_contrib(g, l2) by {
                    lemma_on_line_concat(gs0, seq![g], l2);
                    lemma_on_line_singleton(g, l2);
                }
                assert forall|l2: usize| l2 != l implies #[trigger] self.on_line(l2) == old(
                    self,
                ).on_line(l2) by {
                    assert(seq_on_line(gs0, l2) + Seq::<PlannedFieldV>::empty() =~= seq_on_line(
                        gs0,
                        l2,
                    ));
                }
                assert(self.on_line(l) =~= seq![field@]);
                assert forall|x: PlannedFieldV| #[trigger] self.on_line(l).contains(x) implies (old(
                    self,
                ).on_line(l).contains(x) || x == field@) by {}
                assert(self.on_line(l).contains(field@)) by {
                    assert(self.on_line(l)[0] == field@);
                }
            }
            return Ok(());
        }
        // The group for this line exists at index gi.
        let glen = self.lines[gi].fields.len();
        proof {
            lemma_on_line_single(self.lines@, gi as int, l);
        }
        let mut j: usize = 0;
        while j < glen && !plans_conflict(&self.lines[gi].fields[j].plan, &field.plan)
            invariant
                gi < self.lines@.len(),
                self.lines@[gi as int].line == l,
                glen == self.lines@[gi as int].fields@.len(),
                j <= glen,
                forall|i: int|
                    0 <= i < j ==> !plans_overlap(
                        (#[trigger] group_fields(self.lines@[gi as int])[i]).plan,
                        field.plan,
                    ),
            decreases glen - j,
        {
            j += 1;
        }
        if j < glen {
            // The scan stopped on an overlapping field: reject the pair.
            let conflicting = self.lines[gi].fields[j].name.clone();
            proof {
                assert(plans_overlap(group_fields(self.lines@[gi as int])[j as int].plan,
                    field.plan));
                assert(old(self).on_line(l)[j as int] == group_fields(
                    self.lines@[gi as int],
                )[j as int]);
            }
            return Err(
                SchemaError::OverlappingFields {
                    field_a: conflicting,
                    field_b: field.name.clone(),
                    line: l,
                },
            );
        }
        // Disjoint from everything on the line: insert, keeping the sort
        // by starting column.
        let start = field.plan.start_column();
        let mut k: usize = 0;
        while k < glen && self.lines[gi].fields[k].plan.start_column() <= start
            invariant
                gi < self.lines@.len(),
                self.lines@[gi as int].line == l,
                glen == self.lines@[gi as int].fields@.len(),
                k <= glen,
                start == field.plan.start_col(),
                forall|i: int|
                    0 <= i < k ==> (#[trigger] group_fields(self.lines@[gi as int])[i]).plan
                        .start_col() <= start,
            decreases glen - k,
        {
            k += 1;
        }
        proof {
            let gv = group_fields(self.lines@[gi as int]);
            assert forall|i: int| 0 <= i < k implies (#[trigger] gv[i]).plan.start_col()
                < field.plan.start_col() by {
                assert(!plans_overlap(gv[i].plan, field.plan));
                assert(gv[i].plan.line_no() == l);
                assert(field.plan.line_no() == l);
                assert(plans_disjoint(gv[i].plan, field.plan));
            }
        }
        let mut g = self.lines.remove(gi);
        g.fields.insert(k, field);
        let ghost gnew = g;
        self.lines.insert(gi, g);
        proof {
            let gs0 = old(self).lines@;
            let gold = gs0[gi as int];
            assert(self.lines@ =~= gs0.update(gi as int, gnew));
            let oldf = group_fields(gold);
            let newf = group_fields(gnew);
            assert(gnew.fields@ =~= gold.fields@.insert(k as int, field));
            assert(newf =~= oldf.insert(k as int, field@)) by {
                assert(newf.len() == oldf.len() + 1);
                assert forall|i: int| 0 <= i < newf.len() implies newf[i] == oldf.insert(
                    k as int,
                    field@,
                )[i] by {
                    assert(newf[i] == gnew.fields@[i]@);
                }
            }
            // Index bookkeeping for the inserted sequence.
            assert(newf.len() == oldf.len() + 1);
            assert forall|i: int| 0 <= i < k implies #[trigger] newf[i] == oldf[i] by {}
            assert(newf[k as int] == field@);
            assert forall|i: int| k < i < newf.len() implies #[trigger] newf[i] == oldf[i - 1]
                by {}
            // The updated group is well formed.
            assert(group_wf(gnew)) by {
                assert forall|i: int| 0 <= i < newf.len() implies {
                    &&& (#[trigger] newf[i]).plan.line_no() == gnew.line
                    &&& newf[i].plan.wf()
                } by {
                    if i < k {
                        assert(newf[i] == oldf[i]);
                    } else if i > k {
                        assert(newf[i] == oldf[i - 1]);
                    }
                }
                assert forall|i: int, j2: int| 0 <= i < j2 < newf.len() implies {
                    &&& plans_disjoint((#[trigger] newf[i]).plan, (#[trigger] newf[j2]).plan)
                    &&& newf[i].plan.start_col() < newf[j2].plan.start_col()
                } by {
                    if i == k {
                        assert(newf[j2] == oldf[j2 - 1]);
                        assert(j2 - 1 >= k);
                        assert(oldf[j2 - 1].plan.start_col() > field.plan.start_col());
                        assert(!plans_overlap(oldf[j2 - 1].plan, field.plan));
                        assert(plans_disjoint(field.plan, oldf[j2 - 1].plan));
                    } else if j2 == k {
                        assert(newf[i] == oldf[i]);
                        assert(oldf[i].plan.start_col() < field.plan.start_col());
                        assert(!plans_overlap(oldf[i].plan, field.plan));
                        assert(plans_disjoint(oldf[i].plan, field.plan));
                    } else if i < k && j2 > k {
                        assert(newf[i] == oldf[i] && newf[j2] == oldf[j2 - 1]);
                        assert(i < j2 - 1 < oldf.len());
                    } else if i > k {
                        assert(newf[i] == oldf[i - 1] && newf[j2] == oldf[j2 - 1]);
                    } else {
                        assert(newf[i] == oldf[i] && newf[j2] == oldf[j2]);
                    }
                }
            }
            // The registry stays well formed and other lines are untouched.
            assert forall|i: int| 0 <= i < self.lines@.len() implies group_wf(
                #[trigger] self.lines@[i],
            ) by {
                if i != gi {
                    assert(self.lines@[i] == gs0[i]);
                }
            }
            assert forall|l2: usize| l2 != l implies #[trigger] self.on_line(l2) == old(
                self,
            ).on_line(l2) by {
                lemma_on_line_update(gs0, gi as int, gnew, l2);
            }
            lemma_on_line_single(self.lines@, gi as int, l);
            assert(self.on_line(l) == newf);
            // Membership: the new line holds the old fields plus the new one.
            assert forall|x: PlannedFieldV| #[trigger] self.on_line(l).contains(x) implies (old(
                self,
            ).on_line(l).contains(x) || x == field@) by {
                let i = choose|i: int| 0 <= i < newf.len() && newf[i] == x;
                if i < k {
                    assert(oldf[i] == x);
                } else if i > k {
                    assert(oldf[i - 1] == x);
                }
            }
            assert forall|x: PlannedFieldV| (old(self).on_line(l).contains(x) || x == field@)
                implies #[trigger] self.on_line(l).contains(x) by {
                if x == field@ {
                    assert(newf[k as int] == x);
                } else {
                    let i = choose|i: int| 0 <= i < oldf.len() && oldf[i] == x;
                    if i < k {
                        assert(newf[i] == x);
                    } else {
                        assert(newf[i + 1] == x);
                    }
                }
            }
        }
        Ok(())
    }
}

/// Replacing one group changes only what its own lines hold.
pub proof fn lemma_on_line_update(gs: Seq<LineGroup>, k: int, g2: LineGroup, l: usize)
    requires
        0 <= k < gs.len(),
        gs[k].line != l,
        g2.line != l,
    ensures
        seq_on_line(gs.update(k, g2), l) == seq_on_line(gs, l),
{
    let pre = gs.subrange(0, k);
    let post = gs.subrange(k + 1, gs.len() as int);
    assert(gs =~= (pre + seq![gs[k]]) + post);
    assert(gs.update(k, g2) =~= (pre + seq![g2]) + post);
    lemma_on_line_concat(pre + seq![gs[k]], post, l);
    lemma_on_line_concat(pre, seq![gs[k]], l);
    lemma_on_line_concat(pre + seq![g2], post, l);
    lemma_on_line_concat(pre, seq![g2], l);
    lemma_on_line_singleton(gs[k], l);
    lemma_on_line_singleton(g2, l);
    assert(group_contrib(gs[k], l) =~= Seq::<PlannedFieldV>::empty());
    assert(group_contrib(g2, l) =~= Seq::<PlannedFieldV>::empty());
}

} // verus!
