//! The job/inspector assignment pipeline: greedy best-fit matching.
//!
//! For every job lacking an assignment the system scores every feasible
//! inspector (one whose skill level reaches the job's requirement) as
//! `100 - 10 * distance + 5 * priority` and assigns the job to the
//! strictly best candidate, ties going to the candidate evaluated first
//! (entity order). A job with no feasible inspector stays unassigned.
//!
//! Coordinates are plain 2-D values in fixed point, ten-thousandths of a
//! degree (49.2827 is written 492827), so that distances and scores are
//! exact integers: distances and scores carry the same scale, a score of
//! 100 being 1000000.

use vstd::prelude::*;

use crate::kernel::{
    apply_commands, in_entity_prefix, rec_has, rec_matches, CommandBuffer, ComponentKind,
    ComponentValue, Entity, EntityRecord, RecordV, World,
};
use crate::scheduler::{schedule_ready, run_systems_spec, Schedule, SystemId};

verus! {

/// A 2-D location in ten-thousandths of a degree.
#[derive(Clone, Copy, PartialEq, Eq, Structural, Debug)]
pub struct Coord {
    pub x: i64,
    pub y: i64,
}

/// A field inspector available for assignment.
#[derive(Debug, Clone, PartialEq)]
pub struct Inspector {
    pub id: String,
    pub name: String,
    pub current_location: Coord,
    pub skill_level: u8,
}

/// Mathematical image of [`Inspector`].
#[verifier::ext_equal]
pub struct InspectorV {
    pub id: Seq<char>,
    pub name: Seq<char>,
    pub current_location: Coord,
    pub skill_level: u8,
}

impl View for Inspector {
    type V = InspectorV;

    open spec fn view(&self) -> InspectorV {
        InspectorV {
            id: self.id@,
            name: self.name@,
            current_location: self.current_location,
            skill_level: self.skill_level,
        }
    }
}

/// An inspection job waiting for an inspector.
#[derive(Debug, Clone, PartialEq)]
pub struct InspectionJob {
    pub id: String,
    pub location: Coord,
    pub priority: u8,
    pub estimated_duration_minutes: u32,
    pub required_skill_level: u8,
}

/// Mathematical image of [`InspectionJob`].
#[verifier::ext_equal]
pub struct InspectionJobV {
    pub id: Seq<char>,
    pub location: Coord,
    pub priority: u8,
    pub estimated_duration_minutes: u32,
    pub required_skill_level: u8,
}

impl View for InspectionJob {
    type V = InspectionJobV;

    open spec fn view(&self) -> InspectionJobV {
        InspectionJobV {
            id: self.id@,
            location: self.location,
            priority: self.priority,
            estimated_duration_minutes: self.estimated_duration_minutes,
            required_skill_level: self.required_skill_level,
        }
    }
}

/// A calendar slot of an inspector.
#[derive(Debug, Clone, PartialEq)]
pub struct AvailabilitySlot {
    pub inspector_id: String,
    pub date: String,
    pub is_blocked: bool,
}

/// Mathematical image of [`AvailabilitySlot`].
#[verifier::ext_equal]
pub struct AvailabilitySlotV {
    pub inspector_id: Seq<char>,
    pub date: Seq<char>,
    pub is_blocked: bool,
}

impl View for AvailabilitySlot {
    type V = AvailabilitySlotV;

    open spec fn view(&self) -> AvailabilitySlotV {
        AvailabilitySlotV { inspector_id: self.inspector_id@, date: self.date@, is_blocked: self.is_blocked }
    }
}

/// The outcome of matching a job: the winning inspector and the score it
/// won with, in the same fixed-point scale as the coordinates (1000000
/// stands for a score of 100).
#[derive(Debug, Clone, PartialEq)]
pub struct AssignmentResult {
    pub assigned_inspector_id: String,
    pub score: i64,
}

/// Mathematical image of [`AssignmentResult`].
#[verifier::ext_equal]
pub struct AssignmentResultV {
    pub assigned_inspector_id: Seq<char>,
    pub score: i64,
}

impl View for AssignmentResult {
    type V = AssignmentResultV;

    open spec fn view(&self) -> AssignmentResultV {
        AssignmentResultV { assigned_inspector_id: self.assigned_inspector_id@, score: self.score }
    }
}

/// The floor of the square root of a non-negative integer, as a
/// recurrence; negative arguments give 0.
pub open spec fn sqrt_floor(n: int) -> int
    decreases n,
{
    if n <= 0 {
        0
    } else {
        let p = sqrt_floor(n - 1);
        if (p + 1) * (p + 1) <= n {
            p + 1
        } else {
            p
        }
    }
}

/// `sqrt_floor(n)` is the unique `r >= 0` with `r * r <= n < (r+1)^2`.
pub proof fn lemma_sqrt_floor_bracket(n: int)
    requires
        n >= 0,
    ensures
        sqrt_floor(n) >= 0,
        sqrt_floor(n) * sqrt_floor(n) <= n,
        n < (sqrt_floor(n) + 1) * (sqrt_floor(n) + 1),
    decreases n,
{
    if n == 0 {
    } else {
        lemma_sqrt_floor_bracket(n - 1);
        let p = sqrt_floor(n - 1);
        if (p + 1) * (p + 1) <= n {
            assert(n - 1 < (p + 1) * (p + 1));
            assert(n == (p + 1) * (p + 1));
            assert((p + 2) * (p + 2) > n) by (nonlinear_arith)
                requires
                    p >= 0,
                    n == (p + 1) * (p + 1),
            {}
        } else {
        }
    }
}

/// Two non-negative integers bracketing `n` the same way are equal.
pub proof fn lemma_sqrt_floor_unique(n: int, r: int)
    requires
        n >= 0,
        r >= 0,
        r * r <= n,
        n < (r + 1) * (r + 1),
    ensures
        r == sqrt_floor(n),
{
    lemma_sqrt_floor_bracket(n);
    let s = sqrt_floor(n);
    if r < s {
        assert((r + 1) * (r + 1) <= s * s) by (nonlinear_arith)
            requires
                0 <= r < s,
        {}
    } else if s < r {
        assert((s + 1) * (s + 1) <= r * r) by (nonlinear_arith)
            requires
                0 <= s < r,
        {}
    }
}

/// The floor of the square root, by binary search.
pub fn isqrt(n: u64) -> (r: u64)
    ensures
        r as int == sqrt_floor(n as int),
        (r as int) * (r as int) <= n as int,
        (n as int) < (r as int + 1) * (r as int + 1),
{
    let mut lo: u64 = 0;
    let mut hi: u64 = 0x1_0000_0000;
    proof {
        assert((0x1_0000_0000u64 as int) * (0x1_0000_0000u64 as int) > u64::MAX as int);
    }
    while lo + 1 < hi
        invariant
            0 <= lo < hi <= 0x1_0000_0000,
            (lo as int) * (lo as int) <= n as int,
            (n as int) < (hi as int) * (hi as int),
        decreases hi - lo,
    {
        let mid = lo + (hi - lo) / 2;
        proof {
            assert((mid as int) * (mid as int) <= 0x1_0000_0000 * 0x1_0000_0000)
                by (nonlinear_arith)
                requires
                    0 <= mid <= 0x1_0000_0000,
            {}
        }
        let sq: u128 = (mid as u128) * (mid as u128);
        if sq <= n as u128 {
            lo = mid;
        } else {
            hi = mid;
        }
    }
    proof {
        lemma_sqrt_floor_unique(n as int, lo as int);
    }
    lo
}

/// The squared euclidean distance of two coordinates.
pub open spec fn dist2(a: Coord, b: Coord) -> int {
    (a.x - b.x) * (a.x - b.x) + (a.y - b.y) * (a.y - b.y)
}

/// A coordinate the scoring arithmetic accepts: each axis within plus or
/// minus 2000000 (two hundred degrees), so that squared distances and
/// scores stay exact in 64 bits.
pub open spec fn coord_ok(c: Coord) -> bool {
    &&& -2000000 <= c.x <= 2000000
    &&& -2000000 <= c.y <= 2000000
}

/// An inspector may take a job at all: its skill level reaches the job's
/// required skill level. The only feasibility constraint there is.
pub open spec fn feasible(ins: InspectorV, job: InspectionJobV) -> bool {
    ins.skill_level >= job.required_skill_level
}

/// The score of a feasible inspector for a job:
/// `100 - 10 * distance + 5 * priority`, in fixed point (1000000 stands
/// for 100), the distance rounded down to the coordinate grid.
pub open spec fn score_spec(ins: InspectorV, job: InspectionJobV) -> int {
    1000000 - 10 * sqrt_floor(dist2(ins.current_location, job.location)) + 50000 * (
    job.priority as int)
}

/// Compute the exact fixed-point score of an inspector for a job.
pub fn compute_score(ins: &Inspector, job: &InspectionJob) -> (s: i64)
    requires
        coord_ok(ins.current_location),
        coord_ok(job.location),
    ensures
        s as int == score_spec(ins@, job@),
{
    let dx: i64 = ins.current_location.x - job.location.x;
    let dy: i64 = ins.current_location.y - job.location.y;
    proof {
        assert(dx * dx + dy * dy <= 32000000000000 && dx * dx >= 0 && dy * dy >= 0)
            by (nonlinear_arith)
            requires
                -4000000 <= dx <= 4000000,
                -4000000 <= dy <= 4000000,
        {}
    }
    let d2: i64 = dx * dx + dy * dy;
    let d: u64 = isqrt(d2 as u64);
    proof {
        assert((d as int) * (d as int) <= 32000000000000 ==> d <= 6000000) by (nonlinear_arith) {}
    }
    1000000 - 10 * (d as i64) + 50000 * (job.priority as i64)
}

/// The winner among the records up to here for the given job: the index
/// of the feasible inspector with the strictly highest score, ties going
/// to the one evaluated (spawned) first; `None` when no inspector is
/// feasible.
pub open spec fn select_best(recs: Seq<RecordV>, job: InspectionJobV) -> Option<int>
    decreases recs.len(),
{
    if recs.len() == 0 {
        None
    } else {
        let prev = select_best(recs.drop_last(), job);
        let i = recs.len() - 1;
        match recs[i].inspector {
            Some(ins) => if !feasible(ins, job) {
                prev
            } else {
                match prev {
                    None => Some(i as int),
                    Some(j) => if score_spec(ins, job) > score_spec(
                        recs[j].inspector->0,
                        job,
                    ) {
                        Some(i as int)
                    } else {
                        Some(j)
                    },
                }
            },
            None => prev,
        }
    }
}

/// What the selection guarantees: it returns a feasible inspector if and
/// only if one exists; the winner scores at least every feasible
/// candidate and strictly above every earlier one.
pub proof fn lemma_select_best_props(recs: Seq<RecordV>, job: InspectionJobV)
    ensures
        match select_best(recs, job) {
            None => forall|k: int|
                0 <= k < recs.len() ==> !((#[trigger] recs[k]).inspector is Some && feasible(
                    recs[k].inspector->0,
                    job,
                )),
            Some(j) => {
                &&& 0 <= j < recs.len()
                &&& recs[j].inspector is Some
                &&& feasible(recs[j].inspector->0, job)
                &&& forall|k: int|
                    0 <= k < recs.len() && (#[trigger] recs[k]).inspector is Some && feasible(
                        recs[k].inspector->0,
                        job,
                    ) ==> score_spec(recs[k].inspector->0, job) <= score_spec(
                        recs[j].inspector->0,
                        job,
                    )
                &&& forall|k: int|
                    0 <= k < j && (#[trigger] recs[k]).inspector is Some && feasible(
                        recs[k].inspector->0,
                        job,
                    ) ==> score_spec(recs[k].inspector->0, job) < score_spec(
                        recs[j].inspector->0,
                        job,
                    )
            },
        },
    decreases recs.len(),
{
    if recs.len() > 0 {
        lemma_select_best_props(recs.drop_last(), job);
        assert forall|k: int| 0 <= k < recs.len() - 1 implies recs.drop_last()[k] == recs[k] by {}
    }
}

/// A job entity awaits assignment: it has a job and no result yet.
pub open spec fn awaits_assignment(r: RecordV) -> bool {
    r.job is Some && r.assignment is None
}

/// Assignment on one record of the store: a job without a result gains
/// the winning inspector's identifier and score; when no inspector is
/// feasible the record is untouched, as is every non-job record.
pub open spec fn job_assign_rec(recs: Seq<RecordV>, r: RecordV) -> RecordV {
    if awaits_assignment(r) {
        match select_best(recs, r.job->0) {
            None => r,
            Some(j) => RecordV {
                assignment: Some(
                    AssignmentResultV {
                        assigned_inspector_id: recs[j].inspector->0.id,
                        score: score_spec(recs[j].inspector->0, r.job->0) as i64,
                    },
                ),
                ..r
            },
        }
    } else {
        r
    }
}

/// The store after the assignment system's pass. Inspectors are read as
/// they stood before the pass; results reach the store only through the
/// command buffer, after the pass.
pub open spec fn assignment_sys_spec(recs: Seq<RecordV>) -> Seq<RecordV> {
    Seq::new(recs.len(), |i: int| job_assign_rec(recs, recs[i]))
}

/// Every coordinate in the store fits the scoring arithmetic.
pub open spec fn coords_ok(recs: Seq<RecordV>) -> bool {
    forall|i: int|
        0 <= i < recs.len() ==> ((#[trigger] recs[i]).inspector is Some ==> coord_ok(
            recs[i].inspector->0.current_location,
        )) && (recs[i].job is Some ==> coord_ok(recs[i].job->0.location))
}

/// Selection ignores a stretch of records holding no inspector.
proof fn lemma_select_skip(recs: Seq<RecordV>, job: InspectionJobV, b1: int, b2: int)
    requires
        0 <= b1 <= b2 <= recs.len(),
        forall|t: int| b1 <= t < b2 ==> !((#[trigger] recs[t]).inspector is Some),
    ensures
        select_best(recs.subrange(0, b2), job) == select_best(recs.subrange(0, b1), job),
    decreases b2 - b1,
{
    if b1 < b2 {
        lemma_select_skip(recs, job, b1, b2 - 1);
        assert(recs.subrange(0, b2).drop_last() =~= recs.subrange(0, b2 - 1));
        assert(recs.subrange(0, b2).last() == recs[b2 - 1]);
    }
}

/// Selection after one more record holding an inspector: the earlier
/// winner stands unless the new candidate is feasible and scores
/// strictly higher.
proof fn lemma_select_step(recs: Seq<RecordV>, job: InspectionJobV, t: int)
    requires
        0 <= t < recs.len(),
        recs[t].inspector is Some,
    ensures
        ({
            let prev = select_best(recs.subrange(0, t), job);
            let ins = recs[t].inspector->0;
            select_best(recs.subrange(0, t + 1), job) == (if !feasible(ins, job) {
                prev
            } else {
                match prev {
                    None => Some(t),
                    Some(j) => if score_spec(ins, job) > score_spec(
                        recs[j].inspector->0,
                        job,
                    ) {
                        Some(t)
                    } else {
                        Some(j)
                    },
                }
            })
        }),
{
    let sub1 = recs.subrange(0, t + 1);
    assert(sub1.drop_last() =~= recs.subrange(0, t));
    assert(sub1.last() == recs[t]);
    lemma_select_best_props(recs.subrange(0, t), job);
}

/// A record that holds an inspector satisfies the inspector query shape.
proof fn lemma_no_inspector_between(
    recs: Seq<RecordV>,
    inspectors: Seq<Entity>,
    ins_with: Seq<ComponentKind>,
    ins_without: Seq<ComponentKind>,
    a: int,
    b: int,
)
    requires
        ins_with.len() == 1,
        ins_with[0] == ComponentKind::Inspector,
        ins_without.len() == 0,
        forall|e: int|
            0 <= e < recs.len() && rec_matches(#[trigger] recs[e], ins_with, ins_without)
                ==> inspectors.contains(Entity(e as usize)),
        recs.len() <= usize::MAX,
        0 <= a,
        b <= recs.len(),
        forall|p: int| 0 <= p < inspectors.len() ==> !(a <= (#[trigger] inspectors[p]).0 < b),
    ensures
        forall|u: int| a <= u < b ==> !((#[trigger] recs[u]).inspector is Some),
{
    assert forall|u: int| a <= u < b implies !((#[trigger] recs[u]).inspector is Some) by {
        if recs[u].inspector is Some {
            assert forall|kk: int| 0 <= kk < ins_with.len() implies rec_has(
                recs[u],
                ins_with[kk],
            ) by {}
            assert(rec_matches(recs[u], ins_with, ins_without));
            assert(inspectors.contains(Entity(u as usize)));
            let p = choose|p: int|
                0 <= p < inspectors.len() && inspectors[p] == Entity(u as usize);
            assert(a <= inspectors[p].0 < b);
        }
    }
}

/// For every job lacking an assignment result, score every feasible
/// inspector and record the strictly best candidate, ties going to the
/// candidate evaluated first; the results reach the store through the
/// command buffer, after the pass. Jobs with no feasible inspector stay
/// unassigned; inspectors are never mutated.
pub fn assignment_scoring_system(world: &mut World)
    requires
        coords_ok(old(world)@),
    ensures
        final(world)@ == assignment_sys_spec(old(world)@),
{
    let ghost orig = world@;
    let total = world.num_entities();
    let mut job_with: Vec<ComponentKind> = Vec::new();
    job_with.push(ComponentKind::InspectionJob);
    let mut job_without: Vec<ComponentKind> = Vec::new();
    job_without.push(ComponentKind::AssignmentResult);
    let mut ins_with: Vec<ComponentKind> = Vec::new();
    ins_with.push(ComponentKind::Inspector);
    let ins_without: Vec<ComponentKind> = Vec::new();
    let jobs = world.query(&job_with, &job_without);
    let inspectors = world.query(&ins_with, &ins_without);
    let jlen = jobs.len();
    let ilen = inspectors.len();
    let mut buf = CommandBuffer::new();
    proof {
        assert(apply_commands(orig, buf@) == orig);
    }
    let mut m: usize = 0;
    while m < jlen
        invariant
            total == orig.len(),
            world@ == orig,
            coords_ok(orig),
            jlen == jobs@.len(),
            ilen == inspectors@.len(),
            0 <= m <= jlen,
            job_with@.len() == 1,
            job_with@[0] == ComponentKind::InspectionJob,
            job_without@.len() == 1,
            job_without@[0] == ComponentKind::AssignmentResult,
            ins_with@.len() == 1,
            ins_with@[0] == ComponentKind::Inspector,
            ins_without@.len() == 0,
            forall|p: int|
                0 <= p < jlen ==> (#[trigger] jobs@[p]).0 < orig.len() && rec_matches(
                    orig[jobs@[p].0 as int],
                    job_with@,
                    job_without@,
                ),
            forall|i: int, j: int| 0 <= i < j < jlen ==> jobs@[i].0 < jobs@[j].0,
            forall|e: int|
                0 <= e < orig.len() && rec_matches(#[trigger] orig[e], job_with@, job_without@)
                    ==> jobs@.contains(Entity(e as usize)),
            forall|p: int|
                0 <= p < ilen ==> (#[trigger] inspectors@[p]).0 < orig.len() && rec_matches(
                    orig[inspectors@[p].0 as int],
                    ins_with@,
                    ins_without@,
                ),
            forall|i: int, j: int| 0 <= i < j < ilen ==> inspectors@[i].0 < inspectors@[j].0,
            forall|e: int|
                0 <= e < orig.len() && rec_matches(#[trigger] orig[e], ins_with@, ins_without@)
                    ==> inspectors@.contains(Entity(e as usize)),
            apply_commands(orig, buf@).len() == orig.len(),
            forall|p: int|
                0 <= p < m ==> apply_commands(orig, buf@)[(#[trigger] jobs@[p]).0 as int]
                    == job_assign_rec(orig, orig[jobs@[p].0 as int]),
            forall|j: int|
                0 <= j < orig.len() && !in_entity_prefix(jobs@, m as int, j) ==> apply_commands(
                    orig,
                    buf@,
                )[j] == orig[j],
        decreases jlen - m,
    {
        let ghost pre_buf = buf@;
        let e = jobs[m];
        proof {
            assert(!in_entity_prefix(jobs@, m as int, e.0 as int));
            assert(rec_matches(orig[e.0 as int], job_with@, job_without@));
            assert(rec_has(orig[e.0 as int], ComponentKind::InspectionJob));
            assert(!rec_has(orig[e.0 as int], ComponentKind::AssignmentResult));
        }
        let jrec = world.record(e);
        let job = jrec.job.as_ref().unwrap();
        let ghost jobv = orig[e.0 as int].job->0;

        let mut best_e: Option<Entity> = None;
        let mut best_s: i64 = 0;
        let mut k: usize = 0;
        proof {
            let bound0: int = if 0 < ilen {
                inspectors@[0].0 as int
            } else {
                orig.len() as int
            };
            lemma_no_inspector_between(orig, inspectors@, ins_with@, ins_without@, 0, bound0);
            lemma_select_skip(orig, jobv, 0, bound0);
            assert(orig.subrange(0, 0) =~= Seq::<RecordV>::empty());
        }
        while k < ilen
            invariant
                total == orig.len(),
                world@ == orig,
                coords_ok(orig),
                ilen == inspectors@.len(),
                0 <= k <= ilen,
                ins_with@.len() == 1,
                ins_with@[0] == ComponentKind::Inspector,
                ins_without@.len() == 0,
                e.0 < orig.len(),
                orig[e.0 as int].job is Some,
                jobv == orig[e.0 as int].job->0,
                job@ == jobv,
                forall|p: int|
                    0 <= p < ilen ==> (#[trigger] inspectors@[p]).0 < orig.len() && rec_matches(
                        orig[inspectors@[p].0 as int],
                        ins_with@,
                        ins_without@,
                    ),
                forall|i: int, j: int| 0 <= i < j < ilen ==> inspectors@[i].0 < inspectors@[j].0,
                forall|e2: int|
                    0 <= e2 < orig.len() && rec_matches(#[trigger] orig[e2], ins_with@, ins_without@)
                        ==> inspectors@.contains(Entity(e2 as usize)),
                select_best(
                    orig.subrange(
                        0,
                        if k < ilen {
                            inspectors@[k as int].0 as int
                        } else {
                            orig.len() as int
                        },
                    ),
                    jobv,
                ) == (match best_e {
                    None => None::<int>,
                    Some(be) => Some(be.0 as int),
                }),
                best_e is Some ==> ((best_e->0).0 < orig.len()
                    && orig[(best_e->0).0 as int].inspector is Some && best_s as int == score_spec(
                    orig[(best_e->0).0 as int].inspector->0,
                    jobv,
                )),
            decreases ilen - k,
        {
            let ie = inspectors[k];
            proof {
                assert(rec_matches(orig[ie.0 as int], ins_with@, ins_without@));
                assert(rec_has(orig[ie.0 as int], ComponentKind::Inspector));
            }
            let irec = world.record(ie);
            let ins = irec.inspector.as_ref().unwrap();
            let ghost t = ie.0 as int;
            if ins.skill_level >= job.required_skill_level {
                let s = compute_score(ins, job);
                let replace = match best_e {
                    None => true,
                    Some(_) => s > best_s,
                };
                if replace {
                    best_e = Some(ie);
                    best_s = s;
                }
            }
            proof {
                lemma_select_step(orig, jobv, t);
                let bound2: int = if k + 1 < ilen {
                    inspectors@[k as int + 1].0 as int
                } else {
                    orig.len() as int
                };
                assert forall|p: int|
                    0 <= p < inspectors@.len() implies !(t + 1 <= (#[trigger] inspectors@[p]).0
                    < bound2) by {
                    if p <= k {
                        if p < k {
                            assert(inspectors@[p].0 < inspectors@[k as int].0);
                        }
                    } else {
                        if k + 1 < ilen {
                            if p > k + 1 {
                                assert(inspectors@[k as int + 1].0 < inspectors@[p].0);
                            }
                        }
                    }
                }
                lemma_no_inspector_between(
                    orig,
                    inspectors@,
                    ins_with@,
                    ins_without@,
                    t + 1,
                    bound2,
                );
                lemma_select_skip(orig, jobv, t + 1, bound2);
            }
            k += 1;
        }
        proof {
            assert(orig.subrange(0, orig.len() as int) =~= orig);
        }
        if best_e.is_some() {
            let be = best_e.unwrap();
            let irec2 = world.record(be);
            let id: String = irec2.inspector.as_ref().unwrap().id.clone();
            let result = AssignmentResult { assigned_inspector_id: id, score: best_s };
            buf.insert(e, ComponentValue::Assignment(result));
        }
        proof {
            if best_e is Some {
                crate::kernel::lemma_apply_commands_push(
                    orig,
                    pre_buf,
                    buf@.last(),
                );
                assert(apply_commands(orig, pre_buf)[e.0 as int] == orig[e.0 as int]);
                assert(apply_commands(orig, buf@)[e.0 as int] =~= job_assign_rec(
                    orig,
                    orig[e.0 as int],
                ));
            } else {
                assert(job_assign_rec(orig, orig[e.0 as int]) == orig[e.0 as int]);
                assert(apply_commands(orig, buf@)[e.0 as int] == orig[e.0 as int]);
            }
            assert forall|j: int|
                0 <= j < orig.len() && !in_entity_prefix(jobs@, m as int + 1, j) implies
                apply_commands(orig, buf@)[j] == orig[j] by {
                assert(!in_entity_prefix(jobs@, m as int, j));
                assert(j != e.0 as int);
            }
            assert forall|p: int|
                0 <= p < m + 1 implies apply_commands(orig, buf@)[(#[trigger] jobs@[p]).0 as int]
                == job_assign_rec(orig, orig[jobs@[p].0 as int]) by {
                if p < m {
                    assert(jobs@[p].0 < jobs@[m as int].0);
                    assert(jobs@[p].0 != e.0);
                }
            }
        }
        m += 1;
    }
    world.apply(buf);
    proof {
        assert forall|j: int| 0 <= j < orig.len() implies world@[j] == job_assign_rec(
            orig,
            orig[j],
        ) by {
            if rec_matches(orig[j], job_with@, job_without@) {
                assert(orig.len() == total);
                assert(jobs@.contains(Entity(j as usize)));
                let p = choose|p: int| 0 <= p < jobs@.len() && jobs@[p] == Entity(j as usize);
                assert(jobs@[p].0 as int == j);
                assert(world@[j] == job_assign_rec(orig, orig[j]));
            } else {
                assert(!awaits_assignment(orig[j])) by {
                    if awaits_assignment(orig[j]) {
                        assert(job_with@[0] == ComponentKind::InspectionJob);
                        assert forall|kk: int|
                            0 <= kk < job_with@.len() implies rec_has(
                            orig[j],
                            job_with@[kk],
                        ) by {}
                        assert forall|kk: int|
                            0 <= kk < job_without@.len() implies !rec_has(
                            orig[j],
                            job_without@[kk],
                        ) by {}
                        assert(rec_matches(orig[j], job_with@, job_without@));
                    }
                }
                assert(!in_entity_prefix(jobs@, jlen as int, j)) by {
                    if in_entity_prefix(jobs@, jlen as int, j) {
                        let p = choose|p: int| 0 <= p < jlen && (#[trigger] jobs@[p]).0 == j;
                        assert(rec_matches(orig[j], job_with@, job_without@));
                    }
                }
                assert(world@[j] == orig[j]);
                assert(job_assign_rec(orig, orig[j]) == orig[j]);
            }
        }
        assert(world@ =~= assignment_sys_spec(orig));
    }
}

/// Every job with at least one feasible inspector is assigned after one
/// pass: its result names a feasible inspector, carries that inspector's
/// exact score, and no feasible inspector scores higher.
pub proof fn lemma_feasible_job_assigned(recs: Seq<RecordV>, i: int)
    requires
        0 <= i < recs.len(),
        awaits_assignment(recs[i]),
        exists|k: int|
            0 <= k < recs.len() && (#[trigger] recs[k]).inspector is Some && feasible(
                recs[k].inspector->0,
                recs[i].job->0,
            ),
    ensures
        assignment_sys_spec(recs)[i].assignment is Some,
        exists|k: int|
            {
                &&& 0 <= k < recs.len()
                &&& (#[trigger] recs[k]).inspector is Some
                &&& feasible(recs[k].inspector->0, recs[i].job->0)
                &&& assignment_sys_spec(recs)[i].assignment->0.assigned_inspector_id
                    == recs[k].inspector->0.id
                &&& assignment_sys_spec(recs)[i].assignment->0.score == score_spec(
                    recs[k].inspector->0,
                    recs[i].job->0,
                ) as i64
                &&& forall|k2: int|
                    0 <= k2 < recs.len() && (#[trigger] recs[k2]).inspector is Some && feasible(
                        recs[k2].inspector->0,
                        recs[i].job->0,
                    ) ==> score_spec(recs[k2].inspector->0, recs[i].job->0) <= score_spec(
                        recs[k].inspector->0,
                        recs[i].job->0,
                    )
            },
{
    let job = recs[i].job->0;
    lemma_select_best_props(recs, job);
    match select_best(recs, job) {
        None => {
            let w = choose|k: int|
                0 <= k < recs.len() && (#[trigger] recs[k]).inspector is Some && feasible(
                    recs[k].inspector->0,
                    job,
                );
            assert(false);
        },
        Some(j) => {
            assert(assignment_sys_spec(recs)[i] == job_assign_rec(recs, recs[i]));
            assert({
                &&& 0 <= j < recs.len()
                &&& recs[j].inspector is Some
                &&& feasible(recs[j].inspector->0, recs[i].job->0)
                &&& assignment_sys_spec(recs)[i].assignment->0.assigned_inspector_id
                    == recs[j].inspector->0.id
                &&& assignment_sys_spec(recs)[i].assignment->0.score == score_spec(
                    recs[j].inspector->0,
                    recs[i].job->0,
                ) as i64
                &&& forall|k2: int|
                    0 <= k2 < recs.len() && (#[trigger] recs[k2]).inspector is Some && feasible(
                        recs[k2].inspector->0,
                        recs[i].job->0,
                    ) ==> score_spec(recs[k2].inspector->0, recs[i].job->0) <= score_spec(
                        recs[j].inspector->0,
                        recs[i].job->0,
                    )
            });
        },
    }
}

/// A job with no feasible inspector receives no result from the pass: it
/// is left exactly as it was, still unassigned.
pub proof fn lemma_infeasible_job_unassigned(recs: Seq<RecordV>, i: int)
    requires
        0 <= i < recs.len(),
        awaits_assignment(recs[i]),
        forall|k: int|
            0 <= k < recs.len() ==> !((#[trigger] recs[k]).inspector is Some && feasible(
                recs[k].inspector->0,
                recs[i].job->0,
            )),
    ensures
        assignment_sys_spec(recs)[i] == recs[i],
        assignment_sys_spec(recs)[i].assignment is None,
{
    let job = recs[i].job->0;
    lemma_select_best_props(recs, job);
    match select_best(recs, job) {
        None => {},
        Some(j) => {
            assert(false);
        },
    }
}

/// The pass touches nothing but the jobs that await assignment: every
/// other record, inspectors included, is left exactly as it was.
pub proof fn lemma_only_waiting_jobs_touched(recs: Seq<RecordV>)
    ensures
        forall|i: int|
            0 <= i < recs.len() && !awaits_assignment(#[trigger] recs[i]) ==> assignment_sys_spec(
                recs,
            )[i] == recs[i],
{
}

/// The record an inspector enters the world with.
pub open spec fn inspector_record(
    id: Seq<char>,
    name: Seq<char>,
    location: Coord,
    skill_level: u8,
) -> RecordV {
    RecordV {
        raw_content: None,
        metadata: None,
        status: None,
        analysis: None,
        element: None,
        finding: None,
        inspector: Some(InspectorV { id, name, current_location: location, skill_level }),
        job: None,
        slot: None,
        assignment: None,
    }
}

/// The record a job enters the world with, its assignment still to come.
pub open spec fn job_record(
    id: Seq<char>,
    location: Coord,
    priority: u8,
    estimated_duration_minutes: u32,
    required_skill_level: u8,
) -> RecordV {
    RecordV {
        raw_content: None,
        metadata: None,
        status: None,
        analysis: None,
        element: None,
        finding: None,
        inspector: None,
        job: Some(
            InspectionJobV {
                id,
                location,
                priority,
                estimated_duration_minutes,
                required_skill_level,
            },
        ),
        slot: None,
        assignment: None,
    }
}

/// The final component tuples of the assignment pipeline: job and result
/// of every entity carrying both, in entity order.
pub open spec fn assignment_results_spec(recs: Seq<RecordV>) -> Seq<
    (InspectionJobV, AssignmentResultV),
>
    decreases recs.len(),
{
    if recs.len() == 0 {
        Seq::empty()
    } else {
        let rest = assignment_results_spec(recs.drop_last());
        let r = recs.last();
        if r.job is Some && r.assignment is Some {
            rest.push((r.job->0, r.assignment->0))
        } else {
            rest
        }
    }
}

impl Inspector {
    /// An equal copy; spelled out so the equality is known.
    pub fn duplicate(&self) -> (r: Inspector)
        ensures
            r == *self,
    {
        Inspector {
            id: self.id.clone(),
            name: self.name.clone(),
            current_location: self.current_location,
            skill_level: self.skill_level,
        }
    }
}

impl InspectionJob {
    /// An equal copy; spelled out so the equality is known.
    pub fn duplicate(&self) -> (r: InspectionJob)
        ensures
            r == *self,
    {
        InspectionJob {
            id: self.id.clone(),
            location: self.location,
            priority: self.priority,
            estimated_duration_minutes: self.estimated_duration_minutes,
            required_skill_level: self.required_skill_level,
        }
    }
}

impl AssignmentResult {
    /// An equal copy; spelled out so the equality is known.
    pub fn duplicate(&self) -> (r: AssignmentResult)
        ensures
            r == *self,
    {
        AssignmentResult {
            assigned_inspector_id: self.assigned_inspector_id.clone(),
            score: self.score,
        }
    }
}

/// A world wired with the single assignment-scoring system.
#[derive(Debug)]
pub struct SchedulerWorld {
    world: World,
    schedule: Schedule,
}

impl View for SchedulerWorld {
    type V = Seq<RecordV>;

    closed spec fn view(&self) -> Seq<RecordV> {
        self.world@
    }
}

impl SchedulerWorld {
    /// The schedule is the assignment scoring alone.
    pub closed spec fn wf(&self) -> bool {
        self.schedule.systems@ == seq![SystemId::AssignmentScoring]
    }

    /// An empty world with the assignment-scoring system registered.
    pub fn new() -> (w: SchedulerWorld)
        ensures
            w@ == Seq::<RecordV>::empty(),
            w.wf(),
    {
        let mut systems: Vec<SystemId> = Vec::new();
        systems.push(SystemId::AssignmentScoring);
        let w = SchedulerWorld { world: World::new(), schedule: Schedule::new(systems) };
        proof {
            assert(w.schedule.systems@ =~= seq![SystemId::AssignmentScoring]);
        }
        w
    }

    /// Seed one inspector.
    pub fn add_inspector(&mut self, inspector: Inspector)
        requires
            old(self).wf(),
        ensures
            final(self).wf(),
            final(self)@ == old(self)@.push(
                inspector_record(
                    inspector.id@,
                    inspector.name@,
                    inspector.current_location,
                    inspector.skill_level,
                ),
            ),
    {
        let ghost iv = inspector@;
        let mut rec = EntityRecord::empty();
        rec.inspector = Some(inspector);
        proof {
            assert(rec@ =~= inspector_record(iv.id, iv.name, iv.current_location, iv.skill_level));
        }
        self.world.spawn(rec);
    }

    /// Seed one job awaiting assignment.
    pub fn add_job(&mut self, job: InspectionJob)
        requires
            old(self).wf(),
        ensures
            final(self).wf(),
            final(self)@ == old(self)@.push(
                job_record(
                    job.id@,
                    job.location,
                    job.priority,
                    job.estimated_duration_minutes,
                    job.required_skill_level,
                ),
            ),
    {
        let ghost jv = job@;
        let mut rec = EntityRecord::empty();
        rec.job = Some(job);
        proof {
            assert(rec@ =~= job_record(
                jv.id,
                jv.location,
                jv.priority,
                jv.estimated_duration_minutes,
                jv.required_skill_level,
            ));
        }
        self.world.spawn(rec);
    }

    /// Seed the stock simulation: two inspectors and two jobs.
    pub fn seed_simulation(&mut self)
        requires
            old(self).wf(),
        ensures
            final(self).wf(),
            final(self)@ == old(self)@.push(
                inspector_record("insp-1"@, "Alice"@, Coord { x: 492827i64, y: -1231207i64 }, 5),
            ).push(
                inspector_record("insp-2"@, "Bob"@, Coord { x: 491666i64, y: -1231336i64 }, 3),
            ).push(job_record("job-A"@, Coord { x: 492606i64, y: -1232460i64 }, 2, 120, 2)).push(
                job_record("job-B"@, Coord { x: 491304i64, y: -1230697i64 }, 5, 240, 3),
            ),
    {
        self.add_inspector(
            Inspector {
                id: String::from_str("insp-1"),
                name: String::from_str("Alice"),
                current_location: Coord { x: 492827, y: -1231207 },
                skill_level: 5,
            },
        );
        self.add_inspector(
            Inspector {
                id: String::from_str("insp-2"),
                name: String::from_str("Bob"),
                current_location: Coord { x: 491666, y: -1231336 },
                skill_level: 3,
            },
        );
        self.add_job(
            InspectionJob {
                id: String::from_str("job-A"),
                location: Coord { x: 492606, y: -1232460 },
                priority: 2,
                estimated_duration_minutes: 120,
                required_skill_level: 2,
            },
        );
        self.add_job(
            InspectionJob {
                id: String::from_str("job-B"),
                location: Coord { x: 491304, y: -1230697 },
                priority: 5,
                estimated_duration_minutes: 240,
                required_skill_level: 3,
            },
        );
    }

    /// Execute the schedule once: every job lacking a result is matched
    /// against every inspector and the best feasible candidate recorded.
    pub fn run(&mut self)
        requires
            old(self).wf(),
            coords_ok(old(self)@),
        ensures
            final(self).wf(),
            final(self)@ == assignment_sys_spec(old(self)@),
    {
        let ghost orig = self.world@;
        let ghost systems_v = self.schedule.systems@;
        let noise: Vec<u16> = Vec::new();
        proof {
            assert(systems_v.skip(1) =~= Seq::<SystemId>::empty());
            assert(noise@.skip(0) =~= noise@);
            assert(systems_v[0] == SystemId::AssignmentScoring);
            assert(schedule_ready(
                assignment_sys_spec(orig),
                systems_v.skip(1),
                noise@,
            ));
            assert(schedule_ready(orig, systems_v, noise@));
        }
        self.schedule.run(&mut self.world, &noise);
        proof {
            assert(run_systems_spec(orig, systems_v, noise@) == run_systems_spec(
                assignment_sys_spec(orig),
                systems_v.skip(1),
                noise@,
            ));
            assert(self.world@ == assignment_sys_spec(orig));
        }
    }

    /// Read back the final job/result tuples, in entity order.
    pub fn get_assignments(&self) -> (out: Vec<(InspectionJob, AssignmentResult)>)
        ensures
            out@.len() == assignment_results_spec(self@).len(),
            forall|k: int|
                0 <= k < out@.len() ==> (#[trigger] out@[k]).0@ == assignment_results_spec(
                    self@,
                )[k].0 && out@[k].1@ == assignment_results_spec(self@)[k].1,
    {
        let n = self.world.num_entities();
        let mut out: Vec<(InspectionJob, AssignmentResult)> = Vec::new();
        let mut i: usize = 0;
        proof {
            assert(self@.subrange(0, 0) =~= Seq::<RecordV>::empty());
        }
        while i < n
            invariant
                n == self@.len(),
                0 <= i <= n,
                out@.len() == assignment_results_spec(self@.subrange(0, i as int)).len(),
                forall|k: int|
                    0 <= k < out@.len() ==> (#[trigger] out@[k]).0@ == assignment_results_spec(
                        self@.subrange(0, i as int),
                    )[k].0 && out@[k].1@ == assignment_results_spec(
                        self@.subrange(0, i as int),
                    )[k].1,
            decreases n - i,
        {
            let ghost prefix = self@.subrange(0, i as int);
            let rec = self.world.record(Entity(i));
            if rec.job.is_some() && rec.assignment.is_some() {
                let job = rec.job.as_ref().unwrap().duplicate();
                let result = rec.assignment.as_ref().unwrap().duplicate();
                out.push((job, result));
            }
            proof {
                assert(self@.subrange(0, i + 1).drop_last() =~= prefix);
                assert(self@.subrange(0, i + 1).last() == self@[i as int]);
            }
            i += 1;
        }
        proof {
            assert(self@.subrange(0, n as int) =~= self@);
        }
        out
    }
}

} // verus!
