//! The scheduler: an ordered list of systems executed exactly once per
//! invocation.
//!
//! A schedule is built `Idle`, passes through `Running`, and ends `Done`.
//! Later systems observe the fully flushed output of earlier ones. The
//! noise sequence for the finding simulation is consumed from the front
//! by the systems that draw from it, so a run is a pure function of the
//! seeded store and the noise values.

use vstd::prelude::*;

use crate::assignment::{assignment_scoring_system, assignment_sys_spec, coords_ok};
use crate::documents::{analysis_sys_spec, analysis_system, ingestion_sys_spec, ingestion_system};
use crate::inspection::{
    finding_simulation_system, finding_sys_spec, pending_findings,
};
use crate::kernel::{RecordV, World};

verus! {

/// The systems a schedule can run.
#[derive(Clone, Copy, PartialEq, Eq, Structural, Debug)]
pub enum SystemId {
    Ingestion,
    Analysis,
    FindingSimulation,
    AssignmentScoring,
}

/// The lifecycle of a schedule: built but not yet run, executing its
/// list, or finished with all buffers flushed.
#[derive(Clone, Copy, PartialEq, Eq, Structural, Debug)]
pub enum ScheduleState {
    Idle,
    Running,
    Done,
}

/// How many noise draws one system consumes on a given store.
pub open spec fn noise_used(recs: Seq<RecordV>, sys: SystemId) -> int {
    match sys {
        SystemId::FindingSimulation => pending_findings(recs),
        _ => 0,
    }
}

/// The store after one system, drawing noise from the front of `noise`.
pub open spec fn run_system_spec(recs: Seq<RecordV>, sys: SystemId, noise: Seq<u16>) -> Seq<
    RecordV,
> {
    match sys {
        SystemId::Ingestion => ingestion_sys_spec(recs),
        SystemId::Analysis => analysis_sys_spec(recs),
        SystemId::FindingSimulation => finding_sys_spec(
            recs,
            noise.subrange(0, pending_findings(recs)),
        ),
        SystemId::AssignmentScoring => assignment_sys_spec(recs),
    }
}

/// The store after an ordered list of systems, each run exactly once,
/// the noise consumed from the front.
pub open spec fn run_systems_spec(
    recs: Seq<RecordV>,
    systems: Seq<SystemId>,
    noise: Seq<u16>,
) -> Seq<RecordV>
    decreases systems.len(),
{
    if systems.len() == 0 {
        recs
    } else {
        let first = systems[0];
        run_systems_spec(
            run_system_spec(recs, first, noise),
            systems.skip(1),
            noise.skip(noise_used(recs, first)),
        )
    }
}

/// What a schedule asks of its inputs: enough noise at each draw, and
/// coordinates the scoring arithmetic accepts whenever the assignment
/// system runs.
pub open spec fn schedule_ready(
    recs: Seq<RecordV>,
    systems: Seq<SystemId>,
    noise: Seq<u16>,
) -> bool
    decreases systems.len(),
{
    if systems.len() == 0 {
        true
    } else {
        let first = systems[0];
        let ok_now = match first {
            SystemId::FindingSimulation => pending_findings(recs) <= noise.len(),
            SystemId::AssignmentScoring => coords_ok(recs),
            _ => true,
        };
        &&& ok_now
        &&& schedule_ready(
            run_system_spec(recs, first, noise),
            systems.skip(1),
            noise.skip(noise_used(recs, first)),
        )
    }
}

/// One schedule, one seeding, one noise sequence: one outcome. Two runs
/// over equal stores with equal noise end in equal stores, so re-running
/// an identical schedule against an identical freshly seeded world with
/// the same draws reproduces the output exactly.
pub proof fn lemma_run_deterministic(
    recs1: Seq<RecordV>,
    recs2: Seq<RecordV>,
    systems: Seq<SystemId>,
    noise1: Seq<u16>,
    noise2: Seq<u16>,
)
    requires
        recs1 == recs2,
        noise1 == noise2,
    ensures
        run_systems_spec(recs1, systems, noise1) == run_systems_spec(recs2, systems, noise2),
{
}

/// An ordered list of systems and the state of its current invocation.
#[derive(Debug)]
pub struct Schedule {
    pub systems: Vec<SystemId>,
    pub state: ScheduleState,
}

impl Schedule {
    /// Build an idle schedule over the given ordered system list.
    pub fn new(systems: Vec<SystemId>) -> (s: Schedule)
        ensures
            s.systems@ == systems@,
            s.state == ScheduleState::Idle,
    {
        Schedule { systems, state: ScheduleState::Idle }
    }

    /// Execute every system exactly once, in declared order, flushing
    /// deferred commands after each pass; later systems observe the
    /// mutated store. Ends with the schedule `Done`.
    pub fn run(&mut self, world: &mut World, noise: &Vec<u16>)
        requires
            schedule_ready(old(world)@, old(self).systems@, noise@),
        ensures
            final(self).systems@ == old(self).systems@,
            final(self).state == ScheduleState::Done,
            final(world)@ == run_systems_spec(old(world)@, old(self).systems@, noise@),
    {
        let ghost orig = world@;
        let ghost systems_v = self.systems@;
        self.state = ScheduleState::Running;
        let noise_len = noise.len();
        let n = self.systems.len();
        let mut cursor: usize = 0;
        let mut i: usize = 0;
        proof {
            assert(systems_v.skip(0) =~= systems_v);
            assert(noise@.skip(0) =~= noise@);
        }
        while i < n
            invariant
                self.systems@ == systems_v,
                self.state == ScheduleState::Running,
                n == systems_v.len(),
                noise_len == noise@.len(),
                0 <= i <= n,
                0 <= cursor <= noise_len,
                run_systems_spec(orig, systems_v, noise@) == run_systems_spec(
                    world@,
                    systems_v.skip(i as int),
                    noise@.skip(cursor as int),
                ),
                schedule_ready(world@, systems_v.skip(i as int), noise@.skip(cursor as int)),
            decreases n - i,
        {
            let ghost pre = world@;
            let ghost rest = systems_v.skip(i as int);
            let ghost rem_noise = noise@.skip(cursor as int);
            let ghost pre_cursor = cursor as int;
            proof {
                assert(rest.len() == n - i);
                assert(rest[0] == systems_v[i as int]);
            }
            let sys = self.systems[i];
            match sys {
                SystemId::Ingestion => {
                    ingestion_system(world);
                },
                SystemId::Analysis => {
                    analysis_system(world);
                },
                SystemId::FindingSimulation => {
                    proof {
                        crate::inspection::lemma_matches_before_mono(pre, 0, pre.len() as int);
                        assert(pending_findings(pre) <= rem_noise.len());
                        assert(rem_noise.len() == noise@.len() - cursor);
                    }
                    finding_simulation_system(world, noise, &mut cursor);
                    proof {
                        assert(noise@.subrange(
                            pre_cursor,
                            pre_cursor + pending_findings(pre),
                        ) =~= rem_noise.subrange(0, pending_findings(pre)));
                        assert(world@ == run_system_spec(pre, sys, rem_noise));
                    }
                },
                SystemId::AssignmentScoring => {
                    assignment_scoring_system(world);
                },
            }
            proof {
                assert(world@ == run_system_spec(pre, sys, rem_noise));
                assert(cursor as int == pre_cursor + noise_used(pre, sys));
                assert(systems_v.skip(i as int + 1) =~= rest.skip(1));
                assert(noise@.skip(cursor as int) =~= rem_noise.skip(noise_used(pre, sys))) by {
                    if sys is FindingSimulation {
                        crate::inspection::lemma_matches_before_mono(pre, 0, pre.len() as int);
                        assert(noise_used(pre, sys) >= 0);
                    }
                    assert(noise@.skip(cursor as int) =~= noise@.skip(pre_cursor).skip(
                        noise_used(pre, sys),
                    ));
                }
            }
            i += 1;
        }
        proof {
            assert(systems_v.skip(n as int) =~= Seq::<SystemId>::empty());
        }
        self.state = ScheduleState::Done;
    }
}

} // verus!
