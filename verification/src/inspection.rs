//! The inspection-finding pipeline: its components, the banding policy,
//! and its single system.
//!
//! For every building element lacking a finding the system computes a
//! condition score, classifies it into one of four bands, and attaches
//! the band's finding through the command buffer. The score formula is
//! `clamp(100 - age * 2.5 - noise, 0, 100)` where `noise` is drawn
//! uniformly from [0, 20); all arithmetic here is in fixed point, tenths
//! of a point, so the noise argument is in tenths below 200.
//!
//! Randomness is injected: the system takes the drawn noise values as an
//! argument, so a run is reproducible; [`sample_noise`] draws them from a
//! caller-supplied rand generator.

use vstd::prelude::*;

use crate::kernel::{
    apply_commands, CommandBuffer, CommandV, ComponentValue, ComponentValueV, Entity,
    EntityRecord, RecordV, World,
};
use crate::scheduler::{schedule_ready, run_systems_spec, Schedule, SystemId};

verus! {

/// A physical building element subject to inspection.
#[derive(Debug, Clone, PartialEq)]
pub struct BuildingElement {
    pub name: String,
    pub category: String,
    pub age_years: u32,
}

/// Mathematical image of [`BuildingElement`].
#[verifier::ext_equal]
pub struct BuildingElementV {
    pub name: Seq<char>,
    pub category: Seq<char>,
    pub age_years: int,
}

impl View for BuildingElement {
    type V = BuildingElementV;

    open spec fn view(&self) -> BuildingElementV {
        BuildingElementV { name: self.name@, category: self.category@, age_years: self.age_years as int }
    }
}

/// A simulated inspection finding: a banded condition score together with
/// the band's fixed observation, recommendation and estimated cost.
#[derive(Debug, Clone, PartialEq)]
pub struct SimulatedFinding {
    pub condition_score: u8,
    pub observation: String,
    pub recommendation: String,
    pub estimated_cost: u32,
}

/// Mathematical image of [`SimulatedFinding`].
#[verifier::ext_equal]
pub struct SimulatedFindingV {
    pub condition_score: int,
    pub observation: Seq<char>,
    pub recommendation: Seq<char>,
    pub estimated_cost: int,
}

impl View for SimulatedFinding {
    type V = SimulatedFindingV;

    open spec fn view(&self) -> SimulatedFindingV {
        SimulatedFindingV {
            condition_score: self.condition_score as int,
            observation: self.observation@,
            recommendation: self.recommendation@,
            estimated_cost: self.estimated_cost as int,
        }
    }
}

/// The four condition bands of the scoring policy.
#[derive(Clone, Copy, PartialEq, Eq, Structural, Debug)]
pub enum ConditionBand {
    Excellent,
    Good,
    Fair,
    Poor,
}

/// The condition score in tenths of a point, clamped into [0, 1000]:
/// `1000 - 25 * age - noise`, never below 0 nor above 1000.
pub open spec fn score_tenths_spec(age: int, noise: int) -> int {
    let raw = 1000 - 25 * age - noise;
    if raw < 0 {
        0
    } else if raw > 1000 {
        1000
    } else {
        raw
    }
}

/// The condition score in whole points, always in [0, 100].
pub open spec fn condition_score_spec(age: int, noise: int) -> int {
    score_tenths_spec(age, noise) / 10
}

/// The banding policy: [90, 100] Excellent, [70, 90) Good, [40, 70)
/// Fair, [0, 40) Poor.
pub open spec fn band_of(score: int) -> ConditionBand {
    if score >= 90 {
        ConditionBand::Excellent
    } else if score >= 70 {
        ConditionBand::Good
    } else if score >= 40 {
        ConditionBand::Fair
    } else {
        ConditionBand::Poor
    }
}

/// The fixed estimated remediation cost of each band.
pub open spec fn band_cost(b: ConditionBand) -> int {
    match b {
        ConditionBand::Excellent => 0,
        ConditionBand::Good => 500,
        ConditionBand::Fair => 5000,
        ConditionBand::Poor => 25000,
    }
}

/// The fixed observation text of each band.
pub open spec fn band_observation(b: ConditionBand) -> Seq<char> {
    match b {
        ConditionBand::Excellent => "Excellent condition. No visible wear."@,
        ConditionBand::Good => "Good condition. Minor cosmetic weathering."@,
        ConditionBand::Fair => "Fair condition. Signs of aging present."@,
        ConditionBand::Poor => "Poor condition. Immediate attention required."@,
    }
}

/// The fixed recommendation text of each band.
pub open spec fn band_recommendation(b: ConditionBand) -> Seq<char> {
    match b {
        ConditionBand::Excellent => "Monitor."@,
        ConditionBand::Good => "Routine maintenance."@,
        ConditionBand::Fair => "Plan for repairs in 3-5 years."@,
        ConditionBand::Poor => "Replace within 12 months."@,
    }
}

/// The finding attached to an element of the given age for the given
/// noise draw.
pub open spec fn finding_for(age: int, noise: int) -> SimulatedFindingV {
    let s = condition_score_spec(age, noise);
    SimulatedFindingV {
        condition_score: s,
        observation: band_observation(band_of(s)),
        recommendation: band_recommendation(band_of(s)),
        estimated_cost: band_cost(band_of(s)),
    }
}

/// Classify a whole-point condition score into its band.
pub fn classify_band(score: u8) -> (b: ConditionBand)
    ensures
        b == band_of(score as int),
{
    if score >= 90 {
        ConditionBand::Excellent
    } else if score >= 70 {
        ConditionBand::Good
    } else if score >= 40 {
        ConditionBand::Fair
    } else {
        ConditionBand::Poor
    }
}

/// Compute the clamped whole-point condition score of an element of the
/// given age under the given noise draw (in tenths).
pub fn condition_score(age_years: u32, noise_tenths: u16) -> (s: u8)
    ensures
        s as int == condition_score_spec(age_years as int, noise_tenths as int),
        0 <= s <= 100,
{
    let deduction: u64 = 25u64 * (age_years as u64) + (noise_tenths as u64);
    let tenths: u64 = if deduction >= 1000 {
        0
    } else {
        1000 - deduction
    };
    (tenths / 10) as u8
}

/// Build the banded finding of one element for one noise draw.
pub fn simulate_finding(element: &BuildingElement, noise_tenths: u16) -> (f: SimulatedFinding)
    ensures
        f@ == finding_for(element.age_years as int, noise_tenths as int),
{
    let score = condition_score(element.age_years, noise_tenths);
    let band = classify_band(score);
    let obs: &str = match band {
        ConditionBand::Excellent => "Excellent condition. No visible wear.",
        ConditionBand::Good => "Good condition. Minor cosmetic weathering.",
        ConditionBand::Fair => "Fair condition. Signs of aging present.",
        ConditionBand::Poor => "Poor condition. Immediate attention required.",
    };
    let rec: &str = match band {
        ConditionBand::Excellent => "Monitor.",
        ConditionBand::Good => "Routine maintenance.",
        ConditionBand::Fair => "Plan for repairs in 3-5 years.",
        ConditionBand::Poor => "Replace within 12 months.",
    };
    let cost: u32 = match band {
        ConditionBand::Excellent => 0,
        ConditionBand::Good => 500,
        ConditionBand::Fair => 5000,
        ConditionBand::Poor => 25000,
    };
    SimulatedFinding {
        condition_score: score,
        observation: String::from_str(obs),
        recommendation: String::from_str(rec),
        estimated_cost: cost,
    }
}

/// rand's standard generator, declared so it can stand in signatures; a
/// caller seeds it and hands it in, which keeps runs reproducible.
#[verifier::external_type_specification]
#[verifier::external_body]
pub struct ExStdRng(rand::rngs::StdRng);

/// Relies on rand's `Rng::random_range` over the range `0..200`: the
/// draw lies below 200. Nothing more is promised of a random value.
#[verifier::external_body]
fn draw_noise_tenths(rng: &mut rand::rngs::StdRng) -> (r: u16)
    ensures
        r < 200,
{
    rand::Rng::random_range(rng, 0u16..200)
}

/// Draw `n` noise values, each in tenths of a point below 200 (that is,
/// uniform over [0, 20) in whole points).
pub fn sample_noise(rng: &mut rand::rngs::StdRng, n: usize) -> (v: Vec<u16>)
    ensures
        v@.len() == n,
        forall|i: int| 0 <= i < n ==> v@[i] < 200,
{
    let mut v: Vec<u16> = Vec::new();
    let mut i: usize = 0;
    while i < n
        invariant
            0 <= i <= n,
            v@.len() == i,
            forall|j: int| 0 <= j < i ==> v@[j] < 200,
        decreases n - i,
    {
        v.push(draw_noise_tenths(rng));
        i += 1;
    }
    v
}

/// A record awaits the simulation: it has an element and no finding yet.
pub open spec fn needs_finding(r: RecordV) -> bool {
    r.element is Some && r.finding is None
}

/// How many records below position `i` await the simulation; this is the
/// rank a record's noise draw is taken at.
pub open spec fn matches_before(recs: Seq<RecordV>, i: int) -> int
    decreases i,
{
    if i <= 0 {
        0
    } else {
        matches_before(recs, i - 1) + if 0 <= i - 1 < recs.len() && needs_finding(
            recs[i - 1],
        ) {
            1int
        } else {
            0int
        }
    }
}

/// How many records of the whole store await the simulation: the number
/// of noise draws one pass consumes.
pub open spec fn pending_findings(recs: Seq<RecordV>) -> int {
    matches_before(recs, recs.len() as int)
}

/// The count of awaiting records grows with the position.
pub proof fn lemma_matches_before_mono(recs: Seq<RecordV>, i: int, j: int)
    requires
        i <= j,
    ensures
        matches_before(recs, i) <= matches_before(recs, j),
    decreases j - i,
{
    if i < j {
        lemma_matches_before_mono(recs, i, j - 1);
    }
}

/// The store after the finding-simulation system's pass, the awaiting
/// records consuming the noise draws in entity order.
pub open spec fn finding_sys_spec(recs: Seq<RecordV>, noise: Seq<u16>) -> Seq<RecordV> {
    Seq::new(
        recs.len(),
        |i: int|
            if needs_finding(recs[i]) {
                RecordV {
                    finding: Some(
                        finding_for(
                            recs[i].element->0.age_years,
                            noise[matches_before(recs, i)] as int,
                        ),
                    ),
                    ..recs[i]
                }
            } else {
                recs[i]
            },
    )
}

/// For every building element lacking a finding, in entity order: draw
/// the next noise value, compute the banded finding, and attach it
/// through the command buffer; the buffer is applied after the pass.
/// `cursor` is the position in `noise` of the next unused draw.
pub fn finding_simulation_system(world: &mut World, noise: &Vec<u16>, cursor: &mut usize)
    requires
        *old(cursor) + pending_findings(old(world)@) <= noise@.len(),
    ensures
        final(world)@ == finding_sys_spec(
            old(world)@,
            noise@.subrange(
                *old(cursor) as int,
                *old(cursor) + pending_findings(old(world)@),
            ),
        ),
        *final(cursor) == *old(cursor) + pending_findings(old(world)@),
{
    let ghost orig = world@;
    let ghost start = *cursor as int;
    let n = world.num_entities();
    let noise_len = noise.len();
    let mut buf = CommandBuffer::new();
    let mut i: usize = 0;
    proof {
        assert(apply_commands(orig, buf@) == orig);
        assert(orig =~= Seq::new(orig.len(), |j: int| if j < 0 { orig[j] } else { orig[j] }));
    }
    while i < n
        invariant
            n == orig.len(),
            world@ == orig,
            0 <= i <= n,
            noise_len == noise@.len(),
            start + pending_findings(orig) <= noise@.len(),
            *cursor == start + matches_before(orig, i as int),
            0 <= start <= *cursor,
            apply_commands(orig, buf@) =~= Seq::new(
                orig.len(),
                |j: int|
                    if j < i && needs_finding(orig[j]) {
                        RecordV {
                            finding: Some(
                                finding_for(
                                    orig[j].element->0.age_years,
                                    noise[start + matches_before(orig, j)] as int,
                                ),
                            ),
                            ..orig[j]
                        }
                    } else {
                        orig[j]
                    },
            ),
        decreases n - i,
    {
        let ghost pre_buf = buf@;
        let e = Entity(i);
        let rec = world.record(e);
        let has_element = rec.element.is_some();
        let lacks_finding = rec.finding.is_none();
        proof {
            lemma_matches_before_mono(orig, 0, i as int);
            lemma_matches_before_mono(orig, i as int + 1, n as int);
        }
        if has_element && lacks_finding {
            let el = rec.element.as_ref().unwrap();
            let f = simulate_finding(el, noise[*cursor]);
            buf.insert(e, ComponentValue::Finding(f));
            *cursor += 1;
            proof {
                crate::kernel::lemma_apply_commands_push(
                    orig,
                    pre_buf,
                    CommandV::Insert {
                        target: e,
                        value: ComponentValueV::Finding(f@),
                    },
                );
            }
        }
        proof {
            assert(apply_commands(orig, buf@) =~= Seq::new(
                orig.len(),
                |j: int|
                    if j < i + 1 && needs_finding(orig[j]) {
                        RecordV {
                            finding: Some(
                                finding_for(
                                    orig[j].element->0.age_years,
                                    noise[start + matches_before(orig, j)] as int,
                                ),
                            ),
                            ..orig[j]
                        }
                    } else {
                        orig[j]
                    },
            ));
        }
        i += 1;
    }
    world.apply(buf);
    proof {
        assert forall|j: int| 0 <= j < orig.len() implies world@[j] == finding_sys_spec(
            orig,
            noise@.subrange(start, start + pending_findings(orig)),
        )[j] by {
            lemma_matches_before_mono(orig, 0, orig.len() as int);
            if needs_finding(orig[j]) {
                lemma_matches_before_mono(orig, 0, j);
                lemma_matches_before_mono(orig, j + 1, orig.len() as int);
            }
        }
        assert(world@ =~= finding_sys_spec(
            orig,
            noise@.subrange(start, start + pending_findings(orig)),
        ));
    }
}

/// The record a building element enters the world with: the element
/// alone, its finding still to come.
pub open spec fn element_record(name: Seq<char>, category: Seq<char>, age: int) -> RecordV {
    RecordV {
        raw_content: None,
        metadata: None,
        status: None,
        analysis: None,
        element: Some(BuildingElementV { name, category, age_years: age }),
        finding: None,
        inspector: None,
        job: None,
        slot: None,
        assignment: None,
    }
}

/// The final component tuples of the inspection pipeline: element and
/// finding of every entity carrying both, in entity order.
pub open spec fn inspection_results_spec(recs: Seq<RecordV>) -> Seq<
    (BuildingElementV, SimulatedFindingV),
>
    decreases recs.len(),
{
    if recs.len() == 0 {
        Seq::empty()
    } else {
        let rest = inspection_results_spec(recs.drop_last());
        let r = recs.last();
        if r.element is Some && r.finding is Some {
            rest.push((r.element->0, r.finding->0))
        } else {
            rest
        }
    }
}

impl BuildingElement {
    /// An equal copy; spelled out so the equality is known.
    pub fn duplicate(&self) -> (r: BuildingElement)
        ensures
            r == *self,
    {
        BuildingElement {
            name: self.name.clone(),
            category: self.category.clone(),
            age_years: self.age_years,
        }
    }
}

impl SimulatedFinding {
    /// An equal copy; spelled out so the equality is known.
    pub fn duplicate(&self) -> (r: SimulatedFinding)
        ensures
            r == *self,
    {
        SimulatedFinding {
            condition_score: self.condition_score,
            observation: self.observation.clone(),
            recommendation: self.recommendation.clone(),
            estimated_cost: self.estimated_cost,
        }
    }
}

/// A world wired with the single finding-simulation system.
#[derive(Debug)]
pub struct InspectionWorld {
    world: World,
    schedule: Schedule,
}

impl View for InspectionWorld {
    type V = Seq<RecordV>;

    closed spec fn view(&self) -> Seq<RecordV> {
        self.world@
    }
}

impl InspectionWorld {
    /// The schedule is the finding simulation alone.
    pub closed spec fn wf(&self) -> bool {
        self.schedule.systems@ == seq![SystemId::FindingSimulation]
    }

    /// An empty world with the finding-simulation system registered.
    pub fn new() -> (w: InspectionWorld)
        ensures
            w@ == Seq::<RecordV>::empty(),
            w.wf(),
    {
        let mut systems: Vec<SystemId> = Vec::new();
        systems.push(SystemId::FindingSimulation);
        let w = InspectionWorld { world: World::new(), schedule: Schedule::new(systems) };
        proof {
            assert(w.schedule.systems@ =~= seq![SystemId::FindingSimulation]);
        }
        w
    }

    /// Seed one building element awaiting its finding.
    pub fn add_element(&mut self, element: BuildingElement)
        requires
            old(self).wf(),
        ensures
            final(self).wf(),
            final(self)@ == old(self)@.push(
                element_record(element.name@, element.category@, element.age_years as int),
            ),
    {
        let ghost ev = element@;
        let mut rec = EntityRecord::empty();
        rec.element = Some(element);
        proof {
            assert(rec@ =~= element_record(ev.name, ev.category, ev.age_years));
        }
        self.world.spawn(rec);
    }

    /// Seed the stock set of building elements used by the simulation
    /// endpoint.
    pub fn seed_mock_elements(&mut self)
        requires
            old(self).wf(),
        ensures
            final(self).wf(),
            final(self)@ == old(self)@.push(
                element_record("Asphalt Shingle Roof"@, "Envelope"@, 18),
            ).push(element_record("Boiler Room #1"@, "Mechanical"@, 5)).push(
                element_record("Underground Parkade Membrane"@, "Structure"@, 25),
            ).push(element_record("Lobby Interiors"@, "Cosmetic"@, 10)),
    {
        self.add_element(
            BuildingElement {
                name: String::from_str("Asphalt Shingle Roof"),
                category: String::from_str("Envelope"),
                age_years: 18,
            },
        );
        self.add_element(
            BuildingElement {
                name: String::from_str("Boiler Room #1"),
                category: String::from_str("Mechanical"),
                age_years: 5,
            },
        );
        self.add_element(
            BuildingElement {
                name: String::from_str("Underground Parkade Membrane"),
                category: String::from_str("Structure"),
                age_years: 25,
            },
        );
        self.add_element(
            BuildingElement {
                name: String::from_str("Lobby Interiors"),
                category: String::from_str("Cosmetic"),
                age_years: 10,
            },
        );
    }

    /// How many elements still await a finding: the number of noise
    /// draws one run consumes.
    pub fn count_pending(&self) -> (n: usize)
        ensures
            n as int == pending_findings(self@),
    {
        let total = self.world.num_entities();
        let mut n: usize = 0;
        let mut i: usize = 0;
        while i < total
            invariant
                total == self@.len(),
                0 <= i <= total,
                n as int == matches_before(self@, i as int),
                n <= i,
            decreases total - i,
        {
            let rec = self.world.record(Entity(i));
            if rec.element.is_some() && rec.finding.is_none() {
                n += 1;
            }
            i += 1;
        }
        n
    }

    /// Execute the schedule once with the given noise draws: every
    /// element lacking a finding gains one, consuming the draws in
    /// entity order.
    pub fn run(&mut self, noise: &Vec<u16>)
        requires
            old(self).wf(),
            pending_findings(old(self)@) <= noise@.len(),
        ensures
            final(self).wf(),
            final(self)@ == finding_sys_spec(
                old(self)@,
                noise@.subrange(0, pending_findings(old(self)@)),
            ),
    {
        let ghost orig = self.world@;
        let ghost systems_v = self.schedule.systems@;
        proof {
            lemma_matches_before_mono(orig, 0, orig.len() as int);
            assert(systems_v.skip(1) =~= Seq::<SystemId>::empty());
            assert(noise@.skip(0) =~= noise@);
            assert(systems_v[0] == SystemId::FindingSimulation);
            assert(schedule_ready(
                finding_sys_spec(orig, noise@.subrange(0, pending_findings(orig))),
                systems_v.skip(1),
                noise@.skip(pending_findings(orig)),
            ));
            assert(schedule_ready(orig, systems_v, noise@));
        }
        self.schedule.run(&mut self.world, noise);
        proof {
            assert(run_systems_spec(orig, systems_v, noise@) == run_systems_spec(
                finding_sys_spec(orig, noise@.subrange(0, pending_findings(orig))),
                systems_v.skip(1),
                noise@.skip(pending_findings(orig)),
            ));
            assert(self.world@ == finding_sys_spec(
                orig,
                noise@.subrange(0, pending_findings(orig)),
            ));
        }
    }

    /// Execute the schedule once, drawing the noise from the given rand
    /// generator. Whatever is drawn lies below 200, and the run is the
    /// same pure function of the seeded store and those draws.
    pub fn run_with_rng(&mut self, rng: &mut rand::rngs::StdRng)
        requires
            old(self).wf(),
        ensures
            final(self).wf(),
            exists|noise: Seq<u16>|
                {
                    &&& noise.len() == pending_findings(old(self)@)
                    &&& (forall|i: int| 0 <= i < noise.len() ==> noise[i] < 200)
                    &&& final(self)@ == finding_sys_spec(old(self)@, noise)
                },
    {
        let ghost orig = self.world@;
        let n = self.count_pending();
        let noise = sample_noise(rng, n);
        self.run(&noise);
        proof {
            assert(noise@.subrange(0, pending_findings(orig)) =~= noise@);
            assert(self.world@ == finding_sys_spec(orig, noise@));
        }
    }

    /// Read back the final component tuples, in entity order.
    pub fn get_results(&self) -> (out: Vec<(BuildingElement, SimulatedFinding)>)
        ensures
            out@.len() == inspection_results_spec(self@).len(),
            forall|k: int|
                0 <= k < out@.len() ==> (#[trigger] out@[k]).0@ == inspection_results_spec(
                    self@,
                )[k].0 && out@[k].1@ == inspection_results_spec(self@)[k].1,
    {
        let n = self.world.num_entities();
        let mut out: Vec<(BuildingElement, SimulatedFinding)> = Vec::new();
        let mut i: usize = 0;
        proof {
            assert(self@.subrange(0, 0) =~= Seq::<RecordV>::empty());
        }
        while i < n
            invariant
                n == self@.len(),
                0 <= i <= n,
                out@.len() == inspection_results_spec(self@.subrange(0, i as int)).len(),
                forall|k: int|
                    0 <= k < out@.len() ==> (#[trigger] out@[k]).0@ == inspection_results_spec(
                        self@.subrange(0, i as int),
                    )[k].0 && out@[k].1@ == inspection_results_spec(
                        self@.subrange(0, i as int),
                    )[k].1,
            decreases n - i,
        {
            let ghost prefix = self@.subrange(0, i as int);
            let rec = self.world.record(Entity(i));
            if rec.element.is_some() && rec.finding.is_some() {
                let elem = rec.element.as_ref().unwrap().duplicate();
                let finding = rec.finding.as_ref().unwrap().duplicate();
                out.push((elem, finding));
            }
            proof {
                assert(self@.subrange(0, i + 1).drop_last() =~= prefix);
                assert(self@.subrange(0, i + 1).last() == self@[i as int]);
            }
            i += 1;
        }
        proof {
            assert(self@.subrange(0, n as int) =~= self@);
        }
        out
    }
}

} // verus!
