//! The entity/component store, its query engine, and the deferred-mutation
//! command buffer.
//!
//! A world is a table of entity records; each record holds at most one
//! component of each kind. Queries select exactly the entities whose
//! records have every requested kind and lack every excluded kind, in
//! entity (insertion) order. Structural mutations made during a system's
//! pass are collected in a [`CommandBuffer`] and applied afterwards, in
//! the order they were issued.

use vstd::prelude::*;

use crate::assignment::{
    AssignmentResult, AssignmentResultV, AvailabilitySlot, AvailabilitySlotV, Inspector,
    InspectorV, InspectionJob, InspectionJobV,
};
use crate::documents::{
    AnalysisResult, AnalysisResultV, DocumentMetadata, DocumentMetadataV, ProcessingStatus,
    RawContent,
};
use crate::inspection::{BuildingElement, BuildingElementV, SimulatedFinding, SimulatedFindingV};

verus! {

/// An opaque entity identity: the index of its record in the world.
#[derive(Clone, Copy, PartialEq, Eq, Structural, Debug)]
pub struct Entity(pub usize);

/// The kinds of components the pipelines use.
#[derive(Clone, Copy, PartialEq, Eq, Structural, Debug)]
pub enum ComponentKind {
    RawContent,
    DocumentMetadata,
    ProcessingStatus,
    AnalysisResult,
    BuildingElement,
    SimulatedFinding,
    Inspector,
    InspectionJob,
    AvailabilitySlot,
    AssignmentResult,
}

/// A component value of any kind, as carried by deferred commands.
#[derive(Debug)]
pub enum ComponentValue {
    RawContent(RawContent),
    Metadata(DocumentMetadata),
    Status(ProcessingStatus),
    Analysis(AnalysisResult),
    Element(BuildingElement),
    Finding(SimulatedFinding),
    Inspector(Inspector),
    Job(InspectionJob),
    Slot(AvailabilitySlot),
    Assignment(AssignmentResult),
}

/// Mathematical image of [`ComponentValue`].
#[verifier::ext_equal]
pub enum ComponentValueV {
    RawContent(Seq<char>),
    Metadata(DocumentMetadataV),
    Status(ProcessingStatus),
    Analysis(AnalysisResultV),
    Element(BuildingElementV),
    Finding(SimulatedFindingV),
    Inspector(InspectorV),
    Job(InspectionJobV),
    Slot(AvailabilitySlotV),
    Assignment(AssignmentResultV),
}

impl View for ComponentValue {
    type V = ComponentValueV;

    open spec fn view(&self) -> ComponentValueV {
        match self {
            ComponentValue::RawContent(c) => ComponentValueV::RawContent(c@),
            ComponentValue::Metadata(c) => ComponentValueV::Metadata(c@),
            ComponentValue::Status(c) => ComponentValueV::Status(*c),
            ComponentValue::Analysis(c) => ComponentValueV::Analysis(c@),
            ComponentValue::Element(c) => ComponentValueV::Element(c@),
            ComponentValue::Finding(c) => ComponentValueV::Finding(c@),
            ComponentValue::Inspector(c) => ComponentValueV::Inspector(c@),
            ComponentValue::Job(c) => ComponentValueV::Job(c@),
            ComponentValue::Slot(c) => ComponentValueV::Slot(c@),
            ComponentValue::Assignment(c) => ComponentValueV::Assignment(c@),
        }
    }
}

/// Per-entity storage: at most one component of each kind.
#[derive(Debug)]
pub struct EntityRecord {
    pub raw_content: Option<RawContent>,
    pub metadata: Option<DocumentMetadata>,
    pub status: Option<ProcessingStatus>,
    pub analysis: Option<AnalysisResult>,
    pub element: Option<BuildingElement>,
    pub finding: Option<SimulatedFinding>,
    pub inspector: Option<Inspector>,
    pub job: Option<InspectionJob>,
    pub slot: Option<AvailabilitySlot>,
    pub assignment: Option<AssignmentResult>,
}

/// Mathematical image of [`EntityRecord`].
#[verifier::ext_equal]
pub struct RecordV {
    pub raw_content: Option<Seq<char>>,
    pub metadata: Option<DocumentMetadataV>,
    pub status: Option<ProcessingStatus>,
    pub analysis: Option<AnalysisResultV>,
    pub element: Option<BuildingElementV>,
    pub finding: Option<SimulatedFindingV>,
    pub inspector: Option<InspectorV>,
    pub job: Option<InspectionJobV>,
    pub slot: Option<AvailabilitySlotV>,
    pub assignment: Option<AssignmentResultV>,
}

/// The image of an optional component.
pub open spec fn opt_view<T: View>(o: Option<T>) -> Option<T::V> {
    match o {
        Some(c) => Some(c.view()),
        None => None,
    }
}

impl View for EntityRecord {
    type V = RecordV;

    open spec fn view(&self) -> RecordV {
        RecordV {
            raw_content: opt_view(self.raw_content),
            metadata: opt_view(self.metadata),
            status: self.status,
            analysis: opt_view(self.analysis),
            element: opt_view(self.element),
            finding: opt_view(self.finding),
            inspector: opt_view(self.inspector),
            job: opt_view(self.job),
            slot: opt_view(self.slot),
            assignment: opt_view(self.assignment),
        }
    }
}

/// The record that holds no component at all.
pub open spec fn empty_record() -> RecordV {
    RecordV {
        raw_content: None,
        metadata: None,
        status: None,
        analysis: None,
        element: None,
        finding: None,
        inspector: None,
        job: None,
        slot: None,
        assignment: None,
    }
}

/// Whether a record holds a component of the given kind.
pub open spec fn rec_has(rec: RecordV, kind: ComponentKind) -> bool {
    match kind {
        ComponentKind::RawContent => rec.raw_content is Some,
        ComponentKind::DocumentMetadata => rec.metadata is Some,
        ComponentKind::ProcessingStatus => rec.status is Some,
        ComponentKind::AnalysisResult => rec.analysis is Some,
        ComponentKind::BuildingElement => rec.element is Some,
        ComponentKind::SimulatedFinding => rec.finding is Some,
        ComponentKind::Inspector => rec.inspector is Some,
        ComponentKind::InspectionJob => rec.job is Some,
        ComponentKind::AvailabilitySlot => rec.slot is Some,
        ComponentKind::AssignmentResult => rec.assignment is Some,
    }
}

/// The record with the given component attached (replacing any component
/// of the same kind), all other kinds untouched.
pub open spec fn with_component(rec: RecordV, v: ComponentValueV) -> RecordV {
    match v {
        ComponentValueV::RawContent(c) => RecordV { raw_content: Some(c), ..rec },
        ComponentValueV::Metadata(c) => RecordV { metadata: Some(c), ..rec },
        ComponentValueV::Status(c) => RecordV { status: Some(c), ..rec },
        ComponentValueV::Analysis(c) => RecordV { analysis: Some(c), ..rec },
        ComponentValueV::Element(c) => RecordV { element: Some(c), ..rec },
        ComponentValueV::Finding(c) => RecordV { finding: Some(c), ..rec },
        ComponentValueV::Inspector(c) => RecordV { inspector: Some(c), ..rec },
        ComponentValueV::Job(c) => RecordV { job: Some(c), ..rec },
        ComponentValueV::Slot(c) => RecordV { slot: Some(c), ..rec },
        ComponentValueV::Assignment(c) => RecordV { assignment: Some(c), ..rec },
    }
}

/// Whether a record satisfies a query shape: it has every kind in `with`
/// and lacks every kind in `without`.
pub open spec fn rec_matches(
    rec: RecordV,
    with: Seq<ComponentKind>,
    without: Seq<ComponentKind>,
) -> bool {
    &&& forall|k: int| 0 <= k < with.len() ==> rec_has(rec, with[k])
    &&& forall|k: int| 0 <= k < without.len() ==> !rec_has(rec, without[k])
}

/// Entity index `j` occurs among the first `m` entries of a query result.
pub open spec fn in_entity_prefix(q: Seq<Entity>, m: int, j: int) -> bool {
    exists|p: int| 0 <= p < m && q[p].0 == j
}

/// How many records of the sequence satisfy the query shape.
pub open spec fn count_matches(
    recs: Seq<RecordV>,
    with: Seq<ComponentKind>,
    without: Seq<ComponentKind>,
) -> nat
    decreases recs.len(),
{
    if recs.len() == 0 {
        0
    } else {
        count_matches(recs.drop_last(), with, without) + if rec_matches(
            recs.last(),
            with,
            without,
        ) {
            1nat
        } else {
            0nat
        }
    }
}

impl EntityRecord {
    /// A record with no components.
    pub fn empty() -> (r: EntityRecord)
        ensures
            r@ == empty_record(),
    {
        EntityRecord {
            raw_content: None,
            metadata: None,
            status: None,
            analysis: None,
            element: None,
            finding: None,
            inspector: None,
            job: None,
            slot: None,
            assignment: None,
        }
    }

    /// Whether this record holds a component of the given kind.
    pub fn has(&self, kind: ComponentKind) -> (b: bool)
        ensures
            b == rec_has(self@, kind),
    {
        match kind {
            ComponentKind::RawContent => self.raw_content.is_some(),
            ComponentKind::DocumentMetadata => self.metadata.is_some(),
            ComponentKind::ProcessingStatus => self.status.is_some(),
            ComponentKind::AnalysisResult => self.analysis.is_some(),
            ComponentKind::BuildingElement => self.element.is_some(),
            ComponentKind::SimulatedFinding => self.finding.is_some(),
            ComponentKind::Inspector => self.inspector.is_some(),
            ComponentKind::InspectionJob => self.job.is_some(),
            ComponentKind::AvailabilitySlot => self.slot.is_some(),
            ComponentKind::AssignmentResult => self.assignment.is_some(),
        }
    }

    /// Whether this record satisfies a query shape.
    pub fn satisfies(&self, with: &Vec<ComponentKind>, without: &Vec<ComponentKind>) -> (b: bool)
        ensures
            b == rec_matches(self@, with@, without@),
    {
        let mut k: usize = 0;
        while k < with.len()
            invariant
                0 <= k <= with@.len(),
                forall|p: int| 0 <= p < k ==> rec_has(self@, with@[p]),
            decreases with@.len() - k,
        {
            if !self.has(with[k]) {
                return false;
            }
            k += 1;
        }
        let mut k: usize = 0;
        while k < without.len()
            invariant
                0 <= k <= without@.len(),
                forall|p: int| 0 <= p < with@.len() ==> rec_has(self@, with@[p]),
                forall|p: int| 0 <= p < k ==> !rec_has(self@, without@[p]),
            decreases without@.len() - k,
        {
            if self.has(without[k]) {
                return false;
            }
            k += 1;
        }
        true
    }

    /// Attach a component, replacing any component of the same kind.
    pub fn attach(&mut self, v: ComponentValue)
        ensures
            final(self)@ == with_component(old(self)@, v@),
    {
        match v {
            ComponentValue::RawContent(c) => self.raw_content = Some(c),
            ComponentValue::Metadata(c) => self.metadata = Some(c),
            ComponentValue::Status(c) => self.status = Some(c),
            ComponentValue::Analysis(c) => self.analysis = Some(c),
            ComponentValue::Element(c) => self.element = Some(c),
            ComponentValue::Finding(c) => self.finding = Some(c),
            ComponentValue::Inspector(c) => self.inspector = Some(c),
            ComponentValue::Job(c) => self.job = Some(c),
            ComponentValue::Slot(c) => self.slot = Some(c),
            ComponentValue::Assignment(c) => self.assignment = Some(c),
        }
    }
}

/// A structural mutation deferred until after a system's pass.
#[derive(Debug)]
pub enum Command {
    /// Attach a component to an existing entity.
    Insert { target: Entity, value: ComponentValue },
    /// Create a new entity holding the given record.
    Spawn { record: EntityRecord },
}

/// Mathematical image of [`Command`].
#[verifier::ext_equal]
pub enum CommandV {
    Insert { target: Entity, value: ComponentValueV },
    Spawn { record: RecordV },
}

impl View for Command {
    type V = CommandV;

    open spec fn view(&self) -> CommandV {
        match self {
            Command::Insert { target, value } => CommandV::Insert { target: *target, value: value@ },
            Command::Spawn { record } => CommandV::Spawn { record: record@ },
        }
    }
}

/// The store after one deferred command. An insert aimed at an entity the
/// world does not know leaves the store untouched.
pub open spec fn apply_command(recs: Seq<RecordV>, c: CommandV) -> Seq<RecordV> {
    match c {
        CommandV::Insert { target, value } => if target.0 < recs.len() {
            recs.update(target.0 as int, with_component(recs[target.0 as int], value))
        } else {
            recs
        },
        CommandV::Spawn { record } => recs.push(record),
    }
}

/// The store after a whole command list, applied in issue order.
pub open spec fn apply_commands(recs: Seq<RecordV>, cmds: Seq<CommandV>) -> Seq<RecordV>
    decreases cmds.len(),
{
    if cmds.len() == 0 {
        recs
    } else {
        apply_command(apply_commands(recs, cmds.drop_last()), cmds.last())
    }
}

/// Appending one command to a buffer composes with applying it last.
pub proof fn lemma_apply_commands_push(recs: Seq<RecordV>, cmds: Seq<CommandV>, c: CommandV)
    ensures
        apply_commands(recs, cmds.push(c)) == apply_command(apply_commands(recs, cmds), c),
{
    assert(cmds.push(c).drop_last() =~= cmds);
    assert(cmds.push(c).last() == c);
}

/// Deferred structural mutations recorded during a system's pass.
#[derive(Debug)]
pub struct CommandBuffer {
    cmds: Vec<Command>,
}

impl View for CommandBuffer {
    type V = Seq<CommandV>;

    closed spec fn view(&self) -> Seq<CommandV> {
        Seq::new(self.cmds@.len(), |i: int| self.cmds@[i]@)
    }
}

impl CommandBuffer {
    /// An empty buffer.
    pub fn new() -> (b: CommandBuffer)
        ensures
            b@ == Seq::<CommandV>::empty(),
    {
        let b = CommandBuffer { cmds: Vec::new() };
        proof {
            assert(b@ =~= Seq::<CommandV>::empty());
        }
        b
    }

    /// Record a deferred component insertion.
    pub fn insert(&mut self, target: Entity, value: ComponentValue)
        ensures
            final(self)@ == old(self)@.push(CommandV::Insert { target, value: value@ }),
    {
        let ghost before = self@;
        let ghost v = value@;
        self.cmds.push(Command::Insert { target, value });
        proof {
            assert(self@ =~= before.push(CommandV::Insert { target, value: v }));
        }
    }

    /// Record a deferred entity spawn.
    pub fn spawn(&mut self, record: EntityRecord)
        ensures
            final(self)@ == old(self)@.push(CommandV::Spawn { record: record@ }),
    {
        let ghost before = self@;
        let ghost r = record@;
        self.cmds.push(Command::Spawn { record });
        proof {
            assert(self@ =~= before.push(CommandV::Spawn { record: r }));
        }
    }
}

/// Failure of a singleton query: a programming error in pipeline wiring,
/// surfaced to the caller rather than resolved silently.
#[derive(Clone, Copy, PartialEq, Eq, Structural, Debug)]
pub enum QueryError {
    /// No entity matches a shape that expects exactly one.
    NoMatch,
    /// More than one entity matches a shape that expects exactly one.
    MultipleMatches,
}

/// The world: every entity record, in insertion order. It exclusively owns
/// all entities and components created within it.
#[derive(Debug)]
pub struct World {
    records: Vec<EntityRecord>,
}

impl View for World {
    type V = Seq<RecordV>;

    closed spec fn view(&self) -> Seq<RecordV> {
        Seq::new(self.records@.len(), |i: int| self.records@[i]@)
    }
}

impl World {
    /// An empty world.
    pub fn new() -> (w: World)
        ensures
            w@ == Seq::<RecordV>::empty(),
    {
        let w = World { records: Vec::new() };
        proof {
            assert(w@ =~= Seq::<RecordV>::empty());
        }
        w
    }

    /// How many entities have been spawned.
    pub fn num_entities(&self) -> (n: usize)
        ensures
            n == self@.len(),
    {
        self.records.len()
    }

    /// Create a new entity holding the given record; its identity is the
    /// next index in insertion order.
    pub fn spawn(&mut self, rec: EntityRecord) -> (e: Entity)
        ensures
            final(self)@ == old(self)@.push(rec@),
            e.0 == old(self)@.len(),
    {
        let ghost before = self@;
        let ghost recv = rec@;
        let e = Entity(self.records.len());
        self.records.push(rec);
        proof {
            assert(self@ =~= before.push(recv));
        }
        e
    }

    /// Read-only access to an entity's record.
    pub fn record(&self, e: Entity) -> (r: &EntityRecord)
        requires
            e.0 < self@.len(),
        ensures
            r@ == self@[e.0 as int],
    {
        &self.records[e.0]
    }

    /// Attach a component to an entity's record, replacing any component
    /// of the same kind. This is the live-store mutation systems use for
    /// value updates; structural insertions go through a
    /// [`CommandBuffer`] instead.
    pub fn set_component(&mut self, e: Entity, v: ComponentValue)
        requires
            e.0 < old(self)@.len(),
        ensures
            final(self)@ == old(self)@.update(
                e.0 as int,
                with_component(old(self)@[e.0 as int], v@),
            ),
    {
        let ghost before = self@;
        let ghost vv = v@;
        let r = &mut self.records[e.0];
        r.attach(v);
        proof {
            assert(self@ =~= before.update(e.0 as int, with_component(before[e.0 as int], vv)));
        }
    }

    /// Exactly the entities whose records satisfy the query shape, in
    /// entity (insertion) order.
    pub fn query(&self, with: &Vec<ComponentKind>, without: &Vec<ComponentKind>) -> (r: Vec<
        Entity,
    >)
        ensures
            forall|i: int|
                0 <= i < r@.len() ==> (#[trigger] r@[i]).0 < self@.len() && rec_matches(
                    self@[r@[i].0 as int],
                    with@,
                    without@,
                ),
            forall|i: int, j: int| 0 <= i < j < r@.len() ==> r@[i].0 < r@[j].0,
            forall|e: int|
                0 <= e < self@.len() && rec_matches(#[trigger] self@[e], with@, without@)
                    ==> r@.contains(Entity(e as usize)),
    {
        let n = self.records.len();
        let mut r: Vec<Entity> = Vec::new();
        let mut idx: usize = 0;
        while idx < n
            invariant
                n == self@.len(),
                0 <= idx <= n,
                forall|i: int|
                    0 <= i < r@.len() ==> (#[trigger] r@[i]).0 < idx && rec_matches(
                        self@[r@[i].0 as int],
                        with@,
                        without@,
                    ),
                forall|i: int, j: int| 0 <= i < j < r@.len() ==> r@[i].0 < r@[j].0,
                forall|e: int|
                    0 <= e < idx && rec_matches(#[trigger] self@[e], with@, without@)
                        ==> r@.contains(Entity(e as usize)),
            decreases n - idx,
        {
            let ghost before = r@;
            if self.records[idx].satisfies(with, without) {
                r.push(Entity(idx));
                proof {
                    assert forall|e: int|
                        0 <= e < idx + 1 && rec_matches(#[trigger] self@[e], with@, without@)
                            implies r@.contains(Entity(e as usize)) by {
                        if e < idx {
                            let w = choose|w: int|
                                0 <= w < before.len() && before[w] == Entity(e as usize);
                            assert(r@[w] == Entity(e as usize));
                        } else {
                            assert(r@[r@.len() - 1] == Entity(e as usize));
                        }
                    }
                }
            }
            idx += 1;
        }
        r
    }

    /// The single entity matching the shape; a distinct error when zero or
    /// more than one entity match.
    pub fn query_single(&self, with: &Vec<ComponentKind>, without: &Vec<ComponentKind>) -> (r:
        Result<Entity, QueryError>)
        ensures
            match r {
                Ok(e) => count_matches(self@, with@, without@) == 1 && e.0 < self@.len()
                    && rec_matches(self@[e.0 as int], with@, without@),
                Err(QueryError::NoMatch) => count_matches(self@, with@, without@) == 0,
                Err(QueryError::MultipleMatches) => count_matches(self@, with@, without@) >= 2,
            },
    {
        let n = self.records.len();
        let mut found: Option<Entity> = None;
        let mut count: usize = 0;
        let mut idx: usize = 0;
        while idx < n
            invariant
                n == self@.len(),
                0 <= idx <= n,
                count <= idx,
                count == count_matches(self@.subrange(0, idx as int), with@, without@),
                if count == 0 {
                    found is None
                } else {
                    found is Some && (found->0).0 < idx && rec_matches(
                        self@[(found->0).0 as int],
                        with@,
                        without@,
                    )
                },
            decreases n - idx,
        {
            let ghost prefix = self@.subrange(0, idx as int);
            if self.records[idx].satisfies(with, without) {
                if found.is_none() {
                    found = Some(Entity(idx));
                }
                count += 1;
            }
            proof {
                assert(self@.subrange(0, idx + 1).drop_last() =~= prefix);
                assert(self@.subrange(0, idx + 1).last() == self@[idx as int]);
            }
            idx += 1;
        }
        proof {
            assert(self@.subrange(0, n as int) =~= self@);
        }
        if count == 0 {
            Err(QueryError::NoMatch)
        } else if count > 1 {
            Err(QueryError::MultipleMatches)
        } else {
            Ok(found.unwrap())
        }
    }

    /// Apply every deferred command to the store, in issue order.
    pub fn apply(&mut self, buffer: CommandBuffer)
        ensures
            final(self)@ == apply_commands(old(self)@, buffer@),
    {
        let ghost orig = self@;
        let ghost cmds = buffer@;
        let mut remaining = buffer.cmds;
        let len_now = remaining.len();
        let ghost len = cmds.len();
        let mut k: usize = 0;
        proof {
            assert(len == len_now);
            assert(cmds.subrange(0, 0) =~= Seq::<CommandV>::empty());
        }
        while remaining.len() > 0
            invariant
                len == cmds.len(),
                len <= usize::MAX,
                k + remaining@.len() == len,
                forall|i: int|
                    0 <= i < remaining@.len() ==> cmds[k + i] == (#[trigger] remaining@[i])@,
                self@ == apply_commands(orig, cmds.subrange(0, k as int)),
            decreases remaining@.len(),
        {
            let ghost prefix = cmds.subrange(0, k as int);
            let ghost pre_rem = remaining@;
            let cmd = remaining.remove(0);
            proof {
                assert(cmd@ == cmds[k as int]);
                assert(pre_rem.remove(0).len() == pre_rem.len() - 1);
                assert(forall|i: int|
                    0 <= i < remaining@.len() ==> remaining@[i] == pre_rem[i + 1]);
                lemma_apply_commands_push(orig, prefix, cmds[k as int]);
                assert(cmds.subrange(0, k as int + 1) =~= prefix.push(cmds[k as int]));
            }
            match cmd {
                Command::Insert { target, value } => {
                    if target.0 < self.records.len() {
                        self.set_component(target, value);
                    }
                },
                Command::Spawn { record } => {
                    self.spawn(record);
                },
            }
            k += 1;
        }
        proof {
            assert(cmds.subrange(0, len as int) =~= cmds);
        }
    }
}

} // verus!
