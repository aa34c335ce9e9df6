//! The fence around a project's runtime: a change of the project waits for no running use and
//! outdates every context that was built before it.
use std::collections::hash_map::RandomState;

use dashmap::DashMap;
use vstd::prelude::*;

use crate::error::{AgentError, AgentErrorKind};
use crate::text::same_text;

verus! {

/// The concurrent hash map of `dashmap`.
#[verifier::external_type_specification]
#[verifier::external_body]
#[verifier::reject_recursive_types(K)]
#[verifier::reject_recursive_types(V)]
#[verifier::reject_recursive_types(S)]
pub struct ExDashMap<K, V, S>(DashMap<K, V, S>);

/// The fence of each conversation that has one.
pub uninterp spec fn fences_in(map: DashMap<String, usize, RandomState>) -> Map<Seq<char>, usize>;

/// `DashMap::new`: a map without entries.
#[verifier::external_body]
fn new_fences() -> (r: DashMap<String, usize, RandomState>)
    ensures
        fences_in(r).dom() == Set::<Seq<char>>::empty(),
{
    DashMap::new()
}

/// `DashMap::entry` with `or_insert`: the value of a key, which is the given one where the key had
/// none.
#[verifier::external_body]
fn fence_or_insert(
    map: &mut DashMap<String, usize, RandomState>,
    conversation_id: &str,
    fresh: usize,
) -> (r: usize)
    ensures
        fences_in(*old(map)).dom().contains(conversation_id@) ==> r == fences_in(
            *old(map),
        )[conversation_id@] && fences_in(*final(map)) == fences_in(*old(map)),
        !fences_in(*old(map)).dom().contains(conversation_id@) ==> r == fresh && fences_in(
            *final(map)
        ) == fences_in(*old(map)).insert(conversation_id@, fresh),
{
    *map.entry(conversation_id.to_owned()).or_insert(fresh).value()
}

/// `DashMap::remove`: the map without a key.
#[verifier::external_body]
fn remove_fence(map: &mut DashMap<String, usize, RandomState>, conversation_id: &str)
    ensures
        fences_in(*final(map)) == fences_in(*old(map)).remove(conversation_id@),
{
    map.remove(conversation_id);
}

pub const PROJECT_RUNTIME_CONTEXT_INVALIDATED: &'static str = "PROJECT_RUNTIME_CONTEXT_INVALIDATED";

pub const PROJECT_RUNTIME_BUSY: &'static str = "PROJECT_RUNTIME_BUSY";

/// What a project's runtime is used for.
#[derive(Debug, PartialEq, Eq)]
pub enum ProjectRuntimeUse {
    Warmup,
    Turn { turn_id: String },
}

/// The fence of one conversation: how many uses run, whether a change runs, which revision of the
/// project is known to be in force, and how often the runtime was outdated.
#[derive(Debug, Clone, Copy, PartialEq, Eq, Structural)]
pub struct ProjectRuntimeEpochState {
    pub readers: u32,
    pub writer: bool,
    pub authoritative_revision: Option<u64>,
    pub runtime_generation: u64,
}

/// How many uses can run at a time.
pub const MAX_RUNTIME_USES: u32 = 536_870_911;

impl ProjectRuntimeEpochState {
    /// A fence that nothing has passed.
    pub open spec fn fresh() -> ProjectRuntimeEpochState {
        ProjectRuntimeEpochState {
            readers: 0,
            writer: false,
            authoritative_revision: None,
            runtime_generation: 0,
        }
    }

    /// A change excludes every use.
    pub open spec fn wf(self) -> bool {
        self.readers <= MAX_RUNTIME_USES && (self.writer ==> self.readers == 0)
    }

    /// Whether a use can begin.
    pub open spec fn admits(self) -> bool {
        !self.writer && self.readers < MAX_RUNTIME_USES
    }

    /// With one more use.
    pub open spec fn entered(self) -> ProjectRuntimeEpochState {
        ProjectRuntimeEpochState { readers: (self.readers + 1) as u32, ..self }
    }

    /// With one use less.
    pub open spec fn left(self) -> ProjectRuntimeEpochState {
        ProjectRuntimeEpochState { readers: (self.readers - 1) as u32, ..self }
    }

    /// With the revision of the project set, and the runtime outdated where `advance` says so and
    /// there is a generation left.
    pub open spec fn committed(self, revision: u64, advance: bool) -> ProjectRuntimeEpochState {
        ProjectRuntimeEpochState {
            authoritative_revision: Some(revision),
            runtime_generation: if advance && self.runtime_generation < u64::MAX {
                (self.runtime_generation + 1) as u64
            } else {
                self.runtime_generation
            },
            ..self
        }
    }

    /// Whether a context of that revision and generation is still in force.
    pub open spec fn in_force(self, revision: u64, generation: u64) -> bool {
        self.runtime_generation == generation && self.agrees(revision)
    }

    /// Whether a revision is not contradicted.
    pub open spec fn agrees(self, revision: u64) -> bool {
        self.authoritative_revision is None || self.authoritative_revision == Some(revision)
    }

    /// Whether a change can begin.
    pub open spec fn can_change(self) -> bool {
        self.readers == 0 && !self.writer
    }

    /// With a change begun.
    pub open spec fn in_change(self) -> ProjectRuntimeEpochState {
        ProjectRuntimeEpochState { writer: true, ..self }
    }

    /// With the change ended.
    pub open spec fn after_change(self) -> ProjectRuntimeEpochState {
        ProjectRuntimeEpochState { writer: false, ..self }
    }

    /// Whether a context comes to use the project, where the store has said whether it is in force.
    pub open spec fn lets_use(self, revision: u64, generation: u64, revalidated: bool) -> bool {
        self.admits() && self.in_force(revision, generation) && revalidated
    }

    /// In use under a revision.
    pub open spec fn used_under(self, revision: u64) -> ProjectRuntimeEpochState {
        ProjectRuntimeEpochState { authoritative_revision: Some(revision), ..self.entered() }
    }
}

/// The fences of all conversations. A conversation that is forgotten and comes back gets a new one;
/// who holds the old one keeps it.
pub struct FenceModel {
    pub fences: Map<Seq<char>, usize>,
    pub states: Seq<ProjectRuntimeEpochState>,
}

impl FenceModel {
    /// Every fence exists, and no two conversations share one.
    pub open spec fn wf(self) -> bool {
        &&& forall|id: Seq<char>| #[trigger]
            self.fences.dom().contains(id) ==> self.fences[id] < self.states.len()
        &&& forall|first: Seq<char>, second: Seq<char>|
            #![trigger self.fences[first], self.fences[second]]
            self.fences.dom().contains(first) && self.fences.dom().contains(second)
                && self.fences[first] == self.fences[second] ==> first == second
        &&& forall|i: int| 0 <= i < self.states.len() ==> (#[trigger] self.states[i]).wf()
    }

    /// With a fence for a conversation.
    pub open spec fn fenced(self, id: Seq<char>) -> FenceModel {
        if self.fences.dom().contains(id) {
            self
        } else {
            FenceModel {
                fences: self.fences.insert(id, self.states.len() as usize),
                states: self.states.push(ProjectRuntimeEpochState::fresh()),
            }
        }
    }

    /// The fence of a conversation.
    pub open spec fn fence(self, id: Seq<char>) -> int {
        self.fenced(id).fences[id] as int
    }

    /// How the fence of a conversation stands.
    pub open spec fn state(self, id: Seq<char>) -> ProjectRuntimeEpochState {
        self.fenced(id).states[self.fence(id)]
    }

    /// With a fence in another state.
    pub open spec fn with_state(self, fence: int, state: ProjectRuntimeEpochState) -> FenceModel {
        FenceModel { states: self.states.update(fence, state), ..self }
    }

    /// Without the fence of a conversation.
    pub open spec fn without(self, id: Seq<char>) -> FenceModel {
        FenceModel { fences: self.fences.remove(id), ..self }
    }
}

/// The fences of all conversations.
pub struct ProjectRuntimeEpochRegistry {
    fences: DashMap<String, usize, RandomState>,
    states: Vec<ProjectRuntimeEpochState>,
}

impl View for ProjectRuntimeEpochRegistry {
    type V = FenceModel;

    closed spec fn view(&self) -> FenceModel {
        FenceModel { fences: fences_in(self.fences), states: self.states@ }
    }
}

impl ProjectRuntimeEpochRegistry {
    pub fn new() -> (r: Self)
        ensures
            r@.wf(),
            r@.fences =~= Map::<Seq<char>, usize>::empty(),
            r@.states =~= Seq::<ProjectRuntimeEpochState>::empty(),
    {
        ProjectRuntimeEpochRegistry { fences: new_fences(), states: Vec::new() }
    }

    fn fence(&mut self, conversation_id: &str) -> (r: usize)
        requires
            old(self)@.wf(),
        ensures
            final(self)@.wf(),
            final(self)@ == old(self)@.fenced(conversation_id@),
            r == old(self)@.fence(conversation_id@),
            r < final(self)@.states.len(),
    {
        let ghost before = self@;
        let fresh: usize = self.states.len();
        let fence: usize = fence_or_insert(&mut self.fences, conversation_id, fresh);
        if fence == fresh {
            self.states.push(
                ProjectRuntimeEpochState {
                    readers: 0,
                    writer: false,
                    authoritative_revision: None,
                    runtime_generation: 0,
                },
            );
        }
        proof {
            let after = before.fenced(conversation_id@);
            assert(self@.fences == after.fences);
            assert(self@.states =~= after.states);
            assert forall|id: Seq<char>| #[trigger] after.fences.dom().contains(id) implies
                after.fences[id] < after.states.len() by {
                if before.fences.dom().contains(id) {
                    assert(before.fences[id] < before.states.len());
                }
            }
            assert forall|first: Seq<char>, second: Seq<char>|
                #![trigger after.fences[first], after.fences[second]]
                after.fences.dom().contains(first) && after.fences.dom().contains(second)
                    && after.fences[first] == after.fences[second] implies first == second by {
                if before.fences.dom().contains(first) {
                    assert(before.fences[first] < before.states.len());
                }
                if before.fences.dom().contains(second) {
                    assert(before.fences[second] < before.states.len());
                }
            }
        }
        fence
    }

    fn set_state(&mut self, fence: usize, state: ProjectRuntimeEpochState)
        requires
            old(self)@.wf(),
            fence < old(self)@.states.len(),
            state.wf(),
        ensures
            final(self)@.wf(),
            final(self)@ == old(self)@.with_state(fence as int, state),
    {
        let ghost before = self@;
        self.states[fence] = state;
        proof {
            let after = before.with_state(fence as int, state);
            assert(self@.states =~= after.states);
            assert forall|id: Seq<char>| #[trigger] after.fences.dom().contains(id) implies
                after.fences[id] < after.states.len() by {
                assert(before.fences.dom().contains(id));
            }
            assert forall|i: int| 0 <= i < after.states.len() implies (
            #[trigger] after.states[i]).wf() by {
                assert(before.states[i].wf());
            }
        }
    }

    /// How often the runtime of a conversation was outdated.
    pub fn runtime_generation(&mut self, conversation_id: &str) -> (r: u64)
        requires
            old(self)@.wf(),
        ensures
            final(self)@.wf(),
            final(self)@ == old(self)@.fenced(conversation_id@),
            r == old(self)@.state(conversation_id@).runtime_generation,
    {
        let fence = self.fence(conversation_id);
        self.states[fence].runtime_generation
    }

    /// Begins a change of a conversation's project. It fails while a use or another change runs.
    pub fn try_begin_mutation(&mut self, conversation_id: &str) -> (r: Result<
        ProjectRuntimeMutationPermit,
        AgentError,
    >)
        requires
            old(self)@.wf(),
        ensures
            final(self)@.wf(),
            ({
                let fence = old(self)@.fence(conversation_id@);
                let state = old(self)@.state(conversation_id@);
                match r {
                    Ok(permit) => {
                        &&& state.readers == 0 && !state.writer
                        &&& state.can_change()
                        &&& permit.fence() == fence
                        &&& final(self)@.states[fence] == state.in_change()
                        &&& final(self)@ == old(self)@.fenced(conversation_id@).with_state(
                            fence,
                            ProjectRuntimeEpochState { writer: true, ..state },
                        )
                    },
                    Err(error) => {
                        &&& state.readers > 0 || state.writer
                        &&& !state.can_change()
                        &&& error@ == (AgentErrorKind::Conflict, PROJECT_RUNTIME_BUSY@)
                        &&& final(self)@ == old(self)@.fenced(conversation_id@)
                    },
                }
            }),
    {
        let fence = self.fence(conversation_id);
        let mut state = self.states[fence];
        if state.readers > 0 || state.writer {
            return Err(AgentError::conflict(PROJECT_RUNTIME_BUSY));
        }
        state.writer = true;
        self.set_state(fence, state);
        Ok(ProjectRuntimeMutationPermit { fence })
    }

    /// Forgets the fence of a conversation.
    pub fn forget(&mut self, conversation_id: &str)
        requires
            old(self)@.wf(),
        ensures
            final(self)@.wf(),
            final(self)@ == old(self)@.without(conversation_id@),
    {
        let ghost before = self@;
        remove_fence(&mut self.fences, conversation_id);
        proof {
            let after = before.without(conversation_id@);
            assert forall|id: Seq<char>| #[trigger] after.fences.dom().contains(id) implies
                after.fences[id] < after.states.len() by {
                assert(before.fences.dom().contains(id));
            }
            assert forall|first: Seq<char>, second: Seq<char>|
                #![trigger after.fences[first], after.fences[second]]
                after.fences.dom().contains(first) && after.fences.dom().contains(second)
                    && after.fences[first] == after.fences[second] implies first == second by {
                assert(before.fences[first] == before.fences[second]);
            }
        }
    }
}

/// A running change of a project.
#[derive(Debug)]
pub struct ProjectRuntimeMutationPermit {
    fence: usize,
}

impl ProjectRuntimeMutationPermit {
    /// The fence that the change holds.
    pub closed spec fn fence(&self) -> int {
        self.fence as int
    }

    /// Whether the change holds its fence.
    pub open spec fn held_in(&self, model: FenceModel) -> bool {
        self.fence() < model.states.len() && model.states[self.fence()].writer
    }

    /// Sets the revision of the project, and outdates the runtime where `advance_generation` says
    /// so. Returns the generation; where none is left the revision is set all the same.
    pub fn commit_runtime_identity(
        &self,
        registry: &mut ProjectRuntimeEpochRegistry,
        project_binding_revision: u64,
        advance_generation: bool,
    ) -> (r: Result<u64, AgentError>)
        requires
            old(registry)@.wf(),
            self.held_in(old(registry)@),
        ensures
            final(registry)@.wf(),
            self.held_in(final(registry)@),
            final(registry)@ == old(registry)@.with_state(
                self.fence(),
                old(registry)@.states[self.fence()].committed(
                    project_binding_revision,
                    advance_generation,
                ),
            ),
            match r {
                Ok(generation) => {
                    &&& !advance_generation || old(registry)@.states[self.fence()].runtime_generation
                        < u64::MAX
                    &&& generation == final(registry)@.states[self.fence()].runtime_generation
                },
                Err(error) => {
                    &&& advance_generation && old(registry)@.states[self.fence()].runtime_generation
                        == u64::MAX
                    &&& error@ == (
                        AgentErrorKind::Internal,
                        "PROJECT_RUNTIME_GENERATION_EXHAUSTED"@,
                    )
                },
            },
    {
        let mut state = registry.states[self.fence];
        state.authoritative_revision = Some(project_binding_revision);
        let mut exhausted = false;
        if advance_generation {
            match state.runtime_generation.checked_add(1) {
                Some(generation) => {
                    state.runtime_generation = generation;
                },
                None => {
                    exhausted = true;
                },
            }
        }
        registry.set_state(self.fence, state);
        if exhausted {
            return Err(AgentError::internal("PROJECT_RUNTIME_GENERATION_EXHAUSTED"));
        }
        Ok(state.runtime_generation)
    }

    /// Ends the change.
    pub fn end(self, registry: &mut ProjectRuntimeEpochRegistry)
        requires
            old(registry)@.wf(),
            self.held_in(old(registry)@),
        ensures
            final(registry)@.wf(),
            final(registry)@ == old(registry)@.with_state(
                self.fence(),
                old(registry)@.states[self.fence()].after_change(),
            ),
    {
        let mut state = registry.states[self.fence];
        state.writer = false;
        registry.set_state(self.fence, state);
    }
}

/// The context that an agent was built with.
#[derive(Debug, Clone, Copy, PartialEq, Eq, Structural)]
pub struct ProjectRuntimeContext {
    pub project_binding_revision: u64,
    pub process_runtime_generation: u64,
}

/// A gate through which an agent that was built for a project comes to use it.
#[derive(Debug)]
pub struct ProjectRuntimeBuildGate {
    fence: usize,
    conversation_id: String,
    project_binding_revision: u64,
    process_runtime_generation: u64,
}

/// What a gate lets through.
pub struct GateView {
    pub fence: int,
    pub conversation: Seq<char>,
    pub revision: u64,
    pub generation: u64,
}

impl View for ProjectRuntimeBuildGate {
    type V = GateView;

    closed spec fn view(&self) -> GateView {
        GateView {
            fence: self.fence as int,
            conversation: self.conversation_id@,
            revision: self.project_binding_revision,
            generation: self.process_runtime_generation,
        }
    }
}

fn invalidated() -> (r: AgentError)
    ensures
        r@ == (AgentErrorKind::Conflict, PROJECT_RUNTIME_CONTEXT_INVALIDATED@),
{
    AgentError::conflict(PROJECT_RUNTIME_CONTEXT_INVALIDATED)
}

impl ProjectRuntimeBuildGate {
    pub fn new(
        registry: &mut ProjectRuntimeEpochRegistry,
        conversation_id: &str,
        project_binding_revision: u64,
    ) -> (r: Self)
        requires
            old(registry)@.wf(),
        ensures
            final(registry)@.wf(),
            final(registry)@ == old(registry)@.fenced(conversation_id@),
            r@ == (GateView {
                fence: old(registry)@.fence(conversation_id@),
                conversation: conversation_id@,
                revision: project_binding_revision,
                generation: old(registry)@.state(conversation_id@).runtime_generation,
            }),
            r@.fence < final(registry)@.states.len(),
    {
        let fence = registry.fence(conversation_id);
        let process_runtime_generation = registry.states[fence].runtime_generation;
        ProjectRuntimeBuildGate {
            fence,
            conversation_id: conversation_id.to_owned(),
            project_binding_revision,
            process_runtime_generation,
        }
    }

    pub fn process_runtime_generation(&self) -> (r: u64)
        ensures
            r == self@.generation,
    {
        self.process_runtime_generation
    }

    /// Enters the fence, unless a change runs.
    pub fn try_enter(&self, registry: &mut ProjectRuntimeEpochRegistry) -> (r: bool)
        requires
            old(registry)@.wf(),
            self@.fence < old(registry)@.states.len(),
        ensures
            final(registry)@.wf(),
            r == old(registry)@.states[self@.fence].admits(),
            final(registry)@ == if r {
                old(registry)@.with_state(
                    self@.fence,
                    old(registry)@.states[self@.fence].entered(),
                )
            } else {
                old(registry)@
            },
    {
        assert(registry.states@[self.fence as int].wf());
        let mut state = registry.states[self.fence];
        if state.writer || state.readers >= MAX_RUNTIME_USES {
            return false;
        }
        state.readers = state.readers + 1;
        registry.set_state(self.fence, state);
        true
    }

    fn leave(&self, registry: &mut ProjectRuntimeEpochRegistry)
        requires
            old(registry)@.wf(),
            self@.fence < old(registry)@.states.len(),
            old(registry)@.states[self@.fence].readers > 0,
        ensures
            final(registry)@.wf(),
            final(registry)@ == old(registry)@.with_state(
                self@.fence,
                old(registry)@.states[self@.fence].left(),
            ),
    {
        assert(registry.states@[self.fence as int].wf());
        let mut state = registry.states[self.fence];
        state.readers = state.readers - 1;
        registry.set_state(self.fence, state);
    }

    /// Says, inside the fence, whether the context is still in force. Where it is not, the fence is
    /// left.
    pub fn check_context(&self, registry: &mut ProjectRuntimeEpochRegistry) -> (r: Result<
        (),
        AgentError,
    >)
        requires
            old(registry)@.wf(),
            self@.fence < old(registry)@.states.len(),
            old(registry)@.states[self@.fence].readers > 0,
        ensures
            final(registry)@.wf(),
            ({
                let state = old(registry)@.states[self@.fence];
                match r {
                    Ok(()) => {
                        &&& state.in_force(self@.revision, self@.generation)
                        &&& final(registry)@ == old(registry)@
                    },
                    Err(error) => {
                        &&& !state.in_force(self@.revision, self@.generation)
                        &&& error@ == (
                            AgentErrorKind::Conflict,
                            PROJECT_RUNTIME_CONTEXT_INVALIDATED@,
                        )
                        &&& final(registry)@ == old(registry)@.with_state(self@.fence, state.left())
                    },
                }
            }),
    {
        let state = registry.states[self.fence];
        let agrees = match state.authoritative_revision {
            Some(revision) => revision == self.project_binding_revision,
            None => true,
        };
        if state.runtime_generation != self.process_runtime_generation || !agrees {
            self.leave(registry);
            return Err(invalidated());
        }
        Ok(())
    }

    /// Takes, inside the fence, the result of asking the store whether the context is in force.
    /// Only a success may set the revision. Where the use is refused, the fence is left.
    pub fn finish_revalidation(
        &self,
        registry: &mut ProjectRuntimeEpochRegistry,
        runtime_use: ProjectRuntimeUse,
        revalidated: Result<(), AgentError>,
    ) -> (r: Result<ProjectRuntimeExecutionPermit, AgentError>)
        requires
            old(registry)@.wf(),
            self@.fence < old(registry)@.states.len(),
            old(registry)@.states[self@.fence].readers > 0,
        ensures
            final(registry)@.wf(),
            ({
                let state = old(registry)@.states[self@.fence];
                match r {
                    Ok(permit) => {
                        &&& revalidated is Ok
                        &&& state.agrees(self@.revision)
                        &&& permit@ == (PermitView {
                            gate: self@,
                            runtime_use,
                            callbacks: Seq::empty(),
                        })
                        &&& final(registry)@ == old(registry)@.with_state(
                            self@.fence,
                            ProjectRuntimeEpochState {
                                authoritative_revision: Some(self@.revision),
                                ..state
                            },
                        )
                    },
                    Err(error) => {
                        &&& final(registry)@ == old(registry)@.with_state(self@.fence, state.left())
                        &&& match revalidated {
                            Ok(()) => !state.agrees(self@.revision) && error@ == (
                                AgentErrorKind::Conflict,
                                PROJECT_RUNTIME_CONTEXT_INVALIDATED@,
                            ),
                            Err(cause) => error@ == cause@,
                        }
                    },
                }
            }),
    {
        if let Err(error) = revalidated {
            self.leave(registry);
            return Err(error);
        }
        assert(registry.states@[self.fence as int].wf());
        let mut state = registry.states[self.fence];
        let agrees = match state.authoritative_revision {
            Some(revision) => revision == self.project_binding_revision,
            None => true,
        };
        if !agrees {
            self.leave(registry);
            return Err(invalidated());
        }
        state.authoritative_revision = Some(self.project_binding_revision);
        registry.set_state(self.fence, state);
        let permit = ProjectRuntimeExecutionPermit {
            fence: self.fence,
            conversation_id: self.conversation_id.clone(),
            project_binding_revision: self.project_binding_revision,
            process_runtime_generation: self.process_runtime_generation,
            runtime_use,
            on_release: Vec::new(),
        };
        Ok(permit)
    }

    /// Comes to use the project: enters the fence and checks the context before and after the
    /// store was asked, whose answer is `revalidated`. Nothing where a change runs.
    pub fn acquire_and_revalidate(
        &self,
        registry: &mut ProjectRuntimeEpochRegistry,
        runtime_use: ProjectRuntimeUse,
        revalidated: Result<(), AgentError>,
    ) -> (r: Option<Result<ProjectRuntimeExecutionPermit, AgentError>>)
        requires
            old(registry)@.wf(),
            self@.fence < old(registry)@.states.len(),
        ensures
            final(registry)@.wf(),
            ({
                let state = old(registry)@.states[self@.fence];
                let used = state.lets_use(self@.revision, self@.generation, revalidated is Ok);
                &&& r is None <==> !state.admits()
                &&& (r is Some && r->0 is Ok) <==> used
                &&& used ==> final(registry)@.states[self@.fence] == state.used_under(
                    self@.revision,
                )
                &&& !used ==> final(registry)@ == old(registry)@
            }),
            ({
                let state = old(registry)@.states[self@.fence];
                match r {
                    None => !state.admits() && final(registry)@ == old(registry)@,
                    Some(Ok(permit)) => {
                        &&& state.admits()
                        &&& state.in_force(self@.revision, self@.generation)
                        &&& revalidated is Ok
                        &&& permit@ == (PermitView {
                            gate: self@,
                            runtime_use,
                            callbacks: Seq::empty(),
                        })
                        &&& final(registry)@ == old(registry)@.with_state(
                            self@.fence,
                            ProjectRuntimeEpochState {
                                authoritative_revision: Some(self@.revision),
                                ..state.entered()
                            },
                        )
                    },
                    Some(Err(error)) => {
                        &&& state.admits()
                        &&& final(registry)@ == old(registry)@
                        &&& if !state.in_force(self@.revision, self@.generation) {
                            error@ == (
                                AgentErrorKind::Conflict,
                                PROJECT_RUNTIME_CONTEXT_INVALIDATED@,
                            )
                        } else {
                            revalidated matches Err(cause) && error@ == cause@
                        }
                    },
                }
            }),
    {
        let ghost before = registry@;
        if !self.try_enter(registry) {
            return None;
        }
        let ghost entered = registry@;
        if let Err(error) = self.check_context(registry) {
            assert(registry@.states =~= before.states);
            return Some(Err(error));
        }
        let r = self.finish_revalidation(registry, runtime_use, revalidated);
        assert(r is Err ==> registry@.states =~= before.states);
        assert(r is Ok ==> registry@.states =~= before.states.update(
            self@.fence,
            (ProjectRuntimeEpochState {
                authoritative_revision: Some(self@.revision),
                ..before.states[self@.fence].entered()
            }),
        ));
        Some(r)
    }
}

/// A running use of a project.
#[derive(Debug)]
pub struct ProjectRuntimeExecutionPermit {
    fence: usize,
    conversation_id: String,
    project_binding_revision: u64,
    process_runtime_generation: u64,
    runtime_use: ProjectRuntimeUse,
    on_release: Vec<u64>,
}

/// What a use was let through for, and what is to be called when it ends.
pub struct PermitView {
    pub gate: GateView,
    pub runtime_use: ProjectRuntimeUse,
    pub callbacks: Seq<u64>,
}

impl View for ProjectRuntimeExecutionPermit {
    type V = PermitView;

    closed spec fn view(&self) -> PermitView {
        PermitView {
            gate: GateView {
                fence: self.fence as int,
                conversation: self.conversation_id@,
                revision: self.project_binding_revision,
                generation: self.process_runtime_generation,
            },
            runtime_use: self.runtime_use,
            callbacks: self.on_release@,
        }
    }
}

impl ProjectRuntimeExecutionPermit {
    /// Whether the use is that of a conversation under a context.
    pub fn matches(&self, conversation_id: &str, context: &ProjectRuntimeContext) -> (r: bool)
        ensures
            r == (self@.gate.conversation == conversation_id@ && self@.gate.revision
                == context.project_binding_revision && self@.gate.generation
                == context.process_runtime_generation),
    {
        same_text(self.conversation_id.as_str(), conversation_id) && self.project_binding_revision
            == context.project_binding_revision && self.process_runtime_generation
            == context.process_runtime_generation
    }

    pub fn runtime_use(&self) -> (r: &ProjectRuntimeUse)
        ensures
            *r == self@.runtime_use,
    {
        &self.runtime_use
    }

    /// Registers a callback for the end of the use. The first one of an id counts.
    pub fn register_release_callback(&mut self, registration_id: u64) -> (r: bool)
        ensures
            r == !old(self)@.callbacks.contains(registration_id),
            final(self)@ == if r {
                PermitView {
                    callbacks: old(self)@.callbacks.push(registration_id),
                    ..old(self)@
                }
            } else {
                old(self)@
            },
    {
        let mut i: usize = 0;
        while i < self.on_release.len()
            invariant
                i <= self.on_release@.len(),
                *self == *old(self),
                forall|j: int| 0 <= j < i ==> self.on_release@[j] != registration_id,
            decreases self.on_release@.len() - i,
        {
            if self.on_release[i] == registration_id {
                return false;
            }
            i = i + 1;
        }
        self.on_release.push(registration_id);
        true
    }

    /// Ends the use. Returns the callbacks to call.
    pub fn release(self, registry: &mut ProjectRuntimeEpochRegistry) -> (r: Vec<u64>)
        requires
            old(registry)@.wf(),
            self@.gate.fence < old(registry)@.states.len(),
            old(registry)@.states[self@.gate.fence].readers > 0,
        ensures
            final(registry)@.wf(),
            r@ == self@.callbacks,
            final(registry)@ == old(registry)@.with_state(
                self@.gate.fence,
                old(registry)@.states[self@.gate.fence].left(),
            ),
    {
        assert(registry.states@[self.fence as int].wf());
        let mut state = registry.states[self.fence];
        state.readers = state.readers - 1;
        registry.set_state(self.fence, state);
        self.on_release
    }
}

/// Outdating the runtime shuts every gate that was built before, for good: its generation lies
/// below every later one.
pub proof fn advancing_the_generation_invalidates_earlier_gates(
    state: ProjectRuntimeEpochState,
    revision: u64,
    earlier_revision: u64,
    earlier_generation: u64,
    later_revision: u64,
    later_advance: bool,
)
    requires
        earlier_generation <= state.runtime_generation,
        state.runtime_generation < u64::MAX,
    ensures
        ({
            let after = state.committed(revision, true);
            &&& earlier_generation < after.runtime_generation
            &&& !after.in_force(earlier_revision, earlier_generation)
            &&& earlier_generation < after.committed(
                later_revision,
                later_advance,
            ).runtime_generation
        }),
{
}

/// A change of the revision shuts every gate of another revision, even without a new generation.
pub proof fn committing_a_revision_invalidates_other_revisions(
    state: ProjectRuntimeEpochState,
    revision: u64,
    other: u64,
    generation: u64,
)
    requires
        revision != other,
    ensures
        !state.committed(revision, false).in_force(other, generation),
{
}

/// While a use runs no change begins, and while a change runs no use does.
pub proof fn uses_and_changes_exclude_each_other(model: FenceModel, fence: int)
    requires
        model.wf(),
        0 <= fence < model.states.len(),
    ensures
        model.states[fence].readers > 0 ==> !model.states[fence].writer,
        model.states[fence].writer ==> !model.states[fence].admits(),
{
    assert(model.states[fence].wf());
}

/// A conversation that was forgotten starts over with a fence of its own, and what holds its old
/// fence is not touched.
pub proof fn forgotten_conversation_starts_over(model: FenceModel, id: Seq<char>)
    requires
        model.wf(),
        model.fences.dom().contains(id),
        model.states.len() < usize::MAX,
    ensures
        ({
            let after = model.without(id).fenced(id);
            &&& after.fences[id] != model.fences[id]
            &&& after.states[after.fences[id] as int] == ProjectRuntimeEpochState::fresh()
            &&& after.states[model.fences[id] as int] == model.states[model.fences[id] as int]
        }),
{
}

/// A conversation starts without a revision, in its first generation, with nobody using its
/// runtime.
pub proof fn new_conversation_starts_fresh(model: FenceModel, id: Seq<char>, other: Seq<char>)
    requires
        model.wf(),
        model.states.len() < usize::MAX,
    ensures
        model.fenced(id).fences.dom().contains(id),
        model.fenced(id).wf(),
        !model.fences.dom().contains(id) ==> {
            let state = model.state(id);
            &&& state.readers == 0
            &&& !state.writer
            &&& state.authoritative_revision is None
            &&& state.runtime_generation == 0
        },
        model.fences.dom().contains(id) ==> model.fenced(id) == model && model.state(id)
            == model.states[model.fences[id] as int],
        model.fences.dom().contains(other) ==> model.fenced(id).state(other) == model.state(other)
            && model.fenced(id).fence(other) == model.fence(other),
        model.fences.dom().contains(other) && other != id ==> model.fence(other) != model.fence(id),
{
    if !model.fences.dom().contains(id) {
        let after = model.fenced(id);
        assert forall|i: int| 0 <= i < after.states.len() implies (#[trigger] after.states[i]).wf() by {
            if i < model.states.len() {
                assert(model.states[i].wf());
            }
        }
        if model.fences.dom().contains(other) {
            assert(model.fences[other] < model.states.len());
        }
    } else if model.fences.dom().contains(other) && other != id {
        assert(model.fences[other] != model.fences[id]);
    }
}

/// What is done to the fence of one conversation leaves every other conversation's.
pub proof fn fences_are_kept_apart(
    model: FenceModel,
    id: Seq<char>,
    other: Seq<char>,
    state: ProjectRuntimeEpochState,
)
    requires
        model.wf(),
        model.fences.dom().contains(id),
        model.fences.dom().contains(other),
        id != other,
    ensures
        model.with_state(model.fence(id), state).state(id) == state,
        model.with_state(model.fence(id), state).state(other) == model.state(other),
        model.without(id).state(other) == model.state(other),
        !model.without(id).fences.dom().contains(id),
{
    assert(model.fences[id] < model.states.len());
    assert(model.fences[other] < model.states.len());
    assert(model.fences[id] != model.fences[other]);
}

/// A use is counted while it lasts, and nothing else changes with it. Uses are admitted exactly
/// while nothing is being changed and there is room for one more.
pub proof fn uses_are_counted(state: ProjectRuntimeEpochState)
    requires
        state.wf(),
    ensures
        state.admits() <==> !state.writer && state.readers < 536_870_911,
        state.admits() ==> state.entered().readers == state.readers + 1 && state.entered()
            == (ProjectRuntimeEpochState { readers: state.entered().readers, ..state })
            && state.entered().left() == state && state.entered().wf(),
{
}

/// A committed revision is the one in force, and advances the generation by one exactly where that
/// was asked for and there is one left. Who uses the runtime stays as it was.
pub proof fn committed_revision_is_in_force(
    state: ProjectRuntimeEpochState,
    revision: u64,
    advance: bool,
    other: u64,
    generation: u64,
)
    ensures
        ({
            let after = state.committed(revision, advance);
            &&& after.authoritative_revision == Some(revision)
            &&& !advance ==> after.runtime_generation == state.runtime_generation
            &&& advance && state.runtime_generation < u64::MAX ==> after.runtime_generation
                == state.runtime_generation + 1
            &&& state.runtime_generation == u64::MAX ==> after.runtime_generation == u64::MAX
            &&& after.readers == state.readers && after.writer == state.writer
            &&& after.agrees(other) <==> other == revision
            &&& after.in_force(other, generation) <==> other == revision && generation
                == after.runtime_generation
        }),
        state.authoritative_revision is None ==> state.agrees(other),
        state.authoritative_revision is None ==> (state.in_force(other, generation) <==> generation
            == state.runtime_generation),
{
}

/// A change begins exactly while nothing uses the project and no other change runs, and while it
/// runs nothing comes to use the project. Ending it gives back what was there before.
pub proof fn change_runs_alone(
    state: ProjectRuntimeEpochState,
    revision: u64,
    generation: u64,
    revalidated: bool,
)
    ensures
        state.can_change() <==> state.readers == 0 && !state.writer,
        !state.in_change().lets_use(revision, generation, revalidated),
        !state.in_change().can_change(),
        state.can_change() ==> state.in_change().after_change() == state,
        state.in_change().runtime_generation == state.runtime_generation,
        state.in_change().authoritative_revision == state.authoritative_revision,
        !state.after_change().writer,
{
}

/// A context comes to use the project exactly where no change runs, there is room, its generation is
/// the present one, its revision is not contradicted, and the store confirms it. Its revision then
/// holds for all that come after, and no change can begin until it has left.
pub proof fn use_needs_a_confirmed_context(
    state: ProjectRuntimeEpochState,
    revision: u64,
    generation: u64,
    revalidated: bool,
    other: u64,
)
    requires
        state.wf(),
    ensures
        state.lets_use(revision, generation, revalidated) <==> !state.writer && state.readers
            < 536_870_911 && state.runtime_generation == generation && (state.authoritative_revision
            is None || state.authoritative_revision == Some(revision)) && revalidated,
        state.lets_use(revision, generation, revalidated) ==> {
            let after = state.used_under(revision);
            &&& after.readers == state.readers + 1
            &&& after.authoritative_revision == Some(revision)
            &&& after.runtime_generation == generation
            &&& !after.can_change()
            &&& other != revision ==> !after.lets_use(other, generation, true)
            &&& state.readers == 0 ==> after.left().can_change()
        },
{
}

} // verus!
