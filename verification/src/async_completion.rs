//! The session binding of one route: which session is bound, under which generation, who holds an
//! admission on it, and which lifecycle transitions are waiting or running.
//!
//! The binding is a state machine. A transition is requested, waits until no admission is held and
//! no other transition runs, is entered, changes the binding and is left. Between request and leave
//! nothing is admitted and no lease validates.
use vstd::prelude::*;

use crate::text::{same_text, text_view};

verus! {

/// How many admissions one route can hold at a time.
pub const MAX_ADMISSIONS: usize = 536_870_911;

/// What a binding is, in terms of plain values.
pub struct BindingModel {
    /// The session that is bound.
    pub bound: Option<Seq<char>>,
    /// Advances with every bind, unbind and invalidation.
    pub generation: u64,
    /// Advances with every request of a transition that changes the lifecycle.
    pub epoch: u64,
    /// Transitions that were requested and not left.
    pub pending: nat,
    /// Those of the pending transitions that change the lifecycle.
    pub changes: nat,
    /// Those of the pending changes that closed the route's admissions for good.
    pub closed: nat,
    /// Admissions that are held.
    pub readers: nat,
    /// Whether a transition has been entered.
    pub writer: bool,
}

/// One step of the binding's life.
pub enum BindingStep {
    Request { changes_lifecycle: bool },
    Abandon { changes_lifecycle: bool },
    Enter,
    Leave { changes_lifecycle: bool },
    Close,
    Admit,
    AdmitFor { session_id: Seq<char>, generation: u64 },
    Release,
    Bind { session_id: Seq<char> },
    BindIfGeneration { session_id: Seq<char>, generation: u64, overtaken: bool },
    UnbindMatching { session_id: Seq<char> },
    Invalidate,
    BindAcknowledged { session_id: Seq<char>, generation: u64 },
}

impl BindingModel {
    /// A running transition excludes every admission and is itself pending.
    pub open spec fn wf(self) -> bool {
        &&& self.writer ==> self.readers == 0 && self.pending > 0
        &&& self.writer ==> self.closed < self.pending
        &&& self.closed <= self.changes <= self.pending
        &&& self.readers <= MAX_ADMISSIONS
    }

    /// The generation after one advance; the last one stays.
    pub open spec fn advanced(generation: u64) -> u64 {
        if generation < u64::MAX {
            (generation + 1) as u64
        } else {
            generation
        }
    }

    /// Whether an admission can be taken now.
    pub open spec fn admits(self) -> bool {
        self.pending == 0 && !self.writer && self.readers < MAX_ADMISSIONS && self.bound is Some
    }

    /// Whether the lease of `session_id` at `generation` is the live one.
    pub open spec fn is_current(self, session_id: Seq<char>, generation: u64) -> bool {
        self.bound == Some(session_id) && self.generation == generation
    }

    /// Whether the lease of `session_id` at `generation` validates.
    pub open spec fn validates(self, session_id: Seq<char>, generation: u64) -> bool {
        self.pending == 0 && self.is_current(session_id, generation)
    }

    /// The session that is bound for everyone to see: none while a transition is pending.
    pub open spec fn shown_session(self) -> Option<Seq<char>> {
        if self.pending == 0 {
            self.bound
        } else {
            None
        }
    }

    /// The session bound under the next generation, or unchanged where no generation is left.
    pub open spec fn rebound(self, session_id: Seq<char>) -> BindingModel {
        if self.generation < u64::MAX {
            BindingModel {
                bound: Some(session_id),
                generation: (self.generation + 1) as u64,
                ..self
            }
        } else {
            self
        }
    }

    /// No session bound, under an advanced generation.
    pub open spec fn invalidated(self) -> BindingModel {
        BindingModel { bound: None, generation: BindingModel::advanced(self.generation), ..self }
    }

    /// One more admission.
    pub open spec fn admitted(self) -> BindingModel {
        BindingModel { readers: self.readers + 1, ..self }
    }

    /// Whether a transition of that kind is pending that can still be abandoned or left.
    pub open spec fn has_pending(self, changes_lifecycle: bool) -> bool {
        if changes_lifecycle {
            self.closed < self.changes
        } else {
            self.changes < self.pending
        }
    }

    /// Whether a step can be taken in this state.
    pub open spec fn enabled(self, step: BindingStep) -> bool {
        match step {
            BindingStep::Request { changes_lifecycle } => true,
            BindingStep::Abandon { changes_lifecycle } => {
                &&& self.writer ==> self.closed + 1 < self.pending
                &&& self.has_pending(changes_lifecycle)
            },
            BindingStep::Leave { changes_lifecycle } => {
                &&& self.writer
                &&& self.has_pending(changes_lifecycle)
            },
            BindingStep::Release => self.readers > 0,
            BindingStep::Bind { session_id } => self.writer,
            BindingStep::BindIfGeneration { session_id, generation, overtaken } => self.writer,
            BindingStep::UnbindMatching { session_id } => self.writer,
            BindingStep::Invalidate => self.writer,
            BindingStep::BindAcknowledged { session_id, generation } => self.writer,
            _ => true,
        }
    }

    /// The state after a step.
    pub open spec fn step(self, step: BindingStep) -> BindingModel {
        match step {
            BindingStep::Request { changes_lifecycle } => BindingModel {
                pending: self.pending + 1,
                changes: self.changes + if changes_lifecycle { 1nat } else { 0nat },
                epoch: if changes_lifecycle { BindingModel::advanced(self.epoch) } else { self.epoch },
                ..self
            },
            BindingStep::Abandon { changes_lifecycle } => self.without_pending(changes_lifecycle),
            BindingStep::Enter => if self.closed < self.pending && self.readers == 0 && !self.writer {
                BindingModel { writer: true, ..self }
            } else {
                self
            },
            BindingStep::Leave { changes_lifecycle } => BindingModel {
                writer: false,
                ..self.without_pending(changes_lifecycle)
            },
            BindingStep::Close => self.closed_for_good(),
            BindingStep::Admit => if self.admits() { self.admitted() } else { self },
            BindingStep::AdmitFor { session_id, generation } =>
                if self.admits() && self.is_current(session_id, generation) {
                    self.admitted()
                } else {
                    self
                },
            BindingStep::Release => BindingModel { readers: (self.readers - 1) as nat, ..self },
            BindingStep::Bind { session_id } => if self.bound == Some(session_id) {
                self
            } else {
                self.rebound(session_id)
            },
            BindingStep::BindIfGeneration { session_id, generation, overtaken } =>
                if overtaken || self.generation != generation || self.bound == Some(session_id) {
                    self
                } else {
                    self.rebound(session_id)
                },
            BindingStep::UnbindMatching { session_id } => if self.bound == Some(session_id) {
                self.invalidated()
            } else {
                self
            },
            BindingStep::Invalidate => self.invalidated(),
            BindingStep::BindAcknowledged { session_id, generation } =>
                if self.generation != generation || self.bound is Some {
                    self
                } else {
                    self.rebound(session_id)
                },
        }
    }

    /// One pending transition less.
    pub open spec fn without_pending(self, changes_lifecycle: bool) -> BindingModel {
        BindingModel {
            pending: (self.pending - 1) as nat,
            changes: if changes_lifecycle { (self.changes - 1) as nat } else { self.changes },
            ..self
        }
    }

    /// A lifecycle change that is requested and will never be left.
    pub open spec fn closed_for_good(self) -> BindingModel {
        BindingModel {
            pending: self.pending + 1,
            changes: self.changes + 1,
            closed: self.closed + 1,
            epoch: BindingModel::advanced(self.epoch),
            ..self
        }
    }

    /// Whether every step of a history can be taken, each after those before it.
    pub open spec fn runs(self, steps: Seq<BindingStep>) -> bool
        decreases steps.len(),
    {
        steps.len() == 0 || (self.enabled(steps[0]) && self.step(steps[0]).runs(steps.drop_first()))
    }

    /// The state after a history.
    pub open spec fn after(self, steps: Seq<BindingStep>) -> BindingModel
        decreases steps.len(),
    {
        if steps.len() == 0 {
            self
        } else {
            self.step(steps[0]).after(steps.drop_first())
        }
    }

    /// Whether a lease of `generation` can never become the live one again.
    pub open spec fn outlived(self, generation: u64) -> bool {
        generation < self.generation || (generation == self.generation && self.bound is None)
    }
}

/// Every step keeps the binding well formed.
pub proof fn step_keeps_binding_well_formed(model: BindingModel, step: BindingStep)
    requires
        model.wf(),
        model.enabled(step),
    ensures
        model.step(step).wf(),
{
}

/// The generation never goes back.
pub proof fn generation_is_monotone(model: BindingModel, steps: Seq<BindingStep>)
    ensures
        model.generation <= model.after(steps).generation,
    decreases steps.len(),
{
    if steps.len() > 0 {
        generation_is_monotone(model.step(steps[0]), steps.drop_first());
    }
}

/// A lease that a transition has outlived never validates again, whatever happens to the binding
/// afterwards.
pub proof fn outlived_lease_never_validates(
    model: BindingModel,
    steps: Seq<BindingStep>,
    session_id: Seq<char>,
    generation: u64,
)
    requires
        model.outlived(generation),
    ensures
        model.after(steps).outlived(generation),
        !model.after(steps).is_current(session_id, generation),
        !model.after(steps).validates(session_id, generation),
    decreases steps.len(),
{
    if steps.len() > 0 {
        outlived_lease_never_validates(
            model.step(steps[0]),
            steps.drop_first(),
            session_id,
            generation,
        );
    }
}

/// Invalidating the binding outlives every lease minted until then, and so do closing the bound
/// session and binding another one.
pub proof fn lifecycle_change_outlives_every_lease(
    model: BindingModel,
    session_id: Seq<char>,
    generation: u64,
)
    requires
        generation <= model.generation,
    ensures
        model.step(BindingStep::Invalidate).outlived(generation),
        model.bound is Some ==> model.step(
            BindingStep::UnbindMatching { session_id: model.bound->0 },
        ).outlived(generation),
        model.bound != Some(session_id) && model.generation < u64::MAX ==> model.step(
            BindingStep::Bind { session_id },
        ).outlived(generation),
{
}

/// While a transition is pending nothing is admitted and no lease validates.
pub proof fn pending_transition_fences_admissions(
    model: BindingModel,
    session_id: Seq<char>,
    generation: u64,
)
    requires
        model.pending > 0,
    ensures
        model.step(BindingStep::Admit) == model,
        model.step(BindingStep::AdmitFor { session_id, generation }) == model,
        !model.validates(session_id, generation),
{
}

/// A held admission keeps its lease the live one: no step but its release lets a transition in, so
/// the bound session and the generation stand still.
pub proof fn held_admission_keeps_the_binding(model: BindingModel, step: BindingStep)
    requires
        model.wf(),
        model.readers > 0,
        model.enabled(step),
    ensures
        model.step(step).bound == model.bound,
        model.step(step).generation == model.generation,
        !model.step(step).writer,
{
}

/// Closing the admissions of a route is final: whatever happens afterwards, nothing is admitted and
/// no lease validates.
pub proof fn closed_admissions_stay_closed(
    model: BindingModel,
    steps: Seq<BindingStep>,
    session_id: Seq<char>,
    generation: u64,
)
    requires
        model.wf(),
        model.closed > 0,
        model.runs(steps),
    ensures
        model.after(steps).closed > 0,
        !model.after(steps).admits(),
        !model.after(steps).validates(session_id, generation),
    decreases steps.len(),
{
    if steps.len() > 0 {
        step_keeps_binding_well_formed(model, steps[0]);
        closed_admissions_stay_closed(
            model.step(steps[0]),
            steps.drop_first(),
            session_id,
            generation,
        );
    }
}

/// Binding the bound session once more changes nothing.
pub proof fn binding_the_bound_session_again_changes_nothing(
    model: BindingModel,
    session_id: Seq<char>,
)
    ensures
        ({
            let once = model.step(BindingStep::Bind { session_id });
            once.step(BindingStep::Bind { session_id }) == once
        }),
{
}

/// The exact lifecycle ticket restores a binding; a ticket of another generation, or one used
/// after a bind, changes nothing.
pub proof fn only_the_exact_ticket_binds(
    model: BindingModel,
    session_id: Seq<char>,
    generation: u64,
)
    requires
        model.generation < u64::MAX,
    ensures
        model.step(BindingStep::BindAcknowledged { session_id, generation }) != model
            <==> model.generation == generation && model.bound is None,
        model.step(BindingStep::BindAcknowledged { session_id, generation }) != model
            ==> model.step(BindingStep::BindAcknowledged { session_id, generation }).bound == Some(
            session_id,
        ),
{
    let after = model.step(BindingStep::BindAcknowledged { session_id, generation });
    if model.generation == generation && model.bound is None {
        assert(after.generation != model.generation);
    }
}

/// A snapshot of the bound session and its generation. A lease proves nothing by itself: only
/// [`AcpSessionBinding::validate_lease`] says whether it is the live one.
#[derive(Debug, PartialEq, Eq)]
pub struct AcpSessionBindingLease {
    session_id: String,
    generation: u64,
}

impl View for AcpSessionBindingLease {
    type V = (Seq<char>, u64);

    closed spec fn view(&self) -> (Seq<char>, u64) {
        (self.session_id@, self.generation)
    }
}

impl AcpSessionBindingLease {
    pub fn new(session_id: &str, generation: u64) -> (r: Self)
        ensures
            r@ == (session_id@, generation),
    {
        AcpSessionBindingLease { session_id: session_id.to_owned(), generation }
    }

    pub fn session_id(&self) -> (r: &str)
        ensures
            r@ == self@.0,
    {
        self.session_id.as_str()
    }

    pub fn generation(&self) -> (r: u64)
        ensures
            r == self@.1,
    {
        self.generation
    }

    /// Whether both leases name the same session and generation.
    pub fn same_as(&self, other: &AcpSessionBindingLease) -> (r: bool)
        ensures
            r == (self@ == other@),
    {
        self.generation == other.generation && self.session_id == other.session_id
    }
}

impl Clone for AcpSessionBindingLease {
    fn clone(&self) -> (r: Self)
        ensures
            r@ == self@,
    {
        AcpSessionBindingLease { session_id: self.session_id.clone(), generation: self.generation }
    }
}

/// Whether the turn of one durable completion has been claimed.
#[derive(Debug)]
pub struct AcpSessionBindingTurnObservation {
    turn_claimed: bool,
}

impl View for AcpSessionBindingTurnObservation {
    type V = bool;

    closed spec fn view(&self) -> bool {
        self.turn_claimed
    }
}

impl AcpSessionBindingTurnObservation {
    pub fn new() -> (r: Self)
        ensures
            !r@,
    {
        AcpSessionBindingTurnObservation { turn_claimed: false }
    }

    pub fn turn_claimed(&self) -> (r: bool)
        ensures
            r == self@,
    {
        self.turn_claimed
    }

    fn mark_turn_claimed(&mut self)
        ensures
            final(self)@,
    {
        self.turn_claimed = true;
    }
}

/// A read permit over the binding, held from the first receipt-affecting operation of a completion
/// to the insertion of its active turn.
#[derive(Debug)]
pub struct AcpSessionBindingAdmission {
    lease: AcpSessionBindingLease,
    held: bool,
}

impl AcpSessionBindingAdmission {
    /// The lease that was live when the admission was taken.
    pub closed spec fn admitted_lease(&self) -> (Seq<char>, u64) {
        self.lease@
    }

    /// Whether the permit has not been released.
    pub closed spec fn holds(&self) -> bool {
        self.held
    }

    pub fn lease(&self) -> (r: &AcpSessionBindingLease)
        ensures
            r@ == self.admitted_lease(),
    {
        &self.lease
    }

    /// Marks the turn claimed and releases the permit. A second call releases nothing more.
    pub fn release_after_turn_claim(
        &mut self,
        binding: &mut AcpSessionBinding,
        observation: &mut AcpSessionBindingTurnObservation,
    )
        requires
            old(binding)@.wf(),
            old(self).holds() ==> old(binding)@.readers > 0,
        ensures
            final(observation)@,
            !final(self).holds(),
            final(self).admitted_lease() == old(self).admitted_lease(),
            final(binding)@ == if old(self).holds() {
                old(binding)@.step(BindingStep::Release)
            } else {
                old(binding)@
            },
    {
        observation.mark_turn_claimed();
        self.release_barrier(binding);
    }

    /// Releases the permit without a claim, as when its owner gives up.
    pub fn release_barrier(&mut self, binding: &mut AcpSessionBinding)
        requires
            old(binding)@.wf(),
            old(self).holds() ==> old(binding)@.readers > 0,
        ensures
            !final(self).holds(),
            final(self).admitted_lease() == old(self).admitted_lease(),
            final(binding)@ == if old(self).holds() {
                old(binding)@.step(BindingStep::Release)
            } else {
                old(binding)@
            },
    {
        if self.held {
            self.held = false;
            binding.readers = binding.readers - 1;
        }
    }
}

/// The lease under which a durable completion was dispatched, to be turned into one admission.
#[derive(Debug)]
pub struct AcpSessionBindingTurnGate {
    lease: AcpSessionBindingLease,
}

impl AcpSessionBindingTurnGate {
    /// The lease that is carried.
    pub closed spec fn gated_lease(&self) -> (Seq<char>, u64) {
        self.lease@
    }

    pub fn new(lease: AcpSessionBindingLease) -> (r: Self)
        ensures
            r.gated_lease() == lease@,
    {
        AcpSessionBindingTurnGate { lease }
    }

    pub fn lease(&self) -> (r: &AcpSessionBindingLease)
        ensures
            r@ == self.gated_lease(),
    {
        &self.lease
    }

    /// Takes an admission where the carried lease is still the live one.
    pub fn try_admit_turn(&self, binding: &mut AcpSessionBinding) -> (r: Option<
        AcpSessionBindingAdmission,
    >)
        requires
            old(binding)@.wf(),
        ensures
            final(binding)@.wf(),
            final(binding)@ == old(binding)@.step(
                BindingStep::AdmitFor {
                    session_id: self.gated_lease().0,
                    generation: self.gated_lease().1,
                },
            ),
            r is Some <==> old(binding)@.admits() && old(binding)@.is_current(
                self.gated_lease().0,
                self.gated_lease().1,
            ),
            r matches Some(a) ==> a.holds() && a.admitted_lease() == self.gated_lease(),
    {
        binding.try_acquire_admission_for(&self.lease)
    }
}

/// The transition that a lifecycle request entered, with the generation that it left behind. Only
/// it can restore a binding when the request is acknowledged.
#[derive(Debug)]
pub struct AcpSessionBindingLifecycle {
    invalidated_generation: u64,
}

impl AcpSessionBindingLifecycle {
    /// The generation under which the ticket binds.
    pub closed spec fn ticket_generation(&self) -> u64 {
        self.invalidated_generation
    }

    /// Binds the acknowledged session where nothing has changed the binding since the ticket was
    /// issued.
    pub fn bind_acknowledged(self, binding: &mut AcpSessionBinding, session_id: &str) -> (r: Result<
        (),
        (),
    >)
        requires
            old(binding)@.wf(),
            old(binding)@.writer,
        ensures
            final(binding)@.wf(),
            final(binding)@ == old(binding)@.step(
                BindingStep::BindAcknowledged {
                    session_id: session_id@,
                    generation: self.ticket_generation(),
                },
            ),
            r is Ok <==> old(binding)@.generation == self.ticket_generation()
                && old(binding)@.bound is None && old(binding)@.generation < u64::MAX,
    {
        if binding.generation != self.invalidated_generation || binding.bound_session_id.is_some() {
            return Err(());
        }
        binding.rebind(session_id)
    }
}

/// What a request saw of the binding when it asked to keep a receipt over a pending bind.
#[derive(Debug)]
pub struct AcpSessionBindingReceiptRetrySnapshot {
    session_id: String,
    generation: u64,
    lifecycle_epoch: u64,
}

impl View for AcpSessionBindingReceiptRetrySnapshot {
    type V = (Seq<char>, u64, u64);

    closed spec fn view(&self) -> (Seq<char>, u64, u64) {
        (self.session_id@, self.generation, self.lifecycle_epoch)
    }
}

impl AcpSessionBindingReceiptRetrySnapshot {
    pub fn generation(&self) -> (r: u64)
        ensures
            r == self@.1,
    {
        self.generation
    }
}

/// The binding of one route.
#[derive(Debug)]
pub struct AcpSessionBinding {
    bound_session_id: Option<String>,
    generation: u64,
    lifecycle_epoch: u64,
    transition_pending: usize,
    lifecycle_change_pending: usize,
    closed_admissions: usize,
    readers: usize,
    writer: bool,
}

impl View for AcpSessionBinding {
    type V = BindingModel;

    closed spec fn view(&self) -> BindingModel {
        BindingModel {
            bound: text_view(self.bound_session_id),
            generation: self.generation,
            epoch: self.lifecycle_epoch,
            pending: self.transition_pending as nat,
            changes: self.lifecycle_change_pending as nat,
            closed: self.closed_admissions as nat,
            readers: self.readers as nat,
            writer: self.writer,
        }
    }
}

impl AcpSessionBinding {
    /// Nothing bound, nothing pending, nothing held.
    pub fn new() -> (r: Self)
        ensures
            r@.wf(),
            r@ == (BindingModel {
                bound: None,
                generation: 0,
                epoch: 0,
                pending: 0,
                changes: 0,
                closed: 0,
                readers: 0,
                writer: false,
            }),
    {
        AcpSessionBinding {
            bound_session_id: None,
            generation: 0,
            lifecycle_epoch: 0,
            transition_pending: 0,
            lifecycle_change_pending: 0,
            closed_admissions: 0,
            readers: 0,
            writer: false,
        }
    }

    /// The generation under which a later operation may restore a binding; nothing while a
    /// transition is pending.
    pub fn lifecycle_generation(&self) -> (r: Option<u64>)
        ensures
            r == if self@.pending == 0 {
                Some(self@.generation)
            } else {
                None
            },
    {
        if self.transition_pending != 0 {
            return None;
        }
        Some(self.generation)
    }

    /// The live lease; nothing while the route is unbound or a transition is pending.
    pub fn lease(&self) -> (r: Option<AcpSessionBindingLease>)
        ensures
            r is Some <==> self@.pending == 0 && self@.bound is Some,
            r is Some <==> self@.shown_session() is Some,
            r matches Some(lease) ==> lease@ == (self@.bound->0, self@.generation),
            r matches Some(lease) ==> self@.validates(lease@.0, lease@.1),
    {
        if self.transition_pending != 0 {
            return None;
        }
        match &self.bound_session_id {
            Some(session_id) => Some(
                AcpSessionBindingLease {
                    session_id: session_id.clone(),
                    generation: self.generation,
                },
            ),
            None => None,
        }
    }

    /// The bound session; nothing while the route is unbound or a transition is pending.
    pub fn bound_session_id(&self) -> (r: Option<String>)
        ensures
            text_view(r) == self@.shown_session(),
    {
        if self.transition_pending != 0 {
            return None;
        }
        match &self.bound_session_id {
            Some(session_id) => Some(session_id.clone()),
            None => None,
        }
    }

    fn is_bound_to(&self, session_id: &str) -> (r: bool)
        ensures
            r == (self@.bound == Some(session_id@)),
    {
        match &self.bound_session_id {
            Some(bound) => same_text(bound.as_str(), session_id),
            None => false,
        }
    }

    /// Whether the lease is the live one and no transition is pending.
    pub fn validate_lease(&self, lease: &AcpSessionBindingLease) -> (r: bool)
        ensures
            r == self@.validates(lease@.0, lease@.1),
    {
        if self.transition_pending != 0 {
            return false;
        }
        self.is_bound_to(lease.session_id.as_str()) && self.generation == lease.generation
    }

    /// Takes an admission on whatever is bound.
    pub fn try_acquire_admission(&mut self) -> (r: Option<AcpSessionBindingAdmission>)
        requires
            old(self)@.wf(),
        ensures
            final(self)@.wf(),
            final(self)@ == old(self)@.step(BindingStep::Admit),
            r is Some <==> old(self)@.admits(),
            r matches Some(a) ==> a.holds() && a.admitted_lease() == (
                old(self)@.bound->0,
                old(self)@.generation,
            ),
    {
        if self.transition_pending != 0 || self.writer || self.readers >= MAX_ADMISSIONS {
            return None;
        }
        match self.lease() {
            Some(lease) => {
                self.readers = self.readers + 1;
                Some(AcpSessionBindingAdmission { lease, held: true })
            },
            None => None,
        }
    }

    /// Takes an admission where the given lease is the live one.
    fn try_acquire_admission_for(&mut self, lease: &AcpSessionBindingLease) -> (r: Option<
        AcpSessionBindingAdmission,
    >)
        requires
            old(self)@.wf(),
        ensures
            final(self)@.wf(),
            final(self)@ == old(self)@.step(
                BindingStep::AdmitFor { session_id: lease@.0, generation: lease@.1 },
            ),
            r is Some <==> old(self)@.admits() && old(self)@.is_current(lease@.0, lease@.1),
            r matches Some(a) ==> a.holds() && a.admitted_lease() == lease@,
    {
        if self.transition_pending != 0 || self.writer || self.readers >= MAX_ADMISSIONS {
            return None;
        }
        if !(self.is_bound_to(lease.session_id.as_str()) && self.generation == lease.generation) {
            return None;
        }
        self.readers = self.readers + 1;
        Some(AcpSessionBindingAdmission { lease: lease.clone(), held: true })
    }

    /// Whether one more transition can be declared.
    pub fn can_declare_transition(&self) -> (r: bool)
        ensures
            r == (self@.pending < usize::MAX),
    {
        self.transition_pending < usize::MAX
    }

    /// Declares a transition, from which on nothing new is admitted. Returns whether another one
    /// was pending already.
    pub fn request_transition(&mut self, changes_lifecycle: bool) -> (r: bool)
        requires
            old(self)@.wf(),
            old(self)@.pending < usize::MAX,
        ensures
            final(self)@.wf(),
            final(self)@ == old(self)@.step(BindingStep::Request { changes_lifecycle }),
            r == (old(self)@.pending > 0),
    {
        let had_preexisting_transition = self.transition_pending != 0;
        self.transition_pending = self.transition_pending + 1;
        if changes_lifecycle {
            self.lifecycle_change_pending = self.lifecycle_change_pending + 1;
            self.lifecycle_epoch = next_generation(self.lifecycle_epoch);
        }
        had_preexisting_transition
    }

    /// Gives up a transition that was requested and not entered.
    pub fn abandon_transition(&mut self, changes_lifecycle: bool)
        requires
            old(self)@.wf(),
            old(self)@.enabled(BindingStep::Abandon { changes_lifecycle }),
        ensures
            final(self)@.wf(),
            final(self)@ == old(self)@.step(BindingStep::Abandon { changes_lifecycle }),
    {
        self.transition_pending = self.transition_pending - 1;
        if changes_lifecycle {
            self.lifecycle_change_pending = self.lifecycle_change_pending - 1;
        }
    }

    /// Enters a requested transition, which needs that no admission is held and no other
    /// transition is running.
    pub fn try_enter_transition(&mut self) -> (r: bool)
        requires
            old(self)@.wf(),
        ensures
            final(self)@.wf(),
            final(self)@ == old(self)@.step(BindingStep::Enter),
            r == (old(self)@.closed < old(self)@.pending && old(self)@.readers == 0
                && !old(self)@.writer),
            r ==> final(self)@.writer,
    {
        if self.closed_admissions < self.transition_pending && self.readers == 0 && !self.writer {
            self.writer = true;
            true
        } else {
            false
        }
    }

    /// Leaves the transition that is running.
    pub fn leave_transition(&mut self, changes_lifecycle: bool)
        requires
            old(self)@.wf(),
            old(self)@.enabled(BindingStep::Leave { changes_lifecycle }),
        ensures
            final(self)@.wf(),
            final(self)@ == old(self)@.step(BindingStep::Leave { changes_lifecycle }),
    {
        self.writer = false;
        self.transition_pending = self.transition_pending - 1;
        if changes_lifecycle {
            self.lifecycle_change_pending = self.lifecycle_change_pending - 1;
        }
    }

    fn rebind(&mut self, session_id: &str) -> (r: Result<(), ()>)
        ensures
            final(self)@ == old(self)@.rebound(session_id@),
            r is Ok <==> old(self)@.generation < u64::MAX,
    {
        match self.generation.checked_add(1) {
            Some(generation) => {
                self.generation = generation;
                self.bound_session_id = Some(session_id.to_owned());
                Ok(())
            },
            None => Err(()),
        }
    }

    fn advance_unbound(&mut self)
        ensures
            final(self)@ == old(self)@.invalidated(),
    {
        self.generation = next_generation(self.generation);
        self.bound_session_id = None;
    }

    /// Binds a session. `Ok(true)` for a bind that advanced the generation, `Ok(false)` where the
    /// session was bound already, an error where no generation is left.
    pub fn bind(&mut self, session_id: &str) -> (r: Result<bool, ()>)
        requires
            old(self)@.wf(),
            old(self)@.writer,
        ensures
            final(self)@.wf(),
            final(self)@ == old(self)@.step(BindingStep::Bind { session_id: session_id@ }),
            r == if old(self)@.bound == Some(session_id@) {
                Ok::<bool, ()>(false)
            } else if old(self)@.generation < u64::MAX {
                Ok::<bool, ()>(true)
            } else {
                Err::<bool, ()>(())
            },
    {
        if self.is_bound_to(session_id) {
            return Ok(false);
        }
        match self.rebind(session_id) {
            Ok(()) => Ok(true),
            Err(()) => Err(()),
        }
    }

    /// Binds a session where no transition came in between. `Ok(None)` where one did.
    pub fn bind_if_generation(
        &mut self,
        session_id: &str,
        expected_generation: u64,
        had_preexisting_transition: bool,
    ) -> (r: Result<Option<bool>, ()>)
        requires
            old(self)@.wf(),
            old(self)@.writer,
        ensures
            final(self)@.wf(),
            final(self)@ == old(self)@.step(
                BindingStep::BindIfGeneration {
                    session_id: session_id@,
                    generation: expected_generation,
                    overtaken: had_preexisting_transition,
                },
            ),
            r == if had_preexisting_transition || old(self)@.generation != expected_generation {
                Ok::<Option<bool>, ()>(None)
            } else if old(self)@.bound == Some(session_id@) {
                Ok::<Option<bool>, ()>(Some(false))
            } else if old(self)@.generation < u64::MAX {
                Ok::<Option<bool>, ()>(Some(true))
            } else {
                Err::<Option<bool>, ()>(())
            },
    {
        if had_preexisting_transition {
            return Ok(None);
        }
        if self.generation != expected_generation {
            return Ok(None);
        }
        if self.is_bound_to(session_id) {
            return Ok(Some(false));
        }
        match self.rebind(session_id) {
            Ok(()) => Ok(Some(true)),
            Err(()) => Err(()),
        }
    }

    /// Unbinds the session where it is the bound one, and returns whether it was.
    pub fn unbind_matching(&mut self, session_id: &str) -> (r: bool)
        requires
            old(self)@.wf(),
            old(self)@.writer,
        ensures
            final(self)@.wf(),
            final(self)@ == old(self)@.step(
                BindingStep::UnbindMatching { session_id: session_id@ },
            ),
            r == (old(self)@.bound == Some(session_id@)),
    {
        if !self.is_bound_to(session_id) {
            return false;
        }
        self.advance_unbound();
        true
    }

    /// Unbinds whatever is bound.
    pub fn invalidate(&mut self)
        requires
            old(self)@.wf(),
            old(self)@.writer,
        ensures
            final(self)@.wf(),
            final(self)@ == old(self)@.step(BindingStep::Invalidate),
    {
        self.advance_unbound();
    }

    /// Unbinds whatever is bound and issues the ticket of a new, loaded or resumed session. The
    /// transition is left only when the request has ended.
    pub fn begin_lifecycle(&mut self) -> (r: AcpSessionBindingLifecycle)
        requires
            old(self)@.wf(),
            old(self)@.writer,
        ensures
            final(self)@.wf(),
            final(self)@ == old(self)@.step(BindingStep::Invalidate),
            r.ticket_generation() == final(self)@.generation,
    {
        self.advance_unbound();
        AcpSessionBindingLifecycle { invalidated_generation: self.generation }
    }

    /// Issues the ticket of a close request, and unbinds the session where it is the bound one.
    pub fn begin_close_lifecycle(&mut self, session_id: &str) -> (r: (
        AcpSessionBindingLifecycle,
        bool,
    ))
        requires
            old(self)@.wf(),
            old(self)@.writer,
        ensures
            final(self)@.wf(),
            final(self)@ == old(self)@.step(
                BindingStep::UnbindMatching { session_id: session_id@ },
            ),
            r.0.ticket_generation() == final(self)@.generation,
            r.1 == (old(self)@.bound == Some(session_id@)),
    {
        let invalidated_matching_session = self.unbind_matching(session_id);
        (
            AcpSessionBindingLifecycle { invalidated_generation: self.generation },
            invalidated_matching_session,
        )
    }

    /// Closes the route's admissions for good.
    pub fn close_admissions(&mut self)
        requires
            old(self)@.wf(),
            old(self)@.pending < usize::MAX,
        ensures
            final(self)@.wf(),
            final(self)@ == old(self)@.step(BindingStep::Close),
    {
        self.transition_pending = self.transition_pending + 1;
        self.lifecycle_change_pending = self.lifecycle_change_pending + 1;
        self.closed_admissions = self.closed_admissions + 1;
        self.lifecycle_epoch = next_generation(self.lifecycle_epoch);
    }

    /// Whether a transition is pending.
    pub fn transition_pending(&self) -> (r: bool)
        ensures
            r == (self@.pending > 0),
    {
        self.transition_pending != 0
    }

    /// Whether a transition that changes the lifecycle is pending.
    pub fn lifecycle_change_pending(&self) -> (r: bool)
        ensures
            r == (self@.changes > 0),
    {
        self.lifecycle_change_pending != 0
    }

    /// What a request may hold on to over a pending bind: nothing where the session is not bound or
    /// a lifecycle change is pending.
    pub fn receipt_retry_snapshot(&self, session_id: &str) -> (r: Option<
        AcpSessionBindingReceiptRetrySnapshot,
    >)
        ensures
            r is Some <==> self@.changes == 0 && self@.bound == Some(session_id@),
            r matches Some(s) ==> s@ == (session_id@, self@.generation, self@.epoch),
    {
        if self.lifecycle_change_pending != 0 || !self.is_bound_to(session_id) {
            return None;
        }
        Some(
            AcpSessionBindingReceiptRetrySnapshot {
                session_id: session_id.to_owned(),
                generation: self.generation,
                lifecycle_epoch: self.lifecycle_epoch,
            },
        )
    }

    /// Whether nothing that the snapshot saw has changed.
    pub fn receipt_retry_snapshot_is_current(
        &self,
        snapshot: &AcpSessionBindingReceiptRetrySnapshot,
    ) -> (r: bool)
        ensures
            r == (self@.changes == 0 && self@.epoch == snapshot@.2 && self@.is_current(
                snapshot@.0,
                snapshot@.1,
            )),
    {
        self.lifecycle_change_pending == 0 && self.lifecycle_epoch == snapshot.lifecycle_epoch
            && self.generation == snapshot.generation && self.is_bound_to(
            snapshot.session_id.as_str(),
        )
    }
}

fn next_generation(generation: u64) -> (r: u64)
    ensures
        r == BindingModel::advanced(generation),
{
    match generation.checked_add(1) {
        Some(next) => next,
        None => generation,
    }
}

/// Where a validated completion goes.
#[derive(Debug, PartialEq, Eq)]
pub enum CommandEveAsyncCompletionDispatchKind {
    Apply,
    RejectSessionMismatch { bound_session_id: String },
}

/// What became of a dispatched completion.
#[derive(Debug, PartialEq, Eq)]
pub enum CommandEveAsyncCompletionResult {
    Completed { turn_id: String },
    AlreadyCompleted { turn_id: String },
    RetryableBusy { code: String },
    Rejected { code: String },
    /// The outcome is unknown, and was persisted as unknown under this code.
    PersistedUnknown { code: String },
}

/// A session is admitted to exactly while it is bound, no transition is pending or running, and
/// there is room for one more. The session and its generation stay as they are.
pub proof fn admission_is_to_the_bound_session(
    model: BindingModel,
    session_id: Seq<char>,
    generation: u64,
)
    requires
        model.wf(),
        model.readers < 536_870_911,
    ensures
        ({
            let after = model.step(BindingStep::Admit);
            let placed = model.step(BindingStep::AdmitFor { session_id, generation });
            let open = model.pending == 0 && model.bound is Some;
            let live = model.bound == Some(session_id) && model.generation == generation;
            &&& after.readers == model.readers + if open {
                1int
            } else {
                0int
            }
            &&& placed.readers == model.readers + if open && live {
                1int
            } else {
                0int
            }
            &&& after == (BindingModel { readers: after.readers, ..model })
            &&& placed == (BindingModel { readers: placed.readers, ..model })
            &&& model.admits() <==> open
            &&& model.is_current(session_id, generation) <==> live
            &&& model.validates(session_id, generation) <==> live && model.pending == 0
            &&& open ==> after.step(BindingStep::Release) == model
        }),
{
}

/// A transition that is requested and abandoned leaves everything as it was, but for the epoch
/// where it would have changed the lifecycle. One that is requested, entered and left does too.
pub proof fn transition_ends_as_it_began(model: BindingModel, changes_lifecycle: bool)
    requires
        model.wf(),
        model.readers == 0,
        !model.writer,
    ensures
        ({
            let requested = model.step(BindingStep::Request { changes_lifecycle });
            let entered = requested.step(BindingStep::Enter);
            let epoch = if changes_lifecycle && model.epoch < u64::MAX {
                (model.epoch + 1) as u64
            } else {
                model.epoch
            };
            &&& requested.pending == model.pending + 1
            &&& requested.epoch == epoch
            &&& requested.changes == model.changes + if changes_lifecycle {
                1int
            } else {
                0int
            }
            &&& requested.bound == model.bound && requested.generation == model.generation
            &&& !model.writer && entered.writer && entered == (BindingModel {
                writer: true,
                ..requested
            })
            &&& requested.step(BindingStep::Abandon { changes_lifecycle }) == (BindingModel {
                epoch,
                ..model
            })
            &&& entered.step(BindingStep::Leave { changes_lifecycle }) == (BindingModel {
                epoch,
                ..model
            })
        }),
{
}

/// A transition is entered exactly where one is pending that is not closed for good, nothing is
/// admitted and none runs yet.
pub proof fn transition_waits_for_admissions(model: BindingModel)
    ensures
        ({
            let after = model.step(BindingStep::Enter);
            &&& after.writer <==> model.writer || (model.closed < model.pending && model.readers
                == 0)
            &&& after == (BindingModel { writer: after.writer, ..model })
        }),
{
}

/// Binding a session that is not bound yet binds it under the next generation, and binding one
/// under a generation, or after an acknowledgement, does so only where that generation is still
/// the present one. With no generation left nothing is bound.
pub proof fn binding_takes_the_next_generation(
    model: BindingModel,
    session_id: Seq<char>,
    generation: u64,
    overtaken: bool,
)
    ensures
        ({
            let bound = model.step(BindingStep::Bind { session_id });
            let placed = model.step(
                BindingStep::BindIfGeneration { session_id, generation, overtaken },
            );
            let acknowledged = model.step(
                BindingStep::BindAcknowledged { session_id, generation },
            );
            let room = model.generation < u64::MAX;
            let fresh = model.bound != Some(session_id);
            let taken = |after: BindingModel|
                after.bound == Some(session_id) && after.generation == model.generation + 1
                    && after == (BindingModel {
                    bound: after.bound,
                    generation: after.generation,
                    ..model
                });
            &&& if room && fresh {
                taken(bound)
            } else {
                bound == model
            }
            &&& if room && fresh && !overtaken && model.generation == generation {
                taken(placed)
            } else {
                placed == model
            }
            &&& if room && model.bound is None && model.generation == generation {
                taken(acknowledged)
            } else {
                acknowledged == model
            }
        }),
{
}

/// Unbinding a session, and invalidating the binding, leave no session bound and outlive every
/// lease that was given out, while there are generations left. Unbinding a session that is not
/// bound changes nothing.
pub proof fn unbinding_outlives_its_leases(model: BindingModel, session_id: Seq<char>)
    ensures
        ({
            let invalidated = model.step(BindingStep::Invalidate);
            let unbound = model.step(BindingStep::UnbindMatching { session_id });
            &&& invalidated.bound is None
            &&& model.generation < u64::MAX ==> invalidated.generation == model.generation + 1
            &&& model.generation == u64::MAX ==> invalidated.generation == model.generation
            &&& invalidated == (BindingModel {
                bound: None,
                generation: invalidated.generation,
                ..model
            })
            &&& model.bound == Some(session_id) ==> unbound == invalidated
            &&& model.bound != Some(session_id) ==> unbound == model
        }),
{
}

/// Closing the admissions leaves a change of the lifecycle pending that cannot be taken back.
pub proof fn closing_leaves_a_change_pending(model: BindingModel)
    requires
        model.wf(),
    ensures
        ({
            let after = model.step(BindingStep::Close);
            &&& after.pending == model.pending + 1
            &&& after.changes == model.changes + 1
            &&& after.closed == model.closed + 1
            &&& after.bound == model.bound && after.generation == model.generation
            &&& after.readers == model.readers && after.writer == model.writer
            &&& model.epoch < u64::MAX ==> after.epoch == model.epoch + 1
            &&& !after.admits()
            &&& after.has_pending(true) <==> model.has_pending(true)
            &&& after.has_pending(false) <==> model.has_pending(false)
        }),
{
}

/// A step that ends something is enabled only while there is something to end, and the binding
/// changes only within a transition that has been entered.
pub proof fn binding_changes_within_a_transition(
    model: BindingModel,
    session_id: Seq<char>,
    generation: u64,
    overtaken: bool,
    changes_lifecycle: bool,
)
    ensures
        model.enabled(BindingStep::Bind { session_id }) <==> model.writer,
        model.enabled(BindingStep::BindIfGeneration { session_id, generation, overtaken })
            <==> model.writer,
        model.enabled(BindingStep::UnbindMatching { session_id }) <==> model.writer,
        model.enabled(BindingStep::Invalidate) <==> model.writer,
        model.enabled(BindingStep::BindAcknowledged { session_id, generation }) <==> model.writer,
        model.enabled(BindingStep::Leave { changes_lifecycle }) <==> model.writer
            && model.has_pending(changes_lifecycle),
        model.enabled(BindingStep::Release) <==> model.readers > 0,
        model.has_pending(true) <==> model.changes > model.closed,
        model.has_pending(false) <==> model.pending > model.changes,
{
}

/// A session is shown as bound exactly while no transition is pending, and it is then the one whose
/// lease validates.
pub proof fn shown_session_has_a_live_lease(model: BindingModel, session_id: Seq<char>)
    ensures
        model.pending > 0 ==> model.shown_session() is None,
        model.pending == 0 ==> model.shown_session() == model.bound,
        model.shown_session() == Some(session_id) <==> model.validates(
            session_id,
            model.generation,
        ),
{
}

} // verus!
