//! Bringing an agent in line with what the user wants, one request at a time.
use vstd::prelude::*;

use crate::identifiers::{ConfigKey, ConfigValue, ModeId, ModelId};
use crate::permission_authority::{command_eve_transport_mode, PermissionMode, PolicyGateError};
use crate::permission_router::{
    notices_view, NoticeModel, PermissionRouter, RouterModel, SettleRule, SettledNotice,
};
use crate::session::{
    actions_view, catalog_at, mode_view, model_view, models_view, modes_view, permission_mode,
    results_view, AcpSession, CatalogModel, PendingStartupConfigSeedResult, SeedModel,
    SessionConfigOption, SessionModeState, SessionModel, SessionModelState,
};
use crate::text::same_text;

verus! {

/// One thing to be done for an agent to run what the user wants.
#[derive(Debug, PartialEq, Eq)]
pub enum ReconcileAction {
    SetMode { mode: ModeId },
    SetModel { model: ModelId },
    SetConfigOption { key: ConfigKey, value: ConfigValue },
}

/// One thing to be done, as text.
pub enum ActionModel {
    SetMode { mode: Seq<char> },
    SetModel { model: Seq<char> },
    SetConfigOption { key: Seq<char>, value: Seq<char> },
}

impl View for ReconcileAction {
    type V = ActionModel;

    open spec fn view(&self) -> ActionModel {
        match self {
            ReconcileAction::SetMode { mode } => ActionModel::SetMode { mode: mode@ },
            ReconcileAction::SetModel { model } => ActionModel::SetModel { model: model@ },
            ReconcileAction::SetConfigOption { key, value } => ActionModel::SetConfigOption {
                key: key@,
                value: value@,
            },
        }
    }
}

impl ReconcileAction {
    /// Whether both do the same.
    pub fn same_as(&self, other: &ReconcileAction) -> (r: bool)
        ensures
            r == (self@ == other@),
    {
        match (self, other) {
            (ReconcileAction::SetMode { mode: a }, ReconcileAction::SetMode { mode: b }) =>
                a.same_as(b),
            (ReconcileAction::SetModel { model: a }, ReconcileAction::SetModel { model: b }) =>
                a.same_as(b),
            (
                ReconcileAction::SetConfigOption { key: a, value: x },
                ReconcileAction::SetConfigOption { key: b, value: y },
            ) => a.same_as(b) && x.same_as(y),
            _ => false,
        }
    }
}

/// How many actions one run executes at most.
pub const MAX_RECONCILE_ACTIONS: usize = 8;

/// What a run waits for.
#[derive(Debug)]
enum Awaiting {
    Nothing,
    Normalized,
    ModeSet { normalized: String },
    ModelSet,
    ConfigSet { key: ConfigKey, value: ConfigValue },
}

/// What a run waits for, as text.
pub enum AwaitingModel {
    Nothing,
    Normalized,
    ModeSet { normalized: Seq<char> },
    ModelSet,
    ConfigSet { key: Seq<char>, value: Seq<char> },
}

/// What is to be done next in a run.
#[derive(Debug)]
pub enum ReconcileCommand {
    /// Find the name by which the agent knows a mode.
    NormalizeMode { mode: ModeId },
    /// Set the transport's mode.
    SetMode { transport_mode: String },
    SetModel { model: ModelId },
    SetConfigOption { key: ConfigKey, value: ConfigValue },
    /// The run is over.
    Done,
    /// The agent does not know the session: the run is over, and the session has to be rebuilt.
    Aborted,
}

/// What is to be done next, as text.
pub enum CommandModel {
    NormalizeMode { mode: Seq<char> },
    SetMode { transport_mode: Seq<char> },
    SetModel { model: Seq<char> },
    SetConfigOption { key: Seq<char>, value: Seq<char> },
    Done,
    Aborted,
}

impl View for ReconcileCommand {
    type V = CommandModel;

    open spec fn view(&self) -> CommandModel {
        match self {
            ReconcileCommand::NormalizeMode { mode } => CommandModel::NormalizeMode {
                mode: mode@,
            },
            ReconcileCommand::SetMode { transport_mode } => CommandModel::SetMode {
                transport_mode: transport_mode@,
            },
            ReconcileCommand::SetModel { model } => CommandModel::SetModel { model: model@ },
            ReconcileCommand::SetConfigOption { key, value } => CommandModel::SetConfigOption {
                key: key@,
                value: value@,
            },
            ReconcileCommand::Done => CommandModel::Done,
            ReconcileCommand::Aborted => CommandModel::Aborted,
        }
    }
}

/// How a run stands.
pub struct RunModel {
    pub hermes: bool,
    pub queue: Seq<ActionModel>,
    pub executed: nat,
    pub awaiting: AwaitingModel,
}

impl RunModel {
    /// Over, with nothing left.
    pub open spec fn over(self) -> RunModel {
        RunModel { queue: Seq::empty(), awaiting: AwaitingModel::Nothing, ..self }
    }

    /// Whether another action can be taken up.
    pub open spec fn goes_on(self) -> bool {
        self.queue.len() > 0 && self.executed < MAX_RECONCILE_ACTIONS
    }

    /// After the next action was taken up.
    pub open spec fn next(self) -> RunModel {
        if !self.goes_on() {
            self.over()
        } else {
            RunModel {
                queue: self.queue.drop_first(),
                executed: self.executed + 1,
                awaiting: match self.queue[0] {
                    ActionModel::SetMode { mode } => AwaitingModel::Normalized,
                    ActionModel::SetModel { model } => AwaitingModel::ModelSet,
                    ActionModel::SetConfigOption { key, value } => AwaitingModel::ConfigSet {
                        key,
                        value,
                    },
                },
                ..self
            }
        }
    }

    /// After a request failed.
    pub open spec fn failed(self, session_not_found: bool) -> RunModel {
        if session_not_found {
            self.over()
        } else {
            self.next()
        }
    }

    /// What is done about a request that failed.
    pub open spec fn failed_command(self, session_not_found: bool) -> CommandModel {
        if session_not_found {
            CommandModel::Aborted
        } else {
            self.next_command()
        }
    }

    /// With another queue.
    pub open spec fn replanned(self, queue: Seq<ActionModel>) -> RunModel {
        RunModel { queue, ..self }
    }

    /// The setting of a configuration value that the run waits for.
    pub open spec fn awaited_action(self) -> ActionModel {
        ActionModel::SetConfigOption { key: self.awaiting->key, value: self.awaiting->value }
    }

    /// What taking up the next action asks for.
    pub open spec fn next_command(self) -> CommandModel {
        if !self.goes_on() {
            CommandModel::Done
        } else {
            match self.queue[0] {
                ActionModel::SetMode { mode } => CommandModel::NormalizeMode { mode },
                ActionModel::SetModel { model } => CommandModel::SetModel { model },
                ActionModel::SetConfigOption { key, value } => CommandModel::SetConfigOption {
                    key,
                    value,
                },
            }
        }
    }
}

/// A run executes a bounded number of actions: each one that it takes up counts, and none is taken
/// up past the limit.
pub proof fn run_is_bounded(run: RunModel)
    requires
        run.executed <= MAX_RECONCILE_ACTIONS,
    ensures
        run.next().executed <= MAX_RECONCILE_ACTIONS,
        run.next_command() != CommandModel::Done ==> run.next().executed == run.executed + 1,
        run.next_command() == CommandModel::Done ==> run.next() == run.over(),
{
}

/// What a change of policy comes to before the transport is told.
#[derive(Debug, Clone, Copy, PartialEq, Eq, Structural)]
pub enum PolicyPreparation {
    /// The policy is asked for, and the one in force is taken back.
    Ready,
    /// The operator has asked for something else since: their choice stands.
    Superseded,
    /// The session is another one.
    OtherSession,
    /// The policy cannot be asked for; the one in force is taken back.
    Refused(PolicyGateError),
}

/// Who wants a policy to change.
#[derive(Debug, Clone, Copy, PartialEq, Eq, Structural)]
pub enum PolicyChangeOrigin {
    Operator,
    Reconcile,
}

impl RunModel {
    /// Whether a mode that was normalized is set on the transport.
    pub open spec fn sets_mode(self, normalized: Seq<char>, preparation: PolicyPreparation) -> bool {
        normalized.len() > 0 && (!self.hermes || preparation == PolicyPreparation::Ready)
    }

    /// After a mode was normalized.
    pub open spec fn normalized(
        self,
        normalized: Seq<char>,
        preparation: PolicyPreparation,
    ) -> RunModel {
        if self.sets_mode(normalized, preparation) {
            RunModel { awaiting: AwaitingModel::ModeSet { normalized }, ..self }
        } else {
            self.next()
        }
    }

    /// What is done about a mode that was normalized.
    pub open spec fn normalized_command(
        self,
        normalized: Seq<char>,
        preparation: PolicyPreparation,
    ) -> CommandModel {
        if !self.sets_mode(normalized, preparation) {
            self.next_command()
        } else if self.hermes {
            CommandModel::SetMode { transport_mode: "default"@ }
        } else {
            CommandModel::SetMode { transport_mode: normalized }
        }
    }
}

/// What a change of policy comes to.
pub open spec fn policy_preparation(
    session: SessionModel,
    session_id: Seq<char>,
    mode: Seq<char>,
    origin: PolicyChangeOrigin,
) -> PolicyPreparation {
    if session.session_id != Some(session_id) {
        PolicyPreparation::OtherSession
    } else if origin == PolicyChangeOrigin::Reconcile && session.policy.pending is Some
        && permission_mode(mode) != Some(session.policy.pending->0.mode) {
        PolicyPreparation::Superseded
    } else {
        match session.policy_fault(mode) {
            Some(error) => PolicyPreparation::Refused(error),
            None => PolicyPreparation::Ready,
        }
    }
}

/// Whether a change of policy takes back the one in force.
pub open spec fn revokes(preparation: PolicyPreparation) -> bool {
    match preparation {
        PolicyPreparation::Ready => true,
        PolicyPreparation::Refused(_) => true,
        _ => false,
    }
}

/// What is told when the policy in force is taken back, if it is.
pub open spec fn revocation_notices(router: RouterModel, revoked: bool) -> Seq<NoticeModel> {
    if revoked {
        SettleRule::CommandEve.notices(router.pending)
    } else {
        Seq::empty()
    }
}

/// A reconcile never overwrites what the operator has asked for: where another mode is pending, it
/// leaves the session as it is.
pub proof fn reconcile_steps_aside_for_the_operator(
    session: SessionModel,
    session_id: Seq<char>,
    mode: Seq<char>,
)
    requires
        session.policy.pending is Some,
        permission_mode(mode) != Some(session.policy.pending->0.mode),
    ensures
        !revokes(policy_preparation(session, session_id, mode, PolicyChangeOrigin::Reconcile)),
{
}

/// Begins a change of policy: it is asked for in the session, and the router takes back whatever
/// the policy in force covered, before the transport is told.
pub fn prepare_command_eve_policy_change_state(
    session: &mut AcpSession,
    router: &mut PermissionRouter,
    session_id: &str,
    mode: &str,
    origin: PolicyChangeOrigin,
) -> (r: (PolicyPreparation, Vec<SettledNotice>))
    requires
        old(session).wf(),
        old(session)@.has_revisions(),
        old(router).wf(),
    ensures
        final(session).wf(),
        final(router).wf(),
        r.0 == policy_preparation(old(session)@, session_id@, mode@, origin),
        final(session)@ == if revokes(r.0) {
            old(session)@.asking_policy(mode@)
        } else {
            old(session)@
        },
        final(router)@ == if revokes(r.0) {
            old(router)@.without_policy()
        } else {
            old(router)@
        },
        notices_view(r.1@) == revocation_notices(old(router)@, revokes(r.0)),
{
    assert(notices_view(Seq::<SettledNotice>::empty()) =~= Seq::<NoticeModel>::empty());
    let own_session = match session.session_id() {
        Some(own) => same_text(own, session_id),
        None => false,
    };
    if !own_session {
        return (PolicyPreparation::OtherSession, Vec::new());
    }
    if origin == PolicyChangeOrigin::Reconcile {
        if let Some(pending) = session.pending_command_eve_mode() {
            let same = match PermissionMode::parse(mode) {
                Some(wanted) => wanted == pending,
                None => false,
            };
            if !same {
                return (PolicyPreparation::Superseded, Vec::new());
            }
        }
    }
    let outcome = session.request_command_eve_policy(ModeId::new(mode));
    let notices = router.revoke_command_eve_policy();
    match outcome {
        Ok(()) => (PolicyPreparation::Ready, notices),
        Err(error) => (PolicyPreparation::Refused(error), notices),
    }
}

/// What a reconcile found when it planned.
#[derive(Debug)]
pub struct PlanReport {
    pub seed_results: Vec<PendingStartupConfigSeedResult>,
    pub invalid_mode: Option<ModeId>,
    pub invalid_model: Option<ModelId>,
}

/// A session with its pending seeds resolved.
pub open spec fn seeds_resolved(session: SessionModel) -> SessionModel {
    session.unseeded().after_seeds(session.pending_seeds)
}

/// The wanted mode that has to go.
pub open spec fn dropped_mode(session: SessionModel, hermes: bool) -> Option<Seq<char>> {
    if hermes {
        session.invalid_policy_mode()
    } else {
        session.invalid_mode()
    }
}

/// A session without a wanted mode or model that has to go.
pub open spec fn cleaned(session: SessionModel, hermes: bool) -> SessionModel {
    let moded = if dropped_mode(session, hermes) is Some {
        SessionModel { desired_mode: None, ..session }
    } else {
        session
    };
    if moded.invalid_model() is Some {
        SessionModel { desired_model: None, ..moded }
    } else {
        moded
    }
}

/// A session when a run begins, before what has to go has gone.
pub open spec fn seeded_and_migrated(session: SessionModel, hermes: bool) -> SessionModel {
    if hermes {
        seeds_resolved(session).with_mode_migrated()
    } else {
        seeds_resolved(session)
    }
}

/// A session when a run begins.
pub open spec fn ready_to_plan(session: SessionModel, hermes: bool) -> SessionModel {
    cleaned(seeded_and_migrated(session, hermes), hermes)
}

/// The wanted model that has to go.
pub open spec fn dropped_model(session: SessionModel, hermes: bool) -> Option<Seq<char>> {
    if dropped_mode(session, hermes) is Some {
        (SessionModel { desired_mode: None, ..session }).invalid_model()
    } else {
        session.invalid_model()
    }
}

/// The mode whose policy has to be put in force where none is: the wanted one, else the asking one.
/// What the transport reports never counts.
pub open spec fn fallback_mode(session: SessionModel, hermes: bool) -> Option<Seq<char>> {
    let mode = match session.desired_mode {
        Some(mode) => mode,
        None => "default"@,
    };
    if hermes && session.policy.routable() is None && !session.mode_drifts() && !(permission_mode(
        mode,
    ) == Some(PermissionMode::Guarded) && !session.policy.available(PermissionMode::Guarded)) {
        Some(mode)
    } else {
        None
    }
}

/// Whether a queue is what has to be done for a session.
pub open spec fn is_queue(queue: Seq<ActionModel>, session: SessionModel, hermes: bool) -> bool {
    match fallback_mode(session, hermes) {
        Some(mode) => queue.len() > 0 && queue.last() == (ActionModel::SetMode { mode })
            && session.is_plan(queue.drop_last()),
        None => session.is_plan(queue),
    }
}

/// Being another action.
pub open spec fn other_than(executed: ActionModel) -> spec_fn(ActionModel) -> bool {
    |action: ActionModel| action != executed
}

/// Whether a queue is a plan without one action.
pub open spec fn is_rest_of_plan(
    queue: Seq<ActionModel>,
    session: SessionModel,
    executed: ActionModel,
) -> bool {
    exists|plan: Seq<ActionModel>| #[trigger]
        session.is_plan(plan) && queue == plan.filter(other_than(executed))
}

/// A run of bringing an agent in line with what the user wants.
#[derive(Debug)]
pub struct ReconcileRun {
    hermes: bool,
    queue: Vec<ReconcileAction>,
    executed: usize,
    awaiting: Awaiting,
}

impl View for ReconcileRun {
    type V = RunModel;

    closed spec fn view(&self) -> RunModel {
        RunModel {
            hermes: self.hermes,
            queue: actions_view(self.queue@),
            executed: self.executed as nat,
            awaiting: match self.awaiting {
                Awaiting::Nothing => AwaitingModel::Nothing,
                Awaiting::Normalized => AwaitingModel::Normalized,
                Awaiting::ModeSet { normalized } => AwaitingModel::ModeSet {
                    normalized: normalized@,
                },
                Awaiting::ModelSet => AwaitingModel::ModelSet,
                Awaiting::ConfigSet { key, value } => AwaitingModel::ConfigSet {
                    key: key@,
                    value: value@,
                },
            },
        }
    }
}

fn clean(session: &mut AcpSession, hermes: bool) -> (r: (Option<ModeId>, Option<ModelId>))
    requires
        old(session).wf(),
    ensures
        final(session).wf(),
        final(session)@ == cleaned(old(session)@, hermes),
        mode_view(r.0) == dropped_mode(old(session)@, hermes),
        model_view(r.1) == dropped_model(old(session)@, hermes),
{
    let invalid_mode = if hermes {
        session.clear_invalid_command_eve_desired_mode()
    } else {
        session.clear_invalid_desired_mode()
    };
    let invalid_model = session.clear_invalid_desired_model();
    (invalid_mode, invalid_model)
}

impl ReconcileRun {
    /// Begins a run: resolves what waited for the agent's options, takes a mode out of the wanted
    /// configuration, drops what the agent does not offer, and plans. Returns what has to be told
    /// of it and the error, if any, with which a mode of the configuration was refused.
    pub fn begin(session: &mut AcpSession, router: &mut PermissionRouter, hermes: bool) -> (r: (
        ReconcileRun,
        PlanReport,
        Option<PolicyGateError>,
        Vec<SettledNotice>,
    ))
        requires
            old(session).wf(),
            old(session)@.has_revisions(),
            old(router).wf(),
        ensures
            final(session).wf(),
            final(router).wf(),
            final(session)@ == ready_to_plan(old(session)@, hermes),
            final(router)@ == if hermes && seeds_resolved(old(session)@).configured_mode() is Some {
                old(router)@.without_policy()
            } else {
                old(router)@
            },
            notices_view(r.3@) == revocation_notices(
                old(router)@,
                hermes && seeds_resolved(old(session)@).configured_mode() is Some,
            ),
            r.0@.hermes == hermes,
            r.0@.executed == 0,
            r.0@.awaiting == AwaitingModel::Nothing,
            is_queue(r.0@.queue, final(session)@, hermes),
            results_view(r.1.seed_results@) == old(session)@.unseeded().seed_results(
                old(session)@.pending_seeds,
            ),
            mode_view(r.1.invalid_mode) == dropped_mode(
                seeded_and_migrated(old(session)@, hermes),
                hermes,
            ),
            model_view(r.1.invalid_model) == dropped_model(
                seeded_and_migrated(old(session)@, hermes),
                hermes,
            ),
            r.2 == if hermes && seeds_resolved(old(session)@).configured_mode() is Some {
                seeds_resolved(old(session)@).policy_fault(
                    seeds_resolved(old(session)@).configured_mode()->0,
                )
            } else {
                None
            },
    {
        proof {
            lemma_seeds_keep_policy(session@.unseeded(), session@.pending_seeds);
            assert(notices_view(Seq::<SettledNotice>::empty()) =~= Seq::<NoticeModel>::empty());
        }
        let seed_results = session.resolve_pending_startup_config_seeds();
        let mut notices: Vec<SettledNotice> = Vec::new();
        let mut refusal: Option<PolicyGateError> = None;
        if hermes {
            match session.migrate_command_eve_mode_config_intent() {
                Ok(Some(_)) => {
                    notices = router.revoke_command_eve_policy();
                },
                Ok(None) => {},
                Err(error) => {
                    notices = router.revoke_command_eve_policy();
                    refusal = Some(error);
                },
            }
        }
        let (invalid_mode, invalid_model) = clean(session, hermes);
        let mut queue = session.plan_reconcile();
        let ghost plan = actions_view(queue@);
        if hermes && !session.command_eve_policy_acknowledged() && !plans_mode(&queue) {
            proof {
                lemma_plan_mode(session@, plan);
            }
            let mode = match session.desired_mode() {
                Some(mode) => mode.to_owned(),
                None => "default".to_owned(),
            };
            if session.ensure_command_eve_mode_available(mode.as_str()).is_ok() {
                queue.push(ReconcileAction::SetMode { mode: ModeId::new(mode.as_str()) });
                assert(actions_view(queue@).drop_last() =~= plan);
            }
        } else {
            proof {
                lemma_plan_mode(session@, plan);
            }
        }
        (
            ReconcileRun { hermes, queue, executed: 0, awaiting: Awaiting::Nothing },
            PlanReport { seed_results, invalid_mode, invalid_model },
            refusal,
            notices,
        )
    }

    /// Takes up the next action.
    pub fn next(&mut self) -> (r: ReconcileCommand)
        ensures
            final(self)@ == old(self)@.next(),
            r@ == old(self)@.next_command(),
    {
        let ghost before = self@;
        if self.queue.len() == 0 || self.executed >= MAX_RECONCILE_ACTIONS {
            self.queue = Vec::new();
            self.awaiting = Awaiting::Nothing;
            assert(self@.queue =~= Seq::<ActionModel>::empty());
            return ReconcileCommand::Done;
        }
        let action = self.queue.remove(0);
        assert(self@.queue =~= before.queue.drop_first());
        assert(action@ == before.queue[0]);
        self.executed = self.executed + 1;
        match action {
            ReconcileAction::SetMode { mode } => {
                self.awaiting = Awaiting::Normalized;
                ReconcileCommand::NormalizeMode { mode }
            },
            ReconcileAction::SetModel { model } => {
                self.awaiting = Awaiting::ModelSet;
                ReconcileCommand::SetModel { model }
            },
            ReconcileAction::SetConfigOption { key, value } => {
                self.awaiting = Awaiting::ConfigSet { key: key.clone(), value: value.clone() };
                ReconcileCommand::SetConfigOption { key, value }
            },
        }
    }

    /// The name by which the agent knows the mode was found. Without a name the action is skipped.
    /// Under Command EVE the policy is asked for first, and the transport is told its asking mode;
    /// where the policy cannot be asked for, or the operator has asked for another one, the action
    /// is skipped.
    pub fn on_normalized(
        &mut self,
        session: &mut AcpSession,
        router: &mut PermissionRouter,
        session_id: &str,
        normalized: &str,
    ) -> (r: (ReconcileCommand, Option<PolicyPreparation>, Vec<SettledNotice>))
        requires
            old(self)@.awaiting == AwaitingModel::Normalized,
            old(session).wf(),
            old(session)@.has_revisions(),
            old(router).wf(),
        ensures
            final(session).wf(),
            final(router).wf(),
            final(self)@.hermes == old(self)@.hermes,
            ({
                let prepares = old(self)@.hermes && normalized@.len() > 0;
                let preparation = policy_preparation(
                    old(session)@,
                    session_id@,
                    normalized@,
                    PolicyChangeOrigin::Reconcile,
                );
                &&& r.1 == if prepares {
                    Some(preparation)
                } else {
                    None
                }
                &&& final(session)@ == if prepares && revokes(preparation) {
                    old(session)@.asking_policy(normalized@)
                } else {
                    old(session)@
                }
                &&& final(router)@ == if prepares && revokes(preparation) {
                    old(router)@.without_policy()
                } else {
                    old(router)@
                }
                &&& notices_view(r.2@) == revocation_notices(
                    old(router)@,
                    prepares && revokes(preparation),
                )
                &&& final(self)@ == old(self)@.normalized(normalized@, preparation)
                &&& r.0@ == old(self)@.normalized_command(normalized@, preparation)
            }),
    {
        assert(notices_view(Seq::<SettledNotice>::empty()) =~= Seq::<NoticeModel>::empty());
        if normalized.is_empty() {
            return (self.next(), None, Vec::new());
        }
        if !self.hermes {
            self.awaiting = Awaiting::ModeSet { normalized: normalized.to_owned() };
            return (
                ReconcileCommand::SetMode { transport_mode: normalized.to_owned() },
                None,
                Vec::new(),
            );
        }
        let (preparation, notices) = prepare_command_eve_policy_change_state(
            session,
            router,
            session_id,
            normalized,
            PolicyChangeOrigin::Reconcile,
        );
        if preparation != PolicyPreparation::Ready {
            return (self.next(), Some(preparation), notices);
        }
        self.awaiting = Awaiting::ModeSet { normalized: normalized.to_owned() };
        (
            ReconcileCommand::SetMode {
                transport_mode: command_eve_transport_mode(normalized).to_owned(),
            },
            Some(preparation),
            notices,
        )
    }
}

fn plans_mode(queue: &Vec<ReconcileAction>) -> (r: bool)
    ensures
        r == exists|i: int|
            0 <= i < queue@.len() && (#[trigger] actions_view(queue@)[i]) is SetMode,
{
    let mut i: usize = 0;
    while i < queue.len()
        invariant
            i <= queue@.len(),
            forall|j: int| 0 <= j < i ==> !((#[trigger] actions_view(queue@)[j]) is SetMode),
        decreases queue@.len() - i,
    {
        assert(actions_view(queue@)[i as int] == queue@[i as int]@);
        if let ReconcileAction::SetMode { mode: _ } = &queue[i] {
            return true;
        }
        i = i + 1;
    }
    false
}

/// A plan sets the mode exactly where it has to be set.
proof fn lemma_plan_mode(session: SessionModel, plan: Seq<ActionModel>)
    requires
        session.is_plan(plan),
    ensures
        session.mode_drifts() <==> exists|i: int|
            0 <= i < plan.len() && (#[trigger] plan[i]) is SetMode,
{
    let first = session.catalog_plan();
    if session.mode_drifts() {
        assert(first[0] is SetMode);
        assert(plan[0] == plan.subrange(0, first.len() as int)[0]);
    } else if exists|i: int| 0 <= i < plan.len() && (#[trigger] plan[i]) is SetMode {
        let i = choose|i: int| 0 <= i < plan.len() && (#[trigger] plan[i]) is SetMode;
        if i < first.len() {
            assert(plan.subrange(0, first.len() as int)[i] == plan[i]);
            assert(first[i] is SetModel);
        } else {
            let key = choose|key: Seq<char>|
                session.config_drifts(key) && plan[i] == session.config_action(key);
            assert(plan[i] is SetConfigOption);
        }
    }
}

proof fn lemma_seeds_keep_policy(
    session: SessionModel,
    seeds: Seq<SeedModel>,
)
    ensures
        session.after_seeds(seeds).policy == session.policy,
    decreases seeds.len(),
{
    if seeds.len() > 0 {
        lemma_seeds_keep_policy(session, seeds.drop_last());
    }
}

/// The actions of a plan but those that do the same as one.
fn without_action(plan: Vec<ReconcileAction>, executed: &ReconcileAction) -> (r: Vec<
    ReconcileAction,
>)
    ensures
        actions_view(r@) == actions_view(plan@).filter(other_than(executed@)),
{
    let ghost held = actions_view(plan@);
    let ghost keep = other_than(executed@);
    let mut rest = plan;
    let mut out: Vec<ReconcileAction> = Vec::new();
    let ghost mut taken: int = 0;
    proof {
        reveal(Seq::filter);
        assert(held.subrange(0, 0) =~= Seq::<ActionModel>::empty());
        assert(actions_view(out@) =~= held.subrange(0, 0).filter(keep));
        assert(held.subrange(0, held.len() as int) =~= held);
    }
    while rest.len() > 0
        invariant
            0 <= taken <= held.len(),
            keep == other_than(executed@),
            actions_view(rest@) == held.subrange(taken, held.len() as int),
            actions_view(out@) == held.subrange(0, taken).filter(keep),
        decreases rest@.len(),
    {
        let ghost before = out@;
        let ghost remaining = rest@;
        let action = rest.remove(0);
        proof {
            assert(actions_view(remaining).len() == remaining.len());
            assert(actions_view(remaining).len() == held.len() - taken);
            let upto = held.subrange(0, taken + 1);
            assert(actions_view(remaining)[0] == action@);
            assert(upto.drop_last() =~= held.subrange(0, taken));
            assert(upto.last() == action@);
            reveal(Seq::filter);
            assert(actions_view(rest@) =~= actions_view(remaining).drop_first());
            assert(actions_view(rest@) =~= held.subrange(taken + 1, held.len() as int));
        }
        if !action.same_as(executed) {
            let ghost kept = action@;
            out.push(action);
            assert(actions_view(out@) =~= actions_view(before).push(kept));
        }
        proof {
            taken = taken + 1;
        }
    }
    proof {
        assert(actions_view(rest@).len() == 0);
        assert(held.subrange(0, taken) =~= held);
    }
    out
}

/// A session after the transport has taken its asking mode for a policy.
pub open spec fn mode_set_session(session: SessionModel, normalized: Seq<char>) -> SessionModel {
    session.observing_transport(
        "default"@,
        catalog_at(session.modes, "default"@),
    ).acknowledging_policy(normalized)
}

/// Whether the policy of a mode is in force once the transport has taken its asking mode.
pub open spec fn policy_taken(session: SessionModel, normalized: Seq<char>) -> bool {
    session.policy_fault(normalized) is None && session.policy.accepts(
        permission_mode(normalized)->0,
    )
}

/// The router after the transport has taken its asking mode: under the policy that is in force, where
/// the mode was taken.
pub open spec fn mode_set_router(
    router: RouterModel,
    session: SessionModel,
    taken: bool,
) -> RouterModel {
    if taken && session.policy.routable() is Some {
        router.under_policy(session.policy.routable()->0)
    } else {
        router
    }
}

/// What is told when the transport has taken its asking mode.
pub open spec fn mode_set_notices(
    router: RouterModel,
    session: SessionModel,
    taken: bool,
) -> Seq<NoticeModel> {
    if taken && session.policy.routable() is Some {
        (SettleRule::Policy {
            policy_revision: session.policy.routable()->0.policy_revision,
            session_epoch: session.policy.routable()->0.session_epoch,
        }).notices(router.pending)
    } else {
        Seq::empty()
    }
}

/// A session after the agent has reported its options.
pub open spec fn options_reported(
    session: SessionModel,
    hermes: bool,
    options: Seq<SessionConfigOption>,
    modes: Option<CatalogModel>,
    models: Option<CatalogModel>,
) -> SessionModel {
    if hermes {
        session.observing_options(options, None, models, false)
    } else {
        session.observing_options(options, modes, models, true)
    }
}

impl ReconcileRun {
    /// The transport has taken the mode. Under Command EVE that puts the policy in force, unless the
    /// acknowledgement is stale. Returns whether the session has changes to store.
    pub fn on_mode_set(&mut self, session: &mut AcpSession, router: &mut PermissionRouter) -> (r: (
        ReconcileCommand,
        bool,
        Vec<SettledNotice>,
    ))
        requires
            old(self)@.awaiting is ModeSet,
            old(session).wf(),
            old(session)@.has_revisions(),
            old(router).wf(),
        ensures
            final(session).wf(),
            final(router).wf(),
            final(self)@ == old(self)@.next(),
            r.0@ == old(self)@.next_command(),
            ({
                let normalized = old(self)@.awaiting->normalized;
                let taken = old(self)@.hermes && policy_taken(old(session)@, normalized);
                &&& r.1 == taken
                &&& final(session)@ == if old(self)@.hermes {
                    mode_set_session(old(session)@, normalized)
                } else {
                    old(session)@
                }
                &&& final(router)@ == mode_set_router(old(router)@, final(session)@, taken)
                &&& notices_view(r.2@) == mode_set_notices(old(router)@, final(session)@, taken)
            }),
    {
        let mut notices: Vec<SettledNotice> = Vec::new();
        assert(notices_view(notices@) =~= Seq::<NoticeModel>::empty());
        let mut taken = false;
        if self.hermes {
            if let Awaiting::ModeSet { normalized } = &self.awaiting {
                let _ = session.apply_command_eve_transport_mode(ModeId::new("default"));
                if session.acknowledge_command_eve_policy(
                    ModeId::new(normalized.as_str()),
                ).is_some() {
                    taken = true;
                    if let Some(snapshot) = session.command_eve_policy_snapshot() {
                        notices = router.apply_policy_snapshot(snapshot);
                    }
                }
            }
        }
        (self.next(), taken, notices)
    }

    /// The agent has taken the model.
    pub fn on_model_set(&mut self) -> (r: ReconcileCommand)
        requires
            old(self)@.awaiting == AwaitingModel::ModelSet,
        ensures
            final(self)@ == old(self)@.next(),
            r@ == old(self)@.next_command(),
    {
        self.next()
    }

    /// The agent has taken a configuration value and reports its options. `options` is the list that
    /// merging them into those advertised before gives, with the modes and models that follow from
    /// it. What is left to be done is planned anew, without the action that was just executed.
    pub fn on_config_set(
        &mut self,
        session: &mut AcpSession,
        options: Vec<SessionConfigOption>,
        modes: Option<SessionModeState>,
        models: Option<SessionModelState>,
    ) -> (r: (ReconcileCommand, PlanReport))
        requires
            old(self)@.awaiting is ConfigSet,
            old(session).wf(),
            old(session)@.has_revisions(),
        ensures
            final(session).wf(),
            ({
                let reported = options_reported(
                    old(session)@,
                    old(self)@.hermes,
                    options@,
                    modes_view(modes),
                    models_view(models),
                );
                &&& final(session)@ == cleaned(seeds_resolved(reported), old(self)@.hermes)
                &&& results_view(r.1.seed_results@) == reported.unseeded().seed_results(
                    reported.pending_seeds,
                )
                &&& mode_view(r.1.invalid_mode) == dropped_mode(
                    seeds_resolved(reported),
                    old(self)@.hermes,
                )
                &&& model_view(r.1.invalid_model) == dropped_model(
                    seeds_resolved(reported),
                    old(self)@.hermes,
                )
            }),
            exists|queue: Seq<ActionModel>|
                #[trigger] is_rest_of_plan(queue, final(session)@, old(self)@.awaited_action())
                    && final(self)@ == old(self)@.replanned(queue).next() && r.0@ == old(
                    self,
                )@.replanned(queue).next_command(),
    {
        let hermes = self.hermes;
        if hermes {
            session.apply_command_eve_advertised_config_options(options, models);
        } else {
            session.apply_advertised_config_options(options, modes, models);
        }
        let seed_results = session.resolve_pending_startup_config_seeds();
        let (invalid_mode, invalid_model) = clean(session, hermes);
        let plan = session.plan_reconcile();
        let ghost planned = actions_view(plan@);
        let ghost before = self@;
        if let Awaiting::ConfigSet { key, value } = &self.awaiting {
            let executed = ReconcileAction::SetConfigOption {
                key: key.clone(),
                value: value.clone(),
            };
            self.queue = without_action(plan, &executed);
            assert(is_rest_of_plan(self@.queue, session@, executed@));
            assert(self@ == before.replanned(self@.queue));
        }
        (self.next(), PlanReport { seed_results, invalid_mode, invalid_model })
    }

    /// A request has failed. Where the agent does not know the session the run is over; any other
    /// failure skips the action.
    pub fn on_failed(&mut self, session_not_found: bool) -> (r: ReconcileCommand)
        ensures
            final(self)@ == old(self)@.failed(session_not_found),
            r@ == old(self)@.failed_command(session_not_found),
    {
        if session_not_found {
            self.queue = Vec::new();
            self.awaiting = Awaiting::Nothing;
            assert(self@.queue =~= Seq::<ActionModel>::empty());
            return ReconcileCommand::Aborted;
        }
        self.next()
    }
}

/// A run takes up its actions in the order of its queue, each once, eight at most, and waits for
/// what it has asked for.
pub proof fn actions_are_taken_up_in_order(run: RunModel)
    ensures
        run.next().hermes == run.hermes,
        run.next_command() is Done <==> run.queue.len() == 0 || run.executed >= 8,
        run.next_command() is Done ==> run.next().queue.len() == 0 && run.next().awaiting is Nothing
            && run.next().executed == run.executed,
        !(run.next_command() is Done) ==> {
            &&& run.queue == seq![run.queue.first()] + run.next().queue
            &&& run.next().executed == run.executed + 1
            &&& match run.queue.first() {
                ActionModel::SetMode { mode } => run.next_command() == (
                CommandModel::NormalizeMode { mode }) && run.next().awaiting is Normalized,
                ActionModel::SetModel { model } => run.next_command() == (
                CommandModel::SetModel { model }) && run.next().awaiting is ModelSet,
                ActionModel::SetConfigOption { key, value } => run.next_command() == (
                CommandModel::SetConfigOption { key, value }) && run.next().awaiting == (
                AwaitingModel::ConfigSet { key, value }) && run.next().awaited_action()
                    == run.queue.first(),
            }
        },
        run.over().queue.len() == 0,
        run.over().awaiting is Nothing,
{
    if run.goes_on() {
        assert(run.queue =~= seq![run.queue.first()] + run.next().queue);
    }
}

/// A mode without a name on the agent is skipped. Under Command EVE the transport is only ever put
/// into its asking mode, and only for a policy that could be asked for; any other agent is set to
/// the mode itself.
pub proof fn transport_is_set_to_the_asking_mode(
    run: RunModel,
    normalized: Seq<char>,
    preparation: PolicyPreparation,
)
    ensures
        ({
            let command = run.normalized_command(normalized, preparation);
            let after = run.normalized(normalized, preparation);
            let skipped = normalized.len() == 0 || (run.hermes && !(preparation is Ready));
            &&& skipped ==> command == run.next_command() && after == run.next()
            &&& !skipped && run.hermes ==> command == (CommandModel::SetMode {
                transport_mode: "default"@,
            })
            &&& !skipped && !run.hermes ==> command == (CommandModel::SetMode {
                transport_mode: normalized,
            })
            &&& !skipped ==> after.awaiting == (AwaitingModel::ModeSet { normalized })
                && after.queue == run.queue && after.executed == run.executed && after.hermes
                == run.hermes
        }),
{
}

/// A policy is asked for exactly where it is for the session itself, names a mode that the runtime
/// can run, and, where a reconcile wants it, the operator is not waiting for another one. The
/// policy in force is taken back then, and where the mode cannot be run, and in no other case.
pub proof fn policy_is_prepared_for_its_own_session(
    session: SessionModel,
    session_id: Seq<char>,
    mode: Seq<char>,
    origin: PolicyChangeOrigin,
)
    ensures
        ({
            let preparation = policy_preparation(session, session_id, mode, origin);
            let own = session.session_id == Some(session_id);
            let named = permission_mode(mode);
            let contradicted = session.policy.pending is Some && named != Some(
                session.policy.pending->0.mode,
            );
            let aside = origin is Reconcile && contradicted;
            let runs = named is Some && !(named->0 is Guarded
                && !session.policy.capabilities.complete());
            &&& preparation is OtherSession <==> !own
            &&& preparation is Superseded <==> own && aside
            &&& preparation is Ready <==> own && !aside && runs
            &&& own && !aside && named is None ==> preparation == PolicyPreparation::Refused(
                PolicyGateError::UnsupportedPermissionMode,
            )
            &&& own && !aside && named is Some && !runs ==> preparation
                == PolicyPreparation::Refused(PolicyGateError::GuardedAutoUnavailable)
            &&& revokes(preparation) <==> own && !aside
        }),
{
}

/// Taking back the policy in force tells of every pending permission that it ends, and not taking
/// it back tells of nothing.
pub proof fn revocation_is_told(router: RouterModel)
    ensures
        revocation_notices(router, false).len() == 0,
        revocation_notices(router, true) == SettleRule::CommandEve.notices(router.pending),
{
}

/// A wanted mode or model goes exactly where the agent does not offer it, or, under Command EVE,
/// where the mode names no policy that the runtime can run. What goes is what was wanted, and
/// nothing else changes.
pub proof fn unavailable_wishes_are_dropped(session: SessionModel, hermes: bool)
    ensures
        ({
            let after = cleaned(session, hermes);
            let mode_goes = session.desired_mode is Some && if hermes {
                session.policy_fault(session.desired_mode->0) is Some
            } else {
                session.modes is Some && !session.modes->0.offers(session.desired_mode->0)
            };
            let model_goes = session.desired_model is Some && session.models is Some
                && !session.models->0.offers(session.desired_model->0);
            &&& after.desired_mode == if mode_goes {
                None
            } else {
                session.desired_mode
            }
            &&& after.desired_model == if model_goes {
                None
            } else {
                session.desired_model
            }
            &&& dropped_mode(session, hermes) == if mode_goes {
                session.desired_mode
            } else {
                None
            }
            &&& dropped_model(session, hermes) == if model_goes {
                session.desired_model
            } else {
                None
            }
            &&& after == (SessionModel {
                desired_mode: after.desired_mode,
                desired_model: after.desired_model,
                ..session
            })
        }),
{
}

/// A run resolves the pending seeds, and under Command EVE takes the mode out of the wanted
/// configuration, before it drops what cannot be had.
pub proof fn run_begins_with_the_seeds(session: SessionModel)
    ensures
        ready_to_plan(session, false) == cleaned(
            (SessionModel { pending_seeds: Seq::empty(), ..session }).after_seeds(
                session.pending_seeds,
            ),
            false,
        ),
        ready_to_plan(session, true) == cleaned(
            (SessionModel { pending_seeds: Seq::empty(), ..session }).after_seeds(
                session.pending_seeds,
            ).with_mode_migrated(),
            true,
        ),
{
}

/// While no policy is in force, a run under Command EVE sets the wanted mode, else the asking one,
/// unless the runtime cannot run it. A run for any other agent only executes the plan, and so does
/// one under Command EVE while a policy is in force.
pub proof fn run_puts_a_policy_in_force(queue: Seq<ActionModel>, session: SessionModel, hermes: bool)
    requires
        is_queue(queue, session, hermes),
    ensures
        ({
            let mode = if session.desired_mode is Some {
                session.desired_mode->0
            } else {
                "default"@
            };
            let lacking = session.policy.pending is Some || session.policy.acknowledged is None;
            let runs = permission_mode(mode) != Some(PermissionMode::Guarded)
                || session.policy.capabilities.complete();
            &&& hermes && lacking && runs ==> queue.contains(ActionModel::SetMode { mode })
            &&& !(hermes && lacking && runs) ==> session.is_plan(queue)
        }),
{
    let mode = if session.desired_mode is Some {
        session.desired_mode->0
    } else {
        "default"@
    };
    if fallback_mode(session, hermes) is Some {
        assert(queue[queue.len() - 1] == (ActionModel::SetMode { mode }));
    } else if session.mode_drifts() {
        let first = session.catalog_plan();
        assert(queue[0] == queue.subrange(0, first.len() as int)[0]);
        assert(queue[0] == (ActionModel::SetMode { mode }));
    }
}

/// What is left after an action was executed holds every other action of the plan, and not that
/// one again.
pub proof fn executed_action_is_not_repeated(
    queue: Seq<ActionModel>,
    session: SessionModel,
    executed: ActionModel,
)
    requires
        is_rest_of_plan(queue, session, executed),
    ensures
        !queue.contains(executed),
        exists|plan: Seq<ActionModel>| #[trigger]
            session.is_plan(plan) && forall|action: ActionModel|
                action != executed ==> (#[trigger] queue.contains(action) <==> plan.contains(
                    action,
                )),
{
    let plan = choose|plan: Seq<ActionModel>| #[trigger]
        session.is_plan(plan) && queue == plan.filter(other_than(executed));
    let keep = other_than(executed);
    broadcast use vstd::seq_lib::group_filter_ensures;

    assert forall|action: ActionModel| action != executed implies (#[trigger] queue.contains(action)
        <==> plan.contains(action)) by {
        if plan.contains(action) {
            let i = choose|i: int| 0 <= i < plan.len() && plan[i] == action;
            assert(keep(plan[i]));
            plan.lemma_filter_contains(keep, i);
        }
        if queue.contains(action) {
            let j = choose|j: int| 0 <= j < queue.len() && queue[j] == action;
            plan.lemma_filter_contains_rev(keep, queue[j]);
        }
    }
    if queue.contains(executed) {
        let i = choose|i: int| 0 <= i < queue.len() && queue[i] == executed;
        assert(keep(queue[i]));
    }
}

/// Once the transport has taken its asking mode, the mode that was asked for is in force and
/// wanted. An acknowledgement that cannot be taken leaves the policy and what is wanted.
pub proof fn set_mode_puts_its_policy_in_force(session: SessionModel, normalized: Seq<char>)
    ensures
        ({
            let after = mode_set_session(session, normalized);
            let mode = permission_mode(normalized);
            let taken = policy_taken(session, normalized);
            &&& after.observed_mode == Some("default"@)
            &&& after.modes is Some && after.modes->0.current == "default"@
            &&& session.modes is Some ==> after.modes->0.available == session.modes->0.available
            &&& taken <==> mode is Some && (mode->0 is Guarded
                ==> session.policy.capabilities.complete()) && session.policy.runtime_receipt
                is Some && session.policy.session_epoch != 0 && (session.policy.pending is Some
                ==> session.policy.pending->0.mode == mode->0)
            &&& taken ==> {
                &&& after.policy.pending is None
                &&& after.policy.acknowledged is Some
                &&& after.policy.acknowledged->0.mode == mode->0
                &&& after.desired_mode == Some(normalized)
            }
            &&& !taken ==> after.policy == session.policy
        }),
{
}

/// Under Command EVE what the agent reports as its mode is not taken for it: a report of options
/// leaves the mode, the offered modes and the policy. Any other agent is taken at its word.
pub proof fn reported_mode_counts_only_for_other_agents(
    session: SessionModel,
    options: Seq<SessionConfigOption>,
    modes: Option<CatalogModel>,
    models: Option<CatalogModel>,
)
    ensures
        ({
            let after = options_reported(session, true, options, modes, models);
            &&& after.observed_mode == session.observed_mode
            &&& after.modes == session.modes
            &&& after.policy == session.policy
            &&& after.config_options == Some(options)
        }),
        ({
            let after = options_reported(session, false, options, modes, models);
            &&& modes is Some ==> after.observed_mode == Some(modes->0.current) && after.modes
                == modes
            &&& modes is None ==> after.observed_mode == session.observed_mode && after.modes
                == session.modes
            &&& after.config_options == Some(options)
        }),
{
}

/// A run is aborted exactly where the agent does not know the session, with nothing left to do. Any
/// other failure skips the action and goes on with the next.
pub proof fn lost_session_aborts_the_run(run: RunModel)
    ensures
        run.failed_command(true) is Aborted,
        run.failed(true).queue.len() == 0,
        run.failed(true).awaiting is Nothing,
        run.failed_command(false) == run.next_command(),
        !(run.failed_command(false) is Aborted),
        run.failed(false) == run.next(),
{
}

/// A mode that was taken puts its policy in force in the router too, and one that was not leaves the
/// router and tells nothing.
pub proof fn taken_mode_reaches_the_router(
    router: RouterModel,
    session: SessionModel,
    normalized: Seq<char>,
)
    ensures
        mode_set_router(router, session, false) == router,
        mode_set_notices(router, session, false).len() == 0,
        policy_taken(session, normalized) ==> {
            let after = mode_set_session(session, normalized);
            let routed = mode_set_router(router, after, true);
            &&& routed.policy == after.policy.acknowledged
            &&& routed.policy is Some
            &&& Some(routed.policy->0.mode) == permission_mode(normalized)
            &&& mode_set_notices(router, after, true) == (SettleRule::Policy {
                policy_revision: routed.policy->0.policy_revision,
                session_epoch: routed.policy->0.session_epoch,
            }).notices(router.pending)
        },
{
}

} // verus!
